//! A verified HTTP request forwarder and a small command-output model.
//!
//! The forwarder receives a description of an inbound HTTP request, derives
//! the outbound request for a single fixed upstream host (stripping the
//! `host` header, reattaching query parameters, and choosing between the
//! bodyless and the body-carrying call), and maps the upstream outcome back
//! to the response the caller sees. Transport failures become a synthesized
//! `502 Bad Gateway` response; every other outcome is passed through.
//!
//! The command-output model decides, for each event observed while running
//! a shell command, the payload streamed to the consumer, and the result a
//! finished command yields. All I/O — the network attempt, process
//! spawning, the serving loop — lives outside this crate and hands the
//! library plain values.

pub mod command;
pub mod forward;
