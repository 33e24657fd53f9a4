//! The command wrapper's decision logic: how the events observed while
//! running a shell command (spawn failure, output lines, completion) become
//! the payloads streamed to the consumer, and how a finished command's
//! captured output becomes its result.
//!
//! Spawning the process, reading its output, and driving the stream are I/O
//! and live outside this crate; they hand each observed event to
//! `payload_for_event` and the final captured output to `run_outcome`.

use vstd::prelude::*;

verus! {

/// One item of the streamed command output: `success` is true only for the
/// final marker of a command that ran to completion; `output` carries one
/// line of standard output, or an error message, or nothing.
#[derive(Clone)]
pub struct Payload {
    pub success: bool,
    pub output: String,
}

/// One event observed while running a command.
pub enum CommandEvent {
    /// The process could not be spawned; carries the error message.
    SpawnFailed(String),
    /// The spawned process exposed no standard output handle.
    StdoutMissing,
    /// One line read from the process's standard output.
    OutputLine(String),
    /// The process ran to completion and its status was collected.
    Finished,
    /// Waiting for the process's status failed; carries the error message.
    WaitFailed(String),
}

/// Holds exactly when `p` is the payload owed for the event `e`: only
/// completion yields a success marker (with empty output); a line is relayed
/// verbatim; a failure relays its message; a missing output handle yields an
/// empty non-success payload.
pub open spec fn payload_matches(e: CommandEvent, p: Payload) -> bool {
    match e {
        CommandEvent::SpawnFailed(msg) => !p.success && p.output@ == msg@,
        CommandEvent::StdoutMissing => !p.success && p.output@ == Seq::<char>::empty(),
        CommandEvent::OutputLine(line) => !p.success && p.output@ == line@,
        CommandEvent::Finished => p.success && p.output@ == Seq::<char>::empty(),
        CommandEvent::WaitFailed(msg) => !p.success && p.output@ == msg@,
    }
}

/// Maps one observed event to the payload streamed to the consumer.
/// Total: every event yields exactly one payload.
pub fn payload_for_event(e: CommandEvent) -> (p: Payload)
    ensures
        payload_matches(e, p),
{
    match e {
        CommandEvent::SpawnFailed(msg) => Payload { success: false, output: msg },
        CommandEvent::StdoutMissing => Payload { success: false, output: String::new() },
        CommandEvent::OutputLine(line) => Payload { success: false, output: line },
        CommandEvent::Finished => Payload { success: true, output: String::new() },
        CommandEvent::WaitFailed(msg) => Payload { success: false, output: msg },
    }
}

/// Decides a finished command's result from its exit success and captured
/// output: on success the standard output is returned, otherwise the
/// standard error is the error value.
pub fn run_outcome(success: bool, stdout: String, stderr: String) -> (r: Result<String, String>)
    ensures
        success ==> (r matches Ok(out) && out@ == stdout@),
        !success ==> (r matches Err(e) && e@ == stderr@),
{
    if success {
        Ok(stdout)
    } else {
        Err(stderr)
    }
}

/// Law: an event yields a payload with the success marker set exactly when
/// the command finished cleanly, so a stream built from these payloads
/// carries at most line/error payloads before one final success marker.
pub proof fn lemma_success_marker(e: CommandEvent, p: Payload)
    requires
        payload_matches(e, p),
    ensures
        p.success <==> e is Finished,
{
}

} // verus!
