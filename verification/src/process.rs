//! What comes of running git.
//!
//! The caller spawns the process, waits and sends signals; the functions here say what to wait
//! for, whom to signal and what the outcome is.
use vstd::prelude::*;
use vstd::string::*;
use vstd::utf8::{
    decode_utf8, encode_utf8, encode_utf8_decode_utf8, encode_utf8_valid_utf8, valid_utf8,
};

use crate::mirror::{SyncError, SyncErrorView};
use crate::text::{
    is_white_space, law_trimming_takes_the_ends_alone, res_view, trim, trimmed, white_space,
};

verus! {

/// How many seconds a git process gets to remove its lockfiles and temporary files after SIGTERM.
pub const TERM_GRACE_SECONDS: u64 = 5;

/// Output read as UTF-8, with replacement characters for what is ill-formed.
pub uninterp spec fn output_text(bytes: Seq<u8>) -> Seq<char>;

/// Calls `String::from_utf8_lossy`. On well-formed UTF-8 that is the text it encodes; what stands
/// in for ill-formed parts is left to the name.
#[verifier::external_body]
fn read_output(bytes: &[u8]) -> (r: String)
    ensures
        r@ == output_text(bytes@),
        valid_utf8(bytes@) ==> r@ == decode_utf8(bytes@),
{
    String::from_utf8_lossy(bytes).into_owned()
}

/// The text that output is read as: what it encodes if it is well-formed UTF-8, and with
/// replacement characters if it is not.
pub open spec fn shown_output(bytes: Seq<u8>) -> Seq<char> {
    if valid_utf8(bytes) {
        decode_utf8(bytes)
    } else {
        output_text(bytes)
    }
}

/// What a process left when it ended.
#[derive(Debug)]
pub struct Output {
    pub success: bool,
    pub stdout: Vec<u8>,
    pub stderr: Vec<u8>,
}

/// The view of an [`Output`].
#[verifier::ext_equal]
pub struct OutputView {
    pub success: bool,
    pub stdout: Seq<u8>,
    pub stderr: Seq<u8>,
}

impl View for Output {
    type V = OutputView;

    open spec fn view(&self) -> OutputView {
        OutputView { success: self.success, stdout: self.stdout@, stderr: self.stderr@ }
    }
}

/// What happened first while a process was running.
#[derive(Debug)]
pub enum RunEvent {
    /// It ended, or waiting for it failed.
    Ended(Result<Output, String>),
    /// The time for it was up.
    TimedOut,
    /// The mirror is shutting down.
    Interrupted,
}

/// The view of a [`RunEvent`].
pub enum RunEventView {
    Ended(Result<OutputView, Seq<char>>),
    TimedOut,
    Interrupted,
}

impl View for RunEvent {
    type V = RunEventView;

    open spec fn view(&self) -> RunEventView {
        match self {
            RunEvent::Ended(end) => RunEventView::Ended(res_view(*end)),
            RunEvent::TimedOut => RunEventView::TimedOut,
            RunEvent::Interrupted => RunEventView::Interrupted,
        }
    }
}

/// A text about the command `what`.
pub open spec fn about(what: Seq<char>, text: Seq<char>) -> SyncErrorView {
    SyncErrorView::Git("git "@ + what + ": "@ + text)
}

/// What a process that ended by itself came to: its standard output if it succeeded, and else an
/// error with what it wrote to the standard error, trimmed.
pub open spec fn end_result(what: Seq<char>, end: Result<OutputView, Seq<char>>) -> Result<
    Seq<char>,
    SyncErrorView,
> {
    match end {
        Err(e) => Err(about(what, e)),
        Ok(output) => if output.success {
            Ok(shown_output(output.stdout))
        } else {
            Err(about(what, trimmed(shown_output(output.stderr), white_space())))
        },
    }
}

/// The process group of a process, which it leads; ids that do not fit have none.
pub open spec fn group(pid: Option<u32>) -> Option<i32> {
    match pid {
        Some(pid) => if pid <= i32::MAX {
            Some(pid as i32)
        } else {
            None
        },
        None => None,
    }
}

/// Why a process could not be started.
pub fn spawn_error(cause: String) -> (r: SyncError)
    ensures
        r@ == SyncErrorView::Git("cannot run git: "@ + cause@),
{
    SyncError::Git("cannot run git: ".to_owned().concat(cause.as_str()))
}

fn error_about(what: &str, text: &str) -> (r: SyncError)
    ensures
        r@ == about(what@, text@),
{
    SyncError::Git("git ".to_owned().concat(what).concat(": ").concat(text))
}

/// What a process that ended by itself came to.
pub fn ended(what: &str, end: Result<Output, String>) -> (r: Result<String, SyncError>)
    ensures
        res_view(r) == end_result(what@, res_view(end)),
        end matches Ok(output) ==> output.success && valid_utf8(output.stdout@) ==> (r matches Ok(
            out,
        ) && out@ == decode_utf8(output.stdout@)),
{
    match end {
        Err(e) => Err(error_about(what, e.as_str())),
        Ok(output) => if output.success {
            Ok(read_output(output.stdout.as_slice()))
        } else {
            Err(failure(what, read_output(output.stderr.as_slice()).as_str()))
        },
    }
}

/// The error of a process that failed with `stderr`.
pub fn failure(what: &str, stderr: &str) -> (r: SyncError)
    ensures
        r@ == about(what@, trimmed(stderr@, white_space())),
{
    error_about(what, trim(stderr))
}

/// A process that is to be stopped. It and its children are in one group, since git runs
/// transports as child processes, which would be orphaned if only git itself were signalled.
#[derive(Debug)]
pub struct Stopping {
    /// The group that gets SIGTERM now.
    pub group: Option<i32>,
    /// What the stopped command came to.
    pub error: SyncError,
}

/// What to do next about a process.
#[derive(Debug)]
pub enum RunStep {
    /// Nothing: this is what the command came to.
    Finished(Result<String, SyncError>),
    /// Stop it.
    Stop(Stopping),
}

/// The view of a [`RunStep`].
pub enum RunStepView {
    Finished(Result<Seq<char>, SyncErrorView>),
    Stop { group: Option<i32>, error: SyncErrorView },
}

impl View for RunStep {
    type V = RunStepView;

    open spec fn view(&self) -> RunStepView {
        match self {
            RunStep::Finished(r) => RunStepView::Finished(res_view(*r)),
            RunStep::Stop(s) => RunStepView::Stop { group: s.group, error: s.error@ },
        }
    }
}

/// What to do next about a process after an event. On timeout or shutdown its group gets SIGTERM,
/// so git removes its lockfiles.
pub open spec fn next_step(what: Seq<char>, pid: Option<u32>, event: RunEventView) -> RunStepView {
    match event {
        RunEventView::Ended(end) => RunStepView::Finished(end_result(what, end)),
        RunEventView::TimedOut => RunStepView::Stop {
            group: group(pid),
            error: SyncErrorView::Git("git "@ + what + " timed out"@),
        },
        RunEventView::Interrupted => RunStepView::Stop {
            group: group(pid),
            error: SyncErrorView::Git("git "@ + what + " interrupted by shutdown"@),
        },
    }
}

/// What to do next about the process `pid` of the command `what` after an event.
pub fn on_event(what: &str, pid: Option<u32>, event: RunEvent) -> (r: RunStep)
    ensures
        r@ == next_step(what@, pid, event@),
{
    let group: Option<i32> = match pid {
        Some(pid) => if pid <= i32::MAX as u32 {
            Some(pid as i32)
        } else {
            None
        },
        None => None,
    };
    let text = "git ".to_owned().concat(what);
    match event {
        RunEvent::Ended(end) => RunStep::Finished(ended(what, end)),
        RunEvent::TimedOut => RunStep::Stop(
            Stopping { group, error: SyncError::Git(text.concat(" timed out")) },
        ),
        RunEvent::Interrupted => RunStep::Stop(
            Stopping { group, error: SyncError::Git(text.concat(" interrupted by shutdown")) },
        ),
    }
}

/// The group that gets SIGKILL: one that is still running when the grace period is over.
pub open spec fn killed(group: Option<i32>, ended: bool) -> Option<i32> {
    if ended {
        None
    } else {
        group
    }
}

impl Stopping {
    /// The group that gets SIGKILL, when the process has `ended` within the grace period or not.
    pub fn on_grace(&self, ended: bool) -> (r: Option<i32>)
        ensures
            r == killed(self.group, ended),
    {
        if ended {
            None
        } else {
            self.group
        }
    }
}

/// Running a command succeeds exactly if the process ended by itself and with success; its
/// standard output is then the result.
pub proof fn law_success_is_the_output_of_a_successful_process(
    what: Seq<char>,
    pid: Option<u32>,
    event: RunEventView,
)
    ensures
        (next_step(what, pid, event) matches RunStepView::Finished(Ok(out)) ==> {
            &&& event matches RunEventView::Ended(Ok(output))
            &&& output.success
            &&& out == shown_output(output.stdout)
        }),
        event matches RunEventView::Ended(Ok(output)) ==> output.success ==> next_step(
            what,
            pid,
            event,
        ) == RunStepView::Finished(Ok(shown_output(output.stdout))),
{
}

/// Only a process that was asked to stop and did not within the grace period is killed.
pub proof fn law_kill_comes_after_the_grace_period(
    what: Seq<char>,
    pid: Option<u32>,
    event: RunEventView,
    ended: bool,
)
    ensures
        next_step(what, pid, event) matches RunStepView::Stop { group: g, .. } ==> {
            &&& !(event is Ended)
            &&& killed(g, ended) is Some ==> !ended && killed(g, ended) == g
            &&& !ended ==> killed(g, ended) == group(pid)
        },
{
}

/// Output that is well-formed UTF-8 is read as the text that it encodes, whole; what is ill-formed
/// is read with replacement characters.
pub proof fn law_output_reads_back(text: Seq<char>, bytes: Seq<u8>)
    ensures
        shown_output(encode_utf8(text)) == text,
        !valid_utf8(bytes) ==> shown_output(bytes) == output_text(bytes),
{
    encode_utf8_valid_utf8(text);
    encode_utf8_decode_utf8(text);
}

/// A process that ends with success gives its standard output, not a character less. One that fails
/// gives an error that names the command and what it wrote to the standard error without the white
/// space around it; and one that cannot be waited for, an error with the cause.
pub proof fn law_process_ends_by_its_own_output(
    what: Seq<char>,
    pid: Option<u32>,
    output: OutputView,
    text: Seq<char>,
    cause: Seq<char>,
)
    ensures
        output.success && (output.stdout == encode_utf8(text) || (!valid_utf8(output.stdout) && text
            == output_text(output.stdout))) ==> next_step(
            what,
            pid,
            RunEventView::Ended(Ok(output)),
        ) == RunStepView::Finished(Ok(text)),
        !output.success && (output.stderr == encode_utf8(text) || (!valid_utf8(output.stderr)
            && text == output_text(output.stderr))) ==> (next_step(
            what,
            pid,
            RunEventView::Ended(Ok(output)),
        ) matches RunStepView::Finished(Err(SyncErrorView::Git(message))) && exists|
            a: int,
            b: int,
        |
            {
                &&& 0 <= a <= b <= text.len()
                &&& message == "git "@ + what + ": "@ + #[trigger] text.subrange(a, b)
                &&& forall|i: int|
                    0 <= i < text.len() && !(a <= i < b) ==> is_white_space(#[trigger] text[i])
                &&& a < b ==> !is_white_space(text[a]) && !is_white_space(text[b - 1])
            }),
        next_step(what, pid, RunEventView::Ended(Err(cause))) == RunStepView::Finished(
            Err(SyncErrorView::Git("git "@ + what + ": "@ + cause)),
        ),
{
    law_output_reads_back(text, Seq::empty());
    let (a, b) = law_trimming_takes_the_ends_alone(text, white_space());
    let kept = text.subrange(a, b);
}

/// A process that runs out of time, or into a shutdown, is stopped by its whole group, and the
/// error says which of the two it was.
pub proof fn law_late_processes_are_stopped(what: Seq<char>, pid: Option<u32>)
    ensures
        next_step(what, pid, RunEventView::TimedOut) == (RunStepView::Stop {
            group: group(pid),
            error: SyncErrorView::Git("git "@ + what + " timed out"@),
        }),
        next_step(what, pid, RunEventView::Interrupted) == (RunStepView::Stop {
            group: group(pid),
            error: SyncErrorView::Git("git "@ + what + " interrupted by shutdown"@),
        }),
        pid matches Some(id) ==> id <= 2_147_483_647 ==> (group(pid) matches Some(g) && g == id),
        pid matches Some(id) ==> id > 2_147_483_647 ==> group(pid) is None,
        pid is None ==> group(pid) is None,
{
}

/// After the grace period, which lasts five seconds, the group that was asked to stop is killed
/// exactly if it has not ended.
pub proof fn law_only_what_still_runs_is_killed(group: Option<i32>)
    ensures
        killed(group, true) is None,
        killed(group, false) == group,
        TERM_GRACE_SECONDS == 5,
{
}

/// What happened to a process, and what it left, is seen as it is.
pub proof fn law_process_events_are_seen_as_they_are(
    output: Output,
    cause: String,
    result: Result<String, SyncError>,
    stopping: Stopping,
)
    ensures
        output@.success == output.success,
        output@.stdout == output.stdout@,
        output@.stderr == output.stderr@,
        RunEvent::Ended(Ok(output))@ == RunEventView::Ended(Ok(output@)),
        RunEvent::Ended(Err(cause))@ == RunEventView::Ended(Err(cause@)),
        RunEvent::TimedOut@ == RunEventView::TimedOut,
        RunEvent::Interrupted@ == RunEventView::Interrupted,
        result matches Ok(out) ==> RunStep::Finished(result)@ == RunStepView::Finished(Ok(out@)),
        result matches Err(e) ==> RunStep::Finished(result)@ == RunStepView::Finished(Err(e@)),
        RunStep::Stop(stopping)@ == (RunStepView::Stop {
            group: stopping.group,
            error: stopping.error@,
        }),
{
}

} // verus!
