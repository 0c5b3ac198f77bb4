//! Ending a process: a request to terminate that the process may ignore, or
//! a kill with a bounded wait until the process is seen to be gone.

use crate::host::{
    find_process, parse_pid, pid_of_text, refresh_everything, refresh_one_process, send_kill,
    send_terminate, start_time_of, system_with_everything, system_with_nothing,
};
use crate::format::decimal;
use vstd::prelude::*;
use vstd::string::*;

verus! {

/// Milliseconds between two looks at a process that was sent the kill signal.
pub const CONFIRM_POLL_MS: u64 = 200;

/// Milliseconds after which a process that is still there is given up on.
pub const CONFIRM_TIMEOUT_MS: u64 = 3000;

/// Why a process was not ended, or is not known to have ended.
#[derive(Clone, Debug, PartialEq, Eq)]
pub enum KillError {
    /// The identifier is no process identifier; `detail` says why not.
    InvalidId { detail: String },
    /// No process has the identifier.
    NotFound,
    /// The platform has no signal that asks a process to terminate.
    SignalUnsupported,
    /// The kill signal could not be sent.
    DispatchFailed,
    /// The kill signal was sent, and the process was still there when the
    /// wait ended: whether it has gone since is not known.
    TimedOut,
}

/// Which of the two ways of ending a process was taken.
#[derive(Clone, Copy, PartialEq, Eq, Structural, Debug)]
pub enum KillRequest {
    Graceful,
    Forceful,
}

/// A process to which the kill signal was sent, with the time at which it
/// had started: a process of the same identifier that started at another
/// time is another process.
#[derive(Clone, Copy, PartialEq, Eq, Structural, Debug)]
pub struct KillTicket {
    pub pid: u32,
    pub start_time: u64,
}

/// What to do next while waiting for a killed process to go.
#[derive(Clone, Copy, PartialEq, Eq, Structural, Debug)]
pub enum WaitStep {
    /// The process has gone.
    Confirmed,
    /// Wait for `millis` milliseconds, then look again.
    Sleep { millis: u64 },
    /// The process is still there and the time is up.
    TimedOut,
}

/// The result of a graceful request, from what the host answered: `None`
/// where it has no such process, else what sending the signal gave, which
/// is `None` where the platform has no such signal.
pub open spec fn graceful_result(attempt: Option<Option<bool>>) -> Result<bool, KillError> {
    match attempt {
        None => Err(KillError::NotFound),
        Some(None) => Err(KillError::SignalUnsupported),
        Some(Some(accepted)) => Ok(accepted),
    }
}

/// The result of sending the kill signal to `pid`, from what the host
/// answered: `None` where it has no such process, else the start time of
/// the process and whether the signal was sent.
pub open spec fn dispatch_result(pid: u32, attempt: Option<(u64, bool)>) -> Result<
    KillTicket,
    KillError,
> {
    match attempt {
        None => Err(KillError::NotFound),
        Some((start_time, sent)) => if sent {
            Ok(KillTicket { pid, start_time })
        } else {
            Err(KillError::DispatchFailed)
        },
    }
}

/// Whether the process of `ticket` is still there, from the start time of
/// the process that has its identifier now, if there is one.
pub open spec fn still_present(ticket: KillTicket, observed_start: Option<u64>) -> bool {
    observed_start == Some(ticket.start_time)
}

/// The next step of the wait, `waited_ms` milliseconds into it.
pub open spec fn wait_step(waited_ms: u64, present: bool) -> WaitStep {
    if !present {
        WaitStep::Confirmed
    } else if waited_ms >= CONFIRM_TIMEOUT_MS {
        WaitStep::TimedOut
    } else if CONFIRM_TIMEOUT_MS - waited_ms < CONFIRM_POLL_MS {
        WaitStep::Sleep { millis: (CONFIRM_TIMEOUT_MS - waited_ms) as u64 }
    } else {
        WaitStep::Sleep { millis: CONFIRM_POLL_MS }
    }
}

/// How a wait ends that starts `waited_ms` milliseconds in and sees the
/// process as `seen` tells, look by look: `Some(true)` where it is seen to
/// be gone, `Some(false)` where the time is up, `None` where the looks run
/// out before either.
pub open spec fn wait_outcome(waited_ms: u64, seen: Seq<bool>) -> Option<bool>
    decreases seen.len(),
{
    if seen.len() == 0 {
        None
    } else {
        match wait_step(waited_ms, seen[0]) {
            WaitStep::Confirmed => Some(true),
            WaitStep::TimedOut => Some(false),
            WaitStep::Sleep { millis } => wait_outcome(
                (waited_ms + millis) as u64,
                seen.drop_first(),
            ),
        }
    }
}

/// The result of a wait that ended as `outcome` tells.
pub open spec fn wait_result(outcome: Option<bool>) -> Result<(), KillError> {
    match outcome {
        Some(true) => Ok(()),
        _ => Err(KillError::TimedOut),
    }
}

/// The result of a forceful kill, from what sending the signal gave and
/// how the wait ended; there is no wait where the signal was not sent.
pub open spec fn force_kill_result(
    dispatch: Result<KillTicket, KillError>,
    wait: Option<bool>,
) -> Result<(), KillError> {
    match dispatch {
        Err(e) => Err(e),
        Ok(_) => wait_result(wait),
    }
}

/// The words in which an error is reported for the identifier `id`.
pub open spec fn error_text(error: KillError, id: Seq<char>, request: KillRequest) -> Seq<char> {
    match error {
        KillError::InvalidId { detail } => "Invalid process ID ("@ + id + ") format: "@ + detail@,
        KillError::NotFound => match request {
            KillRequest::Graceful => "Process with Pid "@ + id + " not found."@,
            KillRequest::Forceful => "Process with ID "@ + id + " not found."@,
        },
        KillError::SignalUnsupported => "Graceful termination of process "@ + id
            + " failed. SIGTERM not supported."@,
        KillError::DispatchFailed => "Failed to send KILL signal to process "@ + id + "."@,
        KillError::TimedOut => "Timed out waiting for process "@ + id + " to terminate."@,
    }
}

/// Reports an error in words.
pub fn kill_error_message(error: &KillError, id: &str, request: KillRequest) -> (text: String)
    ensures
        text@ == error_text(*error, id@, request),
{
    match error {
        KillError::InvalidId { detail } => {
            let mut text = String::from_str("Invalid process ID (");
            text.append(id);
            text.append(") format: ");
            text.append(detail.as_str());
            text
        },
        KillError::NotFound => {
            let mut text = match request {
                KillRequest::Graceful => String::from_str("Process with Pid "),
                KillRequest::Forceful => String::from_str("Process with ID "),
            };
            text.append(id);
            text.append(" not found.");
            text
        },
        KillError::SignalUnsupported => {
            let mut text = String::from_str("Graceful termination of process ");
            text.append(id);
            text.append(" failed. SIGTERM not supported.");
            text
        },
        KillError::DispatchFailed => {
            let mut text = String::from_str("Failed to send KILL signal to process ");
            text.append(id);
            text.append(".");
            text
        },
        KillError::TimedOut => {
            let mut text = String::from_str("Timed out waiting for process ");
            text.append(id);
            text.append(" to terminate.");
            text
        },
    }
}

/// The result of a graceful request, from what the host answered.
pub fn graceful_outcome(attempt: Option<Option<bool>>) -> (r: Result<bool, KillError>)
    ensures
        r == graceful_result(attempt),
{
    match attempt {
        None => Err(KillError::NotFound),
        Some(None) => Err(KillError::SignalUnsupported),
        Some(Some(accepted)) => Ok(accepted),
    }
}

/// The result of sending the kill signal, from what the host answered.
pub fn dispatch_outcome(pid: u32, attempt: Option<(u64, bool)>) -> (r: Result<
    KillTicket,
    KillError,
>)
    ensures
        r == dispatch_result(pid, attempt),
{
    match attempt {
        None => Err(KillError::NotFound),
        Some((start_time, sent)) => if sent {
            Ok(KillTicket { pid, start_time })
        } else {
            Err(KillError::DispatchFailed)
        },
    }
}

/// Whether the process of `ticket` is still there.
pub fn is_still_present(ticket: &KillTicket, observed_start: Option<u64>) -> (present: bool)
    ensures
        present == still_present(*ticket, observed_start),
{
    match observed_start {
        Some(start) => start == ticket.start_time,
        None => false,
    }
}

/// The next step of the wait, `waited_ms` milliseconds into it.
pub fn confirm_step(waited_ms: u64, present: bool) -> (step: WaitStep)
    ensures
        step == wait_step(waited_ms, present),
{
    if !present {
        WaitStep::Confirmed
    } else if waited_ms >= CONFIRM_TIMEOUT_MS {
        WaitStep::TimedOut
    } else if CONFIRM_TIMEOUT_MS - waited_ms < CONFIRM_POLL_MS {
        WaitStep::Sleep { millis: CONFIRM_TIMEOUT_MS - waited_ms }
    } else {
        WaitStep::Sleep { millis: CONFIRM_POLL_MS }
    }
}

/// Reads the identifier of a process from a text. The identifier of a
/// snapshot, a decimal numeral, is read as the number it denotes.
pub fn parse_process_id(id: &str) -> (r: Result<u32, KillError>)
    ensures
        r is Ok <==> pid_of_text(id@) is Some,
        r is Ok ==> Some(r->Ok_0) == pid_of_text(id@),
        r is Err ==> r->Err_0 is InvalidId,
        forall|n: u32| n <= 0x7fff_ffff && id@ == decimal(n as nat) ==> r is Ok && r->Ok_0 == n,
{
    match parse_pid(id) {
        Ok(pid) => Ok(pid),
        Err(detail) => Err(KillError::InvalidId { detail }),
    }
}

/// Asks the process with the identifier `id` to terminate, and does not
/// wait for it to do so. A text that is no identifier is refused before the
/// host is asked anything; the identifier of a snapshot is never refused.
/// `Ok` holds whether the host accepted the signal.
pub fn try_kill_process_by_id(id: &str) -> (r: Result<bool, KillError>)
    ensures
        pid_of_text(id@) is None <==> (r is Err && r->Err_0 is InvalidId),
        pid_of_text(id@) is Some ==> exists|attempt: Option<Option<bool>>|
            r == graceful_result(attempt),
        forall|n: u32|
            n <= 0x7fff_ffff && id@ == decimal(n as nat) ==> !(r is Err && r->Err_0 is InvalidId),
{
    match parse_process_id(id) {
        Err(e) => Err(e),
        Ok(pid) => {
            let mut sys = system_with_everything();
            refresh_everything(&mut sys);
            let attempt = match find_process(&sys, pid) {
                None => None,
                Some(process) => Some(send_terminate(process)),
            };
            let r = graceful_outcome(attempt);
            assert(r == graceful_result(attempt));
            r
        },
    }
}

/// Sends the kill signal to the process with the identifier `id`, and does
/// not wait. A text that is no identifier is refused before the host is
/// asked anything.
pub fn send_kill_signal(id: &str) -> (r: Result<KillTicket, KillError>)
    ensures
        pid_of_text(id@) is None <==> (r is Err && r->Err_0 is InvalidId),
        pid_of_text(id@) is Some ==> exists|attempt: Option<(u64, bool)>|
            r == dispatch_result(pid_of_text(id@)->0, attempt),
        forall|n: u32|
            n <= 0x7fff_ffff && id@ == decimal(n as nat) ==> !(r is Err && r->Err_0 is InvalidId),
{
    match parse_process_id(id) {
        Err(e) => Err(e),
        Ok(pid) => {
            let mut sys = system_with_everything();
            refresh_everything(&mut sys);
            let attempt = match find_process(&sys, pid) {
                None => None,
                Some(process) => {
                    let start_time = start_time_of(process);
                    Some((start_time, send_kill(process)))
                },
            };
            let r = dispatch_outcome(pid, attempt);
            assert(pid == pid_of_text(id@)->0);
            assert(r == dispatch_result(pid_of_text(id@)->0, attempt));
            r
        },
    }
}

/// Looks at the host afresh: the start time of the process that has the
/// identifier `pid` now, if there is one.
pub fn observe_process(pid: u32) -> Option<u64> {
    let mut sys = system_with_nothing();
    refresh_one_process(&mut sys, pid);
    match find_process(&sys, pid) {
        None => None,
        Some(process) => Some(start_time_of(process)),
    }
}

/// Waits until the process of `ticket` has gone, looking at the host afresh
/// each time and pausing through `pause` in between. Whatever the host
/// shows, the wait comes to an end, and it ends as [`wait_outcome`] tells
/// of what was seen: with `Ok` where the process was seen to be gone, with
/// `TimedOut` where it was still there when the time was up.
pub fn await_exit<F: Fn(u64)>(ticket: &KillTicket, pause: F) -> (r: Result<(), KillError>)
    requires
        forall|millis: u64| call_requires(pause, (millis,)),
    ensures
        exists|seen: Seq<bool>| #[trigger]
            wait_outcome(0, seen) is Some && r == wait_result(wait_outcome(0, seen)),
{
    let mut waited_ms: u64 = 0;
    let ghost mut seen: Seq<bool> = Seq::empty();
    loop
        invariant
            waited_ms <= CONFIRM_TIMEOUT_MS,
            forall|millis: u64| call_requires(pause, (millis,)),
            forall|more: Seq<bool>| #[trigger]
                wait_outcome(0, seen + more) == wait_outcome(waited_ms, more),
        decreases CONFIRM_TIMEOUT_MS + 1 - waited_ms,
    {
        let present = is_still_present(ticket, observe_process(ticket.pid));
        let step = confirm_step(waited_ms, present);
        proof {
            let last = seq![present];
            assert(last.drop_first() =~= Seq::<bool>::empty());
            assert(wait_outcome(0, seen + last) == wait_outcome(waited_ms, last));
        }
        match step {
            WaitStep::Confirmed => {
                return Ok(());
            },
            WaitStep::TimedOut => {
                return Err(KillError::TimedOut);
            },
            WaitStep::Sleep { millis } => {
                pause(millis);
                proof {
                    let ghost before = seen;
                    seen = seen.push(present);
                    assert forall|more: Seq<bool>| #[trigger]
                        wait_outcome(0, seen + more) == wait_outcome(
                            (waited_ms + millis) as u64,
                            more,
                        ) by {
                        let tail = seq![present] + more;
                        assert(seen + more =~= before + tail);
                        assert(tail.drop_first() =~= more);
                    }
                }
                waited_ms = waited_ms + millis;
            },
        }
    }
}

/// Kills the process with the identifier `id` and waits, pausing through
/// `pause`, until it is seen to be gone. A text that is no identifier is
/// refused before the host is asked anything; no wait is made unless the
/// signal was sent. Whatever the host answers, the result is the one that
/// [`force_kill_result`] gives for some answers.
pub fn force_kill_process_by_id<F: Fn(u64)>(id: &str, pause: F) -> (r: Result<(), KillError>)
    requires
        forall|millis: u64| call_requires(pause, (millis,)),
    ensures
        pid_of_text(id@) is None <==> (r is Err && r->Err_0 is InvalidId),
        pid_of_text(id@) is Some ==> exists|attempt: Option<(u64, bool)>, seen: Seq<bool>|
            wait_outcome(0, seen) is Some && r == #[trigger] force_kill_result(
                dispatch_result(pid_of_text(id@)->0, attempt),
                wait_outcome(0, seen),
            ),
        forall|n: u32|
            n <= 0x7fff_ffff && id@ == decimal(n as nat) ==> !(r is Err && r->Err_0 is InvalidId),
{
    let sent = send_kill_signal(id);
    let ghost gone = seq![false];
    proof {
        assert(wait_outcome(0, gone) == Some(true));
    }
    match sent {
        Err(e) => {
            proof {
                if pid_of_text(id@) is Some {
                    let attempt = choose|attempt: Option<(u64, bool)>|
                        sent == dispatch_result(pid_of_text(id@)->0, attempt);
                    assert(Err::<(), KillError>(e) == force_kill_result(
                        dispatch_result(pid_of_text(id@)->0, attempt),
                        wait_outcome(0, gone),
                    ));
                }
            }
            Err(e)
        },
        Ok(ticket) => {
            let r = await_exit(&ticket, pause);
            proof {
                let attempt = choose|attempt: Option<(u64, bool)>|
                    sent == dispatch_result(pid_of_text(id@)->0, attempt);
                let seen = choose|seen: Seq<bool>| #[trigger]
                    wait_outcome(0, seen) is Some && r == wait_result(wait_outcome(0, seen));
                assert(r == force_kill_result(
                    dispatch_result(pid_of_text(id@)->0, attempt),
                    wait_outcome(0, seen),
                ));
            }
            r
        },
    }
}

/// The wait is bounded: each pause is of at least a millisecond and of at
/// most the polling interval, and none goes beyond the time allowed.
pub proof fn lemma_wait_is_bounded(waited_ms: u64, present: bool)
    requires
        waited_ms <= CONFIRM_TIMEOUT_MS,
    ensures
        wait_step(waited_ms, present) matches WaitStep::Sleep { millis } ==> 1 <= millis
            <= CONFIRM_POLL_MS && waited_ms + millis <= CONFIRM_TIMEOUT_MS,
        !present ==> wait_step(waited_ms, present) == WaitStep::Confirmed,
        present && waited_ms == CONFIRM_TIMEOUT_MS ==> wait_step(waited_ms, present)
            == WaitStep::TimedOut,
{
}

/// A process that is there at every look is given up on at the sixteenth,
/// three seconds in; one that has gone at some look before is confirmed
/// there.
pub proof fn lemma_wait_outcome(seen: Seq<bool>, gone_at: int)
    requires
        0 <= gone_at < seen.len(),
        forall|i: int| 0 <= i < gone_at ==> seen[i],
        !seen[gone_at] || gone_at == 15,
    ensures
        gone_at <= 15 && !seen[gone_at] ==> wait_outcome(0, seen) == Some(true),
        gone_at == 15 && seen[gone_at] ==> wait_outcome(0, seen) == Some(false),
        gone_at > 15 ==> wait_outcome(0, seen) == Some(false),
{
    lemma_wait_from(0, seen, gone_at);
}

proof fn lemma_wait_from(looks: int, seen: Seq<bool>, gone_at: int)
    requires
        0 <= looks <= 15,
        0 <= gone_at < seen.len(),
        forall|i: int| 0 <= i < gone_at ==> seen[i],
        !seen[gone_at] || looks + gone_at == 15,
    ensures
        looks + gone_at <= 15 && !seen[gone_at] ==> wait_outcome((200 * looks) as u64, seen)
            == Some(true),
        looks + gone_at == 15 && seen[gone_at] ==> wait_outcome((200 * looks) as u64, seen)
            == Some(false),
        looks + gone_at > 15 ==> wait_outcome((200 * looks) as u64, seen) == Some(false),
    decreases seen.len(),
{
    if gone_at > 0 {
        assert(seen[0]);
        if looks < 15 {
            let rest = seen.drop_first();
            assert forall|i: int| 0 <= i < gone_at - 1 implies rest[i] by {
                assert(rest[i] == seen[i + 1]);
            }
            assert(rest[gone_at - 1] == seen[gone_at]);
            lemma_wait_from(looks + 1, rest, gone_at - 1);
        }
    }
}

} // verus!
