//! The control state of the two polling streams, and the decisions that a
//! polling loop takes at each tick.
//!
//! The state is held by whoever runs the loops, behind a lock; every
//! function here is one step under that lock.

use vstd::prelude::*;
use vstd::string::*;

verus! {

/// Milliseconds between two polls of a stream.
pub const TICK_INTERVAL_MS: u64 = 1000;

/// One of the two streams.
#[derive(Clone, Copy, PartialEq, Eq, Structural, Debug)]
pub enum Stream {
    Process,
    System,
}

/// What a call to start a stream has to do.
#[derive(Clone, Copy, PartialEq, Eq, Structural, Debug)]
pub enum StartOutcome {
    /// The stream was stopped: a loop is to be launched.
    Spawn,
    /// A loop is running already: none is to be launched.
    AlreadyRunning,
}

/// What a loop does at a tick.
#[derive(Clone, Copy, PartialEq, Eq, Structural, Debug)]
pub enum TickAction {
    /// Take a sample and publish it.
    Sample,
    /// Leave the loop.
    Exit,
}

/// What a loop does once it has tried to publish a sample.
#[derive(Clone, Copy, PartialEq, Eq, Structural, Debug)]
pub enum PublishFollowUp {
    /// Wait for the next tick.
    Wait,
    /// Report the failure, then wait for the next tick.
    ReportAndWait,
}

/// Why a call to stop a stream did nothing.
#[derive(Clone, Copy, PartialEq, Eq, Structural, Debug)]
pub enum MonitorError {
    /// The lock on the control state could not be taken.
    LockUnavailable,
}

/// For each stream, whether a stop was asked for and whether a loop runs.
#[derive(Clone, Copy, PartialEq, Eq, Structural, Debug)]
pub struct MonitorUpdateState {
    pub stop_process_updates: bool,
    pub stop_system_updates: bool,
    pub process_running: bool,
    pub system_running: bool,
}

/// The state of an engine that has started nothing.
pub open spec fn initial_state() -> MonitorUpdateState {
    MonitorUpdateState {
        stop_process_updates: false,
        stop_system_updates: false,
        process_running: false,
        system_running: false,
    }
}

/// Whether a stop of `stream` was asked for and not yet seen or withdrawn.
pub open spec fn stop_requested(s: MonitorUpdateState, stream: Stream) -> bool {
    match stream {
        Stream::Process => s.stop_process_updates,
        Stream::System => s.stop_system_updates,
    }
}

/// Whether a loop of `stream` runs.
pub open spec fn running(s: MonitorUpdateState, stream: Stream) -> bool {
    match stream {
        Stream::Process => s.process_running,
        Stream::System => s.system_running,
    }
}

/// `s` with the two flags of `stream` set as given, the other stream's kept.
pub open spec fn with_flags(s: MonitorUpdateState, stream: Stream, stop: bool, run: bool)
    -> MonitorUpdateState {
    match stream {
        Stream::Process => MonitorUpdateState {
            stop_process_updates: stop,
            process_running: run,
            ..s
        },
        Stream::System => MonitorUpdateState { stop_system_updates: stop, system_running: run, ..s },
    }
}

/// The state after a start of `stream`: a loop runs, and no stop is pending.
pub open spec fn after_start(s: MonitorUpdateState, stream: Stream) -> MonitorUpdateState {
    with_flags(s, stream, false, true)
}

/// What a start of `stream` has to do in state `s`.
pub open spec fn start_outcome(s: MonitorUpdateState, stream: Stream) -> StartOutcome {
    if running(s, stream) {
        StartOutcome::AlreadyRunning
    } else {
        StartOutcome::Spawn
    }
}

/// The state after a stop of `stream` was asked for.
pub open spec fn after_stop(s: MonitorUpdateState, stream: Stream) -> MonitorUpdateState {
    with_flags(s, stream, true, running(s, stream))
}

/// What the loop of `stream` does at a tick in state `s`.
pub open spec fn tick_action(s: MonitorUpdateState, stream: Stream) -> TickAction {
    if stop_requested(s, stream) {
        TickAction::Exit
    } else {
        TickAction::Sample
    }
}

/// The state after the loop of `stream` has looked at it at a tick: where a
/// stop was asked for, the loop has ended.
pub open spec fn after_tick(s: MonitorUpdateState, stream: Stream) -> MonitorUpdateState {
    if stop_requested(s, stream) {
        with_flags(s, stream, true, false)
    } else {
        s
    }
}

/// How many loops of `stream` run after the calls `starts` (a start where
/// true, a stop seen at the next tick where false), made in state `s` with
/// `loops` loops running, if each start launches a loop exactly where it
/// is told to.
pub open spec fn loops_after(s: MonitorUpdateState, stream: Stream, loops: nat, calls: Seq<bool>)
    -> nat
    decreases calls.len(),
{
    if calls.len() == 0 {
        loops
    } else if calls[0] {
        let launched: nat = if start_outcome(s, stream) == StartOutcome::Spawn {
            1
        } else {
            0
        };
        loops_after(after_start(s, stream), stream, loops + launched, calls.drop_first())
    } else {
        let ended: nat = if running(s, stream) {
            1
        } else {
            0
        };
        loops_after(
            after_tick(after_stop(s, stream), stream),
            stream,
            (loops - ended) as nat,
            calls.drop_first(),
        )
    }
}

impl MonitorUpdateState {
    /// The state of an engine that has started nothing.
    pub fn new() -> (s: Self)
        ensures
            s == initial_state(),
    {
        MonitorUpdateState {
            stop_process_updates: false,
            stop_system_updates: false,
            process_running: false,
            system_running: false,
        }
    }

    /// Starts `stream`: withdraws a pending stop, and says whether a loop is
    /// to be launched.
    pub fn start(&mut self, stream: Stream) -> (outcome: StartOutcome)
        ensures
            *final(self) == after_start(*old(self), stream),
            outcome == start_outcome(*old(self), stream),
    {
        match stream {
            Stream::Process => {
                let was = self.process_running;
                self.stop_process_updates = false;
                self.process_running = true;
                if was {
                    StartOutcome::AlreadyRunning
                } else {
                    StartOutcome::Spawn
                }
            },
            Stream::System => {
                let was = self.system_running;
                self.stop_system_updates = false;
                self.system_running = true;
                if was {
                    StartOutcome::AlreadyRunning
                } else {
                    StartOutcome::Spawn
                }
            },
        }
    }

    /// Asks the loop of `stream` to stop at its next tick.
    pub fn request_stop(&mut self, stream: Stream)
        ensures
            *final(self) == after_stop(*old(self), stream),
    {
        match stream {
            Stream::Process => {
                self.stop_process_updates = true;
            },
            Stream::System => {
                self.stop_system_updates = true;
            },
        }
    }

    /// The decision of the loop of `stream` at a tick, before it samples.
    pub fn tick(&mut self, stream: Stream) -> (action: TickAction)
        ensures
            *final(self) == after_tick(*old(self), stream),
            action == tick_action(*old(self), stream),
    {
        match stream {
            Stream::Process => {
                if self.stop_process_updates {
                    self.process_running = false;
                    TickAction::Exit
                } else {
                    TickAction::Sample
                }
            },
            Stream::System => {
                if self.stop_system_updates {
                    self.system_running = false;
                    TickAction::Exit
                } else {
                    TickAction::Sample
                }
            },
        }
    }
}

impl Default for MonitorUpdateState {
    fn default() -> (s: Self)
        ensures
            s == initial_state(),
    {
        MonitorUpdateState::new()
    }
}

/// Starts the process stream.
pub fn monitor_processes(state: &mut MonitorUpdateState) -> (outcome: StartOutcome)
    ensures
        *final(state) == after_start(*old(state), Stream::Process),
        outcome == start_outcome(*old(state), Stream::Process),
{
    state.start(Stream::Process)
}

/// Asks the process stream to stop at its next tick.
pub fn stop_monitoring_processes(state: &mut MonitorUpdateState)
    ensures
        *final(state) == after_stop(*old(state), Stream::Process),
{
    state.request_stop(Stream::Process)
}

/// Starts the system stream.
pub fn monitor_sys_info(state: &mut MonitorUpdateState) -> (outcome: StartOutcome)
    ensures
        *final(state) == after_start(*old(state), Stream::System),
        outcome == start_outcome(*old(state), Stream::System),
{
    state.start(Stream::System)
}

/// Asks the system stream to stop at its next tick.
pub fn stop_monitoring_system(state: &mut MonitorUpdateState)
    ensures
        *final(state) == after_stop(*old(state), Stream::System),
{
    state.request_stop(Stream::System)
}

/// The result of a call to stop a stream, from whether the lock on the
/// control state was taken: the call fails only where it was not.
pub fn stop_result(lock_taken: bool) -> (r: Result<(), MonitorError>)
    ensures
        lock_taken <==> r is Ok,
        !lock_taken ==> r is Err && r->Err_0 == MonitorError::LockUnavailable,
{
    if lock_taken {
        Ok(())
    } else {
        Err(MonitorError::LockUnavailable)
    }
}

/// Reports an error in words.
pub fn monitor_error_message(error: MonitorError) -> (text: String)
    ensures
        text@ == "Failed to acquire lock on monitoring state"@,
{
    match error {
        MonitorError::LockUnavailable => String::from_str(
            "Failed to acquire lock on monitoring state",
        ),
    }
}

/// What a loop does once it has tried to publish: it goes on in either
/// case, and reports a sample that was not delivered.
pub fn after_publish(delivered: bool) -> (next: PublishFollowUp)
    ensures
        delivered ==> next == PublishFollowUp::Wait,
        !delivered ==> next == PublishFollowUp::ReportAndWait,
{
    if delivered {
        PublishFollowUp::Wait
    } else {
        PublishFollowUp::ReportAndWait
    }
}

/// A second start without a stop in between launches no second loop, and
/// changes nothing.
pub proof fn lemma_start_twice(s: MonitorUpdateState, stream: Stream)
    ensures
        start_outcome(after_start(s, stream), stream) == StartOutcome::AlreadyRunning,
        after_start(after_start(s, stream), stream) == after_start(s, stream),
{
}

/// A loop is launched exactly where none runs: from a state that tells
/// truly whether a loop of the stream runs, and so from the initial state
/// with none, no run of starts and stops leaves more than one running.
pub proof fn lemma_one_loop_at_most(
    s: MonitorUpdateState,
    stream: Stream,
    loops: nat,
    calls: Seq<bool>,
)
    requires
        loops == (if running(s, stream) {
            1nat
        } else {
            0nat
        }),
    ensures
        loops_after(s, stream, loops, calls) <= 1,
    decreases calls.len(),
{
    if calls.len() > 0 {
        if calls[0] {
            let launched: nat = if start_outcome(s, stream) == StartOutcome::Spawn {
                1
            } else {
                0
            };
            lemma_one_loop_at_most(
                after_start(s, stream),
                stream,
                loops + launched,
                calls.drop_first(),
            );
        } else {
            let ended: nat = if running(s, stream) {
                1
            } else {
                0
            };
            lemma_one_loop_at_most(
                after_tick(after_stop(s, stream), stream),
                stream,
                (loops - ended) as nat,
                calls.drop_first(),
            );
        }
    }
}

/// A start after a stop makes the stream publish again, whether or not the
/// loop has seen the stop in between: no stop of an earlier run is left to
/// end the new one.
pub proof fn lemma_restart_after_stop(s: MonitorUpdateState, stream: Stream)
    ensures
        tick_action(after_start(after_stop(s, stream), stream), stream) == TickAction::Sample,
        tick_action(after_start(after_tick(after_stop(s, stream), stream), stream), stream)
            == TickAction::Sample,
        start_outcome(after_tick(after_stop(s, stream), stream), stream) == StartOutcome::Spawn,
        running(after_start(after_stop(s, stream), stream), stream),
{
}

/// A loop leaves at the first tick after a stop was asked for, and until
/// then it samples.
pub proof fn lemma_stop_ends_at_next_tick(s: MonitorUpdateState, stream: Stream)
    ensures
        tick_action(after_stop(s, stream), stream) == TickAction::Exit,
        !running(after_tick(after_stop(s, stream), stream), stream),
        !stop_requested(s, stream) ==> tick_action(s, stream) == TickAction::Sample && after_tick(
            s,
            stream,
        ) == s,
{
}

/// The two streams are independent: no step of one changes what the other
/// is asked or does.
pub proof fn lemma_streams_independent(s: MonitorUpdateState, stream: Stream, other: Stream)
    requires
        stream != other,
    ensures
        stop_requested(after_start(s, stream), other) == stop_requested(s, other),
        running(after_start(s, stream), other) == running(s, other),
        stop_requested(after_stop(s, stream), other) == stop_requested(s, other),
        running(after_stop(s, stream), other) == running(s, other),
        stop_requested(after_tick(s, stream), other) == stop_requested(s, other),
        running(after_tick(s, stream), other) == running(s, other),
{
}

} // verus!
