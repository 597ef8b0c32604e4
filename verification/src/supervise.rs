//! The supervision state machine: spawn, run, drain, respawn, stop.
//!
//! The outer loop that owns the subprocess follows this machine. Every
//! decision — what to do when the spawn fails, when the event channel
//! closes, when the shutdown signal fires, when the grace period runs
//! out — is the `step` function here; the caller only performs the
//! returned action and feeds the next observation back in.

use vstd::prelude::*;

verus! {

/// Configuration for one subprocess launch.
#[derive(Debug, Clone, PartialEq, Eq)]
pub struct BridgeConfig {
    /// Path of the bridge binary.
    pub binary_path: String,
    /// Directory for session data, handed over as `--data-dir`.
    pub data_dir: String,
    /// Whether to pass `--verbose`.
    pub verbose: bool,
}

impl BridgeConfig {
    /// The argument list the subprocess is launched with: the data
    /// directory always, the verbosity flag only when asked for.
    pub fn spawn_args(&self) -> (r: Vec<String>)
        ensures
            r@.len() == (if self.verbose {
                3int
            } else {
                2int
            }),
            r@[0]@ == "--data-dir"@,
            r@[1]@ == self.data_dir@,
            self.verbose ==> r@[2]@ == "--verbose"@,
    {
        let mut args: Vec<String> = Vec::new();
        args.push(String::from_str("--data-dir"));
        args.push(self.data_dir.clone());
        if self.verbose {
            args.push(String::from_str("--verbose"));
        }
        args
    }
}

/// The states of the supervision loop. `Stopped` is the only terminal
/// state.
#[derive(Debug, Clone, Copy, PartialEq, Eq, Structural)]
pub enum LoopState {
    /// About to attempt a spawn, or waiting out a failed one.
    Spawning,
    /// A subprocess is live; events are being drained.
    Running,
    /// Shutdown was requested; waiting for the child to exit.
    Draining,
    /// The subprocess died unexpectedly; waiting before respawning.
    Respawning,
    /// The loop is over.
    Stopped,
}

/// What the loop can observe.
#[derive(Debug, Clone, Copy, PartialEq, Eq, Structural)]
pub enum LoopEvent {
    /// A spawn attempt succeeded.
    SpawnOk,
    /// A spawn attempt failed.
    SpawnFailed,
    /// The external shutdown signal fired.
    ShutdownSignal,
    /// An event arrived on the event channel.
    EventArrived,
    /// The event channel closed: the subprocess is gone.
    ChannelClosed,
    /// The fixed backoff delay ran out.
    BackoffElapsed,
    /// The child exited during the drain.
    ChildExited,
    /// The shutdown grace period ran out.
    GraceElapsed,
}

/// What the loop must do next.
#[derive(Debug, Clone, Copy, PartialEq, Eq, Structural)]
pub enum LoopAction {
    /// Attempt to spawn the subprocess.
    Spawn,
    /// Sleep the fixed backoff, report `BackoffElapsed`.
    WaitBackoff,
    /// Replace the shared command sender with the new instance's: a
    /// stale sender from the previous instance must never be used.
    PublishSender,
    /// Hand the arrived event to the application's handler.
    DispatchEvent,
    /// Send `Disconnect` and start the grace timer.
    SendDisconnect,
    /// Force-terminate the child.
    KillChild,
    /// Nothing.
    Idle,
}

/// One step of the supervision loop.
pub open spec fn spec_step(s: LoopState, e: LoopEvent) -> (LoopState, LoopAction) {
    match (s, e) {
        (LoopState::Spawning, LoopEvent::SpawnOk) => (LoopState::Running, LoopAction::PublishSender),
        (LoopState::Spawning, LoopEvent::SpawnFailed) => (
            LoopState::Spawning,
            LoopAction::WaitBackoff,
        ),
        (LoopState::Spawning, LoopEvent::BackoffElapsed) => (LoopState::Spawning, LoopAction::Spawn),
        (LoopState::Spawning, LoopEvent::ShutdownSignal) => (LoopState::Stopped, LoopAction::Idle),
        (LoopState::Running, LoopEvent::EventArrived) => (
            LoopState::Running,
            LoopAction::DispatchEvent,
        ),
        (LoopState::Running, LoopEvent::ShutdownSignal) => (
            LoopState::Draining,
            LoopAction::SendDisconnect,
        ),
        (LoopState::Running, LoopEvent::ChannelClosed) => (
            LoopState::Respawning,
            LoopAction::WaitBackoff,
        ),
        (LoopState::Respawning, LoopEvent::BackoffElapsed) => (
            LoopState::Spawning,
            LoopAction::Spawn,
        ),
        (LoopState::Respawning, LoopEvent::ShutdownSignal) => (LoopState::Stopped, LoopAction::Idle),
        (LoopState::Draining, LoopEvent::ChildExited) => (LoopState::Stopped, LoopAction::Idle),
        (LoopState::Draining, LoopEvent::GraceElapsed) => (LoopState::Stopped, LoopAction::KillChild),
        (LoopState::Draining, LoopEvent::EventArrived) => (
            LoopState::Draining,
            LoopAction::DispatchEvent,
        ),
        _ => (s, LoopAction::Idle),
    }
}

/// One step of the supervision loop, executably.
pub fn step(s: LoopState, e: LoopEvent) -> (r: (LoopState, LoopAction))
    ensures
        r == spec_step(s, e),
{
    match (s, e) {
        (LoopState::Spawning, LoopEvent::SpawnOk) => (LoopState::Running, LoopAction::PublishSender),
        (LoopState::Spawning, LoopEvent::SpawnFailed) => (
            LoopState::Spawning,
            LoopAction::WaitBackoff,
        ),
        (LoopState::Spawning, LoopEvent::BackoffElapsed) => (LoopState::Spawning, LoopAction::Spawn),
        (LoopState::Spawning, LoopEvent::ShutdownSignal) => (LoopState::Stopped, LoopAction::Idle),
        (LoopState::Running, LoopEvent::EventArrived) => (
            LoopState::Running,
            LoopAction::DispatchEvent,
        ),
        (LoopState::Running, LoopEvent::ShutdownSignal) => (
            LoopState::Draining,
            LoopAction::SendDisconnect,
        ),
        (LoopState::Running, LoopEvent::ChannelClosed) => (
            LoopState::Respawning,
            LoopAction::WaitBackoff,
        ),
        (LoopState::Respawning, LoopEvent::BackoffElapsed) => (
            LoopState::Spawning,
            LoopAction::Spawn,
        ),
        (LoopState::Respawning, LoopEvent::ShutdownSignal) => (LoopState::Stopped, LoopAction::Idle),
        (LoopState::Draining, LoopEvent::ChildExited) => (LoopState::Stopped, LoopAction::Idle),
        (LoopState::Draining, LoopEvent::GraceElapsed) => (LoopState::Stopped, LoopAction::KillChild),
        (LoopState::Draining, LoopEvent::EventArrived) => (
            LoopState::Draining,
            LoopAction::DispatchEvent,
        ),
        _ => (s, LoopAction::Idle),
    }
}

/// The state after a sequence of observations.
pub open spec fn run_steps(s: LoopState, es: Seq<LoopEvent>) -> LoopState
    decreases es.len(),
{
    if es.len() == 0 {
        s
    } else {
        run_steps(spec_step(s, es[0]).0, es.drop_first())
    }
}

// ---------------------------------------------------------------------------
// Laws of the machine.
// ---------------------------------------------------------------------------

/// `Stopped` is terminal: no observation leaves it, none asks for
/// further work.
pub proof fn lemma_stopped_is_terminal(e: LoopEvent)
    ensures
        spec_step(LoopState::Stopped, e) == (LoopState::Stopped, LoopAction::Idle),
{
}

/// Shutdown is deterministic and bounded: once draining, both ways the
/// wait can end — the child exiting, or the grace period running out —
/// reach `Stopped`, and a child that outlives the grace period is
/// force-terminated. The loop never waits past the grace period.
pub proof fn lemma_shutdown_bounded()
    ensures
        spec_step(LoopState::Draining, LoopEvent::ChildExited) == (
            LoopState::Stopped,
            LoopAction::Idle,
        ),
        spec_step(LoopState::Draining, LoopEvent::GraceElapsed) == (
            LoopState::Stopped,
            LoopAction::KillChild,
        ),
        forall|e: LoopEvent|
            (#[trigger] spec_step(LoopState::Draining, e)).0 == LoopState::Draining || spec_step(
                LoopState::Draining,
                e,
            ).0 == LoopState::Stopped,
{
}

/// Restart recovery: when the event channel closes without a shutdown
/// request, the loop re-enters `Spawning` after one backoff and is
/// `Running` again as soon as a spawn succeeds — and the command
/// sender is re-published at that moment.
pub proof fn lemma_restart_recovery()
    ensures
        spec_step(LoopState::Running, LoopEvent::ChannelClosed) == (
            LoopState::Respawning,
            LoopAction::WaitBackoff,
        ),
        run_steps(
            LoopState::Running,
            seq![LoopEvent::ChannelClosed, LoopEvent::BackoffElapsed, LoopEvent::SpawnOk],
        ) == LoopState::Running,
        spec_step(LoopState::Spawning, LoopEvent::SpawnOk) == (
            LoopState::Running,
            LoopAction::PublishSender,
        ),
{
    let es = seq![LoopEvent::ChannelClosed, LoopEvent::BackoffElapsed, LoopEvent::SpawnOk];
    let e1 = es.drop_first();
    let e2 = e1.drop_first();
    let e3 = e2.drop_first();
    assert(e1 =~= seq![LoopEvent::BackoffElapsed, LoopEvent::SpawnOk]);
    assert(e2 =~= seq![LoopEvent::SpawnOk]);
    assert(e3 =~= Seq::<LoopEvent>::empty());
    assert(run_steps(LoopState::Running, es) == run_steps(LoopState::Respawning, e1));
    assert(run_steps(LoopState::Respawning, e1) == run_steps(LoopState::Spawning, e2));
    assert(run_steps(LoopState::Spawning, e2) == run_steps(LoopState::Running, e3));
    assert(run_steps(LoopState::Running, e3) == LoopState::Running);
}

/// At most one respawn per backoff interval: a spawn is only ever
/// attempted on the heels of a completed backoff wait, and while the
/// backoff runs, nothing else moves the machine.
pub proof fn lemma_one_respawn_per_backoff()
    ensures
        forall|s: LoopState, e: LoopEvent|
            (#[trigger] spec_step(s, e)).1 == LoopAction::Spawn ==> e
                == LoopEvent::BackoffElapsed,
        forall|e: LoopEvent|
            e != LoopEvent::BackoffElapsed && e != LoopEvent::ShutdownSignal ==> (
            #[trigger] spec_step(LoopState::Respawning, e)) == (
                LoopState::Respawning,
                LoopAction::Idle,
            ),
{
}

/// No state hangs: from every state some short observation sequence
/// reaches `Running` or `Stopped`.
pub proof fn lemma_no_state_hangs(s: LoopState)
    ensures
        exists|es: Seq<LoopEvent>|
            es.len() <= 2 && ((#[trigger] run_steps(s, es)) == LoopState::Running || run_steps(
                s,
                es,
            ) == LoopState::Stopped),
{
    match s {
        LoopState::Spawning => {
            let es = seq![LoopEvent::SpawnOk];
            let e1 = es.drop_first();
            assert(e1 =~= Seq::<LoopEvent>::empty());
            assert(run_steps(s, es) == run_steps(LoopState::Running, e1));
            assert(run_steps(LoopState::Running, e1) == LoopState::Running);
        },
        LoopState::Running => {
            let es = Seq::<LoopEvent>::empty();
            assert(run_steps(s, es) == LoopState::Running);
        },
        LoopState::Draining => {
            let es = seq![LoopEvent::ChildExited];
            let e1 = es.drop_first();
            assert(e1 =~= Seq::<LoopEvent>::empty());
            assert(run_steps(s, es) == run_steps(LoopState::Stopped, e1));
            assert(run_steps(LoopState::Stopped, e1) == LoopState::Stopped);
        },
        LoopState::Respawning => {
            let es = seq![LoopEvent::BackoffElapsed, LoopEvent::SpawnOk];
            let e1 = es.drop_first();
            let e2 = e1.drop_first();
            assert(e1 =~= seq![LoopEvent::SpawnOk]);
            assert(e2 =~= Seq::<LoopEvent>::empty());
            assert(run_steps(s, es) == run_steps(LoopState::Spawning, e1));
            assert(run_steps(LoopState::Spawning, e1) == run_steps(LoopState::Running, e2));
            assert(run_steps(LoopState::Running, e2) == LoopState::Running);
        },
        LoopState::Stopped => {
            let es = Seq::<LoopEvent>::empty();
            assert(run_steps(s, es) == LoopState::Stopped);
        },
    }
}

} // verus!
