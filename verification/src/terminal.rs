//! The decisions of a terminal's pseudo-terminal: which shell it starts, and how it shuts
//! the shell down. The pseudo-terminal itself and the shell process are driven by the
//! caller, who performs each action that `shutdown_step` asks for and hands back what came
//! of it.
use vstd::prelude::*;

verus! {

/// The shell that a terminal starts when none is configured.
pub open spec fn default_shell() -> Seq<char> {
    "/bin/sh"@
}

/// The shell to start: the configured one, else `/bin/sh`.
pub fn shell_path<'a>(shell: Option<&'a str>) -> (path: &'a str)
    ensures
        path@ == match shell {
            Some(s) => s@,
            None => default_shell(),
        },
{
    match shell {
        Some(s) => s,
        None => "/bin/sh",
    }
}

/// What a query of the shell's exit status answered.
#[derive(Clone, Copy, Debug, PartialEq, Eq, Structural)]
pub enum ExitQuery {
    /// The shell has exited and has been reaped.
    Exited,
    /// The shell is still running.
    Running,
    /// The query failed; the caller reports the failure and shutdown goes on.
    Failed,
}

/// Where a shutdown stands.
#[derive(Clone, Copy, Debug, PartialEq, Eq, Structural)]
pub enum ShutdownState {
    /// Not started.
    Ready,
    /// Waiting for the answer of the exit-status query.
    QueryingExit,
    /// Waiting for the result of killing the shell.
    Killing,
    /// Waiting for the result of reaping the shell, with whether the kill succeeded.
    Waiting { kill_ok: bool },
    /// Over.
    Finished,
}

/// What the caller reports to the shutdown.
#[derive(Clone, Copy, Debug, PartialEq, Eq, Structural)]
pub enum ShutdownEvent {
    /// The shutdown starts; `has_child` tells whether a shell is still held.
    Started { has_child: bool },
    /// The exit-status query answered.
    ExitQueried { answer: ExitQuery },
    /// The kill was attempted; `ok` tells whether it succeeded.
    Killed { ok: bool },
    /// The shell was waited for; `ok` tells whether reaping succeeded.
    Waited { ok: bool },
}

/// How a shutdown ends.
#[derive(Clone, Copy, Debug, PartialEq, Eq, Structural)]
pub enum ShutdownOutcome {
    /// Success.
    Done,
    /// Killing the shell failed (it was reaped nevertheless).
    KillFailed,
    /// Reaping the shell failed; the shell stays held.
    WaitFailed,
}

/// What the shutdown asks the caller to do next.
#[derive(Clone, Copy, Debug, PartialEq, Eq, Structural)]
pub enum ShutdownAction {
    /// Query whether the shell has exited.
    QueryExit,
    /// Kill the shell.
    Kill,
    /// Wait for the shell to be reaped.
    Wait,
    /// Stop: drop the held shell if `release_child`, and report `outcome`.
    Finish { release_child: bool, outcome: ShutdownOutcome },
}

/// The events that a shutdown in `state` accepts.
pub open spec fn accepts(state: ShutdownState, event: ShutdownEvent) -> bool {
    match (state, event) {
        (ShutdownState::Ready, ShutdownEvent::Started { .. }) => true,
        (ShutdownState::QueryingExit, ShutdownEvent::ExitQueried { .. }) => true,
        (ShutdownState::Killing, ShutdownEvent::Killed { .. }) => true,
        (ShutdownState::Waiting { .. }, ShutdownEvent::Waited { .. }) => true,
        _ => false,
    }
}

/// One step of a shutdown. Without a shell there is nothing to do. A shell that has
/// already exited is dropped. Otherwise the shell is killed and then always waited for;
/// it is dropped if reaping succeeded, and the shutdown reports the failure of reaping
/// first, then that of killing.
pub open spec fn spec_shutdown_step(state: ShutdownState, event: ShutdownEvent) -> (
    ShutdownState,
    ShutdownAction,
) {
    match event {
        ShutdownEvent::Started { has_child } => if has_child {
            (ShutdownState::QueryingExit, ShutdownAction::QueryExit)
        } else {
            (
                ShutdownState::Finished,
                ShutdownAction::Finish { release_child: false, outcome: ShutdownOutcome::Done },
            )
        },
        ShutdownEvent::ExitQueried { answer } => if answer == ExitQuery::Exited {
            (
                ShutdownState::Finished,
                ShutdownAction::Finish { release_child: true, outcome: ShutdownOutcome::Done },
            )
        } else {
            (ShutdownState::Killing, ShutdownAction::Kill)
        },
        ShutdownEvent::Killed { ok } => (ShutdownState::Waiting { kill_ok: ok }, ShutdownAction::Wait),
        ShutdownEvent::Waited { ok } => {
            let kill_ok = match state {
                ShutdownState::Waiting { kill_ok } => kill_ok,
                _ => true,
            };
            let outcome = if !ok {
                ShutdownOutcome::WaitFailed
            } else if !kill_ok {
                ShutdownOutcome::KillFailed
            } else {
                ShutdownOutcome::Done
            };
            (ShutdownState::Finished, ShutdownAction::Finish { release_child: ok, outcome })
        },
    }
}

/// Advances a shutdown in `state` by what the caller reports, and says what to do next.
pub fn shutdown_step(state: ShutdownState, event: ShutdownEvent) -> (next: (
    ShutdownState,
    ShutdownAction,
))
    requires
        accepts(state, event),
    ensures
        next == spec_shutdown_step(state, event),
{
    match event {
        ShutdownEvent::Started { has_child } => {
            if has_child {
                (ShutdownState::QueryingExit, ShutdownAction::QueryExit)
            } else {
                (
                    ShutdownState::Finished,
                    ShutdownAction::Finish {
                        release_child: false,
                        outcome: ShutdownOutcome::Done,
                    },
                )
            }
        },
        ShutdownEvent::ExitQueried { answer } => match answer {
            ExitQuery::Exited => (
                ShutdownState::Finished,
                ShutdownAction::Finish { release_child: true, outcome: ShutdownOutcome::Done },
            ),
            ExitQuery::Running | ExitQuery::Failed => (ShutdownState::Killing, ShutdownAction::Kill),
        },
        ShutdownEvent::Killed { ok } => (ShutdownState::Waiting { kill_ok: ok }, ShutdownAction::Wait),
        ShutdownEvent::Waited { ok } => {
            let kill_ok = match state {
                ShutdownState::Waiting { kill_ok } => kill_ok,
                _ => true,
            };
            let outcome = if !ok {
                ShutdownOutcome::WaitFailed
            } else if !kill_ok {
                ShutdownOutcome::KillFailed
            } else {
                ShutdownOutcome::Done
            };
            (ShutdownState::Finished, ShutdownAction::Finish { release_child: ok, outcome })
        },
    }
}


/// The actions a shutdown asks for, in order, when the caller reports that a shell is
/// held or not (`has_child`), then, as far as they are asked for, the answer of the
/// exit-status query, whether the kill succeeded and whether reaping succeeded.
pub open spec fn shutdown_run(has_child: bool, answer: ExitQuery, kill_ok: bool, wait_ok: bool) -> Seq<
    ShutdownAction,
> {
    let (s1, a1) = spec_shutdown_step(ShutdownState::Ready, ShutdownEvent::Started { has_child });
    if a1 is Finish {
        seq![a1]
    } else {
        let (s2, a2) = spec_shutdown_step(s1, ShutdownEvent::ExitQueried { answer });
        if a2 is Finish {
            seq![a1, a2]
        } else {
            let (s3, a3) = spec_shutdown_step(s2, ShutdownEvent::Killed { ok: kill_ok });
            let (s4, a4) = spec_shutdown_step(s3, ShutdownEvent::Waited { ok: wait_ok });
            seq![a1, a2, a3, a4]
        }
    }
}

/// Whether a shell is still held after a shutdown that ended with `last`.
pub open spec fn holds_child_after(has_child: bool, last: ShutdownAction) -> bool {
    match last {
        ShutdownAction::Finish { release_child, .. } => has_child && !release_child,
        _ => has_child,
    }
}

/// Law: every shutdown accepts each report it asks for and ends with `Finish`. It kills
/// the shell only if one is held and has not exited, and then always waits for it. The
/// shell is dropped exactly when it had exited or reaping succeeded. A shutdown that
/// reports success holds no shell afterwards, so a second shutdown asks for no action and
/// succeeds: the shell is terminated and reaped once.
pub proof fn lemma_shutdown_run(has_child: bool, answer: ExitQuery, kill_ok: bool, wait_ok: bool)
    ensures
        ({
            let run = shutdown_run(has_child, answer, kill_ok, wait_ok);
            let last = run.last();
            let held = holds_child_after(has_child, last);
            &&& 1 <= run.len() <= 4
            &&& last is Finish
            &&& forall|i: int| 0 <= i < run.len() - 1 ==> !(#[trigger] run[i] is Finish)
            &&& run.contains(ShutdownAction::Kill) <==> (has_child && answer != ExitQuery::Exited)
            &&& run.contains(ShutdownAction::Kill) ==> run.len() == 4 && run[1] == ShutdownAction::Kill
                && run[2] == ShutdownAction::Wait && run[3] is Finish
            &&& (last matches ShutdownAction::Finish { release_child, .. } && release_child) <==> (
                has_child && (answer == ExitQuery::Exited || wait_ok))
            &&& (last matches ShutdownAction::Finish { outcome, .. } && outcome == ShutdownOutcome::Done)
                ==> !held
            &&& !held ==> forall|a: ExitQuery, k: bool, w: bool|
                #[trigger] shutdown_run(held, a, k, w) == seq![
                    ShutdownAction::Finish { release_child: false, outcome: ShutdownOutcome::Done },
                ]
        }),
{
    let run = shutdown_run(has_child, answer, kill_ok, wait_ok);
    if has_child && answer != ExitQuery::Exited {
        assert(run[1] == ShutdownAction::Kill);
    } else {
        assert(!run.contains(ShutdownAction::Kill));
    }
}

} // verus!
