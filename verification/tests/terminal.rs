use frontlight_auto::terminal::{
    shell_path, shutdown_step, ExitQuery, ShutdownAction, ShutdownEvent, ShutdownOutcome,
    ShutdownState,
};

/// Drives a whole shutdown with the given answers and returns the actions it asked for.
fn run(has_child: bool, answer: ExitQuery, kill_ok: bool, wait_ok: bool) -> Vec<ShutdownAction> {
    let mut actions = Vec::new();
    let (mut state, mut action) = shutdown_step(ShutdownState::Ready, ShutdownEvent::Started { has_child });
    loop {
        actions.push(action);
        let event = match action {
            ShutdownAction::QueryExit => ShutdownEvent::ExitQueried { answer },
            ShutdownAction::Kill => ShutdownEvent::Killed { ok: kill_ok },
            ShutdownAction::Wait => ShutdownEvent::Waited { ok: wait_ok },
            ShutdownAction::Finish { .. } => return actions,
        };
        let next = shutdown_step(state, event);
        state = next.0;
        action = next.1;
    }
}

fn finish(release_child: bool, outcome: ShutdownOutcome) -> ShutdownAction {
    ShutdownAction::Finish { release_child, outcome }
}

#[test]
fn shell_path_defaults_to_bin_sh() {
    assert_eq!(shell_path(None), "/bin/sh");
    assert_eq!(shell_path(Some("/bin/zsh")), "/bin/zsh");
}

#[test]
fn shutdown_without_shell_does_nothing() {
    assert_eq!(run(false, ExitQuery::Running, false, false), vec![finish(false, ShutdownOutcome::Done)]);
}

#[test]
fn shutdown_of_exited_shell_releases_it() {
    assert_eq!(
        run(true, ExitQuery::Exited, false, false),
        vec![ShutdownAction::QueryExit, finish(true, ShutdownOutcome::Done)]
    );
}

#[test]
fn shutdown_kills_and_reaps_running_shell() {
    assert_eq!(
        run(true, ExitQuery::Running, true, true),
        vec![ShutdownAction::QueryExit, ShutdownAction::Kill, ShutdownAction::Wait, finish(true, ShutdownOutcome::Done)]
    );
}

#[test]
fn failed_exit_query_still_kills_and_reaps() {
    assert_eq!(
        run(true, ExitQuery::Failed, true, true),
        vec![ShutdownAction::QueryExit, ShutdownAction::Kill, ShutdownAction::Wait, finish(true, ShutdownOutcome::Done)]
    );
}

#[test]
fn kill_failure_is_reported_after_reaping() {
    assert_eq!(
        run(true, ExitQuery::Running, false, true),
        vec![ShutdownAction::QueryExit, ShutdownAction::Kill, ShutdownAction::Wait, finish(true, ShutdownOutcome::KillFailed)]
    );
}

#[test]
fn wait_failure_keeps_the_shell_and_wins_over_kill_failure() {
    assert_eq!(
        run(true, ExitQuery::Running, false, false),
        vec![ShutdownAction::QueryExit, ShutdownAction::Kill, ShutdownAction::Wait, finish(false, ShutdownOutcome::WaitFailed)]
    );
    assert_eq!(
        run(true, ExitQuery::Running, true, false),
        vec![ShutdownAction::QueryExit, ShutdownAction::Kill, ShutdownAction::Wait, finish(false, ShutdownOutcome::WaitFailed)]
    );
}

#[test]
fn second_shutdown_after_success_does_nothing() {
    let first = run(true, ExitQuery::Running, true, true);
    let released = matches!(first.last(), Some(ShutdownAction::Finish { release_child: true, .. }));
    assert!(released);
    let second = run(!released, ExitQuery::Running, true, true);
    assert_eq!(second, vec![finish(false, ShutdownOutcome::Done)]);
}

#[test]
fn shutdown_terminates_and_reaps_the_shell_once() {
    let first = run(true, ExitQuery::Running, true, true);
    assert_eq!(
        first,
        vec![ShutdownAction::QueryExit, ShutdownAction::Kill, ShutdownAction::Wait, finish(true, ShutdownOutcome::Done)]
    );
    let second = run(false, ExitQuery::Running, true, true);
    assert_eq!(second, vec![finish(false, ShutdownOutcome::Done)]);
    assert!(!second.contains(&ShutdownAction::Kill));
}
