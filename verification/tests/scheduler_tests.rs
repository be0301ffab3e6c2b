use auto_wallpaper::protocol::{Command, ProtocolError, UnloadTarget};
use auto_wallpaper::scheduler::{Action, Event, SchedulerState};

fn s(text: &str) -> String {
    text.to_string()
}

fn tick(target: &str) -> Event {
    Event::Tick { target: s(target) }
}

fn failed(cause: &str) -> Event {
    Event::Failed { cause: s(cause) }
}

fn idle(current: &str) -> SchedulerState {
    SchedulerState::Idle { current: Some(s(current)) }
}

#[test]
fn starts_idle_with_nothing_shown() {
    let state = SchedulerState::new();
    assert_eq!(state, SchedulerState::Idle { current: None });
    assert_eq!(state.current(), None);
    assert!(!state.is_switching());
}

#[test]
fn redundant_tick_sends_nothing() {
    let (state, action) = idle("beach.jpg").step(tick("beach.jpg"));
    assert_eq!(action, Action::Wait);
    assert_eq!(state, idle("beach.jpg"));
}

#[test]
fn switch_sends_preload_activate_unload() {
    let mut sent = Vec::new();
    let mut state = idle("night.jpg");
    let mut event = tick("morning.jpg");
    loop {
        let (next, action) = state.step(event);
        state = next;
        match action {
            Action::Send(command) => sent.push(command),
            other => {
                assert_eq!(other, Action::Wait);
                break;
            }
        }
        assert!(state.is_switching());
        event = Event::Succeeded;
    }
    assert_eq!(
        sent,
        vec![
            Command::Preload { path: s("morning.jpg") },
            Command::Activate { monitor: None, mode: None, path: s("morning.jpg") },
            Command::Unload { target: UnloadTarget::Path(s("night.jpg")) },
        ]
    );
    assert_eq!(state, idle("morning.jpg"));
    let (state, action) = state.step(tick("morning.jpg"));
    assert_eq!(action, Action::Wait);
    assert_eq!(state.current(), Some("morning.jpg"));
}

#[test]
fn first_switch_unloads_nothing() {
    let (state, action) = SchedulerState::new().step(tick("day.jpg"));
    assert_eq!(action, Action::Send(Command::Preload { path: s("day.jpg") }));
    assert_eq!(state.current(), None);
    let (state, action) = state.step(Event::Succeeded);
    assert_eq!(action, Action::Send(Command::Activate { monitor: None, mode: None, path: s("day.jpg") }));
    assert_eq!(state.current(), None);
    let (state, action) = state.step(Event::Succeeded);
    assert_eq!(action, Action::Wait);
    assert_eq!(state, idle("day.jpg"));
}

#[test]
fn failed_preload_gives_the_switch_up() {
    let (state, _) = idle("night.jpg").step(tick("morning.jpg"));
    let (state, action) = state.step(failed("connection refused"));
    assert_eq!(
        action,
        Action::Abort {
            error: ProtocolError { command: Command::Preload { path: s("morning.jpg") }, cause: s("connection refused") }
        }
    );
    assert_eq!(state, idle("night.jpg"));
}

#[test]
fn failed_activate_gives_the_switch_up() {
    let (state, _) = idle("night.jpg").step(tick("morning.jpg"));
    let (state, _) = state.step(Event::Succeeded);
    let (state, action) = state.step(failed("broken pipe"));
    assert_eq!(
        action,
        Action::Abort {
            error: ProtocolError {
                command: Command::Activate { monitor: None, mode: None, path: s("morning.jpg") },
                cause: s("broken pipe"),
            }
        }
    );
    assert_eq!(state, idle("night.jpg"));
    let (_, action) = state.step(tick("morning.jpg"));
    assert_eq!(action, Action::Send(Command::Preload { path: s("morning.jpg") }));
}

#[test]
fn failed_unload_keeps_the_switch() {
    let (state, _) = idle("night.jpg").step(tick("morning.jpg"));
    let (state, _) = state.step(Event::Succeeded);
    let (state, action) = state.step(Event::Succeeded);
    assert_eq!(action, Action::Send(Command::Unload { target: UnloadTarget::Path(s("night.jpg")) }));
    assert_eq!(state.current(), Some("morning.jpg"));
    let (state, action) = state.step(failed("not ok"));
    assert_eq!(
        action,
        Action::ReportUnloadFailure {
            error: ProtocolError {
                command: Command::Unload { target: UnloadTarget::Path(s("night.jpg")) },
                cause: s("not ok"),
            }
        }
    );
    assert_eq!(state, idle("morning.jpg"));
    let (state, action) = state.step(tick("morning.jpg"));
    assert_eq!(action, Action::Wait);
    assert_eq!(state, idle("morning.jpg"));
}

#[test]
fn tick_during_a_switch_is_passed_over() {
    let (state, _) = idle("night.jpg").step(tick("morning.jpg"));
    let before = state.clone();
    let (state, action) = state.step(tick("day.jpg"));
    assert_eq!(action, Action::Wait);
    assert_eq!(state, before);
}

#[test]
fn outcome_without_a_command_is_passed_over() {
    let (state, action) = idle("night.jpg").step(Event::Succeeded);
    assert_eq!(action, Action::Wait);
    assert_eq!(state, idle("night.jpg"));
    let (state, action) = state.step(failed("late"));
    assert_eq!(action, Action::Wait);
    assert_eq!(state, idle("night.jpg"));
}
