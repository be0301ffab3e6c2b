//! The decisions of the scheduler loop: from its state and what happened,
//! the next state and what to do. The caller keeps the timer and talks to
//! the daemon; it reports each tick with the wallpaper that the schedule
//! asks for, and each command's outcome.

use crate::protocol::{
    text_of, Command, CommandView, ProtocolError, ProtocolErrorView, UnloadTarget,
};
use vstd::prelude::*;

verus! {

/// Where the scheduler stands. `Idle` waits for a tick; the other three are
/// the steps of a switch, each waiting for the outcome of its command.
#[derive(Debug, Clone, PartialEq, Eq)]
pub enum SchedulerState {
    Idle { current: Option<String> },
    Preloading { current: Option<String>, target: String },
    Activating { current: Option<String>, target: String },
    Unloading { current: String, previous: String },
}

/// What the caller reports.
#[derive(Debug, Clone, PartialEq, Eq)]
pub enum Event {
    /// The timer fired, and the schedule asks for `target`.
    Tick { target: String },
    /// The command last sent went through.
    Succeeded,
    /// The command last sent failed, for this reason.
    Failed { cause: String },
}

/// What the caller is to do next.
#[derive(Debug, Clone, PartialEq, Eq)]
pub enum Action {
    /// Nothing: wait for the next tick.
    Wait,
    /// Send this command and report its outcome.
    Send(Command),
    /// The switch failed before it was committed: give up on it. The error
    /// holds the command that did not go through.
    Abort { error: ProtocolError },
    /// The switch is committed, but the image shown before could not be
    /// unloaded: say so, and wait for the next tick.
    ReportUnloadFailure { error: ProtocolError },
}

/// A state, as plain values.
pub enum StateView {
    Idle { current: Option<Seq<char>> },
    Preloading { current: Option<Seq<char>>, target: Seq<char> },
    Activating { current: Option<Seq<char>>, target: Seq<char> },
    Unloading { current: Seq<char>, previous: Seq<char> },
}

/// An event, as plain values.
pub enum EventView {
    Tick { target: Seq<char> },
    Succeeded,
    Failed { cause: Seq<char> },
}

/// An action, as plain values.
pub enum ActionView {
    Wait,
    Send(CommandView),
    Abort { error: ProtocolErrorView },
    ReportUnloadFailure { error: ProtocolErrorView },
}

impl View for SchedulerState {
    type V = StateView;

    open spec fn view(&self) -> StateView {
        match *self {
            SchedulerState::Idle { current } => StateView::Idle { current: text_of(current) },
            SchedulerState::Preloading { current, target } => StateView::Preloading {
                current: text_of(current),
                target: target@,
            },
            SchedulerState::Activating { current, target } => StateView::Activating {
                current: text_of(current),
                target: target@,
            },
            SchedulerState::Unloading { current, previous } => StateView::Unloading {
                current: current@,
                previous: previous@,
            },
        }
    }
}

impl View for Event {
    type V = EventView;

    open spec fn view(&self) -> EventView {
        match *self {
            Event::Tick { target } => EventView::Tick { target: target@ },
            Event::Succeeded => EventView::Succeeded,
            Event::Failed { cause } => EventView::Failed { cause: cause@ },
        }
    }
}

impl View for Action {
    type V = ActionView;

    open spec fn view(&self) -> ActionView {
        match *self {
            Action::Wait => ActionView::Wait,
            Action::Send(command) => ActionView::Send(command@),
            Action::Abort { error } => ActionView::Abort { error: error@ },
            Action::ReportUnloadFailure { error } => ActionView::ReportUnloadFailure { error: error@ },
        }
    }
}

/// The wallpaper that the daemon is believed to show.
pub open spec fn current_of(state: StateView) -> Option<Seq<char>> {
    match state {
        StateView::Idle { current } => current,
        StateView::Preloading { current, .. } => current,
        StateView::Activating { current, .. } => current,
        StateView::Unloading { current, .. } => Some(current),
    }
}

/// The command that preloads `path`.
pub open spec fn preload_of(path: Seq<char>) -> CommandView {
    CommandView::Preload { path }
}

/// The command that shows `path` on all monitors.
pub open spec fn activate_of(path: Seq<char>) -> CommandView {
    CommandView::Activate { monitor: None, mode: None, path }
}

/// The command that unloads `path`.
pub open spec fn unload_of(path: Seq<char>) -> CommandView {
    CommandView::Unload { path: Some(path) }
}

/// The next state and the action, for each state and event.
///
/// A tick that asks for the current wallpaper changes nothing. Any other
/// tick starts a switch: preload, then activate, then unload what was shown
/// before, if anything else was. The new wallpaper becomes the current one
/// when its activation has gone through. A failure before that gives the
/// switch up and keeps the old one; a failure to unload is only reported.
/// A tick during a switch is passed over, and so is an outcome that no
/// command is waiting for.
pub open spec fn next(state: StateView, event: EventView) -> (StateView, ActionView) {
    match (state, event) {
        (StateView::Idle { current }, EventView::Tick { target }) => if current == Some(target) {
            (state, ActionView::Wait)
        } else {
            (StateView::Preloading { current, target }, ActionView::Send(preload_of(target)))
        },
        (StateView::Preloading { current, target }, EventView::Succeeded) => (
            StateView::Activating { current, target },
            ActionView::Send(activate_of(target)),
        ),
        (StateView::Preloading { current, target }, EventView::Failed { cause }) => (
            StateView::Idle { current },
            ActionView::Abort { error: ProtocolErrorView { command: preload_of(target), cause } },
        ),
        (StateView::Activating { current, target }, EventView::Succeeded) => match current {
            Some(previous) => if previous == target {
                (StateView::Idle { current: Some(target) }, ActionView::Wait)
            } else {
                (
                    StateView::Unloading { current: target, previous },
                    ActionView::Send(unload_of(previous)),
                )
            },
            None => (StateView::Idle { current: Some(target) }, ActionView::Wait),
        },
        (StateView::Activating { current, target }, EventView::Failed { cause }) => (
            StateView::Idle { current },
            ActionView::Abort { error: ProtocolErrorView { command: activate_of(target), cause } },
        ),
        (StateView::Unloading { current, .. }, EventView::Succeeded) => (
            StateView::Idle { current: Some(current) },
            ActionView::Wait,
        ),
        (StateView::Unloading { current, previous }, EventView::Failed { cause }) => (
            StateView::Idle { current: Some(current) },
            ActionView::ReportUnloadFailure {
                error: ProtocolErrorView { command: unload_of(previous), cause },
            },
        ),
        _ => (state, ActionView::Wait),
    }
}

impl SchedulerState {
    /// The state at start: idle, with no wallpaper known.
    pub fn new() -> (r: SchedulerState)
        ensures
            r@ == (StateView::Idle { current: None }),
    {
        SchedulerState::Idle { current: None }
    }

    /// Whether a switch is under way.
    pub fn is_switching(&self) -> (r: bool)
        ensures
            r == !(self@ is Idle),
    {
        match self {
            SchedulerState::Idle { .. } => false,
            _ => true,
        }
    }

    /// The wallpaper that the daemon is believed to show.
    pub fn current(&self) -> (r: Option<&str>)
        ensures
            match r {
                Some(s) => current_of(self@) == Some(s@),
                None => current_of(self@) is None,
            },
    {
        match self {
            SchedulerState::Idle { current } => option_text(current),
            SchedulerState::Preloading { current, .. } => option_text(current),
            SchedulerState::Activating { current, .. } => option_text(current),
            SchedulerState::Unloading { current, .. } => Some(current.as_str()),
        }
    }

    /// Takes one event: returns the next state and what to do.
    pub fn step(self, event: Event) -> (r: (SchedulerState, Action))
        ensures
            (r.0@, r.1@) == next(self@, event@),
    {
        match (self, event) {
            (SchedulerState::Idle { current }, Event::Tick { target }) => {
                let same = match &current {
                    Some(shown) => *shown == target,
                    None => false,
                };
                if same {
                    (SchedulerState::Idle { current }, Action::Wait)
                } else {
                    let path = target.clone();
                    (
                        SchedulerState::Preloading { current, target },
                        Action::Send(Command::Preload { path }),
                    )
                }
            },
            (SchedulerState::Preloading { current, target }, Event::Succeeded) => {
                let path = target.clone();
                (
                    SchedulerState::Activating { current, target },
                    Action::Send(Command::Activate { monitor: None, mode: None, path }),
                )
            },
            (SchedulerState::Preloading { current, target }, Event::Failed { cause }) => (
                SchedulerState::Idle { current },
                Action::Abort {
                    error: ProtocolError { command: Command::Preload { path: target }, cause },
                },
            ),
            (SchedulerState::Activating { current, target }, Event::Succeeded) => match current {
                Some(previous) => {
                    if previous == target {
                        (SchedulerState::Idle { current: Some(target) }, Action::Wait)
                    } else {
                        let path = previous.clone();
                        (
                            SchedulerState::Unloading { current: target, previous },
                            Action::Send(Command::Unload { target: UnloadTarget::Path(path) }),
                        )
                    }
                },
                None => (SchedulerState::Idle { current: Some(target) }, Action::Wait),
            },
            (SchedulerState::Activating { current, target }, Event::Failed { cause }) => (
                SchedulerState::Idle { current },
                Action::Abort {
                    error: ProtocolError {
                        command: Command::Activate { monitor: None, mode: None, path: target },
                        cause,
                    },
                },
            ),
            (SchedulerState::Unloading { current, .. }, Event::Succeeded) => (
                SchedulerState::Idle { current: Some(current) },
                Action::Wait,
            ),
            (SchedulerState::Unloading { current, previous }, Event::Failed { cause }) => (
                SchedulerState::Idle { current: Some(current) },
                Action::ReportUnloadFailure {
                    error: ProtocolError {
                        command: Command::Unload { target: UnloadTarget::Path(previous) },
                        cause,
                    },
                },
            ),
            (state, _) => (state, Action::Wait),
        }
    }
}

fn option_text(s: &Option<String>) -> (r: Option<&str>)
    ensures
        match r {
            Some(t) => text_of(*s) == Some(t@),
            None => text_of(*s) is None,
        },
{
    match s {
        Some(t) => Some(t.as_str()),
        None => None,
    }
}

/// A tick that asks for the wallpaper already shown sends no command and
/// changes nothing.
pub proof fn lemma_redundant_tick_is_silent(current: Seq<char>)
    ensures
        next(StateView::Idle { current: Some(current) }, EventView::Tick { target: current }) == (
            StateView::Idle { current: Some(current) },
            ActionView::Wait,
        ),
{
}

/// A switch from `previous` to another wallpaper `target`, with every
/// command going through, sends exactly three commands in this order:
/// preload `target`, activate `target`, unload `previous`; then the
/// scheduler is idle with `target` current.
pub proof fn lemma_switch_sequence(previous: Seq<char>, target: Seq<char>)
    requires
        previous != target,
    ensures
        ({
            let s0 = StateView::Idle { current: Some(previous) };
            let (s1, a1) = next(s0, EventView::Tick { target });
            let (s2, a2) = next(s1, EventView::Succeeded);
            let (s3, a3) = next(s2, EventView::Succeeded);
            let (s4, a4) = next(s3, EventView::Succeeded);
            &&& a1 == ActionView::Send(preload_of(target))
            &&& a2 == ActionView::Send(activate_of(target))
            &&& a3 == ActionView::Send(unload_of(previous))
            &&& a4 == ActionView::Wait
            &&& s4 == StateView::Idle { current: Some(target) }
        }),
{
}

/// The first switch, from no known wallpaper, sends a preload and an
/// activation and nothing to unload.
pub proof fn lemma_first_switch_sequence(target: Seq<char>)
    ensures
        ({
            let s0 = StateView::Idle { current: None };
            let (s1, a1) = next(s0, EventView::Tick { target });
            let (s2, a2) = next(s1, EventView::Succeeded);
            let (s3, a3) = next(s2, EventView::Succeeded);
            &&& a1 == ActionView::Send(preload_of(target))
            &&& a2 == ActionView::Send(activate_of(target))
            &&& a3 == ActionView::Wait
            &&& s3 == StateView::Idle { current: Some(target) }
        }),
{
}

/// The current wallpaper changes at one point only: when an activation has
/// gone through, and then to the wallpaper that was activated. In
/// particular a failed preload or activation keeps the old one, and a
/// failed unload keeps the new one.
pub proof fn lemma_current_changes_on_commit_only(state: StateView, event: EventView)
    ensures
        current_of(next(state, event).0) == (match (state, event) {
            (StateView::Activating { target, .. }, EventView::Succeeded) => Some(target),
            _ => current_of(state),
        }),
{
}

/// A command is sent only to start a switch or as the next step of one,
/// and a switch is started only from `Idle`.
pub proof fn lemma_commands_follow_in_sequence(state: StateView, event: EventView)
    ensures
        match next(state, event).1 {
            ActionView::Send(CommandView::Preload { path }) => state is Idle && event
                == (EventView::Tick { target: path }) && current_of(state) != Some(path),
            ActionView::Send(CommandView::Activate { path, .. }) => state is Preloading && event
                is Succeeded,
            ActionView::Send(CommandView::Unload { path }) => state is Activating && event
                is Succeeded && path == current_of(state) && path is Some,
            ActionView::Send(CommandView::Reload { .. }) => false,
            ActionView::Abort { error } => event is Failed && (match state {
                StateView::Preloading { target, .. } => error.command == preload_of(target),
                StateView::Activating { target, .. } => error.command == activate_of(target),
                _ => false,
            }),
            ActionView::ReportUnloadFailure { error } => event is Failed && (match state {
                StateView::Unloading { previous, .. } => error.command == unload_of(previous),
                _ => false,
            }),
            ActionView::Wait => true,
        },
{
}

} // verus!
