//! The monitor: the decisions of the polling cycle, as a state machine.
//!
//! The monitor itself touches neither the clipboard nor the persisted document
//! nor a subscriber. Each call of [`Monitor::step`] takes the outcome of the
//! action that was asked for last, and answers with the next state and the
//! next action to perform. Whoever runs the cycle performs the action and
//! hands back its outcome.
//!
//! One tick of a running monitor is: read the clipboard; on a failed read,
//! report it and sleep; otherwise load the history, and if the text that was
//! read differs from the most recent entry, persist the history with the text
//! appended and then, only once that has succeeded, publish the text; sleep.

use crate::history::{is_new, loaded_log, ClipboardHistory, Log, StorageError, Text};
use vstd::prelude::*;

verus! {

/// The seconds that a running monitor sleeps between two polls.
pub const POLL_PERIOD_SECS: u64 = 2;

/// The clipboard could not be read: the device is unavailable, or what it
/// holds is not text.
#[derive(Debug, PartialEq, Eq)]
pub struct AccessError {
    /// What the device said of the failure.
    pub message: String,
}

impl View for AccessError {
    type V = Text;

    open spec fn view(&self) -> Text {
        self.message@
    }
}

/// A change could not be delivered to the subscriber.
#[derive(Debug, Clone, Copy, PartialEq, Eq, Structural)]
pub struct DeliveryError {}

/// Why a monitor has halted.
#[derive(Debug, Clone, Copy, PartialEq, Eq, Structural)]
pub enum Failure {
    /// The history with the new entry could not be persisted.
    NotPersisted,
    /// The new entry was persisted, and could not be published.
    NotPublished,
    /// An event came in that is no outcome of the action that was asked for.
    UnexpectedEvent,
}

/// What happened outside the monitor: the outcome of the action asked for last.
#[derive(Debug, PartialEq, Eq)]
pub enum Event {
    /// The monitor was started.
    Started,
    /// The clipboard was read, or could not be.
    Snapshot(Result<String, AccessError>),
    /// A failed read was reported.
    Reported,
    /// The persisted history was loaded, or could not be.
    Loaded(Result<ClipboardHistory, StorageError>),
    /// The history was persisted, or could not be.
    Persisted(Result<(), StorageError>),
    /// The change was delivered to the subscriber, or could not be.
    Published(Result<(), DeliveryError>),
    /// The sleep is over.
    Woke,
}

/// What the monitor asks to be done next.
#[derive(Debug, PartialEq, Eq)]
pub enum Action {
    /// Read the text that the clipboard holds now.
    ReadClipboard,
    /// Report a failed read, with the message of the failure.
    Report(String),
    /// Load the persisted history.
    LoadHistory,
    /// Replace the persisted history by this one.
    Persist(ClipboardHistory),
    /// Tell the subscriber of this new entry.
    Publish(String),
    /// Sleep for this many seconds.
    Sleep(u64),
    /// Stop the cycle: the monitor has halted.
    Halt(Failure),
}

/// The state of a monitor between two actions.
///
/// A monitor is one cycle. It is started once and has no way to stop: it
/// runs until it halts on a failure. Starting a cycle again is starting
/// another monitor, which then runs beside the first.
#[derive(Debug, PartialEq, Eq)]
pub enum Monitor {
    /// Not started yet.
    Idle,
    /// Waiting for the clipboard's text.
    Reading,
    /// Waiting for a failed read to be reported.
    Reporting,
    /// Holding the text that was read, waiting for the persisted history.
    Loading { snapshot: String },
    /// Waiting for the history that ends with `snapshot` to be persisted.
    Persisting { snapshot: String },
    /// Waiting for the persisted entry to be published.
    Publishing,
    /// Waiting for the poll period to pass.
    Sleeping,
    /// Stopped for good.
    Halted(Failure),
}

/// An [`Event`] with its texts as sequences. A load is seen as the log that it
/// yields: a failed load is the empty log, whatever the failure was.
pub enum EventView {
    Started,
    Snapshot(Result<Text, Text>),
    Reported,
    Loaded(Log),
    Persisted(Result<(), StorageError>),
    Published(Result<(), DeliveryError>),
    Woke,
}

/// An [`Action`] with its texts as sequences.
pub enum ActionView {
    ReadClipboard,
    Report(Text),
    LoadHistory,
    Persist(Log),
    Publish(Text),
    Sleep(u64),
    Halt(Failure),
}

/// A [`Monitor`] with its texts as sequences.
pub enum MonitorView {
    Idle,
    Reading,
    Reporting,
    Loading { snapshot: Text },
    Persisting { snapshot: Text },
    Publishing,
    Sleeping,
    Halted(Failure),
}

impl View for Event {
    type V = EventView;

    open spec fn view(&self) -> EventView {
        match self {
            Event::Started => EventView::Started,
            Event::Snapshot(Ok(text)) => EventView::Snapshot(Ok(text@)),
            Event::Snapshot(Err(error)) => EventView::Snapshot(Err(error@)),
            Event::Reported => EventView::Reported,
            Event::Loaded(loaded) => EventView::Loaded(loaded_log(*loaded)),
            Event::Persisted(outcome) => EventView::Persisted(*outcome),
            Event::Published(outcome) => EventView::Published(*outcome),
            Event::Woke => EventView::Woke,
        }
    }
}

impl View for Action {
    type V = ActionView;

    open spec fn view(&self) -> ActionView {
        match self {
            Action::ReadClipboard => ActionView::ReadClipboard,
            Action::Report(message) => ActionView::Report(message@),
            Action::LoadHistory => ActionView::LoadHistory,
            Action::Persist(history) => ActionView::Persist(history@),
            Action::Publish(text) => ActionView::Publish(text@),
            Action::Sleep(seconds) => ActionView::Sleep(*seconds),
            Action::Halt(failure) => ActionView::Halt(*failure),
        }
    }
}

impl View for Monitor {
    type V = MonitorView;

    open spec fn view(&self) -> MonitorView {
        match self {
            Monitor::Idle => MonitorView::Idle,
            Monitor::Reading => MonitorView::Reading,
            Monitor::Reporting => MonitorView::Reporting,
            Monitor::Loading { snapshot } => MonitorView::Loading { snapshot: snapshot@ },
            Monitor::Persisting { snapshot } => MonitorView::Persisting { snapshot: snapshot@ },
            Monitor::Publishing => MonitorView::Publishing,
            Monitor::Sleeping => MonitorView::Sleeping,
            Monitor::Halted(failure) => MonitorView::Halted(*failure),
        }
    }
}

/// A monitor that halts with `failure`.
pub open spec fn halted(failure: Failure) -> (MonitorView, ActionView) {
    (MonitorView::Halted(failure), ActionView::Halt(failure))
}

/// The monitor's transition: the state and the action that follow when
/// `event` comes in at `state`.
///
/// A halted monitor stays halted, with the failure that halted it. Any other
/// event that is no outcome of what the state waits for halts the monitor.
pub open spec fn transition(state: MonitorView, event: EventView) -> (MonitorView, ActionView) {
    match (state, event) {
        (MonitorView::Idle, EventView::Started) => (
            MonitorView::Reading,
            ActionView::ReadClipboard,
        ),
        (MonitorView::Reading, EventView::Snapshot(Ok(snapshot))) => (
            MonitorView::Loading { snapshot },
            ActionView::LoadHistory,
        ),
        (MonitorView::Reading, EventView::Snapshot(Err(message))) => (
            MonitorView::Reporting,
            ActionView::Report(message),
        ),
        (MonitorView::Reporting, EventView::Reported) => (
            MonitorView::Sleeping,
            ActionView::Sleep(POLL_PERIOD_SECS),
        ),
        (MonitorView::Loading { snapshot }, EventView::Loaded(log)) => if is_new(log, snapshot) {
            (MonitorView::Persisting { snapshot }, ActionView::Persist(log.push(snapshot)))
        } else {
            (MonitorView::Sleeping, ActionView::Sleep(POLL_PERIOD_SECS))
        },
        (MonitorView::Persisting { snapshot }, EventView::Persisted(Ok(_))) => (
            MonitorView::Publishing,
            ActionView::Publish(snapshot),
        ),
        (MonitorView::Persisting { snapshot }, EventView::Persisted(Err(_))) => halted(
            Failure::NotPersisted,
        ),
        (MonitorView::Publishing, EventView::Published(Ok(_))) => (
            MonitorView::Sleeping,
            ActionView::Sleep(POLL_PERIOD_SECS),
        ),
        (MonitorView::Publishing, EventView::Published(Err(_))) => halted(Failure::NotPublished),
        (MonitorView::Sleeping, EventView::Woke) => (
            MonitorView::Reading,
            ActionView::ReadClipboard,
        ),
        (MonitorView::Halted(failure), _) => halted(failure),
        _ => halted(Failure::UnexpectedEvent),
    }
}

impl Monitor {
    /// A monitor that has not been started.
    pub fn new() -> (monitor: Monitor)
        ensures
            monitor@ == MonitorView::Idle,
    {
        Monitor::Idle
    }

    /// Halts with `failure`.
    fn halt(failure: Failure) -> (next: (Monitor, Action))
        ensures
            (next.0@, next.1@) == halted(failure),
    {
        (Monitor::Halted(failure), Action::Halt(failure))
    }

    /// Takes the outcome of the action asked for last, and answers with the
    /// state that follows and the action to perform next.
    pub fn step(self, event: Event) -> (next: (Monitor, Action))
        ensures
            (next.0@, next.1@) == transition(self@, event@),
    {
        match self {
            Monitor::Idle => match event {
                Event::Started => (Monitor::Reading, Action::ReadClipboard),
                _ => Monitor::halt(Failure::UnexpectedEvent),
            },
            Monitor::Reading => match event {
                Event::Snapshot(Ok(snapshot)) => (
                    Monitor::Loading { snapshot },
                    Action::LoadHistory,
                ),
                Event::Snapshot(Err(error)) => (
                    Monitor::Reporting,
                    Action::Report(error.message),
                ),
                _ => Monitor::halt(Failure::UnexpectedEvent),
            },
            Monitor::Reporting => match event {
                Event::Reported => (Monitor::Sleeping, Action::Sleep(POLL_PERIOD_SECS)),
                _ => Monitor::halt(Failure::UnexpectedEvent),
            },
            Monitor::Loading { snapshot } => match event {
                Event::Loaded(loaded) => {
                    let mut history = ClipboardHistory::from_loaded(loaded);
                    if history.differs_from_last(&snapshot) {
                        history.record(snapshot.clone());
                        (Monitor::Persisting { snapshot }, Action::Persist(history))
                    } else {
                        (Monitor::Sleeping, Action::Sleep(POLL_PERIOD_SECS))
                    }
                },
                _ => Monitor::halt(Failure::UnexpectedEvent),
            },
            Monitor::Persisting { snapshot } => match event {
                Event::Persisted(Ok(_)) => (Monitor::Publishing, Action::Publish(snapshot)),
                Event::Persisted(Err(_)) => Monitor::halt(Failure::NotPersisted),
                _ => Monitor::halt(Failure::UnexpectedEvent),
            },
            Monitor::Publishing => match event {
                Event::Published(Ok(_)) => (Monitor::Sleeping, Action::Sleep(POLL_PERIOD_SECS)),
                Event::Published(Err(_)) => Monitor::halt(Failure::NotPublished),
                _ => Monitor::halt(Failure::UnexpectedEvent),
            },
            Monitor::Sleeping => match event {
                Event::Woke => (Monitor::Reading, Action::ReadClipboard),
                _ => Monitor::halt(Failure::UnexpectedEvent),
            },
            Monitor::Halted(failure) => Monitor::halt(failure),
        }
    }
}

} // verus!
