//! The ingress dispatcher: accepts peer lines and injects what each line
//! receives into the virtual stack.
//!
//! The acceptance loop and the receive loop of each line are state machines.
//! Their owner performs the action that a step returns and reports the outcome
//! as the next event. Each line has a receiver of its own, so that no line can
//! hold up another.
use vstd::prelude::*;

pub mod laws;

verus! {

/// How the receive loop of a line ended.
#[derive(Clone, Copy, Debug, PartialEq, Eq)]
pub enum LineExit {
    /// The line ended cleanly. This is no error.
    Done,
    /// A receive on the line failed. The owner reports the failure with the
    /// line's remote address.
    Failed,
}

/// What the owner of a line receiver does next.
#[derive(Clone, Copy, Debug, PartialEq, Eq)]
pub enum LineAction {
    /// Remove the first `discard` payloads from the list, which were injected,
    /// and receive on the line into the list.
    Receive { discard: usize },
    /// Inject the payload at index `item` of the list into the virtual stack.
    Inject { item: usize },
    /// End the task of the line.
    Exit { outcome: LineExit },
    /// Nothing: the event did not answer what the receiver was waiting for.
    Idle,
}

/// What the owner of a line receiver reports.
#[derive(Clone, Copy, Debug, PartialEq, Eq)]
pub enum LineEvent {
    /// The receive succeeded, and the list now holds `len` payloads.
    Received { len: usize },
    /// The receive succeeded but for an error in the data. The owner has
    /// reported it; what the list holds stays in it.
    DataError,
    /// The line ended cleanly.
    Done,
    /// The receive failed.
    Failed,
    /// The injection that was asked for returned; `accepted` says whether the
    /// stack took the payload.
    Injected { accepted: bool },
}

/// What the receive loop of one line is waiting for.
#[derive(Clone, Copy, Debug, PartialEq, Eq)]
pub enum LineReceiver {
    /// The next payloads.
    Receiving,
    /// The outcome of injecting payload `item` of a list of `len`.
    Injecting { len: usize, item: usize },
    /// Nothing more: the line has ended.
    Closed,
}

/// One step of a line receiver: the next state and the action to perform.
pub open spec fn line_step(state: LineReceiver, event: LineEvent) -> (LineReceiver, LineAction) {
    match (state, event) {
        (LineReceiver::Receiving, LineEvent::Received { len }) => if len == 0 {
            (LineReceiver::Receiving, LineAction::Receive { discard: 0 })
        } else {
            (LineReceiver::Injecting { len, item: 0 }, LineAction::Inject { item: 0 })
        },
        (LineReceiver::Receiving, LineEvent::DataError) => (
            LineReceiver::Receiving,
            LineAction::Receive { discard: 0 },
        ),
        (LineReceiver::Receiving, LineEvent::Done) => (
            LineReceiver::Closed,
            LineAction::Exit { outcome: LineExit::Done },
        ),
        (LineReceiver::Receiving, LineEvent::Failed) => (
            LineReceiver::Closed,
            LineAction::Exit { outcome: LineExit::Failed },
        ),
        (LineReceiver::Injecting { len, item }, LineEvent::Injected { accepted }) => if item + 1
            < len {
            (
                LineReceiver::Injecting { len, item: (item + 1) as usize },
                LineAction::Inject { item: (item + 1) as usize },
            )
        } else {
            (LineReceiver::Receiving, LineAction::Receive { discard: len })
        },
        _ => (state, LineAction::Idle),
    }
}

impl LineReceiver {
    /// A receiver at the start of a line's task, and its first action.
    pub fn start() -> (started: (LineReceiver, LineAction))
        ensures
            started == (LineReceiver::Receiving, LineAction::Receive { discard: 0 }),
    {
        (LineReceiver::Receiving, LineAction::Receive { discard: 0 })
    }

    /// Takes the outcome of the last action and says what to do next.
    ///
    /// The payloads of a list are injected one after the other, in the order in
    /// which they were received; a payload that the stack refuses changes
    /// nothing. An error in the data leaves the line open. The task ends when
    /// the line is done or a receive fails.
    pub fn step(&mut self, event: LineEvent) -> (action: LineAction)
        ensures
            (*final(self), action) == line_step(*old(self), event),
    {
        match (*self, event) {
            (LineReceiver::Receiving, LineEvent::Received { len }) => {
                if len == 0 {
                    LineAction::Receive { discard: 0 }
                } else {
                    *self = LineReceiver::Injecting { len, item: 0 };
                    LineAction::Inject { item: 0 }
                }
            },
            (LineReceiver::Receiving, LineEvent::DataError) => LineAction::Receive { discard: 0 },
            (LineReceiver::Receiving, LineEvent::Done) => {
                *self = LineReceiver::Closed;
                LineAction::Exit { outcome: LineExit::Done }
            },
            (LineReceiver::Receiving, LineEvent::Failed) => {
                *self = LineReceiver::Closed;
                LineAction::Exit { outcome: LineExit::Failed }
            },
            (LineReceiver::Injecting { len, item }, LineEvent::Injected { accepted }) => {
                if item < len && item + 1 < len {
                    *self = LineReceiver::Injecting { len, item: item + 1 };
                    LineAction::Inject { item: item + 1 }
                } else {
                    *self = LineReceiver::Receiving;
                    LineAction::Receive { discard: len }
                }
            },
            _ => LineAction::Idle,
        }
    }
}

/// What the owner of the acceptance loop does next.
#[derive(Clone, Copy, Debug, PartialEq, Eq)]
pub enum AcceptAction {
    /// Wait for the next line.
    Accept,
    /// Hand the accepted line to a receive task of its own, then wait for the
    /// next line.
    Spawn,
    /// End the acceptance loop; `report` says whether the failure is one to
    /// report.
    Exit { report: bool },
    /// Nothing: the loop has ended.
    Idle,
}

/// What the owner of the acceptance loop reports.
#[derive(Clone, Copy, Debug, PartialEq, Eq)]
pub enum AcceptEvent {
    /// The transport accepted a line.
    Accepted,
    /// The transport was shut down: the pipe is closed.
    Closed,
    /// The accept failed for another reason.
    Failed,
}

/// The acceptance loop of the ingress dispatcher.
#[derive(Clone, Copy, Debug, PartialEq, Eq)]
pub enum IngressDispatcher {
    /// Waiting for the next line.
    Accepting,
    /// Ended.
    Stopped,
}

/// One step of the acceptance loop: the next state and the action to perform.
pub open spec fn accept_step(state: IngressDispatcher, event: AcceptEvent) -> (
    IngressDispatcher,
    AcceptAction,
) {
    match (state, event) {
        (IngressDispatcher::Accepting, AcceptEvent::Accepted) => (
            IngressDispatcher::Accepting,
            AcceptAction::Spawn,
        ),
        (IngressDispatcher::Accepting, AcceptEvent::Closed) => (
            IngressDispatcher::Stopped,
            AcceptAction::Exit { report: false },
        ),
        (IngressDispatcher::Accepting, AcceptEvent::Failed) => (
            IngressDispatcher::Stopped,
            AcceptAction::Exit { report: true },
        ),
        (IngressDispatcher::Stopped, _) => (IngressDispatcher::Stopped, AcceptAction::Idle),
    }
}

impl IngressDispatcher {
    /// A dispatcher at the start of its task, and its first action.
    pub fn start() -> (started: (IngressDispatcher, AcceptAction))
        ensures
            started == (IngressDispatcher::Accepting, AcceptAction::Accept),
    {
        (IngressDispatcher::Accepting, AcceptAction::Accept)
    }

    /// Takes the outcome of an accept and says what to do next.
    ///
    /// Every accepted line gets a task of its own. The loop ends on the first
    /// accept that fails; a closed pipe is the normal end and is not reported.
    pub fn step(&mut self, event: AcceptEvent) -> (action: AcceptAction)
        ensures
            (*final(self), action) == accept_step(*old(self), event),
    {
        match (*self, event) {
            (IngressDispatcher::Accepting, AcceptEvent::Accepted) => AcceptAction::Spawn,
            (IngressDispatcher::Accepting, AcceptEvent::Closed) => {
                *self = IngressDispatcher::Stopped;
                AcceptAction::Exit { report: false }
            },
            (IngressDispatcher::Accepting, AcceptEvent::Failed) => {
                *self = IngressDispatcher::Stopped;
                AcceptAction::Exit { report: true }
            },
            (IngressDispatcher::Stopped, _) => AcceptAction::Idle,
        }
    }
}

} // verus!
