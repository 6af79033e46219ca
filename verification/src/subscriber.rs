//! The channel subscriber: one per requested channel name. It forwards what
//! its channel delivers and stops when the stream ends or the capture is
//! cancelled.

use vstd::prelude::*;
use crate::worker::{InboundMessage, WorkerState};

verus! {

/// What a subscriber finds when it wakes up.
#[derive(Debug, PartialEq, Eq)]
pub enum SubscriberEvent {
    /// The channel delivered a message.
    Message(InboundMessage),
    /// The stream ended or failed.
    StreamClosed,
    /// The cancellation signal was seen.
    Cancelled,
}

/// What a subscriber does next.
#[derive(Debug, PartialEq, Eq)]
pub enum SubscriberAction {
    /// Hand the message to the fan-in queue and wait again.
    Forward(InboundMessage),
    /// Report that the stream is gone, then end.
    ReportAndStop,
    /// End without a report.
    Stop,
}

/// One subscription.
#[derive(Debug, PartialEq, Eq)]
pub struct Subscriber {
    pub channel: String,
    pub state: WorkerState,
}

/// The state and the action that follow from a state and an event. A running
/// subscriber forwards every message and stops on the first end of stream or
/// cancellation; a stopped one forwards nothing.
pub open spec fn subscriber_next(state: WorkerState, event: SubscriberEvent) -> (
    WorkerState,
    SubscriberAction,
) {
    match state {
        WorkerState::Stopped => (WorkerState::Stopped, SubscriberAction::Stop),
        WorkerState::Running => match event {
            SubscriberEvent::Message(m) => (WorkerState::Running, SubscriberAction::Forward(m)),
            SubscriberEvent::StreamClosed => (WorkerState::Stopped, SubscriberAction::ReportAndStop),
            SubscriberEvent::Cancelled => (WorkerState::Stopped, SubscriberAction::Stop),
        },
    }
}

impl Subscriber {
    /// A running subscriber for `channel`.
    pub fn new(channel: String) -> (s: Subscriber)
        ensures
            s.channel == channel,
            s.state == WorkerState::Running,
    {
        Subscriber { channel, state: WorkerState::Running }
    }

    /// Takes one event and says what to do.
    pub fn step(&mut self, event: SubscriberEvent) -> (action: SubscriberAction)
        ensures
            final(self).channel == old(self).channel,
            (final(self).state, action) == subscriber_next(old(self).state, event),
    {
        match self.state {
            WorkerState::Stopped => SubscriberAction::Stop,
            WorkerState::Running => match event {
                SubscriberEvent::Message(m) => SubscriberAction::Forward(m),
                SubscriberEvent::StreamClosed => {
                    self.state = WorkerState::Stopped;
                    SubscriberAction::ReportAndStop
                },
                SubscriberEvent::Cancelled => {
                    self.state = WorkerState::Stopped;
                    SubscriberAction::Stop
                },
            },
        }
    }
}

/// The subscribers that a capture of `channels` starts with: one for each
/// name, in the order given, a name that occurs twice counted twice.
pub open spec fn subscribers_for(channels: Seq<String>) -> Seq<Subscriber> {
    Seq::new(
        channels.len(),
        |i: int| Subscriber { channel: channels[i], state: WorkerState::Running },
    )
}

/// Makes the subscribers for the requested channels.
pub fn start_subscribers(channels: Vec<String>) -> (subscribers: Vec<Subscriber>)
    ensures
        subscribers@ == subscribers_for(channels@),
{
    let mut subscribers: Vec<Subscriber> = Vec::new();
    let mut i: usize = 0;
    while i < channels.len()
        invariant
            i <= channels.len(),
            subscribers@ == subscribers_for(channels@.take(i as int)),
        decreases channels.len() - i,
    {
        subscribers.push(Subscriber::new(channels[i].clone()));
        i += 1;
        assert(subscribers@ =~= subscribers_for(channels@.take(i as int)));
    }
    assert(channels@.take(i as int) =~= channels@);
    subscribers
}

} // verus!
