//! The start of a capture: reach the messaging service, subscribe to every
//! requested channel in turn, open the sink, and only then let the workers
//! run. The first step that fails ends the start: no worker runs.

use vstd::prelude::*;

verus! {

/// What can stop a capture before it runs.
#[derive(Clone, Copy, Debug, PartialEq, Eq, Structural)]
pub enum StartupError {
    /// The messaging service could not be reached.
    Session,
    /// The channel at this place in the list could not be subscribed to.
    Subscription(usize),
    /// The sink could not be opened, or did not take the global header.
    Sink,
}

/// Where the start of a capture stands.
#[derive(Clone, Copy, Debug, PartialEq, Eq, Structural)]
pub enum StartupStage {
    /// The messaging service is being reached.
    Connecting,
    /// The channel at this place in the list is being subscribed to; the
    /// channels before it are subscribed.
    Subscribing(usize),
    /// Every channel is subscribed; the sink is being opened.
    OpeningSink,
    /// Everything is in place: the workers run.
    Started,
    /// A step failed: the capture does not run.
    Aborted(StartupError),
}

/// What the caller is asked to do in a stage.
#[derive(Clone, Copy, Debug, PartialEq, Eq, Structural)]
pub enum StartupAction {
    /// Open the session with the messaging service.
    OpenSession,
    /// Subscribe to the channel at this place in the list.
    Subscribe(usize),
    /// Open the sink and write the global header to it.
    OpenSink,
    /// Let the subscribers and the sink writer run.
    StartWorkers,
    /// Give up with this error.
    Abort(StartupError),
}

/// The start of a capture of `channels` channels.
#[derive(Clone, Copy, Debug, PartialEq, Eq, Structural)]
pub struct Startup {
    pub channels: usize,
    pub stage: StartupStage,
}

/// What a stage asks for.
pub open spec fn action_of(stage: StartupStage) -> StartupAction {
    match stage {
        StartupStage::Connecting => StartupAction::OpenSession,
        StartupStage::Subscribing(i) => StartupAction::Subscribe(i),
        StartupStage::OpeningSink => StartupAction::OpenSink,
        StartupStage::Started => StartupAction::StartWorkers,
        StartupStage::Aborted(err) => StartupAction::Abort(err),
    }
}

/// The stage in which the channel at place `i` is next, if there is one, and
/// the sink otherwise.
pub open spec fn stage_for_channel(channels: usize, i: int) -> StartupStage {
    if 0 <= i < channels {
        StartupStage::Subscribing(i as usize)
    } else {
        StartupStage::OpeningSink
    }
}

/// The stage that follows when the action of `stage` has succeeded or failed.
/// A start that has ended, either way, stays as it is.
pub open spec fn startup_next(channels: usize, stage: StartupStage, succeeded: bool) -> StartupStage {
    match stage {
        StartupStage::Connecting => if succeeded {
            stage_for_channel(channels, 0)
        } else {
            StartupStage::Aborted(StartupError::Session)
        },
        StartupStage::Subscribing(i) => if succeeded {
            stage_for_channel(channels, i + 1)
        } else {
            StartupStage::Aborted(StartupError::Subscription(i))
        },
        StartupStage::OpeningSink => if succeeded {
            StartupStage::Started
        } else {
            StartupStage::Aborted(StartupError::Sink)
        },
        StartupStage::Started => StartupStage::Started,
        StartupStage::Aborted(err) => StartupStage::Aborted(err),
    }
}

impl Startup {
    /// A channel that is being subscribed to is one of the list.
    pub open spec fn wf(&self) -> bool {
        self.stage matches StartupStage::Subscribing(i) ==> i < self.channels
    }

    /// The start of a capture of `channels` channels, with nothing done yet.
    pub fn new(channels: usize) -> (s: Startup)
        ensures
            s == (Startup { channels, stage: StartupStage::Connecting }),
            s.wf(),
    {
        Startup { channels, stage: StartupStage::Connecting }
    }

    /// What is to be done now.
    pub fn action(&self) -> (action: StartupAction)
        ensures
            action == action_of(self.stage),
    {
        match self.stage {
            StartupStage::Connecting => StartupAction::OpenSession,
            StartupStage::Subscribing(i) => StartupAction::Subscribe(i),
            StartupStage::OpeningSink => StartupAction::OpenSink,
            StartupStage::Started => StartupAction::StartWorkers,
            StartupStage::Aborted(err) => StartupAction::Abort(err),
        }
    }

    /// Takes the outcome of the last action and says what to do next.
    pub fn step(&mut self, succeeded: bool) -> (action: StartupAction)
        requires
            old(self).wf(),
        ensures
            final(self).wf(),
            final(self).channels == old(self).channels,
            final(self).stage == startup_next(old(self).channels, old(self).stage, succeeded),
            action == action_of(final(self).stage),
    {
        match self.stage {
            StartupStage::Connecting => {
                self.stage = if !succeeded {
                    StartupStage::Aborted(StartupError::Session)
                } else if self.channels > 0 {
                    StartupStage::Subscribing(0)
                } else {
                    StartupStage::OpeningSink
                };
            },
            StartupStage::Subscribing(i) => {
                self.stage = if !succeeded {
                    StartupStage::Aborted(StartupError::Subscription(i))
                } else if i + 1 < self.channels {
                    StartupStage::Subscribing(i + 1)
                } else {
                    StartupStage::OpeningSink
                };
            },
            StartupStage::OpeningSink => {
                self.stage = if succeeded {
                    StartupStage::Started
                } else {
                    StartupStage::Aborted(StartupError::Sink)
                };
            },
            StartupStage::Started => {},
            StartupStage::Aborted(_) => {},
        }
        self.action()
    }
}

/// The stage after `outcomes`, taken in order from `stage`.
pub open spec fn startup_run(channels: usize, stage: StartupStage, outcomes: Seq<bool>) -> StartupStage
    decreases outcomes.len(),
{
    if outcomes.len() == 0 {
        stage
    } else {
        startup_next(channels, startup_run(channels, stage, outcomes.drop_last()), outcomes.last())
    }
}

/// The stage that a start has reached when its first `done` actions have
/// succeeded: the session first, then one subscription for each channel, in
/// the order of the list, then the sink.
pub open spec fn stage_after_successes(channels: usize, done: int) -> StartupStage {
    if done <= 0 {
        StartupStage::Connecting
    } else if done <= channels {
        StartupStage::Subscribing((done - 1) as usize)
    } else if done == channels + 1 {
        StartupStage::OpeningSink
    } else {
        StartupStage::Started
    }
}

/// The error with which a start ends when the action of `stage` fails.
pub open spec fn error_in(stage: StartupStage) -> StartupError {
    match stage {
        StartupStage::Connecting => StartupError::Session,
        StartupStage::Subscribing(i) => StartupError::Subscription(i),
        _ => StartupError::Sink,
    }
}

/// The place of the first failure among `outcomes`, or their number if none
/// of them is a failure.
pub open spec fn first_failure(outcomes: Seq<bool>) -> int
    decreases outcomes.len(),
{
    if outcomes.len() == 0 {
        0
    } else if first_failure(outcomes.drop_last()) < outcomes.len() - 1 {
        first_failure(outcomes.drop_last())
    } else if outcomes.last() {
        outcomes.len() as int
    } else {
        outcomes.len() - 1
    }
}

/// Where a start stands after any outcomes. While everything succeeds, it
/// asks for the session, then for each channel once and in order, then for
/// the sink, and then lets the workers run. The first failure, if it comes
/// before the workers run, ends the start with the error of the action that
/// failed, and the workers never run.
pub proof fn lemma_startup_run(channels: usize, outcomes: Seq<bool>)
    ensures
        ({
            let end = startup_run(channels, StartupStage::Connecting, outcomes);
            let failure = first_failure(outcomes);
            &&& 0 <= failure <= outcomes.len()
            &&& failure < outcomes.len() ==> !outcomes[failure]
            &&& forall|k: int| 0 <= k < failure ==> outcomes[k]
            &&& end == (if failure < outcomes.len() && failure < channels + 2 {
                StartupStage::Aborted(error_in(stage_after_successes(channels, failure)))
            } else {
                stage_after_successes(channels, outcomes.len() as int)
            })
        }),
    decreases outcomes.len(),
{
    if outcomes.len() > 0 {
        let earlier = outcomes.drop_last();
        lemma_startup_run(channels, earlier);
        let failure = first_failure(outcomes);
        assert forall|k: int| 0 <= k < failure implies outcomes[k] by {
            if k < earlier.len() {
                assert(earlier[k] == outcomes[k]);
            }
        }
        if first_failure(earlier) < earlier.len() {
            assert(earlier[first_failure(earlier)] == outcomes[first_failure(earlier)]);
        }
    }
}

/// The workers run exactly when the session, every subscription and the sink
/// have succeeded, one after the other.
pub proof fn lemma_started_iff_all_succeeded(channels: usize, outcomes: Seq<bool>)
    ensures
        startup_run(channels, StartupStage::Connecting, outcomes) == StartupStage::Started <==> (
        outcomes.len() >= channels + 2 && forall|k: int| 0 <= k < channels + 2 ==> outcomes[k]),
{
    lemma_startup_run(channels, outcomes);
    let failure = first_failure(outcomes);
    if outcomes.len() >= channels + 2 && failure < channels + 2 {
        assert(!outcomes[failure]);
    }
}

} // verus!
