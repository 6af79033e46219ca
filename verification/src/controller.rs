//! The lifecycle controller: it waits for the stop signal, broadcasts the
//! cancellation once and then waits until every worker has ended.

use vstd::prelude::*;

verus! {

/// The phases of a capture.
#[derive(Clone, Copy, Debug, PartialEq, Eq, Structural)]
pub enum Phase {
    /// The workers run and no stop was asked for.
    Running,
    /// Cancellation was broadcast and some worker has not ended yet.
    Cancelling,
    /// Cancellation was broadcast and every worker has ended.
    Stopped,
}

/// What the controller is told.
#[derive(Clone, Copy, Debug, PartialEq, Eq, Structural)]
pub enum ControllerEvent {
    /// The operator asked the capture to stop.
    StopRequested,
    /// A worker has ended; `failed` says whether it ended with an error.
    WorkerJoined { failed: bool },
}

/// What the controller asks for after an event.
#[derive(Clone, Copy, Debug, PartialEq, Eq, Structural)]
pub struct ControllerAction {
    /// Flip the cancellation signal.
    pub broadcast_cancel: bool,
    /// Report that a worker ended with an error.
    pub report_failure: bool,
    /// Every worker has ended: leave.
    pub exit: bool,
}

/// The controller's state: the phase and the number of workers that have not
/// ended yet.
#[derive(Clone, Copy, Debug, PartialEq, Eq, Structural)]
pub struct Controller {
    pub phase: Phase,
    pub pending: usize,
}

/// `pending` less one worker, never below zero.
pub open spec fn one_less(pending: usize) -> usize {
    if pending > 0 {
        (pending - 1) as usize
    } else {
        0
    }
}

/// The phase in which a controller with `pending` workers stands once
/// cancellation was broadcast.
pub open spec fn phase_after_cancel(pending: usize) -> Phase {
    if pending == 0 {
        Phase::Stopped
    } else {
        Phase::Cancelling
    }
}

/// The state and the action that follow from a state and an event.
///
/// The first stop request broadcasts the cancellation; later ones change
/// nothing. A worker that ends is counted off in every phase and reported if
/// it failed. The controller is stopped as soon as cancellation was broadcast
/// and no worker is pending, and asks to leave at that moment.
pub open spec fn controller_next(c: Controller, event: ControllerEvent) -> (
    Controller,
    ControllerAction,
) {
    match event {
        ControllerEvent::StopRequested => match c.phase {
            Phase::Running => (
                Controller { phase: phase_after_cancel(c.pending), pending: c.pending },
                ControllerAction {
                    broadcast_cancel: true,
                    report_failure: false,
                    exit: c.pending == 0,
                },
            ),
            _ => (c, ControllerAction { broadcast_cancel: false, report_failure: false, exit: false }),
        },
        ControllerEvent::WorkerJoined { failed } => match c.phase {
            Phase::Running => (
                Controller { phase: Phase::Running, pending: one_less(c.pending) },
                ControllerAction { broadcast_cancel: false, report_failure: failed, exit: false },
            ),
            Phase::Cancelling => (
                Controller {
                    phase: phase_after_cancel(one_less(c.pending)),
                    pending: one_less(c.pending),
                },
                ControllerAction {
                    broadcast_cancel: false,
                    report_failure: failed,
                    exit: one_less(c.pending) == 0,
                },
            ),
            Phase::Stopped => (
                c,
                ControllerAction { broadcast_cancel: false, report_failure: failed, exit: false },
            ),
        },
    }
}

impl Controller {
    /// While cancelling some worker is pending; once stopped none is.
    pub open spec fn wf(&self) -> bool {
        &&& self.phase == Phase::Cancelling ==> self.pending > 0
        &&& self.phase == Phase::Stopped ==> self.pending == 0
    }

    /// A controller in charge of `workers` running workers.
    pub fn new(workers: usize) -> (c: Controller)
        ensures
            c == (Controller { phase: Phase::Running, pending: workers }),
            c.wf(),
    {
        Controller { phase: Phase::Running, pending: workers }
    }

    /// Whether every worker has ended after the cancellation.
    pub fn is_stopped(&self) -> (stopped: bool)
        ensures
            stopped == (self.phase == Phase::Stopped),
    {
        match self.phase {
            Phase::Stopped => true,
            _ => false,
        }
    }

    /// Takes one event and says what to do.
    pub fn step(&mut self, event: ControllerEvent) -> (action: ControllerAction)
        requires
            old(self).wf(),
        ensures
            final(self).wf(),
            (*final(self), action) == controller_next(*old(self), event),
    {
        match event {
            ControllerEvent::StopRequested => match self.phase {
                Phase::Running => {
                    let done = self.pending == 0;
                    self.phase = if done {
                        Phase::Stopped
                    } else {
                        Phase::Cancelling
                    };
                    ControllerAction { broadcast_cancel: true, report_failure: false, exit: done }
                },
                _ => ControllerAction { broadcast_cancel: false, report_failure: false, exit: false },
            },
            ControllerEvent::WorkerJoined { failed } => match self.phase {
                Phase::Running => {
                    if self.pending > 0 {
                        self.pending = self.pending - 1;
                    }
                    ControllerAction { broadcast_cancel: false, report_failure: failed, exit: false }
                },
                Phase::Cancelling => {
                    self.pending = self.pending - 1;
                    let done = self.pending == 0;
                    if done {
                        self.phase = Phase::Stopped;
                    }
                    ControllerAction { broadcast_cancel: false, report_failure: failed, exit: done }
                },
                Phase::Stopped => ControllerAction {
                    broadcast_cancel: false,
                    report_failure: failed,
                    exit: false,
                },
            },
        }
    }
}

/// The controller after `events`, taken in order.
pub open spec fn controller_run(c: Controller, events: Seq<ControllerEvent>) -> Controller
    decreases events.len(),
{
    if events.len() == 0 {
        c
    } else {
        controller_next(controller_run(c, events.drop_last()), events.last()).0
    }
}

/// How often the cancellation is broadcast while `events` are taken.
pub open spec fn broadcasts(c: Controller, events: Seq<ControllerEvent>) -> nat
    decreases events.len(),
{
    if events.len() == 0 {
        0
    } else {
        let before = controller_run(c, events.drop_last());
        let now: nat = if controller_next(before, events.last()).1.broadcast_cancel {
            1
        } else {
            0
        };
        broadcasts(c, events.drop_last()) + now
    }
}

/// Whether a stop request is among `events`.
pub open spec fn stop_requested(events: Seq<ControllerEvent>) -> bool {
    exists|k: int| 0 <= k < events.len() && events[k] == ControllerEvent::StopRequested
}

/// The number of workers that `events` report as ended.
pub open spec fn joined(events: Seq<ControllerEvent>) -> nat
    decreases events.len(),
{
    if events.len() == 0 {
        0
    } else {
        let one: nat = if events.last() is WorkerJoined {
            1
        } else {
            0
        };
        joined(events.drop_last()) + one
    }
}

/// Where a running controller stands after any events: its workers are
/// counted off one for each that ended, it runs until the first stop request,
/// and from then on it is stopped exactly when no worker is pending. The
/// cancellation is broadcast once if a stop was requested and never
/// otherwise.
pub proof fn lemma_controller_run(c: Controller, events: Seq<ControllerEvent>)
    requires
        c.phase == Phase::Running,
    ensures
        controller_run(c, events).wf(),
        controller_run(c, events).pending == (if joined(events) >= c.pending {
            0
        } else {
            c.pending - joined(events)
        }),
        controller_run(c, events).phase == (if !stop_requested(events) {
            Phase::Running
        } else {
            phase_after_cancel(controller_run(c, events).pending)
        }),
        broadcasts(c, events) == (if stop_requested(events) {
            1nat
        } else {
            0nat
        }),
    decreases events.len(),
{
    if events.len() > 0 {
        let earlier = events.drop_last();
        lemma_controller_run(c, earlier);
        if stop_requested(earlier) {
            let k = choose|k: int| 0 <= k < earlier.len() && earlier[k] == ControllerEvent::StopRequested;
            assert(events[k] == ControllerEvent::StopRequested);
        }
        if events.last() == ControllerEvent::StopRequested {
            assert(events[events.len() - 1] == ControllerEvent::StopRequested);
        }
        if stop_requested(events) && !stop_requested(earlier) {
            let k = choose|k: int| 0 <= k < events.len() && events[k] == ControllerEvent::StopRequested;
            if k < earlier.len() {
                assert(earlier[k] == ControllerEvent::StopRequested);
            }
        }
    }
}

/// Shutdown ends: once a stop was requested and as many workers have ended as
/// the controller was in charge of, whether they failed or not, the
/// controller is stopped.
pub proof fn lemma_shutdown_completes(c: Controller, events: Seq<ControllerEvent>)
    requires
        c.phase == Phase::Running,
        stop_requested(events),
        joined(events) >= c.pending,
    ensures
        controller_run(c, events).phase == Phase::Stopped,
{
    lemma_controller_run(c, events);
}

/// The controller is not stopped before a stop was requested, nor while a
/// worker is pending.
pub proof fn lemma_no_early_stop(c: Controller, events: Seq<ControllerEvent>)
    requires
        c.phase == Phase::Running,
        !stop_requested(events) || joined(events) < c.pending,
    ensures
        controller_run(c, events).phase != Phase::Stopped,
{
    lemma_controller_run(c, events);
}

} // verus!
