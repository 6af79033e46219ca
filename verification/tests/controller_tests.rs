use zenoh_extcap::controller::{Controller, ControllerAction, ControllerEvent, Phase};

const NOTHING: ControllerAction =
    ControllerAction { broadcast_cancel: false, report_failure: false, exit: false };

fn joined(failed: bool) -> ControllerEvent {
    ControllerEvent::WorkerJoined { failed }
}

#[test]
fn new_controller_runs_with_all_workers_pending() {
    let c = Controller::new(3);
    assert_eq!(c, Controller { phase: Phase::Running, pending: 3 });
    assert!(!c.is_stopped());
}

#[test]
fn stop_request_broadcasts_cancellation() {
    let mut c = Controller::new(2);
    let action = c.step(ControllerEvent::StopRequested);
    assert_eq!(action, ControllerAction { broadcast_cancel: true, report_failure: false, exit: false });
    assert_eq!(c, Controller { phase: Phase::Cancelling, pending: 2 });
}

#[test]
fn cancellation_is_broadcast_exactly_once() {
    let mut c = Controller::new(2);
    let mut broadcasts = 0;
    for event in [
        ControllerEvent::StopRequested,
        ControllerEvent::StopRequested,
        joined(false),
        ControllerEvent::StopRequested,
        joined(false),
        ControllerEvent::StopRequested,
    ] {
        if c.step(event).broadcast_cancel {
            broadcasts += 1;
        }
    }
    assert_eq!(broadcasts, 1);
    assert!(c.is_stopped());
}

#[test]
fn stopped_when_the_last_worker_has_joined() {
    let mut c = Controller::new(3);
    c.step(ControllerEvent::StopRequested);
    assert_eq!(c.step(joined(false)), NOTHING);
    assert_eq!(c, Controller { phase: Phase::Cancelling, pending: 2 });
    assert_eq!(c.step(joined(false)), NOTHING);
    assert_eq!(c, Controller { phase: Phase::Cancelling, pending: 1 });
    assert!(!c.is_stopped());
    assert_eq!(
        c.step(joined(false)),
        ControllerAction { broadcast_cancel: false, report_failure: false, exit: true }
    );
    assert_eq!(c, Controller { phase: Phase::Stopped, pending: 0 });
    assert!(c.is_stopped());
}

#[test]
fn failed_worker_is_reported_and_does_not_prevent_the_stop() {
    let mut c = Controller::new(2);
    c.step(ControllerEvent::StopRequested);
    assert_eq!(
        c.step(joined(true)),
        ControllerAction { broadcast_cancel: false, report_failure: true, exit: false }
    );
    assert_eq!(
        c.step(joined(true)),
        ControllerAction { broadcast_cancel: false, report_failure: true, exit: true }
    );
    assert!(c.is_stopped());
}

#[test]
fn worker_that_ends_before_the_stop_request_is_counted_off() {
    let mut c = Controller::new(2);
    assert_eq!(c.step(joined(false)), NOTHING);
    assert_eq!(c, Controller { phase: Phase::Running, pending: 1 });
    assert_eq!(
        c.step(joined(true)),
        ControllerAction { broadcast_cancel: false, report_failure: true, exit: false }
    );
    assert_eq!(c, Controller { phase: Phase::Running, pending: 0 });
    assert!(!c.is_stopped());
    assert_eq!(
        c.step(ControllerEvent::StopRequested),
        ControllerAction { broadcast_cancel: true, report_failure: false, exit: true }
    );
    assert!(c.is_stopped());
}

#[test]
fn not_stopped_without_a_stop_request() {
    let mut c = Controller::new(1);
    c.step(joined(false));
    c.step(joined(false));
    assert_eq!(c, Controller { phase: Phase::Running, pending: 0 });
    assert!(!c.is_stopped());
}

#[test]
fn controller_without_workers_stops_at_once() {
    let mut c = Controller::new(0);
    assert_eq!(
        c.step(ControllerEvent::StopRequested),
        ControllerAction { broadcast_cancel: true, report_failure: false, exit: true }
    );
    assert_eq!(c, Controller { phase: Phase::Stopped, pending: 0 });
}

#[test]
fn stopped_controller_changes_no_more() {
    let mut c = Controller::new(1);
    c.step(ControllerEvent::StopRequested);
    c.step(joined(false));
    assert_eq!(c.step(ControllerEvent::StopRequested), NOTHING);
    assert_eq!(c.step(joined(false)), NOTHING);
    assert_eq!(
        c.step(joined(true)),
        ControllerAction { broadcast_cancel: false, report_failure: true, exit: false }
    );
    assert_eq!(c, Controller { phase: Phase::Stopped, pending: 0 });
}
