use zenoh_extcap::startup::{Startup, StartupAction, StartupError, StartupStage};

/// Runs a start over `outcomes` and collects what it asked for.
fn run(channels: usize, outcomes: &[bool]) -> (Startup, Vec<StartupAction>) {
    let mut startup = Startup::new(channels);
    let mut actions = vec![startup.action()];
    for outcome in outcomes {
        actions.push(startup.step(*outcome));
    }
    (startup, actions)
}

#[test]
fn new_start_asks_for_the_session() {
    let startup = Startup::new(3);
    assert_eq!(startup, Startup { channels: 3, stage: StartupStage::Connecting });
    assert_eq!(startup.action(), StartupAction::OpenSession);
}

#[test]
fn start_subscribes_to_each_channel_once_and_in_order() {
    let (startup, actions) = run(3, &[true, true, true, true, true]);
    assert_eq!(
        actions,
        vec![
            StartupAction::OpenSession,
            StartupAction::Subscribe(0),
            StartupAction::Subscribe(1),
            StartupAction::Subscribe(2),
            StartupAction::OpenSink,
            StartupAction::StartWorkers,
        ]
    );
    assert_eq!(startup.stage, StartupStage::Started);
}

#[test]
fn start_of_a_single_channel() {
    let (startup, actions) = run(1, &[true, true, true]);
    assert_eq!(
        actions,
        vec![
            StartupAction::OpenSession,
            StartupAction::Subscribe(0),
            StartupAction::OpenSink,
            StartupAction::StartWorkers,
        ]
    );
    assert_eq!(startup, Startup { channels: 1, stage: StartupStage::Started });
}

#[test]
fn start_without_channels_goes_from_the_session_to_the_sink() {
    let (startup, actions) = run(0, &[true, true]);
    assert_eq!(
        actions,
        vec![StartupAction::OpenSession, StartupAction::OpenSink, StartupAction::StartWorkers]
    );
    assert_eq!(startup.stage, StartupStage::Started);
}

#[test]
fn workers_do_not_run_before_the_sink_is_open() {
    let (startup, actions) = run(2, &[true, true, true]);
    assert_eq!(startup.stage, StartupStage::OpeningSink);
    assert!(!actions.contains(&StartupAction::StartWorkers));
}

#[test]
fn failed_session_aborts_the_start() {
    let (startup, actions) = run(2, &[false]);
    assert_eq!(startup.stage, StartupStage::Aborted(StartupError::Session));
    assert_eq!(actions, vec![StartupAction::OpenSession, StartupAction::Abort(StartupError::Session)]);
}

#[test]
fn failed_subscription_aborts_the_start_and_names_the_channel() {
    let (startup, actions) = run(3, &[true, true, false]);
    assert_eq!(startup.stage, StartupStage::Aborted(StartupError::Subscription(1)));
    assert_eq!(
        actions,
        vec![
            StartupAction::OpenSession,
            StartupAction::Subscribe(0),
            StartupAction::Subscribe(1),
            StartupAction::Abort(StartupError::Subscription(1)),
        ]
    );
    let (startup, _) = run(3, &[true, false]);
    assert_eq!(startup.stage, StartupStage::Aborted(StartupError::Subscription(0)));
    let (startup, _) = run(3, &[true, true, true, false]);
    assert_eq!(startup.stage, StartupStage::Aborted(StartupError::Subscription(2)));
}

#[test]
fn failed_sink_aborts_the_start() {
    let (startup, actions) = run(1, &[true, true, false]);
    assert_eq!(startup.stage, StartupStage::Aborted(StartupError::Sink));
    assert_eq!(actions.last(), Some(&StartupAction::Abort(StartupError::Sink)));
    let (startup, _) = run(0, &[true, false]);
    assert_eq!(startup.stage, StartupStage::Aborted(StartupError::Sink));
}

#[test]
fn an_aborted_start_stays_aborted() {
    let (startup, actions) = run(2, &[true, false, true, true, true, true]);
    assert_eq!(startup.stage, StartupStage::Aborted(StartupError::Subscription(0)));
    assert!(!actions.contains(&StartupAction::StartWorkers));
    assert_eq!(actions.len(), 7);
    assert!(actions[2..].iter().all(|a| *a == StartupAction::Abort(StartupError::Subscription(0))));
}

#[test]
fn a_finished_start_stays_started() {
    let (startup, actions) = run(1, &[true, true, true, false, true]);
    assert_eq!(startup.stage, StartupStage::Started);
    assert_eq!(actions[3..], [StartupAction::StartWorkers; 3]);
}
