use zenoh_extcap::cli::{Cli, Command};

fn cli(interfaces: bool, dtls: bool, config: bool, capture: bool) -> Cli {
    Cli {
        extcap_interfaces: interfaces,
        extcap_version: "1.0".to_string(),
        extcap_interface: "zenoh".to_string(),
        extcap_dtls: dtls,
        extcap_config: config,
        capture,
        extcap_capture_filter: String::new(),
        fifo: None,
        channels: vec!["*".to_string()],
    }
}

#[test]
fn each_request_alone_picks_its_command() {
    assert_eq!(cli(true, false, false, false).command(), Command::Interfaces);
    assert_eq!(cli(false, true, false, false).command(), Command::Dlts);
    assert_eq!(cli(false, false, true, false).command(), Command::Config);
    assert_eq!(cli(false, false, false, true).command(), Command::Capture);
}

#[test]
fn no_request_picks_nothing() {
    assert_eq!(cli(false, false, false, false).command(), Command::Nothing);
}

#[test]
fn the_first_request_in_order_wins() {
    assert_eq!(cli(true, true, true, true).command(), Command::Interfaces);
    assert_eq!(cli(false, true, true, true).command(), Command::Dlts);
    assert_eq!(cli(false, false, true, true).command(), Command::Config);
    assert_eq!(cli(true, false, false, true).command(), Command::Interfaces);
    assert_eq!(cli(false, true, false, true).command(), Command::Dlts);
}
