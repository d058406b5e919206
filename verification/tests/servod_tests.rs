use servo_core::servo::LocalServo;
use servo_core::servod::{
    candidate_ports, classify_event, format_port, parse_port, shuffled_candidate_ports,
    LaunchState, MonitorVerdict, ServodConnection, ServodEvent, ServodLauncher,
};
use servo_core::ServoError;

#[test]
fn candidate_ports_cover_the_band() {
    let ports = candidate_ports();
    assert_eq!(ports.len(), 99);
    assert_eq!(ports[0], 9000);
    assert_eq!(ports[98], 9098);
    let mut shuffled = shuffled_candidate_ports();
    shuffled.sort();
    assert_eq!(shuffled, ports);
}

#[test]
fn event_classification_follows_the_markers() {
    assert_eq!(
        classify_event(&ServodEvent::DiagnosticLine(
            "port 9000 is busy".to_string()
        )),
        MonitorVerdict::PortBusy
    );
    assert_eq!(
        classify_event(&ServodEvent::DiagnosticLine("warming up".to_string())),
        MonitorVerdict::KeepWaiting
    );
    assert_eq!(
        classify_event(&ServodEvent::PrimaryLine(
            "2024 INFO Listening on localhost port 9001".to_string()
        )),
        MonitorVerdict::Ready
    );
    assert_eq!(
        classify_event(&ServodEvent::PrimaryLine("starting".to_string())),
        MonitorVerdict::KeepWaiting
    );
    assert_eq!(
        classify_event(&ServodEvent::DiagnosticClosed),
        MonitorVerdict::Crashed
    );
    assert_eq!(
        classify_event(&ServodEvent::PrimaryClosed),
        MonitorVerdict::Crashed
    );
}

#[test]
fn busy_then_ready_lands_on_the_second_port() {
    // Deterministic port order, so the busy-then-success sequence is
    // observable: the fake daemon reports busy on 9000, then readiness on
    // 9001.
    let mut launcher = ServodLauncher::new("S1".to_string(), vec![9000, 9001], 16);
    let first = launcher.begin_attempt().unwrap();
    assert_eq!(first, 9000);
    let v = launcher.on_event(&ServodEvent::DiagnosticLine(
        "discovered device".to_string(),
    ));
    assert_eq!(v, MonitorVerdict::KeepWaiting);
    let v = launcher.on_event(&ServodEvent::DiagnosticLine(
        "Port 9000 is busy".to_string(),
    ));
    assert_eq!(v, MonitorVerdict::PortBusy);
    assert_eq!(launcher.state, LaunchState::Selecting);
    let second = launcher.begin_attempt().unwrap();
    assert_eq!(second, 9001);
    let v = launcher.on_event(&ServodEvent::PrimaryLine(
        "Listening on localhost port 9001".to_string(),
    ));
    assert_eq!(v, MonitorVerdict::Ready);
    assert_eq!(launcher.state, LaunchState::Done(9001));
    // The final connection is resolved by cross-checking the process table.
    let conn = ServodConnection::from_serial("S1", Some("9001")).unwrap();
    assert_eq!(conn.serial(), "S1");
    assert_eq!(conn.host(), "localhost");
    assert_eq!(conn.port(), 9001);
}

#[test]
fn closed_streams_are_a_fatal_crash_not_a_retry() {
    let mut launcher = ServodLauncher::new("S1".to_string(), vec![9000, 9001], 16);
    launcher.begin_attempt().unwrap();
    let v = launcher.on_event(&ServodEvent::PrimaryClosed);
    assert_eq!(v, MonitorVerdict::Crashed);
    assert_eq!(
        launcher.state,
        LaunchState::Failed(ServoError::ServodCrashed)
    );
    let mut launcher = ServodLauncher::new("S1".to_string(), vec![9000, 9001], 16);
    launcher.begin_attempt().unwrap();
    let v = launcher.on_event(&ServodEvent::DiagnosticClosed);
    assert_eq!(v, MonitorVerdict::Crashed);
    assert_eq!(
        launcher.state,
        LaunchState::Failed(ServoError::ServodCrashed)
    );
}

#[test]
fn exhausted_ports_fail_the_launch() {
    let mut launcher = ServodLauncher::new("S1".to_string(), vec![9000], 16);
    assert_eq!(launcher.begin_attempt(), Some(9000));
    let v = launcher.on_event(&ServodEvent::DiagnosticLine("is busy".to_string()));
    assert_eq!(v, MonitorVerdict::PortBusy);
    assert_eq!(launcher.begin_attempt(), None);
    assert_eq!(
        launcher.state,
        LaunchState::Failed(ServoError::PortsExhausted)
    );
}

#[test]
fn a_silent_daemon_times_out_instead_of_hanging() {
    let mut launcher = ServodLauncher::new("S1".to_string(), vec![9000], 2);
    launcher.begin_attempt().unwrap();
    let v = launcher.on_event(&ServodEvent::PrimaryLine("chatter".to_string()));
    assert_eq!(v, MonitorVerdict::KeepWaiting);
    assert_eq!(launcher.state, LaunchState::Awaiting(9000));
    let v = launcher.on_event(&ServodEvent::PrimaryLine("more chatter".to_string()));
    assert_eq!(v, MonitorVerdict::KeepWaiting);
    assert_eq!(
        launcher.state,
        LaunchState::Failed(ServoError::ServodTimedOut)
    );
}

#[test]
fn ports_parse_and_format_as_decimal() {
    assert_eq!(parse_port("9001"), Some(9001));
    assert_eq!(parse_port("0"), Some(0));
    assert_eq!(parse_port("65535"), Some(65535));
    assert_eq!(parse_port("65536"), None);
    assert_eq!(parse_port("99999999999999999999"), None);
    assert_eq!(parse_port(""), None);
    assert_eq!(parse_port("90a1"), None);
    assert_eq!(parse_port(" 9001"), None);
    assert_eq!(parse_port("0009001"), Some(9001));
    assert_eq!(format_port(9000), "9000");
    assert_eq!(format_port(0), "0");
    assert_eq!(format_port(65535), "65535");
}

#[test]
fn connection_discovery_needs_a_running_daemon() {
    assert!(matches!(
        ServodConnection::from_serial("S1", None),
        Err(ServoError::NotRunning)
    ));
    assert!(matches!(
        ServodConnection::from_serial("S1", Some("not a port")),
        Err(ServoError::NotRunning)
    ));
    assert!(matches!(
        ServodConnection::from_serial("S1", Some("70000")),
        Err(ServoError::NotRunning)
    ));
}

#[test]
fn daemon_and_control_argument_lists() {
    let d = LocalServo::new(
        "Servo V4".to_string(),
        "SER1".to_string(),
        "/sys/a".to_string(),
        vec![],
        None,
        None,
    );
    assert_eq!(
        d.servod_args(9014),
        vec!["sudo", "servod", "-s", "SER1", "-p", "9014"]
    );
    let conn = ServodConnection::from_serial("SER1", Some("9014")).unwrap();
    assert_eq!(
        conn.dut_control_args(&vec!["power_state:reset".to_string()]),
        vec!["dut-control", "-p", "9014", "power_state:reset"]
    );
}

#[test]
fn kernel_packages_are_recognized_anywhere_in_the_name() {
    assert!(servo_core::deploy::is_kernel_package("chromeos-kernel-5_15"));
    assert!(servo_core::deploy::is_kernel_package(
        "sys-kernel/chromeos-kernel-upstream"
    ));
    assert!(!servo_core::deploy::is_kernel_package("chromeos-base/tast"));
}
