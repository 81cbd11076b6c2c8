use f58mqtt::config::{parse_endpoint, Endpoint};
use f58mqtt::reconciler::TargetState;
use f58mqtt::session::{process_incoming, MqttCommand, MqttTopics, PollOutcome, Session};
use f58mqtt::tracker::{DeviceState, PowerLevel};

fn contains(hay: &[u8], needle: &[u8]) -> bool {
    hay.windows(needle.len()).any(|w| w == needle)
}

#[test]
fn topics_under_prefix() {
    let t = MqttTopics::new(b"f58");
    assert_eq!(t.cmd, b"f58/cmd".to_vec());
    assert_eq!(t.log, b"f58/log".to_vec());
    assert_eq!(t.set, b"f58/set".to_vec());
    assert_eq!(t.state, b"f58/state".to_vec());
}

#[test]
fn set_then_ping() {
    let t = MqttTopics::new(b"f58");
    let mut session = Session::new(0);
    let r = process_incoming(b"f58/set", b"high", &t);
    assert_eq!(r.command, MqttCommand::SetTarget(TargetState::On(PowerLevel::High)));
    assert_eq!(r.log, None);
    assert_eq!(session.on_poll(PollOutcome::Command(r.command)), Some(TargetState::On(PowerLevel::High)));
    let r = process_incoming(b"f58/cmd", b"ping abc", &t);
    assert_eq!(r.command, MqttCommand::Unknown);
    let line = r.log.unwrap();
    assert!(contains(&line, b"abc"));
    assert_eq!(line, b"Pong: abc".to_vec());
    assert_eq!(session.on_poll(PollOutcome::Command(r.command)), None);
}

#[test]
fn set_payloads() {
    let t = MqttTopics::new(b"home");
    assert_eq!(process_incoming(b"home/set", b"off", &t).command, MqttCommand::SetTarget(TargetState::Off));
    assert_eq!(
        process_incoming(b"home/set", b"low", &t).command,
        MqttCommand::SetTarget(TargetState::On(PowerLevel::Low))
    );
    assert_eq!(
        process_incoming(b"home/set", b"medium", &t).command,
        MqttCommand::SetTarget(TargetState::On(PowerLevel::Medium))
    );
    let r = process_incoming(b"home/set", b"max", &t);
    assert_eq!(r.command, MqttCommand::Unknown);
    assert_eq!(r.log.unwrap(), b"unknown set: max".to_vec());
}

#[test]
fn unknown_cmd_and_topic() {
    let t = MqttTopics::new(b"f58");
    let r = process_incoming(b"f58/cmd", b"pong", &t);
    assert_eq!(r.command, MqttCommand::Unknown);
    assert_eq!(r.log.unwrap(), b"unknown cmd: pong".to_vec());
    let r = process_incoming(b"other", b"high", &t);
    assert_eq!(r.command, MqttCommand::Unknown);
    assert_eq!(r.log.unwrap(), b"unknown topic: other".to_vec());
}

#[test]
fn resubscribe_after_reset() {
    let mut s = Session::new(0);
    assert!(s.need_resubscribe);
    s.on_subscribe(false);
    assert!(s.need_resubscribe);
    s.on_subscribe(true);
    assert!(!s.need_resubscribe);
    s.on_poll(PollOutcome::Idle);
    s.on_poll(PollOutcome::Failed);
    assert!(!s.need_resubscribe);
    s.on_poll(PollOutcome::SessionReset);
    assert!(s.need_resubscribe);
}

#[test]
fn state_telemetry_throttling() {
    let mut s = Session::new(0);
    assert!(!s.should_publish(1000, DeviceState::Unknown));
    assert!(s.should_publish(1000, DeviceState::Off));
    s.on_published(1000, DeviceState::Off);
    assert!(!s.should_publish(60_000, DeviceState::Off));
    assert!(!s.should_publish(61_000, DeviceState::Off));
    assert!(s.should_publish(61_001, DeviceState::Off));
    assert!(!s.should_publish(2000, DeviceState::Unknown));
    assert!(s.should_publish(61_001, DeviceState::Unknown));
    assert!(s.should_publish(2000, DeviceState::On(PowerLevel::Low)));
}

#[test]
fn endpoint_parsing() {
    assert_eq!(
        parse_endpoint(b"192.168.1.10:1883"),
        Some(Endpoint { a: 192, b: 168, c: 1, d: 10, port: 1883 })
    );
    assert_eq!(parse_endpoint(b"10.0.0.1:65535").unwrap().port, 65535);
    assert_eq!(parse_endpoint(b"10.0.0.1:65536"), None);
    assert_eq!(parse_endpoint(b"256.0.0.1:80"), None);
    assert_eq!(parse_endpoint(b"1.2.3.4:5:6"), None);
    assert_eq!(parse_endpoint(b"1.2.3.x:5"), None);
    assert_eq!(parse_endpoint(b"1.2.3.4:99999999999999999999999"), None);
    assert_eq!(parse_endpoint(b"0.0.0.0:0"), Some(Endpoint { a: 0, b: 0, c: 0, d: 0, port: 0 }));
}

#[test]
fn malformed_endpoints_are_rejected() {
    for text in [
        &b""[..],
        b"1.2.3",
        b"1.2.3.4",
        b"1.2.3.4:",
        b"1..2.3:4",
        b"1:2:3:4.5",
        b"1.2.3.4.5",
        b".1.2.3:4",
        b"1.2.3:4",
        b"1.2.3.4:5.",
        b" 1.2.3.4:5",
    ] {
        assert_eq!(parse_endpoint(text), None);
    }
    assert_eq!(
        parse_endpoint(b"001.02.3.4:0080"),
        Some(Endpoint { a: 1, b: 2, c: 3, d: 4, port: 80 })
    );
}
