use quad_flight::calibrate::CalibrationMode;
use quad_flight::control::ControlPacket;
use quad_flight::ground::{
    apply_event, is_radiomaster, CalibrateClient, ClientAction, PadEvent, Reply, SendPolicy,
    TelemetryMonitor, VerboseMonitor, HEARTBEAT_US,
};
use quad_flight::single::{Single, Vector};
use quad_flight::{telemetry, telemetry_verbose};

fn s(v: f32) -> Single {
    Single { bits: v.to_bits() }
}

fn idle() -> ControlPacket {
    ControlPacket::new(0, s(0.0), s(0.0), s(0.0), false)
}

#[test]
fn the_radiomaster_is_known_by_its_ids() {
    assert!(is_radiomaster(Some(0x1209), Some(0x4f54)));
    assert!(!is_radiomaster(Some(0x1209), Some(0x4f55)));
    assert!(!is_radiomaster(Some(0x045e), Some(0x4f54)));
    assert!(!is_radiomaster(None, Some(0x4f54)));
    assert!(!is_radiomaster(Some(0x1209), None));
}

#[test]
fn sticks_move_their_axes() {
    let mut pkt = idle();
    assert!(!apply_event(&mut pkt, PadEvent::Throttle(42)));
    assert!(!apply_event(&mut pkt, PadEvent::Roll(s(0.1))));
    assert!(!apply_event(&mut pkt, PadEvent::Pitch(s(0.2))));
    assert!(!apply_event(&mut pkt, PadEvent::Yaw(s(0.3))));
    assert!(!apply_event(&mut pkt, PadEvent::Connected));
    assert!(!apply_event(&mut pkt, PadEvent::Other));
    assert_eq!(pkt, ControlPacket::new(42, s(0.1), s(0.2), s(0.3), false));
}

#[test]
fn start_toggles_the_arm_switch() {
    let mut pkt = idle();
    apply_event(&mut pkt, PadEvent::StartPressed);
    assert!(pkt.armed());
    apply_event(&mut pkt, PadEvent::StartPressed);
    assert!(!pkt.armed());
}

#[test]
fn select_arms_from_a_radiomaster_only() {
    let mut pkt = idle();
    apply_event(&mut pkt, PadEvent::SelectPressed { radiomaster: false });
    assert!(!pkt.armed());
    apply_event(&mut pkt, PadEvent::SelectPressed { radiomaster: true });
    assert!(pkt.armed());
    apply_event(&mut pkt, PadEvent::SelectReleased { radiomaster: false });
    assert!(pkt.armed());
    apply_event(&mut pkt, PadEvent::SelectReleased { radiomaster: true });
    assert!(!pkt.armed());
}

#[test]
fn a_lost_gamepad_disarms() {
    let mut pkt = ControlPacket::new(80, s(0.5), s(0.5), s(0.5), true);
    assert!(apply_event(&mut pkt, PadEvent::Disconnected));
    assert_eq!(pkt, ControlPacket::new(0, s(0.5), s(0.5), s(0.5), false));
}

#[test]
fn input_is_sent_on_change_and_as_a_heartbeat() {
    let mut policy = SendPolicy::new(1_000);
    let pkt = idle();
    // nothing sent yet
    assert!(policy.send_due(&pkt, 1_000));
    policy.sent(pkt, 1_000);
    assert_eq!(policy.wait(1_000), HEARTBEAT_US);
    assert_eq!(policy.wait(51_000), 50_000);
    assert!(!policy.send_due(&pkt, 100_999));
    assert_eq!(policy.wait(101_000), 0);
    assert!(policy.send_due(&pkt, 101_000));
    assert_eq!(policy.wait(500_000), 0);
    // a clock that goes backwards counts as no time
    assert_eq!(policy.wait(0), HEARTBEAT_US);
    let changed = ControlPacket::new(1, s(0.0), s(0.0), s(0.0), false);
    assert!(policy.send_due(&changed, 1_001));
    // a NaN never equals what was sent
    let broken = ControlPacket::new(0, s(f32::NAN), s(0.0), s(0.0), false);
    policy.sent(broken, 2_000);
    assert!(policy.send_due(&broken, 2_001));
}

#[test]
fn telemetry_is_reported_when_it_changes() {
    let mut monitor = TelemetryMonitor::new();
    let mut pkt =
        telemetry::TelemetryPacket::new(s(1.0), s(2.0), s(3.0), (1, 2, 3, 4), true, false);
    let size = telemetry::TELEMETRY_SIZE;
    // wrong size, wrong sender, garbage
    assert!(monitor.receive(size - 1, true, &pkt.to_bytes()).is_none());
    assert!(monitor.receive(size, false, &pkt.to_bytes()).is_none());
    assert!(monitor.receive(size, true, &[0; 25]).is_none());
    assert!(monitor.last.is_none());

    let report = monitor.receive(size, true, &pkt.to_bytes()).unwrap();
    assert_eq!(report.packet, pkt);
    assert!(!report.warn);
    assert!(monitor.receive(size, true, &pkt.to_bytes()).is_none());
    pkt.set_fifo_overflow(true);
    let report = monitor.receive(size, true, &pkt.to_bytes()).unwrap();
    assert!(report.warn);
    assert_eq!(monitor.last, Some(pkt));
}

#[test]
fn long_telemetry_is_reported_when_it_changes() {
    let mut monitor = VerboseMonitor::new();
    let zero = Vector::zeros();
    let mut pkt = telemetry_verbose::TelemetryPacket::new(
        s(1.0),
        s(2.0),
        s(3.0),
        (1, 2, 3, 4),
        true,
        false,
        zero,
        zero,
        zero,
        s(0.001),
        zero,
    );
    let size = telemetry_verbose::TELEMETRY_SIZE;
    assert!(monitor.receive(size + 1, true, &pkt.to_bytes()).is_none());
    assert!(monitor.receive(size, false, &pkt.to_bytes()).is_none());
    assert_eq!(monitor.receive(size, true, &pkt.to_bytes()).unwrap().packet, pkt);
    assert!(monitor.receive(size, true, &pkt.to_bytes()).is_none());
    pkt.dt = s(0.002);
    pkt.set_fifo_overflow(true);
    let report = monitor.receive(size, true, &pkt.to_bytes()).unwrap();
    assert!(report.warn);
    assert_eq!(report.packet.dt, s(0.002));
}

#[test]
fn the_calibration_client_follows_the_session() {
    let mut client = CalibrateClient::new();
    assert!(client.start_due());
    assert_eq!(client.on_reply(Reply::Nothing), ClientAction::Wait);
    assert!(client.start_due());
    assert_eq!(client.on_reply(Reply::Datagram(None)), ClientAction::Wait);
    assert!(!client.start_due());
    assert_eq!(
        client.on_reply(Reply::Datagram(Some(CalibrationMode::Level))),
        ClientAction::Prompt(CalibrationMode::Level)
    );
    assert_eq!(
        client.on_reply(Reply::Datagram(Some(CalibrationMode::MagRotate))),
        ClientAction::Prompt(CalibrationMode::MagRotate)
    );
    assert_eq!(client.on_reply(Reply::Nothing), ClientAction::Wait);
    assert!(!client.start_due());
    assert_eq!(
        client.on_reply(Reply::Datagram(Some(CalibrationMode::Ended))),
        ClientAction::Complete
    );
    assert_eq!(
        client.on_reply(Reply::Datagram(Some(CalibrationMode::Failed))),
        ClientAction::Failed
    );
}
