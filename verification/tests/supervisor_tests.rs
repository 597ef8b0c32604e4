//! Correlator and supervision-loop behaviour: identifier uniqueness,
//! exactly-once resolution, restart recovery, bounded shutdown, and
//! the delivery scenario for an uncorrelated send result.

use wa_bridge::codec::decode_event;
use wa_bridge::correlator::{correlation_of, Correlator};
use wa_bridge::protocol::{BridgeCommand, BridgeEvent};
use wa_bridge::pump::{output_pump_lines, output_pump_step};
use wa_bridge::supervise::{step, BridgeConfig, LoopAction, LoopEvent, LoopState};

fn b(s: &str) -> Vec<u8> {
    s.as_bytes().to_vec()
}

#[test]
fn test_allocate_ids_are_distinct_and_increasing() {
    let mut c = Correlator::new();
    let a = c.allocate_id();
    let bb = c.allocate_id();
    let cc = c.allocate_id();
    assert_eq!(a, 1);
    assert_eq!(bb, 2);
    assert_eq!(cc, 3);
}

#[test]
fn test_resolve_fulfills_only_the_matching_slot() {
    let mut c = Correlator::new();
    let i1 = c.allocate_id();
    c.register(i1);
    let i2 = c.allocate_id();
    c.register(i2);
    let i3 = c.allocate_id();
    c.register(i3);
    assert!(c.resolve(i2, Some(b("url-2"))));
    assert_eq!(c.take(i1), Some((false, None)));
    assert_eq!(c.take(i2), Some((true, Some(b("url-2")))));
    assert_eq!(c.take(i3), Some((false, None)));
}

#[test]
fn test_resolve_unknown_id_is_a_noop() {
    let mut c = Correlator::new();
    let i1 = c.allocate_id();
    c.register(i1);
    assert!(!c.resolve(999, Some(b("x"))));
    assert_eq!(c.pending_count(), 1);
    assert_eq!(c.take(i1), Some((false, None)));
}

#[test]
fn test_second_resolve_keeps_the_first_value() {
    let mut c = Correlator::new();
    let i1 = c.allocate_id();
    c.register(i1);
    assert!(c.resolve(i1, Some(b("first"))));
    assert!(!c.resolve(i1, Some(b("second"))));
    assert_eq!(c.take(i1), Some((true, Some(b("first")))));
}

#[test]
fn test_teardown_cancels_all_pending() {
    let mut c = Correlator::new();
    let i1 = c.allocate_id();
    c.register(i1);
    let i2 = c.allocate_id();
    c.register(i2);
    assert_eq!(c.pending_count(), 2);
    c.cancel_all();
    assert_eq!(c.pending_count(), 0);
    assert_eq!(c.take(i1), None);
}

#[test]
fn test_uncorrelated_send_result_is_still_delivered() {
    // A send without a request id asks for no correlation.
    let cmd = BridgeCommand::Send {
        request_id: None,
        to: b("123@x"),
        text: b("hi"),
        reply_to: None,
        reply_to_sender: None,
    };
    let line = wa_bridge::codec::encode_command(&cmd);
    assert!(!String::from_utf8(line).unwrap().contains("request_id"));
    // The bridge answers with a null request id.
    let raw = b("{\"type\":\"send_result\",\"request_id\":null,\"success\":true,\"message_id\":\"abc\",\"timestamp\":1700000000}");
    let event = output_pump_step(&raw).expect("the event must be delivered");
    match &event {
        BridgeEvent::SendResult { request_id, success, message_id, timestamp, .. } => {
            assert_eq!(*request_id, None);
            assert!(*success);
            assert_eq!(message_id.as_ref().unwrap(), &b("abc"));
            assert_eq!(*timestamp, Some(1700000000));
        }
        other => panic!("wrong event: {:?}", other),
    }
    // No pending request exists for it, so the correlator takes no action.
    assert_eq!(correlation_of(&event), None);
    let mut c = Correlator::new();
    assert!(!c.resolve(0, None));
    assert_eq!(c.pending_count(), 0);
}

#[test]
fn test_profile_picture_event_correlates() {
    let raw = b("{\"type\":\"profile_picture\",\"request_id\":4,\"jid\":\"j@x\",\"url\":\"https://p\"}");
    let event = decode_event(&raw);
    let (id, url) = correlation_of(&event).expect("profile pictures correlate");
    assert_eq!(id, 4);
    assert_eq!(url, Some(b("https://p")));
}

#[test]
fn test_events_are_delivered_in_line_order() {
    let lines = vec![
        b("{\"type\":\"qr\",\"data\":\"first\"}"),
        b(""),
        b("not json"),
        b("{\"type\":\"log\",\"level\":\"info\",\"message\":\"second\"}"),
        b("   "),
        b("{\"type\":\"mark_as_read\",\"chat_id\":\"third\"}"),
    ];
    let events = output_pump_lines(&lines);
    assert_eq!(events.len(), 4);
    assert!(matches!(&events[0], BridgeEvent::Qr { data } if data == &b("first")));
    assert!(matches!(&events[1], BridgeEvent::Log { level, .. } if level == &b("warn")));
    assert!(matches!(&events[2], BridgeEvent::Log { message, .. } if message == &b("second")));
    assert!(matches!(&events[3], BridgeEvent::MarkAsRead { chat_id } if chat_id == &b("third")));
}

#[test]
fn test_restart_loop_recovers_after_channel_close() {
    let (s1, a1) = step(LoopState::Running, LoopEvent::ChannelClosed);
    assert_eq!(s1, LoopState::Respawning);
    assert_eq!(a1, LoopAction::WaitBackoff);
    let (s2, a2) = step(s1, LoopEvent::BackoffElapsed);
    assert_eq!(s2, LoopState::Spawning);
    assert_eq!(a2, LoopAction::Spawn);
    let (s3, a3) = step(s2, LoopEvent::SpawnOk);
    assert_eq!(s3, LoopState::Running);
    assert_eq!(a3, LoopAction::PublishSender);
}

#[test]
fn test_spawn_failure_backs_off_and_retries() {
    let (s1, a1) = step(LoopState::Spawning, LoopEvent::SpawnFailed);
    assert_eq!(s1, LoopState::Spawning);
    assert_eq!(a1, LoopAction::WaitBackoff);
    let (s2, a2) = step(s1, LoopEvent::BackoffElapsed);
    assert_eq!(s2, LoopState::Spawning);
    assert_eq!(a2, LoopAction::Spawn);
}

#[test]
fn test_shutdown_is_bounded_and_forced_when_needed() {
    let (s1, a1) = step(LoopState::Running, LoopEvent::ShutdownSignal);
    assert_eq!(s1, LoopState::Draining);
    assert_eq!(a1, LoopAction::SendDisconnect);
    // A cooperating child exits within the grace period.
    assert_eq!(step(s1, LoopEvent::ChildExited), (LoopState::Stopped, LoopAction::Idle));
    // A non-cooperating child is force-terminated at the grace boundary.
    assert_eq!(step(s1, LoopEvent::GraceElapsed), (LoopState::Stopped, LoopAction::KillChild));
    // Stopped is terminal.
    assert_eq!(step(LoopState::Stopped, LoopEvent::EventArrived), (LoopState::Stopped, LoopAction::Idle));
}

#[test]
fn test_spawn_args() {
    let cfg = BridgeConfig {
        binary_path: "wa-bridge".to_string(),
        data_dir: "/tmp/wa".to_string(),
        verbose: false,
    };
    assert_eq!(cfg.spawn_args(), vec!["--data-dir".to_string(), "/tmp/wa".to_string()]);
    let cfg = BridgeConfig { verbose: true, ..cfg };
    assert_eq!(
        cfg.spawn_args(),
        vec!["--data-dir".to_string(), "/tmp/wa".to_string(), "--verbose".to_string()]
    );
}
