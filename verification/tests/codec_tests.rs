//! Wire codec behaviour: decoding real lines, the encode/decode round
//! trip, framing, and malformed-input resilience.

use wa_bridge::codec::{decode_command, decode_event, encode_command, encode_event};
use wa_bridge::protocol::{BridgeCommand, BridgeEvent, ChatPresenceState, ConnectionState};
use wa_bridge::pump::{input_pump_step, output_pump_step, stderr_pump_step};

fn b(s: &str) -> Vec<u8> {
    s.as_bytes().to_vec()
}

#[test]
fn test_parse_qr_event() {
    let event = decode_event(&b("{\"type\": \"qr\", \"data\": \"2@ABC123\"}"));
    assert!(matches!(event, BridgeEvent::Qr { data } if data == b("2@ABC123")));
}

#[test]
fn test_parse_text_message() {
    let json = r#"{
            "type": "message",
            "id": "msg123",
            "timestamp": 1705689600,
            "from": {"jid": "1234567890@s.whatsapp.net", "phone": "1234567890", "name": "John"},
            "chat": {"type": "private", "jid": "1234567890@s.whatsapp.net"},
            "content": {"type": "text", "body": "Hello!"},
            "is_from_me": false,
            "is_forwarded": false,
            "push_name": "John"
        }"#;
    let event = decode_event(&b(json));
    assert!(matches!(event, BridgeEvent::Message { .. }));
}

#[test]
fn test_decode_connected_event() {
    let event = decode_event(&b("{\"type\":\"connected\",\"phone\":\"491234\",\"name\":\"Ada\"}"));
    match event {
        BridgeEvent::Connected { phone, name, platform } => {
            assert_eq!(phone, b("491234"));
            assert_eq!(name, b("Ada"));
            assert_eq!(platform, None);
        }
        other => panic!("wrong event: {:?}", other),
    }
}

#[test]
fn test_decode_accepts_any_member_order() {
    let event = decode_event(&b("{\"data\":\"xyz\",\"type\":\"qr\"}"));
    assert!(matches!(event, BridgeEvent::Qr { data } if data == b("xyz")));
}

#[test]
fn test_decode_ignores_extra_members() {
    let event = decode_event(&b("{\"type\":\"qr\",\"data\":\"xyz\",\"spare\":17}"));
    assert!(matches!(event, BridgeEvent::Qr { data } if data == b("xyz")));
}

#[test]
fn test_decode_string_escapes() {
    let event = decode_event(&b("{\"type\":\"log\",\"level\":\"info\",\"message\":\"a\\nb\\t\\\"q\\\" \\u0041\"}"));
    match event {
        BridgeEvent::Log { level, message } => {
            assert_eq!(level, b("info"));
            assert_eq!(message, b("a\nb\t\"q\" A"));
        }
        other => panic!("wrong event: {:?}", other),
    }
}

#[test]
fn test_decode_connection_states() {
    let event = decode_event(&b("{\"type\":\"connection_state\",\"state\":\"reconnecting\"}"));
    assert!(matches!(
        event,
        BridgeEvent::ConnectionState { state: ConnectionState::Reconnecting }
    ));
    let event = decode_event(&b("{\"type\":\"chat_presence\",\"chat_id\":\"c\",\"user_id\":\"u\",\"state\":\"typing\"}"));
    assert!(matches!(
        event,
        BridgeEvent::ChatPresence { state: ChatPresenceState::Typing, .. }
    ));
}

#[test]
fn test_malformed_lines_become_warning_logs() {
    // Not JSON at all.
    let raw = b("this is not json");
    let event = decode_event(&raw);
    match &event {
        BridgeEvent::Log { level, message } => {
            assert_eq!(level, &b("warn"));
            let msg = String::from_utf8(message.clone()).unwrap();
            assert!(msg.contains("this is not json"));
        }
        other => panic!("wrong event: {:?}", other),
    }
    // Valid JSON without a type tag.
    let event = decode_event(&b("{\"data\":\"x\"}"));
    assert!(matches!(&event, BridgeEvent::Log { level, .. } if level == &b("warn")));
    // Valid JSON with an unknown type tag.
    let event = decode_event(&b("{\"type\":\"no_such_event\"}"));
    assert!(matches!(&event, BridgeEvent::Log { level, .. } if level == &b("warn")));
}

#[test]
fn test_output_pump_step_malformed_yields_exactly_one_event() {
    let cases = ["not json", "{\"data\": 1}", "{\"type\":\"???\"}"];
    for c in cases {
        let out = output_pump_step(&b(c));
        assert!(matches!(out, Some(BridgeEvent::Log { .. })));
    }
    // Blank lines yield nothing.
    assert!(output_pump_step(&b("")).is_none());
    assert!(output_pump_step(&b("   \t ")).is_none());
}

#[test]
fn test_stderr_lines_become_debug_logs() {
    let out = stderr_pump_step(&b("connecting to server"));
    match out {
        Some(BridgeEvent::Log { level, message }) => {
            assert_eq!(level, b("debug"));
            assert_eq!(message, b("[bridge] connecting to server"));
        }
        other => panic!("wrong event: {:?}", other),
    }
    assert!(stderr_pump_step(&b("")).is_none());
}

#[test]
fn test_encode_send_omits_unset_members() {
    let cmd = BridgeCommand::Send {
        request_id: None,
        to: b("123@x"),
        text: b("hi"),
        reply_to: None,
        reply_to_sender: None,
    };
    let line = encode_command(&cmd);
    assert_eq!(
        String::from_utf8(line).unwrap(),
        "{\"type\":\"send\",\"to\":\"123@x\",\"text\":\"hi\"}"
    );
}

#[test]
fn test_encode_send_with_request_id_and_reply() {
    let cmd = BridgeCommand::Send {
        request_id: Some(7),
        to: b("123@x"),
        text: b("hi"),
        reply_to: Some(b("m1")),
        reply_to_sender: None,
    };
    let line = encode_command(&cmd);
    assert_eq!(
        String::from_utf8(line).unwrap(),
        "{\"type\":\"send\",\"request_id\":7,\"to\":\"123@x\",\"text\":\"hi\",\"reply_to\":\"m1\"}"
    );
}

#[test]
fn test_encode_disconnect() {
    let line = encode_command(&BridgeCommand::Disconnect);
    assert_eq!(String::from_utf8(line).unwrap(), "{\"type\":\"disconnect\"}");
}

#[test]
fn test_command_round_trip_all_variants() {
    let commands = vec![
        BridgeCommand::Send {
            request_id: Some(-3),
            to: b("a@b"),
            text: b("line\nbreak and \"quotes\""),
            reply_to: Some(b("r1")),
            reply_to_sender: Some(b("s1")),
        },
        BridgeCommand::SendImage {
            request_id: None,
            to: b("a@b"),
            media_data: b("aGVsbG8="),
            mime_type: b("image/png"),
            caption: Some(b("cap")),
            reply_to: None,
            reply_to_sender: None,
        },
        BridgeCommand::SendReaction {
            request_id: Some(9),
            to: b("a@b"),
            message_id: b("m7"),
            sender_jid: None,
            emoji: b(""),
        },
        BridgeCommand::GetProfilePicture { request_id: 42, to: b("a@b") },
        BridgeCommand::Disconnect,
        BridgeCommand::Logout,
    ];
    for cmd in commands {
        let line = encode_command(&cmd);
        assert_eq!(decode_command(&line), Some(cmd.clone()), "round trip of {:?}", cmd);
    }
}

#[test]
fn test_event_round_trip_all_variants() {
    let events = vec![
        BridgeEvent::Qr { data: b("2@ABC") },
        BridgeEvent::Connected { phone: b("49"), name: b("Ada"), platform: Some(b("web")) },
        BridgeEvent::Connected { phone: b("49"), name: b("Ada"), platform: None },
        BridgeEvent::ConnectionState { state: ConnectionState::LoggedOut },
        BridgeEvent::SendResult {
            request_id: Some(5),
            success: true,
            message_id: Some(b("abc")),
            timestamp: Some(1700000000),
            error: None,
        },
        BridgeEvent::SendResult {
            request_id: None,
            success: false,
            message_id: None,
            timestamp: None,
            error: Some(b("boom")),
        },
        BridgeEvent::ProfilePicture {
            request_id: 8,
            jid: b("j@x"),
            url: Some(b("https://pic")),
            id: None,
            error: None,
        },
        BridgeEvent::ChatPresence {
            chat_id: b("c"),
            user_id: b("u"),
            state: ChatPresenceState::Recording,
        },
        BridgeEvent::Error { code: b("E1"), message: b("bad") },
        BridgeEvent::Log { level: b("info"), message: b("hello") },
        BridgeEvent::LoggedOut { reason: b("device removed") },
        BridgeEvent::MarkAsRead { chat_id: b("c2") },
    ];
    for ev in events {
        let line = encode_event(&ev);
        let back = decode_event(&line);
        assert_eq!(back, ev, "round trip of {:?}", ev);
    }
}

#[test]
fn test_message_event_passes_through_verbatim() {
    let raw = b("{\"type\":\"message\",\"id\":\"m1\",\"content\":{\"type\":\"text\",\"body\":\"hi\"}}");
    let ev = decode_event(&raw);
    match &ev {
        BridgeEvent::Message { raw: kept } => assert_eq!(kept, &raw),
        other => panic!("wrong event: {:?}", other),
    }
    assert_eq!(encode_event(&ev), raw);
}

#[test]
fn test_unset_optionals_are_absent_not_null() {
    let ev = BridgeEvent::SendResult {
        request_id: None,
        success: true,
        message_id: None,
        timestamp: None,
        error: None,
    };
    let line = String::from_utf8(encode_event(&ev)).unwrap();
    assert_eq!(line, "{\"type\":\"send_result\",\"success\":true}");
    assert!(!line.contains("null"));
}

#[test]
fn test_input_pump_frames_one_line_per_command() {
    let cmd = BridgeCommand::Send {
        request_id: None,
        to: b("1@x"),
        text: b("two\nlines and a long payload \\ with backslashes"),
        reply_to: None,
        reply_to_sender: None,
    };
    let frame = input_pump_step(&cmd);
    assert_eq!(*frame.last().unwrap(), b'\n');
    let newlines = frame.iter().filter(|&&c| c == b'\n').count();
    assert_eq!(newlines, 1);
}

#[test]
fn test_decode_numbers() {
    let ev = decode_event(&b(
        "{\"type\":\"send_result\",\"request_id\":-12,\"success\":false,\"timestamp\":1700000000}",
    ));
    match ev {
        BridgeEvent::SendResult { request_id, success, timestamp, .. } => {
            assert_eq!(request_id, Some(-12));
            assert!(!success);
            assert_eq!(timestamp, Some(1700000000));
        }
        other => panic!("wrong event: {:?}", other),
    }
}
