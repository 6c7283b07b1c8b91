use desktop_pet::behavior::PetAction;
use desktop_pet::ipc::{
    admit_request, cli_output, cli_request, motion_to_action, parse_request, parse_u32,
    priority_to_presentation, queue_response, read_finished, screen_message, Screened, SendOutcome,
    ValidatedCommand, ValidatedRequest,
};
use desktop_pet::presentation;
use desktop_pet::protocol::{
    CommandRequest, ExpressionRequest, Motion, Priority, Request, MAX_MESSAGE_BYTES,
};
use serde_json::Value;

fn args(v: &[&str]) -> Vec<String> {
    v.iter().map(|s| s.to_string()).collect()
}

fn object(pairs: Vec<(&str, Value)>) -> String {
    let mut m = serde_json::Map::new();
    for (k, v) in pairs {
        m.insert(k.to_string(), v);
    }
    Value::Object(m).to_string()
}

#[test]
fn motions_become_actions() {
    assert_eq!(motion_to_action(Motion::Idle), PetAction::Idle);
    assert_eq!(motion_to_action(Motion::Blink), PetAction::Blink);
    assert_eq!(motion_to_action(Motion::Nod), PetAction::Nod);
    assert_eq!(motion_to_action(Motion::Shake), PetAction::Shake);
}

#[test]
fn priorities_become_bubble_priorities() {
    assert_eq!(priority_to_presentation(Priority::Low), presentation::Priority::Idle);
    assert_eq!(priority_to_presentation(Priority::Normal), presentation::Priority::System);
    assert_eq!(priority_to_presentation(Priority::High), presentation::Priority::User);
}

#[test]
fn parse_request_converts_and_reports() {
    assert_eq!(parse_request(None).unwrap_err(), "invalid json");
    let req = Request::Command(CommandRequest {
        version: 1,
        id: Some("7".to_string()),
        command: "character".to_string(),
        character: Some("cat".to_string()),
    });
    match parse_request(Some(req)) {
        Ok(ValidatedRequest::Command { id, command: ValidatedCommand::Character(c) }) => {
            assert_eq!(id.as_deref(), Some("7"));
            assert_eq!(c, "cat");
        }
        other => panic!("unexpected {:?}", other),
    }
    let req = Request::Expression(ExpressionRequest {
        version: 1,
        id: None,
        text: Some("hello".to_string()),
        motion: Some("wave".to_string()),
        priority: None,
        duration_ms: None,
        source: None,
    });
    assert_eq!(parse_request(Some(req)).unwrap_err(), "unknown motion: wave");
    let req = Request::Expression(ExpressionRequest {
        version: 1,
        id: Some("e".to_string()),
        text: Some("hello".to_string()),
        motion: None,
        priority: Some("low".to_string()),
        duration_ms: Some(2000),
        source: None,
    });
    match parse_request(Some(req)) {
        Ok(r @ ValidatedRequest::Expression(_)) => {
            assert_eq!(r.id().as_deref(), Some("e"));
            if let ValidatedRequest::Expression(e) = r {
                assert_eq!(e.text.as_deref(), Some("hello"));
                assert_eq!(e.priority, Priority::Low);
                assert_eq!(e.duration_ms, Some(2000));
            }
        }
        other => panic!("unexpected {:?}", other),
    }
}

#[test]
fn screening_of_message_bytes() {
    assert!(matches!(screen_message(b""), Screened::Ignore));
    let big = vec![b'a'; MAX_MESSAGE_BYTES + 1];
    match screen_message(&big) {
        Screened::Reply(r) => assert_eq!(r.to_json(), "{\"ok\":false,\"error\":\"message too large\"}"),
        other => panic!("unexpected {:?}", other),
    }
    let exact = vec![b'a'; MAX_MESSAGE_BYTES];
    assert!(matches!(screen_message(&exact), Screened::Text(_)));
    match screen_message(&[0xff, 0xfe]) {
        Screened::Reply(r) => assert_eq!(r.error.as_deref(), Some("invalid utf-8")),
        other => panic!("unexpected {:?}", other),
    }
    let stop = "{\"version\":1,\"type\":\"command\",\"command\":\"__stop\"}";
    assert!(matches!(screen_message(stop.as_bytes()), Screened::Ignore));
    match screen_message("{\"text\":\"你好\"}".as_bytes()) {
        Screened::Text(t) => assert_eq!(t, "{\"text\":\"你好\"}"),
        other => panic!("unexpected {:?}", other),
    }
}

#[test]
fn admission_and_queue_replies() {
    match admit_request(None) {
        Err(r) => assert_eq!(r.to_json(), "{\"ok\":false,\"error\":\"invalid json\"}"),
        Ok(_) => panic!("accepted"),
    }
    assert_eq!(
        queue_response(Some("1".to_string()), SendOutcome::Sent).to_json(),
        "{\"ok\":true,\"id\":\"1\",\"accepted\":true}"
    );
    assert_eq!(
        queue_response(None, SendOutcome::Full).to_json(),
        "{\"ok\":false,\"error\":\"queue_full\"}"
    );
    assert_eq!(
        queue_response(Some("2".to_string()), SendOutcome::Disconnected).to_json(),
        "{\"ok\":false,\"id\":\"2\",\"error\":\"server_shutting_down\"}"
    );
}

#[test]
fn parse_u32_agrees_with_std() {
    for s in ["0", "1500", "+7", "4294967295", "4294967296", "", "+", "-1", " 1", "1 ", "12a", "٣", "007"] {
        assert_eq!(parse_u32(s), s.parse::<u32>().ok(), "input {:?}", s);
    }
}

#[test]
fn cli_send_with_options() {
    let got = cli_request(&args(&["pet", "send", "hello", "--motion", "nod", "--priority", "high", "--duration", "1500"]));
    let want = object(vec![
        ("version", Value::from(1)),
        ("type", Value::from("expression")),
        ("text", Value::from("hello")),
        ("motion", Value::from("nod")),
        ("priority", Value::from("high")),
        ("duration_ms", Value::from(1500u32)),
    ]);
    assert_eq!(got, Some(want));
}

#[test]
fn cli_send_edge_cases() {
    assert_eq!(
        cli_request(&args(&["pet", "send"])),
        Some("{\"text\":\"\",\"type\":\"expression\",\"version\":1}".to_string())
    );
    assert_eq!(
        cli_request(&args(&["pet", "send", "hi", "--duration", "abc"])),
        Some("{\"text\":\"hi\",\"type\":\"expression\",\"version\":1}".to_string())
    );
    assert_eq!(
        cli_request(&args(&["pet", "send", "hi", "--duration", "900", "--duration", "x"])),
        Some("{\"text\":\"hi\",\"type\":\"expression\",\"version\":1}".to_string())
    );
    assert_eq!(
        cli_request(&args(&["pet", "send", "hi", "extra", "--motion"])),
        Some("{\"text\":\"hi\",\"type\":\"expression\",\"version\":1}".to_string())
    );
    assert_eq!(
        cli_request(&args(&["pet", "send", "hi", "--motion", "a", "--motion", "b"])),
        Some("{\"motion\":\"b\",\"text\":\"hi\",\"type\":\"expression\",\"version\":1}".to_string())
    );
}

#[test]
fn cli_other_subcommands() {
    assert_eq!(
        cli_request(&args(&["pet", "motion", "shake"])),
        Some("{\"motion\":\"shake\",\"type\":\"expression\",\"version\":1}".to_string())
    );
    assert_eq!(
        cli_request(&args(&["pet", "hide"])),
        Some("{\"command\":\"hide\",\"type\":\"command\",\"version\":1}".to_string())
    );
    assert_eq!(
        cli_request(&args(&["pet", "show"])),
        Some("{\"command\":\"show\",\"type\":\"command\",\"version\":1}".to_string())
    );
    assert_eq!(
        cli_request(&args(&["pet", "dismiss"])),
        Some("{\"command\":\"dismiss_bubble\",\"type\":\"command\",\"version\":1}".to_string())
    );
    assert_eq!(
        cli_request(&args(&["pet", "reset"])),
        Some("{\"command\":\"reset_position\",\"type\":\"command\",\"version\":1}".to_string())
    );
    assert_eq!(
        cli_request(&args(&["pet", "character", "cat"])),
        Some("{\"character\":\"cat\",\"command\":\"character\",\"type\":\"command\",\"version\":1}".to_string())
    );
    assert_eq!(
        cli_request(&args(&["pet", "status"])),
        Some("{\"query\":\"status\",\"type\":\"query\",\"version\":1}".to_string())
    );
    assert_eq!(cli_request(&args(&["pet", "query"])), cli_request(&args(&["pet", "status"])));
    assert_eq!(cli_request(&args(&["pet"])), None);
    assert_eq!(cli_request(&args(&["pet", "dance"])), None);
}

#[test]
fn cli_output_text() {
    assert_eq!(cli_output(Ok("{\"ok\":true}".to_string())), "{\"ok\":true}");
    assert_eq!(
        cli_output(Err("write failed".to_string())),
        "{\"ok\":false,\"error\":\"write failed\"}"
    );
}

#[test]
fn reading_stops_at_a_whole_json_value() {
    let mut buf = vec![0u8; 16];
    let msg = b"{\"type\":1}";
    buf[..msg.len()].copy_from_slice(msg);
    assert!(read_finished(&buf, msg.len(), msg.len()));
    assert!(!read_finished(&buf, 5, 5));
    assert!(read_finished(&buf, 5, 0));
    assert!(read_finished(&buf, 16, 3));
    assert!(read_finished(&buf, 0, 0));
}
