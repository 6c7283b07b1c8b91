use desktop_pet::protocol::{
    build_command, build_expression, build_query, validate, validate_decoded, CommandRequest,
    ExpressionRequest, Motion, Priority, Request, Response, ValidateError, WireCommand,
    WireRequest, MAX_DURATION_MS, MAX_MESSAGE_BYTES, MAX_TEXT_CHARS, MIN_DURATION_MS,
    PROTOCOL_VERSION,
};
use serde_json::Value;

fn expr(text: Option<&str>) -> ExpressionRequest {
    ExpressionRequest {
        version: 1,
        id: None,
        text: text.map(|t| t.to_string()),
        motion: None,
        priority: None,
        duration_ms: None,
        source: None,
    }
}

fn cmd(name: &str, character: Option<&str>) -> CommandRequest {
    CommandRequest {
        version: 1,
        id: Some("c1".to_string()),
        command: name.to_string(),
        character: character.map(|c| c.to_string()),
    }
}

fn object(pairs: Vec<(&str, Value)>) -> String {
    let mut m = serde_json::Map::new();
    for (k, v) in pairs {
        m.insert(k.to_string(), v);
    }
    Value::Object(m).to_string()
}

#[test]
fn constants_match_the_protocol() {
    assert_eq!(PROTOCOL_VERSION, 1);
    assert_eq!(MAX_MESSAGE_BYTES, 16 * 1024);
    assert_eq!(MAX_TEXT_CHARS, 1000);
    assert_eq!(MIN_DURATION_MS, 500);
    assert_eq!(MAX_DURATION_MS, 30_000);
}

#[test]
fn motion_parse_and_name() {
    assert_eq!(Motion::parse("nod"), Some(Motion::Nod));
    assert_eq!(Motion::parse("Shake"), Some(Motion::Shake));
    assert_eq!(Motion::parse("blink"), Some(Motion::Blink));
    assert_eq!(Motion::parse("Idle"), Some(Motion::Idle));
    assert_eq!(Motion::parse("NOD"), None);
    assert_eq!(Motion::parse("dance"), None);
    for m in [Motion::Idle, Motion::Blink, Motion::Nod, Motion::Shake] {
        assert_eq!(Motion::parse(m.name()), Some(m));
    }
    assert_eq!(Motion::Nod.name(), "Nod");
}

#[test]
fn priority_parse_and_name() {
    assert_eq!(Priority::parse("low"), Some(Priority::Low));
    assert_eq!(Priority::parse("Normal"), Some(Priority::Normal));
    assert_eq!(Priority::parse("high"), Some(Priority::High));
    assert_eq!(Priority::parse("urgent"), None);
    for p in [Priority::Low, Priority::Normal, Priority::High] {
        assert_eq!(Priority::parse(p.name()), Some(p));
    }
    assert_eq!(Priority::High.name(), "high");
}

#[test]
fn expression_defaults_and_clamps() {
    let mut e = expr(Some("  hello  "));
    e.duration_ms = Some(100);
    e.id = Some("x".to_string());
    match validate(Request::Expression(e)) {
        Ok(WireRequest::Expression { id, text, motion, priority, duration_ms }) => {
            assert_eq!(id.as_deref(), Some("x"));
            assert_eq!(text.as_deref(), Some("  hello  "));
            assert_eq!(motion, None);
            assert_eq!(priority, Priority::Normal);
            assert_eq!(duration_ms, Some(500));
        }
        other => panic!("unexpected {:?}", other),
    }
    let mut e = expr(None);
    e.motion = Some("nod".to_string());
    e.duration_ms = Some(40_000);
    e.priority = Some("High".to_string());
    e.version = 0;
    match validate(Request::Expression(e)) {
        Ok(WireRequest::Expression { text, motion, priority, duration_ms, .. }) => {
            assert_eq!(text, None);
            assert_eq!(motion, Some(Motion::Nod));
            assert_eq!(priority, Priority::High);
            assert_eq!(duration_ms, Some(30_000));
        }
        other => panic!("unexpected {:?}", other),
    }
}

#[test]
fn blank_text_with_motion_drops_the_text() {
    let mut e = expr(Some("   "));
    e.motion = Some("shake".to_string());
    match validate(Request::Expression(e)) {
        Ok(WireRequest::Expression { text, motion, .. }) => {
            assert_eq!(text, None);
            assert_eq!(motion, Some(Motion::Shake));
        }
        other => panic!("unexpected {:?}", other),
    }
}

#[test]
fn expression_errors() {
    let mut e = expr(Some("hi"));
    e.version = 2;
    assert!(matches!(validate(Request::Expression(e)), Err(ValidateError::UnsupportedVersion(2))));
    assert!(matches!(validate(Request::Expression(expr(Some(" \n")))), Err(ValidateError::Empty)));
    assert!(matches!(validate(Request::Expression(expr(None))), Err(ValidateError::Empty)));
    let long = "字".repeat(1001);
    assert!(matches!(
        validate(Request::Expression(expr(Some(&long)))),
        Err(ValidateError::TextTooLong)
    ));
    let ok = "字".repeat(1000);
    assert!(validate(Request::Expression(expr(Some(&ok)))).is_ok());
    let mut e = expr(Some("hi"));
    e.motion = Some("dance".to_string());
    match validate(Request::Expression(e)) {
        Err(ValidateError::UnknownMotion(m)) => assert_eq!(m, "dance"),
        other => panic!("unexpected {:?}", other),
    }
    let mut e = expr(Some("hi"));
    e.priority = Some("urgent".to_string());
    match validate(Request::Expression(e)) {
        Err(ValidateError::UnknownPriority(p)) => assert_eq!(p, "urgent"),
        other => panic!("unexpected {:?}", other),
    }
}

#[test]
fn commands_validate() {
    for (name, want) in [
        ("show", WireCommand::Show),
        ("hide", WireCommand::Hide),
        ("reset_position", WireCommand::ResetPosition),
        ("dismiss_bubble", WireCommand::DismissBubble),
    ] {
        match validate(Request::Command(cmd(name, None))) {
            Ok(WireRequest::Command { id, command }) => {
                assert_eq!(id.as_deref(), Some("c1"));
                assert_eq!(format!("{:?}", command), format!("{:?}", want));
            }
            other => panic!("unexpected {:?}", other),
        }
    }
    match validate(Request::Command(cmd("character", Some("mychar")))) {
        Ok(WireRequest::Command { command: WireCommand::Character(c), .. }) => assert_eq!(c, "mychar"),
        other => panic!("unexpected {:?}", other),
    }
    match validate(Request::Command(cmd("character", None))) {
        Ok(WireRequest::Command { command: WireCommand::Character(c), .. }) => assert_eq!(c, ""),
        other => panic!("unexpected {:?}", other),
    }
    match validate(Request::Command(cmd("jump", None))) {
        Err(ValidateError::UnknownCommand(c)) => assert_eq!(c, "jump"),
        other => panic!("unexpected {:?}", other),
    }
    let mut c = cmd("show", None);
    c.version = 7;
    assert!(matches!(validate(Request::Command(c)), Err(ValidateError::UnsupportedVersion(7))));
}

#[test]
fn undecodable_text_is_invalid_json() {
    assert!(matches!(validate_decoded(None), Err(ValidateError::InvalidJson)));
    assert!(validate_decoded(Some(Request::Expression(expr(Some("hi"))))).is_ok());
}

#[test]
fn error_messages() {
    assert_eq!(ValidateError::InvalidJson.to_string(), "invalid json");
    assert_eq!(
        ValidateError::UnsupportedVersion(2).to_string(),
        "unsupported protocol version: 2"
    );
    assert_eq!(ValidateError::Empty.to_string(), "request must contain text or motion");
    assert_eq!(ValidateError::TextTooLong.to_string(), "text exceeds 1000 characters");
    assert_eq!(ValidateError::UnknownMotion("x".into()).to_string(), "unknown motion: x");
    assert_eq!(ValidateError::UnknownCommand("y".into()).to_string(), "unknown command: y");
    assert_eq!(ValidateError::UnknownPriority("z".into()).to_string(), "unknown priority: z");
}

#[test]
fn wire_request_id() {
    let w = validate(Request::Command(cmd("show", None))).unwrap();
    assert_eq!(w.id().as_deref(), Some("c1"));
    let w = validate(Request::Expression(expr(Some("hi")))).unwrap();
    assert_eq!(w.id(), None);
}

#[test]
fn response_json() {
    assert_eq!(
        Response::ok(Some("a".to_string())).to_json(),
        "{\"ok\":true,\"id\":\"a\",\"accepted\":true}"
    );
    assert_eq!(Response::ok(None).to_json(), "{\"ok\":true,\"accepted\":true}");
    assert_eq!(
        Response::err(None, "queue_full").to_json(),
        "{\"ok\":false,\"error\":\"queue_full\"}"
    );
    assert_eq!(
        Response::err(Some("q\"1".to_string()), "bad\nline").to_json(),
        "{\"ok\":false,\"id\":\"q\\\"1\",\"error\":\"bad\\nline\"}"
    );
}

#[test]
fn build_expression_matches_a_json_object() {
    let got = build_expression(Some("hi \"you\""), Some(Motion::Nod), Priority::High, Some(1500), Some("x"));
    let want = object(vec![
        ("version", Value::from(1)),
        ("type", Value::from("expression")),
        ("priority", Value::from("high")),
        ("text", Value::from("hi \"you\"")),
        ("motion", Value::from("Nod")),
        ("duration_ms", Value::from(1500u64)),
        ("id", Value::from("x")),
    ]);
    assert_eq!(got, want);
    assert_eq!(
        build_expression(None, None, Priority::Normal, None, None),
        "{\"priority\":\"normal\",\"type\":\"expression\",\"version\":1}"
    );
}

#[test]
fn build_command_matches_a_json_object() {
    assert_eq!(build_command("hide", None), "{\"command\":\"hide\",\"type\":\"command\",\"version\":1}");
    let got = build_command("character", Some("tab\there"));
    let want = object(vec![
        ("version", Value::from(1)),
        ("type", Value::from("command")),
        ("command", Value::from("character")),
        ("character", Value::from("tab\there")),
    ]);
    assert_eq!(got, want);
}

#[test]
fn build_query_text() {
    assert_eq!(build_query("status"), "{\"query\":\"status\",\"type\":\"query\",\"version\":1}");
}

#[test]
fn escaping_follows_serde_json() {
    let tricky = "a\u{1}b\u{1f}c\\d/e\u{7f}é\r";
    let got = build_command(tricky, None);
    let want = object(vec![
        ("version", Value::from(1)),
        ("type", Value::from("command")),
        ("command", Value::from(tricky)),
    ]);
    assert_eq!(got, want);
}

fn decode_expression(json: &str) -> ExpressionRequest {
    let v: Value = serde_json::from_str(json).unwrap();
    assert_eq!(v["type"], "expression");
    ExpressionRequest {
        version: v["version"].as_u64().unwrap() as u32,
        id: v["id"].as_str().map(String::from),
        text: v["text"].as_str().map(String::from),
        motion: v["motion"].as_str().map(String::from),
        priority: v["priority"].as_str().map(String::from),
        duration_ms: v["duration_ms"].as_u64(),
        source: None,
    }
}

#[test]
fn build_then_validate_gives_the_expression_back() {
    let json = build_expression(Some("你好 \"pet\""), Some(Motion::Nod), Priority::High, Some(100), Some("req-1"));
    match validate(Request::Expression(decode_expression(&json))) {
        Ok(WireRequest::Expression { id, text, motion, priority, duration_ms }) => {
            assert_eq!(id.as_deref(), Some("req-1"));
            assert_eq!(text.as_deref(), Some("你好 \"pet\""));
            assert_eq!(motion, Some(Motion::Nod));
            assert_eq!(priority, Priority::High);
            assert_eq!(duration_ms, Some(MIN_DURATION_MS));
        }
        other => panic!("unexpected {:?}", other),
    }
    let json = build_expression(Some("  "), Some(Motion::Shake), Priority::Low, None, None);
    match validate(Request::Expression(decode_expression(&json))) {
        Ok(WireRequest::Expression { id, text, motion, priority, duration_ms }) => {
            assert_eq!((id, text, motion, priority, duration_ms), (None, None, Some(Motion::Shake), Priority::Low, None));
        }
        other => panic!("unexpected {:?}", other),
    }
}
