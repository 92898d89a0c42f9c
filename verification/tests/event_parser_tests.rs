use m_ftracert::event_parser::{event_from_packet, parse_frida_output, payload_json, stderr_event};
use m_ftracert::json::JsonValue;

fn frida_line(payload: &str) -> String {
    format!("message: {{'type': 'send', 'payload': '{}'}} data: None", payload)
}

#[test]
fn log_packet_becomes_log_event() {
    let line = frida_line(r#"tracer::{"cmd": "log", "data": "hooking: a.B.c()"}"#);
    let e = parse_frida_output(&line).expect("event");
    assert_eq!(e.event_type, "log");
    assert_eq!(e.message, "hooking: a.B.c()");
    assert_eq!(e.thread_id, None);
    assert_eq!(e.args, None);
    assert_eq!(e.id.len(), 36);
    assert_eq!(e.timestamp.len(), 12);
}

#[test]
fn enter_packet_carries_method_details() {
    let line = frida_line(
        r#"tracer::{"cmd": "enter", "data": [123, "main", "com.example.Foo", "bar(int)", ["1", "x", 7]]}"#,
    );
    let e = parse_frida_output(&line).expect("event");
    assert_eq!(e.event_type, "enter");
    assert_eq!(e.thread_id, Some(123));
    assert_eq!(e.thread_name.as_deref(), Some("main"));
    assert_eq!(e.class_name.as_deref(), Some("com.example.Foo"));
    assert_eq!(e.method_name.as_deref(), Some("bar(int)"));
    assert_eq!(e.args, Some(vec!["1".to_string(), "x".to_string(), "".to_string()]));
    assert_eq!(e.return_value, None);
    assert_eq!(e.message, "Method enter: bar(int)");
}

#[test]
fn enter_packet_without_method_says_unknown() {
    let line = frida_line(r#"tracer::{"cmd": "enter", "data": "not an array"}"#);
    let e = parse_frida_output(&line).expect("event");
    assert_eq!(e.event_type, "enter");
    assert_eq!(e.thread_id, None);
    assert_eq!(e.args, None);
    assert_eq!(e.message, "Method enter: unknown");
}

#[test]
fn exit_packet_carries_return_value() {
    let line = frida_line(r#"tracer::{"cmd": "exit", "data": [9, "42"]}"#);
    let e = parse_frida_output(&line).expect("event");
    assert_eq!(e.event_type, "exit");
    assert_eq!(e.thread_id, Some(9));
    assert_eq!(e.return_value.as_deref(), Some("42"));
    assert_eq!(e.message, "Method exit: 42");
}

#[test]
fn exit_packet_without_value_says_void() {
    let line = frida_line(r#"tracer::{"cmd": "exit", "data": [9]}"#);
    let e = parse_frida_output(&line).expect("event");
    assert_eq!(e.return_value, None);
    assert_eq!(e.message, "Method exit: void");
}

#[test]
fn thread_id_is_cut_to_32_bits() {
    let line = frida_line(r#"tracer::{"cmd": "exit", "data": [4294967301, "v"]}"#);
    let e = parse_frida_output(&line).expect("event");
    assert_eq!(e.thread_id, Some(5));
}

#[test]
fn negative_thread_id_is_absent() {
    let line = frida_line(r#"tracer::{"cmd": "exit", "data": [-3, "v"]}"#);
    let e = parse_frida_output(&line).expect("event");
    assert_eq!(e.thread_id, None);
}

#[test]
fn unknown_command_is_logged() {
    let line = frida_line(r#"tracer::{"cmd": "boom", "data": 1}"#);
    let e = parse_frida_output(&line).expect("event");
    assert_eq!(e.event_type, "log");
    assert_eq!(e.message, "Unknown command: boom");
}

#[test]
fn missing_command_means_log() {
    let line = frida_line(r#"tracer::{"data": "plain"}"#);
    let e = parse_frida_output(&line).expect("event");
    assert_eq!(e.event_type, "log");
    assert_eq!(e.message, "plain");
}

#[test]
fn log_with_non_string_data_has_empty_message() {
    let line = frida_line(r#"tracer::{"cmd": "log", "data": 5}"#);
    let e = parse_frida_output(&line).expect("event");
    assert_eq!(e.message, "");
}

#[test]
fn line_without_marker_is_ignored() {
    assert!(parse_frida_output("Spawned `com.example`. Resuming main thread!").is_none());
    let line = "message: {'type': 'send', 'payload': '{\"cmd\": \"log\"}'} data: None";
    assert!(parse_frida_output(line).is_none());
}

#[test]
fn line_without_payload_key_is_ignored() {
    assert!(parse_frida_output("tracer:: something else").is_none());
}

#[test]
fn line_without_closing_quote_is_ignored() {
    assert!(parse_frida_output("'payload': 'tracer::{\"cmd\": \"log\"}").is_none());
}

#[test]
fn invalid_json_is_ignored() {
    let line = frida_line("tracer::{not json}");
    assert!(parse_frida_output(&line).is_none());
}

#[test]
fn payload_drops_every_leading_marker() {
    let line = frida_line("tracer::tracer::[1]");
    assert_eq!(payload_json(&line).as_deref(), Some("[1]"));
}

#[test]
fn payload_stops_at_first_closing_quote() {
    let line = frida_line("tracer::{\"a\": \"x'}y\"}");
    assert_eq!(payload_json(&line).as_deref(), Some("{\"a\": \"x"));
    assert!(parse_frida_output(&line).is_none());
}

#[test]
fn event_from_packet_uses_given_id_and_time() {
    let packet = JsonValue::Object(vec![
        ("cmd".to_string(), JsonValue::Str("log".to_string())),
        ("data".to_string(), JsonValue::Str("hi".to_string())),
    ]);
    let e = event_from_packet(&packet, "id-1".to_string(), "12:00:00.000".to_string());
    assert_eq!(e.id, "id-1");
    assert_eq!(e.timestamp, "12:00:00.000");
    assert_eq!(e.message, "hi");
}

#[test]
fn event_from_packet_reads_enter_array() {
    let packet = JsonValue::Object(vec![
        ("cmd".to_string(), JsonValue::Str("enter".to_string())),
        (
            "data".to_string(),
            JsonValue::Array(vec![
                JsonValue::Number(Some(7)),
                JsonValue::Null,
                JsonValue::Str("C".to_string()),
                JsonValue::Bool(true),
                JsonValue::Array(vec![JsonValue::Str("a".to_string()), JsonValue::Number(None)]),
            ]),
        ),
    ]);
    let e = event_from_packet(&packet, String::new(), String::new());
    assert_eq!(e.thread_id, Some(7));
    assert_eq!(e.thread_name, None);
    assert_eq!(e.class_name.as_deref(), Some("C"));
    assert_eq!(e.method_name, None);
    assert_eq!(e.args, Some(vec!["a".to_string(), String::new()]));
    assert_eq!(e.message, "Method enter: unknown");
}

#[test]
fn non_integer_thread_ids_are_absent() {
    let line = frida_line(r#"tracer::{"cmd": "exit", "data": [1.5, "v"]}"#);
    assert_eq!(parse_frida_output(&line).expect("event").thread_id, None);
    let line = frida_line(r#"tracer::{"cmd": "exit", "data": ["12", "v"]}"#);
    assert_eq!(parse_frida_output(&line).expect("event").thread_id, None);
}

#[test]
fn nested_json_is_read_through() {
    let line = frida_line(r#"tracer::{"cmd": "enter", "data": [1, "t", {"k": [null]}, "m", [["x"], "y"]]}"#);
    let e = parse_frida_output(&line).expect("event");
    assert_eq!(e.class_name, None);
    assert_eq!(e.args, Some(vec![String::new(), "y".to_string()]));
    assert!(parse_frida_output(&frida_line("tracer::[1,")).is_none());
}

#[test]
fn duplicate_keys_keep_the_last_value() {
    let line = frida_line(r#"tracer::{"cmd": "exit", "cmd": "log", "data": "last"}"#);
    let e = parse_frida_output(&line).expect("event");
    assert_eq!(e.event_type, "log");
    assert_eq!(e.message, "last");
}

#[test]
fn stderr_lines_become_error_events() {
    let e = stderr_event("Failed to attach: unable to find process").expect("event");
    assert_eq!(e.event_type, "log");
    assert_eq!(e.message, "[-] Error: Failed to attach: unable to find process");
    assert!(stderr_event("   \t ").is_none());
    assert!(stderr_event("").is_none());
}

#[test]
fn sent_packet_reads_back() {
    for packet in ["{\"cmd\":\"log\",\"data\":\"x\"}", "", "[]", "tracer:x"] {
        let line = frida_line(&format!("tracer::{}", packet));
        assert_eq!(payload_json(&line).as_deref(), Some(packet));
    }
}

#[test]
fn legacy_marker_is_still_read() {
    let line = r#"message: {'type': 'send', 'payload': 'ZenTracer:::{"cmd":"log","data":"hi"}'} data: None"#;
    let e = parse_frida_output(line).expect("event");
    assert_eq!(e.event_type, "log");
    assert_eq!(e.message, "hi");
    assert_eq!(payload_json(line), Some(r#"{"cmd":"log","data":"hi"}"#.to_string()));
}

#[test]
fn event_id_and_clock_have_their_shapes() {
    let e = parse_frida_output(&frida_line(r#"tracer::{"cmd": "log", "data": "x"}"#)).expect("event");
    let id: Vec<char> = e.id.chars().collect();
    assert_eq!(id.len(), 36);
    for (i, c) in id.iter().enumerate() {
        if i == 8 || i == 13 || i == 18 || i == 23 {
            assert_eq!(*c, '-');
        } else {
            assert!(c.is_ascii_hexdigit() && !c.is_ascii_uppercase());
        }
    }
    assert_eq!(id[14], '4');
    let t: Vec<char> = e.timestamp.chars().collect();
    assert_eq!(t.len(), 12);
    assert_eq!((t[2], t[5], t[8]), (':', ':', '.'));
    for (i, c) in t.iter().enumerate() {
        if i != 2 && i != 5 && i != 8 {
            assert!(c.is_ascii_digit());
        }
    }
}
