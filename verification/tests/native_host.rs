use pvdp::clock::{parse, try_parse, MAX_DELTA_SECONDS};
use pvdp::frame::{classify, frame_length, payload_text, Incoming};
use pvdp::log_sink::log_line;
use pvdp::presence::{
    handle, idle_activity, try_handle, ActivityKind, Presence, PresenceAction, MAX_TIMESTAMP,
};

#[test]
fn clock_texts() {
    assert_eq!(parse("1:02:03"), 3723);
    assert_eq!(parse("02:03"), 123);
    assert_eq!(parse("45"), 0);
    assert_eq!(parse(""), 0);
    assert_eq!(parse("a:b"), 0);
    assert_eq!(parse("1:2:3:4"), 0);
    assert_eq!(parse("x:1:5"), 65);
    assert_eq!(parse("-1:00"), -60);
    assert_eq!(parse("::"), 0);
    assert_eq!(parse("+2:00:00"), 7200);
}

#[test]
fn clock_limits() {
    assert_eq!(try_parse("0:0:9223372036854775"), Some(MAX_DELTA_SECONDS));
    assert_eq!(try_parse("0:0:9223372036854776"), None);
    assert_eq!(try_parse("0:0:-9223372036854775"), Some(-MAX_DELTA_SECONDS));
    assert_eq!(try_parse("0:0:-9223372036854776"), None);
    // 2562047788015216 hours overflow i64 seconds on the way.
    assert_eq!(try_parse("2562047788015216:0:0"), None);
    // A field too large for i64 reads as 0.
    assert_eq!(try_parse("99999999999999999999:0:5"), Some(5));
}

#[test]
fn frame_lengths_are_little_endian() {
    assert_eq!(frame_length([1, 0, 0, 0]), 1);
    assert_eq!(frame_length([0x10, 0x27, 0, 0]), 10000);
    assert_eq!(frame_length([0, 0, 0, 1]), 16777216);
    assert_eq!(frame_length([255, 255, 255, 255]), 4294967295);
    assert_eq!(frame_length([0x12, 0x34, 0x56, 0x78]), u32::from_le_bytes([0x12, 0x34, 0x56, 0x78]) as usize);
}

#[test]
fn payload_text_decodes_or_empties() {
    assert_eq!(payload_text("{\"a\":\"ぷらいむ\"}".as_bytes().to_vec()), "{\"a\":\"ぷらいむ\"}");
    assert_eq!(payload_text(vec![0x7b, 0xff, 0x7d]), "");
    assert_eq!(payload_text(vec![]), "");
}

#[test]
fn classify_by_message_type() {
    assert!(matches!(classify("{\"message_type\":0}"), Incoming::KeepAlive));
    assert!(matches!(classify("{\"message_type\":3,\"title\":\"x\"}"), Incoming::Presence(3, _)));
    assert!(matches!(classify("{\"message_type\":4}"), Incoming::Presence(4, _)));
    assert!(matches!(classify("{\"message_type\":5}"), Incoming::Presence(5, _)));
    assert!(matches!(classify("{\"message_type\":7}"), Incoming::Unknown(7)));
    assert!(matches!(classify("{}"), Incoming::Unknown(255)));
    assert!(matches!(classify("{\"message_type\":-1}"), Incoming::Unknown(255)));
    assert!(matches!(classify("{\"message_type\":\"3\"}"), Incoming::Unknown(255)));
    assert!(matches!(classify("[3]"), Incoming::Unknown(255)));
    // Only the lowest eight bits count.
    assert!(matches!(classify("{\"message_type\":259}"), Incoming::Presence(3, _)));
    assert!(matches!(classify("{\"message_type\":256}"), Incoming::KeepAlive));
    assert!(matches!(classify(""), Incoming::Malformed(_)));
    assert!(matches!(classify("{\"message_type\":3"), Incoming::Malformed(_)));
}

#[test]
fn classify_hands_on_the_value() {
    match classify("{\"message_type\":3,\"title\":\"Show\"}") {
        Incoming::Presence(3, v) => assert_eq!(v["title"], "Show"),
        _ => panic!("expected a presence message"),
    }
}

fn presence(t: u8, current: &str, total: &str) -> Presence {
    Presence {
        message_type: t,
        title: "The Boys".to_string(),
        episodes: "S1 E2".to_string(),
        total_duration: total.to_string(),
        current_time: current.to_string(),
    }
}

#[test]
fn playing_presence() {
    match handle(&presence(3, "0:10", "1:00:00"), 1_700_000_000) {
        PresenceAction::Show(plan) => {
            assert_eq!(plan.kind, ActivityKind::Playing);
            assert_eq!(plan.details, "Prime Video: The Boys");
            assert_eq!(plan.state, "S1 E2 | 1:00:00");
            assert_eq!(plan.start, Some(1_699_999_990));
            assert_eq!(plan.end, Some(1_700_003_590));
            assert_eq!(plan.large_image, "prime");
            assert_eq!(plan.large_text, "Prime Video");
        }
        _ => panic!("expected an activity"),
    }
}

#[test]
fn other_presence_types() {
    assert!(matches!(handle(&presence(4, "", ""), 0), PresenceAction::Clear));
    assert!(matches!(handle(&presence(5, "", ""), 0), PresenceAction::Shutdown));
    assert!(matches!(handle(&presence(9, "", ""), 0), PresenceAction::Unhandled(9)));
}

#[test]
fn presence_out_of_range() {
    assert!(try_handle(&presence(3, "2600000000:00:00", "0:00"), 1_700_000_000).is_none());
    assert!(try_handle(&presence(3, "0:0:9223372036854776", "0:00"), 0).is_none());
    assert!(try_handle(&presence(3, "0:00", "0:0:1"), MAX_TIMESTAMP).is_none());
    assert!(try_handle(&presence(3, "0:00", "0:0:0"), MAX_TIMESTAMP).is_some());
    assert!(try_handle(&presence(4, "junk", "9999999999999999999999:0:0"), 0).is_some());
}

#[test]
fn interval_law_on_values() {
    let p = presence(3, "12:34", "45:00");
    if let PresenceAction::Show(plan) = handle(&p, 5000) {
        let (s, e) = (plan.start.unwrap(), plan.end.unwrap());
        assert_eq!(5000 - s, 12 * 60 + 34);
        assert_eq!(e - s, 45 * 60);
    } else {
        panic!("expected an activity");
    }
}

#[test]
fn idle_activity_texts() {
    let plan = idle_activity();
    assert_eq!(plan.kind, ActivityKind::Watching);
    assert_eq!(plan.details, "Prime Video Discord Presence 起動中");
    assert_eq!(plan.state, "接続待機中...");
    assert_eq!(plan.start, None);
    assert_eq!(plan.end, None);
    assert_eq!(plan.large_image, "prime");
}

#[test]
fn log_lines_are_trimmed_text() {
    assert_eq!(log_line(b"  INFO ready \n"), Some("INFO ready".to_string()));
    assert_eq!(log_line("\u{3000}ログ\r\n".as_bytes()), Some("ログ".to_string()));
    assert_eq!(log_line(b"\n"), Some(String::new()));
    assert_eq!(log_line(&[0x61, 0xc3]), None);
}

#[test]
fn classify_reports_the_parser_message() {
    for text in ["", "{\"message_type\":3", "nope", "{\"a\":}"] {
        let expected = serde_json::from_str::<serde_json::Value>(text).unwrap_err().to_string();
        match classify(text) {
            Incoming::Malformed(m) => assert_eq!(m, expected),
            _ => panic!("expected a malformed message for {:?}", text),
        }
    }
}
