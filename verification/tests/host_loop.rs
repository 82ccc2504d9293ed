use pvdp::presence::{Presence, PresenceAction};
use pvdp::session::{host_step, HostAction, HostEvent, HostStage, Note};

fn frame(text: &str) -> ([u8; 4], Vec<u8>) {
    let bytes = text.as_bytes().to_vec();
    ((bytes.len() as u32).to_le_bytes(), bytes)
}

fn presence(t: u8) -> Presence {
    Presence {
        message_type: t,
        title: "The Boys".to_string(),
        episodes: "S1 E2".to_string(),
        total_duration: "1:00:00".to_string(),
        current_time: "0:10".to_string(),
    }
}

#[test]
fn header_then_payload() {
    let (h, body) = frame("{\"message_type\":3,\"title\":\"Show\"}");
    let (s, a) = host_step(HostStage::AwaitHeader, HostEvent::HeaderRead(Some(h)));
    assert_eq!(s, HostStage::AwaitPayload);
    assert!(matches!(a, HostAction::ReadPayload(n) if n == body.len()));
    let (s, a) = host_step(s, HostEvent::PayloadRead(Some(body)));
    assert_eq!(s, HostStage::AwaitPresence);
    match a {
        HostAction::Deserialize(text, t, v) => {
            assert_eq!(text, "{\"message_type\":3,\"title\":\"Show\"}");
            assert_eq!(t, 3);
            assert_eq!(v["title"], "Show");
        }
        _ => panic!("expected a deserialization"),
    }
}

#[test]
fn presence_leads_to_a_call() {
    let (s, a) = host_step(HostStage::AwaitPresence, HostEvent::PresenceRead(Ok(presence(3)), 1_700_000_000));
    assert_eq!(s, HostStage::AwaitCall);
    match a {
        HostAction::Call(PresenceAction::Show(plan)) => {
            assert_eq!(plan.details, "Prime Video: The Boys");
            assert_eq!(plan.start, Some(1_699_999_990));
            assert_eq!(plan.end, Some(1_700_003_590));
        }
        _ => panic!("expected an activity update"),
    }
    let (s, a) = host_step(s, HostEvent::CallDone(Ok(())));
    assert_eq!(s, HostStage::AwaitHeader);
    assert!(matches!(a, HostAction::ReadHeader(Note::Called)));
    let (s, a) = host_step(HostStage::AwaitPresence, HostEvent::PresenceRead(Ok(presence(4)), 0));
    assert_eq!(s, HostStage::AwaitCall);
    assert!(matches!(a, HostAction::Call(PresenceAction::Clear)));
}

#[test]
fn shutdown_and_unhandled_presence() {
    let (s, a) = host_step(HostStage::AwaitPresence, HostEvent::PresenceRead(Ok(presence(5)), 0));
    assert_eq!(s, HostStage::Stopped);
    assert!(matches!(a, HostAction::Exit));
    let (s, a) = host_step(HostStage::AwaitPresence, HostEvent::PresenceRead(Ok(presence(9)), 0));
    assert_eq!(s, HostStage::AwaitHeader);
    assert!(matches!(a, HostAction::ReadHeader(Note::Unhandled(9))));
}

#[test]
fn skipped_messages_go_back_to_the_header() {
    let (_, body) = frame("not json");
    let (s, a) = host_step(HostStage::AwaitPayload, HostEvent::PayloadRead(Some(body)));
    assert_eq!(s, HostStage::AwaitHeader);
    assert!(matches!(a, HostAction::ReadHeader(Note::Malformed(ref t, _)) if t == "not json"));
    let (_, body) = frame("{\"message_type\":0}");
    let (s, a) = host_step(HostStage::AwaitPayload, HostEvent::PayloadRead(Some(body)));
    assert_eq!(s, HostStage::AwaitHeader);
    assert!(matches!(a, HostAction::ReadHeader(Note::KeepAlive(_))));
    let (_, body) = frame("{\"message_type\":7}");
    let (s, a) = host_step(HostStage::AwaitPayload, HostEvent::PayloadRead(Some(body)));
    assert_eq!(s, HostStage::AwaitHeader);
    assert!(matches!(a, HostAction::ReadHeader(Note::Unknown(_, 7))));
    let (s, a) = host_step(HostStage::AwaitPayload, HostEvent::PayloadRead(Some(vec![0xff, 0xfe])));
    assert_eq!(s, HostStage::AwaitHeader);
    assert!(matches!(a, HostAction::ReadHeader(Note::Malformed(ref t, _)) if t.is_empty()));
    let (s, a) = host_step(
        HostStage::AwaitPresence,
        HostEvent::PresenceRead(Err("missing field `title`".to_string()), 0),
    );
    assert_eq!(s, HostStage::AwaitHeader);
    assert!(matches!(a, HostAction::ReadHeader(Note::BadPresence(ref m)) if m == "missing field `title`"));
}

#[test]
fn end_of_input_and_failures_stop() {
    let (s, a) = host_step(HostStage::AwaitHeader, HostEvent::HeaderRead(None));
    assert_eq!(s, HostStage::Stopped);
    assert!(matches!(a, HostAction::Stop(Ok(()))));
    let (s, a) = host_step(HostStage::AwaitPayload, HostEvent::PayloadRead(None));
    assert_eq!(s, HostStage::Stopped);
    assert!(matches!(a, HostAction::Stop(Ok(()))));
    let (s, a) = host_step(HostStage::AwaitCall, HostEvent::CallDone(Err("discord gone".to_string())));
    assert_eq!(s, HostStage::Stopped);
    assert!(matches!(a, HostAction::Stop(Err(ref e)) if e == "discord gone"));
    let mut far = presence(3);
    far.current_time = "2600000000:00:00".to_string();
    let (s, a) = host_step(HostStage::AwaitPresence, HostEvent::PresenceRead(Ok(far), 1_700_000_000));
    assert_eq!(s, HostStage::Stopped);
    assert!(matches!(a, HostAction::Crash));
}

fn field(v: &serde_json::Value, k: &str) -> Result<String, String> {
    v.get(k)
        .and_then(|x| x.as_str())
        .map(|x| x.to_string())
        .ok_or_else(|| format!("missing field `{}`", k))
}

fn to_presence(v: &serde_json::Value) -> Result<Presence, String> {
    let t = v.get("message_type").and_then(|x| x.as_u64()).ok_or("bad type".to_string())?;
    Ok(Presence {
        message_type: t as u8,
        title: field(v, "title")?,
        episodes: field(v, "episodes")?,
        total_duration: field(v, "total_duration")?,
        current_time: field(v, "current_time")?,
    })
}

/// Drives the loop over a byte stream, answering every call with success,
/// and returns what it asked of Discord and how it ended.
fn drive(input: &[u8], now: i64) -> (Vec<String>, String) {
    let mut pos = 0usize;
    let mut calls = Vec::new();
    let (mut stage, mut action) = (HostStage::AwaitHeader, HostAction::ReadHeader(Note::Start));
    loop {
        let event = match action {
            HostAction::ReadHeader(_) => {
                if pos + 4 <= input.len() {
                    let h = [input[pos], input[pos + 1], input[pos + 2], input[pos + 3]];
                    pos += 4;
                    HostEvent::HeaderRead(Some(h))
                } else {
                    HostEvent::HeaderRead(None)
                }
            }
            HostAction::ReadPayload(n) => {
                if pos + n <= input.len() {
                    let b = input[pos..pos + n].to_vec();
                    pos += n;
                    HostEvent::PayloadRead(Some(b))
                } else {
                    HostEvent::PayloadRead(None)
                }
            }
            HostAction::Deserialize(_, _, v) => HostEvent::PresenceRead(to_presence(&v), now),
            HostAction::Call(a) => {
                calls.push(match a {
                    PresenceAction::Show(plan) => format!("show {} / {}", plan.details, plan.state),
                    PresenceAction::Clear => "clear".to_string(),
                    _ => "other".to_string(),
                });
                HostEvent::CallDone(Ok(()))
            }
            HostAction::Exit => return (calls, "exit".to_string()),
            HostAction::Crash => return (calls, "crash".to_string()),
            HostAction::Stop(r) => return (calls, format!("{:?}", r)),
        };
        let (s, a) = host_step(stage, event);
        stage = s;
        action = a;
    }
}

fn framed(texts: &[&str]) -> Vec<u8> {
    let mut out = Vec::new();
    for t in texts {
        let (h, b) = frame(t);
        out.extend_from_slice(&h);
        out.extend_from_slice(&b);
    }
    out
}

const SHOW: &str = "{\"message_type\":3,\"title\":\"T\",\"episodes\":\"E\",\"total_duration\":\"1:00\",\"current_time\":\"0:10\"}";

#[test]
fn whole_stream_makes_the_owed_calls() {
    let mut input = framed(&["junk", SHOW, "{\"message_type\":0}", "{\"message_type\":3}", "{\"message_type\":4,\"title\":\"\",\"episodes\":\"\",\"total_duration\":\"\",\"current_time\":\"\"}"]);
    input.extend_from_slice(&[9, 0, 0, 0, b'{']);
    let (calls, end) = drive(&input, 100);
    assert_eq!(calls, vec!["show Prime Video: T / E | 1:00".to_string(), "clear".to_string()]);
    assert_eq!(end, "Ok(())");
}

#[test]
fn skipping_a_bad_frame_changes_nothing() {
    let with_bad = framed(&[SHOW, "{\"message_type\":3}", "nope", "{\"message_type\":9}", SHOW]);
    let without = framed(&[SHOW, SHOW]);
    assert_eq!(drive(&with_bad, 5000), drive(&without, 5000));
}
