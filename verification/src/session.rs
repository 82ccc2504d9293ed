//! The host's read loop as a machine: it asks for each read from standard
//! input, each deserialization and each Discord call, and is told how it
//! went. Every decision of the loop stands here; the reads, the calls and the
//! logging are done by the program around it.
use vstd::prelude::*;
use vstd::utf8::{decode_utf8, valid_utf8};
use crate::frame::{
    classify, frame_length, json_parsed, le_u32, message_field, message_kind, u64_member, payload_chars, payload_text, Incoming,
};
use crate::presence::{
    action_matches, end_of, presence_fits, prime_image, prime_text, start_of, try_handle,
    ActivityKind, Presence, PresenceAction,
};

verus! {

/// Where the read loop stands.
#[derive(PartialEq, Eq, Structural, Clone, Copy, Debug)]
pub enum HostStage {
    AwaitHeader,
    AwaitPayload,
    AwaitPresence,
    AwaitCall,
    Stopped,
}

/// What happened to the last message, for the log.
pub enum Note {
    /// Nothing yet: the loop starts.
    Start,
    /// The text (shown raw) is not JSON; the parser's message.
    Malformed(String, String),
    /// The text (shown raw) is a keep-alive ping.
    KeepAlive(String),
    /// The text (shown raw) has a type that the host does not know.
    Unknown(String, u8),
    /// The presence message did not deserialize; the error's message.
    BadPresence(String),
    /// The presence message had a type that `handle` does not act on.
    Unhandled(u8),
    /// A Discord call went through.
    Called,
}

/// What the program around the loop reports back.
pub enum HostEvent {
    /// The four header bytes, or `None` where standard input ended or failed.
    HeaderRead(Option<[u8; 4]>),
    /// The payload, or `None` where standard input ended or failed.
    PayloadRead(Option<Vec<u8>>),
    /// The payload's JSON value read into a `Presence`, or the error's
    /// message; and the Unix time at which it was read.
    PresenceRead(Result<Presence, String>, i64),
    /// How the Discord call went.
    CallDone(Result<(), String>),
}

/// What the loop asks for.
pub enum HostAction {
    /// Log what happened to the last message, then read a header.
    ReadHeader(Note),
    /// Read this many payload bytes.
    ReadPayload(usize),
    /// Log the text and its type, then deserialize this value into a `Presence`.
    Deserialize(String, u8, serde_json::Value),
    /// Make this Discord call (only `Show` and `Clear`).
    Call(PresenceAction),
    /// End the process with status 0.
    Exit,
    /// The presence times leave `chrono`'s range: panic, as the conversions do.
    Crash,
    /// Leave the loop with this result.
    Stop(Result<(), String>),
}

/// The events that each stage waits for.
pub open spec fn host_accepts(stage: HostStage, event: HostEvent) -> bool {
    match stage {
        HostStage::AwaitHeader => event is HeaderRead,
        HostStage::AwaitPayload => event is PayloadRead,
        HostStage::AwaitPresence => event is PresenceRead,
        HostStage::AwaitCall => event is CallDone,
        HostStage::Stopped => false,
    }
}

/// One step of the read loop: in `stage`, on `event`, the stage becomes
/// `next` and `action` is asked for.
#[verifier::opaque]
pub open spec fn host_step_ok(stage: HostStage, event: HostEvent, next: HostStage, action: HostAction) -> bool {
    match (stage, event) {
        (HostStage::AwaitHeader, HostEvent::HeaderRead(h)) => match h {
            None => {
                &&& next == HostStage::Stopped
                &&& action matches HostAction::Stop(Ok(_))
            },
            Some(b) => next == HostStage::AwaitPayload && action == HostAction::ReadPayload(
                le_u32(b@) as usize,
            ),
        },
        (HostStage::AwaitPayload, HostEvent::PayloadRead(p)) => match p {
            None => {
                &&& next == HostStage::Stopped
                &&& action matches HostAction::Stop(Ok(_))
            },
            Some(bytes) => payload_step_ok(payload_chars(bytes@), next, action),
        },
        (HostStage::AwaitPresence, HostEvent::PresenceRead(r, now)) => match r {
            Err(e) => {
                &&& next == HostStage::AwaitHeader
                &&& action matches HostAction::ReadHeader(Note::BadPresence(m)) && m@ == e@
            },
            Ok(p) => if !presence_fits(p, now) {
                next == HostStage::Stopped && action is Crash
            } else if p.message_type == 3 || p.message_type == 4 {
                &&& next == HostStage::AwaitCall
                &&& action matches HostAction::Call(a) && action_matches(a, p, now)
            } else if p.message_type == 5 {
                next == HostStage::Stopped && action is Exit
            } else {
                next == HostStage::AwaitHeader && action == HostAction::ReadHeader(
                    Note::Unhandled(p.message_type),
                )
            },
        },
        (HostStage::AwaitCall, HostEvent::CallDone(r)) => match r {
            Ok(_) => next == HostStage::AwaitHeader && action == HostAction::ReadHeader(Note::Called),
            Err(e) => {
                &&& next == HostStage::Stopped
                &&& action matches HostAction::Stop(Err(m)) && m@ == e@
            },
        },
        _ => false,
    }
}

/// The step for a payload whose text is `text`, by what `serde_json` reads from it.
pub open spec fn payload_step_ok(text: Seq<char>, next: HostStage, action: HostAction) -> bool {
    match json_parsed(text) {
        Err(e) => {
            &&& next == HostStage::AwaitHeader
            &&& action matches HostAction::ReadHeader(Note::Malformed(tx, m)) && tx@ == text && m@ == e
        },
        Ok(value) => {
            let t = message_kind(message_field(value));
            if t == 0 {
                &&& next == HostStage::AwaitHeader
                &&& action matches HostAction::ReadHeader(Note::KeepAlive(tx)) && tx@ == text
            } else if 3 <= t <= 5 {
                &&& next == HostStage::AwaitPresence
                &&& action matches HostAction::Deserialize(tx, k, v) && tx@ == text && k == t && v
                    == value
            } else {
                &&& next == HostStage::AwaitHeader
                &&& action matches HostAction::ReadHeader(Note::Unknown(tx, k)) && tx@ == text && k == t
            }
        },
    }
}

/// One step of the read loop (see `host_step_ok`).
pub fn host_step(stage: HostStage, event: HostEvent) -> (r: (HostStage, HostAction))
    requires
        host_accepts(stage, event),
    ensures
        host_step_ok(stage, event, r.0, r.1),
{
    reveal(host_step_ok);
    match event {
        HostEvent::HeaderRead(h) => match h {
            None => (HostStage::Stopped, HostAction::Stop(Ok(()))),
            Some(b) => (HostStage::AwaitPayload, HostAction::ReadPayload(frame_length(b))),
        },
        HostEvent::PayloadRead(p) => match p {
            None => (HostStage::Stopped, HostAction::Stop(Ok(()))),
            Some(bytes) => {
                let text = payload_text(bytes);
                match classify(text.as_str()) {
                    Incoming::Malformed(e) => (
                        HostStage::AwaitHeader,
                        HostAction::ReadHeader(Note::Malformed(text, e)),
                    ),
                    Incoming::KeepAlive => (
                        HostStage::AwaitHeader,
                        HostAction::ReadHeader(Note::KeepAlive(text)),
                    ),
                    Incoming::Presence(t, v) => (
                        HostStage::AwaitPresence,
                        HostAction::Deserialize(text, t, v),
                    ),
                    Incoming::Unknown(t) => (
                        HostStage::AwaitHeader,
                        HostAction::ReadHeader(Note::Unknown(text, t)),
                    ),
                }
            },
        },
        HostEvent::PresenceRead(r, now) => match r {
            Err(e) => (HostStage::AwaitHeader, HostAction::ReadHeader(Note::BadPresence(e))),
            Ok(p) => match try_handle(&p, now) {
                None => (HostStage::Stopped, HostAction::Crash),
                Some(a) => match a {
                    PresenceAction::Shutdown => (HostStage::Stopped, HostAction::Exit),
                    PresenceAction::Unhandled(t) => (
                        HostStage::AwaitHeader,
                        HostAction::ReadHeader(Note::Unhandled(t)),
                    ),
                    other => (HostStage::AwaitCall, HostAction::Call(other)),
                },
            },
        },
        HostEvent::CallDone(r) => match r {
            Ok(_) => (HostStage::AwaitHeader, HostAction::ReadHeader(Note::Called)),
            Err(e) => (HostStage::Stopped, HostAction::Stop(Err(e))),
        },
    }
}

/// An activity as plain values.
pub struct ShownView {
    pub kind: ActivityKind,
    pub details: Seq<char>,
    pub state: Seq<char>,
    pub start: Option<i64>,
    pub end: Option<i64>,
    pub image: Seq<char>,
    pub text: Seq<char>,
}

/// What an action does outside the loop's own reading: a Discord call, the
/// end of the process, or leaving the loop.
pub enum Effect {
    Show(ShownView),
    Clear,
    Exit,
    Crash,
    Stop(Result<(), Seq<char>>),
}

/// The effect of an action, `None` for reads, deserializations and logging.
pub open spec fn effect(a: HostAction) -> Option<Effect> {
    match a {
        HostAction::Call(PresenceAction::Show(plan)) => Some(
            Effect::Show(
                ShownView {
                    kind: plan.kind,
                    details: plan.details@,
                    state: plan.state@,
                    start: plan.start,
                    end: plan.end,
                    image: plan.large_image@,
                    text: plan.large_text@,
                },
            ),
        ),
        HostAction::Call(PresenceAction::Clear) => Some(Effect::Clear),
        HostAction::Exit => Some(Effect::Exit),
        HostAction::Crash => Some(Effect::Crash),
        HostAction::Stop(r) => Some(
            Effect::Stop(
                match r {
                    Ok(_) => Ok(()),
                    Err(e) => Err(e@),
                },
            ),
        ),
        _ => None,
    }
}

/// The loop decides alike on like events: the same stage and event give the
/// same next stage and the same effect.
pub proof fn lemma_host_step_deterministic(
    stage: HostStage,
    event: HostEvent,
    n1: HostStage,
    a1: HostAction,
    n2: HostStage,
    a2: HostAction,
)
    requires
        host_step_ok(stage, event, n1, a1),
        host_step_ok(stage, event, n2, a2),
    ensures
        n1 == n2,
        effect(a1) == effect(a2),
{
    reveal(host_step_ok);
}

/// A run of the read loop: `stages[i]` becomes `stages[i + 1]` on `events[i]`,
/// asking for `actions[i]`.
pub open spec fn host_run(stages: Seq<HostStage>, events: Seq<HostEvent>, actions: Seq<HostAction>) -> bool {
    &&& stages.len() == events.len() + 1
    &&& actions.len() == events.len()
    &&& forall|i: int|
        0 <= i < events.len() ==> host_step_ok(
            #[trigger] stages[i],
            events[i],
            stages[i + 1],
            actions[i],
        )
}

/// A message text that the loop passes over: not JSON, or of a type other
/// than 3, 4 and 5.
pub open spec fn ignored_text(text: Seq<char>) -> bool {
    match json_parsed(text) {
        Err(_) => true,
        Ok(value) => !(3 <= message_kind(message_field(value)) <= 5),
    }
}

/// A message text of type 3, 4 or 5.
pub open spec fn presence_text(text: Seq<char>) -> bool {
    json_parsed(text) matches Ok(value) && 3 <= message_kind(message_field(value)) <= 5
}

/// The events of a whole frame that the loop passes over: a header and a
/// payload that is ignored, or a presence payload whose value does not
/// deserialize into a `Presence`.
pub open spec fn skipped_frame(f: Seq<HostEvent>) -> bool {
    ||| {
        &&& f.len() == 2
        &&& f[0] matches HostEvent::HeaderRead(Some(_))
        &&& f[1] matches HostEvent::PayloadRead(Some(b)) && ignored_text(payload_chars(b@))
    }
    ||| {
        &&& f.len() == 3
        &&& f[0] matches HostEvent::HeaderRead(Some(_))
        &&& f[1] matches HostEvent::PayloadRead(Some(b)) && presence_text(payload_chars(b@))
        &&& f[2] matches HostEvent::PresenceRead(Err(_), _)
    }
}

/// Two runs that stand at the same stage and then see the same events go
/// through the same stages with the same effects.
pub proof fn lemma_host_runs_aligned(
    st1: Seq<HostStage>,
    ev1: Seq<HostEvent>,
    ac1: Seq<HostAction>,
    o1: int,
    st2: Seq<HostStage>,
    ev2: Seq<HostEvent>,
    ac2: Seq<HostAction>,
    o2: int,
    k: int,
)
    requires
        host_run(st1, ev1, ac1),
        host_run(st2, ev2, ac2),
        0 <= o1,
        0 <= o2,
        0 <= k,
        o1 + k <= ev1.len(),
        o2 + k <= ev2.len(),
        st1[o1] == st2[o2],
        ev1.subrange(o1, o1 + k) == ev2.subrange(o2, o2 + k),
    ensures
        st1[o1 + k] == st2[o2 + k],
        forall|i: int| 0 <= i < k ==> effect(#[trigger] ac1[o1 + i]) == effect(ac2[o2 + i]),
    decreases k,
{
    if k > 0 {
        let j = k - 1;
        assert(ev1.subrange(o1, o1 + j) =~= ev1.subrange(o1, o1 + k).subrange(0, j));
        assert(ev2.subrange(o2, o2 + j) =~= ev2.subrange(o2, o2 + k).subrange(0, j));
        lemma_host_runs_aligned(st1, ev1, ac1, o1, st2, ev2, ac2, o2, j);
        assert(ev1.subrange(o1, o1 + k)[j] == ev2.subrange(o2, o2 + k)[j]);
        assert(ev1.subrange(o1, o1 + k)[j] == ev1[o1 + j]);
        assert(ev2.subrange(o2, o2 + k)[j] == ev2[o2 + j]);
        assert(host_step_ok(st1[o1 + j], ev1[o1 + j], st1[o1 + j + 1], ac1[o1 + j]));
        assert(host_step_ok(st2[o2 + j], ev2[o2 + j], st2[o2 + j + 1], ac2[o2 + j]));
        lemma_host_step_deterministic(
            st1[o1 + j],
            ev1[o1 + j],
            st1[o1 + j + 1],
            ac1[o1 + j],
            st2[o2 + j + 1],
            ac2[o2 + j],
        );
    }
}

/// A frame that the loop passes over, read while waiting for a header,
/// brings it back to waiting for a header with no effect at all.
pub proof fn lemma_skipped_frame(st: Seq<HostStage>, ev: Seq<HostEvent>, ac: Seq<HostAction>, o: int, len: int)
    requires
        host_run(st, ev, ac),
        0 <= o,
        0 <= len,
        o + len <= ev.len(),
        st[o] == HostStage::AwaitHeader,
        skipped_frame(ev.subrange(o, o + len)),
    ensures
        st[o + len] == HostStage::AwaitHeader,
        forall|i: int| o <= i < o + len ==> effect(#[trigger] ac[i]) is None,
{
    reveal(host_step_ok);
    let f = ev.subrange(o, o + len);
    assert(f.len() == len);
    assert(f[0] == ev[o]);
    assert(f[1] == ev[o + 1]);
    assert(host_step_ok(st[o], ev[o], st[o + 1], ac[o]));
    assert(host_step_ok(st[o + 1], ev[o + 1], st[o + 2], ac[o + 1]));
    if len == 3 {
        assert(f[2] == ev[o + 2]);
        assert(host_step_ok(st[o + 2], ev[o + 2], st[o + 3], ac[o + 2]));
    }
}

/// Skipping a bad frame: a stream of whole frames `A`, then a frame that the
/// loop passes over, then `B`, has the same effects as `A` then `B`, and the
/// passed-over frame has none.
pub proof fn lemma_skip_frame(
    st1: Seq<HostStage>,
    ev1: Seq<HostEvent>,
    ac1: Seq<HostAction>,
    st2: Seq<HostStage>,
    ev2: Seq<HostEvent>,
    ac2: Seq<HostAction>,
    a_len: int,
    f_len: int,
)
    requires
        host_run(st1, ev1, ac1),
        host_run(st2, ev2, ac2),
        st1[0] == HostStage::AwaitHeader,
        st2[0] == HostStage::AwaitHeader,
        0 <= a_len <= ev2.len(),
        0 <= f_len,
        ev1.len() == ev2.len() + f_len,
        ev1.subrange(0, a_len) == ev2.subrange(0, a_len),
        ev1.subrange(a_len + f_len, ev1.len() as int) == ev2.subrange(a_len, ev2.len() as int),
        st1[a_len] == HostStage::AwaitHeader,
        skipped_frame(ev1.subrange(a_len, a_len + f_len)),
    ensures
        forall|i: int| 0 <= i < a_len ==> effect(#[trigger] ac1[i]) == effect(ac2[i]),
        forall|i: int| a_len <= i < a_len + f_len ==> effect(#[trigger] ac1[i]) is None,
        forall|j: int|
            0 <= j < ev2.len() - a_len ==> effect(#[trigger] ac1[a_len + f_len + j]) == effect(
                ac2[a_len + j],
            ),
{
    lemma_host_runs_aligned(st1, ev1, ac1, 0, st2, ev2, ac2, 0, a_len);
    assert forall|i: int| 0 <= i < a_len implies effect(#[trigger] ac1[i]) == effect(ac2[i]) by {
        assert(effect(ac1[0 + i]) == effect(ac2[0 + i]));
    }
    lemma_skipped_frame(st1, ev1, ac1, a_len, f_len);
    let k = ev2.len() - a_len;
    lemma_host_runs_aligned(st1, ev1, ac1, a_len + f_len, st2, ev2, ac2, a_len, k);
}

/// A frame with a presence message of type 3 or 4 that fits, read while
/// waiting for a header, makes exactly the Discord call that `handle`
/// decides and, once the call has gone through, waits for the next header.
pub proof fn lemma_presence_frame(st: Seq<HostStage>, ev: Seq<HostEvent>, ac: Seq<HostAction>, o: int)
    requires
        host_run(st, ev, ac),
        0 <= o,
        o + 4 <= ev.len(),
        st[o] == HostStage::AwaitHeader,
        ev[o] matches HostEvent::HeaderRead(Some(_)),
        ev[o + 1] matches HostEvent::PayloadRead(Some(b)) && presence_text(payload_chars(b@)),
        ev[o + 2] matches HostEvent::PresenceRead(Ok(p), now) && presence_fits(p, now) && (
        p.message_type == 3 || p.message_type == 4),
        ev[o + 3] matches HostEvent::CallDone(Ok(_)),
    ensures
        st[o + 4] == HostStage::AwaitHeader,
        effect(ac[o]) is None,
        effect(ac[o + 1]) is None,
        ev[o + 2] matches HostEvent::PresenceRead(Ok(p), now) && ac[o + 2] matches HostAction::Call(a)
            && action_matches(a, p, now),
        effect(ac[o + 3]) is None,
{
    reveal(host_step_ok);
    assert(host_step_ok(st[o], ev[o], st[o + 1], ac[o]));
    assert(host_step_ok(st[o + 1], ev[o + 1], st[o + 2], ac[o + 1]));
    assert(host_step_ok(st[o + 2], ev[o + 2], st[o + 3], ac[o + 2]));
    assert(host_step_ok(st[o + 3], ev[o + 3], st[o + 4], ac[o + 3]));
}

/// Where standard input ends while waiting for a header, the loop leaves
/// with success.
pub proof fn lemma_end_of_input(stage: HostStage, next: HostStage, action: HostAction)
    requires
        stage == HostStage::AwaitHeader || stage == HostStage::AwaitPayload,
        host_step_ok(
            stage,
            if stage == HostStage::AwaitHeader {
                HostEvent::HeaderRead(None)
            } else {
                HostEvent::PayloadRead(None)
            },
            next,
            action,
        ),
    ensures
        next == HostStage::Stopped,
        action matches HostAction::Stop(Ok(_)),
{
    reveal(host_step_ok);
}

/// The effects among a run's actions, in order (reads, deserializations and
/// logging left out).
pub open spec fn visible_effects(ac: Seq<HostAction>) -> Seq<Effect>
    decreases ac.len(),
{
    if ac.len() == 0 {
        Seq::empty()
    } else {
        match effect(ac[0]) {
            Some(e) => seq![e] + visible_effects(ac.drop_first()),
            None => visible_effects(ac.drop_first()),
        }
    }
}

/// The effects of two runs of actions, one after the other, are those of the
/// first followed by those of the second.
pub proof fn lemma_visible_effects_append(a: Seq<HostAction>, b: Seq<HostAction>)
    ensures
        visible_effects(a + b) == visible_effects(a) + visible_effects(b),
    decreases a.len(),
{
    if a.len() == 0 {
        assert(a + b =~= b);
    } else {
        assert((a + b).drop_first() =~= a.drop_first() + b);
        lemma_visible_effects_append(a.drop_first(), b);
        assert((a + b)[0] == a[0]);
    }
}

/// The events of a whole frame with a presence message of type 3 or 4 that
/// fits, whose Discord call goes through.
pub open spec fn call_frame(f: Seq<HostEvent>) -> bool {
    &&& f.len() == 4
    &&& f[0] matches HostEvent::HeaderRead(Some(_))
    &&& f[1] matches HostEvent::PayloadRead(Some(b)) && presence_text(payload_chars(b@))
    &&& f[2] matches HostEvent::PresenceRead(Ok(p), now) && presence_fits(p, now) && (
    p.message_type == 3 || p.message_type == 4)
    &&& f[3] matches HostEvent::CallDone(Ok(_))
}

/// The Discord call owed for a presence message of type 3 or 4 read at `now`.
pub open spec fn owed_call(p: Presence, now: i64) -> Effect {
    if p.message_type == 3 {
        Effect::Show(
            ShownView {
                kind: ActivityKind::Playing,
                details: "Prime Video: "@ + p.title@,
                state: p.episodes@ + " | "@ + p.total_duration@,
                start: Some(start_of(p, now) as i64),
                end: Some(end_of(p, now) as i64),
                image: prime_image(),
                text: prime_text(),
            },
        )
    } else {
        Effect::Clear
    }
}

/// The effects owed for one frame: its Discord call, or none for a frame
/// that the loop passes over.
pub open spec fn frame_effects(f: Seq<HostEvent>) -> Seq<Effect> {
    if call_frame(f) {
        match f[2] {
            HostEvent::PresenceRead(Ok(p), now) => seq![owed_call(p, now)],
            _ => Seq::empty(),
        }
    } else {
        Seq::empty()
    }
}

/// The effects owed for a stream of frames, frame by frame.
pub open spec fn stream_effects(frames: Seq<Seq<HostEvent>>) -> Seq<Effect>
    decreases frames.len(),
{
    if frames.len() == 0 {
        Seq::empty()
    } else {
        frame_effects(frames[0]) + stream_effects(frames.drop_first())
    }
}

/// How standard input ends: no further header, or a header whose payload
/// never comes in whole.
pub open spec fn input_end(t: Seq<HostEvent>) -> bool {
    ||| (t.len() == 1 && t[0] matches HostEvent::HeaderRead(None))
    ||| (t.len() == 2 && (t[0] matches HostEvent::HeaderRead(Some(_))) && (t[1] matches HostEvent::PayloadRead(
        None,
    )))
}

/// Actions without effects have no visible effects.
pub proof fn lemma_visible_effects_none(r: Seq<HostAction>)
    requires
        forall|i: int| 0 <= i < r.len() ==> effect(#[trigger] r[i]) is None,
    ensures
        visible_effects(r) == Seq::<Effect>::empty(),
    decreases r.len(),
{
    if r.len() > 0 {
        assert forall|i: int| 0 <= i < r.drop_first().len() implies effect(
            #[trigger] r.drop_first()[i],
        ) is None by {
            assert(r.drop_first()[i] == r[i + 1]);
        }
        lemma_visible_effects_none(r.drop_first());
        assert(effect(r[0]) is None);
    }
}

/// The visible effects of a single action.
pub proof fn lemma_visible_effects_one(a: HostAction)
    ensures
        visible_effects(seq![a]) == match effect(a) {
            Some(e) => seq![e],
            None => Seq::<Effect>::empty(),
        },
{
    let r = seq![a];
    assert(r[0] == a);
    assert(r.drop_first() =~= Seq::<HostAction>::empty());
    assert(visible_effects(r.drop_first()) == Seq::<Effect>::empty());
    match effect(a) {
        Some(e) => assert(visible_effects(r) =~= seq![e]),
        None => {},
    }
}

/// The end of input, read while waiting for a header, stops the loop with
/// success and no other effect.
proof fn lemma_input_end_run(
    st: Seq<HostStage>,
    ev: Seq<HostEvent>,
    ac: Seq<HostAction>,
    o: int,
    tail: Seq<HostEvent>,
)
    requires
        host_run(st, ev, ac),
        0 <= o <= ev.len(),
        st[o] == HostStage::AwaitHeader,
        ev.subrange(o, ev.len() as int) == tail,
        input_end(tail),
    ensures
        st.last() == HostStage::Stopped,
        visible_effects(ac.subrange(o, ac.len() as int)) == seq![Effect::Stop(Ok(()))],
{
    reveal(host_step_ok);
    let n = ev.len() as int;
    assert(ev[o] == tail[0]);
    assert(host_step_ok(st[o], ev[o], st[o + 1], ac[o]));
    let r = ac.subrange(o, n);
    if tail.len() == 2 {
        assert(ev[o + 1] == tail[1]);
        assert(host_step_ok(st[o + 1], ev[o + 1], st[o + 2], ac[o + 1]));
        assert(r =~= seq![ac[o]] + seq![ac[o + 1]]);
        lemma_visible_effects_append(seq![ac[o]], seq![ac[o + 1]]);
        lemma_visible_effects_one(ac[o]);
        lemma_visible_effects_one(ac[o + 1]);
        assert(visible_effects(r) =~= seq![Effect::Stop(Ok(()))]);
    } else {
        assert(r =~= seq![ac[o]]);
        lemma_visible_effects_one(ac[o]);
    }
}

/// The visible effects of a frame's actions are those owed for the frame.
proof fn lemma_frame_run(st: Seq<HostStage>, ev: Seq<HostEvent>, ac: Seq<HostAction>, o: int, f: Seq<HostEvent>)
    requires
        host_run(st, ev, ac),
        0 <= o,
        o + f.len() <= ev.len(),
        st[o] == HostStage::AwaitHeader,
        ev.subrange(o, o + f.len()) == f,
        skipped_frame(f) || call_frame(f),
    ensures
        st[o + f.len()] == HostStage::AwaitHeader,
        visible_effects(ac.subrange(o, o + f.len())) == frame_effects(f),
{
    let len = f.len() as int;
    let r = ac.subrange(o, o + len);
    if skipped_frame(f) {
        lemma_skipped_frame(st, ev, ac, o, len);
        assert forall|i: int| 0 <= i < r.len() implies effect(#[trigger] r[i]) is None by {
            assert(r[i] == ac[o + i]);
        }
        lemma_visible_effects_none(r);
        assert(!call_frame(f));
    } else {
        assert(f[0] == ev[o]);
        assert(f[1] == ev[o + 1]);
        assert(f[2] == ev[o + 2]);
        assert(f[3] == ev[o + 3]);
        lemma_presence_frame(st, ev, ac, o);
        assert(r =~= (seq![ac[o]] + seq![ac[o + 1]]) + (seq![ac[o + 2]] + seq![ac[o + 3]]));
        lemma_visible_effects_append(seq![ac[o]], seq![ac[o + 1]]);
        lemma_visible_effects_append(seq![ac[o + 2]], seq![ac[o + 3]]);
        lemma_visible_effects_append(seq![ac[o]] + seq![ac[o + 1]], seq![ac[o + 2]] + seq![ac[o + 3]]);
        lemma_visible_effects_one(ac[o]);
        lemma_visible_effects_one(ac[o + 1]);
        lemma_visible_effects_one(ac[o + 2]);
        lemma_visible_effects_one(ac[o + 3]);
        match f[2] {
            HostEvent::PresenceRead(Ok(p), now) => {
                assert(effect(ac[o + 2]) == Some(owed_call(p, now)));
                assert(visible_effects(r) =~= seq![owed_call(p, now)]);
            },
            _ => {},
        }
    }
}

/// Reading from offset `o` on: a stream of whole frames, each passed over or
/// answered by its call, then the end of input.
pub proof fn lemma_stream_from(
    st: Seq<HostStage>,
    ev: Seq<HostEvent>,
    ac: Seq<HostAction>,
    o: int,
    frames: Seq<Seq<HostEvent>>,
    tail: Seq<HostEvent>,
)
    requires
        host_run(st, ev, ac),
        0 <= o <= ev.len(),
        st[o] == HostStage::AwaitHeader,
        ev.subrange(o, ev.len() as int) == frames.flatten() + tail,
        forall|i: int|
            0 <= i < frames.len() ==> skipped_frame(#[trigger] frames[i]) || call_frame(frames[i]),
        input_end(tail),
    ensures
        st.last() == HostStage::Stopped,
        visible_effects(ac.subrange(o, ac.len() as int)) == stream_effects(frames).push(
            Effect::Stop(Ok(())),
        ),
    decreases frames.len(),
{
    let n = ev.len() as int;
    if frames.len() == 0 {
        assert(frames.flatten() =~= Seq::<HostEvent>::empty());
        assert(ev.subrange(o, n) =~= tail);
        lemma_input_end_run(st, ev, ac, o, tail);
        assert(stream_effects(frames) =~= Seq::<Effect>::empty());
        assert(stream_effects(frames).push(Effect::Stop(Ok(()))) =~= seq![Effect::Stop(Ok(()))]);
    } else {
        let f = frames[0];
        let rest = frames.drop_first();
        let len = f.len() as int;
        assert(frames.flatten() == f + rest.flatten());
        let whole = ev.subrange(o, n);
        assert(whole =~= f + (rest.flatten() + tail));
        assert(len <= whole.len());
        assert(ev.subrange(o, o + len) =~= f) by {
            assert forall|k: int| 0 <= k < len implies ev.subrange(o, o + len)[k] == f[k] by {
                assert(whole[k] == ev[o + k]);
            }
        }
        assert(ev.subrange(o + len, n) =~= rest.flatten() + tail) by {
            assert forall|k: int| 0 <= k < n - o - len implies ev.subrange(o + len, n)[k] == (
            rest.flatten() + tail)[k] by {
                assert(whole[len + k] == ev[o + len + k]);
            }
        }
        lemma_frame_run(st, ev, ac, o, f);
        assert forall|i: int| 0 <= i < rest.len() implies skipped_frame(#[trigger] rest[i])
            || call_frame(rest[i]) by {
            assert(rest[i] == frames[i + 1]);
        }
        lemma_stream_from(st, ev, ac, o + len, rest, tail);
        assert(ac.subrange(o, ac.len() as int) =~= ac.subrange(o, o + len) + ac.subrange(
            o + len,
            ac.len() as int,
        ));
        lemma_visible_effects_append(ac.subrange(o, o + len), ac.subrange(o + len, ac.len() as int));
        assert(stream_effects(frames) == frame_effects(f) + stream_effects(rest));
        assert(stream_effects(frames).push(Effect::Stop(Ok(()))) =~= frame_effects(f) + stream_effects(
            rest,
        ).push(Effect::Stop(Ok(()))));
    }
}

/// A whole input stream: from the first header on, standard input holds whole
/// frames, each passed over (not JSON, of another type, or not a `Presence`)
/// or a presence message of type 3 or 4 that fits and whose call goes
/// through, and then ends. The loop makes exactly the calls owed for those
/// frames, in order, and then leaves with success.
pub proof fn lemma_whole_stream(
    st: Seq<HostStage>,
    ev: Seq<HostEvent>,
    ac: Seq<HostAction>,
    frames: Seq<Seq<HostEvent>>,
    tail: Seq<HostEvent>,
)
    requires
        host_run(st, ev, ac),
        st[0] == HostStage::AwaitHeader,
        ev == frames.flatten() + tail,
        forall|i: int|
            0 <= i < frames.len() ==> skipped_frame(#[trigger] frames[i]) || call_frame(frames[i]),
        input_end(tail),
    ensures
        st.last() == HostStage::Stopped,
        visible_effects(ac) == stream_effects(frames).push(Effect::Stop(Ok(()))),
{
    assert(ev.subrange(0, ev.len() as int) =~= ev);
    assert(ac.subrange(0, ac.len() as int) =~= ac);
    lemma_stream_from(st, ev, ac, 0, frames, tail);
}


/// A header read while waiting for one asks for a payload of exactly the
/// length it announces: the little-endian unsigned value of all four bytes
/// (what `u32::from_le_bytes` gives), never a part of it.
pub proof fn lemma_header_announces_length(b: [u8; 4], next: HostStage, action: HostAction)
    requires
        host_step_ok(HostStage::AwaitHeader, HostEvent::HeaderRead(Some(b)), next, action),
    ensures
        next == HostStage::AwaitPayload,
        action matches HostAction::ReadPayload(n) && n == b@[0] as int + 256 * (b@[1] as int) + 65536
            * (b@[2] as int) + 16777216 * (b@[3] as int),
{
    reveal(host_step_ok);
    let v = b@[0] as int + 256 * (b@[1] as int) + 65536 * (b@[2] as int) + 16777216 * (b@[3] as int);
    assert(0 <= v <= 4294967295);
    assert(v <= usize::MAX);
}

/// Over a whole run: every header read while waiting for a header is followed
/// by a read of exactly the payload length it announces.
pub proof fn lemma_run_reads_announced_lengths(st: Seq<HostStage>, ev: Seq<HostEvent>, ac: Seq<HostAction>)
    requires
        host_run(st, ev, ac),
    ensures
        forall|o: int|
            #![trigger ev[o], ac[o]]
            0 <= o < ev.len() && st[o] == HostStage::AwaitHeader ==> (ev[o] matches HostEvent::HeaderRead(
                Some(b),
            ) ==> (ac[o] matches HostAction::ReadPayload(n) && n == b@[0] as int + 256 * (
            b@[1] as int) + 65536 * (b@[2] as int) + 16777216 * (b@[3] as int))),
{
    assert forall|o: int|
        #![trigger ev[o], ac[o]]
        0 <= o < ev.len() && st[o] == HostStage::AwaitHeader implies (ev[o] matches HostEvent::HeaderRead(
            Some(b),
        ) ==> (ac[o] matches HostAction::ReadPayload(n) && n == b@[0] as int + 256 * (b@[1] as int)
            + 65536 * (b@[2] as int) + 16777216 * (b@[3] as int))) by {
        assert(host_step_ok(st[o], ev[o], st[o + 1], ac[o]));
        match ev[o] {
            HostEvent::HeaderRead(Some(b)) => {
                lemma_header_announces_length(b, st[o + 1], ac[o]);
            },
            _ => {},
        }
    }
}


/// How a payload is answered, by what `serde_json` reads from its UTF-8 text
/// (empty text when the bytes are not UTF-8) and by the lowest eight bits of
/// its `message_type` member (255 when there is no such `u64` member): text
/// that is not JSON is logged with the parser's message, type 0 is a
/// keep-alive, types 3, 4 and 5 hand the very parsed value on to be read as a
/// `Presence`, and any other type is logged as unknown; all but the presence
/// types go back to waiting for a header.
pub proof fn lemma_payload_answer(bytes: Vec<u8>, next: HostStage, action: HostAction)
    requires
        host_step_ok(HostStage::AwaitPayload, HostEvent::PayloadRead(Some(bytes)), next, action),
    ensures
        ({
            let text = if valid_utf8(bytes@) {
                decode_utf8(bytes@)
            } else {
                Seq::<char>::empty()
            };
            match json_parsed(text) {
                Err(e) => next == HostStage::AwaitHeader && (action matches HostAction::ReadHeader(
                    Note::Malformed(tx, m),
                ) && tx@ == text && m@ == e),
                Ok(value) => {
                    let t: int = match u64_member(value, "message_type"@) {
                        Some(n) => (n as int) % 256,
                        None => 255,
                    };
                    if t == 0 {
                        next == HostStage::AwaitHeader && (action matches HostAction::ReadHeader(
                            Note::KeepAlive(tx),
                        ) && tx@ == text)
                    } else if 3 <= t <= 5 {
                        next == HostStage::AwaitPresence && (action matches HostAction::Deserialize(
                            tx,
                            k,
                            v,
                        ) && tx@ == text && k == t && v == value)
                    } else {
                        next == HostStage::AwaitHeader && (action matches HostAction::ReadHeader(
                            Note::Unknown(tx, k),
                        ) && tx@ == text && k == t)
                    }
                },
            }
        }),
{
    reveal(host_step_ok);
}

/// How a presence read into a `Presence` is answered: a message that would
/// make the conversions panic crashes; types 3 and 4 make the call that
/// `handle` decides and wait for it; type 5 ends the process; any other type
/// is logged and the loop reads on. A deserialization error is logged and the
/// loop reads on; a failed Discord call ends the loop with its error; a call
/// that went through goes back to the next header.
pub proof fn lemma_presence_answer(event: HostEvent, next: HostStage, action: HostAction)
    requires
        host_step_ok(HostStage::AwaitPresence, event, next, action) || host_step_ok(
            HostStage::AwaitCall,
            event,
            next,
            action,
        ),
    ensures
        event matches HostEvent::PresenceRead(Ok(p), now) ==> {
            &&& !presence_fits(p, now) ==> action is Crash
            &&& presence_fits(p, now) && (p.message_type == 3 || p.message_type == 4) ==> (
            next == HostStage::AwaitCall && (action matches HostAction::Call(a) && action_matches(
                a,
                p,
                now,
            )))
            &&& presence_fits(p, now) && p.message_type == 5 ==> action is Exit
            &&& presence_fits(p, now) && p.message_type != 3 && p.message_type != 4
                && p.message_type != 5 ==> next == HostStage::AwaitHeader
        },
        event matches HostEvent::PresenceRead(Err(e), _) ==> next == HostStage::AwaitHeader && (
        action matches HostAction::ReadHeader(Note::BadPresence(m)) && m@ == e@),
        event matches HostEvent::CallDone(Err(e)) ==> next == HostStage::Stopped && (
        action matches HostAction::Stop(Err(m)) && m@ == e@),
        event matches HostEvent::CallDone(Ok(_)) ==> next == HostStage::AwaitHeader,
{
    reveal(host_step_ok);
}

} // verus!
