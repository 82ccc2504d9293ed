//! What the host shows on Discord for a presence message from the extension.
use vstd::prelude::*;
use vstd::string::StringExecFns;
use crate::clock::{clock_fits, clock_seconds, try_parse};

verus! {

/// The earliest Unix timestamp that a `chrono` date-time can hold
/// (-262143-01-01T00:00:00); `DateTime - TimeDelta` panics below it.
pub const MIN_TIMESTAMP: i64 = -8334601315200;

/// The latest Unix timestamp (whole seconds) that a `chrono` date-time can hold
/// (262142-12-31T23:59:59); `DateTime + TimeDelta` panics above it.
pub const MAX_TIMESTAMP: i64 = 8210266876799;

/// A presence message from the extension.
pub struct Presence {
    pub message_type: u8,
    pub title: String,
    pub episodes: String,
    pub total_duration: String,
    pub current_time: String,
}

/// The Discord activity kinds that the host uses.
#[derive(PartialEq, Eq, Structural, Clone, Copy, Debug)]
pub enum ActivityKind {
    Playing,
    Watching,
}

/// A Discord activity as plain values: kind, two lines of text, optional
/// start and end timestamps (Unix seconds) and the large image with its text.
pub struct ActivityPlan {
    pub kind: ActivityKind,
    pub details: String,
    pub state: String,
    pub start: Option<i64>,
    pub end: Option<i64>,
    pub large_image: String,
    pub large_text: String,
}

/// What the host does for a presence message.
pub enum PresenceAction {
    /// Type 3: show this activity.
    Show(ActivityPlan),
    /// Type 4: clear the activity.
    Clear,
    /// Type 5: end the program.
    Shutdown,
    /// Any other type: log it and do nothing.
    Unhandled(u8),
}

/// The image key of the Prime Video logo uploaded to the Discord application.
pub open spec fn prime_image() -> Seq<char> {
    "prime"@
}

/// The hover text of the logo.
pub open spec fn prime_text() -> Seq<char> {
    "Prime Video"@
}

/// The start of playback: now, less the position reached.
pub open spec fn start_of(p: Presence, now: i64) -> int {
    now - clock_seconds(p.current_time@)
}

/// The end of playback: the start, plus the total duration.
pub open spec fn end_of(p: Presence, now: i64) -> int {
    start_of(p, now) + clock_seconds(p.total_duration@)
}

/// The message can be acted on without a panic: for type 3 both clock texts
/// fit a `TimeDelta` and both timestamps fit a `chrono` date-time.
pub open spec fn presence_fits(p: Presence, now: i64) -> bool {
    p.message_type == 3 ==> {
        &&& clock_fits(p.current_time@)
        &&& clock_fits(p.total_duration@)
        &&& MIN_TIMESTAMP <= start_of(p, now) <= MAX_TIMESTAMP
        &&& MIN_TIMESTAMP <= end_of(p, now) <= MAX_TIMESTAMP
    }
}

/// The action for a message, given that it fits.
pub open spec fn action_matches(a: PresenceAction, p: Presence, now: i64) -> bool {
    if p.message_type == 3 {
        a matches PresenceAction::Show(plan) && {
            &&& plan.kind == ActivityKind::Playing
            &&& plan.details@ == "Prime Video: "@ + p.title@
            &&& plan.state@ == p.episodes@ + " | "@ + p.total_duration@
            &&& plan.start == Some(start_of(p, now) as i64)
            &&& plan.end == Some(end_of(p, now) as i64)
            &&& plan.large_image@ == prime_image()
            &&& plan.large_text@ == prime_text()
        }
    } else if p.message_type == 4 {
        a is Clear
    } else if p.message_type == 5 {
        a is Shutdown
    } else {
        a == PresenceAction::Unhandled(p.message_type)
    }
}

/// Decides what to do for a presence message at Unix time `now`, or `None`
/// where acting on it would panic (see `presence_fits`).
pub fn try_handle(p: &Presence, now: i64) -> (r: Option<PresenceAction>)
    ensures
        r is Some <==> presence_fits(*p, now),
        r matches Some(a) ==> action_matches(a, *p, now),
{
    if p.message_type == 3 {
        let current = match try_parse(p.current_time.as_str()) {
            Some(v) => v,
            None => return None,
        };
        let total = match try_parse(p.total_duration.as_str()) {
            Some(v) => v,
            None => return None,
        };
        let start: i128 = now as i128 - current as i128;
        if start < MIN_TIMESTAMP as i128 || start > MAX_TIMESTAMP as i128 {
            return None;
        }
        let end: i128 = start + total as i128;
        if end < MIN_TIMESTAMP as i128 || end > MAX_TIMESTAMP as i128 {
            return None;
        }
        let mut details = String::from_str("Prime Video: ");
        details.append(p.title.as_str());
        let mut state = String::from_str(p.episodes.as_str());
        state.append(" | ");
        state.append(p.total_duration.as_str());
        Some(
            PresenceAction::Show(
                ActivityPlan {
                    kind: ActivityKind::Playing,
                    details,
                    state,
                    start: Some(start as i64),
                    end: Some(end as i64),
                    large_image: String::from_str("prime"),
                    large_text: String::from_str("Prime Video"),
                },
            ),
        )
    } else if p.message_type == 4 {
        Some(PresenceAction::Clear)
    } else if p.message_type == 5 {
        Some(PresenceAction::Shutdown)
    } else {
        Some(PresenceAction::Unhandled(p.message_type))
    }
}

/// Decides what to do for a presence message at Unix time `now`: type 3
/// shows "Prime Video: <title>" over "<episodes> | <total duration>", started
/// at `now` less the current position and ending the total duration later;
/// type 4 clears the activity, type 5 ends the program.
pub fn handle(p: &Presence, now: i64) -> (a: PresenceAction)
    requires
        presence_fits(*p, now),
    ensures
        action_matches(a, *p, now),
{
    match try_handle(p, now) {
        Some(a) => a,
        None => PresenceAction::Clear,
    }
}

/// The activity shown while the host waits for the first message.
pub fn idle_activity() -> (plan: ActivityPlan)
    ensures
        plan.kind == ActivityKind::Watching,
        plan.details@ == "Prime Video Discord Presence 起動中"@,
        plan.state@ == "接続待機中..."@,
        plan.start is None,
        plan.end is None,
        plan.large_image@ == prime_image(),
        plan.large_text@ == prime_text(),
{
    ActivityPlan {
        kind: ActivityKind::Watching,
        details: String::from_str("Prime Video Discord Presence 起動中"),
        state: String::from_str("接続待機中..."),
        start: None,
        end: None,
        large_image: String::from_str("prime"),
        large_text: String::from_str("Prime Video"),
    }
}

/// The activity shown for a type-3 message began the current position ago
/// and lasts exactly the total duration.
pub proof fn lemma_shown_interval(a: PresenceAction, p: Presence, now: i64)
    requires
        p.message_type == 3,
        presence_fits(p, now),
        action_matches(a, p, now),
    ensures
        a matches PresenceAction::Show(plan) && plan.start matches Some(start) && plan.end matches Some(
            end,
        ) && now - start == clock_seconds(p.current_time@) && end - start == clock_seconds(
            p.total_duration@,
        ),
{
}


/// Exactly which messages can be acted on: every message other than type 3,
/// and a type-3 message whose clock texts can be read and whose start
/// (`now` less the position) and end (start plus the total duration) lie in
/// `chrono`'s range of Unix times, however long the video.
pub proof fn lemma_fits_exactly(p: Presence, now: i64)
    ensures
        presence_fits(p, now) <==> (p.message_type == 3 ==> {
            &&& clock_fits(p.current_time@) && clock_fits(p.total_duration@)
            &&& -8334601315200 <= now - clock_seconds(p.current_time@) <= 8210266876799
            &&& -8334601315200 <= now - clock_seconds(p.current_time@) + clock_seconds(
                p.total_duration@,
            ) <= 8210266876799
        }),
{
}


/// What each message type that can be acted on asks for: type 3 shows "Prime Video: <title>" over
/// "<episodes> | <total>" as the Playing activity with the Prime Video logo,
/// started the current position before `now` and ending the total duration
/// after that; type 4 clears the activity; type 5 ends the program; any other
/// type is left alone.
pub proof fn lemma_action_for_type(a: PresenceAction, p: Presence, now: i64)
    requires
        presence_fits(p, now),
        action_matches(a, p, now),
    ensures
        p.message_type == 3 ==> (a matches PresenceAction::Show(plan) && {
            &&& plan.kind == ActivityKind::Playing
            &&& plan.details@ == "Prime Video: "@ + p.title@
            &&& plan.state@ == p.episodes@ + " | "@ + p.total_duration@
            &&& plan.start matches Some(s) && s == now - clock_seconds(p.current_time@)
            &&& plan.end matches Some(e) && e == now - clock_seconds(p.current_time@) + clock_seconds(
                p.total_duration@,
            )
            &&& plan.large_image@ == "prime"@
            &&& plan.large_text@ == "Prime Video"@
        }),
        p.message_type == 4 ==> a is Clear,
        p.message_type == 5 ==> a is Shutdown,
        p.message_type != 3 && p.message_type != 4 && p.message_type != 5 ==> a
            == PresenceAction::Unhandled(p.message_type),
{
}

} // verus!
