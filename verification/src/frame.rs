//! Chrome native messaging: each message on the host's standard input is a
//! four-byte little-endian length followed by that many bytes of UTF-8 JSON.
//! This module reads the length, decodes the text and sorts the message by
//! its `message_type` field.
use vstd::prelude::*;
use vstd::string::StringExecFns;
use vstd::utf8::{decode_utf8, valid_utf8};
use crate::utf8::utf8_str;

verus! {

/// The unsigned number that four bytes denote, least significant byte first.
pub open spec fn le_u32(b: Seq<u8>) -> int {
    b[0] as int + 256 * (b[1] as int) + 65536 * (b[2] as int) + 16777216 * (b[3] as int)
}

/// The payload length announced by a message header (`u32::from_le_bytes`).
pub fn frame_length(header: [u8; 4]) -> (len: usize)
    ensures
        len == le_u32(header@),
{
    let b0 = header[0] as u32;
    let b1 = header[1] as u32;
    let b2 = header[2] as u32;
    let b3 = header[3] as u32;
    let v: u32 = b0 + b1 * 256 + b2 * 65536 + b3 * 16777216;
    v as usize
}

/// The text of a payload: its UTF-8 decoding, or the empty text where the
/// bytes are not valid UTF-8.
pub open spec fn payload_chars(payload: Seq<u8>) -> Seq<char> {
    if valid_utf8(payload) {
        decode_utf8(payload)
    } else {
        Seq::<char>::empty()
    }
}

/// Decodes a payload (`String::from_utf8`, or empty text on failure).
pub fn payload_text(payload: Vec<u8>) -> (text: String)
    ensures
        text@ == payload_chars(payload@),
{
    match utf8_str(payload.as_slice()) {
        Some(s) => String::from_str(s),
        None => String::new(),
    }
}

#[verifier::external_type_specification]
#[verifier::external_body]
pub struct ExJsonValue(serde_json::Value);

/// What `serde_json::from_str::<Value>` makes of a text: the value, or the
/// error's message where the text is not one JSON value.
pub uninterp spec fn json_parsed(text: Seq<char>) -> Result<serde_json::Value, Seq<char>>;

/// Calls `serde_json::from_str::<Value>`, turning the error into its message.
/// Claims that the outcome is the one `json_parsed` names for the text.
#[verifier::external_body]
fn json_parse(text: &str) -> (r: Result<serde_json::Value, String>)
    ensures
        match r {
            Ok(v) => json_parsed(text@) == Ok::<serde_json::Value, Seq<char>>(v),
            Err(e) => json_parsed(text@) == Err::<serde_json::Value, Seq<char>>(e@),
        },
{
    serde_json::from_str::<serde_json::Value>(text).map_err(|e| e.to_string())
}

/// What `Value::get` with `key`, then `Value::as_u64`, give for a value: the
/// member `key` of an object when it is an integer that fits in `u64`.
pub uninterp spec fn u64_member(v: serde_json::Value, key: Seq<char>) -> Option<u64>;

/// Calls `Value::get` with `key` and `Value::as_u64` on what it finds.
/// Claims that the result is the one `u64_member` names for the value and key.
#[verifier::external_body]
fn json_u64_member(v: &serde_json::Value, key: &str) -> (r: Option<u64>)
    ensures
        r == u64_member(*v, key@),
{
    v.get(key).and_then(serde_json::Value::as_u64)
}

/// The `message_type` member of a message's value, where it is a `u64`.
pub open spec fn message_field(v: serde_json::Value) -> Option<u64> {
    u64_member(v, "message_type"@)
}

/// The message type that the host acts on: the `message_type` member, or 255
/// when there is none, cut to its lowest eight bits.
pub open spec fn message_kind(field: Option<u64>) -> u8 {
    match field {
        Some(t) => (t % 256) as u8,
        None => 255u8,
    }
}

/// What an incoming message asks of the host.
pub enum Incoming {
    /// The text is not JSON; the parser's message.
    Malformed(String),
    /// Type 0: keep-alive ping, nothing to do.
    KeepAlive,
    /// Types 3, 4 and 5: a presence message, still to be read into a `Presence`.
    Presence(u8, serde_json::Value),
    /// Any other type.
    Unknown(u8),
}

/// How a message text is answered, given what `serde_json` reads from it:
/// the parser's message for text that is not JSON, and for a presence
/// message the very value parsed from the text.
pub open spec fn incoming_matches(r: Incoming, parsed: Result<serde_json::Value, Seq<char>>) -> bool {
    match parsed {
        Err(e) => r matches Incoming::Malformed(m) && m@ == e,
        Ok(value) => {
            let t = message_kind(message_field(value));
            if t == 0 {
                r is KeepAlive
            } else if 3 <= t <= 5 {
                r == Incoming::Presence(t, value)
            } else {
                r == Incoming::Unknown(t)
            }
        },
    }
}

/// Sorts a message text by its type, as the host's read loop does.
pub fn classify(text: &str) -> (r: Incoming)
    ensures
        incoming_matches(r, json_parsed(text@)),
{
    match json_parse(text) {
        Err(e) => Incoming::Malformed(e),
        Ok(value) => {
            let field = json_u64_member(&value, "message_type");
            let t: u8 = match field {
                Some(n) => (n % 256) as u8,
                None => 255,
            };
            if t == 0 {
                Incoming::KeepAlive
            } else if 3 <= t && t <= 5 {
                Incoming::Presence(t, value)
            } else {
                Incoming::Unknown(t)
            }
        },
    }
}

} // verus!
