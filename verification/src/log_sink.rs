//! The host's log lines, which it forwards to the extension's log viewer.
use vstd::prelude::*;
use vstd::utf8::{decode_utf8, valid_utf8};
use crate::text::{trim, trimmed};
use crate::utf8::utf8_str;

verus! {

/// The line forwarded for a chunk of formatted log output: the chunk as text
/// without surrounding white space, or nothing where it is not valid UTF-8.
pub fn log_line(buf: &[u8]) -> (r: Option<String>)
    ensures
        r is Some <==> valid_utf8(buf@),
        r matches Some(s) ==> s@ == trimmed(decode_utf8(buf@)),
{
    match utf8_str(buf) {
        Some(s) => Some(trim(s)),
        None => None,
    }
}

} // verus!
