//! DSCP (Differentiated Services) strategy -> IP TOS byte mapping.
//!
//! These keys are shared by the frontend dropdown and the socket setup. Keys
//! are case-insensitive (ASCII). Unknown keys fall back to best-effort (0x00)
//! rather than failing.

use crate::text::{ascii_lowercase, chars_eq, chars_of, to_ascii_lowercase};
use vstd::prelude::*;

verus! {

/// The TOS byte of a strategy key, compared after ASCII lowercasing.
pub open spec fn tos_for(strategy: Seq<char>) -> u8 {
    let key = ascii_lowercase(strategy);
    if key == "voip"@ || key == "ef"@ {
        0xB8
    } else if key == "cs5"@ {
        0xA0
    } else if key == "lowdelay"@ {
        0x10
    } else if key == "throughput"@ {
        0x08
    } else {
        0x00
    }
}

fn key_is(key: &Vec<char>, name: &str) -> (r: bool)
    ensures
        r == (key@ == name@),
{
    let n = chars_of(name);
    chars_eq(key.as_slice(), n.as_slice())
}

/// Maps a DSCP strategy key to its IP TOS/DSCP byte value: "voip"/"ef" ->
/// 0xB8 (Expedited Forwarding), "cs5" -> 0xA0, "lowdelay" -> 0x10,
/// "throughput" -> 0x08, anything else (including "besteffort" and "") -> 0x00.
pub fn dscp_to_tos(strategy: &str) -> (tos: u8)
    ensures
        tos == tos_for(strategy@),
{
    let key = to_ascii_lowercase(strategy);
    if key_is(&key, "voip") || key_is(&key, "ef") {
        0xB8
    } else if key_is(&key, "cs5") {
        0xA0
    } else if key_is(&key, "lowdelay") {
        0x10
    } else if key_is(&key, "throughput") {
        0x08
    } else {
        0x00
    }
}

} // verus!
