//! What a native source advertises over mDNS and what a browsing sink reads
//! back from it (the daemon itself runs at the application edge).

use vstd::prelude::*;
use vstd::string::{StrSliceExecFns, StringExecFns};

verus! {

/// A discovered native source.
pub struct DiscoveredSource {
    pub name: String,
    /// `ip:port`
    pub addr: String,
    pub encrypted: bool,
}

/// The `enc` TXT property value: `1` for an encrypted source, `0` otherwise.
pub open spec fn enc_text(encrypted: bool) -> Seq<char> {
    if encrypted {
        "1"@
    } else {
        "0"@
    }
}

/// Whether an advertised `enc` property marks the source as encrypted: only
/// the exact value `1` does, and a missing property does not.
pub open spec fn marks_encrypted(value: Option<Seq<char>>) -> bool {
    value is Some && value.unwrap() == "1"@
}

/// The `enc` TXT property value to advertise.
pub fn enc_property(encrypted: bool) -> (s: &'static str)
    ensures
        s@ == enc_text(encrypted),
{
    if encrypted {
        "1"
    } else {
        "0"
    }
}

/// Reads the `enc` TXT property of a resolved service.
pub fn advertises_encryption(value: Option<&str>) -> (b: bool)
    ensures
        b == marks_encrypted(
            match value {
                Some(v) => Some(v@),
                None => None,
            },
        ),
{
    proof {
        reveal_strlit("1");
    }
    match value {
        Some(v) => {
            if v.unicode_len() == 1 && v.get_char(0) == '1' {
                assert(v@ =~= "1"@);
                true
            } else {
                false
            }
        },
        None => false,
    }
}

/// The mDNS host name advertised for an instance: `<instance>.local.`
pub fn mdns_host(instance: &str) -> (h: String)
    ensures
        h@ == instance@ + ".local."@,
{
    let mut h = String::from_str(instance);
    h.append(".local.");
    h
}

/// A browsing sink reads back exactly the encryption flag a source advertised.
pub proof fn lemma_enc_property_roundtrip(encrypted: bool)
    ensures
        marks_encrypted(Some(enc_text(encrypted))) == encrypted,
{
    reveal_strlit("0");
    reveal_strlit("1");
    if !encrypted {
        assert(enc_text(encrypted)[0] != "1"@[0]);
    }
}

} // verus!
