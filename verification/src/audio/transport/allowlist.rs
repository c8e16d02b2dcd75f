//! Server connection allowlist (IP / CIDR matching).

use ipnet::IpNet;
use vstd::prelude::*;

verus! {

broadcast use vstd::string::axiom_spec_iter;

/// An IP address as plain numbers.
#[derive(Clone, Copy, Debug, PartialEq, Eq, Structural)]
pub enum IpAddress {
    V4(u32),
    V6(u128),
}

/// An IP network: an address and a prefix length (at most 32 for IPv4, 128
/// for IPv6).
#[derive(Clone, Copy, Debug, PartialEq, Eq, Structural)]
pub struct IpNetwork {
    pub addr: IpAddress,
    pub prefix_len: u8,
}

/// Whether the prefix length fits the address family.
pub open spec fn valid_network(n: IpNetwork) -> bool {
    match n.addr {
        IpAddress::V4(_) => n.prefix_len <= 32,
        IpAddress::V6(_) => n.prefix_len <= 128,
    }
}

/// The single-host network of an address (/32 or /128).
pub open spec fn host_network(a: IpAddress) -> IpNetwork {
    IpNetwork {
        addr: a,
        prefix_len: match a {
            IpAddress::V4(_) => 32,
            IpAddress::V6(_) => 128,
        },
    }
}

/// IPv4 network mask of a prefix length.
pub open spec fn netmask4(p: u8) -> u32 {
    if p == 0 {
        0
    } else {
        0xFFFF_FFFFu32 << ((32 - p) as u32)
    }
}

/// IPv4 host mask of a prefix length.
pub open spec fn hostmask4(p: u8) -> u32 {
    if p >= 32 {
        0
    } else {
        0xFFFF_FFFFu32 >> (p as u32)
    }
}

/// IPv6 network mask of a prefix length.
pub open spec fn netmask6(p: u8) -> u128 {
    if p == 0 {
        0
    } else {
        0xFFFF_FFFF_FFFF_FFFF_FFFF_FFFF_FFFF_FFFFu128 << ((128 - p) as u128)
    }
}

/// IPv6 host mask of a prefix length.
pub open spec fn hostmask6(p: u8) -> u128 {
    if p >= 128 {
        0
    } else {
        0xFFFF_FFFF_FFFF_FFFF_FFFF_FFFF_FFFF_FFFFu128 >> (p as u128)
    }
}

/// Whether `net` contains `ip`: same family, and `ip` lies between the
/// network address and the broadcast address.
pub open spec fn network_contains(net: IpNetwork, ip: IpAddress) -> bool {
    match (net.addr, ip) {
        (IpAddress::V4(a), IpAddress::V4(x)) => (a & netmask4(net.prefix_len)) <= x && x <= (a
            | hostmask4(net.prefix_len)),
        (IpAddress::V6(a), IpAddress::V6(x)) => (a & netmask6(net.prefix_len)) <= x && x <= (a
            | hostmask6(net.prefix_len)),
        _ => false,
    }
}

/// What `ipnet`'s parser makes of a token (`addr/prefix`).
pub uninterp spec fn parsed_ip_network(token: Seq<char>) -> Option<IpNetwork>;

/// What the standard IP address parser makes of a token.
pub uninterp spec fn parsed_ip_address(token: Seq<char>) -> Option<IpAddress>;

/// Calls `"addr/prefix".parse::<ipnet::IpNet>()` on the token's text and
/// converts the result to plain numbers. The parsed value is named; `ipnet`
/// only builds networks whose prefix fits the family.
#[verifier::external_body]
fn parse_ipnet_token(token: &[char]) -> (r: Option<IpNetwork>)
    ensures
        r == parsed_ip_network(token@),
        r matches Some(n) ==> valid_network(n),
{
    let text: String = token.iter().collect();
    match text.parse::<IpNet>() {
        Ok(IpNet::V4(n)) => Some(IpNetwork { addr: IpAddress::V4(u32::from(n.addr())), prefix_len: n.prefix_len() }),
        Ok(IpNet::V6(n)) => Some(IpNetwork { addr: IpAddress::V6(u128::from(n.addr())), prefix_len: n.prefix_len() }),
        Err(_) => None,
    }
}

/// Calls `token.parse::<IpAddr>()` (the standard address parser) on the
/// token's text and converts the result to plain numbers. The parsed value
/// is named.
#[verifier::external_body]
fn parse_ipaddr_token(token: &[char]) -> (r: Option<IpAddress>)
    ensures
        r == parsed_ip_address(token@),
{
    let text: String = token.iter().collect();
    match text.parse::<core::net::IpAddr>() {
        Ok(core::net::IpAddr::V4(a)) => Some(IpAddress::V4(u32::from(a))),
        Ok(core::net::IpAddr::V6(a)) => Some(IpAddress::V6(u128::from(a))),
        Err(_) => None,
    }
}

/// Calls `ipnet::IpNet::contains(&IpAddr)`; the contract restates `ipnet`'s
/// definition (network address <= ip <= broadcast address, same family).
#[verifier::external_body]
fn ipnet_contains(net: &IpNetwork, ip: &IpAddress) -> (r: bool)
    requires
        valid_network(*net),
    ensures
        r == network_contains(*net, *ip),
{
    let addr = match *ip {
        IpAddress::V4(a) => core::net::IpAddr::V4(a.into()),
        IpAddress::V6(a) => core::net::IpAddr::V6(a.into()),
    };
    let base = match net.addr {
        IpAddress::V4(a) => core::net::IpAddr::V4(a.into()),
        IpAddress::V6(a) => core::net::IpAddr::V6(a.into()),
    };
    IpNet::new(base, net.prefix_len).unwrap().contains(&addr)
}

/// Parses an IP address literal (IPv4 dotted quad or IPv6).
pub fn parse_ip(text: &str) -> (r: Option<IpAddress>)
    ensures
        r == parsed_ip_address(text@),
{
    let chars = crate::text::chars_of(text);
    parse_ipaddr_token(chars.as_slice())
}

/// Whether `c` is a rule separator: comma, space, newline, tab or carriage return.
pub open spec fn is_separator(c: char) -> bool {
    c == ',' || c == ' ' || c == '\n' || c == '\t' || c == '\r'
}

/// Whether `c` has the Unicode White_Space property (what `str::trim` strips).
pub open spec fn is_white_space(c: char) -> bool {
    let u = c as u32;
    ||| (0x09 <= u && u <= 0x0D)
    ||| u == 0x20
    ||| u == 0x85
    ||| u == 0xA0
    ||| u == 0x1680
    ||| (0x2000 <= u && u <= 0x200A)
    ||| u == 0x2028
    ||| u == 0x2029
    ||| u == 0x202F
    ||| u == 0x205F
    ||| u == 0x3000
}

fn white_space(c: char) -> (r: bool)
    ensures
        r == is_white_space(c),
{
    let u = c as u32;
    (0x09 <= u && u <= 0x0D) || u == 0x20 || u == 0x85 || u == 0xA0 || u == 0x1680 || (0x2000 <= u
        && u <= 0x200A) || u == 0x2028 || u == 0x2029 || u == 0x202F || u == 0x205F || u == 0x3000
}

/// Number of leading white-space characters.
pub open spec fn lead_ws(s: Seq<char>) -> nat
    decreases s.len(),
{
    if s.len() > 0 && is_white_space(s[0]) {
        1 + lead_ws(s.drop_first())
    } else {
        0
    }
}

/// Number of trailing white-space characters.
pub open spec fn trail_ws(s: Seq<char>) -> nat
    decreases s.len(),
{
    if s.len() > 0 && is_white_space(s.last()) {
        1 + trail_ws(s.drop_last())
    } else {
        0
    }
}

/// `s` without leading and trailing white space.
pub open spec fn trimmed(s: Seq<char>) -> Seq<char> {
    let t = s.skip(lead_ws(s) as int);
    t.take(t.len() - trail_ws(t))
}

/// The pieces of `s` between separators (empty pieces included), as
/// `str::split` yields them.
pub open spec fn pieces(s: Seq<char>) -> Seq<Seq<char>>
    decreases s.len(),
{
    if s.len() == 0 {
        seq![Seq::empty()]
    } else {
        let rest = pieces(s.drop_last());
        if is_separator(s.last()) {
            rest.push(Seq::empty())
        } else {
            rest.update(rest.len() - 1, rest.last().push(s.last()))
        }
    }
}

/// The rule a trimmed token yields: a network when `ipnet` parses it, else
/// the host network of an address when that parses, else nothing; empty
/// tokens yield nothing.
pub open spec fn token_rules(piece: Seq<char>) -> Seq<IpNetwork> {
    let t = trimmed(piece);
    if t.len() == 0 {
        Seq::empty()
    } else {
        match parsed_ip_network(t) {
            Some(n) => seq![n],
            None => match parsed_ip_address(t) {
                Some(a) => seq![host_network(a)],
                None => Seq::empty(),
            },
        }
    }
}

/// The rules of a sequence of pieces, in order.
pub open spec fn rules_of_pieces(ps: Seq<Seq<char>>) -> Seq<IpNetwork>
    decreases ps.len(),
{
    if ps.len() == 0 {
        Seq::empty()
    } else {
        rules_of_pieces(ps.drop_last()) + token_rules(ps.last())
    }
}

/// What `parse_rules` returns for the text `s`.
pub open spec fn rules_of(s: Seq<char>) -> Seq<IpNetwork> {
    rules_of_pieces(pieces(s))
}

proof fn lemma_pieces_nonempty(s: Seq<char>)
    ensures
        pieces(s).len() >= 1,
    decreases s.len(),
{
    if s.len() > 0 {
        lemma_pieces_nonempty(s.drop_last());
    }
}

proof fn lemma_lead_ws_bound(s: Seq<char>)
    ensures
        lead_ws(s) <= s.len(),
        forall|i: int| 0 <= i < lead_ws(s) ==> is_white_space(#[trigger] s[i]),
        lead_ws(s) < s.len() ==> !is_white_space(s[lead_ws(s) as int]),
    decreases s.len(),
{
    if s.len() > 0 && is_white_space(s[0]) {
        lemma_lead_ws_bound(s.drop_first());
        assert forall|i: int| 0 <= i < lead_ws(s) implies is_white_space(#[trigger] s[i]) by {
            if i > 0 {
                assert(s[i] == s.drop_first()[i - 1]);
            }
        }
    }
}

proof fn lemma_trail_ws_bound(s: Seq<char>)
    ensures
        trail_ws(s) <= s.len(),
        forall|i: int| s.len() - trail_ws(s) <= i < s.len() ==> is_white_space(#[trigger] s[i]),
        trail_ws(s) < s.len() ==> !is_white_space(s[s.len() - trail_ws(s) - 1]),
    decreases s.len(),
{
    if s.len() > 0 && is_white_space(s.last()) {
        lemma_trail_ws_bound(s.drop_last());
        assert forall|i: int| s.len() - trail_ws(s) <= i < s.len() implies is_white_space(#[trigger] s[i]) by {
            if i < s.len() - 1 {
                assert(s[i] == s.drop_last()[i]);
            }
        }
    }
}

/// Trims white space from both ends of `s`.
pub(crate) fn trim_chars(s: &[char]) -> (t: Vec<char>)
    ensures
        t@ == trimmed(s@),
{
    let n = s.len();
    let mut start: usize = 0;
    proof {
        lemma_lead_ws_bound(s@);
    }
    while start < n && white_space(s[start])
        invariant
            n == s@.len(),
            start <= lead_ws(s@),
            lead_ws(s@) <= n,
            forall|i: int| 0 <= i < lead_ws(s@) ==> is_white_space(#[trigger] s@[i]),
            lead_ws(s@) < n ==> !is_white_space(s@[lead_ws(s@) as int]),
        decreases n - start,
    {
        start = start + 1;
    }
    let ghost t = s@.skip(lead_ws(s@) as int);
    assert(start == lead_ws(s@));
    proof {
        lemma_trail_ws_bound(t);
    }
    let mut end: usize = n;
    while end > start && white_space(s[end - 1])
        invariant
            n == s@.len(),
            start == lead_ws(s@),
            t == s@.skip(start as int),
            start <= end <= n,
            n - end <= trail_ws(t),
            trail_ws(t) <= t.len(),
            forall|i: int| t.len() - trail_ws(t) <= i < t.len() ==> is_white_space(#[trigger] t[i]),
            trail_ws(t) < t.len() ==> !is_white_space(t[t.len() - trail_ws(t) - 1]),
        decreases end,
    {
        assert(s@[end - 1] == t[end - 1 - start]);
        end = end - 1;
    }
    assert(n - end == trail_ws(t)) by {
        if n - end < trail_ws(t) {
            assert(end > start);
            assert(s@[end - 1] == t[end - 1 - start]);
        }
    }
    let mut out: Vec<char> = Vec::new();
    let mut i = start;
    while i < end
        invariant
            start <= i <= end,
            end <= n,
            n == s@.len(),
            out@ == s@.subrange(start as int, i as int),
        decreases end - i,
    {
        out.push(s[i]);
        i = i + 1;
        assert(out@ =~= s@.subrange(start as int, i as int));
    }
    assert(out@ =~= trimmed(s@));
    out
}

fn rules_from_piece(piece: &[char], out: &mut Vec<IpNetwork>)
    requires
        forall|k: int| 0 <= k < old(out)@.len() ==> valid_network(#[trigger] old(out)@[k]),
    ensures
        final(out)@ == old(out)@ + token_rules(piece@),
        forall|k: int| 0 <= k < final(out)@.len() ==> valid_network(#[trigger] final(out)@[k]),
{
    let t = trim_chars(piece);
    if t.len() == 0 {
        assert(out@ =~= old(out)@ + token_rules(piece@));
        return;
    }
    match parse_ipnet_token(t.as_slice()) {
        Some(n) => {
            out.push(n);
        },
        None => {
            match parse_ipaddr_token(t.as_slice()) {
                Some(a) => {
                    let prefix_len: u8 = match a {
                        IpAddress::V4(_) => 32,
                        IpAddress::V6(_) => 128,
                    };
                    out.push(IpNetwork { addr: a, prefix_len });
                },
                None => {},
            }
        },
    }
    assert(out@ =~= old(out)@ + token_rules(piece@));
}

/// Parses a list of IP or CIDR rules separated by commas, spaces, tabs or
/// newlines. A bare IP (`10.0.0.5`, `fe80::1`) becomes a single-host network.
/// Invalid tokens are skipped.
pub fn parse_rules(s: &str) -> (rules: Vec<IpNetwork>)
    ensures
        rules@ == rules_of(s@),
        forall|k: int| 0 <= k < rules@.len() ==> valid_network(#[trigger] rules@[k]),
{
    let chars = crate::text::chars_of(s);
    let n = chars.len();
    let mut rules: Vec<IpNetwork> = Vec::new();
    let mut current: Vec<char> = Vec::new();
    let mut i: usize = 0;
    while i < n
        invariant
            n == chars@.len(),
            chars@ == s@,
            i <= n,
            pieces(chars@.take(i as int)).len() >= 1,
            current@ == pieces(chars@.take(i as int)).last(),
            rules@ == rules_of_pieces(pieces(chars@.take(i as int)).drop_last()),
            forall|k: int| 0 <= k < rules@.len() ==> valid_network(#[trigger] rules@[k]),
        decreases n - i,
    {
        let c = chars[i];
        let ghost prefix = chars@.take(i as int);
        let ghost next = chars@.take(i + 1);
        assert(next.drop_last() =~= prefix);
        proof {
            lemma_pieces_nonempty(prefix);
        }
        if c == ',' || c == ' ' || c == '\n' || c == '\t' || c == '\r' {
            rules_from_piece(current.as_slice(), &mut rules);
            current = Vec::new();
            proof {
                let ps = pieces(prefix);
                assert(pieces(next) == ps.push(Seq::empty()));
                assert(pieces(next).drop_last() =~= ps);
                assert(ps =~= ps.drop_last().push(ps.last()));
                assert(rules_of_pieces(ps) == rules_of_pieces(ps.drop_last()) + token_rules(ps.last()));
                assert(current@ =~= pieces(next).last());
            }
        } else {
            current.push(c);
            proof {
                let ps = pieces(prefix);
                assert(pieces(next) == ps.update(ps.len() - 1, ps.last().push(c)));
                assert(pieces(next).drop_last() =~= ps.drop_last());
                assert(current@ =~= pieces(next).last());
            }
        }
        i = i + 1;
    }
    assert(chars@.take(n as int) =~= s@);
    proof {
        let ps = pieces(s@);
        lemma_pieces_nonempty(s@);
        assert(ps =~= ps.drop_last().push(ps.last()));
    }
    rules_from_piece(current.as_slice(), &mut rules);
    rules
}

/// Whether some rule contains `peer`.
pub open spec fn any_contains(rules: Seq<IpNetwork>, peer: IpAddress) -> bool {
    exists|k: int| 0 <= k < rules.len() && network_contains(#[trigger] rules[k], peer)
}

/// Whether `peer` is allowed. Empty `rules` returns `allow_if_empty` (open by
/// default); otherwise true iff some rule contains `peer`.
pub fn is_allowed(peer: IpAddress, rules: &[IpNetwork], allow_if_empty: bool) -> (r: bool)
    requires
        forall|k: int| 0 <= k < rules@.len() ==> valid_network(#[trigger] rules@[k]),
    ensures
        r == if rules@.len() == 0 {
            allow_if_empty
        } else {
            any_contains(rules@, peer)
        },
{
    if rules.len() == 0 {
        return allow_if_empty;
    }
    let n = rules.len();
    let mut k: usize = 0;
    while k < n
        invariant
            n == rules@.len(),
            k <= n,
            forall|j: int| 0 <= j < rules@.len() ==> valid_network(#[trigger] rules@[j]),
            forall|j: int| 0 <= j < k ==> !network_contains(#[trigger] rules@[j], peer),
        decreases n - k,
    {
        if ipnet_contains(&rules[k], &peer) {
            return true;
        }
        k = k + 1;
    }
    false
}

proof fn lemma_pieces_split(a: Seq<char>, c: char, b: Seq<char>)
    requires
        is_separator(c),
    ensures
        pieces(a + seq![c] + b) == pieces(a) + pieces(b),
    decreases b.len(),
{
    let s = a + seq![c] + b;
    if b.len() == 0 {
        assert(s =~= a.push(c));
        assert(s.drop_last() =~= a);
        assert(pieces(b) == seq![Seq::<char>::empty()]);
        assert(pieces(a).push(Seq::empty()) =~= pieces(a) + seq![Seq::<char>::empty()]);
    } else {
        let b2 = b.drop_last();
        assert(s.drop_last() =~= a + seq![c] + b2);
        assert(s.last() == b.last());
        lemma_pieces_split(a, c, b2);
        lemma_pieces_nonempty(b2);
        let pa = pieces(a);
        let pb = pieces(b2);
        if is_separator(b.last()) {
            assert((pa + pb).push(Seq::empty()) =~= pa + pb.push(Seq::empty()));
        } else {
            let rest = pa + pb;
            assert(rest.update(rest.len() - 1, rest.last().push(b.last())) =~= pa + pb.update(
                pb.len() - 1,
                pb.last().push(b.last()),
            ));
        }
    }
}

proof fn lemma_rules_of_pieces_concat(p: Seq<Seq<char>>, q: Seq<Seq<char>>)
    ensures
        rules_of_pieces(p + q) == rules_of_pieces(p) + rules_of_pieces(q),
    decreases q.len(),
{
    if q.len() == 0 {
        assert(p + q =~= p);
        assert(rules_of_pieces(p) + Seq::<IpNetwork>::empty() =~= rules_of_pieces(p));
    } else {
        let q2 = q.drop_last();
        assert((p + q).drop_last() =~= p + q2);
        assert((p + q).last() == q.last());
        lemma_rules_of_pieces_concat(p, q2);
        assert(rules_of_pieces(p) + rules_of_pieces(q2) + token_rules(q.last()) =~= rules_of_pieces(p) + (
        rules_of_pieces(q2) + token_rules(q.last())));
    }
}

/// A comma, a space, a newline, a tab and a carriage return each separate
/// rules: the rules of two texts joined by any one of them are the rules of
/// the first text followed by those of the second.
pub proof fn lemma_separators_split_rules(a: Seq<char>, b: Seq<char>)
    ensures
        rules_of(a + seq![','] + b) == rules_of(a) + rules_of(b),
        rules_of(a + seq![' '] + b) == rules_of(a) + rules_of(b),
        rules_of(a + seq!['\n'] + b) == rules_of(a) + rules_of(b),
        rules_of(a + seq!['\t'] + b) == rules_of(a) + rules_of(b),
        rules_of(a + seq!['\r'] + b) == rules_of(a) + rules_of(b),
{
    lemma_rules_of_pieces_concat(pieces(a), pieces(b));
    lemma_pieces_split(a, ',', b);
    lemma_pieces_split(a, ' ', b);
    lemma_pieces_split(a, '\n', b);
    lemma_pieces_split(a, '\t', b);
    lemma_pieces_split(a, '\r', b);
}

proof fn lemma_pieces_unsplit(s: Seq<char>)
    requires
        forall|i: int| 0 <= i < s.len() ==> !is_separator(#[trigger] s[i]),
    ensures
        pieces(s) == seq![s],
    decreases s.len(),
{
    if s.len() > 0 {
        let s2 = s.drop_last();
        assert forall|i: int| 0 <= i < s2.len() implies !is_separator(#[trigger] s2[i]) by {
            assert(s2[i] == s[i]);
        }
        lemma_pieces_unsplit(s2);
        assert(!is_separator(s[s.len() - 1]));
        assert(s2.push(s.last()) =~= s);
    } else {
        assert(s =~= Seq::<char>::empty());
    }
}

/// A text holding none of the five separators is a single token: its rules
/// are what that one token yields, nothing else splits it.
pub proof fn lemma_text_without_separators_is_one_token(s: Seq<char>)
    requires
        forall|i: int|
            0 <= i < s.len() ==> #[trigger] s[i] != ',' && s[i] != ' ' && s[i] != '\n' && s[i] != '\t' && s[i]
                != '\r',
    ensures
        rules_of(s) == token_rules(s),
{
    lemma_pieces_unsplit(s);
    let ps = seq![s];
    assert(ps.drop_last() =~= Seq::<Seq<char>>::empty());
    assert(ps.last() == s);
    assert(rules_of_pieces(Seq::<Seq<char>>::empty()) == Seq::<IpNetwork>::empty());
    assert(rules_of_pieces(ps) == rules_of_pieces(ps.drop_last()) + token_rules(ps.last()));
    assert(Seq::<IpNetwork>::empty() + token_rules(s) =~= token_rules(s));
}

} // verus!
