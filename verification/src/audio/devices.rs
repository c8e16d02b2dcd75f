//! Device names as the user interface lists them and as the engine looks
//! them up again: output devices offered for loopback capture carry a label,
//! lists are sorted without duplicates, and a chosen name is matched against
//! what the audio host reports (the host enumeration itself is I/O).

use crate::audio::transport::allowlist::{trim_chars, trimmed};
use crate::text::{chars_eq, chars_of};
use vstd::prelude::*;
use vstd::string::StringExecFns;

verus! {

/// The label put in front of an output device offered for loopback capture.
pub open spec fn loopback_prefix() -> Seq<char> {
    "[Loopback] "@
}

/// Whether `pat` occurs in `s` starting at `i`.
pub open spec fn occurs_at(s: Seq<char>, pat: Seq<char>, i: int) -> bool {
    0 <= i && i + pat.len() <= s.len() && s.subrange(i, i + pat.len()) == pat
}

/// `s` with every occurrence of a non-empty `pat` removed, scanning left to
/// right without overlaps (what `str::replace(pat, "")` returns).
pub open spec fn remove_all(s: Seq<char>, pat: Seq<char>) -> Seq<char>
    decreases s.len(),
{
    if pat.len() == 0 || s.len() < pat.len() {
        s
    } else if s.take(pat.len() as int) == pat {
        remove_all(s.skip(pat.len() as int), pat)
    } else {
        seq![s[0]] + remove_all(s.drop_first(), pat)
    }
}

/// The name under which an output device is offered for loopback capture.
pub fn loopback_label(name: &str) -> (label: String)
    ensures
        label@ == loopback_prefix() + name@,
{
    let mut label = String::from_str("[Loopback] ");
    label.append(name);
    label
}

/// Whether `pat` occurs in `s` at `i` (which must leave room for it).
fn matches_at(s: &[char], pat: &[char], i: usize) -> (r: bool)
    requires
        i + pat@.len() <= s@.len(),
    ensures
        r == (s@.subrange(i as int, i + pat@.len()) == pat@),
{
    let m = pat.len();
    let mut k: usize = 0;
    while k < m
        invariant
            m == pat@.len(),
            i + m <= s@.len(),
            s@.len() == s.len(),
            k <= m,
            forall|t: int| 0 <= t < k ==> s@[i + t] == pat@[t],
        decreases m - k,
    {
        if s[i + k] != pat[k] {
            assert(s@.subrange(i as int, i + m)[k as int] != pat@[k as int]);
            return false;
        }
        k = k + 1;
    }
    assert(s@.subrange(i as int, i + m) =~= pat@);
    true
}

/// Removes every occurrence of a non-empty `pat` from `s`, left to right.
pub fn remove_all_chars(s: &[char], pat: &[char]) -> (r: Vec<char>)
    requires
        pat@.len() > 0,
    ensures
        r@ == remove_all(s@, pat@),
{
    let n = s.len();
    let m = pat.len();
    let mut out: Vec<char> = Vec::new();
    let mut i: usize = 0;
    assert(s@.skip(0) =~= s@);
    assert(out@ + remove_all(s@, pat@) =~= remove_all(s@, pat@));
    while i < n
        invariant
            n == s@.len(),
            m == pat@.len(),
            m > 0,
            i <= n,
            remove_all(s@, pat@) == out@ + remove_all(s@.skip(i as int), pat@),
        decreases n - i,
    {
        let ghost rest = s@.skip(i as int);
        if m <= n - i && matches_at(s, pat, i) {
            assert(rest.take(m as int) =~= s@.subrange(i as int, i + m));
            assert(rest.skip(m as int) =~= s@.skip(i + m));
            i = i + m;
        } else {
            proof {
                if i + m <= n {
                    assert(rest.take(m as int) =~= s@.subrange(i as int, i + m));
                }
            }
            assert(rest.drop_first() =~= s@.skip(i + 1));
            assert(rest[0] == s@[i as int]);
            proof {
                if rest.len() < m {
                    assert(remove_all(rest, pat@) == rest);
                    assert(remove_all(rest.drop_first(), pat@) == rest.drop_first());
                    assert(rest =~= seq![rest[0]] + rest.drop_first());
                }
            }
            let ghost before = out@;
            out.push(s[i]);
            assert(before + remove_all(rest, pat@) =~= out@ + remove_all(s@.skip(i + 1), pat@));
            i = i + 1;
        }
    }
    assert(s@.skip(n as int) =~= Seq::<char>::empty());
    assert(out@ + Seq::<char>::empty() =~= out@);
    out
}

/// The device name a loopback label stands for: the label removed wherever it occurs.
pub fn strip_loopback_label(name: &str) -> (r: Vec<char>)
    ensures
        r@ == remove_all(name@, loopback_prefix()),
{
    proof {
        reveal_strlit("[Loopback] ");
    }
    let s = chars_of(name);
    let pat = chars_of("[Loopback] ");
    remove_all_chars(s.as_slice(), pat.as_slice())
}

/// Whether a reported device name is the one asked for: equal, or equal
/// once white space is trimmed from both ends of each.
pub open spec fn names_match(reported: Seq<char>, wanted: Seq<char>) -> bool {
    reported == wanted || trimmed(reported) == trimmed(wanted)
}

/// Whether the reported device name `reported` is the loopback device asked for.
pub fn device_name_matches(reported: &[char], wanted: &[char]) -> (r: bool)
    ensures
        r == names_match(reported@, wanted@),
{
    if chars_eq(reported, wanted) {
        return true;
    }
    let a = trim_chars(reported);
    let b = trim_chars(wanted);
    chars_eq(a.as_slice(), b.as_slice())
}

/// Whether capture may start: loopback (system audio) capture exists only on
/// Windows, where the audio host offers it; an input device works anywhere.
/// `os` is the operating system's name as Rust reports it.
pub fn loopback_supported(is_loopback: bool, os: &str) -> (ok: bool)
    ensures
        ok == (!is_loopback || os@ == "windows"@),
{
    if !is_loopback {
        return true;
    }
    let have = chars_of(os);
    let want = chars_of("windows");
    chars_eq(have.as_slice(), want.as_slice())
}

/// Removing every occurrence of `pat` from `s` leaves `s` when it holds none.
pub proof fn lemma_remove_all_absent(s: Seq<char>, pat: Seq<char>)
    requires
        pat.len() > 0,
        forall|i: int| !#[trigger] occurs_at(s, pat, i),
    ensures
        remove_all(s, pat) == s,
    decreases s.len(),
{
    if s.len() >= pat.len() {
        assert(s.take(pat.len() as int) =~= s.subrange(0, pat.len() as int));
        assert(!occurs_at(s, pat, 0));
        let t = s.drop_first();
        assert forall|i: int| !#[trigger] occurs_at(t, pat, i) by {
            if occurs_at(t, pat, i) {
                assert(s.subrange(i + 1, i + 1 + pat.len()) =~= t.subrange(i, i + pat.len()));
                assert(occurs_at(s, pat, i + 1));
            }
        }
        lemma_remove_all_absent(t, pat);
        assert(s =~= seq![s[0]] + t);
    }
}

/// The engine finds the device the list offered: stripping the label from
/// a labelled name gives the name back, for any name that does not itself
/// contain the label.
pub proof fn lemma_loopback_label_roundtrip(name: Seq<char>)
    requires
        forall|i: int| !#[trigger] occurs_at(name, loopback_prefix(), i),
    ensures
        remove_all(loopback_prefix() + name, loopback_prefix()) == name,
{
    reveal_strlit("[Loopback] ");
    let p = loopback_prefix();
    let s = p + name;
    assert(s.take(p.len() as int) =~= p);
    assert(s.skip(p.len() as int) =~= name);
    lemma_remove_all_absent(name, p);
}

/// Strict lexicographic order of character sequences by code point: the
/// order of `String`s, whose UTF-8 bytes sort as their code points do.
pub open spec fn chars_lt(a: Seq<char>, b: Seq<char>) -> bool
    decreases a.len(),
{
    if a.len() == 0 {
        b.len() > 0
    } else if b.len() == 0 {
        false
    } else if a[0] != b[0] {
        a[0] < b[0]
    } else {
        chars_lt(a.drop_first(), b.drop_first())
    }
}

/// The order is strict and total on distinct sequences.
pub proof fn lemma_chars_lt_strict_total(a: Seq<char>, b: Seq<char>)
    ensures
        !chars_lt(a, a),
        !(chars_lt(a, b) && chars_lt(b, a)),
        a != b ==> chars_lt(a, b) || chars_lt(b, a),
    decreases a.len(),
{
    if a.len() > 0 {
        lemma_chars_lt_strict_total(a.drop_first(), a.drop_first());
    }
    if a.len() == 0 && b.len() == 0 {
        assert(a =~= b);
    } else if a.len() > 0 && b.len() > 0 {
        lemma_chars_lt_strict_total(a.drop_first(), b.drop_first());
        if a[0] == b[0] {
            if a.drop_first() == b.drop_first() {
                assert(a =~= seq![a[0]] + a.drop_first());
                assert(b =~= seq![b[0]] + b.drop_first());
                assert(a =~= b);
            }
        }
    }
}

/// The order is transitive.
pub proof fn lemma_chars_lt_transitive(a: Seq<char>, b: Seq<char>, c: Seq<char>)
    requires
        chars_lt(a, b),
        chars_lt(b, c),
    ensures
        chars_lt(a, c),
    decreases a.len(),
{
    if a.len() > 0 && b.len() > 0 && c.len() > 0 && a[0] == b[0] && b[0] == c[0] {
        lemma_chars_lt_transitive(a.drop_first(), b.drop_first(), c.drop_first());
    }
}

/// Compares two character sequences: negative, zero or positive as `a`
/// sorts before, equal to, or after `b`.
pub fn compare_chars(a: &[char], b: &[char]) -> (r: i8)
    ensures
        (r < 0) == chars_lt(a@, b@),
        (r == 0) == (a@ == b@),
        (r > 0) == chars_lt(b@, a@),
{
    proof {
        lemma_chars_lt_strict_total(a@, b@);
    }
    let n = a.len();
    let m = b.len();
    let mut i: usize = 0;
    assert(a@.skip(0) =~= a@);
    assert(b@.skip(0) =~= b@);
    while i < n && i < m
        invariant
            n == a@.len(),
            m == b@.len(),
            i <= n,
            i <= m,
            a@.take(i as int) == b@.take(i as int),
            chars_lt(a@, b@) == chars_lt(a@.skip(i as int), b@.skip(i as int)),
            chars_lt(b@, a@) == chars_lt(b@.skip(i as int), a@.skip(i as int)),
        decreases n - i,
    {
        let x = a[i];
        let y = b[i];
        assert(a@.skip(i as int)[0] == x && b@.skip(i as int)[0] == y);
        if x != y {
            if x < y {
                return -1;
            } else {
                return 1;
            }
        }
        assert(a@.skip(i as int).drop_first() =~= a@.skip(i + 1));
        assert(b@.skip(i as int).drop_first() =~= b@.skip(i + 1));
        assert(a@.take(i + 1) =~= a@.take(i as int).push(x));
        assert(b@.take(i + 1) =~= b@.take(i as int).push(y));
        i = i + 1;
    }
    if i < m {
        return -1;
    }
    if i < n {
        return 1;
    }
    assert(a@ =~= a@.take(i as int));
    assert(b@ =~= b@.take(i as int));
    0
}

/// Whether the views of `v` are strictly increasing.
pub open spec fn strictly_sorted(v: Seq<Seq<char>>) -> bool {
    forall|i: int, j: int| 0 <= i < j < v.len() ==> chars_lt(#[trigger] v[i], #[trigger] v[j])
}

/// The texts of a list of strings.
pub open spec fn texts(v: Seq<String>) -> Seq<Seq<char>> {
    v.map_values(|s: String| s@)
}

/// The device names sorted, each once (as `sort` then `dedup` leaves a list).
pub fn sorted_unique(names: &[String]) -> (out: Vec<String>)
    ensures
        strictly_sorted(texts(out@)),
        forall|i: int| 0 <= i < names@.len() ==> texts(out@).contains(#[trigger] names@[i]@),
        forall|j: int| 0 <= j < out@.len() ==> texts(names@).contains(#[trigger] out@[j]@),
{
    let mut out: Vec<String> = Vec::new();
    let mut keys: Vec<Vec<char>> = Vec::new();
    let n = names.len();
    let mut i: usize = 0;
    while i < n
        invariant
            n == names@.len(),
            i <= n,
            keys@.len() == out@.len(),
            forall|j: int| 0 <= j < keys@.len() ==> #[trigger] keys@[j]@ == out@[j]@,
            strictly_sorted(texts(out@)),
            forall|k: int| 0 <= k < i ==> texts(out@).contains(#[trigger] names@[k]@),
            forall|j: int| 0 <= j < out@.len() ==> texts(names@).contains(#[trigger] out@[j]@),
        decreases n - i,
    {
        let key = chars_of(names[i].as_str());
        let len = keys.len();
        let mut pos: usize = 0;
        while pos < len && compare_chars(keys[pos].as_slice(), key.as_slice()) < 0
            invariant
                len == keys@.len(),
                pos <= len,
                key@ == names@[i as int]@,
                forall|j: int| 0 <= j < pos ==> chars_lt(#[trigger] keys@[j]@, key@),
            decreases len - pos,
        {
            pos = pos + 1;
        }
        let ghost old_out = out@;
        let ghost old_keys = keys@;
        let c: i8 = if pos < len {
            compare_chars(keys[pos].as_slice(), key.as_slice())
        } else {
            1
        };
        if c == 0 {
            assert(texts(out@)[pos as int] == names@[i as int]@);
        } else {
            proof {
                assert forall|j: int| pos <= j < old_keys.len() implies chars_lt(key@, #[trigger] texts(old_out)[j]) by {
                    assert(texts(old_out)[j] == old_keys[j]@);
                    assert(texts(old_out)[pos as int] == old_keys[pos as int]@);
                    if j > pos {
                        assert(chars_lt(texts(old_out)[pos as int], texts(old_out)[j]));
                        lemma_chars_lt_transitive(key@, texts(old_out)[pos as int], texts(old_out)[j]);
                    }
                }
            }
            let name = names[i].clone();
            out.insert(pos, name);
            keys.insert(pos, key);
            proof {
                assert forall|a: int, b: int| 0 <= a < b < out@.len() implies chars_lt(
                    #[trigger] texts(out@)[a],
                    #[trigger] texts(out@)[b],
                ) by {
                    let t = texts(old_out);
                    if b < pos {
                        assert(texts(out@)[a] == t[a] && texts(out@)[b] == t[b]);
                    } else if b == pos {
                        assert(texts(out@)[a] == old_keys[a]@);
                    } else if a == pos {
                        assert(texts(out@)[b] == t[b - 1]);
                    } else if a < pos {
                        assert(texts(out@)[a] == old_keys[a]@);
                        assert(texts(out@)[b] == t[b - 1]);
                        assert(chars_lt(key@, t[b - 1]));
                        lemma_chars_lt_transitive(old_keys[a]@, key@, t[b - 1]);
                    } else {
                        assert(texts(out@)[a] == t[a - 1] && texts(out@)[b] == t[b - 1]);
                    }
                }
                assert forall|k: int| 0 <= k < i implies texts(out@).contains(#[trigger] names@[k]@) by {
                    let j = choose|j: int| 0 <= j < texts(old_out).len() && texts(old_out)[j] == names@[k]@;
                    if j < pos {
                        assert(texts(out@)[j] == names@[k]@);
                    } else {
                        assert(texts(out@)[j + 1] == names@[k]@);
                    }
                }
                assert(texts(out@)[pos as int] == names@[i as int]@);
                assert forall|j: int| 0 <= j < out@.len() implies texts(names@).contains(#[trigger] out@[j]@) by {
                    if j < pos {
                        assert(out@[j] == old_out[j]);
                    } else if j == pos {
                        assert(texts(names@)[i as int] == out@[j]@);
                    } else {
                        assert(out@[j] == old_out[j - 1]);
                    }
                }
            }
        }
        i = i + 1;
    }
    out
}

/// Whether a cached device list taken `age_secs` seconds ago may still be served.
pub fn device_cache_fresh(age_secs: u64) -> (fresh: bool)
    ensures
        fresh == (age_secs < 30),
{
    age_secs < 30
}

} // verus!
