//! Per-packet AEAD for the native UDP transport.
//!
//! Key = HKDF-SHA256(PSK, salt_a ‖ salt_b). Each audio frame is sealed with
//! ChaCha20-Poly1305; the nonce is `session_salt(4) ‖ seq(8)` and the plaintext
//! audio header is the AEAD associated data (authenticated, not encrypted). A
//! sliding replay window rejects duplicated/old sequence numbers.

use crate::wire::{be32, be64, push_be32, push_be64};
use chacha20poly1305::aead::{Aead, KeyInit, Payload};
use chacha20poly1305::{ChaCha20Poly1305, Key, Nonce};
use hkdf::Hkdf;
use sha2::Sha256;
use vstd::prelude::*;
use vstd::string::StringSliceAdditionalSpecFns;

verus! {

/// Length of the Poly1305 tag appended to every sealed payload.
pub const TAG_LEN: usize = 16;

/// Largest plaintext ChaCha20-Poly1305 accepts: fewer than `u32::MAX` 64-byte blocks.
pub const MAX_PLAINTEXT_LEN: u64 = 274877906880;

/// HKDF `info` string binding derived keys to this protocol: `tcp-streamer/udp/v1`.
pub const KDF_INFO: [u8; 19] = [
    0x74, 0x63, 0x70, 0x2d, 0x73, 0x74, 0x72, 0x65, 0x61, 0x6d, 0x65, 0x72, 0x2f, 0x75, 0x64,
    0x70, 0x2f, 0x76, 0x31,
];

/// The 32 bytes of HKDF-SHA256 output keying material for `salt`, `ikm` and `info`.
pub uninterp spec fn hkdf_sha256_okm32(salt: Seq<u8>, ikm: Seq<u8>, info: Seq<u8>) -> Seq<u8>;

/// The ChaCha20-Poly1305 ciphertext (encrypted bytes followed by the tag) of `plaintext`.
pub uninterp spec fn chacha20poly1305_seal(
    key: Seq<u8>,
    nonce: Seq<u8>,
    aad: Seq<u8>,
    plaintext: Seq<u8>,
) -> Seq<u8>;

/// Calls `Hkdf::<Sha256>::new(Some(salt), ikm)` and `expand(info, &mut [0u8; 32])`.
/// The contract names the 32 output bytes as a function of the three inputs;
/// the expansion cannot fail at this length (HKDF allows up to 255 * 32 bytes).
#[verifier::external_body]
fn hkdf_sha256_expand32(salt: &[u8], ikm: &[u8], info: &[u8]) -> (okm: [u8; 32])
    ensures
        okm@ == hkdf_sha256_okm32(salt@, ikm@, info@),
{
    let hk = Hkdf::<Sha256>::new(Some(salt), ikm);
    let mut okm = [0u8; 32];
    hk.expand(info, &mut okm).expect("32 is a valid HKDF length");
    okm
}

/// Calls `ChaCha20Poly1305::encrypt` with `Payload { msg: plaintext, aad }`.
/// The contract names the ciphertext and states what `aead::Aead::encrypt`
/// shows of it: the plaintext length plus the 16-byte tag. Encryption only
/// fails for plaintexts of `MAX_PLAINTEXT_LEN` bytes or more, which the
/// `requires` leaves out.
#[verifier::external_body]
fn aead_encrypt(key: &[u8; 32], nonce: &[u8; 12], aad: &[u8], plaintext: &[u8]) -> (ct: Vec<u8>)
    requires
        plaintext@.len() < MAX_PLAINTEXT_LEN,
    ensures
        ct@ == chacha20poly1305_seal(key@, nonce@, aad@, plaintext@),
        ct@.len() == plaintext@.len() + TAG_LEN,
{
    let cipher = ChaCha20Poly1305::new(Key::from_slice(key));
    cipher.encrypt(Nonce::from_slice(nonce), Payload { msg: plaintext, aad }).expect(
        "encryption is infallible for valid inputs",
    )
}

/// Calls `ChaCha20Poly1305::decrypt` with `Payload { msg: ciphertext, aad }`.
/// The contract states the two directions of AEAD correctness that the
/// crate's code shows (the tag is recomputed and compared, the keystream is
/// XORed back): a returned plaintext seals to exactly `ciphertext`, and an
/// honest ciphertext always opens to its plaintext. Nothing is claimed about
/// forgeries beyond that.
#[verifier::external_body]
fn aead_decrypt(key: &[u8; 32], nonce: &[u8; 12], aad: &[u8], ciphertext: &[u8]) -> (r: Option<Vec<u8>>)
    ensures
        r matches Some(p) ==> ciphertext@ == chacha20poly1305_seal(key@, nonce@, aad@, p@),
        forall|p: Seq<u8>|
            #[trigger] honest_ciphertext(ciphertext@, key@, nonce@, aad@, p) ==> (r is Some && r.unwrap()@ == p),
{
    let cipher = ChaCha20Poly1305::new(Key::from_slice(key));
    cipher.decrypt(Nonce::from_slice(nonce), Payload { msg: ciphertext, aad }).ok()
}

/// Whether `ciphertext` is the sealing of `p`, a plaintext short enough to be sealed.
pub open spec fn honest_ciphertext(ciphertext: Seq<u8>, key: Seq<u8>, nonce: Seq<u8>, aad: Seq<u8>, p: Seq<u8>) -> bool {
    p.len() < MAX_PLAINTEXT_LEN && ciphertext == chacha20poly1305_seal(key, nonce, aad, p)
}

/// The HKDF salt: both session salts, big-endian, `salt_a` first.
pub open spec fn kdf_salt(salt_a: u64, salt_b: u64) -> Seq<u8> {
    be64(salt_a) + be64(salt_b)
}

/// The session key both peers derive from the PSK and their salts.
pub open spec fn session_key(psk: Seq<u8>, salt_a: u64, salt_b: u64) -> Seq<u8> {
    hkdf_sha256_okm32(kdf_salt(salt_a, salt_b), psk, KDF_INFO@)
}

/// The 12-byte nonce: the 4-byte session salt then the 8-byte sequence number, big-endian.
pub open spec fn nonce_bytes(salt: u32, seq: u64) -> Seq<u8> {
    be32(salt) + be64(seq)
}

/// The ciphertext of `plaintext` for sequence number `seq` of a session.
pub open spec fn sealed(key: Seq<u8>, salt: u32, seq: u64, aad: Seq<u8>, plaintext: Seq<u8>) -> Seq<u8> {
    chacha20poly1305_seal(key, nonce_bytes(salt, seq), aad, plaintext)
}

/// Derives the 32-byte session key from the PSK and both peers' salts.
pub fn derive_key(psk: &str, salt_a: u64, salt_b: u64) -> (key: [u8; 32])
    ensures
        key@ == session_key(psk.spec_bytes(), salt_a, salt_b),
{
    let mut salt: Vec<u8> = Vec::new();
    push_be64(&mut salt, salt_a);
    push_be64(&mut salt, salt_b);
    assert(salt@ =~= kdf_salt(salt_a, salt_b));
    let info = KDF_INFO;
    hkdf_sha256_expand32(salt.as_slice(), psk.as_bytes(), &info)
}

/// The 4-byte nonce salt both peers compute identically from the session salts.
pub fn nonce_salt(salt_a: u64, salt_b: u64) -> (r: u32)
    ensures
        r == ((salt_a ^ salt_b) & 0xFFFF_FFFFu64) as u32,
{
    ((salt_a ^ salt_b) & 0xFFFF_FFFF) as u32
}

/// Builds the 12-byte AEAD nonce `salt ‖ seq` (big-endian).
pub fn nonce(salt: u32, seq: u64) -> (n: [u8; 12])
    ensures
        n@ == nonce_bytes(salt, seq),
{
    let mut v: Vec<u8> = Vec::new();
    push_be32(&mut v, salt);
    push_be64(&mut v, seq);
    let n: [u8; 12] = [v[0], v[1], v[2], v[3], v[4], v[5], v[6], v[7], v[8], v[9], v[10], v[11]];
    assert(n@ =~= nonce_bytes(salt, seq));
    n
}

/// Seals `plaintext` (returns ciphertext + tag). `aad` is authenticated, not
/// encrypted (the audio header bytes).
pub fn seal(key: &[u8; 32], salt: u32, seq: u64, aad: &[u8], plaintext: &[u8]) -> (ct: Vec<u8>)
    requires
        plaintext@.len() < MAX_PLAINTEXT_LEN,
    ensures
        ct@ == sealed(key@, salt, seq, aad@, plaintext@),
        ct@.len() == plaintext@.len() + TAG_LEN,
{
    let n = nonce(salt, seq);
    aead_encrypt(key, &n, aad, plaintext)
}

/// Opens `ciphertext`; `None` unless it is exactly the sealing of some
/// plaintext under this key, nonce salt, sequence number and `aad`. A payload
/// sealed with the same parameters always opens to its plaintext.
pub fn open(key: &[u8; 32], salt: u32, seq: u64, aad: &[u8], ciphertext: &[u8])
    -> (r: Option<Vec<u8>>)
    ensures
        r matches Some(p) ==> ciphertext@ == sealed(key@, salt, seq, aad@, p@),
        forall|p: Seq<u8>|
            #[trigger] honest_ciphertext(ciphertext@, key@, nonce_bytes(salt, seq), aad@, p) ==> (r is Some && r.unwrap()@ == p),
{
    let n = nonce(salt, seq);
    let r = aead_decrypt(key, &n, aad, ciphertext);
    r
}

/// Width of the replay window, in sequence numbers.
pub const REPLAY_WINDOW: u64 = 64;

/// Whether bit `d` of `bitmap` is set.
pub open spec fn bit(bitmap: u64, d: u64) -> bool {
    (bitmap >> d) & 1u64 == 1u64
}

/// Abstract state of a replay window: whether anything was accepted yet, the
/// highest sequence number accepted, and the accepted sequence numbers that
/// are still inside the window.
pub struct ReplayModel {
    pub started: bool,
    pub highest: u64,
    pub seen: Set<u64>,
}

impl ReplayModel {
    /// Whether `seq` is inside the window ending at `top`.
    pub open spec fn in_window(top: u64, seq: u64) -> bool {
        seq <= top && top - seq < REPLAY_WINDOW
    }

    /// Whether `seq` would be accepted: nothing seen yet, newer than anything
    /// seen, or inside the window and not seen.
    pub open spec fn fresh(self, seq: u64) -> bool {
        ||| !self.started
        ||| seq > self.highest
        ||| (Self::in_window(self.highest, seq) && !self.seen.contains(seq))
    }

    /// The state after offering `seq`: unchanged when it is rejected; when it
    /// is accepted it joins the seen set, the top moves up to it if it is
    /// newer, and what falls out of the window is forgotten.
    pub open spec fn record(self, seq: u64) -> ReplayModel {
        if !self.fresh(seq) {
            self
        } else {
            let top = if !self.started || seq > self.highest {
                seq
            } else {
                self.highest
            };
            ReplayModel {
                started: true,
                highest: top,
                seen: self.seen.insert(seq).filter(|t: u64| Self::in_window(top, t)),
            }
        }
    }
}

/// Sliding window (64 seqs) rejecting replayed or too-old sequence numbers.
pub struct ReplayWindow {
    highest: u64,
    bitmap: u64,
    started: bool,
}

impl View for ReplayWindow {
    type V = ReplayModel;

    /// Bit `d` of the bitmap records sequence number `highest - d`.
    closed spec fn view(&self) -> ReplayModel {
        ReplayModel {
            started: self.started,
            highest: self.highest,
            seen: Set::new(
                |t: u64|
                    self.started && ReplayModel::in_window(self.highest, t) && bit(
                        self.bitmap,
                        (self.highest - t) as u64,
                    ),
            ),
        }
    }
}

proof fn lemma_bit_or_one(b: u64, d: u64)
    requires
        d < 64,
    ensures
        bit(b | 1u64, d) == (d == 0 || bit(b, d)),
{
    assert(((b | 1u64) >> d) & 1u64 == 1u64 <==> (d == 0 || (b >> d) & 1u64 == 1u64)) by (bit_vector)
        requires
            d < 64,
    ;
}

proof fn lemma_bit_or_mask(b: u64, k: u64, d: u64)
    requires
        k < 64,
        d < 64,
    ensures
        bit(b | (1u64 << k), d) == (d == k || bit(b, d)),
        bit(1u64 << k, d) == (d == k),
{
    assert(((b | (1u64 << k)) >> d) & 1u64 == 1u64 <==> (d == k || (b >> d) & 1u64 == 1u64))
        by (bit_vector)
        requires
            k < 64,
            d < 64,
    ;
    assert(((1u64 << k) >> d) & 1u64 == 1u64 <==> d == k) by (bit_vector)
        requires
            k < 64,
            d < 64,
    ;
}

proof fn lemma_bit_shl(b: u64, k: u64, d: u64)
    requires
        k < 64,
        d < 64,
    ensures
        bit(b << k, d) == (d >= k && bit(b, (d - k) as u64)),
{
    assert(((b << k) >> d) & 1u64 == 1u64 <==> (d >= k && (b >> ((d - k) as u64)) & 1u64 == 1u64))
        by (bit_vector)
        requires
            k < 64,
            d < 64,
    ;
}

proof fn lemma_bit_one(d: u64)
    requires
        d < 64,
    ensures
        bit(1u64, d) == (d == 0),
        !bit(0u64, d),
{
    assert((1u64 >> d) & 1u64 == 1u64 <==> d == 0) by (bit_vector);
    assert(!((0u64 >> d) & 1u64 == 1u64)) by (bit_vector);
}

impl ReplayWindow {
    /// An empty window: the first sequence number offered is accepted.
    pub fn new() -> (w: Self)
        ensures
            !w@.started,
            w@.highest == 0,
            w@.seen == Set::<u64>::empty(),
            w@ == empty_window(),
    {
        let w = ReplayWindow { highest: 0, bitmap: 0, started: false };
        assert(w@.seen =~= Set::<u64>::empty());
        w
    }

    /// Returns true if `seq` is fresh (and records it); false if replayed/old.
    pub fn check_and_update(&mut self, seq: u64) -> (fresh: bool)
        ensures
            fresh == old(self)@.fresh(seq),
            final(self)@ == old(self)@.record(seq),
    {
        let ghost m = self@;
        if !self.started {
            self.started = true;
            self.highest = seq;
            self.bitmap = 1;
            proof {
                assert forall|t: u64| #[trigger] self@.seen.contains(t) == m.record(seq).seen.contains(t) by {
                    if ReplayModel::in_window(seq, t) {
                        lemma_bit_one((seq - t) as u64);
                    }
                }
                assert(self@.seen =~= m.record(seq).seen);
            }
            return true;
        }
        if seq > self.highest {
            let shift = seq - self.highest;
            let ghost old_bitmap = self.bitmap;
            let ghost old_highest = self.highest;
            self.bitmap = if shift >= 64 {
                0
            } else {
                self.bitmap << shift
            };
            let ghost shifted = self.bitmap;
            self.bitmap = self.bitmap | 1;
            self.highest = seq;
            proof {
                assert forall|t: u64| #[trigger] self@.seen.contains(t) == m.record(seq).seen.contains(t) by {
                    if ReplayModel::in_window(seq, t) {
                        let d = (seq - t) as u64;
                        lemma_bit_or_one(shifted, d);
                        if shift >= 64 {
                            lemma_bit_one(d);
                        } else {
                            lemma_bit_shl(old_bitmap, shift, d);
                        }
                    }
                }
                assert(self@.seen =~= m.record(seq).seen);
            }
            true
        } else {
            let diff = self.highest - seq;
            if diff >= 64 {
                return false;
            }
            let mask = 1u64 << diff;
            let ghost old_bitmap = self.bitmap;
            proof {
                lemma_bit_or_mask(old_bitmap, diff, diff);
                assert((old_bitmap & mask != 0) == bit(old_bitmap, diff)) by (bit_vector)
                    requires
                        diff < 64,
                        mask == 1u64 << diff,
                ;
                assert(m.seen.contains(seq) == bit(old_bitmap, diff));
            }
            if self.bitmap & mask != 0 {
                false
            } else {
                self.bitmap = self.bitmap | mask;
                proof {
                    assert forall|t: u64| #[trigger] self@.seen.contains(t) == m.record(seq).seen.contains(t) by {
                        if ReplayModel::in_window(self.highest, t) {
                            lemma_bit_or_mask(old_bitmap, diff, (self.highest - t) as u64);
                        }
                    }
                    assert(self@.seen =~= m.record(seq).seen);
                }
                true
            }
        }
    }
}

/// Once a sequence number has been offered to the window, offering it again is
/// rejected, whatever else is offered in between (a replayed frame is never
/// accepted twice).
pub proof fn lemma_replay_rejected_after_record(m: ReplayModel, seq: u64)
    ensures
        !m.record(seq).fresh(seq),
{
}

/// A sequence number the window rejects stays rejected after any further
/// offer: the window only moves forward.
pub proof fn lemma_replay_stale_stays_stale(m: ReplayModel, seq: u64, other: u64)
    requires
        !m.fresh(seq),
    ensures
        !m.record(other).fresh(seq),
{
    if m.fresh(other) {
        let r = m.record(other);
        if ReplayModel::in_window(r.highest, seq) {
            assert(m.seen.contains(seq));
            assert(r.seen.contains(seq));
        }
    }
}

/// Any sequence number newer than everything accepted so far is accepted.
pub proof fn lemma_replay_newer_is_fresh(m: ReplayModel, seq: u64)
    requires
        m.started ==> seq > m.highest,
    ensures
        m.fresh(seq),
{
}

/// The window after offering each of `seqs` in turn.
pub open spec fn record_all(m: ReplayModel, seqs: Seq<u64>) -> ReplayModel
    decreases seqs.len(),
{
    if seqs.len() == 0 {
        m
    } else {
        record_all(m.record(seqs[0]), seqs.drop_first())
    }
}

/// A sequence number accepted once is rejected ever after, whatever
/// sequence of other numbers is offered in between.
pub proof fn lemma_replay_never_accepted_twice(m: ReplayModel, seq: u64, between: Seq<u64>)
    ensures
        !record_all(m.record(seq), between).fresh(seq),
{
    lemma_replay_rejected_after_record(m, seq);
    lemma_stale_through(m.record(seq), seq, between);
}

/// A rejected sequence number stays rejected through any run of offers.
proof fn lemma_stale_through(m: ReplayModel, seq: u64, offers: Seq<u64>)
    requires
        !m.fresh(seq),
    ensures
        !record_all(m, offers).fresh(seq),
    decreases offers.len(),
{
    if offers.len() > 0 {
        lemma_replay_stale_stays_stale(m, seq, offers[0]);
        lemma_stale_through(m.record(offers[0]), seq, offers.drop_first());
    }
}

/// A window that has accepted nothing.
pub open spec fn empty_window() -> ReplayModel {
    ReplayModel { started: false, highest: 0, seen: Set::empty() }
}

/// The window after offering `offers` in turn to an empty window.
pub open spec fn window_after(offers: Seq<u64>) -> ReplayModel
    decreases offers.len(),
{
    if offers.len() == 0 {
        empty_window()
    } else {
        window_after(offers.drop_last()).record(offers.last())
    }
}

/// The sequence numbers accepted (answered `true`) among `offers`, offered in
/// turn to an empty window.
pub open spec fn accepted(offers: Seq<u64>) -> Set<u64>
    decreases offers.len(),
{
    if offers.len() == 0 {
        Set::empty()
    } else if window_after(offers.drop_last()).fresh(offers.last()) {
        accepted(offers.drop_last()).insert(offers.last())
    } else {
        accepted(offers.drop_last())
    }
}

/// How the window stands to the set `a` of numbers it accepted: it has
/// started exactly when `a` is non-empty, its top is the largest of `a`, and
/// it remembers exactly the members of `a` inside the window.
pub open spec fn tracks(m: ReplayModel, a: Set<u64>) -> bool {
    &&& a.finite()
    &&& m.started == (a.len() > 0)
    &&& m.started ==> a.contains(m.highest)
    &&& forall|t: u64| #[trigger] a.contains(t) ==> t <= m.highest
    &&& forall|t: u64| #[trigger] m.seen.contains(t) <==> (a.contains(t) && ReplayModel::in_window(m.highest, t))
}

proof fn lemma_tracks_after(offers: Seq<u64>)
    ensures
        tracks(window_after(offers), accepted(offers)),
    decreases offers.len(),
{
    if offers.len() == 0 {
        assert(tracks(empty_window(), Set::<u64>::empty()));
    } else {
        let prev = offers.drop_last();
        let s = offers.last();
        lemma_tracks_after(prev);
        let m = window_after(prev);
        let a = accepted(prev);
        if m.fresh(s) {
            let n = m.record(s);
            let b = a.insert(s);
            assert(!a.contains(s)) by {
                if a.contains(s) {
                    assert(m.started);
                    assert(s <= m.highest);
                    if ReplayModel::in_window(m.highest, s) {
                        assert(m.seen.contains(s));
                    }
                }
            }
            assert(b.len() > 0) by {
                assert(b.contains(s));
            }
            assert forall|t: u64| #[trigger] n.seen.contains(t) <==> (b.contains(t) && ReplayModel::in_window(n.highest, t)) by {
                if b.contains(t) && ReplayModel::in_window(n.highest, t) && t != s {
                    assert(a.contains(t));
                    assert(t <= m.highest);
                    assert(ReplayModel::in_window(m.highest, t));
                    assert(m.seen.contains(t));
                }
            }
        }
    }
}

/// What the window answers, in terms of the numbers it has accepted so far:
/// after any run of offers to a new window, with `A` the numbers it accepted
/// and `h` their largest, a number is accepted exactly when `A` is empty, or
/// it is not in `A` and is either above `h` or less than 64 below it. A
/// rejected offer leaves the window as it was, so no number is ever accepted
/// twice.
pub proof fn lemma_replay_accepts_by_accepted_set(offers: Seq<u64>, seq: u64)
    ensures
        ({
            let a = accepted(offers);
            let m = window_after(offers);
            &&& (a.len() > 0 ==> a.contains(m.highest) && forall|t: u64| #[trigger] a.contains(t) ==> t <= m.highest)
            &&& m.fresh(seq) == (a.len() == 0 || (!a.contains(seq) && (seq > m.highest || m.highest - seq < REPLAY_WINDOW)))
            &&& !m.fresh(seq) ==> m.record(seq) == m
            &&& accepted(offers.push(seq)) == if m.fresh(seq) {
                a.insert(seq)
            } else {
                a
            }
            &&& window_after(offers.push(seq)) == m.record(seq)
        }),
{
    lemma_tracks_after(offers);
    let m = window_after(offers);
    let a = accepted(offers);
    let o2 = offers.push(seq);
    assert(o2.drop_last() =~= offers);
    assert(o2.last() == seq);
    if m.started && seq <= m.highest && m.highest - seq < REPLAY_WINDOW {
        assert(ReplayModel::in_window(m.highest, seq));
        assert(m.seen.contains(seq) == a.contains(seq));
    }
    if m.started && seq > m.highest {
        assert(!a.contains(seq));
    }
    if !m.fresh(seq) {
        assert(m.started);
        assert(a.len() > 0);
        if !(seq > m.highest) && m.highest - seq < REPLAY_WINDOW {
            assert(m.seen.contains(seq));
            assert(a.contains(seq));
        }
    }
}

} // verus!
