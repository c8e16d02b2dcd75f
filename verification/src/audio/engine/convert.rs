//! Channel-layout normalization: any device layout to interleaved stereo and
//! back. Generic over the sample type, which is only moved, never computed
//! with (mono output takes a caller-supplied mixing function).

use vstd::prelude::*;

verus! {

/// Interleaved stereo taken from interleaved `input` with `ch` channels: mono
/// is duplicated, stereo is copied, wider layouts keep the front pair of each
/// frame. A trailing partial frame is ignored; zero channels give nothing.
pub open spec fn stereo_of<T>(input: Seq<T>, ch: nat) -> Seq<T> {
    if ch == 0 {
        Seq::empty()
    } else if ch == 1 {
        Seq::new(input.len() * 2, |k: int| input[k / 2])
    } else {
        Seq::new((input.len() / ch) * 2, |k: int| input[(k / 2) * ch + k % 2])
    }
}

/// Mixes interleaved `input` with `in_channels` channels into interleaved
/// stereo, replacing `out`. Mono is duplicated; stereo is copied verbatim;
/// for more than two channels the first two channels of each frame (FL/FR)
/// are taken. A trailing partial frame is ignored. `in_channels == 0` clears
/// `out`.
pub fn mix_to_stereo<T: Copy>(input: &[T], in_channels: usize, out: &mut Vec<T>)
    ensures
        final(out)@ == stereo_of(input@, in_channels as nat),
{
    out.clear();
    if in_channels == 0 {
        assert(out@ =~= stereo_of(input@, 0));
        return;
    }
    let n = input.len();
    let frames = n / in_channels;
    let ghost want = stereo_of(input@, in_channels as nat);
    let mut f: usize = 0;
    if in_channels == 1 {
        while f < n
            invariant
                f <= n,
                n == input@.len(),
                in_channels == 1,
                want == stereo_of(input@, 1),
                out@ == want.take(2 * f as int),
            decreases n - f,
        {
            let s = input[f];
            out.push(s);
            out.push(s);
            f = f + 1;
            assert(out@ =~= want.take(2 * f as int));
        }
    } else {
        proof {
            vstd::arithmetic::div_mod::lemma_fundamental_div_mod(n as int, in_channels as int);
            vstd::arithmetic::div_mod::lemma_mod_bound(n as int, in_channels as int);
        }
        while f < frames
            invariant
                f <= frames,
                n == input@.len(),
                in_channels >= 2,
                frames == n / in_channels,
                frames * in_channels <= n,
                want == stereo_of(input@, in_channels as nat),
                out@ == want.take(2 * f as int),
            decreases frames - f,
        {
            proof {
                assert(f * in_channels + in_channels <= frames * in_channels) by (nonlinear_arith)
                    requires
                        f < frames,
                ;
            }
            let base = f * in_channels;
            let l = input[base];
            let r = input[base + 1];
            out.push(l);
            out.push(r);
            proof {
                assert(((2 * f) as int) / 2 == f && ((2 * f + 1) as int) / 2 == f);
                assert(((2 * f) as int) % 2 == 0 && ((2 * f + 1) as int) % 2 == 1);
            }
            f = f + 1;
            assert(out@ =~= want.take(2 * f as int));
        }
    }
    assert(out@ =~= want);
}

/// Whether `out` is `input` (interleaved stereo) spread over `oc` channels:
/// one output frame per whole input frame; mono holds `mix` of each L/R
/// pair, stereo is verbatim, wider layouts carry L/R on the front pair and
/// `silence` elsewhere. Zero channels give nothing.
pub open spec fn spread_ok<T, F: Fn(T, T) -> T>(input: Seq<T>, oc: nat, silence: T, mix: F, out: Seq<T>) -> bool {
    let frames = input.len() / 2;
    if oc == 0 {
        out.len() == 0
    } else if oc == 1 {
        &&& out.len() == frames
        &&& forall|i: int| 0 <= i < frames ==> call_ensures(mix, (input[2 * i], input[2 * i + 1]), #[trigger] out[i])
    } else {
        &&& out.len() == frames * oc
        &&& forall|i: int, c: int|
            0 <= i < frames && 0 <= c < oc ==> #[trigger] out[i * oc + c] == if c < 2 {
                input[2 * i + c]
            } else {
                silence
            }
    }
}

/// Spreads interleaved stereo into `out_channels` interleaved channels,
/// replacing `out`: mono gets `mix(L, R)` (the engine passes the L/R
/// average); stereo copies verbatim; with more than two channels L/R land on
/// the front pair and the rest is `silence`. `out_channels == 0` clears
/// `out`. A trailing partial input frame is ignored.
pub fn stereo_to_channels<T: Copy, F: Fn(T, T) -> T>(input: &[T], out_channels: usize, out: &mut Vec<T>, silence: T, mix: F)
    requires
        forall|l: T, r: T| call_requires(mix, (l, r)),
    ensures
        spread_ok(input@, out_channels as nat, silence, mix, final(out)@),
{
    out.clear();
    if out_channels == 0 {
        return;
    }
    let frames = input.len() / 2;
    let mut f: usize = 0;
    if out_channels == 1 {
        while f < frames
            invariant
                f <= frames,
                frames == input@.len() / 2,
                input@.len() == input.len(),
                forall|l: T, r: T| call_requires(mix, (l, r)),
                out@.len() == f,
                forall|i: int| 0 <= i < f ==> call_ensures(mix, (input@[2 * i], input@[2 * i + 1]), #[trigger] out@[i]),
            decreases frames - f,
        {
            let m = mix(input[2 * f], input[2 * f + 1]);
            out.push(m);
            f = f + 1;
        }
    } else {
        while f < frames
            invariant
                f <= frames,
                frames == input@.len() / 2,
                input@.len() == input.len(),
                out_channels >= 2,
                out@.len() == f * out_channels,
                forall|i: int, c: int|
                    0 <= i < f && 0 <= c < out_channels ==> #[trigger] out@[i * out_channels + c] == if c < 2 {
                        input@[2 * i + c]
                    } else {
                        silence
                    },
            decreases frames - f,
        {
            let ghost before = out@;
            out.push(input[2 * f]);
            out.push(input[2 * f + 1]);
            let mut c: usize = 2;
            while c < out_channels
                invariant
                    2 <= c <= out_channels,
                    out@.len() == f * out_channels + c,
                    out@.subrange(0, f * out_channels) == before,
                    before.len() == f * out_channels,
                    out@[f * out_channels + 0] == input@[2 * f as int],
                    out@[f * out_channels + 1] == input@[2 * f + 1],
                    forall|k: int| 2 <= k < c ==> #[trigger] out@[f * out_channels + k] == silence,
                decreases out_channels - c,
            {
                out.push(silence);
                c = c + 1;
            }
            proof {
                assert forall|i: int, cc: int|
                    0 <= i < f + 1 && 0 <= cc < out_channels implies #[trigger] out@[i * out_channels + cc]
                    == if cc < 2 {
                    input@[2 * i + cc]
                } else {
                    silence
                } by {
                    if i < f {
                        assert(i * out_channels + cc < f * out_channels) by (nonlinear_arith)
                            requires
                                i < f,
                                cc < out_channels,
                        ;
                        assert(out@[i * out_channels + cc] == before[i * out_channels + cc]);
                    } else {
                        assert(i * out_channels == f * out_channels);
                    }
                }
                assert((f + 1) * out_channels == f * out_channels + out_channels) by (nonlinear_arith);
            }
            f = f + 1;
        }
    }
}

} // verus!
