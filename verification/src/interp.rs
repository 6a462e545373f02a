//! Frame interpolators for the resampler.
//!
//! Two algorithms, as the pipeline's build-time quality flag selects:
//! two-point linear interpolation, and windowed-sinc interpolation
//! over a fixed ring of `SINC_BUFFER_SIZE` frames. Both work on whole
//! frames (all channels of one sample instant move together) and both
//! are exact fixed-point computations: the fractional position is the
//! rational `num / den`, carried in Q16, so every output is a
//! deterministic function of the frames and the position.

use vstd::prelude::*;

use crate::sample_ops::{sat_i64, tdiv, lemma_div_bound, div_toward_zero_i128};

verus! {

/// The number of frames the sinc interpolator's ring holds.
pub const SINC_BUFFER_SIZE: usize = 100;

/// One sample instant: both channels of a frame. A mono frame leaves
/// the second channel at equilibrium.
#[derive(Copy, Clone, PartialEq, Eq, Structural, Debug)]
pub struct Frame {
    /// First (or only) channel.
    pub c0: i64,
    /// Second channel of a stereo frame.
    pub c1: i64,
}

impl Frame {
    /// The frame at rest: every channel at equilibrium.
    pub fn equilibrium() -> (r: Frame)
        ensures
            r == (Frame { c0: 0i64, c1: 0i64 }),
    {
        Frame { c0: 0, c1: 0 }
    }
}

/// Linear interpolation of one channel at fractional position
/// `num / den`: starts at `a` and ramps toward `b`, truncating toward
/// zero as float-to-int conversion would.
pub open spec fn spec_lerp(a: i64, b: i64, num: int, den: int) -> i64 {
    sat_i64(a + tdiv((b - a) * num, den))
}

/// Interpolate one channel linearly at position `num / den`.
pub fn lerp(a: i64, b: i64, num: u64, den: u64) -> (r: i64)
    requires
        1 <= den <= 0xFFFF_FFFF,
        num < den,
    ensures
        r == spec_lerp(a, b, num as int, den as int),
{
    let diff: i128 = b as i128 - a as i128;
    proof {
        assert(-0x1_0000_0000_0000_0000_0000_0000int <= (diff as int) * (num as int)
            && (diff as int) * (num as int) <= 0x1_0000_0000_0000_0000_0000_0000int)
            by (nonlinear_arith)
            requires -0x1_0000_0000_0000_0000int <= (diff as int)
                && (diff as int) <= 0x1_0000_0000_0000_0000int && 0 <= (num as int)
                && (num as int) < 0x1_0000_0000int;
    }
    let prod: i128 = diff * num as i128;
    let q: i128 = div_toward_zero_i128(prod, den);
    let s: i128 = a as i128 + q;
    if s > i64::MAX as i128 {
        i64::MAX
    } else if s < i64::MIN as i128 {
        i64::MIN
    } else {
        s as i64
    }
}

/// Law: linear interpolation between two equal samples yields that
/// sample exactly, at every fractional position. A constant-amplitude
/// signal therefore passes through the linear resampling kernel
/// unchanged, whatever rates it is converted between.
pub proof fn lemma_lerp_constant(a: i64, num: int, den: int)
    requires
        0 <= num,
        1 <= den,
    ensures
        spec_lerp(a, a, num, den) == a,
{
    assert((a - a) * num == 0) by (nonlinear_arith);
    assert(tdiv(0, den) == 0) by {
        vstd::arithmetic::div_mod::lemma_div_of0(den);
    }
}

/// The state of the two-point linear interpolator: the frame being
/// left and the frame being approached.
#[derive(Copy, Clone, PartialEq, Eq, Structural, Debug)]
pub struct LinearState {
    /// The frame at position zero.
    pub left: Frame,
    /// The frame at position one.
    pub right: Frame,
}

impl LinearState {
    /// Seed the interpolator from the first two frames of the source.
    pub fn new(left: Frame, right: Frame) -> (r: LinearState)
        ensures
            r.left == left && r.right == right,
    {
        LinearState { left, right }
    }

    /// Step one source frame forward: the approached frame becomes
    /// the one being left.
    pub fn push(&mut self, f: Frame)
        ensures
            final(self).left == old(self).right,
            final(self).right == f,
    {
        self.left = self.right;
        self.right = f;
    }

    /// The frame at fractional position `num / den` between the two
    /// retained frames, channel by channel.
    pub open spec fn spec_interpolate(self, num: int, den: int) -> Frame {
        Frame {
            c0: spec_lerp(self.left.c0, self.right.c0, num, den),
            c1: spec_lerp(self.left.c1, self.right.c1, num, den),
        }
    }

    /// Interpolate at fractional position `num / den`.
    pub fn interpolate(&self, num: u64, den: u64) -> (r: Frame)
        requires
            1 <= den <= 0xFFFF_FFFF,
            num < den,
        ensures
            r == self.spec_interpolate(num as int, den as int),
    {
        Frame {
            c0: lerp(self.left.c0, self.right.c0, num, den),
            c1: lerp(self.left.c1, self.right.c1, num, den),
        }
    }
}

/// The sine of `pi * x` for `x` given in Q16, itself in Q16, by the
/// rational approximation `16 x (1 - x) / (5 - 4 x (1 - x))`.
pub open spec fn spec_sin_pi_q16(x: int) -> int {
    let u = x * (65536 - x) / 65536;
    16 * u * 65536 / (5 * 65536 - 4 * u)
}

/// Compute the Q16 sine approximation; the result never exceeds one.
pub fn sin_pi_q16(x: u64) -> (r: u64)
    requires
        x < 65536,
    ensures
        r == spec_sin_pi_q16(x as int),
        r <= 65536,
{
    proof {
        assert(x as int * (65536int - x as int) <= 16384int * 65536int) by (nonlinear_arith)
            requires 0 <= (x as int) && (x as int) < 65536int;
        lemma_div_bound(x as int * (65536int - x as int), 65536int, 16384int);
    }
    let u: u64 = x * (65536 - x) / 65536;
    let num: u64 = 16 * u * 65536;
    let den: u64 = 5 * 65536 - 4 * u;
    proof {
        assert(num as int <= 65536int * den as int) by (nonlinear_arith)
            requires 0 <= u as int <= 16384int && num as int == 16int * u as int * 65536int
                && den as int == 5int * 65536int - 4int * u as int;
        lemma_div_bound(num as int, den as int, 65536int);
    }
    num / den
}

/// The Q16 weight of the ring frame `m` taps from the centre when the
/// fractional position is `frac_q` (Q16): the product of the sinc
/// kernel (computed from one sine evaluation, clamped to one) and a
/// parabolic window that fades to zero at half the ring width.
pub open spec fn spec_tap_weight(m: int, frac_q: int) -> int {
    let d = m * 65536 - frac_q;
    let dabs: int = if d < 0 {
        -d
    } else {
        d
    };
    if dabs >= 3276800 {
        0
    } else if d == 0 {
        65536
    } else {
        let sinq = spec_sin_pi_q16(frac_q);
        let denq0 = 205887 * dabs / 65536;
        let denq: int = if denq0 < 1 {
            1
        } else {
            denq0
        };
        let mag0 = sinq * 65536 / denq;
        let mag: int = if mag0 > 65536 {
            65536
        } else {
            mag0
        };
        let win = 65536 - dabs * dabs / 3276800 * 65536 / 3276800;
        let w = mag * win / 65536;
        if (if m >= 1 {
            m % 2 == 1
        } else {
            m % 2 == 0
        }) {
            w
        } else {
            -w
        }
    }
}

/// Compute the signed Q16 tap weight; its magnitude never exceeds one.
pub fn tap_weight(m: i64, frac_q: u64) -> (r: i64)
    requires
        -100 <= m <= 100,
        frac_q < 65536,
    ensures
        r == spec_tap_weight(m as int, frac_q as int),
        -65536 <= r <= 65536,
{
    let d: i64 = m * 65536 - frac_q as i64;
    let dabs: u64 = if d < 0 {
        (-d) as u64
    } else {
        d as u64
    };
    if dabs >= 3276800 {
        return 0;
    }
    if d == 0 {
        return 65536;
    }
    let sinq: u64 = sin_pi_q16(frac_q);
    let denq0: u64 = 205887 * dabs / 65536;
    let denq: u64 = if denq0 < 1 {
        1
    } else {
        denq0
    };
    let magnum: u64 = sinq * 65536;
    let mag0: u64 = magnum / denq;
    let mag: u64 = if mag0 > 65536 {
        65536
    } else {
        mag0
    };
    proof {
        assert(dabs as int * dabs as int <= 3276800int * 3276800int) by (nonlinear_arith)
            requires 0 <= (dabs as int) && (dabs as int) < 3276800int;
        lemma_div_bound(dabs as int * dabs as int, 3276800int, 3276800int);
        assert(dabs as int * dabs as int / 3276800int * 65536int <= 65536int * 3276800int)
            by (nonlinear_arith)
            requires 0 <= dabs as int * dabs as int / 3276800int <= 3276800int;
        lemma_div_bound(dabs as int * dabs as int / 3276800int * 65536int, 3276800int, 65536int);
    }
    let win: u64 = 65536 - dabs * dabs / 3276800 * 65536 / 3276800;
    proof {
        assert(mag as int * win as int <= 65536int * 65536int) by (nonlinear_arith)
            requires 0 <= mag as int <= 65536int && 0 <= win as int <= 65536int;
        lemma_div_bound(mag as int * win as int, 65536int, 65536int);
    }
    let w: u64 = mag * win / 65536;
    let positive: bool = if m >= 1 {
        m % 2 == 1
    } else {
        (-m) % 2 == 0
    };
    proof {
        if m < 1 {
            assert(((-m) % 2 == 0) == (m as int % 2 == 0));
        }
    }
    if positive {
        w as i64
    } else {
        -(w as i64)
    }
}

/// The state of the windowed-sinc interpolator: a fixed-size ring of
/// the most recent source frames and the index of its centre.
pub struct SincState {
    /// The retained frames, oldest first.
    pub ring: Vec<Frame>,
    /// The centre tap: grows as frames arrive, then saturates at half
    /// the ring.
    pub idx: usize,
}

impl SincState {
    /// The ring always holds exactly `SINC_BUFFER_SIZE` frames and
    /// the centre stays in the first half.
    pub open spec fn wf(self) -> bool {
        &&& self.ring@.len() == SINC_BUFFER_SIZE
        &&& self.idx <= SINC_BUFFER_SIZE / 2
    }

    /// A ring full of equilibrium frames.
    pub fn new() -> (r: SincState)
        ensures
            r.wf(),
            r.ring@ == Seq::new(SINC_BUFFER_SIZE as nat, |i: int| Frame { c0: 0i64, c1: 0i64 }),
            r.idx == 0,
    {
        let mut ring: Vec<Frame> = Vec::new();
        let mut i: usize = 0;
        while i < SINC_BUFFER_SIZE
            invariant
                i <= SINC_BUFFER_SIZE,
                ring@.len() == i,
                forall|k: int| 0 <= k < i ==> ring@[k] == (Frame { c0: 0i64, c1: 0i64 }),
            decreases SINC_BUFFER_SIZE - i,
        {
            ring.push(Frame { c0: 0, c1: 0 });
            i = i + 1;
        }
        proof {
            assert(ring@ =~= Seq::new(SINC_BUFFER_SIZE as nat, |i: int| Frame {
                c0: 0i64,
                c1: 0i64,
            }));
        }
        SincState { ring, idx: 0 }
    }

    /// Step one source frame forward: the oldest frame leaves the
    /// ring, the new one enters at its end, and the centre advances
    /// until it reaches half the ring.
    pub fn push(&mut self, f: Frame)
        requires
            old(self).wf(),
        ensures
            final(self).wf(),
            final(self).ring@ == old(self).ring@.skip(1).push(f),
            final(self).idx == if old(self).idx < SINC_BUFFER_SIZE / 2 {
                old(self).idx + 1
            } else {
                old(self).idx as int
            },
    {
        self.ring.remove(0);
        self.ring.push(f);
        if self.idx < SINC_BUFFER_SIZE / 2 {
            self.idx = self.idx + 1;
        }
        proof {
            assert(self.ring@ =~= old(self).ring@.skip(1).push(f));
        }
    }

    /// The weighted sum of the first `n` ring frames' first channels.
    pub open spec fn spec_acc0(frames: Seq<Frame>, idx: int, frac_q: int, n: int) -> int
        decreases n,
    {
        if n <= 0 {
            0
        } else {
            Self::spec_acc0(frames, idx, frac_q, n - 1) + frames[n - 1].c0 * spec_tap_weight(
                n - 1 - idx,
                frac_q,
            )
        }
    }

    /// The weighted sum of the first `n` ring frames' second channels.
    pub open spec fn spec_acc1(frames: Seq<Frame>, idx: int, frac_q: int, n: int) -> int
        decreases n,
    {
        if n <= 0 {
            0
        } else {
            Self::spec_acc1(frames, idx, frac_q, n - 1) + frames[n - 1].c1 * spec_tap_weight(
                n - 1 - idx,
                frac_q,
            )
        }
    }

    /// The interpolated frame at fractional position `frac_q` (Q16):
    /// each channel is the windowed-sinc weighted sum over the whole
    /// ring, scaled back from Q16 and saturated.
    pub open spec fn spec_interpolate(self, frac_q: int) -> Frame {
        Frame {
            c0: sat_i64(
                tdiv(
                    Self::spec_acc0(self.ring@, self.idx as int, frac_q, self.ring@.len() as int),
                    65536,
                ),
            ),
            c1: sat_i64(
                tdiv(
                    Self::spec_acc1(self.ring@, self.idx as int, frac_q, self.ring@.len() as int),
                    65536,
                ),
            ),
        }
    }

    /// Interpolate at fractional position `num / den`, carried to Q16.
    pub fn interpolate(&self, num: u64, den: u64) -> (r: Frame)
        requires
            self.wf(),
            1 <= den <= 0xFFFF_FFFF,
            num < den,
        ensures
            r == self.spec_interpolate(num as int * 65536 / (den as int)),
    {
        let frac_q: u64 = num * 65536 / den;
        proof {
            assert(num as int * 65536int <= 65536int * den as int) by (nonlinear_arith)
                requires (num as int) < (den as int);
            lemma_div_bound(num as int * 65536int, den as int, 65536int);
            assert(num as int * 65536int / (den as int) < 65536int) by {
                if num as int * 65536int / den as int == 65536int {
                    vstd::arithmetic::div_mod::lemma_fundamental_div_mod(
                        num as int * 65536int,
                        den as int,
                    );
                    vstd::arithmetic::div_mod::lemma_mod_bound(
                        num as int * 65536int,
                        den as int,
                    );
                    assert(false) by (nonlinear_arith)
                        requires (num as int) < (den as int) && num as int * 65536int == den as int
                            * (num as int * 65536int / (den as int)) + (num as int * 65536int) % (
                        den as int) && num as int * 65536int / (den as int) == 65536int && 0 <= (
                        num as int * 65536int) % (den as int) && (num as int * 65536int) % (
                        den as int) < (den as int);
                }
            }
        }
        let mut acc0: i128 = 0;
        let mut acc1: i128 = 0;
        let mut n: usize = 0;
        while n < SINC_BUFFER_SIZE
            invariant
                self.wf(),
                n <= SINC_BUFFER_SIZE,
                frac_q < 65536,
                acc0 == Self::spec_acc0(self.ring@, self.idx as int, frac_q as int, n as int),
                acc1 == Self::spec_acc1(self.ring@, self.idx as int, frac_q as int, n as int),
                -0x1_0000_0000_0000_0000_0000 * (n as i128) <= acc0 <= 0x1_0000_0000_0000_0000_0000
                    * (n as i128),
                -0x1_0000_0000_0000_0000_0000 * (n as i128) <= acc1 <= 0x1_0000_0000_0000_0000_0000
                    * (n as i128),
            decreases SINC_BUFFER_SIZE - n,
        {
            let f = self.ring[n];
            let m: i64 = n as i64 - self.idx as i64;
            let w: i64 = tap_weight(m, frac_q);
            proof {
                assert(-0x1_0000_0000_0000_0000_0000int <= (f.c0 as int) * (w as int)
                    && (f.c0 as int) * (w as int) <= 0x1_0000_0000_0000_0000_0000int)
                    by (nonlinear_arith)
                    requires -0x8000_0000_0000_0000int <= (f.c0 as int)
                        && (f.c0 as int) <= 0x8000_0000_0000_0000int && -65536 <= (w as int)
                        && (w as int) <= 65536;
                assert(-0x1_0000_0000_0000_0000_0000int <= (f.c1 as int) * (w as int)
                    && (f.c1 as int) * (w as int) <= 0x1_0000_0000_0000_0000_0000int)
                    by (nonlinear_arith)
                    requires -0x8000_0000_0000_0000int <= (f.c1 as int)
                        && (f.c1 as int) <= 0x8000_0000_0000_0000int && -65536 <= (w as int)
                        && (w as int) <= 65536;
            }
            let t0: i128 = f.c0 as i128 * w as i128;
            let t1: i128 = f.c1 as i128 * w as i128;
            acc0 = acc0 + t0;
            acc1 = acc1 + t1;
            n = n + 1;
        }
        let q0: i128 = div_toward_zero_i128(acc0, 65536);
        let q1: i128 = div_toward_zero_i128(acc1, 65536);
        Frame { c0: sat_i64_exec(q0), c1: sat_i64_exec(q1) }
    }
}

/// At fractional position zero only the centre tap carries weight:
/// the sine of zero vanishes, taking every off-centre sinc value
/// with it.
proof fn lemma_tap_weight_at_zero(m: int)
    ensures
        spec_tap_weight(m, 0) == if m == 0 {
            65536int
        } else {
            0int
        },
{
    if m != 0 {
        let d = m * 65536;
        let dabs: int = if d < 0 {
            -d
        } else {
            d
        };
        if dabs < 3276800 {
            assert(spec_sin_pi_q16(0) == 0) by {
                vstd::arithmetic::div_mod::lemma_div_of0(65536);
                vstd::arithmetic::div_mod::lemma_div_of0(5 * 65536 - 4 * 0);
            }
            let denq0 = 205887 * dabs / 65536;
            let denq: int = if denq0 < 1 {
                1
            } else {
                denq0
            };
            vstd::arithmetic::div_mod::lemma_div_of0(denq);
            vstd::arithmetic::div_mod::lemma_div_of0(65536);
        }
    }
}

/// The weighted sums of the first `n` taps at position zero: nothing
/// until the centre tap enters, the centre frame scaled by one after.
proof fn lemma_sinc_acc_at_zero(frames: Seq<Frame>, idx: int, n: int)
    requires
        0 <= idx,
    ensures
        SincState::spec_acc0(frames, idx, 0, n) == if n > idx {
            frames[idx].c0 * 65536
        } else {
            0int
        },
        SincState::spec_acc1(frames, idx, 0, n) == if n > idx {
            frames[idx].c1 * 65536
        } else {
            0int
        },
    decreases n,
{
    if n > 0 {
        lemma_sinc_acc_at_zero(frames, idx, n - 1);
        lemma_tap_weight_at_zero(n - 1 - idx);
        if n - 1 != idx {
            assert(frames[n - 1].c0 * spec_tap_weight(n - 1 - idx, 0) == 0);
            assert(frames[n - 1].c1 * spec_tap_weight(n - 1 - idx, 0) == 0);
        }
    }
}

/// Law: the windowed-sinc kernel is exact at whole positions — at
/// fractional position zero it reproduces the centre frame of its
/// ring unchanged. A rate conversion whose ratio keeps the position
/// on whole frames (halving the rate, for instance) therefore passes
/// the retained frames through exactly.
pub proof fn lemma_sinc_exact_at_whole_position(st: SincState)
    requires
        st.wf(),
    ensures
        st.spec_interpolate(0) == st.ring@[st.idx as int],
{
    lemma_sinc_acc_at_zero(st.ring@, st.idx as int, st.ring@.len() as int);
    let c0 = st.ring@[st.idx as int].c0;
    let c1 = st.ring@[st.idx as int].c1;
    assert(tdiv(c0 * 65536, 65536) == c0) by {
        vstd::arithmetic::div_mod::lemma_div_multiples_vanish(c0 as int, 65536);
        if c0 < 0 {
            assert(-(c0 * 65536) == (-c0) * 65536) by (nonlinear_arith);
            vstd::arithmetic::div_mod::lemma_div_multiples_vanish(-c0 as int, 65536);
        }
    }
    assert(tdiv(c1 * 65536, 65536) == c1) by {
        vstd::arithmetic::div_mod::lemma_div_multiples_vanish(c1 as int, 65536);
        if c1 < 0 {
            assert(-(c1 * 65536) == (-c1) * 65536) by (nonlinear_arith);
            vstd::arithmetic::div_mod::lemma_div_multiples_vanish(-c1 as int, 65536);
        }
    }
}

/// The interpolator a resampler runs: the build-time quality flag
/// picks between them.
pub enum InterpState {
    /// Two-point linear interpolation.
    Linear(LinearState),
    /// Windowed-sinc interpolation over the fixed ring.
    Sinc(SincState),
}

impl InterpState {
    /// The sinc ring, when present, is full-sized.
    pub open spec fn wf(self) -> bool {
        match self {
            InterpState::Linear(_) => true,
            InterpState::Sinc(s) => s.wf(),
        }
    }
}

/// The frame an interpolator emits at fractional position
/// `num / den`, whichever algorithm it runs.
pub open spec fn spec_interp_frame(i: InterpState, num: int, den: int) -> Frame {
    match i {
        InterpState::Linear(st) => st.spec_interpolate(num, den),
        InterpState::Sinc(st) => st.spec_interpolate(num * 65536 / den),
    }
}

/// Saturate a wide value into the `i64` range.
fn sat_i64_exec(v: i128) -> (r: i64)
    ensures
        r == sat_i64(v as int),
{
    if v > i64::MAX as i128 {
        i64::MAX
    } else if v < i64::MIN as i128 {
        i64::MIN
    } else {
        v as i64
    }
}

} // verus!
