use vstd::prelude::*;

use crate::fixed::{floor_div, lemma_mul_div_cancel, saturate_i32, UNITY};
use crate::frame::{sat, Frame};

verus! {

/// The 4-point, 3rd-order Hermite curve through `p, c, n, q` at the
/// fixed-point fraction `t` between `c` and `n`, rounded down.
///
/// The coefficients are doubled so that they stay integral:
/// `c0 = c`, `c1 = (n - p) / 2`, `c2 = p - 5c/2 + 2n - q/2`,
/// `c3 = (q - p) / 2 + 3 (c - n) / 2`.
pub open spec fn hermite(p: int, c: int, n: int, q: int, t: int) -> int {
    let u = UNITY as int;
    let d0 = 2 * c;
    let d1 = n - p;
    let d2 = 2 * p - 5 * c + 4 * n - q;
    let d3 = q - p + 3 * (c - n);
    (((d3 * t + d2 * u) * t + d1 * u * u) * t + d0 * u * u * u) / (2 * u * u * u)
}

/// The interpolated frame between `c` and `n`, each channel saturated.
pub open spec fn hermite_frame(p: Frame, c: Frame, n: Frame, q: Frame, t: int) -> Frame {
    Frame {
        left: sat(hermite(p.left as int, c.left as int, n.left as int, q.left as int, t)),
        right: sat(hermite(p.right as int, c.right as int, n.right as int, q.right as int, t)),
    }
}

fn hermite_channel(p: i32, c: i32, n: i32, q: i32, t: i64) -> (r: i32)
    requires
        0 <= t <= UNITY,
    ensures
        r == sat(hermite(p as int, c as int, n as int, q as int, t as int)),
{
    let u: i128 = UNITY as i128;
    let (pw, cw, nw, qw) = (p as i128, c as i128, n as i128, q as i128);
    let tw: i128 = t as i128;
    let d0: i128 = 2 * cw;
    let d1: i128 = nw - pw;
    let d2: i128 = 2 * pw - 5 * cw + 4 * nw - qw;
    let d3: i128 = qw - pw + 3 * (cw - nw);
    proof {
        assert(-0x40_0000_0000_0000 <= d3 * tw <= 0x40_0000_0000_0000) by (nonlinear_arith)
            requires
                -0x4_0000_0000 <= d3 <= 0x4_0000_0000,
                0 <= tw <= 0x10000,
        ;
        assert(-0x10_0000_0000_0000 <= d2 * u <= 0x10_0000_0000_0000) by (nonlinear_arith)
            requires
                -0x10_0000_0000 <= d2 <= 0x10_0000_0000,
                u == 0x10000,
        ;
    }
    let a1: i128 = d3 * tw + d2 * u;
    proof {
        assert(-0x100_0000_0000_0000_0000 <= a1 * tw <= 0x100_0000_0000_0000_0000)
            by (nonlinear_arith)
            requires
                -0x100_0000_0000_0000 <= a1 <= 0x100_0000_0000_0000,
                0 <= tw <= 0x10000,
        ;
        assert(-0x10_0000_0000_0000_0000 <= d1 * u * u <= 0x10_0000_0000_0000_0000)
            by (nonlinear_arith)
            requires
                -0x10_0000_0000 <= d1 <= 0x10_0000_0000,
                u == 0x10000,
        ;
    }
    let a2: i128 = a1 * tw + d1 * u * u;
    proof {
        assert(-0x1_0000_0000_0000_0000_0000_0000 <= a2 * tw <= 0x1_0000_0000_0000_0000_0000_0000)
            by (nonlinear_arith)
            requires
                -0x1000_0000_0000_0000_0000 <= a2 <= 0x1000_0000_0000_0000_0000,
                0 <= tw <= 0x10000,
        ;
        assert(-0x10_0000_0000_0000_0000_0000 <= d0 * u * u * u <= 0x10_0000_0000_0000_0000_0000)
            by (nonlinear_arith)
            requires
                -0x10_0000_0000 <= d0 <= 0x10_0000_0000,
                u == 0x10000,
        ;
    }
    let a3: i128 = a2 * tw + d0 * u * u * u;
    saturate_i32(floor_div(a3, 2 * u * u * u))
}

/// The 4-point, 3rd-order Hermite interpolation between `current` and
/// `next` at the fixed-point fraction `fraction`, channel by channel.
pub fn interpolate_frame(
    previous: Frame,
    current: Frame,
    next: Frame,
    next_next: Frame,
    fraction: i64,
) -> (r: Frame)
    requires
        0 <= fraction <= UNITY,
    ensures
        r == hermite_frame(previous, current, next, next_next, fraction as int),
{
    Frame {
        left: hermite_channel(previous.left, current.left, next.left, next_next.left, fraction),
        right: hermite_channel(
            previous.right,
            current.right,
            next.right,
            next_next.right,
            fraction,
        ),
    }
}

/// At fraction zero the curve is at its second point; at fraction one, at its third.
pub proof fn lemma_hermite_ends(p: int, c: int, n: int, q: int)
    ensures
        hermite(p, c, n, q, 0) == c,
        hermite(p, c, n, q, UNITY as int) == n,
{
    let u = UNITY as int;
    let d0 = 2 * c;
    let d1 = n - p;
    let d2 = 2 * p - 5 * c + 4 * n - q;
    let d3 = q - p + 3 * (c - n);
    let k = 2 * u * u * u;
    assert(((d3 * 0 + d2 * u) * 0 + d1 * u * u) * 0 + d0 * u * u * u == c * k) by (nonlinear_arith)
        requires
            d0 == 2 * c,
            k == 2 * u * u * u,
    ;
    assert(((d3 * u + d2 * u) * u + d1 * u * u) * u + d0 * u * u * u == (d3 + d2 + d1 + d0) * (u
        * u * u)) by (nonlinear_arith);
    assert(d3 + d2 + d1 + d0 == 2 * n);
    assert((2 * n) * (u * u * u) == n * k) by (nonlinear_arith)
        requires
            k == 2 * u * u * u,
    ;
    lemma_mul_div_cancel(c, k);
    lemma_mul_div_cancel(n, k);
}

/// A frame in the resampler's window, with the source index it was pushed at.
#[derive(Clone, Copy, Debug, PartialEq, Eq, Structural)]
pub struct ResamplerFrame {
    /// The frame.
    pub frame: Frame,
    /// The source index at the time the frame was pushed.
    pub index: usize,
}

/// A sliding window over the four most recently pushed frames, in arrival
/// order: previous, current, next, next-next. Output is interpolated between
/// current and next.
#[derive(Clone, Copy, Debug, PartialEq, Eq, Structural)]
pub struct Resampler {
    previous: ResamplerFrame,
    current: ResamplerFrame,
    next: ResamplerFrame,
    next_next: ResamplerFrame,
}

impl Resampler {
    /// The window, oldest first.
    pub closed spec fn window(self) -> Seq<ResamplerFrame> {
        seq![self.previous, self.current, self.next, self.next_next]
    }

    /// The frame interpolated at fraction `t`.
    pub open spec fn value_at(self, t: int) -> Frame {
        hermite_frame(
            self.window()[0].frame,
            self.window()[1].frame,
            self.window()[2].frame,
            self.window()[3].frame,
            t,
        )
    }

    /// The resampler after pushing `f`.
    pub closed spec fn pushed(self, f: ResamplerFrame) -> Resampler {
        Resampler { previous: self.current, current: self.next, next: self.next_next, next_next: f }
    }

    /// Whether all four window frames are silent.
    pub open spec fn silent(self) -> bool {
        forall|i: int| 0 <= i < 4 ==> #[trigger] self.window()[i].frame == Frame::silent()
    }

    /// The resampler whose window holds silence tagged with `starting_index`.
    pub closed spec fn fresh(starting_index: usize) -> Resampler {
        let f = ResamplerFrame { frame: Frame::silent(), index: starting_index };
        Resampler { previous: f, current: f, next: f, next_next: f }
    }

    /// A resampler whose window holds silence tagged with `starting_index`.
    pub fn new(starting_index: usize) -> (r: Resampler)
        ensures
            r == Resampler::fresh(starting_index),
            r.window() == seq![
                ResamplerFrame { frame: Frame::silent(), index: starting_index },
                ResamplerFrame { frame: Frame::silent(), index: starting_index },
                ResamplerFrame { frame: Frame::silent(), index: starting_index },
                ResamplerFrame { frame: Frame::silent(), index: starting_index },
            ],
    {
        let f = ResamplerFrame { frame: Frame::zero(), index: starting_index };
        Resampler { previous: f, current: f, next: f, next_next: f }
    }

    /// Shifts the window by one and appends `frame`, tagged with `frame_index`.
    pub fn push_frame(&mut self, frame: Frame, frame_index: usize)
        ensures
            *final(self) == old(self).pushed(ResamplerFrame { frame, index: frame_index }),
            final(self).window() == old(self).window().drop_first().push(
                ResamplerFrame { frame, index: frame_index },
            ),
    {
        self.previous = self.current;
        self.current = self.next;
        self.next = self.next_next;
        self.next_next = ResamplerFrame { frame, index: frame_index };
        proof {
            assert(final(self).window() =~= old(self).window().drop_first().push(
                ResamplerFrame { frame, index: frame_index },
            ));
        }
    }

    /// The frame interpolated at the fixed-point fraction `fraction` between
    /// the current and the next frame.
    pub fn get(&self, fraction: i64) -> (r: Frame)
        requires
            0 <= fraction <= UNITY,
        ensures
            r == self.value_at(fraction as int),
    {
        interpolate_frame(
            self.previous.frame,
            self.current.frame,
            self.next.frame,
            self.next_next.frame,
            fraction,
        )
    }

    /// The source index of the current frame, the one being played.
    pub fn current_frame_index(&self) -> (r: usize)
        ensures
            r == self.window()[1].index,
    {
        self.current.index
    }

    /// Whether the window holds only silence.
    pub fn outputting_silence(&self) -> (r: bool)
        ensures
            r == self.silent(),
    {
        let z = Frame::zero();
        let r = self.previous.frame == z && self.current.frame == z && self.next.frame == z
            && self.next_next.frame == z;
        proof {
            if !r {
                if self.previous.frame != z {
                    assert(self.window()[0].frame != Frame::silent());
                } else if self.current.frame != z {
                    assert(self.window()[1].frame != Frame::silent());
                } else if self.next.frame != z {
                    assert(self.window()[2].frame != Frame::silent());
                } else {
                    assert(self.window()[3].frame != Frame::silent());
                }
            }
        }
        r
    }
}

/// The resampler after pushing `pushes` in order.
pub open spec fn push_all(r: Resampler, pushes: Seq<ResamplerFrame>) -> Resampler
    decreases pushes.len(),
{
    if pushes.len() == 0 {
        r
    } else {
        push_all(r, pushes.drop_last()).pushed(pushes.last())
    }
}

/// After at least four pushes the window is exactly the last four pushed
/// frames, so the resampler outputs silence if and only if those four frames
/// are silent, whatever came before.
pub proof fn lemma_silence_after_pushes(r: Resampler, pushes: Seq<ResamplerFrame>)
    requires
        pushes.len() >= 4,
    ensures
        push_all(r, pushes).window() == pushes.subrange(pushes.len() - 4, pushes.len() as int),
        push_all(r, pushes).silent() <==> (forall|i: int|
            pushes.len() - 4 <= i < pushes.len() ==> #[trigger] pushes[i].frame
                == Frame::silent()),
    decreases pushes.len(),
{
    let n = pushes.len() as int;
    let w = push_all(r, pushes).window();
    if n == 4 {
        let three = pushes.drop_last();
        let two = three.drop_last();
        let one = two.drop_last();
        let none = one.drop_last();
        assert(none.len() == 0);
        assert(push_all(r, none) == r);
        assert(push_all(r, one) == r.pushed(pushes[0]));
        assert(push_all(r, two) == r.pushed(pushes[0]).pushed(pushes[1]));
        assert(push_all(r, three) == r.pushed(pushes[0]).pushed(pushes[1]).pushed(pushes[2]));
        assert(w =~= pushes.subrange(0, 4));
    } else {
        lemma_silence_after_pushes(r, pushes.drop_last());
        assert(w =~= pushes.subrange(n - 4, n));
    }
    let tail = pushes.subrange(n - 4, n);
    if push_all(r, pushes).silent() {
        assert forall|i: int| n - 4 <= i < n implies #[trigger] pushes[i].frame
            == Frame::silent() by {
            assert(w[i - (n - 4)] == pushes[i]);
        }
    }
    if forall|i: int| n - 4 <= i < n ==> #[trigger] pushes[i].frame == Frame::silent() {
        assert forall|i: int| 0 <= i < 4 implies #[trigger] w[i].frame == Frame::silent() by {
            assert(w[i] == pushes[i + n - 4]);
        }
    }
}

/// Pushing a frame shifts the window by one and appends the frame.
pub proof fn lemma_pushed_window(r: Resampler, f: ResamplerFrame)
    ensures
        r.pushed(f).window() == r.window().drop_first().push(f),
        r.pushed(f).window()[3] == f,
{
    assert(r.pushed(f).window() =~= r.window().drop_first().push(f));
}

/// Interpolating at fraction zero gives the current frame exactly; at
/// fraction one, the next frame exactly.
pub proof fn lemma_get_ends(r: Resampler)
    ensures
        r.window()[1].frame == r.value_at(0),
        r.window()[2].frame == r.value_at(UNITY as int),
{
    let w = r.window();
    lemma_hermite_ends(w[0].frame.left as int, w[1].frame.left as int, w[2].frame.left as int, w[3].frame.left as int);
    lemma_hermite_ends(w[0].frame.right as int, w[1].frame.right as int, w[2].frame.right as int, w[3].frame.right as int);
}

} // verus!
