//! Plain lines, stepped with an integer error term.

use vstd::prelude::*;
use vstd::arithmetic::div_mod::lemma_fundamental_div_mod_converse;
use crate::renderer::fixed::Point2;
use crate::renderer::frame::{lemma_plot_all_step, plot_all, Frame, Sample};

verus! {

/// Chroma of a plain line.
pub const LINE_CHROMA: u8 = 127;

/// Luma of a plain line.
pub const LINE_LUMA: u8 = 255;

/// Alpha of a plain line.
pub const LINE_ALPHA: u8 = 255;

/// How far a plain line has moved on its minor axis after `k` steps on its
/// major axis, where the whole line makes `len` steps on the major axis and
/// covers `minor` pixels on the minor axis: `k * minor / len` rounded to the
/// nearest integer, a half rounding down. A line that is handed over with the
/// wrong major axis moves one pixel at every step.
pub open spec fn line_offset(k: int, len: int, minor: int) -> int {
    if minor > len {
        k
    } else {
        (2 * minor * k + len - 1) / (2 * len)
    }
}

/// The write of a plain line at `major` on its major axis and `minor` on its
/// minor axis. The major axis is `y` where `steep` holds, else `x`.
pub open spec fn line_sample(major: int, minor: int, steep: bool) -> Sample {
    Sample {
        x: if steep { minor } else { major },
        y: if steep { major } else { minor },
        u: 127,
        v: 127,
        luma: 255,
        alpha: 255,
    }
}

/// The writes of a plain line that starts at `(major0, minor0)` and makes
/// `len` steps on the major axis, the end point left out.
pub open spec fn run_samples(
    major0: int,
    minor0: int,
    len: int,
    minor: int,
    backwards: bool,
    steep: bool,
) -> Seq<Sample> {
    Seq::new(
        if len > 0 { len as nat } else { 0 },
        |k: int|
            line_sample(
                major0 + k,
                if backwards {
                    minor0 - line_offset(k, len, minor)
                } else {
                    minor0 + line_offset(k, len, minor)
                },
                steep,
            ),
    )
}

/// The writes of a plain line from `p0` to `p1` with `x` as major axis.
pub open spec fn low_samples(p0: Point2, p1: Point2) -> Seq<Sample> {
    let dy = p1.spec_pixel_y() - p0.spec_pixel_y();
    run_samples(
        p0.spec_pixel_x(),
        p0.spec_pixel_y(),
        p1.spec_pixel_x() - p0.spec_pixel_x(),
        if dy < 0 { -dy } else { dy },
        dy < 0,
        false,
    )
}

/// The writes of a plain line from `p0` to `p1` with `y` as major axis.
pub open spec fn high_samples(p0: Point2, p1: Point2) -> Seq<Sample> {
    let dx = p1.spec_pixel_x() - p0.spec_pixel_x();
    run_samples(
        p0.spec_pixel_y(),
        p0.spec_pixel_x(),
        p1.spec_pixel_y() - p0.spec_pixel_y(),
        if dx < 0 { -dx } else { dx },
        dx < 0,
        true,
    )
}

/// The writes of a plain line between `p0` and `p1`: the major axis is the
/// one on which the two pixels are further apart (`y` when they are equally
/// far), and the line runs from the lower to the higher coordinate on it.
pub open spec fn line_samples(p0: Point2, p1: Point2) -> Seq<Sample> {
    let dx = p1.spec_pixel_x() - p0.spec_pixel_x();
    let dy = p1.spec_pixel_y() - p0.spec_pixel_y();
    if (if dy < 0 { -dy } else { dy }) < (if dx < 0 { -dx } else { dx }) {
        if dx < 0 {
            low_samples(p1, p0)
        } else {
            low_samples(p0, p1)
        }
    } else {
        if dy < 0 {
            high_samples(p1, p0)
        } else {
            high_samples(p0, p1)
        }
    }
}

impl Frame {
    /// Draws a plain line between the pixels that hold `p0` and `p1`, the
    /// pixel of the end with the higher major coordinate left out.
    pub fn draw_line(&mut self, p0: Point2, p1: Point2)
        ensures
            final(self).spec_width() == old(self).spec_width(),
            final(self).spec_height() == old(self).spec_height(),
            final(self)@ == plot_all(
                old(self)@,
                old(self).spec_width(),
                old(self).spec_height(),
                line_samples(p0, p1),
            ),
    {
        let dx: i64 = p1.pixel_x() as i64 - p0.pixel_x() as i64;
        let dy: i64 = p1.pixel_y() as i64 - p0.pixel_y() as i64;
        let adx: i64 = if dx < 0 { -dx } else { dx };
        let ady: i64 = if dy < 0 { -dy } else { dy };
        if ady < adx {
            if dx < 0 {
                self.draw_line_low(p1, p0);
            } else {
                self.draw_line_low(p0, p1);
            }
        } else {
            if dy < 0 {
                self.draw_line_high(p1, p0);
            } else {
                self.draw_line_high(p0, p1);
            }
        }
    }

    /// Draws a plain line from `p0` to `p1` that steps along `x`. Nothing is
    /// drawn unless `p1` lies to the right of `p0`.
    pub fn draw_line_low(&mut self, p0: Point2, p1: Point2)
        ensures
            final(self).spec_width() == old(self).spec_width(),
            final(self).spec_height() == old(self).spec_height(),
            final(self)@ == plot_all(
                old(self)@,
                old(self).spec_width(),
                old(self).spec_height(),
                low_samples(p0, p1),
            ),
    {
        let dx: i64 = p1.pixel_x() as i64 - p0.pixel_x() as i64;
        let dy: i64 = p1.pixel_y() as i64 - p0.pixel_y() as i64;
        let ady: i64 = if dy < 0 { -dy } else { dy };
        self.draw_run(p0.pixel_x() as i64, p0.pixel_y() as i64, dx, ady, dy < 0, false);
    }

    /// Draws a plain line from `p0` to `p1` that steps along `y`. Nothing is
    /// drawn unless `p1` lies below `p0`.
    pub fn draw_line_high(&mut self, p0: Point2, p1: Point2)
        ensures
            final(self).spec_width() == old(self).spec_width(),
            final(self).spec_height() == old(self).spec_height(),
            final(self)@ == plot_all(
                old(self)@,
                old(self).spec_width(),
                old(self).spec_height(),
                high_samples(p0, p1),
            ),
    {
        let dx: i64 = p1.pixel_x() as i64 - p0.pixel_x() as i64;
        let dy: i64 = p1.pixel_y() as i64 - p0.pixel_y() as i64;
        let adx: i64 = if dx < 0 { -dx } else { dx };
        self.draw_run(p0.pixel_y() as i64, p0.pixel_x() as i64, dy, adx, dx < 0, true);
    }

    /// Steps `len` pixels along the major axis with an integer error term,
    /// moving one pixel on the minor axis whenever the term is positive.
    fn draw_run(&mut self, major0: i64, minor0: i64, len: i64, minor: i64, backwards: bool, steep: bool)
        requires
            -0x1_0000 <= major0 <= 0x1_0000,
            -0x1_0000 <= minor0 <= 0x1_0000,
            -0x2_0000 <= len <= 0x2_0000,
            0 <= minor <= 0x2_0000,
        ensures
            final(self).spec_width() == old(self).spec_width(),
            final(self).spec_height() == old(self).spec_height(),
            final(self)@ == plot_all(
                old(self)@,
                old(self).spec_width(),
                old(self).spec_height(),
                run_samples(major0 as int, minor0 as int, len as int, minor as int, backwards, steep),
            ),
    {
        let ghost samples = run_samples(
            major0 as int,
            minor0 as int,
            len as int,
            minor as int,
            backwards,
            steep,
        );
        let ghost w = self.spec_width();
        let ghost h = self.spec_height();
        let mut d: i64 = 2 * minor - len;
        let mut e: i64 = 0;
        let mut k: i64 = 0;
        let ghost mut mk: int = 0;
        let ghost mut le: int = 0;
        proof {
            assert(samples.take(0) =~= Seq::<Sample>::empty());
            assert(minor * 0 == 0) by (nonlinear_arith);
            assert(len * 0 == 0) by (nonlinear_arith);
        }
        while k < len
            invariant
                0 <= k,
                len > 0 ==> k <= len,
                len <= 0 ==> k == 0,
                0 <= e <= k,
                len <= 0x2_0000,
                0 <= minor <= 0x2_0000,
                -0x1_0000 <= major0 <= 0x1_0000,
                -0x1_0000 <= minor0 <= 0x1_0000,
                mk == minor * k,
                le == len * e,
                d == 2 * (mk + minor) - len - 2 * le,
                0 < len && minor <= len ==> 2 * minor - 2 * len < d <= 2 * minor,
                minor > len ==> e == k,
                self.spec_width() == w,
                self.spec_height() == h,
                samples == run_samples(
                    major0 as int,
                    minor0 as int,
                    len as int,
                    minor as int,
                    backwards,
                    steep,
                ),
                self@ == plot_all(old(self)@, w, h, samples.take(k as int)),
            decreases len - k,
        {
            proof {
                lemma_line_offset(k as int, len as int, minor as int, e as int, d as int);
                lemma_plot_all_step(old(self)@, w, h, samples, k as int);
                assert(0 <= mk <= 0x2_0000 * 0x2_0000) by (nonlinear_arith)
                    requires
                        mk == minor * k,
                        0 <= k <= 0x2_0000,
                        0 <= minor <= 0x2_0000,
                ;
                assert(0 <= le <= 0x2_0000 * 0x2_0000) by (nonlinear_arith)
                    requires
                        le == len * e,
                        0 <= e <= 0x2_0000,
                        0 <= len <= 0x2_0000,
                ;
                assert(minor * (k + 1) == mk + minor) by (nonlinear_arith)
                    requires
                        mk == minor * k,
                ;
                assert(len * (e + 1) == le + len) by (nonlinear_arith)
                    requires
                        le == len * e,
                ;
                if minor > len {
                    assert(mk >= le) by (nonlinear_arith)
                        requires
                            mk == minor * k,
                            le == len * k,
                            minor > len,
                            k >= 0,
                    ;
                }
            }
            let across: i64 = if backwards { minor0 - e } else { minor0 + e };
            if steep {
                self.plot_at(across, major0 + k, LINE_CHROMA, LINE_CHROMA, LINE_LUMA, LINE_ALPHA);
            } else {
                self.plot_at(major0 + k, across, LINE_CHROMA, LINE_CHROMA, LINE_LUMA, LINE_ALPHA);
            }
            if d > 0 {
                e = e + 1;
                d = d + 2 * (minor - len);
                proof {
                    le = le + len;
                }
            } else {
                d = d + 2 * minor;
            }
            k = k + 1;
            proof {
                mk = mk + minor;
            }
        }
        proof {
            assert(samples.len() == k);
            assert(samples.take(k as int) =~= samples);
        }
    }
}

/// The error term of a plain line determines how far the line has moved on
/// its minor axis.
proof fn lemma_line_offset(k: int, len: int, minor: int, e: int, d: int)
    requires
        0 <= k < len,
        0 <= minor,
        0 <= e <= k,
        d == 2 * (minor * k + minor) - len - 2 * (len * e),
        minor <= len ==> 2 * minor - 2 * len < d <= 2 * minor,
        minor > len ==> e == k,
    ensures
        e == line_offset(k, len, minor),
{
    if minor <= len {
        let n = 2 * minor * k + len - 1;
        let r = n - (2 * len) * e;
        assert(2 * minor * k == 2 * (minor * k)) by (nonlinear_arith);
        assert((2 * len) * e == 2 * (len * e)) by (nonlinear_arith);
        assert(0 <= r < 2 * len);
        assert(n == e * (2 * len) + r) by (nonlinear_arith)
            requires
                r == n - (2 * len) * e,
        ;
        lemma_fundamental_div_mod_converse(n, 2 * len, e, r);
    }
}

/// A plain line is the same set of writes in the same order, whichever of
/// its two ends is named first.
pub proof fn lemma_line_direction_independent(p0: Point2, p1: Point2)
    ensures
        line_samples(p0, p1) == line_samples(p1, p0),
{
    let dx = p1.spec_pixel_x() - p0.spec_pixel_x();
    let dy = p1.spec_pixel_y() - p0.spec_pixel_y();
    if dx == 0 && dy == 0 {
        assert(high_samples(p0, p1) =~= high_samples(p1, p0));
    }
}

/// A plain line never leaves the true line by more than half a pixel on the
/// minor axis: after `k` steps the true line is at `k * minor / len`, and
/// the line that is drawn is at the nearest whole number.
pub proof fn lemma_line_offset_is_nearest(k: int, len: int, minor: int)
    requires
        0 <= k,
        0 <= minor <= len,
        0 < len,
    ensures
        -len <= 2 * len * line_offset(k, len, minor) - 2 * minor * k < len,
        0 <= line_offset(k, len, minor) <= k,
{
    let n = 2 * minor * k + len - 1;
    let e = n / (2 * len);
    vstd::arithmetic::div_mod::lemma_fundamental_div_mod(n, 2 * len);
    assert(0 <= n % (2 * len) < 2 * len);
    assert(n == 2 * len * e + n % (2 * len));
    assert(2 * minor * k <= 2 * len * k) by (nonlinear_arith)
        requires
            0 <= k,
            0 <= minor <= len,
    ;
    if e > k {
        assert(2 * len * e >= 2 * len * (k + 1)) by (nonlinear_arith)
            requires
                e >= k + 1,
                len > 0,
        ;
        assert(2 * len * (k + 1) == 2 * len * k + 2 * len) by (nonlinear_arith);
    }
    if e < 0 {
        assert(2 * len * e <= -(2 * len)) by (nonlinear_arith)
            requires
                e <= -1,
                len > 0,
        ;
        assert(2 * minor * k >= 0) by (nonlinear_arith)
            requires
                0 <= k,
                0 <= minor,
        ;
    }
}

} // verus!
