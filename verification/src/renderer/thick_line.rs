//! Thick lines with anti-aliased long edges.
//!
//! A thick line is drawn band by band: one band per pixel on the major axis
//! of the line, each band a run of pixels on the minor axis. The first and
//! the last sample of a band lie on the two long edges of the line and get an
//! alpha that says how much of the pixel the line covers; the samples between
//! them get full alpha.

use vstd::prelude::*;
use vstd::arithmetic::div_mod::{lemma_div_is_ordered, lemma_div_multiples_vanish};
use crate::renderer::fixed::{
    floor_div, floor_mod, is_floor_sqrt, isqrt, lemma_floor_sqrt_exists, spec_isqrt, Point2, ONE,
};
use crate::renderer::frame::{
    lemma_plot_all_concat, lemma_plot_all_step, plot, plot_all, Frame, Sample,
};

verus! {

/// What every band of one thick line has in common.
pub ghost struct Stroke {
    /// Rise on the minor axis per pixel on the major axis, in fixed point.
    pub gradient: int,
    /// Extent of the band on the minor axis, in fixed point.
    pub band: int,
    pub luma: u8,
    pub u: u8,
    pub v: u8,
    /// Whether the major axis is `y`.
    pub steep: bool,
}

/// Whether a thick line from `p0` to `p1` is steeper than 45 degrees.
pub open spec fn thick_steep(p0: Point2, p1: Point2) -> bool {
    let dx = p1.x as int - p0.x as int;
    let dy = p1.y as int - p0.y as int;
    (if dy < 0 { -dy } else { dy }) > (if dx < 0 { -dx } else { dx })
}

/// The end of a thick line that comes first on the major axis, with the
/// major axis as `x`.
pub open spec fn thick_first(p0: Point2, p1: Point2) -> Point2 {
    let a = if thick_steep(p0, p1) { p0.spec_yx() } else { p0 };
    let b = if thick_steep(p0, p1) { p1.spec_yx() } else { p1 };
    if a.x > b.x { b } else { a }
}

/// The end of a thick line that comes last on the major axis, with the
/// major axis as `x`.
pub open spec fn thick_last(p0: Point2, p1: Point2) -> Point2 {
    let a = if thick_steep(p0, p1) { p0.spec_yx() } else { p0 };
    let b = if thick_steep(p0, p1) { p1.spec_yx() } else { p1 };
    if a.x > b.x { a } else { b }
}

/// Gradient of the line from `a` to `b` in fixed point, rounded down; one
/// where the two have the same `x`.
pub open spec fn thick_gradient(a: Point2, b: Point2) -> int {
    let dx = b.x as int - a.x as int;
    let dy = b.y as int - a.y as int;
    if dx > 0 {
        dy * 65536 / dx
    } else {
        65536
    }
}

/// Extent on the minor axis of a band of perpendicular width `width` along a
/// line of the given gradient, all in fixed point:
/// `width * sqrt(1 + gradient^2)`, rounded down.
pub open spec fn effective_width(width: int, gradient: int) -> int {
    spec_isqrt(width * width * (0x1_0000_0000 + gradient * gradient)) / 65536
}

/// Alpha of a boundary sample of which the fraction `part`, in fixed point,
/// is covered.
pub open spec fn column_alpha(part: int) -> u8 {
    (part * 255 / 65536) as u8
}

/// Alpha of a boundary sample in the column of an end point: the covered
/// fraction `part` of the sample, scaled by the fraction `gap` of the column
/// that the line reaches into.
pub open spec fn cap_alpha(part: int, gap: int) -> u8 {
    (part * gap * 255 / 0x1_0000_0000) as u8
}

/// The write of a thick line at `major` on its major axis and `minor` on its
/// minor axis.
pub open spec fn band_sample(st: Stroke, major: int, minor: int, alpha: u8) -> Sample {
    Sample {
        x: if st.steep { minor } else { major },
        y: if st.steep { major } else { minor },
        u: st.u,
        v: st.v,
        luma: st.luma,
        alpha,
    }
}

/// Number of whole pixels that a band covers on the minor axis.
pub open spec fn band_pixels(st: Stroke) -> int {
    st.band / 65536
}

/// The writes of one band at `major`, whose upper edge is at `top` on the
/// minor axis: a boundary sample with alpha `first`, the interior samples
/// with full alpha, and `band_pixels` below the first a boundary sample with
/// alpha `last`.
pub open spec fn band_samples(st: Stroke, major: int, top: int, first: u8, last: u8) -> Seq<Sample> {
    let n = band_pixels(st);
    let count = if n >= 1 { n + 1 } else { 2 };
    Seq::new(
        count as nat,
        |i: int|
            if i == 0 {
                band_sample(st, major, top / 65536, first)
            } else if i == count - 1 {
                band_sample(st, major, top / 65536 + n, last)
            } else {
                band_sample(st, major, top / 65536 + i, 255)
            },
    )
}

/// Column of the pixel in which the end point `p` lies: `x` rounded to the
/// nearest integer, a half rounding up.
pub open spec fn cap_column(p: Point2) -> int {
    (p.x as int + 32768) / 65536
}

/// Upper edge of the band in the column of the end point `p`.
pub open spec fn cap_top(st: Stroke, p: Point2) -> int {
    p.y as int - (st.band - 65536) / 2 + st.gradient * (cap_column(p) * 65536 - p.x as int) / 65536
}

/// Fraction of its column, in fixed point, that a line ending at `p` reaches
/// into.
pub open spec fn cap_gap(p: Point2) -> int {
    65536 - (p.x as int + 32768 - cap_column(p) * 65536)
}

/// The writes of the band in the column of the end point `p`.
pub open spec fn cap_samples(st: Stroke, p: Point2) -> Seq<Sample> {
    let top = cap_top(st, p);
    band_samples(
        st,
        cap_column(p),
        top,
        cap_alpha(65536 - top % 65536, cap_gap(p)),
        cap_alpha(top % 65536, cap_gap(p)),
    )
}

/// The writes of the band `k + 1` columns after the first end point `p`.
pub open spec fn column_samples(st: Stroke, p: Point2, k: int) -> Seq<Sample> {
    let top = cap_top(st, p) + (k + 1) * st.gradient;
    band_samples(
        st,
        cap_column(p) + 1 + k,
        top,
        column_alpha(65536 - top % 65536),
        column_alpha(top % 65536),
    )
}

/// The writes of the first `n` bands after the column of the first end point
/// `p`.
pub open spec fn columns(st: Stroke, p: Point2, n: nat) -> Seq<Sample>
    decreases n,
{
    if n == 0 {
        Seq::empty()
    } else {
        columns(st, p, (n - 1) as nat) + column_samples(st, p, n - 1)
    }
}

/// The stroke of a thick line from `p0` to `p1`.
pub open spec fn thick_stroke(p0: Point2, p1: Point2, width: int, luma: u8, u: u8, v: u8) -> Stroke {
    let g = thick_gradient(thick_first(p0, p1), thick_last(p0, p1));
    Stroke { gradient: g, band: effective_width(width, g), luma, u, v, steep: thick_steep(p0, p1) }
}

/// The writes of a thick line from `p0` to `p1`: the band in the column of
/// each end point, then the bands of the columns between them. A line of
/// width zero writes nothing.
pub open spec fn thick_line_samples(
    p0: Point2,
    p1: Point2,
    width: int,
    luma: u8,
    u: u8,
    v: u8,
) -> Seq<Sample> {
    let st = thick_stroke(p0, p1, width, luma, u, v);
    let a = thick_first(p0, p1);
    let b = thick_last(p0, p1);
    let between = cap_column(b) - cap_column(a) - 1;
    if width == 0 {
        Seq::empty()
    } else {
        cap_samples(st, a) + cap_samples(st, b) + columns(
            st,
            a,
            if between > 0 { between as nat } else { 0 },
        )
    }
}

/// Extent on the minor axis of a band of perpendicular width `width` along a
/// line of gradient `gradient`.
fn band_extent(width: u32, gradient: i64) -> (r: i64)
    requires
        -65536 <= gradient <= 65536,
    ensures
        r == effective_width(width as int, gradient as int),
        0 <= r < 0x2_0000_0000,
{
    let w: u128 = width as u128;
    let g: u128 = if gradient < 0 { (-gradient) as u128 } else { gradient as u128 };
    proof {
        assert(w * w <= 0xFFFF_FFFF * 0xFFFF_FFFF) by (nonlinear_arith)
            requires
                0 <= w <= 0xFFFF_FFFF,
        ;
        assert(g * g <= 65536 * 65536) by (nonlinear_arith)
            requires
                0 <= g <= 65536,
        ;
        assert(g * g == gradient * gradient) by (nonlinear_arith)
            requires
                g == gradient || g == -gradient,
        ;
        assert((w * w) * (0x1_0000_0000 + g * g) <= (0xFFFF_FFFF * 0xFFFF_FFFF) * 0x2_0000_0000)
            by (nonlinear_arith)
            requires
                0 <= w * w <= 0xFFFF_FFFF * 0xFFFF_FFFF,
                0 <= g * g <= 0x1_0000_0000,
        ;
    }
    let n: u128 = (w * w) * (0x1_0000_0000 + g * g);
    let root: u64 = isqrt(n);
    proof {
        assert(is_floor_sqrt(n as int, root as int));
        if root >= 0x2_0000_0000_0000 {
            assert(root * root >= 0x2_0000_0000_0000 * 0x2_0000_0000_0000) by (nonlinear_arith)
                requires
                    root >= 0x2_0000_0000_0000,
            ;
        }
    }
    (root / 65536) as i64
}

impl Frame {
    /// Draws a line of perpendicular width `width`, in fixed point, from `p0`
    /// to `p1` in the colour `(luma, u, v)`. The two long edges of the band
    /// are anti-aliased through alpha; the two ends are cut flat.
    pub fn draw_thick_line(&mut self, p0: Point2, p1: Point2, width: u32, color: (u8, u8, u8))
        ensures
            final(self).spec_width() == old(self).spec_width(),
            final(self).spec_height() == old(self).spec_height(),
            final(self)@ == plot_all(
                old(self)@,
                old(self).spec_width(),
                old(self).spec_height(),
                thick_line_samples(p0, p1, width as int, color.0, color.1, color.2),
            ),
    {
        if width == 0 {
            return ;
        }
        let ghost w = self.spec_width();
        let ghost h = self.spec_height();
        let dx0: i64 = p1.x as i64 - p0.x as i64;
        let dy0: i64 = p1.y as i64 - p0.y as i64;
        let steep: bool = (if dy0 < 0 { -dy0 } else { dy0 }) > (if dx0 < 0 { -dx0 } else { dx0 });
        let a0: Point2 = if steep { p0.yx() } else { p0 };
        let b0: Point2 = if steep { p1.yx() } else { p1 };
        let a: Point2 = if a0.x > b0.x { b0 } else { a0 };
        let b: Point2 = if a0.x > b0.x { a0 } else { b0 };
        let dx: i64 = b.x as i64 - a.x as i64;
        let dy: i64 = b.y as i64 - a.y as i64;
        let gradient: i64 = if dx > 0 {
            proof {
                lemma_gradient_bound(dx as int, dy as int);
            }
            floor_div(dy as i128 * 65536, dx as i128) as i64
        } else {
            ONE
        };
        let band: i64 = band_extent(width, gradient);
        let ghost st = thick_stroke(p0, p1, width as int, color.0, color.1, color.2);
        proof {
            assert(a == thick_first(p0, p1));
            assert(b == thick_last(p0, p1));
            assert(st.gradient == gradient);
            assert(st.band == band);
            assert(st.steep == steep);
        }
        let (col_a, first_top) = self.draw_thick_line_endpoint(
            a,
            band,
            color,
            gradient,
            steep,
            Ghost(st),
        );
        let (col_b, _) = self.draw_thick_line_endpoint(b, band, color, gradient, steep, Ghost(st));
        let ghost caps = cap_samples(st, a) + cap_samples(st, b);
        proof {
            lemma_plot_all_concat(old(self)@, w, h, cap_samples(st, a), cap_samples(st, b));
            assert(caps + columns(st, a, 0) =~= caps);
        }
        let mut x: i64 = col_a + 1;
        let mut inter: i64 = first_top;
        let mut k: i64 = 0;
        let ghost mut kg: int = gradient as int;
        proof {
            assert((0 + 1) * gradient == gradient) by (nonlinear_arith);
        }
        while x < col_b
            invariant
                0 <= k <= 0x2_0000,
                x == col_a + 1 + k,
                -0x8000 <= col_a <= 0x8000,
                -0x8000 <= col_b <= 0x8000,
                col_a == cap_column(a),
                col_b == cap_column(b),
                k == 0 || x <= col_b,
                -65536 <= gradient <= 65536,
                0 <= band < 0x2_0000_0000,
                kg == (k + 1) * gradient,
                inter == cap_top(st, a) + kg,
                -0x2_0000_0000 <= cap_top(st, a) <= 0x2_0000_0000,
                -(k + 1) * 65536 <= kg <= (k + 1) * 65536,
                st.gradient == gradient,
                st.band == band,
                st.steep == steep,
                st.luma == color.0,
                st.u == color.1,
                st.v == color.2,
                self.spec_width() == w,
                self.spec_height() == h,
                caps == cap_samples(st, a) + cap_samples(st, b),
                self@ == plot_all(old(self)@, w, h, caps + columns(st, a, k as nat)),
            decreases col_b - x,
        {
            let part: i64 = floor_mod(inter as i128, 65536) as i64;
            let first: u8 = ((65536 - part) * 255 / 65536) as u8;
            let last: u8 = (part * 255 / 65536) as u8;
            proof {
                let done = columns(st, a, k as nat);
                let next = column_samples(st, a, k as int);
                assert(columns(st, a, (k + 1) as nat) == done + next);
                assert(caps + (done + next) =~= (caps + done) + next);
                lemma_plot_all_concat(old(self)@, w, h, caps + done, next);
                assert((k + 2) * gradient == kg + gradient) by (nonlinear_arith)
                    requires
                        kg == (k + 1) * gradient,
                ;
            }
            self.draw_band(x, inter, first, last, band, color, steep, Ghost(st));
            inter = inter + gradient;
            x = x + 1;
            k = k + 1;
            proof {
                kg = kg + gradient;
            }
        }
    }

    /// Draws the band in the column of the end point `p` and returns that
    /// column and the upper edge of the band in the next column.
    fn draw_thick_line_endpoint(
        &mut self,
        p: Point2,
        band: i64,
        color: (u8, u8, u8),
        gradient: i64,
        steep: bool,
        Ghost(st): Ghost<Stroke>,
    ) -> (r: (i64, i64))
        requires
            -65536 <= gradient <= 65536,
            0 <= band < 0x2_0000_0000,
            st.gradient == gradient,
            st.band == band,
            st.steep == steep,
            st.luma == color.0,
            st.u == color.1,
            st.v == color.2,
        ensures
            final(self).spec_width() == old(self).spec_width(),
            final(self).spec_height() == old(self).spec_height(),
            final(self)@ == plot_all(
                old(self)@,
                old(self).spec_width(),
                old(self).spec_height(),
                cap_samples(st, p),
            ),
            r.0 == cap_column(p),
            -0x8000 <= r.0 <= 0x8000,
            r.1 == cap_top(st, p) + gradient,
            -0x2_0000_0000 <= cap_top(st, p) <= 0x2_0000_0000,
    {
        let column: i64 = floor_div(p.x as i128 + 32768, 65536) as i64;
        let lead: i64 = column * 65536 - p.x as i64;
        proof {
            assert(-65536 * 32768 <= gradient * lead <= 65536 * 32768) by (nonlinear_arith)
                requires
                    -65536 <= gradient <= 65536,
                    -32768 <= lead <= 32768,
            ;
        }
        let top: i64 = p.y as i64 - floor_div(band as i128 - 65536, 2) as i64 + floor_div(
            (gradient * lead) as i128,
            65536,
        ) as i64;
        let gap: i64 = 65536 - (p.x as i64 + 32768 - column * 65536);
        let part: i64 = floor_mod(top as i128, 65536) as i64;
        proof {
            assert(0 <= (65536 - part) * gap <= 65536 * 65536) by (nonlinear_arith)
                requires
                    0 <= 65536 - part <= 65536,
                    0 <= gap <= 65536,
            ;
            assert(0 <= part * gap <= 65536 * 65536) by (nonlinear_arith)
                requires
                    0 <= part <= 65536,
                    0 <= gap <= 65536,
            ;
        }
        let first: u8 = ((65536 - part) * gap * 255 / 0x1_0000_0000) as u8;
        let last: u8 = (part * gap * 255 / 0x1_0000_0000) as u8;
        self.draw_band(column, top, first, last, band, color, steep, Ghost(st));
        (column, top + gradient)
    }

    /// Draws one band: the two boundary samples and the interior between
    /// them.
    fn draw_band(
        &mut self,
        major: i64,
        top: i64,
        first: u8,
        last: u8,
        band: i64,
        color: (u8, u8, u8),
        steep: bool,
        Ghost(st): Ghost<Stroke>,
    )
        requires
            -0x4_0000 <= major <= 0x4_0000,
            -0x8_0000_0000 <= top <= 0x8_0000_0000,
            0 <= band < 0x2_0000_0000,
            st.band == band,
            st.steep == steep,
            st.luma == color.0,
            st.u == color.1,
            st.v == color.2,
        ensures
            final(self).spec_width() == old(self).spec_width(),
            final(self).spec_height() == old(self).spec_height(),
            final(self)@ == plot_all(
                old(self)@,
                old(self).spec_width(),
                old(self).spec_height(),
                band_samples(st, major as int, top as int, first, last),
            ),
    {
        let ghost samples = band_samples(st, major as int, top as int, first, last);
        let ghost w = self.spec_width();
        let ghost h = self.spec_height();
        let n: i64 = band / 65536;
        let row: i64 = floor_div(top as i128, 65536) as i64;
        proof {
            assert(samples.take(0) =~= Seq::<Sample>::empty());
            lemma_plot_all_step(old(self)@, w, h, samples, 0);
        }
        self.put(major, row, first, color, steep);
        let mut i: i64 = 1;
        while i < n
            invariant
                1 <= i,
                n >= 1 ==> i <= n,
                n < 1 ==> i == 1,
                n == band_pixels(st),
                row == top as int / 65536,
                -0x4_0000 <= major <= 0x4_0000,
                -0x8_0000 <= row <= 0x8_0000,
                0 <= n < 0x2_0000,
                st.steep == steep,
                st.luma == color.0,
                st.u == color.1,
                st.v == color.2,
                self.spec_width() == w,
                self.spec_height() == h,
                samples == band_samples(st, major as int, top as int, first, last),
                self@ == plot_all(old(self)@, w, h, samples.take(i as int)),
            decreases n - i,
        {
            proof {
                lemma_plot_all_step(old(self)@, w, h, samples, i as int);
            }
            self.put(major, row + i, 255, color, steep);
            i = i + 1;
        }
        proof {
            lemma_plot_all_step(old(self)@, w, h, samples, i as int);
            assert(samples.take(i + 1) =~= samples);
        }
        self.put(major, row + n, last, color, steep);
    }

    /// Writes one sample of a thick line.
    fn put(&mut self, major: i64, minor: i64, alpha: u8, color: (u8, u8, u8), steep: bool)
        ensures
            final(self).spec_width() == old(self).spec_width(),
            final(self).spec_height() == old(self).spec_height(),
            final(self)@ == plot(
                old(self)@,
                old(self).spec_width(),
                old(self).spec_height(),
                Sample {
                    x: if steep { minor as int } else { major as int },
                    y: if steep { major as int } else { minor as int },
                    u: color.1,
                    v: color.2,
                    luma: color.0,
                    alpha,
                },
            ),
    {
        if steep {
            self.plot_at(minor, major, color.1, color.2, color.0, alpha);
        } else {
            self.plot_at(major, minor, color.1, color.2, color.0, alpha);
        }
    }
}

/// A line that rises no faster than it runs has a gradient between minus one
/// and one.
proof fn lemma_gradient_bound(dx: int, dy: int)
    requires
        dx > 0,
        -dx <= dy <= dx,
    ensures
        -65536 <= dy * 65536 / dx <= 65536,
{
    assert(dx * 65536 / dx == 65536) by {
        lemma_div_multiples_vanish(65536, dx);
    }
    assert(dx * (-65536) / dx == -65536) by {
        lemma_div_multiples_vanish(-65536, dx);
    }
    assert(dy * 65536 <= dx * 65536);
    assert(dx * (-65536) <= dy * 65536);
    lemma_div_is_ordered(dy * 65536, dx * 65536, dx);
    lemma_div_is_ordered(dx * (-65536), dy * 65536, dx);
}

/// The number of whole pixels that a band covers on the minor axis is
/// `width * sqrt(1 + gradient^2)` rounded down, where `width` and `gradient`
/// are fixed-point numbers.
pub proof fn lemma_band_pixels_exact(width: int, gradient: int)
    requires
        width >= 0,
    ensures
        ({
            let n = effective_width(width, gradient) / 65536;
            let target = width * width * (0x1_0000_0000 + gradient * gradient);
            &&& n >= 0
            &&& (n * 0x1_0000_0000) * (n * 0x1_0000_0000) <= target
            &&& target < ((n + 1) * 0x1_0000_0000) * ((n + 1) * 0x1_0000_0000)
        }),
{
    let target = width * width * (0x1_0000_0000 + gradient * gradient);
    assert(target >= 0) by (nonlinear_arith)
        requires
            target == width * width * (0x1_0000_0000 + gradient * gradient),
    ;
    lemma_floor_sqrt_exists(target);
    let s = spec_isqrt(target);
    let q = s / 65536;
    let n = q / 65536;
    let low = n * 0x1_0000_0000;
    let high = (n + 1) * 0x1_0000_0000;
    assert(0 <= low <= s);
    assert(s + 1 <= high);
    assert(low * low <= s * s) by (nonlinear_arith)
        requires
            0 <= low <= s,
    ;
    assert((s + 1) * (s + 1) <= high * high) by (nonlinear_arith)
        requires
            0 <= s + 1 <= high,
    ;
}

/// Every band is made of a boundary sample with alpha `first`, a boundary
/// sample with alpha `last`, and between them interior samples with full
/// alpha: one fewer than the band covers whole pixels, or none where it
/// covers less than two. The samples of a band that covers a whole pixel or
/// more lie on consecutive pixels of one column.
pub proof fn lemma_band_shape(st: Stroke, major: int, top: int, first: u8, last: u8)
    ensures
        ({
            let band = band_samples(st, major, top, first, last);
            let n = band_pixels(st);
            let interior = if n >= 1 { n - 1 } else { 0 };
            &&& band.len() == interior + 2
            &&& band[0].alpha == first
            &&& band[interior + 1].alpha == last
            &&& forall|i: int| 1 <= i <= interior ==> (#[trigger] band[i]).alpha == 255
            &&& n >= 1 ==> forall|i: int|
                0 <= i <= n ==> #[trigger] band[i] == band_sample(
                    st,
                    major,
                    top / 65536 + i,
                    band[i].alpha,
                )
        }),
{
}

/// At every step along a thick line of perpendicular width `width`, the band
/// covers `n` whole pixels, where `n` is `width * sqrt(1 + gradient^2)`
/// rounded down, and is made of two boundary samples with fractional alpha
/// and `n - 1` interior samples with full alpha (none where `n` is zero).
pub proof fn lemma_thick_line_scan_step(
    p0: Point2,
    p1: Point2,
    width: int,
    luma: u8,
    u: u8,
    v: u8,
    k: int,
)
    requires
        width >= 0,
    ensures
        ({
            let st = thick_stroke(p0, p1, width, luma, u, v);
            let band = column_samples(st, thick_first(p0, p1), k);
            let n = band_pixels(st);
            let target = width * width * (0x1_0000_0000 + st.gradient * st.gradient);
            let interior = if n >= 1 { n - 1 } else { 0 };
            &&& n >= 0
            &&& (n * 0x1_0000_0000) * (n * 0x1_0000_0000) <= target
            &&& target < ((n + 1) * 0x1_0000_0000) * ((n + 1) * 0x1_0000_0000)
            &&& band.len() == interior + 2
            &&& forall|i: int| 1 <= i <= interior ==> (#[trigger] band[i]).alpha == 255
        }),
{
    let st = thick_stroke(p0, p1, width, luma, u, v);
    lemma_band_pixels_exact(width, st.gradient);
    let top = cap_top(st, thick_first(p0, p1)) + (k + 1) * st.gradient;
    lemma_band_shape(
        st,
        cap_column(thick_first(p0, p1)) + 1 + k,
        top,
        column_alpha(65536 - top % 65536),
        column_alpha(top % 65536),
    );
}

/// A thick line is the same set of writes in the same order, whichever of
/// its two ends is named first.
pub proof fn lemma_thick_line_direction_independent(
    p0: Point2,
    p1: Point2,
    width: int,
    luma: u8,
    u: u8,
    v: u8,
)
    ensures
        thick_line_samples(p0, p1, width, luma, u, v) == thick_line_samples(
            p1,
            p0,
            width,
            luma,
            u,
            v,
        ),
{
    assert(thick_steep(p0, p1) == thick_steep(p1, p0));
    assert(thick_first(p0, p1) == thick_first(p1, p0));
    assert(thick_last(p0, p1) == thick_last(p1, p0));
}

} // verus!
