//! Packed video frame with bounds-checked pixel writes.
//!
//! The frame holds `width * height * 3` bytes. The first `2 * width * height`
//! bytes are the main plane, in which every horizontal pair of pixels takes
//! four bytes: the shared `u`, the luma of the even pixel, the shared `v`, the
//! luma of the odd pixel. The remaining `width * height` bytes are the alpha
//! plane, one byte per pixel.

use vstd::prelude::*;

verus! {

/// One pixel write: a position, which may lie outside the frame, and the
/// values to store there.
pub ghost struct Sample {
    pub x: int,
    pub y: int,
    pub u: u8,
    pub v: u8,
    pub luma: u8,
    pub alpha: u8,
}

/// Whether `(x, y)` is a pixel of a `width` by `height` frame.
pub open spec fn in_bounds(width: nat, height: nat, x: int, y: int) -> bool {
    0 <= x < width && 0 <= y < height
}

/// Offset in the main plane of the four bytes of the pair that holds `(x, y)`.
pub open spec fn pair_offset(width: nat, x: int, y: int) -> int {
    y * (2 * width) + (x / 2) * 4
}

/// Offset of the luma byte of `(x, y)`.
pub open spec fn luma_offset(width: nat, x: int, y: int) -> int {
    pair_offset(width, x, y) + 1 + (x % 2) * 2
}

/// Offset of the alpha byte of `(x, y)`.
pub open spec fn alpha_offset(width: nat, height: nat, x: int, y: int) -> int {
    2 * width * height + y * width + x
}

/// The buffer after one pixel write. A write outside the frame changes
/// nothing.
pub open spec fn plot(buf: Seq<u8>, width: nat, height: nat, s: Sample) -> Seq<u8> {
    if in_bounds(width, height, s.x, s.y) {
        buf.update(pair_offset(width, s.x, s.y), s.u).update(
            luma_offset(width, s.x, s.y),
            s.luma,
        ).update(pair_offset(width, s.x, s.y) + 2, s.v).update(
            alpha_offset(width, height, s.x, s.y),
            s.alpha,
        )
    } else {
        buf
    }
}

/// The buffer after the writes of `samples`, first to last.
pub open spec fn plot_all(buf: Seq<u8>, width: nat, height: nat, samples: Seq<Sample>) -> Seq<u8>
    decreases samples.len(),
{
    if samples.len() == 0 {
        buf
    } else {
        plot(plot_all(buf, width, height, samples.drop_last()), width, height, samples.last())
    }
}

/// The writes that fill the marker square around `(x, y)`, column by column.
pub open spec fn marker_samples(x: int, y: int, u: u8, v: u8, luma: u8, alpha: u8) -> Seq<Sample> {
    Seq::new(64, |k: int| Sample { x: x - 4 + k / 8, y: y - 4 + k % 8, u, v, luma, alpha })
}

/// A frame buffer of fixed size.
pub struct Frame {
    width: u32,
    height: u32,
    data: Vec<u8>,
}

impl Frame {
    #[verifier::type_invariant]
    spec fn well_formed(self) -> bool {
        self.data@.len() == 3 * self.width * self.height
    }

    /// Width in pixels.
    pub closed spec fn spec_width(self) -> nat {
        self.width as nat
    }

    /// Height in pixels.
    pub closed spec fn spec_height(self) -> nat {
        self.height as nat
    }

    /// The bytes of the frame: main plane, then alpha plane.
    pub closed spec fn view(self) -> Seq<u8> {
        self.data@
    }

    /// Allocates a frame with every byte zero.
    pub fn new(width: u32, height: u32) -> (r: Frame)
        requires
            3 * width * height <= usize::MAX,
        ensures
            r.spec_width() == width,
            r.spec_height() == height,
            r@ == Seq::new((3 * width * height) as nat, |i: int| 0u8),
    {
        proof {
            assert(3 * (width * height) == 3 * width * height) by (nonlinear_arith);
        }
        let area: usize = width as usize * height as usize;
        let data: Vec<u8> = vec![0u8; 3 * area];
        proof {
            assert(3 * (width * height) == 3 * width * height) by (nonlinear_arith);
            assert(data@ =~= Seq::new((3 * width * height) as nat, |i: int| 0u8));
        }
        Frame { width, height, data }
    }

    /// Width in pixels.
    pub fn width(&self) -> (r: u32)
        ensures
            r == self.spec_width(),
    {
        self.width
    }

    /// Height in pixels.
    pub fn height(&self) -> (r: u32)
        ensures
            r == self.spec_height(),
    {
        self.height
    }

    /// Bytes per row of the main plane: two per pixel.
    pub fn stride(&self) -> (r: u64)
        ensures
            r == 2 * self.spec_width(),
    {
        2 * (self.width as u64)
    }

    /// The bytes of the frame, main plane first, for handing to a video sink.
    pub fn as_bytes(&self) -> (r: &[u8])
        ensures
            r@ == self@,
            r@.len() == 3 * self.spec_width() * self.spec_height(),
    {
        proof {
            use_type_invariant(self);
        }
        self.data.as_slice()
    }

    /// Sets every byte of the frame to zero.
    pub fn clear(&mut self)
        ensures
            final(self).spec_width() == old(self).spec_width(),
            final(self).spec_height() == old(self).spec_height(),
            final(self)@ == Seq::new(old(self)@.len(), |i: int| 0u8),
    {
        let n: usize = self.data.len();
        let mut i: usize = 0;
        while i < n
            invariant
                i <= n,
                n == self.data@.len(),
                self.width == old(self).width,
                self.height == old(self).height,
                self.data@.len() == old(self).data@.len(),
                forall|j: int| 0 <= j < i ==> self.data@[j] == 0u8,
            decreases n - i,
        {
            proof {
                use_type_invariant(&*self);
            }
            self.data[i] = 0u8;
            i += 1;
        }
        proof {
            assert(self.data@ =~= Seq::new(old(self)@.len(), |i: int| 0u8));
        }
    }

    /// Writes one pixel: the chroma of its pair, its luma and its alpha.
    ///
    /// A position outside the frame is clipped: nothing is written.
    pub fn set_pixel(&mut self, x: u32, y: u32, u: u8, v: u8, lum: u8, a: u8)
        ensures
            final(self).spec_width() == old(self).spec_width(),
            final(self).spec_height() == old(self).spec_height(),
            final(self)@ == plot(
                old(self)@,
                old(self).spec_width(),
                old(self).spec_height(),
                Sample { x: x as int, y: y as int, u, v, luma: lum, alpha: a },
            ),
            x >= old(self).spec_width() || y >= old(self).spec_height() ==> final(self)@ == old(
                self,
            )@,
    {
        if x >= self.width || y >= self.height {
            return ;
        }
        let len: usize = self.data.len();
        proof {
            use_type_invariant(&*self);
            lemma_offsets_in_range(self.width as nat, self.height as nat, x as int, y as int);
            assert(len == 3 * (self.width * self.height));
        }
        let w: usize = self.width as usize;
        let h: usize = self.height as usize;
        let row: usize = y as usize * w;
        let pair: usize = 2 * row + (x as usize / 2) * 4;
        let luma_at: usize = pair + 1 + (x as usize % 2) * 2;
        let alpha_at: usize = 2 * (w * h) + row + x as usize;
        proof {
            assert(y * (2 * w) == 2 * (y * w)) by (nonlinear_arith);
            assert(2 * w * h == 2 * (w * h)) by (nonlinear_arith);
        }
        self.data[pair] = u;
        self.data[luma_at] = lum;
        self.data[pair + 2] = v;
        self.data[alpha_at] = a;
    }

    /// Fills the 8 by 8 square of pixels around `(x, y)`, from four pixels
    /// before it to three pixels after it on each axis, with one flat colour.
    /// The marker is a square, not a disc.
    pub fn fill_circle(&mut self, x: u32, y: u32, u: u8, v: u8, lum: u8, a: u8)
        ensures
            final(self).spec_width() == old(self).spec_width(),
            final(self).spec_height() == old(self).spec_height(),
            final(self)@ == plot_all(
                old(self)@,
                old(self).spec_width(),
                old(self).spec_height(),
                marker_samples(x as int, y as int, u, v, lum, a),
            ),
    {
        let ghost samples = marker_samples(x as int, y as int, u, v, lum, a);
        let ghost w = self.spec_width();
        let ghost h = self.spec_height();
        let mut i: i64 = 0;
        proof {
            assert(samples.take(0) =~= Seq::<Sample>::empty());
        }
        while i < 8
            invariant
                0 <= i <= 8,
                self.spec_width() == w,
                self.spec_height() == h,
                samples == marker_samples(x as int, y as int, u, v, lum, a),
                self@ == plot_all(old(self)@, w, h, samples.take(8 * i)),
            decreases 8 - i,
        {
            let mut j: i64 = 0;
            while j < 8
                invariant
                    0 <= i < 8,
                    0 <= j <= 8,
                    self.spec_width() == w,
                    self.spec_height() == h,
                    samples == marker_samples(x as int, y as int, u, v, lum, a),
                    self@ == plot_all(old(self)@, w, h, samples.take(8 * i + j)),
                decreases 8 - j,
            {
                let ghost k: int = 8 * i + j;
                proof {
                    assert(samples[k] == Sample {
                        x: x as int - 4 + i,
                        y: y as int - 4 + j,
                        u,
                        v,
                        luma: lum,
                        alpha: a,
                    });
                    lemma_plot_all_step(old(self)@, w, h, samples, k);
                }
                self.plot_at(x as i64 - 4 + i, y as i64 - 4 + j, u, v, lum, a);
                j += 1;
            }
            i += 1;
        }
        proof {
            assert(samples.take(64) =~= samples);
        }
    }

    /// Writes one pixel at a signed position; a negative coordinate is
    /// outside the frame.
    pub(crate) fn plot_at(&mut self, x: i64, y: i64, u: u8, v: u8, lum: u8, a: u8)
        ensures
            final(self).spec_width() == old(self).spec_width(),
            final(self).spec_height() == old(self).spec_height(),
            final(self)@ == plot(
                old(self)@,
                old(self).spec_width(),
                old(self).spec_height(),
                Sample { x: x as int, y: y as int, u, v, luma: lum, alpha: a },
            ),
    {
        if 0 <= x && x < self.width as i64 && 0 <= y && y < self.height as i64 {
            self.set_pixel(x as u32, y as u32, u, v, lum, a);
        }
    }
}

/// Every byte that a write inside the frame touches lies inside the buffer.
proof fn lemma_offsets_in_range(width: nat, height: nat, x: int, y: int)
    requires
        in_bounds(width, height, x, y),
    ensures
        0 <= y * width,
        y * width + x < width * height,
        0 <= pair_offset(width, x, y),
        pair_offset(width, x, y) == 2 * (y * width) + (x / 2) * 4,
        pair_offset(width, x, y) + 2 < 3 * width * height,
        0 <= luma_offset(width, x, y) < 3 * width * height,
        0 <= alpha_offset(width, height, x, y) < 3 * width * height,
        alpha_offset(width, height, x, y) == 2 * (width * height) + y * width + x,
        3 * width * height == 3 * (width * height),
{
    assert(0 <= y * width && y * width + width <= width * height) by (nonlinear_arith)
        requires
            0 <= y < height,
            0 <= width,
    ;
    assert(y * (2 * width) == 2 * (y * width)) by (nonlinear_arith);
    assert(2 * width * height == 2 * (width * height)) by (nonlinear_arith);
    assert(3 * width * height == 3 * (width * height)) by (nonlinear_arith);
    assert(width * height >= 1) by (nonlinear_arith)
        requires
            width >= 1,
            height >= 1,
    ;
}

/// The marker around `(x, y)` is the square of the 64 pixels from four before
/// `(x, y)` to three after it on each axis: every write of the marker goes to
/// a pixel of that square, and every pixel of that square is written.
pub proof fn lemma_marker_is_square(x: int, y: int, u: u8, v: u8, luma: u8, alpha: u8)
    ensures
        marker_samples(x, y, u, v, luma, alpha).len() == 64,
        forall|k: int|
            0 <= k < 64 ==> {
                let s = #[trigger] marker_samples(x, y, u, v, luma, alpha)[k];
                &&& x - 4 <= s.x < x + 4
                &&& y - 4 <= s.y < y + 4
                &&& s.u == u
                &&& s.v == v
                &&& s.luma == luma
                &&& s.alpha == alpha
            },
        forall|px: int, py: int|
            x - 4 <= px < x + 4 && y - 4 <= py < y + 4 ==> {
                let s = #[trigger] marker_samples(x, y, u, v, luma, alpha)[marker_index(
                    x,
                    y,
                    px,
                    py,
                )];
                0 <= marker_index(x, y, px, py) < 64 && s.x == px && s.y == py
            },
{
}

/// Place among the writes of the marker around `(x, y)` of the write to the
/// pixel `(px, py)`.
pub open spec fn marker_index(x: int, y: int, px: int, py: int) -> int {
    (px - (x - 4)) * 8 + (py - (y - 4))
}

/// A write inside a frame of even width reads back: the chroma of the pair,
/// the luma and the alpha of the pixel are the values written.
pub proof fn lemma_plot_reads_back(buf: Seq<u8>, width: nat, height: nat, s: Sample)
    requires
        buf.len() == 3 * width * height,
        in_bounds(width, height, s.x, s.y),
        width % 2 == 0,
    ensures
        plot(buf, width, height, s).len() == buf.len(),
        plot(buf, width, height, s)[pair_offset(width, s.x, s.y)] == s.u,
        plot(buf, width, height, s)[pair_offset(width, s.x, s.y) + 2] == s.v,
        plot(buf, width, height, s)[luma_offset(width, s.x, s.y)] == s.luma,
        plot(buf, width, height, s)[alpha_offset(width, height, s.x, s.y)] == s.alpha,
{
    lemma_offsets_in_range(width, height, s.x, s.y);
    lemma_planes_apart(width, height, s.x, s.y);
}

/// A write inside a frame of even width leaves the luma and the alpha of
/// every other pixel as they were, and its chroma too unless the two pixels
/// are the two of one pair.
pub proof fn lemma_plot_leaves_other_pixels(
    buf: Seq<u8>,
    width: nat,
    height: nat,
    s: Sample,
    x: int,
    y: int,
)
    requires
        buf.len() == 3 * width * height,
        in_bounds(width, height, s.x, s.y),
        in_bounds(width, height, x, y),
        width % 2 == 0,
        x != s.x || y != s.y,
    ensures
        plot(buf, width, height, s)[luma_offset(width, x, y)] == buf[luma_offset(width, x, y)],
        plot(buf, width, height, s)[alpha_offset(width, height, x, y)] == buf[alpha_offset(
            width,
            height,
            x,
            y,
        )],
        y != s.y || x / 2 != s.x / 2 ==> plot(buf, width, height, s)[pair_offset(width, x, y)]
            == buf[pair_offset(width, x, y)] && plot(buf, width, height, s)[pair_offset(
            width,
            x,
            y,
        ) + 2] == buf[pair_offset(width, x, y) + 2],
{
    lemma_offsets_in_range(width, height, s.x, s.y);
    lemma_offsets_in_range(width, height, x, y);
    lemma_planes_apart(width, height, s.x, s.y);
    lemma_planes_apart(width, height, x, y);
    if y < s.y {
        assert(y * width + width <= s.y * width) by (nonlinear_arith)
            requires
                y < s.y,
                width >= 0,
        ;
    }
    if s.y < y {
        assert(s.y * width + width <= y * width) by (nonlinear_arith)
            requires
                s.y < y,
                width >= 0,
        ;
    }
}

/// In a frame of even width the four bytes of a pair lie in the main plane,
/// in the row of the pair, and the alpha bytes lie behind the main plane.
proof fn lemma_planes_apart(width: nat, height: nat, x: int, y: int)
    requires
        in_bounds(width, height, x, y),
        width % 2 == 0,
    ensures
        pair_offset(width, x, y) == 2 * (y * width) + 4 * (x / 2),
        luma_offset(width, x, y) == 2 * (y * width) + 2 * x + 1,
        2 * (y * width) <= pair_offset(width, x, y),
        pair_offset(width, x, y) + 3 < 2 * (y * width) + 2 * width,
        2 * (y * width) + 2 * width <= 2 * (width * height),
        alpha_offset(width, height, x, y) == 2 * (width * height) + y * width + x,
{
    lemma_offsets_in_range(width, height, x, y);
    assert(y * width + width <= width * height) by (nonlinear_arith)
        requires
            0 <= y < height,
            width >= 0,
    ;
}

/// Writing the first `k + 1` samples is writing the first `k` and then
/// sample `k`.
pub proof fn lemma_plot_all_step(buf: Seq<u8>, width: nat, height: nat, samples: Seq<Sample>, k: int)
    requires
        0 <= k < samples.len(),
    ensures
        plot_all(buf, width, height, samples.take(k + 1)) == plot(
            plot_all(buf, width, height, samples.take(k)),
            width,
            height,
            samples[k],
        ),
{
    assert(samples.take(k + 1).drop_last() =~= samples.take(k));
    assert(samples.take(k + 1).last() == samples[k]);
}

/// Writing two runs of samples one after the other is writing their
/// concatenation.
pub proof fn lemma_plot_all_concat(
    buf: Seq<u8>,
    width: nat,
    height: nat,
    first: Seq<Sample>,
    second: Seq<Sample>,
)
    ensures
        plot_all(buf, width, height, first + second) == plot_all(
            plot_all(buf, width, height, first),
            width,
            height,
            second,
        ),
    decreases second.len(),
{
    if second.len() == 0 {
        assert(first + second =~= first);
    } else {
        assert((first + second).drop_last() =~= first + second.drop_last());
        assert((first + second).last() == second.last());
        lemma_plot_all_concat(buf, width, height, first, second.drop_last());
    }
}

} // verus!
