// Raster images and regions.
use vstd::prelude::*;
use core::marker::PhantomData;
use crate::chan::{Ch16, Ch8, Channel, native_little_endian};
use crate::el::{Pixel, convert, convert_quad, convert_supported, holds};

verus! {

/// Location / dimensions of pixels relative to a [Raster].
#[derive(Clone, Copy, Debug, PartialEq, Eq, Structural)]
pub struct Region {
    x: i32,
    y: i32,
    width: i32,
    height: i32,
}

/// A dimension given as `u32`, as a region stores it: values above
/// `i32::MAX` become zero.
pub open spec fn dimension(v: int) -> int {
    if 0 <= v <= i32::MAX { v } else { 0 }
}

/// `a + b`, saturating at the bounds of `i32`.
pub open spec fn saturating_add_i32(a: int, b: int) -> int {
    if a + b > i32::MAX {
        i32::MAX as int
    } else if a + b < i32::MIN {
        i32::MIN as int
    } else {
        a + b
    }
}

/// Larger of two integers.
pub open spec fn max_int(a: int, b: int) -> int {
    if a >= b { a } else { b }
}

/// Smaller of two integers.
pub open spec fn min_int(a: int, b: int) -> int {
    if a <= b { a } else { b }
}

impl Region {
    #[verifier::type_invariant]
    spec fn dimensions_not_negative(self) -> bool {
        self.width >= 0 && self.height >= 0
    }

    /// Left side.
    pub closed spec fn left_spec(self) -> int {
        self.x as int
    }

    /// Top side.
    pub closed spec fn top_spec(self) -> int {
        self.y as int
    }

    /// Width.
    pub closed spec fn width_spec(self) -> int {
        self.width as int
    }

    /// Height.
    pub closed spec fn height_spec(self) -> int {
        self.height as int
    }

    /// Right side (saturating).
    pub open spec fn right_spec(self) -> int {
        saturating_add_i32(self.left_spec(), self.width_spec())
    }

    /// Bottom side (saturating).
    pub open spec fn bottom_spec(self) -> int {
        saturating_add_i32(self.top_spec(), self.height_spec())
    }

    /// The region with given sides and dimensions.
    pub closed spec fn make(x: int, y: int, width: int, height: int) -> Region {
        Region { x: x as i32, y: y as i32, width: width as i32, height: height as i32 }
    }

    /// What `make` builds, for arguments in range.
    pub broadcast proof fn lemma_make(x: int, y: int, width: int, height: int)
        requires
            i32::MIN <= x <= i32::MAX,
            i32::MIN <= y <= i32::MAX,
            0 <= width <= i32::MAX,
            0 <= height <= i32::MAX,
        ensures
            #![trigger Region::make(x, y, width, height)]
            Region::make(x, y, width, height).left_spec() == x,
            Region::make(x, y, width, height).top_spec() == y,
            Region::make(x, y, width, height).width_spec() == width,
            Region::make(x, y, width, height).height_spec() == height,
    {
    }

    /// The region that `Region::new(x, y, width, height)` makes.
    pub open spec fn of(x: i32, y: i32, width: u32, height: u32) -> Region {
        Region::make(x as int, y as int, dimension(width as int), dimension(height as int))
    }

    /// Create a new `Region`.
    ///
    /// A `width` or `height` above `i32::MAX` becomes zero.
    pub fn new(x: i32, y: i32, width: u32, height: u32) -> (r: Self)
        ensures
            r == Region::of(x, y, width, height),
            r.left_spec() == x,
            r.top_spec() == y,
            r.width_spec() == dimension(width as int),
            r.height_spec() == dimension(height as int),
    {
        let width = if width <= 0x7FFF_FFFFu32 { width as i32 } else { 0 };
        let height = if height <= 0x7FFF_FFFFu32 { height as i32 } else { 0 };
        Region { x, y, width, height }
    }

    /// Get the left side.
    pub fn left(self) -> (v: i32)
        ensures
            v == self.left_spec(),
    {
        self.x
    }

    /// Get the top side.
    pub fn top(self) -> (v: i32)
        ensures
            v == self.top_spec(),
    {
        self.y
    }

    /// Get the width.
    pub fn width(self) -> (v: u32)
        ensures
            v == self.width_spec(),
            v <= i32::MAX,
    {
        proof {
            use_type_invariant(self);
        }
        self.width as u32
    }

    /// Get the height.
    pub fn height(self) -> (v: u32)
        ensures
            v == self.height_spec(),
            v <= i32::MAX,
    {
        proof {
            use_type_invariant(self);
        }
        self.height as u32
    }

    /// Get right side.
    pub fn right(self) -> (v: i32)
        ensures
            v == self.right_spec(),
    {
        proof {
            use_type_invariant(self);
        }
        if self.x > i32::MAX - self.width {
            i32::MAX
        } else {
            self.x + self.width
        }
    }

    /// Get bottom side.
    pub fn bottom(self) -> (v: i32)
        ensures
            v == self.bottom_spec(),
    {
        proof {
            use_type_invariant(self);
        }
        if self.y > i32::MAX - self.height {
            i32::MAX
        } else {
            self.y + self.height
        }
    }
}

/// Side and extent of the overlap of two spans: `lo` is the larger start,
/// and the extent is the distance to the smaller end, or zero where the ends
/// come first.
pub open spec fn overlap(a_lo: int, a_hi: int, b_lo: int, b_hi: int) -> (int, int) {
    let lo = max_int(a_lo, b_lo);
    let hi = min_int(a_hi, b_hi);
    (lo, if hi >= lo { hi - lo } else { 0 })
}

/// Can two regions be intersected without `i32` overflow?
pub open spec fn intersection_defined(a: Region, b: Region) -> bool {
    let x0 = max_int(a.left_spec(), b.left_spec());
    let x1 = min_int(a.right_spec(), b.right_spec());
    let y0 = max_int(a.top_spec(), b.top_spec());
    let y1 = min_int(a.bottom_spec(), b.bottom_spec());
    x1 - x0 >= i32::MIN && y1 - y0 >= i32::MIN
}

/// Intersection of two regions.
pub open spec fn intersect(a: Region, b: Region) -> Region {
    let (x, w) = overlap(a.left_spec(), a.right_spec(), b.left_spec(), b.right_spec());
    let (y, h) = overlap(a.top_spec(), a.bottom_spec(), b.top_spec(), b.bottom_spec());
    Region::make(x, y, w, h)
}

/// Something that names a [Region]: a `Region`, a tuple of (*x*, *y*,
/// *width*, *height*), or `()` for every pixel.
pub trait IntoRegion: Sized {
    /// The region named.
    spec fn to_region(self) -> Region;

    /// Get the region named.
    fn into_region(self) -> (r: Region)
        ensures
            r == self.to_region(),
    ;
}

impl IntoRegion for Region {
    open spec fn to_region(self) -> Region {
        self
    }

    fn into_region(self) -> (r: Region) {
        self
    }
}

impl IntoRegion for (i32, i32, u32, u32) {
    open spec fn to_region(self) -> Region {
        Region::of(self.0, self.1, self.2, self.3)
    }

    fn into_region(self) -> (r: Region) {
        Region::new(self.0, self.1, self.2, self.3)
    }
}

impl IntoRegion for () {
    open spec fn to_region(self) -> Region {
        Region::of(0, 0, 0x7FFF_FFFF, 0x7FFF_FFFF)
    }

    fn into_region(self) -> (r: Region) {
        Region::new(0, 0, 0x7FFF_FFFF, 0x7FFF_FFFF)
    }
}

impl From<(i32, i32, u32, u32)> for Region {
    fn from(r: (i32, i32, u32, u32)) -> (reg: Self) {
        Region::new(r.0, r.1, r.2, r.3)
    }
}

impl vstd::std_specs::convert::FromSpecImpl<(i32, i32, u32, u32)> for Region {
    open spec fn obeys_from_spec() -> bool {
        true
    }

    open spec fn from_spec(r: (i32, i32, u32, u32)) -> Region {
        Region::of(r.0, r.1, r.2, r.3)
    }
}

impl From<()> for Region {
    fn from(r: ()) -> (reg: Self) {
        Region::new(0, 0, 0x7FFF_FFFF, 0x7FFF_FFFF)
    }
}

impl vstd::std_specs::convert::FromSpecImpl<()> for Region {
    open spec fn obeys_from_spec() -> bool {
        true
    }

    open spec fn from_spec(r: ()) -> Region {
        Region::of(0, 0, 0x7FFF_FFFF, 0x7FFF_FFFF)
    }
}

impl Region {
    /// Get intersection with another `Region`.
    pub fn intersection<R: IntoRegion>(self, rhs: R) -> (r: Self)
        requires
            intersection_defined(self, rhs.to_region()),
        ensures
            r == intersect(self, rhs.to_region()),
    {
        let rhs = rhs.into_region();
        proof {
            use_type_invariant(self);
            use_type_invariant(rhs);
        }
        let x0 = if self.x >= rhs.x { self.x } else { rhs.x };
        let (sr, rr) = (self.right(), rhs.right());
        let x1 = if sr <= rr { sr } else { rr };
        let dx = x1 - x0;
        let w = dx as u32;
        let y0 = if self.y >= rhs.y { self.y } else { rhs.y };
        let (sb, rb) = (self.bottom(), rhs.bottom());
        let y1 = if sb <= rb { sb } else { rb };
        let dy = y1 - y0;
        let h = dy as u32;
        proof {
            assert(dx < 0 ==> dx as u32 > 0x7FFF_FFFFu32) by (bit_vector);
            assert(dy < 0 ==> dy as u32 > 0x7FFF_FFFFu32) by (bit_vector);
            assert(dx >= 0 ==> dx as u32 == dx) by (bit_vector);
            assert(dy >= 0 ==> dy as u32 == dy) by (bit_vector);
        }
        Region::new(x0, y0, w, h)
    }
}


/// Is flat index `i` in the block of columns `[bx, bx + bw)` and rows
/// `[by, by + bh)` of a raster `w` pixels wide?
pub open spec fn in_block(i: int, w: int, bx: int, by: int, bw: int, bh: int) -> bool {
    &&& by <= i / w < by + bh
    &&& bx <= i % w < bx + bw
}

/// Is a pixel at its lowest value in every channel?
pub open spec fn is_zero<P: Pixel>(p: P) -> bool {
    forall|i: int| 0 <= i < P::count() ==> #[trigger] p.chans()[i].value() == 0
}

/// Can a raster of `width` by `height` pixels be built?  Both dimensions
/// and their product must fit in an `i32`.
pub open spec fn raster_size_ok(width: u32, height: u32) -> bool {
    &&& width <= i32::MAX
    &&& height <= i32::MAX
    &&& width * height <= i32::MAX
}

/// Position of pixel (`x`, `y`) in the pixels of a raster `w` wide, and the
/// way back from it.
pub proof fn lemma_index(w: int, h: int, x: int, y: int)
    requires
        0 <= x < w,
        0 <= y < h,
    ensures
        0 <= y * w + x < w * h,
        w * y + x == y * w + x,
        (y * w + x) / w == y,
        (y * w + x) % w == x,
{
    vstd::arithmetic::mul::lemma_mul_is_commutative(w, y);
    assert(0 <= y * w + x < w * h) by (nonlinear_arith)
        requires
            0 <= x < w,
            0 <= y < h,
    ;
    vstd::arithmetic::div_mod::lemma_fundamental_div_mod_converse(y * w + x, w, y, x);
}

/// Row and column of a flat index in a raster `w` wide and `h` high.
pub proof fn lemma_row_col(w: int, h: int, i: int)
    requires
        0 <= i < w * h,
        w > 0,
    ensures
        0 <= i / w < h,
        0 <= i % w < w,
        i == (i / w) * w + i % w,
{
    vstd::arithmetic::div_mod::lemma_fundamental_div_mod(i, w);
    vstd::arithmetic::div_mod::lemma_mod_bound(i, w);
    assert(0 <= i / w < h) by (nonlinear_arith)
        requires
            0 <= i < w * h,
            w > 0,
            i == w * (i / w) + i % w,
            0 <= i % w < w,
    ;
    vstd::arithmetic::mul::lemma_mul_is_commutative(w, i / w);
}


/// Is flat index `i` among the pixels filled so far: the first `r` rows of
/// the block of `cols` columns at (`bx`, `by`), and the first `c` columns of
/// its next row?
pub open spec fn done(i: int, w: int, bx: int, by: int, cols: int, r: int, c: int) -> bool {
    ||| in_block(i, w, bx, by, cols, r)
    ||| (i / w == by + r && bx <= i % w < bx + c)
}

/// Pixels filled so far satisfy `good`; the others are as in `old`.
pub open spec fn fill_inv<P>(
    pix: Seq<P>,
    old: Seq<P>,
    w: int,
    bx: int,
    by: int,
    cols: int,
    r: int,
    c: int,
    good: spec_fn(int, P) -> bool,
) -> bool {
    &&& pix.len() == old.len()
    &&& forall|i: int|
        0 <= i < pix.len() ==> if done(i, w, bx, by, cols, r, c) {
            good(i, #[trigger] pix[i])
        } else {
            pix[i] == old[i]
        }
}

/// Filling the next pixel of a row keeps `fill_inv`.
pub proof fn lemma_fill_step<P>(
    pix: Seq<P>,
    old: Seq<P>,
    w: int,
    h: int,
    bx: int,
    by: int,
    cols: int,
    r: int,
    c: int,
    good: spec_fn(int, P) -> bool,
    p: P,
)
    requires
        fill_inv(pix, old, w, bx, by, cols, r, c, good),
        pix.len() == w * h,
        0 <= bx,
        0 <= c < cols,
        bx + cols <= w,
        0 <= by,
        0 <= r,
        by + r < h,
        good((by + r) * w + bx + c, p),
    ensures
        0 <= (by + r) * w + bx + c < w * h,
        fill_inv(pix.update((by + r) * w + bx + c, p), old, w, bx, by, cols, r, c + 1, good),
{
    let k = (by + r) * w + bx + c;
    lemma_index(w, h, bx + c, by + r);
    let pix2 = pix.update(k, p);
    assert forall|i: int| 0 <= i < pix2.len() implies if done(i, w, bx, by, cols, r, c + 1) {
        good(i, #[trigger] pix2[i])
    } else {
        pix2[i] == old[i]
    } by {
        if i != k {
            lemma_row_col(w, h, i);
            if i / w == by + r && i % w == bx + c {
                assert(i == k);
            }
            assert(done(i, w, bx, by, cols, r, c + 1) == done(i, w, bx, by, cols, r, c));
        }
    }
}

/// A finished row starts the next one.
pub proof fn lemma_fill_row<P>(
    pix: Seq<P>,
    old: Seq<P>,
    w: int,
    bx: int,
    by: int,
    cols: int,
    r: int,
    good: spec_fn(int, P) -> bool,
)
    requires
        fill_inv(pix, old, w, bx, by, cols, r, cols, good),
        0 <= r,
    ensures
        fill_inv(pix, old, w, bx, by, cols, r + 1, 0, good),
{
    assert forall|i: int| 0 <= i < pix.len() implies if done(i, w, bx, by, cols, r + 1, 0) {
        good(i, #[trigger] pix[i])
    } else {
        pix[i] == old[i]
    } by {
        assert(done(i, w, bx, by, cols, r + 1, 0) == done(i, w, bx, by, cols, r, cols));
    }
}

/// Does `out` hold, at channel slot `slot`, the memory representation of
/// channel `c`?
pub open spec fn chan_bytes_at<C: Channel>(out: Seq<u8>, c: C, slot: int, le: bool) -> bool {
    let bc = C::byte_count() as int;
    C::bytes_of(c.value(), out.subrange(slot * bc, slot * bc + bc), le)
}

/// Is `out` the memory representation of the pixels `pix`, channel after
/// channel, with byte order `le` (little-endian where true)?
pub open spec fn raster_bytes<P: Pixel>(pix: Seq<P>, out: Seq<u8>, le: bool) -> bool {
    &&& out.len() == pix.len() * P::count() * P::Chan::byte_count()
    &&& forall|k: int, j: int|
        0 <= k < pix.len() && 0 <= j < P::count() ==> chan_bytes_at(
            out,
            #[trigger] pix[k].chans()[j],
            k * P::count() + j,
            le,
        )
}

/// A slot before slot `m` ends at or before the start of slot `m`.
proof fn lemma_slot_before(s: int, m: int, bc: int)
    requires
        0 <= s < m,
        0 < bc,
    ensures
        0 <= s * bc,
        s * bc + bc <= m * bc,
{
    assert(0 <= s * bc) by (nonlinear_arith)
        requires
            0 <= s,
            0 < bc,
    ;
    assert(s * bc + bc <= m * bc) by (nonlinear_arith)
        requires
            s < m,
            0 < bc,
    ;
}

/// Appending to a sequence keeps the bytes of its earlier slots.
proof fn lemma_keep_prefix(before: Seq<u8>, after: Seq<u8>, start: int, bc: int)
    requires
        0 <= start,
        0 <= bc,
        start + bc <= before.len(),
        before.len() <= after.len(),
        after.subrange(0, before.len() as int) == before,
    ensures
        after.subrange(start, start + bc) == before.subrange(start, start + bc),
{
    assert forall|t: int| 0 <= t < bc implies #[trigger] after.subrange(start, start + bc)[t]
        == before.subrange(start, start + bc)[t] by {
        assert(after.subrange(0, before.len() as int)[start + t] == after[start + t]);
    }
    assert(after.subrange(start, start + bc) =~= before.subrange(start, start + bc));
}

/// Image arranged as a rectangular array of pixels.
pub struct Raster<P: Pixel> {
    width: i32,
    height: i32,
    pixels: Vec<P>,
}

/// Builder for [Raster] images.
pub struct RasterBuilder<P: Pixel> {
    _pixel: PhantomData<P>,
}

impl<P: Pixel> Raster<P> {
    /// The raster holds `width * height` pixels, row after row.
    pub closed spec fn wf(&self) -> bool {
        &&& 0 <= self.width
        &&& 0 <= self.height
        &&& self.width * self.height <= i32::MAX
        &&& self.pixels@.len() == self.width * self.height
    }

    /// Width in pixels.
    pub closed spec fn width_spec(&self) -> int {
        self.width as int
    }

    /// Height in pixels.
    pub closed spec fn height_spec(&self) -> int {
        self.height as int
    }

    /// The pixels, row after row.
    pub closed spec fn pixels_spec(&self) -> Seq<P> {
        self.pixels@
    }

    /// Facts of a well-formed raster.
    pub proof fn lemma_wf(&self)
        requires
            self.wf(),
        ensures
            0 <= self.width_spec() <= i32::MAX,
            0 <= self.height_spec() <= i32::MAX,
            self.width_spec() * self.height_spec() <= i32::MAX,
            self.pixels_spec().len() == self.width_spec() * self.height_spec(),
    {
    }
}

impl<P: Pixel> RasterBuilder<P> {
    /// Create a new raster builder.
    ///
    /// * `P` Pixel format.
    pub fn new() -> (b: Self) {
        RasterBuilder { _pixel: PhantomData }
    }

    /// Build a `Raster` with all pixels set to the default value.
    pub fn with_clear(self, width: u32, height: u32) -> (r: Raster<P>)
        requires
            raster_size_ok(width, height),
        ensures
            r.wf(),
            r.width_spec() == width,
            r.height_spec() == height,
            forall|i: int| 0 <= i < r.pixels_spec().len() ==> is_zero(#[trigger] r.pixels_spec()[i]),
    {
        self.with_color(width, height, P::zero())
    }

    /// Build a `Raster` with all pixels set to one color.
    pub fn with_color(self, width: u32, height: u32, clr: P) -> (r: Raster<P>)
        requires
            raster_size_ok(width, height),
        ensures
            r.wf(),
            r.width_spec() == width,
            r.height_spec() == height,
            r.pixels_spec() == Seq::new((width * height) as nat, |i: int| clr),
    {
        let width = width as i32;
        let height = height as i32;
        let len = (width * height) as usize;
        let mut pixels: Vec<P> = Vec::new();
        let mut i: usize = 0;
        while i < len
            invariant
                i <= len,
                pixels@ == Seq::new(i as nat, |j: int| clr),
            decreases len - i,
        {
            pixels.push(clr);
            i += 1;
        }
        Raster { width, height, pixels }
    }

    /// Build a `Raster` by copying another `Raster`, converting each pixel.
    ///
    /// * `S` `Pixel` format of source `Raster`.
    pub fn with_raster<S: Pixel>(self, src: &Raster<S>) -> (r: Raster<P>)
        requires
            src.wf(),
            convert_supported::<S, P>(),
        ensures
            r.wf(),
            r.width_spec() == src.width_spec(),
            r.height_spec() == src.height_spec(),
            forall|i: int|
                0 <= i < r.pixels_spec().len() ==> holds(
                    #[trigger] r.pixels_spec()[i],
                    convert_quad::<S, P>(src.pixels_spec()[i]),
                ),
    {
        proof {
            src.lemma_wf();
        }
        let mut r = RasterBuilder::new().with_clear(src.width(), src.height());
        let reg = src.region();
        r.compose_raster(reg, src, reg);
        proof {
            let w = src.width_spec();
            let h = src.height_spec();
            assert forall|i: int| 0 <= i < r.pixels_spec().len() implies holds(
                #[trigger] r.pixels_spec()[i],
                convert_quad::<S, P>(src.pixels_spec()[i]),
            ) by {
                assert(w > 0) by (nonlinear_arith)
                    requires
                        0 <= i < w * h,
                        w >= 0,
                        h >= 0,
                ;
                lemma_row_col(w, h, i);
            }
        }
        r
    }

    /// Build a `Raster` from a `u8` buffer.
    ///
    /// Channel `j` of pixel `i` is entry `i * N + j` of the buffer, where
    /// `N` is the number of channels of a pixel.
    ///
    /// * `width` Width of `Raster`.
    /// * `height` Height of `Raster`.
    /// * `buffer` Buffer of pixel data, whose length must be `width` *
    ///   `height` * `N`.
    pub fn with_u8_buffer(self, width: u32, height: u32, buffer: Vec<u8>) -> (r: Raster<P>)
        where
            P: Pixel<Chan = Ch8>,
        requires
            raster_size_ok(width, height),
            width * height > 0,
            buffer@.len() == width * height * P::count(),
        ensures
            r.wf(),
            r.width_spec() == width,
            r.height_spec() == height,
            forall|i: int, j: int|
                0 <= i < width * height && 0 <= j < P::count() ==> (#[trigger] r.pixels_spec()[i].chans()[j])@
                    == buffer@[i * P::count() + j],
    {
        proof {
            P::lemma_count_range();
        }
        let width = width as i32;
        let height = height as i32;
        let len = (width * height) as usize;
        let n = P::channel_count();
        let blen = buffer.len();
        let mut pixels: Vec<P> = Vec::new();
        let mut i: usize = 0;
        while i < len
            invariant
                i <= len,
                blen == buffer@.len(),
                len == width * height,
                n == P::count(),
                1 <= n <= 4,
                buffer@.len() == len * n,
                pixels@.len() == i,
                forall|k: int, j: int|
                    0 <= k < i && 0 <= j < n ==> (#[trigger] pixels@[k].chans()[j])@ == buffer@[k * n + j],
            decreases len - i,
        {
            proof {
                assert(i * n + n <= len * n) by (nonlinear_arith)
                    requires
                        i < len,
                        n >= 1,
                ;
            }
            let base = i * n;
            let c0 = Ch8::new(buffer[base]);
            let c1 = if 1 < n { Ch8::new(buffer[base + 1]) } else { Ch8::new(0) };
            let c2 = if 2 < n { Ch8::new(buffer[base + 2]) } else { Ch8::new(0) };
            let c3 = if 3 < n { Ch8::new(buffer[base + 3]) } else { Ch8::new(0) };
            let ch = [c0, c1, c2, c3];
            let p = P::from_channels(ch.as_slice());
            pixels.push(p);
            i += 1;
        }
        Raster { width, height, pixels }
    }

    /// Build a `Raster` from a `u16` buffer (channels in native-endian byte order).
    ///
    /// Channel `j` of pixel `i` is entry `i * N + j` of the buffer, where
    /// `N` is the number of channels of a pixel.
    ///
    /// * `width` Width of `Raster`.
    /// * `height` Height of `Raster`.
    /// * `buffer` Buffer of pixel data, whose length must be `width` *
    ///   `height` * `N`.
    pub fn with_u16_buffer(self, width: u32, height: u32, buffer: Vec<u16>) -> (r: Raster<P>)
        where
            P: Pixel<Chan = Ch16>,
        requires
            raster_size_ok(width, height),
            width * height > 0,
            buffer@.len() == width * height * P::count(),
        ensures
            r.wf(),
            r.width_spec() == width,
            r.height_spec() == height,
            forall|i: int, j: int|
                0 <= i < width * height && 0 <= j < P::count() ==> (#[trigger] r.pixels_spec()[i].chans()[j])@
                    == buffer@[i * P::count() + j],
    {
        proof {
            P::lemma_count_range();
        }
        let width = width as i32;
        let height = height as i32;
        let len = (width * height) as usize;
        let n = P::channel_count();
        let blen = buffer.len();
        let mut pixels: Vec<P> = Vec::new();
        let mut i: usize = 0;
        while i < len
            invariant
                i <= len,
                blen == buffer@.len(),
                len == width * height,
                n == P::count(),
                1 <= n <= 4,
                buffer@.len() == len * n,
                pixels@.len() == i,
                forall|k: int, j: int|
                    0 <= k < i && 0 <= j < n ==> (#[trigger] pixels@[k].chans()[j])@ == buffer@[k * n + j],
            decreases len - i,
        {
            proof {
                assert(i * n + n <= len * n) by (nonlinear_arith)
                    requires
                        i < len,
                        n >= 1,
                ;
            }
            let base = i * n;
            let c0 = Ch16::new(buffer[base]);
            let c1 = if 1 < n { Ch16::new(buffer[base + 1]) } else { Ch16::new(0) };
            let c2 = if 2 < n { Ch16::new(buffer[base + 2]) } else { Ch16::new(0) };
            let c3 = if 3 < n { Ch16::new(buffer[base + 3]) } else { Ch16::new(0) };
            let ch = [c0, c1, c2, c3];
            let p = P::from_channels(ch.as_slice());
            pixels.push(p);
            i += 1;
        }
        Raster { width, height, pixels }
    }

    /// Build a `Raster` with owned pixel data.  You can get ownership of the
    /// pixel data back from the `Raster` with `into_pixels()`.
    ///
    /// * `width` Width of `Raster`.
    /// * `height` Height of `Raster`.
    /// * `pixels` Pixel data, whose length must be `width` * `height`.
    pub fn with_pixels(self, width: u32, height: u32, pixels: Vec<P>) -> (r: Raster<P>)
        requires
            raster_size_ok(width, height),
            pixels@.len() == width * height,
        ensures
            r.wf(),
            r.width_spec() == width,
            r.height_spec() == height,
            r.pixels_spec() == pixels@,
    {
        let width = width as i32;
        let height = height as i32;
        Raster { width, height, pixels }
    }
}


/// Can a region be intersected with a raster `w` by `h`?  The region may
/// not lie wholly left of, right of, above or below the raster.
pub open spec fn raster_intersection_defined(w: int, h: int, reg: Region) -> bool {
    &&& min_int(reg.right_spec(), w) >= max_int(reg.left_spec(), 0)
    &&& min_int(reg.bottom_spec(), h) >= max_int(reg.top_spec(), 0)
}

/// Intersection of a region with a raster `w` by `h`.
pub open spec fn raster_intersect(w: int, h: int, reg: Region) -> Region {
    let x0 = max_int(reg.left_spec(), 0);
    let x1 = min_int(reg.right_spec(), w);
    let y0 = max_int(reg.top_spec(), 0);
    let y1 = min_int(reg.bottom_spec(), h);
    Region::make(x0, y0, x1 - x0, y1 - y0)
}

/// Amount a coordinate lies before zero (`v.min(0).abs()`).
pub open spec fn clip(v: int) -> int {
    if v < 0 { -v } else { 0 }
}

/// How `compose_raster` copies: destination column and row, source column
/// and row of the first pixel, then the number of columns and rows.
///
/// The regions are clipped to their rasters and to the smaller of the two;
/// the part of each region that lay before zero shifts the other one.
pub open spec fn compose_plan(
    dw: int,
    dh: int,
    to: Region,
    sw: int,
    sh: int,
    from: Region,
) -> (int, int, int, int, int, int) {
    let (tx, ty) = (clip(to.left_spec()), clip(to.top_spec()));
    let (fx, fy) = (clip(from.left_spec()), clip(from.top_spec()));
    let t = raster_intersect(dw, dh, to);
    let f = raster_intersect(sw, sh, from);
    let width = min_int(t.width_spec(), f.width_spec());
    let height = min_int(t.height_spec(), f.height_spec());
    if width > 0 && height > 0 {
        let tox = t.left_spec() + fx;
        let toy = t.top_spec() + fy;
        let fox = f.left_spec() + tx;
        let foy = f.top_spec() + ty;
        let rows = min_int(height, min_int(max_int(dh - toy, 0), max_int(sh - foy, 0)));
        let cols = min_int(width, min_int(dw - tox, sw - fox));
        (tox, toy, fox, foy, cols, rows)
    } else {
        (0, 0, 0, 0, 0, 0)
    }
}

/// Can `compose_raster` run on these regions without overflow or slicing
/// past the end of a row?
pub open spec fn compose_defined(dw: int, dh: int, to: Region, sw: int, sh: int, from: Region) -> bool {
    let (tx, ty) = (clip(to.left_spec()), clip(to.top_spec()));
    let (fx, fy) = (clip(from.left_spec()), clip(from.top_spec()));
    let t = raster_intersect(dw, dh, to);
    let f = raster_intersect(sw, sh, from);
    let width = min_int(t.width_spec(), f.width_spec());
    let height = min_int(t.height_spec(), f.height_spec());
    let plan = compose_plan(dw, dh, to, sw, sh, from);
    &&& to.left_spec() > i32::MIN
    &&& to.top_spec() > i32::MIN
    &&& from.left_spec() > i32::MIN
    &&& from.top_spec() > i32::MIN
    &&& raster_intersection_defined(dw, dh, to)
    &&& raster_intersection_defined(sw, sh, from)
    &&& width > 0 && height > 0 ==> {
        &&& t.left_spec() + fx <= i32::MAX
        &&& t.top_spec() + fy <= i32::MAX
        &&& f.left_spec() + tx <= i32::MAX
        &&& f.top_spec() + ty <= i32::MAX
        &&& plan.5 > 0 ==> plan.0 <= dw && plan.2 <= sw
    }
}

/// Where `compose_raster` copies, destination pixel (`x`, `y`) receives the
/// source pixel (`x - to.x + from.x`, `y - to.y + from.y`): whatever part of
/// `to` or `from` is clipped away (before zero or past a raster's edge), the
/// two regions stay aligned at their corners.  The pixels written and
/// those read stay in their rasters.
pub proof fn lemma_compose_aligned(dw: int, dh: int, to: Region, sw: int, sh: int, from: Region)
    requires
        compose_defined(dw, dh, to, sw, sh, from),
        0 <= to.width_spec(),
        0 <= to.height_spec(),
        0 <= from.width_spec(),
        0 <= from.height_spec(),
    ensures
        ({
            let plan = compose_plan(dw, dh, to, sw, sh, from);
            plan.4 > 0 && plan.5 > 0 ==> {
                &&& plan.2 - plan.0 == from.left_spec() - to.left_spec()
                &&& plan.3 - plan.1 == from.top_spec() - to.top_spec()
                &&& 0 <= plan.0 && plan.0 + plan.4 <= dw
                &&& 0 <= plan.1 && plan.1 + plan.5 <= dh
                &&& 0 <= plan.2 && plan.2 + plan.4 <= sw
                &&& 0 <= plan.3 && plan.3 + plan.5 <= sh
            }
        }),
        forall|i: int|
            0 <= dw && #[trigger] in_block(
                i,
                dw,
                compose_plan(dw, dh, to, sw, sh, from).0,
                compose_plan(dw, dh, to, sw, sh, from).1,
                compose_plan(dw, dh, to, sw, sh, from).4,
                compose_plan(dw, dh, to, sw, sh, from).5,
            ) ==> compose_source(i, dw, sw, compose_plan(dw, dh, to, sw, sh, from)) == (i / dw
                - to.top_spec() + from.top_spec()) * sw + (i % dw - to.left_spec()
                + from.left_spec()),
{
    let t = raster_intersect(dw, dh, to);
    let f = raster_intersect(sw, sh, from);
    let x0 = max_int(to.left_spec(), 0);
    let y0 = max_int(to.top_spec(), 0);
    Region::lemma_make(x0, y0, min_int(to.right_spec(), dw) - x0, min_int(to.bottom_spec(), dh) - y0);
    let u0 = max_int(from.left_spec(), 0);
    let v0 = max_int(from.top_spec(), 0);
    Region::lemma_make(
        u0,
        v0,
        min_int(from.right_spec(), sw) - u0,
        min_int(from.bottom_spec(), sh) - v0,
    );
}

/// Flat index of the source pixel that `compose_raster` copies to flat
/// index `i` of the destination.
pub open spec fn compose_source(i: int, dw: int, sw: int, plan: (int, int, int, int, int, int)) -> int {
    (i / dw - plan.1 + plan.3) * sw + (i % dw - plan.0 + plan.2)
}

impl<P: Pixel> Raster<P> {
    /// Get width of `Raster`.
    pub fn width(&self) -> (w: u32)
        requires
            self.wf(),
        ensures
            w == self.width_spec(),
    {
        self.width as u32
    }

    /// Get height of `Raster`.
    pub fn height(&self) -> (h: u32)
        requires
            self.wf(),
        ensures
            h == self.height_spec(),
    {
        self.height as u32
    }

    /// Clear all pixels to default value.
    pub fn clear(&mut self)
        requires
            old(self).wf(),
        ensures
            final(self).wf(),
            final(self).width_spec() == old(self).width_spec(),
            final(self).height_spec() == old(self).height_spec(),
            final(self).pixels_spec().len() == old(self).pixels_spec().len(),
            forall|i: int|
                0 <= i < final(self).pixels_spec().len() ==> is_zero(
                    #[trigger] final(self).pixels_spec()[i],
                ),
    {
        let z = P::zero();
        let n = self.pixels.len();
        let mut i: usize = 0;
        while i < n
            invariant
                i <= n,
                n == self.pixels@.len(),
                self.width == old(self).width,
                self.height == old(self).height,
                old(self).wf(),
                is_zero(z),
                forall|j: int| 0 <= j < i ==> #[trigger] self.pixels@[j] == z,
            decreases n - i,
        {
            self.pixels.set(i, z);
            i += 1;
        }
    }

    /// Get one pixel.
    pub fn pixel(&self, x: i32, y: i32) -> (p: P)
        requires
            self.wf(),
            0 <= x < self.width_spec(),
            0 <= y < self.height_spec(),
        ensures
            p == self.pixels_spec()[y * self.width_spec() + x],
    {
        proof {
            lemma_index(self.width as int, self.height as int, x as int, y as int);
        }
        let i = (self.width * y + x) as usize;
        self.pixels[i]
    }

    /// Get a mutable pixel.
    pub fn pixel_mut(&mut self, x: i32, y: i32) -> (p: &mut P)
        requires
            old(self).wf(),
            0 <= x < old(self).width_spec(),
            0 <= y < old(self).height_spec(),
        ensures
            *p == old(self).pixels_spec()[y * old(self).width_spec() + x],
            final(self).pixels_spec() == old(self).pixels_spec().update(
                y * old(self).width_spec() + x,
                *final(p),
            ),
            final(self).width_spec() == old(self).width_spec(),
            final(self).height_spec() == old(self).height_spec(),
            final(self).wf(),
    {
        proof {
            lemma_index(self.width as int, self.height as int, x as int, y as int);
        }
        let i = (self.width * y + x) as usize;
        &mut self.pixels[i]
    }

    /// Get a slice of all pixels.
    pub fn pixels(&self) -> (s: &[P])
        ensures
            s@ == self.pixels_spec(),
    {
        self.pixels.as_slice()
    }

    /// Get a mutable slice of all pixels.
    pub fn pixels_mut(&mut self) -> (s: &mut [P])
        ensures
            s@ == old(self).pixels_spec(),
            final(self).pixels_spec() == final(s)@,
            final(self).width_spec() == old(self).width_spec(),
            final(self).height_spec() == old(self).height_spec(),
            old(self).wf() && final(s)@.len() == s@.len() ==> final(self).wf(),
    {
        self.pixels.as_mut_slice()
    }

    /// Take the pixels, row after row.
    pub fn into_pixels(self) -> (v: Vec<P>)
        ensures
            v@ == self.pixels_spec(),
    {
        self.pixels
    }

    /// Get the pixels as bytes: the memory representation of each channel
    /// of each pixel, row after row, in the machine's byte order.
    pub fn as_u8_slice(&self) -> (v: Vec<u8>)
        requires
            self.wf(),
        ensures
            exists|le: bool| #[trigger] raster_bytes(self.pixels_spec(), v@, le),
    {
        let le = native_little_endian();
        proof {
            P::lemma_count_range();
            P::Chan::lemma_byte_count();
        }
        let ghost n = P::count() as int;
        let ghost bc = P::Chan::byte_count() as int;
        let mut v: Vec<u8> = Vec::new();
        let mut i: usize = 0;
        while i < self.pixels.len()
            invariant
                i <= self.pixels@.len(),
                n == P::count(),
                bc == P::Chan::byte_count(),
                1 <= n <= 4,
                1 <= bc <= 2,
                v@.len() == i * n * bc,
                forall|k: int, j: int|
                    0 <= k < i && 0 <= j < n ==> chan_bytes_at(
                        v@,
                        #[trigger] self.pixels@[k].chans()[j],
                        k * n + j, le,
                    ),
            decreases self.pixels@.len() - i,
        {
            let p = self.pixels[i];
            proof {
                P::lemma_count(p);
            }
            let ch = p.channels();
            let mut j: usize = 0;
            while j < ch.len()
                invariant
                    i < self.pixels@.len(),
                    p == self.pixels@[i as int],
                    ch@ == p.chans(),
                    ch@.len() == n,
                    j <= n,
                    n == P::count(),
                    bc == P::Chan::byte_count(),
                    1 <= n <= 4,
                    1 <= bc <= 2,
                    v@.len() == (i * n + j) * bc,
                    forall|k: int, jj: int|
                        0 <= k < i && 0 <= jj < n ==> chan_bytes_at(
                            v@,
                            #[trigger] self.pixels@[k].chans()[jj],
                            k * n + jj, le,
                        ),
                    forall|jj: int|
                        0 <= jj < j ==> chan_bytes_at(
                            v@,
                            #[trigger] self.pixels@[i as int].chans()[jj],
                            i * n + jj, le,
                        ),
                decreases n - j,
            {
                let ghost before = v@;
                ch[j].push_bytes(&mut v, le);
                proof {
                    let len = before.len() as int;
                    assert forall|k: int, jj: int|
                        0 <= k < i && 0 <= jj < n implies chan_bytes_at(
                        v@,
                        #[trigger] self.pixels@[k].chans()[jj],
                        k * n + jj, le,
                    ) by {
                        assert(0 <= k * n + jj < i * n + j) by (nonlinear_arith)
                            requires
                                0 <= k < i,
                                0 <= jj < n,
                                0 <= j,
                        ;
                        lemma_slot_before(k * n + jj, i * n + j, bc);
                        lemma_keep_prefix(before, v@, (k * n + jj) * bc, bc);
                    }
                    assert forall|jj: int| 0 <= jj < j + 1 implies chan_bytes_at(
                        v@,
                        #[trigger] self.pixels@[i as int].chans()[jj],
                        i * n + jj, le,
                    ) by {
                        if jj < j {
                            lemma_slot_before(i * n + jj, i * n + j, bc);
                            lemma_keep_prefix(before, v@, (i * n + jj) * bc, bc);
                        } else {
                            assert(len == (i * n + jj) * bc);
                        }
                    }
                    assert(v@.len() == (i * n + j + 1) * bc) by (nonlinear_arith)
                        requires
                            v@.len() == (i * n + j) * bc + bc,
                    ;
                }
                j += 1;
            }
            proof {
                assert(v@.len() == (i + 1) * n * bc) by (nonlinear_arith)
                    requires
                        v@.len() == (i * n + n) * bc,
                ;
                assert forall|k: int, jj: int|
                    0 <= k < i + 1 && 0 <= jj < n implies chan_bytes_at(
                    v@,
                    #[trigger] self.pixels@[k].chans()[jj],
                    k * n + jj, le,
                ) by {
                    if k == i {
                        assert(self.pixels@[k].chans()[jj] == self.pixels@[i as int].chans()[jj]);
                    }
                }
            }
            i += 1;
        }
        proof {
            assert(raster_bytes(self.pixels@, v@, le));
            assert(raster_bytes(self.pixels_spec(), v@, le));
        }
        v
    }

    /// Get `Region` of entire `Raster`.
    pub fn region(&self) -> (r: Region)
        requires
            self.wf(),
        ensures
            r == Region::make(0, 0, self.width_spec(), self.height_spec()),
    {
        Region::new(0, 0, self.width(), self.height())
    }

    /// Get intersection with a `Region`.
    pub fn intersection<R: IntoRegion>(&self, reg: R) -> (r: Region)
        requires
            self.wf(),
            raster_intersection_defined(self.width_spec(), self.height_spec(), reg.to_region()),
        ensures
            r == raster_intersect(self.width_spec(), self.height_spec(), reg.to_region()),
    {
        let reg = reg.into_region();
        let x0 = if reg.left() >= 0 { reg.left() } else { 0 };
        let right = reg.right();
        let x1 = if right <= self.width { right } else { self.width };
        let w = (x1 - x0) as u32;
        let y0 = if reg.top() >= 0 { reg.top() } else { 0 };
        let bottom = reg.bottom();
        let y1 = if bottom <= self.height { bottom } else { self.height };
        let h = (y1 - y0) as u32;
        Region::new(x0, y0, w, h)
    }
}


/// Columns `[x0, x1)` and rows `[y0, y1)` that `set_region` fills in a
/// raster `w` by `h`: a negative side starts past the end of the raster.
pub open spec fn fill_span(w: int, h: int, reg: Region) -> (int, int, int, int) {
    let x0 = if reg.left_spec() >= 0 { reg.left_spec() } else { w };
    let x1 = min_int(w, x0 + reg.width_spec());
    let y0 = if reg.top_spec() >= 0 { reg.top_spec() } else { h };
    let y1 = min_int(h, y0 + reg.height_spec());
    (x0, x1, y0, y1)
}

/// Source of pixels for [Raster::set_region]: a pixel `Iterator`, or a
/// single color given again and again.
pub trait PixelSource {
    /// Pixel format.
    type Item: Pixel;

    /// Can `next_pixel` be called?
    spec fn source_ready(&self) -> bool;

    /// Pixel that the `k`-th call of `next_pixel` from now gives.
    spec fn item(&self, k: int) -> Option<Self::Item>;

    /// Get the next pixel.
    fn next_pixel(&mut self) -> (p: Option<Self::Item>)
        requires
            old(self).source_ready(),
        ensures
            final(self).source_ready(),
            p == old(self).item(0),
            forall|k: int| 0 <= k ==> #[trigger] final(self).item(k) == old(self).item(k + 1),
    ;
}

/// A color is a source giving that color every time.
impl<S: Pixel> PixelSource for S {
    type Item = S;

    open spec fn source_ready(&self) -> bool {
        true
    }

    open spec fn item(&self, k: int) -> Option<S> {
        Some(*self)
    }

    fn next_pixel(&mut self) -> (p: Option<S>) {
        Some(*self)
    }
}

/// A `Vec` of pixels gives its pixels in order, then nothing.
impl<S: Pixel> PixelSource for Vec<S> {
    type Item = S;

    open spec fn source_ready(&self) -> bool {
        true
    }

    open spec fn item(&self, k: int) -> Option<S> {
        if 0 <= k < self@.len() {
            Some(self@[k])
        } else {
            None
        }
    }

    fn next_pixel(&mut self) -> (p: Option<S>) {
        if self.len() > 0 {
            Some(self.remove(0))
        } else {
            None
        }
    }
}

/// A region iterator gives the pixels left in its region, then nothing.
impl<'a, P: Pixel> PixelSource for RasterIter<'a, P> {
    type Item = P;

    open spec fn source_ready(&self) -> bool {
        self.ready()
    }

    open spec fn item(&self, k: int) -> Option<P> {
        if 0 <= k < self.rest().len() {
            Some(self.rest()[k])
        } else {
            None
        }
    }

    fn next_pixel(&mut self) -> (p: Option<P>) {
        self.next()
    }
}

/// Position of flat index `i` in the fill order of the block of `cols`
/// columns at (`x0`, `y0`) in a raster `w` pixels wide: row after row.
pub open spec fn block_pos(i: int, w: int, x0: int, y0: int, cols: int) -> int {
    (i / w - y0) * cols + (i % w - x0)
}

/// Is `q` what `set_region` leaves at a pixel that was `o`, given source
/// pixel `s`: `s` converted, or `o` where the source gave nothing?
pub open spec fn fill_value<S: Pixel, P: Pixel>(q: P, o: P, s: Option<S>) -> bool {
    match s {
        Some(s) => holds(q, convert_quad::<S, P>(s)),
        None => q == o,
    }
}

impl<P: Pixel> Raster<P> {
    /// Set a `Region` using a pixel source, converting its format.
    ///
    /// * `reg` Region within `Raster`.
    /// * `it` Source of pixels in `Region`: a color, or an `Iterator` of
    ///   pixels such as a region of another raster.  The pixels of the
    ///   region are set row after row; where the source runs out, the
    ///   remaining pixels are left as they are.
    pub fn set_region<R: IntoRegion, I: PixelSource>(&mut self, reg: R, it: I)
        requires
            old(self).wf(),
            it.source_ready(),
            convert_supported::<I::Item, P>(),
        ensures
            final(self).wf(),
            final(self).width_spec() == old(self).width_spec(),
            final(self).height_spec() == old(self).height_spec(),
            final(self).pixels_spec().len() == old(self).pixels_spec().len(),
            ({
                let w = old(self).width_spec();
                let (x0, x1, y0, y1) = fill_span(w, old(self).height_spec(), reg.to_region());
                forall|i: int|
                    0 <= i < final(self).pixels_spec().len() ==> if x0 < x1 && y0 < y1 && in_block(
                        i,
                        w,
                        x0,
                        y0,
                        x1 - x0,
                        y1 - y0,
                    ) {
                        fill_value(
                            #[trigger] final(self).pixels_spec()[i],
                            old(self).pixels_spec()[i],
                            it.item(block_pos(i, w, x0, y0, x1 - x0)),
                        )
                    } else {
                        final(self).pixels_spec()[i] == old(self).pixels_spec()[i]
                    }
            }),
    {
        let reg = reg.into_region();
        let ghost w = self.width as int;
        let ghost h = self.height as int;
        let width = self.width();
        let height = self.height();
        let x0 = if reg.left() >= 0 { reg.left() as u32 } else { width };
        let xe = x0 + reg.width();
        let x1 = if width <= xe { width } else { xe };
        let y0 = if reg.top() >= 0 { reg.top() as u32 } else { height };
        let ye = y0 + reg.height();
        let y1 = if height <= ye { height } else { ye };
        let mut src = it;
        if y0 < y1 && x0 < x1 {
            let ghost cols = x1 - x0;
            let ghost oldpix = old(self).pixels@;
            let ghost good = |i: int, q: P|
                fill_value(q, oldpix[i], it.item(block_pos(i, w, x0 as int, y0 as int, cols)));
            let ghost mut cnt: int = 0;
            let mut yi = y0;
            while yi < y1
                invariant
                    y0 <= yi <= y1 <= h,
                    x0 < x1 <= w,
                    cols == x1 - x0,
                    w == self.width,
                    h == self.height,
                    width == w,
                    self.width == old(self).width,
                    self.height == old(self).height,
                    old(self).wf(),
                    oldpix == old(self).pixels@,
                    convert_supported::<I::Item, P>(),
                    src.source_ready(),
                    cnt == (yi - y0) * cols,
                    forall|k: int| 0 <= k ==> #[trigger] src.item(k) == it.item(cnt + k),
                    good == (|i: int, q: P|
                        fill_value(q, oldpix[i], it.item(block_pos(i, w, x0 as int, y0 as int, cols)))),
                    fill_inv(self.pixels@, oldpix, w, x0 as int, y0 as int, cols, yi - y0, 0, good),
                decreases y1 - yi,
            {
                let mut x = x0;
                while x < x1
                    invariant
                        y0 <= yi < y1 <= h,
                        x0 <= x <= x1 <= w,
                        cols == x1 - x0,
                        w == self.width,
                        h == self.height,
                        width == w,
                        self.width == old(self).width,
                        self.height == old(self).height,
                        old(self).wf(),
                        oldpix == old(self).pixels@,
                        convert_supported::<I::Item, P>(),
                        src.source_ready(),
                        cnt == (yi - y0) * cols + (x - x0),
                        forall|k: int| 0 <= k ==> #[trigger] src.item(k) == it.item(cnt + k),
                        good == (|i: int, q: P|
                            fill_value(q, oldpix[i], it.item(block_pos(i, w, x0 as int, y0 as int, cols)))),
                        fill_inv(
                            self.pixels@,
                            oldpix,
                            w,
                            x0 as int,
                            y0 as int,
                            cols,
                            yi - y0,
                            x - x0,
                            good,
                        ),
                    decreases x1 - x,
                {
                    proof {
                        lemma_index(w, h, x as int, yi as int);
                    }
                    let k = (yi * width + x) as usize;
                    let ghost kk = k as int;
                    assert(block_pos(kk, w, x0 as int, y0 as int, cols) == cnt);
                    let ghost before = src;
                    let next = src.next_pixel();
                    assert(next == it.item(cnt)) by {
                        assert(before.item(0) == it.item(cnt + 0));
                    }
                    match next {
                        Some(s) => {
                            let c: P = convert::<I::Item, P>(s);
                            proof {
                                lemma_fill_step(
                                    self.pixels@,
                                    oldpix,
                                    w,
                                    h,
                                    x0 as int,
                                    y0 as int,
                                    cols,
                                    yi - y0,
                                    x - x0,
                                    good,
                                    c,
                                );
                            }
                            self.pixels.set(k, c);
                        },
                        None => {
                            proof {
                                assert(!done(kk, w, x0 as int, y0 as int, cols, yi - y0, x - x0));
                                assert(self.pixels@[kk] == oldpix[kk]);
                                lemma_fill_step(
                                    self.pixels@,
                                    oldpix,
                                    w,
                                    h,
                                    x0 as int,
                                    y0 as int,
                                    cols,
                                    yi - y0,
                                    x - x0,
                                    good,
                                    self.pixels@[kk],
                                );
                                assert(self.pixels@.update(kk, self.pixels@[kk]) =~= self.pixels@);
                            }
                        },
                    }
                    proof {
                        assert forall|j: int| 0 <= j implies #[trigger] src.item(j) == it.item(
                            cnt + 1 + j,
                        ) by {
                            assert(src.item(j) == before.item(j + 1));
                            assert(before.item(j + 1) == it.item(cnt + (j + 1)));
                        }
                        cnt = cnt + 1;
                    }
                    x += 1;
                }
                proof {
                    lemma_fill_row(self.pixels@, oldpix, w, x0 as int, y0 as int, cols, yi - y0, good);
                    assert(cnt == (yi + 1 - y0) * cols) by (nonlinear_arith)
                        requires
                            cnt == (yi - y0) * cols + (x1 - x0),
                            cols == x1 - x0,
                    ;
                }
                yi += 1;
            }
        }
    }

    /// Compose from a source `Raster`, converting each pixel.
    ///
    /// * `to` Region within `self` (destination).
    /// * `src` Source `Raster`.
    /// * `from` Region within source `Raster`.
    ///
    /// `to` / `from` can be `Region` structs, tuples of (*x*, *y*, *width*,
    /// *height*) or the unit type `()`.  Using `()` has the same result as
    /// `Raster::region()`.
    ///
    /// The composed `Region` is clamped to the smaller of `to` and `from` in
    /// both `X` and `Y` dimensions.  Also, `to` and `from` are clipped to
    /// their respective `Raster` dimensions.
    pub fn compose_raster<R0: IntoRegion, S: Pixel, R1: IntoRegion>(
        &mut self,
        to: R0,
        src: &Raster<S>,
        from: R1,
    )
        requires
            old(self).wf(),
            src.wf(),
            convert_supported::<S, P>(),
            compose_defined(
                old(self).width_spec(),
                old(self).height_spec(),
                to.to_region(),
                src.width_spec(),
                src.height_spec(),
                from.to_region(),
            ),
        ensures
            final(self).wf(),
            final(self).width_spec() == old(self).width_spec(),
            final(self).height_spec() == old(self).height_spec(),
            final(self).pixels_spec().len() == old(self).pixels_spec().len(),
            ({
                let plan = compose_plan(
                    old(self).width_spec(),
                    old(self).height_spec(),
                    to.to_region(),
                    src.width_spec(),
                    src.height_spec(),
                    from.to_region(),
                );
                forall|i: int|
                    0 <= i < final(self).pixels_spec().len() ==> if in_block(
                        i,
                        old(self).width_spec(),
                        plan.0,
                        plan.1,
                        plan.4,
                        plan.5,
                    ) {
                        holds(
                            #[trigger] final(self).pixels_spec()[i],
                            convert_quad::<S, P>(
                                src.pixels_spec()[compose_source(
                                    i,
                                    old(self).width_spec(),
                                    src.width_spec(),
                                    plan,
                                )],
                            ),
                        )
                    } else {
                        final(self).pixels_spec()[i] == old(self).pixels_spec()[i]
                    }
            }),
    {
        let ghost plan = compose_plan(
            self.width as int,
            self.height as int,
            to.to_region(),
            src.width as int,
            src.height as int,
            from.to_region(),
        );
        let to = to.into_region();
        let from = from.into_region();
        let tx = if to.left() < 0 { -to.left() } else { 0 };
        let ty = if to.top() < 0 { -to.top() } else { 0 };
        let fx = if from.left() < 0 { -from.left() } else { 0 };
        let fy = if from.top() < 0 { -from.top() } else { 0 };
        let to = self.intersection(to);
        let from = src.intersection(from);
        let width = if to.width() <= from.width() { to.width() } else { from.width() };
        let height = if to.height() <= from.height() { to.height() } else { from.height() };
        if width > 0 && height > 0 {
            let to = Region::new(to.left() + fx, to.top() + fy, width, height);
            let from = Region::new(from.left() + tx, from.top() + ty, width, height);
            let tox = to.left();
            let toy = to.top();
            let fox = from.left();
            let foy = from.top();
            let dw = self.width;
            let sw = src.width;
            // rows of the destination from `toy` and of the source from `foy`,
            // at most `height` of them
            let drows: u32 = if self.height > toy { (self.height - toy) as u32 } else { 0 };
            let srows: u32 = if src.height > foy { (src.height - foy) as u32 } else { 0 };
            let rows = if height <= drows { height } else { drows };
            let rows = if rows <= srows { rows } else { srows };
            if rows > 0 {
                // columns of the destination row from `tox`, of the source row
                // from `fox`, at most `width` of them
                let dcols = (dw - tox) as u32;
                let scols = (sw - fox) as u32;
                let cols = if width <= dcols { width } else { dcols };
                let cols = if cols <= scols { cols } else { scols };
                assert(plan == (tox as int, toy as int, fox as int, foy as int, cols as int, rows as int));
                let ghost w = dw as int;
                let ghost h = self.height as int;
                let ghost swi = sw as int;
                let ghost shi = src.height as int;
                let ghost good = |i: int, q: P|
                    holds(q, convert_quad::<S, P>(src.pixels@[compose_source(i, w, swi, plan)]));
                let mut r: u32 = 0;
                while r < rows
                    invariant
                        0 <= r <= rows,
                        0 <= tox,
                        0 <= toy,
                        0 <= fox,
                        0 <= foy,
                        toy + rows <= h,
                        foy + rows <= shi,
                        tox + cols <= w,
                        fox + cols <= swi,
                        w == dw,
                        w == self.width,
                        h == self.height,
                        swi == sw,
                        swi == src.width,
                        shi == src.height,
                        src.wf(),
                        self.width == old(self).width,
                        self.height == old(self).height,
                        old(self).wf(),
                        convert_supported::<S, P>(),
                        plan == (tox as int, toy as int, fox as int, foy as int, cols as int, rows as int),
                        good == (|i: int, q: P|
                            holds(q, convert_quad::<S, P>(src.pixels@[compose_source(i, w, swi, plan)]))),
                        fill_inv(self.pixels@, old(self).pixels@, w, tox as int, toy as int, cols as int, r as int, 0, good),
                    decreases rows - r,
                {
                    let mut c: u32 = 0;
                    while c < cols
                        invariant
                            0 <= r < rows,
                            0 <= c <= cols,
                            0 <= tox,
                            0 <= toy,
                            0 <= fox,
                            0 <= foy,
                            toy + rows <= h,
                            foy + rows <= shi,
                            tox + cols <= w,
                            fox + cols <= swi,
                            w == dw,
                            w == self.width,
                            h == self.height,
                            swi == sw,
                            swi == src.width,
                            shi == src.height,
                            src.wf(),
                            self.width == old(self).width,
                            self.height == old(self).height,
                            old(self).wf(),
                            convert_supported::<S, P>(),
                            plan == (tox as int, toy as int, fox as int, foy as int, cols as int, rows as int),
                            good == (|i: int, q: P|
                                holds(q, convert_quad::<S, P>(src.pixels@[compose_source(i, w, swi, plan)]))),
                            fill_inv(
                                self.pixels@,
                                old(self).pixels@,
                                w,
                                tox as int,
                                toy as int,
                                cols as int,
                                r as int,
                                c as int,
                                good,
                            ),
                        decreases cols - c,
                    {
                        proof {
                            lemma_index(w, h, (tox + c) as int, (toy + r) as int);
                            lemma_index(swi, shi, (fox + c) as int, (foy + r) as int);
                        }
                        let si = ((foy as u32 + r) * (sw as u32) + fox as u32 + c) as usize;
                        let di = ((toy as u32 + r) * (dw as u32) + tox as u32 + c) as usize;
                        let p: P = convert::<S, P>(src.pixels[si]);
                        proof {
                            let k = (toy + r) * w + tox + c;
                            assert(k == di);
                            assert(compose_source(k, w, swi, plan) == si);
                            lemma_fill_step(
                                self.pixels@,
                                old(self).pixels@,
                                w,
                                h,
                                tox as int,
                                toy as int,
                                cols as int,
                                r as int,
                                c as int,
                                good,
                                p,
                            );
                        }
                        self.pixels.set(di, p);
                        c += 1;
                    }
                    proof {
                        lemma_fill_row(
                            self.pixels@,
                            old(self).pixels@,
                            w,
                            tox as int,
                            toy as int,
                            cols as int,
                            r as int,
                            good,
                        );
                    }
                    r += 1;
                }
            }
        }
    }
}

/// Writing a pixel (as `pixel_mut` does) and reading pixels back (as
/// `pixel` does) gives the pixel written at its place, and the old pixel
/// everywhere else.
pub proof fn lemma_write_then_read<P: Pixel>(
    before: Raster<P>,
    after: Raster<P>,
    x: int,
    y: int,
    v: P,
    x2: int,
    y2: int,
)
    requires
        before.wf(),
        0 <= x < before.width_spec(),
        0 <= y < before.height_spec(),
        0 <= x2 < before.width_spec(),
        0 <= y2 < before.height_spec(),
        after.width_spec() == before.width_spec(),
        after.height_spec() == before.height_spec(),
        after.pixels_spec() == before.pixels_spec().update(y * before.width_spec() + x, v),
    ensures
        after.pixels_spec()[y * after.width_spec() + x] == v,
        (x2 != x || y2 != y) ==> after.pixels_spec()[y2 * after.width_spec() + x2]
            == before.pixels_spec()[y2 * before.width_spec() + x2],
{
    let w = before.width_spec();
    let h = before.height_spec();
    lemma_index(w, h, x, y);
    lemma_index(w, h, x2, y2);
}

/// Intersecting two regions does not depend on their order.
pub proof fn lemma_intersection_commutes(a: Region, b: Region)
    ensures
        intersection_defined(a, b) == intersection_defined(b, a),
        intersect(a, b) == intersect(b, a),
{
}

/// A region intersected with a region that holds it is itself (where its
/// right and bottom sides do not saturate).
pub proof fn lemma_intersection_within(a: Region, b: Region)
    requires
        0 <= a.width_spec(),
        0 <= a.height_spec(),
        b.left_spec() <= a.left_spec(),
        b.top_spec() <= a.top_spec(),
        a.left_spec() + a.width_spec() <= i32::MAX,
        a.top_spec() + a.height_spec() <= i32::MAX,
        a.right_spec() <= b.right_spec(),
        a.bottom_spec() <= b.bottom_spec(),
    ensures
        intersection_defined(a, b),
        intersect(a, b) == a,
{
}

/// A raster made from a `u8` buffer (as `with_u8_buffer` makes it) gives
/// back that same buffer as bytes (as `as_u8_slice` gives them).
pub proof fn lemma_u8_buffer_round_trip<P: Pixel<Chan = Ch8>>(
    r: Raster<P>,
    buffer: Seq<u8>,
    bytes: Seq<u8>,
    le: bool,
)
    requires
        r.wf(),
        buffer.len() == r.pixels_spec().len() * P::count(),
        forall|i: int, j: int|
            0 <= i < r.pixels_spec().len() && 0 <= j < P::count() ==> (
            #[trigger] r.pixels_spec()[i].chans()[j])@ == buffer[i * P::count() + j],
        raster_bytes(r.pixels_spec(), bytes, le),
    ensures
        bytes == buffer,
{
    P::lemma_count_range();
    let n = P::count() as int;
    let len = r.pixels_spec().len() as int;
    assert(bytes.len() == len * n) by (nonlinear_arith)
        requires
            bytes.len() == len * n * 1,
    ;
    assert forall|t: int| 0 <= t < bytes.len() implies #[trigger] bytes[t] == buffer[t] by {
        vstd::arithmetic::mul::lemma_mul_is_commutative(len, n);
        lemma_row_col(n, len, t);
        let k = t / n;
        let j = t % n;
        assert(k * n + j == t) by {
            vstd::arithmetic::mul::lemma_mul_is_commutative(k, n);
        }
        let c = r.pixels_spec()[k].chans()[j];
        assert(chan_bytes_at(bytes, c, k * n + j, le));
        assert(bytes.subrange(t, t + 1)[0] == bytes[t]);
    }
    assert(bytes =~= buffer);
}

/// A raster made from a `u16` buffer (as `with_u16_buffer` makes it) gives
/// back, as bytes (as `as_u8_slice` gives them), the two bytes of each value
/// of that buffer in turn, all in the same byte order.
pub proof fn lemma_u16_buffer_round_trip<P: Pixel<Chan = Ch16>>(
    r: Raster<P>,
    buffer: Seq<u16>,
    bytes: Seq<u8>,
    le: bool,
)
    requires
        r.wf(),
        buffer.len() == r.pixels_spec().len() * P::count(),
        forall|i: int, j: int|
            0 <= i < r.pixels_spec().len() && 0 <= j < P::count() ==> (
            #[trigger] r.pixels_spec()[i].chans()[j])@ == buffer[i * P::count() + j],
        raster_bytes(r.pixels_spec(), bytes, le),
    ensures
        bytes.len() == 2 * buffer.len(),
        forall|t: int|
            0 <= t < buffer.len() ==> Ch16::bytes_of(
                #[trigger] buffer[t] as nat,
                bytes.subrange(2 * t, 2 * t + 2),
                le,
            ),
{
    P::lemma_count_range();
    let n = P::count() as int;
    let len = r.pixels_spec().len() as int;
    assert(bytes.len() == 2 * buffer.len()) by (nonlinear_arith)
        requires
            bytes.len() == len * n * 2,
            buffer.len() == len * n,
    ;
    assert forall|t: int| 0 <= t < buffer.len() implies Ch16::bytes_of(
        #[trigger] buffer[t] as nat,
        bytes.subrange(2 * t, 2 * t + 2),
        le,
    ) by {
        vstd::arithmetic::mul::lemma_mul_is_commutative(len, n);
        lemma_row_col(n, len, t);
        let k = t / n;
        let j = t % n;
        assert(k * n + j == t) by {
            vstd::arithmetic::mul::lemma_mul_is_commutative(k, n);
        }
        let c = r.pixels_spec()[k].chans()[j];
        assert(chan_bytes_at(bytes, c, k * n + j, le));
        assert(t * 2 == 2 * t);
    }
}

/// `Iterator` of *rows* in a [Raster], as slices of pixels.
///
/// This struct is created by the [rows](Raster::rows) method of [Raster].
pub struct Rows<'a, P: Pixel> {
    pixels: &'a [P],
    width: usize,
    all: Ghost<Seq<P>>,
    given: Ghost<int>,
}

impl<'a, P: Pixel> Rows<'a, P> {
    /// The pixels left are those of `all` after the rows given.
    #[verifier::type_invariant]
    spec fn rest_after_given(&self) -> bool {
        &&& 0 <= self.given@
        &&& self.given@ * self.width <= self.all@.len()
        &&& self.pixels@ == self.all@.skip(self.given@ * self.width)
    }

    /// Pixels of the rows not yet given.
    pub closed spec fn rest(&self) -> Seq<P> {
        self.pixels@
    }

    /// Length of a row.
    pub closed spec fn row_len(&self) -> nat {
        self.width as nat
    }

    /// Pixels of all the rows, those given included.
    pub closed spec fn all(&self) -> Seq<P> {
        self.all@
    }

    /// Number of rows given so far.
    pub closed spec fn given(&self) -> int {
        self.given@
    }

    /// Create a new row `Iterator`.
    fn new(raster: &'a Raster<P>) -> (r: Self)
        requires
            raster.wf(),
        ensures
            r.rest() == raster.pixels_spec(),
            r.row_len() == raster.width_spec(),
            r.all() == raster.pixels_spec(),
            r.given() == 0,
    {
        let pixels = raster.pixels.as_slice();
        let width = raster.width as usize;
        proof {
            assert(0 * width == 0);
            assert(pixels@.skip(0) =~= pixels@);
        }
        Rows {
            pixels,
            width,
            all: Ghost(raster.pixels@),
            given: Ghost(0),
        }
    }

    /// Get the next row (`None` where less than a row is left): row `k`
    /// (counting from zero) is `all()[k * row_len() .. (k + 1) * row_len()]`.
    pub fn next(&mut self) -> (row: Option<&'a [P]>)
        requires
            old(self).row_len() > 0,
        ensures
            (row is Some) == (row_at(old(self).all(), old(self).row_len() as int, old(self).given())
                is Some),
            row matches Some(r) ==> Some(r@) == row_at(
                old(self).all(),
                old(self).row_len() as int,
                old(self).given(),
            ),
            final(self).given() == old(self).given() + if row is Some { 1int } else { 0int },
            final(self).row_len() == old(self).row_len(),
            final(self).all() == old(self).all(),
            old(self).rest().len() == old(self).all().len() - old(self).given()
                * old(self).row_len(),
            (row is Some) == ((old(self).given() + 1) * old(self).row_len() <= old(self).all().len()),
            old(self).rest().len() >= old(self).row_len() ==> {
                &&& row matches Some(r)
                &&& r@ == old(self).rest().take(old(self).row_len() as int)
                &&& r@ == old(self).all().subrange(
                    old(self).given() * old(self).row_len(),
                    (old(self).given() + 1) * old(self).row_len(),
                )
                &&& final(self).rest() == old(self).rest().skip(old(self).row_len() as int)
                &&& final(self).given() == old(self).given() + 1
            },
            old(self).rest().len() < old(self).row_len() ==> row is None && final(self).rest()
                == old(self).rest() && final(self).given() == old(self).given(),
    {
        proof {
            use_type_invariant(&*self);
            let g = self.given@;
            let w = self.width as int;
            assert((g + 1) * w == g * w + w) by (nonlinear_arith);
        }
        if self.pixels.len() >= self.width {
            let (row, rest) = self.pixels.split_at(self.width);
            let ghost g = self.given@;
            let ghost w = self.width as int;
            let ghost all = self.all@;
            proof {
                assert((g + 1) * w == g * w + w) by (nonlinear_arith);
                assert(row@ =~= all.subrange(g * w, (g + 1) * w));
                assert(rest@ =~= all.skip((g + 1) * w));
            }
            *self = Rows { pixels: rest, width: self.width, all: Ghost(all), given: Ghost(g + 1) };
            Some(row)
        } else {
            None
        }
    }
}

impl<P: Pixel> Raster<P> {
    /// Get an `Iterator` of rows within a `Raster`: row `k` of the raster
    /// is the `k`-th row it gives, and it gives `height` rows.
    pub fn rows(&self) -> (r: Rows<'_, P>)
        requires
            self.wf(),
            self.width_spec() > 0,
        ensures
            r.rest() == self.pixels_spec(),
            r.row_len() == self.width_spec(),
            r.all() == self.pixels_spec(),
            r.given() == 0,
    {
        Rows::new(self)
    }
}

/// A raster copied by `with_raster` holds at each (`x`, `y`) the pixel of
/// the source at (`x`, `y`), converted: what `pixel` reads there.
pub proof fn lemma_with_raster_pixel<S: Pixel, P: Pixel>(src: Raster<S>, r: Raster<P>, x: int, y: int)
    requires
        src.wf(),
        r.wf(),
        r.width_spec() == src.width_spec(),
        r.height_spec() == src.height_spec(),
        forall|i: int|
            0 <= i < r.pixels_spec().len() ==> holds(
                #[trigger] r.pixels_spec()[i],
                convert_quad::<S, P>(src.pixels_spec()[i]),
            ),
        0 <= x < src.width_spec(),
        0 <= y < src.height_spec(),
    ensures
        holds(
            r.pixels_spec()[y * r.width_spec() + x],
            convert_quad::<S, P>(src.pixels_spec()[y * src.width_spec() + x]),
        ),
{
    lemma_index(src.width_spec(), src.height_spec(), x, y);
}

/// No method of `Raster` changes its dimensions: where each raster of
/// `states` comes from the one before by a call that keeps width and height
/// (`clear`, `pixel_mut`, `pixels_mut`, `rows_mut`, `set_region` and
/// `compose_raster` each ensure so), every raster of `states` has the width
/// and height of the first.
pub proof fn lemma_dimensions_fixed<P: Pixel>(states: Seq<Raster<P>>)
    requires
        forall|k: int|
            0 <= k < states.len() - 1 ==> (#[trigger] states[k + 1]).width_spec()
                == states[k].width_spec() && states[k + 1].height_spec()
                == states[k].height_spec(),
    ensures
        forall|k: int|
            0 <= k < states.len() ==> (#[trigger] states[k]).width_spec()
                == states[0].width_spec() && states[k].height_spec() == states[0].height_spec(),
    decreases states.len(),
{
    if states.len() > 1 {
        let front = states.drop_last();
        assert forall|k: int| 0 <= k < front.len() - 1 implies (#[trigger] front[k + 1]).width_spec()
            == front[k].width_spec() && front[k + 1].height_spec() == front[k].height_spec() by {
            assert(front[k + 1] == states[k + 1] && front[k] == states[k]);
        }
        lemma_dimensions_fixed(front);
        assert forall|k: int| 0 <= k < states.len() implies (#[trigger] states[k]).width_spec()
            == states[0].width_spec() && states[k].height_spec() == states[0].height_spec() by {
            assert(front[0] == states[0]);
            if k < states.len() - 1 {
                assert(states[k] == front[k]);
                assert(front[k].width_spec() == front[0].width_spec());
            } else {
                assert(states[k - 1] == front[k - 1]);
                assert(front[k - 1].width_spec() == front[0].width_spec());
                assert(states[(k - 1) + 1].width_spec() == states[k - 1].width_spec());
            }
        }
    }
}

/// Row `k` of the pixels `all`, rows `w` wide: `Some` where the whole row
/// is there.
pub open spec fn row_at<P>(all: Seq<P>, w: int, k: int) -> Option<Seq<P>> {
    if 0 <= k && (k + 1) * w <= all.len() {
        Some(all.subrange(k * w, (k + 1) * w))
    } else {
        None
    }
}

/// The rows of a raster `w` pixels wide and `h` high: call `k` of a rows
/// iterator (counting from zero; `rows` starts at zero and each row given
/// counts one) gives `pixels[k * w .. (k + 1) * w]` for every `k < h`, and
/// `None` once the `h` rows are given.
pub proof fn lemma_rows_of_raster<P>(pixels: Seq<P>, w: int, h: int)
    requires
        w > 0,
        h >= 0,
        pixels.len() == w * h,
    ensures
        forall|k: int|
            0 <= k < h ==> #[trigger] row_at(pixels, w, k) == Some(
                pixels.subrange(k * w, (k + 1) * w),
            ),
        row_at(pixels, w, h) is None,
{
    assert forall|k: int| 0 <= k < h implies #[trigger] row_at(pixels, w, k) == Some(
        pixels.subrange(k * w, (k + 1) * w),
    ) by {
        lemma_rows_count(w, h, k);
    }
    lemma_rows_count(w, h, h);
}

/// A rows iterator over a raster `w` pixels wide and `h` high (its `all()`
/// holds `w * h` pixels) gives a row on call `k` (counting from zero) exactly
/// where `k < h`: it gives `h` rows, then `None`.
pub proof fn lemma_rows_count(w: int, h: int, k: int)
    requires
        w > 0,
        h >= 0,
        k >= 0,
    ensures
        ((k + 1) * w <= w * h) == (k < h),
{
    if k < h {
        assert((k + 1) * w <= w * h) by (nonlinear_arith)
            requires
                k + 1 <= h,
                w > 0,
        ;
    } else {
        assert((k + 1) * w > w * h) by (nonlinear_arith)
            requires
                k + 1 > h,
                w > 0,
        ;
    }
}

/// `Iterator` of *rows* in a [Raster], as mutable slices of pixels.
///
/// This struct is created by the [rows_mut](Raster::rows_mut) method of
/// [Raster].
pub struct RowsMut<'a, P: Pixel> {
    /// Pixels of the rows not yet given.
    pub pixels: &'a mut [P],
    /// Length of a row.
    pub width: usize,
    /// Pixels of all the rows, those given included, as they were at the
    /// start.
    pub all: Ghost<Seq<P>>,
    /// Number of rows given so far.
    pub given: Ghost<int>,
}

impl<'a, P: Pixel> RowsMut<'a, P> {
    /// The pixels left are those of `all` after the rows given.
    pub open spec fn wf(&self) -> bool {
        &&& 0 <= self.given@
        &&& self.given@ * self.width <= self.all@.len()
        &&& self.pixels@ == self.all@.skip(self.given@ * self.width)
    }

    /// Pixels of the rows not yet given.
    pub closed spec fn rest(&self) -> Seq<P> {
        self.pixels@
    }

    /// Length of a row.
    pub closed spec fn row_len(&self) -> nat {
        self.width as nat
    }

    /// Get the next row (`None` where less than a row is left): row `k`
    /// (counting from zero) is `all[k * row_len() .. (k + 1) * row_len()]`.
    /// What is written to the rows given, and to what is left, makes up
    /// what the remaining pixels end up as.
    pub fn next(&mut self) -> (row: Option<&'a mut [P]>)
        requires
            old(self).row_len() > 0,
            old(self).wf(),
        ensures
            final(self).wf(),
            final(self).row_len() == old(self).row_len(),
            final(self).all@ == old(self).all@,
            (row is Some) == (row_at(old(self).all@, old(self).row_len() as int, old(self).given@)
                is Some),
            row matches Some(r) ==> Some(r@) == row_at(
                old(self).all@,
                old(self).row_len() as int,
                old(self).given@,
            ),
            final(self).given@ == old(self).given@ + if row is Some { 1int } else { 0int },
            old(self).rest().len() >= old(self).row_len() ==> {
                &&& row matches Some(r)
                &&& r@ == old(self).rest().take(old(self).row_len() as int)
                &&& final(self).rest() == old(self).rest().skip(old(self).row_len() as int)
                &&& final(old(self).pixels)@ == final(r)@ + final(final(self).pixels)@
            },
            old(self).rest().len() < old(self).row_len() ==> row is None && final(self).rest()
                == old(self).rest() && final(final(self).pixels)@ == final(old(self).pixels)@,
    {
        let ghost g = self.given@;
        let ghost w = self.width as int;
        let ghost all = self.all@;
        proof {
            assert((g + 1) * w == g * w + w) by (nonlinear_arith);
        }
        let mut pixels: &'a mut [P] = &mut [];
        core::mem::swap(&mut pixels, &mut self.pixels);
        if pixels.len() >= self.width {
            let (row, rest) = pixels.split_at_mut(self.width);
            proof {
                assert(row@ =~= all.subrange(g * w, (g + 1) * w));
                assert(rest@ =~= all.skip((g + 1) * w));
            }
            self.pixels = rest;
            self.given = Ghost(g + 1);
            Some(row)
        } else {
            self.pixels = pixels;
            None
        }
    }
}

impl<P: Pixel> Raster<P> {
    /// Get an `Iterator` of mutable rows within a `Raster`.
    pub fn rows_mut(&mut self) -> (r: RowsMut<'_, P>)
        requires
            old(self).wf(),
            old(self).width_spec() > 0,
        ensures
            r.wf(),
            r.all@ == old(self).pixels_spec(),
            r.given@ == 0,
            r.rest() == old(self).pixels_spec(),
            r.row_len() == old(self).width_spec(),
            final(self).width_spec() == old(self).width_spec(),
            final(self).height_spec() == old(self).height_spec(),
            final(self).pixels_spec() == final(r.pixels)@,
            final(self).pixels_spec().len() == old(self).pixels_spec().len() ==> final(self).wf(),
    {
        let width = self.width as usize;
        let ghost all = self.pixels@;
        let pixels = self.pixels.as_mut_slice();
        proof {
            assert(0 * width == 0);
            assert(pixels@.skip(0) =~= pixels@);
        }
        RowsMut { pixels, width, all: Ghost(all), given: Ghost(0) }
    }
}

/// Writing rows through `rows_mut`: where the raster's final pixels are
/// `rests[0]` (as `rows_mut` gives them) and call `k` of `next` gave a row
/// that ended up as `rows[k]`, `w` pixels long, with `rests[k] == rows[k] +
/// rests[k + 1]` (as `next` gives them), pixel `j` of row `k` of the raster
/// is `rows[k][j]`.
pub proof fn lemma_rows_mut_written<P>(rows: Seq<Seq<P>>, rests: Seq<Seq<P>>, w: int)
    requires
        w >= 0,
        rests.len() == rows.len() + 1,
        forall|k: int| 0 <= k < rows.len() ==> (#[trigger] rows[k]).len() == w,
        forall|k: int| 0 <= k < rows.len() ==> #[trigger] rests[k] == rows[k] + rests[k + 1],
    ensures
        rests[0].len() == rows.len() * w + rests[rows.len() as int].len(),
        forall|k: int, j: int|
            0 <= k < rows.len() && 0 <= j < w ==> rests[0][k * w + j] == #[trigger] rows[k][j],
{
    lemma_rows_mut_from(rows, rests, w, 0);
}

proof fn lemma_rows_mut_from<P>(rows: Seq<Seq<P>>, rests: Seq<Seq<P>>, w: int, i: int)
    requires
        w >= 0,
        0 <= i <= rows.len(),
        rests.len() == rows.len() + 1,
        forall|k: int| 0 <= k < rows.len() ==> (#[trigger] rows[k]).len() == w,
        forall|k: int| 0 <= k < rows.len() ==> #[trigger] rests[k] == rows[k] + rests[k + 1],
    ensures
        rests[i].len() == (rows.len() - i) * w + rests[rows.len() as int].len(),
        forall|k: int, j: int|
            i <= k < rows.len() && 0 <= j < w ==> rests[i][(k - i) * w + j] == #[trigger] rows[k][j],
    decreases rows.len() - i,
{
    let n = rows.len() as int;
    if i < n {
        lemma_rows_mut_from(rows, rests, w, i + 1);
        assert(rests[i] == rows[i] + rests[i + 1]);
        assert(rows[i].len() == w);
        assert((n - i) * w == w + (n - (i + 1)) * w) by (nonlinear_arith);
        assert forall|k: int, j: int| i <= k < n && 0 <= j < w implies rests[i][(k - i) * w + j]
            == #[trigger] rows[k][j] by {
            if k == i {
                assert((k - i) * w + j == j) by (nonlinear_arith)
                    requires
                        k == i,
                ;
                assert(rests[i][j] == rows[i][j]);
            } else {
                let t = (k - (i + 1)) * w + j;
                assert((k - i) * w + j == w + t) by (nonlinear_arith)
                    requires
                        t == (k - (i + 1)) * w + j,
                ;
                assert(0 <= t < (n - (i + 1)) * w) by (nonlinear_arith)
                    requires
                        t == (k - (i + 1)) * w + j,
                        i < k < n,
                        0 <= j < w,
                ;
                assert(rests[i + 1][t] == rows[k][j]);
                assert(rests[i][w + t] == rests[i + 1][t]);
            }
        }
    } else {
        assert((n - i) * w == 0) by (nonlinear_arith)
            requires
                i == n,
        ;
    }
}

/// `Iterator` for pixels within a [Raster].
///
/// Use `Raster`::[region_iter](Raster::region_iter) to create.
pub struct RasterIter<'a, P: Pixel> {
    raster: &'a Raster<P>,
    left: u32,
    right: u32,
    bottom: u32,
    x: u32,
    y: u32,
}

/// A coordinate as the iterator stores it: negative values become zero.
pub open spec fn unsigned_or_zero(v: int) -> int {
    if v >= 0 { v } else { 0 }
}

/// Pixel `k` of the block `w` columns wide at (`left`, `top`) of a raster
/// `rw` pixels wide, counting row after row.
pub open spec fn block_pixel<P>(pix: Seq<P>, rw: int, left: int, top: int, w: int, k: int) -> P {
    pix[(top + k / w) * rw + left + k % w]
}

impl<'a, P: Pixel> RasterIter<'a, P> {
    /// The raster.
    pub closed spec fn raster_spec(&self) -> &'a Raster<P> {
        self.raster
    }

    /// Column where rows start.
    pub closed spec fn left_spec(&self) -> int {
        self.left as int
    }

    /// Column where rows end.
    pub closed spec fn right_spec(&self) -> int {
        self.right as int
    }

    /// Row where the region ends.
    pub closed spec fn bottom_spec(&self) -> int {
        self.bottom as int
    }

    /// Column of the next pixel.
    pub closed spec fn x_spec(&self) -> int {
        self.x as int
    }

    /// Row of the next pixel.
    pub closed spec fn y_spec(&self) -> int {
        self.y as int
    }

    /// Can `next` be called: where pixels are left, the region lies in the
    /// raster and the next pixel is within its row.
    pub open spec fn ready(&self) -> bool {
        &&& self.raster_spec().wf()
        &&& self.left_spec() <= self.x_spec()
        &&& (self.left_spec() < self.right_spec() && self.y_spec() < self.bottom_spec()) ==> {
            &&& self.x_spec() <= self.right_spec()
            &&& self.right_spec() <= self.raster_spec().width_spec()
            &&& self.bottom_spec() <= self.raster_spec().height_spec()
        }
    }

    /// Number of pixels left.
    pub open spec fn rest_len(&self) -> int {
        if self.left_spec() < self.right_spec() && self.y_spec() < self.bottom_spec() {
            (self.bottom_spec() - self.y_spec()) * (self.right_spec() - self.left_spec()) - (
            self.x_spec() - self.left_spec())
        } else {
            0
        }
    }

    /// The pixels left, in the order `next` gives them: the rest of the
    /// current row, then the following rows of the region.
    pub open spec fn rest(&self) -> Seq<P> {
        Seq::new(
            self.rest_len() as nat,
            |k: int|
                block_pixel(
                    self.raster_spec().pixels_spec(),
                    self.raster_spec().width_spec(),
                    self.left_spec(),
                    self.y_spec(),
                    self.right_spec() - self.left_spec(),
                    self.x_spec() - self.left_spec() + k,
                ),
        )
    }

    /// Create a new `Raster` pixel `Iterator`.
    ///
    /// * `region` Region of pixels to iterate.
    fn new(raster: &'a Raster<P>, region: Region) -> (it: Self)
        ensures
            it.raster_spec() == raster,
            it.y_spec() == unsigned_or_zero(region.top_spec()),
            it.bottom_spec() == unsigned_or_zero(region.bottom_spec()),
            it.x_spec() == unsigned_or_zero(region.left_spec()),
            it.left_spec() == unsigned_or_zero(region.left_spec()),
            it.right_spec() == unsigned_or_zero(region.right_spec()),
    {
        let y = if region.top() >= 0 { region.top() as u32 } else { 0 };
        let b = region.bottom();
        let bottom = if b >= 0 { b as u32 } else { 0 };
        let x = if region.left() >= 0 { region.left() as u32 } else { 0 };
        let rt = region.right();
        let right = if rt >= 0 { rt as u32 } else { 0 };
        let left = x;
        RasterIter { raster, left, right, bottom, x, y }
    }

    /// Get the next pixel, row by row (`None` once the region is done).
    pub fn next(&mut self) -> (p: Option<P>)
        requires
            old(self).ready(),
        ensures
            final(self).ready(),
            final(self).raster_spec() == old(self).raster_spec(),
            final(self).left_spec() == old(self).left_spec(),
            final(self).right_spec() == old(self).right_spec(),
            final(self).bottom_spec() == old(self).bottom_spec(),
            old(self).rest().len() == 0 ==> p is None && final(self).rest().len() == 0,
            old(self).rest().len() > 0 ==> p == Some(old(self).rest()[0]) && final(self).rest()
                == old(self).rest().drop_first(),
    {
        proof {
            self.raster.lemma_wf();
        }
        if self.left >= self.right || self.y >= self.bottom {
            return None;
        }
        let ghost w = self.right - self.left;
        let ghost rw = self.raster.width_spec();
        let ghost pix = self.raster.pixels_spec();
        let ghost left = self.left as int;
        let ghost old_rest = self.rest();
        proof {
            lemma_rest_len_bounds(self.bottom - self.y, w, self.x - self.left);
        }
        if self.x >= self.right {
            proof {
                assert(old_rest.len() == (self.bottom - self.y - 1) * w) by (nonlinear_arith)
                    requires
                        old_rest.len() == (self.bottom - self.y) * w - w,
                ;
                if self.y + 1 >= self.bottom {
                    assert(old_rest.len() == 0) by (nonlinear_arith)
                        requires
                            old_rest.len() == (self.bottom - self.y - 1) * w,
                            self.bottom - self.y - 1 == 0,
                    ;
                } else {
                    assert(old_rest.len() >= w) by (nonlinear_arith)
                        requires
                            old_rest.len() == (self.bottom - self.y - 1) * w,
                            self.bottom - self.y - 1 >= 1,
                            w > 0,
                    ;
                }
            }
            self.x = self.left;
            self.y += 1;
            if self.y >= self.bottom {
                return None;
            }
            proof {
                assert forall|k: int| 0 <= k < old_rest.len() implies #[trigger] old_rest[k]
                    == block_pixel(pix, rw, left, self.y as int, w, k) by {
                    lemma_shift_row(k, w);
                }
                lemma_small_div_mod(0, w);
                assert(old_rest[0] == block_pixel(pix, rw, left, self.y as int, w, 0));
                assert((self.bottom - self.y) * w == old_rest.len()) by (nonlinear_arith)
                    requires
                        old_rest.len() == (self.bottom - (self.y - 1) - 1) * w,
                ;
            }
        } else {
            proof {
                lemma_small_div_mod(self.x - self.left, w);
            }
        }
        proof {
            lemma_index(self.raster.width_spec(), self.raster.height_spec(), self.x as int, self.y as int);
        }
        let x = self.x as i32;
        let y = self.y as i32;
        let p = self.raster.pixel(x, y);
        self.x += 1;
        proof {
            assert(self.rest().len() == old_rest.len() - 1);
            assert(self.rest() =~= old_rest.drop_first());
        }
        Some(p)
    }
}

/// Facts on the number of pixels left, for a row `w` wide.
proof fn lemma_rest_len_bounds(rows: int, w: int, done: int)
    requires
        1 <= rows,
        0 < w,
        0 <= done <= w,
    ensures
        rows * w - done >= 0,
        rows * w - done >= w - done,
{
    assert(rows * w >= w) by (nonlinear_arith)
        requires
            1 <= rows,
            0 < w,
    ;
}

/// Position `t` within a row of `w` is in row zero, column `t`.
proof fn lemma_small_div_mod(t: int, w: int)
    requires
        0 <= t < w,
    ensures
        t / w == 0,
        t % w == t,
{
    vstd::arithmetic::div_mod::lemma_fundamental_div_mod_converse(t, w, 0, t);
}

/// Position `w + m` is one row below position `m`, in the same column.
proof fn lemma_shift_row(m: int, w: int)
    requires
        0 <= m,
        0 < w,
    ensures
        (w + m) / w == m / w + 1,
        (w + m) % w == m % w,
{
    vstd::arithmetic::div_mod::lemma_fundamental_div_mod(m, w);
    vstd::arithmetic::div_mod::lemma_mod_bound(m, w);
    let q = m / w;
    assert(w + m == (q + 1) * w + m % w) by (nonlinear_arith)
        requires
            m == w * q + m % w,
    ;
    vstd::arithmetic::div_mod::lemma_fundamental_div_mod_converse(w + m, w, q + 1, m % w);
}

impl<P: Pixel> Raster<P> {
    /// Get an `Iterator` of pixels within a `Region`.
    ///
    /// * `reg` Region within `Raster`.
    ///
    /// Where the region lies in the raster, the iterator gives every pixel
    /// of the region once, row after row, and nothing for an empty region.
    pub fn region_iter<R: IntoRegion>(&self, reg: R) -> (it: RasterIter<'_, P>)
        requires
            self.wf(),
        ensures
            it.raster_spec() == self,
            it.y_spec() == unsigned_or_zero(reg.to_region().top_spec()),
            it.bottom_spec() == unsigned_or_zero(reg.to_region().bottom_spec()),
            it.x_spec() == unsigned_or_zero(reg.to_region().left_spec()),
            it.left_spec() == unsigned_or_zero(reg.to_region().left_spec()),
            it.right_spec() == unsigned_or_zero(reg.to_region().right_spec()),
            ({
                let g = reg.to_region();
                let w = g.right_spec() - g.left_spec();
                let h = g.bottom_spec() - g.top_spec();
                (0 <= g.left_spec() && 0 <= g.top_spec() && g.right_spec() <= self.width_spec()
                    && g.bottom_spec() <= self.height_spec()) ==> {
                    &&& it.ready()
                    &&& it.rest() == Seq::new(
                        (w * h) as nat,
                        |k: int|
                            block_pixel(
                                self.pixels_spec(),
                                self.width_spec(),
                                g.left_spec(),
                                g.top_spec(),
                                w,
                                k,
                            ),
                    )
                }
            }),
    {
        let reg = reg.into_region();
        let it = RasterIter::new(self, reg);
        proof {
            use_type_invariant(&reg);
            let w = reg.right_spec() - reg.left_spec();
            let h = reg.bottom_spec() - reg.top_spec();
            if 0 <= reg.left_spec() && 0 <= reg.top_spec() && reg.right_spec() <= self.width_spec()
                && reg.bottom_spec() <= self.height_spec() {
                assert(0 <= w && 0 <= h);
                if w == 0 || h == 0 {
                    assert(w * h == 0) by (nonlinear_arith)
                        requires
                            w == 0 || h == 0,
                    ;
                } else {
                    assert(it.rest_len() == h * w);
                    assert(w * h == h * w) by (nonlinear_arith);
                }
                assert(it.rest() =~= Seq::new(
                    (w * h) as nat,
                    |k: int| block_pixel(self.pixels_spec(), self.width_spec(), reg.left_spec(), reg.top_spec(), w, k),
                ));
            }
        }
        it
    }
}

impl<P: Pixel> Raster<P> {
    /// Create a `Raster` with all pixels set to the default value.
    pub fn with_clear(width: u32, height: u32) -> (r: Raster<P>)
        requires
            raster_size_ok(width, height),
        ensures
            r.wf(),
            r.width_spec() == width,
            r.height_spec() == height,
            forall|i: int| 0 <= i < r.pixels_spec().len() ==> is_zero(#[trigger] r.pixels_spec()[i]),
    {
        RasterBuilder::new().with_clear(width, height)
    }

    /// Create a `Raster` with all pixels set to one color.
    pub fn with_color(width: u32, height: u32, clr: P) -> (r: Raster<P>)
        requires
            raster_size_ok(width, height),
        ensures
            r.wf(),
            r.width_spec() == width,
            r.height_spec() == height,
            r.pixels_spec() == Seq::new((width * height) as nat, |i: int| clr),
    {
        RasterBuilder::new().with_color(width, height, clr)
    }

    /// Create a `Raster` by copying another `Raster`, converting each pixel.
    pub fn with_raster<S: Pixel>(src: &Raster<S>) -> (r: Raster<P>)
        requires
            src.wf(),
            convert_supported::<S, P>(),
        ensures
            r.wf(),
            r.width_spec() == src.width_spec(),
            r.height_spec() == src.height_spec(),
            forall|i: int|
                0 <= i < r.pixels_spec().len() ==> holds(
                    #[trigger] r.pixels_spec()[i],
                    convert_quad::<S, P>(src.pixels_spec()[i]),
                ),
    {
        RasterBuilder::new().with_raster(src)
    }

    /// Create a `Raster` with owned pixel data.
    pub fn with_pixels(width: u32, height: u32, pixels: Vec<P>) -> (r: Raster<P>)
        requires
            raster_size_ok(width, height),
            pixels@.len() == width * height,
        ensures
            r.wf(),
            r.width_spec() == width,
            r.height_spec() == height,
            r.pixels_spec() == pixels@,
    {
        RasterBuilder::new().with_pixels(width, height, pixels)
    }
}

} // verus!
