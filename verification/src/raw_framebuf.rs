//! A framebuffer that stores pixels as raw wire bytes, ready for direct
//! transmission to a display.
//!
//! Drawing converts a color to its packed byte form and writes it at
//! `(y * width + x) * bytes_per_pixel` in a flat, row-major buffer.

use vstd::prelude::*;

verus! {

/// A point in pixel coordinates; drawing outside the framebuffer is
/// silently dropped, so negative coordinates are representable.
#[derive(Clone, Copy, Debug, PartialEq, Eq, Structural)]
pub struct Point {
    /// Horizontal coordinate.
    pub x: i32,
    /// Vertical coordinate.
    pub y: i32,
}

/// A size in pixels.
#[derive(Clone, Copy, Debug, PartialEq, Eq, Structural)]
pub struct Size {
    /// Width in pixels.
    pub width: u32,
    /// Height in pixels.
    pub height: u32,
}

/// An axis-aligned rectangle in pixel coordinates.
#[derive(Clone, Copy, Debug, PartialEq, Eq, Structural)]
pub struct Rectangle {
    /// The corner with the smallest coordinates.
    pub top_left: Point,
    /// Extent of the rectangle.
    pub size: Size,
}

/// A color in 16-bit 5-6-5 form: five bits of red, six of green, five of
/// blue.
#[derive(Clone, Copy, Debug, PartialEq, Eq, Structural)]
pub struct Rgb565 {
    /// Red component, below 32.
    pub r: u8,
    /// Green component, below 64.
    pub g: u8,
    /// Blue component, below 32.
    pub b: u8,
}

impl Rgb565 {
    /// Component bounds of a well-formed color.
    pub open spec fn wf(self) -> bool {
        self.r < 32 && self.g < 64 && self.b < 32
    }

    /// Builds a color, keeping only the bits each component has room for.
    pub fn new(r: u8, g: u8, b: u8) -> (c: Self)
        ensures
            c == (Rgb565 { r: (r % 32) as u8, g: (g % 64) as u8, b: (b % 32) as u8 }),
            c.wf(),
    {
        Rgb565 { r: r % 32, g: g % 64, b: b % 32 }
    }
}

/// A color in 24-bit form: one byte per component.
#[derive(Clone, Copy, Debug, PartialEq, Eq, Structural)]
pub struct Rgb888 {
    /// Red component.
    pub r: u8,
    /// Green component.
    pub g: u8,
    /// Blue component.
    pub b: u8,
}

impl Rgb888 {
    /// Builds a color.
    pub fn new(r: u8, g: u8, b: u8) -> (c: Self)
        ensures
            c == (Rgb888 { r, g, b }),
    {
        Rgb888 { r, g, b }
    }
}

/// Conversion of a color into its raw wire bytes.
///
/// This is the bridge between a color type and the byte buffer: the packed
/// form is what the controller receives for one pixel.
pub trait IntoRawBytes: Sized {
    /// Bounds the components must satisfy.
    spec fn wf(self) -> bool;

    /// The number of bytes used to represent one pixel.
    spec fn bytes_per_pixel_spec() -> nat;

    /// The packed byte form of the color.
    spec fn raw_bytes_spec(self) -> Seq<u8>;

    /// The packed form has exactly one pixel's worth of bytes.
    proof fn lemma_raw_bytes_len(self)
        requires
            self.wf(),
        ensures
            self.raw_bytes_spec().len() == Self::bytes_per_pixel_spec(),
    ;

    /// A pixel takes at least one byte.
    proof fn lemma_bytes_per_pixel_pos()
        ensures
            Self::bytes_per_pixel_spec() >= 1,
    ;

    /// The number of bytes used to represent one pixel.
    fn bytes_per_pixel() -> (n: usize)
        ensures
            n == Self::bytes_per_pixel_spec(),
    ;

    /// Converts the color into its packed byte form.
    fn into_raw_bytes(self) -> (b: Vec<u8>)
        requires
            self.wf(),
        ensures
            b@ == self.raw_bytes_spec(),
    ;
}

impl IntoRawBytes for Rgb565 {
    open spec fn wf(self) -> bool {
        self.wf()
    }

    open spec fn bytes_per_pixel_spec() -> nat {
        2
    }

    /// Big-endian bytes of the 16-bit value `r * 2048 + g * 32 + b`.
    open spec fn raw_bytes_spec(self) -> Seq<u8> {
        seq![(self.r * 8 + self.g / 8) as u8, ((self.g % 8) * 32 + self.b) as u8]
    }

    proof fn lemma_raw_bytes_len(self) {
    }

    proof fn lemma_bytes_per_pixel_pos() {
    }

    fn bytes_per_pixel() -> (n: usize) {
        2
    }

    fn into_raw_bytes(self) -> (b: Vec<u8>) {
        let high: u8 = self.r * 8 + self.g / 8;
        let low: u8 = (self.g % 8) * 32 + self.b;
        let mut b = Vec::new();
        b.push(high);
        b.push(low);
        proof {
            assert(b@ =~= self.raw_bytes_spec());
        }
        b
    }
}

impl IntoRawBytes for Rgb888 {
    open spec fn wf(self) -> bool {
        true
    }

    open spec fn bytes_per_pixel_spec() -> nat {
        3
    }

    /// The three component bytes, red first.
    open spec fn raw_bytes_spec(self) -> Seq<u8> {
        seq![self.r, self.g, self.b]
    }

    proof fn lemma_raw_bytes_len(self) {
    }

    proof fn lemma_bytes_per_pixel_pos() {
    }

    fn bytes_per_pixel() -> (n: usize) {
        3
    }

    fn into_raw_bytes(self) -> (b: Vec<u8>) {
        let mut b = Vec::new();
        b.push(self.r);
        b.push(self.g);
        b.push(self.b);
        proof {
            assert(b@ =~= self.raw_bytes_spec());
        }
        b
    }
}

/// Distinct pixel coordinates give distinct pixel numbers in a row-major
/// layout.
proof fn lemma_pixel_number_injective(w: int, x1: int, y1: int, x2: int, y2: int)
    requires
        0 <= x1 < w,
        0 <= x2 < w,
        0 <= y1,
        0 <= y2,
        !(x1 == x2 && y1 == y2),
    ensures
        y1 * w + x1 != y2 * w + x2,
{
    assert(y1 * w + x1 != y2 * w + x2) by (nonlinear_arith)
        requires
            0 <= x1 < w,
            0 <= x2 < w,
            0 <= y1,
            0 <= y2,
            !(x1 == x2 && y1 == y2),
    ;
}

/// A byte of one pixel lies outside the byte range of any other pixel.
proof fn lemma_byte_ranges_disjoint(bpp: int, p1: int, p2: int, j: int)
    requires
        0 <= p1,
        0 <= p2,
        p1 != p2,
        0 <= j < bpp,
    ensures
        p1 * bpp + j < p2 * bpp || p1 * bpp + j >= p2 * bpp + bpp,
{
    assert(p1 * bpp + j < p2 * bpp || p1 * bpp + j >= p2 * bpp + bpp) by (nonlinear_arith)
        requires
            0 <= p1,
            0 <= p2,
            p1 != p2,
            0 <= j < bpp,
    ;
}

/// Every byte of an in-bounds pixel lies inside the active buffer area.
proof fn lemma_pixel_bytes_in_active(w: int, h: int, bpp: int, x: int, y: int, j: int)
    requires
        0 <= x < w,
        0 <= y < h,
        0 <= j < bpp,
    ensures
        0 <= (y * w + x) * bpp + j,
        (y * w + x) * bpp + j < w * h * bpp,
{
    assert(0 <= (y * w + x) * bpp + j < w * h * bpp) by (nonlinear_arith)
        requires
            0 <= x < w,
            0 <= y < h,
            0 <= j < bpp,
    ;
}

/// A framebuffer that writes pixel colors as raw bytes into a flat,
/// row-major buffer it owns.
///
/// The buffer may be larger than `width * height` pixels; the bytes past
/// the active area are never touched.
pub struct RawFrameBuf<C: IntoRawBytes> {
    buffer: Vec<u8>,
    width: usize,
    height: usize,
    color: core::marker::PhantomData<C>,
}

impl<C: IntoRawBytes> RawFrameBuf<C> {
    /// Width in pixels.
    pub closed spec fn width_spec(&self) -> nat {
        self.width as nat
    }

    /// Height in pixels.
    pub closed spec fn height_spec(&self) -> nat {
        self.height as nat
    }

    /// The whole backing buffer.
    pub closed spec fn bytes(&self) -> Seq<u8> {
        self.buffer@
    }

    /// Bytes taken by the pixels.
    pub open spec fn active_len(&self) -> nat {
        self.width_spec() * self.height_spec() * C::bytes_per_pixel_spec()
    }

    /// Index of the first byte of the pixel at `(x, y)`.
    pub open spec fn pixel_index(&self, x: int, y: int) -> int {
        (y * self.width_spec() + x) * C::bytes_per_pixel_spec()
    }

    /// The backing buffer holds at least the active area.
    pub open spec fn wf(&self) -> bool {
        self.active_len() <= self.bytes().len()
    }

    /// The bytes of the pixel at `(x, y)` all hold the packed form of
    /// `color`.
    pub open spec fn pixel_is(&self, x: int, y: int, color: C) -> bool {
        forall|j: int|
            0 <= j < C::bytes_per_pixel_spec() ==> self.bytes()[self.pixel_index(x, y) + j]
                == color.raw_bytes_spec()[j]
    }

    /// Creates a framebuffer over a backing buffer, which must hold at
    /// least `width * height` packed pixels.
    pub fn new(buffer: Vec<u8>, width: usize, height: usize) -> (r: Self)
        requires
            width * height * C::bytes_per_pixel_spec() <= buffer@.len(),
        ensures
            r.wf(),
            r.width_spec() == width,
            r.height_spec() == height,
            r.bytes() == buffer@,
    {
        RawFrameBuf { buffer, width, height, color: core::marker::PhantomData }
    }

    /// Returns the backing buffer, deconstructing the framebuffer.
    pub fn into_buffer(self) -> (r: Vec<u8>)
        ensures
            r@ == self.bytes(),
    {
        self.buffer
    }

    /// Width in pixels.
    pub fn width(&self) -> (r: usize)
        ensures
            r == self.width_spec(),
    {
        self.width
    }

    /// Height in pixels.
    pub fn height(&self) -> (r: usize)
        ensures
            r == self.height_spec(),
    {
        self.height
    }

    /// The active bytes: exactly one packed pixel per coordinate, row by
    /// row.
    pub fn as_bytes(&self) -> (r: &[u8])
        requires
            self.wf(),
        ensures
            r@ == self.bytes().take(self.active_len() as int),
    {
        let buf_len = self.buffer.len();
        proof {
            C::lemma_bytes_per_pixel_pos();
            assert(self.width_spec() * self.height_spec() <= self.active_len())
                by (nonlinear_arith)
                requires
                    C::bytes_per_pixel_spec() >= 1,
                    self.active_len() == self.width_spec() * self.height_spec()
                        * C::bytes_per_pixel_spec(),
            ;
            assert(self.active_len() <= buf_len);
        }
        let bpp = C::bytes_per_pixel();
        let wh = self.width * self.height;
        let active = wh * bpp;
        vstd::slice::slice_subrange(self.buffer.as_slice(), 0, active)
    }

    /// The active bytes, mutably: exactly one packed pixel per coordinate,
    /// row by row. The bytes past the active area stay unreachable through
    /// the returned slice.
    pub fn as_mut_bytes(&mut self) -> (r: &mut [u8])
        requires
            old(self).wf(),
        ensures
            r@ == old(self).bytes().take(old(self).active_len() as int),
            final(self).width_spec() == old(self).width_spec(),
            final(self).height_spec() == old(self).height_spec(),
            final(self).bytes() == final(r)@ + old(self).bytes().skip(
                old(self).active_len() as int,
            ),
    {
        let buf_len = self.buffer.len();
        proof {
            C::lemma_bytes_per_pixel_pos();
            assert(self.width_spec() * self.height_spec() <= self.active_len())
                by (nonlinear_arith)
                requires
                    C::bytes_per_pixel_spec() >= 1,
                    self.active_len() == self.width_spec() * self.height_spec()
                        * C::bytes_per_pixel_spec(),
            ;
            assert(self.active_len() <= buf_len);
        }
        let bpp = C::bytes_per_pixel();
        let wh = self.width * self.height;
        let active = wh * bpp;
        let (front, _) = self.buffer.as_mut_slice().split_at_mut(active);
        front
    }

    /// Writes one packed pixel at in-bounds coordinates.
    fn write_pixel(&mut self, x: usize, y: usize, raw: &Vec<u8>)
        requires
            old(self).wf(),
            x < old(self).width_spec(),
            y < old(self).height_spec(),
            raw@.len() == C::bytes_per_pixel_spec(),
        ensures
            final(self).wf(),
            final(self).width_spec() == old(self).width_spec(),
            final(self).height_spec() == old(self).height_spec(),
            final(self).bytes().len() == old(self).bytes().len(),
            0 <= old(self).pixel_index(x as int, y as int),
            old(self).pixel_index(x as int, y as int) + C::bytes_per_pixel_spec() <= old(self).active_len(),
            forall|k: int|
                0 <= k < old(self).bytes().len() ==> #[trigger] final(self).bytes()[k] == (
                if old(self).pixel_index(x as int, y as int) <= k < old(self).pixel_index(
                    x as int,
                    y as int,
                ) + C::bytes_per_pixel_spec() {
                    raw@[k - old(self).pixel_index(x as int, y as int)]
                } else {
                    old(self).bytes()[k]
                }),
    {
        let buf_len = self.buffer.len();
        let bpp = C::bytes_per_pixel();
        proof {
            C::lemma_bytes_per_pixel_pos();
            assert((y * self.width_spec() + x) * C::bytes_per_pixel_spec()
                + C::bytes_per_pixel_spec() <= self.active_len() && y * self.width_spec()
                <= self.active_len() && y * self.width_spec() + x <= self.active_len())
                by (nonlinear_arith)
                requires
                    x < self.width_spec(),
                    y < self.height_spec(),
                    C::bytes_per_pixel_spec() >= 1,
                    self.active_len() == self.width_spec() * self.height_spec()
                        * C::bytes_per_pixel_spec(),
            ;
            assert(self.active_len() <= buf_len);
        }
        let start = (y * self.width + x) * bpp;
        let mut j: usize = 0;
        while j < bpp
            invariant
                j <= bpp,
                bpp == C::bytes_per_pixel_spec(),
                raw@.len() == bpp,
                start == old(self).pixel_index(x as int, y as int),
                start + bpp <= buf_len,
                buf_len == self.bytes().len(),
                self.width == old(self).width,
                self.height == old(self).height,
                self.bytes().len() == old(self).bytes().len(),
                forall|k: int|
                    0 <= k < old(self).bytes().len() ==> #[trigger] self.bytes()[k] == (
                    if start <= k < start + j {
                        raw@[k - start]
                    } else {
                        old(self).bytes()[k]
                    }),
            decreases bpp - j,
        {
            self.buffer[start + j] = raw[j];
            j += 1;
        }
    }

    /// Whether the pixel at `(px, py)` is inside both the framebuffer and
    /// `area`.
    pub open spec fn covered_by(&self, area: Rectangle, px: int, py: int) -> bool {
        &&& 0 <= px < self.width_spec()
        &&& 0 <= py < self.height_spec()
        &&& area.top_left.x <= px < area.top_left.x + area.size.width
        &&& area.top_left.y <= py < area.top_left.y + area.size.height
    }

    /// Draws one pixel. Coordinates outside the framebuffer are silently
    /// dropped and report no error.
    pub fn draw(&mut self, x: i32, y: i32, color: C)
        requires
            old(self).wf(),
            color.wf(),
        ensures
            final(self).wf(),
            final(self).width_spec() == old(self).width_spec(),
            final(self).height_spec() == old(self).height_spec(),
            final(self).bytes().len() == old(self).bytes().len(),
            (0 <= x < old(self).width_spec() && 0 <= y < old(self).height_spec()) ==> final(self).pixel_is(x as int, y as int, color),
            (0 <= x < old(self).width_spec() && 0 <= y < old(self).height_spec()) ==> forall|k: int|
                0 <= k < old(self).bytes().len() && !(old(self).pixel_index(x as int, y as int)
                    <= k < old(self).pixel_index(x as int, y as int)
                    + C::bytes_per_pixel_spec()) ==> #[trigger] final(self).bytes()[k] == old(self).bytes()[k],
            !(0 <= x < old(self).width_spec() && 0 <= y < old(self).height_spec())
                ==> *final(self) == *old(self),
    {
        if x >= 0 && y >= 0 {
            let xu = x as usize;
            let yu = y as usize;
            if xu < self.width && yu < self.height {
                let raw = color.into_raw_bytes();
                proof {
                    color.lemma_raw_bytes_len();
                }
                self.write_pixel(xu, yu, &raw);
            }
        }
    }

    /// Writes the packed bytes at every pixel of the half-open coordinate
    /// ranges `x0..x1` and `y0..y1`.
    fn fill_pixels(&mut self, x0: usize, y0: usize, x1: usize, y1: usize, raw: &Vec<u8>)
        requires
            old(self).wf(),
            x0 <= x1,
            y0 <= y1,
            x1 <= old(self).width_spec(),
            y1 <= old(self).height_spec(),
            raw@.len() == C::bytes_per_pixel_spec(),
        ensures
            final(self).wf(),
            final(self).width_spec() == old(self).width_spec(),
            final(self).height_spec() == old(self).height_spec(),
            final(self).bytes().len() == old(self).bytes().len(),
            forall|px: int, py: int, j: int|
                x0 <= px < x1 && y0 <= py < y1 && 0 <= j < C::bytes_per_pixel_spec()
                    ==> #[trigger] final(self).bytes()[old(self).pixel_index(px, py) + j]
                    == raw@[j],
            forall|px: int, py: int, j: int|
                0 <= px < old(self).width_spec() && 0 <= py < old(self).height_spec() && !(x0 <= px
                    < x1 && y0 <= py < y1) && 0 <= j < C::bytes_per_pixel_spec()
                    ==> #[trigger] final(self).bytes()[old(self).pixel_index(px, py) + j] == old(self).bytes()[old(self).pixel_index(px, py) + j],
            forall|k: int|
                old(self).active_len() <= k < old(self).bytes().len() ==> #[trigger] final(self).bytes()[k] == old(self).bytes()[k],
    {
        let ghost w = old(self).width_spec() as int;
        let ghost bpp = C::bytes_per_pixel_spec() as int;
        let mut py: usize = y0;
        while py < y1
            invariant
                old(self).wf(),
                y0 <= py <= y1,
                x0 <= x1,
                x1 <= old(self).width_spec(),
                y1 <= old(self).height_spec(),
                raw@.len() == C::bytes_per_pixel_spec(),
                w == old(self).width_spec() as int,
                bpp == C::bytes_per_pixel_spec() as int,
                self.wf(),
                self.width_spec() == old(self).width_spec(),
                self.height_spec() == old(self).height_spec(),
                self.bytes().len() == old(self).bytes().len(),
                forall|px: int, pyy: int, j: int|
                    x0 <= px < x1 && y0 <= pyy < py && 0 <= j < bpp ==> #[trigger] self.bytes()[old(self).pixel_index(px, pyy) + j] == raw@[j],
                forall|px: int, pyy: int, j: int|
                    0 <= px < w && 0 <= pyy < old(self).height_spec() && !(x0 <= px < x1 && y0
                        <= pyy < py) && 0 <= j < bpp ==> #[trigger] self.bytes()[old(self).pixel_index(px, pyy) + j] == old(self).bytes()[old(self).pixel_index(px, pyy)
                        + j],
                forall|k: int|
                    old(self).active_len() <= k < old(self).bytes().len() ==> #[trigger] self.bytes()[k]
                        == old(self).bytes()[k],
            decreases y1 - py,
        {
            let mut px: usize = x0;
            while px < x1
                invariant
                    old(self).wf(),
                    y0 <= py < y1,
                    x0 <= px <= x1,
                    x1 <= old(self).width_spec(),
                    y1 <= old(self).height_spec(),
                    raw@.len() == C::bytes_per_pixel_spec(),
                    w == old(self).width_spec() as int,
                    bpp == C::bytes_per_pixel_spec() as int,
                    self.wf(),
                    self.width_spec() == old(self).width_spec(),
                    self.height_spec() == old(self).height_spec(),
                    self.bytes().len() == old(self).bytes().len(),
                    forall|pxx: int, pyy: int, j: int|
                        x0 <= pxx < x1 && y0 <= pyy < py && 0 <= j < bpp ==> #[trigger] self.bytes()[old(self).pixel_index(pxx, pyy) + j] == raw@[j],
                    forall|pxx: int, j: int|
                        x0 <= pxx < px && 0 <= j < bpp ==> #[trigger] self.bytes()[old(self).pixel_index(pxx, py as int) + j] == raw@[j],
                    forall|pxx: int, pyy: int, j: int|
                        0 <= pxx < w && 0 <= pyy < old(self).height_spec() && !(x0 <= pxx < x1 && y0
                            <= pyy < py) && !(pyy == py && x0 <= pxx < px) && 0 <= j < bpp
                            ==> #[trigger] self.bytes()[old(self).pixel_index(pxx, pyy) + j] == old(self).bytes()[old(self).pixel_index(pxx, pyy) + j],
                    forall|k: int|
                        old(self).active_len() <= k < old(self).bytes().len()
                            ==> #[trigger] self.bytes()[k] == old(self).bytes()[k],
                decreases x1 - px,
            {
                let ghost before = *self;
                self.write_pixel(px, py, raw);
                proof {
                    let cur = py as int * w + px as int;
                    let start = before.pixel_index(px as int, py as int);
                    assert(start == old(self).pixel_index(px as int, py as int));
                    assert forall|pxx: int, pyy: int, j: int|
                        0 <= pxx < w && 0 <= pyy < old(self).height_spec() && !(pxx == px && pyy
                            == py) && 0 <= j < bpp implies #[trigger] self.bytes()[old(self).pixel_index(pxx, pyy) + j] == before.bytes()[old(self).pixel_index(pxx, pyy)
                        + j] by {
                        lemma_pixel_number_injective(w, pxx, pyy, px as int, py as int);
                        lemma_byte_ranges_disjoint(bpp, pyy * w + pxx, cur, j);
                        lemma_pixel_bytes_in_active(
                            w,
                            old(self).height_spec() as int,
                            bpp,
                            pxx,
                            pyy,
                            j,
                        );
                    }
                    assert forall|j: int| 0 <= j < bpp implies #[trigger] self.bytes()[old(self).pixel_index(px as int, py as int) + j] == raw@[j] by {
                        lemma_pixel_bytes_in_active(
                            w,
                            old(self).height_spec() as int,
                            bpp,
                            px as int,
                            py as int,
                            j,
                        );
                    }
                }
                px += 1;
            }
            py += 1;
        }
    }

    /// Fills the whole framebuffer with one color: a single-byte fill when
    /// every packed byte of the color is the same, a per-pixel tiling
    /// otherwise.
    pub fn clear(&mut self, color: C)
        requires
            old(self).wf(),
            color.wf(),
        ensures
            final(self).wf(),
            final(self).width_spec() == old(self).width_spec(),
            final(self).height_spec() == old(self).height_spec(),
            final(self).bytes().len() == old(self).bytes().len(),
            forall|px: int, py: int|
                0 <= px < old(self).width_spec() && 0 <= py < old(self).height_spec()
                    ==> #[trigger] final(self).pixel_is(px, py, color),
            forall|k: int|
                old(self).active_len() <= k < old(self).bytes().len() ==> #[trigger] final(self).bytes()[k] == old(self).bytes()[k],
    {
        let raw = color.into_raw_bytes();
        proof {
            color.lemma_raw_bytes_len();
            C::lemma_bytes_per_pixel_pos();
        }
        let mut all_same = true;
        let mut j: usize = 1;
        while j < raw.len()
            invariant
                1 <= j <= raw@.len() || (j == 1 && raw@.len() == 0),
                all_same == (forall|jj: int| 1 <= jj < j ==> #[trigger] raw@[jj] == raw@[0]),
            decreases raw@.len() - j,
        {
            if raw[j] != raw[0] {
                all_same = false;
            }
            j += 1;
        }
        let ghost w = old(self).width_spec() as int;
        let ghost h = old(self).height_spec() as int;
        let ghost bpp = C::bytes_per_pixel_spec() as int;
        if all_same {
            let buf_len = self.buffer.len();
            proof {
                assert(self.width_spec() * self.height_spec() <= self.active_len())
                    by (nonlinear_arith)
                    requires
                        C::bytes_per_pixel_spec() >= 1,
                        self.active_len() == self.width_spec() * self.height_spec()
                            * C::bytes_per_pixel_spec(),
                ;
                assert(self.active_len() <= buf_len);
            }
            let bppe = C::bytes_per_pixel();
            let wh = self.width * self.height;
            let active = wh * bppe;
            let first = raw[0];
            let mut k: usize = 0;
            while k < active
                invariant
                    k <= active,
                    active == old(self).active_len(),
                    active <= buf_len,
                    buf_len == self.bytes().len(),
                    first == raw@[0],
                    self.width_spec() == old(self).width_spec(),
                    self.height_spec() == old(self).height_spec(),
                    self.bytes().len() == old(self).bytes().len(),
                    forall|kk: int| 0 <= kk < k ==> #[trigger] self.bytes()[kk] == raw@[0],
                    forall|kk: int|
                        k <= kk < self.bytes().len() ==> #[trigger] self.bytes()[kk] == old(self).bytes()[kk],
                decreases active - k,
            {
                self.buffer[k] = first;
                k += 1;
            }
            proof {
                assert forall|px: int, py: int|
                    0 <= px < old(self).width_spec() && 0 <= py < old(self).height_spec()
                        implies #[trigger] self.pixel_is(px, py, color) by {
                    assert forall|jj: int| 0 <= jj < bpp implies self.bytes()[#[trigger] (
                    self.pixel_index(px, py) + jj)] == color.raw_bytes_spec()[jj] by {
                        lemma_pixel_bytes_in_active(w, h, bpp, px, py, jj);
                        assert(self.bytes()[self.pixel_index(px, py) + jj] == raw@[0]);
                        assert(raw@[jj] == raw@[0]);
                    }
                }
            }
        } else {
            let wdt = self.width;
            let hgt = self.height;
            self.fill_pixels(0, 0, wdt, hgt, &raw);
            proof {
                assert forall|px: int, py: int|
                    0 <= px < old(self).width_spec() && 0 <= py < old(self).height_spec()
                        implies #[trigger] self.pixel_is(px, py, color) by {
                    assert forall|jj: int| 0 <= jj < bpp implies self.bytes()[#[trigger] (
                    self.pixel_index(px, py) + jj)] == color.raw_bytes_spec()[jj] by {
                        assert(self.bytes()[old(self).pixel_index(px, py) + jj] == raw@[jj]);
                    }
                }
            }
        }
    }

    /// Fills the intersection of `area` with the framebuffer bounds; a
    /// no-op when the intersection is empty.
    pub fn fill_solid(&mut self, area: &Rectangle, color: C)
        requires
            old(self).wf(),
            color.wf(),
        ensures
            final(self).wf(),
            final(self).width_spec() == old(self).width_spec(),
            final(self).height_spec() == old(self).height_spec(),
            final(self).bytes().len() == old(self).bytes().len(),
            forall|px: int, py: int|
                old(self).covered_by(*area, px, py) ==> #[trigger] final(self).pixel_is(
                    px,
                    py,
                    color,
                ),
            forall|px: int, py: int, j: int|
                0 <= px < old(self).width_spec() && 0 <= py < old(self).height_spec() && !old(self).covered_by(*area, px, py) && 0 <= j < C::bytes_per_pixel_spec()
                    ==> #[trigger] final(self).bytes()[old(self).pixel_index(px, py) + j] == old(self).bytes()[old(self).pixel_index(px, py) + j],
            forall|k: int|
                old(self).active_len() <= k < old(self).bytes().len() ==> #[trigger] final(self).bytes()[k] == old(self).bytes()[k],
    {
        let raw = color.into_raw_bytes();
        proof {
            color.lemma_raw_bytes_len();
        }
        let wdt = self.width as u64;
        let hgt = self.height as u64;
        let x0u: u64 = if area.top_left.x <= 0 {
            0
        } else if area.top_left.x as u64 > wdt {
            wdt
        } else {
            area.top_left.x as u64
        };
        let y0u: u64 = if area.top_left.y <= 0 {
            0
        } else if area.top_left.y as u64 > hgt {
            hgt
        } else {
            area.top_left.y as u64
        };
        let x_end: i64 = area.top_left.x as i64 + area.size.width as i64;
        let y_end: i64 = area.top_left.y as i64 + area.size.height as i64;
        let x1u: u64 = if x_end <= 0 {
            0
        } else if x_end as u64 > wdt {
            wdt
        } else {
            x_end as u64
        };
        let y1u: u64 = if y_end <= 0 {
            0
        } else if y_end as u64 > hgt {
            hgt
        } else {
            y_end as u64
        };
        if x0u < x1u && y0u < y1u {
            let x0 = x0u as usize;
            let y0 = y0u as usize;
            let x1 = x1u as usize;
            let y1 = y1u as usize;
            self.fill_pixels(x0, y0, x1, y1, &raw);
            proof {
                assert forall|px: int, py: int|
                    old(self).covered_by(*area, px, py) implies #[trigger] self.pixel_is(
                    px,
                    py,
                    color,
                ) by {
                    assert(x0 <= px < x1 && y0 <= py < y1);
                    assert forall|jj: int|
                        0 <= jj < C::bytes_per_pixel_spec() implies self.bytes()[#[trigger] (
                    self.pixel_index(px, py) + jj)] == color.raw_bytes_spec()[jj] by {
                        assert(self.bytes()[old(self).pixel_index(px, py) + jj] == raw@[jj]);
                    }
                }
            }
        }
    }
}

} // verus!
