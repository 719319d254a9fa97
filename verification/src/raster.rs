//! Software RGBA frame buffer used to render video frames offline.
//!
//! The buffer stores `width * height` pixels, four bytes each (red, green,
//! blue, alpha), row after row. Drawing primitives that work on whole pixels
//! (clearing, plotting, filling rectangles) live here; the anti-aliased shapes,
//! gradients and text drawn from floating-point geometry are built on top of
//! them by the application.
use vstd::prelude::*;

verus! {

/// One RGBA pixel as it is stored in the frame buffer.
pub type Rgba = (u8, u8, u8, u8);

/// Byte offset of the pixel at column `x`, row `y` in a buffer `width` pixels wide.
pub open spec fn pixel_offset(width: int, x: int, y: int) -> int {
    (y * width + x) * 4
}

/// Pure-software RGBA frame rasterizer for offscreen video rendering.
pub struct OffscreenRasterizer {
    pub width: u32,
    pub height: u32,
    buffer: Vec<u8>,
}

/// The pixel at `(x, y)` sits inside the frame and its four bytes are in the buffer.
proof fn lemma_pixel_in_buffer(w: int, h: int, x: int, y: int)
    requires
        0 <= x < w,
        0 <= y < h,
    ensures
        0 <= pixel_offset(w, x, y),
        pixel_offset(w, x, y) + 4 <= w * h * 4,
        y * w + x < w * h,
{
    assert(y * w + x < w * h) by (nonlinear_arith)
        requires
            0 <= x < w,
            0 <= y < h,
    ;
    assert(0 <= y * w) by (nonlinear_arith)
        requires
            0 <= x < w,
            0 <= y < h,
    ;
}

/// Two different pixels of a frame own disjoint four-byte blocks.
proof fn lemma_pixels_disjoint(w: int, x1: int, y1: int, x2: int, y2: int)
    requires
        0 <= x1 < w,
        0 <= x2 < w,
        0 <= y1,
        0 <= y2,
        x1 != x2 || y1 != y2,
    ensures
        pixel_offset(w, x1, y1) + 4 <= pixel_offset(w, x2, y2) || pixel_offset(w, x2, y2) + 4
            <= pixel_offset(w, x1, y1),
{
    if y1 == y2 {
        assert(y1 * w == y2 * w);
    } else if y1 < y2 {
        assert(y1 * w + w <= y2 * w) by (nonlinear_arith)
            requires
                y1 < y2,
                0 <= w,
        ;
    } else {
        assert(y2 * w + w <= y1 * w) by (nonlinear_arith)
            requires
                y2 < y1,
                0 <= w,
        ;
    }
}

/// Column of the pixel that byte `i` belongs to, in a frame `width` pixels wide.
pub open spec fn byte_column(width: int, i: int) -> int {
    (i / 4) % width
}

/// Row of the pixel that byte `i` belongs to, in a frame `width` pixels wide.
pub open spec fn byte_row(width: int, i: int) -> int {
    (i / 4) / width
}

/// The four bytes of `bytes` that start at offset `i`, as one pixel.
pub open spec fn rgba_at(bytes: Seq<u8>, i: int) -> Rgba {
    (bytes[i], bytes[i + 1], bytes[i + 2], bytes[i + 3])
}

/// What well-formedness means: the frame holds exactly `width * height`
/// four-byte pixels, and that many bytes fit in a `u32`.
pub proof fn lemma_frame_size(f: OffscreenRasterizer)
    ensures
        f.wf() <==> (f.bytes().len() == f.frame_width() * f.frame_height() * 4 && f.frame_width()
            * f.frame_height() * 4 <= u32::MAX),
{
}

/// The byte layout of a frame, read from a pixel: the buffer holds
/// `width * height` pixels of four bytes, row after row, and pixel `(x, y)` is the
/// four bytes at `pixel_offset(width, x, y)`, in the order red, green, blue, alpha.
pub proof fn lemma_pixel_bytes(f: OffscreenRasterizer, x: int, y: int)
    requires
        f.wf(),
        f.in_frame(x, y),
    ensures
        f.bytes().len() == f.frame_width() * f.frame_height() * 4,
        0 <= pixel_offset(f.frame_width() as int, x, y),
        pixel_offset(f.frame_width() as int, x, y) + 4 <= f.bytes().len(),
        f.pixel(x, y) == rgba_at(f.bytes(), pixel_offset(f.frame_width() as int, x, y)),
{
    lemma_pixel_in_buffer(f.width as int, f.height as int, x, y);
}

/// The byte layout of a frame, read from a byte: byte `i` of the buffer is
/// channel `i % 4` of the pixel at column `byte_column(width, i)`, row
/// `byte_row(width, i)`, which lies inside the frame.
pub proof fn lemma_byte_pixel(f: OffscreenRasterizer, i: int)
    requires
        f.wf(),
        0 <= i < f.bytes().len(),
    ensures
        f.bytes().len() == f.frame_width() * f.frame_height() * 4,
        f.in_frame(byte_column(f.frame_width() as int, i), byte_row(f.frame_width() as int, i)),
        pixel_offset(
            f.frame_width() as int,
            byte_column(f.frame_width() as int, i),
            byte_row(f.frame_width() as int, i),
        ) + i % 4 == i,
{
    let w = f.width as int;
    let h = f.height as int;
    let p = i / 4;
    assert(p < w * h);
    assert(w > 0) by (nonlinear_arith)
        requires
            0 <= p < w * h,
            0 <= h,
    ;
    let x = p % w;
    let y = p / w;
    assert(p == w * y + x && 0 <= x < w && 0 <= y) by (nonlinear_arith)
        requires
            w > 0,
            p >= 0,
            x == p % w,
            y == p / w,
    ;
    assert(y < h) by (nonlinear_arith)
        requires
            w > 0,
            p == w * y + x,
            0 <= x,
            p < w * h,
    ;
    assert(pixel_offset(w, x, y) == p * 4) by (nonlinear_arith)
        requires
            p == w * y + x,
    ;
}

/// Law (read after write): once a pixel inside the frame has been set to `color`,
/// reading it gives `color`, and every other pixel reads as it did before.
pub proof fn lemma_set_pixel_read_back(
    before: OffscreenRasterizer,
    after: OffscreenRasterizer,
    x: int,
    y: int,
    color: Rgba,
)
    requires
        after.paints(&before, |px: int, py: int| px == x && py == y, color),
        before.in_frame(x, y),
    ensures
        after.in_frame(x, y),
        after.pixel(x, y) == color,
        forall|px: int, py: int|
            #![trigger after.pixel(px, py)]
            after.in_frame(px, py) && (px != x || py != y) ==> after.pixel(px, py) == before.pixel(
                px,
                py,
            ),
{
    assert(after.pixel(x, y) == color);
}

/// Law (last write wins): painting a region with one colour and then the same
/// region with another leaves the frame as painting it once with the second.
pub proof fn lemma_repaint_overrides(
    first: OffscreenRasterizer,
    second: OffscreenRasterizer,
    third: OffscreenRasterizer,
    region: spec_fn(int, int) -> bool,
    color1: Rgba,
    color2: Rgba,
)
    requires
        second.paints(&first, region, color1),
        third.paints(&second, region, color2),
    ensures
        third.paints(&first, region, color2),
{
    assert forall|x: int, y: int| #![trigger third.pixel(x, y)] third.in_frame(x, y) implies third.pixel(x, y)
        == if region(x, y) {
        color2
    } else {
        first.pixel(x, y)
    } by {
        assert(second.pixel(x, y) == if region(x, y) {
            color1
        } else {
            first.pixel(x, y)
        });
    }
}

/// Law (clearing forgets the past): two frames of the same size cleared to the
/// same colour are pixel for pixel identical, whatever they held before.
pub proof fn lemma_clear_forgets_history(
    a_before: OffscreenRasterizer,
    a_after: OffscreenRasterizer,
    b_before: OffscreenRasterizer,
    b_after: OffscreenRasterizer,
    color: Rgba,
)
    requires
        a_after.paints(&a_before, |x: int, y: int| true, color),
        b_after.paints(&b_before, |x: int, y: int| true, color),
        a_before.frame_width() == b_before.frame_width(),
        a_before.frame_height() == b_before.frame_height(),
    ensures
        forall|x: int, y: int|
            #![trigger a_after.pixel(x, y), b_after.pixel(x, y)]
            a_after.in_frame(x, y) ==> b_after.in_frame(x, y) && a_after.pixel(x, y) == b_after.pixel(
                x,
                y,
            ) && a_after.pixel(x, y) == color,
{
    assert forall|x: int, y: int| #![trigger a_after.pixel(x, y), b_after.pixel(x, y)] a_after.in_frame(x, y) implies b_after.in_frame(x, y) && a_after.pixel(x, y) == b_after.pixel(x, y)
        && a_after.pixel(x, y) == color by {
        assert(a_after.pixel(x, y) == color);
        assert(b_after.pixel(x, y) == color);
    }
}

impl OffscreenRasterizer {
    /// Width of the frame in pixels.
    pub closed spec fn frame_width(&self) -> nat {
        self.width as nat
    }

    /// Height of the frame in pixels.
    pub closed spec fn frame_height(&self) -> nat {
        self.height as nat
    }

    /// The buffer holds exactly `width * height` pixels and its size fits in a `u32`.
    pub closed spec fn wf(&self) -> bool {
        &&& self.buffer@.len() == self.width * self.height * 4
        &&& self.width * self.height * 4 <= u32::MAX
    }

    /// The raw bytes of the frame, row after row, four bytes per pixel.
    pub closed spec fn bytes(&self) -> Seq<u8> {
        self.buffer@
    }

    /// Whether `(x, y)` lies inside the frame.
    pub open spec fn in_frame(&self, x: int, y: int) -> bool {
        0 <= x < self.frame_width() && 0 <= y < self.frame_height()
    }

    /// The four channels of the pixel at `(x, y)`.
    pub closed spec fn pixel(&self, x: int, y: int) -> Rgba {
        let i = pixel_offset(self.width as int, x, y);
        (self.buffer@[i], self.buffer@[i + 1], self.buffer@[i + 2], self.buffer@[i + 3])
    }

    /// Every pixel of `self` equals the corresponding pixel of `other`, except where
    /// `changed` holds, where it equals `color`.
    pub open spec fn paints(&self, other: &Self, changed: spec_fn(int, int) -> bool, color: Rgba) -> bool {
        &&& self.wf()
        &&& self.frame_width() == other.frame_width()
        &&& self.frame_height() == other.frame_height()
        &&& forall|x: int, y: int|
            #![trigger self.pixel(x, y)]
            self.in_frame(x, y) ==> self.pixel(x, y) == if changed(x, y) {
                color
            } else {
                other.pixel(x, y)
            }
    }

    /// Creates a `width` x `height` frame whose bytes are all zero
    /// (every pixel transparent black).
    pub fn new(width: u32, height: u32) -> (r: Self)
        requires
            width * height * 4 <= u32::MAX,
        ensures
            r.wf(),
            r.frame_width() == width,
            r.frame_height() == height,
            r.bytes() == Seq::new((width * height * 4) as nat, |i: int| 0u8),
            forall|x: int, y: int| #![trigger r.pixel(x, y)] r.in_frame(x, y) ==> r.pixel(x, y) == (0u8, 0u8, 0u8, 0u8),
    {
        assert(0 <= width * height) by (nonlinear_arith);
        let len: u32 = width * height * 4;
        let buffer: Vec<u8> = vec![0u8; len as usize];
        let r = OffscreenRasterizer { width, height, buffer };
        assert forall|x: int, y: int| #![trigger r.pixel(x, y)] r.in_frame(x, y) implies r.pixel(x, y) == (0u8, 0u8, 0u8, 0u8) by {
            lemma_pixel_in_buffer(width as int, height as int, x, y);
        }
        assert(r.bytes() =~= Seq::new((width * height * 4) as nat, |i: int| 0u8));
        r
    }

    /// Width of the frame in pixels (the value of the `width` field).
    pub fn width(&self) -> (w: u32)
        ensures
            w == self.frame_width(),
    {
        self.width
    }

    /// Height of the frame in pixels (the value of the `height` field).
    pub fn height(&self) -> (h: u32)
        ensures
            h == self.frame_height(),
    {
        self.height
    }

    /// The frame's bytes, row after row, four bytes (RGBA) per pixel.
    pub fn as_bytes(&self) -> (r: &[u8])
        ensures
            r@ == self.bytes(),
    {
        self.buffer.as_slice()
    }

    /// Fills every pixel of the frame with the colour `(r, g, b, a)`.
    pub fn clear(&mut self, r: u8, g: u8, b: u8, a: u8)
        requires
            old(self).wf(),
        ensures
            final(self).paints(old(self), |x: int, y: int| true, (r, g, b, a)),
    {
        let ghost w = self.width as int;
        let ghost h = self.height as int;
        assert(0 <= w * h) by (nonlinear_arith)
            requires
                0 <= w,
                0 <= h,
        ;
        let count: usize = self.buffer.len() / 4;
        assert(count == w * h);
        let mut p: usize = 0;
        while p < count
            invariant
                self.wf(),
                self.width == w,
                self.height == h,
                count == w * h,
                p <= count,
                forall|q: int|
                    #![trigger self.buffer@[q * 4]]
                    0 <= q < p ==> self.buffer@[q * 4] == r && self.buffer@[q * 4 + 1] == g
                        && self.buffer@[q * 4 + 2] == b && self.buffer@[q * 4 + 3] == a,
            decreases count - p,
        {
            let i: usize = p * 4;
            self.buffer[i] = r;
            self.buffer[i + 1] = g;
            self.buffer[i + 2] = b;
            self.buffer[i + 3] = a;
            p = p + 1;
        }
        assert forall|x: int, y: int|
            #![trigger self.pixel(x, y)]
            self.in_frame(x, y) implies self.pixel(x, y) == (r, g, b, a) by {
            lemma_pixel_in_buffer(w, h, x, y);
            let q = y * w + x;
            assert(self.buffer@[q * 4] == r);
        }
    }

    /// Writes the colour `(r, g, b, a)` at `(x, y)`; a position outside the frame
    /// leaves it unchanged.
    pub fn set_pixel(&mut self, x: u32, y: u32, r: u8, g: u8, b: u8, a: u8)
        requires
            old(self).wf(),
        ensures
            final(self).paints(old(self), |px: int, py: int| px == x && py == y, (r, g, b, a)),
    {
        if x < self.width && y < self.height {
            let ghost w = self.width as int;
            let ghost h = self.height as int;
            proof {
                lemma_pixel_in_buffer(w, h, x as int, y as int);
            }
            let idx: usize = ((y * self.width + x) * 4) as usize;
            let ghost old_self = *self;
            self.buffer[idx] = r;
            self.buffer[idx + 1] = g;
            self.buffer[idx + 2] = b;
            self.buffer[idx + 3] = a;
            assert forall|px: int, py: int|
                #![trigger self.pixel(px, py)]
                self.in_frame(px, py) implies self.pixel(px, py) == if px == x && py == y {
                    (r, g, b, a)
                } else {
                    old_self.pixel(px, py)
                } by {
                if px != x || py != y {
                    lemma_pixels_disjoint(w, px, py, x as int, y as int);
                    lemma_pixel_in_buffer(w, h, px, py);
                }
            }
        }
    }

    /// The colour of the pixel at `(x, y)`, or `None` outside the frame.
    pub fn pixel_at(&self, x: u32, y: u32) -> (res: Option<Rgba>)
        requires
            self.wf(),
        ensures
            res == if self.in_frame(x as int, y as int) {
                Some(self.pixel(x as int, y as int))
            } else {
                None::<Rgba>
            },
    {
        if x < self.width && y < self.height {
            proof {
                lemma_pixel_in_buffer(self.width as int, self.height as int, x as int, y as int);
            }
            let idx: usize = ((y * self.width + x) * 4) as usize;
            Some((self.buffer[idx], self.buffer[idx + 1], self.buffer[idx + 2], self.buffer[idx + 3]))
        } else {
            None
        }
    }

    /// Fills the pixels with `x0 <= x < x1` and `y0 <= y < y1` (clipped to the frame)
    /// with the colour `(r, g, b, a)`.
    pub fn fill_rect(&mut self, x0: u32, y0: u32, x1: u32, y1: u32, r: u8, g: u8, b: u8, a: u8)
        requires
            old(self).wf(),
        ensures
            final(self).paints(
                old(self),
                |x: int, y: int| x0 <= x < x1 && y0 <= y < y1,
                (r, g, b, a),
            ),
    {
        let ghost orig = *self;
        let x_start = if x0 < self.width { x0 } else { self.width };
        let x_end = if x1 < self.width { x1 } else { self.width };
        let y_start = if y0 < self.height { y0 } else { self.height };
        let y_end = if y1 < self.height { y1 } else { self.height };
        let mut y = y_start;
        while y < y_end
            invariant
                self.wf(),
                self.width == orig.width,
                self.height == orig.height,
                y_start <= y,
                y == y_start || y <= y_end,
                y_start == if y0 < orig.height { y0 } else { orig.height },
                y_end == if y1 < orig.height { y1 } else { orig.height },
                x_start == if x0 < orig.width { x0 } else { orig.width },
                x_end == if x1 < orig.width { x1 } else { orig.width },
                forall|px: int, py: int|
                    #![trigger self.pixel(px, py)]
                    self.in_frame(px, py) ==> self.pixel(px, py) == if x0 <= px < x1 && y0 <= py
                        < y && py < y1 {
                        (r, g, b, a)
                    } else {
                        orig.pixel(px, py)
                    },
            decreases y_end - y,
        {
            let mut x = x_start;
            while x < x_end
                invariant
                    self.wf(),
                    self.width == orig.width,
                    self.height == orig.height,
                    x_start <= x,
                    x == x_start || x <= x_end,
                    y_start <= y < y_end,
                    y_start == if y0 < orig.height { y0 } else { orig.height },
                    y_end == if y1 < orig.height { y1 } else { orig.height },
                    x_start == if x0 < orig.width { x0 } else { orig.width },
                    x_end == if x1 < orig.width { x1 } else { orig.width },
                    forall|px: int, py: int|
                        #![trigger self.pixel(px, py)]
                        self.in_frame(px, py) ==> self.pixel(px, py) == if (x0 <= px < x1 && y0
                            <= py < y && py < y1) || (py == y && x0 <= px < x) {
                            (r, g, b, a)
                        } else {
                            orig.pixel(px, py)
                        },
                decreases x_end - x,
            {
                self.set_pixel(x, y, r, g, b, a);
                x = x + 1;
            }
            y = y + 1;
        }
    }
}

} // verus!
