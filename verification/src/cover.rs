//! Cover art for the centre of the circular visualizer: an image file's bytes are
//! decoded to 8-bit RGBA with the `image` crate and cropped to their centred
//! square. The soft-edged disc mask drawn from floating-point distances is
//! applied by the application.
use vstd::prelude::*;

verus! {

/// Calls `image::load_from_memory(bytes)` and converts the decoded image with
/// `into_rgba8`, giving its width, its height and its pixel bytes row after row,
/// or the decoder's error message. Trusted: the pixel bytes hold at least
/// `width * height * 4` bytes, which every `image::ImageBuffer` guarantees
/// (`check_image_fits` in its constructors).
///
/// Nothing is said of which images decode or what they decode to: the crate
/// first consults format-detection and decoding hooks that any code in the
/// process may register at run time, so the same bytes may decode differently
/// from one call to the next. Those hook registries sit behind locks that the
/// crate unwraps, so a lock poisoned by a panic elsewhere makes this call panic.
#[verifier::external_body]
fn decode_rgba8(bytes: &[u8]) -> (r: Result<(u32, u32, Vec<u8>), String>)
    ensures
        r matches Ok(img) ==> img.2@.len() >= img.0 * img.1 * 4,
{
    match image::load_from_memory(bytes) {
        Ok(img) => {
            let rgba = img.into_rgba8();
            let (width, height) = rgba.dimensions();
            Ok((width, height, rgba.into_raw()))
        },
        Err(e) => Err(e.to_string()),
    }
}

/// Side of the largest centred square that fits a `width` x `height` image.
pub open spec fn square_side(width: nat, height: nat) -> nat {
    if width <= height {
        width
    } else {
        height
    }
}

/// Index of channel `c` of pixel `(x, y)` in an RGBA8 image `width` pixels wide.
pub open spec fn channel_index(width: int, x: int, y: int, c: int) -> int {
    (y * width + x) * 4 + c
}

/// `out` is the centred `side` x `side` square of the RGBA8 image `rgba` of
/// `width` x `height` pixels: `side` is the shorter dimension, and pixel `(x, y)`
/// of the square is pixel `(x + (width - side) / 2, y + (height - side) / 2)` of the
/// image.
pub open spec fn is_centred_square(width: nat, height: nat, rgba: Seq<u8>, side: nat, out: Seq<u8>) -> bool {
    let x_offset = (width - side) / 2;
    let y_offset = (height - side) / 2;
    &&& side == square_side(width, height)
    &&& out.len() == side * side * 4
    &&& forall|x: int, y: int, c: int|
        0 <= x < side && 0 <= y < side && 0 <= c < 4 ==> #[trigger] out[channel_index(side as int, x, y, c)]
            == rgba[channel_index(width as int, x + x_offset, y + y_offset, c)]
}

/// Channel `c` of a pixel inside a `width` x `height` image lies in its
/// `width * height * 4` bytes.
proof fn lemma_channel_in_image(width: int, height: int, x: int, y: int, c: int)
    requires
        0 <= x < width,
        0 <= y < height,
        0 <= c < 4,
    ensures
        0 <= y * width + x < width * height,
        0 <= channel_index(width, x, y, c) < width * height * 4,
{
    assert(0 <= y * width + x < width * height) by (nonlinear_arith)
        requires
            0 <= x < width,
            0 <= y < height,
    ;
}

/// A pixel that comes before pixel `(x, y)` in row order has a smaller index.
proof fn lemma_earlier_pixel(side: int, px: int, py: int, x: int, y: int)
    requires
        0 <= px < side,
        0 <= x,
        0 <= py,
        py < y || (py == y && px < x),
    ensures
        py * side + px < y * side + x,
{
    if py < y {
        assert(py * side + side <= y * side) by (nonlinear_arith)
            requires
                py < y,
                0 <= side,
        ;
    }
}

/// Law: the square taken from an image is as large as the image allows: its side
/// is one of the image's two dimensions and fits in both, so it is the shorter one.
pub proof fn lemma_square_is_largest(width: nat, height: nat, rgba: Seq<u8>, side: nat, out: Seq<u8>)
    requires
        is_centred_square(width, height, rgba, side, out),
    ensures
        side <= width,
        side <= height,
        side == width || side == height,
{
}

/// `out` is the `side` x `side` block of pixels of the RGBA8 image `rgba`
/// (`width` pixels wide) whose top-left corner is the image's pixel `(dx, dy)`.
pub open spec fn is_block_at(width: nat, rgba: Seq<u8>, side: nat, out: Seq<u8>, dx: nat, dy: nat) -> bool {
    forall|x: int, y: int, c: int|
        0 <= x < side && 0 <= y < side && 0 <= c < 4 ==> #[trigger] out[channel_index(side as int, x, y, c)]
            == rgba[channel_index(width as int, x + dx, y + dy, c)]
}

/// Law: the square is cut from the middle of the image: it is the block of the
/// image at some fixed offset, and the margins that offset leaves on either side
/// differ by at most one pixel (the extra one on the right or at the bottom).
pub proof fn lemma_square_is_centred(width: nat, height: nat, rgba: Seq<u8>, side: nat, out: Seq<u8>)
    requires
        is_centred_square(width, height, rgba, side, out),
    ensures
        exists|dx: nat, dy: nat|
            {
                &&& #[trigger] is_block_at(width, rgba, side, out, dx, dy)
                &&& dx + side <= width
                &&& dy + side <= height
                &&& dx <= width - side - dx <= dx + 1
                &&& dy <= height - side - dy <= dy + 1
            },
{
    let dx: nat = ((width - side) / 2) as nat;
    let dy: nat = ((height - side) / 2) as nat;
    assert(is_block_at(width, rgba, side, out, dx, dy));
    assert(dx + side <= width && dy + side <= height && dx <= width - side - dx <= dx + 1 && dy
        <= height - side - dy <= dy + 1);
}

/// Law: a square image is kept whole, byte for byte.
pub proof fn lemma_square_image_kept_whole(width: nat, rgba: Seq<u8>, side: nat, out: Seq<u8>)
    requires
        rgba.len() == width * width * 4,
        is_centred_square(width, width, rgba, side, out),
    ensures
        side == width,
        out == rgba,
{
    assert(out.len() == rgba.len());
    assert forall|i: int| 0 <= i < out.len() implies out[i] == rgba[i] by {
        let w = width as int;
        let p = i / 4;
        let c = i % 4;
        assert(p < w * w);
        assert(w > 0) by (nonlinear_arith)
            requires
                0 <= p < w * w,
                0 <= w,
        ;
        let x = p % w;
        let y = p / w;
        assert(p == w * y + x && 0 <= x < w && 0 <= y) by (nonlinear_arith)
            requires
                w > 0,
                p >= 0,
                x == p % w,
                y == p / w,
        ;
        assert(y < w) by (nonlinear_arith)
            requires
                w > 0,
                p == w * y + x,
                0 <= x,
                p < w * w,
        ;
        assert(channel_index(w, x, y, c) == i);
        assert(out[channel_index(w, x, y, c)] == rgba[channel_index(w, x + 0, y + 0, c)]);
    }
    assert(out =~= rgba);
}

/// Crops an RGBA8 image of `width` x `height` pixels to its centred square: the
/// square's side is the shorter dimension, and it is taken from the middle of the
/// longer one (rounding the offset down).
pub fn centred_square(width: u32, height: u32, rgba: &[u8]) -> (r: (u32, Vec<u8>))
    requires
        rgba@.len() >= width * height * 4,
    ensures
        is_centred_square(width as nat, height as nat, rgba@, r.0 as nat, r.1@),
{
    let side: u32 = if width <= height { width } else { height };
    let x_offset: u32 = (width - side) / 2;
    let y_offset: u32 = (height - side) / 2;
    let ghost w = width as int;
    let ghost h = height as int;
    let ghost s = side as int;
    let total: usize = rgba.len();
    let mut out: Vec<u8> = Vec::new();
    let mut y: u32 = 0;
    while y < side
        invariant
            side as int == s,
            s == square_side(width as nat, height as nat),
            x_offset == (w - s) / 2,
            y_offset == (h - s) / 2,
            w == width,
            h == height,
            rgba@.len() >= w * h * 4,
            total == rgba@.len(),
            y <= side,
            out@.len() == (y * s) * 4,
            forall|px: int, py: int, c: int|
                0 <= px < s && 0 <= py < y && 0 <= c < 4 ==> #[trigger] out@[channel_index(s, px, py, c)]
                    == rgba@[channel_index(w, px + x_offset, py + y_offset, c)],
        decreases side - y,
    {
        let mut x: u32 = 0;
        while x < side
            invariant
                side as int == s,
                s == square_side(width as nat, height as nat),
                x_offset == (w - s) / 2,
                y_offset == (h - s) / 2,
                w == width,
                h == height,
                rgba@.len() >= w * h * 4,
                total == rgba@.len(),
                y < side,
                x <= side,
                out@.len() == (y * s + x) * 4,
                forall|px: int, py: int, c: int|
                    0 <= px < s && 0 <= py && (py < y || (py == y && px < x)) && 0 <= c < 4
                        ==> #[trigger] out@[channel_index(s, px, py, c)] == rgba@[channel_index(
                        w,
                        px + x_offset,
                        py + y_offset,
                        c,
                    )],
            decreases side - x,
        {
            let sx: u32 = x + x_offset;
            let sy: u32 = y + y_offset;
            proof {
                lemma_channel_in_image(w, h, sx as int, sy as int, 3);
                lemma_channel_in_image(w, h, sx as int, sy as int, 0);
            }
            assert(sy * w + sx < w * h);
            assert(w * h * 4 <= usize::MAX);
            let base: usize = ((sy as usize) * (width as usize) + (sx as usize)) * 4;
            let ghost before = out@;
            let mut c: usize = 0;
            while c < 4
                invariant
                    c <= 4,
                    base == channel_index(w, sx as int, sy as int, 0),
                    base + 4 <= rgba@.len(),
                    out@.len() == before.len() + c,
                    before.len() == (y * s + x) * 4,
                    forall|k: int| 0 <= k < before.len() ==> #[trigger] out@[k] == before[k],
                    forall|k: int| 0 <= k < c ==> #[trigger] out@[before.len() + k] == rgba@[base + k],
                decreases 4 - c,
            {
                out.push(rgba[base + c]);
                c = c + 1;
            }
            assert forall|px: int, py: int, ch: int|
                0 <= px < s && 0 <= py && (py < y || (py == y && px < x + 1)) && 0 <= ch < 4
                    implies #[trigger] out@[channel_index(s, px, py, ch)] == rgba@[channel_index(
                    w,
                    px + x_offset,
                    py + y_offset,
                    ch,
                )] by {
                if py == y && px == x {
                    assert(channel_index(s, px, py, ch) == before.len() + ch);
                    assert(out@[before.len() + ch] == rgba@[base + ch]);
                } else {
                    lemma_earlier_pixel(s, px, py, x as int, y as int);
                    assert(channel_index(s, px, py, ch) < before.len()) by (nonlinear_arith)
                        requires
                            py * s + px < y * s + x,
                            before.len() == (y * s + x) * 4,
                            0 <= ch < 4,
                    ;
                    assert(out@[channel_index(s, px, py, ch)] == before[channel_index(s, px, py, ch)]);
                }
            }
            x = x + 1;
        }
        assert((y + 1) * s == y * s + s) by (nonlinear_arith);
        y = y + 1;
    }
    assert(out@.len() == s * s * 4);
    (side, out)
}

/// The message shown when a cover image cannot be decoded: the decoder's own
/// message after `Failed to decode image: `.
pub open spec fn decode_error_text(reason: Seq<char>) -> Seq<char> {
    "Failed to decode image: "@ + reason
}

/// Turns the outcome of decoding a cover image into the cover: a decoded RGBA8
/// image (width, height, pixel bytes) is cropped to its centred square, and a
/// decoder error becomes `Failed to decode image: <message>`.
pub fn cover_square_of(decoded: Result<(u32, u32, Vec<u8>), String>) -> (r: Result<(u32, Vec<u8>), String>)
    requires
        decoded matches Ok(img) ==> img.2@.len() >= img.0 * img.1 * 4,
    ensures
        decoded is Ok <==> r is Ok,
        decoded matches Err(reason) ==> r matches Err(msg) && msg@ == decode_error_text(reason@),
        decoded matches Ok(img) ==> r matches Ok(square) && is_centred_square(
            img.0 as nat,
            img.1 as nat,
            img.2@,
            square.0 as nat,
            square.1@,
        ),
{
    match decoded {
        Ok((width, height, pixels)) => Ok(centred_square(width, height, pixels.as_slice())),
        Err(reason) => {
            let mut msg = "Failed to decode image: ".to_owned();
            msg.append(reason.as_str());
            Err(msg)
        },
    }
}

/// Decodes an image file held in memory with the `image` crate and crops it to
/// its centred square, as the cover shown in the circular visualizer: the side
/// and the RGBA8 bytes of the square, or the decoder's error as
/// `Failed to decode image: <message>` (see `cover_square_of`). Whether the bytes
/// decode, and to what, is the decoder's to say.
pub fn cover_square_from_bytes(bytes: &[u8]) -> (r: Result<(u32, Vec<u8>), String>)
    ensures
        r matches Ok(square) ==> exists|width: nat, height: nat, pixels: Seq<u8>|
            is_centred_square(width, height, pixels, square.0 as nat, square.1@),
        r matches Err(msg) ==> exists|reason: Seq<char>| msg@ == decode_error_text(reason),
{
    let decoded = decode_rgba8(bytes);
    let ghost outcome = decoded;
    let r = cover_square_of(decoded);
    proof {
        match outcome {
            Ok(img) => {
                assert(is_centred_square(img.0 as nat, img.1 as nat, img.2@, r->Ok_0.0 as nat, r->Ok_0.1@));
            },
            Err(reason) => {
                assert(r->Err_0@ == decode_error_text(reason@));
            },
        }
    }
    r
}

} // verus!
