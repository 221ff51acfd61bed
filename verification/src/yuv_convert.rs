//! Conversion of whole planar YUV frames into packed 24-bit RGB.
//!
//! A frame is walked row by row; every pixel whose samples lie inside the source
//! buffer, and whose three output bytes lie inside the destination, is written. All
//! other destination bytes are left as they were.
use vstd::prelude::*;
use crate::pixel::{blue_of, centred, convert_pixel, green_of, red_of, yuv_to_rgb};

verus! {

/// How the samples of one pixel are read from the source buffer.
#[derive(Clone, Copy, Debug, PartialEq, Eq, Structural)]
pub enum Sampling {
    /// Full-resolution luma, chroma subsampled by two in both directions.
    Yuv420,
    /// Full-resolution luma and chroma.
    Yuv444,
    /// Luma only; the pixel is written as grey.
    LumaOnly,
}

/// Plane offsets and row strides of a source frame.
#[derive(Clone, Copy, Debug)]
pub struct Planes {
    /// Start of the U plane (the Y plane is `0..u`).
    pub u: usize,
    /// Start of the V plane (the U plane is `u..v`, the V plane `v..`).
    pub v: usize,
    /// Row stride of the luma plane.
    pub y_stride: usize,
    /// Row stride of the chroma planes.
    pub uv_stride: usize,
}

/// Whether a sampling reads the U and V planes.
pub open spec fn is_planar(kind: Sampling) -> bool {
    kind != Sampling::LumaOnly
}

/// The plane offsets are ordered and inside the buffer.
pub open spec fn planes_fit(kind: Sampling, g: Planes, len: int) -> bool {
    is_planar(kind) ==> g.u <= g.v <= len
}

/// Index of the luma sample of pixel (`x`, `y`).
pub open spec fn luma_index(g: Planes, x: int, y: int) -> int {
    y * g.y_stride + x
}

/// Index, inside each subsampled chroma plane, of the chroma sample of pixel (`x`, `y`).
pub open spec fn chroma_index_420(g: Planes, x: int, y: int) -> int {
    (y / 2) * g.uv_stride + x / 2
}

/// The RGB value of pixel (`x`, `y`) of the frame `yuv`, or `None` where a sample
/// it needs lies outside its plane.
///
/// With 4:2:0 sampling a chroma sample that lies outside its plane counts as
/// neutral; with 4:4:4 sampling the pixel is skipped.
pub open spec fn sample(kind: Sampling, g: Planes, yuv: Seq<u8>, x: int, y: int) -> Option<(u8, u8, u8)> {
    let yi = luma_index(g, x, y);
    match kind {
        Sampling::Yuv420 => {
            if yi >= g.u {
                None
            } else {
                let ci = chroma_index_420(g, x, y);
                let cu = if ci < g.v - g.u { centred(yuv[g.u + ci]) } else { 0 };
                let cv = if ci < yuv.len() - g.v { centred(yuv[g.v + ci]) } else { 0 };
                Some(yuv_to_rgb(yuv[yi] as int, cu, cv))
            }
        },
        Sampling::Yuv444 => {
            if yi >= g.u || yi >= g.v - g.u || yi >= yuv.len() - g.v {
                None
            } else {
                Some(yuv_to_rgb(yuv[yi] as int, centred(yuv[g.u + yi]), centred(yuv[g.v + yi])))
            }
        },
        Sampling::LumaOnly => {
            if yi < yuv.len() {
                Some((yuv[yi], yuv[yi], yuv[yi]))
            } else {
                None
            }
        },
    }
}

/// Whether the sample of pixel (`x`, `y`) is present; this depends on the buffer's
/// length only, not on its contents.
pub open spec fn sample_present(kind: Sampling, g: Planes, len: int, x: int, y: int) -> bool {
    let yi = luma_index(g, x, y);
    match kind {
        Sampling::Yuv420 => yi < g.u,
        Sampling::Yuv444 => yi < g.u && yi < g.v - g.u && yi < len - g.v,
        Sampling::LumaOnly => yi < len,
    }
}

/// The index arithmetic for pixel (`x`, `y`) of a `width`-wide frame stays within
/// `usize`: the luma index, the chroma index where it is computed, and the last
/// destination byte where the pixel is written.
pub open spec fn pixel_fits(kind: Sampling, g: Planes, len: int, width: int, x: int, y: int) -> bool {
    &&& luma_index(g, x, y) <= usize::MAX
    &&& (kind == Sampling::Yuv420 && luma_index(g, x, y) < g.u ==> chroma_index_420(g, x, y)
        <= usize::MAX)
    &&& (sample_present(kind, g, len, x, y) ==> (y * width + x) * 3 + 2 <= usize::MAX)
}

/// Every pixel of a `width` by `height` frame keeps its index arithmetic within `usize`.
pub open spec fn frame_fits(kind: Sampling, g: Planes, len: int, width: int, height: int) -> bool {
    forall|x: int, y: int|
        0 <= x < width && 0 <= y < height ==> #[trigger] pixel_fits(kind, g, len, width, x, y)
}

/// Channel `c` (0 red, 1 green, 2 blue) of an RGB triple.
pub open spec fn channel(t: (u8, u8, u8), c: int) -> u8 {
    if c == 0 {
        t.0
    } else if c == 1 {
        t.1
    } else {
        t.2
    }
}

/// Byte `i` of the destination after the first `n` pixels (in row-major order) of a
/// `width`-wide frame have been converted into `dst`.
pub open spec fn converted_byte(
    kind: Sampling,
    g: Planes,
    yuv: Seq<u8>,
    width: int,
    n: int,
    dst: Seq<u8>,
    i: int,
) -> u8 {
    let p = i / 3;
    if p < n && 3 * p + 2 < dst.len() && sample(kind, g, yuv, p % width, p / width) is Some {
        channel(sample(kind, g, yuv, p % width, p / width).unwrap(), i % 3)
    } else {
        dst[i]
    }
}

/// The destination `dst` after the first `n` pixels of a `width`-wide frame have been
/// converted into it.
pub open spec fn converted(
    kind: Sampling,
    g: Planes,
    yuv: Seq<u8>,
    width: int,
    n: int,
    dst: Seq<u8>,
) -> Seq<u8> {
    Seq::new(dst.len(), |i: int| converted_byte(kind, g, yuv, width, n, dst, i))
}

/// The RGB value of pixel (`x`, `y`), computed as [`sample`] describes.
fn sample_pixel(kind: Sampling, g: Planes, yuv: &[u8], width: usize, x: usize, y: usize) -> (r:
    Option<(u8, u8, u8)>)
    requires
        planes_fit(kind, g, yuv@.len() as int),
        pixel_fits(kind, g, yuv@.len() as int, width as int, x as int, y as int),
    ensures
        r == sample(kind, g, yuv@, x as int, y as int),
        r is Some == sample_present(kind, g, yuv@.len() as int, x as int, y as int),
{
    let yi = y * g.y_stride + x;
    match kind {
        Sampling::Yuv420 => {
            if yi >= g.u {
                return None;
            }
            let ci = (y / 2) * g.uv_stride + x / 2;
            let u_val: i32 = if ci < g.v - g.u {
                yuv[g.u + ci] as i32 - 128
            } else {
                0
            };
            let v_val: i32 = if ci < yuv.len() - g.v {
                yuv[g.v + ci] as i32 - 128
            } else {
                0
            };
            let y_val = yuv[yi] as i32;
            Some(convert_pixel(y_val, u_val, v_val))
        },
        Sampling::Yuv444 => {
            if yi >= g.u || yi >= g.v - g.u || yi >= yuv.len() - g.v {
                return None;
            }
            let y_val = yuv[yi] as i32;
            let u_val = yuv[g.u + yi] as i32 - 128;
            let v_val = yuv[g.v + yi] as i32 - 128;
            Some(convert_pixel(y_val, u_val, v_val))
        },
        Sampling::LumaOnly => {
            if yi < yuv.len() {
                let b = yuv[yi];
                Some((b, b, b))
            } else {
                None
            }
        },
    }
}

/// Pixel `p = y * width + x` of a `width`-wide frame has coordinates (`x`, `y`).
proof fn lemma_pixel_coords(p: int, width: int, x: int, y: int)
    requires
        0 <= x < width,
        0 <= y,
        p == y * width + x,
    ensures
        p % width == x,
        p / width == y,
{
    vstd::arithmetic::div_mod::lemma_fundamental_div_mod_converse(p, width, y, x);
}

/// Converting pixel `p` extends the conversion of the first `p` pixels to `p + 1`.
proof fn lemma_convert_step(
    kind: Sampling,
    g: Planes,
    yuv: Seq<u8>,
    width: int,
    p: int,
    x: int,
    y: int,
    dst: Seq<u8>,
    before: Seq<u8>,
    after: Seq<u8>,
)
    requires
        0 <= x < width,
        0 <= y,
        p == y * width + x,
        before == converted(kind, g, yuv, width, p, dst),
        after.len() == dst.len(),
        forall|i: int|
            0 <= i < dst.len() && i / 3 != p ==> #[trigger] after[i] == before[i],
        forall|i: int|
            0 <= i < dst.len() && i / 3 == p ==> #[trigger] after[i] == (if 3 * p + 2 < dst.len()
                && sample(kind, g, yuv, x, y) is Some {
                channel(sample(kind, g, yuv, x, y).unwrap(), i % 3)
            } else {
                dst[i]
            }),
    ensures
        after == converted(kind, g, yuv, width, p + 1, dst),
{
    lemma_pixel_coords(p, width, x, y);
    assert forall|i: int| 0 <= i < dst.len() implies after[i] == converted_byte(
        kind,
        g,
        yuv,
        width,
        p + 1,
        dst,
        i,
    ) by {
        if i / 3 == p {
        } else {
            assert(converted_byte(kind, g, yuv, width, p, dst, i) == converted_byte(
                kind,
                g,
                yuv,
                width,
                p + 1,
                dst,
                i,
            ));
        }
    }
    assert(after =~= converted(kind, g, yuv, width, p + 1, dst));
}

/// Converts the `width` by `height` frame `yuv` into packed RGB in `rgb`, as
/// [`converted`] describes: pixel (`x`, `y`) goes to bytes `3 * (y * width + x)` to
/// `3 * (y * width + x) + 2` where those lie inside `rgb` and its samples are present.
pub fn convert_frame(
    kind: Sampling,
    g: Planes,
    yuv: &[u8],
    rgb: &mut [u8],
    width: usize,
    height: usize,
)
    requires
        planes_fit(kind, g, yuv@.len() as int),
        frame_fits(kind, g, yuv@.len() as int, width as int, height as int),
    ensures
        final(rgb)@ == converted(
            kind,
            g,
            yuv@,
            width as int,
            width * height,
            old(rgb)@,
        ),
{
    let ghost dst = rgb@;
    proof {
        assert(rgb@ =~= converted(kind, g, yuv@, width as int, 0, dst));
    }
    let mut y: usize = 0;
    while y < height
        invariant
            y <= height,
            planes_fit(kind, g, yuv@.len() as int),
            frame_fits(kind, g, yuv@.len() as int, width as int, height as int),
            dst.len() == rgb@.len(),
            rgb@ == converted(kind, g, yuv@, width as int, y * width, dst),
        decreases height - y,
    {
        let mut x: usize = 0;
        while x < width
            invariant
                x <= width,
                y < height,
                planes_fit(kind, g, yuv@.len() as int),
                frame_fits(kind, g, yuv@.len() as int, width as int, height as int),
                dst.len() == rgb@.len(),
                rgb@ == converted(kind, g, yuv@, width as int, y * width + x, dst),
            decreases width - x,
        {
            assert(pixel_fits(kind, g, yuv@.len() as int, width as int, x as int, y as int));
            let ghost before = rgb@;
            let ghost p = y * width + x;
            let s = sample_pixel(kind, g, yuv, width, x, y);
            proof {
                assert forall|i: int| 0 <= i < dst.len() && i / 3 == p implies #[trigger] before[i]
                    == dst[i] by {}
            }
            match s {
                Some(t) => {
                    let idx = (y * width + x) * 3;
                    if idx + 2 < rgb.len() {
                        rgb[idx] = t.0;
                        rgb[idx + 1] = t.1;
                        rgb[idx + 2] = t.2;
                    }
                },
                None => {},
            }
            proof {
                lemma_convert_step(
                    kind,
                    g,
                    yuv@,
                    width as int,
                    p,
                    x as int,
                    y as int,
                    dst,
                    before,
                    rgb@,
                );
            }
            x = x + 1;
        }
        proof {
            assert((y + 1) * width == y * width + width) by (nonlinear_arith);
        }
        y = y + 1;
    }
    proof {
        assert(height * width == width * height) by (nonlinear_arith);
    }
}

} // verus!
verus! {

/// The four pixels of a 2 by 2 block whose top-left corner has even coordinates read
/// the same chroma sample under 4:2:0 sampling.
pub proof fn lemma_420_block_shares_chroma(g: Planes, a: int, b: int, dx: int, dy: int)
    requires
        a >= 0,
        b >= 0,
        0 <= dx <= 1,
        0 <= dy <= 1,
    ensures
        chroma_index_420(g, 2 * a + dx, 2 * b + dy) == chroma_index_420(g, 2 * a, 2 * b),
{
    assert((2 * b + dy) / 2 == b);
    assert((2 * a + dx) / 2 == a);
    assert((2 * b) / 2 == b);
    assert((2 * a) / 2 == a);
}

/// Luma-only conversion writes grey: the three bytes of every converted pixel equal
/// its luma sample.
pub proof fn lemma_luma_only_is_grey(
    g: Planes,
    yuv: Seq<u8>,
    width: int,
    n: int,
    dst: Seq<u8>,
    p: int,
)
    requires
        0 <= p < n,
        width > 0,
        3 * p + 2 < dst.len(),
        luma_index(g, p % width, p / width) < yuv.len(),
    ensures
        ({
            let out = converted(Sampling::LumaOnly, g, yuv, width, n, dst);
            let luma = yuv[luma_index(g, p % width, p / width)];
            out[3 * p] == luma && out[3 * p + 1] == luma && out[3 * p + 2] == luma
        }),
{
    assert((3 * p) / 3 == p && (3 * p) % 3 == 0);
    assert((3 * p + 1) / 3 == p && (3 * p + 1) % 3 == 1);
    assert((3 * p + 2) / 3 == p && (3 * p + 2) % 3 == 2);
}

/// Converting never changes the bytes of pixels it does not write.
pub proof fn lemma_unwritten_bytes_kept(
    kind: Sampling,
    g: Planes,
    yuv: Seq<u8>,
    width: int,
    n: int,
    dst: Seq<u8>,
    i: int,
)
    requires
        0 <= i < dst.len(),
        i / 3 >= n || 3 * (i / 3) + 2 >= dst.len(),
    ensures
        converted(kind, g, yuv, width, n, dst)[i] == dst[i],
{
}

} // verus!
verus! {

/// What converting a `width` by `height` frame writes for pixel (`x`, `y`), whose
/// three bytes start at `3 * (y * width + x)` and lie inside the destination:
/// - 4:2:0: where its luma sample `y * y_stride + x` lies in the Y plane, the RGB of
///   that luma with the chroma samples at `(y / 2) * uv_stride + x / 2` of the U and
///   V planes (a sample outside its plane counting as neutral); otherwise nothing;
/// - 4:4:4: where its samples at `y * y_stride + x` lie in all three planes, the RGB
///   of those three samples; otherwise nothing;
/// - luma only: where its luma sample lies in the buffer, that luma in all three
///   bytes; otherwise nothing.
pub proof fn lemma_converted_pixel(
    kind: Sampling,
    g: Planes,
    yuv: Seq<u8>,
    width: int,
    height: int,
    dst: Seq<u8>,
    x: int,
    y: int,
)
    requires
        0 <= x < width,
        0 <= y < height,
        3 * (y * width + x) + 2 < dst.len(),
    ensures
        ({
            let out = converted(kind, g, yuv, width, width * height, dst);
            let i = 3 * (y * width + x);
            let yi = y * g.y_stride + x;
            let ci = (y / 2) * g.uv_stride + x / 2;
            let cu = if ci < g.v - g.u { yuv[g.u + ci] - 128 } else { 0 };
            let cv = if ci < yuv.len() - g.v { yuv[g.v + ci] - 128 } else { 0 };
            &&& kind == Sampling::Yuv420 ==> if yi < g.u {
                &&& out[i] == red_of(yuv[yi] as int, cu, cv)
                &&& out[i + 1] == green_of(yuv[yi] as int, cu, cv)
                &&& out[i + 2] == blue_of(yuv[yi] as int, cu, cv)
            } else {
                out[i] == dst[i] && out[i + 1] == dst[i + 1] && out[i + 2] == dst[i + 2]
            }
            &&& kind == Sampling::Yuv444 ==> if yi < g.u && yi < g.v - g.u && yi < yuv.len() - g.v {
                &&& out[i] == red_of(yuv[yi] as int, yuv[g.u + yi] - 128, yuv[g.v + yi] - 128)
                &&& out[i + 1] == green_of(yuv[yi] as int, yuv[g.u + yi] - 128, yuv[g.v + yi] - 128)
                &&& out[i + 2] == blue_of(yuv[yi] as int, yuv[g.u + yi] - 128, yuv[g.v + yi] - 128)
            } else {
                out[i] == dst[i] && out[i + 1] == dst[i + 1] && out[i + 2] == dst[i + 2]
            }
            &&& kind == Sampling::LumaOnly ==> if yi < yuv.len() {
                out[i] == yuv[yi] && out[i + 1] == yuv[yi] && out[i + 2] == yuv[yi]
            } else {
                out[i] == dst[i] && out[i + 1] == dst[i + 1] && out[i + 2] == dst[i + 2]
            }
        }),
{
    let p = y * width + x;
    lemma_pixel_coords(p, width, x, y);
    assert(p < width * height) by (nonlinear_arith)
        requires
            0 <= x < width,
            0 <= y < height,
            p == y * width + x,
    ;
    assert((3 * p) / 3 == p && (3 * p) % 3 == 0);
    assert((3 * p + 1) / 3 == p && (3 * p + 1) % 3 == 1);
    assert((3 * p + 2) / 3 == p && (3 * p + 2) % 3 == 2);
}

} // verus!
