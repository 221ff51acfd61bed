//! A software MJPEG encoder: every frame is converted from planar YUV to RGB and
//! compressed as an independent JPEG image.
use vstd::prelude::*;
use crate::clock::{elapsed_secs, instant_now};
use crate::format::{EncodeYuvFormat, Pixfmt};
use crate::jpeg::{encode_jpeg, jpeg_encoding, jpeg_size_supported};
use crate::pixel::{blue_of, green_of, red_of};
use crate::yuv_convert::{
    chroma_index_420,
    convert_frame,
    converted,
    frame_fits,
    lemma_converted_pixel,
    luma_index,
    pixel_fits,
    planes_fit,
    sample_present,
    Planes,
    Sampling,
};

verus! {

/// Settings of an MJPEG encoder.
///
/// `quality` is the JPEG quality in percent; values outside `1..=100` are clamped.
#[derive(Clone, Copy, Debug)]
pub struct MjpegEncoderConfig {
    pub width: usize,
    pub height: usize,
    pub quality: u8,
    pub keyframe_interval: Option<usize>,
}

/// Encoder settings as handed to a codec; only the MJPEG variant is accepted here.
#[derive(Clone, Copy, Debug)]
pub enum EncoderCfg {
    MJPEG(MjpegEncoderConfig),
    /// The settings of another codec.
    Other,
}

/// A frame handed to the encoder: planar YUV bytes, or a GPU texture.
pub enum EncodeInput<'a> {
    YUV(&'a [u8]),
    Texture,
}

/// One compressed frame.
#[derive(Debug)]
pub struct EncodedVideoFrame {
    pub data: Vec<u8>,
    pub key: bool,
    pub pts: i64,
}

/// A batch of compressed frames.
#[derive(Debug)]
pub struct EncodedVideoFrames {
    pub frames: Vec<EncodedVideoFrame>,
}

/// A video message; `mjpegs` holds the MJPEG frames it carries.
#[derive(Debug)]
pub struct VideoFrame {
    pub mjpegs: Option<EncodedVideoFrames>,
}

/// Why an MJPEG operation failed.
#[derive(Clone, Copy, Debug, PartialEq, Eq, Structural)]
pub enum MjpegError {
    /// The encoder settings are not MJPEG settings.
    InvalidConfig,
    /// The encoder only takes YUV input.
    TextureUnsupported,
    /// The JPEG encoder refused the image (a dimension is 0 or above 65535).
    JpegEncode,
    /// The data is not a JPEG stream the decoder accepts.
    JpegDecode,
}

/// `n` rounded up to an even number.
pub open spec fn even_ceil(n: int) -> int {
    n + n % 2
}

/// Row stride of the luma plane: the width, rounded up to even for 4:2:0.
pub open spec fn layout_stride_y(width: int, i444: bool) -> int {
    if i444 {
        width
    } else {
        even_ceil(width)
    }
}

/// Row stride of the chroma planes: the luma stride for 4:4:4, half of it rounded up
/// to even for 4:2:0.
pub open spec fn layout_stride_uv(width: int, i444: bool) -> int {
    if i444 {
        layout_stride_y(width, i444)
    } else {
        even_ceil(layout_stride_y(width, i444) / 2)
    }
}

/// Start of the U plane: right after the luma plane.
pub open spec fn layout_u(width: int, height: int, i444: bool) -> int {
    layout_stride_y(width, i444) * height
}

/// Start of the V plane: right after the U plane, which has `height` rows for 4:4:4
/// and `height / 2` rows for 4:2:0.
pub open spec fn layout_v(width: int, height: int, i444: bool) -> int {
    layout_u(width, height, i444) + layout_stride_uv(width, i444) * (if i444 {
        height
    } else {
        height / 2
    })
}

/// The layout of a `width` by `height` frame can be computed within `usize`.
pub open spec fn layout_fits(width: int, height: int, i444: bool) -> bool {
    &&& (!i444 ==> width < usize::MAX)
    &&& layout_v(width, height, i444) <= usize::MAX
}

/// `fmt` is the layout the encoder uses for a `width` by `height` frame.
pub open spec fn is_layout(fmt: EncodeYuvFormat, width: int, height: int, i444: bool) -> bool {
    &&& fmt.pixfmt == (if i444 {
        Pixfmt::I444
    } else {
        Pixfmt::I420
    })
    &&& fmt.w == width
    &&& fmt.h == height
    &&& fmt.stride@ == seq![
        layout_stride_y(width, i444) as usize,
        layout_stride_uv(width, i444) as usize,
        layout_stride_uv(width, i444) as usize,
        0usize,
    ]
    &&& fmt.u == layout_u(width, height, i444)
    &&& fmt.v == layout_v(width, height, i444)
}

/// `q` clamped into `1..=100`.
pub open spec fn clamp_quality(q: u8) -> u8 {
    if q < 1 {
        1
    } else if q > 100 {
        100
    } else {
        q
    }
}

/// Whether a frame is a keyframe, given the keyframe interval and the frame counter
/// (already counting this frame) and the number of the last keyframe: always without
/// an interval, never with interval 0, and otherwise once `interval` frames have
/// passed since the last keyframe.
pub open spec fn keyframe_due(interval: Option<usize>, frame_count: u32, last_keyframe: u32) -> bool {
    match interval {
        Some(i) => i > 0 && frame_count - last_keyframe >= (i as u32),
        None => true,
    }
}

/// The bit rate measured for `len` bytes produced in `secs` seconds, computed in
/// 32 bits as the encoder does.
pub open spec fn measured_bps(len: int, secs: u64) -> u32 {
    ((len * 8) as u32) / (secs as u32)
}

/// The measurement can be made and folded into `current` without overflow or
/// division by zero.
pub open spec fn bitrate_update_ok(current: u32, len: int, secs: u64) -> bool {
    &&& len * 8 <= usize::MAX
    &&& (secs as u32) != 0
    &&& current * 9 + measured_bps(len, secs) <= u32::MAX
}

/// The reported bit rate after `len` bytes were produced in `secs` seconds: an
/// exponential moving average giving the new measurement a weight of one tenth. It
/// is unchanged when no whole second elapsed, or where the measurement cannot be
/// computed in 32 bits.
pub open spec fn bitrate_after(current: u32, len: int, secs: u64) -> u32 {
    if secs > 0 && bitrate_update_ok(current, len, secs) {
        ((current * 9 + measured_bps(len, secs)) / 10) as u32
    } else {
        current
    }
}

/// `after` is the bit rate reported after `len` bytes were produced in some number
/// of seconds, starting from `current`.
pub open spec fn bitrate_reachable(current: u32, len: int, after: u32) -> bool {
    exists|secs: u64| after == #[trigger] bitrate_after(current, len, secs)
}

/// The frame counter and the number of the last keyframe after one more frame: the
/// counter advances, and the new frame becomes the last keyframe when it is due.
pub open spec fn keyframe_step(interval: Option<usize>, frame_count: u32, last_keyframe: u32) -> (
    u32,
    u32,
) {
    let count = (frame_count + 1) as u32;
    (count, if keyframe_due(interval, count, last_keyframe) {
        count
    } else {
        last_keyframe
    })
}

/// The frame counter and the last keyframe of a new encoder after `n` frames.
pub open spec fn counters_after(interval: Option<usize>, n: nat) -> (u32, u32)
    decreases n,
{
    if n == 0 {
        (0u32, 0u32)
    } else {
        let p = counters_after(interval, (n - 1) as nat);
        keyframe_step(interval, p.0, p.1)
    }
}

/// The abstract state of an encoder.
pub struct MjpegEncoderModel {
    pub width: usize,
    pub height: usize,
    pub keyframe_interval: Option<usize>,
    /// Whether frames are 4:4:4 (otherwise 4:2:0).
    pub i444: bool,
    /// JPEG quality in percent, within `1..=100`.
    pub jpeg_quality: u8,
    pub frame_count: u32,
    pub last_keyframe: u32,
    pub current_bitrate: u32,
}

/// How the encoder samples frames of the given model.
pub open spec fn model_sampling(m: MjpegEncoderModel) -> Sampling {
    if m.i444 {
        Sampling::Yuv444
    } else {
        Sampling::Yuv420
    }
}

/// Plane offsets and strides of the encoder's frames.
pub open spec fn model_planes(m: MjpegEncoderModel) -> Planes {
    Planes {
        u: layout_u(m.width as int, m.height as int, m.i444) as usize,
        v: layout_v(m.width as int, m.height as int, m.i444) as usize,
        y_stride: layout_stride_y(m.width as int, m.i444) as usize,
        uv_stride: layout_stride_uv(m.width as int, m.i444) as usize,
    }
}

/// The packed RGB image the encoder compresses for the YUV frame `yuv`: every pixel
/// whose samples lie inside `yuv` converted, every other pixel black.
pub open spec fn frame_rgb(m: MjpegEncoderModel, yuv: Seq<u8>) -> Seq<u8> {
    converted(
        model_sampling(m),
        model_planes(m),
        yuv,
        m.width as int,
        m.width * m.height,
        Seq::new((m.width * m.height * 3) as nat, |i: int| 0u8),
    )
}

/// The encoder can take a YUV frame of `len` bytes: its planes lie inside the
/// buffer, the RGB image has a size that `usize` holds, and its dimensions fit the
/// JPEG encoder's `u32` ones unless the image is empty.
pub open spec fn frame_accepted(m: MjpegEncoderModel, len: int) -> bool {
    &&& layout_v(m.width as int, m.height as int, m.i444) <= len
    &&& m.width * m.height * 3 <= usize::MAX
    &&& (m.width <= u32::MAX && m.height <= u32::MAX) || m.width * m.height == 0
}

/// The JPEG the encoder produces for the YUV frame `yuv`, or `None` where the JPEG
/// encoder refuses the dimensions.
pub open spec fn frame_jpeg(m: MjpegEncoderModel, yuv: Seq<u8>) -> Option<Seq<u8>> {
    if jpeg_size_supported(m.width as u32, m.height as u32) {
        Some(jpeg_encoding(frame_rgb(m, yuv), m.width as u32, m.height as u32, m.jpeg_quality))
    } else {
        None
    }
}

/// A software MJPEG encoder.
pub struct MjpegEncoder {
    config: MjpegEncoderConfig,
    yuv_fmt: EncodeYuvFormat,
    jpeg_quality: u8,
    frame_count: u32,
    last_keyframe: u32,
    current_bitrate: u32,
}

impl View for MjpegEncoder {
    type V = MjpegEncoderModel;

    closed spec fn view(&self) -> MjpegEncoderModel {
        MjpegEncoderModel {
            width: self.config.width,
            height: self.config.height,
            keyframe_interval: self.config.keyframe_interval,
            i444: self.yuv_fmt.pixfmt == Pixfmt::I444,
            jpeg_quality: self.jpeg_quality,
            frame_count: self.frame_count,
            last_keyframe: self.last_keyframe,
            current_bitrate: self.current_bitrate,
        }
    }
}

/// Clearing the lowest bit of `m = n + 1` rounds `n` up to an even number.
proof fn lemma_round_up_even(m: usize)
    requires
        m >= 1,
    ensures
        (m & !1usize) == (m - 1) + (m - 1) % 2,
{
    assert((m & !1usize) == (m - 1) + (m - 1) % 2) by (bit_vector)
        requires
            m >= 1,
    ;
}

/// Pixel (`x`, `y`) of a `width` by `height` frame lies before the end of a plane of
/// `height` rows of `stride >= width` bytes, and before the end of the RGB image.
proof fn lemma_pixel_bounds(width: int, height: int, stride: int, x: int, y: int)
    requires
        0 <= x < width,
        0 <= y < height,
        width <= stride,
    ensures
        y * stride + x < stride * height,
        (y * width + x) * 3 + 2 < width * height * 3,
        x < stride * height,
{
    assert(y * stride + x < stride * height) by (nonlinear_arith)
        requires
            0 <= x < width,
            0 <= y < height,
            width <= stride,
    ;
    assert((y * width + x) * 3 + 2 < width * height * 3) by (nonlinear_arith)
        requires
            0 <= x < width,
            0 <= y < height,
    ;
    assert(x < stride * height) by (nonlinear_arith)
        requires
            0 <= x < width,
            0 <= y < height,
            width <= stride,
    ;
}

/// Row `y / 2` of a subsampled plane lies within the first `height / 2` rows.
proof fn lemma_half_row(height: int, stride: int, y: int)
    requires
        0 <= y < height,
        0 <= stride,
    ensures
        (y / 2) * stride <= stride * (height / 2),
{
    assert((y / 2) * stride <= stride * (height / 2)) by (nonlinear_arith)
        requires
            0 <= y < height,
            0 <= stride,
    ;
}

/// Every pixel of a frame in the encoder's layout keeps its index arithmetic within
/// `usize`.
proof fn lemma_layout_frame_fits(m: MjpegEncoderModel, kind: Sampling, len: int)
    requires
        kind == model_sampling(m) || kind == Sampling::LumaOnly,
        layout_fits(m.width as int, m.height as int, m.i444),
        m.width * m.height * 3 <= usize::MAX,
    ensures
        frame_fits(kind, model_planes(m), len, m.width as int, m.height as int),
{
    let g = model_planes(m);
    let w = m.width as int;
    let h = m.height as int;
    let sy = layout_stride_y(w, m.i444);
    let suv = layout_stride_uv(w, m.i444);
    let hh = if m.i444 { h } else { h / 2 };
    assert(sy >= w && suv >= 0);
    assert(sy * h >= 0 && suv * hh >= 0) by (nonlinear_arith)
        requires
            sy >= 0,
            suv >= 0,
            h >= 0,
            hh >= 0,
    ;
    assert(g.u == sy * h);
    assert(g.v == sy * h + suv * hh);
    assert(g.y_stride == sy && g.uv_stride == suv);
    assert forall|x: int, y: int| 0 <= x < w && 0 <= y < h implies #[trigger] pixel_fits(
        kind,
        g,
        len,
        w,
        x,
        y,
    ) by {
        lemma_pixel_bounds(w, h, sy, x, y);
        lemma_half_row(h, suv, y);
        assert(luma_index(g, x, y) == y * sy + x);
        if kind == Sampling::Yuv420 {
            assert(chroma_index_420(g, x, y) == (y / 2) * suv + x / 2);
            assert((y / 2) * suv <= suv * hh);
            assert(chroma_index_420(g, x, y) <= g.v);
        }
    }
}

impl MjpegEncoder {
    #[verifier::type_invariant]
    spec fn inv(self) -> bool {
        &&& self.yuv_fmt.pixfmt == Pixfmt::I444 || self.yuv_fmt.pixfmt == Pixfmt::I420
        &&& layout_fits(
            self.config.width as int,
            self.config.height as int,
            self.yuv_fmt.pixfmt == Pixfmt::I444,
        )
        &&& is_layout(
            self.yuv_fmt,
            self.config.width as int,
            self.config.height as int,
            self.yuv_fmt.pixfmt == Pixfmt::I444,
        )
        &&& 1 <= self.jpeg_quality <= 100
        &&& self.last_keyframe <= self.frame_count
    }

    /// Packs JPEG bytes into a frame record.
    pub fn create_frame(data: Vec<u8>, key: bool, pts: i64) -> (r: EncodedVideoFrame)
        ensures
            r.data == data,
            r.key == key,
            r.pts == pts,
    {
        EncodedVideoFrame { data, key, pts }
    }

    /// Wraps frames into a video message carrying them as MJPEG frames.
    pub fn create_video_frame(frames: Vec<EncodedVideoFrame>) -> (r: VideoFrame)
        ensures
            r.mjpegs matches Some(m) && m.frames == frames,
    {
        VideoFrame { mjpegs: Some(EncodedVideoFrames { frames }) }
    }

    /// Compresses the packed RGB image `data` of `width` by `height` pixels as JPEG at
    /// the encoder's quality.
    fn encode_rgb_to_jpeg(&mut self, data: &[u8], width: usize, height: usize) -> (r: Result<
        Vec<u8>,
        MjpegError,
    >)
        requires
            (width <= u32::MAX && height <= u32::MAX) || width * height == 0,
            data@.len() == width * height * 3,
        ensures
            final(self)@ == old(self)@,
            match r {
                Ok(out) => jpeg_size_supported(width as u32, height as u32) && out@ == jpeg_encoding(
                    data@,
                    width as u32,
                    height as u32,
                    old(self)@.jpeg_quality,
                ),
                Err(e) => !jpeg_size_supported(width as u32, height as u32) && e
                    == MjpegError::JpegEncode,
            },
    {
        proof {
            if !(width <= u32::MAX && height <= u32::MAX) {
                assert(width == 0 || height == 0) by (nonlinear_arith)
                    requires
                        width * height == 0,
                ;
                if width == 0 {
                    assert(width as u32 == 0);
                } else {
                    assert(height as u32 == 0);
                }
                assert((width as u32) * (height as u32) == 0) by (nonlinear_arith)
                    requires
                        width as u32 == 0 || height as u32 == 0,
                ;
            }
        }
        match encode_jpeg(data, #[verifier::truncate] (width as u32), #[verifier::truncate] (height as u32), self.jpeg_quality) {
            Ok(out) => Ok(out),
            Err(_) => Err(MjpegError::JpegEncode),
        }
    }

    /// The plane offsets and strides of the encoder's layout.
    fn planes(&self) -> (g: Planes)
        ensures
            g == model_planes(self@),
    {
        proof {
            use_type_invariant(self);
        }
        Planes {
            u: self.yuv_fmt.u,
            v: self.yuv_fmt.v,
            y_stride: self.yuv_fmt.stride[0],
            uv_stride: self.yuv_fmt.stride[1],
        }
    }

    /// Converts a 4:2:0 frame into packed RGB.
    fn yuv420_to_rgb(&self, yuv: &[u8], rgb: &mut [u8], width: usize, height: usize)
        requires
            self@.width == width,
            self@.height == height,
            !self@.i444,
            planes_fit(Sampling::Yuv420, model_planes(self@), yuv@.len() as int),
            width * height * 3 <= usize::MAX,
        ensures
            final(rgb)@ == converted(
                Sampling::Yuv420,
                model_planes(self@),
                yuv@,
                width as int,
                width * height,
                old(rgb)@,
            ),
    {
        let g = self.planes();
        proof {
            use_type_invariant(self);
            lemma_layout_frame_fits(self@, Sampling::Yuv420, yuv@.len() as int);
        }
        convert_frame(Sampling::Yuv420, g, yuv, rgb, width, height);
    }

    /// Converts a 4:4:4 frame into packed RGB.
    fn yuv444_to_rgb(&self, yuv: &[u8], rgb: &mut [u8], width: usize, height: usize)
        requires
            self@.width == width,
            self@.height == height,
            self@.i444,
            planes_fit(Sampling::Yuv444, model_planes(self@), yuv@.len() as int),
            width * height * 3 <= usize::MAX,
        ensures
            final(rgb)@ == converted(
                Sampling::Yuv444,
                model_planes(self@),
                yuv@,
                width as int,
                width * height,
                old(rgb)@,
            ),
    {
        let g = self.planes();
        proof {
            use_type_invariant(self);
            lemma_layout_frame_fits(self@, Sampling::Yuv444, yuv@.len() as int);
        }
        convert_frame(Sampling::Yuv444, g, yuv, rgb, width, height);
    }

    /// Converts the luma plane of a frame into grey packed RGB, for pixel formats
    /// without a colour conversion.
    fn yuv_to_grayscale(&self, yuv: &[u8], rgb: &mut [u8], width: usize, height: usize)
        requires
            self@.width == width,
            self@.height == height,
            width * height * 3 <= usize::MAX,
        ensures
            final(rgb)@ == converted(
                Sampling::LumaOnly,
                model_planes(self@),
                yuv@,
                width as int,
                width * height,
                old(rgb)@,
            ),
    {
        let g = self.planes();
        proof {
            use_type_invariant(self);
            lemma_layout_frame_fits(self@, Sampling::LumaOnly, yuv@.len() as int);
        }
        convert_frame(Sampling::LumaOnly, g, yuv, rgb, width, height);
    }

    /// Converts the YUV frame `yuv` to RGB and compresses it as JPEG.
    fn encode_yuv_to_jpeg(&mut self, yuv: &[u8], width: usize, height: usize) -> (r: Result<
        Vec<u8>,
        MjpegError,
    >)
        requires
            old(self)@.width == width,
            old(self)@.height == height,
            frame_accepted(old(self)@, yuv@.len() as int),
        ensures
            final(self)@ == old(self)@,
            match r {
                Ok(out) => frame_jpeg(old(self)@, yuv@) == Some(out@),
                Err(e) => frame_jpeg(old(self)@, yuv@) is None && e == MjpegError::JpegEncode,
            },
    {
        proof {
            use_type_invariant(&*self);
        }
        let mut rgb = vec![0u8; width * height * 3];
        proof {
            assert(rgb@ =~= Seq::new((width * height * 3) as nat, |i: int| 0u8));
        }
        if self.yuv_fmt.pixfmt == Pixfmt::I420 {
            self.yuv420_to_rgb(yuv, rgb.as_mut_slice(), width, height);
        } else if self.yuv_fmt.pixfmt == Pixfmt::I444 {
            self.yuv444_to_rgb(yuv, rgb.as_mut_slice(), width, height);
        } else {
            self.yuv_to_grayscale(yuv, rgb.as_mut_slice(), width, height);
        }
        self.encode_rgb_to_jpeg(rgb.as_slice(), width, height)
    }

    /// Creates an encoder from MJPEG settings, laying out frames as 4:4:4 when `i444`
    /// and as 4:2:0 otherwise, and reporting `base_bitrate` until a rate is measured.
    pub fn new(cfg: EncoderCfg, i444: bool, base_bitrate: u32) -> (r: Result<Self, MjpegError>)
        requires
            cfg matches EncoderCfg::MJPEG(c) ==> layout_fits(c.width as int, c.height as int, i444),
        ensures
            match cfg {
                EncoderCfg::MJPEG(c) => r matches Ok(e) && e@ == (MjpegEncoderModel {
                    width: c.width,
                    height: c.height,
                    keyframe_interval: c.keyframe_interval,
                    i444,
                    jpeg_quality: clamp_quality(c.quality),
                    frame_count: 0,
                    last_keyframe: 0,
                    current_bitrate: base_bitrate,
                }) && (e@.frame_count, e@.last_keyframe) == counters_after(c.keyframe_interval, 0)
                    && e@.last_keyframe <= e@.frame_count,
                EncoderCfg::Other => r == Err::<Self, MjpegError>(MjpegError::InvalidConfig),
            },
    {
        match cfg {
            EncoderCfg::MJPEG(config) => {
                let jpeg_quality = if config.quality < 1 {
                    1
                } else if config.quality > 100 {
                    100
                } else {
                    config.quality
                };
                let stride_y = if i444 {
                    config.width
                } else {
                    proof {
                        lemma_round_up_even((config.width + 1) as usize);
                    }
                    (config.width + 1) & !1
                };
                let stride_uv = if i444 {
                    stride_y
                } else {
                    proof {
                        lemma_round_up_even((stride_y / 2 + 1) as usize);
                    }
                    (stride_y / 2 + 1) & !1
                };
                let y_size = stride_y * config.height;
                let u_offset = y_size;
                let v_offset = if i444 {
                    y_size + stride_uv * config.height
                } else {
                    y_size + stride_uv * (config.height / 2)
                };
                let yuv_fmt = EncodeYuvFormat {
                    w: config.width,
                    h: config.height,
                    stride: vec![stride_y, stride_uv, stride_uv, 0],
                    u: u_offset,
                    v: v_offset,
                    pixfmt: if i444 {
                        Pixfmt::I444
                    } else {
                        Pixfmt::I420
                    },
                };
                Ok(MjpegEncoder {
                    config,
                    yuv_fmt,
                    jpeg_quality,
                    frame_count: 0,
                    last_keyframe: 0,
                    current_bitrate: base_bitrate,
                })
            },
            EncoderCfg::Other => Err(MjpegError::InvalidConfig),
        }
    }

    /// Folds the measurement of `encoded_len` bytes produced in `elapsed_secs` seconds
    /// into the reported bit rate, as [`bitrate_after`] describes.
    pub fn update_bitrate(&mut self, encoded_len: usize, elapsed_secs: u64)
        ensures
            final(self)@ == (MjpegEncoderModel {
                current_bitrate: bitrate_after(
                    old(self)@.current_bitrate,
                    encoded_len as int,
                    elapsed_secs,
                ),
                ..old(self)@
            }),
            final(self)@.last_keyframe <= final(self)@.frame_count,
    {
        proof {
            use_type_invariant(&*self);
        }
        if elapsed_secs > 0 {
            if encoded_len <= usize::MAX / 8 {
                let secs = elapsed_secs as u32;
                if secs != 0 {
                    let bps = ((encoded_len * 8) as u32) / secs;
                    if self.current_bitrate <= (u32::MAX - bps) / 9 {
                        self.current_bitrate = (self.current_bitrate * 9 + bps) / 10;
                    }
                }
            }
        }
    }

    /// Encodes one frame taken at `ms` milliseconds into a video message.
    ///
    /// The frame counter advances whatever the outcome; the frame is a keyframe as
    /// [`keyframe_due`] says, and then becomes the last keyframe. A YUV frame is
    /// converted and compressed as [`frame_jpeg`] describes; the bit rate is then
    /// updated from the time the call took.
    pub fn encode_to_message(&mut self, frame: EncodeInput, ms: i64) -> (r: Result<
        VideoFrame,
        MjpegError,
    >)
        requires
            old(self)@.frame_count < u32::MAX,
            frame matches EncodeInput::YUV(yuv) ==> frame_accepted(old(self)@, yuv@.len() as int),
        ensures
            ({
                let m = old(self)@;
                let count = (m.frame_count + 1) as u32;
                let key = keyframe_due(m.keyframe_interval, count, m.last_keyframe);
                let f = final(self)@;
                &&& f.width == m.width && f.height == m.height
                &&& f.keyframe_interval == m.keyframe_interval
                &&& f.i444 == m.i444
                &&& f.jpeg_quality == m.jpeg_quality
                &&& f.frame_count == count
                &&& (f.frame_count, f.last_keyframe) == keyframe_step(
                    m.keyframe_interval,
                    m.frame_count,
                    m.last_keyframe,
                )
                &&& f.last_keyframe <= f.frame_count
                &&& f.last_keyframe == (if key {
                    count
                } else {
                    m.last_keyframe
                })
                &&& match frame {
                    EncodeInput::Texture => {
                        &&& r == Err::<VideoFrame, MjpegError>(MjpegError::TextureUnsupported)
                        &&& f.current_bitrate == m.current_bitrate
                    },
                    EncodeInput::YUV(yuv) => match frame_jpeg(m, yuv@) {
                        None => {
                            &&& r == Err::<VideoFrame, MjpegError>(MjpegError::JpegEncode)
                            &&& f.current_bitrate == m.current_bitrate
                        },
                        Some(jpeg) => {
                            &&& r matches Ok(vf) && vf.mjpegs matches Some(batch)
                                && batch.frames@.len() == 1 && batch.frames@[0].data@ == jpeg
                                && batch.frames@[0].key == key && batch.frames@[0].pts == ms
                            &&& bitrate_reachable(m.current_bitrate, jpeg.len() as int, f.current_bitrate)
                        },
                    },
                }
            }),
    {
        let start = instant_now();
        proof {
            use_type_invariant(&*self);
        }
        let ghost m0 = self@;
        self.frame_count = self.frame_count + 1;
        let is_keyframe = match self.config.keyframe_interval {
            Some(interval) => interval > 0 && (self.frame_count - self.last_keyframe) >= #[verifier::truncate] (interval as u32),
            None => true,
        };
        if is_keyframe {
            self.last_keyframe = self.frame_count;
        }
        let jpeg_data = match frame {
            EncodeInput::YUV(yuv) => {
                let width = self.config.width;
                let height = self.config.height;
                match self.encode_yuv_to_jpeg(yuv, width, height) {
                    Ok(data) => data,
                    Err(e) => return Err(e),
                }
            },
            EncodeInput::Texture => {
                return Err(MjpegError::TextureUnsupported);
            },
        };
        let secs = elapsed_secs(&start);
        let ghost before = self@.current_bitrate;
        self.update_bitrate(jpeg_data.len(), secs);
        assert(self@.current_bitrate == bitrate_after(before, jpeg_data@.len() as int, secs));
        assert(bitrate_reachable(m0.current_bitrate, jpeg_data@.len() as int, self@.current_bitrate));
        let frame = Self::create_frame(jpeg_data, is_keyframe, ms);
        let mut frames: Vec<EncodedVideoFrame> = Vec::new();
        frames.push(frame);
        Ok(Self::create_video_frame(frames))
    }

    /// The layout of the YUV frames this encoder takes.
    pub fn yuvfmt(&self) -> (r: EncodeYuvFormat)
        ensures
            is_layout(r, self@.width as int, self@.height as int, self@.i444),
    {
        proof {
            use_type_invariant(self);
        }
        self.yuv_fmt.clone()
    }

    /// Whether the encoder takes GPU textures: it does not.
    pub fn input_texture(&self) -> (r: bool)
        ensures
            !r,
    {
        false
    }

    /// Sets the JPEG quality in percent, clamped into `1..=100`.
    pub fn set_quality(&mut self, quality: u8) -> (r: Result<(), MjpegError>)
        ensures
            r is Ok,
            final(self)@ == (MjpegEncoderModel { jpeg_quality: clamp_quality(quality), ..old(self)@ }),
            final(self)@.last_keyframe <= final(self)@.frame_count,
    {
        proof {
            use_type_invariant(&*self);
        }
        self.jpeg_quality = if quality < 1 {
            1
        } else if quality > 100 {
            100
        } else {
            quality
        };
        Ok(())
    }

    /// The reported bit rate.
    pub fn bitrate(&self) -> (r: u32)
        ensures
            r == self@.current_bitrate,
    {
        self.current_bitrate
    }

    /// The number of frames handed to the encoder so far.
    pub fn frame_count(&self) -> (r: u32)
        ensures
            r == self@.frame_count,
    {
        self.frame_count
    }

    /// The JPEG quality in percent.
    pub fn jpeg_quality(&self) -> (r: u8)
        ensures
            r == self@.jpeg_quality,
    {
        self.jpeg_quality
    }

    /// Whether the quality can change between frames: it can.
    pub fn support_changing_quality(&self) -> (r: bool)
        ensures
            r,
    {
        true
    }

    /// Whether frames can be decoded independently of each other: they can.
    pub fn latency_free(&self) -> (r: bool)
        ensures
            r,
    {
        true
    }

    /// Whether the encoder runs on dedicated hardware: it does not.
    pub fn is_hardware(&self) -> (r: bool)
        ensures
            !r,
    {
        false
    }

    /// Releases encoder resources; there are none.
    pub fn disable(&self) {
    }
}

} // verus!
verus! {

/// Without a keyframe interval every frame is a keyframe.
pub proof fn lemma_no_interval_every_frame_key(frame_count: u32, last_keyframe: u32)
    ensures
        keyframe_due(None, frame_count, last_keyframe),
{
}

/// With keyframe interval 0 no frame is a keyframe.
pub proof fn lemma_zero_interval_no_keyframe(frame_count: u32, last_keyframe: u32)
    ensures
        !keyframe_due(Some(0usize), frame_count, last_keyframe),
{
}

/// With keyframe interval `k`, the first keyframe after a keyframe at frame `c` is
/// frame `c + k`: frame `c + n` is due exactly when `n >= k`.
pub proof fn lemma_keyframe_period(k: usize, c: u32, n: int)
    requires
        0 < k <= u32::MAX,
        0 <= n,
        c + n <= u32::MAX,
    ensures
        keyframe_due(Some(k), (c + n) as u32, c) <==> n >= k,
{
    assert(k as u32 == k);
}

/// The JPEG quality is always within `1..=100`, and a quality already within that
/// range is kept as it is.
pub proof fn lemma_quality_clamped(q: u8)
    ensures
        1 <= clamp_quality(q) <= 100,
        1 <= q <= 100 ==> clamp_quality(q) == q,
{
}

/// A bit rate update moves the reported rate toward the measured one: the result lies
/// between the two, and a measurement equal to the reported rate keeps it.
pub proof fn lemma_bitrate_between(current: u32, len: int, secs: u64)
    requires
        secs > 0,
        bitrate_update_ok(current, len, secs),
    ensures
        ({
            let bps = measured_bps(len, secs);
            let after = bitrate_after(current, len, secs);
            &&& (current <= bps ==> current <= after <= bps)
            &&& (bps <= current ==> bps <= after <= current)
            &&& (bps == current ==> after == current)
        }),
{
}

/// The frame layout: for 4:2:0 the strides are even, the luma stride covers the width
/// and the chroma stride covers half of it; for 4:4:4 both strides equal the width.
/// The planes follow each other: the luma plane holds every row, then the U plane,
/// then the V plane.
pub proof fn lemma_layout_shape(width: int, height: int, i444: bool)
    requires
        width >= 0,
        height >= 0,
    ensures
        ({
            let sy = layout_stride_y(width, i444);
            let suv = layout_stride_uv(width, i444);
            &&& i444 ==> sy == width && suv == width
            &&& !i444 ==> sy % 2 == 0 && width <= sy <= width + 1 && suv % 2 == 0 && 2 * suv >= sy
            &&& layout_u(width, height, i444) >= width * height
            &&& layout_u(width, height, i444) <= layout_v(width, height, i444)
        }),
{
    let sy = layout_stride_y(width, i444);
    let suv = layout_stride_uv(width, i444);
    let hh = if i444 { height } else { height / 2 };
    assert(sy * height >= width * height) by (nonlinear_arith)
        requires
            sy >= width,
            height >= 0,
    ;
    assert(suv * hh >= 0) by (nonlinear_arith)
        requires
            suv >= 0,
            hh >= 0,
    ;
}

} // verus!
verus! {

/// A new encoder that has been handed `n` frames (failed ones included) counts `n`
/// frames, and its last keyframe is never ahead of its frame counter. Each call of
/// `encode_to_message` takes the counters one [`keyframe_step`] further, so an
/// encoder whose counters are `counters_after(interval, n)` has, after the call,
/// `counters_after(interval, n + 1)`; `new` starts at `counters_after(interval, 0)`
/// and `set_quality` leaves the counters alone.
pub proof fn lemma_counters_after(interval: Option<usize>, n: nat)
    requires
        n <= u32::MAX,
    ensures
        counters_after(interval, n).0 == n,
        counters_after(interval, n).1 <= counters_after(interval, n).0,
        counters_after(interval, n + 1) == keyframe_step(
            interval,
            counters_after(interval, n).0,
            counters_after(interval, n).1,
        ),
    decreases n,
{
    if n > 0 {
        lemma_counters_after(interval, (n - 1) as nat);
    }
}

} // verus!
verus! {

/// The RGB image the encoder compresses holds, for every pixel (`x`, `y`) of a frame
/// it accepts, the colour computed from that pixel's own samples in the encoder's
/// layout (luma stride `sy`, chroma stride `suv`, U plane at `u`, V plane at `v`):
/// - 4:2:0: the luma at `y * sy + x` with the chroma at `(y / 2) * suv + x / 2` of the
///   U and V planes, a chroma sample past its plane counting as neutral;
/// - 4:4:4: the luma, U and V samples at `y * sy + x`, where the V sample lies in the
///   buffer; otherwise the pixel stays black.
/// So a 4:2:0 pixel's colour follows its chroma: it is grey only for neutral chroma.
pub proof fn lemma_frame_rgb_pixel(m: MjpegEncoderModel, yuv: Seq<u8>, x: int, y: int)
    requires
        layout_fits(m.width as int, m.height as int, m.i444),
        frame_accepted(m, yuv.len() as int),
        0 <= x < m.width,
        0 <= y < m.height,
    ensures
        ({
            let w = m.width as int;
            let h = m.height as int;
            let sy = layout_stride_y(w, m.i444);
            let suv = layout_stride_uv(w, m.i444);
            let u = layout_u(w, h, m.i444);
            let v = layout_v(w, h, m.i444);
            let rgb = frame_rgb(m, yuv);
            let i = 3 * (y * w + x);
            let yi = y * sy + x;
            let ci = (y / 2) * suv + x / 2;
            let cu = if ci < v - u { yuv[u + ci] - 128 } else { 0 };
            let cv = if ci < yuv.len() - v { yuv[v + ci] - 128 } else { 0 };
            &&& !m.i444 ==> {
                &&& rgb[i] == red_of(yuv[yi] as int, cu, cv)
                &&& rgb[i + 1] == green_of(yuv[yi] as int, cu, cv)
                &&& rgb[i + 2] == blue_of(yuv[yi] as int, cu, cv)
            }
            &&& m.i444 ==> if yi < yuv.len() - v {
                &&& rgb[i] == red_of(yuv[yi] as int, yuv[u + yi] - 128, yuv[v + yi] - 128)
                &&& rgb[i + 1] == green_of(yuv[yi] as int, yuv[u + yi] - 128, yuv[v + yi] - 128)
                &&& rgb[i + 2] == blue_of(yuv[yi] as int, yuv[u + yi] - 128, yuv[v + yi] - 128)
            } else {
                rgb[i] == 0 && rgb[i + 1] == 0 && rgb[i + 2] == 0
            }
        }),
{
    let w = m.width as int;
    let h = m.height as int;
    let g = model_planes(m);
    let sy = layout_stride_y(w, m.i444);
    let suv = layout_stride_uv(w, m.i444);
    let hh = if m.i444 { h } else { h / 2 };
    assert(sy >= w && suv >= 0);
    assert(sy * h >= 0 && suv * hh >= 0) by (nonlinear_arith)
        requires
            sy >= 0,
            suv >= 0,
            h >= 0,
            hh >= 0,
    ;
    assert(g.u == sy * h);
    assert(g.v == sy * h + suv * hh);
    assert(g.y_stride == sy && g.uv_stride == suv);
    lemma_pixel_bounds(w, h, sy, x, y);
    assert(m.i444 ==> sy * h == w * h);
    let dst = Seq::new((m.width * m.height * 3) as nat, |i: int| 0u8);
    lemma_converted_pixel(model_sampling(m), g, yuv, w, h, dst, x, y);
}

} // verus!
