//! Decoding MJPEG frames back to packed RGB.
use vstd::prelude::*;
use crate::format::Pixfmt;
use crate::jpeg::{decode_jpeg, jpeg_decoding};
use crate::mjpeg::MjpegError;

verus! {

/// The dimensions a new decoder reports after it has been handed the JPEG streams
/// `streams` in turn: those of the last stream it decoded, or 0 by 0 if it decoded
/// none.
pub open spec fn dims_after(streams: Seq<Seq<u8>>) -> (usize, usize)
    decreases streams.len(),
{
    if streams.len() == 0 {
        (0usize, 0usize)
    } else {
        match jpeg_decoding(streams.last()) {
            Some((w, h, _)) => (w as usize, h as usize),
            None => dims_after(streams.drop_last()),
        }
    }
}

/// A decoder of MJPEG frames; it remembers the dimensions of the last frame decoded.
pub struct MjpegDecoder {
    width: usize,
    height: usize,
}

/// What a decoder reports to the codec layer.
pub struct DecoderInfo {
    pub pixfmt: Pixfmt,
    pub width: usize,
    pub height: usize,
}

impl View for MjpegDecoder {
    /// Width and height of the last frame decoded.
    type V = (usize, usize);

    closed spec fn view(&self) -> (usize, usize) {
        (self.width, self.height)
    }
}

impl MjpegDecoder {
    /// A decoder that has decoded nothing yet: its dimensions are 0 by 0.
    pub fn new() -> (r: Result<Self, MjpegError>)
        ensures
            r matches Ok(d) && d@ == (0usize, 0usize) && d@ == dims_after(Seq::empty()),
    {
        Ok(MjpegDecoder { width: 0, height: 0 })
    }

    /// Records the dimensions of a decoded frame and hands its RGB bytes on.
    pub fn store_decoded(&mut self, width: u32, height: u32, rgb: Vec<u8>) -> (r: Vec<u8>)
        ensures
            r == rgb,
            final(self)@ == (width as usize, height as usize),
    {
        self.width = width as usize;
        self.height = height as usize;
        rgb
    }

    /// Decodes the JPEG stream `data` to packed 8-bit RGB and remembers its
    /// dimensions; a stream the decoder rejects leaves the decoder as it was.
    pub fn decode_jpeg_to_rgb(&mut self, data: &[u8]) -> (r: Result<Vec<u8>, MjpegError>)
        ensures
            match jpeg_decoding(data@) {
                Some((w, h, px)) => r matches Ok(out) && out@ == px && out@.len() == w * h * 3
                    && final(self)@ == (w as usize, h as usize),
                None => r == Err::<Vec<u8>, MjpegError>(MjpegError::JpegDecode) && final(self)@
                    == old(self)@,
            },
    {
        match decode_jpeg(data) {
            Ok((w, h, px)) => Ok(self.store_decoded(w, h, px)),
            Err(_) => Err(MjpegError::JpegDecode),
        }
    }

    /// Width of the last frame decoded.
    pub fn width(&self) -> (r: usize)
        ensures
            r == self@.0,
    {
        self.width
    }

    /// Height of the last frame decoded.
    pub fn height(&self) -> (r: usize)
        ensures
            r == self@.1,
    {
        self.height
    }

    /// The pixel format and dimensions the decoder reports.
    pub fn info(&self) -> (r: DecoderInfo)
        ensures
            r.pixfmt == Pixfmt::BGRA,
            r.width == self@.0,
            r.height == self@.1,
    {
        DecoderInfo { pixfmt: Pixfmt::BGRA, width: self.width, height: self.height }
    }
}

} // verus!
verus! {

/// One more decode extends [`dims_after`]: the dimensions a decoder reports after
/// `decode_jpeg_to_rgb(data)` are those of `data` if it decodes, and unchanged
/// otherwise; so after any sequence of decodes from a new decoder, `width()` and
/// `height()` report the last decoded image, or 0 by 0.
pub proof fn lemma_decode_sequence(streams: Seq<Seq<u8>>, data: Seq<u8>)
    ensures
        dims_after(streams.push(data)) == (match jpeg_decoding(data) {
            Some((w, h, _)) => (w as usize, h as usize),
            None => dims_after(streams),
        }),
{
    assert(streams.push(data).drop_last() =~= streams);
}

} // verus!
