//! Pixel formats and the memory layout of a planar YUV frame.
use vstd::prelude::*;

verus! {

/// Pixel formats of raw frames.
#[derive(Clone, Copy, Debug, PartialEq, Eq, Structural)]
pub enum Pixfmt {
    BGRA,
    RGBA,
    I420,
    NV12,
    I444,
}

/// Where the planes of a planar YUV frame lie in its buffer.
///
/// `stride[0]` is the luma row stride, `stride[1]` and `stride[2]` the chroma row
/// strides; the U plane starts at byte `u` and the V plane at byte `v`.
#[derive(Debug)]
pub struct EncodeYuvFormat {
    pub pixfmt: Pixfmt,
    pub w: usize,
    pub h: usize,
    pub stride: Vec<usize>,
    pub u: usize,
    pub v: usize,
}

impl Clone for EncodeYuvFormat {
    fn clone(&self) -> (r: EncodeYuvFormat)
        ensures
            r.pixfmt == self.pixfmt,
            r.w == self.w,
            r.h == self.h,
            r.stride@ == self.stride@,
            r.u == self.u,
            r.v == self.v,
    {
        let mut stride: Vec<usize> = Vec::new();
        let n = self.stride.len();
        for i in 0..n
            invariant
                n == self.stride@.len(),
                stride@ == self.stride@.subrange(0, i as int),
        {
            stride.push(self.stride[i]);
        }
        proof {
            assert(self.stride@.subrange(0, n as int) =~= self.stride@);
        }
        EncodeYuvFormat {
            pixfmt: self.pixfmt,
            w: self.w,
            h: self.h,
            stride,
            u: self.u,
            v: self.v,
        }
    }
}

} // verus!
