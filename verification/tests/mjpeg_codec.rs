use scrap::format::Pixfmt;
use scrap::mjpeg::{
    EncodeInput, EncodedVideoFrame, EncoderCfg, MjpegEncoder, MjpegEncoderConfig, MjpegError,
};
use scrap::mjpeg_decoder::MjpegDecoder;

fn config(width: usize, height: usize, quality: u8, keyframe_interval: Option<usize>) -> EncoderCfg {
    EncoderCfg::MJPEG(MjpegEncoderConfig { width, height, quality, keyframe_interval })
}

fn encoder(width: usize, height: usize, interval: Option<usize>, i444: bool) -> MjpegEncoder {
    MjpegEncoder::new(config(width, height, 80, interval), i444, 1000).unwrap()
}

fn grey_frame(enc: &MjpegEncoder, luma: u8) -> Vec<u8> {
    let fmt = enc.yuvfmt();
    let mut yuv = vec![128u8; fmt.v + fmt.stride[2] * fmt.h];
    for b in yuv[..fmt.u].iter_mut() {
        *b = luma;
    }
    yuv
}

#[test]
fn new_rejects_other_codec_settings() {
    assert_eq!(MjpegEncoder::new(EncoderCfg::Other, false, 5).err(), Some(MjpegError::InvalidConfig));
}

#[test]
fn layout_420_odd_width() {
    let enc = encoder(5, 3, None, false);
    let fmt = enc.yuvfmt();
    assert_eq!(fmt.pixfmt, Pixfmt::I420);
    assert_eq!((fmt.w, fmt.h), (5, 3));
    assert_eq!(fmt.stride, vec![6, 4, 4, 0]);
    assert_eq!((fmt.u, fmt.v), (18, 22));
}

#[test]
fn layout_444() {
    let enc = encoder(5, 3, None, true);
    let fmt = enc.yuvfmt();
    assert_eq!(fmt.pixfmt, Pixfmt::I444);
    assert_eq!(fmt.stride, vec![5, 5, 5, 0]);
    assert_eq!((fmt.u, fmt.v), (15, 30));
}

#[test]
fn layout_420_even_width() {
    let enc = encoder(16, 8, None, false);
    let fmt = enc.yuvfmt();
    assert_eq!(fmt.stride, vec![16, 8, 8, 0]);
    assert_eq!((fmt.u, fmt.v), (128, 160));
}

#[test]
fn quality_is_clamped() {
    let low = MjpegEncoder::new(config(4, 4, 0, None), false, 0).unwrap();
    assert_eq!(low.jpeg_quality(), 1);
    let high = MjpegEncoder::new(config(4, 4, 200, None), false, 0).unwrap();
    assert_eq!(high.jpeg_quality(), 100);
    let mut mid = MjpegEncoder::new(config(4, 4, 42, None), false, 0).unwrap();
    assert_eq!(mid.jpeg_quality(), 42);
    assert!(mid.set_quality(150).is_ok());
    assert_eq!(mid.jpeg_quality(), 100);
    assert!(mid.set_quality(0).is_ok());
    assert_eq!(mid.jpeg_quality(), 1);
}

#[test]
fn constant_answers() {
    let enc = encoder(4, 4, None, false);
    assert!(!enc.input_texture());
    assert!(enc.support_changing_quality());
    assert!(enc.latency_free());
    assert!(!enc.is_hardware());
    assert_eq!(enc.bitrate(), 1000);
    enc.disable();
}

#[test]
fn texture_input_is_refused_but_counted() {
    let mut enc = encoder(4, 4, None, false);
    let r = enc.encode_to_message(EncodeInput::Texture, 0);
    assert_eq!(r.err(), Some(MjpegError::TextureUnsupported));
    assert_eq!(enc.frame_count(), 1);
    assert_eq!(enc.bitrate(), 1000);
}

fn key_of(enc: &mut MjpegEncoder, yuv: &[u8], ms: i64) -> bool {
    let vf = enc.encode_to_message(EncodeInput::YUV(yuv), ms).unwrap();
    let frames = vf.mjpegs.unwrap().frames;
    assert_eq!(frames.len(), 1);
    assert_eq!(frames[0].pts, ms);
    frames[0].key
}

#[test]
fn every_frame_key_without_interval() {
    let mut enc = encoder(16, 16, None, false);
    let yuv = grey_frame(&enc, 90);
    for ms in 0..4 {
        assert!(key_of(&mut enc, &yuv, ms));
    }
    assert_eq!(enc.frame_count(), 4);
}

#[test]
fn no_keyframe_with_zero_interval() {
    let mut enc = encoder(16, 16, Some(0), false);
    let yuv = grey_frame(&enc, 90);
    for ms in 0..4 {
        assert!(!key_of(&mut enc, &yuv, ms));
    }
}

#[test]
fn keyframe_every_interval() {
    let mut enc = encoder(16, 16, Some(3), false);
    let yuv = grey_frame(&enc, 90);
    let keys: Vec<bool> = (0..7).map(|ms| key_of(&mut enc, &yuv, ms)).collect();
    assert_eq!(keys, vec![false, false, true, false, false, true, false]);
}

#[test]
fn keyframe_interval_one_is_every_frame() {
    let mut enc = encoder(16, 16, Some(1), false);
    let yuv = grey_frame(&enc, 90);
    for ms in 0..3 {
        assert!(key_of(&mut enc, &yuv, ms));
    }
}

#[test]
fn encoded_frame_is_jpeg_and_decodes() {
    let mut enc = encoder(16, 8, None, false);
    let yuv = grey_frame(&enc, 200);
    let vf = enc.encode_to_message(EncodeInput::YUV(&yuv), 7).unwrap();
    let frames = vf.mjpegs.unwrap().frames;
    let data = &frames[0].data;
    assert_eq!(&data[..2], &[0xFF, 0xD8]);
    let mut dec = MjpegDecoder::new().unwrap();
    let rgb = dec.decode_jpeg_to_rgb(data).unwrap();
    assert_eq!((dec.width(), dec.height()), (16, 8));
    assert_eq!(rgb.len(), 16 * 8 * 3);
    assert!(rgb.iter().all(|&b| (b as i32 - 200).abs() <= 3));
    let info = dec.info();
    assert_eq!(info.pixfmt, Pixfmt::BGRA);
    assert_eq!((info.width, info.height), (16, 8));
}

#[test]
fn encoded_444_frame_decodes() {
    let mut enc = encoder(8, 8, None, true);
    let yuv = grey_frame(&enc, 50);
    let vf = enc.encode_to_message(EncodeInput::YUV(&yuv), 1).unwrap();
    let data = &vf.mjpegs.unwrap().frames[0].data;
    let mut dec = MjpegDecoder::new().unwrap();
    let rgb = dec.decode_jpeg_to_rgb(data).unwrap();
    assert_eq!((dec.width(), dec.height()), (8, 8));
    assert!(rgb.iter().all(|&b| (b as i32 - 50).abs() <= 3));
}

#[test]
fn empty_frame_is_refused_by_jpeg() {
    let mut enc = encoder(0, 0, None, false);
    let r = enc.encode_to_message(EncodeInput::YUV(&[]), 0);
    assert_eq!(r.err(), Some(MjpegError::JpegEncode));
    assert_eq!(enc.frame_count(), 1);
}

#[test]
fn oversized_frame_is_refused_by_jpeg() {
    let mut enc = encoder(70000, 1, None, true);
    let yuv = vec![0u8; 70000 * 3];
    let r = enc.encode_to_message(EncodeInput::YUV(&yuv), 0);
    assert_eq!(r.err(), Some(MjpegError::JpegEncode));
}

#[test]
fn decoder_starts_empty_and_rejects_garbage() {
    let mut dec = MjpegDecoder::new().unwrap();
    assert_eq!((dec.width(), dec.height()), (0, 0));
    assert_eq!(dec.decode_jpeg_to_rgb(&[1, 2, 3, 4]).err(), Some(MjpegError::JpegDecode));
    assert_eq!((dec.width(), dec.height()), (0, 0));
}

#[test]
fn decoder_store_decoded_records_dimensions() {
    let mut dec = MjpegDecoder::new().unwrap();
    let out = dec.store_decoded(3, 2, vec![1, 2, 3]);
    assert_eq!(out, vec![1, 2, 3]);
    assert_eq!((dec.width(), dec.height()), (3, 2));
}

#[test]
fn bitrate_moving_average() {
    let mut enc = encoder(4, 4, None, false);
    enc.update_bitrate(1000, 1);
    assert_eq!(enc.bitrate(), (1000 * 9 + 8000) / 10);
    enc.update_bitrate(1000, 0);
    assert_eq!(enc.bitrate(), 1700);
    enc.update_bitrate(500, 2);
    assert_eq!(enc.bitrate(), (1700 * 9 + 2000) / 10);
}

#[test]
fn bitrate_fixed_point() {
    let mut enc = encoder(4, 4, None, false);
    enc.update_bitrate(125, 1);
    assert_eq!(enc.bitrate(), 1000);
}

#[test]
fn bitrate_overflow_leaves_rate() {
    let mut enc = MjpegEncoder::new(config(4, 4, 50, None), false, u32::MAX / 2).unwrap();
    enc.update_bitrate(1000, 1);
    assert_eq!(enc.bitrate(), u32::MAX / 2);
}

#[test]
fn frame_records() {
    let f = MjpegEncoder::create_frame(vec![1, 2], true, -5);
    assert_eq!((f.data.clone(), f.key, f.pts), (vec![1, 2], true, -5));
    let vf = MjpegEncoder::create_video_frame(vec![f, EncodedVideoFrame { data: vec![], key: false, pts: 1 }]);
    let frames = vf.mjpegs.unwrap().frames;
    assert_eq!(frames.len(), 2);
    assert_eq!(frames[1].pts, 1);
}

#[test]
fn empty_frame_with_huge_height_is_refused_by_jpeg() {
    let tall = u32::MAX as usize + 10;
    let mut enc = MjpegEncoder::new(config(0, tall, 50, None), true, 0).unwrap();
    let r = enc.encode_to_message(EncodeInput::YUV(&[]), 0);
    assert_eq!(r.err(), Some(MjpegError::JpegEncode));
}
