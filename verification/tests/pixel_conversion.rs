use scrap::pixel::convert_pixel;
use scrap::yuv_convert::{convert_frame, Planes, Sampling};

#[test]
fn pixel_formula_rounds_toward_zero() {
    assert_eq!(convert_pixel(100, 0, -1), (99, 100, 100));
}

#[test]
fn pixel_formula_exact_values() {
    assert_eq!(convert_pixel(128, 50, -30), (86, 132, 216));
}

#[test]
fn pixel_formula_clamps_high() {
    assert_eq!(convert_pixel(250, 100, 100), (255, 145, 255));
}

#[test]
fn pixel_formula_clamps_low() {
    assert_eq!(convert_pixel(10, -100, 100), (150, 0, 0));
}

#[test]
fn neutral_chroma_is_grey() {
    for y in [0, 1, 77, 128, 254, 255] {
        assert_eq!(convert_pixel(y, 0, 0), (y as u8, y as u8, y as u8));
    }
}

#[test]
fn brighter_luma_never_darker() {
    let (r1, g1, b1) = convert_pixel(40, 30, -20);
    let (r2, g2, b2) = convert_pixel(41, 30, -20);
    assert!(r1 <= r2 && g1 <= g2 && b1 <= b2);
}

#[test]
fn frame_420_block_shares_chroma() {
    // 2x2 frame in 4:2:0: luma stride 2, chroma stride 2, U at 4, V at 6.
    let yuv = [10u8, 60, 110, 160, 178, 0, 98, 0];
    let g = Planes { u: 4, v: 6, y_stride: 2, uv_stride: 2 };
    let mut rgb = [7u8; 12];
    convert_frame(Sampling::Yuv420, g, &yuv, &mut rgb, 2, 2);
    for (p, y) in [10, 60, 110, 160].iter().enumerate() {
        let (r, gg, b) = convert_pixel(*y, 50, -30);
        assert_eq!(&rgb[3 * p..3 * p + 3], &[r, gg, b]);
    }
}

#[test]
fn frame_420_missing_chroma_is_neutral() {
    // The U and V planes are empty: chroma counts as neutral, so pixels are grey.
    let yuv = [10u8, 60, 110, 160];
    let g = Planes { u: 4, v: 4, y_stride: 2, uv_stride: 2 };
    let mut rgb = [0u8; 12];
    convert_frame(Sampling::Yuv420, g, &yuv, &mut rgb, 2, 2);
    assert_eq!(rgb, [10, 10, 10, 60, 60, 60, 110, 110, 110, 160, 160, 160]);
}

#[test]
fn frame_444_uses_own_chroma() {
    // 2x1 frame in 4:4:4: Y at 0..2, U at 2..4, V at 4..6.
    let yuv = [100u8, 200, 128, 178, 128, 98];
    let g = Planes { u: 2, v: 4, y_stride: 2, uv_stride: 2 };
    let mut rgb = [0u8; 6];
    convert_frame(Sampling::Yuv444, g, &yuv, &mut rgb, 2, 1);
    let (r0, g0, b0) = convert_pixel(100, 0, 0);
    let (r1, g1, b1) = convert_pixel(200, 50, -30);
    assert_eq!(rgb, [r0, g0, b0, r1, g1, b1]);
}

#[test]
fn frame_444_skips_pixels_outside_planes() {
    // The V plane holds one sample only: the second pixel is not written.
    let yuv = [100u8, 200, 128, 128, 128];
    let g = Planes { u: 2, v: 4, y_stride: 2, uv_stride: 2 };
    let mut rgb = [9u8; 6];
    convert_frame(Sampling::Yuv444, g, &yuv, &mut rgb, 2, 1);
    assert_eq!(rgb, [100, 100, 100, 9, 9, 9]);
}

#[test]
fn frame_luma_only_is_grey() {
    let yuv = [5u8, 6, 7, 8, 1, 2];
    let g = Planes { u: 4, v: 6, y_stride: 2, uv_stride: 2 };
    let mut rgb = [0u8; 12];
    convert_frame(Sampling::LumaOnly, g, &yuv, &mut rgb, 2, 2);
    assert_eq!(rgb, [5, 5, 5, 6, 6, 6, 7, 7, 7, 8, 8, 8]);
}

#[test]
fn frame_short_destination_keeps_tail() {
    let yuv = [5u8, 6, 7, 8];
    let g = Planes { u: 4, v: 4, y_stride: 2, uv_stride: 2 };
    let mut rgb = [0u8; 8];
    convert_frame(Sampling::LumaOnly, g, &yuv, &mut rgb, 2, 2);
    assert_eq!(rgb, [5, 5, 5, 6, 6, 6, 0, 0]);
}

#[test]
fn frame_respects_stride() {
    // Luma stride 3 for a 2-wide frame: the third byte of each row is padding.
    let yuv = [1u8, 2, 99, 3, 4, 99];
    let g = Planes { u: 6, v: 6, y_stride: 3, uv_stride: 2 };
    let mut rgb = [0u8; 12];
    convert_frame(Sampling::LumaOnly, g, &yuv, &mut rgb, 2, 2);
    assert_eq!(rgb, [1, 1, 1, 2, 2, 2, 3, 3, 3, 4, 4, 4]);
}
