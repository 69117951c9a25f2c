use std::io::Cursor;

use image::{DynamicImage, ImageOutputFormat, Rgb, RgbImage};
use virtual_devices::virtual_camera::windows::rgb_top_down_to_bgr_bottom_up;
use virtual_devices::virtual_camera::{
    jpeg_to_rgb_top_down, letterbox_frame, FrameError, DATA_LEN, FRAME_H, FRAME_W, ROW_LEN,
};

fn offset(x: usize, y: usize, c: usize) -> usize {
    y * ROW_LEN + x * 3 + c
}

fn encode(img: RgbImage, format: ImageOutputFormat) -> Vec<u8> {
    let mut out = Cursor::new(Vec::new());
    DynamicImage::ImageRgb8(img).write_to(&mut out, format).unwrap();
    out.into_inner()
}

#[test]
fn frame_constants_agree() {
    assert_eq!(ROW_LEN, FRAME_W as usize * 3);
    assert_eq!(DATA_LEN, ROW_LEN * FRAME_H as usize);
}

#[test]
fn letterbox_centres_small_image() {
    // Two pixels side by side: red, blue.
    let img = vec![255, 0, 0, 0, 0, 255];
    let out = letterbox_frame(&img, 2, 1);
    assert_eq!(out.len(), DATA_LEN);
    let ox = (1280 - 2) / 2;
    let oy = (720 - 1) / 2;
    assert_eq!(ox, 639);
    assert_eq!(oy, 359);
    assert_eq!(&out[offset(639, 359, 0)..offset(639, 359, 3)], &[255, 0, 0]);
    assert_eq!(&out[offset(640, 359, 0)..offset(640, 359, 3)], &[0, 0, 255]);
    let lit = out.iter().filter(|b| **b != 0).count();
    assert_eq!(lit, 2);
}

#[test]
fn letterbox_full_size_is_identity() {
    let img: Vec<u8> = (0..DATA_LEN).map(|i| (i % 251) as u8).collect();
    let out = letterbox_frame(&img, FRAME_W, FRAME_H);
    assert_eq!(out, img);
}

#[test]
fn letterbox_wide_image_gets_bars_top_and_bottom() {
    // 1280 x 640: 40 black rows above and below.
    let w = 1280usize;
    let h = 640usize;
    let img = vec![7u8; w * h * 3];
    let out = letterbox_frame(&img, w as u32, h as u32);
    assert!(out[..40 * ROW_LEN].iter().all(|b| *b == 0));
    assert!(out[40 * ROW_LEN..680 * ROW_LEN].iter().all(|b| *b == 7));
    assert!(out[680 * ROW_LEN..].iter().all(|b| *b == 0));
}

#[test]
fn bgr_bottom_up_flips_rows_and_swaps_channels() {
    let mut rgb = vec![0u8; DATA_LEN];
    // Top-left pixel (1, 2, 3), bottom-right pixel (4, 5, 6).
    rgb[offset(0, 0, 0)] = 1;
    rgb[offset(0, 0, 1)] = 2;
    rgb[offset(0, 0, 2)] = 3;
    rgb[offset(1279, 719, 0)] = 4;
    rgb[offset(1279, 719, 1)] = 5;
    rgb[offset(1279, 719, 2)] = 6;
    let bgr = rgb_top_down_to_bgr_bottom_up(&rgb);
    assert_eq!(bgr.len(), DATA_LEN);
    assert_eq!(&bgr[offset(0, 719, 0)..offset(0, 719, 3)], &[3, 2, 1]);
    assert_eq!(&bgr[offset(1279, 0, 0)..offset(1279, 0, 3)], &[6, 5, 4]);
    assert_eq!(bgr.iter().filter(|b| **b != 0).count(), 6);
}

#[test]
fn bgr_conversion_twice_is_identity() {
    let rgb: Vec<u8> = (0..DATA_LEN).map(|i| (i * 7 % 256) as u8).collect();
    let once = rgb_top_down_to_bgr_bottom_up(&rgb);
    assert_ne!(once, rgb);
    let twice = rgb_top_down_to_bgr_bottom_up(&once);
    assert_eq!(twice, rgb);
}

#[test]
fn bgr_conversion_ignores_bytes_past_the_frame() {
    let mut rgb = vec![9u8; DATA_LEN + 10];
    rgb[DATA_LEN..].iter_mut().for_each(|b| *b = 1);
    let bgr = rgb_top_down_to_bgr_bottom_up(&rgb);
    assert_eq!(bgr, vec![9u8; DATA_LEN]);
}

#[test]
fn garbage_does_not_decode() {
    let r = jpeg_to_rgb_top_down(&[1, 2, 3, 4, 5]);
    assert!(matches!(r, Err(FrameError::Decode(_))));
    let r = jpeg_to_rgb_top_down(&[]);
    assert!(matches!(r, Err(FrameError::Decode(_))));
}

#[test]
fn png_of_frame_aspect_fills_frame() {
    let png = encode(RgbImage::from_pixel(16, 9, Rgb([200, 100, 50])), ImageOutputFormat::Png);
    let frame = jpeg_to_rgb_top_down(&png).unwrap();
    assert_eq!(frame.len(), DATA_LEN);
    assert_eq!(&frame[offset(640, 360, 0)..offset(640, 360, 3)], &[200, 100, 50]);
    assert_eq!(&frame[offset(0, 0, 0)..offset(0, 0, 3)], &[200, 100, 50]);
    assert_eq!(&frame[offset(1279, 719, 0)..offset(1279, 719, 3)], &[200, 100, 50]);
}

#[test]
fn tall_jpeg_is_pillarboxed() {
    // 90 x 160 scales to 405 x 720: black columns left and right.
    let jpeg = encode(RgbImage::from_pixel(90, 160, Rgb([255, 255, 255])), ImageOutputFormat::Jpeg(95));
    let frame = jpeg_to_rgb_top_down(&jpeg).unwrap();
    assert_eq!(frame.len(), DATA_LEN);
    let ox = (1280 - 405) / 2;
    assert_eq!(&frame[offset(0, 360, 0)..offset(0, 360, 3)], &[0, 0, 0]);
    assert_eq!(&frame[offset(ox - 1, 360, 0)..offset(ox - 1, 360, 3)], &[0, 0, 0]);
    assert!(frame[offset(640, 360, 0)] > 200);
    assert_eq!(&frame[offset(ox + 405, 360, 0)..offset(ox + 405, 360, 3)], &[0, 0, 0]);
    assert_eq!(&frame[offset(1279, 360, 0)..offset(1279, 360, 3)], &[0, 0, 0]);
}

#[test]
fn frame_sized_picture_goes_through_unchanged() {
    let img = RgbImage::from_fn(1280, 720, |x, y| Rgb([(x % 256) as u8, (y % 256) as u8, ((x + y) % 256) as u8]));
    let raw = img.clone().into_raw();
    let png = encode(img, ImageOutputFormat::Png);
    let frame = jpeg_to_rgb_top_down(&png).unwrap();
    assert_eq!(frame, raw);
}
