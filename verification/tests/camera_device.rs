use std::io::Cursor;

use image::{DynamicImage, ImageOutputFormat, Rgb, RgbImage};
use virtual_devices::setup::SetupStep;
use virtual_devices::virtual_camera::linux::{
    accepts_frame, card_matches, is_video_device_name, locate_device, DeviceChoice, DeviceEntry,
    LocateError, V4l2Format, CARD_MATCH, PINNED_DEVICE, V4L2_BUF_TYPE_VIDEO_OUTPUT,
    V4L2_COLORSPACE_SRGB, V4L2_FIELD_NONE, V4L2_PIX_FMT_RGB24,
};
use virtual_devices::virtual_camera::windows::{
    ensure_registered, RegisterStage, SharedFrame, FILTER_CLSID, FORMAT_BGR24_BOTTOMUP, MAGIC,
    MAP_LEN, HEADER_LEN, VERSION,
};
use virtual_devices::virtual_camera::{
    feed_jpeg_frame, stop, CameraBackend, FeedPlan, VirtualCamera, WriteStep, DATA_LEN,
};
use virtual_devices::setup::ExitReport;

fn png(w: u32, h: u32, px: [u8; 3]) -> Vec<u8> {
    let mut out = Cursor::new(Vec::new());
    DynamicImage::ImageRgb8(RgbImage::from_pixel(w, h, Rgb(px)))
        .write_to(&mut out, ImageOutputFormat::Png)
        .unwrap();
    out.into_inner()
}

fn card(label: &[u8]) -> Vec<u8> {
    let mut c = vec![0u8; 32];
    c[..label.len()].copy_from_slice(label);
    c
}

#[test]
fn v4l2_format_is_rgb24_output() {
    let f = V4l2Format::new_output_rgb24();
    assert_eq!(f.type_, V4L2_BUF_TYPE_VIDEO_OUTPUT);
    assert_eq!(f.type_, 2);
    assert_eq!(f.fmt_pix.width, 1280);
    assert_eq!(f.fmt_pix.height, 720);
    assert_eq!(f.fmt_pix.pixelformat, V4L2_PIX_FMT_RGB24);
    assert_eq!(f.fmt_pix.pixelformat.to_le_bytes(), *b"RGB3");
    assert_eq!(f.fmt_pix.field, V4L2_FIELD_NONE);
    assert_eq!(f.fmt_pix.bytesperline, 3840);
    assert_eq!(f.fmt_pix.sizeimage, 2764800);
    assert_eq!(f.fmt_pix.bytesperline * f.fmt_pix.height, f.fmt_pix.sizeimage);
    assert_eq!(f.fmt_pix.colorspace, V4L2_COLORSPACE_SRGB);
    assert_eq!(f.fmt_pix.priv_, 0);
    assert_eq!(f.fmt_pix.flags, 0);
    assert_eq!(f.fmt_pix.ycbcr_enc, 0);
    assert_eq!(f.fmt_pix.quantization, 0);
    assert_eq!(f.fmt_pix.xfer_func, 0);
}

#[test]
fn card_label_matching() {
    assert!(card_matches(&card(b"Tether Camera"), CARD_MATCH));
    assert!(card_matches(&card(b"Tether Camera (extra)"), CARD_MATCH));
    assert!(!card_matches(&card(b"Dummy video device"), CARD_MATCH));
    // Only the bytes before the first NUL count.
    let mut c = card(b"Tether");
    c[7..20].copy_from_slice(b"Tether Camera");
    assert!(!card_matches(&c, CARD_MATCH));
    // A label that is not UTF-8 never matches.
    let mut bad = card(b"Tether Camera");
    bad[20] = 0xff;
    bad[13] = 0xff;
    assert!(!card_matches(&bad, CARD_MATCH));
    // No NUL at all: the whole field is the label.
    assert!(card_matches(b"Tether Camera", CARD_MATCH));
    assert!(card_matches(&card(b"x"), ""));
}

#[test]
fn video_device_names() {
    assert!(is_video_device_name("video63"));
    assert!(is_video_device_name("video"));
    assert!(!is_video_device_name("vide"));
    assert!(!is_video_device_name("media0"));
    assert!(!is_video_device_name("xvideo0"));
}

#[test]
fn locate_prefers_pinned_device() {
    let entries = vec![DeviceEntry { name: Some("video0".to_string()), card: Some(card(b"Tether Camera")) }];
    assert_eq!(locate_device(true, &entries), Ok(DeviceChoice::Pinned));
    assert_eq!(PINNED_DEVICE, "/dev/video63");
}

#[test]
fn locate_takes_first_labelled_video_device() {
    let entries = vec![
        DeviceEntry { name: Some("null".to_string()), card: None },
        DeviceEntry { name: Some("tty0".to_string()), card: Some(card(b"Tether Camera")) },
        DeviceEntry { name: Some("video0".to_string()), card: Some(card(b"Integrated Webcam")) },
        DeviceEntry { name: None, card: Some(card(b"Tether Camera")) },
        DeviceEntry { name: Some("video5".to_string()), card: None },
        DeviceEntry { name: Some("video7".to_string()), card: Some(card(b"Tether Camera")) },
        DeviceEntry { name: Some("video8".to_string()), card: Some(card(b"Tether Camera")) },
    ];
    assert_eq!(locate_device(false, &entries), Ok(DeviceChoice::Scanned(5)));
}

#[test]
fn locate_fails_without_labelled_device() {
    let entries = vec![DeviceEntry { name: Some("video0".to_string()), card: Some(card(b"Webcam")) }];
    assert_eq!(locate_device(false, &entries), Err(LocateError::NoDevice));
    assert_eq!(locate_device(false, &Vec::new()), Err(LocateError::NoDevice));
}

#[test]
fn v4l2_accepts_whole_frames_only() {
    assert!(accepts_frame(&vec![0u8; DATA_LEN]));
    assert!(!accepts_frame(&vec![0u8; DATA_LEN - 1]));
    assert!(!accepts_frame(&vec![0u8; DATA_LEN + 1]));
}

#[test]
fn shared_section_header_and_sequence() {
    let mut s = SharedFrame::create();
    assert_eq!(
        s.header_words(),
        [MAGIC, VERSION, 1280, 720, FORMAT_BGR24_BOTTOMUP, 0, DATA_LEN as u32, 0]
    );
    assert_eq!(MAGIC.to_le_bytes(), *b"TVC1");
    assert_eq!(HEADER_LEN, 32);
    assert_eq!(MAP_LEN, HEADER_LEN + DATA_LEN);
    assert!(s.accepts(&vec![0u8; DATA_LEN]));
    assert!(!s.accepts(&vec![0u8; 10]));
    assert_eq!(s.publish(), 1);
    assert_eq!(s.publish(), 2);
    assert_eq!(s.header_words()[5], 2);
    assert_eq!(FILTER_CLSID, "{6B1E2C9A-7F43-4E8B-9C2D-1A5E4F0D8B37}");
}

#[test]
fn v4l2_camera_opens_on_first_frame_and_reopens_after_stop() {
    let mut cam = VirtualCamera::new(CameraBackend::V4l2Loopback);
    assert!(!cam.is_open());
    let input = png(16, 9, [1, 2, 3]);
    let frame = match feed_jpeg_frame(&cam, &input) {
        FeedPlan::OpenThenWrite(f) => f,
        _ => panic!("expected open"),
    };
    assert_eq!(frame.len(), DATA_LEN);
    assert_eq!(&frame[0..3], &[1, 2, 3]);
    cam.device_opened();
    assert!(cam.is_open());
    assert_eq!(cam.write_step(&frame), WriteStep::WriteAll);
    assert_eq!(cam.write_step(&frame[1..]), WriteStep::Reject);
    assert!(matches!(feed_jpeg_frame(&cam, &input), FeedPlan::Write(_)));
    stop(&mut cam);
    assert!(!cam.is_open());
    assert!(matches!(feed_jpeg_frame(&cam, &input), FeedPlan::OpenThenWrite(_)));
    stop(&mut cam);
    assert!(!cam.is_open());
}

#[test]
fn undecodable_frame_is_dropped() {
    let cam = VirtualCamera::new(CameraBackend::SharedMemory);
    assert!(matches!(feed_jpeg_frame(&cam, b"not a picture"), FeedPlan::Drop(_)));
}

#[test]
fn shared_memory_camera_publishes_bgr_bottom_up() {
    let mut cam = VirtualCamera::new(CameraBackend::SharedMemory);
    assert_eq!(cam.backend(), CameraBackend::SharedMemory);
    let input = png(16, 9, [10, 20, 30]);
    let frame = match feed_jpeg_frame(&cam, &input) {
        FeedPlan::OpenThenWrite(f) => f,
        _ => panic!("expected open"),
    };
    assert_eq!(&frame[0..3], &[30, 20, 10]);
    cam.device_opened();
    assert_eq!(cam.header_words()[5], 0);
    assert_eq!(cam.write_step(&frame), WriteStep::CopyToSection);
    assert_eq!(cam.write_step(&[]), WriteStep::Reject);
    assert_eq!(cam.publish(), 1);
    assert_eq!(cam.publish(), 2);
    assert_eq!(cam.header_words()[5], 2);
    stop(&mut cam);
    cam.device_opened();
    assert_eq!(cam.header_words()[5], 0);
}

#[test]
fn filter_registration_steps() {
    let (reg, step) = ensure_registered(true);
    assert!(matches!(step, SetupStep::Done(Ok(()))));
    assert_eq!(reg.stage(), RegisterStage::Over);

    let (mut reg, step) = ensure_registered(false);
    assert!(matches!(step, SetupStep::Locate));
    match reg.located(Some("C:\\app\\tether_vcam.dll".to_string())) {
        SetupStep::Run(cmd) => {
            assert_eq!(cmd.program, "regsvr32");
            assert_eq!(cmd.args, vec!["/s".to_string(), "C:\\app\\tether_vcam.dll".to_string()]);
            assert!(cmd.elevated);
        }
        _ => panic!("expected regsvr32"),
    }
    let ok = ExitReport { success: true, code: Some(0), stderr: vec![] };
    assert!(reg.finished(&ok).is_ok());

    let (mut reg, _) = ensure_registered(false);
    assert!(matches!(reg.located(None), SetupStep::Done(Err(_))));

    let (mut reg, _) = ensure_registered(false);
    let _ = reg.located(Some("x.dll".to_string()));
    let failed = ExitReport { success: false, code: Some(3), stderr: vec![] };
    assert!(matches!(reg.finished(&failed), Err(virtual_devices::setup::SetupError::Exit(Some(3)))));
}
