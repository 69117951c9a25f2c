//! Virtual camera: webcam frames, already compressed, become fixed-size raw
//! frames for an OS virtual camera device.

use vstd::prelude::*;

use image::{DynamicImage, ImageError};

use self::linux::accepts_frame;
use self::windows::{
    header_words_for, is_bgr_bottom_up_of, next_sequence, rgb_top_down_to_bgr_bottom_up,
    SharedFrame,
};
use self::decode::{
    decoded_size, dimensions, image_size, load_from_memory, resize, resized_image, rgb8_pixels,
    to_rgb8,
};

pub mod decode;
pub mod linux;
pub mod windows;

pub use self::windows::ensure_registered;

verus! {

/// Width of every frame published to the virtual device.
pub const FRAME_W: u32 = 1280;
/// Height of every frame published to the virtual device.
pub const FRAME_H: u32 = 720;
/// Bytes per pixel of the published frames (three 8-bit channels).
pub const BPP: u32 = 3;
/// Bytes in one row of a published frame.
pub const ROW_LEN: usize = 3840;
/// Bytes in one published frame: `FRAME_W * FRAME_H * BPP`.
pub const DATA_LEN: usize = 2764800;

/// Byte offset of channel `c` of pixel `(x, y)` in a frame of
/// `FRAME_W x FRAME_H` pixels, rows stored one after another.
pub open spec fn frame_offset(x: int, y: int, c: int) -> int {
    y * (ROW_LEN as int) + x * (BPP as int) + c
}

/// `(x, y, c)` names a channel of a pixel inside the frame.
pub open spec fn in_frame(x: int, y: int, c: int) -> bool {
    0 <= x < FRAME_W && 0 <= y < FRAME_H && 0 <= c < BPP
}

/// The frame constants agree with one another.
pub proof fn lemma_frame_constants()
    ensures
        ROW_LEN == FRAME_W * BPP,
        DATA_LEN == ROW_LEN * FRAME_H,
{
}

/// Every byte of a frame is a channel of exactly one pixel.
pub proof fn lemma_frame_offset_cover(i: int)
    requires
        0 <= i < DATA_LEN,
    ensures
        in_frame((i % (ROW_LEN as int)) / 3, i / (ROW_LEN as int), (i % (ROW_LEN as int)) % 3),
        i == frame_offset((i % (ROW_LEN as int)) / 3, i / (ROW_LEN as int), (i % (ROW_LEN as int)) % 3),
{
    let row: int = i / (ROW_LEN as int);
    let r: int = i % (ROW_LEN as int);
    assert(i == row * 3840 + r && 0 <= r < 3840) by (nonlinear_arith)
        requires row == i / 3840, r == i % 3840, 0 <= i;
    assert(0 <= row < 720) by (nonlinear_arith)
        requires row == i / 3840, 0 <= i < 2764800;
    assert(r == (r / 3) * 3 + r % 3 && 0 <= r % 3 < 3 && 0 <= r / 3 < 1280) by (nonlinear_arith)
        requires 0 <= r < 3840;
}

/// Left edge of a `w`-pixel-wide image centred horizontally on the frame.
pub open spec fn letterbox_left(w: int) -> int {
    (FRAME_W - w) / 2
}

/// Top edge of an `h`-pixel-high image centred vertically on the frame.
pub open spec fn letterbox_top(h: int) -> int {
    (FRAME_H - h) / 2
}

/// Channel `c` of frame pixel `(x, y)` when the `w x h` RGB image `img`
/// (rows top-down, three bytes per pixel) is centred on a black frame.
pub open spec fn letterbox_channel(img: Seq<u8>, w: int, h: int, x: int, y: int, c: int) -> u8 {
    let ox: int = letterbox_left(w);
    let oy: int = letterbox_top(h);
    if ox <= x < ox + w && oy <= y < oy + h {
        img[((y - oy) * w + (x - ox)) * 3 + c]
    } else {
        0
    }
}

/// `out` is the RGB top-down frame holding `img` (`w x h` pixels) centred on
/// black.
pub open spec fn is_letterboxed(out: Seq<u8>, img: Seq<u8>, w: int, h: int) -> bool {
    &&& out.len() == DATA_LEN
    &&& forall|x: int, y: int, c: int|
        in_frame(x, y, c) ==> #[trigger] out[frame_offset(x, y, c)] == letterbox_channel(
            img,
            w,
            h,
            x,
            y,
            c,
        )
}

/// Place the `width x height` RGB image `scaled` in the middle of a black
/// `FRAME_W x FRAME_H` RGB frame. Pixels of the image that do not fall in the
/// middle are never needed: the image fits inside the frame.
pub fn letterbox_frame(scaled: &[u8], width: u32, height: u32) -> (out: Vec<u8>)
    requires
        width <= FRAME_W,
        height <= FRAME_H,
        scaled@.len() >= width * height * 3,
    ensures
        is_letterboxed(out@, scaled@, width as int, height as int),
{
    let mut out: Vec<u8> = vec![0u8; DATA_LEN];
    proof {
        assert forall|i: int| 0 <= i < DATA_LEN implies out@[i] == 0u8 by {
            assert(vstd::pervasive::cloned(0u8, out@[i]));
        }
    }
    let w: usize = width as usize;
    let h: usize = height as usize;
    let ox: usize = (1280 - w) / 2;
    let oy: usize = (720 - h) / 2;
    let ghost img = scaled@;
    let mut yy: usize = 0;
    let mut src: usize = 0;
    while yy < h
        invariant
            w == width,
            h == height,
            w <= FRAME_W,
            h <= FRAME_H,
            ox == letterbox_left(w as int),
            oy == letterbox_top(h as int),
            img == scaled@,
            img.len() >= w * h * 3,
            yy <= h,
            src == yy * w * 3,
            out@.len() == DATA_LEN,
            forall|x: int, y: int, c: int|
                in_frame(x, y, c) ==> #[trigger] out@[frame_offset(x, y, c)] == (if ox <= x < ox
                    + w && oy <= y < oy + yy {
                    img[((y - oy) * w + (x - ox)) * 3 + c]
                } else {
                    0u8
                }),
        decreases h - yy,
    {
        proof {
            assert(yy * w * 3 + w * 3 <= h * w * 3) by (nonlinear_arith)
                requires
                    yy < h,
            ;
        }
        let mut xx: usize = 0;
        while xx < w
            invariant
                w == width,
                h == height,
                w <= FRAME_W,
                h <= FRAME_H,
                ox == letterbox_left(w as int),
                oy == letterbox_top(h as int),
                img == scaled@,
                img.len() >= w * h * 3,
                yy < h,
                xx <= w,
                src == (yy * w + xx) * 3,
                yy * w * 3 + w * 3 <= h * w * 3,
                out@.len() == DATA_LEN,
                forall|x: int, y: int, c: int|
                    in_frame(x, y, c) ==> #[trigger] out@[frame_offset(x, y, c)] == (if ox <= x
                        < ox + w && oy <= y && (y < oy + yy || (y == oy + yy && x < ox + xx)) {
                        img[((y - oy) * w + (x - ox)) * 3 + c]
                    } else {
                        0u8
                    }),
            decreases w - xx,
        {
            proof {
                assert((yy * w + xx) * 3 + 3 <= yy * w * 3 + w * 3) by (nonlinear_arith)
                    requires
                        xx < w,
                ;
            }
            let d: usize = (oy + yy) * ROW_LEN + (ox + xx) * 3;
            let r: u8 = scaled[src];
            let g: u8 = scaled[src + 1];
            let b: u8 = scaled[src + 2];
            out.set(d, r);
            out.set(d + 1, g);
            out.set(d + 2, b);
            proof {
                assert(frame_offset((ox + xx) as int, (oy + yy) as int, 0) == d);
            }
            src = src + 3;
            xx = xx + 1;
        }
        proof {
            assert((yy * w + w) * 3 == (yy + 1) * w * 3) by (nonlinear_arith);
        }
        yy = yy + 1;
    }
    out
}

/// A letterboxed frame is determined by the image it holds: two frames
/// holding the same image are the same bytes.
pub proof fn lemma_letterbox_unique(out1: Seq<u8>, out2: Seq<u8>, img: Seq<u8>, w: int, h: int)
    requires
        is_letterboxed(out1, img, w, h),
        is_letterboxed(out2, img, w, h),
    ensures
        out1 == out2,
{
    assert forall|i: int| 0 <= i < DATA_LEN implies out1[i] == out2[i] by {
        lemma_frame_offset_cover(i);
        let x: int = (i % (ROW_LEN as int)) / 3;
        let y: int = i / (ROW_LEN as int);
        let c: int = (i % (ROW_LEN as int)) % 3;
        assert(out1[frame_offset(x, y, c)] == out2[frame_offset(x, y, c)]);
    }
    assert(out1 =~= out2);
}

/// An image that already has the frame's size fills the whole frame: the
/// letterboxed frame is the image itself, with no black border.
pub proof fn lemma_letterbox_full_size(out: Seq<u8>, img: Seq<u8>)
    requires
        img.len() == DATA_LEN,
        is_letterboxed(out, img, FRAME_W as int, FRAME_H as int),
    ensures
        out == img,
{
    assert forall|i: int| 0 <= i < DATA_LEN implies out[i] == img[i] by {
        lemma_frame_offset_cover(i);
        let x: int = (i % (ROW_LEN as int)) / 3;
        let y: int = i / (ROW_LEN as int);
        let c: int = (i % (ROW_LEN as int)) % 3;
        assert(out[frame_offset(x, y, c)] == letterbox_channel(img, FRAME_W as int, FRAME_H as int, x, y, c));
        assert((y * 1280 + x) * 3 + c == frame_offset(x, y, c));
    }
    assert(out =~= img);
}

/// Black border pixels: outside the centred image every channel is 0.
pub proof fn lemma_letterbox_border_black(out: Seq<u8>, img: Seq<u8>, w: int, h: int, x: int, y: int, c: int)
    requires
        is_letterboxed(out, img, w, h),
        in_frame(x, y, c),
        !(letterbox_left(w) <= x < letterbox_left(w) + w && letterbox_top(h) <= y < letterbox_top(h) + h),
    ensures
        out[frame_offset(x, y, c)] == 0,
{
}

/// Law: the image stands upright in the middle of the frame. For any
/// `w x h` image that fits, the frame pixel `(x, y)` inside the centred box
/// (left edge `(1280 - w) / 2`, top edge `(720 - h) / 2`) holds the image
/// pixel at row `y - top`, column `x - left`, channels in the same order:
/// the top row of the box is the top row of the image.
pub proof fn lemma_letterbox_upright(out: Seq<u8>, img: Seq<u8>, w: int, h: int, x: int, y: int, c: int)
    requires
        0 <= w <= 1280,
        0 <= h <= 720,
        is_letterboxed(out, img, w, h),
        (1280 - w) / 2 <= x < (1280 - w) / 2 + w,
        (720 - h) / 2 <= y < (720 - h) / 2 + h,
        0 <= c < 3,
    ensures
        out[y * 3840 + x * 3 + c] == img[((y - (720 - h) / 2) * w + (x - (1280 - w) / 2)) * 3 + c],
{
    assert(in_frame(x, y, c));
    assert(out[frame_offset(x, y, c)] == letterbox_channel(img, w, h, x, y, c));
}

/// Law: outside the centred box every byte of the frame is black (0).
pub proof fn lemma_letterbox_outside_black(out: Seq<u8>, img: Seq<u8>, w: int, h: int, x: int, y: int, c: int)
    requires
        0 <= w <= 1280,
        0 <= h <= 720,
        is_letterboxed(out, img, w, h),
        0 <= x < 1280,
        0 <= y < 720,
        0 <= c < 3,
        !((1280 - w) / 2 <= x < (1280 - w) / 2 + w && (720 - h) / 2 <= y < (720 - h) / 2 + h),
    ensures
        out[y * 3840 + x * 3 + c] == 0,
        out.len() == 2764800,
{
    assert(in_frame(x, y, c));
    assert(out[frame_offset(x, y, c)] == letterbox_channel(img, w, h, x, y, c));
}

/// Why an incoming camera frame was not turned into a device frame.
#[derive(Debug)]
pub enum FrameError {
    /// The bytes are not a picture the `image` crate can decode.
    Decode(ImageError),
    /// The picture decoded to zero pixels in some direction.
    EmptyFrame,
}

/// A `w x h` picture fits the frame and fills it in one direction: it is
/// at least one pixel each way, at most the frame's size, and as wide or as
/// high as the frame.
pub open spec fn fits_frame(w: u32, h: u32) -> bool {
    &&& 1 <= w <= FRAME_W
    &&& 1 <= h <= FRAME_H
    &&& (w == FRAME_W || h == FRAME_H)
}

/// `out` is the RGB top-down frame made from the picture `img`: `img`
/// scaled with the triangle filter to fit the frame, converted to RGB and
/// centred on black.
pub open spec fn is_frame_from(out: Seq<u8>, img: DynamicImage) -> bool {
    let scaled = resized_image(img, FRAME_W, FRAME_H);
    let (w, h): (u32, u32) = image_size(scaled);
    &&& fits_frame(w, h)
    &&& image_size(img) == (FRAME_W, FRAME_H) ==> scaled == img
    &&& rgb8_pixels(scaled).len() == w * h * 3
    &&& is_letterboxed(out, rgb8_pixels(scaled), w as int, h as int)
}

/// A picture that already has the frame's size goes through unchanged: the
/// frame is its RGB pixels, with no scaling and no border.
pub proof fn lemma_full_size_picture_unchanged(out: Seq<u8>, jpeg: Seq<u8>)
    requires
        is_frame_of(out, jpeg),
        decoded_size(jpeg) == Some((FRAME_W, FRAME_H)),
    ensures
        exists|img: DynamicImage| #[trigger] image_size(img) == (FRAME_W, FRAME_H) && out == rgb8_pixels(img),
{
    let img = choose|img: DynamicImage|
        #[trigger] image_size(img) == decoded_size(jpeg).unwrap() && is_frame_from(out, img);
    assert(resized_image(img, FRAME_W, FRAME_H) == img);
    let (w, h): (u32, u32) = image_size(img);
    assert(w == 1280 && h == 720);
    assert(rgb8_pixels(img).len() == w * h * 3);
    assert(w * h * 3 == 2764800) by (nonlinear_arith)
        requires
            w == 1280,
            h == 720,
    ;
    lemma_letterbox_full_size(out, rgb8_pixels(img));
}

/// The picture in `jpeg` decodes to a non-empty image.
pub open spec fn frame_decodes(jpeg: Seq<u8>) -> bool {
    &&& decoded_size(jpeg) matches Some((w, h))
    &&& w != 0
    &&& h != 0
}

/// What `jpeg_to_rgb_top_down` gives for `jpeg` when it succeeds: the frame
/// made from some picture of the decoded size. (Which picture is not fixed
/// by the bytes: decoders may round differently from one machine to
/// another.)
pub open spec fn is_frame_of(out: Seq<u8>, jpeg: Seq<u8>) -> bool {
    &&& frame_decodes(jpeg)
    &&& exists|img: DynamicImage|
        #[trigger] image_size(img) == decoded_size(jpeg).unwrap() && is_frame_from(out, img)
}

/// Decode `jpeg`, scale it keeping its aspect ratio to fit `FRAME_W x
/// FRAME_H`, centre it on black, and return the RGB24 top-down frame of
/// exactly `DATA_LEN` bytes.
pub fn jpeg_to_rgb_top_down(jpeg: &[u8]) -> (r: Result<Vec<u8>, FrameError>)
    ensures
        match decoded_size(jpeg@) {
            None => r matches Err(FrameError::Decode(_)),
            Some((w, h)) => if w == 0 || h == 0 {
                r matches Err(FrameError::EmptyFrame)
            } else {
                r matches Ok(out) && is_frame_of(out@, jpeg@)
            },
        },
{
    let img = match load_from_memory(jpeg) {
        Ok(img) => img,
        Err(e) => return Err(FrameError::Decode(e)),
    };
    let (sw, sh): (u32, u32) = dimensions(&img);
    if sw == 0 || sh == 0 {
        return Err(FrameError::EmptyFrame);
    }
    let scaled = resize(&img, FRAME_W, FRAME_H);
    let (rw, rh): (u32, u32) = dimensions(&scaled);
    let pixels = to_rgb8(&scaled);
    let out = letterbox_frame(&pixels, rw, rh);
    assert(image_size(img) == decoded_size(jpeg@).unwrap() && is_frame_from(out@, img));
    Ok(out)
}

/// `out` is the frame made from the picture `img` in the shared-memory
/// layout: the letterboxed RGB frame with its rows bottom-up and its
/// channels as BGR.
pub open spec fn is_shared_frame_from(out: Seq<u8>, img: DynamicImage) -> bool {
    let scaled = resized_image(img, FRAME_W, FRAME_H);
    let px = rgb8_pixels(scaled);
    let (w, h): (u32, u32) = image_size(scaled);
    &&& fits_frame(w, h)
    &&& image_size(img) == (FRAME_W, FRAME_H) ==> scaled == img
    &&& px.len() == w * h * 3
    &&& out.len() == DATA_LEN
    &&& forall|x: int, y: int, c: int|
        in_frame(x, y, c) ==> #[trigger] out[frame_offset(x, y, c)] == letterbox_channel(
            px,
            w as int,
            h as int,
            x,
            FRAME_H - 1 - y,
            2 - c,
        )
}

/// `out` is the frame for `jpeg` in the shared-memory layout, made from
/// some picture of the decoded size.
pub open spec fn is_shared_frame_of(out: Seq<u8>, jpeg: Seq<u8>) -> bool {
    &&& frame_decodes(jpeg)
    &&& exists|img: DynamicImage|
        #[trigger] image_size(img) == decoded_size(jpeg).unwrap() && is_shared_frame_from(out, img)
}

/// A channel's offset in the frame gives back its pixel and channel.
pub proof fn lemma_frame_offset_unique(x: int, y: int, c: int)
    requires
        in_frame(x, y, c),
    ensures
        (frame_offset(x, y, c) % (ROW_LEN as int)) / 3 == x,
        frame_offset(x, y, c) / (ROW_LEN as int) == y,
        (frame_offset(x, y, c) % (ROW_LEN as int)) % 3 == c,
        0 <= frame_offset(x, y, c) < DATA_LEN,
{
    let i: int = frame_offset(x, y, c);
    assert(i == y * 3840 + (x * 3 + c) && 0 <= x * 3 + c < 3840);
    assert(i / 3840 == y && i % 3840 == x * 3 + c) by (nonlinear_arith)
        requires
            i == y * 3840 + (x * 3 + c),
            0 <= x * 3 + c < 3840,
            0 <= y,
    ;
    assert((x * 3 + c) / 3 == x && (x * 3 + c) % 3 == c) by (nonlinear_arith)
        requires
            0 <= c < 3,
            0 <= x,
    ;
}

/// Law: the frame written to the shared section is the RGB frame of the
/// same picture converted by `rgb_top_down_to_bgr_bottom_up`: rows in
/// reverse order, channels reversed.
pub proof fn lemma_shared_frame_is_converted(out: Seq<u8>, jpeg: Seq<u8>)
    requires
        is_shared_frame_of(out, jpeg),
    ensures
        exists|rgb: Seq<u8>| #[trigger] is_frame_of(rgb, jpeg) && is_bgr_bottom_up_of(out, rgb),
{
    let img = choose|img: DynamicImage|
        #[trigger] image_size(img) == decoded_size(jpeg).unwrap() && is_shared_frame_from(out, img);
    let scaled = resized_image(img, FRAME_W, FRAME_H);
    let px = rgb8_pixels(scaled);
    let (w, h): (u32, u32) = image_size(scaled);
    let rgb = Seq::new(
        DATA_LEN as nat,
        |i: int|
            out[frame_offset(
                (i % (ROW_LEN as int)) / 3,
                FRAME_H - 1 - i / (ROW_LEN as int),
                2 - (i % (ROW_LEN as int)) % 3,
            )],
    );
    assert forall|x: int, y: int, c: int| in_frame(x, y, c) implies #[trigger] rgb[frame_offset(x, y, c)]
        == letterbox_channel(px, w as int, h as int, x, y, c) by {
        lemma_frame_offset_unique(x, y, c);
        assert(in_frame(x, FRAME_H - 1 - y, 2 - c));
        assert(out[frame_offset(x, FRAME_H - 1 - y, 2 - c)] == letterbox_channel(
            px,
            w as int,
            h as int,
            x,
            FRAME_H - 1 - (FRAME_H - 1 - y),
            2 - (2 - c),
        ));
    }
    assert(is_frame_from(rgb, img));
    assert forall|x: int, y: int, c: int| in_frame(x, y, c) implies #[trigger] out[frame_offset(x, y, c)]
        == rgb[frame_offset(x, FRAME_H - 1 - y, 2 - c)] by {
        assert(in_frame(x, FRAME_H - 1 - y, 2 - c));
        lemma_frame_offset_unique(x, FRAME_H - 1 - y, 2 - c);
    }
    assert(is_bgr_bottom_up_of(out, rgb));
    assert(is_frame_of(rgb, jpeg));
}

/// How the platform's virtual camera device takes frames.
#[derive(Clone, Copy, Debug, PartialEq, Eq, Structural)]
pub enum CameraBackend {
    /// A v4l2loopback node written with RGB24 top-down frames (Linux).
    V4l2Loopback,
    /// A named shared-memory section holding one BGR24 bottom-up frame,
    /// read by a DirectShow filter (Windows).
    SharedMemory,
}

/// `out` is the frame for `jpeg` in the layout `backend` takes.
pub open spec fn is_device_frame_of(backend: CameraBackend, out: Seq<u8>, jpeg: Seq<u8>) -> bool {
    match backend {
        CameraBackend::V4l2Loopback => is_frame_of(out, jpeg),
        CameraBackend::SharedMemory => is_shared_frame_of(out, jpeg),
    }
}

/// The open device, as far as the camera's decisions depend on it.
enum CameraSink {
    V4l2,
    Shared(SharedFrame),
}

/// The virtual camera's state: which backend the platform has and whether
/// its device is open. The device is opened on the first frame and closed
/// by `stop`.
pub struct VirtualCamera {
    backend: CameraBackend,
    sink: Option<CameraSink>,
}

/// What to do with an incoming frame.
pub enum FeedPlan {
    /// Nothing: the frame did not decode.
    Drop(FrameError),
    /// Open the device, then write this frame to it. If opening fails the
    /// frame is dropped and the camera stays closed.
    OpenThenWrite(Vec<u8>),
    /// Write this frame to the open device.
    Write(Vec<u8>),
}

/// How to write a frame to the open device.
#[derive(Clone, Copy, Debug, PartialEq, Eq, Structural)]
pub enum WriteStep {
    /// Not a whole frame: nothing is written.
    Reject,
    /// Write all bytes of the frame to the v4l2loopback node.
    WriteAll,
    /// Take the section's lock, copy the frame after the header, then call
    /// `publish` and store the sequence number it returns in the header.
    CopyToSection,
}

impl VirtualCamera {
    #[verifier::type_invariant]
    spec fn inv(self) -> bool {
        match self.sink {
            Some(CameraSink::V4l2) => self.backend == CameraBackend::V4l2Loopback,
            Some(CameraSink::Shared(_)) => self.backend == CameraBackend::SharedMemory,
            None => true,
        }
    }

    /// The backend this camera drives.
    pub closed spec fn backend_spec(&self) -> CameraBackend {
        self.backend
    }

    /// The device is open.
    pub closed spec fn open(&self) -> bool {
        self.sink is Some
    }

    /// Sequence number of the last frame published into the shared section
    /// (0 when none is open).
    pub closed spec fn sequence(&self) -> u32 {
        match self.sink {
            Some(CameraSink::Shared(frame)) => frame.sequence(),
            _ => 0,
        }
    }

    /// A camera for `backend`, device not yet open.
    pub fn new(backend: CameraBackend) -> (r: VirtualCamera)
        ensures
            r.backend_spec() == backend,
            !r.open(),
    {
        VirtualCamera { backend, sink: None }
    }

    /// The backend this camera drives.
    pub fn backend(&self) -> (r: CameraBackend)
        ensures
            r == self.backend_spec(),
    {
        self.backend
    }

    /// Whether the device is open.
    pub fn is_open(&self) -> (r: bool)
        ensures
            r == self.open(),
    {
        self.sink.is_some()
    }

    /// The device was opened: for the shared section, a fresh section whose
    /// sequence starts at 0.
    pub fn device_opened(&mut self)
        requires
            !old(self).open(),
        ensures
            final(self).open(),
            final(self).backend_spec() == old(self).backend_spec(),
            final(self).sequence() == 0,
    {
        let sink = match self.backend {
            CameraBackend::V4l2Loopback => CameraSink::V4l2,
            CameraBackend::SharedMemory => CameraSink::Shared(SharedFrame::create()),
        };
        self.sink = Some(sink);
    }

    /// The header words to store when the shared section is created or a
    /// frame is published.
    pub fn header_words(&self) -> (r: [u32; 8])
        requires
            self.open(),
            self.backend_spec() == CameraBackend::SharedMemory,
        ensures
            r@ == header_words_for(self.sequence()),
    {
        proof {
            use_type_invariant(self);
        }
        match &self.sink {
            Some(CameraSink::Shared(frame)) => frame.header_words(),
            _ => {
                assert(false);
                [0u32; 8]
            },
        }
    }

    /// How to write `frame` to the open device: whole frames only.
    pub fn write_step(&self, frame: &[u8]) -> (r: WriteStep)
        requires
            self.open(),
        ensures
            frame@.len() != DATA_LEN ==> r == WriteStep::Reject,
            frame@.len() == DATA_LEN && self.backend_spec() == CameraBackend::V4l2Loopback ==> r
                == WriteStep::WriteAll,
            frame@.len() == DATA_LEN && self.backend_spec() == CameraBackend::SharedMemory ==> r
                == WriteStep::CopyToSection,
    {
        proof {
            use_type_invariant(self);
        }
        match &self.sink {
            Some(CameraSink::Shared(section)) => if section.accepts(frame) {
                WriteStep::CopyToSection
            } else {
                WriteStep::Reject
            },
            _ => if accepts_frame(frame) {
                WriteStep::WriteAll
            } else {
                WriteStep::Reject
            },
        }
    }

    /// A frame has been copied into the shared section: move the sequence on
    /// and return it, to be stored in the header.
    pub fn publish(&mut self) -> (r: u32)
        requires
            old(self).open(),
            old(self).backend_spec() == CameraBackend::SharedMemory,
        ensures
            final(self).open(),
            final(self).backend_spec() == old(self).backend_spec(),
            final(self).sequence() == next_sequence(old(self).sequence()),
            r == final(self).sequence(),
    {
        proof {
            use_type_invariant(&*self);
        }
        let mut section = match &self.sink {
            Some(CameraSink::Shared(section)) => *section,
            _ => {
                assert(false);
                SharedFrame::create()
            },
        };
        let r: u32 = section.publish();
        self.sink = Some(CameraSink::Shared(section));
        r
    }
}

/// The three kinds of `FeedPlan`.
#[derive(Clone, Copy, Debug, PartialEq, Eq, Structural)]
pub enum PlanKind {
    Drop,
    OpenThenWrite,
    Write,
}

/// The kind of a plan.
pub open spec fn kind_of(plan: FeedPlan) -> PlanKind {
    match plan {
        FeedPlan::Drop(_) => PlanKind::Drop,
        FeedPlan::OpenThenWrite(_) => PlanKind::OpenThenWrite,
        FeedPlan::Write(_) => PlanKind::Write,
    }
}

/// The kind of plan `feed_jpeg_frame` makes for a frame that decodes or not,
/// on a camera that is open or not.
pub open spec fn plan_kind(open: bool, decodes: bool) -> PlanKind {
    if !decodes {
        PlanKind::Drop
    } else if open {
        PlanKind::Write
    } else {
        PlanKind::OpenThenWrite
    }
}

/// Whether the camera is open after a plan of kind `kind` was carried out,
/// when it was `open` before and every opening succeeds: `device_opened`
/// opens it, writing (`write_step`, `publish`) keeps it open, a dropped
/// frame changes nothing.
pub open spec fn open_after(open: bool, kind: PlanKind) -> bool {
    match kind {
        PlanKind::Drop => open,
        PlanKind::OpenThenWrite => true,
        PlanKind::Write => open,
    }
}

/// The plans made for a run of frames, with no `stop` in between, given for
/// each frame whether it decodes, starting from a camera that is `open` or
/// not, every opening succeeding.
pub open spec fn camera_run(open: bool, decodes: Seq<bool>) -> Seq<PlanKind>
    decreases decodes.len(),
{
    if decodes.len() == 0 {
        Seq::empty()
    } else {
        let kind = plan_kind(open, decodes[0]);
        seq![kind] + camera_run(open_after(open, kind), decodes.drop_first())
    }
}

/// On an open camera every decodable frame is written, with no opening.
proof fn lemma_open_run_writes(decodes: Seq<bool>)
    requires
        forall|i: int| 0 <= i < decodes.len() ==> #[trigger] decodes[i],
    ensures
        camera_run(true, decodes).len() == decodes.len(),
        forall|i: int| 0 <= i < decodes.len() ==> #[trigger] camera_run(true, decodes)[i] == PlanKind::Write,
    decreases decodes.len(),
{
    if decodes.len() > 0 {
        let rest = decodes.drop_first();
        assert forall|i: int| 0 <= i < rest.len() implies #[trigger] rest[i] by {
            assert(decodes[i + 1]);
        }
        lemma_open_run_writes(rest);
        let run = camera_run(true, decodes);
        assert(run == seq![PlanKind::Write] + camera_run(true, rest));
        assert forall|i: int| 0 <= i < decodes.len() implies #[trigger] run[i] == PlanKind::Write by {
            if i > 0 {
                assert(run[i] == camera_run(true, rest)[i - 1]);
            }
        }
    }
}

/// A run of decodable frames on a closed camera, with no `stop` in between
/// and the first opening succeeding, opens the device exactly once, for the
/// first frame, and writes every frame: the first is planned as
/// `OpenThenWrite`, every later one as `Write`.
pub proof fn lemma_run_opens_once(decodes: Seq<bool>)
    requires
        decodes.len() >= 1,
        forall|i: int| 0 <= i < decodes.len() ==> #[trigger] decodes[i],
    ensures
        camera_run(false, decodes).len() == decodes.len(),
        camera_run(false, decodes)[0] == PlanKind::OpenThenWrite,
        forall|i: int|
            1 <= i < decodes.len() ==> #[trigger] camera_run(false, decodes)[i] == PlanKind::Write,
{
    let rest = decodes.drop_first();
    assert(decodes[0]);
    assert forall|i: int| 0 <= i < rest.len() implies #[trigger] rest[i] by {
        assert(decodes[i + 1]);
    }
    lemma_open_run_writes(rest);
    let run = camera_run(false, decodes);
    assert(run == seq![PlanKind::OpenThenWrite] + camera_run(true, rest));
    assert forall|i: int| 1 <= i < decodes.len() implies #[trigger] run[i] == PlanKind::Write by {
        assert(run[i] == camera_run(true, rest)[i - 1]);
    }
}

/// A frame planned for the device is a whole frame, so the open device
/// takes it (`write_step` does not reject it).
pub proof fn lemma_device_frame_whole(backend: CameraBackend, out: Seq<u8>, jpeg: Seq<u8>)
    requires
        is_device_frame_of(backend, out, jpeg),
    ensures
        out.len() == DATA_LEN,
{
}

/// Decide what to do with one incoming webcam frame: decode and scale it to
/// the device's layout, and open the device first if it is not open yet.
pub fn feed_jpeg_frame(camera: &VirtualCamera, jpeg: &[u8]) -> (r: FeedPlan)
    ensures
        r is Drop <==> !frame_decodes(jpeg@),
        r matches FeedPlan::Drop(e) ==> (decoded_size(jpeg@) is None <==> e is Decode),
        r matches FeedPlan::OpenThenWrite(frame) ==> !camera.open() && is_device_frame_of(
            camera.backend_spec(),
            frame@,
            jpeg@,
        ),
        r matches FeedPlan::Write(frame) ==> camera.open() && is_device_frame_of(
            camera.backend_spec(),
            frame@,
            jpeg@,
        ),
        frame_decodes(jpeg@) ==> (r is OpenThenWrite <==> !camera.open()),
        kind_of(r) == plan_kind(camera.open(), frame_decodes(jpeg@)),
        camera.backend_spec() == CameraBackend::SharedMemory ==> (r matches FeedPlan::OpenThenWrite(f)
            ==> exists|rgb: Seq<u8>| #[trigger] is_frame_of(rgb, jpeg@) && is_bgr_bottom_up_of(f@, rgb)),
        camera.backend_spec() == CameraBackend::SharedMemory ==> (r matches FeedPlan::Write(f)
            ==> exists|rgb: Seq<u8>| #[trigger] is_frame_of(rgb, jpeg@) && is_bgr_bottom_up_of(f@, rgb)),
{
    let rgb = match jpeg_to_rgb_top_down(jpeg) {
        Ok(rgb) => rgb,
        Err(e) => return FeedPlan::Drop(e),
    };
    let frame = match camera.backend() {
        CameraBackend::V4l2Loopback => rgb,
        CameraBackend::SharedMemory => {
            let bgr = rgb_top_down_to_bgr_bottom_up(&rgb);
            proof {
                let img = choose|img: DynamicImage|
                    #[trigger] image_size(img) == decoded_size(jpeg@).unwrap() && is_frame_from(rgb@, img);
                let scaled = resized_image(img, FRAME_W, FRAME_H);
                let px = rgb8_pixels(scaled);
                let (w, h): (u32, u32) = image_size(scaled);
                assert forall|x: int, y: int, c: int| in_frame(x, y, c) implies #[trigger] bgr@[frame_offset(
                    x,
                    y,
                    c,
                )] == letterbox_channel(px, w as int, h as int, x, FRAME_H - 1 - y, 2 - c) by {
                    assert(in_frame(x, FRAME_H - 1 - y, 2 - c));
                    assert(rgb@[frame_offset(x, FRAME_H - 1 - y, 2 - c)] == letterbox_channel(px, w as int, h as int, x, FRAME_H - 1 - y, 2 - c));
                }
                assert(is_shared_frame_from(bgr@, img));
                assert(is_frame_of(rgb@, jpeg@) && is_bgr_bottom_up_of(bgr@, rgb@));
            }
            bgr
        },
    };
    if camera.is_open() {
        FeedPlan::Write(frame)
    } else {
        FeedPlan::OpenThenWrite(frame)
    }
}

/// Tear the camera down: the device is closed (the installed device stays);
/// the next frame opens it again.
pub fn stop(camera: &mut VirtualCamera)
    ensures
        !final(camera).open(),
        final(camera).backend_spec() == old(camera).backend_spec(),
{
    camera.sink = None;
}

} // verus!
