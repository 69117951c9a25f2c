//! The Linux side of the camera: RGB24 frames are written to a v4l2loopback
//! device that consumer apps see as a webcam named "Tether Camera".

use vstd::prelude::*;
use vstd::string::StringSliceAdditionalSpecFns;
use vstd::utf8::valid_utf8;

use super::{DATA_LEN, FRAME_H, FRAME_W, ROW_LEN};
use crate::bytes::{bytes_contain, contains_bytes, str_from_utf8};

verus! {

/// Preferred v4l2loopback device, pinned by the module options.
pub const PINNED_DEVICE: &'static str = "/dev/video63";
/// Card label that identifies the camera device.
pub const CARD_MATCH: &'static str = "Tether Camera";

/// `V4L2_BUF_TYPE_VIDEO_OUTPUT`.
pub const V4L2_BUF_TYPE_VIDEO_OUTPUT: u32 = 2;
/// `V4L2_FIELD_NONE`.
pub const V4L2_FIELD_NONE: u32 = 1;
/// `V4L2_COLORSPACE_SRGB`.
pub const V4L2_COLORSPACE_SRGB: u32 = 8;
/// `V4L2_PIX_FMT_RGB24`: the fourcc "RGB3".
pub const V4L2_PIX_FMT_RGB24: u32 = 0x3342_4752;

/// A V4L2 fourcc: four characters packed little-endian into a word.
pub open spec fn fourcc(a: u8, b: u8, c: u8, d: u8) -> int {
    a + b * 0x100 + c * 0x1_0000 + d * 0x100_0000
}

/// `V4L2_PIX_FMT_RGB24` is the fourcc of the characters 'R', 'G', 'B', '3'.
pub proof fn lemma_rgb24_fourcc()
    ensures
        V4L2_PIX_FMT_RGB24 == fourcc(82u8, 71u8, 66u8, 51u8),
{
}

/// The pixel part of `struct v4l2_format` (`struct v4l2_pix_format`).
#[derive(Clone, Copy, Debug, PartialEq, Eq, Structural)]
pub struct V4l2PixFormat {
    pub width: u32,
    pub height: u32,
    pub pixelformat: u32,
    pub field: u32,
    pub bytesperline: u32,
    pub sizeimage: u32,
    pub colorspace: u32,
    pub priv_: u32,
    pub flags: u32,
    pub ycbcr_enc: u32,
    pub quantization: u32,
    pub xfer_func: u32,
}

/// `struct v4l2_format` with its pixel variant; the remaining bytes of the
/// kernel's union are zero.
#[derive(Clone, Copy, Debug, PartialEq, Eq, Structural)]
pub struct V4l2Format {
    pub type_: u32,
    pub fmt_pix: V4l2PixFormat,
}

impl V4l2Format {
    /// The format set on the device: video output of `FRAME_W x FRAME_H`
    /// RGB24 progressive frames in sRGB, rows packed; every other field
    /// zero, so the driver picks its defaults.
    pub fn new_output_rgb24() -> (r: V4l2Format)
        ensures
            r.type_ == V4L2_BUF_TYPE_VIDEO_OUTPUT,
            r.fmt_pix.width == FRAME_W,
            r.fmt_pix.height == FRAME_H,
            r.fmt_pix.pixelformat == V4L2_PIX_FMT_RGB24,
            r.fmt_pix.field == V4L2_FIELD_NONE,
            r.fmt_pix.bytesperline == ROW_LEN,
            r.fmt_pix.sizeimage == DATA_LEN,
            r.fmt_pix.colorspace == V4L2_COLORSPACE_SRGB,
            r.fmt_pix.priv_ == 0,
            r.fmt_pix.flags == 0,
            r.fmt_pix.ycbcr_enc == 0,
            r.fmt_pix.quantization == 0,
            r.fmt_pix.xfer_func == 0,
    {
        V4l2Format {
            type_: V4L2_BUF_TYPE_VIDEO_OUTPUT,
            fmt_pix: V4l2PixFormat {
                width: FRAME_W,
                height: FRAME_H,
                pixelformat: V4L2_PIX_FMT_RGB24,
                field: V4L2_FIELD_NONE,
                bytesperline: 3840,
                sizeimage: 2764800,
                colorspace: V4L2_COLORSPACE_SRGB,
                priv_: 0,
                flags: 0,
                ycbcr_enc: 0,
                quantization: 0,
                xfer_func: 0,
            },
        }
    }
}

/// The card label of a `v4l2_capability.card` field: the bytes before the
/// first NUL, or all of them when there is none.
pub open spec fn card_label(card: Seq<u8>) -> Seq<u8>
    decreases card.len(),
{
    if card.len() == 0 || card[0] == 0 {
        Seq::empty()
    } else {
        seq![card[0]] + card_label(card.drop_first())
    }
}

/// The device's card label is text (UTF-8) and holds `want`.
pub open spec fn card_label_matches(card: Seq<u8>, want: Seq<u8>) -> bool {
    valid_utf8(card_label(card)) && contains_bytes(card_label(card), want)
}

/// Law: the label is exactly the bytes before the first NUL: if
/// `card[0..end]` holds no NUL and `end` is the field's end or a NUL, the
/// label is `card[0..end]`.
pub proof fn lemma_card_label_prefix(card: Seq<u8>, end: int)
    requires
        0 <= end <= card.len(),
        forall|k: int| 0 <= k < end ==> card[k] != 0,
        end == card.len() || card[end] == 0,
    ensures
        card_label(card) == card.subrange(0, end),
    decreases end,
{
    if end == 0 {
        assert(card.subrange(0, 0) =~= Seq::<u8>::empty());
    } else {
        let rest = card.drop_first();
        assert forall|k: int| 0 <= k < end - 1 implies rest[k] != 0 by {
            assert(rest[k] == card[k + 1]);
        }
        if end < card.len() {
            assert(rest[end - 1] == card[end]);
        }
        lemma_card_label_prefix(rest, end - 1);
        assert(card.subrange(0, end) =~= seq![card[0]] + rest.subrange(0, end - 1));
    }
}

/// Law: a card matches exactly when its label (the bytes before the first
/// NUL) is valid UTF-8 and holds the bytes of `want` at some offset.
pub proof fn lemma_card_match_meaning(card: Seq<u8>, want: Seq<u8>, end: int)
    requires
        0 <= end <= card.len(),
        forall|k: int| 0 <= k < end ==> card[k] != 0,
        end == card.len() || card[end] == 0,
    ensures
        card_label_matches(card, want) <==> (valid_utf8(card.subrange(0, end)) && exists|at: int|
            0 <= at && at + want.len() <= end && #[trigger] card.subrange(0, end).subrange(
                at,
                at + want.len(),
            ) == want),
{
    lemma_card_label_prefix(card, end);
    let label = card.subrange(0, end);
    if contains_bytes(label, want) {
        let at = choose|at: int| #[trigger] crate::bytes::occurs_at(label, want, at);
        assert(label.subrange(at, at + want.len()) == want);
    }
    if exists|at: int|
        0 <= at && at + want.len() <= end && #[trigger] label.subrange(at, at + want.len()) == want {
        let at = choose|at: int|
            0 <= at && at + want.len() <= end && #[trigger] label.subrange(at, at + want.len()) == want;
        assert(crate::bytes::occurs_at(label, want, at));
    }
}

/// Whether the `card` field that `VIDIOC_QUERYCAP` filled in names the
/// wanted device: the label up to the first NUL is UTF-8 text holding `want`.
pub fn card_matches(card: &[u8], want: &str) -> (r: bool)
    ensures
        r == card_label_matches(card@, want.spec_bytes()),
{
    let n: usize = card.len();
    let mut end: usize = 0;
    proof {
        assert(card@.skip(0) =~= card@);
    }
    while end < n && card[end] != 0
        invariant
            n == card@.len(),
            end <= n,
            card_label(card@) == card@.take(end as int) + card_label(card@.skip(end as int)),
        decreases n - end,
    {
        proof {
            let rest = card@.skip(end as int);
            assert(rest.drop_first() =~= card@.skip(end + 1));
            assert(card@.take(end + 1) =~= card@.take(end as int) + seq![card@[end as int]]);
        }
        end = end + 1;
    }
    proof {
        let rest = card@.skip(end as int);
        assert(rest.len() == 0 || rest[0] == 0);
        assert(card_label(rest) == Seq::<u8>::empty());
        assert(card@.take(end as int) + Seq::<u8>::empty() =~= card@.take(end as int));
    }
    let label = &card[0..end];
    assert(label@ =~= card_label(card@));
    match str_from_utf8(label) {
        Some(_) => bytes_contain(label, want.as_bytes()),
        None => false,
    }
}

/// The bytes of "video".
pub open spec fn video_prefix() -> Seq<u8> {
    seq![118u8, 105u8, 100u8, 101u8, 111u8]
}

/// A device node name that may be a video device: it starts with "video".
pub open spec fn is_video_name(name: Seq<u8>) -> bool {
    name.len() >= 5 && name.subrange(0, 5) == video_prefix()
}

/// Whether a `/dev` entry name starts with "video".
pub fn is_video_device_name(name: &str) -> (r: bool)
    ensures
        r == is_video_name(name.spec_bytes()),
{
    let b = name.as_bytes();
    let r = b.len() >= 5 && b[0] == 118u8 && b[1] == 105u8 && b[2] == 100u8 && b[3] == 101u8
        && b[4] == 111u8;
    proof {
        if b@.len() >= 5 {
            assert(r == (b@.subrange(0, 5) =~= video_prefix()));
        }
    }
    r
}

/// A `/dev` entry seen while looking for the camera device.
pub struct DeviceEntry {
    /// The entry's file name, when it is valid UTF-8.
    pub name: Option<String>,
    /// The `card` field of the device's capabilities, when the device could
    /// be opened and queried.
    pub card: Option<Vec<u8>>,
}

/// `entry` is a video device whose card label names the camera.
pub open spec fn entry_is_camera(entry: DeviceEntry) -> bool {
    &&& entry.name matches Some(name)
    &&& is_video_name(vstd::utf8::encode_utf8(name@))
    &&& entry.card matches Some(card)
    &&& card_label_matches(card@, CARD_MATCH.spec_bytes())
}

/// Law: an entry is the camera exactly when its name is UTF-8 text
/// starting with the bytes of "video", and its card label matches
/// "Tether Camera".
pub proof fn lemma_entry_is_camera_meaning(entry: DeviceEntry)
    ensures
        entry_is_camera(entry) <==> (entry.name is Some && entry.card is Some && {
            let name = vstd::utf8::encode_utf8(entry.name.unwrap()@);
            &&& name.len() >= 5
            &&& name[0] == 118u8 && name[1] == 105u8 && name[2] == 100u8 && name[3] == 101u8
                && name[4] == 111u8
            &&& card_label_matches(entry.card.unwrap()@, CARD_MATCH.spec_bytes())
        }),
{
    if entry.name is Some {
        let name = vstd::utf8::encode_utf8(entry.name.unwrap()@);
        if name.len() >= 5 {
            assert((name.subrange(0, 5) == video_prefix()) <==> (name[0] == 118u8 && name[1] == 105u8
                && name[2] == 100u8 && name[3] == 101u8 && name[4] == 111u8)) by {
                if name[0] == 118u8 && name[1] == 105u8 && name[2] == 100u8 && name[3] == 101u8
                    && name[4] == 111u8 {
                    assert(name.subrange(0, 5) =~= video_prefix());
                }
                if name.subrange(0, 5) == video_prefix() {
                    assert(name.subrange(0, 5)[0] == 118u8);
                    assert(name.subrange(0, 5)[1] == 105u8);
                    assert(name.subrange(0, 5)[2] == 100u8);
                    assert(name.subrange(0, 5)[3] == 101u8);
                    assert(name.subrange(0, 5)[4] == 111u8);
                }
            }
        }
    }
}

/// Which device node the camera uses.
#[derive(Clone, Copy, Debug, PartialEq, Eq, Structural)]
pub enum DeviceChoice {
    /// `PINNED_DEVICE`.
    Pinned,
    /// The `/dev` entry at this index.
    Scanned(usize),
}

/// No v4l2loopback device carries the camera's card label.
#[derive(Clone, Copy, Debug, PartialEq, Eq, Structural)]
pub enum LocateError {
    NoDevice,
}

/// Choose the camera device: the pinned node when it exists, else the first
/// `/dev` entry (in the order given) that is a video device labelled
/// `CARD_MATCH`.
pub fn locate_device(pinned_exists: bool, entries: &Vec<DeviceEntry>) -> (r: Result<
    DeviceChoice,
    LocateError,
>)
    ensures
        pinned_exists ==> r == Ok::<DeviceChoice, LocateError>(DeviceChoice::Pinned),
        !pinned_exists ==> match r {
            Ok(DeviceChoice::Scanned(i)) => i < entries@.len() && entry_is_camera(entries@[i as int])
                && forall|j: int| 0 <= j < i ==> !entry_is_camera(#[trigger] entries@[j]),
            Ok(DeviceChoice::Pinned) => false,
            Err(LocateError::NoDevice) => forall|j: int|
                0 <= j < entries@.len() ==> !entry_is_camera(#[trigger] entries@[j]),
        },
{
    if pinned_exists {
        return Ok(DeviceChoice::Pinned);
    }
    let mut i: usize = 0;
    while i < entries.len()
        invariant
            !pinned_exists,
            i <= entries@.len(),
            forall|j: int| 0 <= j < i ==> !entry_is_camera(#[trigger] entries@[j]),
        decreases entries@.len() - i,
    {
        let entry = &entries[i];
        let found = match &entry.name {
            Some(name) => if is_video_device_name(name.as_str()) {
                match &entry.card {
                    Some(card) => card_matches(card.as_slice(), CARD_MATCH),
                    None => false,
                }
            } else {
                false
            },
            None => false,
        };
        if found {
            return Ok(DeviceChoice::Scanned(i));
        }
        i = i + 1;
    }
    Err(LocateError::NoDevice)
}

/// Whether a frame can go to the device: it must be one whole RGB24 frame.
pub fn accepts_frame(rgb: &[u8]) -> (r: bool)
    ensures
        r == (rgb@.len() == DATA_LEN),
{
    rgb.len() == DATA_LEN
}

} // verus!
