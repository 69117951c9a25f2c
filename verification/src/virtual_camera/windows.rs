//! The Windows side of the camera: frames are published into a named
//! shared-memory section that a DirectShow source filter reads.

use vstd::prelude::*;

use crate::setup::{args_view, command, is_command, ExitReport, SetupError, SetupStep};

use super::{frame_offset, in_frame, lemma_frame_offset_cover, BPP, DATA_LEN, FRAME_H, FRAME_W, ROW_LEN};

verus! {

/// The frame the filter expects for an RGB top-down frame `rgb`: rows in
/// reverse order (bottom-up) and, in each pixel, the channels reversed (BGR).
pub open spec fn is_bgr_bottom_up_of(out: Seq<u8>, rgb: Seq<u8>) -> bool {
    &&& out.len() == DATA_LEN
    &&& forall|x: int, y: int, c: int|
        in_frame(x, y, c) ==> #[trigger] out[frame_offset(x, y, c)] == rgb[frame_offset(
            x,
            FRAME_H - 1 - y,
            2 - c,
        )]
}

/// Law: in the converted frame, pixel `(x, y)` is pixel `(x, 719 - y)` of the
/// RGB frame with its channels reversed: the bottom row of the picture is
/// stored first, and each pixel is stored blue, green, red.
pub proof fn lemma_bgr_bottom_up_pixel(out: Seq<u8>, rgb: Seq<u8>, x: int, y: int, c: int)
    requires
        is_bgr_bottom_up_of(out, rgb),
        0 <= x < 1280,
        0 <= y < 720,
        0 <= c < 3,
    ensures
        out[y * 3840 + x * 3 + c] == rgb[(719 - y) * 3840 + x * 3 + (2 - c)],
        out.len() == 2764800,
{
    assert(in_frame(x, y, c));
    assert(out[frame_offset(x, y, c)] == rgb[frame_offset(x, FRAME_H - 1 - y, 2 - c)]);
}

/// Converting a frame twice gives back the frame: flipping the rows and
/// reversing the channels are both their own inverse.
pub proof fn lemma_bgr_bottom_up_involution(rgb: Seq<u8>, once: Seq<u8>, twice: Seq<u8>)
    requires
        rgb.len() == DATA_LEN,
        is_bgr_bottom_up_of(once, rgb),
        is_bgr_bottom_up_of(twice, once),
    ensures
        twice == rgb,
{
    assert forall|i: int| 0 <= i < DATA_LEN implies twice[i] == rgb[i] by {
        lemma_frame_offset_cover(i);
        let x: int = (i % (ROW_LEN as int)) / 3;
        let y: int = i / (ROW_LEN as int);
        let c: int = (i % (ROW_LEN as int)) % 3;
        assert(twice[frame_offset(x, y, c)] == once[frame_offset(x, FRAME_H - 1 - y, 2 - c)]);
        assert(in_frame(x, FRAME_H - 1 - y, 2 - c));
    }
    assert(twice =~= rgb);
}

/// Convert an RGB24 top-down frame into the BGR24 bottom-up frame that the
/// filter copies straight into its output buffer.
pub fn rgb_top_down_to_bgr_bottom_up(rgb: &[u8]) -> (out: Vec<u8>)
    requires
        rgb@.len() >= DATA_LEN,
    ensures
        is_bgr_bottom_up_of(out@, rgb@),
{
    let mut out: Vec<u8> = vec![0u8; DATA_LEN];
    let h: usize = 720;
    let w: usize = 1280;
    let mut y: usize = 0;
    while y < h
        invariant
            h == FRAME_H,
            w == FRAME_W,
            y <= h,
            rgb@.len() >= DATA_LEN,
            out@.len() == DATA_LEN,
            forall|x: int, yd: int, c: int|
                in_frame(x, yd, c) && h - y <= yd ==> #[trigger] out@[frame_offset(x, yd, c)]
                    == rgb@[frame_offset(x, FRAME_H - 1 - yd, 2 - c)],
        decreases h - y,
    {
        let src_row: usize = y * ROW_LEN;
        let dst_y: usize = h - 1 - y;
        let dst_row: usize = dst_y * ROW_LEN;
        let mut x: usize = 0;
        while x < w
            invariant
                h == FRAME_H,
                w == FRAME_W,
                y < h,
                x <= w,
                dst_y == h - 1 - y,
                src_row == y * ROW_LEN,
                dst_row == dst_y * ROW_LEN,
                rgb@.len() >= DATA_LEN,
                out@.len() == DATA_LEN,
                forall|xx: int, yd: int, c: int|
                    in_frame(xx, yd, c) && (h - y <= yd || (yd == dst_y && xx < x))
                        ==> #[trigger] out@[frame_offset(xx, yd, c)] == rgb@[frame_offset(
                        xx,
                        FRAME_H - 1 - yd,
                        2 - c,
                    )],
            decreases w - x,
        {
            let s: usize = src_row + x * 3;
            let d: usize = dst_row + x * 3;
            let r: u8 = rgb[s];
            let g: u8 = rgb[s + 1];
            let b: u8 = rgb[s + 2];
            out.set(d, b);
            out.set(d + 1, g);
            out.set(d + 2, r);
            proof {
                assert(frame_offset(x as int, dst_y as int, 0) == d);
                assert(frame_offset(x as int, y as int, 2) == s + 2);
            }
            x = x + 1;
        }
        y = y + 1;
    }
    out
}

/// Bytes of the section header: eight 32-bit words.
pub const HEADER_LEN: usize = 32;
/// Bytes of the whole shared section: header, then one frame.
pub const MAP_LEN: usize = 2764832;
/// First header word, "TVC1".
pub const MAGIC: u32 = 0x3143_5654;
/// Layout version of the section.
pub const VERSION: u32 = 1;
/// Pixel format code for BGR24 rows stored bottom-up.
pub const FORMAT_BGR24_BOTTOMUP: u32 = 0;
/// Index of the sequence word in the header.
pub const SEQUENCE_WORD: usize = 5;
/// CLSID under which the DirectShow filter registers itself.
pub const FILTER_CLSID: &'static str = "{6B1E2C9A-7F43-4E8B-9C2D-1A5E4F0D8B37}";

/// The section sizes agree with the frame size.
pub proof fn lemma_section_layout()
    ensures
        MAP_LEN == HEADER_LEN + DATA_LEN,
        HEADER_LEN == 8 * 4,
{
}

/// The header words of a section whose last published frame carries
/// `sequence`.
pub open spec fn header_words_for(sequence: u32) -> Seq<u32> {
    seq![MAGIC, VERSION, FRAME_W, FRAME_H, FORMAT_BGR24_BOTTOMUP, sequence, DATA_LEN as u32, 0u32]
}

/// The writer's side of the shared frame section: the sequence number of the
/// last frame it published (0 before the first frame).
#[derive(Clone, Copy)]
pub struct SharedFrame {
    seq: u32,
}

impl SharedFrame {
    /// Sequence number of the last published frame.
    pub closed spec fn sequence(&self) -> u32 {
        self.seq
    }

    /// A freshly created section, before any frame: sequence 0.
    pub fn create() -> (r: SharedFrame)
        ensures
            r.sequence() == 0,
    {
        SharedFrame { seq: 0 }
    }

    /// The eight header words to store at the start of the section.
    pub fn header_words(&self) -> (r: [u32; 8])
        ensures
            r@ == header_words_for(self.sequence()),
    {
        let r: [u32; 8] = [MAGIC, VERSION, FRAME_W, FRAME_H, FORMAT_BGR24_BOTTOMUP, self.seq, 2764800u32, 0u32];
        assert(r@ =~= header_words_for(self.sequence()));
        r
    }

    /// Whether `frame` is a whole BGR24 bottom-up frame that may be copied
    /// into the section.
    pub fn accepts(&self, frame: &[u8]) -> (r: bool)
        ensures
            r == (frame@.len() == DATA_LEN),
    {
        frame.len() == DATA_LEN
    }

    /// Called once the frame bytes have been copied into the section: the
    /// sequence number moves on by one (wrapping) and is returned, to be
    /// stored last in the header so that a reader never sees a torn frame.
    pub fn publish(&mut self) -> (r: u32)
        ensures
            r == final(self).sequence(),
            final(self).sequence() == next_sequence(old(self).sequence()),
    {
        self.seq = self.seq.wrapping_add(1);
        self.seq
    }
}

/// The sequence number that follows `seq`: one more, wrapping to 0 after
/// `u32::MAX`.
pub open spec fn next_sequence(seq: u32) -> u32 {
    if seq == u32::MAX {
        0
    } else {
        (seq + 1) as u32
    }
}

/// Law: the header words are, in order, the magic "TVC1", version 1, the
/// frame's width 1280 and height 720, format 0 (BGR24 bottom-up), the
/// sequence number, the frame's byte count, and a zero.
pub proof fn lemma_header_layout(sequence: u32)
    ensures
        header_words_for(sequence) == seq![0x3143_5654u32, 1u32, 1280u32, 720u32, 0u32, sequence, 2764800u32, 0u32],
{
}

/// Law: the next sequence number is one more, modulo 2^32.
pub proof fn lemma_next_sequence(seq: u32)
    ensures
        next_sequence(seq) == (seq + 1) % 0x1_0000_0000,
{
}

/// The sequence number counts published frames modulo 2^32: after `n`
/// frames published into a fresh section the header carries `n % 2^32`.
pub proof fn lemma_sequence_counts_frames(n: nat)
    ensures
        next_sequence((n % 0x1_0000_0000) as u32) == (n + 1) % 0x1_0000_0000,
{
}

/// Where the filter registration stands.
#[derive(Clone, Copy, Debug, PartialEq, Eq, Structural)]
pub enum RegisterStage {
    /// Waiting for the filter DLL next to the executable to be located.
    Locate,
    /// Running `regsvr32` on it.
    Register,
    /// Done.
    Over,
}

/// A registration of the DirectShow filter in progress.
pub struct Registration {
    stage: RegisterStage,
}

/// Make sure the DirectShow filter is COM-registered: nothing to do when it
/// is (`registered`); otherwise its DLL is located next.
pub fn ensure_registered(registered: bool) -> (r: (Registration, SetupStep))
    ensures
        registered ==> (r.1 matches SetupStep::Done(Ok(()))) && r.0.spec_stage() == RegisterStage::Over,
        !registered ==> r.1 is Locate && r.0.spec_stage() == RegisterStage::Locate,
{
    if registered {
        (Registration { stage: RegisterStage::Over }, SetupStep::Done(Ok(())))
    } else {
        (Registration { stage: RegisterStage::Locate }, SetupStep::Locate)
    }
}

impl Registration {
    /// Where the registration stands.
    pub closed spec fn spec_stage(&self) -> RegisterStage {
        self.stage
    }

    /// Where the procedure stands.
    pub fn stage(&self) -> (r: RegisterStage)
        ensures
            r == self.spec_stage(),
    {
        self.stage
    }

    /// The filter DLL was looked for: `dll` is its path when it exists.
    /// Registering writes to the machine's registry, so `regsvr32 /s` runs
    /// elevated.
    pub fn located(&mut self, dll: Option<String>) -> (r: SetupStep)
        requires
            old(self).spec_stage() == RegisterStage::Locate,
        ensures
            match dll {
                None => (r matches SetupStep::Done(Err(SetupError::PackageMissing)))
                    && final(self).spec_stage() == RegisterStage::Over,
                Some(path) => (r matches SetupStep::Run(cmd) && is_command(
                    cmd,
                    "regsvr32"@,
                    seq!["/s"@, path@],
                    true,
                    false,
                )) && final(self).spec_stage() == RegisterStage::Register,
            },
    {
        match dll {
            None => {
                self.stage = RegisterStage::Over;
                SetupStep::Done(Err(SetupError::PackageMissing))
            },
            Some(path) => {
                self.stage = RegisterStage::Register;
                let cmd = command("regsvr32", &["/s", path.as_str()], true, false);
                assert(args_view(cmd.args@) =~= seq!["/s"@, path@]);
                SetupStep::Run(cmd)
            },
        }
    }

    /// `regsvr32` ended as `report` says.
    pub fn finished(&mut self, report: &ExitReport) -> (r: Result<(), SetupError>)
        requires
            old(self).spec_stage() == RegisterStage::Register,
        ensures
            final(self).spec_stage() == RegisterStage::Over,
            report.success ==> r is Ok,
            !report.success ==> (r matches Err(SetupError::Exit(code)) && code == report.code),
    {
        self.stage = RegisterStage::Over;
        if report.success {
            Ok(())
        } else {
            Err(SetupError::Exit(report.code))
        }
    }
}

} // verus!
