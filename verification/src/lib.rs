//! Verified core of the virtual camera and virtual microphone devices.
//!
//! The camera side turns compressed webcam frames into fixed-size raw frames
//! and decides what goes to the platform device (a v4l2loopback node on Linux,
//! a shared-memory section read by a DirectShow filter on Windows).  The
//! microphone side decides, from what the platform reports, whether the
//! virtual audio endpoint is present.
//!
//! All device and process I/O lives outside this crate; the functions here
//! take what was read as plain values and return what is to be written.

pub mod bytes;
pub mod setup;
pub mod virtual_camera;
pub mod virtual_mic;
