# virtual_devices

Verified core of a remote-desktop tool's virtual camera and virtual
microphone.

- `src/virtual_camera/`: turning incoming webcam pictures into fixed
  1280x720 device frames (decode and scale with the `image` crate, then a
  verified letterbox), the BGR bottom-up layout and header of the Windows
  shared-memory section, the V4L2 format and device lookup of the Linux
  v4l2loopback node, and the camera's open/write/stop decisions.
- `src/virtual_mic/`: whether the virtual audio endpoint is present (parsing
  `pactl` output, matching output device names), and the install/uninstall
  procedures as step functions.
- `src/setup.rs`: commands and steps shared by the install procedures.
- `src/bytes.rs`: byte search helpers.
- `app/`: the process-wide state, device ioctls, shared memory, process
  spawning and platform APIs around the library.
- `tests/`: tests of the library on concrete frames, device labels and
  `pactl` outputs.
