//! Virtual microphone: decides whether the virtual audio render endpoint,
//! whose capture side conferencing apps select as a microphone, is present.

use vstd::prelude::*;

use vstd::string::StringSliceAdditionalSpecFns;
use vstd::utf8::encode_utf8;

use crate::bytes::contains_bytes;
use crate::setup::{command, is_command, Command, ExitReport, SetupError, SetupStep};

pub mod linux;
pub mod windows;

verus! {

/// What the platform reports about its audio outputs.
pub enum AudioProbe {
    /// Output of `pactl list short sinks` (Linux), or `None` when pactl
    /// could not be run or exited with failure.
    PulseSinks(Option<Vec<u8>>),
    /// Names of the audio output devices whose name could be read (Windows);
    /// empty when the devices could not be listed.
    OutputDevices(Vec<String>),
    /// A platform without a virtual microphone backend.
    Unsupported,
}

/// The virtual audio render endpoint is present according to `probe`.
pub open spec fn probe_shows_endpoint(probe: AudioProbe) -> bool {
    match probe {
        AudioProbe::PulseSinks(Some(out)) => linux::sinks_list_names(
            out@,
            linux::render_device_name(),
        ),
        AudioProbe::PulseSinks(None) => false,
        AudioProbe::OutputDevices(names) => windows::some_name_matches(
            names@,
            windows::render_device_name(),
        ),
        AudioProbe::Unsupported => false,
    }
}

/// Law (Windows): the endpoint is present exactly when some output device
/// name, at any position in the list, holds "Tether Audio", both
/// lower-cased; a list none of whose names holds it gives `false`, however
/// long it is.
pub proof fn lemma_installed_output_devices(names: Vec<String>)
    ensures
        probe_shows_endpoint(AudioProbe::OutputDevices(names)) <==> exists|i: int|
            0 <= i < names@.len() && #[trigger] contains_bytes(
                encode_utf8(windows::unicode_lowercase(names@[i]@)),
                encode_utf8(windows::unicode_lowercase(windows::RENDER_DEVICE_MATCH@)),
            ),
{
    let want = windows::RENDER_DEVICE_MATCH@;
    if probe_shows_endpoint(AudioProbe::OutputDevices(names)) {
        let i = choose|i: int| 0 <= i < names@.len() && #[trigger] windows::name_matches(names@[i]@, want);
        assert(windows::name_matches(names@[i]@, want));
    }
    if exists|i: int|
        0 <= i < names@.len() && #[trigger] contains_bytes(
            encode_utf8(windows::unicode_lowercase(names@[i]@)),
            encode_utf8(windows::unicode_lowercase(want)),
        ) {
        let i = choose|i: int|
            0 <= i < names@.len() && #[trigger] contains_bytes(
                encode_utf8(windows::unicode_lowercase(names@[i]@)),
                encode_utf8(windows::unicode_lowercase(want)),
            );
        assert(windows::name_matches(names@[i]@, want));
    }
}

/// Law (Windows): one output device at index `i` whose lower-cased name
/// holds the lower-cased "Tether Audio" at byte `at` makes the endpoint
/// present.
pub proof fn lemma_installed_by_device(names: Vec<String>, i: int, at: int)
    requires
        0 <= i < names@.len(),
        0 <= at,
        at + encode_utf8(windows::unicode_lowercase(windows::RENDER_DEVICE_MATCH@)).len()
            <= encode_utf8(windows::unicode_lowercase(names@[i]@)).len(),
        encode_utf8(windows::unicode_lowercase(names@[i]@)).subrange(
            at,
            at + encode_utf8(windows::unicode_lowercase(windows::RENDER_DEVICE_MATCH@)).len(),
        ) == encode_utf8(windows::unicode_lowercase(windows::RENDER_DEVICE_MATCH@)),
    ensures
        probe_shows_endpoint(AudioProbe::OutputDevices(names)),
{
    windows::lemma_matching_name_counts(names@, windows::RENDER_DEVICE_MATCH@, i, at);
}

/// Law (Linux): the endpoint is present exactly when the `pactl` listing
/// names the sink `tether_audio` in some row; without a listing, or on a
/// platform without a backend, it is absent.
pub proof fn lemma_installed_pulse(out: Vec<u8>)
    ensures
        probe_shows_endpoint(AudioProbe::PulseSinks(Some(out))) == linux::sinks_list_names(
            out@,
            linux::RENDER_DEVICE_MATCH.spec_bytes(),
        ),
        !probe_shows_endpoint(AudioProbe::PulseSinks(None)),
        !probe_shows_endpoint(AudioProbe::Unsupported),
{
}

/// True if the virtual audio render endpoint is currently present: a
/// PulseAudio sink named `tether_audio` on Linux, an output device whose
/// name holds "Tether Audio" (ignoring case) on Windows; never elsewhere.
pub fn is_installed(probe: &AudioProbe) -> (r: bool)
    ensures
        r == probe_shows_endpoint(*probe),
{
    match probe {
        AudioProbe::PulseSinks(Some(out)) => linux::sinks_list_has(
            out.as_slice(),
            linux::RENDER_DEVICE_MATCH,
        ),
        AudioProbe::PulseSinks(None) => false,
        AudioProbe::OutputDevices(names) => windows::any_name_matches(
            names,
            windows::RENDER_DEVICE_MATCH,
        ),
        AudioProbe::Unsupported => false,
    }
}

/// How the platform provides the virtual microphone.
#[derive(Clone, Copy, Debug, PartialEq, Eq, Structural)]
pub enum MicBackend {
    /// PulseAudio / PipeWire modules loaded with `pactl` (Linux).
    PulseAudio,
    /// A kernel audio driver installed from a package next to the
    /// executable (Windows).
    Driver,
    /// No virtual microphone on this platform.
    Unsupported,
}

/// The installed files the procedures use, each given when it exists.
pub enum MicPackage {
    /// Linux: whether the packaged setup script exists.
    PulseAudio { script_exists: bool },
    /// Windows: paths of the driver's INF file, install script and
    /// uninstall script in the package directory.
    Driver { inf: Option<String>, install_script: Option<String>, uninstall_script: Option<String> },
}

/// Packaged helper that loads and unloads the PulseAudio modules.
pub const SETUP_SCRIPT: &'static str = "/usr/share/tether/files/tether-vmic-setup.sh";

/// Where the installation stands.
#[derive(Clone, Copy, Debug, PartialEq, Eq, Structural)]
pub enum InstallStage {
    /// Waiting for the package files to be located.
    Locate,
    /// Running the packaged setup script.
    Script,
    /// Loading the null sink with `pactl`.
    Sink,
    /// Loading the remap source with `pactl`.
    Source,
    /// Running the driver installer.
    Driver,
    /// Waiting for the new device to appear.
    Settle,
    /// Done.
    Over,
}

/// An installation of the virtual microphone in progress.
pub struct MicInstall {
    stage: InstallStage,
}

/// `sh <setup script> <action>`.
pub open spec fn is_script_command(cmd: Command, action: Seq<char>) -> bool {
    is_command(cmd, "sh"@, seq![SETUP_SCRIPT@, action], false, false)
}

/// `pactl load-module module-null-sink ...`: the sink `tether_audio`,
/// described as "Tether Audio".
pub open spec fn is_null_sink_command(cmd: Command) -> bool {
    is_command(
        cmd,
        "pactl"@,
        seq![
            "load-module"@,
            "module-null-sink"@,
            "sink_name=tether_audio"@,
            "sink_properties=device.description='Tether Audio'"@,
        ],
        false,
        true,
    )
}

/// `pactl load-module module-remap-source ...`: the source
/// `tether_microphone` on the sink's monitor, described as
/// "Tether Microphone".
pub open spec fn is_remap_source_command(cmd: Command) -> bool {
    is_command(
        cmd,
        "pactl"@,
        seq![
            "load-module"@,
            "module-remap-source"@,
            "source_name=tether_microphone"@,
            "master=tether_audio.monitor"@,
            "source_properties=device.description='Tether Microphone'"@,
        ],
        false,
        true,
    )
}

/// The step that follows locating `package`.
pub open spec fn step_after_locate(package: MicPackage, step: SetupStep, stage: InstallStage) -> bool {
    match package {
        MicPackage::PulseAudio { script_exists } => if script_exists {
            step matches SetupStep::Run(cmd) && is_script_command(cmd, "load"@) && stage
                == InstallStage::Script
        } else {
            step matches SetupStep::Run(cmd) && is_null_sink_command(cmd) && stage
                == InstallStage::Sink
        },
        MicPackage::Driver { inf, install_script, uninstall_script } => match inf {
            None => step matches SetupStep::Done(Err(SetupError::PackageMissing)) && stage
                == InstallStage::Over,
            Some(inf) => stage == InstallStage::Driver && (step matches SetupStep::Run(cmd) && match install_script {
                Some(script) => is_command(cmd, "cmd"@, seq!["/c"@, script@], true, false),
                None => is_command(cmd, "pnputil"@, seq!["/add-driver"@, inf@, "/install"@], true, false),
            }),
        },
    }
}

impl MicInstall {
    /// Where the installation stands.
    pub closed spec fn spec_stage(&self) -> InstallStage {
        self.stage
    }

    /// Where the procedure stands.
    pub fn stage(&self) -> (r: InstallStage)
        ensures
            r == self.spec_stage(),
    {
        self.stage
    }

    /// The package files were located: start running programs.
    pub fn located(&mut self, package: &MicPackage) -> (r: SetupStep)
        requires
            old(self).spec_stage() == InstallStage::Locate,
        ensures
            step_after_locate(*package, r, final(self).spec_stage()),
    {
        match package {
            MicPackage::PulseAudio { script_exists } => if *script_exists {
                self.stage = InstallStage::Script;
                let cmd = command("sh", &[SETUP_SCRIPT, "load"], false, false);
                assert(args_view_is(cmd, seq![SETUP_SCRIPT@, "load"@]));
                SetupStep::Run(cmd)
            } else {
                self.stage = InstallStage::Sink;
                SetupStep::Run(null_sink_command())
            },
            MicPackage::Driver { inf, install_script, uninstall_script: _ } => match inf {
                None => {
                    self.stage = InstallStage::Over;
                    SetupStep::Done(Err(SetupError::PackageMissing))
                },
                Some(inf) => {
                    self.stage = InstallStage::Driver;
                    match install_script {
                        Some(script) => {
                            let cmd = command("cmd", &["/c", script.as_str()], true, false);
                            assert(args_view_is(cmd, seq!["/c"@, script@]));
                            SetupStep::Run(cmd)
                        },
                        None => {
                            let cmd = command("pnputil", &["/add-driver", inf.as_str(), "/install"], true, false);
                            assert(args_view_is(cmd, seq!["/add-driver"@, inf@, "/install"@]));
                            SetupStep::Run(cmd)
                        },
                    }
                },
            },
        }
    }

    /// The program of the last `Run` step ended as `report` says.
    pub fn finished(&mut self, report: &ExitReport) -> (r: SetupStep)
        requires
            old(self).spec_stage() == InstallStage::Script || old(self).spec_stage() == InstallStage::Sink
                || old(self).spec_stage() == InstallStage::Source || old(self).spec_stage()
                == InstallStage::Driver,
        ensures
            old(self).spec_stage() == InstallStage::Script ==> final(self).spec_stage() == InstallStage::Over
                && if report.success {
                r matches SetupStep::Done(Ok(()))
            } else {
                r matches SetupStep::Done(Err(SetupError::Exit(code))) && code == report.code
            },
            old(self).spec_stage() == InstallStage::Sink ==> if report.success {
                r matches SetupStep::Run(cmd) && is_remap_source_command(cmd) && final(self).spec_stage()
                    == InstallStage::Source
            } else {
                r matches SetupStep::Done(Err(SetupError::LoadModule(e))) && e@ == report.stderr@
                    && final(self).spec_stage() == InstallStage::Over
            },
            old(self).spec_stage() == InstallStage::Source ==> final(self).spec_stage() == InstallStage::Over
                && if report.success {
                r matches SetupStep::Done(Ok(()))
            } else {
                r matches SetupStep::Done(Err(SetupError::LoadModule(e))) && e@ == report.stderr@
            },
            old(self).spec_stage() == InstallStage::Driver ==> if report.success {
                r matches SetupStep::Wait(secs) && secs == DRIVER_SETTLE_SECS && final(self).spec_stage()
                    == InstallStage::Settle
            } else {
                r matches SetupStep::Done(Err(SetupError::Exit(code))) && code == report.code
                    && final(self).spec_stage() == InstallStage::Over
            },
    {
        match self.stage {
            InstallStage::Sink => if report.success {
                self.stage = InstallStage::Source;
                SetupStep::Run(remap_source_command())
            } else {
                self.stage = InstallStage::Over;
                SetupStep::Done(Err(SetupError::LoadModule(report.stderr.clone())))
            },
            InstallStage::Source => {
                self.stage = InstallStage::Over;
                if report.success {
                    SetupStep::Done(Ok(()))
                } else {
                    SetupStep::Done(Err(SetupError::LoadModule(report.stderr.clone())))
                }
            },
            InstallStage::Driver => if report.success {
                self.stage = InstallStage::Settle;
                SetupStep::Wait(DRIVER_SETTLE_SECS)
            } else {
                self.stage = InstallStage::Over;
                SetupStep::Done(Err(SetupError::Exit(report.code)))
            },
            _ => {
                self.stage = InstallStage::Over;
                if report.success {
                    SetupStep::Done(Ok(()))
                } else {
                    SetupStep::Done(Err(SetupError::Exit(report.code)))
                }
            },
        }
    }

    /// The wait for the new device is over.
    pub fn waited(&mut self) -> (r: SetupStep)
        requires
            old(self).spec_stage() == InstallStage::Settle,
        ensures
            r matches SetupStep::Done(Ok(())),
            final(self).spec_stage() == InstallStage::Over,
    {
        self.stage = InstallStage::Over;
        SetupStep::Done(Ok(()))
    }
}

/// Seconds to wait after the driver installed: the device appears
/// asynchronously.
pub const DRIVER_SETTLE_SECS: u64 = 2;

/// The arguments of `cmd` are `args`.
pub open spec fn args_view_is(cmd: Command, args: Seq<Seq<char>>) -> bool {
    crate::setup::args_view(cmd.args@) =~= args
}

fn null_sink_command() -> (r: Command)
    ensures
        is_null_sink_command(r),
{
    let cmd = command(
        "pactl",
        &[
            "load-module",
            "module-null-sink",
            "sink_name=tether_audio",
            "sink_properties=device.description='Tether Audio'",
        ],
        false,
        true,
    );
    assert(args_view_is(
        cmd,
        seq![
            "load-module"@,
            "module-null-sink"@,
            "sink_name=tether_audio"@,
            "sink_properties=device.description='Tether Audio'"@,
        ],
    ));
    cmd
}

fn remap_source_command() -> (r: Command)
    ensures
        is_remap_source_command(r),
{
    let cmd = command(
        "pactl",
        &[
            "load-module",
            "module-remap-source",
            "source_name=tether_microphone",
            "master=tether_audio.monitor",
            "source_properties=device.description='Tether Microphone'",
        ],
        false,
        true,
    );
    assert(args_view_is(
        cmd,
        seq![
            "load-module"@,
            "module-remap-source"@,
            "source_name=tether_microphone"@,
            "master=tether_audio.monitor"@,
            "source_properties=device.description='Tether Microphone'"@,
        ],
    ));
    cmd
}

/// Ensure the virtual audio backend is available: nothing to do when the
/// endpoint is present (`installed`) or the platform has no backend;
/// otherwise the package files are located next (`MicInstall::located`).
pub fn ensure_installed(installed: bool, backend: MicBackend) -> (r: (MicInstall, SetupStep))
    ensures
        installed || backend == MicBackend::Unsupported ==> (r.1 matches SetupStep::Done(Ok(())))
            && r.0.spec_stage() == InstallStage::Over,
        !installed && backend != MicBackend::Unsupported ==> r.0.spec_stage() == InstallStage::Locate
            && r.1 is Locate,
{
    if installed || backend == MicBackend::Unsupported {
        (MicInstall { stage: InstallStage::Over }, SetupStep::Done(Ok(())))
    } else {
        (MicInstall { stage: InstallStage::Locate }, SetupStep::Locate)
    }
}

/// Best-effort removal: the uninstall program to run, if its file is
/// installed. Its exit status is not looked at; removal then succeeds.
pub fn uninstall(package: &MicPackage) -> (r: Option<Command>)
    ensures
        match *package {
            MicPackage::PulseAudio { script_exists } => if script_exists {
                r matches Some(cmd) && is_script_command(cmd, "unload"@)
            } else {
                r is None
            },
            MicPackage::Driver { inf, install_script, uninstall_script } => match uninstall_script {
                Some(script) => r matches Some(cmd) && is_command(cmd, "cmd"@, seq!["/c"@, script@], true, false),
                None => r is None,
            },
        },
{
    match package {
        MicPackage::PulseAudio { script_exists } => if *script_exists {
            let cmd = command("sh", &[SETUP_SCRIPT, "unload"], false, false);
            assert(args_view_is(cmd, seq![SETUP_SCRIPT@, "unload"@]));
            Some(cmd)
        } else {
            None
        },
        MicPackage::Driver { inf: _, install_script: _, uninstall_script } => match uninstall_script {
            Some(script) => {
                let cmd = command("cmd", &["/c", script.as_str()], true, false);
                assert(args_view_is(cmd, seq!["/c"@, script@]));
                Some(cmd)
            },
            None => None,
        },
    }
}

} // verus!
