use virtual_devices::bytes::{bytes_contain, bytes_equal};
use virtual_devices::setup::{ExitReport, SetupError, SetupStep};
use virtual_devices::virtual_mic::linux::{sinks_list_has, RENDER_DEVICE_MATCH as LINUX_SINK};
use virtual_devices::virtual_mic::windows::{any_name_matches, RENDER_DEVICE_MATCH as WINDOWS_NAME};
use virtual_devices::virtual_mic::{
    ensure_installed, is_installed, uninstall, AudioProbe, InstallStage, MicBackend, MicPackage,
    DRIVER_SETTLE_SECS, SETUP_SCRIPT,
};

fn args(cmd: &virtual_devices::setup::Command) -> Vec<&str> {
    cmd.args.iter().map(|a| a.as_str()).collect()
}

const SINKS: &[u8] = b"0\talsa_output.pci-0000_00_1f.3.analog-stereo\tmodule-alsa-card.c\ts16le 2ch 44100Hz\tSUSPENDED\n1\ttether_audio\tmodule-null-sink.c\ts16le 2ch 44100Hz\tIDLE\n";

#[test]
fn pactl_sink_listed() {
    assert_eq!(LINUX_SINK, "tether_audio");
    assert!(sinks_list_has(SINKS, "tether_audio"));
    assert!(!sinks_list_has(SINKS, "tether_microphone"));
    assert!(!sinks_list_has(SINKS, "module-null-sink.c"));
    assert!(!sinks_list_has(SINKS, "1"));
}

#[test]
fn pactl_line_endings_and_columns() {
    assert!(sinks_list_has(b"1\ttether_audio\r\n", "tether_audio"));
    assert!(sinks_list_has(b"1\ttether_audio", "tether_audio"));
    assert!(!sinks_list_has(b"1\ttether_audio\r", "tether_audio"));
    assert!(sinks_list_has(b"\n\n5\ttether_audio\tx\n\n", "tether_audio"));
    assert!(!sinks_list_has(b"tether_audio\n", "tether_audio"));
    assert!(!sinks_list_has(b"1\ttether_audio2\tx\n", "tether_audio"));
    assert!(!sinks_list_has(b"1\tx\ttether_audio\n", "tether_audio"));
    assert!(!sinks_list_has(b"", "tether_audio"));
    assert!(sinks_list_has(b"\xff\xfe\ttether_audio\n", "tether_audio"));
}

#[test]
fn output_device_names_ignore_case() {
    assert_eq!(WINDOWS_NAME, "Tether Audio");
    let names = vec!["Speakers (Realtek(R) Audio)".to_string(), "Speakers (TETHER AUDIO)".to_string()];
    assert!(any_name_matches(&names, WINDOWS_NAME));
    let names = vec!["Speakers (Tether)".to_string()];
    assert!(!any_name_matches(&names, WINDOWS_NAME));
    assert!(!any_name_matches(&Vec::new(), WINDOWS_NAME));
}

#[test]
fn is_installed_by_probe() {
    assert!(is_installed(&AudioProbe::PulseSinks(Some(SINKS.to_vec()))));
    assert!(!is_installed(&AudioProbe::PulseSinks(Some(b"0\tother\n".to_vec()))));
    assert!(!is_installed(&AudioProbe::PulseSinks(None)));
    assert!(is_installed(&AudioProbe::OutputDevices(vec!["Tether Audio (Virtual)".to_string()])));
    assert!(!is_installed(&AudioProbe::OutputDevices(vec![])));
    assert!(!is_installed(&AudioProbe::Unsupported));
}

#[test]
fn nothing_to_install_when_present() {
    let (inst, step) = ensure_installed(true, MicBackend::PulseAudio);
    assert!(matches!(step, SetupStep::Done(Ok(()))));
    assert_eq!(inst.stage(), InstallStage::Over);
    let (_, step) = ensure_installed(false, MicBackend::Unsupported);
    assert!(matches!(step, SetupStep::Done(Ok(()))));
}

#[test]
fn pulse_install_with_script() {
    let (mut inst, step) = ensure_installed(false, MicBackend::PulseAudio);
    assert!(matches!(step, SetupStep::Locate));
    match inst.located(&MicPackage::PulseAudio { script_exists: true }) {
        SetupStep::Run(cmd) => {
            assert_eq!(cmd.program, "sh");
            assert_eq!(args(&cmd), vec![SETUP_SCRIPT, "load"]);
            assert!(!cmd.elevated);
            assert!(!cmd.capture_output);
        }
        _ => panic!("expected script"),
    }
    let failed = ExitReport { success: false, code: Some(1), stderr: vec![] };
    assert!(matches!(inst.finished(&failed), SetupStep::Done(Err(SetupError::Exit(Some(1))))));
}

#[test]
fn pulse_install_inline() {
    let (mut inst, _) = ensure_installed(false, MicBackend::PulseAudio);
    match inst.located(&MicPackage::PulseAudio { script_exists: false }) {
        SetupStep::Run(cmd) => {
            assert_eq!(cmd.program, "pactl");
            assert_eq!(
                args(&cmd),
                vec![
                    "load-module",
                    "module-null-sink",
                    "sink_name=tether_audio",
                    "sink_properties=device.description='Tether Audio'"
                ]
            );
            assert!(cmd.capture_output);
            assert!(!cmd.elevated);
        }
        _ => panic!("expected pactl"),
    }
    let ok = ExitReport { success: true, code: Some(0), stderr: vec![] };
    match inst.finished(&ok) {
        SetupStep::Run(cmd) => {
            assert_eq!(cmd.program, "pactl");
            assert_eq!(
                args(&cmd),
                vec![
                    "load-module",
                    "module-remap-source",
                    "source_name=tether_microphone",
                    "master=tether_audio.monitor",
                    "source_properties=device.description='Tether Microphone'"
                ]
            );
        }
        _ => panic!("expected second pactl"),
    }
    assert!(matches!(inst.finished(&ok), SetupStep::Done(Ok(()))));
    assert_eq!(inst.stage(), InstallStage::Over);
}

#[test]
fn pulse_inline_stops_on_failed_module() {
    let (mut inst, _) = ensure_installed(false, MicBackend::PulseAudio);
    let _ = inst.located(&MicPackage::PulseAudio { script_exists: false });
    let failed = ExitReport { success: false, code: Some(1), stderr: b"Failure: Module initialization failed\n".to_vec() };
    match inst.finished(&failed) {
        SetupStep::Done(Err(SetupError::LoadModule(e))) => assert_eq!(e, failed.stderr),
        _ => panic!("expected failure"),
    }
}

#[test]
fn driver_install_steps() {
    let (mut inst, step) = ensure_installed(false, MicBackend::Driver);
    assert!(matches!(step, SetupStep::Locate));
    let pkg = MicPackage::Driver {
        inf: Some("C:\\app\\tether_audio\\tether_audio.inf".to_string()),
        install_script: None,
        uninstall_script: None,
    };
    match inst.located(&pkg) {
        SetupStep::Run(cmd) => {
            assert_eq!(cmd.program, "pnputil");
            assert_eq!(args(&cmd), vec!["/add-driver", "C:\\app\\tether_audio\\tether_audio.inf", "/install"]);
            assert!(cmd.elevated);
        }
        _ => panic!("expected pnputil"),
    }
    let ok = ExitReport { success: true, code: Some(0), stderr: vec![] };
    match inst.finished(&ok) {
        SetupStep::Wait(s) => assert_eq!(s, DRIVER_SETTLE_SECS),
        _ => panic!("expected wait"),
    }
    assert_eq!(DRIVER_SETTLE_SECS, 2);
    assert!(matches!(inst.waited(), SetupStep::Done(Ok(()))));
}

#[test]
fn driver_install_prefers_script_and_needs_inf() {
    let (mut inst, _) = ensure_installed(false, MicBackend::Driver);
    let pkg = MicPackage::Driver {
        inf: Some("d\\tether_audio.inf".to_string()),
        install_script: Some("d\\install.bat".to_string()),
        uninstall_script: None,
    };
    match inst.located(&pkg) {
        SetupStep::Run(cmd) => {
            assert_eq!(cmd.program, "cmd");
            assert_eq!(args(&cmd), vec!["/c", "d\\install.bat"]);
            assert!(cmd.elevated);
        }
        _ => panic!("expected cmd"),
    }
    let failed = ExitReport { success: false, code: None, stderr: vec![] };
    assert!(matches!(inst.finished(&failed), SetupStep::Done(Err(SetupError::Exit(None)))));

    let (mut inst, _) = ensure_installed(false, MicBackend::Driver);
    let pkg = MicPackage::Driver { inf: None, install_script: Some("d\\install.bat".to_string()), uninstall_script: None };
    assert!(matches!(inst.located(&pkg), SetupStep::Done(Err(SetupError::PackageMissing))));
}

#[test]
fn uninstall_commands() {
    let cmd = uninstall(&MicPackage::PulseAudio { script_exists: true }).unwrap();
    assert_eq!(cmd.program, "sh");
    assert_eq!(args(&cmd), vec![SETUP_SCRIPT, "unload"]);
    assert!(uninstall(&MicPackage::PulseAudio { script_exists: false }).is_none());
    let pkg = MicPackage::Driver { inf: None, install_script: None, uninstall_script: Some("d\\uninstall.bat".to_string()) };
    let cmd = uninstall(&pkg).unwrap();
    assert_eq!(cmd.program, "cmd");
    assert_eq!(args(&cmd), vec!["/c", "d\\uninstall.bat"]);
    assert!(cmd.elevated);
    let pkg = MicPackage::Driver { inf: Some("x".to_string()), install_script: None, uninstall_script: None };
    assert!(uninstall(&pkg).is_none());
}

#[test]
fn byte_helpers() {
    assert!(bytes_contain(b"hello world", b"o w"));
    assert!(bytes_contain(b"abc", b""));
    assert!(!bytes_contain(b"abc", b"abcd"));
    assert!(!bytes_contain(b"", b"a"));
    assert!(bytes_equal(b"abc", b"abc"));
    assert!(!bytes_equal(b"abc", b"abd"));
    assert!(!bytes_equal(b"abc", b"ab"));
}
