use bootdrive::error::ErrorCode;
use bootdrive::image::ValidatedImage;
use bootdrive::state::ImageMode;
use bootdrive::usb::{
    gadget_error, gadget_serial, gadgets_to_release, gadgets_to_remove, is_own_gadget,
    lun_settings, GadgetStep, MockScript, MockUsbBackend, UsbBackend,
};
use bootdrive::usb_signaller::{
    control_result, detect, running_from, signal_error, CommandOutcome, InitSystem,
    release_wait_step, MockSignaller, OpenRcSignaller, SignallerControl, SystemdSignaller,
};

fn image() -> ValidatedImage {
    ValidatedImage { path: "/tmp/x.iso".to_string(), display_name: "x.iso".into(), size: 1024 }
}

#[test]
fn mock_activate_deactivate_cycle() {
    let mut b = MockUsbBackend::working();
    assert!(!b.state().active);
    b.activate(&image(), ImageMode::Cdrom).unwrap();
    assert!(b.state().active);
    b.deactivate().unwrap();
    assert!(!b.state().active);
}

#[test]
fn mock_probe_reports_no_udc() {
    let mut b = MockUsbBackend::with_script(MockScript::default());
    let err = b.probe().unwrap_err();
    assert_eq!(err.code, ErrorCode::NoUdc);
}

#[test]
fn mock_activate_failure_is_surfaced() {
    let mut b = MockUsbBackend::with_script(MockScript {
        udc: Some("u".into()),
        mass_storage_ok: true,
        fail_activate: Some("boom".into()),
        ..Default::default()
    });
    assert!(b.activate(&image(), ImageMode::Cdrom).is_err());
    assert!(!b.state().active);
}

#[test]
fn mock_stop_and_start_toggle_state() {
    let mut s = MockSignaller::running();
    assert!(s.is_running().unwrap());
    s.stop().unwrap();
    assert!(!s.is_running().unwrap());
    s.start().unwrap();
    assert!(s.is_running().unwrap());
    assert_eq!(s.actions, vec!["stop", "start"]);
}

#[test]
fn mock_probe_without_mass_storage_and_stale_cleanup() {
    let mut b = MockUsbBackend::with_script(MockScript {
        udc: Some("u".into()),
        mass_storage_ok: false,
        stale_present: true,
        ..Default::default()
    });
    let err = b.probe().unwrap_err();
    assert_eq!(err.code, ErrorCode::MassStorageUnavailable);
    b.remove_stale_gadget().unwrap();
    assert!(b.stale_removed);
    b.release_foreign_gadgets().unwrap();
    assert!(b.foreign_released);
    assert_eq!(b.calls, vec!["probe", "remove_stale_gadget", "release_foreign_gadgets"]);
    let caps = MockUsbBackend::working().probe().unwrap();
    assert_eq!(caps.udc, "mock.udc");
}

#[test]
fn mock_stop_failure_keeps_running() {
    let mut s = MockSignaller::running();
    s.fail_stop = true;
    let err = s.stop().unwrap_err();
    assert_eq!(err.code, ErrorCode::SignallerReleaseFailed);
    assert!(s.is_running().unwrap());
}

#[test]
fn only_the_own_gadget_is_removed_and_never_released() {
    let names: Vec<String> = vec!["g1".into(), "bootdrive".into(), "bootdrive2".into(), "bootdrive".into()];
    assert_eq!(gadgets_to_remove(&names), vec![1, 3]);
    let bound = vec![true, true, false, false];
    assert_eq!(gadgets_to_release(&names, &bound), vec![0]);
    assert!(is_own_gadget("bootdrive"));
    assert!(!is_own_gadget("Bootdrive"));
}

#[test]
fn gadget_descriptors() {
    assert_eq!(gadget_serial(2048), "bootdrive-2048");
    assert_eq!(gadget_serial(0), "bootdrive-0");
    let l = lun_settings(ImageMode::Cdrom);
    assert!(l.read_only && l.cdrom && l.removable);
    let l = lun_settings(ImageMode::Disk);
    assert!(l.read_only && !l.cdrom && l.removable);
    let e = gadget_error(GadgetStep::Release, "busy");
    assert_eq!(e.code, ErrorCode::UdcBusy);
    assert_eq!(e.message, "could not release the UDC from another gadget: busy");
    assert_eq!(gadget_error(GadgetStep::FindUdc, "none").code, ErrorCode::NoUdc);
}

#[test]
fn signaller_commands_and_outcomes() {
    assert_eq!(detect(true), InitSystem::Systemd);
    assert_eq!(detect(false), InitSystem::OpenRc);
    let c = SystemdSignaller::new().command("stop");
    assert_eq!(c.program, "/usr/bin/systemctl");
    assert_eq!(c.args, vec!["stop", "usb-signaller"]);
    let c = OpenRcSignaller::new().command("start");
    assert_eq!(c.program, "/sbin/rc-service");
    assert_eq!(c.args, vec!["usb-signaller", "start"]);
    assert_eq!(SystemdSignaller::new().status_action(), "is-active");
    assert_eq!(OpenRcSignaller::new().status_action(), "status");

    let ok = CommandOutcome::Exited { success: true, stderr: String::new() };
    let bad = CommandOutcome::Exited { success: false, stderr: "  denied\n".into() };
    let gone = CommandOutcome::SpawnFailed("no such file".into());
    assert_eq!(running_from(&ok, "is-active").unwrap(), true);
    assert_eq!(running_from(&bad, "is-active").unwrap(), false);
    assert_eq!(
        running_from(&gone, "is-active").unwrap_err().message,
        "usb-signaller could not be is-active: no such file"
    );
    assert!(control_result(&ok, "stop", "stopped").is_ok());
    let e = control_result(&bad, "stop", "stopped").unwrap_err();
    assert_eq!(e.code, ErrorCode::SignallerReleaseFailed);
    assert_eq!(e.message, "usb-signaller could not be stopped: denied");
    let e = control_result(&gone, "start", "restarted").unwrap_err();
    assert_eq!(e.message, "usb-signaller could not be start: no such file");
    assert_eq!(signal_error("restarted", "x").message, "usb-signaller could not be restarted: x");
}

#[test]
fn wait_returns_when_released_immediately() {
    assert!(matches!(release_wait_step(false, false), Some(Ok(()))));
    assert!(matches!(release_wait_step(false, true), Some(Ok(()))));
}

#[test]
fn wait_times_out_when_never_released() {
    // Poll a gadget that never lets go; the deadline passes on the fourth look.
    let mut looks = 0;
    let outcome = loop {
        looks += 1;
        if let Some(done) = release_wait_step(true, looks >= 4) {
            break done;
        }
    };
    assert_eq!(looks, 4);
    assert_eq!(outcome.unwrap_err().code, ErrorCode::UdcBusy);
}

#[test]
fn release_wait_times_out_while_still_bound() {
    match release_wait_step(true, true) {
        Some(Err(e)) => {
            assert_eq!(e.code, ErrorCode::UdcBusy);
            assert_eq!(e.message, "the UDC was not released in time");
        }
        _ => panic!("expected a timeout"),
    }
    assert!(release_wait_step(true, false).is_none());
}
