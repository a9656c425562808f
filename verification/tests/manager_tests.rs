use bootdrive::error::{BootDriveError, ErrorCode};
use bootdrive::image::ValidatedImage;
use bootdrive::manager::{DaemonEvent, Manager};
use bootdrive::recovery::{MemoryRecoveryStore, RecoveryState};
use bootdrive::state::{DriveState, ImageMode};
use bootdrive::usb::{MockScript, MockUsbBackend, GADGET_NAME};
use bootdrive::usb_signaller::MockSignaller;

fn tmp_recovery(_name: &str) -> MemoryRecoveryStore {
    MemoryRecoveryStore::new()
}

fn image() -> ValidatedImage {
    ValidatedImage { path: "/tmp/x.iso".to_string(), display_name: "x.iso".into(), size: 2048 }
}

struct Rig {
    m: Manager,
    backend: MockUsbBackend,
    signaller: MockSignaller,
    store: MemoryRecoveryStore,
}

impl Rig {
    fn new(backend: MockUsbBackend, signaller: MockSignaller, store: MemoryRecoveryStore) -> Rig {
        Rig { m: Manager::new(), backend, signaller, store }
    }
    fn initialize(&mut self) {
        self.m.initialize(&mut self.backend, &mut self.signaller, &mut self.store);
    }
    fn recover(&mut self) {
        self.m.recover(&mut self.backend, &mut self.signaller, &mut self.store);
    }
    fn activate(&mut self, mode: ImageMode) -> Result<bootdrive::state::StateInfo, BootDriveError> {
        self.m.activate(image(), mode, &mut self.backend, &mut self.signaller, &mut self.store)
    }
    fn deactivate(&mut self) -> Result<bootdrive::state::StateInfo, BootDriveError> {
        self.m.deactivate(&mut self.backend, &mut self.signaller, &mut self.store)
    }
    fn states(&mut self) -> Vec<DriveState> {
        self.m
            .take_events()
            .into_iter()
            .filter_map(|e| match e {
                DaemonEvent::State(s) => Some(s.state),
                _ => None,
            })
            .collect()
    }
}

#[test]
fn happy_path_activate_then_deactivate() {
    let rec = tmp_recovery("happy");
    let mut m = Rig::new(MockUsbBackend::working(), MockSignaller::running(), rec);
    m.initialize();
    assert_eq!(m.m.info().state, DriveState::Idle);

    let info = m.activate(ImageMode::Cdrom).unwrap();
    assert_eq!(info.state, DriveState::Active);
    assert_eq!(info.display_name, "x.iso");
    assert!(info.signaller_was_running);
    assert_eq!(info.udc, "mock.udc");
    assert_eq!(m.store.record.clone().unwrap().gadget_name, "bootdrive");

    let seq = m.states();
    assert!(seq.contains(&DriveState::Preparing));
    assert_eq!(*seq.last().unwrap(), DriveState::Active);

    let info = m.deactivate().unwrap();
    assert_eq!(info.state, DriveState::Idle);
    assert!(m.store.record.clone().is_none());
}

#[test]
fn activation_failure_rolls_back_and_restores_signaller() {
    let rec = tmp_recovery("rollback");
    let backend = MockUsbBackend::with_script(MockScript {
        udc: Some("u".into()),
        mass_storage_ok: true,
        fail_activate: Some("bind failed".into()),
        ..Default::default()
    });
    let mut m = Rig::new(backend, MockSignaller::running(), rec);
    m.initialize();

    let err = m.activate(ImageMode::Cdrom).unwrap_err();
    assert_eq!(err.code, ErrorCode::GadgetFailure);
    assert_eq!(m.m.info().state, DriveState::Error);
    assert!(m.store.record.clone().is_none());

    let seq = m.states();
    assert_eq!(*seq.last().unwrap(), DriveState::Error);
}

#[test]
fn cannot_activate_twice() {
    let rec = tmp_recovery("twice");
    let mut m = Rig::new(MockUsbBackend::working(), MockSignaller::running(), rec);
    m.initialize();
    m.activate(ImageMode::Cdrom).unwrap();
    let before = m.m.info();
    let calls = m.backend.calls.len();
    let _ = m.m.take_events();
    let err = m.activate(ImageMode::Disk).unwrap_err();
    assert_eq!(err.code, ErrorCode::InvalidState);
    assert_eq!(m.m.info(), before);
    assert_eq!(m.backend.calls.len(), calls);
    assert!(m.m.take_events().is_empty());
    assert!(m.store.record.is_some());
}

#[test]
fn recovery_restores_signaller_and_clears_state() {
    let rec = MemoryRecoveryStore::with_record(RecoveryState {
        gadget_name: GADGET_NAME.to_string(),
        signaller_was_running: true,
        display_name: "x.iso".into(),
        mode: ImageMode::Cdrom,
    });

    let backend = MockUsbBackend::with_script(MockScript {
        udc: Some("u".into()),
        mass_storage_ok: true,
        stale_present: true,
        ..Default::default()
    });
    let mut m = Rig::new(backend, MockSignaller::stopped(), rec);

    m.recover();
    assert_eq!(m.m.info().state, DriveState::Idle);
    assert_eq!(m.m.info().udc, "u");
    assert_eq!(m.backend.calls, vec!["remove_stale_gadget", "probe"]);
    assert!(m.backend.stale_removed);
    assert_eq!(m.signaller.actions, vec!["start"]);
    assert!(m.signaller.running);
    assert!(m.store.record.clone().is_none());
}

#[test]
fn signaller_kept_stopped_when_not_running_before() {
    let rec = tmp_recovery("nosignaller");
    let mut m = Rig::new(MockUsbBackend::working(), MockSignaller::stopped(), rec);
    m.initialize();
    let info = m.activate(ImageMode::Disk).unwrap();
    assert!(!info.signaller_was_running);
    let info = m.deactivate().unwrap();
    assert_eq!(info.state, DriveState::Idle);
}

#[test]
fn deactivate_when_idle_is_noop() {
    let rec = tmp_recovery("idle-eject");
    let mut m = Rig::new(MockUsbBackend::working(), MockSignaller::stopped(), rec);
    m.initialize();
    let info = m.deactivate().unwrap();
    assert_eq!(info.state, DriveState::Idle);
}

#[test]
fn rollback_restarts_the_signaller_it_stopped() {
    let rec = tmp_recovery("restart");
    let backend = MockUsbBackend::with_script(MockScript {
        udc: Some("u".into()),
        mass_storage_ok: true,
        fail_activate: Some("bind failed".into()),
        ..Default::default()
    });
    let mut m = Rig::new(backend, MockSignaller::running(), rec);
    m.initialize();
    let err = m.activate(ImageMode::Cdrom).unwrap_err();
    assert_eq!(err.message, "bind failed");
    assert_eq!(m.signaller.actions, vec!["stop", "start"]);
    assert!(m.signaller.running);
    assert!(!m.backend.active);
    assert_eq!(m.m.info().last_error, "bind failed");
    let events = m.m.take_events();
    assert!(events.contains(&DaemonEvent::Error {
        code: "gadget-failure".into(),
        message: "bind failed".into()
    }));
}

#[test]
fn activate_when_unavailable_fails_into_error() {
    let rec = tmp_recovery("unavailable");
    let mut m = Rig::new(MockUsbBackend::with_script(MockScript::default()), MockSignaller::running(), rec);
    m.initialize();
    assert_eq!(m.m.info().state, DriveState::Unavailable);
    assert_eq!(m.m.info().last_error, "no usable USB device controller was found");
    let err = m.activate(ImageMode::Cdrom).unwrap_err();
    assert_eq!(err.code, ErrorCode::InvalidState);
    assert_eq!(err.message, "BootDrive is not available on this device");
    assert_eq!(m.m.info().state, DriveState::Error);
    assert!(m.signaller.actions.is_empty());
}

#[test]
fn failed_stop_aborts_without_restart() {
    let rec = tmp_recovery("stopfail");
    let mut signaller = MockSignaller::running();
    signaller.fail_stop = true;
    let mut m = Rig::new(MockUsbBackend::working(), signaller, rec);
    m.initialize();
    let err = m.activate(ImageMode::Disk).unwrap_err();
    assert_eq!(err.code, ErrorCode::SignallerReleaseFailed);
    assert_eq!(m.signaller.actions, vec!["stop"]);
    assert!(m.store.record.clone().is_none());
    assert_eq!(m.m.info().state, DriveState::Error);
    // Error allows a retry; the eject from Error also goes through.
    let info = m.deactivate().unwrap();
    assert_eq!(info.state, DriveState::Idle);
}

#[test]
fn failed_teardown_on_eject_ends_in_error_with_signaller_restored() {
    let rec = tmp_recovery("ejectfail");
    let backend = MockUsbBackend::with_script(MockScript {
        udc: Some("u".into()),
        mass_storage_ok: true,
        fail_deactivate: Some("stuck".into()),
        ..Default::default()
    });
    let mut m = Rig::new(backend, MockSignaller::running(), rec);
    m.initialize();
    m.activate(ImageMode::Cdrom).unwrap();
    let err = m.deactivate().unwrap_err();
    assert_eq!(err.code, ErrorCode::GadgetFailure);
    assert_eq!(err.message, "stuck");
    assert!(m.signaller.running);
    assert!(m.store.record.clone().is_none());
    assert_eq!(m.m.info().state, DriveState::Error);
}

#[test]
fn report_error_keeps_the_state() {
    let rec = tmp_recovery("report");
    let mut m = Rig::new(MockUsbBackend::working(), MockSignaller::stopped(), rec);
    m.initialize();
    m.m.take_events();
    m.m.report_error(&BootDriveError::invalid_image("the selected file is empty".into()));
    assert_eq!(m.m.info().state, DriveState::Idle);
    assert_eq!(m.m.info().last_error, "the selected file is empty");
    let events = m.m.take_events();
    assert_eq!(events.len(), 2);
    assert!(matches!(&events[0], DaemonEvent::Error { code, .. } if code == "invalid-image"));
}
