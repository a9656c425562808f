use bootdrive::recovery::{MemoryRecoveryStore, RecoveryState, RecoveryStorage};
use bootdrive::protocol::current_image_link_in;
use bootdrive::error::{BootDriveError, ErrorCode};
use bootdrive::state::{DriveState, ImageMode, StateInfo};

#[test]
fn error_code_wire_is_stable() {
    assert_eq!(ErrorCode::NoUdc.as_wire(), "no-udc");
    assert_eq!(ErrorCode::UdcBusy.to_string(), "udc-busy");
}

#[test]
fn error_display_includes_code_and_message() {
    let e = BootDriveError::invalid_image("empty file".to_string());
    assert_eq!(e.to_string(), "invalid-image: empty file");
}

#[test]
fn state_extension_defaults() {
    assert_eq!(ImageMode::default_for_extension("iso"), ImageMode::Cdrom);
    assert_eq!(ImageMode::default_for_extension(".ISO"), ImageMode::Cdrom);
    assert_eq!(ImageMode::default_for_extension("img"), ImageMode::Disk);
    assert_eq!(ImageMode::default_for_extension("raw"), ImageMode::Disk);
}

#[test]
fn mode_str() {
    assert_eq!(ImageMode::Cdrom.mode_str(), "cdrom_mode");
    assert_eq!(ImageMode::Disk.mode_str(), "mass_storage_mode");
}

#[test]
fn every_wire_code_is_distinct_and_stable() {
    let codes = [
        (ErrorCode::MassStorageUnavailable, "mass-storage-unavailable"),
        (ErrorCode::NoUdc, "no-udc"),
        (ErrorCode::UdcBusy, "udc-busy"),
        (ErrorCode::SignallerReleaseFailed, "signaller-release-failed"),
        (ErrorCode::InvalidImage, "invalid-image"),
        (ErrorCode::NotAuthorized, "not-authorized"),
        (ErrorCode::InvalidState, "invalid-state"),
        (ErrorCode::GadgetFailure, "gadget-failure"),
        (ErrorCode::Internal, "internal"),
    ];
    for (code, wire) in codes {
        assert_eq!(code.as_wire(), wire);
        assert_eq!(code.to_string(), wire);
    }
}

#[test]
fn error_shorthands_pick_their_codes() {
    assert_eq!(BootDriveError::invalid_state("x".to_string()).code, ErrorCode::InvalidState);
    assert_eq!(BootDriveError::gadget("x".to_string()).code, ErrorCode::GadgetFailure);
    assert_eq!(BootDriveError::internal("x".to_string()).code, ErrorCode::Internal);
    let e = BootDriveError::new(ErrorCode::UdcBusy, "busy".to_string());
    assert_eq!(e.message, "busy");
    assert_eq!(e.duplicate().to_string(), "udc-busy: busy");
}

#[test]
fn extension_default_ignores_case_and_leading_dots() {
    assert_eq!(ImageMode::default_for_extension("..IMG"), ImageMode::Disk);
    assert_eq!(ImageMode::default_for_extension(".Raw"), ImageMode::Disk);
    assert_eq!(ImageMode::default_for_extension(""), ImageMode::Cdrom);
    assert_eq!(ImageMode::default_for_extension("qcow2"), ImageMode::Cdrom);
    assert_eq!(ImageMode::default_for_extension("img.gz"), ImageMode::Cdrom);
}

#[test]
fn mode_names_round_trip() {
    for m in [ImageMode::Cdrom, ImageMode::Disk] {
        assert_eq!(ImageMode::from_name(m.as_wire()), Some(m));
        assert_eq!(m.as_wire().parse::<ImageMode>(), Ok(m));
    }
    assert_eq!(ImageMode::from_name("CDROM"), None);
    assert!("usb".parse::<ImageMode>().is_err());
}

#[test]
fn labels_flags_and_headlines() {
    assert_eq!(ImageMode::Cdrom.label(), "USB CD-ROM");
    assert_eq!(ImageMode::Disk.label(), "USB disk");
    assert_eq!(ImageMode::Cdrom.cdrom_flag(), "1");
    assert_eq!(ImageMode::Disk.cdrom_flag(), "0");
    assert_eq!(DriveState::Idle.headline(), "Ready");
    assert_eq!(DriveState::Preparing.headline(), "Preparing…");
    assert_eq!(DriveState::Ejecting.headline(), "Ejecting…");
    assert_eq!(DriveState::Unavailable.headline(), "Unavailable");
}

#[test]
fn defaults_are_unavailable_and_cdrom() {
    assert_eq!(ImageMode::default(), ImageMode::Cdrom);
    assert_eq!(DriveState::default(), DriveState::Unavailable);
    let info = StateInfo::default();
    assert_eq!(info.state, DriveState::Unavailable);
    assert!(info.display_name.is_empty());
    assert_eq!(info.snapshot(), info);
}

#[test]
fn current_image_link_lives_in_the_data_dir() {
    assert_eq!(
        current_image_link_in(Some("/home/user")),
        "/home/user/.var/app/net.bresilla.BootDrive/data/bootdrive/current.img"
    );
    assert_eq!(
        current_image_link_in(Some("/home/user/")),
        "/home/user/.var/app/net.bresilla.BootDrive/data/bootdrive/current.img"
    );
    assert_eq!(
        current_image_link_in(None),
        "/root/.var/app/net.bresilla.BootDrive/data/bootdrive/current.img"
    );
}

#[test]
fn white_space_is_std_white_space() {
    for u in 0u32..=0x10ffff {
        if let Some(c) = char::from_u32(u) {
            assert_eq!(bootdrive::text::is_white_space(c), c.is_whitespace(), "U+{u:04X}");
        }
    }
}

#[test]
fn file_names_follow_std() {
    let paths = [
        "/x/debian.iso", "debian.iso", "/x/", "/", "", ".", "./", "..", "/x/..", "a/.", "./a",
        "a//b", "a/b/./", "/x/..y", "/x/.hidden", "a/b/../c", "a/.../b", "////", "x/./.",
    ];
    for p in paths {
        let expected = std::path::Path::new(p)
            .file_name()
            .map(|n| n.to_string_lossy().into_owned())
            .unwrap_or_else(|| "image".to_string());
        assert_eq!(bootdrive::image_selection::basename_or_image_exec(p), expected, "path {p:?}");
        let ext = std::path::Path::new(p).extension().map(|e| e.to_string_lossy().into_owned());
        assert_eq!(bootdrive::paths::extension(p), ext, "path {p:?}");
    }
}

#[test]
fn memory_store_keeps_the_last_record() {
    let mut store = MemoryRecoveryStore::new();
    assert_eq!(store.load().unwrap(), None);
    let rec = RecoveryState {
        gadget_name: "bootdrive".into(),
        signaller_was_running: true,
        display_name: "x.iso".into(),
        mode: ImageMode::Cdrom,
    };
    store.save(&rec).unwrap();
    assert_eq!(store.load().unwrap(), Some(rec));
    store.clear().unwrap();
    assert_eq!(store.load().unwrap(), None);
    store.clear().unwrap();
}

#[test]
fn memory_store_made_with_a_record_loads_it() {
    let rec = RecoveryState {
        gadget_name: "bootdrive".into(),
        signaller_was_running: false,
        display_name: "y.img".into(),
        mode: ImageMode::Disk,
    };
    let mut store = MemoryRecoveryStore::with_record(rec.clone());
    assert_eq!(store.load().unwrap(), Some(rec));
    store.clear().unwrap();
    assert_eq!(store.load().unwrap(), None);
}
