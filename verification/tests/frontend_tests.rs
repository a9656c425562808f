use bootdrive::catalog::{
    distro_key, group_entries, order_by_name, image_count_label, parse_catalog, CatalogEntry, CatalogImage, image_subtitle, image_title, is_offered_arch, media_image,
    pretty_distro, variant_label, variant_name, VariantName,
};
use bootdrive::cli::{expose_mode, expose_outcome};
use bootdrive::daemon_proxy::{classify, headline, split_coded, CallError, UnreachableReason as ProxyReason};
use bootdrive::error::{BootDriveError, ErrorCode};
use bootdrive::image_selection::{extension_of, human_size as selection_human_size, real_uid, resolve_host_path, status_uid_of, Selection};
use bootdrive::library::{human_size, ImageEntry, Library};
use bootdrive::recovery::{RecoveryState, RecoveryStore, RemovalOutcome, StoredRecord};
use bootdrive::service::{requested_mode, to_fdo, FdoKind};
use bootdrive::state::{DriveState, ImageMode};
use bootdrive::ui::{active_after_remove, controls, detail_text, primary_action, state_style, PrimaryAction};
use bootdrive::usb_moded::{
    activation_update, availability, config_failed, config_request, eject_update,
    setup_hint, state_from_mode, supports_mass_storage, DaemonUpdate, UnreachableReason,
};

#[test]
fn image_selection_extension_defaults() {
    let s = Selection::from_host_path("/x/debian.iso".to_string(), Some(4_000_000_000));
    assert_eq!(s.default_mode, ImageMode::Cdrom);
    assert!(s.hybrid);
    assert_eq!(s.display_name, "debian.iso");

    let s = Selection::from_host_path("/x/disk.img".to_string(), None);
    assert_eq!(s.default_mode, ImageMode::Disk);
    assert!(!s.hybrid);
}

#[test]
fn plain_path_passes_through() {
    assert_eq!(resolve_host_path("/home/u/a.iso", None), "/home/u/a.iso".to_string());
}

#[test]
fn portal_path_is_rewritten_with_the_uid() {
    assert_eq!(
        resolve_host_path("/run/flatpak/doc/abc123/debian.iso", Some(1000)),
        "/run/user/1000/doc/abc123/debian.iso"
    );
    assert_eq!(
        resolve_host_path("/run/flatpak/doc/abc123/debian.iso", None),
        "/run/flatpak/doc/abc123/debian.iso"
    );
    assert_eq!(resolve_host_path("/run/user/1000/doc/x/a.iso", Some(5)), "/run/user/1000/doc/x/a.iso");
}

#[test]
fn selection_of_an_upper_case_hybrid() {
    let s = Selection::from_host_path("/x/UBUNTU.ISO".to_string(), None);
    assert!(s.hybrid);
    assert_eq!(s.default_mode, ImageMode::Cdrom);
    assert_eq!(extension_of("/x/RAW.Raw"), "raw");
    assert_eq!(Selection::from_host_path("/".to_string(), None).display_name, "image");
}

#[test]
fn entry_from_iso_is_cdrom_hybrid() {
    let e = ImageEntry::from_path("/x/ubuntu.iso".to_string(), Some(100));
    assert!(e.cdrom);
    assert!(e.hybrid);
    assert_eq!(e.display_name, "ubuntu.iso");
    assert_eq!(e.mode(), ImageMode::Cdrom);
}

#[test]
fn entry_from_img_is_disk() {
    let e = ImageEntry::from_path("/x/disk.img".to_string(), None);
    assert!(!e.cdrom);
    assert!(!e.hybrid);
    assert_eq!(e.mode(), ImageMode::Disk);
}

#[test]
fn library_add_deduplicates_by_path() {
    let mut lib = Library::new();
    lib.add(ImageEntry::from_path("/x/a.iso".to_string(), Some(1)));
    lib.add(ImageEntry::from_path("/x/b.img".to_string(), Some(2)));
    lib.add(ImageEntry::from_path("/x/a.iso".to_string(), Some(3)));
    let paths: Vec<&str> = lib.entries.iter().map(|e| e.path.as_str()).collect();
    assert_eq!(paths, vec!["/x/b.img", "/x/a.iso"]);
    assert_eq!(lib.entries[1].size, Some(3));
    lib.remove(5);
    assert_eq!(lib.entries.len(), 2);
    lib.remove(0);
    assert_eq!(lib.entries.len(), 1);
    assert_eq!(lib.entries[0].path, "/x/a.iso");
}

#[test]
fn proxy_headline_and_error_reading() {
    assert_eq!(headline(DriveState::Active), "Active");
    assert_eq!(headline(DriveState::Error), "Error");
    let denied = CallError::MethodError {
        name: "org.freedesktop.DBus.Error.AccessDenied".into(),
        text: Some("not-authorized: you must be a member".into()),
        display: "x".into(),
    };
    assert_eq!(classify(&denied), ProxyReason::PermissionDenied);
    let gone = CallError::MethodError {
        name: "org.freedesktop.DBus.Error.ServiceUnknown".into(),
        text: None,
        display: "gone".into(),
    };
    assert_eq!(classify(&gone), ProxyReason::NotRunning);
    let other = CallError::Other("io error".into());
    assert_eq!(classify(&other), ProxyReason::Other("io error".into()));
    assert_eq!(
        split_coded(&denied),
        ("not-authorized".to_string(), "you must be a member".to_string())
    );
    assert_eq!(split_coded(&gone), ("internal".to_string(), "gone".to_string()));
    let plain = CallError::MethodError { name: "n".into(), text: Some("no code here".into()), display: "d".into() };
    assert_eq!(split_coded(&plain), ("internal".to_string(), "no code here".to_string()));
    assert_eq!(classify(&plain), ProxyReason::Other("n".into()));
}

#[test]
fn usb_moded_decisions() {
    assert_eq!(state_from_mode("mass_storage_mode"), DriveState::Active);
    assert_eq!(state_from_mode("developer_mode"), DriveState::Idle);
    assert!(supports_mass_storage("developer_mode,mass_storage_mode"));
    assert!(!supports_mass_storage("developer_mode,mass_storage_mode2"));
    assert!(matches!(availability(None), Some(DaemonUpdate::Unreachable(UnreachableReason::NotRunning))));
    assert!(matches!(
        availability(Some("developer_mode")),
        Some(DaemonUpdate::Unreachable(UnreachableReason::NoMassStorage))
    ));
    assert!(availability(Some("mass_storage_mode")).is_none());
    assert_eq!(config_request("/x/a.iso", ImageMode::Cdrom), "image=/x/a.iso,cdrom=1");
    assert_eq!(config_request("/x/a.img", ImageMode::Disk), "image=/x/a.img,cdrom=0");
    assert!(matches!(activation_update(Ok("mass_storage_mode")), DaemonUpdate::State(DriveState::Active)));
    match activation_update(Ok("developer_mode")) {
        DaemonUpdate::Error { message } => {
            assert_eq!(message, "USB stayed in 'developer_mode', check usb-signaller")
        }
        _ => panic!("expected an error"),
    }
    match activation_update(Err("timeout")) {
        DaemonUpdate::Error { message } => assert_eq!(message, "could not expose the image: timeout"),
        _ => panic!("expected an error"),
    }
    assert!(matches!(eject_update(Ok(())), DaemonUpdate::State(DriveState::Idle)));
    match eject_update(Err("x")) {
        DaemonUpdate::Error { message } => assert_eq!(message, "could not eject: x"),
        _ => panic!("expected an error"),
    }
    match config_failed("denied") {
        DaemonUpdate::Error { message } => assert_eq!(message, "could not set image: denied"),
        _ => panic!("expected an error"),
    }
    assert!(setup_hint(&UnreachableReason::NoMassStorage).contains("patched build"));
}

#[test]
fn service_maps_errors_and_modes() {
    let f = to_fdo(&BootDriveError::new(ErrorCode::NotAuthorized, "no".into()));
    assert_eq!(f.kind, FdoKind::AccessDenied);
    assert_eq!(f.text, "not-authorized: no");
    assert_eq!(to_fdo(&BootDriveError::invalid_image("x".into())).kind, FdoKind::InvalidArgs);
    assert_eq!(to_fdo(&BootDriveError::invalid_state("x".into())).kind, FdoKind::InvalidArgs);
    assert_eq!(to_fdo(&BootDriveError::gadget("x".into())).kind, FdoKind::Failed);
    assert_eq!(requested_mode("disk", "/x/a.iso"), ImageMode::Disk);
    assert_eq!(requested_mode("cdrom", "/x/a.img"), ImageMode::Cdrom);
    assert_eq!(requested_mode("", "/x/a.IMG"), ImageMode::Disk);
    assert_eq!(requested_mode("bogus", "/x/a"), ImageMode::Cdrom);
}

#[test]
fn recovery_read_and_clear_outcomes() {
    assert!(RecoveryStore::interpret_load(StoredRecord::Missing).unwrap().is_none());
    assert!(RecoveryStore::interpret_load(StoredRecord::Corrupt("bad".into())).unwrap().is_none());
    let e = RecoveryStore::interpret_load(StoredRecord::Unreadable("denied".into())).unwrap_err();
    assert_eq!(e.code, ErrorCode::Internal);
    assert_eq!(e.message, "could not read recovery state: denied");
    let s = RecoveryState {
        gadget_name: "bootdrive".into(),
        signaller_was_running: true,
        display_name: "debian.iso".into(),
        mode: ImageMode::Cdrom,
    };
    assert_eq!(RecoveryStore::interpret_load(StoredRecord::Parsed(s.clone())).unwrap(), Some(s));
    assert!(RecoveryStore::interpret_clear(RemovalOutcome::NotFound).is_ok());
    assert!(RecoveryStore::interpret_clear(RemovalOutcome::Removed).is_ok());
    assert_eq!(
        RecoveryStore::interpret_clear(RemovalOutcome::Failed("busy".into())).unwrap_err().message,
        "could not clear recovery state: busy"
    );
    assert_eq!(RecoveryStore::new("/tmp/s.json".into()).path(), "/tmp/s.json");
    assert_eq!(RecoveryStore::default_store().path(), "/run/bootdrived/state.json");
}

#[test]
fn catalog_names() {
    assert_eq!(pretty_distro("rhel"), "Red Hat Enterprise Linux");
    assert_eq!(pretty_distro("opensuse"), "openSUSE");
    assert_eq!(pretty_distro("sles"), "SLES");
    assert_eq!(pretty_distro("macosx"), "macOS");
    assert_eq!(pretty_distro("ubuntu"), "Ubuntu");
    assert_eq!(pretty_distro(""), "");
    assert!(is_offered_arch("x86_64") && is_offered_arch("aarch64") && !is_offered_arch("s390x"));
    assert_eq!(variant_label(Some("Ubuntu".into()), "Ubuntu"), None);
    assert_eq!(variant_label(Some("Server".into()), "Ubuntu"), Some("Server".into()));
    assert_eq!(distro_key(None, Some("linux".into()), "Foo"), "linux");
    assert_eq!(distro_key(None, None, "Foo"), "Foo");
    assert_eq!(image_title("Fedora 41", Some("Workstation")), "Fedora 41 · Workstation");
    assert_eq!(image_title("Fedora 41", None), "Fedora 41");
    assert_eq!(image_subtitle("x86_64", true), "x86_64 · live");
    assert_eq!(image_subtitle("aarch64", false), "aarch64 · installer");
    assert_eq!(image_count_label(1), "1 image");
    assert_eq!(image_count_label(12), "12 images");
}

#[test]
fn window_decisions() {
    let disk = ImageEntry::from_path("/x/disk.img".to_string(), None);
    assert_eq!(detail_text(DriveState::Active, Some(&disk)), "Connected as a bootable USB disk.");
    assert_eq!(detail_text(DriveState::Active, None), "Connected as a bootable CD-ROM.");
    assert_eq!(detail_text(DriveState::Idle, None), "Choose an image to get started.");
    assert_eq!(detail_text(DriveState::Error, Some(&disk)), "Ready to expose over USB.");
    assert_eq!(active_after_remove(Some(2), 2), None);
    assert_eq!(active_after_remove(Some(3), 1), Some(2));
    assert_eq!(active_after_remove(Some(0), 1), Some(0));
    assert_eq!(active_after_remove(None, 0), None);
    assert_eq!(primary_action(DriveState::Active, true), PrimaryAction::ConfirmEject);
    assert_eq!(primary_action(DriveState::Idle, false), PrimaryAction::ChooseImage);
    assert_eq!(primary_action(DriveState::Error, true), PrimaryAction::Expose);
    assert_eq!(primary_action(DriveState::Preparing, true), PrimaryAction::Nothing);
    let c = controls(DriveState::Active, false, true, true);
    assert_eq!((c.label, c.destructive, c.button_sensitive, c.mode_sensitive), ("Eject", true, true, false));
    let c = controls(DriveState::Idle, true, true, true);
    assert_eq!((c.label, c.button_sensitive), ("Expose over USB", false));
    let c = controls(DriveState::Idle, false, true, false);
    assert_eq!((c.label, c.button_sensitive, c.mode_sensitive), ("Choose an image", true, true));
    assert_eq!(state_style(DriveState::Ejecting), ("busy", "content-loading-symbolic"));
    assert_eq!(state_style(DriveState::Unavailable), ("idle", "drive-removable-media-symbolic"));
}

#[test]
fn cli_decisions() {
    assert_eq!(expose_mode(true, false, "/x/a.img"), ImageMode::Cdrom);
    assert_eq!(expose_mode(false, true, "/x/a.iso"), ImageMode::Disk);
    assert_eq!(expose_mode(false, false, "/x/a.raw"), ImageMode::Disk);
    assert_eq!(expose_mode(false, false, "/x/a.iso"), ImageMode::Cdrom);
    assert_eq!(
        expose_outcome("cdrom_mode", "cdrom_mode", "/x/a.iso", ImageMode::Cdrom).unwrap(),
        "Exposing /x/a.iso as USB CD-ROM."
    );
    assert_eq!(
        expose_outcome("developer_mode", "cdrom_mode", "/x/a.iso", ImageMode::Cdrom).unwrap_err(),
        "usb-signaller stayed in 'developer_mode', check its logs"
    );
}

fn variants() -> Vec<VariantName> {
    vec![
        VariantName { id: "server".to_string(), name: "Server".to_string() },
        VariantName { id: "ws".to_string(), name: "Workstation".to_string() },
        VariantName { id: "server".to_string(), name: "Server Edition".to_string() },
    ]
}

#[test]
fn variant_name_takes_the_last_declaration() {
    assert_eq!(variant_name(&variants(), "ws"), Some("Workstation".to_string()));
    assert_eq!(variant_name(&variants(), "server"), Some("Server Edition".to_string()));
    assert_eq!(variant_name(&variants(), "kde"), None);
    assert_eq!(variant_name(&Vec::new(), "ws"), None);
}

#[test]
fn media_image_keeps_offered_media_with_a_url() {
    let img = media_image(
        "Fedora 40",
        Some("x86_64"),
        Some("https://example.org/f.iso".to_string()),
        Some("true"),
        Some("Workstation".to_string()),
    )
    .unwrap();
    assert_eq!(img.os_name, "Fedora 40");
    assert_eq!(img.arch, "x86_64");
    assert_eq!(img.url, "https://example.org/f.iso");
    assert!(img.live);
    assert_eq!(img.variant, Some("Workstation".to_string()));
}

#[test]
fn media_image_drops_other_media() {
    let url = Some("u".to_string());
    assert!(media_image("F", Some("ppc64le"), url.clone(), None, None).is_none());
    assert!(media_image("F", None, url.clone(), None, None).is_none());
    assert!(media_image("F", Some("aarch64"), None, None, None).is_none());
    let img = media_image("F", Some("aarch64"), url, Some("false"), Some("F".to_string())).unwrap();
    assert!(!img.live);
    assert_eq!(img.variant, None);
}

#[test]
fn real_uid_prefers_the_environment() {
    assert_eq!(real_uid(Some("1234"), Some("1000\n"), None), Some(1234));
    assert_eq!(real_uid(Some("abc"), Some("1000\n"), None), Some(1000));
}

#[test]
fn real_uid_ignores_an_unset_login_uid() {
    let status = "Name:\tbootdrive\nUid:\t1001\t1001\t1001\t1001\nGid:\t100\n";
    assert_eq!(real_uid(None, Some("4294967295\n"), Some(status)), Some(1001));
    assert_eq!(real_uid(None, None, None), None);
}

#[test]
fn status_uid_reads_the_first_uid_line() {
    assert_eq!(status_uid_of("Uid:  42 43\nUid: 7\n"), Some(42));
    assert_eq!(status_uid_of("Name: x\nGid: 5\n"), None);
    assert_eq!(status_uid_of("Uid:\n"), None);
    assert_eq!(status_uid_of("Uid: x 5\nUid: 6\n"), None);
}

#[test]
fn image_selection_human_size_formats() {
    assert_eq!(selection_human_size(0), "0 B");
    assert_eq!(selection_human_size(1024), "1.0 KB");
    assert_eq!(selection_human_size(4_000_000_000), "3.7 GB");
}

#[test]
fn library_human_size_formats() {
    assert_eq!(human_size(0), "0 B");
    assert_eq!(human_size(4_000_000_000), "3.7 GB");
}

/// The floating-point computation the size text is defined by.
fn float_size(bytes: u64) -> String {
    const UNITS: [&str; 5] = ["B", "KB", "MB", "GB", "TB"];
    let mut size = bytes as f64;
    let mut unit = 0;
    while size >= 1024.0 && unit < UNITS.len() - 1 {
        size /= 1024.0;
        unit += 1;
    }
    if unit == 0 {
        format!("{bytes} {}", UNITS[unit])
    } else {
        format!("{size:.1} {}", UNITS[unit])
    }
}

#[test]
fn human_size_matches_floating_point_formatting() {
    let mut samples: Vec<u64> = vec![
        1, 1023, 1024, 1025, 1280, 1792, 2304, 1_048_575, 1_048_576, 1_572_864,
        1_073_741_823, 1_073_741_824, 1_099_511_627_775, 1_099_511_627_776,
        (1 << 53) - 1, 1 << 53, (1 << 53) + 1, (1 << 53) + 3, u64::MAX, u64::MAX - 1024,
        1023 * 1024 + 973, 1024 * 1024 - 52, 5 * (1 << 40) / 100,
    ];
    let mut x: u64 = 0x9e37_79b9_7f4a_7c15;
    for _ in 0..2000 {
        x ^= x << 13;
        x ^= x >> 7;
        x ^= x << 17;
        samples.push(x >> (x % 60));
    }
    for b in samples {
        assert_eq!(human_size(b), float_size(b), "bytes = {b}");
    }
}

#[test]
fn human_size_rounds_to_one_decimal() {
    assert_eq!(human_size(1023), "1023 B");
    assert_eq!(human_size(1024), "1.0 KB");
    assert_eq!(human_size(1_572_864), "1.5 MB");
    assert_eq!(human_size(u64::MAX), "16777216.0 TB");
}

fn sample_record() -> RecoveryState {
    RecoveryState {
        gadget_name: "bootdrive".into(),
        signaller_was_running: true,
        display_name: "debian.iso".into(),
        mode: ImageMode::Cdrom,
    }
}

#[test]
fn missing_file_is_none() {
    assert_eq!(RecoveryStore::interpret_load(StoredRecord::Missing).unwrap(), None);
}

#[test]
fn save_load_round_trip() {
    let read = StoredRecord::Parsed(sample_record());
    assert_eq!(RecoveryStore::interpret_load(read).unwrap(), Some(sample_record()));
}

#[test]
fn clear_is_idempotent() {
    assert!(RecoveryStore::interpret_clear(RemovalOutcome::Removed).is_ok());
    assert_eq!(RecoveryStore::interpret_load(StoredRecord::Missing).unwrap(), None);
    assert!(RecoveryStore::interpret_clear(RemovalOutcome::NotFound).is_ok());
}

#[test]
fn corrupt_file_is_ignored() {
    let read = StoredRecord::Corrupt("expected value at line 1 column 3".into());
    assert_eq!(RecoveryStore::interpret_load(read).unwrap(), None);
}

const OSINFO_SAMPLE: &str = r#"<libosinfo version="0.0.1">
  <os id="http://fedoraproject.org/fedora/40">
    <name>Fedora 40</name>
    <distro>fedora</distro>
    <version>40</version>
    <variant id="ws"><name>Workstation</name></variant>
    <media arch="x86_64" live="true">
      <variant id="ws"/>
      <url> https://example.org/f40.iso </url>
    </media>
    <media arch="ppc64le"><url>https://example.org/ppc.iso</url></media>
    <media arch="aarch64"><url>https://example.org/f40-aarch64.iso</url></media>
    <media arch="x86_64"/>
  </os>
  <os id="nameless">
    <name>  </name>
    <media arch="x86_64"><url>https://example.org/x.iso</url></media>
  </os>
  <os id="http://example.org/tiny">
    <name>Tiny</name>
    <family>linux</family>
    <media arch="aarch64" live="false"><variant id="none"/><url>t.img</url></media>
  </os>
</libosinfo>"#;

#[test]
fn catalog_entries_of_an_osinfo_document() {
    let entries = parse_catalog(OSINFO_SAMPLE).unwrap();
    assert_eq!(entries.len(), 3);
    let e = &entries[0];
    assert_eq!(e.key, "fedora");
    assert_eq!(e.distro, "Fedora");
    assert_eq!(e.version, Some("40".to_string()));
    assert_eq!(e.image.os_name, "Fedora 40");
    assert_eq!(e.image.variant, Some("Workstation".to_string()));
    assert_eq!(e.image.arch, "x86_64");
    assert!(e.image.live);
    assert_eq!(e.image.url, "https://example.org/f40.iso");
    let e = &entries[1];
    assert_eq!(e.image.arch, "aarch64");
    assert!(!e.image.live);
    assert_eq!(e.image.variant, None);
    let e = &entries[2];
    assert_eq!(e.key, "linux");
    assert_eq!(e.distro, "Linux");
    assert_eq!(e.version, None);
    assert_eq!(e.image.url, "t.img");
    assert_eq!(e.image.variant, None);
}

#[test]
fn catalog_of_malformed_xml_is_none() {
    assert!(parse_catalog("<libosinfo><os>").is_none());
    assert_eq!(parse_catalog("<libosinfo/>").unwrap().len(), 0);
}

fn entry(key: &str, distro: &str, url: &str) -> CatalogEntry {
    CatalogEntry {
        key: key.to_string(),
        distro: distro.to_string(),
        version: None,
        image: CatalogImage {
            os_name: distro.to_string(),
            variant: None,
            arch: "x86_64".to_string(),
            live: true,
            url: url.to_string(),
        },
    }
}

#[test]
fn catalog_entries_group_by_key_in_first_appearance_order() {
    let entries = vec![
        entry("fedora", "Fedora", "a"),
        entry("debian", "Debian", "b"),
        entry("fedora", "Fedora Linux", "c"),
        entry("arch", "Arch", "d"),
        entry("debian", "Debian", "e"),
    ];
    let groups = group_entries(&entries);
    assert_eq!(groups.len(), 3);
    assert_eq!(groups[0].key, "fedora");
    assert_eq!(groups[0].distro, "Fedora");
    assert_eq!(groups[0].members, vec![0, 2]);
    assert_eq!(groups[1].key, "debian");
    assert_eq!(groups[1].members, vec![1, 4]);
    assert_eq!(groups[2].key, "arch");
    assert_eq!(groups[2].distro, "Arch");
    assert_eq!(groups[2].members, vec![3]);
}

#[test]
fn catalog_grouping_of_nothing_is_empty() {
    assert!(group_entries(&Vec::new()).is_empty());
}

#[test]
fn catalog_document_groups_by_distro() {
    let entries = parse_catalog(OSINFO_SAMPLE).unwrap();
    let groups = group_entries(&entries);
    assert_eq!(groups.len(), 2);
    assert_eq!(groups[0].distro, "Fedora");
    assert_eq!(groups[0].members, vec![0, 1]);
    assert_eq!(groups[1].distro, "Linux");
    assert_eq!(groups[1].members, vec![2]);
}

#[test]
fn catalog_groups_order_by_lower_case_name() {
    let entries = vec![
        entry("zorin", "Zorin", "a"),
        entry("fedora", "Fedora", "b"),
        entry("debian", "debian", "c"),
        entry("arch", "Arch", "d"),
    ];
    let groups = group_entries(&entries);
    let order = order_by_name(&groups);
    let names: Vec<&str> = order.iter().map(|&i| groups[i].distro.as_str()).collect();
    assert_eq!(names, vec!["Arch", "debian", "Fedora", "Zorin"]);
}

#[test]
fn catalog_order_of_no_groups_is_empty() {
    assert!(order_by_name(&Vec::new()).is_empty());
}
