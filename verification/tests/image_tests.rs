use bootdrive::error::ErrorCode;
use bootdrive::image::{
    caller_can_read, check_facts, safe_display_name, validated_image, writable_by_untrusted,
    display_name_from, validate, Caller, FileFacts, PathLookup,
};
use bootdrive::paths::{extension, extension_of_name, lower_extension};

fn facts(mode: u32, uid: u32, gid: u32) -> FileFacts {
    FileFacts { is_regular: true, size: 4096, uid, gid, mode }
}

#[test]
fn owner_read_bit_governs_owner() {
    let caller = Caller { uid: 1000, gids: vec![1000] };
    assert!(caller_can_read(&caller, &facts(0o600, 1000, 1000)));
    assert!(!caller_can_read(&caller, &facts(0o066, 1000, 1000)));
}

#[test]
fn group_membership_grants_read() {
    let caller = Caller { uid: 1000, gids: vec![1000, 27] };
    assert!(caller_can_read(&caller, &facts(0o640, 0, 27)));
    let stranger = Caller { uid: 1000, gids: vec![1000] };
    assert!(!caller_can_read(&stranger, &facts(0o640, 0, 27)));
}

#[test]
fn other_read_is_last_resort() {
    let caller = Caller { uid: 1000, gids: vec![1000] };
    assert!(caller_can_read(&caller, &facts(0o604, 0, 0)));
    assert!(!caller_can_read(&caller, &facts(0o600, 0, 0)));
}

#[test]
fn root_reads_anything() {
    let root = Caller { uid: 0, gids: vec![0] };
    assert!(caller_can_read(&root, &facts(0o000, 1000, 1000)));
}

#[test]
fn world_writable_is_rejected() {
    assert!(writable_by_untrusted(&facts(0o666, 1000, 1000)));
    assert!(!writable_by_untrusted(&facts(0o644, 1000, 1000)));
}

#[test]
fn nonroot_group_writable_is_rejected() {
    assert!(writable_by_untrusted(&facts(0o664, 1000, 1000)));
    assert!(!writable_by_untrusted(&facts(0o664, 1000, 0)));
}

#[test]
fn empty_file_rejected() {
    let caller = Caller { uid: 1000, gids: vec![1000] };
    let mut f = facts(0o644, 1000, 1000);
    f.size = 0;
    let err = check_facts(&f, &caller).unwrap_err();
    assert_eq!(err.code, ErrorCode::InvalidImage);
}

#[test]
fn non_regular_rejected() {
    let caller = Caller { uid: 1000, gids: vec![1000] };
    let mut f = facts(0o644, 1000, 1000);
    f.is_regular = false;
    assert!(check_facts(&f, &caller).is_err());
}

#[test]
fn good_file_passes() {
    let caller = Caller { uid: 1000, gids: vec![1000] };
    assert!(check_facts(&facts(0o644, 1000, 1000), &caller).is_ok());
}

#[test]
fn display_name_strips_paths() {
    assert_eq!(safe_display_name("/x/debian.iso", "../../etc/passwd"), "debian.iso");
    assert_eq!(safe_display_name("/x/debian.iso", "Debian 13"), "Debian 13");
}

#[test]
fn each_rule_has_its_message() {
    let caller = Caller { uid: 1000, gids: vec![1000] };
    let mut f = facts(0o644, 1000, 1000);
    f.is_regular = false;
    assert_eq!(check_facts(&f, &caller).unwrap_err().message, "the selected item is not a regular file");
    let mut f = facts(0o644, 1000, 1000);
    f.size = 0;
    assert_eq!(check_facts(&f, &caller).unwrap_err().message, "the selected file is empty");
    let e = check_facts(&facts(0o600, 0, 0), &caller).unwrap_err();
    assert_eq!(e.code, ErrorCode::InvalidImage);
    assert_eq!(e.message, "you do not have permission to read the selected file");
    let e = check_facts(&facts(0o646, 1000, 1000), &caller).unwrap_err();
    assert_eq!(
        e.message,
        "the selected file is writable by other users and cannot be exposed safely"
    );
}

#[test]
fn display_name_trims_and_falls_back() {
    assert_eq!(safe_display_name("/x/debian.iso", "  Debian 13  "), "Debian 13");
    assert_eq!(safe_display_name("/x/debian.iso", "   "), "debian.iso");
    assert_eq!(safe_display_name("/", ""), "image");
    assert_eq!(safe_display_name("/x/..", "a/b"), "image");
    assert_eq!(safe_display_name("/x/dir/", ""), "dir");
}

#[test]
fn validated_image_keeps_path_and_size() {
    let caller = Caller { uid: 1000, gids: vec![1000] };
    let img = validated_image("/x/debian.iso", "", &facts(0o644, 1000, 1000), &caller).unwrap();
    assert_eq!(img.path, "/x/debian.iso");
    assert_eq!(img.display_name, "debian.iso");
    assert_eq!(img.size, 4096);
    let e = validated_image("/x/debian.iso", "", &facts(0o600, 0, 0), &caller).unwrap_err();
    assert_eq!(e.code, ErrorCode::InvalidImage);
}

#[test]
fn file_names_and_extensions_follow_std() {
    assert_eq!(extension("/x/.."), None);
    assert_eq!(extension("/x/debian.iso/"), Some("iso".to_string()));
    assert_eq!(extension("/x/debian.iso"), Some("iso".to_string()));
    assert_eq!(extension("/x/archive.tar.gz"), Some("gz".to_string()));
    assert_eq!(extension("/x/.bashrc"), None);
    assert_eq!(extension("/x/noext"), None);
    assert_eq!(extension("/x/trailing."), Some(String::new()));
    assert_eq!(lower_extension("/x/DISK.IMG"), "img");
    assert_eq!(lower_extension("/x/noext"), "");
}

#[test]
fn validate_reports_a_missing_file() {
    let caller = Caller { uid: 1000, gids: vec![1000] };
    let err = validate(PathLookup::NotFound, "", &caller).unwrap_err();
    assert_eq!(err.code, ErrorCode::InvalidImage);
    assert_eq!(err.message, "the selected file could not be found or is no longer accessible");
}

#[test]
fn validate_reports_an_uninspectable_file() {
    let caller = Caller { uid: 1000, gids: vec![1000] };
    let err = validate(PathLookup::Uninspectable, "", &caller).unwrap_err();
    assert_eq!(err.code, ErrorCode::InvalidImage);
    assert_eq!(err.message, "the selected file could not be inspected");
}

#[test]
fn validate_accepts_a_readable_file() {
    let caller = Caller { uid: 1000, gids: vec![1000] };
    let lookup = PathLookup::Found { path: "/home/u/debian.iso".to_string(), facts: facts(0o644, 1000, 1000) };
    let img = validate(lookup, "", &caller).unwrap();
    assert_eq!(img.path, "/home/u/debian.iso");
    assert_eq!(img.display_name, "debian.iso");
    assert_eq!(img.size, 4096);
}

#[test]
fn validate_rejects_a_world_writable_file() {
    let caller = Caller { uid: 1000, gids: vec![1000] };
    let lookup = PathLookup::Found { path: "/tmp/x.iso".to_string(), facts: facts(0o666, 1000, 1000) };
    let err = validate(lookup, "name", &caller).unwrap_err();
    assert_eq!(err.code, ErrorCode::InvalidImage);
}

#[test]
fn extension_of_a_name() {
    assert_eq!(extension_of_name("debian.iso"), Some("iso".to_string()));
    assert_eq!(extension_of_name("archive.tar.gz"), Some("gz".to_string()));
    assert_eq!(extension_of_name(".bashrc"), None);
    assert_eq!(extension_of_name(".."), None);
    assert_eq!(extension_of_name("trailing."), Some(String::new()));
    assert_eq!(extension_of_name("noext"), None);
}

#[test]
fn display_name_choice() {
    assert_eq!(display_name_from(Some("x.iso".to_string()), "  Debian  "), "Debian");
    assert_eq!(display_name_from(Some("x.iso".to_string()), "a/b"), "x.iso");
    assert_eq!(display_name_from(Some("x.iso".to_string()), "   "), "x.iso");
    assert_eq!(display_name_from(None, ""), "image");
}
