use bootdrive::authorization::{group_gid, AllowAllAuthorizer, Authorizer, GroupAuthorizer};
use bootdrive::caller::{from_pkexec_env, from_uid};
use bootdrive::error::ErrorCode;
use bootdrive::image::Caller;

#[test]
fn root_is_always_authorized() {
    let auth = GroupAuthorizer { required_gid: Some(999), group_name: "bootdrive".into() };
    assert!(auth.authorize_activate(&Caller { uid: 0, gids: vec![0] }).is_ok());
}

#[test]
fn member_is_authorized() {
    let auth = GroupAuthorizer { required_gid: Some(42), group_name: "bootdrive".into() };
    assert!(auth.authorize_activate(&Caller { uid: 1000, gids: vec![1000, 42] }).is_ok());
}

#[test]
fn non_member_is_rejected() {
    let auth = GroupAuthorizer { required_gid: Some(42), group_name: "bootdrive".into() };
    let err = auth.authorize_activate(&Caller { uid: 1000, gids: vec![1000] }).unwrap_err();
    assert_eq!(err.code, ErrorCode::NotAuthorized);
}

#[test]
fn missing_group_rejects_non_root() {
    let auth = GroupAuthorizer { required_gid: None, group_name: "bootdrive".into() };
    assert!(auth.authorize_activate(&Caller { uid: 1000, gids: vec![1000] }).is_err());
}

#[test]
fn allow_all_permits_everyone() {
    assert!(AllowAllAuthorizer.authorize_activate(&Caller { uid: 1000, gids: vec![1000] }).is_ok());
}

#[test]
fn missing_env_falls_back_to_root() {
    let c = from_pkexec_env(None, None, None);
    assert_eq!(c.uid, 0);
}

const GROUP_DB: &str = "root:x:0:\nwheel:x:10:alice\nbootdrive:x:977:alice,bob\r\nplugdev:x: 46 :bob,alice\nbroken:x\nbad:x:notanumber:alice\n";
const PASSWD_DB: &str = "root:x:0:0:root:/root:/bin/sh\nalice:x:1000:1000:Alice:/home/alice:/bin/sh\nbob:x:1001:100:Bob:/home/bob:/bin/sh\nshort:x:1002\n";

#[test]
fn group_gid_reads_the_group_database() {
    assert_eq!(group_gid(GROUP_DB, "bootdrive"), Some(977));
    assert_eq!(group_gid(GROUP_DB, "plugdev"), Some(46));
    assert_eq!(group_gid(GROUP_DB, "root"), Some(0));
    assert_eq!(group_gid(GROUP_DB, "nobody"), None);
    assert_eq!(group_gid(GROUP_DB, "broken"), None);
    assert_eq!(group_gid(GROUP_DB, "bad"), None);
    assert_eq!(group_gid("", "bootdrive"), None);
}

#[test]
fn for_group_resolves_and_refuses_with_the_group_name() {
    let auth = GroupAuthorizer::for_group("bootdrive", GROUP_DB);
    assert_eq!(auth.required_gid, Some(977));
    let err = auth.authorize_activate(&Caller { uid: 1000, gids: vec![1000] }).unwrap_err();
    assert_eq!(err.message, "you must be a member of the 'bootdrive' group to expose an image");
    assert!(auth.authorize_activate(&Caller { uid: 1000, gids: vec![977] }).is_ok());
}

#[test]
fn from_uid_collects_primary_and_member_gids() {
    let c = from_uid(1000, Some(PASSWD_DB), Some(GROUP_DB));
    assert_eq!(c.uid, 1000);
    assert_eq!(c.gids, vec![1000, 10, 977, 46]);
    let b = from_uid(1001, Some(PASSWD_DB), Some(GROUP_DB));
    assert_eq!(b.gids, vec![100, 977, 46]);
}

#[test]
fn from_uid_without_databases_or_entry() {
    assert_eq!(from_uid(1000, None, Some(GROUP_DB)).gids, Vec::<u32>::new());
    assert_eq!(from_uid(4242, Some(PASSWD_DB), Some(GROUP_DB)).gids, Vec::<u32>::new());
    assert_eq!(from_uid(1002, Some(PASSWD_DB), Some(GROUP_DB)).gids, Vec::<u32>::new());
    assert_eq!(from_uid(1000, Some(PASSWD_DB), None).gids, vec![1000]);
}

#[test]
fn from_uid_lists_no_gid_twice() {
    let group = "a:x:1000:alice\nb:x:1000:alice\nc:x:5:alice\n";
    let c = from_uid(1000, Some(PASSWD_DB), Some(group));
    assert_eq!(c.gids, vec![1000, 5]);
}

#[test]
fn pkexec_uid_is_parsed_exactly() {
    let c = from_pkexec_env(Some("1000"), Some(PASSWD_DB), Some(GROUP_DB));
    assert_eq!(c.uid, 1000);
    assert_eq!(c.gids, vec![1000, 10, 977, 46]);
    let c = from_pkexec_env(Some(" 1000"), Some(PASSWD_DB), Some(GROUP_DB));
    assert_eq!((c.uid, c.gids), (0, vec![0]));
    let c = from_pkexec_env(Some("+1001"), Some(PASSWD_DB), Some(GROUP_DB));
    assert_eq!(c.uid, 1001);
    let c = from_pkexec_env(Some("4294967296"), None, None);
    assert_eq!(c.uid, 0);
}
