//! Caller authorization.
//!
//! Access is gated on membership of a Unix group (mirrored by the D-Bus
//! policy); root is always allowed. The caller identity is derived from bus
//! credentials by the service layer and passed in as a [`Caller`]; it is
//! never accepted as a method parameter.

use vstd::prelude::*;

use crate::error::{BootDriveError, ErrorCode};
use crate::image::Caller;
use crate::text::{
    chars_eq, chars_of, lines_chars, lines_of, parse_u32_chars, parse_u32_spec, split_chars,
    split_on, trim_chars, trim_spec, views,
};

verus! {

/// Decides whether a caller may perform privileged actions.
pub trait Authorizer {
    /// Authorize an `Activate` request, or return `NotAuthorized`.
    fn authorize_activate(&self, caller: &Caller) -> Result<(), BootDriveError>;
}

/// Group-membership authorizer: root, or a member of the configured gid.
#[derive(Debug, Clone)]
pub struct GroupAuthorizer {
    /// The gid whose members are allowed (`None`: the group does not exist).
    pub required_gid: Option<u32>,
    /// The group's name, for the refusal message.
    pub group_name: String,
}

/// The gid `/etc/group` gives the group `name`: from the first line whose
/// first field is `name`, the third field, trimmed and parsed; none when
/// that line has fewer than three fields or no line names the group.
pub open spec fn group_gid_in(lines: Seq<Seq<char>>, name: Seq<char>) -> Option<u32>
    decreases lines.len(),
{
    if lines.len() == 0 {
        None
    } else {
        let f = split_on(lines[0], ':');
        if f[0] != name {
            group_gid_in(lines.drop_first(), name)
        } else if f.len() < 3 {
            None
        } else {
            parse_u32_spec(trim_spec(f[2]))
        }
    }
}

/// Look up the gid of a group in the text of `/etc/group`. `None` if the
/// group does not exist (in which case only root is authorized).
pub fn group_gid(group_db: &str, name: &str) -> (r: Option<u32>)
    ensures
        r == group_gid_in(lines_of(group_db@), name@),
{
    let lines = lines_chars(chars_of(group_db).as_slice());
    let n = chars_of(name);
    let ghost all = views(lines@);
    let mut i: usize = 0;
    assert(all.skip(0) =~= all);
    while i < lines.len()
        invariant
            i <= lines@.len(),
            all == views(lines@),
            all == lines_of(group_db@),
            n@ == name@,
            group_gid_in(all, name@) == group_gid_in(all.skip(i as int), name@),
        decreases lines@.len() - i,
    {
        let f = split_chars(lines[i].as_slice(), ':');
        assert(all.skip(i as int)[0] == lines@[i as int]@);
        assert(all.skip(i as int).drop_first() =~= all.skip(i + 1));
        proof {
            crate::text::lemma_split_nonempty(lines@[i as int]@, ':');
        }
        assert(views(f@)[0] == f@[0]@);
        if chars_eq(f[0].as_slice(), n.as_slice()) {
            if f.len() < 3 {
                return None;
            }
            assert(views(f@)[2] == f@[2]@);
            let t = trim_chars(f[2].as_slice());
            return parse_u32_chars(t.as_slice());
        }
        i = i + 1;
    }
    None
}

/// The refusal message for a caller outside group `name`.
pub open spec fn refusal_message(name: Seq<char>) -> Seq<char> {
    "you must be a member of the '"@ + name + "' group to expose an image"@
}

/// Whether group authorization admits `caller`: root, or a member of the
/// required gid.
pub open spec fn group_admits(required_gid: Option<u32>, uid: u32, gids: Seq<u32>) -> bool {
    uid == 0 || (required_gid matches Some(g) && gids.contains(g))
}

impl GroupAuthorizer {
    /// Build an authorizer for the named group, resolving its gid from the
    /// text of `/etc/group`.
    pub fn for_group(name: &str, group_db: &str) -> (r: Self)
        ensures
            r.required_gid == group_gid_in(lines_of(group_db@), name@),
            r.group_name@ == name@,
    {
        GroupAuthorizer { required_gid: group_gid(group_db, name), group_name: String::from_str(name) }
    }
}

impl Authorizer for GroupAuthorizer {
    fn authorize_activate(&self, caller: &Caller) -> (r: Result<(), BootDriveError>)
        ensures
            group_admits(self.required_gid, caller.uid, caller.gids@) ==> r is Ok,
            !group_admits(self.required_gid, caller.uid, caller.gids@) ==> (r matches Err(e)
                && e.code == ErrorCode::NotAuthorized && e.message@ == refusal_message(
                self.group_name@,
            )),
    {
        if caller.uid == 0 {
            return Ok(());
        }
        match self.required_gid {
            Some(gid) => {
                let mut i: usize = 0;
                while i < caller.gids.len()
                    invariant
                        i <= caller.gids@.len(),
                        self.required_gid == Some(gid),
                        forall|j: int| 0 <= j < i ==> caller.gids@[j] != gid,
                    decreases caller.gids@.len() - i,
                {
                    if caller.gids[i] == gid {
                        assert(caller.gids@[i as int] == gid);
                        return Ok(());
                    }
                    i = i + 1;
                }
            },
            None => {},
        }
        let m = String::from_str("you must be a member of the '").concat(
            self.group_name.as_str(),
        ).concat("' group to expose an image");
        Err(BootDriveError::new(ErrorCode::NotAuthorized, m))
    }
}

/// Authorizer that permits everyone. Test/development use only.
#[derive(Debug, Clone, Copy)]
pub struct AllowAllAuthorizer;

impl Authorizer for AllowAllAuthorizer {
    fn authorize_activate(&self, _caller: &Caller) -> (r: Result<(), BootDriveError>)
        ensures
            r is Ok,
    {
        Ok(())
    }
}

/// Root is always authorized, whatever the group.
pub proof fn lemma_root_always_admitted(required_gid: Option<u32>, gids: Seq<u32>)
    ensures
        group_admits(required_gid, 0, gids),
{
}

/// Without the group, only root is authorized.
pub proof fn lemma_missing_group_admits_only_root(uid: u32, gids: Seq<u32>)
    ensures
        group_admits(None, uid, gids) == (uid == 0),
{
}

} // verus!
