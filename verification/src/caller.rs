//! Resolving the invoking user from the system databases.
//!
//! The helper runs as root, so it must not trust a path blindly. The caller's
//! uid comes from bus credentials (or `pkexec`'s `PKEXEC_UID`); its groups
//! are resolved here from the text of `/etc/passwd` and `/etc/group`, which
//! the application reads.

use vstd::prelude::*;

use crate::image::Caller;
use crate::text::{
    chars_eq, chars_of, lines_chars, lines_of, parse_u32_chars, parse_u32_spec, split_chars,
    split_on, trim_chars, trim_spec, views,
};

verus! {

/// The fields of the first `/etc/passwd` line with at least four fields
/// whose third (trimmed) parses to `uid`.
pub open spec fn passwd_entry(lines: Seq<Seq<char>>, uid: u32) -> Option<Seq<Seq<char>>>
    decreases lines.len(),
{
    if lines.len() == 0 {
        None
    } else {
        let f = split_on(lines[0], ':');
        if f.len() >= 4 && parse_u32_spec(trim_spec(f[2])) == Some(uid) {
            Some(f)
        } else {
            passwd_entry(lines.drop_first(), uid)
        }
    }
}

/// `acc` extended, line by line, with the gid of every `/etc/group` line of
/// at least four fields whose member list (fourth field, comma-separated)
/// names `user` and whose gid parses, unless `acc` already holds that gid.
pub open spec fn add_group_gids(lines: Seq<Seq<char>>, user: Seq<char>, acc: Seq<u32>) -> Seq<u32>
    decreases lines.len(),
{
    if lines.len() == 0 {
        acc
    } else {
        let f = split_on(lines[0], ':');
        let acc2 = if f.len() >= 4 && split_on(f[3], ',').contains(user) {
            match parse_u32_spec(trim_spec(f[2])) {
                Some(g) => if acc.contains(g) {
                    acc
                } else {
                    acc.push(g)
                },
                None => acc,
            }
        } else {
            acc
        };
        add_group_gids(lines.drop_first(), user, acc2)
    }
}

/// The gids of the user with `uid`: the primary gid of its passwd entry (if
/// it parses), then the gids of the groups listing the user by name. No
/// passwd entry (or no passwd text) means no gids.
pub open spec fn caller_gids(uid: u32, passwd: Option<Seq<char>>, group: Option<Seq<char>>) -> Seq<
    u32,
> {
    let entry = match passwd {
        Some(p) => passwd_entry(lines_of(p), uid),
        None => None,
    };
    match entry {
        None => Seq::empty(),
        Some(f) => {
            let primary = match parse_u32_spec(trim_spec(f[3])) {
                Some(g) => seq![g],
                None => Seq::empty(),
            };
            match group {
                Some(g) => add_group_gids(lines_of(g), f[0], primary),
                None => primary,
            }
        },
    }
}

/// The text of an optional string slice.
pub open spec fn opt_text(o: Option<&str>) -> Option<Seq<char>> {
    match o {
        Some(s) => Some(s@),
        None => None,
    }
}

/// Whether a field list holds `name`.
fn holds_field(fields: &Vec<Vec<char>>, name: &[char]) -> (r: bool)
    ensures
        r == views(fields@).contains(name@),
{
    let mut i: usize = 0;
    while i < fields.len()
        invariant
            i <= fields@.len(),
            forall|j: int| 0 <= j < i ==> fields@[j]@ != name@,
        decreases fields@.len() - i,
    {
        if chars_eq(fields[i].as_slice(), name) {
            assert(views(fields@)[i as int] == name@);
            return true;
        }
        i = i + 1;
    }
    assert forall|j: int| 0 <= j < views(fields@).len() implies views(fields@)[j] != name@ by {
        assert(views(fields@)[j] == fields@[j]@);
    }
    false
}

/// Whether a list of gids holds `g`.
fn holds_gid(gids: &Vec<u32>, g: u32) -> (r: bool)
    ensures
        r == gids@.contains(g),
{
    let mut i: usize = 0;
    while i < gids.len()
        invariant
            i <= gids@.len(),
            forall|j: int| 0 <= j < i ==> gids@[j] != g,
        decreases gids@.len() - i,
    {
        if gids[i] == g {
            return true;
        }
        i = i + 1;
    }
    false
}

/// The passwd entry for `uid`, as fields.
fn find_passwd_entry(passwd: &str, uid: u32) -> (r: Option<Vec<Vec<char>>>)
    ensures
        match r {
            Some(f) => passwd_entry(lines_of(passwd@), uid) == Some(views(f@)) && f@.len() >= 4,
            None => passwd_entry(lines_of(passwd@), uid) is None,
        },
{
    let lines = lines_chars(chars_of(passwd).as_slice());
    let ghost all = views(lines@);
    let mut i: usize = 0;
    assert(all.skip(0) =~= all);
    while i < lines.len()
        invariant
            i <= lines@.len(),
            all == views(lines@),
            all == lines_of(passwd@),
            passwd_entry(all, uid) == passwd_entry(all.skip(i as int), uid),
        decreases lines@.len() - i,
    {
        let f = split_chars(lines[i].as_slice(), ':');
        assert(all.skip(i as int)[0] == lines@[i as int]@);
        assert(all.skip(i as int).drop_first() =~= all.skip(i + 1));
        if f.len() >= 4 {
            let t = trim_chars(f[2].as_slice());
            assert(views(f@)[2] == f@[2]@);
            if parse_u32_chars(t.as_slice()) == Some(uid) {
                return Some(f);
            }
        }
        i = i + 1;
    }
    None
}

/// Resolve a caller's primary and supplementary gids from the text of the
/// system databases (`None` when a database could not be read), given only
/// their uid.
pub fn from_uid(uid: u32, passwd: Option<&str>, group: Option<&str>) -> (c: Caller)
    ensures
        c.uid == uid,
        c.gids@ == caller_gids(uid, opt_text(passwd), opt_text(group)),
{
    let entry = match passwd {
        Some(p) => find_passwd_entry(p, uid),
        None => None,
    };
    let f = match entry {
        None => {
            return Caller { uid, gids: Vec::new() };
        },
        Some(f) => f,
    };
    assert(views(f@)[3] == f@[3]@);
    assert(views(f@)[0] == f@[0]@);
    let mut gids: Vec<u32> = Vec::new();
    let pt = trim_chars(f[3].as_slice());
    match parse_u32_chars(pt.as_slice()) {
        Some(g) => {
            gids.push(g);
        },
        None => {},
    }
    let ghost primary = gids@;
    assert(primary =~= (match parse_u32_spec(trim_spec(views(f@)[3])) {
        Some(g) => seq![g],
        None => Seq::<u32>::empty(),
    }));
    let g = match group {
        None => {
            return Caller { uid, gids };
        },
        Some(g) => g,
    };
    let user = &f[0];
    let lines = lines_chars(chars_of(g).as_slice());
    let ghost all = views(lines@);
    let mut i: usize = 0;
    assert(all.skip(0) =~= all);
    while i < lines.len()
        invariant
            i <= lines@.len(),
            all == views(lines@),
            all == lines_of(g@),
            add_group_gids(all, user@, primary) == add_group_gids(all.skip(i as int), user@, gids@),
        decreases lines@.len() - i,
    {
        let fl = split_chars(lines[i].as_slice(), ':');
        assert(all.skip(i as int)[0] == lines@[i as int]@);
        assert(all.skip(i as int).drop_first() =~= all.skip(i + 1));
        if fl.len() >= 4 {
            assert(views(fl@)[3] == fl@[3]@);
            assert(views(fl@)[2] == fl@[2]@);
            let members = split_chars(fl[3].as_slice(), ',');
            if holds_field(&members, user.as_slice()) {
                let gt = trim_chars(fl[2].as_slice());
                match parse_u32_chars(gt.as_slice()) {
                    Some(gid) => {
                        if !holds_gid(&gids, gid) {
                            gids.push(gid);
                        }
                    },
                    None => {},
                }
            }
        }
        i = i + 1;
    }
    assert(all.skip(lines@.len() as int) =~= Seq::<Seq<char>>::empty());
    Caller { uid, gids }
}

/// The uid `pkexec` exported, if the value parses.
pub open spec fn pkexec_uid(value: Option<Seq<char>>) -> Option<u32> {
    match value {
        Some(v) => parse_u32_spec(v),
        None => None,
    }
}

/// Resolve the invoking caller from the value of `PKEXEC_UID`, falling back
/// to root (uid 0, gid 0) when it is absent or does not parse.
pub fn from_pkexec_env(value: Option<&str>, passwd: Option<&str>, group: Option<&str>) -> (c: Caller)
    ensures
        match pkexec_uid(opt_text(value)) {
            Some(uid) => c.uid == uid && c.gids@ == caller_gids(
                uid,
                opt_text(passwd),
                opt_text(group),
            ),
            None => c.uid == 0 && c.gids@ == seq![0u32],
        },
{
    let uid = match value {
        Some(v) => parse_u32_chars(chars_of(v).as_slice()),
        None => None,
    };
    match uid {
        Some(u) => from_uid(u, passwd, group),
        None => {
            let mut gids: Vec<u32> = Vec::new();
            gids.push(0);
            assert(gids@ =~= seq![0u32]);
            Caller { uid: 0, gids }
        },
    }
}

/// Resolution never lists a gid twice.
pub proof fn lemma_add_group_gids_distinct(lines: Seq<Seq<char>>, user: Seq<char>, acc: Seq<u32>)
    requires
        acc.no_duplicates(),
    ensures
        add_group_gids(lines, user, acc).no_duplicates(),
    decreases lines.len(),
{
    if lines.len() > 0 {
        let f = split_on(lines[0], ':');
        let acc2 = if f.len() >= 4 && split_on(f[3], ',').contains(user) {
            match parse_u32_spec(trim_spec(f[2])) {
                Some(g) => if acc.contains(g) {
                    acc
                } else {
                    acc.push(g)
                },
                None => acc,
            }
        } else {
            acc
        };
        assert(acc2.no_duplicates()) by {
            if acc2 != acc {
                let g = acc2.last();
                assert(acc2 == acc.push(g));
                assert forall|i: int, j: int|
                    0 <= i < acc2.len() && 0 <= j < acc2.len() && i != j implies acc2[i]
                    != acc2[j] by {
                    if i == acc.len() as int {
                        assert(!acc.contains(g));
                        assert(acc2[j] == acc[j]);
                    } else if j == acc.len() as int {
                        assert(!acc.contains(g));
                        assert(acc2[i] == acc[i]);
                    }
                }
            }
        }
        lemma_add_group_gids_distinct(lines.drop_first(), user, acc2);
    }
}

/// The gids resolved for any user never hold duplicates.
pub proof fn lemma_caller_gids_distinct(uid: u32, passwd: Option<Seq<char>>, group: Option<Seq<char>>)
    ensures
        caller_gids(uid, passwd, group).no_duplicates(),
{
    let entry = match passwd {
        Some(p) => passwd_entry(lines_of(p), uid),
        None => None,
    };
    match entry {
        None => {},
        Some(f) => {
            let primary = match parse_u32_spec(trim_spec(f[3])) {
                Some(g) => seq![g],
                None => Seq::<u32>::empty(),
            };
            assert(primary.no_duplicates());
            match group {
                Some(g) => lemma_add_group_gids_distinct(lines_of(g), f[0], primary),
                None => {},
            }
        },
    }
}

} // verus!
