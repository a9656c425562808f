//! Turning a user's file choice into something the daemon can open.
//!
//! Inside a Flatpak the chosen file is exported through the XDG Documents
//! portal and appears under `/run/flatpak/doc/<id>/<name>`, a mount only the
//! sandbox sees. [`resolve_host_path`] rewrites such a path to the shared
//! `/run/user/<uid>/doc/<id>/<name>` form, which is visible system-wide.

use vstd::prelude::*;

use crate::paths::{file_name, lower_extension, lower_extension_spec, path_file_name};
use crate::state::{default_mode_for, ImageMode};
use crate::text::{
    chars_eq, chars_of, copy_range, decimal, decimal_string, first_word, first_word_chars,
    lines_chars, lines_of, parse_u32_chars, parse_u32_spec, string_of, trim_chars, trim_spec, views,
};

verus! {

/// A selected image ready to hand to the daemon.
#[derive(Debug, Clone, PartialEq, Eq)]
pub struct Selection {
    /// Host path the daemon should open.
    pub host_path: String,
    /// Display name (basename).
    pub display_name: String,
    /// Size in bytes, if known at selection time.
    pub size: Option<u64>,
    /// Default mode inferred from the extension.
    pub default_mode: ImageMode,
    /// Whether the file looks like a hybrid ISO (may also be exposed as a
    /// disk).
    pub hybrid: bool,
}

/// The display name of a path: its file name, or `image` when it has none.
pub open spec fn basename_or_image(path: Seq<char>) -> Seq<char> {
    match path_file_name(path) {
        Some(n) => n,
        None => "image"@,
    }
}

/// The file name of a path, or `image` when it has none.
pub fn basename_or_image_exec(path: &str) -> (r: String)
    ensures
        r@ == basename_or_image(path@),
{
    match file_name(path) {
        Some(n) => n,
        None => String::from_str("image"),
    }
}

/// Lower-cased extension without the dot, empty when there is none.
pub fn extension_of(path: &str) -> (r: String)
    ensures
        r@ == lower_extension_spec(path@),
{
    lower_extension(path)
}

/// Whether a lower-cased extension is exactly `iso`.
pub fn is_iso(ext: &str) -> (r: bool)
    ensures
        r == (ext@ == "iso"@),
{
    chars_eq(chars_of(ext).as_slice(), chars_of("iso").as_slice())
}

impl Selection {
    /// Build a selection from a resolved host path.
    pub fn from_host_path(path: String, size: Option<u64>) -> (s: Selection)
        ensures
            s.host_path@ == path@,
            s.display_name@ == basename_or_image(path@),
            s.size == size,
            s.default_mode == default_mode_for(lower_extension_spec(path@)),
            s.hybrid == (lower_extension_spec(path@) == "iso"@),
    {
        let display_name = basename_or_image_exec(path.as_str());
        let ext = extension_of(path.as_str());
        Selection {
            default_mode: ImageMode::default_for_extension(ext.as_str()),
            hybrid: is_iso(ext.as_str()),
            display_name,
            host_path: path,
            size,
        }
    }
}

/// The prefix of the per-app Documents portal mount.
pub const FLATPAK_DOC_PREFIX: &'static str = "/run/flatpak/doc/";

/// The host path for a possibly-sandboxed path: a per-app portal path
/// `/run/flatpak/doc/<rest>` becomes `/run/user/<uid>/doc/<rest>` when the
/// uid is known; any other path is returned as-is.
pub open spec fn host_path_for(selected: Seq<char>, uid: Option<u32>) -> Seq<char> {
    let p = FLATPAK_DOC_PREFIX@;
    if selected.len() >= p.len() && selected.take(p.len() as int) == p && uid is Some {
        "/run/user/"@ + decimal(uid->0 as nat) + "/doc/"@ + selected.skip(p.len() as int)
    } else {
        selected
    }
}

/// Resolve a possibly-sandboxed path to a host path, given the real uid of
/// the frontend when it could be determined.
pub fn resolve_host_path(selected: &str, uid: Option<u32>) -> (r: String)
    ensures
        r@ == host_path_for(selected@, uid),
{
    let s = chars_of(selected);
    let p = chars_of(FLATPAK_DOC_PREFIX);
    if s.len() >= p.len() {
        let head = copy_range(s.as_slice(), 0, p.len());
        assert(head@ =~= s@.take(p@.len() as int));
        if chars_eq(head.as_slice(), p.as_slice()) {
            match uid {
                Some(u) => {
                    let rest = copy_range(s.as_slice(), p.len(), s.len());
                    assert(rest@ =~= s@.skip(p@.len() as int));
                    let d = decimal_string(u as u64);
                    let rest_s = string_of(rest.as_slice());
                    return String::from_str("/run/user/").concat(d.as_str()).concat(
                        "/doc/",
                    ).concat(rest_s.as_str());
                },
                None => {},
            }
        }
    }
    String::from_str(selected)
}

/// The rest of the first line of `/proc/self/status` that starts with
/// `Uid:`.
pub open spec fn uid_line(lines: Seq<Seq<char>>) -> Option<Seq<char>>
    decreases lines.len(),
{
    if lines.len() == 0 {
        None
    } else if lines[0].len() >= 4 && lines[0].take(4) == "Uid:"@ {
        Some(lines[0].skip(4))
    } else {
        uid_line(lines.drop_first())
    }
}

/// The real uid recorded in the text of `/proc/self/status`: the first
/// number of its `Uid:` line.
pub open spec fn status_uid(status: Seq<char>) -> Option<u32> {
    match uid_line(lines_of(status)) {
        Some(rest) => match first_word(rest) {
            Some(w) => parse_u32_spec(w),
            None => None,
        },
        None => None,
    }
}

/// The uid in the text of `/proc/self/loginuid`; the all-ones value means
/// "unset".
pub open spec fn login_uid(text: Seq<char>) -> Option<u32> {
    match parse_u32_spec(trim_spec(text)) {
        Some(u) => if u != u32::MAX {
            Some(u)
        } else {
            None
        },
        None => None,
    }
}

/// The frontend's real uid from, in order of preference, the
/// `BOOTDRIVE_UID` variable, `/proc/self/loginuid` and
/// `/proc/self/status` (each given as its text when it could be read).
pub open spec fn real_uid_spec(
    env: Option<Seq<char>>,
    loginuid: Option<Seq<char>>,
    status: Option<Seq<char>>,
) -> Option<u32> {
    let from_env = match env {
        Some(e) => parse_u32_spec(e),
        None => None,
    };
    let from_login = match loginuid {
        Some(l) => login_uid(l),
        None => None,
    };
    if from_env is Some {
        from_env
    } else if from_login is Some {
        from_login
    } else {
        match status {
            Some(s) => status_uid(s),
            None => None,
        }
    }
}

/// Whether a line starts with `Uid:`.
fn is_uid_line(line: &Vec<char>) -> (r: bool)
    ensures
        r == (line@.len() >= 4 && line@.take(4) == "Uid:"@),
{
    if line.len() < 4 {
        return false;
    }
    let head = copy_range(line.as_slice(), 0, 4);
    assert(head@ =~= line@.take(4));
    chars_eq(head.as_slice(), chars_of("Uid:").as_slice())
}

/// The uid recorded in the text of `/proc/self/status`.
pub fn status_uid_of(status: &str) -> (r: Option<u32>)
    ensures
        r == status_uid(status@),
{
    let lines = lines_chars(chars_of(status).as_slice());
    let ghost ls = views(lines@);
    let mut i: usize = 0;
    assert(ls.skip(0) =~= ls);
    while i < lines.len()
        invariant
            i <= lines@.len() == ls.len(),
            ls == views(lines@),
            ls == lines_of(status@),
            uid_line(ls) == uid_line(ls.skip(i as int)),
        decreases lines@.len() - i,
    {
        assert(ls[i as int] == lines@[i as int]@);
        assert(ls.skip(i as int)[0] == ls[i as int]);
        if is_uid_line(&lines[i]) {
            let rest = copy_range(lines[i].as_slice(), 4, lines[i].len());
            assert(rest@ =~= ls[i as int].skip(4));
            return match first_word_chars(rest.as_slice()) {
                Some(w) => parse_u32_chars(w.as_slice()),
                None => None,
            };
        }
        assert(ls.skip(i as int).drop_first() =~= ls.skip(i + 1));
        i = i + 1;
    }
    assert(ls.skip(i as int).len() == 0);
    None
}

/// The frontend's real uid, from the texts the application could read.
pub fn real_uid(env: Option<&str>, loginuid: Option<&str>, status: Option<&str>) -> (r: Option<u32>)
    ensures
        r == real_uid_spec(
            match env {
                Some(e) => Some(e@),
                None => None,
            },
            match loginuid {
                Some(l) => Some(l@),
                None => None,
            },
            match status {
                Some(s) => Some(s@),
                None => None,
            },
        ),
{
    if let Some(e) = env {
        if let Some(n) = parse_u32_chars(chars_of(e).as_slice()) {
            return Some(n);
        }
    }
    if let Some(l) = loginuid {
        let t = trim_chars(chars_of(l).as_slice());
        if let Some(u) = parse_u32_chars(t.as_slice()) {
            if u != 0xffff_ffffu32 {
                return Some(u);
            }
        }
    }
    match status {
        Some(s) => status_uid_of(s),
        None => None,
    }
}

/// A byte count for people, like `3.7 GB` (see [`crate::library::human_size`]).
pub fn human_size(bytes: u64) -> (r: String)
    ensures
        r@ == crate::library::human_size_spec(bytes),
{
    crate::library::human_size(bytes)
}

} // verus!
