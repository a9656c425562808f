//! Selected-image validation.
//!
//! `bootdrived` runs as root, so it must not blindly open a path handed to it
//! by an unprivileged frontend. The rules here decide, from file metadata
//! gathered by the application, whether a file may be exposed: it must be a
//! non-empty regular file that the *calling* user can read, and while it is
//! exposed it must not be writable by untrusted users.

use vstd::prelude::*;

use crate::error::{BootDriveError, ErrorCode};
use crate::paths::{file_name, path_file_name};
use crate::text::{chars_of, string_of, trim_chars, trim_spec};

verus! {

/// A path that has passed every validation rule and is safe to expose.
#[derive(Debug, Clone, PartialEq, Eq)]
pub struct ValidatedImage {
    /// Canonicalized, absolute host path to the backing file.
    pub path: String,
    /// GUI-safe display name (never a full path).
    pub display_name: String,
    /// Size of the file in bytes.
    pub size: u64,
}

/// The mathematical content of a [`ValidatedImage`].
pub struct ValidatedImageView {
    pub path: Seq<char>,
    pub display_name: Seq<char>,
    pub size: u64,
}

impl View for ValidatedImage {
    type V = ValidatedImageView;

    open spec fn view(&self) -> ValidatedImageView {
        ValidatedImageView { path: self.path@, display_name: self.display_name@, size: self.size }
    }
}

impl ValidatedImage {
    /// A copy of this image description.
    pub fn duplicate(&self) -> (r: ValidatedImage)
        ensures
            r@ == self@,
    {
        ValidatedImage {
            path: self.path.clone(),
            display_name: self.display_name.clone(),
            size: self.size,
        }
    }
}

/// File metadata needed for validation, gathered by the caller.
#[derive(Debug, Clone, Copy)]
pub struct FileFacts {
    /// `true` if this is a regular file (not a dir, device, socket or FIFO).
    pub is_regular: bool,
    /// Size in bytes.
    pub size: u64,
    /// Owning uid.
    pub uid: u32,
    /// Owning gid.
    pub gid: u32,
    /// Permission bits (the low 12 bits of the mode).
    pub mode: u32,
}

/// The uid/gids of the D-Bus caller, resolved from bus credentials (never
/// from a client-supplied parameter).
#[derive(Debug, Clone)]
pub struct Caller {
    /// Caller uid.
    pub uid: u32,
    /// Supplementary + primary gids of the caller, best-effort.
    pub gids: Vec<u32>,
}

impl Caller {
    /// Whether the caller is a member of the given gid.
    fn in_group(&self, gid: u32) -> (r: bool)
        ensures
            r == self.gids@.contains(gid),
    {
        let mut i: usize = 0;
        while i < self.gids.len()
            invariant
                i <= self.gids@.len(),
                forall|j: int| 0 <= j < i ==> self.gids@[j] != gid,
            decreases self.gids@.len() - i,
        {
            if self.gids[i] == gid {
                return true;
            }
            i = i + 1;
        }
        false
    }
}

/// Standard POSIX read permission: root always may; the owner is governed by
/// the owner bit, a group member by the group bit, anyone else by the other
/// bit.
pub open spec fn can_read(uid: u32, gids: Seq<u32>, facts: FileFacts) -> bool {
    if uid == 0 {
        true
    } else if uid == facts.uid {
        facts.mode & 0o400 != 0
    } else if gids.contains(facts.gid) {
        facts.mode & 0o040 != 0
    } else {
        facts.mode & 0o004 != 0
    }
}

/// World-writable, or group-writable by a group other than root.
pub open spec fn untrusted_writable(facts: FileFacts) -> bool {
    facts.mode & 0o002 != 0 || (facts.mode & 0o020 != 0 && facts.gid != 0)
}

/// Decide whether `caller` may read a file with `facts`.
pub fn caller_can_read(caller: &Caller, facts: &FileFacts) -> (r: bool)
    ensures
        r == can_read(caller.uid, caller.gids@, *facts),
{
    if caller.uid == 0 {
        return true;
    }
    if caller.uid == facts.uid {
        return facts.mode & 0o400 != 0;
    }
    if caller.in_group(facts.gid) {
        return facts.mode & 0o040 != 0;
    }
    facts.mode & 0o004 != 0
}

/// Whether the file is writable by users we do not trust while it is
/// exposed. World-writable is always rejected; group-writable is rejected
/// unless the group is root (gid 0).
pub fn writable_by_untrusted(facts: &FileFacts) -> (r: bool)
    ensures
        r == untrusted_writable(*facts),
{
    if facts.mode & 0o002 != 0 {
        return true;
    }
    if facts.mode & 0o020 != 0 && facts.gid != 0 {
        return true;
    }
    false
}

/// The message of the first rule a file breaks, if any.
pub open spec fn facts_problem(facts: FileFacts, uid: u32, gids: Seq<u32>) -> Option<Seq<char>> {
    if !facts.is_regular {
        Some("the selected item is not a regular file"@)
    } else if facts.size == 0 {
        Some("the selected file is empty"@)
    } else if !can_read(uid, gids, facts) {
        Some("you do not have permission to read the selected file"@)
    } else if untrusted_writable(facts) {
        Some("the selected file is writable by other users and cannot be exposed safely"@)
    } else {
        None
    }
}

/// Apply every content rule to already-gathered facts.
pub fn check_facts(facts: &FileFacts, caller: &Caller) -> (r: Result<(), BootDriveError>)
    ensures
        match facts_problem(*facts, caller.uid, caller.gids@) {
            None => r is Ok,
            Some(msg) => r matches Err(e) && e.code == ErrorCode::InvalidImage && e.message@
                == msg,
        },
{
    if !facts.is_regular {
        return Err(
            BootDriveError::new(
                ErrorCode::InvalidImage,
                String::from_str("the selected item is not a regular file"),
            ),
        );
    }
    if facts.size == 0 {
        return Err(
            BootDriveError::new(
                ErrorCode::InvalidImage,
                String::from_str("the selected file is empty"),
            ),
        );
    }
    if !caller_can_read(caller, facts) {
        return Err(
            BootDriveError::new(
                ErrorCode::InvalidImage,
                String::from_str("you do not have permission to read the selected file"),
            ),
        );
    }
    if writable_by_untrusted(facts) {
        return Err(
            BootDriveError::new(
                ErrorCode::InvalidImage,
                String::from_str(
                    "the selected file is writable by other users and cannot be exposed safely",
                ),
            ),
        );
    }
    Ok(())
}

/// The display name chosen from the requested name and the file's name:
/// the requested name, trimmed, when it is non-empty and holds no `/`; else
/// the file name; else `image`.
pub open spec fn display_name_choice(name: Option<Seq<char>>, requested: Seq<char>) -> Seq<char> {
    let r = trim_spec(requested);
    if r.len() > 0 && !r.contains('/') {
        r
    } else {
        match name {
            Some(n) => n,
            None => "image"@,
        }
    }
}

/// The display name for an image at `path`.
pub open spec fn display_name_for(path: Seq<char>, requested: Seq<char>) -> Seq<char> {
    display_name_choice(path_file_name(path), requested)
}

/// Choose a display name from the requested one and the file's name. It
/// holds no `/` whenever the file name holds none.
pub fn display_name_from(name: Option<String>, requested: &str) -> (r: String)
    ensures
        r@ == display_name_choice(
            match name {
                Some(n) => Some(n@),
                None => None,
            },
            requested@,
        ),
        (name matches Some(n) ==> !n@.contains('/')) ==> !r@.contains('/'),
        (name matches Some(n) ==> n@.len() > 0) ==> r@.len() > 0,
{
    let req = chars_of(requested);
    let t = trim_chars(req.as_slice());
    let mut has_slash = false;
    let mut i: usize = 0;
    while i < t.len()
        invariant
            i <= t@.len(),
            has_slash == (exists|j: int| 0 <= j < i && t@[j] == '/'),
        decreases t@.len() - i,
    {
        if t[i] == '/' {
            has_slash = true;
        }
        i = i + 1;
    }
    assert(has_slash == t@.contains('/'));
    if t.len() > 0 && !has_slash {
        return string_of(t.as_slice());
    }
    match name {
        Some(n) => n,
        None => {
            let r = String::from_str("image");
            proof {
                reveal_strlit("image");
                assert(forall|j: int| 0 <= j < r@.len() ==> r@[j] != '/');
            }
            r
        },
    }
}

/// A derived, GUI-safe display name: prefer the caller-supplied one, else
/// the file's basename. Never contains directory components.
pub fn safe_display_name(path: &str, requested: &str) -> (r: String)
    ensures
        r@ == display_name_for(path@, requested@),
        !r@.contains('/'),
        r@.len() > 0,
{
    display_name_from(file_name(path), requested)
}

/// The validation decision for a file already canonicalized and inspected
/// by the caller: the rules of [`check_facts`], then the image description.
pub fn validated_image(path: &str, requested_name: &str, facts: &FileFacts, caller: &Caller) -> (r:
    Result<ValidatedImage, BootDriveError>)
    ensures
        match facts_problem(*facts, caller.uid, caller.gids@) {
            None => r matches Ok(img) && img.path@ == path@ && img.display_name@
                == display_name_for(path@, requested_name@) && img.size == facts.size,
            Some(msg) => r matches Err(e) && e.code == ErrorCode::InvalidImage && e.message@
                == msg,
        },
{
    match check_facts(facts, caller) {
        Err(e) => Err(e),
        Ok(()) => Ok(
            ValidatedImage {
                display_name: safe_display_name(path, requested_name),
                path: String::from_str(path),
                size: facts.size,
            },
        ),
    }
}

/// What looking the selected path up on the filesystem produced.
#[derive(Debug, Clone)]
pub enum PathLookup {
    /// The path could not be canonicalized: it is missing or no longer
    /// accessible.
    NotFound,
    /// The canonical path could not be inspected.
    Uninspectable,
    /// The canonical path and the metadata found there.
    Found {
        /// Canonicalized, absolute path.
        path: String,
        /// Its metadata.
        facts: FileFacts,
    },
}

/// Validate a selected path from what the filesystem said of it. Every
/// error message is GUI-safe and never echoes the path.
pub fn validate(lookup: PathLookup, requested_name: &str, caller: &Caller) -> (r: Result<
    ValidatedImage,
    BootDriveError,
>)
    ensures
        match lookup {
            PathLookup::NotFound => r matches Err(e) && e.code == ErrorCode::InvalidImage
                && e.message@ == "the selected file could not be found or is no longer accessible"@,
            PathLookup::Uninspectable => r matches Err(e) && e.code == ErrorCode::InvalidImage
                && e.message@ == "the selected file could not be inspected"@,
            PathLookup::Found { path, facts } => match facts_problem(facts, caller.uid, caller.gids@) {
                None => r matches Ok(img) && img.path@ == path@ && img.display_name@
                    == display_name_for(path@, requested_name@) && img.size == facts.size,
                Some(msg) => r matches Err(e) && e.code == ErrorCode::InvalidImage && e.message@
                    == msg,
            },
        },
{
    match lookup {
        PathLookup::NotFound => Err(
            BootDriveError::invalid_image(
                String::from_str("the selected file could not be found or is no longer accessible"),
            ),
        ),
        PathLookup::Uninspectable => Err(
            BootDriveError::invalid_image(
                String::from_str("the selected file could not be inspected"),
            ),
        ),
        PathLookup::Found { path, facts } => validated_image(
            path.as_str(),
            requested_name,
            &facts,
            caller,
        ),
    }
}

/// A world-writable file is writable by untrusted users whatever its owner
/// and group; a group-writable one unless its group is root's; a file
/// writable by neither group nor others is not.
pub proof fn lemma_untrusted_writable(facts: FileFacts)
    ensures
        facts.mode & 0o002 != 0 ==> untrusted_writable(facts),
        facts.mode & 0o020 != 0 && facts.gid != 0 ==> untrusted_writable(facts),
        facts.mode & 0o020 != 0 && facts.gid == 0 && facts.mode & 0o002 == 0 ==> !untrusted_writable(facts),
        facts.mode & 0o022 == 0 ==> !untrusted_writable(facts),
{
    let m = facts.mode;
    assert(m & 0o022 == 0 ==> m & 0o002 == 0 && m & 0o020 == 0) by (bit_vector);
}

/// A regular, non-empty file the caller can read but that others can write
/// is refused with the message about writability, whoever owns it.
pub proof fn lemma_world_writable_refused(facts: FileFacts, uid: u32, gids: Seq<u32>)
    requires
        facts.is_regular,
        facts.size > 0,
        can_read(uid, gids, facts),
        facts.mode & 0o002 != 0,
    ensures
        facts_problem(facts, uid, gids) == Some(
            "the selected file is writable by other users and cannot be exposed safely"@,
        ),
{
}

} // verus!
