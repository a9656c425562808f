//! The decisions of the daemon's system-D-Bus adapter: how a domain error is
//! reported to a client, and which exposure mode a request asks for.

use vstd::prelude::*;

use crate::error::{wire_of, BootDriveError, ErrorCode};
use crate::paths::{extension, extension_spec};
use crate::state::{default_mode_for, mode_from_name, ImageMode};

verus! {

/// The standard D-Bus error a domain error maps to.
#[derive(Debug, Clone, Copy, PartialEq, Eq, Structural)]
pub enum FdoKind {
    /// `org.freedesktop.DBus.Error.AccessDenied`.
    AccessDenied,
    /// `org.freedesktop.DBus.Error.InvalidArgs`.
    InvalidArgs,
    /// `org.freedesktop.DBus.Error.Failed`.
    Failed,
}

/// The D-Bus error a domain error is reported as.
#[derive(Debug, Clone, PartialEq, Eq)]
pub struct FdoError {
    /// Which standard error.
    pub kind: FdoKind,
    /// Its text: `"<code>: <message>"`, so a client that only reads the
    /// reply still recovers the stable code.
    pub text: String,
}

/// The standard error for a code: access denied for an unauthorized
/// caller, invalid arguments for a bad image or state, failure otherwise.
pub open spec fn fdo_kind_of(code: ErrorCode) -> FdoKind {
    match code {
        ErrorCode::NotAuthorized => FdoKind::AccessDenied,
        ErrorCode::InvalidImage | ErrorCode::InvalidState => FdoKind::InvalidArgs,
        _ => FdoKind::Failed,
    }
}

/// Map a domain error to a D-Bus error, preserving the stable code.
pub fn to_fdo(err: &BootDriveError) -> (r: FdoError)
    ensures
        r.kind == fdo_kind_of(err.code),
        r.text@ == wire_of(err.code) + ": "@ + err.message@,
{
    let kind = match err.code {
        ErrorCode::NotAuthorized => FdoKind::AccessDenied,
        ErrorCode::InvalidImage | ErrorCode::InvalidState => FdoKind::InvalidArgs,
        _ => FdoKind::Failed,
    };
    FdoError { kind, text: err.to_string() }
}

/// The mode an activation request asks for: the named mode when `mode` is
/// `cdrom` or `disk`, else the default for the image path's extension.
pub open spec fn requested_mode_spec(mode: Seq<char>, image_path: Seq<char>) -> ImageMode {
    match mode_from_name(mode) {
        Some(m) => m,
        None => default_mode_for(
            match extension_spec(image_path) {
                Some(e) => e,
                None => Seq::empty(),
            },
        ),
    }
}

/// The mode an activation request asks for.
pub fn requested_mode(mode: &str, image_path: &str) -> (r: ImageMode)
    ensures
        r == requested_mode_spec(mode@, image_path@),
{
    match ImageMode::from_name(mode) {
        Some(m) => m,
        None => {
            let ext = match extension(image_path) {
                Some(e) => e,
                None => String::new(),
            };
            ImageMode::default_for_extension(ext.as_str())
        },
    }
}

/// A mode a frontend names on the wire is the mode the daemon reads, for
/// any image path.
pub proof fn lemma_requested_mode_round_trip(m: ImageMode, image_path: Seq<char>)
    ensures
        requested_mode_spec(crate::state::mode_name_of(m), image_path) == m,
{
    crate::state::lemma_mode_name_round_trip(m);
}

} // verus!
