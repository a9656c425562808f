//! The frontend's view of the BootDrive daemon over the system bus: the
//! messages exchanged between the GUI thread and the D-Bus worker, and the
//! worker's reading of failed calls.

use vstd::prelude::*;

use crate::state::{headline_of, DriveState, ImageMode, StateInfo};
use crate::text::{chars_of, copy_range, find_chars, find_from, occurs_in, string_of};

verus! {

/// Update pushed from the D-Bus thread to the GTK thread.
#[derive(Debug, Clone)]
pub enum DaemonUpdate {
    /// A fresh state snapshot (initial fetch or `StateChanged`).
    State(StateInfo),
    /// The daemon reported (or a call returned) an error.
    Error {
        /// Stable machine-readable code.
        code: String,
        /// Human-readable message.
        message: String,
    },
    /// The daemon is unreachable (not installed / not running / no
    /// permission).
    Unreachable(UnreachableReason),
}

/// Why the daemon could not be reached, mapped to a GUI setup hint.
#[derive(Debug, Clone, PartialEq, Eq)]
pub enum UnreachableReason {
    /// The well-known name has no owner (service not installed / not
    /// started).
    NotRunning,
    /// The bus denied access to the name/method.
    PermissionDenied,
    /// Any other connection failure.
    Other(String),
}

/// Command pushed from the GTK thread to the D-Bus thread.
#[derive(Debug, Clone)]
pub enum DaemonCommand {
    /// Ask the daemon to expose an image.
    Activate {
        /// Resolved host path.
        path: String,
        /// GUI-safe display name.
        display_name: String,
        /// Exposure mode.
        mode: ImageMode,
    },
    /// Ask the daemon to eject.
    Deactivate,
}

/// A failed D-Bus call, as the worker sees it.
#[derive(Debug, Clone)]
pub enum CallError {
    /// The remote method returned an error.
    MethodError {
        /// The D-Bus error name.
        name: String,
        /// The error's text, if any.
        text: Option<String>,
        /// How the error displays.
        display: String,
    },
    /// Any other failure; how it displays.
    Other(String),
}

/// The reason a failed call gives for the daemon being unreachable: a
/// method error whose name mentions `AccessDenied` or `NotAuthorized` means
/// no permission; one that mentions `ServiceUnknown` or `NameHasNoOwner`
/// means not running; anything else is reported by name (or display).
pub open spec fn classify_spec(name: Option<Seq<char>>) -> Option<bool> {
    match name {
        Some(n) => if occurs_in(n, "AccessDenied"@) || occurs_in(n, "NotAuthorized"@) {
            Some(true)
        } else if occurs_in(n, "ServiceUnknown"@) || occurs_in(n, "NameHasNoOwner"@) {
            Some(false)
        } else {
            None
        },
        None => None,
    }
}

/// Whether `t` occurs in `s`.
fn mentions(s: &str, t: &str) -> (r: bool)
    ensures
        r == occurs_in(s@, t@),
{
    find_chars(chars_of(s).as_slice(), chars_of(t).as_slice()).is_some()
}

/// Classify a failed call into an [`UnreachableReason`].
pub fn classify(err: &CallError) -> (r: UnreachableReason)
    ensures
        match err {
            CallError::MethodError { name, .. } => match classify_spec(Some(name@)) {
                Some(true) => r == UnreachableReason::PermissionDenied,
                Some(false) => r == UnreachableReason::NotRunning,
                None => r matches UnreachableReason::Other(n) && n@ == name@,
            },
            CallError::Other(d) => r matches UnreachableReason::Other(n) && n@ == d@,
        },
{
    match err {
        CallError::MethodError { name, .. } => {
            let n = name.as_str();
            if mentions(n, "AccessDenied") || mentions(n, "NotAuthorized") {
                UnreachableReason::PermissionDenied
            } else if mentions(n, "ServiceUnknown") || mentions(n, "NameHasNoOwner") {
                UnreachableReason::NotRunning
            } else {
                UnreachableReason::Other(name.clone())
            }
        },
        CallError::Other(d) => UnreachableReason::Other(d.clone()),
    }
}

/// The `(code, message)` a method error text carries: split at the first
/// `": "`, else the code `internal` and the whole text.
pub open spec fn split_coded_text(text: Seq<char>) -> (Seq<char>, Seq<char>) {
    match find_from(text, ": "@, 0) {
        Some(i) => (text.take(i), text.skip(i + 2)),
        None => ("internal"@, text),
    }
}

/// Split a `"code: message"` method error back into its parts; a failure
/// without such a text is `internal` with its display.
pub fn split_coded(err: &CallError) -> (r: (String, String))
    ensures
        match err {
            CallError::MethodError { text: Some(t), .. } => r.0@ == split_coded_text(t@).0 && r.1@
                == split_coded_text(t@).1,
            CallError::MethodError { text: None, display, .. } => r.0@ == "internal"@ && r.1@
                == display@,
            CallError::Other(d) => r.0@ == "internal"@ && r.1@ == d@,
        },
{
    match err {
        CallError::MethodError { text: Some(t), .. } => {
            let v = chars_of(t.as_str());
            let sep = chars_of(": ");
            match find_chars(v.as_slice(), sep.as_slice()) {
                Some(i) => {
                    proof {
                        reveal_strlit(": ");
                    }
                    assert(sep@.len() == 2);
                    let code = copy_range(v.as_slice(), 0, i);
                    let n = v.len();
                    assert(i + 2 <= n);
                    let msg = copy_range(v.as_slice(), i + 2, n);
                    assert(code@ =~= v@.take(i as int));
                    assert(msg@ =~= v@.skip(i + 2));
                    (string_of(code.as_slice()), string_of(msg.as_slice()))
                },
                None => (String::from_str("internal"), t.clone()),
            }
        },
        CallError::MethodError { text: None, display, .. } => (
            String::from_str("internal"),
            display.clone(),
        ),
        CallError::Other(d) => (String::from_str("internal"), d.clone()),
    }
}

/// A user-facing headline for a state.
pub fn headline(state: DriveState) -> (r: &'static str)
    ensures
        r@ == headline_of(state),
{
    state.headline()
}

} // verus!
