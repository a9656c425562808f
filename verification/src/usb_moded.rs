//! The frontend's connection to `usb-signaller` over `com.meego.usb_moded`:
//! the messages exchanged between the GUI thread and the D-Bus worker, and
//! every decision the worker takes on a reply. To expose an image the worker
//! sends `set_config("image=…,cdrom=…")` then `set_mode("mass_storage_mode")`;
//! to eject it sends `set_mode("developer_mode")`.

use vstd::prelude::*;

use crate::protocol::MODE_MASS_STORAGE;
use crate::state::{DriveState, ImageMode};
use crate::text::{chars_eq, chars_of, split_chars, split_on, views};

verus! {

/// Update pushed from the D-Bus thread to the GTK thread.
#[derive(Debug, Clone)]
pub enum DaemonUpdate {
    /// A fresh state (derived from the current USB mode).
    State(DriveState),
    /// An operation failed.
    Error {
        /// Human-readable message.
        message: String,
    },
    /// usb-signaller is unreachable or lacks mass-storage support.
    Unreachable(UnreachableReason),
}

/// Why the service is unavailable, mapped to a GUI setup hint.
#[derive(Debug, Clone, PartialEq, Eq)]
pub enum UnreachableReason {
    /// usb-signaller is not running / not reachable.
    NotRunning,
    /// usb-signaller is running but has no `mass_storage_mode`.
    NoMassStorage,
    /// Any other failure.
    Other(String),
}

/// Command pushed from the GTK thread to the D-Bus thread.
#[derive(Debug, Clone)]
pub enum DaemonCommand {
    /// Expose an image.
    Activate {
        /// Resolved host path.
        path: String,
        /// Exposure mode.
        mode: ImageMode,
    },
    /// Eject (return to normal mode).
    Deactivate,
}

/// The display state of a USB mode: `Active` in mass-storage mode, `Idle`
/// in any other.
pub open spec fn state_of_mode(mode: Seq<char>) -> DriveState {
    if mode == MODE_MASS_STORAGE@ {
        DriveState::Active
    } else {
        DriveState::Idle
    }
}

/// Whether a mode string is exactly `mass_storage_mode`.
fn is_mass_storage(mode: &str) -> (r: bool)
    ensures
        r == (mode@ == MODE_MASS_STORAGE@),
{
    chars_eq(chars_of(mode).as_slice(), chars_of(MODE_MASS_STORAGE).as_slice())
}

/// Map a USB mode string to the display state.
pub fn state_from_mode(mode: &str) -> (r: DriveState)
    ensures
        r == state_of_mode(mode@),
{
    if is_mass_storage(mode) {
        DriveState::Active
    } else {
        DriveState::Idle
    }
}

/// Whether the comma-separated mode list names `mass_storage_mode`.
pub fn supports_mass_storage(modes: &str) -> (r: bool)
    ensures
        r == split_on(modes@, ',').contains(MODE_MASS_STORAGE@),
{
    let parts = split_chars(chars_of(modes).as_slice(), ',');
    let target = chars_of(MODE_MASS_STORAGE);
    let mut i: usize = 0;
    while i < parts.len()
        invariant
            i <= parts@.len(),
            views(parts@) == split_on(modes@, ','),
            target@ == MODE_MASS_STORAGE@,
            forall|j: int| 0 <= j < i ==> parts@[j]@ != MODE_MASS_STORAGE@,
        decreases parts@.len() - i,
    {
        if chars_eq(parts[i].as_slice(), target.as_slice()) {
            assert(views(parts@)[i as int] == parts@[i as int]@);
            return true;
        }
        i = i + 1;
    }
    assert forall|j: int| 0 <= j < views(parts@).len() implies views(parts@)[j]
        != MODE_MASS_STORAGE@ by {
        assert(views(parts@)[j] == parts@[j]@);
    }
    false
}

/// What the worker does after asking for the mode list: `None` to go on
/// when mass storage is supported; otherwise the update to send before
/// stopping (`NotRunning` when the list could not be had).
pub fn availability(modes: Option<&str>) -> (r: Option<DaemonUpdate>)
    ensures
        match modes {
            None => r matches Some(DaemonUpdate::Unreachable(UnreachableReason::NotRunning)),
            Some(m) => if split_on(m@, ',').contains(MODE_MASS_STORAGE@) {
                r is None
            } else {
                r matches Some(DaemonUpdate::Unreachable(UnreachableReason::NoMassStorage))
            },
        },
{
    match modes {
        None => Some(DaemonUpdate::Unreachable(UnreachableReason::NotRunning)),
        Some(m) => if supports_mass_storage(m) {
            None
        } else {
            Some(DaemonUpdate::Unreachable(UnreachableReason::NoMassStorage))
        },
    }
}

/// The image configuration sent before exposing `path` in `mode`.
pub fn config_request(path: &str, mode: ImageMode) -> (r: String)
    ensures
        r@ == "image="@ + path@ + ",cdrom="@ + (match mode {
            ImageMode::Cdrom => "1"@,
            ImageMode::Disk => "0"@,
        }),
{
    String::from_str("image=").concat(path).concat(",cdrom=").concat(mode.cdrom_flag())
}

/// The update after `set_config` failed with `detail`.
pub fn config_failed(detail: &str) -> (r: DaemonUpdate)
    ensures
        r matches DaemonUpdate::Error { message } && message@ == "could not set image: "@ + detail@,
{
    DaemonUpdate::Error { message: String::from_str("could not set image: ").concat(detail) }
}

/// The update after `set_mode("mass_storage_mode")` replied: `Active` when
/// the reported mode is mass storage; an error naming the mode the USB
/// stayed in otherwise; an error with the failure when the call failed.
pub fn activation_update(result: Result<&str, &str>) -> (r: DaemonUpdate)
    ensures
        match result {
            Ok(m) => if m@ == MODE_MASS_STORAGE@ {
                r matches DaemonUpdate::State(s) && s == DriveState::Active
            } else {
                r matches DaemonUpdate::Error { message } && message@ == "USB stayed in '"@ + m@
                    + "', check usb-signaller"@
            },
            Err(d) => r matches DaemonUpdate::Error { message } && message@
                == "could not expose the image: "@ + d@,
        },
{
    match result {
        Ok(m) => if is_mass_storage(m) {
            DaemonUpdate::State(DriveState::Active)
        } else {
            DaemonUpdate::Error {
                message: String::from_str("USB stayed in '").concat(m).concat(
                    "', check usb-signaller",
                ),
            }
        },
        Err(d) => DaemonUpdate::Error {
            message: String::from_str("could not expose the image: ").concat(d),
        },
    }
}

/// The update after `set_mode("developer_mode")` replied.
pub fn eject_update(result: Result<(), &str>) -> (r: DaemonUpdate)
    ensures
        match result {
            Ok(()) => r matches DaemonUpdate::State(s) && s == DriveState::Idle,
            Err(d) => r matches DaemonUpdate::Error { message } && message@ == "could not eject: "@
                + d@,
        },
{
    match result {
        Ok(()) => DaemonUpdate::State(DriveState::Idle),
        Err(d) => DaemonUpdate::Error { message: String::from_str("could not eject: ").concat(d) },
    }
}

/// The update when the worker's runtime could not start.
pub fn runtime_failed(detail: &str) -> (r: DaemonUpdate)
    ensures
        r matches DaemonUpdate::Unreachable(UnreachableReason::Other(m)) && m@ == "runtime error: "@
            + detail@,
{
    DaemonUpdate::Unreachable(
        UnreachableReason::Other(String::from_str("runtime error: ").concat(detail)),
    )
}

/// The update when the system bus could not be reached.
pub fn no_system_bus(detail: &str) -> (r: DaemonUpdate)
    ensures
        r matches DaemonUpdate::Unreachable(UnreachableReason::Other(m)) && m@ == "no system bus: "@
            + detail@,
{
    DaemonUpdate::Unreachable(
        UnreachableReason::Other(String::from_str("no system bus: ").concat(detail)),
    )
}

/// The setup hint shown for a reason.
pub fn setup_hint(reason: &UnreachableReason) -> (r: &'static str)
    ensures
        r@ == (match reason {
            UnreachableReason::NotRunning => "BootDrive could not reach usb-signaller on the system bus."@,
            UnreachableReason::NoMassStorage => "Your usb-signaller has no mass-storage mode yet. Install the patched build."@,
            UnreachableReason::Other(_) => "BootDrive could not talk to usb-signaller."@,
        }),
{
    match reason {
        UnreachableReason::NotRunning => "BootDrive could not reach usb-signaller on the system bus.",
        UnreachableReason::NoMassStorage => "Your usb-signaller has no mass-storage mode yet. Install the patched build.",
        UnreachableReason::Other(_) => "BootDrive could not talk to usb-signaller.",
    }
}

/// The drive shows as exposed exactly when `usb-signaller` is in its mass
/// storage mode; in every other mode it is idle.
pub proof fn lemma_state_of_mode(mode: Seq<char>)
    ensures
        (state_of_mode(mode) == DriveState::Active) == (mode == MODE_MASS_STORAGE@),
        mode != MODE_MASS_STORAGE@ ==> state_of_mode(mode) == DriveState::Idle,
{
}

} // verus!
