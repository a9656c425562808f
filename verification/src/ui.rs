//! The decisions of the BootDrive window: what the status text says, what
//! the primary button does and shows, how a state is styled, and how the
//! Mount selection follows a removal from the library.

use vstd::prelude::*;

use crate::library::{entry_mode, ImageEntry};
use crate::state::{DriveState, ImageMode};

verus! {

/// The status detail for a state and the selected library entry.
pub open spec fn detail_of(state: DriveState, entry_mode: Option<ImageMode>) -> Seq<char> {
    match state {
        DriveState::Unavailable => "usb-signaller is unavailable."@,
        DriveState::Preparing => "Setting up the USB gadget…"@,
        DriveState::Ejecting => "Returning to normal USB behaviour…"@,
        DriveState::Active => if entry_mode == Some(ImageMode::Disk) {
            "Connected as a bootable USB disk."@
        } else {
            "Connected as a bootable CD-ROM."@
        },
        DriveState::Idle | DriveState::Error => if entry_mode is Some {
            "Ready to expose over USB."@
        } else {
            "Choose an image to get started."@
        },
    }
}

/// The status detail shown under the headline.
pub fn detail_text(state: DriveState, entry: Option<&ImageEntry>) -> (r: String)
    ensures
        r@ == detail_of(
            state,
            match entry {
                Some(e) => Some(entry_mode(e@)),
                None => None,
            },
        ),
{
    let mode = match entry {
        Some(e) => Some(e.mode()),
        None => None,
    };
    let text = match state {
        DriveState::Unavailable => "usb-signaller is unavailable.",
        DriveState::Preparing => "Setting up the USB gadget…",
        DriveState::Ejecting => "Returning to normal USB behaviour…",
        DriveState::Active => match mode {
            Some(ImageMode::Disk) => "Connected as a bootable USB disk.",
            _ => "Connected as a bootable CD-ROM.",
        },
        DriveState::Idle | DriveState::Error => match mode {
            Some(_) => "Ready to expose over USB.",
            None => "Choose an image to get started.",
        },
    };
    String::from_str(text)
}

/// The Mount selection after the library entry at `index` was removed: the
/// removed entry is no longer selected, and a later one moves down by one.
pub fn active_after_remove(active: Option<usize>, index: usize) -> (r: Option<usize>)
    ensures
        r == (match active {
            Some(i) => if i == index {
                None
            } else if i > index {
                Some((i - 1) as usize)
            } else {
                Some(i)
            },
            None => None,
        }),
{
    match active {
        Some(i) => if i == index {
            None
        } else if i > index {
            Some(i - 1)
        } else {
            Some(i)
        },
        None => None,
    }
}

/// What the primary button does when clicked.
#[derive(Debug, Clone, Copy, PartialEq, Eq, Structural)]
pub enum PrimaryAction {
    /// Ask for confirmation, then eject.
    ConfirmEject,
    /// Open the chooser of library images.
    ChooseImage,
    /// Expose the selected image.
    Expose,
    /// Nothing (a transition is under way or the service is unavailable).
    Nothing,
}

/// The primary button's action in `state`, given whether an image is
/// selected.
pub fn primary_action(state: DriveState, has_selection: bool) -> (r: PrimaryAction)
    ensures
        r == (match state {
            DriveState::Active => PrimaryAction::ConfirmEject,
            DriveState::Idle | DriveState::Error => if has_selection {
                PrimaryAction::Expose
            } else {
                PrimaryAction::ChooseImage
            },
            _ => PrimaryAction::Nothing,
        }),
{
    match state {
        DriveState::Active => PrimaryAction::ConfirmEject,
        DriveState::Idle | DriveState::Error => if has_selection {
            PrimaryAction::Expose
        } else {
            PrimaryAction::ChooseImage
        },
        _ => PrimaryAction::Nothing,
    }
}

/// How the Mount controls are shown.
#[derive(Debug, Clone, Copy, PartialEq, Eq)]
pub struct Controls {
    /// Whether the mode selector can be changed.
    pub mode_sensitive: bool,
    /// The primary button's label.
    pub label: &'static str,
    /// Whether the primary button is styled as destructive.
    pub destructive: bool,
    /// Whether the primary button can be clicked.
    pub button_sensitive: bool,
}

/// The Mount controls: nothing is enabled while busy, during a transition
/// or while the service is unavailable; the mode cannot change while
/// exposed; the button ejects when active, else chooses or exposes.
pub fn controls(state: DriveState, busy: bool, available: bool, has_selection: bool) -> (r: Controls)
    ensures
        ({
            let transitioning = state == DriveState::Preparing || state == DriveState::Ejecting;
            let enabled = !busy && !transitioning && available;
            &&& r.mode_sensitive == (enabled && state != DriveState::Active)
            &&& r.button_sensitive == enabled
            &&& r.destructive == (state == DriveState::Active)
            &&& r.label@ == (if state == DriveState::Active {
                "Eject"@
            } else if !has_selection {
                "Choose an image"@
            } else {
                "Expose over USB"@
            })
        }),
{
    let transitioning = state == DriveState::Preparing || state == DriveState::Ejecting;
    let enabled = !busy && !transitioning && available;
    let mode_sensitive = enabled && state != DriveState::Active;
    if state == DriveState::Active {
        Controls { mode_sensitive, label: "Eject", destructive: true, button_sensitive: enabled }
    } else if !has_selection {
        Controls {
            mode_sensitive,
            label: "Choose an image",
            destructive: false,
            button_sensitive: enabled,
        }
    } else {
        Controls {
            mode_sensitive,
            label: "Expose over USB",
            destructive: false,
            button_sensitive: enabled && !transitioning,
        }
    }
}

/// The style kind and icon of a state's status card.
pub fn state_style(state: DriveState) -> (r: (&'static str, &'static str))
    ensures
        r.0@ == (match state {
            DriveState::Preparing | DriveState::Ejecting => "busy"@,
            DriveState::Active => "active"@,
            DriveState::Error => "error"@,
            _ => "idle"@,
        }),
        r.1@ == (match state {
            DriveState::Preparing | DriveState::Ejecting => "content-loading-symbolic"@,
            DriveState::Active => "object-select-symbolic"@,
            DriveState::Error => "dialog-warning-symbolic"@,
            _ => "drive-removable-media-symbolic"@,
        }),
{
    match state {
        DriveState::Preparing | DriveState::Ejecting => ("busy", "content-loading-symbolic"),
        DriveState::Active => ("active", "object-select-symbolic"),
        DriveState::Error => ("error", "dialog-warning-symbolic"),
        _ => ("idle", "drive-removable-media-symbolic"),
    }
}

/// Idle and after an error alike, the detail invites to choose an image
/// until one is selected, and then says the drive is ready; it does not
/// depend on the selected image's mode.
pub proof fn lemma_detail_when_ready(state: DriveState, entry_mode: Option<ImageMode>)
    requires
        state == DriveState::Idle || state == DriveState::Error,
    ensures
        detail_of(state, entry_mode) == detail_of(DriveState::Idle, entry_mode),
        entry_mode is Some ==> detail_of(state, entry_mode) == "Ready to expose over USB."@,
        entry_mode is None ==> detail_of(state, entry_mode) == "Choose an image to get started."@,
        forall|m: ImageMode| #[trigger] detail_of(state, Some(m)) == "Ready to expose over USB."@,
{
}


/// While an image is exposed, the detail says how: as a USB disk exactly
/// when the selected image is in disk mode, else as a CD-ROM; in a
/// transition or without `usb-signaller` it says so whatever is selected.
pub proof fn lemma_detail_otherwise(entry_mode: Option<ImageMode>)
    ensures
        detail_of(DriveState::Active, entry_mode) == (if entry_mode == Some(ImageMode::Disk) {
            "Connected as a bootable USB disk."@
        } else {
            "Connected as a bootable CD-ROM."@
        }),
        detail_of(DriveState::Preparing, entry_mode) == detail_of(DriveState::Preparing, None),
        detail_of(DriveState::Ejecting, entry_mode) == detail_of(DriveState::Ejecting, None),
        detail_of(DriveState::Unavailable, entry_mode) == "usb-signaller is unavailable."@,
{
}

} // verus!

