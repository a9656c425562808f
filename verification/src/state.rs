//! The small state model shared by the daemon and the frontends.

use vstd::prelude::*;

use crate::text::{chars_eq, chars_of, copy_range, lower_chars, lower_seq};

verus! {

/// How the image is presented to the host.
#[derive(Debug, Clone, Copy, PartialEq, Eq, Structural)]
pub enum ImageMode {
    /// Emulated USB optical drive; the default for `.iso` files.
    Cdrom,
    /// Plain USB disk; the default for `.img` / `.raw` files.
    Disk,
}

/// `s` without any leading `.` characters.
pub open spec fn strip_leading_dots(s: Seq<char>) -> Seq<char>
    decreases s.len(),
{
    if s.len() > 0 && s[0] == '.' {
        strip_leading_dots(s.drop_first())
    } else {
        s
    }
}

/// The default mode for a file with extension `ext`: disk for `img` and
/// `raw` (any ASCII case, any number of leading dots), CD-ROM otherwise.
pub open spec fn default_mode_for(ext: Seq<char>) -> ImageMode {
    let e = lower_seq(strip_leading_dots(ext));
    if e == "img"@ || e == "raw"@ {
        ImageMode::Disk
    } else {
        ImageMode::Cdrom
    }
}

/// The usb-signaller mode that exposes an image in `m`.
pub open spec fn mode_str_of(m: ImageMode) -> Seq<char> {
    match m {
        ImageMode::Cdrom => "cdrom_mode"@,
        ImageMode::Disk => "mass_storage_mode"@,
    }
}

/// The short name of a mode used on the daemon's D-Bus interface.
pub open spec fn mode_name_of(m: ImageMode) -> Seq<char> {
    match m {
        ImageMode::Cdrom => "cdrom"@,
        ImageMode::Disk => "disk"@,
    }
}

/// The mode a short name denotes, if any.
pub open spec fn mode_from_name(s: Seq<char>) -> Option<ImageMode> {
    if s == "cdrom"@ {
        Some(ImageMode::Cdrom)
    } else if s == "disk"@ {
        Some(ImageMode::Disk)
    } else {
        None
    }
}

impl ImageMode {
    /// The usb-signaller mode that exposes an image this way.
    pub fn mode_str(self) -> (r: &'static str)
        ensures
            r@ == mode_str_of(self),
    {
        match self {
            ImageMode::Cdrom => crate::protocol::MODE_CDROM,
            ImageMode::Disk => crate::protocol::MODE_MASS_STORAGE,
        }
    }

    /// A human-friendly label.
    pub fn label(self) -> (r: &'static str)
        ensures
            r@ == (match self {
                ImageMode::Cdrom => "USB CD-ROM"@,
                ImageMode::Disk => "USB disk"@,
            }),
    {
        match self {
            ImageMode::Cdrom => "USB CD-ROM",
            ImageMode::Disk => "USB disk",
        }
    }

    /// The short name of this mode on the daemon's D-Bus interface.
    pub fn as_wire(self) -> (r: &'static str)
        ensures
            r@ == mode_name_of(self),
    {
        match self {
            ImageMode::Cdrom => "cdrom",
            ImageMode::Disk => "disk",
        }
    }

    /// The `cdrom=` flag of usb-signaller's image configuration.
    pub fn cdrom_flag(self) -> (r: &'static str)
        ensures
            r@ == (match self {
                ImageMode::Cdrom => "1"@,
                ImageMode::Disk => "0"@,
            }),
    {
        match self {
            ImageMode::Cdrom => "1",
            ImageMode::Disk => "0",
        }
    }

    /// The mode a short name denotes: `cdrom` or `disk`, exactly.
    pub fn from_name(s: &str) -> (r: Option<ImageMode>)
        ensures
            r == mode_from_name(s@),
    {
        let v = chars_of(s);
        if chars_eq(v.as_slice(), chars_of("cdrom").as_slice()) {
            Some(ImageMode::Cdrom)
        } else if chars_eq(v.as_slice(), chars_of("disk").as_slice()) {
            Some(ImageMode::Disk)
        } else {
            None
        }
    }

    /// The default mode for a file with the given extension.
    pub fn default_for_extension(ext: &str) -> (r: ImageMode)
        ensures
            r == default_mode_for(ext@),
    {
        let v = chars_of(ext);
        let mut i: usize = 0;
        assert(v@.skip(0) =~= v@);
        while i < v.len() && v[i] == '.'
            invariant
                i <= v@.len(),
                v@ == ext@,
                strip_leading_dots(v@) == strip_leading_dots(v@.skip(i as int)),
            decreases v@.len() - i,
        {
            assert(v@.skip(i as int).drop_first() =~= v@.skip(i + 1));
            i = i + 1;
        }
        let rest = copy_range(v.as_slice(), i, v.len());
        assert(rest@ =~= v@.skip(i as int));
        assert(strip_leading_dots(rest@) == rest@) by {
            if rest@.len() > 0 {
                assert(rest@[0] == v@[i as int]);
            }
        }
        let e = lower_chars(rest.as_slice());
        if chars_eq(e.as_slice(), chars_of("img").as_slice()) || chars_eq(
            e.as_slice(),
            chars_of("raw").as_slice(),
        ) {
            ImageMode::Disk
        } else {
            ImageMode::Cdrom
        }
    }
}

impl std::default::Default for ImageMode {
    fn default() -> (r: ImageMode)
        ensures
            r == ImageMode::Cdrom,
    {
        ImageMode::Cdrom
    }
}

impl std::str::FromStr for ImageMode {
    type Err = ();

    fn from_str(s: &str) -> (r: Result<ImageMode, ()>)
        ensures
            match mode_from_name(s@) {
                Some(m) => r == Ok::<ImageMode, ()>(m),
                None => r == Err::<ImageMode, ()>(()),
            },
    {
        match ImageMode::from_name(s) {
            Some(m) => Ok(m),
            None => Err(()),
        }
    }
}

/// A mode's short name is read back as the same mode.
pub proof fn lemma_mode_name_round_trip(m: ImageMode)
    ensures
        mode_from_name(mode_name_of(m)) == Some(m),
{
    reveal_strlit("cdrom");
    reveal_strlit("disk");
    assert("disk"@.len() != "cdrom"@.len());
}

/// High-level state shown by the frontends.
#[derive(Debug, Clone, Copy, PartialEq, Eq, Structural)]
pub enum DriveState {
    /// usb-signaller or the backend is missing or unreachable.
    Unavailable,
    /// Ready to expose an image.
    Idle,
    /// A mode switch is in progress.
    Preparing,
    /// An image is currently exposed as mass storage.
    Active,
    /// Returning to normal USB behaviour.
    Ejecting,
    /// The last operation failed.
    Error,
}

/// The user-facing headline of a state.
pub open spec fn headline_of(s: DriveState) -> Seq<char> {
    match s {
        DriveState::Unavailable => "Unavailable"@,
        DriveState::Idle => "Ready"@,
        DriveState::Preparing => "Preparing…"@,
        DriveState::Active => "Active"@,
        DriveState::Ejecting => "Ejecting…"@,
        DriveState::Error => "Error"@,
    }
}

impl DriveState {
    /// A user-facing headline.
    pub fn headline(self) -> (r: &'static str)
        ensures
            r@ == headline_of(self),
    {
        match self {
            DriveState::Unavailable => "Unavailable",
            DriveState::Idle => "Ready",
            DriveState::Preparing => "Preparing…",
            DriveState::Active => "Active",
            DriveState::Ejecting => "Ejecting…",
            DriveState::Error => "Error",
        }
    }
}

impl std::default::Default for DriveState {
    fn default() -> (r: DriveState)
        ensures
            r == DriveState::Unavailable,
    {
        DriveState::Unavailable
    }
}

/// A full snapshot of the daemon's state, as published on D-Bus.
#[derive(Debug, Clone, PartialEq, Eq)]
pub struct StateInfo {
    /// The lifecycle state.
    pub state: DriveState,
    /// Display name of the exposed image (empty when none).
    pub display_name: String,
    /// The mode the image is exposed in.
    pub mode: ImageMode,
    /// Name of the UDC in use (empty when unknown).
    pub udc: String,
    /// Whether `usb-signaller` was running before activation.
    pub signaller_was_running: bool,
    /// Message of the last error (empty when none).
    pub last_error: String,
}

/// The mathematical content of a [`StateInfo`].
pub struct StateInfoView {
    pub state: DriveState,
    pub display_name: Seq<char>,
    pub mode: ImageMode,
    pub udc: Seq<char>,
    pub signaller_was_running: bool,
    pub last_error: Seq<char>,
}

impl View for StateInfo {
    type V = StateInfoView;

    open spec fn view(&self) -> StateInfoView {
        StateInfoView {
            state: self.state,
            display_name: self.display_name@,
            mode: self.mode,
            udc: self.udc@,
            signaller_was_running: self.signaller_was_running,
            last_error: self.last_error@,
        }
    }
}

impl StateInfo {
    /// A copy of this snapshot.
    pub fn snapshot(&self) -> (r: StateInfo)
        ensures
            r@ == self@,
    {
        StateInfo {
            state: self.state,
            display_name: self.display_name.clone(),
            mode: self.mode,
            udc: self.udc.clone(),
            signaller_was_running: self.signaller_was_running,
            last_error: self.last_error.clone(),
        }
    }
}

impl std::default::Default for StateInfo {
    fn default() -> (r: StateInfo)
        ensures
            r@ == (StateInfoView {
                state: DriveState::Unavailable,
                display_name: Seq::empty(),
                mode: ImageMode::Cdrom,
                udc: Seq::empty(),
                signaller_was_running: false,
                last_error: Seq::empty(),
            }),
    {
        StateInfo {
            state: DriveState::Unavailable,
            display_name: String::new(),
            mode: ImageMode::Cdrom,
            udc: String::new(),
            signaller_was_running: false,
            last_error: String::new(),
        }
    }
}

} // verus!
