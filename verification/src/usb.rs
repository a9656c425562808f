//! The USB backend abstraction.
//!
//! Everything that touches configfs lives behind [`UsbBackend`], so the whole
//! activation machine can be exercised on a workstation with no UDC using
//! [`MockUsbBackend`]. The rules about which gadgets BootDrive may touch are
//! stated here and followed by the configfs backend of the application.

use vstd::prelude::*;

use crate::error::{unit_result, BootDriveError, ErrorCode, ErrorView};
use crate::image::{ValidatedImage, ValidatedImageView};
use crate::state::ImageMode;
use crate::text::{chars_eq, chars_of, decimal, decimal_string};

verus! {

/// The configfs name of the gadget BootDrive owns. Only a gadget with
/// *exactly* this name is ever removed by BootDrive.
pub const GADGET_NAME: &'static str = "bootdrive";

/// What the backend currently believes about the hardware.
#[derive(Debug, Clone, PartialEq, Eq)]
pub struct BackendState {
    /// Whether an image is currently bound to the UDC.
    pub active: bool,
    /// Name of the UDC in use, if any.
    pub udc: Option<String>,
}

/// Static capabilities discovered by probing the system.
#[derive(Debug, Clone, PartialEq, Eq)]
pub struct BackendCapabilities {
    /// Name of the UDC that will be used (e.g. `a600000.usb`).
    pub udc: String,
    /// Whether mass-storage support is available.
    pub mass_storage_ok: bool,
}

/// The mathematical content of [`BackendCapabilities`].
pub struct BackendCapabilitiesView {
    pub udc: Seq<char>,
    pub mass_storage_ok: bool,
}

impl View for BackendCapabilities {
    type V = BackendCapabilitiesView;

    open spec fn view(&self) -> BackendCapabilitiesView {
        BackendCapabilitiesView { udc: self.udc@, mass_storage_ok: self.mass_storage_ok }
    }
}

/// The mathematical content of a probe's result.
pub open spec fn caps_result(r: Result<BackendCapabilities, BootDriveError>) -> Result<
    BackendCapabilitiesView,
    ErrorView,
> {
    match r {
        Ok(c) => Ok(c@),
        Err(e) => Err(e@),
    }
}

/// One call made on a backend: what was asked, and what it returned.
pub enum BackendCall {
    /// `probe`.
    Probe(Result<BackendCapabilitiesView, ErrorView>),
    /// `remove_stale_gadget`.
    RemoveStale(Result<(), ErrorView>),
    /// `release_foreign_gadgets`.
    ReleaseForeign(Result<(), ErrorView>),
    /// `activate` of this image in this mode.
    Activate(ValidatedImageView, ImageMode, Result<(), ErrorView>),
    /// `deactivate`.
    Deactivate(Result<(), ErrorView>),
}

/// The privileged operations the activation machine drives. Each call is
/// recorded in the backend's history, with what it was handed and what it
/// returned.
pub trait UsbBackend {
    /// Every call made on this backend so far, in order. It is a record
    /// kept for proofs: an implementation that keeps none (one written
    /// outside this library, whose code is not verified) inherits an empty
    /// one, and the contracts below are then checked only of the
    /// implementations in this library.
    closed spec fn history(&self) -> Seq<BackendCall> {
        Seq::empty()
    }

    /// What fixes the replies of a backend that follows a model of its
    /// own (for the test double: its script). Calls never change it.
    type Model;

    /// This backend's model; one without a model has an arbitrary one.
    closed spec fn model(&self) -> Self::Model {
        vstd::pervasive::arbitrary()
    }

    /// Whether every call in the history got the reply this backend's
    /// model gives it. An implementation without a model claims nothing.
    closed spec fn faithful(&self) -> bool {
        true
    }

    /// Confirm a usable UDC and mass-storage support exist.
    fn probe(&mut self) -> (r: Result<BackendCapabilities, BootDriveError>)
        ensures
            final(self).history() == old(self).history().push(BackendCall::Probe(caps_result(r))),
            old(self).faithful() ==> final(self).faithful(),
            final(self).model() == old(self).model(),
    ;

    /// Remove a leftover gadget named exactly [`GADGET_NAME`], if present.
    /// Never touches any other gadget.
    fn remove_stale_gadget(&mut self) -> (r: Result<(), BootDriveError>)
        ensures
            final(self).history() == old(self).history().push(
                BackendCall::RemoveStale(unit_result(r)),
            ),
            old(self).faithful() ==> final(self).faithful(),
            final(self).model() == old(self).model(),
    ;

    /// Unbind (but never remove) any other gadget bound to the UDC.
    fn release_foreign_gadgets(&mut self) -> (r: Result<(), BootDriveError>)
        ensures
            final(self).history() == old(self).history().push(
                BackendCall::ReleaseForeign(unit_result(r)),
            ),
            old(self).faithful() ==> final(self).faithful(),
            final(self).model() == old(self).model(),
    ;

    /// Create the BootDrive gadget for `image` in `mode` and bind it.
    fn activate(&mut self, image: &ValidatedImage, mode: ImageMode) -> (r: Result<
        (),
        BootDriveError,
    >)
        ensures
            final(self).history() == old(self).history().push(
                BackendCall::Activate(image@, mode, unit_result(r)),
            ),
            old(self).faithful() ==> final(self).faithful(),
            final(self).model() == old(self).model(),
    ;

    /// Force-eject, unbind and remove the BootDrive gadget.
    fn deactivate(&mut self) -> (r: Result<(), BootDriveError>)
        ensures
            final(self).history() == old(self).history().push(
                BackendCall::Deactivate(unit_result(r)),
            ),
            old(self).faithful() ==> final(self).faithful(),
            final(self).model() == old(self).model(),
    ;

    /// Current backend state.
    fn state(&self) -> BackendState;
}

/// The UDC name of an optional backend state value.
pub open spec fn opt_view(o: Option<String>) -> Option<Seq<char>> {
    match o {
        Some(s) => Some(s@),
        None => None,
    }
}

/// A copy of an optional string.
pub fn copy_opt(o: &Option<String>) -> (r: Option<String>)
    ensures
        opt_view(r) == opt_view(*o),
{
    match o {
        Some(s) => Some(s.clone()),
        None => None,
    }
}

// ---------------------------------------------------------------------------
// Mock backend
// ---------------------------------------------------------------------------

/// Scripted behaviour for [`MockUsbBackend`], so tests can drive rollback
/// and recovery paths deterministically.
#[derive(Debug, Clone)]
pub struct MockScript {
    /// `probe` reports this UDC…
    pub udc: Option<String>,
    /// …with this mass-storage flag.
    pub mass_storage_ok: bool,
    /// If set, `activate` fails with this message.
    pub fail_activate: Option<String>,
    /// If set, `deactivate` fails with this message.
    pub fail_deactivate: Option<String>,
    /// If `true`, a stale gadget is present at startup.
    pub stale_present: bool,
}

impl std::default::Default for MockScript {
    fn default() -> (r: MockScript)
        ensures
            r.udc is None,
            !r.mass_storage_ok,
            r.fail_activate is None,
            r.fail_deactivate is None,
            !r.stale_present,
    {
        MockScript {
            udc: None,
            mass_storage_ok: false,
            fail_activate: None,
            fail_deactivate: None,
            stale_present: false,
        }
    }
}

/// In-memory backend for tests and hosts without a UDC.
pub struct MockUsbBackend {
    /// The scripted behaviour.
    pub script: MockScript,
    /// Whether a gadget is currently active.
    pub active: bool,
    /// Call log for assertions.
    pub calls: Vec<String>,
    /// Set to `true` once a stale gadget has been cleaned.
    pub stale_removed: bool,
    /// Set to `true` once foreign gadgets were released.
    pub foreign_released: bool,
    /// Every call made, with what it was handed and returned.
    pub log: Ghost<Seq<BackendCall>>,
}

impl MockUsbBackend {
    /// Create a mock that reports a working UDC and mass-storage support.
    pub fn working() -> (r: Self)
        ensures
            opt_view(r.script.udc) == Some("mock.udc"@),
            r.script.mass_storage_ok,
            r.script.fail_activate is None,
            r.script.fail_deactivate is None,
            !r.script.stale_present,
            !r.active,
            r.calls@.len() == 0,
            !r.stale_removed,
            !r.foreign_released,
            r.log@ == Seq::<BackendCall>::empty(),
            r.faithful(),
    {
        MockUsbBackend {
            script: MockScript {
                udc: Some(String::from_str("mock.udc")),
                mass_storage_ok: true,
                fail_activate: None,
                fail_deactivate: None,
                stale_present: false,
            },
            active: false,
            calls: Vec::new(),
            stale_removed: false,
            foreign_released: false,
            log: Ghost(Seq::empty()),
        }
    }

    /// Create a mock from an explicit script.
    pub fn with_script(script: MockScript) -> (r: Self)
        ensures
            r.script == script,
            !r.active,
            r.calls@.len() == 0,
            !r.stale_removed,
            !r.foreign_released,
            r.log@ == Seq::<BackendCall>::empty(),
            r.faithful(),
    {
        MockUsbBackend {
            active: false,
            calls: Vec::new(),
            stale_removed: false,
            foreign_released: false,
            log: Ghost(Seq::empty()),
            script,
        }
    }
}

/// The error the mock's probe reports for a script, if any.
pub open spec fn mock_probe_error(script: MockScript) -> Option<(ErrorCode, Seq<char>)> {
    match script.udc {
        Some(_) => if script.mass_storage_ok {
            None
        } else {
            Some((ErrorCode::MassStorageUnavailable, "mass-storage support is unavailable"@))
        },
        None => Some((ErrorCode::NoUdc, "no usable USB device controller was found"@)),
    }
}

/// What fixes the replies of a [`MockScript`]: everything but whether a
/// stale gadget is still present.
pub struct ScriptReplies {
    pub udc: Option<Seq<char>>,
    pub mass_storage_ok: bool,
    pub fail_activate: Option<Seq<char>>,
    pub fail_deactivate: Option<Seq<char>>,
}

/// The replies `script` fixes.
pub open spec fn script_replies(script: MockScript) -> ScriptReplies {
    ScriptReplies {
        udc: opt_view(script.udc),
        mass_storage_ok: script.mass_storage_ok,
        fail_activate: opt_view(script.fail_activate),
        fail_deactivate: opt_view(script.fail_deactivate),
    }
}

/// The reply the mock gives a probe under the replies `m`.
pub open spec fn mock_probe_reply(m: ScriptReplies) -> Result<BackendCapabilitiesView, ErrorView> {
    match m.udc {
        Some(u) => if m.mass_storage_ok {
            Ok(BackendCapabilitiesView { udc: u, mass_storage_ok: true })
        } else {
            Err(
                ErrorView {
                    code: ErrorCode::MassStorageUnavailable,
                    message: "mass-storage support is unavailable"@,
                },
            )
        },
        None => Err(
            ErrorView { code: ErrorCode::NoUdc, message: "no usable USB device controller was found"@ },
        ),
    }
}

/// The reply of a mock call that fails with the scripted message, if any.
pub open spec fn mock_outcome(fail: Option<Seq<char>>) -> Result<(), ErrorView> {
    match fail {
        Some(m) => Err(ErrorView { code: ErrorCode::GadgetFailure, message: m }),
        None => Ok(()),
    }
}

/// Whether a recorded call got the reply the replies `m` give it.
pub open spec fn mock_call_ok(m: ScriptReplies, c: BackendCall) -> bool {
    match c {
        BackendCall::Probe(x) => x == mock_probe_reply(m),
        BackendCall::RemoveStale(x) => x == Ok::<(), ErrorView>(()),
        BackendCall::ReleaseForeign(x) => x == Ok::<(), ErrorView>(()),
        BackendCall::Activate(_, _, x) => x == mock_outcome(m.fail_activate),
        BackendCall::Deactivate(x) => x == mock_outcome(m.fail_deactivate),
    }
}

impl UsbBackend for MockUsbBackend {
    open spec fn history(&self) -> Seq<BackendCall> {
        self.log@
    }

    type Model = ScriptReplies;

    open spec fn model(&self) -> ScriptReplies {
        script_replies(self.script)
    }

    /// Every recorded call got the reply the script gives.
    open spec fn faithful(&self) -> bool {
        forall|i: int| 0 <= i < self.log@.len() ==> mock_call_ok(self.model(), #[trigger] self.log@[i])
    }

    fn probe(&mut self) -> (r: Result<BackendCapabilities, BootDriveError>)
        ensures
            final(self).calls@.len() == old(self).calls@.len() + 1,
            final(self).calls@.last()@ == "probe"@,
            forall|i: int| 0 <= i < old(self).calls@.len() ==> final(self).calls@[i] == old(self).calls@[i],
            final(self).script == old(self).script,
            final(self).active == old(self).active,
            match mock_probe_error(old(self).script) {
                None => r matches Ok(c) && Some(c.udc@) == opt_view(old(self).script.udc)
                    && c.mass_storage_ok,
                Some((code, msg)) => r matches Err(e) && e.code == code && e.message@ == msg,
            },
    {
        self.calls.push(String::from_str("probe"));
        let r = match &self.script.udc {
            Some(udc) => if self.script.mass_storage_ok {
                Ok(BackendCapabilities { udc: udc.clone(), mass_storage_ok: true })
            } else {
                Err(
                    BootDriveError::new(
                        ErrorCode::MassStorageUnavailable,
                        String::from_str("mass-storage support is unavailable"),
                    ),
                )
            },
            None => Err(
                BootDriveError::new(
                    ErrorCode::NoUdc,
                    String::from_str("no usable USB device controller was found"),
                ),
            ),
        };
        self.log = Ghost(self.log@.push(BackendCall::Probe(caps_result(r))));
        r
    }

    fn remove_stale_gadget(&mut self) -> (r: Result<(), BootDriveError>)
        ensures
            r is Ok,
            final(self).calls@.len() == old(self).calls@.len() + 1,
            final(self).calls@.last()@ == "remove_stale_gadget"@,
            forall|i: int| 0 <= i < old(self).calls@.len() ==> final(self).calls@[i] == old(self).calls@[i],
            !final(self).script.stale_present,
            final(self).stale_removed == (old(self).stale_removed || old(self).script.stale_present),
            final(self).active == old(self).active,
    {
        self.calls.push(String::from_str("remove_stale_gadget"));
        if self.script.stale_present {
            self.stale_removed = true;
            self.script.stale_present = false;
        }
        self.log = Ghost(self.log@.push(BackendCall::RemoveStale(Ok(()))));
        Ok(())
    }

    fn release_foreign_gadgets(&mut self) -> (r: Result<(), BootDriveError>)
        ensures
            r is Ok,
            final(self).calls@.len() == old(self).calls@.len() + 1,
            final(self).calls@.last()@ == "release_foreign_gadgets"@,
            forall|i: int| 0 <= i < old(self).calls@.len() ==> final(self).calls@[i] == old(self).calls@[i],
            final(self).foreign_released,
            final(self).script == old(self).script,
            final(self).active == old(self).active,
    {
        self.calls.push(String::from_str("release_foreign_gadgets"));
        self.foreign_released = true;
        self.log = Ghost(self.log@.push(BackendCall::ReleaseForeign(Ok(()))));
        Ok(())
    }

    fn activate(&mut self, image: &ValidatedImage, mode: ImageMode) -> (r: Result<
        (),
        BootDriveError,
    >)
        ensures
            final(self).calls@.len() == old(self).calls@.len() + 1,
            final(self).calls@.last()@ == "activate"@,
            forall|i: int| 0 <= i < old(self).calls@.len() ==> final(self).calls@[i] == old(self).calls@[i],
            final(self).script == old(self).script,
            match old(self).script.fail_activate {
                Some(m) => r matches Err(e) && e.code == ErrorCode::GadgetFailure && e.message@
                    == m@ && final(self).active == old(self).active,
                None => r is Ok && final(self).active,
            },
    {
        self.calls.push(String::from_str("activate"));
        if let Some(msg) = &self.script.fail_activate {
            let r = Err(BootDriveError::gadget(msg.clone()));
            self.log = Ghost(self.log@.push(BackendCall::Activate(image@, mode, unit_result(r))));
            return r;
        }
        self.active = true;
        self.log = Ghost(self.log@.push(BackendCall::Activate(image@, mode, Ok(()))));
        Ok(())
    }

    fn deactivate(&mut self) -> (r: Result<(), BootDriveError>)
        ensures
            final(self).calls@.len() == old(self).calls@.len() + 1,
            final(self).calls@.last()@ == "deactivate"@,
            forall|i: int| 0 <= i < old(self).calls@.len() ==> final(self).calls@[i] == old(self).calls@[i],
            final(self).script == old(self).script,
            match old(self).script.fail_deactivate {
                Some(m) => r matches Err(e) && e.code == ErrorCode::GadgetFailure && e.message@
                    == m@ && final(self).active == old(self).active,
                None => r is Ok && !final(self).active,
            },
    {
        self.calls.push(String::from_str("deactivate"));
        if let Some(msg) = &self.script.fail_deactivate {
            let r = Err(BootDriveError::gadget(msg.clone()));
            self.log = Ghost(self.log@.push(BackendCall::Deactivate(unit_result(r))));
            return r;
        }
        self.active = false;
        self.log = Ghost(self.log@.push(BackendCall::Deactivate(Ok(()))));
        Ok(())
    }

    fn state(&self) -> (r: BackendState)
        ensures
            r.active == self.active,
            opt_view(r.udc) == opt_view(self.script.udc),
    {
        BackendState { active: self.active, udc: copy_opt(&self.script.udc) }
    }
}

// ---------------------------------------------------------------------------
// Rules of the configfs backend
// ---------------------------------------------------------------------------

/// Whether a gadget name is exactly [`GADGET_NAME`].
pub fn is_own_gadget(name: &str) -> (r: bool)
    ensures
        r == (name@ == GADGET_NAME@),
{
    chars_eq(chars_of(name).as_slice(), chars_of(GADGET_NAME).as_slice())
}

/// The registered gadgets a startup cleanup removes: exactly those named
/// [`GADGET_NAME`], in order. No other gadget is ever removed.
pub fn gadgets_to_remove(names: &Vec<String>) -> (r: Vec<usize>)
    ensures
        forall|k: int| 0 <= k < r@.len() ==> r@[k] < names@.len() && names@[r@[k] as int]@
            == GADGET_NAME@,
        forall|i: int|
            0 <= i < names@.len() && names@[i]@ == GADGET_NAME@ ==> r@.contains(i as usize),
        forall|k: int, j: int| 0 <= k < j < r@.len() ==> r@[k] < r@[j],
{
    let mut r: Vec<usize> = Vec::new();
    let mut i: usize = 0;
    while i < names.len()
        invariant
            i <= names@.len(),
            forall|k: int| 0 <= k < r@.len() ==> r@[k] < i && names@[r@[k] as int]@ == GADGET_NAME@,
            forall|j: int| 0 <= j < i && names@[j]@ == GADGET_NAME@ ==> r@.contains(j as usize),
            forall|k: int, j: int| 0 <= k < j < r@.len() ==> r@[k] < r@[j],
        decreases names@.len() - i,
    {
        if is_own_gadget(names[i].as_str()) {
            let ghost before = r@;
            r.push(i);
            assert(r@.last() == i);
            assert forall|j: int|
                0 <= j <= i && names@[j]@ == GADGET_NAME@ implies r@.contains(j as usize) by {
                if j < i {
                    let k = choose|k: int| 0 <= k < before.len() && before[k] == j as usize;
                    assert(r@[k] == j as usize);
                } else {
                    assert(r@[r@.len() - 1] == j as usize);
                }
            }
        }
        i = i + 1;
    }
    r
}

/// The registered gadgets to unbind so BootDrive can use the UDC: every
/// gadget bound to a UDC that is not BootDrive's own, in order. They are
/// only unbound, never removed.
pub fn gadgets_to_release(names: &Vec<String>, bound: &Vec<bool>) -> (r: Vec<usize>)
    requires
        names@.len() == bound@.len(),
    ensures
        forall|k: int| 0 <= k < r@.len() ==> r@[k] < names@.len() && names@[r@[k] as int]@
            != GADGET_NAME@ && bound@[r@[k] as int],
        forall|i: int|
            0 <= i < names@.len() && names@[i]@ != GADGET_NAME@ && bound@[i] ==> r@.contains(
                i as usize,
            ),
        forall|k: int, j: int| 0 <= k < j < r@.len() ==> r@[k] < r@[j],
{
    let mut r: Vec<usize> = Vec::new();
    let mut i: usize = 0;
    while i < names.len()
        invariant
            i <= names@.len() == bound@.len(),
            forall|k: int| 0 <= k < r@.len() ==> r@[k] < i && names@[r@[k] as int]@ != GADGET_NAME@
                && bound@[r@[k] as int],
            forall|j: int|
                0 <= j < i && names@[j]@ != GADGET_NAME@ && bound@[j] ==> r@.contains(j as usize),
            forall|k: int, j: int| 0 <= k < j < r@.len() ==> r@[k] < r@[j],
        decreases names@.len() - i,
    {
        if !is_own_gadget(names[i].as_str()) && bound[i] {
            let ghost before = r@;
            r.push(i);
            assert forall|j: int|
                0 <= j <= i && names@[j]@ != GADGET_NAME@ && bound@[j] implies r@.contains(
                j as usize,
            ) by {
                if j < i {
                    let k = choose|k: int| 0 <= k < before.len() && before[k] == j as usize;
                    assert(r@[k] == j as usize);
                } else {
                    assert(r@[r@.len() - 1] == j as usize);
                }
            }
        }
        i = i + 1;
    }
    r
}

/// The serial number of the gadget for an image of `size` bytes.
pub fn gadget_serial(size: u64) -> (r: String)
    ensures
        r@ == "bootdrive-"@ + decimal(size as nat),
{
    let d = decimal_string(size);
    String::from_str("bootdrive-").concat(d.as_str())
}

/// How the mass-storage logical unit presents the image.
#[derive(Debug, Clone, Copy, PartialEq, Eq)]
pub struct LunSettings {
    /// The host may not write to the image.
    pub read_only: bool,
    /// The unit is an optical drive.
    pub cdrom: bool,
    /// The medium is removable.
    pub removable: bool,
}

/// The logical unit settings for `mode`: always read-only and removable; an
/// optical drive exactly in CD-ROM mode.
pub fn lun_settings(mode: ImageMode) -> (r: LunSettings)
    ensures
        r.read_only,
        r.removable,
        r.cdrom == (mode == ImageMode::Cdrom),
{
    LunSettings { read_only: true, cdrom: mode == ImageMode::Cdrom, removable: true }
}

/// The SCSI inquiry string of the logical unit.
pub const INQUIRY_STRING: &'static str = "BootDrive";

/// Manufacturer string of the gadget.
pub const MANUFACTURER: &'static str = "BootDrive";

/// Product string of the gadget.
pub const PRODUCT: &'static str = "Bootable Image";

/// Name of the gadget's configuration.
pub const CONFIG_NAME: &'static str = "Bootable image";

/// The configfs operations whose failure the backend reports.
#[derive(Debug, Clone, Copy, PartialEq, Eq, Structural)]
pub enum GadgetStep {
    /// Finding the UDC.
    FindUdc,
    /// Enumerating registered gadgets.
    Enumerate,
    /// Removing a stale BootDrive gadget.
    RemoveStale,
    /// Unbinding another gadget from the UDC.
    Release,
    /// Opening the backing file of the logical unit.
    OpenBacking,
    /// Binding the gadget to the UDC.
    Bind,
    /// Removing the gadget on eject.
    Remove,
}

/// The code and message prefix reported when `step` fails.
pub open spec fn gadget_failure(step: GadgetStep) -> (ErrorCode, Seq<char>) {
    match step {
        GadgetStep::FindUdc => (ErrorCode::NoUdc, "no usable USB device controller: "@),
        GadgetStep::Enumerate => (ErrorCode::GadgetFailure, "could not enumerate gadgets: "@),
        GadgetStep::RemoveStale => (ErrorCode::GadgetFailure, "could not remove stale gadget: "@),
        GadgetStep::Release => (
            ErrorCode::UdcBusy,
            "could not release the UDC from another gadget: "@,
        ),
        GadgetStep::OpenBacking => (
            ErrorCode::MassStorageUnavailable,
            "mass-storage backing file could not be opened: "@,
        ),
        GadgetStep::Bind => (ErrorCode::GadgetFailure, "could not bind the USB gadget: "@),
        GadgetStep::Remove => (ErrorCode::GadgetFailure, "could not remove the gadget: "@),
    }
}

/// The error reported when a configfs operation fails with `detail`.
pub fn gadget_error(step: GadgetStep, detail: &str) -> (e: BootDriveError)
    ensures
        e.code == gadget_failure(step).0,
        e.message@ == gadget_failure(step).1 + detail@,
{
    let (code, prefix) = match step {
        GadgetStep::FindUdc => (ErrorCode::NoUdc, "no usable USB device controller: "),
        GadgetStep::Enumerate => (ErrorCode::GadgetFailure, "could not enumerate gadgets: "),
        GadgetStep::RemoveStale => (ErrorCode::GadgetFailure, "could not remove stale gadget: "),
        GadgetStep::Release => (
            ErrorCode::UdcBusy,
            "could not release the UDC from another gadget: ",
        ),
        GadgetStep::OpenBacking => (
            ErrorCode::MassStorageUnavailable,
            "mass-storage backing file could not be opened: ",
        ),
        GadgetStep::Bind => (ErrorCode::GadgetFailure, "could not bind the USB gadget: "),
        GadgetStep::Remove => (ErrorCode::GadgetFailure, "could not remove the gadget: "),
    };
    BootDriveError::new(code, String::from_str(prefix).concat(detail))
}

/// The error of an activation requested while a gadget is already active.
pub fn already_active_error() -> (e: BootDriveError)
    ensures
        e.code == ErrorCode::InvalidState,
        e.message@ == "already active"@,
{
    BootDriveError::invalid_state(String::from_str("already active"))
}

} // verus!
