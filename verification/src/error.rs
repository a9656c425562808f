//! The shared error type and the stable machine-readable error codes carried
//! by the `ErrorOccurred` signal and D-Bus method errors.

use vstd::prelude::*;

verus! {

/// Stable, machine-readable error codes.
///
/// The GUI matches on these to render a specific recovery hint, so the strings
/// are part of the contract and must stay stable.
#[derive(Debug, Clone, Copy, PartialEq, Eq, Structural)]
pub enum ErrorCode {
    /// The mass-storage kernel module could not be loaded.
    MassStorageUnavailable,
    /// No usable USB Device Controller was found.
    NoUdc,
    /// The UDC is currently claimed by something else.
    UdcBusy,
    /// `usb-signaller` could not be stopped / could not release the UDC.
    SignallerReleaseFailed,
    /// The selected file failed validation.
    InvalidImage,
    /// The D-Bus caller is not authorized to activate.
    NotAuthorized,
    /// An operation was requested that is not valid in the current state.
    InvalidState,
    /// A low-level gadget / configfs operation failed.
    GadgetFailure,
    /// Anything else.
    Internal,
}

/// The wire text of each code.
pub open spec fn wire_of(code: ErrorCode) -> Seq<char> {
    match code {
        ErrorCode::MassStorageUnavailable => "mass-storage-unavailable"@,
        ErrorCode::NoUdc => "no-udc"@,
        ErrorCode::UdcBusy => "udc-busy"@,
        ErrorCode::SignallerReleaseFailed => "signaller-release-failed"@,
        ErrorCode::InvalidImage => "invalid-image"@,
        ErrorCode::NotAuthorized => "not-authorized"@,
        ErrorCode::InvalidState => "invalid-state"@,
        ErrorCode::GadgetFailure => "gadget-failure"@,
        ErrorCode::Internal => "internal"@,
    }
}

impl ErrorCode {
    /// The stable wire representation.
    pub fn as_wire(self) -> (r: &'static str)
        ensures
            r@ == wire_of(self),
    {
        match self {
            ErrorCode::MassStorageUnavailable => "mass-storage-unavailable",
            ErrorCode::NoUdc => "no-udc",
            ErrorCode::UdcBusy => "udc-busy",
            ErrorCode::SignallerReleaseFailed => "signaller-release-failed",
            ErrorCode::InvalidImage => "invalid-image",
            ErrorCode::NotAuthorized => "not-authorized",
            ErrorCode::InvalidState => "invalid-state",
            ErrorCode::GadgetFailure => "gadget-failure",
            ErrorCode::Internal => "internal",
        }
    }

    /// The displayed form of a code: its wire text.
    pub fn to_string(self) -> (r: String)
        ensures
            r@ == wire_of(self),
    {
        String::from_str(self.as_wire())
    }
}

/// The error type shared across the daemon.
#[derive(Debug, Clone)]
pub struct BootDriveError {
    /// Stable machine-readable code.
    pub code: ErrorCode,
    /// Human-readable, GUI-safe message (never contains a private path).
    pub message: String,
}

/// The mathematical content of a [`BootDriveError`].
pub struct ErrorView {
    pub code: ErrorCode,
    pub message: Seq<char>,
}

impl View for BootDriveError {
    type V = ErrorView;

    open spec fn view(&self) -> ErrorView {
        ErrorView { code: self.code, message: self.message@ }
    }
}

impl BootDriveError {
    /// Construct a new error.
    pub fn new(code: ErrorCode, message: String) -> (e: Self)
        ensures
            e.code == code,
            e.message@ == message@,
    {
        BootDriveError { code, message }
    }

    /// Shorthand for [`ErrorCode::InvalidImage`].
    pub fn invalid_image(message: String) -> (e: Self)
        ensures
            e.code == ErrorCode::InvalidImage,
            e.message@ == message@,
    {
        Self::new(ErrorCode::InvalidImage, message)
    }

    /// Shorthand for [`ErrorCode::InvalidState`].
    pub fn invalid_state(message: String) -> (e: Self)
        ensures
            e.code == ErrorCode::InvalidState,
            e.message@ == message@,
    {
        Self::new(ErrorCode::InvalidState, message)
    }

    /// Shorthand for [`ErrorCode::GadgetFailure`].
    pub fn gadget(message: String) -> (e: Self)
        ensures
            e.code == ErrorCode::GadgetFailure,
            e.message@ == message@,
    {
        Self::new(ErrorCode::GadgetFailure, message)
    }

    /// Shorthand for [`ErrorCode::Internal`].
    pub fn internal(message: String) -> (e: Self)
        ensures
            e.code == ErrorCode::Internal,
            e.message@ == message@,
    {
        Self::new(ErrorCode::Internal, message)
    }

    /// The displayed form of an error: `"<code>: <message>"`.
    pub fn to_string(&self) -> (r: String)
        ensures
            r@ == wire_of(self.code) + ": "@ + self.message@,
    {
        let s = String::from_str(self.code.as_wire());
        let s = s.concat(": ");
        s.concat(self.message.as_str())
    }

    /// A copy of this error with the same code and message.
    pub fn duplicate(&self) -> (r: Self)
        ensures
            r@ == self@,
    {
        BootDriveError { code: self.code, message: self.message.clone() }
    }
}

/// The mathematical content of a result that carries nothing on success.
pub open spec fn unit_result(r: Result<(), BootDriveError>) -> Result<(), ErrorView> {
    match r {
        Ok(()) => Ok(()),
        Err(e) => Err(e@),
    }
}

} // verus!
