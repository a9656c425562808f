//! The decisions of the `bootdrive` command-line frontend.

use vstd::prelude::*;

use crate::paths::{extension, extension_spec};
use crate::state::{default_mode_for, ImageMode};
use crate::text::{chars_eq, chars_of};

verus! {

/// The mode an `expose` command asks for: CD-ROM with `--cdrom`, disk with
/// `--disk`, else the default for the image's extension.
pub open spec fn expose_mode_spec(cdrom: bool, disk: bool, path: Seq<char>) -> ImageMode {
    if cdrom {
        ImageMode::Cdrom
    } else if disk {
        ImageMode::Disk
    } else {
        default_mode_for(
            match extension_spec(path) {
                Some(e) => e,
                None => Seq::empty(),
            },
        )
    }
}

/// The mode an `expose` command asks for.
pub fn expose_mode(cdrom: bool, disk: bool, path: &str) -> (r: ImageMode)
    ensures
        r == expose_mode_spec(cdrom, disk, path@),
{
    if cdrom {
        ImageMode::Cdrom
    } else if disk {
        ImageMode::Disk
    } else {
        let ext = match extension(path) {
            Some(e) => e,
            None => String::new(),
        };
        ImageMode::default_for_extension(ext.as_str())
    }
}

/// The outcome of `expose` once usb-signaller replied with the mode it is
/// in: a confirmation when it is the requested mode, else an error.
pub fn expose_outcome(result: &str, target: &str, path: &str, mode: ImageMode) -> (r: Result<
    String,
    String,
>)
    ensures
        result@ == target@ ==> (r matches Ok(m) && m@ == "Exposing "@ + path@ + " as "@ + (
        match mode {
            ImageMode::Cdrom => "USB CD-ROM"@,
            ImageMode::Disk => "USB disk"@,
        }) + "."@),
        result@ != target@ ==> (r matches Err(m) && m@ == "usb-signaller stayed in '"@ + result@
            + "', check its logs"@),
{
    if chars_eq(chars_of(result).as_slice(), chars_of(target).as_slice()) {
        Ok(String::from_str("Exposing ").concat(path).concat(" as ").concat(mode.label()).concat("."))
    } else {
        Err(
            String::from_str("usb-signaller stayed in '").concat(result).concat(
                "', check its logs",
            ),
        )
    }
}

} // verus!
