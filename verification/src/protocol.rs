//! The `com.meego.usb_moded` contract BootDrive drives, and the names of the
//! BootDrive daemon on the system bus.

use vstd::prelude::*;

use crate::text::chars_of;

verus! {

/// Well-known bus name usb-signaller owns on the system bus.
pub const MODED_SERVICE: &'static str = "com.meego.usb_moded";

/// Object path.
pub const MODED_PATH: &'static str = "/com/meego/usb_moded";

/// Interface name.
pub const MODED_INTERFACE: &'static str = "com.meego.usb_moded";

/// Expose the configured image as a USB disk.
pub const MODE_MASS_STORAGE: &'static str = "mass_storage_mode";

/// Expose the configured image as a USB CD-ROM.
pub const MODE_CDROM: &'static str = "cdrom_mode";

/// The mode we return to on eject (normal USB networking / developer mode).
pub const MODE_NORMAL: &'static str = "developer_mode";

/// Application display name.
pub const DISPLAY_NAME: &'static str = "BootDrive";

/// Well-known name of the BootDrive daemon on the system bus.
pub const DBUS_SERVICE_NAME: &'static str = "net.bresilla.BootDrive1";

/// Object path of the BootDrive daemon.
pub const DBUS_OBJECT_PATH: &'static str = "/net/bresilla/BootDrive1";

/// Where, under the home directory, the current-image symlink lives: in
/// BootDrive's own data directory, which usb-signaller (running as root) can
/// already read, so the frontends can re-point it freely.
pub const CURRENT_IMAGE_SUFFIX: &'static str = ".var/app/net.bresilla.BootDrive/data/bootdrive/current.img";

/// The home directory used when `HOME` is unset.
pub const FALLBACK_HOME: &'static str = "/root";

/// A relative path appended to a directory, as a path join does: nothing is
/// added to an empty directory, and a separator only where the directory
/// does not end in one.
pub open spec fn joined(dir: Seq<char>, rel: Seq<char>) -> Seq<char> {
    if dir.len() == 0 {
        rel
    } else if dir.last() == '/' {
        dir + rel
    } else {
        dir + "/"@ + rel
    }
}

/// The fixed path usb-signaller's `[mass_storage] storage_path` points at,
/// for the home directory `home` (`HOME`, when it is set).
pub fn current_image_link_in(home: Option<&str>) -> (r: String)
    ensures
        r@ == joined(
            match home {
                Some(h) => h@,
                None => FALLBACK_HOME@,
            },
            CURRENT_IMAGE_SUFFIX@,
        ),
{
    let dir = match home {
        Some(h) => h,
        None => FALLBACK_HOME,
    };
    let d = chars_of(dir);
    if d.len() == 0 {
        String::from_str(CURRENT_IMAGE_SUFFIX)
    } else if d[d.len() - 1] == '/' {
        String::from_str(dir).concat(CURRENT_IMAGE_SUFFIX)
    } else {
        String::from_str(dir).concat("/").concat(CURRENT_IMAGE_SUFFIX)
    }
}

} // verus!
