//! BootDrive: expose a disk image from a Linux phone as a bootable USB drive.
//!
//! The library holds the verified logic of the daemon and of its frontends:
//! error codes, the shared state model, image validation rules, caller
//! resolution from the system databases, authorization, the activation
//! transaction machine, gadget selection rules and the frontend decisions.
//! Everything that touches the file system, processes, D-Bus or the GUI
//! toolkit lives in the application crate around it.

pub mod authorization;
pub mod caller;
pub mod catalog;
pub mod cli;
pub mod daemon_proxy;
pub mod error;
pub mod image;
pub mod image_selection;
pub mod library;
pub mod manager;
pub mod paths;
pub mod protocol;
pub mod recovery;
pub mod service;
pub mod state;
pub mod text;
pub mod ui;
pub mod usb;
pub mod usb_moded;
pub mod usb_signaller;
