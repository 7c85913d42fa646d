//! `DriveType` values (`[MS-SHLLINK]` §2.3.1 / Win32 `GetDriveType`).
use vstd::prelude::*;

verus! {

/// The drive type cannot be determined.
pub const UNKNOWN: u32 = 0;

/// The root path is invalid (no volume mounted).
pub const NO_ROOT_DIR: u32 = 1;

/// A removable drive (USB stick, memory card, floppy).
pub const REMOVABLE: u32 = 2;

/// A fixed (internal) disk.
pub const FIXED: u32 = 3;

/// A remote (network) drive.
pub const REMOTE: u32 = 4;

/// An optical drive (CD/DVD).
pub const CDROM: u32 = 5;

/// A RAM disk.
pub const RAMDISK: u32 = 6;

} // verus!
