//! Reader and analyzer for Windows Shell Link (`.lnk`) files and Jump Lists.
//!
//! [`parse_shell_link`] turns `[MS-SHLLINK]` bytes into a typed [`ShellLink`];
//! [`parse_automatic_destinations`] and [`parse_custom_destinations`] read the
//! two Jump List families; [`audit`], [`audit_findings`] and
//! [`audit_jumplist`] grade what they hold as hedged observations.
//!
//! Every read of the input is bounds-checked: malformed input yields `None`
//! or absent sub-structures, never a panic.
pub mod audit;
pub mod bytes;
pub mod deps;
pub mod drive_type;
pub mod format_laws;
pub mod jumplist;
pub mod laws;
pub mod shell_link;
pub mod text;
pub mod wording;

pub use audit::{
    audit, audit_findings, audit_jumplist, source, Category, Finding, JumpListAnomaly, LnkAnomaly,
    Severity, Source,
};
pub use jumplist::{
    parse_automatic_destinations, parse_custom_destinations, parse_destlist, DestListEntry,
    JumpList, JumpListEntry, JumpListKind,
};
pub use shell_link::{
    parse_shell_link, CommonNetworkRelativeLink, DroidGuids, LinkInfo, LinkTargetIdList, ShellLink,
    ShellLinkHeader, StringData, TrackerDataBlock, VolumeId,
};
