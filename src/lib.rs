//! Verified core of a tool that backs up an editor configuration directory
//! into timestamped zip archives ("capsules"), lists them, and restores one.
//!
//! The library decides: what capsules and backups are named, which store
//! entries are capsules and in which order they are shown, which capsule a
//! typed line chooses, under which name each file is archived and where each
//! archived entry is restored, and in which order a restore acts. Reading
//! and writing files, archives and the terminal is left to the caller.

pub mod naming;
pub mod paths;
pub mod restore;
pub mod selection;
pub mod stamp;
pub mod store;
pub mod text;
