//! YFP (Your Files Protector): overwrites the free space of a drive with
//! dummy files so that deleted files can no longer be recovered, then
//! deletes the dummy files again.
//!
//! `engine` holds the verified core: the run state machine that decides
//! every step of an overwrite job, the safety floor it keeps, and the
//! bookkeeping of dummy files. `app` holds the UI's state and decisions,
//! `tray` the tray-menu commands and `util` text formatting.

pub mod app;
pub mod engine;
pub mod tray;
pub mod util;
