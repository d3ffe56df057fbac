//! The overwrite engine: job configuration, the run state machine, the
//! pause/cancel signals, the write buffers, dummy-file bookkeeping and
//! drive enumeration. No UI and no file-system or Win32 calls of its own.

pub mod cleaner;
pub mod config;
pub mod control;
pub mod random_filler;
pub mod run_trace;
pub mod target;
pub mod wipe_engine;

pub use config::{OverwritePattern, WipeConfig, WipeTargetInfo};
pub use control::WipeControl;
pub use wipe_engine::{WipeProgress, WipeState};
