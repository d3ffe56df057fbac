//! Pause, resume and cancel flags shared between the UI and the thread
//! that drives a run. Cloning a `WipeControl` shares the same flags.
//!
//! The flags are atomics written by one thread and read by another, so no
//! contract here can say what a read returns: any other clone may have
//! flipped a flag in between. Blocking a paused run until it is resumed or
//! cancelled, and waking it, is thread synchronisation and belongs to the
//! layer that owns the threads: it waits while `is_paused()` and not
//! `is_cancelled()`, and is woken after `resume` and `cancel`.

use std::sync::atomic::AtomicBool;
use std::sync::atomic::Ordering;
use std::sync::Arc;
use vstd::prelude::*;

verus! {

/// Shared control flags for one run.
pub struct WipeControl {
    paused: Arc<AtomicBool>,
    cancelled: Arc<AtomicBool>,
}

impl WipeControl {
    /// Fresh flags: not paused, not cancelled. (The flags are atomics with
    /// no value model, so this is not stated in the contract.)
    pub fn new() -> (c: Self) {
        WipeControl { paused: Arc::new(AtomicBool::new(false)), cancelled: Arc::new(AtomicBool::new(false)) }
    }

    pub fn pause(&self) {
        self.paused.store(true, Ordering::SeqCst);
    }

    /// Clears the pause flag; the caller then wakes a waiting run.
    pub fn resume(&self) {
        self.paused.store(false, Ordering::SeqCst);
    }

    /// Sets the cancel flag for good; the caller then wakes a paused run so
    /// that it can observe the cancellation instead of waiting for a resume.
    pub fn cancel(&self) {
        self.cancelled.store(true, Ordering::SeqCst);
    }

    /// Reads the cancel flag; any clone may have set it meanwhile.
    pub fn is_cancelled(&self) -> bool {
        self.cancelled.load(Ordering::SeqCst)
    }

    /// Reads the pause flag; any clone may have flipped it meanwhile.
    pub fn is_paused(&self) -> bool {
        self.paused.load(Ordering::SeqCst)
    }
}

impl Clone for WipeControl {
    /// Another handle on the same flags.
    fn clone(&self) -> (r: Self) {
        WipeControl { paused: self.paused.clone(), cancelled: self.cancelled.clone() }
    }
}

impl Default for WipeControl {
    fn default() -> (r: Self) {
        Self::new()
    }
}

} // verus!
