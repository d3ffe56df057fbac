//! Job parameters for one overwrite run: which volume or folder, which
//! byte pattern, how full to fill it and how large each dummy file grows.

use vstd::prelude::*;

verus! {

/// Byte pattern written into dummy files.
#[derive(Debug, Clone, Copy, PartialEq, Eq, Structural)]
pub enum OverwritePattern {
    ZeroFill,
    PseudoRandom,
}

/// A drive or folder the engine can write dummy files into.
#[derive(Debug, Clone)]
pub struct WipeTargetInfo {
    /// Human-readable label, e.g. "Local Disk (C:)".
    pub label: String,
    /// Directory the dummy files are written into, e.g. `C:\`.
    pub root_path: String,
    pub total_bytes: u64,
    pub free_bytes: u64,
    pub is_removable: bool,
}

#[derive(Debug, Clone)]
pub struct WipeConfig {
    pub target: WipeTargetInfo,
    pub pattern: OverwritePattern,
    /// Share of the fillable space to overwrite, in percent.
    pub target_fill_percent: u8,
    /// Size of each dummy file, in bytes.
    pub chunk_size_bytes: u64,
}

impl WipeConfig {
    pub const MIN_FILL_PERCENT: u8 = 50;
    pub const MAX_FILL_PERCENT: u8 = 95;
    pub const DEFAULT_FILL_PERCENT: u8 = 90;

    pub const MIN_CHUNK_MB: u64 = 1024;
    pub const MAX_CHUNK_MB: u64 = 4096;
    pub const DEFAULT_CHUNK_MB: u64 = 2048;

    pub const DUMMY_FILE_PREFIX: &'static str = "yfp_dummy_";
    pub const DUMMY_FILE_SUFFIX: &'static str = ".bin";
}

/// The default fill percentage and chunk size lie within their allowed
/// ranges.
pub proof fn lemma_defaults_in_range()
    ensures
        WipeConfig::MIN_FILL_PERCENT <= WipeConfig::DEFAULT_FILL_PERCENT <= WipeConfig::MAX_FILL_PERCENT,
        WipeConfig::MIN_CHUNK_MB <= WipeConfig::DEFAULT_CHUNK_MB <= WipeConfig::MAX_CHUNK_MB,
{
}

} // verus!
