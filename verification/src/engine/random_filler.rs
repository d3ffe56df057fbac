//! Pseudo-random fill for the overwrite pattern, and the two write buffers
//! a run draws its blocks from.
//!
//! The generator is `rand`'s `SmallRng`, a fast non-cryptographic PRNG,
//! seeded once from the operating system's entropy source: the goal is
//! fresh, non-repeating bit patterns on disk at disk speed, not output that
//! resists cryptanalysis. When the entropy source fails, no generator is
//! made and the run reports the failure.

use crate::engine::config::OverwritePattern;
use crate::engine::wipe_engine::WRITE_BUFFER_BYTES;
use rand::rngs::{OsRng, SmallRng};
use rand::{RngCore, SeedableRng};
use vstd::prelude::*;

verus! {

#[verifier::external_type_specification]
#[verifier::external_body]
pub struct ExSmallRng(SmallRng);

#[verifier::external_type_specification]
#[verifier::external_body]
pub struct ExRandError(rand::Error);

/// The operating system's entropy source could not seed the generator.
#[derive(Debug, Clone, Copy, PartialEq, Eq, Structural)]
pub struct EntropyUnavailable;

pub struct FastRandomFiller {
    rng: SmallRng,
}

/// Seeds a `SmallRng` through `rand_core::SeedableRng::from_rng(OsRng)`:
/// the seed bytes come from `OsRng::try_fill_bytes` (`getrandom`), and a
/// failure of the OS entropy source is returned as the error rather than a
/// panic. Nothing is claimed of the seed, nor of which outcome comes.
#[verifier::external_body]
fn seeded_small_rng() -> (r: Result<SmallRng, rand::Error>) {
    SmallRng::from_rng(OsRng)
}

/// Calls `rand_core::RngCore::fill_bytes` on a `SmallRng`, which overwrites
/// every byte of `dest` with generator output. Claimed: the length of
/// `dest` is unchanged. The bytes themselves are left unspecified.
#[verifier::external_body]
fn small_rng_fill(rng: &mut SmallRng, dest: &mut [u8])
    ensures
        final(dest)@.len() == old(dest)@.len(),
{
    rng.fill_bytes(dest)
}

impl FastRandomFiller {
    /// A generator seeded from the OS entropy source, or
    /// `EntropyUnavailable` when that source fails. Whether it succeeds
    /// depends on the OS; the seed, and so the output, is left unspecified.
    pub fn new() -> (r: Result<Self, EntropyUnavailable>) {
        match seeded_small_rng() {
            Ok(rng) => Ok(FastRandomFiller { rng }),
            Err(_) => Err(EntropyUnavailable),
        }
    }

    /// Fills `buffer` entirely with pseudo-random bytes. Which bytes is
    /// left unspecified; only the length is kept.
    pub fn fill(&mut self, buffer: &mut [u8])
        ensures
            final(buffer)@.len() == old(buffer)@.len(),
    {
        small_rng_fill(&mut self.rng, buffer)
    }
}

/// The zero-filled and the pseudo-random buffer a run writes from, each
/// `WRITE_BUFFER_BYTES` long.
pub struct WriteBuffers {
    pub zero: Vec<u8>,
    pub random: Vec<u8>,
    pub filler: FastRandomFiller,
}

impl WriteBuffers {
    pub open spec fn wf(&self) -> bool {
        &&& self.zero@.len() == WRITE_BUFFER_BYTES
        &&& self.random@.len() == WRITE_BUFFER_BYTES
        &&& forall|i: int| 0 <= i < self.zero@.len() ==> #[trigger] self.zero@[i] == 0u8
    }

    /// Both buffers, zeroed, and a freshly seeded generator; fails only
    /// when the generator cannot be seeded.
    pub fn new() -> (r: Result<Self, EntropyUnavailable>)
        ensures
            r matches Ok(b) ==> b.wf() && forall|i: int| 0 <= i < b.random@.len() ==> #[trigger] b.random@[i]
                == 0u8,
    {
        let filler = match FastRandomFiller::new() {
            Ok(f) => f,
            Err(e) => {
                return Err(e);
            },
        };
        let zero = vec![0u8; WRITE_BUFFER_BYTES];
        let random = vec![0u8; WRITE_BUFFER_BYTES];
        Ok(WriteBuffers { zero, random, filler })
    }

    /// Makes the next block of `pattern` ready: for the pseudo-random
    /// pattern the whole random buffer is refilled before every write. The
    /// new random bytes are left unspecified.
    pub fn refill(&mut self, pattern: OverwritePattern)
        requires
            old(self).wf(),
        ensures
            final(self).wf(),
            final(self).zero == old(self).zero,
            pattern is ZeroFill ==> final(self).random == old(self).random,
    {
        match pattern {
            OverwritePattern::ZeroFill => {},
            OverwritePattern::PseudoRandom => {
                self.filler.fill(self.random.as_mut_slice());
            },
        }
    }

    /// The first `size` bytes of the buffer for `pattern`; all zero for the
    /// zero-fill pattern.
    pub fn block(&self, pattern: OverwritePattern, size: usize) -> (r: &[u8])
        requires
            self.wf(),
            size <= WRITE_BUFFER_BYTES,
        ensures
            r@.len() == size,
            pattern is ZeroFill ==> r@ == self.zero@.subrange(0, size as int),
            pattern is ZeroFill ==> forall|i: int| 0 <= i < size ==> #[trigger] r@[i] == 0u8,
            pattern is PseudoRandom ==> r@ == self.random@.subrange(0, size as int),
    {
        match pattern {
            OverwritePattern::ZeroFill => slice_prefix(self.zero.as_slice(), size),
            OverwritePattern::PseudoRandom => slice_prefix(self.random.as_slice(), size),
        }
    }
}

fn slice_prefix(s: &[u8], size: usize) -> (r: &[u8])
    requires
        size <= s@.len(),
    ensures
        r@ == s@.subrange(0, size as int),
{
    &s[0..size]
}

} // verus!
