use yfp::engine::config::{OverwritePattern, WipeConfig};
use yfp::engine::control::WipeControl;
use yfp::engine::random_filler::{FastRandomFiller, WriteBuffers};
use yfp::engine::wipe_engine::WRITE_BUFFER_BYTES;

#[test]
fn zero_blocks_are_zero() {
    let mut b = WriteBuffers::new().expect("entropy source available");
    b.refill(OverwritePattern::ZeroFill);
    let block = b.block(OverwritePattern::ZeroFill, 1000);
    assert_eq!(block.len(), 1000);
    assert!(block.iter().all(|x| *x == 0));
    assert_eq!(b.block(OverwritePattern::ZeroFill, WRITE_BUFFER_BYTES).len(), WRITE_BUFFER_BYTES);
}

#[test]
fn random_blocks_are_refilled() {
    let mut b = WriteBuffers::new().expect("entropy source available");
    b.refill(OverwritePattern::PseudoRandom);
    let first = b.block(OverwritePattern::PseudoRandom, 64).to_vec();
    assert_eq!(first.len(), 64);
    assert!(first.iter().any(|x| *x != 0));
    b.refill(OverwritePattern::PseudoRandom);
    assert_ne!(first, b.block(OverwritePattern::PseudoRandom, 64).to_vec());
    // The zero buffer is untouched by random refills.
    assert!(b.block(OverwritePattern::ZeroFill, 64).iter().all(|x| *x == 0));
}

#[test]
fn filler_fills_whole_buffer() {
    let mut f = FastRandomFiller::new().expect("entropy source available");
    let mut buf = vec![0u8; 4096];
    f.fill(&mut buf);
    assert_eq!(buf.len(), 4096);
    assert!(buf.iter().filter(|x| **x != 0).count() > 3000);
    let mut g = FastRandomFiller::new().expect("entropy source available");
    let mut other = vec![0u8; 4096];
    g.fill(&mut other);
    assert_ne!(buf, other);
}

#[test]
fn control_flags_are_shared_between_clones() {
    let c = WipeControl::new();
    let ui = c.clone();
    assert!(!c.is_cancelled());
    assert!(!c.is_paused());
    ui.pause();
    assert!(c.is_paused());
    ui.resume();
    assert!(!c.is_paused());
    ui.cancel();
    assert!(c.is_cancelled());
    assert!(WipeControl::default().is_cancelled() == false);
}

#[test]
fn config_defaults_are_in_range() {
    assert!(WipeConfig::MIN_FILL_PERCENT <= WipeConfig::DEFAULT_FILL_PERCENT);
    assert!(WipeConfig::DEFAULT_FILL_PERCENT <= WipeConfig::MAX_FILL_PERCENT);
    assert!(WipeConfig::MIN_CHUNK_MB <= WipeConfig::DEFAULT_CHUNK_MB);
    assert!(WipeConfig::DEFAULT_CHUNK_MB <= WipeConfig::MAX_CHUNK_MB);
    assert_eq!(WipeConfig::DUMMY_FILE_PREFIX, "yfp_dummy_");
    assert_eq!(WipeConfig::DUMMY_FILE_SUFFIX, ".bin");
}
