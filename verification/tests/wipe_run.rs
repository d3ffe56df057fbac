use yfp::engine::config::{OverwritePattern, WipeConfig, WipeTargetInfo};
use yfp::engine::wipe_engine::{
    WipeEmit, WipeProgress, WipeReply, WipeRequest, WipeRun, WipeState, MIN_FREE_SPACE_FLOOR_BYTES,
    WRITE_BUFFER_BYTES,
};
use yfp::engine::wipe_engine::{compute_initial_target, speed_window_complete};
use yfp::util::fixed::scale_by_percent;

const FLOOR: u64 = MIN_FREE_SPACE_FLOOR_BYTES;

fn config(chunk: u64, percent: u8) -> WipeConfig {
    WipeConfig {
        target: WipeTargetInfo {
            label: "Local Disk (C:)".to_string(),
            root_path: "C:\\".to_string(),
            total_bytes: 0,
            free_bytes: 0,
            is_removable: false,
        },
        pattern: OverwritePattern::ZeroFill,
        target_fill_percent: percent,
        chunk_size_bytes: chunk,
    }
}

/// A simulated volume and control panel driving a run to its end.
struct Sim {
    free: u64,
    /// Free-space readings to report instead of `free`, in order.
    forced_free: Vec<u64>,
    /// Flag snapshots to report, in order; afterwards (false, false).
    control: Vec<(bool, bool)>,
    create_error_at: Option<u32>,
    write_error_at: Option<usize>,
    flush_error_at: Option<usize>,
    entropy_fails: bool,
    /// Bytes in the open file, and in files whose flush succeeded.
    open_bytes: u64,
    flushed_bytes: u64,
    writes: Vec<usize>,
    creates: Vec<u32>,
    flushes: usize,
    discards: usize,
    requests: Vec<WipeRequest>,
}

impl Sim {
    fn new(free: u64) -> Sim {
        Sim {
            free,
            forced_free: vec![],
            control: vec![],
            create_error_at: None,
            write_error_at: None,
            flush_error_at: None,
            entropy_fails: false,
            open_bytes: 0,
            flushed_bytes: 0,
            writes: vec![],
            creates: vec![],
            flushes: 0,
            discards: 0,
            requests: vec![],
        }
    }

    fn run(&mut self, config: &WipeConfig, resume: u64) -> Vec<WipeEmit> {
        let (mut run, mut req) = WipeRun::start(config, resume);
        let mut out = Vec::new();
        let mut guard = 0;
        let mut last_reading: u64 = 0;
        loop {
            guard += 1;
            assert!(guard < 100_000, "run did not end");
            self.requests.push(req);
            let reply = match req {
                WipeRequest::Done => break,
                WipeRequest::ReadFreeSpace => {
                    last_reading =
                        if self.forced_free.is_empty() { self.free } else { self.forced_free.remove(0) };
                    WipeReply::FreeSpace(last_reading)
                }
                WipeRequest::PrepareBuffers => WipeReply::BuffersPrepared(!self.entropy_fails),
                WipeRequest::ReadControl | WipeRequest::WaitWhilePaused => {
                    let (paused, cancelled) =
                        if self.control.is_empty() { (false, false) } else { self.control.remove(0) };
                    WipeReply::Control { paused, cancelled }
                }
                WipeRequest::CreateFile { index } => {
                    self.creates.push(index);
                    if self.create_error_at == Some(index) {
                        WipeReply::FileCreated(Err("access denied".to_string()))
                    } else {
                        self.open_bytes = 0;
                        WipeReply::FileCreated(Ok(()))
                    }
                }
                WipeRequest::Write { size, .. } => {
                    self.writes.push(size);
                    // The run's own writes never take the volume below the floor.
                    assert!(size as u64 + FLOOR <= last_reading);
                    if self.write_error_at == Some(self.writes.len()) {
                        WipeReply::Written(Err("disk full".to_string()))
                    } else {
                        self.free -= size as u64;
                        self.open_bytes += size as u64;
                        WipeReply::Written(Ok(None))
                    }
                }
                WipeRequest::DiscardFile => {
                    self.discards += 1;
                    self.open_bytes = 0;
                    WipeReply::Discarded
                }
                WipeRequest::Flush => {
                    self.flushes += 1;
                    if self.flush_error_at == Some(self.flushes) {
                        WipeReply::Flushed(Err("device gone".to_string()))
                    } else {
                        self.flushed_bytes += self.open_bytes;
                        self.open_bytes = 0;
                        WipeReply::Flushed(Ok(()))
                    }
                }
            };
            let (emitted, next) = run.step(reply);
            out.extend(emitted);
            req = next;
        }
        out
    }
}

fn progress(written: u64, target: u64, speed: u64, files: u32) -> WipeProgress {
    WipeProgress {
        bytes_written_total: written,
        bytes_target: target,
        current_write_speed_bytes_per_sec: speed,
        files_created: files,
    }
}

#[test]
fn run_reaches_target_in_chunks() {
    let mut sim = Sim::new(FLOOR + 1000);
    let out = sim.run(&config(300, 90), 0);
    assert_eq!(
        out,
        vec![
            WipeEmit::State(WipeState::Running(progress(0, 900, 0, 0))),
            WipeEmit::Progress(progress(300, 900, 0, 1)),
            WipeEmit::Progress(progress(600, 900, 0, 2)),
            WipeEmit::Progress(progress(900, 900, 0, 3)),
            WipeEmit::State(WipeState::Completed { progress: progress(900, 900, 0, 3), hit_storage_limit: false }),
        ]
    );
    assert_eq!(sim.creates, vec![0, 1, 2]);
    assert_eq!(sim.writes, vec![300, 300, 300]);
    assert_eq!(sim.flushes, 3);
}

#[test]
fn writes_are_split_into_buffer_sized_blocks() {
    let chunk = 2 * WRITE_BUFFER_BYTES as u64 + 5;
    let mut sim = Sim::new(FLOOR + 10 * chunk);
    let out = sim.run(&config(chunk, 10), 0);
    assert_eq!(sim.writes, vec![WRITE_BUFFER_BYTES, WRITE_BUFFER_BYTES, 5]);
    assert_eq!(sim.creates, vec![0]);
    let last = out.last().unwrap();
    assert_eq!(
        *last,
        WipeEmit::State(WipeState::Completed { progress: progress(chunk, chunk, 0, 1), hit_storage_limit: false })
    );
}

#[test]
fn unreadable_free_space_fails_without_progress() {
    let mut sim = Sim::new(0);
    let out = sim.run(&config(300, 90), 0);
    assert_eq!(
        out,
        vec![WipeEmit::State(WipeState::Failed {
            message: "Could not read free space on the selected drive. It may have been disconnected.".to_string(),
            progress: None,
        })]
    );
    assert!(sim.creates.is_empty());
}

#[test]
fn resumed_run_never_targets_less_than_already_written() {
    // Almost nothing left to fill: the target becomes what is already on disk.
    let mut sim = Sim::new(FLOOR + 10);
    let out = sim.run(&config(300, 90), 5000);
    assert_eq!(out[0], WipeEmit::State(WipeState::Running(progress(5000, 5000, 0, 0))));
    assert_eq!(
        *out.last().unwrap(),
        WipeEmit::State(WipeState::Completed { progress: progress(5000, 5000, 0, 0), hit_storage_limit: false })
    );
    assert!(sim.creates.is_empty());
}

#[test]
fn resumed_run_counts_existing_bytes_towards_target() {
    // fillable 1000 + resumed 1000 = 2000, 90% of it is 1800.
    let mut sim = Sim::new(FLOOR + 1000);
    let out = sim.run(&config(500, 90), 1000);
    assert_eq!(out[0], WipeEmit::State(WipeState::Running(progress(1000, 1800, 0, 0))));
    assert_eq!(sim.writes, vec![500, 300]);
}

#[test]
fn floor_reached_stops_and_discards_partial_file() {
    let mut sim = Sim::new(FLOOR + 1000);
    // Initial reading, first live reading fine, then another process fills the volume.
    sim.forced_free = vec![FLOOR + 1000, FLOOR + 1000, FLOOR];
    let out = sim.run(&config(300, 90), 0);
    let stopped = progress(300, 900, 0, 2);
    assert_eq!(
        out[out.len() - 2..].to_vec(),
        vec![
            WipeEmit::State(WipeState::Completed { progress: stopped, hit_storage_limit: true }),
            WipeEmit::Progress(stopped),
        ]
    );
    assert_eq!(sim.discards, 1);
    assert_eq!(sim.writes, vec![300]);
}

#[test]
fn create_failure_is_reported() {
    let mut sim = Sim::new(FLOOR + 1000);
    sim.create_error_at = Some(1);
    let out = sim.run(&config(300, 90), 0);
    assert_eq!(
        *out.last().unwrap(),
        WipeEmit::State(WipeState::Failed {
            message: "Failed to create dummy file: access denied".to_string(),
            progress: Some(progress(300, 900, 0, 1)),
        })
    );
}

#[test]
fn write_failure_stops_like_the_floor() {
    let mut sim = Sim::new(FLOOR + 1000);
    sim.write_error_at = Some(2);
    let out = sim.run(&config(300, 90), 0);
    let p = progress(300, 900, 0, 2);
    assert_eq!(
        out[out.len() - 2..].to_vec(),
        vec![WipeEmit::State(WipeState::Completed { progress: p, hit_storage_limit: true }), WipeEmit::Progress(p)]
    );
    assert_eq!(sim.discards, 1);
    assert_eq!(sim.flushes, 1);
}

#[test]
fn writes_never_cross_the_floor() {
    // Little room left above the floor: each block is cut to the headroom.
    let chunk = 3 * WRITE_BUFFER_BYTES as u64;
    let mut sim = Sim::new(FLOOR + 10 * chunk);
    sim.forced_free = vec![FLOOR + 10 * chunk, FLOOR + 1, FLOOR + 7, FLOOR];
    let out = sim.run(&config(chunk, 50), 0);
    assert_eq!(sim.writes, vec![1, 7]);
    assert_eq!(sim.discards, 1);
    let p = progress(0, 5 * chunk, 0, 1);
    assert_eq!(
        out[out.len() - 2..].to_vec(),
        vec![WipeEmit::State(WipeState::Completed { progress: p, hit_storage_limit: true }), WipeEmit::Progress(p)]
    );
}

#[test]
fn unseedable_generator_fails_the_run() {
    let mut sim = Sim::new(FLOOR + 1000);
    sim.entropy_fails = true;
    let out = sim.run(&config(300, 90), 0);
    let start = progress(0, 900, 0, 0);
    assert_eq!(
        out,
        vec![
            WipeEmit::State(WipeState::Running(start)),
            WipeEmit::State(WipeState::Failed {
                message: "Could not seed the pseudo-random generator from the operating system's entropy source."
                    .to_string(),
                progress: Some(start),
            }),
        ]
    );
    assert!(sim.creates.is_empty());
}

#[test]
fn flush_failure_does_not_count_unconfirmed_chunk() {
    let mut sim = Sim::new(FLOOR + 1000);
    sim.flush_error_at = Some(1);
    let out = sim.run(&config(300, 90), 0);
    let p = progress(0, 900, 0, 1);
    assert_eq!(
        out,
        vec![
            WipeEmit::State(WipeState::Running(progress(0, 900, 0, 0))),
            WipeEmit::Progress(progress(300, 900, 0, 1)),
            WipeEmit::State(WipeState::Failed {
                message: "Failed to flush data to disk: device gone".to_string(),
                progress: Some(p),
            }),
            WipeEmit::Progress(p),
        ]
    );
}

#[test]
fn pause_is_published_once_and_resume_once() {
    let mut sim = Sim::new(FLOOR + 1000);
    // Outer check: paused; two wake-ups still paused; then resumed.
    sim.control = vec![(true, false), (true, false), (true, false), (false, false)];
    let out = sim.run(&config(300, 90), 0);
    let start = progress(0, 900, 0, 0);
    assert_eq!(
        out[..3].to_vec(),
        vec![
            WipeEmit::State(WipeState::Running(start)),
            WipeEmit::State(WipeState::Paused(start)),
            WipeEmit::State(WipeState::Running(start)),
        ]
    );
    let paused = out.iter().filter(|e| matches!(e, WipeEmit::State(WipeState::Paused(_)))).count();
    assert_eq!(paused, 1);
    assert_eq!(
        *out.last().unwrap(),
        WipeEmit::State(WipeState::Completed { progress: progress(900, 900, 0, 3), hit_storage_limit: false })
    );
}

#[test]
fn cancel_while_paused_ends_as_cancelled() {
    let mut sim = Sim::new(FLOOR + 1000);
    sim.control = vec![(true, false), (true, true)];
    let out = sim.run(&config(300, 90), 0);
    let start = progress(0, 900, 0, 0);
    assert_eq!(
        out,
        vec![
            WipeEmit::State(WipeState::Running(start)),
            WipeEmit::State(WipeState::Paused(start)),
            WipeEmit::State(WipeState::Cancelled(start)),
        ]
    );
    assert!(sim.creates.is_empty());
}

#[test]
fn cancel_mid_chunk_keeps_written_part() {
    let chunk = 3 * WRITE_BUFFER_BYTES as u64;
    let mut sim = Sim::new(FLOOR + 10 * chunk);
    // Outer check, first inner check, then cancellation at the second inner check.
    sim.control = vec![(false, false), (false, false), (false, true)];
    let out = sim.run(&config(chunk, 50), 0);
    let b = WRITE_BUFFER_BYTES as u64;
    let target = 5 * chunk;
    assert_eq!(sim.writes, vec![WRITE_BUFFER_BYTES]);
    assert_eq!(sim.flushes, 1);
    assert_eq!(*out.last().unwrap(), WipeEmit::State(WipeState::Cancelled(progress(b, target, 0, 1))));
    // No file is created or written after the cancellation was seen.
    let after: Vec<&WipeRequest> = sim.requests.iter().skip_while(|r| **r != WipeRequest::Flush).collect();
    assert!(after.iter().all(|r| !matches!(r, WipeRequest::Write { .. } | WipeRequest::CreateFile { .. })));
}

#[test]
fn speed_samples_update_progress() {
    let (mut run, req) = WipeRun::start(&config(300, 90), 0);
    assert_eq!(req, WipeRequest::ReadFreeSpace);
    let (out, req) = run.step(WipeReply::FreeSpace(FLOOR + 1000));
    assert_eq!(out, vec![WipeEmit::State(WipeState::Running(progress(0, 900, 0, 0)))]);
    assert_eq!(req, WipeRequest::PrepareBuffers);
    let (out, req) = run.step(WipeReply::BuffersPrepared(true));
    assert!(out.is_empty());
    assert_eq!(req, WipeRequest::ReadControl);
    let (_, req) = run.step(WipeReply::Control { paused: false, cancelled: false });
    assert_eq!(req, WipeRequest::CreateFile { index: 0 });
    let (_, req) = run.step(WipeReply::FileCreated(Ok(())));
    assert_eq!(req, WipeRequest::ReadControl);
    let (_, req) = run.step(WipeReply::Control { paused: false, cancelled: false });
    assert_eq!(req, WipeRequest::ReadFreeSpace);
    let (_, req) = run.step(WipeReply::FreeSpace(FLOOR + 1000));
    assert_eq!(req, WipeRequest::Write { size: 300, speed_window_bytes: 300 });
    let (out, _) = run.step(WipeReply::Written(Ok(Some(1234))));
    assert_eq!(out, vec![WipeEmit::Progress(progress(300, 900, 1234, 1))]);
}

#[test]
fn mismatched_reply_changes_nothing() {
    let (mut run, _) = WipeRun::start(&config(300, 90), 0);
    let (out, req) = run.step(WipeReply::Discarded);
    assert!(out.is_empty());
    assert_eq!(req, WipeRequest::ReadFreeSpace);
    assert_eq!(run.pending_request(), WipeRequest::ReadFreeSpace);
}

#[test]
fn finished_run_stays_finished() {
    let (mut run, _) = WipeRun::start(&config(300, 90), 0);
    let (_, req) = run.step(WipeReply::FreeSpace(0));
    assert_eq!(req, WipeRequest::Done);
    let (out, req) = run.step(WipeReply::FreeSpace(FLOOR + 1000));
    assert!(out.is_empty());
    assert_eq!(req, WipeRequest::Done);
}

#[test]
fn zero_chunk_size_completes_without_writing() {
    let mut sim = Sim::new(FLOOR + 1000);
    let out = sim.run(&config(0, 90), 0);
    assert_eq!(
        *out.last().unwrap(),
        WipeEmit::State(WipeState::Completed { progress: progress(0, 900, 0, 0), hit_storage_limit: false })
    );
    assert!(sim.creates.is_empty());
}

#[test]
fn eta_divides_remaining_bytes_by_speed() {
    assert_eq!(progress(100, 1100, 0, 1).estimated_seconds_remaining(), None);
    assert_eq!(progress(100, 1100, 100, 1).estimated_seconds_remaining(), Some(10));
    assert_eq!(progress(100, 1150, 100, 1).estimated_seconds_remaining(), Some(10));
    assert_eq!(progress(2000, 1000, 7, 1).estimated_seconds_remaining(), Some(0));
}

#[test]
fn floor_is_sixty_four_mebibytes() {
    assert_eq!(MIN_FREE_SPACE_FLOOR_BYTES, 64 * 1024 * 1024);
    assert_eq!(WRITE_BUFFER_BYTES, 4 * 1024 * 1024);
}

#[test]
fn speed_window_is_half_a_second() {
    assert!(!speed_window_complete(0));
    assert!(!speed_window_complete(499));
    assert!(speed_window_complete(500));
    assert!(speed_window_complete(10_000));
}

fn float_percent(written: u64, target: u64) -> u8 {
    if target == 0 {
        return 0;
    }
    let pct = (written as f64 / target as f64) * 100.0;
    pct.clamp(0.0, 100.0) as u8
}

#[test]
fn percent_matches_double_precision_arithmetic() {
    let mut pairs: Vec<(u64, u64)> = Vec::new();
    for t in 1..=300u64 {
        for w in 0..=t + 2 {
            pairs.push((w, t));
        }
    }
    let mut x: u64 = 0x9E37_79B9_7F4A_7C15;
    for _ in 0..50000 {
        x ^= x << 13;
        x ^= x >> 7;
        x ^= x << 17;
        let t = (x >> (x % 64)).max(1);
        let y = x.rotate_left(29);
        let w = if y % 3 == 0 { y >> (y % 64) } else { ((t as u128 * (y % 1001) as u128) / 1000) as u64 };
        pairs.push((w, t));
    }
    pairs.extend([(u64::MAX, u64::MAX), (u64::MAX - 1, u64::MAX), (1, u64::MAX), ((1 << 53) + 1, (1 << 53) + 3)]);
    for (w, t) in pairs {
        assert_eq!(progress(w, t, 0, 0).percent_complete(), float_percent(w, t), "written {w} of {t}");
    }
}

#[test]
fn percent_examples() {
    assert_eq!(progress(0, 0, 0, 0).percent_complete(), 0);
    assert_eq!(progress(5, 0, 0, 0).percent_complete(), 0);
    assert_eq!(progress(50, 100, 0, 0).percent_complete(), 50);
    // 29 / 100 in doubles is just below 0.29, so the shown value is 28.
    assert_eq!(progress(29, 100, 0, 0).percent_complete(), 28);
    assert_eq!(progress(100, 100, 0, 0).percent_complete(), 100);
    assert_eq!(progress(300, 100, 0, 0).percent_complete(), 100);
}

fn float_scaled(x: u64, percent: u8) -> u64 {
    ((x as f64) * (percent as f64 / 100.0)) as u64
}

#[test]
fn target_scaling_matches_double_precision_arithmetic() {
    let mut xs: Vec<u64> = (0..2000).collect();
    for shift in 0..64 {
        let p = 1u64 << shift;
        xs.extend([p - 1, p, p + 1, p / 10 * 9]);
    }
    xs.extend([u64::MAX, u64::MAX - 1, 1000, 999_999_999_999]);
    let mut x: u64 = 0x1234_5678_9ABC_DEF1;
    for _ in 0..3000 {
        x ^= x << 13;
        x ^= x >> 7;
        x ^= x << 17;
        xs.push(x >> (x % 64));
    }
    for &v in &xs {
        for percent in 0..=255u8 {
            assert_eq!(scale_by_percent(v, percent), float_scaled(v, percent), "{v} at {percent}%");
        }
    }
}

#[test]
fn initial_target_examples() {
    // 90% of the 1000 bytes above the floor.
    assert_eq!(compute_initial_target(FLOOR + 1000, 0, 90), 900);
    // Below the floor nothing is fillable; what is on disk stays the target.
    assert_eq!(compute_initial_target(FLOOR - 5, 700, 90), 700);
    // Resumed bytes count towards the base the percentage applies to.
    assert_eq!(compute_initial_target(FLOOR + 1000, 1000, 90), 1800);
    assert_eq!(compute_initial_target(FLOOR + 1000, 0, 0), 0);
}

#[test]
fn target_leaves_floor_within_fill_range() {
    let cases: [(u64, u64); 5] = [
        (FLOOR + 1, 0),
        (FLOOR + 1_000_000_007, 123_456_789),
        (FLOOR + (1u64 << 53) + 3, 0),
        (u64::MAX, 0),
        (u64::MAX, u64::MAX - 5),
    ];
    for (free, resume) in cases {
        for percent in [1u8, 50, 90, 95] {
            let target = compute_initial_target(free, resume, percent);
            assert!(target >= resume);
            assert!(target - resume <= free - FLOOR, "free {free} resume {resume} percent {percent}");
            let exact = (((free - FLOOR).wrapping_add(resume)) as f64 * (percent as f64 / 100.0)) as u64;
            assert_eq!(target, exact.max(resume));
        }
    }
    // Above the documented range the double-precision rounding can overshoot.
    assert_eq!(compute_initial_target(FLOOR + (1u64 << 53) + 3, 0, 100), (1u64 << 53) + 4);
}

fn check_run_order(out: &[WipeEmit], resume: u64) {
    let is_terminal = |e: &WipeEmit| {
        matches!(
            e,
            WipeEmit::State(WipeState::Completed { .. })
                | WipeEmit::State(WipeState::Cancelled(_))
                | WipeEmit::State(WipeState::Failed { .. })
        )
    };
    assert!(out.iter().all(|e| *e != WipeEmit::State(WipeState::Idle)));
    let terminals: Vec<usize> = (0..out.len()).filter(|&i| is_terminal(&out[i])).collect();
    assert_eq!(terminals.len(), 1);
    let last = terminals[0];
    assert!(out.len() - last <= 2);
    if out.len() - last == 2 {
        assert!(matches!(out[last + 1], WipeEmit::Progress(_)));
    }
    if let WipeEmit::State(WipeState::Running(p)) = &out[0] {
        assert_eq!(p.bytes_written_total, resume);
        // One target for every snapshot, and each lies within it.
        for e in out {
            let snapshot = match e {
                WipeEmit::Progress(p)
                | WipeEmit::State(WipeState::Running(p))
                | WipeEmit::State(WipeState::Paused(p))
                | WipeEmit::State(WipeState::Cancelled(p))
                | WipeEmit::State(WipeState::Completed { progress: p, .. }) => Some(*p),
                WipeEmit::State(WipeState::Failed { progress, .. }) => *progress,
                WipeEmit::State(WipeState::Idle) => None,
            };
            if let Some(q) = snapshot {
                assert_eq!(q.bytes_target, p.bytes_target);
                assert!(resume <= q.bytes_written_total && q.bytes_written_total <= q.bytes_target);
            }
        }
    } else {
        assert_eq!(out.len(), 1);
    }
}

#[test]
fn whole_runs_publish_in_order_and_number_files() {
    let mut cases: Vec<Sim> = Vec::new();
    cases.push(Sim::new(FLOOR + 1000));
    cases.push(Sim::new(0));
    let mut s = Sim::new(FLOOR + 1000);
    s.write_error_at = Some(2);
    cases.push(s);
    let mut s = Sim::new(FLOOR + 1000);
    s.flush_error_at = Some(2);
    cases.push(s);
    let mut s = Sim::new(FLOOR + 1000);
    s.create_error_at = Some(1);
    cases.push(s);
    let mut s = Sim::new(FLOOR + 1000);
    s.control = vec![(false, false), (true, false), (false, false), (false, true)];
    cases.push(s);
    let mut s = Sim::new(FLOOR + 1000);
    s.entropy_fails = true;
    cases.push(s);
    for (n, mut sim) in cases.into_iter().enumerate() {
        let resume = if n % 2 == 0 { 0 } else { 100 };
        let out = sim.run(&config(200, 90), resume);
        check_run_order(&out, resume);
        // The terminal state counts exactly the resumed and the flushed bytes.
        let terminal = out.iter().find_map(|e| match e {
            WipeEmit::State(WipeState::Completed { progress, .. }) | WipeEmit::State(WipeState::Cancelled(progress)) => {
                Some(*progress)
            }
            WipeEmit::State(WipeState::Failed { progress, .. }) => *progress,
            _ => None,
        });
        if let Some(p) = terminal {
            assert_eq!(p.bytes_written_total, resume + sim.flushed_bytes);
        }
        let expected: Vec<u32> = (0..sim.creates.len() as u32).collect();
        assert_eq!(sim.creates, expected);
    }
}

#[test]
fn percent_grows_and_stays_near_the_exact_share() {
    for t in [1u64, 3, 7, 100, 1000, 12345, (1 << 53) + 3, u64::MAX / 3] {
        let mut previous = 0u8;
        let steps = 200u64;
        for k in 0..=steps {
            let w = ((t as u128 * k as u128) / steps as u128) as u64;
            let shown = progress(w, t, 0, 0).percent_complete();
            assert!(shown >= previous, "{w} of {t}");
            previous = shown;
            let exact = (100u128 * w as u128 / t as u128) as i64;
            assert!((shown as i64 - exact).abs() <= 1, "{w} of {t}: {shown} vs {exact}");
        }
        assert_eq!(progress(t, t, 0, 0).percent_complete(), 100);
        assert_eq!(progress(0, t, 0, 0).percent_complete(), 0);
    }
}
