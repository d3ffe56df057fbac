//! The overwrite loop as a state machine.
//!
//! A run alternates decisions with outside work: reading the volume's free
//! space, creating, writing, flushing and discarding dummy files, reading
//! the pause/cancel flags and blocking while paused. `WipeRun` holds every
//! decision; whoever drives it performs the work it requests and hands the
//! outcome back through `step`, which answers with the states and progress
//! snapshots to publish and the next piece of work.

use crate::engine::config::WipeConfig;
use crate::util::fixed::{
    f64_percent, f64_scaled, f64_value, f64_value_of, lemma_f64_scaled_at_most, lemma_f64_percent_mono,
    lemma_f64_percent_near,
    lemma_f64_value_mono, percent_of, scale_by_percent,
};
pub use crate::engine::control::WipeControl;
use vstd::prelude::*;

verus! {

/// Never let a run drive the volume below this many bytes free, whatever
/// the configured fill percentage implies.
pub const MIN_FREE_SPACE_FLOOR_BYTES: u64 = 64 * 1024 * 1024;

/// Size of each write issued while filling a dummy file.
pub const WRITE_BUFFER_BYTES: usize = 4 * 1024 * 1024;

/// Length of a write-speed measurement window, in milliseconds: the speed
/// reading is refreshed twice a second.
pub const SPEED_WINDOW_MILLIS: u128 = 500;

/// Whether a speed window that has been open for `elapsed_millis` is
/// complete, so that a new speed reading is taken and the window restarts.
pub fn speed_window_complete(elapsed_millis: u128) -> (b: bool)
    ensures
        b == (elapsed_millis >= SPEED_WINDOW_MILLIS),
{
    elapsed_millis >= SPEED_WINDOW_MILLIS
}

#[derive(Debug, Clone, Copy, PartialEq, Eq, Structural)]
pub struct WipeProgress {
    pub bytes_written_total: u64,
    pub bytes_target: u64,
    pub current_write_speed_bytes_per_sec: u64,
    pub files_created: u32,
}

/// Whole seconds needed to write what is left at `speed` bytes per second.
pub open spec fn eta_seconds(p: WipeProgress) -> Option<u64> {
    if p.current_write_speed_bytes_per_sec == 0 {
        None
    } else {
        let remaining: int = if p.bytes_target > p.bytes_written_total {
            p.bytes_target - p.bytes_written_total
        } else {
            0
        };
        Some((remaining / (p.current_write_speed_bytes_per_sec as int)) as u64)
    }
}

/// The percentage shown for a progress snapshot: 0 without a target,
/// otherwise `trunc(clamp(written / target * 100, 0, 100))` computed in
/// double precision.
pub open spec fn percent_shown(p: WipeProgress) -> nat {
    if p.bytes_target == 0 {
        0
    } else {
        f64_percent(f64_value(p.bytes_written_total as nat), f64_value(p.bytes_target as nat))
    }
}

/// Bytes still to write towards the target (none once it is reached).
pub open spec fn remaining_bytes(p: WipeProgress) -> int {
    if p.bytes_written_total < p.bytes_target {
        p.bytes_target - p.bytes_written_total
    } else {
        0
    }
}

/// The estimate is the whole number of seconds the remaining bytes take at
/// the current speed: `secs` seconds cover at most the remaining bytes and
/// one more second covers more than them. Without a measured speed there
/// is no estimate.
pub proof fn lemma_eta_brackets_remaining(p: WipeProgress)
    ensures
        (eta_seconds(p) is None) == (p.current_write_speed_bytes_per_sec == 0),
        eta_seconds(p) matches Some(secs) ==> secs * p.current_write_speed_bytes_per_sec <= remaining_bytes(p)
            < (secs + 1) * p.current_write_speed_bytes_per_sec,
{
    if p.current_write_speed_bytes_per_sec > 0 {
        let v = p.current_write_speed_bytes_per_sec as int;
        let rem = remaining_bytes(p);
        let secs = rem / v;
        vstd::arithmetic::div_mod::lemma_fundamental_div_mod(rem, v);
        assert(secs * v <= rem < (secs + 1) * v) by (nonlinear_arith)
            requires
                rem == v * secs + rem % v,
                0 <= rem % v < v,
        ;
        assert(secs <= rem) by (nonlinear_arith)
            requires
                secs * v <= rem,
                v >= 1,
                rem >= 0,
                secs >= 0,
        ;
    }
}

/// The shown percentage is 0 before anything is written and 100 once the
/// written bytes reach the target.
pub proof fn lemma_percent_ends(p: WipeProgress)
    ensures
        p.bytes_written_total == 0 ==> percent_shown(p) == 0,
        0 < p.bytes_target <= p.bytes_written_total ==> percent_shown(p) == 100,
{
    if 0 < p.bytes_target <= p.bytes_written_total {
        lemma_f64_value_mono(1, p.bytes_target as nat);
        lemma_f64_value_mono(p.bytes_target as nat, p.bytes_written_total as nat);
        assert(f64_value(1) == 1) by {
            reveal_with_fuel(crate::util::fixed::bit_len, 3);
        }
    }
}

/// The shown percentage never goes down as more bytes are written towards
/// the same target.
pub proof fn lemma_percent_grows(p: WipeProgress, q: WipeProgress)
    requires
        p.bytes_target == q.bytes_target,
        p.bytes_written_total <= q.bytes_written_total,
    ensures
        percent_shown(p) <= percent_shown(q),
{
    if p.bytes_target > 0 {
        lemma_f64_value_mono(p.bytes_written_total as nat, q.bytes_written_total as nat);
        lemma_f64_value_mono(1, p.bytes_target as nat);
        assert(f64_value(1) == 1) by {
            reveal_with_fuel(crate::util::fixed::bit_len, 3);
        }
        lemma_f64_percent_mono(
            f64_value(p.bytes_written_total as nat),
            f64_value(q.bytes_written_total as nat),
            f64_value(p.bytes_target as nat),
        );
    }
}

/// While the written bytes do not exceed the target, the shown percentage
/// is within 1 of the exact integer percentage `100 * written / target`.
pub proof fn lemma_percent_near_exact(p: WipeProgress)
    requires
        0 < p.bytes_target,
        p.bytes_written_total <= p.bytes_target,
    ensures
        percent_shown(p) <= 100 * (p.bytes_written_total as nat) / (p.bytes_target as nat) + 1,
        100 * (p.bytes_written_total as nat) / (p.bytes_target as nat) <= percent_shown(p) + 1,
{
    let w = p.bytes_written_total as nat;
    let t = p.bytes_target as nat;
    lemma_percent_ends(p);
    if w == t {
        assert(100 * w / t == 100) by (nonlinear_arith)
            requires
                w == t,
                t > 0,
        ;
    } else if w > 0 {
        lemma_f64_percent_near(w, t);
    }
}

impl WipeProgress {
    /// Share of the byte target written so far, in whole percent (0..=100).
    pub fn percent_complete(&self) -> (r: u8)
        ensures
            r == percent_shown(*self),
            r <= 100,
    {
        if self.bytes_target == 0 {
            return 0;
        }
        let written = f64_value_of(self.bytes_written_total);
        let target = f64_value_of(self.bytes_target);
        percent_of(written, target)
    }

    /// Seconds until the target is reached at the current speed; `None`
    /// while no speed has been measured yet.
    pub fn estimated_seconds_remaining(&self) -> (r: Option<u64>)
        ensures
            r == eta_seconds(*self),
            (r is None) == (self.current_write_speed_bytes_per_sec == 0),
            r matches Some(secs) ==> secs * self.current_write_speed_bytes_per_sec <= remaining_bytes(*self)
                < (secs + 1) * self.current_write_speed_bytes_per_sec,
    {
        proof {
            lemma_eta_brackets_remaining(*self);
        }
        if self.current_write_speed_bytes_per_sec == 0 {
            return None;
        }
        let remaining = self.bytes_target.saturating_sub(self.bytes_written_total);
        Some(remaining / self.current_write_speed_bytes_per_sec)
    }
}

#[derive(Debug, Clone, PartialEq)]
pub enum WipeState {
    Idle,
    Running(WipeProgress),
    Paused(WipeProgress),
    /// `hit_storage_limit` is false when the target was reached, true when
    /// writing stopped early because the volume had less room than planned:
    /// live free space fell to the safety floor, or a write failed (most
    /// often because the disk was full).
    Completed { progress: WipeProgress, hit_storage_limit: bool },
    Cancelled(WipeProgress),
    Failed { message: String, progress: Option<WipeProgress> },
}

/// Outside work a run asks for next.
#[derive(Debug, Clone, Copy, PartialEq, Eq, Structural)]
pub enum WipeRequest {
    /// Read the free bytes available on the target volume.
    ReadFreeSpace,
    /// Set up the write buffers, seeding the pseudo-random generator from
    /// the operating system's entropy source.
    PrepareBuffers,
    /// Read the pause and cancel flags.
    ReadControl,
    /// If the run is still paused and not cancelled, wait for one wake-up
    /// from a resume or cancel; then read the pause and cancel flags.
    WaitWhilePaused,
    /// Create the dummy file with this sequence number.
    CreateFile { index: u32 },
    /// Append `size` bytes of the configured pattern to the open dummy
    /// file; `size` never exceeds the last free-space reading minus the
    /// floor. `speed_window_bytes` is the number of bytes written since the
    /// last speed sample, this write included.
    Write { size: usize, speed_window_bytes: u64 },
    /// Close and delete the open dummy file.
    DiscardFile,
    /// Flush and close the open dummy file.
    Flush,
    /// The run is over; nothing more to do.
    Done,
}

/// Outcome of the requested work.
#[derive(Debug)]
pub enum WipeReply {
    FreeSpace(u64),
    /// `false` when the entropy source could not seed the generator.
    BuffersPrepared(bool),
    Control { paused: bool, cancelled: bool },
    FileCreated(Result<(), String>),
    /// `Ok(Some(speed))` closes the current speed window with a new reading.
    Written(Result<Option<u64>, String>),
    Discarded,
    Flushed(Result<(), String>),
}

/// Something a run publishes.
#[derive(Debug, Clone, PartialEq)]
pub enum WipeEmit {
    State(WipeState),
    Progress(WipeProgress),
}

/// Where a run stands: each variant waits for the reply to one request.
#[derive(Debug)]
pub enum Phase {
    /// First free-space reading, from which the byte target is derived.
    AwaitInitialFree,
    /// Setting up the write buffers.
    AwaitBuffers,
    /// Flags at the head of the file loop: another dummy file, or finish.
    OuterControl,
    /// Paused between dummy files.
    OuterWait,
    /// Creating the next dummy file.
    AwaitCreate,
    /// Flags at the head of the write loop: another block, or close the file.
    InnerControl,
    /// Paused while a dummy file is open.
    InnerWait,
    /// Live free-space reading before each block.
    AwaitLiveFree,
    /// Writing one block of `size` bytes.
    AwaitWrite { size: usize },
    /// The open file is being discarded because the volume ran out of
    /// room: `write_failed` when a write failed, otherwise a reading
    /// reached the floor.
    AwaitDiscard { write_failed: bool },
    /// Flushing the completed (or cancelled) dummy file.
    AwaitFlush,
    /// Flags once more, deciding between `Completed` and `Cancelled`.
    FinishControl,
    /// The run is over.
    Done,
}

/// One overwrite job in progress. Built by `start`, advanced by `step`;
/// `inv` holds throughout.
pub struct WipeRun {
    pub chunk_size: u64,
    pub fill_percent: u8,
    pub resume_from: u64,
    /// Bytes in dummy files that are complete (or were there on resume).
    pub total: u64,
    pub target: u64,
    /// Size the dummy file currently being written will reach.
    pub chunk_target: u64,
    pub chunk_written: u64,
    pub speed_window_bytes: u64,
    pub current_speed: u64,
    pub files: u32,
    /// Last progress snapshot, as published.
    pub progress: WipeProgress,
    pub last_emitted_paused: bool,
    pub cancel_seen: bool,
    /// Most recent free-space reading.
    pub last_free: u64,
    pub phase: Phase,
}

pub open spec fn free_space_unreadable_message() -> Seq<char> {
    "Could not read free space on the selected drive. It may have been disconnected."@
}

pub open spec fn create_failed_prefix() -> Seq<char> {
    "Failed to create dummy file: "@
}

pub open spec fn entropy_unavailable_message() -> Seq<char> {
    "Could not seed the pseudo-random generator from the operating system's entropy source."@
}

pub open spec fn flush_failed_prefix() -> Seq<char> {
    "Failed to flush data to disk: "@
}

pub open spec fn min_u64(a: u64, b: u64) -> u64 {
    if a < b { a } else { b }
}

/// Bytes the next write adds to the open file after a reading of `live`
/// free bytes: what the file still lacks, at most one buffer, and never
/// more than the free space above the floor.
pub open spec fn next_write_size(s: WipeRun, live: u64) -> usize {
    min_u64(
        min_u64((s.chunk_target - s.chunk_written) as u64, WRITE_BUFFER_BYTES as u64),
        (live - MIN_FREE_SPACE_FLOOR_BYTES) as u64,
    ) as usize
}

/// Byte target of a run that starts with `free` bytes free and
/// `resume_from` bytes already in dummy files: `fill_percent` percent of
/// the fillable space (free space above the floor, plus what is already
/// written), computed in double precision, and never less than what is
/// already written. The sum wraps around like unchecked `u64` addition.
pub open spec fn initial_target(free: u64, resume_from: u64, fill_percent: u8) -> u64 {
    let fillable: u64 = if free > MIN_FREE_SPACE_FLOOR_BYTES {
        (free - MIN_FREE_SPACE_FLOOR_BYTES) as u64
    } else {
        0
    };
    let scaled = f64_scaled(fillable.wrapping_add(resume_from), fill_percent);
    if scaled > resume_from { scaled } else { resume_from }
}

/// Within the documented fill range (up to `WipeConfig::MAX_FILL_PERCENT`),
/// the byte target never plans more new bytes than the free space above
/// the floor at the start of the run: the floor is kept by the plan itself,
/// before any live reading.
pub proof fn lemma_target_leaves_floor(free: u64, resume_from: u64, fill_percent: u8)
    requires
        fill_percent <= WipeConfig::MAX_FILL_PERCENT,
    ensures
        resume_from <= initial_target(free, resume_from, fill_percent),
        initial_target(free, resume_from, fill_percent) - resume_from <= if free
            > MIN_FREE_SPACE_FLOOR_BYTES {
            free - MIN_FREE_SPACE_FLOOR_BYTES
        } else {
            0
        },
{
    let fillable: u64 = if free > MIN_FREE_SPACE_FLOOR_BYTES {
        (free - MIN_FREE_SPACE_FLOOR_BYTES) as u64
    } else {
        0
    };
    lemma_f64_scaled_at_most(fillable.wrapping_add(resume_from), fill_percent);
}

/// The byte target of a run; see `initial_target`.
pub fn compute_initial_target(free: u64, resume_from: u64, fill_percent: u8) -> (r: u64)
    ensures
        r == initial_target(free, resume_from, fill_percent),
        r >= resume_from,
{
    let fillable = free.saturating_sub(MIN_FREE_SPACE_FLOOR_BYTES);
    let scaled = scale_by_percent(fillable.wrapping_add(resume_from), fill_percent);
    if scaled > resume_from { scaled } else { resume_from }
}

/// The request that a run in state `s` is waiting on.
pub open spec fn request_of(s: WipeRun) -> WipeRequest {
    match s.phase {
        Phase::AwaitInitialFree => WipeRequest::ReadFreeSpace,
        Phase::AwaitBuffers => WipeRequest::PrepareBuffers,
        Phase::OuterControl => WipeRequest::ReadControl,
        Phase::OuterWait => WipeRequest::WaitWhilePaused,
        Phase::AwaitCreate => WipeRequest::CreateFile { index: s.files },
        Phase::InnerControl => WipeRequest::ReadControl,
        Phase::InnerWait => WipeRequest::WaitWhilePaused,
        Phase::AwaitLiveFree => WipeRequest::ReadFreeSpace,
        Phase::AwaitWrite { size } => WipeRequest::Write {
            size,
            speed_window_bytes: (s.speed_window_bytes + size) as u64,
        },
        Phase::AwaitDiscard { .. } => WipeRequest::DiscardFile,
        Phase::AwaitFlush => WipeRequest::Flush,
        Phase::FinishControl => WipeRequest::ReadControl,
        Phase::Done => WipeRequest::Done,
    }
}

/// Whether `reply` answers the request that `s` is waiting on.
pub open spec fn reply_fits(s: WipeRun, reply: WipeReply) -> bool {
    match s.phase {
        Phase::AwaitInitialFree => reply is FreeSpace,
        Phase::AwaitBuffers => reply is BuffersPrepared,
        Phase::OuterControl => reply is Control,
        Phase::OuterWait => reply is Control,
        Phase::AwaitCreate => reply is FileCreated,
        Phase::InnerControl => reply is Control,
        Phase::InnerWait => reply is Control,
        Phase::AwaitLiveFree => reply is FreeSpace,
        Phase::AwaitWrite { .. } => reply is Written,
        Phase::AwaitDiscard { .. } => reply is Discarded,
        Phase::AwaitFlush => reply is Flushed,
        Phase::FinishControl => reply is Control,
        Phase::Done => false,
    }
}

pub open spec fn in_chunk(phase: Phase) -> bool {
    match phase {
        Phase::AwaitCreate | Phase::InnerControl | Phase::InnerWait | Phase::AwaitLiveFree
        | Phase::AwaitWrite { .. } | Phase::AwaitDiscard { .. } | Phase::AwaitFlush => true,
        _ => false,
    }
}

pub open spec fn target_known(phase: Phase) -> bool {
    match phase {
        Phase::AwaitInitialFree | Phase::Done => false,
        _ => true,
    }
}

/// What remains to write towards the target, capped at one dummy file.
pub open spec fn chunk_for(s: WipeRun) -> u64 {
    min_u64((s.target - s.total) as u64, s.chunk_size)
}

/// Opening a new dummy file from an outer-loop state `s`, after `before`
/// has been published: a zero-sized chunk ends the loop.
pub open spec fn begin_chunk_spec(s: WipeRun, post: WipeRun, out: Seq<WipeEmit>, before: Seq<
    WipeEmit,
>) -> bool {
    let ct = chunk_for(s);
    &&& out =~= before
    &&& if ct == 0 {
        post == WipeRun { chunk_target: ct, chunk_written: 0, speed_window_bytes: 0, phase: Phase::FinishControl, ..s }
    } else {
        post == WipeRun { chunk_target: ct, chunk_written: 0, speed_window_bytes: 0, phase: Phase::AwaitCreate, ..s }
    }
}

/// `out` publishes exactly one `Failed` state with `msg` and `progress`.
pub open spec fn failed_with(out: Seq<WipeEmit>, msg: Seq<char>, progress: Option<WipeProgress>) -> bool {
    &&& out.len() >= 1
    &&& out[0] matches WipeEmit::State(WipeState::Failed { message, progress: p }) && message@ == msg
        && p == progress
}

/// Entering a pause: `Paused` is published only if it was not already.
pub open spec fn pause_out(pre: WipeRun) -> Seq<WipeEmit> {
    if pre.last_emitted_paused {
        seq![]
    } else {
        seq![WipeEmit::State(WipeState::Paused(pre.progress))]
    }
}

/// One transition of a run: from `pre`, on `reply`, to `post`, publishing
/// `out` in order.
pub open spec fn step_spec(pre: WipeRun, reply: WipeReply, post: WipeRun, out: Seq<WipeEmit>) -> bool {
    if !reply_fits(pre, reply) {
        post == pre && out =~= seq![]
    } else {
        match (pre.phase, reply) {
            (Phase::AwaitInitialFree, WipeReply::FreeSpace(f)) => {
                if f == 0 {
                    &&& post == WipeRun { last_free: f, phase: Phase::Done, ..pre }
                    &&& out.len() == 1
                    &&& failed_with(out, free_space_unreadable_message(), None)
                } else {
                    let target = initial_target(f, pre.resume_from, pre.fill_percent);
                    let p = WipeProgress {
                        bytes_written_total: pre.total,
                        bytes_target: target,
                        current_write_speed_bytes_per_sec: 0,
                        files_created: 0,
                    };
                    &&& post == WipeRun { last_free: f, target, progress: p, phase: Phase::AwaitBuffers, ..pre }
                    &&& out =~= seq![WipeEmit::State(WipeState::Running(p))]
                }
            },
            (Phase::AwaitBuffers, WipeReply::BuffersPrepared(ready)) => {
                if ready {
                    post == WipeRun { phase: Phase::OuterControl, ..pre } && out =~= seq![]
                } else {
                    &&& post == WipeRun { phase: Phase::Done, ..pre }
                    &&& out.len() == 1
                    &&& failed_with(out, entropy_unavailable_message(), Some(pre.progress))
                }
            },
            (Phase::OuterControl, WipeReply::Control { paused, cancelled }) => {
                let c = pre.cancel_seen || cancelled;
                if !(pre.total < pre.target) || c {
                    post == WipeRun { cancel_seen: c, phase: Phase::FinishControl, ..pre } && out =~= seq![]
                } else if paused {
                    &&& post == WipeRun { cancel_seen: c, last_emitted_paused: true, phase: Phase::OuterWait, ..pre }
                    &&& out =~= pause_out(pre)
                } else {
                    begin_chunk_spec(WipeRun { cancel_seen: c, ..pre }, post, out, seq![])
                }
            },
            (Phase::OuterWait, WipeReply::Control { paused, cancelled }) => {
                let c = pre.cancel_seen || cancelled;
                if c {
                    post == WipeRun { cancel_seen: c, phase: Phase::FinishControl, ..pre } && out =~= seq![]
                } else if paused {
                    post == pre && out =~= seq![]
                } else {
                    begin_chunk_spec(
                        WipeRun { last_emitted_paused: false, ..pre },
                        post,
                        out,
                        seq![WipeEmit::State(WipeState::Running(pre.progress))],
                    )
                }
            },
            (Phase::AwaitCreate, WipeReply::FileCreated(r)) => {
                match r {
                    Ok(_) => {
                        &&& post == WipeRun {
                            files: pre.files.wrapping_add(1),
                            chunk_written: 0,
                            speed_window_bytes: 0,
                            current_speed: 0,
                            phase: Phase::InnerControl,
                            ..pre
                        }
                        &&& out =~= seq![]
                    },
                    Err(e) => {
                        let p = WipeProgress { bytes_written_total: pre.total, ..pre.progress };
                        &&& post == WipeRun { progress: p, phase: Phase::Done, ..pre }
                        &&& out.len() == 1
                        &&& failed_with(out, create_failed_prefix() + e@, Some(p))
                    },
                }
            },
            (Phase::InnerControl, WipeReply::Control { paused, cancelled }) => {
                let c = pre.cancel_seen || cancelled;
                if !(pre.chunk_written < pre.chunk_target) || c {
                    post == WipeRun { cancel_seen: c, phase: Phase::AwaitFlush, ..pre } && out =~= seq![]
                } else if paused {
                    &&& post == WipeRun { cancel_seen: c, last_emitted_paused: true, phase: Phase::InnerWait, ..pre }
                    &&& out =~= pause_out(pre)
                } else {
                    post == WipeRun { cancel_seen: c, phase: Phase::AwaitLiveFree, ..pre } && out =~= seq![]
                }
            },
            (Phase::InnerWait, WipeReply::Control { paused, cancelled }) => {
                let c = pre.cancel_seen || cancelled;
                if c {
                    post == WipeRun { cancel_seen: c, phase: Phase::AwaitFlush, ..pre } && out =~= seq![]
                } else if paused {
                    post == pre && out =~= seq![]
                } else {
                    &&& post == WipeRun { last_emitted_paused: false, phase: Phase::AwaitLiveFree, ..pre }
                    &&& out =~= seq![WipeEmit::State(WipeState::Running(pre.progress))]
                }
            },
            (Phase::AwaitLiveFree, WipeReply::FreeSpace(live)) => {
                &&& out =~= seq![]
                &&& if live <= MIN_FREE_SPACE_FLOOR_BYTES {
                    post == WipeRun { last_free: live, phase: Phase::AwaitDiscard { write_failed: false }, ..pre }
                } else {
                    post == WipeRun {
                        last_free: live,
                        phase: Phase::AwaitWrite { size: next_write_size(pre, live) },
                        ..pre
                    }
                }
            },
            (Phase::AwaitWrite { size }, WipeReply::Written(r)) => {
                match r {
                    Ok(sample) => {
                        let cw = (pre.chunk_written + size) as u64;
                        let speed = match sample { Some(v) => v, None => pre.current_speed };
                        let window: u64 = match sample { Some(_) => 0, None => (pre.speed_window_bytes + size) as u64 };
                        let p = WipeProgress {
                            bytes_written_total: (pre.total + cw) as u64,
                            bytes_target: pre.progress.bytes_target,
                            current_write_speed_bytes_per_sec: speed,
                            files_created: pre.files,
                        };
                        &&& post == WipeRun {
                            chunk_written: cw,
                            speed_window_bytes: window,
                            current_speed: speed,
                            progress: p,
                            phase: Phase::InnerControl,
                            ..pre
                        }
                        &&& out =~= seq![WipeEmit::Progress(p)]
                    },
                    Err(_) => {
                        post == WipeRun { phase: Phase::AwaitDiscard { write_failed: true }, ..pre }
                            && out =~= seq![]
                    },
                }
            },
            (Phase::AwaitDiscard { .. }, WipeReply::Discarded) => {
                let p = WipeProgress {
                    bytes_written_total: pre.total,
                    current_write_speed_bytes_per_sec: pre.current_speed,
                    files_created: pre.files,
                    ..pre.progress
                };
                &&& post == WipeRun { progress: p, phase: Phase::Done, ..pre }
                &&& out =~= seq![
                    WipeEmit::State(WipeState::Completed { progress: p, hit_storage_limit: true }),
                    WipeEmit::Progress(p),
                ]
            },
            (Phase::AwaitFlush, WipeReply::Flushed(r)) => {
                match r {
                    Ok(_) => {
                        &&& post == WipeRun {
                            total: (pre.total + pre.chunk_written) as u64,
                            phase: Phase::OuterControl,
                            ..pre
                        }
                        &&& out =~= seq![]
                    },
                    Err(e) => {
                        let p = WipeProgress {
                            bytes_written_total: pre.total,
                            files_created: pre.files,
                            ..pre.progress
                        };
                        &&& post == WipeRun { progress: p, phase: Phase::Done, ..pre }
                        &&& out.len() == 2
                        &&& failed_with(out, flush_failed_prefix() + e@, Some(p))
                        &&& out[1] == WipeEmit::Progress(p)
                    },
                }
            },
            (Phase::FinishControl, WipeReply::Control { paused, cancelled }) => {
                let c = pre.cancel_seen || cancelled;
                let p = WipeProgress { bytes_written_total: pre.total, files_created: pre.files, ..pre.progress };
                &&& post == WipeRun { cancel_seen: c, progress: p, phase: Phase::Done, ..pre }
                &&& out =~= if c {
                    seq![WipeEmit::State(WipeState::Cancelled(p))]
                } else {
                    seq![WipeEmit::State(WipeState::Completed { progress: p, hit_storage_limit: false })]
                }
            },
            _ => false,
        }
    }
}

/// The run `WipeRun::start` sets up over `config`, continuing from
/// `resume_from` bytes already in dummy files.
pub open spec fn start_state(config: WipeConfig, resume_from: u64) -> WipeRun {
    WipeRun {
        chunk_size: config.chunk_size_bytes,
        fill_percent: config.target_fill_percent,
        resume_from,
        total: resume_from,
        target: 0,
        chunk_target: 0,
        chunk_written: 0,
        speed_window_bytes: 0,
        current_speed: 0,
        files: 0,
        progress: WipeProgress {
            bytes_written_total: resume_from,
            bytes_target: 0,
            current_write_speed_bytes_per_sec: 0,
            files_created: 0,
        },
        last_emitted_paused: false,
        cancel_seen: false,
        last_free: 0,
        phase: Phase::AwaitInitialFree,
    }
}

impl WipeRun {
    /// Well-formedness: the byte accounting that every step preserves.
    pub open spec fn inv(&self) -> bool {
        &&& target_known(self.phase) ==> {
            &&& self.resume_from <= self.target
            &&& self.total <= self.target
            &&& self.progress.bytes_target == self.target
            &&& self.progress.bytes_written_total <= self.target
            &&& self.resume_from <= self.progress.bytes_written_total
        }
        &&& self.resume_from <= self.total
        &&& in_chunk(self.phase) ==> {
            &&& 0 < self.chunk_target <= self.chunk_size
            &&& self.total + self.chunk_target <= self.target
            &&& self.chunk_written <= self.chunk_target
            &&& self.speed_window_bytes <= self.chunk_written
        }
        &&& self.phase is AwaitCreate ==> self.chunk_written == 0
        &&& self.phase is OuterWait ==> self.total < self.target
        &&& (self.phase is FinishControl && !self.cancel_seen) ==> (self.total >= self.target
            || self.chunk_size == 0)
        &&& self.cancel_seen ==> (self.phase is OuterControl || self.phase is AwaitFlush
            || self.phase is FinishControl || self.phase is Done)
        &&& (self.phase is InnerWait || self.phase is AwaitLiveFree) ==> self.chunk_written
            < self.chunk_target
        &&& self.phase is AwaitInitialFree ==> self.total == self.resume_from
        &&& self.phase is AwaitBuffers ==> self.progress.bytes_written_total == self.total
        &&& match self.phase {
            Phase::AwaitWrite { size } => {
                &&& 0 < size <= WRITE_BUFFER_BYTES
                &&& self.chunk_written + size <= self.chunk_target
                &&& self.last_free > MIN_FREE_SPACE_FLOOR_BYTES
                &&& size + MIN_FREE_SPACE_FLOOR_BYTES <= self.last_free
            },
            Phase::AwaitDiscard { write_failed } => !write_failed ==> self.last_free
                <= MIN_FREE_SPACE_FLOOR_BYTES,
            _ => true,
        }
    }

    /// Sets up a run over `config` that continues from `resume_from_bytes`
    /// bytes already sitting in dummy files on the target.
    pub fn start(config: &WipeConfig, resume_from_bytes: u64) -> (r: (WipeRun, WipeRequest))
        ensures
            r.0.inv(),
            r.0 == start_state(*config, resume_from_bytes),
            r.1 == WipeRequest::ReadFreeSpace,
    {
        let run = WipeRun {
            chunk_size: config.chunk_size_bytes,
            fill_percent: config.target_fill_percent,
            resume_from: resume_from_bytes,
            total: resume_from_bytes,
            target: 0,
            chunk_target: 0,
            chunk_written: 0,
            speed_window_bytes: 0,
            current_speed: 0,
            files: 0,
            progress: WipeProgress {
                bytes_written_total: resume_from_bytes,
                bytes_target: 0,
                current_write_speed_bytes_per_sec: 0,
                files_created: 0,
            },
            last_emitted_paused: false,
            cancel_seen: false,
            last_free: 0,
            phase: Phase::AwaitInitialFree,
        };
        (run, WipeRequest::ReadFreeSpace)
    }

    /// The request this run is waiting on.
    pub fn pending_request(&self) -> (r: WipeRequest)
        requires
            self.inv(),
        ensures
            r == request_of(*self),
    {
        match &self.phase {
            Phase::AwaitInitialFree => WipeRequest::ReadFreeSpace,
            Phase::AwaitBuffers => WipeRequest::PrepareBuffers,
            Phase::OuterControl => WipeRequest::ReadControl,
            Phase::OuterWait => WipeRequest::WaitWhilePaused,
            Phase::AwaitCreate => WipeRequest::CreateFile { index: self.files },
            Phase::InnerControl => WipeRequest::ReadControl,
            Phase::InnerWait => WipeRequest::WaitWhilePaused,
            Phase::AwaitLiveFree => WipeRequest::ReadFreeSpace,
            Phase::AwaitWrite { size } => WipeRequest::Write {
                size: *size,
                speed_window_bytes: self.speed_window_bytes + *size as u64,
            },
            Phase::AwaitDiscard { .. } => WipeRequest::DiscardFile,
            Phase::AwaitFlush => WipeRequest::Flush,
            Phase::FinishControl => WipeRequest::ReadControl,
            Phase::Done => WipeRequest::Done,
        }
    }
    fn begin_chunk(&mut self, out: Vec<WipeEmit>) -> (r: Vec<WipeEmit>)
        requires
            old(self).inv(),
            match old(self).phase { Phase::OuterControl | Phase::OuterWait => true, _ => false },
            old(self).total < old(self).target,
            !old(self).cancel_seen,
        ensures
            final(self).inv(),
            begin_chunk_spec(*old(self), *final(self), r@, out@),
    {
        let remaining = self.target - self.total;
        let chunk_target = if remaining < self.chunk_size { remaining } else { self.chunk_size };
        self.chunk_target = chunk_target;
        self.chunk_written = 0;
        self.speed_window_bytes = 0;
        if chunk_target == 0 {
            self.phase = Phase::FinishControl;
        } else {
            self.phase = Phase::AwaitCreate;
        }
        out
    }

    /// Performs one transition: consumes the outcome of the pending request
    /// and returns what to publish, in order, and the next request. A reply
    /// that does not answer the pending request changes nothing.
    pub fn step(&mut self, reply: WipeReply) -> (r: (Vec<WipeEmit>, WipeRequest))
        requires
            old(self).inv(),
        ensures
            final(self).inv(),
            step_spec(*old(self), reply, *final(self), r.0@),
            r.1 == request_of(*final(self)),
    {
        let out: Vec<WipeEmit> = if !self.fits(&reply) {
            Vec::new()
        } else {
            self.transition(reply)
        };
        let req = self.pending_request();
        (out, req)
    }

    fn fits(&self, reply: &WipeReply) -> (b: bool)
        ensures
            b == reply_fits(*self, *reply),
    {
        match (&self.phase, reply) {
            (Phase::AwaitInitialFree, WipeReply::FreeSpace(_)) => true,
            (Phase::AwaitBuffers, WipeReply::BuffersPrepared(_)) => true,
            (Phase::OuterControl, WipeReply::Control { .. }) => true,
            (Phase::OuterWait, WipeReply::Control { .. }) => true,
            (Phase::AwaitCreate, WipeReply::FileCreated(_)) => true,
            (Phase::InnerControl, WipeReply::Control { .. }) => true,
            (Phase::InnerWait, WipeReply::Control { .. }) => true,
            (Phase::AwaitLiveFree, WipeReply::FreeSpace(_)) => true,
            (Phase::AwaitWrite { .. }, WipeReply::Written(_)) => true,
            (Phase::AwaitDiscard { .. }, WipeReply::Discarded) => true,
            (Phase::AwaitFlush, WipeReply::Flushed(_)) => true,
            (Phase::FinishControl, WipeReply::Control { .. }) => true,
            _ => false,
        }
    }

    fn transition(&mut self, reply: WipeReply) -> (out: Vec<WipeEmit>)
        requires
            old(self).inv(),
            reply_fits(*old(self), reply),
        ensures
            final(self).inv(),
            step_spec(*old(self), reply, *final(self), out@),
    {
        let mut out: Vec<WipeEmit> = Vec::new();
        match (&self.phase, reply) {
            (Phase::AwaitInitialFree, WipeReply::FreeSpace(f)) => {
                self.last_free = f;
                if f == 0 {
                    let message = String::from_str(
                        "Could not read free space on the selected drive. It may have been disconnected.",
                    );
                    self.phase = Phase::Done;
                    out.push(WipeEmit::State(WipeState::Failed { message, progress: None }));
                } else {
                    let target = compute_initial_target(f, self.resume_from, self.fill_percent);
                    let p = WipeProgress {
                        bytes_written_total: self.total,
                        bytes_target: target,
                        current_write_speed_bytes_per_sec: 0,
                        files_created: 0,
                    };
                    self.target = target;
                    self.progress = p;
                    self.phase = Phase::AwaitBuffers;
                    out.push(WipeEmit::State(WipeState::Running(p)));
                }
            },
            (Phase::AwaitBuffers, WipeReply::BuffersPrepared(ready)) => {
                if ready {
                    self.phase = Phase::OuterControl;
                } else {
                    let message = String::from_str(
                        "Could not seed the pseudo-random generator from the operating system's entropy source.",
                    );
                    self.phase = Phase::Done;
                    out.push(WipeEmit::State(WipeState::Failed { message, progress: Some(self.progress) }));
                }
            },
            (Phase::OuterControl, WipeReply::Control { paused, cancelled }) => {
                let c = self.cancel_seen || cancelled;
                self.cancel_seen = c;
                if !(self.total < self.target) || c {
                    self.phase = Phase::FinishControl;
                } else if paused {
                    if !self.last_emitted_paused {
                        out.push(WipeEmit::State(WipeState::Paused(self.progress)));
                    }
                    self.last_emitted_paused = true;
                    self.phase = Phase::OuterWait;
                } else {
                    out = self.begin_chunk(out);
                }
            },
            (Phase::OuterWait, WipeReply::Control { paused, cancelled }) => {
                let c = self.cancel_seen || cancelled;
                if c {
                    self.cancel_seen = c;
                    self.phase = Phase::FinishControl;
                } else if paused {
                } else {
                    self.last_emitted_paused = false;
                    out.push(WipeEmit::State(WipeState::Running(self.progress)));
                    out = self.begin_chunk(out);
                }
            },
            (Phase::AwaitCreate, WipeReply::FileCreated(r)) => {
                match r {
                    Ok(()) => {
                        self.files = self.files.wrapping_add(1);
                        self.chunk_written = 0;
                        self.speed_window_bytes = 0;
                        self.current_speed = 0;
                        self.phase = Phase::InnerControl;
                    },
                    Err(e) => {
                        let p = WipeProgress { bytes_written_total: self.total, ..self.progress };
                        let mut message = String::from_str("Failed to create dummy file: ");
                        message.append(e.as_str());
                        self.progress = p;
                        self.phase = Phase::Done;
                        out.push(WipeEmit::State(WipeState::Failed { message, progress: Some(p) }));
                    },
                }
            },
            (Phase::InnerControl, WipeReply::Control { paused, cancelled }) => {
                let c = self.cancel_seen || cancelled;
                self.cancel_seen = c;
                if !(self.chunk_written < self.chunk_target) || c {
                    self.phase = Phase::AwaitFlush;
                } else if paused {
                    if !self.last_emitted_paused {
                        out.push(WipeEmit::State(WipeState::Paused(self.progress)));
                    }
                    self.last_emitted_paused = true;
                    self.phase = Phase::InnerWait;
                } else {
                    self.phase = Phase::AwaitLiveFree;
                }
            },
            (Phase::InnerWait, WipeReply::Control { paused, cancelled }) => {
                let c = self.cancel_seen || cancelled;
                if c {
                    self.cancel_seen = c;
                    self.phase = Phase::AwaitFlush;
                } else if paused {
                } else {
                    self.last_emitted_paused = false;
                    self.phase = Phase::AwaitLiveFree;
                    out.push(WipeEmit::State(WipeState::Running(self.progress)));
                }
            },
            (Phase::AwaitLiveFree, WipeReply::FreeSpace(live)) => {
                self.last_free = live;
                if live <= MIN_FREE_SPACE_FLOOR_BYTES {
                    self.phase = Phase::AwaitDiscard { write_failed: false };
                } else {
                    let remaining_in_chunk = self.chunk_target - self.chunk_written;
                    let block: u64 = if remaining_in_chunk < WRITE_BUFFER_BYTES as u64 {
                        remaining_in_chunk
                    } else {
                        WRITE_BUFFER_BYTES as u64
                    };
                    let headroom = live - MIN_FREE_SPACE_FLOOR_BYTES;
                    let size: u64 = if block < headroom { block } else { headroom };
                    assert(size <= 4194304);
                    self.phase = Phase::AwaitWrite { size: size as usize };
                }
            },
            (Phase::AwaitWrite { size }, WipeReply::Written(r)) => {
                let size = *size;
                match r {
                    Ok(sample) => {
                        let cw = self.chunk_written + size as u64;
                        self.chunk_written = cw;
                        match sample {
                            Some(v) => {
                                self.current_speed = v;
                                self.speed_window_bytes = 0;
                            },
                            None => {
                                self.speed_window_bytes = self.speed_window_bytes + size as u64;
                            },
                        }
                        let p = WipeProgress {
                            bytes_written_total: self.total + cw,
                            bytes_target: self.progress.bytes_target,
                            current_write_speed_bytes_per_sec: self.current_speed,
                            files_created: self.files,
                        };
                        self.progress = p;
                        self.phase = Phase::InnerControl;
                        out.push(WipeEmit::Progress(p));
                    },
                    Err(_) => {
                        self.phase = Phase::AwaitDiscard { write_failed: true };
                    },
                }
            },
            (Phase::AwaitDiscard { .. }, WipeReply::Discarded) => {
                let p = WipeProgress {
                    bytes_written_total: self.total,
                    bytes_target: self.progress.bytes_target,
                    current_write_speed_bytes_per_sec: self.current_speed,
                    files_created: self.files,
                };
                self.progress = p;
                self.phase = Phase::Done;
                out.push(WipeEmit::State(WipeState::Completed { progress: p, hit_storage_limit: true }));
                out.push(WipeEmit::Progress(p));
            },
            (Phase::AwaitFlush, WipeReply::Flushed(r)) => {
                match r {
                    Ok(()) => {
                        self.total = self.total + self.chunk_written;
                        self.phase = Phase::OuterControl;
                    },
                    Err(e) => {
                        let p = WipeProgress {
                            bytes_written_total: self.total,
                            files_created: self.files,
                            ..self.progress
                        };
                        let mut message = String::from_str("Failed to flush data to disk: ");
                        message.append(e.as_str());
                        self.progress = p;
                        self.phase = Phase::Done;
                        out.push(WipeEmit::State(WipeState::Failed { message, progress: Some(p) }));
                        out.push(WipeEmit::Progress(p));
                    },
                }
            },
            (Phase::FinishControl, WipeReply::Control { paused, cancelled }) => {
                let c = self.cancel_seen || cancelled;
                let p = WipeProgress {
                    bytes_written_total: self.total,
                    files_created: self.files,
                    ..self.progress
                };
                self.cancel_seen = c;
                self.progress = p;
                self.phase = Phase::Done;
                if c {
                    out.push(WipeEmit::State(WipeState::Cancelled(p)));
                } else {
                    out.push(WipeEmit::State(WipeState::Completed { progress: p, hit_storage_limit: false }));
                }
            },
            _ => {},
        }
        out
    }
}

/// The progress snapshot an emission carries, if any.
pub open spec fn emitted_progress(e: WipeEmit) -> Option<WipeProgress> {
    match e {
        WipeEmit::Progress(p) => Some(p),
        WipeEmit::State(WipeState::Running(p)) => Some(p),
        WipeEmit::State(WipeState::Paused(p)) => Some(p),
        WipeEmit::State(WipeState::Cancelled(p)) => Some(p),
        WipeEmit::State(WipeState::Completed { progress, .. }) => Some(progress),
        WipeEmit::State(WipeState::Failed { progress, .. }) => progress,
        WipeEmit::State(WipeState::Idle) => None,
    }
}

pub open spec fn is_paused_emit(e: WipeEmit) -> bool {
    e matches WipeEmit::State(WipeState::Paused(_))
}

pub open spec fn is_running_emit(e: WipeEmit) -> bool {
    e matches WipeEmit::State(WipeState::Running(_))
}

pub open spec fn is_terminal_emit(e: WipeEmit) -> bool {
    match e {
        WipeEmit::State(WipeState::Completed { .. }) => true,
        WipeEmit::State(WipeState::Cancelled(_)) => true,
        WipeEmit::State(WipeState::Failed { .. }) => true,
        _ => false,
    }
}

pub open spec fn publishes(out: Seq<WipeEmit>, pred: spec_fn(WipeEmit) -> bool) -> bool {
    exists|i: int| 0 <= i < out.len() && pred(#[trigger] out[i])
}

/// Every transition keeps the run well formed.
pub proof fn lemma_step_keeps_inv(pre: WipeRun, reply: WipeReply, post: WipeRun, out: Seq<WipeEmit>)
    requires
        pre.inv(),
        step_spec(pre, reply, post, out),
    ensures
        post.inv(),
{
    match (pre.phase, reply) {
        (Phase::AwaitWrite { size }, WipeReply::Written(r)) => {},
        (Phase::AwaitLiveFree, WipeReply::FreeSpace(live)) => {},
        _ => {},
    }
}

/// Waiting out a pause, between dummy files or inside one. Entering it:
/// with work left, a reading of "paused, not cancelled" publishes `Paused`
/// only when it is not already shown, marks it shown and asks to wait.
/// While waiting: a wake-up that still finds the run paused and not
/// cancelled changes nothing; a resume publishes `Running` with the current
/// snapshot, clears the mark and ends the wait; a cancel publishes nothing,
/// ends the wait for good and leaves the mark as it was.
pub proof fn lemma_pause_protocol(pre: WipeRun, paused: bool, cancelled: bool, post: WipeRun, out: Seq<WipeEmit>)
    requires
        pre.inv(),
        step_spec(pre, WipeReply::Control { paused, cancelled }, post, out),
    ensures
        ((pre.phase is OuterControl && pre.total < pre.target) || (pre.phase is InnerControl
            && pre.chunk_written < pre.chunk_target)) && !pre.cancel_seen && paused && !cancelled ==> {
            &&& out == pause_out(pre)
            &&& post.last_emitted_paused
            &&& request_of(post) == WipeRequest::WaitWhilePaused
            &&& post.progress == pre.progress
        },
        (pre.phase is OuterWait || pre.phase is InnerWait) ==> {
            &&& (paused && !cancelled) ==> post == pre && out.len() == 0
            &&& (!paused && !cancelled) ==> out == seq![WipeEmit::State(WipeState::Running(pre.progress))]
                && !post.last_emitted_paused && !(request_of(post) is WaitWhilePaused)
            &&& cancelled ==> out.len() == 0 && post.last_emitted_paused == pre.last_emitted_paused
                && post.cancel_seen && request_of(post) != WipeRequest::WaitWhilePaused
        },
{
    lemma_step_keeps_inv(pre, WipeReply::Control { paused, cancelled }, post, out);
}

/// Safety floor: the run's own writes never take the volume below
/// `MIN_FREE_SPACE_FLOOR_BYTES` free. A write is only requested right after
/// a free-space reading (or re-requested unchanged when the reply did not
/// answer it), and it is never larger than that reading minus the floor.
pub proof fn lemma_write_only_above_floor(pre: WipeRun, reply: WipeReply, post: WipeRun, out: Seq<WipeEmit>)
    requires
        pre.inv(),
        step_spec(pre, reply, post, out),
        request_of(post) is Write,
    ensures
        request_of(post) matches WipeRequest::Write { size, .. } && 0 < size && size
            + MIN_FREE_SPACE_FLOOR_BYTES <= post.last_free,
        post == pre || (reply matches WipeReply::FreeSpace(f) && f == post.last_free),
{
    lemma_step_keeps_inv(pre, reply, post, out);
}

/// Every published progress snapshot stays within its byte target, and
/// once the target is known the run never aims below what it resumed from.
pub proof fn lemma_progress_within_target(pre: WipeRun, reply: WipeReply, post: WipeRun, out: Seq<WipeEmit>)
    requires
        pre.inv(),
        step_spec(pre, reply, post, out),
    ensures
        forall|i: int|
            0 <= i < out.len() ==> (emitted_progress(#[trigger] out[i]) matches Some(p)
                ==> p.bytes_written_total <= p.bytes_target),
        target_known(post.phase) ==> post.resume_from <= post.target,
{
    assert forall|i: int| 0 <= i < out.len() implies (emitted_progress(#[trigger] out[i]) matches Some(p)
        ==> p.bytes_written_total <= p.bytes_target) by {
        match (pre.phase, reply) {
            (Phase::AwaitWrite { size }, WipeReply::Written(r)) => {},
            _ => {},
        }
    }
}

/// `Paused` is published once per pause: only when the previous pause was
/// already followed by `Running`, and never twice in a row.
pub proof fn lemma_paused_once(
    s0: WipeRun,
    r1: WipeReply,
    s1: WipeRun,
    o1: Seq<WipeEmit>,
    r2: WipeReply,
    s2: WipeRun,
    o2: Seq<WipeEmit>,
)
    requires
        s0.inv(),
        step_spec(s0, r1, s1, o1),
        step_spec(s1, r2, s2, o2),
        publishes(o1, |e: WipeEmit| is_paused_emit(e)),
    ensures
        !s0.last_emitted_paused,
        s1.last_emitted_paused,
        !publishes(o2, |e: WipeEmit| is_paused_emit(e)),
{
    let i = choose|i: int| 0 <= i < o1.len() && is_paused_emit(#[trigger] o1[i]);
    assert(is_paused_emit(o1[i]));
    if publishes(o2, |e: WipeEmit| is_paused_emit(e)) {
        let j = choose|j: int| 0 <= j < o2.len() && is_paused_emit(#[trigger] o2[j]);
        assert(is_paused_emit(o2[j]));
    }
}

/// A stop at the storage limit is reported only once the open dummy file
/// was discarded, after a free-space reading at or below the floor or a
/// failed write, and it counts only completed dummy files (the partial file
/// is deleted, so its bytes are not reported as written).
pub proof fn lemma_storage_limit_is_honest(pre: WipeRun, reply: WipeReply, post: WipeRun, out: Seq<WipeEmit>, i: int)
    requires
        pre.inv(),
        step_spec(pre, reply, post, out),
        0 <= i < out.len(),
        out[i] matches WipeEmit::State(WipeState::Completed { hit_storage_limit, .. }) && hit_storage_limit,
    ensures
        pre.phase matches Phase::AwaitDiscard { write_failed } && (write_failed
            || post.last_free <= MIN_FREE_SPACE_FLOOR_BYTES),
        reply is Discarded,
        emitted_progress(out[i]) == Some(post.progress),
        post.progress.bytes_written_total == pre.total,
        post.phase is Done,
{
}

/// A normal completion means the target was reached (given a non-empty
/// chunk size); a cancellation is reported only once cancellation was seen.
pub proof fn lemma_completion_reaches_target(pre: WipeRun, reply: WipeReply, post: WipeRun, out: Seq<WipeEmit>, i: int)
    requires
        pre.inv(),
        pre.chunk_size > 0,
        step_spec(pre, reply, post, out),
        0 <= i < out.len(),
        out[i] matches WipeEmit::State(WipeState::Completed { hit_storage_limit, .. }) && !hit_storage_limit,
    ensures
        post.progress.bytes_written_total >= post.progress.bytes_target,
        emitted_progress(out[i]) == Some(post.progress),
        !post.cancel_seen,
{
}

/// Once cancellation has been observed it stays observed, and no further
/// dummy file is created or written.
pub proof fn lemma_cancel_is_final(pre: WipeRun, reply: WipeReply, post: WipeRun, out: Seq<WipeEmit>)
    requires
        pre.inv(),
        step_spec(pre, reply, post, out),
        pre.cancel_seen,
    ensures
        post.cancel_seen,
        !(request_of(post) is CreateFile),
        !(request_of(post) is Write),
        forall|i: int| 0 <= i < out.len() ==> !is_running_emit(#[trigger] out[i]),
{
}

/// A run ends exactly once: a terminal state is published only by the step
/// that reaches `Done`, and a finished run neither changes nor publishes.
pub proof fn lemma_terminal_exactly_once(pre: WipeRun, reply: WipeReply, post: WipeRun, out: Seq<WipeEmit>)
    requires
        pre.inv(),
        step_spec(pre, reply, post, out),
    ensures
        pre.phase is Done ==> (post == pre && out.len() == 0),
        publishes(out, |e: WipeEmit| is_terminal_emit(e)) <==> (!(pre.phase is Done)
            && post.phase is Done),
        publishes(out, |e: WipeEmit| is_terminal_emit(e)) ==> is_terminal_emit(out[0]),
{
    if !(pre.phase is Done) && post.phase is Done {
        assert(is_terminal_emit(out[0]));
    }
    if publishes(out, |e: WipeEmit| is_terminal_emit(e)) {
        let j = choose|j: int| 0 <= j < out.len() && is_terminal_emit(#[trigger] out[j]);
        assert(is_terminal_emit(out[j]));
    }
}

/// Cancelling while a dummy file is open closes it properly: the next
/// request is a flush, never a deletion of the partly written file, and
/// the bytes it holds are counted once the flush succeeds.
pub proof fn lemma_cancel_flushes_open_file(pre: WipeRun, paused: bool, post: WipeRun, out: Seq<WipeEmit>)
    requires
        pre.inv(),
        pre.phase is InnerControl || pre.phase is InnerWait,
        step_spec(pre, WipeReply::Control { paused, cancelled: true }, post, out),
    ensures
        request_of(post) == WipeRequest::Flush,
        post.chunk_written == pre.chunk_written,
        post.total == pre.total,
        out.len() == 0,
{
}

/// Bytes that are not known to be on disk are never reported as written:
/// when the open dummy file is discarded (floor reached or write failed)
/// or its flush fails, the published total covers completed files only.
pub proof fn lemma_unconfirmed_bytes_not_counted(pre: WipeRun, reply: WipeReply, post: WipeRun, out: Seq<WipeEmit>)
    requires
        pre.inv(),
        step_spec(pre, reply, post, out),
        (pre.phase is AwaitDiscard && reply is Discarded) || (pre.phase is AwaitFlush
            && reply matches WipeReply::Flushed(Err(_))),
    ensures
        post.progress.bytes_written_total == pre.total,
        forall|i: int| 0 <= i < out.len() ==> emitted_progress(#[trigger] out[i]) == Some(post.progress),
{
}

/// Dummy files never grow past the configured chunk size, each write is
/// at most one buffer long and leaves the last free-space reading above
/// the floor, and a run never writes past its byte target.
pub proof fn lemma_chunk_bounds(s: WipeRun)
    requires
        s.inv(),
    ensures
        in_chunk(s.phase) ==> s.chunk_written <= s.chunk_target <= s.chunk_size,
        in_chunk(s.phase) ==> s.total + s.chunk_written <= s.target,
        request_of(s) matches WipeRequest::Write { size, .. } ==> s.total + s.chunk_written + size
            <= s.target,
        request_of(s) matches WipeRequest::Write { size, .. } ==> 0 < size <= WRITE_BUFFER_BYTES
            && s.chunk_written + size <= s.chunk_size,
        request_of(s) matches WipeRequest::Write { size, .. } ==> size + MIN_FREE_SPACE_FLOOR_BYTES
            <= s.last_free,
{
}

} // verus!
