//! Laws of whole runs. A trace records a run from `WipeRun::start`: the
//! `i`-th call of `step` took `states[i]` on `replies[i]` to
//! `states[i + 1]` and published `outs[i]`, in order.

use crate::engine::config::WipeConfig;
use crate::engine::wipe_engine::{
    emitted_progress, failed_with, free_space_unreadable_message, initial_target, is_terminal_emit,
    lemma_cancel_is_final, lemma_step_keeps_inv, lemma_terminal_exactly_once, reply_fits, request_of,
    start_state, step_spec, Phase,
    WipeEmit, WipeProgress, WipeReply, WipeRequest, WipeRun, WipeState,
};
use vstd::prelude::*;

verus! {

/// `states`, `replies` and `outs` record a run over `config` that started
/// from `resume_from` bytes already on disk.
pub open spec fn is_trace(
    config: WipeConfig,
    resume_from: u64,
    states: Seq<WipeRun>,
    replies: Seq<WipeReply>,
    outs: Seq<Seq<WipeEmit>>,
) -> bool {
    &&& states.len() == replies.len() + 1
    &&& outs.len() == replies.len()
    &&& states[0] == start_state(config, resume_from)
    &&& forall|i: int|
        #![trigger outs[i]]
        0 <= i < replies.len() ==> step_spec(states[i], replies[i], states[i + 1], outs[i])
}

/// A dummy file is open: created, and not yet flushed or discarded.
pub open spec fn file_open(phase: Phase) -> bool {
    match phase {
        Phase::InnerControl | Phase::InnerWait | Phase::AwaitLiveFree | Phase::AwaitWrite { .. }
        | Phase::AwaitDiscard { .. } | Phase::AwaitFlush => true,
        _ => false,
    }
}

/// The first snapshot of a run whose first free-space reading was `free`.
pub open spec fn first_progress(resume_from: u64, free: u64, fill_percent: u8) -> WipeProgress {
    WipeProgress {
        bytes_written_total: resume_from,
        bytes_target: initial_target(free, resume_from, fill_percent),
        current_write_speed_bytes_per_sec: 0,
        files_created: 0,
    }
}

/// Successful file creations among steps `from..to`.
pub open spec fn files_created_between(states: Seq<WipeRun>, replies: Seq<WipeReply>, from: int, to: int) -> nat
    decreases to - from,
{
    if to <= from {
        0
    } else {
        let k = to - 1;
        let before = files_created_between(states, replies, from, k);
        if states[k].phase is AwaitCreate && replies[k] matches WipeReply::FileCreated(Ok(_)) {
            before + 1
        } else {
            before
        }
    }
}

/// Bytes of the dummy files whose flush succeeded among steps `from..to`.
pub open spec fn flushed_bytes_between(states: Seq<WipeRun>, replies: Seq<WipeReply>, from: int, to: int) -> nat
    decreases to - from,
{
    if to <= from {
        0
    } else {
        let k = to - 1;
        let before = flushed_bytes_between(states, replies, from, k);
        if states[k].phase is AwaitFlush && replies[k] matches WipeReply::Flushed(Ok(_)) {
            before + states[k].chunk_written as nat
        } else {
            before
        }
    }
}

proof fn lemma_step_facts(pre: WipeRun, reply: WipeReply, post: WipeRun, out: Seq<WipeEmit>)
    requires
        pre.inv(),
        step_spec(pre, reply, post, out),
    ensures
        post.inv(),
        post.resume_from == pre.resume_from,
        post.fill_percent == pre.fill_percent,
        pre.phase is AwaitInitialFree && out.len() == 0 ==> post == pre,
        !(pre.phase is AwaitInitialFree) ==> !(post.phase is AwaitInitialFree) && post.target == pre.target,
        pre.phase is AwaitInitialFree && out.len() > 0 ==> (reply matches WipeReply::FreeSpace(f) && (
        (f == 0 && out.len() == 1 && failed_with(out, free_space_unreadable_message(), None)
            && post.phase is Done) || (f > 0 && out == seq![
            WipeEmit::State(WipeState::Running(first_progress(pre.resume_from, f, pre.fill_percent))),
        ] && post.target == initial_target(f, pre.resume_from, pre.fill_percent)
            && !(post.phase is AwaitInitialFree)))),
        forall|a: int|
            0 <= a < out.len() ==> (emitted_progress(#[trigger] out[a]) matches Some(p) ==> p.bytes_target
                == post.target && pre.resume_from <= p.bytes_written_total <= p.bytes_target),
        forall|a: int| 0 <= a < out.len() ==> #[trigger] out[a] != WipeEmit::State(WipeState::Idle),
        forall|a: int|
            0 <= a < out.len() && is_terminal_emit(#[trigger] out[a]) ==> a == 0 && post.phase is Done
                && !(pre.phase is Done) && out.len() <= 2 && (out.len() == 2 ==> out[1] is Progress),
        !(pre.phase is Done) && post.phase is Done ==> out.len() > 0 && is_terminal_emit(out[0]),
        pre.phase is Done ==> post == pre && out.len() == 0,
        post.total == pre.total + if pre.phase is AwaitFlush && reply matches WipeReply::Flushed(Ok(_)) {
            pre.chunk_written as int
        } else {
            0
        },
        out.len() > 0 && is_terminal_emit(out[0]) ==> (emitted_progress(out[0]) matches Some(p)
            ==> p.bytes_written_total == post.total),
        post.files == if pre.phase is AwaitCreate && reply matches WipeReply::FileCreated(Ok(_)) {
            pre.files.wrapping_add(1)
        } else {
            pre.files
        },
        !file_open(pre.phase) && file_open(post.phase) ==> pre.phase is AwaitCreate
            && reply matches WipeReply::FileCreated(Ok(_)),
{
    lemma_step_keeps_inv(pre, reply, post, out);
    lemma_terminal_exactly_once(pre, reply, post, out);
    if pre.phase is AwaitInitialFree && out.len() > 0 {
        assert(pre.total == pre.resume_from);
    }
    assert forall|a: int| 0 <= a < out.len() implies (emitted_progress(#[trigger] out[a]) matches Some(p)
        ==> p.bytes_target == post.target && pre.resume_from <= p.bytes_written_total
        <= p.bytes_target) by {
        match (pre.phase, reply) {
            (Phase::AwaitWrite { size }, WipeReply::Written(r)) => {},
            _ => {},
        }
    }
}

proof fn lemma_trace_inv_upto(
    config: WipeConfig,
    resume_from: u64,
    states: Seq<WipeRun>,
    replies: Seq<WipeReply>,
    outs: Seq<Seq<WipeEmit>>,
    n: int,
)
    requires
        is_trace(config, resume_from, states, replies, outs),
        0 <= n < states.len(),
    ensures
        forall|i: int| 0 <= i <= n ==> #[trigger] states[i].inv(),
    decreases n,
{
    if n > 0 {
        lemma_trace_inv_upto(config, resume_from, states, replies, outs, n - 1);
        assert(step_spec(states[n - 1], replies[n - 1], states[n], outs[n - 1]));
        lemma_step_keeps_inv(states[n - 1], replies[n - 1], states[n], outs[n - 1]);
    }
}

/// Every state of a run is well formed.
pub proof fn lemma_trace_inv(
    config: WipeConfig,
    resume_from: u64,
    states: Seq<WipeRun>,
    replies: Seq<WipeReply>,
    outs: Seq<Seq<WipeEmit>>,
)
    requires
        is_trace(config, resume_from, states, replies, outs),
    ensures
        forall|i: int| 0 <= i < states.len() ==> #[trigger] states[i].inv(),
{
    lemma_trace_inv_upto(config, resume_from, states, replies, outs, states.len() - 1);
}

proof fn lemma_trace_constants_upto(
    config: WipeConfig,
    resume_from: u64,
    states: Seq<WipeRun>,
    replies: Seq<WipeReply>,
    outs: Seq<Seq<WipeEmit>>,
    n: int,
)
    requires
        is_trace(config, resume_from, states, replies, outs),
        0 <= n < states.len(),
    ensures
        forall|i: int|
            0 <= i <= n ==> #[trigger] states[i].resume_from == resume_from && states[i].fill_percent
                == config.target_fill_percent,
    decreases n,
{
    lemma_trace_inv(config, resume_from, states, replies, outs);
    if n > 0 {
        lemma_trace_constants_upto(config, resume_from, states, replies, outs, n - 1);
        assert(step_spec(states[n - 1], replies[n - 1], states[n], outs[n - 1]));
        lemma_step_facts(states[n - 1], replies[n - 1], states[n], outs[n - 1]);
    }
}

/// Once the target is set it stays: from state `m` on, up to state `n`.
proof fn lemma_target_stable(
    config: WipeConfig,
    resume_from: u64,
    states: Seq<WipeRun>,
    replies: Seq<WipeReply>,
    outs: Seq<Seq<WipeEmit>>,
    m: int,
    n: int,
)
    requires
        is_trace(config, resume_from, states, replies, outs),
        0 <= m <= n < states.len(),
        !(states[m].phase is AwaitInitialFree),
    ensures
        !(states[n].phase is AwaitInitialFree),
        states[n].target == states[m].target,
    decreases n - m,
{
    lemma_trace_inv(config, resume_from, states, replies, outs);
    if n > m {
        lemma_target_stable(config, resume_from, states, replies, outs, m, n - 1);
        assert(step_spec(states[n - 1], replies[n - 1], states[n], outs[n - 1]));
        lemma_step_facts(states[n - 1], replies[n - 1], states[n], outs[n - 1]);
    }
}

/// A finished run stays finished and publishes nothing more.
proof fn lemma_done_stays(
    config: WipeConfig,
    resume_from: u64,
    states: Seq<WipeRun>,
    replies: Seq<WipeReply>,
    outs: Seq<Seq<WipeEmit>>,
    m: int,
    n: int,
)
    requires
        is_trace(config, resume_from, states, replies, outs),
        0 <= m <= n < states.len(),
        states[m].phase is Done,
    ensures
        states[n].phase is Done,
        forall|j: int| m <= j < n ==> #[trigger] outs[j].len() == 0,
    decreases n - m,
{
    lemma_trace_inv(config, resume_from, states, replies, outs);
    if n > m {
        lemma_done_stays(config, resume_from, states, replies, outs, m, n - 1);
        assert(step_spec(states[n - 1], replies[n - 1], states[n], outs[n - 1]));
        lemma_step_facts(states[n - 1], replies[n - 1], states[n], outs[n - 1]);
    }
}

/// Until a run first publishes something it stays as `start` built it.
proof fn lemma_quiet_prefix(
    config: WipeConfig,
    resume_from: u64,
    states: Seq<WipeRun>,
    replies: Seq<WipeReply>,
    outs: Seq<Seq<WipeEmit>>,
    n: int,
)
    requires
        is_trace(config, resume_from, states, replies, outs),
        0 <= n < states.len(),
        forall|k: int| 0 <= k < n ==> #[trigger] outs[k].len() == 0,
    ensures
        states[n] == states[0],
    decreases n,
{
    lemma_trace_inv(config, resume_from, states, replies, outs);
    if n > 0 {
        lemma_quiet_prefix(config, resume_from, states, replies, outs, n - 1);
        assert(outs[n - 1].len() == 0);
        assert(step_spec(states[n - 1], replies[n - 1], states[n], outs[n - 1]));
        lemma_step_facts(states[n - 1], replies[n - 1], states[n], outs[n - 1]);
    }
}

/// One byte target for the whole run: every progress snapshot a run
/// publishes carries the target of its last state, and lies between the
/// bytes the run resumed from and that target.
pub proof fn lemma_run_progress_consistent(
    config: WipeConfig,
    resume_from: u64,
    states: Seq<WipeRun>,
    replies: Seq<WipeReply>,
    outs: Seq<Seq<WipeEmit>>,
    i: int,
    a: int,
)
    requires
        is_trace(config, resume_from, states, replies, outs),
        0 <= i < outs.len(),
        0 <= a < outs[i].len(),
    ensures
        emitted_progress(outs[i][a]) matches Some(p) ==> p.bytes_target == states.last().target
            && resume_from <= p.bytes_written_total <= p.bytes_target,
{
    lemma_trace_inv(config, resume_from, states, replies, outs);
    lemma_trace_constants_upto(config, resume_from, states, replies, outs, i);
    assert(step_spec(states[i], replies[i], states[i + 1], outs[i]));
    lemma_step_facts(states[i], replies[i], states[i + 1], outs[i]);
    assert(states[i].resume_from == resume_from);
    if emitted_progress(outs[i][a]) is Some {
        assert(!(states[i + 1].phase is AwaitInitialFree));
        lemma_target_stable(config, resume_from, states, replies, outs, i + 1, states.len() - 1);
    }
}

/// The order of what a run publishes. Its first publication is
/// `Running` with the bytes it resumed from and its target, unless the
/// first free-space reading was 0, which fails the run at once. It never
/// publishes `Idle`. A terminal state (`Completed`, `Cancelled`, `Failed`)
/// is published at most once, by the step that finishes the run, as that
/// step's first publication, followed by at most one progress snapshot;
/// nothing is published after that step. A run that finished has published
/// one.
pub proof fn lemma_run_order(
    config: WipeConfig,
    resume_from: u64,
    states: Seq<WipeRun>,
    replies: Seq<WipeReply>,
    outs: Seq<Seq<WipeEmit>>,
)
    requires
        is_trace(config, resume_from, states, replies, outs),
    ensures
        forall|i: int|
            #![trigger outs[i]]
            0 <= i < outs.len() && outs[i].len() > 0 && (forall|k: int| 0 <= k < i ==> #[trigger] outs[k].len()
                == 0) ==> (replies[i] matches WipeReply::FreeSpace(f) && ((f == 0 && outs[i].len() == 1
                && failed_with(outs[i], free_space_unreadable_message(), None)) || (f > 0 && outs[i] == seq![
                WipeEmit::State(WipeState::Running(first_progress(resume_from, f, config.target_fill_percent))),
            ]))),
        forall|i: int, a: int|
            0 <= i < outs.len() && 0 <= a < outs[i].len() ==> #[trigger] outs[i][a] != WipeEmit::State(
                WipeState::Idle,
            ),
        forall|i: int, a: int|
            0 <= i < outs.len() && 0 <= a < outs[i].len() && is_terminal_emit(#[trigger] outs[i][a]) ==> {
                &&& a == 0
                &&& outs[i].len() <= 2
                &&& (outs[i].len() == 2 ==> outs[i][1] is Progress)
                &&& states[i + 1].phase is Done
                &&& forall|j: int| i < j < outs.len() ==> #[trigger] outs[j].len() == 0
            },
        states.last().phase is Done ==> exists|i: int|
            0 <= i < outs.len() && outs[i].len() > 0 && is_terminal_emit(#[trigger] outs[i][0]),
{
    lemma_trace_inv(config, resume_from, states, replies, outs);
    assert forall|i: int|
        #![trigger outs[i]]
        0 <= i < outs.len() && outs[i].len() > 0 && (forall|k: int| 0 <= k < i ==> #[trigger] outs[k].len()
            == 0) implies (replies[i] matches WipeReply::FreeSpace(f) && ((f == 0 && outs[i].len() == 1
        && failed_with(outs[i], free_space_unreadable_message(), None)) || (f > 0 && outs[i] == seq![
        WipeEmit::State(WipeState::Running(first_progress(resume_from, f, config.target_fill_percent))),
    ]))) by {
        lemma_quiet_prefix(config, resume_from, states, replies, outs, i);
        assert(step_spec(states[i], replies[i], states[i + 1], outs[i]));
        lemma_step_facts(states[i], replies[i], states[i + 1], outs[i]);
    }
    assert forall|i: int, a: int| 0 <= i < outs.len() && 0 <= a < outs[i].len() implies #[trigger] outs[i][a]
        != WipeEmit::State(WipeState::Idle) by {
        assert(step_spec(states[i], replies[i], states[i + 1], outs[i]));
        lemma_step_facts(states[i], replies[i], states[i + 1], outs[i]);
    }
    assert forall|i: int, a: int|
        0 <= i < outs.len() && 0 <= a < outs[i].len() && is_terminal_emit(#[trigger] outs[i][a]) implies {
        &&& a == 0
        &&& outs[i].len() <= 2
        &&& (outs[i].len() == 2 ==> outs[i][1] is Progress)
        &&& states[i + 1].phase is Done
        &&& forall|j: int| i < j < outs.len() ==> #[trigger] outs[j].len() == 0
    } by {
        assert(step_spec(states[i], replies[i], states[i + 1], outs[i]));
        lemma_step_facts(states[i], replies[i], states[i + 1], outs[i]);
        lemma_done_stays(config, resume_from, states, replies, outs, i + 1, states.len() - 1);
    }
    if states.last().phase is Done {
        let i = lemma_finishing_step(config, resume_from, states, replies, outs, states.len() - 1);
        assert(step_spec(states[i], replies[i], states[i + 1], outs[i]));
        lemma_step_facts(states[i], replies[i], states[i + 1], outs[i]);
        assert(is_terminal_emit(outs[i][0]));
    }
}

/// A step that finished the run, when state `n` is finished.
proof fn lemma_finishing_step(
    config: WipeConfig,
    resume_from: u64,
    states: Seq<WipeRun>,
    replies: Seq<WipeReply>,
    outs: Seq<Seq<WipeEmit>>,
    n: int,
) -> (i: int)
    requires
        is_trace(config, resume_from, states, replies, outs),
        0 <= n < states.len(),
        states[n].phase is Done,
    ensures
        0 <= i < n,
        !(states[i].phase is Done),
        states[i + 1].phase is Done,
    decreases n,
{
    if n == 0 {
        assert(states[0].phase is AwaitInitialFree);
        0
    } else if !(states[n - 1].phase is Done) {
        n - 1
    } else {
        lemma_finishing_step(config, resume_from, states, replies, outs, n - 1)
    }
}

/// Dummy files are numbered in creation order: every file a run asks to
/// create carries the number of files it created before, counted modulo
/// 2^32 like the counter.
pub proof fn lemma_files_numbered_in_order(
    config: WipeConfig,
    resume_from: u64,
    states: Seq<WipeRun>,
    replies: Seq<WipeReply>,
    outs: Seq<Seq<WipeEmit>>,
    n: int,
)
    requires
        is_trace(config, resume_from, states, replies, outs),
        0 <= n < states.len(),
    ensures
        states[n].files as int == files_created_between(states, replies, 0, n) % 0x1_0000_0000,
        request_of(states[n]) matches WipeRequest::CreateFile { index } ==> index as int
            == files_created_between(states, replies, 0, n) % 0x1_0000_0000,
    decreases n,
{
    lemma_trace_inv(config, resume_from, states, replies, outs);
    if n > 0 {
        lemma_files_numbered_in_order(config, resume_from, states, replies, outs, n - 1);
        assert(step_spec(states[n - 1], replies[n - 1], states[n], outs[n - 1]));
        lemma_step_facts(states[n - 1], replies[n - 1], states[n], outs[n - 1]);
        let c = files_created_between(states, replies, 0, n - 1);
        let f = states[n - 1].files;
        if states[n - 1].phase is AwaitCreate && replies[n - 1] matches WipeReply::FileCreated(Ok(_)) {
            assert(files_created_between(states, replies, 0, n) == c + 1);
            assert(f.wrapping_add(1) as int == (c + 1) % 0x1_0000_0000) by (nonlinear_arith)
                requires
                    f as int == c % 0x1_0000_0000,
                    f.wrapping_add(1) as int == if f == 0xffff_ffff { 0 } else { f + 1 },
                    c >= 0,
            ;
        } else {
            assert(files_created_between(states, replies, 0, n) == c);
        }
    }
}

/// A run writes to, flushes or deletes only the dummy file it created
/// last: every such request is preceded by a successful creation, and the
/// file has stayed open since.
pub proof fn lemma_only_own_file_touched(
    config: WipeConfig,
    resume_from: u64,
    states: Seq<WipeRun>,
    replies: Seq<WipeReply>,
    outs: Seq<Seq<WipeEmit>>,
    n: int,
) -> (i: int)
    requires
        is_trace(config, resume_from, states, replies, outs),
        0 <= n < states.len(),
        request_of(states[n]) is Write || request_of(states[n]) is DiscardFile || request_of(states[n]) is Flush,
    ensures
        0 <= i < n,
        states[i].phase is AwaitCreate,
        replies[i] matches WipeReply::FileCreated(Ok(_)),
        forall|k: int| i < k <= n ==> file_open(#[trigger] states[k].phase),
{
    lemma_open_since(config, resume_from, states, replies, outs, n)
}

proof fn lemma_open_since(
    config: WipeConfig,
    resume_from: u64,
    states: Seq<WipeRun>,
    replies: Seq<WipeReply>,
    outs: Seq<Seq<WipeEmit>>,
    n: int,
) -> (i: int)
    requires
        is_trace(config, resume_from, states, replies, outs),
        0 <= n < states.len(),
        file_open(states[n].phase),
    ensures
        0 <= i < n,
        states[i].phase is AwaitCreate,
        replies[i] matches WipeReply::FileCreated(Ok(_)),
        forall|k: int| i < k <= n ==> file_open(#[trigger] states[k].phase),
    decreases n,
{
    lemma_trace_inv(config, resume_from, states, replies, outs);
    if n == 0 {
        assert(states[0].phase is AwaitInitialFree);
        0
    } else {
        assert(step_spec(states[n - 1], replies[n - 1], states[n], outs[n - 1]));
        lemma_step_facts(states[n - 1], replies[n - 1], states[n], outs[n - 1]);
        if file_open(states[n - 1].phase) {
            let i = lemma_open_since(config, resume_from, states, replies, outs, n - 1);
            assert forall|k: int| i < k <= n implies file_open(#[trigger] states[k].phase) by {
                if k < n {
                    assert(file_open(states[k].phase));
                }
            }
            i
        } else {
            n - 1
        }
    }
}

/// Whole-run byte accounting: at every point of a run, the bytes counted
/// as written are the bytes it resumed from plus the bytes of the dummy
/// files whose flush succeeded; and the terminal state reports exactly that
/// total. Bytes of a file that was discarded or whose flush failed are
/// never counted.
pub proof fn lemma_run_bytes_accounted(
    config: WipeConfig,
    resume_from: u64,
    states: Seq<WipeRun>,
    replies: Seq<WipeReply>,
    outs: Seq<Seq<WipeEmit>>,
    n: int,
)
    requires
        is_trace(config, resume_from, states, replies, outs),
        0 <= n < states.len(),
    ensures
        states[n].total == resume_from + flushed_bytes_between(states, replies, 0, n),
        n > 0 && outs[n - 1].len() > 0 && is_terminal_emit(outs[n - 1][0]) ==> (emitted_progress(
            outs[n - 1][0],
        ) matches Some(p) ==> p.bytes_written_total == resume_from + flushed_bytes_between(
            states,
            replies,
            0,
            n,
        )),
    decreases n,
{
    lemma_trace_inv(config, resume_from, states, replies, outs);
    if n > 0 {
        lemma_run_bytes_accounted(config, resume_from, states, replies, outs, n - 1);
        assert(step_spec(states[n - 1], replies[n - 1], states[n], outs[n - 1]));
        lemma_step_facts(states[n - 1], replies[n - 1], states[n], outs[n - 1]);
    }
}

/// Step `k` answered a write request with success.
pub open spec fn write_ok(states: Seq<WipeRun>, replies: Seq<WipeReply>, k: int) -> bool {
    states[k].phase is AwaitWrite && replies[k] matches WipeReply::Written(Ok(_))
}

/// Bytes of the writes answered with success among steps `from..to`.
pub open spec fn written_ok_between(states: Seq<WipeRun>, replies: Seq<WipeReply>, from: int, to: int) -> nat
    decreases to - from,
{
    if to <= from {
        0
    } else {
        let k = to - 1;
        let before = written_ok_between(states, replies, from, k);
        match (states[k].phase, replies[k]) {
            (Phase::AwaitWrite { size }, WipeReply::Written(Ok(_))) => before + size as nat,
            _ => before,
        }
    }
}

/// The dummy file created successfully at step `c` is still open at state
/// `n`.
pub open spec fn open_since(states: Seq<WipeRun>, replies: Seq<WipeReply>, c: int, n: int) -> bool {
    &&& 0 <= c < n < states.len()
    &&& c < replies.len()
    &&& states[c].phase is AwaitCreate
    &&& replies[c] matches WipeReply::FileCreated(Ok(_))
    &&& forall|k: int| c < k <= n ==> file_open(#[trigger] states[k].phase)
}

proof fn lemma_step_file_facts(pre: WipeRun, reply: WipeReply, post: WipeRun, out: Seq<WipeEmit>)
    requires
        pre.inv(),
        step_spec(pre, reply, post, out),
    ensures
        (pre.phase is AwaitCreate && (reply matches WipeReply::FileCreated(Ok(_)))) ==> post.chunk_written
            == 0 && post.current_speed == 0 && post.total == pre.total,
        match (pre.phase, reply) {
            (Phase::AwaitWrite { size }, WipeReply::Written(Ok(sample))) => {
                &&& out == seq![WipeEmit::Progress(post.progress)]
                &&& post.progress.bytes_written_total == pre.total + pre.chunk_written + size
                &&& post.chunk_written == pre.chunk_written + size
                &&& post.total == pre.total
                &&& post.progress.current_write_speed_bytes_per_sec == match sample {
                    Some(v) => v,
                    None => pre.current_speed,
                }
                &&& post.current_speed == post.progress.current_write_speed_bytes_per_sec
            },
            _ => true,
        },
        (file_open(pre.phase) && file_open(post.phase) && !(pre.phase is AwaitWrite && (reply matches WipeReply::Written(
            Ok(_),
        )))) ==> post.chunk_written == pre.chunk_written && post.current_speed == pre.current_speed && post.total
            == pre.total,
        ((reply matches WipeReply::Control { cancelled: true, .. }) && reply_fits(pre, reply)) ==> post.cancel_seen,
{
    lemma_step_keeps_inv(pre, reply, post, out);
}

/// Inside an open file, the bytes counted for it are the writes answered
/// with success since its creation, and the completed-file total stays.
proof fn lemma_open_file_accounting(
    config: WipeConfig,
    resume_from: u64,
    states: Seq<WipeRun>,
    replies: Seq<WipeReply>,
    outs: Seq<Seq<WipeEmit>>,
    c: int,
    n: int,
)
    requires
        is_trace(config, resume_from, states, replies, outs),
        open_since(states, replies, c, n),
    ensures
        states[n].chunk_written == written_ok_between(states, replies, c + 1, n),
        states[n].total == states[c].total,
    decreases n - c,
{
    lemma_trace_inv(config, resume_from, states, replies, outs);
    if n == c + 1 {
        assert(step_spec(states[c], replies[c], states[c + 1], outs[c]));
        lemma_step_file_facts(states[c], replies[c], states[c + 1], outs[c]);
    } else {
        assert(file_open(states[n - 1].phase));
        lemma_open_file_accounting(config, resume_from, states, replies, outs, c, n - 1);
        assert(file_open(states[n].phase));
        assert(step_spec(states[n - 1], replies[n - 1], states[n], outs[n - 1]));
        lemma_step_file_facts(states[n - 1], replies[n - 1], states[n], outs[n - 1]);
    }
}

/// Progress while a dummy file is being written counts every byte written
/// so far: the snapshot a successful write publishes is the bytes the run
/// resumed from, plus the bytes of the dummy files whose flush succeeded,
/// plus all the bytes written with success into the open file since it
/// was created, this write included.
pub proof fn lemma_write_progress_counts_open_file(
    config: WipeConfig,
    resume_from: u64,
    states: Seq<WipeRun>,
    replies: Seq<WipeReply>,
    outs: Seq<Seq<WipeEmit>>,
    c: int,
    i: int,
)
    requires
        is_trace(config, resume_from, states, replies, outs),
        open_since(states, replies, c, i),
        i < replies.len(),
        write_ok(states, replies, i),
    ensures
        outs[i].len() == 1,
        outs[i][0] matches WipeEmit::Progress(p) && p.bytes_written_total == resume_from
            + flushed_bytes_between(states, replies, 0, i) + written_ok_between(states, replies, c + 1, i + 1),
{
    lemma_trace_inv(config, resume_from, states, replies, outs);
    lemma_open_file_accounting(config, resume_from, states, replies, outs, c, i);
    lemma_run_bytes_accounted(config, resume_from, states, replies, outs, i);
    assert(step_spec(states[i], replies[i], states[i + 1], outs[i]));
    lemma_step_file_facts(states[i], replies[i], states[i + 1], outs[i]);
}

/// Between the write at step `j` and state `m` of the same open file, with
/// no new speed sample in between, the speed held is the one step `j`
/// published.
proof fn lemma_speed_held(
    config: WipeConfig,
    resume_from: u64,
    states: Seq<WipeRun>,
    replies: Seq<WipeReply>,
    outs: Seq<Seq<WipeEmit>>,
    c: int,
    j: int,
    m: int,
)
    requires
        is_trace(config, resume_from, states, replies, outs),
        open_since(states, replies, c, m),
        c < j < m,
        write_ok(states, replies, j),
        forall|k: int| j < k < m && write_ok(states, replies, k) ==> (#[trigger] replies[k] matches WipeReply::Written(
            Ok(None),
        )),
    ensures
        outs[j][0] matches WipeEmit::Progress(p) && states[m].current_speed
            == p.current_write_speed_bytes_per_sec,
    decreases m - j,
{
    lemma_trace_inv(config, resume_from, states, replies, outs);
    assert(step_spec(states[j], replies[j], states[j + 1], outs[j]));
    lemma_step_file_facts(states[j], replies[j], states[j + 1], outs[j]);
    if m > j + 1 {
        assert(file_open(states[m - 1].phase));
        lemma_speed_held(config, resume_from, states, replies, outs, c, j, m - 1);
        assert(file_open(states[m].phase));
        assert(step_spec(states[m - 1], replies[m - 1], states[m], outs[m - 1]));
        lemma_step_file_facts(states[m - 1], replies[m - 1], states[m], outs[m - 1]);
        if write_ok(states, replies, m - 1) {
            assert(replies[m - 1] matches WipeReply::Written(Ok(None)));
        }
    }
}

/// Within one dummy file, a write that closes no speed window publishes
/// the same speed as the snapshot of the previous successful write there:
/// the last reading is kept until the next sample.
pub proof fn lemma_speed_kept_between_samples(
    config: WipeConfig,
    resume_from: u64,
    states: Seq<WipeRun>,
    replies: Seq<WipeReply>,
    outs: Seq<Seq<WipeEmit>>,
    c: int,
    j: int,
    i: int,
)
    requires
        is_trace(config, resume_from, states, replies, outs),
        open_since(states, replies, c, i),
        c < j < i < replies.len(),
        write_ok(states, replies, j),
        states[i].phase is AwaitWrite,
        replies[i] matches WipeReply::Written(Ok(None)),
        forall|k: int| j < k < i && write_ok(states, replies, k) ==> (#[trigger] replies[k] matches WipeReply::Written(
            Ok(None),
        )),
    ensures
        outs[j][0] matches WipeEmit::Progress(p) && outs[i][0] matches WipeEmit::Progress(q)
            && q.current_write_speed_bytes_per_sec == p.current_write_speed_bytes_per_sec,
{
    lemma_trace_inv(config, resume_from, states, replies, outs);
    lemma_speed_held(config, resume_from, states, replies, outs, c, j, i);
    assert(step_spec(states[i], replies[i], states[i + 1], outs[i]));
    lemma_step_file_facts(states[i], replies[i], states[i + 1], outs[i]);
}

proof fn lemma_cancel_seen_after(
    config: WipeConfig,
    resume_from: u64,
    states: Seq<WipeRun>,
    replies: Seq<WipeReply>,
    outs: Seq<Seq<WipeEmit>>,
    i: int,
    j: int,
)
    requires
        is_trace(config, resume_from, states, replies, outs),
        0 <= i < j < states.len(),
        replies[i] matches WipeReply::Control { cancelled: true, .. },
        reply_fits(states[i], replies[i]),
    ensures
        states[j].cancel_seen,
    decreases j - i,
{
    lemma_trace_inv(config, resume_from, states, replies, outs);
    if j == i + 1 {
        assert(step_spec(states[i], replies[i], states[i + 1], outs[i]));
        lemma_step_file_facts(states[i], replies[i], states[i + 1], outs[i]);
    } else {
        lemma_cancel_seen_after(config, resume_from, states, replies, outs, i, j - 1);
        assert(step_spec(states[j - 1], replies[j - 1], states[j], outs[j - 1]));
        lemma_cancel_is_final(states[j - 1], replies[j - 1], states[j], outs[j - 1]);
    }
}

/// Cancellation is final from the reply that reports it: once a control
/// reading that reports `cancelled` is taken, no later request creates or
/// writes a dummy file.
pub proof fn lemma_cancel_reply_is_final(
    config: WipeConfig,
    resume_from: u64,
    states: Seq<WipeRun>,
    replies: Seq<WipeReply>,
    outs: Seq<Seq<WipeEmit>>,
    i: int,
    j: int,
)
    requires
        is_trace(config, resume_from, states, replies, outs),
        0 <= i < j < states.len(),
        replies[i] matches WipeReply::Control { cancelled: true, .. },
        reply_fits(states[i], replies[i]),
    ensures
        !(request_of(states[j]) is CreateFile),
        !(request_of(states[j]) is Write),
{
    lemma_trace_inv(config, resume_from, states, replies, outs);
    lemma_cancel_seen_after(config, resume_from, states, replies, outs, i, j);
    assert(states[j].inv());
}

} // verus!
