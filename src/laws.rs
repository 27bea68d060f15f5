//! Properties that relate several operations of the library.
use vstd::prelude::*;
use crate::breakpoints::{met, triggers, BreakpointConditionMode, HitCountCondition, Breakpoint};
use crate::evaluator::truth;
use crate::runtime::{at_location, break_outcome, DebuggerRuntime};
use crate::variables::Variable;
use crate::async_tasks::{lemma_tree_items_parent_first, tree_listing, AsyncTaskInfo};
use crate::channel::{next_count, has_breakpoint_hit, is_payload_of, queue_outcome, DebuggerMessage, MessageQueue, FLUSH_INTERVAL_MS, MAX_BATCH_SIZE};

verus! {

/// Breakpoint ids are unique and increase from the oldest breakpoint to the
/// newest; every one of them is below the id the next breakpoint gets, which
/// each addition hands out and then advances by one.
pub proof fn law_breakpoint_ids_increase(rt: DebuggerRuntime)
    requires
        rt.wf(),
    ensures
        forall|i: int, j: int|
            0 <= i < j < rt.bps().len() ==> #[trigger] rt.bps()[i].id < #[trigger] rt.bps()[j].id,
        forall|i: int, j: int|
            0 <= i < rt.bps().len() && 0 <= j < rt.bps().len() && i != j ==> #[trigger] rt.bps()[i].id
                != #[trigger] rt.bps()[j].id,
        forall|i: int| 0 <= i < rt.bps().len() ==> #[trigger] rt.bps()[i].id < rt.next_bp_id(),
{
    assert forall|i: int, j: int|
        0 <= i < rt.bps().len() && 0 <= j < rt.bps().len() && i != j implies #[trigger] rt.bps()[i].id
        != #[trigger] rt.bps()[j].id by {
        if i < j {
            assert(rt.bps()[i].id < rt.bps()[j].id);
        } else {
            assert(rt.bps()[j].id < rt.bps()[i].id);
        }
    }
}

/// Where `k` is the only breakpoint at the reached location, the reach
/// counts one more hit on it and pauses exactly when that breakpoint
/// triggers with its new count.
pub proof fn law_single_breakpoint_reach(
    before: Seq<Breakpoint>,
    after: Seq<Breakpoint>,
    vars: Seq<Variable>,
    file: Seq<char>,
    line: u32,
    r: bool,
    k: int,
)
    requires
        break_outcome(before, after, vars, file, line, r),
        0 <= k < before.len(),
        at_location(before[k], file, line),
        forall|j: int| 0 <= j < before.len() && j != k ==> !at_location(#[trigger] before[j], file, line),
        before[k].hit_count < u32::MAX,
    ensures
        after[k].hit_count == before[k].hit_count + 1,
        after[k].condition_mode == before[k].condition_mode,
        after[k].enabled == before[k].enabled,
        r == triggers(after[k], vars),
{
    assert(at_location(after[k], file, line));
    if r {
        let i = choose|i: int|
            0 <= i < after.len() && at_location(after[i], file, line) && triggers(
                #[trigger] after[i],
                vars,
            );
        if i != k {
            assert(!at_location(before[i], file, line));
            assert(after[i] == before[i]);
        }
    }
}

/// A breakpoint that pauses when its hit count equals `n` pauses on the
/// reach that brings the count to `n` and on no other, while every reach
/// still counts.
pub proof fn law_hit_count_equals(
    before: Seq<Breakpoint>,
    after: Seq<Breakpoint>,
    vars: Seq<Variable>,
    file: Seq<char>,
    line: u32,
    r: bool,
    k: int,
    n: u32,
)
    requires
        break_outcome(before, after, vars, file, line, r),
        0 <= k < before.len(),
        at_location(before[k], file, line),
        forall|j: int| 0 <= j < before.len() && j != k ==> !at_location(#[trigger] before[j], file, line),
        before[k].hit_count < u32::MAX,
        before[k].enabled,
        before[k].condition_mode == BreakpointConditionMode::HitCount(HitCountCondition::Equals(n)),
    ensures
        after[k].hit_count == before[k].hit_count + 1,
        r <==> after[k].hit_count == n,
{
    law_single_breakpoint_reach(before, after, vars, file, line, r, k);
}

/// A breakpoint that pauses on multiples of `m` pauses on the reaches that
/// bring its count to `m`, `2m`, `3m`, and on no other.
pub proof fn law_hit_count_multiple(
    before: Seq<Breakpoint>,
    after: Seq<Breakpoint>,
    vars: Seq<Variable>,
    file: Seq<char>,
    line: u32,
    r: bool,
    k: int,
    m: u32,
)
    requires
        break_outcome(before, after, vars, file, line, r),
        0 <= k < before.len(),
        at_location(before[k], file, line),
        forall|j: int| 0 <= j < before.len() && j != k ==> !at_location(#[trigger] before[j], file, line),
        before[k].hit_count < u32::MAX,
        before[k].enabled,
        before[k].condition_mode == BreakpointConditionMode::HitCount(HitCountCondition::Multiple(m)),
        m > 0,
    ensures
        after[k].hit_count == before[k].hit_count + 1,
        r <==> after[k].hit_count % m == 0,
{
    law_single_breakpoint_reach(before, after, vars, file, line, r, k);
}

/// A breakpoint with both an expression and a hit-count condition pauses
/// exactly when both hold on the same reach.
pub proof fn law_combined_condition(
    before: Seq<Breakpoint>,
    after: Seq<Breakpoint>,
    vars: Seq<Variable>,
    file: Seq<char>,
    line: u32,
    r: bool,
    k: int,
    expression: String,
    hit_count: HitCountCondition,
)
    requires
        break_outcome(before, after, vars, file, line, r),
        0 <= k < before.len(),
        at_location(before[k], file, line),
        forall|j: int| 0 <= j < before.len() && j != k ==> !at_location(#[trigger] before[j], file, line),
        before[k].hit_count < u32::MAX,
        before[k].enabled,
        before[k].condition_mode == (BreakpointConditionMode::Combined { expression, hit_count }),
    ensures
        r <==> met(hit_count, after[k].hit_count) && truth(
            expression@,
            0,
            expression@.len() as int,
            vars,
        ),
{
    law_single_breakpoint_reach(before, after, vars, file, line, r, k);
}


/// Queuing a breakpoint hit onto an open queue with no payload in flight
/// flushes at once, whatever the number of events waiting.
pub proof fn law_breakpoint_hit_flushes(
    before: MessageQueue,
    after: MessageQueue,
    msg: DebuggerMessage,
    now: u64,
    r: Option<DebuggerMessage>,
)
    requires
        queue_outcome(before, after, msg, now, r),
        before.active,
        !before.flush_in_progress,
        msg is BreakpointHit,
    ensures
        r matches Some(m) && is_payload_of(m, before.pending@.push(msg)),
        after.flush_count == next_count(before.flush_count),
        after.pending@.len() == 0,
{
    let queued = before.pending@.push(msg);
    assert(queued[queued.len() - 1] is BreakpointHit);
    assert(has_breakpoint_hit(queued));
}

/// The states after each of the first `i` queuings hold the first `i`
/// events and no flush happened, while fewer than a batch were queued.
proof fn lemma_batch_prefix(
    qs: Seq<MessageQueue>,
    msgs: Seq<DebuggerMessage>,
    nows: Seq<u64>,
    rs: Seq<Option<DebuggerMessage>>,
    i: int,
)
    requires
        qs.len() == MAX_BATCH_SIZE + 1,
        msgs.len() == MAX_BATCH_SIZE,
        nows.len() == MAX_BATCH_SIZE,
        rs.len() == MAX_BATCH_SIZE,
        forall|k: int| 0 <= k < MAX_BATCH_SIZE ==> #[trigger] queue_outcome(qs[k], qs[k + 1], msgs[k], nows[k], rs[k]),
        qs[0].active,
        !qs[0].flush_in_progress,
        qs[0].pending@.len() == 0,
        forall|k: int| 0 <= k < MAX_BATCH_SIZE ==> !(#[trigger] msgs[k] is BreakpointHit),
        forall|k: int| 0 <= k < MAX_BATCH_SIZE ==> #[trigger] nows[k] <= qs[0].last_flush + FLUSH_INTERVAL_MS,
        0 <= i < MAX_BATCH_SIZE,
    ensures
        qs[i].pending@ == msgs.subrange(0, i),
        qs[i].active,
        !qs[i].flush_in_progress,
        qs[i].last_flush == qs[0].last_flush,
        qs[i].flush_count == qs[0].flush_count,
        forall|k: int| 0 <= k < i ==> #[trigger] rs[k] is None,
    decreases i,
{
    if i == 0 {
        assert(qs[0].pending@ =~= msgs.subrange(0, 0));
    } else {
        lemma_batch_prefix(qs, msgs, nows, rs, i - 1);
        let q = qs[i - 1];
        let queued = q.pending@.push(msgs[i - 1]);
        assert(queued =~= msgs.subrange(0, i));
        assert(queue_outcome(qs[i - 1], qs[i], msgs[i - 1], nows[i - 1], rs[i - 1]));
        assert(!has_breakpoint_hit(queued)) by {
            assert forall|j: int| 0 <= j < queued.len() implies !(#[trigger] queued[j] is BreakpointHit) by {
                assert(queued[j] == msgs[j]);
            }
        }
    }
}

/// Queuing a full batch of events that are not breakpoint hits onto an
/// empty open queue, within the flush interval and with no explicit flush,
/// flushes exactly once: on the last event, sending all of them in order.
pub proof fn law_full_batch_flushes_once(
    qs: Seq<MessageQueue>,
    msgs: Seq<DebuggerMessage>,
    nows: Seq<u64>,
    rs: Seq<Option<DebuggerMessage>>,
)
    requires
        qs.len() == MAX_BATCH_SIZE + 1,
        msgs.len() == MAX_BATCH_SIZE,
        nows.len() == MAX_BATCH_SIZE,
        rs.len() == MAX_BATCH_SIZE,
        forall|k: int| 0 <= k < MAX_BATCH_SIZE ==> #[trigger] queue_outcome(qs[k], qs[k + 1], msgs[k], nows[k], rs[k]),
        qs[0].active,
        !qs[0].flush_in_progress,
        qs[0].pending@.len() == 0,
        forall|k: int| 0 <= k < MAX_BATCH_SIZE ==> !(#[trigger] msgs[k] is BreakpointHit),
        forall|k: int| 0 <= k < MAX_BATCH_SIZE ==> #[trigger] nows[k] <= qs[0].last_flush + FLUSH_INTERVAL_MS,
    ensures
        qs[MAX_BATCH_SIZE as int].flush_count == next_count(qs[0].flush_count),
        qs[MAX_BATCH_SIZE as int].pending@.len() == 0,
        forall|k: int| 0 <= k < MAX_BATCH_SIZE - 1 ==> #[trigger] rs[k] is None,
        rs[MAX_BATCH_SIZE - 1] matches Some(m) && is_payload_of(m, msgs),
{
    let last = MAX_BATCH_SIZE - 1;
    lemma_batch_prefix(qs, msgs, nows, rs, last as int);
    let q = qs[last as int];
    let queued = q.pending@.push(msgs[last as int]);
    assert(queued =~= msgs);
    assert(queue_outcome(qs[last as int], qs[last + 1], msgs[last as int], nows[last as int], rs[last as int]));
}


/// In the task tree, whatever the parent/child graph of the tasks, a task
/// with a parent is shown only after a task that bears its parent's id, and
/// one level deeper than it; a task without a parent is shown at the top
/// level. The lines of the tree follow this listing (see `tree_text`).
pub proof fn law_task_tree_parent_first(ts: Seq<AsyncTaskInfo>)
    ensures
        forall|q: int|
            0 <= q < tree_listing(ts).len() && (#[trigger] ts[tree_listing(ts)[q].0]).parent_id is Some
                ==> exists|p: int|
                0 <= p < q && Some(ts[tree_listing(ts)[p].0].id) == ts[tree_listing(ts)[q].0].parent_id
                    && tree_listing(ts)[p].1 + 1 == tree_listing(ts)[q].1,
        forall|q: int|
            0 <= q < tree_listing(ts).len() && (#[trigger] ts[tree_listing(ts)[q].0]).parent_id is None
                ==> tree_listing(ts)[q].1 == 0,
{
    lemma_tree_items_parent_first(ts, None, 0, ts.len(), 0);
}


/// Over reaches `0..i` of a location where breakpoint `j` is the only one,
/// starting from no hits: the breakpoint has counted `i` hits and kept its
/// other fields, and each reach paused exactly when it triggered.
proof fn lemma_reach_prefix(
    bpss: Seq<Seq<Breakpoint>>,
    varss: Seq<Seq<Variable>>,
    rs: Seq<bool>,
    file: Seq<char>,
    line: u32,
    j: int,
    i: int,
)
    requires
        bpss.len() == rs.len() + 1,
        varss.len() == rs.len(),
        rs.len() < u32::MAX,
        forall|n: int| 0 <= n < rs.len() ==> #[trigger] break_outcome(bpss[n], bpss[n + 1], varss[n], file, line, rs[n]),
        0 <= j < bpss[0].len(),
        at_location(bpss[0][j], file, line),
        forall|m: int| 0 <= m < bpss[0].len() && m != j ==> !at_location(#[trigger] bpss[0][m], file, line),
        bpss[0][j].hit_count == 0,
        0 <= i <= rs.len(),
    ensures
        bpss[i].len() == bpss[0].len(),
        bpss[i][j].hit_count == i,
        bpss[i][j] == (Breakpoint { hit_count: bpss[i][j].hit_count, last_hit: bpss[i][j].last_hit, ..bpss[0][j] }),
        forall|m: int| 0 <= m < bpss[i].len() && m != j ==> !at_location(#[trigger] bpss[i][m], file, line),
        i > 0 ==> rs[i - 1] == triggers(bpss[i][j], varss[i - 1]),
    decreases i,
{
    if i > 0 {
        lemma_reach_prefix(bpss, varss, rs, file, line, j, i - 1);
        let n = i - 1;
        assert(break_outcome(bpss[n], bpss[n + 1], varss[n], file, line, rs[n]));
        assert forall|m: int| 0 <= m < bpss[i].len() && m != j implies !at_location(#[trigger] bpss[i][m], file, line) by {
            assert(!at_location(bpss[n][m], file, line));
        }
        law_single_breakpoint_reach(bpss[n], bpss[i], varss[n], file, line, rs[n], j);
    }
}

/// Reaching a location `k` times in a row, where breakpoint `j` is the only
/// one and has no hits yet, counts one hit per reach, including reaches that
/// do not pause, and pauses on the `n`-th reach exactly when the breakpoint
/// triggers with count `n`.
pub proof fn law_reach_sequence(
    bpss: Seq<Seq<Breakpoint>>,
    varss: Seq<Seq<Variable>>,
    rs: Seq<bool>,
    file: Seq<char>,
    line: u32,
    j: int,
)
    requires
        bpss.len() == rs.len() + 1,
        varss.len() == rs.len(),
        rs.len() < u32::MAX,
        forall|n: int| 0 <= n < rs.len() ==> #[trigger] break_outcome(bpss[n], bpss[n + 1], varss[n], file, line, rs[n]),
        0 <= j < bpss[0].len(),
        at_location(bpss[0][j], file, line),
        forall|m: int| 0 <= m < bpss[0].len() && m != j ==> !at_location(#[trigger] bpss[0][m], file, line),
        bpss[0][j].hit_count == 0,
    ensures
        forall|i: int|
            0 <= i <= rs.len() ==> (#[trigger] bpss[i])[j].hit_count == i && bpss[i][j] == (Breakpoint {
                hit_count: bpss[i][j].hit_count,
                last_hit: bpss[i][j].last_hit,
                ..bpss[0][j]
            }),
        forall|i: int| 0 <= i < rs.len() ==> #[trigger] rs[i] == triggers(bpss[i + 1][j], varss[i]),
{
    assert forall|i: int| 0 <= i <= rs.len() implies (#[trigger] bpss[i])[j].hit_count == i && bpss[i][j] == (
    Breakpoint { hit_count: bpss[i][j].hit_count, last_hit: bpss[i][j].last_hit, ..bpss[0][j] }) by {
        lemma_reach_prefix(bpss, varss, rs, file, line, j, i);
    }
    assert forall|i: int| 0 <= i < rs.len() implies #[trigger] rs[i] == triggers(bpss[i + 1][j], varss[i]) by {
        lemma_reach_prefix(bpss, varss, rs, file, line, j, i + 1);
    }
}

/// Over `k` reaches in a row of a location whose only breakpoint pauses when
/// its hit count equals `n`, only the `n`-th reach pauses, and the count
/// still rises by one on every reach.
pub proof fn law_hit_count_equals_over_reaches(
    bpss: Seq<Seq<Breakpoint>>,
    varss: Seq<Seq<Variable>>,
    rs: Seq<bool>,
    file: Seq<char>,
    line: u32,
    j: int,
    n: u32,
)
    requires
        bpss.len() == rs.len() + 1,
        varss.len() == rs.len(),
        rs.len() < u32::MAX,
        forall|i: int| 0 <= i < rs.len() ==> #[trigger] break_outcome(bpss[i], bpss[i + 1], varss[i], file, line, rs[i]),
        0 <= j < bpss[0].len(),
        at_location(bpss[0][j], file, line),
        forall|m: int| 0 <= m < bpss[0].len() && m != j ==> !at_location(#[trigger] bpss[0][m], file, line),
        bpss[0][j].hit_count == 0,
        bpss[0][j].enabled,
        bpss[0][j].condition_mode == BreakpointConditionMode::HitCount(HitCountCondition::Equals(n)),
    ensures
        forall|i: int| 0 <= i <= rs.len() ==> (#[trigger] bpss[i])[j].hit_count == i,
        forall|i: int| 0 <= i < rs.len() ==> (#[trigger] rs[i] <==> i + 1 == n),
{
    law_reach_sequence(bpss, varss, rs, file, line, j);
    assert forall|i: int| 0 <= i < rs.len() implies (#[trigger] rs[i] <==> i + 1 == n) by {
        assert(bpss[i + 1][j].hit_count == i + 1);
    }
}

/// Over `k` reaches in a row of a location whose only breakpoint pauses on
/// multiples of `m`, the reaches `m`, `2m`, ... pause and no other.
pub proof fn law_hit_count_multiple_over_reaches(
    bpss: Seq<Seq<Breakpoint>>,
    varss: Seq<Seq<Variable>>,
    rs: Seq<bool>,
    file: Seq<char>,
    line: u32,
    j: int,
    m: u32,
)
    requires
        bpss.len() == rs.len() + 1,
        varss.len() == rs.len(),
        rs.len() < u32::MAX,
        forall|i: int| 0 <= i < rs.len() ==> #[trigger] break_outcome(bpss[i], bpss[i + 1], varss[i], file, line, rs[i]),
        0 <= j < bpss[0].len(),
        at_location(bpss[0][j], file, line),
        forall|q: int| 0 <= q < bpss[0].len() && q != j ==> !at_location(#[trigger] bpss[0][q], file, line),
        bpss[0][j].hit_count == 0,
        bpss[0][j].enabled,
        bpss[0][j].condition_mode == BreakpointConditionMode::HitCount(HitCountCondition::Multiple(m)),
        m > 0,
    ensures
        forall|i: int| 0 <= i <= rs.len() ==> (#[trigger] bpss[i])[j].hit_count == i,
        forall|i: int| 0 <= i < rs.len() ==> (#[trigger] rs[i] <==> (i + 1) % (m as int) == 0),
{
    law_reach_sequence(bpss, varss, rs, file, line, j);
    assert forall|i: int| 0 <= i < rs.len() implies (#[trigger] rs[i] <==> (i + 1) % (m as int) == 0) by {
        assert(bpss[i + 1][j].hit_count == i + 1);
    }
}

} // verus!
