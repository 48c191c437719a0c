//! The decision core of a worker's completion loop.
//!
//! A worker submits pending entries and blocks until completions arrive;
//! that suspension is the front end's. Everything decided about a
//! delivered batch happens here: each completion is dispatched, in kernel
//! delivery order, to the connection its correlation id names; the
//! deadline sentinel only marks that the benchmark is over — the rest of
//! the already-delivered batch is still honoured, so no completion is ever
//! dropped. The caller keeps looping until `deadline` is reported.

use vstd::prelude::*;

verus! {

use crate::ring::{Completion, Op, DEADLINE_USER_DATA};
use crate::settings::{Protocol, TargetAddr};
use crate::stats::{Statistics, StatsView};
use crate::tasks::{
    bumped, lemma_pool_step_deltas, pool_step, PoolModel, ThreadLocalTasking, BUF_WORDS,
};

/// What draining one batch yields: the submissions to push next, error
/// codes to log, whether the deadline sentinel was seen, and whether a
/// connection hit a fatal error (the worker must then abort).
pub struct BatchResult {
    pub ops: Vec<Op>,
    pub logged: Vec<i32>,
    pub deadline: bool,
    pub fatal: bool,
}

/// The effect of draining a batch, at the specification level.
pub struct DrainResult {
    pub pool: PoolModel,
    pub stats: StatsView,
    pub ops: Seq<Op>,
    pub logged: Seq<i32>,
    pub deadline: bool,
    pub fatal: bool,
}

/// The views of a sequence of word buffers.
pub open spec fn views_of(rs: Seq<Vec<u64>>) -> Seq<Seq<u64>> {
    rs.map_values(|v: Vec<u64>| v@)
}

/// Folding the completions of `batch` from position `i` on into the pool:
/// sentinels mark the deadline and are not dispatched; every other
/// completion takes one `pool_step`; a fatal step stops the fold at once.
/// `deadline`, `ops` and `logged` accumulate what was decided before `i`.
pub open spec fn drain_from(
    p: PoolModel,
    st: StatsView,
    batch: Seq<Completion>,
    received: Seq<Seq<u64>>,
    i: int,
    deadline: bool,
    ops: Seq<Op>,
    logged: Seq<i32>,
    proto: Protocol,
    target: TargetAddr,
) -> DrainResult
    decreases batch.len() - i,
{
    if i < 0 || i >= batch.len() {
        DrainResult { pool: p, stats: st, ops, logged, deadline, fatal: false }
    } else if batch[i].user_data == DEADLINE_USER_DATA {
        drain_from(p, st, batch, received, i + 1, true, ops, logged, proto, target)
    } else {
        let r = pool_step(p, batch[i], received[i], proto, target);
        let st2 = bumped(st, r.failed_delta, r.wrong_delta, r.ok_delta);
        let logged2 = if r.log_errno is Some {
            logged.push(r.log_errno->Some_0)
        } else {
            logged
        };
        if r.fatal {
            DrainResult { pool: r.pool, stats: st2, ops, logged: logged2, deadline, fatal: true }
        } else {
            let ops2 = if r.submit is Some {
                ops.push(r.submit->Some_0)
            } else {
                ops
            };
            drain_from(r.pool, st2, batch, received, i + 1, deadline, ops2, logged2, proto, target)
        }
    }
}

/// Statistics only ever grow while a batch is drained: no completion can
/// decrease a counter, and the latency fields are untouched. With a
/// byte-perfect echo each cycle adds to the success counter and
/// `wrong_return` stays where it was (`lemma_perfect_echo`), so it grows
/// monotonically across batches.
pub proof fn lemma_drain_counters_monotone(
    p: PoolModel,
    st: StatsView,
    batch: Seq<Completion>,
    received: Seq<Seq<u64>>,
    i: int,
    deadline: bool,
    ops: Seq<Op>,
    logged: Seq<i32>,
    proto: Protocol,
    target: TargetAddr,
)
    ensures
        ({
            let d = drain_from(p, st, batch, received, i, deadline, ops, logged, proto, target);
            &&& d.stats.failed_connections >= st.failed_connections
            &&& d.stats.wrong_return >= st.wrong_return
            &&& d.stats.successful_returns >= st.successful_returns
            &&& d.stats.min_nanos == st.min_nanos
            &&& d.stats.max_nanos == st.max_nanos
            &&& d.stats.nanos_spent == st.nanos_spent
        }),
    decreases batch.len() - i,
{
    if i < 0 || i >= batch.len() {
    } else if batch[i].user_data == DEADLINE_USER_DATA {
        lemma_drain_counters_monotone(
            p,
            st,
            batch,
            received,
            i + 1,
            true,
            ops,
            logged,
            proto,
            target,
        );
    } else {
        let r = pool_step(p, batch[i], received[i], proto, target);
        lemma_pool_step_deltas(p, batch[i], received[i], proto, target);
        let st2 = bumped(st, r.failed_delta, r.wrong_delta, r.ok_delta);
        let logged2 = if r.log_errno is Some {
            logged.push(r.log_errno->Some_0)
        } else {
            logged
        };
        if !r.fatal {
            let ops2 = if r.submit is Some {
                ops.push(r.submit->Some_0)
            } else {
                ops
            };
            lemma_drain_counters_monotone(
                r.pool,
                st2,
                batch,
                received,
                i + 1,
                deadline,
                ops2,
                logged2,
                proto,
                target,
            );
        }
    }
}

/// Drain one delivered batch completely, in order. `received[i]` holds the
/// words found in the receive buffer of the completion's connection when
/// `batch[i]` was delivered. The effect is exactly the `drain_from` fold
/// over the whole batch.
pub fn drain_batch(
    tasking: &mut ThreadLocalTasking,
    batch: &Vec<Completion>,
    received: &Vec<Vec<u64>>,
    proto: Protocol,
    target: &TargetAddr,
    stats: &mut Statistics,
) -> (r: BatchResult)
    requires
        old(tasking).wf(),
        batch@.len() == received@.len(),
        forall|m: int|
            0 <= m < batch@.len() ==> (#[trigger] batch@[m]).user_data == DEADLINE_USER_DATA || (
            batch@[m].user_data as int) < old(tasking).tasks@.len(),
        forall|m: int| 0 <= m < received@.len() ==> (#[trigger] received@[m])@.len() == BUF_WORDS,
        old(stats).failed_connections + batch@.len() <= u64::MAX,
        old(stats).wrong_return + batch@.len() <= u64::MAX,
        old(stats).successful_returns + batch@.len() <= u64::MAX,
    ensures
        ({
            let d = drain_from(
                old(tasking).model(),
                old(stats)@,
                batch@,
                views_of(received@),
                0,
                false,
                Seq::empty(),
                Seq::empty(),
                proto,
                *target,
            );
            &&& final(tasking).model() == d.pool
            &&& final(stats)@ == d.stats
            &&& r.ops@ == d.ops
            &&& r.logged@ == d.logged
            &&& r.deadline == d.deadline
            &&& r.fatal == d.fatal
            &&& (!d.fatal ==> final(tasking).wf())
        }),
{
    let ghost d_total = drain_from(
        old(tasking).model(),
        old(stats)@,
        batch@,
        views_of(received@),
        0,
        false,
        Seq::empty(),
        Seq::empty(),
        proto,
        *target,
    );
    let mut ops: Vec<Op> = Vec::new();
    let mut logged: Vec<i32> = Vec::new();
    let mut deadline: bool = false;
    let n: usize = batch.len();
    let mut i: usize = 0;
    while i < n
        invariant
            n == batch@.len(),
            batch@.len() == received@.len(),
            i <= n,
            tasking.wf(),
            tasking.tasks@.len() == old(tasking).tasks@.len(),
            forall|m: int|
                0 <= m < batch@.len() ==> (#[trigger] batch@[m]).user_data == DEADLINE_USER_DATA
                    || (batch@[m].user_data as int) < old(tasking).tasks@.len(),
            forall|m: int|
                0 <= m < received@.len() ==> (#[trigger] received@[m])@.len() == BUF_WORDS,
            stats.failed_connections <= old(stats).failed_connections + i,
            stats.wrong_return <= old(stats).wrong_return + i,
            stats.successful_returns <= old(stats).successful_returns + i,
            stats.min_nanos == old(stats).min_nanos,
            stats.max_nanos == old(stats).max_nanos,
            stats.nanos_spent == old(stats).nanos_spent,
            old(stats).failed_connections + batch@.len() <= u64::MAX,
            old(stats).wrong_return + batch@.len() <= u64::MAX,
            old(stats).successful_returns + batch@.len() <= u64::MAX,
            d_total == drain_from(
                old(tasking).model(),
                old(stats)@,
                batch@,
                views_of(received@),
                0,
                false,
                Seq::empty(),
                Seq::empty(),
                proto,
                *target,
            ),
            drain_from(
                tasking.model(),
                stats@,
                batch@,
                views_of(received@),
                i as int,
                deadline,
                ops@,
                logged@,
                proto,
                *target,
            ) == d_total,
        decreases n - i,
    {
        let c: Completion = batch[i];
        if c.user_data == DEADLINE_USER_DATA {
            deadline = true;
        } else {
            let ghost pool0 = tasking.model();
            let ghost stats0 = stats@;
            let ghost ops0 = ops@;
            let ghost logged0 = logged@;
            proof {
                assert(views_of(received@)[i as int] == received@[i as int]@);
                lemma_pool_step_deltas(pool0, c, received@[i as int]@, proto, *target);
            }
            let out = tasking.progress(c, &received[i], proto, target, stats);
            proof {
                let r = pool_step(pool0, c, views_of(received@)[i as int], proto, *target);
                assert(tasking.model() == r.pool);
                assert(stats@ == bumped(stats0, r.failed_delta, r.wrong_delta, r.ok_delta));
            }
            if out.log_errno.is_some() {
                logged.push(out.log_errno.unwrap());
            }
            if out.fatal {
                proof {
                    let r = pool_step(pool0, c, views_of(received@)[i as int], proto, *target);
                    assert(drain_from(
                        pool0,
                        stats0,
                        batch@,
                        views_of(received@),
                        i as int,
                        deadline,
                        ops0,
                        logged0,
                        proto,
                        *target,
                    ) == (DrainResult {
                        pool: r.pool,
                        stats: bumped(stats0, r.failed_delta, r.wrong_delta, r.ok_delta),
                        ops: ops0,
                        logged: logged@,
                        deadline,
                        fatal: true,
                    }));
                }
                return BatchResult { ops, logged, deadline, fatal: true };
            }
            if out.submit.is_some() {
                ops.push(out.submit.unwrap());
            }
            proof {
                let r = pool_step(pool0, c, views_of(received@)[i as int], proto, *target);
                assert(drain_from(
                    pool0,
                    stats0,
                    batch@,
                    views_of(received@),
                    i as int,
                    deadline,
                    ops0,
                    logged0,
                    proto,
                    *target,
                ) == drain_from(
                    tasking.model(),
                    stats@,
                    batch@,
                    views_of(received@),
                    i as int + 1,
                    deadline,
                    ops@,
                    logged@,
                    proto,
                    *target,
                ));
            }
        }
        i = i + 1;
    }
    BatchResult { ops, logged, deadline, fatal: false }
}

} // verus!
