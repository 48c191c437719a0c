//! Per-thread benchmark counters, mergeable across threads.
//!
//! Each worker thread owns one `Statistics` value and is its only writer;
//! after the threads have been joined their results are combined with
//! `merge`, which is commutative and associative, so the aggregate does not
//! depend on the order in which thread results arrive.

use vstd::prelude::*;

verus! {

/// Mathematical view of a `Statistics` value: the counters as unbounded
/// integers, free of any machine-width concern.
pub struct StatsView {
    pub failed_connections: int,
    pub wrong_return: int,
    pub successful_returns: int,
    pub min_nanos: int,
    pub max_nanos: int,
    pub nanos_spent: int,
}

/// Combination of two views: event counters add, extrema take the
/// minimum / maximum. This is what `Statistics::merge` computes.
pub open spec fn merged(a: StatsView, b: StatsView) -> StatsView {
    StatsView {
        failed_connections: a.failed_connections + b.failed_connections,
        wrong_return: a.wrong_return + b.wrong_return,
        successful_returns: a.successful_returns + b.successful_returns,
        min_nanos: if a.min_nanos <= b.min_nanos {
            a.min_nanos
        } else {
            b.min_nanos
        },
        max_nanos: if a.max_nanos >= b.max_nanos {
            a.max_nanos
        } else {
            b.max_nanos
        },
        nanos_spent: a.nanos_spent + b.nanos_spent,
    }
}

/// Counters accumulated by one worker thread.
#[derive(Debug)]
pub struct Statistics {
    pub failed_connections: u64,
    pub wrong_return: u64,
    pub successful_returns: u64,
    pub min_nanos: u128,
    pub max_nanos: u128,
    pub nanos_spent: u128,
}

impl View for Statistics {
    type V = StatsView;

    open spec fn view(&self) -> StatsView {
        StatsView {
            failed_connections: self.failed_connections as int,
            wrong_return: self.wrong_return as int,
            successful_returns: self.successful_returns as int,
            min_nanos: self.min_nanos as int,
            max_nanos: self.max_nanos as int,
            nanos_spent: self.nanos_spent as int,
        }
    }
}

/// The view every worker starts from: all counters zero, and the minimum
/// latency at its neutral element so the first measurement replaces it.
pub open spec fn initial_stats() -> StatsView {
    StatsView {
        failed_connections: 0,
        wrong_return: 0,
        successful_returns: 0,
        min_nanos: u128::MAX as int,
        max_nanos: 0,
        nanos_spent: 0,
    }
}

impl Default for Statistics {
    fn default() -> (r: Self)
        ensures
            r@ == initial_stats(),
    {
        Statistics {
            failed_connections: 0,
            wrong_return: 0,
            successful_returns: 0,
            min_nanos: u128::MAX,
            max_nanos: 0,
            nanos_spent: 0,
        }
    }
}

impl Statistics {
    /// Fold another thread's result into this one. Counters add, latency
    /// extrema combine; the result is exactly `merged` of the two views.
    pub fn merge(&mut self, other: Statistics)
        requires
            old(self).failed_connections + other.failed_connections <= u64::MAX,
            old(self).wrong_return + other.wrong_return <= u64::MAX,
            old(self).successful_returns + other.successful_returns <= u64::MAX,
            old(self).nanos_spent + other.nanos_spent <= u128::MAX,
        ensures
            final(self)@ == merged(old(self)@, other@),
    {
        self.failed_connections = self.failed_connections + other.failed_connections;
        self.successful_returns = self.successful_returns + other.successful_returns;
        self.wrong_return = self.wrong_return + other.wrong_return;
        self.max_nanos = if self.max_nanos >= other.max_nanos {
            self.max_nanos
        } else {
            other.max_nanos
        };
        self.min_nanos = if self.min_nanos <= other.min_nanos {
            self.min_nanos
        } else {
            other.min_nanos
        };
        self.nanos_spent = self.nanos_spent + other.nanos_spent;
    }

    /// Record one refused connection attempt.
    pub fn increment_connect_fail(&mut self)
        requires
            old(self).failed_connections < u64::MAX,
        ensures
            final(self)@ == (StatsView {
                failed_connections: old(self)@.failed_connections + 1,
                ..old(self)@
            }),
    {
        self.failed_connections = self.failed_connections + 1;
    }

    /// Record one echo cycle whose reply differed from the payload sent.
    pub fn increment_wrong_returns(&mut self)
        requires
            old(self).wrong_return < u64::MAX,
        ensures
            final(self)@ == (StatsView { wrong_return: old(self)@.wrong_return + 1, ..old(self)@ }),
    {
        self.wrong_return = self.wrong_return + 1;
    }

    /// Record one echo cycle whose reply matched the payload sent.
    pub fn increment_successful_returns(&mut self)
        requires
            old(self).successful_returns < u64::MAX,
        ensures
            final(self)@ == (StatsView {
                successful_returns: old(self)@.successful_returns + 1,
                ..old(self)@
            }),
    {
        self.successful_returns = self.successful_returns + 1;
    }

    /// Record the latency of one completion batch, in nanoseconds.
    pub fn new_measurement(&mut self, nanos: u128)
        requires
            old(self).nanos_spent + nanos <= u128::MAX,
        ensures
            final(self)@ == (StatsView {
                min_nanos: if old(self)@.min_nanos <= nanos as int {
                    old(self)@.min_nanos
                } else {
                    nanos as int
                },
                max_nanos: if old(self)@.max_nanos >= nanos as int {
                    old(self)@.max_nanos
                } else {
                    nanos as int
                },
                nanos_spent: old(self)@.nanos_spent + nanos,
                ..old(self)@
            }),
    {
        self.min_nanos = if self.min_nanos <= nanos {
            self.min_nanos
        } else {
            nanos
        };
        self.max_nanos = if self.max_nanos >= nanos {
            self.max_nanos
        } else {
            nanos
        };
        self.nanos_spent = self.nanos_spent + nanos;
    }
}

/// Merging thread results is commutative: either order of combining two
/// results yields the same aggregate.
pub proof fn lemma_merge_commutative(a: StatsView, b: StatsView)
    ensures
        merged(a, b) == merged(b, a),
{
}

/// Merging thread results is associative: any grouping of the combines
/// yields the same aggregate. Together with commutativity, merging any
/// number of thread results in any order gives identical counters.
pub proof fn lemma_merge_associative(a: StatsView, b: StatsView, c: StatsView)
    ensures
        merged(merged(a, b), c) == merged(a, merged(b, c)),
{
}

} // verus!
