//! Benchmark configuration as plain values.
//!
//! The command-line loader lives outside the verified core; it hands the
//! core this structure. The target address and the benchmark duration are
//! held as integers so every function that reads them can be verified.

use vstd::prelude::*;

verus! {

/// Transport protocol of the echo workload.
#[derive(Clone, Copy, Debug, PartialEq, Eq, Structural)]
pub enum Protocol {
    Tcp,
    Udp,
}

/// A duration in the shape the kernel timer submission takes:
/// whole seconds and a nanosecond remainder.
#[derive(Clone, Copy, Debug, PartialEq, Eq, Structural)]
pub struct TimeSpec {
    pub tv_sec: i64,
    pub tv_nsec: i64,
}

/// The benchmarked peer's address, as the raw bits of the IP address in
/// host order together with the port in host order.
#[derive(Clone, Copy, Debug, PartialEq, Eq, Structural)]
#[allow(inconsistent_fields)]
pub enum TargetAddr {
    V4 { addr: u32, port: u16 },
    V6 { addr: u128, port: u16 },
}

/// Configuration consumed by the core. Assembled by the excluded loader.
#[derive(Clone, Copy, Debug)]
pub struct Settings {
    pub burn_time: TimeSpec,
    pub connections: usize,
    pub target: TargetAddr,
    pub proto: Protocol,
    pub threads: usize,
    pub debug: bool,
}

impl Settings {
    /// A usable configuration: at least one worker thread.
    pub open spec fn wf(self) -> bool {
        self.threads >= 1
    }

    /// How many connections each worker thread drives: the total divided
    /// over the threads, rounded up so no connection is dropped.
    pub fn connections_per_thread(&self) -> (r: usize)
        requires
            self.wf(),
        ensures
            r == (self.connections + self.threads - 1) as int / self.threads as int,
            r * self.threads >= self.connections,
    {
        let q: usize = self.connections / self.threads;
        let rem: usize = self.connections % self.threads;
        if rem == 0 {
            proof {
                lemma_div_ceil_exact(self.connections as int, self.threads as int);
            }
            q
        } else {
            proof {
                lemma_div_ceil_inexact(self.connections as int, self.threads as int);
            }
            q + 1
        }
    }
}

proof fn lemma_div_ceil_exact(c: int, t: int)
    by (nonlinear_arith)
    requires
        t >= 1,
        c >= 0,
        c % t == 0,
    ensures
        c / t == (c + t - 1) / t,
        (c / t) * t >= c,
{
}

proof fn lemma_div_ceil_inexact(c: int, t: int)
    by (nonlinear_arith)
    requires
        t >= 1,
        c >= 0,
        c % t != 0,
    ensures
        c / t + 1 == (c + t - 1) / t,
        (c / t + 1) * t >= c,
        c / t + 1 <= c,
{
}

} // verus!
