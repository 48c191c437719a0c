//! The per-connection protocol state machine and the buffer arena.
//!
//! Each worker owns one `ThreadLocalTasking`: an arena of fixed,
//! non-overlapping buffer slices and one `Task` (connection) per slice.
//! A task cycles through creating its socket, connecting (with unbounded,
//! counted retries), and then alternating zero-copy sends of pseudo-random
//! payloads with reads of the echoed reply, comparing the two and counting
//! matches and mismatches.
//!
//! The transition function `Task::progress` is the sole place a new
//! submission is created, and every transition consumes one terminal
//! completion and emits at most one submission; that enforces the central
//! invariant that each connection has at most one ring operation
//! outstanding at any instant. The whole machine is mirrored by the
//! specification function `step`, against which the executable code is
//! verified and over which the library's laws are stated.

use vstd::prelude::*;

verus! {

use crate::ring::{has_more, Completion, ConnectAddr, Op, OpKind};
use crate::ring::{AF_INET, AF_INET6, CQE_FLAG_MORE, SOCK_DGRAM, SOCK_STREAM};
use crate::settings::{Protocol, TargetAddr};
use crate::stats::{Statistics, StatsView};

/// Bytes of arena each connection owns: one send buffer and one receive
/// buffer of 4096 bytes each.
pub const TASK_BUF: usize = 2 * 4096;

/// The arena is handled as 64-bit words; each buffer direction is this
/// many words (4096 bytes).
pub const BUF_WORDS: usize = 512;

/// Words of arena each connection owns: send buffer then receive buffer.
pub const TASK_WORDS: usize = 1024;

/// First word of the send buffer of the connection at `index`.
pub open spec fn send_base(index: int) -> int {
    index * TASK_WORDS
}

/// First word of the receive buffer of the connection at `index`.
pub open spec fn recv_base(index: int) -> int {
    index * TASK_WORDS + BUF_WORDS
}

/// The send buffer of the connection at `index`, as a sequence of words.
pub open spec fn send_region(mem: Seq<u64>, index: int) -> Seq<u64> {
    mem.subrange(send_base(index), send_base(index) + BUF_WORDS)
}

/// The receive buffer of the connection at `index`, as a sequence of words.
pub open spec fn recv_region(mem: Seq<u64>, index: int) -> Seq<u64> {
    mem.subrange(recv_base(index), recv_base(index) + BUF_WORDS)
}

/// The generator value after folding the first `n` words of `s` into `rng`
/// by wrapping addition. Consuming the payload it is about to overwrite is
/// how a connection advances its pseudo-random state.
pub open spec fn rng_after(rng: u64, s: Seq<u64>, n: int) -> u64
    decreases n,
{
    if n <= 0 {
        rng
    } else {
        rng_after(rng, s, n - 1).wrapping_add(s[n - 1])
    }
}

/// Word `j` of the fresh payload generated over the previous payload `s`:
/// the old word masked with the advanced generator, optionally salted with
/// the word position so the very first payload varies along the buffer.
pub open spec fn scrambled_word(rng: u64, s: Seq<u64>, j: int, salted: bool) -> u64 {
    if salted {
        s[j] ^ rng_after(rng, s, j + 1).wrapping_add(j as u64)
    } else {
        s[j] ^ rng_after(rng, s, j + 1)
    }
}

/// The fresh payload generated over the previous payload `s`.
pub open spec fn scrambled(rng: u64, s: Seq<u64>, salted: bool) -> Seq<u64> {
    Seq::new(s.len(), |j: int| scrambled_word(rng, s, j, salted))
}

/// Overwrite the send buffer of the connection at `index` with a fresh
/// pseudo-random payload and return the advanced generator value.
fn scramble_send(mem: &mut Vec<u64>, index: usize, rng0: u64, salted: bool) -> (r: u64)
    requires
        index * TASK_WORDS + TASK_WORDS <= old(mem).len(),
    ensures
        final(mem)@.len() == old(mem)@.len(),
        send_region(final(mem)@, index as int) == scrambled(
            rng0,
            send_region(old(mem)@, index as int),
            salted,
        ),
        r == rng_after(rng0, send_region(old(mem)@, index as int), BUF_WORDS as int),
        forall|k: int|
            0 <= k < old(mem)@.len() && !(send_base(index as int) <= k < send_base(index as int)
                + BUF_WORDS) ==> final(mem)@[k] == old(mem)@[k],
{
    let base: usize = index * TASK_WORDS;
    let ghost s0 = send_region(old(mem)@, index as int);
    let mut rng: u64 = rng0;
    let mut j: usize = 0;
    while j < BUF_WORDS
        invariant
            base == index * TASK_WORDS,
            base + TASK_WORDS <= mem@.len(),
            mem@.len() == old(mem)@.len(),
            j <= BUF_WORDS,
            rng == rng_after(rng0, s0, j as int),
            forall|k: int| 0 <= k < j ==> mem@[base + k] == scrambled_word(rng0, s0, k, salted),
            forall|k: int| j <= k < BUF_WORDS ==> mem@[base + k] == s0[k],
            forall|k: int|
                0 <= k < mem@.len() && !(base <= k < base + BUF_WORDS) ==> mem@[k] == old(
                    mem,
                )@[k],
        decreases BUF_WORDS - j,
    {
        let w: u64 = mem[base + j];
        rng = rng.wrapping_add(w);
        let v: u64 = if salted {
            w ^ rng.wrapping_add(j as u64)
        } else {
            w ^ rng
        };
        mem[base + j] = v;
        j = j + 1;
    }
    proof {
        assert(send_region(mem@, index as int) =~= scrambled(rng0, s0, salted));
    }
    rng
}

/// Whether the echoed reply in the receive buffer matches the payload in
/// the send buffer, word for word.
fn recv_matches_send(mem: &Vec<u64>, index: usize) -> (r: bool)
    requires
        index * TASK_WORDS + TASK_WORDS <= mem.len(),
    ensures
        r == (recv_region(mem@, index as int) == send_region(mem@, index as int)),
{
    let base: usize = index * TASK_WORDS;
    let mut j: usize = 0;
    while j < BUF_WORDS
        invariant
            base == index * TASK_WORDS,
            base + TASK_WORDS <= mem@.len(),
            j <= BUF_WORDS,
            forall|k: int| 0 <= k < j ==> #[trigger] mem@[base + k] == mem@[base + BUF_WORDS + k],
        decreases BUF_WORDS - j,
    {
        if mem[base + j] != mem[base + BUF_WORDS + j] {
            proof {
                assert(send_region(mem@, index as int)[j as int] != recv_region(
                    mem@,
                    index as int,
                )[j as int]);
            }
            return false;
        }
        j = j + 1;
    }
    proof {
        assert forall|i: int| 0 <= i < BUF_WORDS implies recv_region(mem@, index as int)[i]
            == send_region(mem@, index as int)[i] by {
            assert(mem@[base + i] == mem@[base + BUF_WORDS + i]);
        }
        assert(recv_region(mem@, index as int) =~= send_region(mem@, index as int));
    }
    true
}

/// Store the words the kernel delivered for a read into the receive buffer
/// of the connection at `index`.
fn store_recv(mem: &mut Vec<u64>, index: usize, data: &Vec<u64>)
    requires
        index * TASK_WORDS + TASK_WORDS <= old(mem).len(),
        data.len() == BUF_WORDS,
    ensures
        final(mem)@.len() == old(mem)@.len(),
        recv_region(final(mem)@, index as int) == data@,
        forall|k: int|
            0 <= k < old(mem)@.len() && !(recv_base(index as int) <= k < recv_base(index as int)
                + BUF_WORDS) ==> final(mem)@[k] == old(mem)@[k],
{
    let base: usize = index * TASK_WORDS + BUF_WORDS;
    let mut j: usize = 0;
    while j < BUF_WORDS
        invariant
            base == index * TASK_WORDS + BUF_WORDS,
            index * TASK_WORDS + TASK_WORDS <= mem@.len(),
            mem@.len() == old(mem)@.len(),
            j <= BUF_WORDS,
            data.len() == BUF_WORDS,
            forall|k: int| 0 <= k < j ==> mem@[base + k] == data@[k],
            forall|k: int|
                0 <= k < mem@.len() && !(base <= k < base + BUF_WORDS) ==> mem@[k] == old(
                    mem,
                )@[k],
        decreases BUF_WORDS - j,
    {
        let w: u64 = data[j];
        mem[base + j] = w;
        j = j + 1;
    }
    proof {
        assert forall|i: int| 0 <= i < BUF_WORDS implies recv_region(mem@, index as int)[i]
            == data@[i] by {
            assert(mem@[base + i] == data@[i]);
        }
        assert(recv_region(mem@, index as int) =~= data@);
    }
}

/// Where a connection stands in its lifecycle. The name of each state is
/// the event it waits for next; `NewSock` is the initial state, before the
/// "create socket" submission has been emitted.
#[derive(Clone, Copy, Debug, Default, PartialEq, Eq, Structural)]
pub enum TaskState {
    #[default]
    NewSock,
    Connect,
    Setup,
    Send,
    Receive,
}

/// One connection: a stable slot id (also its correlation id and its arena
/// slice index), its socket descriptor, its pseudo-random generator state,
/// its lifecycle state, the address held for an in-flight connect, and
/// whether a ring operation of its own is currently in flight.
#[derive(Clone, Copy, Debug)]
pub struct Task {
    pub index: usize,
    pub fd: i32,
    pub dumb_rand: u64,
    pub state: TaskState,
    pub addr: Option<ConnectAddr>,
    pub outstanding: bool,
}

/// The socket domain a target address calls for.
pub open spec fn domain_of(target: TargetAddr) -> i32 {
    match target {
        TargetAddr::V4 { .. } => AF_INET,
        TargetAddr::V6 { .. } => AF_INET6,
    }
}

/// The socket type a protocol calls for.
pub open spec fn sock_type_of(proto: Protocol) -> i32 {
    match proto {
        Protocol::Tcp => SOCK_STREAM,
        Protocol::Udp => SOCK_DGRAM,
    }
}

/// The address structure built for a connect against `target`.
pub open spec fn connect_addr_of(target: TargetAddr) -> ConnectAddr {
    match target {
        TargetAddr::V4 { addr, port } => ConnectAddr::V4 { port, addr },
        TargetAddr::V6 { addr, port } => ConnectAddr::V6 {
            port,
            addr,
            flowinfo: 0,
            scope_id: 0,
        },
    }
}

impl Task {
    /// A healthy connection: the retry state holds its address, every
    /// state past socket creation holds a valid descriptor, and a ring
    /// operation is in flight exactly from the first emission on.
    pub open spec fn wf(self) -> bool {
        &&& (self.state is Setup ==> self.addr is Some)
        &&& ((self.state is Setup || self.state is Send || self.state is Receive) ==> self.fd
            >= 0)
        &&& (self.outstanding <==> !(self.state is NewSock))
    }

    /// Build (and hold) the address for a connect against `target` and
    /// describe the connect submission itself.
    pub fn make_connect(&mut self, target: &TargetAddr) -> (op: Op)
        ensures
            *final(self) == (Task { addr: Some(connect_addr_of(*target)), ..*old(self) }),
            op == (Op {
                user_data: old(self).index as u64,
                kind: OpKind::Connect { fd: old(self).fd, addr: connect_addr_of(*target) },
            }),
    {
        let addr = match *target {
            TargetAddr::V4 { addr, port } => ConnectAddr::V4 { port, addr },
            TargetAddr::V6 { addr, port } => ConnectAddr::V6 {
                port,
                addr,
                flowinfo: 0,
                scope_id: 0,
            },
        };
        self.addr = Some(addr);
        Op { user_data: self.index as u64, kind: OpKind::Connect { fd: self.fd, addr } }
    }
}

/// What one call of the transition function reports back: the submission
/// to push (at most one), whether the worker must abort, and an error code
/// that is only to be logged. `log_errno` also carries the error behind a
/// fatal outcome.
#[derive(Clone, Copy, Debug, PartialEq, Eq)]
pub struct Outcome {
    pub submit: Option<Op>,
    pub fatal: bool,
    pub log_errno: Option<i32>,
}

/// The complete effect of one transition, at the specification level: the
/// connection afterwards, its send buffer afterwards, what `Outcome` the
/// transition reports, and what each statistic gains.
pub struct StepResult {
    pub task: Task,
    pub send: Seq<u64>,
    pub submit: Option<Op>,
    pub fatal: bool,
    pub log_errno: Option<i32>,
    pub failed_delta: int,
    pub wrong_delta: int,
    pub ok_delta: int,
}

/// The transition function of the connection state machine, as a
/// mathematical function. `send` and `recv` are the connection's two
/// buffer regions when the completion arrives. `Task::progress` is
/// verified to implement exactly this.
pub open spec fn step(
    t: Task,
    cqe: Option<Completion>,
    send: Seq<u64>,
    recv: Seq<u64>,
    proto: Protocol,
    target: TargetAddr,
) -> StepResult {
    if cqe is Some && has_more(cqe->Some_0) {
        // More completions follow for the in-flight operation: hold still.
        StepResult {
            task: t,
            send,
            submit: None,
            fatal: false,
            log_errno: None,
            failed_delta: 0,
            wrong_delta: 0,
            ok_delta: 0,
        }
    } else {
        match t.state {
            TaskState::NewSock => StepResult {
                task: Task { state: TaskState::Connect, outstanding: true, ..t },
                send,
                submit: Some(
                    Op {
                        user_data: t.index as u64,
                        kind: OpKind::Socket {
                            domain: domain_of(target),
                            sock_type: sock_type_of(proto),
                        },
                    },
                ),
                fatal: false,
                log_errno: None,
                failed_delta: 0,
                wrong_delta: 0,
                ok_delta: 0,
            },
            TaskState::Connect => {
                let c = cqe->Some_0;
                if c.res < 0 {
                    // Socket creation failed: no budget to recover.
                    StepResult {
                        task: Task { outstanding: false, ..t },
                        send,
                        submit: None,
                        fatal: true,
                        log_errno: Some(c.res),
                        failed_delta: 0,
                        wrong_delta: 0,
                        ok_delta: 0,
                    }
                } else {
                    StepResult {
                        task: Task {
                            fd: c.res,
                            addr: Some(connect_addr_of(target)),
                            state: TaskState::Setup,
                            outstanding: true,
                            ..t
                        },
                        send,
                        submit: Some(
                            Op {
                                user_data: t.index as u64,
                                kind: OpKind::Connect { fd: c.res, addr: connect_addr_of(target) },
                            },
                        ),
                        fatal: false,
                        log_errno: None,
                        failed_delta: 0,
                        wrong_delta: 0,
                        ok_delta: 0,
                    }
                }
            },
            TaskState::Setup => {
                let c = cqe->Some_0;
                if c.res < 0 {
                    // Connect refused: count it, rebuild the address and retry without bound.
                    StepResult {
                        task: Task { addr: Some(connect_addr_of(target)), outstanding: true, ..t },
                        send,
                        submit: Some(
                            Op {
                                user_data: t.index as u64,
                                kind: OpKind::Connect { fd: t.fd, addr: connect_addr_of(target) },
                            },
                        ),
                        fatal: false,
                        log_errno: None,
                        failed_delta: 1,
                        wrong_delta: 0,
                        ok_delta: 0,
                    }
                } else {
                    // Connected: release the address, send the first payload.
                    StepResult {
                        task: Task {
                            addr: None,
                            dumb_rand: rng_after(t.dumb_rand, send, BUF_WORDS as int),
                            state: TaskState::Receive,
                            outstanding: true,
                            ..t
                        },
                        send: scrambled(t.dumb_rand, send, true),
                        submit: Some(
                            Op {
                                user_data: t.index as u64,
                                kind: OpKind::SendZc { fd: t.fd, index: t.index },
                            },
                        ),
                        fatal: false,
                        log_errno: None,
                        failed_delta: 0,
                        wrong_delta: 0,
                        ok_delta: 0,
                    }
                }
            },
            TaskState::Send => {
                // A read completed: judge the echoed reply, then send afresh.
                let c = cqe->Some_0;
                let matches = recv == send;
                StepResult {
                    task: Task {
                        dumb_rand: rng_after(t.dumb_rand, send, BUF_WORDS as int),
                        state: TaskState::Receive,
                        outstanding: true,
                        ..t
                    },
                    send: scrambled(t.dumb_rand, send, false),
                    submit: Some(
                        Op {
                            user_data: t.index as u64,
                            kind: OpKind::SendZc { fd: t.fd, index: t.index },
                        },
                    ),
                    fatal: false,
                    log_errno: if c.res < 0 {
                        Some(c.res)
                    } else {
                        None
                    },
                    failed_delta: 0,
                    wrong_delta: if matches {
                        0
                    } else {
                        1
                    },
                    ok_delta: if matches {
                        1
                    } else {
                        0
                    },
                }
            },
            TaskState::Receive => {
                // The send completed: read the echo back.
                let c = cqe->Some_0;
                StepResult {
                    task: Task { state: TaskState::Send, outstanding: true, ..t },
                    send,
                    submit: Some(
                        Op {
                            user_data: t.index as u64,
                            kind: OpKind::Read { fd: t.fd, index: t.index },
                        },
                    ),
                    fatal: false,
                    log_errno: if c.res < 0 {
                        Some(c.res)
                    } else {
                        None
                    },
                    failed_delta: 0,
                    wrong_delta: 0,
                    ok_delta: 0,
                }
            },
        }
    }
}

/// How a transition's gains change a statistics view.
pub open spec fn bumped(s: StatsView, failed: int, wrong: int, ok: int) -> StatsView {
    StatsView {
        failed_connections: s.failed_connections + failed,
        wrong_return: s.wrong_return + wrong,
        successful_returns: s.successful_returns + ok,
        ..s
    }
}

impl Task {
    /// Drive the connection by one transition. `cqe` is the completion
    /// being consumed (`None` only for the very first, priming transition
    /// out of `NewSock`); `mem` is the worker's arena. The effect is
    /// exactly `step` of the old state: the new submission is described in
    /// the returned `Outcome`, the send buffer may be refilled, and the
    /// counters gain the transition's deltas.
    pub fn progress(
        &mut self,
        cqe: Option<Completion>,
        proto: Protocol,
        target: &TargetAddr,
        mem: &mut Vec<u64>,
        stats: &mut Statistics,
    ) -> (out: Outcome)
        requires
            old(self).wf(),
            old(self).index * TASK_WORDS + TASK_WORDS <= old(mem).len(),
            cqe is None <==> old(self).state is NewSock,
            old(self).state is Setup ==> old(stats).failed_connections < u64::MAX,
            old(self).state is Send ==> old(stats).wrong_return < u64::MAX,
            old(self).state is Send ==> old(stats).successful_returns < u64::MAX,
        ensures
            ({
                let r = step(
                    *old(self),
                    cqe,
                    send_region(old(mem)@, old(self).index as int),
                    recv_region(old(mem)@, old(self).index as int),
                    proto,
                    *target,
                );
                &&& *final(self) == r.task
                &&& out.submit == r.submit
                &&& out.fatal == r.fatal
                &&& out.log_errno == r.log_errno
                &&& final(mem)@.len() == old(mem)@.len()
                &&& send_region(final(mem)@, old(self).index as int) == r.send
                &&& forall|k: int|
                    0 <= k < old(mem)@.len() && !(send_base(old(self).index as int) <= k
                        < send_base(old(self).index as int) + BUF_WORDS) ==> final(mem)@[k] == old(
                        mem,
                    )@[k]
                &&& final(stats)@ == bumped(
                    old(stats)@,
                    r.failed_delta,
                    r.wrong_delta,
                    r.ok_delta,
                )
                &&& (!r.fatal ==> final(self).wf())
            }),
    {
        if let Some(c) = cqe {
            if c.flags & CQE_FLAG_MORE != 0 {
                return Outcome { submit: None, fatal: false, log_errno: None };
            }
        }
        match self.state {
            TaskState::NewSock => {
                let domain: i32 = match *target {
                    TargetAddr::V4 { .. } => AF_INET,
                    TargetAddr::V6 { .. } => AF_INET6,
                };
                let sock_type: i32 = match proto {
                    Protocol::Tcp => SOCK_STREAM,
                    Protocol::Udp => SOCK_DGRAM,
                };
                self.state = TaskState::Connect;
                self.outstanding = true;
                Outcome {
                    submit: Some(
                        Op {
                            user_data: self.index as u64,
                            kind: OpKind::Socket { domain, sock_type },
                        },
                    ),
                    fatal: false,
                    log_errno: None,
                }
            },
            TaskState::Connect => {
                let c = cqe.unwrap();
                if c.res < 0 {
                    self.outstanding = false;
                    Outcome { submit: None, fatal: true, log_errno: Some(c.res) }
                } else {
                    self.fd = c.res;
                    let op = self.make_connect(target);
                    self.state = TaskState::Setup;
                    self.outstanding = true;
                    Outcome { submit: Some(op), fatal: false, log_errno: None }
                }
            },
            TaskState::Setup => {
                let c = cqe.unwrap();
                if c.res < 0 {
                    let op = self.make_connect(target);
                    stats.increment_connect_fail();
                    self.outstanding = true;
                    Outcome { submit: Some(op), fatal: false, log_errno: None }
                } else {
                    self.addr = None;
                    let new_rng: u64 = scramble_send(mem, self.index, self.dumb_rand, true);
                    self.dumb_rand = new_rng;
                    self.state = TaskState::Receive;
                    self.outstanding = true;
                    Outcome {
                        submit: Some(
                            Op {
                                user_data: self.index as u64,
                                kind: OpKind::SendZc { fd: self.fd, index: self.index },
                            },
                        ),
                        fatal: false,
                        log_errno: None,
                    }
                }
            },
            TaskState::Send => {
                let c = cqe.unwrap();
                let log: Option<i32> = if c.res < 0 {
                    Some(c.res)
                } else {
                    None
                };
                if recv_matches_send(mem, self.index) {
                    stats.increment_successful_returns();
                } else {
                    stats.increment_wrong_returns();
                }
                let new_rng: u64 = scramble_send(mem, self.index, self.dumb_rand, false);
                self.dumb_rand = new_rng;
                self.state = TaskState::Receive;
                self.outstanding = true;
                Outcome {
                    submit: Some(
                        Op {
                            user_data: self.index as u64,
                            kind: OpKind::SendZc { fd: self.fd, index: self.index },
                        },
                    ),
                    fatal: false,
                    log_errno: log,
                }
            },
            TaskState::Receive => {
                let c = cqe.unwrap();
                let log: Option<i32> = if c.res < 0 {
                    Some(c.res)
                } else {
                    None
                };
                self.state = TaskState::Send;
                self.outstanding = true;
                Outcome {
                    submit: Some(
                        Op {
                            user_data: self.index as u64,
                            kind: OpKind::Read { fd: self.fd, index: self.index },
                        },
                    ),
                    fatal: false,
                    log_errno: log,
                }
            },
        }
    }
}

/// `mem` with the words starting at `base` replaced by `data`.
pub open spec fn with_region(mem: Seq<u64>, base: int, data: Seq<u64>) -> Seq<u64> {
    Seq::new(
        mem.len(),
        |k: int|
            if base <= k < base + data.len() {
                data[k - base]
            } else {
                mem[k]
            },
    )
}

/// The connection pool of one worker thread: the buffer arena (as words)
/// and one task per arena slice.
pub struct ThreadLocalTasking {
    pub tasks: Vec<Task>,
    pub memory: Vec<u64>,
}

/// The pool at the specification level: the tasks and the arena as
/// sequences.
pub struct PoolModel {
    pub tasks: Seq<Task>,
    pub memory: Seq<u64>,
}

impl PoolModel {
    /// A healthy pool: the arena holds exactly one slice per task, each
    /// task sits in its own slot, is itself healthy, and has been primed
    /// out of its initial state.
    pub open spec fn wf(self) -> bool {
        &&& self.memory.len() == self.tasks.len() * TASK_WORDS
        &&& forall|i: int| 0 <= i < self.tasks.len() ==> (#[trigger] self.tasks[i]).index == i
        &&& forall|i: int| 0 <= i < self.tasks.len() ==> (#[trigger] self.tasks[i]).wf()
        &&& forall|i: int|
            0 <= i < self.tasks.len() ==> !((#[trigger] self.tasks[i]).state is NewSock)
    }
}

/// The complete effect of dispatching one completion to the pool, at the
/// specification level.
pub struct PoolStepResult {
    pub pool: PoolModel,
    pub submit: Option<Op>,
    pub fatal: bool,
    pub log_errno: Option<i32>,
    pub failed_delta: int,
    pub wrong_delta: int,
    pub ok_delta: int,
}

/// Dispatching one completion: the kernel has filled the receive buffer of
/// the task named by the correlation id with `received`; that task then
/// takes one `step`, which may refill its send buffer. No other task and
/// no other arena slice is touched.
pub open spec fn pool_step(
    p: PoolModel,
    cqe: Completion,
    received: Seq<u64>,
    proto: Protocol,
    target: TargetAddr,
) -> PoolStepResult {
    let idx = cqe.user_data as int;
    let mem1 = with_region(p.memory, recv_base(idx), received);
    let r = step(
        p.tasks[idx],
        Some(cqe),
        send_region(mem1, idx),
        recv_region(mem1, idx),
        proto,
        target,
    );
    PoolStepResult {
        pool: PoolModel {
            tasks: p.tasks.update(idx, r.task),
            memory: with_region(mem1, send_base(idx), r.send),
        },
        submit: r.submit,
        fatal: r.fatal,
        log_errno: r.log_errno,
        failed_delta: r.failed_delta,
        wrong_delta: r.wrong_delta,
        ok_delta: r.ok_delta,
    }
}

impl ThreadLocalTasking {
    /// The pool as its specification-level model.
    pub open spec fn model(self) -> PoolModel {
        PoolModel { tasks: self.tasks@, memory: self.memory@ }
    }

    pub open spec fn wf(self) -> bool {
        self.model().wf()
    }

    /// Read access to the arena, for the front end to hand payload words
    /// to the kernel.
    pub fn arena(&self) -> (r: &Vec<u64>)
        ensures
            r@ == self.memory@,
    {
        &self.memory
    }

    /// Build the pool: a zeroed arena of one slice per connection and
    /// `connections` tasks, and immediately drive each task's first
    /// transition, so that every connection's "create socket" submission
    /// is primed before the main loop starts.
    pub fn setup(
        proto: Protocol,
        target: &TargetAddr,
        connections: usize,
        stats: &mut Statistics,
    ) -> (r: (ThreadLocalTasking, Vec<Op>))
        requires
            connections * TASK_WORDS <= usize::MAX,
        ensures
            r.0.wf(),
            r.0.tasks@.len() == connections,
            r.0.memory@.len() == connections * TASK_WORDS,
            forall|i: int|
                0 <= i < connections ==> r.0.tasks@[i] == (Task {
                    index: i as usize,
                    fd: 0,
                    dumb_rand: i as u64,
                    state: TaskState::Connect,
                    addr: None,
                    outstanding: true,
                }),
            forall|k: int| 0 <= k < r.0.memory@.len() ==> r.0.memory@[k] == 0,
            r.1@.len() == connections,
            forall|i: int|
                0 <= i < connections ==> r.1@[i] == (Op {
                    user_data: i as u64,
                    kind: OpKind::Socket {
                        domain: domain_of(*target),
                        sock_type: sock_type_of(proto),
                    },
                }),
            final(stats)@ == old(stats)@,
    {
        let total: usize = connections * TASK_WORDS;
        let mut memory: Vec<u64> = Vec::new();
        while memory.len() < total
            invariant
                memory@.len() <= total,
                forall|k: int| 0 <= k < memory@.len() ==> memory@[k] == 0,
            decreases total - memory@.len(),
        {
            memory.push(0);
        }
        let mut tasks: Vec<Task> = Vec::new();
        let mut i: usize = 0;
        while i < connections
            invariant
                i <= connections,
                tasks@.len() == i,
                forall|j: int|
                    0 <= j < i ==> tasks@[j] == (Task {
                        index: j as usize,
                        fd: 0,
                        dumb_rand: j as u64,
                        state: TaskState::NewSock,
                        addr: None,
                        outstanding: false,
                    }),
            decreases connections - i,
        {
            tasks.push(
                Task {
                    index: i,
                    fd: 0,
                    dumb_rand: i as u64,
                    state: TaskState::NewSock,
                    addr: None,
                    outstanding: false,
                },
            );
            i = i + 1;
        }
        let mut ops: Vec<Op> = Vec::new();
        let mut j: usize = 0;
        while j < connections
            invariant
                j <= connections,
                tasks@.len() == connections,
                memory@.len() == connections * TASK_WORDS,
                forall|k: int| 0 <= k < memory@.len() ==> memory@[k] == 0,
                forall|m: int|
                    j <= m < connections ==> tasks@[m] == (Task {
                        index: m as usize,
                        fd: 0,
                        dumb_rand: m as u64,
                        state: TaskState::NewSock,
                        addr: None,
                        outstanding: false,
                    }),
                forall|m: int|
                    0 <= m < j ==> tasks@[m] == (Task {
                        index: m as usize,
                        fd: 0,
                        dumb_rand: m as u64,
                        state: TaskState::Connect,
                        addr: None,
                        outstanding: true,
                    }),
                ops@.len() == j,
                forall|m: int|
                    0 <= m < j ==> ops@[m] == (Op {
                        user_data: m as u64,
                        kind: OpKind::Socket {
                            domain: domain_of(*target),
                            sock_type: sock_type_of(proto),
                        },
                    }),
                stats@ == old(stats)@,
            decreases connections - j,
        {
            let ghost mem_before = memory@;
            let mut t: Task = tasks[j];
            let out = t.progress(None, proto, target, &mut memory, stats);
            tasks[j] = t;
            proof {
                assert forall|k: int| 0 <= k < memory@.len() implies memory@[k] == 0 by {
                    if send_base(j as int) <= k < send_base(j as int) + BUF_WORDS {
                        assert(send_region(memory@, j as int)[k - send_base(j as int)]
                            == send_region(mem_before, j as int)[k - send_base(j as int)]);
                    }
                }
            }
            ops.push(out.submit.unwrap());
            j = j + 1;
        }
        (ThreadLocalTasking { tasks, memory }, ops)
    }

    /// Dispatch one completion: resolve its correlation id to the owning
    /// task and buffer slice, store what the kernel delivered into the
    /// receive buffer, and drive that task's transition. The effect is
    /// exactly `pool_step` of the old pool.
    pub fn progress(
        &mut self,
        cqe: Completion,
        received: &Vec<u64>,
        proto: Protocol,
        target: &TargetAddr,
        stats: &mut Statistics,
    ) -> (out: Outcome)
        requires
            old(self).wf(),
            (cqe.user_data as int) < old(self).tasks@.len(),
            received@.len() == BUF_WORDS,
            old(stats).failed_connections < u64::MAX,
            old(stats).wrong_return < u64::MAX,
            old(stats).successful_returns < u64::MAX,
        ensures
            ({
                let r = pool_step(old(self).model(), cqe, received@, proto, *target);
                &&& final(self).model() == r.pool
                &&& out.submit == r.submit
                &&& out.fatal == r.fatal
                &&& out.log_errno == r.log_errno
                &&& final(stats)@ == bumped(
                    old(stats)@,
                    r.failed_delta,
                    r.wrong_delta,
                    r.ok_delta,
                )
                &&& (!r.fatal ==> final(self).wf())
                &&& final(self).tasks@.len() == old(self).tasks@.len()
            }),
    {
        let n: usize = self.tasks.len();
        let index: usize = cqe.user_data as usize;
        let ghost idx = cqe.user_data as int;
        store_recv(&mut self.memory, index, received);
        proof {
            let mem1 = with_region(old(self).memory@, recv_base(idx), received@);
            assert forall|k: int| 0 <= k < self.memory@.len() implies self.memory@[k]
                == mem1[k] by {
                if recv_base(idx) <= k < recv_base(idx) + BUF_WORDS {
                    assert(recv_region(self.memory@, idx)[k - recv_base(idx)] == received@[k
                        - recv_base(idx)]);
                }
            }
            assert(self.memory@ =~= mem1);
        }
        let ghost mem1 = self.memory@;
        let mut t: Task = self.tasks[index];
        let out = t.progress(Some(cqe), proto, target, &mut self.memory, stats);
        self.tasks[index] = t;
        proof {
            let r = step(
                old(self).tasks@[idx],
                Some(cqe),
                send_region(mem1, idx),
                recv_region(mem1, idx),
                proto,
                *target,
            );
            assert(r.send.len() == BUF_WORDS);
            assert forall|k: int| 0 <= k < self.memory@.len() implies self.memory@[k]
                == with_region(mem1, send_base(idx), r.send)[k] by {
                if send_base(idx) <= k < send_base(idx) + BUF_WORDS {
                    assert(send_region(self.memory@, idx)[k - send_base(idx)] == r.send[k
                        - send_base(idx)]);
                }
            }
            assert(self.memory@ =~= with_region(mem1, send_base(idx), r.send));
            if !r.fatal {
                assert forall|m: int| 0 <= m < self.tasks@.len() implies (#[trigger] self.tasks@[m]).wf()
                    && self.tasks@[m].index == m && !(self.tasks@[m].state is NewSock) by {
                    if m != idx {
                        assert(self.tasks@[m] == old(self).tasks@[m]);
                    }
                }
            }
        }
        out
    }
}

/// Counters only grow, and by at most one per transition: every step's
/// contribution to each statistic is zero or one.
pub proof fn lemma_step_deltas(
    t: Task,
    cqe: Option<Completion>,
    send: Seq<u64>,
    recv: Seq<u64>,
    proto: Protocol,
    target: TargetAddr,
)
    ensures
        ({
            let r = step(t, cqe, send, recv, proto, target);
            &&& 0 <= r.failed_delta <= 1
            &&& 0 <= r.wrong_delta <= 1
            &&& 0 <= r.ok_delta <= 1
        }),
{
}

/// The pool-level restatement of `lemma_step_deltas`: dispatching one
/// completion moves each counter by zero or one.
pub proof fn lemma_pool_step_deltas(
    p: PoolModel,
    cqe: Completion,
    received: Seq<u64>,
    proto: Protocol,
    target: TargetAddr,
)
    ensures
        ({
            let r = pool_step(p, cqe, received, proto, target);
            &&& 0 <= r.failed_delta <= 1
            &&& 0 <= r.wrong_delta <= 1
            &&& 0 <= r.ok_delta <= 1
        }),
{
    let idx = cqe.user_data as int;
    let mem1 = with_region(p.memory, recv_base(idx), received);
    lemma_step_deltas(
        p.tasks[idx],
        Some(cqe),
        send_region(mem1, idx),
        recv_region(mem1, idx),
        proto,
        target,
    );
}

/// Number of ring operations a connection has in flight.
pub open spec fn outstanding_ops(t: Task) -> int {
    if t.outstanding {
        1
    } else {
        0
    }
}

/// Whether a transition retires the in-flight operation: it does exactly
/// when it consumes a terminal completion, one without the "more data
/// pending" flag.
pub open spec fn consumed_ops(cqe: Option<Completion>) -> int {
    if cqe is Some && !has_more(cqe->Some_0) {
        1
    } else {
        0
    }
}

/// Number of submissions a transition emits.
pub open spec fn emitted_ops(r: StepResult) -> int {
    if r.submit is Some {
        1
    } else {
        0
    }
}

/// For every connection, at most one ring operation is outstanding at any
/// instant: a transition emits a new submission only after retiring the
/// previous operation with its terminal completion (or, at priming, when
/// nothing was in flight), so the in-flight count — exact bookkeeping
/// included — never exceeds one.
pub proof fn lemma_at_most_one_outstanding(
    t: Task,
    cqe: Option<Completion>,
    send: Seq<u64>,
    recv: Seq<u64>,
    proto: Protocol,
    target: TargetAddr,
)
    requires
        t.wf(),
        cqe is Some ==> t.outstanding,
        cqe is None ==> !t.outstanding,
    ensures
        ({
            let r = step(t, cqe, send, recv, proto, target);
            &&& outstanding_ops(r.task) == outstanding_ops(t) - consumed_ops(cqe) + emitted_ops(r)
            &&& outstanding_ops(r.task) <= 1
        }),
{
}

/// A completion flagged "more data pending" must not trigger a new
/// submission: the machine holds perfectly still — no state change, no
/// buffer write, no counter moves — until the terminal completion of the
/// same logical operation arrives.
pub proof fn lemma_more_flag_waits(
    t: Task,
    cqe: Completion,
    send: Seq<u64>,
    recv: Seq<u64>,
    proto: Protocol,
    target: TargetAddr,
)
    requires
        has_more(cqe),
    ensures
        step(t, Some(cqe), send, recv, proto, target) == (StepResult {
            task: t,
            send,
            submit: None,
            fatal: false,
            log_errno: None,
            failed_delta: 0,
            wrong_delta: 0,
            ok_delta: 0,
        }),
{
}

/// Against a byte-perfect echo — the reply equals the payload last sent —
/// a completed cycle increments the success counter by exactly one and
/// never the mismatch counter; together with `lemma_step_deltas`, the
/// success counter grows monotonically and the mismatch counter stays
/// where it was.
pub proof fn lemma_perfect_echo(
    t: Task,
    cqe: Completion,
    send: Seq<u64>,
    recv: Seq<u64>,
    proto: Protocol,
    target: TargetAddr,
)
    requires
        t.state is Send,
        !has_more(cqe),
        recv == send,
    ensures
        ({
            let r = step(t, Some(cqe), send, recv, proto, target);
            &&& r.ok_delta == 1
            &&& r.wrong_delta == 0
            &&& r.failed_delta == 0
        }),
{
}

/// A corrupted echo — any difference at all between the reply and the
/// payload last sent — is counted exactly once as a wrong return and
/// never as a success.
pub proof fn lemma_corrupted_echo(
    t: Task,
    cqe: Completion,
    send: Seq<u64>,
    recv: Seq<u64>,
    proto: Protocol,
    target: TargetAddr,
)
    requires
        t.state is Send,
        !has_more(cqe),
        recv != send,
    ensures
        ({
            let r = step(t, Some(cqe), send, recv, proto, target);
            &&& r.wrong_delta == 1
            &&& r.ok_delta == 0
            &&& r.failed_delta == 0
        }),
{
}

/// The cumulative effect of feeding one connection a sequence of
/// completions, one step at a time, while its receive buffer holds `recv`
/// throughout: the connection and send buffer at the end, and everything
/// each statistic gained on the way.
pub struct RunResult {
    pub task: Task,
    pub send: Seq<u64>,
    pub failed: int,
    pub wrong: int,
    pub ok: int,
}

pub open spec fn run_steps(
    t: Task,
    send: Seq<u64>,
    recv: Seq<u64>,
    cqes: Seq<Completion>,
    proto: Protocol,
    target: TargetAddr,
) -> RunResult
    decreases cqes.len(),
{
    if cqes.len() == 0 {
        RunResult { task: t, send, failed: 0, wrong: 0, ok: 0 }
    } else {
        let r = step(t, Some(cqes[0]), send, recv, proto, target);
        let rest = run_steps(r.task, r.send, recv, cqes.drop_first(), proto, target);
        RunResult {
            task: rest.task,
            send: rest.send,
            failed: r.failed_delta + rest.failed,
            wrong: r.wrong_delta + rest.wrong,
            ok: r.ok_delta + rest.ok,
        }
    }
}

/// Unbounded retry: a connection whose connect is refused any number of
/// times records exactly one connect failure per refusal, re-emits its
/// connect each time, and stands exactly as before — same state, same
/// address, same generator — ready for the attempt that succeeds.
pub proof fn lemma_unbounded_retry(
    t: Task,
    send: Seq<u64>,
    recv: Seq<u64>,
    cqes: Seq<Completion>,
    proto: Protocol,
    target: TargetAddr,
)
    requires
        t.wf(),
        t.state is Setup,
        t.addr == Some(connect_addr_of(target)),
        forall|i: int| 0 <= i < cqes.len() ==> (#[trigger] cqes[i]).res < 0 && !has_more(cqes[i]),
    ensures
        run_steps(t, send, recv, cqes, proto, target) == (RunResult {
            task: t,
            send,
            failed: cqes.len() as int,
            wrong: 0,
            ok: 0,
        }),
    decreases cqes.len(),
{
    if cqes.len() > 0 {
        let r = step(t, Some(cqes[0]), send, recv, proto, target);
        assert(r.task == t);
        assert forall|i: int|
            0 <= i < cqes.drop_first().len() implies (#[trigger] cqes.drop_first()[i]).res < 0
            && !has_more(cqes.drop_first()[i]) by {
            assert(cqes.drop_first()[i] == cqes[i + 1]);
        }
        lemma_unbounded_retry(t, send, recv, cqes.drop_first(), proto, target);
    }
}

/// The first accepted completion after the retries starts the normal
/// cycle: the held address is released and a fresh payload goes out as a
/// zero-copy send, with no counter moved.
pub proof fn lemma_retry_then_accept(
    t: Task,
    send: Seq<u64>,
    recv: Seq<u64>,
    accept: Completion,
    proto: Protocol,
    target: TargetAddr,
)
    requires
        t.wf(),
        t.state is Setup,
        accept.res >= 0,
        !has_more(accept),
    ensures
        ({
            let r = step(t, Some(accept), send, recv, proto, target);
            &&& r.task.state is Receive
            &&& r.task.addr is None
            &&& r.submit == Some(
                Op { user_data: t.index as u64, kind: OpKind::SendZc { fd: t.fd, index: t.index } },
            )
            &&& r.send == scrambled(t.dumb_rand, send, true)
            &&& r.failed_delta == 0
            &&& r.wrong_delta == 0
            &&& r.ok_delta == 0
        }),
{
}

/// No two connections ever observe or mutate each other's buffer slice,
/// and a completion moves only the connection its correlation id names:
/// dispatching touches exactly one task and only that task's slice of the
/// arena.
pub proof fn lemma_dispatch_isolated(
    p: PoolModel,
    cqe: Completion,
    received: Seq<u64>,
    proto: Protocol,
    target: TargetAddr,
)
    requires
        p.wf(),
        (cqe.user_data as int) < p.tasks.len(),
        received.len() == BUF_WORDS,
    ensures
        ({
            let r = pool_step(p, cqe, received, proto, target);
            let idx = cqe.user_data as int;
            &&& r.pool.tasks.len() == p.tasks.len()
            &&& forall|j: int|
                0 <= j < p.tasks.len() && j != idx ==> r.pool.tasks[j] == p.tasks[j]
            &&& r.pool.memory.len() == p.memory.len()
            &&& forall|k: int|
                0 <= k < p.memory.len() && !(send_base(idx) <= k < send_base(idx) + TASK_WORDS)
                    ==> r.pool.memory[k] == p.memory[k]
        }),
{
    let r = pool_step(p, cqe, received, proto, target);
    let idx = cqe.user_data as int;
    let mem1 = with_region(p.memory, recv_base(idx), received);
    let sr = step(
        p.tasks[idx],
        Some(cqe),
        send_region(mem1, idx),
        recv_region(mem1, idx),
        proto,
        target,
    );
    assert(sr.send.len() == BUF_WORDS);
    assert forall|k: int|
        0 <= k < p.memory.len() && !(send_base(idx) <= k < send_base(idx) + TASK_WORDS) implies
        r.pool.memory[k] == p.memory[k] by {
        assert(r.pool.memory[k] == mem1[k]);
        assert(mem1[k] == p.memory[k]);
    }
}

} // verus!
