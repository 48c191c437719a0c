//! Plain-value models of what crosses the completion-ring boundary.
//!
//! The ring itself is a kernel resource driven by the unverified front end;
//! the core only ever sees completions as plain values and answers with
//! submission descriptions. A `Completion` mirrors one completion-queue
//! entry; an `Op` describes exactly one entry to submit, tagged with the
//! correlation id that the kernel will echo back.

use vstd::prelude::*;

verus! {

/// Submission capacity of each worker's ring.
pub const IO_URING_SIZE: u32 = 512;

/// Correlation id of the worker's deadline timer: distinguishable from any
/// connection index, which is bounded by the connection count.
pub const DEADLINE_USER_DATA: u64 = u64::MAX;

/// Completion flag bit meaning "more completions follow for this same
/// logical operation"; mirrors the kernel's `IORING_CQE_F_MORE` bit.
pub const CQE_FLAG_MORE: u32 = 2;

/// Address family and socket type numbers of the Linux socket ABI.
pub const AF_INET: i32 = 2;

pub const AF_INET6: i32 = 10;

pub const SOCK_STREAM: i32 = 1;

pub const SOCK_DGRAM: i32 = 2;

/// One completion-queue entry, as plain values: the echoed correlation id,
/// the operation's result (negative means an error), and the flag bits.
#[derive(Clone, Copy, Debug, PartialEq, Eq, Structural)]
pub struct Completion {
    pub user_data: u64,
    pub res: i32,
    pub flags: u32,
}

/// Whether this completion announces that more completions follow for the
/// same logical operation (a zero-copy send reports its result first and
/// its buffer release later).
pub open spec fn has_more(c: Completion) -> bool {
    c.flags & CQE_FLAG_MORE != 0
}

/// The address a connection hands to an in-flight connect submission.
/// Port and address bits are in host order; the front end lays them out
/// in network order when it builds the kernel's socket address structure,
/// which must stay at a fixed location while the connect is in flight.
#[derive(Clone, Copy, Debug, PartialEq, Eq)]
#[allow(inconsistent_fields)]
pub enum ConnectAddr {
    V4 { port: u16, addr: u32 },
    V6 { port: u16, addr: u128, flowinfo: u32, scope_id: u32 },
}

/// What one submission-queue entry asks the kernel to do. Buffer-touching
/// operations name the connection index whose arena slice they use.
#[derive(Clone, Copy, Debug, PartialEq, Eq)]
#[allow(inconsistent_fields)]
pub enum OpKind {
    Socket { domain: i32, sock_type: i32 },
    Connect { fd: i32, addr: ConnectAddr },
    SendZc { fd: i32, index: usize },
    Read { fd: i32, index: usize },
}

/// One operation to submit: the entry description plus the correlation id
/// the kernel will echo on its completion.
#[derive(Clone, Copy, Debug, PartialEq, Eq)]
pub struct Op {
    pub user_data: u64,
    pub kind: OpKind,
}

} // verus!
