use echo_bench::ring::{Completion, ConnectAddr, OpKind, CQE_FLAG_MORE, SOCK_DGRAM, SOCK_STREAM};
use echo_bench::settings::{Protocol, TargetAddr};
use echo_bench::stats::Statistics;
use echo_bench::tasks::{TaskState, ThreadLocalTasking, BUF_WORDS, TASK_WORDS};

fn v4_target() -> TargetAddr {
    TargetAddr::V4 { addr: 0x7f00_0001, port: 6664 }
}

fn cqe(user_data: u64, res: i32) -> Completion {
    Completion { user_data, res, flags: 0 }
}

fn zero_words() -> Vec<u64> {
    vec![0u64; BUF_WORDS]
}

fn send_words(tasking: &ThreadLocalTasking, index: usize) -> Vec<u64> {
    let arena = tasking.arena();
    arena[index * TASK_WORDS..index * TASK_WORDS + BUF_WORDS].to_vec()
}

#[test]
fn setup_primes_every_connection() {
    let mut stats = Statistics::default();
    let (tasking, ops) = ThreadLocalTasking::setup(Protocol::Udp, &v4_target(), 4, &mut stats);
    assert_eq!(ops.len(), 4);
    assert_eq!(tasking.tasks.len(), 4);
    assert_eq!(tasking.memory.len(), 4 * TASK_WORDS);
    for (i, op) in ops.iter().enumerate() {
        assert_eq!(op.user_data, i as u64);
        match op.kind {
            OpKind::Socket { domain, sock_type } => {
                assert_eq!(domain, 2);
                assert_eq!(sock_type, SOCK_DGRAM);
            }
            _ => panic!("expected a socket submission"),
        }
    }
    for t in tasking.tasks.iter() {
        assert_eq!(t.state, TaskState::Connect);
        assert!(t.outstanding);
    }
    assert_eq!(stats.failed_connections, 0);
}

#[test]
fn tcp_setup_asks_for_stream_sockets() {
    let mut stats = Statistics::default();
    let (_tasking, ops) = ThreadLocalTasking::setup(Protocol::Tcp, &v4_target(), 1, &mut stats);
    match ops[0].kind {
        OpKind::Socket { sock_type, .. } => assert_eq!(sock_type, SOCK_STREAM),
        _ => panic!("expected a socket submission"),
    }
}

#[test]
fn socket_completion_emits_connect_with_target_address() {
    let mut stats = Statistics::default();
    let target = v4_target();
    let (mut tasking, _ops) = ThreadLocalTasking::setup(Protocol::Udp, &target, 2, &mut stats);
    let out = tasking.progress(cqe(1, 7), &zero_words(), Protocol::Udp, &target, &mut stats);
    assert!(!out.fatal);
    match out.submit {
        Some(op) => {
            assert_eq!(op.user_data, 1);
            match op.kind {
                OpKind::Connect { fd, addr } => {
                    assert_eq!(fd, 7);
                    assert_eq!(addr, ConnectAddr::V4 { port: 6664, addr: 0x7f00_0001 });
                }
                _ => panic!("expected a connect submission"),
            }
        }
        None => panic!("expected a submission"),
    }
    assert_eq!(tasking.tasks[1].fd, 7);
    assert_eq!(tasking.tasks[1].state, TaskState::Setup);
    assert!(tasking.tasks[1].addr.is_some());
}

#[test]
fn v6_target_yields_v6_connect() {
    let mut stats = Statistics::default();
    let target = TargetAddr::V6 { addr: 1, port: 443 };
    let (mut tasking, ops) = ThreadLocalTasking::setup(Protocol::Tcp, &target, 1, &mut stats);
    match ops[0].kind {
        OpKind::Socket { domain, .. } => assert_eq!(domain, 10),
        _ => panic!("expected a socket submission"),
    }
    let out = tasking.progress(cqe(0, 3), &zero_words(), Protocol::Tcp, &target, &mut stats);
    match out.submit.unwrap().kind {
        OpKind::Connect { addr, .. } => {
            assert_eq!(
                addr,
                ConnectAddr::V6 { port: 443, addr: 1, flowinfo: 0, scope_id: 0 }
            );
        }
        _ => panic!("expected a connect submission"),
    }
}

#[test]
fn socket_failure_is_fatal() {
    let mut stats = Statistics::default();
    let target = v4_target();
    let (mut tasking, _ops) = ThreadLocalTasking::setup(Protocol::Udp, &target, 1, &mut stats);
    let out = tasking.progress(cqe(0, -12), &zero_words(), Protocol::Udp, &target, &mut stats);
    assert!(out.fatal);
    assert!(out.submit.is_none());
    assert_eq!(out.log_errno, Some(-12));
}

#[test]
fn connect_refusals_count_and_retry_until_accept() {
    let mut stats = Statistics::default();
    let target = v4_target();
    let (mut tasking, _ops) = ThreadLocalTasking::setup(Protocol::Udp, &target, 1, &mut stats);
    let out = tasking.progress(cqe(0, 9), &zero_words(), Protocol::Udp, &target, &mut stats);
    assert!(matches!(out.submit.unwrap().kind, OpKind::Connect { .. }));

    let refusals: u64 = 5;
    for _ in 0..refusals {
        let out = tasking.progress(cqe(0, -111), &zero_words(), Protocol::Udp, &target, &mut stats);
        assert!(!out.fatal);
        assert!(matches!(out.submit.unwrap().kind, OpKind::Connect { fd: 9, .. }));
        assert_eq!(tasking.tasks[0].state, TaskState::Setup);
    }
    assert_eq!(stats.failed_connections, refusals);
    assert_eq!(stats.successful_returns, 0);

    let out = tasking.progress(cqe(0, 0), &zero_words(), Protocol::Udp, &target, &mut stats);
    assert!(matches!(out.submit.unwrap().kind, OpKind::SendZc { fd: 9, index: 0 }));
    assert_eq!(tasking.tasks[0].state, TaskState::Receive);
    assert!(tasking.tasks[0].addr.is_none());
    assert_eq!(stats.failed_connections, refusals);
}

#[test]
fn first_payload_of_connection_zero_is_word_positions() {
    // Connection 0 seeds its generator with 0 over an all-zero buffer, so
    // the salted first payload is exactly the word positions.
    let mut stats = Statistics::default();
    let target = v4_target();
    let (mut tasking, _ops) = ThreadLocalTasking::setup(Protocol::Udp, &target, 1, &mut stats);
    tasking.progress(cqe(0, 4), &zero_words(), Protocol::Udp, &target, &mut stats);
    tasking.progress(cqe(0, 0), &zero_words(), Protocol::Udp, &target, &mut stats);
    let sent = send_words(&tasking, 0);
    for (j, w) in sent.iter().enumerate() {
        assert_eq!(*w, j as u64);
    }
}

#[test]
fn more_flag_holds_the_machine_still() {
    let mut stats = Statistics::default();
    let target = v4_target();
    let (mut tasking, _ops) = ThreadLocalTasking::setup(Protocol::Udp, &target, 1, &mut stats);
    tasking.progress(cqe(0, 4), &zero_words(), Protocol::Udp, &target, &mut stats);
    tasking.progress(cqe(0, 0), &zero_words(), Protocol::Udp, &target, &mut stats);
    let before_state = tasking.tasks[0].state;
    let before_send = send_words(&tasking, 0);

    let more = Completion { user_data: 0, res: 4096, flags: CQE_FLAG_MORE };
    let out = tasking.progress(more, &zero_words(), Protocol::Udp, &target, &mut stats);
    assert!(out.submit.is_none());
    assert!(!out.fatal);
    assert_eq!(tasking.tasks[0].state, before_state);
    assert_eq!(send_words(&tasking, 0), before_send);
    assert_eq!(stats.successful_returns, 0);
    assert_eq!(stats.wrong_return, 0);

    // The terminal completion of the same send then moves the machine on.
    let out = tasking.progress(cqe(0, 4096), &zero_words(), Protocol::Udp, &target, &mut stats);
    assert!(matches!(out.submit.unwrap().kind, OpKind::Read { .. }));
    assert_eq!(tasking.tasks[0].state, TaskState::Send);
}

#[test]
fn perfect_echo_counts_success() {
    let mut stats = Statistics::default();
    let target = v4_target();
    let (mut tasking, _ops) = ThreadLocalTasking::setup(Protocol::Udp, &target, 1, &mut stats);
    tasking.progress(cqe(0, 4), &zero_words(), Protocol::Udp, &target, &mut stats);
    tasking.progress(cqe(0, 0), &zero_words(), Protocol::Udp, &target, &mut stats);
    tasking.progress(cqe(0, 4096), &zero_words(), Protocol::Udp, &target, &mut stats);

    let echoed = send_words(&tasking, 0);
    let out = tasking.progress(cqe(0, 4096), &echoed, Protocol::Udp, &target, &mut stats);
    assert_eq!(stats.successful_returns, 1);
    assert_eq!(stats.wrong_return, 0);
    assert!(matches!(out.submit.unwrap().kind, OpKind::SendZc { .. }));
    assert_eq!(tasking.tasks[0].state, TaskState::Receive);
}

#[test]
fn corrupted_echo_counts_wrong_exactly_once() {
    let mut stats = Statistics::default();
    let target = v4_target();
    let (mut tasking, _ops) = ThreadLocalTasking::setup(Protocol::Udp, &target, 1, &mut stats);
    tasking.progress(cqe(0, 4), &zero_words(), Protocol::Udp, &target, &mut stats);
    tasking.progress(cqe(0, 0), &zero_words(), Protocol::Udp, &target, &mut stats);
    tasking.progress(cqe(0, 4096), &zero_words(), Protocol::Udp, &target, &mut stats);

    let mut echoed = send_words(&tasking, 0);
    echoed[17] ^= 0xff;
    tasking.progress(cqe(0, 4096), &echoed, Protocol::Udp, &target, &mut stats);
    assert_eq!(stats.wrong_return, 1);
    assert_eq!(stats.successful_returns, 0);
}

#[test]
fn payload_changes_between_cycles() {
    let mut stats = Statistics::default();
    let target = v4_target();
    let (mut tasking, _ops) = ThreadLocalTasking::setup(Protocol::Udp, &target, 1, &mut stats);
    tasking.progress(cqe(0, 4), &zero_words(), Protocol::Udp, &target, &mut stats);
    tasking.progress(cqe(0, 0), &zero_words(), Protocol::Udp, &target, &mut stats);
    let first = send_words(&tasking, 0);

    tasking.progress(cqe(0, 4096), &zero_words(), Protocol::Udp, &target, &mut stats);
    let echoed = send_words(&tasking, 0);
    tasking.progress(cqe(0, 4096), &echoed, Protocol::Udp, &target, &mut stats);
    let second = send_words(&tasking, 0);
    assert_ne!(first, second);
}
