use echo_bench::settings::{Protocol, Settings, TargetAddr, TimeSpec};

fn base_settings(connections: usize, threads: usize) -> Settings {
    Settings {
        burn_time: TimeSpec { tv_sec: 10, tv_nsec: 0 },
        connections,
        target: TargetAddr::V4 { addr: 0x7f00_0001, port: 6664 },
        proto: Protocol::Udp,
        threads,
        debug: false,
    }
}

#[test]
fn connections_split_evenly_over_threads() {
    assert_eq!(base_settings(1024, 4).connections_per_thread(), 256);
    assert_eq!(base_settings(8, 8).connections_per_thread(), 1);
}

#[test]
fn connections_round_up_so_none_is_dropped() {
    assert_eq!(base_settings(10, 3).connections_per_thread(), 4);
    assert_eq!(base_settings(1, 16).connections_per_thread(), 1);
    assert_eq!(base_settings(0, 3).connections_per_thread(), 0);
}
