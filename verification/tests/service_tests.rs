use ip_echo::ExitType;
use ip_echo::IpAddress;
use ip_echo::Phase;
use ip_echo::RequestCounter;
use ip_echo::ShutdownCoordinator;
use ip_echo::TelemetrySample;
use ip_echo::TelemetryState;
use ip_echo::error;
use ip_echo::format_ip;
use ip_echo::handle_connection;

#[test]
fn counter_counts_every_increment() {
    let mut c = RequestCounter::new();
    assert_eq!(c.snapshot(), 0);
    c.increment();
    c.increment();
    c.increment();
    assert_eq!(c.snapshot(), 3);
}

#[test]
fn counter_loses_no_updates_over_many_increments() {
    let mut c = RequestCounter::new();
    c.increment_n(10_000);
    assert_eq!(c.snapshot(), 10_000);
    c.increment_n(1);
    assert_eq!(c.snapshot(), 10_001);
}

#[test]
fn telemetry_reports_interval_and_cumulative_rates() {
    let mut st = TelemetryState::new();
    // The timer's immediate first tick falls in the same second as the
    // baseline and reports nothing.
    assert_eq!(st.on_tick(0, 0), None);
    let first = st.on_tick(100, 60).unwrap();
    assert_eq!(
        first,
        TelemetrySample { interval_count: 100, interval_secs: 60, total_count: 100, total_secs: 60 }
    );
    let second = st.on_tick(250, 120).unwrap();
    assert_eq!(
        second,
        TelemetrySample {
            interval_count: 150,
            interval_secs: 60,
            total_count: 250,
            total_secs: 120,
        }
    );
    let first_rate = first.interval_count as f64 / first.interval_secs as f64;
    let first_cumulative = first.total_count as f64 / first.total_secs as f64;
    let second_rate = second.interval_count as f64 / second.interval_secs as f64;
    let second_cumulative = second.total_count as f64 / second.total_secs as f64;
    assert!((first_rate - 1.67).abs() < 0.01);
    assert!((first_cumulative - 1.67).abs() < 0.01);
    assert!((second_rate - 2.5).abs() < 0.001);
    assert!((second_cumulative - 2.08).abs() < 0.01);
}

#[test]
fn telemetry_never_divides_by_a_zero_interval() {
    let mut st = TelemetryState::new();
    assert_eq!(st.on_tick(0, 0), None);
    let sample = st.on_tick(100, 60).unwrap();
    assert!(sample.interval_secs > 0);
    assert!(sample.total_secs > 0);
    // A tick within the same second is skipped entirely.
    assert_eq!(st.on_tick(300, 60), None);
    // The skipped tick changed nothing: the next one still measures from
    // the last reported baseline.
    let next = st.on_tick(300, 61).unwrap();
    assert_eq!(
        next,
        TelemetrySample { interval_count: 200, interval_secs: 1, total_count: 300, total_secs: 61 }
    );
}

#[test]
fn shutdown_signal_drains_every_unit() {
    // Three listeners plus the telemetry loop.
    let mut sc = ShutdownCoordinator::new(4);
    assert_eq!(sc.phase, Phase::Running);
    let stop_all = sc.on_signal(ExitType::Interrupt);
    assert!(stop_all);
    assert_eq!(sc.phase, Phase::ShuttingDown);
    for _ in 0..4 {
        assert!(!sc.is_stopped());
        sc.on_unit_stopped();
    }
    assert!(sc.is_stopped());
    assert_eq!(sc.pending, 0);
    assert_eq!(sc.exit_code(), 0);
}

#[test]
fn second_signal_is_ignored() {
    let mut sc = ShutdownCoordinator::new(2);
    assert!(sc.on_signal(ExitType::Termination));
    assert!(!sc.on_signal(ExitType::Interrupt));
    assert_eq!(sc.phase, Phase::ShuttingDown);
    sc.on_unit_stopped();
    sc.on_unit_stopped();
    assert!(sc.is_stopped());
}

#[test]
fn both_signal_kinds_act_identically() {
    let mut a = ShutdownCoordinator::new(1);
    let mut b = ShutdownCoordinator::new(1);
    a.on_signal(ExitType::Interrupt);
    b.on_signal(ExitType::Termination);
    assert_eq!(a, b);
}

#[test]
fn response_body_is_the_peer_address() {
    let mut c = RequestCounter::new();
    let peer = Some(IpAddress::V4 { a: 203, b: 0, c: 113, d: 7 });
    let body = handle_connection(&mut c, &peer);
    assert_eq!(body, "203.0.113.7");
    assert_eq!(c.snapshot(), 1);
}

#[test]
fn unknown_peer_yields_error_body_and_still_counts() {
    let mut c = RequestCounter::new();
    let body = handle_connection(&mut c, &None);
    assert_eq!(body, "error");
    assert_eq!(c.snapshot(), 1);
}

#[test]
fn ipv6_rendering_compresses_the_longest_zero_run() {
    let ip = IpAddress::V6 { s0: 0, s1: 0, s2: 0, s3: 0, s4: 0, s5: 0, s6: 0, s7: 1 };
    assert_eq!(format_ip(&ip), "::1");
    let ip = IpAddress::V6 { s0: 0x2001, s1: 0xdb8, s2: 0, s3: 0, s4: 0, s5: 0, s6: 0, s7: 1 };
    assert_eq!(format_ip(&ip), "2001:db8::1");
    let ip = IpAddress::V6 { s0: 0, s1: 0, s2: 0, s3: 0, s4: 0, s5: 0, s6: 0, s7: 0 };
    assert_eq!(format_ip(&ip), "::");
    let ip = IpAddress::V6 { s0: 1, s1: 2, s2: 3, s3: 4, s4: 0, s5: 0, s6: 0, s7: 0 };
    assert_eq!(format_ip(&ip), "1:2:3:4::");
    let ip = IpAddress::V6 {
        s0: 0xfe80,
        s1: 0xabcd,
        s2: 0x1,
        s3: 0x23,
        s4: 0x456,
        s5: 0xffff,
        s6: 0x10,
        s7: 0x9,
    };
    assert_eq!(format_ip(&ip), "fe80:abcd:1:23:456:ffff:10:9");
}

#[test]
fn ipv6_rendering_leaves_a_single_zero_group_alone() {
    let ip = IpAddress::V6 { s0: 1, s1: 0, s2: 2, s3: 3, s4: 4, s5: 5, s6: 6, s7: 7 };
    assert_eq!(format_ip(&ip), "1:0:2:3:4:5:6:7");
}

#[test]
fn ipv6_rendering_prefers_the_leftmost_of_equal_runs() {
    let ip = IpAddress::V6 { s0: 1, s1: 0, s2: 0, s3: 2, s4: 0, s5: 0, s6: 3, s7: 4 };
    assert_eq!(format_ip(&ip), "1::2:0:0:3:4");
}

#[test]
fn ipv4_mapped_address_renders_with_dotted_tail() {
    let ip = IpAddress::V6 {
        s0: 0,
        s1: 0,
        s2: 0,
        s3: 0,
        s4: 0,
        s5: 0xffff,
        s6: 0xc000,
        s7: 0x0201,
    };
    assert_eq!(format_ip(&ip), "::ffff:192.0.2.1");
}

#[test]
fn ipv4_octet_widths_render_exactly() {
    let ip = IpAddress::V4 { a: 0, b: 9, c: 10, d: 255 };
    assert_eq!(format_ip(&ip), "0.9.10.255");
}

#[test]
fn fatal_errors_carry_their_message() {
    let e = error(String::from("failed to open cert.pem"));
    assert_eq!(e.message().as_str(), "failed to open cert.pem");
}
