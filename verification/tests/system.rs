use gaimode::cfg::{Settings, DEFAULT_NICE_VALUE, OPTIMIZED_NICE_VALUE, PERF_GOV};
use gaimode::cpu::{
    compute_loads, cpu_load_permyriad, governor_listed, parse_core_id, parse_proc_stat, parse_u64,
    pick_pin_cpu, CpuTimes,
};
use gaimode::io::{
    ioprio_prio_data, ioprio_value, DEFAULT_IO_NICE_VALUE, IOPRIO_CLASS_BE,
    OPTIMIZED_IO_NICE_VALUE,
};
use gaimode::service::daemon_needs_start;

fn times(user: u64, nice: u64, system: u64, idle: u64, iowait: u64, irq: u64, softirq: u64) -> CpuTimes {
    CpuTimes { user, nice, system, idle, iowait, irq, softirq }
}

#[test]
fn default_settings_match_the_documented_defaults() {
    let s = Settings::default();
    assert!(s.cpu_affinity.enabled);
    assert!(s.cpu_governor.enabled);
    assert_eq!(s.cpu_governor.optimized_type, PERF_GOV);
    assert!(s.niceness.enabled);
    assert_eq!(s.niceness.optimized_value, OPTIMIZED_NICE_VALUE);
    assert_eq!(s.niceness.default_value, DEFAULT_NICE_VALUE);
    assert!(s.ioniceness.enabled);
    assert_eq!(s.ioniceness.optimized_value, OPTIMIZED_IO_NICE_VALUE);
    assert_eq!(s.ioniceness.default_value, DEFAULT_IO_NICE_VALUE);
    assert_eq!(OPTIMIZED_NICE_VALUE, -10);
    assert_eq!(DEFAULT_NICE_VALUE, 0);
    assert_eq!(OPTIMIZED_IO_NICE_VALUE, 1);
    assert_eq!(DEFAULT_IO_NICE_VALUE, 4);
}

#[test]
fn ioprio_packs_class_and_level() {
    // (class << 13) | level, best-effort class id 2, level 1.
    assert_eq!(ioprio_value(IOPRIO_CLASS_BE, 1), 0x4001);
    assert_eq!(ioprio_value(IOPRIO_CLASS_BE, 0), 0x4000);
    assert_eq!(ioprio_value(IOPRIO_CLASS_BE, 7), 0x4007);
    assert_eq!(ioprio_value(1, 4), 0x2004);
}

#[test]
fn ioprio_prio_data_extracts_the_level() {
    assert_eq!(ioprio_prio_data(0x4001), 1);
    assert_eq!(ioprio_prio_data(0x4007), 7);
    assert_eq!(ioprio_prio_data(4), 4);
    assert_eq!(ioprio_prio_data(ioprio_value(IOPRIO_CLASS_BE, 5) as i32), 5);
}

#[test]
fn load_is_busy_over_total() {
    // busy = 20 + 0 + 5 + 0 + 0 = 25, total = 25 + 70 + 5 = 100 -> 25.00 %
    let start = times(10, 0, 5, 100, 5, 0, 0);
    let end = times(30, 0, 10, 170, 10, 0, 0);
    assert_eq!(cpu_load_permyriad(&start, &end), 2500);
}

#[test]
fn load_with_no_elapsed_time_is_zero() {
    let t = times(1, 2, 3, 4, 5, 6, 7);
    assert_eq!(cpu_load_permyriad(&t, &t), 0);
}

#[test]
fn compute_loads_is_per_index() {
    let start = vec![times(0, 0, 0, 0, 0, 0, 0), times(10, 0, 0, 10, 0, 0, 0)];
    let end = vec![times(50, 0, 0, 50, 0, 0, 0), times(10, 0, 0, 110, 0, 0, 0)];
    assert_eq!(compute_loads(&start, &end), vec![5000, 0]);
}

#[test]
fn pick_avoids_core_zero() {
    // CPU 0 is the least loaded but sits on core 0: the next-least loaded
    // CPU with a positive core id wins.
    let loads = vec![0, 900, 300, 300];
    let core_ids = vec![0, 1, 1, 2];
    assert_eq!(pick_pin_cpu(&loads, &core_ids), 2);
}

#[test]
fn pick_breaks_ties_by_index() {
    let loads = vec![500, 200, 200];
    let core_ids = vec![1, 1, 1];
    assert_eq!(pick_pin_cpu(&loads, &core_ids), 1);
}

#[test]
fn pick_falls_back_to_cpu_zero() {
    // A machine where every CPU reports core id 0.
    let loads = vec![100, 50];
    let core_ids = vec![0, 0];
    assert_eq!(pick_pin_cpu(&loads, &core_ids), 0);
}

#[test]
fn parse_u64_reads_plain_decimals() {
    assert_eq!(parse_u64(&b"0".to_vec()), Some(0));
    assert_eq!(parse_u64(&b"4711".to_vec()), Some(4711));
    assert_eq!(parse_u64(&b"18446744073709551615".to_vec()), Some(u64::MAX));
    assert_eq!(parse_u64(&b"18446744073709551616".to_vec()), None);
    assert_eq!(parse_u64(&b"".to_vec()), None);
    assert_eq!(parse_u64(&b"12a".to_vec()), None);
    assert_eq!(parse_u64(&b"-3".to_vec()), None);
}

#[test]
fn parse_proc_stat_reads_the_per_cpu_lines() {
    let text = b"cpu  100 0 50 800 10 5 5\n\
cpu0 60 0 30 400 5 3 2\n\
cpu1 40 0 20 400 5 2 3\n\
intr 12345\n"
        .to_vec();
    let parsed = parse_proc_stat(&text, 2).expect("two per-cpu lines parse");
    assert_eq!(parsed.len(), 2);
    assert_eq!(parsed[0], times(60, 0, 30, 400, 5, 3, 2));
    assert_eq!(parsed[1], times(40, 0, 20, 400, 5, 2, 3));
}

#[test]
fn parse_proc_stat_needs_enough_lines() {
    let text = b"cpu  100 0 50 800 10 5 5\ncpu0 60 0 30 400 5 3 2\n".to_vec();
    assert!(parse_proc_stat(&text, 4).is_none());
}

#[test]
fn parse_proc_stat_rejects_a_mangled_line() {
    let text = b"cpu  1 2 3 4 5 6 7\ncpu0 60 0 thirty 400 5 3 2\n".to_vec();
    assert!(parse_proc_stat(&text, 1).is_none());
}

#[test]
fn parse_core_id_trims_the_newline() {
    assert_eq!(parse_core_id(&b"3\n".to_vec()), Some(3));
    assert_eq!(parse_core_id(&b"  12 \n".to_vec()), Some(12));
    assert_eq!(parse_core_id(&b"0".to_vec()), Some(0));
    assert_eq!(parse_core_id(&b"\n".to_vec()), None);
    assert_eq!(parse_core_id(&b"x7\n".to_vec()), None);
}

#[test]
fn governor_listed_finds_the_name() {
    let listing = b"conservative ondemand userspace powersave performance schedutil\n".to_vec();
    assert!(governor_listed(&listing, &b"performance".to_vec()));
    assert!(governor_listed(&listing, &b"schedutil".to_vec()));
    assert!(!governor_listed(&listing, &b"turbo".to_vec()));
}

#[test]
fn empty_governor_listing_offers_nothing() {
    // A policy whose available-governors file is empty.
    assert!(!governor_listed(&Vec::new(), &b"performance".to_vec()));
}

#[test]
fn daemon_start_decision_follows_unit_state() {
    assert!(!daemon_needs_start(&"active".to_string()));
    assert!(!daemon_needs_start(&"activating".to_string()));
    assert!(daemon_needs_start(&"inactive".to_string()));
    assert!(daemon_needs_start(&"failed".to_string()));
    assert!(daemon_needs_start(&"".to_string()));
}
