use gaimode::cfg::Settings;
use gaimode::optimizer::{
    Action, CpuMask, GovernorProbe, Optimizer, PolicyGov, ProcessCapture,
};
use gaimode::proto::Commands;

fn policy(path: &str, governor: &str) -> PolicyGov {
    PolicyGov { path: path.to_string(), governor: governor.to_string() }
}

fn probe_with(available: bool, govs: Vec<PolicyGov>) -> GovernorProbe {
    GovernorProbe { available, govs }
}

fn capture(nice: Option<i32>, ionice: Option<i32>, mask: Option<Vec<bool>>) -> ProcessCapture {
    ProcessCapture {
        niceness: nice,
        ioniceness: ionice,
        aff_mask: mask.map(|cpus| CpuMask { cpus }),
    }
}

#[test]
fn happy_path_optimize_then_reset() {
    // Every policy runs "schedutil"; a client optimizes pid 1234 and then
    // releases it; the engine ends idle with the snapshot written back.
    let mut opt = Optimizer::new(Settings::default());
    assert!(!opt.is_optimized());
    assert!(opt.needs_governor_probe());

    let probe = probe_with(true, vec![policy("policy0", "schedutil"), policy("policy1", "schedutil")]);
    let acts = opt.begin_optimize(Some(probe));
    assert!(opt.is_optimized());
    assert_eq!(
        acts,
        vec![
            Action::SetGovernor { path: "policy0".to_string(), governor: "performance".to_string() },
            Action::SetGovernor { path: "policy1".to_string(), governor: "performance".to_string() },
        ]
    );

    let acts = opt.add_process(1234, capture(Some(0), Some(4), Some(vec![true, true])), 2);
    assert_eq!(
        acts,
        vec![
            Action::SetNice { pid: 1234, value: -10 },
            Action::SetIoNice { pid: 1234, level: 1 },
            Action::PickAndPin { pid: 1234 },
        ]
    );
    assert_eq!(opt.tracked_pids(), vec![1234]);

    let acts = opt.reset_process(1234);
    assert_eq!(
        acts,
        vec![
            Action::SetNice { pid: 1234, value: 0 },
            Action::SetIoNice { pid: 1234, level: 4 },
            Action::RestoreAffinity { pid: 1234, mask: CpuMask { cpus: vec![true, true] } },
        ]
    );
    assert!(opt.tracked_pids().is_empty());

    // The tracked set is empty while optimized: the next tick reverts.
    let acts = opt.finish_tick(&vec![]);
    assert_eq!(
        acts,
        vec![
            Action::SetGovernor { path: "policy0".to_string(), governor: "schedutil".to_string() },
            Action::SetGovernor { path: "policy1".to_string(), governor: "schedutil".to_string() },
        ]
    );
    assert!(!opt.is_optimized());
}

#[test]
fn auto_revert_when_workload_dies() {
    let mut opt = Optimizer::new(Settings::default());
    let probe = probe_with(true, vec![policy("policy0", "powersave")]);
    opt.begin_optimize(Some(probe));
    opt.add_process(9999, capture(Some(5), Some(3), Some(vec![true])), 1);
    assert_eq!(opt.tracked_pids(), vec![9999]);

    // The workload exits; the next tick's probe finds it dead.
    let acts = opt.finish_tick(&vec![false]);
    assert!(opt.tracked_pids().is_empty());
    assert!(!opt.is_optimized());
    assert_eq!(
        acts,
        vec![Action::SetGovernor { path: "policy0".to_string(), governor: "powersave".to_string() }]
    );
}

#[test]
fn missing_governor_skips_governor_only() {
    // No policy lists the chosen governor: the probe reports unavailable.
    let mut opt = Optimizer::new(Settings::default());
    let probe = probe_with(false, vec![]);
    let acts = opt.begin_optimize(Some(probe));
    assert!(acts.is_empty());
    assert!(opt.is_optimized());

    // The per-process tunings still happen.
    let acts = opt.add_process(1, capture(Some(0), Some(4), Some(vec![true])), 1);
    assert_eq!(acts.len(), 3);

    // And the later revert has no stale snapshot to write back.
    let acts = opt.reset();
    assert_eq!(
        acts,
        vec![
            Action::SetNice { pid: 1, value: 0 },
            Action::SetIoNice { pid: 1, level: 4 },
            Action::RestoreAffinity { pid: 1, mask: CpuMask { cpus: vec![true] } },
        ]
    );
    assert!(!opt.is_optimized());
}

#[test]
fn reset_all_with_two_pids() {
    let mut opt = Optimizer::new(Settings::default());
    let probe = probe_with(true, vec![policy("policy0", "schedutil")]);
    opt.begin_optimize(Some(probe));
    opt.add_process(100, capture(Some(1), Some(2), Some(vec![true])), 1);
    opt.add_process(200, capture(Some(3), Some(4), Some(vec![true])), 1);
    assert_eq!(opt.tracked_pids(), vec![100, 200]);

    let acts = opt.reset();
    assert_eq!(
        acts,
        vec![
            Action::SetNice { pid: 100, value: 1 },
            Action::SetIoNice { pid: 100, level: 2 },
            Action::RestoreAffinity { pid: 100, mask: CpuMask { cpus: vec![true] } },
            Action::SetNice { pid: 200, value: 3 },
            Action::SetIoNice { pid: 200, level: 4 },
            Action::RestoreAffinity { pid: 200, mask: CpuMask { cpus: vec![true] } },
            Action::SetGovernor { path: "policy0".to_string(), governor: "schedutil".to_string() },
        ]
    );
    assert!(opt.tracked_pids().is_empty());
    assert!(!opt.is_optimized());
}

#[test]
fn reset_untracked_pid_is_noop() {
    let mut opt = Optimizer::new(Settings::default());
    let acts = opt.reset_process(42);
    assert!(acts.is_empty());
    assert!(!opt.is_optimized());
    assert!(opt.tracked_pids().is_empty());

    // Also while optimized with another pid tracked.
    opt.begin_optimize(Some(probe_with(true, vec![policy("policy0", "schedutil")])));
    opt.add_process(7, capture(Some(0), Some(4), Some(vec![true])), 1);
    let acts = opt.reset_process(42);
    assert!(acts.is_empty());
    assert_eq!(opt.tracked_pids(), vec![7]);
}

#[test]
fn second_optimize_keeps_first_capture() {
    let mut opt = Optimizer::new(Settings::default());
    opt.begin_optimize(Some(probe_with(true, vec![policy("policy0", "schedutil")])));
    let first = opt.add_process(55, capture(Some(5), Some(6), Some(vec![true, false])), 2);
    let second = opt.add_process(55, capture(Some(7), Some(0), Some(vec![false, true])), 2);
    assert_eq!(first, second);
    assert_eq!(opt.tracked_pids(), vec![55]);

    // The restore uses the first capture, not the second.
    let acts = opt.reset_process(55);
    assert_eq!(
        acts,
        vec![
            Action::SetNice { pid: 55, value: 5 },
            Action::SetIoNice { pid: 55, level: 6 },
            Action::RestoreAffinity { pid: 55, mask: CpuMask { cpus: vec![true, false] } },
        ]
    );
}

#[test]
fn governor_toggle_off_never_asks_for_a_probe() {
    let mut settings = Settings::default();
    settings.cpu_governor.enabled = false;
    let mut opt = Optimizer::new(settings);
    assert!(!opt.needs_governor_probe());

    let acts = opt.begin_optimize(None);
    assert!(acts.is_empty());
    assert!(opt.is_optimized());

    opt.add_process(3, capture(Some(0), Some(4), Some(vec![true])), 1);
    let acts = opt.reset();
    // No governor write anywhere.
    assert!(acts.iter().all(|a| !matches!(a, Action::SetGovernor { .. })));
}

#[test]
fn disabled_dimensions_are_never_touched() {
    let mut settings = Settings::default();
    settings.niceness.enabled = false;
    settings.ioniceness.enabled = false;
    let mut opt = Optimizer::new(settings);
    opt.begin_optimize(Some(probe_with(true, vec![policy("policy0", "schedutil")])));
    let acts = opt.add_process(8, capture(None, None, Some(vec![true])), 1);
    assert_eq!(acts, vec![Action::PickAndPin { pid: 8 }]);
    let acts = opt.reset_process(8);
    assert_eq!(
        acts,
        vec![Action::RestoreAffinity { pid: 8, mask: CpuMask { cpus: vec![true] } }]
    );
}

#[test]
fn failed_captures_fall_back_to_defaults() {
    let mut opt = Optimizer::new(Settings::default());
    opt.begin_optimize(Some(probe_with(true, vec![policy("policy0", "schedutil")])));
    // Nothing could be captured: the stored priors become the configured
    // defaults, and the affinity mask allows all CPUs.
    opt.add_process(12, capture(None, None, None), 3);
    let acts = opt.reset_process(12);
    assert_eq!(
        acts,
        vec![
            Action::SetNice { pid: 12, value: 0 },
            Action::SetIoNice { pid: 12, level: 4 },
            Action::RestoreAffinity { pid: 12, mask: CpuMask { cpus: vec![true, true, true] } },
        ]
    );
}

#[test]
fn shutdown_mid_optimize_reverts_everything() {
    let mut opt = Optimizer::new(Settings::default());
    opt.begin_optimize(Some(probe_with(true, vec![policy("policy0", "schedutil")])));
    opt.add_process(42, capture(Some(0), Some(4), Some(vec![true])), 1);

    // Termination arrives: the shutdown revert restores the process and the
    // governors and leaves the engine idle.
    let acts = opt.graceful_shutdown();
    assert_eq!(
        acts,
        vec![
            Action::SetNice { pid: 42, value: 0 },
            Action::SetIoNice { pid: 42, level: 4 },
            Action::RestoreAffinity { pid: 42, mask: CpuMask { cpus: vec![true] } },
            Action::SetGovernor { path: "policy0".to_string(), governor: "schedutil".to_string() },
        ]
    );
    assert!(!opt.is_optimized());
    assert!(opt.tracked_pids().is_empty());
}

#[test]
fn handle_command_drives_the_same_transitions() {
    let mut opt = Optimizer::new(Settings::default());
    let probe = probe_with(true, vec![policy("policy0", "schedutil")]);
    let acts = opt.handle_command(
        &Commands::OptimizeProcess(77),
        Some(probe),
        Some(capture(Some(2), Some(3), Some(vec![true]))),
        1,
    );
    assert_eq!(
        acts,
        vec![
            Action::SetGovernor { path: "policy0".to_string(), governor: "performance".to_string() },
            Action::SetNice { pid: 77, value: -10 },
            Action::SetIoNice { pid: 77, level: 1 },
            Action::PickAndPin { pid: 77 },
        ]
    );
    assert!(opt.is_optimized());

    let acts = opt.handle_command(&Commands::ResetProcess(77), None, None, 1);
    assert_eq!(acts.len(), 3);

    let acts = opt.handle_command(&Commands::ResetAll, None, None, 1);
    assert_eq!(
        acts,
        vec![Action::SetGovernor { path: "policy0".to_string(), governor: "schedutil".to_string() }]
    );
    assert!(!opt.is_optimized());
}

#[test]
fn tick_without_deaths_changes_nothing() {
    let mut opt = Optimizer::new(Settings::default());
    opt.begin_optimize(Some(probe_with(true, vec![policy("policy0", "schedutil")])));
    opt.add_process(5, capture(Some(0), Some(4), Some(vec![true])), 1);
    let acts = opt.finish_tick(&vec![true]);
    assert!(acts.is_empty());
    assert!(opt.is_optimized());
    assert_eq!(opt.tracked_pids(), vec![5]);
}
