//! The optimization engine: a state machine over the set of tracked
//! processes, the governor snapshot and the optimized flag.
//!
//! The engine itself performs no system call. Each operation takes what was
//! observed outside (a governor probe, the captured prior state of a process,
//! liveness verdicts) as plain values, updates the engine's state, and returns
//! the list of [`Action`]s to perform. The host loop carries the actions out
//! and feeds the next observations back in.

use vstd::prelude::*;

use crate::cfg::{Settings, SettingsModel};
use crate::proto::Commands;

verus! {

/// One cpufreq policy: its sysfs path and a governor name.
#[derive(Clone, Debug, PartialEq)]
pub struct PolicyGov {
    pub path: String,
    pub governor: String,
}

/// The mathematical content of a [`PolicyGov`].
#[verifier::ext_equal]
pub struct PolicyGovModel {
    pub path: Seq<char>,
    pub governor: Seq<char>,
}

impl View for PolicyGov {
    type V = PolicyGovModel;

    open spec fn view(&self) -> PolicyGovModel {
        PolicyGovModel { path: self.path@, governor: self.governor@ }
    }
}

/// A CPU affinity mask: entry `i` says whether the task may run on CPU `i`.
#[derive(Clone, Debug, PartialEq)]
pub struct CpuMask {
    pub cpus: Vec<bool>,
}

impl View for CpuMask {
    type V = Seq<bool>;

    open spec fn view(&self) -> Seq<bool> {
        self.cpus@
    }
}

/// The mask that allows every one of `n` CPUs.
pub open spec fn all_cpus_mask(n: nat) -> Seq<bool> {
    Seq::new(n, |i: int| true)
}

impl CpuMask {
    /// The mask that allows every one of `ncpus` CPUs.
    pub fn all(ncpus: usize) -> (r: CpuMask)
        ensures
            r@ == all_cpus_mask(ncpus as nat),
    {
        let mut cpus: Vec<bool> = Vec::new();
        let mut i: usize = 0;
        while i < ncpus
            invariant
                i <= ncpus,
                cpus@ =~= all_cpus_mask(i as nat),
            decreases ncpus - i,
        {
            cpus.push(true);
            i = i + 1;
        }
        CpuMask { cpus }
    }
}

/// The prior state kept for one tracked process. Under the engine's
/// invariant, a field is present exactly when its toggle is enabled.
#[derive(Debug, PartialEq)]
pub struct ProcessState {
    pub niceness: Option<i32>,
    pub ioniceness: Option<i32>,
    pub aff_mask: Option<CpuMask>,
}

/// What could be captured of a process's prior state before admission.
/// A missing value (capture failed, or not attempted because the toggle is
/// off) is `None`; the engine substitutes the configured default.
#[derive(Debug, PartialEq)]
pub struct ProcessCapture {
    pub niceness: Option<i32>,
    pub ioniceness: Option<i32>,
    pub aff_mask: Option<CpuMask>,
}

/// The mathematical content of a [`ProcessState`] or a [`ProcessCapture`].
#[verifier::ext_equal]
pub struct ProcModel {
    pub niceness: Option<i32>,
    pub ioniceness: Option<i32>,
    pub aff: Option<Seq<bool>>,
}

impl View for ProcessState {
    type V = ProcModel;

    open spec fn view(&self) -> ProcModel {
        ProcModel {
            niceness: self.niceness,
            ioniceness: self.ioniceness,
            aff: match self.aff_mask {
                Some(m) => Some(m@),
                None => None,
            },
        }
    }
}

impl View for ProcessCapture {
    type V = ProcModel;

    open spec fn view(&self) -> ProcModel {
        ProcModel {
            niceness: self.niceness,
            ioniceness: self.ioniceness,
            aff: match self.aff_mask {
                Some(m) => Some(m@),
                None => None,
            },
        }
    }
}

/// What the host observed of the cpufreq policies before an episode begins:
/// whether the chosen governor is listed by any policy, and every policy's
/// current governor.
#[derive(Debug, PartialEq)]
pub struct GovernorProbe {
    pub available: bool,
    pub govs: Vec<PolicyGov>,
}

/// The mathematical content of a [`GovernorProbe`].
#[verifier::ext_equal]
pub struct ProbeModel {
    pub available: bool,
    pub govs: Seq<PolicyGovModel>,
}

impl View for GovernorProbe {
    type V = ProbeModel;

    open spec fn view(&self) -> ProbeModel {
        ProbeModel { available: self.available, govs: self.govs@.map(|i: int, p: PolicyGov| p@) }
    }
}

/// The content of an optional probe.
pub open spec fn probe_view(p: Option<GovernorProbe>) -> Option<ProbeModel> {
    match p {
        Some(pr) => Some(pr@),
        None => None,
    }
}

/// One outside effect the host must perform on the engine's behalf.
#[derive(Clone, Debug, PartialEq)]
pub enum Action {
    /// Write `governor` to the policy at `path`.
    SetGovernor { path: String, governor: String },
    /// Set the nice value of every task of `pid`.
    SetNice { pid: i32, value: i32 },
    /// Set the best-effort I/O-priority level of every task of `pid`.
    SetIoNice { pid: i32, level: i32 },
    /// Sample per-CPU load, pick a pin target, pin `pid`'s main task to it
    /// and push its other tasks off it.
    PickAndPin { pid: i32 },
    /// Restore `mask` on every task of `pid`.
    RestoreAffinity { pid: i32, mask: CpuMask },
}

/// The mathematical content of an [`Action`].
#[verifier::ext_equal]
pub enum ActModel {
    SetGovernor { path: Seq<char>, governor: Seq<char> },
    SetNice { pid: i32, value: i32 },
    SetIoNice { pid: i32, level: i32 },
    PickAndPin { pid: i32 },
    RestoreAffinity { pid: i32, mask: Seq<bool> },
}

impl View for Action {
    type V = ActModel;

    open spec fn view(&self) -> ActModel {
        match self {
            Action::SetGovernor { path, governor } => ActModel::SetGovernor {
                path: path@,
                governor: governor@,
            },
            Action::SetNice { pid, value } => ActModel::SetNice { pid: *pid, value: *value },
            Action::SetIoNice { pid, level } => ActModel::SetIoNice { pid: *pid, level: *level },
            Action::PickAndPin { pid } => ActModel::PickAndPin { pid: *pid },
            Action::RestoreAffinity { pid, mask } => ActModel::RestoreAffinity {
                pid: *pid,
                mask: mask@,
            },
        }
    }
}

/// The content of a list of actions.
pub open spec fn acts_view(v: Seq<Action>) -> Seq<ActModel> {
    v.map(|i: int, a: Action| a@)
}

/// The engine's state: the governor snapshot of the current episode, the
/// tracked processes with their prior state, the optimized flag, and the
/// immutable settings.
pub struct Optimizer {
    old_sys_state: Option<Vec<PolicyGov>>,
    processes: Vec<(i32, ProcessState)>,
    is_optimized: bool,
    settings: Settings,
}

/// The mathematical content of the engine's state.
#[verifier::ext_equal]
pub struct OptModel {
    pub snapshot: Option<Seq<PolicyGovModel>>,
    pub procs: Seq<(i32, ProcModel)>,
    pub optimized: bool,
    pub settings: SettingsModel,
}

/// The content of a list of tracked entries.
pub open spec fn procs_view(v: Seq<(i32, ProcessState)>) -> Seq<(i32, ProcModel)> {
    v.map(|i: int, pr: (i32, ProcessState)| (pr.0, pr.1@))
}

impl View for Optimizer {
    type V = OptModel;

    closed spec fn view(&self) -> OptModel {
        OptModel {
            snapshot: match self.old_sys_state {
                Some(v) => Some(v@.map(|i: int, p: PolicyGov| p@)),
                None => None,
            },
            procs: procs_view(self.processes@),
            optimized: self.is_optimized,
            settings: self.settings@,
        }
    }
}

/// Whether some tracked entry carries `pid`.
pub open spec fn has_pid(procs: Seq<(i32, ProcModel)>, pid: i32) -> bool {
    exists|i: int| 0 <= i < procs.len() && procs[i].0 == pid
}

/// Index of the first entry carrying `pid`, or -1.
pub open spec fn find_pid(procs: Seq<(i32, ProcModel)>, pid: i32) -> int
    decreases procs.len(),
{
    if procs.len() == 0 {
        -1
    } else if procs[0].0 == pid {
        0
    } else {
        let r = find_pid(procs.drop_first(), pid);
        if r < 0 {
            -1
        } else {
            1 + r
        }
    }
}

pub proof fn lemma_find_pid(procs: Seq<(i32, ProcModel)>, pid: i32)
    ensures
        has_pid(procs, pid) <==> 0 <= find_pid(procs, pid) < procs.len(),
        !has_pid(procs, pid) ==> find_pid(procs, pid) == -1,
        0 <= find_pid(procs, pid) ==> procs[find_pid(procs, pid)].0 == pid && (forall|j: int|
            0 <= j < find_pid(procs, pid) ==> procs[j].0 != pid),
    decreases procs.len(),
{
    if procs.len() == 0 {
    } else if procs[0].0 == pid {
    } else {
        let rest = procs.drop_first();
        lemma_find_pid(rest, pid);
        let r = find_pid(procs, pid);
        assert forall|i: int| 0 <= i < procs.len() && procs[i].0 == pid implies 0 <= r
            < procs.len() by {
            assert(rest[i - 1] == procs[i]);
        }
        if 0 <= r {
            assert(procs[r] == rest[r - 1]);
            assert forall|j: int| 0 <= j < r implies procs[j].0 != pid by {
                if j > 0 {
                    assert(procs[j] == rest[j - 1]);
                }
            }
        }
    }
}

/// The record stored for a newly admitted process: each dimension present
/// exactly when its toggle is enabled, the captured value where one exists,
/// the configured default otherwise (all CPUs, for the affinity mask).
pub open spec fn spec_new_record(s: SettingsModel, cap: ProcModel, ncpus: nat) -> ProcModel {
    ProcModel {
        niceness: if s.nice_enabled {
            Some(
                match cap.niceness {
                    Some(n) => n,
                    None => s.nice_default,
                },
            )
        } else {
            None
        },
        ioniceness: if s.io_enabled {
            Some(
                match cap.ioniceness {
                    Some(n) => n,
                    None => s.io_default,
                },
            )
        } else {
            None
        },
        aff: if s.affinity_enabled {
            Some(
                match cap.aff {
                    Some(m) => m,
                    None => all_cpus_mask(ncpus),
                },
            )
        } else {
            None
        },
    }
}

/// Admitting `pid`: a no-op on the tracked set when `pid` is already tracked
/// (the stored prior values are preserved), an appended record otherwise.
pub open spec fn spec_add(m: OptModel, pid: i32, cap: ProcModel, ncpus: nat) -> OptModel {
    if has_pid(m.procs, pid) {
        m
    } else {
        OptModel { procs: m.procs.push((pid, spec_new_record(m.settings, cap, ncpus))), ..m }
    }
}

/// The tunings applied to an admitted process, one per enabled toggle,
/// in the order nice, I/O nice, affinity.
pub open spec fn spec_optimize_actions(s: SettingsModel, pid: i32) -> Seq<ActModel> {
    (if s.nice_enabled {
        seq![ActModel::SetNice { pid, value: s.nice_optimized }]
    } else {
        Seq::<ActModel>::empty()
    }) + (if s.io_enabled {
        seq![ActModel::SetIoNice { pid, level: s.io_optimized }]
    } else {
        Seq::<ActModel>::empty()
    }) + (if s.affinity_enabled {
        seq![ActModel::PickAndPin { pid }]
    } else {
        Seq::<ActModel>::empty()
    })
}

/// The restores applied when a process is released: for each enabled toggle
/// the stored prior value, or the configured default where none was stored.
pub open spec fn spec_restore_actions(s: SettingsModel, pid: i32, r: ProcModel) -> Seq<ActModel> {
    (if s.nice_enabled {
        seq![
            ActModel::SetNice {
                pid,
                value: match r.niceness {
                    Some(n) => n,
                    None => s.nice_default,
                },
            },
        ]
    } else {
        Seq::<ActModel>::empty()
    }) + (if s.io_enabled {
        seq![
            ActModel::SetIoNice {
                pid,
                level: match r.ioniceness {
                    Some(n) => n,
                    None => s.io_default,
                },
            },
        ]
    } else {
        Seq::<ActModel>::empty()
    }) + (match r.aff {
        Some(mask) => if s.affinity_enabled {
            seq![ActModel::RestoreAffinity { pid, mask }]
        } else {
            Seq::<ActModel>::empty()
        },
        None => Seq::<ActModel>::empty(),
    })
}

/// Releasing one process: its record leaves the tracked set and its restores
/// are emitted; releasing an untracked pid changes nothing.
pub open spec fn spec_reset_proc(m: OptModel, pid: i32) -> (OptModel, Seq<ActModel>) {
    let i = find_pid(m.procs, pid);
    if i < 0 {
        (m, Seq::<ActModel>::empty())
    } else {
        (
            OptModel { procs: m.procs.remove(i), ..m },
            spec_restore_actions(m.settings, pid, m.procs[i].1),
        )
    }
}

/// The tracked entries whose liveness verdict is true, in order.
pub open spec fn spec_filter_alive(procs: Seq<(i32, ProcModel)>, alive: Seq<bool>) -> Seq<
    (i32, ProcModel),
>
    decreases procs.len(),
{
    if procs.len() == 0 {
        Seq::<(i32, ProcModel)>::empty()
    } else {
        let init = spec_filter_alive(procs.drop_last(), alive.take(procs.len() - 1));
        if alive[procs.len() - 1] {
            init.push(procs.last())
        } else {
            init
        }
    }
}

/// The dead-PID sweep: entries with a false verdict leave the tracked set;
/// the second component says whether any left.
pub open spec fn spec_sweep(m: OptModel, alive: Seq<bool>) -> (OptModel, bool) {
    let kept = spec_filter_alive(m.procs, alive);
    (OptModel { procs: kept, ..m }, kept.len() < m.procs.len())
}

/// The restores of every tracked process, in tracking order.
pub open spec fn spec_all_restores(s: SettingsModel, procs: Seq<(i32, ProcModel)>) -> Seq<ActModel>
    decreases procs.len(),
{
    if procs.len() == 0 {
        Seq::<ActModel>::empty()
    } else {
        spec_all_restores(s, procs.drop_last()) + spec_restore_actions(
            s,
            procs.last().0,
            procs.last().1,
        )
    }
}

/// The writes that put every policy's snapshotted governor back.
pub open spec fn spec_governor_restores(snap: Option<Seq<PolicyGovModel>>) -> Seq<ActModel> {
    match snap {
        None => Seq::<ActModel>::empty(),
        Some(s) => s.map(
            |i: int, e: PolicyGovModel| ActModel::SetGovernor { path: e.path, governor: e.governor },
        ),
    }
}

/// The full revert: while optimized, every tracked process is restored, then
/// every snapshotted governor, and the engine returns to idle with the
/// snapshot cleared; while idle, nothing happens.
pub open spec fn spec_reset_all(m: OptModel) -> (OptModel, Seq<ActModel>) {
    if m.optimized {
        (
            OptModel {
                snapshot: None,
                procs: Seq::<(i32, ProcModel)>::empty(),
                optimized: false,
                settings: m.settings,
            },
            spec_all_restores(m.settings, m.procs) + spec_governor_restores(m.snapshot),
        )
    } else {
        (m, Seq::<ActModel>::empty())
    }
}

/// The idle-to-optimized transition. While already optimized, nothing
/// happens (a snapshot is never overwritten). Otherwise the engine becomes
/// optimized; when the governor toggle is on and the probe found the chosen
/// governor available, the probe's policies become the snapshot and one
/// governor write per policy is emitted; when the toggle is off, or the
/// governor is unavailable, the governor dimension is skipped entirely.
pub open spec fn spec_begin(m: OptModel, probe: Option<ProbeModel>) -> (OptModel, Seq<ActModel>) {
    if m.optimized {
        (m, Seq::<ActModel>::empty())
    } else if !m.settings.governor_enabled {
        (OptModel { optimized: true, ..m }, Seq::<ActModel>::empty())
    } else {
        match probe {
            Some(p) => if p.available {
                (
                    OptModel { optimized: true, snapshot: Some(p.govs), ..m },
                    p.govs.map(
                        |i: int, e: PolicyGovModel| ActModel::SetGovernor {
                            path: e.path,
                            governor: m.settings.governor,
                        },
                    ),
                )
            } else {
                (OptModel { optimized: true, ..m }, Seq::<ActModel>::empty())
            },
            None => (OptModel { optimized: true, ..m }, Seq::<ActModel>::empty()),
        }
    }
}

/// A record respects the toggles: each dimension stored exactly when its
/// toggle is enabled.
pub open spec fn rec_wf(s: SettingsModel, r: ProcModel) -> bool {
    &&& (r.niceness is Some <==> s.nice_enabled)
    &&& (r.ioniceness is Some <==> s.io_enabled)
    &&& (r.aff is Some <==> s.affinity_enabled)
}

impl OptModel {
    /// The engine's invariant: tracked pids are unique, every record
    /// respects the toggles, processes are tracked only while optimized,
    /// and a snapshot exists only while optimized with the governor toggle
    /// on.
    pub open spec fn wf(self) -> bool {
        &&& (forall|i: int, j: int|
            0 <= i < j < self.procs.len() ==> self.procs[i].0 != self.procs[j].0)
        &&& (forall|i: int| 0 <= i < self.procs.len() ==> rec_wf(self.settings, self.procs[i].1))
        &&& (self.procs.len() > 0 ==> self.optimized)
        &&& (self.snapshot is Some ==> self.optimized && self.settings.governor_enabled)
    }
}

impl Optimizer {
    /// A fresh engine: idle, nothing tracked, no snapshot.
    pub fn new(settings: Settings) -> (r: Optimizer)
        ensures
            r@ == (OptModel {
                snapshot: None,
                procs: Seq::<(i32, ProcModel)>::empty(),
                optimized: false,
                settings: settings@,
            }),
            r@.wf(),
    {
        let r = Optimizer {
            old_sys_state: None,
            processes: Vec::new(),
            is_optimized: false,
            settings,
        };
        proof {
            assert(r@.procs =~= Seq::<(i32, ProcModel)>::empty());
            assert(r@ =~= (OptModel {
                snapshot: None,
                procs: Seq::<(i32, ProcModel)>::empty(),
                optimized: false,
                settings: r.settings@,
            }));
        }
        r
    }

    /// Whether an episode is in progress.
    pub fn is_optimized(&self) -> (r: bool)
        ensures
            r == self@.optimized,
    {
        self.is_optimized
    }

    /// The engine's settings.
    pub fn settings(&self) -> (r: &Settings)
        ensures
            r@ == self@.settings,
    {
        &self.settings
    }

    /// The tracked pids, in tracking order.
    pub fn tracked_pids(&self) -> (r: Vec<i32>)
        ensures
            r@.len() == self@.procs.len(),
            forall|i: int| 0 <= i < r@.len() ==> r@[i] == self@.procs[i].0,
    {
        let mut r: Vec<i32> = Vec::new();
        let mut i: usize = 0;
        while i < self.processes.len()
            invariant
                i <= self.processes.len(),
                r@.len() == i,
                forall|j: int| 0 <= j < i ==> r@[j] == self@.procs[j].0,
            decreases self.processes.len() - i,
        {
            r.push(self.processes[i].0);
            i = i + 1;
        }
        r
    }

    /// Whether the next `OptimizeProcess` needs a governor probe: only on
    /// the idle-to-optimized transition, and only when the governor toggle
    /// is on. While this returns false the host must not touch the cpufreq
    /// files at all.
    pub fn needs_governor_probe(&self) -> (r: bool)
        ensures
            r == (!self@.optimized && self@.settings.governor_enabled),
    {
        !self.is_optimized && self.settings.cpu_governor.enabled
    }

    /// Starts an episode if none is in progress; see [`spec_begin`].
    pub fn begin_optimize(&mut self, probe: Option<GovernorProbe>) -> (acts: Vec<Action>)
        requires
            old(self)@.wf(),
            !old(self)@.optimized && old(self)@.settings.governor_enabled ==> probe is Some,
        ensures
            final(self)@ == spec_begin(old(self)@, probe_view(probe)).0,
            acts_view(acts@) == spec_begin(old(self)@, probe_view(probe)).1,
            final(self)@.wf(),
    {
        if self.is_optimized {
            let r: Vec<Action> = Vec::new();
            proof {
                assert(acts_view(r@) =~= spec_begin(self@, probe_view(probe)).1);
            }
            return r;
        }
        self.is_optimized = true;
        if !self.settings.cpu_governor.enabled {
            let r: Vec<Action> = Vec::new();
            proof {
                assert(self@ =~= spec_begin(old(self)@, probe_view(probe)).0);
                assert(acts_view(r@) =~= spec_begin(old(self)@, probe_view(probe)).1);
            }
            return r;
        }
        match probe {
            Some(p) => {
                if p.available {
                    let ghost govs_m = p.govs@.map(|i: int, pg: PolicyGov| pg@);
                    let mut acts: Vec<Action> = Vec::new();
                    let mut i: usize = 0;
                    while i < p.govs.len()
                        invariant
                            i <= p.govs.len(),
                            govs_m == p.govs@.map(|k: int, pg: PolicyGov| pg@),
                            self.settings == old(self).settings,
                            acts_view(acts@) =~= govs_m.take(i as int).map(
                                |k: int, e: PolicyGovModel| ActModel::SetGovernor {
                                    path: e.path,
                                    governor: self.settings.cpu_governor.optimized_type@,
                                },
                            ),
                        decreases p.govs.len() - i,
                    {
                        let ghost pre = acts@;
                        let a = Action::SetGovernor {
                            path: p.govs[i].path.clone(),
                            governor: self.settings.cpu_governor.optimized_type.clone(),
                        };
                        let ghost am = a@;
                        acts.push(a);
                        proof {
                            assert(govs_m[i as int] == p.govs@[i as int]@);
                            assert(am == (ActModel::SetGovernor {
                                path: govs_m[i as int].path,
                                governor: self.settings.cpu_governor.optimized_type@,
                            }));
                            assert(acts_view(acts@) =~= acts_view(pre).push(am));
                            assert(govs_m.take(i + 1) =~= govs_m.take(i as int).push(
                                govs_m[i as int]));
                            assert(acts_view(acts@) =~= govs_m.take(i + 1).map(
                                |k: int, e: PolicyGovModel| ActModel::SetGovernor {
                                    path: e.path,
                                    governor: self.settings.cpu_governor.optimized_type@,
                                },
                            ));
                        }
                        i = i + 1;
                    }
                    self.old_sys_state = Some(p.govs);
                    proof {
                        assert(govs_m.take(govs_m.len() as int) =~= govs_m);
                        assert(self@ =~= spec_begin(old(self)@, probe_view(probe)).0);
                        assert(acts_view(acts@) =~= spec_begin(old(self)@, probe_view(probe)).1);
                    }
                    acts
                } else {
                    let r: Vec<Action> = Vec::new();
                    proof {
                        assert(self@ =~= spec_begin(old(self)@, probe_view(probe)).0);
                        assert(acts_view(r@) =~= spec_begin(old(self)@, probe_view(probe)).1);
                    }
                    r
                }
            },
            None => {
                let r: Vec<Action> = Vec::new();
                proof {
                    assert(self@ =~= spec_begin(old(self)@, probe_view(probe)).0);
                    assert(acts_view(r@) =~= spec_begin(old(self)@, probe_view(probe)).1);
                }
                r
            },
        }
    }
}

/// Index of the first entry for `pid`, executably.
fn position_of(procs: &Vec<(i32, ProcessState)>, pid: i32) -> (r: Option<usize>)
    ensures
        match r {
            Some(i) => i < procs@.len() && procs@[i as int].0 == pid && (forall|j: int|
                0 <= j < i ==> procs@[j].0 != pid),
            None => forall|j: int| 0 <= j < procs@.len() ==> procs@[j].0 != pid,
        },
{
    let mut i: usize = 0;
    while i < procs.len()
        invariant
            i <= procs@.len(),
            forall|j: int| 0 <= j < i ==> procs@[j].0 != pid,
        decreases procs@.len() - i,
    {
        if procs[i].0 == pid {
            return Some(i);
        }
        i = i + 1;
    }
    None
}

/// The tunings applied to an admitted process; see [`spec_optimize_actions`].
fn optimize_actions_exec(settings: &Settings, pid: i32) -> (acts: Vec<Action>)
    ensures
        acts_view(acts@) == spec_optimize_actions(settings@, pid),
{
    let ghost part1: Seq<ActModel> = if settings@.nice_enabled {
        seq![ActModel::SetNice { pid, value: settings@.nice_optimized }]
    } else {
        Seq::<ActModel>::empty()
    };
    let ghost part2: Seq<ActModel> = if settings@.io_enabled {
        seq![ActModel::SetIoNice { pid, level: settings@.io_optimized }]
    } else {
        Seq::<ActModel>::empty()
    };
    let ghost part3: Seq<ActModel> = if settings@.affinity_enabled {
        seq![ActModel::PickAndPin { pid }]
    } else {
        Seq::<ActModel>::empty()
    };
    let mut acts: Vec<Action> = Vec::new();
    if settings.niceness.enabled {
        acts.push(Action::SetNice { pid, value: settings.niceness.optimized_value });
    }
    proof {
        assert(acts_view(acts@) =~= part1);
    }
    if settings.ioniceness.enabled {
        acts.push(Action::SetIoNice { pid, level: settings.ioniceness.optimized_value });
    }
    proof {
        assert(acts_view(acts@) =~= part1 + part2);
    }
    if settings.cpu_affinity.enabled {
        acts.push(Action::PickAndPin { pid });
    }
    proof {
        assert(acts_view(acts@) =~= part1 + part2 + part3);
    }
    acts
}

/// The restores for one released process; see [`spec_restore_actions`].
fn restore_actions_exec(settings: &Settings, pid: i32, st: ProcessState) -> (acts: Vec<Action>)
    ensures
        acts_view(acts@) == spec_restore_actions(settings@, pid, st@),
{
    let ghost stm = st@;
    let ghost part1: Seq<ActModel> = if settings@.nice_enabled {
        seq![
            ActModel::SetNice {
                pid,
                value: match stm.niceness {
                    Some(n) => n,
                    None => settings@.nice_default,
                },
            },
        ]
    } else {
        Seq::<ActModel>::empty()
    };
    let ghost part2: Seq<ActModel> = if settings@.io_enabled {
        seq![
            ActModel::SetIoNice {
                pid,
                level: match stm.ioniceness {
                    Some(n) => n,
                    None => settings@.io_default,
                },
            },
        ]
    } else {
        Seq::<ActModel>::empty()
    };
    let ghost part3: Seq<ActModel> = match stm.aff {
        Some(mask) => if settings@.affinity_enabled {
            seq![ActModel::RestoreAffinity { pid, mask }]
        } else {
            Seq::<ActModel>::empty()
        },
        None => Seq::<ActModel>::empty(),
    };
    let mut acts: Vec<Action> = Vec::new();
    if settings.niceness.enabled {
        let v = match st.niceness {
            Some(n) => n,
            None => settings.niceness.default_value,
        };
        acts.push(Action::SetNice { pid, value: v });
    }
    proof {
        assert(acts_view(acts@) =~= part1);
    }
    if settings.ioniceness.enabled {
        let v = match st.ioniceness {
            Some(n) => n,
            None => settings.ioniceness.default_value,
        };
        acts.push(Action::SetIoNice { pid, level: v });
    }
    proof {
        assert(acts_view(acts@) =~= part1 + part2);
    }
    match st.aff_mask {
        Some(mask) => if settings.cpu_affinity.enabled {
            acts.push(Action::RestoreAffinity { pid, mask });
        },
        None => {},
    }
    proof {
        assert(acts_view(acts@) =~= part1 + part2 + part3);
        assert(part1 + part2 + part3 =~= spec_restore_actions(settings@, pid, stm));
    }
    acts
}

impl Optimizer {
    /// Admits `pid` and returns the tunings to apply; see [`spec_add`].
    /// An already tracked pid keeps its stored prior values; the tunings are
    /// emitted either way.
    pub fn add_process(&mut self, pid: i32, capture: ProcessCapture, ncpus: usize) -> (acts: Vec<
        Action,
    >)
        requires
            old(self)@.wf(),
            old(self)@.optimized,
        ensures
            final(self)@ == spec_add(old(self)@, pid, capture@, ncpus as nat),
            acts_view(acts@) == spec_optimize_actions(old(self)@.settings, pid),
            final(self)@.wf(),
    {
        let pos = position_of(&self.processes, pid);
        if pos.is_none() {
            proof {
                assert(forall|j: int|
                    0 <= j < self@.procs.len() ==> self@.procs[j].0 == self.processes@[j].0);
                assert(!has_pid(self@.procs, pid));
            }
            let rec = ProcessState {
                niceness: if self.settings.niceness.enabled {
                    Some(
                        match capture.niceness {
                            Some(n) => n,
                            None => self.settings.niceness.default_value,
                        },
                    )
                } else {
                    None
                },
                ioniceness: if self.settings.ioniceness.enabled {
                    Some(
                        match capture.ioniceness {
                            Some(n) => n,
                            None => self.settings.ioniceness.default_value,
                        },
                    )
                } else {
                    None
                },
                aff_mask: if self.settings.cpu_affinity.enabled {
                    Some(
                        match capture.aff_mask {
                            Some(m) => m,
                            None => CpuMask::all(ncpus),
                        },
                    )
                } else {
                    None
                },
            };
            let ghost recm = rec@;
            self.processes.push((pid, rec));
            proof {
                assert(recm =~= spec_new_record(old(self)@.settings, capture@, ncpus as nat));
                assert(self@.procs =~= old(self)@.procs.push((pid, recm)));
                assert(self@ =~= spec_add(old(self)@, pid, capture@, ncpus as nat));
            }
        } else {
            proof {
                let i = pos.unwrap() as int;
                assert(old(self)@.procs[i].0 == self.processes@[i].0);
                assert(has_pid(old(self)@.procs, pid));
                assert(self@ =~= spec_add(old(self)@, pid, capture@, ncpus as nat));
            }
        }
        optimize_actions_exec(&self.settings, pid)
    }

    /// Releases `pid` and returns its restores; a no-op for an untracked
    /// pid; see [`spec_reset_proc`].
    pub fn reset_process(&mut self, pid: i32) -> (acts: Vec<Action>)
        requires
            old(self)@.wf(),
        ensures
            final(self)@ == spec_reset_proc(old(self)@, pid).0,
            acts_view(acts@) == spec_reset_proc(old(self)@, pid).1,
            final(self)@.wf(),
            !has_pid(old(self)@.procs, pid) ==> final(self)@ == old(self)@ && acts@.len() == 0,
    {
        proof {
            lemma_find_pid(old(self)@.procs, pid);
            assert(forall|j: int|
                0 <= j < self@.procs.len() ==> self@.procs[j].0 == self.processes@[j].0);
        }
        match position_of(&self.processes, pid) {
            None => {
                let r: Vec<Action> = Vec::new();
                proof {
                    assert(!has_pid(old(self)@.procs, pid));
                    assert(acts_view(r@) =~= spec_reset_proc(old(self)@, pid).1);
                }
                r
            },
            Some(i) => {
                proof {
                    let k = find_pid(old(self)@.procs, pid);
                    assert(old(self)@.procs[i as int].0 == pid);
                    assert(0 <= k < old(self)@.procs.len());
                    assert(k == i as int);
                }
                let (_p, st) = self.processes.remove(i);
                proof {
                    assert(st@ == old(self)@.procs[i as int].1);
                    assert(self@.procs =~= old(self)@.procs.remove(i as int));
                    assert(self@ =~= spec_reset_proc(old(self)@, pid).0);
                    assert forall|a: int, b: int|
                        0 <= a < b < self@.procs.len() implies self@.procs[a].0
                        != self@.procs[b].0 by {
                        let oa = if a < i as int { a } else { a + 1 };
                        let ob = if b < i as int { b } else { b + 1 };
                        assert(self@.procs[a] == old(self)@.procs[oa]);
                        assert(self@.procs[b] == old(self)@.procs[ob]);
                    }
                    assert forall|a: int| 0 <= a < self@.procs.len() implies rec_wf(
                        self@.settings,
                        self@.procs[a].1,
                    ) by {
                        let oa = if a < i as int { a } else { a + 1 };
                        assert(self@.procs[a] == old(self)@.procs[oa]);
                    }
                }
                restore_actions_exec(&self.settings, pid, st)
            },
        }
    }
}

/// Filtering by liveness keeps a subsequence: unique pids stay unique,
/// well-formed records stay well-formed, and the result is no longer than
/// the input.
pub proof fn lemma_filter_alive_wf(procs: Seq<(i32, ProcModel)>, alive: Seq<bool>, s: SettingsModel)
    requires
        forall|i: int, j: int| 0 <= i < j < procs.len() ==> procs[i].0 != procs[j].0,
        forall|i: int| 0 <= i < procs.len() ==> rec_wf(s, procs[i].1),
    ensures
        spec_filter_alive(procs, alive).len() <= procs.len(),
        forall|i: int|
            0 <= i < spec_filter_alive(procs, alive).len() ==> procs.contains(
                #[trigger] spec_filter_alive(procs, alive)[i],
            ),
        forall|i: int, j: int|
            0 <= i < j < spec_filter_alive(procs, alive).len() ==> spec_filter_alive(procs, alive)[i].0
                != spec_filter_alive(procs, alive)[j].0,
        forall|i: int|
            0 <= i < spec_filter_alive(procs, alive).len() ==> rec_wf(
                s,
                spec_filter_alive(procs, alive)[i].1,
            ),
    decreases procs.len(),
{
    let f = spec_filter_alive(procs, alive);
    if procs.len() == 0 {
    } else {
        let initp = procs.drop_last();
        let inita = alive.take(procs.len() - 1);
        lemma_filter_alive_wf(initp, inita, s);
        let fi = spec_filter_alive(initp, inita);
        assert(forall|j: int| 0 <= j < initp.len() ==> initp[j] == procs[j]);
        assert forall|i: int| 0 <= i < f.len() implies procs.contains(#[trigger] f[i]) by {
            if i < fi.len() {
                assert(initp.contains(fi[i]));
                let j2 = choose|j: int| 0 <= j < initp.len() && initp[j] == fi[i];
                assert(procs[j2] == f[i]);
            } else {
                assert(f[i] == procs[procs.len() - 1]);
            }
        }
        if alive[procs.len() - 1] {
            assert forall|i: int, j: int| 0 <= i < j < f.len() implies f[i].0 != f[j].0 by {
                if j < fi.len() {
                } else {
                    assert(f[j] == procs.last());
                    assert(initp.contains(fi[i]));
                    let k = choose|k: int| 0 <= k < initp.len() && initp[k] == fi[i];
                    assert(f[i] == procs[k]);
                    assert(procs[k].0 != procs[procs.len() - 1].0);
                }
            }
        }
    }
}

/// Sweeping with every verdict false empties the tracked set.
pub proof fn lemma_filter_none_alive(procs: Seq<(i32, ProcModel)>, alive: Seq<bool>)
    requires
        alive.len() == procs.len(),
        forall|i: int| 0 <= i < alive.len() ==> !alive[i],
    ensures
        spec_filter_alive(procs, alive).len() == 0,
    decreases procs.len(),
{
    if procs.len() > 0 {
        lemma_filter_none_alive(procs.drop_last(), alive.take(procs.len() - 1));
    }
}

impl Optimizer {
    /// The dead-PID sweep: entry `k` of `alive` is the verdict for the
    /// `k`-th tracked process; the dead ones leave the tracked set, and the
    /// result says whether any did. See [`spec_sweep`].
    pub fn clear_dead_pids(&mut self, alive: &Vec<bool>) -> (removed: bool)
        requires
            old(self)@.wf(),
            alive@.len() == old(self)@.procs.len(),
        ensures
            final(self)@ == spec_sweep(old(self)@, alive@).0,
            removed == spec_sweep(old(self)@, alive@).1,
            final(self)@.wf(),
    {
        let ghost procs0 = self@.procs;
        let total = self.processes.len();
        let mut kept: Vec<(i32, ProcessState)> = Vec::new();
        let mut k: usize = 0;
        proof {
            assert(procs0.skip(0) =~= procs0);
            assert(procs0.take(0) =~= Seq::<(i32, ProcModel)>::empty());
            assert(alive@.take(0) =~= Seq::<bool>::empty());
            assert(procs_view(kept@) =~= spec_filter_alive(procs0.take(0), alive@.take(0)));
        }
        while self.processes.len() > 0
            invariant
                k + self.processes@.len() == total,
                total == procs0.len(),
                alive@.len() == procs0.len(),
                self.old_sys_state == old(self).old_sys_state,
                self.is_optimized == old(self).is_optimized,
                self.settings == old(self).settings,
                procs_view(self.processes@) == procs0.skip(k as int),
                procs_view(kept@) == spec_filter_alive(procs0.take(k as int), alive@.take(k as int)),
            decreases self.processes@.len(),
        {
            let ghost keptm = procs_view(kept@);
            let ghost cur = self.processes@;
            let (pid, st) = self.processes.remove(0);
            proof {
                assert(procs_view(cur)[0] == (cur[0].0, cur[0].1@));
                assert((pid, st@) == procs0.skip(k as int)[0]);
                assert((pid, st@) == procs0[k as int]);
                assert(procs_view(self.processes@) =~= procs0.skip(k as int).drop_first());
                assert(procs0.skip(k as int).drop_first() =~= procs0.skip(k + 1));
            }
            if alive[k] {
                kept.push((pid, st));
                proof {
                    assert(procs_view(kept@) =~= keptm.push(procs0[k as int]));
                }
            }
            proof {
                let tp = procs0.take(k + 1);
                let ta = alive@.take(k + 1);
                assert(tp.len() == k + 1);
                assert(tp.drop_last() =~= procs0.take(k as int));
                assert(ta.take(k as int) =~= alive@.take(k as int));
                assert(tp.last() == procs0[k as int]);
                assert(ta[k as int] == alive@[k as int]);
                assert(spec_filter_alive(tp, ta) == if alive@[k as int] {
                    spec_filter_alive(procs0.take(k as int), alive@.take(k as int)).push(
                        procs0[k as int],
                    )
                } else {
                    spec_filter_alive(procs0.take(k as int), alive@.take(k as int))
                });
                assert(procs_view(kept@) =~= spec_filter_alive(tp, ta));
            }
            k = k + 1;
        }
        proof {
            assert(procs0.skip(k as int).len() == 0);
            assert(k == total);
            assert(procs0.take(k as int) =~= procs0);
            assert(alive@.take(k as int) =~= alive@);
        }
        let removed = kept.len() < total;
        self.processes = kept;
        proof {
            assert(self@ =~= spec_sweep(old(self)@, alive@).0);
            lemma_filter_alive_wf(procs0, alive@, old(self)@.settings);
        }
        removed
    }

    /// Whether the tick must end in a full revert: some process died, or the
    /// engine is optimized with nothing tracked any more.
    pub fn needs_implicit_revert(&self, removed: bool) -> (r: bool)
        ensures
            r == (removed || (self@.optimized && self@.procs.len() == 0)),
    {
        removed || (self.is_optimized && self.processes.len() == 0)
    }

    /// The full revert; see [`spec_reset_all`]. While optimized: every
    /// tracked process is restored in tracking order, then every
    /// snapshotted governor, and the engine returns to idle. While idle:
    /// a no-op.
    pub fn reset(&mut self) -> (acts: Vec<Action>)
        requires
            old(self)@.wf(),
        ensures
            final(self)@ == spec_reset_all(old(self)@).0,
            acts_view(acts@) == spec_reset_all(old(self)@).1,
            final(self)@.wf(),
    {
        if !self.is_optimized {
            let r: Vec<Action> = Vec::new();
            proof {
                assert(acts_view(r@) =~= spec_reset_all(self@).1);
            }
            return r;
        }
        let ghost procs0 = self@.procs;
        let ghost sm = self@.settings;
        let total = self.processes.len();
        let mut acts: Vec<Action> = Vec::new();
        let mut k: usize = 0;
        proof {
            assert(procs0.skip(0) =~= procs0);
            assert(procs0.take(0) =~= Seq::<(i32, ProcModel)>::empty());
            assert(acts_view(acts@) =~= spec_all_restores(sm, procs0.take(0)));
        }
        while self.processes.len() > 0
            invariant
                k + self.processes@.len() == total,
                total == procs0.len(),
                self.settings == old(self).settings,
                sm == self.settings@,
                self.is_optimized == old(self).is_optimized,
                self.old_sys_state == old(self).old_sys_state,
                procs_view(self.processes@) == procs0.skip(k as int),
                acts_view(acts@) == spec_all_restores(sm, procs0.take(k as int)),
            decreases self.processes@.len(),
        {
            let ghost actsm = acts_view(acts@);
            let ghost cur = self.processes@;
            let (pid, st) = self.processes.remove(0);
            proof {
                assert(procs_view(cur)[0] == (cur[0].0, cur[0].1@));
                assert((pid, st@) == procs0.skip(k as int)[0]);
                assert((pid, st@) == procs0[k as int]);
                assert(procs_view(self.processes@) =~= procs0.skip(k as int).drop_first());
                assert(procs0.skip(k as int).drop_first() =~= procs0.skip(k + 1));
            }
            let mut more = restore_actions_exec(&self.settings, pid, st);
            acts.append(&mut more);
            proof {
                let tp = procs0.take(k + 1);
                assert(tp.drop_last() =~= procs0.take(k as int));
                assert(tp.last() == procs0[k as int]);
                assert(spec_all_restores(sm, tp) == spec_all_restores(sm, procs0.take(k as int))
                    + spec_restore_actions(sm, pid, st@));
                assert(acts_view(acts@) =~= actsm + spec_restore_actions(sm, pid, st@));
                assert(acts_view(acts@) =~= spec_all_restores(sm, tp));
            }
            k = k + 1;
        }
        proof {
            assert(procs0.skip(k as int).len() == 0);
            assert(procs0.take(k as int) =~= procs0);
        }
        let ghost base = acts_view(acts@);
        let snap = self.old_sys_state.take();
        match snap {
            Some(v) => {
                let ghost snapm = v@.map(|i: int, p: PolicyGov| p@);
                proof {
                    assert(old(self)@.snapshot == Some(snapm));
                    assert(snapm.take(0) =~= Seq::<PolicyGovModel>::empty());
                    assert(base + snapm.take(0).map(
                        |i: int, e: PolicyGovModel| ActModel::SetGovernor {
                            path: e.path,
                            governor: e.governor,
                        },
                    ) =~= base);
                }
                let mut i: usize = 0;
                while i < v.len()
                    invariant
                        i <= v@.len(),
                        snapm == v@.map(|k2: int, p: PolicyGov| p@),
                        acts_view(acts@) == base + snapm.take(i as int).map(
                            |k2: int, e: PolicyGovModel| ActModel::SetGovernor {
                                path: e.path,
                                governor: e.governor,
                            },
                        ),
                    decreases v@.len() - i,
                {
                    let ghost pre = acts@;
                    let a = Action::SetGovernor {
                        path: v[i].path.clone(),
                        governor: v[i].governor.clone(),
                    };
                    let ghost am = a@;
                    acts.push(a);
                    proof {
                        assert(snapm[i as int] == v@[i as int]@);
                        assert(am == (ActModel::SetGovernor {
                            path: snapm[i as int].path,
                            governor: snapm[i as int].governor,
                        }));
                        assert(acts_view(acts@) =~= acts_view(pre).push(am));
                        assert(snapm.take(i + 1) =~= snapm.take(i as int).push(snapm[i as int]));
                        assert(acts_view(acts@) =~= base + snapm.take(i + 1).map(
                            |k2: int, e: PolicyGovModel| ActModel::SetGovernor {
                                path: e.path,
                                governor: e.governor,
                            },
                        ));
                    }
                    i = i + 1;
                }
                proof {
                    assert(snapm.take(snapm.len() as int) =~= snapm);
                    assert(acts_view(acts@) =~= base + spec_governor_restores(old(self)@.snapshot));
                }
            },
            None => {
                proof {
                    assert(old(self)@.snapshot is None);
                    assert(acts_view(acts@) =~= base + spec_governor_restores(old(self)@.snapshot));
                }
            },
        }
        self.is_optimized = false;
        proof {
            assert(self@.procs =~= Seq::<(i32, ProcModel)>::empty());
            assert(self@ =~= spec_reset_all(old(self)@).0);
            assert(acts_view(acts@) =~= spec_reset_all(old(self)@).1);
        }
        acts
    }

    /// The orderly-shutdown revert: the same full revert as an explicit
    /// reset-all.
    pub fn graceful_shutdown(&mut self) -> (acts: Vec<Action>)
        requires
            old(self)@.wf(),
        ensures
            final(self)@ == spec_reset_all(old(self)@).0,
            acts_view(acts@) == spec_reset_all(old(self)@).1,
            final(self)@.wf(),
    {
        self.reset()
    }
}

impl Optimizer {
    /// Applies one drained command. An `OptimizeProcess` first runs the
    /// idle-to-optimized transition (with the probe the host took when
    /// [`Self::needs_governor_probe`] asked for one), then admits the pid
    /// with its capture; the other two commands release one process or
    /// everything.
    pub fn handle_command(
        &mut self,
        cmd: &Commands,
        probe: Option<GovernorProbe>,
        capture: Option<ProcessCapture>,
        ncpus: usize,
    ) -> (acts: Vec<Action>)
        requires
            old(self)@.wf(),
            cmd matches Commands::OptimizeProcess(_) ==> capture is Some,
            (cmd matches Commands::OptimizeProcess(_) && !old(self)@.optimized
                && old(self)@.settings.governor_enabled) ==> probe is Some,
        ensures
            final(self)@.wf(),
            match *cmd {
                Commands::OptimizeProcess(pid) => {
                    &&& final(self)@ == spec_add(
                        spec_begin(old(self)@, probe_view(probe)).0,
                        pid,
                        capture->Some_0@,
                        ncpus as nat,
                    )
                    &&& acts_view(acts@) == spec_begin(old(self)@, probe_view(probe)).1
                        + spec_optimize_actions(old(self)@.settings, pid)
                },
                Commands::ResetProcess(pid) => {
                    &&& final(self)@ == spec_reset_proc(old(self)@, pid).0
                    &&& acts_view(acts@) == spec_reset_proc(old(self)@, pid).1
                },
                Commands::ResetAll => {
                    &&& final(self)@ == spec_reset_all(old(self)@).0
                    &&& acts_view(acts@) == spec_reset_all(old(self)@).1
                },
            },
    {
        match cmd {
            Commands::OptimizeProcess(pid) => {
                let mut acts = self.begin_optimize(probe);
                let mut more = self.add_process(*pid, capture.unwrap(), ncpus);
                acts.append(&mut more);
                proof {
                    assert(acts_view(acts@) =~= spec_begin(old(self)@, probe_view(probe)).1
                        + spec_optimize_actions(old(self)@.settings, *pid));
                }
                acts
            },
            Commands::ResetProcess(pid) => self.reset_process(*pid),
            Commands::ResetAll => self.reset(),
        }
    }

    /// Ends one tick, after the drained commands: runs the dead-PID sweep
    /// on the given verdicts, and when a process died or the engine is
    /// optimized with nothing tracked, performs the full revert.
    pub fn finish_tick(&mut self, alive: &Vec<bool>) -> (acts: Vec<Action>)
        requires
            old(self)@.wf(),
            alive@.len() == old(self)@.procs.len(),
        ensures
            final(self)@.wf(),
            ({
                let m1 = spec_sweep(old(self)@, alive@).0;
                let removed = spec_sweep(old(self)@, alive@).1;
                if removed || (m1.optimized && m1.procs.len() == 0) {
                    final(self)@ == spec_reset_all(m1).0 && acts_view(acts@) == spec_reset_all(
                        m1,
                    ).1
                } else {
                    final(self)@ == m1 && acts@.len() == 0
                }
            }),
    {
        let removed = self.clear_dead_pids(alive);
        if self.needs_implicit_revert(removed) {
            self.reset()
        } else {
            Vec::new()
        }
    }
}

} // verus!
