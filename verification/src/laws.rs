//! The engine's global guarantees, stated over the spec-level transitions
//! of [`crate::optimizer`] and proved once and for all.

use vstd::prelude::*;

use crate::optimizer::{
    find_pid, has_pid, lemma_filter_none_alive, lemma_find_pid, spec_add, spec_all_restores,
    spec_begin, spec_governor_restores, spec_new_record, spec_optimize_actions, spec_reset_all,
    spec_reset_proc, spec_restore_actions, spec_sweep, ActModel, OptModel, PolicyGovModel,
    ProbeModel, ProcModel,
};

verus! {

/// One engine operation that can happen between the start of an episode and
/// its revert: an admission, a single release, or a dead-PID sweep.
pub enum EngineOp {
    Admit { pid: i32, cap: ProcModel, ncpus: nat },
    Release { pid: i32 },
    Sweep { alive: Seq<bool> },
}

/// The state after one operation.
pub open spec fn apply_op(m: OptModel, op: EngineOp) -> OptModel {
    match op {
        EngineOp::Admit { pid, cap, ncpus } => spec_add(m, pid, cap, ncpus),
        EngineOp::Release { pid } => spec_reset_proc(m, pid).0,
        EngineOp::Sweep { alive } => spec_sweep(m, alive).0,
    }
}

/// The state after a sequence of operations, first one first.
pub open spec fn apply_ops(m: OptModel, ops: Seq<EngineOp>) -> OptModel
    decreases ops.len(),
{
    if ops.len() == 0 {
        m
    } else {
        apply_ops(apply_op(m, ops[0]), ops.drop_first())
    }
}

/// Admissions, releases and sweeps never touch the governor snapshot, the
/// optimized flag or the settings: only the full revert does.
pub proof fn lemma_ops_preserve_snapshot(m: OptModel, ops: Seq<EngineOp>)
    ensures
        apply_ops(m, ops).snapshot == m.snapshot,
        apply_ops(m, ops).optimized == m.optimized,
        apply_ops(m, ops).settings == m.settings,
    decreases ops.len(),
{
    if ops.len() > 0 {
        lemma_ops_preserve_snapshot(apply_op(m, ops[0]), ops.drop_first());
    }
}

/// Round-trip of the governors: an engine whose episode snapshotted the
/// per-policy governors `govs`, after any sequence of admissions, releases
/// and sweeps, reverts by writing exactly the snapshotted governor back to
/// each policy, in snapshot order, ending idle with the snapshot cleared.
pub proof fn lemma_governor_round_trip(m: OptModel, ops: Seq<EngineOp>, govs: Seq<PolicyGovModel>)
    requires
        m.optimized,
        m.snapshot == Some(govs),
    ensures
        spec_reset_all(apply_ops(m, ops)).0.optimized == false,
        spec_reset_all(apply_ops(m, ops)).0.snapshot is None,
        spec_reset_all(apply_ops(m, ops)).1.skip(
            spec_all_restores(apply_ops(m, ops).settings, apply_ops(m, ops).procs).len() as int,
        ) == spec_governor_restores(Some(govs)),
        spec_governor_restores(Some(govs)).len() == govs.len(),
        forall|i: int|
            0 <= i < govs.len() ==> #[trigger] spec_governor_restores(Some(govs))[i]
                == (ActModel::SetGovernor { path: govs[i].path, governor: govs[i].governor }),
{
    lemma_ops_preserve_snapshot(m, ops);
    let mend = apply_ops(m, ops);
    let pre = spec_all_restores(mend.settings, mend.procs);
    assert((pre + spec_governor_restores(Some(govs))).skip(pre.len() as int)
        =~= spec_governor_restores(Some(govs)));
}

/// The whole episode, end to end: from an idle engine whose governor
/// toggle is on, with a probe that found the wanted governor and read the
/// per-policy governors `govs`, any sequence of admissions, releases and
/// sweeps followed by the full revert ends idle, snapshot cleared, and the
/// revert's trailing actions write exactly the probed governors back.
pub proof fn lemma_episode_round_trip(
    m: OptModel,
    probe: ProbeModel,
    ops: Seq<EngineOp>,
)
    requires
        !m.optimized,
        m.settings.governor_enabled,
        probe.available,
    ensures
        ({
            let m1 = spec_begin(m, Some(probe)).0;
            let mend = apply_ops(m1, ops);
            &&& m1.snapshot == Some(probe.govs)
            &&& spec_reset_all(mend).0.optimized == false
            &&& spec_reset_all(mend).0.snapshot is None
            &&& spec_reset_all(mend).1.skip(
                spec_all_restores(mend.settings, mend.procs).len() as int,
            ) == spec_governor_restores(Some(probe.govs))
        }),
{
    let m1 = spec_begin(m, Some(probe)).0;
    lemma_governor_round_trip(m1, ops, probe.govs);
}

/// Round-trip of the nice value: with the niceness toggle on, admitting an
/// untracked pid whose prior nice value was captured as `n` and then
/// releasing it restores nice `n` (the first emitted restore), and returns
/// the engine to the very state it was in.
pub proof fn lemma_nice_round_trip(m: OptModel, pid: i32, cap: ProcModel, ncpus: nat, n: i32)
    requires
        m.wf(),
        m.settings.nice_enabled,
        !has_pid(m.procs, pid),
        cap.niceness == Some(n),
    ensures
        spec_reset_proc(spec_add(m, pid, cap, ncpus), pid).0 == m,
        spec_reset_proc(spec_add(m, pid, cap, ncpus), pid).1.len() > 0,
        spec_reset_proc(spec_add(m, pid, cap, ncpus), pid).1[0] == (ActModel::SetNice {
            pid,
            value: n,
        }),
{
    let m1 = spec_add(m, pid, cap, ncpus);
    let rec = spec_new_record(m.settings, cap, ncpus);
    let len = m.procs.len() as int;
    assert(m1.procs == m.procs.push((pid, rec)));
    lemma_find_pid(m1.procs, pid);
    let k = find_pid(m1.procs, pid);
    assert(m1.procs[len].0 == pid);
    assert(0 <= k < m1.procs.len());
    assert(forall|j: int| 0 <= j < len ==> m1.procs[j] == m.procs[j]);
    assert(k == len);
    assert(m1.procs.remove(len) =~= m.procs);
    assert(spec_reset_proc(m1, pid).0 =~= m);
    let acts = spec_restore_actions(m.settings, pid, rec);
    assert(acts[0] == (ActModel::SetNice { pid, value: n }));
}

/// Idempotence of admission: a second admission of the same pid leaves the
/// engine in the identical state — in particular the record stored by the
/// first admission, with its captured prior values, is not overwritten —
/// and asks for the very same tunings.
pub proof fn lemma_optimize_idempotent(
    m: OptModel,
    pid: i32,
    cap1: ProcModel,
    cap2: ProcModel,
    n1: nat,
    n2: nat,
)
    ensures
        spec_add(spec_add(m, pid, cap1, n1), pid, cap2, n2) == spec_add(m, pid, cap1, n1),
        spec_optimize_actions(spec_add(m, pid, cap1, n1).settings, pid) == spec_optimize_actions(
            m.settings,
            pid,
        ),
{
    let m1 = spec_add(m, pid, cap1, n1);
    if has_pid(m.procs, pid) {
    } else {
        assert(m1.procs[m.procs.len() as int].0 == pid);
    }
    assert(has_pid(m1.procs, pid));
}

/// Releasing an untracked pid is a no-op: the state is unchanged and no
/// action is emitted.
pub proof fn lemma_release_untracked_noop(m: OptModel, pid: i32)
    requires
        !has_pid(m.procs, pid),
    ensures
        spec_reset_proc(m, pid).0 == m,
        spec_reset_proc(m, pid).1.len() == 0,
{
    lemma_find_pid(m.procs, pid);
}

/// No leak on death: when every tracked process has died, the sweep empties
/// the tracked set, the implicit-revert condition holds, and the revert
/// leaves the engine idle with its snapshot cleared, emitting exactly the
/// snapshotted governor writes (the dead processes get no restore).
pub proof fn lemma_no_leak_on_death(m: OptModel, alive: Seq<bool>)
    requires
        m.wf(),
        m.optimized,
        alive.len() == m.procs.len(),
        forall|i: int| 0 <= i < alive.len() ==> !alive[i],
    ensures
        spec_sweep(m, alive).0.procs.len() == 0,
        spec_sweep(m, alive).1 || (spec_sweep(m, alive).0.optimized && spec_sweep(
            m,
            alive,
        ).0.procs.len() == 0),
        spec_reset_all(spec_sweep(m, alive).0).0.optimized == false,
        spec_reset_all(spec_sweep(m, alive).0).0.snapshot is None,
        spec_reset_all(spec_sweep(m, alive).0).1 == spec_governor_restores(m.snapshot),
{
    lemma_filter_none_alive(m.procs, alive);
    let m1 = spec_sweep(m, alive).0;
    assert(spec_all_restores(m1.settings, m1.procs) + spec_governor_restores(m.snapshot)
        =~= spec_governor_restores(m.snapshot));
}

/// Toggle isolation for the governor: with the governor toggle off, the
/// engine never asks for a probe, and beginning an episode emits no
/// governor write and records no snapshot, whatever probe is handed in.
pub proof fn lemma_governor_toggle_isolation(m: OptModel, probe: Option<ProbeModel>)
    requires
        !m.settings.governor_enabled,
    ensures
        spec_begin(m, probe).1 == Seq::<ActModel>::empty(),
        spec_begin(m, probe).0.snapshot == m.snapshot,
{
}

} // verus!

