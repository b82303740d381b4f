use vstd::prelude::*;

use crate::record::{spawned_model, DelegateCommand, RecordModel, Spawned};
use crate::registry::{retired, selected, Filter, RegistryError, Repository, Row};
use crate::text::{parse_decimal, parse_usize};

verus! {

/// The records that a kill token names, and whether each is marked dead even
/// when its signal could not be delivered.
///
/// A token that reads as a number names the live record of that pid, or, when
/// there is none, the live records of the group of that number; any other
/// token is a command-line prefix and names the live records that start with
/// it. Dead rows are never targeted: their pids may since belong to unrelated
/// processes.
pub open spec fn kill_selection(rows: Seq<Row>, token: Seq<char>) -> Result<(Seq<RecordModel>, bool), RegistryError> {
    match parse_usize(token) {
        Some(n) => {
            let by_pid = selected(rows, Filter::LivePid(n));
            if by_pid.len() == 1 {
                Ok((by_pid, false))
            } else if by_pid.len() == 0 {
                Ok((selected(rows, Filter::LiveGroup(n)), false))
            } else {
                Err(RegistryError::Ambiguous)
            }
        },
        None => Ok((selected(rows, Filter::LivePrefix(token)), true)),
    }
}

/// The pids of the targets to mark dead: those whose signal was delivered, or
/// all of them when `regardless` holds.
pub open spec fn struck_pids(targets: Seq<RecordModel>, delivered: Seq<bool>, regardless: bool) -> Set<usize> {
    Set::new(
        |p: usize|
            exists|j: int|
                0 <= j < targets.len() && (#[trigger] targets[j]).pid == p && (regardless || delivered[j]),
    )
}

/// The pids of the given records.
pub open spec fn pids_of(targets: Seq<RecordModel>) -> Set<usize> {
    Set::new(|p: usize| exists|j: int| 0 <= j < targets.len() && (#[trigger] targets[j]).pid == p)
}

/// The records that a restart replaces: the live records of `group`, or every
/// live record when no group is given. Dead rows of the group stay dead; the
/// group listing of the registry still shows them.
pub open spec fn restart_selection(rows: Seq<Row>, group: Option<usize>) -> Seq<RecordModel> {
    match group {
        Some(g) => selected(rows, Filter::LiveGroup(g)),
        None => selected(rows, Filter::Live),
    }
}

/// The fresh records of a restart: each target's command and group, run as
/// the matching new process.
pub open spec fn respawned(targets: Seq<RecordModel>, processes: Seq<Spawned>) -> Seq<RecordModel> {
    Seq::new(targets.len(), |i: int| spawned_model(targets[i].command, targets[i].group, processes[i]))
}

/// The given records as live rows.
pub open spec fn live_rows(records: Seq<RecordModel>) -> Seq<Row> {
    Seq::new(records.len(), |i: int| (records[i], true))
}

pub open spec fn models(v: Seq<DelegateCommand>) -> Seq<RecordModel> {
    v.map_values(|c: DelegateCommand| c@)
}

/// The outcome of resolving a kill token: the records to signal.
pub struct KillPlan {
    pub targets: Vec<DelegateCommand>,
    /// Whether a target is marked dead even when its signal failed.
    pub mark_on_failure: bool,
}

/// Resolves a kill token against the registry.
pub fn plan_kill(repo: &Repository, token: &str) -> (r: Result<KillPlan, RegistryError>)
    requires
        repo.wf(),
    ensures
        match r {
            Ok(p) => kill_selection(repo@, token@) == Ok::<(Seq<RecordModel>, bool), RegistryError>(
                (models(p.targets@), p.mark_on_failure),
            ),
            Err(e) => kill_selection(repo@, token@) == Err::<(Seq<RecordModel>, bool), RegistryError>(e),
        },
{
    match parse_decimal(token) {
        Some(n) => {
            match repo.get_by_pid(n) {
                Ok(c) => {
                    let mut targets: Vec<DelegateCommand> = Vec::new();
                    targets.push(c);
                    assert(models(targets@) =~= selected(repo@, Filter::LivePid(n)));
                    Ok(KillPlan { targets, mark_on_failure: false })
                },
                Err(RegistryError::NotFound) => {
                    Ok(KillPlan { targets: repo.list_live_with_group(n), mark_on_failure: false })
                },
                Err(e) => Err(e),
            }
        },
        None => Ok(KillPlan { targets: repo.list_with_name(token), mark_on_failure: true }),
    }
}

/// Marks dead the pid of each target whose signal was delivered, or of every
/// target when `regardless` holds.
fn retire_targets(repo: &mut Repository, targets: &Vec<DelegateCommand>, delivered: &Vec<bool>, regardless: bool)
    requires
        old(repo).wf(),
        regardless || delivered@.len() == targets@.len(),
    ensures
        final(repo).wf(),
        final(repo)@ == retired(old(repo)@, struck_pids(models(targets@), delivered@, regardless)),
{
    let ghost start = repo@;
    let ghost all = models(targets@);
    let mut j: usize = 0;
    assert(retired(start, struck_pids(all.take(0), delivered@, regardless)) =~= start);
    while j < targets.len()
        invariant
            repo.wf(),
            all == models(targets@),
            regardless || delivered@.len() == targets@.len(),
            j <= targets@.len(),
            repo@ == retired(start, struck_pids(all.take(j as int), delivered@, regardless)),
        decreases targets@.len() - j,
    {
        let ghost before = struck_pids(all.take(j as int), delivered@, regardless);
        let ghost after = struck_pids(all.take(j + 1), delivered@, regardless);
        let hit = regardless || delivered[j];
        if hit {
            repo.retire_pid(targets[j].pid());
            assert(after =~= before.insert(all[j as int].pid)) by {
                assert(all.take(j + 1)[j as int] == all[j as int]);
                assert forall|p: usize| after.contains(p) implies #[trigger] before.insert(all[j as int].pid).contains(p) by {
                    let k = choose|k: int| 0 <= k < j + 1 && (#[trigger] all.take(j + 1)[k]).pid == p && (regardless || delivered@[k]);
                    if k < j {
                        assert(all.take(j as int)[k] == all.take(j + 1)[k]);
                    }
                }
                assert forall|p: usize| before.insert(all[j as int].pid).contains(p) implies #[trigger] after.contains(p) by {
                    if p != all[j as int].pid {
                        let k = choose|k: int| 0 <= k < j && (#[trigger] all.take(j as int)[k]).pid == p && (regardless || delivered@[k]);
                        assert(all.take(j + 1)[k] == all.take(j as int)[k]);
                    }
                }
            }
        } else {
            assert(after =~= before) by {
                assert forall|p: usize| after.contains(p) implies #[trigger] before.contains(p) by {
                    let k = choose|k: int| 0 <= k < j + 1 && (#[trigger] all.take(j + 1)[k]).pid == p && (regardless || delivered@[k]);
                    assert(k != j);
                    assert(all.take(j as int)[k] == all.take(j + 1)[k]);
                }
                assert forall|p: usize| before.contains(p) implies #[trigger] after.contains(p) by {
                    let k = choose|k: int| 0 <= k < j && (#[trigger] all.take(j as int)[k]).pid == p && (regardless || delivered@[k]);
                    assert(all.take(j + 1)[k] == all.take(j as int)[k]);
                }
            }
        }
        proof {
            assert(retired(retired(start, before), set![all[j as int].pid]) =~= retired(start, before.insert(all[j as int].pid)));
        }
        j = j + 1;
    }
    assert(all.take(j as int) =~= all);
}

/// Records the outcome of the signals of a kill plan: `delivered[i]` tells
/// whether the signal to `plan.targets[i]` was delivered. Returns, for each
/// target, whether its pid was marked dead.
pub fn apply_kill(repo: &mut Repository, plan: &KillPlan, delivered: &Vec<bool>) -> (r: Vec<bool>)
    requires
        old(repo).wf(),
        delivered@.len() == plan.targets@.len(),
    ensures
        final(repo).wf(),
        final(repo)@ == retired(old(repo)@, struck_pids(models(plan.targets@), delivered@, plan.mark_on_failure)),
        r@.len() == plan.targets@.len(),
        forall|i: int| 0 <= i < r@.len() ==> #[trigger] r@[i] == (plan.mark_on_failure || delivered@[i]),
{
    retire_targets(repo, &plan.targets, delivered, plan.mark_on_failure);
    let mut marked: Vec<bool> = Vec::new();
    let mut i: usize = 0;
    while i < delivered.len()
        invariant
            i <= delivered@.len(),
            marked@.len() == i,
            forall|k: int| 0 <= k < i ==> #[trigger] marked@[k] == (plan.mark_on_failure || delivered@[k]),
        decreases delivered@.len() - i,
    {
        marked.push(plan.mark_on_failure || delivered[i]);
        i = i + 1;
    }
    marked
}

/// Starts tracking `command`, tagged with `group`, as the process `process`.
pub fn start(repo: &mut Repository, command: String, group: Option<usize>, process: Spawned) -> (r: DelegateCommand)
    requires
        old(repo).wf(),
    ensures
        final(repo).wf(),
        r@ == spawned_model(command@, group, process),
        final(repo)@ == old(repo)@.push((r@, true)),
{
    let cmd = DelegateCommand::spawn(command, group, process);
    repo.insert(&cmd);
    cmd
}

/// The records that a restart of `group` (of every live record, when absent)
/// replaces.
pub fn restart_targets(repo: &Repository, group: Option<usize>) -> (r: Vec<DelegateCommand>)
    requires
        repo.wf(),
    ensures
        models(r@) == restart_selection(repo@, group),
{
    match group {
        Some(g) => repo.list_live_with_group(g),
        None => repo.list(),
    }
}

/// Replaces each target by a fresh live record of the same command and group,
/// run as the matching entry of `processes`; the targets' pids are marked dead
/// first, whether or not their processes could be signalled.
pub fn restart(repo: &mut Repository, targets: &Vec<DelegateCommand>, processes: Vec<Spawned>) -> (r: Vec<DelegateCommand>)
    requires
        old(repo).wf(),
        processes@.len() == targets@.len(),
    ensures
        final(repo).wf(),
        models(r@) == respawned(models(targets@), processes@),
        final(repo)@ == retired(old(repo)@, pids_of(models(targets@))) + live_rows(respawned(models(targets@), processes@)),
{
    let ghost all = models(targets@);
    let ghost procs = processes@;
    let none: Vec<bool> = Vec::new();
    retire_targets(repo, targets, &none, true);
    assert(struck_pids(all, none@, true) =~= pids_of(all));
    let ghost base = repo@;
    let mut rest = processes;
    let mut fresh: Vec<DelegateCommand> = Vec::new();
    let mut i: usize = 0;
    while i < targets.len()
        invariant
            repo.wf(),
            all == models(targets@),
            procs.len() == all.len(),
            i <= all.len(),
            rest@ == procs.subrange(i as int, procs.len() as int),
            repo@ == base + live_rows(models(fresh@)),
            models(fresh@) == respawned(all.take(i as int), procs.take(i as int)),
        decreases all.len() - i,
    {
        let p = rest.remove(0);
        assert(p == procs[i as int]);
        let c = targets[i].duplicate().clone_spawn(p);
        assert(all[i as int] == targets@[i as int]@);
        assert(c@ == respawned(all.take(i + 1), procs.take(i + 1))[i as int]);
        let ghost prev = models(fresh@);
        repo.insert(&c);
        fresh.push(c);
        assert(models(fresh@) =~= prev.push(c@));
        i = i + 1;
        assert(models(fresh@) =~= respawned(all.take(i as int), procs.take(i as int)));
        assert(repo@ =~= base + live_rows(models(fresh@)));
    }
    assert(all.take(i as int) =~= all);
    assert(procs.take(i as int) =~= procs);
    assert(models(fresh@) == respawned(all, procs));
    fresh
}

} // verus!
