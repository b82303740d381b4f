use vstd::prelude::*;

use crate::lifecycle::{kill_selection, live_rows, pids_of, respawned, restart_selection, struck_pids};
use crate::record::{spawned_model, RecordModel, Spawned};
use crate::registry::{admits, retired, selected, Filter, Row};
use crate::text::parse_usize;

verus! {

/// A query selects nothing exactly when no row passes its filter.
pub proof fn lemma_selected_empty(rows: Seq<Row>, f: Filter)
    ensures
        selected(rows, f).len() == 0 <==> forall|i: int| 0 <= i < rows.len() ==> !admits(f, #[trigger] rows[i]),
    decreases rows.len(),
{
    if rows.len() > 0 {
        lemma_selected_empty(rows.drop_last(), f);
        assert forall|i: int| 0 <= i < rows.len() - 1 implies rows.drop_last()[i] == #[trigger] rows[i] by {}
    }
}

/// Every row that passes a filter has its record among those selected.
pub proof fn lemma_selected_contains(rows: Seq<Row>, f: Filter, i: int)
    requires
        0 <= i < rows.len(),
        admits(f, rows[i]),
    ensures
        selected(rows, f).contains(rows[i].0),
    decreases rows.len(),
{
    let s = selected(rows, f);
    if i == rows.len() - 1 {
        assert(s[s.len() - 1] == rows[i].0);
    } else {
        assert(rows.drop_last()[i] == rows[i]);
        lemma_selected_contains(rows.drop_last(), f, i);
        let k = choose|k: int| 0 <= k < selected(rows.drop_last(), f).len() && selected(rows.drop_last(), f)[k] == rows[i].0;
        assert(s[k] == rows[i].0);
    }
}

/// Every selected record is that of a row that passes the filter.
pub proof fn lemma_selected_from(rows: Seq<Row>, f: Filter, k: int)
    requires
        0 <= k < selected(rows, f).len(),
    ensures
        exists|i: int| 0 <= i < rows.len() && admits(f, #[trigger] rows[i]) && rows[i].0 == selected(rows, f)[k],
    decreases rows.len(),
{
    let prev = selected(rows.drop_last(), f);
    if k < prev.len() {
        lemma_selected_from(rows.drop_last(), f, k);
        let i = choose|i: int| 0 <= i < rows.drop_last().len() && admits(f, #[trigger] rows.drop_last()[i]) && rows.drop_last()[i].0 == prev[k];
        assert(rows[i] == rows.drop_last()[i]);
    } else {
        assert(admits(f, rows[rows.len() - 1]));
    }
}

/// Right after a command is started, exactly one live record has its pid,
/// provided none had it before.
pub proof fn lemma_start_single_live(rows: Seq<Row>, command: Seq<char>, group: Option<usize>, process: Spawned)
    requires
        selected(rows, Filter::LivePid(process.pid)).len() == 0,
    ensures
        selected(rows.push((spawned_model(command, group, process), true)), Filter::LivePid(process.pid))
            == seq![spawned_model(command, group, process)],
{
    let rec = spawned_model(command, group, process);
    let after = rows.push((rec, true));
    assert(after.drop_last() =~= rows);
    assert(selected(after, Filter::LivePid(process.pid)) =~= seq![rec]);
}

/// Killing by a numeric token that is the pid of a live record targets that
/// record alone; once its signal is delivered, every row of that pid is dead
/// and no live record has it.
pub proof fn lemma_kill_by_pid(rows: Seq<Row>, token: Seq<char>, pid: usize)
    requires
        parse_usize(token) == Some(pid),
        selected(rows, Filter::LivePid(pid)).len() == 1,
    ensures
        kill_selection(rows, token) == Ok::<(Seq<RecordModel>, bool), crate::registry::RegistryError>(
            (selected(rows, Filter::LivePid(pid)), false),
        ),
        ({
            let after = retired(rows, struck_pids(selected(rows, Filter::LivePid(pid)), seq![true], false));
            &&& forall|i: int| 0 <= i < rows.len() && rows[i].0.pid == pid ==> !(#[trigger] after[i]).1
            &&& selected(after, Filter::LivePid(pid)).len() == 0
        }),
{
    let targets = selected(rows, Filter::LivePid(pid));
    lemma_selected_from(rows, Filter::LivePid(pid), 0);
    let struck = struck_pids(targets, seq![true], false);
    assert(struck.contains(pid)) by {
        assert(targets[0].pid == pid);
    }
    let after = retired(rows, struck);
    lemma_selected_empty(after, Filter::LivePid(pid));
}

/// Killing by a numeric token that is no live pid falls back to the live
/// records of the group of that number: once their signals are delivered, no
/// record of the group is live, and rows that share no pid with one of those
/// records are unchanged.
pub proof fn lemma_kill_group_fallback(rows: Seq<Row>, token: Seq<char>, group: usize, delivered: Seq<bool>)
    requires
        parse_usize(token) == Some(group),
        selected(rows, Filter::LivePid(group)).len() == 0,
        delivered.len() == selected(rows, Filter::LiveGroup(group)).len(),
        forall|j: int| 0 <= j < delivered.len() ==> #[trigger] delivered[j],
    ensures
        kill_selection(rows, token) == Ok::<(Seq<RecordModel>, bool), crate::registry::RegistryError>(
            (selected(rows, Filter::LiveGroup(group)), false),
        ),
        ({
            let targets = selected(rows, Filter::LiveGroup(group));
            let after = retired(rows, struck_pids(targets, delivered, false));
            &&& after.len() == rows.len()
            &&& forall|i: int| 0 <= i < rows.len() && rows[i].0.group == Some(group) ==> !(#[trigger] after[i]).1
            &&& forall|i: int| 0 <= i < rows.len() && !pids_of(targets).contains(rows[i].0.pid) ==> #[trigger] after[i] == rows[i]
        }),
{
    let f = Filter::LiveGroup(group);
    let targets = selected(rows, f);
    let struck = struck_pids(targets, delivered, false);
    assert forall|i: int| 0 <= i < rows.len() && rows[i].0.group == Some(group) implies !(#[trigger] retired(rows, struck)[i]).1 by {
        if rows[i].1 {
            lemma_selected_contains(rows, f, i);
            let k = choose|k: int| 0 <= k < targets.len() && targets[k] == rows[i].0;
            assert(struck.contains(rows[i].0.pid)) by {
                assert(targets[k].pid == rows[i].0.pid && delivered[k]);
            }
        }
    }
    assert forall|i: int| 0 <= i < rows.len() && !pids_of(targets).contains(rows[i].0.pid) implies #[trigger] retired(rows, struck)[i] == rows[i] by {
        if struck.contains(rows[i].0.pid) {
            let k = choose|k: int| 0 <= k < targets.len() && (#[trigger] targets[k]).pid == rows[i].0.pid && (false || delivered[k]);
            assert(pids_of(targets).contains(rows[i].0.pid));
        }
    }
}

/// Killing by a textual token marks dead every live record whose command
/// line starts with the token, delivered or not, and changes nothing else but
/// rows that share a pid with one of them.
pub proof fn lemma_kill_by_prefix(rows: Seq<Row>, token: Seq<char>, delivered: Seq<bool>)
    requires
        parse_usize(token) is None,
    ensures
        kill_selection(rows, token) == Ok::<(Seq<RecordModel>, bool), crate::registry::RegistryError>(
            (selected(rows, Filter::LivePrefix(token)), true),
        ),
        ({
            let after = retired(rows, struck_pids(selected(rows, Filter::LivePrefix(token)), delivered, true));
            &&& after.len() == rows.len()
            &&& forall|i: int| 0 <= i < rows.len() ==> (#[trigger] after[i]).0 == rows[i].0
            &&& forall|i: int| 0 <= i < rows.len() ==> ((#[trigger] after[i]).1 <==> (rows[i].1 && !exists|j: int|
                0 <= j < rows.len() && rows[j].1 && token.is_prefix_of(rows[j].0.command) && (#[trigger] rows[j]).0.pid == rows[i].0.pid))
        }),
{
    let f = Filter::LivePrefix(token);
    let targets = selected(rows, f);
    let struck = struck_pids(targets, delivered, true);
    let after = retired(rows, struck);
    assert forall|i: int| 0 <= i < rows.len() implies ((#[trigger] after[i]).1 <==> (rows[i].1 && !exists|j: int|
        0 <= j < rows.len() && rows[j].1 && token.is_prefix_of(rows[j].0.command) && (#[trigger] rows[j]).0.pid == rows[i].0.pid)) by {
        if exists|j: int| 0 <= j < rows.len() && rows[j].1 && token.is_prefix_of(rows[j].0.command) && (#[trigger] rows[j]).0.pid == rows[i].0.pid {
            let j = choose|j: int| 0 <= j < rows.len() && rows[j].1 && token.is_prefix_of(rows[j].0.command) && (#[trigger] rows[j]).0.pid == rows[i].0.pid;
            lemma_selected_contains(rows, f, j);
            let k = choose|k: int| 0 <= k < targets.len() && targets[k] == rows[j].0;
            assert(targets[k].pid == rows[i].0.pid);
            assert(struck.contains(rows[i].0.pid));
        }
        if struck.contains(rows[i].0.pid) {
            let k = choose|k: int| 0 <= k < targets.len() && (#[trigger] targets[k]).pid == rows[i].0.pid && (true || delivered[k]);
            lemma_selected_from(rows, f, k);
            let j = choose|j: int| 0 <= j < rows.len() && admits(f, #[trigger] rows[j]) && rows[j].0 == targets[k];
            assert(rows[j].1 && token.is_prefix_of(rows[j].0.command) && rows[j].0.pid == rows[i].0.pid);
        }
    }
}

/// Whether `r` is the record of a live row of `group`.
pub open spec fn is_live_in_group(rows: Seq<Row>, r: RecordModel, group: usize) -> bool {
    exists|i: int| 0 <= i < rows.len() && (#[trigger] rows[i]).1 && rows[i].0 == r && r.group == Some(group)
}

/// A restart of a group replaces each of its live records by one fresh live
/// record of the same command and group under the new pid, and leaves none of
/// the old ones live.
pub proof fn lemma_restart_group(rows: Seq<Row>, group: usize, processes: Seq<Spawned>)
    requires
        processes.len() == selected(rows, Filter::LiveGroup(group)).len(),
        forall|i: int, k: int| 0 <= i < rows.len() && 0 <= k < processes.len() ==> (#[trigger] rows[i]).0.pid != (#[trigger] processes[k]).pid,
    ensures
        ({
            let targets = restart_selection(rows, Some(group));
            let after = retired(rows, pids_of(targets)) + live_rows(respawned(targets, processes));
            &&& targets == selected(rows, Filter::LiveGroup(group))
            &&& after.len() == rows.len() + targets.len()
            &&& forall|k: int| 0 <= k < targets.len() ==> is_live_in_group(rows, #[trigger] targets[k], group)
            &&& forall|i: int| 0 <= i < rows.len() && rows[i].1 && rows[i].0.group == Some(group) ==>
                targets.contains(#[trigger] rows[i].0)
            &&& forall|k: int| 0 <= k < targets.len() ==> {
                let row = #[trigger] after[rows.len() + k];
                &&& row.1
                &&& row.0.command == targets[k].command
                &&& row.0.group == Some(group)
                &&& row.0.pid == processes[k].pid
                &&& row.0.pid != targets[k].pid
            }
            &&& forall|i: int| 0 <= i < rows.len() && rows[i].0.group == Some(group) ==> !(#[trigger] after[i]).1
        }),
{
    let f = Filter::LiveGroup(group);
    let targets = selected(rows, f);
    let after = retired(rows, pids_of(targets)) + live_rows(respawned(targets, processes));
    assert forall|k: int| 0 <= k < targets.len() implies is_live_in_group(rows, #[trigger] targets[k], group) by {
        lemma_selected_from(rows, f, k);
        let i = choose|i: int| 0 <= i < rows.len() && admits(f, #[trigger] rows[i]) && rows[i].0 == targets[k];
        assert(rows[i].1);
    }
    assert forall|i: int| 0 <= i < rows.len() && rows[i].1 && rows[i].0.group == Some(group) implies
        targets.contains(#[trigger] rows[i].0) by {
        lemma_selected_contains(rows, f, i);
    }
    assert forall|k: int| 0 <= k < targets.len() implies {
        let row = #[trigger] after[rows.len() + k];
        &&& row.1
        &&& row.0.command == targets[k].command
        &&& row.0.group == Some(group)
        &&& row.0.pid == processes[k].pid
        &&& row.0.pid != targets[k].pid
    } by {
        lemma_selected_from(rows, f, k);
        let i = choose|i: int| 0 <= i < rows.len() && admits(f, #[trigger] rows[i]) && rows[i].0 == targets[k];
        assert(rows[i].0.pid != processes[k].pid);
    }
    assert forall|i: int| 0 <= i < rows.len() && rows[i].0.group == Some(group) implies !(#[trigger] after[i]).1 by {
        if rows[i].1 {
            lemma_selected_contains(rows, f, i);
            let k = choose|k: int| 0 <= k < targets.len() && targets[k] == rows[i].0;
            assert(pids_of(targets).contains(rows[i].0.pid)) by {
                assert(targets[k].pid == rows[i].0.pid);
            }
        }
    }
}

/// A restart of a group with no live record changes nothing and asks for no
/// new process.
pub proof fn lemma_restart_empty_group(rows: Seq<Row>, group: usize)
    requires
        forall|i: int| 0 <= i < rows.len() && (#[trigger] rows[i]).0.group == Some(group) ==> !rows[i].1,
    ensures
        restart_selection(rows, Some(group)).len() == 0,
        retired(rows, pids_of(restart_selection(rows, Some(group))))
            + live_rows(respawned(restart_selection(rows, Some(group)), Seq::empty())) == rows,
{
    let f = Filter::LiveGroup(group);
    lemma_selected_empty(rows, f);
    let targets = selected(rows, f);
    assert(pids_of(targets) =~= Set::empty());
    assert(retired(rows, pids_of(targets)) + live_rows(respawned(targets, Seq::empty())) =~= rows);
}

/// After a reset the store is empty, so no query finds a record, live or not.
pub proof fn lemma_reset_nothing_live(rows: Seq<Row>, f: Filter)
    requires
        rows.len() == 0,
    ensures
        selected(rows, f).len() == 0,
{
}

/// Marking a pid dead twice is the same as marking it once, and marking dead a
/// pid that no live record has changes nothing.
pub proof fn lemma_mark_dead_idempotent(rows: Seq<Row>, pid: usize)
    ensures
        retired(retired(rows, set![pid]), set![pid]) == retired(rows, set![pid]),
        selected(rows, Filter::LivePid(pid)).len() == 0 ==> retired(rows, set![pid]) == rows,
{
    assert(retired(retired(rows, set![pid]), set![pid]) =~= retired(rows, set![pid]));
    if selected(rows, Filter::LivePid(pid)).len() == 0 {
        lemma_selected_empty(rows, Filter::LivePid(pid));
        assert(retired(rows, set![pid]) =~= rows);
    }
}

} // verus!
