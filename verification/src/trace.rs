//! What holds of whole walks: of every sequence of steps that a scanner
//! may be taken through, whatever the walker reports.

use vstd::prelude::*;

use crate::scanner::{
    kinds_exclusive, lemma_counts_disjoint, lemma_counts_push, starts_with_dot, DirectoryScanner,
    ItemModel, NodeModel, ScanStep, ScannerModel, StepInput, StepModel, Verdict, WalkItem,
};
use crate::types::{
    count_directories, count_files, sum_file_sizes, EntryModel, ProgressModel, ScanProgress,
    ScanStatus,
};

verus! {

/// The state after the steps `inputs`, taken in order from `start`.
pub open spec fn run(start: ScannerModel, inputs: Seq<StepInput>) -> ScannerModel
    decreases inputs.len(),
{
    if inputs.len() == 0 {
        start
    } else {
        run(start, inputs.drop_last()).step(inputs.last())
    }
}

/// The state in which step `k` of `inputs` is taken.
pub open spec fn state_before(start: ScannerModel, inputs: Seq<StepInput>, k: int) -> ScannerModel {
    run(start, inputs.take(k))
}

/// What the walk does with the report of step `k`.
pub open spec fn verdict_at(start: ScannerModel, inputs: Seq<StepInput>, k: int) -> Verdict {
    state_before(start, inputs, k).verdict(inputs[k].cancelled, inputs[k].item)
}

/// The answer of step `k`.
pub open spec fn answer_at(start: ScannerModel, inputs: Seq<StepInput>, k: int) -> StepModel {
    state_before(start, inputs, k).answer(inputs[k])
}

/// The snapshot that an answer carries, if it carries one.
pub open spec fn snapshot_in(answer: StepModel) -> Option<ProgressModel> {
    match answer {
        StepModel::Progress(p) => Some(p),
        StepModel::Cancelled(p) => Some(p),
        _ => None,
    }
}

/// `later` starts with all of `earlier`, in the same order.
pub open spec fn extends(later: Seq<EntryModel>, earlier: Seq<EntryModel>) -> bool {
    &&& earlier.len() <= later.len()
    &&& forall|i: int| 0 <= i < earlier.len() ==> later[i] == earlier[i]
}

/// A fresh walk: started, with nothing gathered and no subtree passed
/// over.
pub open spec fn fresh(start: ScannerModel) -> bool {
    &&& start.status is Scanning
    &&& start.entries.len() == 0
    &&& start.pruned is None
}

/// The state before step `k + 1` is the state before step `k` after that
/// step.
pub proof fn lemma_state_advances(start: ScannerModel, inputs: Seq<StepInput>, k: int)
    requires
        0 <= k < inputs.len(),
    ensures
        state_before(start, inputs, k + 1) == state_before(start, inputs, k).step(inputs[k]),
        state_before(start, inputs, inputs.len() as int) == run(start, inputs),
{
    assert(inputs.take(k + 1).drop_last() =~= inputs.take(k));
    assert(inputs.take(k + 1).last() == inputs[k]);
    assert(inputs.take(inputs.len() as int) =~= inputs);
}

/// A step changes neither the configuration nor the identity of the walk,
/// keeps every entry in its place, and leaves a walk that is not running
/// as it is.
pub proof fn lemma_step_keeps(m: ScannerModel, input: StepInput)
    ensures
        m.step(input).config == m.config,
        m.step(input).scan_id == m.scan_id,
        m.step(input).root_path == m.root_path,
        extends(m.step(input).entries, m.entries),
        !(m.status is Scanning) ==> m.step(input) == m,
        m.step(input).status == m.status || (m.status is Scanning && m.step(input).status
            is Cancelled),
{
}

/// A walk keeps its configuration and its identity, and only adds to its
/// entries.
pub proof fn lemma_run_keeps(start: ScannerModel, inputs: Seq<StepInput>)
    ensures
        run(start, inputs).config == start.config,
        run(start, inputs).scan_id == start.scan_id,
        run(start, inputs).root_path == start.root_path,
        extends(run(start, inputs).entries, start.entries),
    decreases inputs.len(),
{
    if inputs.len() > 0 {
        lemma_run_keeps(start, inputs.drop_last());
        lemma_step_keeps(run(start, inputs.drop_last()), inputs.last());
    }
}

/// Counts and sizes only grow as entries are added.
pub proof fn lemma_counts_grow(earlier: Seq<EntryModel>, later: Seq<EntryModel>)
    requires
        extends(later, earlier),
    ensures
        count_files(earlier) <= count_files(later),
        count_directories(earlier) <= count_directories(later),
        sum_file_sizes(earlier) <= sum_file_sizes(later),
    decreases later.len(),
{
    if later.len() == earlier.len() {
        assert(later =~= earlier);
    } else {
        lemma_counts_grow(earlier, later.drop_last());
    }
}

/// A walk that is not running, because it has not started or because it
/// has ended, stays as it is, whatever it is told: an ended walk does not
/// resume.
pub proof fn stopped_walk_stays(start: ScannerModel, inputs: Seq<StepInput>, j: int)
    requires
        0 <= j <= inputs.len(),
        !(start.status is Scanning),
    ensures
        state_before(start, inputs, j) == start,
    decreases j,
{
    if j == 0 {
        assert(inputs.take(0) =~= Seq::empty());
    } else {
        stopped_walk_stays(start, inputs, j - 1);
        lemma_state_advances(start, inputs, j - 1);
    }
}

/// Between two steps of a walk the entries are only added to, the
/// configuration stays, and a walk that has stopped does not resume.
pub proof fn lemma_states_ordered(start: ScannerModel, inputs: Seq<StepInput>, i: int, j: int)
    requires
        0 <= i <= j <= inputs.len(),
    ensures
        extends(state_before(start, inputs, j).entries, state_before(start, inputs, i).entries),
        state_before(start, inputs, j).config == state_before(start, inputs, i).config,
        state_before(start, inputs, j).scan_id == state_before(start, inputs, i).scan_id,
        state_before(start, inputs, i).status is Cancelled ==> state_before(
            start,
            inputs,
            j,
        ).status is Cancelled,
        state_before(start, inputs, j).status is Scanning ==> state_before(
            start,
            inputs,
            i,
        ).status is Scanning,
        state_before(start, inputs, 0) == start,
    decreases j - i,
{
    assert(inputs.take(0) =~= Seq::empty());
    if i < j {
        lemma_states_ordered(start, inputs, i, j - 1);
        lemma_state_advances(start, inputs, j - 1);
        lemma_step_keeps(state_before(start, inputs, j - 1), inputs[j - 1]);
    }
}

/// Once a walk finds cancellation requested, it is cancelled for good: the
/// step that finds it answers with a snapshot whose status is `Cancelled`,
/// every later step answers that the walk is not running, and the walk
/// ends in the status `Cancelled`, from which no result is made.
pub proof fn cancellation_is_final(start: ScannerModel, inputs: Seq<StepInput>, k: int)
    requires
        0 <= k < inputs.len(),
        inputs[k].cancelled,
        state_before(start, inputs, k).status is Scanning,
    ensures
        answer_at(start, inputs, k) matches StepModel::Cancelled(p) && p.status is Cancelled,
        run(start, inputs).status is Cancelled,
        !run(start, inputs).yields_result(),
        forall|j: int| k < j < inputs.len() ==> #[trigger] answer_at(start, inputs, j) is Stopped,
        forall|j: int|
            k < j < inputs.len() ==> snapshot_in(#[trigger] answer_at(start, inputs, j)) is None,
{
    lemma_state_advances(start, inputs, k);
    assert(state_before(start, inputs, k + 1).status is Cancelled);
    lemma_states_ordered(start, inputs, k + 1, inputs.len() as int);
    assert forall|j: int| k < j < inputs.len() implies #[trigger] answer_at(start, inputs, j)
        is Stopped by {
        lemma_states_ordered(start, inputs, k + 1, j);
    }
}

/// The snapshots of one walk never go back: of two snapshots, the later
/// one reports at least as many files, directories and bytes as the
/// earlier one. The premise is met by the state of every well-formed
/// scanner, as [`DirectoryScanner::totals_fit`] shows.
pub proof fn progress_never_decreases(
    start: ScannerModel,
    inputs: Seq<StepInput>,
    i: int,
    j: int,
)
    requires
        0 <= i <= j < inputs.len(),
        run(start, inputs).bounded(),
        snapshot_in(answer_at(start, inputs, i)) is Some,
        snapshot_in(answer_at(start, inputs, j)) is Some,
    ensures
        ({
            let p = snapshot_in(answer_at(start, inputs, i))->0;
            let q = snapshot_in(answer_at(start, inputs, j))->0;
            &&& p.files_scanned <= q.files_scanned
            &&& p.directories_scanned <= q.directories_scanned
            &&& p.bytes_scanned <= q.bytes_scanned
        }),
{
    let n = inputs.len() as int;
    let at_i = state_before(start, inputs, i);
    let at_j = state_before(start, inputs, j);
    let after_i = at_i.step(inputs[i]);
    let after_j = at_j.step(inputs[j]);
    lemma_state_advances(start, inputs, i);
    lemma_state_advances(start, inputs, j);
    lemma_step_keeps(at_i, inputs[i]);
    lemma_step_keeps(at_j, inputs[j]);
    lemma_states_ordered(start, inputs, j + 1, n);
    lemma_counts_grow(after_j.entries, run(start, inputs).entries);
    lemma_counts_grow(at_j.entries, after_j.entries);
    lemma_counts_grow(at_i.entries, after_i.entries);
    if i < j {
        lemma_states_ordered(start, inputs, i + 1, j);
        lemma_counts_grow(after_i.entries, at_j.entries);
    }
}

/// The snapshot that closes a completed walk reports at least as much as
/// every snapshot before it.
pub proof fn closing_snapshot_is_greatest(
    start: ScannerModel,
    inputs: Seq<StepInput>,
    i: int,
    elapsed_ms: u64,
)
    requires
        0 <= i < inputs.len(),
        run(start, inputs).bounded(),
        snapshot_in(answer_at(start, inputs, i)) is Some,
    ensures
        ({
            let p = snapshot_in(answer_at(start, inputs, i))->0;
            let q = run(start, inputs).snapshot(Seq::empty(), elapsed_ms, ScanStatus::Completed);
            &&& p.files_scanned <= q.files_scanned
            &&& p.directories_scanned <= q.directories_scanned
            &&& p.bytes_scanned <= q.bytes_scanned
        }),
{
    let n = inputs.len() as int;
    let at_i = state_before(start, inputs, i);
    let after_i = at_i.step(inputs[i]);
    lemma_state_advances(start, inputs, i);
    lemma_step_keeps(at_i, inputs[i]);
    lemma_states_ordered(start, inputs, i + 1, n);
    lemma_counts_grow(after_i.entries, run(start, inputs).entries);
    lemma_counts_grow(at_i.entries, after_i.entries);
}

/// Every report of the walk is a file or a directory, or no node at all.
pub open spec fn only_files_and_directories(inputs: Seq<StepInput>) -> bool {
    forall|k: int|
        0 <= k < inputs.len() ==> (#[trigger] inputs[k].item matches ItemModel::Node(n) ==> n.kind
            is File || n.kind is Directory)
}

/// In a walk that meets nothing but files and directories, every entry is
/// counted once: the files and the directories together are as many as the
/// entries.
pub proof fn every_entry_is_counted(start: ScannerModel, inputs: Seq<StepInput>)
    requires
        start.entries.len() == 0,
        only_files_and_directories(inputs),
    ensures
        run(start, inputs).files() + run(start, inputs).directories() == run(
            start,
            inputs,
        ).entries.len(),
    decreases inputs.len(),
{
    if inputs.len() > 0 {
        let before = run(start, inputs.drop_last());
        let input = inputs.last();
        assert forall|k: int| 0 <= k < inputs.drop_last().len() implies (
        #[trigger] inputs.drop_last()[k].item matches ItemModel::Node(n) ==> n.kind is File
            || n.kind is Directory) by {
            assert(inputs.drop_last()[k] == inputs[k]);
        }
        every_entry_is_counted(start, inputs.drop_last());
        if before.verdict(input.cancelled, input.item) is Admit {
            assert(inputs[inputs.len() - 1] == input);
            lemma_counts_push(before.entries, input.item->Node_0.entry(input.entry_id));
        }
    }
}

/// No entry of a walk is both a file and a directory, so that files and
/// directories together never outnumber the entries.
pub proof fn kinds_stay_exclusive(start: ScannerModel, inputs: Seq<StepInput>)
    requires
        kinds_exclusive(start.entries),
    ensures
        kinds_exclusive(run(start, inputs).entries),
        run(start, inputs).files() + run(start, inputs).directories() <= run(
            start,
            inputs,
        ).entries.len(),
    decreases inputs.len(),
{
    if inputs.len() > 0 {
        let before = run(start, inputs.drop_last());
        let input = inputs.last();
        kinds_stay_exclusive(start, inputs.drop_last());
        let after = before.step(input);
        assert forall|i: int| 0 <= i < after.entries.len() implies !(
        #[trigger] after.entries[i].is_file && after.entries[i].is_directory) by {
            if i < before.entries.len() {
                assert(after.entries[i] == before.entries[i]);
            }
        }
    }
    lemma_counts_disjoint(run(start, inputs).entries);
}

/// A walk that leaves hidden nodes out has no entry whose name starts
/// with a dot.
pub proof fn hidden_names_stay_out(start: ScannerModel, inputs: Seq<StepInput>)
    requires
        !start.config.include_hidden,
        start.entries.len() == 0,
    ensures
        forall|i: int|
            0 <= i < run(start, inputs).entries.len() ==> !starts_with_dot(
                #[trigger] run(start, inputs).entries[i].name,
            ),
    decreases inputs.len(),
{
    if inputs.len() > 0 {
        let before = run(start, inputs.drop_last());
        let input = inputs.last();
        hidden_names_stay_out(start, inputs.drop_last());
        lemma_run_keeps(start, inputs.drop_last());
        let after = before.step(input);
        assert forall|i: int| 0 <= i < after.entries.len() implies !starts_with_dot(
            #[trigger] after.entries[i].name,
        ) by {
            if i < before.entries.len() {
                assert(after.entries[i] == before.entries[i]);
            }
        }
    }
}

/// Whether the node of step `j` lies below the node of step `i`: every
/// node reported after step `i`, up to step `j`, is deeper than that of
/// step `i`.
pub open spec fn lies_below(inputs: Seq<StepInput>, i: int, j: int) -> bool {
    &&& 0 <= i < j < inputs.len()
    &&& inputs[i].item is Node
    &&& inputs[j].item is Node
    &&& forall|k: int|
        i < k <= j ==> (#[trigger] inputs[k].item matches ItemModel::Node(n) ==> n.depth
            > inputs[i].item->Node_0.depth)
}

/// Whether a walk with the configuration of `start` stays out of what
/// lies below the node `n`: below a node that it leaves out, because it
/// is hidden or too deep, and below a symbolic link that it does not
/// follow.
pub open spec fn closes_subtree(start: ScannerModel, n: NodeModel) -> bool {
    ||| !start.config.include_hidden && n.hidden()
    ||| n.depth > start.config.max_depth
    ||| start.is_leaf(n)
}

/// While the walk is told of the nodes below a node that closes its
/// subtree, it is passing over the subtree of a node that is no deeper.
proof fn lemma_passing_over(start: ScannerModel, inputs: Seq<StepInput>, i: int, j: int, k: int)
    requires
        lies_below(inputs, i, j),
        closes_subtree(start, inputs[i].item->Node_0),
        i < k <= j,
    ensures
        state_before(start, inputs, k).status is Scanning ==> (state_before(
            start,
            inputs,
            k,
        ).pruned matches Some(d) && d <= inputs[i].item->Node_0.depth),
    decreases k - i,
{
    lemma_states_ordered(start, inputs, 0, k - 1);
    lemma_state_advances(start, inputs, k - 1);
    if k > i + 1 {
        lemma_passing_over(start, inputs, i, j, k - 1);
        assert(inputs[k - 1].item matches ItemModel::Node(n) ==> n.depth
            > inputs[i].item->Node_0.depth);
    }
}

/// A walk admits nothing below a node that closes its subtree: nothing
/// below a hidden node where hidden nodes are left out, nothing below a
/// node beyond the depth limit, and nothing below a symbolic link that is
/// not followed.
pub proof fn nothing_below_a_closed_node_is_admitted(
    start: ScannerModel,
    inputs: Seq<StepInput>,
    i: int,
    j: int,
)
    requires
        lies_below(inputs, i, j),
        closes_subtree(start, inputs[i].item->Node_0),
    ensures
        !(verdict_at(start, inputs, j) is Admit),
{
    lemma_passing_over(start, inputs, i, j, j);
    assert(inputs[j].item matches ItemModel::Node(n) ==> n.depth > inputs[i].item->Node_0.depth);
}

/// No entry of a walk lies deeper than the configured limit.
pub proof fn depth_limit_holds(start: ScannerModel, inputs: Seq<StepInput>)
    requires
        start.entries.len() == 0,
    ensures
        forall|i: int|
            0 <= i < run(start, inputs).entries.len() ==> (#[trigger] run(
                start,
                inputs,
            ).entries[i]).depth <= start.config.max_depth,
    decreases inputs.len(),
{
    if inputs.len() > 0 {
        let before = run(start, inputs.drop_last());
        let input = inputs.last();
        depth_limit_holds(start, inputs.drop_last());
        lemma_run_keeps(start, inputs.drop_last());
        let after = before.step(input);
        assert forall|i: int| 0 <= i < after.entries.len() implies (
        #[trigger] after.entries[i]).depth <= start.config.max_depth by {
            if i < before.entries.len() {
                assert(after.entries[i] == before.entries[i]);
            }
        }
    }
}

/// Only the first report of the walk is at depth 0, as in a walk that
/// begins at its root.
pub open spec fn root_comes_first(inputs: Seq<StepInput>) -> bool {
    forall|k: int|
        1 <= k < inputs.len() ==> (#[trigger] inputs[k].item matches ItemModel::Node(n) ==> n.depth
            >= 1)
}

/// With a depth limit of 0 a walk gathers the root and nothing else: it
/// has one entry, that of its first report, if that report is admitted,
/// and none otherwise.
pub proof fn depth_zero_yields_the_root_alone(start: ScannerModel, inputs: Seq<StepInput>)
    requires
        start.config.max_depth == 0,
        start.entries.len() == 0,
        root_comes_first(inputs),
    ensures
        run(start, inputs).entries.len() <= 1,
        inputs.len() > 0 && verdict_at(start, inputs, 0) is Admit ==> run(start, inputs).entries
            == seq![inputs[0].item->Node_0.entry(inputs[0].entry_id)],
        inputs.len() == 0 || !(verdict_at(start, inputs, 0) is Admit) ==> run(
            start,
            inputs,
        ).entries.len() == 0,
    decreases inputs.len(),
{
    assert(inputs.take(0) =~= Seq::empty());
    if inputs.len() == 1 {
        assert(inputs.drop_last() =~= Seq::empty());
        assert(inputs.last() == inputs[0]);
        assert(run(start, inputs) == start.step(inputs[0]));
        assert(start.entries =~= Seq::empty());
        if verdict_at(start, inputs, 0) is Admit {
            assert(run(start, inputs).entries =~= seq![
                inputs[0].item->Node_0.entry(inputs[0].entry_id),
            ]);
        }
    } else if inputs.len() > 1 {
        let shorter = inputs.drop_last();
        assert forall|k: int| 1 <= k < shorter.len() implies (
        #[trigger] shorter[k].item matches ItemModel::Node(n) ==> n.depth >= 1) by {
            assert(shorter[k] == inputs[k]);
        }
        depth_zero_yields_the_root_alone(start, shorter);
        assert(shorter.take(0) =~= Seq::empty());
        assert(shorter[0] == inputs[0]);
        let before = run(start, shorter);
        lemma_run_keeps(start, shorter);
        let last = inputs.last();
        assert(last == inputs[inputs.len() - 1]);
        assert(!(before.verdict(last.cancelled, last.item) is Admit));
    }
}

/// One report of a walker, with the time at which it was made.
#[derive(Debug, Clone)]
pub struct Report {
    pub item: WalkItem,
    /// Milliseconds since the scan was started.
    pub now_ms: u64,
}

/// The steps that are taken on `reports` if cancellation is never
/// requested.
pub open spec fn uncancelled(reports: Seq<Report>) -> Seq<StepInput> {
    Seq::new(
        reports.len(),
        |k: int|
            StepInput {
                cancelled: false,
                entry_id: Seq::empty(),
                item: reports[k].item@,
                now_ms: reports[k].now_ms,
            },
    )
}

/// The steps `inputs` are taken on the reports `reports`, one each, in
/// order, at the times of the reports.
pub open spec fn follows(inputs: Seq<StepInput>, reports: Seq<Report>) -> bool {
    &&& inputs.len() == reports.len()
    &&& forall|k: int|
        0 <= k < inputs.len() ==> (#[trigger] inputs[k]).item == reports[k].item@ && inputs[k].now_ms
            == reports[k].now_ms
}

/// The snapshots that the steps `inputs` answer with, in order.
pub open spec fn sent(start: ScannerModel, inputs: Seq<StepInput>) -> Seq<ProgressModel>
    decreases inputs.len(),
{
    if inputs.len() == 0 {
        Seq::empty()
    } else {
        let before = sent(start, inputs.drop_last());
        match snapshot_in(run(start, inputs.drop_last()).answer(inputs.last())) {
            Some(p) => before.push(p),
            None => before,
        }
    }
}

/// The models of a sequence of snapshots, in the same order.
pub open spec fn progress_models(snapshots: Seq<ScanProgress>) -> Seq<ProgressModel> {
    snapshots.map_values(|p: ScanProgress| p@)
}

/// Of any two of `snapshots`, the later one reports at least as many
/// files, directories and bytes as the earlier one.
pub open spec fn never_decreasing(snapshots: Seq<ProgressModel>) -> bool {
    forall|i: int, j: int|
        0 <= i <= j < snapshots.len() ==> {
            &&& (#[trigger] snapshots[i]).files_scanned <= (#[trigger] snapshots[j]).files_scanned
            &&& snapshots[i].directories_scanned <= snapshots[j].directories_scanned
            &&& snapshots[i].bytes_scanned <= snapshots[j].bytes_scanned
        }
}

/// The state before the last step of a walk with totals in range has its
/// totals in range too.
proof fn lemma_bounded_before(start: ScannerModel, inputs: Seq<StepInput>)
    requires
        inputs.len() > 0,
        run(start, inputs).bounded(),
    ensures
        run(start, inputs.drop_last()).bounded(),
        run(start, inputs.drop_last()).files() <= run(start, inputs).files(),
        run(start, inputs.drop_last()).directories() <= run(start, inputs).directories(),
        run(start, inputs.drop_last()).bytes() <= run(start, inputs).bytes(),
{
    let before = run(start, inputs.drop_last());
    let after = run(start, inputs);
    lemma_step_keeps(before, inputs.last());
    lemma_counts_grow(before.entries, after.entries);
    assert forall|i: int| 0 <= i < before.entries.len() implies !(
    #[trigger] before.entries[i].is_file && before.entries[i].is_directory) by {
        assert(before.entries[i] == after.entries[i]);
    }
    lemma_counts_disjoint(before.entries);
}

/// The snapshots that a walk sends never go back, in the order in which
/// they are sent, and none reports more than the walk has gathered in the
/// end. The premise is met by the state of every well-formed scanner, as
/// [`DirectoryScanner::totals_fit`] shows.
pub proof fn sent_never_decreases(start: ScannerModel, inputs: Seq<StepInput>)
    requires
        run(start, inputs).bounded(),
    ensures
        never_decreasing(sent(start, inputs)),
        forall|i: int|
            0 <= i < sent(start, inputs).len() ==> {
                &&& (#[trigger] sent(start, inputs)[i]).files_scanned <= run(start, inputs).files()
                &&& sent(start, inputs)[i].directories_scanned <= run(start, inputs).directories()
                &&& sent(start, inputs)[i].bytes_scanned <= run(start, inputs).bytes()
            },
    decreases inputs.len(),
{
    if inputs.len() > 0 {
        let shorter = inputs.drop_last();
        let before = run(start, shorter);
        let after = run(start, inputs);
        let earlier = sent(start, shorter);
        lemma_bounded_before(start, inputs);
        sent_never_decreases(start, shorter);
        lemma_step_keeps(before, inputs.last());
        match snapshot_in(before.answer(inputs.last())) {
            Some(p) => {
                let all = earlier.push(p);
                assert(before.files() <= p.files_scanned <= after.files());
                assert(before.directories() <= p.directories_scanned <= after.directories());
                assert(before.bytes() <= p.bytes_scanned <= after.bytes());
                assert forall|i: int, j: int| 0 <= i <= j < all.len() implies {
                    &&& (#[trigger] all[i]).files_scanned <= (#[trigger] all[j]).files_scanned
                    &&& all[i].directories_scanned <= all[j].directories_scanned
                    &&& all[i].bytes_scanned <= all[j].bytes_scanned
                } by {
                    if i < earlier.len() {
                        assert(all[i] == earlier[i]);
                    }
                    if j < earlier.len() {
                        assert(all[j] == earlier[j]);
                    }
                }
                assert forall|i: int| 0 <= i < all.len() implies {
                    &&& (#[trigger] all[i]).files_scanned <= after.files()
                    &&& all[i].directories_scanned <= after.directories()
                    &&& all[i].bytes_scanned <= after.bytes()
                } by {
                    if i < earlier.len() {
                        assert(all[i] == earlier[i]);
                    }
                }
            },
            None => {},
        }
    }
}

/// Two states of which one has gone through the same reports as the
/// other: they agree in what decides the next verdict, and in the bytes
/// counted.
spec fn alike(a: ScannerModel, q: ScannerModel) -> bool {
    &&& a.config == q.config
    &&& a.status == q.status
    &&& a.pruned == q.pruned
    &&& a.bytes() == q.bytes()
}

/// A walk that is still running after a step is like the walk that took
/// the same report without a request for cancellation.
proof fn lemma_alike_step(a: ScannerModel, q: ScannerModel, x: StepInput, y: StepInput)
    requires
        alike(a, q),
        x.item == y.item,
        !y.cancelled,
    ensures
        a.step(x).status is Scanning ==> alike(a.step(x), q.step(y)),
        a.verdict(false, x.item) is Admit && x.item->Node_0.kind is File ==> q.step(y).bytes()
            == a.bytes() + x.item->Node_0.size(),
{
    if a.verdict(false, x.item) is Admit {
        lemma_counts_push(a.entries, x.item->Node_0.entry(x.entry_id));
        lemma_counts_push(q.entries, y.item->Node_0.entry(y.entry_id));
    }
}

/// Takes a scanner through `reports`, in order, as
/// [`DirectoryScanner::visit`] takes it through one, and returns the
/// snapshots that are to be sent, in order. Reports that come after the
/// walk has stopped change nothing. The bytes of the files that the walk
/// admits if it is not cancelled must stay in the range of `u64`.
///
/// Panics if the operating system fails to give random numbers for the
/// identifiers of the entries.
pub fn replay(scanner: &mut DirectoryScanner, reports: Vec<Report>) -> (snapshots: Vec<
    ScanProgress,
>)
    requires
        old(scanner).wf(),
        run(old(scanner)@, uncancelled(reports@)).bytes() <= u64::MAX,
    ensures
        final(scanner).wf(),
        final(scanner).session_model() == old(scanner).session_model(),
        exists|inputs: Seq<StepInput>|
            {
                &&& follows(inputs, reports@)
                &&& final(scanner)@ == #[trigger] run(old(scanner)@, inputs)
                &&& progress_models(snapshots@) == sent(old(scanner)@, inputs)
            },
        never_decreasing(progress_models(snapshots@)),
{
    let ghost start = scanner@;
    let ghost all = reports@;
    let ghost quiet = uncancelled(all);
    let ghost mut inputs: Seq<StepInput> = Seq::empty();
    let mut snapshots: Vec<ScanProgress> = Vec::new();
    let mut pending = reports;
    let mut queue: Vec<Report> = Vec::new();
    while pending.len() > 0
        invariant
            pending@.len() + queue@.len() == all.len(),
            forall|k: int| 0 <= k < pending@.len() ==> pending@[k] == all[k],
            forall|k: int|
                0 <= k < queue@.len() ==> queue@[k] == all[all.len() - 1 - k],
        decreases pending@.len(),
    {
        let report = pending.pop().unwrap();
        queue.push(report);
    }
    proof {
        assert(progress_models(snapshots@) =~= sent(start, inputs));
        lemma_states_ordered(start, quiet, 0, 0);
    }
    while queue.len() > 0
        invariant
            scanner.wf(),
            scanner.session_model() == old(scanner).session_model(),
            start == old(scanner)@,
            quiet == uncancelled(all),
            run(start, quiet).bytes() <= u64::MAX,
            queue@.len() <= all.len(),
            inputs.len() == all.len() - queue@.len(),
            forall|k: int|
                0 <= k < queue@.len() ==> queue@[k] == all[all.len() - 1 - k],
            follows(inputs, all.take(inputs.len() as int)),
            scanner@ == run(start, inputs),
            alike(scanner@, state_before(start, quiet, inputs.len() as int)) || !(scanner@.status
                is Scanning),
            progress_models(snapshots@) == sent(start, inputs),
        decreases queue@.len(),
    {
        let ghost i = inputs.len() as int;
        let ghost before = scanner@;
        let ghost twin = state_before(start, quiet, i);
        let ghost sent_before = progress_models(snapshots@);
        let report = queue.pop().unwrap();
        assert(report == all[i]);
        proof {
            assert(quiet[i].item == report.item@);
            lemma_state_advances(start, quiet, i);
            lemma_states_ordered(start, quiet, i + 1, quiet.len() as int);
            lemma_counts_grow(
                state_before(start, quiet, i + 1).entries,
                state_before(start, quiet, quiet.len() as int).entries,
            );
            if before.status is Scanning {
                lemma_alike_step(before, twin, quiet[i], quiet[i]);
            }
        }
        let step = scanner.visit(report.item, report.now_ms);
        let ghost input = choose|input: StepInput|
            {
                &&& input.item == report.item@
                &&& input.now_ms == report.now_ms
                &&& scanner@ == #[trigger] before.step(input)
                &&& step@ == before.answer(input)
            };
        proof {
            if before.status is Scanning {
                lemma_alike_step(before, twin, input, quiet[i]);
            }
            let longer = inputs.push(input);
            assert(longer.drop_last() =~= inputs);
            assert(longer.last() == input);
            assert forall|k: int| 0 <= k < longer.len() implies (#[trigger] longer[k]).item
                == all.take(i + 1)[k].item@ && longer[k].now_ms == all.take(i + 1)[k].now_ms by {
                if k < i {
                    assert(longer[k] == inputs[k]);
                    assert(all.take(i)[k] == all[k]);
                }
            }
            inputs = longer;
        }
        match step {
            ScanStep::Progress(p) => {
                snapshots.push(p);
                assert(progress_models(snapshots@) =~= sent_before.push(p@));
            },
            ScanStep::Cancelled(p) => {
                snapshots.push(p);
                assert(progress_models(snapshots@) =~= sent_before.push(p@));
            },
            _ => {},
        }
    }
    proof {
        assert(all.take(inputs.len() as int) =~= all);
        scanner.totals_fit();
        sent_never_decreases(start, inputs);
    }
    snapshots
}

} // verus!
