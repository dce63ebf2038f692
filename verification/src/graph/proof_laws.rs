//! Which proofs an analysis plans and what becomes of their answers, over the
//! members and branches themselves.

use vstd::prelude::*;
use crate::error::AppErrorView;
use crate::graph;
use crate::graph::analyze;
use crate::graph::analyze::CompatibilityChecker;
use crate::graph::laws;
use crate::graph::rows;
use crate::graph::tasks;
use crate::graph::tasks::TaskView;
use crate::graph::{BoundedGraphAnalysisView, GraphAnalysisView};
use crate::model;
use crate::model::{
    BranchSnapshotView, CaravanView, CompatibilityOutcome, CompatibilityReportView,
    CumulativeTreeProofView, GraphProblemKind, GraphProblemView, HeadMergeActor, PrNumber,
    PullRequestSnapshotView, RepositorySnapshotView,
};

verus! {

// ---------------------------------------------------------------------------
// Planned proofs
// ---------------------------------------------------------------------------

/// Whether a branch is the head of a pull request.
pub open spec fn is_head(
    rows: Seq<PullRequestSnapshotView>,
    number: PrNumber,
    branch: BranchSnapshotView,
) -> bool {
    exists|r: int|
        0 <= r < rows.len() && (#[trigger] rows[r]).number == number && rows[r].head == branch
}

/// Whether a proof asks whether the head of one member merges into the head of
/// another, for these pull requests.
pub open spec fn asks_members(
    task: TaskView,
    rows: Seq<PullRequestSnapshotView>,
    candidate: PrNumber,
    target: PrNumber,
    prs: Seq<PrNumber>,
) -> bool {
    &&& task is Fleet
    &&& is_head(rows, candidate, task->Fleet_candidate)
    &&& is_head(rows, target, task->Fleet_target)
    &&& task->Fleet_prs == prs
}

/// Whether a proof asks whether the head of a member merges into a branch.
pub open spec fn asks_branch(
    task: TaskView,
    rows: Seq<PullRequestSnapshotView>,
    candidate: PrNumber,
    target: BranchSnapshotView,
) -> bool {
    &&& task is Fleet
    &&& is_head(rows, candidate, task->Fleet_candidate)
    &&& task->Fleet_target == target
    &&& task->Fleet_prs == seq![candidate]
}

/// Whether a proof asks for the tree of landing a member on a branch.
pub open spec fn asks_tree(
    task: TaskView,
    rows: Seq<PullRequestSnapshotView>,
    candidate: PrNumber,
    target: BranchSnapshotView,
) -> bool {
    &&& task is CumulativeTree
    &&& is_head(rows, candidate, task->CumulativeTree_candidate)
    &&& task->CumulativeTree_target == target
}

proof fn lemma_head(rows: Seq<PullRequestSnapshotView>, number: PrNumber)
    requires
        rows::row_of(rows, number) is Some,
    ensures
        is_head(rows, number, tasks::head_of(rows, number)),
{
    rows::lemma_row_of(rows, number);
    let pr = rows::row_of(rows, number)->0;
    let r = choose|r: int| 0 <= r < rows.len() && rows[r] == pr;
    assert(rows[r].number == number);
}

/// Whether no two caravans share a member.
spec fn apart(caravans: Seq<CaravanView>) -> bool {
    forall|i: int, j: int, x: PrNumber|
        0 <= i < caravans.len() && 0 <= j < caravans.len() && #[trigger] caravans[i].members.contains(
            x,
        ) && #[trigger] caravans[j].members.contains(x) ==> i == j
}

spec fn cross_of(
    rows: Seq<PullRequestSnapshotView>,
    caravans: Seq<CaravanView>,
    i: int,
    j: int,
) -> TaskView {
    tasks::cross_task(rows, caravans[i].members[0], caravans[j].members.last())
}

proof fn lemma_ends_differ(caravans: Seq<CaravanView>, i: int, j: int)
    requires
        apart(caravans),
        0 <= i < caravans.len(),
        0 <= j < caravans.len(),
        i != j,
        caravans[i].members.len() > 0,
        caravans[j].members.len() > 0,
    ensures
        caravans[i].members[0] != caravans[j].members[0],
        caravans[i].members.last() != caravans[j].members.last(),
        caravans[i].members[0] != caravans[j].members.last(),
{
    let a = caravans[i].members;
    let b = caravans[j].members;
    assert(a.contains(a[0]));
    assert(a.contains(a[a.len() - 1]));
    assert(b.contains(b[0]));
    assert(b.contains(b[b.len() - 1]));
}

/// Whether a proof compares a caravan with one of the first caravans.
spec fn from_one(
    rows: Seq<PullRequestSnapshotView>,
    caravans: Seq<CaravanView>,
    i: int,
    k: int,
    task: TaskView,
) -> bool {
    exists|j: int|
        0 <= j < k && #[trigger] tasks::compared(caravans, i, j) && task == cross_of(
            rows,
            caravans,
            i,
            j,
        )
}

/// Whether a proof compares one of the first caravans with another.
spec fn from_pair(
    rows: Seq<PullRequestSnapshotView>,
    caravans: Seq<CaravanView>,
    k: int,
    task: TaskView,
) -> bool {
    exists|i: int|
        0 <= i < k && #[trigger] from_one(rows, caravans, i, caravans.len() as int, task)
}

proof fn lemma_cross_of(
    rows: Seq<PullRequestSnapshotView>,
    caravans: Seq<CaravanView>,
    i: int,
    k: nat,
)
    requires
        0 <= i < caravans.len(),
        k <= caravans.len(),
        apart(caravans),
    ensures
        ({
            let list = tasks::cross_tasks_of(rows, caravans, i, k);
            &&& forall|j: int|
                0 <= j < k && #[trigger] tasks::compared(caravans, i, j) ==> list.contains(
                    cross_of(rows, caravans, i, j),
                )
            &&& forall|t: int|
                0 <= t < list.len() ==> from_one(rows, caravans, i, k as int, #[trigger] list[t])
            &&& forall|s: int, t: int|
                0 <= s < t < list.len() ==> (#[trigger] list[s])->Fleet_prs != (
                #[trigger] list[t])->Fleet_prs
        }),
    decreases k,
{
    if k > 0 {
        let before = tasks::cross_tasks_of(rows, caravans, i, (k - 1) as nat);
        let list = tasks::cross_tasks_of(rows, caravans, i, k);
        lemma_cross_of(rows, caravans, i, (k - 1) as nat);
        assert forall|t: int| 0 <= t < before.len() implies from_one(
            rows,
            caravans,
            i,
            k as int,
            #[trigger] before[t],
        ) by {
            let j = choose|j: int|
                0 <= j < k - 1 && #[trigger] tasks::compared(caravans, i, j) && before[t]
                    == cross_of(rows, caravans, i, j);
            assert(tasks::compared(caravans, i, j));
        }
        if tasks::compared(caravans, i, k - 1) {
            let added = cross_of(rows, caravans, i, k - 1);
            assert(list == before.push(added));
            assert(list[list.len() - 1] == added);
            assert(from_one(rows, caravans, i, k as int, added));
            assert forall|j: int|
                0 <= j < k && #[trigger] tasks::compared(caravans, i, j) implies list.contains(
                cross_of(rows, caravans, i, j),
            ) by {
                if j < k - 1 {
                    let t = choose|t: int|
                        0 <= t < before.len() && before[t] == cross_of(rows, caravans, i, j);
                    assert(list[t] == before[t]);
                }
            }
            assert forall|t: int| 0 <= t < list.len() implies from_one(
                rows,
                caravans,
                i,
                k as int,
                #[trigger] list[t],
            ) by {
                if t < before.len() {
                    assert(list[t] == before[t]);
                }
            }
            assert forall|s: int, t: int| 0 <= s < t < list.len() implies (
            #[trigger] list[s])->Fleet_prs != (#[trigger] list[t])->Fleet_prs by {
                assert(list[s] == before[s]);
                if t < before.len() {
                    assert(list[t] == before[t]);
                } else {
                    let j = choose|j: int|
                        0 <= j < k - 1 && #[trigger] tasks::compared(caravans, i, j) && before[s]
                            == cross_of(rows, caravans, i, j);
                    lemma_ends_differ(caravans, j, k - 1);
                    assert(list[s]->Fleet_prs[1] == caravans[j].members.last());
                    assert(list[t]->Fleet_prs[1] == caravans[k - 1].members.last());
                }
            }
        }
    }
}

proof fn lemma_front(
    rows: Seq<PullRequestSnapshotView>,
    caravans: Seq<CaravanView>,
    i: int,
    task: TaskView,
)
    requires
        0 <= i < caravans.len(),
        from_one(rows, caravans, i, caravans.len() as int, task),
    ensures
        task is Fleet,
        task->Fleet_prs.len() == 2,
        task->Fleet_prs[0] == caravans[i].members[0],
        caravans[i].members.len() > 0,
{
}

proof fn lemma_cross(rows: Seq<PullRequestSnapshotView>, caravans: Seq<CaravanView>, k: nat)
    requires
        k <= caravans.len(),
        apart(caravans),
    ensures
        ({
            let list = tasks::cross_tasks(rows, caravans, k);
            &&& forall|i: int, j: int|
                0 <= i < k && 0 <= j < caravans.len() && #[trigger] tasks::compared(caravans, i, j)
                    ==> list.contains(cross_of(rows, caravans, i, j))
            &&& forall|t: int|
                0 <= t < list.len() ==> from_pair(rows, caravans, k as int, #[trigger] list[t])
            &&& forall|s: int, t: int|
                0 <= s < t < list.len() ==> (#[trigger] list[s])->Fleet_prs != (
                #[trigger] list[t])->Fleet_prs
        }),
    decreases k,
{
    if k > 0 {
        let before = tasks::cross_tasks(rows, caravans, (k - 1) as nat);
        let more = tasks::cross_tasks_of(rows, caravans, k - 1, caravans.len());
        let list = tasks::cross_tasks(rows, caravans, k);
        lemma_cross(rows, caravans, (k - 1) as nat);
        lemma_cross_of(rows, caravans, k - 1, caravans.len());
        assert(list == before + more);
        assert forall|i: int, j: int|
            0 <= i < k && 0 <= j < caravans.len() && #[trigger] tasks::compared(
                caravans,
                i,
                j,
            ) implies list.contains(cross_of(rows, caravans, i, j)) by {
            let task = cross_of(rows, caravans, i, j);
            if i < k - 1 {
                let t = choose|t: int| 0 <= t < before.len() && before[t] == task;
                assert(list[t] == task);
            } else {
                let t = choose|t: int| 0 <= t < more.len() && more[t] == task;
                assert(list[before.len() + t] == task);
            }
        }
        assert forall|t: int| 0 <= t < list.len() implies from_pair(
            rows,
            caravans,
            k as int,
            #[trigger] list[t],
        ) by {
            if t < before.len() {
                assert(list[t] == before[t]);
                assert(from_pair(rows, caravans, k - 1, before[t]));
                let i = choose|i: int|
                    0 <= i < k - 1 && #[trigger] from_one(
                        rows,
                        caravans,
                        i,
                        caravans.len() as int,
                        before[t],
                    );
                assert(from_one(rows, caravans, i, caravans.len() as int, list[t]));
            } else {
                assert(list[t] == more[t - before.len()]);
                assert(from_one(rows, caravans, k - 1, caravans.len() as int, list[t]));
            }
        }
        assert forall|s: int, t: int| 0 <= s < t < list.len() implies (
        #[trigger] list[s])->Fleet_prs != (#[trigger] list[t])->Fleet_prs by {
            if t < before.len() {
                assert(list[s] == before[s] && list[t] == before[t]);
            } else if s >= before.len() {
                assert(list[s] == more[s - before.len()] && list[t] == more[t - before.len()]);
            } else {
                assert(list[s] == before[s] && list[t] == more[t - before.len()]);
                assert(from_pair(rows, caravans, k - 1, before[s]));
                let i = choose|i: int|
                    0 <= i < k - 1 && #[trigger] from_one(
                        rows,
                        caravans,
                        i,
                        caravans.len() as int,
                        before[s],
                    );
                assert(from_one(
                    rows,
                    caravans,
                    k - 1,
                    caravans.len() as int,
                    more[t - before.len()],
                ));
                lemma_front(rows, caravans, i, before[s]);
                lemma_front(rows, caravans, k - 1, more[t - before.len()]);
                lemma_ends_differ(caravans, i, k - 1);
            }
        }
    }
}

proof fn lemma_adjacent(rows: Seq<PullRequestSnapshotView>, members: Seq<PrNumber>, k: nat)
    ensures
        tasks::adjacent_tasks(rows, members, k).len() == k,
        forall|j: int|
            0 <= j < k ==> (#[trigger] tasks::adjacent_tasks(rows, members, k)[j])
                == tasks::adjacent_task(rows, members[j], members[j + 1]),
    decreases k,
{
    if k > 0 {
        lemma_adjacent(rows, members, (k - 1) as nat);
    }
}

proof fn lemma_chain(
    rows: Seq<PullRequestSnapshotView>,
    tip: BranchSnapshotView,
    caravans: Seq<CaravanView>,
)
    ensures
        ({
            let list = tasks::chain_tasks(rows, tip, caravans);
            &&& forall|i: int, t: int|
                0 <= i < caravans.len() && 0 <= t < tasks::caravan_tasks(
                    rows,
                    tip,
                    #[trigger] caravans[i],
                ).len() ==> list.contains(
                    #[trigger] tasks::caravan_tasks(rows, tip, caravans[i])[t],
                )
            &&& forall|t: int|
                0 <= t < list.len() ==> exists|i: int|
                    0 <= i < caravans.len() && tasks::caravan_tasks(
                        rows,
                        tip,
                        #[trigger] caravans[i],
                    ).contains(#[trigger] list[t])
        }),
    decreases caravans.len(),
{
    if caravans.len() > 0 {
        let rest = caravans.drop_last();
        let before = tasks::chain_tasks(rows, tip, rest);
        let more = tasks::caravan_tasks(rows, tip, caravans.last());
        let list = tasks::chain_tasks(rows, tip, caravans);
        lemma_chain(rows, tip, rest);
        assert(list == before + more);
        assert(caravans[caravans.len() - 1] == caravans.last());
        assert forall|i: int, t: int|
            0 <= i < caravans.len() && 0 <= t < tasks::caravan_tasks(
                rows,
                tip,
                #[trigger] caravans[i],
            ).len() implies list.contains(
            #[trigger] tasks::caravan_tasks(rows, tip, caravans[i])[t],
        ) by {
            let task = tasks::caravan_tasks(rows, tip, caravans[i])[t];
            if i < rest.len() {
                assert(rest[i] == caravans[i]);
                assert(before.contains(tasks::caravan_tasks(rows, tip, rest[i])[t]));
                let s = choose|s: int| 0 <= s < before.len() && before[s] == task;
                assert(list[s] == task);
            } else {
                assert(list[before.len() + t] == task);
            }
        }
        assert forall|t: int| 0 <= t < list.len() implies exists|i: int|
            0 <= i < caravans.len() && tasks::caravan_tasks(
                rows,
                tip,
                #[trigger] caravans[i],
            ).contains(#[trigger] list[t]) by {
            if t < before.len() {
                assert(list[t] == before[t]);
                let i = choose|i: int|
                    0 <= i < rest.len() && tasks::caravan_tasks(
                        rows,
                        tip,
                        #[trigger] rest[i],
                    ).contains(before[t]);
                assert(rest[i] == caravans[i]);
            } else {
                assert(list[t] == more[t - before.len()]);
                assert(more.contains(list[t]));
                assert(tasks::caravan_tasks(rows, tip, caravans[caravans.len() - 1]).contains(
                    list[t],
                ));
            }
        }
    }
}

proof fn lemma_derived_is_apart(snapshot: RepositorySnapshotView)
    ensures
        apart(graph::caravans_of(snapshot)),
        forall|i: int|
            0 <= i < graph::caravans_of(snapshot).len() ==> (
            #[trigger] graph::caravans_of(snapshot)[i]).members.len() > 0,
{
    laws::lemma_caravans_partition(snapshot);
}

/// The proofs that an analysis plans for a snapshot.
pub open spec fn planned(snapshot: RepositorySnapshotView, actor: HeadMergeActor) -> Seq<TaskView> {
    tasks::planned_tasks(graph::derived(snapshot, actor), snapshot.default_branch)
}

proof fn lemma_part(snapshot: RepositorySnapshotView, actor: HeadMergeActor, task: TaskView)
    requires
        ({
            let start = graph::derived(snapshot, actor);
            let rows = start.pull_requests;
            let caravans = start.fleet.caravans;
            tasks::chain_tasks(rows, snapshot.default_branch, caravans).contains(task)
                || tasks::cross_tasks(rows, caravans, caravans.len()).contains(task)
                || tasks::scan_candidates(
                rows,
                snapshot.default_branch,
                start.fleet.unqueued,
            ).tasks.contains(task)
        }),
    ensures
        planned(snapshot, actor).contains(task),
{
    let start = graph::derived(snapshot, actor);
    let rows = start.pull_requests;
    let caravans = start.fleet.caravans;
    let a = tasks::chain_tasks(rows, snapshot.default_branch, caravans);
    let b = tasks::cross_tasks(rows, caravans, caravans.len());
    let c = tasks::scan_candidates(rows, snapshot.default_branch, start.fleet.unqueued).tasks;
    let all = planned(snapshot, actor);
    assert(all == a + b + c);
    if a.contains(task) {
        let t = choose|t: int| 0 <= t < a.len() && a[t] == task;
        assert(all[t] == task);
    } else if b.contains(task) {
        let t = choose|t: int| 0 <= t < b.len() && b[t] == task;
        assert(all[a.len() + t] == task);
    } else {
        let t = choose|t: int| 0 <= t < c.len() && c[t] == task;
        assert(all[a.len() + b.len() + t] == task);
    }
}

/// Every caravan, parked or not, is proved on its own: its first member against
/// the default branch, with the tree of landing it, and each other member against
/// the member before it.
pub proof fn lemma_caravan_is_proved(snapshot: RepositorySnapshotView, actor: HeadMergeActor, i: int)
    requires
        0 <= i < graph::derived(snapshot, actor).fleet.caravans.len(),
    ensures
        ({
            let start = graph::derived(snapshot, actor);
            let rows = start.pull_requests;
            let members = start.fleet.caravans[i].members;
            &&& members.len() > 0
            &&& exists|t: int|
                0 <= t < planned(snapshot, actor).len() && asks_branch(
                    #[trigger] planned(snapshot, actor)[t],
                    rows,
                    members[0],
                    snapshot.default_branch,
                )
            &&& exists|t: int|
                0 <= t < planned(snapshot, actor).len() && asks_tree(
                    #[trigger] planned(snapshot, actor)[t],
                    rows,
                    members[0],
                    snapshot.default_branch,
                )
            &&& forall|j: int|
                1 <= j < members.len() ==> exists|t: int|
                    0 <= t < planned(snapshot, actor).len() && asks_members(
                        #[trigger] planned(snapshot, actor)[t],
                        rows,
                        #[trigger] members[j],
                        members[j - 1],
                        seq![members[j - 1], members[j]],
                    )
        }),
{
    let start = graph::derived(snapshot, actor);
    let rows = start.pull_requests;
    let caravans = start.fleet.caravans;
    let tip = snapshot.default_branch;
    let members = caravans[i].members;
    let all = planned(snapshot, actor);
    lemma_derived_is_apart(snapshot);
    laws::lemma_members_have_rows(snapshot);
    lemma_chain(rows, tip, caravans);
    let own = tasks::caravan_tasks(rows, tip, caravans[i]);
    lemma_adjacent(rows, members, (members.len() - 1) as nat);
    assert(rows::row_of(rows, caravans[i].members[0]) is Some);
    lemma_head(rows, members[0]);
    assert(tasks::chain_tasks(rows, tip, caravans).contains(own[0]));
    lemma_part(snapshot, actor, own[0]);
    let t = choose|t: int| 0 <= t < all.len() && all[t] == own[0];
    assert(asks_branch(all[t], rows, members[0], tip));
    assert(tasks::chain_tasks(rows, tip, caravans).contains(own[1]));
    lemma_part(snapshot, actor, own[1]);
    let u = choose|u: int| 0 <= u < all.len() && all[u] == own[1];
    assert(asks_tree(all[u], rows, members[0], tip));
    assert forall|j: int| 1 <= j < members.len() implies exists|t: int|
        0 <= t < all.len() && asks_members(
            #[trigger] all[t],
            rows,
            #[trigger] members[j],
            members[j - 1],
            seq![members[j - 1], members[j]],
        ) by {
        let task = tasks::adjacent_tasks(rows, members, (members.len() - 1) as nat)[j - 1];
        assert(own[j + 1] == task);
        assert(tasks::chain_tasks(rows, tip, caravans).contains(own[j + 1]));
        lemma_part(snapshot, actor, task);
        assert(rows::row_of(rows, caravans[i].members[j]) is Some);
        assert(rows::row_of(rows, caravans[i].members[j - 1]) is Some);
        lemma_head(rows, members[j]);
        lemma_head(rows, members[j - 1]);
        let t = choose|t: int| 0 <= t < all.len() && all[t] == task;
        assert(asks_members(
            all[t],
            rows,
            members[j],
            members[j - 1],
            seq![members[j - 1], members[j]],
        ));
    }
}

/// For every two caravans of which neither is parked, exactly one proof asks
/// whether the first can follow the second: whether the head of the first member
/// of the one merges into the head of the last member of the other.
pub proof fn lemma_caravans_are_compared(
    snapshot: RepositorySnapshotView,
    actor: HeadMergeActor,
    a: int,
    b: int,
)
    requires
        0 <= a < graph::derived(snapshot, actor).fleet.caravans.len(),
        0 <= b < graph::derived(snapshot, actor).fleet.caravans.len(),
        a != b,
        !graph::derived(snapshot, actor).fleet.caravans[a].parked,
        !graph::derived(snapshot, actor).fleet.caravans[b].parked,
    ensures
        ({
            let start = graph::derived(snapshot, actor);
            let rows = start.pull_requests;
            let front = start.fleet.caravans[a].members[0];
            let others = start.fleet.caravans[b].members;
            let back = others[others.len() - 1];
            &&& exists|t: int|
                0 <= t < planned(snapshot, actor).len() && asks_members(
                    #[trigger] planned(snapshot, actor)[t],
                    rows,
                    front,
                    back,
                    seq![front, back],
                )
            &&& forall|s: int, t: int|
                0 <= s < planned(snapshot, actor).len() && 0 <= t < planned(snapshot, actor).len()
                    && (#[trigger] planned(snapshot, actor)[s]) is Fleet && (
                #[trigger] planned(snapshot, actor)[t]) is Fleet && planned(
                    snapshot,
                    actor,
                )[s]->Fleet_prs == seq![front, back] && planned(snapshot, actor)[t]->Fleet_prs
                    == seq![front, back] ==> s == t
        }),
{
    let start = graph::derived(snapshot, actor);
    let rows = start.pull_requests;
    let caravans = start.fleet.caravans;
    let tip = snapshot.default_branch;
    let all = planned(snapshot, actor);
    lemma_derived_is_apart(snapshot);
    laws::lemma_members_have_rows(snapshot);
    let front = caravans[a].members[0];
    let others = caravans[b].members;
    let back = others[others.len() - 1];
    let chain = tasks::chain_tasks(rows, tip, caravans);
    let cross = tasks::cross_tasks(rows, caravans, caravans.len());
    let scan = tasks::scan_candidates(rows, tip, start.fleet.unqueued).tasks;
    lemma_cross(rows, caravans, caravans.len());
    lemma_chain(rows, tip, caravans);
    lemma_scan(rows, tip, start.fleet.unqueued);
    assert(tasks::compared(caravans, a, b));
    let task = cross_of(rows, caravans, a, b);
    assert(cross.contains(task));
    lemma_part(snapshot, actor, task);
    assert(rows::row_of(rows, caravans[a].members[0]) is Some);
    assert(rows::row_of(rows, caravans[b].members[others.len() - 1]) is Some);
    lemma_head(rows, front);
    lemma_head(rows, back);
    let found = choose|t: int| 0 <= t < all.len() && all[t] == task;
    assert(asks_members(all[found], rows, front, back, seq![front, back]));
    assert(all == chain + cross + scan);
    assert forall|t: int|
        0 <= t < all.len() && (#[trigger] all[t]) is Fleet && all[t]->Fleet_prs == seq![
            front,
            back,
        ] implies chain.len() <= t < chain.len() + cross.len() by {
        if t < chain.len() {
            assert(all[t] == chain[t]);
            let i = choose|i: int|
                0 <= i < caravans.len() && tasks::caravan_tasks(
                    rows,
                    tip,
                    #[trigger] caravans[i],
                ).contains(chain[t]);
            let own = tasks::caravan_tasks(rows, tip, caravans[i]);
            let members = caravans[i].members;
            let k = choose|k: int| 0 <= k < own.len() && own[k] == chain[t];
            lemma_adjacent(rows, members, (members.len() - 1) as nat);
            if k == 0 {
                assert(own[0]->Fleet_prs.len() == 1);
            } else if k >= 2 {
                assert(own[k] == tasks::adjacent_task(rows, members[k - 2], members[k - 1]));
                assert(own[k]->Fleet_prs[0] == members[k - 2]);
                assert(own[k]->Fleet_prs[1] == members[k - 1]);
                assert(members.contains(members[k - 2]));
                assert(members.contains(members[k - 1]));
                assert(caravans[a].members.contains(front));
                assert(caravans[b].members.contains(back));
                assert(i == a && i == b);
            }
        } else if t >= chain.len() + cross.len() {
            assert(all[t] == scan[t - chain.len() - cross.len()]);
        }
    }
    assert forall|s: int, t: int|
        0 <= s < all.len() && 0 <= t < all.len() && (#[trigger] all[s]) is Fleet && (
        #[trigger] all[t]) is Fleet && all[s]->Fleet_prs == seq![front, back] && all[t]->Fleet_prs
            == seq![front, back] implies s == t by {
        assert(all[s] == cross[s - chain.len()]);
        assert(all[t] == cross[t - chain.len()]);
        if s < t {
            assert(cross[s - chain.len()]->Fleet_prs != cross[t - chain.len()]->Fleet_prs);
        } else if t < s {
            assert(cross[t - chain.len()]->Fleet_prs != cross[s - chain.len()]->Fleet_prs);
        }
    }
}

/// Nothing else is proved of members: each proof is that of a first member
/// against the default branch, of a member against the one before it, or of the
/// first member of one caravan against the last of another, neither parked.
pub proof fn lemma_nothing_else_is_proved(
    snapshot: RepositorySnapshotView,
    actor: HeadMergeActor,
    t: int,
)
    requires
        0 <= t < planned(snapshot, actor).len(),
        planned(snapshot, actor)[t] is Fleet,
    ensures
        ({
            let start = graph::derived(snapshot, actor);
            let rows = start.pull_requests;
            let caravans = start.fleet.caravans;
            let task = planned(snapshot, actor)[t];
            ||| exists|i: int|
                0 <= i < caravans.len() && asks_branch(
                    task,
                    rows,
                    (#[trigger] caravans[i]).members[0],
                    snapshot.default_branch,
                )
            ||| exists|i: int, j: int|
                0 <= i < caravans.len() && 1 <= j < caravans[i].members.len() && asks_members(
                    task,
                    rows,
                    #[trigger] caravans[i].members[j],
                    caravans[i].members[j - 1],
                    seq![caravans[i].members[j - 1], caravans[i].members[j]],
                )
            ||| exists|i: int, j: int|
                0 <= i < caravans.len() && 0 <= j < caravans.len() && i != j && !(
                #[trigger] caravans[i]).parked && !(#[trigger] caravans[j]).parked && asks_members(
                    task,
                    rows,
                    caravans[i].members[0],
                    caravans[j].members[caravans[j].members.len() - 1],
                    seq![
                        caravans[i].members[0],
                        caravans[j].members[caravans[j].members.len() - 1],
                    ],
                )
        }),
{
    let start = graph::derived(snapshot, actor);
    let rows = start.pull_requests;
    let caravans = start.fleet.caravans;
    let tip = snapshot.default_branch;
    let all = planned(snapshot, actor);
    lemma_derived_is_apart(snapshot);
    laws::lemma_members_have_rows(snapshot);
    let chain = tasks::chain_tasks(rows, tip, caravans);
    let cross = tasks::cross_tasks(rows, caravans, caravans.len());
    let scan = tasks::scan_candidates(rows, tip, start.fleet.unqueued).tasks;
    lemma_cross(rows, caravans, caravans.len());
    lemma_chain(rows, tip, caravans);
    lemma_scan(rows, tip, start.fleet.unqueued);
    assert(all == chain + cross + scan);
    if t < chain.len() {
        assert(all[t] == chain[t]);
        let i = choose|i: int|
            0 <= i < caravans.len() && tasks::caravan_tasks(
                rows,
                tip,
                #[trigger] caravans[i],
            ).contains(chain[t]);
        let own = tasks::caravan_tasks(rows, tip, caravans[i]);
        let members = caravans[i].members;
        let k = choose|k: int| 0 <= k < own.len() && own[k] == chain[t];
        lemma_adjacent(rows, members, (members.len() - 1) as nat);
        if k == 0 {
            assert(rows::row_of(rows, caravans[i].members[0]) is Some);
            lemma_head(rows, members[0]);
            assert(asks_branch(all[t], rows, caravans[i].members[0], tip));
        } else if k >= 2 {
            assert(own[k] == tasks::adjacent_task(rows, members[k - 2], members[k - 1]));
            assert(rows::row_of(rows, caravans[i].members[k - 2]) is Some);
            assert(rows::row_of(rows, caravans[i].members[k - 1]) is Some);
            lemma_head(rows, members[k - 2]);
            lemma_head(rows, members[k - 1]);
            let j = k - 1;
            assert(asks_members(
                all[t],
                rows,
                caravans[i].members[j],
                caravans[i].members[j - 1],
                seq![caravans[i].members[j - 1], caravans[i].members[j]],
            ));
        }
    } else if t < chain.len() + cross.len() {
        assert(all[t] == cross[t - chain.len()]);
        let task = cross[t - chain.len()];
        assert(from_pair(rows, caravans, caravans.len() as int, task));
        let i = choose|i: int|
            0 <= i < caravans.len() && #[trigger] from_one(
                rows,
                caravans,
                i,
                caravans.len() as int,
                task,
            );
        let j = choose|j: int|
            0 <= j < caravans.len() && #[trigger] tasks::compared(caravans, i, j) && task
                == cross_of(rows, caravans, i, j);
        let last = caravans[j].members.len() - 1;
        assert(rows::row_of(rows, caravans[i].members[0]) is Some);
        assert(rows::row_of(rows, caravans[j].members[last]) is Some);
        lemma_head(rows, caravans[i].members[0]);
        lemma_head(rows, caravans[j].members[last]);
        assert(!caravans[i].parked && !caravans[j].parked);
    } else {
        assert(all[t] == scan[t - chain.len() - cross.len()]);
    }
}

// ---------------------------------------------------------------------------
// Candidates
// ---------------------------------------------------------------------------

/// Whether a pull request competes for the front: it has a row, and that does
/// not carry the label of skipped ones.
pub open spec fn competes(rows: Seq<PullRequestSnapshotView>, number: PrNumber) -> bool {
    exists|r: int|
        0 <= r < rows.len() && (#[trigger] rows[r]).number == number && !rows[r].labels.contains(
            "caravan-join-skipped"@,
        )
}

/// How many candidates compete for the front.
pub open spec fn competitors(rows: Seq<PullRequestSnapshotView>, numbers: Seq<PrNumber>) -> nat
    decreases numbers.len(),
{
    if numbers.len() == 0 {
        0
    } else if competes(rows, numbers.last()) {
        competitors(rows, numbers.drop_last()) + 1
    } else {
        competitors(rows, numbers.drop_last())
    }
}

/// Whether a candidate is proved: it competes, is one of the first three that
/// do, and is neither of another repository nor a draft.
pub open spec fn is_leading(
    rows: Seq<PullRequestSnapshotView>,
    numbers: Seq<PrNumber>,
    q: int,
) -> bool {
    &&& competes(rows, numbers[q])
    &&& competitors(rows, numbers.take(q)) < 3
    &&& exists|r: int|
        0 <= r < rows.len() && (#[trigger] rows[r]).number == numbers[q]
            && !rows[r].cross_repository && !rows[r].draft
}

proof fn lemma_scan(
    rows: Seq<PullRequestSnapshotView>,
    tip: BranchSnapshotView,
    numbers: Seq<PrNumber>,
)
    ensures
        forall|t: int|
            0 <= t < tasks::scan_candidates(rows, tip, numbers).tasks.len() ==> (
            #[trigger] tasks::scan_candidates(rows, tip, numbers).tasks[t]) is AdmissionCandidate,
    decreases numbers.len(),
{
    if numbers.len() > 0 {
        lemma_scan(rows, tip, numbers.drop_last());
        let before = tasks::scan_candidates(rows, tip, numbers.drop_last()).tasks;
        let list = tasks::scan_candidates(rows, tip, numbers).tasks;
        assert forall|t: int| 0 <= t < list.len() implies (
        #[trigger] list[t]) is AdmissionCandidate by {
            if t < before.len() {
                assert(list[t] == before[t]);
            }
        }
    }
}

spec fn admits(task: TaskView, rows: Seq<PullRequestSnapshotView>, tip: BranchSnapshotView, number: PrNumber) -> bool {
    &&& task is AdmissionCandidate
    &&& task->AdmissionCandidate_pr == number
    &&& task->AdmissionCandidate_target == tip
    &&& is_head(rows, number, task->AdmissionCandidate_candidate)
}

proof fn lemma_row_is_only(rows: Seq<PullRequestSnapshotView>, number: PrNumber, r: int)
    requires
        rows::rows_sorted(rows),
        0 <= r < rows.len(),
        rows[r].number == number,
    ensures
        rows::row_of(rows, number) == Some(rows[r]),
{
    rows::lemma_row_of(rows, number);
    let pr = rows::row_of(rows, number)->0;
    let k = choose|k: int| 0 <= k < rows.len() && rows[k] == pr;
    if k < r {
        assert(rows[k].number.0 < rows[r].number.0);
    } else if r < k {
        assert(rows[r].number.0 < rows[k].number.0);
    }
}

/// Whether some leading candidate is the one that a proof is about.
spec fn admits_some(
    task: TaskView,
    rows: Seq<PullRequestSnapshotView>,
    tip: BranchSnapshotView,
    numbers: Seq<PrNumber>,
) -> bool {
    exists|q: int|
        0 <= q < numbers.len() && #[trigger] is_leading(rows, numbers, q) && admits(
            task,
            rows,
            tip,
            numbers[q],
        )
}

/// Whether some proof is about a candidate.
spec fn admitted(
    list: Seq<TaskView>,
    rows: Seq<PullRequestSnapshotView>,
    tip: BranchSnapshotView,
    number: PrNumber,
) -> bool {
    exists|t: int| 0 <= t < list.len() && admits(#[trigger] list[t], rows, tip, number)
}

proof fn lemma_last_candidate(
    rows: Seq<PullRequestSnapshotView>,
    numbers: Seq<PrNumber>,
)
    requires
        rows::rows_sorted(rows),
        numbers.len() > 0,
    ensures
        ({
            let n = numbers.len() - 1;
            match rows::row_of(rows, numbers[n]) {
                Some(pr) => {
                    &&& competes(rows, numbers[n]) <==> !pr.labels.contains(
                        "caravan-join-skipped"@,
                    )
                    &&& is_leading(rows, numbers, n) <==> competes(rows, numbers[n])
                        && competitors(rows, numbers.take(n)) < 3 && !pr.cross_repository
                        && !pr.draft
                    &&& is_head(rows, numbers[n], pr.head)
                },
                None => !competes(rows, numbers[n]) && !is_leading(rows, numbers, n),
            }
        }),
{
    let n = numbers.len() - 1;
    let number = numbers[n];
    rows::lemma_row_of(rows, number);
    match rows::row_of(rows, number) {
        Some(pr) => {
            let r = choose|r: int| 0 <= r < rows.len() && rows[r] == pr;
            assert(rows[r].number == number);
            if competes(rows, number) {
                let k = choose|k: int|
                    0 <= k < rows.len() && (#[trigger] rows[k]).number == number
                        && !rows[k].labels.contains("caravan-join-skipped"@);
                lemma_row_is_only(rows, number, k);
            }
            if is_leading(rows, numbers, n) {
                let k = choose|k: int|
                    0 <= k < rows.len() && (#[trigger] rows[k]).number == numbers[n]
                        && !rows[k].cross_repository && !rows[k].draft;
                lemma_row_is_only(rows, number, k);
            }
        },
        None => {
            if competes(rows, number) {
                let k = choose|k: int|
                    0 <= k < rows.len() && (#[trigger] rows[k]).number == number
                        && !rows[k].labels.contains("caravan-join-skipped"@);
                assert(rows::has_row(rows, number));
            }
        },
    }
}

proof fn lemma_candidates(
    rows: Seq<PullRequestSnapshotView>,
    tip: BranchSnapshotView,
    numbers: Seq<PrNumber>,
)
    requires
        rows::rows_sorted(rows),
    ensures
        ({
            let scan = tasks::scan_candidates(rows, tip, numbers);
            &&& scan.selected == (if competitors(rows, numbers) < 3 {
                competitors(rows, numbers)
            } else {
                3
            })
            &&& forall|t: int|
                0 <= t < scan.tasks.len() ==> admits_some(
                    #[trigger] scan.tasks[t],
                    rows,
                    tip,
                    numbers,
                )
            &&& forall|q: int|
                0 <= q < numbers.len() && #[trigger] is_leading(rows, numbers, q) ==> admitted(
                    scan.tasks,
                    rows,
                    tip,
                    numbers[q],
                )
        }),
    decreases numbers.len(),
{
    if numbers.len() > 0 {
        let rest = numbers.drop_last();
        let n = rest.len() as int;
        let number = numbers.last();
        let before = tasks::scan_candidates(rows, tip, rest);
        let scan = tasks::scan_candidates(rows, tip, numbers);
        lemma_candidates(rows, tip, rest);
        lemma_last_candidate(rows, numbers);
        assert(numbers[n] == number);
        assert(numbers.take(n) =~= rest);
        let leads = is_leading(rows, numbers, n);
        assert(leads ==> scan.tasks.len() == before.tasks.len() + 1 && admits(
            scan.tasks[before.tasks.len() as int],
            rows,
            tip,
            number,
        ));
        assert(!leads ==> scan.tasks == before.tasks);
        assert forall|t: int| 0 <= t < before.tasks.len() implies #[trigger] scan.tasks[t]
            == before.tasks[t] by {}
        assert forall|q: int| 0 <= q < n implies #[trigger] is_leading(rows, numbers, q)
            == is_leading(rows, rest, q) by {
            assert(numbers.take(q) =~= rest.take(q));
            assert(numbers[q] == rest[q]);
        }
        assert forall|t: int| 0 <= t < scan.tasks.len() implies admits_some(
            #[trigger] scan.tasks[t],
            rows,
            tip,
            numbers,
        ) by {
            if t < before.tasks.len() {
                assert(admits_some(before.tasks[t], rows, tip, rest));
                let q = choose|q: int|
                    0 <= q < rest.len() && #[trigger] is_leading(rows, rest, q) && admits(
                        before.tasks[t],
                        rows,
                        tip,
                        rest[q],
                    );
                assert(is_leading(rows, numbers, q));
            } else {
                assert(is_leading(rows, numbers, n));
            }
        }
        assert forall|q: int|
            0 <= q < numbers.len() && #[trigger] is_leading(rows, numbers, q) implies admitted(
            scan.tasks,
            rows,
            tip,
            numbers[q],
        ) by {
            if q < n {
                assert(is_leading(rows, rest, q));
                assert(admitted(before.tasks, rows, tip, rest[q]));
                let t = choose|t: int|
                    0 <= t < before.tasks.len() && admits(
                        #[trigger] before.tasks[t],
                        rows,
                        tip,
                        rest[q],
                    );
                assert(admits(scan.tasks[t], rows, tip, numbers[q]));
            }
        }
    }
}

/// The candidates outside every caravan that are proved against the default
/// branch are exactly the leading ones.
pub proof fn lemma_leading_candidates_are_proved(
    snapshot: RepositorySnapshotView,
    actor: HeadMergeActor,
)
    ensures
        ({
            let start = graph::derived(snapshot, actor);
            let rows = start.pull_requests;
            let numbers = start.fleet.unqueued;
            &&& forall|q: int|
                0 <= q < numbers.len() && #[trigger] is_leading(rows, numbers, q) ==> exists|
                    t: int,
                |
                    0 <= t < planned(snapshot, actor).len() && (#[trigger] planned(
                        snapshot,
                        actor,
                    )[t]) is AdmissionCandidate && planned(
                        snapshot,
                        actor,
                    )[t]->AdmissionCandidate_pr == numbers[q] && planned(
                        snapshot,
                        actor,
                    )[t]->AdmissionCandidate_target == snapshot.default_branch && is_head(
                        rows,
                        numbers[q],
                        planned(snapshot, actor)[t]->AdmissionCandidate_candidate,
                    )
            &&& forall|t: int|
                0 <= t < planned(snapshot, actor).len() && (#[trigger] planned(
                    snapshot,
                    actor,
                )[t]) is AdmissionCandidate ==> exists|q: int|
                    0 <= q < numbers.len() && #[trigger] is_leading(rows, numbers, q) && planned(
                        snapshot,
                        actor,
                    )[t]->AdmissionCandidate_pr == numbers[q] && planned(
                        snapshot,
                        actor,
                    )[t]->AdmissionCandidate_target == snapshot.default_branch && is_head(
                        rows,
                        numbers[q],
                        planned(snapshot, actor)[t]->AdmissionCandidate_candidate,
                    )
        }),
{
    let start = graph::derived(snapshot, actor);
    let rows = start.pull_requests;
    let numbers = start.fleet.unqueued;
    let caravans = start.fleet.caravans;
    let tip = snapshot.default_branch;
    let all = planned(snapshot, actor);
    rows::lemma_indexed(snapshot.pull_requests);
    lemma_candidates(rows, tip, numbers);
    lemma_derived_is_apart(snapshot);
    lemma_cross(rows, caravans, caravans.len());
    lemma_chain(rows, tip, caravans);
    let chain = tasks::chain_tasks(rows, tip, caravans);
    let cross = tasks::cross_tasks(rows, caravans, caravans.len());
    let scan = tasks::scan_candidates(rows, tip, numbers).tasks;
    assert(all == chain + cross + scan);
    assert forall|q: int| 0 <= q < numbers.len() && #[trigger] is_leading(
        rows,
        numbers,
        q,
    ) implies exists|t: int| 0 <= t < all.len() && admits(#[trigger] all[t], rows, tip, numbers[q]) by {
        assert(admitted(scan, rows, tip, numbers[q]));
        let t = choose|t: int|
            0 <= t < scan.len() && admits(#[trigger] scan[t], rows, tip, numbers[q]);
        assert(all[chain.len() + cross.len() + t] == scan[t]);
    }
    assert forall|t: int| 0 <= t < all.len() && (#[trigger] all[t]) is AdmissionCandidate implies exists|
        q: int,
    | 0 <= q < numbers.len() && #[trigger] is_leading(rows, numbers, q) && admits(all[t], rows, tip, numbers[q]) by {
        if t < chain.len() {
            assert(all[t] == chain[t]);
            let i = choose|i: int|
                0 <= i < caravans.len() && tasks::caravan_tasks(
                    rows,
                    tip,
                    #[trigger] caravans[i],
                ).contains(chain[t]);
            let own = tasks::caravan_tasks(rows, tip, caravans[i]);
            let members = caravans[i].members;
            lemma_adjacent(rows, members, (members.len() - 1) as nat);
            let k = choose|k: int| 0 <= k < own.len() && own[k] == chain[t];
            if k >= 2 {
                assert(own[k] == tasks::adjacent_task(rows, members[k - 2], members[k - 1]));
            }
        } else if t < chain.len() + cross.len() {
            assert(all[t] == cross[t - chain.len()]);
            assert(from_pair(
                rows,
                caravans,
                caravans.len() as int,
                cross[t - chain.len()],
            ));
        } else {
            assert(all[t] == scan[t - chain.len() - cross.len()]);
            let task = scan[t - chain.len() - cross.len()];
            assert(admits_some(task, rows, tip, numbers));
        }
    }
}

// ---------------------------------------------------------------------------
// Answers
// ---------------------------------------------------------------------------

/// Whether an analysis holds the answer to a proof: the report of the checker on
/// the two branches of the proof, and a problem if they do not merge cleanly.
pub open spec fn answered<C: CompatibilityChecker>(
    checker: C,
    analysis: GraphAnalysisView,
    task: TaskView,
) -> bool {
    match task {
        TaskView::Fleet { candidate, target, prs, message, .. } => exists|
            report: CompatibilityReportView,
        |
            #[trigger] analyze::checked(checker, candidate, target, Ok(report))
                && analysis.compatibility.contains(report) && (report.outcome
                != CompatibilityOutcome::Clean ==> analysis.fleet.problems.contains(
                GraphProblemView { kind: GraphProblemKind::Incompatible, prs, message },
            )),
        TaskView::AdmissionCandidate { candidate, target, pr, .. } => exists|
            report: CompatibilityReportView,
        |
            #[trigger] analyze::checked(checker, candidate, target, Ok(report))
                && analysis.compatibility.contains(report) && (report.outcome
                != CompatibilityOutcome::Clean ==> exists|k: int|
                0 <= k < analysis.fleet.problems.len() && (
                #[trigger] analysis.fleet.problems[k]).kind
                    == GraphProblemKind::CandidateIncompatible && analysis.fleet.problems[k].prs
                    == seq![pr]),
        TaskView::CumulativeTree { candidate, target, .. } => exists|
            proof_of: Option<CumulativeTreeProofView>,
        |
            #[trigger] analyze::tree_proved(checker, candidate, target, Ok(proof_of)) && (proof_of
                matches Some(found) ==> analysis.cumulative_trees.contains(found)),
    }
}

/// Whether one analysis holds all that another holds.
pub open spec fn holds_all(after: GraphAnalysisView, before: GraphAnalysisView) -> bool {
    &&& before.compatibility.len() <= after.compatibility.len()
    &&& before.fleet.problems.len() <= after.fleet.problems.len()
    &&& before.cumulative_trees.len() <= after.cumulative_trees.len()
    &&& forall|k: int|
        0 <= k < before.compatibility.len() ==> (#[trigger] after.compatibility[k])
            == before.compatibility[k]
    &&& forall|k: int|
        0 <= k < before.fleet.problems.len() ==> (#[trigger] after.fleet.problems[k])
            == before.fleet.problems[k]
    &&& forall|k: int|
        0 <= k < before.cumulative_trees.len() ==> (#[trigger] after.cumulative_trees[k])
            == before.cumulative_trees[k]
}

proof fn lemma_answer_stays<C: CompatibilityChecker>(
    checker: C,
    before: GraphAnalysisView,
    after: GraphAnalysisView,
    task: TaskView,
)
    requires
        answered(checker, before, task),
        holds_all(after, before),
    ensures
        answered(checker, after, task),
{
    assert forall|x: CompatibilityReportView| #[trigger]
        before.compatibility.contains(x) implies after.compatibility.contains(x) by {
        let k = choose|k: int| 0 <= k < before.compatibility.len() && before.compatibility[k] == x;
        assert(after.compatibility[k] == x);
    }
    assert forall|x: GraphProblemView| #[trigger]
        before.fleet.problems.contains(x) implies after.fleet.problems.contains(x) by {
        let k = choose|k: int|
            0 <= k < before.fleet.problems.len() && before.fleet.problems[k] == x;
        assert(after.fleet.problems[k] == x);
    }
    assert forall|x: CumulativeTreeProofView| #[trigger]
        before.cumulative_trees.contains(x) implies after.cumulative_trees.contains(x) by {
        let k = choose|k: int|
            0 <= k < before.cumulative_trees.len() && before.cumulative_trees[k] == x;
        assert(after.cumulative_trees[k] == x);
    }
    if task is AdmissionCandidate {
        let pr = task->AdmissionCandidate_pr;
        let report = choose|report: CompatibilityReportView|
            #[trigger] analyze::checked(
                checker,
                task->AdmissionCandidate_candidate,
                task->AdmissionCandidate_target,
                Ok(report),
            ) && before.compatibility.contains(report) && (report.outcome
                != CompatibilityOutcome::Clean ==> exists|k: int|
                0 <= k < before.fleet.problems.len() && (#[trigger] before.fleet.problems[k]).kind
                    == GraphProblemKind::CandidateIncompatible && before.fleet.problems[k].prs
                    == seq![pr]);
        assert(after.compatibility.contains(report));
        if report.outcome != CompatibilityOutcome::Clean {
            let k = choose|k: int|
                0 <= k < before.fleet.problems.len() && (#[trigger] before.fleet.problems[k]).kind
                    == GraphProblemKind::CandidateIncompatible && before.fleet.problems[k].prs
                    == seq![pr];
            assert(after.fleet.problems[k] == before.fleet.problems[k]);
        }
    }
}

proof fn lemma_step_answers<C: CompatibilityChecker>(
    checker: C,
    task: TaskView,
    before: GraphAnalysisView,
    after: GraphAnalysisView,
)
    requires
        analyze::task_step(checker, task, before, after, None),
    ensures
        answered(checker, after, task),
        holds_all(after, before),
{
    match task {
        TaskView::Fleet { candidate, target, prs, message, .. } => {
            let outcome = choose|outcome: Result<CompatibilityReportView, AppErrorView>|
                #[trigger] analyze::checked(checker, candidate, target, outcome) && match outcome {
                    Ok(report) => analyze::fleet_step(
                        checker,
                        before,
                        after,
                        None,
                        report,
                        prs,
                        message,
                    ),
                    Err(error) => after == before && None::<AppErrorView> == Some(error),
                };
            let report = outcome->Ok_0;
            assert(analyze::checked(checker, candidate, target, Ok(report)));
            assert(after.compatibility[after.compatibility.len() - 1] == report);
            if report.outcome != CompatibilityOutcome::Clean {
                let problem = GraphProblemView {
                    kind: GraphProblemKind::Incompatible,
                    prs,
                    message,
                };
                assert(after.fleet.problems[before.fleet.problems.len() as int] == problem);
            }
        },
        TaskView::CumulativeTree { candidate, target, .. } => {
            let outcome = choose|outcome: Result<Option<CumulativeTreeProofView>, AppErrorView>|
                #[trigger] analyze::tree_proved(checker, candidate, target, outcome)
                    && match outcome {
                    Ok(Some(proved)) => after == (GraphAnalysisView {
                        cumulative_trees: before.cumulative_trees.push(proved),
                        ..before
                    }),
                    Ok(None) => after == before,
                    Err(error) => after == before && None::<AppErrorView> == Some(error),
                };
            assert(analyze::tree_proved(checker, candidate, target, Ok(outcome->Ok_0)));
            if outcome->Ok_0 is Some {
                assert(after.cumulative_trees[before.cumulative_trees.len() as int]
                    == outcome->Ok_0->0);
            }
        },
        TaskView::AdmissionCandidate { candidate, target, pr, .. } => {
            let outcome = choose|outcome: Result<CompatibilityReportView, AppErrorView>|
                #[trigger] analyze::checked(checker, candidate, target, outcome) && match outcome {
                    Ok(report) => after == before.with_candidate_report(
                        report,
                        pr,
                        "leading admission candidate does not merge cleanly into the current default branch"@,
                    ),
                    Err(error) => after == before && None::<AppErrorView> == Some(error),
                };
            let report = outcome->Ok_0;
            assert(analyze::checked(checker, candidate, target, Ok(report)));
            assert(after.compatibility[after.compatibility.len() - 1] == report);
            if report.outcome != CompatibilityOutcome::Clean {
                let k = before.fleet.problems.len() as int;
                assert(after.fleet.problems[k].kind == GraphProblemKind::CandidateIncompatible);
                assert(after.fleet.problems[k].prs =~= seq![pr]);
            }
        },
    }
}

proof fn lemma_all_answered<C: CompatibilityChecker>(
    checker: C,
    list: Seq<TaskView>,
    states: Seq<GraphAnalysisView>,
    k: int,
)
    requires
        analyze::proofs_ran(checker, list, states),
        0 <= k < states.len(),
    ensures
        forall|t: int| 0 <= t < k ==> answered(checker, states[k], #[trigger] list[t]),
    decreases k,
{
    if k > 0 {
        lemma_all_answered(checker, list, states, k - 1);
        assert(analyze::task_step(checker, list[k - 1], states[k - 1], states[k - 1 + 1], None));
        lemma_step_answers(checker, list[k - 1], states[k - 1], states[k]);
        assert forall|t: int| 0 <= t < k implies answered(
            checker,
            states[k],
            #[trigger] list[t],
        ) by {
            if t < k - 1 {
                lemma_answer_stays(checker, states[k - 1], states[k], list[t]);
            }
        }
    }
}

/// A complete analysis holds the answer to every planned proof.
pub proof fn lemma_complete_analysis_is_answered<C: CompatibilityChecker>(
    checker: C,
    snapshot: RepositorySnapshotView,
    actor: HeadMergeActor,
    bounded: bool,
    full: BoundedGraphAnalysisView,
)
    requires
        analyze::analyzed(checker, snapshot, actor, bounded, Ok(full)),
        full.progress.complete,
    ensures
        forall|t: int|
            0 <= t < planned(snapshot, actor).len() ==> answered(
                checker,
                full.analysis,
                #[trigger] planned(snapshot, actor)[t],
            ),
{
    let start = graph::derived(snapshot, actor);
    let list = planned(snapshot, actor);
    let progress = analyze::planned_progress(snapshot, start);
    let answers = choose|answers: Seq<bool>| #[trigger]
        analyze::analyzed_answering(checker, snapshot, actor, bounded, answers, Ok(full));
    assert(full != analyze::untouched(snapshot, actor));
    let outcome = choose|outcome: Result<(), AppErrorView>|
        #[trigger] analyze::prepared(
            checker,
            analyze::needed_branches(start, snapshot.default_branch),
            outcome,
        ) && outcome is Ok && exists|states: Seq<GraphAnalysisView>|
            #[trigger] analyze::proofs_ran(checker, list, states) && states[0] == start
                && analyze::proofs_ended(
                checker,
                list,
                progress,
                bounded,
                answers,
                states,
                Ok(full),
            );
    let states = choose|states: Seq<GraphAnalysisView>|
        #[trigger] analyze::proofs_ran(checker, list, states) && states[0] == start
            && analyze::proofs_ended(checker, list, progress, bounded, answers, states, Ok(full));
    lemma_all_answered(checker, list, states, states.len() - 1);
}

proof fn lemma_containing(caravans: Seq<CaravanView>, x: PrNumber, a: int)
    requires
        apart(caravans),
        0 <= a < caravans.len(),
        caravans[a].members.contains(x),
    ensures
        model::containing_caravan(caravans, x) == Some(a),
    decreases caravans.len(),
{
    let rest = caravans.drop_last();
    assert forall|i: int, j: int, y: PrNumber|
        0 <= i < rest.len() && 0 <= j < rest.len() && #[trigger] rest[i].members.contains(y)
            && #[trigger] rest[j].members.contains(y) implies i == j by {
        assert(caravans[i].members.contains(y) && caravans[j].members.contains(y));
    }
    if a < rest.len() {
        assert(rest[a] == caravans[a]);
        lemma_containing(rest, x, a);
    } else {
        lemma_nowhere(rest, x, caravans);
    }
}

proof fn lemma_nowhere(rest: Seq<CaravanView>, x: PrNumber, caravans: Seq<CaravanView>)
    requires
        rest.len() < caravans.len(),
        apart(caravans),
        caravans.last().members.contains(x),
        forall|i: int| 0 <= i < rest.len() ==> (#[trigger] rest[i]) == caravans[i],
    ensures
        model::containing_caravan(rest, x) is None,
    decreases rest.len(),
{
    if rest.len() > 0 {
        let last = rest.len() - 1;
        lemma_nowhere(rest.drop_last(), x, caravans);
        assert(rest[last] == caravans[last]);
        if rest[last].members.contains(x) {
            assert(caravans[last].members.contains(x));
            assert(caravans[caravans.len() - 1].members.contains(x));
        }
    }
}

/// A conflict between two caravans that are not parked is never lost: a complete
/// analysis asked whether the head of the first member of the one merges into the
/// head of the last member of the other, and if every answer that the checker can
/// give to that is a conflict, a problem names the two members and the fleet is
/// not healthy.
pub proof fn lemma_conflicting_caravans_are_not_healthy<C: CompatibilityChecker>(
    checker: C,
    snapshot: RepositorySnapshotView,
    actor: HeadMergeActor,
    bounded: bool,
    full: BoundedGraphAnalysisView,
    a: int,
    b: int,
)
    requires
        analyze::analyzed(checker, snapshot, actor, bounded, Ok(full)),
        full.progress.complete,
        0 <= a < full.analysis.fleet.caravans.len(),
        0 <= b < full.analysis.fleet.caravans.len(),
        a != b,
        !full.analysis.fleet.caravans[a].parked,
        !full.analysis.fleet.caravans[b].parked,
        forall|candidate: BranchSnapshotView, target: BranchSnapshotView, report: CompatibilityReportView|
            is_head(
                full.analysis.pull_requests,
                full.analysis.fleet.caravans[a].members[0],
                candidate,
            ) && is_head(
                full.analysis.pull_requests,
                full.analysis.fleet.caravans[b].members.last(),
                target,
            ) && #[trigger] analyze::checked(checker, candidate, target, Ok(report))
                ==> report.outcome != CompatibilityOutcome::Clean,
    ensures
        exists|k: int|
            0 <= k < full.analysis.fleet.problems.len() && (
            #[trigger] full.analysis.fleet.problems[k]).kind == GraphProblemKind::Incompatible
                && full.analysis.fleet.problems[k].prs == seq![
                full.analysis.fleet.caravans[a].members[0],
                full.analysis.fleet.caravans[b].members.last(),
            ],
        !full.analysis.is_healthy(),
{
    let start = graph::derived(snapshot, actor);
    let list = planned(snapshot, actor);
    let analysis = full.analysis;
    graph::fleet_laws::lemma_analysis_keeps_fleet(checker, snapshot, actor, bounded, full);
    lemma_complete_analysis_is_answered(checker, snapshot, actor, bounded, full);
    lemma_caravans_are_compared(snapshot, actor, a, b);
    lemma_derived_is_apart(snapshot);
    let caravans = start.fleet.caravans;
    let front = caravans[a].members[0];
    let back = caravans[b].members.last();
    let t = choose|t: int|
        0 <= t < list.len() && asks_members(
            #[trigger] list[t],
            start.pull_requests,
            front,
            back,
            seq![front, back],
        );
    assert(answered(checker, analysis, list[t]));
    let report = choose|report: CompatibilityReportView|
        #[trigger] analyze::checked(
            checker,
            list[t]->Fleet_candidate,
            list[t]->Fleet_target,
            Ok(report),
        ) && analysis.compatibility.contains(report) && (report.outcome
            != CompatibilityOutcome::Clean ==> analysis.fleet.problems.contains(
            GraphProblemView {
                kind: GraphProblemKind::Incompatible,
                prs: list[t]->Fleet_prs,
                message: list[t]->Fleet_message,
            },
        ));
    let problem = GraphProblemView {
        kind: GraphProblemKind::Incompatible,
        prs: list[t]->Fleet_prs,
        message: list[t]->Fleet_message,
    };
    assert(analysis.fleet.problems.contains(problem));
    let k = choose|k: int| 0 <= k < analysis.fleet.problems.len() && analysis.fleet.problems[k] == problem;
    assert(analysis.fleet.problems[k].kind == GraphProblemKind::Incompatible);
    assert(caravans[a].members.contains(front)) by {
        assert(caravans[a].members[0] == front);
    }
    lemma_containing(caravans, front, a);
    assert(problem.prs[0] == front);
    assert(graph::touches(analysis.fleet.caravans, problem.prs, false));
    assert(analysis.blocks(analysis.fleet.problems[k]));
}

} // verus!
