//! What a fleet is made of, over the rows of the snapshot themselves: which pull
//! requests are members, which wait, which caravan is parked and who follows
//! whom.

use vstd::prelude::*;
use crate::graph;
use crate::graph::chains::LinksView;
use crate::graph::fleet_laws;
use crate::graph::laws;
use crate::graph::links::TopologyView;
use crate::graph::rows;
use crate::model;
use crate::model::{
    CaravanView, GraphProblemKind, GraphProblemView, HeadMergeActor, PrNumber,
    PullRequestSnapshotView, PullRequestState, RepositorySnapshotView,
};

verus! {

// ---------------------------------------------------------------------------
// Rows
// ---------------------------------------------------------------------------

/// The row counts: it is the last one of its number.
pub open spec fn counts(prs: Seq<PullRequestSnapshotView>, pr: PullRequestSnapshotView) -> bool {
    exists|i: int| #[trigger] last_of_number(prs, i) && prs[i] == pr
}

/// No later row has the same number.
pub open spec fn last_of_number(prs: Seq<PullRequestSnapshotView>, i: int) -> bool {
    &&& 0 <= i < prs.len()
    &&& forall|k: int| i < k < prs.len() ==> (#[trigger] prs[k]).number != prs[i].number
}

/// An open pull request that has the membership label and was not evicted.
pub open spec fn is_admitted(pr: PullRequestSnapshotView) -> bool {
    &&& pr.state == PullRequestState::Open
    &&& pr.labels.contains("caravan"@)
    &&& !pr.labels.contains("caravan-evicted"@)
}

/// A row of a snapshot that counts and is admitted.
pub open spec fn is_member(
    snapshot: RepositorySnapshotView,
    pr: PullRequestSnapshotView,
) -> bool {
    counts(snapshot.pull_requests, pr) && is_admitted(pr)
}

proof fn lemma_rows(prs: Seq<PullRequestSnapshotView>)
    ensures
        forall|pr: PullRequestSnapshotView| #[trigger]
            rows::indexed(prs).contains(pr) <==> counts(prs, pr),
    decreases prs.len(),
{
    if prs.len() > 0 {
        let front = prs.drop_last();
        let last = prs.last();
        let n = front.len() as int;
        lemma_rows(front);
        rows::lemma_indexed(front);
        rows::lemma_indexed(prs);
        rows::lemma_index_insert(rows::indexed(front), last);
        let out = rows::indexed(prs);
        assert(last_of_number(prs, n));
        assert forall|pr: PullRequestSnapshotView| #[trigger] out.contains(pr) <==> counts(
            prs,
            pr,
        ) by {
            if pr.number == last.number {
                if out.contains(pr) {
                    let a = choose|a: int| 0 <= a < out.len() && out[a] == pr;
                    let b = choose|b: int| 0 <= b < out.len() && out[b] == last;
                    if a < b {
                        assert(out[a].number.0 < out[b].number.0);
                    } else if b < a {
                        assert(out[b].number.0 < out[a].number.0);
                    }
                    assert(prs[n] == pr);
                }
                if counts(prs, pr) {
                    let i = choose|i: int| #[trigger] last_of_number(prs, i) && prs[i] == pr;
                    if i < n {
                        assert(prs[n].number != prs[i].number);
                    }
                }
            } else {
                assert(out.contains(pr) <==> rows::indexed(front).contains(pr));
                if counts(front, pr) {
                    let i = choose|i: int| #[trigger] last_of_number(front, i) && front[i] == pr;
                    assert forall|k: int| i < k < prs.len() implies (#[trigger] prs[k]).number
                        != prs[i].number by {
                        if k < n {
                            assert(front[k].number != front[i].number);
                        }
                    }
                    assert(last_of_number(prs, i));
                }
                if counts(prs, pr) {
                    let i = choose|i: int| #[trigger] last_of_number(prs, i) && prs[i] == pr;
                    assert(i < n);
                    assert forall|k: int| i < k < front.len() implies (#[trigger] front[k]).number
                        != front[i].number by {
                        assert(prs[k].number != prs[i].number);
                    }
                    assert(last_of_number(front, i));
                }
            }
        }
    } else {
        assert forall|pr: PullRequestSnapshotView| #[trigger]
            rows::indexed(prs).contains(pr) <==> counts(prs, pr) by {}
    }
}

pub(crate) proof fn lemma_active(snapshot: RepositorySnapshotView)
    ensures
        forall|pr: PullRequestSnapshotView| #[trigger]
            graph::topology_of(snapshot).active.contains(pr) <==> is_member(snapshot, pr),
        rows::rows_sorted(graph::topology_of(snapshot).active),
        rows::rows_sorted(graph::topology_of(snapshot).rows),
        forall|pr: PullRequestSnapshotView| #[trigger]
            graph::topology_of(snapshot).rows.contains(pr) <==> counts(snapshot.pull_requests, pr),
{
    let t = graph::topology_of(snapshot);
    lemma_rows(snapshot.pull_requests);
    rows::lemma_indexed(snapshot.pull_requests);
    rows::lemma_active_rows(t.rows);
    assert forall|pr: PullRequestSnapshotView| #[trigger] t.active.contains(pr) <==> is_member(
        snapshot,
        pr,
    ) by {
        assert(t.rows.contains(pr) <==> counts(snapshot.pull_requests, pr));
    }
}

pub(crate) proof fn lemma_same_row(
    sorted: Seq<PullRequestSnapshotView>,
    a: PullRequestSnapshotView,
    b: PullRequestSnapshotView,
)
    requires
        rows::rows_sorted(sorted),
        sorted.contains(a),
        sorted.contains(b),
        a.number == b.number,
    ensures
        a == b,
{
    let i = choose|i: int| 0 <= i < sorted.len() && sorted[i] == a;
    let j = choose|j: int| 0 <= j < sorted.len() && sorted[j] == b;
    if i < j {
        assert(sorted[i].number.0 < sorted[j].number.0);
    } else if j < i {
        assert(sorted[j].number.0 < sorted[i].number.0);
    }
}

pub(crate) proof fn lemma_found_row(
    sorted: Seq<PullRequestSnapshotView>,
    pr: PullRequestSnapshotView,
)
    requires
        rows::rows_sorted(sorted),
        sorted.contains(pr),
    ensures
        rows::row_of(sorted, pr.number) == Some(pr),
{
    let i = choose|i: int| 0 <= i < sorted.len() && sorted[i] == pr;
    assert(sorted[i].number == pr.number);
    rows::lemma_row_of(sorted, pr.number);
    lemma_same_row(sorted, pr, rows::row_of(sorted, pr.number)->0);
}

/// The pull request of this number is a member.
pub open spec fn is_member_number(snapshot: RepositorySnapshotView, x: PrNumber) -> bool {
    exists|pr: PullRequestSnapshotView| #[trigger] is_member(snapshot, pr) && pr.number == x
}

/// A caravan holds a pull request exactly where it is open, has the membership
/// label and was not evicted; and then just one caravan holds it, once.
pub proof fn lemma_caravans_hold_members_exactly(snapshot: RepositorySnapshotView, x: PrNumber)
    ensures
        (exists|c: int|
            0 <= c < graph::caravans_of(snapshot).len() && (#[trigger] graph::caravans_of(
                snapshot,
            )[c]).members.contains(x)) <==> is_member_number(snapshot, x),
        forall|c: int, d: int|
            0 <= c < graph::caravans_of(snapshot).len() && 0 <= d < graph::caravans_of(
                snapshot,
            ).len() && (#[trigger] graph::caravans_of(snapshot)[c]).members.contains(x) && (
            #[trigger] graph::caravans_of(snapshot)[d]).members.contains(x) ==> c == d,
        forall|c: int|
            0 <= c < graph::caravans_of(snapshot).len() ==> (#[trigger] graph::caravans_of(
                snapshot,
            )[c]).members.no_duplicates(),
{
    let t = graph::topology_of(snapshot);
    laws::lemma_caravans_partition(snapshot);
    lemma_active(snapshot);
    let numbers = graph::links_of(snapshot).numbers;
    assert(laws::in_some_caravan(graph::caravans_of(snapshot), x) <==> numbers.contains(x));
    if numbers.contains(x) {
        let k = choose|k: int| 0 <= k < numbers.len() && numbers[k] == x;
        assert(t.active.contains(t.active[k]));
        assert(is_member(snapshot, t.active[k]));
    }
    if is_member_number(snapshot, x) {
        let pr = choose|pr: PullRequestSnapshotView| #[trigger]
            is_member(snapshot, pr) && pr.number == x;
        assert(t.active.contains(pr));
        let k = choose|k: int| 0 <= k < t.active.len() && t.active[k] == pr;
        assert(numbers[k] == x);
    }
}

/// A pull request waits exactly where it is open, no draft, and neither a member
/// nor evicted.
pub proof fn lemma_waiting_exactly(snapshot: RepositorySnapshotView, actor: HeadMergeActor, x: PrNumber)
    ensures
        graph::derived(snapshot, actor).fleet.unqueued.contains(x) <==> exists|
            pr: PullRequestSnapshotView,
        | #[trigger]
            counts(snapshot.pull_requests, pr) && pr.number == x && pr.state
                == PullRequestState::Open && !pr.draft && !pr.labels.contains("caravan"@)
                && !pr.labels.contains("caravan-evicted"@),
{
    let t = graph::topology_of(snapshot);
    lemma_active(snapshot);
    lemma_unqueued(t.rows);
    let kept = graph::unqueued_of(t.rows);
    if kept.contains(x) {
        let i = choose|i: int|
            0 <= i < t.rows.len() && graph::is_unqueued(#[trigger] t.rows[i]) && t.rows[i].number
                == x;
        assert(t.rows.contains(t.rows[i]));
        assert(counts(snapshot.pull_requests, t.rows[i]));
    }
    if exists|pr: PullRequestSnapshotView| #[trigger]
        counts(snapshot.pull_requests, pr) && pr.number == x && pr.state == PullRequestState::Open
            && !pr.draft && !pr.labels.contains("caravan"@) && !pr.labels.contains(
            "caravan-evicted"@,
        ) {
        let pr = choose|pr: PullRequestSnapshotView| #[trigger]
            counts(snapshot.pull_requests, pr) && pr.number == x && pr.state
                == PullRequestState::Open && !pr.draft && !pr.labels.contains("caravan"@)
                && !pr.labels.contains("caravan-evicted"@);
        assert(t.rows.contains(pr));
        let i = choose|i: int| 0 <= i < t.rows.len() && t.rows[i] == pr;
        assert(graph::is_unqueued(t.rows[i]));
    }
}

proof fn lemma_unqueued(all: Seq<PullRequestSnapshotView>)
    ensures
        forall|x: PrNumber| #[trigger]
            graph::unqueued_of(all).contains(x) <==> exists|i: int|
                0 <= i < all.len() && graph::is_unqueued(#[trigger] all[i]) && all[i].number == x,
    decreases all.len(),
{
    if all.len() > 0 {
        let front = all.drop_last();
        lemma_unqueued(front);
        let kept = graph::unqueued_of(front);
        assert forall|x: PrNumber| #[trigger]
            graph::unqueued_of(all).contains(x) <==> exists|i: int|
                0 <= i < all.len() && graph::is_unqueued(#[trigger] all[i]) && all[i].number == x by {
            assert(kept.contains(x) <==> exists|i: int|
                0 <= i < front.len() && graph::is_unqueued(#[trigger] front[i]) && front[i].number
                    == x);
            let longer = kept.push(all.last().number);
            if kept.contains(x) {
                let k = choose|k: int| 0 <= k < kept.len() && kept[k] == x;
                assert(longer[k] == x);
                let i = choose|i: int|
                    0 <= i < front.len() && graph::is_unqueued(#[trigger] front[i])
                        && front[i].number == x;
                assert(all[i] == front[i]);
            }
            assert(longer[kept.len() as int] == all.last().number);
            assert(all[all.len() - 1] == all.last());
            if longer.contains(x) {
                let k = choose|k: int| 0 <= k < longer.len() && longer[k] == x;
                if k < kept.len() {
                    assert(kept[k] == x);
                }
            }
            if exists|i: int|
                0 <= i < all.len() && graph::is_unqueued(#[trigger] all[i]) && all[i].number == x {
                let i = choose|i: int|
                    0 <= i < all.len() && graph::is_unqueued(#[trigger] all[i]) && all[i].number
                        == x;
                if i < front.len() {
                    assert(front[i] == all[i]);
                }
            }
        }
    } else {
        assert forall|x: PrNumber| #[trigger]
            graph::unqueued_of(all).contains(x) <==> exists|i: int|
                0 <= i < all.len() && graph::is_unqueued(#[trigger] all[i]) && all[i].number == x by {}
    }
}

proof fn lemma_inserted(sorted: Seq<CaravanView>, caravan: CaravanView)
    ensures
        forall|x: CaravanView| #[trigger]
            graph::caravan_insert(sorted, caravan).contains(x) ==> sorted.contains(x) || x
                == caravan,
    decreases sorted.len(),
{
    let out = graph::caravan_insert(sorted, caravan);
    if sorted.len() == 0 || sorted.last().id.0 <= caravan.id.0 {
        assert forall|x: CaravanView| #[trigger] out.contains(x) implies sorted.contains(x) || x
            == caravan by {
            let k = choose|k: int| 0 <= k < out.len() && out[k] == x;
            if k < sorted.len() {
                assert(sorted[k] == x);
            }
        }
    } else {
        let front = sorted.drop_last();
        let inner = graph::caravan_insert(front, caravan);
        lemma_inserted(front, caravan);
        assert forall|x: CaravanView| #[trigger] out.contains(x) implies sorted.contains(x) || x
            == caravan by {
            let k = choose|k: int| 0 <= k < out.len() && out[k] == x;
            if k < inner.len() {
                assert(inner[k] == x);
                assert(inner.contains(x));
                if front.contains(x) {
                    let j = choose|j: int| 0 <= j < front.len() && front[j] == x;
                    assert(sorted[j] == x);
                }
            } else {
                assert(sorted[sorted.len() - 1] == x);
            }
        }
    }
}

proof fn lemma_parked(active: Seq<PullRequestSnapshotView>, chains: Seq<Seq<PrNumber>>)
    ensures
        forall|x: CaravanView| #[trigger]
            graph::chain_caravans(active, chains).contains(x) ==> x.members.len() > 0 && x.parked
                == graph::is_parked(active, x.members[0]),
    decreases chains.len(),
{
    if chains.len() > 0 {
        let kept = graph::chain_caravans(active, chains.drop_last());
        lemma_parked(active, chains.drop_last());
        if chains.last().len() > 0 {
            let caravan = graph::chain_caravan(active, chains.last());
            lemma_inserted(kept, caravan);
            assert forall|x: CaravanView| #[trigger]
                graph::chain_caravans(active, chains).contains(x) implies x.members.len() > 0
                && x.parked == graph::is_parked(active, x.members[0]) by {
                assert(graph::caravan_insert(kept, caravan).contains(x));
                assert(kept.contains(x) || x == caravan);
            }
        }
    }
}

/// A caravan is parked exactly where its first member has the parking label. The
/// labels of the others do not matter.
pub proof fn lemma_parked_by_its_head(
    snapshot: RepositorySnapshotView,
    c: int,
    head: PullRequestSnapshotView,
)
    requires
        0 <= c < graph::caravans_of(snapshot).len(),
        is_member(snapshot, head),
        head.number == graph::caravans_of(snapshot)[c].members[0],
    ensures
        graph::caravans_of(snapshot)[c].parked <==> head.labels.contains("caravan-parked"@),
        graph::caravans_of(snapshot)[c].id == head.number,
{
    let t = graph::topology_of(snapshot);
    let caravans = graph::caravans_of(snapshot);
    lemma_active(snapshot);
    lemma_parked(t.active, graph::chains_of(snapshot));
    laws::lemma_caravans_partition(snapshot);
    assert(caravans.contains(caravans[c]));
    assert(t.active.contains(head));
    lemma_found_row(t.active, head);
}

// ---------------------------------------------------------------------------
// Links
// ---------------------------------------------------------------------------

/// A merged member of the caravans used this branch.
pub open spec fn used_by_merged(snapshot: RepositorySnapshotView, branch: Seq<char>) -> bool {
    exists|pr: PullRequestSnapshotView| #[trigger]
        counts(snapshot.pull_requests, pr) && pr.state == PullRequestState::Merged
            && pr.labels.contains("caravan"@) && pr.head.name == branch
}

/// One member follows another: it targets the branch of the other, which is not
/// the default branch and is the head of no other member. Where a merged member
/// used that branch too, it targets just the commit that the other is at.
pub open spec fn follows(
    snapshot: RepositorySnapshotView,
    above: PullRequestSnapshotView,
    pr: PullRequestSnapshotView,
) -> bool {
    &&& is_member(snapshot, above)
    &&& is_member(snapshot, pr)
    &&& pr.base.name == above.head.name
    &&& pr.base.name != snapshot.default_branch.name
    &&& forall|other: PullRequestSnapshotView| #[trigger]
        is_member(snapshot, other) && other.head.name == above.head.name ==> other == above
    &&& used_by_merged(snapshot, pr.base.name) ==> pr.base.oid == above.head.oid
}

proof fn lemma_last_owner(
    all: Seq<PullRequestSnapshotView>,
    state: PullRequestState,
    branch: Seq<char>,
)
    ensures
        rows::last_owner(all, state, branch) is Some <==> exists|i: int|
            0 <= i < all.len() && (#[trigger] all[i]).state == state && all[i].labels.contains(
                "caravan"@,
            ) && all[i].head.name == branch,
    decreases all.len(),
{
    if all.len() > 0 {
        let front = all.drop_last();
        lemma_last_owner(front, state, branch);
        assert(all[all.len() - 1] == all.last());
        if exists|i: int|
            0 <= i < front.len() && (#[trigger] front[i]).state == state
                && front[i].labels.contains("caravan"@) && front[i].head.name == branch {
            let i = choose|i: int|
                0 <= i < front.len() && (#[trigger] front[i]).state == state
                    && front[i].labels.contains("caravan"@) && front[i].head.name == branch;
            assert(all[i] == front[i]);
        }
        if exists|i: int|
            0 <= i < all.len() && (#[trigger] all[i]).state == state && all[i].labels.contains(
                "caravan"@,
            ) && all[i].head.name == branch {
            let i = choose|i: int|
                0 <= i < all.len() && (#[trigger] all[i]).state == state
                    && all[i].labels.contains("caravan"@) && all[i].head.name == branch;
            if i < front.len() {
                assert(front[i] == all[i]);
            }
        }
    }
}

proof fn lemma_merged_owner(snapshot: RepositorySnapshotView, pr: PullRequestSnapshotView)
    ensures
        graph::topology_of(snapshot).merged_owner(pr) is Some <==> used_by_merged(
            snapshot,
            pr.base.name,
        ),
{
    let all = graph::topology_of(snapshot).rows;
    lemma_active(snapshot);
    lemma_last_owner(all, PullRequestState::Merged, pr.base.name);
    if graph::topology_of(snapshot).merged_owner(pr) is Some {
        let i = choose|i: int|
            0 <= i < all.len() && (#[trigger] all[i]).state == PullRequestState::Merged
                && all[i].labels.contains("caravan"@) && all[i].head.name == pr.base.name;
        assert(all.contains(all[i]));
        assert(counts(snapshot.pull_requests, all[i]));
    }
    if used_by_merged(snapshot, pr.base.name) {
        let owner = choose|owner: PullRequestSnapshotView| #[trigger]
            counts(snapshot.pull_requests, owner) && owner.state == PullRequestState::Merged
                && owner.labels.contains("caravan"@) && owner.head.name == pr.base.name;
        assert(all.contains(owner));
        let i = choose|i: int| 0 <= i < all.len() && all[i] == owner;
        assert(all[i].state == PullRequestState::Merged);
    }
}

pub(crate) proof fn lemma_on_branch(active: Seq<PullRequestSnapshotView>, branch: Seq<char>)
    requires
        rows::rows_sorted(active),
    ensures
        forall|x: PrNumber| #[trigger]
            rows::members_on(active, branch).contains(x) <==> exists|i: int|
                0 <= i < active.len() && (#[trigger] active[i]).number == x && active[i].head.name
                    == branch,
        rows::members_on(active, branch).no_duplicates(),
    decreases active.len(),
{
    if active.len() > 0 {
        let front = active.drop_last();
        lemma_on_branch(front, branch);
        let kept = rows::members_on(front, branch);
        let out = rows::members_on(active, branch);
        let last = active.last();
        let n = front.len() as int;
        assert(active[n] == last);
        assert(!kept.contains(last.number)) by {
            if kept.contains(last.number) {
                let i = choose|i: int|
                    0 <= i < front.len() && (#[trigger] front[i]).number == last.number
                        && front[i].head.name == branch;
                assert(active[i].number.0 < active[n].number.0);
            }
        }
        let longer = kept.push(last.number);
        assert(longer.no_duplicates()) by {
            assert forall|i: int, j: int| 0 <= i < longer.len() && 0 <= j < longer.len() && i
                != j implies longer[i] != longer[j] by {
                if i < kept.len() {
                    assert(kept.contains(kept[i]));
                }
                if j < kept.len() {
                    assert(kept.contains(kept[j]));
                }
            }
        }
        assert forall|x: PrNumber| #[trigger] out.contains(x) <==> exists|i: int|
            0 <= i < active.len() && (#[trigger] active[i]).number == x && active[i].head.name
                == branch by {
            assert(kept.contains(x) <==> exists|i: int|
                0 <= i < front.len() && (#[trigger] front[i]).number == x && front[i].head.name
                    == branch);
            if kept.contains(x) {
                let k = choose|k: int| 0 <= k < kept.len() && kept[k] == x;
                assert(longer[k] == x);
                let i = choose|i: int|
                    0 <= i < front.len() && (#[trigger] front[i]).number == x && front[i].head.name
                        == branch;
                assert(active[i] == front[i]);
            }
            assert(longer[kept.len() as int] == last.number);
            if longer.contains(x) {
                let k = choose|k: int| 0 <= k < longer.len() && longer[k] == x;
                if k < kept.len() {
                    assert(kept[k] == x);
                }
            }
            if exists|i: int|
                0 <= i < active.len() && (#[trigger] active[i]).number == x && active[i].head.name
                    == branch {
                let i = choose|i: int|
                    0 <= i < active.len() && (#[trigger] active[i]).number == x
                        && active[i].head.name == branch;
                if i < n {
                    assert(front[i] == active[i]);
                }
            }
        }
    } else {
        assert forall|x: PrNumber| #[trigger]
            rows::members_on(active, branch).contains(x) <==> exists|i: int|
                0 <= i < active.len() && (#[trigger] active[i]).number == x && active[i].head.name
                    == branch by {}
    }
}

pub(crate) proof fn lemma_parent(
    snapshot: RepositorySnapshotView,
    above: PullRequestSnapshotView,
    pr: PullRequestSnapshotView,
)
    requires
        is_member(snapshot, above),
        is_member(snapshot, pr),
    ensures
        graph::topology_of(snapshot).parent(pr) == Some(above.number) <==> follows(
            snapshot,
            above,
            pr,
        ),
{
    let t = graph::topology_of(snapshot);
    lemma_active(snapshot);
    lemma_on_branch(t.active, pr.base.name);
    lemma_merged_owner(snapshot, pr);
    assert(t.active.contains(above));
    lemma_found_row(t.active, above);
    let on = rows::members_on(t.active, pr.base.name);
    if t.parent(pr) == Some(above.number) {
        assert(on.contains(on[0]));
        let i = choose|i: int|
            0 <= i < t.active.len() && (#[trigger] t.active[i]).number == on[0]
                && t.active[i].head.name == pr.base.name;
        assert(t.active.contains(t.active[i]));
        lemma_same_row(t.active, t.active[i], above);
        assert forall|other: PullRequestSnapshotView| #[trigger]
            is_member(snapshot, other) && other.head.name == above.head.name implies other
            == above by {
            assert(t.active.contains(other));
            let k = choose|k: int| 0 <= k < t.active.len() && t.active[k] == other;
            assert(t.active[k].number == other.number);
            assert(on.contains(other.number));
            let m = choose|m: int| 0 <= m < on.len() && on[m] == other.number;
            assert(m == 0);
            lemma_same_row(t.active, other, above);
        }
    }
    if follows(snapshot, above, pr) {
        let k = choose|k: int| 0 <= k < t.active.len() && t.active[k] == above;
        assert(t.active[k].number == above.number);
        assert(on.contains(above.number));
        let m = choose|m: int| 0 <= m < on.len() && on[m] == above.number;
        assert forall|j: int| 0 <= j < on.len() implies #[trigger] on[j] == above.number by {
            assert(on.contains(on[j]));
            let i = choose|i: int|
                0 <= i < t.active.len() && (#[trigger] t.active[i]).number == on[j]
                    && t.active[i].head.name == pr.base.name;
            assert(t.active.contains(t.active[i]));
            assert(is_member(snapshot, t.active[i]));
        }
        if on.len() > 1 {
            assert(on[0] == on[1]);
        }
    }
}

pub(crate) proof fn lemma_kids(g: LinksView, parent: PrNumber, k: nat)
    requires
        k <= g.numbers.len(),
    ensures
        forall|x: PrNumber| #[trigger]
            g.kids_among(parent, k).contains(x) <==> exists|i: int|
                0 <= i < k && #[trigger] g.numbers[i] == x && g.parents[i] == Some(parent),
    decreases k,
{
    let out = g.kids_among(parent, k);
    if k > 0 {
        let j = (k - 1) as nat;
        lemma_kids(g, parent, j);
        let kept = g.kids_among(parent, j);
        let longer = kept.push(g.numbers[k - 1]);
        assert forall|x: PrNumber| #[trigger] out.contains(x) <==> exists|i: int|
            0 <= i < k && #[trigger] g.numbers[i] == x && g.parents[i] == Some(parent) by {
            assert(kept.contains(x) <==> exists|i: int|
                0 <= i < j && #[trigger] g.numbers[i] == x && g.parents[i] == Some(parent));
            if kept.contains(x) {
                let m = choose|m: int| 0 <= m < kept.len() && kept[m] == x;
                assert(longer[m] == x);
            }
            assert(longer[kept.len() as int] == g.numbers[k - 1]);
            if longer.contains(x) {
                let m = choose|m: int| 0 <= m < longer.len() && longer[m] == x;
                if m < kept.len() {
                    assert(kept[m] == x);
                }
            }
        }
    } else {
        assert forall|x: PrNumber| #[trigger] out.contains(x) <==> exists|i: int|
            0 <= i < k && #[trigger] g.numbers[i] == x && g.parents[i] == Some(parent) by {}
    }
}

/// Every member of a caravan but the first follows the one before it, and no
/// other member follows that one.
pub proof fn lemma_members_follow(
    snapshot: RepositorySnapshotView,
    c: int,
    p: int,
    above: PullRequestSnapshotView,
    pr: PullRequestSnapshotView,
)
    requires
        0 <= c < graph::caravans_of(snapshot).len(),
        0 < p < graph::caravans_of(snapshot)[c].members.len(),
        is_member(snapshot, above),
        is_member(snapshot, pr),
        above.number == graph::caravans_of(snapshot)[c].members[p - 1],
        pr.number == graph::caravans_of(snapshot)[c].members[p],
    ensures
        follows(snapshot, above, pr),
        forall|other: PullRequestSnapshotView| #[trigger]
            follows(snapshot, above, other) ==> other == pr,
{
    let t = graph::topology_of(snapshot);
    let g = graph::links_of(snapshot);
    let members = graph::caravans_of(snapshot)[c].members;
    fleet_laws::lemma_members_are_linked(snapshot, c);
    lemma_active(snapshot);
    lemma_kids(g, above.number, g.numbers.len());
    assert(g.kids(members[p - 1]) == seq![members[p - 1 + 1]]);
    let kids = g.kids(above.number);
    assert(kids[0] == pr.number);
    assert(kids.contains(pr.number));
    let i = choose|i: int|
        0 <= i < g.numbers.len() && #[trigger] g.numbers[i] == pr.number && g.parents[i] == Some(
            above.number,
        );
    assert(t.active.contains(t.active[i]));
    assert(t.active.contains(pr));
    lemma_same_row(t.active, t.active[i], pr);
    lemma_parent(snapshot, above, pr);
    assert forall|other: PullRequestSnapshotView| #[trigger]
        follows(snapshot, above, other) implies other == pr by {
        lemma_parent(snapshot, above, other);
        assert(t.active.contains(other));
        let k = choose|k: int| 0 <= k < t.active.len() && t.active[k] == other;
        assert(g.numbers[k] == other.number);
        assert(g.parents[k] == Some(above.number));
        assert(kids.contains(other.number));
        let m = choose|m: int| 0 <= m < kids.len() && kids[m] == other.number;
        assert(m == 0);
        lemma_same_row(t.active, other, pr);
    }
}

proof fn lemma_link_problem_is_listed(t: TopologyView, k: nat, i: int)
    requires
        0 <= i < k <= t.active.len(),
        t.link_problem(t.active[i]) is Some,
    ensures
        exists|m: int|
            0 <= m < t.link_problems(k).len() && #[trigger] t.link_problems(k)[m]
                == t.link_problem(t.active[i])->0,
    decreases k,
{
    let j = (k - 1) as nat;
    let kept = t.link_problems(j);
    if i < j {
        lemma_link_problem_is_listed(t, j, i);
        let m = choose|m: int| 0 <= m < kept.len() && #[trigger] kept[m]
            == t.link_problem(t.active[i])->0;
        assert(t.link_problems(k)[m] == kept[m]);
    } else {
        assert(t.link_problems(k)[kept.len() as int] == t.link_problem(t.active[i])->0);
    }
}

/// A problem of one of these kinds names the pull request first.
pub open spec fn unplaced(problem: GraphProblemView, x: PrNumber) -> bool {
    &&& problem.kind == GraphProblemKind::DanglingBase || problem.kind
        == GraphProblemKind::MultipleHeads || problem.kind
        == GraphProblemKind::ReusedBranchProvenance
    &&& problem.prs.len() > 0
    &&& problem.prs[0] == x
}

/// A member that targets another branch than the default one and follows no
/// member is reported.
pub proof fn lemma_stranded_member_is_reported(
    snapshot: RepositorySnapshotView,
    actor: HeadMergeActor,
    pr: PullRequestSnapshotView,
)
    requires
        is_member(snapshot, pr),
        pr.base.name != snapshot.default_branch.name,
        forall|above: PullRequestSnapshotView| !#[trigger] follows(snapshot, above, pr),
    ensures
        exists|i: int|
            0 <= i < graph::derived(snapshot, actor).fleet.problems.len() && unplaced(
                #[trigger] graph::derived(snapshot, actor).fleet.problems[i],
                pr.number,
            ),
{
    let t = graph::topology_of(snapshot);
    let g = graph::links_of(snapshot);
    lemma_active(snapshot);
    assert(t.active.contains(pr));
    let k = choose|k: int| 0 <= k < t.active.len() && t.active[k] == pr;
    if t.parent(pr) is Some {
        let on = rows::members_on(t.active, pr.base.name);
        lemma_on_branch(t.active, pr.base.name);
        assert(on.contains(on[0]));
        let i = choose|i: int|
            0 <= i < t.active.len() && (#[trigger] t.active[i]).number == on[0]
                && t.active[i].head.name == pr.base.name;
        assert(t.active.contains(t.active[i]));
        lemma_parent(snapshot, t.active[i], pr);
        assert(follows(snapshot, t.active[i], pr));
    }
    let link = t.link_problem(pr);
    assert(link is Some);
    let problem = link->0;
    assert(unplaced(problem, pr.number));
    lemma_link_problem_is_listed(t, t.active.len(), k);
    let list = t.link_problems(t.active.len());
    let m = choose|m: int| 0 <= m < list.len() && #[trigger] list[m] == problem;
    let first = rows::repeated_problems(snapshot.pull_requests) + rows::label_problems(t.rows)
        + rows::fork_problems(t.active, snapshot.repository) + rows::shared_head_problems(
        t.active,
        model::label_set(rows::head_names(t.active)),
    );
    let problems = graph::derived(snapshot, actor).fleet.problems;
    assert(problems[first.len() + m] == problem);
    assert(unplaced(problems[first.len() + m], pr.number));
}

/// Where nothing is reported of a head that is missing or stranded, every
/// caravan starts at a member that targets the default branch.
pub proof fn lemma_heads_target_the_default(
    snapshot: RepositorySnapshotView,
    actor: HeadMergeActor,
    c: int,
    head: PullRequestSnapshotView,
)
    requires
        0 <= c < graph::caravans_of(snapshot).len(),
        is_member(snapshot, head),
        head.number == graph::caravans_of(snapshot)[c].members[0],
        forall|i: int|
            0 <= i < graph::problems_of(snapshot, actor).len() ==> {
                let kind = (#[trigger] graph::problems_of(snapshot, actor)[i]).kind;
                kind != GraphProblemKind::MissingHead && kind != GraphProblemKind::DanglingBase
                    && kind != GraphProblemKind::MultipleHeads && kind
                    != GraphProblemKind::ReusedBranchProvenance
            },
    ensures
        head.base.name == snapshot.default_branch.name,
{
    let t = graph::topology_of(snapshot);
    let g = graph::links_of(snapshot);
    lemma_active(snapshot);
    laws::lemma_caravans_partition(snapshot);
    fleet_laws::lemma_heads_are_roots(snapshot, actor, c);
    let k = choose|k: int|
        0 <= k < g.numbers.len() && #[trigger] g.numbers[k] == head.number && g.parents[k] is None;
    assert(t.active.contains(t.active[k]));
    assert(t.active.contains(head));
    lemma_same_row(t.active, t.active[k], head);
    if head.base.name != snapshot.default_branch.name {
        assert forall|above: PullRequestSnapshotView| !#[trigger] follows(
            snapshot,
            above,
            head,
        ) by {
            if follows(snapshot, above, head) {
                lemma_parent(snapshot, above, head);
            }
        }
        lemma_stranded_member_is_reported(snapshot, actor, head);
    }
}

// ---------------------------------------------------------------------------
// Health
// ---------------------------------------------------------------------------

proof fn lemma_containing(caravans: Seq<CaravanView>, x: PrNumber)
    ensures
        model::containing_caravan(caravans, x) matches Some(at) ==> 0 <= at < caravans.len()
            && caravans[at].members.contains(x),
        model::containing_caravan(caravans, x) is None ==> forall|c: int|
            0 <= c < caravans.len() ==> !(#[trigger] caravans[c]).members.contains(x),
    decreases caravans.len(),
{
    if caravans.len() > 0 {
        let front = caravans.drop_last();
        lemma_containing(front, x);
        if model::containing_caravan(caravans, x) is None {
            assert forall|c: int| 0 <= c < caravans.len() implies !(
            #[trigger] caravans[c]).members.contains(x) by {
                if c < front.len() {
                    assert(front[c] == caravans[c]);
                }
            }
        }
    }
}

/// A pull request of the problem stands in a caravan that is parked, or not, as
/// asked.
pub open spec fn lies_in(
    caravans: Seq<CaravanView>,
    problem: GraphProblemView,
    parked: bool,
) -> bool {
    exists|i: int, c: int|
        0 <= i < problem.prs.len() && 0 <= c < caravans.len() && (
        #[trigger] caravans[c]).members.contains(#[trigger] problem.prs[i]) && caravans[c].parked
            == parked
}

proof fn lemma_touches(caravans: Seq<CaravanView>, problem: GraphProblemView, parked: bool)
    requires
        forall|c: int, d: int, x: PrNumber|
            0 <= c < caravans.len() && 0 <= d < caravans.len()
                && #[trigger] caravans[c].members.contains(x)
                && #[trigger] caravans[d].members.contains(x) ==> c == d,
    ensures
        graph::touches(caravans, problem.prs, parked) == lies_in(caravans, problem, parked),
{
    if graph::touches(caravans, problem.prs, parked) {
        let i = choose|i: int|
            0 <= i < problem.prs.len() && match model::containing_caravan(
                caravans,
                #[trigger] problem.prs[i],
            ) {
                Some(at) => caravans[at].parked == parked,
                None => false,
            };
        lemma_containing(caravans, problem.prs[i]);
        let c = model::containing_caravan(caravans, problem.prs[i])->0;
        assert(caravans[c].members.contains(problem.prs[i]));
    }
    if lies_in(caravans, problem, parked) {
        let (i, c) = choose|i: int, c: int|
            0 <= i < problem.prs.len() && 0 <= c < caravans.len() && (
            #[trigger] caravans[c]).members.contains(#[trigger] problem.prs[i])
                && caravans[c].parked == parked;
        lemma_containing(caravans, problem.prs[i]);
        let at = model::containing_caravan(caravans, problem.prs[i])->0;
        assert(caravans[at].members.contains(problem.prs[i]));
        assert(at == c);
    }
}

/// A fleet is healthy exactly where every problem is mere advice, on a candidate
/// or a dissolved caravan, or lies in parked caravans alone.
pub proof fn lemma_healthy_exactly(analysis: graph::GraphAnalysisView)
    requires
        forall|c: int, d: int, x: PrNumber|
            0 <= c < analysis.fleet.caravans.len() && 0 <= d < analysis.fleet.caravans.len()
                && #[trigger] analysis.fleet.caravans[c].members.contains(x)
                && #[trigger] analysis.fleet.caravans[d].members.contains(x) ==> c == d,
    ensures
        analysis.is_healthy() <==> forall|i: int|
            0 <= i < analysis.fleet.problems.len() ==> {
                let problem = #[trigger] analysis.fleet.problems[i];
                ||| problem.kind == GraphProblemKind::CandidateIncompatible
                ||| problem.kind == GraphProblemKind::DissolvedMember
                ||| lies_in(analysis.fleet.caravans, problem, true) && !lies_in(
                    analysis.fleet.caravans,
                    problem,
                    false,
                )
            },
{
    let caravans = analysis.fleet.caravans;
    assert forall|i: int| 0 <= i < analysis.fleet.problems.len() implies !analysis.blocks(
        #[trigger] analysis.fleet.problems[i],
    ) == {
        let problem = analysis.fleet.problems[i];
        ||| problem.kind == GraphProblemKind::CandidateIncompatible
        ||| problem.kind == GraphProblemKind::DissolvedMember
        ||| lies_in(caravans, problem, true) && !lies_in(caravans, problem, false)
    } by {
        lemma_touches(caravans, analysis.fleet.problems[i], true);
        lemma_touches(caravans, analysis.fleet.problems[i], false);
    }
}

} // verus!
