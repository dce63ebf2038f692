//! Which branches an analysis prepares, what a checker still misses and what the
//! cache of revisions keeps, over the branches and rows themselves.

use vstd::prelude::*;
use crate::graph::analyze;
use crate::graph::prepared;
use crate::graph::prepared::{
    GitCompatibilityCheckerView, PreparedRevisionKeyView, PreparedRevisionView, Revisions,
};
use crate::graph::rows;
use crate::graph::tasks;
use crate::graph::tasks::SamplesView;
use crate::graph::GraphAnalysisView;
use crate::model::{BranchSnapshotView, CaravanView, PrNumber, PullRequestSnapshotView};

verus! {

// ---------------------------------------------------------------------------
// Needed branches
// ---------------------------------------------------------------------------

/// Some of the branches is at this commit under this name.
pub open spec fn has_revision(branches: Seq<BranchSnapshotView>, branch: BranchSnapshotView) -> bool {
    exists|i: int|
        0 <= i < branches.len() && (#[trigger] branches[i]).name == branch.name
            && branches[i].oid == branch.oid
}

proof fn lemma_inserted(sorted: Seq<BranchSnapshotView>, branch: BranchSnapshotView)
    ensures
        forall|x: BranchSnapshotView| #[trigger]
            has_revision(analyze::branch_insert(sorted, branch), x) <==> has_revision(sorted, x)
                || (x.name == branch.name && x.oid == branch.oid),
        forall|i: int|
            0 <= i < analyze::branch_insert(sorted, branch).len() ==> sorted.contains(
                #[trigger] analyze::branch_insert(sorted, branch)[i],
            ) || analyze::branch_insert(sorted, branch)[i] == branch,
{
    let out = analyze::branch_insert(sorted, branch);
    if exists|i: int|
        0 <= i < sorted.len() && analyze::same_revision(#[trigger] sorted[i], branch) {
        let at = choose|i: int|
            0 <= i < sorted.len() && analyze::same_revision(#[trigger] sorted[i], branch);
        assert forall|x: BranchSnapshotView| #[trigger] has_revision(out, x) <==> has_revision(
            sorted,
            x,
        ) || (x.name == branch.name && x.oid == branch.oid) by {
            if x.name == branch.name && x.oid == branch.oid {
                assert(sorted[at].name == x.name);
            }
        }
        assert forall|i: int| 0 <= i < out.len() implies sorted.contains(#[trigger] out[i]) by {
            assert(sorted[i] == out[i]);
        }
    } else {
        let at = analyze::branch_position(sorted, branch);
        lemma_position(sorted, branch);
        assert(out[at] == branch);
        assert forall|i: int| 0 <= i < out.len() implies sorted.contains(#[trigger] out[i])
            || out[i] == branch by {
            if i < at {
                assert(out[i] == sorted[i]);
            } else if i > at {
                assert(out[i] == sorted[i - 1]);
            }
        }
        assert forall|x: BranchSnapshotView| #[trigger] has_revision(out, x) <==> has_revision(
            sorted,
            x,
        ) || (x.name == branch.name && x.oid == branch.oid) by {
            if has_revision(sorted, x) {
                let i = choose|i: int|
                    0 <= i < sorted.len() && (#[trigger] sorted[i]).name == x.name && sorted[i].oid
                        == x.oid;
                if i < at {
                    assert(out[i] == sorted[i]);
                } else {
                    assert(out[i + 1] == sorted[i]);
                }
            }
            if has_revision(out, x) {
                let i = choose|i: int|
                    0 <= i < out.len() && (#[trigger] out[i]).name == x.name && out[i].oid == x.oid;
                if i < at {
                    assert(sorted[i] == out[i]);
                } else if i > at {
                    assert(sorted[i - 1] == out[i]);
                }
            }
        }
    }
}

proof fn lemma_position(sorted: Seq<BranchSnapshotView>, branch: BranchSnapshotView)
    ensures
        0 <= analyze::branch_position(sorted, branch) <= sorted.len(),
    decreases sorted.len(),
{
    if sorted.len() > 0 {
        lemma_position(sorted.drop_last(), branch);
    }
}

proof fn lemma_set(branches: Seq<BranchSnapshotView>)
    ensures
        forall|x: BranchSnapshotView| #[trigger]
            has_revision(analyze::branch_set(branches), x) <==> has_revision(branches, x),
        forall|i: int|
            0 <= i < analyze::branch_set(branches).len() ==> branches.contains(
                #[trigger] analyze::branch_set(branches)[i],
            ),
    decreases branches.len(),
{
    if branches.len() > 0 {
        let front = branches.drop_last();
        let last = branches.last();
        lemma_set(front);
        lemma_inserted(analyze::branch_set(front), last);
        let out = analyze::branch_set(branches);
        assert(branches[branches.len() - 1] == last);
        assert forall|i: int| 0 <= i < front.len() implies #[trigger] branches[i] == front[i] by {}
        assert forall|x: BranchSnapshotView| #[trigger] has_revision(out, x) <==> has_revision(
            branches,
            x,
        ) by {
            assert(has_revision(analyze::branch_set(front), x) <==> has_revision(front, x));
            if has_revision(front, x) {
                let i = choose|i: int|
                    0 <= i < front.len() && (#[trigger] front[i]).name == x.name && front[i].oid
                        == x.oid;
                assert(branches[i].name == x.name);
            }
            if has_revision(branches, x) {
                let i = choose|i: int|
                    0 <= i < branches.len() && (#[trigger] branches[i]).name == x.name
                        && branches[i].oid == x.oid;
                if i < front.len() {
                    assert(front[i].name == x.name);
                }
            }
        }
        assert forall|i: int| 0 <= i < out.len() implies branches.contains(#[trigger] out[i]) by {
            if analyze::branch_set(front).contains(out[i]) {
                let k = choose|k: int|
                    0 <= k < analyze::branch_set(front).len() && analyze::branch_set(front)[k]
                        == out[i];
                assert(front.contains(analyze::branch_set(front)[k]));
                let j = choose|j: int| 0 <= j < front.len() && front[j] == out[i];
                assert(branches[j] == out[i]);
            }
        }
    } else {
        assert forall|x: BranchSnapshotView| #[trigger]
            has_revision(analyze::branch_set(branches), x) <==> has_revision(branches, x) by {}
    }
}

/// The head of some member of some caravan.
pub open spec fn is_member_head(analysis: GraphAnalysisView, head: BranchSnapshotView) -> bool {
    exists|c: int, m: int|
        0 <= c < analysis.fleet.caravans.len() && 0 <= m < analysis.fleet.caravans[c].members.len()
            && (rows::row_of(
            analysis.pull_requests,
            #[trigger] analysis.fleet.caravans[c].members[m],
        ) matches Some(pr) && pr.head == head)
}

proof fn lemma_member_heads(all: Seq<PullRequestSnapshotView>, members: Seq<PrNumber>)
    ensures
        forall|head: BranchSnapshotView| #[trigger]
            analyze::member_heads(all, members).contains(head) <==> exists|m: int|
                0 <= m < members.len() && (rows::row_of(all, #[trigger] members[m]) matches Some(pr)
                    && pr.head == head),
    decreases members.len(),
{
    if members.len() > 0 {
        let front = members.drop_last();
        lemma_member_heads(all, front);
        let kept = analyze::member_heads(all, front);
        let out = analyze::member_heads(all, members);
        assert(members[members.len() - 1] == members.last());
        assert forall|head: BranchSnapshotView| #[trigger] out.contains(head) <==> exists|m: int|
            0 <= m < members.len() && (rows::row_of(all, #[trigger] members[m]) matches Some(pr)
                && pr.head == head) by {
            assert(kept.contains(head) <==> exists|m: int|
                0 <= m < front.len() && (rows::row_of(all, #[trigger] front[m]) matches Some(pr)
                    && pr.head == head));
            if out.contains(head) {
                let k = choose|k: int| 0 <= k < out.len() && out[k] == head;
                if k < kept.len() {
                    assert(kept[k] == head);
                    let m = choose|m: int|
                        0 <= m < front.len() && (rows::row_of(
                            all,
                            #[trigger] front[m],
                        ) matches Some(pr) && pr.head == head);
                    assert(members[m] == front[m]);
                }
            }
            if exists|m: int|
                0 <= m < members.len() && (rows::row_of(all, #[trigger] members[m]) matches Some(pr)
                    && pr.head == head) {
                let m = choose|m: int|
                    0 <= m < members.len() && (rows::row_of(
                        all,
                        #[trigger] members[m],
                    ) matches Some(pr) && pr.head == head);
                if m < front.len() {
                    assert(front[m] == members[m]);
                    let k = choose|k: int| 0 <= k < kept.len() && kept[k] == head;
                    assert(out[k] == head);
                } else {
                    assert(out[out.len() - 1] == head);
                }
            }
        }
    } else {
        assert forall|head: BranchSnapshotView| #[trigger]
            analyze::member_heads(all, members).contains(head) <==> exists|m: int|
                0 <= m < members.len() && (rows::row_of(all, #[trigger] members[m]) matches Some(pr)
                    && pr.head == head) by {}
    }
}

/// The caravan has a member with this head.
pub open spec fn has_head(
    all: Seq<PullRequestSnapshotView>,
    caravan: CaravanView,
    head: BranchSnapshotView,
) -> bool {
    exists|m: int|
        0 <= m < caravan.members.len() && (rows::row_of(
            all,
            #[trigger] caravan.members[m],
        ) matches Some(pr) && pr.head == head)
}

proof fn lemma_fleet_heads(all: Seq<PullRequestSnapshotView>, caravans: Seq<CaravanView>)
    ensures
        forall|head: BranchSnapshotView| #[trigger]
            analyze::fleet_heads(all, caravans).contains(head) <==> exists|c: int|
                0 <= c < caravans.len() && has_head(all, #[trigger] caravans[c], head),
    decreases caravans.len(),
{
    if caravans.len() > 0 {
        let front = caravans.drop_last();
        lemma_fleet_heads(all, front);
        lemma_member_heads(all, caravans.last().members);
        let a = analyze::fleet_heads(all, front);
        let b = analyze::member_heads(all, caravans.last().members);
        let out = a + b;
        assert(caravans[caravans.len() - 1] == caravans.last());
        assert forall|head: BranchSnapshotView| #[trigger]
            analyze::fleet_heads(all, caravans).contains(head) <==> exists|c: int|
                0 <= c < caravans.len() && has_head(all, #[trigger] caravans[c], head) by {
            assert(analyze::fleet_heads(all, caravans) == out);
            assert(a.contains(head) <==> exists|c: int|
                0 <= c < front.len() && has_head(all, #[trigger] front[c], head));
            assert(b.contains(head) <==> has_head(all, caravans.last(), head));
            if out.contains(head) {
                let k = choose|k: int| 0 <= k < out.len() && out[k] == head;
                if k < a.len() {
                    assert(a[k] == head);
                    let c = choose|c: int|
                        0 <= c < front.len() && has_head(all, #[trigger] front[c], head);
                    assert(caravans[c] == front[c]);
                } else {
                    assert(b[k - a.len()] == head);
                }
            }
            if exists|c: int| 0 <= c < caravans.len() && has_head(
                all,
                #[trigger] caravans[c],
                head,
            ) {
                let c = choose|c: int|
                    0 <= c < caravans.len() && has_head(all, #[trigger] caravans[c], head);
                if c < front.len() {
                    assert(front[c] == caravans[c]);
                    let k = choose|k: int| 0 <= k < a.len() && a[k] == head;
                    assert(out[k] == head);
                } else {
                    let k = choose|k: int| 0 <= k < b.len() && b[k] == head;
                    assert(out[a.len() + k] == head);
                }
            }
        }
    } else {
        assert forall|head: BranchSnapshotView| #[trigger]
            analyze::fleet_heads(all, caravans).contains(head) <==> exists|c: int|
                0 <= c < caravans.len() && has_head(all, #[trigger] caravans[c], head) by {}
    }
}

/// An analysis prepares the default branch and the head of every member, at
/// their commits, and nothing else.
pub proof fn lemma_heads_are_prepared(
    analysis: GraphAnalysisView,
    default_branch: BranchSnapshotView,
)
    ensures
        has_revision(analyze::needed_branches(analysis, default_branch), default_branch),
        forall|c: int, m: int|
            0 <= c < analysis.fleet.caravans.len() && 0 <= m
                < analysis.fleet.caravans[c].members.len() && rows::row_of(
                analysis.pull_requests,
                #[trigger] analysis.fleet.caravans[c].members[m],
            ) is Some ==> has_revision(
                analyze::needed_branches(analysis, default_branch),
                rows::row_of(
                    analysis.pull_requests,
                    analysis.fleet.caravans[c].members[m],
                )->0.head,
            ),
        forall|i: int|
            0 <= i < analyze::needed_branches(analysis, default_branch).len() ==> {
                let branch = #[trigger] analyze::needed_branches(analysis, default_branch)[i];
                branch == default_branch || is_member_head(analysis, branch)
            },
{
    let all = analysis.pull_requests;
    let caravans = analysis.fleet.caravans;
    let heads = analyze::fleet_heads(all, caravans);
    let wanted = seq![default_branch] + heads;
    lemma_set(wanted);
    lemma_fleet_heads(all, caravans);
    let needed = analyze::needed_branches(analysis, default_branch);
    assert(wanted[0] == default_branch);
    assert(has_revision(wanted, default_branch));
    assert forall|c: int, m: int|
        0 <= c < caravans.len() && 0 <= m < caravans[c].members.len() && rows::row_of(
            all,
            #[trigger] caravans[c].members[m],
        ) is Some implies has_revision(
        needed,
        rows::row_of(all, caravans[c].members[m])->0.head,
    ) by {
        let head = rows::row_of(all, caravans[c].members[m])->0.head;
        assert(has_head(all, caravans[c], head));
        assert(heads.contains(head));
        let k = choose|k: int| 0 <= k < heads.len() && heads[k] == head;
        assert(wanted[1 + k] == head);
        assert(has_revision(wanted, head));
    }
    assert forall|i: int| 0 <= i < needed.len() implies {
        let branch = #[trigger] needed[i];
        branch == default_branch || is_member_head(analysis, branch)
    } by {
        let branch = needed[i];
        assert(wanted.contains(branch));
        let k = choose|k: int| 0 <= k < wanted.len() && wanted[k] == branch;
        if k > 0 {
            assert(heads[k - 1] == branch);
            assert(heads.contains(branch));
            let c = choose|c: int|
                0 <= c < caravans.len() && has_head(all, #[trigger] caravans[c], branch);
            let m = choose|m: int|
                0 <= m < caravans[c].members.len() && (rows::row_of(
                    all,
                    #[trigger] caravans[c].members[m],
                ) matches Some(pr) && pr.head == branch);
            assert(rows::row_of(all, caravans[c].members[m])->0.head == branch);
        }
    }
}

// ---------------------------------------------------------------------------
// Samples
// ---------------------------------------------------------------------------

/// Of the names that are told, the first sixty-four are kept in order, and the
/// others are counted.
pub proof fn lemma_first_names_are_kept(names: Seq<Seq<char>>)
    requires
        names.len() <= usize::MAX,
    ensures
        ({
            let samples = tasks::sample_all(
                SamplesView { kept: Seq::empty(), truncated: 0 },
                names,
            );
            &&& samples.kept.len() + samples.truncated == names.len()
            &&& samples.kept.len() <= 64
            &&& samples.truncated > 0 ==> samples.kept.len() == 64
            &&& forall|i: int| 0 <= i < samples.kept.len() ==> #[trigger] samples.kept[i] == names[i]
        }),
    decreases names.len(),
{
    if names.len() > 0 {
        lemma_first_names_are_kept(names.drop_last());
    }
}

// ---------------------------------------------------------------------------
// Revisions
// ---------------------------------------------------------------------------

/// A checker still misses exactly the branches that it holds no revision of,
/// under their name and at their commit; in order.
pub proof fn lemma_missing_branches(
    checker: GitCompatibilityCheckerView,
    branches: Seq<BranchSnapshotView>,
)
    ensures
        prepared::unprepared(checker, branches) == branches.filter(
            |branch: BranchSnapshotView|
                !checker.prepared.dom().contains((branch.name, branch.oid)),
        ),
    decreases branches.len(),
{
    reveal(Seq::filter);
    if branches.len() > 0 {
        lemma_missing_branches(checker, branches.drop_last());
    }
}

/// Two checkers share a revision only where local repository, remote, provider
/// repository, branch and commit are the same.
pub proof fn lemma_identity_tells_everything(
    a: GitCompatibilityCheckerView,
    b: GitCompatibilityCheckerView,
    x: BranchSnapshotView,
    y: BranchSnapshotView,
)
    ensures
        a.identity(x) == b.identity(y) <==> {
            &&& a.repository == b.repository
            &&& a.remote == b.remote
            &&& x.repository == y.repository
            &&& x.name == y.name
            &&& x.oid == y.oid
        },
{
}

/// A revision may be reused for ten minutes, counted in nanoseconds, and not
/// longer.
pub proof fn lemma_reused_for_ten_minutes(
    revisions: Revisions,
    now: u64,
    key: PreparedRevisionKeyView,
)
    ensures
        prepared::fresh(revisions, now).dom().contains(key) <==> revisions.dom().contains(key)
            && now - revisions[key].inserted <= 10 * 60 * 1_000_000_000,
{
}

/// Keeping a revision holds it, and lets nothing else go while there are fewer
/// than four thousand and ninety-six or its key is there; otherwise just one
/// goes, and none that stays was kept earlier.
pub proof fn lemma_room_is_made_by_age(
    before: Revisions,
    key: PreparedRevisionKeyView,
    revision: PreparedRevisionView,
    after: Revisions,
)
    requires
        prepared::kept(before, key, revision, after),
    ensures
        after.dom().contains(key),
        after[key] == revision,
        before.len() < 4096 || before.dom().contains(key) ==> forall|other: PreparedRevisionKeyView|
            other != key && #[trigger] before.dom().contains(other) ==> after.dom().contains(other)
                && after[other] == before[other],
        before.len() >= 4096 && !before.dom().contains(key) ==> exists|
            gone: PreparedRevisionKeyView,
        |
            #[trigger] before.dom().contains(gone) && !after.dom().contains(gone) && forall|
                other: PreparedRevisionKeyView,
            |
                other != gone && #[trigger] before.dom().contains(other) ==> after.dom().contains(
                    other,
                ) && after[other] == before[other] && before[gone].inserted
                    <= before[other].inserted,
        forall|other: PreparedRevisionKeyView|
            other != key && #[trigger] after.dom().contains(other) ==> before.dom().contains(other)
                && after[other] == before[other],
{
    if !(before.dom().contains(key) || before.len() < prepared::MAX_PREPARED_REVISIONS) {
        let gone = choose|gone: PreparedRevisionKeyView| #[trigger]
            prepared::is_oldest(before, gone) && after == before.remove(gone).insert(key, revision);
        assert(before.dom().contains(gone) && !after.dom().contains(gone));
    }
}

} // verus!
