//! How the past of a branch is mapped, over the rows that were read.

use vstd::prelude::*;
use crate::github::history;
use crate::github::history::{BaseHistoryPullView, StepView};
use crate::github::mutation_laws;
use crate::github::mutation_laws::is_document;
use crate::github::provider::DiscoveryErrorView;
use crate::github::raw::PullRequestJsonView;
use crate::model::{
    PrNumber, PullRequestGenerationFactView, PullRequestSnapshotView, PullRequestState,
    RepositoryIdView,
};

verus! {

// ---------------------------------------------------------------------------
// Rows
// ---------------------------------------------------------------------------

/// Documents become pull requests one for one, in order, each as its document
/// says; and each gives one generation fact.
pub proof fn lemma_rows_are_read_in_order(
    rows: Seq<PullRequestJsonView>,
    repository: RepositoryIdView,
)
    ensures
        history::both_of(rows, repository) matches Ok((prs, facts)) ==> {
            &&& prs.len() == rows.len()
            &&& facts.len() == rows.len()
            &&& forall|i: int|
                0 <= i < rows.len() ==> is_document(#[trigger] rows[i], prs[i], repository)
            &&& forall|i: int|
                0 <= i < rows.len() ==> {
                    let fact: PullRequestGenerationFactView = #[trigger] facts[i];
                    fact.pr.0 == rows[i].number && fact.head_oid == rows[i].head_ref_oid
                        && fact.head_ref == rows[i].head_ref_name && fact.body == rows[i].body
                }
        },
{
    if history::snapshots_of(rows, repository) is Ok {
        lemma_snapshots(rows, repository);
    }
}

proof fn lemma_snapshots(rows: Seq<PullRequestJsonView>, repository: RepositoryIdView)
    requires
        history::snapshots_of(rows, repository) is Ok,
    ensures
        history::snapshots_of(rows, repository)->Ok_0.len() == rows.len(),
        forall|i: int|
            0 <= i < rows.len() ==> is_document(
                #[trigger] rows[i],
                history::snapshots_of(rows, repository)->Ok_0[i],
                repository,
            ),
    decreases rows.len(),
{
    if rows.len() > 0 {
        let front = rows.drop_last();
        lemma_snapshots(front, repository);
        mutation_laws::lemma_snapshot_is_its_document(rows.last(), repository);
        let below = history::snapshots_of(front, repository)->Ok_0;
        let list = history::snapshots_of(rows, repository)->Ok_0;
        assert forall|i: int| 0 <= i < rows.len() implies is_document(
            #[trigger] rows[i],
            list[i],
            repository,
        ) by {
            if i < front.len() {
                assert(front[i] == rows[i]);
                assert(list[i] == below[i]);
            }
        }
    }
}

// ---------------------------------------------------------------------------
// Heads
// ---------------------------------------------------------------------------

/// A merged pull request stands for its branch only where the branch is at its
/// head commit, here and at the provider.
pub proof fn lemma_past_head_is_unmoved(
    branch: Seq<char>,
    historical: PullRequestSnapshotView,
    local: Seq<char>,
    remote: Seq<char>,
)
    ensures
        history::still_there(branch, historical, Ok((local, Ok(remote)))) is Ok <==> local
            == historical.head.oid && remote == historical.head.oid,
        forall|error: DiscoveryErrorView|
            (#[trigger] history::still_there(branch, historical, Ok((local, Err(error))))) is Err,
        forall|error: DiscoveryErrorView|
            (#[trigger] history::still_there(branch, historical, Err(error))) is Err,
{
}

/// A branch counts as used anew only where it is at the same commit here and at
/// the provider, and that is not the head of the merged pull request. That commit
/// is handed on.
pub proof fn lemma_reused_head_has_moved(
    branch: Seq<char>,
    historical: PullRequestSnapshotView,
    local: Seq<char>,
    remote: Seq<char>,
)
    ensures
        history::published(branch, historical, Ok((local, Ok(remote)))) is Ok <==> local == remote
            && local != historical.head.oid,
        history::published(branch, historical, Ok((local, Ok(remote)))) matches Ok(oid) ==> oid
            == local,
        forall|error: DiscoveryErrorView|
            (#[trigger] history::published(branch, historical, Ok((local, Err(error))))) is Err,
{
}

/// The open pull request of a branch is taken only where its head, the branch
/// here and the branch at the provider are all at the same commit, and no other
/// pull request of the branch was a member or evicted.
pub proof fn lemma_open_reuse_is_exact(
    label: Seq<char>,
    branch: Seq<char>,
    past: Seq<PullRequestSnapshotView>,
    current: PullRequestSnapshotView,
    local: Seq<char>,
    remote: Seq<char>,
)
    ensures
        history::reuse_of(label, branch, past, current, Ok((local, Ok(remote)))) is Ok <==> {
            &&& current.head.oid == local
            &&& remote == local
            &&& forall|i: int|
                0 <= i < past.len() && (#[trigger] past[i]).number != current.number
                    ==> !past[i].labels.contains(label) && !past[i].labels.contains(
                    "caravan-evicted"@,
                )
        },
        history::reuse_of(label, branch, past, current, Ok((local, Ok(remote)))) matches Ok(taken)
            ==> taken == Some(current),
{
    if history::other_member(past, current.number, label) {
        let i = choose|i: int|
            0 <= i < past.len() && (#[trigger] past[i]).number != current.number && (
            past[i].has_label(label) || past[i].has_label("caravan-evicted"@));
        assert(past[i].number != current.number);
    } else {
        assert forall|i: int|
            0 <= i < past.len() && (#[trigger] past[i]).number
                != current.number implies !past[i].labels.contains(label)
            && !past[i].labels.contains("caravan-evicted"@) by {
            assert(!past[i].has_label(label) && !past[i].has_label("caravan-evicted"@));
        }
    }
}

// ---------------------------------------------------------------------------
// Successors
// ---------------------------------------------------------------------------

/// A member of the repository that targets this branch and is not the one that
/// is followed.
pub open spec fn targets(
    pr: PullRequestSnapshotView,
    label: Seq<char>,
    repository: RepositoryIdView,
    current: PrNumber,
    branch: Seq<char>,
) -> bool {
    &&& pr.number != current
    &&& pr.labels.contains(label)
    &&& pr.head.repository == repository
    &&& !pr.cross_repository
    &&& pr.base.name == branch
}

proof fn lemma_direct(
    prs: Seq<PullRequestSnapshotView>,
    label: Seq<char>,
    repository: RepositoryIdView,
    current: PrNumber,
    name: Seq<char>,
)
    ensures
        history::successors(prs, label, repository, current, name, None) == prs.filter(
            |pr: PullRequestSnapshotView| targets(pr, label, repository, current, name),
        ),
    decreases prs.len(),
{
    reveal(Seq::filter);
    if prs.len() > 0 {
        lemma_direct(prs.drop_last(), label, repository, current, name);
    }
}

/// Where members target the branch that is followed, they alone decide: several
/// are refused; a single one is found where it is open, not evicted and a
/// caravan member, is followed on where it is merged, and is refused otherwise.
/// Former bases matter only where no member targets the branch.
pub proof fn lemma_targeting_members_decide(
    label: Seq<char>,
    repository: RepositoryIdView,
    branch: Seq<char>,
    historical: PullRequestSnapshotView,
    prs: Seq<PullRequestSnapshotView>,
    current: PrNumber,
    rows: Option<Seq<(Seq<char>, BaseHistoryPullView)>>,
)
    ensures
        ({
            let name = history::branch_of(prs, historical, current);
            let found = prs.filter(
                |pr: PullRequestSnapshotView| targets(pr, label, repository, current, name),
            );
            let step = history::step_from(
                label,
                repository,
                branch,
                historical,
                prs,
                current,
                rows,
            );
            &&& found.len() > 1 ==> step is Refused
            &&& found.len() == 1 ==> {
                let pr = found[0];
                &&& pr.state == PullRequestState::Merged ==> step == StepView::Next(pr.number)
                &&& pr.state == PullRequestState::Open && pr.labels.contains("caravan"@)
                    && !pr.labels.contains("caravan-evicted"@) ==> step == StepView::Found(
                    Some(pr.number),
                )
                &&& pr.state == PullRequestState::Closed ==> step is Refused
                &&& pr.state == PullRequestState::Open && (!pr.labels.contains("caravan"@)
                    || pr.labels.contains("caravan-evicted"@)) ==> step is Refused
            }
            &&& found.len() == 0 && rows is None <==> step == StepView::NeedHistory(current)
        }),
{
    let name = history::branch_of(prs, historical, current);
    lemma_direct(prs, label, repository, current, name);
}

/// The branch that is followed is the head of the first row of that number, or
/// that of the merged pull request where there is no such row.
pub proof fn lemma_followed_branch(
    prs: Seq<PullRequestSnapshotView>,
    historical: PullRequestSnapshotView,
    current: PrNumber,
)
    ensures
        (forall|i: int| 0 <= i < prs.len() ==> (#[trigger] prs[i]).number != current)
            ==> history::branch_of(prs, historical, current) == historical.head.name,
        forall|i: int|
            0 <= i < prs.len() && (#[trigger] prs[i]).number == current && (forall|k: int|
                0 <= k < i ==> (#[trigger] prs[k]).number != current) ==> history::branch_of(
                prs,
                historical,
                current,
            ) == prs[i].head.name,
{
    lemma_pull(prs, current);
}

proof fn lemma_pull(prs: Seq<PullRequestSnapshotView>, number: PrNumber)
    ensures
        history::pull_with(prs, number) is None <==> forall|i: int|
            0 <= i < prs.len() ==> (#[trigger] prs[i]).number != number,
        forall|i: int|
            0 <= i < prs.len() && (#[trigger] prs[i]).number == number && (forall|k: int|
                0 <= k < i ==> (#[trigger] prs[k]).number != number) ==> history::pull_with(
                prs,
                number,
            ) == Some(prs[i]),
    decreases prs.len(),
{
    if prs.len() > 0 {
        let front = prs.drop_last();
        lemma_pull(front, number);
        assert(prs[prs.len() - 1] == prs.last());
        assert forall|i: int| 0 <= i < front.len() implies #[trigger] prs[i] == front[i] by {}
        if history::pull_with(prs, number) is None {
            assert forall|i: int| 0 <= i < prs.len() implies (#[trigger] prs[i]).number
                != number by {
                if i < front.len() {
                    assert(front[i].number != number);
                }
            }
        }
        if forall|i: int| 0 <= i < prs.len() ==> (#[trigger] prs[i]).number != number {
            assert forall|i: int| 0 <= i < front.len() implies (#[trigger] front[i]).number
                != number by {
                assert(prs[i].number != number);
            }
        }
        assert forall|i: int|
            0 <= i < prs.len() && (#[trigger] prs[i]).number == number && (forall|k: int|
                0 <= k < i ==> (#[trigger] prs[k]).number != number) implies history::pull_with(
            prs,
            number,
        ) == Some(prs[i]) by {
            if i < front.len() {
                assert(front[i].number == number);
                assert forall|k: int| 0 <= k < i implies (#[trigger] front[k]).number != number by {
                    assert(prs[k].number != number);
                }
            } else {
                assert forall|k: int| 0 <= k < front.len() implies (#[trigger] front[k]).number
                    != number by {
                    assert(prs[k].number != number);
                }
            }
        }
    }
}

} // verus!
