//! Which pull requests a discovery collects and which one is current, over the
//! rows that were read.

use vstd::prelude::*;
use crate::command::CommandRunner;
use crate::github::discovery;
use crate::github::discovery::SceneView;
use crate::github::facts::DiscoveryOptionsView;
use crate::github::history;
use crate::github::provider::DiscoveryErrorView;
use crate::model::{
    BranchSnapshotView, PrNumber, PullRequestGenerationFactView, PullRequestSnapshotView,
    PullRequestState, RepositoryIdView,
};

verus! {

// ---------------------------------------------------------------------------
// The current pull request
// ---------------------------------------------------------------------------

proof fn lemma_on_branch(prs: Seq<PullRequestSnapshotView>, branch: Seq<char>)
    ensures
        history::on_branch(prs, branch) == prs.filter(
            |pr: PullRequestSnapshotView| pr.head.name == branch,
        ),
        forall|x: PullRequestSnapshotView| #[trigger]
            history::on_branch(prs, branch).contains(x) <==> prs.contains(x) && x.head.name
                == branch,
    decreases prs.len(),
{
    reveal(Seq::filter);
    if prs.len() > 0 {
        let front = prs.drop_last();
        lemma_on_branch(front, branch);
        let kept = history::on_branch(front, branch);
        let longer = kept.push(prs.last());
        assert forall|x: PullRequestSnapshotView| #[trigger]
            history::on_branch(prs, branch).contains(x) <==> prs.contains(x) && x.head.name
                == branch by {
            assert(kept.contains(x) <==> front.contains(x) && x.head.name == branch);
            lemma_last(prs, x);
            lemma_last(longer, x);
            assert(longer.drop_last() =~= kept);
        }
    } else {
        assert forall|x: PullRequestSnapshotView| #[trigger]
            history::on_branch(prs, branch).contains(x) <==> prs.contains(x) && x.head.name
                == branch by {}
    }
}

proof fn lemma_last<A>(s: Seq<A>, x: A)
    requires
        s.len() > 0,
    ensures
        s.contains(x) <==> s.drop_last().contains(x) || x == s.last(),
{
    if s.contains(x) {
        let k = choose|k: int| 0 <= k < s.len() && s[k] == x;
        if k < s.len() - 1 {
            assert(s.drop_last()[k] == x);
        }
    }
    if s.drop_last().contains(x) {
        let k = choose|k: int| 0 <= k < s.drop_last().len() && s.drop_last()[k] == x;
        assert(s[k] == x);
    }
    assert(s[s.len() - 1] == s.last());
}

/// Of the open pull requests, the current one is the one whose head is the
/// current branch. There is none exactly where no head is that branch, and
/// several of them are refused.
pub proof fn lemma_current_is_on_the_branch(
    branch: Seq<char>,
    open: Seq<PullRequestSnapshotView>,
)
    ensures
        discovery::current_among(Some(branch), open) == Ok::<
            Option<PullRequestSnapshotView>,
            DiscoveryErrorView,
        >(None) <==> forall|i: int|
            0 <= i < open.len() ==> (#[trigger] open[i]).head.name != branch,
        discovery::current_among(Some(branch), open) matches Ok(Some(pr)) ==> {
            &&& pr.head.name == branch
            &&& open.contains(pr)
            &&& forall|i: int|
                0 <= i < open.len() && (#[trigger] open[i]).head.name == branch ==> open[i] == pr
        },
        discovery::current_among(Some(branch), open) is Err <==> open.filter(
            |pr: PullRequestSnapshotView| pr.head.name == branch,
        ).len() > 1,
        discovery::current_among(None, open) == Ok::<
            Option<PullRequestSnapshotView>,
            DiscoveryErrorView,
        >(None),
{
    lemma_on_branch(open, branch);
    let found = history::on_branch(open, branch);
    if found.len() == 0 {
        assert forall|i: int| 0 <= i < open.len() implies (#[trigger] open[i]).head.name
            != branch by {
            if open[i].head.name == branch {
                assert(open.contains(open[i]));
                assert(found.contains(open[i]));
            }
        }
    } else {
        assert(found.contains(found[0]));
        let k = choose|k: int| 0 <= k < open.len() && open[k] == found[0];
        assert(open[k].head.name == branch);
        if found.len() == 1 {
            assert forall|i: int|
                0 <= i < open.len() && (#[trigger] open[i]).head.name == branch implies open[i]
                == found[0] by {
                assert(open.contains(open[i]));
                assert(found.contains(open[i]));
            }
        }
    }
}

// ---------------------------------------------------------------------------
// Members
// ---------------------------------------------------------------------------

proof fn lemma_labelled(prs: Seq<PullRequestSnapshotView>, label: Seq<char>)
    ensures
        discovery::labelled_among(prs, label) == prs.filter(
            |pr: PullRequestSnapshotView| pr.labels.contains(label),
        ),
        forall|x: PullRequestSnapshotView| #[trigger]
            discovery::labelled_among(prs, label).contains(x) <==> prs.contains(x)
                && x.labels.contains(label),
    decreases prs.len(),
{
    reveal(Seq::filter);
    if prs.len() > 0 {
        let front = prs.drop_last();
        lemma_labelled(front, label);
        let kept = discovery::labelled_among(front, label);
        let longer = kept.push(prs.last());
        assert forall|x: PullRequestSnapshotView| #[trigger]
            discovery::labelled_among(prs, label).contains(x) <==> prs.contains(x)
                && x.labels.contains(label) by {
            assert(kept.contains(x) <==> front.contains(x) && x.labels.contains(label));
            lemma_last(prs, x);
            lemma_last(longer, x);
            assert(longer.drop_last() =~= kept);
        }
    } else {
        assert forall|x: PullRequestSnapshotView| #[trigger]
            discovery::labelled_among(prs, label).contains(x) <==> prs.contains(x)
                && x.labels.contains(label) by {}
    }
}

proof fn lemma_forks(repository: RepositoryIdView, prs: Seq<PullRequestSnapshotView>)
    ensures
        discovery::fork_refusal(repository, prs) is None <==> forall|i: int|
            0 <= i < prs.len() ==> !(#[trigger] prs[i]).cross_repository
                && prs[i].head.repository == repository,
    decreases prs.len(),
{
    if prs.len() > 0 {
        let front = prs.drop_last();
        lemma_forks(repository, front);
        assert forall|i: int| 0 <= i < front.len() implies #[trigger] prs[i] == front[i] by {}
        assert(prs[prs.len() - 1] == prs.last());
        if forall|i: int| 0 <= i < prs.len() ==> !(#[trigger] prs[i]).cross_repository
            && prs[i].head.repository == repository {
            assert forall|i: int| 0 <= i < front.len() implies !(
            #[trigger] front[i]).cross_repository && front[i].head.repository == repository by {
                assert(!prs[i].cross_repository && prs[i].head.repository == repository);
            }
        }
        if discovery::fork_refusal(repository, prs) is None {
            assert forall|i: int| 0 <= i < prs.len() implies !(
            #[trigger] prs[i]).cross_repository && prs[i].head.repository == repository by {
                if i < front.len() {
                    assert(!front[i].cross_repository && front[i].head.repository == repository);
                }
            }
        }
    }
}

/// A discovery goes on exactly where at most one open pull request is on the
/// current branch, and every open one with the membership label has its head in
/// the repository.
pub proof fn lemma_scene_is_accepted_exactly(
    repository: RepositoryIdView,
    default_branch: BranchSnapshotView,
    current_branch: Option<Seq<char>>,
    previous_default_oid: Option<Seq<char>>,
    label: Seq<char>,
    open: Seq<PullRequestSnapshotView>,
    facts: Seq<PullRequestGenerationFactView>,
)
    ensures
        ({
            let outcome = discovery::scene_of(
                repository,
                default_branch,
                current_branch,
                previous_default_oid,
                label,
                open,
                facts,
            );
            &&& outcome is Ok <==> {
                &&& current_branch matches Some(branch) ==> open.filter(
                    |pr: PullRequestSnapshotView| pr.head.name == branch,
                ).len() <= 1
                &&& forall|i: int|
                    0 <= i < open.len() && (#[trigger] open[i]).labels.contains(label)
                        ==> !open[i].cross_repository && open[i].head.repository == repository
            }
            &&& outcome matches Ok(scene) ==> {
                &&& scene.repository == repository
                &&& scene.default_branch == default_branch
                &&& scene.current_branch == current_branch
                &&& scene.previous_default_oid == previous_default_oid
                &&& scene.open == open
                &&& scene.facts == facts
                &&& scene.current matches Some(pr) ==> current_branch == Some(pr.head.name)
                    && open.contains(pr)
            }
        }),
{
    let members = discovery::labelled_among(open, label);
    lemma_labelled(open, label);
    lemma_forks(repository, members);
    if let Some(branch) = current_branch {
        lemma_current_is_on_the_branch(branch, open);
    }
    if discovery::fork_refusal(repository, members) is None {
        assert forall|i: int|
            0 <= i < open.len() && (#[trigger] open[i]).labels.contains(
                label,
            ) implies !open[i].cross_repository && open[i].head.repository == repository by {
            assert(open.contains(open[i]));
            assert(members.contains(open[i]));
            let k = choose|k: int| 0 <= k < members.len() && members[k] == open[i];
            assert(!members[k].cross_repository);
        }
    }
    if forall|i: int|
        0 <= i < open.len() && (#[trigger] open[i]).labels.contains(label)
            ==> !open[i].cross_repository && open[i].head.repository == repository {
        assert forall|k: int| 0 <= k < members.len() implies !(
        #[trigger] members[k]).cross_repository && members[k].head.repository == repository by {
            assert(members.contains(members[k]));
            let i = choose|i: int| 0 <= i < open.len() && open[i] == members[k];
            assert(open[i].labels.contains(label));
        }
    }
}

/// Candidates are read of the first hundred open pull requests with the
/// membership label, in order; the others are counted.
pub proof fn lemma_candidates_of_members(open: Seq<PullRequestSnapshotView>, label: Seq<char>)
    requires
        open.len() <= usize::MAX,
    ensures
        ({
            let members = open.filter(|pr: PullRequestSnapshotView| pr.labels.contains(label));
            let asked = discovery::bounded(discovery::labelled_among(open, label));
            let left = discovery::beyond(discovery::labelled_among(open, label).len());
            &&& asked.len() + left == members.len()
            &&& asked.len() <= 100
            &&& left > 0 ==> asked.len() == 100
            &&& forall|i: int| 0 <= i < asked.len() ==> #[trigger] asked[i] == members[i]
        }),
{
    lemma_labelled(open, label);
    lemma_no_longer(open, label);
}

proof fn lemma_no_longer(prs: Seq<PullRequestSnapshotView>, label: Seq<char>)
    ensures
        discovery::labelled_among(prs, label).len() <= prs.len(),
    decreases prs.len(),
{
    if prs.len() > 0 {
        lemma_no_longer(prs.drop_last(), label);
    }
}

// ---------------------------------------------------------------------------
// What is collected
// ---------------------------------------------------------------------------

/// The first row of its number.
pub open spec fn first_of_number(prs: Seq<PullRequestSnapshotView>, i: int) -> bool {
    &&& 0 <= i < prs.len()
    &&& forall|k: int| 0 <= k < i ==> (#[trigger] prs[k]).number != prs[i].number
}

/// The row is the first one of its number.
pub open spec fn comes_first(
    prs: Seq<PullRequestSnapshotView>,
    pr: PullRequestSnapshotView,
) -> bool {
    exists|i: int| #[trigger] first_of_number(prs, i) && prs[i] == pr
}

proof fn lemma_joined_from(prs: Seq<PullRequestSnapshotView>, pr: PullRequestSnapshotView)
    requires
        discovery::each_once(prs),
    ensures
        forall|x: PullRequestSnapshotView| #[trigger]
            discovery::joined_by(prs, pr).contains(x) <==> prs.contains(x) || (x == pr
                && !discovery::has_number(prs, pr.number)),
    decreases prs.len(),
{
    let all = discovery::joined_by(prs, pr);
    discovery::lemma_joined_by(prs, pr);
    if discovery::has_number(prs, pr.number) {
        assert(all == prs);
    } else {
        if prs.len() == 0 {
            assert forall|x: PullRequestSnapshotView| #[trigger] all.contains(x) <==> prs.contains(
                x,
            ) || x == pr by {
                assert(all[0] == pr);
            }
        } else if prs.last().number.0 < pr.number.0 {
            assert forall|x: PullRequestSnapshotView| #[trigger] all.contains(x) <==> prs.contains(
                x,
            ) || x == pr by {
                lemma_last(all, x);
                assert(all.drop_last() =~= prs);
            }
        } else {
            assert(prs[prs.len() - 1] == prs.last());
            let below = prs.drop_last();
            assert forall|i: int, j: int| 0 <= i < j < below.len() implies (
            #[trigger] below[i]).number.0 < (#[trigger] below[j]).number.0 by {
                assert(below[i] == prs[i] && below[j] == prs[j]);
            }
            lemma_joined_from(below, pr);
            assert(!discovery::has_number(below, pr.number)) by {
                if discovery::has_number(below, pr.number) {
                    let k = choose|k: int|
                        0 <= k < below.len() && (#[trigger] below[k]).number == pr.number;
                    assert(prs[k].number == pr.number);
                }
            }
            let rest = discovery::joined_by(below, pr);
            assert forall|x: PullRequestSnapshotView| #[trigger] all.contains(x) <==> prs.contains(
                x,
            ) || x == pr by {
                lemma_last(all, x);
                lemma_last(prs, x);
                assert(all.drop_last() =~= rest);
                assert(rest.contains(x) <==> below.contains(x) || x == pr);
            }
        }
    }
}

proof fn lemma_joined_all(prs: Seq<PullRequestSnapshotView>, more: Seq<PullRequestSnapshotView>)
    requires
        discovery::each_once(prs),
    ensures
        discovery::each_once(discovery::joined_by_all(prs, more)),
        forall|x: PullRequestSnapshotView| #[trigger]
            discovery::joined_by_all(prs, more).contains(x) <==> prs.contains(x) || (comes_first(
                more,
                x,
            ) && !discovery::has_number(prs, x.number)),
    decreases more.len(),
{
    discovery::lemma_joined_by_all(prs, more);
    if more.len() > 0 {
        let front = more.drop_last();
        let last = more.last();
        let n = front.len() as int;
        let below = discovery::joined_by_all(prs, front);
        discovery::lemma_joined_by_all(prs, front);
        lemma_joined_all(prs, front);
        lemma_joined_from(below, last);
        assert(more[n] == last);
        assert(discovery::has_number(below, last.number) <==> discovery::has_number(
            prs,
            last.number,
        ) || discovery::has_number(front, last.number)) by {
            if discovery::has_number(below, last.number) {
                let k = choose|k: int|
                    0 <= k < below.len() && (#[trigger] below[k]).number == last.number;
                assert(below.contains(below[k]));
                if prs.contains(below[k]) {
                    let j = choose|j: int| 0 <= j < prs.len() && prs[j] == below[k];
                    assert(prs[j].number == last.number);
                } else {
                    let j = choose|j: int| #[trigger]
                        first_of_number(front, j) && front[j] == below[k];
                    assert(front[j].number == last.number);
                }
            }
            if discovery::has_number(prs, last.number) {
                let k = choose|k: int|
                    0 <= k < prs.len() && (#[trigger] prs[k]).number == last.number;
                assert(below.contains(prs[k]));
                let j = choose|j: int| 0 <= j < below.len() && below[j] == prs[k];
                assert(below[j].number == last.number);
            }
            if discovery::has_number(front, last.number) {
                let k = choose|k: int|
                    0 <= k < front.len() && (#[trigger] front[k]).number == last.number;
                assert(discovery::has_number(below, front[k].number));
            }
        }
        assert forall|x: PullRequestSnapshotView| #[trigger]
            comes_first(more, x) <==> comes_first(front, x) || (x == last
                && !discovery::has_number(front, x.number)) by {
            if comes_first(front, x) {
                let i = choose|i: int| #[trigger] first_of_number(front, i) && front[i] == x;
                assert forall|k: int| 0 <= k < i implies (#[trigger] more[k]).number
                    != more[i].number by {
                    assert(front[k].number != front[i].number);
                }
                assert(first_of_number(more, i));
            }
            if x == last && !discovery::has_number(front, x.number) {
                assert forall|k: int| 0 <= k < n implies (#[trigger] more[k]).number
                    != more[n].number by {
                    assert(front[k] == more[k]);
                }
                assert(first_of_number(more, n));
            }
            if comes_first(more, x) {
                let i = choose|i: int| #[trigger] first_of_number(more, i) && more[i] == x;
                if i < n {
                    assert forall|k: int| 0 <= k < i implies (#[trigger] front[k]).number
                        != front[i].number by {
                        assert(more[k].number != more[i].number);
                    }
                    assert(first_of_number(front, i));
                } else {
                    if discovery::has_number(front, x.number) {
                        let k = choose|k: int|
                            0 <= k < front.len() && (#[trigger] front[k]).number == x.number;
                        assert(more[k].number != more[i].number);
                    }
                }
            }
        }
        assert forall|x: PullRequestSnapshotView| #[trigger]
            discovery::joined_by_all(prs, more).contains(x) <==> prs.contains(x) || (comes_first(
                more,
                x,
            ) && !discovery::has_number(prs, x.number)) by {
            assert(discovery::joined_by_all(prs, more) == discovery::joined_by(below, last));
            assert(below.contains(x) <==> prs.contains(x) || (comes_first(front, x)
                && !discovery::has_number(prs, x.number)));
            assert(comes_first(more, x) <==> comes_first(front, x) || (x == last
                && !discovery::has_number(front, x.number)));
        }
    } else {
        assert forall|x: PullRequestSnapshotView| #[trigger]
            discovery::joined_by_all(prs, more).contains(x) <==> prs.contains(x) || (comes_first(
                more,
                x,
            ) && !discovery::has_number(prs, x.number)) by {}
    }
}

/// A pass collects every open pull request and every merged one whose number no
/// open one has, each number once and in order; of two rows of a number, the
/// first is kept. Nothing else is collected but what the past of the current
/// branch adds.
pub proof fn lemma_pass_collects_open_and_merged(
    open: Seq<PullRequestSnapshotView>,
    merged: Seq<PullRequestSnapshotView>,
    x: PullRequestSnapshotView,
)
    ensures
        ({
            let all = discovery::joined_by_all(
                discovery::joined_by_all(Seq::empty(), open),
                merged,
            );
            &&& all.contains(x) <==> comes_first(open, x) || (comes_first(merged, x) && forall|
                i: int,
            |
                0 <= i < open.len() ==> (#[trigger] open[i]).number != x.number)
            &&& forall|i: int, j: int|
                0 <= i < j < all.len() ==> (#[trigger] all[i]).number.0 < (
                #[trigger] all[j]).number.0
        }),
{
    let none = Seq::<PullRequestSnapshotView>::empty();
    let first = discovery::joined_by_all(none, open);
    lemma_joined_all(none, open);
    lemma_joined_all(first, merged);
    discovery::lemma_joined_by_all(none, open);
    assert(first.contains(x) <==> comes_first(open, x)) by {
        assert(!discovery::has_number(none, x.number));
        assert(!none.contains(x));
    }
    if discovery::has_number(first, x.number) {
        let k = choose|k: int| 0 <= k < first.len() && (#[trigger] first[k]).number == x.number;
        assert(first.contains(first[k]));
        assert(!none.contains(first[k]));
        let i = choose|i: int| #[trigger] first_of_number(open, i) && open[i] == first[k];
        assert(open[i].number == x.number);
    }
    if exists|i: int| 0 <= i < open.len() && (#[trigger] open[i]).number == x.number {
        let i = choose|i: int| 0 <= i < open.len() && (#[trigger] open[i]).number == x.number;
        assert(discovery::has_number(first, open[i].number));
    }
}

/// Where an open pull request is on the current branch, it is the current one,
/// and the past of the branch adds nothing; and where the current branch is the
/// default one, or there is none, there is no current one.
pub proof fn lemma_current_is_resolved<R: CommandRunner>(
    runner: R,
    options: DiscoveryOptionsView,
    scene: SceneView,
    prs: Seq<PullRequestSnapshotView>,
    current: Option<PrNumber>,
    collected: Seq<PullRequestSnapshotView>,
)
    requires
        discovery::current_resolved(runner, options, scene, prs, Ok((current, collected))),
    ensures
        scene.current matches Some(pr) ==> current == Some(pr.number) && collected == prs,
        scene.current is None && (scene.current_branch is None || scene.current_branch->0
            == scene.default_branch.name) ==> current is None && collected == prs,
        forall|i: int| 0 <= i < prs.len() && discovery::each_once(prs) ==> collected.contains(
            #[trigger] prs[i],
        ),
{
    if discovery::each_once(prs) {
        assert forall|i: int| 0 <= i < prs.len() implies collected.contains(#[trigger] prs[i]) by {
            if collected != prs {
                let branch = scene.current_branch->0;
                let outcome = Ok::<_, DiscoveryErrorView>((current, collected));
                let past = choose|past: history::Past| #[trigger]
                    history::past_read(
                        runner,
                        options,
                        scene.repository,
                        branch,
                        prs,
                        past,
                    ) && outcome == match past {
                        Err(error) => Err(error),
                        Ok(None) => Ok((None, prs)),
                        Ok(Some(pair)) => Ok((pair.1, discovery::joined_by(prs, pair.0))),
                    };
                let pair = past->Ok_0->0;
                discovery::lemma_joined_by(prs, pair.0);
            }
        }
    }
}

/// The past of a branch is used only where just one pull request had it, which
/// was merged, has its head in the repository, and has the membership label,
/// unless the options let it go without.
pub proof fn lemma_past_is_accepted_exactly(
    options: DiscoveryOptionsView,
    repository: RepositoryIdView,
    branch: Seq<char>,
    past: Seq<PullRequestSnapshotView>,
)
    ensures
        history::past_refusal(options, repository, branch, past) is None <==> {
            &&& past.len() == 1
            &&& past[0].state == PullRequestState::Merged
            &&& past[0].labels.contains(options.label)
                || options.allow_unlabelled_historical_pr_creation
            &&& !past[0].cross_repository
            &&& past[0].head.repository == repository
        },
{
}

} // verus!
