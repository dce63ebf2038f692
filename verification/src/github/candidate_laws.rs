//! Which object of the answer becomes the merge candidate of a pull request.

use vstd::prelude::*;
use crate::command::CommandRunner;
use crate::github::candidates;
use crate::github::candidates::{
    GraphCommitJsonView, MergeCandidatesResponse, MergeCandidatesResponseView,
};
use crate::github::facts;
use crate::github::provider;
use crate::github::provider::DiscoveryErrorView;
use crate::model;
use crate::model::{
    BranchSnapshotView, DefaultBranchMovementView, MergeCandidateFreshness,
    MergeCandidateIdentityView, MovementOwnership, PrNumber, PullRequestSnapshotView,
    RepositoryIdView, SyntheticMergeCandidateView,
};
use crate::text;

verus! {

/// The alias of the pull request at a place of a query.
pub open spec fn alias(place: int) -> Seq<char> {
    "c"@ + text::decimal(place as nat)
}

/// The Git reference of the merge of a pull request.
pub open spec fn merge_ref(number: PrNumber) -> Seq<char> {
    "refs/pull/"@ + model::pr_text(number) + "/merge"@
}

/// What binds an alias to the merge of a pull request in a query.
pub open spec fn binding(place: int, number: PrNumber) -> Seq<char> {
    alias(place) + ": object(expression:\""@ + merge_ref(number) + "\") { ... on Commit { oid tree { oid } parents(first: 2) { nodes { oid } } } }"@
}

/// Aliases of different places differ.
pub proof fn lemma_aliases_differ(a: int, b: int)
    requires
        0 <= a,
        0 <= b,
        alias(a) == alias(b),
    ensures
        a == b,
{
    reveal_strlit("c");
    let x = text::decimal(a as nat);
    let y = text::decimal(b as nat);
    assert(alias(a).skip(1) =~= x);
    assert(alias(b).skip(1) =~= y);
    facts::lemma_decimal_is_injective(a as nat, b as nat);
}

proof fn lemma_occurs_within(s: Seq<char>, before: Seq<char>, after: Seq<char>, needle: Seq<char>)
    requires
        text::holds_text(s, needle),
    ensures
        text::holds_text(before + s + after, needle),
{
    let at = choose|at: int| text::occurs_at(s, needle, at);
    let whole = before + s + after;
    assert(whole.subrange(before.len() + at, before.len() + at + needle.len()) =~= s.subrange(
        at,
        at + needle.len(),
    ));
    assert(text::occurs_at(whole, needle, before.len() + at));
}

proof fn lemma_joined_holds(parts: Seq<Seq<char>>, separator: Seq<char>, i: int)
    requires
        0 <= i < parts.len(),
    ensures
        text::holds_text(text::joined(parts, separator), parts[i]),
    decreases parts.len(),
{
    if parts.len() == 1 {
        assert(parts[0].subrange(0, parts[0].len() as int) =~= parts[0]);
        assert(text::occurs_at(parts[0], parts[0], 0));
    } else {
        let rest = text::joined(parts.drop_last(), separator);
        if i < parts.len() - 1 {
            lemma_joined_holds(parts.drop_last(), separator, i);
            assert(parts.drop_last()[i] == parts[i]);
            lemma_occurs_within(rest, Seq::empty(), separator + parts.last(), parts[i]);
            assert(Seq::<char>::empty() + rest + (separator + parts.last()) =~= text::joined(
                parts,
                separator,
            ));
        } else {
            let last = parts.last();
            assert(last.subrange(0, last.len() as int) =~= last);
            assert(text::occurs_at(last, last, 0));
            lemma_occurs_within(last, rest + separator, Seq::empty(), last);
            assert((rest + separator) + last + Seq::empty() =~= text::joined(parts, separator));
        }
    }
}

/// The query for merge candidates binds the alias of every place to the merge of
/// the pull request at that place.
pub proof fn lemma_query_binds_aliases(
    repository: RepositoryIdView,
    prs: Seq<PullRequestSnapshotView>,
    i: int,
)
    requires
        0 <= i < prs.len(),
    ensures
        candidates::merge_candidates(repository, prs).args.len() == 8,
        text::holds_text(
            candidates::merge_candidates(repository, prs).args[3],
            binding(i, prs[i].number),
        ),
        candidates::merge_candidates(repository, prs).args[5] == "owner="@ + repository.owner,
        candidates::merge_candidates(repository, prs).args[7] == "name="@ + repository.name,
{
    let parts = candidates::candidate_parts(prs);
    let query = candidates::merge_candidates(repository, prs).args[3];
    reveal_strlit(": object(expression:\"refs/pull/");
    reveal_strlit(": object(expression:\"");
    reveal_strlit("refs/pull/");
    reveal_strlit("/merge\") { ... on Commit { oid tree { oid } parents(first: 2) { nodes { oid } } } }");
    reveal_strlit("/merge");
    reveal_strlit("\") { ... on Commit { oid tree { oid } parents(first: 2) { nodes { oid } } } }");
    assert(": object(expression:\"refs/pull/"@ =~= ": object(expression:\""@ + "refs/pull/"@);
    assert("/merge\") { ... on Commit { oid tree { oid } parents(first: 2) { nodes { oid } } } }"@
        =~= "/merge"@ + "\") { ... on Commit { oid tree { oid } parents(first: 2) { nodes { oid } } } }"@);
    assert(parts[i] =~= binding(i, prs[i].number));
    lemma_joined_holds(parts, " "@, i);
    let before =
        "query=query($owner:String!,$name:String!) { rateLimit { cost remaining resetAt } repository(owner:$owner,name:$name) { "@;
    let after =
        " defaultBranchRef { target { ... on Commit { history(first:20) { nodes { oid committedDate author { name user { login } } associatedPullRequests(first:5) { nodes { number labels(first:20) { nodes { name } } } } } } } } } } }"@;
    lemma_occurs_within(text::joined(parts, " "@), before, after, parts[i]);
    assert(query == before + text::joined(parts, " "@) + after);
}

/// Whether a merge candidate is exactly an object of the answer.
pub open spec fn is_object(
    candidate: SyntheticMergeCandidateView,
    number: PrNumber,
    commit: GraphCommitJsonView,
) -> bool {
    &&& candidate.git_ref == merge_ref(number)
    &&& candidate.oid == commit.oid
    &&& candidate.tree_oid == commit.tree.oid
    &&& candidate.parents.len() == commit.parents.nodes.len()
    &&& forall|k: int|
        0 <= k < candidate.parents.len() ==> (#[trigger] candidate.parents[k])
            == commit.parents.nodes[k].oid
}

/// Whether a row is the one that counts under a key: no later one has the key.
pub open spec fn counts_under(
    rows: Seq<(Seq<char>, Option<GraphCommitJsonView>)>,
    key: Seq<char>,
    at: int,
) -> bool {
    0 <= at < rows.len() && rows[at].0 == key && forall|k: int|
        at < k < rows.len() ==> (#[trigger] rows[k]).0 != key
}

proof fn lemma_commit_under(rows: Seq<(Seq<char>, Option<GraphCommitJsonView>)>, key: Seq<char>)
    ensures
        forall|at: int| #[trigger]
            counts_under(rows, key, at) ==> candidates::commit_under(rows, key) == rows[at].1,
        candidates::commit_under(rows, key) is Some ==> exists|at: int| #[trigger]
            counts_under(rows, key, at),
    decreases rows.len(),
{
    if rows.len() > 0 {
        let rest = rows.drop_last();
        lemma_commit_under(rest, key);
        assert(rows[rows.len() - 1] == rows.last());
        if rows.last().0 == key {
            assert(counts_under(rows, key, rows.len() - 1));
            assert forall|at: int| #[trigger] counts_under(rows, key, at) implies
                candidates::commit_under(rows, key) == rows[at].1 by {
                if at < rows.len() - 1 {
                    assert(rows[rows.len() - 1].0 != key);
                }
            }
        } else {
            assert forall|at: int| #[trigger] counts_under(rows, key, at) implies
                candidates::commit_under(rows, key) == rows[at].1 by {
                assert(rest[at] == rows[at]);
                assert forall|k: int| at < k < rest.len() implies (#[trigger] rest[k]).0 != key by {
                    assert(rows[k].0 != key);
                }
                assert(counts_under(rest, key, at));
            }
            if candidates::commit_under(rest, key) is Some {
                let at = choose|at: int| #[trigger] counts_under(rest, key, at);
                assert forall|k: int| at < k < rows.len() implies (#[trigger] rows[k]).0 != key by {
                    if k < rest.len() {
                        assert(rest[k].0 != key);
                    }
                }
                assert(counts_under(rows, key, at));
            }
        }
    }
}

/// The identity at a place is that of the pull request at that place, and its
/// merge candidate is exactly the object that the answer holds under the alias
/// of that place: it has one if and only if the answer does.
pub proof fn lemma_identity_takes_its_own_object(
    prs: Seq<PullRequestSnapshotView>,
    rows: Seq<(Seq<char>, Option<GraphCommitJsonView>)>,
    observed_at: Seq<char>,
    default_branch: Option<BranchSnapshotView>,
)
    ensures
        ({
            let list = candidates::identities_of(prs, rows, observed_at, default_branch);
            &&& list.len() == prs.len()
            &&& forall|i: int|
                0 <= i < list.len() ==> {
                    let known = #[trigger] list[i];
                    &&& known.pr == prs[i].number
                    &&& known.base == prs[i].base
                    &&& known.head == prs[i].head
                    &&& known.observed_at == observed_at
                    &&& known.auto_merge.enabled == prs[i].auto_merge.enabled
                    &&& known.auto_merge.merge_method == prs[i].auto_merge.merge_method
                    &&& known.auto_merge.actor == prs[i].auto_merge.actor
                    &&& prs[i].updated_at is Some ==> known.provider_updated_at
                        == prs[i].updated_at->0
                    &&& forall|at: int| #[trigger]
                        counts_under(rows, alias(i), at) ==> match rows[at].1 {
                            Some(commit) => known.synthetic is Some && is_object(
                                known.synthetic->0,
                                prs[i].number,
                                commit,
                            ),
                            None => known.synthetic is None,
                        }
                    &&& known.synthetic is Some ==> exists|at: int| #[trigger]
                        counts_under(rows, alias(i), at) && rows[at].1 is Some
                }
        }),
{
    let list = candidates::identities_of(prs, rows, observed_at, default_branch);
    assert forall|i: int| 0 <= i < list.len() implies {
        let known = #[trigger] list[i];
        &&& forall|at: int| #[trigger]
            counts_under(rows, alias(i), at) ==> match rows[at].1 {
                Some(commit) => known.synthetic is Some && is_object(
                    known.synthetic->0,
                    prs[i].number,
                    commit,
                ),
                None => known.synthetic is None,
            }
        &&& known.synthetic is Some ==> exists|at: int| #[trigger]
            counts_under(rows, alias(i), at) && rows[at].1 is Some
    } by {
        lemma_commit_under(rows, alias(i));
        assert(candidates::candidate_key(i as nat) == alias(i));
        let known = list[i];
        if known.synthetic is Some {
            let at = choose|at: int| #[trigger] counts_under(rows, alias(i), at);
            assert(rows[at].1 is Some);
        }
    }
}

/// How fresh a merge candidate is, told by its parents and the branches: it is
/// fresh exactly if it has two parents, the second is the head, and the first is
/// the base as recorded and, where the base is the default branch, as it stands
/// now. A candidate of other than two parents tells nothing, a wrong head
/// outweighs a wrong base, and without a candidate there is nothing to compare.
pub proof fn lemma_freshness_is_told_by_parents(
    candidate: Option<SyntheticMergeCandidateView>,
    base: BranchSnapshotView,
    head: Seq<char>,
    default_branch: Option<BranchSnapshotView>,
)
    ensures
        ({
            let told = candidates::judged(candidate, base, head, default_branch);
            let live = default_branch is Some && default_branch->0.name == base.name
                && default_branch->0.repository == base.repository;
            let tip = if live {
                default_branch->0.oid
            } else {
                base.oid
            };
            &&& told.compared_base.oid == tip
            &&& told.compared_base.name == base.name
            &&& told.compared_base.repository == base.repository
            &&& match candidate {
                None => told.freshness == MergeCandidateFreshness::Missing && !told.stale_head
                    && told.stale_base == (tip != base.oid) && told.reasons.len() > 0,
                Some(merge) => if merge.parents.len() != 2 {
                    told.freshness == MergeCandidateFreshness::Unknown && !told.stale_head
                        && told.stale_base == (tip != base.oid) && told.reasons.len() > 0
                } else {
                    &&& told.stale_head == (merge.parents[1] != head)
                    &&& told.stale_base == (tip != base.oid || merge.parents[0] != tip)
                    &&& merge.parents[1] != head ==> told.freshness
                        == MergeCandidateFreshness::StaleHead
                    &&& merge.parents[1] == head && (tip != base.oid || merge.parents[0] != tip)
                        ==> told.freshness == MergeCandidateFreshness::StaleBase
                    &&& merge.parents[1] == head && tip == base.oid && merge.parents[0] == tip
                        ==> told.freshness == MergeCandidateFreshness::Fresh
                    &&& told.reasons.len() == 0 <==> told.freshness
                        == MergeCandidateFreshness::Fresh
                },
            }
        }),
{
}

/// The freshness that an identity reports is that of its own candidate on its own
/// branches.
pub proof fn lemma_identity_reports_its_freshness(
    prs: Seq<PullRequestSnapshotView>,
    rows: Seq<(Seq<char>, Option<GraphCommitJsonView>)>,
    observed_at: Seq<char>,
    default_branch: Option<BranchSnapshotView>,
    i: int,
)
    requires
        0 <= i < prs.len(),
    ensures
        ({
            let known = candidates::identities_of(prs, rows, observed_at, default_branch)[i];
            let live = default_branch is Some && default_branch->0.name == prs[i].base.name
                && default_branch->0.repository == prs[i].base.repository;
            let tip = if live {
                default_branch->0.oid
            } else {
                prs[i].base.oid
            };
            &&& known.compared_base is Some
            &&& known.compared_base->0.oid == tip
            &&& known.freshness == MergeCandidateFreshness::Fresh <==> known.synthetic is Some
                && known.synthetic->0.parents.len() == 2 && known.synthetic->0.parents[0] == tip
                && tip == prs[i].base.oid && known.synthetic->0.parents[1] == prs[i].head.oid
            &&& known.freshness == MergeCandidateFreshness::Missing <==> known.synthetic is None
            &&& known.freshness == MergeCandidateFreshness::Unknown <==> known.synthetic is Some
                && known.synthetic->0.parents.len() != 2
            &&& known.freshness == MergeCandidateFreshness::StaleHead <==> known.synthetic is Some
                && known.synthetic->0.parents.len() == 2 && known.synthetic->0.parents[1]
                != prs[i].head.oid
            &&& known.stale_head <==> known.freshness == MergeCandidateFreshness::StaleHead
            &&& known.stale_base <==> tip != prs[i].base.oid || known.synthetic is Some
                && known.synthetic->0.parents.len() == 2 && known.synthetic->0.parents[0] != tip
            &&& known.stale_reasons.len() == 0 <==> known.freshness
                == MergeCandidateFreshness::Fresh
        }),
{
}

/// The movements of the default branch are its commits, in order. Each names the
/// first pull request behind it, and no movement is claimed: one behind a queued
/// pull request stays unknown, every other is external.
pub proof fn lemma_movements_are_commits(
    reference: Option<candidates::GraphDefaultBranchRefJsonView>,
)
    ensures
        reference is None ==> candidates::movements_of(reference).len() == 0,
        reference is Some ==> ({
            let nodes = reference->0.target.history.nodes;
            let list = candidates::movements_of(reference);
            &&& list.len() == nodes.len()
            &&& forall|i: int|
                0 <= i < nodes.len() ==> {
                    let moved = #[trigger] list[i];
                    let sources = nodes[i].associated_pull_requests.nodes;
                    let queued = sources.len() > 0 && exists|k: int|
                        0 <= k < sources[0].labels.nodes.len() && (
                        #[trigger] sources[0].labels.nodes[k]).name == "caravan"@;
                    &&& moved.oid == nodes[i].oid
                    &&& moved.timestamp == nodes[i].committed_date
                    &&& sources.len() == 0 ==> moved.source_pr is None
                    &&& sources.len() > 0 ==> moved.source_pr == Some(PrNumber(sources[0].number))
                    &&& moved.ownership == (if queued {
                        MovementOwnership::Unknown
                    } else {
                        MovementOwnership::External
                    })
                    &&& nodes[i].author is None ==> moved.actor is None
                    &&& nodes[i].author is Some && nodes[i].author->0.user is Some ==> moved.actor
                        == Some(nodes[i].author->0.user->0.login)
                    &&& nodes[i].author is Some && nodes[i].author->0.user is None ==> moved.actor
                        == nodes[i].author->0.name
                }
        }),
{
}

/// A read of merge candidates gives each pull request the object that the answer
/// to the query holds under the alias which the query binds to its merge.
pub proof fn lemma_read_candidates_are_their_own<R: CommandRunner>(
    runner: R,
    repository: RepositoryIdView,
    prs: Seq<PullRequestSnapshotView>,
    observed_at: Seq<char>,
    default_branch: Option<BranchSnapshotView>,
    list: Seq<MergeCandidateIdentityView>,
    movements: Seq<DefaultBranchMovementView>,
)
    requires
        candidates::candidates_read(
            runner,
            repository,
            prs,
            observed_at,
            default_branch,
            Ok((list, movements)),
        ),
    ensures
        list.len() == prs.len(),
        exists|response: MergeCandidatesResponseView|
            #[trigger] provider::fetched::<R, MergeCandidatesResponse>(
                runner,
                candidates::merge_candidates(repository, prs),
                Ok(response),
            ) && forall|i: int|
                0 <= i < list.len() ==> {
                    let rows = response.data.repository.candidates;
                    let known = #[trigger] list[i];
                    &&& known.pr == prs[i].number
                    &&& text::holds_text(
                        candidates::merge_candidates(repository, prs).args[3],
                        binding(i, known.pr),
                    )
                    &&& forall|at: int| #[trigger]
                        counts_under(rows, alias(i), at) ==> match rows[at].1 {
                            Some(commit) => known.synthetic is Some && is_object(
                                known.synthetic->0,
                                known.pr,
                                commit,
                            ),
                            None => known.synthetic is None,
                        }
                    &&& known.synthetic is Some ==> exists|at: int| #[trigger]
                        counts_under(rows, alias(i), at) && rows[at].1 is Some
                },
{
    let read = choose|read: Result<MergeCandidatesResponseView, DiscoveryErrorView>| #[trigger]
        provider::fetched::<R, MergeCandidatesResponse>(
            runner,
            candidates::merge_candidates(repository, prs),
            read,
        ) && Ok::<_, DiscoveryErrorView>((list, movements)) == match read {
            Err(error) => Err(error),
            Ok(response) => Ok(
                (
                    candidates::identities_of(
                        prs,
                        response.data.repository.candidates,
                        observed_at,
                        default_branch,
                    ),
                    candidates::movements_of(response.data.repository.default_branch_ref),
                ),
            ),
        };
    let response = read->Ok_0;
    let rows = response.data.repository.candidates;
    lemma_identity_takes_its_own_object(prs, rows, observed_at, default_branch);
    assert forall|i: int| 0 <= i < list.len() implies {
        let known = #[trigger] list[i];
        &&& known.pr == prs[i].number
        &&& text::holds_text(
            candidates::merge_candidates(repository, prs).args[3],
            binding(i, known.pr),
        )
    } by {
        lemma_query_binds_aliases(repository, prs, i);
    }
}

} // verus!
