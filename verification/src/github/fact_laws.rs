//! What single facts of the provider mean, over the documents themselves.

use vstd::prelude::*;
use crate::github::adapter;
use crate::github::facts;
use crate::github::facts::CommitRelationView;
use crate::github::provider::MutationErrorView;
use crate::github::raw::{
    BranchProtectionJsonView, GitRefJsonView, MergeCommitJsonView, NumberJsonView,
    WorkflowRunDetailsJsonView,
};
use crate::github::run_laws;
use crate::model;
use crate::text;

verus! {

// ---------------------------------------------------------------------------
// Labels
// ---------------------------------------------------------------------------

/// A label that steers a caravan: membership, eviction, force, a skipped join,
/// or a priority.
pub open spec fn steers(label: Seq<char>) -> bool {
    ||| label == "caravan"@
    ||| label == "caravan-evicted"@
    ||| label == "caravan-force"@
    ||| label == "caravan-join-skipped"@
    ||| exists|rest: Seq<char>| label == #[trigger] ("caravan-priority:"@ + rest)
}

/// The labels that an explanation of a transition tells are just those that
/// steer a caravan, in order.
pub proof fn lemma_steering_labels_are_told(labels: Seq<Seq<char>>)
    ensures
        facts::controls(labels) == labels.filter(|label: Seq<char>| steers(label)),
    decreases labels.len(),
{
    reveal(Seq::filter);
    if labels.len() > 0 {
        lemma_steering_labels_are_told(labels.drop_last());
        let last = labels.last();
        let head = "caravan-priority:"@;
        if head.is_prefix_of(last) {
            let rest = last.skip(head.len() as int);
            assert(last =~= head + rest);
        }
        if exists|rest: Seq<char>| last == #[trigger] (head + rest) {
            let rest = choose|rest: Seq<char>| last == #[trigger] (head + rest);
            assert((head + rest).subrange(0, head.len() as int) =~= head);
        }
        assert(facts::is_control(last) == steers(last));
    }
}

// ---------------------------------------------------------------------------
// Branches
// ---------------------------------------------------------------------------

/// The policy of the default branch holds just the contexts that its protection
/// asks for, each once, and asks for as many reviews and as strict checks as the
/// protection does; one that asks for neither holds none.
pub proof fn lemma_policy_is_its_protection(policy: BranchProtectionJsonView)
    ensures
        forall|context: Seq<char>| #[trigger]
            adapter::policy_of(policy).required_status_checks.contains(context)
                <==> run_laws::asks_for(policy, context),
        adapter::policy_of(policy).required_status_checks.no_duplicates(),
        adapter::policy_of(policy).strict_status_checks <==> policy.required_status_checks is Some
            && policy.required_status_checks->0.strict,
        policy.required_pull_request_reviews matches Some(reviews) ==> adapter::policy_of(
            policy,
        ).required_approving_review_count == reviews.required_approving_review_count,
        policy.required_pull_request_reviews is None ==> adapter::policy_of(
            policy,
        ).required_approving_review_count == 0,
{
    let declared = adapter::declared_contexts(policy);
    model::lemma_label_set(declared);
    let out = adapter::policy_of(policy).required_status_checks;
    assert forall|context: Seq<char>| #[trigger] out.contains(context) <==> run_laws::asks_for(
        policy,
        context,
    ) by {
        run_laws::lemma_declared(policy, context);
    }
    assert forall|i: int, j: int| 0 <= i < out.len() && 0 <= j < out.len() && i
        != j implies out[i] != out[j] by {
        text::lemma_text_lt_total(out[i], out[j]);
        if i < j {
            assert(text::text_lt(out[i], out[j]));
        } else {
            assert(text::text_lt(out[j], out[i]));
        }
    }
}

/// A branch is held at a commit exactly where its reference shows that commit;
/// otherwise the refusal names both.
pub proof fn lemma_branch_is_held_exactly(
    branch: Seq<char>,
    expected: Seq<char>,
    reference: GitRefJsonView,
)
    ensures
        adapter::held_at(branch, expected, reference) is Ok <==> reference.object.sha == expected,
        adapter::held_at(branch, expected, reference) matches Err(error) ==> (error matches
            MutationErrorView::BranchHeadMismatch { branch: at, expected: wanted, actual } && at
            == branch && wanted == expected && actual == reference.object.sha),
{
}

/// A merge commit is known only where the provider names one.
pub proof fn lemma_merge_commit_is_named(document: MergeCommitJsonView)
    ensures
        adapter::merge_commit_of(document) matches Some(oid) ==> document.merge_commit is Some
            && document.merge_commit->0.oid == oid && oid.len() > 0,
        adapter::merge_commit_of(document) is None ==> document.merge_commit is None
            || document.merge_commit->0.oid.len() == 0,
{
}

/// The relation of two commits is what the provider calls it, and unknown where
/// it uses any other word.
pub proof fn lemma_relation_is_as_told(status: Seq<char>)
    ensures
        facts::commit_relation(status) == CommitRelationView::Ahead <==> status == "ahead"@,
        facts::commit_relation(status) == CommitRelationView::Behind <==> status == "behind"@,
        facts::commit_relation(status) == CommitRelationView::Identical <==> status
            == "identical"@,
        facts::commit_relation(status) == CommitRelationView::Diverged <==> status == "diverged"@,
        facts::commit_relation(status) is Unknown <==> status != "ahead"@ && status != "behind"@
            && status != "identical"@ && status != "diverged"@,
{
    reveal_strlit("ahead");
    reveal_strlit("behind");
    reveal_strlit("identical");
    reveal_strlit("diverged");
    assert("ahead"@[0] != "behind"@[0]);
    assert("ahead"@[0] != "identical"@[0]);
    assert("ahead"@[0] != "diverged"@[0]);
    assert("behind"@[0] != "identical"@[0]);
    assert("behind"@[0] != "diverged"@[0]);
    assert("identical"@[0] != "diverged"@[0]);
}

/// A run is of the pull requests that its document lists, and of its head; one
/// that has not ended has no conclusion.
pub proof fn lemma_run_is_its_document(document: WorkflowRunDetailsJsonView)
    ensures
        ({
            let run = document.snapshot();
            &&& run.database_id == document.id
            &&& run.head_sha == document.head_sha
            &&& run.status == document.status
            &&& document.conclusion matches Some(said) ==> run.conclusion == said
            &&& document.conclusion is None ==> run.conclusion.len() == 0
            &&& run.pull_requests.len() == document.pull_requests.len()
            &&& forall|i: int|
                0 <= i < document.pull_requests.len() ==> (#[trigger] run.pull_requests[i]).0
                    == document.pull_requests[i].number
        }),
{
    let rows: Seq<NumberJsonView> = document.pull_requests;
    assert(facts::referenced(rows).len() == rows.len());
}

} // verus!
