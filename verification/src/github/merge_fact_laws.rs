//! What a merge of selected entries may ask for, what is observed of it and what
//! its receipt may claim, over the entries and the facts themselves.

use vstd::prelude::*;
use crate::command;
use crate::command::{CommandRunner, Reply, Sent};
use crate::github::adapter;
use crate::github::provider::MutationErrorView;
use crate::github::raw::{GitRefJson, GitRefJsonView};
use crate::github::stack;
use crate::github::stack::{
    GitHubStackEntryGenerationView, GitHubStackGenerationView, GitHubStackMutationErrorView,
};
use crate::github::stack_adapter;
use crate::github::stack_merge;
use crate::github::stack_merge::{
    GitHubStackAsyncMergePlanView, GitHubStackMergeCheckpointView, GitHubStackMergeErrorView,
    GitHubStackMergeObservationView, GitHubStackMergePullRequestObservationView,
    GitHubStackMergeReceiptView, GitHubStackMergeStatus, Next,
};
use crate::model;
use crate::model::{PullRequestSnapshotView, PullRequestState, RepositoryIdView};
use crate::text;

verus! {

// ---------------------------------------------------------------------------
// Plans
// ---------------------------------------------------------------------------

/// A merge can be asked for exactly by a named actor in a named operation, of a
/// Stack that is open and in the repository, and of its lowest entries, one at
/// least, that are all open, no drafts, and open in the Stack.
pub proof fn lemma_merge_is_accepted_exactly(
    repository: RepositoryIdView,
    plan: GitHubStackAsyncMergePlanView,
)
    ensures
        stack_merge::merge_refusal(repository, plan) is None <==> {
            let entries = plan.before.topology.entries;
            &&& !text::is_blank(plan.operation_id)
            &&& !text::is_blank(plan.actor)
            &&& plan.before.topology.base.repository == repository
            &&& plan.before.open
            &&& 0 < plan.selected.len() <= entries.len()
            &&& forall|i: int|
                0 <= i < plan.selected.len() ==> {
                    let entry = #[trigger] plan.selected[i];
                    &&& entry == entries[i]
                    &&& entry.pull_request_state == PullRequestState::Open
                    &&& !entry.draft
                    &&& text::same_ignoring_case(entry.stack_state, "open"@)
                }
        },
{
    let entries = plan.before.topology.entries;
    let n = plan.selected.len() as int;
    if 0 < n <= entries.len() {
        let front = entries.take(n);
        if plan.selected == front && !stack_merge::some_ineligible(plan.selected) {
            assert forall|i: int| 0 <= i < n implies {
                let entry = #[trigger] plan.selected[i];
                &&& entry == entries[i]
                &&& entry.pull_request_state == PullRequestState::Open
                &&& !entry.draft
                &&& text::same_ignoring_case(entry.stack_state, "open"@)
            } by {
                assert(front[i] == entries[i]);
                assert(!stack::ineligible(plan.selected[i]));
            }
        }
        if forall|i: int|
            0 <= i < plan.selected.len() ==> {
                let entry = #[trigger] plan.selected[i];
                &&& entry == entries[i]
                &&& entry.pull_request_state == PullRequestState::Open
                &&& !entry.draft
                &&& text::same_ignoring_case(entry.stack_state, "open"@)
            } {
            assert(plan.selected =~= front) by {
                assert forall|i: int| 0 <= i < n implies plan.selected[i] == front[i] by {
                    assert(plan.selected[i] == entries[i]);
                }
            }
            assert(!stack_merge::some_ineligible(plan.selected));
        }
    }
}

/// A merge is asked of the highest selected pull request, at the head commit
/// that was selected, and names all selected pull requests and heads in order.
pub proof fn lemma_request_names_the_selection(
    repository: RepositoryIdView,
    plan: GitHubStackAsyncMergePlanView,
)
    requires
        plan.selected.len() > 0,
    ensures
        ({
            let request = stack_merge::merge_identity(repository, plan);
            let top = plan.selected[plan.selected.len() - 1];
            &&& request.selected_top == top.pr
            &&& request.selected_top_sha == top.head.oid
            &&& request.ordered_pull_requests.len() == plan.selected.len()
            &&& request.ordered_heads.len() == plan.selected.len()
            &&& forall|i: int|
                0 <= i < plan.selected.len() ==> #[trigger] request.ordered_pull_requests[i]
                    == plan.selected[i].pr
            &&& forall|i: int|
                0 <= i < plan.selected.len() ==> #[trigger] request.ordered_heads[i]
                    == plan.selected[i].head.oid
            &&& stack_merge::merge_submit(repository, plan).stdin == Some(
                stack_merge::merge_body(top.head.oid, plan.merge_method, plan.merge_action),
            )
            &&& stack_merge::merge_submit(repository, plan).args.contains(
                "repos/"@ + repository.owner + "/"@ + repository.name + "/pulls/"@ + text::decimal(
                    top.pr.0 as nat,
                ) + "/merge-async"@,
            )
        }),
{
    let top = plan.selected[plan.selected.len() - 1];
    let path = "repos/"@ + repository.owner + "/"@ + repository.name + "/pulls/"@ + text::decimal(
        top.pr.0 as nat,
    ) + "/merge-async"@;
    assert(stack_merge::merge_path(repository, top.pr) =~= path);
    let args = stack_merge::merge_submit(repository, plan).args;
    assert(args[8] == path);
}

// ---------------------------------------------------------------------------
// Observations
// ---------------------------------------------------------------------------

/// A row holds what a fresh read of the pull request of an entry shows.
pub open spec fn row_was_read<R: CommandRunner>(
    runner: R,
    repository: RepositoryIdView,
    entry: GitHubStackEntryGenerationView,
    row: GitHubStackMergePullRequestObservationView,
) -> bool {
    exists|pr: PullRequestSnapshotView| #[trigger]
        adapter::refetched(runner, repository, text::decimal(entry.pr.0 as nat), Ok(pr)) && {
            &&& row.pr == pr.number
            &&& row.state == pr.state
            &&& row.draft == pr.draft
            &&& row.base == pr.base
            &&& row.head == pr.head
            &&& row.merged_at == pr.merged_at
        }
}

/// A pull request that is merged and says when.
pub open spec fn has_merged(row: GitHubStackMergePullRequestObservationView) -> bool {
    row.state == PullRequestState::Merged && row.merged_at is Some
}

/// The open entries of what is left are just the entries that were not
/// selected, in order; and where nothing is left, everything was selected.
pub open spec fn left_in_order(
    after: Option<GitHubStackGenerationView>,
    rest: Seq<GitHubStackEntryGenerationView>,
) -> bool {
    match after {
        None => rest.len() == 0,
        Some(seen) => {
            let left = seen.topology.entries.filter(
                |entry: GitHubStackEntryGenerationView|
                    entry.pull_request_state == PullRequestState::Open,
            );
            &&& left.len() == rest.len()
            &&& forall|i: int| 0 <= i < rest.len() ==> (#[trigger] left[i]).pr == rest[i].pr
        },
    }
}

proof fn lemma_open_prs(entries: Seq<GitHubStackEntryGenerationView>)
    ensures
        ({
            let left = entries.filter(
                |entry: GitHubStackEntryGenerationView|
                    entry.pull_request_state == PullRequestState::Open,
            );
            let prs = stack_merge::open_prs(entries);
            &&& prs.len() == left.len()
            &&& forall|i: int| 0 <= i < left.len() ==> (#[trigger] left[i]).pr == prs[i]
        }),
    decreases entries.len(),
{
    reveal(Seq::filter);
    if entries.len() > 0 {
        lemma_open_prs(entries.drop_last());
    }
}

proof fn lemma_left(
    after: Option<GitHubStackGenerationView>,
    rest: Seq<GitHubStackEntryGenerationView>,
)
    ensures
        stack_merge::remainder_exact(after, stack::entry_prs(rest)) == left_in_order(after, rest),
{
    if let Some(seen) = after {
        lemma_open_prs(seen.topology.entries);
        let prs = stack_merge::open_prs(seen.topology.entries);
        let wanted = stack::entry_prs(rest);
        let left = seen.topology.entries.filter(
            |entry: GitHubStackEntryGenerationView|
                entry.pull_request_state == PullRequestState::Open,
        );
        if prs == wanted {
            assert forall|i: int| 0 <= i < rest.len() implies (#[trigger] left[i]).pr
                == rest[i].pr by {
                assert(prs[i] == wanted[i]);
            }
        }
        if left_in_order(after, rest) {
            assert(prs =~= wanted) by {
                assert forall|i: int| 0 <= i < prs.len() implies prs[i] == wanted[i] by {
                    assert(left[i].pr == prs[i]);
                }
            }
        }
    }
}

proof fn lemma_counted(rows: Seq<GitHubStackMergePullRequestObservationView>)
    ensures
        stack_merge::merged_count(rows) == rows.filter(
            |row: GitHubStackMergePullRequestObservationView| has_merged(row),
        ).len(),
        stack_merge::merged_count(rows) <= rows.len(),
        stack_merge::merged_count(rows) == rows.len() <==> forall|i: int|
            0 <= i < rows.len() ==> has_merged(#[trigger] rows[i]),
        stack_merge::merged_count(rows) == 0 <==> forall|i: int|
            0 <= i < rows.len() ==> !has_merged(#[trigger] rows[i]),
    decreases rows.len(),
{
    reveal(Seq::filter);
    if rows.len() > 0 {
        let front = rows.drop_last();
        lemma_counted(front);
        assert forall|i: int| 0 <= i < front.len() implies #[trigger] front[i] == rows[i] by {}
        assert(rows[rows.len() - 1] == rows.last());
        if forall|i: int| 0 <= i < rows.len() ==> has_merged(#[trigger] rows[i]) {
            assert forall|i: int| 0 <= i < front.len() implies has_merged(#[trigger] front[i]) by {
                assert(has_merged(rows[i]));
            }
        }
        if forall|i: int| 0 <= i < rows.len() ==> !has_merged(#[trigger] rows[i]) {
            assert forall|i: int| 0 <= i < front.len() implies !has_merged(#[trigger] front[i]) by {
                assert(!has_merged(rows[i]));
            }
        }
        if stack_merge::merged_count(rows) == rows.len() {
            assert forall|i: int| 0 <= i < rows.len() implies has_merged(#[trigger] rows[i]) by {
                if i < front.len() {
                    assert(has_merged(front[i]));
                }
            }
        }
        if stack_merge::merged_count(rows) == 0 {
            assert forall|i: int| 0 <= i < rows.len() implies !has_merged(#[trigger] rows[i]) by {
                if i < front.len() {
                    assert(!has_merged(front[i]));
                }
            }
        }
    }
}

proof fn lemma_heads(
    rows: Seq<GitHubStackMergePullRequestObservationView>,
    sealed: Seq<GitHubStackEntryGenerationView>,
)
    requires
        rows.len() <= sealed.len(),
    ensures
        stack_merge::changed_heads(rows, sealed).len() == 0 <==> forall|i: int|
            0 <= i < rows.len() ==> (#[trigger] rows[i]).head == sealed[i].head,
    decreases rows.len(),
{
    if rows.len() > 0 {
        let front = rows.drop_last();
        lemma_heads(front, sealed);
        assert(rows[rows.len() - 1] == rows.last());
        if forall|i: int| 0 <= i < rows.len() ==> (#[trigger] rows[i]).head == sealed[i].head {
            assert forall|i: int| 0 <= i < front.len() implies (#[trigger] front[i]).head
                == sealed[i].head by {
                assert(rows[i].head == sealed[i].head);
            }
        }
        if stack_merge::changed_heads(rows, sealed).len() == 0 {
            assert forall|i: int| 0 <= i < rows.len() implies (#[trigger] rows[i]).head
                == sealed[i].head by {
                if i < front.len() {
                    assert(front[i].head == sealed[i].head);
                }
            }
        }
    }
}

proof fn lemma_observed_prs(reads: Seq<Result<PullRequestSnapshotView, MutationErrorView>>)
    requires
        stack_merge::observed_prs(reads) is Ok,
    ensures
        stack_merge::observed_prs(reads)->Ok_0.len() == reads.len(),
        forall|i: int|
            0 <= i < reads.len() ==> (#[trigger] reads[i]) is Ok && stack_merge::observed_prs(
                reads,
            )->Ok_0[i] == stack_merge::observation_of_pr(reads[i]->Ok_0),
    decreases reads.len(),
{
    if reads.len() > 0 {
        let front = reads.drop_last();
        lemma_observed_prs(front);
        let list = stack_merge::observed_prs(reads)->Ok_0;
        assert forall|i: int| 0 <= i < reads.len() implies (#[trigger] reads[i]) is Ok && list[i]
            == stack_merge::observation_of_pr(reads[i]->Ok_0) by {
            if i < front.len() {
                assert(front[i] == reads[i]);
            }
        }
    }
}

/// What is observed of a merge: the base branch at the commit that its reference
/// shows; of every entry of the Stack, in order, what a fresh read of its pull
/// request shows, the selected ones apart from the others; and the Stack as it
/// is read. The counts follow from the rows.
pub open spec fn merge_was_observed<R: CommandRunner>(
    runner: R,
    repository: RepositoryIdView,
    plan: GitHubStackAsyncMergePlanView,
    seen: GitHubStackMergeObservationView,
) -> bool {
    let entries = plan.before.topology.entries;
    let n = plan.selected.len() as int;
    &&& seen.default_branch.repository == repository
    &&& seen.default_branch.name == plan.before.topology.base.name
    &&& exists|reference: GitRefJsonView| #[trigger]
        adapter::got::<R, GitRefJson>(
            runner,
            stack::stack_base_ref(repository, plan.before.topology.base.name),
            Ok(reference),
        ) && seen.default_branch.oid == reference.object.sha
    &&& seen.selected.len() == n
    &&& seen.remaining.len() == entries.len() - n
    &&& forall|i: int|
        0 <= i < n ==> row_was_read(runner, repository, entries[i], #[trigger] seen.selected[i])
    &&& forall|i: int|
        0 <= i < entries.len() - n ==> row_was_read(
            runner,
            repository,
            entries[n + i],
            #[trigger] seen.remaining[i],
        )
    &&& stack_adapter::generation_read(
        runner,
        repository,
        plan.before.number,
        Ok(seen.stack_after),
    )
    &&& seen.selected_merged == seen.selected.filter(
        |row: GitHubStackMergePullRequestObservationView| has_merged(row),
    ).len()
    &&& seen.selected_heads_exact <==> forall|i: int|
        0 <= i < n ==> (#[trigger] seen.selected[i]).head == plan.selected[i].head
    &&& seen.remaining_order_exact <==> left_in_order(seen.stack_after, entries.skip(n))
}

/// An observation is made of fresh facts.
pub proof fn lemma_merge_is_observed<R: CommandRunner>(
    runner: R,
    repository: RepositoryIdView,
    plan: GitHubStackAsyncMergePlanView,
    seen: GitHubStackMergeObservationView,
)
    requires
        plan.selected.len() <= plan.before.topology.entries.len() <= usize::MAX,
        stack_merge::merge_observed(runner, repository, plan, Ok(seen)),
    ensures
        merge_was_observed(runner, repository, plan, seen),
{
    let outcome = Ok::<GitHubStackMergeObservationView, GitHubStackMergeErrorView>(seen);
    let entries = plan.before.topology.entries;
    let n = plan.selected.len() as int;
    let name = plan.before.topology.base.name;
    let read = choose|read: Result<GitRefJsonView, MutationErrorView>| #[trigger]
        adapter::got::<R, GitRefJson>(runner, stack::stack_base_ref(repository, name), read)
            && match read {
            Err(error) => outcome == Err::<GitHubStackMergeObservationView, _>(
                GitHubStackMergeErrorView::Provider(error),
            ),
            Ok(reference) => stack_merge::merge_observed_on(
                runner,
                repository,
                plan,
                stack_adapter::fresh_base(repository, name, reference),
                outcome,
            ),
        };
    let reference = read->Ok_0;
    assert(adapter::got::<R, GitRefJson>(
        runner,
        stack::stack_base_ref(repository, name),
        Ok(reference),
    ));
    let base = stack_adapter::fresh_base(repository, name, reference);
    let rows = choose|
        rows: Result<Seq<GitHubStackMergePullRequestObservationView>, MutationErrorView>,
    | #[trigger]
        stack_merge::prs_observed(runner, repository, stack::entry_prs(entries), rows)
            && match rows {
            Err(error) => outcome == Err::<GitHubStackMergeObservationView, _>(
                GitHubStackMergeErrorView::Provider(error),
            ),
            Ok(list) => stack_merge::merge_observed_stack(
                runner,
                repository,
                plan,
                base,
                list,
                outcome,
            ),
        };
    let list = rows->Ok_0;
    let reads = choose|reads: Seq<Result<PullRequestSnapshotView, MutationErrorView>>| #[trigger]
        adapter::refetched_each(runner, repository, stack::entry_prs(entries), reads) && rows
            == stack_merge::observed_prs(reads) && (rows is Ok ==> rows->Ok_0.len()
            == stack::entry_prs(entries).len());
    lemma_observed_prs(reads);
    let after = choose|
        after: Result<Option<GitHubStackGenerationView>, GitHubStackMutationErrorView>,
    | #[trigger]
        stack_adapter::generation_read(runner, repository, plan.before.number, after) && outcome
            == match after {
            Err(error) => Err(GitHubStackMergeErrorView::Stack(error)),
            Ok(generation) => Ok(stack_merge::observation_of(plan, base, list, generation)),
        };
    assert(after == Ok::<Option<GitHubStackGenerationView>, GitHubStackMutationErrorView>(
        seen.stack_after,
    ));
    assert forall|i: int| 0 <= i < entries.len() implies row_was_read(
        runner,
        repository,
        entries[i],
        #[trigger] list[i],
    ) by {
        assert(adapter::refetched(
            runner,
            repository,
            model::pr_text(stack::entry_prs(entries)[i]),
            reads[i],
        ));
        assert(adapter::refetched(
            runner,
            repository,
            text::decimal(entries[i].pr.0 as nat),
            Ok(reads[i]->Ok_0),
        ));
    }
    assert(seen.selected =~= list.take(n));
    assert(seen.remaining =~= list.skip(n));
    assert forall|i: int| 0 <= i < n implies row_was_read(
        runner,
        repository,
        entries[i],
        #[trigger] seen.selected[i],
    ) by {
        assert(seen.selected[i] == list[i]);
    }
    assert forall|i: int| 0 <= i < entries.len() - n implies row_was_read(
        runner,
        repository,
        entries[n + i],
        #[trigger] seen.remaining[i],
    ) by {
        assert(seen.remaining[i] == list[n + i]);
    }
    lemma_counted(seen.selected);
    lemma_heads(seen.selected, plan.selected);
    lemma_left(seen.stack_after, entries.skip(n));
}

// ---------------------------------------------------------------------------
// Receipts
// ---------------------------------------------------------------------------

/// What a receipt may claim by its status: merged only with facts that show
/// every selected pull request merged at the head that was selected and just the
/// others left in order; failed only with facts that show no selected one
/// merged, and where the provider said so; and that it goes on only where there
/// is a checkpoint to go on from and the provider said so.
pub open spec fn claims_what_is_seen<R: CommandRunner>(
    runner: R,
    receipt: GitHubStackMergeReceiptView,
) -> bool {
    let plan = receipt.plan;
    let n = plan.selected.len() as int;
    match receipt.status {
        GitHubStackMergeStatus::Merged => receipt.observation matches Some(seen) && {
            &&& merge_was_observed(runner, receipt.repository, plan, seen)
            &&& forall|i: int|
                0 <= i < n ==> has_merged(#[trigger] seen.selected[i]) && seen.selected[i].head
                    == plan.selected[i].head
            &&& left_in_order(seen.stack_after, plan.before.topology.entries.skip(n))
        },
        GitHubStackMergeStatus::Failed => receipt.observation matches Some(seen) && {
            &&& merge_was_observed(runner, receipt.repository, plan, seen)
            &&& forall|i: int| 0 <= i < n ==> !has_merged(#[trigger] seen.selected[i])
            &&& receipt.provider_status is Some && text::same_ignoring_case(
                receipt.provider_status->0,
                "failed"@,
            )
        },
        GitHubStackMergeStatus::Submitted => receipt.checkpoint is Some && receipt.provider_status
            is Some && text::lowered(receipt.provider_status->0) == "pending"@,
        GitHubStackMergeStatus::Pending => receipt.checkpoint is Some && receipt.provider_status
            is Some && text::lowered(receipt.provider_status->0) == "pending"@,
        GitHubStackMergeStatus::Enqueued => receipt.checkpoint is Some && receipt.provider_status
            is Some && text::lowered(receipt.provider_status->0) == "enqueued"@,
        GitHubStackMergeStatus::Indeterminate => true,
    }
}

proof fn lemma_classified(
    plan: GitHubStackAsyncMergePlanView,
    seen: GitHubStackMergeObservationView,
)
    requires
        seen.selected.len() == plan.selected.len(),
        seen.selected_merged == seen.selected.filter(
            |row: GitHubStackMergePullRequestObservationView| has_merged(row),
        ).len(),
    ensures
        stack_merge::classified(plan, seen) == GitHubStackMergeStatus::Merged <==> {
            &&& forall|i: int| 0 <= i < plan.selected.len() ==> has_merged(
                #[trigger] seen.selected[i],
            )
            &&& seen.selected_heads_exact
            &&& seen.remaining_order_exact
        },
        stack_merge::classified(plan, seen) == GitHubStackMergeStatus::Failed ==> forall|i: int|
            0 <= i < plan.selected.len() ==> !has_merged(#[trigger] seen.selected[i]),
{
    lemma_counted(seen.selected);
}

proof fn lemma_status(receipt: GitHubStackMergeReceiptView, status: GitHubStackMergeStatus)
    ensures
        ({
            let outcome = stack_merge::with_status(receipt, status);
            &&& outcome.status == status
            &&& outcome.plan == receipt.plan
            &&& outcome.repository == receipt.repository
            &&& outcome.request == receipt.request
            &&& outcome.checkpoint == receipt.checkpoint
            &&& outcome.provider_status == receipt.provider_status
            &&& outcome.provider_sha == receipt.provider_sha
            &&& outcome.observation == receipt.observation
        }),
{
}

proof fn lemma_shown_merged<R: CommandRunner>(
    runner: R,
    receipt: GitHubStackMergeReceiptView,
    shown: GitHubStackMergeObservationView,
)
    requires
        receipt.plan.selected.len() <= receipt.plan.before.topology.entries.len() <= usize::MAX,
        stack_merge::merge_observed(runner, receipt.repository, receipt.plan, Ok(shown)),
        receipt.observation == Some(shown),
        receipt.status == GitHubStackMergeStatus::Merged ==> stack_merge::classified(
            receipt.plan,
            shown,
        ) == GitHubStackMergeStatus::Merged,
        receipt.status == GitHubStackMergeStatus::Failed ==> stack_merge::classified(
            receipt.plan,
            shown,
        ) == GitHubStackMergeStatus::Failed && receipt.provider_status is Some
            && text::same_ignoring_case(receipt.provider_status->0, "failed"@),
        receipt.status == GitHubStackMergeStatus::Merged || receipt.status
            == GitHubStackMergeStatus::Failed || receipt.status
            == GitHubStackMergeStatus::Indeterminate,
    ensures
        claims_what_is_seen(runner, receipt),
{
    let plan = receipt.plan;
    lemma_merge_is_observed(runner, receipt.repository, plan, shown);
    lemma_classified(plan, shown);
    if receipt.status == GitHubStackMergeStatus::Merged {
        assert forall|i: int| 0 <= i < plan.selected.len() implies has_merged(
            #[trigger] shown.selected[i],
        ) && shown.selected[i].head == plan.selected[i].head by {}
    }
}

proof fn lemma_proved<R: CommandRunner>(
    runner: R,
    receipt: GitHubStackMergeReceiptView,
    seen: Result<GitHubStackMergeObservationView, GitHubStackMergeErrorView>,
    outcome: GitHubStackMergeReceiptView,
)
    requires
        receipt.plan.selected.len() <= receipt.plan.before.topology.entries.len() <= usize::MAX,
        stack_merge::merge_observed(runner, receipt.repository, receipt.plan, seen),
        outcome == stack_merge::terminal_receipt(receipt, seen),
    ensures
        claims_what_is_seen(runner, outcome),
        outcome.plan == receipt.plan,
        outcome.repository == receipt.repository,
        outcome.request == receipt.request,
        outcome.checkpoint == receipt.checkpoint,
        outcome.provider_status == receipt.provider_status,
        outcome.provider_sha == receipt.provider_sha,
        outcome.status == GitHubStackMergeStatus::Merged && outcome.provider_sha is Some
            ==> outcome.observation->0.default_branch.oid == outcome.provider_sha->0,
{
    if let Ok(shown) = seen {
        lemma_status(
            GitHubStackMergeReceiptView { observation: Some(shown), ..receipt },
            outcome.status,
        );
        lemma_shown_merged(runner, outcome, shown);
    }
}

proof fn lemma_looked<R: CommandRunner>(
    runner: R,
    receipt: GitHubStackMergeReceiptView,
    seen: Result<GitHubStackMergeObservationView, GitHubStackMergeErrorView>,
    outcome: GitHubStackMergeReceiptView,
)
    requires
        receipt.plan.selected.len() <= receipt.plan.before.topology.entries.len() <= usize::MAX,
        stack_merge::merge_observed(runner, receipt.repository, receipt.plan, seen),
        outcome == stack_merge::recovered_receipt(receipt, seen),
    ensures
        claims_what_is_seen(runner, outcome),
        outcome.plan == receipt.plan,
        outcome.repository == receipt.repository,
        outcome.request == receipt.request,
        outcome.checkpoint == receipt.checkpoint,
        outcome.provider_status == receipt.provider_status,
        outcome.provider_sha == receipt.provider_sha,
{
    if let Ok(shown) = seen {
        lemma_status(
            GitHubStackMergeReceiptView { observation: Some(shown), ..receipt },
            outcome.status,
        );
        lemma_shown_merged(runner, outcome, shown);
    }
}

proof fn lemma_claims<R: CommandRunner>(
    runner: R,
    receipt: GitHubStackMergeReceiptView,
    next: Next,
    outcome: GitHubStackMergeReceiptView,
)
    requires
        receipt.plan.selected.len() <= receipt.plan.before.topology.entries.len() <= usize::MAX,
        stack_merge::followed(runner, receipt, next, outcome),
        next matches Next::Keep(status) ==> {
            let word = if status == GitHubStackMergeStatus::Enqueued {
                "enqueued"@
            } else {
                "pending"@
            };
            &&& status == GitHubStackMergeStatus::Enqueued || status
                == GitHubStackMergeStatus::Pending || status == GitHubStackMergeStatus::Submitted
            &&& receipt.checkpoint is Some
            &&& receipt.provider_status is Some
            &&& text::lowered(receipt.provider_status->0) == word
        },
    ensures
        claims_what_is_seen(runner, outcome),
        outcome.plan == receipt.plan,
        outcome.repository == receipt.repository,
        outcome.request == receipt.request,
        outcome.checkpoint == receipt.checkpoint,
        outcome.provider_status == receipt.provider_status,
        outcome.provider_sha == receipt.provider_sha,
        next is Prove && outcome.status == GitHubStackMergeStatus::Merged
            && outcome.provider_sha is Some ==> outcome.observation->0.default_branch.oid
            == outcome.provider_sha->0,
{
    match next {
        Next::Keep(status) => {
            lemma_status(receipt, status);
        },
        Next::Prove => {
            let seen = choose|
                seen: Result<GitHubStackMergeObservationView, GitHubStackMergeErrorView>,
            | #[trigger]
                stack_merge::merge_observed(runner, receipt.repository, receipt.plan, seen)
                    && outcome == stack_merge::terminal_receipt(receipt, seen);
            lemma_proved(runner, receipt, seen, outcome);
        },
        Next::Look => {
            let seen = choose|
                seen: Result<GitHubStackMergeObservationView, GitHubStackMergeErrorView>,
            | #[trigger]
                stack_merge::merge_observed(runner, receipt.repository, receipt.plan, seen)
                    && outcome == stack_merge::recovered_receipt(receipt, seen);
            lemma_looked(runner, receipt, seen, outcome);
        },
    }
}

/// A request for a merge that is answered rests on a Stack that was read as it
/// was selected from; the request was sent; and its receipt claims only what is
/// seen after the answer.
pub proof fn lemma_submission_rests_on_facts<R: CommandRunner>(
    runner: R,
    repository: RepositoryIdView,
    plan: GitHubStackAsyncMergePlanView,
    receipt: GitHubStackMergeReceiptView,
)
    requires
        plan.before.topology.entries.len() <= usize::MAX,
        stack_merge::merge_submitted(runner, repository, plan, Ok(receipt)),
    ensures
        receipt.plan == plan,
        receipt.repository == repository,
        receipt.request.selected_top == plan.selected[plan.selected.len() - 1].pr,
        receipt.request.selected_top_sha == plan.selected[plan.selected.len() - 1].head.oid,
        stack_adapter::generation_read(
            runner,
            repository,
            plan.before.number,
            Ok(Some(plan.before)),
        ),
        exists|sent: Sent| #[trigger]
            command::was_sent(runner, stack_merge::merge_submit(repository, plan), sent)
                && claims_what_is_seen(command::after(&runner, &sent), receipt),
{
    lemma_merge_is_accepted_exactly(repository, plan);
    let outcome = Ok::<GitHubStackMergeReceiptView, GitHubStackMergeErrorView>(receipt);
    let read = choose|
        read: Result<Option<GitHubStackGenerationView>, GitHubStackMutationErrorView>,
    | #[trigger]
        stack_adapter::generation_read(runner, repository, plan.before.number, read) && match read {
            Err(error) => outcome == Err::<GitHubStackMergeReceiptView, _>(
                GitHubStackMergeErrorView::Stack(error),
            ),
            Ok(actual) => if actual != Some(plan.before) {
                outcome == Err::<GitHubStackMergeReceiptView, _>(
                    GitHubStackMergeErrorView::StaleGeneration { expected: plan.before, actual },
                )
            } else {
                outcome is Ok && stack_merge::submit_sent(runner, repository, plan, outcome->Ok_0)
            },
        };
    let sent = choose|sent: Sent| #[trigger]
        command::was_sent(runner, stack_merge::merge_submit(repository, plan), sent) && ({
            let reply = sent.answer();
            let request = stack_merge::answered(stack_merge::merge_identity(repository, plan), reply);
            let checkpoint = stack_merge::checkpoint_of(
                repository,
                plan,
                request,
                stack_merge::merge_result(reply),
            );
            stack_merge::followed(
                command::after(&runner, &sent),
                stack_merge::open_receipt(repository, plan, request, checkpoint, reply),
                stack_merge::next_after_submit(plan, checkpoint is Some, reply),
                receipt,
            )
        });
    let reply = sent.answer();
    let request = stack_merge::answered(stack_merge::merge_identity(repository, plan), reply);
    let checkpoint = stack_merge::checkpoint_of(
        repository,
        plan,
        request,
        stack_merge::merge_result(reply),
    );
    lemma_claims(
        command::after(&runner, &sent),
        stack_merge::open_receipt(repository, plan, request, checkpoint, reply),
        stack_merge::next_after_submit(plan, checkpoint is Some, reply),
        receipt,
    );
}

/// A poll that is answered claims only what is seen. One that says merged has
/// seen the base branch at the commit that the provider named, where it named
/// one.
pub proof fn lemma_poll_rests_on_facts<R: CommandRunner>(
    runner: R,
    repository: RepositoryIdView,
    checkpoint: GitHubStackMergeCheckpointView,
    receipt: GitHubStackMergeReceiptView,
)
    requires
        checkpoint.plan.before.topology.entries.len() <= usize::MAX,
        stack_merge::merge_polled(runner, repository, checkpoint, Ok(receipt)),
    ensures
        receipt.plan == checkpoint.plan,
        receipt.repository == repository,
        checkpoint.repository == repository,
        receipt.checkpoint == Some(checkpoint),
        claims_what_is_seen(runner, receipt),
        receipt.status == GitHubStackMergeStatus::Merged && receipt.provider_sha is Some
            ==> receipt.observation->0.default_branch.oid == receipt.provider_sha->0,
{
    lemma_merge_is_accepted_exactly(repository, checkpoint.plan);
    let reply = choose|reply: Reply| #[trigger]
        command::ran(runner, stack_merge::merge_poll(repository, checkpoint), reply)
            && stack_merge::followed(
            runner,
            stack_merge::open_receipt(
                repository,
                checkpoint.plan,
                stack_merge::poll_identity(repository, checkpoint, reply),
                Some(checkpoint),
                reply,
            ),
            stack_merge::next_after_poll(reply),
            receipt,
        );
    lemma_claims(
        runner,
        stack_merge::open_receipt(
            repository,
            checkpoint.plan,
            stack_merge::poll_identity(repository, checkpoint, reply),
            Some(checkpoint),
            reply,
        ),
        stack_merge::next_after_poll(reply),
        receipt,
    );
}

/// A merge that was merged as a whole is not missed: where the facts after the
/// answer show every selected pull request merged at its head, just the others
/// left in order, and the base branch at the commit that the provider named, the
/// receipt says so.
pub proof fn lemma_whole_merge_is_claimed(
    receipt: GitHubStackMergeReceiptView,
    seen: GitHubStackMergeObservationView,
)
    requires
        seen.selected.len() == receipt.plan.selected.len() <= usize::MAX,
        seen.selected_merged == seen.selected.filter(
            |row: GitHubStackMergePullRequestObservationView| has_merged(row),
        ).len(),
        forall|i: int|
            0 <= i < receipt.plan.selected.len() ==> has_merged(#[trigger] seen.selected[i]),
        seen.selected_heads_exact,
        seen.remaining_order_exact,
    ensures
        stack_merge::recovered_receipt(receipt, Ok(seen)).status == GitHubStackMergeStatus::Merged,
        receipt.provider_sha is None || receipt.provider_sha->0 == seen.default_branch.oid
            ==> stack_merge::terminal_receipt(receipt, Ok(seen)).status
            == GitHubStackMergeStatus::Merged,
        receipt.provider_sha is Some && receipt.provider_sha->0 != seen.default_branch.oid
            ==> stack_merge::terminal_receipt(receipt, Ok(seen)).status
            == GitHubStackMergeStatus::Indeterminate,
        stack_merge::recovered_receipt(receipt, Ok(seen)).observation == Some(seen),
        stack_merge::terminal_receipt(receipt, Ok(seen)).observation == Some(seen),
{
    lemma_classified(receipt.plan, seen);
}

} // verus!
