//! What a reshape proves of the pull requests and Stacks, over their own facts.

use vstd::prelude::*;
use crate::command::CommandRunner;
use crate::github::adapter;
use crate::github::provider::MutationErrorView;
use crate::github::stack;
use crate::github::stack::{
    GitHubStackEntryGenerationView, GitHubStackTopologyView,
};
use crate::github::stack_adapter;
use crate::github::stack_reshape;
use crate::github::stack_reshape::{
    GitHubStackReshapeCheckpointView, GitHubStackReshapeErrorView, GitHubStackReshapeOperation,
    GitHubStackReshapePhase, GitHubStackReshapePlanView, GitHubStackReshapePrPostconditionView,
};
use crate::model;
use crate::model::{
    OperationReceiptView, PrNumber, PullRequestSnapshotView, PullRequestState, RepositoryIdView,
};

verus! {

// ---------------------------------------------------------------------------
// Pull requests
// ---------------------------------------------------------------------------

/// Whether a pull request is as a reshape must leave it: open, ready, of this
/// repository, at the planned head and base, with every required label and no
/// forbidden one, and with auto-merge as planned.
pub open spec fn left_as_planned(
    row: GitHubStackReshapePrPostconditionView,
    seen: PullRequestSnapshotView,
) -> bool {
    &&& seen.state == PullRequestState::Open
    &&& !seen.draft
    &&& !seen.cross_repository
    &&& seen.head == row.head
    &&& seen.base == row.base
    &&& forall|k: int|
        0 <= k < row.required_labels.len() ==> seen.labels.contains(
            #[trigger] row.required_labels[k],
        )
    &&& forall|k: int|
        0 <= k < row.forbidden_labels.len() ==> !seen.labels.contains(
            #[trigger] row.forbidden_labels[k],
        )
    &&& seen.auto_merge.enabled == row.auto_merge_enabled
}

/// Whether a fresh read of a pull request shows it as a reshape must leave it.
pub open spec fn seen_as_planned<R: CommandRunner>(
    runner: R,
    repository: RepositoryIdView,
    row: GitHubStackReshapePrPostconditionView,
) -> bool {
    exists|seen: PullRequestSnapshotView|
        #[trigger] adapter::refetched(runner, repository, model::pr_text(row.pr), Ok(seen))
            && left_as_planned(row, seen)
}

proof fn lemma_labels(row: GitHubStackReshapePrPostconditionView, labels: Seq<Seq<char>>)
    ensures
        stack_reshape::is_within(row.required_labels, labels) <==> forall|k: int|
            0 <= k < row.required_labels.len() ==> labels.contains(
                #[trigger] row.required_labels[k],
            ),
        stack_reshape::is_apart(row.forbidden_labels, labels) <==> forall|k: int|
            0 <= k < row.forbidden_labels.len() ==> !labels.contains(
                #[trigger] row.forbidden_labels[k],
            ),
{
    let some = row.required_labels;
    let none = row.forbidden_labels;
    if stack_reshape::is_within(some, labels) {
        assert forall|k: int| 0 <= k < some.len() implies labels.contains(#[trigger] some[k]) by {
            assert(some.contains(some[k]));
        }
    }
    if forall|k: int| 0 <= k < some.len() ==> labels.contains(#[trigger] some[k]) {
        assert forall|x: Seq<char>| some.contains(x) implies #[trigger] labels.contains(x) by {
            let k = choose|k: int| 0 <= k < some.len() && some[k] == x;
            assert(labels.contains(some[k]));
        }
    }
    if stack_reshape::is_apart(none, labels) {
        assert forall|k: int| 0 <= k < none.len() implies !labels.contains(#[trigger] none[k]) by {
            assert(none.contains(none[k]));
        }
    }
    if forall|k: int| 0 <= k < none.len() ==> !labels.contains(#[trigger] none[k]) {
        assert forall|x: Seq<char>| none.contains(x) implies !#[trigger] labels.contains(x) by {
            let k = choose|k: int| 0 <= k < none.len() && none[k] == x;
            assert(!labels.contains(none[k]));
        }
    }
}

/// Nothing is named as changed exactly if the pull request is as planned.
pub proof fn lemma_nothing_changed_is_as_planned(
    row: GitHubStackReshapePrPostconditionView,
    seen: PullRequestSnapshotView,
)
    ensures
        stack_reshape::changed_pr(row, seen).len() == 0 <==> left_as_planned(row, seen),
{
    lemma_labels(row, seen.labels);
}

proof fn lemma_named(a: Seq<Seq<char>>, changed: bool, name: Seq<char>, x: Seq<char>)
    ensures
        (a + stack::named(changed, name)).contains(x) <==> a.contains(x) || (changed && x == name),
{
    let b = stack::named(changed, name);
    let all = a + b;
    if all.contains(x) {
        let k = choose|k: int| 0 <= k < all.len() && all[k] == x;
        if k < a.len() {
            assert(a[k] == x);
        }
    }
    if a.contains(x) {
        let k = choose|k: int| 0 <= k < a.len() && a[k] == x;
        assert(all[k] == x);
    }
    if changed && x == name {
        assert(all[a.len() as int] == x);
    }
}

/// What is named as changed is exactly what is not as planned.
pub proof fn lemma_changed_names_tell(
    row: GitHubStackReshapePrPostconditionView,
    seen: PullRequestSnapshotView,
)
    ensures
        forall|x: Seq<char>| #[trigger]
            stack_reshape::changed_pr(row, seen).contains(x) <==> {
                ||| x == "state"@ && seen.state != PullRequestState::Open
                ||| x == "draft"@ && seen.draft
                ||| x == "repository"@ && seen.cross_repository
                ||| x == "head"@ && seen.head != row.head
                ||| x == "base"@ && seen.base != row.base
                ||| x == "required_labels"@ && exists|k: int|
                    0 <= k < row.required_labels.len() && !seen.labels.contains(
                        #[trigger] row.required_labels[k],
                    )
                ||| x == "forbidden_labels"@ && exists|k: int|
                    0 <= k < row.forbidden_labels.len() && seen.labels.contains(
                        #[trigger] row.forbidden_labels[k],
                    )
                ||| x == "auto_merge"@ && seen.auto_merge.enabled != row.auto_merge_enabled
            },
{
    lemma_labels(row, seen.labels);
    let within = stack_reshape::is_within(row.required_labels, seen.labels);
    let apart = stack_reshape::is_apart(row.forbidden_labels, seen.labels);
    assert forall|x: Seq<char>| #[trigger] stack_reshape::changed_pr(row, seen).contains(x) <==> {
        ||| x == "state"@ && seen.state != PullRequestState::Open
        ||| x == "draft"@ && seen.draft
        ||| x == "repository"@ && seen.cross_repository
        ||| x == "head"@ && seen.head != row.head
        ||| x == "base"@ && seen.base != row.base
        ||| x == "required_labels"@ && !within
        ||| x == "forbidden_labels"@ && !apart
        ||| x == "auto_merge"@ && seen.auto_merge.enabled != row.auto_merge_enabled
    } by {
        let none = Seq::<Seq<char>>::empty();
        let a = stack::named(seen.state != PullRequestState::Open, "state"@);
        assert(none + a =~= a);
        lemma_named(none, seen.state != PullRequestState::Open, "state"@, x);
        let b = a + stack::named(seen.draft, "draft"@);
        lemma_named(a, seen.draft, "draft"@, x);
        let c = b + stack::named(seen.cross_repository, "repository"@);
        lemma_named(b, seen.cross_repository, "repository"@, x);
        let d = c + stack::named(seen.head != row.head, "head"@);
        lemma_named(c, seen.head != row.head, "head"@, x);
        let e = d + stack::named(seen.base != row.base, "base"@);
        lemma_named(d, seen.base != row.base, "base"@, x);
        let f = e + stack::named(!within, "required_labels"@);
        lemma_named(e, !within, "required_labels"@, x);
        let g = f + stack::named(!apart, "forbidden_labels"@);
        lemma_named(f, !apart, "forbidden_labels"@, x);
        lemma_named(
            g,
            seen.auto_merge.enabled != row.auto_merge_enabled,
            "auto_merge"@,
            x,
        );
    }
}

proof fn lemma_each_established(
    rows: Seq<GitHubStackReshapePrPostconditionView>,
    reads: Seq<Result<PullRequestSnapshotView, MutationErrorView>>,
)
    requires
        stack_reshape::established_of(rows, reads) is Ok,
    ensures
        forall|i: int|
            0 <= i < reads.len() ==> (#[trigger] reads[i]) is Ok && left_as_planned(
                rows[i],
                reads[i]->Ok_0,
            ),
    decreases reads.len(),
{
    if reads.len() > 0 {
        lemma_each_established(rows, reads.drop_last());
        let last = reads.len() - 1;
        lemma_nothing_changed_is_as_planned(rows[last], reads[last]->Ok_0);
        assert forall|i: int| 0 <= i < reads.len() implies (#[trigger] reads[i]) is Ok
            && left_as_planned(rows[i], reads[i]->Ok_0) by {
            if i < last {
                assert(reads.drop_last()[i] == reads[i]);
            }
        }
    }
}

proof fn lemma_established_is_seen<R: CommandRunner>(
    runner: R,
    repository: RepositoryIdView,
    rows: Seq<GitHubStackReshapePrPostconditionView>,
)
    requires
        stack_reshape::established(runner, repository, rows, Ok(())),
    ensures
        forall|i: int|
            0 <= i < rows.len() ==> seen_as_planned(runner, repository, #[trigger] rows[i]),
{
    let reads = choose|reads: Seq<Result<PullRequestSnapshotView, MutationErrorView>>| #[trigger]
        adapter::refetched_each(
            runner,
            repository,
            stack_reshape::postcondition_prs(rows),
            reads,
        ) && Ok::<(), GitHubStackReshapeErrorView>(()) == stack_reshape::established_of(
            rows,
            reads,
        ) && reads.len() == rows.len();
    lemma_each_established(rows, reads);
    assert forall|i: int| 0 <= i < rows.len() implies seen_as_planned(
        runner,
        repository,
        #[trigger] rows[i],
    ) by {
        assert(left_as_planned(rows[i], reads[i]->Ok_0));
        assert(adapter::refetched(
            runner,
            repository,
            model::pr_text(stack_reshape::postcondition_prs(rows)[i]),
            reads[i],
        ));
        assert(adapter::refetched(
            runner,
            repository,
            model::pr_text(rows[i].pr),
            Ok(reads[i]->Ok_0),
        ));
    }
}

/// A reshape is recorded as applied only if a fresh read of every pull request
/// shows it as planned.
pub proof fn lemma_recorded_reshape_is_seen<R: CommandRunner>(
    runner: R,
    repository: RepositoryIdView,
    checkpoint: GitHubStackReshapeCheckpointView,
    receipt: OperationReceiptView,
    next: GitHubStackReshapeCheckpointView,
)
    requires
        stack_reshape::reshape_recorded(runner, repository, checkpoint, receipt, Ok(next)),
        checkpoint.phase == GitHubStackReshapePhase::Unstacked,
    ensures
        next.phase == GitHubStackReshapePhase::ReshapeApplied,
        next.reshape_receipt == Some(receipt),
        next.plan == checkpoint.plan,
        next.unstack_receipt == checkpoint.unstack_receipt,
        next.replacement_receipts == checkpoint.replacement_receipts,
        next.final_stacks == checkpoint.final_stacks,
        match checkpoint.plan.operation {
            GitHubStackReshapeOperation::Evict => receipt.operation == "evict"@,
            GitHubStackReshapeOperation::Split => receipt.operation == "split"@,
        },
        forall|i: int|
            0 <= i < checkpoint.plan.pr_postconditions.len() ==> seen_as_planned(
                runner,
                repository,
                #[trigger] checkpoint.plan.pr_postconditions[i],
            ),
{
    lemma_established_is_seen(runner, repository, checkpoint.plan.pr_postconditions);
}

/// A reshape that is refused as incomplete names a pull request of the plan
/// whose fresh read is not as planned, and what is not.
pub proof fn lemma_incomplete_reshape_is_seen<R: CommandRunner>(
    runner: R,
    repository: RepositoryIdView,
    rows: Seq<GitHubStackReshapePrPostconditionView>,
    pr: PrNumber,
    changed_fields: Seq<Seq<char>>,
)
    requires
        stack_reshape::established(
            runner,
            repository,
            rows,
            Err(GitHubStackReshapeErrorView::ExistingReshapeIncomplete { pr, changed_fields }),
        ),
    ensures
        exists|i: int, seen: PullRequestSnapshotView|
            0 <= i < rows.len() && (#[trigger] rows[i]).pr == pr && #[trigger] adapter::refetched(
                runner,
                repository,
                model::pr_text(pr),
                Ok(seen),
            ) && !left_as_planned(rows[i], seen) && changed_fields == stack_reshape::changed_pr(
                rows[i],
                seen,
            ),
{
    let outcome = Err::<(), _>(
        GitHubStackReshapeErrorView::ExistingReshapeIncomplete { pr, changed_fields },
    );
    let reads = choose|reads: Seq<Result<PullRequestSnapshotView, MutationErrorView>>| #[trigger]
        adapter::refetched_each(
            runner,
            repository,
            stack_reshape::postcondition_prs(rows),
            reads,
        ) && outcome == stack_reshape::established_of(rows, reads);
    let i = lemma_first_incomplete(rows, reads, pr, changed_fields);
    let seen = reads[i]->Ok_0;
    lemma_nothing_changed_is_as_planned(rows[i], seen);
    assert(adapter::refetched(
        runner,
        repository,
        model::pr_text(stack_reshape::postcondition_prs(rows)[i]),
        reads[i],
    ));
    assert(adapter::refetched(runner, repository, model::pr_text(pr), Ok(seen)));
}

proof fn lemma_first_incomplete(
    rows: Seq<GitHubStackReshapePrPostconditionView>,
    reads: Seq<Result<PullRequestSnapshotView, MutationErrorView>>,
    pr: PrNumber,
    changed_fields: Seq<Seq<char>>,
) -> (i: int)
    requires
        reads.len() <= rows.len(),
        stack_reshape::established_of(rows, reads) == Err::<(), _>(
            GitHubStackReshapeErrorView::ExistingReshapeIncomplete { pr, changed_fields },
        ),
    ensures
        0 <= i < reads.len(),
        rows[i].pr == pr,
        reads[i] is Ok,
        changed_fields == stack_reshape::changed_pr(rows[i], reads[i]->Ok_0),
        changed_fields.len() != 0,
    decreases reads.len(),
{
    let last = reads.len() - 1;
    if stack_reshape::established_of(rows, reads.drop_last()) is Ok {
        last
    } else {
        let i = lemma_first_incomplete(rows, reads.drop_last(), pr, changed_fields);
        assert(reads.drop_last()[i] == reads[i]);
        i
    }
}

/// A Stack is created for a chain, and the end of a reshape is confirmed, only if
/// a fresh read of every pull request shows it as planned.
pub proof fn lemma_later_steps_are_seen<R: CommandRunner>(
    runner: R,
    repository: RepositoryIdView,
    checkpoint: GitHubStackReshapeCheckpointView,
    next: GitHubStackReshapeCheckpointView,
)
    requires
        (checkpoint.phase == GitHubStackReshapePhase::ReshapeApplied || checkpoint.phase
            == GitHubStackReshapePhase::Rebuilding) && stack_reshape::reshape_rebuilt(
            runner,
            repository,
            checkpoint,
            Ok(next),
        ) || checkpoint.phase == GitHubStackReshapePhase::Rebuilt
            && stack_reshape::reshape_verified(runner, repository, checkpoint, Ok(next)),
    ensures
        forall|i: int|
            0 <= i < checkpoint.plan.pr_postconditions.len() ==> seen_as_planned(
                runner,
                repository,
                #[trigger] checkpoint.plan.pr_postconditions[i],
            ),
{
    lemma_established_is_seen(runner, repository, checkpoint.plan.pr_postconditions);
}

/// A reshape begins only if a fresh read shows exactly the Stack of the plan.
pub proof fn lemma_preflight_is_seen<R: CommandRunner>(
    runner: R,
    repository: RepositoryIdView,
    plan: GitHubStackReshapePlanView,
    next: GitHubStackReshapeCheckpointView,
)
    requires
        stack_reshape::reshape_preflighted(runner, repository, plan, Ok(next)),
    ensures
        plan.repository == repository,
        exists|allowed: Option<PrNumber>|
            #[trigger] stack_adapter::generation_read_allowing(
                runner,
                repository,
                plan.before.number,
                allowed,
                Ok(Some(plan.before)),
            ) && (allowed is Some ==> plan.operation == GitHubStackReshapeOperation::Evict
                && allowed == Some(plan.selected_pr) && plan.before.topology.entries.len() > 0
                && plan.before.topology.entries.last().pr == plan.selected_pr),
        next.phase == GitHubStackReshapePhase::Preflighted,
        next.plan == plan,
        next.unstack_receipt is None,
        next.reshape_receipt is None,
        next.replacement_receipts.len() == 0,
        next.final_stacks.len() == 0,
{
    assert(stack_adapter::generation_read_allowing(
        runner,
        repository,
        plan.before.number,
        stack_reshape::stale_tail(plan),
        Ok(Some(plan.before)),
    ));
}

// ---------------------------------------------------------------------------
// Plans
// ---------------------------------------------------------------------------

/// Whether two entries are the same generation of a pull request, wherever they
/// stand.
pub open spec fn same_generation(
    a: GitHubStackEntryGenerationView,
    b: GitHubStackEntryGenerationView,
) -> bool {
    a.pr == b.pr && a.head == b.head && a.pull_request_state == b.pull_request_state && a.draft
        == b.draft && a.merged_at == b.merged_at
}

proof fn lemma_without(entries: Seq<GitHubStackEntryGenerationView>, at: int)
    requires
        0 <= at < entries.len(),
        forall|i: int, j: int|
            0 <= i < j < entries.len() ==> (#[trigger] entries[i]).pr != (#[trigger] entries[j]).pr,
    ensures
        stack_reshape::without(entries, entries[at].pr) == entries.take(at) + entries.skip(at + 1),
    decreases entries.len(),
{
    let pr = entries[at].pr;
    let rest = entries.drop_last();
    let last = entries.len() - 1;
    assert forall|i: int, j: int| 0 <= i < j < rest.len() implies (#[trigger] rest[i]).pr != (
    #[trigger] rest[j]).pr by {
        assert(entries[i].pr != entries[j].pr);
    }
    if at == last {
        lemma_without_absent(rest, pr);
        assert(entries.take(at) + entries.skip(at + 1) =~= rest);
    } else {
        assert(rest[at] == entries[at]);
        lemma_without(rest, at);
        assert(entries[at].pr != entries[last].pr);
        assert(entries.take(at) + entries.skip(at + 1) =~= (rest.take(at) + rest.skip(
            at + 1,
        )).push(entries[last]));
    }
}

proof fn lemma_without_absent(entries: Seq<GitHubStackEntryGenerationView>, pr: PrNumber)
    requires
        forall|i: int| 0 <= i < entries.len() ==> (#[trigger] entries[i]).pr != pr,
    ensures
        stack_reshape::without(entries, pr) == entries,
    decreases entries.len(),
{
    if entries.len() > 0 {
        let rest = entries.drop_last();
        assert forall|i: int| 0 <= i < rest.len() implies (#[trigger] rest[i]).pr != pr by {
            assert(entries[i].pr != pr);
        }
        lemma_without_absent(rest, pr);
        assert(entries[entries.len() - 1].pr != pr);
        assert(rest.push(entries.last()) =~= entries);
    } else {
        assert(stack_reshape::without(entries, pr) =~= entries);
    }
}

proof fn lemma_place(entries: Seq<GitHubStackEntryGenerationView>, pr: PrNumber)
    ensures
        match stack_reshape::place_of(entries, pr) {
            Some(at) => at < entries.len() && entries[at as int].pr == pr,
            None => forall|i: int| 0 <= i < entries.len() ==> (#[trigger] entries[i]).pr != pr,
        },
    decreases entries.len(),
{
    if entries.len() > 0 {
        lemma_place(entries.drop_last(), pr);
        match stack_reshape::place_of(entries, pr) {
            Some(at) => {
                if at < entries.len() - 1 {
                    assert(entries.drop_last()[at as int] == entries[at as int]);
                }
            },
            None => {
                assert forall|i: int| 0 <= i < entries.len() implies (#[trigger] entries[i]).pr
                    != pr by {
                    if i < entries.len() - 1 {
                        assert(entries.drop_last()[i] == entries[i]);
                    }
                }
            },
        }
    }
}

proof fn lemma_distinct(plan: GitHubStackReshapePlanView)
    requires
        stack_reshape::plan_refusal(plan) is None,
    ensures
        plan.before.topology.entries.len() >= 2,
        forall|i: int, j: int|
            0 <= i < j < plan.before.topology.entries.len() ==> (
            #[trigger] plan.before.topology.entries[i]).pr != (
            #[trigger] plan.before.topology.entries[j]).pr,
{
    let entries = plan.before.topology.entries;
    let settled = stack::settled(plan.before.topology, stack_reshape::stale_tail(plan));
    stack::lemma_accepted_entries_are_well_formed(
        plan.repository,
        settled.base,
        settled.entries,
    );
    assert(settled.entries.len() == entries.len());
    assert forall|i: int| 0 <= i < entries.len() implies (#[trigger] entries[i]).pr
        == settled.entries[i].pr by {}
    assert forall|i: int, j: int| 0 <= i < j < entries.len() implies (#[trigger] entries[i]).pr
        != (#[trigger] entries[j]).pr by {
        assert(settled.entries[i].pr != settled.entries[j].pr);
    }
}

/// An accepted plan parts its Stack at the selected pull request. An eviction
/// leaves one chain of all the others, in order; a split leaves two: what stands
/// below the selected one, which is not the lowest, and the rest from it on.
/// Every generation is kept.
pub proof fn lemma_plan_parts_the_stack(plan: GitHubStackReshapePlanView)
    requires
        stack_reshape::plan_refusal(plan) is None,
    ensures
        plan.before.open,
        plan.before.number != 0,
        plan.before.id != 0,
        exists|at: int|
            0 <= at < plan.before.topology.entries.len() && (
            #[trigger] plan.before.topology.entries[at]).pr == plan.selected_pr && parted(plan, at),
{
    let entries = plan.before.topology.entries;
    let chains = plan.replacement_chains;
    lemma_distinct(plan);
    lemma_place(entries, plan.selected_pr);
    let at = stack_reshape::place_of(entries, plan.selected_pr)->0 as int;
    assert(entries[at].pr == plan.selected_pr);
    assert(stack_reshape::members_refusal(plan) is None);
    assert(stack_reshape::partition_refusal(plan, at as nat) is None);
    let desired = stack_reshape::all_entries(chains);
    let kept = stack_reshape::members(plan);
    reveal_with_fuel(stack_reshape::all_entries, 4);
    assert forall|i: int| 0 <= i < desired.len() implies same_generation(
        #[trigger] desired[i],
        kept[i],
    ) by {
        assert(stack_reshape::kept(desired[i], kept[i]));
    }
    match plan.operation {
        GitHubStackReshapeOperation::Evict => {
            lemma_without(entries, at);
            if chains.len() == 0 {
                assert(desired.len() == 0);
            }
            assert(chains.len() == 1);
            assert(chains.drop_last() =~= Seq::empty());
            assert(desired =~= chains[0].entries);
            assert forall|j: int| 0 <= j < chains[0].entries.len() implies same_generation(
                #[trigger] chains[0].entries[j],
                entries[if j < at {
                    j
                } else {
                    j + 1
                }],
            ) by {
                assert(same_generation(desired[j], kept[j]));
            }
        },
        GitHubStackReshapeOperation::Split => {
            assert(chains.drop_last().drop_last() =~= Seq::empty());
            assert(chains.drop_last().last() == chains[0]);
            assert(desired =~= chains[0].entries + chains[1].entries);
            assert forall|j: int| 0 <= j < chains[0].entries.len() implies same_generation(
                #[trigger] chains[0].entries[j],
                entries[j],
            ) by {
                assert(desired[j] == chains[0].entries[j]);
            }
            assert forall|j: int| 0 <= j < chains[1].entries.len() implies same_generation(
                #[trigger] chains[1].entries[j],
                entries[at + j],
            ) by {
                assert(desired[at + j] == chains[1].entries[j]);
            }
        },
    }
}

/// Whether the chains of a plan are the parts of its Stack around a place.
pub open spec fn parted(plan: GitHubStackReshapePlanView, at: int) -> bool {
    let entries = plan.before.topology.entries;
    let chains = plan.replacement_chains;
    match plan.operation {
        GitHubStackReshapeOperation::Evict => {
            &&& chains.len() == 1
            &&& chains[0].entries.len() == entries.len() - 1
            &&& forall|j: int|
                0 <= j < chains[0].entries.len() ==> same_generation(
                    #[trigger] chains[0].entries[j],
                    entries[if j < at {
                        j
                    } else {
                        j + 1
                    }],
                )
        },
        GitHubStackReshapeOperation::Split => {
            &&& at > 0
            &&& chains.len() == 2
            &&& chains[0].entries.len() == at
            &&& chains[1].entries.len() == entries.len() - at
            &&& forall|j: int|
                0 <= j < chains[0].entries.len() ==> same_generation(
                    #[trigger] chains[0].entries[j],
                    entries[j],
                )
            &&& forall|j: int|
                0 <= j < chains[1].entries.len() ==> same_generation(
                    #[trigger] chains[1].entries[j],
                    entries[at + j],
                )
        },
    }
}

proof fn lemma_in_some_chain(chains: Seq<GitHubStackTopologyView>, i: int)
    requires
        0 <= i < stack_reshape::all_entries(chains).len(),
    ensures
        exists|c: int, j: int|
            0 <= c < chains.len() && 0 <= j < chains[c].entries.len() && #[trigger] chains[c].entries[j]
                == stack_reshape::all_entries(chains)[i],
    decreases chains.len(),
{
    let rest = stack_reshape::all_entries(chains.drop_last());
    if i < rest.len() {
        lemma_in_some_chain(chains.drop_last(), i);
        let (c, j) = choose|c: int, j: int|
            0 <= c < chains.drop_last().len() && 0 <= j < chains.drop_last()[c].entries.len()
                && #[trigger] chains.drop_last()[c].entries[j] == rest[i];
        assert(chains[c].entries[j] == stack_reshape::all_entries(chains)[i]);
    } else {
        assert(chains[chains.len() - 1].entries[i - rest.len()] == stack_reshape::all_entries(
            chains,
        )[i]);
    }
}

proof fn lemma_entry_for(entries: Seq<GitHubStackEntryGenerationView>, pr: PrNumber) -> (at: int)
    requires
        stack_reshape::entry_for(entries, pr) is Some,
    ensures
        0 <= at < entries.len(),
        entries[at].pr == pr,
        stack_reshape::entry_for(entries, pr) == Some(entries[at]),
    decreases entries.len(),
{
    if entries.last().pr == pr {
        entries.len() - 1
    } else {
        let at = lemma_entry_for(entries.drop_last(), pr);
        assert(entries.drop_last()[at] == entries[at]);
        at
    }
}

proof fn lemma_derived_each(
    operation: GitHubStackReshapeOperation,
    selected: PrNumber,
    replacements: Seq<GitHubStackEntryGenerationView>,
    entries: Seq<GitHubStackEntryGenerationView>,
    list: Seq<GitHubStackReshapePrPostconditionView>,
)
    requires
        stack_reshape::derived(operation, selected, replacements, entries) == Ok::<
            _,
            GitHubStackReshapeErrorView,
        >(list),
    ensures
        list.len() == entries.len(),
        forall|i: int|
            0 <= i < list.len() ==> stack_reshape::postcondition_of(
                operation,
                selected,
                replacements,
                entries[i],
            ) == Ok::<_, GitHubStackReshapeErrorView>(#[trigger] list[i]),
    decreases entries.len(),
{
    if entries.len() > 0 {
        let rest = stack_reshape::derived(operation, selected, replacements, entries.drop_last());
        let below = list.drop_last();
        assert(rest is Ok);
        assert(list == rest->Ok_0.push(list.last()));
        assert(below =~= rest->Ok_0);
        lemma_derived_each(operation, selected, replacements, entries.drop_last(), below);
        assert forall|i: int| 0 <= i < list.len() implies stack_reshape::postcondition_of(
            operation,
            selected,
            replacements,
            entries[i],
        ) == Ok::<_, GitHubStackReshapeErrorView>(#[trigger] list[i]) by {
            if i < below.len() {
                assert(below[i] == list[i]);
                assert(entries.drop_last()[i] == entries[i]);
            }
        }
    }
}

/// An accepted plan says of every member of its Stack, in order, what must be
/// left of it: the evicted one is no active member any more, nor forced, and
/// stays where it is; every other one is an active member at its place in a
/// chain. None is merged by itself.
pub proof fn lemma_plan_says_what_is_left(plan: GitHubStackReshapePlanView)
    requires
        stack_reshape::plan_refusal(plan) is None,
    ensures
        plan.pr_postconditions.len() == plan.before.topology.entries.len(),
        forall|i: int|
            0 <= i < plan.pr_postconditions.len() ==> {
                let row = #[trigger] plan.pr_postconditions[i];
                let entry = plan.before.topology.entries[i];
                &&& row.pr == entry.pr
                &&& !row.auto_merge_enabled
                &&& if plan.operation == GitHubStackReshapeOperation::Evict && entry.pr
                    == plan.selected_pr {
                    &&& row.head == entry.head
                    &&& row.base == entry.base
                    &&& row.required_labels.contains("caravan-evicted"@)
                    &&& row.forbidden_labels.contains("caravan"@)
                    &&& row.forbidden_labels.contains("caravan-force"@)
                } else {
                    &&& row.required_labels.contains("caravan"@)
                    &&& row.forbidden_labels.contains("caravan-evicted"@)
                    &&& exists|c: int, j: int|
                        0 <= c < plan.replacement_chains.len() && 0 <= j
                            < plan.replacement_chains[c].entries.len() && (
                        #[trigger] plan.replacement_chains[c].entries[j]).pr == row.pr && row.head
                            == plan.replacement_chains[c].entries[j].head && row.base
                            == plan.replacement_chains[c].entries[j].base
                }
            },
{
    let replacements = stack_reshape::all_entries(plan.replacement_chains);
    let entries = plan.before.topology.entries;
    lemma_derived_each(
        plan.operation,
        plan.selected_pr,
        replacements,
        entries,
        plan.pr_postconditions,
    );
    let active = stack_reshape::one_label("caravan"@);
    let evicted = stack_reshape::one_label("caravan-evicted"@);
    assert(active[0] == "caravan"@);
    assert(evicted[0] == "caravan-evicted"@);
    model::lemma_label_set(active);
    assert(model::strictly_sorted(active));
    model::lemma_label_insert_sorted(active, "caravan-force"@);
    assert(active.contains("caravan"@));
    assert(model::label_insert(active, "caravan-force"@).contains("caravan"@));
    assert(model::label_insert(active, "caravan-force"@).contains("caravan-force"@));
    assert forall|i: int| 0 <= i < plan.pr_postconditions.len() implies {
        let row = #[trigger] plan.pr_postconditions[i];
        let entry = entries[i];
        (plan.operation == GitHubStackReshapeOperation::Evict && entry.pr == plan.selected_pr)
            || exists|c: int, j: int|
            0 <= c < plan.replacement_chains.len() && 0 <= j
                < plan.replacement_chains[c].entries.len() && (
            #[trigger] plan.replacement_chains[c].entries[j]).pr == row.pr && row.head
                == plan.replacement_chains[c].entries[j].head && row.base
                == plan.replacement_chains[c].entries[j].base
    } by {
        let row = plan.pr_postconditions[i];
        let entry = entries[i];
        assert(stack_reshape::postcondition_of(
            plan.operation,
            plan.selected_pr,
            replacements,
            entry,
        ) == Ok::<_, GitHubStackReshapeErrorView>(row));
        if !(plan.operation == GitHubStackReshapeOperation::Evict && entry.pr
            == plan.selected_pr) {
            let at = lemma_entry_for(replacements, entry.pr);
            lemma_in_some_chain(plan.replacement_chains, at);
            let (c, j) = choose|c: int, j: int|
                0 <= c < plan.replacement_chains.len() && 0 <= j
                    < plan.replacement_chains[c].entries.len()
                    && #[trigger] plan.replacement_chains[c].entries[j] == replacements[at];
            assert(plan.replacement_chains[c].entries[j].pr == row.pr);
        }
    }
}

} // verus!
