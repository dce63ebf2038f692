//! What holds of reshapes as a whole.

use vstd::prelude::*;
use crate::command::CommandRunner;
use crate::github::stack;
use crate::github::stack::{
    GitHubStackEntryGenerationView, GitHubStackGenerationView, GitHubStackMutationErrorView,
    GitHubStackMutationReceiptView, GitHubStackTopologyView,
};
use crate::github::stack_adapter;
use crate::github::stack_reshape;
use crate::github::stack_reshape::{
    GitHubStackReshapeCheckpointView, GitHubStackReshapeErrorView, GitHubStackReshapeOperation,
    GitHubStackReshapePhase, GitHubStackReshapePlanView, GitHubStackReshapePrPostconditionView,
    RESHAPE_SCHEMA_VERSION,
};
use crate::json;
use crate::model::{OperationReceiptView, PrNumber, RepositoryIdView};
use crate::text;

verus! {

proof fn lemma_left_out(entries: Seq<GitHubStackEntryGenerationView>, pr: PrNumber)
    ensures
        !stack::listed(stack_reshape::without(entries, pr), pr),
    decreases entries.len(),
{
    if entries.len() > 0 {
        let below = stack_reshape::without(entries.drop_last(), pr);
        lemma_left_out(entries.drop_last(), pr);
        if entries.last().pr != pr {
            let all = below.push(entries.last());
            if stack::listed(all, pr) {
                let i = choose|i: int| 0 <= i < all.len() && (#[trigger] all[i]).pr == pr;
                if i < below.len() {
                    assert(below[i] == all[i]);
                }
            }
        }
    }
}

proof fn lemma_chains_accepted(
    plan: GitHubStackReshapePlanView,
    chains: Seq<GitHubStackTopologyView>,
)
    requires
        stack_reshape::chains_refusal(plan, chains) is None,
    ensures
        forall|i: int|
            0 <= i < chains.len() ==> stack_reshape::chain_refusal(plan, #[trigger] chains[i])
                is None,
    decreases chains.len(),
{
    if chains.len() > 0 {
        lemma_chains_accepted(plan, chains.drop_last());
        assert forall|i: int| 0 <= i < chains.len() implies stack_reshape::chain_refusal(
            plan,
            #[trigger] chains[i],
        ) is None by {
            if i < chains.len() - 1 {
                assert(chains.drop_last()[i] == chains[i]);
            }
        }
    }
}

/// The chains of an accepted plan hold exactly the members that must be left,
/// in order and at the same heads: all of them after a split, all but the
/// selected one after an eviction. Each chain is valid and stands on the base
/// of the Stack.
pub proof fn lemma_chains_keep_members(plan: GitHubStackReshapePlanView)
    requires
        stack_reshape::plan_refusal(plan) is None,
    ensures
        stack::entry_prs(stack_reshape::all_entries(plan.replacement_chains)) == stack::entry_prs(
            stack_reshape::members(plan),
        ),
        stack_reshape::all_kept(
            stack_reshape::all_entries(plan.replacement_chains),
            stack_reshape::members(plan),
        ),
        plan.operation == GitHubStackReshapeOperation::Evict ==> !stack::listed(
            stack_reshape::all_entries(plan.replacement_chains),
            plan.selected_pr,
        ),
        forall|i: int|
            0 <= i < plan.replacement_chains.len() ==> (
            #[trigger] plan.replacement_chains[i]).base == plan.before.topology.base
                && stack::topology_refusal(plan.repository, plan.replacement_chains[i], 1) is None,
{
    let desired = stack_reshape::all_entries(plan.replacement_chains);
    let kept = stack_reshape::members(plan);
    assert(stack_reshape::members_refusal(plan) is None);
    assert(stack::entry_prs(desired) =~= stack::entry_prs(kept));
    if plan.operation == GitHubStackReshapeOperation::Evict {
        lemma_left_out(plan.before.topology.entries, plan.selected_pr);
        if stack::listed(desired, plan.selected_pr) {
            let i = choose|i: int|
                0 <= i < desired.len() && (#[trigger] desired[i]).pr == plan.selected_pr;
            assert(kept[i].pr == plan.selected_pr);
        }
    }
    lemma_chains_accepted(plan, plan.replacement_chains);
    assert forall|i: int| 0 <= i < plan.replacement_chains.len() implies (
    #[trigger] plan.replacement_chains[i]).base == plan.before.topology.base
        && stack::topology_refusal(plan.repository, plan.replacement_chains[i], 1) is None by {
        assert(stack_reshape::chain_refusal(plan, plan.replacement_chains[i]) is None);
    }
}

proof fn lemma_derived_rows(
    operation: GitHubStackReshapeOperation,
    selected: PrNumber,
    replacements: Seq<GitHubStackEntryGenerationView>,
    entries: Seq<GitHubStackEntryGenerationView>,
    list: Seq<GitHubStackReshapePrPostconditionView>,
)
    requires
        stack_reshape::derived(operation, selected, replacements, entries) == Ok::<
            _,
            GitHubStackReshapeErrorView,
        >(list),
    ensures
        list.len() == entries.len(),
        forall|i: int|
            0 <= i < list.len() ==> stack_reshape::postcondition_of(
                operation,
                selected,
                replacements,
                entries[i],
            ) == Ok::<_, GitHubStackReshapeErrorView>(#[trigger] list[i]),
    decreases entries.len(),
{
    if entries.len() > 0 {
        let below = list.drop_last();
        let rest = stack_reshape::derived(operation, selected, replacements, entries.drop_last());
        assert(rest is Ok);
        assert(list == rest->Ok_0.push(list.last()));
        assert(below =~= rest->Ok_0);
        lemma_derived_rows(operation, selected, replacements, entries.drop_last(), below);
        assert forall|i: int| 0 <= i < list.len() implies stack_reshape::postcondition_of(
            operation,
            selected,
            replacements,
            entries[i],
        ) == Ok::<_, GitHubStackReshapeErrorView>(#[trigger] list[i]) by {
            if i < below.len() {
                assert(below[i] == list[i]);
                assert(entries.drop_last()[i] == entries[i]);
            }
        }
    }
}

/// An accepted plan says of every member of the Stack, in order, what must be
/// left of it: the evicted one carries the label of evicted ones and neither of
/// the others, every other one the active label; none is merged by itself.
pub proof fn lemma_postconditions_cover_members(plan: GitHubStackReshapePlanView)
    requires
        stack_reshape::plan_refusal(plan) is None,
    ensures
        plan.pr_postconditions.len() == plan.before.topology.entries.len(),
        forall|i: int|
            0 <= i < plan.pr_postconditions.len() ==> {
                let row = #[trigger] plan.pr_postconditions[i];
                let entry = plan.before.topology.entries[i];
                let evicted = stack_reshape::is_evicted(plan.operation, plan.selected_pr, entry);
                row.pr == entry.pr && !row.auto_merge_enabled && row.required_labels
                    == stack_reshape::labels_required(evicted) && row.forbidden_labels
                    == stack_reshape::labels_forbidden(evicted)
            },
{
    lemma_derived_rows(
        plan.operation,
        plan.selected_pr,
        stack_reshape::all_entries(plan.replacement_chains),
        plan.before.topology.entries,
        plan.pr_postconditions,
    );
}

proof fn lemma_hex_length(n: nat, width: nat)
    ensures
        text::hex_digits(n, width).len() == width,
    decreases width,
{
    if width > 0 {
        lemma_hex_length(n / 16, (width - 1) as nat);
    }
}

proof fn lemma_chains_ignore_hash(
    plan: GitHubStackReshapePlanView,
    other: GitHubStackReshapePlanView,
    chains: Seq<GitHubStackTopologyView>,
)
    requires
        plan.repository == other.repository,
        plan.before == other.before,
    ensures
        stack_reshape::chains_refusal(plan, chains) == stack_reshape::chains_refusal(
            other,
            chains,
        ),
    decreases chains.len(),
{
    if chains.len() > 0 {
        lemma_chains_ignore_hash(plan, other, chains.drop_last());
    }
}

/// A plan that is made is valid, and holds what it was made from.
pub proof fn lemma_new_plan_is_valid(
    repository: RepositoryIdView,
    operation_id: Seq<char>,
    actor: Seq<char>,
    operation: GitHubStackReshapeOperation,
    selected_pr: PrNumber,
    before: GitHubStackGenerationView,
    replacement_chains: Seq<GitHubStackTopologyView>,
    plan: GitHubStackReshapePlanView,
)
    requires
        stack_reshape::planned(
            repository,
            operation_id,
            actor,
            operation,
            selected_pr,
            before,
            replacement_chains,
        ) == Ok::<_, GitHubStackReshapeErrorView>(plan),
    ensures
        plan.valid(),
        plan.repository == repository,
        plan.before == before,
        plan.replacement_chains == replacement_chains,
        plan.selected_pr == selected_pr,
{
    let start = GitHubStackReshapePlanView {
        schema_version: RESHAPE_SCHEMA_VERSION,
        repository,
        operation_id,
        actor,
        operation,
        selected_pr,
        before,
        replacement_chains,
        pr_postconditions: plan.pr_postconditions,
        plan_hash: Seq::empty(),
    };
    assert(plan == start.sealed());
    stack_reshape::lemma_sealed_reshape_plan_is_intact(start);
    let bytes = vstd::utf8::encode_utf8(
        json::json_text(
            <stack_reshape::GitHubStackReshapePlan as json::JsonForm>::form(start.unsealed()),
        ),
    );
    lemma_hex_length(text::fnv_hash(bytes) as nat, 16);
    assert(plan.plan_hash == text::fnv_text(bytes));
    lemma_chains_ignore_hash(start, plan, replacement_chains);
    assert(stack_reshape::stale_tail(start) == stack_reshape::stale_tail(plan));
    assert(stack_reshape::before_refusal(start) == stack_reshape::before_refusal(plan));
    assert(stack_reshape::members(start) == stack_reshape::members(plan));
    assert(stack_reshape::replacement_refusal(start) == stack_reshape::replacement_refusal(plan));
}

/// Whether a reshape may follow another: it is valid, goes on with the same
/// plan, and never goes back.
pub open spec fn follows(
    repository: RepositoryIdView,
    before: GitHubStackReshapeCheckpointView,
    after: GitHubStackReshapeCheckpointView,
) -> bool {
    stack_reshape::reshape_accepted(repository, after) && after.plan == before.plan
        && after.phase.rank() >= before.phase.rank()
}

proof fn lemma_sealed_keeps_shape(checkpoint: GitHubStackReshapeCheckpointView)
    requires
        checkpoint.schema_version == RESHAPE_SCHEMA_VERSION,
        !checkpoint.provider_atomic,
        checkpoint.repository == checkpoint.plan.repository,
        checkpoint.plan.valid(),
        stack_reshape::shape_refusal(checkpoint) is None,
    ensures
        checkpoint.sealed().valid(),
{
    stack_reshape::lemma_sealed_reshape_checkpoint_is_intact(checkpoint);
    let chains = stack_reshape::stackable(checkpoint.plan.replacement_chains);
    assert(stack_reshape::fits_phase(checkpoint.sealed(), chains) == stack_reshape::fits_phase(
        checkpoint,
        chains,
    ));
    assert(stack_reshape::shape_refusal(checkpoint.sealed()) == stack_reshape::shape_refusal(
        checkpoint,
    ));
}

/// The preflight of a plan leads to a valid reshape of that plan, and only if
/// the Stack is exactly the one planned for.
pub proof fn lemma_preflight_step<R: CommandRunner>(
    runner: R,
    repository: RepositoryIdView,
    plan: GitHubStackReshapePlanView,
    next: GitHubStackReshapeCheckpointView,
)
    requires
        stack_reshape::reshape_preflighted(runner, repository, plan, Ok(next)),
    ensures
        stack_reshape::reshape_accepted(repository, next),
        next.plan == plan,
        next.phase == GitHubStackReshapePhase::Preflighted,
{
    lemma_sealed_keeps_shape(
        GitHubStackReshapeCheckpointView {
            schema_version: RESHAPE_SCHEMA_VERSION,
            repository: plan.repository,
            plan,
            phase: GitHubStackReshapePhase::Preflighted,
            provider_atomic: false,
            unstack_receipt: None,
            reshape_receipt: None,
            replacement_receipts: Seq::empty(),
            final_stacks: Seq::empty(),
            evidence_hash: Seq::empty(),
        },
    );
}

/// Taking a Stack apart leads to a valid reshape with the proof that the Stack
/// is gone. Once it was taken apart, the step changes nothing.
pub proof fn lemma_unstack_step<R: CommandRunner>(
    runner: R,
    repository: RepositoryIdView,
    checkpoint: GitHubStackReshapeCheckpointView,
    next: GitHubStackReshapeCheckpointView,
)
    requires
        stack_reshape::reshape_unstacked(runner, repository, checkpoint, Ok(next)),
    ensures
        follows(repository, checkpoint, next),
        next.unstack_receipt is Some,
        checkpoint.phase != GitHubStackReshapePhase::Preflighted ==> next == checkpoint,
{
    if checkpoint.phase == GitHubStackReshapePhase::Preflighted {
        let request = stack_reshape::unstack_plan(checkpoint.plan);
        let allowed = stack_reshape::stale_tail(checkpoint.plan);
        let done = choose|
            done: Result<GitHubStackMutationReceiptView, GitHubStackMutationErrorView>,
        | #[trigger]
            stack_adapter::unstacked(runner, repository, request, allowed, done) && Ok::<
                _,
                GitHubStackReshapeErrorView,
            >(next) == stack_reshape::after_unstack(checkpoint, done);
        stack_adapter::lemma_unstacked_receipt(runner, repository, request, allowed, done->Ok_0);
        let start = GitHubStackReshapeCheckpointView {
            phase: GitHubStackReshapePhase::Unstacked,
            unstack_receipt: Some(done->Ok_0),
            ..checkpoint
        };
        lemma_sealed_keeps_shape(start);
    }
}

/// Recording the reshape of the pull requests needs the Stack gone, leads to a
/// valid reshape that holds exactly this receipt, and changes nothing once it
/// was recorded.
pub proof fn lemma_record_step<R: CommandRunner>(
    runner: R,
    repository: RepositoryIdView,
    checkpoint: GitHubStackReshapeCheckpointView,
    receipt: OperationReceiptView,
    next: GitHubStackReshapeCheckpointView,
)
    requires
        stack_reshape::reshape_recorded(runner, repository, checkpoint, receipt, Ok(next)),
    ensures
        follows(repository, checkpoint, next),
        checkpoint.unstack_receipt is Some,
        next.reshape_receipt == Some(receipt),
        checkpoint.phase != GitHubStackReshapePhase::Unstacked ==> next == checkpoint,
{
    if checkpoint.phase == GitHubStackReshapePhase::Unstacked {
        let start = GitHubStackReshapeCheckpointView {
            phase: GitHubStackReshapePhase::ReshapeApplied,
            reshape_receipt: Some(receipt),
            ..checkpoint
        };
        lemma_sealed_keeps_shape(start);
    }
}

/// One rebuild step creates at most one Stack, for the next chain of two or
/// more; it leads to a valid reshape and changes nothing once all are there.
pub proof fn lemma_rebuild_step<R: CommandRunner>(
    runner: R,
    repository: RepositoryIdView,
    checkpoint: GitHubStackReshapeCheckpointView,
    next: GitHubStackReshapeCheckpointView,
)
    requires
        stack_reshape::reshape_rebuilt(runner, repository, checkpoint, Ok(next)),
    ensures
        follows(repository, checkpoint, next),
        checkpoint.reshape_receipt is Some,
        next.replacement_receipts.len() <= checkpoint.replacement_receipts.len() + 1,
        next.replacement_receipts.len() <= stack_reshape::stackable(
            checkpoint.plan.replacement_chains,
        ).len(),
        checkpoint.phase.rank() >= GitHubStackReshapePhase::Rebuilt.rank() ==> next == checkpoint,
{
    if checkpoint.phase.rank() < GitHubStackReshapePhase::Rebuilt.rank() {
        assert(stack_reshape::create_sent(runner, repository, checkpoint, Ok(next)));
        lemma_create_step(runner, repository, checkpoint, next);
    }
}

proof fn lemma_create_step<R: CommandRunner>(
    runner: R,
    repository: RepositoryIdView,
    checkpoint: GitHubStackReshapeCheckpointView,
    next: GitHubStackReshapeCheckpointView,
)
    requires
        stack_reshape::reshape_accepted(repository, checkpoint),
        checkpoint.phase == GitHubStackReshapePhase::ReshapeApplied || checkpoint.phase
            == GitHubStackReshapePhase::Rebuilding,
        stack_reshape::create_sent(runner, repository, checkpoint, Ok(next)),
    ensures
        follows(repository, checkpoint, next),
        next.replacement_receipts.len() <= checkpoint.replacement_receipts.len() + 1,
        next.replacement_receipts.len() <= stack_reshape::stackable(
            checkpoint.plan.replacement_chains,
        ).len(),
{
    let chains = stack_reshape::stackable(checkpoint.plan.replacement_chains);
    let known = checkpoint.replacement_receipts;
    let index = known.len();
    assert(stack_reshape::shape_refusal(checkpoint) is None);
    if index < chains.len() {
        let request = stack_reshape::create_plan(checkpoint.plan, index, chains[index as int]);
        let made = choose|
            made: Result<GitHubStackMutationReceiptView, GitHubStackMutationErrorView>,
        | #[trigger]
            stack_adapter::stack_created(runner, repository, request, made) && Ok::<
                _,
                GitHubStackReshapeErrorView,
            >(next) == stack_reshape::after_create(checkpoint, made);
        stack_adapter::lemma_created_receipt(runner, repository, request, made->Ok_0);
        assert(known.push(made->Ok_0).drop_last() =~= known);
        lemma_with_receipts(repository, checkpoint, known.push(made->Ok_0));
    } else {
        lemma_with_receipts(repository, checkpoint, known);
    }
}

proof fn lemma_with_receipts(
    repository: RepositoryIdView,
    checkpoint: GitHubStackReshapeCheckpointView,
    receipts: Seq<GitHubStackMutationReceiptView>,
)
    requires
        stack_reshape::reshape_accepted(repository, checkpoint),
        checkpoint.phase == GitHubStackReshapePhase::ReshapeApplied || checkpoint.phase
            == GitHubStackReshapePhase::Rebuilding,
        receipts == checkpoint.replacement_receipts || (receipts.len() > 0 && receipts.drop_last()
            == checkpoint.replacement_receipts && stack_reshape::create_exact(
            checkpoint.repository,
            checkpoint.plan,
            (receipts.len() - 1) as nat,
            stack_reshape::stackable(checkpoint.plan.replacement_chains)[receipts.len() - 1],
            receipts.last(),
        )),
        receipts.len() <= stack_reshape::stackable(checkpoint.plan.replacement_chains).len(),
        receipts == checkpoint.replacement_receipts ==> receipts.len() == stack_reshape::stackable(
            checkpoint.plan.replacement_chains,
        ).len(),
    ensures
        follows(repository, checkpoint, stack_reshape::with_receipts(checkpoint, receipts)),
        stack_reshape::with_receipts(checkpoint, receipts).replacement_receipts == receipts,
{
    let chains = stack_reshape::stackable(checkpoint.plan.replacement_chains);
    let known = checkpoint.replacement_receipts;
    assert(stack_reshape::shape_refusal(checkpoint) is None);
    assert forall|i: int| 0 <= i < receipts.len() implies stack_reshape::create_exact(
        checkpoint.repository,
        checkpoint.plan,
        i as nat,
        chains[i],
        #[trigger] receipts[i],
    ) by {
        if i < known.len() {
            assert(known[i] == receipts[i]);
        }
    }
    let start = GitHubStackReshapeCheckpointView {
        replacement_receipts: receipts,
        phase: if receipts.len() == chains.len() {
            GitHubStackReshapePhase::Rebuilt
        } else {
            GitHubStackReshapePhase::Rebuilding
        },
        ..checkpoint
    };
    assert(stack_reshape::all_created(start.repository, start.plan, chains, receipts));
    assert(stack_reshape::fits_phase(start, chains));
    lemma_sealed_keeps_shape(start);
}

proof fn lemma_matching_topology(
    stacks: Seq<GitHubStackGenerationView>,
    topology: GitHubStackTopologyView,
)
    ensures
        forall|i: int|
            0 <= i < stack_reshape::with_topology(stacks, topology).len() ==> (
            #[trigger] stack_reshape::with_topology(stacks, topology)[i]).topology == topology,
    decreases stacks.len(),
{
    if stacks.len() > 0 {
        let below = stack_reshape::with_topology(stacks.drop_last(), topology);
        let all = stack_reshape::with_topology(stacks, topology);
        lemma_matching_topology(stacks.drop_last(), topology);
        assert forall|i: int| 0 <= i < all.len() implies (#[trigger] all[i]).topology
            == topology by {
            if i < below.len() {
                assert(all[i] == below[i]);
            }
        }
    }
}

/// The Stacks in the order of the chains have exactly the topologies of the
/// chains.
pub proof fn lemma_final_topologies(
    chains: Seq<GitHubStackTopologyView>,
    stacks: Seq<GitHubStackGenerationView>,
    list: Seq<GitHubStackGenerationView>,
)
    requires
        stack_reshape::in_chain_order(chains, stacks) == Ok::<_, GitHubStackReshapeErrorView>(list),
    ensures
        stack_reshape::topologies(list) == chains,
    decreases chains.len(),
{
    if chains.len() > 0 {
        let rest = stack_reshape::in_chain_order(chains.drop_last(), stacks);
        assert(rest is Ok);
        let below = rest->Ok_0;
        lemma_final_topologies(chains.drop_last(), stacks, below);
        lemma_matching_topology(stacks, chains.last());
        assert(list == below.push(list.last()));
        assert(list.last().topology == chains.last());
        assert forall|i: int| 0 <= i < chains.len() implies stack_reshape::topologies(list)[i]
            == chains[i] by {
            if i < below.len() {
                assert(stack_reshape::topologies(below)[i] == chains.drop_last()[i]);
                assert(list[i] == below[i]);
            }
        }
        assert(stack_reshape::topologies(list) =~= chains);
    } else {
        assert(stack_reshape::topologies(list) =~= chains);
    }
}

/// The last step of a reshape needs every Stack created, leads to a valid
/// reshape whose Stacks have exactly the topologies of the chains of two or
/// more, and changes nothing once they were confirmed.
pub proof fn lemma_verify_step<R: CommandRunner>(
    runner: R,
    repository: RepositoryIdView,
    checkpoint: GitHubStackReshapeCheckpointView,
    next: GitHubStackReshapeCheckpointView,
)
    requires
        stack_reshape::reshape_verified(runner, repository, checkpoint, Ok(next)),
    ensures
        follows(repository, checkpoint, next),
        next.phase == GitHubStackReshapePhase::Verified,
        stack_reshape::topologies(next.final_stacks) == stack_reshape::stackable(
            checkpoint.plan.replacement_chains,
        ),
        checkpoint.phase == GitHubStackReshapePhase::Verified ==> next == checkpoint,
{
    if checkpoint.phase == GitHubStackReshapePhase::Rebuilt {
        let plan = checkpoint.plan;
        let confirmed = choose|
            confirmed: Result<Seq<GitHubStackGenerationView>, GitHubStackReshapeErrorView>,
        | #[trigger]
            stack_reshape::final_confirmed(runner, repository, plan, confirmed) && Ok::<
                _,
                GitHubStackReshapeErrorView,
            >(next) == stack_reshape::after_final(checkpoint, confirmed);
        lemma_confirmed_topologies(runner, repository, plan, confirmed->Ok_0);
        let start = GitHubStackReshapeCheckpointView {
            phase: GitHubStackReshapePhase::Verified,
            final_stacks: confirmed->Ok_0,
            ..checkpoint
        };
        lemma_sealed_keeps_shape(start);
    }
}

proof fn lemma_confirmed_topologies<R: CommandRunner>(
    runner: R,
    repository: RepositoryIdView,
    plan: GitHubStackReshapePlanView,
    list: Seq<GitHubStackGenerationView>,
)
    requires
        stack_reshape::final_confirmed(runner, repository, plan, Ok(list)),
    ensures
        stack_reshape::topologies(list) == stack_reshape::stackable(plan.replacement_chains),
{
    let chains = stack_reshape::stackable(plan.replacement_chains);
    let seen = choose|seen: Seq<GitHubStackGenerationView>| #[trigger]
        stack_reshape::in_chain_order(chains, seen) == Ok::<_, GitHubStackReshapeErrorView>(list);
    lemma_final_topologies(chains, seen, list);
}

} // verus!
