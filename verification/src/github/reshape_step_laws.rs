//! What the steps of a reshape that touch Stacks rest on, over the chains and the
//! facts themselves.

use vstd::prelude::*;
use crate::command;
use crate::command::{CommandRunner, Sent};
use crate::github::facts;
use crate::github::stack;
use crate::github::stack::{
    GitHubStackEntryGenerationView, GitHubStackGenerationView, GitHubStackInventoryView,
    GitHubStackMutationErrorView, GitHubStackMutationReceiptView, GitHubStackReadErrorView,
    GitHubStackSnapshotView, GitHubStackTopologyView,
};
use crate::github::stack_adapter;
use crate::github::stack_laws;
use crate::github::stack_laws::holds_one;
use crate::github::stack_reshape;
use crate::github::stack_reshape::{
    GitHubStackReshapeCheckpointView, GitHubStackReshapeErrorView, GitHubStackReshapeOperation,
    GitHubStackReshapePhase, GitHubStackReshapePlanView,
};
use crate::model::RepositoryIdView;
use crate::text;

verus! {

/// The chains of two or more, in order: those that become Stacks.
pub open spec fn long_chains(chains: Seq<GitHubStackTopologyView>) -> Seq<GitHubStackTopologyView> {
    chains.filter(|chain: GitHubStackTopologyView| chain.entries.len() >= 2)
}

/// Stacks are made of just the chains of two or more, in order.
pub proof fn lemma_stacks_of_long_chains(chains: Seq<GitHubStackTopologyView>)
    ensures
        stack_reshape::stackable(chains) == long_chains(chains),
    decreases chains.len(),
{
    reveal(Seq::filter);
    if chains.len() > 0 {
        lemma_stacks_of_long_chains(chains.drop_last());
    }
}

/// Every step of a reshape has an operation of its own: no two Stacks are made
/// under the same one, and none under the one that takes the Stack apart.
pub proof fn lemma_steps_have_their_own_operation(
    plan: GitHubStackReshapePlanView,
    i: nat,
    j: nat,
)
    ensures
        stack_reshape::replacement_id(plan, i) == stack_reshape::replacement_id(plan, j) ==> i == j,
        stack_reshape::unstack_id(plan) != stack_reshape::replacement_id(plan, i),
        plan.operation_id.is_prefix_of(stack_reshape::unstack_id(plan)),
        plan.operation_id.is_prefix_of(stack_reshape::replacement_id(plan, i)),
{
    let head = plan.operation_id;
    let n = head.len() as int;
    let middle = ":replacement:"@;
    let a = stack_reshape::replacement_id(plan, i);
    let b = stack_reshape::replacement_id(plan, j);
    let c = stack_reshape::unstack_id(plan);
    reveal_strlit(":replacement:");
    reveal_strlit(":unstack");
    assert(a.subrange(0, n) =~= head);
    assert(c.subrange(0, n) =~= head);
    assert(a[n + 1] == 'r');
    assert(c[n + 1] == 'u');
    if a == b {
        assert(a.skip(n + middle.len()) =~= text::decimal(i));
        assert(b.skip(n + middle.len()) =~= text::decimal(j));
        facts::lemma_decimal_is_injective(i, j);
    }
}

/// The pull request that is let off its base commit while a Stack is taken apart
/// is the evicted one, and only where it is the last of the Stack.
pub proof fn lemma_only_an_evicted_tail_is_let_off(plan: GitHubStackReshapePlanView)
    ensures
        ({
            let entries = plan.before.topology.entries;
            stack_reshape::stale_tail(plan) == if plan.operation
                == GitHubStackReshapeOperation::Evict && entries.len() > 0 && entries[entries.len()
                - 1].pr == plan.selected_pr {
                Some(plan.selected_pr)
            } else {
                None
            }
        }),
{
}

/// The evidence that a reshape holds fits how far it got: whether the Stack was
/// taken apart, whether the change was recorded, how many Stacks were made, and
/// the final Stacks at last.
pub open spec fn fits(checkpoint: GitHubStackReshapeCheckpointView) -> bool {
    let phase = checkpoint.phase;
    let wanted = long_chains(checkpoint.plan.replacement_chains);
    let made = checkpoint.replacement_receipts.len();
    &&& checkpoint.unstack_receipt is None <==> phase == GitHubStackReshapePhase::Preflighted
    &&& checkpoint.reshape_receipt is None <==> phase == GitHubStackReshapePhase::Preflighted
        || phase == GitHubStackReshapePhase::Unstacked
    &&& phase == GitHubStackReshapePhase::Preflighted || phase
        == GitHubStackReshapePhase::Unstacked || phase == GitHubStackReshapePhase::ReshapeApplied
        ==> made == 0
    &&& phase == GitHubStackReshapePhase::Rebuilding ==> 0 < made < wanted.len()
    &&& phase == GitHubStackReshapePhase::Rebuilt || phase == GitHubStackReshapePhase::Verified
        ==> made == wanted.len()
    &&& phase != GitHubStackReshapePhase::Verified ==> checkpoint.final_stacks.len() == 0
    &&& phase == GitHubStackReshapePhase::Verified ==> checkpoint.final_stacks.len()
        == wanted.len() && forall|i: int|
        0 <= i < wanted.len() ==> (#[trigger] checkpoint.final_stacks[i]).topology == wanted[i]
}

/// Every reshape that is taken up holds the evidence that fits how far it got,
/// and each receipt in it is the one of its own step: the Stack was taken apart
/// with nothing left, and every Stack that was made has the entries of its chain.
pub proof fn lemma_accepted_reshape_fits(
    repository: RepositoryIdView,
    checkpoint: GitHubStackReshapeCheckpointView,
)
    requires
        stack_reshape::reshape_accepted(repository, checkpoint),
    ensures
        checkpoint.repository == repository,
        !checkpoint.provider_atomic,
        fits(checkpoint),
        checkpoint.unstack_receipt matches Some(receipt) ==> receipt.after is None
            && receipt.repository == repository,
        forall|i: int|
            0 <= i < checkpoint.replacement_receipts.len() ==> {
                let receipt = #[trigger] checkpoint.replacement_receipts[i];
                &&& receipt.repository == repository
                &&& receipt.after is Some
                &&& receipt.after->0.topology == long_chains(checkpoint.plan.replacement_chains)[i]
            },
{
    lemma_stacks_of_long_chains(checkpoint.plan.replacement_chains);
    let wanted = long_chains(checkpoint.plan.replacement_chains);
    if checkpoint.phase == GitHubStackReshapePhase::Verified {
        let shown = stack_reshape::topologies(checkpoint.final_stacks);
        assert(shown == wanted);
        assert(shown.len() == checkpoint.final_stacks.len());
        assert forall|i: int| 0 <= i < wanted.len() implies (
        #[trigger] checkpoint.final_stacks[i]).topology == wanted[i] by {
            assert(shown[i] == checkpoint.final_stacks[i].topology);
        }
    }
}

/// A reshape counts as unstacked only where a read shows that the Stack is
/// gone: already, or after it was read as it was planned from and the request to
/// take it apart was sent.
pub proof fn lemma_unstacked_reshape_has_no_stack<R: CommandRunner>(
    runner: R,
    repository: RepositoryIdView,
    checkpoint: GitHubStackReshapeCheckpointView,
    next: GitHubStackReshapeCheckpointView,
)
    requires
        stack_reshape::reshape_unstacked(runner, repository, checkpoint, Ok(next)),
        checkpoint.phase == GitHubStackReshapePhase::Preflighted,
    ensures
        next.phase == GitHubStackReshapePhase::Unstacked,
        next.plan == checkpoint.plan,
        next.unstack_receipt is Some,
        next.unstack_receipt->0.after is None,
        ({
            let before = checkpoint.plan.before;
            let allowed = stack_reshape::stale_tail(checkpoint.plan);
            ||| stack_adapter::generation_read_allowing(
                runner,
                repository,
                before.number,
                allowed,
                Ok(None),
            )
            ||| stack_adapter::generation_read_allowing(
                runner,
                repository,
                before.number,
                allowed,
                Ok(Some(before)),
            ) && exists|sent: Sent|
                #[trigger] command::was_sent(
                    runner,
                    stack::stack_unstack(repository, before.number),
                    sent,
                ) && stack_adapter::generation_read_allowing(
                    command::after(&runner, &sent),
                    repository,
                    before.number,
                    allowed,
                    Ok(None),
                )
        }),
{
    let plan = checkpoint.plan;
    let done = choose|done: Result<GitHubStackMutationReceiptView, GitHubStackMutationErrorView>|
     #[trigger]
        stack_adapter::unstacked(
            runner,
            repository,
            stack_reshape::unstack_plan(plan),
            stack_reshape::stale_tail(plan),
            done,
        ) && Ok::<_, GitHubStackReshapeErrorView>(next) == stack_reshape::after_unstack(
            checkpoint,
            done,
        );
    stack_laws::lemma_unstack_rests_on_facts(
        runner,
        repository,
        stack_reshape::unstack_plan(plan),
        stack_reshape::stale_tail(plan),
        done->Ok_0,
    );
}

/// A step that makes a Stack makes the next of the chains of two or more: its
/// receipt is added, and shows a Stack with just the base and the entries of
/// that chain. What was made before is kept. Where none is left to make, nothing
/// is added.
pub proof fn lemma_next_chain_is_made<R: CommandRunner>(
    runner: R,
    repository: RepositoryIdView,
    checkpoint: GitHubStackReshapeCheckpointView,
    next: GitHubStackReshapeCheckpointView,
)
    requires
        stack_reshape::create_sent(runner, repository, checkpoint, Ok(next)),
    ensures
        ({
            let wanted = long_chains(checkpoint.plan.replacement_chains);
            let made = checkpoint.replacement_receipts.len() as int;
            &&& next.plan == checkpoint.plan
            &&& next.unstack_receipt == checkpoint.unstack_receipt
            &&& next.reshape_receipt == checkpoint.reshape_receipt
            &&& made < wanted.len() ==> {
                &&& next.replacement_receipts.len() == made + 1
                &&& forall|i: int|
                    0 <= i < made ==> #[trigger] next.replacement_receipts[i]
                        == checkpoint.replacement_receipts[i]
                &&& next.replacement_receipts[made].after is Some
                &&& next.replacement_receipts[made].after->0.topology.base == wanted[made].base
                &&& next.replacement_receipts[made].after->0.topology.entries
                    == wanted[made].entries
            }
            &&& made >= wanted.len() ==> next.replacement_receipts
                == checkpoint.replacement_receipts
            &&& next.phase == if next.replacement_receipts.len() == wanted.len() {
                GitHubStackReshapePhase::Rebuilt
            } else {
                GitHubStackReshapePhase::Rebuilding
            }
        }),
{
    let plan = checkpoint.plan;
    lemma_stacks_of_long_chains(plan.replacement_chains);
    let chains = stack_reshape::stackable(plan.replacement_chains);
    let index = checkpoint.replacement_receipts.len();
    if index < chains.len() {
        let create = stack_reshape::create_plan(plan, index, chains[index as int]);
        let made = choose|
            made: Result<GitHubStackMutationReceiptView, GitHubStackMutationErrorView>,
        | #[trigger]
            stack_adapter::stack_created(runner, repository, create, made) && Ok::<
                _,
                GitHubStackReshapeErrorView,
            >(next) == stack_reshape::after_create(checkpoint, made);
        stack_laws::lemma_creation_rests_on_facts(runner, repository, create, made->Ok_0);
    }
}

// ---------------------------------------------------------------------------
// The final Stacks
// ---------------------------------------------------------------------------

/// The listed Stacks that hold one of the members.
pub open spec fn holders(
    stacks: Seq<GitHubStackSnapshotView>,
    entries: Seq<GitHubStackEntryGenerationView>,
) -> Seq<GitHubStackSnapshotView> {
    stacks.filter(|stack: GitHubStackSnapshotView| holds_one(stack, entries))
}

proof fn lemma_touching_filters(
    stacks: Seq<GitHubStackSnapshotView>,
    entries: Seq<GitHubStackEntryGenerationView>,
)
    ensures
        stack_adapter::touching(stacks, entries) == holders(stacks, entries),
    decreases stacks.len(),
{
    reveal(Seq::filter);
    if stacks.len() > 0 {
        lemma_touching_filters(stacks.drop_last(), entries);
        stack_laws::lemma_touches(stacks.last(), entries);
    }
}

proof fn lemma_seen(
    stacks: Seq<GitHubStackSnapshotView>,
    reads: Seq<Result<Option<GitHubStackGenerationView>, GitHubStackMutationErrorView>>,
)
    requires
        stack_reshape::seen_of(stacks, reads) is Ok,
    ensures
        stack_reshape::seen_of(stacks, reads)->Ok_0.len() == reads.len(),
        forall|i: int|
            0 <= i < reads.len() ==> #[trigger] reads[i] == Ok::<
                Option<GitHubStackGenerationView>,
                GitHubStackMutationErrorView,
            >(Some(stack_reshape::seen_of(stacks, reads)->Ok_0[i])),
    decreases reads.len(),
{
    if reads.len() > 0 {
        let front = reads.drop_last();
        lemma_seen(stacks, front);
        let list = stack_reshape::seen_of(stacks, reads)->Ok_0;
        assert forall|i: int| 0 <= i < reads.len() implies #[trigger] reads[i] == Ok::<
            Option<GitHubStackGenerationView>,
            GitHubStackMutationErrorView,
        >(Some(list[i])) by {
            if i < front.len() {
                assert(front[i] == reads[i]);
            }
        }
    }
}

proof fn lemma_matching(
    stacks: Seq<GitHubStackGenerationView>,
    topology: GitHubStackTopologyView,
)
    ensures
        stack_reshape::with_topology(stacks, topology) == stacks.filter(
            |stack: GitHubStackGenerationView| stack.topology == topology,
        ),
        forall|i: int|
            0 <= i < stack_reshape::with_topology(stacks, topology).len() ==> stacks.contains(
                #[trigger] stack_reshape::with_topology(stacks, topology)[i],
            ) && stack_reshape::with_topology(stacks, topology)[i].topology == topology,
    decreases stacks.len(),
{
    reveal(Seq::filter);
    if stacks.len() > 0 {
        let front = stacks.drop_last();
        lemma_matching(front, topology);
        let kept = stack_reshape::with_topology(front, topology);
        let all = stack_reshape::with_topology(stacks, topology);
        assert forall|i: int| 0 <= i < all.len() implies stacks.contains(#[trigger] all[i])
            && all[i].topology == topology by {
            if i < kept.len() {
                assert(all[i] == kept[i]);
                let k = choose|k: int| 0 <= k < front.len() && front[k] == kept[i];
                assert(stacks[k] == all[i]);
            } else {
                assert(stacks[stacks.len() - 1] == all[i]);
            }
        }
    }
}

proof fn lemma_ordered(
    chains: Seq<GitHubStackTopologyView>,
    stacks: Seq<GitHubStackGenerationView>,
)
    requires
        stack_reshape::in_chain_order(chains, stacks) is Ok,
    ensures
        ({
            let list = stack_reshape::in_chain_order(chains, stacks)->Ok_0;
            &&& list.len() == chains.len()
            &&& forall|i: int|
                0 <= i < chains.len() ==> (#[trigger] list[i]).topology == chains[i]
                    && stacks.contains(list[i]) && stacks.filter(
                    |stack: GitHubStackGenerationView| stack.topology == chains[i],
                ).len() == 1
        }),
    decreases chains.len(),
{
    if chains.len() > 0 {
        let front = chains.drop_last();
        lemma_ordered(front, stacks);
        lemma_matching(stacks, chains.last());
        let below = stack_reshape::in_chain_order(front, stacks)->Ok_0;
        let list = stack_reshape::in_chain_order(chains, stacks)->Ok_0;
        assert forall|i: int| 0 <= i < chains.len() implies (#[trigger] list[i]).topology
            == chains[i] && stacks.contains(list[i]) && stacks.filter(
            |stack: GitHubStackGenerationView| stack.topology == chains[i],
        ).len() == 1 by {
            if i < front.len() {
                assert(list[i] == below[i]);
                assert(front[i] == chains[i]);
            } else {
                assert(chains[i] == chains.last());
            }
        }
    }
}

/// The final Stacks were read: as many listed Stacks hold one of the members as
/// there are chains of two or more, in a list that is no full page; and for each
/// of these chains one of them was read with just its base and entries.
pub open spec fn finals_were_read<R: CommandRunner>(
    runner: R,
    repository: RepositoryIdView,
    plan: GitHubStackReshapePlanView,
    inventory: GitHubStackInventoryView,
    finals: Seq<GitHubStackGenerationView>,
) -> bool {
    let wanted = long_chains(plan.replacement_chains);
    let left = holders(inventory.stacks, plan.before.topology.entries);
    &&& stack_adapter::inventory_read(runner, repository, Ok(inventory))
    &&& inventory.stacks.len() < 100
    &&& left.len() == wanted.len()
    &&& finals.len() == wanted.len()
    &&& forall|i: int|
        0 <= i < wanted.len() ==> (#[trigger] finals[i]).topology.base == wanted[i].base
            && finals[i].topology.entries == wanted[i].entries && one_was_read(
            runner,
            repository,
            left,
            finals[i],
        )
}

/// One of these Stacks was read so.
pub open spec fn one_was_read<R: CommandRunner>(
    runner: R,
    repository: RepositoryIdView,
    left: Seq<GitHubStackSnapshotView>,
    seen: GitHubStackGenerationView,
) -> bool {
    exists|k: int|
        0 <= k < left.len() && stack_adapter::generation_read(
            runner,
            repository,
            (#[trigger] left[k]).number,
            Ok(Some(seen)),
        )
}

/// A reshape counts as verified only with final Stacks that were read.
pub proof fn lemma_verified_reshape_is_read<R: CommandRunner>(
    runner: R,
    repository: RepositoryIdView,
    checkpoint: GitHubStackReshapeCheckpointView,
    next: GitHubStackReshapeCheckpointView,
)
    requires
        stack_reshape::reshape_verified(runner, repository, checkpoint, Ok(next)),
        checkpoint.phase != GitHubStackReshapePhase::Verified,
    ensures
        checkpoint.phase == GitHubStackReshapePhase::Rebuilt,
        next.phase == GitHubStackReshapePhase::Verified,
        next.plan == checkpoint.plan,
        exists|inventory: GitHubStackInventoryView| #[trigger]
            finals_were_read(
                runner,
                repository,
                checkpoint.plan,
                inventory,
                next.final_stacks,
            ),
{
    let plan = checkpoint.plan;
    let entries = plan.before.topology.entries;
    let confirmed = choose|
        confirmed: Result<Seq<GitHubStackGenerationView>, GitHubStackReshapeErrorView>,
    | #[trigger]
        stack_reshape::final_confirmed(runner, repository, plan, confirmed) && Ok::<
            _,
            GitHubStackReshapeErrorView,
        >(next) == stack_reshape::after_final(checkpoint, confirmed);
    let finals = confirmed->Ok_0;
    let read = choose|read: Result<GitHubStackInventoryView, GitHubStackReadErrorView>| #[trigger]
        stack_adapter::inventory_read(runner, repository, read)
            && match stack_reshape::final_candidates(plan, read) {
            Err(error) => confirmed == Err::<Seq<GitHubStackGenerationView>, _>(error),
            Ok(stacks) => stack_reshape::final_confirmed_among(
                runner,
                repository,
                plan,
                stacks,
                confirmed,
            ),
        };
    let inventory = read->Ok_0;
    assert(stack_adapter::inventory_read(runner, repository, Ok(inventory)));
    let reply = choose|reply: crate::command::Reply| #[trigger]
        command::ran(runner, stack::stack_list(repository), reply) && Ok::<
            GitHubStackInventoryView,
            GitHubStackReadErrorView,
        >(inventory) == stack_adapter::inventory_of(reply);
    stack_laws::lemma_full_pages_are_refused(reply);
    let left = stack_reshape::final_candidates(plan, read)->Ok_0;
    lemma_touching_filters(inventory.stacks, entries);
    lemma_stacks_of_long_chains(plan.replacement_chains);
    let chains = long_chains(plan.replacement_chains);
    let seen = choose|seen: Result<Seq<GitHubStackGenerationView>, GitHubStackReshapeErrorView>|
     #[trigger]
        stack_reshape::all_seen(runner, repository, left, seen) && confirmed == match seen {
            Err(error) => Err(error),
            Ok(list) => stack_reshape::in_chain_order(
                stack_reshape::stackable(plan.replacement_chains),
                list,
            ),
        };
    let list = seen->Ok_0;
    let reads = choose|
        reads: Seq<Result<Option<GitHubStackGenerationView>, GitHubStackMutationErrorView>>,
    | #[trigger]
        stack_reshape::each_read(runner, repository, left, reads) && seen
            == stack_reshape::seen_of(left, reads) && (seen is Ok ==> reads.len() == left.len());
    lemma_seen(left, reads);
    lemma_ordered(chains, list);
    assert forall|i: int| 0 <= i < chains.len() implies (#[trigger] finals[i]).topology.base
        == chains[i].base && finals[i].topology.entries == chains[i].entries && one_was_read(
        runner,
        repository,
        left,
        finals[i],
    ) by {
        let k = choose|k: int| 0 <= k < list.len() && list[k] == finals[i];
        assert(stack_adapter::generation_read(runner, repository, left[k].number, reads[k]));
    }
    assert(finals_were_read(runner, repository, plan, inventory, next.final_stacks));
}

} // verus!
