//! What a change of a Stack may ask for, what a read of a Stack holds and what a
//! receipt shows, over the entries and the facts themselves.

use vstd::prelude::*;
use crate::command;
use crate::command::{CommandRunner, Reply, Sent};
use crate::github::adapter;
use crate::github::provider::MutationErrorView;
use crate::github::raw::{GitRefJson, GitRefJsonView};
use crate::github::stack;
use crate::github::stack::{
    GitHubStackAddPlanView, GitHubStackCreatePlanView, GitHubStackEntryGenerationView,
    GitHubStackGenerationView, GitHubStackInventoryView, GitHubStackMutationDisposition,
    GitHubStackMutationErrorView, GitHubStackMutationOperation, GitHubStackMutationReceiptView,
    GitHubStackPullRequestView, GitHubStackReadErrorView, GitHubStackRequestIdentityView,
    GitHubStackSnapshotView, GitHubStackTopologyView, GitHubStackUnstackPlanView,
};
use crate::github::stack_adapter;
use crate::model;
use crate::model::{
    BranchSnapshotView, PrNumber, PullRequestSnapshotView, PullRequestState, RepositoryIdView,
};
use crate::text;

verus! {

// ---------------------------------------------------------------------------
// Plans
// ---------------------------------------------------------------------------

/// The entries of a Stack stand in order: each has its own place and its own
/// pull request in the repository, those that are not open come first, and every
/// open one targets the head of the open one below it, the lowest open one the
/// base of the Stack.
pub open spec fn in_order(
    repository: RepositoryIdView,
    base: BranchSnapshotView,
    entries: Seq<GitHubStackEntryGenerationView>,
) -> bool {
    forall|i: int| 0 <= i < entries.len() ==> #[trigger] in_place(repository, base, entries, i)
}

/// One entry of a Stack stands in its place.
pub open spec fn in_place(
    repository: RepositoryIdView,
    base: BranchSnapshotView,
    entries: Seq<GitHubStackEntryGenerationView>,
    i: int,
) -> bool {
    let entry = entries[i];
    &&& entry.position == i
    &&& entry.base.repository == repository
    &&& entry.head.repository == repository
    &&& forall|k: int| 0 <= k < i ==> (#[trigger] entries[k]).pr != entry.pr
    &&& if entry.pull_request_state == PullRequestState::Open {
        if i > 0 && entries[i - 1].pull_request_state == PullRequestState::Open {
            entry.base == entries[i - 1].head
        } else {
            entry.base == base
        }
    } else {
        i > 0 ==> entries[i - 1].pull_request_state != PullRequestState::Open
    }
}

proof fn lemma_in_order(
    repository: RepositoryIdView,
    base: BranchSnapshotView,
    entries: Seq<GitHubStackEntryGenerationView>,
)
    ensures
        stack::entries_refusal(repository, base, entries) is None <==> in_order(
            repository,
            base,
            entries,
        ),
    decreases entries.len(),
{
    if entries.len() > 0 {
        let below = entries.drop_last();
        let n = below.len() as int;
        lemma_in_order(repository, base, below);
        assert forall|i: int| 0 <= i < n implies #[trigger] in_place(repository, base, entries, i)
            == in_place(repository, base, below, i) by {
            assert(entries[i] == below[i]);
            if i > 0 {
                assert(entries[i - 1] == below[i - 1]);
            }
            if in_place(repository, base, below, i) {
                assert forall|k: int| 0 <= k < i implies (#[trigger] entries[k]).pr
                    != entries[i].pr by {
                    assert(below[k] == entries[k]);
                }
            }
            if in_place(repository, base, entries, i) {
                assert forall|k: int| 0 <= k < i implies (#[trigger] below[k]).pr
                    != below[i].pr by {
                    assert(below[k] == entries[k]);
                }
            }
        }
        assert(entries[n] == entries.last());
        if n > 0 {
            assert(entries[n - 1] == below.last());
        }
        if stack::listed(below, entries[n].pr) {
            let k = choose|k: int| 0 <= k < below.len() && (#[trigger] below[k]).pr == entries[n].pr;
            assert(entries[k].pr == entries[n].pr);
            assert(!in_place(repository, base, entries, n));
        } else {
            assert forall|k: int| 0 <= k < n implies (#[trigger] entries[k]).pr != entries[n].pr by {
                assert(below[k] == entries[k]);
            }
        }
        let here = stack::entry_refusal(repository, base, below, entries.last()) is None;
        assert(here == in_place(repository, base, entries, n));
        if in_order(repository, base, entries) {
            assert(in_place(repository, base, entries, n));
            assert forall|i: int| 0 <= i < below.len() implies #[trigger] in_place(
                repository,
                base,
                below,
                i,
            ) by {
                assert(in_place(repository, base, entries, i));
            }
        }
        if in_order(repository, base, below) && here {
            assert forall|i: int| 0 <= i < entries.len() implies #[trigger] in_place(
                repository,
                base,
                entries,
                i,
            ) by {
                if i < n {
                    assert(in_place(repository, base, below, i));
                }
            }
        }
    }
}

/// A Stack is accepted exactly where it has at least the least number of entries
/// and at most a hundred, its base is in the repository and its entries stand in
/// order.
pub proof fn lemma_accepted_exactly_in_order(
    repository: RepositoryIdView,
    topology: GitHubStackTopologyView,
    minimum: usize,
)
    ensures
        stack::topology_refusal(repository, topology, minimum) is None <==> {
            &&& minimum <= topology.entries.len() <= 100
            &&& topology.base.repository == repository
            &&& in_order(repository, topology.base, topology.entries)
        },
{
    lemma_in_order(repository, topology.base, topology.entries);
}

/// An entry that can be asked for: open, no draft, and open in the Stack.
pub open spec fn can_be_asked(entry: GitHubStackEntryGenerationView) -> bool {
    &&& entry.pull_request_state == PullRequestState::Open
    &&& !entry.draft
    &&& text::same_ignoring_case(entry.stack_state, "open"@)
}

proof fn lemma_open(entries: Seq<GitHubStackEntryGenerationView>, from: int)
    requires
        0 <= from,
    ensures
        stack::open_refusal(entries, from) is None <==> forall|i: int|
            from <= i < entries.len() ==> can_be_asked(#[trigger] entries[i]),
    decreases entries.len(),
{
    if entries.len() > from {
        let below = entries.drop_last();
        lemma_open(below, from);
        let whole = forall|i: int|
            from <= i < entries.len() ==> can_be_asked(#[trigger] entries[i]);
        let part = forall|i: int| from <= i < below.len() ==> can_be_asked(#[trigger] below[i]);
        if whole {
            assert forall|i: int| from <= i < below.len() implies can_be_asked(
                #[trigger] below[i],
            ) by {
                assert(below[i] == entries[i]);
            }
            assert(can_be_asked(entries[entries.len() - 1]));
        }
        if part && can_be_asked(entries.last()) {
            assert forall|i: int| from <= i < entries.len() implies can_be_asked(
                #[trigger] entries[i],
            ) by {
                if i < below.len() {
                    assert(below[i] == entries[i]);
                }
            }
        }
    }
}

/// A Stack can be created exactly of two to a hundred entries that stand in
/// order and can all be asked for, by a named actor in a named operation.
pub proof fn lemma_creation_is_accepted_exactly(
    repository: RepositoryIdView,
    plan: GitHubStackCreatePlanView,
)
    ensures
        stack::create_refusal(repository, plan) is None <==> {
            &&& !text::is_blank(plan.operation_id)
            &&& !text::is_blank(plan.actor)
            &&& 2 <= plan.desired.entries.len() <= 100
            &&& plan.desired.base.repository == repository
            &&& in_order(repository, plan.desired.base, plan.desired.entries)
            &&& forall|i: int|
                0 <= i < plan.desired.entries.len() ==> can_be_asked(
                    #[trigger] plan.desired.entries[i],
                )
        },
{
    lemma_in_order(repository, plan.desired.base, plan.desired.entries);
    lemma_open(plan.desired.entries, 0);
}

/// A Stack can be appended to exactly where the entries that it has stay as they
/// are and in place, on the same base, at least one follows, what follows can
/// be asked for, and both the old and the new entries stand in order.
pub proof fn lemma_append_is_accepted_exactly(
    repository: RepositoryIdView,
    plan: GitHubStackAddPlanView,
)
    ensures
        stack::add_refusal(repository, plan) is None <==> {
            let old = plan.before.topology;
            let new = plan.desired;
            &&& !text::is_blank(plan.operation_id)
            &&& !text::is_blank(plan.actor)
            &&& 2 <= old.entries.len() < new.entries.len() <= 100
            &&& old.base.repository == repository
            &&& new.base == old.base
            &&& in_order(repository, old.base, old.entries)
            &&& in_order(repository, new.base, new.entries)
            &&& forall|i: int|
                0 <= i < old.entries.len() ==> #[trigger] new.entries[i] == old.entries[i]
            &&& forall|i: int|
                old.entries.len() <= i < new.entries.len() ==> can_be_asked(
                    #[trigger] new.entries[i],
                )
        },
{
    let old = plan.before.topology;
    let new = plan.desired;
    lemma_in_order(repository, old.base, old.entries);
    lemma_in_order(repository, new.base, new.entries);
    lemma_open(new.entries, old.entries.len() as int);
    if old.entries.len() < new.entries.len() {
        let front = new.entries.subrange(0, old.entries.len() as int);
        if old.entries.is_prefix_of(new.entries) {
            assert forall|i: int| 0 <= i < old.entries.len() implies #[trigger] new.entries[i]
                == old.entries[i] by {
                assert(front[i] == new.entries[i]);
            }
        }
        if forall|i: int| 0 <= i < old.entries.len() ==> #[trigger] new.entries[i]
            == old.entries[i] {
            assert(front =~= old.entries);
        }
    }
}

/// The pull requests that an append asks for are the new ones, in order; those
/// that a creation asks for are all, in order. Taking a Stack apart names none.
pub proof fn lemma_requests_name_pull_requests(
    repository: RepositoryIdView,
    create: GitHubStackCreatePlanView,
    add: GitHubStackAddPlanView,
)
    requires
        add.before.topology.entries.len() <= add.desired.entries.len(),
    ensures
        ({
            let asked = stack::create_identity(repository, create.desired).ordered_pull_requests;
            &&& asked.len() == create.desired.entries.len()
            &&& forall|i: int|
                0 <= i < asked.len() ==> #[trigger] asked[i] == create.desired.entries[i].pr
            &&& stack::stack_create(repository, create.desired).stdin == Some(
                stack::numbers_body(asked),
            )
        }),
        ({
            let asked = stack::add_identity(repository, add).ordered_pull_requests;
            let kept = add.before.topology.entries.len() as int;
            &&& asked.len() == add.desired.entries.len() - kept
            &&& forall|i: int|
                0 <= i < asked.len() ==> #[trigger] asked[i] == add.desired.entries[kept + i].pr
            &&& stack::stack_add(repository, add).stdin == Some(stack::numbers_body(asked))
        }),
        stack::unstack_identity(repository, add.before.number).ordered_pull_requests.len() == 0,
        stack::stack_unstack(repository, add.before.number).stdin is None,
{
}

/// A pull request may be let off only as the last of a Stack, and only its base
/// commit: its base must be the branch that it would have to be otherwise.
pub proof fn lemma_only_the_tail_is_let_off(
    topology: GitHubStackTopologyView,
    allowed: Option<PrNumber>,
)
    ensures
        ({
            let seen = stack::settled(topology, allowed);
            let n = topology.entries.len();
            &&& seen.base == topology.base
            &&& seen.entries.len() == n
            &&& forall|i: int|
                0 <= i < n - 1 ==> #[trigger] seen.entries[i] == topology.entries[i]
            &&& n > 0 ==> (GitHubStackEntryGenerationView {
                base: topology.entries[n - 1].base,
                ..seen.entries[n - 1]
            }) == topology.entries[n - 1]
            &&& n > 0 ==> seen.entries[n - 1].base.repository == topology.entries[n
                - 1].base.repository
            &&& n > 0 ==> seen.entries[n - 1].base.name == topology.entries[n - 1].base.name
            &&& n > 0 && allowed != Some(topology.entries[n - 1].pr) ==> seen == topology
        }),
{
    let n = topology.entries.len();
    if n > 0 {
        assert(topology.entries[n - 1] == topology.entries.last());
        assert(stack::settled(topology, allowed).entries.len() == n);
    }
}

// ---------------------------------------------------------------------------
// Inventories
// ---------------------------------------------------------------------------

/// An inventory counts as cut off exactly where it lists a hundred Stacks or
/// more, and one that is cut off is never used.
pub proof fn lemma_full_pages_are_refused(reply: Reply)
    ensures
        stack_adapter::inventory_of(reply) matches Ok(inventory) ==> inventory.truncated == (
        inventory.stacks.len() >= 100),
        stack_adapter::whole_inventory(stack_adapter::inventory_of(reply)) matches Ok(inventory)
            ==> inventory.stacks.len() < 100 && stack_adapter::inventory_of(reply) == Ok::<
            GitHubStackInventoryView,
            GitHubStackReadErrorView,
        >(inventory),
{
}

/// A Stack is taken for absent only where the provider answers that there is
/// none of that number and lists none of that number either.
pub proof fn lemma_absence_is_seen_twice<R: CommandRunner>(
    runner: R,
    repository: RepositoryIdView,
    number: u64,
)
    requires
        stack_adapter::snapshot_read(runner, repository, number, Ok(None)),
    ensures
        exists|reply: Reply| #[trigger]
            command::ran(runner, stack::stack_read(repository, number), reply) && (reply matches Ok(
                output,
            ) && !output.succeeded() && text::holds_text(output.stderr, "HTTP 404"@)),
        exists|list: GitHubStackInventoryView| #[trigger]
            stack_adapter::inventory_read(runner, repository, Ok(list)) && forall|i: int|
                0 <= i < list.stacks.len() ==> (#[trigger] list.stacks[i]).number != number,
{
    let none = Ok::<Option<GitHubStackSnapshotView>, GitHubStackMutationErrorView>(None);
    let reply = choose|reply: Reply| #[trigger]
        command::ran(runner, stack::stack_read(repository, number), reply)
            && match stack_adapter::direct_read(reply) {
            Some(Ok(stack)) => none == Ok::<_, GitHubStackMutationErrorView>(Some(stack)),
            Some(Err(error)) => none == Err::<Option<GitHubStackSnapshotView>, _>(error),
            None => stack_adapter::absence_read(runner, repository, number, none),
        };
    let read = choose|read: Result<GitHubStackInventoryView, GitHubStackReadErrorView>| #[trigger]
        stack_adapter::inventory_read(runner, repository, read) && none == stack_adapter::absence(
            number,
            read,
        );
    let list = read->Ok_0;
    assert forall|i: int| 0 <= i < list.stacks.len() implies (#[trigger] list.stacks[i]).number
        != number by {
        assert(!stack_adapter::inventoried(list.stacks, number));
    }
    assert(stack_adapter::inventory_read(runner, repository, Ok(list)));
}

/// A Stack holds one of the pull requests of these entries.
pub open spec fn holds_one(
    stack: GitHubStackSnapshotView,
    entries: Seq<GitHubStackEntryGenerationView>,
) -> bool {
    exists|p: int, e: int|
        0 <= p < stack.pull_requests.len() && 0 <= e < entries.len() && (
        #[trigger] stack.pull_requests[p]).number == (#[trigger] entries[e]).pr.0
}

pub(crate) proof fn lemma_touches(
    stack: GitHubStackSnapshotView,
    entries: Seq<GitHubStackEntryGenerationView>,
)
    ensures
        stack_adapter::touches(stack, entries) == holds_one(stack, entries),
{
    if stack_adapter::touches(stack, entries) {
        let p = choose|p: int|
            0 <= p < stack.pull_requests.len() && stack::listed(
                entries,
                PrNumber((#[trigger] stack.pull_requests[p]).number),
            );
        let e = choose|e: int|
            0 <= e < entries.len() && (#[trigger] entries[e]).pr == PrNumber(
                stack.pull_requests[p].number,
            );
        assert(stack.pull_requests[p].number == entries[e].pr.0);
    }
    if holds_one(stack, entries) {
        let (p, e) = choose|p: int, e: int|
            0 <= p < stack.pull_requests.len() && 0 <= e < entries.len() && (
            #[trigger] stack.pull_requests[p]).number == (#[trigger] entries[e]).pr.0;
        assert(entries[e].pr == PrNumber(stack.pull_requests[p].number));
        assert(stack::listed(entries, PrNumber(stack.pull_requests[p].number)));
    }
}

/// Where Stacks hold none of the pull requests, or just this one does.
pub open spec fn just_one(
    stacks: Seq<GitHubStackSnapshotView>,
    entries: Seq<GitHubStackEntryGenerationView>,
    at: int,
) -> bool {
    &&& 0 <= at < stacks.len()
    &&& holds_one(stacks[at], entries)
    &&& forall|i: int|
        0 <= i < stacks.len() && i != at ==> !holds_one(#[trigger] stacks[i], entries)
}

proof fn lemma_touching(
    stacks: Seq<GitHubStackSnapshotView>,
    entries: Seq<GitHubStackEntryGenerationView>,
)
    ensures
        stack_adapter::touching(stacks, entries).len() == 0 <==> forall|i: int|
            0 <= i < stacks.len() ==> !holds_one(#[trigger] stacks[i], entries),
        stack_adapter::touching(stacks, entries).len() == 1 <==> exists|at: int| #[trigger]
            just_one(stacks, entries, at),
        stack_adapter::touching(stacks, entries).len() == 1 ==> exists|at: int| #[trigger]
            just_one(stacks, entries, at) && stack_adapter::touching(stacks, entries)[0]
                == stacks[at],
    decreases stacks.len(),
{
    let found = stack_adapter::touching(stacks, entries);
    if stacks.len() > 0 {
        let front = stacks.drop_last();
        let n = front.len() as int;
        lemma_touching(front, entries);
        lemma_touches(stacks.last(), entries);
        let below = stack_adapter::touching(front, entries);
        assert forall|i: int| 0 <= i < n implies #[trigger] stacks[i] == front[i] by {}
        assert(stacks[n] == stacks.last());
        if holds_one(stacks[n], entries) {
            assert(found == below.push(stacks.last()));
            if below.len() == 0 {
                assert forall|i: int| 0 <= i < stacks.len() && i != n implies !holds_one(
                    #[trigger] stacks[i],
                    entries,
                ) by {
                    assert(!holds_one(front[i], entries));
                }
                assert(just_one(stacks, entries, n));
            } else {
                assert forall|at: int| !#[trigger] just_one(stacks, entries, at) by {
                    if just_one(stacks, entries, at) {
                        if at != n {
                            assert(!holds_one(stacks[n], entries));
                        }
                        assert forall|i: int| 0 <= i < front.len() implies !holds_one(
                            #[trigger] front[i],
                            entries,
                        ) by {
                            assert(!holds_one(stacks[i], entries));
                        }
                    }
                }
            }
        } else {
            assert(found == below);
            assert forall|at: int| #[trigger] just_one(stacks, entries, at) implies just_one(
                front,
                entries,
                at,
            ) by {
                assert forall|i: int| 0 <= i < front.len() && i != at implies !holds_one(
                    #[trigger] front[i],
                    entries,
                ) by {
                    assert(!holds_one(stacks[i], entries));
                }
            }
            assert forall|at: int| #[trigger] just_one(front, entries, at) implies just_one(
                stacks,
                entries,
                at,
            ) by {
                assert(stacks[at] == front[at]);
                assert forall|i: int| 0 <= i < stacks.len() && i != at implies !holds_one(
                    #[trigger] stacks[i],
                    entries,
                ) by {
                    if i < n {
                        assert(!holds_one(front[i], entries));
                    }
                }
            }
            if found.len() == 0 {
                assert forall|i: int| 0 <= i < stacks.len() implies !holds_one(
                    #[trigger] stacks[i],
                    entries,
                ) by {
                    if i < n {
                        assert(!holds_one(front[i], entries));
                    }
                }
            }
            if forall|i: int| 0 <= i < stacks.len() ==> !holds_one(#[trigger] stacks[i], entries) {
                assert forall|i: int| 0 <= i < front.len() implies !holds_one(
                    #[trigger] front[i],
                    entries,
                ) by {
                    assert(!holds_one(stacks[i], entries));
                }
            }
            if found.len() == 1 {
                let at = choose|at: int| #[trigger]
                    just_one(front, entries, at) && below[0] == front[at];
                assert(just_one(stacks, entries, at));
            }
        }
    }
}

/// Looking for the Stack of some pull requests finds nothing exactly where no
/// Stack holds any of them, finds the one Stack that holds some of them exactly
/// where there is one alone, and is refused where several do.
pub proof fn lemma_one_stack_holds_them(
    stacks: Seq<GitHubStackSnapshotView>,
    desired: GitHubStackTopologyView,
)
    ensures
        stack_adapter::only_touching(stacks, desired) == Ok::<
            Option<GitHubStackSnapshotView>,
            GitHubStackMutationErrorView,
        >(None) <==> forall|i: int|
            0 <= i < stacks.len() ==> !holds_one(#[trigger] stacks[i], desired.entries),
        stack_adapter::only_touching(stacks, desired) matches Ok(Some(stack)) ==> exists|at: int|
         #[trigger]
            just_one(stacks, desired.entries, at) && stack == stacks[at],
        stack_adapter::only_touching(stacks, desired) is Err <==> exists|i: int, j: int|
            0 <= i < j < stacks.len() && holds_one(#[trigger] stacks[i], desired.entries)
                && holds_one(#[trigger] stacks[j], desired.entries),
{
    let entries = desired.entries;
    lemma_touching(stacks, entries);
    let none = forall|i: int| 0 <= i < stacks.len() ==> !holds_one(#[trigger] stacks[i], entries);
    if !none && !(exists|at: int| #[trigger] just_one(stacks, entries, at)) {
        let a = choose|i: int| 0 <= i < stacks.len() && holds_one(#[trigger] stacks[i], entries);
        assert(!just_one(stacks, entries, a));
        let b = choose|i: int|
            0 <= i < stacks.len() && i != a && holds_one(#[trigger] stacks[i], entries);
        if a < b {
            assert(holds_one(stacks[a], entries) && holds_one(stacks[b], entries));
        } else {
            assert(holds_one(stacks[b], entries) && holds_one(stacks[a], entries));
        }
    }
}

// ---------------------------------------------------------------------------
// Generations
// ---------------------------------------------------------------------------

/// An entry holds the fresh facts of its pull request.
pub open spec fn holds_facts(
    entry: GitHubStackEntryGenerationView,
    at: int,
    pr: PullRequestSnapshotView,
) -> bool {
    &&& entry.position == at
    &&& entry.pr == pr.number
    &&& entry.pull_request_state == pr.state
    &&& entry.draft == pr.draft
    &&& entry.merged_at == pr.merged_at
    &&& entry.base == pr.base
    &&& entry.head == pr.head
}

/// What the provider lists of an entry agrees with the pull request: its head,
/// whether it is a draft, when it was merged, and its state where the listed one
/// is known.
pub open spec fn agrees(row: GitHubStackPullRequestView, pr: PullRequestSnapshotView) -> bool {
    &&& row.head.ref_name == pr.head.name
    &&& row.head.sha == pr.head.oid
    &&& row.draft == pr.draft
    &&& row.merged_at == pr.merged_at
    &&& row.merged_at is Some || text::same_ignoring_case(row.state, "merged"@) ==> pr.state
        == PullRequestState::Merged
    &&& row.merged_at is None && !text::same_ignoring_case(row.state, "merged"@)
        && text::same_ignoring_case(row.state, "open"@) ==> pr.state == PullRequestState::Open
    &&& row.merged_at is None && !text::same_ignoring_case(row.state, "merged"@)
        && !text::same_ignoring_case(row.state, "open"@) && text::same_ignoring_case(
        row.state,
        "closed"@,
    ) ==> pr.state == PullRequestState::Closed
}

/// An entry is taken from a listed row and a fresh pull request exactly where
/// the two agree and the place is a number that fits.
pub proof fn lemma_entry_is_taken_where_facts_agree(
    number: u64,
    row: GitHubStackPullRequestView,
    position: nat,
    pr: PullRequestSnapshotView,
)
    ensures
        stack_adapter::agreed_entry(number, row, position, pr) is Ok <==> agrees(row, pr)
            && position <= u32::MAX,
        stack_adapter::agreed_entry(number, row, position, pr) matches Ok(entry) ==> holds_facts(
            entry,
            position as int,
            pr,
        ) && entry.stack_state == row.state,
{
}

proof fn lemma_agreed_entries(
    number: u64,
    rows: Seq<GitHubStackPullRequestView>,
    reads: Seq<Result<PullRequestSnapshotView, MutationErrorView>>,
)
    requires
        stack_adapter::agreed_entries(number, rows, reads) is Ok,
    ensures
        ({
            let entries = stack_adapter::agreed_entries(number, rows, reads)->Ok_0;
            &&& entries.len() == reads.len()
            &&& forall|i: int|
                0 <= i < entries.len() ==> (#[trigger] reads[i]) is Ok && agrees(
                    rows[i],
                    reads[i]->Ok_0,
                ) && holds_facts(entries[i], i, reads[i]->Ok_0) && entries[i].stack_state
                    == rows[i].state
        }),
    decreases reads.len(),
{
    if reads.len() > 0 {
        let front = reads.drop_last();
        lemma_agreed_entries(number, rows, front);
        let below = stack_adapter::agreed_entries(number, rows, front)->Ok_0;
        lemma_entry_is_taken_where_facts_agree(
            number,
            rows[reads.len() - 1],
            below.len(),
            reads.last()->Ok_0,
        );
        let entries = stack_adapter::agreed_entries(number, rows, reads)->Ok_0;
        assert forall|i: int| 0 <= i < entries.len() implies (#[trigger] reads[i]) is Ok && agrees(
            rows[i],
            reads[i]->Ok_0,
        ) && holds_facts(entries[i], i, reads[i]->Ok_0) && entries[i].stack_state
            == rows[i].state by {
            if i < front.len() {
                assert(front[i] == reads[i]);
                assert(entries[i] == below[i]);
            }
        }
    }
}

/// One entry of a read Stack: a fresh read of its pull request agrees with the
/// listed row, and the entry holds what was read.
pub open spec fn entry_was_read<R: CommandRunner>(
    runner: R,
    repository: RepositoryIdView,
    row: GitHubStackPullRequestView,
    at: int,
    entry: GitHubStackEntryGenerationView,
) -> bool {
    exists|pr: PullRequestSnapshotView| #[trigger]
        adapter::refetched(runner, repository, text::decimal(row.number as nat), Ok(pr)) && agrees(
            row,
            pr,
        ) && holds_facts(entry, at, pr) && entry.stack_state == row.state
}

/// The Stack that is read holds the identity that the provider lists, the base
/// branch at the commit that its reference shows, and for every listed pull
/// request, in order, what a fresh read of it shows.
pub open spec fn stack_was_read<R: CommandRunner>(
    runner: R,
    repository: RepositoryIdView,
    listed: GitHubStackSnapshotView,
    seen: GitHubStackGenerationView,
) -> bool {
    &&& seen.id == listed.id
    &&& seen.number == listed.number
    &&& seen.node_id == listed.node_id
    &&& seen.open == listed.open
    &&& seen.created_at == listed.created_at
    &&& seen.topology.base.repository == repository
    &&& seen.topology.base.name == listed.base.ref_name
    &&& exists|reference: GitRefJsonView| #[trigger]
        adapter::got::<R, GitRefJson>(
            runner,
            stack::stack_base_ref(repository, listed.base.ref_name),
            Ok(reference),
        ) && seen.topology.base.oid == reference.object.sha
    &&& seen.topology.entries.len() == listed.pull_requests.len()
    &&& forall|i: int|
        0 <= i < listed.pull_requests.len() ==> entry_was_read(
            runner,
            repository,
            #[trigger] listed.pull_requests[i],
            i,
            seen.topology.entries[i],
        )
}

/// Every generation of a Stack is read from the facts.
pub proof fn lemma_generation_is_read<R: CommandRunner>(
    runner: R,
    repository: RepositoryIdView,
    listed: GitHubStackSnapshotView,
    allowed: Option<PrNumber>,
    seen: GitHubStackGenerationView,
)
    requires
        stack_adapter::observed(runner, repository, listed, allowed, Ok(seen)),
    ensures
        stack_was_read(runner, repository, listed, seen),
        1 <= seen.topology.entries.len() <= 100,
        allowed is None ==> in_order(repository, seen.topology.base, seen.topology.entries),
{
    let outcome = Ok::<GitHubStackGenerationView, GitHubStackMutationErrorView>(seen);
    let read = choose|read: Result<GitRefJsonView, MutationErrorView>| #[trigger]
        adapter::got::<R, GitRefJson>(
            runner,
            stack::stack_base_ref(repository, listed.base.ref_name),
            read,
        ) && match read {
            Err(error) => outcome == Err::<GitHubStackGenerationView, _>(
                GitHubStackMutationErrorView::Provider(error),
            ),
            Ok(reference) => stack_adapter::observed_on(
                runner,
                repository,
                listed,
                stack_adapter::fresh_base(repository, listed.base.ref_name, reference),
                allowed,
                outcome,
            ),
        };
    let reference = read->Ok_0;
    assert(adapter::got::<R, GitRefJson>(
        runner,
        stack::stack_base_ref(repository, listed.base.ref_name),
        Ok(reference),
    ));
    let base = stack_adapter::fresh_base(repository, listed.base.ref_name, reference);
    let entries = choose|
        entries: Result<Seq<GitHubStackEntryGenerationView>, GitHubStackMutationErrorView>,
    | #[trigger]
        stack_adapter::entries_observed(
            runner,
            repository,
            listed.number,
            listed.pull_requests,
            entries,
        ) && outcome == match entries {
            Err(error) => Err(error),
            Ok(list) => stack_adapter::generation_of(repository, listed, base, list, allowed),
        };
    let rows = listed.pull_requests;
    let reads = choose|reads: Seq<Result<PullRequestSnapshotView, MutationErrorView>>| #[trigger]
        adapter::refetched_each(runner, repository, stack_adapter::row_prs(rows), reads)
            && entries == stack_adapter::agreed_entries(listed.number, rows, reads) && (
        entries is Ok ==> reads.len() == rows.len());
    lemma_agreed_entries(listed.number, rows, reads);
    let list = entries->Ok_0;
    assert forall|i: int| 0 <= i < rows.len() implies entry_was_read(
        runner,
        repository,
        #[trigger] rows[i],
        i,
        seen.topology.entries[i],
    ) by {
        let pr = reads[i]->Ok_0;
        assert(adapter::refetched(
            runner,
            repository,
            model::pr_text(stack_adapter::row_prs(rows)[i]),
            reads[i],
        ));
        assert(adapter::refetched(runner, repository, text::decimal(rows[i].number as nat), Ok(pr)));
    }
    lemma_only_the_tail_is_let_off(seen.topology, allowed);
    lemma_accepted_exactly_in_order(repository, stack::settled(seen.topology, allowed), 1);
}

proof fn lemma_fresh_entries(
    rows: Seq<GitHubStackEntryGenerationView>,
    reads: Seq<Result<PullRequestSnapshotView, MutationErrorView>>,
)
    requires
        stack_adapter::fresh_entries_of(rows, reads) is Ok,
    ensures
        ({
            let entries = stack_adapter::fresh_entries_of(rows, reads)->Ok_0;
            &&& entries.len() == reads.len()
            &&& forall|i: int|
                0 <= i < entries.len() ==> (#[trigger] reads[i]) is Ok && holds_facts(
                    entries[i],
                    i,
                    reads[i]->Ok_0,
                )
        }),
    decreases reads.len(),
{
    if reads.len() > 0 {
        let front = reads.drop_last();
        lemma_fresh_entries(rows, front);
        let below = stack_adapter::fresh_entries_of(rows, front)->Ok_0;
        let entries = stack_adapter::fresh_entries_of(rows, reads)->Ok_0;
        assert forall|i: int| 0 <= i < entries.len() implies (#[trigger] reads[i]) is Ok
            && holds_facts(entries[i], i, reads[i]->Ok_0) by {
            if i < front.len() {
                assert(front[i] == reads[i]);
                assert(entries[i] == below[i]);
            }
        }
    }
}

/// A pull request was read afresh, and the entry holds what was read.
pub open spec fn entry_is_current<R: CommandRunner>(
    runner: R,
    repository: RepositoryIdView,
    entry: GitHubStackEntryGenerationView,
    at: int,
) -> bool {
    exists|pr: PullRequestSnapshotView| #[trigger]
        adapter::refetched(runner, repository, text::decimal(entry.pr.0 as nat), Ok(pr))
            && holds_facts(entry, at, pr)
}

/// What is asked for is confirmed only where the base branch is at the expected
/// commit and every entry holds what a fresh read of its pull request shows.
pub open spec fn topology_is_current<R: CommandRunner>(
    runner: R,
    repository: RepositoryIdView,
    expected: GitHubStackTopologyView,
) -> bool {
    &&& expected.base.repository == repository
    &&& exists|reference: GitRefJsonView| #[trigger]
        adapter::got::<R, GitRefJson>(
            runner,
            stack::stack_base_ref(repository, expected.base.name),
            Ok(reference),
        ) && expected.base.oid == reference.object.sha
    &&& forall|i: int|
        0 <= i < expected.entries.len() ==> entry_is_current(
            runner,
            repository,
            #[trigger] expected.entries[i],
            i,
        )
}

/// A topology is confirmed only by fresh facts.
pub proof fn lemma_confirmed_topology_is_current<R: CommandRunner>(
    runner: R,
    repository: RepositoryIdView,
    expected: GitHubStackTopologyView,
)
    requires
        stack_adapter::topology_fresh(runner, repository, expected, Ok(())),
    ensures
        topology_is_current(runner, repository, expected),
{
    let outcome = Ok::<(), GitHubStackMutationErrorView>(());
    let read = choose|read: Result<GitRefJsonView, MutationErrorView>| #[trigger]
        adapter::got::<R, GitRefJson>(
            runner,
            stack::stack_base_ref(repository, expected.base.name),
            read,
        ) && match read {
            Err(error) => outcome == Err::<(), _>(GitHubStackMutationErrorView::Provider(error)),
            Ok(reference) => stack_adapter::topology_fresh_on(
                runner,
                repository,
                expected,
                stack_adapter::fresh_base(repository, expected.base.name, reference),
                outcome,
            ),
        };
    let reference = read->Ok_0;
    assert(adapter::got::<R, GitRefJson>(
        runner,
        stack::stack_base_ref(repository, expected.base.name),
        Ok(reference),
    ));
    let base = stack_adapter::fresh_base(repository, expected.base.name, reference);
    let entries = choose|
        entries: Result<Seq<GitHubStackEntryGenerationView>, GitHubStackMutationErrorView>,
    | #[trigger]
        stack_adapter::entries_fresh(runner, repository, expected.entries, entries) && outcome
            == match entries {
            Err(error) => Err(error),
            Ok(list) => stack_adapter::still(
                expected,
                GitHubStackTopologyView { base, entries: list },
            ),
        };
    let rows = expected.entries;
    let reads = choose|reads: Seq<Result<PullRequestSnapshotView, MutationErrorView>>| #[trigger]
        adapter::refetched_each(runner, repository, stack::entry_prs(rows), reads) && entries
            == stack_adapter::fresh_entries_of(rows, reads) && (entries is Ok ==> reads.len()
            == rows.len());
    lemma_fresh_entries(rows, reads);
    assert forall|i: int| 0 <= i < rows.len() implies entry_is_current(
        runner,
        repository,
        #[trigger] rows[i],
        i,
    ) by {
        let pr = reads[i]->Ok_0;
        assert(adapter::refetched(
            runner,
            repository,
            model::pr_text(stack::entry_prs(rows)[i]),
            reads[i],
        ));
        assert(adapter::refetched(runner, repository, text::decimal(rows[i].pr.0 as nat), Ok(pr)));
    }
}

// ---------------------------------------------------------------------------
// Outcomes
// ---------------------------------------------------------------------------

/// What was asked for is there: no Stack, or one with exactly that base and
/// those entries. A Stack that was known before is still the same one.
pub open spec fn is_there(
    before: Option<GitHubStackGenerationView>,
    desired: Option<GitHubStackTopologyView>,
    seen: Option<GitHubStackGenerationView>,
) -> bool {
    &&& desired is None <==> seen is None
    &&& seen is Some ==> seen->0.topology.base == desired->0.base && seen->0.topology.entries
        == desired->0.entries
    &&& seen is Some && before is Some ==> seen->0.id == before->0.id && seen->0.number
        == before->0.number && seen->0.node_id == before->0.node_id && seen->0.created_at
        == before->0.created_at
}

/// Only the facts that are read after the request decide whether a change was
/// made: there is a receipt exactly where they show what was asked for. The
/// receipt holds the facts of before and after, and says whether the request was
/// answered with success. An answer of success without the facts is told apart
/// from an answer that leaves the change open.
pub proof fn lemma_facts_decide_change(
    repository: RepositoryIdView,
    operation_id: Seq<char>,
    actor: Seq<char>,
    operation: GitHubStackMutationOperation,
    request: GitHubStackRequestIdentityView,
    before: Option<GitHubStackGenerationView>,
    desired: Option<GitHubStackTopologyView>,
    reply: Reply,
    seen: Result<Option<GitHubStackGenerationView>, GitHubStackMutationErrorView>,
)
    ensures
        ({
            let outcome = stack_adapter::change_outcome(
                repository,
                operation_id,
                actor,
                operation,
                request,
                before,
                desired,
                reply,
                seen,
            );
            let succeeded = reply is Ok && reply->Ok_0.succeeded();
            &&& outcome is Ok <==> seen is Ok && is_there(before, desired, seen->Ok_0)
            &&& outcome matches Ok(receipt) ==> {
                &&& receipt.operation_id == operation_id
                &&& receipt.operation == operation
                &&& receipt.repository == repository
                &&& receipt.actor == actor
                &&& receipt.before == before
                &&& receipt.after == seen->Ok_0
                &&& receipt.request.method == request.method
                &&& receipt.request.path == request.path
                &&& receipt.request.ordered_pull_requests == request.ordered_pull_requests
                &&& receipt.disposition == GitHubStackMutationDisposition::Completed <==> succeeded
                &&& receipt.disposition != GitHubStackMutationDisposition::AlreadySatisfied
            }
            &&& outcome matches Err(error) ==> if succeeded && seen is Ok {
                error matches GitHubStackMutationErrorView::PostconditionFailed {
                    operation: done,
                    expected,
                    actual,
                } && done == operation && expected == desired && actual == seen->Ok_0
            } else {
                error matches GitHubStackMutationErrorView::AmbiguousResponse {
                    operation: done,
                    observed,
                    ..
                } && done == operation && observed == (match seen {
                    Ok(shown) => shown,
                    Err(_) => None,
                })
            }
        }),
{
    if seen is Ok && seen->Ok_0 is Some && desired is Some {
        let shown = seen->Ok_0->0.topology;
        let asked = desired->0;
        if shown.base == asked.base && shown.entries == asked.entries {
            assert(shown == asked);
        }
    }
}

/// A creation that succeeds either found a Stack of exactly the desired entries,
/// or found none that holds any of them, saw every entry and the base as
/// desired, asked for it, and saw it afterwards.
pub proof fn lemma_creation_rests_on_facts<R: CommandRunner>(
    runner: R,
    repository: RepositoryIdView,
    plan: GitHubStackCreatePlanView,
    receipt: GitHubStackMutationReceiptView,
)
    requires
        stack_adapter::stack_created(runner, repository, plan, Ok(receipt)),
    ensures
        receipt.after is Some,
        receipt.after->0.topology.base == plan.desired.base,
        receipt.after->0.topology.entries == plan.desired.entries,
        receipt.operation == GitHubStackMutationOperation::Create,
        receipt.operation_id == plan.operation_id,
        receipt.actor == plan.actor,
        receipt.repository == repository,
        receipt.disposition == GitHubStackMutationDisposition::AlreadySatisfied <==> receipt.before
            is Some,
        receipt.before is Some ==> receipt.before == receipt.after,
        receipt.before is Some ==> stack_adapter::rediscovered(
            runner,
            repository,
            plan.desired,
            Ok(receipt.after),
        ),
        receipt.before is None ==> {
            &&& stack_adapter::rediscovered(runner, repository, plan.desired, Ok(None))
            &&& topology_is_current(runner, repository, plan.desired)
            &&& exists|sent: Sent|
                #[trigger] command::was_sent(
                    runner,
                    stack::stack_create(repository, plan.desired),
                    sent,
                ) && stack_adapter::rediscovered(
                    command::after(&runner, &sent),
                    repository,
                    plan.desired,
                    Ok(receipt.after),
                )
        },
{
    let outcome = Ok::<GitHubStackMutationReceiptView, GitHubStackMutationErrorView>(receipt);
    let found = choose|
        found: Result<Option<GitHubStackGenerationView>, GitHubStackMutationErrorView>,
    | #[trigger]
        stack_adapter::rediscovered(runner, repository, plan.desired, found) && match found {
            Err(error) => outcome == Err::<GitHubStackMutationReceiptView, _>(error),
            Ok(Some(existing)) => outcome == stack_adapter::existing_outcome(
                repository,
                plan,
                existing,
            ),
            Ok(None) => stack_adapter::create_fresh(runner, repository, plan, outcome),
        };
    if found->Ok_0 is None {
        let fresh = choose|fresh: Result<(), GitHubStackMutationErrorView>| #[trigger]
            stack_adapter::topology_fresh(runner, repository, plan.desired, fresh) && match fresh {
                Err(error) => outcome == Err::<GitHubStackMutationReceiptView, _>(error),
                Ok(_) => stack_adapter::create_sent(runner, repository, plan, outcome),
            };
        assert(fresh == Ok::<(), GitHubStackMutationErrorView>(()));
        lemma_confirmed_topology_is_current(runner, repository, plan.desired);
        let (sent, seen) = choose|
            sent: Sent,
            seen: Result<Option<GitHubStackGenerationView>, GitHubStackMutationErrorView>,
        |
            #[trigger] command::was_sent(
                runner,
                stack::stack_create(repository, plan.desired),
                sent,
            ) && #[trigger] stack_adapter::rediscovered(
                command::after(&runner, &sent),
                repository,
                plan.desired,
                seen,
            ) && outcome == stack_adapter::change_outcome(
                repository,
                plan.operation_id,
                plan.actor,
                GitHubStackMutationOperation::Create,
                stack::create_identity(repository, plan.desired),
                None,
                Some(plan.desired),
                sent.answer(),
                seen,
            );
        lemma_facts_decide_change(
            repository,
            plan.operation_id,
            plan.actor,
            GitHubStackMutationOperation::Create,
            stack::create_identity(repository, plan.desired),
            None,
            Some(plan.desired),
            sent.answer(),
            seen,
        );
        assert(seen == Ok::<Option<GitHubStackGenerationView>, GitHubStackMutationErrorView>(
            receipt.after,
        ));
    }
}

/// An append that succeeds names the same Stack with exactly the desired
/// entries. Where they were not there already, the Stack was read twice as it
/// was expected, every entry and the base were seen as desired, the append was
/// sent, and the Stack was read afterwards.
pub proof fn lemma_append_rests_on_facts<R: CommandRunner>(
    runner: R,
    repository: RepositoryIdView,
    plan: GitHubStackAddPlanView,
    receipt: GitHubStackMutationReceiptView,
)
    requires
        stack_adapter::stack_added(runner, repository, plan, Ok(receipt)),
    ensures
        is_there(Some(plan.before), Some(plan.desired), receipt.after),
        receipt.operation == GitHubStackMutationOperation::Add,
        receipt.operation_id == plan.operation_id,
        receipt.actor == plan.actor,
        receipt.repository == repository,
        receipt.disposition == GitHubStackMutationDisposition::AlreadySatisfied ==> {
            &&& receipt.before == receipt.after
            &&& stack_adapter::generation_read(
                runner,
                repository,
                plan.before.number,
                Ok(receipt.after),
            )
        },
        receipt.disposition != GitHubStackMutationDisposition::AlreadySatisfied ==> {
            &&& receipt.before == Some(plan.before)
            &&& stack_adapter::generation_read(
                runner,
                repository,
                plan.before.number,
                Ok(Some(plan.before)),
            )
            &&& topology_is_current(runner, repository, plan.desired)
            &&& exists|sent: Sent|
                #[trigger] command::was_sent(runner, stack::stack_add(repository, plan), sent)
                    && stack_adapter::generation_read(
                    command::after(&runner, &sent),
                    repository,
                    plan.before.number,
                    Ok(receipt.after),
                )
        },
{
    let outcome = Ok::<GitHubStackMutationReceiptView, GitHubStackMutationErrorView>(receipt);
    let read = choose|
        read: Result<Option<GitHubStackGenerationView>, GitHubStackMutationErrorView>,
    | #[trigger]
        stack_adapter::generation_read(runner, repository, plan.before.number, read) && match read {
            Err(error) => outcome == Err::<GitHubStackMutationReceiptView, _>(error),
            Ok(actual) => if stack_adapter::met(Some(plan.before), Some(plan.desired), actual) {
                outcome == Ok::<_, GitHubStackMutationErrorView>(
                    stack_adapter::satisfied(
                        repository,
                        plan.operation_id,
                        plan.actor,
                        GitHubStackMutationOperation::Add,
                        stack::add_identity(repository, plan),
                        actual,
                    ),
                )
            } else if actual is None {
                outcome == Err::<GitHubStackMutationReceiptView, _>(
                    stack::stale(plan.before.topology, None),
                )
            } else if actual != Some(plan.before) {
                outcome == Err::<GitHubStackMutationReceiptView, _>(
                    stack::stale_exact(plan.before, actual),
                )
            } else {
                stack_adapter::add_fresh(runner, repository, plan, outcome)
            },
        };
    let actual = read->Ok_0;
    if !stack_adapter::met(Some(plan.before), Some(plan.desired), actual) {
        let fresh = choose|fresh: Result<(), GitHubStackMutationErrorView>| #[trigger]
            stack_adapter::topology_fresh(runner, repository, plan.desired, fresh) && match fresh {
                Err(error) => outcome == Err::<GitHubStackMutationReceiptView, _>(error),
                Ok(_) => stack_adapter::add_leased(runner, repository, plan, outcome),
            };
        assert(fresh == Ok::<(), GitHubStackMutationErrorView>(()));
        lemma_confirmed_topology_is_current(runner, repository, plan.desired);
        let sent = lemma_sent_change(
            runner,
            repository,
            plan.operation_id,
            plan.actor,
            GitHubStackMutationOperation::Add,
            plan.before,
            Some(plan.desired),
            stack::add_identity(repository, plan),
            stack::stack_add(repository, plan),
            None,
            receipt,
        );
        assert(stack_adapter::generation_read(
            command::after(&runner, &sent),
            repository,
            plan.before.number,
            Ok(receipt.after),
        ));
    }
}

proof fn lemma_sent_change<R: CommandRunner>(
    runner: R,
    repository: RepositoryIdView,
    operation_id: Seq<char>,
    actor: Seq<char>,
    operation: GitHubStackMutationOperation,
    before: GitHubStackGenerationView,
    desired: Option<GitHubStackTopologyView>,
    request: GitHubStackRequestIdentityView,
    write: crate::command::CommandSpecView,
    allowed: Option<PrNumber>,
    receipt: GitHubStackMutationReceiptView,
) -> (sent: Sent)
    requires
        stack_adapter::change_sent(
            runner,
            repository,
            operation_id,
            actor,
            operation,
            before,
            desired,
            request,
            write,
            allowed,
            Ok(receipt),
        ),
    ensures
        is_there(Some(before), desired, receipt.after),
        receipt.before == Some(before),
        receipt.operation == operation,
        receipt.operation_id == operation_id,
        receipt.actor == actor,
        receipt.repository == repository,
        receipt.disposition != GitHubStackMutationDisposition::AlreadySatisfied,
        command::was_sent(runner, write, sent),
        stack_adapter::generation_read_allowing(
            command::after(&runner, &sent),
            repository,
            before.number,
            allowed,
            Ok(receipt.after),
        ),
{
    let (sent, seen) = choose|
        sent: Sent,
        seen: Result<Option<GitHubStackGenerationView>, GitHubStackMutationErrorView>,
    |
        #[trigger] command::was_sent(runner, write, sent)
            && #[trigger] stack_adapter::generation_read_allowing(
            command::after(&runner, &sent),
            repository,
            before.number,
            allowed,
            seen,
        ) && Ok::<GitHubStackMutationReceiptView, GitHubStackMutationErrorView>(receipt)
            == stack_adapter::change_outcome(
            repository,
            operation_id,
            actor,
            operation,
            request,
            Some(before),
            desired,
            sent.answer(),
            seen,
        );
    lemma_facts_decide_change(
        repository,
        operation_id,
        actor,
        operation,
        request,
        Some(before),
        desired,
        sent.answer(),
        seen,
    );
    assert(seen == Ok::<Option<GitHubStackGenerationView>, GitHubStackMutationErrorView>(
        receipt.after,
    ));
    sent
}

/// Taking a Stack apart succeeds only where a read shows what was to be left.
/// Where it was not so already, the Stack was read as it was expected, the
/// request was sent, and the Stack was read afterwards.
pub proof fn lemma_unstack_rests_on_facts<R: CommandRunner>(
    runner: R,
    repository: RepositoryIdView,
    plan: GitHubStackUnstackPlanView,
    allowed: Option<PrNumber>,
    receipt: GitHubStackMutationReceiptView,
)
    requires
        stack_adapter::unstacked(runner, repository, plan, allowed, Ok(receipt)),
    ensures
        is_there(Some(plan.before), plan.desired_after, receipt.after),
        receipt.operation == GitHubStackMutationOperation::Unstack,
        receipt.operation_id == plan.operation_id,
        receipt.actor == plan.actor,
        receipt.repository == repository,
        receipt.disposition == GitHubStackMutationDisposition::AlreadySatisfied ==> {
            &&& receipt.before == receipt.after
            &&& stack_adapter::generation_read_allowing(
                runner,
                repository,
                plan.before.number,
                allowed,
                Ok(receipt.after),
            )
        },
        receipt.disposition != GitHubStackMutationDisposition::AlreadySatisfied ==> {
            &&& receipt.before == Some(plan.before)
            &&& stack_adapter::generation_read_allowing(
                runner,
                repository,
                plan.before.number,
                allowed,
                Ok(Some(plan.before)),
            )
            &&& exists|sent: Sent|
                #[trigger] command::was_sent(
                    runner,
                    stack::stack_unstack(repository, plan.before.number),
                    sent,
                ) && stack_adapter::generation_read_allowing(
                    command::after(&runner, &sent),
                    repository,
                    plan.before.number,
                    allowed,
                    Ok(receipt.after),
                )
        },
{
    let outcome = Ok::<GitHubStackMutationReceiptView, GitHubStackMutationErrorView>(receipt);
    let read = choose|
        read: Result<Option<GitHubStackGenerationView>, GitHubStackMutationErrorView>,
    | #[trigger]
        stack_adapter::generation_read_allowing(
            runner,
            repository,
            plan.before.number,
            allowed,
            read,
        ) && match read {
            Err(error) => outcome == Err::<GitHubStackMutationReceiptView, _>(error),
            Ok(actual) => if stack_adapter::met(Some(plan.before), plan.desired_after, actual) {
                outcome == Ok::<_, GitHubStackMutationErrorView>(
                    stack_adapter::satisfied(
                        repository,
                        plan.operation_id,
                        plan.actor,
                        GitHubStackMutationOperation::Unstack,
                        stack::unstack_identity(repository, plan.before.number),
                        actual,
                    ),
                )
            } else if actual is None {
                outcome == Err::<GitHubStackMutationReceiptView, _>(
                    stack::stale(plan.before.topology, None),
                )
            } else if actual != Some(plan.before) {
                outcome == Err::<GitHubStackMutationReceiptView, _>(
                    stack::stale_exact(plan.before, actual),
                )
            } else {
                stack_adapter::change_sent(
                    runner,
                    repository,
                    plan.operation_id,
                    plan.actor,
                    GitHubStackMutationOperation::Unstack,
                    plan.before,
                    plan.desired_after,
                    stack::unstack_identity(repository, plan.before.number),
                    stack::stack_unstack(repository, plan.before.number),
                    allowed,
                    outcome,
                )
            },
        };
    let actual = read->Ok_0;
    if !stack_adapter::met(Some(plan.before), plan.desired_after, actual) {
        let sent = lemma_sent_change(
            runner,
            repository,
            plan.operation_id,
            plan.actor,
            GitHubStackMutationOperation::Unstack,
            plan.before,
            plan.desired_after,
            stack::unstack_identity(repository, plan.before.number),
            stack::stack_unstack(repository, plan.before.number),
            allowed,
            receipt,
        );
        assert(command::was_sent(
            runner,
            stack::stack_unstack(repository, plan.before.number),
            sent,
        ));
    }
}

} // verus!
