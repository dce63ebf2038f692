//! Which branches a lock covers, when a ruleset counts as one and what taking
//! and giving it back rest on, over the entries and the rulesets themselves.

use vstd::prelude::*;
use crate::command;
use crate::command::{CommandRunner, Reply, Sent};
use crate::github::adapter;
use crate::github::provider::MutationErrorView;
use crate::github::stack::GitHubStackEntryGenerationView;
use crate::github::stack_lock;
use crate::github::stack_lock::{
    GitHubStackBranchLockDisposition, GitHubStackBranchLockErrorView,
    GitHubStackBranchLockGenerationView, GitHubStackBranchLockOperation,
    GitHubStackBranchLockPlanView, GitHubStackBranchLockReceiptView, RulesetResponse,
    RulesetResponseView, RulesetSummary, RulesetSummaryView,
};
use crate::json;
use crate::json::Decode;
use crate::model::{PrNumber, RepositoryIdView};
use crate::text;

verus! {

proof fn lemma_heads(repository: RepositoryIdView, entries: Seq<GitHubStackEntryGenerationView>)
    ensures
        stack_lock::distinct_heads(repository, entries) <==> forall|i: int|
            0 <= i < entries.len() ==> #[trigger] own_branch(repository, entries, i),
    decreases entries.len(),
{
    if entries.len() > 0 {
        let below = entries.drop_last();
        let n = below.len() as int;
        let top = entries.last();
        let names = stack_lock::head_names(below);
        lemma_heads(repository, below);
        assert(entries[n] == top);
        assert forall|i: int| 0 <= i < n implies #[trigger] own_branch(repository, entries, i)
            == own_branch(repository, below, i) by {
            assert(entries[i] == below[i]);
            if own_branch(repository, below, i) {
                assert forall|k: int| 0 <= k < i implies (#[trigger] entries[k]).head.name
                    != entries[i].head.name by {
                    assert(below[k] == entries[k]);
                }
            }
            if own_branch(repository, entries, i) {
                assert forall|k: int| 0 <= k < i implies (#[trigger] below[k]).head.name
                    != below[i].head.name by {
                    assert(below[k] == entries[k]);
                }
            }
        }
        if names.contains(top.head.name) {
            let k = choose|k: int| 0 <= k < names.len() && names[k] == top.head.name;
            assert(entries[k].head.name == top.head.name);
            assert(!own_branch(repository, entries, n));
        } else {
            assert forall|k: int| 0 <= k < n implies (#[trigger] entries[k]).head.name
                != top.head.name by {
                assert(names[k] == entries[k].head.name);
            }
        }
        if stack_lock::distinct_heads(repository, entries) {
            assert forall|i: int| 0 <= i < entries.len() implies #[trigger] own_branch(
                repository,
                entries,
                i,
            ) by {
                if i < n {
                    assert(own_branch(repository, below, i));
                }
            }
        }
        if forall|i: int| 0 <= i < entries.len() ==> #[trigger] own_branch(
            repository,
            entries,
            i,
        ) {
            assert(own_branch(repository, entries, n));
            assert forall|i: int| 0 <= i < below.len() implies #[trigger] own_branch(
                repository,
                below,
                i,
            ) by {
                assert(own_branch(repository, entries, i));
            }
        }
    }
}

/// The head of an entry is a named branch of the repository that no entry below
/// it has.
pub open spec fn own_branch(
    repository: RepositoryIdView,
    entries: Seq<GitHubStackEntryGenerationView>,
    i: int,
) -> bool {
    &&& entries[i].head.repository == repository
    &&& !text::is_blank(entries[i].head.name)
    &&& forall|k: int| 0 <= k < i ==> (#[trigger] entries[k]).head.name != entries[i].head.name
}

/// A lock can be asked for exactly by a named actor in a named operation, of one
/// entry at least, and of entries that each have a named branch of the
/// repository for their own.
pub proof fn lemma_lock_is_accepted_exactly(
    repository: RepositoryIdView,
    plan: GitHubStackBranchLockPlanView,
)
    ensures
        stack_lock::lock_refusal(repository, plan) is None <==> {
            &&& !text::is_blank(plan.operation_id)
            &&& !text::is_blank(plan.actor)
            &&& plan.selected.len() > 0
            &&& forall|i: int|
                0 <= i < plan.selected.len() ==> #[trigger] own_branch(
                    repository,
                    plan.selected,
                    i,
                )
        },
{
    lemma_heads(repository, plan.selected);
}

/// A ruleset counts as a lock exactly where it leaves out no branch, lets no one
/// by, and forbids updates and deletions and nothing else. The lock then holds
/// what the ruleset says.
pub proof fn lemma_ruleset_counts_exactly(
    repository: RepositoryIdView,
    ruleset: RulesetResponseView,
)
    ensures
        stack_lock::lock_of(repository, ruleset) is Ok <==> {
            &&& ruleset.conditions.ref_name.exclude.len() == 0
            &&& ruleset.bypass_actors.len() == 0
            &&& forall|i: int|
                0 <= i < ruleset.rules.len() ==> (#[trigger] ruleset.rules[i]).kind == "update"@
                    || ruleset.rules[i].kind == "deletion"@
            &&& exists|i: int|
                0 <= i < ruleset.rules.len() && (#[trigger] ruleset.rules[i]).kind == "update"@
            &&& exists|i: int|
                0 <= i < ruleset.rules.len() && (#[trigger] ruleset.rules[i]).kind == "deletion"@
        },
        stack_lock::lock_of(repository, ruleset) matches Ok(lock) ==> is_ruleset(
            repository,
            ruleset,
            lock,
        ),
{
    let refs = ruleset.conditions.ref_name.included;
    lemma_same_texts(refs);
}

/// A lock holds what a ruleset says.
pub open spec fn is_ruleset(
    repository: RepositoryIdView,
    ruleset: RulesetResponseView,
    lock: GitHubStackBranchLockGenerationView,
) -> bool {
    &&& lock.id == ruleset.id
    &&& lock.node_id == ruleset.node_id
    &&& lock.name == ruleset.name
    &&& lock.repository == repository
    &&& lock.source == ruleset.source
    &&& lock.source_type == ruleset.source_type
    &&& lock.target == ruleset.target
    &&& lock.enforcement == ruleset.enforcement
    &&& lock.current_user_can_bypass == ruleset.current_user_can_bypass
    &&& lock.created_at == ruleset.created_at
    &&& lock.updated_at == ruleset.updated_at
    &&& lock.selected_refs.len() == ruleset.conditions.ref_name.included.len()
    &&& forall|x: Seq<char>| #[trigger]
        lock.selected_refs.contains(x) <==> ruleset.conditions.ref_name.included.contains(x)
}

proof fn lemma_same_texts(rows: Seq<Seq<char>>)
    ensures
        forall|x: Seq<char>| #[trigger] text::sorted(rows).contains(x) <==> rows.contains(x),
        text::sorted(rows).len() == rows.len(),
{
    broadcast use vstd::seq_lib::group_to_multiset_ensures;

    text::lemma_sorted(rows);
    let out = text::sorted(rows);
    assert forall|x: Seq<char>| #[trigger] out.contains(x) <==> rows.contains(x) by {
        assert(out.contains(x) <==> out.to_multiset().count(x) > 0);
        assert(rows.contains(x) <==> rows.to_multiset().count(x) > 0);
    }
}

/// A lock that is active on branches of the repository, lets no one by, and
/// covers the head branch of every selected entry and no other branch.
pub open spec fn covers(
    repository: RepositoryIdView,
    lock: GitHubStackBranchLockGenerationView,
    selected: Seq<GitHubStackEntryGenerationView>,
) -> bool {
    &&& lock.repository == repository
    &&& lock.source == repository.owner + "/"@ + repository.name
    &&& lock.source_type == "Repository"@
    &&& lock.target == "branch"@
    &&& lock.enforcement == "active"@
    &&& lock.current_user_can_bypass == "never"@
    &&& lock.selected_refs.len() == selected.len()
    &&& forall|i: int|
        0 <= i < selected.len() ==> lock.selected_refs.contains(
            "refs/heads/"@ + (#[trigger] selected[i]).head.name,
        )
    &&& forall|x: Seq<char>| #[trigger]
        lock.selected_refs.contains(x) ==> exists|i: int|
            0 <= i < selected.len() && x == "refs/heads/"@ + (#[trigger] selected[i]).head.name
}

/// What is planned covers the selection, and every lock with the same policy
/// does.
pub proof fn lemma_same_policy_covers(
    repository: RepositoryIdView,
    plan: GitHubStackBranchLockPlanView,
    lock: GitHubStackBranchLockGenerationView,
)
    requires
        stack_lock::same_policy(lock, stack_lock::planned_lock(repository, plan)),
    ensures
        covers(repository, lock, plan.selected),
        lock.name == stack_lock::planned_lock(repository, plan).name,
{
    let refs = stack_lock::head_refs(plan.selected);
    lemma_same_texts(refs);
    assert forall|i: int| 0 <= i < plan.selected.len() implies lock.selected_refs.contains(
        "refs/heads/"@ + (#[trigger] plan.selected[i]).head.name,
    ) by {
        assert(refs[i] == "refs/heads/"@ + plan.selected[i].head.name);
        assert(refs.contains(refs[i]));
    }
    assert forall|x: Seq<char>| #[trigger] lock.selected_refs.contains(x) implies exists|i: int|
        0 <= i < plan.selected.len() && x == "refs/heads/"@ + (
        #[trigger] plan.selected[i]).head.name by {
        assert(refs.contains(x));
        let i = choose|i: int| 0 <= i < refs.len() && refs[i] == x;
        assert(x == "refs/heads/"@ + plan.selected[i].head.name);
    }
}

/// A ruleset of this identifier was read and counts as this lock.
pub open spec fn lock_was_read<R: CommandRunner>(
    runner: R,
    repository: RepositoryIdView,
    id: u64,
    lock: GitHubStackBranchLockGenerationView,
) -> bool {
    exists|reply: Reply, ruleset: RulesetResponseView|
        #[trigger] command::ran(runner, stack_lock::ruleset_read(repository, id), reply)
            && #[trigger] says(reply, ruleset) && is_ruleset(repository, ruleset, lock)
            && ruleset.bypass_actors.len() == 0 && ruleset.conditions.ref_name.exclude.len() == 0
}

/// An answer with success holds this ruleset.
pub open spec fn says(reply: Reply, ruleset: RulesetResponseView) -> bool {
    reply matches Ok(output) && output.succeeded() && (json::json_read(output.stdout) matches Ok(
        tree,
    ) && RulesetResponse::decoded(tree) == Some(ruleset))
}

/// The ruleset of this identifier was answered to be absent.
pub open spec fn lock_was_absent<R: CommandRunner>(
    runner: R,
    repository: RepositoryIdView,
    id: u64,
) -> bool {
    exists|reply: Reply| #[trigger]
        command::ran(runner, stack_lock::ruleset_read(repository, id), reply) && (reply matches Ok(
            output,
        ) && !output.succeeded() && text::holds_text(output.stderr, "HTTP 404"@))
}

/// A lock is read only from a ruleset that counts as one, and is taken for
/// absent only where the provider says that there is none.
pub proof fn lemma_lock_is_read<R: CommandRunner>(
    runner: R,
    repository: RepositoryIdView,
    id: u64,
    seen: Option<GitHubStackBranchLockGenerationView>,
)
    requires
        stack_lock::lock_read(runner, repository, id, Ok(seen)),
    ensures
        seen matches Some(lock) ==> lock_was_read(runner, repository, id, lock),
        seen is None ==> lock_was_absent(runner, repository, id),
{
    let reply = choose|reply: Reply| #[trigger]
        command::ran(runner, stack_lock::ruleset_read(repository, id), reply) && Ok::<
            Option<GitHubStackBranchLockGenerationView>,
            GitHubStackBranchLockErrorView,
        >(seen) == stack_lock::lock_in(
            repository,
            stack_lock::ruleset_read(repository, id),
            reply,
        );
    if let Some(lock) = seen {
        let output = reply->Ok_0;
        let tree = json::json_read(output.stdout)->Ok_0;
        let ruleset = RulesetResponse::decoded(tree)->0;
        lemma_ruleset_counts_exactly(repository, ruleset);
        assert(says(reply, ruleset));
        assert(is_ruleset(repository, ruleset, lock));
    }
}

proof fn lemma_of_name(rows: Seq<RulesetSummaryView>, name: Seq<char>)
    ensures
        stack_lock::of_name(rows, name).len() == 0 <==> forall|i: int|
            0 <= i < rows.len() ==> (#[trigger] rows[i]).name != name,
        stack_lock::of_name(rows, name).len() == 1 ==> exists|at: int| #[trigger]
            one_of_name(rows, name, at) && stack_lock::of_name(rows, name)[0] == rows[at].id,
    decreases rows.len(),
{
    let found = stack_lock::of_name(rows, name);
    if rows.len() > 0 {
        let front = rows.drop_last();
        let n = front.len() as int;
        lemma_of_name(front, name);
        let below = stack_lock::of_name(front, name);
        assert(rows[n] == rows.last());
        assert forall|i: int| 0 <= i < n implies #[trigger] rows[i] == front[i] by {}
        if rows.last().name == name {
            if below.len() == 0 {
                assert forall|i: int| 0 <= i < rows.len() && i != n implies (
                #[trigger] rows[i]).name != name by {
                    assert(front[i].name != name);
                }
                assert(one_of_name(rows, name, n));
            }
        } else {
            if found.len() == 1 {
                let at = choose|at: int| #[trigger]
                    one_of_name(front, name, at) && below[0] == front[at].id;
                assert forall|i: int| 0 <= i < rows.len() && i != at implies (
                #[trigger] rows[i]).name != name by {
                    if i < n {
                        assert(front[i].name != name);
                    }
                }
                assert(one_of_name(rows, name, at));
            }
            if found.len() == 0 {
                assert forall|i: int| 0 <= i < rows.len() implies (#[trigger] rows[i]).name
                    != name by {
                    if i < n {
                        assert(front[i].name != name);
                    }
                }
            }
            if forall|i: int| 0 <= i < rows.len() ==> (#[trigger] rows[i]).name != name {
                assert forall|i: int| 0 <= i < front.len() implies (#[trigger] front[i]).name
                    != name by {
                    assert(rows[i].name != name);
                }
            }
        }
    }
}

/// The one row of this name.
pub open spec fn one_of_name(rows: Seq<RulesetSummaryView>, name: Seq<char>, at: int) -> bool {
    &&& 0 <= at < rows.len()
    &&& rows[at].name == name
    &&& forall|i: int| 0 <= i < rows.len() && i != at ==> (#[trigger] rows[i]).name != name
}

/// The rulesets that are listed.
pub open spec fn lists<R: CommandRunner>(
    runner: R,
    repository: RepositoryIdView,
    rows: Seq<RulesetSummaryView>,
) -> bool {
    adapter::got::<R, Vec<RulesetSummary>>(runner, stack_lock::ruleset_list(repository), Ok(rows))
}

/// A lock is found by name only as the one listed ruleset of that name, which is
/// then read. Nothing is found only where no listed ruleset has that name and
/// the list is no full page, or where the one of that name is answered to be
/// absent.
pub proof fn lemma_lock_is_found_by_name<R: CommandRunner>(
    runner: R,
    repository: RepositoryIdView,
    name: Seq<char>,
    seen: Option<GitHubStackBranchLockGenerationView>,
)
    requires
        stack_lock::lock_found(runner, repository, name, Ok(seen)),
    ensures
        exists|rows: Seq<RulesetSummaryView>| #[trigger]
            lists(runner, repository, rows) && match seen {
                Some(lock) => exists|at: int| #[trigger]
                    one_of_name(rows, name, at) && lock_was_read(
                        runner,
                        repository,
                        rows[at].id,
                        lock,
                    ),
                None => {
                    ||| rows.len() != 100 && forall|i: int|
                        0 <= i < rows.len() ==> (#[trigger] rows[i]).name != name
                    ||| exists|at: int| #[trigger]
                        one_of_name(rows, name, at) && lock_was_absent(
                            runner,
                            repository,
                            rows[at].id,
                        )
                },
            },
{
    let outcome = Ok::<Option<GitHubStackBranchLockGenerationView>, GitHubStackBranchLockErrorView>(
        seen,
    );
    let list = choose|list: Result<Seq<RulesetSummaryView>, MutationErrorView>| #[trigger]
        adapter::got::<R, Vec<RulesetSummary>>(runner, stack_lock::ruleset_list(repository), list)
            && match list {
            Err(error) => outcome == Err::<Option<GitHubStackBranchLockGenerationView>, _>(
                GitHubStackBranchLockErrorView::Provider(error),
            ),
            Ok(rows) => match stack_lock::only_of_name(rows, name) {
                Err(error) => outcome == Err::<Option<GitHubStackBranchLockGenerationView>, _>(
                    error,
                ),
                Ok(Some(id)) => stack_lock::lock_read(runner, repository, id, outcome),
                Ok(None) => outcome == Ok::<_, GitHubStackBranchLockErrorView>(
                    None::<GitHubStackBranchLockGenerationView>,
                ),
            },
        };
    let rows = list->Ok_0;
    lemma_of_name(rows, name);
    assert(lists(runner, repository, rows));
    if stack_lock::of_name(rows, name).len() == 1 {
        let at = choose|at: int| #[trigger]
            one_of_name(rows, name, at) && stack_lock::of_name(rows, name)[0] == rows[at].id;
        lemma_lock_is_read(runner, repository, rows[at].id, seen);
    }
}

/// The same lock, but for the pull requests that it is bound to.
pub open spec fn same_ruleset(
    a: GitHubStackBranchLockGenerationView,
    b: GitHubStackBranchLockGenerationView,
) -> bool {
    a == (GitHubStackBranchLockGenerationView {
        selected_pull_requests: a.selected_pull_requests,
        ..b
    })
}

/// Taking a lock succeeds only with a lock that was read, covers the selection
/// and is bound to its pull requests in order. It was there under its name
/// before, or none was, the request was sent, and it was there afterwards.
pub proof fn lemma_taken_lock_covers<R: CommandRunner>(
    runner: R,
    repository: RepositoryIdView,
    plan: GitHubStackBranchLockPlanView,
    receipt: GitHubStackBranchLockReceiptView,
)
    requires
        stack_lock::acquired(runner, repository, plan, Ok(receipt)),
    ensures
        receipt.operation == GitHubStackBranchLockOperation::Acquire,
        receipt.operation_id == plan.operation_id,
        receipt.actor == plan.actor,
        receipt.repository == repository,
        receipt.lock is Some,
        covers(repository, receipt.lock->0, plan.selected),
        receipt.lock->0.selected_pull_requests.len() == plan.selected.len(),
        forall|i: int|
            0 <= i < plan.selected.len() ==> #[trigger] receipt.lock->0.selected_pull_requests[i]
                == plan.selected[i].pr,
        exists|read: GitHubStackBranchLockGenerationView|
            #[trigger] same_ruleset(read, receipt.lock->0) && if receipt.disposition
                == GitHubStackBranchLockDisposition::AlreadySatisfied {
                stack_lock::lock_found(
                    runner,
                    repository,
                    receipt.lock->0.name,
                    Ok(Some(read)),
                )
            } else {
                &&& stack_lock::lock_found(runner, repository, receipt.lock->0.name, Ok(None))
                &&& exists|sent: Sent|
                    #[trigger] command::was_sent(
                        runner,
                        stack_lock::ruleset_create(
                            repository,
                            stack_lock::planned_lock(repository, plan),
                        ),
                        sent,
                    ) && stack_lock::lock_found(
                        command::after(&runner, &sent),
                        repository,
                        receipt.lock->0.name,
                        Ok(Some(read)),
                    )
            },
{
    let outcome = Ok::<GitHubStackBranchLockReceiptView, GitHubStackBranchLockErrorView>(receipt);
    let planned = stack_lock::planned_lock(repository, plan);
    assert(planned.source =~= repository.owner + "/"@ + repository.name);
    let found = choose|
        found: Result<Option<GitHubStackBranchLockGenerationView>, GitHubStackBranchLockErrorView>,
    | #[trigger]
        stack_lock::lock_found(runner, repository, planned.name, found) && match found {
            Err(error) => outcome == Err::<GitHubStackBranchLockReceiptView, _>(error),
            Ok(Some(existing)) => outcome == stack_lock::acquire_existing(
                repository,
                plan,
                existing,
            ),
            Ok(None) => stack_lock::acquire_sent(runner, repository, plan, outcome),
        };
    if found->Ok_0 is Some {
        let existing = found->Ok_0->0;
        lemma_same_policy_covers(repository, plan, existing);
        assert(same_ruleset(existing, receipt.lock->0));
        assert(covers(repository, receipt.lock->0, plan.selected));
    } else {
        let (sent, seen) = choose|
            sent: Sent,
            seen: Result<
                Option<GitHubStackBranchLockGenerationView>,
                GitHubStackBranchLockErrorView,
            >,
        |
            #[trigger] command::was_sent(
                runner,
                stack_lock::ruleset_create(repository, planned),
                sent,
            ) && #[trigger] stack_lock::lock_found(
                command::after(&runner, &sent),
                repository,
                planned.name,
                seen,
            ) && outcome == stack_lock::acquire_outcome(
                repository,
                plan,
                planned,
                sent.answer(),
                seen,
            );
        let read = seen->Ok_0->0;
        lemma_same_policy_covers(repository, plan, read);
        assert(same_ruleset(read, receipt.lock->0));
        assert(covers(repository, receipt.lock->0, plan.selected));
        assert(command::was_sent(
            runner,
            stack_lock::ruleset_create(repository, planned),
            sent,
        ));
    }
}

/// A lock counts as held only where the ruleset of its identifier is read and
/// every part of it is as expected.
pub proof fn lemma_held_lock_is_unchanged<R: CommandRunner>(
    runner: R,
    repository: RepositoryIdView,
    expected: GitHubStackBranchLockGenerationView,
    lock: GitHubStackBranchLockGenerationView,
)
    requires
        stack_lock::lock_verified(runner, repository, expected, Ok(lock)),
    ensures
        lock == expected,
        exists|read: GitHubStackBranchLockGenerationView| #[trigger]
            same_ruleset(read, expected) && lock_was_read(runner, repository, expected.id, read),
{
    let read = choose|
        read: Result<Option<GitHubStackBranchLockGenerationView>, GitHubStackBranchLockErrorView>,
    | #[trigger]
        stack_lock::lock_read(runner, repository, expected.id, read) && Ok::<
            GitHubStackBranchLockGenerationView,
            GitHubStackBranchLockErrorView,
        >(lock) == match read {
            Err(error) => Err(error),
            Ok(actual) => stack_lock::held(expected, actual),
        };
    let seen = read->Ok_0->0;
    lemma_lock_is_read(runner, repository, expected.id, Some(seen));
    assert(same_ruleset(seen, expected));
}

/// The lock is gone: the provider says that there is none of its identifier, and
/// none is found by its name.
pub open spec fn is_gone<R: CommandRunner>(
    runner: R,
    repository: RepositoryIdView,
    expected: GitHubStackBranchLockGenerationView,
) -> bool {
    &&& lock_was_absent(runner, repository, expected.id)
    &&& stack_lock::lock_found(runner, repository, expected.name, Ok(None))
}

/// Giving a lock back succeeds only where it is gone: before anything was sent,
/// or after the lock was read just as expected and its deletion was sent. The
/// receipt names no lock.
pub proof fn lemma_released_lock_is_gone<R: CommandRunner>(
    runner: R,
    repository: RepositoryIdView,
    plan: GitHubStackBranchLockPlanView,
    expected: GitHubStackBranchLockGenerationView,
    receipt: GitHubStackBranchLockReceiptView,
)
    requires
        stack_lock::released(runner, repository, plan, expected, Ok(receipt)),
    ensures
        receipt.operation == GitHubStackBranchLockOperation::Release,
        receipt.operation_id == plan.operation_id,
        receipt.actor == plan.actor,
        receipt.repository == repository,
        receipt.lock is None,
        receipt.disposition == GitHubStackBranchLockDisposition::AlreadySatisfied ==> is_gone(
            runner,
            repository,
            expected,
        ),
        receipt.disposition != GitHubStackBranchLockDisposition::AlreadySatisfied ==> {
            &&& exists|read: GitHubStackBranchLockGenerationView| #[trigger]
                same_ruleset(read, expected) && lock_was_read(
                    runner,
                    repository,
                    expected.id,
                    read,
                )
            &&& exists|sent: Sent|
                #[trigger] command::was_sent(
                    runner,
                    stack_lock::ruleset_delete(repository, expected.id),
                    sent,
                ) && is_gone(command::after(&runner, &sent), repository, expected)
        },
{
    let outcome = Ok::<GitHubStackBranchLockReceiptView, GitHubStackBranchLockErrorView>(receipt);
    let read = choose|
        read: Result<Option<GitHubStackBranchLockGenerationView>, GitHubStackBranchLockErrorView>,
    | #[trigger]
        stack_lock::lock_read(runner, repository, expected.id, read) && match read {
            Err(error) => outcome == Err::<GitHubStackBranchLockReceiptView, _>(error),
            Ok(None) => stack_lock::release_absent(runner, repository, plan, expected, outcome),
            Ok(Some(lock)) => match stack_lock::held(expected, Some(lock)) {
                Err(error) => outcome == Err::<GitHubStackBranchLockReceiptView, _>(error),
                Ok(_) => stack_lock::release_sent(runner, repository, plan, expected, outcome),
            },
        };
    lemma_lock_is_read(runner, repository, expected.id, read->Ok_0);
    if read->Ok_0 is Some {
        let seen_before = read->Ok_0->0;
        assert(same_ruleset(seen_before, expected));
        let (sent, seen) = choose|
            sent: Sent,
            seen: Result<
                Option<GitHubStackBranchLockGenerationView>,
                GitHubStackBranchLockErrorView,
            >,
        |
            #[trigger] command::was_sent(
                runner,
                stack_lock::ruleset_delete(repository, expected.id),
                sent,
            ) && #[trigger] stack_lock::lock_gone(
                command::after(&runner, &sent),
                repository,
                expected,
                seen,
            ) && outcome == stack_lock::release_outcome(
                repository,
                plan,
                expected.id,
                sent.answer(),
                seen,
            );
        let later = command::after(&runner, &sent);
        let again = choose|
            again: Result<
                Option<GitHubStackBranchLockGenerationView>,
                GitHubStackBranchLockErrorView,
            >,
        | #[trigger]
            stack_lock::lock_read(later, repository, expected.id, again) && match again {
                Ok(None) => stack_lock::lock_found(later, repository, expected.name, seen),
                _ => seen == again,
            };
        lemma_lock_is_read(later, repository, expected.id, None);
        assert(is_gone(later, repository, expected));
        assert(command::was_sent(
            runner,
            stack_lock::ruleset_delete(repository, expected.id),
            sent,
        ));
    }
}

} // verus!
