//! What each step of a landing rests on, over locks and facts themselves.

use vstd::prelude::*;
use crate::command;
use crate::command::{CommandRunner, Sent};
use crate::github::lock_laws;
use crate::github::lock_laws::{covers, is_gone, lock_was_read, same_ruleset};
use crate::github::merge_fact_laws;
use crate::github::merge_fact_laws::claims_what_is_seen;
use crate::github::stack_adapter;
use crate::github::stack_land;
use crate::github::stack_land::{
    GitHubStackLandCheckpointView, GitHubStackLandErrorView, GitHubStackLandPhase,
    GitHubStackLockedMergeReceiptView,
};
use crate::github::stack_lock;
use crate::github::stack_lock::{
    GitHubStackBranchLockErrorView, GitHubStackBranchLockGenerationView,
    GitHubStackBranchLockReceiptView,
};
use crate::github::stack_merge;
use crate::github::stack_merge::{
    GitHubStackMergeErrorView, GitHubStackMergeReceiptView, GitHubStackMergeStatus,
};
use crate::model::RepositoryIdView;

verus! {

/// The evidence that a landing holds fits how far it got: no lock before one was
/// taken and always one after, something to poll while the merge goes on, an end
/// once it has one, and a release at last.
pub open spec fn fits(checkpoint: GitHubStackLandCheckpointView) -> bool {
    let phase = checkpoint.phase;
    &&& checkpoint.branch_lock is None <==> phase == GitHubStackLandPhase::Planned
    &&& phase == GitHubStackLandPhase::Planned || phase == GitHubStackLandPhase::Locked
        ==> checkpoint.merge is None
    &&& phase == GitHubStackLandPhase::Submitted ==> checkpoint.merge is Some
    &&& checkpoint.terminal_status is Some <==> phase == GitHubStackLandPhase::Terminal || phase
        == GitHubStackLandPhase::Released
    &&& checkpoint.lock_release is Some <==> phase == GitHubStackLandPhase::Released
}

/// A landing is taken up exactly where it is of the repository, of the known
/// form, intact, makes no claim that the provider does not, and holds the
/// evidence that fits how far it got.
pub proof fn lemma_landing_is_accepted_exactly(
    repository: RepositoryIdView,
    checkpoint: GitHubStackLandCheckpointView,
)
    ensures
        stack_land::land_accepted(repository, checkpoint) <==> {
            &&& checkpoint.repository == repository
            &&& checkpoint.schema_version == 1
            &&& !checkpoint.provider_atomic
            &&& checkpoint.intact()
            &&& fits(checkpoint)
        },
{
}

/// The lock step of a landing that was planned ends with a lock that covers the
/// head branch of every selected entry and no other branch.
pub proof fn lemma_locked_landing_is_covered<R: CommandRunner>(
    runner: R,
    repository: RepositoryIdView,
    checkpoint: GitHubStackLandCheckpointView,
    next: GitHubStackLandCheckpointView,
)
    requires
        stack_land::land_locked(runner, repository, checkpoint, Ok(next)),
        checkpoint.phase == GitHubStackLandPhase::Planned,
    ensures
        next.phase == GitHubStackLandPhase::Locked,
        next.plan == checkpoint.plan,
        next.branch_lock is Some,
        covers(repository, next.branch_lock->0, checkpoint.plan.selected),
        next.branch_lock->0.selected_pull_requests.len() == checkpoint.plan.selected.len(),
        forall|i: int|
            0 <= i < checkpoint.plan.selected.len()
                ==> #[trigger] next.branch_lock->0.selected_pull_requests[i]
                == checkpoint.plan.selected[i].pr,
{
    let taken = choose|
        taken: Result<GitHubStackBranchLockReceiptView, GitHubStackBranchLockErrorView>,
    | #[trigger]
        stack_lock::acquired(runner, repository, checkpoint.plan.lock_plan(), taken) && Ok::<
            _,
            GitHubStackLandErrorView,
        >(next) == stack_land::after_lock(checkpoint, taken);
    lock_laws::lemma_taken_lock_covers(
        runner,
        repository,
        checkpoint.plan.lock_plan(),
        taken->Ok_0,
    );
}

/// The lock was read just as expected.
pub open spec fn lock_is_held<R: CommandRunner>(
    runner: R,
    repository: RepositoryIdView,
    expected: GitHubStackBranchLockGenerationView,
) -> bool {
    exists|read: GitHubStackBranchLockGenerationView| #[trigger]
        same_ruleset(read, expected) && lock_was_read(runner, repository, expected.id, read)
}

/// A landing went on by this receipt of a merge: it ended exactly where the
/// merge did, with the same status, and otherwise keeps what is needed to poll.
pub open spec fn went_on(
    next: GitHubStackLandCheckpointView,
    merge: GitHubStackMergeReceiptView,
) -> bool {
    let ended = merge.status == GitHubStackMergeStatus::Merged || merge.status
        == GitHubStackMergeStatus::Failed || merge.status == GitHubStackMergeStatus::Indeterminate;
    &&& next.phase == if ended {
        GitHubStackLandPhase::Terminal
    } else {
        GitHubStackLandPhase::Submitted
    }
    &&& ended ==> next.terminal_status == Some(merge.status)
    &&& next.merge is Some <==> merge.checkpoint is Some
    &&& next.merge matches Some(locked) ==> merge.checkpoint == Some(locked.merge)
        && next.branch_lock == Some(locked.branch_lock)
}

/// The submission of a landing rests on its lock, read as it was taken, and on
/// the Stack, read as it was selected from. It goes on by a merge that was asked
/// for once both were read, and that claims only what is seen.
pub proof fn lemma_submitted_landing_rests_on_facts<R: CommandRunner>(
    runner: R,
    repository: RepositoryIdView,
    checkpoint: GitHubStackLandCheckpointView,
    next: GitHubStackLandCheckpointView,
)
    requires
        checkpoint.plan.before.topology.entries.len() <= usize::MAX,
        stack_land::land_submitted(runner, repository, checkpoint, Ok(next)),
        checkpoint.phase == GitHubStackLandPhase::Locked,
    ensures
        checkpoint.branch_lock is Some,
        lock_is_held(runner, repository, checkpoint.branch_lock->0),
        stack_adapter::generation_read(
            runner,
            repository,
            checkpoint.plan.before.number,
            Ok(Some(checkpoint.plan.before)),
        ),
        next.plan == checkpoint.plan,
        next.branch_lock == checkpoint.branch_lock,
        exists|sent: Sent, merge: GitHubStackMergeReceiptView|
            #[trigger] command::was_sent(
                runner,
                stack_merge::merge_submit(repository, checkpoint.plan),
                sent,
            ) && #[trigger] went_on(next, merge) && merge.plan == checkpoint.plan
                && claims_what_is_seen(command::after(&runner, &sent), merge),
{
    let plan = checkpoint.plan;
    let expected = checkpoint.branch_lock->0;
    let merged = choose|
        merged: Result<GitHubStackLockedMergeReceiptView, GitHubStackLandErrorView>,
    | #[trigger]
        stack_land::submitted_locked(runner, repository, plan, expected, merged) && Ok::<
            _,
            GitHubStackLandErrorView,
        >(next) == stack_land::after_merge(checkpoint, merged);
    let held = choose|
        held: Result<GitHubStackBranchLockGenerationView, GitHubStackBranchLockErrorView>,
    | #[trigger]
        stack_lock::lock_verified(runner, repository, expected, held) && match held {
            Err(error) => merged == Err::<GitHubStackLockedMergeReceiptView, _>(
                GitHubStackLandErrorView::Lock(error),
            ),
            Ok(lock) => stack_land::submitted_under(runner, repository, plan, lock, merged),
        };
    let lock = held->Ok_0;
    lock_laws::lemma_held_lock_is_unchanged(runner, repository, expected, lock);
    let answer = choose|answer: Result<GitHubStackMergeReceiptView, GitHubStackMergeErrorView>|
     #[trigger]
        stack_merge::merge_submitted(runner, repository, plan, answer) && merged
            == stack_land::locked_outcome(repository, lock, answer);
    let merge = answer->Ok_0;
    merge_fact_laws::lemma_submission_rests_on_facts(runner, repository, plan, merge);
    let sent = choose|sent: Sent| #[trigger]
        command::was_sent(runner, stack_merge::merge_submit(repository, plan), sent)
            && claims_what_is_seen(command::after(&runner, &sent), merge);
    assert(went_on(next, merge));
    assert(command::was_sent(runner, stack_merge::merge_submit(repository, plan), sent));
}

/// A poll of a landing rests on its lock, read as it was taken, and goes on by a
/// merge that claims only what is seen.
pub proof fn lemma_polled_landing_rests_on_facts<R: CommandRunner>(
    runner: R,
    repository: RepositoryIdView,
    checkpoint: GitHubStackLandCheckpointView,
    next: GitHubStackLandCheckpointView,
)
    requires
        checkpoint.merge is Some,
        checkpoint.merge->0.merge.plan.before.topology.entries.len() <= usize::MAX,
        stack_land::land_polled(runner, repository, checkpoint, Ok(next)),
        checkpoint.phase == GitHubStackLandPhase::Submitted,
    ensures
        lock_is_held(runner, repository, checkpoint.merge->0.branch_lock),
        next.plan == checkpoint.plan,
        next.branch_lock == Some(checkpoint.merge->0.branch_lock),
        exists|merge: GitHubStackMergeReceiptView| #[trigger]
            went_on(next, merge) && merge.plan == checkpoint.merge->0.merge.plan
                && claims_what_is_seen(runner, merge),
{
    let locked = checkpoint.merge->0;
    let merged = choose|
        merged: Result<GitHubStackLockedMergeReceiptView, GitHubStackLandErrorView>,
    | #[trigger]
        stack_land::polled_locked(runner, repository, locked, merged) && Ok::<
            _,
            GitHubStackLandErrorView,
        >(next) == stack_land::after_merge(checkpoint, merged);
    let held = choose|
        held: Result<GitHubStackBranchLockGenerationView, GitHubStackBranchLockErrorView>,
    | #[trigger]
        stack_lock::lock_verified(runner, repository, locked.branch_lock, held) && match held {
            Err(error) => merged == Err::<GitHubStackLockedMergeReceiptView, _>(
                GitHubStackLandErrorView::Lock(error),
            ),
            Ok(lock) => stack_land::polled_under(runner, repository, locked.merge, lock, merged),
        };
    let lock = held->Ok_0;
    lock_laws::lemma_held_lock_is_unchanged(runner, repository, locked.branch_lock, lock);
    let answer = choose|answer: Result<GitHubStackMergeReceiptView, GitHubStackMergeErrorView>|
     #[trigger]
        stack_merge::merge_polled(runner, repository, locked.merge, answer) && merged
            == stack_land::locked_outcome(repository, lock, answer);
    let merge = answer->Ok_0;
    merge_fact_laws::lemma_poll_rests_on_facts(runner, repository, locked.merge, merge);
    assert(went_on(next, merge));
}

/// A landing gives its lock back only once it has ended, and counts as released
/// only where the lock is gone: already, or after it was read as it was taken
/// and its deletion was sent.
pub proof fn lemma_released_landing_has_no_lock<R: CommandRunner>(
    runner: R,
    repository: RepositoryIdView,
    checkpoint: GitHubStackLandCheckpointView,
    next: GitHubStackLandCheckpointView,
)
    requires
        stack_land::land_released(runner, repository, checkpoint, Ok(next)),
        checkpoint.phase != GitHubStackLandPhase::Released,
    ensures
        checkpoint.phase == GitHubStackLandPhase::Terminal,
        checkpoint.branch_lock is Some,
        next.phase == GitHubStackLandPhase::Released,
        next.plan == checkpoint.plan,
        next.terminal_status == checkpoint.terminal_status,
        next.lock_release is Some,
        is_gone(runner, repository, checkpoint.branch_lock->0) || (lock_is_held(
            runner,
            repository,
            checkpoint.branch_lock->0,
        ) && exists|sent: Sent|
            #[trigger] command::was_sent(
                runner,
                stack_lock::ruleset_delete(repository, checkpoint.branch_lock->0.id),
                sent,
            ) && is_gone(
                command::after(&runner, &sent),
                repository,
                checkpoint.branch_lock->0,
            )),
{
    let given = choose|
        given: Result<GitHubStackBranchLockReceiptView, GitHubStackBranchLockErrorView>,
    | #[trigger]
        stack_lock::released(
            runner,
            repository,
            checkpoint.plan.lock_plan(),
            checkpoint.branch_lock->0,
            given,
        ) && Ok::<_, GitHubStackLandErrorView>(next) == stack_land::after_release(
            checkpoint,
            given,
        );
    lock_laws::lemma_released_lock_is_gone(
        runner,
        repository,
        checkpoint.plan.lock_plan(),
        checkpoint.branch_lock->0,
        given->Ok_0,
    );
}

} // verus!
