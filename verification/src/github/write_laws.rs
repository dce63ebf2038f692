//! Nothing is written unless fresh facts allow it. Each law says so of a runner
//! that takes reads alone: it is enough wherever the facts speak against the
//! write.

use vstd::prelude::*;
use crate::command;
use crate::command::{CommandRunner, CommandSpecView};
use crate::github::adapter;
use crate::github::commands;
use crate::github::mutations;
use crate::github::provider::PullRequestPreconditionView;
use crate::github::raw::{
    CheckSuiteJson, CheckSuiteJsonView, WorkflowRunDetailsJson, WorkflowRunDetailsJsonView,
};
use crate::github::runs;
use crate::github::stack;
use crate::github::stack::{
    GitHubStackAddPlanView, GitHubStackCreatePlanView, GitHubStackUnstackPlanView,
};
use crate::github::stack_adapter;
use crate::github::stack_land;
use crate::github::stack_land::GitHubStackLandCheckpointView;
use crate::github::stack_lock;
use crate::github::stack_lock::{
    GitHubStackBranchLockGenerationView, GitHubStackBranchLockPlanView,
};
use crate::github::stack_merge;
use crate::github::stack_merge::GitHubStackAsyncMergePlanView;
use crate::github::stack_reshape;
use crate::github::stack_reshape::GitHubStackReshapeCheckpointView;
use crate::model::{PrNumber, PullRequestSnapshotView, RepositoryIdView};

verus! {

// ---------------------------------------------------------------------------
// Pull requests
// ---------------------------------------------------------------------------

/// An operation whose precondition no fresh read can meet writes nothing.
pub proof fn lemma_mismatch_writes_nothing<R: CommandRunner>(
    runner: R,
    repository: RepositoryIdView,
    expected: PullRequestPreconditionView,
    write: CommandSpecView,
)
    requires
        command::reads_allowed(runner),
        forall|seen: PullRequestSnapshotView| !#[trigger]
            adapter::verified(runner, repository, expected, false, Ok(seen)),
    ensures
        adapter::may_mutate(runner, repository, expected, write),
{
}

/// An administrator merge by anyone else writes nothing.
pub proof fn lemma_only_administrators_write<R: CommandRunner>(
    runner: R,
    repository: RepositoryIdView,
    expected: PullRequestPreconditionView,
)
    requires
        command::reads_allowed(runner),
        !adapter::permitted(runner, repository, Ok("ADMIN"@)),
    ensures
        mutations::may_admin_merge(runner, repository, expected),
{
}

/// A comment that every read of the comments shows already writes nothing.
pub proof fn lemma_present_comment_writes_nothing<R: CommandRunner>(
    runner: R,
    repository: RepositoryIdView,
    expected: PullRequestPreconditionView,
    body: Seq<char>,
    present: spec_fn(Seq<Seq<char>>) -> bool,
)
    requires
        command::reads_allowed(runner),
        forall|rows: Seq<Seq<char>>| #[trigger]
            mutations::comments_read(runner, repository, expected.number, Ok(rows)) ==> present(
                rows,
            ),
    ensures
        mutations::may_comment(runner, repository, expected, body, present),
{
}

/// A force transition writes nothing where no confirmed facts leave anything to
/// change.
pub proof fn lemma_satisfied_force_writes_nothing<R: CommandRunner>(
    runner: R,
    repository: RepositoryIdView,
    expected: PullRequestPreconditionView,
    label: Seq<char>,
    desired: bool,
    ensure_squash: bool,
)
    requires
        command::reads_allowed(runner),
        forall|seen: PullRequestSnapshotView| #[trigger]
            adapter::verified(runner, repository, expected, true, Ok(seen))
                ==> !mutations::label_must_change(seen, label, desired) && !mutations::must_arm(
                seen,
                ensure_squash,
            ),
    ensures
        mutations::may_force(runner, repository, expected, label, desired, ensure_squash),
{
}

/// A run that no confirmed facts accept is not rerun.
pub proof fn lemma_refused_rerun_writes_nothing<R: CommandRunner>(
    runner: R,
    repository: RepositoryIdView,
    expected: PullRequestPreconditionView,
    run_id: u64,
)
    requires
        command::reads_allowed(runner),
        forall|details: WorkflowRunDetailsJsonView, seen: PullRequestSnapshotView|
            #[trigger] adapter::got::<R, WorkflowRunDetailsJson>(
                runner,
                commands::workflow_run(repository, run_id),
                Ok(details),
            ) && #[trigger] adapter::verified(runner, repository, expected, true, Ok(seen))
                ==> runs::rerun_refusal(
                details.snapshot(),
                run_id,
                expected.number,
                seen.head.oid,
            ) is Some,
    ensures
        runs::may_rerun(runner, repository, expected, run_id),
{
}

/// A check suite of another commit than the confirmed head is not requested.
pub proof fn lemma_superseded_suite_writes_nothing<R: CommandRunner>(
    runner: R,
    repository: RepositoryIdView,
    expected: PullRequestPreconditionView,
    check_suite_id: u64,
)
    requires
        command::reads_allowed(runner),
        forall|found: CheckSuiteJsonView, seen: PullRequestSnapshotView|
            #[trigger] adapter::got::<R, CheckSuiteJson>(
                runner,
                commands::check_suite(repository, check_suite_id),
                Ok(found),
            ) && #[trigger] adapter::verified(runner, repository, expected, true, Ok(seen))
                ==> found.head_sha != seen.head.oid,
    ensures
        runs::may_request_suite(runner, repository, expected, check_suite_id),
{
}

// ---------------------------------------------------------------------------
// Stacks
// ---------------------------------------------------------------------------

/// A plan that is refused runs nothing, not even a read.
pub proof fn lemma_refused_plans_run_nothing<R: CommandRunner>(
    runner: R,
    repository: RepositoryIdView,
    create: GitHubStackCreatePlanView,
    add: GitHubStackAddPlanView,
    unstack: GitHubStackUnstackPlanView,
    allowed: Option<PrNumber>,
    lock: GitHubStackBranchLockPlanView,
    held: GitHubStackBranchLockGenerationView,
    merge: GitHubStackAsyncMergePlanView,
)
    ensures
        stack::create_refusal(repository, create) is Some ==> stack_adapter::may_create_stack(
            runner,
            repository,
            create,
        ),
        stack::add_refusal(repository, add) is Some ==> stack_adapter::may_add_to_stack(
            runner,
            repository,
            add,
        ),
        stack::unstack_refusal(repository, unstack, allowed) is Some ==> stack_adapter::may_unstack(
            runner,
            repository,
            unstack,
            allowed,
        ),
        stack_lock::lock_refusal(repository, lock) is Some ==> stack_lock::may_acquire(
            runner,
            repository,
            lock,
        ) && stack_lock::may_release(runner, repository, lock, held),
        stack_merge::merge_refusal(repository, merge) is Some ==> stack_merge::may_submit_merge(
            runner,
            repository,
            merge,
        ),
{
}

/// A Stack is not created where some Stack holds its pull requests, as after an
/// exact earlier creation, or where its topology is not fresh.
pub proof fn lemma_repeated_creation_writes_nothing<R: CommandRunner>(
    runner: R,
    repository: RepositoryIdView,
    plan: GitHubStackCreatePlanView,
)
    requires
        command::reads_allowed(runner),
        !stack_adapter::rediscovered(runner, repository, plan.desired, Ok(None))
            || !stack_adapter::topology_fresh(runner, repository, plan.desired, Ok(())),
    ensures
        stack_adapter::may_create_stack(runner, repository, plan),
{
}

/// Nothing is appended to a Stack that is not exactly as planned, that is as
/// desired already, or whose desired topology is not fresh.
pub proof fn lemma_repeated_append_writes_nothing<R: CommandRunner>(
    runner: R,
    repository: RepositoryIdView,
    plan: GitHubStackAddPlanView,
)
    requires
        command::reads_allowed(runner),
        !stack_adapter::generation_read(
            runner,
            repository,
            plan.before.number,
            Ok(Some(plan.before)),
        ) || stack_adapter::met(Some(plan.before), Some(plan.desired), Some(plan.before))
            || !stack_adapter::topology_fresh(runner, repository, plan.desired, Ok(())),
    ensures
        stack_adapter::may_add_to_stack(runner, repository, plan),
{
}

/// A Stack that is not exactly as planned is not taken apart.
pub proof fn lemma_repeated_unstack_writes_nothing<R: CommandRunner>(
    runner: R,
    repository: RepositoryIdView,
    plan: GitHubStackUnstackPlanView,
    allowed: Option<PrNumber>,
)
    requires
        command::reads_allowed(runner),
        !stack_adapter::generation_read_allowing(
            runner,
            repository,
            plan.before.number,
            allowed,
            Ok(Some(plan.before)),
        ),
    ensures
        stack_adapter::may_unstack(runner, repository, plan, allowed),
{
}

// ---------------------------------------------------------------------------
// Locks and merges
// ---------------------------------------------------------------------------

/// A lock is not taken where its name is in use, as after an exact earlier
/// attempt.
pub proof fn lemma_repeated_lock_writes_nothing<R: CommandRunner>(
    runner: R,
    repository: RepositoryIdView,
    plan: GitHubStackBranchLockPlanView,
)
    requires
        command::reads_allowed(runner),
        !stack_lock::lock_found(
            runner,
            repository,
            stack_lock::planned_lock(repository, plan).name,
            Ok(None),
        ),
    ensures
        stack_lock::may_acquire(runner, repository, plan),
{
}

/// A ruleset that is gone or changed is not deleted.
pub proof fn lemma_changed_lock_is_not_deleted<R: CommandRunner>(
    runner: R,
    repository: RepositoryIdView,
    plan: GitHubStackBranchLockPlanView,
    expected: GitHubStackBranchLockGenerationView,
)
    requires
        command::reads_allowed(runner),
        forall|lock: GitHubStackBranchLockGenerationView| #[trigger]
            stack_lock::lock_read(runner, repository, expected.id, Ok(Some(lock)))
                ==> stack_lock::held(expected, Some(lock)) is Err,
    ensures
        stack_lock::may_release(runner, repository, plan, expected),
{
}

/// A Stack that moved since its plan was sealed is not submitted.
pub proof fn lemma_moved_stack_is_not_submitted<R: CommandRunner>(
    runner: R,
    repository: RepositoryIdView,
    plan: GitHubStackAsyncMergePlanView,
)
    requires
        command::reads_allowed(runner),
        !stack_adapter::generation_read(
            runner,
            repository,
            plan.before.number,
            Ok(Some(plan.before)),
        ),
    ensures
        stack_merge::may_submit_merge(runner, repository, plan),
{
}

/// A landing asks for no merge where its lock cannot be confirmed, and polls
/// with reads alone.
pub proof fn lemma_landing_needs_its_lock<R: CommandRunner>(
    runner: R,
    repository: RepositoryIdView,
    checkpoint: GitHubStackLandCheckpointView,
)
    requires
        command::reads_allowed(runner),
    ensures
        stack_land::may_land_poll(runner, repository, checkpoint),
        !stack_lock::lock_verified(
            runner,
            repository,
            checkpoint.branch_lock->0,
            Ok(checkpoint.branch_lock->0),
        ) ==> stack_land::may_land_submit(runner, repository, checkpoint),
{
}

/// A reshape creates no Stack while some pull request is not as it must be.
pub proof fn lemma_incomplete_reshape_creates_nothing<R: CommandRunner>(
    runner: R,
    repository: RepositoryIdView,
    checkpoint: GitHubStackReshapeCheckpointView,
)
    requires
        command::reads_allowed(runner),
        !stack_reshape::established(
            runner,
            repository,
            checkpoint.plan.pr_postconditions,
            Ok(()),
        ),
    ensures
        stack_reshape::may_rebuild(runner, repository, checkpoint),
{
}

} // verus!
