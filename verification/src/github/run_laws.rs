//! Which runs and suites are listed, repeated or requested again, and what a
//! read of required contexts says, over the rows themselves.

use vstd::prelude::*;
use crate::command::{CommandRunner, Sent};
use crate::github::adapter;
use crate::github::commands;
use crate::github::facts::{GitHubMutationReceiptView, MutationKind, WorkflowRunSnapshotView};
use crate::github::mutation_laws;
use crate::github::mutation_laws::{sent_and_shown, stands};
use crate::github::provider::{MutationErrorView, PullRequestPreconditionView};
use crate::github::raw::{
    BranchProtectionJson, BranchProtectionJsonView, BranchSettingsJson, BranchSettingsJsonView,
    CheckSuiteJson, CheckSuiteJsonView, CheckSuiteListJsonView, CommitDetailJsonView,
    WorkflowRunJsonView, WorkflowRunListJsonView,
};
use crate::github::runs;
use crate::model;
use crate::model::{PrNumber, PullRequestSnapshotView, RepositoryIdView};
use crate::required_runs;
use crate::required_runs::{CheckSuiteLineageView, RequiredContextsReadView};
use crate::text;

verus! {

// ---------------------------------------------------------------------------
// Runs
// ---------------------------------------------------------------------------

/// A listed run is this row.
pub open spec fn is_row(run: WorkflowRunSnapshotView, row: WorkflowRunJsonView) -> bool {
    &&& run.database_id == row.database_id
    &&& run.head_sha == row.head_sha
    &&& run.status == row.status
    &&& run.conclusion == row.conclusion
    &&& run.event == row.event
    &&& run.name == row.name
    &&& run.workflow_name == row.workflow_name
    &&& run.url == row.url
}

/// Of the listed runs, those of the head are kept and no others.
pub proof fn lemma_runs_of_the_head(rows: Seq<WorkflowRunJsonView>, head: Seq<char>)
    ensures
        forall|k: int|
            0 <= k < runs::runs_at(rows, head).len() ==> (#[trigger] runs::runs_at(
                rows,
                head,
            )[k]).head_sha == head && exists|i: int|
                0 <= i < rows.len() && is_row(runs::runs_at(rows, head)[k], #[trigger] rows[i]),
        forall|i: int|
            0 <= i < rows.len() && (#[trigger] rows[i]).head_sha == head ==> exists|k: int|
                0 <= k < runs::runs_at(rows, head).len() && is_row(
                    #[trigger] runs::runs_at(rows, head)[k],
                    rows[i],
                ),
    decreases rows.len(),
{
    if rows.len() > 0 {
        let front = rows.drop_last();
        lemma_runs_of_the_head(front, head);
        let kept = runs::runs_at(front, head);
        let all = runs::runs_at(rows, head);
        assert(rows[rows.len() - 1] == rows.last());
        assert forall|k: int| 0 <= k < all.len() implies (#[trigger] all[k]).head_sha == head
            && exists|i: int| 0 <= i < rows.len() && is_row(all[k], #[trigger] rows[i]) by {
            if k < kept.len() {
                assert(all[k] == kept[k]);
                let i = choose|i: int|
                    0 <= i < front.len() && is_row(kept[k], #[trigger] front[i]);
                assert(is_row(all[k], rows[i]));
            } else {
                assert(is_row(all[k], rows[rows.len() - 1]));
            }
        }
        assert forall|i: int|
            0 <= i < rows.len() && (#[trigger] rows[i]).head_sha == head implies exists|k: int|
            0 <= k < all.len() && is_row(#[trigger] all[k], rows[i]) by {
            if i < front.len() {
                assert(front[i] == rows[i]);
                let k = choose|k: int| 0 <= k < kept.len() && is_row(#[trigger] kept[k], front[i]);
                assert(all[k] == kept[k]);
            } else {
                assert(is_row(all[kept.len() as int], rows[i]));
            }
        }
    }
}

/// A run is repeated only where it failed, is of the pull request and of its
/// head, and the pull request stood as expected, checks included; and then just
/// that run is repeated.
pub proof fn lemma_rerun_rests_on_facts<R: CommandRunner>(
    runner: R,
    repository: RepositoryIdView,
    expected: PullRequestPreconditionView,
    run_id: u64,
    run: WorkflowRunSnapshotView,
    receipt: GitHubMutationReceiptView,
)
    requires
        runs::rerun_carried_out(runner, repository, expected, run_id, run, Ok(receipt)),
    ensures
        run.pull_requests.contains(expected.number),
        run.head_sha == expected.head_oid,
        text::same_ignoring_case(run.conclusion, "failure"@),
        receipt.kind == MutationKind::RerunChecks,
        receipt.before is Some,
        stands(expected, receipt.before->0),
        receipt.before->0.checks == expected.checks,
        exists|sent: Sent| #[trigger]
            sent_and_shown(
                runner,
                repository,
                model::pr_text(expected.number),
                commands::rerun_failed(repository, run_id),
                sent,
                receipt.after,
            ),
{
    let outcome = Ok::<GitHubMutationReceiptView, MutationErrorView>(receipt);
    let before = choose|before: Result<PullRequestSnapshotView, MutationErrorView>| #[trigger]
        adapter::verified(runner, repository, expected, true, before) && match before {
            Err(error) => outcome == Err::<GitHubMutationReceiptView, _>(error),
            Ok(snapshot) => match runs::rerun_refusal(
                run,
                run_id,
                expected.number,
                snapshot.head.oid,
            ) {
                Some(error) => outcome == Err::<GitHubMutationReceiptView, _>(error),
                None => adapter::carried_out(
                    runner,
                    repository,
                    expected.number,
                    MutationKind::RerunChecks,
                    snapshot,
                    commands::rerun_failed(repository, run_id),
                    outcome,
                ),
            },
        };
    mutation_laws::lemma_verified_stands(runner, repository, expected, true, before->Ok_0);
    mutation_laws::lemma_carried_out(
        runner,
        repository,
        expected.number,
        MutationKind::RerunChecks,
        before->Ok_0,
        commands::rerun_failed(repository, run_id),
        receipt,
    );
}

/// A check suite is requested again only where a fresh read shows that it is of
/// the head of the pull request; and then just that suite is requested.
pub proof fn lemma_suite_request_rests_on_facts<R: CommandRunner>(
    runner: R,
    repository: RepositoryIdView,
    number: PrNumber,
    check_suite_id: u64,
    before: PullRequestSnapshotView,
    receipt: GitHubMutationReceiptView,
)
    requires
        runs::suite_requested(runner, repository, number, check_suite_id, before, Ok(receipt)),
    ensures
        receipt.kind == MutationKind::RequestCheckSuite,
        receipt.before == Some(before),
        exists|suite: CheckSuiteJsonView|
            suite.head_sha == before.head.oid && #[trigger] adapter::got::<R, CheckSuiteJson>(
                runner,
                commands::check_suite(repository, check_suite_id),
                Ok(suite),
            ),
        exists|sent: Sent| #[trigger]
            sent_and_shown(
                runner,
                repository,
                model::pr_text(number),
                commands::rerequest_check_suite(repository, check_suite_id),
                sent,
                receipt.after,
            ),
{
    runs::lemma_request_keeps_head(runner, repository, number, check_suite_id, before, Ok(receipt));
    mutation_laws::lemma_carried_out(
        runner,
        repository,
        number,
        MutationKind::RequestCheckSuite,
        before,
        commands::rerequest_check_suite(repository, check_suite_id),
        receipt,
    );
}

// ---------------------------------------------------------------------------
// Lineage
// ---------------------------------------------------------------------------

/// A suite that can be requested again for a head.
pub open spec fn can_be_requested(suite: CheckSuiteLineageView, head: Seq<char>) -> bool {
    suite.head_sha == head && suite.rerequestable
}

/// The suite that is proposed is the one of the lowest identifier among those of
/// the head that can be requested again; none is proposed exactly where there is
/// none.
pub proof fn lemma_lowest_suite_is_proposed(suites: Seq<CheckSuiteLineageView>, head: Seq<char>)
    ensures
        required_runs::lowest_requestable(suites, head) is None <==> forall|i: int|
            0 <= i < suites.len() ==> !can_be_requested(#[trigger] suites[i], head),
        required_runs::lowest_requestable(suites, head) matches Some(id) ==> {
            &&& exists|i: int|
                0 <= i < suites.len() && can_be_requested(#[trigger] suites[i], head)
                    && suites[i].id == id
            &&& forall|i: int|
                0 <= i < suites.len() && can_be_requested(#[trigger] suites[i], head) ==> id
                    <= suites[i].id
        },
    decreases suites.len(),
{
    if suites.len() > 0 {
        let front = suites.drop_last();
        lemma_lowest_suite_is_proposed(front, head);
        assert(suites[suites.len() - 1] == suites.last());
        assert forall|i: int| 0 <= i < front.len() implies #[trigger] suites[i] == front[i] by {}
        if required_runs::lowest_requestable(front, head) is Some {
            let id = required_runs::lowest_requestable(front, head)->0;
            let i = choose|i: int|
                0 <= i < front.len() && can_be_requested(#[trigger] front[i], head) && front[i].id
                    == id;
            assert(can_be_requested(suites[i], head));
            assert forall|k: int|
                0 <= k < suites.len() && can_be_requested(
                    #[trigger] suites[k],
                    head,
                ) implies required_runs::lowest_requestable(suites, head)->0 <= suites[k].id by {
                if k < front.len() {
                    assert(can_be_requested(front[k], head));
                }
            }
        } else {
            assert forall|k: int| 0 <= k < front.len() implies !can_be_requested(
                #[trigger] suites[k],
                head,
            ) by {
                assert(!can_be_requested(front[k], head));
            }
        }
    }
}

/// A suite can be requested again where the provider says so; where it says
/// nothing, exactly where an app owns it.
pub proof fn lemma_suite_is_its_row(row: CheckSuiteJsonView)
    ensures
        row.lineage().id == row.id,
        row.lineage().head_sha == row.head_sha,
        row.rerequestable is Some ==> row.lineage().rerequestable == row.rerequestable->0,
        row.rerequestable is None ==> row.lineage().rerequestable == (row.app is Some
            && row.app->0.slug.len() > 0),
        row.conclusion is Some ==> row.lineage().conclusion == row.conclusion->0,
        row.status is Some ==> row.lineage().status == row.status->0,
{
}

/// A lineage holds the first hundred suites and runs that were listed, in order,
/// and counts as complete exactly where all three reads succeeded, neither list
/// is longer, and neither says that there are more.
pub proof fn lemma_lineage_is_complete_exactly(
    head: Seq<char>,
    suites: Result<CheckSuiteListJsonView, MutationErrorView>,
    listed: Result<WorkflowRunListJsonView, MutationErrorView>,
    commit: Result<CommitDetailJsonView, MutationErrorView>,
)
    ensures
        ({
            let lineage = runs::lineage_of(head, suites, listed, commit);
            &&& lineage.head_sha == head
            &&& lineage.complete <==> {
                &&& commit is Ok
                &&& suites is Ok
                &&& listed is Ok
                &&& suites->Ok_0.check_suites.len() <= 100
                &&& listed->Ok_0.workflow_runs.len() <= 100
                &&& suites->Ok_0.total_count matches Some(n) ==> n
                    <= suites->Ok_0.check_suites.len()
                &&& listed->Ok_0.total_count matches Some(n) ==> n
                    <= listed->Ok_0.workflow_runs.len()
            }
            &&& suites matches Ok(list) ==> lineage.check_suites.len() == (
            if list.check_suites.len() <= 100 {
                list.check_suites.len()
            } else {
                100
            }) && forall|i: int|
                0 <= i < lineage.check_suites.len() ==> (#[trigger] lineage.check_suites[i]).id
                    == list.check_suites[i].id && lineage.check_suites[i].head_sha
                    == list.check_suites[i].head_sha
            &&& listed matches Ok(list) ==> lineage.workflow_runs.len() == (
            if list.workflow_runs.len() <= 100 {
                list.workflow_runs.len()
            } else {
                100
            }) && forall|i: int|
                0 <= i < lineage.workflow_runs.len() ==> (#[trigger] lineage.workflow_runs[i]).run_id
                    == list.workflow_runs[i].id && lineage.workflow_runs[i].head_sha
                    == list.workflow_runs[i].head_sha
                    && lineage.workflow_runs[i].check_suite_id
                    == list.workflow_runs[i].check_suite_id
        }),
{
}

// ---------------------------------------------------------------------------
// Required contexts
// ---------------------------------------------------------------------------

/// The branch protection asks for this context.
pub open spec fn asks_for(policy: BranchProtectionJsonView, context: Seq<char>) -> bool {
    policy.required_status_checks matches Some(required) && {
        ||| required.contexts.contains(context)
        ||| exists|i: int|
            0 <= i < required.checks.len() && (#[trigger] required.checks[i]).context == context
    }
}

pub(crate) proof fn lemma_declared(policy: BranchProtectionJsonView, context: Seq<char>)
    ensures
        adapter::declared_contexts(policy).contains(context) <==> asks_for(policy, context),
{
    if let Some(required) = policy.required_status_checks {
        let names = Seq::new(required.checks.len(), |i: int| required.checks[i].context);
        let all = required.contexts + names;
        if all.contains(context) {
            let k = choose|k: int| 0 <= k < all.len() && all[k] == context;
            if k < required.contexts.len() {
                assert(required.contexts[k] == context);
            } else {
                assert(required.checks[k - required.contexts.len()].context == context);
            }
        }
        if required.contexts.contains(context) {
            let k = choose|k: int|
                0 <= k < required.contexts.len() && required.contexts[k] == context;
            assert(all[k] == context);
        }
        if exists|i: int|
            0 <= i < required.checks.len() && (#[trigger] required.checks[i]).context == context {
            let i = choose|i: int|
                0 <= i < required.checks.len() && (#[trigger] required.checks[i]).context
                    == context;
            assert(all[required.contexts.len() + i] == context);
        }
    }
}

/// A read of required contexts of a branch holds just the contexts that its
/// protection asks for, where it is complete. It is complete without any only
/// where the branch is not protected; and where a read failed, it is not
/// complete.
pub proof fn lemma_contexts_are_those_asked_for<R: CommandRunner>(
    runner: R,
    repository: RepositoryIdView,
    branch: Seq<char>,
    read: RequiredContextsReadView,
)
    requires
        runs::required_contexts(runner, repository, branch, read),
    ensures
        read.branch == branch,
        read.complete && !read.protected ==> read.contexts.len() == 0 && exists|
            settings: BranchSettingsJsonView,
        | #[trigger]
            adapter::got::<R, BranchSettingsJson>(
                runner,
                commands::branch_settings(repository, branch),
                Ok(settings),
            ) && !settings.protected,
        read.complete && read.protected ==> exists|policy: BranchProtectionJsonView| #[trigger]
            adapter::got::<R, BranchProtectionJson>(
                runner,
                commands::branch_protection(repository, branch),
                Ok(policy),
            ) && forall|context: Seq<char>| #[trigger]
                read.contexts.contains(context) <==> asks_for(policy, context),
        !read.complete ==> read.protected && read.contexts.len() == 0,
{
    let settings = choose|settings: Result<BranchSettingsJsonView, MutationErrorView>| #[trigger]
        adapter::got::<R, BranchSettingsJson>(
            runner,
            commands::branch_settings(repository, branch),
            settings,
        ) && match settings {
            Err(_) => read == required_runs::partial_read(branch),
            Ok(known) => if !known.protected {
                read == required_runs::unprotected_read(branch)
            } else {
                runs::protected_contexts(runner, repository, branch, read)
            },
        };
    if settings is Ok && settings->Ok_0.protected {
        let policy = choose|policy: Result<BranchProtectionJsonView, MutationErrorView>| #[trigger]
            adapter::got::<R, BranchProtectionJson>(
                runner,
                commands::branch_protection(repository, branch),
                policy,
            ) && read == runs::contexts_read(branch, policy);
        if let Ok(document) = policy {
            let declared = adapter::declared_contexts(document);
            let none = Seq::<crate::required_runs::RequiredCheckView>::empty();
            let names = declared + required_runs::check_names(none);
            assert(names =~= declared);
            model::lemma_label_set(declared);
            assert(adapter::got::<R, BranchProtectionJson>(
                runner,
                commands::branch_protection(repository, branch),
                Ok(document),
            ));
            assert forall|context: Seq<char>| #[trigger]
                read.contexts.contains(context) <==> asks_for(document, context) by {
                lemma_declared(document, context);
            }
        }
    } else if settings is Ok {
        assert(adapter::got::<R, BranchSettingsJson>(
            runner,
            commands::branch_settings(repository, branch),
            Ok(settings->Ok_0),
        ));
    }
}

} // verus!
