//! Checks, workflow runs and required contexts.

use vstd::prelude::*;
use vstd::string::*;
use crate::command::CommandRunner;
use crate::model;
use crate::github::adapter;
use crate::github::adapter::{contexts_of, GitHubMutationAdapter};
use crate::github::commands;
use crate::github::commands::{
    branch_protection_command, branch_settings_command, check_suite_command, check_suites_command,
    commit_command, failed_runs_command, head_runs_command, rerequest_check_suite_command,
    rerun_failed_command, workflow_run_command,
};
use crate::github::facts;
use crate::github::facts::{
    run_lineages, suite_lineages, GitHubMutationReceipt, GitHubMutationReceiptView, MutationKind,
    WorkflowRunSnapshot, WorkflowRunSnapshotView,
};
use crate::github::provider::{
    MutationError, MutationErrorView, PullRequestPrecondition, PullRequestPreconditionView,
};
use crate::github::raw::{
    BranchProtectionJson, BranchProtectionJsonView, BranchSettingsJson, BranchSettingsJsonView,
    CheckSuiteJson, CheckSuiteJsonView, CheckSuiteListJson, CheckSuiteListJsonView,
    CommitDetailJson, CommitDetailJsonView, WorkflowRunDetailsJson, WorkflowRunDetailsJsonView,
    WorkflowRunJson, WorkflowRunJsonView, WorkflowRunListJson, WorkflowRunListJsonView,
};
use crate::model::{
    holds_item, push_item, Model, PrNumber, PullRequestSnapshotView, RepositoryId,
    RepositoryIdView,
};
use crate::required_runs;
use crate::required_runs::{
    CheckSuiteLineage, HeadRunLineage, HeadRunLineageView, RequiredContextsRead,
    RequiredContextsReadView, WorkflowRunLineage,
};
use crate::text;
use crate::text::eq_ignore_case;

verus! {

// ---------------------------------------------------------------------------
// Failed runs
// ---------------------------------------------------------------------------

/// The runs of a commit.
pub open spec fn runs_at(rows: Seq<WorkflowRunJsonView>, head: Seq<char>) -> Seq<
    WorkflowRunSnapshotView,
>
    decreases rows.len(),
{
    if rows.len() == 0 {
        Seq::empty()
    } else if rows.last().head_sha == head {
        runs_at(rows.drop_last(), head).push(rows.last().snapshot())
    } else {
        runs_at(rows.drop_last(), head)
    }
}

/// The runs of a commit.
pub fn keep_runs_at(rows: &Vec<WorkflowRunJson>, head: &String) -> (r: Vec<WorkflowRunSnapshot>)
    ensures
        r.deep_view() == runs_at(rows.deep_view(), head@),
{
    let ghost all = rows.deep_view();
    let mut out: Vec<WorkflowRunSnapshot> = Vec::new();
    let mut i: usize = 0;
    assert(out.deep_view() =~= runs_at(all.take(0), head@));
    while i < rows.len()
        invariant
            all == rows.deep_view(),
            i <= rows.len(),
            out.deep_view() == runs_at(all.take(i as int), head@),
        decreases rows.len() - i,
    {
        assert(all.take(i as int + 1).drop_last() =~= all.take(i as int));
        assert(all[i as int] == rows[i as int].deep_view());
        if rows[i].head_sha.same(head) {
            push_item(&mut out, rows[i].dup().into_snapshot());
        }
        i = i + 1;
    }
    assert(all.take(i as int) =~= all);
    out
}

/// Listing the failed runs of a confirmed head may end so.
pub open spec fn failed_runs_listed<R: CommandRunner>(
    runner: R,
    repository: RepositoryIdView,
    head: Seq<char>,
    outcome: Result<Seq<WorkflowRunSnapshotView>, MutationErrorView>,
) -> bool {
    exists|read: Result<Seq<WorkflowRunJsonView>, MutationErrorView>| #[trigger]
        adapter::got::<R, Vec<WorkflowRunJson>>(
            runner,
            commands::failed_runs(repository, head),
            read,
        ) && outcome == adapter::mapped(
            read,
            |rows: Seq<WorkflowRunJsonView>| runs_at(rows, head),
        )
}

/// Whether a run may be rerun for a confirmed pull request: it belongs to
/// that pull request and its head, and it failed.
pub open spec fn rerun_refusal(
    run: WorkflowRunSnapshotView,
    run_id: u64,
    number: PrNumber,
    head: Seq<char>,
) -> Option<MutationErrorView> {
    if !run.pull_requests.contains(number) {
        Some(
            MutationErrorView::RunPullRequestMismatch {
                run_id,
                expected_pr: number,
                actual_prs: run.pull_requests,
            },
        )
    } else if run.head_sha != head {
        Some(
            MutationErrorView::RunHeadMismatch {
                run_id,
                expected_head: head,
                actual_head: run.head_sha,
            },
        )
    } else if !text::same_ignoring_case(run.conclusion, "failure"@) {
        Some(MutationErrorView::RunNotFailed { run_id, conclusion: run.conclusion })
    } else {
        None
    }
}

/// The content of a refusal.
pub open spec fn refusal_view(refusal: Option<MutationError>) -> Option<MutationErrorView> {
    match refusal {
        Some(error) => Some(error.deep_view()),
        None => None,
    }
}

/// Why a run may not be rerun for a confirmed pull request, if so.
pub fn refuse_rerun(
    run: &WorkflowRunSnapshot,
    run_id: u64,
    number: PrNumber,
    head: &String,
) -> (r: Option<MutationError>)
    ensures
        refusal_view(r) == rerun_refusal(run.deep_view(), run_id, number, head@),
{
    if !holds_item(&run.pull_requests, &number) {
        Some(
            MutationError::RunPullRequestMismatch {
                run_id,
                expected_pr: number,
                actual_prs: run.pull_requests.dup(),
            },
        )
    } else if !run.head_sha.same(head) {
        Some(
            MutationError::RunHeadMismatch {
                run_id,
                expected_head: head.dup(),
                actual_head: run.head_sha.dup(),
            },
        )
    } else if !eq_ignore_case(run.conclusion.as_str(), "failure") {
        Some(MutationError::RunNotFailed { run_id, conclusion: run.conclusion.dup() })
    } else {
        None
    }
}

/// Rerunning a run after it was read may end so.
pub open spec fn rerun_carried_out<R: CommandRunner>(
    runner: R,
    repository: RepositoryIdView,
    expected: PullRequestPreconditionView,
    run_id: u64,
    run: WorkflowRunSnapshotView,
    outcome: Result<GitHubMutationReceiptView, MutationErrorView>,
) -> bool {
    exists|before: Result<PullRequestSnapshotView, MutationErrorView>| #[trigger]
        adapter::verified(runner, repository, expected, true, before) && match before {
            Err(error) => outcome == Err::<GitHubMutationReceiptView, _>(error),
            Ok(snapshot) => match rerun_refusal(run, run_id, expected.number, snapshot.head.oid) {
                Some(error) => outcome == Err::<GitHubMutationReceiptView, _>(error),
                None => adapter::carried_out(
                    runner,
                    repository,
                    expected.number,
                    MutationKind::RerunChecks,
                    snapshot,
                    commands::rerun_failed(repository, run_id),
                    outcome,
                ),
            },
        }
}

/// A run is rerun only for the pull request and the head that it belongs to, and
/// only if it failed, while the facts, checks included, are as expected.
pub proof fn lemma_rerun_is_exact<R: CommandRunner>(
    runner: R,
    repository: RepositoryIdView,
    expected: PullRequestPreconditionView,
    run_id: u64,
    run: WorkflowRunSnapshotView,
    outcome: Result<GitHubMutationReceiptView, MutationErrorView>,
)
    requires
        rerun_carried_out(runner, repository, expected, run_id, run, outcome),
        outcome is Ok,
    ensures
        run.pull_requests.contains(expected.number),
        run.head_sha == expected.head_oid,
        text::same_ignoring_case(run.conclusion, "failure"@),
        outcome->Ok_0.kind == MutationKind::RerunChecks,
        outcome->Ok_0.before matches Some(before) && adapter::confirmed(
            expected,
            true,
            before,
        ) is Ok,
{
}

// ---------------------------------------------------------------------------
// Required contexts
// ---------------------------------------------------------------------------

/// The required contexts of a protected branch.
pub open spec fn contexts_read(
    branch: Seq<char>,
    policy: Result<BranchProtectionJsonView, MutationErrorView>,
) -> RequiredContextsReadView {
    match policy {
        Err(_) => required_runs::partial_read(branch),
        Ok(document) => RequiredContextsReadView {
            branch,
            protected: true,
            contexts: adapter::declared_contexts(document),
            checks: Seq::empty(),
            complete: true,
        }.in_order(),
    }
}

/// The required contexts of a protected branch. A protection that cannot be
/// read is not an absence of requirements.
pub fn read_contexts(branch: &str, policy: Result<BranchProtectionJson, MutationError>) -> (r:
    RequiredContextsRead)
    ensures
        r.deep_view() == contexts_read(branch@, adapter::outcome_view(policy)),
{
    match policy {
        Err(_) => RequiredContextsRead::partial(branch),
        Ok(document) => {
            let contexts = contexts_of(&document);
            let read = RequiredContextsRead {
                branch: branch.to_owned(),
                protected: true,
                contexts,
                checks: Vec::new(),
                complete: true,
            };
            assert(read.deep_view().checks =~= Seq::empty());
            read.normalized()
        },
    }
}

/// Reading the required contexts of a branch may give this.
pub open spec fn required_contexts<R: CommandRunner>(
    runner: R,
    repository: RepositoryIdView,
    branch: Seq<char>,
    read: RequiredContextsReadView,
) -> bool {
    exists|settings: Result<BranchSettingsJsonView, MutationErrorView>| #[trigger]
        adapter::got::<R, BranchSettingsJson>(
            runner,
            commands::branch_settings(repository, branch),
            settings,
        ) && match settings {
            Err(_) => read == required_runs::partial_read(branch),
            Ok(known) => if !known.protected {
                read == required_runs::unprotected_read(branch)
            } else {
                protected_contexts(runner, repository, branch, read)
            },
        }
}

/// Reading the required contexts of a protected branch may give this.
pub open spec fn protected_contexts<R: CommandRunner>(
    runner: R,
    repository: RepositoryIdView,
    branch: Seq<char>,
    read: RequiredContextsReadView,
) -> bool {
    exists|policy: Result<BranchProtectionJsonView, MutationErrorView>| #[trigger]
        adapter::got::<R, BranchProtectionJson>(
            runner,
            commands::branch_protection(repository, branch),
            policy,
        ) && read == contexts_read(branch, policy)
}

// ---------------------------------------------------------------------------
// Lineage
// ---------------------------------------------------------------------------

/// Whether a page holds all rows that the provider counts.
pub open spec fn whole_page(total: Option<u64>, rows: nat) -> bool {
    match total {
        Some(n) => n <= rows,
        None => true,
    }
}

/// The lineage of a commit from its three reads. A read that was refused, or
/// that is only a part, leaves the lineage incomplete.
pub open spec fn lineage_of(
    head: Seq<char>,
    suites: Result<CheckSuiteListJsonView, MutationErrorView>,
    runs: Result<WorkflowRunListJsonView, MutationErrorView>,
    commit: Result<CommitDetailJsonView, MutationErrorView>,
) -> HeadRunLineageView {
    HeadRunLineageView {
        head_sha: head,
        check_suites: match suites {
            Ok(list) => facts::suite_rows(list.check_suites),
            Err(_) => Seq::empty(),
        },
        workflow_runs: match runs {
            Ok(list) => facts::run_rows(list.workflow_runs),
            Err(_) => Seq::empty(),
        },
        head_committed_at: match commit {
            Ok(detail) => Some(detail.commit.committer.date),
            Err(_) => None,
        },
        complete: commit is Ok && (match suites {
            Ok(list) => whole_page(list.total_count, list.check_suites.len()),
            Err(_) => false,
        }) && (match runs {
            Ok(list) => whole_page(list.total_count, list.workflow_runs.len()),
            Err(_) => false,
        }),
    }.cut()
}

fn is_whole(total: &Option<u64>, rows: usize) -> (r: bool)
    ensures
        r == whole_page(total.deep_view(), rows as nat),
{
    match total {
        Some(n) => *n <= rows as u64,
        None => true,
    }
}

/// The lineage of a commit from its three reads.
pub fn assemble_lineage(
    head: String,
    suites: Result<CheckSuiteListJson, MutationError>,
    runs: Result<WorkflowRunListJson, MutationError>,
    commit: Result<CommitDetailJson, MutationError>,
) -> (r: HeadRunLineage)
    ensures
        r.deep_view() == lineage_of(
            head@,
            adapter::outcome_view(suites),
            adapter::outcome_view(runs),
            adapter::outcome_view(commit),
        ),
{
    let mut complete: bool = true;
    let check_suites = match &suites {
        Ok(list) => {
            if !is_whole(&list.total_count, list.check_suites.len()) {
                complete = false;
            }
            suite_lineages(&list.check_suites)
        },
        Err(_) => {
            complete = false;
            let none: Vec<CheckSuiteLineage> = Vec::new();
            assert(none.deep_view() =~= Seq::empty());
            none
        },
    };
    let workflow_runs = match &runs {
        Ok(list) => {
            if !is_whole(&list.total_count, list.workflow_runs.len()) {
                complete = false;
            }
            run_lineages(&list.workflow_runs)
        },
        Err(_) => {
            complete = false;
            let none: Vec<WorkflowRunLineage> = Vec::new();
            assert(none.deep_view() =~= Seq::empty());
            none
        },
    };
    let head_committed_at = match commit {
        Ok(detail) => Some(detail.commit.committer.date),
        Err(_) => {
            complete = false;
            None
        },
    };
    HeadRunLineage {
        head_sha: head,
        check_suites,
        workflow_runs,
        head_committed_at,
        complete,
    }.bounded()
}

/// A lineage with a refused or partial read is never complete.
pub proof fn lemma_refused_read_is_incomplete(
    head: Seq<char>,
    suites: Result<CheckSuiteListJsonView, MutationErrorView>,
    runs: Result<WorkflowRunListJsonView, MutationErrorView>,
    commit: Result<CommitDetailJsonView, MutationErrorView>,
)
    ensures
        lineage_of(head, suites, runs, commit).complete ==> suites is Ok && runs is Ok
            && commit is Ok && whole_page(
            suites->Ok_0.total_count,
            suites->Ok_0.check_suites.len(),
        ) && whole_page(runs->Ok_0.total_count, runs->Ok_0.workflow_runs.len()),
{
}

/// Reading the lineage of a commit may give this.
pub open spec fn lineage_read<R: CommandRunner>(
    runner: R,
    repository: RepositoryIdView,
    head: Seq<char>,
    lineage: HeadRunLineageView,
) -> bool {
    exists|
        suites: Result<CheckSuiteListJsonView, MutationErrorView>,
        runs: Result<WorkflowRunListJsonView, MutationErrorView>,
        commit: Result<CommitDetailJsonView, MutationErrorView>,
    |
        #[trigger] adapter::got::<R, CheckSuiteListJson>(
            runner,
            commands::check_suites(repository, head),
            suites,
        ) && #[trigger] adapter::got::<R, WorkflowRunListJson>(
            runner,
            commands::head_runs(repository, head),
            runs,
        ) && #[trigger] adapter::got::<R, CommitDetailJson>(
            runner,
            commands::commit(repository, head),
            commit,
        ) && lineage == lineage_of(head, suites, runs, commit)
}

// ---------------------------------------------------------------------------
// Requesting a check suite again
// ---------------------------------------------------------------------------

/// Requesting a check suite again for a confirmed pull request may end so. A
/// suite of another commit is refused.
pub open spec fn suite_requested<R: CommandRunner>(
    runner: R,
    repository: RepositoryIdView,
    number: PrNumber,
    check_suite_id: u64,
    before: PullRequestSnapshotView,
    outcome: Result<GitHubMutationReceiptView, MutationErrorView>,
) -> bool {
    exists|read: Result<CheckSuiteJsonView, MutationErrorView>| #[trigger]
        adapter::got::<R, CheckSuiteJson>(
            runner,
            commands::check_suite(repository, check_suite_id),
            read,
        ) && match read {
            Err(error) => outcome == Err::<GitHubMutationReceiptView, _>(error),
            Ok(suite) => if suite.head_sha != before.head.oid {
                outcome == Err::<GitHubMutationReceiptView, _>(
                    MutationErrorView::CheckSuiteHeadMismatch {
                        check_suite_id,
                        expected_head: before.head.oid,
                        actual_head: suite.head_sha,
                    },
                )
            } else {
                adapter::carried_out(
                    runner,
                    repository,
                    number,
                    MutationKind::RequestCheckSuite,
                    before,
                    commands::rerequest_check_suite(repository, check_suite_id),
                    outcome,
                )
            },
        }
}

/// A check suite is requested again only if it belongs to the head of the
/// confirmed pull request: a suite of a superseded commit is never requested.
pub proof fn lemma_request_keeps_head<R: CommandRunner>(
    runner: R,
    repository: RepositoryIdView,
    number: PrNumber,
    check_suite_id: u64,
    before: PullRequestSnapshotView,
    outcome: Result<GitHubMutationReceiptView, MutationErrorView>,
)
    requires
        suite_requested(runner, repository, number, check_suite_id, before, outcome),
        outcome is Ok,
    ensures
        outcome->Ok_0.before == Some(before),
        outcome->Ok_0.kind == MutationKind::RequestCheckSuite,
        exists|suite: CheckSuiteJsonView|
            suite.head_sha == before.head.oid && #[trigger] adapter::got::<R, CheckSuiteJson>(
                runner,
                commands::check_suite(repository, check_suite_id),
                Ok(suite),
            ),
{
    let read = choose|read: Result<CheckSuiteJsonView, MutationErrorView>| #[trigger]
        adapter::got::<R, CheckSuiteJson>(
            runner,
            commands::check_suite(repository, check_suite_id),
            read,
        ) && match read {
            Err(error) => outcome == Err::<GitHubMutationReceiptView, _>(error),
            Ok(suite) => suite.head_sha == before.head.oid && adapter::carried_out(
                runner,
                repository,
                number,
                MutationKind::RequestCheckSuite,
                before,
                commands::rerequest_check_suite(repository, check_suite_id),
                outcome,
            ),
        };
    let suite = read->Ok_0;
    assert(adapter::got::<R, CheckSuiteJson>(
        runner,
        commands::check_suite(repository, check_suite_id),
        Ok(suite),
    ));
}

// ---------------------------------------------------------------------------
// What may be run
// ---------------------------------------------------------------------------

/// What a listing of failed runs may run: the read of the pull request, and the
/// list for its head once the precondition was met, checks included.
pub open spec fn may_list_failed<R: CommandRunner>(
    runner: R,
    repository: RepositoryIdView,
    expected: PullRequestPreconditionView,
) -> bool {
    &&& runner.allows(commands::pull_request(repository, model::pr_text(expected.number)))
    &&& forall|seen: PullRequestSnapshotView| #[trigger]
        adapter::verified(runner, repository, expected, true, Ok(seen)) ==> runner.allows(
            commands::failed_runs(repository, seen.head.oid),
        )
}

/// What a rerun may run: the read of the run, the read of the pull request once
/// the run was read, and the rerun once nothing speaks against it.
pub open spec fn may_rerun<R: CommandRunner>(
    runner: R,
    repository: RepositoryIdView,
    expected: PullRequestPreconditionView,
    run_id: u64,
) -> bool {
    let run = commands::workflow_run(repository, run_id);
    &&& runner.allows(run)
    &&& forall|details: WorkflowRunDetailsJsonView| #[trigger]
        adapter::got::<R, WorkflowRunDetailsJson>(runner, run, Ok(details)) ==> may_rerun_of(
            runner,
            repository,
            expected,
            run_id,
            details.snapshot(),
        )
}

/// What a rerun may run once the run was read.
pub open spec fn may_rerun_of<R: CommandRunner>(
    runner: R,
    repository: RepositoryIdView,
    expected: PullRequestPreconditionView,
    run_id: u64,
    run: WorkflowRunSnapshotView,
) -> bool {
    &&& runner.allows(commands::pull_request(repository, model::pr_text(expected.number)))
    &&& forall|seen: PullRequestSnapshotView| #[trigger]
        adapter::verified(runner, repository, expected, true, Ok(seen)) && rerun_refusal(
            run,
            run_id,
            expected.number,
            seen.head.oid,
        ) is None ==> runner.allows(commands::rerun_failed(repository, run_id))
}

/// What a read of required contexts may run: the settings of the branch, and
/// its protection once they said that it has one.
pub open spec fn may_read_contexts<R: CommandRunner>(
    runner: R,
    repository: RepositoryIdView,
    branch: Seq<char>,
) -> bool {
    let settings = commands::branch_settings(repository, branch);
    &&& runner.allows(settings)
    &&& forall|known: BranchSettingsJsonView| #[trigger]
        adapter::got::<R, BranchSettingsJson>(runner, settings, Ok(known))
            && known.protected ==> runner.allows(commands::branch_protection(repository, branch))
}

/// What a read of a lineage may run: the read of the pull request, and the three
/// reads for its head once the precondition was met, checks included.
pub open spec fn may_read_lineage<R: CommandRunner>(
    runner: R,
    repository: RepositoryIdView,
    expected: PullRequestPreconditionView,
) -> bool {
    &&& runner.allows(commands::pull_request(repository, model::pr_text(expected.number)))
    &&& forall|seen: PullRequestSnapshotView| #[trigger]
        adapter::verified(runner, repository, expected, true, Ok(seen)) ==> runner.allows(
            commands::check_suites(repository, seen.head.oid),
        ) && runner.allows(commands::head_runs(repository, seen.head.oid)) && runner.allows(
            commands::commit(repository, seen.head.oid),
        )
}

/// What a request of a check suite may run: the read of the pull request, the
/// read of the suite once the precondition was met, checks included, and the
/// request once the suite proved to be of that head.
pub open spec fn may_request_suite<R: CommandRunner>(
    runner: R,
    repository: RepositoryIdView,
    expected: PullRequestPreconditionView,
    check_suite_id: u64,
) -> bool {
    &&& runner.allows(commands::pull_request(repository, model::pr_text(expected.number)))
    &&& forall|seen: PullRequestSnapshotView| #[trigger]
        adapter::verified(runner, repository, expected, true, Ok(seen)) ==> may_request_suite_at(
            runner,
            repository,
            check_suite_id,
            seen.head.oid,
        )
}

/// What a request of a check suite may run for a confirmed head.
pub open spec fn may_request_suite_at<R: CommandRunner>(
    runner: R,
    repository: RepositoryIdView,
    check_suite_id: u64,
    head: Seq<char>,
) -> bool {
    let suite = commands::check_suite(repository, check_suite_id);
    &&& runner.allows(suite)
    &&& forall|found: CheckSuiteJsonView| #[trigger]
        adapter::got::<R, CheckSuiteJson>(runner, suite, Ok(found)) && found.head_sha
            == head ==> runner.allows(commands::rerequest_check_suite(repository, check_suite_id))
}

impl<R: CommandRunner> GitHubMutationAdapter<R> {
    /// The failed runs of the exact head of a confirmed pull request.
    pub fn failed_runs_for_pull_request(
        &self,
        repository: &RepositoryId,
        expected: &PullRequestPrecondition,
    ) -> (r: Result<Vec<WorkflowRunSnapshot>, MutationError>)
        requires
            may_list_failed(self.runner, repository.deep_view(), expected.deep_view()),
        ensures
            exists|before: Result<PullRequestSnapshotView, MutationErrorView>| #[trigger]
                adapter::verified(
                    self.runner,
                    repository.deep_view(),
                    expected.deep_view(),
                    true,
                    before,
                ) && match before {
                    Err(error) => adapter::outcome_view(r) == Err::<
                        Seq<WorkflowRunSnapshotView>,
                        _,
                    >(error),
                    Ok(snapshot) => failed_runs_listed(
                        self.runner,
                        repository.deep_view(),
                        snapshot.head.oid,
                        adapter::outcome_view(r),
                    ),
                },
    {
        let before = self.verify_precondition_with_checks(repository, expected);
        assert(adapter::verified(
            self.runner,
            repository.deep_view(),
            expected.deep_view(),
            true,
            adapter::outcome_view(before),
        ));
        match before {
            Err(error) => Err(error),
            Ok(snapshot) => {
                let head = snapshot.head.oid.0;
                let read = self.json::<Vec<WorkflowRunJson>>(
                    &failed_runs_command(repository, head.as_str()),
                );
                assert(adapter::got::<R, Vec<WorkflowRunJson>>(
                    self.runner,
                    commands::failed_runs(repository.deep_view(), head@),
                    adapter::outcome_view(read),
                ));
                match read {
                    Err(error) => Err(error),
                    Ok(rows) => Ok(keep_runs_at(&rows, &head)),
                }
            },
        }
    }

    /// Reruns the failed jobs of one run of a confirmed pull request.
    pub fn rerun_failed_run(
        &self,
        repository: &RepositoryId,
        expected: &PullRequestPrecondition,
        run_id: u64,
    ) -> (r: Result<GitHubMutationReceipt, MutationError>)
        requires
            may_rerun(self.runner, repository.deep_view(), expected.deep_view(), run_id),
        ensures
            exists|read: Result<WorkflowRunDetailsJsonView, MutationErrorView>| #[trigger]
                adapter::got::<R, WorkflowRunDetailsJson>(
                    self.runner,
                    commands::workflow_run(repository.deep_view(), run_id),
                    read,
                ) && match read {
                    Err(error) => adapter::outcome_view(r) == Err::<GitHubMutationReceiptView, _>(
                        error,
                    ),
                    Ok(details) => rerun_carried_out(
                        self.runner,
                        repository.deep_view(),
                        expected.deep_view(),
                        run_id,
                        details.snapshot(),
                        adapter::outcome_view(r),
                    ),
                },
    {
        let read = self.json::<WorkflowRunDetailsJson>(&workflow_run_command(repository, run_id));
        assert(adapter::got::<R, WorkflowRunDetailsJson>(
            self.runner,
            commands::workflow_run(repository.deep_view(), run_id),
            adapter::outcome_view(read),
        ));
        let run = match read {
            Err(error) => {
                return Err(error);
            },
            Ok(details) => details.into_snapshot(),
        };
        let before = self.verify_precondition_with_checks(repository, expected);
        assert(adapter::verified(
            self.runner,
            repository.deep_view(),
            expected.deep_view(),
            true,
            adapter::outcome_view(before),
        ));
        match before {
            Err(error) => Err(error),
            Ok(snapshot) => match refuse_rerun(
                &run,
                run_id,
                expected.number,
                &snapshot.head.oid.0,
            ) {
                Some(error) => Err(error),
                None => self.carry_out(
                    repository,
                    expected.number,
                    MutationKind::RerunChecks,
                    snapshot,
                    &rerun_failed_command(repository, run_id),
                ),
            },
        }
    }

    /// The contexts that the protection of a branch requires. A branch without
    /// protection requires nothing; what cannot be read is left open.
    pub fn branch_required_contexts(&self, repository: &RepositoryId, branch: &str) -> (r: Result<
        RequiredContextsRead,
        MutationError,
    >)
        requires
            may_read_contexts(self.runner, repository.deep_view(), branch@),
        ensures
            r is Ok,
            required_contexts(
                self.runner,
                repository.deep_view(),
                branch@,
                r->Ok_0.deep_view(),
            ),
    {
        let settings = self.json::<BranchSettingsJson>(
            &branch_settings_command(repository, branch),
        );
        assert(adapter::got::<R, BranchSettingsJson>(
            self.runner,
            commands::branch_settings(repository.deep_view(), branch@),
            adapter::outcome_view(settings),
        ));
        match settings {
            Err(_) => Ok(RequiredContextsRead::partial(branch)),
            Ok(known) => if !known.protected {
                Ok(RequiredContextsRead::unprotected(branch))
            } else {
                let policy = self.json::<BranchProtectionJson>(
                    &branch_protection_command(repository, branch),
                );
                assert(adapter::got::<R, BranchProtectionJson>(
                    self.runner,
                    commands::branch_protection(repository.deep_view(), branch@),
                    adapter::outcome_view(policy),
                ));
                Ok(read_contexts(branch, policy))
            },
        }
    }

    /// The check suites and workflow runs of the exact head of a confirmed
    /// pull request. Each read degrades by itself: what was refused leaves the
    /// lineage incomplete, and is never an absence.
    pub fn head_run_lineage(
        &self,
        repository: &RepositoryId,
        expected: &PullRequestPrecondition,
    ) -> (r: Result<HeadRunLineage, MutationError>)
        requires
            may_read_lineage(self.runner, repository.deep_view(), expected.deep_view()),
        ensures
            exists|before: Result<PullRequestSnapshotView, MutationErrorView>| #[trigger]
                adapter::verified(
                    self.runner,
                    repository.deep_view(),
                    expected.deep_view(),
                    true,
                    before,
                ) && match before {
                    Err(error) => adapter::outcome_view(r) == Err::<HeadRunLineageView, _>(error),
                    Ok(snapshot) => r is Ok && lineage_read(
                        self.runner,
                        repository.deep_view(),
                        snapshot.head.oid,
                        r->Ok_0.deep_view(),
                    ),
                },
    {
        let before = self.verify_precondition_with_checks(repository, expected);
        assert(adapter::verified(
            self.runner,
            repository.deep_view(),
            expected.deep_view(),
            true,
            adapter::outcome_view(before),
        ));
        match before {
            Err(error) => Err(error),
            Ok(snapshot) => {
                let head = snapshot.head.oid.0;
                let suites = self.json::<CheckSuiteListJson>(
                    &check_suites_command(repository, head.as_str()),
                );
                let runs = self.json::<WorkflowRunListJson>(
                    &head_runs_command(repository, head.as_str()),
                );
                let commit = self.json::<CommitDetailJson>(
                    &commit_command(repository, head.as_str()),
                );
                assert(adapter::got::<R, CheckSuiteListJson>(
                    self.runner,
                    commands::check_suites(repository.deep_view(), head@),
                    adapter::outcome_view(suites),
                ));
                assert(adapter::got::<R, WorkflowRunListJson>(
                    self.runner,
                    commands::head_runs(repository.deep_view(), head@),
                    adapter::outcome_view(runs),
                ));
                assert(adapter::got::<R, CommitDetailJson>(
                    self.runner,
                    commands::commit(repository.deep_view(), head@),
                    adapter::outcome_view(commit),
                ));
                Ok(assemble_lineage(head, suites, runs, commit))
            },
        }
    }

    /// Requests one check suite again on the unchanged head of a confirmed
    /// pull request. A suite of another commit is refused, so a superseded
    /// generation is never triggered again.
    pub fn rerequest_check_suite(
        &self,
        repository: &RepositoryId,
        expected: &PullRequestPrecondition,
        check_suite_id: u64,
    ) -> (r: Result<GitHubMutationReceipt, MutationError>)
        requires
            may_request_suite(self.runner, repository.deep_view(), expected.deep_view(), check_suite_id),
        ensures
            exists|before: Result<PullRequestSnapshotView, MutationErrorView>| #[trigger]
                adapter::verified(
                    self.runner,
                    repository.deep_view(),
                    expected.deep_view(),
                    true,
                    before,
                ) && match before {
                    Err(error) => adapter::outcome_view(r) == Err::<GitHubMutationReceiptView, _>(
                        error,
                    ),
                    Ok(snapshot) => suite_requested(
                        self.runner,
                        repository.deep_view(),
                        expected.number,
                        check_suite_id,
                        snapshot,
                        adapter::outcome_view(r),
                    ),
                },
    {
        let before = self.verify_precondition_with_checks(repository, expected);
        assert(adapter::verified(
            self.runner,
            repository.deep_view(),
            expected.deep_view(),
            true,
            adapter::outcome_view(before),
        ));
        match before {
            Err(error) => Err(error),
            Ok(snapshot) => {
                let read = self.json::<CheckSuiteJson>(
                    &check_suite_command(repository, check_suite_id),
                );
                assert(adapter::got::<R, CheckSuiteJson>(
                    self.runner,
                    commands::check_suite(repository.deep_view(), check_suite_id),
                    adapter::outcome_view(read),
                ));
                match read {
                    Err(error) => Err(error),
                    Ok(suite) => if !suite.head_sha.same(&snapshot.head.oid.0) {
                        Err(
                            MutationError::CheckSuiteHeadMismatch {
                                check_suite_id,
                                expected_head: snapshot.head.oid.0,
                                actual_head: suite.head_sha,
                            },
                        )
                    } else {
                        self.carry_out(
                            repository,
                            expected.number,
                            MutationKind::RequestCheckSuite,
                            snapshot,
                            &rerequest_check_suite_command(repository, check_suite_id),
                        )
                    },
                }
            },
        }
    }
}

} // verus!
