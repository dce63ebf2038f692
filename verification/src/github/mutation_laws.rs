//! What a change of a pull request rests on and what its receipt says, over the
//! facts of the pull request themselves.

use vstd::prelude::*;
use crate::command;
use crate::command::{CommandRunner, CommandSpecView, Sent};
use crate::github::adapter;
use crate::github::commands;
use crate::github::facts::{ControlLabelAuditView, GitHubMutationReceiptView, MutationKind};
use crate::github::mutations;
use crate::github::provider::{MutationErrorView, PullRequestPreconditionView};
use crate::github::raw::{
    CheckJsonView, IssueCommentJson, IssueCommentJsonView, PullRequestJson, PullRequestJsonView,
    RepositoryPermissionJson, RepositoryPermissionJsonView,
};
use crate::model;
use crate::model::{
    CheckSnapshotView, CheckState, MergeMethod, PrNumber, PullRequestSnapshotView,
    RepositoryIdView,
};
use crate::text;

verus! {

// ---------------------------------------------------------------------------
// Preconditions
// ---------------------------------------------------------------------------

/// The pull request stands as it was expected to, but for its checks: the same
/// number, state, head commit, base branch and commit, labels and auto-merge
/// setting.
pub open spec fn stands(
    expected: PullRequestPreconditionView,
    seen: PullRequestSnapshotView,
) -> bool {
    &&& seen.number == expected.number
    &&& seen.state == expected.state
    &&& seen.head.oid == expected.head_oid
    &&& seen.base.name == expected.base_ref
    &&& seen.base.oid == expected.base_oid
    &&& seen.labels == expected.labels
    &&& seen.auto_merge.enabled == expected.auto_merge.enabled
    &&& seen.auto_merge.merge_method == expected.auto_merge.merge_method
}

/// A precondition is met exactly by a pull request that stands as expected, and
/// then the pull request itself is handed back. Where the checks count, they
/// must be the same as well.
pub proof fn lemma_precondition_is_met_exactly(
    expected: PullRequestPreconditionView,
    with_checks: bool,
    seen: PullRequestSnapshotView,
)
    ensures
        adapter::confirmed(expected, with_checks, seen) is Ok <==> stands(expected, seen) && (
        with_checks ==> seen.checks == expected.checks),
        adapter::confirmed(expected, with_checks, seen) is Ok ==> adapter::confirmed(
            expected,
            with_checks,
            seen,
        )->Ok_0 == seen,
{
}

proof fn lemma_noted(names: Seq<Seq<char>>, name: Seq<char>, changed: bool, x: Seq<char>)
    ensures
        adapter::noted(names, name, changed).contains(x) <==> names.contains(x) || (changed && x
            == name),
{
    if changed {
        let longer = names.push(name);
        if names.contains(x) {
            let k = choose|k: int| 0 <= k < names.len() && names[k] == x;
            assert(longer[k] == x);
        }
        assert(longer[names.len() as int] == name);
    }
}

/// A refusal hands back what was expected and what was seen, and names exactly
/// the facts that differ. Checks are named only where they count.
pub proof fn lemma_refusal_names_what_differs(
    expected: PullRequestPreconditionView,
    with_checks: bool,
    seen: PullRequestSnapshotView,
)
    requires
        adapter::confirmed(expected, with_checks, seen) is Err,
    ensures
        adapter::confirmed(expected, with_checks, seen)->Err_0 matches
            MutationErrorView::StalePrecondition { expected: was, actual, changed_fields } && {
            &&& was == expected
            &&& stands(actual, seen)
            &&& actual.checks == seen.checks
            &&& forall|x: Seq<char>| #[trigger]
                changed_fields.contains(x) <==> {
                    ||| x == "number"@ && expected.number != seen.number
                    ||| x == "state"@ && expected.state != seen.state
                    ||| x == "head_oid"@ && expected.head_oid != seen.head.oid
                    ||| x == "base_ref"@ && expected.base_ref != seen.base.name
                    ||| x == "base_oid"@ && expected.base_oid != seen.base.oid
                    ||| x == "labels"@ && expected.labels != seen.labels
                    ||| x == "auto_merge"@ && (expected.auto_merge.enabled
                        != seen.auto_merge.enabled || expected.auto_merge.merge_method
                        != seen.auto_merge.merge_method)
                    ||| x == "checks"@ && with_checks && expected.checks != seen.checks
                }
        },
{
    let actual = adapter::precondition_of(seen);
    let names = if with_checks {
        adapter::changed_with_checks(expected, actual)
    } else {
        adapter::changed_fields(expected, actual)
    };
    assert forall|x: Seq<char>| #[trigger] names.contains(x) <==> {
        ||| x == "number"@ && expected.number != seen.number
        ||| x == "state"@ && expected.state != seen.state
        ||| x == "head_oid"@ && expected.head_oid != seen.head.oid
        ||| x == "base_ref"@ && expected.base_ref != seen.base.name
        ||| x == "base_oid"@ && expected.base_oid != seen.base.oid
        ||| x == "labels"@ && expected.labels != seen.labels
        ||| x == "auto_merge"@ && (expected.auto_merge.enabled != seen.auto_merge.enabled
            || expected.auto_merge.merge_method != seen.auto_merge.merge_method)
        ||| x == "checks"@ && with_checks && expected.checks != seen.checks
    } by {
        let none = Seq::<Seq<char>>::empty();
        let a = adapter::noted(none, "number"@, expected.number != seen.number);
        lemma_noted(none, "number"@, expected.number != seen.number, x);
        let b = adapter::noted(a, "state"@, expected.state != seen.state);
        lemma_noted(a, "state"@, expected.state != seen.state, x);
        let c = adapter::noted(b, "head_oid"@, expected.head_oid != seen.head.oid);
        lemma_noted(b, "head_oid"@, expected.head_oid != seen.head.oid, x);
        let d = adapter::noted(c, "base_ref"@, expected.base_ref != seen.base.name);
        lemma_noted(c, "base_ref"@, expected.base_ref != seen.base.name, x);
        let e = adapter::noted(d, "base_oid"@, expected.base_oid != seen.base.oid);
        lemma_noted(d, "base_oid"@, expected.base_oid != seen.base.oid, x);
        let f = adapter::noted(e, "labels"@, expected.labels != seen.labels);
        lemma_noted(e, "labels"@, expected.labels != seen.labels, x);
        let other = !model::same_setting_view(expected.auto_merge, seen.auto_merge);
        let g = adapter::noted(f, "auto_merge"@, other);
        lemma_noted(f, "auto_merge"@, other, x);
        lemma_noted(g, "checks"@, expected.checks != seen.checks, x);
    }
}

/// The precondition that is taken of a pull request is met by every pull request
/// that stands as that one did.
pub proof fn lemma_taken_precondition_is_met(
    taken: PullRequestSnapshotView,
    seen: PullRequestSnapshotView,
)
    ensures
        stands(adapter::precondition_of(taken), taken),
        adapter::precondition_of(taken).checks == taken.checks,
        adapter::confirmed(adapter::precondition_of(taken), false, seen) is Ok <==> {
            &&& seen.number == taken.number
            &&& seen.state == taken.state
            &&& seen.head.oid == taken.head.oid
            &&& seen.base.name == taken.base.name
            &&& seen.base.oid == taken.base.oid
            &&& seen.labels == taken.labels
            &&& seen.auto_merge.enabled == taken.auto_merge.enabled
            &&& seen.auto_merge.merge_method == taken.auto_merge.merge_method
        },
{
}

// ---------------------------------------------------------------------------
// Facts
// ---------------------------------------------------------------------------

/// A pull request holds what the document says of it.
pub open spec fn is_document(
    document: PullRequestJsonView,
    seen: PullRequestSnapshotView,
    repository: RepositoryIdView,
) -> bool {
    &&& seen.number.0 == document.number
    &&& seen.title == document.title
    &&& seen.url == document.url
    &&& seen.state == document.state
    &&& seen.draft == document.is_draft
    &&& seen.head.name == document.head_ref_name
    &&& seen.head.oid == document.head_ref_oid
    &&& seen.base.repository == repository
    &&& seen.base.name == document.base_ref_name
    &&& seen.base.oid == document.base_ref_oid
    &&& seen.cross_repository == document.is_cross_repository
    &&& seen.merge_state_status == document.merge_state_status
    &&& seen.merged_at == document.merged_at
    &&& seen.created_at == Some(document.created_at)
    &&& seen.updated_at == Some(document.updated_at)
    &&& seen.auto_merge.enabled == (document.auto_merge_request is Some)
    &&& seen.auto_merge.merge_method is Some <==> document.auto_merge_request is Some
        && document.auto_merge_request->0.merge_method == "SQUASH"@
    &&& forall|label: Seq<char>| #[trigger]
        seen.labels.contains(label) <==> exists|i: int|
            0 <= i < document.labels.len() && (#[trigger] document.labels[i]).name == label
    &&& seen.checks.len() == document.status_check_rollup.len()
}

/// A document becomes the pull request that it describes. It is refused exactly
/// where the head comes from another repository that is not told, or that is
/// told in a form that is no repository.
pub proof fn lemma_snapshot_is_its_document(
    document: PullRequestJsonView,
    repository: RepositoryIdView,
)
    ensures
        document.snapshot(repository) matches Ok(seen) ==> is_document(document, seen, repository),
        document.head_repository is None && !document.is_cross_repository ==> document.snapshot(
            repository,
        ) is Ok && document.snapshot(repository)->Ok_0.head.repository == repository,
        document.head_repository is None && document.is_cross_repository ==> document.snapshot(
            repository,
        ) is Err,
{
    if let Ok(seen) = document.snapshot(repository) {
        let names = document.label_names();
        model::lemma_label_set(names);
        assert forall|label: Seq<char>| #[trigger]
            seen.labels.contains(label) <==> exists|i: int|
                0 <= i < document.labels.len() && (#[trigger] document.labels[i]).name == label by {
            if names.contains(label) {
                let k = choose|k: int| 0 <= k < names.len() && names[k] == label;
                assert(document.labels[k].name == label);
            }
            if exists|i: int|
                0 <= i < document.labels.len() && (#[trigger] document.labels[i]).name == label {
                let k = choose|i: int|
                    0 <= i < document.labels.len() && (#[trigger] document.labels[i]).name == label;
                assert(names[k] == label);
            }
        }
    }
}

/// When a run of a check was last seen: when it ended, or when it began.
pub open spec fn seen_at(check: CheckSnapshotView) -> Option<Seq<char>> {
    if check.completed_at is Some {
        check.completed_at
    } else {
        check.started_at
    }
}

/// A later run of the same check.
pub open spec fn reruns(check: CheckSnapshotView, later: CheckSnapshotView) -> bool {
    &&& later.name == check.name
    &&& later.workflow_name == check.workflow_name
    &&& later.provider_kind == check.provider_kind
    &&& seen_at(check) is Some
    &&& seen_at(later) is Some
    &&& text::text_lt(seen_at(check)->0, seen_at(later)->0)
}

/// Every run of a check keeps its place, and is superseded exactly where a later
/// run of the same check stands beside it; nothing else of it changes.
pub proof fn lemma_superseded_by_later_runs(checks: Seq<CheckSnapshotView>, i: int)
    requires
        0 <= i < checks.len(),
    ensures
        model::marked_checks(checks).len() == checks.len(),
        model::marked_checks(checks)[i].superseded <==> exists|k: int|
            0 <= k < checks.len() && reruns(checks[i], #[trigger] checks[k]),
        (CheckSnapshotView { superseded: checks[i].superseded, ..model::marked_checks(checks)[i] })
            == checks[i],
{
    let check = checks[i];
    assert forall|k: int| 0 <= k < checks.len() implies check.outdated_by(#[trigger] checks[k])
        == reruns(check, checks[k]) by {}
    if model::outdated(check, checks) {
        let k = choose|k: int| 0 <= k < checks.len() && check.outdated_by(#[trigger] checks[k]);
        assert(reruns(check, checks[k]));
    }
    if exists|k: int| 0 <= k < checks.len() && reruns(check, #[trigger] checks[k]) {
        let k = choose|k: int| 0 <= k < checks.len() && reruns(check, #[trigger] checks[k]);
        assert(check.outdated_by(checks[k]));
    }
}

proof fn lemma_kept_checks(
    checks: Seq<CheckSnapshotView>,
    all: Seq<CheckSnapshotView>,
    wanted: bool,
)
    ensures
        forall|x: CheckSnapshotView| #[trigger]
            model::checks_where(checks, all, wanted).contains(x) <==> checks.contains(x)
                && model::outdated(x, all) == wanted,
    decreases checks.len(),
{
    if checks.len() > 0 {
        let front = checks.drop_last();
        lemma_kept_checks(front, all, wanted);
        let kept = model::checks_where(front, all, wanted);
        assert forall|x: CheckSnapshotView| #[trigger]
            model::checks_where(checks, all, wanted).contains(x) <==> checks.contains(x)
                && model::outdated(x, all) == wanted by {
            assert(kept.contains(x) <==> front.contains(x) && model::outdated(x, all) == wanted);
            if checks.contains(x) {
                let k = choose|k: int| 0 <= k < checks.len() && checks[k] == x;
                if k < front.len() {
                    assert(front[k] == x);
                }
            }
            if front.contains(x) {
                let k = choose|k: int| 0 <= k < front.len() && front[k] == x;
                assert(checks[k] == x);
            }
            assert(checks[checks.len() - 1] == checks.last());
            let longer = kept.push(checks.last());
            if kept.contains(x) {
                let k = choose|k: int| 0 <= k < kept.len() && kept[k] == x;
                assert(longer[k] == x);
            }
            assert(longer[kept.len() as int] == checks.last());
            if longer.contains(x) {
                let k = choose|k: int| 0 <= k < longer.len() && longer[k] == x;
                if k < kept.len() {
                    assert(kept[k] == x);
                }
            }
        }
    } else {
        assert forall|x: CheckSnapshotView| #[trigger]
            model::checks_where(checks, all, wanted).contains(x) <==> checks.contains(x)
                && model::outdated(x, all) == wanted by {}
    }
}

/// Of the runs of checks, the current ones are those without a later run of the
/// same check, and the others are those with one.
pub proof fn lemma_latest_runs_are_current(checks: Seq<CheckSnapshotView>, run: CheckSnapshotView)
    ensures
        model::checks_where(checks, checks, false).contains(run) <==> checks.contains(run) && !(
        exists|k: int| 0 <= k < checks.len() && reruns(run, #[trigger] checks[k])),
        model::checks_where(checks, checks, true).contains(run) <==> checks.contains(run) && (
        exists|k: int| 0 <= k < checks.len() && reruns(run, #[trigger] checks[k])),
{
    lemma_kept_checks(checks, checks, false);
    lemma_kept_checks(checks, checks, true);
    assert forall|k: int| 0 <= k < checks.len() implies run.outdated_by(#[trigger] checks[k])
        == reruns(run, checks[k]) by {}
    if model::outdated(run, checks) {
        let k = choose|k: int| 0 <= k < checks.len() && run.outdated_by(#[trigger] checks[k]);
        assert(reruns(run, checks[k]));
    }
    if exists|k: int| 0 <= k < checks.len() && reruns(run, #[trigger] checks[k]) {
        let k = choose|k: int| 0 <= k < checks.len() && reruns(run, #[trigger] checks[k]);
        assert(run.outdated_by(checks[k]));
    }
}

/// A check passes only where the provider says that it succeeded: by the
/// conclusion, else the state, else the status, whichever is first told.
pub proof fn lemma_success_is_reported(row: CheckJsonView)
    ensures
        row.snapshot().state == CheckState::Success <==> {
            let told = row.snapshot().provider_state;
            told is Some && told->0 == "SUCCESS"@
        },
        row.conclusion is Some && row.conclusion->0.len() > 0 ==> row.snapshot().provider_state
            == row.conclusion,
        !row.snapshot().superseded,
        row.snapshot().head_oid == row.head_oid,
        row.snapshot().app_id == row.app_id,
        row.snapshot().check_suite_id == row.check_suite_id,
        row.name is Some ==> row.snapshot().name == row.name->0,
{
    reveal_strlit("SUCCESS");
    reveal_strlit("EXPECTED");
    reveal_strlit("QUEUED");
    reveal_strlit("REQUESTED");
    reveal_strlit("WAITING");
    reveal_strlit("IN_PROGRESS");
    reveal_strlit("PENDING");
    assert("SUCCESS"@[0] != "EXPECTED"@[0]);
    assert("SUCCESS"@[0] != "QUEUED"@[0]);
    assert("SUCCESS"@[0] != "REQUESTED"@[0]);
    assert("SUCCESS"@[0] != "WAITING"@[0]);
    assert("SUCCESS"@[0] != "IN_PROGRESS"@[0]);
    assert("SUCCESS"@[0] != "PENDING"@[0]);
}

// ---------------------------------------------------------------------------
// Receipts
// ---------------------------------------------------------------------------

/// A document of a pull request was read, and shows these facts.
pub open spec fn shows<R: CommandRunner>(
    runner: R,
    repository: RepositoryIdView,
    selector: Seq<char>,
    seen: PullRequestSnapshotView,
) -> bool {
    exists|document: PullRequestJsonView| #[trigger]
        adapter::got::<R, PullRequestJson>(
            runner,
            commands::pull_request(repository, selector),
            Ok(document),
        ) && is_document(document, seen, repository)
}

proof fn lemma_refetched_shows<R: CommandRunner>(
    runner: R,
    repository: RepositoryIdView,
    selector: Seq<char>,
    seen: PullRequestSnapshotView,
)
    requires
        adapter::refetched(runner, repository, selector, Ok(seen)),
    ensures
        shows(runner, repository, selector, seen),
{
    let read = choose|read: Result<PullRequestJsonView, MutationErrorView>| #[trigger]
        adapter::got::<R, PullRequestJson>(
            runner,
            commands::pull_request(repository, selector),
            read,
        ) && Ok::<PullRequestSnapshotView, MutationErrorView>(seen) == match read {
            Err(error) => Err(error),
            Ok(document) => adapter::lifted(document.snapshot(repository)),
        };
    lemma_snapshot_is_its_document(read->Ok_0, repository);
}

/// The command was sent and succeeded, and the pull request was read once it
/// was answered.
pub open spec fn sent_and_shown<R: CommandRunner>(
    runner: R,
    repository: RepositoryIdView,
    selector: Seq<char>,
    command: CommandSpecView,
    sent: Sent,
    seen: PullRequestSnapshotView,
) -> bool {
    &&& command::was_sent(runner, command, sent)
    &&& sent.answer() is Ok
    &&& sent.answer()->Ok_0.succeeded()
    &&& shows(command::after(&runner, &sent), repository, selector, seen)
}

/// A change that succeeds rests on a fresh read of the pull request, which stood
/// as expected; its command was sent and succeeded; and its receipt holds that
/// read and one that was made after the answer.
pub proof fn lemma_change_rests_on_facts<R: CommandRunner>(
    runner: R,
    repository: RepositoryIdView,
    expected: PullRequestPreconditionView,
    kind: MutationKind,
    command: CommandSpecView,
    receipt: GitHubMutationReceiptView,
)
    requires
        adapter::mutated(runner, repository, expected, kind, command, Ok(receipt)),
    ensures
        receipt.kind == kind,
        receipt.before is Some,
        stands(expected, receipt.before->0),
        shows(runner, repository, model::pr_text(expected.number), receipt.before->0),
        exists|sent: Sent| #[trigger]
            sent_and_shown(
                runner,
                repository,
                model::pr_text(expected.number),
                command,
                sent,
                receipt.after,
            ),
{
    let before = choose|before: Result<PullRequestSnapshotView, MutationErrorView>| #[trigger]
        adapter::verified(runner, repository, expected, false, before) && match before {
            Err(error) => Ok::<GitHubMutationReceiptView, MutationErrorView>(receipt) == Err::<
                GitHubMutationReceiptView,
                _,
            >(error),
            Ok(snapshot) => adapter::carried_out(
                runner,
                repository,
                expected.number,
                kind,
                snapshot,
                command,
                Ok(receipt),
            ),
        };
    lemma_verified_stands(runner, repository, expected, false, before->Ok_0);
    lemma_carried_out(runner, repository, expected.number, kind, before->Ok_0, command, receipt);
}

pub(crate) proof fn lemma_verified_stands<R: CommandRunner>(
    runner: R,
    repository: RepositoryIdView,
    expected: PullRequestPreconditionView,
    with_checks: bool,
    seen: PullRequestSnapshotView,
)
    requires
        adapter::verified(runner, repository, expected, with_checks, Ok(seen)),
    ensures
        stands(expected, seen),
        with_checks ==> seen.checks == expected.checks,
        shows(runner, repository, model::pr_text(expected.number), seen),
{
    let read = choose|read: Result<PullRequestSnapshotView, MutationErrorView>| #[trigger]
        adapter::refetched(runner, repository, model::pr_text(expected.number), read) && Ok::<
            PullRequestSnapshotView,
            MutationErrorView,
        >(seen) == match read {
            Err(error) => Err(error),
            Ok(snapshot) => adapter::confirmed(expected, with_checks, snapshot),
        };
    lemma_precondition_is_met_exactly(expected, with_checks, read->Ok_0);
    lemma_refetched_shows(runner, repository, model::pr_text(expected.number), seen);
}

pub(crate) proof fn lemma_carried_out<R: CommandRunner>(
    runner: R,
    repository: RepositoryIdView,
    number: PrNumber,
    kind: MutationKind,
    before: PullRequestSnapshotView,
    command: CommandSpecView,
    receipt: GitHubMutationReceiptView,
)
    requires
        adapter::carried_out(runner, repository, number, kind, before, command, Ok(receipt)),
    ensures
        receipt.kind == kind,
        receipt.before == Some(before),
        exists|sent: Sent| #[trigger]
            sent_and_shown(
                runner,
                repository,
                model::pr_text(number),
                command,
                sent,
                receipt.after,
            ),
{
    let sent = choose|sent: Sent| #[trigger]
        command::was_sent(runner, command, sent) && match crate::github::pr_operations::shown_by(
            command,
            sent.answer(),
        ) {
            Err(error) => Ok::<GitHubMutationReceiptView, MutationErrorView>(receipt) == Err::<
                GitHubMutationReceiptView,
                _,
            >(error),
            Ok(shown) => adapter::read_back(
                command::after(&runner, &sent),
                repository,
                model::pr_text(number),
                kind,
                Some(before),
                adapter::shown_output(shown),
                Ok(receipt),
            ),
        };
    lemma_refetched_shows(
        command::after(&runner, &sent),
        repository,
        model::pr_text(number),
        receipt.after,
    );
    assert(sent_and_shown(
        runner,
        repository,
        model::pr_text(number),
        command,
        sent,
        receipt.after,
    ));
}

/// A merge as administrator that succeeds was made by an actor whose permission
/// the provider tells as that of an administrator, and rests on facts as every
/// change does. Its command merges that pull request of that repository.
pub proof fn lemma_admin_merge_rests_on_facts<R: CommandRunner>(
    runner: R,
    repository: RepositoryIdView,
    expected: PullRequestPreconditionView,
    receipt: GitHubMutationReceiptView,
)
    requires
        mutations::admin_merged(runner, repository, expected, Ok(receipt)),
    ensures
        exists|told: RepositoryPermissionJsonView| #[trigger]
            adapter::got::<R, RepositoryPermissionJson>(
                runner,
                commands::repository_permission(repository),
                Ok(told),
            ) && told.viewer_permission == "ADMIN"@,
        receipt.kind == MutationKind::SquashMerge,
        receipt.before is Some,
        stands(expected, receipt.before->0),
        exists|sent: Sent| #[trigger]
            sent_and_shown(
                runner,
                repository,
                model::pr_text(expected.number),
                commands::admin_squash_merge(repository, expected.number),
                sent,
                receipt.after,
            ),
{
    mutations::lemma_admin_merge_needs_admin(runner, repository, expected, Ok(receipt));
    lemma_change_rests_on_facts(
        runner,
        repository,
        expected,
        MutationKind::SquashMerge,
        commands::admin_squash_merge(repository, expected.number),
        receipt,
    );
}

// ---------------------------------------------------------------------------
// Label and auto-merge in one request
// ---------------------------------------------------------------------------

/// The label is there or not as desired, and where auto-merge was to be armed,
/// it is armed with a squash.
pub open spec fn is_forced(
    seen: PullRequestSnapshotView,
    label: Seq<char>,
    desired: bool,
    ensure_squash: bool,
) -> bool {
    &&& seen.labels.contains(label) == desired
    &&& ensure_squash ==> seen.auto_merge.enabled && seen.auto_merge.merge_method == Some(
        MergeMethod::Squash,
    )
}

/// The facts that are read after the request decide alone: they are taken for
/// success exactly where the label and the setting are as desired, whatever the
/// request was answered. Otherwise both reads are handed back as evidence.
pub proof fn lemma_facts_decide_force(
    before: PullRequestSnapshotView,
    after: PullRequestSnapshotView,
    label: Seq<char>,
    desired: bool,
    ensure_squash: bool,
    output: crate::command::CommandOutputView,
)
    ensures
        mutations::force_outcome(before, after, label, desired, ensure_squash, output) is Ok
            <==> is_forced(after, label, desired, ensure_squash),
        mutations::force_outcome(before, after, label, desired, ensure_squash, output) matches Ok(
            (receipt, changed),
        ) ==> changed && receipt.before == Some(before) && receipt.after == after && receipt.kind
            == MutationKind::ForceIntentTransaction,
        mutations::force_outcome(before, after, label, desired, ensure_squash, output) matches Err(
            error,
        ) ==> (error matches MutationErrorView::AtomicTransactionIncomplete {
            before: first,
            after: second,
            desired_label_present,
            desired_squash_auto_merge,
            ..
        } && first == before && second == after && desired_label_present == desired
            && desired_squash_auto_merge == ensure_squash),
{
}

/// A transition that succeeds rests on facts that stood as expected, checks
/// included, and leaves the label and the setting as desired. It says that it
/// changed something exactly where those facts did not already hold what was
/// desired; where they did, its receipt shows them unchanged.
pub proof fn lemma_force_rests_on_facts<R: CommandRunner>(
    runner: R,
    repository: RepositoryIdView,
    expected: PullRequestPreconditionView,
    label: Seq<char>,
    desired: bool,
    ensure_squash: bool,
    receipt: GitHubMutationReceiptView,
    changed: bool,
)
    requires
        mutations::forced(
            runner,
            repository,
            expected,
            label,
            desired,
            ensure_squash,
            Ok((receipt, changed)),
        ),
    ensures
        receipt.kind == MutationKind::ForceIntentTransaction,
        receipt.before is Some,
        stands(expected, receipt.before->0),
        receipt.before->0.checks == expected.checks,
        shows(runner, repository, model::pr_text(expected.number), receipt.before->0),
        is_forced(receipt.after, label, desired, ensure_squash),
        changed <==> !is_forced(receipt.before->0, label, desired, ensure_squash),
        !changed ==> receipt.after == receipt.before->0,
{
    let outcome = Ok::<(GitHubMutationReceiptView, bool), MutationErrorView>((receipt, changed));
    let before = choose|before: Result<PullRequestSnapshotView, MutationErrorView>| #[trigger]
        adapter::verified(runner, repository, expected, true, before) && match before {
            Err(error) => outcome == Err::<(GitHubMutationReceiptView, bool), _>(error),
            Ok(snapshot) => if !mutations::label_must_change(snapshot, label, desired)
                && !mutations::must_arm(snapshot, ensure_squash) {
                outcome == Ok::<_, MutationErrorView>(
                    (
                        GitHubMutationReceiptView {
                            kind: MutationKind::ForceIntentTransaction,
                            before: Some(snapshot),
                            after: snapshot,
                            provider_output: Some(
                                "atomic provider force postcondition already satisfied"@,
                            ),
                        },
                        false,
                    ),
                )
            } else {
                mutations::force_sent(
                    runner,
                    repository,
                    expected.number,
                    snapshot,
                    label,
                    desired,
                    ensure_squash,
                    outcome,
                )
            },
        };
    lemma_verified_stands(runner, repository, expected, true, before->Ok_0);
}

// ---------------------------------------------------------------------------
// Comments
// ---------------------------------------------------------------------------

/// Some comment on some page has this body.
pub open spec fn on_a_page(pages: Seq<Seq<IssueCommentJsonView>>, body: Seq<char>) -> bool {
    exists|p: int| 0 <= p < pages.len() && #[trigger] on_page(pages[p], body)
}

/// Some comment of a page has this body.
pub open spec fn on_page(page: Seq<IssueCommentJsonView>, body: Seq<char>) -> bool {
    exists|i: int| 0 <= i < page.len() && (#[trigger] page[i]).body == body
}

proof fn lemma_all_bodies(pages: Seq<Seq<IssueCommentJsonView>>)
    ensures
        forall|body: Seq<char>| #[trigger]
            mutations::all_bodies(pages).contains(body) <==> on_a_page(pages, body),
    decreases pages.len(),
{
    if pages.len() > 0 {
        let front = pages.drop_last();
        lemma_all_bodies(front);
        let first = mutations::all_bodies(front);
        let second = mutations::bodies(pages.last());
        assert forall|body: Seq<char>| #[trigger]
            mutations::all_bodies(pages).contains(body) <==> on_a_page(pages, body) by {
            assert(first.contains(body) <==> on_a_page(front, body));
            let both = first + second;
            if both.contains(body) {
                let k = choose|k: int| 0 <= k < both.len() && both[k] == body;
                if k < first.len() {
                    assert(first[k] == body);
                    let p = choose|p: int| 0 <= p < front.len() && #[trigger] on_page(front[p], body);
                    assert(on_page(pages[p], body));
                } else {
                    assert(pages.last()[k - first.len()].body == body);
                    assert(on_page(pages[pages.len() - 1], body));
                }
            }
            if on_a_page(pages, body) {
                let p = choose|p: int| 0 <= p < pages.len() && #[trigger] on_page(pages[p], body);
                if p < front.len() {
                    assert(on_page(front[p], body));
                    let k = choose|k: int| 0 <= k < first.len() && first[k] == body;
                    assert(both[k] == body);
                } else {
                    let i = choose|i: int|
                        0 <= i < pages[p].len() && (#[trigger] pages[p][i]).body == body;
                    assert(second[i] == body);
                    assert(both[first.len() + i] == body);
                }
            }
        }
    } else {
        assert forall|body: Seq<char>| #[trigger]
            mutations::all_bodies(pages).contains(body) <==> on_a_page(pages, body) by {}
    }
}

/// The comments that are read of a pull request are those of all its pages, and
/// no others.
pub proof fn lemma_comments_of_all_pages<R: CommandRunner>(
    runner: R,
    repository: RepositoryIdView,
    number: PrNumber,
    rows: Seq<Seq<char>>,
)
    requires
        mutations::comments_read(runner, repository, number, Ok(rows)),
    ensures
        exists|pages: Seq<Seq<IssueCommentJsonView>>| #[trigger]
            adapter::got::<R, Vec<Vec<IssueCommentJson>>>(
                runner,
                commands::issue_comments(repository, number),
                Ok(pages),
            ) && forall|body: Seq<char>| #[trigger]
                rows.contains(body) <==> on_a_page(pages, body),
{
    let read = choose|pages: Result<Seq<Seq<IssueCommentJsonView>>, MutationErrorView>| #[trigger]
        adapter::got::<R, Vec<Vec<IssueCommentJson>>>(
            runner,
            commands::issue_comments(repository, number),
            pages,
        ) && Ok::<Seq<Seq<char>>, MutationErrorView>(rows) == adapter::mapped(
            pages,
            |rows: Seq<Seq<IssueCommentJsonView>>| mutations::all_bodies(rows),
        );
    lemma_all_bodies(read->Ok_0);
}

/// A marked comment that succeeds rests on a pull request's facts: it was sent
/// where no comment held its marker, and where one did, nothing was sent and the
/// receipt says that it was there.
pub proof fn lemma_marked_comment_is_posted_once<R: CommandRunner>(
    runner: R,
    repository: RepositoryIdView,
    expected: PullRequestPreconditionView,
    marker: Seq<char>,
    body: Seq<char>,
    before: PullRequestSnapshotView,
    receipt: GitHubMutationReceiptView,
)
    requires
        mutations::marked_posted(runner, repository, expected, marker, body, before, Ok(receipt)),
    ensures
        receipt.kind == MutationKind::Comment,
        receipt.before == Some(before),
        receipt.provider_output is Some,
        exists|rows: Seq<Seq<char>>| #[trigger]
            mutations::comments_read(runner, repository, expected.number, Ok(rows)) && if exists|
                i: int,
            |
                0 <= i < rows.len() && text::holds_text(#[trigger] rows[i], marker) {
                shows(runner, repository, model::pr_text(expected.number), receipt.after)
            } else {
                exists|sent: Sent| #[trigger]
                    sent_and_shown(
                        runner,
                        repository,
                        model::pr_text(expected.number),
                        commands::comment_pull_request(repository, expected.number, body),
                        sent,
                        receipt.after,
                    )
            },
{
    let read = choose|read: Result<Seq<Seq<char>>, MutationErrorView>| #[trigger]
        mutations::comments_read(runner, repository, expected.number, read) && match read {
            Err(error) => Ok::<GitHubMutationReceiptView, MutationErrorView>(receipt) == Err::<
                GitHubMutationReceiptView,
                _,
            >(error),
            Ok(rows) => mutations::comment_ensured(
                runner,
                repository,
                expected.number,
                before,
                marker,
                body,
                mutations::some_body_holds(rows, marker),
                Ok(receipt),
            ),
        };
    let rows = read->Ok_0;
    let selector = model::pr_text(expected.number);
    if mutations::some_body_holds(rows, marker) {
        lemma_refetched_shows(runner, repository, selector, receipt.after);
    } else {
        let comment = commands::comment_pull_request(repository, expected.number, body);
        let sent = choose|sent: Sent| #[trigger]
            command::was_sent(runner, comment, sent)
                && match crate::github::pr_operations::shown_by(comment, sent.answer()) {
                Err(error) => Ok::<GitHubMutationReceiptView, MutationErrorView>(receipt) == Err::<
                    GitHubMutationReceiptView,
                    _,
                >(error),
                Ok(shown) => adapter::read_back(
                    command::after(&runner, &sent),
                    repository,
                    selector,
                    MutationKind::Comment,
                    Some(before),
                    Some(
                        match adapter::shown_output(shown) {
                            Some(value) => value,
                            None => marker,
                        },
                    ),
                    Ok(receipt),
                ),
            };
        lemma_refetched_shows(
            command::after(&runner, &sent),
            repository,
            selector,
            receipt.after,
        );
        assert(sent_and_shown(runner, repository, selector, comment, sent, receipt.after));
    }
}

proof fn lemma_latest_audit(rows: Seq<Seq<char>>)
    ensures
        mutations::latest_audit(rows) matches Some(body) ==> exists|i: int|
            0 <= i < rows.len() && #[trigger] rows[i] == body && text::holds_text(
                body,
                "<!-- caravan-control-label-audit:"@,
            ) && forall|k: int|
                i < k < rows.len() ==> !text::holds_text(
                    #[trigger] rows[k],
                    "<!-- caravan-control-label-audit:"@,
                ),
        mutations::latest_audit(rows) is None ==> forall|k: int|
            0 <= k < rows.len() ==> !text::holds_text(
                #[trigger] rows[k],
                "<!-- caravan-control-label-audit:"@,
            ),
    decreases rows.len(),
{
    if rows.len() > 0 {
        let front = rows.drop_last();
        let mark = "<!-- caravan-control-label-audit:"@;
        lemma_latest_audit(front);
        if text::holds_text(rows.last(), mark) {
            assert(rows[rows.len() - 1] == rows.last());
        } else {
            if let Some(body) = mutations::latest_audit(front) {
                let i = choose|i: int|
                    0 <= i < front.len() && #[trigger] front[i] == body && text::holds_text(
                        body,
                        mark,
                    ) && forall|k: int|
                        i < k < front.len() ==> !text::holds_text(#[trigger] front[k], mark);
                assert(rows[i] == body);
                assert forall|k: int| i < k < rows.len() implies !text::holds_text(
                    #[trigger] rows[k],
                    mark,
                ) by {
                    if k < front.len() {
                        assert(front[k] == rows[k]);
                    }
                }
            } else {
                assert forall|k: int| 0 <= k < rows.len() implies !text::holds_text(
                    #[trigger] rows[k],
                    mark,
                ) by {
                    if k < front.len() {
                        assert(front[k] == rows[k]);
                    }
                }
            }
        }
    }
}

/// A transition counts as explained without its marker only by the last
/// explanation among the comments, and only if that one names the operation, the
/// pull request and the head, and the labels that it led to.
pub proof fn lemma_explained_by_last(
    rows: Seq<Seq<char>>,
    audit: ControlLabelAuditView,
    number: PrNumber,
    head_oid: Seq<char>,
)
    requires
        mutations::explained(rows, audit, number, head_oid),
        forall|i: int|
            0 <= i < rows.len() ==> !text::holds_text(#[trigger] rows[i], audit.shown_marker()),
    ensures
        exists|i: int|
            0 <= i < rows.len() && text::holds_text(
                #[trigger] rows[i],
                "<!-- caravan-control-label-audit:"@,
            ) && text::holds_text(
                rows[i],
                "<!-- caravan-control-label-audit:v2:"@ + audit.operation + ":"@ + text::decimal(
                    number.0 as nat,
                ) + ":"@ + head_oid + ":"@,
            ) && text::holds_text(
                rows[i],
                " → `"@ + text::joined(audit.after_labels, ", "@) + "`"@,
            ) && forall|k: int|
                i < k < rows.len() ==> !text::holds_text(
                    #[trigger] rows[k],
                    "<!-- caravan-control-label-audit:"@,
                ),
{
    lemma_latest_audit(rows);
}

} // verus!
