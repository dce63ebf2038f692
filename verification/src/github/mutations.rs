//! Operations on one pull request.

use vstd::prelude::*;
use vstd::string::*;
use crate::command;
use crate::command::{send, CommandOutput, CommandOutputView, CommandRunner, Reply, Sent};
use crate::github::adapter;
use crate::github::adapter::{trimmed_provider_output, GitHubMutationAdapter};
use crate::github::commands;
use crate::github::commands::{
    admin_squash_merge_command, auto_merge_command, comment_pull_request_command,
    create_pull_request_command, edit_pull_request_command, force_transaction_command,
    force_transaction_ids_command, issue_comments_command, squash_merge_command,
};
use crate::github::facts;
use crate::github::facts::{
    ControlLabelAudit, ControlLabelAuditView, CreatePullRequestInput, CreatePullRequestInputView,
    GitHubMutationReceipt, GitHubMutationReceiptView, MutationKind,
};
use crate::github::force;
use crate::github::force::{ForceEvent, ForceGoal, ForceStep};
use crate::github::one_write::{perform, Granted};
use crate::github::pr_operations;
use crate::github::pr_operations::{PrComment, PrCreation};
use crate::github::provider;
use crate::github::provider::{
    show_status, DiscoveryError, DiscoveryErrorView, MutationError, MutationErrorView,
    PullRequestPrecondition, PullRequestPreconditionView,
};
use crate::github::raw::{
    ForceTransactionIdsResponse, ForceTransactionIdsResponseView, IssueCommentJson,
    IssueCommentJsonView,
};
use crate::model;
use crate::model::{
    push_item, CommitOid, Model, PrNumber, PullRequestSnapshot, PullRequestSnapshotView,
    RepositoryId, RepositoryIdView,
};
use crate::text;
use crate::text::{
    diagnostic_excerpt, join, starts_with, text_contains, text_eq, trim, words,
};

verus! {

// ---------------------------------------------------------------------------
// Creation
// ---------------------------------------------------------------------------

/// The first word that starts so.
pub open spec fn first_starting(rows: Seq<Seq<char>>, prefix: Seq<char>) -> Option<Seq<char>>
    decreases rows.len(),
{
    if rows.len() == 0 {
        None
    } else {
        match first_starting(rows.drop_last(), prefix) {
            Some(word) => Some(word),
            None => if prefix.is_prefix_of(rows.last()) {
                Some(rows.last())
            } else {
                None
            },
        }
    }
}

/// The address of a created pull request in the output of the creation.
pub open spec fn created_url(output: CommandOutputView) -> Result<Seq<char>, MutationErrorView> {
    match first_starting(text::words_of(output.stdout), "https://"@) {
        Some(url) => Ok(url),
        None => Err(
            MutationErrorView::MissingCreatedPullRequest {
                provider_output: text::trimmed(output.stdout),
            },
        ),
    }
}

/// The address of a created pull request in the output of the creation.
pub fn url_of_creation(output: &CommandOutput) -> (r: Result<String, MutationError>)
    ensures
        adapter::outcome_view(r) == created_url(output.deep_view()),
{
    let rows = words(output.stdout.as_str());
    let ghost all = rows.deep_view();
    let mut found: Option<String> = None;
    let mut i: usize = 0;
    while i < rows.len()
        invariant
            all == rows.deep_view(),
            i <= rows.len(),
            found.deep_view() == first_starting(all.take(i as int), "https://"@),
        decreases rows.len() - i,
    {
        assert(all.take(i as int + 1).drop_last() =~= all.take(i as int));
        assert(all[i as int] == rows[i as int]@);
        if found.is_none() && starts_with(rows[i].as_str(), "https://") {
            found = Some(rows[i].dup());
        }
        i = i + 1;
    }
    assert(all.take(i as int) =~= all);
    match found {
        Some(url) => Ok(url),
        None => Err(
            MutationError::MissingCreatedPullRequest {
                provider_output: trim(output.stdout.as_str()),
            },
        ),
    }
}

/// Creating a pull request may end so.
pub open spec fn created<R: CommandRunner>(
    runner: R,
    repository: RepositoryIdView,
    input: CreatePullRequestInputView,
    outcome: Result<GitHubMutationReceiptView, MutationErrorView>,
) -> bool {
    let creation = commands::create_pull_request(repository, input.head, input.base, input.draft);
    exists|sent: Sent| #[trigger]
        command::was_sent(runner, creation, sent) && match pr_operations::shown_by(
            creation,
            sent.answer(),
        ) {
            Err(error) => outcome == Err::<GitHubMutationReceiptView, _>(error),
            Ok(shown) => match created_url(shown) {
                Err(error) => outcome == Err::<GitHubMutationReceiptView, _>(error),
                Ok(url) => adapter::read_back(
                    command::after(&runner, &sent),
                    repository,
                    url,
                    MutationKind::CreatePullRequest,
                    None,
                    adapter::shown_output(shown),
                    outcome,
                ),
            },
        }
}

// ---------------------------------------------------------------------------
// Comments
// ---------------------------------------------------------------------------

/// The bodies of comments.
pub open spec fn bodies(rows: Seq<IssueCommentJsonView>) -> Seq<Seq<char>> {
    Seq::new(rows.len(), |i: int| rows[i].body)
}

/// The bodies of all pages of comments.
pub open spec fn all_bodies(pages: Seq<Seq<IssueCommentJsonView>>) -> Seq<Seq<char>>
    decreases pages.len(),
{
    if pages.len() == 0 {
        Seq::empty()
    } else {
        all_bodies(pages.drop_last()) + bodies(pages.last())
    }
}

fn add_bodies(out: &mut Vec<String>, page: &Vec<IssueCommentJson>)
    ensures
        final(out).deep_view() == old(out).deep_view() + bodies(page.deep_view()),
{
    let ghost before = out.deep_view();
    let ghost all = page.deep_view();
    let mut i: usize = 0;
    assert(before + bodies(all).take(0) =~= before);
    while i < page.len()
        invariant
            all == page.deep_view(),
            i <= page.len(),
            out.deep_view() == before + bodies(all).take(i as int),
        decreases page.len() - i,
    {
        assert(all[i as int] == page[i as int].deep_view());
        push_item(out, page[i].body.dup());
        assert(out.deep_view() =~= before + bodies(all).take(i as int + 1));
        i = i + 1;
    }
    assert(bodies(all).take(i as int) =~= bodies(all));
}

/// The bodies of all pages of comments.
pub fn bodies_of(pages: &Vec<Vec<IssueCommentJson>>) -> (r: Vec<String>)
    ensures
        r.deep_view() == all_bodies(pages.deep_view()),
{
    let ghost all = pages.deep_view();
    let mut out: Vec<String> = Vec::new();
    let mut i: usize = 0;
    assert(out.deep_view() =~= all_bodies(all.take(0)));
    while i < pages.len()
        invariant
            all == pages.deep_view(),
            i <= pages.len(),
            out.deep_view() == all_bodies(all.take(i as int)),
        decreases pages.len() - i,
    {
        assert(all.take(i as int + 1).drop_last() =~= all.take(i as int));
        assert(all[i as int] == pages[i as int].deep_view());
        add_bodies(&mut out, &pages[i]);
        i = i + 1;
    }
    assert(all.take(i as int) =~= all);
    out
}

/// Whether some body holds a text.
pub open spec fn some_body_holds(rows: Seq<Seq<char>>, marker: Seq<char>) -> bool {
    exists|i: int| 0 <= i < rows.len() && text::holds_text(#[trigger] rows[i], marker)
}

/// Whether some body holds a text.
pub fn any_body_holds(rows: &Vec<String>, marker: &str) -> (r: bool)
    ensures
        r == some_body_holds(rows.deep_view(), marker@),
{
    let ghost all = rows.deep_view();
    let mut i: usize = 0;
    while i < rows.len()
        invariant
            all == rows.deep_view(),
            i <= rows.len(),
            forall|j: int| 0 <= j < i ==> !text::holds_text(#[trigger] all[j], marker@),
        decreases rows.len() - i,
    {
        assert(all[i as int] == rows[i as int]@);
        if text_contains(rows[i].as_str(), marker) {
            return true;
        }
        i = i + 1;
    }
    false
}

/// The last body that explains a control label transition.
pub open spec fn latest_audit(rows: Seq<Seq<char>>) -> Option<Seq<char>>
    decreases rows.len(),
{
    if rows.len() == 0 {
        None
    } else if text::holds_text(rows.last(), "<!-- caravan-control-label-audit:"@) {
        Some(rows.last())
    } else {
        latest_audit(rows.drop_last())
    }
}

/// Whether a transition is explained on a pull request: some comment holds its
/// marker, or the last explanation is of the same operation on the same head
/// and led to the same labels.
pub open spec fn explained(
    rows: Seq<Seq<char>>,
    audit: ControlLabelAuditView,
    number: PrNumber,
    head_oid: Seq<char>,
) -> bool {
    some_body_holds(rows, audit.shown_marker()) || match latest_audit(rows) {
        None => false,
        Some(body) => text::holds_text(
            body,
            "<!-- caravan-control-label-audit:v2:"@ + audit.operation + ":"@ + model::pr_text(
                number,
            ) + ":"@ + head_oid + ":"@,
        ) && text::holds_text(body, " → `"@ + text::joined(audit.after_labels, ", "@) + "`"@),
    }
}

/// An exact retry finds its explanation: once the explanation of a transition
/// stands among the comments, the transition is explained whatever follows.
pub proof fn lemma_posted_is_explained(
    before: Seq<Seq<char>>,
    audit: ControlLabelAuditView,
    after: Seq<Seq<char>>,
    number: PrNumber,
    head_oid: Seq<char>,
)
    ensures
        explained(before.push(audit.shown()) + after, audit, number, head_oid),
{
    let rows = before.push(audit.shown()) + after;
    let marker = audit.shown_marker();
    assert(rows[before.len() as int] == audit.shown());
    assert(text::occurs_at(audit.shown(), marker, 0)) by {
        assert(audit.shown().subrange(0, marker.len() as int) =~= marker);
    }
    assert(text::holds_text(rows[before.len() as int], marker));
}

/// Whether a transition is explained on a pull request.
pub fn already_explained(
    rows: &Vec<String>,
    audit: &ControlLabelAudit,
    number: PrNumber,
    head_oid: &CommitOid,
) -> (r: bool)
    ensures
        r == explained(rows.deep_view(), audit.deep_view(), number, head_oid.deep_view()),
{
    let marker = audit.visible_marker();
    if any_body_holds(rows, marker.as_str()) {
        return true;
    }
    let ghost all = rows.deep_view();
    let mut i: usize = rows.len();
    assert(all.take(i as int) =~= all);
    while i > 0 && !text_contains(rows[i - 1].as_str(), "<!-- caravan-control-label-audit:")
        invariant
            all == rows.deep_view(),
            i <= rows.len(),
            latest_audit(all) == latest_audit(all.take(i as int)),
        decreases i,
    {
        assert(all.take(i as int).drop_last() =~= all.take(i - 1));
        assert(all.take(i as int).last() == rows[i - 1]@);
        i = i - 1;
    }
    if i == 0 {
        return false;
    }
    assert(all.take(i as int).last() == rows[i - 1]@);
    let body = rows[i - 1].as_str();
    let prefix = "<!-- caravan-control-label-audit:v2:".to_owned().concat(
        audit.operation.as_str(),
    ).concat(":").concat(number.to_text().as_str()).concat(":").concat(
        head_oid.0.as_str(),
    ).concat(":");
    let after = " → `".to_owned().concat(
        join(&audit.after_labels.to_list(), ", ").as_str(),
    ).concat("`");
    text_contains(body, prefix.as_str()) && text_contains(body, after.as_str())
}

/// Posting a comment and reading the pull request back may end so. Where the
/// provider shows nothing, the marker stands for the comment.
pub open spec fn commented<R: CommandRunner>(
    runner: R,
    repository: RepositoryIdView,
    number: PrNumber,
    before: PullRequestSnapshotView,
    marker: Seq<char>,
    body: Seq<char>,
    outcome: Result<GitHubMutationReceiptView, MutationErrorView>,
) -> bool {
    let comment = commands::comment_pull_request(repository, number, body);
    exists|sent: Sent| #[trigger]
        command::was_sent(runner, comment, sent) && match pr_operations::shown_by(
            comment,
            sent.answer(),
        ) {
            Err(error) => outcome == Err::<GitHubMutationReceiptView, _>(error),
            Ok(shown) => adapter::read_back(
                command::after(&runner, &sent),
                repository,
                model::pr_text(number),
                MutationKind::Comment,
                Some(before),
                Some(
                    match adapter::shown_output(shown) {
                        Some(value) => value,
                        None => marker,
                    },
                ),
                outcome,
            ),
        }
}

/// Posting a comment unless it is there already may end so.
pub open spec fn comment_ensured<R: CommandRunner>(
    runner: R,
    repository: RepositoryIdView,
    number: PrNumber,
    before: PullRequestSnapshotView,
    marker: Seq<char>,
    body: Seq<char>,
    present: bool,
    outcome: Result<GitHubMutationReceiptView, MutationErrorView>,
) -> bool {
    if present {
        adapter::read_back(
            runner,
            repository,
            model::pr_text(number),
            MutationKind::Comment,
            Some(before),
            Some("existing GitHub comment "@ + marker),
            outcome,
        )
    } else {
        commented(runner, repository, number, before, marker, body, outcome)
    }
}

/// Reading the comments of a pull request may end so.
pub open spec fn comments_read<R: CommandRunner>(
    runner: R,
    repository: RepositoryIdView,
    number: PrNumber,
    outcome: Result<Seq<Seq<char>>, MutationErrorView>,
) -> bool {
    exists|pages: Result<Seq<Seq<IssueCommentJsonView>>, MutationErrorView>| #[trigger]
        adapter::got::<R, Vec<Vec<IssueCommentJson>>>(
            runner,
            commands::issue_comments(repository, number),
            pages,
        ) && outcome == adapter::mapped(
            pages,
            |rows: Seq<Seq<IssueCommentJsonView>>| all_bodies(rows),
        )
}

// ---------------------------------------------------------------------------
// Label and auto-merge in one request
// ---------------------------------------------------------------------------

/// Whether the label must change.
pub open spec fn label_must_change(
    before: PullRequestSnapshotView,
    label: Seq<char>,
    desired: bool,
) -> bool {
    before.has_label(label) != desired
}

/// Whether auto-merge must be armed.
pub open spec fn must_arm(before: PullRequestSnapshotView, ensure_squash: bool) -> bool {
    ensure_squash && !model::squash_armed(before.auto_merge)
}

/// The nodes of a force transition, or what is missing.
pub open spec fn force_nodes(
    ids: ForceTransactionIdsResponseView,
    number: PrNumber,
    label: Seq<char>,
    label_change: bool,
) -> Result<(Seq<char>, Option<Seq<char>>), MutationErrorView> {
    match ids.data.repository.pull_request {
        None => Err(
            MutationErrorView::MissingProviderResource {
                resource: "pull_request:"@ + model::pr_text(number),
            },
        ),
        Some(pull) => if !label_change {
            Ok((pull.id, None))
        } else {
            match ids.data.repository.label {
                None => Err(
                    MutationErrorView::MissingProviderResource { resource: "label:"@ + label },
                ),
                Some(node) => Ok((pull.id, Some(node.id))),
            }
        },
    }
}

/// The nodes of a force transition, or what is missing.
pub fn pick_force_nodes(
    ids: ForceTransactionIdsResponse,
    number: PrNumber,
    label: &str,
    label_change: bool,
) -> (r: Result<(String, Option<String>), MutationError>)
    ensures
        adapter::outcome_view(r) == force_nodes(ids.deep_view(), number, label@, label_change),
{
    match ids.data.repository.pull_request {
        None => Err(
            MutationError::MissingProviderResource {
                resource: "pull_request:".to_owned().concat(number.to_text().as_str()),
            },
        ),
        Some(pull) => if !label_change {
            Ok((pull.id, None))
        } else {
            match ids.data.repository.label {
                None => Err(
                    MutationError::MissingProviderResource {
                        resource: "label:".to_owned().concat(label),
                    },
                ),
                Some(node) => Ok((pull.id, Some(node.id))),
            }
        },
    }
}

/// What a failed request said.
pub open spec fn force_error(output: CommandOutputView) -> Option<Seq<char>> {
    if output.succeeded() {
        None
    } else {
        Some(
            "status "@ + provider::status_text(output.code) + ": "@ + text::excerpt(output.stderr),
        )
    }
}

/// What the facts read after a force transition prove: the whole
/// postcondition, or an incomplete transition with both sides as evidence.
pub open spec fn force_outcome(
    before: PullRequestSnapshotView,
    after: PullRequestSnapshotView,
    label: Seq<char>,
    desired: bool,
    ensure_squash: bool,
    output: CommandOutputView,
) -> Result<(GitHubMutationReceiptView, bool), MutationErrorView> {
    if after.has_label(label) != desired || (ensure_squash && !model::squash_armed(
        after.auto_merge,
    )) {
        Err(
            MutationErrorView::AtomicTransactionIncomplete {
                operation: "label_and_squash_auto_merge"@,
                before,
                after,
                desired_label_present: desired,
                desired_squash_auto_merge: ensure_squash,
                provider_error: force_error(output),
            },
        )
    } else {
        Ok(
            (
                GitHubMutationReceiptView {
                    kind: MutationKind::ForceIntentTransaction,
                    before: Some(before),
                    after,
                    provider_output: match force_error(output) {
                        Some(error) => Some(
                            "provider reported `"@ + error
                                + "`, but exact refetch proved the complete postcondition"@,
                        ),
                        None => {
                            let value = text::trimmed(output.stdout);
                            if value.len() == 0 {
                                None
                            } else {
                                Some(text::excerpt(value))
                            }
                        },
                    },
                },
                true,
            ),
        )
    }
}

/// What the facts read after a force transition prove.
pub fn judge_force(
    before: PullRequestSnapshot,
    after: PullRequestSnapshot,
    label: &str,
    desired: bool,
    ensure_squash: bool,
    output: &CommandOutput,
) -> (r: Result<(GitHubMutationReceipt, bool), MutationError>)
    ensures
        adapter::outcome_view(r) == force_outcome(
            before.deep_view(),
            after.deep_view(),
            label@,
            desired,
            ensure_squash,
            output.deep_view(),
        ),
{
    let converged = after.has_label(label) == desired && (!ensure_squash
        || after.auto_merge.is_squash());
    let provider_error = if output.is_success() {
        None
    } else {
        Some(
            "status ".to_owned().concat(show_status(&output.code).as_str()).concat(": ").concat(
                diagnostic_excerpt(output.stderr.as_str()).as_str(),
            ),
        )
    };
    if !converged {
        return Err(
            MutationError::AtomicTransactionIncomplete {
                operation: "label_and_squash_auto_merge".to_owned(),
                before: Box::new(before),
                after: Box::new(after),
                desired_label_present: desired,
                desired_squash_auto_merge: ensure_squash,
                provider_error,
            },
        );
    }
    let provider_output = match provider_error {
        Some(error) => Some(
            "provider reported `".to_owned().concat(error.as_str()).concat(
                "`, but exact refetch proved the complete postcondition",
            ),
        ),
        None => {
            let value = trim(output.stdout.as_str());
            if value.as_str().is_empty() {
                None
            } else {
                Some(diagnostic_excerpt(value.as_str()))
            }
        },
    };
    Ok(
        (
            GitHubMutationReceipt {
                kind: MutationKind::ForceIntentTransaction,
                before: Some(before),
                after,
                provider_output,
            },
            true,
        ),
    )
}

/// Sending a force transition for nodes and reading the facts back may end
/// so. The facts are read once the request was answered.
pub open spec fn force_applied<R: CommandRunner>(
    runner: R,
    repository: RepositoryIdView,
    number: PrNumber,
    before: PullRequestSnapshotView,
    label: Seq<char>,
    desired: bool,
    ensure_squash: bool,
    nodes: (Seq<char>, Option<Seq<char>>),
    outcome: Result<(GitHubMutationReceiptView, bool), MutationErrorView>,
) -> bool {
    exists|sent: Sent| #[trigger]
        command::was_sent(
            runner,
            commands::force_transaction(
                nodes.0,
                nodes.1,
                desired,
                must_arm(before, ensure_squash),
            ),
            sent,
        ) && match sent.answer() {
            Err(error) => outcome == Err::<(GitHubMutationReceiptView, bool), _>(
                MutationErrorView::Provider(DiscoveryErrorView::Runner(error)),
            ),
            Ok(output) => force_judged(
                command::after(&runner, &sent),
                repository,
                number,
                before,
                label,
                desired,
                ensure_squash,
                output,
                outcome,
            ),
        }
}

/// Reading the facts back after a force transition may end so.
pub open spec fn force_judged<R: CommandRunner>(
    runner: R,
    repository: RepositoryIdView,
    number: PrNumber,
    before: PullRequestSnapshotView,
    label: Seq<char>,
    desired: bool,
    ensure_squash: bool,
    output: CommandOutputView,
    outcome: Result<(GitHubMutationReceiptView, bool), MutationErrorView>,
) -> bool {
    exists|after: Result<PullRequestSnapshotView, MutationErrorView>| #[trigger]
        adapter::refetched(runner, repository, model::pr_text(number), after) && outcome
            == match after {
            Err(error) => Err(error),
            Ok(snapshot) => force_outcome(before, snapshot, label, desired, ensure_squash, output),
        }
}

/// A force transition that has something to change may end so.
pub open spec fn force_sent<R: CommandRunner>(
    runner: R,
    repository: RepositoryIdView,
    number: PrNumber,
    before: PullRequestSnapshotView,
    label: Seq<char>,
    desired: bool,
    ensure_squash: bool,
    outcome: Result<(GitHubMutationReceiptView, bool), MutationErrorView>,
) -> bool {
    exists|ids: Result<ForceTransactionIdsResponseView, MutationErrorView>| #[trigger]
        adapter::got::<R, ForceTransactionIdsResponse>(
            runner,
            commands::force_transaction_ids(repository, number, label),
            ids,
        ) && match ids {
            Err(error) => outcome == Err::<(GitHubMutationReceiptView, bool), _>(error),
            Ok(found) => match force_nodes(
                found,
                number,
                label,
                label_must_change(before, label, desired),
            ) {
                Err(error) => outcome == Err::<(GitHubMutationReceiptView, bool), _>(error),
                Ok(nodes) => force_applied(
                    runner,
                    repository,
                    number,
                    before,
                    label,
                    desired,
                    ensure_squash,
                    nodes,
                    outcome,
                ),
            },
        }
}

/// A force transition may end so.
pub open spec fn forced<R: CommandRunner>(
    runner: R,
    repository: RepositoryIdView,
    expected: PullRequestPreconditionView,
    label: Seq<char>,
    desired: bool,
    ensure_squash: bool,
    outcome: Result<(GitHubMutationReceiptView, bool), MutationErrorView>,
) -> bool {
    exists|before: Result<PullRequestSnapshotView, MutationErrorView>| #[trigger]
        adapter::verified(runner, repository, expected, true, before) && match before {
            Err(error) => outcome == Err::<(GitHubMutationReceiptView, bool), _>(error),
            Ok(snapshot) => if !label_must_change(snapshot, label, desired) && !must_arm(
                snapshot,
                ensure_squash,
            ) {
                outcome == Ok::<_, MutationErrorView>(
                    (
                        GitHubMutationReceiptView {
                            kind: MutationKind::ForceIntentTransaction,
                            before: Some(snapshot),
                            after: snapshot,
                            provider_output: Some(
                                "atomic provider force postcondition already satisfied"@,
                            ),
                        },
                        false,
                    ),
                )
            } else {
                force_sent(
                    runner,
                    repository,
                    expected.number,
                    snapshot,
                    label,
                    desired,
                    ensure_squash,
                    outcome,
                )
            },
        }
}

/// A force transition that succeeds has left the desired label state, and
/// auto-merge armed with a squash where that was asked for.
pub proof fn lemma_forced_postcondition<R: CommandRunner>(
    runner: R,
    repository: RepositoryIdView,
    expected: PullRequestPreconditionView,
    label: Seq<char>,
    desired: bool,
    ensure_squash: bool,
    outcome: Result<(GitHubMutationReceiptView, bool), MutationErrorView>,
)
    requires
        forced(runner, repository, expected, label, desired, ensure_squash, outcome),
        outcome is Ok,
    ensures
        outcome->Ok_0.0.after.has_label(label) == desired,
        ensure_squash ==> model::squash_armed(outcome->Ok_0.0.after.auto_merge),
{
}

// ---------------------------------------------------------------------------
// Merging as an administrator
// ---------------------------------------------------------------------------

/// An administrator merge may end so.
pub open spec fn admin_merged<R: CommandRunner>(
    runner: R,
    repository: RepositoryIdView,
    expected: PullRequestPreconditionView,
    outcome: Result<GitHubMutationReceiptView, MutationErrorView>,
) -> bool {
    exists|permission: Result<Seq<char>, MutationErrorView>| #[trigger]
        adapter::permitted(runner, repository, permission) && match permission {
            Err(error) => outcome == Err::<GitHubMutationReceiptView, _>(error),
            Ok(actual) => if actual != "ADMIN"@ {
                outcome == Err::<GitHubMutationReceiptView, _>(
                    MutationErrorView::PermissionDenied { required: "ADMIN"@, actual },
                )
            } else {
                adapter::mutated(
                    runner,
                    repository,
                    expected,
                    MutationKind::SquashMerge,
                    commands::admin_squash_merge(repository, expected.number),
                    outcome,
                )
            },
        }
}

/// An administrator merge succeeds only for an actor whom the provider reports
/// as an administrator, and is guarded as every operation is.
pub proof fn lemma_admin_merge_needs_admin<R: CommandRunner>(
    runner: R,
    repository: RepositoryIdView,
    expected: PullRequestPreconditionView,
    outcome: Result<GitHubMutationReceiptView, MutationErrorView>,
)
    requires
        admin_merged(runner, repository, expected, outcome),
        outcome is Ok,
    ensures
        adapter::permitted(runner, repository, Ok("ADMIN"@)),
        adapter::mutated(
            runner,
            repository,
            expected,
            MutationKind::SquashMerge,
            commands::admin_squash_merge(repository, expected.number),
            outcome,
        ),
{
}

// ---------------------------------------------------------------------------
// What may be run
// ---------------------------------------------------------------------------

/// What an administrator merge may run: the read of the permission, and the
/// guarded merge once that read named an administrator.
pub open spec fn may_admin_merge<R: CommandRunner>(
    runner: R,
    repository: RepositoryIdView,
    expected: PullRequestPreconditionView,
) -> bool {
    &&& runner.allows(commands::repository_permission(repository))
    &&& adapter::permitted(runner, repository, Ok("ADMIN"@)) ==> adapter::may_mutate(
        runner,
        repository,
        expected,
        commands::admin_squash_merge(repository, expected.number),
    )
}

/// What the creation of a pull request may run: the creation, and the read of
/// the address that it showed.
pub open spec fn may_create<R: CommandRunner>(
    runner: R,
    repository: RepositoryIdView,
    input: CreatePullRequestInputView,
) -> bool {
    let creation = commands::create_pull_request(
        repository,
        input.head,
        input.base,
        input.draft,
    );
    &&& runner.allows(creation)
    &&& forall|sent: Sent| #[trigger]
        command::was_sent(runner, creation, sent) && sent.answer() is Ok && created_url(
            sent.answer()->Ok_0,
        ) is Ok ==> runner.allows(
            commands::pull_request(repository, created_url(sent.answer()->Ok_0)->Ok_0),
        )
}

/// What a comment may run: the read of the pull request, the read of its
/// comments once the precondition was met, and the comment once they were read
/// and do not hold it.
pub open spec fn may_comment<R: CommandRunner>(
    runner: R,
    repository: RepositoryIdView,
    expected: PullRequestPreconditionView,
    body: Seq<char>,
    present: spec_fn(Seq<Seq<char>>) -> bool,
) -> bool {
    &&& runner.allows(commands::pull_request(repository, model::pr_text(expected.number)))
    &&& forall|seen: PullRequestSnapshotView| #[trigger]
        adapter::verified(runner, repository, expected, false, Ok(seen)) ==> may_comment_on(
            runner,
            repository,
            expected.number,
            body,
            present,
        )
}

/// What a comment may run once its precondition was met.
pub open spec fn may_comment_on<R: CommandRunner>(
    runner: R,
    repository: RepositoryIdView,
    number: PrNumber,
    body: Seq<char>,
    present: spec_fn(Seq<Seq<char>>) -> bool,
) -> bool {
    &&& runner.allows(commands::issue_comments(repository, number))
    &&& forall|rows: Seq<Seq<char>>| #[trigger]
        comments_read(runner, repository, number, Ok(rows)) && !present(rows) ==> runner.allows(
            commands::comment_pull_request(repository, number, body),
        )
}

/// What a force transition may run: the read of the pull request, and the rest
/// once the precondition was met, checks included, by facts that leave
/// something to change.
pub open spec fn may_force<R: CommandRunner>(
    runner: R,
    repository: RepositoryIdView,
    expected: PullRequestPreconditionView,
    label: Seq<char>,
    desired: bool,
    ensure_squash: bool,
) -> bool {
    &&& runner.allows(commands::pull_request(repository, model::pr_text(expected.number)))
    &&& forall|seen: PullRequestSnapshotView| #[trigger]
        adapter::verified(runner, repository, expected, true, Ok(seen)) && (label_must_change(
            seen,
            label,
            desired,
        ) || must_arm(seen, ensure_squash)) ==> may_send_force(
            runner,
            repository,
            expected.number,
            seen,
            label,
            desired,
            ensure_squash,
        )
}

/// What a force transition with something to change may run: the read of the
/// nodes, the transition of the nodes that were read, and the read of the pull
/// request.
pub open spec fn may_send_force<R: CommandRunner>(
    runner: R,
    repository: RepositoryIdView,
    number: PrNumber,
    before: PullRequestSnapshotView,
    label: Seq<char>,
    desired: bool,
    ensure_squash: bool,
) -> bool {
    let ids = commands::force_transaction_ids(repository, number, label);
    let label_change = label_must_change(before, label, desired);
    &&& runner.allows(ids)
    &&& runner.allows(commands::pull_request(repository, model::pr_text(number)))
    &&& forall|found: ForceTransactionIdsResponseView| #[trigger]
        adapter::got::<R, ForceTransactionIdsResponse>(runner, ids, Ok(found)) && force_nodes(
            found,
            number,
            label,
            label_change,
        ) is Ok ==> runner.allows(
            commands::force_transaction(
                force_nodes(found, number, label, label_change)->Ok_0.0,
                force_nodes(found, number, label, label_change)->Ok_0.1,
                desired,
                must_arm(before, ensure_squash),
            ),
        )
}

impl<R: CommandRunner> GitHubMutationAdapter<R> {
    /// Squashes one pull request as an ordinary actor. The provider fences the
    /// exact head, so a generation that moved cannot be merged.
    pub fn squash_merge(&self, repository: &RepositoryId, expected: &PullRequestPrecondition) -> (r:
        Result<GitHubMutationReceipt, MutationError>)
        requires
            adapter::may_mutate(
                self.runner,
                repository.deep_view(),
                expected.deep_view(),
                commands::squash_merge(
                    repository.deep_view(),
                    expected.number,
                    expected.deep_view().head_oid,
                ),
            ),
        ensures
            adapter::mutated(
                self.runner,
                repository.deep_view(),
                expected.deep_view(),
                MutationKind::SquashMerge,
                commands::squash_merge(
                    repository.deep_view(),
                    expected.number,
                    expected.deep_view().head_oid,
                ),
                adapter::outcome_view(r),
            ),
    {
        self.mutate_pull_request(
            repository,
            expected,
            MutationKind::SquashMerge,
            &squash_merge_command(repository, expected.number, &expected.head_oid),
        )
    }

    /// Squashes one pull request, only if the actor is an administrator.
    pub fn admin_squash_merge(
        &self,
        repository: &RepositoryId,
        expected: &PullRequestPrecondition,
    ) -> (r: Result<GitHubMutationReceipt, MutationError>)
        requires
            may_admin_merge(self.runner, repository.deep_view(), expected.deep_view()),
        ensures
            admin_merged(
                self.runner,
                repository.deep_view(),
                expected.deep_view(),
                adapter::outcome_view(r),
            ),
    {
        let permission = self.viewer_permission(repository);
        assert(adapter::permitted(
            self.runner,
            repository.deep_view(),
            adapter::outcome_view(permission),
        ));
        match permission {
            Err(error) => Err(error),
            Ok(actual) => if !text_eq(actual.as_str(), "ADMIN") {
                Err(MutationError::PermissionDenied { required: "ADMIN".to_owned(), actual })
            } else {
                self.mutate_pull_request(
                    repository,
                    expected,
                    MutationKind::SquashMerge,
                    &admin_squash_merge_command(repository, expected.number),
                )
            },
        }
    }

    /// Whether a created pull request may be read: the command was its creation.
    pub open spec fn may_see_created(
        &self,
        repository: &RepositoryId,
        input: &CreatePullRequestInput,
        sent: &Sent,
    ) -> bool {
        let view = input.deep_view();
        &&& may_create(self.runner, repository.deep_view(), view)
        &&& command::was_sent(
            self.runner,
            commands::create_pull_request(
                repository.deep_view(),
                view.head,
                view.base,
                view.draft,
            ),
            *sent,
        )
    }

    /// Reading a created pull request by the address that its creation showed may
    /// end so.
    pub open spec fn seen_created(
        &self,
        repository: &RepositoryId,
        sent: &Sent,
        seen: &Result<PullRequestSnapshot, MutationError>,
    ) -> bool {
        sent.answer() is Ok && created_url(sent.answer()->Ok_0) is Ok ==> adapter::refetched(
            command::after(&self.runner, sent),
            repository.deep_view(),
            created_url(sent.answer()->Ok_0)->Ok_0,
            adapter::outcome_view(*seen),
        )
    }

    fn see_created(
        &self,
        repository: &RepositoryId,
        input: &CreatePullRequestInput,
        sent: &Sent,
    ) -> (r: Result<PullRequestSnapshot, MutationError>)
        requires
            self.may_see_created(repository, input, sent),
        ensures
            self.seen_created(repository, sent, &r),
    {
        match sent.reply() {
            Ok(output) => match url_of_creation(output) {
                Ok(url) => self.after(sent).refetch_selector(repository, url.as_str()),
                Err(error) => Err(error),
            },
            Err(error) => Err(MutationError::Provider(DiscoveryError::Runner(error.dup()))),
        }
    }

    /// Creates a pull request with a title and body from its commits, and
    /// reads it back.
    pub fn create_pull_request(
        &self,
        repository: &RepositoryId,
        input: &CreatePullRequestInput,
    ) -> (r: Result<GitHubMutationReceipt, MutationError>)
        requires
            may_create(self.runner, repository.deep_view(), input.deep_view()),
        ensures
            created(
                self.runner,
                repository.deep_view(),
                input.deep_view(),
                adapter::outcome_view(r),
            ),
    {
        let operation = PrCreation {
            command: create_pull_request_command(
                repository,
                input.head.as_str(),
                input.base.as_str(),
                input.draft,
            ),
        };
        let see = |sent: &Sent| -> (seen: Result<PullRequestSnapshot, MutationError>)
            requires
                self.may_see_created(repository, input, sent),
            ensures
                self.seen_created(repository, sent, &seen),
            { self.see_created(repository, input, sent) };
        perform(&self.runner, &operation, Ok(Granted), see)
    }

    /// Changes the base branch of a pull request.
    pub fn set_base(
        &self,
        repository: &RepositoryId,
        expected: &PullRequestPrecondition,
        base: &str,
    ) -> (r: Result<GitHubMutationReceipt, MutationError>)
        requires
            adapter::may_mutate(
                self.runner,
                repository.deep_view(),
                expected.deep_view(),
                commands::edit_pull_request(
                    repository.deep_view(),
                    expected.number,
                    "--base"@,
                    base@,
                ),
            ),
        ensures
            adapter::mutated(
                self.runner,
                repository.deep_view(),
                expected.deep_view(),
                MutationKind::SetBase,
                commands::edit_pull_request(
                    repository.deep_view(),
                    expected.number,
                    "--base"@,
                    base@,
                ),
                adapter::outcome_view(r),
            ),
    {
        self.mutate_pull_request(
            repository,
            expected,
            MutationKind::SetBase,
            &edit_pull_request_command(repository, expected.number, "--base", base),
        )
    }

    /// Adds a label.
    pub fn add_label(
        &self,
        repository: &RepositoryId,
        expected: &PullRequestPrecondition,
        label: &str,
    ) -> (r: Result<GitHubMutationReceipt, MutationError>)
        requires
            adapter::may_mutate(
                self.runner,
                repository.deep_view(),
                expected.deep_view(),
                commands::edit_pull_request(
                    repository.deep_view(),
                    expected.number,
                    "--add-label"@,
                    label@,
                ),
            ),
        ensures
            adapter::mutated(
                self.runner,
                repository.deep_view(),
                expected.deep_view(),
                MutationKind::AddLabel,
                commands::edit_pull_request(
                    repository.deep_view(),
                    expected.number,
                    "--add-label"@,
                    label@,
                ),
                adapter::outcome_view(r),
            ),
    {
        self.mutate_pull_request(
            repository,
            expected,
            MutationKind::AddLabel,
            &edit_pull_request_command(repository, expected.number, "--add-label", label),
        )
    }

    /// Removes a label.
    pub fn remove_label(
        &self,
        repository: &RepositoryId,
        expected: &PullRequestPrecondition,
        label: &str,
    ) -> (r: Result<GitHubMutationReceipt, MutationError>)
        requires
            adapter::may_mutate(
                self.runner,
                repository.deep_view(),
                expected.deep_view(),
                commands::edit_pull_request(
                    repository.deep_view(),
                    expected.number,
                    "--remove-label"@,
                    label@,
                ),
            ),
        ensures
            adapter::mutated(
                self.runner,
                repository.deep_view(),
                expected.deep_view(),
                MutationKind::RemoveLabel,
                commands::edit_pull_request(
                    repository.deep_view(),
                    expected.number,
                    "--remove-label"@,
                    label@,
                ),
                adapter::outcome_view(r),
            ),
    {
        self.mutate_pull_request(
            repository,
            expected,
            MutationKind::RemoveLabel,
            &edit_pull_request_command(repository, expected.number, "--remove-label", label),
        )
    }

    /// Arms auto-merge with a squash.
    pub fn enable_squash_auto_merge(
        &self,
        repository: &RepositoryId,
        expected: &PullRequestPrecondition,
    ) -> (r: Result<GitHubMutationReceipt, MutationError>)
        requires
            adapter::may_mutate(
                self.runner,
                repository.deep_view(),
                expected.deep_view(),
                commands::auto_merge(repository.deep_view(), expected.number, false),
            ),
        ensures
            adapter::mutated(
                self.runner,
                repository.deep_view(),
                expected.deep_view(),
                MutationKind::EnableAutoMerge,
                commands::auto_merge(repository.deep_view(), expected.number, false),
                adapter::outcome_view(r),
            ),
    {
        self.mutate_pull_request(
            repository,
            expected,
            MutationKind::EnableAutoMerge,
            &auto_merge_command(repository, expected.number, false),
        )
    }

    /// Disarms auto-merge.
    pub fn disable_auto_merge(
        &self,
        repository: &RepositoryId,
        expected: &PullRequestPrecondition,
    ) -> (r: Result<GitHubMutationReceipt, MutationError>)
        requires
            adapter::may_mutate(
                self.runner,
                repository.deep_view(),
                expected.deep_view(),
                commands::auto_merge(repository.deep_view(), expected.number, true),
            ),
        ensures
            adapter::mutated(
                self.runner,
                repository.deep_view(),
                expected.deep_view(),
                MutationKind::DisableAutoMerge,
                commands::auto_merge(repository.deep_view(), expected.number, true),
                adapter::outcome_view(r),
            ),
    {
        self.mutate_pull_request(
            repository,
            expected,
            MutationKind::DisableAutoMerge,
            &auto_merge_command(repository, expected.number, true),
        )
    }

    /// The bodies of the comments of a pull request, in provider order.
    pub fn pull_request_comment_bodies(
        &self,
        repository: &RepositoryId,
        number: PrNumber,
    ) -> (r: Result<Vec<String>, MutationError>)
        requires
            self.runner.allows(commands::issue_comments(repository.deep_view(), number)),
        ensures
            comments_read(
                self.runner,
                repository.deep_view(),
                number,
                adapter::outcome_view(r),
            ),
    {
        let pages = self.json::<Vec<Vec<IssueCommentJson>>>(
            &issue_comments_command(repository, number),
        );
        assert(adapter::got::<R, Vec<Vec<IssueCommentJson>>>(
            self.runner,
            commands::issue_comments(repository.deep_view(), number),
            adapter::outcome_view(pages),
        ));
        match pages {
            Err(error) => Err(error),
            Ok(rows) => Ok(bodies_of(&rows)),
        }
    }

    /// Posts a comment unless it is there already.
    pub fn ensure_comment(
        &self,
        repository: &RepositoryId,
        number: PrNumber,
        before: PullRequestSnapshot,
        marker: &str,
        body: &str,
        present: bool,
    ) -> (r: Result<GitHubMutationReceipt, MutationError>)
        requires
            self.runner.allows(commands::pull_request(repository.deep_view(), model::pr_text(number))),
            !present ==> self.runner.allows(
                commands::comment_pull_request(repository.deep_view(), number, body@),
            ),
        ensures
            comment_ensured(
                self.runner,
                repository.deep_view(),
                number,
                before.deep_view(),
                marker@,
                body@,
                present,
                adapter::outcome_view(r),
            ),
    {
        if present {
            let selector = number.to_text();
            let provider_output = "existing GitHub comment ".to_owned().concat(marker);
            return self.finish(
                repository,
                selector.as_str(),
                MutationKind::Comment,
                Some(before),
                Some(provider_output),
            );
        }
        let operation = PrComment {
            command: comment_pull_request_command(repository, number, body),
            marker: marker.to_owned(),
        };
        let see = |sent: &Sent| -> (seen: Result<PullRequestSnapshot, MutationError>)
            requires
                self.runner.allows(
                    commands::pull_request(repository.deep_view(), model::pr_text(number)),
                ),
            ensures
                self.seen_back(repository, number, sent, &seen),
            { self.see_back(repository, number, sent) };
        perform(&self.runner, &operation, Ok(before), see)
    }

    /// Posts the explanation of a control label transition, unless the pull
    /// request shows it already.
    pub fn ensure_control_label_comment(
        &self,
        repository: &RepositoryId,
        expected: &PullRequestPrecondition,
        audit: &ControlLabelAudit,
    ) -> (r: Result<GitHubMutationReceipt, MutationError>)
        requires
            may_comment(
                self.runner,
                repository.deep_view(),
                expected.deep_view(),
                audit.deep_view().shown(),
                |rows: Seq<Seq<char>>|
                    explained(
                        rows,
                        audit.deep_view(),
                        expected.number,
                        expected.deep_view().head_oid,
                    ),
            ),
        ensures
            exists|before: Result<PullRequestSnapshotView, MutationErrorView>| #[trigger]
                adapter::verified(
                    self.runner,
                    repository.deep_view(),
                    expected.deep_view(),
                    false,
                    before,
                ) && match before {
                    Err(error) => adapter::outcome_view(r) == Err::<GitHubMutationReceiptView, _>(
                        error,
                    ),
                    Ok(snapshot) => audit_posted(
                        self.runner,
                        repository.deep_view(),
                        expected.deep_view(),
                        audit.deep_view(),
                        snapshot,
                        adapter::outcome_view(r),
                    ),
                },
    {
        let before = self.verify_precondition(repository, expected);
        assert(adapter::verified(
            self.runner,
            repository.deep_view(),
            expected.deep_view(),
            false,
            adapter::outcome_view(before),
        ));
        match before {
            Err(error) => Err(error),
            Ok(snapshot) => {
                let read = self.pull_request_comment_bodies(repository, expected.number);
                assert(comments_read(
                    self.runner,
                    repository.deep_view(),
                    expected.deep_view().number,
                    adapter::outcome_view(read),
                ));
                match read {
                    Err(error) => Err(error),
                    Ok(rows) => {
                        let present = already_explained(
                            &rows,
                            audit,
                            expected.number,
                            &expected.head_oid,
                        );
                        self.ensure_comment(
                            repository,
                            expected.number,
                            snapshot,
                            audit.visible_marker().as_str(),
                            audit.body().as_str(),
                            present,
                        )
                    },
                }
            },
        }
    }

    /// Posts a marked comment, unless some comment holds the marker already.
    pub fn ensure_marked_comment(
        &self,
        repository: &RepositoryId,
        expected: &PullRequestPrecondition,
        marker: &str,
        body: &str,
    ) -> (r: Result<GitHubMutationReceipt, MutationError>)
        requires
            may_comment(
                self.runner,
                repository.deep_view(),
                expected.deep_view(),
                body@,
                |rows: Seq<Seq<char>>| some_body_holds(rows, marker@),
            ),
        ensures
            exists|before: Result<PullRequestSnapshotView, MutationErrorView>| #[trigger]
                adapter::verified(
                    self.runner,
                    repository.deep_view(),
                    expected.deep_view(),
                    false,
                    before,
                ) && match before {
                    Err(error) => adapter::outcome_view(r) == Err::<GitHubMutationReceiptView, _>(
                        error,
                    ),
                    Ok(snapshot) => marked_posted(
                        self.runner,
                        repository.deep_view(),
                        expected.deep_view(),
                        marker@,
                        body@,
                        snapshot,
                        adapter::outcome_view(r),
                    ),
                },
    {
        let before = self.verify_precondition(repository, expected);
        assert(adapter::verified(
            self.runner,
            repository.deep_view(),
            expected.deep_view(),
            false,
            adapter::outcome_view(before),
        ));
        match before {
            Err(error) => Err(error),
            Ok(snapshot) => {
                let read = self.pull_request_comment_bodies(repository, expected.number);
                assert(comments_read(
                    self.runner,
                    repository.deep_view(),
                    expected.deep_view().number,
                    adapter::outcome_view(read),
                ));
                match read {
                    Err(error) => Err(error),
                    Ok(rows) => {
                        let present = any_body_holds(&rows, marker);
                        self.ensure_comment(
                            repository,
                            expected.number,
                            snapshot,
                            marker,
                            body,
                            present,
                        )
                    },
                }
            },
        }
    }

    /// Brings a label to a state and, if asked for, arms auto-merge with a
    /// squash, in one request. The provider may fail after it applied a part,
    /// so the facts are always read back: they prove the whole postcondition,
    /// or the error holds both sides of an incomplete transition.
    #[verifier::rlimit(40)]
    pub fn atomic_label_and_squash_auto_merge(
        &self,
        repository: &RepositoryId,
        expected: &PullRequestPrecondition,
        label: &str,
        desired_label_present: bool,
        ensure_squash_auto_merge: bool,
    ) -> (r: Result<(GitHubMutationReceipt, bool), MutationError>)
        requires
            may_force(
                self.runner,
                repository.deep_view(),
                expected.deep_view(),
                label@,
                desired_label_present,
                ensure_squash_auto_merge,
            ),
        ensures
            forced(
                self.runner,
                repository.deep_view(),
                expected.deep_view(),
                label@,
                desired_label_present,
                ensure_squash_auto_merge,
                adapter::outcome_view(r),
            ),
    {
        let goal = ForceGoal {
            number: expected.number,
            label: label.to_owned(),
            desired: desired_label_present,
            ensure_squash: ensure_squash_auto_merge,
        };
        let ghost repo = repository.deep_view();
        let ghost facts = expected.deep_view();
        let ghost aim = goal.deep_view();
        let mut at = ForceStep::Confirming;
        loop
            invariant
                repo == repository.deep_view(),
                facts == expected.deep_view(),
                aim == goal.deep_view(),
                aim.number == facts.number,
                aim.label == label@,
                aim.desired == desired_label_present,
                aim.ensure_squash == ensure_squash_auto_merge,
                may_force(
                    self.runner,
                    repo,
                    facts,
                    aim.label,
                    aim.desired,
                    aim.ensure_squash,
                ),
                force::force_explained(self.runner, repo, facts, aim, at),
            decreases 4 - at.deep_view().rank(),
        {
            at = match at {
                ForceStep::Done { outcome } => {
                    return outcome;
                },
                ForceStep::Confirming => {
                    let read = self.verify_precondition_with_checks(repository, expected);
                    assert(adapter::verified(
                        self.runner,
                        repo,
                        facts,
                        true,
                        adapter::outcome_view(read),
                    ));
                    ForceStep::Confirming.step(&goal, ForceEvent::Confirmed(read))
                },
                ForceStep::Resolving { before } => {
                    let read = self.json::<ForceTransactionIdsResponse>(
                        &force_transaction_ids_command(
                            repository,
                            goal.number,
                            goal.label.as_str(),
                        ),
                    );
                    assert(adapter::got::<R, ForceTransactionIdsResponse>(
                        self.runner,
                        commands::force_transaction_ids(repo, aim.number, aim.label),
                        adapter::outcome_view(read),
                    ));
                    ForceStep::Resolving { before }.step(&goal, ForceEvent::Resolved(read))
                },
                ForceStep::Sending { before, pull, node } => self.send_force(
                    repository,
                    expected,
                    &goal,
                    before,
                    pull,
                    node,
                ),
                ForceStep::ReadingBack { before, output, sent } => self.read_force_back(
                    repository,
                    expected,
                    &goal,
                    before,
                    output,
                    sent,
                ),
            };
        }
    }

    /// Sends the request of a force transition.
    #[verifier::rlimit(40)]
    fn send_force(
        &self,
        repository: &RepositoryId,
        expected: &PullRequestPrecondition,
        goal: &ForceGoal,
        before: PullRequestSnapshot,
        pull: String,
        node: Option<String>,
    ) -> (r: ForceStep)
        requires
            goal.deep_view().number == expected.deep_view().number,
            may_force(
                self.runner,
                repository.deep_view(),
                expected.deep_view(),
                goal.deep_view().label,
                goal.deep_view().desired,
                goal.deep_view().ensure_squash,
            ),
            force::force_explained(
                self.runner,
                repository.deep_view(),
                expected.deep_view(),
                goal.deep_view(),
                (ForceStep::Sending { before, pull, node }),
            ),
        ensures
            r is ReadingBack || r is Done,
            force::force_explained(
                self.runner,
                repository.deep_view(),
                expected.deep_view(),
                goal.deep_view(),
                r,
            ),
    {
        let ghost repo = repository.deep_view();
        let ghost facts = expected.deep_view();
        let ghost aim = goal.deep_view();
        let ghost seen = before.deep_view();
        let ghost nodes = (pull@, node.deep_view());
        let arm = goal.ensure_squash && !before.auto_merge.is_squash();
        let command = force_transaction_command(pull.as_str(), node.dup(), goal.desired, arm);
        assert(force::nodes_explained(self.runner, repo, facts, aim, seen, nodes));
        let sent = send(&self.runner, command);
        assert(command::was_sent(
            self.runner,
            commands::force_transaction(
                nodes.0,
                nodes.1,
                aim.desired,
                must_arm(seen, aim.ensure_squash),
            ),
            sent,
        ));
        ForceStep::Sending { before, pull, node }.step(goal, ForceEvent::Answered(sent))
    }

    /// Reads the facts back after the request of a force transition.
    #[verifier::rlimit(40)]
    fn read_force_back(
        &self,
        repository: &RepositoryId,
        expected: &PullRequestPrecondition,
        goal: &ForceGoal,
        before: PullRequestSnapshot,
        output: CommandOutput,
        sent: Sent,
    ) -> (r: ForceStep)
        requires
            goal.deep_view().number == expected.deep_view().number,
            self.runner.allows(
                commands::pull_request(
                    repository.deep_view(),
                    model::pr_text(expected.deep_view().number),
                ),
            ),
            force::force_explained(
                self.runner,
                repository.deep_view(),
                expected.deep_view(),
                goal.deep_view(),
                (ForceStep::ReadingBack { before, output, sent }),
            ),
        ensures
            r is Done,
            force::force_explained(
                self.runner,
                repository.deep_view(),
                expected.deep_view(),
                goal.deep_view(),
                r,
            ),
    {
        let read = self.after(&sent).refetch_pull_request(repository, goal.number);
        assert(adapter::refetched(
            command::after(&self.runner, &sent),
            repository.deep_view(),
            model::pr_text(goal.deep_view().number),
            adapter::outcome_view(read),
        ));
        ForceStep::ReadingBack { before, output, sent }.step(goal, ForceEvent::ReadBack(read))
    }
}

/// Posting an explanation after its precondition was confirmed may end so.
pub open spec fn audit_posted<R: CommandRunner>(
    runner: R,
    repository: RepositoryIdView,
    expected: PullRequestPreconditionView,
    audit: ControlLabelAuditView,
    before: PullRequestSnapshotView,
    outcome: Result<GitHubMutationReceiptView, MutationErrorView>,
) -> bool {
    exists|read: Result<Seq<Seq<char>>, MutationErrorView>| #[trigger]
        comments_read(runner, repository, expected.number, read) && match read {
            Err(error) => outcome == Err::<GitHubMutationReceiptView, _>(error),
            Ok(rows) => comment_ensured(
                runner,
                repository,
                expected.number,
                before,
                audit.shown_marker(),
                audit.shown(),
                explained(rows, audit, expected.number, expected.head_oid),
                outcome,
            ),
        }
}

/// Posting a marked comment after its precondition was confirmed may end so.
pub open spec fn marked_posted<R: CommandRunner>(
    runner: R,
    repository: RepositoryIdView,
    expected: PullRequestPreconditionView,
    marker: Seq<char>,
    body: Seq<char>,
    before: PullRequestSnapshotView,
    outcome: Result<GitHubMutationReceiptView, MutationErrorView>,
) -> bool {
    exists|read: Result<Seq<Seq<char>>, MutationErrorView>| #[trigger]
        comments_read(runner, repository, expected.number, read) && match read {
            Err(error) => outcome == Err::<GitHubMutationReceiptView, _>(error),
            Ok(rows) => comment_ensured(
                runner,
                repository,
                expected.number,
                before,
                marker,
                body,
                some_body_holds(rows, marker),
                outcome,
            ),
        }
}

} // verus!
