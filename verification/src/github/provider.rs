//! Failures of provider access, and the reading of provider documents.

use vstd::prelude::*;
use vstd::string::*;
use crate::command;
use crate::command::{
    run, CommandOutput, CommandOutputView, CommandRunError, CommandRunErrorView, CommandRunner,
    CommandSpec, CommandSpecView, Reply,
};
use crate::json;
use crate::json::{parse, Decode, Json};
use crate::model;
use crate::model::{
    push_item, AutoMergeState, AutoMergeStateView, CheckSnapshot, CheckSnapshotView, CommitOid,
    LabelSet, Model, PrNumber, PullRequestSnapshot, PullRequestSnapshotView, PullRequestState,
};
use crate::text;
use crate::text::{decimal_text, diagnostic_excerpt, join, signed_text, trim};

verus! {

/// Bounded evidence from a provider document that did not decode.
#[derive(Debug, PartialEq, Eq)]
pub struct JsonDecodeEvidence {
    pub stdout: String,
    pub stderr: String,
}

/// The content of a [`JsonDecodeEvidence`].
#[verifier::ext_equal]
pub struct JsonDecodeEvidenceView {
    pub stdout: Seq<char>,
    pub stderr: Seq<char>,
}

impl DeepView for JsonDecodeEvidence {
    type V = JsonDecodeEvidenceView;

    open spec fn deep_view(&self) -> JsonDecodeEvidenceView {
        JsonDecodeEvidenceView {
            stdout: self.stdout.deep_view(),
            stderr: self.stderr.deep_view(),
        }
    }
}

impl Clone for JsonDecodeEvidence {
    fn clone(&self) -> (r: Self)
        ensures
            r.deep_view() == self.deep_view(),
    {
        self.dup()
    }
}

impl Model for JsonDecodeEvidence {
    fn same(&self, other: &Self) -> (r: bool) {
        self.stdout.same(&other.stdout)
            && self.stderr.same(&other.stderr)
    }

    fn dup(&self) -> (r: Self) {
        JsonDecodeEvidence {
            stdout: self.stdout.dup(),
            stderr: self.stderr.dup(),
        }
    }
}

/// Failure of a provider read.
#[derive(Debug, PartialEq, Eq)]
pub enum DiscoveryError {
    /// The runner could not finish a command.
    Runner(CommandRunError),
    /// A command returned a non-zero status.
    CommandFailed {
        command: CommandSpec,
        /// Exit code, absent when a signal ended the command.
        code: Option<i32>,
        /// Trimmed diagnostic output.
        stderr: String,
    },
    /// A successful command returned an unexpected document.
    InvalidJson {
        command: CommandSpec,
        message: String,
        evidence: Box<JsonDecodeEvidence>,
    },
    /// The repository has no default branch.
    MissingDefaultBranch,
    /// A repository slug was not `owner/name`.
    InvalidRepositorySlug(String),
    /// More than one open pull request maps to the current branch.
    AmbiguousCurrentPullRequest {
        branch: String,
        candidates: Vec<u64>,
    },
    /// A branch that names historical state could not be mapped safely.
    HistoricalCurrentPullRequest {
        reason: String,
        branch: String,
        candidates: Vec<u64>,
    },
    /// A pull request has no resolvable head repository.
    MissingHeadRepository {
        pr: u64,
    },
    /// An active labelled pull request has a fork-only head branch.
    ForkOnlyHead {
        pr: u64,
        head_repository: String,
        base_repository: String,
    },
    /// A query limit was zero.
    InvalidLimit(String),
}

/// The content of a [`DiscoveryError`].
pub enum DiscoveryErrorView {
    Runner(CommandRunErrorView),
    CommandFailed {
        command: CommandSpecView,
        code: Option<i32>,
        stderr: Seq<char>,
    },
    InvalidJson {
        command: CommandSpecView,
        message: Seq<char>,
        evidence: JsonDecodeEvidenceView,
    },
    MissingDefaultBranch,
    InvalidRepositorySlug(Seq<char>),
    AmbiguousCurrentPullRequest {
        branch: Seq<char>,
        candidates: Seq<u64>,
    },
    HistoricalCurrentPullRequest {
        reason: Seq<char>,
        branch: Seq<char>,
        candidates: Seq<u64>,
    },
    MissingHeadRepository {
        pr: u64,
    },
    ForkOnlyHead {
        pr: u64,
        head_repository: Seq<char>,
        base_repository: Seq<char>,
    },
    InvalidLimit(Seq<char>),
}

impl DeepView for DiscoveryError {
    type V = DiscoveryErrorView;

    open spec fn deep_view(&self) -> DiscoveryErrorView {
        match self {
            DiscoveryError::Runner(x) => DiscoveryErrorView::Runner(x.deep_view()),
            DiscoveryError::CommandFailed {
                command,
                code,
                stderr,
            } => DiscoveryErrorView::CommandFailed {
                command: command.deep_view(),
                code: code.deep_view(),
                stderr: stderr.deep_view(),
            },
            DiscoveryError::InvalidJson {
                command,
                message,
                evidence,
            } => DiscoveryErrorView::InvalidJson {
                command: command.deep_view(),
                message: message.deep_view(),
                evidence: evidence.deep_view(),
            },
            DiscoveryError::MissingDefaultBranch => DiscoveryErrorView::MissingDefaultBranch,
            DiscoveryError::InvalidRepositorySlug(x) => DiscoveryErrorView::InvalidRepositorySlug(
                x.deep_view(),
            ),
            DiscoveryError::AmbiguousCurrentPullRequest { branch, candidates } => DiscoveryErrorView::AmbiguousCurrentPullRequest {
                branch: branch.deep_view(),
                candidates: candidates.deep_view(),
            },
            DiscoveryError::HistoricalCurrentPullRequest {
                reason,
                branch,
                candidates,
            } => DiscoveryErrorView::HistoricalCurrentPullRequest {
                reason: reason.deep_view(),
                branch: branch.deep_view(),
                candidates: candidates.deep_view(),
            },
            DiscoveryError::MissingHeadRepository { pr } => DiscoveryErrorView::MissingHeadRepository {
                pr: pr.deep_view(),
            },
            DiscoveryError::ForkOnlyHead {
                pr,
                head_repository,
                base_repository,
            } => DiscoveryErrorView::ForkOnlyHead {
                pr: pr.deep_view(),
                head_repository: head_repository.deep_view(),
                base_repository: base_repository.deep_view(),
            },
            DiscoveryError::InvalidLimit(x) => DiscoveryErrorView::InvalidLimit(x.deep_view()),
        }
    }
}

impl DiscoveryError {
    /// Another error of the same content.
    pub fn dup(&self) -> (r: Self)
        ensures
            r.deep_view() == self.deep_view(),
    {
        match self {
            DiscoveryError::Runner(x) => DiscoveryError::Runner(x.dup()),
            DiscoveryError::CommandFailed {
                command,
                code,
                stderr,
            } => DiscoveryError::CommandFailed {
                command: command.dup(),
                code: code.dup(),
                stderr: stderr.dup(),
            },
            DiscoveryError::InvalidJson {
                command,
                message,
                evidence,
            } => DiscoveryError::InvalidJson {
                command: command.dup(),
                message: message.dup(),
                evidence: evidence.dup(),
            },
            DiscoveryError::MissingDefaultBranch => DiscoveryError::MissingDefaultBranch,
            DiscoveryError::InvalidRepositorySlug(x) => DiscoveryError::InvalidRepositorySlug(
                x.dup(),
            ),
            DiscoveryError::AmbiguousCurrentPullRequest { branch, candidates } => DiscoveryError::AmbiguousCurrentPullRequest {
                branch: branch.dup(),
                candidates: candidates.dup(),
            },
            DiscoveryError::HistoricalCurrentPullRequest {
                reason,
                branch,
                candidates,
            } => DiscoveryError::HistoricalCurrentPullRequest {
                reason: reason.dup(),
                branch: branch.dup(),
                candidates: candidates.dup(),
            },
            DiscoveryError::MissingHeadRepository { pr } => DiscoveryError::MissingHeadRepository {
                pr: pr.dup(),
            },
            DiscoveryError::ForkOnlyHead {
                pr,
                head_repository,
                base_repository,
            } => DiscoveryError::ForkOnlyHead {
                pr: pr.dup(),
                head_repository: head_repository.dup(),
                base_repository: base_repository.dup(),
            },
            DiscoveryError::InvalidLimit(x) => DiscoveryError::InvalidLimit(x.dup()),
        }
    }
}

/// The facts of a pull request that a mutation relies on.
#[derive(Debug, PartialEq, Eq)]
pub struct PullRequestPrecondition {
    pub number: PrNumber,
    pub state: PullRequestState,
    pub head_oid: CommitOid,
    pub base_ref: String,
    pub base_oid: CommitOid,
    pub labels: LabelSet,
    pub checks: Vec<CheckSnapshot>,
    pub auto_merge: AutoMergeState,
}

/// The content of a [`PullRequestPrecondition`].
#[verifier::ext_equal]
pub struct PullRequestPreconditionView {
    pub number: PrNumber,
    pub state: PullRequestState,
    pub head_oid: Seq<char>,
    pub base_ref: Seq<char>,
    pub base_oid: Seq<char>,
    pub labels: Seq<Seq<char>>,
    pub checks: Seq<CheckSnapshotView>,
    pub auto_merge: AutoMergeStateView,
}

impl DeepView for PullRequestPrecondition {
    type V = PullRequestPreconditionView;

    open spec fn deep_view(&self) -> PullRequestPreconditionView {
        PullRequestPreconditionView {
            number: self.number.deep_view(),
            state: self.state.deep_view(),
            head_oid: self.head_oid.deep_view(),
            base_ref: self.base_ref.deep_view(),
            base_oid: self.base_oid.deep_view(),
            labels: self.labels.deep_view(),
            checks: self.checks.deep_view(),
            auto_merge: self.auto_merge.deep_view(),
        }
    }
}

impl Clone for PullRequestPrecondition {
    fn clone(&self) -> (r: Self)
        ensures
            r.deep_view() == self.deep_view(),
    {
        self.dup()
    }
}

impl Model for PullRequestPrecondition {
    fn same(&self, other: &Self) -> (r: bool) {
        self.number.same(&other.number)
            && self.state.same(&other.state)
            && self.head_oid.same(&other.head_oid)
            && self.base_ref.same(&other.base_ref)
            && self.base_oid.same(&other.base_oid)
            && self.labels.same(&other.labels)
            && self.checks.same(&other.checks)
            && self.auto_merge.same(&other.auto_merge)
    }

    fn dup(&self) -> (r: Self) {
        PullRequestPrecondition {
            number: self.number.dup(),
            state: self.state.dup(),
            head_oid: self.head_oid.dup(),
            base_ref: self.base_ref.dup(),
            base_oid: self.base_oid.dup(),
            labels: self.labels.dup(),
            checks: self.checks.dup(),
            auto_merge: self.auto_merge.dup(),
        }
    }
}

/// Failure of an optimistic provider primitive.
#[derive(Debug, PartialEq, Eq)]
pub enum MutationError {
    /// Command execution, document conversion, or provider failure.
    Provider(DiscoveryError),
    /// Fresh facts no longer match the caller's precondition.
    StalePrecondition {
        expected: Box<PullRequestPrecondition>,
        actual: Box<PullRequestPrecondition>,
        changed_fields: Vec<String>,
    },
    /// A creation succeeded without identifying the created pull request.
    MissingCreatedPullRequest {
        provider_output: String,
    },
    /// The actor cannot perform an administrator merge.
    PermissionDenied {
        required: String,
        actual: String,
    },
    /// A branch moved after an exact proof.
    BranchHeadMismatch {
        branch: String,
        expected: CommitOid,
        actual: CommitOid,
    },
    /// A workflow run is not associated with the selected pull request.
    RunPullRequestMismatch {
        run_id: u64,
        expected_pr: PrNumber,
        actual_prs: Vec<PrNumber>,
    },
    /// A workflow run belongs to another commit.
    RunHeadMismatch {
        run_id: u64,
        expected_head: String,
        actual_head: String,
    },
    /// A workflow run is not failed.
    RunNotFailed {
        run_id: u64,
        conclusion: String,
    },
    /// A check suite belongs to another commit.
    CheckSuiteHeadMismatch {
        check_suite_id: u64,
        expected_head: String,
        actual_head: String,
    },
    /// A single-request transition returned without its complete
    /// postcondition.
    AtomicTransactionIncomplete {
        operation: String,
        before: Box<PullRequestSnapshot>,
        after: Box<PullRequestSnapshot>,
        desired_label_present: bool,
        desired_squash_auto_merge: bool,
        provider_error: Option<String>,
    },
    /// A provider node that a mutation needs was absent.
    MissingProviderResource {
        resource: String,
    },
}

/// The content of a [`MutationError`].
pub enum MutationErrorView {
    Provider(DiscoveryErrorView),
    StalePrecondition {
        expected: PullRequestPreconditionView,
        actual: PullRequestPreconditionView,
        changed_fields: Seq<Seq<char>>,
    },
    MissingCreatedPullRequest {
        provider_output: Seq<char>,
    },
    PermissionDenied {
        required: Seq<char>,
        actual: Seq<char>,
    },
    BranchHeadMismatch {
        branch: Seq<char>,
        expected: Seq<char>,
        actual: Seq<char>,
    },
    RunPullRequestMismatch {
        run_id: u64,
        expected_pr: PrNumber,
        actual_prs: Seq<PrNumber>,
    },
    RunHeadMismatch {
        run_id: u64,
        expected_head: Seq<char>,
        actual_head: Seq<char>,
    },
    RunNotFailed {
        run_id: u64,
        conclusion: Seq<char>,
    },
    CheckSuiteHeadMismatch {
        check_suite_id: u64,
        expected_head: Seq<char>,
        actual_head: Seq<char>,
    },
    AtomicTransactionIncomplete {
        operation: Seq<char>,
        before: PullRequestSnapshotView,
        after: PullRequestSnapshotView,
        desired_label_present: bool,
        desired_squash_auto_merge: bool,
        provider_error: Option<Seq<char>>,
    },
    MissingProviderResource {
        resource: Seq<char>,
    },
}

impl DeepView for MutationError {
    type V = MutationErrorView;

    open spec fn deep_view(&self) -> MutationErrorView {
        match self {
            MutationError::Provider(x) => MutationErrorView::Provider(x.deep_view()),
            MutationError::StalePrecondition {
                expected,
                actual,
                changed_fields,
            } => MutationErrorView::StalePrecondition {
                expected: expected.deep_view(),
                actual: actual.deep_view(),
                changed_fields: changed_fields.deep_view(),
            },
            MutationError::MissingCreatedPullRequest { provider_output } => MutationErrorView::MissingCreatedPullRequest {
                provider_output: provider_output.deep_view(),
            },
            MutationError::PermissionDenied { required, actual } => MutationErrorView::PermissionDenied {
                required: required.deep_view(),
                actual: actual.deep_view(),
            },
            MutationError::BranchHeadMismatch {
                branch,
                expected,
                actual,
            } => MutationErrorView::BranchHeadMismatch {
                branch: branch.deep_view(),
                expected: expected.deep_view(),
                actual: actual.deep_view(),
            },
            MutationError::RunPullRequestMismatch {
                run_id,
                expected_pr,
                actual_prs,
            } => MutationErrorView::RunPullRequestMismatch {
                run_id: run_id.deep_view(),
                expected_pr: expected_pr.deep_view(),
                actual_prs: actual_prs.deep_view(),
            },
            MutationError::RunHeadMismatch {
                run_id,
                expected_head,
                actual_head,
            } => MutationErrorView::RunHeadMismatch {
                run_id: run_id.deep_view(),
                expected_head: expected_head.deep_view(),
                actual_head: actual_head.deep_view(),
            },
            MutationError::RunNotFailed { run_id, conclusion } => MutationErrorView::RunNotFailed {
                run_id: run_id.deep_view(),
                conclusion: conclusion.deep_view(),
            },
            MutationError::CheckSuiteHeadMismatch {
                check_suite_id,
                expected_head,
                actual_head,
            } => MutationErrorView::CheckSuiteHeadMismatch {
                check_suite_id: check_suite_id.deep_view(),
                expected_head: expected_head.deep_view(),
                actual_head: actual_head.deep_view(),
            },
            MutationError::AtomicTransactionIncomplete {
                operation,
                before,
                after,
                desired_label_present,
                desired_squash_auto_merge,
                provider_error,
            } => MutationErrorView::AtomicTransactionIncomplete {
                operation: operation.deep_view(),
                before: before.deep_view(),
                after: after.deep_view(),
                desired_label_present: desired_label_present.deep_view(),
                desired_squash_auto_merge: desired_squash_auto_merge.deep_view(),
                provider_error: provider_error.deep_view(),
            },
            MutationError::MissingProviderResource { resource } => MutationErrorView::MissingProviderResource {
                resource: resource.deep_view(),
            },
        }
    }
}

impl MutationError {
    /// Another error of the same content.
    pub fn dup(&self) -> (r: Self)
        ensures
            r.deep_view() == self.deep_view(),
    {
        match self {
            MutationError::Provider(x) => MutationError::Provider(x.dup()),
            MutationError::StalePrecondition {
                expected,
                actual,
                changed_fields,
            } => MutationError::StalePrecondition {
                expected: expected.dup(),
                actual: actual.dup(),
                changed_fields: changed_fields.dup(),
            },
            MutationError::MissingCreatedPullRequest { provider_output } => MutationError::MissingCreatedPullRequest {
                provider_output: provider_output.dup(),
            },
            MutationError::PermissionDenied { required, actual } => MutationError::PermissionDenied {
                required: required.dup(),
                actual: actual.dup(),
            },
            MutationError::BranchHeadMismatch {
                branch,
                expected,
                actual,
            } => MutationError::BranchHeadMismatch {
                branch: branch.dup(),
                expected: expected.dup(),
                actual: actual.dup(),
            },
            MutationError::RunPullRequestMismatch {
                run_id,
                expected_pr,
                actual_prs,
            } => MutationError::RunPullRequestMismatch {
                run_id: run_id.dup(),
                expected_pr: expected_pr.dup(),
                actual_prs: actual_prs.dup(),
            },
            MutationError::RunHeadMismatch {
                run_id,
                expected_head,
                actual_head,
            } => MutationError::RunHeadMismatch {
                run_id: run_id.dup(),
                expected_head: expected_head.dup(),
                actual_head: actual_head.dup(),
            },
            MutationError::RunNotFailed { run_id, conclusion } => MutationError::RunNotFailed {
                run_id: run_id.dup(),
                conclusion: conclusion.dup(),
            },
            MutationError::CheckSuiteHeadMismatch {
                check_suite_id,
                expected_head,
                actual_head,
            } => MutationError::CheckSuiteHeadMismatch {
                check_suite_id: check_suite_id.dup(),
                expected_head: expected_head.dup(),
                actual_head: actual_head.dup(),
            },
            MutationError::AtomicTransactionIncomplete {
                operation,
                before,
                after,
                desired_label_present,
                desired_squash_auto_merge,
                provider_error,
            } => MutationError::AtomicTransactionIncomplete {
                operation: operation.dup(),
                before: before.dup(),
                after: after.dup(),
                desired_label_present: desired_label_present.dup(),
                desired_squash_auto_merge: desired_squash_auto_merge.dup(),
                provider_error: provider_error.dup(),
            },
            MutationError::MissingProviderResource { resource } => MutationError::MissingProviderResource {
                resource: resource.dup(),
            },
        }
    }
}

// ---------------------------------------------------------------------------
// Messages
// ---------------------------------------------------------------------------

/// Numbers as a bracketed list.
pub open spec fn number_list(numbers: Seq<u64>) -> Seq<char> {
    "["@ + text::joined(
        Seq::new(numbers.len(), |i: int| text::decimal(numbers[i] as nat)),
        ", "@,
    ) + "]"@
}

fn show_numbers(numbers: &Vec<u64>) -> (r: String)
    ensures
        r@ == number_list(numbers.deep_view()),
{
    let ghost shown = Seq::new(
        numbers.deep_view().len(),
        |i: int| text::decimal(numbers.deep_view()[i] as nat),
    );
    let mut words: Vec<String> = Vec::new();
    let mut i: usize = 0;
    while i < numbers.len()
        invariant
            i <= numbers.len(),
            shown == Seq::new(
                numbers.deep_view().len(),
                |i: int| text::decimal(numbers.deep_view()[i] as nat),
            ),
            words.deep_view() == shown.take(i as int),
        decreases numbers.len() - i,
    {
        push_item(&mut words, decimal_text(numbers[i]));
        i = i + 1;
        assert(words.deep_view() =~= shown.take(i as int));
    }
    assert(words.deep_view() =~= shown);
    "[".to_owned().concat(join(&words, ", ").as_str()).concat("]")
}

/// Pull request numbers as a bracketed list.
pub open spec fn pr_list(prs: Seq<PrNumber>) -> Seq<char> {
    "["@ + text::joined(
        Seq::new(prs.len(), |i: int| "PrNumber("@ + model::pr_text(prs[i]) + ")"@),
        ", "@,
    ) + "]"@
}

pub fn show_prs(prs: &Vec<PrNumber>) -> (r: String)
    ensures
        r@ == pr_list(prs.deep_view()),
{
    let ghost shown = Seq::new(
        prs.deep_view().len(),
        |i: int| "PrNumber("@ + model::pr_text(prs.deep_view()[i]) + ")"@,
    );
    let mut words: Vec<String> = Vec::new();
    let mut i: usize = 0;
    while i < prs.len()
        invariant
            i <= prs.len(),
            shown == Seq::new(
                prs.deep_view().len(),
                |i: int| "PrNumber("@ + model::pr_text(prs.deep_view()[i]) + ")"@,
            ),
            words.deep_view() == shown.take(i as int),
        decreases prs.len() - i,
    {
        push_item(
            &mut words,
            "PrNumber(".to_owned().concat(prs[i].to_text().as_str()).concat(")"),
        );
        i = i + 1;
        assert(words.deep_view() =~= shown.take(i as int));
    }
    assert(words.deep_view() =~= shown);
    "[".to_owned().concat(join(&words, ", ").as_str()).concat("]")
}

/// An exit code, or the word for its absence.
pub open spec fn status_text(code: Option<i32>) -> Seq<char> {
    match code {
        Some(n) => text::signed_decimal(n as int),
        None => "signal"@,
    }
}

pub fn show_status(code: &Option<i32>) -> (r: String)
    ensures
        r@ == status_text(code.deep_view()),
{
    match code {
        Some(n) => signed_text(*n),
        None => "signal".to_owned(),
    }
}

impl DiscoveryErrorView {
    /// The message of the error.
    pub open spec fn message(self) -> Seq<char> {
        match self {
            DiscoveryErrorView::Runner(error) => error.message(),
            DiscoveryErrorView::CommandFailed { command, code, stderr } => "`"@ + command.shown()
                + "` failed with status "@ + status_text(code) + ": "@ + stderr,
            DiscoveryErrorView::InvalidJson { command, message, .. } => "`"@ + command.shown()
                + "` returned invalid JSON: "@ + message,
            DiscoveryErrorView::MissingDefaultBranch => "repository has no default branch"@,
            DiscoveryErrorView::InvalidRepositorySlug(slug) => "repository slug `"@ + slug
                + "` is not owner/name"@,
            DiscoveryErrorView::AmbiguousCurrentPullRequest { branch, candidates } => "branch `"@
                + branch + "` maps to multiple open pull requests: "@ + number_list(candidates),
            DiscoveryErrorView::HistoricalCurrentPullRequest { reason, branch, candidates } =>
                "historical branch `"@ + branch + "` is unsafe ("@ + reason + "); candidates: "@
                    + number_list(candidates),
            DiscoveryErrorView::MissingHeadRepository { pr } => "PR #"@ + text::decimal(pr as nat)
                + " has no resolvable head repository"@,
            DiscoveryErrorView::ForkOnlyHead { pr, head_repository, base_repository } =>
                "active labelled PR #"@ + text::decimal(pr as nat)
                    + " uses fork-only head repository `"@ + head_repository
                    + "`; Caravan predecessors must use `"@ + base_repository + "`"@,
            DiscoveryErrorView::InvalidLimit(name) => "discovery limit `"@ + name
                + "` must be positive"@,
        }
    }
}

impl DiscoveryError {
    /// The message of the error.
    pub fn to_text(&self) -> (r: String)
        ensures
            r@ == self.deep_view().message(),
    {
        match self {
            DiscoveryError::Runner(error) => error.to_text(),
            DiscoveryError::CommandFailed { command, code, stderr } => "`".to_owned().concat(
                command.display().as_str(),
            ).concat("` failed with status ").concat(show_status(code).as_str()).concat(
                ": ",
            ).concat(stderr.as_str()),
            DiscoveryError::InvalidJson { command, message, .. } => "`".to_owned().concat(
                command.display().as_str(),
            ).concat("` returned invalid JSON: ").concat(message.as_str()),
            DiscoveryError::MissingDefaultBranch => "repository has no default branch".to_owned(),
            DiscoveryError::InvalidRepositorySlug(slug) => "repository slug `".to_owned().concat(
                slug.as_str(),
            ).concat("` is not owner/name"),
            DiscoveryError::AmbiguousCurrentPullRequest { branch, candidates } =>
                "branch `".to_owned().concat(branch.as_str()).concat(
                    "` maps to multiple open pull requests: ",
                ).concat(show_numbers(candidates).as_str()),
            DiscoveryError::HistoricalCurrentPullRequest { reason, branch, candidates } =>
                "historical branch `".to_owned().concat(branch.as_str()).concat(
                    "` is unsafe (",
                ).concat(reason.as_str()).concat("); candidates: ").concat(
                    show_numbers(candidates).as_str(),
                ),
            DiscoveryError::MissingHeadRepository { pr } => "PR #".to_owned().concat(
                decimal_text(*pr).as_str(),
            ).concat(" has no resolvable head repository"),
            DiscoveryError::ForkOnlyHead { pr, head_repository, base_repository } =>
                "active labelled PR #".to_owned().concat(decimal_text(*pr).as_str()).concat(
                    " uses fork-only head repository `",
                ).concat(head_repository.as_str()).concat(
                    "`; Caravan predecessors must use `",
                ).concat(base_repository.as_str()).concat("`"),
            DiscoveryError::InvalidLimit(name) => "discovery limit `".to_owned().concat(
                name.as_str(),
            ).concat("` must be positive"),
        }
    }
}

/// A truth value as text.
pub open spec fn bool_text(b: bool) -> Seq<char> {
    if b {
        "true"@
    } else {
        "false"@
    }
}

fn show_bool(b: bool) -> (r: String)
    ensures
        r@ == bool_text(b),
{
    if b {
        "true".to_owned()
    } else {
        "false".to_owned()
    }
}

impl MutationErrorView {
    /// The message of the error.
    pub open spec fn message(self) -> Seq<char> {
        match self {
            MutationErrorView::Provider(error) => error.message(),
            MutationErrorView::StalePrecondition { changed_fields, .. } =>
                "pull-request precondition changed: "@ + text::joined(changed_fields, ", "@),
            MutationErrorView::MissingCreatedPullRequest { provider_output } =>
                "gh created a pull request but returned no PR URL: "@ + provider_output,
            MutationErrorView::PermissionDenied { required, actual } => "repository permission `"@
                + actual + "` cannot perform admin merge; `"@ + required + "` required"@,
            MutationErrorView::BranchHeadMismatch { branch, expected, actual } => "branch `"@
                + branch + "` moved from "@ + expected + " to "@ + actual + " after preflight"@,
            MutationErrorView::RunPullRequestMismatch { run_id, expected_pr, actual_prs } =>
                "workflow run "@ + text::decimal(run_id as nat) + " belongs to PRs "@ + pr_list(
                    actual_prs,
                ) + ", expected PR "@ + model::pr_text(expected_pr),
            MutationErrorView::RunHeadMismatch { run_id, expected_head, actual_head } =>
                "workflow run "@ + text::decimal(run_id as nat) + " belongs to "@ + actual_head
                    + ", expected "@ + expected_head,
            MutationErrorView::RunNotFailed { run_id, conclusion } => "workflow run "@
                + text::decimal(run_id as nat) + " is not failed (conclusion: "@ + conclusion
                + ")"@,
            MutationErrorView::CheckSuiteHeadMismatch {
                check_suite_id,
                expected_head,
                actual_head,
            } => "check suite "@ + text::decimal(check_suite_id as nat) + " belongs to "@
                + actual_head + ", expected unchanged head "@ + expected_head,
            MutationErrorView::AtomicTransactionIncomplete {
                operation,
                desired_label_present,
                desired_squash_auto_merge,
                provider_error,
                ..
            } => "atomic provider transaction `"@ + operation
                + "` did not converge (label_present="@ + bool_text(desired_label_present)
                + ", squash_auto_merge="@ + bool_text(desired_squash_auto_merge) + "): "@ + (
            match provider_error {
                Some(error) => error,
                None => "provider returned an incomplete postcondition"@,
            }),
            MutationErrorView::MissingProviderResource { resource } => "provider resource `"@
                + resource + "` is unavailable"@,
        }
    }
}

impl MutationError {
    /// The message of the error.
    pub fn to_text(&self) -> (r: String)
        ensures
            r@ == self.deep_view().message(),
    {
        match self {
            MutationError::Provider(error) => error.to_text(),
            MutationError::StalePrecondition { changed_fields, .. } =>
                "pull-request precondition changed: ".to_owned().concat(
                    join(changed_fields, ", ").as_str(),
                ),
            MutationError::MissingCreatedPullRequest { provider_output } =>
                "gh created a pull request but returned no PR URL: ".to_owned().concat(
                    provider_output.as_str(),
                ),
            MutationError::PermissionDenied { required, actual } =>
                "repository permission `".to_owned().concat(actual.as_str()).concat(
                    "` cannot perform admin merge; `",
                ).concat(required.as_str()).concat("` required"),
            MutationError::BranchHeadMismatch { branch, expected, actual } =>
                "branch `".to_owned().concat(branch.as_str()).concat("` moved from ").concat(
                    expected.0.as_str(),
                ).concat(" to ").concat(actual.0.as_str()).concat(" after preflight"),
            MutationError::RunPullRequestMismatch { run_id, expected_pr, actual_prs } =>
                "workflow run ".to_owned().concat(decimal_text(*run_id).as_str()).concat(
                    " belongs to PRs ",
                ).concat(show_prs(actual_prs).as_str()).concat(", expected PR ").concat(
                    expected_pr.to_text().as_str(),
                ),
            MutationError::RunHeadMismatch { run_id, expected_head, actual_head } =>
                "workflow run ".to_owned().concat(decimal_text(*run_id).as_str()).concat(
                    " belongs to ",
                ).concat(actual_head.as_str()).concat(", expected ").concat(
                    expected_head.as_str(),
                ),
            MutationError::RunNotFailed { run_id, conclusion } =>
                "workflow run ".to_owned().concat(decimal_text(*run_id).as_str()).concat(
                    " is not failed (conclusion: ",
                ).concat(conclusion.as_str()).concat(")"),
            MutationError::CheckSuiteHeadMismatch { check_suite_id, expected_head, actual_head } =>
                "check suite ".to_owned().concat(decimal_text(*check_suite_id).as_str()).concat(
                    " belongs to ",
                ).concat(actual_head.as_str()).concat(", expected unchanged head ").concat(
                    expected_head.as_str(),
                ),
            MutationError::AtomicTransactionIncomplete {
                operation,
                desired_label_present,
                desired_squash_auto_merge,
                provider_error,
                ..
            } => {
                let detail = match provider_error {
                    Some(error) => error.dup(),
                    None => "provider returned an incomplete postcondition".to_owned(),
                };
                "atomic provider transaction `".to_owned().concat(operation.as_str()).concat(
                    "` did not converge (label_present=",
                ).concat(show_bool(*desired_label_present).as_str()).concat(
                    ", squash_auto_merge=",
                ).concat(show_bool(*desired_squash_auto_merge).as_str()).concat("): ").concat(
                    detail.as_str(),
                )
            },
            MutationError::MissingProviderResource { resource } =>
                "provider resource `".to_owned().concat(resource.as_str()).concat(
                    "` is unavailable",
                ),
        }
    }
}

// ---------------------------------------------------------------------------
// Documents
// ---------------------------------------------------------------------------

/// The output of a command that ended with status zero.
pub open spec fn checked(command: CommandSpecView, reply: Reply) -> Result<
    CommandOutputView,
    DiscoveryErrorView,
> {
    match reply {
        Err(error) => Err(DiscoveryErrorView::Runner(error)),
        Ok(output) => if output.succeeded() {
            Ok(output)
        } else {
            Err(
                DiscoveryErrorView::CommandFailed {
                    command,
                    code: output.code,
                    stderr: text::trimmed(output.stderr),
                },
            )
        },
    }
}

/// The failure of a document that does not decode.
pub open spec fn undecodable(
    command: CommandSpecView,
    output: CommandOutputView,
    message: Seq<char>,
) -> DiscoveryErrorView {
    DiscoveryErrorView::InvalidJson {
        command,
        message,
        evidence: JsonDecodeEvidenceView {
            stdout: text::excerpt(output.stdout),
            stderr: text::excerpt(output.stderr),
        },
    }
}

/// The document in the output of a command.
pub open spec fn document<T>(
    command: CommandSpecView,
    reply: Reply,
    shape: spec_fn(Json) -> Option<T>,
) -> Result<T, DiscoveryErrorView> {
    match checked(command, reply) {
        Err(error) => Err(error),
        Ok(output) => match json::json_read(output.stdout) {
            Err(message) => Err(undecodable(command, output, message)),
            Ok(tree) => match shape(tree) {
                Some(content) => Ok(content),
                None => Err(undecodable(command, output, "unexpected JSON shape"@)),
            },
        },
    }
}

/// Reading a document of a type from the provider may end so.
pub open spec fn fetched<R: CommandRunner, T: Decode>(
    runner: R,
    command: CommandSpecView,
    outcome: Result<T::V, DiscoveryErrorView>,
) -> bool {
    exists|reply: Reply| #[trigger]
        command::ran(runner, command, reply) && outcome == document(
            command,
            reply,
            |tree: Json| T::decoded(tree),
        )
}

/// Running a command that must end with status zero may end so.
pub open spec fn completed<R: CommandRunner>(
    runner: R,
    command: CommandSpecView,
    outcome: Result<CommandOutputView, DiscoveryErrorView>,
) -> bool {
    exists|reply: Reply| #[trigger]
        command::ran(runner, command, reply) && outcome == checked(command, reply)
}

/// The content of an outcome.
pub open spec fn read_view<T: DeepView>(outcome: Result<T, DiscoveryError>) -> Result<
    T::V,
    DiscoveryErrorView,
> {
    match outcome {
        Ok(value) => Ok(value.deep_view()),
        Err(error) => Err(error.deep_view()),
    }
}

/// Runs a command that must end with status zero.
pub fn run_checked<R: CommandRunner>(runner: &R, command: &CommandSpec) -> (r: Result<
    CommandOutput,
    DiscoveryError,
>)
    requires
        runner.allows(command.deep_view()),
    ensures
        completed(*runner, command.deep_view(), read_view(r)),
{
    let raw = run(runner, command);
    let ghost reply = command::reply_view(raw);
    assert(command::ran(*runner, command.deep_view(), reply));
    match raw {
        Err(error) => Err(DiscoveryError::Runner(error)),
        Ok(output) => if output.is_success() {
            Ok(output)
        } else {
            let stderr = trim(output.stderr.as_str());
            Err(DiscoveryError::CommandFailed { command: command.dup(), code: output.code, stderr })
        },
    }
}

/// Decodes the output of a command.
pub fn decode_output<T: Decode>(command: &CommandSpec, output: &CommandOutput) -> (r: Result<
    T,
    DiscoveryError,
>)
    ensures
        read_view(r) == match json::json_read(output.deep_view().stdout) {
            Err(message) => Err(
                undecodable(command.deep_view(), output.deep_view(), message),
            ),
            Ok(tree) => match T::decoded(tree) {
                Some(content) => Ok(content),
                None => Err(
                    undecodable(
                        command.deep_view(),
                        output.deep_view(),
                        "unexpected JSON shape"@,
                    ),
                ),
            },
        },
{
    let message = match parse(output.stdout.as_str()) {
        Ok(value) => match T::decode(&value) {
            Some(content) => {
                return Ok(content);
            },
            None => "unexpected JSON shape".to_owned(),
        },
        Err(message) => message,
    };
    let evidence = JsonDecodeEvidence {
        stdout: diagnostic_excerpt(output.stdout.as_str()),
        stderr: diagnostic_excerpt(output.stderr.as_str()),
    };
    Err(
        DiscoveryError::InvalidJson {
            command: command.dup(),
            message,
            evidence: Box::new(evidence),
        },
    )
}

/// Reads a document of a type from the provider.
pub fn fetch<R: CommandRunner, T: Decode>(runner: &R, command: &CommandSpec) -> (r: Result<
    T,
    DiscoveryError,
>)
    requires
        runner.allows(command.deep_view()),
    ensures
        fetched::<R, T>(*runner, command.deep_view(), read_view(r)),
{
    match run_checked(runner, command) {
        Err(error) => Err(error),
        Ok(output) => {
            let r = decode_output::<T>(command, &output);
            let ghost reply = choose|reply: Reply| #[trigger]
                command::ran(*runner, command.deep_view(), reply) && Ok::<_, DiscoveryErrorView>(
                    output.deep_view(),
                ) == checked(command.deep_view(), reply);
            assert(read_view(r) == document(
                command.deep_view(),
                reply,
                |tree: Json| T::decoded(tree),
            ));
            r
        },
    }
}

} // verus!
