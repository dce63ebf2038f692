//! Merging a ready prefix of a native Stack.
//!
//! The provider leases only the head of the highest selected pull request. So
//! the plan seals every lower generation, the whole Stack is read once more
//! just before the request, and the end is proved from fresh pull requests and
//! the fresh Stack. A response that is lost without an identifier never allows
//! a second request.

use vstd::prelude::*;
use vstd::string::*;
use crate::command;
use crate::command::{
    run, send, CommandOutput, CommandOutputView, CommandRunError, CommandRunner, CommandSpec,
    CommandSpecView, Reply, Sent,
};
use crate::github::adapter;
use crate::github::adapter::GitHubMutationAdapter;
use crate::github::evidence;
use crate::github::evidence::hash_of;
use crate::github::provider::{MutationError, MutationErrorView};
use crate::github::raw::{GitRefJson, GitRefJsonView};
use crate::github::stack;
use crate::github::stack::{
    native_stack_base_ref_command, prs_from, stack_api_command, GitHubStackEntryGeneration,
    GitHubStackEntryGenerationView, GitHubStackGeneration, GitHubStackGenerationView,
    GitHubStackMutationError, GitHubStackMutationErrorView,
};
use crate::github::stack_adapter;
use crate::github::stack_adapter::github_request_id;
use crate::github::stack_lock::{GitHubStackBranchLockPlan, GitHubStackBranchLockPlanView};
use crate::json;
use crate::json::{compact_text, get, json_string, parse, Entries, Json, JsonForm};
use crate::model;
use crate::model::{
    append_items, dup_range, push_item, BranchSnapshot, BranchSnapshotView, CommitOid, Model,
    PrNumber, PullRequestSnapshot, PullRequestSnapshotView, PullRequestState, RepositoryId,
    RepositoryIdView,
};
use crate::text;
use crate::text::{
    blank, chars_of, decimal_text, diagnostic_excerpt, eq_ignore_case, lowercase, split_once,
    text_eq, trim,
};

verus! {

pub const STACK_MERGE_SCHEMA_VERSION: u32 = 1;

/// Why an entry cannot extend a ready prefix.
#[derive(Debug, Clone, Copy, PartialEq, Eq, PartialOrd, Ord, Structural)]
pub enum GitHubStackMergeBlocker {
    StackClosed,
    PullRequestNotOpen,
    Draft,
    StackEntryNotOpen,
    GraphInexact,
    Held,
    MechanicallyBlocked,
    RequiredChecksNotReady,
    ForceUnsupported,
}

impl DeepView for GitHubStackMergeBlocker {
    type V = GitHubStackMergeBlocker;

    open spec fn deep_view(&self) -> GitHubStackMergeBlocker {
        *self
    }
}

impl Model for GitHubStackMergeBlocker {
    fn same(&self, other: &Self) -> (r: bool) {
        *self == *other
    }

    fn dup(&self) -> (r: Self) {
        *self
    }
}

/// Policy evidence for one exact Stack entry.
#[derive(Debug, PartialEq, Eq)]
pub struct GitHubStackMergeEntryEvidence {
    pub generation: GitHubStackEntryGeneration,
    /// Refusals of the scheduler for this exact generation.
    pub blockers: Vec<GitHubStackMergeBlocker>,
}

/// The content of a [`GitHubStackMergeEntryEvidence`].
#[verifier::ext_equal]
pub struct GitHubStackMergeEntryEvidenceView {
    pub generation: GitHubStackEntryGenerationView,
    pub blockers: Seq<GitHubStackMergeBlocker>,
}

impl DeepView for GitHubStackMergeEntryEvidence {
    type V = GitHubStackMergeEntryEvidenceView;

    open spec fn deep_view(&self) -> GitHubStackMergeEntryEvidenceView {
        GitHubStackMergeEntryEvidenceView {
            generation: self.generation.deep_view(),
            blockers: self.blockers.deep_view(),
        }
    }
}

impl Clone for GitHubStackMergeEntryEvidence {
    fn clone(&self) -> (r: Self)
        ensures
            r.deep_view() == self.deep_view(),
    {
        self.dup()
    }
}

impl Model for GitHubStackMergeEntryEvidence {
    fn same(&self, other: &Self) -> (r: bool) {
        self.generation.same(&other.generation)
            && self.blockers.same(&other.blockers)
    }

    fn dup(&self) -> (r: Self) {
        GitHubStackMergeEntryEvidence {
            generation: self.generation.dup(),
            blockers: self.blockers.dup(),
        }
    }
}

/// The entry that ends a ready prefix.
#[derive(Debug, PartialEq, Eq)]
pub struct GitHubStackBlockedEntry {
    pub pr: PrNumber,
    pub position: u32,
    pub blockers: Vec<GitHubStackMergeBlocker>,
}

/// The content of a [`GitHubStackBlockedEntry`].
#[verifier::ext_equal]
pub struct GitHubStackBlockedEntryView {
    pub pr: PrNumber,
    pub position: u32,
    pub blockers: Seq<GitHubStackMergeBlocker>,
}

impl DeepView for GitHubStackBlockedEntry {
    type V = GitHubStackBlockedEntryView;

    open spec fn deep_view(&self) -> GitHubStackBlockedEntryView {
        GitHubStackBlockedEntryView {
            pr: self.pr.deep_view(),
            position: self.position.deep_view(),
            blockers: self.blockers.deep_view(),
        }
    }
}

impl Clone for GitHubStackBlockedEntry {
    fn clone(&self) -> (r: Self)
        ensures
            r.deep_view() == self.deep_view(),
    {
        self.dup()
    }
}

impl Model for GitHubStackBlockedEntry {
    fn same(&self, other: &Self) -> (r: bool) {
        self.pr.same(&other.pr)
            && self.position.same(&other.position)
            && self.blockers.same(&other.blockers)
    }

    fn dup(&self) -> (r: Self) {
        GitHubStackBlockedEntry {
            pr: self.pr.dup(),
            position: self.position.dup(),
            blockers: self.blockers.dup(),
        }
    }
}

/// The longest ready prefix of a Stack, bottom to top. An empty one means to wait.
#[derive(Debug, PartialEq, Eq)]
pub struct GitHubStackReadyPrefix {
    pub stack: GitHubStackGeneration,
    pub selected: Vec<GitHubStackEntryGeneration>,
    pub first_blocked: Option<GitHubStackBlockedEntry>,
}

/// The content of a [`GitHubStackReadyPrefix`].
#[verifier::ext_equal]
pub struct GitHubStackReadyPrefixView {
    pub stack: GitHubStackGenerationView,
    pub selected: Seq<GitHubStackEntryGenerationView>,
    pub first_blocked: Option<GitHubStackBlockedEntryView>,
}

impl DeepView for GitHubStackReadyPrefix {
    type V = GitHubStackReadyPrefixView;

    open spec fn deep_view(&self) -> GitHubStackReadyPrefixView {
        GitHubStackReadyPrefixView {
            stack: self.stack.deep_view(),
            selected: self.selected.deep_view(),
            first_blocked: self.first_blocked.deep_view(),
        }
    }
}

impl Clone for GitHubStackReadyPrefix {
    fn clone(&self) -> (r: Self)
        ensures
            r.deep_view() == self.deep_view(),
    {
        self.dup()
    }
}

impl Model for GitHubStackReadyPrefix {
    fn same(&self, other: &Self) -> (r: bool) {
        self.stack.same(&other.stack)
            && self.selected.same(&other.selected)
            && self.first_blocked.same(&other.first_blocked)
    }

    fn dup(&self) -> (r: Self) {
        GitHubStackReadyPrefix {
            stack: self.stack.dup(),
            selected: self.selected.dup(),
            first_blocked: self.first_blocked.dup(),
        }
    }
}

/// How pull requests are merged.
#[derive(Debug, Clone, Copy, PartialEq, Eq, PartialOrd, Ord, Structural)]
pub enum GitHubStackMergeMethod {
    Squash,
}

impl DeepView for GitHubStackMergeMethod {
    type V = GitHubStackMergeMethod;

    open spec fn deep_view(&self) -> GitHubStackMergeMethod {
        *self
    }
}

impl Model for GitHubStackMergeMethod {
    fn same(&self, other: &Self) -> (r: bool) {
        *self == *other
    }

    fn dup(&self) -> (r: Self) {
        *self
    }
}

/// What is asked of the provider.
#[derive(Debug, Clone, Copy, PartialEq, Eq, PartialOrd, Ord, Structural)]
pub enum GitHubStackMergeAction {
    DirectMerge,
}

impl DeepView for GitHubStackMergeAction {
    type V = GitHubStackMergeAction;

    open spec fn deep_view(&self) -> GitHubStackMergeAction {
        *self
    }
}

impl Model for GitHubStackMergeAction {
    fn same(&self, other: &Self) -> (r: bool) {
        *self == *other
    }

    fn dup(&self) -> (r: Self) {
        *self
    }
}

/// One request to merge a prefix of a Stack.
#[derive(Debug, PartialEq, Eq)]
pub struct GitHubStackAsyncMergePlan {
    pub operation_id: String,
    pub actor: String,
    pub before: GitHubStackGeneration,
    pub selected: Vec<GitHubStackEntryGeneration>,
    pub merge_method: GitHubStackMergeMethod,
    pub merge_action: GitHubStackMergeAction,
}

/// The content of a [`GitHubStackAsyncMergePlan`].
#[verifier::ext_equal]
pub struct GitHubStackAsyncMergePlanView {
    pub operation_id: Seq<char>,
    pub actor: Seq<char>,
    pub before: GitHubStackGenerationView,
    pub selected: Seq<GitHubStackEntryGenerationView>,
    pub merge_method: GitHubStackMergeMethod,
    pub merge_action: GitHubStackMergeAction,
}

impl DeepView for GitHubStackAsyncMergePlan {
    type V = GitHubStackAsyncMergePlanView;

    open spec fn deep_view(&self) -> GitHubStackAsyncMergePlanView {
        GitHubStackAsyncMergePlanView {
            operation_id: self.operation_id.deep_view(),
            actor: self.actor.deep_view(),
            before: self.before.deep_view(),
            selected: self.selected.deep_view(),
            merge_method: self.merge_method.deep_view(),
            merge_action: self.merge_action.deep_view(),
        }
    }
}

impl Clone for GitHubStackAsyncMergePlan {
    fn clone(&self) -> (r: Self)
        ensures
            r.deep_view() == self.deep_view(),
    {
        self.dup()
    }
}

impl Model for GitHubStackAsyncMergePlan {
    fn same(&self, other: &Self) -> (r: bool) {
        self.operation_id.same(&other.operation_id)
            && self.actor.same(&other.actor)
            && self.before.same(&other.before)
            && self.selected.same(&other.selected)
            && self.merge_method.same(&other.merge_method)
            && self.merge_action.same(&other.merge_action)
    }

    fn dup(&self) -> (r: Self) {
        GitHubStackAsyncMergePlan {
            operation_id: self.operation_id.dup(),
            actor: self.actor.dup(),
            before: self.before.dup(),
            selected: self.selected.dup(),
            merge_method: self.merge_method.dup(),
            merge_action: self.merge_action.dup(),
        }
    }
}

/// The identity of a merge request.
#[derive(Debug, PartialEq, Eq)]
pub struct GitHubStackMergeRequestIdentity {
    pub method: String,
    pub path: String,
    pub selected_top: PrNumber,
    pub selected_top_sha: CommitOid,
    pub ordered_pull_requests: Vec<PrNumber>,
    pub ordered_heads: Vec<CommitOid>,
    pub github_request_id: Option<String>,
}

/// The content of a [`GitHubStackMergeRequestIdentity`].
#[verifier::ext_equal]
pub struct GitHubStackMergeRequestIdentityView {
    pub method: Seq<char>,
    pub path: Seq<char>,
    pub selected_top: PrNumber,
    pub selected_top_sha: Seq<char>,
    pub ordered_pull_requests: Seq<PrNumber>,
    pub ordered_heads: Seq<Seq<char>>,
    pub github_request_id: Option<Seq<char>>,
}

impl DeepView for GitHubStackMergeRequestIdentity {
    type V = GitHubStackMergeRequestIdentityView;

    open spec fn deep_view(&self) -> GitHubStackMergeRequestIdentityView {
        GitHubStackMergeRequestIdentityView {
            method: self.method.deep_view(),
            path: self.path.deep_view(),
            selected_top: self.selected_top.deep_view(),
            selected_top_sha: self.selected_top_sha.deep_view(),
            ordered_pull_requests: self.ordered_pull_requests.deep_view(),
            ordered_heads: self.ordered_heads.deep_view(),
            github_request_id: self.github_request_id.deep_view(),
        }
    }
}

impl Clone for GitHubStackMergeRequestIdentity {
    fn clone(&self) -> (r: Self)
        ensures
            r.deep_view() == self.deep_view(),
    {
        self.dup()
    }
}

impl Model for GitHubStackMergeRequestIdentity {
    fn same(&self, other: &Self) -> (r: bool) {
        self.method.same(&other.method)
            && self.path.same(&other.path)
            && self.selected_top.same(&other.selected_top)
            && self.selected_top_sha.same(&other.selected_top_sha)
            && self.ordered_pull_requests.same(&other.ordered_pull_requests)
            && self.ordered_heads.same(&other.ordered_heads)
            && self.github_request_id.same(&other.github_request_id)
    }

    fn dup(&self) -> (r: Self) {
        GitHubStackMergeRequestIdentity {
            method: self.method.dup(),
            path: self.path.dup(),
            selected_top: self.selected_top.dup(),
            selected_top_sha: self.selected_top_sha.dup(),
            ordered_pull_requests: self.ordered_pull_requests.dup(),
            ordered_heads: self.ordered_heads.dup(),
            github_request_id: self.github_request_id.dup(),
        }
    }
}

/// What a new process needs to poll a merge.
#[derive(Debug, PartialEq, Eq)]
pub struct GitHubStackMergeCheckpoint {
    pub schema_version: u32,
    pub repository: RepositoryId,
    pub plan: GitHubStackAsyncMergePlan,
    pub request: GitHubStackMergeRequestIdentity,
    pub uuid: String,
    pub initial_provider_status: String,
    pub evidence_hash: String,
}

/// The content of a [`GitHubStackMergeCheckpoint`].
#[verifier::ext_equal]
pub struct GitHubStackMergeCheckpointView {
    pub schema_version: u32,
    pub repository: RepositoryIdView,
    pub plan: GitHubStackAsyncMergePlanView,
    pub request: GitHubStackMergeRequestIdentityView,
    pub uuid: Seq<char>,
    pub initial_provider_status: Seq<char>,
    pub evidence_hash: Seq<char>,
}

impl DeepView for GitHubStackMergeCheckpoint {
    type V = GitHubStackMergeCheckpointView;

    open spec fn deep_view(&self) -> GitHubStackMergeCheckpointView {
        GitHubStackMergeCheckpointView {
            schema_version: self.schema_version.deep_view(),
            repository: self.repository.deep_view(),
            plan: self.plan.deep_view(),
            request: self.request.deep_view(),
            uuid: self.uuid.deep_view(),
            initial_provider_status: self.initial_provider_status.deep_view(),
            evidence_hash: self.evidence_hash.deep_view(),
        }
    }
}

impl Clone for GitHubStackMergeCheckpoint {
    fn clone(&self) -> (r: Self)
        ensures
            r.deep_view() == self.deep_view(),
    {
        self.dup()
    }
}

impl Model for GitHubStackMergeCheckpoint {
    fn same(&self, other: &Self) -> (r: bool) {
        self.schema_version.same(&other.schema_version)
            && self.repository.same(&other.repository)
            && self.plan.same(&other.plan)
            && self.request.same(&other.request)
            && self.uuid.same(&other.uuid)
            && self.initial_provider_status.same(&other.initial_provider_status)
            && self.evidence_hash.same(&other.evidence_hash)
    }

    fn dup(&self) -> (r: Self) {
        GitHubStackMergeCheckpoint {
            schema_version: self.schema_version.dup(),
            repository: self.repository.dup(),
            plan: self.plan.dup(),
            request: self.request.dup(),
            uuid: self.uuid.dup(),
            initial_provider_status: self.initial_provider_status.dup(),
            evidence_hash: self.evidence_hash.dup(),
        }
    }
}

/// Where a merge stands.
#[derive(Debug, Clone, Copy, PartialEq, Eq, PartialOrd, Ord, Structural)]
pub enum GitHubStackMergeStatus {
    Submitted,
    Pending,
    Enqueued,
    Merged,
    Failed,
    Indeterminate,
}

impl DeepView for GitHubStackMergeStatus {
    type V = GitHubStackMergeStatus;

    open spec fn deep_view(&self) -> GitHubStackMergeStatus {
        *self
    }
}

impl Model for GitHubStackMergeStatus {
    fn same(&self, other: &Self) -> (r: bool) {
        *self == *other
    }

    fn dup(&self) -> (r: Self) {
        *self
    }
}

/// One pull request after a merge request.
#[derive(Debug, PartialEq, Eq)]
pub struct GitHubStackMergePullRequestObservation {
    pub pr: PrNumber,
    pub state: PullRequestState,
    pub draft: bool,
    pub base: BranchSnapshot,
    pub head: BranchSnapshot,
    pub merged_at: Option<String>,
}

/// The content of a [`GitHubStackMergePullRequestObservation`].
#[verifier::ext_equal]
pub struct GitHubStackMergePullRequestObservationView {
    pub pr: PrNumber,
    pub state: PullRequestState,
    pub draft: bool,
    pub base: BranchSnapshotView,
    pub head: BranchSnapshotView,
    pub merged_at: Option<Seq<char>>,
}

impl DeepView for GitHubStackMergePullRequestObservation {
    type V = GitHubStackMergePullRequestObservationView;

    open spec fn deep_view(&self) -> GitHubStackMergePullRequestObservationView {
        GitHubStackMergePullRequestObservationView {
            pr: self.pr.deep_view(),
            state: self.state.deep_view(),
            draft: self.draft.deep_view(),
            base: self.base.deep_view(),
            head: self.head.deep_view(),
            merged_at: self.merged_at.deep_view(),
        }
    }
}

impl Clone for GitHubStackMergePullRequestObservation {
    fn clone(&self) -> (r: Self)
        ensures
            r.deep_view() == self.deep_view(),
    {
        self.dup()
    }
}

impl Model for GitHubStackMergePullRequestObservation {
    fn same(&self, other: &Self) -> (r: bool) {
        self.pr.same(&other.pr)
            && self.state.same(&other.state)
            && self.draft.same(&other.draft)
            && self.base.same(&other.base)
            && self.head.same(&other.head)
            && self.merged_at.same(&other.merged_at)
    }

    fn dup(&self) -> (r: Self) {
        GitHubStackMergePullRequestObservation {
            pr: self.pr.dup(),
            state: self.state.dup(),
            draft: self.draft.dup(),
            base: self.base.dup(),
            head: self.head.dup(),
            merged_at: self.merged_at.dup(),
        }
    }
}

/// Fresh facts after a merge request.
#[derive(Debug, PartialEq, Eq)]
pub struct GitHubStackMergeObservation {
    pub default_branch: BranchSnapshot,
    pub selected: Vec<GitHubStackMergePullRequestObservation>,
    pub remaining: Vec<GitHubStackMergePullRequestObservation>,
    pub stack_after: Option<GitHubStackGeneration>,
    pub selected_merged: usize,
    /// Whether every selected pull request still has the head that was sealed.
    pub selected_heads_exact: bool,
    pub changed_selected_heads: Vec<PrNumber>,
    pub remaining_order_exact: bool,
}

/// The content of a [`GitHubStackMergeObservation`].
#[verifier::ext_equal]
pub struct GitHubStackMergeObservationView {
    pub default_branch: BranchSnapshotView,
    pub selected: Seq<GitHubStackMergePullRequestObservationView>,
    pub remaining: Seq<GitHubStackMergePullRequestObservationView>,
    pub stack_after: Option<GitHubStackGenerationView>,
    pub selected_merged: usize,
    pub selected_heads_exact: bool,
    pub changed_selected_heads: Seq<PrNumber>,
    pub remaining_order_exact: bool,
}

impl DeepView for GitHubStackMergeObservation {
    type V = GitHubStackMergeObservationView;

    open spec fn deep_view(&self) -> GitHubStackMergeObservationView {
        GitHubStackMergeObservationView {
            default_branch: self.default_branch.deep_view(),
            selected: self.selected.deep_view(),
            remaining: self.remaining.deep_view(),
            stack_after: self.stack_after.deep_view(),
            selected_merged: self.selected_merged.deep_view(),
            selected_heads_exact: self.selected_heads_exact.deep_view(),
            changed_selected_heads: self.changed_selected_heads.deep_view(),
            remaining_order_exact: self.remaining_order_exact.deep_view(),
        }
    }
}

impl Clone for GitHubStackMergeObservation {
    fn clone(&self) -> (r: Self)
        ensures
            r.deep_view() == self.deep_view(),
    {
        self.dup()
    }
}

impl Model for GitHubStackMergeObservation {
    fn same(&self, other: &Self) -> (r: bool) {
        self.default_branch.same(&other.default_branch)
            && self.selected.same(&other.selected)
            && self.remaining.same(&other.remaining)
            && self.stack_after.same(&other.stack_after)
            && self.selected_merged.same(&other.selected_merged)
            && self.selected_heads_exact.same(&other.selected_heads_exact)
            && self.changed_selected_heads.same(&other.changed_selected_heads)
            && self.remaining_order_exact.same(&other.remaining_order_exact)
    }

    fn dup(&self) -> (r: Self) {
        GitHubStackMergeObservation {
            default_branch: self.default_branch.dup(),
            selected: self.selected.dup(),
            remaining: self.remaining.dup(),
            stack_after: self.stack_after.dup(),
            selected_merged: self.selected_merged.dup(),
            selected_heads_exact: self.selected_heads_exact.dup(),
            changed_selected_heads: self.changed_selected_heads.dup(),
            remaining_order_exact: self.remaining_order_exact.dup(),
        }
    }
}

/// The sealed result of a merge request or of one poll.
#[derive(Debug, PartialEq, Eq)]
pub struct GitHubStackMergeReceipt {
    pub schema_version: u32,
    pub repository: RepositoryId,
    pub plan: GitHubStackAsyncMergePlan,
    pub request: GitHubStackMergeRequestIdentity,
    pub checkpoint: Option<GitHubStackMergeCheckpoint>,
    pub status: GitHubStackMergeStatus,
    pub provider_status: Option<String>,
    pub provider_message: Option<String>,
    pub provider_sha: Option<CommitOid>,
    pub observation: Option<GitHubStackMergeObservation>,
    pub evidence_hash: String,
}

/// The content of a [`GitHubStackMergeReceipt`].
#[verifier::ext_equal]
pub struct GitHubStackMergeReceiptView {
    pub schema_version: u32,
    pub repository: RepositoryIdView,
    pub plan: GitHubStackAsyncMergePlanView,
    pub request: GitHubStackMergeRequestIdentityView,
    pub checkpoint: Option<GitHubStackMergeCheckpointView>,
    pub status: GitHubStackMergeStatus,
    pub provider_status: Option<Seq<char>>,
    pub provider_message: Option<Seq<char>>,
    pub provider_sha: Option<Seq<char>>,
    pub observation: Option<GitHubStackMergeObservationView>,
    pub evidence_hash: Seq<char>,
}

impl DeepView for GitHubStackMergeReceipt {
    type V = GitHubStackMergeReceiptView;

    open spec fn deep_view(&self) -> GitHubStackMergeReceiptView {
        GitHubStackMergeReceiptView {
            schema_version: self.schema_version.deep_view(),
            repository: self.repository.deep_view(),
            plan: self.plan.deep_view(),
            request: self.request.deep_view(),
            checkpoint: self.checkpoint.deep_view(),
            status: self.status.deep_view(),
            provider_status: self.provider_status.deep_view(),
            provider_message: self.provider_message.deep_view(),
            provider_sha: self.provider_sha.deep_view(),
            observation: self.observation.deep_view(),
            evidence_hash: self.evidence_hash.deep_view(),
        }
    }
}

impl Clone for GitHubStackMergeReceipt {
    fn clone(&self) -> (r: Self)
        ensures
            r.deep_view() == self.deep_view(),
    {
        self.dup()
    }
}

impl Model for GitHubStackMergeReceipt {
    fn same(&self, other: &Self) -> (r: bool) {
        self.schema_version.same(&other.schema_version)
            && self.repository.same(&other.repository)
            && self.plan.same(&other.plan)
            && self.request.same(&other.request)
            && self.checkpoint.same(&other.checkpoint)
            && self.status.same(&other.status)
            && self.provider_status.same(&other.provider_status)
            && self.provider_message.same(&other.provider_message)
            && self.provider_sha.same(&other.provider_sha)
            && self.observation.same(&other.observation)
            && self.evidence_hash.same(&other.evidence_hash)
    }

    fn dup(&self) -> (r: Self) {
        GitHubStackMergeReceipt {
            schema_version: self.schema_version.dup(),
            repository: self.repository.dup(),
            plan: self.plan.dup(),
            request: self.request.dup(),
            checkpoint: self.checkpoint.dup(),
            status: self.status.dup(),
            provider_status: self.provider_status.dup(),
            provider_message: self.provider_message.dup(),
            provider_sha: self.provider_sha.dup(),
            observation: self.observation.dup(),
            evidence_hash: self.evidence_hash.dup(),
        }
    }
}

/// Refusal of a merge.
#[derive(Debug, PartialEq, Eq)]
pub enum GitHubStackMergeError {
    InvalidPlan {
        code: String,
        message: String,
    },
    StaleGeneration {
        expected: Box<GitHubStackGeneration>,
        actual: Option<Box<GitHubStackGeneration>>,
    },
    InvalidCheckpoint {
        diagnostic: String,
    },
    Stack(GitHubStackMutationError),
    Provider(MutationError),
}

/// The content of a [`GitHubStackMergeError`].
pub enum GitHubStackMergeErrorView {
    InvalidPlan {
        code: Seq<char>,
        message: Seq<char>,
    },
    StaleGeneration {
        expected: GitHubStackGenerationView,
        actual: Option<GitHubStackGenerationView>,
    },
    InvalidCheckpoint {
        diagnostic: Seq<char>,
    },
    Stack(GitHubStackMutationErrorView),
    Provider(MutationErrorView),
}

impl DeepView for GitHubStackMergeError {
    type V = GitHubStackMergeErrorView;

    open spec fn deep_view(&self) -> GitHubStackMergeErrorView {
        match self {
            GitHubStackMergeError::InvalidPlan { code, message } => GitHubStackMergeErrorView::InvalidPlan {
                code: code.deep_view(),
                message: message.deep_view(),
            },
            GitHubStackMergeError::StaleGeneration { expected, actual } => GitHubStackMergeErrorView::StaleGeneration {
                expected: expected.deep_view(),
                actual: actual.deep_view(),
            },
            GitHubStackMergeError::InvalidCheckpoint { diagnostic } => GitHubStackMergeErrorView::InvalidCheckpoint {
                diagnostic: diagnostic.deep_view(),
            },
            GitHubStackMergeError::Stack(x) => GitHubStackMergeErrorView::Stack(x.deep_view()),
            GitHubStackMergeError::Provider(x) => GitHubStackMergeErrorView::Provider(
                x.deep_view(),
            ),
        }
    }
}

impl GitHubStackMergeError {
    /// Another error of the same content.
    pub fn dup(&self) -> (r: Self)
        ensures
            r.deep_view() == self.deep_view(),
    {
        match self {
            GitHubStackMergeError::InvalidPlan { code, message } => GitHubStackMergeError::InvalidPlan {
                code: code.dup(),
                message: message.dup(),
            },
            GitHubStackMergeError::StaleGeneration { expected, actual } => GitHubStackMergeError::StaleGeneration {
                expected: expected.dup(),
                actual: actual.dup(),
            },
            GitHubStackMergeError::InvalidCheckpoint { diagnostic } => GitHubStackMergeError::InvalidCheckpoint {
                diagnostic: diagnostic.dup(),
            },
            GitHubStackMergeError::Stack(x) => GitHubStackMergeError::Stack(x.dup()),
            GitHubStackMergeError::Provider(x) => GitHubStackMergeError::Provider(x.dup()),
        }
    }
}

/// What the provider says of a merge.
#[derive(Debug, PartialEq, Eq)]
pub struct ProviderAsyncMergeResult {
    pub uuid: Option<String>,
    pub status: Option<String>,
    pub message: Option<String>,
    pub sha: Option<CommitOid>,
    pub expected_head_sha: Option<CommitOid>,
    pub merge_method: Option<String>,
    pub merge_action: Option<String>,
}

/// The content of a [`ProviderAsyncMergeResult`].
#[verifier::ext_equal]
pub struct ProviderAsyncMergeResultView {
    pub uuid: Option<Seq<char>>,
    pub status: Option<Seq<char>>,
    pub message: Option<Seq<char>>,
    pub sha: Option<Seq<char>>,
    pub expected_head_sha: Option<Seq<char>>,
    pub merge_method: Option<Seq<char>>,
    pub merge_action: Option<Seq<char>>,
}

impl DeepView for ProviderAsyncMergeResult {
    type V = ProviderAsyncMergeResultView;

    open spec fn deep_view(&self) -> ProviderAsyncMergeResultView {
        ProviderAsyncMergeResultView {
            uuid: self.uuid.deep_view(),
            status: self.status.deep_view(),
            message: self.message.deep_view(),
            sha: self.sha.deep_view(),
            expected_head_sha: self.expected_head_sha.deep_view(),
            merge_method: self.merge_method.deep_view(),
            merge_action: self.merge_action.deep_view(),
        }
    }
}

impl Clone for ProviderAsyncMergeResult {
    fn clone(&self) -> (r: Self)
        ensures
            r.deep_view() == self.deep_view(),
    {
        self.dup()
    }
}

impl Model for ProviderAsyncMergeResult {
    fn same(&self, other: &Self) -> (r: bool) {
        self.uuid.same(&other.uuid)
            && self.status.same(&other.status)
            && self.message.same(&other.message)
            && self.sha.same(&other.sha)
            && self.expected_head_sha.same(&other.expected_head_sha)
            && self.merge_method.same(&other.merge_method)
            && self.merge_action.same(&other.merge_action)
    }

    fn dup(&self) -> (r: Self) {
        ProviderAsyncMergeResult {
            uuid: self.uuid.dup(),
            status: self.status.dup(),
            message: self.message.dup(),
            sha: self.sha.dup(),
            expected_head_sha: self.expected_head_sha.dup(),
            merge_method: self.merge_method.dup(),
            merge_action: self.merge_action.dup(),
        }
    }
}

impl JsonForm for GitHubStackMergeMethod {
    open spec fn form(content: GitHubStackMergeMethod) -> Json {
        match content {
            GitHubStackMergeMethod::Squash => Json::Text("squash"@),
        }
    }

    fn to_json(&self) -> (r: serde_json::Value) {
        match self {
            GitHubStackMergeMethod::Squash => json_string("squash"),
        }
    }
}

impl JsonForm for GitHubStackMergeAction {
    open spec fn form(content: GitHubStackMergeAction) -> Json {
        match content {
            GitHubStackMergeAction::DirectMerge => Json::Text("direct_merge"@),
        }
    }

    fn to_json(&self) -> (r: serde_json::Value) {
        match self {
            GitHubStackMergeAction::DirectMerge => json_string("direct_merge"),
        }
    }
}

impl JsonForm for GitHubStackMergeStatus {
    open spec fn form(content: GitHubStackMergeStatus) -> Json {
        match content {
            GitHubStackMergeStatus::Submitted => Json::Text("submitted"@),
            GitHubStackMergeStatus::Pending => Json::Text("pending"@),
            GitHubStackMergeStatus::Enqueued => Json::Text("enqueued"@),
            GitHubStackMergeStatus::Merged => Json::Text("merged"@),
            GitHubStackMergeStatus::Failed => Json::Text("failed"@),
            GitHubStackMergeStatus::Indeterminate => Json::Text("indeterminate"@),
        }
    }

    fn to_json(&self) -> (r: serde_json::Value) {
        match self {
            GitHubStackMergeStatus::Submitted => json_string("submitted"),
            GitHubStackMergeStatus::Pending => json_string("pending"),
            GitHubStackMergeStatus::Enqueued => json_string("enqueued"),
            GitHubStackMergeStatus::Merged => json_string("merged"),
            GitHubStackMergeStatus::Failed => json_string("failed"),
            GitHubStackMergeStatus::Indeterminate => json_string("indeterminate"),
        }
    }
}

impl JsonForm for GitHubStackAsyncMergePlan {
    open spec fn form(content: GitHubStackAsyncMergePlanView) -> Json {
        let e = json::no_entries();
        let e = json::entry(e, "operation_id"@, <String as JsonForm>::form(content.operation_id));
        let e = json::entry(e, "actor"@, <String as JsonForm>::form(content.actor));
        let e = json::entry(
            e,
            "before"@,
            <GitHubStackGeneration as JsonForm>::form(content.before),
        );
        let e = json::entry(
            e,
            "selected"@,
            <Vec<GitHubStackEntryGeneration> as JsonForm>::form(content.selected),
        );
        let e = json::entry(
            e,
            "merge_method"@,
            <GitHubStackMergeMethod as JsonForm>::form(content.merge_method),
        );
        let e = json::entry(
            e,
            "merge_action"@,
            <GitHubStackMergeAction as JsonForm>::form(content.merge_action),
        );
        json::object_of(e)
    }

    fn to_json(&self) -> (r: serde_json::Value) {
        Entries::new()
            .with("operation_id", self.operation_id.to_json())
            .with("actor", self.actor.to_json())
            .with("before", self.before.to_json())
            .with("selected", self.selected.to_json())
            .with("merge_method", self.merge_method.to_json())
            .with("merge_action", self.merge_action.to_json())
            .object()
    }
}

impl JsonForm for GitHubStackMergeRequestIdentity {
    open spec fn form(content: GitHubStackMergeRequestIdentityView) -> Json {
        let e = json::no_entries();
        let e = json::entry(e, "method"@, <String as JsonForm>::form(content.method));
        let e = json::entry(e, "path"@, <String as JsonForm>::form(content.path));
        let e = json::entry(e, "selected_top"@, <PrNumber as JsonForm>::form(content.selected_top));
        let e = json::entry(
            e,
            "selected_top_sha"@,
            <CommitOid as JsonForm>::form(content.selected_top_sha),
        );
        let e = json::entry(
            e,
            "ordered_pull_requests"@,
            <Vec<PrNumber> as JsonForm>::form(content.ordered_pull_requests),
        );
        let e = json::entry(
            e,
            "ordered_heads"@,
            <Vec<CommitOid> as JsonForm>::form(content.ordered_heads),
        );
        let e = json::entry_unless_null(
            e,
            "github_request_id"@,
            <Option<String> as JsonForm>::form(content.github_request_id),
        );
        json::object_of(e)
    }

    fn to_json(&self) -> (r: serde_json::Value) {
        Entries::new()
            .with("method", self.method.to_json())
            .with("path", self.path.to_json())
            .with("selected_top", self.selected_top.to_json())
            .with("selected_top_sha", self.selected_top_sha.to_json())
            .with("ordered_pull_requests", self.ordered_pull_requests.to_json())
            .with("ordered_heads", self.ordered_heads.to_json())
            .with_unless_null("github_request_id", self.github_request_id.to_json())
            .object()
    }
}

impl JsonForm for GitHubStackMergeCheckpoint {
    open spec fn form(content: GitHubStackMergeCheckpointView) -> Json {
        let e = json::no_entries();
        let e = json::entry(e, "schema_version"@, <u32 as JsonForm>::form(content.schema_version));
        let e = json::entry(e, "repository"@, <RepositoryId as JsonForm>::form(content.repository));
        let e = json::entry(
            e,
            "plan"@,
            <GitHubStackAsyncMergePlan as JsonForm>::form(content.plan),
        );
        let e = json::entry(
            e,
            "request"@,
            <GitHubStackMergeRequestIdentity as JsonForm>::form(content.request),
        );
        let e = json::entry(e, "uuid"@, <String as JsonForm>::form(content.uuid));
        let e = json::entry(
            e,
            "initial_provider_status"@,
            <String as JsonForm>::form(content.initial_provider_status),
        );
        let e = json::entry(e, "evidence_hash"@, <String as JsonForm>::form(content.evidence_hash));
        json::object_of(e)
    }

    fn to_json(&self) -> (r: serde_json::Value) {
        Entries::new()
            .with("schema_version", self.schema_version.to_json())
            .with("repository", self.repository.to_json())
            .with("plan", self.plan.to_json())
            .with("request", self.request.to_json())
            .with("uuid", self.uuid.to_json())
            .with("initial_provider_status", self.initial_provider_status.to_json())
            .with("evidence_hash", self.evidence_hash.to_json())
            .object()
    }
}

impl JsonForm for GitHubStackMergePullRequestObservation {
    open spec fn form(content: GitHubStackMergePullRequestObservationView) -> Json {
        let e = json::no_entries();
        let e = json::entry(e, "pr"@, <PrNumber as JsonForm>::form(content.pr));
        let e = json::entry(e, "state"@, <PullRequestState as JsonForm>::form(content.state));
        let e = json::entry(e, "draft"@, <bool as JsonForm>::form(content.draft));
        let e = json::entry(e, "base"@, <BranchSnapshot as JsonForm>::form(content.base));
        let e = json::entry(e, "head"@, <BranchSnapshot as JsonForm>::form(content.head));
        let e = json::entry_unless_null(
            e,
            "merged_at"@,
            <Option<String> as JsonForm>::form(content.merged_at),
        );
        json::object_of(e)
    }

    fn to_json(&self) -> (r: serde_json::Value) {
        Entries::new()
            .with("pr", self.pr.to_json())
            .with("state", self.state.to_json())
            .with("draft", self.draft.to_json())
            .with("base", self.base.to_json())
            .with("head", self.head.to_json())
            .with_unless_null("merged_at", self.merged_at.to_json())
            .object()
    }
}

impl JsonForm for GitHubStackMergeObservation {
    open spec fn form(content: GitHubStackMergeObservationView) -> Json {
        let e = json::no_entries();
        let e = json::entry(
            e,
            "default_branch"@,
            <BranchSnapshot as JsonForm>::form(content.default_branch),
        );
        let e = json::entry(
            e,
            "selected"@,
            <Vec<GitHubStackMergePullRequestObservation> as JsonForm>::form(content.selected),
        );
        let e = json::entry(
            e,
            "remaining"@,
            <Vec<GitHubStackMergePullRequestObservation> as JsonForm>::form(content.remaining),
        );
        let e = json::entry_unless_null(
            e,
            "stack_after"@,
            <Option<GitHubStackGeneration> as JsonForm>::form(content.stack_after),
        );
        let e = json::entry(
            e,
            "selected_merged"@,
            <usize as JsonForm>::form(content.selected_merged),
        );
        let e = json::entry(
            e,
            "selected_heads_exact"@,
            <bool as JsonForm>::form(content.selected_heads_exact),
        );
        let e = json::entry(
            e,
            "changed_selected_heads"@,
            <Vec<PrNumber> as JsonForm>::form(content.changed_selected_heads),
        );
        let e = json::entry(
            e,
            "remaining_order_exact"@,
            <bool as JsonForm>::form(content.remaining_order_exact),
        );
        json::object_of(e)
    }

    fn to_json(&self) -> (r: serde_json::Value) {
        Entries::new()
            .with("default_branch", self.default_branch.to_json())
            .with("selected", self.selected.to_json())
            .with("remaining", self.remaining.to_json())
            .with_unless_null("stack_after", self.stack_after.to_json())
            .with("selected_merged", self.selected_merged.to_json())
            .with("selected_heads_exact", self.selected_heads_exact.to_json())
            .with("changed_selected_heads", self.changed_selected_heads.to_json())
            .with("remaining_order_exact", self.remaining_order_exact.to_json())
            .object()
    }
}

impl JsonForm for GitHubStackMergeReceipt {
    open spec fn form(content: GitHubStackMergeReceiptView) -> Json {
        let e = json::no_entries();
        let e = json::entry(e, "schema_version"@, <u32 as JsonForm>::form(content.schema_version));
        let e = json::entry(e, "repository"@, <RepositoryId as JsonForm>::form(content.repository));
        let e = json::entry(
            e,
            "plan"@,
            <GitHubStackAsyncMergePlan as JsonForm>::form(content.plan),
        );
        let e = json::entry(
            e,
            "request"@,
            <GitHubStackMergeRequestIdentity as JsonForm>::form(content.request),
        );
        let e = json::entry_unless_null(
            e,
            "checkpoint"@,
            <Option<GitHubStackMergeCheckpoint> as JsonForm>::form(content.checkpoint),
        );
        let e = json::entry(
            e,
            "status"@,
            <GitHubStackMergeStatus as JsonForm>::form(content.status),
        );
        let e = json::entry_unless_null(
            e,
            "provider_status"@,
            <Option<String> as JsonForm>::form(content.provider_status),
        );
        let e = json::entry_unless_null(
            e,
            "provider_message"@,
            <Option<String> as JsonForm>::form(content.provider_message),
        );
        let e = json::entry_unless_null(
            e,
            "provider_sha"@,
            <Option<CommitOid> as JsonForm>::form(content.provider_sha),
        );
        let e = json::entry_unless_null(
            e,
            "observation"@,
            <Option<GitHubStackMergeObservation> as JsonForm>::form(content.observation),
        );
        let e = json::entry(e, "evidence_hash"@, <String as JsonForm>::form(content.evidence_hash));
        json::object_of(e)
    }

    fn to_json(&self) -> (r: serde_json::Value) {
        Entries::new()
            .with("schema_version", self.schema_version.to_json())
            .with("repository", self.repository.to_json())
            .with("plan", self.plan.to_json())
            .with("request", self.request.to_json())
            .with_unless_null("checkpoint", self.checkpoint.to_json())
            .with("status", self.status.to_json())
            .with_unless_null("provider_status", self.provider_status.to_json())
            .with_unless_null("provider_message", self.provider_message.to_json())
            .with_unless_null("provider_sha", self.provider_sha.to_json())
            .with_unless_null("observation", self.observation.to_json())
            .with("evidence_hash", self.evidence_hash.to_json())
            .object()
    }
}

impl GitHubStackMergeCheckpointView {
    /// The checkpoint without its hash.
    pub open spec fn unsealed(self) -> GitHubStackMergeCheckpointView {
        GitHubStackMergeCheckpointView { evidence_hash: Seq::empty(), ..self }
    }

    /// The checkpoint with the hash of everything else in it.
    pub open spec fn sealed(self) -> GitHubStackMergeCheckpointView {
        GitHubStackMergeCheckpointView {
            evidence_hash: evidence::tree_hash(
                <GitHubStackMergeCheckpoint as JsonForm>::form(self.unsealed()),
            ),
            ..self
        }
    }

    /// Whether the hash is that of everything else.
    pub open spec fn intact(self) -> bool {
        self == self.sealed()
    }
}

impl GitHubStackMergeCheckpoint {
    /// The checkpoint with the hash of everything else in it.
    pub fn seal(self) -> (r: Self)
        ensures
            r.deep_view() == self.deep_view().sealed(),
    {
        let mut out = self.dup();
        out.evidence_hash = String::new();
        assert(out.deep_view() =~= self.deep_view().unsealed());
        let hash = hash_of(&out.to_json());
        out.evidence_hash = hash;
        out
    }

    /// Whether the hash is that of everything else.
    pub fn verify(&self) -> (r: bool)
        ensures
            r == self.deep_view().intact(),
    {
        let mut material = self.dup();
        material.evidence_hash = String::new();
        assert(material.deep_view() =~= self.deep_view().unsealed());
        let hash = hash_of(&material.to_json());
        let r = text_eq(hash.as_str(), self.evidence_hash.as_str());
        assert(r ==> self.deep_view() =~= self.deep_view().sealed());
        r
    }
}

/// A sealed checkpoint is intact, and sealing changes nothing but the hash.
pub proof fn lemma_sealed_merge_checkpoint_is_intact(checkpoint: GitHubStackMergeCheckpointView)
    ensures
        checkpoint.sealed().intact(),
        checkpoint.sealed().unsealed() == checkpoint.unsealed(),
{
    assert(checkpoint.sealed().unsealed() =~= checkpoint.unsealed());
    assert(checkpoint.sealed().sealed() =~= checkpoint.sealed());
}


impl GitHubStackMergeReceiptView {
    /// The receipt without its hash.
    pub open spec fn unsealed(self) -> GitHubStackMergeReceiptView {
        GitHubStackMergeReceiptView { evidence_hash: Seq::empty(), ..self }
    }

    /// The receipt with the hash of everything else in it.
    pub open spec fn sealed(self) -> GitHubStackMergeReceiptView {
        GitHubStackMergeReceiptView {
            evidence_hash: evidence::tree_hash(
                <GitHubStackMergeReceipt as JsonForm>::form(self.unsealed()),
            ),
            ..self
        }
    }

    /// Whether the hash is that of everything else.
    pub open spec fn intact(self) -> bool {
        self == self.sealed()
    }
}

impl GitHubStackMergeReceipt {
    /// The receipt with the hash of everything else in it.
    pub fn seal(self) -> (r: Self)
        ensures
            r.deep_view() == self.deep_view().sealed(),
    {
        let mut out = self.dup();
        out.evidence_hash = String::new();
        assert(out.deep_view() =~= self.deep_view().unsealed());
        let hash = hash_of(&out.to_json());
        out.evidence_hash = hash;
        out
    }

    /// Whether the hash is that of everything else.
    pub fn verify(&self) -> (r: bool)
        ensures
            r == self.deep_view().intact(),
    {
        let mut material = self.dup();
        material.evidence_hash = String::new();
        assert(material.deep_view() =~= self.deep_view().unsealed());
        let hash = hash_of(&material.to_json());
        let r = text_eq(hash.as_str(), self.evidence_hash.as_str());
        assert(r ==> self.deep_view() =~= self.deep_view().sealed());
        r
    }
}

/// A sealed receipt is intact, and sealing changes nothing but the hash.
pub proof fn lemma_sealed_merge_receipt_is_intact(receipt: GitHubStackMergeReceiptView)
    ensures
        receipt.sealed().intact(),
        receipt.sealed().unsealed() == receipt.unsealed(),
{
    assert(receipt.sealed().unsealed() =~= receipt.unsealed());
    assert(receipt.sealed().sealed() =~= receipt.sealed());
}


// ---------------------------------------------------------------------------
// Messages
// ---------------------------------------------------------------------------

impl GitHubStackMergeErrorView {
    /// The message of the error.
    pub open spec fn message(self) -> Seq<char> {
        match self {
            GitHubStackMergeErrorView::InvalidPlan { code, message } => code + ": "@ + message,
            GitHubStackMergeErrorView::StaleGeneration { .. } =>
                "GitHub Stack changed before async merge submission"@,
            GitHubStackMergeErrorView::InvalidCheckpoint { diagnostic } =>
                "invalid GitHub Stack merge checkpoint: "@ + diagnostic,
            GitHubStackMergeErrorView::Stack(error) => error.message(),
            GitHubStackMergeErrorView::Provider(error) => error.message(),
        }
    }
}

impl GitHubStackMergeError {
    /// The message of the error.
    pub fn to_text(&self) -> (r: String)
        ensures
            r@ == self.deep_view().message(),
    {
        match self {
            GitHubStackMergeError::InvalidPlan { code, message } => code.dup().concat(
                ": ",
            ).concat(message.as_str()),
            GitHubStackMergeError::StaleGeneration { .. } =>
                "GitHub Stack changed before async merge submission".to_owned(),
            GitHubStackMergeError::InvalidCheckpoint { diagnostic } =>
                "invalid GitHub Stack merge checkpoint: ".to_owned().concat(diagnostic.as_str()),
            GitHubStackMergeError::Stack(error) => error.to_text(),
            GitHubStackMergeError::Provider(error) => error.to_text(),
        }
    }
}

/// The content of an outcome.
pub open spec fn merge_view<T: DeepView>(outcome: Result<T, GitHubStackMergeError>) -> Result<
    T::V,
    GitHubStackMergeErrorView,
> {
    match outcome {
        Ok(value) => Ok(value.deep_view()),
        Err(error) => Err(error.deep_view()),
    }
}

/// A plan that is refused.
pub open spec fn merge_refused(code: Seq<char>, message: Seq<char>) -> GitHubStackMergeErrorView {
    GitHubStackMergeErrorView::InvalidPlan { code, message }
}

fn invalid_plan(code: &str, message: &str) -> (r: GitHubStackMergeError)
    ensures
        r.deep_view() == merge_refused(code@, message@),
{
    GitHubStackMergeError::InvalidPlan { code: code.to_owned(), message: message.to_owned() }
}

// ---------------------------------------------------------------------------
// Ready prefixes
// ---------------------------------------------------------------------------

/// A blocker, if it stands.
pub open spec fn blocking(stands: bool, blocker: GitHubStackMergeBlocker) -> Seq<
    GitHubStackMergeBlocker,
> {
    if stands {
        seq![blocker]
    } else {
        Seq::empty()
    }
}

/// What keeps an entry out of a ready prefix: the state of the Stack and of
/// the entry, then the refusals of the scheduler.
pub open spec fn entry_blockers(open: bool, item: GitHubStackMergeEntryEvidenceView) -> Seq<
    GitHubStackMergeBlocker,
> {
    let entry = item.generation;
    blocking(!open, GitHubStackMergeBlocker::StackClosed) + blocking(
        !stack::is_open(entry),
        GitHubStackMergeBlocker::PullRequestNotOpen,
    ) + blocking(entry.draft, GitHubStackMergeBlocker::Draft) + blocking(
        !text::same_ignoring_case(entry.stack_state, "open"@),
        GitHubStackMergeBlocker::StackEntryNotOpen,
    ) + item.blockers
}

/// How many entries from the bottom are ready.
pub open spec fn ready_count(
    open: bool,
    evidence: Seq<GitHubStackMergeEntryEvidenceView>,
) -> nat
    decreases evidence.len(),
{
    if evidence.len() == 0 {
        0
    } else {
        let below = ready_count(open, evidence.drop_last());
        if below < evidence.len() - 1 {
            below
        } else if entry_blockers(open, evidence.last()).len() == 0 {
            evidence.len()
        } else {
            below
        }
    }
}

/// The lowest position at which evidence is not about the entry.
pub open spec fn first_stale(
    entries: Seq<GitHubStackEntryGenerationView>,
    evidence: Seq<GitHubStackMergeEntryEvidenceView>,
) -> Option<nat>
    decreases evidence.len(),
{
    if evidence.len() == 0 {
        None
    } else {
        match first_stale(entries, evidence.drop_last()) {
            Some(at) => Some(at),
            None => if entries[evidence.len() - 1] != evidence.last().generation {
                Some((evidence.len() - 1) as nat)
            } else {
                None
            },
        }
    }
}

/// The longest ready prefix of a Stack, for evidence that covers exactly its
/// entries.
pub open spec fn ready_prefix(
    stack: GitHubStackGenerationView,
    evidence: Seq<GitHubStackMergeEntryEvidenceView>,
) -> Result<GitHubStackReadyPrefixView, GitHubStackMergeErrorView> {
    if evidence.len() != stack.topology.entries.len() {
        Err(
            merge_refused(
                "github_stack_merge_evidence_incomplete"@,
                "merge readiness evidence must cover every Stack entry"@,
            ),
        )
    } else {
        match first_stale(stack.topology.entries, evidence) {
            Some(at) => Err(
                merge_refused(
                    "github_stack_merge_evidence_stale"@,
                    "merge readiness evidence at position "@ + text::decimal(at)
                        + " is not the exact Stack generation"@,
                ),
            ),
            None => {
                let count = ready_count(stack.open, evidence);
                Ok(
                    GitHubStackReadyPrefixView {
                        stack,
                        selected: stack.topology.entries.take(count as int),
                        first_blocked: if count < evidence.len() {
                            let item = evidence[count as int];
                            Some(
                                GitHubStackBlockedEntryView {
                                    pr: item.generation.pr,
                                    position: item.generation.position,
                                    blockers: entry_blockers(stack.open, item),
                                },
                            )
                        } else {
                            None
                        },
                    },
                )
            },
        }
    }
}

/// The ready prefix is the longest: everything in it is ready, and the entry
/// above it, if there is one, is not.
pub proof fn lemma_ready_prefix_is_maximal(
    open: bool,
    evidence: Seq<GitHubStackMergeEntryEvidenceView>,
)
    ensures
        ready_count(open, evidence) <= evidence.len(),
        forall|i: int|
            0 <= i < ready_count(open, evidence) ==> entry_blockers(
                open,
                #[trigger] evidence[i],
            ).len() == 0,
        ready_count(open, evidence) < evidence.len() ==> entry_blockers(
            open,
            evidence[ready_count(open, evidence) as int],
        ).len() > 0,
    decreases evidence.len(),
{
    if evidence.len() > 0 {
        let below = evidence.drop_last();
        lemma_ready_prefix_is_maximal(open, below);
        assert forall|i: int| 0 <= i < ready_count(open, evidence) implies entry_blockers(
            open,
            #[trigger] evidence[i],
        ).len() == 0 by {
            if i < below.len() {
                assert(below[i] == evidence[i]);
            }
        }
        let k = ready_count(open, below) as int;
        if k < below.len() {
            assert(below[k] == evidence[k]);
        }
    }
}

fn block_if(out: &mut Vec<GitHubStackMergeBlocker>, stands: bool, blocker: GitHubStackMergeBlocker)
    ensures
        final(out).deep_view() == old(out).deep_view() + blocking(stands, blocker),
{
    if stands {
        push_item(out, blocker);
    }
    assert(out.deep_view() =~= old(out).deep_view() + blocking(stands, blocker));
}

fn blockers_of(open: bool, item: &GitHubStackMergeEntryEvidence) -> (r: Vec<
    GitHubStackMergeBlocker,
>)
    ensures
        r.deep_view() == entry_blockers(open, item.deep_view()),
{
    let entry = &item.generation;
    let mut out: Vec<GitHubStackMergeBlocker> = Vec::new();
    assert(out.deep_view() =~= Seq::<GitHubStackMergeBlocker>::empty());
    block_if(&mut out, !open, GitHubStackMergeBlocker::StackClosed);
    block_if(
        &mut out,
        !entry.pull_request_state.same(&PullRequestState::Open),
        GitHubStackMergeBlocker::PullRequestNotOpen,
    );
    block_if(&mut out, entry.draft, GitHubStackMergeBlocker::Draft);
    block_if(
        &mut out,
        !eq_ignore_case(entry.stack_state.as_str(), "open"),
        GitHubStackMergeBlocker::StackEntryNotOpen,
    );
    append_items(&mut out, item.blockers.dup());
    assert(out.deep_view() =~= entry_blockers(open, item.deep_view()));
    out
}

fn find_stale(
    entries: &Vec<GitHubStackEntryGeneration>,
    evidence: &[GitHubStackMergeEntryEvidence],
) -> (r: Option<usize>)
    requires
        entries.len() == evidence.len(),
    ensures
        match r {
            Some(at) => first_stale(entries.deep_view(), evidence.deep_view()) == Some(at as nat),
            None => first_stale(entries.deep_view(), evidence.deep_view()) is None,
        },
{
    let ghost all = evidence.deep_view();
    let mut found: Option<usize> = None;
    let mut i: usize = 0;
    while i < evidence.len()
        invariant
            entries.len() == evidence.len(),
            all == evidence.deep_view(),
            i <= evidence.len(),
            match found {
                Some(at) => first_stale(entries.deep_view(), all.take(i as int)) == Some(
                    at as nat,
                ),
                None => first_stale(entries.deep_view(), all.take(i as int)) is None,
            },
        decreases evidence.len() - i,
    {
        assert(all.take(i as int + 1).drop_last() =~= all.take(i as int));
        assert(all[i as int] == evidence[i as int].deep_view());
        assert(entries.deep_view()[i as int] == entries[i as int].deep_view());
        if found.is_none() && !entries[i].same(&evidence[i].generation) {
            found = Some(i);
        }
        i = i + 1;
    }
    assert(all.take(i as int) =~= all);
    found
}

/// The longest ready prefix of a Stack. Evidence must cover exactly its
/// entries, in order: less is refused, and never shortens the group.
pub fn plan_github_stack_ready_prefix(
    stack: &GitHubStackGeneration,
    evidence: &[GitHubStackMergeEntryEvidence],
) -> (r: Result<GitHubStackReadyPrefix, GitHubStackMergeError>)
    ensures
        merge_view(r) == ready_prefix(stack.deep_view(), evidence.deep_view()),
{
    let entries = &stack.topology.entries;
    if evidence.len() != entries.len() {
        return Err(
            invalid_plan(
                "github_stack_merge_evidence_incomplete",
                "merge readiness evidence must cover every Stack entry",
            ),
        );
    }
    match find_stale(entries, evidence) {
        Some(at) => {
            let message = "merge readiness evidence at position ".to_owned().concat(
                decimal_text(at as u64).as_str(),
            ).concat(" is not the exact Stack generation");
            return Err(invalid_plan("github_stack_merge_evidence_stale", message.as_str()));
        },
        None => {},
    }
    let ghost all = evidence.deep_view();
    let ghost open = stack.deep_view().open;
    let mut first_blocked: Option<GitHubStackBlockedEntry> = None;
    let mut count: usize = 0;
    while count < evidence.len() && first_blocked.is_none()
        invariant
            all == evidence.deep_view(),
            open == stack.open,
            count <= evidence.len(),
            ready_count(open, all.take(count as int)) == count,
            match first_blocked {
                None => true,
                Some(entry) => count < evidence.len() && entry_blockers(
                    open,
                    all[count as int],
                ).len() > 0 && entry.deep_view() == (GitHubStackBlockedEntryView {
                    pr: all[count as int].generation.pr,
                    position: all[count as int].generation.position,
                    blockers: entry_blockers(open, all[count as int]),
                }),
            },
        decreases evidence.len() - count + (if first_blocked is None {
            1int
        } else {
            0int
        }),
    {
        assert(all.take(count as int + 1).drop_last() =~= all.take(count as int));
        let item = &evidence[count];
        assert(all[count as int] == item.deep_view());
        let blockers = blockers_of(stack.open, item);
        if blockers.len() == 0 {
            count = count + 1;
        } else {
            first_blocked = Some(
                GitHubStackBlockedEntry {
                    pr: item.generation.pr,
                    position: item.generation.position,
                    blockers,
                },
            );
        }
    }
    proof {
        lemma_ready_count_stops(open, all, count as int);
    }
    let selected = dup_range(entries, 0, count);
    assert(selected.deep_view() =~= entries.deep_view().take(count as int));
    Ok(GitHubStackReadyPrefix { stack: stack.dup(), selected, first_blocked })
}

proof fn lemma_ready_count_stops(
    open: bool,
    evidence: Seq<GitHubStackMergeEntryEvidenceView>,
    k: int,
)
    requires
        0 <= k <= evidence.len(),
        ready_count(open, evidence.take(k)) == k,
        k < evidence.len() ==> entry_blockers(open, evidence[k]).len() > 0,
    ensures
        ready_count(open, evidence) == k,
{
    lemma_ready_prefix_is_maximal(open, evidence.take(k));
    lemma_ready_prefix_is_maximal(open, evidence);
    let n = ready_count(open, evidence) as int;
    if n < k {
        assert(evidence.take(k)[n] == evidence[n]);
    }
    if n > k {
        assert(entry_blockers(open, evidence[k]).len() == 0);
    }
}

impl GitHubStackReadyPrefix {
    /// The direct atomic squash of a selection that is not empty.
    pub fn direct_squash_plan(&self, operation_id: &str, actor: &str) -> (r: Result<
        GitHubStackAsyncMergePlan,
        GitHubStackMergeError,
    >)
        ensures
            merge_view(r) == if self.deep_view().selected.len() == 0 {
                Err(
                    merge_refused(
                        "github_stack_no_ready_prefix"@,
                        "native Stack merge requires at least one ready bottom entry"@,
                    ),
                )
            } else {
                Ok(
                    GitHubStackAsyncMergePlanView {
                        operation_id: operation_id@,
                        actor: actor@,
                        before: self.deep_view().stack,
                        selected: self.deep_view().selected,
                        merge_method: GitHubStackMergeMethod::Squash,
                        merge_action: GitHubStackMergeAction::DirectMerge,
                    },
                )
            },
    {
        if self.selected.len() == 0 {
            return Err(
                invalid_plan(
                    "github_stack_no_ready_prefix",
                    "native Stack merge requires at least one ready bottom entry",
                ),
            );
        }
        Ok(
            GitHubStackAsyncMergePlan {
                operation_id: operation_id.to_owned(),
                actor: actor.to_owned(),
                before: self.stack.dup(),
                selected: self.selected.dup(),
                merge_method: GitHubStackMergeMethod::Squash,
                merge_action: GitHubStackMergeAction::DirectMerge,
            },
        )
    }
}

// ---------------------------------------------------------------------------
// Plans and checkpoints
// ---------------------------------------------------------------------------

/// Whether some entry cannot be merged.
pub open spec fn some_ineligible(entries: Seq<GitHubStackEntryGenerationView>) -> bool {
    exists|i: int| 0 <= i < entries.len() && stack::ineligible(#[trigger] entries[i])
}

/// Why a merge is refused.
pub open spec fn merge_refusal(
    repository: RepositoryIdView,
    plan: GitHubStackAsyncMergePlanView,
) -> Option<GitHubStackMergeErrorView> {
    let entries = plan.before.topology.entries;
    if text::is_blank(plan.operation_id) {
        Some(
            merge_refused(
                "github_stack_merge_operation_id_missing"@,
                "native Stack merge requires a non-empty operation identity"@,
            ),
        )
    } else if text::is_blank(plan.actor) {
        Some(
            merge_refused(
                "github_stack_merge_actor_missing"@,
                "native Stack merge requires a non-empty actor"@,
            ),
        )
    } else if plan.before.topology.base.repository != repository {
        Some(
            merge_refused(
                "github_stack_merge_repository_mismatch"@,
                "native Stack merge generation belongs to another repository"@,
            ),
        )
    } else if plan.selected.len() == 0 || plan.selected.len() > entries.len() {
        Some(
            merge_refused(
                "github_stack_merge_prefix_invalid"@,
                "selected Stack merge prefix must be non-empty and bounded by the Stack"@,
            ),
        )
    } else if !plan.before.open || plan.selected != entries.take(plan.selected.len() as int) {
        Some(
            merge_refused(
                "github_stack_merge_prefix_invalid"@,
                "selected entries must be the exact bottom prefix of one open Stack generation"@,
            ),
        )
    } else if some_ineligible(plan.selected) {
        Some(
            merge_refused(
                "github_stack_merge_entry_ineligible"@,
                "every selected Stack entry must be open and non-draft"@,
            ),
        )
    } else {
        None
    }
}

fn has_ineligible(entries: &Vec<GitHubStackEntryGeneration>) -> (r: bool)
    ensures
        r == some_ineligible(entries.deep_view()),
{
    let ghost all = entries.deep_view();
    let mut i: usize = 0;
    while i < entries.len()
        invariant
            all == entries.deep_view(),
            i <= entries.len(),
            forall|j: int| 0 <= j < i ==> !stack::ineligible(#[trigger] all[j]),
        decreases entries.len() - i,
    {
        let entry = &entries[i];
        assert(all[i as int] == entry.deep_view());
        if !entry.pull_request_state.same(&PullRequestState::Open) || entry.draft
            || !eq_ignore_case(entry.stack_state.as_str(), "open") {
            return true;
        }
        i = i + 1;
    }
    false
}

/// Whether a merge can be asked for.
pub fn validate_merge_plan(
    repository: &RepositoryId,
    plan: &GitHubStackAsyncMergePlan,
) -> (r: Result<
    (),
    GitHubStackMergeError,
>)
    ensures
        merge_view(r) == match merge_refusal(repository.deep_view(), plan.deep_view()) {
            Some(error) => Err(error),
            None => Ok(()),
        },
{
    let entries = &plan.before.topology.entries;
    if blank(plan.operation_id.as_str()) {
        return Err(
            invalid_plan(
                "github_stack_merge_operation_id_missing",
                "native Stack merge requires a non-empty operation identity",
            ),
        );
    }
    if blank(plan.actor.as_str()) {
        return Err(
            invalid_plan(
                "github_stack_merge_actor_missing",
                "native Stack merge requires a non-empty actor",
            ),
        );
    }
    if !plan.before.topology.base.repository.same(repository) {
        return Err(
            invalid_plan(
                "github_stack_merge_repository_mismatch",
                "native Stack merge generation belongs to another repository",
            ),
        );
    }
    if plan.selected.len() == 0 || plan.selected.len() > entries.len() {
        return Err(
            invalid_plan(
                "github_stack_merge_prefix_invalid",
                "selected Stack merge prefix must be non-empty and bounded by the Stack",
            ),
        );
    }
    let prefix = dup_range(entries, 0, plan.selected.len());
    assert(prefix.deep_view() =~= entries.deep_view().take(plan.selected.len() as int));
    if !plan.before.open || !plan.selected.same(&prefix) {
        return Err(
            invalid_plan(
                "github_stack_merge_prefix_invalid",
                "selected entries must be the exact bottom prefix of one open Stack generation",
            ),
        );
    }
    if has_ineligible(&plan.selected) {
        return Err(
            invalid_plan(
                "github_stack_merge_entry_ineligible",
                "every selected Stack entry must be open and non-draft",
            ),
        );
    }
    Ok(())
}

/// The plan of a ready prefix that is not empty is accepted, if its Stack is in
/// the repository and the operation is identified.
pub proof fn lemma_ready_prefix_is_accepted(
    repository: RepositoryIdView,
    stack: GitHubStackGenerationView,
    evidence: Seq<GitHubStackMergeEntryEvidenceView>,
    plan: GitHubStackAsyncMergePlanView,
)
    requires
        ready_prefix(stack, evidence) is Ok,
        plan.before == stack,
        plan.selected == ready_prefix(stack, evidence)->Ok_0.selected,
        plan.selected.len() > 0,
        stack.topology.base.repository == repository,
        !text::is_blank(plan.operation_id),
        !text::is_blank(plan.actor),
    ensures
        merge_refusal(repository, plan) is None,
{
    let entries = stack.topology.entries;
    lemma_ready_prefix_is_maximal(stack.open, evidence);
    lemma_fresh_evidence(entries, evidence);
    assert(entry_blockers(stack.open, evidence[0]).len() == 0);
    assert(stack.open);
    assert forall|i: int| 0 <= i < plan.selected.len() implies !stack::ineligible(
        #[trigger] plan.selected[i],
    ) by {
        assert(evidence[i].generation == entries[i]);
        assert(entry_blockers(stack.open, evidence[i]).len() == 0);
    }
}

proof fn lemma_fresh_evidence(
    entries: Seq<GitHubStackEntryGenerationView>,
    evidence: Seq<GitHubStackMergeEntryEvidenceView>,
)
    requires
        first_stale(entries, evidence) is None,
    ensures
        forall|i: int|
            0 <= i < evidence.len() ==> (#[trigger] evidence[i]).generation == entries[i],
    decreases evidence.len(),
{
    if evidence.len() > 0 {
        lemma_fresh_evidence(entries, evidence.drop_last());
        assert forall|i: int| 0 <= i < evidence.len() implies (
        #[trigger] evidence[i]).generation == entries[i] by {
            if i < evidence.len() - 1 {
                assert(evidence.drop_last()[i] == evidence[i]);
            }
        }
    }
}

/// The heads of entries.
pub open spec fn entry_heads(entries: Seq<GitHubStackEntryGenerationView>) -> Seq<Seq<char>> {
    Seq::new(entries.len(), |i: int| entries[i].head.oid)
}

fn heads_of(entries: &Vec<GitHubStackEntryGeneration>) -> (r: Vec<CommitOid>)
    ensures
        r.deep_view() == entry_heads(entries.deep_view()),
{
    let ghost all = entries.deep_view();
    let mut out: Vec<CommitOid> = Vec::new();
    let mut i: usize = 0;
    while i < entries.len()
        invariant
            all == entries.deep_view(),
            i <= entries.len(),
            out.deep_view() == entry_heads(all).take(i as int),
        decreases entries.len() - i,
    {
        assert(all[i as int] == entries[i as int].deep_view());
        push_item(&mut out, entries[i].head.oid.dup());
        i = i + 1;
        assert(out.deep_view() =~= entry_heads(all).take(i as int));
    }
    assert(out.deep_view() =~= entry_heads(all));
    out
}

/// The path of a merge.
pub open spec fn merge_path(repository: RepositoryIdView, top: PrNumber) -> Seq<char> {
    "repos/"@ + repository.slug() + "/pulls/"@ + model::pr_text(top) + "/merge-async"@
}

fn path_of_merge(repository: &RepositoryId, top: PrNumber) -> (r: String)
    ensures
        r@ == merge_path(repository.deep_view(), top),
{
    "repos/".to_owned().concat(repository.slug().as_str()).concat("/pulls/").concat(
        top.to_text().as_str(),
    ).concat("/merge-async")
}

/// The identity of the request of a plan.
pub open spec fn merge_identity(
    repository: RepositoryIdView,
    plan: GitHubStackAsyncMergePlanView,
) -> GitHubStackMergeRequestIdentityView {
    GitHubStackMergeRequestIdentityView {
        method: "PUT"@,
        path: merge_path(repository, plan.selected.last().pr),
        selected_top: plan.selected.last().pr,
        selected_top_sha: plan.selected.last().head.oid,
        ordered_pull_requests: stack::entry_prs(plan.selected),
        ordered_heads: entry_heads(plan.selected),
        github_request_id: None,
    }
}

/// The identity of the request of a plan.
pub fn merge_request_identity(repository: &RepositoryId, plan: &GitHubStackAsyncMergePlan) -> (r:
    GitHubStackMergeRequestIdentity)
    requires
        plan.selected.len() > 0,
    ensures
        r.deep_view() == merge_identity(repository.deep_view(), plan.deep_view()),
{
    let top = &plan.selected[plan.selected.len() - 1];
    assert(plan.deep_view().selected.last() == top.deep_view());
    let ordered_pull_requests = prs_from(&plan.selected, 0);
    assert(plan.selected.deep_view().skip(0) =~= plan.selected.deep_view());
    GitHubStackMergeRequestIdentity {
        method: "PUT".to_owned(),
        path: path_of_merge(repository, top.pr),
        selected_top: top.pr,
        selected_top_sha: top.head.oid.dup(),
        ordered_pull_requests,
        ordered_heads: heads_of(&plan.selected),
        github_request_id: None,
    }
}

/// Whether a character may stand in an identifier.
pub open spec fn uuid_char(c: char) -> bool {
    ('a' <= c && c <= 'z') || ('A' <= c && c <= 'Z') || ('0' <= c && c <= '9') || c == '-'
}

/// Whether a text is an identifier: not empty, not too long, and only letters,
/// digits and hyphens of ASCII.
pub open spec fn valid_uuid(s: Seq<char>) -> bool {
    0 < s.len() <= 128 && forall|i: int| 0 <= i < s.len() ==> uuid_char(#[trigger] s[i])
}

fn is_uuid_char(c: char) -> (r: bool)
    ensures
        r == uuid_char(c),
{
    ('a' <= c && c <= 'z') || ('A' <= c && c <= 'Z') || ('0' <= c && c <= '9') || c == '-'
}

/// Whether a text is an identifier.
pub fn valid_async_uuid(value: &str) -> (r: bool)
    ensures
        r == valid_uuid(value@),
{
    let chars = chars_of(value);
    if chars.len() == 0 || chars.len() > 128 {
        return false;
    }
    let mut i: usize = 0;
    while i < chars.len()
        invariant
            chars@ == value@,
            i <= chars.len(),
            forall|j: int| 0 <= j < i ==> uuid_char(#[trigger] value@[j]),
        decreases chars.len() - i,
    {
        if !is_uuid_char(chars[i]) {
            return false;
        }
        i = i + 1;
    }
    true
}

/// A checkpoint that is refused.
pub open spec fn bad_checkpoint(diagnostic: Seq<char>) -> GitHubStackMergeErrorView {
    GitHubStackMergeErrorView::InvalidCheckpoint { diagnostic }
}

/// Whether two requests are the same, whatever their responses.
pub open spec fn same_request(
    a: GitHubStackMergeRequestIdentityView,
    b: GitHubStackMergeRequestIdentityView,
) -> bool {
    a.method == b.method && a.path == b.path && a.selected_top == b.selected_top
        && a.selected_top_sha == b.selected_top_sha && a.ordered_pull_requests
        == b.ordered_pull_requests && a.ordered_heads == b.ordered_heads
}

/// Why a checkpoint is refused.
pub open spec fn checkpoint_refusal(
    repository: RepositoryIdView,
    checkpoint: GitHubStackMergeCheckpointView,
) -> Option<GitHubStackMergeErrorView> {
    if checkpoint.schema_version != STACK_MERGE_SCHEMA_VERSION {
        Some(
            bad_checkpoint(
                "schema version "@ + text::decimal(checkpoint.schema_version as nat)
                    + " is unsupported"@,
            ),
        )
    } else if !checkpoint.intact() {
        Some(bad_checkpoint("evidence hash does not match"@))
    } else if checkpoint.repository != repository || !valid_uuid(checkpoint.uuid) {
        Some(bad_checkpoint("repository or UUID does not match the persisted intent"@))
    } else {
        match merge_refusal(repository, checkpoint.plan) {
            Some(error) => Some(error),
            None => if !same_request(
                checkpoint.request,
                merge_identity(repository, checkpoint.plan),
            ) {
                Some(
                    bad_checkpoint("request identity does not match the sealed merge plan"@),
                )
            } else {
                None
            },
        }
    }
}

fn bad(diagnostic: &str) -> (r: GitHubStackMergeError)
    ensures
        r.deep_view() == bad_checkpoint(diagnostic@),
{
    GitHubStackMergeError::InvalidCheckpoint { diagnostic: diagnostic.to_owned() }
}

/// Whether a checkpoint can be polled.
pub fn validate_checkpoint(
    repository: &RepositoryId,
    checkpoint: &GitHubStackMergeCheckpoint,
) -> (r: Result<(), GitHubStackMergeError>)
    ensures
        merge_view(r) == match checkpoint_refusal(
            repository.deep_view(),
            checkpoint.deep_view(),
        ) {
            Some(error) => Err(error),
            None => Ok(()),
        },
{
    if checkpoint.schema_version != STACK_MERGE_SCHEMA_VERSION {
        let diagnostic = "schema version ".to_owned().concat(
            decimal_text(checkpoint.schema_version as u64).as_str(),
        ).concat(" is unsupported");
        return Err(bad(diagnostic.as_str()));
    }
    if !checkpoint.verify() {
        return Err(bad("evidence hash does not match"));
    }
    if !checkpoint.repository.same(repository) || !valid_async_uuid(checkpoint.uuid.as_str()) {
        return Err(bad("repository or UUID does not match the persisted intent"));
    }
    match validate_merge_plan(repository, &checkpoint.plan) {
        Err(error) => {
            return Err(error);
        },
        Ok(_) => {},
    }
    let expected = merge_request_identity(repository, &checkpoint.plan);
    let request = &checkpoint.request;
    if !request.method.same(&expected.method) || !request.path.same(&expected.path)
        || !request.selected_top.same(&expected.selected_top) || !request.selected_top_sha.same(
        &expected.selected_top_sha,
    ) || !request.ordered_pull_requests.same(&expected.ordered_pull_requests)
        || !request.ordered_heads.same(&expected.ordered_heads) {
        return Err(bad("request identity does not match the sealed merge plan"));
    }
    Ok(())
}

impl GitHubStackMergeMethod {
    /// The word of the provider.
    pub open spec fn word(self) -> Seq<char> {
        match self {
            GitHubStackMergeMethod::Squash => "squash"@,
        }
    }

    fn provider_value(self) -> (r: &'static str)
        ensures
            r@ == self.word(),
    {
        match self {
            GitHubStackMergeMethod::Squash => "squash",
        }
    }
}

impl GitHubStackMergeAction {
    /// The word of the provider.
    pub open spec fn word(self) -> Seq<char> {
        match self {
            GitHubStackMergeAction::DirectMerge => "direct_merge"@,
        }
    }

    fn provider_value(self) -> (r: &'static str)
        ensures
            r@ == self.word(),
    {
        match self {
            GitHubStackMergeAction::DirectMerge => "direct_merge",
        }
    }
}

impl GitHubStackAsyncMergePlanView {
    /// The lock of everything selected.
    pub open spec fn lock_plan(self) -> GitHubStackBranchLockPlanView {
        GitHubStackBranchLockPlanView {
            operation_id: self.operation_id,
            actor: self.actor,
            stack_number: self.before.number,
            selected: self.selected,
        }
    }
}

impl GitHubStackAsyncMergePlan {
    /// The lock of everything selected.
    pub fn branch_lock_plan(&self) -> (r: GitHubStackBranchLockPlan)
        ensures
            r.deep_view() == self.deep_view().lock_plan(),
    {
        GitHubStackBranchLockPlan {
            operation_id: self.operation_id.dup(),
            actor: self.actor.dup(),
            stack_number: self.before.number,
            selected: self.selected.dup(),
        }
    }
}

// ---------------------------------------------------------------------------
// Commands
// ---------------------------------------------------------------------------

/// A call of the merge resource, with the headers of its response.
pub fn stack_merge_api_command(method: &str, path: &str) -> (r: CommandSpec)
    ensures
        r.deep_view() == stack::stack_api(method@, path@, true, Seq::empty()),
{
    let tail: Vec<&str> = Vec::new();
    assert(tail.deep_view() =~= Seq::<Seq<char>>::empty());
    stack_api_command(method, path, true, tail)
}

/// The body of a merge request.
pub open spec fn merge_body(
    sha: Seq<char>,
    method: GitHubStackMergeMethod,
    action: GitHubStackMergeAction,
) -> Seq<char> {
    let e1 = json::entry(json::no_entries(), "sha"@, Json::Text(sha));
    let e2 = json::entry(e1, "merge_method"@, Json::Text(method.word()));
    let e3 = json::entry(e2, "merge_action"@, Json::Text(action.word()));
    json::json_text(json::object_of(e3))
}

/// The merge request of a plan.
pub open spec fn merge_submit(
    repository: RepositoryIdView,
    plan: GitHubStackAsyncMergePlanView,
) -> CommandSpecView {
    stack::stack_api(
        "PUT"@,
        merge_path(repository, plan.selected.last().pr),
        true,
        seq!["--input"@, "-"@],
    ).fed(merge_body(plan.selected.last().head.oid, plan.merge_method, plan.merge_action))
}

pub fn native_stack_merge_submit_command(
    repository: &RepositoryId,
    plan: &GitHubStackAsyncMergePlan,
) -> (r: CommandSpec)
    requires
        plan.selected.len() > 0,
    ensures
        r.deep_view() == merge_submit(repository.deep_view(), plan.deep_view()),
{
    let top = &plan.selected[plan.selected.len() - 1];
    assert(plan.deep_view().selected.last() == top.deep_view());
    let path = path_of_merge(repository, top.pr);
    let tail = vec!["--input", "-"];
    assert(tail.deep_view() =~= seq!["--input"@, "-"@]);
    let body = Entries::new().with("sha", top.head.oid.to_json()).with(
        "merge_method",
        json_string(plan.merge_method.provider_value()),
    ).with("merge_action", json_string(plan.merge_action.provider_value())).object();
    stack_api_command("PUT", path.as_str(), true, tail).stdin(compact_text(&body))
}

/// The path of a poll.
pub open spec fn poll_path(repository: RepositoryIdView, top: PrNumber, uuid: Seq<char>) -> Seq<
    char,
> {
    merge_path(repository, top) + "/"@ + uuid
}

/// One poll of a merge.
pub open spec fn merge_poll(
    repository: RepositoryIdView,
    checkpoint: GitHubStackMergeCheckpointView,
) -> CommandSpecView {
    stack::stack_api(
        "GET"@,
        poll_path(repository, checkpoint.request.selected_top, checkpoint.uuid),
        true,
        Seq::empty(),
    )
}

fn path_of_poll(repository: &RepositoryId, top: PrNumber, uuid: &str) -> (r: String)
    ensures
        r@ == poll_path(repository.deep_view(), top, uuid@),
{
    path_of_merge(repository, top).concat("/").concat(uuid)
}

pub fn native_stack_merge_poll_command(
    repository: &RepositoryId,
    checkpoint: &GitHubStackMergeCheckpoint,
) -> (r: CommandSpec)
    ensures
        r.deep_view() == merge_poll(repository.deep_view(), checkpoint.deep_view()),
{
    let path = path_of_poll(repository, checkpoint.request.selected_top, checkpoint.uuid.as_str());
    stack_merge_api_command("GET", path.as_str())
}

// ---------------------------------------------------------------------------
// Responses
// ---------------------------------------------------------------------------

/// What stands behind the headers of a response.
pub open spec fn body_of(stdout: Seq<char>) -> Seq<char> {
    match text::split_first(stdout, "\r\n\r\n"@) {
        Some((_, body)) => body,
        None => match text::split_first(stdout, "\n\n"@) {
            Some((_, body)) => body,
            None => stdout,
        },
    }
}

/// The document of a response, with headers or without.
pub open spec fn included_tree(stdout: Seq<char>) -> Option<Json> {
    match json::json_read(text::trimmed(stdout)) {
        Ok(tree) => Some(tree),
        Err(_) => match json::json_read(text::trimmed(body_of(stdout))) {
            Ok(tree) => Some(tree),
            Err(_) => None,
        },
    }
}

/// A text of a response, at the top or among its details.
pub open spec fn response_text(tree: Json, name: Seq<char>) -> Option<Seq<char>> {
    match tree.field_or_null(name).text() {
        Some(value) => Some(value),
        None => tree.field_or_null("details"@).field_or_null(name).text(),
    }
}

/// A response that says nothing.
pub open spec fn nothing_said() -> ProviderAsyncMergeResultView {
    ProviderAsyncMergeResultView {
        uuid: None,
        status: None,
        message: None,
        sha: None,
        expected_head_sha: None,
        merge_method: None,
        merge_action: None,
    }
}

/// What a reply says of a merge.
pub open spec fn merge_result(reply: Reply) -> ProviderAsyncMergeResultView {
    match reply {
        Err(_) => nothing_said(),
        Ok(output) => match included_tree(output.stdout) {
            None => nothing_said(),
            Some(tree) => ProviderAsyncMergeResultView {
                uuid: response_text(tree, "uuid"@),
                status: response_text(tree, "status"@),
                message: response_text(tree, "message"@),
                sha: response_text(tree, "sha"@),
                expected_head_sha: response_text(tree, "expected_head_sha"@),
                merge_method: response_text(tree, "merge_method"@),
                merge_action: response_text(tree, "merge_action"@),
            },
        },
    }
}

fn read_included(stdout: &str) -> (r: Option<serde_json::Value>)
    ensures
        match r {
            Some(value) => included_tree(stdout@) == Some(json::json_tree(value)),
            None => included_tree(stdout@) is None,
        },
{
    match parse(trim(stdout).as_str()) {
        Ok(value) => Some(value),
        Err(_) => {
            let body = match split_once(stdout, "\r\n\r\n") {
                Some((_, body)) => body,
                None => match split_once(stdout, "\n\n") {
                    Some((_, body)) => body,
                    None => stdout.to_owned(),
                },
            };
            match parse(trim(body.as_str()).as_str()) {
                Ok(value) => Some(value),
                Err(_) => None,
            }
        },
    }
}

fn text_member(value: &serde_json::Value, name: &str) -> (r: Option<String>)
    ensures
        r.deep_view() == json::json_tree(*value).field_or_null(name@).text(),
{
    match get(value, name) {
        Some(found) => match found.as_str() {
            Some(said) => Some(said.to_owned()),
            None => None,
        },
        None => None,
    }
}

fn read_text(value: &serde_json::Value, name: &str) -> (r: Option<String>)
    ensures
        r.deep_view() == response_text(json::json_tree(*value), name@),
{
    match text_member(value, name) {
        Some(said) => Some(said),
        None => match get(value, "details") {
            Some(details) => text_member(details, name),
            None => None,
        },
    }
}

fn as_oid(said: Option<String>) -> (r: Option<CommitOid>)
    ensures
        r.deep_view() == said.deep_view(),
{
    match said {
        Some(oid) => Some(CommitOid(oid)),
        None => None,
    }
}

/// What a reply says of a merge.
pub fn parse_async_merge_response(reply: &Result<CommandOutput, CommandRunError>) -> (r:
    ProviderAsyncMergeResult)
    ensures
        r.deep_view() == merge_result(command::reply_view(*reply)),
{
    let read = match reply {
        Err(_) => None,
        Ok(output) => read_included(output.stdout.as_str()),
    };
    match read {
        None => ProviderAsyncMergeResult {
            uuid: None,
            status: None,
            message: None,
            sha: None,
            expected_head_sha: None,
            merge_method: None,
            merge_action: None,
        },
        Some(value) => ProviderAsyncMergeResult {
            uuid: read_text(&value, "uuid"),
            status: read_text(&value, "status"),
            message: read_text(&value, "message"),
            sha: as_oid(read_text(&value, "sha")),
            expected_head_sha: as_oid(read_text(&value, "expected_head_sha")),
            merge_method: read_text(&value, "merge_method"),
            merge_action: read_text(&value, "merge_action"),
        },
    }
}

/// A status word of the provider, where it is known.
pub open spec fn known_status(status: Option<Seq<char>>) -> Option<GitHubStackMergeStatus> {
    match status {
        None => None,
        Some(word) => {
            let s = text::lowered(word);
            if s == "pending"@ {
                Some(GitHubStackMergeStatus::Pending)
            } else if s == "enqueued"@ {
                Some(GitHubStackMergeStatus::Enqueued)
            } else if s == "merged"@ {
                Some(GitHubStackMergeStatus::Merged)
            } else if s == "failed"@ {
                Some(GitHubStackMergeStatus::Failed)
            } else {
                None
            }
        },
    }
}

/// A status word of the provider, where it is known.
pub fn normalized_provider_status(status: &Option<String>) -> (r: Option<GitHubStackMergeStatus>)
    ensures
        r == known_status(status.deep_view()),
{
    match status {
        None => None,
        Some(word) => {
            let s = lowercase(word.as_str());
            if text_eq(s.as_str(), "pending") {
                Some(GitHubStackMergeStatus::Pending)
            } else if text_eq(s.as_str(), "enqueued") {
                Some(GitHubStackMergeStatus::Enqueued)
            } else if text_eq(s.as_str(), "merged") {
                Some(GitHubStackMergeStatus::Merged)
            } else if text_eq(s.as_str(), "failed") {
                Some(GitHubStackMergeStatus::Failed)
            } else {
                None
            }
        },
    }
}

/// What a response shows, for a message.
pub open spec fn diagnostic_of(output: CommandOutputView) -> Option<Seq<char>> {
    let value = if text::is_blank(output.stderr) {
        text::trimmed(output.stdout)
    } else {
        text::trimmed(output.stderr)
    };
    if value.len() == 0 {
        None
    } else {
        Some(text::excerpt(value))
    }
}

fn provider_diagnostic(output: &CommandOutput) -> (r: Option<String>)
    ensures
        r.deep_view() == diagnostic_of(output.deep_view()),
{
    let value = if blank(output.stderr.as_str()) {
        trim(output.stdout.as_str())
    } else {
        trim(output.stderr.as_str())
    };
    if value.as_str().is_empty() {
        None
    } else {
        Some(diagnostic_excerpt(value.as_str()))
    }
}

/// The message of a reply: what it says, else what failed, else what it shows.
pub open spec fn merge_message(reply: Reply) -> Option<Seq<char>> {
    match merge_result(reply).message {
        Some(message) => Some(message),
        None => match reply {
            Err(error) => Some(error.message()),
            Ok(output) => diagnostic_of(output),
        },
    }
}

fn message_of(
    said: &ProviderAsyncMergeResult,
    reply: &Result<CommandOutput, CommandRunError>,
) -> (r: Option<String>)
    requires
        said.deep_view() == merge_result(command::reply_view(*reply)),
    ensures
        r.deep_view() == merge_message(command::reply_view(*reply)),
{
    match &said.message {
        Some(message) => Some(message.dup()),
        None => match reply {
            Err(error) => Some(error.to_text()),
            Ok(output) => provider_diagnostic(output),
        },
    }
}

/// Whether the provider speaks of exactly the request of a plan.
pub open spec fn speaks_of(
    said: ProviderAsyncMergeResultView,
    plan: GitHubStackAsyncMergePlanView,
) -> bool {
    plan.selected.len() > 0 && said.expected_head_sha == Some(plan.selected.last().head.oid)
        && said.merge_method == Some(plan.merge_method.word()) && said.merge_action == Some(
        plan.merge_action.word(),
    )
}

fn is_text(said: &Option<String>, wanted: &str) -> (r: bool)
    ensures
        r == (said.deep_view() == Some(wanted@)),
{
    match said {
        Some(value) => text_eq(value.as_str(), wanted),
        None => false,
    }
}

/// Whether the provider speaks of exactly the request of a plan.
pub fn provider_request_matches_plan(
    said: &ProviderAsyncMergeResult,
    plan: &GitHubStackAsyncMergePlan,
) -> (r: bool)
    ensures
        r == speaks_of(said.deep_view(), plan.deep_view()),
{
    if plan.selected.len() == 0 {
        return false;
    }
    let top = &plan.selected[plan.selected.len() - 1];
    assert(plan.deep_view().selected.last() == top.deep_view());
    let leased = match &said.expected_head_sha {
        Some(oid) => oid.same(&top.head.oid),
        None => false,
    };
    leased && is_text(&said.merge_method, plan.merge_method.provider_value()) && is_text(
        &said.merge_action,
        plan.merge_action.provider_value(),
    )
}

// ---------------------------------------------------------------------------
// Observations
// ---------------------------------------------------------------------------

/// A pull request after a merge request.
pub open spec fn observation_of_pr(pr: PullRequestSnapshotView) ->
    GitHubStackMergePullRequestObservationView {
    GitHubStackMergePullRequestObservationView {
        pr: pr.number,
        state: pr.state,
        draft: pr.draft,
        base: pr.base,
        head: pr.head,
        merged_at: pr.merged_at,
    }
}

fn observe_pr(pr: PullRequestSnapshot) -> (r: GitHubStackMergePullRequestObservation)
    ensures
        r.deep_view() == observation_of_pr(pr.deep_view()),
{
    GitHubStackMergePullRequestObservation {
        pr: pr.number,
        state: pr.state,
        draft: pr.draft,
        base: pr.base,
        head: pr.head,
        merged_at: pr.merged_at,
    }
}

/// The pull requests of reads, up to the first that fails.
pub open spec fn observed_prs(
    reads: Seq<Result<PullRequestSnapshotView, MutationErrorView>>,
) -> Result<Seq<GitHubStackMergePullRequestObservationView>, MutationErrorView>
    decreases reads.len(),
{
    if reads.len() == 0 {
        Ok(Seq::empty())
    } else {
        match observed_prs(reads.drop_last()) {
            Err(error) => Err(error),
            Ok(list) => match reads.last() {
                Err(error) => Err(error),
                Ok(pr) => Ok(list.push(observation_of_pr(pr))),
            },
        }
    }
}

/// Reading all pull requests of entries may end so.
pub open spec fn prs_observed<R: CommandRunner>(
    runner: R,
    repository: RepositoryIdView,
    prs: Seq<PrNumber>,
    outcome: Result<Seq<GitHubStackMergePullRequestObservationView>, MutationErrorView>,
) -> bool {
    exists|reads: Seq<Result<PullRequestSnapshotView, MutationErrorView>>| #[trigger]
        adapter::refetched_each(runner, repository, prs, reads) && outcome == observed_prs(reads)
            && (outcome is Ok ==> outcome->Ok_0.len() == prs.len())
}

/// Whether a pull request is merged for good.
pub open spec fn is_merged(row: GitHubStackMergePullRequestObservationView) -> bool {
    row.state == PullRequestState::Merged && row.merged_at is Some
}

/// How many pull requests are merged.
pub open spec fn merged_count(rows: Seq<GitHubStackMergePullRequestObservationView>) -> nat
    decreases rows.len(),
{
    if rows.len() == 0 {
        0
    } else {
        merged_count(rows.drop_last()) + if is_merged(rows.last()) {
            1nat
        } else {
            0nat
        }
    }
}

/// The pull requests whose head is not the one that was sealed.
pub open spec fn changed_heads(
    rows: Seq<GitHubStackMergePullRequestObservationView>,
    sealed: Seq<GitHubStackEntryGenerationView>,
) -> Seq<PrNumber>
    decreases rows.len(),
{
    if rows.len() == 0 {
        Seq::empty()
    } else {
        let before = changed_heads(rows.drop_last(), sealed);
        if rows.last().head != sealed[rows.len() - 1].head {
            before.push(rows.last().pr)
        } else {
            before
        }
    }
}

/// The open pull requests of entries.
pub open spec fn open_prs(entries: Seq<GitHubStackEntryGenerationView>) -> Seq<PrNumber>
    decreases entries.len(),
{
    if entries.len() == 0 {
        Seq::empty()
    } else if stack::is_open(entries.last()) {
        open_prs(entries.drop_last()).push(entries.last().pr)
    } else {
        open_prs(entries.drop_last())
    }
}

/// Whether exactly the pull requests that were not selected are left, in order.
pub open spec fn remainder_exact(
    after: Option<GitHubStackGenerationView>,
    expected: Seq<PrNumber>,
) -> bool {
    match after {
        Some(generation) => open_prs(generation.topology.entries) == expected,
        None => expected.len() == 0,
    }
}

/// The fresh facts after a merge request.
pub open spec fn observation_of(
    plan: GitHubStackAsyncMergePlanView,
    default_branch: BranchSnapshotView,
    rows: Seq<GitHubStackMergePullRequestObservationView>,
    after: Option<GitHubStackGenerationView>,
) -> GitHubStackMergeObservationView {
    let count = plan.selected.len() as int;
    let selected = rows.take(count);
    let changed = changed_heads(selected, plan.selected);
    GitHubStackMergeObservationView {
        default_branch,
        selected,
        remaining: rows.skip(count),
        stack_after: after,
        selected_merged: merged_count(selected) as usize,
        selected_heads_exact: changed.len() == 0,
        changed_selected_heads: changed,
        remaining_order_exact: remainder_exact(
            after,
            stack::entry_prs(plan.before.topology.entries.skip(count)),
        ),
    }
}

proof fn lemma_merged_count_bound(rows: Seq<GitHubStackMergePullRequestObservationView>)
    ensures
        merged_count(rows) <= rows.len(),
    decreases rows.len(),
{
    if rows.len() > 0 {
        lemma_merged_count_bound(rows.drop_last());
    }
}

fn count_merged(rows: &Vec<GitHubStackMergePullRequestObservation>) -> (r: usize)
    ensures
        r == merged_count(rows.deep_view()),
{
    let ghost all = rows.deep_view();
    let mut count: usize = 0;
    let mut i: usize = 0;
    while i < rows.len()
        invariant
            all == rows.deep_view(),
            i <= rows.len(),
            count <= i,
            count == merged_count(all.take(i as int)),
        decreases rows.len() - i,
    {
        assert(all.take(i as int + 1).drop_last() =~= all.take(i as int));
        assert(all[i as int] == rows[i as int].deep_view());
        if rows[i].state.same(&PullRequestState::Merged) && rows[i].merged_at.is_some() {
            count = count + 1;
        }
        i = i + 1;
    }
    assert(all.take(i as int) =~= all);
    count
}

fn find_changed_heads(
    rows: &Vec<GitHubStackMergePullRequestObservation>,
    sealed: &Vec<GitHubStackEntryGeneration>,
) -> (r: Vec<PrNumber>)
    requires
        rows.len() <= sealed.len(),
    ensures
        r.deep_view() == changed_heads(rows.deep_view(), sealed.deep_view()),
{
    let ghost all = rows.deep_view();
    let mut out: Vec<PrNumber> = Vec::new();
    let mut i: usize = 0;
    assert(out.deep_view() =~= changed_heads(all.take(0), sealed.deep_view()));
    while i < rows.len()
        invariant
            rows.len() <= sealed.len(),
            all == rows.deep_view(),
            i <= rows.len(),
            out.deep_view() == changed_heads(all.take(i as int), sealed.deep_view()),
        decreases rows.len() - i,
    {
        assert(all.take(i as int + 1).drop_last() =~= all.take(i as int));
        assert(all[i as int] == rows[i as int].deep_view());
        assert(sealed.deep_view()[i as int] == sealed[i as int].deep_view());
        if !rows[i].head.same(&sealed[i].head) {
            push_item(&mut out, rows[i].pr);
        }
        i = i + 1;
    }
    assert(all.take(i as int) =~= all);
    out
}

fn list_open(entries: &Vec<GitHubStackEntryGeneration>) -> (r: Vec<PrNumber>)
    ensures
        r.deep_view() == open_prs(entries.deep_view()),
{
    let ghost all = entries.deep_view();
    let mut out: Vec<PrNumber> = Vec::new();
    let mut i: usize = 0;
    assert(out.deep_view() =~= open_prs(all.take(0)));
    while i < entries.len()
        invariant
            all == entries.deep_view(),
            i <= entries.len(),
            out.deep_view() == open_prs(all.take(i as int)),
        decreases entries.len() - i,
    {
        assert(all.take(i as int + 1).drop_last() =~= all.take(i as int));
        assert(all[i as int] == entries[i as int].deep_view());
        if entries[i].pull_request_state.same(&PullRequestState::Open) {
            push_item(&mut out, entries[i].pr);
        }
        i = i + 1;
    }
    assert(all.take(i as int) =~= all);
    out
}

/// The fresh facts after a merge request.
pub fn assemble_observation(
    plan: &GitHubStackAsyncMergePlan,
    default_branch: BranchSnapshot,
    rows: &Vec<GitHubStackMergePullRequestObservation>,
    stack_after: Option<GitHubStackGeneration>,
) -> (r: GitHubStackMergeObservation)
    requires
        plan.selected.len() <= plan.before.topology.entries.len(),
        rows.len() == plan.before.topology.entries.len(),
    ensures
        r.deep_view() == observation_of(
            plan.deep_view(),
            default_branch.deep_view(),
            rows.deep_view(),
            stack_after.deep_view(),
        ),
{
    let count = plan.selected.len();
    let selected = dup_range(rows, 0, count);
    let remaining = dup_range(rows, count, rows.len());
    assert(selected.deep_view() =~= rows.deep_view().take(count as int));
    assert(remaining.deep_view() =~= rows.deep_view().skip(count as int));
    let selected_merged = count_merged(&selected);
    let changed_selected_heads = find_changed_heads(&selected, &plan.selected);
    let expected = prs_from(&plan.before.topology.entries, count);
    let remaining_order_exact = match &stack_after {
        Some(generation) => list_open(&generation.topology.entries).same(&expected),
        None => expected.len() == 0,
    };
    let selected_heads_exact = changed_selected_heads.len() == 0;
    GitHubStackMergeObservation {
        default_branch,
        selected,
        remaining,
        stack_after,
        selected_merged,
        selected_heads_exact,
        changed_selected_heads,
        remaining_order_exact,
    }
}

/// Observing the end of a merge may end so.
pub open spec fn merge_observed<R: CommandRunner>(
    runner: R,
    repository: RepositoryIdView,
    plan: GitHubStackAsyncMergePlanView,
    outcome: Result<GitHubStackMergeObservationView, GitHubStackMergeErrorView>,
) -> bool {
    exists|read: Result<GitRefJsonView, MutationErrorView>| #[trigger]
        adapter::got::<R, GitRefJson>(
            runner,
            stack::stack_base_ref(repository, plan.before.topology.base.name),
            read,
        ) && match read {
            Err(error) => outcome == Err::<GitHubStackMergeObservationView, _>(
                GitHubStackMergeErrorView::Provider(error),
            ),
            Ok(reference) => merge_observed_on(
                runner,
                repository,
                plan,
                stack_adapter::fresh_base(repository, plan.before.topology.base.name, reference),
                outcome,
            ),
        }
}

/// Observing the end of a merge on its branch may end so.
pub open spec fn merge_observed_on<R: CommandRunner>(
    runner: R,
    repository: RepositoryIdView,
    plan: GitHubStackAsyncMergePlanView,
    default_branch: BranchSnapshotView,
    outcome: Result<GitHubStackMergeObservationView, GitHubStackMergeErrorView>,
) -> bool {
    exists|
        rows: Result<Seq<GitHubStackMergePullRequestObservationView>, MutationErrorView>,
    | #[trigger]
        prs_observed(
            runner,
            repository,
            stack::entry_prs(plan.before.topology.entries),
            rows,
        ) && match rows {
            Err(error) => outcome == Err::<GitHubStackMergeObservationView, _>(
                GitHubStackMergeErrorView::Provider(error),
            ),
            Ok(list) => merge_observed_stack(
                runner,
                repository,
                plan,
                default_branch,
                list,
                outcome,
            ),
        }
}

/// Observing the Stack after a merge may end so.
pub open spec fn merge_observed_stack<R: CommandRunner>(
    runner: R,
    repository: RepositoryIdView,
    plan: GitHubStackAsyncMergePlanView,
    default_branch: BranchSnapshotView,
    rows: Seq<GitHubStackMergePullRequestObservationView>,
    outcome: Result<GitHubStackMergeObservationView, GitHubStackMergeErrorView>,
) -> bool {
    exists|after: Result<Option<GitHubStackGenerationView>, GitHubStackMutationErrorView>| #[trigger]
        stack_adapter::generation_read(runner, repository, plan.before.number, after) && outcome
            == match after {
            Err(error) => Err(GitHubStackMergeErrorView::Stack(error)),
            Ok(generation) => Ok(observation_of(plan, default_branch, rows, generation)),
        }
}

/// What fresh facts prove: everything selected is merged, nothing is, or
/// something that cannot be told.
pub open spec fn classified(
    plan: GitHubStackAsyncMergePlanView,
    observation: GitHubStackMergeObservationView,
) -> GitHubStackMergeStatus {
    if observation.selected_merged == plan.selected.len() && observation.selected_heads_exact
        && observation.remaining_order_exact {
        GitHubStackMergeStatus::Merged
    } else if observation.selected_merged == 0 {
        GitHubStackMergeStatus::Failed
    } else {
        GitHubStackMergeStatus::Indeterminate
    }
}

/// What fresh facts prove.
pub fn classify_observation(
    plan: &GitHubStackAsyncMergePlan,
    observation: &GitHubStackMergeObservation,
) -> (r: GitHubStackMergeStatus)
    ensures
        r == classified(plan.deep_view(), observation.deep_view()),
{
    if observation.selected_merged == plan.selected.len() && observation.selected_heads_exact
        && observation.remaining_order_exact {
        GitHubStackMergeStatus::Merged
    } else if observation.selected_merged == 0 {
        GitHubStackMergeStatus::Failed
    } else {
        GitHubStackMergeStatus::Indeterminate
    }
}

// ---------------------------------------------------------------------------
// Receipts
// ---------------------------------------------------------------------------

/// The checkpoint of a merge that has an identifier.
pub open spec fn checkpoint_of(
    repository: RepositoryIdView,
    plan: GitHubStackAsyncMergePlanView,
    request: GitHubStackMergeRequestIdentityView,
    said: ProviderAsyncMergeResultView,
) -> Option<GitHubStackMergeCheckpointView> {
    match said.uuid {
        Some(uuid) => if valid_uuid(uuid) {
            Some(
                GitHubStackMergeCheckpointView {
                    schema_version: STACK_MERGE_SCHEMA_VERSION,
                    repository,
                    plan,
                    request,
                    uuid,
                    initial_provider_status: match said.status {
                        Some(status) => status,
                        None => "unknown"@,
                    },
                    evidence_hash: Seq::empty(),
                }.sealed(),
            )
        } else {
            None
        },
        None => None,
    }
}

fn stack_merge_checkpoint(
    repository: &RepositoryId,
    plan: &GitHubStackAsyncMergePlan,
    request: &GitHubStackMergeRequestIdentity,
    said: &ProviderAsyncMergeResult,
) -> (r: Option<GitHubStackMergeCheckpoint>)
    ensures
        r.deep_view() == checkpoint_of(
            repository.deep_view(),
            plan.deep_view(),
            request.deep_view(),
            said.deep_view(),
        ),
{
    match &said.uuid {
        Some(uuid) => if valid_async_uuid(uuid.as_str()) {
            let checkpoint = GitHubStackMergeCheckpoint {
                schema_version: STACK_MERGE_SCHEMA_VERSION,
                repository: repository.dup(),
                plan: plan.dup(),
                request: request.dup(),
                uuid: uuid.dup(),
                initial_provider_status: match &said.status {
                    Some(status) => status.dup(),
                    None => "unknown".to_owned(),
                },
                evidence_hash: String::new(),
            };
            assert(checkpoint.deep_view().evidence_hash =~= Seq::empty());
            Some(checkpoint.seal())
        } else {
            None
        },
        None => None,
    }
}

/// The request identifier of a reply.
pub open spec fn merge_request_id(reply: Reply) -> Option<Seq<char>> {
    match reply {
        Ok(output) => stack_adapter::request_id(output),
        Err(_) => None,
    }
}

/// A receipt that is still open, from a reply.
pub open spec fn open_receipt(
    repository: RepositoryIdView,
    plan: GitHubStackAsyncMergePlanView,
    request: GitHubStackMergeRequestIdentityView,
    checkpoint: Option<GitHubStackMergeCheckpointView>,
    reply: Reply,
) -> GitHubStackMergeReceiptView {
    GitHubStackMergeReceiptView {
        schema_version: STACK_MERGE_SCHEMA_VERSION,
        repository,
        plan,
        request,
        checkpoint,
        status: GitHubStackMergeStatus::Indeterminate,
        provider_status: merge_result(reply).status,
        provider_message: merge_message(reply),
        provider_sha: merge_result(reply).sha,
        observation: None,
        evidence_hash: Seq::empty(),
    }
}

/// A receipt with a status, sealed.
pub open spec fn with_status(
    receipt: GitHubStackMergeReceiptView,
    status: GitHubStackMergeStatus,
) -> GitHubStackMergeReceiptView {
    GitHubStackMergeReceiptView { status, ..receipt }.sealed()
}

fn set_status(receipt: GitHubStackMergeReceipt, status: GitHubStackMergeStatus) -> (r:
    GitHubStackMergeReceipt)
    ensures
        r.deep_view() == with_status(receipt.deep_view(), status),
{
    let mut out = receipt.dup();
    out.status = status;
    out.seal()
}

/// A message with the failure of a fresh read behind it.
pub open spec fn with_failure(
    message: Option<Seq<char>>,
    error: GitHubStackMergeErrorView,
) -> Option<
    Seq<char>,
> {
    Some(
        match message {
            Some(said) => said + "; provider rediscovery failed: "@ + error.message(),
            None => "provider rediscovery failed: "@ + error.message(),
        },
    )
}

fn add_failure(message: Option<String>, error: &GitHubStackMergeError) -> (r: Option<String>)
    ensures
        r.deep_view() == with_failure(message.deep_view(), error.deep_view()),
{
    let failure = error.to_text();
    match message {
        Some(said) => Some(
            said.concat("; provider rediscovery failed: ").concat(failure.as_str()),
        ),
        None => Some("provider rediscovery failed: ".to_owned().concat(failure.as_str())),
    }
}

/// A receipt of an end that the provider claims, from fresh facts. The claim
/// alone proves nothing: a merge needs every selected pull request and, where
/// the provider names a commit, that commit on the branch. A failure needs that
/// no selected pull request is merged.
pub open spec fn terminal_receipt(
    receipt: GitHubStackMergeReceiptView,
    seen: Result<GitHubStackMergeObservationView, GitHubStackMergeErrorView>,
) -> GitHubStackMergeReceiptView {
    match seen {
        Err(error) => with_status(
            GitHubStackMergeReceiptView {
                provider_message: with_failure(receipt.provider_message, error),
                ..receipt
            },
            GitHubStackMergeStatus::Indeterminate,
        ),
        Ok(observation) => {
            let proved = classified(receipt.plan, observation);
            let exact = match receipt.provider_sha {
                Some(sha) => observation.default_branch.oid == sha,
                None => true,
            };
            let failed = match receipt.provider_status {
                Some(status) => text::same_ignoring_case(status, "failed"@),
                None => false,
            };
            with_status(
                GitHubStackMergeReceiptView { observation: Some(observation), ..receipt },
                if proved == GitHubStackMergeStatus::Merged && exact {
                    GitHubStackMergeStatus::Merged
                } else if proved == GitHubStackMergeStatus::Failed && failed {
                    GitHubStackMergeStatus::Failed
                } else {
                    GitHubStackMergeStatus::Indeterminate
                },
            )
        },
    }
}

/// A receipt of an end that the provider claims, from fresh facts.
pub fn judge_terminal(
    receipt: GitHubStackMergeReceipt,
    seen: Result<GitHubStackMergeObservation, GitHubStackMergeError>,
) -> (r: GitHubStackMergeReceipt)
    ensures
        r.deep_view() == terminal_receipt(receipt.deep_view(), merge_view(seen)),
{
    let mut out = receipt.dup();
    match seen {
        Err(error) => {
            out.provider_message = add_failure(receipt.provider_message, &error);
            set_status(out, GitHubStackMergeStatus::Indeterminate)
        },
        Ok(observation) => {
            let proved = classify_observation(&receipt.plan, &observation);
            let exact = match &receipt.provider_sha {
                Some(sha) => observation.default_branch.oid.same(sha),
                None => true,
            };
            let failed = match &receipt.provider_status {
                Some(status) => eq_ignore_case(status.as_str(), "failed"),
                None => false,
            };
            let status = if proved.same(&GitHubStackMergeStatus::Merged) && exact {
                GitHubStackMergeStatus::Merged
            } else if proved.same(&GitHubStackMergeStatus::Failed) && failed {
                GitHubStackMergeStatus::Failed
            } else {
                GitHubStackMergeStatus::Indeterminate
            };
            out.observation = Some(observation);
            set_status(out, status)
        },
    }
}

/// A receipt after a request whose response does not tell, from fresh facts.
/// They can prove a merge, but never that nothing is under way.
pub open spec fn recovered_receipt(
    receipt: GitHubStackMergeReceiptView,
    seen: Result<GitHubStackMergeObservationView, GitHubStackMergeErrorView>,
) -> GitHubStackMergeReceiptView {
    match seen {
        Err(error) => with_status(
            GitHubStackMergeReceiptView {
                provider_message: with_failure(receipt.provider_message, error),
                ..receipt
            },
            GitHubStackMergeStatus::Indeterminate,
        ),
        Ok(observation) => with_status(
            GitHubStackMergeReceiptView { observation: Some(observation), ..receipt },
            if classified(receipt.plan, observation) == GitHubStackMergeStatus::Merged {
                GitHubStackMergeStatus::Merged
            } else {
                GitHubStackMergeStatus::Indeterminate
            },
        ),
    }
}

/// A receipt after a request whose response does not tell, from fresh facts.
pub fn judge_recovered(
    receipt: GitHubStackMergeReceipt,
    seen: Result<GitHubStackMergeObservation, GitHubStackMergeError>,
) -> (r: GitHubStackMergeReceipt)
    ensures
        r.deep_view() == recovered_receipt(receipt.deep_view(), merge_view(seen)),
{
    let mut out = receipt.dup();
    match seen {
        Err(error) => {
            out.provider_message = add_failure(receipt.provider_message, &error);
            set_status(out, GitHubStackMergeStatus::Indeterminate)
        },
        Ok(observation) => {
            let proved = classify_observation(&receipt.plan, &observation);
            out.observation = Some(observation);
            if proved.same(&GitHubStackMergeStatus::Merged) {
                set_status(out, GitHubStackMergeStatus::Merged)
            } else {
                set_status(out, GitHubStackMergeStatus::Indeterminate)
            }
        },
    }
}

/// What to do with the response of a request.
#[derive(Debug, Clone, Copy, PartialEq, Eq, Structural)]
pub enum Next {
    /// The provider claims an end: prove it.
    Prove,
    /// The merge goes on.
    Keep(GitHubStackMergeStatus),
    /// The response does not tell: look.
    Look,
}

/// What to do with the response of a request.
pub open spec fn next_after_submit(
    plan: GitHubStackAsyncMergePlanView,
    identified: bool,
    reply: Reply,
) -> Next {
    let said = merge_result(reply);
    let succeeded = reply is Ok && reply->Ok_0.succeeded();
    match known_status(said.status) {
        Some(GitHubStackMergeStatus::Merged) => Next::Prove,
        Some(GitHubStackMergeStatus::Failed) => Next::Prove,
        Some(GitHubStackMergeStatus::Enqueued) => if identified {
            Next::Keep(GitHubStackMergeStatus::Enqueued)
        } else {
            Next::Look
        },
        Some(GitHubStackMergeStatus::Pending) => if identified && (succeeded || speaks_of(
            said,
            plan,
        )) {
            Next::Keep(GitHubStackMergeStatus::Submitted)
        } else {
            Next::Look
        },
        _ => Next::Look,
    }
}

/// What to do with the response of a request.
pub fn decide_after_submit(
    plan: &GitHubStackAsyncMergePlan,
    identified: bool,
    said: &ProviderAsyncMergeResult,
    reply: &Result<CommandOutput, CommandRunError>,
) -> (r: Next)
    requires
        said.deep_view() == merge_result(command::reply_view(*reply)),
    ensures
        r == next_after_submit(plan.deep_view(), identified, command::reply_view(*reply)),
{
    let succeeded = match reply {
        Ok(output) => output.is_success(),
        Err(_) => false,
    };
    match normalized_provider_status(&said.status) {
        Some(GitHubStackMergeStatus::Merged) => Next::Prove,
        Some(GitHubStackMergeStatus::Failed) => Next::Prove,
        Some(GitHubStackMergeStatus::Enqueued) => if identified {
            Next::Keep(GitHubStackMergeStatus::Enqueued)
        } else {
            Next::Look
        },
        Some(GitHubStackMergeStatus::Pending) => if identified && (succeeded
            || provider_request_matches_plan(said, plan)) {
            Next::Keep(GitHubStackMergeStatus::Submitted)
        } else {
            Next::Look
        },
        _ => Next::Look,
    }
}

/// What to do with the response of a poll.
pub open spec fn next_after_poll(reply: Reply) -> Next {
    if !(reply is Ok && reply->Ok_0.succeeded()) {
        Next::Prove
    } else {
        match known_status(merge_result(reply).status) {
            Some(GitHubStackMergeStatus::Pending) => Next::Keep(GitHubStackMergeStatus::Pending),
            Some(GitHubStackMergeStatus::Enqueued) => Next::Keep(GitHubStackMergeStatus::Enqueued),
            _ => Next::Prove,
        }
    }
}

/// What to do with the response of a poll.
pub fn decide_after_poll(
    said: &ProviderAsyncMergeResult,
    reply: &Result<CommandOutput, CommandRunError>,
) -> (r: Next)
    requires
        said.deep_view() == merge_result(command::reply_view(*reply)),
    ensures
        r == next_after_poll(command::reply_view(*reply)),
{
    let succeeded = match reply {
        Ok(output) => output.is_success(),
        Err(_) => false,
    };
    if !succeeded {
        return Next::Prove;
    }
    match normalized_provider_status(&said.status) {
        Some(GitHubStackMergeStatus::Pending) => Next::Keep(GitHubStackMergeStatus::Pending),
        Some(GitHubStackMergeStatus::Enqueued) => Next::Keep(GitHubStackMergeStatus::Enqueued),
        _ => Next::Prove,
    }
}

/// Following a decision may end so.
pub open spec fn followed<R: CommandRunner>(
    runner: R,
    receipt: GitHubStackMergeReceiptView,
    next: Next,
    outcome: GitHubStackMergeReceiptView,
) -> bool {
    match next {
        Next::Keep(status) => outcome == with_status(receipt, status),
        Next::Prove => proved(runner, receipt, outcome),
        Next::Look => looked(runner, receipt, outcome),
    }
}

/// Proving an end may end so.
pub open spec fn proved<R: CommandRunner>(
    runner: R,
    receipt: GitHubStackMergeReceiptView,
    outcome: GitHubStackMergeReceiptView,
) -> bool {
    exists|seen: Result<GitHubStackMergeObservationView, GitHubStackMergeErrorView>| #[trigger]
        merge_observed(runner, receipt.repository, receipt.plan, seen) && outcome
            == terminal_receipt(receipt, seen)
}

/// Looking after a response that does not tell may end so.
pub open spec fn looked<R: CommandRunner>(
    runner: R,
    receipt: GitHubStackMergeReceiptView,
    outcome: GitHubStackMergeReceiptView,
) -> bool {
    exists|seen: Result<GitHubStackMergeObservationView, GitHubStackMergeErrorView>| #[trigger]
        merge_observed(runner, receipt.repository, receipt.plan, seen) && outcome
            == recovered_receipt(receipt, seen)
}

/// The identity of a request with its response.
pub open spec fn answered(
    request: GitHubStackMergeRequestIdentityView,
    reply: Reply,
) -> GitHubStackMergeRequestIdentityView {
    GitHubStackMergeRequestIdentityView { github_request_id: merge_request_id(reply), ..request }
}

/// Asking for a merge may end so. Fresh facts are read once the request was
/// answered.
pub open spec fn submit_sent<R: CommandRunner>(
    runner: R,
    repository: RepositoryIdView,
    plan: GitHubStackAsyncMergePlanView,
    outcome: GitHubStackMergeReceiptView,
) -> bool {
    exists|sent: Sent| #[trigger]
        command::was_sent(runner, merge_submit(repository, plan), sent) && ({
            let reply = sent.answer();
            let request = answered(merge_identity(repository, plan), reply);
            let checkpoint = checkpoint_of(repository, plan, request, merge_result(reply));
            followed(
                command::after(&runner, &sent),
                open_receipt(repository, plan, request, checkpoint, reply),
                next_after_submit(plan, checkpoint is Some, reply),
                outcome,
            )
        })
}

/// A valid merge request may end so. The whole Stack must still be what the
/// plan sealed.
pub open spec fn submit_planned<R: CommandRunner>(
    runner: R,
    repository: RepositoryIdView,
    plan: GitHubStackAsyncMergePlanView,
    outcome: Result<GitHubStackMergeReceiptView, GitHubStackMergeErrorView>,
) -> bool {
    exists|read: Result<Option<GitHubStackGenerationView>, GitHubStackMutationErrorView>| #[trigger]
        stack_adapter::generation_read(runner, repository, plan.before.number, read) && match read {
            Err(error) => outcome == Err::<GitHubStackMergeReceiptView, _>(
                GitHubStackMergeErrorView::Stack(error),
            ),
            Ok(actual) => if actual != Some(plan.before) {
                outcome == Err::<GitHubStackMergeReceiptView, _>(
                    GitHubStackMergeErrorView::StaleGeneration { expected: plan.before, actual },
                )
            } else {
                outcome is Ok && submit_sent(runner, repository, plan, outcome->Ok_0)
            },
        }
}

/// A merge request may end so.
pub open spec fn merge_submitted<R: CommandRunner>(
    runner: R,
    repository: RepositoryIdView,
    plan: GitHubStackAsyncMergePlanView,
    outcome: Result<GitHubStackMergeReceiptView, GitHubStackMergeErrorView>,
) -> bool {
    match merge_refusal(repository, plan) {
        Some(error) => outcome == Err::<GitHubStackMergeReceiptView, _>(error),
        None => submit_planned(runner, repository, plan, outcome),
    }
}

/// The identity of a poll.
pub open spec fn poll_identity(
    repository: RepositoryIdView,
    checkpoint: GitHubStackMergeCheckpointView,
    reply: Reply,
) -> GitHubStackMergeRequestIdentityView {
    GitHubStackMergeRequestIdentityView {
        method: "GET"@,
        path: poll_path(repository, checkpoint.request.selected_top, checkpoint.uuid),
        github_request_id: merge_request_id(reply),
        ..checkpoint.request
    }
}

/// One poll of a valid checkpoint may end so.
pub open spec fn poll_sent<R: CommandRunner>(
    runner: R,
    repository: RepositoryIdView,
    checkpoint: GitHubStackMergeCheckpointView,
    outcome: GitHubStackMergeReceiptView,
) -> bool {
    exists|reply: Reply| #[trigger]
        command::ran(runner, merge_poll(repository, checkpoint), reply) && followed(
            runner,
            open_receipt(
                repository,
                checkpoint.plan,
                poll_identity(repository, checkpoint, reply),
                Some(checkpoint),
                reply,
            ),
            next_after_poll(reply),
            outcome,
        )
}

/// One poll may end so.
pub open spec fn merge_polled<R: CommandRunner>(
    runner: R,
    repository: RepositoryIdView,
    checkpoint: GitHubStackMergeCheckpointView,
    outcome: Result<GitHubStackMergeReceiptView, GitHubStackMergeErrorView>,
) -> bool {
    match checkpoint_refusal(repository, checkpoint) {
        Some(error) => outcome == Err::<GitHubStackMergeReceiptView, _>(error),
        None => outcome is Ok && poll_sent(runner, repository, checkpoint, outcome->Ok_0),
    }
}

// ---------------------------------------------------------------------------
// Laws
// ---------------------------------------------------------------------------

proof fn lemma_all_counted(rows: Seq<GitHubStackMergePullRequestObservationView>)
    requires
        merged_count(rows) == rows.len(),
    ensures
        forall|i: int| 0 <= i < rows.len() ==> is_merged(#[trigger] rows[i]),
    decreases rows.len(),
{
    if rows.len() > 0 {
        lemma_merged_count_bound(rows.drop_last());
        lemma_all_counted(rows.drop_last());
        assert forall|i: int| 0 <= i < rows.len() implies is_merged(#[trigger] rows[i]) by {
            if i < rows.len() - 1 {
                assert(rows.drop_last()[i] == rows[i]);
            }
        }
    }
}

proof fn lemma_no_head_changed(
    rows: Seq<GitHubStackMergePullRequestObservationView>,
    sealed: Seq<GitHubStackEntryGenerationView>,
)
    requires
        changed_heads(rows, sealed).len() == 0,
    ensures
        forall|i: int| 0 <= i < rows.len() ==> (#[trigger] rows[i]).head == sealed[i].head,
    decreases rows.len(),
{
    if rows.len() > 0 {
        lemma_no_head_changed(rows.drop_last(), sealed);
        assert forall|i: int| 0 <= i < rows.len() implies (#[trigger] rows[i]).head
            == sealed[i].head by {
            if i < rows.len() - 1 {
                assert(rows.drop_last()[i] == rows[i]);
            }
        }
    }
}

/// Fresh facts that prove a merge show every selected pull request merged at
/// the head that was sealed, and exactly the others left in the Stack, in order.
pub proof fn lemma_merged_is_whole(
    plan: GitHubStackAsyncMergePlanView,
    default_branch: BranchSnapshotView,
    rows: Seq<GitHubStackMergePullRequestObservationView>,
    after: Option<GitHubStackGenerationView>,
)
    requires
        plan.selected.len() <= rows.len(),
        plan.selected.len() <= usize::MAX,
        classified(plan, observation_of(plan, default_branch, rows, after))
            == GitHubStackMergeStatus::Merged,
    ensures
        forall|i: int|
            0 <= i < plan.selected.len() ==> is_merged(#[trigger] rows[i]) && rows[i].head
                == plan.selected[i].head,
        remainder_exact(
            after,
            stack::entry_prs(plan.before.topology.entries.skip(plan.selected.len() as int)),
        ),
{
    let selected = rows.take(plan.selected.len() as int);
    lemma_merged_count_bound(selected);
    lemma_all_counted(selected);
    lemma_no_head_changed(selected, plan.selected);
    assert forall|i: int| 0 <= i < plan.selected.len() implies is_merged(#[trigger] rows[i])
        && rows[i].head == plan.selected[i].head by {
        assert(selected[i] == rows[i]);
    }
}

/// Whether a receipt holds facts that prove a merge of its whole selection.
pub open spec fn shows_merge(receipt: GitHubStackMergeReceiptView) -> bool {
    receipt.observation is Some && classified(receipt.plan, receipt.observation->0)
        == GitHubStackMergeStatus::Merged
}

/// Whether a receipt holds facts that prove a failure: nothing selected is
/// merged.
pub open spec fn shows_failure(receipt: GitHubStackMergeReceiptView) -> bool {
    receipt.observation is Some && receipt.observation->0.selected_merged == 0
}

/// Whatever is decided on a response, the receipt is intact. One that says
/// merged holds fresh facts that prove it, and so does one that says failed. It
/// keeps plan, request and checkpoint.
pub proof fn lemma_followed_receipt<R: CommandRunner>(
    runner: R,
    receipt: GitHubStackMergeReceiptView,
    next: Next,
    outcome: GitHubStackMergeReceiptView,
)
    requires
        followed(runner, receipt, next, outcome),
        next matches Next::Keep(status) ==> status != GitHubStackMergeStatus::Merged && status
            != GitHubStackMergeStatus::Failed,
    ensures
        claims_only(receipt, outcome),
{
    match next {
        Next::Keep(status) => {
            lemma_with_status(receipt, status);
        },
        Next::Prove => {
            let seen = choose|
                seen: Result<GitHubStackMergeObservationView, GitHubStackMergeErrorView>,
            | #[trigger]
                merge_observed(runner, receipt.repository, receipt.plan, seen) && outcome
                    == terminal_receipt(receipt, seen);
            lemma_terminal_receipt(receipt, seen);
        },
        Next::Look => {
            let seen = choose|
                seen: Result<GitHubStackMergeObservationView, GitHubStackMergeErrorView>,
            | #[trigger]
                merge_observed(runner, receipt.repository, receipt.plan, seen) && outcome
                    == recovered_receipt(receipt, seen);
            lemma_recovered_receipt(receipt, seen);
        },
    }
}

/// Whether a receipt claims no more than its facts prove, and keeps plan,
/// request and checkpoint of another.
pub open spec fn claims_only(
    receipt: GitHubStackMergeReceiptView,
    outcome: GitHubStackMergeReceiptView,
) -> bool {
    &&& outcome.intact()
    &&& outcome.plan == receipt.plan
    &&& outcome.request == receipt.request
    &&& outcome.checkpoint == receipt.checkpoint
    &&& outcome.status == GitHubStackMergeStatus::Merged ==> shows_merge(outcome)
    &&& outcome.status == GitHubStackMergeStatus::Failed ==> shows_failure(outcome)
}

proof fn lemma_with_status(
    receipt: GitHubStackMergeReceiptView,
    status: GitHubStackMergeStatus,
)
    ensures
        with_status(receipt, status).intact(),
        with_status(receipt, status).status == status,
        with_status(receipt, status).plan == receipt.plan,
        with_status(receipt, status).request == receipt.request,
        with_status(receipt, status).checkpoint == receipt.checkpoint,
        with_status(receipt, status).observation == receipt.observation,
        with_status(receipt, status).provider_sha == receipt.provider_sha,
{
    lemma_sealed_merge_receipt_is_intact(GitHubStackMergeReceiptView { status, ..receipt });
}

proof fn lemma_terminal_receipt(
    receipt: GitHubStackMergeReceiptView,
    seen: Result<GitHubStackMergeObservationView, GitHubStackMergeErrorView>,
)
    ensures
        claims_only(receipt, terminal_receipt(receipt, seen)),
{
    match seen {
        Err(error) => {
            lemma_with_status(
                GitHubStackMergeReceiptView {
                    provider_message: with_failure(receipt.provider_message, error),
                    ..receipt
                },
                GitHubStackMergeStatus::Indeterminate,
            );
        },
        Ok(observation) => {
            let seen_receipt = GitHubStackMergeReceiptView {
                observation: Some(observation),
                ..receipt
            };
            lemma_with_status(seen_receipt, GitHubStackMergeStatus::Merged);
            lemma_with_status(seen_receipt, GitHubStackMergeStatus::Failed);
            lemma_with_status(seen_receipt, GitHubStackMergeStatus::Indeterminate);
        },
    }
}

proof fn lemma_recovered_receipt(
    receipt: GitHubStackMergeReceiptView,
    seen: Result<GitHubStackMergeObservationView, GitHubStackMergeErrorView>,
)
    ensures
        claims_only(receipt, recovered_receipt(receipt, seen)),
{
    match seen {
        Err(error) => {
            lemma_with_status(
                GitHubStackMergeReceiptView {
                    provider_message: with_failure(receipt.provider_message, error),
                    ..receipt
                },
                GitHubStackMergeStatus::Indeterminate,
            );
        },
        Ok(observation) => {
            let seen_receipt = GitHubStackMergeReceiptView {
                observation: Some(observation),
                ..receipt
            };
            lemma_with_status(seen_receipt, GitHubStackMergeStatus::Merged);
            lemma_with_status(seen_receipt, GitHubStackMergeStatus::Indeterminate);
        },
    }
}

/// The receipt of a merge request claims only what its facts prove. A response
/// that carries no valid identifier leaves no checkpoint: the merge is then
/// merged or failed as the facts prove, or indeterminate, and there is nothing
/// to poll.
pub proof fn lemma_submitted_receipt<R: CommandRunner>(
    runner: R,
    repository: RepositoryIdView,
    plan: GitHubStackAsyncMergePlanView,
    receipt: GitHubStackMergeReceiptView,
)
    requires
        merge_submitted(runner, repository, plan, Ok(receipt)),
    ensures
        claims_only(receipt, receipt),
        receipt.plan == plan,
        receipt.checkpoint is None ==> receipt.status == GitHubStackMergeStatus::Merged
            || receipt.status == GitHubStackMergeStatus::Failed || receipt.status
            == GitHubStackMergeStatus::Indeterminate,
{
    let sent = choose|sent: Sent| #[trigger]
        command::was_sent(runner, merge_submit(repository, plan), sent) && ({
            let reply = sent.answer();
            let request = answered(merge_identity(repository, plan), reply);
            let checkpoint = checkpoint_of(repository, plan, request, merge_result(reply));
            followed(
                command::after(&runner, &sent),
                open_receipt(repository, plan, request, checkpoint, reply),
                next_after_submit(plan, checkpoint is Some, reply),
                receipt,
            )
        });
    let later = command::after(&runner, &sent);
    let reply = sent.answer();
    let request = answered(merge_identity(repository, plan), reply);
    let checkpoint = checkpoint_of(repository, plan, request, merge_result(reply));
    let start = open_receipt(repository, plan, request, checkpoint, reply);
    let next = next_after_submit(plan, checkpoint is Some, reply);
    lemma_followed_receipt(later, start, next, receipt);
    if checkpoint is None {
        assert(!(next is Keep));
        lemma_followed_status(later, start, next, receipt);
    }
}

proof fn lemma_followed_status<R: CommandRunner>(
    runner: R,
    receipt: GitHubStackMergeReceiptView,
    next: Next,
    outcome: GitHubStackMergeReceiptView,
)
    requires
        followed(runner, receipt, next, outcome),
        !(next is Keep),
    ensures
        outcome.status == GitHubStackMergeStatus::Merged || outcome.status
            == GitHubStackMergeStatus::Failed || outcome.status
            == GitHubStackMergeStatus::Indeterminate,
{
}

/// The receipt of a poll claims only what its facts prove, and keeps the
/// checkpoint.
pub proof fn lemma_polled_receipt<R: CommandRunner>(
    runner: R,
    repository: RepositoryIdView,
    checkpoint: GitHubStackMergeCheckpointView,
    receipt: GitHubStackMergeReceiptView,
)
    requires
        merge_polled(runner, repository, checkpoint, Ok(receipt)),
    ensures
        claims_only(receipt, receipt),
        receipt.plan == checkpoint.plan,
        receipt.checkpoint == Some(checkpoint),
{
    let reply = choose|reply: Reply| #[trigger]
        command::ran(runner, merge_poll(repository, checkpoint), reply) && followed(
            runner,
            open_receipt(
                repository,
                checkpoint.plan,
                poll_identity(repository, checkpoint, reply),
                Some(checkpoint),
                reply,
            ),
            next_after_poll(reply),
            receipt,
        );
    lemma_followed_receipt(
        runner,
        open_receipt(
            repository,
            checkpoint.plan,
            poll_identity(repository, checkpoint, reply),
            Some(checkpoint),
            reply,
        ),
        next_after_poll(reply),
        receipt,
    );
}

/// A checkpoint that a merge request leaves is accepted by a poll of the same
/// repository.
pub proof fn lemma_checkpoint_can_be_polled(
    repository: RepositoryIdView,
    plan: GitHubStackAsyncMergePlanView,
    reply: Reply,
)
    requires
        merge_refusal(repository, plan) is None,
    ensures
        match checkpoint_of(
            repository,
            plan,
            answered(merge_identity(repository, plan), reply),
            merge_result(reply),
        ) {
            Some(checkpoint) => checkpoint_refusal(repository, checkpoint) is None,
            None => true,
        },
{
    let request = answered(merge_identity(repository, plan), reply);
    match merge_result(reply).uuid {
        Some(uuid) => {
            let start = GitHubStackMergeCheckpointView {
                schema_version: STACK_MERGE_SCHEMA_VERSION,
                repository,
                plan,
                request,
                uuid,
                initial_provider_status: match merge_result(reply).status {
                    Some(status) => status,
                    None => "unknown"@,
                },
                evidence_hash: Seq::empty(),
            };
            lemma_sealed_merge_checkpoint_is_intact(start);
        },
        None => {},
    }
}

// ---------------------------------------------------------------------------
// What may be run
// ---------------------------------------------------------------------------

/// What a merge request may run: nothing for a refused plan, else reads, and
/// the request once the whole Stack was read exactly as the plan sealed it.
pub open spec fn may_submit_merge<R: CommandRunner>(
    runner: R,
    repository: RepositoryIdView,
    plan: GitHubStackAsyncMergePlanView,
) -> bool {
    merge_refusal(repository, plan) is None ==> {
        &&& command::reads_allowed(runner)
        &&& stack_adapter::generation_read(
            runner,
            repository,
            plan.before.number,
            Ok(Some(plan.before)),
        ) ==> runner.allows(merge_submit(repository, plan))
    }
}

/// What a poll may run: nothing for a refused checkpoint, else reads.
pub open spec fn may_poll_merge<R: CommandRunner>(
    runner: R,
    repository: RepositoryIdView,
    checkpoint: GitHubStackMergeCheckpointView,
) -> bool {
    checkpoint_refusal(repository, checkpoint) is None ==> command::reads_allowed(runner)
}

// ---------------------------------------------------------------------------
// The steps of a merge request
// ---------------------------------------------------------------------------

/// How far a merge request has come.
pub enum MergeSubmission {
    /// The Stack is to be read.
    Reading,
    /// The Stack is exactly as planned: the request is to be sent.
    Sending,
    /// The request was sent: fresh facts are to be read.
    Observing { receipt: GitHubStackMergeReceipt, next: Next, sent: Sent },
    /// Nothing is left to do.
    Done { outcome: Result<GitHubStackMergeReceipt, GitHubStackMergeError> },
}

/// The content of a [`MergeSubmission`].
pub enum MergeSubmissionView {
    Reading,
    Sending,
    Observing { receipt: GitHubStackMergeReceiptView, next: Next },
    Done { outcome: Result<GitHubStackMergeReceiptView, GitHubStackMergeErrorView> },
}

/// What a merge request learns.
pub enum MergeEvent {
    /// The Stack was read.
    Read(Result<Option<GitHubStackGeneration>, GitHubStackMutationError>),
    /// The request was sent and answered.
    Answered(Sent),
    /// Fresh facts were read.
    Seen(Result<GitHubStackMergeObservation, GitHubStackMergeError>),
}

/// The content of a [`MergeEvent`].
pub enum MergeEventView {
    Read(Result<Option<GitHubStackGenerationView>, GitHubStackMutationErrorView>),
    Answered(Reply),
    Seen(Result<GitHubStackMergeObservationView, GitHubStackMergeErrorView>),
}

impl DeepView for MergeSubmission {
    type V = MergeSubmissionView;

    open spec fn deep_view(&self) -> MergeSubmissionView {
        match self {
            MergeSubmission::Reading => MergeSubmissionView::Reading,
            MergeSubmission::Sending => MergeSubmissionView::Sending,
            MergeSubmission::Observing { receipt, next, .. } => MergeSubmissionView::Observing {
                receipt: receipt.deep_view(),
                next: *next,
            },
            MergeSubmission::Done { outcome } => MergeSubmissionView::Done {
                outcome: merge_view(*outcome),
            },
        }
    }
}

impl DeepView for MergeEvent {
    type V = MergeEventView;

    open spec fn deep_view(&self) -> MergeEventView {
        match self {
            MergeEvent::Read(read) => MergeEventView::Read(stack::stack_view(*read)),
            MergeEvent::Answered(sent) => MergeEventView::Answered(sent.answer()),
            MergeEvent::Seen(seen) => MergeEventView::Seen(merge_view(*seen)),
        }
    }
}

impl MergeSubmissionView {
    /// The place of the step in the order.
    pub open spec fn rank(self) -> nat {
        match self {
            MergeSubmissionView::Reading => 0,
            MergeSubmissionView::Sending => 1,
            MergeSubmissionView::Observing { .. } => 2,
            MergeSubmissionView::Done { .. } => 3,
        }
    }

    /// The one write that the step asks for.
    pub open spec fn request(
        self,
        repository: RepositoryIdView,
        plan: GitHubStackAsyncMergePlanView,
    ) -> Option<CommandSpecView> {
        if self is Sending {
            Some(merge_submit(repository, plan))
        } else {
            None
        }
    }
}

/// A merge request that begins.
pub open spec fn submission_begun(
    repository: RepositoryIdView,
    plan: GitHubStackAsyncMergePlanView,
) -> MergeSubmissionView {
    match merge_refusal(repository, plan) {
        Some(error) => MergeSubmissionView::Done { outcome: Err(error) },
        None => MergeSubmissionView::Reading,
    }
}

/// A merge request after the Stack was read.
pub open spec fn submission_read(
    plan: GitHubStackAsyncMergePlanView,
    read: Result<Option<GitHubStackGenerationView>, GitHubStackMutationErrorView>,
) -> MergeSubmissionView {
    match read {
        Err(error) => MergeSubmissionView::Done {
            outcome: Err(GitHubStackMergeErrorView::Stack(error)),
        },
        Ok(actual) => if actual != Some(plan.before) {
            MergeSubmissionView::Done {
                outcome: Err(
                    GitHubStackMergeErrorView::StaleGeneration { expected: plan.before, actual },
                ),
            }
        } else {
            MergeSubmissionView::Sending
        },
    }
}

/// A merge request after it was answered.
pub open spec fn submission_answered(
    repository: RepositoryIdView,
    plan: GitHubStackAsyncMergePlanView,
    reply: Reply,
) -> MergeSubmissionView {
    let request = answered(merge_identity(repository, plan), reply);
    let checkpoint = checkpoint_of(repository, plan, request, merge_result(reply));
    let receipt = open_receipt(repository, plan, request, checkpoint, reply);
    match next_after_submit(plan, checkpoint is Some, reply) {
        Next::Keep(status) => MergeSubmissionView::Done {
            outcome: Ok(with_status(receipt, status)),
        },
        next => MergeSubmissionView::Observing { receipt, next },
    }
}

/// A merge request after fresh facts were read.
pub open spec fn submission_seen(
    receipt: GitHubStackMergeReceiptView,
    next: Next,
    seen: Result<GitHubStackMergeObservationView, GitHubStackMergeErrorView>,
) -> MergeSubmissionView {
    MergeSubmissionView::Done {
        outcome: Ok(
            match next {
                Next::Keep(status) => with_status(receipt, status),
                Next::Prove => terminal_receipt(receipt, seen),
                Next::Look => recovered_receipt(receipt, seen),
            },
        ),
    }
}

/// The step that follows a step once something is learned. What a step does not
/// wait for changes nothing.
pub open spec fn submission_step(
    repository: RepositoryIdView,
    plan: GitHubStackAsyncMergePlanView,
    at: MergeSubmissionView,
    event: MergeEventView,
) -> MergeSubmissionView {
    match (at, event) {
        (MergeSubmissionView::Reading, MergeEventView::Read(read)) => submission_read(plan, read),
        (MergeSubmissionView::Sending, MergeEventView::Answered(reply)) => submission_answered(
            repository,
            plan,
            reply,
        ),
        (
            MergeSubmissionView::Observing { receipt, next },
            MergeEventView::Seen(seen),
        ) => submission_seen(receipt, next, seen),
        _ => at,
    }
}

/// The step that a merge request has come to once it learned some things.
pub open spec fn submission_after(
    repository: RepositoryIdView,
    plan: GitHubStackAsyncMergePlanView,
    events: Seq<MergeEventView>,
) -> MergeSubmissionView
    decreases events.len(),
{
    if events.len() == 0 {
        submission_begun(repository, plan)
    } else {
        submission_step(
            repository,
            plan,
            submission_after(repository, plan, events.drop_last()),
            events.last(),
        )
    }
}

/// Whether the request of a plan is sent and answered at a place among what a
/// merge request learns.
pub open spec fn sent_at(
    repository: RepositoryIdView,
    plan: GitHubStackAsyncMergePlanView,
    events: Seq<MergeEventView>,
    at: int,
) -> bool {
    0 <= at < events.len() && submission_after(repository, plan, events.take(at)).request(
        repository,
        plan,
    ) is Some && events[at] is Answered
}

proof fn lemma_steps_go_on(
    repository: RepositoryIdView,
    plan: GitHubStackAsyncMergePlanView,
    events: Seq<MergeEventView>,
    from: int,
    to: int,
)
    requires
        0 <= from <= to <= events.len(),
    ensures
        submission_after(repository, plan, events.take(from)).rank() <= submission_after(
            repository,
            plan,
            events.take(to),
        ).rank(),
    decreases to - from,
{
    if from < to {
        lemma_steps_go_on(repository, plan, events, from, to - 1);
        assert(events.take(to).drop_last() =~= events.take(to - 1));
    }
}

/// The request of a plan is sent at most once, whatever is learned and in
/// whatever order, and only after the whole Stack was read exactly as the plan
/// sealed it.
pub proof fn lemma_request_is_sent_once(
    repository: RepositoryIdView,
    plan: GitHubStackAsyncMergePlanView,
    events: Seq<MergeEventView>,
    first: int,
    second: int,
)
    requires
        sent_at(repository, plan, events, first),
        sent_at(repository, plan, events, second),
    ensures
        first == second,
        merge_refusal(repository, plan) is None,
        exists|i: int|
            0 <= i < first && #[trigger] events[i] == MergeEventView::Read(Ok(Some(plan.before))),
{
    lemma_sent_steps_go_on(repository, plan, events, first, second);
    lemma_sent_steps_go_on(repository, plan, events, second, first);
    lemma_sending_was_read(repository, plan, events.take(first));
    let i = choose|i: int|
        0 <= i < first && #[trigger] events.take(first)[i] == MergeEventView::Read(
            Ok(Some(plan.before)),
        );
    assert(events[i] == events.take(first)[i]);
}

proof fn lemma_sent_steps_go_on(
    repository: RepositoryIdView,
    plan: GitHubStackAsyncMergePlanView,
    events: Seq<MergeEventView>,
    first: int,
    second: int,
)
    requires
        sent_at(repository, plan, events, first),
        sent_at(repository, plan, events, second),
    ensures
        first >= second,
{
    if first < second {
        assert(events.take(first + 1).drop_last() =~= events.take(first));
        lemma_steps_go_on(repository, plan, events, first + 1, second);
    }
}

proof fn lemma_sending_was_read(
    repository: RepositoryIdView,
    plan: GitHubStackAsyncMergePlanView,
    events: Seq<MergeEventView>,
)
    requires
        submission_after(repository, plan, events) is Sending,
    ensures
        merge_refusal(repository, plan) is None,
        exists|i: int|
            0 <= i < events.len() && #[trigger] events[i] == MergeEventView::Read(
                Ok(Some(plan.before)),
            ),
    decreases events.len(),
{
    if events.len() > 0 {
        let before = submission_after(repository, plan, events.drop_last());
        if before is Sending {
            lemma_sending_was_read(repository, plan, events.drop_last());
            let i = choose|i: int|
                0 <= i < events.len() - 1 && #[trigger] events.drop_last()[i]
                    == MergeEventView::Read(Ok(Some(plan.before)));
            assert(events[i] == events.drop_last()[i]);
        } else {
            assert(before is Reading);
            lemma_reading_is_valid(repository, plan, events.drop_last());
            assert(events[events.len() - 1] == MergeEventView::Read(Ok(Some(plan.before))));
        }
    }
}

proof fn lemma_reading_is_valid(
    repository: RepositoryIdView,
    plan: GitHubStackAsyncMergePlanView,
    events: Seq<MergeEventView>,
)
    requires
        submission_after(repository, plan, events) is Reading,
    ensures
        merge_refusal(repository, plan) is None,
    decreases events.len(),
{
    if events.len() > 0 {
        lemma_reading_is_valid(repository, plan, events.drop_last());
    }
}

/// What follows the request decides: a merge request that looks for facts once
/// it was answered ends by facts that were read after the answer.
pub proof fn lemma_merge_is_judged_later(
    repository: RepositoryIdView,
    plan: GitHubStackAsyncMergePlanView,
    events: Seq<MergeEventView>,
    at: int,
)
    requires
        sent_at(repository, plan, events, at),
        submission_after(repository, plan, events) is Done,
    ensures
        ({
            let told = submission_answered(repository, plan, events[at]->Answered_0);
            let ended = submission_after(repository, plan, events);
            if told is Done {
                ended == told
            } else {
                exists|i: int|
                    at < i < events.len() && (#[trigger] events[i]) is Seen && ended
                        == submission_seen(told->receipt, told->next, events[i]->Seen_0)
            }
        }),
    decreases events.len(),
{
    let last = events.len() - 1;
    let earlier = events.drop_last();
    let told = submission_answered(repository, plan, events[at]->Answered_0);
    if at == last {
        assert(earlier =~= events.take(at));
    } else {
        assert(earlier.take(at) =~= events.take(at));
        assert(earlier[at] == events[at]);
        assert(sent_at(repository, plan, earlier, at));
        let ended = submission_after(repository, plan, earlier);
        if ended is Done {
            lemma_merge_is_judged_later(repository, plan, earlier, at);
            if !(told is Done) {
                let i = choose|i: int|
                    at < i < earlier.len() && (#[trigger] earlier[i]) is Seen && ended
                        == submission_seen(told->receipt, told->next, earlier[i]->Seen_0);
                assert(events[i] == earlier[i]);
            }
        } else {
            lemma_merge_waits_for_facts(repository, plan, earlier, at);
            assert(events[last] == events.last());
        }
    }
}

proof fn lemma_merge_waits_for_facts(
    repository: RepositoryIdView,
    plan: GitHubStackAsyncMergePlanView,
    events: Seq<MergeEventView>,
    at: int,
)
    requires
        sent_at(repository, plan, events, at),
        !(submission_after(repository, plan, events) is Done),
    ensures
        submission_after(repository, plan, events) == submission_answered(
            repository,
            plan,
            events[at]->Answered_0,
        ),
    decreases events.len(),
{
    let earlier = events.drop_last();
    if at == events.len() - 1 {
        assert(earlier =~= events.take(at));
    } else {
        assert(earlier.take(at) =~= events.take(at));
        assert(earlier[at] == events[at]);
        assert(sent_at(repository, plan, earlier, at));
        lemma_merge_waits_for_facts(repository, plan, earlier, at);
    }
}

impl MergeSubmission {
    /// A merge request that begins.
    pub fn begin(repository: &RepositoryId, plan: &GitHubStackAsyncMergePlan) -> (r: Self)
        ensures
            r.deep_view() == submission_begun(repository.deep_view(), plan.deep_view()),
    {
        match validate_merge_plan(repository, plan) {
            Err(error) => MergeSubmission::Done { outcome: Err(error) },
            Ok(_) => MergeSubmission::Reading,
        }
    }

    /// The one write that the step asks for.
    pub fn request(&self, repository: &RepositoryId, plan: &GitHubStackAsyncMergePlan) -> (r:
        Option<CommandSpec>)
        requires
            merge_refusal(repository.deep_view(), plan.deep_view()) is None,
        ensures
            r.deep_view() == self.deep_view().request(repository.deep_view(), plan.deep_view()),
    {
        match self {
            MergeSubmission::Sending => Some(native_stack_merge_submit_command(repository, plan)),
            _ => None,
        }
    }

    /// The step that follows once something is learned.
    pub fn step(
        self,
        repository: &RepositoryId,
        plan: &GitHubStackAsyncMergePlan,
        event: MergeEvent,
    ) -> (r: Self)
        requires
            merge_refusal(repository.deep_view(), plan.deep_view()) is None,
        ensures
            r.deep_view() == submission_step(
                repository.deep_view(),
                plan.deep_view(),
                self.deep_view(),
                event.deep_view(),
            ),
            self is Sending && event is Answered && r is Observing ==> r->sent
                == event->Answered_0,
    {
        match (self, event) {
            (MergeSubmission::Reading, MergeEvent::Read(read)) => after_reading(plan, read),
            (MergeSubmission::Sending, MergeEvent::Answered(sent)) => after_answer(
                repository,
                plan,
                sent,
            ),
            (
                MergeSubmission::Observing { receipt, next, .. },
                MergeEvent::Seen(seen),
            ) => MergeSubmission::Done {
                outcome: Ok(
                    match next {
                        Next::Keep(status) => set_status(receipt, status),
                        Next::Prove => judge_terminal(receipt, seen),
                        Next::Look => judge_recovered(receipt, seen),
                    },
                ),
            },
            (at, _) => at,
        }
    }
}

fn after_reading(
    plan: &GitHubStackAsyncMergePlan,
    read: Result<Option<GitHubStackGeneration>, GitHubStackMutationError>,
) -> (r: MergeSubmission)
    ensures
        r.deep_view() == submission_read(plan.deep_view(), stack::stack_view(read)),
{
    match read {
        Err(error) => MergeSubmission::Done { outcome: Err(GitHubStackMergeError::Stack(error)) },
        Ok(actual) => if !actual.same(&Some(plan.before.dup())) {
            MergeSubmission::Done {
                outcome: Err(
                    GitHubStackMergeError::StaleGeneration {
                        expected: Box::new(plan.before.dup()),
                        actual: match actual {
                            Some(generation) => Some(Box::new(generation)),
                            None => None,
                        },
                    },
                ),
            }
        } else {
            MergeSubmission::Sending
        },
    }
}

fn after_answer(
    repository: &RepositoryId,
    plan: &GitHubStackAsyncMergePlan,
    sent: Sent,
) -> (r: MergeSubmission)
    requires
        merge_refusal(repository.deep_view(), plan.deep_view()) is None,
    ensures
        r.deep_view() == submission_answered(
            repository.deep_view(),
            plan.deep_view(),
            sent.answer(),
        ),
        r is Observing ==> r->sent == sent,
{
    let reply = sent.reply();
    let mut request = merge_request_identity(repository, plan);
    request.github_request_id = match reply {
        Ok(output) => github_request_id(output),
        Err(_) => None,
    };
    let said = parse_async_merge_response(reply);
    let provider_message = message_of(&said, reply);
    let checkpoint = stack_merge_checkpoint(repository, plan, &request, &said);
    let next = decide_after_submit(plan, checkpoint.is_some(), &said, reply);
    let receipt = GitHubStackMergeReceipt {
        schema_version: STACK_MERGE_SCHEMA_VERSION,
        repository: repository.dup(),
        plan: plan.dup(),
        request,
        checkpoint,
        status: GitHubStackMergeStatus::Indeterminate,
        provider_status: said.status,
        provider_message,
        provider_sha: said.sha,
        observation: None,
        evidence_hash: String::new(),
    };
    assert(receipt.deep_view().evidence_hash =~= Seq::empty());
    match next {
        Next::Keep(status) => MergeSubmission::Done { outcome: Ok(set_status(receipt, status)) },
        _ => MergeSubmission::Observing { receipt, next, sent },
    }
}

/// How a merge request may have come to a step.
pub open spec fn submission_explained<R: CommandRunner>(
    runner: R,
    repository: RepositoryIdView,
    plan: GitHubStackAsyncMergePlanView,
    at: MergeSubmission,
) -> bool {
    match at {
        MergeSubmission::Reading => merge_refusal(repository, plan) is None,
        MergeSubmission::Sending => merge_refusal(repository, plan) is None
            && stack_adapter::generation_read(
            runner,
            repository,
            plan.before.number,
            Ok(Some(plan.before)),
        ),
        MergeSubmission::Observing { sent, .. } => merge_refusal(repository, plan) is None
            && stack_adapter::generation_read(
            runner,
            repository,
            plan.before.number,
            Ok(Some(plan.before)),
        ) && command::was_sent(runner, merge_submit(repository, plan), sent) && at.deep_view()
            == submission_answered(repository, plan, sent.answer()),
        MergeSubmission::Done { outcome } => merge_submitted(
            runner,
            repository,
            plan,
            merge_view(outcome),
        ),
    }
}

impl<R: CommandRunner> GitHubMutationAdapter<R> {
    fn observe_merge_prs(
        &self,
        repository: &RepositoryId,
        entries: &Vec<GitHubStackEntryGeneration>,
    ) -> (r: Result<Vec<GitHubStackMergePullRequestObservation>, MutationError>)
        requires
            command::reads_allowed(self.runner),
        ensures
            prs_observed(
                self.runner,
                repository.deep_view(),
                stack::entry_prs(entries.deep_view()),
                adapter::outcome_view(r),
            ),
            r is Ok ==> r->Ok_0.len() == entries.len(),
    {
        let ghost prs = stack::entry_prs(entries.deep_view());
        let ghost mut reads: Seq<Result<PullRequestSnapshotView, MutationErrorView>> = Seq::empty();
        let mut out: Vec<GitHubStackMergePullRequestObservation> = Vec::new();
        let mut i: usize = 0;
        assert(out.deep_view() =~= Seq::<GitHubStackMergePullRequestObservationView>::empty());
        while i < entries.len()
            invariant
                prs == stack::entry_prs(entries.deep_view()),
                i <= entries.len(),
                out.len() == i,
                reads.len() == i,
                adapter::refetched_each(self.runner, repository.deep_view(), prs, reads),
                observed_prs(reads) == Ok::<_, MutationErrorView>(out.deep_view()),
                command::reads_allowed(self.runner),
            decreases entries.len() - i,
        {
            assert(entries.deep_view()[i as int] == entries[i as int].deep_view());
            let ghost before = reads;
            let read = self.refetch_pull_request(repository, entries[i].pr);
            proof {
                reads = before.push(adapter::outcome_view(read));
                assert(reads.drop_last() =~= before);
                assert forall|k: int| 0 <= k < reads.len() implies adapter::refetched(
                    self.runner,
                    repository.deep_view(),
                    model::pr_text(prs[k]),
                    #[trigger] reads[k],
                ) by {
                    if k < i {
                        assert(reads[k] == before[k]);
                    }
                }
                assert(adapter::refetched_each(self.runner, repository.deep_view(), prs, reads));
            }
            match read {
                Err(error) => {
                    return Err(error);
                },
                Ok(pr) => {
                    push_item(&mut out, observe_pr(pr));
                },
            }
            i = i + 1;
        }
        Ok(out)
    }

    /// The fresh facts after a merge request.
    pub fn observe_stack_merge(
        &self,
        repository: &RepositoryId,
        plan: &GitHubStackAsyncMergePlan,
    ) -> (r: Result<GitHubStackMergeObservation, GitHubStackMergeError>)
        requires
            command::reads_allowed(self.runner),
            plan.selected.len() <= plan.before.topology.entries.len(),
        ensures
            merge_observed(
                self.runner,
                repository.deep_view(),
                plan.deep_view(),
                merge_view(r),
            ),
    {
        let topology = &plan.before.topology;
        let read = self.json::<GitRefJson>(
            &native_stack_base_ref_command(repository, topology.base.name.as_str()),
        );
        assert(adapter::got::<R, GitRefJson>(
            self.runner,
            stack::stack_base_ref(
                repository.deep_view(),
                plan.deep_view().before.topology.base.name,
            ),
            adapter::outcome_view(read),
        ));
        let reference = match read {
            Err(error) => {
                return Err(GitHubStackMergeError::Provider(error));
            },
            Ok(reference) => reference,
        };
        let default_branch = BranchSnapshot {
            repository: repository.dup(),
            name: topology.base.name.dup(),
            oid: CommitOid(reference.object.sha),
        };
        let listed = self.observe_merge_prs(repository, &topology.entries);
        assert(prs_observed(
            self.runner,
            repository.deep_view(),
            stack::entry_prs(plan.deep_view().before.topology.entries),
            adapter::outcome_view(listed),
        ));
        let rows = match listed {
            Err(error) => {
                return Err(GitHubStackMergeError::Provider(error));
            },
            Ok(rows) => rows,
        };
        let after = self.native_stack_generation(repository, plan.before.number);
        assert(stack_adapter::generation_read(
            self.runner,
            repository.deep_view(),
            plan.deep_view().before.number,
            stack::stack_view(after),
        ));
        match after {
            Err(error) => Err(GitHubStackMergeError::Stack(error)),
            Ok(stack_after) => Ok(
                assemble_observation(plan, default_branch, &rows, stack_after),
            ),
        }
    }

    fn follow(&self, receipt: GitHubStackMergeReceipt, next: Next) -> (r: GitHubStackMergeReceipt)
        requires
            !(next is Keep) ==> command::reads_allowed(self.runner),
            receipt.plan.selected.len() <= receipt.plan.before.topology.entries.len(),
        ensures
            followed(self.runner, receipt.deep_view(), next, r.deep_view()),
    {
        match next {
            Next::Keep(status) => set_status(receipt, status),
            Next::Prove => {
                let seen = self.observe_stack_merge(&receipt.repository, &receipt.plan);
                assert(merge_observed(
                    self.runner,
                    receipt.deep_view().repository,
                    receipt.deep_view().plan,
                    merge_view(seen),
                ));
                judge_terminal(receipt, seen)
            },
            Next::Look => {
                let seen = self.observe_stack_merge(&receipt.repository, &receipt.plan);
                assert(merge_observed(
                    self.runner,
                    receipt.deep_view().repository,
                    receipt.deep_view().plan,
                    merge_view(seen),
                ));
                judge_recovered(receipt, seen)
            },
        }
    }

    /// Asks once for a direct atomic merge. Callers keep the checkpoint before
    /// they poll. If the response loses its identifier, the receipt says what
    /// fresh facts prove, and nothing is asked for again.
    #[verifier::rlimit(40)]
    pub fn native_stack_merge_submit(
        &self,
        repository: &RepositoryId,
        plan: &GitHubStackAsyncMergePlan,
    ) -> (r: Result<GitHubStackMergeReceipt, GitHubStackMergeError>)
        requires
            may_submit_merge(self.runner, repository.deep_view(), plan.deep_view()),
        ensures
            merge_submitted(
                self.runner,
                repository.deep_view(),
                plan.deep_view(),
                merge_view(r),
            ),
    {
        let ghost repo = repository.deep_view();
        let ghost sealed = plan.deep_view();
        let mut at = MergeSubmission::begin(repository, plan);
        loop
            invariant
                repo == repository.deep_view(),
                sealed == plan.deep_view(),
                may_submit_merge(self.runner, repo, sealed),
                submission_explained(self.runner, repo, sealed, at),
            decreases 3 - at.deep_view().rank(),
        {
            at = match at {
                MergeSubmission::Done { outcome } => {
                    return outcome;
                },
                MergeSubmission::Reading => {
                    let read = self.native_stack_generation(repository, plan.before.number);
                    assert(stack_adapter::generation_read(
                        self.runner,
                        repo,
                        sealed.before.number,
                        stack::stack_view(read),
                    ));
                    MergeSubmission::Reading.step(repository, plan, MergeEvent::Read(read))
                },
                MergeSubmission::Sending => {
                    let command = native_stack_merge_submit_command(repository, plan);
                    let sent = send(&self.runner, command);
                    assert(command::was_sent(self.runner, merge_submit(repo, sealed), sent));
                    MergeSubmission::Sending.step(repository, plan, MergeEvent::Answered(sent))
                },
                MergeSubmission::Observing { receipt, next, sent } => {
                    let ghost known = receipt.deep_view();
                    assert(known.repository == repo && known.plan == sealed);
                    assert(receipt.plan.deep_view().selected.len() == receipt.plan.selected.len());
                    assert(receipt.plan.deep_view().before.topology.entries.len()
                        == receipt.plan.before.topology.entries.len());
                    let seen = self.after(&sent).observe_stack_merge(
                        &receipt.repository,
                        &receipt.plan,
                    );
                    assert(merge_observed(
                        command::after(&self.runner, &sent),
                        known.repository,
                        known.plan,
                        merge_view(seen),
                    ));
                    MergeSubmission::Observing { receipt, next, sent }.step(
                        repository,
                        plan,
                        MergeEvent::Seen(seen),
                    )
                },
            };
        }
    }

    /// Polls one merge once. It neither sleeps nor loops.
    pub fn native_stack_merge_poll(
        &self,
        repository: &RepositoryId,
        checkpoint: &GitHubStackMergeCheckpoint,
    ) -> (r: Result<GitHubStackMergeReceipt, GitHubStackMergeError>)
        requires
            may_poll_merge(self.runner, repository.deep_view(), checkpoint.deep_view()),
        ensures
            merge_polled(
                self.runner,
                repository.deep_view(),
                checkpoint.deep_view(),
                merge_view(r),
            ),
    {
        match validate_checkpoint(repository, checkpoint) {
            Err(error) => {
                return Err(error);
            },
            Ok(_) => {},
        }
        let reply = run(&self.runner, &native_stack_merge_poll_command(repository, checkpoint));
        assert(command::ran(
            self.runner,
            merge_poll(repository.deep_view(), checkpoint.deep_view()),
            command::reply_view(reply),
        ));
        let mut request = checkpoint.request.dup();
        request.method = "GET".to_owned();
        request.path = path_of_poll(
            repository,
            checkpoint.request.selected_top,
            checkpoint.uuid.as_str(),
        );
        request.github_request_id = match &reply {
            Ok(output) => github_request_id(output),
            Err(_) => None,
        };
        let said = parse_async_merge_response(&reply);
        let provider_message = message_of(&said, &reply);
        let next = decide_after_poll(&said, &reply);
        let receipt = GitHubStackMergeReceipt {
            schema_version: STACK_MERGE_SCHEMA_VERSION,
            repository: repository.dup(),
            plan: checkpoint.plan.dup(),
            request,
            checkpoint: Some(checkpoint.dup()),
            status: GitHubStackMergeStatus::Indeterminate,
            provider_status: said.status,
            provider_message,
            provider_sha: said.sha,
            observation: None,
            evidence_hash: String::new(),
        };
        assert(receipt.deep_view().evidence_hash =~= Seq::empty());
        assert(receipt.plan.deep_view() == checkpoint.plan.deep_view());
        assert(receipt.plan.deep_view().selected.len() == receipt.plan.selected.len());
        assert(receipt.plan.deep_view().before.topology.entries.len()
            == receipt.plan.before.topology.entries.len());
        Ok(self.follow(receipt, next))
    }
}

} // verus!
