//! Rebuilding a native Stack around an eviction or a split.
//!
//! The provider can neither remove nor reorder entries. So one exact Stack is
//! taken apart, the pull requests are reshaped, and the chains of two or more
//! that remain become Stacks again. These are separate requests: every boundary
//! between them is a sealed checkpoint, and each step starts from fresh reads.

use vstd::prelude::*;
use vstd::string::*;
use crate::command;
use crate::command::CommandRunner;
use crate::github::adapter;
use crate::github::commands;
use crate::github::adapter::GitHubMutationAdapter;
use crate::github::evidence;
use crate::github::evidence::hash_of;
use crate::github::provider::{MutationError, MutationErrorView};
use crate::github::stack;
use crate::github::stack::{
    validate_open_entries, validate_operation_identity, validate_topology,
    validate_topology_allowing_stale_tail_base, GitHubStackCreatePlan, GitHubStackCreatePlanView,
    GitHubStackEntryGeneration, GitHubStackEntryGenerationView, GitHubStackGeneration,
    GitHubStackGenerationView, GitHubStackInventory, GitHubStackInventoryView,
    GitHubStackMutationError, GitHubStackMutationErrorView, GitHubStackMutationOperation,
    GitHubStackMutationReceipt, GitHubStackMutationReceiptView, GitHubStackReadError,
    GitHubStackReadErrorView, GitHubStackSnapshot, GitHubStackSnapshotView, GitHubStackTopology,
    GitHubStackTopologyView, GitHubStackUnstackPlan, GitHubStackUnstackPlanView,
};
use crate::github::stack_adapter;
use crate::github::stack_adapter::touching_stacks;
use crate::json;
use crate::json::{json_string, Entries, Json, JsonForm};
use crate::model;
use crate::model::{
    append_items, push_item, BranchSnapshot, BranchSnapshotView, LabelSet, Model, OperationId,
    OperationReceipt, OperationReceiptView, PrNumber, PullRequestSnapshot, PullRequestSnapshotView,
    PullRequestState, RepositoryId, RepositoryIdView,
};
use crate::text;
use crate::text::{blank, decimal_text, join, text_eq};

verus! {

pub const RESHAPE_SCHEMA_VERSION: u32 = 1;

pub const ACTIVE_LABEL: &'static str = "caravan";

pub const EVICTED_LABEL: &'static str = "caravan-evicted";

pub const FORCE_LABEL: &'static str = "caravan-force";

/// Most chains that an eviction or a split leaves.
pub const MAX_REPLACEMENT_CHAINS: usize = 2;

impl JsonForm for LabelSet {
    open spec fn form(content: Seq<Seq<char>>) -> Json {
        <Vec<String> as JsonForm>::form(content)
    }

    fn to_json(&self) -> (r: serde_json::Value) {
        self.to_list().to_json()
    }
}

impl JsonForm for OperationId {
    open spec fn form(content: Seq<char>) -> Json {
        Json::Text(content)
    }

    fn to_json(&self) -> (r: serde_json::Value) {
        json_string(self.0.as_str())
    }
}

impl JsonForm for OperationReceipt {
    open spec fn form(content: OperationReceiptView) -> Json {
        let e = json::no_entries();
        let e = json::entry(
            e,
            "operation_id"@,
            <OperationId as JsonForm>::form(content.operation_id),
        );
        let e = json::entry(e, "operation"@, <String as JsonForm>::form(content.operation));
        let e = json::entry(
            e,
            "completed_steps"@,
            <Vec<String> as JsonForm>::form(content.completed_steps),
        );
        let e = json::entry(e, "changed"@, <bool as JsonForm>::form(content.changed));
        json::object_of(e)
    }

    fn to_json(&self) -> (r: serde_json::Value) {
        Entries::new()
            .with("operation_id", self.operation_id.to_json())
            .with("operation", self.operation.to_json())
            .with("completed_steps", self.completed_steps.to_json())
            .with("changed", self.changed.to_json())
            .object()
    }
}

/// What reshapes a Stack.
#[derive(Debug, Clone, Copy, PartialEq, Eq, PartialOrd, Ord, Structural)]
pub enum GitHubStackReshapeOperation {
    Evict,
    Split,
}

impl DeepView for GitHubStackReshapeOperation {
    type V = GitHubStackReshapeOperation;

    open spec fn deep_view(&self) -> GitHubStackReshapeOperation {
        *self
    }
}

impl Model for GitHubStackReshapeOperation {
    fn same(&self, other: &Self) -> (r: bool) {
        *self == *other
    }

    fn dup(&self) -> (r: Self) {
        *self
    }
}

/// What a reshape must leave of one pull request. Labels that are neither
/// required nor forbidden are free.
#[derive(Debug, PartialEq, Eq)]
pub struct GitHubStackReshapePrPostcondition {
    pub pr: PrNumber,
    pub head: BranchSnapshot,
    pub base: BranchSnapshot,
    pub required_labels: LabelSet,
    pub forbidden_labels: LabelSet,
    pub auto_merge_enabled: bool,
}

/// The content of a [`GitHubStackReshapePrPostcondition`].
#[verifier::ext_equal]
pub struct GitHubStackReshapePrPostconditionView {
    pub pr: PrNumber,
    pub head: BranchSnapshotView,
    pub base: BranchSnapshotView,
    pub required_labels: Seq<Seq<char>>,
    pub forbidden_labels: Seq<Seq<char>>,
    pub auto_merge_enabled: bool,
}

impl DeepView for GitHubStackReshapePrPostcondition {
    type V = GitHubStackReshapePrPostconditionView;

    open spec fn deep_view(&self) -> GitHubStackReshapePrPostconditionView {
        GitHubStackReshapePrPostconditionView {
            pr: self.pr.deep_view(),
            head: self.head.deep_view(),
            base: self.base.deep_view(),
            required_labels: self.required_labels.deep_view(),
            forbidden_labels: self.forbidden_labels.deep_view(),
            auto_merge_enabled: self.auto_merge_enabled.deep_view(),
        }
    }
}

impl Clone for GitHubStackReshapePrPostcondition {
    fn clone(&self) -> (r: Self)
        ensures
            r.deep_view() == self.deep_view(),
    {
        self.dup()
    }
}

impl Model for GitHubStackReshapePrPostcondition {
    fn same(&self, other: &Self) -> (r: bool) {
        self.pr.same(&other.pr)
            && self.head.same(&other.head)
            && self.base.same(&other.base)
            && self.required_labels.same(&other.required_labels)
            && self.forbidden_labels.same(&other.forbidden_labels)
            && self.auto_merge_enabled.same(&other.auto_merge_enabled)
    }

    fn dup(&self) -> (r: Self) {
        GitHubStackReshapePrPostcondition {
            pr: self.pr.dup(),
            head: self.head.dup(),
            base: self.base.dup(),
            required_labels: self.required_labels.dup(),
            forbidden_labels: self.forbidden_labels.dup(),
            auto_merge_enabled: self.auto_merge_enabled.dup(),
        }
    }
}

/// A complete replacement of one exact Stack.
#[derive(Debug, PartialEq, Eq)]
pub struct GitHubStackReshapePlan {
    pub schema_version: u32,
    pub repository: RepositoryId,
    pub operation_id: String,
    pub actor: String,
    pub operation: GitHubStackReshapeOperation,
    pub selected_pr: PrNumber,
    pub before: GitHubStackGeneration,
    /// Every chain that is left, also those of one pull request, which become
    /// no Stack.
    pub replacement_chains: Vec<GitHubStackTopology>,
    pub pr_postconditions: Vec<GitHubStackReshapePrPostcondition>,
    pub plan_hash: String,
}

/// The content of a [`GitHubStackReshapePlan`].
#[verifier::ext_equal]
pub struct GitHubStackReshapePlanView {
    pub schema_version: u32,
    pub repository: RepositoryIdView,
    pub operation_id: Seq<char>,
    pub actor: Seq<char>,
    pub operation: GitHubStackReshapeOperation,
    pub selected_pr: PrNumber,
    pub before: GitHubStackGenerationView,
    pub replacement_chains: Seq<GitHubStackTopologyView>,
    pub pr_postconditions: Seq<GitHubStackReshapePrPostconditionView>,
    pub plan_hash: Seq<char>,
}

impl DeepView for GitHubStackReshapePlan {
    type V = GitHubStackReshapePlanView;

    open spec fn deep_view(&self) -> GitHubStackReshapePlanView {
        GitHubStackReshapePlanView {
            schema_version: self.schema_version.deep_view(),
            repository: self.repository.deep_view(),
            operation_id: self.operation_id.deep_view(),
            actor: self.actor.deep_view(),
            operation: self.operation.deep_view(),
            selected_pr: self.selected_pr.deep_view(),
            before: self.before.deep_view(),
            replacement_chains: self.replacement_chains.deep_view(),
            pr_postconditions: self.pr_postconditions.deep_view(),
            plan_hash: self.plan_hash.deep_view(),
        }
    }
}

impl Clone for GitHubStackReshapePlan {
    fn clone(&self) -> (r: Self)
        ensures
            r.deep_view() == self.deep_view(),
    {
        self.dup()
    }
}

impl Model for GitHubStackReshapePlan {
    fn same(&self, other: &Self) -> (r: bool) {
        self.schema_version.same(&other.schema_version)
            && self.repository.same(&other.repository)
            && self.operation_id.same(&other.operation_id)
            && self.actor.same(&other.actor)
            && self.operation.same(&other.operation)
            && self.selected_pr.same(&other.selected_pr)
            && self.before.same(&other.before)
            && self.replacement_chains.same(&other.replacement_chains)
            && self.pr_postconditions.same(&other.pr_postconditions)
            && self.plan_hash.same(&other.plan_hash)
    }

    fn dup(&self) -> (r: Self) {
        GitHubStackReshapePlan {
            schema_version: self.schema_version.dup(),
            repository: self.repository.dup(),
            operation_id: self.operation_id.dup(),
            actor: self.actor.dup(),
            operation: self.operation.dup(),
            selected_pr: self.selected_pr.dup(),
            before: self.before.dup(),
            replacement_chains: self.replacement_chains.dup(),
            pr_postconditions: self.pr_postconditions.dup(),
            plan_hash: self.plan_hash.dup(),
        }
    }
}

/// How far a reshape has come.
#[derive(Debug, Clone, Copy, PartialEq, Eq, PartialOrd, Ord, Structural)]
pub enum GitHubStackReshapePhase {
    Preflighted,
    Unstacked,
    ReshapeApplied,
    Rebuilding,
    Rebuilt,
    Verified,
}

impl DeepView for GitHubStackReshapePhase {
    type V = GitHubStackReshapePhase;

    open spec fn deep_view(&self) -> GitHubStackReshapePhase {
        *self
    }
}

impl Model for GitHubStackReshapePhase {
    fn same(&self, other: &Self) -> (r: bool) {
        *self == *other
    }

    fn dup(&self) -> (r: Self) {
        *self
    }
}

/// A reshape that a new process can go on with.
#[derive(Debug, PartialEq, Eq)]
pub struct GitHubStackReshapeCheckpoint {
    pub schema_version: u32,
    pub repository: RepositoryId,
    pub plan: GitHubStackReshapePlan,
    pub phase: GitHubStackReshapePhase,
    /// Always false: the steps are separate requests.
    pub provider_atomic: bool,
    pub unstack_receipt: Option<GitHubStackMutationReceipt>,
    pub reshape_receipt: Option<OperationReceipt>,
    pub replacement_receipts: Vec<GitHubStackMutationReceipt>,
    pub final_stacks: Vec<GitHubStackGeneration>,
    pub evidence_hash: String,
}

/// The content of a [`GitHubStackReshapeCheckpoint`].
#[verifier::ext_equal]
pub struct GitHubStackReshapeCheckpointView {
    pub schema_version: u32,
    pub repository: RepositoryIdView,
    pub plan: GitHubStackReshapePlanView,
    pub phase: GitHubStackReshapePhase,
    pub provider_atomic: bool,
    pub unstack_receipt: Option<GitHubStackMutationReceiptView>,
    pub reshape_receipt: Option<OperationReceiptView>,
    pub replacement_receipts: Seq<GitHubStackMutationReceiptView>,
    pub final_stacks: Seq<GitHubStackGenerationView>,
    pub evidence_hash: Seq<char>,
}

impl DeepView for GitHubStackReshapeCheckpoint {
    type V = GitHubStackReshapeCheckpointView;

    open spec fn deep_view(&self) -> GitHubStackReshapeCheckpointView {
        GitHubStackReshapeCheckpointView {
            schema_version: self.schema_version.deep_view(),
            repository: self.repository.deep_view(),
            plan: self.plan.deep_view(),
            phase: self.phase.deep_view(),
            provider_atomic: self.provider_atomic.deep_view(),
            unstack_receipt: self.unstack_receipt.deep_view(),
            reshape_receipt: self.reshape_receipt.deep_view(),
            replacement_receipts: self.replacement_receipts.deep_view(),
            final_stacks: self.final_stacks.deep_view(),
            evidence_hash: self.evidence_hash.deep_view(),
        }
    }
}

impl Clone for GitHubStackReshapeCheckpoint {
    fn clone(&self) -> (r: Self)
        ensures
            r.deep_view() == self.deep_view(),
    {
        self.dup()
    }
}

impl Model for GitHubStackReshapeCheckpoint {
    fn same(&self, other: &Self) -> (r: bool) {
        self.schema_version.same(&other.schema_version)
            && self.repository.same(&other.repository)
            && self.plan.same(&other.plan)
            && self.phase.same(&other.phase)
            && self.provider_atomic.same(&other.provider_atomic)
            && self.unstack_receipt.same(&other.unstack_receipt)
            && self.reshape_receipt.same(&other.reshape_receipt)
            && self.replacement_receipts.same(&other.replacement_receipts)
            && self.final_stacks.same(&other.final_stacks)
            && self.evidence_hash.same(&other.evidence_hash)
    }

    fn dup(&self) -> (r: Self) {
        GitHubStackReshapeCheckpoint {
            schema_version: self.schema_version.dup(),
            repository: self.repository.dup(),
            plan: self.plan.dup(),
            phase: self.phase.dup(),
            provider_atomic: self.provider_atomic.dup(),
            unstack_receipt: self.unstack_receipt.dup(),
            reshape_receipt: self.reshape_receipt.dup(),
            replacement_receipts: self.replacement_receipts.dup(),
            final_stacks: self.final_stacks.dup(),
            evidence_hash: self.evidence_hash.dup(),
        }
    }
}

/// Refusal of a step of a reshape.
#[derive(Debug, PartialEq, Eq)]
pub enum GitHubStackReshapeError {
    InvalidPlan {
        code: String,
        message: String,
    },
    InvalidCheckpoint {
        diagnostic: String,
    },
    StaleGeneration {
        expected: Box<GitHubStackGeneration>,
        actual: Option<Box<GitHubStackGeneration>>,
    },
    ExistingReshapeIncomplete {
        pr: PrNumber,
        changed_fields: Vec<String>,
    },
    FinalTopologyMismatch {
        diagnostic: String,
    },
    StackMutation(GitHubStackMutationError),
    StackRead(GitHubStackReadError),
    Provider(MutationError),
}

/// The content of a [`GitHubStackReshapeError`].
pub enum GitHubStackReshapeErrorView {
    InvalidPlan {
        code: Seq<char>,
        message: Seq<char>,
    },
    InvalidCheckpoint {
        diagnostic: Seq<char>,
    },
    StaleGeneration {
        expected: GitHubStackGenerationView,
        actual: Option<GitHubStackGenerationView>,
    },
    ExistingReshapeIncomplete {
        pr: PrNumber,
        changed_fields: Seq<Seq<char>>,
    },
    FinalTopologyMismatch {
        diagnostic: Seq<char>,
    },
    StackMutation(GitHubStackMutationErrorView),
    StackRead(GitHubStackReadErrorView),
    Provider(MutationErrorView),
}

impl DeepView for GitHubStackReshapeError {
    type V = GitHubStackReshapeErrorView;

    open spec fn deep_view(&self) -> GitHubStackReshapeErrorView {
        match self {
            GitHubStackReshapeError::InvalidPlan { code, message } => GitHubStackReshapeErrorView::InvalidPlan {
                code: code.deep_view(),
                message: message.deep_view(),
            },
            GitHubStackReshapeError::InvalidCheckpoint { diagnostic } => GitHubStackReshapeErrorView::InvalidCheckpoint {
                diagnostic: diagnostic.deep_view(),
            },
            GitHubStackReshapeError::StaleGeneration { expected, actual } => GitHubStackReshapeErrorView::StaleGeneration {
                expected: expected.deep_view(),
                actual: actual.deep_view(),
            },
            GitHubStackReshapeError::ExistingReshapeIncomplete { pr, changed_fields } => GitHubStackReshapeErrorView::ExistingReshapeIncomplete {
                pr: pr.deep_view(),
                changed_fields: changed_fields.deep_view(),
            },
            GitHubStackReshapeError::FinalTopologyMismatch { diagnostic } => GitHubStackReshapeErrorView::FinalTopologyMismatch {
                diagnostic: diagnostic.deep_view(),
            },
            GitHubStackReshapeError::StackMutation(x) => GitHubStackReshapeErrorView::StackMutation(
                x.deep_view(),
            ),
            GitHubStackReshapeError::StackRead(x) => GitHubStackReshapeErrorView::StackRead(
                x.deep_view(),
            ),
            GitHubStackReshapeError::Provider(x) => GitHubStackReshapeErrorView::Provider(
                x.deep_view(),
            ),
        }
    }
}

impl JsonForm for GitHubStackReshapeOperation {
    open spec fn form(content: GitHubStackReshapeOperation) -> Json {
        match content {
            GitHubStackReshapeOperation::Evict => Json::Text("evict"@),
            GitHubStackReshapeOperation::Split => Json::Text("split"@),
        }
    }

    fn to_json(&self) -> (r: serde_json::Value) {
        match self {
            GitHubStackReshapeOperation::Evict => json_string("evict"),
            GitHubStackReshapeOperation::Split => json_string("split"),
        }
    }
}

impl JsonForm for GitHubStackReshapePrPostcondition {
    open spec fn form(content: GitHubStackReshapePrPostconditionView) -> Json {
        let e = json::no_entries();
        let e = json::entry(e, "pr"@, <PrNumber as JsonForm>::form(content.pr));
        let e = json::entry(e, "head"@, <BranchSnapshot as JsonForm>::form(content.head));
        let e = json::entry(e, "base"@, <BranchSnapshot as JsonForm>::form(content.base));
        let e = json::entry(
            e,
            "required_labels"@,
            <LabelSet as JsonForm>::form(content.required_labels),
        );
        let e = json::entry(
            e,
            "forbidden_labels"@,
            <LabelSet as JsonForm>::form(content.forbidden_labels),
        );
        let e = json::entry(
            e,
            "auto_merge_enabled"@,
            <bool as JsonForm>::form(content.auto_merge_enabled),
        );
        json::object_of(e)
    }

    fn to_json(&self) -> (r: serde_json::Value) {
        Entries::new()
            .with("pr", self.pr.to_json())
            .with("head", self.head.to_json())
            .with("base", self.base.to_json())
            .with("required_labels", self.required_labels.to_json())
            .with("forbidden_labels", self.forbidden_labels.to_json())
            .with("auto_merge_enabled", self.auto_merge_enabled.to_json())
            .object()
    }
}

impl JsonForm for GitHubStackReshapePlan {
    open spec fn form(content: GitHubStackReshapePlanView) -> Json {
        let e = json::no_entries();
        let e = json::entry(e, "schema_version"@, <u32 as JsonForm>::form(content.schema_version));
        let e = json::entry(e, "repository"@, <RepositoryId as JsonForm>::form(content.repository));
        let e = json::entry(e, "operation_id"@, <String as JsonForm>::form(content.operation_id));
        let e = json::entry(e, "actor"@, <String as JsonForm>::form(content.actor));
        let e = json::entry(
            e,
            "operation"@,
            <GitHubStackReshapeOperation as JsonForm>::form(content.operation),
        );
        let e = json::entry(e, "selected_pr"@, <PrNumber as JsonForm>::form(content.selected_pr));
        let e = json::entry(
            e,
            "before"@,
            <GitHubStackGeneration as JsonForm>::form(content.before),
        );
        let e = json::entry(
            e,
            "replacement_chains"@,
            <Vec<GitHubStackTopology> as JsonForm>::form(content.replacement_chains),
        );
        let e = json::entry(
            e,
            "pr_postconditions"@,
            <Vec<GitHubStackReshapePrPostcondition> as JsonForm>::form(content.pr_postconditions),
        );
        let e = json::entry(e, "plan_hash"@, <String as JsonForm>::form(content.plan_hash));
        json::object_of(e)
    }

    fn to_json(&self) -> (r: serde_json::Value) {
        Entries::new()
            .with("schema_version", self.schema_version.to_json())
            .with("repository", self.repository.to_json())
            .with("operation_id", self.operation_id.to_json())
            .with("actor", self.actor.to_json())
            .with("operation", self.operation.to_json())
            .with("selected_pr", self.selected_pr.to_json())
            .with("before", self.before.to_json())
            .with("replacement_chains", self.replacement_chains.to_json())
            .with("pr_postconditions", self.pr_postconditions.to_json())
            .with("plan_hash", self.plan_hash.to_json())
            .object()
    }
}

impl JsonForm for GitHubStackReshapePhase {
    open spec fn form(content: GitHubStackReshapePhase) -> Json {
        match content {
            GitHubStackReshapePhase::Preflighted => Json::Text("preflighted"@),
            GitHubStackReshapePhase::Unstacked => Json::Text("unstacked"@),
            GitHubStackReshapePhase::ReshapeApplied => Json::Text("reshape_applied"@),
            GitHubStackReshapePhase::Rebuilding => Json::Text("rebuilding"@),
            GitHubStackReshapePhase::Rebuilt => Json::Text("rebuilt"@),
            GitHubStackReshapePhase::Verified => Json::Text("verified"@),
        }
    }

    fn to_json(&self) -> (r: serde_json::Value) {
        match self {
            GitHubStackReshapePhase::Preflighted => json_string("preflighted"),
            GitHubStackReshapePhase::Unstacked => json_string("unstacked"),
            GitHubStackReshapePhase::ReshapeApplied => json_string("reshape_applied"),
            GitHubStackReshapePhase::Rebuilding => json_string("rebuilding"),
            GitHubStackReshapePhase::Rebuilt => json_string("rebuilt"),
            GitHubStackReshapePhase::Verified => json_string("verified"),
        }
    }
}

impl JsonForm for GitHubStackReshapeCheckpoint {
    open spec fn form(content: GitHubStackReshapeCheckpointView) -> Json {
        let e = json::no_entries();
        let e = json::entry(e, "schema_version"@, <u32 as JsonForm>::form(content.schema_version));
        let e = json::entry(e, "repository"@, <RepositoryId as JsonForm>::form(content.repository));
        let e = json::entry(e, "plan"@, <GitHubStackReshapePlan as JsonForm>::form(content.plan));
        let e = json::entry(
            e,
            "phase"@,
            <GitHubStackReshapePhase as JsonForm>::form(content.phase),
        );
        let e = json::entry(
            e,
            "provider_atomic"@,
            <bool as JsonForm>::form(content.provider_atomic),
        );
        let e = json::entry_unless_null(
            e,
            "unstack_receipt"@,
            <Option<GitHubStackMutationReceipt> as JsonForm>::form(content.unstack_receipt),
        );
        let e = json::entry_unless_null(
            e,
            "reshape_receipt"@,
            <Option<OperationReceipt> as JsonForm>::form(content.reshape_receipt),
        );
        let e = json::entry(
            e,
            "replacement_receipts"@,
            <Vec<GitHubStackMutationReceipt> as JsonForm>::form(content.replacement_receipts),
        );
        let e = json::entry(
            e,
            "final_stacks"@,
            <Vec<GitHubStackGeneration> as JsonForm>::form(content.final_stacks),
        );
        let e = json::entry(e, "evidence_hash"@, <String as JsonForm>::form(content.evidence_hash));
        json::object_of(e)
    }

    fn to_json(&self) -> (r: serde_json::Value) {
        Entries::new()
            .with("schema_version", self.schema_version.to_json())
            .with("repository", self.repository.to_json())
            .with("plan", self.plan.to_json())
            .with("phase", self.phase.to_json())
            .with("provider_atomic", self.provider_atomic.to_json())
            .with_unless_null("unstack_receipt", self.unstack_receipt.to_json())
            .with_unless_null("reshape_receipt", self.reshape_receipt.to_json())
            .with("replacement_receipts", self.replacement_receipts.to_json())
            .with("final_stacks", self.final_stacks.to_json())
            .with("evidence_hash", self.evidence_hash.to_json())
            .object()
    }
}

impl GitHubStackReshapePlanView {
    /// The plan without its hash.
    pub open spec fn unsealed(self) -> GitHubStackReshapePlanView {
        GitHubStackReshapePlanView { plan_hash: Seq::empty(), ..self }
    }

    /// The plan with the hash of everything else in it.
    pub open spec fn sealed(self) -> GitHubStackReshapePlanView {
        GitHubStackReshapePlanView {
            plan_hash: evidence::tree_hash(
                <GitHubStackReshapePlan as JsonForm>::form(self.unsealed()),
            ),
            ..self
        }
    }

    /// Whether the hash is that of everything else.
    pub open spec fn intact(self) -> bool {
        self == self.sealed()
    }
}

impl GitHubStackReshapePlan {
    /// The plan with the hash of everything else in it.
    pub fn seal(self) -> (r: Self)
        ensures
            r.deep_view() == self.deep_view().sealed(),
    {
        let mut out = self.dup();
        out.plan_hash = String::new();
        assert(out.deep_view() =~= self.deep_view().unsealed());
        let hash = hash_of(&out.to_json());
        out.plan_hash = hash;
        out
    }

    /// Whether the hash is that of everything else.
    pub fn hash_holds(&self) -> (r: bool)
        ensures
            r == self.deep_view().intact(),
    {
        let mut material = self.dup();
        material.plan_hash = String::new();
        assert(material.deep_view() =~= self.deep_view().unsealed());
        let hash = hash_of(&material.to_json());
        let r = text_eq(hash.as_str(), self.plan_hash.as_str());
        assert(r ==> self.deep_view() =~= self.deep_view().sealed());
        r
    }
}

/// A sealed plan is intact, and sealing changes nothing but the hash.
pub proof fn lemma_sealed_reshape_plan_is_intact(plan: GitHubStackReshapePlanView)
    ensures
        plan.sealed().intact(),
        plan.sealed().unsealed() == plan.unsealed(),
{
    assert(plan.sealed().unsealed() =~= plan.unsealed());
    assert(plan.sealed().sealed() =~= plan.sealed());
}


impl GitHubStackReshapeCheckpointView {
    /// The checkpoint without its hash.
    pub open spec fn unsealed(self) -> GitHubStackReshapeCheckpointView {
        GitHubStackReshapeCheckpointView { evidence_hash: Seq::empty(), ..self }
    }

    /// The checkpoint with the hash of everything else in it.
    pub open spec fn sealed(self) -> GitHubStackReshapeCheckpointView {
        GitHubStackReshapeCheckpointView {
            evidence_hash: evidence::tree_hash(
                <GitHubStackReshapeCheckpoint as JsonForm>::form(self.unsealed()),
            ),
            ..self
        }
    }

    /// Whether the hash is that of everything else.
    pub open spec fn intact(self) -> bool {
        self == self.sealed()
    }
}

impl GitHubStackReshapeCheckpoint {
    /// The checkpoint with the hash of everything else in it.
    pub fn seal(self) -> (r: Self)
        ensures
            r.deep_view() == self.deep_view().sealed(),
    {
        let mut out = self.dup();
        out.evidence_hash = String::new();
        assert(out.deep_view() =~= self.deep_view().unsealed());
        let hash = hash_of(&out.to_json());
        out.evidence_hash = hash;
        out
    }

    /// Whether the hash is that of everything else.
    pub fn hash_holds(&self) -> (r: bool)
        ensures
            r == self.deep_view().intact(),
    {
        let mut material = self.dup();
        material.evidence_hash = String::new();
        assert(material.deep_view() =~= self.deep_view().unsealed());
        let hash = hash_of(&material.to_json());
        let r = text_eq(hash.as_str(), self.evidence_hash.as_str());
        assert(r ==> self.deep_view() =~= self.deep_view().sealed());
        r
    }
}

/// A sealed checkpoint is intact, and sealing changes nothing but the hash.
pub proof fn lemma_sealed_reshape_checkpoint_is_intact(checkpoint: GitHubStackReshapeCheckpointView)
    ensures
        checkpoint.sealed().intact(),
        checkpoint.sealed().unsealed() == checkpoint.unsealed(),
{
    assert(checkpoint.sealed().unsealed() =~= checkpoint.unsealed());
    assert(checkpoint.sealed().sealed() =~= checkpoint.sealed());
}


// ---------------------------------------------------------------------------
// Messages
// ---------------------------------------------------------------------------

impl GitHubStackReshapeErrorView {
    /// The message of the error.
    pub open spec fn message(self) -> Seq<char> {
        match self {
            GitHubStackReshapeErrorView::InvalidPlan { code, message } => code + ": "@ + message,
            GitHubStackReshapeErrorView::InvalidCheckpoint { diagnostic } =>
                "invalid Stack reshape checkpoint: "@ + diagnostic,
            GitHubStackReshapeErrorView::StaleGeneration { .. } =>
                "native Stack reshape generation changed"@,
            GitHubStackReshapeErrorView::ExistingReshapeIncomplete { pr, changed_fields } =>
                "existing Cara reshape has not established PR #"@ + model::pr_text(pr) + ": "@
                    + text::joined(changed_fields, ", "@),
            GitHubStackReshapeErrorView::FinalTopologyMismatch { diagnostic } =>
                "native Stack reshape final topology mismatch: "@ + diagnostic,
            GitHubStackReshapeErrorView::StackMutation(error) => error.message(),
            GitHubStackReshapeErrorView::StackRead(error) => error.message(),
            GitHubStackReshapeErrorView::Provider(error) => error.message(),
        }
    }
}

impl GitHubStackReshapeError {
    /// The message of the error.
    pub fn to_text(&self) -> (r: String)
        ensures
            r@ == self.deep_view().message(),
    {
        match self {
            GitHubStackReshapeError::InvalidPlan { code, message } => code.dup().concat(
                ": ",
            ).concat(message.as_str()),
            GitHubStackReshapeError::InvalidCheckpoint { diagnostic } =>
                "invalid Stack reshape checkpoint: ".to_owned().concat(diagnostic.as_str()),
            GitHubStackReshapeError::StaleGeneration { .. } =>
                "native Stack reshape generation changed".to_owned(),
            GitHubStackReshapeError::ExistingReshapeIncomplete { pr, changed_fields } =>
                "existing Cara reshape has not established PR #".to_owned().concat(
                pr.to_text().as_str(),
            ).concat(": ").concat(join(changed_fields, ", ").as_str()),
            GitHubStackReshapeError::FinalTopologyMismatch { diagnostic } =>
                "native Stack reshape final topology mismatch: ".to_owned().concat(
                diagnostic.as_str(),
            ),
            GitHubStackReshapeError::StackMutation(error) => error.to_text(),
            GitHubStackReshapeError::StackRead(error) => error.to_text(),
            GitHubStackReshapeError::Provider(error) => error.to_text(),
        }
    }
}

/// The content of an outcome.
pub open spec fn reshape_view<T: DeepView>(outcome: Result<T, GitHubStackReshapeError>) -> Result<
    T::V,
    GitHubStackReshapeErrorView,
> {
    match outcome {
        Ok(value) => Ok(value.deep_view()),
        Err(error) => Err(error.deep_view()),
    }
}

/// The content of a refusal.
pub open spec fn refusal_view(refusal: Option<GitHubStackReshapeError>) -> Option<
    GitHubStackReshapeErrorView,
> {
    match refusal {
        Some(error) => Some(error.deep_view()),
        None => None,
    }
}

/// A refusal as an outcome.
pub open spec fn unless(refusal: Option<GitHubStackReshapeErrorView>) -> Result<
    (),
    GitHubStackReshapeErrorView,
> {
    match refusal {
        Some(error) => Err(error),
        None => Ok(()),
    }
}

/// A plan that is refused.
pub open spec fn refused(code: Seq<char>, message: Seq<char>) -> GitHubStackReshapeErrorView {
    GitHubStackReshapeErrorView::InvalidPlan { code, message }
}

fn invalid_plan(code: &str, message: &str) -> (r: GitHubStackReshapeError)
    ensures
        r.deep_view() == refused(code@, message@),
{
    GitHubStackReshapeError::InvalidPlan { code: code.to_owned(), message: message.to_owned() }
}

/// A checkpoint that is refused.
pub open spec fn bad_reshape(diagnostic: Seq<char>) -> GitHubStackReshapeErrorView {
    GitHubStackReshapeErrorView::InvalidCheckpoint { diagnostic }
}

fn invalid_checkpoint(diagnostic: &str) -> (r: GitHubStackReshapeError)
    ensures
        r.deep_view() == bad_reshape(diagnostic@),
{
    GitHubStackReshapeError::InvalidCheckpoint { diagnostic: diagnostic.to_owned() }
}

/// A final topology that is refused.
pub open spec fn mismatched(diagnostic: Seq<char>) -> GitHubStackReshapeErrorView {
    GitHubStackReshapeErrorView::FinalTopologyMismatch { diagnostic }
}

fn mismatch(diagnostic: &str) -> (r: GitHubStackReshapeError)
    ensures
        r.deep_view() == mismatched(diagnostic@),
{
    GitHubStackReshapeError::FinalTopologyMismatch { diagnostic: diagnostic.to_owned() }
}

/// The refusal of a Stack as a refusal of the plan.
pub open spec fn of_plan(error: GitHubStackMutationErrorView) -> GitHubStackReshapeErrorView {
    match error {
        GitHubStackMutationErrorView::InvalidPlan { code, message } =>
            GitHubStackReshapeErrorView::InvalidPlan { code, message },
        _ => GitHubStackReshapeErrorView::StackMutation(error),
    }
}

fn map_plan_error(error: GitHubStackMutationError) -> (r: GitHubStackReshapeError)
    ensures
        r.deep_view() == of_plan(error.deep_view()),
{
    match error {
        GitHubStackMutationError::InvalidPlan { code, message } =>
            GitHubStackReshapeError::InvalidPlan { code, message },
        other => GitHubStackReshapeError::StackMutation(other),
    }
}

impl GitHubStackReshapeOperation {
    /// The name of the operation.
    pub open spec fn word(self) -> Seq<char> {
        match self {
            GitHubStackReshapeOperation::Evict => "evict"@,
            GitHubStackReshapeOperation::Split => "split"@,
        }
    }

    fn as_word(self) -> (r: &'static str)
        ensures
            r@ == self.word(),
    {
        match self {
            GitHubStackReshapeOperation::Evict => "evict",
            GitHubStackReshapeOperation::Split => "split",
        }
    }
}

// ---------------------------------------------------------------------------
// Chains
// ---------------------------------------------------------------------------

/// All entries of chains, in order.
pub open spec fn all_entries(chains: Seq<GitHubStackTopologyView>) -> Seq<
    GitHubStackEntryGenerationView,
>
    decreases chains.len(),
{
    if chains.len() == 0 {
        Seq::empty()
    } else {
        all_entries(chains.drop_last()) + chains.last().entries
    }
}

/// The chains that become Stacks: those of two or more.
pub open spec fn stackable(chains: Seq<GitHubStackTopologyView>) -> Seq<GitHubStackTopologyView>
    decreases chains.len(),
{
    if chains.len() == 0 {
        Seq::empty()
    } else if chains.last().entries.len() >= 2 {
        stackable(chains.drop_last()).push(chains.last())
    } else {
        stackable(chains.drop_last())
    }
}

/// The entries without those of a pull request.
pub open spec fn without(
    entries: Seq<GitHubStackEntryGenerationView>,
    pr: PrNumber,
) -> Seq<GitHubStackEntryGenerationView>
    decreases entries.len(),
{
    if entries.len() == 0 {
        Seq::empty()
    } else if entries.last().pr != pr {
        without(entries.drop_last(), pr).push(entries.last())
    } else {
        without(entries.drop_last(), pr)
    }
}

/// The position of the first entry of a pull request.
pub open spec fn place_of(entries: Seq<GitHubStackEntryGenerationView>, pr: PrNumber) -> Option<nat>
    decreases entries.len(),
{
    if entries.len() == 0 {
        None
    } else {
        match place_of(entries.drop_last(), pr) {
            Some(at) => Some(at),
            None => if entries.last().pr == pr {
                Some((entries.len() - 1) as nat)
            } else {
                None
            },
        }
    }
}

/// The last entry of a pull request.
pub open spec fn entry_for(entries: Seq<GitHubStackEntryGenerationView>, pr: PrNumber) -> Option<
    GitHubStackEntryGenerationView,
>
    decreases entries.len(),
{
    if entries.len() == 0 {
        None
    } else if entries.last().pr == pr {
        Some(entries.last())
    } else {
        entry_for(entries.drop_last(), pr)
    }
}

fn flatten(chains: &Vec<GitHubStackTopology>) -> (r: Vec<GitHubStackEntryGeneration>)
    ensures
        r.deep_view() == all_entries(chains.deep_view()),
{
    let ghost all = chains.deep_view();
    let mut out: Vec<GitHubStackEntryGeneration> = Vec::new();
    let mut i: usize = 0;
    assert(out.deep_view() =~= all_entries(all.take(0)));
    while i < chains.len()
        invariant
            all == chains.deep_view(),
            i <= chains.len(),
            out.deep_view() == all_entries(all.take(i as int)),
        decreases chains.len() - i,
    {
        assert(all.take(i as int + 1).drop_last() =~= all.take(i as int));
        assert(all[i as int] == chains[i as int].deep_view());
        append_items(&mut out, chains[i].entries.dup());
        i = i + 1;
    }
    assert(all.take(i as int) =~= all);
    out
}

fn provider_replacement_chains(plan: &GitHubStackReshapePlan) -> (r: Vec<GitHubStackTopology>)
    ensures
        r.deep_view() == stackable(plan.deep_view().replacement_chains),
{
    let chains = &plan.replacement_chains;
    let ghost all = chains.deep_view();
    let mut out: Vec<GitHubStackTopology> = Vec::new();
    let mut i: usize = 0;
    assert(out.deep_view() =~= stackable(all.take(0)));
    while i < chains.len()
        invariant
            all == chains.deep_view(),
            i <= chains.len(),
            out.deep_view() == stackable(all.take(i as int)),
        decreases chains.len() - i,
    {
        assert(all.take(i as int + 1).drop_last() =~= all.take(i as int));
        assert(all[i as int] == chains[i as int].deep_view());
        if chains[i].entries.len() >= 2 {
            push_item(&mut out, chains[i].dup());
        }
        i = i + 1;
    }
    assert(all.take(i as int) =~= all);
    out
}

fn leave_out(entries: &Vec<GitHubStackEntryGeneration>, pr: PrNumber) -> (r: Vec<
    GitHubStackEntryGeneration,
>)
    ensures
        r.deep_view() == without(entries.deep_view(), pr),
{
    let ghost all = entries.deep_view();
    let mut out: Vec<GitHubStackEntryGeneration> = Vec::new();
    let mut i: usize = 0;
    assert(out.deep_view() =~= without(all.take(0), pr));
    while i < entries.len()
        invariant
            all == entries.deep_view(),
            i <= entries.len(),
            out.deep_view() == without(all.take(i as int), pr),
        decreases entries.len() - i,
    {
        assert(all.take(i as int + 1).drop_last() =~= all.take(i as int));
        assert(all[i as int] == entries[i as int].deep_view());
        if !entries[i].pr.same(&pr) {
            push_item(&mut out, entries[i].dup());
        }
        i = i + 1;
    }
    assert(all.take(i as int) =~= all);
    out
}

fn find_place(entries: &Vec<GitHubStackEntryGeneration>, pr: PrNumber) -> (r: Option<usize>)
    ensures
        match r {
            Some(at) => place_of(entries.deep_view(), pr) == Some(at as nat),
            None => place_of(entries.deep_view(), pr) is None,
        },
{
    let ghost all = entries.deep_view();
    let mut found: Option<usize> = None;
    let mut i: usize = 0;
    while i < entries.len()
        invariant
            all == entries.deep_view(),
            i <= entries.len(),
            match found {
                Some(at) => place_of(all.take(i as int), pr) == Some(at as nat),
                None => place_of(all.take(i as int), pr) is None,
            },
        decreases entries.len() - i,
    {
        assert(all.take(i as int + 1).drop_last() =~= all.take(i as int));
        assert(all[i as int] == entries[i as int].deep_view());
        if found.is_none() && entries[i].pr.same(&pr) {
            found = Some(i);
        }
        i = i + 1;
    }
    assert(all.take(i as int) =~= all);
    found
}

fn find_entry<'a>(entries: &'a Vec<GitHubStackEntryGeneration>, pr: PrNumber) -> (r: Option<
    &'a GitHubStackEntryGeneration,
>)
    ensures
        match r {
            Some(entry) => entry_for(entries.deep_view(), pr) == Some(entry.deep_view()),
            None => entry_for(entries.deep_view(), pr) is None,
        },
{
    let ghost all = entries.deep_view();
    let mut i: usize = entries.len();
    assert(all.take(i as int) =~= all);
    while i > 0
        invariant
            all == entries.deep_view(),
            i <= entries.len(),
            entry_for(all, pr) == entry_for(all.take(i as int), pr),
        decreases i,
    {
        assert(all.take(i as int).drop_last() =~= all.take(i - 1));
        assert(all.take(i as int).last() == entries[i - 1].deep_view());
        if entries[i - 1].pr.same(&pr) {
            return Some(&entries[i - 1]);
        }
        i = i - 1;
    }
    None
}

// ---------------------------------------------------------------------------
// Postconditions
// ---------------------------------------------------------------------------

/// A set of one label.
pub open spec fn one_label(label: Seq<char>) -> Seq<Seq<char>> {
    model::label_insert(Seq::empty(), label)
}

/// The labels that a pull request must have.
pub open spec fn labels_required(evicted: bool) -> Seq<Seq<char>> {
    if evicted {
        one_label(EVICTED_LABEL@)
    } else {
        one_label(ACTIVE_LABEL@)
    }
}

/// The labels that a pull request must not have.
pub open spec fn labels_forbidden(evicted: bool) -> Seq<Seq<char>> {
    if evicted {
        model::label_insert(one_label(ACTIVE_LABEL@), FORCE_LABEL@)
    } else {
        one_label(EVICTED_LABEL@)
    }
}

/// Whether an entry is the one that is evicted.
pub open spec fn is_evicted(
    operation: GitHubStackReshapeOperation,
    selected: PrNumber,
    entry: GitHubStackEntryGenerationView,
) -> bool {
    operation == GitHubStackReshapeOperation::Evict && entry.pr == selected
}

/// What must be left of one pull request: the evicted one where it is, every
/// other where its chain puts it.
pub open spec fn postcondition_of(
    operation: GitHubStackReshapeOperation,
    selected: PrNumber,
    replacements: Seq<GitHubStackEntryGenerationView>,
    original: GitHubStackEntryGenerationView,
) -> Result<GitHubStackReshapePrPostconditionView, GitHubStackReshapeErrorView> {
    let evicted = is_evicted(operation, selected, original);
    let generation = if evicted {
        Some(original)
    } else {
        entry_for(replacements, original.pr)
    };
    match generation {
        None => Err(
            refused(
                "github_stack_reshape_member_missing"@,
                "a non-evicted member is absent from replacement chains"@,
            ),
        ),
        Some(entry) => Ok(
            GitHubStackReshapePrPostconditionView {
                pr: original.pr,
                head: entry.head,
                base: entry.base,
                required_labels: labels_required(evicted),
                forbidden_labels: labels_forbidden(evicted),
                auto_merge_enabled: false,
            },
        ),
    }
}

/// What must be left of every pull request of a Stack.
pub open spec fn derived(
    operation: GitHubStackReshapeOperation,
    selected: PrNumber,
    replacements: Seq<GitHubStackEntryGenerationView>,
    entries: Seq<GitHubStackEntryGenerationView>,
) -> Result<Seq<GitHubStackReshapePrPostconditionView>, GitHubStackReshapeErrorView>
    decreases entries.len(),
{
    if entries.len() == 0 {
        Ok(Seq::empty())
    } else {
        match derived(operation, selected, replacements, entries.drop_last()) {
            Err(error) => Err(error),
            Ok(list) => match postcondition_of(operation, selected, replacements, entries.last()) {
                Err(error) => Err(error),
                Ok(row) => Ok(list.push(row)),
            },
        }
    }
}

fn derive_one(
    operation: GitHubStackReshapeOperation,
    selected: PrNumber,
    replacements: &Vec<GitHubStackEntryGeneration>,
    original: &GitHubStackEntryGeneration,
) -> (r: Result<GitHubStackReshapePrPostcondition, GitHubStackReshapeError>)
    ensures
        reshape_view(r) == postcondition_of(
            operation,
            selected,
            replacements.deep_view(),
            original.deep_view(),
        ),
{
    let evicted = operation.same(
        &GitHubStackReshapeOperation::Evict,
    ) && original.pr.same(&selected);
    let generation = if evicted {
        original
    } else {
        match find_entry(replacements, original.pr) {
            Some(entry) => entry,
            None => {
                return Err(
                    invalid_plan(
                        "github_stack_reshape_member_missing",
                        "a non-evicted member is absent from replacement chains",
                    ),
                );
            },
        }
    };
    let required_labels = if evicted {
        LabelSet::new().with(EVICTED_LABEL)
    } else {
        LabelSet::new().with(ACTIVE_LABEL)
    };
    let forbidden_labels = if evicted {
        LabelSet::new().with(ACTIVE_LABEL).with(FORCE_LABEL)
    } else {
        LabelSet::new().with(EVICTED_LABEL)
    };
    Ok(
        GitHubStackReshapePrPostcondition {
            pr: original.pr,
            head: generation.head.dup(),
            base: generation.base.dup(),
            required_labels,
            forbidden_labels,
            auto_merge_enabled: false,
        },
    )
}

/// What must be left of every pull request of a Stack.
pub fn derive_postconditions(
    operation: GitHubStackReshapeOperation,
    selected_pr: PrNumber,
    before: &GitHubStackGeneration,
    replacement_chains: &Vec<GitHubStackTopology>,
) -> (r: Result<Vec<GitHubStackReshapePrPostcondition>, GitHubStackReshapeError>)
    ensures
        reshape_view(r) == derived(
            operation,
            selected_pr,
            all_entries(replacement_chains.deep_view()),
            before.deep_view().topology.entries,
        ),
{
    let replacements = flatten(replacement_chains);
    let entries = &before.topology.entries;
    let ghost all = entries.deep_view();
    let ghost known = replacements.deep_view();
    let mut out: Vec<GitHubStackReshapePrPostcondition> = Vec::new();
    let mut i: usize = 0;
    assert(all.take(0) =~= Seq::<GitHubStackEntryGenerationView>::empty());
    assert(out.deep_view() =~= Seq::<GitHubStackReshapePrPostconditionView>::empty());
    while i < entries.len()
        invariant
            all == entries.deep_view(),
            all == before.deep_view().topology.entries,
            known == replacements.deep_view(),
            known == all_entries(replacement_chains.deep_view()),
            i <= entries.len(),
            derived(operation, selected_pr, known, all.take(i as int)) == Ok::<
                _,
                GitHubStackReshapeErrorView,
            >(out.deep_view()),
        decreases entries.len() - i,
    {
        assert(all.take(i as int + 1).drop_last() =~= all.take(i as int));
        assert(all[i as int] == entries[i as int].deep_view());
        match derive_one(operation, selected_pr, &replacements, &entries[i]) {
            Err(error) => {
                proof {
                    lemma_derived_stops(operation, selected_pr, known, all, i as int + 1);
                }
                return Err(error);
            },
            Ok(row) => {
                push_item(&mut out, row);
            },
        }
        i = i + 1;
    }
    assert(all.take(i as int) =~= all);
    Ok(out)
}

proof fn lemma_derived_stops(
    operation: GitHubStackReshapeOperation,
    selected: PrNumber,
    replacements: Seq<GitHubStackEntryGenerationView>,
    entries: Seq<GitHubStackEntryGenerationView>,
    k: int,
)
    requires
        0 <= k <= entries.len(),
        derived(operation, selected, replacements, entries.take(k)) is Err,
    ensures
        derived(operation, selected, replacements, entries) == derived(
            operation,
            selected,
            replacements,
            entries.take(k),
        ),
    decreases entries.len(),
{
    if k < entries.len() {
        assert(entries.drop_last().take(k) =~= entries.take(k));
        lemma_derived_stops(operation, selected, replacements, entries.drop_last(), k);
    } else {
        assert(entries.take(k) =~= entries);
    }
}

// ---------------------------------------------------------------------------
// Plans
// ---------------------------------------------------------------------------

/// The pull request whose base may be stale: a tail that is evicted, since that
/// removes the stale edge.
pub open spec fn stale_tail(plan: GitHubStackReshapePlanView) -> Option<PrNumber> {
    let entries = plan.before.topology.entries;
    if plan.operation == GitHubStackReshapeOperation::Evict && entries.len() > 0
        && entries.last().pr == plan.selected_pr {
        Some(plan.selected_pr)
    } else {
        None
    }
}

fn stale_tail_base_exception(plan: &GitHubStackReshapePlan) -> (r: Option<PrNumber>)
    ensures
        r == stale_tail(plan.deep_view()),
{
    let entries = &plan.before.topology.entries;
    let count = entries.len();
    if count == 0 {
        return None;
    }
    assert(entries.deep_view().last() == entries[count - 1].deep_view());
    if plan.operation.same(&GitHubStackReshapeOperation::Evict) && entries[count - 1].pr.same(
        &plan.selected_pr,
    ) {
        Some(plan.selected_pr)
    } else {
        None
    }
}

/// Why a chain cannot replace a part of a Stack.
pub open spec fn chain_refusal(
    plan: GitHubStackReshapePlanView,
    chain: GitHubStackTopologyView,
) -> Option<GitHubStackReshapeErrorView> {
    match stack::topology_refusal(plan.repository, chain, 1) {
        Some(error) => Some(of_plan(error)),
        None => match stack::open_refusal(chain.entries, 0) {
            Some(error) => Some(of_plan(error)),
            None => if chain.base != plan.before.topology.base {
                Some(
                    refused(
                        "github_stack_reshape_base_changed"@,
                        "every replacement chain must retain the exact Stack base generation"@,
                    ),
                )
            } else {
                None
            },
        },
    }
}

/// The refusal of the first chain that cannot replace a part of a Stack.
pub open spec fn chains_refusal(
    plan: GitHubStackReshapePlanView,
    chains: Seq<GitHubStackTopologyView>,
) -> Option<GitHubStackReshapeErrorView>
    decreases chains.len(),
{
    if chains.len() == 0 {
        None
    } else {
        match chains_refusal(plan, chains.drop_last()) {
            Some(error) => Some(error),
            None => chain_refusal(plan, chains.last()),
        }
    }
}

/// The members that must be left: all, or all but the evicted one.
pub open spec fn members(plan: GitHubStackReshapePlanView) -> Seq<GitHubStackEntryGenerationView> {
    match plan.operation {
        GitHubStackReshapeOperation::Evict => without(
            plan.before.topology.entries,
            plan.selected_pr,
        ),
        GitHubStackReshapeOperation::Split => plan.before.topology.entries,
    }
}

/// Why the chains do not part the Stack as the operation calls for.
pub open spec fn partition_refusal(
    plan: GitHubStackReshapePlanView,
    at: nat,
) -> Option<GitHubStackReshapeErrorView> {
    let chains = plan.replacement_chains;
    match plan.operation {
        GitHubStackReshapeOperation::Evict => if chains.len() > if plan.before.topology.entries.len()
            > 1 {
            1nat
        } else {
            0nat
        } {
            Some(
                refused(
                    "github_stack_reshape_evict_partition_invalid"@,
                    "eviction produces zero or one surviving chain"@,
                ),
            )
        } else {
            None
        },
        GitHubStackReshapeOperation::Split => if at == 0 || chains.len() != 2 {
            Some(
                refused(
                    "github_stack_reshape_split_partition_invalid"@,
                    "split requires a non-head selected PR and exactly two replacement chains"@,
                ),
            )
        } else if chains[0].entries.len() != at || chains[1].entries.len() == 0
            || chains[1].entries[0].pr != plan.selected_pr {
            Some(
                refused(
                    "github_stack_reshape_split_boundary_invalid"@,
                    "replacement chains do not split immediately before the selected PR"@,
                ),
            )
        } else {
            None
        },
    }
}

/// Whether an entry is the same generation of a pull request, wherever it
/// stands.
pub open spec fn kept(
    desired: GitHubStackEntryGenerationView,
    original: GitHubStackEntryGenerationView,
) -> bool {
    desired.pr == original.pr && desired.head == original.head && desired.pull_request_state
        == original.pull_request_state && desired.draft == original.draft && desired.merged_at
        == original.merged_at
}

/// Whether entries are the same generations in the same order.
pub open spec fn all_kept(
    desired: Seq<GitHubStackEntryGenerationView>,
    original: Seq<GitHubStackEntryGenerationView>,
) -> bool {
    forall|i: int| 0 <= i < desired.len() ==> kept(#[trigger] desired[i], original[i])
}

/// Why the chains do not hold exactly the members that must be left.
pub open spec fn members_refusal(plan: GitHubStackReshapePlanView) -> Option<
    GitHubStackReshapeErrorView,
> {
    let desired = all_entries(plan.replacement_chains);
    if desired.len() != members(plan).len() {
        Some(
            refused(
                "github_stack_reshape_member_set_invalid"@,
                "replacement chains do not contain the complete expected member set"@,
            ),
        )
    } else if !all_kept(desired, members(plan)) {
        Some(
            refused(
                "github_stack_reshape_generation_changed"@,
                "replacement chains must preserve every surviving exact PR/head generation"@,
            ),
        )
    } else {
        None
    }
}

/// Why the postconditions are not those of the reshape.
pub open spec fn postconditions_refusal(plan: GitHubStackReshapePlanView) -> Option<
    GitHubStackReshapeErrorView,
> {
    match derived(
        plan.operation,
        plan.selected_pr,
        all_entries(plan.replacement_chains),
        plan.before.topology.entries,
    ) {
        Err(error) => Some(error),
        Ok(list) => if plan.pr_postconditions != list {
            Some(
                refused(
                    "github_stack_reshape_postconditions_invalid"@,
                    "PR postconditions do not exactly match the existing Cara reshape contract"@,
                ),
            )
        } else {
            None
        },
    }
}

/// Why the Stack of a plan cannot be reshaped.
pub open spec fn before_refusal(plan: GitHubStackReshapePlanView) -> Option<
    GitHubStackReshapeErrorView,
> {
    if plan.schema_version != RESHAPE_SCHEMA_VERSION {
        Some(
            refused(
                "github_stack_reshape_schema_invalid"@,
                "unsupported Stack reshape plan schema"@,
            ),
        )
    } else if !plan.before.open || plan.before.number == 0 || plan.before.id == 0 {
        Some(
            refused(
                "github_stack_reshape_generation_invalid"@,
                "reshape requires one open identified provider Stack"@,
            ),
        )
    } else {
        match stack::topology_refusal(
            plan.repository,
            stack::settled(plan.before.topology, stale_tail(plan)),
            2,
        ) {
            Some(error) => Some(of_plan(error)),
            None => match stack::open_refusal(plan.before.topology.entries, 0) {
                Some(error) => Some(of_plan(error)),
                None => if plan.replacement_chains.len() > MAX_REPLACEMENT_CHAINS {
                    Some(
                        refused(
                            "github_stack_reshape_too_many_chains"@,
                            "evict/split replacement is bounded to at most two chains"@,
                        ),
                    )
                } else {
                    None
                },
            },
        }
    }
}

/// Why the chains of a plan cannot replace its Stack.
pub open spec fn replacement_refusal(plan: GitHubStackReshapePlanView) -> Option<
    GitHubStackReshapeErrorView,
> {
    match chains_refusal(plan, plan.replacement_chains) {
        Some(error) => Some(error),
        None => match place_of(plan.before.topology.entries, plan.selected_pr) {
            None => Some(
                refused(
                    "github_stack_reshape_selected_missing"@,
                    "selected PR is not in the exact provider Stack generation"@,
                ),
            ),
            Some(at) => match partition_refusal(plan, at) {
                Some(error) => Some(error),
                None => match members_refusal(plan) {
                    Some(error) => Some(error),
                    None => postconditions_refusal(plan),
                },
            },
        },
    }
}

/// Why a reshape is refused.
pub open spec fn plan_refusal(plan: GitHubStackReshapePlanView) -> Option<
    GitHubStackReshapeErrorView,
> {
    match stack::identity_refusal(plan.operation_id, plan.actor) {
        Some(error) => Some(of_plan(error)),
        None => match before_refusal(plan) {
            Some(error) => Some(error),
            None => replacement_refusal(plan),
        },
    }
}

fn refuse_chain(plan: &GitHubStackReshapePlan, chain: &GitHubStackTopology) -> (r: Option<
    GitHubStackReshapeError,
>)
    ensures
        refusal_view(r) == chain_refusal(plan.deep_view(), chain.deep_view()),
{
    match validate_topology(&plan.repository, chain, 1) {
        Err(error) => {
            return Some(map_plan_error(error));
        },
        Ok(_) => {},
    }
    match validate_open_entries(chain, 0) {
        Err(error) => {
            return Some(map_plan_error(error));
        },
        Ok(_) => {},
    }
    if !chain.base.same(&plan.before.topology.base) {
        return Some(
            invalid_plan(
                "github_stack_reshape_base_changed",
                "every replacement chain must retain the exact Stack base generation",
            ),
        );
    }
    None
}

fn refuse_chains(plan: &GitHubStackReshapePlan, to: usize) -> (r: Option<GitHubStackReshapeError>)
    requires
        to <= plan.replacement_chains.len(),
    ensures
        refusal_view(r) == chains_refusal(
            plan.deep_view(),
            plan.deep_view().replacement_chains.take(to as int),
        ),
    decreases to,
{
    if to == 0 {
        return None;
    }
    let ghost all = plan.replacement_chains.deep_view();
    assert(all.take(to as int).drop_last() =~= all.take(to - 1));
    match refuse_chains(plan, to - 1) {
        Some(error) => Some(error),
        None => {
            assert(all.take(to as int).last() == plan.replacement_chains[to - 1].deep_view());
            refuse_chain(plan, &plan.replacement_chains[to - 1])
        },
    }
}

fn refuse_partition(plan: &GitHubStackReshapePlan, at: usize) -> (r: Option<
    GitHubStackReshapeError,
>)
    ensures
        refusal_view(r) == partition_refusal(plan.deep_view(), at as nat),
{
    let chains = &plan.replacement_chains;
    match plan.operation {
        GitHubStackReshapeOperation::Evict => {
            let most: usize = if plan.before.topology.entries.len() > 1 {
                1
            } else {
                0
            };
            if chains.len() > most {
                Some(
                    invalid_plan(
                        "github_stack_reshape_evict_partition_invalid",
                        "eviction produces zero or one surviving chain",
                    ),
                )
            } else {
                None
            }
        },
        GitHubStackReshapeOperation::Split => {
            if at == 0 || chains.len() != 2 {
                return Some(
                    invalid_plan(
                        "github_stack_reshape_split_partition_invalid",
                        "split requires a non-head selected PR and exactly two replacement chains",
                    ),
                );
            }
            assert(chains.deep_view()[0] == chains[0].deep_view());
            assert(chains.deep_view()[1] == chains[1].deep_view());
            if chains[1].entries.len() > 0 {
                assert(chains[1].entries.deep_view()[0] == chains[1].entries[0].deep_view());
            }
            if chains[0].entries.len() != at || chains[1].entries.len() == 0
                || !chains[1].entries[0].pr.same(&plan.selected_pr) {
                return Some(
                    invalid_plan(
                        "github_stack_reshape_split_boundary_invalid",
                        "replacement chains do not split immediately before the selected PR",
                    ),
                );
            }
            None
        },
    }
}

fn keeps_all(
    desired: &Vec<GitHubStackEntryGeneration>,
    original: &Vec<GitHubStackEntryGeneration>,
) -> (r: bool)
    requires
        desired.len() == original.len(),
    ensures
        r == all_kept(desired.deep_view(), original.deep_view()),
{
    let ghost all = desired.deep_view();
    let ghost known = original.deep_view();
    let mut i: usize = 0;
    while i < desired.len()
        invariant
            desired.len() == original.len(),
            all == desired.deep_view(),
            known == original.deep_view(),
            i <= desired.len(),
            forall|j: int| 0 <= j < i ==> kept(#[trigger] all[j], known[j]),
        decreases desired.len() - i,
    {
        assert(all[i as int] == desired[i as int].deep_view());
        assert(known[i as int] == original[i as int].deep_view());
        if !desired[i].pr.same(&original[i].pr) || !desired[i].head.same(&original[i].head)
            || !desired[i].pull_request_state.same(&original[i].pull_request_state)
            || desired[i].draft != original[i].draft || !desired[i].merged_at.same(
            &original[i].merged_at,
        ) {
            return false;
        }
        i = i + 1;
    }
    true
}

fn refuse_members(plan: &GitHubStackReshapePlan) -> (r: Option<GitHubStackReshapeError>)
    ensures
        refusal_view(r) == members_refusal(plan.deep_view()),
{
    let desired = flatten(&plan.replacement_chains);
    let expected = match plan.operation {
        GitHubStackReshapeOperation::Evict => leave_out(
            &plan.before.topology.entries,
            plan.selected_pr,
        ),
        GitHubStackReshapeOperation::Split => plan.before.topology.entries.dup(),
    };
    assert(desired.deep_view().len() == desired.len());
    assert(expected.deep_view().len() == expected.len());
    if desired.len() != expected.len() {
        return Some(
            invalid_plan(
                "github_stack_reshape_member_set_invalid",
                "replacement chains do not contain the complete expected member set",
            ),
        );
    }
    if !keeps_all(&desired, &expected) {
        return Some(
            invalid_plan(
                "github_stack_reshape_generation_changed",
                "replacement chains must preserve every surviving exact PR/head generation",
            ),
        );
    }
    None
}

fn refuse_postconditions(plan: &GitHubStackReshapePlan) -> (r: Option<GitHubStackReshapeError>)
    ensures
        refusal_view(r) == postconditions_refusal(plan.deep_view()),
{
    match derive_postconditions(
        plan.operation,
        plan.selected_pr,
        &plan.before,
        &plan.replacement_chains,
    ) {
        Err(error) => Some(error),
        Ok(list) => if !plan.pr_postconditions.same(&list) {
            Some(
                invalid_plan(
                    "github_stack_reshape_postconditions_invalid",
                    "PR postconditions do not exactly match the existing Cara reshape contract",
                ),
            )
        } else {
            None
        },
    }
}

fn refuse_before(plan: &GitHubStackReshapePlan) -> (r: Option<GitHubStackReshapeError>)
    ensures
        refusal_view(r) == before_refusal(plan.deep_view()),
{
    if plan.schema_version != RESHAPE_SCHEMA_VERSION {
        return Some(
            invalid_plan(
                "github_stack_reshape_schema_invalid",
                "unsupported Stack reshape plan schema",
            ),
        );
    }
    if !plan.before.open || plan.before.number == 0 || plan.before.id == 0 {
        return Some(
            invalid_plan(
                "github_stack_reshape_generation_invalid",
                "reshape requires one open identified provider Stack",
            ),
        );
    }
    match validate_topology_allowing_stale_tail_base(
        &plan.repository,
        &plan.before.topology,
        2,
        stale_tail_base_exception(plan),
    ) {
        Err(error) => {
            return Some(map_plan_error(error));
        },
        Ok(_) => {},
    }
    match validate_open_entries(&plan.before.topology, 0) {
        Err(error) => {
            return Some(map_plan_error(error));
        },
        Ok(_) => {},
    }
    if plan.replacement_chains.len() > MAX_REPLACEMENT_CHAINS {
        return Some(
            invalid_plan(
                "github_stack_reshape_too_many_chains",
                "evict/split replacement is bounded to at most two chains",
            ),
        );
    }
    None
}

/// Whether a reshape can be asked for.
pub fn validate_plan_semantics(plan: &GitHubStackReshapePlan) -> (r: Result<
    (),
    GitHubStackReshapeError,
>)
    ensures
        reshape_view(r) == unless(plan_refusal(plan.deep_view())),
{
    match validate_operation_identity(plan.operation_id.as_str(), plan.actor.as_str()) {
        Err(error) => {
            return Err(map_plan_error(error));
        },
        Ok(_) => {},
    }
    match refuse_before(plan) {
        Some(error) => {
            return Err(error);
        },
        None => {},
    }
    let count = plan.replacement_chains.len();
    assert(plan.replacement_chains.deep_view().take(count as int)
        =~= plan.replacement_chains.deep_view());
    match refuse_chains(plan, count) {
        Some(error) => {
            return Err(error);
        },
        None => {},
    }
    let at = match find_place(&plan.before.topology.entries, plan.selected_pr) {
        Some(at) => at,
        None => {
            return Err(
                invalid_plan(
                    "github_stack_reshape_selected_missing",
                    "selected PR is not in the exact provider Stack generation",
                ),
            );
        },
    };
    match refuse_partition(plan, at) {
        Some(error) => {
            return Err(error);
        },
        None => {},
    }
    match refuse_members(plan) {
        Some(error) => {
            return Err(error);
        },
        None => {},
    }
    match refuse_postconditions(plan) {
        Some(error) => Err(error),
        None => Ok(()),
    }
}

impl GitHubStackReshapePlanView {
    /// Whether the plan is complete, sealed and accepted.
    pub open spec fn valid(self) -> bool {
        self.schema_version == RESHAPE_SCHEMA_VERSION && self.plan_hash.len() > 0 && self.intact()
            && plan_refusal(self) is None
    }
}

/// A plan from its parts.
pub open spec fn planned(
    repository: RepositoryIdView,
    operation_id: Seq<char>,
    actor: Seq<char>,
    operation: GitHubStackReshapeOperation,
    selected_pr: PrNumber,
    before: GitHubStackGenerationView,
    replacement_chains: Seq<GitHubStackTopologyView>,
) -> Result<GitHubStackReshapePlanView, GitHubStackReshapeErrorView> {
    match derived(
        operation,
        selected_pr,
        all_entries(replacement_chains),
        before.topology.entries,
    ) {
        Err(error) => Err(error),
        Ok(pr_postconditions) => {
            let plan = GitHubStackReshapePlanView {
                schema_version: RESHAPE_SCHEMA_VERSION,
                repository,
                operation_id,
                actor,
                operation,
                selected_pr,
                before,
                replacement_chains,
                pr_postconditions,
                plan_hash: Seq::empty(),
            };
            match plan_refusal(plan) {
                Some(error) => Err(error),
                None => Ok(plan.sealed()),
            }
        },
    }
}

impl GitHubStackReshapePlan {
    /// A complete sealed plan. Nothing is read from the provider.
    pub fn new(
        repository: RepositoryId,
        operation_id: &str,
        actor: &str,
        operation: GitHubStackReshapeOperation,
        selected_pr: PrNumber,
        before: GitHubStackGeneration,
        replacement_chains: Vec<GitHubStackTopology>,
    ) -> (r: Result<Self, GitHubStackReshapeError>)
        ensures
            reshape_view(r) == planned(
                repository.deep_view(),
                operation_id@,
                actor@,
                operation,
                selected_pr,
                before.deep_view(),
                replacement_chains.deep_view(),
            ),
    {
        let pr_postconditions = match derive_postconditions(
            operation,
            selected_pr,
            &before,
            &replacement_chains,
        ) {
            Err(error) => {
                return Err(error);
            },
            Ok(list) => list,
        };
        let plan = GitHubStackReshapePlan {
            schema_version: RESHAPE_SCHEMA_VERSION,
            repository,
            operation_id: operation_id.to_owned(),
            actor: actor.to_owned(),
            operation,
            selected_pr,
            before,
            replacement_chains,
            pr_postconditions,
            plan_hash: String::new(),
        };
        assert(plan.deep_view().plan_hash =~= Seq::empty());
        match validate_plan_semantics(&plan) {
            Err(error) => Err(error),
            Ok(_) => Ok(plan.seal()),
        }
    }

    /// Whether the plan is complete, sealed and accepted.
    pub fn verify(&self) -> (r: bool)
        ensures
            r == self.deep_view().valid(),
    {
        self.schema_version == RESHAPE_SCHEMA_VERSION && !self.plan_hash.as_str().is_empty()
            && self.hash_holds() && validate_plan_semantics(self).is_ok()
    }
}

fn validate_plan(repository: &RepositoryId, plan: &GitHubStackReshapePlan) -> (r: Result<
    (),
    GitHubStackReshapeError,
>)
    ensures
        reshape_view(r) == if plan.deep_view().repository == repository.deep_view()
            && plan.deep_view().valid() {
            Ok(())
        } else {
            Err(plan_invalid())
        },
{
    if !plan.repository.same(repository) || !plan.verify() {
        return Err(
            invalid_plan(
                "github_stack_reshape_plan_invalid",
                "reshape plan repository, schema, semantics, or hash is invalid",
            ),
        );
    }
    Ok(())
}

/// The refusal of a plan that is not valid.
pub open spec fn plan_invalid() -> GitHubStackReshapeErrorView {
    refused(
        "github_stack_reshape_plan_invalid"@,
        "reshape plan repository, schema, semantics, or hash is invalid"@,
    )
}

// ---------------------------------------------------------------------------
// Checkpoints
// ---------------------------------------------------------------------------

/// The identity of taking the Stack of a plan apart.
pub open spec fn unstack_id(plan: GitHubStackReshapePlanView) -> Seq<char> {
    plan.operation_id + ":unstack"@
}

fn unstack_operation_id(plan: &GitHubStackReshapePlan) -> (r: String)
    ensures
        r@ == unstack_id(plan.deep_view()),
{
    plan.operation_id.dup().concat(":unstack")
}

/// The identity of creating one Stack of a plan.
pub open spec fn replacement_id(plan: GitHubStackReshapePlanView, index: nat) -> Seq<char> {
    plan.operation_id + ":replacement:"@ + text::decimal(index)
}

fn replacement_operation_id(plan: &GitHubStackReshapePlan, index: usize) -> (r: String)
    ensures
        r@ == replacement_id(plan.deep_view(), index as nat),
{
    plan.operation_id.dup().concat(":replacement:").concat(decimal_text(index as u64).as_str())
}

/// Why the receipt of a reshape is not that of the plan.
pub open spec fn existing_refusal(
    plan: GitHubStackReshapePlanView,
    receipt: OperationReceiptView,
) -> Option<GitHubStackReshapeErrorView> {
    if receipt.operation != plan.operation.word() || text::is_blank(receipt.operation_id) {
        Some(
            bad_reshape(
                "existing Cara receipt does not match the planned evict/split operation"@,
            ),
        )
    } else {
        None
    }
}

fn validate_existing_receipt(
    plan: &GitHubStackReshapePlan,
    receipt: &OperationReceipt,
) -> (r: Result<
    (),
    GitHubStackReshapeError,
>)
    ensures
        reshape_view(r) == unless(existing_refusal(plan.deep_view(), receipt.deep_view())),
{
    if !text_eq(receipt.operation.as_str(), plan.operation.as_word()) || blank(
        receipt.operation_id.0.as_str(),
    ) {
        return Err(
            invalid_checkpoint(
                "existing Cara receipt does not match the planned evict/split operation",
            ),
        );
    }
    Ok(())
}

/// Whether a receipt proves that the Stack of a plan is gone.
pub open spec fn unstack_exact(
    repository: RepositoryIdView,
    plan: GitHubStackReshapePlanView,
    receipt: GitHubStackMutationReceiptView,
) -> bool {
    receipt.intact() && receipt.repository == repository && receipt.operation
        == GitHubStackMutationOperation::Unstack && receipt.operation_id == unstack_id(plan)
        && receipt.after is None
}

fn is_unstack_exact(
    repository: &RepositoryId,
    plan: &GitHubStackReshapePlan,
    receipt: &GitHubStackMutationReceipt,
) -> (r: bool)
    ensures
        r == unstack_exact(repository.deep_view(), plan.deep_view(), receipt.deep_view()),
{
    receipt.verify() && receipt.repository.same(repository) && receipt.operation.same(
        &GitHubStackMutationOperation::Unstack,
    ) && text_eq(receipt.operation_id.as_str(), unstack_operation_id(plan).as_str())
        && receipt.after.is_none()
}

/// Whether a receipt proves that a chain of a plan is a Stack.
pub open spec fn create_exact(
    repository: RepositoryIdView,
    plan: GitHubStackReshapePlanView,
    index: nat,
    chain: GitHubStackTopologyView,
    receipt: GitHubStackMutationReceiptView,
) -> bool {
    receipt.intact() && receipt.repository == repository && receipt.operation
        == GitHubStackMutationOperation::Create && receipt.operation_id == replacement_id(
        plan,
        index,
    ) && receipt.after is Some && receipt.after->0.topology == chain
}

/// Whether receipts prove that the first chains of a plan are Stacks.
pub open spec fn all_created(
    repository: RepositoryIdView,
    plan: GitHubStackReshapePlanView,
    chains: Seq<GitHubStackTopologyView>,
    receipts: Seq<GitHubStackMutationReceiptView>,
) -> bool {
    forall|i: int|
        0 <= i < receipts.len() ==> create_exact(
            repository,
            plan,
            i as nat,
            chains[i],
            #[trigger] receipts[i],
        )
}

fn are_all_created(
    repository: &RepositoryId,
    plan: &GitHubStackReshapePlan,
    chains: &Vec<GitHubStackTopology>,
    receipts: &Vec<GitHubStackMutationReceipt>,
) -> (r: bool)
    requires
        receipts.len() <= chains.len(),
    ensures
        r == all_created(
            repository.deep_view(),
            plan.deep_view(),
            chains.deep_view(),
            receipts.deep_view(),
        ),
{
    let ghost all = receipts.deep_view();
    let mut i: usize = 0;
    while i < receipts.len()
        invariant
            receipts.len() <= chains.len(),
            all == receipts.deep_view(),
            i <= receipts.len(),
            forall|j: int|
                0 <= j < i ==> create_exact(
                    repository.deep_view(),
                    plan.deep_view(),
                    j as nat,
                    chains.deep_view()[j],
                    #[trigger] all[j],
                ),
        decreases receipts.len() - i,
    {
        let receipt = &receipts[i];
        assert(all[i as int] == receipt.deep_view());
        assert(chains.deep_view()[i as int] == chains[i as int].deep_view());
        let placed = match &receipt.after {
            Some(after) => after.topology.same(&chains[i]),
            None => false,
        };
        if !receipt.verify() || !receipt.repository.same(repository) || !receipt.operation.same(
            &GitHubStackMutationOperation::Create,
        ) || !text_eq(
            receipt.operation_id.as_str(),
            replacement_operation_id(plan, i).as_str(),
        ) || !placed {
            assert(!create_exact(
                repository.deep_view(),
                plan.deep_view(),
                i as nat,
                chains.deep_view()[i as int],
                all[i as int],
            ));
            return false;
        }
        i = i + 1;
    }
    true
}

/// The topologies of generations.
pub open spec fn topologies(
    stacks: Seq<GitHubStackGenerationView>,
) -> Seq<GitHubStackTopologyView> {
    Seq::new(stacks.len(), |i: int| stacks[i].topology)
}

fn has_topologies(
    stacks: &Vec<GitHubStackGeneration>,
    chains: &Vec<GitHubStackTopology>,
) -> (r: bool)
    ensures
        r == (topologies(stacks.deep_view()) == chains.deep_view()),
{
    let ghost all = topologies(stacks.deep_view());
    let ghost wanted = chains.deep_view();
    if stacks.len() != chains.len() {
        assert(all.len() != wanted.len());
        return false;
    }
    let mut i: usize = 0;
    while i < stacks.len()
        invariant
            stacks.len() == chains.len(),
            all == topologies(stacks.deep_view()),
            wanted == chains.deep_view(),
            i <= stacks.len(),
            forall|j: int| 0 <= j < i ==> #[trigger] all[j] == wanted[j],
        decreases stacks.len() - i,
    {
        assert(all[i as int] == stacks[i as int].topology.deep_view());
        assert(wanted[i as int] == chains[i as int].deep_view());
        if !stacks[i].topology.same(&chains[i]) {
            return false;
        }
        i = i + 1;
    }
    assert(all =~= wanted);
    true
}

/// Whether a checkpoint holds exactly the evidence that its phase calls for.
pub open spec fn fits_phase(
    checkpoint: GitHubStackReshapeCheckpointView,
    chains: Seq<GitHubStackTopologyView>,
) -> bool {
    let unstacked = checkpoint.unstack_receipt is Some;
    let reshaped = checkpoint.reshape_receipt is Some;
    let made = checkpoint.replacement_receipts.len();
    let none_final = checkpoint.final_stacks.len() == 0;
    match checkpoint.phase {
        GitHubStackReshapePhase::Preflighted => !unstacked && !reshaped && made == 0 && none_final,
        GitHubStackReshapePhase::Unstacked => unstacked && !reshaped && made == 0 && none_final,
        GitHubStackReshapePhase::ReshapeApplied => unstacked && reshaped && made == 0 && none_final,
        GitHubStackReshapePhase::Rebuilding => unstacked && reshaped && 0 < made < chains.len()
            && none_final,
        GitHubStackReshapePhase::Rebuilt => unstacked && reshaped && made == chains.len()
            && none_final,
        GitHubStackReshapePhase::Verified => unstacked && reshaped && made == chains.len()
            && topologies(checkpoint.final_stacks) == chains,
    }
}

fn does_fit_phase(
    checkpoint: &GitHubStackReshapeCheckpoint,
    chains: &Vec<GitHubStackTopology>,
) -> (r: bool)
    ensures
        r == fits_phase(checkpoint.deep_view(), chains.deep_view()),
{
    let unstacked = checkpoint.unstack_receipt.is_some();
    let reshaped = checkpoint.reshape_receipt.is_some();
    let made: usize = checkpoint.replacement_receipts.len();
    let none_final = checkpoint.final_stacks.len() == 0;
    match checkpoint.phase {
        GitHubStackReshapePhase::Preflighted => !unstacked && !reshaped && made == 0 && none_final,
        GitHubStackReshapePhase::Unstacked => unstacked && !reshaped && made == 0 && none_final,
        GitHubStackReshapePhase::ReshapeApplied => unstacked && reshaped && made == 0 && none_final,
        GitHubStackReshapePhase::Rebuilding => unstacked && reshaped && made > 0 && made
            < chains.len() && none_final,
        GitHubStackReshapePhase::Rebuilt => unstacked && reshaped && made == chains.len()
            && none_final,
        GitHubStackReshapePhase::Verified => unstacked && reshaped && made == chains.len()
            && has_topologies(&checkpoint.final_stacks, chains),
    }
}

/// Why the evidence of a checkpoint does not hold together.
pub open spec fn shape_refusal(checkpoint: GitHubStackReshapeCheckpointView) -> Option<
    GitHubStackReshapeErrorView,
> {
    let plan = checkpoint.plan;
    let chains = stackable(plan.replacement_chains);
    if checkpoint.replacement_receipts.len() > chains.len() {
        Some(bad_reshape("too many replacement receipts"@))
    } else if checkpoint.unstack_receipt is Some && !unstack_exact(
        checkpoint.repository,
        plan,
        checkpoint.unstack_receipt->0,
    ) {
        Some(bad_reshape("unstack receipt is not exact"@))
    } else if !all_created(
        checkpoint.repository,
        plan,
        chains,
        checkpoint.replacement_receipts,
    ) {
        Some(bad_reshape("replacement create receipt is not exact"@))
    } else if checkpoint.reshape_receipt is Some && existing_refusal(
        plan,
        checkpoint.reshape_receipt->0,
    ) is Some {
        existing_refusal(plan, checkpoint.reshape_receipt->0)
    } else if !fits_phase(checkpoint, chains) {
        Some(bad_reshape("receipts do not match the declared non-atomic phase"@))
    } else {
        None
    }
}

/// Whether the evidence of a checkpoint holds together.
pub fn validate_checkpoint_shape(checkpoint: &GitHubStackReshapeCheckpoint) -> (r: Result<
    (),
    GitHubStackReshapeError,
>)
    ensures
        reshape_view(r) == unless(shape_refusal(checkpoint.deep_view())),
{
    let plan = &checkpoint.plan;
    let chains = provider_replacement_chains(plan);
    assert(chains.deep_view().len() == chains.len());
    if checkpoint.replacement_receipts.len() > chains.len() {
        return Err(invalid_checkpoint("too many replacement receipts"));
    }
    match &checkpoint.unstack_receipt {
        Some(receipt) => {
            if !is_unstack_exact(&checkpoint.repository, plan, receipt) {
                return Err(invalid_checkpoint("unstack receipt is not exact"));
            }
        },
        None => {},
    }
    if !are_all_created(&checkpoint.repository, plan, &chains, &checkpoint.replacement_receipts) {
        return Err(invalid_checkpoint("replacement create receipt is not exact"));
    }
    match &checkpoint.reshape_receipt {
        Some(receipt) => match validate_existing_receipt(plan, receipt) {
            Err(error) => {
                return Err(error);
            },
            Ok(_) => {},
        },
        None => {},
    }
    if !does_fit_phase(checkpoint, &chains) {
        return Err(invalid_checkpoint("receipts do not match the declared non-atomic phase"));
    }
    Ok(())
}

impl GitHubStackReshapePhase {
    /// The place of the phase in the order.
    pub open spec fn rank(self) -> nat {
        match self {
            GitHubStackReshapePhase::Preflighted => 0,
            GitHubStackReshapePhase::Unstacked => 1,
            GitHubStackReshapePhase::ReshapeApplied => 2,
            GitHubStackReshapePhase::Rebuilding => 3,
            GitHubStackReshapePhase::Rebuilt => 4,
            GitHubStackReshapePhase::Verified => 5,
        }
    }
}

impl GitHubStackReshapeCheckpointView {
    /// Whether the checkpoint can be gone on with.
    pub open spec fn valid(self) -> bool {
        self.schema_version == RESHAPE_SCHEMA_VERSION && !self.provider_atomic && self.repository
            == self.plan.repository && self.plan.valid() && self.intact() && shape_refusal(self)
            is None
    }
}

/// The checkpoint of a reshape whose Stack was confirmed.
pub open spec fn preflighted_with(plan: GitHubStackReshapePlanView) ->
    GitHubStackReshapeCheckpointView {
    GitHubStackReshapeCheckpointView {
        schema_version: RESHAPE_SCHEMA_VERSION,
        repository: plan.repository,
        plan,
        phase: GitHubStackReshapePhase::Preflighted,
        provider_atomic: false,
        unstack_receipt: None,
        reshape_receipt: None,
        replacement_receipts: Seq::empty(),
        final_stacks: Seq::empty(),
        evidence_hash: Seq::empty(),
    }.sealed()
}

impl GitHubStackReshapeCheckpoint {
    /// The checkpoint of a reshape whose Stack was confirmed.
    pub fn preflighted(plan: GitHubStackReshapePlan) -> (r: Self)
        ensures
            r.deep_view() == preflighted_with(plan.deep_view()),
    {
        let checkpoint = GitHubStackReshapeCheckpoint {
            schema_version: RESHAPE_SCHEMA_VERSION,
            repository: plan.repository.dup(),
            plan,
            phase: GitHubStackReshapePhase::Preflighted,
            provider_atomic: false,
            unstack_receipt: None,
            reshape_receipt: None,
            replacement_receipts: Vec::new(),
            final_stacks: Vec::new(),
            evidence_hash: String::new(),
        };
        assert(checkpoint.deep_view() =~= (GitHubStackReshapeCheckpointView {
            schema_version: RESHAPE_SCHEMA_VERSION,
            repository: plan.deep_view().repository,
            plan: plan.deep_view(),
            phase: GitHubStackReshapePhase::Preflighted,
            provider_atomic: false,
            unstack_receipt: None,
            reshape_receipt: None,
            replacement_receipts: Seq::empty(),
            final_stacks: Seq::empty(),
            evidence_hash: Seq::empty(),
        }));
        checkpoint.seal()
    }

    /// Whether the checkpoint can be gone on with.
    pub fn verify(&self) -> (r: bool)
        ensures
            r == self.deep_view().valid(),
    {
        self.schema_version == RESHAPE_SCHEMA_VERSION && !self.provider_atomic
            && self.repository.same(&self.plan.repository) && self.plan.verify()
            && self.hash_holds() && validate_checkpoint_shape(self).is_ok()
    }
}

/// Whether a checkpoint can be gone on with in a repository.
pub open spec fn reshape_accepted(
    repository: RepositoryIdView,
    checkpoint: GitHubStackReshapeCheckpointView,
) -> bool {
    checkpoint.repository == repository && checkpoint.valid()
}

/// The refusal of a checkpoint that is not valid.
pub open spec fn checkpoint_invalid() -> GitHubStackReshapeErrorView {
    bad_reshape("schema, repository, plan, phase evidence, or hash is invalid"@)
}

fn validate_checkpoint(
    repository: &RepositoryId,
    checkpoint: &GitHubStackReshapeCheckpoint,
) -> (r: Result<(), GitHubStackReshapeError>)
    ensures
        reshape_view(r) == if reshape_accepted(repository.deep_view(), checkpoint.deep_view()) {
            Ok(())
        } else {
            Err(checkpoint_invalid())
        },
{
    if !checkpoint.repository.same(repository) || !checkpoint.verify() {
        return Err(
            invalid_checkpoint("schema, repository, plan, phase evidence, or hash is invalid"),
        );
    }
    Ok(())
}

// ---------------------------------------------------------------------------
// Fresh pull requests
// ---------------------------------------------------------------------------

/// Whether every label of a set is in another.
pub open spec fn is_within(some: Seq<Seq<char>>, all: Seq<Seq<char>>) -> bool {
    forall|label: Seq<char>| some.contains(label) ==> #[trigger] all.contains(label)
}

/// Whether no label of a set is in another.
pub open spec fn is_apart(some: Seq<Seq<char>>, all: Seq<Seq<char>>) -> bool {
    forall|label: Seq<char>| some.contains(label) ==> !#[trigger] all.contains(label)
}

/// What is not yet as a reshape must leave it.
pub open spec fn changed_pr(
    expected: GitHubStackReshapePrPostconditionView,
    actual: PullRequestSnapshotView,
) -> Seq<Seq<char>> {
    stack::named(actual.state != PullRequestState::Open, "state"@) + stack::named(
        actual.draft,
        "draft"@,
    ) + stack::named(actual.cross_repository, "repository"@) + stack::named(
        actual.head != expected.head,
        "head"@,
    ) + stack::named(actual.base != expected.base, "base"@) + stack::named(
        !is_within(expected.required_labels, actual.labels),
        "required_labels"@,
    ) + stack::named(!is_apart(expected.forbidden_labels, actual.labels), "forbidden_labels"@)
        + stack::named(
        actual.auto_merge.enabled != expected.auto_merge_enabled,
        "auto_merge"@,
    )
}

fn name_if(out: &mut Vec<String>, changed: bool, name: &str)
    ensures
        final(out).deep_view() == old(out).deep_view() + stack::named(changed, name@),
{
    if changed {
        push_item(out, name.to_owned());
    }
    assert(out.deep_view() =~= old(out).deep_view() + stack::named(changed, name@));
}

/// What is not yet as a reshape must leave it.
pub fn changed_pr_fields(
    expected: &GitHubStackReshapePrPostcondition,
    actual: &PullRequestSnapshot,
) -> (r: Vec<String>)
    ensures
        r.deep_view() == changed_pr(expected.deep_view(), actual.deep_view()),
{
    let mut changed: Vec<String> = Vec::new();
    name_if(&mut changed, !actual.state.same(&PullRequestState::Open), "state");
    name_if(&mut changed, actual.draft, "draft");
    name_if(&mut changed, actual.cross_repository, "repository");
    name_if(&mut changed, !actual.head.same(&expected.head), "head");
    name_if(&mut changed, !actual.base.same(&expected.base), "base");
    name_if(
        &mut changed,
        !expected.required_labels.is_subset(&actual.labels),
        "required_labels",
    );
    name_if(
        &mut changed,
        !expected.forbidden_labels.is_disjoint(&actual.labels),
        "forbidden_labels",
    );
    name_if(
        &mut changed,
        actual.auto_merge.enabled != expected.auto_merge_enabled,
        "auto_merge",
    );
    assert(changed.deep_view() =~= changed_pr(expected.deep_view(), actual.deep_view()));
    changed
}

/// The pull requests of postconditions.
pub open spec fn postcondition_prs(
    rows: Seq<GitHubStackReshapePrPostconditionView>,
) -> Seq<PrNumber> {
    Seq::new(rows.len(), |i: int| rows[i].pr)
}

/// Whether one fresh pull request is as a reshape must leave it.
pub open spec fn one_established(
    expected: GitHubStackReshapePrPostconditionView,
    read: Result<PullRequestSnapshotView, MutationErrorView>,
) -> Result<(), GitHubStackReshapeErrorView> {
    match read {
        Err(error) => Err(GitHubStackReshapeErrorView::Provider(error)),
        Ok(actual) => if changed_pr(expected, actual).len() != 0 {
            Err(
                GitHubStackReshapeErrorView::ExistingReshapeIncomplete {
                    pr: expected.pr,
                    changed_fields: changed_pr(expected, actual),
                },
            )
        } else {
            Ok(())
        },
    }
}

/// Whether fresh pull requests are as a reshape must leave them, up to the
/// first that is not.
pub open spec fn established_of(
    rows: Seq<GitHubStackReshapePrPostconditionView>,
    reads: Seq<Result<PullRequestSnapshotView, MutationErrorView>>,
) -> Result<(), GitHubStackReshapeErrorView>
    decreases reads.len(),
{
    if reads.len() == 0 {
        Ok(())
    } else {
        match established_of(rows, reads.drop_last()) {
            Err(error) => Err(error),
            Ok(_) => one_established(rows[reads.len() - 1], reads.last()),
        }
    }
}

/// Confirming that a reshape left every pull request as it must may end so.
pub open spec fn established<R: CommandRunner>(
    runner: R,
    repository: RepositoryIdView,
    rows: Seq<GitHubStackReshapePrPostconditionView>,
    outcome: Result<(), GitHubStackReshapeErrorView>,
) -> bool {
    exists|reads: Seq<Result<PullRequestSnapshotView, MutationErrorView>>| #[trigger]
        adapter::refetched_each(runner, repository, postcondition_prs(rows), reads) && outcome
            == established_of(rows, reads) && (outcome is Ok ==> reads.len() == rows.len())
}

// ---------------------------------------------------------------------------
// Final topologies
// ---------------------------------------------------------------------------

/// The Stacks that must be read: those that hold a member, if there are as many
/// as chains that become Stacks.
pub open spec fn final_candidates(
    plan: GitHubStackReshapePlanView,
    read: Result<GitHubStackInventoryView, GitHubStackReadErrorView>,
) -> Result<Seq<GitHubStackSnapshotView>, GitHubStackReshapeErrorView> {
    match read {
        Err(error) => Err(GitHubStackReshapeErrorView::StackRead(error)),
        Ok(inventory) => {
            let overlapping = stack_adapter::touching(
                inventory.stacks,
                plan.before.topology.entries,
            );
            let desired = stackable(plan.replacement_chains);
            if inventory.truncated {
                Err(mismatched("Stack inventory is truncated; exact absence is unproven"@))
            } else if overlapping.len() != desired.len() {
                Err(
                    mismatched(
                        "expected "@ + text::decimal(desired.len())
                            + " replacement Stacks intersecting the original members, observed "@
                            + text::decimal(overlapping.len()),
                    ),
                )
            } else {
                Ok(overlapping)
            }
        },
    }
}

/// The Stacks that must be read.
pub fn judge_final_candidates(
    plan: &GitHubStackReshapePlan,
    read: Result<GitHubStackInventory, GitHubStackReadError>,
) -> (r: Result<Vec<GitHubStackSnapshot>, GitHubStackReshapeError>)
    ensures
        reshape_view(r) == final_candidates(plan.deep_view(), stack_adapter::inventory_view(read)),
{
    match read {
        Err(error) => Err(GitHubStackReshapeError::StackRead(error)),
        Ok(inventory) => {
            if inventory.truncated {
                return Err(
                    mismatch("Stack inventory is truncated; exact absence is unproven"),
                );
            }
            let overlapping = touching_stacks(&inventory.stacks, &plan.before.topology.entries);
            let desired = provider_replacement_chains(plan);
            assert(overlapping.deep_view().len() == overlapping.len());
            assert(desired.deep_view().len() == desired.len());
            if overlapping.len() != desired.len() {
                let diagnostic = "expected ".to_owned().concat(
                    decimal_text(desired.len() as u64).as_str(),
                ).concat(
                    " replacement Stacks intersecting the original members, observed ",
                ).concat(decimal_text(overlapping.len() as u64).as_str());
                return Err(mismatch(diagnostic.as_str()));
            }
            Ok(overlapping)
        },
    }
}

/// One Stack that was read once more.
pub open spec fn one_seen(
    number: u64,
    read: Result<Option<GitHubStackGenerationView>, GitHubStackMutationErrorView>,
) -> Result<GitHubStackGenerationView, GitHubStackReshapeErrorView> {
    match read {
        Err(error) => Err(GitHubStackReshapeErrorView::StackMutation(error)),
        Ok(None) => Err(
            mismatched(
                "Stack #"@ + text::decimal(number as nat) + " disappeared during final exact read"@,
            ),
        ),
        Ok(Some(generation)) => Ok(generation),
    }
}

fn see_one(
    number: u64,
    read: Result<Option<GitHubStackGeneration>, GitHubStackMutationError>,
) -> (r: Result<GitHubStackGeneration, GitHubStackReshapeError>)
    ensures
        reshape_view(r) == one_seen(number, stack::stack_view(read)),
{
    match read {
        Err(error) => Err(GitHubStackReshapeError::StackMutation(error)),
        Ok(None) => {
            let diagnostic = "Stack #".to_owned().concat(decimal_text(number).as_str()).concat(
                " disappeared during final exact read",
            );
            Err(mismatch(diagnostic.as_str()))
        },
        Ok(Some(generation)) => Ok(generation),
    }
}

/// The generations of Stacks that were read once more, up to the first that
/// fails.
pub open spec fn seen_of(
    stacks: Seq<GitHubStackSnapshotView>,
    reads: Seq<Result<Option<GitHubStackGenerationView>, GitHubStackMutationErrorView>>,
) -> Result<Seq<GitHubStackGenerationView>, GitHubStackReshapeErrorView>
    decreases reads.len(),
{
    if reads.len() == 0 {
        Ok(Seq::empty())
    } else {
        match seen_of(stacks, reads.drop_last()) {
            Err(error) => Err(error),
            Ok(list) => match one_seen(stacks[reads.len() - 1].number, reads.last()) {
                Err(error) => Err(error),
                Ok(generation) => Ok(list.push(generation)),
            },
        }
    }
}

/// Whether each outcome may be that of reading a Stack.
pub open spec fn each_read<R: CommandRunner>(
    runner: R,
    repository: RepositoryIdView,
    stacks: Seq<GitHubStackSnapshotView>,
    reads: Seq<Result<Option<GitHubStackGenerationView>, GitHubStackMutationErrorView>>,
) -> bool {
    reads.len() <= stacks.len() && forall|i: int|
        0 <= i < reads.len() ==> stack_adapter::generation_read(
            runner,
            repository,
            stacks[i].number,
            #[trigger] reads[i],
        )
}

/// Reading Stacks once more may end so.
pub open spec fn all_seen<R: CommandRunner>(
    runner: R,
    repository: RepositoryIdView,
    stacks: Seq<GitHubStackSnapshotView>,
    outcome: Result<Seq<GitHubStackGenerationView>, GitHubStackReshapeErrorView>,
) -> bool {
    exists|
        reads: Seq<Result<Option<GitHubStackGenerationView>, GitHubStackMutationErrorView>>,
    | #[trigger]
        each_read(runner, repository, stacks, reads) && outcome == seen_of(stacks, reads) && (
        outcome is Ok ==> reads.len() == stacks.len())
}

/// The generations with a topology.
pub open spec fn with_topology(
    stacks: Seq<GitHubStackGenerationView>,
    topology: GitHubStackTopologyView,
) -> Seq<GitHubStackGenerationView>
    decreases stacks.len(),
{
    if stacks.len() == 0 {
        Seq::empty()
    } else if stacks.last().topology == topology {
        with_topology(stacks.drop_last(), topology).push(stacks.last())
    } else {
        with_topology(stacks.drop_last(), topology)
    }
}

/// The debug texts of pull request numbers.
pub open spec fn debug_prs(prs: Seq<PrNumber>) -> Seq<Seq<char>> {
    Seq::new(prs.len(), |i: int| "PrNumber("@ + model::pr_text(prs[i]) + ")"@)
}

/// The one Stack of a chain.
pub open spec fn only_stack(
    chain: GitHubStackTopologyView,
    stacks: Seq<GitHubStackGenerationView>,
) -> Result<GitHubStackGenerationView, GitHubStackReshapeErrorView> {
    let matching = with_topology(stacks, chain);
    if matching.len() != 1 {
        Err(
            mismatched(
                "replacement chain ["@ + text::joined(
                    debug_prs(stack::entry_prs(chain.entries)),
                    ", "@,
                ) + "] matched "@ + text::decimal(matching.len()) + " provider Stacks"@,
            ),
        )
    } else {
        Ok(matching[0])
    }
}

/// The one Stack of each chain, in the order of the chains.
pub open spec fn in_chain_order(
    chains: Seq<GitHubStackTopologyView>,
    stacks: Seq<GitHubStackGenerationView>,
) -> Result<Seq<GitHubStackGenerationView>, GitHubStackReshapeErrorView>
    decreases chains.len(),
{
    if chains.len() == 0 {
        Ok(Seq::empty())
    } else {
        match in_chain_order(chains.drop_last(), stacks) {
            Err(error) => Err(error),
            Ok(list) => match only_stack(chains.last(), stacks) {
                Err(error) => Err(error),
                Ok(generation) => Ok(list.push(generation)),
            },
        }
    }
}

fn show_debug_prs(entries: &Vec<GitHubStackEntryGeneration>) -> (r: Vec<String>)
    ensures
        r.deep_view() == debug_prs(stack::entry_prs(entries.deep_view())),
{
    let ghost prs = stack::entry_prs(entries.deep_view());
    let mut out: Vec<String> = Vec::new();
    let mut i: usize = 0;
    while i < entries.len()
        invariant
            prs == stack::entry_prs(entries.deep_view()),
            i <= entries.len(),
            out.deep_view() == debug_prs(prs).take(i as int),
        decreases entries.len() - i,
    {
        assert(entries.deep_view()[i as int] == entries[i as int].deep_view());
        push_item(
            &mut out,
            "PrNumber(".to_owned().concat(entries[i].pr.to_text().as_str()).concat(")"),
        );
        i = i + 1;
        assert(out.deep_view() =~= debug_prs(prs).take(i as int));
    }
    assert(out.deep_view() =~= debug_prs(prs));
    out
}

fn select_only(chain: &GitHubStackTopology, stacks: &Vec<GitHubStackGeneration>) -> (r: Result<
    GitHubStackGeneration,
    GitHubStackReshapeError,
>)
    ensures
        reshape_view(r) == only_stack(chain.deep_view(), stacks.deep_view()),
{
    let ghost all = stacks.deep_view();
    let mut matching: Vec<GitHubStackGeneration> = Vec::new();
    let mut i: usize = 0;
    assert(matching.deep_view() =~= with_topology(all.take(0), chain.deep_view()));
    while i < stacks.len()
        invariant
            all == stacks.deep_view(),
            i <= stacks.len(),
            matching.deep_view() == with_topology(all.take(i as int), chain.deep_view()),
        decreases stacks.len() - i,
    {
        assert(all.take(i as int + 1).drop_last() =~= all.take(i as int));
        assert(all[i as int] == stacks[i as int].deep_view());
        if stacks[i].topology.same(chain) {
            push_item(&mut matching, stacks[i].dup());
        }
        i = i + 1;
    }
    assert(all.take(i as int) =~= all);
    assert(matching.deep_view().len() == matching.len());
    if matching.len() != 1 {
        let diagnostic = "replacement chain [".to_owned().concat(
            join(&show_debug_prs(&chain.entries), ", ").as_str(),
        ).concat("] matched ").concat(decimal_text(matching.len() as u64).as_str()).concat(
            " provider Stacks",
        );
        return Err(mismatch(diagnostic.as_str()));
    }
    assert(matching.deep_view()[0] == matching[0].deep_view());
    Ok(matching[0].dup())
}

/// The one Stack of each chain, in the order of the chains.
pub fn order_by_chain(
    chains: &Vec<GitHubStackTopology>,
    stacks: &Vec<GitHubStackGeneration>,
) -> (r: Result<Vec<GitHubStackGeneration>, GitHubStackReshapeError>)
    ensures
        reshape_view(r) == in_chain_order(chains.deep_view(), stacks.deep_view()),
{
    let ghost all = chains.deep_view();
    let ghost known = stacks.deep_view();
    let mut out: Vec<GitHubStackGeneration> = Vec::new();
    let mut i: usize = 0;
    assert(all.take(0) =~= Seq::<GitHubStackTopologyView>::empty());
    assert(out.deep_view() =~= Seq::<GitHubStackGenerationView>::empty());
    while i < chains.len()
        invariant
            all == chains.deep_view(),
            known == stacks.deep_view(),
            i <= chains.len(),
            in_chain_order(all.take(i as int), known) == Ok::<_, GitHubStackReshapeErrorView>(
                out.deep_view(),
            ),
        decreases chains.len() - i,
    {
        assert(all.take(i as int + 1).drop_last() =~= all.take(i as int));
        assert(all[i as int] == chains[i as int].deep_view());
        match select_only(&chains[i], stacks) {
            Err(error) => {
                proof {
                    lemma_order_stops(all, known, i as int + 1);
                }
                return Err(error);
            },
            Ok(generation) => {
                push_item(&mut out, generation);
            },
        }
        i = i + 1;
    }
    assert(all.take(i as int) =~= all);
    Ok(out)
}

proof fn lemma_order_stops(
    chains: Seq<GitHubStackTopologyView>,
    stacks: Seq<GitHubStackGenerationView>,
    k: int,
)
    requires
        0 <= k <= chains.len(),
        in_chain_order(chains.take(k), stacks) is Err,
    ensures
        in_chain_order(chains, stacks) == in_chain_order(chains.take(k), stacks),
    decreases chains.len(),
{
    if k < chains.len() {
        assert(chains.drop_last().take(k) =~= chains.take(k));
        lemma_order_stops(chains.drop_last(), stacks, k);
    } else {
        assert(chains.take(k) =~= chains);
    }
}

/// Confirming the final topology of a reshape may end so.
pub open spec fn final_confirmed<R: CommandRunner>(
    runner: R,
    repository: RepositoryIdView,
    plan: GitHubStackReshapePlanView,
    outcome: Result<Seq<GitHubStackGenerationView>, GitHubStackReshapeErrorView>,
) -> bool {
    exists|read: Result<GitHubStackInventoryView, GitHubStackReadErrorView>| #[trigger]
        stack_adapter::inventory_read(runner, repository, read) && match final_candidates(
            plan,
            read,
        ) {
            Err(error) => outcome == Err::<Seq<GitHubStackGenerationView>, _>(error),
            Ok(stacks) => final_confirmed_among(runner, repository, plan, stacks, outcome),
        }
}

/// Confirming the final topology of a reshape among Stacks may end so.
pub open spec fn final_confirmed_among<R: CommandRunner>(
    runner: R,
    repository: RepositoryIdView,
    plan: GitHubStackReshapePlanView,
    stacks: Seq<GitHubStackSnapshotView>,
    outcome: Result<Seq<GitHubStackGenerationView>, GitHubStackReshapeErrorView>,
) -> bool {
    exists|seen: Result<Seq<GitHubStackGenerationView>, GitHubStackReshapeErrorView>| #[trigger]
        all_seen(runner, repository, stacks, seen) && outcome == match seen {
            Err(error) => Err(error),
            Ok(list) => in_chain_order(stackable(plan.replacement_chains), list),
        }
}

// ---------------------------------------------------------------------------
// Steps
// ---------------------------------------------------------------------------

/// A reshape after its Stack was read.
pub open spec fn after_read(
    plan: GitHubStackReshapePlanView,
    read: Result<Option<GitHubStackGenerationView>, GitHubStackMutationErrorView>,
) -> Result<GitHubStackReshapeCheckpointView, GitHubStackReshapeErrorView> {
    match read {
        Err(error) => Err(GitHubStackReshapeErrorView::StackMutation(error)),
        Ok(actual) => if actual != Some(plan.before) {
            Err(GitHubStackReshapeErrorView::StaleGeneration { expected: plan.before, actual })
        } else {
            Ok(preflighted_with(plan))
        },
    }
}

/// A reshape after its Stack was read.
pub fn judge_preflight(
    plan: &GitHubStackReshapePlan,
    read: Result<Option<GitHubStackGeneration>, GitHubStackMutationError>,
) -> (r: Result<GitHubStackReshapeCheckpoint, GitHubStackReshapeError>)
    ensures
        reshape_view(r) == after_read(plan.deep_view(), stack::stack_view(read)),
{
    match read {
        Err(error) => Err(GitHubStackReshapeError::StackMutation(error)),
        Ok(actual) => {
            if !actual.same(&Some(plan.before.dup())) {
                return Err(
                    GitHubStackReshapeError::StaleGeneration {
                        expected: Box::new(plan.before.dup()),
                        actual: match actual {
                            Some(generation) => Some(Box::new(generation)),
                            None => None,
                        },
                    },
                );
            }
            Ok(GitHubStackReshapeCheckpoint::preflighted(plan.dup()))
        },
    }
}

/// Reading the Stack of a valid plan may end so.
pub open spec fn preflight_sent<R: CommandRunner>(
    runner: R,
    repository: RepositoryIdView,
    plan: GitHubStackReshapePlanView,
    outcome: Result<GitHubStackReshapeCheckpointView, GitHubStackReshapeErrorView>,
) -> bool {
    exists|read: Result<Option<GitHubStackGenerationView>, GitHubStackMutationErrorView>| #[trigger]
        stack_adapter::generation_read_allowing(
            runner,
            repository,
            plan.before.number,
            stale_tail(plan),
            read,
        ) && outcome == after_read(plan, read)
}

/// The preflight of a reshape may end so.
pub open spec fn reshape_preflighted<R: CommandRunner>(
    runner: R,
    repository: RepositoryIdView,
    plan: GitHubStackReshapePlanView,
    outcome: Result<GitHubStackReshapeCheckpointView, GitHubStackReshapeErrorView>,
) -> bool {
    if plan.repository != repository || !plan.valid() {
        outcome == Err::<GitHubStackReshapeCheckpointView, _>(plan_invalid())
    } else {
        preflight_sent(runner, repository, plan, outcome)
    }
}

/// The request to take the Stack of a plan apart.
pub open spec fn unstack_plan(plan: GitHubStackReshapePlanView) -> GitHubStackUnstackPlanView {
    GitHubStackUnstackPlanView {
        operation_id: unstack_id(plan),
        actor: plan.actor,
        before: plan.before,
        desired_after: None,
    }
}

/// A reshape after its Stack was taken apart.
pub open spec fn after_unstack(
    checkpoint: GitHubStackReshapeCheckpointView,
    done: Result<GitHubStackMutationReceiptView, GitHubStackMutationErrorView>,
) -> Result<GitHubStackReshapeCheckpointView, GitHubStackReshapeErrorView> {
    match done {
        Err(error) => Err(GitHubStackReshapeErrorView::StackMutation(error)),
        Ok(receipt) => Ok(
            GitHubStackReshapeCheckpointView {
                phase: GitHubStackReshapePhase::Unstacked,
                unstack_receipt: Some(receipt),
                ..checkpoint
            }.sealed(),
        ),
    }
}

/// A reshape after its Stack was taken apart.
pub fn judge_unstack(
    checkpoint: &GitHubStackReshapeCheckpoint,
    done: Result<GitHubStackMutationReceipt, GitHubStackMutationError>,
) -> (r: Result<GitHubStackReshapeCheckpoint, GitHubStackReshapeError>)
    ensures
        reshape_view(r) == after_unstack(checkpoint.deep_view(), stack::stack_view(done)),
{
    match done {
        Err(error) => Err(GitHubStackReshapeError::StackMutation(error)),
        Ok(receipt) => {
            let mut next = checkpoint.dup();
            next.phase = GitHubStackReshapePhase::Unstacked;
            next.unstack_receipt = Some(receipt);
            Ok(next.seal())
        },
    }
}

/// Taking the Stack of a reshape apart may end so.
pub open spec fn unstack_sent<R: CommandRunner>(
    runner: R,
    repository: RepositoryIdView,
    checkpoint: GitHubStackReshapeCheckpointView,
    outcome: Result<GitHubStackReshapeCheckpointView, GitHubStackReshapeErrorView>,
) -> bool {
    exists|done: Result<GitHubStackMutationReceiptView, GitHubStackMutationErrorView>| #[trigger]
        stack_adapter::unstacked(
            runner,
            repository,
            unstack_plan(checkpoint.plan),
            stale_tail(checkpoint.plan),
            done,
        ) && outcome == after_unstack(checkpoint, done)
}

/// The unstack step of a reshape may end so.
pub open spec fn reshape_unstacked<R: CommandRunner>(
    runner: R,
    repository: RepositoryIdView,
    checkpoint: GitHubStackReshapeCheckpointView,
    outcome: Result<GitHubStackReshapeCheckpointView, GitHubStackReshapeErrorView>,
) -> bool {
    if !reshape_accepted(repository, checkpoint) {
        outcome == Err::<GitHubStackReshapeCheckpointView, _>(checkpoint_invalid())
    } else if checkpoint.phase != GitHubStackReshapePhase::Preflighted {
        outcome == Ok::<_, GitHubStackReshapeErrorView>(checkpoint)
    } else {
        unstack_sent(runner, repository, checkpoint, outcome)
    }
}

/// A reshape after its pull requests were confirmed.
pub open spec fn after_reshape(
    checkpoint: GitHubStackReshapeCheckpointView,
    receipt: OperationReceiptView,
    checked: Result<(), GitHubStackReshapeErrorView>,
) -> Result<GitHubStackReshapeCheckpointView, GitHubStackReshapeErrorView> {
    match checked {
        Err(error) => Err(error),
        Ok(_) => Ok(
            GitHubStackReshapeCheckpointView {
                phase: GitHubStackReshapePhase::ReshapeApplied,
                reshape_receipt: Some(receipt),
                ..checkpoint
            }.sealed(),
        ),
    }
}

/// Confirming a reshape may end so.
pub open spec fn record_sent<R: CommandRunner>(
    runner: R,
    repository: RepositoryIdView,
    checkpoint: GitHubStackReshapeCheckpointView,
    receipt: OperationReceiptView,
    outcome: Result<GitHubStackReshapeCheckpointView, GitHubStackReshapeErrorView>,
) -> bool {
    exists|checked: Result<(), GitHubStackReshapeErrorView>| #[trigger]
        established(runner, repository, checkpoint.plan.pr_postconditions, checked) && outcome
            == after_reshape(checkpoint, receipt, checked)
}

/// The record step of a reshape may end so.
pub open spec fn reshape_recorded<R: CommandRunner>(
    runner: R,
    repository: RepositoryIdView,
    checkpoint: GitHubStackReshapeCheckpointView,
    receipt: OperationReceiptView,
    outcome: Result<GitHubStackReshapeCheckpointView, GitHubStackReshapeErrorView>,
) -> bool {
    if !reshape_accepted(repository, checkpoint) {
        outcome == Err::<GitHubStackReshapeCheckpointView, _>(checkpoint_invalid())
    } else if checkpoint.phase.rank() >= GitHubStackReshapePhase::ReshapeApplied.rank() {
        if checkpoint.reshape_receipt == Some(receipt) {
            outcome == Ok::<_, GitHubStackReshapeErrorView>(checkpoint)
        } else {
            outcome == Err::<GitHubStackReshapeCheckpointView, _>(
                bad_reshape("a different existing-reshape receipt is already bound"@),
            )
        }
    } else if checkpoint.phase != GitHubStackReshapePhase::Unstacked {
        outcome == Err::<GitHubStackReshapeCheckpointView, _>(
            bad_reshape("existing reshape can be recorded only after exact unstack proof"@),
        )
    } else {
        match existing_refusal(checkpoint.plan, receipt) {
            Some(error) => outcome == Err::<GitHubStackReshapeCheckpointView, _>(error),
            None => record_sent(runner, repository, checkpoint, receipt, outcome),
        }
    }
}

/// The request to create one Stack of a plan.
pub open spec fn create_plan(
    plan: GitHubStackReshapePlanView,
    index: nat,
    chain: GitHubStackTopologyView,
) -> GitHubStackCreatePlanView {
    GitHubStackCreatePlanView {
        operation_id: replacement_id(plan, index),
        actor: plan.actor,
        desired: chain,
    }
}

/// A reshape with the receipts of its Stacks.
pub open spec fn with_receipts(
    checkpoint: GitHubStackReshapeCheckpointView,
    receipts: Seq<GitHubStackMutationReceiptView>,
) -> GitHubStackReshapeCheckpointView {
    GitHubStackReshapeCheckpointView {
        replacement_receipts: receipts,
        phase: if receipts.len() == stackable(checkpoint.plan.replacement_chains).len() {
            GitHubStackReshapePhase::Rebuilt
        } else {
            GitHubStackReshapePhase::Rebuilding
        },
        ..checkpoint
    }.sealed()
}

/// A reshape after one of its Stacks was created.
pub open spec fn after_create(
    checkpoint: GitHubStackReshapeCheckpointView,
    made: Result<GitHubStackMutationReceiptView, GitHubStackMutationErrorView>,
) -> Result<GitHubStackReshapeCheckpointView, GitHubStackReshapeErrorView> {
    match made {
        Err(error) => Err(GitHubStackReshapeErrorView::StackMutation(error)),
        Ok(receipt) => Ok(
            with_receipts(checkpoint, checkpoint.replacement_receipts.push(receipt)),
        ),
    }
}

/// Creating the next Stack of a reshape may end so.
pub open spec fn create_sent<R: CommandRunner>(
    runner: R,
    repository: RepositoryIdView,
    checkpoint: GitHubStackReshapeCheckpointView,
    outcome: Result<GitHubStackReshapeCheckpointView, GitHubStackReshapeErrorView>,
) -> bool {
    let chains = stackable(checkpoint.plan.replacement_chains);
    let index = checkpoint.replacement_receipts.len();
    if index < chains.len() {
        exists|made: Result<GitHubStackMutationReceiptView, GitHubStackMutationErrorView>| #[trigger]
            stack_adapter::stack_created(
                runner,
                repository,
                create_plan(checkpoint.plan, index, chains[index as int]),
                made,
            ) && outcome == after_create(checkpoint, made)
    } else {
        outcome == Ok::<_, GitHubStackReshapeErrorView>(
            with_receipts(checkpoint, checkpoint.replacement_receipts),
        )
    }
}

/// Confirming a reshape and creating its next Stack may end so.
pub open spec fn rebuild_sent<R: CommandRunner>(
    runner: R,
    repository: RepositoryIdView,
    checkpoint: GitHubStackReshapeCheckpointView,
    outcome: Result<GitHubStackReshapeCheckpointView, GitHubStackReshapeErrorView>,
) -> bool {
    exists|checked: Result<(), GitHubStackReshapeErrorView>| #[trigger]
        established(
            runner,
            repository,
            checkpoint.plan.pr_postconditions,
            checked,
        ) && match checked {
            Err(error) => outcome == Err::<GitHubStackReshapeCheckpointView, _>(error),
            Ok(_) => create_sent(runner, repository, checkpoint, outcome),
        }
}

/// The rebuild step of a reshape may end so.
pub open spec fn reshape_rebuilt<R: CommandRunner>(
    runner: R,
    repository: RepositoryIdView,
    checkpoint: GitHubStackReshapeCheckpointView,
    outcome: Result<GitHubStackReshapeCheckpointView, GitHubStackReshapeErrorView>,
) -> bool {
    if !reshape_accepted(repository, checkpoint) {
        outcome == Err::<GitHubStackReshapeCheckpointView, _>(checkpoint_invalid())
    } else if checkpoint.phase.rank() >= GitHubStackReshapePhase::Rebuilt.rank() {
        outcome == Ok::<_, GitHubStackReshapeErrorView>(checkpoint)
    } else if checkpoint.phase.rank() < GitHubStackReshapePhase::ReshapeApplied.rank() {
        outcome == Err::<GitHubStackReshapeCheckpointView, _>(
            bad_reshape("replacement creation requires a proven existing reshape"@),
        )
    } else {
        rebuild_sent(runner, repository, checkpoint, outcome)
    }
}

/// A reshape after its final topology was confirmed.
pub open spec fn after_final(
    checkpoint: GitHubStackReshapeCheckpointView,
    confirmed: Result<Seq<GitHubStackGenerationView>, GitHubStackReshapeErrorView>,
) -> Result<GitHubStackReshapeCheckpointView, GitHubStackReshapeErrorView> {
    match confirmed {
        Err(error) => Err(error),
        Ok(stacks) => Ok(
            GitHubStackReshapeCheckpointView {
                phase: GitHubStackReshapePhase::Verified,
                final_stacks: stacks,
                ..checkpoint
            }.sealed(),
        ),
    }
}

/// Confirming the Stacks of a reshape may end so.
pub open spec fn final_sent<R: CommandRunner>(
    runner: R,
    repository: RepositoryIdView,
    checkpoint: GitHubStackReshapeCheckpointView,
    outcome: Result<GitHubStackReshapeCheckpointView, GitHubStackReshapeErrorView>,
) -> bool {
    exists|confirmed: Result<Seq<GitHubStackGenerationView>, GitHubStackReshapeErrorView>| #[trigger]
        final_confirmed(runner, repository, checkpoint.plan, confirmed) && outcome == after_final(
            checkpoint,
            confirmed,
        )
}

/// Confirming a reshape and its Stacks may end so.
pub open spec fn verify_sent<R: CommandRunner>(
    runner: R,
    repository: RepositoryIdView,
    checkpoint: GitHubStackReshapeCheckpointView,
    outcome: Result<GitHubStackReshapeCheckpointView, GitHubStackReshapeErrorView>,
) -> bool {
    exists|checked: Result<(), GitHubStackReshapeErrorView>| #[trigger]
        established(
            runner,
            repository,
            checkpoint.plan.pr_postconditions,
            checked,
        ) && match checked {
            Err(error) => outcome == Err::<GitHubStackReshapeCheckpointView, _>(error),
            Ok(_) => final_sent(runner, repository, checkpoint, outcome),
        }
}

/// The last step of a reshape may end so.
pub open spec fn reshape_verified<R: CommandRunner>(
    runner: R,
    repository: RepositoryIdView,
    checkpoint: GitHubStackReshapeCheckpointView,
    outcome: Result<GitHubStackReshapeCheckpointView, GitHubStackReshapeErrorView>,
) -> bool {
    if !reshape_accepted(repository, checkpoint) {
        outcome == Err::<GitHubStackReshapeCheckpointView, _>(checkpoint_invalid())
    } else if checkpoint.phase == GitHubStackReshapePhase::Verified {
        outcome == Ok::<_, GitHubStackReshapeErrorView>(checkpoint)
    } else if checkpoint.phase != GitHubStackReshapePhase::Rebuilt {
        outcome == Err::<GitHubStackReshapeCheckpointView, _>(
            bad_reshape("final verification requires every replacement create receipt"@),
        )
    } else {
        verify_sent(runner, repository, checkpoint, outcome)
    }
}

// ---------------------------------------------------------------------------
// What may be run
// ---------------------------------------------------------------------------

/// What confirming the pull requests of a reshape may run: their reads.
pub open spec fn may_confirm<R: CommandRunner>(
    runner: R,
    repository: RepositoryIdView,
    rows: Seq<GitHubStackReshapePrPostconditionView>,
) -> bool {
    forall|i: int|
        0 <= i < rows.len() ==> runner.allows(
            commands::pull_request(repository, model::pr_text((#[trigger] rows[i]).pr)),
        )
}

/// What the preflight of a reshape may run: nothing for a plan that is refused,
/// else reads.
pub open spec fn may_preflight<R: CommandRunner>(
    runner: R,
    repository: RepositoryIdView,
    plan: GitHubStackReshapePlanView,
) -> bool {
    plan.repository == repository && plan.valid() ==> command::reads_allowed(runner)
}

/// What the unstack step of a reshape may run: nothing but for a valid reshape
/// that was preflighted, which takes its exact Stack apart.
pub open spec fn may_reshape_unstack<R: CommandRunner>(
    runner: R,
    repository: RepositoryIdView,
    checkpoint: GitHubStackReshapeCheckpointView,
) -> bool {
    reshape_accepted(repository, checkpoint) && checkpoint.phase
        == GitHubStackReshapePhase::Preflighted ==> stack_adapter::may_unstack(
        runner,
        repository,
        unstack_plan(checkpoint.plan),
        stale_tail(checkpoint.plan),
    )
}

/// What the record step of a reshape may run: nothing but for a valid reshape
/// whose Stack was taken apart and a receipt that fits it, of which it reads the
/// pull requests.
pub open spec fn may_record<R: CommandRunner>(
    runner: R,
    repository: RepositoryIdView,
    checkpoint: GitHubStackReshapeCheckpointView,
    receipt: OperationReceiptView,
) -> bool {
    reshape_accepted(repository, checkpoint) && checkpoint.phase
        == GitHubStackReshapePhase::Unstacked && existing_refusal(
        checkpoint.plan,
        receipt,
    ) is None ==> may_confirm(runner, repository, checkpoint.plan.pr_postconditions)
}

/// What creating the next Stack of a reshape may run: nothing if none is
/// missing, else what the creation of exactly that one may run.
pub open spec fn may_create_next<R: CommandRunner>(
    runner: R,
    repository: RepositoryIdView,
    checkpoint: GitHubStackReshapeCheckpointView,
) -> bool {
    let chains = stackable(checkpoint.plan.replacement_chains);
    let index = checkpoint.replacement_receipts.len();
    index < chains.len() ==> stack_adapter::may_create_stack(
        runner,
        repository,
        create_plan(checkpoint.plan, index, chains[index as int]),
    )
}

/// What the rebuild step of a reshape may run: nothing but for a valid reshape
/// that was applied and is not rebuilt, of which it reads the pull requests, and
/// creates the next Stack once they are as they must be.
pub open spec fn may_rebuild<R: CommandRunner>(
    runner: R,
    repository: RepositoryIdView,
    checkpoint: GitHubStackReshapeCheckpointView,
) -> bool {
    let rows = checkpoint.plan.pr_postconditions;
    reshape_accepted(repository, checkpoint) && GitHubStackReshapePhase::ReshapeApplied.rank()
        <= checkpoint.phase.rank() && checkpoint.phase.rank()
        < GitHubStackReshapePhase::Rebuilt.rank() ==> {
        &&& may_confirm(runner, repository, rows)
        &&& established(runner, repository, rows, Ok(())) ==> may_create_next(
            runner,
            repository,
            checkpoint,
        )
    }
}

/// What the last step of a reshape may run: nothing but for a valid reshape that
/// is rebuilt, which reads.
pub open spec fn may_verify_final<R: CommandRunner>(
    runner: R,
    repository: RepositoryIdView,
    checkpoint: GitHubStackReshapeCheckpointView,
) -> bool {
    reshape_accepted(repository, checkpoint) && checkpoint.phase
        == GitHubStackReshapePhase::Rebuilt ==> command::reads_allowed(runner)
}

impl<R: CommandRunner> GitHubMutationAdapter<R> {
    /// Confirms one exact Stack and seals its plan. Nothing is changed.
    pub fn native_stack_reshape_preflight(
        &self,
        repository: &RepositoryId,
        plan: &GitHubStackReshapePlan,
    ) -> (r: Result<GitHubStackReshapeCheckpoint, GitHubStackReshapeError>)
        requires
            may_preflight(self.runner, repository.deep_view(), plan.deep_view()),
        ensures
            reshape_preflighted(
                self.runner,
                repository.deep_view(),
                plan.deep_view(),
                reshape_view(r),
            ),
    {
        match validate_plan(repository, plan) {
            Err(error) => {
                return Err(error);
            },
            Ok(_) => {},
        }
        let read = self.native_stack_generation_allowing_stale_tail_base(
            repository,
            plan.before.number,
            stale_tail_base_exception(plan),
        );
        assert(stack_adapter::generation_read_allowing(
            self.runner,
            repository.deep_view(),
            plan.deep_view().before.number,
            stale_tail(plan.deep_view()),
            stack::stack_view(read),
        ));
        judge_preflight(plan, read)
    }

    /// Takes the exact Stack apart. If it is gone already, nothing is asked for
    /// again.
    pub fn native_stack_reshape_unstack(
        &self,
        repository: &RepositoryId,
        checkpoint: &GitHubStackReshapeCheckpoint,
    ) -> (r: Result<GitHubStackReshapeCheckpoint, GitHubStackReshapeError>)
        requires
            may_reshape_unstack(self.runner, repository.deep_view(), checkpoint.deep_view()),
        ensures
            reshape_unstacked(
                self.runner,
                repository.deep_view(),
                checkpoint.deep_view(),
                reshape_view(r),
            ),
    {
        match validate_checkpoint(repository, checkpoint) {
            Err(error) => {
                return Err(error);
            },
            Ok(_) => {},
        }
        if !checkpoint.phase.same(&GitHubStackReshapePhase::Preflighted) {
            return Ok(checkpoint.dup());
        }
        let plan = &checkpoint.plan;
        let request = GitHubStackUnstackPlan {
            operation_id: unstack_operation_id(plan),
            actor: plan.actor.dup(),
            before: plan.before.dup(),
            desired_after: None,
        };
        assert(request.deep_view() =~= unstack_plan(checkpoint.deep_view().plan));
        let done = self.native_stack_unstack_allowing_stale_tail_base(
            repository,
            &request,
            stale_tail_base_exception(plan),
        );
        assert(stack_adapter::unstacked(
            self.runner,
            repository.deep_view(),
            unstack_plan(checkpoint.deep_view().plan),
            stale_tail(checkpoint.deep_view().plan),
            stack::stack_view(done),
        ));
        judge_unstack(checkpoint, done)
    }

    fn verify_reshape_pr_postconditions(
        &self,
        repository: &RepositoryId,
        plan: &GitHubStackReshapePlan,
    ) -> (r: Result<(), GitHubStackReshapeError>)
        requires
            may_confirm(self.runner, repository.deep_view(), plan.deep_view().pr_postconditions),
        ensures
            established(
                self.runner,
                repository.deep_view(),
                plan.deep_view().pr_postconditions,
                reshape_view(r),
            ),
    {
        let rows = &plan.pr_postconditions;
        let ghost all = rows.deep_view();
        let ghost prs = postcondition_prs(all);
        let ghost mut reads: Seq<Result<PullRequestSnapshotView, MutationErrorView>> = Seq::empty();
        let mut i: usize = 0;
        while i < rows.len()
            invariant
                all == rows.deep_view(),
                all == plan.deep_view().pr_postconditions,
                prs == postcondition_prs(all),
                i <= rows.len(),
                reads.len() == i,
                adapter::refetched_each(self.runner, repository.deep_view(), prs, reads),
                established_of(all, reads) == Ok::<_, GitHubStackReshapeErrorView>(()),
                may_confirm(self.runner, repository.deep_view(), all),
            decreases rows.len() - i,
        {
            let expected = &rows[i];
            assert(all[i as int] == expected.deep_view());
            let ghost before = reads;
            let read = self.refetch_pull_request(repository, expected.pr);
            proof {
                reads = before.push(adapter::outcome_view(read));
                assert(reads.drop_last() =~= before);
                assert forall|k: int| 0 <= k < reads.len() implies adapter::refetched(
                    self.runner,
                    repository.deep_view(),
                    model::pr_text(prs[k]),
                    #[trigger] reads[k],
                ) by {
                    if k < i {
                        assert(reads[k] == before[k]);
                    }
                }
                assert(adapter::refetched_each(self.runner, repository.deep_view(), prs, reads));
            }
            match read {
                Err(error) => {
                    return Err(GitHubStackReshapeError::Provider(error));
                },
                Ok(actual) => {
                    let changed_fields = changed_pr_fields(expected, &actual);
                    assert(changed_fields.deep_view().len() == changed_fields.len());
                    if changed_fields.len() != 0 {
                        return Err(
                            GitHubStackReshapeError::ExistingReshapeIncomplete {
                                pr: expected.pr,
                                changed_fields,
                            },
                        );
                    }
                },
            }
            i = i + 1;
        }
        Ok(())
    }

    /// Binds the receipt of the reshape of the pull requests, once fresh reads
    /// show every planned base, head, control label and auto-merge setting.
    pub fn native_stack_reshape_record_existing(
        &self,
        repository: &RepositoryId,
        checkpoint: &GitHubStackReshapeCheckpoint,
        reshape_receipt: &OperationReceipt,
    ) -> (r: Result<GitHubStackReshapeCheckpoint, GitHubStackReshapeError>)
        requires
            may_record(
                self.runner,
                repository.deep_view(),
                checkpoint.deep_view(),
                reshape_receipt.deep_view(),
            ),
        ensures
            reshape_recorded(
                self.runner,
                repository.deep_view(),
                checkpoint.deep_view(),
                reshape_receipt.deep_view(),
                reshape_view(r),
            ),
    {
        match validate_checkpoint(repository, checkpoint) {
            Err(error) => {
                return Err(error);
            },
            Ok(_) => {},
        }
        match checkpoint.phase {
            GitHubStackReshapePhase::Preflighted => {
                return Err(
                    invalid_checkpoint(
                        "existing reshape can be recorded only after exact unstack proof",
                    ),
                );
            },
            GitHubStackReshapePhase::Unstacked => {},
            _ => {
                if checkpoint.reshape_receipt.same(&Some(reshape_receipt.dup())) {
                    return Ok(checkpoint.dup());
                }
                return Err(
                    invalid_checkpoint("a different existing-reshape receipt is already bound"),
                );
            },
        }
        match validate_existing_receipt(&checkpoint.plan, reshape_receipt) {
            Err(error) => {
                return Err(error);
            },
            Ok(_) => {},
        }
        let checked = self.verify_reshape_pr_postconditions(repository, &checkpoint.plan);
        assert(established(
            self.runner,
            repository.deep_view(),
            checkpoint.deep_view().plan.pr_postconditions,
            reshape_view(checked),
        ));
        match checked {
            Err(error) => Err(error),
            Ok(_) => {
                let mut next = checkpoint.dup();
                next.phase = GitHubStackReshapePhase::ReshapeApplied;
                next.reshape_receipt = Some(reshape_receipt.dup());
                Ok(next.seal())
            },
        }
    }

    fn create_next(
        &self,
        repository: &RepositoryId,
        checkpoint: &GitHubStackReshapeCheckpoint,
    ) -> (r:
        Result<GitHubStackReshapeCheckpoint, GitHubStackReshapeError>)
        requires
            may_create_next(self.runner, repository.deep_view(), checkpoint.deep_view()),
        ensures
            create_sent(
                self.runner,
                repository.deep_view(),
                checkpoint.deep_view(),
                reshape_view(r),
            ),
    {
        let plan = &checkpoint.plan;
        let chains = provider_replacement_chains(plan);
        let index = checkpoint.replacement_receipts.len();
        assert(chains.deep_view().len() == chains.len());
        assert(checkpoint.deep_view().replacement_receipts.len() == index);
        let mut next = checkpoint.dup();
        if index < chains.len() {
            assert(chains.deep_view()[index as int] == chains[index as int].deep_view());
            let request = GitHubStackCreatePlan {
                operation_id: replacement_operation_id(plan, index),
                actor: plan.actor.dup(),
                desired: chains[index].dup(),
            };
            let made = self.native_stack_create(repository, &request);
            assert(stack_adapter::stack_created(
                self.runner,
                repository.deep_view(),
                create_plan(
                    checkpoint.deep_view().plan,
                    checkpoint.deep_view().replacement_receipts.len(),
                    stackable(checkpoint.deep_view().plan.replacement_chains)[index as int],
                ),
                stack::stack_view(made),
            ));
            match made {
                Err(error) => {
                    return Err(GitHubStackReshapeError::StackMutation(error));
                },
                Ok(receipt) => {
                    let mut receipts = checkpoint.replacement_receipts.dup();
                    push_item(&mut receipts, receipt);
                    next.replacement_receipts = receipts;
                },
            }
        }
        assert(next.replacement_receipts.deep_view().len() == next.replacement_receipts.len());
        next.phase = if next.replacement_receipts.len() == chains.len() {
            GitHubStackReshapePhase::Rebuilt
        } else {
            GitHubStackReshapePhase::Rebuilding
        };
        Ok(next.seal())
    }

    /// Creates at most one missing Stack. One that is there already is not
    /// asked for again.
    pub fn native_stack_reshape_rebuild_next(
        &self,
        repository: &RepositoryId,
        checkpoint: &GitHubStackReshapeCheckpoint,
    ) -> (r: Result<GitHubStackReshapeCheckpoint, GitHubStackReshapeError>)
        requires
            may_rebuild(self.runner, repository.deep_view(), checkpoint.deep_view()),
        ensures
            reshape_rebuilt(
                self.runner,
                repository.deep_view(),
                checkpoint.deep_view(),
                reshape_view(r),
            ),
    {
        match validate_checkpoint(repository, checkpoint) {
            Err(error) => {
                return Err(error);
            },
            Ok(_) => {},
        }
        match checkpoint.phase {
            GitHubStackReshapePhase::Rebuilt | GitHubStackReshapePhase::Verified => {
                return Ok(checkpoint.dup());
            },
            GitHubStackReshapePhase::ReshapeApplied | GitHubStackReshapePhase::Rebuilding => {},
            _ => {
                return Err(
                    invalid_checkpoint("replacement creation requires a proven existing reshape"),
                );
            },
        }
        let checked = self.verify_reshape_pr_postconditions(repository, &checkpoint.plan);
        assert(established(
            self.runner,
            repository.deep_view(),
            checkpoint.deep_view().plan.pr_postconditions,
            reshape_view(checked),
        ));
        match checked {
            Err(error) => Err(error),
            Ok(_) => self.create_next(repository, checkpoint),
        }
    }

    fn see_stacks(
        &self,
        repository: &RepositoryId,
        stacks: &Vec<GitHubStackSnapshot>,
    ) -> (r: Result<
        Vec<GitHubStackGeneration>,
        GitHubStackReshapeError,
    >)
        requires
            command::reads_allowed(self.runner),
        ensures
            all_seen(
                self.runner,
                repository.deep_view(),
                stacks.deep_view(),
                reshape_view(r),
            ),
    {
        let ghost all = stacks.deep_view();
        let ghost mut reads: Seq<
            Result<Option<GitHubStackGenerationView>, GitHubStackMutationErrorView>,
        > = Seq::empty();
        let mut out: Vec<GitHubStackGeneration> = Vec::new();
        let mut i: usize = 0;
        assert(out.deep_view() =~= Seq::<GitHubStackGenerationView>::empty());
        while i < stacks.len()
            invariant
                all == stacks.deep_view(),
                i <= stacks.len(),
                reads.len() == i,
                command::reads_allowed(self.runner),
                each_read(self.runner, repository.deep_view(), all, reads),
                seen_of(all, reads) == Ok::<_, GitHubStackReshapeErrorView>(out.deep_view()),
            decreases stacks.len() - i,
        {
            let stack = &stacks[i];
            assert(all[i as int] == stack.deep_view());
            let ghost before = reads;
            let read = self.native_stack_generation(repository, stack.number);
            proof {
                reads = before.push(stack::stack_view(read));
                assert(reads.drop_last() =~= before);
                assert forall|k: int| 0 <= k < reads.len() implies stack_adapter::generation_read(
                    self.runner,
                    repository.deep_view(),
                    all[k].number,
                    #[trigger] reads[k],
                ) by {
                    if k < i {
                        assert(reads[k] == before[k]);
                    }
                }
                assert(each_read(self.runner, repository.deep_view(), all, reads));
            }
            match see_one(stack.number, read) {
                Err(error) => {
                    return Err(error);
                },
                Ok(generation) => {
                    push_item(&mut out, generation);
                },
            }
            i = i + 1;
        }
        Ok(out)
    }

    fn verify_final_stack_topology(
        &self,
        repository: &RepositoryId,
        plan: &GitHubStackReshapePlan,
    ) -> (r: Result<Vec<GitHubStackGeneration>, GitHubStackReshapeError>)
        requires
            command::reads_allowed(self.runner),
        ensures
            final_confirmed(
                self.runner,
                repository.deep_view(),
                plan.deep_view(),
                reshape_view(r),
            ),
    {
        let read = self.native_stack_inventory(repository);
        assert(stack_adapter::inventory_read(
            self.runner,
            repository.deep_view(),
            stack_adapter::inventory_view(read),
        ));
        let stacks = match judge_final_candidates(plan, read) {
            Err(error) => {
                return Err(error);
            },
            Ok(stacks) => stacks,
        };
        let seen = self.see_stacks(repository, &stacks);
        assert(all_seen(
            self.runner,
            repository.deep_view(),
            stacks.deep_view(),
            reshape_view(seen),
        ));
        match seen {
            Err(error) => Err(error),
            Ok(list) => order_by_chain(&provider_replacement_chains(plan), &list),
        }
    }

    /// Confirms that every chain of two or more is exactly one Stack, and that
    /// no member stands in any other.
    pub fn native_stack_reshape_verify_final(
        &self,
        repository: &RepositoryId,
        checkpoint: &GitHubStackReshapeCheckpoint,
    ) -> (r: Result<GitHubStackReshapeCheckpoint, GitHubStackReshapeError>)
        requires
            may_verify_final(self.runner, repository.deep_view(), checkpoint.deep_view()),
        ensures
            reshape_verified(
                self.runner,
                repository.deep_view(),
                checkpoint.deep_view(),
                reshape_view(r),
            ),
    {
        match validate_checkpoint(repository, checkpoint) {
            Err(error) => {
                return Err(error);
            },
            Ok(_) => {},
        }
        match checkpoint.phase {
            GitHubStackReshapePhase::Verified => {
                return Ok(checkpoint.dup());
            },
            GitHubStackReshapePhase::Rebuilt => {},
            _ => {
                return Err(
                    invalid_checkpoint(
                        "final verification requires every replacement create receipt",
                    ),
                );
            },
        }
        let checked = self.verify_reshape_pr_postconditions(repository, &checkpoint.plan);
        assert(established(
            self.runner,
            repository.deep_view(),
            checkpoint.deep_view().plan.pr_postconditions,
            reshape_view(checked),
        ));
        match checked {
            Err(error) => {
                return Err(error);
            },
            Ok(_) => {},
        }
        let confirmed = self.verify_final_stack_topology(repository, &checkpoint.plan);
        assert(final_confirmed(
            self.runner,
            repository.deep_view(),
            checkpoint.deep_view().plan,
            reshape_view(confirmed),
        ));
        match confirmed {
            Err(error) => Err(error),
            Ok(stacks) => {
                let mut next = checkpoint.dup();
                next.phase = GitHubStackReshapePhase::Verified;
                next.final_stacks = stacks;
                Ok(next.seal())
            },
        }
    }
}

} // verus!
