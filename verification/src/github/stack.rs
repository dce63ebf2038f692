//! Native Stacks: topologies, generations, plans and receipts.
//!
//! Entries stand bottom to top. Everything here is decided on plain values;
//! the provider is asked elsewhere.

use vstd::prelude::*;
use vstd::string::*;
use crate::command;
use crate::command::{CommandRunError, CommandRunErrorView, CommandSpec, CommandSpecView};
use crate::github::commands;
use crate::github::commands::encode_path_segment;
use crate::github::evidence;
use crate::github::evidence::hash_of;
use crate::github::provider::{MutationError, MutationErrorView};
use crate::json;
use crate::json::{compact_text, json_string, read_member, Decode, Entries, Json, JsonForm};
use crate::model;
use crate::model::{
    dup_range, push_item, BranchSnapshot, BranchSnapshotView, Model, PrNumber, PullRequestState,
    RepositoryId, RepositoryIdView,
};
use crate::text;
use crate::text::{blank, decimal_text, eq_ignore_case, join, signed_text, text_eq};

verus! {

pub const STACK_ACCEPT: &'static str = "Accept: application/vnd.github+json";

pub const STACK_API_VERSION: &'static str = "X-GitHub-Api-Version: 2026-03-10";

pub const STACK_SCHEMA_VERSION: u32 = 1;

/// Most entries of a Stack, and most Stacks of one inventory.
pub const STACK_LIMIT: usize = 100;

/// The base branch of a Stack.
#[derive(Debug, PartialEq, Eq)]
pub struct GitHubStackBase {
    pub ref_name: String,
}

/// The content of a [`GitHubStackBase`].
#[verifier::ext_equal]
pub struct GitHubStackBaseView {
    pub ref_name: Seq<char>,
}

impl DeepView for GitHubStackBase {
    type V = GitHubStackBaseView;

    open spec fn deep_view(&self) -> GitHubStackBaseView {
        GitHubStackBaseView {
            ref_name: self.ref_name.deep_view(),
        }
    }
}

impl Clone for GitHubStackBase {
    fn clone(&self) -> (r: Self)
        ensures
            r.deep_view() == self.deep_view(),
    {
        self.dup()
    }
}

impl Model for GitHubStackBase {
    fn same(&self, other: &Self) -> (r: bool) {
        self.ref_name.same(&other.ref_name)
    }

    fn dup(&self) -> (r: Self) {
        GitHubStackBase {
            ref_name: self.ref_name.dup(),
        }
    }
}

impl Decode for GitHubStackBase {
    open spec fn decoded(tree: Json) -> Option<GitHubStackBaseView> {
        let ref_name = json::member::<String>(tree, "ref"@);
        if tree.is_object() && ref_name is Some {
            Some(GitHubStackBaseView { ref_name: ref_name->0 })
        } else {
            None
        }
    }

    fn decode(value: &serde_json::Value) -> (r: Option<Self>) {
        if !value.is_object() {
            return None;
        }
        let ref_name = read_member::<String>(value, "ref")?;
        Some(GitHubStackBase { ref_name })
    }
}

/// The head of a Stack entry.
#[derive(Debug, PartialEq, Eq)]
pub struct GitHubStackPullRequestHead {
    pub ref_name: String,
    pub sha: String,
}

/// The content of a [`GitHubStackPullRequestHead`].
#[verifier::ext_equal]
pub struct GitHubStackPullRequestHeadView {
    pub ref_name: Seq<char>,
    pub sha: Seq<char>,
}

impl DeepView for GitHubStackPullRequestHead {
    type V = GitHubStackPullRequestHeadView;

    open spec fn deep_view(&self) -> GitHubStackPullRequestHeadView {
        GitHubStackPullRequestHeadView {
            ref_name: self.ref_name.deep_view(),
            sha: self.sha.deep_view(),
        }
    }
}

impl Clone for GitHubStackPullRequestHead {
    fn clone(&self) -> (r: Self)
        ensures
            r.deep_view() == self.deep_view(),
    {
        self.dup()
    }
}

impl Model for GitHubStackPullRequestHead {
    fn same(&self, other: &Self) -> (r: bool) {
        self.ref_name.same(&other.ref_name)
            && self.sha.same(&other.sha)
    }

    fn dup(&self) -> (r: Self) {
        GitHubStackPullRequestHead {
            ref_name: self.ref_name.dup(),
            sha: self.sha.dup(),
        }
    }
}

impl Decode for GitHubStackPullRequestHead {
    open spec fn decoded(tree: Json) -> Option<GitHubStackPullRequestHeadView> {
        let ref_name = json::member::<String>(tree, "ref"@);
        let sha = json::member::<String>(tree, "sha"@);
        if tree.is_object() && ref_name is Some && sha is Some {
            Some(GitHubStackPullRequestHeadView { ref_name: ref_name->0, sha: sha->0 })
        } else {
            None
        }
    }

    fn decode(value: &serde_json::Value) -> (r: Option<Self>) {
        if !value.is_object() {
            return None;
        }
        let ref_name = read_member::<String>(value, "ref")?;
        let sha = read_member::<String>(value, "sha")?;
        Some(GitHubStackPullRequestHead { ref_name, sha })
    }
}

/// One entry of a Stack, bottom to top.
#[derive(Debug, PartialEq, Eq)]
pub struct GitHubStackPullRequest {
    pub number: u64,
    pub state: String,
    pub draft: bool,
    pub merged_at: Option<String>,
    pub head: GitHubStackPullRequestHead,
}

/// The content of a [`GitHubStackPullRequest`].
#[verifier::ext_equal]
pub struct GitHubStackPullRequestView {
    pub number: u64,
    pub state: Seq<char>,
    pub draft: bool,
    pub merged_at: Option<Seq<char>>,
    pub head: GitHubStackPullRequestHeadView,
}

impl DeepView for GitHubStackPullRequest {
    type V = GitHubStackPullRequestView;

    open spec fn deep_view(&self) -> GitHubStackPullRequestView {
        GitHubStackPullRequestView {
            number: self.number.deep_view(),
            state: self.state.deep_view(),
            draft: self.draft.deep_view(),
            merged_at: self.merged_at.deep_view(),
            head: self.head.deep_view(),
        }
    }
}

impl Clone for GitHubStackPullRequest {
    fn clone(&self) -> (r: Self)
        ensures
            r.deep_view() == self.deep_view(),
    {
        self.dup()
    }
}

impl Model for GitHubStackPullRequest {
    fn same(&self, other: &Self) -> (r: bool) {
        self.number.same(&other.number)
            && self.state.same(&other.state)
            && self.draft.same(&other.draft)
            && self.merged_at.same(&other.merged_at)
            && self.head.same(&other.head)
    }

    fn dup(&self) -> (r: Self) {
        GitHubStackPullRequest {
            number: self.number.dup(),
            state: self.state.dup(),
            draft: self.draft.dup(),
            merged_at: self.merged_at.dup(),
            head: self.head.dup(),
        }
    }
}

impl Decode for GitHubStackPullRequest {
    open spec fn decoded(tree: Json) -> Option<GitHubStackPullRequestView> {
        let number = json::member::<u64>(tree, "number"@);
        let state = json::member::<String>(tree, "state"@);
        let draft = json::member::<bool>(tree, "draft"@);
        let merged_at = json::member::<Option<String>>(tree, "merged_at"@);
        let head = json::member::<GitHubStackPullRequestHead>(tree, "head"@);
        if tree.is_object() && number is Some && state is Some && draft is Some
            && merged_at is Some && head is Some {
            Some(GitHubStackPullRequestView {
                number: number->0,
                state: state->0,
                draft: draft->0,
                merged_at: merged_at->0,
                head: head->0,
            })
        } else {
            None
        }
    }

    fn decode(value: &serde_json::Value) -> (r: Option<Self>) {
        if !value.is_object() {
            return None;
        }
        let number = read_member::<u64>(value, "number")?;
        let state = read_member::<String>(value, "state")?;
        let draft = read_member::<bool>(value, "draft")?;
        let merged_at = read_member::<Option<String>>(value, "merged_at")?;
        let head = read_member::<GitHubStackPullRequestHead>(value, "head")?;
        Some(GitHubStackPullRequest { number, state, draft, merged_at, head })
    }
}

/// One Stack as the provider reports it.
#[derive(Debug, PartialEq, Eq)]
pub struct GitHubStackSnapshot {
    pub id: u64,
    pub number: u64,
    pub node_id: String,
    pub base: GitHubStackBase,
    pub open: bool,
    pub created_at: String,
    pub pull_requests: Vec<GitHubStackPullRequest>,
}

/// The content of a [`GitHubStackSnapshot`].
#[verifier::ext_equal]
pub struct GitHubStackSnapshotView {
    pub id: u64,
    pub number: u64,
    pub node_id: Seq<char>,
    pub base: GitHubStackBaseView,
    pub open: bool,
    pub created_at: Seq<char>,
    pub pull_requests: Seq<GitHubStackPullRequestView>,
}

impl DeepView for GitHubStackSnapshot {
    type V = GitHubStackSnapshotView;

    open spec fn deep_view(&self) -> GitHubStackSnapshotView {
        GitHubStackSnapshotView {
            id: self.id.deep_view(),
            number: self.number.deep_view(),
            node_id: self.node_id.deep_view(),
            base: self.base.deep_view(),
            open: self.open.deep_view(),
            created_at: self.created_at.deep_view(),
            pull_requests: self.pull_requests.deep_view(),
        }
    }
}

impl Clone for GitHubStackSnapshot {
    fn clone(&self) -> (r: Self)
        ensures
            r.deep_view() == self.deep_view(),
    {
        self.dup()
    }
}

impl Model for GitHubStackSnapshot {
    fn same(&self, other: &Self) -> (r: bool) {
        self.id.same(&other.id)
            && self.number.same(&other.number)
            && self.node_id.same(&other.node_id)
            && self.base.same(&other.base)
            && self.open.same(&other.open)
            && self.created_at.same(&other.created_at)
            && self.pull_requests.same(&other.pull_requests)
    }

    fn dup(&self) -> (r: Self) {
        GitHubStackSnapshot {
            id: self.id.dup(),
            number: self.number.dup(),
            node_id: self.node_id.dup(),
            base: self.base.dup(),
            open: self.open.dup(),
            created_at: self.created_at.dup(),
            pull_requests: self.pull_requests.dup(),
        }
    }
}

impl Decode for GitHubStackSnapshot {
    open spec fn decoded(tree: Json) -> Option<GitHubStackSnapshotView> {
        let id = json::member::<u64>(tree, "id"@);
        let number = json::member::<u64>(tree, "number"@);
        let node_id = json::member::<String>(tree, "node_id"@);
        let base = json::member::<GitHubStackBase>(tree, "base"@);
        let open = json::member::<bool>(tree, "open"@);
        let created_at = json::member::<String>(tree, "created_at"@);
        let pull_requests = json::member::<Vec<GitHubStackPullRequest>>(tree, "pull_requests"@);
        if tree.is_object() && id is Some && number is Some && node_id is Some && base is Some
            && open is Some && created_at is Some && pull_requests is Some {
            Some(GitHubStackSnapshotView {
                id: id->0,
                number: number->0,
                node_id: node_id->0,
                base: base->0,
                open: open->0,
                created_at: created_at->0,
                pull_requests: pull_requests->0,
            })
        } else {
            None
        }
    }

    fn decode(value: &serde_json::Value) -> (r: Option<Self>) {
        if !value.is_object() {
            return None;
        }
        let id = read_member::<u64>(value, "id")?;
        let number = read_member::<u64>(value, "number")?;
        let node_id = read_member::<String>(value, "node_id")?;
        let base = read_member::<GitHubStackBase>(value, "base")?;
        let open = read_member::<bool>(value, "open")?;
        let created_at = read_member::<String>(value, "created_at")?;
        let pull_requests = read_member::<Vec<GitHubStackPullRequest>>(value, "pull_requests")?;
        Some(GitHubStackSnapshot { id, number, node_id, base, open, created_at, pull_requests })
    }
}

/// The Stacks of a repository.
#[derive(Debug, PartialEq, Eq)]
pub struct GitHubStackInventory {
    pub stacks: Vec<GitHubStackSnapshot>,
    /// Whether there may be more.
    pub truncated: bool,
}

/// The content of a [`GitHubStackInventory`].
#[verifier::ext_equal]
pub struct GitHubStackInventoryView {
    pub stacks: Seq<GitHubStackSnapshotView>,
    pub truncated: bool,
}

impl DeepView for GitHubStackInventory {
    type V = GitHubStackInventoryView;

    open spec fn deep_view(&self) -> GitHubStackInventoryView {
        GitHubStackInventoryView {
            stacks: self.stacks.deep_view(),
            truncated: self.truncated.deep_view(),
        }
    }
}

impl Clone for GitHubStackInventory {
    fn clone(&self) -> (r: Self)
        ensures
            r.deep_view() == self.deep_view(),
    {
        self.dup()
    }
}

impl Model for GitHubStackInventory {
    fn same(&self, other: &Self) -> (r: bool) {
        self.stacks.same(&other.stacks)
            && self.truncated.same(&other.truncated)
    }

    fn dup(&self) -> (r: Self) {
        GitHubStackInventory {
            stacks: self.stacks.dup(),
            truncated: self.truncated.dup(),
        }
    }
}

/// Failure of an inventory read.
#[derive(Debug, PartialEq, Eq)]
pub enum GitHubStackReadError {
    Runner(CommandRunError),
    /// The repository has no Stacks at all.
    Unavailable {
        diagnostic: String,
    },
    CommandFailed {
        code: Option<i32>,
        stderr: String,
    },
    InvalidJson {
        message: String,
    },
}

/// The content of a [`GitHubStackReadError`].
pub enum GitHubStackReadErrorView {
    Runner(CommandRunErrorView),
    Unavailable {
        diagnostic: Seq<char>,
    },
    CommandFailed {
        code: Option<i32>,
        stderr: Seq<char>,
    },
    InvalidJson {
        message: Seq<char>,
    },
}

impl DeepView for GitHubStackReadError {
    type V = GitHubStackReadErrorView;

    open spec fn deep_view(&self) -> GitHubStackReadErrorView {
        match self {
            GitHubStackReadError::Runner(x) => GitHubStackReadErrorView::Runner(x.deep_view()),
            GitHubStackReadError::Unavailable { diagnostic } => GitHubStackReadErrorView::Unavailable {
                diagnostic: diagnostic.deep_view(),
            },
            GitHubStackReadError::CommandFailed { code, stderr } => GitHubStackReadErrorView::CommandFailed {
                code: code.deep_view(),
                stderr: stderr.deep_view(),
            },
            GitHubStackReadError::InvalidJson { message } => GitHubStackReadErrorView::InvalidJson {
                message: message.deep_view(),
            },
        }
    }
}

impl GitHubStackReadError {
    /// Another error of the same content.
    pub fn dup(&self) -> (r: Self)
        ensures
            r.deep_view() == self.deep_view(),
    {
        match self {
            GitHubStackReadError::Runner(x) => GitHubStackReadError::Runner(x.dup()),
            GitHubStackReadError::Unavailable { diagnostic } => GitHubStackReadError::Unavailable {
                diagnostic: diagnostic.dup(),
            },
            GitHubStackReadError::CommandFailed { code, stderr } => GitHubStackReadError::CommandFailed {
                code: code.dup(),
                stderr: stderr.dup(),
            },
            GitHubStackReadError::InvalidJson { message } => GitHubStackReadError::InvalidJson {
                message: message.dup(),
            },
        }
    }
}

/// One exact generation of a pull request in a Stack.
#[derive(Debug, PartialEq, Eq)]
pub struct GitHubStackEntryGeneration {
    /// Position from the bottom, from zero.
    pub position: u32,
    pub pr: PrNumber,
    /// State in the Stack, as the provider words it.
    pub stack_state: String,
    pub pull_request_state: PullRequestState,
    pub draft: bool,
    pub merged_at: Option<String>,
    pub base: BranchSnapshot,
    pub head: BranchSnapshot,
}

/// The content of a [`GitHubStackEntryGeneration`].
#[verifier::ext_equal]
pub struct GitHubStackEntryGenerationView {
    pub position: u32,
    pub pr: PrNumber,
    pub stack_state: Seq<char>,
    pub pull_request_state: PullRequestState,
    pub draft: bool,
    pub merged_at: Option<Seq<char>>,
    pub base: BranchSnapshotView,
    pub head: BranchSnapshotView,
}

impl DeepView for GitHubStackEntryGeneration {
    type V = GitHubStackEntryGenerationView;

    open spec fn deep_view(&self) -> GitHubStackEntryGenerationView {
        GitHubStackEntryGenerationView {
            position: self.position.deep_view(),
            pr: self.pr.deep_view(),
            stack_state: self.stack_state.deep_view(),
            pull_request_state: self.pull_request_state.deep_view(),
            draft: self.draft.deep_view(),
            merged_at: self.merged_at.deep_view(),
            base: self.base.deep_view(),
            head: self.head.deep_view(),
        }
    }
}

impl Clone for GitHubStackEntryGeneration {
    fn clone(&self) -> (r: Self)
        ensures
            r.deep_view() == self.deep_view(),
    {
        self.dup()
    }
}

impl Model for GitHubStackEntryGeneration {
    fn same(&self, other: &Self) -> (r: bool) {
        self.position.same(&other.position)
            && self.pr.same(&other.pr)
            && self.stack_state.same(&other.stack_state)
            && self.pull_request_state.same(&other.pull_request_state)
            && self.draft.same(&other.draft)
            && self.merged_at.same(&other.merged_at)
            && self.base.same(&other.base)
            && self.head.same(&other.head)
    }

    fn dup(&self) -> (r: Self) {
        GitHubStackEntryGeneration {
            position: self.position.dup(),
            pr: self.pr.dup(),
            stack_state: self.stack_state.dup(),
            pull_request_state: self.pull_request_state.dup(),
            draft: self.draft.dup(),
            merged_at: self.merged_at.dup(),
            base: self.base.dup(),
            head: self.head.dup(),
        }
    }
}

/// The exact order of a Stack.
#[derive(Debug, PartialEq, Eq)]
pub struct GitHubStackTopology {
    pub base: BranchSnapshot,
    pub entries: Vec<GitHubStackEntryGeneration>,
}

/// The content of a [`GitHubStackTopology`].
#[verifier::ext_equal]
pub struct GitHubStackTopologyView {
    pub base: BranchSnapshotView,
    pub entries: Seq<GitHubStackEntryGenerationView>,
}

impl DeepView for GitHubStackTopology {
    type V = GitHubStackTopologyView;

    open spec fn deep_view(&self) -> GitHubStackTopologyView {
        GitHubStackTopologyView {
            base: self.base.deep_view(),
            entries: self.entries.deep_view(),
        }
    }
}

impl Clone for GitHubStackTopology {
    fn clone(&self) -> (r: Self)
        ensures
            r.deep_view() == self.deep_view(),
    {
        self.dup()
    }
}

impl Model for GitHubStackTopology {
    fn same(&self, other: &Self) -> (r: bool) {
        self.base.same(&other.base)
            && self.entries.same(&other.entries)
    }

    fn dup(&self) -> (r: Self) {
        GitHubStackTopology {
            base: self.base.dup(),
            entries: self.entries.dup(),
        }
    }
}

/// The identity of a Stack and its exact order.
#[derive(Debug, PartialEq, Eq)]
pub struct GitHubStackGeneration {
    pub id: u64,
    pub number: u64,
    pub node_id: String,
    pub open: bool,
    pub created_at: String,
    pub topology: GitHubStackTopology,
}

/// The content of a [`GitHubStackGeneration`].
#[verifier::ext_equal]
pub struct GitHubStackGenerationView {
    pub id: u64,
    pub number: u64,
    pub node_id: Seq<char>,
    pub open: bool,
    pub created_at: Seq<char>,
    pub topology: GitHubStackTopologyView,
}

impl DeepView for GitHubStackGeneration {
    type V = GitHubStackGenerationView;

    open spec fn deep_view(&self) -> GitHubStackGenerationView {
        GitHubStackGenerationView {
            id: self.id.deep_view(),
            number: self.number.deep_view(),
            node_id: self.node_id.deep_view(),
            open: self.open.deep_view(),
            created_at: self.created_at.deep_view(),
            topology: self.topology.deep_view(),
        }
    }
}

impl Clone for GitHubStackGeneration {
    fn clone(&self) -> (r: Self)
        ensures
            r.deep_view() == self.deep_view(),
    {
        self.dup()
    }
}

impl Model for GitHubStackGeneration {
    fn same(&self, other: &Self) -> (r: bool) {
        self.id.same(&other.id)
            && self.number.same(&other.number)
            && self.node_id.same(&other.node_id)
            && self.open.same(&other.open)
            && self.created_at.same(&other.created_at)
            && self.topology.same(&other.topology)
    }

    fn dup(&self) -> (r: Self) {
        GitHubStackGeneration {
            id: self.id.dup(),
            number: self.number.dup(),
            node_id: self.node_id.dup(),
            open: self.open.dup(),
            created_at: self.created_at.dup(),
            topology: self.topology.dup(),
        }
    }
}

/// A Stack to create.
#[derive(Debug, PartialEq, Eq)]
pub struct GitHubStackCreatePlan {
    pub operation_id: String,
    pub actor: String,
    pub desired: GitHubStackTopology,
}

/// The content of a [`GitHubStackCreatePlan`].
#[verifier::ext_equal]
pub struct GitHubStackCreatePlanView {
    pub operation_id: Seq<char>,
    pub actor: Seq<char>,
    pub desired: GitHubStackTopologyView,
}

impl DeepView for GitHubStackCreatePlan {
    type V = GitHubStackCreatePlanView;

    open spec fn deep_view(&self) -> GitHubStackCreatePlanView {
        GitHubStackCreatePlanView {
            operation_id: self.operation_id.deep_view(),
            actor: self.actor.deep_view(),
            desired: self.desired.deep_view(),
        }
    }
}

impl Clone for GitHubStackCreatePlan {
    fn clone(&self) -> (r: Self)
        ensures
            r.deep_view() == self.deep_view(),
    {
        self.dup()
    }
}

impl Model for GitHubStackCreatePlan {
    fn same(&self, other: &Self) -> (r: bool) {
        self.operation_id.same(&other.operation_id)
            && self.actor.same(&other.actor)
            && self.desired.same(&other.desired)
    }

    fn dup(&self) -> (r: Self) {
        GitHubStackCreatePlan {
            operation_id: self.operation_id.dup(),
            actor: self.actor.dup(),
            desired: self.desired.dup(),
        }
    }
}

/// Entries to append to a Stack.
#[derive(Debug, PartialEq, Eq)]
pub struct GitHubStackAddPlan {
    pub operation_id: String,
    pub actor: String,
    pub before: GitHubStackGeneration,
    pub desired: GitHubStackTopology,
}

/// The content of a [`GitHubStackAddPlan`].
#[verifier::ext_equal]
pub struct GitHubStackAddPlanView {
    pub operation_id: Seq<char>,
    pub actor: Seq<char>,
    pub before: GitHubStackGenerationView,
    pub desired: GitHubStackTopologyView,
}

impl DeepView for GitHubStackAddPlan {
    type V = GitHubStackAddPlanView;

    open spec fn deep_view(&self) -> GitHubStackAddPlanView {
        GitHubStackAddPlanView {
            operation_id: self.operation_id.deep_view(),
            actor: self.actor.deep_view(),
            before: self.before.deep_view(),
            desired: self.desired.deep_view(),
        }
    }
}

impl Clone for GitHubStackAddPlan {
    fn clone(&self) -> (r: Self)
        ensures
            r.deep_view() == self.deep_view(),
    {
        self.dup()
    }
}

impl Model for GitHubStackAddPlan {
    fn same(&self, other: &Self) -> (r: bool) {
        self.operation_id.same(&other.operation_id)
            && self.actor.same(&other.actor)
            && self.before.same(&other.before)
            && self.desired.same(&other.desired)
    }

    fn dup(&self) -> (r: Self) {
        GitHubStackAddPlan {
            operation_id: self.operation_id.dup(),
            actor: self.actor.dup(),
            before: self.before.dup(),
            desired: self.desired.dup(),
        }
    }
}

/// A Stack to take apart.
#[derive(Debug, PartialEq, Eq)]
pub struct GitHubStackUnstackPlan {
    pub operation_id: String,
    pub actor: String,
    pub before: GitHubStackGeneration,
    /// What must be left; none means that the Stack must be gone.
    pub desired_after: Option<GitHubStackTopology>,
}

/// The content of a [`GitHubStackUnstackPlan`].
#[verifier::ext_equal]
pub struct GitHubStackUnstackPlanView {
    pub operation_id: Seq<char>,
    pub actor: Seq<char>,
    pub before: GitHubStackGenerationView,
    pub desired_after: Option<GitHubStackTopologyView>,
}

impl DeepView for GitHubStackUnstackPlan {
    type V = GitHubStackUnstackPlanView;

    open spec fn deep_view(&self) -> GitHubStackUnstackPlanView {
        GitHubStackUnstackPlanView {
            operation_id: self.operation_id.deep_view(),
            actor: self.actor.deep_view(),
            before: self.before.deep_view(),
            desired_after: self.desired_after.deep_view(),
        }
    }
}

impl Clone for GitHubStackUnstackPlan {
    fn clone(&self) -> (r: Self)
        ensures
            r.deep_view() == self.deep_view(),
    {
        self.dup()
    }
}

impl Model for GitHubStackUnstackPlan {
    fn same(&self, other: &Self) -> (r: bool) {
        self.operation_id.same(&other.operation_id)
            && self.actor.same(&other.actor)
            && self.before.same(&other.before)
            && self.desired_after.same(&other.desired_after)
    }

    fn dup(&self) -> (r: Self) {
        GitHubStackUnstackPlan {
            operation_id: self.operation_id.dup(),
            actor: self.actor.dup(),
            before: self.before.dup(),
            desired_after: self.desired_after.dup(),
        }
    }
}

/// One operation on a Stack.
#[derive(Debug, Clone, Copy, PartialEq, Eq, PartialOrd, Ord, Structural)]
pub enum GitHubStackMutationOperation {
    Create,
    Add,
    Unstack,
}

impl DeepView for GitHubStackMutationOperation {
    type V = GitHubStackMutationOperation;

    open spec fn deep_view(&self) -> GitHubStackMutationOperation {
        *self
    }
}

impl Model for GitHubStackMutationOperation {
    fn same(&self, other: &Self) -> (r: bool) {
        *self == *other
    }

    fn dup(&self) -> (r: Self) {
        *self
    }
}

/// How a postcondition came about.
#[derive(Debug, Clone, Copy, PartialEq, Eq, PartialOrd, Ord, Structural)]
pub enum GitHubStackMutationDisposition {
    Completed,
    /// The response failed or was lost, and a fresh read proves the whole
    /// postcondition.
    RecoveredAfterAmbiguousResponse,
    AlreadySatisfied,
}

impl DeepView for GitHubStackMutationDisposition {
    type V = GitHubStackMutationDisposition;

    open spec fn deep_view(&self) -> GitHubStackMutationDisposition {
        *self
    }
}

impl Model for GitHubStackMutationDisposition {
    fn same(&self, other: &Self) -> (r: bool) {
        *self == *other
    }

    fn dup(&self) -> (r: Self) {
        *self
    }
}

/// The identity of a request, kept even if its response is lost.
#[derive(Debug, PartialEq, Eq)]
pub struct GitHubStackRequestIdentity {
    pub method: String,
    pub path: String,
    pub ordered_pull_requests: Vec<PrNumber>,
    pub github_request_id: Option<String>,
}

/// The content of a [`GitHubStackRequestIdentity`].
#[verifier::ext_equal]
pub struct GitHubStackRequestIdentityView {
    pub method: Seq<char>,
    pub path: Seq<char>,
    pub ordered_pull_requests: Seq<PrNumber>,
    pub github_request_id: Option<Seq<char>>,
}

impl DeepView for GitHubStackRequestIdentity {
    type V = GitHubStackRequestIdentityView;

    open spec fn deep_view(&self) -> GitHubStackRequestIdentityView {
        GitHubStackRequestIdentityView {
            method: self.method.deep_view(),
            path: self.path.deep_view(),
            ordered_pull_requests: self.ordered_pull_requests.deep_view(),
            github_request_id: self.github_request_id.deep_view(),
        }
    }
}

impl Clone for GitHubStackRequestIdentity {
    fn clone(&self) -> (r: Self)
        ensures
            r.deep_view() == self.deep_view(),
    {
        self.dup()
    }
}

impl Model for GitHubStackRequestIdentity {
    fn same(&self, other: &Self) -> (r: bool) {
        self.method.same(&other.method)
            && self.path.same(&other.path)
            && self.ordered_pull_requests.same(&other.ordered_pull_requests)
            && self.github_request_id.same(&other.github_request_id)
    }

    fn dup(&self) -> (r: Self) {
        GitHubStackRequestIdentity {
            method: self.method.dup(),
            path: self.path.dup(),
            ordered_pull_requests: self.ordered_pull_requests.dup(),
            github_request_id: self.github_request_id.dup(),
        }
    }
}

/// The sealed receipt of one operation on a Stack.
#[derive(Debug, PartialEq, Eq)]
pub struct GitHubStackMutationReceipt {
    pub schema_version: u32,
    pub operation_id: String,
    pub operation: GitHubStackMutationOperation,
    pub repository: RepositoryId,
    pub actor: String,
    pub disposition: GitHubStackMutationDisposition,
    pub request: GitHubStackRequestIdentity,
    pub before: Option<GitHubStackGeneration>,
    pub after: Option<GitHubStackGeneration>,
    pub provider_output: Option<String>,
    pub evidence_hash: String,
}

/// The content of a [`GitHubStackMutationReceipt`].
#[verifier::ext_equal]
pub struct GitHubStackMutationReceiptView {
    pub schema_version: u32,
    pub operation_id: Seq<char>,
    pub operation: GitHubStackMutationOperation,
    pub repository: RepositoryIdView,
    pub actor: Seq<char>,
    pub disposition: GitHubStackMutationDisposition,
    pub request: GitHubStackRequestIdentityView,
    pub before: Option<GitHubStackGenerationView>,
    pub after: Option<GitHubStackGenerationView>,
    pub provider_output: Option<Seq<char>>,
    pub evidence_hash: Seq<char>,
}

impl DeepView for GitHubStackMutationReceipt {
    type V = GitHubStackMutationReceiptView;

    open spec fn deep_view(&self) -> GitHubStackMutationReceiptView {
        GitHubStackMutationReceiptView {
            schema_version: self.schema_version.deep_view(),
            operation_id: self.operation_id.deep_view(),
            operation: self.operation.deep_view(),
            repository: self.repository.deep_view(),
            actor: self.actor.deep_view(),
            disposition: self.disposition.deep_view(),
            request: self.request.deep_view(),
            before: self.before.deep_view(),
            after: self.after.deep_view(),
            provider_output: self.provider_output.deep_view(),
            evidence_hash: self.evidence_hash.deep_view(),
        }
    }
}

impl Clone for GitHubStackMutationReceipt {
    fn clone(&self) -> (r: Self)
        ensures
            r.deep_view() == self.deep_view(),
    {
        self.dup()
    }
}

impl Model for GitHubStackMutationReceipt {
    fn same(&self, other: &Self) -> (r: bool) {
        self.schema_version.same(&other.schema_version)
            && self.operation_id.same(&other.operation_id)
            && self.operation.same(&other.operation)
            && self.repository.same(&other.repository)
            && self.actor.same(&other.actor)
            && self.disposition.same(&other.disposition)
            && self.request.same(&other.request)
            && self.before.same(&other.before)
            && self.after.same(&other.after)
            && self.provider_output.same(&other.provider_output)
            && self.evidence_hash.same(&other.evidence_hash)
    }

    fn dup(&self) -> (r: Self) {
        GitHubStackMutationReceipt {
            schema_version: self.schema_version.dup(),
            operation_id: self.operation_id.dup(),
            operation: self.operation.dup(),
            repository: self.repository.dup(),
            actor: self.actor.dup(),
            disposition: self.disposition.dup(),
            request: self.request.dup(),
            before: self.before.dup(),
            after: self.after.dup(),
            provider_output: self.provider_output.dup(),
            evidence_hash: self.evidence_hash.dup(),
        }
    }
}

/// Refusal of an operation on a Stack.
#[derive(Debug, PartialEq, Eq)]
pub enum GitHubStackMutationError {
    InvalidPlan {
        code: String,
        message: String,
    },
    Unavailable {
        diagnostic: String,
    },
    CapabilityUnknown {
        diagnostic: String,
    },
    Provider(MutationError),
    InventoryTruncated,
    InconsistentProviderState {
        diagnostic: String,
    },
    StaleGeneration {
        expected: Box<GitHubStackTopology>,
        actual: Option<Box<GitHubStackGeneration>>,
        changed_fields: Vec<String>,
    },
    AmbiguousResponse {
        operation: GitHubStackMutationOperation,
        diagnostic: String,
        rediscovery_diagnostic: Option<String>,
        observed: Option<Box<GitHubStackGeneration>>,
    },
    PostconditionFailed {
        operation: GitHubStackMutationOperation,
        expected: Option<Box<GitHubStackTopology>>,
        actual: Option<Box<GitHubStackGeneration>>,
    },
}

/// The content of a [`GitHubStackMutationError`].
pub enum GitHubStackMutationErrorView {
    InvalidPlan {
        code: Seq<char>,
        message: Seq<char>,
    },
    Unavailable {
        diagnostic: Seq<char>,
    },
    CapabilityUnknown {
        diagnostic: Seq<char>,
    },
    Provider(MutationErrorView),
    InventoryTruncated,
    InconsistentProviderState {
        diagnostic: Seq<char>,
    },
    StaleGeneration {
        expected: GitHubStackTopologyView,
        actual: Option<GitHubStackGenerationView>,
        changed_fields: Seq<Seq<char>>,
    },
    AmbiguousResponse {
        operation: GitHubStackMutationOperation,
        diagnostic: Seq<char>,
        rediscovery_diagnostic: Option<Seq<char>>,
        observed: Option<GitHubStackGenerationView>,
    },
    PostconditionFailed {
        operation: GitHubStackMutationOperation,
        expected: Option<GitHubStackTopologyView>,
        actual: Option<GitHubStackGenerationView>,
    },
}

impl DeepView for GitHubStackMutationError {
    type V = GitHubStackMutationErrorView;

    open spec fn deep_view(&self) -> GitHubStackMutationErrorView {
        match self {
            GitHubStackMutationError::InvalidPlan { code, message } => GitHubStackMutationErrorView::InvalidPlan {
                code: code.deep_view(),
                message: message.deep_view(),
            },
            GitHubStackMutationError::Unavailable { diagnostic } => GitHubStackMutationErrorView::Unavailable {
                diagnostic: diagnostic.deep_view(),
            },
            GitHubStackMutationError::CapabilityUnknown { diagnostic } => GitHubStackMutationErrorView::CapabilityUnknown {
                diagnostic: diagnostic.deep_view(),
            },
            GitHubStackMutationError::Provider(x) => GitHubStackMutationErrorView::Provider(
                x.deep_view(),
            ),
            GitHubStackMutationError::InventoryTruncated => GitHubStackMutationErrorView::InventoryTruncated,
            GitHubStackMutationError::InconsistentProviderState { diagnostic } => GitHubStackMutationErrorView::InconsistentProviderState {
                diagnostic: diagnostic.deep_view(),
            },
            GitHubStackMutationError::StaleGeneration {
                expected,
                actual,
                changed_fields,
            } => GitHubStackMutationErrorView::StaleGeneration {
                expected: expected.deep_view(),
                actual: actual.deep_view(),
                changed_fields: changed_fields.deep_view(),
            },
            GitHubStackMutationError::AmbiguousResponse {
                operation,
                diagnostic,
                rediscovery_diagnostic,
                observed,
            } => GitHubStackMutationErrorView::AmbiguousResponse {
                operation: operation.deep_view(),
                diagnostic: diagnostic.deep_view(),
                rediscovery_diagnostic: rediscovery_diagnostic.deep_view(),
                observed: observed.deep_view(),
            },
            GitHubStackMutationError::PostconditionFailed {
                operation,
                expected,
                actual,
            } => GitHubStackMutationErrorView::PostconditionFailed {
                operation: operation.deep_view(),
                expected: expected.deep_view(),
                actual: actual.deep_view(),
            },
        }
    }
}

impl GitHubStackMutationError {
    /// Another error of the same content.
    pub fn dup(&self) -> (r: Self)
        ensures
            r.deep_view() == self.deep_view(),
    {
        match self {
            GitHubStackMutationError::InvalidPlan { code, message } => GitHubStackMutationError::InvalidPlan {
                code: code.dup(),
                message: message.dup(),
            },
            GitHubStackMutationError::Unavailable { diagnostic } => GitHubStackMutationError::Unavailable {
                diagnostic: diagnostic.dup(),
            },
            GitHubStackMutationError::CapabilityUnknown { diagnostic } => GitHubStackMutationError::CapabilityUnknown {
                diagnostic: diagnostic.dup(),
            },
            GitHubStackMutationError::Provider(x) => GitHubStackMutationError::Provider(x.dup()),
            GitHubStackMutationError::InventoryTruncated => GitHubStackMutationError::InventoryTruncated,
            GitHubStackMutationError::InconsistentProviderState { diagnostic } => GitHubStackMutationError::InconsistentProviderState {
                diagnostic: diagnostic.dup(),
            },
            GitHubStackMutationError::StaleGeneration {
                expected,
                actual,
                changed_fields,
            } => GitHubStackMutationError::StaleGeneration {
                expected: expected.dup(),
                actual: actual.dup(),
                changed_fields: changed_fields.dup(),
            },
            GitHubStackMutationError::AmbiguousResponse {
                operation,
                diagnostic,
                rediscovery_diagnostic,
                observed,
            } => GitHubStackMutationError::AmbiguousResponse {
                operation: operation.dup(),
                diagnostic: diagnostic.dup(),
                rediscovery_diagnostic: rediscovery_diagnostic.dup(),
                observed: observed.dup(),
            },
            GitHubStackMutationError::PostconditionFailed {
                operation,
                expected,
                actual,
            } => GitHubStackMutationError::PostconditionFailed {
                operation: operation.dup(),
                expected: expected.dup(),
                actual: actual.dup(),
            },
        }
    }
}

impl JsonForm for GitHubStackEntryGeneration {
    open spec fn form(content: GitHubStackEntryGenerationView) -> Json {
        let e = json::no_entries();
        let e = json::entry(e, "position"@, <u32 as JsonForm>::form(content.position));
        let e = json::entry(e, "pr"@, <PrNumber as JsonForm>::form(content.pr));
        let e = json::entry(e, "stack_state"@, <String as JsonForm>::form(content.stack_state));
        let e = json::entry(
            e,
            "pull_request_state"@,
            <PullRequestState as JsonForm>::form(content.pull_request_state),
        );
        let e = json::entry(e, "draft"@, <bool as JsonForm>::form(content.draft));
        let e = json::entry_unless_null(
            e,
            "merged_at"@,
            <Option<String> as JsonForm>::form(content.merged_at),
        );
        let e = json::entry(e, "base"@, <BranchSnapshot as JsonForm>::form(content.base));
        let e = json::entry(e, "head"@, <BranchSnapshot as JsonForm>::form(content.head));
        json::object_of(e)
    }

    fn to_json(&self) -> (r: serde_json::Value) {
        Entries::new()
            .with("position", self.position.to_json())
            .with("pr", self.pr.to_json())
            .with("stack_state", self.stack_state.to_json())
            .with("pull_request_state", self.pull_request_state.to_json())
            .with("draft", self.draft.to_json())
            .with_unless_null("merged_at", self.merged_at.to_json())
            .with("base", self.base.to_json())
            .with("head", self.head.to_json())
            .object()
    }
}

impl JsonForm for GitHubStackTopology {
    open spec fn form(content: GitHubStackTopologyView) -> Json {
        let e = json::no_entries();
        let e = json::entry(e, "base"@, <BranchSnapshot as JsonForm>::form(content.base));
        let e = json::entry(
            e,
            "entries"@,
            <Vec<GitHubStackEntryGeneration> as JsonForm>::form(content.entries),
        );
        json::object_of(e)
    }

    fn to_json(&self) -> (r: serde_json::Value) {
        Entries::new()
            .with("base", self.base.to_json())
            .with("entries", self.entries.to_json())
            .object()
    }
}

impl JsonForm for GitHubStackGeneration {
    open spec fn form(content: GitHubStackGenerationView) -> Json {
        let e = json::no_entries();
        let e = json::entry(e, "id"@, <u64 as JsonForm>::form(content.id));
        let e = json::entry(e, "number"@, <u64 as JsonForm>::form(content.number));
        let e = json::entry(e, "node_id"@, <String as JsonForm>::form(content.node_id));
        let e = json::entry(e, "open"@, <bool as JsonForm>::form(content.open));
        let e = json::entry(e, "created_at"@, <String as JsonForm>::form(content.created_at));
        let e = json::entry(
            e,
            "topology"@,
            <GitHubStackTopology as JsonForm>::form(content.topology),
        );
        json::object_of(e)
    }

    fn to_json(&self) -> (r: serde_json::Value) {
        Entries::new()
            .with("id", self.id.to_json())
            .with("number", self.number.to_json())
            .with("node_id", self.node_id.to_json())
            .with("open", self.open.to_json())
            .with("created_at", self.created_at.to_json())
            .with("topology", self.topology.to_json())
            .object()
    }
}

impl JsonForm for GitHubStackMutationOperation {
    open spec fn form(content: GitHubStackMutationOperation) -> Json {
        match content {
            GitHubStackMutationOperation::Create => Json::Text("create"@),
            GitHubStackMutationOperation::Add => Json::Text("add"@),
            GitHubStackMutationOperation::Unstack => Json::Text("unstack"@),
        }
    }

    fn to_json(&self) -> (r: serde_json::Value) {
        match self {
            GitHubStackMutationOperation::Create => json_string("create"),
            GitHubStackMutationOperation::Add => json_string("add"),
            GitHubStackMutationOperation::Unstack => json_string("unstack"),
        }
    }
}

impl JsonForm for GitHubStackMutationDisposition {
    open spec fn form(content: GitHubStackMutationDisposition) -> Json {
        match content {
            GitHubStackMutationDisposition::Completed => Json::Text("completed"@),
            GitHubStackMutationDisposition::RecoveredAfterAmbiguousResponse => Json::Text(
                "recovered_after_ambiguous_response"@,
            ),
            GitHubStackMutationDisposition::AlreadySatisfied => Json::Text("already_satisfied"@),
        }
    }

    fn to_json(&self) -> (r: serde_json::Value) {
        match self {
            GitHubStackMutationDisposition::Completed => json_string("completed"),
            GitHubStackMutationDisposition::RecoveredAfterAmbiguousResponse => json_string(
                "recovered_after_ambiguous_response",
            ),
            GitHubStackMutationDisposition::AlreadySatisfied => json_string("already_satisfied"),
        }
    }
}

impl JsonForm for GitHubStackRequestIdentity {
    open spec fn form(content: GitHubStackRequestIdentityView) -> Json {
        let e = json::no_entries();
        let e = json::entry(e, "method"@, <String as JsonForm>::form(content.method));
        let e = json::entry(e, "path"@, <String as JsonForm>::form(content.path));
        let e = json::entry(
            e,
            "ordered_pull_requests"@,
            <Vec<PrNumber> as JsonForm>::form(content.ordered_pull_requests),
        );
        let e = json::entry_unless_null(
            e,
            "github_request_id"@,
            <Option<String> as JsonForm>::form(content.github_request_id),
        );
        json::object_of(e)
    }

    fn to_json(&self) -> (r: serde_json::Value) {
        Entries::new()
            .with("method", self.method.to_json())
            .with("path", self.path.to_json())
            .with("ordered_pull_requests", self.ordered_pull_requests.to_json())
            .with_unless_null("github_request_id", self.github_request_id.to_json())
            .object()
    }
}

impl JsonForm for GitHubStackMutationReceipt {
    open spec fn form(content: GitHubStackMutationReceiptView) -> Json {
        let e = json::no_entries();
        let e = json::entry(e, "schema_version"@, <u32 as JsonForm>::form(content.schema_version));
        let e = json::entry(e, "operation_id"@, <String as JsonForm>::form(content.operation_id));
        let e = json::entry(
            e,
            "operation"@,
            <GitHubStackMutationOperation as JsonForm>::form(content.operation),
        );
        let e = json::entry(e, "repository"@, <RepositoryId as JsonForm>::form(content.repository));
        let e = json::entry(e, "actor"@, <String as JsonForm>::form(content.actor));
        let e = json::entry(
            e,
            "disposition"@,
            <GitHubStackMutationDisposition as JsonForm>::form(content.disposition),
        );
        let e = json::entry(
            e,
            "request"@,
            <GitHubStackRequestIdentity as JsonForm>::form(content.request),
        );
        let e = json::entry_unless_null(
            e,
            "before"@,
            <Option<GitHubStackGeneration> as JsonForm>::form(content.before),
        );
        let e = json::entry_unless_null(
            e,
            "after"@,
            <Option<GitHubStackGeneration> as JsonForm>::form(content.after),
        );
        let e = json::entry_unless_null(
            e,
            "provider_output"@,
            <Option<String> as JsonForm>::form(content.provider_output),
        );
        let e = json::entry(e, "evidence_hash"@, <String as JsonForm>::form(content.evidence_hash));
        json::object_of(e)
    }

    fn to_json(&self) -> (r: serde_json::Value) {
        Entries::new()
            .with("schema_version", self.schema_version.to_json())
            .with("operation_id", self.operation_id.to_json())
            .with("operation", self.operation.to_json())
            .with("repository", self.repository.to_json())
            .with("actor", self.actor.to_json())
            .with("disposition", self.disposition.to_json())
            .with("request", self.request.to_json())
            .with_unless_null("before", self.before.to_json())
            .with_unless_null("after", self.after.to_json())
            .with_unless_null("provider_output", self.provider_output.to_json())
            .with("evidence_hash", self.evidence_hash.to_json())
            .object()
    }
}

// ---------------------------------------------------------------------------
// Seals
// ---------------------------------------------------------------------------

impl GitHubStackMutationReceiptView {
    /// The receipt without its hash.
    pub open spec fn unsealed(self) -> GitHubStackMutationReceiptView {
        GitHubStackMutationReceiptView { evidence_hash: Seq::empty(), ..self }
    }

    /// The receipt with the hash of everything else in it.
    pub open spec fn sealed(self) -> GitHubStackMutationReceiptView {
        GitHubStackMutationReceiptView {
            evidence_hash: evidence::tree_hash(
                <GitHubStackMutationReceipt as JsonForm>::form(self.unsealed()),
            ),
            ..self
        }
    }

    /// Whether the hash is that of everything else.
    pub open spec fn intact(self) -> bool {
        self == self.sealed()
    }
}

impl GitHubStackMutationReceipt {
    /// The receipt with the hash of everything else in it.
    pub fn seal(self) -> (r: Self)
        ensures
            r.deep_view() == self.deep_view().sealed(),
    {
        let mut out = self.dup();
        out.evidence_hash = String::new();
        assert(out.deep_view() =~= self.deep_view().unsealed());
        let hash = hash_of(&out.to_json());
        out.evidence_hash = hash;
        out
    }

    /// Whether the hash is that of everything else.
    pub fn verify(&self) -> (r: bool)
        ensures
            r == self.deep_view().intact(),
    {
        let mut material = self.dup();
        material.evidence_hash = String::new();
        assert(material.deep_view() =~= self.deep_view().unsealed());
        let hash = hash_of(&material.to_json());
        let r = text_eq(hash.as_str(), self.evidence_hash.as_str());
        assert(r ==> self.deep_view() =~= self.deep_view().sealed());
        r
    }
}

/// A sealed receipt is intact, and sealing changes nothing but the hash.
pub proof fn lemma_sealed_receipt_is_intact(receipt: GitHubStackMutationReceiptView)
    ensures
        receipt.sealed().intact(),
        receipt.sealed().unsealed() == receipt.unsealed(),
{
    assert(receipt.sealed().unsealed() =~= receipt.unsealed());
    assert(receipt.sealed().sealed() =~= receipt.sealed());
}

// ---------------------------------------------------------------------------
// Messages
// ---------------------------------------------------------------------------

/// An exit status as a debug text.
pub open spec fn debug_code(code: Option<i32>) -> Seq<char> {
    match code {
        Some(n) => "Some("@ + text::signed_decimal(n as int) + ")"@,
        None => "None"@,
    }
}

pub fn show_debug_code(code: &Option<i32>) -> (r: String)
    ensures
        r@ == debug_code(code.deep_view()),
{
    match code {
        Some(n) => "Some(".to_owned().concat(signed_text(*n).as_str()).concat(")"),
        None => "None".to_owned(),
    }
}

/// The name of a state.
pub open spec fn state_name(state: PullRequestState) -> Seq<char> {
    match state {
        PullRequestState::Open => "Open"@,
        PullRequestState::Closed => "Closed"@,
        PullRequestState::Merged => "Merged"@,
    }
}

pub fn show_state(state: PullRequestState) -> (r: String)
    ensures
        r@ == state_name(state),
{
    match state {
        PullRequestState::Open => "Open".to_owned(),
        PullRequestState::Closed => "Closed".to_owned(),
        PullRequestState::Merged => "Merged".to_owned(),
    }
}

/// The name of an operation.
pub open spec fn operation_name(operation: GitHubStackMutationOperation) -> Seq<char> {
    match operation {
        GitHubStackMutationOperation::Create => "Create"@,
        GitHubStackMutationOperation::Add => "Add"@,
        GitHubStackMutationOperation::Unstack => "Unstack"@,
    }
}

fn show_operation(operation: GitHubStackMutationOperation) -> (r: String)
    ensures
        r@ == operation_name(operation),
{
    match operation {
        GitHubStackMutationOperation::Create => "Create".to_owned(),
        GitHubStackMutationOperation::Add => "Add".to_owned(),
        GitHubStackMutationOperation::Unstack => "Unstack".to_owned(),
    }
}

impl GitHubStackReadErrorView {
    /// The message of the error.
    pub open spec fn message(self) -> Seq<char> {
        match self {
            GitHubStackReadErrorView::Runner(error) => error.message(),
            GitHubStackReadErrorView::Unavailable { diagnostic } =>
                "GitHub native Stacks are unavailable: "@ + diagnostic,
            GitHubStackReadErrorView::CommandFailed { code, stderr } => "Stack inventory exited "@
                + debug_code(code) + ": "@ + stderr,
            GitHubStackReadErrorView::InvalidJson { message } => "invalid Stack inventory JSON: "@
                + message,
        }
    }
}

impl GitHubStackReadError {
    /// The message of the error.
    pub fn to_text(&self) -> (r: String)
        ensures
            r@ == self.deep_view().message(),
    {
        match self {
            GitHubStackReadError::Runner(error) => error.to_text(),
            GitHubStackReadError::Unavailable { diagnostic } =>
                "GitHub native Stacks are unavailable: ".to_owned().concat(diagnostic.as_str()),
            GitHubStackReadError::CommandFailed { code, stderr } =>
                "Stack inventory exited ".to_owned().concat(show_debug_code(code).as_str()).concat(
                    ": ",
                ).concat(stderr.as_str()),
            GitHubStackReadError::InvalidJson { message } =>
                "invalid Stack inventory JSON: ".to_owned().concat(message.as_str()),
        }
    }
}

impl GitHubStackMutationErrorView {
    /// The message of the error.
    pub open spec fn message(self) -> Seq<char> {
        match self {
            GitHubStackMutationErrorView::InvalidPlan { code, message } => code + ": "@ + message,
            GitHubStackMutationErrorView::Unavailable { diagnostic } =>
                "GitHub native Stacks are unavailable: "@ + diagnostic,
            GitHubStackMutationErrorView::CapabilityUnknown { diagnostic } =>
                "GitHub Stack capability is unknown: "@ + diagnostic,
            GitHubStackMutationErrorView::Provider(error) => error.message(),
            GitHubStackMutationErrorView::InventoryTruncated =>
                "GitHub Stack inventory is truncated; exact absence cannot be proven"@,
            GitHubStackMutationErrorView::InconsistentProviderState { diagnostic } =>
                "inconsistent GitHub Stack state: "@ + diagnostic,
            GitHubStackMutationErrorView::StaleGeneration { changed_fields, .. } =>
                "GitHub Stack generation changed: "@ + text::joined(changed_fields, ", "@),
            GitHubStackMutationErrorView::AmbiguousResponse { operation, diagnostic, .. } =>
                "GitHub Stack "@ + operation_name(operation) + " response is ambiguous: "@
                    + diagnostic,
            GitHubStackMutationErrorView::PostconditionFailed { operation, .. } =>
                "GitHub Stack "@ + operation_name(operation)
                    + " returned without the exact requested postcondition"@,
        }
    }
}

impl GitHubStackMutationError {
    /// The message of the error.
    pub fn to_text(&self) -> (r: String)
        ensures
            r@ == self.deep_view().message(),
    {
        match self {
            GitHubStackMutationError::InvalidPlan { code, message } => code.dup().concat(
                ": ",
            ).concat(message.as_str()),
            GitHubStackMutationError::Unavailable { diagnostic } =>
                "GitHub native Stacks are unavailable: ".to_owned().concat(diagnostic.as_str()),
            GitHubStackMutationError::CapabilityUnknown { diagnostic } =>
                "GitHub Stack capability is unknown: ".to_owned().concat(diagnostic.as_str()),
            GitHubStackMutationError::Provider(error) => error.to_text(),
            GitHubStackMutationError::InventoryTruncated =>
                "GitHub Stack inventory is truncated; exact absence cannot be proven".to_owned(),
            GitHubStackMutationError::InconsistentProviderState { diagnostic } =>
                "inconsistent GitHub Stack state: ".to_owned().concat(diagnostic.as_str()),
            GitHubStackMutationError::StaleGeneration { changed_fields, .. } =>
                "GitHub Stack generation changed: ".to_owned().concat(
                    join(changed_fields, ", ").as_str(),
                ),
            GitHubStackMutationError::AmbiguousResponse { operation, diagnostic, .. } =>
                "GitHub Stack ".to_owned().concat(show_operation(*operation).as_str()).concat(
                    " response is ambiguous: ",
                ).concat(diagnostic.as_str()),
            GitHubStackMutationError::PostconditionFailed { operation, .. } =>
                "GitHub Stack ".to_owned().concat(show_operation(*operation).as_str()).concat(
                    " returned without the exact requested postcondition",
                ),
        }
    }
}

/// The content of an outcome.
pub open spec fn stack_view<T: DeepView>(outcome: Result<T, GitHubStackMutationError>) -> Result<
    T::V,
    GitHubStackMutationErrorView,
> {
    match outcome {
        Ok(value) => Ok(value.deep_view()),
        Err(error) => Err(error.deep_view()),
    }
}

// ---------------------------------------------------------------------------
// Valid topologies
// ---------------------------------------------------------------------------

/// A plan that is refused.
pub open spec fn refused(code: Seq<char>, message: Seq<char>) -> GitHubStackMutationErrorView {
    GitHubStackMutationErrorView::InvalidPlan { code, message }
}

/// A plan that is refused.
pub fn invalid_plan(code: &str, message: &str) -> (r: GitHubStackMutationError)
    ensures
        r.deep_view() == refused(code@, message@),
{
    GitHubStackMutationError::InvalidPlan { code: code.to_owned(), message: message.to_owned() }
}

/// The branch that the next open entry must stand on: the head of the open
/// entry below, or the base of the Stack. After a merged prefix the first open
/// entry stands on the base again.
pub open spec fn open_base(
    base: BranchSnapshotView,
    entries: Seq<GitHubStackEntryGenerationView>,
) -> BranchSnapshotView {
    if entries.len() > 0 && entries.last().pull_request_state == PullRequestState::Open {
        entries.last().head
    } else {
        base
    }
}

/// Whether an entry is open.
pub open spec fn is_open(entry: GitHubStackEntryGenerationView) -> bool {
    entry.pull_request_state == PullRequestState::Open
}

/// Whether a pull request stands among entries.
pub open spec fn listed(entries: Seq<GitHubStackEntryGenerationView>, pr: PrNumber) -> bool {
    exists|i: int| 0 <= i < entries.len() && (#[trigger] entries[i]).pr == pr
}

/// Why one more entry does not fit on top of entries.
pub open spec fn entry_refusal(
    repository: RepositoryIdView,
    base: BranchSnapshotView,
    below: Seq<GitHubStackEntryGenerationView>,
    entry: GitHubStackEntryGenerationView,
) -> Option<GitHubStackMutationErrorView> {
    if entry.position != below.len() {
        Some(
            refused(
                "github_stack_position_invalid"@,
                "Stack positions must be contiguous and zero-based"@,
            ),
        )
    } else if listed(below, entry.pr) {
        Some(
            refused(
                "github_stack_duplicate_pr"@,
                "A pull request may appear only once in a Stack"@,
            ),
        )
    } else if entry.base.repository != repository || entry.head.repository != repository {
        Some(
            refused(
                "github_stack_repository_mismatch"@,
                "Stack entries must use same-repository base and head branches"@,
            ),
        )
    } else if is_open(entry) {
        if entry.base != open_base(base, below) {
            Some(
                refused(
                    "github_stack_base_chain_invalid"@,
                    "open PR #"@ + model::pr_text(entry.pr)
                        + " does not target the exact previous open generation"@,
                ),
            )
        } else {
            None
        }
    } else if below.len() > 0 && is_open(below.last()) {
        Some(
            refused(
                "github_stack_state_order_invalid"@,
                "closed or merged Stack entries may only precede the open suffix"@,
            ),
        )
    } else {
        None
    }
}

/// Why entries do not stand on each other: the lowest one that does not fit.
pub open spec fn entries_refusal(
    repository: RepositoryIdView,
    base: BranchSnapshotView,
    entries: Seq<GitHubStackEntryGenerationView>,
) -> Option<GitHubStackMutationErrorView>
    decreases entries.len(),
{
    if entries.len() == 0 {
        None
    } else {
        match entries_refusal(repository, base, entries.drop_last()) {
            Some(error) => Some(error),
            None => entry_refusal(repository, base, entries.drop_last(), entries.last()),
        }
    }
}

/// Why a topology is not valid.
pub open spec fn topology_refusal(
    repository: RepositoryIdView,
    topology: GitHubStackTopologyView,
    minimum: usize,
) -> Option<GitHubStackMutationErrorView> {
    if topology.entries.len() < minimum || topology.entries.len() > STACK_LIMIT {
        Some(
            refused(
                "github_stack_size_invalid"@,
                "Stack requires "@ + text::decimal(minimum as nat) + "..=100 entries, observed "@
                    + text::decimal(topology.entries.len()),
            ),
        )
    } else if topology.base.repository != repository {
        Some(
            refused(
                "github_stack_repository_mismatch"@,
                "Stack base belongs to another repository"@,
            ),
        )
    } else {
        entries_refusal(repository, topology.base, topology.entries)
    }
}

/// The content of a refusal.
pub open spec fn refusal_view(refusal: Option<GitHubStackMutationError>) -> Option<
    GitHubStackMutationErrorView,
> {
    match refusal {
        Some(error) => Some(error.deep_view()),
        None => None,
    }
}

/// A refusal as an outcome.
pub open spec fn unless(refusal: Option<GitHubStackMutationErrorView>) -> Result<
    (),
    GitHubStackMutationErrorView,
> {
    match refusal {
        Some(error) => Err(error),
        None => Ok(()),
    }
}

fn stands_below(entries: &Vec<GitHubStackEntryGeneration>, to: usize, pr: PrNumber) -> (r: bool)
    requires
        to <= entries.len(),
    ensures
        r == listed(entries.deep_view().take(to as int), pr),
{
    let ghost below = entries.deep_view().take(to as int);
    let mut i: usize = 0;
    while i < to
        invariant
            to <= entries.len(),
            below == entries.deep_view().take(to as int),
            i <= to,
            forall|j: int| 0 <= j < i ==> (#[trigger] below[j]).pr != pr,
        decreases to - i,
    {
        assert(below[i as int] == entries[i as int].deep_view());
        if entries[i].pr.same(&pr) {
            return true;
        }
        i = i + 1;
    }
    false
}

fn refuse_entry(
    repository: &RepositoryId,
    base: &BranchSnapshot,
    entries: &Vec<GitHubStackEntryGeneration>,
    at: usize,
) -> (r: Option<GitHubStackMutationError>)
    requires
        at < entries.len(),
    ensures
        refusal_view(r) == entry_refusal(
            repository.deep_view(),
            base.deep_view(),
            entries.deep_view().take(at as int),
            entries.deep_view()[at as int],
        ),
{
    let entry = &entries[at];
    let ghost below = entries.deep_view().take(at as int);
    assert(entries.deep_view()[at as int] == entry.deep_view());
    if at > 0 {
        assert(below.last() == entries[at - 1].deep_view());
    }
    if entry.position as usize != at {
        return Some(
            invalid_plan(
                "github_stack_position_invalid",
                "Stack positions must be contiguous and zero-based",
            ),
        );
    }
    if stands_below(entries, at, entry.pr) {
        return Some(
            invalid_plan(
                "github_stack_duplicate_pr",
                "A pull request may appear only once in a Stack",
            ),
        );
    }
    if !entry.base.repository.same(repository) || !entry.head.repository.same(repository) {
        return Some(
            invalid_plan(
                "github_stack_repository_mismatch",
                "Stack entries must use same-repository base and head branches",
            ),
        );
    }
    let on_open = at > 0 && entries[at - 1].pull_request_state.same(&PullRequestState::Open);
    if entry.pull_request_state.same(&PullRequestState::Open) {
        let fits = if on_open {
            entry.base.same(&entries[at - 1].head)
        } else {
            entry.base.same(base)
        };
        if !fits {
            let message = "open PR #".to_owned().concat(entry.pr.to_text().as_str()).concat(
                " does not target the exact previous open generation",
            );
            return Some(invalid_plan("github_stack_base_chain_invalid", message.as_str()));
        }
        None
    } else if on_open {
        Some(
            invalid_plan(
                "github_stack_state_order_invalid",
                "closed or merged Stack entries may only precede the open suffix",
            ),
        )
    } else {
        None
    }
}

fn refuse_entries(
    repository: &RepositoryId,
    base: &BranchSnapshot,
    entries: &Vec<GitHubStackEntryGeneration>,
    to: usize,
) -> (r: Option<GitHubStackMutationError>)
    requires
        to <= entries.len(),
    ensures
        refusal_view(r) == entries_refusal(
            repository.deep_view(),
            base.deep_view(),
            entries.deep_view().take(to as int),
        ),
    decreases to,
{
    if to == 0 {
        return None;
    }
    let ghost all = entries.deep_view();
    assert(all.take(to as int).drop_last() =~= all.take(to - 1));
    match refuse_entries(repository, base, entries, to - 1) {
        Some(error) => Some(error),
        None => refuse_entry(repository, base, entries, to - 1),
    }
}

/// Whether a topology is valid.
pub fn validate_topology(
    repository: &RepositoryId,
    topology: &GitHubStackTopology,
    minimum_entries: usize,
) -> (r: Result<(), GitHubStackMutationError>)
    ensures
        stack_view(r) == unless(
            topology_refusal(repository.deep_view(), topology.deep_view(), minimum_entries),
        ),
{
    let count = topology.entries.len();
    if count < minimum_entries || count > STACK_LIMIT {
        let message = "Stack requires ".to_owned().concat(
            decimal_text(minimum_entries as u64).as_str(),
        ).concat("..=100 entries, observed ").concat(decimal_text(count as u64).as_str());
        return Err(invalid_plan("github_stack_size_invalid", message.as_str()));
    }
    if !topology.base.repository.same(repository) {
        return Err(
            invalid_plan(
                "github_stack_repository_mismatch",
                "Stack base belongs to another repository",
            ),
        );
    }
    assert(topology.entries.deep_view().take(count as int) =~= topology.entries.deep_view());
    match refuse_entries(repository, &topology.base, &topology.entries, count) {
        Some(error) => Err(error),
        None => Ok(()),
    }
}

/// Whether two generations are of the same branch.
pub open spec fn same_branch(left: BranchSnapshotView, right: BranchSnapshotView) -> bool {
    left.repository == right.repository && left.name == right.name
}

/// A topology whose tail may stand on an earlier generation of the branch below
/// it, if it is the one pull request that this is allowed to: there it is taken
/// to stand on the current generation.
pub open spec fn settled(
    topology: GitHubStackTopologyView,
    allowed: Option<PrNumber>,
) -> GitHubStackTopologyView {
    let below = topology.entries.drop_last();
    let tail = topology.entries.last();
    if topology.entries.len() > 0 && allowed == Some(tail.pr) && same_branch(
        tail.base,
        open_base(topology.base, below),
    ) {
        GitHubStackTopologyView {
            entries: below.push(
                GitHubStackEntryGenerationView { base: open_base(topology.base, below), ..tail },
            ),
            ..topology
        }
    } else {
        topology
    }
}

fn settle(topology: &GitHubStackTopology, allowed: Option<PrNumber>) -> (r: GitHubStackTopology)
    ensures
        r.deep_view() == settled(topology.deep_view(), allowed),
{
    let count = topology.entries.len();
    if count == 0 {
        return topology.dup();
    }
    let ghost all = topology.entries.deep_view();
    let tail = &topology.entries[count - 1];
    assert(all.last() == tail.deep_view());
    if count > 1 {
        assert(all.drop_last().last() == topology.entries[count - 2].deep_view());
    }
    let below = if count > 1 && topology.entries[count - 2].pull_request_state.same(
        &PullRequestState::Open,
    ) {
        topology.entries[count - 2].head.dup()
    } else {
        topology.base.dup()
    };
    let wanted = match allowed {
        Some(pr) => pr.same(&tail.pr),
        None => false,
    };
    if !wanted || !tail.base.repository.same(&below.repository) || !tail.base.name.same(
        &below.name,
    ) {
        return topology.dup();
    }
    let mut entries = dup_range(&topology.entries, 0, count - 1);
    let mut standing = tail.dup();
    standing.base = below;
    push_item(&mut entries, standing);
    let out = GitHubStackTopology { base: topology.base.dup(), entries };
    assert(out.deep_view() =~= settled(topology.deep_view(), allowed));
    out
}

/// Whether a topology is valid, where its tail may stand on an earlier
/// generation of the branch below it.
pub fn validate_topology_allowing_stale_tail_base(
    repository: &RepositoryId,
    topology: &GitHubStackTopology,
    minimum_entries: usize,
    allowed: Option<PrNumber>,
) -> (r: Result<(), GitHubStackMutationError>)
    ensures
        stack_view(r) == unless(
            topology_refusal(
                repository.deep_view(),
                settled(topology.deep_view(), allowed),
                minimum_entries,
            ),
        ),
{
    validate_topology(repository, &settle(topology, allowed), minimum_entries)
}

/// What a valid topology is: positions count from zero, no pull request
/// stands twice, everything is in one repository, open entries are a suffix,
/// and each stands on the open entry below it, the lowest on the base.
pub open spec fn well_formed_entries(
    repository: RepositoryIdView,
    base: BranchSnapshotView,
    entries: Seq<GitHubStackEntryGenerationView>,
) -> bool {
    &&& forall|i: int| 0 <= i < entries.len() ==> (#[trigger] entries[i]).position == i
    &&& forall|i: int, j: int|
        0 <= i < j < entries.len() ==> (#[trigger] entries[i]).pr != (#[trigger] entries[j]).pr
    &&& forall|i: int|
        0 <= i < entries.len() ==> (#[trigger] entries[i]).base.repository == repository
            && entries[i].head.repository == repository
    &&& forall|i: int, j: int|
        0 <= i < j < entries.len() && is_open(#[trigger] entries[i]) ==> is_open(
            #[trigger] entries[j],
        )
    &&& forall|i: int|
        0 <= i < entries.len() && is_open(#[trigger] entries[i]) ==> entries[i].base == open_base(
            base,
            entries.take(i),
        )
}

/// Exactly the entries that stand on each other are accepted.
pub proof fn lemma_accepted_entries_are_well_formed(
    repository: RepositoryIdView,
    base: BranchSnapshotView,
    entries: Seq<GitHubStackEntryGenerationView>,
)
    ensures
        entries_refusal(repository, base, entries) is None <==> well_formed_entries(
            repository,
            base,
            entries,
        ),
    decreases entries.len(),
{
    if entries.len() > 0 {
        let below = entries.drop_last();
        let top = entries.last();
        let n = below.len() as int;
        lemma_accepted_entries_are_well_formed(repository, base, below);
        assert(entries.take(n) =~= below);
        assert forall|i: int| 0 <= i < n implies entries.take(i) == below.take(i) by {
            assert(entries.take(i) =~= below.take(i));
        }
        if entries_refusal(repository, base, entries) is None {
            assert(well_formed_entries(repository, base, below));
            assert forall|i: int| 0 <= i < entries.len() implies (#[trigger] entries[i]).position
                == i by {
                if i < n {
                    assert(entries[i] == below[i]);
                }
            }
            assert forall|i: int, j: int| 0 <= i < j < entries.len() implies (
            #[trigger] entries[i]).pr != (#[trigger] entries[j]).pr by {
                assert(entries[i] == below[i]);
                if j < n {
                    assert(entries[j] == below[j]);
                }
            }
            assert forall|i: int| 0 <= i < entries.len() implies (
            #[trigger] entries[i]).base.repository == repository && entries[i].head.repository
                == repository by {
                if i < n {
                    assert(entries[i] == below[i]);
                }
            }
            assert forall|i: int, j: int|
                0 <= i < j < entries.len() && is_open(#[trigger] entries[i]) implies is_open(
                #[trigger] entries[j],
            ) by {
                assert(entries[i] == below[i]);
                if j < n {
                    assert(entries[j] == below[j]);
                } else {
                    if i < n - 1 {
                        assert(is_open(below[n - 1]));
                    }
                    assert(is_open(below.last()));
                }
            }
            assert forall|i: int| 0 <= i < entries.len() && is_open(#[trigger] entries[i]) implies
                entries[i].base == open_base(base, entries.take(i)) by {
                if i < n {
                    assert(entries[i] == below[i]);
                }
            }
        }
        if well_formed_entries(repository, base, entries) {
            assert forall|i: int| 0 <= i < n implies below[i] == entries[i] by {}
            assert(well_formed_entries(repository, base, below));
            assert(entries[n] == top);
            assert(!listed(below, top.pr));
            if n > 0 {
                assert(below.last() == entries[n - 1]);
            }
        }
    }
}

// ---------------------------------------------------------------------------
// Valid plans
// ---------------------------------------------------------------------------

/// Why an entry cannot be requested.
pub open spec fn ineligible(entry: GitHubStackEntryGenerationView) -> bool {
    !is_open(entry) || entry.draft || !text::same_ignoring_case(entry.stack_state, "open"@)
}

/// The refusal of the first entry, from a position, that cannot be requested.
pub open spec fn open_refusal(
    entries: Seq<GitHubStackEntryGenerationView>,
    from: int,
) -> Option<GitHubStackMutationErrorView>
    decreases entries.len(),
{
    if entries.len() == 0 || entries.len() <= from {
        None
    } else {
        match open_refusal(entries.drop_last(), from) {
            Some(error) => Some(error),
            None => if ineligible(entries.last()) {
                Some(
                    refused(
                        "github_stack_entry_ineligible"@,
                        "PR #"@ + model::pr_text(entries.last().pr)
                            + " must be open, non-draft, and requested in open Stack state"@,
                    ),
                )
            } else {
                None
            },
        }
    }
}

fn refuse_open(entries: &Vec<GitHubStackEntryGeneration>, from: usize, to: usize) -> (r: Option<
    GitHubStackMutationError,
>)
    requires
        to <= entries.len(),
    ensures
        refusal_view(r) == open_refusal(entries.deep_view().take(to as int), from as int),
    decreases to,
{
    if to == 0 || to <= from {
        return None;
    }
    let ghost all = entries.deep_view();
    assert(all.take(to as int).drop_last() =~= all.take(to - 1));
    match refuse_open(entries, from, to - 1) {
        Some(error) => Some(error),
        None => {
            let entry = &entries[to - 1];
            assert(all.take(to as int).last() == entry.deep_view());
            if !entry.pull_request_state.same(&PullRequestState::Open) || entry.draft
                || !eq_ignore_case(entry.stack_state.as_str(), "open") {
                let message = "PR #".to_owned().concat(entry.pr.to_text().as_str()).concat(
                    " must be open, non-draft, and requested in open Stack state",
                );
                Some(invalid_plan("github_stack_entry_ineligible", message.as_str()))
            } else {
                None
            }
        },
    }
}

/// Whether every entry from a position can be requested.
pub fn validate_open_entries(topology: &GitHubStackTopology, from: usize) -> (r: Result<
    (),
    GitHubStackMutationError,
>)
    ensures
        stack_view(r) == unless(open_refusal(topology.deep_view().entries, from as int)),
{
    let count = topology.entries.len();
    assert(topology.entries.deep_view().take(count as int) =~= topology.entries.deep_view());
    match refuse_open(&topology.entries, from, count) {
        Some(error) => Err(error),
        None => Ok(()),
    }
}

/// Why an operation is not identified.
pub open spec fn identity_refusal(operation_id: Seq<char>, actor: Seq<char>) -> Option<
    GitHubStackMutationErrorView,
> {
    if text::is_blank(operation_id) {
        Some(
            refused(
                "github_stack_operation_id_missing"@,
                "Stack mutation requires a non-empty operation identity"@,
            ),
        )
    } else if text::is_blank(actor) {
        Some(
            refused(
                "github_stack_actor_missing"@,
                "Stack mutation requires a non-empty actor"@,
            ),
        )
    } else {
        None
    }
}

/// Whether an operation is identified.
pub fn validate_operation_identity(operation_id: &str, actor: &str) -> (r: Result<
    (),
    GitHubStackMutationError,
>)
    ensures
        stack_view(r) == unless(identity_refusal(operation_id@, actor@)),
{
    if blank(operation_id) {
        return Err(
            invalid_plan(
                "github_stack_operation_id_missing",
                "Stack mutation requires a non-empty operation identity",
            ),
        );
    }
    if blank(actor) {
        return Err(
            invalid_plan(
                "github_stack_actor_missing",
                "Stack mutation requires a non-empty actor",
            ),
        );
    }
    Ok(())
}

/// The first refusal of two.
pub open spec fn or_refused(
    first: Option<GitHubStackMutationErrorView>,
    second: Option<GitHubStackMutationErrorView>,
) -> Option<GitHubStackMutationErrorView> {
    match first {
        Some(error) => Some(error),
        None => second,
    }
}

/// Why a creation is refused.
pub open spec fn create_refusal(
    repository: RepositoryIdView,
    plan: GitHubStackCreatePlanView,
) -> Option<GitHubStackMutationErrorView> {
    or_refused(
        identity_refusal(plan.operation_id, plan.actor),
        or_refused(
            topology_refusal(repository, plan.desired, 2),
            open_refusal(plan.desired.entries, 0),
        ),
    )
}

/// Whether a creation can be asked for.
pub fn validate_create_plan(repository: &RepositoryId, plan: &GitHubStackCreatePlan) -> (r: Result<
    (),
    GitHubStackMutationError,
>)
    ensures
        stack_view(r) == unless(create_refusal(repository.deep_view(), plan.deep_view())),
{
    match validate_operation_identity(plan.operation_id.as_str(), plan.actor.as_str()) {
        Err(error) => {
            return Err(error);
        },
        Ok(_) => {},
    }
    match validate_topology(repository, &plan.desired, 2) {
        Err(error) => {
            return Err(error);
        },
        Ok(_) => {},
    }
    validate_open_entries(&plan.desired, 0)
}

/// Whether a topology only appends to another.
pub open spec fn appends(
    before: GitHubStackTopologyView,
    desired: GitHubStackTopologyView,
) -> bool {
    desired.base == before.base && before.entries.is_prefix_of(desired.entries)
}

/// Why an append is refused, but for its identity.
pub open spec fn append_refusal(
    repository: RepositoryIdView,
    plan: GitHubStackAddPlanView,
) -> Option<GitHubStackMutationErrorView> {
    or_refused(
        topology_refusal(repository, plan.before.topology, 2),
        or_refused(
            topology_refusal(repository, plan.desired, 2),
            if plan.desired.entries.len() <= plan.before.topology.entries.len() {
                Some(
                    refused(
                        "github_stack_add_empty"@,
                        "Stack add requires at least one new top entry"@,
                    ),
                )
            } else if !appends(plan.before.topology, plan.desired) {
                Some(
                    refused(
                        "github_stack_add_not_append_only"@,
                        "Stack add may append only an exact top suffix"@,
                    ),
                )
            } else {
                open_refusal(plan.desired.entries, plan.before.topology.entries.len() as int)
            },
        ),
    )
}

/// Why an append is refused.
pub open spec fn add_refusal(repository: RepositoryIdView, plan: GitHubStackAddPlanView) -> Option<
    GitHubStackMutationErrorView,
> {
    or_refused(
        identity_refusal(plan.operation_id, plan.actor),
        append_refusal(repository, plan),
    )
}

fn starts_with_entries(
    entries: &Vec<GitHubStackEntryGeneration>,
    prefix: &Vec<GitHubStackEntryGeneration>,
) -> (r: bool)
    ensures
        r == prefix.deep_view().is_prefix_of(entries.deep_view()),
{
    if prefix.len() > entries.len() {
        return false;
    }
    let start = dup_range(entries, 0, prefix.len());
    assert(start.deep_view() =~= entries.deep_view().take(prefix.len() as int));
    let r = start.same(prefix);
    assert(r == prefix.deep_view().is_prefix_of(entries.deep_view()));
    r
}

/// Whether an append can be asked for.
pub fn validate_add_plan(repository: &RepositoryId, plan: &GitHubStackAddPlan) -> (r: Result<
    (),
    GitHubStackMutationError,
>)
    ensures
        stack_view(r) == unless(add_refusal(repository.deep_view(), plan.deep_view())),
{
    match validate_operation_identity(plan.operation_id.as_str(), plan.actor.as_str()) {
        Err(error) => {
            return Err(error);
        },
        Ok(_) => {},
    }
    match validate_topology(repository, &plan.before.topology, 2) {
        Err(error) => {
            return Err(error);
        },
        Ok(_) => {},
    }
    match validate_topology(repository, &plan.desired, 2) {
        Err(error) => {
            return Err(error);
        },
        Ok(_) => {},
    }
    let before = &plan.before.topology;
    if plan.desired.entries.len() <= before.entries.len() {
        return Err(
            invalid_plan(
                "github_stack_add_empty",
                "Stack add requires at least one new top entry",
            ),
        );
    }
    if !plan.desired.base.same(&before.base) || !starts_with_entries(
        &plan.desired.entries,
        &before.entries,
    ) {
        return Err(
            invalid_plan(
                "github_stack_add_not_append_only",
                "Stack add may append only an exact top suffix",
            ),
        );
    }
    validate_open_entries(&plan.desired, before.entries.len())
}

/// An accepted append keeps the base and every entry, in place, and adds at
/// least one.
pub proof fn lemma_add_is_append_only(repository: RepositoryIdView, plan: GitHubStackAddPlanView)
    requires
        add_refusal(repository, plan) is None,
    ensures
        plan.desired.base == plan.before.topology.base,
        plan.desired.entries.len() > plan.before.topology.entries.len(),
        forall|i: int|
            0 <= i < plan.before.topology.entries.len() ==> #[trigger] plan.desired.entries[i]
                == plan.before.topology.entries[i],
{
    let before = plan.before.topology.entries;
    assert(before.is_prefix_of(plan.desired.entries));
    assert forall|i: int| 0 <= i < before.len() implies #[trigger] plan.desired.entries[i]
        == before[i] by {
        assert(plan.desired.entries.subrange(0, before.len() as int)[i] == before[i]);
    }
}

/// Why taking a Stack apart is refused.
pub open spec fn unstack_refusal(
    repository: RepositoryIdView,
    plan: GitHubStackUnstackPlanView,
    allowed: Option<PrNumber>,
) -> Option<GitHubStackMutationErrorView> {
    or_refused(
        identity_refusal(plan.operation_id, plan.actor),
        or_refused(
            topology_refusal(repository, settled(plan.before.topology, allowed), 1),
            match plan.desired_after {
                Some(desired) => topology_refusal(repository, desired, 1),
                None => None,
            },
        ),
    )
}

/// Whether taking a Stack apart can be asked for.
pub fn validate_unstack_plan(
    repository: &RepositoryId,
    plan: &GitHubStackUnstackPlan,
    allowed: Option<PrNumber>,
) -> (r: Result<(), GitHubStackMutationError>)
    ensures
        stack_view(r) == unless(unstack_refusal(repository.deep_view(), plan.deep_view(), allowed)),
{
    match validate_operation_identity(plan.operation_id.as_str(), plan.actor.as_str()) {
        Err(error) => {
            return Err(error);
        },
        Ok(_) => {},
    }
    match validate_topology_allowing_stale_tail_base(
        repository,
        &plan.before.topology,
        1,
        allowed,
    ) {
        Err(error) => {
            return Err(error);
        },
        Ok(_) => {},
    }
    match &plan.desired_after {
        Some(desired) => validate_topology(repository, desired, 1),
        None => Ok(()),
    }
}

// ---------------------------------------------------------------------------
// Changed generations
// ---------------------------------------------------------------------------

/// Whether two generations are of one Stack.
pub open spec fn same_stack(left: GitHubStackGenerationView, right: GitHubStackGenerationView) ->
    bool {
    left.id == right.id && left.number == right.number && left.node_id == right.node_id
        && left.created_at == right.created_at
}

/// Whether two generations are of one Stack.
pub fn same_stack_identity(left: &GitHubStackGeneration, right: &GitHubStackGeneration) -> (r: bool)
    ensures
        r == same_stack(left.deep_view(), right.deep_view()),
{
    left.id == right.id && left.number == right.number && left.node_id.same(&right.node_id)
        && left.created_at.same(&right.created_at)
}

/// A name, if it belongs there.
pub open spec fn named(changed: bool, name: Seq<char>) -> Seq<Seq<char>> {
    if changed {
        seq![name]
    } else {
        Seq::empty()
    }
}

/// The name of a part of an entry.
pub open spec fn entry_part(at: nat, part: Seq<char>) -> Seq<char> {
    "entries["@ + text::decimal(at) + "]."@ + part
}

/// The parts of an entry that changed.
pub open spec fn changed_entry(
    at: nat,
    expected: GitHubStackEntryGenerationView,
    actual: GitHubStackEntryGenerationView,
) -> Seq<Seq<char>> {
    named(expected.pr != actual.pr, entry_part(at, "pr"@)) + named(
        expected.head != actual.head,
        entry_part(at, "head"@),
    ) + named(expected.base != actual.base, entry_part(at, "base"@)) + named(
        expected.pull_request_state != actual.pull_request_state || expected.draft != actual.draft
            || expected.stack_state != actual.stack_state,
        entry_part(at, "state"@),
    )
}

/// The parts that changed in the first entries of both.
pub open spec fn changed_entries(
    expected: Seq<GitHubStackEntryGenerationView>,
    actual: Seq<GitHubStackEntryGenerationView>,
    count: nat,
) -> Seq<Seq<char>>
    decreases count,
{
    if count == 0 {
        Seq::empty()
    } else {
        let at = (count - 1) as nat;
        changed_entries(expected, actual, at) + changed_entry(
            at,
            expected[at as int],
            actual[at as int],
        )
    }
}

/// The smaller of two lengths.
pub open spec fn shorter(a: nat, b: nat) -> nat {
    if a <= b {
        a
    } else {
        b
    }
}

/// What changed between two topologies; if nothing did, it is the identity.
pub open spec fn changed_topology(
    expected: GitHubStackTopologyView,
    actual: GitHubStackTopologyView,
) -> Seq<Seq<char>> {
    let changed = named(expected.base != actual.base, "base"@) + named(
        expected.entries.len() != actual.entries.len(),
        "entry_count"@,
    ) + changed_entries(
        expected.entries,
        actual.entries,
        shorter(expected.entries.len(), actual.entries.len()),
    );
    if changed.len() == 0 {
        seq!["stack_identity"@]
    } else {
        changed
    }
}

fn name_if(out: &mut Vec<String>, changed: bool, name: String)
    ensures
        final(out).deep_view() == old(out).deep_view() + named(changed, name@),
{
    if changed {
        push_item(out, name);
    }
    assert(out.deep_view() =~= old(out).deep_view() + named(changed, name@));
}

fn part_name(at: usize, part: &str) -> (r: String)
    ensures
        r@ == entry_part(at as nat, part@),
{
    "entries[".to_owned().concat(decimal_text(at as u64).as_str()).concat("].").concat(part)
}

/// What changed between two topologies.
pub fn changed_topology_fields(expected: &GitHubStackTopology, actual: &GitHubStackTopology) -> (r:
    Vec<String>)
    ensures
        r.deep_view() == changed_topology(expected.deep_view(), actual.deep_view()),
{
    let ghost exp = expected.deep_view();
    let ghost act = actual.deep_view();
    let mut changed: Vec<String> = Vec::new();
    assert(changed.deep_view() =~= Seq::<Seq<char>>::empty());
    name_if(&mut changed, !expected.base.same(&actual.base), "base".to_owned());
    name_if(
        &mut changed,
        expected.entries.len() != actual.entries.len(),
        "entry_count".to_owned(),
    );
    let ghost start = named(exp.base != act.base, "base"@) + named(
        exp.entries.len() != act.entries.len(),
        "entry_count"@,
    );
    assert(changed.deep_view() =~= start);
    let count: usize = if expected.entries.len() <= actual.entries.len() {
        expected.entries.len()
    } else {
        actual.entries.len()
    };
    let mut i: usize = 0;
    assert(changed.deep_view() =~= start + changed_entries(exp.entries, act.entries, 0));
    while i < count
        invariant
            exp == expected.deep_view(),
            act == actual.deep_view(),
            i <= count <= expected.entries.len(),
            count <= actual.entries.len(),
            changed.deep_view() == start + changed_entries(exp.entries, act.entries, i as nat),
        decreases count - i,
    {
        let ghost before = changed.deep_view();
        let e = &expected.entries[i];
        let a = &actual.entries[i];
        assert(exp.entries[i as int] == e.deep_view());
        assert(act.entries[i as int] == a.deep_view());
        name_if(&mut changed, !e.pr.same(&a.pr), part_name(i, "pr"));
        name_if(&mut changed, !e.head.same(&a.head), part_name(i, "head"));
        name_if(&mut changed, !e.base.same(&a.base), part_name(i, "base"));
        name_if(
            &mut changed,
            !e.pull_request_state.same(&a.pull_request_state) || e.draft != a.draft
                || !e.stack_state.same(&a.stack_state),
            part_name(i, "state"),
        );
        assert(changed.deep_view() =~= before + changed_entry(
            i as nat,
            exp.entries[i as int],
            act.entries[i as int],
        ));
        i = i + 1;
        assert(changed.deep_view() =~= start + changed_entries(
            exp.entries,
            act.entries,
            i as nat,
        ));
    }
    if changed.len() == 0 {
        push_item(&mut changed, "stack_identity".to_owned());
        assert(changed.deep_view() =~= seq!["stack_identity"@]);
    }
    changed
}

/// The refusal of a topology that is not there.
pub open spec fn stale(
    expected: GitHubStackTopologyView,
    actual: Option<GitHubStackGenerationView>,
) -> GitHubStackMutationErrorView {
    GitHubStackMutationErrorView::StaleGeneration {
        expected,
        actual,
        changed_fields: match actual {
            Some(generation) => changed_topology(expected, generation.topology),
            None => seq!["stack_absent"@],
        },
    }
}

fn boxed(actual: &Option<GitHubStackGeneration>) -> (r: Option<Box<GitHubStackGeneration>>)
    ensures
        r.deep_view() == actual.deep_view(),
{
    match actual {
        Some(generation) => Some(Box::new(generation.dup())),
        None => None,
    }
}

/// The refusal of a topology that is not there.
pub fn stale_topology(expected: &GitHubStackTopology, actual: &Option<GitHubStackGeneration>) -> (r:
    GitHubStackMutationError)
    ensures
        r.deep_view() == stale(expected.deep_view(), actual.deep_view()),
{
    let changed_fields = match actual {
        Some(generation) => changed_topology_fields(expected, &generation.topology),
        None => {
            let mut out: Vec<String> = Vec::new();
            push_item(&mut out, "stack_absent".to_owned());
            assert(out.deep_view() =~= seq!["stack_absent"@]);
            out
        },
    };
    GitHubStackMutationError::StaleGeneration {
        expected: Box::new(expected.dup()),
        actual: boxed(actual),
        changed_fields,
    }
}

/// The refusal of a generation that is not there.
pub open spec fn stale_exact(
    expected: GitHubStackGenerationView,
    actual: Option<GitHubStackGenerationView>,
) -> GitHubStackMutationErrorView {
    GitHubStackMutationErrorView::StaleGeneration {
        expected: expected.topology,
        actual,
        changed_fields: match actual {
            Some(generation) => changed_topology(expected.topology, generation.topology) + named(
                !same_stack(generation, expected),
                "stack_identity"@,
            ),
            None => seq!["stack_absent"@],
        },
    }
}

/// The refusal of a generation that is not there.
pub fn stale_generation(
    expected: &GitHubStackGeneration,
    actual: &Option<GitHubStackGeneration>,
) -> (r: GitHubStackMutationError)
    ensures
        r.deep_view() == stale_exact(expected.deep_view(), actual.deep_view()),
{
    let changed_fields = match actual {
        Some(generation) => {
            let mut out = changed_topology_fields(&expected.topology, &generation.topology);
            name_if(
                &mut out,
                !same_stack_identity(generation, expected),
                "stack_identity".to_owned(),
            );
            out
        },
        None => {
            let mut out: Vec<String> = Vec::new();
            push_item(&mut out, "stack_absent".to_owned());
            assert(out.deep_view() =~= seq!["stack_absent"@]);
            out
        },
    };
    GitHubStackMutationError::StaleGeneration {
        expected: Box::new(expected.topology.dup()),
        actual: boxed(actual),
        changed_fields,
    }
}

// ---------------------------------------------------------------------------
// Commands and requests
// ---------------------------------------------------------------------------

/// A call of the Stack resource. Everything but a read is a provider write.
pub open spec fn stack_api(
    method: Seq<char>,
    path: Seq<char>,
    include_headers: bool,
    tail: Seq<Seq<char>>,
) -> CommandSpecView {
    let command = command::gh(
        seq!["api"@, "--method"@, method, "-H"@, STACK_ACCEPT@, "-H"@, STACK_API_VERSION@] + (
        if include_headers {
            seq!["--include"@]
        } else {
            Seq::empty()
        }) + seq![path] + tail,
    );
    if method == "GET"@ {
        command
    } else {
        command.writing()
    }
}

/// A call of the Stack resource.
pub fn stack_api_command(method: &str, path: &str, include_headers: bool, tail: Vec<&str>) -> (r:
    CommandSpec)
    ensures
        r.deep_view() == stack_api(method@, path@, include_headers, tail.deep_view()),
{
    let mut args = vec!["api", "--method", method, "-H", STACK_ACCEPT, "-H", STACK_API_VERSION];
    if include_headers {
        args.push("--include");
    }
    args.push(path);
    let mut tail = tail;
    let ghost rest = tail.deep_view();
    args.append(&mut tail);
    assert(args.deep_view() =~= stack_api(method@, path@, include_headers, rest).args);
    let command = CommandSpec::gh(args);
    if text_eq(method, "GET") {
        command
    } else {
        command.provider_write()
    }
}

/// A call with the method GET is a read, every other call is a write of the
/// provider.
pub proof fn lemma_only_get_reads(
    method: Seq<char>,
    path: Seq<char>,
    include_headers: bool,
    tail: Seq<Seq<char>>,
)
    ensures
        stack_api(method, path, include_headers, tail).intent == (if method == "GET"@ {
            command::CommandIntent::Read
        } else {
            command::CommandIntent::ProviderWrite
        }),
        stack_api(method, path, include_headers, tail).program == "gh"@,
        stack_api(method, path, include_headers, tail).args[0] == "api"@,
{
}

/// The Stacks of a repository.
pub open spec fn stack_list(repository: RepositoryIdView) -> CommandSpecView {
    stack_api(
        "GET"@,
        "repos/"@ + repository.slug() + "/stacks?per_page=100"@,
        false,
        Seq::empty(),
    )
}

pub fn native_stack_list_command(repository: &RepositoryId) -> (r: CommandSpec)
    ensures
        r.deep_view() == stack_list(repository.deep_view()),
{
    let path = "repos/".to_owned().concat(repository.slug().as_str()).concat(
        "/stacks?per_page=100",
    );
    let tail: Vec<&str> = Vec::new();
    assert(tail.deep_view() =~= Seq::<Seq<char>>::empty());
    stack_api_command("GET", path.as_str(), false, tail)
}

/// One Stack.
pub open spec fn stack_read(repository: RepositoryIdView, number: u64) -> CommandSpecView {
    stack_api(
        "GET"@,
        "repos/"@ + repository.slug() + "/stacks/"@ + text::decimal(number as nat),
        false,
        Seq::empty(),
    )
}

pub fn native_stack_read_command(repository: &RepositoryId, stack_number: u64) -> (r: CommandSpec)
    ensures
        r.deep_view() == stack_read(repository.deep_view(), stack_number),
{
    let path = "repos/".to_owned().concat(repository.slug().as_str()).concat("/stacks/").concat(
        decimal_text(stack_number).as_str(),
    );
    let tail: Vec<&str> = Vec::new();
    assert(tail.deep_view() =~= Seq::<Seq<char>>::empty());
    stack_api_command("GET", path.as_str(), false, tail)
}

/// The commit of a branch.
pub open spec fn stack_base_ref(
    repository: RepositoryIdView,
    branch: Seq<char>,
) -> CommandSpecView {
    command::gh(
        seq![
            "api"@,
            "repos/"@ + repository.slug() + "/git/ref/heads/"@ + commands::encoded(branch),
        ],
    )
}

pub fn native_stack_base_ref_command(repository: &RepositoryId, branch: &str) -> (r: CommandSpec)
    ensures
        r.deep_view() == stack_base_ref(repository.deep_view(), branch@),
{
    let path = "repos/".to_owned().concat(repository.slug().as_str()).concat(
        "/git/ref/heads/",
    ).concat(encode_path_segment(branch).as_str());
    let args = vec!["api", path.as_str()];
    assert(args.deep_view() =~= stack_base_ref(repository.deep_view(), branch@).args);
    CommandSpec::gh(args)
}

/// The pull requests of entries.
pub open spec fn entry_prs(entries: Seq<GitHubStackEntryGenerationView>) -> Seq<PrNumber> {
    Seq::new(entries.len(), |i: int| entries[i].pr)
}

/// The pull requests of the entries from a position.
pub fn prs_from(entries: &Vec<GitHubStackEntryGeneration>, from: usize) -> (r: Vec<PrNumber>)
    requires
        from <= entries.len(),
    ensures
        r.deep_view() == entry_prs(entries.deep_view().skip(from as int)),
{
    let ghost rest = entries.deep_view().skip(from as int);
    let mut out: Vec<PrNumber> = Vec::new();
    let mut i: usize = from;
    assert(out.deep_view() =~= entry_prs(rest).take(0));
    while i < entries.len()
        invariant
            rest == entries.deep_view().skip(from as int),
            from <= i <= entries.len(),
            out.deep_view() == entry_prs(rest).take(i - from),
        decreases entries.len() - i,
    {
        assert(rest[i - from] == entries[i as int].deep_view());
        push_item(&mut out, entries[i].pr);
        i = i + 1;
        assert(out.deep_view() =~= entry_prs(rest).take(i - from));
    }
    assert(out.deep_view() =~= entry_prs(rest));
    out
}

/// The body that names pull requests.
pub open spec fn numbers_body(numbers: Seq<PrNumber>) -> Seq<char> {
    json::json_text(
        json::object_of(
            json::entry(
                json::no_entries(),
                "pull_requests"@,
                <Vec<PrNumber> as JsonForm>::form(numbers),
            ),
        ),
    )
}

fn write_numbers(numbers: &Vec<PrNumber>) -> (r: String)
    ensures
        r@ == numbers_body(numbers.deep_view()),
{
    let value = Entries::new().with("pull_requests", numbers.to_json()).object();
    compact_text(&value)
}

fn input_tail<'a>() -> (r: Vec<&'a str>)
    ensures
        r.deep_view() == seq!["--input"@, "-"@],
{
    let tail = vec!["--input", "-"];
    assert(tail.deep_view() =~= seq!["--input"@, "-"@]);
    tail
}

/// The creation of a Stack.
pub open spec fn stack_create(
    repository: RepositoryIdView,
    desired: GitHubStackTopologyView,
) -> CommandSpecView {
    stack_api(
        "POST"@,
        "repos/"@ + repository.slug() + "/stacks"@,
        true,
        seq!["--input"@, "-"@],
    ).fed(numbers_body(entry_prs(desired.entries)))
}

pub fn native_stack_create_command(repository: &RepositoryId, topology: &GitHubStackTopology) -> (r:
    CommandSpec)
    ensures
        r.deep_view() == stack_create(repository.deep_view(), topology.deep_view()),
{
    let path = "repos/".to_owned().concat(repository.slug().as_str()).concat("/stacks");
    let numbers = prs_from(&topology.entries, 0);
    assert(topology.entries.deep_view().skip(0) =~= topology.entries.deep_view());
    stack_api_command("POST", path.as_str(), true, input_tail()).stdin(write_numbers(&numbers))
}

/// The entries that an append adds.
pub open spec fn added(plan: GitHubStackAddPlanView) -> Seq<GitHubStackEntryGenerationView> {
    plan.desired.entries.skip(plan.before.topology.entries.len() as int)
}

/// An append to a Stack.
pub open spec fn stack_add(
    repository: RepositoryIdView,
    plan: GitHubStackAddPlanView,
) -> CommandSpecView {
    stack_api(
        "POST"@,
        "repos/"@ + repository.slug() + "/stacks/"@ + text::decimal(plan.before.number as nat)
            + "/add"@,
        true,
        seq!["--input"@, "-"@],
    ).fed(numbers_body(entry_prs(added(plan))))
}

pub fn native_stack_add_command(repository: &RepositoryId, plan: &GitHubStackAddPlan) -> (r:
    CommandSpec)
    requires
        plan.before.topology.entries.len() <= plan.desired.entries.len(),
    ensures
        r.deep_view() == stack_add(repository.deep_view(), plan.deep_view()),
{
    let path = "repos/".to_owned().concat(repository.slug().as_str()).concat("/stacks/").concat(
        decimal_text(plan.before.number).as_str(),
    ).concat("/add");
    let numbers = prs_from(&plan.desired.entries, plan.before.topology.entries.len());
    stack_api_command("POST", path.as_str(), true, input_tail()).stdin(write_numbers(&numbers))
}

/// Taking a Stack apart.
pub open spec fn stack_unstack(repository: RepositoryIdView, number: u64) -> CommandSpecView {
    stack_api(
        "POST"@,
        "repos/"@ + repository.slug() + "/stacks/"@ + text::decimal(number as nat) + "/unstack"@,
        true,
        Seq::empty(),
    )
}

pub fn native_stack_unstack_command(
    repository: &RepositoryId,
    stack_number: u64,
) -> (r: CommandSpec)
    ensures
        r.deep_view() == stack_unstack(repository.deep_view(), stack_number),
{
    let path = "repos/".to_owned().concat(repository.slug().as_str()).concat("/stacks/").concat(
        decimal_text(stack_number).as_str(),
    ).concat("/unstack");
    let tail: Vec<&str> = Vec::new();
    assert(tail.deep_view() =~= Seq::<Seq<char>>::empty());
    stack_api_command("POST", path.as_str(), true, tail)
}

/// The request of a creation.
pub open spec fn create_identity(
    repository: RepositoryIdView,
    desired: GitHubStackTopologyView,
) -> GitHubStackRequestIdentityView {
    GitHubStackRequestIdentityView {
        method: "POST"@,
        path: "repos/"@ + repository.slug() + "/stacks"@,
        ordered_pull_requests: entry_prs(desired.entries),
        github_request_id: None,
    }
}

pub fn create_request(repository: &RepositoryId, topology: &GitHubStackTopology) -> (r:
    GitHubStackRequestIdentity)
    ensures
        r.deep_view() == create_identity(repository.deep_view(), topology.deep_view()),
{
    let ordered_pull_requests = prs_from(&topology.entries, 0);
    assert(topology.entries.deep_view().skip(0) =~= topology.entries.deep_view());
    GitHubStackRequestIdentity {
        method: "POST".to_owned(),
        path: "repos/".to_owned().concat(repository.slug().as_str()).concat("/stacks"),
        ordered_pull_requests,
        github_request_id: None,
    }
}

/// The request of an append.
pub open spec fn add_identity(
    repository: RepositoryIdView,
    plan: GitHubStackAddPlanView,
) -> GitHubStackRequestIdentityView {
    GitHubStackRequestIdentityView {
        method: "POST"@,
        path: "repos/"@ + repository.slug() + "/stacks/"@ + text::decimal(
            plan.before.number as nat,
        ) + "/add"@,
        ordered_pull_requests: entry_prs(added(plan)),
        github_request_id: None,
    }
}

pub fn add_request(repository: &RepositoryId, plan: &GitHubStackAddPlan) -> (r:
    GitHubStackRequestIdentity)
    requires
        plan.before.topology.entries.len() <= plan.desired.entries.len(),
    ensures
        r.deep_view() == add_identity(repository.deep_view(), plan.deep_view()),
{
    GitHubStackRequestIdentity {
        method: "POST".to_owned(),
        path: "repos/".to_owned().concat(repository.slug().as_str()).concat("/stacks/").concat(
            decimal_text(plan.before.number).as_str(),
        ).concat("/add"),
        ordered_pull_requests: prs_from(
            &plan.desired.entries,
            plan.before.topology.entries.len(),
        ),
        github_request_id: None,
    }
}

/// The request of taking a Stack apart.
pub open spec fn unstack_identity(repository: RepositoryIdView, number: u64) ->
    GitHubStackRequestIdentityView {
    GitHubStackRequestIdentityView {
        method: "POST"@,
        path: "repos/"@ + repository.slug() + "/stacks/"@ + text::decimal(number as nat)
            + "/unstack"@,
        ordered_pull_requests: Seq::empty(),
        github_request_id: None,
    }
}

pub fn unstack_request(repository: &RepositoryId, stack_number: u64) -> (r:
    GitHubStackRequestIdentity)
    ensures
        r.deep_view() == unstack_identity(repository.deep_view(), stack_number),
{
    let ordered_pull_requests: Vec<PrNumber> = Vec::new();
    assert(ordered_pull_requests.deep_view() =~= Seq::<PrNumber>::empty());
    GitHubStackRequestIdentity {
        method: "POST".to_owned(),
        path: "repos/".to_owned().concat(repository.slug().as_str()).concat("/stacks/").concat(
            decimal_text(stack_number).as_str(),
        ).concat("/unstack"),
        ordered_pull_requests,
        github_request_id: None,
    }
}

} // verus!
