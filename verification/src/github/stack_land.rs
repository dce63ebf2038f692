//! Landing a ready prefix of a native Stack under a lock.
//!
//! Each provider step is exact on its own. What stands here is their order: the
//! lock is taken first, the merge runs under it, and it is given back once,
//! after the end of the merge is known.

use vstd::prelude::*;
use vstd::string::*;
use crate::command::CommandRunner;
use crate::github::adapter::GitHubMutationAdapter;
use crate::github::evidence;
use crate::github::evidence::hash_of;
use crate::github::stack_lock;
use crate::github::stack_lock::{
    GitHubStackBranchLockError, GitHubStackBranchLockErrorView, GitHubStackBranchLockGeneration,
    GitHubStackBranchLockGenerationView, GitHubStackBranchLockReceipt,
    GitHubStackBranchLockReceiptView,
};
use crate::github::stack_merge;
use crate::github::stack_merge::{
    GitHubStackAsyncMergePlan, GitHubStackAsyncMergePlanView, GitHubStackMergeCheckpoint,
    GitHubStackMergeCheckpointView, GitHubStackMergeError, GitHubStackMergeErrorView,
    GitHubStackMergeReceipt, GitHubStackMergeReceiptView, GitHubStackMergeStatus,
};
use crate::json;
use crate::json::{json_string, Entries, Json, JsonForm};
use crate::model::{Model, RepositoryId, RepositoryIdView};
use crate::text::text_eq;

verus! {

pub const LAND_SCHEMA_VERSION: u32 = 1;

/// What a new process needs to poll a merge under a lock.
#[derive(Debug, PartialEq, Eq)]
pub struct GitHubStackLockedMergeCheckpoint {
    pub schema_version: u32,
    pub repository: RepositoryId,
    pub merge: GitHubStackMergeCheckpoint,
    pub branch_lock: GitHubStackBranchLockGeneration,
    pub evidence_hash: String,
}

/// The content of a [`GitHubStackLockedMergeCheckpoint`].
#[verifier::ext_equal]
pub struct GitHubStackLockedMergeCheckpointView {
    pub schema_version: u32,
    pub repository: RepositoryIdView,
    pub merge: GitHubStackMergeCheckpointView,
    pub branch_lock: GitHubStackBranchLockGenerationView,
    pub evidence_hash: Seq<char>,
}

impl DeepView for GitHubStackLockedMergeCheckpoint {
    type V = GitHubStackLockedMergeCheckpointView;

    open spec fn deep_view(&self) -> GitHubStackLockedMergeCheckpointView {
        GitHubStackLockedMergeCheckpointView {
            schema_version: self.schema_version.deep_view(),
            repository: self.repository.deep_view(),
            merge: self.merge.deep_view(),
            branch_lock: self.branch_lock.deep_view(),
            evidence_hash: self.evidence_hash.deep_view(),
        }
    }
}

impl Clone for GitHubStackLockedMergeCheckpoint {
    fn clone(&self) -> (r: Self)
        ensures
            r.deep_view() == self.deep_view(),
    {
        self.dup()
    }
}

impl Model for GitHubStackLockedMergeCheckpoint {
    fn same(&self, other: &Self) -> (r: bool) {
        self.schema_version.same(&other.schema_version)
            && self.repository.same(&other.repository)
            && self.merge.same(&other.merge)
            && self.branch_lock.same(&other.branch_lock)
            && self.evidence_hash.same(&other.evidence_hash)
    }

    fn dup(&self) -> (r: Self) {
        GitHubStackLockedMergeCheckpoint {
            schema_version: self.schema_version.dup(),
            repository: self.repository.dup(),
            merge: self.merge.dup(),
            branch_lock: self.branch_lock.dup(),
            evidence_hash: self.evidence_hash.dup(),
        }
    }
}

/// The sealed result of a merge request or of one poll under a lock.
#[derive(Debug, PartialEq, Eq)]
pub struct GitHubStackLockedMergeReceipt {
    pub schema_version: u32,
    pub merge: GitHubStackMergeReceipt,
    pub branch_lock: GitHubStackBranchLockGeneration,
    pub branch_lock_verified: bool,
    pub checkpoint: Option<GitHubStackLockedMergeCheckpoint>,
    pub evidence_hash: String,
}

/// The content of a [`GitHubStackLockedMergeReceipt`].
#[verifier::ext_equal]
pub struct GitHubStackLockedMergeReceiptView {
    pub schema_version: u32,
    pub merge: GitHubStackMergeReceiptView,
    pub branch_lock: GitHubStackBranchLockGenerationView,
    pub branch_lock_verified: bool,
    pub checkpoint: Option<GitHubStackLockedMergeCheckpointView>,
    pub evidence_hash: Seq<char>,
}

impl DeepView for GitHubStackLockedMergeReceipt {
    type V = GitHubStackLockedMergeReceiptView;

    open spec fn deep_view(&self) -> GitHubStackLockedMergeReceiptView {
        GitHubStackLockedMergeReceiptView {
            schema_version: self.schema_version.deep_view(),
            merge: self.merge.deep_view(),
            branch_lock: self.branch_lock.deep_view(),
            branch_lock_verified: self.branch_lock_verified.deep_view(),
            checkpoint: self.checkpoint.deep_view(),
            evidence_hash: self.evidence_hash.deep_view(),
        }
    }
}

impl Clone for GitHubStackLockedMergeReceipt {
    fn clone(&self) -> (r: Self)
        ensures
            r.deep_view() == self.deep_view(),
    {
        self.dup()
    }
}

impl Model for GitHubStackLockedMergeReceipt {
    fn same(&self, other: &Self) -> (r: bool) {
        self.schema_version.same(&other.schema_version)
            && self.merge.same(&other.merge)
            && self.branch_lock.same(&other.branch_lock)
            && self.branch_lock_verified.same(&other.branch_lock_verified)
            && self.checkpoint.same(&other.checkpoint)
            && self.evidence_hash.same(&other.evidence_hash)
    }

    fn dup(&self) -> (r: Self) {
        GitHubStackLockedMergeReceipt {
            schema_version: self.schema_version.dup(),
            merge: self.merge.dup(),
            branch_lock: self.branch_lock.dup(),
            branch_lock_verified: self.branch_lock_verified.dup(),
            checkpoint: self.checkpoint.dup(),
            evidence_hash: self.evidence_hash.dup(),
        }
    }
}

/// How far a landing has come.
#[derive(Debug, Clone, Copy, PartialEq, Eq, PartialOrd, Ord, Structural)]
pub enum GitHubStackLandPhase {
    Planned,
    Locked,
    Submitted,
    Terminal,
    Released,
}

impl DeepView for GitHubStackLandPhase {
    type V = GitHubStackLandPhase;

    open spec fn deep_view(&self) -> GitHubStackLandPhase {
        *self
    }
}

impl Model for GitHubStackLandPhase {
    fn same(&self, other: &Self) -> (r: bool) {
        *self == *other
    }

    fn dup(&self) -> (r: Self) {
        *self
    }
}

/// A landing that a new process can go on with.
#[derive(Debug, PartialEq, Eq)]
pub struct GitHubStackLandCheckpoint {
    pub schema_version: u32,
    pub repository: RepositoryId,
    pub plan: GitHubStackAsyncMergePlan,
    pub phase: GitHubStackLandPhase,
    /// Always false: lock, merge and release are separate requests.
    pub provider_atomic: bool,
    pub branch_lock: Option<GitHubStackBranchLockGeneration>,
    pub merge: Option<GitHubStackLockedMergeCheckpoint>,
    pub terminal_status: Option<GitHubStackMergeStatus>,
    pub lock_release: Option<GitHubStackBranchLockReceipt>,
    pub evidence_hash: String,
}

/// The content of a [`GitHubStackLandCheckpoint`].
#[verifier::ext_equal]
pub struct GitHubStackLandCheckpointView {
    pub schema_version: u32,
    pub repository: RepositoryIdView,
    pub plan: GitHubStackAsyncMergePlanView,
    pub phase: GitHubStackLandPhase,
    pub provider_atomic: bool,
    pub branch_lock: Option<GitHubStackBranchLockGenerationView>,
    pub merge: Option<GitHubStackLockedMergeCheckpointView>,
    pub terminal_status: Option<GitHubStackMergeStatus>,
    pub lock_release: Option<GitHubStackBranchLockReceiptView>,
    pub evidence_hash: Seq<char>,
}

impl DeepView for GitHubStackLandCheckpoint {
    type V = GitHubStackLandCheckpointView;

    open spec fn deep_view(&self) -> GitHubStackLandCheckpointView {
        GitHubStackLandCheckpointView {
            schema_version: self.schema_version.deep_view(),
            repository: self.repository.deep_view(),
            plan: self.plan.deep_view(),
            phase: self.phase.deep_view(),
            provider_atomic: self.provider_atomic.deep_view(),
            branch_lock: self.branch_lock.deep_view(),
            merge: self.merge.deep_view(),
            terminal_status: self.terminal_status.deep_view(),
            lock_release: self.lock_release.deep_view(),
            evidence_hash: self.evidence_hash.deep_view(),
        }
    }
}

impl Clone for GitHubStackLandCheckpoint {
    fn clone(&self) -> (r: Self)
        ensures
            r.deep_view() == self.deep_view(),
    {
        self.dup()
    }
}

impl Model for GitHubStackLandCheckpoint {
    fn same(&self, other: &Self) -> (r: bool) {
        self.schema_version.same(&other.schema_version)
            && self.repository.same(&other.repository)
            && self.plan.same(&other.plan)
            && self.phase.same(&other.phase)
            && self.provider_atomic.same(&other.provider_atomic)
            && self.branch_lock.same(&other.branch_lock)
            && self.merge.same(&other.merge)
            && self.terminal_status.same(&other.terminal_status)
            && self.lock_release.same(&other.lock_release)
            && self.evidence_hash.same(&other.evidence_hash)
    }

    fn dup(&self) -> (r: Self) {
        GitHubStackLandCheckpoint {
            schema_version: self.schema_version.dup(),
            repository: self.repository.dup(),
            plan: self.plan.dup(),
            phase: self.phase.dup(),
            provider_atomic: self.provider_atomic.dup(),
            branch_lock: self.branch_lock.dup(),
            merge: self.merge.dup(),
            terminal_status: self.terminal_status.dup(),
            lock_release: self.lock_release.dup(),
            evidence_hash: self.evidence_hash.dup(),
        }
    }
}

/// Refusal of a step of a landing.
#[derive(Debug, PartialEq, Eq)]
pub enum GitHubStackLandError {
    InvalidCheckpoint {
        diagnostic: String,
    },
    OutOfOrder {
        expected: String,
        actual: GitHubStackLandPhase,
    },
    Lock(Box<GitHubStackBranchLockError>),
    Merge(Box<GitHubStackMergeError>),
}

/// The content of a [`GitHubStackLandError`].
pub enum GitHubStackLandErrorView {
    InvalidCheckpoint {
        diagnostic: Seq<char>,
    },
    OutOfOrder {
        expected: Seq<char>,
        actual: GitHubStackLandPhase,
    },
    Lock(GitHubStackBranchLockErrorView),
    Merge(GitHubStackMergeErrorView),
}

impl DeepView for GitHubStackLandError {
    type V = GitHubStackLandErrorView;

    open spec fn deep_view(&self) -> GitHubStackLandErrorView {
        match self {
            GitHubStackLandError::InvalidCheckpoint { diagnostic } => GitHubStackLandErrorView::InvalidCheckpoint {
                diagnostic: diagnostic.deep_view(),
            },
            GitHubStackLandError::OutOfOrder { expected, actual } => GitHubStackLandErrorView::OutOfOrder {
                expected: expected.deep_view(),
                actual: actual.deep_view(),
            },
            GitHubStackLandError::Lock(x) => GitHubStackLandErrorView::Lock(x.deep_view()),
            GitHubStackLandError::Merge(x) => GitHubStackLandErrorView::Merge(x.deep_view()),
        }
    }
}

impl JsonForm for GitHubStackLockedMergeCheckpoint {
    open spec fn form(content: GitHubStackLockedMergeCheckpointView) -> Json {
        let e = json::no_entries();
        let e = json::entry(e, "schema_version"@, <u32 as JsonForm>::form(content.schema_version));
        let e = json::entry(e, "repository"@, <RepositoryId as JsonForm>::form(content.repository));
        let e = json::entry(
            e,
            "merge"@,
            <GitHubStackMergeCheckpoint as JsonForm>::form(content.merge),
        );
        let e = json::entry(
            e,
            "branch_lock"@,
            <GitHubStackBranchLockGeneration as JsonForm>::form(content.branch_lock),
        );
        let e = json::entry(e, "evidence_hash"@, <String as JsonForm>::form(content.evidence_hash));
        json::object_of(e)
    }

    fn to_json(&self) -> (r: serde_json::Value) {
        Entries::new()
            .with("schema_version", self.schema_version.to_json())
            .with("repository", self.repository.to_json())
            .with("merge", self.merge.to_json())
            .with("branch_lock", self.branch_lock.to_json())
            .with("evidence_hash", self.evidence_hash.to_json())
            .object()
    }
}

impl JsonForm for GitHubStackLockedMergeReceipt {
    open spec fn form(content: GitHubStackLockedMergeReceiptView) -> Json {
        let e = json::no_entries();
        let e = json::entry(e, "schema_version"@, <u32 as JsonForm>::form(content.schema_version));
        let e = json::entry(
            e,
            "merge"@,
            <GitHubStackMergeReceipt as JsonForm>::form(content.merge),
        );
        let e = json::entry(
            e,
            "branch_lock"@,
            <GitHubStackBranchLockGeneration as JsonForm>::form(content.branch_lock),
        );
        let e = json::entry(
            e,
            "branch_lock_verified"@,
            <bool as JsonForm>::form(content.branch_lock_verified),
        );
        let e = json::entry_unless_null(
            e,
            "checkpoint"@,
            <Option<GitHubStackLockedMergeCheckpoint> as JsonForm>::form(content.checkpoint),
        );
        let e = json::entry(e, "evidence_hash"@, <String as JsonForm>::form(content.evidence_hash));
        json::object_of(e)
    }

    fn to_json(&self) -> (r: serde_json::Value) {
        Entries::new()
            .with("schema_version", self.schema_version.to_json())
            .with("merge", self.merge.to_json())
            .with("branch_lock", self.branch_lock.to_json())
            .with("branch_lock_verified", self.branch_lock_verified.to_json())
            .with_unless_null("checkpoint", self.checkpoint.to_json())
            .with("evidence_hash", self.evidence_hash.to_json())
            .object()
    }
}

impl JsonForm for GitHubStackLandPhase {
    open spec fn form(content: GitHubStackLandPhase) -> Json {
        match content {
            GitHubStackLandPhase::Planned => Json::Text("planned"@),
            GitHubStackLandPhase::Locked => Json::Text("locked"@),
            GitHubStackLandPhase::Submitted => Json::Text("submitted"@),
            GitHubStackLandPhase::Terminal => Json::Text("terminal"@),
            GitHubStackLandPhase::Released => Json::Text("released"@),
        }
    }

    fn to_json(&self) -> (r: serde_json::Value) {
        match self {
            GitHubStackLandPhase::Planned => json_string("planned"),
            GitHubStackLandPhase::Locked => json_string("locked"),
            GitHubStackLandPhase::Submitted => json_string("submitted"),
            GitHubStackLandPhase::Terminal => json_string("terminal"),
            GitHubStackLandPhase::Released => json_string("released"),
        }
    }
}

impl JsonForm for GitHubStackLandCheckpoint {
    open spec fn form(content: GitHubStackLandCheckpointView) -> Json {
        let e = json::no_entries();
        let e = json::entry(e, "schema_version"@, <u32 as JsonForm>::form(content.schema_version));
        let e = json::entry(e, "repository"@, <RepositoryId as JsonForm>::form(content.repository));
        let e = json::entry(
            e,
            "plan"@,
            <GitHubStackAsyncMergePlan as JsonForm>::form(content.plan),
        );
        let e = json::entry(e, "phase"@, <GitHubStackLandPhase as JsonForm>::form(content.phase));
        let e = json::entry(
            e,
            "provider_atomic"@,
            <bool as JsonForm>::form(content.provider_atomic),
        );
        let e = json::entry_unless_null(
            e,
            "branch_lock"@,
            <Option<GitHubStackBranchLockGeneration> as JsonForm>::form(content.branch_lock),
        );
        let e = json::entry_unless_null(
            e,
            "merge"@,
            <Option<GitHubStackLockedMergeCheckpoint> as JsonForm>::form(content.merge),
        );
        let e = json::entry_unless_null(
            e,
            "terminal_status"@,
            <Option<GitHubStackMergeStatus> as JsonForm>::form(content.terminal_status),
        );
        let e = json::entry_unless_null(
            e,
            "lock_release"@,
            <Option<GitHubStackBranchLockReceipt> as JsonForm>::form(content.lock_release),
        );
        let e = json::entry(e, "evidence_hash"@, <String as JsonForm>::form(content.evidence_hash));
        json::object_of(e)
    }

    fn to_json(&self) -> (r: serde_json::Value) {
        Entries::new()
            .with("schema_version", self.schema_version.to_json())
            .with("repository", self.repository.to_json())
            .with("plan", self.plan.to_json())
            .with("phase", self.phase.to_json())
            .with("provider_atomic", self.provider_atomic.to_json())
            .with_unless_null("branch_lock", self.branch_lock.to_json())
            .with_unless_null("merge", self.merge.to_json())
            .with_unless_null("terminal_status", self.terminal_status.to_json())
            .with_unless_null("lock_release", self.lock_release.to_json())
            .with("evidence_hash", self.evidence_hash.to_json())
            .object()
    }
}

impl GitHubStackLockedMergeCheckpointView {
    /// The checkpoint without its hash.
    pub open spec fn unsealed(self) -> GitHubStackLockedMergeCheckpointView {
        GitHubStackLockedMergeCheckpointView { evidence_hash: Seq::empty(), ..self }
    }

    /// The checkpoint with the hash of everything else in it.
    pub open spec fn sealed(self) -> GitHubStackLockedMergeCheckpointView {
        GitHubStackLockedMergeCheckpointView {
            evidence_hash: evidence::tree_hash(
                <GitHubStackLockedMergeCheckpoint as JsonForm>::form(self.unsealed()),
            ),
            ..self
        }
    }

    /// Whether the hash is that of everything else.
    pub open spec fn intact(self) -> bool {
        self == self.sealed()
    }
}

impl GitHubStackLockedMergeCheckpoint {
    /// The checkpoint with the hash of everything else in it.
    pub fn seal(self) -> (r: Self)
        ensures
            r.deep_view() == self.deep_view().sealed(),
    {
        let mut out = self.dup();
        out.evidence_hash = String::new();
        assert(out.deep_view() =~= self.deep_view().unsealed());
        let hash = hash_of(&out.to_json());
        out.evidence_hash = hash;
        out
    }

    /// Whether the hash is that of everything else.
    pub fn verify(&self) -> (r: bool)
        ensures
            r == self.deep_view().intact(),
    {
        let mut material = self.dup();
        material.evidence_hash = String::new();
        assert(material.deep_view() =~= self.deep_view().unsealed());
        let hash = hash_of(&material.to_json());
        let r = text_eq(hash.as_str(), self.evidence_hash.as_str());
        assert(r ==> self.deep_view() =~= self.deep_view().sealed());
        r
    }
}

/// A sealed checkpoint is intact, and sealing changes nothing but the hash.
pub proof fn lemma_sealed_locked_checkpoint_is_intact(
    checkpoint: GitHubStackLockedMergeCheckpointView,
)
    ensures
        checkpoint.sealed().intact(),
        checkpoint.sealed().unsealed() == checkpoint.unsealed(),
{
    assert(checkpoint.sealed().unsealed() =~= checkpoint.unsealed());
    assert(checkpoint.sealed().sealed() =~= checkpoint.sealed());
}


impl GitHubStackLockedMergeReceiptView {
    /// The receipt without its hash.
    pub open spec fn unsealed(self) -> GitHubStackLockedMergeReceiptView {
        GitHubStackLockedMergeReceiptView { evidence_hash: Seq::empty(), ..self }
    }

    /// The receipt with the hash of everything else in it.
    pub open spec fn sealed(self) -> GitHubStackLockedMergeReceiptView {
        GitHubStackLockedMergeReceiptView {
            evidence_hash: evidence::tree_hash(
                <GitHubStackLockedMergeReceipt as JsonForm>::form(self.unsealed()),
            ),
            ..self
        }
    }

    /// Whether the hash is that of everything else.
    pub open spec fn intact(self) -> bool {
        self == self.sealed()
    }
}

impl GitHubStackLockedMergeReceipt {
    /// The receipt with the hash of everything else in it.
    pub fn seal(self) -> (r: Self)
        ensures
            r.deep_view() == self.deep_view().sealed(),
    {
        let mut out = self.dup();
        out.evidence_hash = String::new();
        assert(out.deep_view() =~= self.deep_view().unsealed());
        let hash = hash_of(&out.to_json());
        out.evidence_hash = hash;
        out
    }

    /// Whether the hash is that of everything else.
    pub fn verify(&self) -> (r: bool)
        ensures
            r == self.deep_view().intact(),
    {
        let mut material = self.dup();
        material.evidence_hash = String::new();
        assert(material.deep_view() =~= self.deep_view().unsealed());
        let hash = hash_of(&material.to_json());
        let r = text_eq(hash.as_str(), self.evidence_hash.as_str());
        assert(r ==> self.deep_view() =~= self.deep_view().sealed());
        r
    }
}

/// A sealed receipt is intact, and sealing changes nothing but the hash.
pub proof fn lemma_sealed_locked_receipt_is_intact(receipt: GitHubStackLockedMergeReceiptView)
    ensures
        receipt.sealed().intact(),
        receipt.sealed().unsealed() == receipt.unsealed(),
{
    assert(receipt.sealed().unsealed() =~= receipt.unsealed());
    assert(receipt.sealed().sealed() =~= receipt.sealed());
}


impl GitHubStackLandCheckpointView {
    /// The checkpoint without its hash.
    pub open spec fn unsealed(self) -> GitHubStackLandCheckpointView {
        GitHubStackLandCheckpointView { evidence_hash: Seq::empty(), ..self }
    }

    /// The checkpoint with the hash of everything else in it.
    pub open spec fn sealed(self) -> GitHubStackLandCheckpointView {
        GitHubStackLandCheckpointView {
            evidence_hash: evidence::tree_hash(
                <GitHubStackLandCheckpoint as JsonForm>::form(self.unsealed()),
            ),
            ..self
        }
    }

    /// Whether the hash is that of everything else.
    pub open spec fn intact(self) -> bool {
        self == self.sealed()
    }
}

impl GitHubStackLandCheckpoint {
    /// The checkpoint with the hash of everything else in it.
    pub fn seal(self) -> (r: Self)
        ensures
            r.deep_view() == self.deep_view().sealed(),
    {
        let mut out = self.dup();
        out.evidence_hash = String::new();
        assert(out.deep_view() =~= self.deep_view().unsealed());
        let hash = hash_of(&out.to_json());
        out.evidence_hash = hash;
        out
    }

    /// Whether the hash is that of everything else.
    pub fn hash_holds(&self) -> (r: bool)
        ensures
            r == self.deep_view().intact(),
    {
        let mut material = self.dup();
        material.evidence_hash = String::new();
        assert(material.deep_view() =~= self.deep_view().unsealed());
        let hash = hash_of(&material.to_json());
        let r = text_eq(hash.as_str(), self.evidence_hash.as_str());
        assert(r ==> self.deep_view() =~= self.deep_view().sealed());
        r
    }
}

/// A sealed checkpoint is intact, and sealing changes nothing but the hash.
pub proof fn lemma_sealed_land_checkpoint_is_intact(checkpoint: GitHubStackLandCheckpointView)
    ensures
        checkpoint.sealed().intact(),
        checkpoint.sealed().unsealed() == checkpoint.unsealed(),
{
    assert(checkpoint.sealed().unsealed() =~= checkpoint.unsealed());
    assert(checkpoint.sealed().sealed() =~= checkpoint.sealed());
}


// ---------------------------------------------------------------------------
// Messages
// ---------------------------------------------------------------------------

/// The name of a phase.
pub open spec fn phase_name(phase: GitHubStackLandPhase) -> Seq<char> {
    match phase {
        GitHubStackLandPhase::Planned => "Planned"@,
        GitHubStackLandPhase::Locked => "Locked"@,
        GitHubStackLandPhase::Submitted => "Submitted"@,
        GitHubStackLandPhase::Terminal => "Terminal"@,
        GitHubStackLandPhase::Released => "Released"@,
    }
}

fn show_phase(phase: GitHubStackLandPhase) -> (r: &'static str)
    ensures
        r@ == phase_name(phase),
{
    match phase {
        GitHubStackLandPhase::Planned => "Planned",
        GitHubStackLandPhase::Locked => "Locked",
        GitHubStackLandPhase::Submitted => "Submitted",
        GitHubStackLandPhase::Terminal => "Terminal",
        GitHubStackLandPhase::Released => "Released",
    }
}

impl GitHubStackLandErrorView {
    /// The message of the error.
    pub open spec fn message(self) -> Seq<char> {
        match self {
            GitHubStackLandErrorView::InvalidCheckpoint { diagnostic } =>
                "invalid Stack land checkpoint: "@ + diagnostic,
            GitHubStackLandErrorView::OutOfOrder { expected, actual } =>
                "Stack land step requires "@ + expected + ", observed "@ + phase_name(actual),
            GitHubStackLandErrorView::Lock(error) => error.message(),
            GitHubStackLandErrorView::Merge(error) => error.message(),
        }
    }
}

impl GitHubStackLandError {
    /// The message of the error.
    pub fn to_text(&self) -> (r: String)
        ensures
            r@ == self.deep_view().message(),
    {
        match self {
            GitHubStackLandError::InvalidCheckpoint { diagnostic } =>
                "invalid Stack land checkpoint: ".to_owned().concat(diagnostic.as_str()),
            GitHubStackLandError::OutOfOrder { expected, actual } =>
                "Stack land step requires ".to_owned().concat(expected.as_str()).concat(
                ", observed ",
            ).concat(show_phase(*actual)),
            GitHubStackLandError::Lock(error) => error.to_text(),
            GitHubStackLandError::Merge(error) => error.to_text(),
        }
    }
}

/// The content of an outcome.
pub open spec fn land_view<T: DeepView>(outcome: Result<T, GitHubStackLandError>) -> Result<
    T::V,
    GitHubStackLandErrorView,
> {
    match outcome {
        Ok(value) => Ok(value.deep_view()),
        Err(error) => Err(error.deep_view()),
    }
}

// ---------------------------------------------------------------------------
// A merge under a lock
// ---------------------------------------------------------------------------

/// The receipt of a merge that ran under a lock.
pub open spec fn locked_receipt(
    repository: RepositoryIdView,
    merge: GitHubStackMergeReceiptView,
    lock: GitHubStackBranchLockGenerationView,
) -> GitHubStackLockedMergeReceiptView {
    GitHubStackLockedMergeReceiptView {
        schema_version: LAND_SCHEMA_VERSION,
        merge,
        branch_lock: lock,
        branch_lock_verified: true,
        checkpoint: match merge.checkpoint {
            Some(checkpoint) => Some(
                GitHubStackLockedMergeCheckpointView {
                    schema_version: LAND_SCHEMA_VERSION,
                    repository,
                    merge: checkpoint,
                    branch_lock: lock,
                    evidence_hash: Seq::empty(),
                }.sealed(),
            ),
            None => None,
        },
        evidence_hash: Seq::empty(),
    }.sealed()
}

fn make_locked_receipt(
    repository: &RepositoryId,
    merge: GitHubStackMergeReceipt,
    lock: GitHubStackBranchLockGeneration,
) -> (r: GitHubStackLockedMergeReceipt)
    ensures
        r.deep_view() == locked_receipt(
            repository.deep_view(),
            merge.deep_view(),
            lock.deep_view(),
        ),
{
    let checkpoint = match &merge.checkpoint {
        Some(checkpoint) => {
            let locked = GitHubStackLockedMergeCheckpoint {
                schema_version: LAND_SCHEMA_VERSION,
                repository: repository.dup(),
                merge: checkpoint.dup(),
                branch_lock: lock.dup(),
                evidence_hash: String::new(),
            };
            assert(locked.deep_view().evidence_hash =~= Seq::empty());
            Some(locked.seal())
        },
        None => None,
    };
    let receipt = GitHubStackLockedMergeReceipt {
        schema_version: LAND_SCHEMA_VERSION,
        merge,
        branch_lock: lock,
        branch_lock_verified: true,
        checkpoint,
        evidence_hash: String::new(),
    };
    assert(receipt.deep_view().evidence_hash =~= Seq::empty());
    receipt.seal()
}

/// A merge under a lock, from the end of the merge.
pub open spec fn locked_outcome(
    repository: RepositoryIdView,
    lock: GitHubStackBranchLockGenerationView,
    merged: Result<GitHubStackMergeReceiptView, GitHubStackMergeErrorView>,
) -> Result<GitHubStackLockedMergeReceiptView, GitHubStackLandErrorView> {
    match merged {
        Err(error) => Err(GitHubStackLandErrorView::Merge(error)),
        Ok(merge) => Ok(locked_receipt(repository, merge, lock)),
    }
}

fn close_locked(
    repository: &RepositoryId,
    lock: GitHubStackBranchLockGeneration,
    merged: Result<GitHubStackMergeReceipt, GitHubStackMergeError>,
) -> (r: Result<GitHubStackLockedMergeReceipt, GitHubStackLandError>)
    ensures
        land_view(r) == locked_outcome(
            repository.deep_view(),
            lock.deep_view(),
            stack_merge::merge_view(merged),
        ),
{
    match merged {
        Err(error) => Err(GitHubStackLandError::Merge(Box::new(error))),
        Ok(merge) => Ok(make_locked_receipt(repository, merge, lock)),
    }
}

/// Asking for a merge under a confirmed lock may end so.
pub open spec fn submitted_under<R: CommandRunner>(
    runner: R,
    repository: RepositoryIdView,
    plan: GitHubStackAsyncMergePlanView,
    lock: GitHubStackBranchLockGenerationView,
    outcome: Result<GitHubStackLockedMergeReceiptView, GitHubStackLandErrorView>,
) -> bool {
    exists|merged: Result<GitHubStackMergeReceiptView, GitHubStackMergeErrorView>| #[trigger]
        stack_merge::merge_submitted(runner, repository, plan, merged) && outcome
            == locked_outcome(repository, lock, merged)
}

/// Asking for a merge under a lock may end so. The lock must still be the
/// expected one.
pub open spec fn submitted_locked<R: CommandRunner>(
    runner: R,
    repository: RepositoryIdView,
    plan: GitHubStackAsyncMergePlanView,
    expected: GitHubStackBranchLockGenerationView,
    outcome: Result<GitHubStackLockedMergeReceiptView, GitHubStackLandErrorView>,
) -> bool {
    exists|
        held: Result<GitHubStackBranchLockGenerationView, GitHubStackBranchLockErrorView>,
    | #[trigger]
        stack_lock::lock_verified(runner, repository, expected, held) && match held {
            Err(error) => outcome == Err::<GitHubStackLockedMergeReceiptView, _>(
                GitHubStackLandErrorView::Lock(error),
            ),
            Ok(lock) => submitted_under(runner, repository, plan, lock, outcome),
        }
}

/// Polling a merge under a confirmed lock may end so.
pub open spec fn polled_under<R: CommandRunner>(
    runner: R,
    repository: RepositoryIdView,
    checkpoint: GitHubStackMergeCheckpointView,
    lock: GitHubStackBranchLockGenerationView,
    outcome: Result<GitHubStackLockedMergeReceiptView, GitHubStackLandErrorView>,
) -> bool {
    exists|merged: Result<GitHubStackMergeReceiptView, GitHubStackMergeErrorView>| #[trigger]
        stack_merge::merge_polled(runner, repository, checkpoint, merged) && outcome
            == locked_outcome(repository, lock, merged)
}

/// Whether a checkpoint of a merge under a lock can be polled.
pub open spec fn locked_accepted(
    repository: RepositoryIdView,
    checkpoint: GitHubStackLockedMergeCheckpointView,
) -> bool {
    checkpoint.schema_version == LAND_SCHEMA_VERSION && checkpoint.repository == repository
        && checkpoint.intact()
}

/// A checkpoint that is refused.
pub open spec fn bad_land(diagnostic: Seq<char>) -> GitHubStackLandErrorView {
    GitHubStackLandErrorView::InvalidCheckpoint { diagnostic }
}

fn bad(diagnostic: &str) -> (r: GitHubStackLandError)
    ensures
        r.deep_view() == bad_land(diagnostic@),
{
    GitHubStackLandError::InvalidCheckpoint { diagnostic: diagnostic.to_owned() }
}

/// Polling a merge under its lock may end so.
pub open spec fn polled_held<R: CommandRunner>(
    runner: R,
    repository: RepositoryIdView,
    checkpoint: GitHubStackLockedMergeCheckpointView,
    outcome: Result<GitHubStackLockedMergeReceiptView, GitHubStackLandErrorView>,
) -> bool {
    exists|
        held: Result<GitHubStackBranchLockGenerationView, GitHubStackBranchLockErrorView>,
    | #[trigger]
        stack_lock::lock_verified(runner, repository, checkpoint.branch_lock, held) && match held {
            Err(error) => outcome == Err::<GitHubStackLockedMergeReceiptView, _>(
                GitHubStackLandErrorView::Lock(error),
            ),
            Ok(lock) => polled_under(runner, repository, checkpoint.merge, lock, outcome),
        }
}

/// Polling a merge under a lock may end so.
pub open spec fn polled_locked<R: CommandRunner>(
    runner: R,
    repository: RepositoryIdView,
    checkpoint: GitHubStackLockedMergeCheckpointView,
    outcome: Result<GitHubStackLockedMergeReceiptView, GitHubStackLandErrorView>,
) -> bool {
    if !locked_accepted(repository, checkpoint) {
        outcome == Err::<GitHubStackLockedMergeReceiptView, _>(
            bad_land("locked merge schema, repository, or hash is invalid"@),
        )
    } else {
        polled_held(runner, repository, checkpoint, outcome)
    }
}

// ---------------------------------------------------------------------------
// Phases
// ---------------------------------------------------------------------------

impl GitHubStackLandPhase {
    /// The place of the phase in the order.
    pub open spec fn rank(self) -> nat {
        match self {
            GitHubStackLandPhase::Planned => 0,
            GitHubStackLandPhase::Locked => 1,
            GitHubStackLandPhase::Submitted => 2,
            GitHubStackLandPhase::Terminal => 3,
            GitHubStackLandPhase::Released => 4,
        }
    }

    /// Whether another phase is reached.
    pub fn has_reached(self, other: GitHubStackLandPhase) -> (r: bool)
        ensures
            r == (self.rank() >= other.rank()),
    {
        match other {
            GitHubStackLandPhase::Planned => true,
            GitHubStackLandPhase::Locked => !self.same(&GitHubStackLandPhase::Planned),
            GitHubStackLandPhase::Submitted => !self.same(&GitHubStackLandPhase::Planned)
                && !self.same(&GitHubStackLandPhase::Locked),
            GitHubStackLandPhase::Terminal => self.same(&GitHubStackLandPhase::Terminal)
                || self.same(&GitHubStackLandPhase::Released),
            GitHubStackLandPhase::Released => self.same(&GitHubStackLandPhase::Released),
        }
    }
}

impl GitHubStackLandCheckpointView {
    /// Whether the checkpoint holds exactly the evidence that its phase calls
    /// for.
    pub open spec fn well_shaped(self) -> bool {
        match self.phase {
            GitHubStackLandPhase::Planned => self.branch_lock is None && self.merge is None
                && self.terminal_status is None && self.lock_release is None,
            GitHubStackLandPhase::Locked => self.branch_lock is Some && self.merge is None
                && self.terminal_status is None && self.lock_release is None,
            GitHubStackLandPhase::Submitted => self.branch_lock is Some && self.merge is Some
                && self.terminal_status is None && self.lock_release is None,
            GitHubStackLandPhase::Terminal => self.branch_lock is Some && self.terminal_status
                is Some && self.lock_release is None,
            GitHubStackLandPhase::Released => self.branch_lock is Some && self.terminal_status
                is Some && self.lock_release is Some,
        }
    }

    /// Whether the checkpoint can be gone on with.
    pub open spec fn valid(self) -> bool {
        self.schema_version == LAND_SCHEMA_VERSION && !self.provider_atomic && self.well_shaped()
            && self.intact()
    }

    /// The lock that the landing still owns.
    pub open spec fn outstanding(self) -> Option<GitHubStackBranchLockGenerationView> {
        match self.phase {
            GitHubStackLandPhase::Planned => None,
            GitHubStackLandPhase::Released => None,
            _ => self.branch_lock,
        }
    }
}

impl GitHubStackLandCheckpoint {
    fn shape_holds(&self) -> (r: bool)
        ensures
            r == self.deep_view().well_shaped(),
    {
        match self.phase {
            GitHubStackLandPhase::Planned => self.branch_lock.is_none() && self.merge.is_none()
                && self.terminal_status.is_none() && self.lock_release.is_none(),
            GitHubStackLandPhase::Locked => self.branch_lock.is_some() && self.merge.is_none()
                && self.terminal_status.is_none() && self.lock_release.is_none(),
            GitHubStackLandPhase::Submitted => self.branch_lock.is_some() && self.merge.is_some()
                && self.terminal_status.is_none() && self.lock_release.is_none(),
            GitHubStackLandPhase::Terminal => self.branch_lock.is_some()
                && self.terminal_status.is_some() && self.lock_release.is_none(),
            GitHubStackLandPhase::Released => self.branch_lock.is_some()
                && self.terminal_status.is_some() && self.lock_release.is_some(),
        }
    }

    /// Whether the checkpoint can be gone on with.
    pub fn verify(&self) -> (r: bool)
        ensures
            r == self.deep_view().valid(),
    {
        self.schema_version == LAND_SCHEMA_VERSION && !self.provider_atomic && self.shape_holds()
            && self.hash_holds()
    }

    /// The lock that the landing still owns and must give back.
    pub fn outstanding_lock(&self) -> (r: Option<&GitHubStackBranchLockGeneration>)
        ensures
            match r {
                Some(lock) => self.deep_view().outstanding() == Some(lock.deep_view()),
                None => self.deep_view().outstanding() is None,
            },
    {
        match self.phase {
            GitHubStackLandPhase::Planned => None,
            GitHubStackLandPhase::Released => None,
            _ => match &self.branch_lock {
                Some(lock) => Some(lock),
                None => None,
            },
        }
    }
}

/// Whether a checkpoint can be gone on with in a repository.
pub open spec fn land_accepted(
    repository: RepositoryIdView,
    checkpoint: GitHubStackLandCheckpointView,
) -> bool {
    checkpoint.repository == repository && checkpoint.valid()
}

/// The refusal of a checkpoint.
pub open spec fn land_refused() -> GitHubStackLandErrorView {
    bad_land("schema, repository, phase evidence, or hash is invalid"@)
}

fn validate(repository: &RepositoryId, checkpoint: &GitHubStackLandCheckpoint) -> (r: Result<
    (),
    GitHubStackLandError,
>)
    ensures
        land_view(r) == if land_accepted(repository.deep_view(), checkpoint.deep_view()) {
            Ok(())
        } else {
            Err(land_refused())
        },
{
    if !checkpoint.repository.same(repository) || !checkpoint.verify() {
        return Err(bad("schema, repository, phase evidence, or hash is invalid"));
    }
    Ok(())
}

/// A step that comes too early.
pub open spec fn out_of_order(
    expected: Seq<char>,
    actual: GitHubStackLandPhase,
) -> GitHubStackLandErrorView {
    GitHubStackLandErrorView::OutOfOrder { expected, actual }
}

fn too_early(expected: &str, actual: GitHubStackLandPhase) -> (r: GitHubStackLandError)
    ensures
        r.deep_view() == out_of_order(expected@, actual),
{
    GitHubStackLandError::OutOfOrder { expected: expected.to_owned(), actual }
}

// ---------------------------------------------------------------------------
// Steps
// ---------------------------------------------------------------------------

/// A landing that has not started.
pub open spec fn begun(
    repository: RepositoryIdView,
    plan: GitHubStackAsyncMergePlanView,
) -> GitHubStackLandCheckpointView {
    GitHubStackLandCheckpointView {
        schema_version: LAND_SCHEMA_VERSION,
        repository,
        plan,
        phase: GitHubStackLandPhase::Planned,
        provider_atomic: false,
        branch_lock: None,
        merge: None,
        terminal_status: None,
        lock_release: None,
        evidence_hash: Seq::empty(),
    }.sealed()
}

/// A landing after its lock was asked for.
pub open spec fn after_lock(
    checkpoint: GitHubStackLandCheckpointView,
    taken: Result<GitHubStackBranchLockReceiptView, GitHubStackBranchLockErrorView>,
) -> Result<GitHubStackLandCheckpointView, GitHubStackLandErrorView> {
    match taken {
        Err(error) => Err(GitHubStackLandErrorView::Lock(error)),
        Ok(receipt) => match receipt.lock {
            None => Err(bad_land("lock acquisition returned no exact ruleset generation"@)),
            Some(lock) => Ok(
                GitHubStackLandCheckpointView {
                    phase: GitHubStackLandPhase::Locked,
                    branch_lock: Some(lock),
                    ..checkpoint
                }.sealed(),
            ),
        },
    }
}

/// A landing after its lock was asked for.
pub fn judge_lock_step(
    checkpoint: &GitHubStackLandCheckpoint,
    taken: Result<GitHubStackBranchLockReceipt, GitHubStackBranchLockError>,
) -> (r: Result<GitHubStackLandCheckpoint, GitHubStackLandError>)
    ensures
        land_view(r) == after_lock(checkpoint.deep_view(), stack_lock::lock_view(taken)),
{
    match taken {
        Err(error) => Err(GitHubStackLandError::Lock(Box::new(error))),
        Ok(receipt) => match receipt.lock {
            None => Err(bad("lock acquisition returned no exact ruleset generation")),
            Some(lock) => {
                let mut next = checkpoint.dup();
                next.phase = GitHubStackLandPhase::Locked;
                next.branch_lock = Some(lock);
                Ok(next.seal())
            },
        },
    }
}

/// Whether a merge has ended. An end that cannot be told is one too: its lock
/// must be given back.
pub open spec fn has_ended(status: GitHubStackMergeStatus) -> bool {
    status == GitHubStackMergeStatus::Merged || status == GitHubStackMergeStatus::Failed || status
        == GitHubStackMergeStatus::Indeterminate
}

/// A landing after a merge request or a poll.
pub open spec fn advanced(
    checkpoint: GitHubStackLandCheckpointView,
    receipt: GitHubStackLockedMergeReceiptView,
) -> GitHubStackLandCheckpointView {
    GitHubStackLandCheckpointView {
        branch_lock: Some(receipt.branch_lock),
        merge: receipt.checkpoint,
        phase: if has_ended(receipt.merge.status) {
            GitHubStackLandPhase::Terminal
        } else {
            GitHubStackLandPhase::Submitted
        },
        terminal_status: if has_ended(receipt.merge.status) {
            Some(receipt.merge.status)
        } else {
            checkpoint.terminal_status
        },
        ..checkpoint
    }.sealed()
}

/// A landing after a merge request or a poll.
pub fn advance(
    checkpoint: &GitHubStackLandCheckpoint,
    receipt: &GitHubStackLockedMergeReceipt,
) -> (r: GitHubStackLandCheckpoint)
    ensures
        r.deep_view() == advanced(checkpoint.deep_view(), receipt.deep_view()),
{
    let mut next = checkpoint.dup();
    next.branch_lock = Some(receipt.branch_lock.dup());
    next.merge = receipt.checkpoint.dup();
    match receipt.merge.status {
        GitHubStackMergeStatus::Merged
        | GitHubStackMergeStatus::Failed
        | GitHubStackMergeStatus::Indeterminate => {
            next.phase = GitHubStackLandPhase::Terminal;
            next.terminal_status = Some(receipt.merge.status);
        },
        GitHubStackMergeStatus::Submitted
        | GitHubStackMergeStatus::Pending
        | GitHubStackMergeStatus::Enqueued => {
            next.phase = GitHubStackLandPhase::Submitted;
        },
    }
    next.seal()
}

/// A landing after the end of a merge request or a poll.
pub open spec fn after_merge(
    checkpoint: GitHubStackLandCheckpointView,
    merged: Result<GitHubStackLockedMergeReceiptView, GitHubStackLandErrorView>,
) -> Result<GitHubStackLandCheckpointView, GitHubStackLandErrorView> {
    match merged {
        Err(error) => Err(error),
        Ok(receipt) => Ok(advanced(checkpoint, receipt)),
    }
}

/// A landing after its lock was given back.
pub open spec fn after_release(
    checkpoint: GitHubStackLandCheckpointView,
    given: Result<GitHubStackBranchLockReceiptView, GitHubStackBranchLockErrorView>,
) -> Result<GitHubStackLandCheckpointView, GitHubStackLandErrorView> {
    match given {
        Err(error) => Err(GitHubStackLandErrorView::Lock(error)),
        Ok(receipt) => Ok(
            GitHubStackLandCheckpointView {
                phase: GitHubStackLandPhase::Released,
                lock_release: Some(receipt),
                ..checkpoint
            }.sealed(),
        ),
    }
}

/// A landing after its lock was given back.
pub fn judge_release_step(
    checkpoint: &GitHubStackLandCheckpoint,
    given: Result<GitHubStackBranchLockReceipt, GitHubStackBranchLockError>,
) -> (r: Result<GitHubStackLandCheckpoint, GitHubStackLandError>)
    ensures
        land_view(r) == after_release(checkpoint.deep_view(), stack_lock::lock_view(given)),
{
    match given {
        Err(error) => Err(GitHubStackLandError::Lock(Box::new(error))),
        Ok(receipt) => {
            let mut next = checkpoint.dup();
            next.phase = GitHubStackLandPhase::Released;
            next.lock_release = Some(receipt);
            Ok(next.seal())
        },
    }
}

/// Taking the lock of a landing may end so.
pub open spec fn lock_sent<R: CommandRunner>(
    runner: R,
    repository: RepositoryIdView,
    checkpoint: GitHubStackLandCheckpointView,
    outcome: Result<GitHubStackLandCheckpointView, GitHubStackLandErrorView>,
) -> bool {
    exists|
        taken: Result<GitHubStackBranchLockReceiptView, GitHubStackBranchLockErrorView>,
    | #[trigger]
        stack_lock::acquired(runner, repository, checkpoint.plan.lock_plan(), taken) && outcome
            == after_lock(checkpoint, taken)
}

/// The lock step of a landing may end so.
pub open spec fn land_locked<R: CommandRunner>(
    runner: R,
    repository: RepositoryIdView,
    checkpoint: GitHubStackLandCheckpointView,
    outcome: Result<GitHubStackLandCheckpointView, GitHubStackLandErrorView>,
) -> bool {
    if !land_accepted(repository, checkpoint) {
        outcome == Err::<GitHubStackLandCheckpointView, _>(land_refused())
    } else if checkpoint.phase.rank() >= GitHubStackLandPhase::Locked.rank() {
        outcome == Ok::<_, GitHubStackLandErrorView>(checkpoint)
    } else {
        lock_sent(runner, repository, checkpoint, outcome)
    }
}

/// Asking for the merge of a landing may end so.
pub open spec fn submit_sent<R: CommandRunner>(
    runner: R,
    repository: RepositoryIdView,
    checkpoint: GitHubStackLandCheckpointView,
    outcome: Result<GitHubStackLandCheckpointView, GitHubStackLandErrorView>,
) -> bool {
    exists|
        merged: Result<GitHubStackLockedMergeReceiptView, GitHubStackLandErrorView>,
    | #[trigger]
        submitted_locked(
            runner,
            repository,
            checkpoint.plan,
            checkpoint.branch_lock->0,
            merged,
        ) && outcome == after_merge(checkpoint, merged)
}

/// The merge step of a landing may end so.
pub open spec fn land_submitted<R: CommandRunner>(
    runner: R,
    repository: RepositoryIdView,
    checkpoint: GitHubStackLandCheckpointView,
    outcome: Result<GitHubStackLandCheckpointView, GitHubStackLandErrorView>,
) -> bool {
    if !land_accepted(repository, checkpoint) {
        outcome == Err::<GitHubStackLandCheckpointView, _>(land_refused())
    } else if checkpoint.phase.rank() >= GitHubStackLandPhase::Submitted.rank() {
        outcome == Ok::<_, GitHubStackLandErrorView>(checkpoint)
    } else if checkpoint.phase == GitHubStackLandPhase::Planned {
        outcome == Err::<GitHubStackLandCheckpointView, _>(
            out_of_order("an acquired complete-group lock"@, checkpoint.phase),
        )
    } else {
        submit_sent(runner, repository, checkpoint, outcome)
    }
}

/// Polling the merge of a landing may end so.
pub open spec fn poll_sent<R: CommandRunner>(
    runner: R,
    repository: RepositoryIdView,
    checkpoint: GitHubStackLandCheckpointView,
    outcome: Result<GitHubStackLandCheckpointView, GitHubStackLandErrorView>,
) -> bool {
    exists|
        merged: Result<GitHubStackLockedMergeReceiptView, GitHubStackLandErrorView>,
    | #[trigger]
        polled_locked(runner, repository, checkpoint.merge->0, merged) && outcome == after_merge(
            checkpoint,
            merged,
        )
}

/// The poll step of a landing may end so.
pub open spec fn land_polled<R: CommandRunner>(
    runner: R,
    repository: RepositoryIdView,
    checkpoint: GitHubStackLandCheckpointView,
    outcome: Result<GitHubStackLandCheckpointView, GitHubStackLandErrorView>,
) -> bool {
    if !land_accepted(repository, checkpoint) {
        outcome == Err::<GitHubStackLandCheckpointView, _>(land_refused())
    } else if checkpoint.phase.rank() >= GitHubStackLandPhase::Terminal.rank() {
        outcome == Ok::<_, GitHubStackLandErrorView>(checkpoint)
    } else if checkpoint.phase != GitHubStackLandPhase::Submitted {
        outcome == Err::<GitHubStackLandCheckpointView, _>(
            out_of_order("a submitted merge with a durable UUID checkpoint"@, checkpoint.phase),
        )
    } else {
        poll_sent(runner, repository, checkpoint, outcome)
    }
}

/// Giving back the lock of a landing may end so.
pub open spec fn release_sent<R: CommandRunner>(
    runner: R,
    repository: RepositoryIdView,
    checkpoint: GitHubStackLandCheckpointView,
    outcome: Result<GitHubStackLandCheckpointView, GitHubStackLandErrorView>,
) -> bool {
    exists|
        given: Result<GitHubStackBranchLockReceiptView, GitHubStackBranchLockErrorView>,
    | #[trigger]
        stack_lock::released(
            runner,
            repository,
            checkpoint.plan.lock_plan(),
            checkpoint.branch_lock->0,
            given,
        ) && outcome == after_release(checkpoint, given)
}

/// The release step of a landing may end so.
pub open spec fn land_released<R: CommandRunner>(
    runner: R,
    repository: RepositoryIdView,
    checkpoint: GitHubStackLandCheckpointView,
    outcome: Result<GitHubStackLandCheckpointView, GitHubStackLandErrorView>,
) -> bool {
    if !land_accepted(repository, checkpoint) {
        outcome == Err::<GitHubStackLandCheckpointView, _>(land_refused())
    } else if checkpoint.phase == GitHubStackLandPhase::Released {
        outcome == Ok::<_, GitHubStackLandErrorView>(checkpoint)
    } else if checkpoint.phase != GitHubStackLandPhase::Terminal {
        outcome == Err::<GitHubStackLandCheckpointView, _>(
            out_of_order("terminal provider proof for every selected entry"@, checkpoint.phase),
        )
    } else {
        release_sent(runner, repository, checkpoint, outcome)
    }
}

// ---------------------------------------------------------------------------
// Laws
// ---------------------------------------------------------------------------

/// A step of a landing that was taken is not taken again: once the phase is
/// reached, the step returns the checkpoint as it is and runs nothing.
pub proof fn lemma_taken_steps_change_nothing<R: CommandRunner>(
    runner: R,
    repository: RepositoryIdView,
    checkpoint: GitHubStackLandCheckpointView,
    outcome: Result<GitHubStackLandCheckpointView, GitHubStackLandErrorView>,
)
    requires
        land_accepted(repository, checkpoint),
    ensures
        checkpoint.phase.rank() >= GitHubStackLandPhase::Locked.rank() ==> may_land_lock(
            runner,
            repository,
            checkpoint,
        ) && (land_locked(runner, repository, checkpoint, outcome) <==> outcome == Ok::<
            _,
            GitHubStackLandErrorView,
        >(checkpoint)),
        checkpoint.phase.rank() >= GitHubStackLandPhase::Submitted.rank() ==> may_land_submit(
            runner,
            repository,
            checkpoint,
        ) && (land_submitted(runner, repository, checkpoint, outcome) <==> outcome == Ok::<
            _,
            GitHubStackLandErrorView,
        >(checkpoint)),
        checkpoint.phase.rank() >= GitHubStackLandPhase::Terminal.rank() ==> may_land_poll(
            runner,
            repository,
            checkpoint,
        ) && (land_polled(runner, repository, checkpoint, outcome) <==> outcome == Ok::<
            _,
            GitHubStackLandErrorView,
        >(checkpoint)),
        checkpoint.phase.rank() >= GitHubStackLandPhase::Released.rank() ==> may_land_release(
            runner,
            repository,
            checkpoint,
        ) && (land_released(runner, repository, checkpoint, outcome) <==> outcome == Ok::<
            _,
            GitHubStackLandErrorView,
        >(checkpoint)),
{
}

/// A landing that begins is valid, and owns no lock.
pub proof fn lemma_begun_is_valid(
    repository: RepositoryIdView,
    plan: GitHubStackAsyncMergePlanView,
)
    ensures
        land_accepted(repository, begun(repository, plan)),
        begun(repository, plan).plan == plan,
        begun(repository, plan).outstanding() is None,
{
    lemma_sealed_land_checkpoint_is_intact(
        GitHubStackLandCheckpointView {
            schema_version: LAND_SCHEMA_VERSION,
            repository,
            plan,
            phase: GitHubStackLandPhase::Planned,
            provider_atomic: false,
            branch_lock: None,
            merge: None,
            terminal_status: None,
            lock_release: None,
            evidence_hash: Seq::empty(),
        },
    );
}

/// Whether a landing may follow another: it is valid, goes on with the same
/// plan, and never goes back.
pub open spec fn follows(
    repository: RepositoryIdView,
    before: GitHubStackLandCheckpointView,
    after: GitHubStackLandCheckpointView,
) -> bool {
    land_accepted(repository, after) && after.plan == before.plan && after.phase.rank()
        >= before.phase.rank()
}

/// A valid landing owns a lock exactly from the lock step to the release.
pub proof fn lemma_outstanding_lock(checkpoint: GitHubStackLandCheckpointView)
    requires
        checkpoint.valid(),
    ensures
        checkpoint.outstanding() is Some <==> (GitHubStackLandPhase::Locked.rank()
            <= checkpoint.phase.rank() <= GitHubStackLandPhase::Terminal.rank()),
{
}

/// The lock step of a landing leads to a valid landing that owns the lock. Once
/// the lock was taken, the step changes nothing.
pub proof fn lemma_lock_step<R: CommandRunner>(
    runner: R,
    repository: RepositoryIdView,
    checkpoint: GitHubStackLandCheckpointView,
    next: GitHubStackLandCheckpointView,
)
    requires
        land_locked(runner, repository, checkpoint, Ok(next)),
    ensures
        follows(repository, checkpoint, next),
        checkpoint.phase == GitHubStackLandPhase::Planned ==> next.phase
            == GitHubStackLandPhase::Locked && next.outstanding() is Some,
        checkpoint.phase != GitHubStackLandPhase::Planned ==> next == checkpoint,
{
    if checkpoint.phase == GitHubStackLandPhase::Planned {
        let taken = choose|
            taken: Result<GitHubStackBranchLockReceiptView, GitHubStackBranchLockErrorView>,
        | #[trigger]
            stack_lock::acquired(runner, repository, checkpoint.plan.lock_plan(), taken) && Ok::<
                _,
                GitHubStackLandErrorView,
            >(next) == after_lock(checkpoint, taken);
        lemma_sealed_land_checkpoint_is_intact(
            GitHubStackLandCheckpointView {
                phase: GitHubStackLandPhase::Locked,
                branch_lock: taken->Ok_0.lock,
                ..checkpoint
            },
        );
    }
}

proof fn lemma_advanced(
    repository: RepositoryIdView,
    checkpoint: GitHubStackLandCheckpointView,
    merge: GitHubStackMergeReceiptView,
    lock: GitHubStackBranchLockGenerationView,
)
    requires
        land_accepted(repository, checkpoint),
        checkpoint.phase.rank() <= GitHubStackLandPhase::Submitted.rank(),
        !has_ended(merge.status) ==> merge.checkpoint is Some,
    ensures
        follows(
            repository,
            checkpoint,
            advanced(checkpoint, locked_receipt(repository, merge, lock)),
        ),
        advanced(checkpoint, locked_receipt(repository, merge, lock)).phase.rank()
            >= GitHubStackLandPhase::Submitted.rank(),
        advanced(checkpoint, locked_receipt(repository, merge, lock)).outstanding() == Some(lock),
        advanced(checkpoint, locked_receipt(repository, merge, lock)).phase
            == GitHubStackLandPhase::Terminal <==> has_ended(merge.status),
{
    let receipt = locked_receipt(repository, merge, lock);
    lemma_sealed_land_checkpoint_is_intact(
        GitHubStackLandCheckpointView {
            branch_lock: Some(receipt.branch_lock),
            merge: receipt.checkpoint,
            phase: if has_ended(receipt.merge.status) {
                GitHubStackLandPhase::Terminal
            } else {
                GitHubStackLandPhase::Submitted
            },
            terminal_status: if has_ended(receipt.merge.status) {
                Some(receipt.merge.status)
            } else {
                checkpoint.terminal_status
            },
            ..checkpoint
        },
    );
}

/// The merge step of a landing needs the lock, leads to a valid landing that
/// still owns it, and changes nothing once the merge was asked for.
pub proof fn lemma_submit_step<R: CommandRunner>(
    runner: R,
    repository: RepositoryIdView,
    checkpoint: GitHubStackLandCheckpointView,
    next: GitHubStackLandCheckpointView,
)
    requires
        land_submitted(runner, repository, checkpoint, Ok(next)),
    ensures
        follows(repository, checkpoint, next),
        checkpoint.phase != GitHubStackLandPhase::Planned,
        checkpoint.phase == GitHubStackLandPhase::Locked ==> next.outstanding()
            == checkpoint.branch_lock,
        checkpoint.phase != GitHubStackLandPhase::Locked ==> next == checkpoint,
{
    if checkpoint.phase == GitHubStackLandPhase::Locked {
        let plan = checkpoint.plan;
        let expected = checkpoint.branch_lock->0;
        let merged = choose|
            merged: Result<GitHubStackLockedMergeReceiptView, GitHubStackLandErrorView>,
        | #[trigger]
            submitted_locked(runner, repository, plan, expected, merged) && Ok::<
                _,
                GitHubStackLandErrorView,
            >(next) == after_merge(checkpoint, merged);
        let held = choose|
            held: Result<GitHubStackBranchLockGenerationView, GitHubStackBranchLockErrorView>,
        | #[trigger]
            stack_lock::lock_verified(runner, repository, expected, held) && match held {
                Err(error) => merged == Err::<GitHubStackLockedMergeReceiptView, _>(
                    GitHubStackLandErrorView::Lock(error),
                ),
                Ok(lock) => submitted_under(runner, repository, plan, lock, merged),
            };
        let lock = held->Ok_0;
        stack_lock::lemma_confirmed_lock_is_exact(runner, repository, expected, lock);
        let sent = choose|sent: Result<GitHubStackMergeReceiptView, GitHubStackMergeErrorView>|
            #[trigger]
            stack_merge::merge_submitted(runner, repository, plan, sent) && merged
                == locked_outcome(repository, lock, sent);
        stack_merge::lemma_submitted_receipt(runner, repository, plan, sent->Ok_0);
        lemma_advanced(repository, checkpoint, sent->Ok_0, lock);
    }
}

/// The poll step of a landing leads to a valid landing that still owns the
/// lock, and changes nothing once the merge has ended.
pub proof fn lemma_poll_step<R: CommandRunner>(
    runner: R,
    repository: RepositoryIdView,
    checkpoint: GitHubStackLandCheckpointView,
    next: GitHubStackLandCheckpointView,
)
    requires
        land_polled(runner, repository, checkpoint, Ok(next)),
    ensures
        follows(repository, checkpoint, next),
        checkpoint.phase.rank() >= GitHubStackLandPhase::Submitted.rank(),
        checkpoint.phase == GitHubStackLandPhase::Submitted ==> next.outstanding() is Some,
        checkpoint.phase != GitHubStackLandPhase::Submitted ==> next == checkpoint,
{
    if checkpoint.phase == GitHubStackLandPhase::Submitted {
        let locked = checkpoint.merge->0;
        let merged = choose|
            merged: Result<GitHubStackLockedMergeReceiptView, GitHubStackLandErrorView>,
        | #[trigger]
            polled_locked(runner, repository, locked, merged) && Ok::<_, GitHubStackLandErrorView>(
                next,
            ) == after_merge(checkpoint, merged);
        let held = choose|
            held: Result<GitHubStackBranchLockGenerationView, GitHubStackBranchLockErrorView>,
        | #[trigger]
            stack_lock::lock_verified(runner, repository, locked.branch_lock, held) && match held {
                Err(error) => merged == Err::<GitHubStackLockedMergeReceiptView, _>(
                    GitHubStackLandErrorView::Lock(error),
                ),
                Ok(lock) => polled_under(runner, repository, locked.merge, lock, merged),
            };
        let lock = held->Ok_0;
        let sent = choose|sent: Result<GitHubStackMergeReceiptView, GitHubStackMergeErrorView>|
            #[trigger]
            stack_merge::merge_polled(runner, repository, locked.merge, sent) && merged
                == locked_outcome(repository, lock, sent);
        stack_merge::lemma_polled_receipt(runner, repository, locked.merge, sent->Ok_0);
        lemma_advanced(repository, checkpoint, sent->Ok_0, lock);
    }
}

/// The lock of a landing is given back only after the end of its merge is
/// known, and once.
pub proof fn lemma_release_step<R: CommandRunner>(
    runner: R,
    repository: RepositoryIdView,
    checkpoint: GitHubStackLandCheckpointView,
    next: GitHubStackLandCheckpointView,
)
    requires
        land_released(runner, repository, checkpoint, Ok(next)),
    ensures
        follows(repository, checkpoint, next),
        checkpoint.terminal_status is Some,
        next.phase == GitHubStackLandPhase::Released,
        next.outstanding() is None,
        checkpoint.phase == GitHubStackLandPhase::Released ==> next == checkpoint,
{
    if checkpoint.phase == GitHubStackLandPhase::Terminal {
        let given = choose|
            given: Result<GitHubStackBranchLockReceiptView, GitHubStackBranchLockErrorView>,
        | #[trigger]
            stack_lock::released(
                runner,
                repository,
                checkpoint.plan.lock_plan(),
                checkpoint.branch_lock->0,
                given,
            ) && Ok::<_, GitHubStackLandErrorView>(next) == after_release(checkpoint, given);
        lemma_sealed_land_checkpoint_is_intact(
            GitHubStackLandCheckpointView {
                phase: GitHubStackLandPhase::Released,
                lock_release: Some(given->Ok_0),
                ..checkpoint
            },
        );
    }
}

// ---------------------------------------------------------------------------
// What may be run
// ---------------------------------------------------------------------------

/// What a merge request under a lock may run: the read of the lock, and the
/// merge request once the lock proved to be the expected one.
pub open spec fn may_submit_locked<R: CommandRunner>(
    runner: R,
    repository: RepositoryIdView,
    plan: GitHubStackAsyncMergePlanView,
    expected: GitHubStackBranchLockGenerationView,
) -> bool {
    &&& runner.allows(stack_lock::ruleset_read(repository, expected.id))
    &&& stack_lock::lock_verified(
        runner,
        repository,
        expected,
        Ok(expected),
    ) ==> stack_merge::may_submit_merge(runner, repository, plan)
}

/// What a poll under a lock may run: nothing for a refused checkpoint, else the
/// read of the lock, and the poll once the lock proved to be the expected one.
pub open spec fn may_poll_locked<R: CommandRunner>(
    runner: R,
    repository: RepositoryIdView,
    checkpoint: GitHubStackLockedMergeCheckpointView,
) -> bool {
    locked_accepted(repository, checkpoint) ==> {
        &&& runner.allows(stack_lock::ruleset_read(repository, checkpoint.branch_lock.id))
        &&& stack_lock::lock_verified(
            runner,
            repository,
            checkpoint.branch_lock,
            Ok(checkpoint.branch_lock),
        ) ==> stack_merge::may_poll_merge(runner, repository, checkpoint.merge)
    }
}

/// What the lock step of a landing may run: nothing but for a valid landing that
/// is planned, which takes its lock.
pub open spec fn may_land_lock<R: CommandRunner>(
    runner: R,
    repository: RepositoryIdView,
    checkpoint: GitHubStackLandCheckpointView,
) -> bool {
    land_accepted(repository, checkpoint) && checkpoint.phase
        == GitHubStackLandPhase::Planned ==> stack_lock::may_acquire(
        runner,
        repository,
        checkpoint.plan.lock_plan(),
    )
}

/// What the merge step of a landing may run: nothing but for a valid landing
/// that is locked, which asks for its merge under that lock.
pub open spec fn may_land_submit<R: CommandRunner>(
    runner: R,
    repository: RepositoryIdView,
    checkpoint: GitHubStackLandCheckpointView,
) -> bool {
    land_accepted(repository, checkpoint) && checkpoint.phase
        == GitHubStackLandPhase::Locked ==> may_submit_locked(
        runner,
        repository,
        checkpoint.plan,
        checkpoint.branch_lock->0,
    )
}

/// What the poll step of a landing may run: nothing but for a valid landing that
/// is submitted, which polls its merge under its lock.
pub open spec fn may_land_poll<R: CommandRunner>(
    runner: R,
    repository: RepositoryIdView,
    checkpoint: GitHubStackLandCheckpointView,
) -> bool {
    land_accepted(repository, checkpoint) && checkpoint.phase
        == GitHubStackLandPhase::Submitted ==> may_poll_locked(
        runner,
        repository,
        checkpoint.merge->0,
    )
}

/// What the release step of a landing may run: nothing but for a valid landing
/// whose end is known, which gives its lock back.
pub open spec fn may_land_release<R: CommandRunner>(
    runner: R,
    repository: RepositoryIdView,
    checkpoint: GitHubStackLandCheckpointView,
) -> bool {
    land_accepted(repository, checkpoint) && checkpoint.phase
        == GitHubStackLandPhase::Terminal ==> stack_lock::may_release(
        runner,
        repository,
        checkpoint.plan.lock_plan(),
        checkpoint.branch_lock->0,
    )
}

impl<R: CommandRunner> GitHubMutationAdapter<R> {
    /// Asks for a merge under a lock that is confirmed first.
    pub fn native_stack_merge_submit_locked(
        &self,
        repository: &RepositoryId,
        plan: &GitHubStackAsyncMergePlan,
        expected: &GitHubStackBranchLockGeneration,
    ) -> (r: Result<GitHubStackLockedMergeReceipt, GitHubStackLandError>)
        requires
            may_submit_locked(
                self.runner,
                repository.deep_view(),
                plan.deep_view(),
                expected.deep_view(),
            ),
        ensures
            submitted_locked(
                self.runner,
                repository.deep_view(),
                plan.deep_view(),
                expected.deep_view(),
                land_view(r),
            ),
    {
        let held = self.native_stack_branch_lock_verify(repository, expected);
        assert(stack_lock::lock_verified(
            self.runner,
            repository.deep_view(),
            expected.deep_view(),
            stack_lock::lock_view(held),
        ));
        match held {
            Err(error) => Err(GitHubStackLandError::Lock(Box::new(error))),
            Ok(lock) => {
                let merged = self.native_stack_merge_submit(repository, plan);
                assert(stack_merge::merge_submitted(
                    self.runner,
                    repository.deep_view(),
                    plan.deep_view(),
                    stack_merge::merge_view(merged),
                ));
                close_locked(repository, lock, merged)
            },
        }
    }

    /// Polls a merge once, under a lock that is confirmed first.
    pub fn native_stack_merge_poll_locked(
        &self,
        repository: &RepositoryId,
        checkpoint: &GitHubStackLockedMergeCheckpoint,
    ) -> (r: Result<GitHubStackLockedMergeReceipt, GitHubStackLandError>)
        requires
            may_poll_locked(self.runner, repository.deep_view(), checkpoint.deep_view()),
        ensures
            polled_locked(
                self.runner,
                repository.deep_view(),
                checkpoint.deep_view(),
                land_view(r),
            ),
    {
        if checkpoint.schema_version != LAND_SCHEMA_VERSION || !checkpoint.repository.same(
            repository,
        ) || !checkpoint.verify() {
            return Err(bad("locked merge schema, repository, or hash is invalid"));
        }
        let held = self.native_stack_branch_lock_verify(repository, &checkpoint.branch_lock);
        assert(stack_lock::lock_verified(
            self.runner,
            repository.deep_view(),
            checkpoint.deep_view().branch_lock,
            stack_lock::lock_view(held),
        ));
        match held {
            Err(error) => Err(GitHubStackLandError::Lock(Box::new(error))),
            Ok(lock) => {
                let merged = self.native_stack_merge_poll(repository, &checkpoint.merge);
                assert(stack_merge::merge_polled(
                    self.runner,
                    repository.deep_view(),
                    checkpoint.deep_view().merge,
                    stack_merge::merge_view(merged),
                ));
                close_locked(repository, lock, merged)
            },
        }
    }

    /// A landing of one exact plan that has not started.
    pub fn native_stack_land_begin(
        repository: &RepositoryId,
        plan: &GitHubStackAsyncMergePlan,
    ) -> (r:
        GitHubStackLandCheckpoint)
        ensures
            r.deep_view() == begun(repository.deep_view(), plan.deep_view()),
    {
        let checkpoint = GitHubStackLandCheckpoint {
            schema_version: LAND_SCHEMA_VERSION,
            repository: repository.dup(),
            plan: plan.dup(),
            phase: GitHubStackLandPhase::Planned,
            provider_atomic: false,
            branch_lock: None,
            merge: None,
            terminal_status: None,
            lock_release: None,
            evidence_hash: String::new(),
        };
        assert(checkpoint.deep_view().evidence_hash =~= Seq::empty());
        checkpoint.seal()
    }

    /// Takes the lock of everything selected, before any merge request.
    pub fn native_stack_land_lock(
        &self,
        repository: &RepositoryId,
        checkpoint: &GitHubStackLandCheckpoint,
    ) -> (r: Result<GitHubStackLandCheckpoint, GitHubStackLandError>)
        requires
            may_land_lock(self.runner, repository.deep_view(), checkpoint.deep_view()),
        ensures
            land_locked(
                self.runner,
                repository.deep_view(),
                checkpoint.deep_view(),
                land_view(r),
            ),
    {
        match validate(repository, checkpoint) {
            Err(error) => {
                return Err(error);
            },
            Ok(_) => {},
        }
        if checkpoint.phase.has_reached(GitHubStackLandPhase::Locked) {
            return Ok(checkpoint.dup());
        }
        let taken = self.native_stack_branch_lock_acquire(
            repository,
            &checkpoint.plan.branch_lock_plan(),
        );
        assert(stack_lock::acquired(
            self.runner,
            repository.deep_view(),
            checkpoint.deep_view().plan.lock_plan(),
            stack_lock::lock_view(taken),
        ));
        judge_lock_step(checkpoint, taken)
    }

    /// Asks for the merge under the lock.
    pub fn native_stack_land_submit(
        &self,
        repository: &RepositoryId,
        checkpoint: &GitHubStackLandCheckpoint,
    ) -> (r: Result<GitHubStackLandCheckpoint, GitHubStackLandError>)
        requires
            may_land_submit(self.runner, repository.deep_view(), checkpoint.deep_view()),
        ensures
            land_submitted(
                self.runner,
                repository.deep_view(),
                checkpoint.deep_view(),
                land_view(r),
            ),
    {
        match validate(repository, checkpoint) {
            Err(error) => {
                return Err(error);
            },
            Ok(_) => {},
        }
        if checkpoint.phase.has_reached(GitHubStackLandPhase::Submitted) {
            return Ok(checkpoint.dup());
        }
        let lock = match &checkpoint.branch_lock {
            Some(lock) => lock,
            None => {
                return Err(too_early("an acquired complete-group lock", checkpoint.phase));
            },
        };
        let merged = self.native_stack_merge_submit_locked(repository, &checkpoint.plan, lock);
        assert(submitted_locked(
            self.runner,
            repository.deep_view(),
            checkpoint.deep_view().plan,
            checkpoint.deep_view().branch_lock->0,
            land_view(merged),
        ));
        match merged {
            Err(error) => Err(error),
            Ok(receipt) => Ok(advance(checkpoint, &receipt)),
        }
    }

    /// Polls the merge once, under the same lock.
    pub fn native_stack_land_poll(
        &self,
        repository: &RepositoryId,
        checkpoint: &GitHubStackLandCheckpoint,
    ) -> (r: Result<GitHubStackLandCheckpoint, GitHubStackLandError>)
        requires
            may_land_poll(self.runner, repository.deep_view(), checkpoint.deep_view()),
        ensures
            land_polled(
                self.runner,
                repository.deep_view(),
                checkpoint.deep_view(),
                land_view(r),
            ),
    {
        match validate(repository, checkpoint) {
            Err(error) => {
                return Err(error);
            },
            Ok(_) => {},
        }
        if checkpoint.phase.has_reached(GitHubStackLandPhase::Terminal) {
            return Ok(checkpoint.dup());
        }
        let locked = match &checkpoint.merge {
            Some(locked) => locked,
            None => {
                return Err(
                    too_early(
                        "a submitted merge with a durable UUID checkpoint",
                        checkpoint.phase,
                    ),
                );
            },
        };
        let merged = self.native_stack_merge_poll_locked(repository, locked);
        assert(polled_locked(
            self.runner,
            repository.deep_view(),
            checkpoint.deep_view().merge->0,
            land_view(merged),
        ));
        match merged {
            Err(error) => Err(error),
            Ok(receipt) => Ok(advance(checkpoint, &receipt)),
        }
    }

    /// Gives the lock back, and only after the end of the merge is known. A
    /// merge that is still under way keeps its lock.
    pub fn native_stack_land_release(
        &self,
        repository: &RepositoryId,
        checkpoint: &GitHubStackLandCheckpoint,
    ) -> (r: Result<GitHubStackLandCheckpoint, GitHubStackLandError>)
        requires
            may_land_release(self.runner, repository.deep_view(), checkpoint.deep_view()),
        ensures
            land_released(
                self.runner,
                repository.deep_view(),
                checkpoint.deep_view(),
                land_view(r),
            ),
    {
        match validate(repository, checkpoint) {
            Err(error) => {
                return Err(error);
            },
            Ok(_) => {},
        }
        if checkpoint.phase.same(&GitHubStackLandPhase::Released) {
            return Ok(checkpoint.dup());
        }
        if !checkpoint.phase.same(&GitHubStackLandPhase::Terminal) {
            return Err(
                too_early(
                    "terminal provider proof for every selected entry",
                    checkpoint.phase,
                ),
            );
        }
        let lock = match &checkpoint.branch_lock {
            Some(lock) => lock,
            None => {
                return Err(
                    too_early(
                        "terminal provider proof for every selected entry",
                        checkpoint.phase,
                    ),
                );
            },
        };
        let given = self.native_stack_branch_lock_release(
            repository,
            &checkpoint.plan.branch_lock_plan(),
            lock,
        );
        assert(stack_lock::released(
            self.runner,
            repository.deep_view(),
            checkpoint.deep_view().plan.lock_plan(),
            checkpoint.deep_view().branch_lock->0,
            stack_lock::lock_view(given),
        ));
        judge_release_step(checkpoint, given)
    }
}

} // verus!
