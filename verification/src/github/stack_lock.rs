//! A lock of the source branches of one merge group.
//!
//! The lock is one active ruleset without bypass over every selected branch. It
//! stays until the merge is proved to be over, and only its exact generation is
//! ever released.

use vstd::prelude::*;
use vstd::string::*;
use crate::command;
use crate::command::{
    dup_reply, run, CommandOutput, CommandRunError, CommandRunner, CommandSpec, CommandSpecView,
    Reply, Sent,
};
use crate::github::adapter;
use crate::github::adapter::GitHubMutationAdapter;
use crate::github::evidence;
use crate::github::evidence::hash_of;
use crate::github::one_write::{perform, Granted, OneWrite};
use crate::github::provider::{
    DiscoveryError, DiscoveryErrorView, MutationError, MutationErrorView,
};
use crate::github::stack;
use crate::github::stack::{
    prs_from, show_debug_code, stack_api_command, GitHubStackEntryGeneration,
    GitHubStackEntryGenerationView,
};
use crate::github::stack_adapter;
use crate::github::stack_adapter::github_request_id;
use crate::json;
use crate::json::{
    compact_text, json_array, json_bool, json_string, parse, read_member, read_member_or, Decode,
    Entries, Json, JsonForm,
};
use crate::model::{holds_item, push_item, Model, PrNumber, RepositoryId, RepositoryIdView};
use crate::text;
use crate::text::{blank, decimal_text, sort_texts, text_contains, text_eq, trim};

verus! {

pub const LOCK_SCHEMA_VERSION: u32 = 1;

/// Rulesets of one page.
pub const RULESET_PAGE_SIZE: usize = 100;

pub const LOCK_NAME_PREFIX: &'static str = "cara-stack-merge-lock-";

/// A value of any shape.
#[derive(Debug, PartialEq, Eq)]
pub struct Anything;

impl DeepView for Anything {
    type V = ();

    open spec fn deep_view(&self) -> () {
        ()
    }
}

impl Model for Anything {
    fn same(&self, other: &Self) -> (r: bool) {
        true
    }

    fn dup(&self) -> (r: Self) {
        Anything
    }
}

impl Decode for Anything {
    open spec fn decoded(tree: Json) -> Option<()> {
        Some(())
    }

    fn decode(value: &serde_json::Value) -> (r: Option<Self>) {
        Some(Anything)
    }
}

/// A ruleset by name.
#[derive(Debug, PartialEq, Eq)]
pub struct RulesetSummary {
    pub id: u64,
    pub name: String,
}

/// The content of a [`RulesetSummary`].
#[verifier::ext_equal]
pub struct RulesetSummaryView {
    pub id: u64,
    pub name: Seq<char>,
}

impl DeepView for RulesetSummary {
    type V = RulesetSummaryView;

    open spec fn deep_view(&self) -> RulesetSummaryView {
        RulesetSummaryView {
            id: self.id.deep_view(),
            name: self.name.deep_view(),
        }
    }
}

impl Clone for RulesetSummary {
    fn clone(&self) -> (r: Self)
        ensures
            r.deep_view() == self.deep_view(),
    {
        self.dup()
    }
}

impl Model for RulesetSummary {
    fn same(&self, other: &Self) -> (r: bool) {
        self.id.same(&other.id)
            && self.name.same(&other.name)
    }

    fn dup(&self) -> (r: Self) {
        RulesetSummary {
            id: self.id.dup(),
            name: self.name.dup(),
        }
    }
}

impl Decode for RulesetSummary {
    open spec fn decoded(tree: Json) -> Option<RulesetSummaryView> {
        let id = json::member::<u64>(tree, "id"@);
        let name = json::member::<String>(tree, "name"@);
        if tree.is_object() && id is Some && name is Some {
            Some(RulesetSummaryView { id: id->0, name: name->0 })
        } else {
            None
        }
    }

    fn decode(value: &serde_json::Value) -> (r: Option<Self>) {
        if !value.is_object() {
            return None;
        }
        let id = read_member::<u64>(value, "id")?;
        let name = read_member::<String>(value, "name")?;
        Some(RulesetSummary { id, name })
    }
}

/// The branches that a ruleset is about.
#[derive(Debug, PartialEq, Eq)]
pub struct RulesetRefCondition {
    pub included: Vec<String>,
    pub exclude: Vec<String>,
}

/// The content of a [`RulesetRefCondition`].
#[verifier::ext_equal]
pub struct RulesetRefConditionView {
    pub included: Seq<Seq<char>>,
    pub exclude: Seq<Seq<char>>,
}

impl DeepView for RulesetRefCondition {
    type V = RulesetRefConditionView;

    open spec fn deep_view(&self) -> RulesetRefConditionView {
        RulesetRefConditionView {
            included: self.included.deep_view(),
            exclude: self.exclude.deep_view(),
        }
    }
}

impl Clone for RulesetRefCondition {
    fn clone(&self) -> (r: Self)
        ensures
            r.deep_view() == self.deep_view(),
    {
        self.dup()
    }
}

impl Model for RulesetRefCondition {
    fn same(&self, other: &Self) -> (r: bool) {
        self.included.same(&other.included)
            && self.exclude.same(&other.exclude)
    }

    fn dup(&self) -> (r: Self) {
        RulesetRefCondition {
            included: self.included.dup(),
            exclude: self.exclude.dup(),
        }
    }
}

impl Decode for RulesetRefCondition {
    open spec fn decoded(tree: Json) -> Option<RulesetRefConditionView> {
        let included = json::member::<Vec<String>>(tree, "include"@);
        let exclude = json::member::<Vec<String>>(tree, "exclude"@);
        if tree.is_object() && included is Some && exclude is Some {
            Some(RulesetRefConditionView { included: included->0, exclude: exclude->0 })
        } else {
            None
        }
    }

    fn decode(value: &serde_json::Value) -> (r: Option<Self>) {
        if !value.is_object() {
            return None;
        }
        let included = read_member::<Vec<String>>(value, "include")?;
        let exclude = read_member::<Vec<String>>(value, "exclude")?;
        Some(RulesetRefCondition { included, exclude })
    }
}

/// The conditions of a ruleset.
#[derive(Debug, PartialEq, Eq)]
pub struct RulesetConditions {
    pub ref_name: RulesetRefCondition,
}

/// The content of a [`RulesetConditions`].
#[verifier::ext_equal]
pub struct RulesetConditionsView {
    pub ref_name: RulesetRefConditionView,
}

impl DeepView for RulesetConditions {
    type V = RulesetConditionsView;

    open spec fn deep_view(&self) -> RulesetConditionsView {
        RulesetConditionsView {
            ref_name: self.ref_name.deep_view(),
        }
    }
}

impl Clone for RulesetConditions {
    fn clone(&self) -> (r: Self)
        ensures
            r.deep_view() == self.deep_view(),
    {
        self.dup()
    }
}

impl Model for RulesetConditions {
    fn same(&self, other: &Self) -> (r: bool) {
        self.ref_name.same(&other.ref_name)
    }

    fn dup(&self) -> (r: Self) {
        RulesetConditions {
            ref_name: self.ref_name.dup(),
        }
    }
}

impl Decode for RulesetConditions {
    open spec fn decoded(tree: Json) -> Option<RulesetConditionsView> {
        let ref_name = json::member::<RulesetRefCondition>(tree, "ref_name"@);
        if tree.is_object() && ref_name is Some {
            Some(RulesetConditionsView { ref_name: ref_name->0 })
        } else {
            None
        }
    }

    fn decode(value: &serde_json::Value) -> (r: Option<Self>) {
        if !value.is_object() {
            return None;
        }
        let ref_name = read_member::<RulesetRefCondition>(value, "ref_name")?;
        Some(RulesetConditions { ref_name })
    }
}

/// One rule of a ruleset.
#[derive(Debug, PartialEq, Eq)]
pub struct RulesetRule {
    pub kind: String,
}

/// The content of a [`RulesetRule`].
#[verifier::ext_equal]
pub struct RulesetRuleView {
    pub kind: Seq<char>,
}

impl DeepView for RulesetRule {
    type V = RulesetRuleView;

    open spec fn deep_view(&self) -> RulesetRuleView {
        RulesetRuleView {
            kind: self.kind.deep_view(),
        }
    }
}

impl Clone for RulesetRule {
    fn clone(&self) -> (r: Self)
        ensures
            r.deep_view() == self.deep_view(),
    {
        self.dup()
    }
}

impl Model for RulesetRule {
    fn same(&self, other: &Self) -> (r: bool) {
        self.kind.same(&other.kind)
    }

    fn dup(&self) -> (r: Self) {
        RulesetRule {
            kind: self.kind.dup(),
        }
    }
}

impl Decode for RulesetRule {
    open spec fn decoded(tree: Json) -> Option<RulesetRuleView> {
        let kind = json::member::<String>(tree, "type"@);
        if tree.is_object() && kind is Some {
            Some(RulesetRuleView { kind: kind->0 })
        } else {
            None
        }
    }

    fn decode(value: &serde_json::Value) -> (r: Option<Self>) {
        if !value.is_object() {
            return None;
        }
        let kind = read_member::<String>(value, "type")?;
        Some(RulesetRule { kind })
    }
}

/// One ruleset.
#[derive(Debug, PartialEq, Eq)]
pub struct RulesetResponse {
    pub id: u64,
    pub node_id: String,
    pub name: String,
    pub target: String,
    pub source_type: String,
    pub source: String,
    pub enforcement: String,
    pub conditions: RulesetConditions,
    pub rules: Vec<RulesetRule>,
    pub bypass_actors: Vec<Anything>,
    pub current_user_can_bypass: String,
    pub created_at: String,
    pub updated_at: String,
}

/// The content of a [`RulesetResponse`].
#[verifier::ext_equal]
pub struct RulesetResponseView {
    pub id: u64,
    pub node_id: Seq<char>,
    pub name: Seq<char>,
    pub target: Seq<char>,
    pub source_type: Seq<char>,
    pub source: Seq<char>,
    pub enforcement: Seq<char>,
    pub conditions: RulesetConditionsView,
    pub rules: Seq<RulesetRuleView>,
    pub bypass_actors: Seq<()>,
    pub current_user_can_bypass: Seq<char>,
    pub created_at: Seq<char>,
    pub updated_at: Seq<char>,
}

impl DeepView for RulesetResponse {
    type V = RulesetResponseView;

    open spec fn deep_view(&self) -> RulesetResponseView {
        RulesetResponseView {
            id: self.id.deep_view(),
            node_id: self.node_id.deep_view(),
            name: self.name.deep_view(),
            target: self.target.deep_view(),
            source_type: self.source_type.deep_view(),
            source: self.source.deep_view(),
            enforcement: self.enforcement.deep_view(),
            conditions: self.conditions.deep_view(),
            rules: self.rules.deep_view(),
            bypass_actors: self.bypass_actors.deep_view(),
            current_user_can_bypass: self.current_user_can_bypass.deep_view(),
            created_at: self.created_at.deep_view(),
            updated_at: self.updated_at.deep_view(),
        }
    }
}

impl Clone for RulesetResponse {
    fn clone(&self) -> (r: Self)
        ensures
            r.deep_view() == self.deep_view(),
    {
        self.dup()
    }
}

impl Model for RulesetResponse {
    fn same(&self, other: &Self) -> (r: bool) {
        self.id.same(&other.id)
            && self.node_id.same(&other.node_id)
            && self.name.same(&other.name)
            && self.target.same(&other.target)
            && self.source_type.same(&other.source_type)
            && self.source.same(&other.source)
            && self.enforcement.same(&other.enforcement)
            && self.conditions.same(&other.conditions)
            && self.rules.same(&other.rules)
            && self.bypass_actors.same(&other.bypass_actors)
            && self.current_user_can_bypass.same(&other.current_user_can_bypass)
            && self.created_at.same(&other.created_at)
            && self.updated_at.same(&other.updated_at)
    }

    fn dup(&self) -> (r: Self) {
        RulesetResponse {
            id: self.id.dup(),
            node_id: self.node_id.dup(),
            name: self.name.dup(),
            target: self.target.dup(),
            source_type: self.source_type.dup(),
            source: self.source.dup(),
            enforcement: self.enforcement.dup(),
            conditions: self.conditions.dup(),
            rules: self.rules.dup(),
            bypass_actors: self.bypass_actors.dup(),
            current_user_can_bypass: self.current_user_can_bypass.dup(),
            created_at: self.created_at.dup(),
            updated_at: self.updated_at.dup(),
        }
    }
}

impl Decode for RulesetResponse {
    open spec fn decoded(tree: Json) -> Option<RulesetResponseView> {
        let id = json::member::<u64>(tree, "id"@);
        let node_id = json::member::<String>(tree, "node_id"@);
        let name = json::member::<String>(tree, "name"@);
        let target = json::member::<String>(tree, "target"@);
        let source_type = json::member::<String>(tree, "source_type"@);
        let source = json::member::<String>(tree, "source"@);
        let enforcement = json::member::<String>(tree, "enforcement"@);
        let conditions = json::member::<RulesetConditions>(tree, "conditions"@);
        let rules = json::member::<Vec<RulesetRule>>(tree, "rules"@);
        let bypass_actors = json::member_or::<Vec<Anything>>(tree, "bypass_actors"@, Seq::empty());
        let current_user_can_bypass = json::member::<String>(tree, "current_user_can_bypass"@);
        let created_at = json::member::<String>(tree, "created_at"@);
        let updated_at = json::member::<String>(tree, "updated_at"@);
        if tree.is_object() && id is Some && node_id is Some && name is Some && target is Some
            && source_type is Some && source is Some && enforcement is Some && conditions is Some
            && rules is Some && bypass_actors is Some && current_user_can_bypass is Some
            && created_at is Some && updated_at is Some {
            Some(RulesetResponseView {
                id: id->0,
                node_id: node_id->0,
                name: name->0,
                target: target->0,
                source_type: source_type->0,
                source: source->0,
                enforcement: enforcement->0,
                conditions: conditions->0,
                rules: rules->0,
                bypass_actors: bypass_actors->0,
                current_user_can_bypass: current_user_can_bypass->0,
                created_at: created_at->0,
                updated_at: updated_at->0,
            })
        } else {
            None
        }
    }

    fn decode(value: &serde_json::Value) -> (r: Option<Self>) {
        if !value.is_object() {
            return None;
        }
        let id = read_member::<u64>(value, "id")?;
        let node_id = read_member::<String>(value, "node_id")?;
        let name = read_member::<String>(value, "name")?;
        let target = read_member::<String>(value, "target")?;
        let source_type = read_member::<String>(value, "source_type")?;
        let source = read_member::<String>(value, "source")?;
        let enforcement = read_member::<String>(value, "enforcement")?;
        let conditions = read_member::<RulesetConditions>(value, "conditions")?;
        let rules = read_member::<Vec<RulesetRule>>(value, "rules")?;
        let none: Vec<Anything> = Vec::new();
        assert(none.deep_view() =~= Seq::empty());
        let bypass_actors = read_member_or::<Vec<Anything>>(value, "bypass_actors", none)?;
        let current_user_can_bypass = read_member::<String>(value, "current_user_can_bypass")?;
        let created_at = read_member::<String>(value, "created_at")?;
        let updated_at = read_member::<String>(value, "updated_at")?;
        Some(RulesetResponse {
            id,
            node_id,
            name,
            target,
            source_type,
            source,
            enforcement,
            conditions,
            rules,
            bypass_actors,
            current_user_can_bypass,
            created_at,
            updated_at,
        })
    }
}

/// A lock to take.
#[derive(Debug, PartialEq, Eq)]
pub struct GitHubStackBranchLockPlan {
    pub operation_id: String,
    pub actor: String,
    pub stack_number: u64,
    pub selected: Vec<GitHubStackEntryGeneration>,
}

/// The content of a [`GitHubStackBranchLockPlan`].
#[verifier::ext_equal]
pub struct GitHubStackBranchLockPlanView {
    pub operation_id: Seq<char>,
    pub actor: Seq<char>,
    pub stack_number: u64,
    pub selected: Seq<GitHubStackEntryGenerationView>,
}

impl DeepView for GitHubStackBranchLockPlan {
    type V = GitHubStackBranchLockPlanView;

    open spec fn deep_view(&self) -> GitHubStackBranchLockPlanView {
        GitHubStackBranchLockPlanView {
            operation_id: self.operation_id.deep_view(),
            actor: self.actor.deep_view(),
            stack_number: self.stack_number.deep_view(),
            selected: self.selected.deep_view(),
        }
    }
}

impl Clone for GitHubStackBranchLockPlan {
    fn clone(&self) -> (r: Self)
        ensures
            r.deep_view() == self.deep_view(),
    {
        self.dup()
    }
}

impl Model for GitHubStackBranchLockPlan {
    fn same(&self, other: &Self) -> (r: bool) {
        self.operation_id.same(&other.operation_id)
            && self.actor.same(&other.actor)
            && self.stack_number.same(&other.stack_number)
            && self.selected.same(&other.selected)
    }

    fn dup(&self) -> (r: Self) {
        GitHubStackBranchLockPlan {
            operation_id: self.operation_id.dup(),
            actor: self.actor.dup(),
            stack_number: self.stack_number.dup(),
            selected: self.selected.dup(),
        }
    }
}

/// One exact generation of a lock.
#[derive(Debug, PartialEq, Eq)]
pub struct GitHubStackBranchLockGeneration {
    pub id: u64,
    pub node_id: String,
    pub name: String,
    pub repository: RepositoryId,
    pub source: String,
    pub source_type: String,
    pub target: String,
    pub enforcement: String,
    pub selected_pull_requests: Vec<PrNumber>,
    pub selected_refs: Vec<String>,
    pub current_user_can_bypass: String,
    pub created_at: String,
    pub updated_at: String,
}

/// The content of a [`GitHubStackBranchLockGeneration`].
#[verifier::ext_equal]
pub struct GitHubStackBranchLockGenerationView {
    pub id: u64,
    pub node_id: Seq<char>,
    pub name: Seq<char>,
    pub repository: RepositoryIdView,
    pub source: Seq<char>,
    pub source_type: Seq<char>,
    pub target: Seq<char>,
    pub enforcement: Seq<char>,
    pub selected_pull_requests: Seq<PrNumber>,
    pub selected_refs: Seq<Seq<char>>,
    pub current_user_can_bypass: Seq<char>,
    pub created_at: Seq<char>,
    pub updated_at: Seq<char>,
}

impl DeepView for GitHubStackBranchLockGeneration {
    type V = GitHubStackBranchLockGenerationView;

    open spec fn deep_view(&self) -> GitHubStackBranchLockGenerationView {
        GitHubStackBranchLockGenerationView {
            id: self.id.deep_view(),
            node_id: self.node_id.deep_view(),
            name: self.name.deep_view(),
            repository: self.repository.deep_view(),
            source: self.source.deep_view(),
            source_type: self.source_type.deep_view(),
            target: self.target.deep_view(),
            enforcement: self.enforcement.deep_view(),
            selected_pull_requests: self.selected_pull_requests.deep_view(),
            selected_refs: self.selected_refs.deep_view(),
            current_user_can_bypass: self.current_user_can_bypass.deep_view(),
            created_at: self.created_at.deep_view(),
            updated_at: self.updated_at.deep_view(),
        }
    }
}

impl Clone for GitHubStackBranchLockGeneration {
    fn clone(&self) -> (r: Self)
        ensures
            r.deep_view() == self.deep_view(),
    {
        self.dup()
    }
}

impl Model for GitHubStackBranchLockGeneration {
    fn same(&self, other: &Self) -> (r: bool) {
        self.id.same(&other.id)
            && self.node_id.same(&other.node_id)
            && self.name.same(&other.name)
            && self.repository.same(&other.repository)
            && self.source.same(&other.source)
            && self.source_type.same(&other.source_type)
            && self.target.same(&other.target)
            && self.enforcement.same(&other.enforcement)
            && self.selected_pull_requests.same(&other.selected_pull_requests)
            && self.selected_refs.same(&other.selected_refs)
            && self.current_user_can_bypass.same(&other.current_user_can_bypass)
            && self.created_at.same(&other.created_at)
            && self.updated_at.same(&other.updated_at)
    }

    fn dup(&self) -> (r: Self) {
        GitHubStackBranchLockGeneration {
            id: self.id.dup(),
            node_id: self.node_id.dup(),
            name: self.name.dup(),
            repository: self.repository.dup(),
            source: self.source.dup(),
            source_type: self.source_type.dup(),
            target: self.target.dup(),
            enforcement: self.enforcement.dup(),
            selected_pull_requests: self.selected_pull_requests.dup(),
            selected_refs: self.selected_refs.dup(),
            current_user_can_bypass: self.current_user_can_bypass.dup(),
            created_at: self.created_at.dup(),
            updated_at: self.updated_at.dup(),
        }
    }
}

/// One operation on a lock.
#[derive(Debug, Clone, Copy, PartialEq, Eq, PartialOrd, Ord, Structural)]
pub enum GitHubStackBranchLockOperation {
    Acquire,
    Release,
}

impl DeepView for GitHubStackBranchLockOperation {
    type V = GitHubStackBranchLockOperation;

    open spec fn deep_view(&self) -> GitHubStackBranchLockOperation {
        *self
    }
}

impl Model for GitHubStackBranchLockOperation {
    fn same(&self, other: &Self) -> (r: bool) {
        *self == *other
    }

    fn dup(&self) -> (r: Self) {
        *self
    }
}

/// How a postcondition came about.
#[derive(Debug, Clone, Copy, PartialEq, Eq, PartialOrd, Ord, Structural)]
pub enum GitHubStackBranchLockDisposition {
    Completed,
    RecoveredAfterAmbiguousResponse,
    AlreadySatisfied,
}

impl DeepView for GitHubStackBranchLockDisposition {
    type V = GitHubStackBranchLockDisposition;

    open spec fn deep_view(&self) -> GitHubStackBranchLockDisposition {
        *self
    }
}

impl Model for GitHubStackBranchLockDisposition {
    fn same(&self, other: &Self) -> (r: bool) {
        *self == *other
    }

    fn dup(&self) -> (r: Self) {
        *self
    }
}

/// The sealed receipt of one operation on a lock.
#[derive(Debug, PartialEq, Eq)]
pub struct GitHubStackBranchLockReceipt {
    pub schema_version: u32,
    pub operation_id: String,
    pub actor: String,
    pub repository: RepositoryId,
    pub operation: GitHubStackBranchLockOperation,
    pub disposition: GitHubStackBranchLockDisposition,
    pub request_method: String,
    pub request_path: String,
    pub github_request_id: Option<String>,
    pub lock: Option<GitHubStackBranchLockGeneration>,
    pub evidence_hash: String,
}

/// The content of a [`GitHubStackBranchLockReceipt`].
#[verifier::ext_equal]
pub struct GitHubStackBranchLockReceiptView {
    pub schema_version: u32,
    pub operation_id: Seq<char>,
    pub actor: Seq<char>,
    pub repository: RepositoryIdView,
    pub operation: GitHubStackBranchLockOperation,
    pub disposition: GitHubStackBranchLockDisposition,
    pub request_method: Seq<char>,
    pub request_path: Seq<char>,
    pub github_request_id: Option<Seq<char>>,
    pub lock: Option<GitHubStackBranchLockGenerationView>,
    pub evidence_hash: Seq<char>,
}

impl DeepView for GitHubStackBranchLockReceipt {
    type V = GitHubStackBranchLockReceiptView;

    open spec fn deep_view(&self) -> GitHubStackBranchLockReceiptView {
        GitHubStackBranchLockReceiptView {
            schema_version: self.schema_version.deep_view(),
            operation_id: self.operation_id.deep_view(),
            actor: self.actor.deep_view(),
            repository: self.repository.deep_view(),
            operation: self.operation.deep_view(),
            disposition: self.disposition.deep_view(),
            request_method: self.request_method.deep_view(),
            request_path: self.request_path.deep_view(),
            github_request_id: self.github_request_id.deep_view(),
            lock: self.lock.deep_view(),
            evidence_hash: self.evidence_hash.deep_view(),
        }
    }
}

impl Clone for GitHubStackBranchLockReceipt {
    fn clone(&self) -> (r: Self)
        ensures
            r.deep_view() == self.deep_view(),
    {
        self.dup()
    }
}

impl Model for GitHubStackBranchLockReceipt {
    fn same(&self, other: &Self) -> (r: bool) {
        self.schema_version.same(&other.schema_version)
            && self.operation_id.same(&other.operation_id)
            && self.actor.same(&other.actor)
            && self.repository.same(&other.repository)
            && self.operation.same(&other.operation)
            && self.disposition.same(&other.disposition)
            && self.request_method.same(&other.request_method)
            && self.request_path.same(&other.request_path)
            && self.github_request_id.same(&other.github_request_id)
            && self.lock.same(&other.lock)
            && self.evidence_hash.same(&other.evidence_hash)
    }

    fn dup(&self) -> (r: Self) {
        GitHubStackBranchLockReceipt {
            schema_version: self.schema_version.dup(),
            operation_id: self.operation_id.dup(),
            actor: self.actor.dup(),
            repository: self.repository.dup(),
            operation: self.operation.dup(),
            disposition: self.disposition.dup(),
            request_method: self.request_method.dup(),
            request_path: self.request_path.dup(),
            github_request_id: self.github_request_id.dup(),
            lock: self.lock.dup(),
            evidence_hash: self.evidence_hash.dup(),
        }
    }
}

/// Refusal of an operation on a lock.
#[derive(Debug, PartialEq, Eq)]
pub enum GitHubStackBranchLockError {
    InvalidPlan {
        code: String,
        message: String,
    },
    Provider(MutationError),
    InventoryTruncated,
    NameCollision {
        name: String,
    },
    StaleLock {
        expected: Box<GitHubStackBranchLockGeneration>,
        actual: Option<Box<GitHubStackBranchLockGeneration>>,
    },
    AmbiguousResponse {
        operation: GitHubStackBranchLockOperation,
        diagnostic: String,
        rediscovery_diagnostic: Option<String>,
    },
    PostconditionFailed {
        operation: GitHubStackBranchLockOperation,
    },
}

/// The content of a [`GitHubStackBranchLockError`].
pub enum GitHubStackBranchLockErrorView {
    InvalidPlan {
        code: Seq<char>,
        message: Seq<char>,
    },
    Provider(MutationErrorView),
    InventoryTruncated,
    NameCollision {
        name: Seq<char>,
    },
    StaleLock {
        expected: GitHubStackBranchLockGenerationView,
        actual: Option<GitHubStackBranchLockGenerationView>,
    },
    AmbiguousResponse {
        operation: GitHubStackBranchLockOperation,
        diagnostic: Seq<char>,
        rediscovery_diagnostic: Option<Seq<char>>,
    },
    PostconditionFailed {
        operation: GitHubStackBranchLockOperation,
    },
}

impl DeepView for GitHubStackBranchLockError {
    type V = GitHubStackBranchLockErrorView;

    open spec fn deep_view(&self) -> GitHubStackBranchLockErrorView {
        match self {
            GitHubStackBranchLockError::InvalidPlan { code, message } => GitHubStackBranchLockErrorView::InvalidPlan {
                code: code.deep_view(),
                message: message.deep_view(),
            },
            GitHubStackBranchLockError::Provider(x) => GitHubStackBranchLockErrorView::Provider(
                x.deep_view(),
            ),
            GitHubStackBranchLockError::InventoryTruncated => GitHubStackBranchLockErrorView::InventoryTruncated,
            GitHubStackBranchLockError::NameCollision { name } => GitHubStackBranchLockErrorView::NameCollision {
                name: name.deep_view(),
            },
            GitHubStackBranchLockError::StaleLock { expected, actual } => GitHubStackBranchLockErrorView::StaleLock {
                expected: expected.deep_view(),
                actual: actual.deep_view(),
            },
            GitHubStackBranchLockError::AmbiguousResponse {
                operation,
                diagnostic,
                rediscovery_diagnostic,
            } => GitHubStackBranchLockErrorView::AmbiguousResponse {
                operation: operation.deep_view(),
                diagnostic: diagnostic.deep_view(),
                rediscovery_diagnostic: rediscovery_diagnostic.deep_view(),
            },
            GitHubStackBranchLockError::PostconditionFailed { operation } => GitHubStackBranchLockErrorView::PostconditionFailed {
                operation: operation.deep_view(),
            },
        }
    }
}

impl GitHubStackBranchLockError {
    /// Another error of the same content.
    pub fn dup(&self) -> (r: Self)
        ensures
            r.deep_view() == self.deep_view(),
    {
        match self {
            GitHubStackBranchLockError::InvalidPlan { code, message } => GitHubStackBranchLockError::InvalidPlan {
                code: code.dup(),
                message: message.dup(),
            },
            GitHubStackBranchLockError::Provider(x) => GitHubStackBranchLockError::Provider(
                x.dup(),
            ),
            GitHubStackBranchLockError::InventoryTruncated => GitHubStackBranchLockError::InventoryTruncated,
            GitHubStackBranchLockError::NameCollision { name } => GitHubStackBranchLockError::NameCollision {
                name: name.dup(),
            },
            GitHubStackBranchLockError::StaleLock { expected, actual } => GitHubStackBranchLockError::StaleLock {
                expected: expected.dup(),
                actual: actual.dup(),
            },
            GitHubStackBranchLockError::AmbiguousResponse {
                operation,
                diagnostic,
                rediscovery_diagnostic,
            } => GitHubStackBranchLockError::AmbiguousResponse {
                operation: operation.dup(),
                diagnostic: diagnostic.dup(),
                rediscovery_diagnostic: rediscovery_diagnostic.dup(),
            },
            GitHubStackBranchLockError::PostconditionFailed { operation } => GitHubStackBranchLockError::PostconditionFailed {
                operation: operation.dup(),
            },
        }
    }
}

impl JsonForm for GitHubStackBranchLockOperation {
    open spec fn form(content: GitHubStackBranchLockOperation) -> Json {
        match content {
            GitHubStackBranchLockOperation::Acquire => Json::Text("acquire"@),
            GitHubStackBranchLockOperation::Release => Json::Text("release"@),
        }
    }

    fn to_json(&self) -> (r: serde_json::Value) {
        match self {
            GitHubStackBranchLockOperation::Acquire => json_string("acquire"),
            GitHubStackBranchLockOperation::Release => json_string("release"),
        }
    }
}

impl JsonForm for GitHubStackBranchLockDisposition {
    open spec fn form(content: GitHubStackBranchLockDisposition) -> Json {
        match content {
            GitHubStackBranchLockDisposition::Completed => Json::Text("completed"@),
            GitHubStackBranchLockDisposition::RecoveredAfterAmbiguousResponse => Json::Text(
                "recovered_after_ambiguous_response"@,
            ),
            GitHubStackBranchLockDisposition::AlreadySatisfied => Json::Text("already_satisfied"@),
        }
    }

    fn to_json(&self) -> (r: serde_json::Value) {
        match self {
            GitHubStackBranchLockDisposition::Completed => json_string("completed"),
            GitHubStackBranchLockDisposition::RecoveredAfterAmbiguousResponse => json_string(
                "recovered_after_ambiguous_response",
            ),
            GitHubStackBranchLockDisposition::AlreadySatisfied => json_string("already_satisfied"),
        }
    }
}

impl JsonForm for GitHubStackBranchLockGeneration {
    open spec fn form(content: GitHubStackBranchLockGenerationView) -> Json {
        let e = json::no_entries();
        let e = json::entry(e, "id"@, <u64 as JsonForm>::form(content.id));
        let e = json::entry(e, "node_id"@, <String as JsonForm>::form(content.node_id));
        let e = json::entry(e, "name"@, <String as JsonForm>::form(content.name));
        let e = json::entry(e, "repository"@, <RepositoryId as JsonForm>::form(content.repository));
        let e = json::entry(e, "source"@, <String as JsonForm>::form(content.source));
        let e = json::entry(e, "source_type"@, <String as JsonForm>::form(content.source_type));
        let e = json::entry(e, "target"@, <String as JsonForm>::form(content.target));
        let e = json::entry(e, "enforcement"@, <String as JsonForm>::form(content.enforcement));
        let e = json::entry(
            e,
            "selected_pull_requests"@,
            <Vec<PrNumber> as JsonForm>::form(content.selected_pull_requests),
        );
        let e = json::entry(
            e,
            "selected_refs"@,
            <Vec<String> as JsonForm>::form(content.selected_refs),
        );
        let e = json::entry(
            e,
            "current_user_can_bypass"@,
            <String as JsonForm>::form(content.current_user_can_bypass),
        );
        let e = json::entry(e, "created_at"@, <String as JsonForm>::form(content.created_at));
        let e = json::entry(e, "updated_at"@, <String as JsonForm>::form(content.updated_at));
        json::object_of(e)
    }

    fn to_json(&self) -> (r: serde_json::Value) {
        Entries::new()
            .with("id", self.id.to_json())
            .with("node_id", self.node_id.to_json())
            .with("name", self.name.to_json())
            .with("repository", self.repository.to_json())
            .with("source", self.source.to_json())
            .with("source_type", self.source_type.to_json())
            .with("target", self.target.to_json())
            .with("enforcement", self.enforcement.to_json())
            .with("selected_pull_requests", self.selected_pull_requests.to_json())
            .with("selected_refs", self.selected_refs.to_json())
            .with("current_user_can_bypass", self.current_user_can_bypass.to_json())
            .with("created_at", self.created_at.to_json())
            .with("updated_at", self.updated_at.to_json())
            .object()
    }
}

impl JsonForm for GitHubStackBranchLockReceipt {
    open spec fn form(content: GitHubStackBranchLockReceiptView) -> Json {
        let e = json::no_entries();
        let e = json::entry(e, "schema_version"@, <u32 as JsonForm>::form(content.schema_version));
        let e = json::entry(e, "operation_id"@, <String as JsonForm>::form(content.operation_id));
        let e = json::entry(e, "actor"@, <String as JsonForm>::form(content.actor));
        let e = json::entry(e, "repository"@, <RepositoryId as JsonForm>::form(content.repository));
        let e = json::entry(
            e,
            "operation"@,
            <GitHubStackBranchLockOperation as JsonForm>::form(content.operation),
        );
        let e = json::entry(
            e,
            "disposition"@,
            <GitHubStackBranchLockDisposition as JsonForm>::form(content.disposition),
        );
        let e = json::entry(
            e,
            "request_method"@,
            <String as JsonForm>::form(content.request_method),
        );
        let e = json::entry(e, "request_path"@, <String as JsonForm>::form(content.request_path));
        let e = json::entry_unless_null(
            e,
            "github_request_id"@,
            <Option<String> as JsonForm>::form(content.github_request_id),
        );
        let e = json::entry_unless_null(
            e,
            "lock"@,
            <Option<GitHubStackBranchLockGeneration> as JsonForm>::form(content.lock),
        );
        let e = json::entry(e, "evidence_hash"@, <String as JsonForm>::form(content.evidence_hash));
        json::object_of(e)
    }

    fn to_json(&self) -> (r: serde_json::Value) {
        Entries::new()
            .with("schema_version", self.schema_version.to_json())
            .with("operation_id", self.operation_id.to_json())
            .with("actor", self.actor.to_json())
            .with("repository", self.repository.to_json())
            .with("operation", self.operation.to_json())
            .with("disposition", self.disposition.to_json())
            .with("request_method", self.request_method.to_json())
            .with("request_path", self.request_path.to_json())
            .with_unless_null("github_request_id", self.github_request_id.to_json())
            .with_unless_null("lock", self.lock.to_json())
            .with("evidence_hash", self.evidence_hash.to_json())
            .object()
    }
}

impl GitHubStackBranchLockReceiptView {
    /// The receipt without its hash.
    pub open spec fn unsealed(self) -> GitHubStackBranchLockReceiptView {
        GitHubStackBranchLockReceiptView { evidence_hash: Seq::empty(), ..self }
    }

    /// The receipt with the hash of everything else in it.
    pub open spec fn sealed(self) -> GitHubStackBranchLockReceiptView {
        GitHubStackBranchLockReceiptView {
            evidence_hash: evidence::tree_hash(
                <GitHubStackBranchLockReceipt as JsonForm>::form(self.unsealed()),
            ),
            ..self
        }
    }

    /// Whether the hash is that of everything else.
    pub open spec fn intact(self) -> bool {
        self == self.sealed()
    }
}

impl GitHubStackBranchLockReceipt {
    /// The receipt with the hash of everything else in it.
    pub fn seal(self) -> (r: Self)
        ensures
            r.deep_view() == self.deep_view().sealed(),
    {
        let mut out = self.dup();
        out.evidence_hash = String::new();
        assert(out.deep_view() =~= self.deep_view().unsealed());
        let hash = hash_of(&out.to_json());
        out.evidence_hash = hash;
        out
    }

    /// Whether the hash is that of everything else.
    pub fn verify(&self) -> (r: bool)
        ensures
            r == self.deep_view().intact(),
    {
        let mut material = self.dup();
        material.evidence_hash = String::new();
        assert(material.deep_view() =~= self.deep_view().unsealed());
        let hash = hash_of(&material.to_json());
        let r = text_eq(hash.as_str(), self.evidence_hash.as_str());
        assert(r ==> self.deep_view() =~= self.deep_view().sealed());
        r
    }
}

/// A sealed receipt is intact, and sealing changes nothing but the hash.
pub proof fn lemma_sealed_lock_receipt_is_intact(receipt: GitHubStackBranchLockReceiptView)
    ensures
        receipt.sealed().intact(),
        receipt.sealed().unsealed() == receipt.unsealed(),
{
    assert(receipt.sealed().unsealed() =~= receipt.unsealed());
    assert(receipt.sealed().sealed() =~= receipt.sealed());
}


// ---------------------------------------------------------------------------
// Messages
// ---------------------------------------------------------------------------

/// The name of an operation.
pub open spec fn lock_operation_name(operation: GitHubStackBranchLockOperation) -> Seq<char> {
    match operation {
        GitHubStackBranchLockOperation::Acquire => "Acquire"@,
        GitHubStackBranchLockOperation::Release => "Release"@,
    }
}

fn show_operation(operation: GitHubStackBranchLockOperation) -> (r: String)
    ensures
        r@ == lock_operation_name(operation),
{
    match operation {
        GitHubStackBranchLockOperation::Acquire => "Acquire".to_owned(),
        GitHubStackBranchLockOperation::Release => "Release".to_owned(),
    }
}

impl GitHubStackBranchLockErrorView {
    /// The message of the error.
    pub open spec fn message(self) -> Seq<char> {
        match self {
            GitHubStackBranchLockErrorView::InvalidPlan { code, message } => code + ": "@
                + message,
            GitHubStackBranchLockErrorView::Provider(error) => error.message(),
            GitHubStackBranchLockErrorView::InventoryTruncated =>
                "repository ruleset inventory is truncated"@,
            GitHubStackBranchLockErrorView::NameCollision { name } => "ruleset `"@ + name
                + "` exists with different lock policy"@,
            GitHubStackBranchLockErrorView::StaleLock { .. } =>
                "Stack branch-lock generation changed"@,
            GitHubStackBranchLockErrorView::AmbiguousResponse { operation, diagnostic, .. } =>
                "Stack branch-lock "@ + lock_operation_name(operation) + " is ambiguous: "@
                    + diagnostic,
            GitHubStackBranchLockErrorView::PostconditionFailed { operation } =>
                "Stack branch-lock "@ + lock_operation_name(operation) + " postcondition failed"@,
        }
    }
}

impl GitHubStackBranchLockError {
    /// The message of the error.
    pub fn to_text(&self) -> (r: String)
        ensures
            r@ == self.deep_view().message(),
    {
        match self {
            GitHubStackBranchLockError::InvalidPlan { code, message } => code.dup().concat(
                ": ",
            ).concat(message.as_str()),
            GitHubStackBranchLockError::Provider(error) => error.to_text(),
            GitHubStackBranchLockError::InventoryTruncated =>
                "repository ruleset inventory is truncated".to_owned(),
            GitHubStackBranchLockError::NameCollision { name } => "ruleset `".to_owned().concat(
                name.as_str(),
            ).concat("` exists with different lock policy"),
            GitHubStackBranchLockError::StaleLock { .. } =>
                "Stack branch-lock generation changed".to_owned(),
            GitHubStackBranchLockError::AmbiguousResponse { operation, diagnostic, .. } =>
                "Stack branch-lock ".to_owned().concat(show_operation(*operation).as_str()).concat(
                    " is ambiguous: ",
                ).concat(diagnostic.as_str()),
            GitHubStackBranchLockError::PostconditionFailed { operation } =>
                "Stack branch-lock ".to_owned().concat(show_operation(*operation).as_str()).concat(
                    " postcondition failed",
                ),
        }
    }
}

/// The content of an outcome.
pub open spec fn lock_view<T: DeepView>(outcome: Result<T, GitHubStackBranchLockError>) -> Result<
    T::V,
    GitHubStackBranchLockErrorView,
> {
    match outcome {
        Ok(value) => Ok(value.deep_view()),
        Err(error) => Err(error.deep_view()),
    }
}

/// A plan or a ruleset that is refused.
pub open spec fn lock_refused(
    code: Seq<char>,
    message: Seq<char>,
) -> GitHubStackBranchLockErrorView {
    GitHubStackBranchLockErrorView::InvalidPlan { code, message }
}

fn invalid(code: &str, message: &str) -> (r: GitHubStackBranchLockError)
    ensures
        r.deep_view() == lock_refused(code@, message@),
{
    GitHubStackBranchLockError::InvalidPlan { code: code.to_owned(), message: message.to_owned() }
}

// ---------------------------------------------------------------------------
// Plans
// ---------------------------------------------------------------------------

/// The head branches of entries.
pub open spec fn head_names(entries: Seq<GitHubStackEntryGenerationView>) -> Seq<Seq<char>> {
    Seq::new(entries.len(), |i: int| entries[i].head.name)
}

/// Whether the head branches of entries are in a repository, named, and
/// distinct.
pub open spec fn distinct_heads(
    repository: RepositoryIdView,
    entries: Seq<GitHubStackEntryGenerationView>,
) -> bool
    decreases entries.len(),
{
    entries.len() == 0 || (distinct_heads(repository, entries.drop_last())
        && entries.last().head.repository == repository && !text::is_blank(
        entries.last().head.name,
    ) && !head_names(entries.drop_last()).contains(entries.last().head.name))
}

/// Why a lock is refused.
pub open spec fn lock_refusal(
    repository: RepositoryIdView,
    plan: GitHubStackBranchLockPlanView,
) -> Option<GitHubStackBranchLockErrorView> {
    if text::is_blank(plan.operation_id) || text::is_blank(plan.actor) || plan.selected.len() == 0 {
        Some(
            lock_refused(
                "github_stack_lock_identity_missing"@,
                "branch lock requires operation, actor, and selected entries"@,
            ),
        )
    } else if !distinct_heads(repository, plan.selected) {
        Some(
            lock_refused(
                "github_stack_lock_ref_invalid"@,
                "selected branches must be unique same-repository refs"@,
            ),
        )
    } else {
        None
    }
}

/// Distinct heads are in the repository, named, and pairwise different.
pub proof fn lemma_distinct_heads(
    repository: RepositoryIdView,
    entries: Seq<GitHubStackEntryGenerationView>,
)
    requires
        distinct_heads(repository, entries),
    ensures
        forall|i: int|
            0 <= i < entries.len() ==> (#[trigger] entries[i]).head.repository == repository
                && !text::is_blank(entries[i].head.name),
        forall|i: int, j: int|
            0 <= i < j < entries.len() ==> (#[trigger] entries[i]).head.name != (
            #[trigger] entries[j]).head.name,
    decreases entries.len(),
{
    if entries.len() > 0 {
        let below = entries.drop_last();
        lemma_distinct_heads(repository, below);
        assert forall|i: int| 0 <= i < entries.len() implies (
        #[trigger] entries[i]).head.repository == repository && !text::is_blank(
            entries[i].head.name,
        ) by {
            if i < below.len() {
                assert(below[i] == entries[i]);
            }
        }
        assert forall|i: int, j: int| 0 <= i < j < entries.len() implies (
        #[trigger] entries[i]).head.name != (#[trigger] entries[j]).head.name by {
            assert(below[i] == entries[i]);
            assert(head_names(below)[i] == entries[i].head.name);
            if j < below.len() {
                assert(below[j] == entries[j]);
            }
        }
    }
}

proof fn lemma_distinct_heads_prefix(
    repository: RepositoryIdView,
    entries: Seq<GitHubStackEntryGenerationView>,
    k: int,
)
    requires
        0 <= k <= entries.len(),
        !distinct_heads(repository, entries.take(k)),
    ensures
        !distinct_heads(repository, entries),
    decreases entries.len() - k,
{
    if k < entries.len() {
        assert(entries.take(k + 1).drop_last() =~= entries.take(k));
        lemma_distinct_heads_prefix(repository, entries, k + 1);
    } else {
        assert(entries.take(k) =~= entries);
    }
}

fn heads_are_distinct(repository: &RepositoryId, entries: &Vec<GitHubStackEntryGeneration>) -> (r:
    bool)
    ensures
        r == distinct_heads(repository.deep_view(), entries.deep_view()),
{
    let ghost all = entries.deep_view();
    let mut seen: Vec<String> = Vec::new();
    let mut i: usize = 0;
    assert(seen.deep_view() =~= head_names(all.take(0)));
    while i < entries.len()
        invariant
            all == entries.deep_view(),
            i <= entries.len(),
            seen.deep_view() == head_names(all.take(i as int)),
            distinct_heads(repository.deep_view(), all.take(i as int)),
        decreases entries.len() - i,
    {
        let ghost next = all.take(i as int + 1);
        assert(next.drop_last() =~= all.take(i as int));
        assert(all[i as int] == entries[i as int].deep_view());
        let head = &entries[i].head;
        if !head.repository.same(repository) || blank(head.name.as_str()) || holds_item(
            &seen,
            &head.name,
        ) {
            proof {
                lemma_distinct_heads_prefix(repository.deep_view(), all, i as int + 1);
            }
            return false;
        }
        push_item(&mut seen, head.name.dup());
        assert(seen.deep_view() =~= head_names(next));
        i = i + 1;
    }
    assert(all.take(i as int) =~= all);
    true
}

/// Whether a lock can be asked for.
pub fn validate_lock_plan(
    repository: &RepositoryId,
    plan: &GitHubStackBranchLockPlan,
) -> (r: Result<
    (),
    GitHubStackBranchLockError,
>)
    ensures
        lock_view(r) == match lock_refusal(repository.deep_view(), plan.deep_view()) {
            Some(error) => Err(error),
            None => Ok(()),
        },
{
    if blank(plan.operation_id.as_str()) || blank(plan.actor.as_str()) || plan.selected.len() == 0 {
        return Err(
            invalid(
                "github_stack_lock_identity_missing",
                "branch lock requires operation, actor, and selected entries",
            ),
        );
    }
    if !heads_are_distinct(repository, &plan.selected) {
        return Err(
            invalid(
                "github_stack_lock_ref_invalid",
                "selected branches must be unique same-repository refs",
            ),
        );
    }
    Ok(())
}

/// The name of a lock. It does not depend on what is selected: an operation
/// that comes again with other branches meets its own lock.
pub open spec fn lock_name(
    repository: RepositoryIdView,
    operation_id: Seq<char>,
    stack_number: u64,
) -> Seq<char> {
    LOCK_NAME_PREFIX@ + evidence::tree_hash(
        Json::Array(
            seq![
                <RepositoryId as JsonForm>::form(repository),
                Json::Text(operation_id),
                Json::Number(stack_number as int),
            ],
        ),
    )
}

fn name_lock(repository: &RepositoryId, plan: &GitHubStackBranchLockPlan) -> (r: String)
    ensures
        r@ == lock_name(
            repository.deep_view(),
            plan.deep_view().operation_id,
            plan.deep_view().stack_number,
        ),
{
    let items = vec![
        repository.to_json(),
        plan.operation_id.to_json(),
        plan.stack_number.to_json(),
    ];
    assert(json::json_trees(items@) =~= seq![
        <RepositoryId as JsonForm>::form(repository.deep_view()),
        Json::Text(plan.deep_view().operation_id),
        Json::Number(plan.deep_view().stack_number as int),
    ]);
    LOCK_NAME_PREFIX.to_owned().concat(hash_of(&json_array(items)).as_str())
}

/// The references of head branches.
pub open spec fn head_refs(entries: Seq<GitHubStackEntryGenerationView>) -> Seq<Seq<char>> {
    Seq::new(entries.len(), |i: int| "refs/heads/"@ + entries[i].head.name)
}

fn refs_of_heads(entries: &Vec<GitHubStackEntryGeneration>) -> (r: Vec<String>)
    ensures
        r.deep_view() == head_refs(entries.deep_view()),
{
    let ghost all = entries.deep_view();
    let mut out: Vec<String> = Vec::new();
    let mut i: usize = 0;
    while i < entries.len()
        invariant
            all == entries.deep_view(),
            i <= entries.len(),
            out.deep_view() == head_refs(all).take(i as int),
        decreases entries.len() - i,
    {
        assert(all[i as int] == entries[i as int].deep_view());
        push_item(&mut out, "refs/heads/".to_owned().concat(entries[i].head.name.as_str()));
        i = i + 1;
        assert(out.deep_view() =~= head_refs(all).take(i as int));
    }
    assert(out.deep_view() =~= head_refs(all));
    out
}

/// The lock that a plan asks for. Identity and times are the provider's.
pub open spec fn planned_lock(
    repository: RepositoryIdView,
    plan: GitHubStackBranchLockPlanView,
) -> GitHubStackBranchLockGenerationView {
    GitHubStackBranchLockGenerationView {
        id: 0,
        node_id: Seq::empty(),
        name: lock_name(repository, plan.operation_id, plan.stack_number),
        repository,
        source: repository.slug(),
        source_type: "Repository"@,
        target: "branch"@,
        enforcement: "active"@,
        selected_pull_requests: stack::entry_prs(plan.selected),
        selected_refs: text::sorted(head_refs(plan.selected)),
        current_user_can_bypass: "never"@,
        created_at: Seq::empty(),
        updated_at: Seq::empty(),
    }
}

fn selected_prs(plan: &GitHubStackBranchLockPlan) -> (r: Vec<PrNumber>)
    ensures
        r.deep_view() == stack::entry_prs(plan.deep_view().selected),
{
    let out = prs_from(&plan.selected, 0);
    assert(plan.selected.deep_view().skip(0) =~= plan.selected.deep_view());
    out
}

/// The lock that a valid plan asks for.
pub fn expected_lock(repository: &RepositoryId, plan: &GitHubStackBranchLockPlan) -> (r: Result<
    GitHubStackBranchLockGeneration,
    GitHubStackBranchLockError,
>)
    ensures
        lock_view(r) == match lock_refusal(repository.deep_view(), plan.deep_view()) {
            Some(error) => Err(error),
            None => Ok(planned_lock(repository.deep_view(), plan.deep_view())),
        },
{
    match validate_lock_plan(repository, plan) {
        Err(error) => {
            return Err(error);
        },
        Ok(_) => {},
    }
    let refs = refs_of_heads(&plan.selected);
    let lock = GitHubStackBranchLockGeneration {
        id: 0,
        node_id: String::new(),
        name: name_lock(repository, plan),
        repository: repository.dup(),
        source: repository.slug(),
        source_type: "Repository".to_owned(),
        target: "branch".to_owned(),
        enforcement: "active".to_owned(),
        selected_pull_requests: selected_prs(plan),
        selected_refs: sort_texts(&refs),
        current_user_can_bypass: "never".to_owned(),
        created_at: String::new(),
        updated_at: String::new(),
    };
    assert(lock.deep_view() =~= planned_lock(repository.deep_view(), plan.deep_view()));
    Ok(lock)
}

// ---------------------------------------------------------------------------
// Rulesets
// ---------------------------------------------------------------------------

/// Whether rules are exactly those of a lock: update and deletion.
pub open spec fn lock_rules(rules: Seq<RulesetRuleView>) -> bool {
    &&& forall|i: int|
        0 <= i < rules.len() ==> (#[trigger] rules[i]).kind == "update"@ || rules[i].kind
            == "deletion"@
    &&& exists|i: int| 0 <= i < rules.len() && (#[trigger] rules[i]).kind == "update"@
    &&& exists|i: int| 0 <= i < rules.len() && (#[trigger] rules[i]).kind == "deletion"@
}

fn are_lock_rules(rules: &Vec<RulesetRule>) -> (r: bool)
    ensures
        r == lock_rules(rules.deep_view()),
{
    let ghost all = rules.deep_view();
    let mut updates: bool = false;
    let mut deletions: bool = false;
    let mut i: usize = 0;
    while i < rules.len()
        invariant
            all == rules.deep_view(),
            i <= rules.len(),
            forall|j: int|
                0 <= j < i ==> (#[trigger] all[j]).kind == "update"@ || all[j].kind
                    == "deletion"@,
            updates == (exists|j: int| 0 <= j < i && (#[trigger] all[j]).kind == "update"@),
            deletions == (exists|j: int| 0 <= j < i && (#[trigger] all[j]).kind == "deletion"@),
        decreases rules.len() - i,
    {
        assert(all[i as int] == rules[i as int].deep_view());
        let is_update = text_eq(rules[i].kind.as_str(), "update");
        let is_deletion = text_eq(rules[i].kind.as_str(), "deletion");
        if !is_update && !is_deletion {
            return false;
        }
        updates = updates || is_update;
        deletions = deletions || is_deletion;
        i = i + 1;
    }
    updates && deletions
}

/// The lock of a ruleset. One with an exclusion, a bypass or other rules is no
/// lock.
pub open spec fn lock_of(
    repository: RepositoryIdView,
    ruleset: RulesetResponseView,
) -> Result<GitHubStackBranchLockGenerationView, GitHubStackBranchLockErrorView> {
    if ruleset.conditions.ref_name.exclude.len() > 0 || ruleset.bypass_actors.len() > 0 {
        Err(
            lock_refused(
                "github_stack_lock_bypass_detected"@,
                "Stack lock ruleset must have no exclusions or bypass actors"@,
            ),
        )
    } else if !lock_rules(ruleset.rules) {
        Err(
            lock_refused(
                "github_stack_lock_rules_invalid"@,
                "Stack lock ruleset requires exactly update and deletion rules"@,
            ),
        )
    } else {
        Ok(
            GitHubStackBranchLockGenerationView {
                id: ruleset.id,
                node_id: ruleset.node_id,
                name: ruleset.name,
                repository,
                source: ruleset.source,
                source_type: ruleset.source_type,
                target: ruleset.target,
                enforcement: ruleset.enforcement,
                selected_pull_requests: Seq::empty(),
                selected_refs: text::sorted(ruleset.conditions.ref_name.included),
                current_user_can_bypass: ruleset.current_user_can_bypass,
                created_at: ruleset.created_at,
                updated_at: ruleset.updated_at,
            },
        )
    }
}

/// The lock of a ruleset.
pub fn observed_lock(repository: &RepositoryId, response: RulesetResponse) -> (r: Result<
    GitHubStackBranchLockGeneration,
    GitHubStackBranchLockError,
>)
    ensures
        lock_view(r) == lock_of(repository.deep_view(), response.deep_view()),
{
    if response.conditions.ref_name.exclude.len() > 0 || response.bypass_actors.len() > 0 {
        return Err(
            invalid(
                "github_stack_lock_bypass_detected",
                "Stack lock ruleset must have no exclusions or bypass actors",
            ),
        );
    }
    if !are_lock_rules(&response.rules) {
        return Err(
            invalid(
                "github_stack_lock_rules_invalid",
                "Stack lock ruleset requires exactly update and deletion rules",
            ),
        );
    }
    let selected_refs = sort_texts(&response.conditions.ref_name.included);
    let selected_pull_requests: Vec<PrNumber> = Vec::new();
    assert(selected_pull_requests.deep_view() =~= Seq::<PrNumber>::empty());
    Ok(
        GitHubStackBranchLockGeneration {
            id: response.id,
            node_id: response.node_id,
            name: response.name,
            repository: repository.dup(),
            source: response.source,
            source_type: response.source_type,
            target: response.target,
            enforcement: response.enforcement,
            selected_pull_requests,
            selected_refs,
            current_user_can_bypass: response.current_user_can_bypass,
            created_at: response.created_at,
            updated_at: response.updated_at,
        },
    )
}

/// A lock that is bound to the pull requests it was taken for.
pub open spec fn bound(
    lock: GitHubStackBranchLockGenerationView,
    prs: Seq<PrNumber>,
) -> GitHubStackBranchLockGenerationView {
    GitHubStackBranchLockGenerationView { selected_pull_requests: prs, ..lock }
}

fn bind(lock: GitHubStackBranchLockGeneration, prs: Vec<PrNumber>) -> (r:
    GitHubStackBranchLockGeneration)
    ensures
        r.deep_view() == bound(lock.deep_view(), prs.deep_view()),
{
    let mut out = lock.dup();
    out.selected_pull_requests = prs;
    out
}

/// Binds a lock to the pull requests of a plan.
pub fn bind_selected_pull_requests(
    lock: &mut GitHubStackBranchLockGeneration,
    plan: &GitHubStackBranchLockPlan,
)
    ensures
        final(lock).deep_view() == bound(
            old(lock).deep_view(),
            stack::entry_prs(plan.deep_view().selected),
        ),
{
    lock.selected_pull_requests = selected_prs(plan);
}

/// Whether a lock is active, without bypass, and over the expected branches.
pub open spec fn same_policy(
    actual: GitHubStackBranchLockGenerationView,
    expected: GitHubStackBranchLockGenerationView,
) -> bool {
    actual.name == expected.name && actual.repository == expected.repository && actual.source
        == expected.source && actual.source_type == "Repository"@ && actual.target == "branch"@
        && actual.enforcement == "active"@ && actual.selected_refs == expected.selected_refs
        && actual.current_user_can_bypass == "never"@
}

/// Whether a lock is active, without bypass, and over the expected branches.
pub fn same_lock_policy(
    actual: &GitHubStackBranchLockGeneration,
    expected: &GitHubStackBranchLockGeneration,
) -> (r: bool)
    ensures
        r == same_policy(actual.deep_view(), expected.deep_view()),
{
    actual.name.same(&expected.name) && actual.repository.same(&expected.repository)
        && actual.source.same(&expected.source) && text_eq(
        actual.source_type.as_str(),
        "Repository",
    ) && text_eq(actual.target.as_str(), "branch") && text_eq(
        actual.enforcement.as_str(),
        "active",
    ) && actual.selected_refs.same(&expected.selected_refs) && text_eq(
        actual.current_user_can_bypass.as_str(),
        "never",
    )
}

// ---------------------------------------------------------------------------
// Commands
// ---------------------------------------------------------------------------

/// The path of all rulesets.
pub open spec fn rulesets_path_of(repository: RepositoryIdView) -> Seq<char> {
    "repos/"@ + repository.slug() + "/rulesets"@
}

fn rulesets_path(repository: &RepositoryId) -> (r: String)
    ensures
        r@ == rulesets_path_of(repository.deep_view()),
{
    "repos/".to_owned().concat(repository.slug().as_str()).concat("/rulesets")
}

/// The path of one ruleset.
pub open spec fn ruleset_path_of(repository: RepositoryIdView, id: u64) -> Seq<char> {
    rulesets_path_of(repository) + "/"@ + text::decimal(id as nat)
}

fn ruleset_path(repository: &RepositoryId, id: u64) -> (r: String)
    ensures
        r@ == ruleset_path_of(repository.deep_view(), id),
{
    rulesets_path(repository).concat("/").concat(decimal_text(id).as_str())
}

/// The rulesets of a repository.
pub open spec fn ruleset_list(repository: RepositoryIdView) -> CommandSpecView {
    stack::stack_api(
        "GET"@,
        rulesets_path_of(repository) + "?per_page=100"@,
        false,
        Seq::empty(),
    )
}

pub fn list_rulesets_command(repository: &RepositoryId) -> (r: CommandSpec)
    ensures
        r.deep_view() == ruleset_list(repository.deep_view()),
{
    let path = rulesets_path(repository).concat("?per_page=100");
    let tail: Vec<&str> = Vec::new();
    assert(tail.deep_view() =~= Seq::<Seq<char>>::empty());
    stack_api_command("GET", path.as_str(), false, tail)
}

/// One ruleset.
pub open spec fn ruleset_read(repository: RepositoryIdView, id: u64) -> CommandSpecView {
    stack::stack_api("GET"@, ruleset_path_of(repository, id), false, Seq::empty())
}

pub fn read_ruleset_command(repository: &RepositoryId, id: u64) -> (r: CommandSpec)
    ensures
        r.deep_view() == ruleset_read(repository.deep_view(), id),
{
    let path = ruleset_path(repository, id);
    let tail: Vec<&str> = Vec::new();
    assert(tail.deep_view() =~= Seq::<Seq<char>>::empty());
    stack_api_command("GET", path.as_str(), false, tail)
}

/// The deletion of one ruleset.
pub open spec fn ruleset_delete(repository: RepositoryIdView, id: u64) -> CommandSpecView {
    stack::stack_api("DELETE"@, ruleset_path_of(repository, id), true, Seq::empty())
}

pub fn delete_ruleset_command(repository: &RepositoryId, id: u64) -> (r: CommandSpec)
    ensures
        r.deep_view() == ruleset_delete(repository.deep_view(), id),
{
    let path = ruleset_path(repository, id);
    let tail: Vec<&str> = Vec::new();
    assert(tail.deep_view() =~= Seq::<Seq<char>>::empty());
    stack_api_command("DELETE", path.as_str(), true, tail)
}

/// The body of a new lock: active, no bypass, no exclusion, and the two rules.
pub open spec fn lock_tree(name: Seq<char>, refs: Seq<Seq<char>>) -> Json {
    let none = Json::Array(Seq::empty());
    let e = json::no_entries();
    let condition = json::object_of(
        json::entry(
            json::entry(e, "include"@, <Vec<String> as JsonForm>::form(refs)),
            "exclude"@,
            none,
        ),
    );
    let parameters = json::object_of(
        json::entry(e, "update_allows_fetch_and_merge"@, Json::Bool(false)),
    );
    let update = json::object_of(
        json::entry(
            json::entry(e, "type"@, Json::Text("update"@)),
            "parameters"@,
            parameters,
        ),
    );
    let deletion = json::object_of(json::entry(e, "type"@, Json::Text("deletion"@)));
    let e1 = json::entry(e, "name"@, Json::Text(name));
    let e2 = json::entry(e1, "target"@, Json::Text("branch"@));
    let e3 = json::entry(e2, "enforcement"@, Json::Text("active"@));
    let e4 = json::entry(e3, "bypass_actors"@, none);
    let e5 = json::entry(
        e4,
        "conditions"@,
        json::object_of(json::entry(e, "ref_name"@, condition)),
    );
    let e6 = json::entry(e5, "rules"@, Json::Array(seq![update, deletion]));
    json::object_of(e6)
}

fn empty_array() -> (r: serde_json::Value)
    ensures
        json::json_tree(r) == Json::Array(Seq::empty()),
{
    let items: Vec<serde_json::Value> = Vec::new();
    assert(json::json_trees(items@) =~= Seq::<Json>::empty());
    json_array(items)
}

fn lock_body(name: &String, refs: &Vec<String>) -> (r: String)
    ensures
        r@ == json::json_text(lock_tree(name@, refs.deep_view())),
{
    let condition = Entries::new().with("include", refs.to_json()).with(
        "exclude",
        empty_array(),
    ).object();
    let parameters = Entries::new().with(
        "update_allows_fetch_and_merge",
        json_bool(false),
    ).object();
    let update = Entries::new().with("type", json_string("update")).with(
        "parameters",
        parameters,
    ).object();
    let deletion = Entries::new().with("type", json_string("deletion")).object();
    let rules = vec![update, deletion];
    let ghost trees = seq![json::json_tree(update), json::json_tree(deletion)];
    assert(json::json_trees(rules@) =~= trees);
    let value = Entries::new().with("name", name.to_json()).with(
        "target",
        json_string("branch"),
    ).with("enforcement", json_string("active")).with("bypass_actors", empty_array()).with(
        "conditions",
        Entries::new().with("ref_name", condition).object(),
    ).with("rules", json_array(rules)).object();
    compact_text(&value)
}

/// The creation of a lock.
pub open spec fn ruleset_create(
    repository: RepositoryIdView,
    expected: GitHubStackBranchLockGenerationView,
) -> CommandSpecView {
    stack::stack_api(
        "POST"@,
        rulesets_path_of(repository),
        true,
        seq!["--input"@, "-"@],
    ).fed(json::json_text(lock_tree(expected.name, expected.selected_refs)))
}

pub fn create_ruleset_command(
    repository: &RepositoryId,
    expected: &GitHubStackBranchLockGeneration,
) -> (r: CommandSpec)
    ensures
        r.deep_view() == ruleset_create(repository.deep_view(), expected.deep_view()),
{
    let path = rulesets_path(repository);
    let tail = vec!["--input", "-"];
    assert(tail.deep_view() =~= seq!["--input"@, "-"@]);
    stack_api_command("POST", path.as_str(), true, tail).stdin(
        lock_body(&expected.name, &expected.selected_refs),
    )
}

// ---------------------------------------------------------------------------
// Reading locks
// ---------------------------------------------------------------------------

/// The lock in a reply to a read of one ruleset.
pub open spec fn lock_in(
    repository: RepositoryIdView,
    command: CommandSpecView,
    reply: Reply,
) -> Result<Option<GitHubStackBranchLockGenerationView>, GitHubStackBranchLockErrorView> {
    match reply {
        Err(error) => Err(
            GitHubStackBranchLockErrorView::Provider(
                MutationErrorView::Provider(DiscoveryErrorView::Runner(error)),
            ),
        ),
        Ok(output) => if output.succeeded() {
            match json::json_read(output.stdout) {
                Err(message) => Err(
                    lock_refused("github_stack_lock_provider_json_invalid"@, message),
                ),
                Ok(tree) => match RulesetResponse::decoded(tree) {
                    None => Err(
                        lock_refused(
                            "github_stack_lock_provider_json_invalid"@,
                            "unexpected JSON shape"@,
                        ),
                    ),
                    Some(ruleset) => match lock_of(repository, ruleset) {
                        Err(error) => Err(error),
                        Ok(lock) => Ok(Some(lock)),
                    },
                },
            }
        } else if text::holds_text(output.stderr, "HTTP 404"@) {
            Ok(None)
        } else {
            Err(
                GitHubStackBranchLockErrorView::Provider(
                    MutationErrorView::Provider(
                        DiscoveryErrorView::CommandFailed {
                            command,
                            code: output.code,
                            stderr: output.stderr,
                        },
                    ),
                ),
            )
        },
    }
}

/// The lock in a reply to a read of one ruleset.
pub fn judge_lock(
    repository: &RepositoryId,
    command: &CommandSpec,
    reply: Result<CommandOutput, CommandRunError>,
) -> (r: Result<Option<GitHubStackBranchLockGeneration>, GitHubStackBranchLockError>)
    ensures
        lock_view(r) == lock_in(
            repository.deep_view(),
            command.deep_view(),
            command::reply_view(reply),
        ),
{
    match reply {
        Err(error) => Err(
            GitHubStackBranchLockError::Provider(
                MutationError::Provider(DiscoveryError::Runner(error)),
            ),
        ),
        Ok(output) => if output.is_success() {
            let message = match parse(output.stdout.as_str()) {
                Err(message) => message,
                Ok(value) => match RulesetResponse::decode(&value) {
                    None => "unexpected JSON shape".to_owned(),
                    Some(ruleset) => {
                        return match observed_lock(repository, ruleset) {
                            Err(error) => Err(error),
                            Ok(lock) => Ok(Some(lock)),
                        };
                    },
                },
            };
            Err(invalid("github_stack_lock_provider_json_invalid", message.as_str()))
        } else if text_contains(output.stderr.as_str(), "HTTP 404") {
            Ok(None)
        } else {
            Err(
                GitHubStackBranchLockError::Provider(
                    MutationError::Provider(
                        DiscoveryError::CommandFailed {
                            command: command.dup(),
                            code: output.code,
                            stderr: output.stderr,
                        },
                    ),
                ),
            )
        },
    }
}

/// Reading one lock may end so.
pub open spec fn lock_read<R: CommandRunner>(
    runner: R,
    repository: RepositoryIdView,
    id: u64,
    outcome: Result<Option<GitHubStackBranchLockGenerationView>, GitHubStackBranchLockErrorView>,
) -> bool {
    exists|reply: Reply| #[trigger]
        command::ran(runner, ruleset_read(repository, id), reply) && outcome == lock_in(
            repository,
            ruleset_read(repository, id),
            reply,
        )
}

/// The rulesets of a name.
pub open spec fn of_name(rows: Seq<RulesetSummaryView>, name: Seq<char>) -> Seq<u64>
    decreases rows.len(),
{
    if rows.len() == 0 {
        Seq::empty()
    } else if rows.last().name == name {
        of_name(rows.drop_last(), name).push(rows.last().id)
    } else {
        of_name(rows.drop_last(), name)
    }
}

/// The one ruleset of a name, if any has it. A full page does not prove that
/// none has.
pub open spec fn only_of_name(rows: Seq<RulesetSummaryView>, name: Seq<char>) -> Result<
    Option<u64>,
    GitHubStackBranchLockErrorView,
> {
    let found = of_name(rows, name);
    if found.len() > 1 {
        Err(GitHubStackBranchLockErrorView::NameCollision { name })
    } else if found.len() == 1 {
        Ok(Some(found[0]))
    } else if rows.len() == RULESET_PAGE_SIZE {
        Err(GitHubStackBranchLockErrorView::InventoryTruncated)
    } else {
        Ok(None)
    }
}

/// The one ruleset of a name, if any has it.
pub fn pick_by_name(rows: &Vec<RulesetSummary>, name: &String) -> (r: Result<
    Option<u64>,
    GitHubStackBranchLockError,
>)
    ensures
        lock_view(r) == only_of_name(rows.deep_view(), name@),
{
    let ghost all = rows.deep_view();
    let mut found: Vec<u64> = Vec::new();
    let mut i: usize = 0;
    assert(found.deep_view() =~= of_name(all.take(0), name@));
    while i < rows.len()
        invariant
            all == rows.deep_view(),
            i <= rows.len(),
            found.deep_view() == of_name(all.take(i as int), name@),
        decreases rows.len() - i,
    {
        assert(all.take(i as int + 1).drop_last() =~= all.take(i as int));
        assert(all[i as int] == rows[i as int].deep_view());
        if rows[i].name.same(name) {
            push_item(&mut found, rows[i].id);
        }
        i = i + 1;
    }
    assert(all.take(i as int) =~= all);
    if found.len() > 1 {
        Err(GitHubStackBranchLockError::NameCollision { name: name.dup() })
    } else if found.len() == 1 {
        assert(found.deep_view()[0] == found[0]);
        Ok(Some(found[0]))
    } else if rows.len() == RULESET_PAGE_SIZE {
        Err(GitHubStackBranchLockError::InventoryTruncated)
    } else {
        Ok(None)
    }
}

/// Finding a lock by name may end so.
pub open spec fn lock_found<R: CommandRunner>(
    runner: R,
    repository: RepositoryIdView,
    name: Seq<char>,
    outcome: Result<Option<GitHubStackBranchLockGenerationView>, GitHubStackBranchLockErrorView>,
) -> bool {
    exists|list: Result<Seq<RulesetSummaryView>, MutationErrorView>| #[trigger]
        adapter::got::<R, Vec<RulesetSummary>>(runner, ruleset_list(repository), list)
            && match list {
            Err(error) => outcome == Err::<Option<GitHubStackBranchLockGenerationView>, _>(
                GitHubStackBranchLockErrorView::Provider(error),
            ),
            Ok(rows) => match only_of_name(rows, name) {
                Err(error) => outcome == Err::<Option<GitHubStackBranchLockGenerationView>, _>(
                    error,
                ),
                Ok(Some(id)) => lock_read(runner, repository, id, outcome),
                Ok(None) => outcome == Ok::<_, GitHubStackBranchLockErrorView>(
                    None::<GitHubStackBranchLockGenerationView>,
                ),
            },
        }
}

// ---------------------------------------------------------------------------
// Outcomes
// ---------------------------------------------------------------------------

/// A receipt, sealed.
pub open spec fn lock_receipt_of(
    repository: RepositoryIdView,
    plan: GitHubStackBranchLockPlanView,
    operation: GitHubStackBranchLockOperation,
    disposition: GitHubStackBranchLockDisposition,
    request_method: Seq<char>,
    request_path: Seq<char>,
    github_request_id: Option<Seq<char>>,
    lock: Option<GitHubStackBranchLockGenerationView>,
) -> GitHubStackBranchLockReceiptView {
    GitHubStackBranchLockReceiptView {
        schema_version: LOCK_SCHEMA_VERSION,
        operation_id: plan.operation_id,
        actor: plan.actor,
        repository,
        operation,
        disposition,
        request_method,
        request_path,
        github_request_id,
        lock,
        evidence_hash: Seq::empty(),
    }.sealed()
}

fn lock_receipt(
    repository: &RepositoryId,
    plan: &GitHubStackBranchLockPlan,
    operation: GitHubStackBranchLockOperation,
    disposition: GitHubStackBranchLockDisposition,
    request_method: &str,
    request_path: String,
    github_request_id: Option<String>,
    lock: Option<GitHubStackBranchLockGeneration>,
) -> (r: GitHubStackBranchLockReceipt)
    ensures
        r.deep_view() == lock_receipt_of(
            repository.deep_view(),
            plan.deep_view(),
            operation,
            disposition,
            request_method@,
            request_path@,
            github_request_id.deep_view(),
            lock.deep_view(),
        ),
{
    let receipt = GitHubStackBranchLockReceipt {
        schema_version: LOCK_SCHEMA_VERSION,
        operation_id: plan.operation_id.dup(),
        actor: plan.actor.dup(),
        repository: repository.dup(),
        operation,
        disposition,
        request_method: request_method.to_owned(),
        request_path,
        github_request_id,
        lock,
        evidence_hash: String::new(),
    };
    assert(receipt.deep_view().evidence_hash =~= Seq::empty());
    receipt.seal()
}

/// What a response says, for a message.
pub open spec fn said(reply: Reply) -> Seq<char> {
    match reply {
        Ok(output) => "provider exited "@ + stack::debug_code(output.code) + ": "@ + text::trimmed(
            output.stderr,
        ),
        Err(error) => error.message(),
    }
}

fn show_response(reply: &Result<CommandOutput, CommandRunError>) -> (r: String)
    ensures
        r@ == said(command::reply_view(*reply)),
{
    match reply {
        Ok(output) => "provider exited ".to_owned().concat(
            show_debug_code(&output.code).as_str(),
        ).concat(": ").concat(trim(output.stderr.as_str()).as_str()),
        Err(error) => error.to_text(),
    }
}

/// The refusal where a response does not tell whether a change was made.
pub open spec fn lock_ambiguous(
    operation: GitHubStackBranchLockOperation,
    diagnostic: Seq<char>,
    seen: Result<Option<GitHubStackBranchLockGenerationView>, GitHubStackBranchLockErrorView>,
) -> GitHubStackBranchLockErrorView {
    GitHubStackBranchLockErrorView::AmbiguousResponse {
        operation,
        diagnostic,
        rediscovery_diagnostic: match seen {
            Ok(_) => None,
            Err(error) => Some(error.message()),
        },
    }
}

fn ambiguous(
    operation: GitHubStackBranchLockOperation,
    diagnostic: String,
    seen: &Result<Option<GitHubStackBranchLockGeneration>, GitHubStackBranchLockError>,
) -> (r: GitHubStackBranchLockError)
    ensures
        r.deep_view() == lock_ambiguous(operation, diagnostic@, lock_view(*seen)),
{
    GitHubStackBranchLockError::AmbiguousResponse {
        operation,
        diagnostic,
        rediscovery_diagnostic: match seen {
            Ok(_) => None,
            Err(error) => Some(error.to_text()),
        },
    }
}

/// How a postcondition came about.
pub open spec fn lock_disposition(reply: Reply) -> GitHubStackBranchLockDisposition {
    if reply is Ok && reply->Ok_0.succeeded() {
        GitHubStackBranchLockDisposition::Completed
    } else {
        GitHubStackBranchLockDisposition::RecoveredAfterAmbiguousResponse
    }
}

/// The request identifier of a reply.
pub open spec fn reply_request_id(reply: Reply) -> Option<Seq<char>> {
    match reply {
        Ok(output) => stack_adapter::request_id(output),
        Err(_) => None,
    }
}

/// The outcome of taking a lock, from the response and a fresh read.
pub open spec fn acquire_outcome(
    repository: RepositoryIdView,
    plan: GitHubStackBranchLockPlanView,
    expected: GitHubStackBranchLockGenerationView,
    reply: Reply,
    seen: Result<Option<GitHubStackBranchLockGenerationView>, GitHubStackBranchLockErrorView>,
) -> Result<GitHubStackBranchLockReceiptView, GitHubStackBranchLockErrorView> {
    if seen is Ok && seen->Ok_0 is Some && same_policy(seen->Ok_0->0, expected) {
        Ok(
            lock_receipt_of(
                repository,
                plan,
                GitHubStackBranchLockOperation::Acquire,
                lock_disposition(reply),
                "POST"@,
                rulesets_path_of(repository),
                reply_request_id(reply),
                Some(bound(seen->Ok_0->0, stack::entry_prs(plan.selected))),
            ),
        )
    } else if reply is Ok && reply->Ok_0.succeeded() && seen is Ok {
        Err(
            GitHubStackBranchLockErrorView::PostconditionFailed {
                operation: GitHubStackBranchLockOperation::Acquire,
            },
        )
    } else {
        Err(lock_ambiguous(GitHubStackBranchLockOperation::Acquire, said(reply), seen))
    }
}

/// The outcome of taking a lock, from the response and a fresh read.
pub fn judge_acquire(
    repository: &RepositoryId,
    plan: &GitHubStackBranchLockPlan,
    expected: &GitHubStackBranchLockGeneration,
    reply: Result<CommandOutput, CommandRunError>,
    seen: Result<Option<GitHubStackBranchLockGeneration>, GitHubStackBranchLockError>,
) -> (r: Result<GitHubStackBranchLockReceipt, GitHubStackBranchLockError>)
    ensures
        lock_view(r) == acquire_outcome(
            repository.deep_view(),
            plan.deep_view(),
            expected.deep_view(),
            command::reply_view(reply),
            lock_view(seen),
        ),
{
    let diagnostic = show_response(&reply);
    let (succeeded, request_id) = match &reply {
        Ok(output) => (output.is_success(), github_request_id(output)),
        Err(_) => (false, None),
    };
    let disposition = if succeeded {
        GitHubStackBranchLockDisposition::Completed
    } else {
        GitHubStackBranchLockDisposition::RecoveredAfterAmbiguousResponse
    };
    match seen {
        Ok(Some(actual)) => if same_lock_policy(&actual, expected) {
            let lock = bind(actual, selected_prs(plan));
            Ok(
                lock_receipt(
                    repository,
                    plan,
                    GitHubStackBranchLockOperation::Acquire,
                    disposition,
                    "POST",
                    rulesets_path(repository),
                    request_id,
                    Some(lock),
                ),
            )
        } else if succeeded {
            Err(
                GitHubStackBranchLockError::PostconditionFailed {
                    operation: GitHubStackBranchLockOperation::Acquire,
                },
            )
        } else {
            Err(
                ambiguous(
                    GitHubStackBranchLockOperation::Acquire,
                    diagnostic,
                    &Ok(Some(actual)),
                ),
            )
        },
        Ok(None) => if succeeded {
            Err(
                GitHubStackBranchLockError::PostconditionFailed {
                    operation: GitHubStackBranchLockOperation::Acquire,
                },
            )
        } else {
            Err(ambiguous(GitHubStackBranchLockOperation::Acquire, diagnostic, &Ok(None)))
        },
        Err(error) => Err(
            ambiguous(GitHubStackBranchLockOperation::Acquire, diagnostic, &Err(error)),
        ),
    }
}

/// Taking a lock whose name is in use: done before, or a collision.
pub open spec fn acquire_existing(
    repository: RepositoryIdView,
    plan: GitHubStackBranchLockPlanView,
    existing: GitHubStackBranchLockGenerationView,
) -> Result<GitHubStackBranchLockReceiptView, GitHubStackBranchLockErrorView> {
    let expected = planned_lock(repository, plan);
    if same_policy(existing, expected) {
        Ok(
            lock_receipt_of(
                repository,
                plan,
                GitHubStackBranchLockOperation::Acquire,
                GitHubStackBranchLockDisposition::AlreadySatisfied,
                "POST"@,
                rulesets_path_of(repository),
                None,
                Some(bound(existing, stack::entry_prs(plan.selected))),
            ),
        )
    } else {
        Err(GitHubStackBranchLockErrorView::NameCollision { name: expected.name })
    }
}

/// The taking of a lock whose name is free.
pub struct LockTaking {
    pub repository: RepositoryId,
    pub plan: GitHubStackBranchLockPlan,
    pub expected: GitHubStackBranchLockGeneration,
    pub command: CommandSpec,
}

impl OneWrite for LockTaking {
    type Kept = Granted;

    type Seen = Result<Option<GitHubStackBranchLockGeneration>, GitHubStackBranchLockError>;

    type SeenView = Result<
        Option<GitHubStackBranchLockGenerationView>,
        GitHubStackBranchLockErrorView,
    >;

    type Outcome = Result<GitHubStackBranchLockReceipt, GitHubStackBranchLockError>;

    type OutcomeView = Result<GitHubStackBranchLockReceiptView, GitHubStackBranchLockErrorView>;

    open spec fn seen_view(seen: Self::Seen) -> Self::SeenView {
        lock_view(seen)
    }

    open spec fn outcome_view(outcome: Self::Outcome) -> Self::OutcomeView {
        lock_view(outcome)
    }

    open spec fn request(&self, kept: ()) -> CommandSpecView {
        self.command.deep_view()
    }

    open spec fn closed(&self, kept: (), reply: Reply) -> Option<Self::OutcomeView> {
        None
    }

    open spec fn concluded(
        &self,
        kept: (),
        reply: Reply,
        seen: Self::SeenView,
    ) -> Self::OutcomeView {
        acquire_outcome(
            self.repository.deep_view(),
            self.plan.deep_view(),
            self.expected.deep_view(),
            reply,
            seen,
        )
    }

    fn make_request(&self, kept: &Granted) -> (r: CommandSpec) {
        self.command.dup()
    }

    fn close(
        &self,
        kept: &Granted,
        reply: &Result<CommandOutput, CommandRunError>,
    ) -> (r: Option<Self::Outcome>) {
        None
    }

    fn conclude(
        &self,
        kept: Granted,
        reply: &Result<CommandOutput, CommandRunError>,
        seen: Self::Seen,
    ) -> (r: Self::Outcome) {
        judge_acquire(&self.repository, &self.plan, &self.expected, dup_reply(reply), seen)
    }
}

/// Asking for a lock may end so. The lock is looked for once the request was
/// answered.
pub open spec fn acquire_sent<R: CommandRunner>(
    runner: R,
    repository: RepositoryIdView,
    plan: GitHubStackBranchLockPlanView,
    outcome: Result<GitHubStackBranchLockReceiptView, GitHubStackBranchLockErrorView>,
) -> bool {
    exists|
        sent: Sent,
        seen: Result<Option<GitHubStackBranchLockGenerationView>, GitHubStackBranchLockErrorView>,
    |
        #[trigger] command::was_sent(
            runner,
            ruleset_create(repository, planned_lock(repository, plan)),
            sent,
        ) && #[trigger] lock_found(
            command::after(&runner, &sent),
            repository,
            planned_lock(repository, plan).name,
            seen,
        ) && outcome == acquire_outcome(
            repository,
            plan,
            planned_lock(repository, plan),
            sent.answer(),
            seen,
        )
}

/// Taking a lock for a valid plan may end so.
pub open spec fn acquire_planned<R: CommandRunner>(
    runner: R,
    repository: RepositoryIdView,
    plan: GitHubStackBranchLockPlanView,
    outcome: Result<GitHubStackBranchLockReceiptView, GitHubStackBranchLockErrorView>,
) -> bool {
    exists|
        found: Result<Option<GitHubStackBranchLockGenerationView>, GitHubStackBranchLockErrorView>,
    | #[trigger]
        lock_found(runner, repository, planned_lock(repository, plan).name, found) && match found {
            Err(error) => outcome == Err::<GitHubStackBranchLockReceiptView, _>(error),
            Ok(Some(existing)) => outcome == acquire_existing(repository, plan, existing),
            Ok(None) => acquire_sent(runner, repository, plan, outcome),
        }
}

/// Taking a lock may end so.
pub open spec fn acquired<R: CommandRunner>(
    runner: R,
    repository: RepositoryIdView,
    plan: GitHubStackBranchLockPlanView,
    outcome: Result<GitHubStackBranchLockReceiptView, GitHubStackBranchLockErrorView>,
) -> bool {
    match lock_refusal(repository, plan) {
        Some(error) => outcome == Err::<GitHubStackBranchLockReceiptView, _>(error),
        None => acquire_planned(runner, repository, plan, outcome),
    }
}

/// Whether a lock is still the expected one.
pub open spec fn held(
    expected: GitHubStackBranchLockGenerationView,
    actual: Option<GitHubStackBranchLockGenerationView>,
) -> Result<GitHubStackBranchLockGenerationView, GitHubStackBranchLockErrorView> {
    match actual {
        None => Err(GitHubStackBranchLockErrorView::StaleLock { expected, actual: None }),
        Some(lock) => {
            let known = bound(lock, expected.selected_pull_requests);
            if known == expected {
                Ok(known)
            } else {
                Err(GitHubStackBranchLockErrorView::StaleLock { expected, actual: Some(known) })
            }
        },
    }
}

/// Whether a lock is still the expected one.
pub fn judge_held(
    expected: &GitHubStackBranchLockGeneration,
    actual: Option<GitHubStackBranchLockGeneration>,
) -> (r: Result<GitHubStackBranchLockGeneration, GitHubStackBranchLockError>)
    ensures
        lock_view(r) == held(expected.deep_view(), actual.deep_view()),
{
    match actual {
        None => Err(
            GitHubStackBranchLockError::StaleLock {
                expected: Box::new(expected.dup()),
                actual: None,
            },
        ),
        Some(lock) => {
            let known = bind(lock, expected.selected_pull_requests.dup());
            if known.same(expected) {
                Ok(known)
            } else {
                Err(
                    GitHubStackBranchLockError::StaleLock {
                        expected: Box::new(expected.dup()),
                        actual: Some(Box::new(known)),
                    },
                )
            }
        },
    }
}

/// Confirming a lock may end so.
pub open spec fn lock_verified<R: CommandRunner>(
    runner: R,
    repository: RepositoryIdView,
    expected: GitHubStackBranchLockGenerationView,
    outcome: Result<GitHubStackBranchLockGenerationView, GitHubStackBranchLockErrorView>,
) -> bool {
    exists|
        read: Result<Option<GitHubStackBranchLockGenerationView>, GitHubStackBranchLockErrorView>,
    | #[trigger]
        lock_read(runner, repository, expected.id, read) && outcome == match read {
            Err(error) => Err(error),
            Ok(actual) => held(expected, actual),
        }
}

/// A lock that is confirmed is exactly the expected one.
pub proof fn lemma_confirmed_lock_is_exact<R: CommandRunner>(
    runner: R,
    repository: RepositoryIdView,
    expected: GitHubStackBranchLockGenerationView,
    lock: GitHubStackBranchLockGenerationView,
)
    requires
        lock_verified(runner, repository, expected, Ok(lock)),
    ensures
        lock == expected,
{
}

/// Reading whether a lock is gone, by identity and by name, may end so.
pub open spec fn lock_gone<R: CommandRunner>(
    runner: R,
    repository: RepositoryIdView,
    expected: GitHubStackBranchLockGenerationView,
    outcome: Result<Option<GitHubStackBranchLockGenerationView>, GitHubStackBranchLockErrorView>,
) -> bool {
    exists|
        read: Result<Option<GitHubStackBranchLockGenerationView>, GitHubStackBranchLockErrorView>,
    | #[trigger]
        lock_read(runner, repository, expected.id, read) && match read {
            Ok(None) => lock_found(runner, repository, expected.name, outcome),
            _ => outcome == read,
        }
}

/// The outcome of releasing a lock, from the response and a fresh read.
pub open spec fn release_outcome(
    repository: RepositoryIdView,
    plan: GitHubStackBranchLockPlanView,
    id: u64,
    reply: Reply,
    seen: Result<Option<GitHubStackBranchLockGenerationView>, GitHubStackBranchLockErrorView>,
) -> Result<GitHubStackBranchLockReceiptView, GitHubStackBranchLockErrorView> {
    if seen is Ok && seen->Ok_0 is None {
        Ok(
            lock_receipt_of(
                repository,
                plan,
                GitHubStackBranchLockOperation::Release,
                lock_disposition(reply),
                "DELETE"@,
                ruleset_path_of(repository, id),
                reply_request_id(reply),
                None,
            ),
        )
    } else if reply is Ok && reply->Ok_0.succeeded() && seen is Ok {
        Err(
            GitHubStackBranchLockErrorView::PostconditionFailed {
                operation: GitHubStackBranchLockOperation::Release,
            },
        )
    } else {
        Err(lock_ambiguous(GitHubStackBranchLockOperation::Release, said(reply), seen))
    }
}

/// The outcome of releasing a lock, from the response and a fresh read.
pub fn judge_release(
    repository: &RepositoryId,
    plan: &GitHubStackBranchLockPlan,
    id: u64,
    reply: Result<CommandOutput, CommandRunError>,
    seen: Result<Option<GitHubStackBranchLockGeneration>, GitHubStackBranchLockError>,
) -> (r: Result<GitHubStackBranchLockReceipt, GitHubStackBranchLockError>)
    ensures
        lock_view(r) == release_outcome(
            repository.deep_view(),
            plan.deep_view(),
            id,
            command::reply_view(reply),
            lock_view(seen),
        ),
{
    let diagnostic = show_response(&reply);
    let (succeeded, request_id) = match &reply {
        Ok(output) => (output.is_success(), github_request_id(output)),
        Err(_) => (false, None),
    };
    match seen {
        Ok(None) => {
            let disposition = if succeeded {
                GitHubStackBranchLockDisposition::Completed
            } else {
                GitHubStackBranchLockDisposition::RecoveredAfterAmbiguousResponse
            };
            Ok(
                lock_receipt(
                    repository,
                    plan,
                    GitHubStackBranchLockOperation::Release,
                    disposition,
                    "DELETE",
                    ruleset_path(repository, id),
                    request_id,
                    None,
                ),
            )
        },
        Ok(Some(lock)) => if succeeded {
            Err(
                GitHubStackBranchLockError::PostconditionFailed {
                    operation: GitHubStackBranchLockOperation::Release,
                },
            )
        } else {
            Err(
                ambiguous(
                    GitHubStackBranchLockOperation::Release,
                    diagnostic,
                    &Ok(Some(lock)),
                ),
            )
        },
        Err(error) => Err(
            ambiguous(GitHubStackBranchLockOperation::Release, diagnostic, &Err(error)),
        ),
    }
}

/// The release of a lock that was read exactly as expected.
pub struct LockRelease {
    pub repository: RepositoryId,
    pub plan: GitHubStackBranchLockPlan,
    pub id: u64,
    pub command: CommandSpec,
}

impl OneWrite for LockRelease {
    type Kept = Granted;

    type Seen = Result<Option<GitHubStackBranchLockGeneration>, GitHubStackBranchLockError>;

    type SeenView = Result<
        Option<GitHubStackBranchLockGenerationView>,
        GitHubStackBranchLockErrorView,
    >;

    type Outcome = Result<GitHubStackBranchLockReceipt, GitHubStackBranchLockError>;

    type OutcomeView = Result<GitHubStackBranchLockReceiptView, GitHubStackBranchLockErrorView>;

    open spec fn seen_view(seen: Self::Seen) -> Self::SeenView {
        lock_view(seen)
    }

    open spec fn outcome_view(outcome: Self::Outcome) -> Self::OutcomeView {
        lock_view(outcome)
    }

    open spec fn request(&self, kept: ()) -> CommandSpecView {
        self.command.deep_view()
    }

    open spec fn closed(&self, kept: (), reply: Reply) -> Option<Self::OutcomeView> {
        None
    }

    open spec fn concluded(
        &self,
        kept: (),
        reply: Reply,
        seen: Self::SeenView,
    ) -> Self::OutcomeView {
        release_outcome(
            self.repository.deep_view(),
            self.plan.deep_view(),
            self.id,
            reply,
            seen,
        )
    }

    fn make_request(&self, kept: &Granted) -> (r: CommandSpec) {
        self.command.dup()
    }

    fn close(
        &self,
        kept: &Granted,
        reply: &Result<CommandOutput, CommandRunError>,
    ) -> (r: Option<Self::Outcome>) {
        None
    }

    fn conclude(
        &self,
        kept: Granted,
        reply: &Result<CommandOutput, CommandRunError>,
        seen: Self::Seen,
    ) -> (r: Self::Outcome) {
        judge_release(&self.repository, &self.plan, self.id, dup_reply(reply), seen)
    }
}

/// Releasing a lock that is there may end so. The lock is looked for once the
/// request was answered.
pub open spec fn release_sent<R: CommandRunner>(
    runner: R,
    repository: RepositoryIdView,
    plan: GitHubStackBranchLockPlanView,
    expected: GitHubStackBranchLockGenerationView,
    outcome: Result<GitHubStackBranchLockReceiptView, GitHubStackBranchLockErrorView>,
) -> bool {
    exists|
        sent: Sent,
        seen: Result<Option<GitHubStackBranchLockGenerationView>, GitHubStackBranchLockErrorView>,
    |
        #[trigger] command::was_sent(runner, ruleset_delete(repository, expected.id), sent)
            && #[trigger] lock_gone(command::after(&runner, &sent), repository, expected, seen)
            && outcome == release_outcome(repository, plan, expected.id, sent.answer(), seen)
}

/// Releasing a lock that is not there may end so: done before, unless its name
/// is in use.
pub open spec fn release_absent<R: CommandRunner>(
    runner: R,
    repository: RepositoryIdView,
    plan: GitHubStackBranchLockPlanView,
    expected: GitHubStackBranchLockGenerationView,
    outcome: Result<GitHubStackBranchLockReceiptView, GitHubStackBranchLockErrorView>,
) -> bool {
    exists|
        found: Result<Option<GitHubStackBranchLockGenerationView>, GitHubStackBranchLockErrorView>,
    | #[trigger]
        lock_found(runner, repository, expected.name, found) && outcome == match found {
            Err(error) => Err(error),
            Ok(Some(actual)) => Err(
                GitHubStackBranchLockErrorView::StaleLock { expected, actual: Some(actual) },
            ),
            Ok(None) => Ok(
                lock_receipt_of(
                    repository,
                    plan,
                    GitHubStackBranchLockOperation::Release,
                    GitHubStackBranchLockDisposition::AlreadySatisfied,
                    "DELETE"@,
                    ruleset_path_of(repository, expected.id),
                    None,
                    None,
                ),
            ),
        }
}

/// Releasing a lock for a valid plan may end so. Only the exact generation is
/// deleted.
pub open spec fn release_planned<R: CommandRunner>(
    runner: R,
    repository: RepositoryIdView,
    plan: GitHubStackBranchLockPlanView,
    expected: GitHubStackBranchLockGenerationView,
    outcome: Result<GitHubStackBranchLockReceiptView, GitHubStackBranchLockErrorView>,
) -> bool {
    exists|
        read: Result<Option<GitHubStackBranchLockGenerationView>, GitHubStackBranchLockErrorView>,
    | #[trigger]
        lock_read(runner, repository, expected.id, read) && match read {
            Err(error) => outcome == Err::<GitHubStackBranchLockReceiptView, _>(error),
            Ok(None) => release_absent(runner, repository, plan, expected, outcome),
            Ok(Some(lock)) => match held(expected, Some(lock)) {
                Err(error) => outcome == Err::<GitHubStackBranchLockReceiptView, _>(error),
                Ok(_) => release_sent(runner, repository, plan, expected, outcome),
            },
        }
}

/// Releasing a lock may end so.
pub open spec fn released<R: CommandRunner>(
    runner: R,
    repository: RepositoryIdView,
    plan: GitHubStackBranchLockPlanView,
    expected: GitHubStackBranchLockGenerationView,
    outcome: Result<GitHubStackBranchLockReceiptView, GitHubStackBranchLockErrorView>,
) -> bool {
    match lock_refusal(repository, plan) {
        Some(error) => outcome == Err::<GitHubStackBranchLockReceiptView, _>(error),
        None => release_planned(runner, repository, plan, expected, outcome),
    }
}

proof fn lemma_lock_receipts_are_intact()
    ensures
        forall|receipt: GitHubStackBranchLockReceiptView| (#[trigger] receipt.sealed()).intact(),
{
    assert forall|receipt: GitHubStackBranchLockReceiptView| (
    #[trigger] receipt.sealed()).intact() by {
        lemma_sealed_lock_receipt_is_intact(receipt);
    }
}

/// The receipt of a lock that was taken is intact, and names a lock that is
/// active, without bypass, over exactly the branches of the plan, and bound to
/// its pull requests.
pub proof fn lemma_acquired_receipt<R: CommandRunner>(
    runner: R,
    repository: RepositoryIdView,
    plan: GitHubStackBranchLockPlanView,
    receipt: GitHubStackBranchLockReceiptView,
)
    requires
        acquired(runner, repository, plan, Ok(receipt)),
    ensures
        receipt.intact(),
        receipt.operation == GitHubStackBranchLockOperation::Acquire,
        receipt.lock is Some,
        same_policy(receipt.lock->0, planned_lock(repository, plan)),
        receipt.lock->0.selected_pull_requests == stack::entry_prs(plan.selected),
        lock_refusal(repository, plan) is None,
{
    lemma_lock_receipts_are_intact();
}

/// The receipt of a release is intact and names no lock.
pub proof fn lemma_released_receipt<R: CommandRunner>(
    runner: R,
    repository: RepositoryIdView,
    plan: GitHubStackBranchLockPlanView,
    expected: GitHubStackBranchLockGenerationView,
    receipt: GitHubStackBranchLockReceiptView,
)
    requires
        released(runner, repository, plan, expected, Ok(receipt)),
    ensures
        receipt.intact(),
        receipt.operation == GitHubStackBranchLockOperation::Release,
        receipt.lock is None,
{
    lemma_lock_receipts_are_intact();
}

// ---------------------------------------------------------------------------
// What may be run
// ---------------------------------------------------------------------------

/// What a search for a lock by name may run: the list, and the read of the one
/// ruleset of that name in it.
pub open spec fn may_find_lock<R: CommandRunner>(
    runner: R,
    repository: RepositoryIdView,
    name: Seq<char>,
) -> bool {
    &&& runner.allows(ruleset_list(repository))
    &&& forall|rows: Seq<RulesetSummaryView>, id: u64|
        #[trigger] adapter::got::<R, Vec<RulesetSummary>>(
            runner,
            ruleset_list(repository),
            Ok(rows),
        ) && only_of_name(rows, name) == Ok::<_, GitHubStackBranchLockErrorView>(
            Some(id),
        ) ==> #[trigger] runner.allows(ruleset_read(repository, id))
}

/// What taking a lock may run: nothing for a refused plan, else the search by
/// name, and the creation once the search found none.
pub open spec fn may_acquire<R: CommandRunner>(
    runner: R,
    repository: RepositoryIdView,
    plan: GitHubStackBranchLockPlanView,
) -> bool {
    let lock = planned_lock(repository, plan);
    lock_refusal(repository, plan) is None ==> {
        &&& may_find_lock(runner, repository, lock.name)
        &&& lock_found(runner, repository, lock.name, Ok(None)) ==> runner.allows(
            ruleset_create(repository, lock),
        )
    }
}

/// What releasing a lock may run: nothing for a refused plan, else the read of
/// the lock, the search by name, and the deletion once the lock was read exactly
/// as expected.
pub open spec fn may_release<R: CommandRunner>(
    runner: R,
    repository: RepositoryIdView,
    plan: GitHubStackBranchLockPlanView,
    expected: GitHubStackBranchLockGenerationView,
) -> bool {
    lock_refusal(repository, plan) is None ==> {
        &&& runner.allows(ruleset_read(repository, expected.id))
        &&& may_find_lock(runner, repository, expected.name)
        &&& forall|lock: GitHubStackBranchLockGenerationView| #[trigger]
            lock_read(runner, repository, expected.id, Ok(Some(lock))) && held(
                expected,
                Some(lock),
            ) is Ok ==> runner.allows(ruleset_delete(repository, expected.id))
    }
}

/// What a search for a lock may run, it may run after a request was sent.
proof fn lemma_may_find_lock_after<R: CommandRunner>(
    runner: R,
    sent: Sent,
    repository: RepositoryIdView,
    name: Seq<char>,
)
    requires
        may_find_lock(runner, repository, name),
    ensures
        may_find_lock(command::after(&runner, &sent), repository, name),
{
    let later = command::after(&runner, &sent);
    assert forall|rows: Seq<RulesetSummaryView>, id: u64|
        #[trigger] adapter::got::<command::After<R>, Vec<RulesetSummary>>(
            later,
            ruleset_list(repository),
            Ok(rows),
        ) && only_of_name(rows, name) == Ok::<_, GitHubStackBranchLockErrorView>(
            Some(id),
        ) implies #[trigger] later.allows(ruleset_read(repository, id)) by {
        adapter::lemma_after_got::<R, Vec<RulesetSummary>>(
            runner,
            sent,
            ruleset_list(repository),
            Ok(rows),
        );
        assert(runner.allows(ruleset_read(repository, id)));
    }
}

impl<R: CommandRunner> GitHubMutationAdapter<R> {
    fn read_stack_branch_lock(&self, repository: &RepositoryId, id: u64) -> (r: Result<
        Option<GitHubStackBranchLockGeneration>,
        GitHubStackBranchLockError,
    >)
        requires
            self.runner.allows(ruleset_read(repository.deep_view(), id)),
        ensures
            lock_read(self.runner, repository.deep_view(), id, lock_view(r)),
    {
        let command = read_ruleset_command(repository, id);
        let reply = run(&self.runner, &command);
        assert(command::ran(
            self.runner,
            ruleset_read(repository.deep_view(), id),
            command::reply_view(reply),
        ));
        judge_lock(repository, &command, reply)
    }

    fn find_stack_branch_lock(&self, repository: &RepositoryId, name: &String) -> (r: Result<
        Option<GitHubStackBranchLockGeneration>,
        GitHubStackBranchLockError,
    >)
        requires
            may_find_lock(self.runner, repository.deep_view(), name@),
        ensures
            lock_found(self.runner, repository.deep_view(), name@, lock_view(r)),
    {
        let list = self.json::<Vec<RulesetSummary>>(&list_rulesets_command(repository));
        assert(adapter::got::<R, Vec<RulesetSummary>>(
            self.runner,
            ruleset_list(repository.deep_view()),
            adapter::outcome_view(list),
        ));
        match list {
            Err(error) => Err(GitHubStackBranchLockError::Provider(error)),
            Ok(rows) => match pick_by_name(&rows, name) {
                Err(error) => Err(error),
                Ok(Some(id)) => self.read_stack_branch_lock(repository, id),
                Ok(None) => Ok(None),
            },
        }
    }

    /// Takes one lock over every selected branch. A lock that is there already
    /// is not taken again; after an ambiguous response only a fresh read of
    /// the exact lock counts.
    pub fn native_stack_branch_lock_acquire(
        &self,
        repository: &RepositoryId,
        plan: &GitHubStackBranchLockPlan,
    ) -> (r: Result<GitHubStackBranchLockReceipt, GitHubStackBranchLockError>)
        requires
            may_acquire(self.runner, repository.deep_view(), plan.deep_view()),
        ensures
            acquired(self.runner, repository.deep_view(), plan.deep_view(), lock_view(r)),
    {
        let expected = match expected_lock(repository, plan) {
            Err(error) => {
                return Err(error);
            },
            Ok(expected) => expected,
        };
        let found = self.find_stack_branch_lock(repository, &expected.name);
        assert(lock_found(
            self.runner,
            repository.deep_view(),
            planned_lock(repository.deep_view(), plan.deep_view()).name,
            lock_view(found),
        ));
        match found {
            Err(error) => {
                return Err(error);
            },
            Ok(Some(existing)) => {
                if same_lock_policy(&existing, &expected) {
                    let lock = bind(existing, selected_prs(plan));
                    return Ok(
                        lock_receipt(
                            repository,
                            plan,
                            GitHubStackBranchLockOperation::Acquire,
                            GitHubStackBranchLockDisposition::AlreadySatisfied,
                            "POST",
                            rulesets_path(repository),
                            None,
                            Some(lock),
                        ),
                    );
                }
                return Err(GitHubStackBranchLockError::NameCollision { name: expected.name });
            },
            Ok(None) => {},
        }
        let name = expected.name.dup();
        let taking = LockTaking {
            repository: repository.dup(),
            plan: plan.dup(),
            command: create_ruleset_command(repository, &expected),
            expected,
        };
        let see = |sent: &Sent| -> (seen: Result<
            Option<GitHubStackBranchLockGeneration>,
            GitHubStackBranchLockError,
        >)
            requires
                self.may_find(repository, &name),
            ensures
                self.seen_lock(repository, &name, sent, &seen),
            { self.see_lock(repository, &name, sent) };
        perform(&self.runner, &taking, Ok(Granted), see)
    }

    /// Whether a lock may be looked for by name.
    pub open spec fn may_find(&self, repository: &RepositoryId, name: &String) -> bool {
        may_find_lock(self.runner, repository.deep_view(), name@)
    }

    /// Looking for a lock after a request was sent may end so.
    pub open spec fn seen_lock(
        &self,
        repository: &RepositoryId,
        name: &String,
        sent: &Sent,
        seen: &Result<Option<GitHubStackBranchLockGeneration>, GitHubStackBranchLockError>,
    ) -> bool {
        lock_found(
            command::after(&self.runner, sent),
            repository.deep_view(),
            name@,
            lock_view(*seen),
        )
    }

    /// Looks for a lock after a request was sent.
    fn see_lock(&self, repository: &RepositoryId, name: &String, sent: &Sent) -> (r: Result<
        Option<GitHubStackBranchLockGeneration>,
        GitHubStackBranchLockError,
    >)
        requires
            self.may_find(repository, name),
        ensures
            self.seen_lock(repository, name, sent, &r),
    {
        proof {
            lemma_may_find_lock_after(self.runner, *sent, repository.deep_view(), name@);
        }
        self.after(sent).find_stack_branch_lock(repository, name)
    }

    /// Whether a lock may be looked for by identity and by name.
    pub open spec fn may_see_release(
        &self,
        repository: &RepositoryId,
        expected: &GitHubStackBranchLockGeneration,
    ) -> bool {
        self.runner.allows(ruleset_read(repository.deep_view(), expected.deep_view().id))
            && may_find_lock(self.runner, repository.deep_view(), expected.deep_view().name)
    }

    /// Looking whether a lock is gone after a request was sent may end so.
    pub open spec fn seen_release(
        &self,
        repository: &RepositoryId,
        expected: &GitHubStackBranchLockGeneration,
        sent: &Sent,
        seen: &Result<Option<GitHubStackBranchLockGeneration>, GitHubStackBranchLockError>,
    ) -> bool {
        lock_gone(
            command::after(&self.runner, sent),
            repository.deep_view(),
            expected.deep_view(),
            lock_view(*seen),
        )
    }

    /// Looks whether a lock is gone after a request was sent.
    fn see_release(
        &self,
        repository: &RepositoryId,
        expected: &GitHubStackBranchLockGeneration,
        sent: &Sent,
    ) -> (r: Result<Option<GitHubStackBranchLockGeneration>, GitHubStackBranchLockError>)
        requires
            self.may_see_release(repository, expected),
        ensures
            self.seen_release(repository, expected, sent, &r),
    {
        proof {
            lemma_may_find_lock_after(
                self.runner,
                *sent,
                repository.deep_view(),
                expected.deep_view().name,
            );
        }
        self.after(sent).lock_after_release(repository, expected)
    }

    /// Confirms that the exact lock is there.
    pub fn native_stack_branch_lock_verify(
        &self,
        repository: &RepositoryId,
        expected: &GitHubStackBranchLockGeneration,
    ) -> (r: Result<GitHubStackBranchLockGeneration, GitHubStackBranchLockError>)
        requires
            self.runner.allows(ruleset_read(repository.deep_view(), expected.deep_view().id)),
        ensures
            lock_verified(
                self.runner,
                repository.deep_view(),
                expected.deep_view(),
                lock_view(r),
            ),
    {
        let read = self.read_stack_branch_lock(repository, expected.id);
        assert(lock_read(
            self.runner,
            repository.deep_view(),
            expected.deep_view().id,
            lock_view(read),
        ));
        match read {
            Err(error) => Err(error),
            Ok(actual) => judge_held(expected, actual),
        }
    }

    /// Releases exactly one generation of a lock. A ruleset that changed is
    /// never deleted; a lock that is gone is not deleted again.
    pub fn native_stack_branch_lock_release(
        &self,
        repository: &RepositoryId,
        plan: &GitHubStackBranchLockPlan,
        expected: &GitHubStackBranchLockGeneration,
    ) -> (r: Result<GitHubStackBranchLockReceipt, GitHubStackBranchLockError>)
        requires
            may_release(self.runner, repository.deep_view(), plan.deep_view(), expected.deep_view()),
        ensures
            released(
                self.runner,
                repository.deep_view(),
                plan.deep_view(),
                expected.deep_view(),
                lock_view(r),
            ),
    {
        match validate_lock_plan(repository, plan) {
            Err(error) => {
                return Err(error);
            },
            Ok(_) => {},
        }
        let read = self.read_stack_branch_lock(repository, expected.id);
        assert(lock_read(
            self.runner,
            repository.deep_view(),
            expected.deep_view().id,
            lock_view(read),
        ));
        match read {
            Err(error) => {
                return Err(error);
            },
            Ok(None) => {
                let found = self.find_stack_branch_lock(repository, &expected.name);
                assert(lock_found(
                    self.runner,
                    repository.deep_view(),
                    expected.deep_view().name,
                    lock_view(found),
                ));
                return match found {
                    Err(error) => Err(error),
                    Ok(Some(actual)) => Err(
                        GitHubStackBranchLockError::StaleLock {
                            expected: Box::new(expected.dup()),
                            actual: Some(Box::new(actual)),
                        },
                    ),
                    Ok(None) => Ok(
                        lock_receipt(
                            repository,
                            plan,
                            GitHubStackBranchLockOperation::Release,
                            GitHubStackBranchLockDisposition::AlreadySatisfied,
                            "DELETE",
                            ruleset_path(repository, expected.id),
                            None,
                            None,
                        ),
                    ),
                };
            },
            Ok(Some(lock)) => match judge_held(expected, Some(lock)) {
                Err(error) => {
                    return Err(error);
                },
                Ok(_) => {},
            },
        }
        let release = LockRelease {
            repository: repository.dup(),
            plan: plan.dup(),
            id: expected.id,
            command: delete_ruleset_command(repository, expected.id),
        };
        let see = |sent: &Sent| -> (seen: Result<
            Option<GitHubStackBranchLockGeneration>,
            GitHubStackBranchLockError,
        >)
            requires
                self.may_see_release(repository, expected),
            ensures
                self.seen_release(repository, expected, sent, &seen),
            { self.see_release(repository, expected, sent) };
        perform(&self.runner, &release, Ok(Granted), see)
    }

    fn lock_after_release(
        &self,
        repository: &RepositoryId,
        expected: &GitHubStackBranchLockGeneration,
    ) -> (r: Result<Option<GitHubStackBranchLockGeneration>, GitHubStackBranchLockError>)
        requires
            self.runner.allows(ruleset_read(repository.deep_view(), expected.deep_view().id)),
            may_find_lock(self.runner, repository.deep_view(), expected.deep_view().name),
        ensures
            lock_gone(
                self.runner,
                repository.deep_view(),
                expected.deep_view(),
                lock_view(r),
            ),
    {
        let read = self.read_stack_branch_lock(repository, expected.id);
        assert(lock_read(
            self.runner,
            repository.deep_view(),
            expected.deep_view().id,
            lock_view(read),
        ));
        match read {
            Ok(None) => self.find_stack_branch_lock(repository, &expected.name),
            other => other,
        }
    }
}

} // verus!
