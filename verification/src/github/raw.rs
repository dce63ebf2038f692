//! The documents that the provider returns, and what they become.

use vstd::prelude::*;
use vstd::string::*;
use crate::github::provider::{DiscoveryError, DiscoveryErrorView};
use crate::json;
use crate::json::{read_list_member, read_member, read_member_or, Decode, Json};
use crate::model;
use crate::model::{
    push_item, AutoMergeState, AutoMergeStateView, BranchSnapshot, BranchSnapshotView,
    CheckSnapshot, CheckSnapshotView, CheckState, CommitOid, LabelSet, MergeMethod, Model, PrNumber,
    PullRequestGenerationFact, PullRequestGenerationFactView, PullRequestSnapshot,
    PullRequestSnapshotView, PullRequestState, RepositoryId, RepositoryIdView,
};
use crate::text;
use crate::text::{split_once, text_contains, text_eq};

verus! {

/// A named branch.
#[derive(Debug, PartialEq, Eq)]
pub struct NamedRefJson {
    pub name: String,
}

/// The content of a [`NamedRefJson`].
#[verifier::ext_equal]
pub struct NamedRefJsonView {
    pub name: Seq<char>,
}

impl DeepView for NamedRefJson {
    type V = NamedRefJsonView;

    open spec fn deep_view(&self) -> NamedRefJsonView {
        NamedRefJsonView {
            name: self.name.deep_view(),
        }
    }
}

impl Clone for NamedRefJson {
    fn clone(&self) -> (r: Self)
        ensures
            r.deep_view() == self.deep_view(),
    {
        self.dup()
    }
}

impl Model for NamedRefJson {
    fn same(&self, other: &Self) -> (r: bool) {
        self.name.same(&other.name)
    }

    fn dup(&self) -> (r: Self) {
        NamedRefJson {
            name: self.name.dup(),
        }
    }
}

impl Decode for NamedRefJson {
    open spec fn decoded(tree: Json) -> Option<NamedRefJsonView> {
        let name = json::member::<String>(tree, "name"@);
        if tree.is_object() && name is Some {
            Some(NamedRefJsonView { name: name->0 })
        } else {
            None
        }
    }

    fn decode(value: &serde_json::Value) -> (r: Option<Self>) {
        if !value.is_object() {
            return None;
        }
        let name = read_member::<String>(value, "name")?;
        Some(NamedRefJson { name })
    }
}

/// A repository with its default branch.
#[derive(Debug, PartialEq, Eq)]
pub struct RepositoryJson {
    pub name_with_owner: String,
    pub default_branch_ref: Option<NamedRefJson>,
}

/// The content of a [`RepositoryJson`].
#[verifier::ext_equal]
pub struct RepositoryJsonView {
    pub name_with_owner: Seq<char>,
    pub default_branch_ref: Option<NamedRefJsonView>,
}

impl DeepView for RepositoryJson {
    type V = RepositoryJsonView;

    open spec fn deep_view(&self) -> RepositoryJsonView {
        RepositoryJsonView {
            name_with_owner: self.name_with_owner.deep_view(),
            default_branch_ref: self.default_branch_ref.deep_view(),
        }
    }
}

impl Clone for RepositoryJson {
    fn clone(&self) -> (r: Self)
        ensures
            r.deep_view() == self.deep_view(),
    {
        self.dup()
    }
}

impl Model for RepositoryJson {
    fn same(&self, other: &Self) -> (r: bool) {
        self.name_with_owner.same(&other.name_with_owner)
            && self.default_branch_ref.same(&other.default_branch_ref)
    }

    fn dup(&self) -> (r: Self) {
        RepositoryJson {
            name_with_owner: self.name_with_owner.dup(),
            default_branch_ref: self.default_branch_ref.dup(),
        }
    }
}

impl Decode for RepositoryJson {
    open spec fn decoded(tree: Json) -> Option<RepositoryJsonView> {
        let name_with_owner = json::member::<String>(tree, "nameWithOwner"@);
        let default_branch_ref = json::member::<Option<NamedRefJson>>(tree, "defaultBranchRef"@);
        if tree.is_object() && name_with_owner is Some && default_branch_ref is Some {
            Some(RepositoryJsonView {
                name_with_owner: name_with_owner->0,
                default_branch_ref: default_branch_ref->0,
            })
        } else {
            None
        }
    }

    fn decode(value: &serde_json::Value) -> (r: Option<Self>) {
        if !value.is_object() {
            return None;
        }
        let name_with_owner = read_member::<String>(value, "nameWithOwner")?;
        let default_branch_ref = read_member::<Option<NamedRefJson>>(value, "defaultBranchRef")?;
        Some(RepositoryJson { name_with_owner, default_branch_ref })
    }
}

/// A Git object.
#[derive(Debug, PartialEq, Eq)]
pub struct GitObjectJson {
    pub sha: String,
}

/// The content of a [`GitObjectJson`].
#[verifier::ext_equal]
pub struct GitObjectJsonView {
    pub sha: Seq<char>,
}

impl DeepView for GitObjectJson {
    type V = GitObjectJsonView;

    open spec fn deep_view(&self) -> GitObjectJsonView {
        GitObjectJsonView {
            sha: self.sha.deep_view(),
        }
    }
}

impl Clone for GitObjectJson {
    fn clone(&self) -> (r: Self)
        ensures
            r.deep_view() == self.deep_view(),
    {
        self.dup()
    }
}

impl Model for GitObjectJson {
    fn same(&self, other: &Self) -> (r: bool) {
        self.sha.same(&other.sha)
    }

    fn dup(&self) -> (r: Self) {
        GitObjectJson {
            sha: self.sha.dup(),
        }
    }
}

impl Decode for GitObjectJson {
    open spec fn decoded(tree: Json) -> Option<GitObjectJsonView> {
        let sha = json::member::<String>(tree, "sha"@);
        if tree.is_object() && sha is Some {
            Some(GitObjectJsonView { sha: sha->0 })
        } else {
            None
        }
    }

    fn decode(value: &serde_json::Value) -> (r: Option<Self>) {
        if !value.is_object() {
            return None;
        }
        let sha = read_member::<String>(value, "sha")?;
        Some(GitObjectJson { sha })
    }
}

/// A Git reference.
#[derive(Debug, PartialEq, Eq)]
pub struct GitRefJson {
    pub object: GitObjectJson,
}

/// The content of a [`GitRefJson`].
#[verifier::ext_equal]
pub struct GitRefJsonView {
    pub object: GitObjectJsonView,
}

impl DeepView for GitRefJson {
    type V = GitRefJsonView;

    open spec fn deep_view(&self) -> GitRefJsonView {
        GitRefJsonView {
            object: self.object.deep_view(),
        }
    }
}

impl Clone for GitRefJson {
    fn clone(&self) -> (r: Self)
        ensures
            r.deep_view() == self.deep_view(),
    {
        self.dup()
    }
}

impl Model for GitRefJson {
    fn same(&self, other: &Self) -> (r: bool) {
        self.object.same(&other.object)
    }

    fn dup(&self) -> (r: Self) {
        GitRefJson {
            object: self.object.dup(),
        }
    }
}

impl Decode for GitRefJson {
    open spec fn decoded(tree: Json) -> Option<GitRefJsonView> {
        let object = json::member::<GitObjectJson>(tree, "object"@);
        if tree.is_object() && object is Some {
            Some(GitRefJsonView { object: object->0 })
        } else {
            None
        }
    }

    fn decode(value: &serde_json::Value) -> (r: Option<Self>) {
        if !value.is_object() {
            return None;
        }
        let object = read_member::<GitObjectJson>(value, "object")?;
        Some(GitRefJson { object })
    }
}

/// The settings of a branch.
#[derive(Debug, PartialEq, Eq)]
pub struct BranchSettingsJson {
    pub protected: bool,
}

/// The content of a [`BranchSettingsJson`].
#[verifier::ext_equal]
pub struct BranchSettingsJsonView {
    pub protected: bool,
}

impl DeepView for BranchSettingsJson {
    type V = BranchSettingsJsonView;

    open spec fn deep_view(&self) -> BranchSettingsJsonView {
        BranchSettingsJsonView {
            protected: self.protected.deep_view(),
        }
    }
}

impl Clone for BranchSettingsJson {
    fn clone(&self) -> (r: Self)
        ensures
            r.deep_view() == self.deep_view(),
    {
        self.dup()
    }
}

impl Model for BranchSettingsJson {
    fn same(&self, other: &Self) -> (r: bool) {
        self.protected.same(&other.protected)
    }

    fn dup(&self) -> (r: Self) {
        BranchSettingsJson {
            protected: self.protected.dup(),
        }
    }
}

impl Decode for BranchSettingsJson {
    open spec fn decoded(tree: Json) -> Option<BranchSettingsJsonView> {
        let protected = json::member::<bool>(tree, "protected"@);
        if tree.is_object() && protected is Some {
            Some(BranchSettingsJsonView { protected: protected->0 })
        } else {
            None
        }
    }

    fn decode(value: &serde_json::Value) -> (r: Option<Self>) {
        if !value.is_object() {
            return None;
        }
        let protected = read_member::<bool>(value, "protected")?;
        Some(BranchSettingsJson { protected })
    }
}

/// A required check, bound to an app or to none.
#[derive(Debug, PartialEq, Eq)]
pub struct RequiredCheckJson {
    pub context: String,
    pub app_id: Option<i64>,
}

/// The content of a [`RequiredCheckJson`].
#[verifier::ext_equal]
pub struct RequiredCheckJsonView {
    pub context: Seq<char>,
    pub app_id: Option<i64>,
}

impl DeepView for RequiredCheckJson {
    type V = RequiredCheckJsonView;

    open spec fn deep_view(&self) -> RequiredCheckJsonView {
        RequiredCheckJsonView {
            context: self.context.deep_view(),
            app_id: self.app_id.deep_view(),
        }
    }
}

impl Clone for RequiredCheckJson {
    fn clone(&self) -> (r: Self)
        ensures
            r.deep_view() == self.deep_view(),
    {
        self.dup()
    }
}

impl Model for RequiredCheckJson {
    fn same(&self, other: &Self) -> (r: bool) {
        self.context.same(&other.context)
            && self.app_id.same(&other.app_id)
    }

    fn dup(&self) -> (r: Self) {
        RequiredCheckJson {
            context: self.context.dup(),
            app_id: self.app_id.dup(),
        }
    }
}

impl Decode for RequiredCheckJson {
    open spec fn decoded(tree: Json) -> Option<RequiredCheckJsonView> {
        let context = json::member::<String>(tree, "context"@);
        let app_id = json::member::<Option<i64>>(tree, "app_id"@);
        if tree.is_object() && context is Some && app_id is Some {
            Some(RequiredCheckJsonView { context: context->0, app_id: app_id->0 })
        } else {
            None
        }
    }

    fn decode(value: &serde_json::Value) -> (r: Option<Self>) {
        if !value.is_object() {
            return None;
        }
        let context = read_member::<String>(value, "context")?;
        let app_id = read_member::<Option<i64>>(value, "app_id")?;
        Some(RequiredCheckJson { context, app_id })
    }
}

/// The required checks of a protected branch.
#[derive(Debug, PartialEq, Eq)]
pub struct RequiredStatusChecksJson {
    pub contexts: Vec<String>,
    pub checks: Vec<RequiredCheckJson>,
    pub strict: bool,
}

/// The content of a [`RequiredStatusChecksJson`].
#[verifier::ext_equal]
pub struct RequiredStatusChecksJsonView {
    pub contexts: Seq<Seq<char>>,
    pub checks: Seq<RequiredCheckJsonView>,
    pub strict: bool,
}

impl DeepView for RequiredStatusChecksJson {
    type V = RequiredStatusChecksJsonView;

    open spec fn deep_view(&self) -> RequiredStatusChecksJsonView {
        RequiredStatusChecksJsonView {
            contexts: self.contexts.deep_view(),
            checks: self.checks.deep_view(),
            strict: self.strict.deep_view(),
        }
    }
}

impl Clone for RequiredStatusChecksJson {
    fn clone(&self) -> (r: Self)
        ensures
            r.deep_view() == self.deep_view(),
    {
        self.dup()
    }
}

impl Model for RequiredStatusChecksJson {
    fn same(&self, other: &Self) -> (r: bool) {
        self.contexts.same(&other.contexts)
            && self.checks.same(&other.checks)
            && self.strict.same(&other.strict)
    }

    fn dup(&self) -> (r: Self) {
        RequiredStatusChecksJson {
            contexts: self.contexts.dup(),
            checks: self.checks.dup(),
            strict: self.strict.dup(),
        }
    }
}

impl Decode for RequiredStatusChecksJson {
    open spec fn decoded(tree: Json) -> Option<RequiredStatusChecksJsonView> {
        let contexts = json::member_or::<Vec<String>>(tree, "contexts"@, Seq::empty());
        let checks = json::member_or::<Vec<RequiredCheckJson>>(tree, "checks"@, Seq::empty());
        let strict = json::member::<bool>(tree, "strict"@);
        if tree.is_object() && contexts is Some && checks is Some && strict is Some {
            Some(RequiredStatusChecksJsonView {
                contexts: contexts->0,
                checks: checks->0,
                strict: strict->0,
            })
        } else {
            None
        }
    }

    fn decode(value: &serde_json::Value) -> (r: Option<Self>) {
        if !value.is_object() {
            return None;
        }
        let none: Vec<String> = Vec::new();
        assert(none.deep_view() =~= Seq::empty());
        let contexts = read_member_or::<Vec<String>>(value, "contexts", none)?;
        let none: Vec<RequiredCheckJson> = Vec::new();
        assert(none.deep_view() =~= Seq::empty());
        let checks = read_member_or::<Vec<RequiredCheckJson>>(value, "checks", none)?;
        let strict = read_member::<bool>(value, "strict")?;
        Some(RequiredStatusChecksJson { contexts, checks, strict })
    }
}

/// The required reviews of a protected branch.
#[derive(Debug, PartialEq, Eq)]
pub struct RequiredPullRequestReviewsJson {
    pub required_approving_review_count: u64,
}

/// The content of a [`RequiredPullRequestReviewsJson`].
#[verifier::ext_equal]
pub struct RequiredPullRequestReviewsJsonView {
    pub required_approving_review_count: u64,
}

impl DeepView for RequiredPullRequestReviewsJson {
    type V = RequiredPullRequestReviewsJsonView;

    open spec fn deep_view(&self) -> RequiredPullRequestReviewsJsonView {
        RequiredPullRequestReviewsJsonView {
            required_approving_review_count: self.required_approving_review_count.deep_view(),
        }
    }
}

impl Clone for RequiredPullRequestReviewsJson {
    fn clone(&self) -> (r: Self)
        ensures
            r.deep_view() == self.deep_view(),
    {
        self.dup()
    }
}

impl Model for RequiredPullRequestReviewsJson {
    fn same(&self, other: &Self) -> (r: bool) {
        self.required_approving_review_count.same(&other.required_approving_review_count)
    }

    fn dup(&self) -> (r: Self) {
        RequiredPullRequestReviewsJson {
            required_approving_review_count: self.required_approving_review_count.dup(),
        }
    }
}

impl Decode for RequiredPullRequestReviewsJson {
    open spec fn decoded(tree: Json) -> Option<RequiredPullRequestReviewsJsonView> {
        let required_approving_review_count = json::member::<u64>(
            tree,
            "required_approving_review_count"@,
        );
        if tree.is_object() && required_approving_review_count is Some {
            Some(RequiredPullRequestReviewsJsonView {
                required_approving_review_count: required_approving_review_count->0,
            })
        } else {
            None
        }
    }

    fn decode(value: &serde_json::Value) -> (r: Option<Self>) {
        if !value.is_object() {
            return None;
        }
        let required_approving_review_count = read_member::<u64>(
            value,
            "required_approving_review_count",
        )?;
        Some(RequiredPullRequestReviewsJson { required_approving_review_count })
    }
}

/// The protection of a branch.
#[derive(Debug, PartialEq, Eq)]
pub struct BranchProtectionJson {
    pub required_status_checks: Option<RequiredStatusChecksJson>,
    pub required_pull_request_reviews: Option<RequiredPullRequestReviewsJson>,
}

/// The content of a [`BranchProtectionJson`].
#[verifier::ext_equal]
pub struct BranchProtectionJsonView {
    pub required_status_checks: Option<RequiredStatusChecksJsonView>,
    pub required_pull_request_reviews: Option<RequiredPullRequestReviewsJsonView>,
}

impl DeepView for BranchProtectionJson {
    type V = BranchProtectionJsonView;

    open spec fn deep_view(&self) -> BranchProtectionJsonView {
        BranchProtectionJsonView {
            required_status_checks: self.required_status_checks.deep_view(),
            required_pull_request_reviews: self.required_pull_request_reviews.deep_view(),
        }
    }
}

impl Clone for BranchProtectionJson {
    fn clone(&self) -> (r: Self)
        ensures
            r.deep_view() == self.deep_view(),
    {
        self.dup()
    }
}

impl Model for BranchProtectionJson {
    fn same(&self, other: &Self) -> (r: bool) {
        self.required_status_checks.same(&other.required_status_checks)
            && self.required_pull_request_reviews.same(&other.required_pull_request_reviews)
    }

    fn dup(&self) -> (r: Self) {
        BranchProtectionJson {
            required_status_checks: self.required_status_checks.dup(),
            required_pull_request_reviews: self.required_pull_request_reviews.dup(),
        }
    }
}

impl Decode for BranchProtectionJson {
    open spec fn decoded(tree: Json) -> Option<BranchProtectionJsonView> {
        let required_status_checks = json::member::<Option<RequiredStatusChecksJson>>(
            tree,
            "required_status_checks"@,
        );
        let required_pull_request_reviews = json::member::<Option<RequiredPullRequestReviewsJson>>(
            tree,
            "required_pull_request_reviews"@,
        );
        if tree.is_object() && required_status_checks is Some
            && required_pull_request_reviews is Some {
            Some(BranchProtectionJsonView {
                required_status_checks: required_status_checks->0,
                required_pull_request_reviews: required_pull_request_reviews->0,
            })
        } else {
            None
        }
    }

    fn decode(value: &serde_json::Value) -> (r: Option<Self>) {
        if !value.is_object() {
            return None;
        }
        let required_status_checks = read_member::<Option<RequiredStatusChecksJson>>(
            value,
            "required_status_checks",
        )?;
        let required_pull_request_reviews = read_member::<Option<RequiredPullRequestReviewsJson>>(
            value,
            "required_pull_request_reviews",
        )?;
        Some(BranchProtectionJson { required_status_checks, required_pull_request_reviews })
    }
}

/// The merge settings of a repository.
#[derive(Debug, PartialEq, Eq)]
pub struct RepositorySettingsJson {
    pub allow_auto_merge: bool,
    pub allow_squash_merge: bool,
}

/// The content of a [`RepositorySettingsJson`].
#[verifier::ext_equal]
pub struct RepositorySettingsJsonView {
    pub allow_auto_merge: bool,
    pub allow_squash_merge: bool,
}

impl DeepView for RepositorySettingsJson {
    type V = RepositorySettingsJsonView;

    open spec fn deep_view(&self) -> RepositorySettingsJsonView {
        RepositorySettingsJsonView {
            allow_auto_merge: self.allow_auto_merge.deep_view(),
            allow_squash_merge: self.allow_squash_merge.deep_view(),
        }
    }
}

impl Clone for RepositorySettingsJson {
    fn clone(&self) -> (r: Self)
        ensures
            r.deep_view() == self.deep_view(),
    {
        self.dup()
    }
}

impl Model for RepositorySettingsJson {
    fn same(&self, other: &Self) -> (r: bool) {
        self.allow_auto_merge.same(&other.allow_auto_merge)
            && self.allow_squash_merge.same(&other.allow_squash_merge)
    }

    fn dup(&self) -> (r: Self) {
        RepositorySettingsJson {
            allow_auto_merge: self.allow_auto_merge.dup(),
            allow_squash_merge: self.allow_squash_merge.dup(),
        }
    }
}

impl Decode for RepositorySettingsJson {
    open spec fn decoded(tree: Json) -> Option<RepositorySettingsJsonView> {
        let allow_auto_merge = json::member::<bool>(tree, "allow_auto_merge"@);
        let allow_squash_merge = json::member::<bool>(tree, "allow_squash_merge"@);
        if tree.is_object() && allow_auto_merge is Some && allow_squash_merge is Some {
            Some(RepositorySettingsJsonView {
                allow_auto_merge: allow_auto_merge->0,
                allow_squash_merge: allow_squash_merge->0,
            })
        } else {
            None
        }
    }

    fn decode(value: &serde_json::Value) -> (r: Option<Self>) {
        if !value.is_object() {
            return None;
        }
        let allow_auto_merge = read_member::<bool>(value, "allow_auto_merge")?;
        let allow_squash_merge = read_member::<bool>(value, "allow_squash_merge")?;
        Some(RepositorySettingsJson { allow_auto_merge, allow_squash_merge })
    }
}

/// An object name.
#[derive(Debug, PartialEq, Eq)]
pub struct OidJson {
    pub oid: String,
}

/// The content of a [`OidJson`].
#[verifier::ext_equal]
pub struct OidJsonView {
    pub oid: Seq<char>,
}

impl DeepView for OidJson {
    type V = OidJsonView;

    open spec fn deep_view(&self) -> OidJsonView {
        OidJsonView {
            oid: self.oid.deep_view(),
        }
    }
}

impl Clone for OidJson {
    fn clone(&self) -> (r: Self)
        ensures
            r.deep_view() == self.deep_view(),
    {
        self.dup()
    }
}

impl Model for OidJson {
    fn same(&self, other: &Self) -> (r: bool) {
        self.oid.same(&other.oid)
    }

    fn dup(&self) -> (r: Self) {
        OidJson {
            oid: self.oid.dup(),
        }
    }
}

impl Decode for OidJson {
    open spec fn decoded(tree: Json) -> Option<OidJsonView> {
        let oid = json::member::<String>(tree, "oid"@);
        if tree.is_object() && oid is Some {
            Some(OidJsonView { oid: oid->0 })
        } else {
            None
        }
    }

    fn decode(value: &serde_json::Value) -> (r: Option<Self>) {
        if !value.is_object() {
            return None;
        }
        let oid = read_member::<String>(value, "oid")?;
        Some(OidJson { oid })
    }
}

/// The merge commit of a pull request.
#[derive(Debug, PartialEq, Eq)]
pub struct MergeCommitJson {
    pub merge_commit: Option<OidJson>,
}

/// The content of a [`MergeCommitJson`].
#[verifier::ext_equal]
pub struct MergeCommitJsonView {
    pub merge_commit: Option<OidJsonView>,
}

impl DeepView for MergeCommitJson {
    type V = MergeCommitJsonView;

    open spec fn deep_view(&self) -> MergeCommitJsonView {
        MergeCommitJsonView {
            merge_commit: self.merge_commit.deep_view(),
        }
    }
}

impl Clone for MergeCommitJson {
    fn clone(&self) -> (r: Self)
        ensures
            r.deep_view() == self.deep_view(),
    {
        self.dup()
    }
}

impl Model for MergeCommitJson {
    fn same(&self, other: &Self) -> (r: bool) {
        self.merge_commit.same(&other.merge_commit)
    }

    fn dup(&self) -> (r: Self) {
        MergeCommitJson {
            merge_commit: self.merge_commit.dup(),
        }
    }
}

impl Decode for MergeCommitJson {
    open spec fn decoded(tree: Json) -> Option<MergeCommitJsonView> {
        let merge_commit = json::member::<Option<OidJson>>(tree, "mergeCommit"@);
        if tree.is_object() && merge_commit is Some {
            Some(MergeCommitJsonView { merge_commit: merge_commit->0 })
        } else {
            None
        }
    }

    fn decode(value: &serde_json::Value) -> (r: Option<Self>) {
        if !value.is_object() {
            return None;
        }
        let merge_commit = read_member::<Option<OidJson>>(value, "mergeCommit")?;
        Some(MergeCommitJson { merge_commit })
    }
}

/// The permission of the actor.
#[derive(Debug, PartialEq, Eq)]
pub struct RepositoryPermissionJson {
    pub viewer_permission: String,
}

/// The content of a [`RepositoryPermissionJson`].
#[verifier::ext_equal]
pub struct RepositoryPermissionJsonView {
    pub viewer_permission: Seq<char>,
}

impl DeepView for RepositoryPermissionJson {
    type V = RepositoryPermissionJsonView;

    open spec fn deep_view(&self) -> RepositoryPermissionJsonView {
        RepositoryPermissionJsonView {
            viewer_permission: self.viewer_permission.deep_view(),
        }
    }
}

impl Clone for RepositoryPermissionJson {
    fn clone(&self) -> (r: Self)
        ensures
            r.deep_view() == self.deep_view(),
    {
        self.dup()
    }
}

impl Model for RepositoryPermissionJson {
    fn same(&self, other: &Self) -> (r: bool) {
        self.viewer_permission.same(&other.viewer_permission)
    }

    fn dup(&self) -> (r: Self) {
        RepositoryPermissionJson {
            viewer_permission: self.viewer_permission.dup(),
        }
    }
}

impl Decode for RepositoryPermissionJson {
    open spec fn decoded(tree: Json) -> Option<RepositoryPermissionJsonView> {
        let viewer_permission = json::member::<String>(tree, "viewerPermission"@);
        if tree.is_object() && viewer_permission is Some {
            Some(RepositoryPermissionJsonView { viewer_permission: viewer_permission->0 })
        } else {
            None
        }
    }

    fn decode(value: &serde_json::Value) -> (r: Option<Self>) {
        if !value.is_object() {
            return None;
        }
        let viewer_permission = read_member::<String>(value, "viewerPermission")?;
        Some(RepositoryPermissionJson { viewer_permission })
    }
}

/// One rate limit.
#[derive(Debug, PartialEq, Eq)]
pub struct RateLimitResourceJson {
    pub limit: u64,
    pub used: u64,
    pub remaining: u64,
    pub reset: u64,
}

/// The content of a [`RateLimitResourceJson`].
#[verifier::ext_equal]
pub struct RateLimitResourceJsonView {
    pub limit: u64,
    pub used: u64,
    pub remaining: u64,
    pub reset: u64,
}

impl DeepView for RateLimitResourceJson {
    type V = RateLimitResourceJsonView;

    open spec fn deep_view(&self) -> RateLimitResourceJsonView {
        RateLimitResourceJsonView {
            limit: self.limit.deep_view(),
            used: self.used.deep_view(),
            remaining: self.remaining.deep_view(),
            reset: self.reset.deep_view(),
        }
    }
}

impl Clone for RateLimitResourceJson {
    fn clone(&self) -> (r: Self)
        ensures
            r.deep_view() == self.deep_view(),
    {
        self.dup()
    }
}

impl Model for RateLimitResourceJson {
    fn same(&self, other: &Self) -> (r: bool) {
        self.limit.same(&other.limit)
            && self.used.same(&other.used)
            && self.remaining.same(&other.remaining)
            && self.reset.same(&other.reset)
    }

    fn dup(&self) -> (r: Self) {
        RateLimitResourceJson {
            limit: self.limit.dup(),
            used: self.used.dup(),
            remaining: self.remaining.dup(),
            reset: self.reset.dup(),
        }
    }
}

impl Decode for RateLimitResourceJson {
    open spec fn decoded(tree: Json) -> Option<RateLimitResourceJsonView> {
        let limit = json::member::<u64>(tree, "limit"@);
        let used = json::member::<u64>(tree, "used"@);
        let remaining = json::member::<u64>(tree, "remaining"@);
        let reset = json::member::<u64>(tree, "reset"@);
        if tree.is_object() && limit is Some && used is Some && remaining is Some && reset is Some {
            Some(RateLimitResourceJsonView {
                limit: limit->0,
                used: used->0,
                remaining: remaining->0,
                reset: reset->0,
            })
        } else {
            None
        }
    }

    fn decode(value: &serde_json::Value) -> (r: Option<Self>) {
        if !value.is_object() {
            return None;
        }
        let limit = read_member::<u64>(value, "limit")?;
        let used = read_member::<u64>(value, "used")?;
        let remaining = read_member::<u64>(value, "remaining")?;
        let reset = read_member::<u64>(value, "reset")?;
        Some(RateLimitResourceJson { limit, used, remaining, reset })
    }
}

/// The rate limits of the actor.
#[derive(Debug, PartialEq, Eq)]
pub struct RateLimitResourcesJson {
    pub core: RateLimitResourceJson,
    pub graphql: Option<RateLimitResourceJson>,
}

/// The content of a [`RateLimitResourcesJson`].
#[verifier::ext_equal]
pub struct RateLimitResourcesJsonView {
    pub core: RateLimitResourceJsonView,
    pub graphql: Option<RateLimitResourceJsonView>,
}

impl DeepView for RateLimitResourcesJson {
    type V = RateLimitResourcesJsonView;

    open spec fn deep_view(&self) -> RateLimitResourcesJsonView {
        RateLimitResourcesJsonView {
            core: self.core.deep_view(),
            graphql: self.graphql.deep_view(),
        }
    }
}

impl Clone for RateLimitResourcesJson {
    fn clone(&self) -> (r: Self)
        ensures
            r.deep_view() == self.deep_view(),
    {
        self.dup()
    }
}

impl Model for RateLimitResourcesJson {
    fn same(&self, other: &Self) -> (r: bool) {
        self.core.same(&other.core)
            && self.graphql.same(&other.graphql)
    }

    fn dup(&self) -> (r: Self) {
        RateLimitResourcesJson {
            core: self.core.dup(),
            graphql: self.graphql.dup(),
        }
    }
}

impl Decode for RateLimitResourcesJson {
    open spec fn decoded(tree: Json) -> Option<RateLimitResourcesJsonView> {
        let core = json::member::<RateLimitResourceJson>(tree, "core"@);
        let graphql = json::member::<Option<RateLimitResourceJson>>(tree, "graphql"@);
        if tree.is_object() && core is Some && graphql is Some {
            Some(RateLimitResourcesJsonView { core: core->0, graphql: graphql->0 })
        } else {
            None
        }
    }

    fn decode(value: &serde_json::Value) -> (r: Option<Self>) {
        if !value.is_object() {
            return None;
        }
        let core = read_member::<RateLimitResourceJson>(value, "core")?;
        let graphql = read_member::<Option<RateLimitResourceJson>>(value, "graphql")?;
        Some(RateLimitResourcesJson { core, graphql })
    }
}

/// The answer to a rate limit read.
#[derive(Debug, PartialEq, Eq)]
pub struct RateLimitResponseJson {
    pub resources: RateLimitResourcesJson,
}

/// The content of a [`RateLimitResponseJson`].
#[verifier::ext_equal]
pub struct RateLimitResponseJsonView {
    pub resources: RateLimitResourcesJsonView,
}

impl DeepView for RateLimitResponseJson {
    type V = RateLimitResponseJsonView;

    open spec fn deep_view(&self) -> RateLimitResponseJsonView {
        RateLimitResponseJsonView {
            resources: self.resources.deep_view(),
        }
    }
}

impl Clone for RateLimitResponseJson {
    fn clone(&self) -> (r: Self)
        ensures
            r.deep_view() == self.deep_view(),
    {
        self.dup()
    }
}

impl Model for RateLimitResponseJson {
    fn same(&self, other: &Self) -> (r: bool) {
        self.resources.same(&other.resources)
    }

    fn dup(&self) -> (r: Self) {
        RateLimitResponseJson {
            resources: self.resources.dup(),
        }
    }
}

impl Decode for RateLimitResponseJson {
    open spec fn decoded(tree: Json) -> Option<RateLimitResponseJsonView> {
        let resources = json::member::<RateLimitResourcesJson>(tree, "resources"@);
        if tree.is_object() && resources is Some {
            Some(RateLimitResponseJsonView { resources: resources->0 })
        } else {
            None
        }
    }

    fn decode(value: &serde_json::Value) -> (r: Option<Self>) {
        if !value.is_object() {
            return None;
        }
        let resources = read_member::<RateLimitResourcesJson>(value, "resources")?;
        Some(RateLimitResponseJson { resources })
    }
}

/// One row of a workflow run list.
#[derive(Debug, PartialEq, Eq)]
pub struct WorkflowRunJson {
    pub database_id: u64,
    pub head_sha: String,
    pub status: String,
    pub conclusion: String,
    pub event: String,
    pub name: String,
    pub workflow_name: String,
    pub url: String,
}

/// The content of a [`WorkflowRunJson`].
#[verifier::ext_equal]
pub struct WorkflowRunJsonView {
    pub database_id: u64,
    pub head_sha: Seq<char>,
    pub status: Seq<char>,
    pub conclusion: Seq<char>,
    pub event: Seq<char>,
    pub name: Seq<char>,
    pub workflow_name: Seq<char>,
    pub url: Seq<char>,
}

impl DeepView for WorkflowRunJson {
    type V = WorkflowRunJsonView;

    open spec fn deep_view(&self) -> WorkflowRunJsonView {
        WorkflowRunJsonView {
            database_id: self.database_id.deep_view(),
            head_sha: self.head_sha.deep_view(),
            status: self.status.deep_view(),
            conclusion: self.conclusion.deep_view(),
            event: self.event.deep_view(),
            name: self.name.deep_view(),
            workflow_name: self.workflow_name.deep_view(),
            url: self.url.deep_view(),
        }
    }
}

impl Clone for WorkflowRunJson {
    fn clone(&self) -> (r: Self)
        ensures
            r.deep_view() == self.deep_view(),
    {
        self.dup()
    }
}

impl Model for WorkflowRunJson {
    fn same(&self, other: &Self) -> (r: bool) {
        self.database_id.same(&other.database_id)
            && self.head_sha.same(&other.head_sha)
            && self.status.same(&other.status)
            && self.conclusion.same(&other.conclusion)
            && self.event.same(&other.event)
            && self.name.same(&other.name)
            && self.workflow_name.same(&other.workflow_name)
            && self.url.same(&other.url)
    }

    fn dup(&self) -> (r: Self) {
        WorkflowRunJson {
            database_id: self.database_id.dup(),
            head_sha: self.head_sha.dup(),
            status: self.status.dup(),
            conclusion: self.conclusion.dup(),
            event: self.event.dup(),
            name: self.name.dup(),
            workflow_name: self.workflow_name.dup(),
            url: self.url.dup(),
        }
    }
}

impl Decode for WorkflowRunJson {
    open spec fn decoded(tree: Json) -> Option<WorkflowRunJsonView> {
        let database_id = json::member::<u64>(tree, "databaseId"@);
        let head_sha = json::member::<String>(tree, "headSha"@);
        let status = json::member::<String>(tree, "status"@);
        let conclusion = json::member::<String>(tree, "conclusion"@);
        let event = json::member::<String>(tree, "event"@);
        let name = json::member::<String>(tree, "name"@);
        let workflow_name = json::member::<String>(tree, "workflowName"@);
        let url = json::member::<String>(tree, "url"@);
        if tree.is_object() && database_id is Some && head_sha is Some && status is Some
            && conclusion is Some && event is Some && name is Some && workflow_name is Some
            && url is Some {
            Some(WorkflowRunJsonView {
                database_id: database_id->0,
                head_sha: head_sha->0,
                status: status->0,
                conclusion: conclusion->0,
                event: event->0,
                name: name->0,
                workflow_name: workflow_name->0,
                url: url->0,
            })
        } else {
            None
        }
    }

    fn decode(value: &serde_json::Value) -> (r: Option<Self>) {
        if !value.is_object() {
            return None;
        }
        let database_id = read_member::<u64>(value, "databaseId")?;
        let head_sha = read_member::<String>(value, "headSha")?;
        let status = read_member::<String>(value, "status")?;
        let conclusion = read_member::<String>(value, "conclusion")?;
        let event = read_member::<String>(value, "event")?;
        let name = read_member::<String>(value, "name")?;
        let workflow_name = read_member::<String>(value, "workflowName")?;
        let url = read_member::<String>(value, "url")?;
        Some(WorkflowRunJson {
            database_id,
            head_sha,
            status,
            conclusion,
            event,
            name,
            workflow_name,
            url,
        })
    }
}

/// A reference to a pull request.
#[derive(Debug, PartialEq, Eq)]
pub struct NumberJson {
    pub number: u64,
}

/// The content of a [`NumberJson`].
#[verifier::ext_equal]
pub struct NumberJsonView {
    pub number: u64,
}

impl DeepView for NumberJson {
    type V = NumberJsonView;

    open spec fn deep_view(&self) -> NumberJsonView {
        NumberJsonView {
            number: self.number.deep_view(),
        }
    }
}

impl Clone for NumberJson {
    fn clone(&self) -> (r: Self)
        ensures
            r.deep_view() == self.deep_view(),
    {
        self.dup()
    }
}

impl Model for NumberJson {
    fn same(&self, other: &Self) -> (r: bool) {
        self.number.same(&other.number)
    }

    fn dup(&self) -> (r: Self) {
        NumberJson {
            number: self.number.dup(),
        }
    }
}

impl Decode for NumberJson {
    open spec fn decoded(tree: Json) -> Option<NumberJsonView> {
        let number = json::member::<u64>(tree, "number"@);
        if tree.is_object() && number is Some {
            Some(NumberJsonView { number: number->0 })
        } else {
            None
        }
    }

    fn decode(value: &serde_json::Value) -> (r: Option<Self>) {
        if !value.is_object() {
            return None;
        }
        let number = read_member::<u64>(value, "number")?;
        Some(NumberJson { number })
    }
}

/// One workflow run.
#[derive(Debug, PartialEq, Eq)]
pub struct WorkflowRunDetailsJson {
    pub id: u64,
    pub head_sha: String,
    pub status: String,
    pub conclusion: Option<String>,
    pub event: String,
    pub name: String,
    pub html_url: String,
    pub pull_requests: Vec<NumberJson>,
}

/// The content of a [`WorkflowRunDetailsJson`].
#[verifier::ext_equal]
pub struct WorkflowRunDetailsJsonView {
    pub id: u64,
    pub head_sha: Seq<char>,
    pub status: Seq<char>,
    pub conclusion: Option<Seq<char>>,
    pub event: Seq<char>,
    pub name: Seq<char>,
    pub html_url: Seq<char>,
    pub pull_requests: Seq<NumberJsonView>,
}

impl DeepView for WorkflowRunDetailsJson {
    type V = WorkflowRunDetailsJsonView;

    open spec fn deep_view(&self) -> WorkflowRunDetailsJsonView {
        WorkflowRunDetailsJsonView {
            id: self.id.deep_view(),
            head_sha: self.head_sha.deep_view(),
            status: self.status.deep_view(),
            conclusion: self.conclusion.deep_view(),
            event: self.event.deep_view(),
            name: self.name.deep_view(),
            html_url: self.html_url.deep_view(),
            pull_requests: self.pull_requests.deep_view(),
        }
    }
}

impl Clone for WorkflowRunDetailsJson {
    fn clone(&self) -> (r: Self)
        ensures
            r.deep_view() == self.deep_view(),
    {
        self.dup()
    }
}

impl Model for WorkflowRunDetailsJson {
    fn same(&self, other: &Self) -> (r: bool) {
        self.id.same(&other.id)
            && self.head_sha.same(&other.head_sha)
            && self.status.same(&other.status)
            && self.conclusion.same(&other.conclusion)
            && self.event.same(&other.event)
            && self.name.same(&other.name)
            && self.html_url.same(&other.html_url)
            && self.pull_requests.same(&other.pull_requests)
    }

    fn dup(&self) -> (r: Self) {
        WorkflowRunDetailsJson {
            id: self.id.dup(),
            head_sha: self.head_sha.dup(),
            status: self.status.dup(),
            conclusion: self.conclusion.dup(),
            event: self.event.dup(),
            name: self.name.dup(),
            html_url: self.html_url.dup(),
            pull_requests: self.pull_requests.dup(),
        }
    }
}

impl Decode for WorkflowRunDetailsJson {
    open spec fn decoded(tree: Json) -> Option<WorkflowRunDetailsJsonView> {
        let id = json::member::<u64>(tree, "id"@);
        let head_sha = json::member::<String>(tree, "head_sha"@);
        let status = json::member::<String>(tree, "status"@);
        let conclusion = json::member::<Option<String>>(tree, "conclusion"@);
        let event = json::member::<String>(tree, "event"@);
        let name = json::member::<String>(tree, "name"@);
        let html_url = json::member::<String>(tree, "html_url"@);
        let pull_requests = json::member_or::<Vec<NumberJson>>(
            tree,
            "pull_requests"@,
            Seq::empty(),
        );
        if tree.is_object() && id is Some && head_sha is Some && status is Some
            && conclusion is Some && event is Some && name is Some && html_url is Some
            && pull_requests is Some {
            Some(WorkflowRunDetailsJsonView {
                id: id->0,
                head_sha: head_sha->0,
                status: status->0,
                conclusion: conclusion->0,
                event: event->0,
                name: name->0,
                html_url: html_url->0,
                pull_requests: pull_requests->0,
            })
        } else {
            None
        }
    }

    fn decode(value: &serde_json::Value) -> (r: Option<Self>) {
        if !value.is_object() {
            return None;
        }
        let id = read_member::<u64>(value, "id")?;
        let head_sha = read_member::<String>(value, "head_sha")?;
        let status = read_member::<String>(value, "status")?;
        let conclusion = read_member::<Option<String>>(value, "conclusion")?;
        let event = read_member::<String>(value, "event")?;
        let name = read_member::<String>(value, "name")?;
        let html_url = read_member::<String>(value, "html_url")?;
        let none: Vec<NumberJson> = Vec::new();
        assert(none.deep_view() =~= Seq::empty());
        let pull_requests = read_member_or::<Vec<NumberJson>>(value, "pull_requests", none)?;
        Some(WorkflowRunDetailsJson {
            id,
            head_sha,
            status,
            conclusion,
            event,
            name,
            html_url,
            pull_requests,
        })
    }
}

/// The relation of two commits.
#[derive(Debug, PartialEq, Eq)]
pub struct CommitComparisonJson {
    pub status: String,
}

/// The content of a [`CommitComparisonJson`].
#[verifier::ext_equal]
pub struct CommitComparisonJsonView {
    pub status: Seq<char>,
}

impl DeepView for CommitComparisonJson {
    type V = CommitComparisonJsonView;

    open spec fn deep_view(&self) -> CommitComparisonJsonView {
        CommitComparisonJsonView {
            status: self.status.deep_view(),
        }
    }
}

impl Clone for CommitComparisonJson {
    fn clone(&self) -> (r: Self)
        ensures
            r.deep_view() == self.deep_view(),
    {
        self.dup()
    }
}

impl Model for CommitComparisonJson {
    fn same(&self, other: &Self) -> (r: bool) {
        self.status.same(&other.status)
    }

    fn dup(&self) -> (r: Self) {
        CommitComparisonJson {
            status: self.status.dup(),
        }
    }
}

impl Decode for CommitComparisonJson {
    open spec fn decoded(tree: Json) -> Option<CommitComparisonJsonView> {
        let status = json::member::<String>(tree, "status"@);
        if tree.is_object() && status is Some {
            Some(CommitComparisonJsonView { status: status->0 })
        } else {
            None
        }
    }

    fn decode(value: &serde_json::Value) -> (r: Option<Self>) {
        if !value.is_object() {
            return None;
        }
        let status = read_member::<String>(value, "status")?;
        Some(CommitComparisonJson { status })
    }
}

/// The generation facts of a pull request.
#[derive(Debug, PartialEq, Eq)]
pub struct GenerationPullRequestJson {
    pub number: u64,
    pub body: String,
    pub head_ref_name: String,
    pub head_ref_oid: String,
    pub created_at: String,
}

/// The content of a [`GenerationPullRequestJson`].
#[verifier::ext_equal]
pub struct GenerationPullRequestJsonView {
    pub number: u64,
    pub body: Seq<char>,
    pub head_ref_name: Seq<char>,
    pub head_ref_oid: Seq<char>,
    pub created_at: Seq<char>,
}

impl DeepView for GenerationPullRequestJson {
    type V = GenerationPullRequestJsonView;

    open spec fn deep_view(&self) -> GenerationPullRequestJsonView {
        GenerationPullRequestJsonView {
            number: self.number.deep_view(),
            body: self.body.deep_view(),
            head_ref_name: self.head_ref_name.deep_view(),
            head_ref_oid: self.head_ref_oid.deep_view(),
            created_at: self.created_at.deep_view(),
        }
    }
}

impl Clone for GenerationPullRequestJson {
    fn clone(&self) -> (r: Self)
        ensures
            r.deep_view() == self.deep_view(),
    {
        self.dup()
    }
}

impl Model for GenerationPullRequestJson {
    fn same(&self, other: &Self) -> (r: bool) {
        self.number.same(&other.number)
            && self.body.same(&other.body)
            && self.head_ref_name.same(&other.head_ref_name)
            && self.head_ref_oid.same(&other.head_ref_oid)
            && self.created_at.same(&other.created_at)
    }

    fn dup(&self) -> (r: Self) {
        GenerationPullRequestJson {
            number: self.number.dup(),
            body: self.body.dup(),
            head_ref_name: self.head_ref_name.dup(),
            head_ref_oid: self.head_ref_oid.dup(),
            created_at: self.created_at.dup(),
        }
    }
}

impl Decode for GenerationPullRequestJson {
    open spec fn decoded(tree: Json) -> Option<GenerationPullRequestJsonView> {
        let number = json::member::<u64>(tree, "number"@);
        let body = json::member_or::<String>(tree, "body"@, Seq::<char>::empty());
        let head_ref_name = json::member::<String>(tree, "headRefName"@);
        let head_ref_oid = json::member::<String>(tree, "headRefOid"@);
        let created_at = json::member::<String>(tree, "createdAt"@);
        if tree.is_object() && number is Some && body is Some && head_ref_name is Some
            && head_ref_oid is Some && created_at is Some {
            Some(GenerationPullRequestJsonView {
                number: number->0,
                body: body->0,
                head_ref_name: head_ref_name->0,
                head_ref_oid: head_ref_oid->0,
                created_at: created_at->0,
            })
        } else {
            None
        }
    }

    fn decode(value: &serde_json::Value) -> (r: Option<Self>) {
        if !value.is_object() {
            return None;
        }
        let number = read_member::<u64>(value, "number")?;
        let body = read_member_or::<String>(value, "body", String::new())?;
        let head_ref_name = read_member::<String>(value, "headRefName")?;
        let head_ref_oid = read_member::<String>(value, "headRefOid")?;
        let created_at = read_member::<String>(value, "createdAt")?;
        Some(GenerationPullRequestJson { number, body, head_ref_name, head_ref_oid, created_at })
    }
}

/// The app that owns a check suite.
#[derive(Debug, PartialEq, Eq)]
pub struct CheckSuiteAppJson {
    pub slug: String,
}

/// The content of a [`CheckSuiteAppJson`].
#[verifier::ext_equal]
pub struct CheckSuiteAppJsonView {
    pub slug: Seq<char>,
}

impl DeepView for CheckSuiteAppJson {
    type V = CheckSuiteAppJsonView;

    open spec fn deep_view(&self) -> CheckSuiteAppJsonView {
        CheckSuiteAppJsonView {
            slug: self.slug.deep_view(),
        }
    }
}

impl Clone for CheckSuiteAppJson {
    fn clone(&self) -> (r: Self)
        ensures
            r.deep_view() == self.deep_view(),
    {
        self.dup()
    }
}

impl Model for CheckSuiteAppJson {
    fn same(&self, other: &Self) -> (r: bool) {
        self.slug.same(&other.slug)
    }

    fn dup(&self) -> (r: Self) {
        CheckSuiteAppJson {
            slug: self.slug.dup(),
        }
    }
}

impl Decode for CheckSuiteAppJson {
    open spec fn decoded(tree: Json) -> Option<CheckSuiteAppJsonView> {
        let slug = json::member_or::<String>(tree, "slug"@, Seq::<char>::empty());
        if tree.is_object() && slug is Some {
            Some(CheckSuiteAppJsonView { slug: slug->0 })
        } else {
            None
        }
    }

    fn decode(value: &serde_json::Value) -> (r: Option<Self>) {
        if !value.is_object() {
            return None;
        }
        let slug = read_member_or::<String>(value, "slug", String::new())?;
        Some(CheckSuiteAppJson { slug })
    }
}

/// One check suite.
#[derive(Debug, PartialEq, Eq)]
pub struct CheckSuiteJson {
    pub id: u64,
    pub head_sha: String,
    pub status: Option<String>,
    pub conclusion: Option<String>,
    pub app: Option<CheckSuiteAppJson>,
    pub rerequestable: Option<bool>,
}

/// The content of a [`CheckSuiteJson`].
#[verifier::ext_equal]
pub struct CheckSuiteJsonView {
    pub id: u64,
    pub head_sha: Seq<char>,
    pub status: Option<Seq<char>>,
    pub conclusion: Option<Seq<char>>,
    pub app: Option<CheckSuiteAppJsonView>,
    pub rerequestable: Option<bool>,
}

impl DeepView for CheckSuiteJson {
    type V = CheckSuiteJsonView;

    open spec fn deep_view(&self) -> CheckSuiteJsonView {
        CheckSuiteJsonView {
            id: self.id.deep_view(),
            head_sha: self.head_sha.deep_view(),
            status: self.status.deep_view(),
            conclusion: self.conclusion.deep_view(),
            app: self.app.deep_view(),
            rerequestable: self.rerequestable.deep_view(),
        }
    }
}

impl Clone for CheckSuiteJson {
    fn clone(&self) -> (r: Self)
        ensures
            r.deep_view() == self.deep_view(),
    {
        self.dup()
    }
}

impl Model for CheckSuiteJson {
    fn same(&self, other: &Self) -> (r: bool) {
        self.id.same(&other.id)
            && self.head_sha.same(&other.head_sha)
            && self.status.same(&other.status)
            && self.conclusion.same(&other.conclusion)
            && self.app.same(&other.app)
            && self.rerequestable.same(&other.rerequestable)
    }

    fn dup(&self) -> (r: Self) {
        CheckSuiteJson {
            id: self.id.dup(),
            head_sha: self.head_sha.dup(),
            status: self.status.dup(),
            conclusion: self.conclusion.dup(),
            app: self.app.dup(),
            rerequestable: self.rerequestable.dup(),
        }
    }
}

impl Decode for CheckSuiteJson {
    open spec fn decoded(tree: Json) -> Option<CheckSuiteJsonView> {
        let id = json::member::<u64>(tree, "id"@);
        let head_sha = json::member::<String>(tree, "head_sha"@);
        let status = json::member::<Option<String>>(tree, "status"@);
        let conclusion = json::member::<Option<String>>(tree, "conclusion"@);
        let app = json::member::<Option<CheckSuiteAppJson>>(tree, "app"@);
        let rerequestable = json::member::<Option<bool>>(tree, "rerequestable"@);
        if tree.is_object() && id is Some && head_sha is Some && status is Some
            && conclusion is Some && app is Some && rerequestable is Some {
            Some(CheckSuiteJsonView {
                id: id->0,
                head_sha: head_sha->0,
                status: status->0,
                conclusion: conclusion->0,
                app: app->0,
                rerequestable: rerequestable->0,
            })
        } else {
            None
        }
    }

    fn decode(value: &serde_json::Value) -> (r: Option<Self>) {
        if !value.is_object() {
            return None;
        }
        let id = read_member::<u64>(value, "id")?;
        let head_sha = read_member::<String>(value, "head_sha")?;
        let status = read_member::<Option<String>>(value, "status")?;
        let conclusion = read_member::<Option<String>>(value, "conclusion")?;
        let app = read_member::<Option<CheckSuiteAppJson>>(value, "app")?;
        let rerequestable = read_member::<Option<bool>>(value, "rerequestable")?;
        Some(CheckSuiteJson { id, head_sha, status, conclusion, app, rerequestable })
    }
}

/// The check suites of a commit. The total counts those on other pages too.
#[derive(Debug, PartialEq, Eq)]
pub struct CheckSuiteListJson {
    pub total_count: Option<u64>,
    pub check_suites: Vec<CheckSuiteJson>,
}

/// The content of a [`CheckSuiteListJson`].
#[verifier::ext_equal]
pub struct CheckSuiteListJsonView {
    pub total_count: Option<u64>,
    pub check_suites: Seq<CheckSuiteJsonView>,
}

impl DeepView for CheckSuiteListJson {
    type V = CheckSuiteListJsonView;

    open spec fn deep_view(&self) -> CheckSuiteListJsonView {
        CheckSuiteListJsonView {
            total_count: self.total_count.deep_view(),
            check_suites: self.check_suites.deep_view(),
        }
    }
}

impl Clone for CheckSuiteListJson {
    fn clone(&self) -> (r: Self)
        ensures
            r.deep_view() == self.deep_view(),
    {
        self.dup()
    }
}

impl Model for CheckSuiteListJson {
    fn same(&self, other: &Self) -> (r: bool) {
        self.total_count.same(&other.total_count)
            && self.check_suites.same(&other.check_suites)
    }

    fn dup(&self) -> (r: Self) {
        CheckSuiteListJson {
            total_count: self.total_count.dup(),
            check_suites: self.check_suites.dup(),
        }
    }
}

impl Decode for CheckSuiteListJson {
    open spec fn decoded(tree: Json) -> Option<CheckSuiteListJsonView> {
        let total_count = json::member::<Option<u64>>(tree, "total_count"@);
        let check_suites = json::member_or::<Vec<CheckSuiteJson>>(
            tree,
            "check_suites"@,
            Seq::empty(),
        );
        if tree.is_object() && total_count is Some && check_suites is Some {
            Some(CheckSuiteListJsonView {
                total_count: total_count->0,
                check_suites: check_suites->0,
            })
        } else {
            None
        }
    }

    fn decode(value: &serde_json::Value) -> (r: Option<Self>) {
        if !value.is_object() {
            return None;
        }
        let total_count = read_member::<Option<u64>>(value, "total_count")?;
        let none: Vec<CheckSuiteJson> = Vec::new();
        assert(none.deep_view() =~= Seq::empty());
        let check_suites = read_member_or::<Vec<CheckSuiteJson>>(value, "check_suites", none)?;
        Some(CheckSuiteListJson { total_count, check_suites })
    }
}

/// One workflow run of a commit.
#[derive(Debug, PartialEq, Eq)]
pub struct HeadWorkflowRunJson {
    pub id: u64,
    pub check_suite_id: u64,
    pub name: String,
    pub head_sha: String,
    pub status: Option<String>,
    pub conclusion: Option<String>,
    pub event: String,
}

/// The content of a [`HeadWorkflowRunJson`].
#[verifier::ext_equal]
pub struct HeadWorkflowRunJsonView {
    pub id: u64,
    pub check_suite_id: u64,
    pub name: Seq<char>,
    pub head_sha: Seq<char>,
    pub status: Option<Seq<char>>,
    pub conclusion: Option<Seq<char>>,
    pub event: Seq<char>,
}

impl DeepView for HeadWorkflowRunJson {
    type V = HeadWorkflowRunJsonView;

    open spec fn deep_view(&self) -> HeadWorkflowRunJsonView {
        HeadWorkflowRunJsonView {
            id: self.id.deep_view(),
            check_suite_id: self.check_suite_id.deep_view(),
            name: self.name.deep_view(),
            head_sha: self.head_sha.deep_view(),
            status: self.status.deep_view(),
            conclusion: self.conclusion.deep_view(),
            event: self.event.deep_view(),
        }
    }
}

impl Clone for HeadWorkflowRunJson {
    fn clone(&self) -> (r: Self)
        ensures
            r.deep_view() == self.deep_view(),
    {
        self.dup()
    }
}

impl Model for HeadWorkflowRunJson {
    fn same(&self, other: &Self) -> (r: bool) {
        self.id.same(&other.id)
            && self.check_suite_id.same(&other.check_suite_id)
            && self.name.same(&other.name)
            && self.head_sha.same(&other.head_sha)
            && self.status.same(&other.status)
            && self.conclusion.same(&other.conclusion)
            && self.event.same(&other.event)
    }

    fn dup(&self) -> (r: Self) {
        HeadWorkflowRunJson {
            id: self.id.dup(),
            check_suite_id: self.check_suite_id.dup(),
            name: self.name.dup(),
            head_sha: self.head_sha.dup(),
            status: self.status.dup(),
            conclusion: self.conclusion.dup(),
            event: self.event.dup(),
        }
    }
}

impl Decode for HeadWorkflowRunJson {
    open spec fn decoded(tree: Json) -> Option<HeadWorkflowRunJsonView> {
        let id = json::member::<u64>(tree, "id"@);
        let check_suite_id = json::member_or::<u64>(tree, "check_suite_id"@, 0u64);
        let name = json::member_or::<String>(tree, "name"@, Seq::<char>::empty());
        let head_sha = json::member::<String>(tree, "head_sha"@);
        let status = json::member::<Option<String>>(tree, "status"@);
        let conclusion = json::member::<Option<String>>(tree, "conclusion"@);
        let event = json::member_or::<String>(tree, "event"@, Seq::<char>::empty());
        if tree.is_object() && id is Some && check_suite_id is Some && name is Some
            && head_sha is Some && status is Some && conclusion is Some && event is Some {
            Some(HeadWorkflowRunJsonView {
                id: id->0,
                check_suite_id: check_suite_id->0,
                name: name->0,
                head_sha: head_sha->0,
                status: status->0,
                conclusion: conclusion->0,
                event: event->0,
            })
        } else {
            None
        }
    }

    fn decode(value: &serde_json::Value) -> (r: Option<Self>) {
        if !value.is_object() {
            return None;
        }
        let id = read_member::<u64>(value, "id")?;
        let check_suite_id = read_member_or::<u64>(value, "check_suite_id", 0u64)?;
        let name = read_member_or::<String>(value, "name", String::new())?;
        let head_sha = read_member::<String>(value, "head_sha")?;
        let status = read_member::<Option<String>>(value, "status")?;
        let conclusion = read_member::<Option<String>>(value, "conclusion")?;
        let event = read_member_or::<String>(value, "event", String::new())?;
        Some(HeadWorkflowRunJson { id, check_suite_id, name, head_sha, status, conclusion, event })
    }
}

/// The workflow runs of a commit. The total counts those on other pages too.
#[derive(Debug, PartialEq, Eq)]
pub struct WorkflowRunListJson {
    pub total_count: Option<u64>,
    pub workflow_runs: Vec<HeadWorkflowRunJson>,
}

/// The content of a [`WorkflowRunListJson`].
#[verifier::ext_equal]
pub struct WorkflowRunListJsonView {
    pub total_count: Option<u64>,
    pub workflow_runs: Seq<HeadWorkflowRunJsonView>,
}

impl DeepView for WorkflowRunListJson {
    type V = WorkflowRunListJsonView;

    open spec fn deep_view(&self) -> WorkflowRunListJsonView {
        WorkflowRunListJsonView {
            total_count: self.total_count.deep_view(),
            workflow_runs: self.workflow_runs.deep_view(),
        }
    }
}

impl Clone for WorkflowRunListJson {
    fn clone(&self) -> (r: Self)
        ensures
            r.deep_view() == self.deep_view(),
    {
        self.dup()
    }
}

impl Model for WorkflowRunListJson {
    fn same(&self, other: &Self) -> (r: bool) {
        self.total_count.same(&other.total_count)
            && self.workflow_runs.same(&other.workflow_runs)
    }

    fn dup(&self) -> (r: Self) {
        WorkflowRunListJson {
            total_count: self.total_count.dup(),
            workflow_runs: self.workflow_runs.dup(),
        }
    }
}

impl Decode for WorkflowRunListJson {
    open spec fn decoded(tree: Json) -> Option<WorkflowRunListJsonView> {
        let total_count = json::member::<Option<u64>>(tree, "total_count"@);
        let workflow_runs = json::member_or::<Vec<HeadWorkflowRunJson>>(
            tree,
            "workflow_runs"@,
            Seq::empty(),
        );
        if tree.is_object() && total_count is Some && workflow_runs is Some {
            Some(WorkflowRunListJsonView {
                total_count: total_count->0,
                workflow_runs: workflow_runs->0,
            })
        } else {
            None
        }
    }

    fn decode(value: &serde_json::Value) -> (r: Option<Self>) {
        if !value.is_object() {
            return None;
        }
        let total_count = read_member::<Option<u64>>(value, "total_count")?;
        let none: Vec<HeadWorkflowRunJson> = Vec::new();
        assert(none.deep_view() =~= Seq::empty());
        let workflow_runs = read_member_or::<Vec<HeadWorkflowRunJson>>(
            value,
            "workflow_runs",
            none,
        )?;
        Some(WorkflowRunListJson { total_count, workflow_runs })
    }
}

/// Who committed, and when.
#[derive(Debug, PartialEq, Eq)]
pub struct CommitActorJson {
    pub date: String,
}

/// The content of a [`CommitActorJson`].
#[verifier::ext_equal]
pub struct CommitActorJsonView {
    pub date: Seq<char>,
}

impl DeepView for CommitActorJson {
    type V = CommitActorJsonView;

    open spec fn deep_view(&self) -> CommitActorJsonView {
        CommitActorJsonView {
            date: self.date.deep_view(),
        }
    }
}

impl Clone for CommitActorJson {
    fn clone(&self) -> (r: Self)
        ensures
            r.deep_view() == self.deep_view(),
    {
        self.dup()
    }
}

impl Model for CommitActorJson {
    fn same(&self, other: &Self) -> (r: bool) {
        self.date.same(&other.date)
    }

    fn dup(&self) -> (r: Self) {
        CommitActorJson {
            date: self.date.dup(),
        }
    }
}

impl Decode for CommitActorJson {
    open spec fn decoded(tree: Json) -> Option<CommitActorJsonView> {
        let date = json::member::<String>(tree, "date"@);
        if tree.is_object() && date is Some {
            Some(CommitActorJsonView { date: date->0 })
        } else {
            None
        }
    }

    fn decode(value: &serde_json::Value) -> (r: Option<Self>) {
        if !value.is_object() {
            return None;
        }
        let date = read_member::<String>(value, "date")?;
        Some(CommitActorJson { date })
    }
}

/// The metadata of a commit.
#[derive(Debug, PartialEq, Eq)]
pub struct CommitMetadataJson {
    pub committer: CommitActorJson,
}

/// The content of a [`CommitMetadataJson`].
#[verifier::ext_equal]
pub struct CommitMetadataJsonView {
    pub committer: CommitActorJsonView,
}

impl DeepView for CommitMetadataJson {
    type V = CommitMetadataJsonView;

    open spec fn deep_view(&self) -> CommitMetadataJsonView {
        CommitMetadataJsonView {
            committer: self.committer.deep_view(),
        }
    }
}

impl Clone for CommitMetadataJson {
    fn clone(&self) -> (r: Self)
        ensures
            r.deep_view() == self.deep_view(),
    {
        self.dup()
    }
}

impl Model for CommitMetadataJson {
    fn same(&self, other: &Self) -> (r: bool) {
        self.committer.same(&other.committer)
    }

    fn dup(&self) -> (r: Self) {
        CommitMetadataJson {
            committer: self.committer.dup(),
        }
    }
}

impl Decode for CommitMetadataJson {
    open spec fn decoded(tree: Json) -> Option<CommitMetadataJsonView> {
        let committer = json::member::<CommitActorJson>(tree, "committer"@);
        if tree.is_object() && committer is Some {
            Some(CommitMetadataJsonView { committer: committer->0 })
        } else {
            None
        }
    }

    fn decode(value: &serde_json::Value) -> (r: Option<Self>) {
        if !value.is_object() {
            return None;
        }
        let committer = read_member::<CommitActorJson>(value, "committer")?;
        Some(CommitMetadataJson { committer })
    }
}

/// One commit.
#[derive(Debug, PartialEq, Eq)]
pub struct CommitDetailJson {
    pub commit: CommitMetadataJson,
}

/// The content of a [`CommitDetailJson`].
#[verifier::ext_equal]
pub struct CommitDetailJsonView {
    pub commit: CommitMetadataJsonView,
}

impl DeepView for CommitDetailJson {
    type V = CommitDetailJsonView;

    open spec fn deep_view(&self) -> CommitDetailJsonView {
        CommitDetailJsonView {
            commit: self.commit.deep_view(),
        }
    }
}

impl Clone for CommitDetailJson {
    fn clone(&self) -> (r: Self)
        ensures
            r.deep_view() == self.deep_view(),
    {
        self.dup()
    }
}

impl Model for CommitDetailJson {
    fn same(&self, other: &Self) -> (r: bool) {
        self.commit.same(&other.commit)
    }

    fn dup(&self) -> (r: Self) {
        CommitDetailJson {
            commit: self.commit.dup(),
        }
    }
}

impl Decode for CommitDetailJson {
    open spec fn decoded(tree: Json) -> Option<CommitDetailJsonView> {
        let commit = json::member::<CommitMetadataJson>(tree, "commit"@);
        if tree.is_object() && commit is Some {
            Some(CommitDetailJsonView { commit: commit->0 })
        } else {
            None
        }
    }

    fn decode(value: &serde_json::Value) -> (r: Option<Self>) {
        if !value.is_object() {
            return None;
        }
        let commit = read_member::<CommitMetadataJson>(value, "commit")?;
        Some(CommitDetailJson { commit })
    }
}

/// The identity of a provider node.
#[derive(Debug, PartialEq, Eq)]
pub struct GraphNodeId {
    pub id: String,
}

/// The content of a [`GraphNodeId`].
#[verifier::ext_equal]
pub struct GraphNodeIdView {
    pub id: Seq<char>,
}

impl DeepView for GraphNodeId {
    type V = GraphNodeIdView;

    open spec fn deep_view(&self) -> GraphNodeIdView {
        GraphNodeIdView {
            id: self.id.deep_view(),
        }
    }
}

impl Clone for GraphNodeId {
    fn clone(&self) -> (r: Self)
        ensures
            r.deep_view() == self.deep_view(),
    {
        self.dup()
    }
}

impl Model for GraphNodeId {
    fn same(&self, other: &Self) -> (r: bool) {
        self.id.same(&other.id)
    }

    fn dup(&self) -> (r: Self) {
        GraphNodeId {
            id: self.id.dup(),
        }
    }
}

impl Decode for GraphNodeId {
    open spec fn decoded(tree: Json) -> Option<GraphNodeIdView> {
        let id = json::member::<String>(tree, "id"@);
        if tree.is_object() && id is Some {
            Some(GraphNodeIdView { id: id->0 })
        } else {
            None
        }
    }

    fn decode(value: &serde_json::Value) -> (r: Option<Self>) {
        if !value.is_object() {
            return None;
        }
        let id = read_member::<String>(value, "id")?;
        Some(GraphNodeId { id })
    }
}

/// The nodes that a force transition needs.
#[derive(Debug, PartialEq, Eq)]
pub struct ForceTransactionIdsRepository {
    pub pull_request: Option<GraphNodeId>,
    pub label: Option<GraphNodeId>,
}

/// The content of a [`ForceTransactionIdsRepository`].
#[verifier::ext_equal]
pub struct ForceTransactionIdsRepositoryView {
    pub pull_request: Option<GraphNodeIdView>,
    pub label: Option<GraphNodeIdView>,
}

impl DeepView for ForceTransactionIdsRepository {
    type V = ForceTransactionIdsRepositoryView;

    open spec fn deep_view(&self) -> ForceTransactionIdsRepositoryView {
        ForceTransactionIdsRepositoryView {
            pull_request: self.pull_request.deep_view(),
            label: self.label.deep_view(),
        }
    }
}

impl Clone for ForceTransactionIdsRepository {
    fn clone(&self) -> (r: Self)
        ensures
            r.deep_view() == self.deep_view(),
    {
        self.dup()
    }
}

impl Model for ForceTransactionIdsRepository {
    fn same(&self, other: &Self) -> (r: bool) {
        self.pull_request.same(&other.pull_request)
            && self.label.same(&other.label)
    }

    fn dup(&self) -> (r: Self) {
        ForceTransactionIdsRepository {
            pull_request: self.pull_request.dup(),
            label: self.label.dup(),
        }
    }
}

impl Decode for ForceTransactionIdsRepository {
    open spec fn decoded(tree: Json) -> Option<ForceTransactionIdsRepositoryView> {
        let pull_request = json::member::<Option<GraphNodeId>>(tree, "pullRequest"@);
        let label = json::member::<Option<GraphNodeId>>(tree, "label"@);
        if tree.is_object() && pull_request is Some && label is Some {
            Some(ForceTransactionIdsRepositoryView {
                pull_request: pull_request->0,
                label: label->0,
            })
        } else {
            None
        }
    }

    fn decode(value: &serde_json::Value) -> (r: Option<Self>) {
        if !value.is_object() {
            return None;
        }
        let pull_request = read_member::<Option<GraphNodeId>>(value, "pullRequest")?;
        let label = read_member::<Option<GraphNodeId>>(value, "label")?;
        Some(ForceTransactionIdsRepository { pull_request, label })
    }
}

/// The data of a node lookup.
#[derive(Debug, PartialEq, Eq)]
pub struct ForceTransactionIdsData {
    pub repository: ForceTransactionIdsRepository,
}

/// The content of a [`ForceTransactionIdsData`].
#[verifier::ext_equal]
pub struct ForceTransactionIdsDataView {
    pub repository: ForceTransactionIdsRepositoryView,
}

impl DeepView for ForceTransactionIdsData {
    type V = ForceTransactionIdsDataView;

    open spec fn deep_view(&self) -> ForceTransactionIdsDataView {
        ForceTransactionIdsDataView {
            repository: self.repository.deep_view(),
        }
    }
}

impl Clone for ForceTransactionIdsData {
    fn clone(&self) -> (r: Self)
        ensures
            r.deep_view() == self.deep_view(),
    {
        self.dup()
    }
}

impl Model for ForceTransactionIdsData {
    fn same(&self, other: &Self) -> (r: bool) {
        self.repository.same(&other.repository)
    }

    fn dup(&self) -> (r: Self) {
        ForceTransactionIdsData {
            repository: self.repository.dup(),
        }
    }
}

impl Decode for ForceTransactionIdsData {
    open spec fn decoded(tree: Json) -> Option<ForceTransactionIdsDataView> {
        let repository = json::member::<ForceTransactionIdsRepository>(tree, "repository"@);
        if tree.is_object() && repository is Some {
            Some(ForceTransactionIdsDataView { repository: repository->0 })
        } else {
            None
        }
    }

    fn decode(value: &serde_json::Value) -> (r: Option<Self>) {
        if !value.is_object() {
            return None;
        }
        let repository = read_member::<ForceTransactionIdsRepository>(value, "repository")?;
        Some(ForceTransactionIdsData { repository })
    }
}

/// The answer to a node lookup.
#[derive(Debug, PartialEq, Eq)]
pub struct ForceTransactionIdsResponse {
    pub data: ForceTransactionIdsData,
}

/// The content of a [`ForceTransactionIdsResponse`].
#[verifier::ext_equal]
pub struct ForceTransactionIdsResponseView {
    pub data: ForceTransactionIdsDataView,
}

impl DeepView for ForceTransactionIdsResponse {
    type V = ForceTransactionIdsResponseView;

    open spec fn deep_view(&self) -> ForceTransactionIdsResponseView {
        ForceTransactionIdsResponseView {
            data: self.data.deep_view(),
        }
    }
}

impl Clone for ForceTransactionIdsResponse {
    fn clone(&self) -> (r: Self)
        ensures
            r.deep_view() == self.deep_view(),
    {
        self.dup()
    }
}

impl Model for ForceTransactionIdsResponse {
    fn same(&self, other: &Self) -> (r: bool) {
        self.data.same(&other.data)
    }

    fn dup(&self) -> (r: Self) {
        ForceTransactionIdsResponse {
            data: self.data.dup(),
        }
    }
}

impl Decode for ForceTransactionIdsResponse {
    open spec fn decoded(tree: Json) -> Option<ForceTransactionIdsResponseView> {
        let data = json::member::<ForceTransactionIdsData>(tree, "data"@);
        if tree.is_object() && data is Some {
            Some(ForceTransactionIdsResponseView { data: data->0 })
        } else {
            None
        }
    }

    fn decode(value: &serde_json::Value) -> (r: Option<Self>) {
        if !value.is_object() {
            return None;
        }
        let data = read_member::<ForceTransactionIdsData>(value, "data")?;
        Some(ForceTransactionIdsResponse { data })
    }
}

/// One comment.
#[derive(Debug, PartialEq, Eq)]
pub struct IssueCommentJson {
    pub body: String,
}

/// The content of a [`IssueCommentJson`].
#[verifier::ext_equal]
pub struct IssueCommentJsonView {
    pub body: Seq<char>,
}

impl DeepView for IssueCommentJson {
    type V = IssueCommentJsonView;

    open spec fn deep_view(&self) -> IssueCommentJsonView {
        IssueCommentJsonView {
            body: self.body.deep_view(),
        }
    }
}

impl Clone for IssueCommentJson {
    fn clone(&self) -> (r: Self)
        ensures
            r.deep_view() == self.deep_view(),
    {
        self.dup()
    }
}

impl Model for IssueCommentJson {
    fn same(&self, other: &Self) -> (r: bool) {
        self.body.same(&other.body)
    }

    fn dup(&self) -> (r: Self) {
        IssueCommentJson {
            body: self.body.dup(),
        }
    }
}

impl Decode for IssueCommentJson {
    open spec fn decoded(tree: Json) -> Option<IssueCommentJsonView> {
        let body = json::member::<String>(tree, "body"@);
        if tree.is_object() && body is Some {
            Some(IssueCommentJsonView { body: body->0 })
        } else {
            None
        }
    }

    fn decode(value: &serde_json::Value) -> (r: Option<Self>) {
        if !value.is_object() {
            return None;
        }
        let body = read_member::<String>(value, "body")?;
        Some(IssueCommentJson { body })
    }
}

/// A label by name.
#[derive(Debug, PartialEq, Eq)]
pub struct LabelJson {
    pub name: String,
}

/// The content of a [`LabelJson`].
#[verifier::ext_equal]
pub struct LabelJsonView {
    pub name: Seq<char>,
}

impl DeepView for LabelJson {
    type V = LabelJsonView;

    open spec fn deep_view(&self) -> LabelJsonView {
        LabelJsonView {
            name: self.name.deep_view(),
        }
    }
}

impl Clone for LabelJson {
    fn clone(&self) -> (r: Self)
        ensures
            r.deep_view() == self.deep_view(),
    {
        self.dup()
    }
}

impl Model for LabelJson {
    fn same(&self, other: &Self) -> (r: bool) {
        self.name.same(&other.name)
    }

    fn dup(&self) -> (r: Self) {
        LabelJson {
            name: self.name.dup(),
        }
    }
}

impl Decode for LabelJson {
    open spec fn decoded(tree: Json) -> Option<LabelJsonView> {
        let name = json::member::<String>(tree, "name"@);
        if tree.is_object() && name is Some {
            Some(LabelJsonView { name: name->0 })
        } else {
            None
        }
    }

    fn decode(value: &serde_json::Value) -> (r: Option<Self>) {
        if !value.is_object() {
            return None;
        }
        let name = read_member::<String>(value, "name")?;
        Some(LabelJson { name })
    }
}

/// A label of the repository with its metadata.
#[derive(Debug, PartialEq, Eq)]
pub struct RepositoryLabel {
    pub name: String,
    pub color: String,
    pub description: Option<String>,
}

/// The content of a [`RepositoryLabel`].
#[verifier::ext_equal]
pub struct RepositoryLabelView {
    pub name: Seq<char>,
    pub color: Seq<char>,
    pub description: Option<Seq<char>>,
}

impl DeepView for RepositoryLabel {
    type V = RepositoryLabelView;

    open spec fn deep_view(&self) -> RepositoryLabelView {
        RepositoryLabelView {
            name: self.name.deep_view(),
            color: self.color.deep_view(),
            description: self.description.deep_view(),
        }
    }
}

impl Clone for RepositoryLabel {
    fn clone(&self) -> (r: Self)
        ensures
            r.deep_view() == self.deep_view(),
    {
        self.dup()
    }
}

impl Model for RepositoryLabel {
    fn same(&self, other: &Self) -> (r: bool) {
        self.name.same(&other.name)
            && self.color.same(&other.color)
            && self.description.same(&other.description)
    }

    fn dup(&self) -> (r: Self) {
        RepositoryLabel {
            name: self.name.dup(),
            color: self.color.dup(),
            description: self.description.dup(),
        }
    }
}

impl Decode for RepositoryLabel {
    open spec fn decoded(tree: Json) -> Option<RepositoryLabelView> {
        let name = json::member::<String>(tree, "name"@);
        let color = json::member_or::<String>(tree, "color"@, Seq::<char>::empty());
        let description = json::member::<Option<String>>(tree, "description"@);
        if tree.is_object() && name is Some && color is Some && description is Some {
            Some(RepositoryLabelView {
                name: name->0,
                color: color->0,
                description: description->0,
            })
        } else {
            None
        }
    }

    fn decode(value: &serde_json::Value) -> (r: Option<Self>) {
        if !value.is_object() {
            return None;
        }
        let name = read_member::<String>(value, "name")?;
        let color = read_member_or::<String>(value, "color", String::new())?;
        let description = read_member::<Option<String>>(value, "description")?;
        Some(RepositoryLabel { name, color, description })
    }
}

/// The repository of a head branch.
#[derive(Debug, PartialEq, Eq)]
pub struct HeadRepositoryJson {
    pub name: Option<String>,
    pub name_with_owner: Option<String>,
}

/// The content of a [`HeadRepositoryJson`].
#[verifier::ext_equal]
pub struct HeadRepositoryJsonView {
    pub name: Option<Seq<char>>,
    pub name_with_owner: Option<Seq<char>>,
}

impl DeepView for HeadRepositoryJson {
    type V = HeadRepositoryJsonView;

    open spec fn deep_view(&self) -> HeadRepositoryJsonView {
        HeadRepositoryJsonView {
            name: self.name.deep_view(),
            name_with_owner: self.name_with_owner.deep_view(),
        }
    }
}

impl Clone for HeadRepositoryJson {
    fn clone(&self) -> (r: Self)
        ensures
            r.deep_view() == self.deep_view(),
    {
        self.dup()
    }
}

impl Model for HeadRepositoryJson {
    fn same(&self, other: &Self) -> (r: bool) {
        self.name.same(&other.name)
            && self.name_with_owner.same(&other.name_with_owner)
    }

    fn dup(&self) -> (r: Self) {
        HeadRepositoryJson {
            name: self.name.dup(),
            name_with_owner: self.name_with_owner.dup(),
        }
    }
}

impl Decode for HeadRepositoryJson {
    open spec fn decoded(tree: Json) -> Option<HeadRepositoryJsonView> {
        let name = json::member::<Option<String>>(tree, "name"@);
        let name_with_owner = json::member::<Option<String>>(tree, "nameWithOwner"@);
        if tree.is_object() && name is Some && name_with_owner is Some {
            Some(HeadRepositoryJsonView { name: name->0, name_with_owner: name_with_owner->0 })
        } else {
            None
        }
    }

    fn decode(value: &serde_json::Value) -> (r: Option<Self>) {
        if !value.is_object() {
            return None;
        }
        let name = read_member::<Option<String>>(value, "name")?;
        let name_with_owner = read_member::<Option<String>>(value, "nameWithOwner")?;
        Some(HeadRepositoryJson { name, name_with_owner })
    }
}

/// An account.
#[derive(Debug, PartialEq, Eq)]
pub struct RepositoryOwnerJson {
    pub login: String,
}

/// The content of a [`RepositoryOwnerJson`].
#[verifier::ext_equal]
pub struct RepositoryOwnerJsonView {
    pub login: Seq<char>,
}

impl DeepView for RepositoryOwnerJson {
    type V = RepositoryOwnerJsonView;

    open spec fn deep_view(&self) -> RepositoryOwnerJsonView {
        RepositoryOwnerJsonView {
            login: self.login.deep_view(),
        }
    }
}

impl Clone for RepositoryOwnerJson {
    fn clone(&self) -> (r: Self)
        ensures
            r.deep_view() == self.deep_view(),
    {
        self.dup()
    }
}

impl Model for RepositoryOwnerJson {
    fn same(&self, other: &Self) -> (r: bool) {
        self.login.same(&other.login)
    }

    fn dup(&self) -> (r: Self) {
        RepositoryOwnerJson {
            login: self.login.dup(),
        }
    }
}

impl Decode for RepositoryOwnerJson {
    open spec fn decoded(tree: Json) -> Option<RepositoryOwnerJsonView> {
        let login = json::member::<String>(tree, "login"@);
        if tree.is_object() && login is Some {
            Some(RepositoryOwnerJsonView { login: login->0 })
        } else {
            None
        }
    }

    fn decode(value: &serde_json::Value) -> (r: Option<Self>) {
        if !value.is_object() {
            return None;
        }
        let login = read_member::<String>(value, "login")?;
        Some(RepositoryOwnerJson { login })
    }
}

/// An auto-merge request.
#[derive(Debug, PartialEq, Eq)]
pub struct AutoMergeJson {
    pub merge_method: String,
    pub enabled_by: Option<RepositoryOwnerJson>,
}

/// The content of a [`AutoMergeJson`].
#[verifier::ext_equal]
pub struct AutoMergeJsonView {
    pub merge_method: Seq<char>,
    pub enabled_by: Option<RepositoryOwnerJsonView>,
}

impl DeepView for AutoMergeJson {
    type V = AutoMergeJsonView;

    open spec fn deep_view(&self) -> AutoMergeJsonView {
        AutoMergeJsonView {
            merge_method: self.merge_method.deep_view(),
            enabled_by: self.enabled_by.deep_view(),
        }
    }
}

impl Clone for AutoMergeJson {
    fn clone(&self) -> (r: Self)
        ensures
            r.deep_view() == self.deep_view(),
    {
        self.dup()
    }
}

impl Model for AutoMergeJson {
    fn same(&self, other: &Self) -> (r: bool) {
        self.merge_method.same(&other.merge_method)
            && self.enabled_by.same(&other.enabled_by)
    }

    fn dup(&self) -> (r: Self) {
        AutoMergeJson {
            merge_method: self.merge_method.dup(),
            enabled_by: self.enabled_by.dup(),
        }
    }
}

impl Decode for AutoMergeJson {
    open spec fn decoded(tree: Json) -> Option<AutoMergeJsonView> {
        let merge_method = json::member::<String>(tree, "mergeMethod"@);
        let enabled_by = json::member::<Option<RepositoryOwnerJson>>(tree, "enabledBy"@);
        if tree.is_object() && merge_method is Some && enabled_by is Some {
            Some(AutoMergeJsonView { merge_method: merge_method->0, enabled_by: enabled_by->0 })
        } else {
            None
        }
    }

    fn decode(value: &serde_json::Value) -> (r: Option<Self>) {
        if !value.is_object() {
            return None;
        }
        let merge_method = read_member::<String>(value, "mergeMethod")?;
        let enabled_by = read_member::<Option<RepositoryOwnerJson>>(value, "enabledBy")?;
        Some(AutoMergeJson { merge_method, enabled_by })
    }
}

/// One row of a check rollup.
#[derive(Debug, PartialEq, Eq)]
pub struct CheckJson {
    pub kind: String,
    pub name: Option<String>,
    pub context: Option<String>,
    pub status: Option<String>,
    pub conclusion: Option<String>,
    pub state: Option<String>,
    pub workflow_name: Option<String>,
    pub details_url: Option<String>,
    pub target_url: Option<String>,
    pub started_at: Option<String>,
    pub completed_at: Option<String>,
    pub created_at: Option<String>,
    pub app_id: Option<u64>,
    pub check_suite_id: Option<u64>,
    pub head_oid: Option<String>,
}

/// The content of a [`CheckJson`].
#[verifier::ext_equal]
pub struct CheckJsonView {
    pub kind: Seq<char>,
    pub name: Option<Seq<char>>,
    pub context: Option<Seq<char>>,
    pub status: Option<Seq<char>>,
    pub conclusion: Option<Seq<char>>,
    pub state: Option<Seq<char>>,
    pub workflow_name: Option<Seq<char>>,
    pub details_url: Option<Seq<char>>,
    pub target_url: Option<Seq<char>>,
    pub started_at: Option<Seq<char>>,
    pub completed_at: Option<Seq<char>>,
    pub created_at: Option<Seq<char>>,
    pub app_id: Option<u64>,
    pub check_suite_id: Option<u64>,
    pub head_oid: Option<Seq<char>>,
}

impl DeepView for CheckJson {
    type V = CheckJsonView;

    open spec fn deep_view(&self) -> CheckJsonView {
        CheckJsonView {
            kind: self.kind.deep_view(),
            name: self.name.deep_view(),
            context: self.context.deep_view(),
            status: self.status.deep_view(),
            conclusion: self.conclusion.deep_view(),
            state: self.state.deep_view(),
            workflow_name: self.workflow_name.deep_view(),
            details_url: self.details_url.deep_view(),
            target_url: self.target_url.deep_view(),
            started_at: self.started_at.deep_view(),
            completed_at: self.completed_at.deep_view(),
            created_at: self.created_at.deep_view(),
            app_id: self.app_id.deep_view(),
            check_suite_id: self.check_suite_id.deep_view(),
            head_oid: self.head_oid.deep_view(),
        }
    }
}

impl Clone for CheckJson {
    fn clone(&self) -> (r: Self)
        ensures
            r.deep_view() == self.deep_view(),
    {
        self.dup()
    }
}

impl Model for CheckJson {
    fn same(&self, other: &Self) -> (r: bool) {
        self.kind.same(&other.kind)
            && self.name.same(&other.name)
            && self.context.same(&other.context)
            && self.status.same(&other.status)
            && self.conclusion.same(&other.conclusion)
            && self.state.same(&other.state)
            && self.workflow_name.same(&other.workflow_name)
            && self.details_url.same(&other.details_url)
            && self.target_url.same(&other.target_url)
            && self.started_at.same(&other.started_at)
            && self.completed_at.same(&other.completed_at)
            && self.created_at.same(&other.created_at)
            && self.app_id.same(&other.app_id)
            && self.check_suite_id.same(&other.check_suite_id)
            && self.head_oid.same(&other.head_oid)
    }

    fn dup(&self) -> (r: Self) {
        CheckJson {
            kind: self.kind.dup(),
            name: self.name.dup(),
            context: self.context.dup(),
            status: self.status.dup(),
            conclusion: self.conclusion.dup(),
            state: self.state.dup(),
            workflow_name: self.workflow_name.dup(),
            details_url: self.details_url.dup(),
            target_url: self.target_url.dup(),
            started_at: self.started_at.dup(),
            completed_at: self.completed_at.dup(),
            created_at: self.created_at.dup(),
            app_id: self.app_id.dup(),
            check_suite_id: self.check_suite_id.dup(),
            head_oid: self.head_oid.dup(),
        }
    }
}

impl Decode for CheckJson {
    open spec fn decoded(tree: Json) -> Option<CheckJsonView> {
        let kind = json::member::<String>(tree, "__typename"@);
        let name = json::member::<Option<String>>(tree, "name"@);
        let context = json::member::<Option<String>>(tree, "context"@);
        let status = json::member::<Option<String>>(tree, "status"@);
        let conclusion = json::member::<Option<String>>(tree, "conclusion"@);
        let state = json::member::<Option<String>>(tree, "state"@);
        let workflow_name = json::member::<Option<String>>(tree, "workflowName"@);
        let details_url = json::member::<Option<String>>(tree, "detailsUrl"@);
        let target_url = json::member::<Option<String>>(tree, "targetUrl"@);
        let started_at = json::member::<Option<String>>(tree, "startedAt"@);
        let completed_at = json::member::<Option<String>>(tree, "completedAt"@);
        let created_at = json::member::<Option<String>>(tree, "createdAt"@);
        let app_id = json::member::<Option<u64>>(tree, "appId"@);
        let check_suite_id = json::member::<Option<u64>>(tree, "checkSuiteId"@);
        let head_oid = json::member::<Option<String>>(tree, "headOid"@);
        if tree.is_object() && kind is Some && name is Some && context is Some && status is Some
            && conclusion is Some && state is Some && workflow_name is Some && details_url is Some
            && target_url is Some && started_at is Some && completed_at is Some
            && created_at is Some && app_id is Some && check_suite_id is Some && head_oid is Some {
            Some(CheckJsonView {
                kind: kind->0,
                name: name->0,
                context: context->0,
                status: status->0,
                conclusion: conclusion->0,
                state: state->0,
                workflow_name: workflow_name->0,
                details_url: details_url->0,
                target_url: target_url->0,
                started_at: started_at->0,
                completed_at: completed_at->0,
                created_at: created_at->0,
                app_id: app_id->0,
                check_suite_id: check_suite_id->0,
                head_oid: head_oid->0,
            })
        } else {
            None
        }
    }

    fn decode(value: &serde_json::Value) -> (r: Option<Self>) {
        if !value.is_object() {
            return None;
        }
        let kind = read_member::<String>(value, "__typename")?;
        let name = read_member::<Option<String>>(value, "name")?;
        let context = read_member::<Option<String>>(value, "context")?;
        let status = read_member::<Option<String>>(value, "status")?;
        let conclusion = read_member::<Option<String>>(value, "conclusion")?;
        let state = read_member::<Option<String>>(value, "state")?;
        let workflow_name = read_member::<Option<String>>(value, "workflowName")?;
        let details_url = read_member::<Option<String>>(value, "detailsUrl")?;
        let target_url = read_member::<Option<String>>(value, "targetUrl")?;
        let started_at = read_member::<Option<String>>(value, "startedAt")?;
        let completed_at = read_member::<Option<String>>(value, "completedAt")?;
        let created_at = read_member::<Option<String>>(value, "createdAt")?;
        let app_id = read_member::<Option<u64>>(value, "appId")?;
        let check_suite_id = read_member::<Option<u64>>(value, "checkSuiteId")?;
        let head_oid = read_member::<Option<String>>(value, "headOid")?;
        Some(CheckJson {
            kind,
            name,
            context,
            status,
            conclusion,
            state,
            workflow_name,
            details_url,
            target_url,
            started_at,
            completed_at,
            created_at,
            app_id,
            check_suite_id,
            head_oid,
        })
    }
}

impl Decode for PullRequestState {
    open spec fn decoded(tree: Json) -> Option<PullRequestState> {
        match tree.text() {
            Some(name) => if name == "OPEN"@ {
                Some(PullRequestState::Open)
            } else if name == "CLOSED"@ {
                Some(PullRequestState::Closed)
            } else if name == "MERGED"@ {
                Some(PullRequestState::Merged)
            } else {
                None
            },
            None => None,
        }
    }

    fn decode(value: &serde_json::Value) -> (r: Option<Self>) {
        match value.as_str() {
            Some(name) => if text_eq(name, "OPEN") {
                Some(PullRequestState::Open)
            } else if text_eq(name, "CLOSED") {
                Some(PullRequestState::Closed)
            } else if text_eq(name, "MERGED") {
                Some(PullRequestState::Merged)
            } else {
                None
            },
            None => None,
        }
    }
}

/// One pull request as the provider reports it.
#[derive(Debug, PartialEq, Eq)]
pub struct PullRequestJson {
    pub number: u64,
    pub title: String,
    pub body: String,
    pub state: PullRequestState,
    pub is_draft: bool,
    pub head_ref_name: String,
    pub head_ref_oid: String,
    pub head_repository: Option<HeadRepositoryJson>,
    pub head_repository_owner: Option<RepositoryOwnerJson>,
    pub is_cross_repository: bool,
    pub base_ref_name: String,
    pub base_ref_oid: String,
    pub labels: Vec<LabelJson>,
    pub auto_merge_request: Option<AutoMergeJson>,
    pub status_check_rollup: Vec<CheckJson>,
    pub created_at: String,
    pub merged_at: Option<String>,
    pub url: String,
    pub updated_at: String,
    pub merge_state_status: Option<String>,
}

/// The content of a [`PullRequestJson`].
#[verifier::ext_equal]
pub struct PullRequestJsonView {
    pub number: u64,
    pub title: Seq<char>,
    pub body: Seq<char>,
    pub state: PullRequestState,
    pub is_draft: bool,
    pub head_ref_name: Seq<char>,
    pub head_ref_oid: Seq<char>,
    pub head_repository: Option<HeadRepositoryJsonView>,
    pub head_repository_owner: Option<RepositoryOwnerJsonView>,
    pub is_cross_repository: bool,
    pub base_ref_name: Seq<char>,
    pub base_ref_oid: Seq<char>,
    pub labels: Seq<LabelJsonView>,
    pub auto_merge_request: Option<AutoMergeJsonView>,
    pub status_check_rollup: Seq<CheckJsonView>,
    pub created_at: Seq<char>,
    pub merged_at: Option<Seq<char>>,
    pub url: Seq<char>,
    pub updated_at: Seq<char>,
    pub merge_state_status: Option<Seq<char>>,
}

impl DeepView for PullRequestJson {
    type V = PullRequestJsonView;

    open spec fn deep_view(&self) -> PullRequestJsonView {
        PullRequestJsonView {
            number: self.number.deep_view(),
            title: self.title.deep_view(),
            body: self.body.deep_view(),
            state: self.state.deep_view(),
            is_draft: self.is_draft.deep_view(),
            head_ref_name: self.head_ref_name.deep_view(),
            head_ref_oid: self.head_ref_oid.deep_view(),
            head_repository: self.head_repository.deep_view(),
            head_repository_owner: self.head_repository_owner.deep_view(),
            is_cross_repository: self.is_cross_repository.deep_view(),
            base_ref_name: self.base_ref_name.deep_view(),
            base_ref_oid: self.base_ref_oid.deep_view(),
            labels: self.labels.deep_view(),
            auto_merge_request: self.auto_merge_request.deep_view(),
            status_check_rollup: self.status_check_rollup.deep_view(),
            created_at: self.created_at.deep_view(),
            merged_at: self.merged_at.deep_view(),
            url: self.url.deep_view(),
            updated_at: self.updated_at.deep_view(),
            merge_state_status: self.merge_state_status.deep_view(),
        }
    }
}

impl Clone for PullRequestJson {
    fn clone(&self) -> (r: Self)
        ensures
            r.deep_view() == self.deep_view(),
    {
        self.dup()
    }
}

impl Model for PullRequestJson {
    fn same(&self, other: &Self) -> (r: bool) {
        self.number.same(&other.number)
            && self.title.same(&other.title)
            && self.body.same(&other.body)
            && self.state.same(&other.state)
            && self.is_draft.same(&other.is_draft)
            && self.head_ref_name.same(&other.head_ref_name)
            && self.head_ref_oid.same(&other.head_ref_oid)
            && self.head_repository.same(&other.head_repository)
            && self.head_repository_owner.same(&other.head_repository_owner)
            && self.is_cross_repository.same(&other.is_cross_repository)
            && self.base_ref_name.same(&other.base_ref_name)
            && self.base_ref_oid.same(&other.base_ref_oid)
            && self.labels.same(&other.labels)
            && self.auto_merge_request.same(&other.auto_merge_request)
            && self.status_check_rollup.same(&other.status_check_rollup)
            && self.created_at.same(&other.created_at)
            && self.merged_at.same(&other.merged_at)
            && self.url.same(&other.url)
            && self.updated_at.same(&other.updated_at)
            && self.merge_state_status.same(&other.merge_state_status)
    }

    fn dup(&self) -> (r: Self) {
        PullRequestJson {
            number: self.number.dup(),
            title: self.title.dup(),
            body: self.body.dup(),
            state: self.state.dup(),
            is_draft: self.is_draft.dup(),
            head_ref_name: self.head_ref_name.dup(),
            head_ref_oid: self.head_ref_oid.dup(),
            head_repository: self.head_repository.dup(),
            head_repository_owner: self.head_repository_owner.dup(),
            is_cross_repository: self.is_cross_repository.dup(),
            base_ref_name: self.base_ref_name.dup(),
            base_ref_oid: self.base_ref_oid.dup(),
            labels: self.labels.dup(),
            auto_merge_request: self.auto_merge_request.dup(),
            status_check_rollup: self.status_check_rollup.dup(),
            created_at: self.created_at.dup(),
            merged_at: self.merged_at.dup(),
            url: self.url.dup(),
            updated_at: self.updated_at.dup(),
            merge_state_status: self.merge_state_status.dup(),
        }
    }
}

impl Decode for PullRequestJson {
    open spec fn decoded(tree: Json) -> Option<PullRequestJsonView> {
        let number = json::member::<u64>(tree, "number"@);
        let title = json::member::<String>(tree, "title"@);
        let body = json::member_or::<String>(tree, "body"@, Seq::<char>::empty());
        let state = json::member::<PullRequestState>(tree, "state"@);
        let is_draft = json::member::<bool>(tree, "isDraft"@);
        let head_ref_name = json::member::<String>(tree, "headRefName"@);
        let head_ref_oid = json::member::<String>(tree, "headRefOid"@);
        let head_repository = json::member::<Option<HeadRepositoryJson>>(tree, "headRepository"@);
        let head_repository_owner = json::member::<Option<RepositoryOwnerJson>>(
            tree,
            "headRepositoryOwner"@,
        );
        let is_cross_repository = json::member::<bool>(tree, "isCrossRepository"@);
        let base_ref_name = json::member::<String>(tree, "baseRefName"@);
        let base_ref_oid = json::member::<String>(tree, "baseRefOid"@);
        let labels = json::list_member::<LabelJson>(tree, "labels"@);
        let auto_merge_request = json::member::<Option<AutoMergeJson>>(tree, "autoMergeRequest"@);
        let status_check_rollup = json::list_member::<CheckJson>(tree, "statusCheckRollup"@);
        let created_at = json::member::<String>(tree, "createdAt"@);
        let merged_at = json::member::<Option<String>>(tree, "mergedAt"@);
        let url = json::member::<String>(tree, "url"@);
        let updated_at = json::member::<String>(tree, "updatedAt"@);
        let merge_state_status = json::member::<Option<String>>(tree, "mergeStateStatus"@);
        if tree.is_object() && number is Some && title is Some && body is Some && state is Some
            && is_draft is Some && head_ref_name is Some && head_ref_oid is Some
            && head_repository is Some && head_repository_owner is Some
            && is_cross_repository is Some && base_ref_name is Some && base_ref_oid is Some
            && labels is Some && auto_merge_request is Some && status_check_rollup is Some
            && created_at is Some && merged_at is Some && url is Some && updated_at is Some
            && merge_state_status is Some {
            Some(PullRequestJsonView {
                number: number->0,
                title: title->0,
                body: body->0,
                state: state->0,
                is_draft: is_draft->0,
                head_ref_name: head_ref_name->0,
                head_ref_oid: head_ref_oid->0,
                head_repository: head_repository->0,
                head_repository_owner: head_repository_owner->0,
                is_cross_repository: is_cross_repository->0,
                base_ref_name: base_ref_name->0,
                base_ref_oid: base_ref_oid->0,
                labels: labels->0,
                auto_merge_request: auto_merge_request->0,
                status_check_rollup: status_check_rollup->0,
                created_at: created_at->0,
                merged_at: merged_at->0,
                url: url->0,
                updated_at: updated_at->0,
                merge_state_status: merge_state_status->0,
            })
        } else {
            None
        }
    }

    fn decode(value: &serde_json::Value) -> (r: Option<Self>) {
        if !value.is_object() {
            return None;
        }
        let number = read_member::<u64>(value, "number")?;
        let title = read_member::<String>(value, "title")?;
        let body = read_member_or::<String>(value, "body", String::new())?;
        let state = read_member::<PullRequestState>(value, "state")?;
        let is_draft = read_member::<bool>(value, "isDraft")?;
        let head_ref_name = read_member::<String>(value, "headRefName")?;
        let head_ref_oid = read_member::<String>(value, "headRefOid")?;
        let head_repository = read_member::<Option<HeadRepositoryJson>>(value, "headRepository")?;
        let head_repository_owner = read_member::<Option<RepositoryOwnerJson>>(
            value,
            "headRepositoryOwner",
        )?;
        let is_cross_repository = read_member::<bool>(value, "isCrossRepository")?;
        let base_ref_name = read_member::<String>(value, "baseRefName")?;
        let base_ref_oid = read_member::<String>(value, "baseRefOid")?;
        let labels = read_list_member::<LabelJson>(value, "labels")?;
        let auto_merge_request = read_member::<Option<AutoMergeJson>>(value, "autoMergeRequest")?;
        let status_check_rollup = read_list_member::<CheckJson>(value, "statusCheckRollup")?;
        let created_at = read_member::<String>(value, "createdAt")?;
        let merged_at = read_member::<Option<String>>(value, "mergedAt")?;
        let url = read_member::<String>(value, "url")?;
        let updated_at = read_member::<String>(value, "updatedAt")?;
        let merge_state_status = read_member::<Option<String>>(value, "mergeStateStatus")?;
        Some(PullRequestJson {
            number,
            title,
            body,
            state,
            is_draft,
            head_ref_name,
            head_ref_oid,
            head_repository,
            head_repository_owner,
            is_cross_repository,
            base_ref_name,
            base_ref_oid,
            labels,
            auto_merge_request,
            status_check_rollup,
            created_at,
            merged_at,
            url,
            updated_at,
            merge_state_status,
        })
    }
}

// ---------------------------------------------------------------------------
// Conversions
// ---------------------------------------------------------------------------

/// Parts of a canonical `owner/name`.
pub open spec fn slug_parts(slug: Seq<char>) -> Option<RepositoryIdView> {
    match text::split_first(slug, "/"@) {
        Some((owner, name)) => if owner.len() == 0 || name.len() == 0 || text::holds_text(
            name,
            "/"@,
        ) {
            None
        } else {
            Some(RepositoryIdView { owner, name })
        },
        None => None,
    }
}

/// The repository of a canonical `owner/name`.
pub open spec fn slug_repository(slug: Seq<char>) -> Result<RepositoryIdView, DiscoveryErrorView> {
    match slug_parts(slug) {
        Some(repository) => Ok(repository),
        None => Err(DiscoveryErrorView::InvalidRepositorySlug(slug)),
    }
}

/// The content of an outcome.
pub open spec fn parsed_view(outcome: Result<RepositoryId, DiscoveryError>) -> Result<
    RepositoryIdView,
    DiscoveryErrorView,
> {
    match outcome {
        Ok(value) => Ok(value.deep_view()),
        Err(error) => Err(error.deep_view()),
    }
}

/// The repository of a canonical `owner/name`.
pub fn repository_id(slug: &str) -> (r: Result<RepositoryId, DiscoveryError>)
    ensures
        parsed_view(r) == slug_repository(slug@),
{
    match split_once(slug, "/") {
        Some((owner, name)) => {
            if owner.as_str().is_empty() || name.as_str().is_empty() || text_contains(
                name.as_str(),
                "/",
            ) {
                Err(DiscoveryError::InvalidRepositorySlug(slug.to_owned()))
            } else {
                Ok(RepositoryId { owner, name })
            }
        },
        None => Err(DiscoveryError::InvalidRepositorySlug(slug.to_owned())),
    }
}

/// The normalized state of a check.
pub open spec fn check_state(provider_state: Option<Seq<char>>) -> CheckState {
    match provider_state {
        None => CheckState::Unknown,
        Some(s) => if s == "EXPECTED"@ {
            CheckState::Expected
        } else if s == "QUEUED"@ || s == "REQUESTED"@ || s == "WAITING"@ {
            CheckState::Queued
        } else if s == "IN_PROGRESS"@ || s == "PENDING"@ {
            CheckState::InProgress
        } else if s == "SUCCESS"@ {
            CheckState::Success
        } else if s == "FAILURE"@ || s == "ERROR"@ || s == "STARTUP_FAILURE"@ || s == "STALE"@ {
            CheckState::Failure
        } else if s == "NEUTRAL"@ {
            CheckState::Neutral
        } else if s == "SKIPPED"@ {
            CheckState::Skipped
        } else if s == "CANCELLED"@ || s == "CANCELED"@ {
            CheckState::Cancelled
        } else if s == "TIMED_OUT"@ {
            CheckState::TimedOut
        } else if s == "ACTION_REQUIRED"@ {
            CheckState::ActionRequired
        } else {
            CheckState::Unknown
        },
    }
}

/// The normalized state of a check.
pub fn normalize_check_state(provider_state: &Option<String>) -> (r: CheckState)
    ensures
        r == check_state(provider_state.deep_view()),
{
    match provider_state {
        None => CheckState::Unknown,
        Some(state) => {
            let s = state.as_str();
            if text_eq(s, "EXPECTED") {
                CheckState::Expected
            } else if text_eq(s, "QUEUED") || text_eq(s, "REQUESTED") || text_eq(s, "WAITING") {
                CheckState::Queued
            } else if text_eq(s, "IN_PROGRESS") || text_eq(s, "PENDING") {
                CheckState::InProgress
            } else if text_eq(s, "SUCCESS") {
                CheckState::Success
            } else if text_eq(s, "FAILURE") || text_eq(s, "ERROR") || text_eq(s, "STARTUP_FAILURE")
                || text_eq(s, "STALE") {
                CheckState::Failure
            } else if text_eq(s, "NEUTRAL") {
                CheckState::Neutral
            } else if text_eq(s, "SKIPPED") {
                CheckState::Skipped
            } else if text_eq(s, "CANCELLED") || text_eq(s, "CANCELED") {
                CheckState::Cancelled
            } else if text_eq(s, "TIMED_OUT") {
                CheckState::TimedOut
            } else if text_eq(s, "ACTION_REQUIRED") {
                CheckState::ActionRequired
            } else {
                CheckState::Unknown
            }
        },
    }
}

/// A text, unless it is empty.
pub open spec fn nonempty(s: Option<Seq<char>>) -> Option<Seq<char>> {
    match s {
        Some(t) => if t.len() == 0 {
            None
        } else {
            s
        },
        None => None,
    }
}

/// The first text that is there.
pub open spec fn either(a: Option<Seq<char>>, b: Option<Seq<char>>) -> Option<Seq<char>> {
    match a {
        Some(_) => a,
        None => b,
    }
}

fn keep_nonempty(s: Option<String>) -> (r: Option<String>)
    ensures
        r.deep_view() == nonempty(s.deep_view()),
{
    match s {
        Some(t) => if t.as_str().is_empty() {
            None
        } else {
            Some(t)
        },
        None => None,
    }
}

fn first_of(a: Option<String>, b: Option<String>) -> (r: Option<String>)
    ensures
        r.deep_view() == either(a.deep_view(), b.deep_view()),
{
    match a {
        Some(t) => Some(t),
        None => b,
    }
}

/// An optional text, empty where there is none.
pub open spec fn or_empty(s: Option<Seq<char>>) -> Seq<char> {
    match s {
        Some(t) => t,
        None => Seq::empty(),
    }
}

pub fn unwrap_or_empty(s: Option<String>) -> (r: String)
    ensures
        r@ == or_empty(s.deep_view()),
{
    match s {
        Some(t) => t,
        None => String::new(),
    }
}

impl CheckJsonView {
    /// What the provider says of the state: the conclusion, else the state,
    /// else the status, whichever first is not empty.
    pub open spec fn provider_state(self) -> Option<Seq<char>> {
        either(
            nonempty(self.conclusion),
            either(nonempty(self.state), nonempty(self.status)),
        )
    }

    /// The check of a rollup row.
    pub open spec fn snapshot(self) -> CheckSnapshotView {
        CheckSnapshotView {
            name: match either(self.name, either(self.context, self.workflow_name)) {
                Some(name) => name,
                None => self.kind,
            },
            state: check_state(self.provider_state()),
            provider_state: self.provider_state(),
            details_url: either(self.details_url, self.target_url),
            provider_kind: nonempty(Some(self.kind)),
            workflow_name: nonempty(self.workflow_name),
            started_at: nonempty(either(self.started_at, self.created_at)),
            completed_at: nonempty(self.completed_at),
            app_id: self.app_id,
            check_suite_id: self.check_suite_id,
            head_oid: self.head_oid,
            superseded: false,
        }
    }
}

impl CheckJson {
    /// The check of a rollup row.
    pub fn into_snapshot(self) -> (r: CheckSnapshot)
        ensures
            r.deep_view() == self.deep_view().snapshot(),
    {
        let provider_state = first_of(
            keep_nonempty(self.conclusion),
            first_of(keep_nonempty(self.state), keep_nonempty(self.status)),
        );
        let name = match first_of(
            self.name,
            first_of(self.context, self.workflow_name.dup()),
        ) {
            Some(name) => name,
            None => self.kind.dup(),
        };
        CheckSnapshot {
            name,
            state: normalize_check_state(&provider_state),
            provider_state,
            details_url: first_of(self.details_url, self.target_url),
            provider_kind: keep_nonempty(Some(self.kind)),
            workflow_name: keep_nonempty(self.workflow_name),
            started_at: keep_nonempty(first_of(self.started_at, self.created_at)),
            completed_at: keep_nonempty(self.completed_at),
            app_id: self.app_id,
            check_suite_id: self.check_suite_id,
            head_oid: match self.head_oid {
                Some(oid) => Some(CommitOid(oid)),
                None => None,
            },
            superseded: false,
        }
    }
}

/// The checks of rollup rows.
pub open spec fn row_snapshots(rows: Seq<CheckJsonView>) -> Seq<CheckSnapshotView> {
    Seq::new(rows.len(), |i: int| rows[i].snapshot())
}

fn convert_rows(rows: &Vec<CheckJson>) -> (r: Vec<CheckSnapshot>)
    ensures
        r.deep_view() == row_snapshots(rows.deep_view()),
{
    let ghost all = rows.deep_view();
    let mut out: Vec<CheckSnapshot> = Vec::new();
    let mut i: usize = 0;
    while i < rows.len()
        invariant
            all == rows.deep_view(),
            i <= rows.len(),
            out.deep_view() == row_snapshots(all).take(i as int),
        decreases rows.len() - i,
    {
        assert(all[i as int] == rows[i as int].deep_view());
        push_item(&mut out, rows[i].dup().into_snapshot());
        i = i + 1;
        assert(out.deep_view() =~= row_snapshots(all).take(i as int));
    }
    assert(out.deep_view() =~= row_snapshots(all));
    out
}

impl PullRequestJsonView {
    /// The slug of the head repository: reported, or put together from owner
    /// and name.
    pub open spec fn head_slug(self) -> Option<Seq<char>> {
        match self.head_repository {
            Some(repository) => match repository.name_with_owner {
                Some(slug) => Some(slug),
                None => match (self.head_repository_owner, repository.name) {
                    (Some(owner), Some(name)) => Some(owner.login + "/"@ + name),
                    _ => None,
                },
            },
            None => None,
        }
    }

    /// The head repository; a branch of the base repository needs no slug.
    pub open spec fn head_home(self, base: RepositoryIdView) -> Result<
        RepositoryIdView,
        DiscoveryErrorView,
    > {
        match self.head_slug() {
            Some(slug) => slug_repository(slug),
            None => if self.is_cross_repository {
                Err(DiscoveryErrorView::MissingHeadRepository { pr: self.number })
            } else {
                Ok(base)
            },
        }
    }

    /// The auto-merge setting.
    pub open spec fn auto_merge(self) -> AutoMergeStateView {
        match self.auto_merge_request {
            Some(request) => AutoMergeStateView {
                enabled: true,
                merge_method: if request.merge_method == "SQUASH"@ {
                    Some(MergeMethod::Squash)
                } else {
                    None
                },
                actor: match request.enabled_by {
                    Some(actor) => Some(actor.login),
                    None => None,
                },
            },
            None => AutoMergeStateView { enabled: false, merge_method: None, actor: None },
        }
    }

    /// The names of the labels.
    pub open spec fn label_names(self) -> Seq<Seq<char>> {
        Seq::new(self.labels.len(), |i: int| self.labels[i].name)
    }

    /// The pull request of a document.
    pub open spec fn snapshot(self, base: RepositoryIdView) -> Result<
        PullRequestSnapshotView,
        DiscoveryErrorView,
    > {
        match self.head_home(base) {
            Err(error) => Err(error),
            Ok(home) => Ok(
                PullRequestSnapshotView {
                    number: PrNumber(self.number),
                    title: self.title,
                    url: self.url,
                    state: self.state,
                    draft: self.is_draft,
                    head: BranchSnapshotView {
                        repository: home,
                        name: self.head_ref_name,
                        oid: self.head_ref_oid,
                    },
                    base: BranchSnapshotView {
                        repository: base,
                        name: self.base_ref_name,
                        oid: self.base_ref_oid,
                    },
                    cross_repository: self.is_cross_repository,
                    merge_state_status: self.merge_state_status,
                    labels: model::label_set(self.label_names()),
                    auto_merge: self.auto_merge(),
                    checks: model::marked_checks(row_snapshots(self.status_check_rollup)),
                    created_at: Some(self.created_at),
                    merged_at: self.merged_at,
                    updated_at: Some(self.updated_at),
                },
            ),
        }
    }

    /// The generation facts of a document.
    pub open spec fn generation_fact(self) -> PullRequestGenerationFactView {
        PullRequestGenerationFactView {
            pr: PrNumber(self.number),
            head_oid: self.head_ref_oid,
            head_ref: self.head_ref_name,
            created_at: Some(self.created_at),
            body: self.body,
        }
    }
}

/// The content of an outcome.
pub open spec fn snapshot_view(outcome: Result<PullRequestSnapshot, DiscoveryError>) -> Result<
    PullRequestSnapshotView,
    DiscoveryErrorView,
> {
    match outcome {
        Ok(value) => Ok(value.deep_view()),
        Err(error) => Err(error.deep_view()),
    }
}

impl PullRequestJson {
    fn head_home(&self, base: &RepositoryId) -> (r: Result<RepositoryId, DiscoveryError>)
        ensures
            parsed_view(r) == self.deep_view().head_home(base.deep_view()),
    {
        let slug: Option<String> = match &self.head_repository {
            Some(repository) => match &repository.name_with_owner {
                Some(slug) => Some(slug.dup()),
                None => match (&self.head_repository_owner, &repository.name) {
                    (Some(owner), Some(name)) => Some(
                        owner.login.dup().concat("/").concat(name.as_str()),
                    ),
                    _ => None,
                },
            },
            None => None,
        };
        match slug {
            Some(slug) => repository_id(slug.as_str()),
            None => if self.is_cross_repository {
                Err(DiscoveryError::MissingHeadRepository { pr: self.number })
            } else {
                Ok(base.dup())
            },
        }
    }

    fn labels(&self) -> (r: LabelSet)
        ensures
            r.deep_view() == model::label_set(self.deep_view().label_names()),
    {
        let ghost names = self.deep_view().label_names();
        let mut list: Vec<String> = Vec::new();
        let mut i: usize = 0;
        while i < self.labels.len()
            invariant
                names == self.deep_view().label_names(),
                i <= self.labels.len(),
                list.deep_view() == names.take(i as int),
            decreases self.labels.len() - i,
        {
            assert(self.deep_view().labels[i as int] == self.labels[i as int].deep_view());
            push_item(&mut list, self.labels[i].name.dup());
            i = i + 1;
            assert(list.deep_view() =~= names.take(i as int));
        }
        assert(list.deep_view() =~= names);
        LabelSet::from_list(&list)
    }

    /// The pull request of a document.
    pub fn into_snapshot(self, base: &RepositoryId) -> (r: Result<
        PullRequestSnapshot,
        DiscoveryError,
    >)
        ensures
            snapshot_view(r) == self.deep_view().snapshot(base.deep_view()),
    {
        let home = match self.head_home(base) {
            Ok(home) => home,
            Err(error) => {
                return Err(error);
            },
        };
        let labels = self.labels();
        let auto_merge = match &self.auto_merge_request {
            Some(request) => AutoMergeState {
                enabled: true,
                merge_method: if text_eq(request.merge_method.as_str(), "SQUASH") {
                    Some(MergeMethod::Squash)
                } else {
                    None
                },
                actor: match &request.enabled_by {
                    Some(actor) => Some(actor.login.dup()),
                    None => None,
                },
            },
            None => AutoMergeState::disabled(),
        };
        let checks = model::mark_superseded_checks(convert_rows(&self.status_check_rollup));
        Ok(
            PullRequestSnapshot {
                number: PrNumber(self.number),
                title: self.title,
                url: self.url,
                state: self.state,
                draft: self.is_draft,
                head: BranchSnapshot {
                    repository: home,
                    name: self.head_ref_name,
                    oid: CommitOid(self.head_ref_oid),
                },
                base: BranchSnapshot {
                    repository: base.dup(),
                    name: self.base_ref_name,
                    oid: CommitOid(self.base_ref_oid),
                },
                cross_repository: self.is_cross_repository,
                merge_state_status: self.merge_state_status,
                labels,
                auto_merge,
                checks,
                created_at: Some(self.created_at),
                merged_at: self.merged_at,
                updated_at: Some(self.updated_at),
            },
        )
    }

    /// The generation facts of a document.
    pub fn generation_fact(&self) -> (r: PullRequestGenerationFact)
        ensures
            r.deep_view() == self.deep_view().generation_fact(),
    {
        PullRequestGenerationFact {
            pr: PrNumber(self.number),
            head_oid: CommitOid(self.head_ref_oid.dup()),
            head_ref: self.head_ref_name.dup(),
            created_at: Some(self.created_at.dup()),
            body: self.body.dup(),
        }
    }
}

impl GenerationPullRequestJsonView {
    /// The generation facts of a document.
    pub open spec fn generation_fact(self) -> PullRequestGenerationFactView {
        PullRequestGenerationFactView {
            pr: PrNumber(self.number),
            head_oid: self.head_ref_oid,
            head_ref: self.head_ref_name,
            created_at: Some(self.created_at),
            body: self.body,
        }
    }
}

impl GenerationPullRequestJson {
    /// The generation facts of a document.
    pub fn generation_fact(&self) -> (r: PullRequestGenerationFact)
        ensures
            r.deep_view() == self.deep_view().generation_fact(),
    {
        PullRequestGenerationFact {
            pr: PrNumber(self.number),
            head_oid: CommitOid(self.head_ref_oid.dup()),
            head_ref: self.head_ref_name.dup(),
            created_at: Some(self.created_at.dup()),
            body: self.body.dup(),
        }
    }
}

} // verus!
