//! Synthetic merge candidates: the merge commit that the provider keeps for a
//! pull request, and whether it still stands for the current tips.

use vstd::prelude::*;
use vstd::string::*;
use crate::command;
use crate::command::{CommandRunner, CommandSpec, CommandSpecView};
use crate::github::provider;
use crate::github::provider::{fetch, DiscoveryError, DiscoveryErrorView};
use crate::github::raw::{LabelJson, LabelJsonView};
use crate::json;
use crate::json::{read_member, read_other_members, Decode, Json};
use crate::model;
use crate::model::{
    push_item, BranchSnapshot, BranchSnapshotView, CommitOid, DefaultBranchMovement,
    DefaultBranchMovementView, MergeCandidateFreshness, MergeCandidateIdentity,
    MergeCandidateIdentityView, Model, MovementOwnership, NativeAutoMergeState,
    NativeAutoMergeStateView, PrNumber, PullRequestSnapshot, PullRequestSnapshotView, RepositoryId,
    RepositoryIdView, SyntheticMergeCandidate, SyntheticMergeCandidateView,
};
use crate::text;
use crate::text::{decimal_text, join, text_eq};

verus! {

/// Most pull requests whose candidates are asked for at once.
pub const MERGE_CANDIDATE_LIMIT: usize = 100;

/// An object by name.
#[derive(Debug, PartialEq, Eq)]
pub struct GraphOidJson {
    pub oid: String,
}

/// The content of a [`GraphOidJson`].
#[verifier::ext_equal]
pub struct GraphOidJsonView {
    pub oid: Seq<char>,
}

impl DeepView for GraphOidJson {
    type V = GraphOidJsonView;

    open spec fn deep_view(&self) -> GraphOidJsonView {
        GraphOidJsonView {
            oid: self.oid.deep_view(),
        }
    }
}

impl Clone for GraphOidJson {
    fn clone(&self) -> (r: Self)
        ensures
            r.deep_view() == self.deep_view(),
    {
        self.dup()
    }
}

impl Model for GraphOidJson {
    fn same(&self, other: &Self) -> (r: bool) {
        self.oid.same(&other.oid)
    }

    fn dup(&self) -> (r: Self) {
        GraphOidJson {
            oid: self.oid.dup(),
        }
    }
}

impl Decode for GraphOidJson {
    open spec fn decoded(tree: Json) -> Option<GraphOidJsonView> {
        let oid = json::member::<String>(tree, "oid"@);
        if tree.is_object() && oid is Some {
            Some(GraphOidJsonView { oid: oid->0 })
        } else {
            None
        }
    }

    fn decode(value: &serde_json::Value) -> (r: Option<Self>) {
        if !value.is_object() {
            return None;
        }
        let oid = read_member::<String>(value, "oid")?;
        Some(GraphOidJson { oid })
    }
}

/// The parents of a commit.
#[derive(Debug, PartialEq, Eq)]
pub struct GraphParentsJson {
    pub nodes: Vec<GraphOidJson>,
}

/// The content of a [`GraphParentsJson`].
#[verifier::ext_equal]
pub struct GraphParentsJsonView {
    pub nodes: Seq<GraphOidJsonView>,
}

impl DeepView for GraphParentsJson {
    type V = GraphParentsJsonView;

    open spec fn deep_view(&self) -> GraphParentsJsonView {
        GraphParentsJsonView {
            nodes: self.nodes.deep_view(),
        }
    }
}

impl Clone for GraphParentsJson {
    fn clone(&self) -> (r: Self)
        ensures
            r.deep_view() == self.deep_view(),
    {
        self.dup()
    }
}

impl Model for GraphParentsJson {
    fn same(&self, other: &Self) -> (r: bool) {
        self.nodes.same(&other.nodes)
    }

    fn dup(&self) -> (r: Self) {
        GraphParentsJson {
            nodes: self.nodes.dup(),
        }
    }
}

impl Decode for GraphParentsJson {
    open spec fn decoded(tree: Json) -> Option<GraphParentsJsonView> {
        let nodes = json::member::<Vec<GraphOidJson>>(tree, "nodes"@);
        if tree.is_object() && nodes is Some {
            Some(GraphParentsJsonView { nodes: nodes->0 })
        } else {
            None
        }
    }

    fn decode(value: &serde_json::Value) -> (r: Option<Self>) {
        if !value.is_object() {
            return None;
        }
        let nodes = read_member::<Vec<GraphOidJson>>(value, "nodes")?;
        Some(GraphParentsJson { nodes })
    }
}

/// A commit.
#[derive(Debug, PartialEq, Eq)]
pub struct GraphCommitJson {
    pub oid: String,
    pub tree: GraphOidJson,
    pub parents: GraphParentsJson,
}

/// The content of a [`GraphCommitJson`].
#[verifier::ext_equal]
pub struct GraphCommitJsonView {
    pub oid: Seq<char>,
    pub tree: GraphOidJsonView,
    pub parents: GraphParentsJsonView,
}

impl DeepView for GraphCommitJson {
    type V = GraphCommitJsonView;

    open spec fn deep_view(&self) -> GraphCommitJsonView {
        GraphCommitJsonView {
            oid: self.oid.deep_view(),
            tree: self.tree.deep_view(),
            parents: self.parents.deep_view(),
        }
    }
}

impl Clone for GraphCommitJson {
    fn clone(&self) -> (r: Self)
        ensures
            r.deep_view() == self.deep_view(),
    {
        self.dup()
    }
}

impl Model for GraphCommitJson {
    fn same(&self, other: &Self) -> (r: bool) {
        self.oid.same(&other.oid)
            && self.tree.same(&other.tree)
            && self.parents.same(&other.parents)
    }

    fn dup(&self) -> (r: Self) {
        GraphCommitJson {
            oid: self.oid.dup(),
            tree: self.tree.dup(),
            parents: self.parents.dup(),
        }
    }
}

impl Decode for GraphCommitJson {
    open spec fn decoded(source: Json) -> Option<GraphCommitJsonView> {
        let oid = json::member::<String>(source, "oid"@);
        let tree = json::member::<GraphOidJson>(source, "tree"@);
        let parents = json::member::<GraphParentsJson>(source, "parents"@);
        if source.is_object() && oid is Some && tree is Some && parents is Some {
            Some(GraphCommitJsonView { oid: oid->0, tree: tree->0, parents: parents->0 })
        } else {
            None
        }
    }

    fn decode(value: &serde_json::Value) -> (r: Option<Self>) {
        if !value.is_object() {
            return None;
        }
        let oid = read_member::<String>(value, "oid")?;
        let tree = read_member::<GraphOidJson>(value, "tree")?;
        let parents = read_member::<GraphParentsJson>(value, "parents")?;
        Some(GraphCommitJson { oid, tree, parents })
    }
}

/// A user.
#[derive(Debug, PartialEq, Eq)]
pub struct GraphUserJson {
    pub login: String,
}

/// The content of a [`GraphUserJson`].
#[verifier::ext_equal]
pub struct GraphUserJsonView {
    pub login: Seq<char>,
}

impl DeepView for GraphUserJson {
    type V = GraphUserJsonView;

    open spec fn deep_view(&self) -> GraphUserJsonView {
        GraphUserJsonView {
            login: self.login.deep_view(),
        }
    }
}

impl Clone for GraphUserJson {
    fn clone(&self) -> (r: Self)
        ensures
            r.deep_view() == self.deep_view(),
    {
        self.dup()
    }
}

impl Model for GraphUserJson {
    fn same(&self, other: &Self) -> (r: bool) {
        self.login.same(&other.login)
    }

    fn dup(&self) -> (r: Self) {
        GraphUserJson {
            login: self.login.dup(),
        }
    }
}

impl Decode for GraphUserJson {
    open spec fn decoded(tree: Json) -> Option<GraphUserJsonView> {
        let login = json::member::<String>(tree, "login"@);
        if tree.is_object() && login is Some {
            Some(GraphUserJsonView { login: login->0 })
        } else {
            None
        }
    }

    fn decode(value: &serde_json::Value) -> (r: Option<Self>) {
        if !value.is_object() {
            return None;
        }
        let login = read_member::<String>(value, "login")?;
        Some(GraphUserJson { login })
    }
}

/// The author of a commit.
#[derive(Debug, PartialEq, Eq)]
pub struct GraphAuthorJson {
    pub name: Option<String>,
    pub user: Option<GraphUserJson>,
}

/// The content of a [`GraphAuthorJson`].
#[verifier::ext_equal]
pub struct GraphAuthorJsonView {
    pub name: Option<Seq<char>>,
    pub user: Option<GraphUserJsonView>,
}

impl DeepView for GraphAuthorJson {
    type V = GraphAuthorJsonView;

    open spec fn deep_view(&self) -> GraphAuthorJsonView {
        GraphAuthorJsonView {
            name: self.name.deep_view(),
            user: self.user.deep_view(),
        }
    }
}

impl Clone for GraphAuthorJson {
    fn clone(&self) -> (r: Self)
        ensures
            r.deep_view() == self.deep_view(),
    {
        self.dup()
    }
}

impl Model for GraphAuthorJson {
    fn same(&self, other: &Self) -> (r: bool) {
        self.name.same(&other.name)
            && self.user.same(&other.user)
    }

    fn dup(&self) -> (r: Self) {
        GraphAuthorJson {
            name: self.name.dup(),
            user: self.user.dup(),
        }
    }
}

impl Decode for GraphAuthorJson {
    open spec fn decoded(tree: Json) -> Option<GraphAuthorJsonView> {
        let name = json::member::<Option<String>>(tree, "name"@);
        let user = json::member::<Option<GraphUserJson>>(tree, "user"@);
        if tree.is_object() && name is Some && user is Some {
            Some(GraphAuthorJsonView { name: name->0, user: user->0 })
        } else {
            None
        }
    }

    fn decode(value: &serde_json::Value) -> (r: Option<Self>) {
        if !value.is_object() {
            return None;
        }
        let name = read_member::<Option<String>>(value, "name")?;
        let user = read_member::<Option<GraphUserJson>>(value, "user")?;
        Some(GraphAuthorJson { name, user })
    }
}

/// Labels.
#[derive(Debug, PartialEq, Eq)]
pub struct GraphLabelsJson {
    pub nodes: Vec<LabelJson>,
}

/// The content of a [`GraphLabelsJson`].
#[verifier::ext_equal]
pub struct GraphLabelsJsonView {
    pub nodes: Seq<LabelJsonView>,
}

impl DeepView for GraphLabelsJson {
    type V = GraphLabelsJsonView;

    open spec fn deep_view(&self) -> GraphLabelsJsonView {
        GraphLabelsJsonView {
            nodes: self.nodes.deep_view(),
        }
    }
}

impl Clone for GraphLabelsJson {
    fn clone(&self) -> (r: Self)
        ensures
            r.deep_view() == self.deep_view(),
    {
        self.dup()
    }
}

impl Model for GraphLabelsJson {
    fn same(&self, other: &Self) -> (r: bool) {
        self.nodes.same(&other.nodes)
    }

    fn dup(&self) -> (r: Self) {
        GraphLabelsJson {
            nodes: self.nodes.dup(),
        }
    }
}

impl Decode for GraphLabelsJson {
    open spec fn decoded(tree: Json) -> Option<GraphLabelsJsonView> {
        let nodes = json::member::<Vec<LabelJson>>(tree, "nodes"@);
        if tree.is_object() && nodes is Some {
            Some(GraphLabelsJsonView { nodes: nodes->0 })
        } else {
            None
        }
    }

    fn decode(value: &serde_json::Value) -> (r: Option<Self>) {
        if !value.is_object() {
            return None;
        }
        let nodes = read_member::<Vec<LabelJson>>(value, "nodes")?;
        Some(GraphLabelsJson { nodes })
    }
}

/// A pull request with its labels.
#[derive(Debug, PartialEq, Eq)]
pub struct GraphPullRequestJson {
    pub number: u64,
    pub labels: GraphLabelsJson,
}

/// The content of a [`GraphPullRequestJson`].
#[verifier::ext_equal]
pub struct GraphPullRequestJsonView {
    pub number: u64,
    pub labels: GraphLabelsJsonView,
}

impl DeepView for GraphPullRequestJson {
    type V = GraphPullRequestJsonView;

    open spec fn deep_view(&self) -> GraphPullRequestJsonView {
        GraphPullRequestJsonView {
            number: self.number.deep_view(),
            labels: self.labels.deep_view(),
        }
    }
}

impl Clone for GraphPullRequestJson {
    fn clone(&self) -> (r: Self)
        ensures
            r.deep_view() == self.deep_view(),
    {
        self.dup()
    }
}

impl Model for GraphPullRequestJson {
    fn same(&self, other: &Self) -> (r: bool) {
        self.number.same(&other.number)
            && self.labels.same(&other.labels)
    }

    fn dup(&self) -> (r: Self) {
        GraphPullRequestJson {
            number: self.number.dup(),
            labels: self.labels.dup(),
        }
    }
}

impl Decode for GraphPullRequestJson {
    open spec fn decoded(tree: Json) -> Option<GraphPullRequestJsonView> {
        let number = json::member::<u64>(tree, "number"@);
        let labels = json::member::<GraphLabelsJson>(tree, "labels"@);
        if tree.is_object() && number is Some && labels is Some {
            Some(GraphPullRequestJsonView { number: number->0, labels: labels->0 })
        } else {
            None
        }
    }

    fn decode(value: &serde_json::Value) -> (r: Option<Self>) {
        if !value.is_object() {
            return None;
        }
        let number = read_member::<u64>(value, "number")?;
        let labels = read_member::<GraphLabelsJson>(value, "labels")?;
        Some(GraphPullRequestJson { number, labels })
    }
}

/// Pull requests.
#[derive(Debug, PartialEq, Eq)]
pub struct GraphPullRequestsJson {
    pub nodes: Vec<GraphPullRequestJson>,
}

/// The content of a [`GraphPullRequestsJson`].
#[verifier::ext_equal]
pub struct GraphPullRequestsJsonView {
    pub nodes: Seq<GraphPullRequestJsonView>,
}

impl DeepView for GraphPullRequestsJson {
    type V = GraphPullRequestsJsonView;

    open spec fn deep_view(&self) -> GraphPullRequestsJsonView {
        GraphPullRequestsJsonView {
            nodes: self.nodes.deep_view(),
        }
    }
}

impl Clone for GraphPullRequestsJson {
    fn clone(&self) -> (r: Self)
        ensures
            r.deep_view() == self.deep_view(),
    {
        self.dup()
    }
}

impl Model for GraphPullRequestsJson {
    fn same(&self, other: &Self) -> (r: bool) {
        self.nodes.same(&other.nodes)
    }

    fn dup(&self) -> (r: Self) {
        GraphPullRequestsJson {
            nodes: self.nodes.dup(),
        }
    }
}

impl Decode for GraphPullRequestsJson {
    open spec fn decoded(tree: Json) -> Option<GraphPullRequestsJsonView> {
        let nodes = json::member::<Vec<GraphPullRequestJson>>(tree, "nodes"@);
        if tree.is_object() && nodes is Some {
            Some(GraphPullRequestsJsonView { nodes: nodes->0 })
        } else {
            None
        }
    }

    fn decode(value: &serde_json::Value) -> (r: Option<Self>) {
        if !value.is_object() {
            return None;
        }
        let nodes = read_member::<Vec<GraphPullRequestJson>>(value, "nodes")?;
        Some(GraphPullRequestsJson { nodes })
    }
}

/// A commit of a history.
#[derive(Debug, PartialEq, Eq)]
pub struct GraphHistoryCommitJson {
    pub oid: String,
    pub committed_date: String,
    pub author: Option<GraphAuthorJson>,
    pub associated_pull_requests: GraphPullRequestsJson,
}

/// The content of a [`GraphHistoryCommitJson`].
#[verifier::ext_equal]
pub struct GraphHistoryCommitJsonView {
    pub oid: Seq<char>,
    pub committed_date: Seq<char>,
    pub author: Option<GraphAuthorJsonView>,
    pub associated_pull_requests: GraphPullRequestsJsonView,
}

impl DeepView for GraphHistoryCommitJson {
    type V = GraphHistoryCommitJsonView;

    open spec fn deep_view(&self) -> GraphHistoryCommitJsonView {
        GraphHistoryCommitJsonView {
            oid: self.oid.deep_view(),
            committed_date: self.committed_date.deep_view(),
            author: self.author.deep_view(),
            associated_pull_requests: self.associated_pull_requests.deep_view(),
        }
    }
}

impl Clone for GraphHistoryCommitJson {
    fn clone(&self) -> (r: Self)
        ensures
            r.deep_view() == self.deep_view(),
    {
        self.dup()
    }
}

impl Model for GraphHistoryCommitJson {
    fn same(&self, other: &Self) -> (r: bool) {
        self.oid.same(&other.oid)
            && self.committed_date.same(&other.committed_date)
            && self.author.same(&other.author)
            && self.associated_pull_requests.same(&other.associated_pull_requests)
    }

    fn dup(&self) -> (r: Self) {
        GraphHistoryCommitJson {
            oid: self.oid.dup(),
            committed_date: self.committed_date.dup(),
            author: self.author.dup(),
            associated_pull_requests: self.associated_pull_requests.dup(),
        }
    }
}

impl Decode for GraphHistoryCommitJson {
    open spec fn decoded(tree: Json) -> Option<GraphHistoryCommitJsonView> {
        let oid = json::member::<String>(tree, "oid"@);
        let committed_date = json::member::<String>(tree, "committedDate"@);
        let author = json::member::<Option<GraphAuthorJson>>(tree, "author"@);
        let associated_pull_requests = json::member::<GraphPullRequestsJson>(
            tree,
            "associatedPullRequests"@,
        );
        if tree.is_object() && oid is Some && committed_date is Some && author is Some
            && associated_pull_requests is Some {
            Some(GraphHistoryCommitJsonView {
                oid: oid->0,
                committed_date: committed_date->0,
                author: author->0,
                associated_pull_requests: associated_pull_requests->0,
            })
        } else {
            None
        }
    }

    fn decode(value: &serde_json::Value) -> (r: Option<Self>) {
        if !value.is_object() {
            return None;
        }
        let oid = read_member::<String>(value, "oid")?;
        let committed_date = read_member::<String>(value, "committedDate")?;
        let author = read_member::<Option<GraphAuthorJson>>(value, "author")?;
        let associated_pull_requests = read_member::<GraphPullRequestsJson>(
            value,
            "associatedPullRequests",
        )?;
        Some(GraphHistoryCommitJson { oid, committed_date, author, associated_pull_requests })
    }
}

/// A history.
#[derive(Debug, PartialEq, Eq)]
pub struct GraphHistoryJson {
    pub nodes: Vec<GraphHistoryCommitJson>,
}

/// The content of a [`GraphHistoryJson`].
#[verifier::ext_equal]
pub struct GraphHistoryJsonView {
    pub nodes: Seq<GraphHistoryCommitJsonView>,
}

impl DeepView for GraphHistoryJson {
    type V = GraphHistoryJsonView;

    open spec fn deep_view(&self) -> GraphHistoryJsonView {
        GraphHistoryJsonView {
            nodes: self.nodes.deep_view(),
        }
    }
}

impl Clone for GraphHistoryJson {
    fn clone(&self) -> (r: Self)
        ensures
            r.deep_view() == self.deep_view(),
    {
        self.dup()
    }
}

impl Model for GraphHistoryJson {
    fn same(&self, other: &Self) -> (r: bool) {
        self.nodes.same(&other.nodes)
    }

    fn dup(&self) -> (r: Self) {
        GraphHistoryJson {
            nodes: self.nodes.dup(),
        }
    }
}

impl Decode for GraphHistoryJson {
    open spec fn decoded(tree: Json) -> Option<GraphHistoryJsonView> {
        let nodes = json::member::<Vec<GraphHistoryCommitJson>>(tree, "nodes"@);
        if tree.is_object() && nodes is Some {
            Some(GraphHistoryJsonView { nodes: nodes->0 })
        } else {
            None
        }
    }

    fn decode(value: &serde_json::Value) -> (r: Option<Self>) {
        if !value.is_object() {
            return None;
        }
        let nodes = read_member::<Vec<GraphHistoryCommitJson>>(value, "nodes")?;
        Some(GraphHistoryJson { nodes })
    }
}

/// The target of a branch.
#[derive(Debug, PartialEq, Eq)]
pub struct GraphHistoryTargetJson {
    pub history: GraphHistoryJson,
}

/// The content of a [`GraphHistoryTargetJson`].
#[verifier::ext_equal]
pub struct GraphHistoryTargetJsonView {
    pub history: GraphHistoryJsonView,
}

impl DeepView for GraphHistoryTargetJson {
    type V = GraphHistoryTargetJsonView;

    open spec fn deep_view(&self) -> GraphHistoryTargetJsonView {
        GraphHistoryTargetJsonView {
            history: self.history.deep_view(),
        }
    }
}

impl Clone for GraphHistoryTargetJson {
    fn clone(&self) -> (r: Self)
        ensures
            r.deep_view() == self.deep_view(),
    {
        self.dup()
    }
}

impl Model for GraphHistoryTargetJson {
    fn same(&self, other: &Self) -> (r: bool) {
        self.history.same(&other.history)
    }

    fn dup(&self) -> (r: Self) {
        GraphHistoryTargetJson {
            history: self.history.dup(),
        }
    }
}

impl Decode for GraphHistoryTargetJson {
    open spec fn decoded(tree: Json) -> Option<GraphHistoryTargetJsonView> {
        let history = json::member::<GraphHistoryJson>(tree, "history"@);
        if tree.is_object() && history is Some {
            Some(GraphHistoryTargetJsonView { history: history->0 })
        } else {
            None
        }
    }

    fn decode(value: &serde_json::Value) -> (r: Option<Self>) {
        if !value.is_object() {
            return None;
        }
        let history = read_member::<GraphHistoryJson>(value, "history")?;
        Some(GraphHistoryTargetJson { history })
    }
}

/// The default branch.
#[derive(Debug, PartialEq, Eq)]
pub struct GraphDefaultBranchRefJson {
    pub target: GraphHistoryTargetJson,
}

/// The content of a [`GraphDefaultBranchRefJson`].
#[verifier::ext_equal]
pub struct GraphDefaultBranchRefJsonView {
    pub target: GraphHistoryTargetJsonView,
}

impl DeepView for GraphDefaultBranchRefJson {
    type V = GraphDefaultBranchRefJsonView;

    open spec fn deep_view(&self) -> GraphDefaultBranchRefJsonView {
        GraphDefaultBranchRefJsonView {
            target: self.target.deep_view(),
        }
    }
}

impl Clone for GraphDefaultBranchRefJson {
    fn clone(&self) -> (r: Self)
        ensures
            r.deep_view() == self.deep_view(),
    {
        self.dup()
    }
}

impl Model for GraphDefaultBranchRefJson {
    fn same(&self, other: &Self) -> (r: bool) {
        self.target.same(&other.target)
    }

    fn dup(&self) -> (r: Self) {
        GraphDefaultBranchRefJson {
            target: self.target.dup(),
        }
    }
}

impl Decode for GraphDefaultBranchRefJson {
    open spec fn decoded(tree: Json) -> Option<GraphDefaultBranchRefJsonView> {
        let target = json::member::<GraphHistoryTargetJson>(tree, "target"@);
        if tree.is_object() && target is Some {
            Some(GraphDefaultBranchRefJsonView { target: target->0 })
        } else {
            None
        }
    }

    fn decode(value: &serde_json::Value) -> (r: Option<Self>) {
        if !value.is_object() {
            return None;
        }
        let target = read_member::<GraphHistoryTargetJson>(value, "target")?;
        Some(GraphDefaultBranchRefJson { target })
    }
}

/// The default branch, and commits under the keys that were asked for.
#[derive(Debug, PartialEq, Eq)]
pub struct MergeCandidatesRepository {
    pub default_branch_ref: Option<GraphDefaultBranchRefJson>,
    pub candidates: Vec<(String, Option<GraphCommitJson>)>,
}

/// The content of a [`MergeCandidatesRepository`].
#[verifier::ext_equal]
pub struct MergeCandidatesRepositoryView {
    pub default_branch_ref: Option<GraphDefaultBranchRefJsonView>,
    pub candidates: Seq<(Seq<char>, Option<GraphCommitJsonView>)>,
}

impl DeepView for MergeCandidatesRepository {
    type V = MergeCandidatesRepositoryView;

    open spec fn deep_view(&self) -> MergeCandidatesRepositoryView {
        MergeCandidatesRepositoryView {
            default_branch_ref: self.default_branch_ref.deep_view(),
            candidates: self.candidates.deep_view(),
        }
    }
}

impl Clone for MergeCandidatesRepository {
    fn clone(&self) -> (r: Self)
        ensures
            r.deep_view() == self.deep_view(),
    {
        self.dup()
    }
}

impl Model for MergeCandidatesRepository {
    fn same(&self, other: &Self) -> (r: bool) {
        self.default_branch_ref.same(&other.default_branch_ref)
            && self.candidates.same(&other.candidates)
    }

    fn dup(&self) -> (r: Self) {
        MergeCandidatesRepository {
            default_branch_ref: self.default_branch_ref.dup(),
            candidates: self.candidates.dup(),
        }
    }
}

impl Decode for MergeCandidatesRepository {
    open spec fn decoded(tree: Json) -> Option<MergeCandidatesRepositoryView> {
        let default_branch_ref = json::member::<Option<GraphDefaultBranchRefJson>>(
            tree,
            "defaultBranchRef"@,
        );
        let candidates = json::other_members::<Option<GraphCommitJson>>(
            tree,
            Some("defaultBranchRef"@),
        );
        if tree.is_object() && default_branch_ref is Some && candidates is Some {
            Some(
                MergeCandidatesRepositoryView {
                    default_branch_ref: default_branch_ref->0,
                    candidates: candidates->0,
                },
            )
        } else {
            None
        }
    }

    fn decode(value: &serde_json::Value) -> (r: Option<Self>) {
        if !value.is_object() {
            return None;
        }
        let default_branch_ref = read_member::<Option<GraphDefaultBranchRefJson>>(
            value,
            "defaultBranchRef",
        )?;
        let candidates = read_other_members::<Option<GraphCommitJson>>(
            value,
            Some("defaultBranchRef"),
        )?;
        Some(MergeCandidatesRepository { default_branch_ref, candidates })
    }
}

/// The data of a response.
#[derive(Debug, PartialEq, Eq)]
pub struct MergeCandidatesData {
    pub repository: MergeCandidatesRepository,
}

/// The content of a [`MergeCandidatesData`].
#[verifier::ext_equal]
pub struct MergeCandidatesDataView {
    pub repository: MergeCandidatesRepositoryView,
}

impl DeepView for MergeCandidatesData {
    type V = MergeCandidatesDataView;

    open spec fn deep_view(&self) -> MergeCandidatesDataView {
        MergeCandidatesDataView {
            repository: self.repository.deep_view(),
        }
    }
}

impl Clone for MergeCandidatesData {
    fn clone(&self) -> (r: Self)
        ensures
            r.deep_view() == self.deep_view(),
    {
        self.dup()
    }
}

impl Model for MergeCandidatesData {
    fn same(&self, other: &Self) -> (r: bool) {
        self.repository.same(&other.repository)
    }

    fn dup(&self) -> (r: Self) {
        MergeCandidatesData {
            repository: self.repository.dup(),
        }
    }
}

impl Decode for MergeCandidatesData {
    open spec fn decoded(tree: Json) -> Option<MergeCandidatesDataView> {
        let repository = json::member::<MergeCandidatesRepository>(tree, "repository"@);
        if tree.is_object() && repository is Some {
            Some(MergeCandidatesDataView { repository: repository->0 })
        } else {
            None
        }
    }

    fn decode(value: &serde_json::Value) -> (r: Option<Self>) {
        if !value.is_object() {
            return None;
        }
        let repository = read_member::<MergeCandidatesRepository>(value, "repository")?;
        Some(MergeCandidatesData { repository })
    }
}

/// A response.
#[derive(Debug, PartialEq, Eq)]
pub struct MergeCandidatesResponse {
    pub data: MergeCandidatesData,
}

/// The content of a [`MergeCandidatesResponse`].
#[verifier::ext_equal]
pub struct MergeCandidatesResponseView {
    pub data: MergeCandidatesDataView,
}

impl DeepView for MergeCandidatesResponse {
    type V = MergeCandidatesResponseView;

    open spec fn deep_view(&self) -> MergeCandidatesResponseView {
        MergeCandidatesResponseView {
            data: self.data.deep_view(),
        }
    }
}

impl Clone for MergeCandidatesResponse {
    fn clone(&self) -> (r: Self)
        ensures
            r.deep_view() == self.deep_view(),
    {
        self.dup()
    }
}

impl Model for MergeCandidatesResponse {
    fn same(&self, other: &Self) -> (r: bool) {
        self.data.same(&other.data)
    }

    fn dup(&self) -> (r: Self) {
        MergeCandidatesResponse {
            data: self.data.dup(),
        }
    }
}

impl Decode for MergeCandidatesResponse {
    open spec fn decoded(tree: Json) -> Option<MergeCandidatesResponseView> {
        let data = json::member::<MergeCandidatesData>(tree, "data"@);
        if tree.is_object() && data is Some {
            Some(MergeCandidatesResponseView { data: data->0 })
        } else {
            None
        }
    }

    fn decode(value: &serde_json::Value) -> (r: Option<Self>) {
        if !value.is_object() {
            return None;
        }
        let data = read_member::<MergeCandidatesData>(value, "data")?;
        Some(MergeCandidatesResponse { data })
    }
}

// ---------------------------------------------------------------------------
// The query
// ---------------------------------------------------------------------------

/// The part of the query for one pull request.
pub open spec fn candidate_part(index: nat, number: PrNumber) -> Seq<char> {
    "c"@ + text::decimal(index) + ": object(expression:\"refs/pull/"@ + model::pr_text(number)
        + "/merge\") { ... on Commit { oid tree { oid } parents(first: 2) { nodes { oid } } } }"@
}

/// The parts of the query for pull requests.
pub open spec fn candidate_parts(prs: Seq<PullRequestSnapshotView>) -> Seq<Seq<char>> {
    Seq::new(prs.len(), |i: int| candidate_part(i as nat, prs[i].number))
}

/// The merge candidates of pull requests, and the last commits of the default
/// branch.
pub open spec fn merge_candidates(
    repository: RepositoryIdView,
    prs: Seq<PullRequestSnapshotView>,
) -> CommandSpecView {
    command::gh(
        seq![
            "api"@,
            "graphql"@,
            "-f"@,
            "query=query($owner:String!,$name:String!) { rateLimit { cost remaining resetAt } repository(owner:$owner,name:$name) { "@
                + text::joined(candidate_parts(prs), " "@)
                + " defaultBranchRef { target { ... on Commit { history(first:20) { nodes { oid committedDate author { name user { login } } associatedPullRequests(first:5) { nodes { number labels(first:20) { nodes { name } } } } } } } } } } }"@,
            "-F"@,
            "owner="@ + repository.owner,
            "-F"@,
            "name="@ + repository.name,
        ],
    )
}

pub fn merge_candidates_command(
    repository: &RepositoryId,
    pull_requests: &Vec<PullRequestSnapshot>,
) -> (r: CommandSpec)
    ensures
        r.deep_view() == merge_candidates(repository.deep_view(), pull_requests.deep_view()),
{
    let ghost all = pull_requests.deep_view();
    let mut parts: Vec<String> = Vec::new();
    let mut i: usize = 0;
    while i < pull_requests.len()
        invariant
            all == pull_requests.deep_view(),
            i <= pull_requests.len(),
            parts.deep_view() == candidate_parts(all).take(i as int),
        decreases pull_requests.len() - i,
    {
        assert(all[i as int] == pull_requests[i as int].deep_view());
        push_item(
            &mut parts,
            "c".to_owned().concat(decimal_text(i as u64).as_str()).concat(
                ": object(expression:\"refs/pull/",
            ).concat(pull_requests[i].number.to_text().as_str()).concat(
                "/merge\") { ... on Commit { oid tree { oid } parents(first: 2) { nodes { oid } } } }",
            ),
        );
        i = i + 1;
        assert(parts.deep_view() =~= candidate_parts(all).take(i as int));
    }
    assert(parts.deep_view() =~= candidate_parts(all));
    let query =
        "query=query($owner:String!,$name:String!) { rateLimit { cost remaining resetAt } repository(owner:$owner,name:$name) { ".to_owned().concat(
        join(&parts, " ").as_str(),
    ).concat(
        " defaultBranchRef { target { ... on Commit { history(first:20) { nodes { oid committedDate author { name user { login } } associatedPullRequests(first:5) { nodes { number labels(first:20) { nodes { name } } } } } } } } } } }",
    );
    let owner = "owner=".to_owned().concat(repository.owner.as_str());
    let name = "name=".to_owned().concat(repository.name.as_str());
    let args = vec![
        "api",
        "graphql",
        "-f",
        query.as_str(),
        "-F",
        owner.as_str(),
        "-F",
        name.as_str(),
    ];
    assert(args.deep_view() =~= merge_candidates(repository.deep_view(), all).args);
    CommandSpec::gh(args)
}

// ---------------------------------------------------------------------------
// Freshness
// ---------------------------------------------------------------------------

/// How a candidate relates to the current tips.
pub ghost struct Judgement {
    pub freshness: MergeCandidateFreshness,
    pub compared_base: BranchSnapshotView,
    pub stale_base: bool,
    pub stale_head: bool,
    pub reasons: Seq<Seq<char>>,
}

/// The generation of the base that a candidate must stand on: the live tip of
/// the default branch where the base is that branch, else the recorded base.
pub open spec fn compared(
    base: BranchSnapshotView,
    default_branch: Option<BranchSnapshotView>,
) -> BranchSnapshotView {
    match default_branch {
        Some(live) => if live.name == base.name && live.repository == base.repository {
            live
        } else {
            base
        },
        None => base,
    }
}

/// One reason, if it stands.
pub open spec fn reason(stands: bool, words: Seq<char>) -> Seq<Seq<char>> {
    if stands {
        seq![words]
    } else {
        Seq::empty()
    }
}

/// Why the recorded base is superseded.
pub open spec fn superseded_words(base: BranchSnapshotView, live: BranchSnapshotView) -> Seq<char> {
    "recorded pull-request base "@ + base.oid + " is superseded by the current "@ + live.name
        + " tip "@ + live.oid
}

/// How a candidate relates to the current tips. A pull request on the default
/// branch is compared with the live tip, never with its recorded base.
pub open spec fn judged(
    candidate: Option<SyntheticMergeCandidateView>,
    base: BranchSnapshotView,
    head: Seq<char>,
    default_branch: Option<BranchSnapshotView>,
) -> Judgement {
    let live = compared(base, default_branch);
    let superseded = live.oid != base.oid;
    let first = reason(superseded, superseded_words(base, live));
    match candidate {
        None => Judgement {
            freshness: MergeCandidateFreshness::Missing,
            compared_base: live,
            stale_base: superseded,
            stale_head: false,
            reasons: first.push("synthetic merge ref is unavailable"@),
        },
        Some(merge) => if merge.parents.len() != 2 {
            Judgement {
                freshness: MergeCandidateFreshness::Unknown,
                compared_base: live,
                stale_base: superseded,
                stale_head: false,
                reasons: first.push(
                    "synthetic candidate has "@ + text::decimal(merge.parents.len())
                        + " parents; expected 2"@,
                ),
            }
        } else {
            let off_base = merge.parents[0] != live.oid;
            let off_head = merge.parents[1] != head;
            Judgement {
                freshness: if off_head {
                    MergeCandidateFreshness::StaleHead
                } else if superseded || off_base {
                    MergeCandidateFreshness::StaleBase
                } else {
                    MergeCandidateFreshness::Fresh
                },
                compared_base: live,
                stale_base: superseded || off_base,
                stale_head: off_head,
                reasons: first + reason(
                    off_base,
                    "first parent "@ + merge.parents[0] + " does not match current base "@
                        + live.oid,
                ) + reason(
                    off_head,
                    "second parent "@ + merge.parents[1] + " does not match current head "@ + head,
                ),
            }
        },
    }
}

fn note(out: &mut Vec<String>, stands: bool, words: String)
    ensures
        final(out).deep_view() == old(out).deep_view() + reason(stands, words@),
{
    if stands {
        push_item(out, words);
    }
    assert(out.deep_view() =~= old(out).deep_view() + reason(stands, words@));
}

/// How a candidate relates to the current tips.
pub fn classify_candidate(
    candidate: Option<&SyntheticMergeCandidate>,
    base: &BranchSnapshot,
    head: &CommitOid,
    default_branch: Option<&BranchSnapshot>,
) -> (r: (MergeCandidateFreshness, Option<BranchSnapshot>, bool, bool, Vec<String>))
    ensures
        ({
            let expected = judged(
                candidate.deep_view(),
                base.deep_view(),
                head.deep_view(),
                default_branch.deep_view(),
            );
            r.0 == expected.freshness && r.1.deep_view() == Some(expected.compared_base) && r.2
                == expected.stale_base && r.3 == expected.stale_head && r.4.deep_view()
                == expected.reasons
        }),
{
    let ghost expected = judged(
        candidate.deep_view(),
        base.deep_view(),
        head.deep_view(),
        default_branch.deep_view(),
    );
    let live = match default_branch {
        Some(known) => if known.name.same(&base.name) && known.repository.same(&base.repository) {
            known.dup()
        } else {
            base.dup()
        },
        None => base.dup(),
    };
    let superseded = !live.oid.same(&base.oid);
    let mut reasons: Vec<String> = Vec::new();
    let words = "recorded pull-request base ".to_owned().concat(base.oid.0.as_str()).concat(
        " is superseded by the current ",
    ).concat(live.name.as_str()).concat(" tip ").concat(live.oid.0.as_str());
    note(&mut reasons, superseded, words);
    let ghost first = reason(
        superseded,
        superseded_words(base.deep_view(), live.deep_view()),
    );
    assert(reasons.deep_view() =~= first);
    let merge = match candidate {
        None => {
            push_item(&mut reasons, "synthetic merge ref is unavailable".to_owned());
            return (MergeCandidateFreshness::Missing, Some(live), superseded, false, reasons);
        },
        Some(merge) => merge,
    };
    let count = merge.parents.len();
    if count != 2 {
        push_item(
            &mut reasons,
            "synthetic candidate has ".to_owned().concat(
                decimal_text(count as u64).as_str(),
            ).concat(" parents; expected 2"),
        );
        return (MergeCandidateFreshness::Unknown, Some(live), superseded, false, reasons);
    }
    assert(merge.deep_view().parents[0] == merge.parents[0].deep_view());
    assert(merge.deep_view().parents[1] == merge.parents[1].deep_view());
    let off_base = !merge.parents[0].same(&live.oid);
    let off_head = !merge.parents[1].same(head);
    let base_words = "first parent ".to_owned().concat(merge.parents[0].0.as_str()).concat(
        " does not match current base ",
    ).concat(live.oid.0.as_str());
    note(&mut reasons, off_base, base_words);
    let head_words = "second parent ".to_owned().concat(merge.parents[1].0.as_str()).concat(
        " does not match current head ",
    ).concat(head.0.as_str());
    note(&mut reasons, off_head, head_words);
    assert(reasons.deep_view() =~= expected.reasons);
    let freshness = if off_head {
        MergeCandidateFreshness::StaleHead
    } else if superseded || off_base {
        MergeCandidateFreshness::StaleBase
    } else {
        MergeCandidateFreshness::Fresh
    };
    (freshness, Some(live), superseded || off_base, off_head, reasons)
}

/// A candidate is fresh exactly if its two parents are the live base and the
/// head, and the recorded base is that live base. So a base that is superseded
/// never counts as fresh, and only a fresh candidate has no reason against it.
pub proof fn lemma_fresh_is_exact(
    candidate: Option<SyntheticMergeCandidateView>,
    base: BranchSnapshotView,
    head: Seq<char>,
    default_branch: Option<BranchSnapshotView>,
)
    ensures
        judged(candidate, base, head, default_branch).freshness == MergeCandidateFreshness::Fresh
            <==> candidate is Some && candidate->0.parents.len() == 2 && candidate->0.parents[0]
            == compared(base, default_branch).oid && candidate->0.parents[1] == head && base.oid
            == compared(base, default_branch).oid,
        judged(candidate, base, head, default_branch).freshness == MergeCandidateFreshness::Fresh
            <==> judged(candidate, base, head, default_branch).reasons.len() == 0,
{
}

// ---------------------------------------------------------------------------
// Identities
// ---------------------------------------------------------------------------

/// The commit under a key.
pub open spec fn commit_under(
    rows: Seq<(Seq<char>, Option<GraphCommitJsonView>)>,
    key: Seq<char>,
) -> Option<GraphCommitJsonView>
    decreases rows.len(),
{
    if rows.len() == 0 {
        None
    } else if rows.last().0 == key {
        rows.last().1
    } else {
        commit_under(rows.drop_last(), key)
    }
}

fn find_commit<'a>(rows: &'a Vec<(String, Option<GraphCommitJson>)>, key: &str) -> (r: Option<
    &'a GraphCommitJson,
>)
    ensures
        match r {
            Some(commit) => commit_under(rows.deep_view(), key@) == Some(commit.deep_view()),
            None => commit_under(rows.deep_view(), key@) is None,
        },
{
    let ghost all = rows.deep_view();
    let mut i: usize = rows.len();
    assert(all.take(i as int) =~= all);
    while i > 0
        invariant
            all == rows.deep_view(),
            i <= rows.len(),
            commit_under(all, key@) == commit_under(all.take(i as int), key@),
        decreases i,
    {
        assert(all.take(i as int).drop_last() =~= all.take(i - 1));
        assert(all.take(i as int).last() == rows[i - 1].deep_view());
        if text_eq(rows[i - 1].0.as_str(), key) {
            return match &rows[i - 1].1 {
                Some(commit) => Some(commit),
                None => None,
            };
        }
        i = i - 1;
    }
    None
}

/// The names of objects.
pub open spec fn object_names(nodes: Seq<GraphOidJsonView>) -> Seq<Seq<char>> {
    Seq::new(nodes.len(), |i: int| nodes[i].oid)
}

fn list_objects(nodes: &Vec<GraphOidJson>) -> (r: Vec<CommitOid>)
    ensures
        r.deep_view() == object_names(nodes.deep_view()),
{
    let ghost all = nodes.deep_view();
    let mut out: Vec<CommitOid> = Vec::new();
    let mut i: usize = 0;
    while i < nodes.len()
        invariant
            all == nodes.deep_view(),
            i <= nodes.len(),
            out.deep_view() == object_names(all).take(i as int),
        decreases nodes.len() - i,
    {
        assert(all[i as int] == nodes[i as int].deep_view());
        push_item(&mut out, CommitOid(nodes[i].oid.dup()));
        i = i + 1;
        assert(out.deep_view() =~= object_names(all).take(i as int));
    }
    assert(out.deep_view() =~= object_names(all));
    out
}

/// The merge candidate of a pull request.
pub open spec fn synthetic_of(number: PrNumber, commit: GraphCommitJsonView) ->
    SyntheticMergeCandidateView {
    SyntheticMergeCandidateView {
        git_ref: "refs/pull/"@ + model::pr_text(number) + "/merge"@,
        oid: commit.oid,
        tree_oid: commit.tree.oid,
        parents: object_names(commit.parents.nodes),
    }
}

/// The key of the part of the query for one pull request.
pub open spec fn candidate_key(index: nat) -> Seq<char> {
    "c"@ + text::decimal(index)
}

/// A pull request with its merge candidate.
pub open spec fn identity_of(
    pr: PullRequestSnapshotView,
    commit: Option<GraphCommitJsonView>,
    observed_at: Seq<char>,
    default_branch: Option<BranchSnapshotView>,
) -> MergeCandidateIdentityView {
    let synthetic = match commit {
        Some(found) => Some(synthetic_of(pr.number, found)),
        None => None,
    };
    let judgement = judged(synthetic, pr.base, pr.head.oid, default_branch);
    MergeCandidateIdentityView {
        pr: pr.number,
        provider_updated_at: match pr.updated_at {
            Some(updated) => updated,
            None => Seq::empty(),
        },
        observed_at,
        base: pr.base,
        head: pr.head,
        synthetic,
        auto_merge: NativeAutoMergeStateView {
            enabled: pr.auto_merge.enabled,
            merge_method: pr.auto_merge.merge_method,
            actor: pr.auto_merge.actor,
        },
        freshness: judgement.freshness,
        compared_base: Some(judgement.compared_base),
        stale_base: judgement.stale_base,
        stale_head: judgement.stale_head,
        stale_reasons: judgement.reasons,
    }
}

fn make_identity(
    pr: &PullRequestSnapshot,
    commit: Option<&GraphCommitJson>,
    observed_at: &str,
    default_branch: Option<&BranchSnapshot>,
) -> (r: MergeCandidateIdentity)
    ensures
        r.deep_view() == identity_of(
            pr.deep_view(),
            commit.deep_view(),
            observed_at@,
            default_branch.deep_view(),
        ),
{
    let synthetic = match commit {
        Some(found) => Some(
            SyntheticMergeCandidate {
                git_ref: "refs/pull/".to_owned().concat(pr.number.to_text().as_str()).concat(
                    "/merge",
                ),
                oid: CommitOid(found.oid.dup()),
                tree_oid: CommitOid(found.tree.oid.dup()),
                parents: list_objects(&found.parents.nodes),
            },
        ),
        None => None,
    };
    let provider_updated_at = match &pr.updated_at {
        Some(updated) => updated.dup(),
        None => String::new(),
    };
    assert(pr.updated_at is None ==> provider_updated_at@ =~= Seq::empty());
    let known = match &synthetic {
        Some(merge) => Some(merge),
        None => None,
    };
    let (freshness, compared_base, stale_base, stale_head, stale_reasons) = classify_candidate(
        known,
        &pr.base,
        &pr.head.oid,
        default_branch,
    );
    MergeCandidateIdentity {
        pr: pr.number,
        provider_updated_at,
        observed_at: observed_at.to_owned(),
        base: pr.base.dup(),
        head: pr.head.dup(),
        synthetic,
        auto_merge: NativeAutoMergeState {
            enabled: pr.auto_merge.enabled,
            merge_method: pr.auto_merge.merge_method.dup(),
            actor: pr.auto_merge.actor.dup(),
        },
        freshness,
        compared_base,
        stale_base,
        stale_head,
        stale_reasons,
    }
}

/// Pull requests with their merge candidates.
pub open spec fn identities_of(
    prs: Seq<PullRequestSnapshotView>,
    rows: Seq<(Seq<char>, Option<GraphCommitJsonView>)>,
    observed_at: Seq<char>,
    default_branch: Option<BranchSnapshotView>,
) -> Seq<MergeCandidateIdentityView> {
    Seq::new(
        prs.len(),
        |i: int|
            identity_of(
                prs[i],
                commit_under(rows, candidate_key(i as nat)),
                observed_at,
                default_branch,
            ),
    )
}

/// Pull requests with their merge candidates.
pub fn list_identities(
    prs: &Vec<PullRequestSnapshot>,
    rows: &Vec<(String, Option<GraphCommitJson>)>,
    observed_at: &str,
    default_branch: Option<&BranchSnapshot>,
) -> (r: Vec<MergeCandidateIdentity>)
    ensures
        r.deep_view() == identities_of(
            prs.deep_view(),
            rows.deep_view(),
            observed_at@,
            default_branch.deep_view(),
        ),
{
    let ghost all = prs.deep_view();
    let ghost whole = identities_of(
        all,
        rows.deep_view(),
        observed_at@,
        default_branch.deep_view(),
    );
    let mut out: Vec<MergeCandidateIdentity> = Vec::new();
    let mut i: usize = 0;
    while i < prs.len()
        invariant
            all == prs.deep_view(),
            whole == identities_of(
                all,
                rows.deep_view(),
                observed_at@,
                default_branch.deep_view(),
            ),
            i <= prs.len(),
            out.deep_view() == whole.take(i as int),
        decreases prs.len() - i,
    {
        assert(all[i as int] == prs[i as int].deep_view());
        let key = "c".to_owned().concat(decimal_text(i as u64).as_str());
        let commit = find_commit(rows, key.as_str());
        push_item(&mut out, make_identity(&prs[i], commit, observed_at, default_branch));
        i = i + 1;
        assert(out.deep_view() =~= whole.take(i as int));
    }
    assert(out.deep_view() =~= whole);
    out
}

// ---------------------------------------------------------------------------
// Movements
// ---------------------------------------------------------------------------

/// Whether a label stands among labels.
pub open spec fn labelled(nodes: Seq<LabelJsonView>, name: Seq<char>) -> bool {
    exists|i: int| 0 <= i < nodes.len() && (#[trigger] nodes[i]).name == name
}

fn has_name(nodes: &Vec<LabelJson>, name: &str) -> (r: bool)
    ensures
        r == labelled(nodes.deep_view(), name@),
{
    let ghost all = nodes.deep_view();
    let mut i: usize = 0;
    while i < nodes.len()
        invariant
            all == nodes.deep_view(),
            i <= nodes.len(),
            forall|j: int| 0 <= j < i ==> (#[trigger] all[j]).name != name@,
        decreases nodes.len() - i,
    {
        assert(all[i as int] == nodes[i as int].deep_view());
        if text_eq(nodes[i].name.as_str(), name) {
            return true;
        }
        i = i + 1;
    }
    false
}

/// Who made a commit: the user, or else the name of the author.
pub open spec fn actor_of(author: Option<GraphAuthorJsonView>) -> Option<Seq<char>> {
    match author {
        None => None,
        Some(known) => match known.user {
            Some(user) => Some(user.login),
            None => known.name,
        },
    }
}

/// One commit on the default branch. A label shows that a pull request was
/// queued, not who merged it: that stays unknown.
pub open spec fn movement_of(commit: GraphHistoryCommitJsonView) -> DefaultBranchMovementView {
    let sources = commit.associated_pull_requests.nodes;
    DefaultBranchMovementView {
        oid: commit.oid,
        timestamp: commit.committed_date,
        actor: actor_of(commit.author),
        source_pr: if sources.len() > 0 {
            Some(PrNumber(sources[0].number))
        } else {
            None
        },
        ownership: if sources.len() > 0 && labelled(sources[0].labels.nodes, "caravan"@) {
            MovementOwnership::Unknown
        } else {
            MovementOwnership::External
        },
    }
}

fn make_movement(commit: &GraphHistoryCommitJson) -> (r: DefaultBranchMovement)
    ensures
        r.deep_view() == movement_of(commit.deep_view()),
{
    let sources = &commit.associated_pull_requests.nodes;
    let actor = match &commit.author {
        None => None,
        Some(known) => match &known.user {
            Some(user) => Some(user.login.dup()),
            None => known.name.dup(),
        },
    };
    if sources.len() > 0 {
        assert(sources.deep_view()[0] == sources[0].deep_view());
    }
    let source_pr = if sources.len() > 0 {
        Some(PrNumber(sources[0].number))
    } else {
        None
    };
    let ownership = if sources.len() > 0 && has_name(&sources[0].labels.nodes, "caravan") {
        MovementOwnership::Unknown
    } else {
        MovementOwnership::External
    };
    DefaultBranchMovement {
        oid: CommitOid(commit.oid.dup()),
        timestamp: commit.committed_date.dup(),
        actor,
        source_pr,
        ownership,
    }
}

/// The commits on the default branch.
pub open spec fn movements_of(reference: Option<GraphDefaultBranchRefJsonView>) -> Seq<
    DefaultBranchMovementView,
> {
    match reference {
        None => Seq::empty(),
        Some(known) => {
            let nodes = known.target.history.nodes;
            Seq::new(nodes.len(), |i: int| movement_of(nodes[i]))
        },
    }
}

/// The commits on the default branch.
pub fn list_movements(reference: &Option<GraphDefaultBranchRefJson>) -> (r: Vec<
    DefaultBranchMovement,
>)
    ensures
        r.deep_view() == movements_of(reference.deep_view()),
{
    let ghost whole = movements_of(reference.deep_view());
    let mut out: Vec<DefaultBranchMovement> = Vec::new();
    match reference {
        None => {},
        Some(known) => {
            let nodes = &known.target.history.nodes;
            let ghost all = nodes.deep_view();
            let mut i: usize = 0;
            while i < nodes.len()
                invariant
                    all == nodes.deep_view(),
                    whole == Seq::new(all.len(), |i: int| movement_of(all[i])),
                    i <= nodes.len(),
                    out.deep_view() == whole.take(i as int),
                decreases nodes.len() - i,
            {
                assert(all[i as int] == nodes[i as int].deep_view());
                push_item(&mut out, make_movement(&nodes[i]));
                i = i + 1;
                assert(out.deep_view() =~= whole.take(i as int));
            }
        },
    }
    assert(out.deep_view() =~= whole);
    out
}

// ---------------------------------------------------------------------------
// Reading
// ---------------------------------------------------------------------------

/// Reading merge candidates and the commits on the default branch may end so.
pub open spec fn candidates_read<R: CommandRunner>(
    runner: R,
    repository: RepositoryIdView,
    prs: Seq<PullRequestSnapshotView>,
    observed_at: Seq<char>,
    default_branch: Option<BranchSnapshotView>,
    outcome: Result<
        (Seq<MergeCandidateIdentityView>, Seq<DefaultBranchMovementView>),
        DiscoveryErrorView,
    >,
) -> bool {
    exists|read: Result<MergeCandidatesResponseView, DiscoveryErrorView>| #[trigger]
        provider::fetched::<R, MergeCandidatesResponse>(
            runner,
            merge_candidates(repository, prs),
            read,
        ) && outcome == match read {
            Err(error) => Err(error),
            Ok(response) => Ok(
                (
                    identities_of(
                        prs,
                        response.data.repository.candidates,
                        observed_at,
                        default_branch,
                    ),
                    movements_of(response.data.repository.default_branch_ref),
                ),
            ),
        }
}

/// Reads merge candidates and the commits on the default branch.
pub fn merge_candidate_identities<R: CommandRunner>(
    runner: &R,
    repository: &RepositoryId,
    pull_requests: &Vec<PullRequestSnapshot>,
    observed_at: &str,
    default_branch: Option<&BranchSnapshot>,
) -> (r: Result<(Vec<MergeCandidateIdentity>, Vec<DefaultBranchMovement>), DiscoveryError>)
    requires
        runner.allows(merge_candidates(repository.deep_view(), pull_requests.deep_view())),
    ensures
        candidates_read(
            *runner,
            repository.deep_view(),
            pull_requests.deep_view(),
            observed_at@,
            default_branch.deep_view(),
            provider::read_view(r),
        ),
{
    let read = fetch::<R, MergeCandidatesResponse>(
        runner,
        &merge_candidates_command(repository, pull_requests),
    );
    assert(provider::fetched::<R, MergeCandidatesResponse>(
        *runner,
        merge_candidates(repository.deep_view(), pull_requests.deep_view()),
        provider::read_view(read),
    ));
    match read {
        Err(error) => Err(error),
        Ok(response) => {
            let found = &response.data.repository;
            let identities = list_identities(
                pull_requests,
                &found.candidates,
                observed_at,
                default_branch,
            );
            let movements = list_movements(&found.default_branch_ref);
            Ok((identities, movements))
        },
    }
}

} // verus!
