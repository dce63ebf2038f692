//! Plain values that go into and come out of provider operations.

use vstd::prelude::*;
use vstd::string::*;
use vstd::utf8;
use crate::github::raw;
use crate::github::raw::{
    unwrap_or_empty, CheckSuiteJson, CheckSuiteJsonView, HeadWorkflowRunJson,
    HeadWorkflowRunJsonView, NumberJson, NumberJsonView, RateLimitResourceJson,
    RateLimitResourceJsonView, RateLimitResponseJson, RateLimitResponseJsonView,
    WorkflowRunDetailsJson, WorkflowRunDetailsJsonView, WorkflowRunJson, WorkflowRunJsonView,
};
use crate::model;
use crate::model::{
    push_item, CommitOid, LabelSet, Model, PrNumber, PullRequestSnapshot, PullRequestSnapshotView,
};
use crate::required_runs::{
    CheckSuiteLineage, CheckSuiteLineageView, WorkflowRunLineage, WorkflowRunLineageView,
};
use crate::text;
use crate::text::{hex_text, join, starts_with, text_eq};

verus! {

/// Limits and label of one discovery pass.
#[derive(Debug, PartialEq, Eq)]
pub struct DiscoveryOptions {
    /// Label of active members.
    pub label: String,
    /// Most open pull requests to fetch.
    pub open_limit: usize,
    /// Most recently updated merged pull requests to fetch.
    pub merged_limit: usize,
    /// Whether one merged generation of the branch without the label is ancestry
    /// of a pull request that is about to be created.
    pub allow_unlabelled_historical_pr_creation: bool,
}

/// The content of a [`DiscoveryOptions`].
#[verifier::ext_equal]
pub struct DiscoveryOptionsView {
    pub label: Seq<char>,
    pub open_limit: usize,
    pub merged_limit: usize,
    pub allow_unlabelled_historical_pr_creation: bool,
}

impl DeepView for DiscoveryOptions {
    type V = DiscoveryOptionsView;

    open spec fn deep_view(&self) -> DiscoveryOptionsView {
        DiscoveryOptionsView {
            label: self.label.deep_view(),
            open_limit: self.open_limit.deep_view(),
            merged_limit: self.merged_limit.deep_view(),
            allow_unlabelled_historical_pr_creation: self.allow_unlabelled_historical_pr_creation.deep_view(),
        }
    }
}

impl Clone for DiscoveryOptions {
    fn clone(&self) -> (r: Self)
        ensures
            r.deep_view() == self.deep_view(),
    {
        self.dup()
    }
}

impl Model for DiscoveryOptions {
    fn same(&self, other: &Self) -> (r: bool) {
        self.label.same(&other.label)
            && self.open_limit.same(&other.open_limit)
            && self.merged_limit.same(&other.merged_limit)
            && self.allow_unlabelled_historical_pr_creation.same(
                &other.allow_unlabelled_historical_pr_creation,
            )
    }

    fn dup(&self) -> (r: Self) {
        DiscoveryOptions {
            label: self.label.dup(),
            open_limit: self.open_limit.dup(),
            merged_limit: self.merged_limit.dup(),
            allow_unlabelled_historical_pr_creation: self.allow_unlabelled_historical_pr_creation.dup(),
        }
    }
}

/// What a new pull request is made of.
#[derive(Debug, PartialEq, Eq)]
pub struct CreatePullRequestInput {
    /// Head branch, or `owner:branch`.
    pub head: String,
    pub base: String,
    pub draft: bool,
}

/// The content of a [`CreatePullRequestInput`].
#[verifier::ext_equal]
pub struct CreatePullRequestInputView {
    pub head: Seq<char>,
    pub base: Seq<char>,
    pub draft: bool,
}

impl DeepView for CreatePullRequestInput {
    type V = CreatePullRequestInputView;

    open spec fn deep_view(&self) -> CreatePullRequestInputView {
        CreatePullRequestInputView {
            head: self.head.deep_view(),
            base: self.base.deep_view(),
            draft: self.draft.deep_view(),
        }
    }
}

impl Clone for CreatePullRequestInput {
    fn clone(&self) -> (r: Self)
        ensures
            r.deep_view() == self.deep_view(),
    {
        self.dup()
    }
}

impl Model for CreatePullRequestInput {
    fn same(&self, other: &Self) -> (r: bool) {
        self.head.same(&other.head)
            && self.base.same(&other.base)
            && self.draft.same(&other.draft)
    }

    fn dup(&self) -> (r: Self) {
        CreatePullRequestInput {
            head: self.head.dup(),
            base: self.base.dup(),
            draft: self.draft.dup(),
        }
    }
}

/// One workflow run.
#[derive(Debug, PartialEq, Eq)]
pub struct WorkflowRunSnapshot {
    pub database_id: u64,
    /// Pull requests that the provider associates with the run, where it says so.
    pub pull_requests: Vec<PrNumber>,
    pub head_sha: String,
    pub status: String,
    pub conclusion: String,
    pub event: String,
    pub name: String,
    pub workflow_name: String,
    pub url: String,
}

/// The content of a [`WorkflowRunSnapshot`].
#[verifier::ext_equal]
pub struct WorkflowRunSnapshotView {
    pub database_id: u64,
    pub pull_requests: Seq<PrNumber>,
    pub head_sha: Seq<char>,
    pub status: Seq<char>,
    pub conclusion: Seq<char>,
    pub event: Seq<char>,
    pub name: Seq<char>,
    pub workflow_name: Seq<char>,
    pub url: Seq<char>,
}

impl DeepView for WorkflowRunSnapshot {
    type V = WorkflowRunSnapshotView;

    open spec fn deep_view(&self) -> WorkflowRunSnapshotView {
        WorkflowRunSnapshotView {
            database_id: self.database_id.deep_view(),
            pull_requests: self.pull_requests.deep_view(),
            head_sha: self.head_sha.deep_view(),
            status: self.status.deep_view(),
            conclusion: self.conclusion.deep_view(),
            event: self.event.deep_view(),
            name: self.name.deep_view(),
            workflow_name: self.workflow_name.deep_view(),
            url: self.url.deep_view(),
        }
    }
}

impl Clone for WorkflowRunSnapshot {
    fn clone(&self) -> (r: Self)
        ensures
            r.deep_view() == self.deep_view(),
    {
        self.dup()
    }
}

impl Model for WorkflowRunSnapshot {
    fn same(&self, other: &Self) -> (r: bool) {
        self.database_id.same(&other.database_id)
            && self.pull_requests.same(&other.pull_requests)
            && self.head_sha.same(&other.head_sha)
            && self.status.same(&other.status)
            && self.conclusion.same(&other.conclusion)
            && self.event.same(&other.event)
            && self.name.same(&other.name)
            && self.workflow_name.same(&other.workflow_name)
            && self.url.same(&other.url)
    }

    fn dup(&self) -> (r: Self) {
        WorkflowRunSnapshot {
            database_id: self.database_id.dup(),
            pull_requests: self.pull_requests.dup(),
            head_sha: self.head_sha.dup(),
            status: self.status.dup(),
            conclusion: self.conclusion.dup(),
            event: self.event.dup(),
            name: self.name.dup(),
            workflow_name: self.workflow_name.dup(),
            url: self.url.dup(),
        }
    }
}

/// The durable explanation of one control label transition.
#[derive(Debug, PartialEq, Eq)]
pub struct ControlLabelAudit {
    pub operation: String,
    pub marker: String,
    pub before_labels: LabelSet,
    pub after_labels: LabelSet,
    pub actor: String,
    pub reason: String,
    pub reason_source: String,
    pub compatibility_evidence: String,
    pub clean_squash_evidence: String,
    pub admission_priority_basis: String,
}

/// The content of a [`ControlLabelAudit`].
#[verifier::ext_equal]
pub struct ControlLabelAuditView {
    pub operation: Seq<char>,
    pub marker: Seq<char>,
    pub before_labels: Seq<Seq<char>>,
    pub after_labels: Seq<Seq<char>>,
    pub actor: Seq<char>,
    pub reason: Seq<char>,
    pub reason_source: Seq<char>,
    pub compatibility_evidence: Seq<char>,
    pub clean_squash_evidence: Seq<char>,
    pub admission_priority_basis: Seq<char>,
}

impl DeepView for ControlLabelAudit {
    type V = ControlLabelAuditView;

    open spec fn deep_view(&self) -> ControlLabelAuditView {
        ControlLabelAuditView {
            operation: self.operation.deep_view(),
            marker: self.marker.deep_view(),
            before_labels: self.before_labels.deep_view(),
            after_labels: self.after_labels.deep_view(),
            actor: self.actor.deep_view(),
            reason: self.reason.deep_view(),
            reason_source: self.reason_source.deep_view(),
            compatibility_evidence: self.compatibility_evidence.deep_view(),
            clean_squash_evidence: self.clean_squash_evidence.deep_view(),
            admission_priority_basis: self.admission_priority_basis.deep_view(),
        }
    }
}

impl Clone for ControlLabelAudit {
    fn clone(&self) -> (r: Self)
        ensures
            r.deep_view() == self.deep_view(),
    {
        self.dup()
    }
}

impl Model for ControlLabelAudit {
    fn same(&self, other: &Self) -> (r: bool) {
        self.operation.same(&other.operation)
            && self.marker.same(&other.marker)
            && self.before_labels.same(&other.before_labels)
            && self.after_labels.same(&other.after_labels)
            && self.actor.same(&other.actor)
            && self.reason.same(&other.reason)
            && self.reason_source.same(&other.reason_source)
            && self.compatibility_evidence.same(&other.compatibility_evidence)
            && self.clean_squash_evidence.same(&other.clean_squash_evidence)
            && self.admission_priority_basis.same(&other.admission_priority_basis)
    }

    fn dup(&self) -> (r: Self) {
        ControlLabelAudit {
            operation: self.operation.dup(),
            marker: self.marker.dup(),
            before_labels: self.before_labels.dup(),
            after_labels: self.after_labels.dup(),
            actor: self.actor.dup(),
            reason: self.reason.dup(),
            reason_source: self.reason_source.dup(),
            compatibility_evidence: self.compatibility_evidence.dup(),
            clean_squash_evidence: self.clean_squash_evidence.dup(),
            admission_priority_basis: self.admission_priority_basis.dup(),
        }
    }
}

/// One primitive provider operation.
#[derive(Debug, Clone, Copy, PartialEq, Eq, PartialOrd, Ord, Structural)]
pub enum MutationKind {
    CreatePullRequest,
    SetBase,
    Comment,
    AddLabel,
    RemoveLabel,
    EnableAutoMerge,
    DisableAutoMerge,
    ForceIntentTransaction,
    RerunChecks,
    RequestCheckSuite,
    SquashMerge,
}

impl DeepView for MutationKind {
    type V = MutationKind;

    open spec fn deep_view(&self) -> MutationKind {
        *self
    }
}

impl Model for MutationKind {
    fn same(&self, other: &Self) -> (r: bool) {
        *self == *other
    }

    fn dup(&self) -> (r: Self) {
        *self
    }
}

/// What one primitive operation found and left.
#[derive(Debug, PartialEq, Eq)]
pub struct GitHubMutationReceipt {
    pub kind: MutationKind,
    /// The facts just before the operation; none for a creation.
    pub before: Option<PullRequestSnapshot>,
    /// The facts read after the operation.
    pub after: PullRequestSnapshot,
    pub provider_output: Option<String>,
}

/// The content of a [`GitHubMutationReceipt`].
#[verifier::ext_equal]
pub struct GitHubMutationReceiptView {
    pub kind: MutationKind,
    pub before: Option<PullRequestSnapshotView>,
    pub after: PullRequestSnapshotView,
    pub provider_output: Option<Seq<char>>,
}

impl DeepView for GitHubMutationReceipt {
    type V = GitHubMutationReceiptView;

    open spec fn deep_view(&self) -> GitHubMutationReceiptView {
        GitHubMutationReceiptView {
            kind: self.kind.deep_view(),
            before: self.before.deep_view(),
            after: self.after.deep_view(),
            provider_output: self.provider_output.deep_view(),
        }
    }
}

impl Clone for GitHubMutationReceipt {
    fn clone(&self) -> (r: Self)
        ensures
            r.deep_view() == self.deep_view(),
    {
        self.dup()
    }
}

impl Model for GitHubMutationReceipt {
    fn same(&self, other: &Self) -> (r: bool) {
        self.kind.same(&other.kind)
            && self.before.same(&other.before)
            && self.after.same(&other.after)
            && self.provider_output.same(&other.provider_output)
    }

    fn dup(&self) -> (r: Self) {
        GitHubMutationReceipt {
            kind: self.kind.dup(),
            before: self.before.dup(),
            after: self.after.dup(),
            provider_output: self.provider_output.dup(),
        }
    }
}

/// Required checks and reviews of the default branch.
#[derive(Debug, PartialEq, Eq)]
pub struct DefaultBranchPolicy {
    pub required_status_checks: Vec<String>,
    pub strict_status_checks: bool,
    pub required_approving_review_count: u64,
}

/// The content of a [`DefaultBranchPolicy`].
#[verifier::ext_equal]
pub struct DefaultBranchPolicyView {
    pub required_status_checks: Seq<Seq<char>>,
    pub strict_status_checks: bool,
    pub required_approving_review_count: u64,
}

impl DeepView for DefaultBranchPolicy {
    type V = DefaultBranchPolicyView;

    open spec fn deep_view(&self) -> DefaultBranchPolicyView {
        DefaultBranchPolicyView {
            required_status_checks: self.required_status_checks.deep_view(),
            strict_status_checks: self.strict_status_checks.deep_view(),
            required_approving_review_count: self.required_approving_review_count.deep_view(),
        }
    }
}

impl Clone for DefaultBranchPolicy {
    fn clone(&self) -> (r: Self)
        ensures
            r.deep_view() == self.deep_view(),
    {
        self.dup()
    }
}

impl Model for DefaultBranchPolicy {
    fn same(&self, other: &Self) -> (r: bool) {
        self.required_status_checks.same(&other.required_status_checks)
            && self.strict_status_checks.same(&other.strict_status_checks)
            && self.required_approving_review_count.same(&other.required_approving_review_count)
    }

    fn dup(&self) -> (r: Self) {
        DefaultBranchPolicy {
            required_status_checks: self.required_status_checks.dup(),
            strict_status_checks: self.strict_status_checks.dup(),
            required_approving_review_count: self.required_approving_review_count.dup(),
        }
    }
}

/// One rate limit.
#[derive(Debug, PartialEq, Eq)]
pub struct GitHubRestRateLimit {
    pub limit: u64,
    pub used: u64,
    pub remaining: u64,
    pub reset_unix_secs: u64,
}

/// The content of a [`GitHubRestRateLimit`].
#[verifier::ext_equal]
pub struct GitHubRestRateLimitView {
    pub limit: u64,
    pub used: u64,
    pub remaining: u64,
    pub reset_unix_secs: u64,
}

impl DeepView for GitHubRestRateLimit {
    type V = GitHubRestRateLimitView;

    open spec fn deep_view(&self) -> GitHubRestRateLimitView {
        GitHubRestRateLimitView {
            limit: self.limit.deep_view(),
            used: self.used.deep_view(),
            remaining: self.remaining.deep_view(),
            reset_unix_secs: self.reset_unix_secs.deep_view(),
        }
    }
}

impl Clone for GitHubRestRateLimit {
    fn clone(&self) -> (r: Self)
        ensures
            r.deep_view() == self.deep_view(),
    {
        self.dup()
    }
}

impl Model for GitHubRestRateLimit {
    fn same(&self, other: &Self) -> (r: bool) {
        self.limit.same(&other.limit)
            && self.used.same(&other.used)
            && self.remaining.same(&other.remaining)
            && self.reset_unix_secs.same(&other.reset_unix_secs)
    }

    fn dup(&self) -> (r: Self) {
        GitHubRestRateLimit {
            limit: self.limit.dup(),
            used: self.used.dup(),
            remaining: self.remaining.dup(),
            reset_unix_secs: self.reset_unix_secs.dup(),
        }
    }
}

/// The rate limits of the actor.
#[derive(Debug, PartialEq, Eq)]
pub struct GitHubRateLimits {
    pub core: GitHubRestRateLimit,
    pub graphql: Option<GitHubRestRateLimit>,
}

/// The content of a [`GitHubRateLimits`].
#[verifier::ext_equal]
pub struct GitHubRateLimitsView {
    pub core: GitHubRestRateLimitView,
    pub graphql: Option<GitHubRestRateLimitView>,
}

impl DeepView for GitHubRateLimits {
    type V = GitHubRateLimitsView;

    open spec fn deep_view(&self) -> GitHubRateLimitsView {
        GitHubRateLimitsView {
            core: self.core.deep_view(),
            graphql: self.graphql.deep_view(),
        }
    }
}

impl Clone for GitHubRateLimits {
    fn clone(&self) -> (r: Self)
        ensures
            r.deep_view() == self.deep_view(),
    {
        self.dup()
    }
}

impl Model for GitHubRateLimits {
    fn same(&self, other: &Self) -> (r: bool) {
        self.core.same(&other.core)
            && self.graphql.same(&other.graphql)
    }

    fn dup(&self) -> (r: Self) {
        GitHubRateLimits {
            core: self.core.dup(),
            graphql: self.graphql.dup(),
        }
    }
}

/// How one commit relates to another.
#[derive(Debug, PartialEq, Eq)]
pub enum CommitRelation {
    Ahead,
    Behind,
    Identical,
    Diverged,
    /// The provider gave an answer that is not known.
    Unknown {
        reason: String,
    },
}

/// The content of a [`CommitRelation`].
pub enum CommitRelationView {
    Ahead,
    Behind,
    Identical,
    Diverged,
    Unknown {
        reason: Seq<char>,
    },
}

impl DeepView for CommitRelation {
    type V = CommitRelationView;

    open spec fn deep_view(&self) -> CommitRelationView {
        match self {
            CommitRelation::Ahead => CommitRelationView::Ahead,
            CommitRelation::Behind => CommitRelationView::Behind,
            CommitRelation::Identical => CommitRelationView::Identical,
            CommitRelation::Diverged => CommitRelationView::Diverged,
            CommitRelation::Unknown { reason } => CommitRelationView::Unknown {
                reason: reason.deep_view(),
            },
        }
    }
}

impl CommitRelation {
    /// Another value of the same content.
    pub fn dup(&self) -> (r: Self)
        ensures
            r.deep_view() == self.deep_view(),
    {
        match self {
            CommitRelation::Ahead => CommitRelation::Ahead,
            CommitRelation::Behind => CommitRelation::Behind,
            CommitRelation::Identical => CommitRelation::Identical,
            CommitRelation::Diverged => CommitRelation::Diverged,
            CommitRelation::Unknown { reason } => CommitRelation::Unknown {
                reason: reason.dup(),
            },
        }
    }
}

impl Default for DiscoveryOptions {
    fn default() -> (r: Self)
        ensures
            r.deep_view() == (DiscoveryOptionsView {
                label: "caravan"@,
                open_limit: 1000,
                merged_limit: 100,
                allow_unlabelled_historical_pr_creation: false,
            }),
    {
        DiscoveryOptions {
            label: "caravan".to_owned(),
            open_limit: 1000,
            merged_limit: 100,
            allow_unlabelled_historical_pr_creation: false,
        }
    }
}

impl DefaultBranchPolicy {
    /// Whether anything must pass before a change lands.
    pub fn ready(&self) -> (r: bool)
        ensures
            r == (self.required_status_checks.deep_view().len() > 0
                || self.required_approving_review_count > 0),
    {
        self.required_status_checks.len() > 0 || self.required_approving_review_count > 0
    }
}

// ---------------------------------------------------------------------------
// Control labels
// ---------------------------------------------------------------------------

/// Whether a label controls the queue.
pub open spec fn is_control(label: Seq<char>) -> bool {
    label == "caravan"@ || label == "caravan-evicted"@ || label == "caravan-force"@ || label
        == "caravan-join-skipped"@ || "caravan-priority:"@.is_prefix_of(label)
}

/// The control labels among labels.
pub open spec fn controls(labels: Seq<Seq<char>>) -> Seq<Seq<char>>
    decreases labels.len(),
{
    if labels.len() == 0 {
        Seq::empty()
    } else if is_control(labels.last()) {
        controls(labels.drop_last()).push(labels.last())
    } else {
        controls(labels.drop_last())
    }
}

/// The text of a transition between control labels.
pub open spec fn transition_text(before: Seq<Seq<char>>, after: Seq<Seq<char>>) -> Seq<char> {
    text::joined(controls(before), "|"@) + "->"@ + text::joined(controls(after), "|"@)
}

/// Two lower case digits for every byte.
pub open spec fn hex_bytes(bytes: Seq<u8>) -> Seq<char>
    decreases bytes.len(),
{
    if bytes.len() == 0 {
        Seq::empty()
    } else {
        hex_bytes(bytes.drop_last()) + text::hex_digits(bytes.last() as nat, 2)
    }
}

/// The identity of a transition.
pub open spec fn transition_marker(
    operation: Seq<char>,
    number: PrNumber,
    head_oid: Seq<char>,
    before: Seq<Seq<char>>,
    after: Seq<Seq<char>>,
) -> Seq<char> {
    "v2:"@ + operation + ":"@ + model::pr_text(number) + ":"@ + head_oid + ":"@ + hex_bytes(
        utf8::encode_utf8(transition_text(before, after)),
    )
}

fn control_label(label: &str) -> (r: bool)
    ensures
        r == is_control(label@),
{
    text_eq(label, "caravan") || text_eq(label, "caravan-evicted") || text_eq(
        label,
        "caravan-force",
    ) || text_eq(label, "caravan-join-skipped") || starts_with(label, "caravan-priority:")
}

fn control_text(labels: &LabelSet) -> (r: String)
    ensures
        r@ == text::joined(controls(labels.deep_view()), "|"@),
{
    let list = labels.to_list();
    let ghost all = list.deep_view();
    let mut kept: Vec<String> = Vec::new();
    let mut i: usize = 0;
    assert(kept.deep_view() =~= controls(all.take(0)));
    while i < list.len()
        invariant
            all == list.deep_view(),
            i <= list.len(),
            kept.deep_view() == controls(all.take(i as int)),
        decreases list.len() - i,
    {
        assert(all.take(i as int + 1).drop_last() =~= all.take(i as int));
        assert(all[i as int] == list[i as int]@);
        if control_label(list[i].as_str()) {
            push_item(&mut kept, list[i].dup());
        }
        i = i + 1;
    }
    assert(all.take(i as int) =~= all);
    join(&kept, "|")
}

fn hex_of(value: &str) -> (r: String)
    ensures
        r@ == hex_bytes(utf8::encode_utf8(value@)),
{
    let bytes = value.as_bytes();
    let mut out = String::new();
    let mut i: usize = 0;
    while i < bytes.len()
        invariant
            i <= bytes.len(),
            out@ == hex_bytes(bytes@.take(i as int)),
        decreases bytes.len() - i,
    {
        assert(bytes@.take(i as int + 1).drop_last() =~= bytes@.take(i as int));
        let digits = hex_text(bytes[i] as u64, 2);
        out = out.concat(digits.as_str());
        i = i + 1;
    }
    assert(bytes@.take(i as int) =~= bytes@);
    out
}

/// The identity of a transition between control labels, from facts that the
/// provider holds: a retry has the same, another transition has another.
pub fn control_label_marker(
    operation: &str,
    number: PrNumber,
    head_oid: &CommitOid,
    before: &LabelSet,
    after: &LabelSet,
) -> (r: String)
    ensures
        r@ == transition_marker(
            operation@,
            number,
            head_oid.deep_view(),
            before.deep_view(),
            after.deep_view(),
        ),
{
    let transition = control_text(before).concat("->").concat(control_text(after).as_str());
    "v2:".to_owned().concat(operation).concat(":").concat(number.to_text().as_str()).concat(
        ":",
    ).concat(head_oid.0.as_str()).concat(":").concat(hex_of(transition.as_str()).as_str())
}

proof fn lemma_hex_digit_injective(a: nat, b: nat)
    requires
        a < 16,
        b < 16,
        text::digit_char(a) == text::digit_char(b),
    ensures
        a == b,
{
}

proof fn lemma_hex_pair(a: u8)
    ensures
        text::hex_digits(a as nat, 2) == seq![
            text::digit_char((a as nat / 16) % 16),
            text::digit_char(a as nat % 16),
        ],
{
    reveal_with_fuel(text::hex_digits, 3);
    assert(text::hex_digits(a as nat, 2) =~= seq![
        text::digit_char((a as nat / 16) % 16),
        text::digit_char(a as nat % 16),
    ]);
}

proof fn lemma_hex_bytes_injective(a: Seq<u8>, b: Seq<u8>)
    requires
        hex_bytes(a) == hex_bytes(b),
    ensures
        a == b,
    decreases a.len() + b.len(),
{
    lemma_hex_bytes_len(a);
    lemma_hex_bytes_len(b);
    if a.len() == 0 {
        assert(a =~= b);
    } else {
        let x = hex_bytes(a);
        let k = x.len() - 2;
        lemma_hex_pair(a.last());
        lemma_hex_pair(b.last());
        lemma_hex_bytes_len(a.drop_last());
        lemma_hex_bytes_len(b.drop_last());
        assert(x.take(k) =~= hex_bytes(a.drop_last()));
        assert(x.take(k) =~= hex_bytes(b.drop_last()));
        assert(x.skip(k) =~= text::hex_digits(a.last() as nat, 2));
        assert(x.skip(k) =~= text::hex_digits(b.last() as nat, 2));
        assert(x.skip(k)[0] == text::digit_char((a.last() as nat / 16) % 16));
        assert(x.skip(k)[0] == text::digit_char((b.last() as nat / 16) % 16));
        assert(x.skip(k)[1] == text::digit_char(a.last() as nat % 16));
        assert(x.skip(k)[1] == text::digit_char(b.last() as nat % 16));
        lemma_hex_digit_injective((a.last() as nat / 16) % 16, (b.last() as nat / 16) % 16);
        lemma_hex_digit_injective(a.last() as nat % 16, b.last() as nat % 16);
        lemma_hex_bytes_injective(a.drop_last(), b.drop_last());
        assert(a =~= a.drop_last().push(a.last()));
        assert(b =~= b.drop_last().push(b.last()));
    }
}

proof fn lemma_hex_bytes_len(a: Seq<u8>)
    ensures
        hex_bytes(a).len() == 2 * a.len(),
    decreases a.len(),
{
    if a.len() > 0 {
        lemma_hex_bytes_len(a.drop_last());
        lemma_hex_pair(a.last());
    }
}

/// Two transitions of one operation on one head have the same marker exactly
/// if they move between the same control labels: a retry finds its marker,
/// and another transition on that head does not.
pub proof fn lemma_marker_identity(
    operation: Seq<char>,
    number: PrNumber,
    head_oid: Seq<char>,
    before: Seq<Seq<char>>,
    after: Seq<Seq<char>>,
    other_before: Seq<Seq<char>>,
    other_after: Seq<Seq<char>>,
)
    ensures
        transition_marker(operation, number, head_oid, before, after) == transition_marker(
            operation,
            number,
            head_oid,
            other_before,
            other_after,
        ) <==> transition_text(before, after) == transition_text(other_before, other_after),
{
    let a = transition_text(before, after);
    let b = transition_text(other_before, other_after);
    let stem = "v2:"@ + operation + ":"@ + model::pr_text(number) + ":"@ + head_oid + ":"@;
    let x = transition_marker(operation, number, head_oid, before, after);
    let y = transition_marker(operation, number, head_oid, other_before, other_after);
    let ha = hex_bytes(utf8::encode_utf8(a));
    let hb = hex_bytes(utf8::encode_utf8(b));
    assert(x == stem + ha);
    assert(y == stem + hb);
    if x == y {
        assert(x.skip(stem.len() as int) =~= ha);
        assert(y.skip(stem.len() as int) =~= hb);
        lemma_hex_bytes_injective(utf8::encode_utf8(a), utf8::encode_utf8(b));
        utf8::encode_utf8_decode_utf8(a);
        utf8::encode_utf8_decode_utf8(b);
    }
}

/// Whether an arrow stands in a text.
pub open spec fn has_arrow(s: Seq<char>) -> bool {
    exists|i: int| 0 <= i < s.len() - 1 && #[trigger] s[i] == '-' && s[i + 1] == '>'
}

/// Whether control labels can be told apart in the text of a transition: none
/// holds the bar that separates them.
pub open spec fn separable(labels: Seq<Seq<char>>) -> bool {
    forall|i: int|
        0 <= i < controls(labels).len() ==> !(#[trigger] controls(labels)[i]).contains('|')
}

/// Whether the end of control labels can be told in the text of a transition:
/// none holds the arrow that follows them.
pub open spec fn unpointed(labels: Seq<Seq<char>>) -> bool {
    forall|i: int|
        0 <= i < controls(labels).len() ==> !has_arrow(#[trigger] controls(labels)[i])
}

proof fn lemma_split(a: Seq<char>, x: Seq<char>, b: Seq<char>, y: Seq<char>, mark: char)
    requires
        a.push(mark) + x == b.push(mark) + y,
        !a.contains(mark),
        !b.contains(mark),
    ensures
        a == b,
        x == y,
{
    let s = a.push(mark) + x;
    assert(s[a.len() as int] == mark);
    assert(s[b.len() as int] == mark) by {
        assert((b.push(mark) + y)[b.len() as int] == mark);
    }
    if a.len() < b.len() {
        assert(b[a.len() as int] == s[a.len() as int]);
        assert(b.contains(mark));
    }
    if b.len() < a.len() {
        assert(a[b.len() as int] == s[b.len() as int]);
        assert(a.contains(mark));
    }
    assert(a =~= s.take(a.len() as int));
    assert(b =~= s.take(b.len() as int));
    assert(x =~= s.skip(a.len() as int + 1));
    assert(y =~= s.skip(b.len() as int + 1));
}

proof fn lemma_split_last(a: Seq<char>, x: Seq<char>, b: Seq<char>, y: Seq<char>, mark: char)
    requires
        a.push(mark) + x == b.push(mark) + y,
        !x.contains(mark),
        !y.contains(mark),
    ensures
        a == b,
        x == y,
{
    let s = a.push(mark) + x;
    assert(s.len() == a.len() + 1 + x.len());
    assert(s.len() == b.len() + 1 + y.len());
    assert(s[a.len() as int] == mark);
    assert(s[b.len() as int] == mark) by {
        assert((b.push(mark) + y)[b.len() as int] == mark);
    }
    if a.len() < b.len() {
        assert(x[b.len() - a.len() - 1] == s[b.len() as int]);
        assert(x.contains(mark));
    }
    if b.len() < a.len() {
        assert(y[a.len() - b.len() - 1] == s[a.len() as int]);
        assert(y.contains(mark));
    }
    assert(a =~= s.take(a.len() as int));
    assert(b =~= s.take(b.len() as int));
    assert(x =~= s.skip(a.len() as int + 1));
    assert(y =~= s.skip(b.len() as int + 1));
}

proof fn lemma_decimal_is_plain(n: nat)
    ensures
        !text::decimal(n).contains(':'),
        text::decimal(n).len() > 0,
    decreases n,
{
    if n >= 10 {
        lemma_decimal_is_plain(n / 10);
        let s = text::decimal(n);
        let stem = text::decimal(n / 10);
        assert(s == stem.push(text::digit_char(n % 10)));
        if s.contains(':') {
            let i = choose|i: int| 0 <= i < s.len() && s[i] == ':';
            assert(i < stem.len());
            assert(stem[i] == ':');
        }
    } else {
        assert(text::decimal(n) == seq![text::digit_char(n)]);
    }
}

/// Two numbers with the same decimal text are the same number.
pub proof fn lemma_decimal_is_injective(a: nat, b: nat)
    requires
        text::decimal(a) == text::decimal(b),
    ensures
        a == b,
    decreases a,
{
    let s = text::decimal(a);
    lemma_decimal_is_plain(a / 10);
    lemma_decimal_is_plain(b / 10);
    if a < 10 && b < 10 {
        assert(s[0] == text::digit_char(a) && s[0] == text::digit_char(b));
        lemma_hex_digit_injective(a, b);
    } else if a < 10 {
        assert(text::decimal(b).len() == text::decimal(b / 10).len() + 1);
    } else if b < 10 {
        assert(text::decimal(a).len() == text::decimal(a / 10).len() + 1);
    } else {
        assert(text::decimal(a).drop_last() =~= text::decimal(a / 10));
        assert(text::decimal(b).drop_last() =~= text::decimal(b / 10));
        assert(s.last() == text::digit_char(a % 10) && s.last() == text::digit_char(b % 10));
        lemma_hex_digit_injective(a % 10, b % 10);
        lemma_decimal_is_injective(a / 10, b / 10);
    }
}

proof fn lemma_controls_are_controls(labels: Seq<Seq<char>>)
    ensures
        forall|i: int|
            0 <= i < controls(labels).len() ==> (#[trigger] controls(labels)[i]).len() > 0,
    decreases labels.len(),
{
    if labels.len() > 0 {
        lemma_controls_are_controls(labels.drop_last());
        reveal_strlit("caravan");
        reveal_strlit("caravan-evicted");
        reveal_strlit("caravan-force");
        reveal_strlit("caravan-join-skipped");
        reveal_strlit("caravan-priority:");
        let before = controls(labels.drop_last());
        assert forall|i: int| 0 <= i < controls(labels).len() implies (
        #[trigger] controls(labels)[i]).len() > 0 by {
            if i < before.len() {
                assert(before[i].len() > 0);
            }
        }
    }
}

proof fn lemma_joined_has_length(parts: Seq<Seq<char>>)
    requires
        parts.len() > 0,
        forall|i: int| 0 <= i < parts.len() ==> (#[trigger] parts[i]).len() > 0,
    ensures
        text::joined(parts, "|"@).len() > 0,
{
    if parts.len() > 1 {
        assert(parts.last() == parts[parts.len() - 1]);
    }
}

proof fn lemma_joined_is_injective(p: Seq<Seq<char>>, q: Seq<Seq<char>>)
    requires
        text::joined(p, "|"@) == text::joined(q, "|"@),
        forall|i: int|
            0 <= i < p.len() ==> (#[trigger] p[i]).len() > 0 && !p[i].contains('|'),
        forall|i: int|
            0 <= i < q.len() ==> (#[trigger] q[i]).len() > 0 && !q[i].contains('|'),
    ensures
        p == q,
    decreases p.len(),
{
    reveal_strlit("|");
    if p.len() > 0 {
        lemma_joined_has_length(p);
    }
    if q.len() > 0 {
        lemma_joined_has_length(q);
    }
    if p.len() > 1 {
        let x = text::joined(p.drop_last(), "|"@);
        assert(p.last() == p[p.len() - 1]);
        assert(text::joined(p, "|"@) =~= x.push('|') + p.last());
        assert((x.push('|') + p.last())[x.len() as int] == '|');
        assert(text::joined(p, "|"@).contains('|'));
    }
    if q.len() > 1 {
        let y = text::joined(q.drop_last(), "|"@);
        assert(q.last() == q[q.len() - 1]);
        assert(text::joined(q, "|"@) =~= y.push('|') + q.last());
        assert((y.push('|') + q.last())[y.len() as int] == '|');
        assert(text::joined(q, "|"@).contains('|'));
    }
    if p.len() <= 1 || q.len() <= 1 {
        assert(p =~= q);
    } else {
        lemma_split_last(
            text::joined(p.drop_last(), "|"@),
            p.last(),
            text::joined(q.drop_last(), "|"@),
            q.last(),
            '|',
        );
        lemma_joined_is_injective(p.drop_last(), q.drop_last());
        assert(p =~= p.drop_last().push(p.last()));
        assert(q =~= q.drop_last().push(q.last()));
    }
}

proof fn lemma_joined_has_no_arrow(parts: Seq<Seq<char>>)
    requires
        forall|i: int| 0 <= i < parts.len() ==> !has_arrow(#[trigger] parts[i]),
    ensures
        !has_arrow(text::joined(parts, "|"@)),
    decreases parts.len(),
{
    reveal_strlit("|");
    let s = text::joined(parts, "|"@);
    if parts.len() > 1 {
        lemma_joined_has_no_arrow(parts.drop_last());
        let x = text::joined(parts.drop_last(), "|"@);
        let last = parts.last();
        assert(last == parts[parts.len() - 1]);
        assert(s =~= x.push('|') + last);
        if has_arrow(s) {
            let i = choose|i: int| 0 <= i < s.len() - 1 && #[trigger] s[i] == '-' && s[i + 1] == '>';
            if i + 1 < x.len() {
                assert(x[i] == '-' && x[i + 1] == '>');
            } else if i > x.len() {
                let k = i - x.len() - 1;
                assert(last[k] == '-' && last[k + 1] == '>');
            } else {
                assert(s[x.len() as int] == '|');
            }
        }
    } else if parts.len() == 1 {
        assert(s == parts[0]);
    }
}

proof fn lemma_arrow_splits(a: Seq<char>, x: Seq<char>, b: Seq<char>, y: Seq<char>)
    requires
        a + "->"@ + x == b + "->"@ + y,
        !has_arrow(a),
        !has_arrow(b),
    ensures
        a == b,
        x == y,
{
    reveal_strlit("->");
    let s = a + "->"@ + x;
    assert(s[a.len() as int] == '-' && s[a.len() as int + 1] == '>');
    assert(s[b.len() as int] == '-' && s[b.len() as int + 1] == '>') by {
        assert((b + "->"@ + y)[b.len() as int] == '-');
        assert((b + "->"@ + y)[b.len() as int + 1] == '>');
    }
    if a.len() + 1 < b.len() {
        assert(b[a.len() as int] == s[a.len() as int]);
        assert(b[a.len() as int + 1] == s[a.len() as int + 1]);
    }
    if b.len() + 1 < a.len() {
        assert(a[b.len() as int] == s[b.len() as int]);
        assert(a[b.len() as int + 1] == s[b.len() as int + 1]);
    }
    assert(a =~= s.take(a.len() as int));
    assert(b =~= s.take(b.len() as int));
    assert(x =~= s.skip(a.len() as int + 2));
    assert(y =~= s.skip(b.len() as int + 2));
}

proof fn lemma_marker_parts(
    operation: Seq<char>,
    number: PrNumber,
    head_oid: Seq<char>,
    before: Seq<Seq<char>>,
    after: Seq<Seq<char>>,
)
    ensures
        transition_marker(operation, number, head_oid, before, after) == "v2:"@ + (operation.push(
            ':',
        ) + (model::pr_text(number).push(':') + (head_oid.push(':') + hex_bytes(
            utf8::encode_utf8(transition_text(before, after)),
        )))),
{
    reveal_strlit(":");
    assert(transition_marker(operation, number, head_oid, before, after) =~= "v2:"@ + (
    operation.push(':') + (model::pr_text(number).push(':') + (head_oid.push(':') + hex_bytes(
        utf8::encode_utf8(transition_text(before, after)),
    )))));
}

/// A marker tells operation, pull request, head and both sets of control labels
/// apart: two transitions have the same marker exactly if they agree in all of
/// them. Operation and head hold no colon, and control labels hold neither the
/// bar that separates them nor, before the transition, its arrow.
pub proof fn lemma_marker_distinguishes(
    operation: Seq<char>,
    number: PrNumber,
    head_oid: Seq<char>,
    before: Seq<Seq<char>>,
    after: Seq<Seq<char>>,
    other_operation: Seq<char>,
    other_number: PrNumber,
    other_head_oid: Seq<char>,
    other_before: Seq<Seq<char>>,
    other_after: Seq<Seq<char>>,
)
    requires
        !operation.contains(':'),
        !other_operation.contains(':'),
        !head_oid.contains(':'),
        !other_head_oid.contains(':'),
        separable(before) && separable(after) && separable(other_before) && separable(other_after),
        unpointed(before) && unpointed(other_before),
    ensures
        transition_marker(operation, number, head_oid, before, after) == transition_marker(
            other_operation,
            other_number,
            other_head_oid,
            other_before,
            other_after,
        ) <==> operation == other_operation && number == other_number && head_oid
            == other_head_oid && controls(before) == controls(other_before) && controls(after)
            == controls(other_after),
{
    let x = transition_marker(operation, number, head_oid, before, after);
    let y = transition_marker(
        other_operation,
        other_number,
        other_head_oid,
        other_before,
        other_after,
    );
    if x == y {
        let one = utf8::encode_utf8(transition_text(before, after));
        let other = utf8::encode_utf8(transition_text(other_before, other_after));
        let tail = head_oid.push(':') + hex_bytes(one);
        let other_tail = other_head_oid.push(':') + hex_bytes(other);
        let middle = model::pr_text(number).push(':') + tail;
        let other_middle = model::pr_text(other_number).push(':') + other_tail;
        lemma_marker_parts(operation, number, head_oid, before, after);
        lemma_marker_parts(
            other_operation,
            other_number,
            other_head_oid,
            other_before,
            other_after,
        );
        let skipped = "v2:"@.len() as int;
        assert(x.skip(skipped) =~= operation.push(':') + middle);
        assert(y.skip(skipped) =~= other_operation.push(':') + other_middle);
        lemma_split(operation, middle, other_operation, other_middle, ':');
        lemma_decimal_is_plain(number.0 as nat);
        lemma_decimal_is_plain(other_number.0 as nat);
        lemma_split(model::pr_text(number), tail, model::pr_text(other_number), other_tail, ':');
        lemma_decimal_is_injective(number.0 as nat, other_number.0 as nat);
        lemma_split(head_oid, hex_bytes(one), other_head_oid, hex_bytes(other), ':');
        lemma_hex_bytes_injective(one, other);
        utf8::encode_utf8_decode_utf8(transition_text(before, after));
        utf8::encode_utf8_decode_utf8(transition_text(other_before, other_after));
        lemma_joined_has_no_arrow(controls(before));
        lemma_joined_has_no_arrow(controls(other_before));
        lemma_arrow_splits(
            text::joined(controls(before), "|"@),
            text::joined(controls(after), "|"@),
            text::joined(controls(other_before), "|"@),
            text::joined(controls(other_after), "|"@),
        );
        lemma_controls_are_controls(before);
        lemma_controls_are_controls(after);
        lemma_controls_are_controls(other_before);
        lemma_controls_are_controls(other_after);
        lemma_joined_is_injective(controls(before), controls(other_before));
        lemma_joined_is_injective(controls(after), controls(other_after));
    }
}

impl ControlLabelAuditView {
    /// The line by which a retry finds the explanation.
    pub open spec fn shown_marker(self) -> Seq<char> {
        "<!-- caravan-control-label-audit:"@ + self.marker + " -->"@
    }

    /// The explanation as Markdown.
    pub open spec fn shown(self) -> Seq<char> {
        self.shown_marker() + "\n### Caravan queue transition: `"@ + self.operation
            + "`\n\n- **Labels:** `"@ + text::joined(self.before_labels, ", "@) + "` → `"@
            + text::joined(self.after_labels, ", "@) + "`\n- **Actor/source:** "@ + self.actor
            + "\n- **Reason:** "@ + self.reason + " ("@ + self.reason_source
            + ")\n- **Compatibility:** "@ + self.compatibility_evidence
            + "\n- **Clean squash:** "@ + self.clean_squash_evidence
            + "\n- **Admission priority:** "@ + self.admission_priority_basis + "\n"@
    }
}

impl ControlLabelAudit {
    /// The explanation as Markdown. Its marker is visible to the provider, so
    /// that a retry needs no local state.
    pub fn body(&self) -> (r: String)
        ensures
            r@ == self.deep_view().shown(),
    {
        self.visible_marker().concat("\n### Caravan queue transition: `").concat(
            self.operation.as_str(),
        ).concat("`\n\n- **Labels:** `").concat(
            join(&self.before_labels.to_list(), ", ").as_str(),
        ).concat("` → `").concat(join(&self.after_labels.to_list(), ", ").as_str()).concat(
            "`\n- **Actor/source:** ",
        ).concat(self.actor.as_str()).concat("\n- **Reason:** ").concat(
            self.reason.as_str(),
        ).concat(" (").concat(self.reason_source.as_str()).concat(
            ")\n- **Compatibility:** ",
        ).concat(self.compatibility_evidence.as_str()).concat("\n- **Clean squash:** ").concat(
            self.clean_squash_evidence.as_str(),
        ).concat("\n- **Admission priority:** ").concat(
            self.admission_priority_basis.as_str(),
        ).concat("\n")
    }

    /// The line by which a retry finds the explanation.
    pub fn visible_marker(&self) -> (r: String)
        ensures
            r@ == self.deep_view().shown_marker(),
    {
        "<!-- caravan-control-label-audit:".to_owned().concat(self.marker.as_str()).concat(" -->")
    }
}

// ---------------------------------------------------------------------------
// Runs and limits
// ---------------------------------------------------------------------------

impl WorkflowRunJsonView {
    pub open spec fn snapshot(self) -> WorkflowRunSnapshotView {
        WorkflowRunSnapshotView {
            database_id: self.database_id,
            pull_requests: Seq::empty(),
            head_sha: self.head_sha,
            status: self.status,
            conclusion: self.conclusion,
            event: self.event,
            name: self.name,
            workflow_name: self.workflow_name,
            url: self.url,
        }
    }
}

impl WorkflowRunJson {
    pub fn into_snapshot(self) -> (r: WorkflowRunSnapshot)
        ensures
            r.deep_view() == self.deep_view().snapshot(),
    {
        let pull_requests: Vec<PrNumber> = Vec::new();
        assert(pull_requests.deep_view() =~= Seq::<PrNumber>::empty());
        WorkflowRunSnapshot {
            database_id: self.database_id,
            pull_requests,
            head_sha: self.head_sha,
            status: self.status,
            conclusion: self.conclusion,
            event: self.event,
            name: self.name,
            workflow_name: self.workflow_name,
            url: self.url,
        }
    }
}

/// The pull requests of references.
pub open spec fn referenced(rows: Seq<NumberJsonView>) -> Seq<PrNumber> {
    Seq::new(rows.len(), |i: int| PrNumber(rows[i].number))
}

fn references(rows: &Vec<NumberJson>) -> (r: Vec<PrNumber>)
    ensures
        r.deep_view() == referenced(rows.deep_view()),
{
    let ghost all = rows.deep_view();
    let mut out: Vec<PrNumber> = Vec::new();
    let mut i: usize = 0;
    while i < rows.len()
        invariant
            all == rows.deep_view(),
            i <= rows.len(),
            out.deep_view() == referenced(all).take(i as int),
        decreases rows.len() - i,
    {
        assert(all[i as int] == rows[i as int].deep_view());
        push_item(&mut out, PrNumber(rows[i].number));
        i = i + 1;
        assert(out.deep_view() =~= referenced(all).take(i as int));
    }
    assert(out.deep_view() =~= referenced(all));
    out
}

impl WorkflowRunDetailsJsonView {
    pub open spec fn snapshot(self) -> WorkflowRunSnapshotView {
        WorkflowRunSnapshotView {
            database_id: self.id,
            pull_requests: referenced(self.pull_requests),
            head_sha: self.head_sha,
            status: self.status,
            conclusion: raw::or_empty(self.conclusion),
            event: self.event,
            name: self.name,
            workflow_name: self.name,
            url: self.html_url,
        }
    }
}

impl WorkflowRunDetailsJson {
    pub fn into_snapshot(self) -> (r: WorkflowRunSnapshot)
        ensures
            r.deep_view() == self.deep_view().snapshot(),
    {
        let pull_requests = references(&self.pull_requests);
        WorkflowRunSnapshot {
            database_id: self.id,
            pull_requests,
            head_sha: self.head_sha,
            status: self.status,
            conclusion: unwrap_or_empty(self.conclusion),
            event: self.event,
            workflow_name: self.name.dup(),
            name: self.name,
            url: self.html_url,
        }
    }
}

impl RateLimitResourceJsonView {
    pub open spec fn limit(self) -> GitHubRestRateLimitView {
        GitHubRestRateLimitView {
            limit: self.limit,
            used: self.used,
            remaining: self.remaining,
            reset_unix_secs: self.reset,
        }
    }
}

impl RateLimitResourceJson {
    fn into_limit(self) -> (r: GitHubRestRateLimit)
        ensures
            r.deep_view() == self.deep_view().limit(),
    {
        GitHubRestRateLimit {
            limit: self.limit,
            used: self.used,
            remaining: self.remaining,
            reset_unix_secs: self.reset,
        }
    }
}

impl RateLimitResponseJsonView {
    pub open spec fn limits(self) -> GitHubRateLimitsView {
        GitHubRateLimitsView {
            core: self.resources.core.limit(),
            graphql: match self.resources.graphql {
                Some(resource) => Some(resource.limit()),
                None => None,
            },
        }
    }
}

impl RateLimitResponseJson {
    pub fn into_limits(self) -> (r: GitHubRateLimits)
        ensures
            r.deep_view() == self.deep_view().limits(),
    {
        GitHubRateLimits {
            core: self.resources.core.into_limit(),
            graphql: match self.resources.graphql {
                Some(resource) => Some(resource.into_limit()),
                None => None,
            },
        }
    }
}

impl CheckSuiteJsonView {
    /// The suite as lineage. A suite without an owning app cannot be requested
    /// again, unless the provider says that it can.
    pub open spec fn lineage(self) -> CheckSuiteLineageView {
        let app_slug = match self.app {
            Some(app) => app.slug,
            None => Seq::empty(),
        };
        CheckSuiteLineageView {
            id: self.id,
            head_sha: self.head_sha,
            status: raw::or_empty(self.status),
            conclusion: raw::or_empty(self.conclusion),
            app_slug,
            rerequestable: match self.rerequestable {
                Some(said) => said,
                None => app_slug.len() > 0,
            },
        }
    }
}

impl CheckSuiteJson {
    pub fn into_lineage(self) -> (r: CheckSuiteLineage)
        ensures
            r.deep_view() == self.deep_view().lineage(),
    {
        let app_slug = match self.app {
            Some(app) => app.slug,
            None => String::new(),
        };
        let rerequestable = match self.rerequestable {
            Some(said) => said,
            None => !app_slug.as_str().is_empty(),
        };
        CheckSuiteLineage {
            id: self.id,
            head_sha: self.head_sha,
            status: unwrap_or_empty(self.status),
            conclusion: unwrap_or_empty(self.conclusion),
            app_slug,
            rerequestable,
        }
    }
}

impl HeadWorkflowRunJsonView {
    /// The run as lineage.
    pub open spec fn lineage(self) -> WorkflowRunLineageView {
        WorkflowRunLineageView {
            run_id: self.id,
            check_suite_id: self.check_suite_id,
            workflow_name: self.name,
            head_sha: self.head_sha,
            status: raw::or_empty(self.status),
            conclusion: raw::or_empty(self.conclusion),
            event: self.event,
        }
    }
}

impl HeadWorkflowRunJson {
    pub fn into_lineage(self) -> (r: WorkflowRunLineage)
        ensures
            r.deep_view() == self.deep_view().lineage(),
    {
        WorkflowRunLineage {
            run_id: self.id,
            check_suite_id: self.check_suite_id,
            workflow_name: self.name,
            head_sha: self.head_sha,
            status: unwrap_or_empty(self.status),
            conclusion: unwrap_or_empty(self.conclusion),
            event: self.event,
        }
    }
}

/// The suites of a list as lineage.
pub open spec fn suite_rows(rows: Seq<CheckSuiteJsonView>) -> Seq<CheckSuiteLineageView> {
    Seq::new(rows.len(), |i: int| rows[i].lineage())
}

pub fn suite_lineages(rows: &Vec<CheckSuiteJson>) -> (r: Vec<CheckSuiteLineage>)
    ensures
        r.deep_view() == suite_rows(rows.deep_view()),
{
    let ghost all = rows.deep_view();
    let mut out: Vec<CheckSuiteLineage> = Vec::new();
    let mut i: usize = 0;
    while i < rows.len()
        invariant
            all == rows.deep_view(),
            i <= rows.len(),
            out.deep_view() == suite_rows(all).take(i as int),
        decreases rows.len() - i,
    {
        assert(all[i as int] == rows[i as int].deep_view());
        push_item(&mut out, rows[i].dup().into_lineage());
        i = i + 1;
        assert(out.deep_view() =~= suite_rows(all).take(i as int));
    }
    assert(out.deep_view() =~= suite_rows(all));
    out
}

/// The runs of a list as lineage.
pub open spec fn run_rows(rows: Seq<HeadWorkflowRunJsonView>) -> Seq<WorkflowRunLineageView> {
    Seq::new(rows.len(), |i: int| rows[i].lineage())
}

pub fn run_lineages(rows: &Vec<HeadWorkflowRunJson>) -> (r: Vec<WorkflowRunLineage>)
    ensures
        r.deep_view() == run_rows(rows.deep_view()),
{
    let ghost all = rows.deep_view();
    let mut out: Vec<WorkflowRunLineage> = Vec::new();
    let mut i: usize = 0;
    while i < rows.len()
        invariant
            all == rows.deep_view(),
            i <= rows.len(),
            out.deep_view() == run_rows(all).take(i as int),
        decreases rows.len() - i,
    {
        assert(all[i as int] == rows[i as int].deep_view());
        push_item(&mut out, rows[i].dup().into_lineage());
        i = i + 1;
        assert(out.deep_view() =~= run_rows(all).take(i as int));
    }
    assert(out.deep_view() =~= run_rows(all));
    out
}

/// How commits relate, as the provider words it.
pub open spec fn commit_relation(status: Seq<char>) -> CommitRelationView {
    if status == "ahead"@ {
        CommitRelationView::Ahead
    } else if status == "behind"@ {
        CommitRelationView::Behind
    } else if status == "identical"@ {
        CommitRelationView::Identical
    } else if status == "diverged"@ {
        CommitRelationView::Diverged
    } else {
        CommitRelationView::Unknown {
            reason: "provider returned unknown compare status `"@ + status + "`"@,
        }
    }
}

impl CommitRelation {
    /// How commits relate, as the provider words it.
    pub fn of_status(status: &str) -> (r: Self)
        ensures
            r.deep_view() == commit_relation(status@),
    {
        if text_eq(status, "ahead") {
            CommitRelation::Ahead
        } else if text_eq(status, "behind") {
            CommitRelation::Behind
        } else if text_eq(status, "identical") {
            CommitRelation::Identical
        } else if text_eq(status, "diverged") {
            CommitRelation::Diverged
        } else {
            CommitRelation::Unknown {
                reason: "provider returned unknown compare status `".to_owned().concat(
                    status,
                ).concat("`"),
            }
        }
    }
}

} // verus!
