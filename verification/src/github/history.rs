//! What a branch without an open pull request stands for: a merged member, and
//! the member that follows it.

use vstd::prelude::*;
use vstd::string::*;
use crate::command;
use crate::command::{
    run, CommandOutput, CommandOutputView, CommandRunError, CommandRunner, CommandSpec,
    CommandSpecView, Reply,
};
use crate::github::commands;
use crate::github::commands::{
    base_history_command, branch_pr_history_command, current_head_oid_command,
    default_branch_command,
};
use crate::github::discovery::GitHubDiscovery;
use crate::github::facts::{DiscoveryOptions, DiscoveryOptionsView};
use crate::github::provider;
use crate::github::provider::{fetch, run_checked, DiscoveryError, DiscoveryErrorView};
use crate::github::raw::{GitRefJson, GitRefJsonView, PullRequestJson, PullRequestJsonView};
use crate::json;
use crate::json::{read_member, read_member_or, read_other_members, Decode, Json};
use crate::model::{
    dup_range, push_item, Model, PrNumber, PullRequestGenerationFact, PullRequestGenerationFactView,
    PullRequestSnapshot, PullRequestSnapshotView, PullRequestState, RepositoryId, RepositoryIdView,
};
use crate::text;
use crate::text::{parse_unsigned, text_contains, text_eq, text_less, trim};

verus! {

/// One change of a base.
#[derive(Debug, PartialEq, Eq)]
pub struct BaseHistoryNode {
    pub previous_ref_name: Option<String>,
    pub current_ref_name: Option<String>,
}

/// The content of a [`BaseHistoryNode`].
#[verifier::ext_equal]
pub struct BaseHistoryNodeView {
    pub previous_ref_name: Option<Seq<char>>,
    pub current_ref_name: Option<Seq<char>>,
}

impl DeepView for BaseHistoryNode {
    type V = BaseHistoryNodeView;

    open spec fn deep_view(&self) -> BaseHistoryNodeView {
        BaseHistoryNodeView {
            previous_ref_name: self.previous_ref_name.deep_view(),
            current_ref_name: self.current_ref_name.deep_view(),
        }
    }
}

impl Clone for BaseHistoryNode {
    fn clone(&self) -> (r: Self)
        ensures
            r.deep_view() == self.deep_view(),
    {
        self.dup()
    }
}

impl Model for BaseHistoryNode {
    fn same(&self, other: &Self) -> (r: bool) {
        self.previous_ref_name.same(&other.previous_ref_name)
            && self.current_ref_name.same(&other.current_ref_name)
    }

    fn dup(&self) -> (r: Self) {
        BaseHistoryNode {
            previous_ref_name: self.previous_ref_name.dup(),
            current_ref_name: self.current_ref_name.dup(),
        }
    }
}

impl Decode for BaseHistoryNode {
    open spec fn decoded(tree: Json) -> Option<BaseHistoryNodeView> {
        let previous_ref_name = json::member::<Option<String>>(tree, "previousRefName"@);
        let current_ref_name = json::member::<Option<String>>(tree, "currentRefName"@);
        if tree.is_object() && previous_ref_name is Some && current_ref_name is Some {
            Some(BaseHistoryNodeView {
                previous_ref_name: previous_ref_name->0,
                current_ref_name: current_ref_name->0,
            })
        } else {
            None
        }
    }

    fn decode(value: &serde_json::Value) -> (r: Option<Self>) {
        if !value.is_object() {
            return None;
        }
        let previous_ref_name = read_member::<Option<String>>(value, "previousRefName")?;
        let current_ref_name = read_member::<Option<String>>(value, "currentRefName")?;
        Some(BaseHistoryNode { previous_ref_name, current_ref_name })
    }
}

/// The changes of a base.
#[derive(Debug, PartialEq, Eq)]
pub struct BaseHistoryTimeline {
    pub nodes: Vec<BaseHistoryNode>,
}

/// The content of a [`BaseHistoryTimeline`].
#[verifier::ext_equal]
pub struct BaseHistoryTimelineView {
    pub nodes: Seq<BaseHistoryNodeView>,
}

impl DeepView for BaseHistoryTimeline {
    type V = BaseHistoryTimelineView;

    open spec fn deep_view(&self) -> BaseHistoryTimelineView {
        BaseHistoryTimelineView {
            nodes: self.nodes.deep_view(),
        }
    }
}

impl Clone for BaseHistoryTimeline {
    fn clone(&self) -> (r: Self)
        ensures
            r.deep_view() == self.deep_view(),
    {
        self.dup()
    }
}

impl Model for BaseHistoryTimeline {
    fn same(&self, other: &Self) -> (r: bool) {
        self.nodes.same(&other.nodes)
    }

    fn dup(&self) -> (r: Self) {
        BaseHistoryTimeline {
            nodes: self.nodes.dup(),
        }
    }
}

impl Decode for BaseHistoryTimeline {
    open spec fn decoded(tree: Json) -> Option<BaseHistoryTimelineView> {
        let nodes = json::member_or::<Vec<BaseHistoryNode>>(tree, "nodes"@, Seq::empty());
        if tree.is_object() && nodes is Some {
            Some(BaseHistoryTimelineView { nodes: nodes->0 })
        } else {
            None
        }
    }

    fn decode(value: &serde_json::Value) -> (r: Option<Self>) {
        if !value.is_object() {
            return None;
        }
        let none: Vec<BaseHistoryNode> = Vec::new();
        assert(none.deep_view() =~= Seq::empty());
        let nodes = read_member_or::<Vec<BaseHistoryNode>>(value, "nodes", none)?;
        Some(BaseHistoryTimeline { nodes })
    }
}

/// A pull request with the changes of its base.
#[derive(Debug, PartialEq, Eq)]
pub struct BaseHistoryPull {
    pub timeline_items: BaseHistoryTimeline,
}

/// The content of a [`BaseHistoryPull`].
#[verifier::ext_equal]
pub struct BaseHistoryPullView {
    pub timeline_items: BaseHistoryTimelineView,
}

impl DeepView for BaseHistoryPull {
    type V = BaseHistoryPullView;

    open spec fn deep_view(&self) -> BaseHistoryPullView {
        BaseHistoryPullView {
            timeline_items: self.timeline_items.deep_view(),
        }
    }
}

impl Clone for BaseHistoryPull {
    fn clone(&self) -> (r: Self)
        ensures
            r.deep_view() == self.deep_view(),
    {
        self.dup()
    }
}

impl Model for BaseHistoryPull {
    fn same(&self, other: &Self) -> (r: bool) {
        self.timeline_items.same(&other.timeline_items)
    }

    fn dup(&self) -> (r: Self) {
        BaseHistoryPull {
            timeline_items: self.timeline_items.dup(),
        }
    }
}

impl Decode for BaseHistoryPull {
    open spec fn decoded(tree: Json) -> Option<BaseHistoryPullView> {
        let timeline_items = json::member::<BaseHistoryTimeline>(tree, "timelineItems"@);
        if tree.is_object() && timeline_items is Some {
            Some(BaseHistoryPullView { timeline_items: timeline_items->0 })
        } else {
            None
        }
    }

    fn decode(value: &serde_json::Value) -> (r: Option<Self>) {
        if !value.is_object() {
            return None;
        }
        let timeline_items = read_member::<BaseHistoryTimeline>(value, "timelineItems")?;
        Some(BaseHistoryPull { timeline_items })
    }
}

/// Pull requests under the keys that were asked for.
#[derive(Debug, PartialEq, Eq)]
pub struct BaseHistoryRepository {
    pub pulls: Vec<(String, BaseHistoryPull)>,
}

/// The content of a [`BaseHistoryRepository`].
#[verifier::ext_equal]
pub struct BaseHistoryRepositoryView {
    pub pulls: Seq<(Seq<char>, BaseHistoryPullView)>,
}

impl DeepView for BaseHistoryRepository {
    type V = BaseHistoryRepositoryView;

    open spec fn deep_view(&self) -> BaseHistoryRepositoryView {
        BaseHistoryRepositoryView {
            pulls: self.pulls.deep_view(),
        }
    }
}

impl Clone for BaseHistoryRepository {
    fn clone(&self) -> (r: Self)
        ensures
            r.deep_view() == self.deep_view(),
    {
        self.dup()
    }
}

impl Model for BaseHistoryRepository {
    fn same(&self, other: &Self) -> (r: bool) {
        self.pulls.same(&other.pulls)
    }

    fn dup(&self) -> (r: Self) {
        BaseHistoryRepository {
            pulls: self.pulls.dup(),
        }
    }
}

impl Decode for BaseHistoryRepository {
    open spec fn decoded(tree: Json) -> Option<BaseHistoryRepositoryView> {
        let pulls = json::other_members::<BaseHistoryPull>(tree, None);
        if tree.is_object() && pulls is Some {
            Some(BaseHistoryRepositoryView { pulls: pulls->0 })
        } else {
            None
        }
    }

    fn decode(value: &serde_json::Value) -> (r: Option<Self>) {
        if !value.is_object() {
            return None;
        }
        let pulls = read_other_members::<BaseHistoryPull>(value, None)?;
        Some(BaseHistoryRepository { pulls })
    }
}

/// The data of a response.
#[derive(Debug, PartialEq, Eq)]
pub struct BaseHistoryData {
    pub repository: BaseHistoryRepository,
}

/// The content of a [`BaseHistoryData`].
#[verifier::ext_equal]
pub struct BaseHistoryDataView {
    pub repository: BaseHistoryRepositoryView,
}

impl DeepView for BaseHistoryData {
    type V = BaseHistoryDataView;

    open spec fn deep_view(&self) -> BaseHistoryDataView {
        BaseHistoryDataView {
            repository: self.repository.deep_view(),
        }
    }
}

impl Clone for BaseHistoryData {
    fn clone(&self) -> (r: Self)
        ensures
            r.deep_view() == self.deep_view(),
    {
        self.dup()
    }
}

impl Model for BaseHistoryData {
    fn same(&self, other: &Self) -> (r: bool) {
        self.repository.same(&other.repository)
    }

    fn dup(&self) -> (r: Self) {
        BaseHistoryData {
            repository: self.repository.dup(),
        }
    }
}

impl Decode for BaseHistoryData {
    open spec fn decoded(tree: Json) -> Option<BaseHistoryDataView> {
        let repository = json::member::<BaseHistoryRepository>(tree, "repository"@);
        if tree.is_object() && repository is Some {
            Some(BaseHistoryDataView { repository: repository->0 })
        } else {
            None
        }
    }

    fn decode(value: &serde_json::Value) -> (r: Option<Self>) {
        if !value.is_object() {
            return None;
        }
        let repository = read_member::<BaseHistoryRepository>(value, "repository")?;
        Some(BaseHistoryData { repository })
    }
}

/// A response.
#[derive(Debug, PartialEq, Eq)]
pub struct BaseHistoryResponse {
    pub data: BaseHistoryData,
}

/// The content of a [`BaseHistoryResponse`].
#[verifier::ext_equal]
pub struct BaseHistoryResponseView {
    pub data: BaseHistoryDataView,
}

impl DeepView for BaseHistoryResponse {
    type V = BaseHistoryResponseView;

    open spec fn deep_view(&self) -> BaseHistoryResponseView {
        BaseHistoryResponseView {
            data: self.data.deep_view(),
        }
    }
}

impl Clone for BaseHistoryResponse {
    fn clone(&self) -> (r: Self)
        ensures
            r.deep_view() == self.deep_view(),
    {
        self.dup()
    }
}

impl Model for BaseHistoryResponse {
    fn same(&self, other: &Self) -> (r: bool) {
        self.data.same(&other.data)
    }

    fn dup(&self) -> (r: Self) {
        BaseHistoryResponse {
            data: self.data.dup(),
        }
    }
}

impl Decode for BaseHistoryResponse {
    open spec fn decoded(tree: Json) -> Option<BaseHistoryResponseView> {
        let data = json::member::<BaseHistoryData>(tree, "data"@);
        if tree.is_object() && data is Some {
            Some(BaseHistoryResponseView { data: data->0 })
        } else {
            None
        }
    }

    fn decode(value: &serde_json::Value) -> (r: Option<Self>) {
        if !value.is_object() {
            return None;
        }
        let data = read_member::<BaseHistoryData>(value, "data")?;
        Some(BaseHistoryResponse { data })
    }
}

/// One step from a merged member to the one that follows it.
#[derive(Debug, PartialEq, Eq)]
pub enum Step {
    /// Nothing stands on its branch: the former bases decide.
    NeedHistory(PrNumber),
    /// The active member that follows, if any does.
    Found(Option<PrNumber>),
    Refused(DiscoveryError),
    /// A merged member follows.
    Next(PrNumber),
}

/// The content of a [`Step`].
pub enum StepView {
    NeedHistory(PrNumber),
    Found(Option<PrNumber>),
    Refused(DiscoveryErrorView),
    Next(PrNumber),
}

impl DeepView for Step {
    type V = StepView;

    open spec fn deep_view(&self) -> StepView {
        match self {
            Step::NeedHistory(x) => StepView::NeedHistory(x.deep_view()),
            Step::Found(x) => StepView::Found(x.deep_view()),
            Step::Refused(x) => StepView::Refused(x.deep_view()),
            Step::Next(x) => StepView::Next(x.deep_view()),
        }
    }
}

// ---------------------------------------------------------------------------
// Former bases
// ---------------------------------------------------------------------------

/// The pull request that a key stands for.
pub open spec fn key_number(key: Seq<char>) -> Option<u64> {
    if key.len() > 0 && key[0] == 'p' {
        text::unsigned_value(key.skip(1))
    } else {
        None
    }
}

fn read_key(key: &str) -> (r: Option<u64>)
    ensures
        r == key_number(key@),
{
    proof {
        reveal_strlit("p");
    }
    let chars = text::chars_of(key);
    if chars.len() == 0 || chars[0] != 'p' {
        return None;
    }
    let rest = text::text_of(&chars, 1, chars.len());
    assert(rest@ =~= key@.skip(1));
    parse_unsigned(rest.as_str())
}

/// The row of a pull request: the one with the greatest key, if there are more.
pub open spec fn row_of(
    rows: Seq<(Seq<char>, BaseHistoryPullView)>,
    number: PrNumber,
) -> Option<(Seq<char>, BaseHistoryPullView)>
    decreases rows.len(),
{
    if rows.len() == 0 {
        None
    } else {
        let known = row_of(rows.drop_last(), number);
        if key_number(rows.last().0) == Some(number.0) && (known is None || !text::text_lt(
            rows.last().0,
            (known->0).0,
        )) {
            Some(rows.last())
        } else {
            known
        }
    }
}

/// Whether a name stands among former bases.
pub open spec fn was_base(nodes: Seq<BaseHistoryNodeView>, name: Seq<char>) -> bool {
    exists|i: int| 0 <= i < nodes.len() && (#[trigger] nodes[i]).previous_ref_name == Some(name)
}

/// Whether a pull request once stood on a branch.
pub open spec fn once_on(
    rows: Seq<(Seq<char>, BaseHistoryPullView)>,
    number: PrNumber,
    name: Seq<char>,
) -> bool {
    match row_of(rows, number) {
        Some(row) => was_base(row.1.timeline_items.nodes, name),
        None => false,
    }
}

fn find_row(rows: &Vec<(String, BaseHistoryPull)>, number: PrNumber) -> (r: Option<usize>)
    ensures
        match r {
            Some(at) => at < rows.len() && row_of(rows.deep_view(), number) == Some(
                rows.deep_view()[at as int],
            ),
            None => row_of(rows.deep_view(), number) is None,
        },
{
    let ghost all = rows.deep_view();
    let mut found: Option<usize> = None;
    let mut i: usize = 0;
    while i < rows.len()
        invariant
            all == rows.deep_view(),
            i <= rows.len(),
            match found {
                Some(at) => at < i && row_of(all.take(i as int), number) == Some(all[at as int]),
                None => row_of(all.take(i as int), number) is None,
            },
        decreases rows.len() - i,
    {
        assert(all.take(i as int + 1).drop_last() =~= all.take(i as int));
        assert(all[i as int] == rows[i as int].deep_view());
        let mine = match read_key(rows[i].0.as_str()) {
            Some(key) => key == number.0,
            None => false,
        };
        let later = match found {
            Some(at) => {
                assert(all[at as int] == rows[at as int].deep_view());
                !text_less(rows[i].0.as_str(), rows[at].0.as_str())
            },
            None => true,
        };
        if mine && later {
            found = Some(i);
        }
        i = i + 1;
    }
    assert(all.take(i as int) =~= all);
    found
}

fn stood_on(rows: &Vec<(String, BaseHistoryPull)>, number: PrNumber, name: &String) -> (r: bool)
    ensures
        r == once_on(rows.deep_view(), number, name@),
{
    match find_row(rows, number) {
        None => false,
        Some(at) => {
            assert(rows.deep_view()[at as int] == rows[at as int].deep_view());
            let nodes = &rows[at].1.timeline_items.nodes;
            let ghost all = nodes.deep_view();
            let mut i: usize = 0;
            while i < nodes.len()
                invariant
                    all == nodes.deep_view(),
                    once_on(rows.deep_view(), number, name@) == was_base(all, name@),
                    i <= nodes.len(),
                    forall|j: int|
                        0 <= j < i ==> (#[trigger] all[j]).previous_ref_name != Some(name@),
                decreases nodes.len() - i,
            {
                assert(all[i as int] == nodes[i as int].deep_view());
                let same = match &nodes[i].previous_ref_name {
                    Some(known) => known.same(name),
                    None => false,
                };
                if same {
                    assert(was_base(all, name@));
                    return true;
                }
                i = i + 1;
            }
            false
        },
    }
}

/// The numbers of pull requests.
pub open spec fn numbers_of(prs: Seq<PullRequestSnapshotView>) -> Seq<PrNumber> {
    Seq::new(prs.len(), |i: int| prs[i].number)
}

fn list_numbers(prs: &Vec<PullRequestSnapshot>) -> (r: Vec<PrNumber>)
    ensures
        r.deep_view() == numbers_of(prs.deep_view()),
{
    let ghost all = prs.deep_view();
    let mut out: Vec<PrNumber> = Vec::new();
    let mut i: usize = 0;
    while i < prs.len()
        invariant
            all == prs.deep_view(),
            i <= prs.len(),
            out.deep_view() == numbers_of(all).take(i as int),
        decreases prs.len() - i,
    {
        assert(all[i as int] == prs[i as int].deep_view());
        push_item(&mut out, prs[i].number);
        i = i + 1;
        assert(out.deep_view() =~= numbers_of(all).take(i as int));
    }
    assert(out.deep_view() =~= numbers_of(all));
    out
}

/// The bare numbers of pull requests.
pub open spec fn bare_numbers(prs: Seq<PullRequestSnapshotView>) -> Seq<u64> {
    Seq::new(prs.len(), |i: int| prs[i].number.0)
}

/// The bare numbers of pull requests.
pub fn list_bare_numbers(prs: &Vec<PullRequestSnapshot>) -> (r: Vec<u64>)
    ensures
        r.deep_view() == bare_numbers(prs.deep_view()),
{
    let ghost all = prs.deep_view();
    let mut out: Vec<u64> = Vec::new();
    let mut i: usize = 0;
    while i < prs.len()
        invariant
            all == prs.deep_view(),
            i <= prs.len(),
            out.deep_view() == bare_numbers(all).take(i as int),
        decreases prs.len() - i,
    {
        assert(all[i as int] == prs[i as int].deep_view());
        push_item(&mut out, prs[i].number.0);
        i = i + 1;
        assert(out.deep_view() =~= bare_numbers(all).take(i as int));
    }
    assert(out.deep_view() =~= bare_numbers(all));
    out
}

/// Reading the former bases of pull requests may end so.
pub open spec fn bases_read<R: CommandRunner>(
    runner: R,
    repository: RepositoryIdView,
    numbers: Seq<PrNumber>,
    outcome: Result<Seq<(Seq<char>, BaseHistoryPullView)>, DiscoveryErrorView>,
) -> bool {
    if numbers.len() == 0 {
        outcome == Ok::<_, DiscoveryErrorView>(Seq::<(Seq<char>, BaseHistoryPullView)>::empty())
    } else {
        exists|read: Result<BaseHistoryResponseView, DiscoveryErrorView>| #[trigger]
            provider::fetched::<R, BaseHistoryResponse>(
                runner,
                commands::base_history(repository, numbers),
                read,
            ) && outcome == match read {
                Err(error) => Err(error),
                Ok(response) => Ok(response.data.repository.pulls),
            }
    }
}

// ---------------------------------------------------------------------------
// Successors
// ---------------------------------------------------------------------------

/// A branch whose past cannot be mapped safely.
pub open spec fn unmapped(reason: Seq<char>, branch: Seq<char>, candidates: Seq<u64>) ->
    DiscoveryErrorView {
    DiscoveryErrorView::HistoricalCurrentPullRequest { reason, branch, candidates }
}

fn cannot_map(reason: &str, branch: &str, candidates: Vec<u64>) -> (r: DiscoveryError)
    ensures
        r.deep_view() == unmapped(reason@, branch@, candidates.deep_view()),
{
    DiscoveryError::HistoricalCurrentPullRequest {
        reason: reason.to_owned(),
        branch: branch.to_owned(),
        candidates,
    }
}

/// The past of one pull request cannot be mapped safely.
pub open spec fn lone(reason: Seq<char>, branch: Seq<char>, pr: PullRequestSnapshotView) ->
    DiscoveryErrorView {
    unmapped(reason, branch, seq![pr.number.0])
}

fn cannot_map_one(reason: &str, branch: &str, pr: &PullRequestSnapshot) -> (r: DiscoveryError)
    ensures
        r.deep_view() == lone(reason@, branch@, pr.deep_view()),
{
    let mut candidates: Vec<u64> = Vec::new();
    candidates.push(pr.number.0);
    assert(candidates.deep_view() =~= seq![pr.number.0]);
    cannot_map(reason, branch, candidates)
}

/// The pull request of a number.
pub open spec fn pull_with(prs: Seq<PullRequestSnapshotView>, number: PrNumber) -> Option<
    PullRequestSnapshotView,
>
    decreases prs.len(),
{
    if prs.len() == 0 {
        None
    } else {
        match pull_with(prs.drop_last(), number) {
            Some(found) => Some(found),
            None => if prs.last().number == number {
                Some(prs.last())
            } else {
                None
            },
        }
    }
}

fn find_pull<'a>(prs: &'a Vec<PullRequestSnapshot>, number: PrNumber) -> (r: Option<
    &'a PullRequestSnapshot,
>)
    ensures
        match r {
            Some(found) => pull_with(prs.deep_view(), number) == Some(found.deep_view()),
            None => pull_with(prs.deep_view(), number) is None,
        },
{
    let ghost all = prs.deep_view();
    let mut found: Option<usize> = None;
    let mut i: usize = 0;
    while i < prs.len()
        invariant
            all == prs.deep_view(),
            i <= prs.len(),
            match found {
                Some(at) => at < i && pull_with(all.take(i as int), number) == Some(
                    all[at as int],
                ),
                None => pull_with(all.take(i as int), number) is None,
            },
        decreases prs.len() - i,
    {
        assert(all.take(i as int + 1).drop_last() =~= all.take(i as int));
        assert(all[i as int] == prs[i as int].deep_view());
        if found.is_none() && prs[i].number.same(&number) {
            found = Some(i);
        }
        i = i + 1;
    }
    assert(all.take(i as int) =~= all);
    match found {
        Some(at) => {
            assert(all[at as int] == prs[at as int].deep_view());
            Some(&prs[at])
        },
        None => None,
    }
}

/// Whether a pull request may follow another: a labelled one of the same
/// repository.
pub open spec fn may_follow(
    candidate: PullRequestSnapshotView,
    label: Seq<char>,
    repository: RepositoryIdView,
    current: PrNumber,
) -> bool {
    candidate.number != current && candidate.has_label(label) && candidate.head.repository
        == repository && !candidate.cross_repository
}

/// Whether a pull request follows another, by its base or by a former one.
pub open spec fn does_follow(
    candidate: PullRequestSnapshotView,
    label: Seq<char>,
    repository: RepositoryIdView,
    current: PrNumber,
    name: Seq<char>,
    rows: Option<Seq<(Seq<char>, BaseHistoryPullView)>>,
) -> bool {
    may_follow(candidate, label, repository, current) && match rows {
        None => candidate.base.name == name,
        Some(known) => once_on(known, candidate.number, name),
    }
}

/// The pull requests that follow another, by their bases or by former ones.
pub open spec fn successors(
    prs: Seq<PullRequestSnapshotView>,
    label: Seq<char>,
    repository: RepositoryIdView,
    current: PrNumber,
    name: Seq<char>,
    rows: Option<Seq<(Seq<char>, BaseHistoryPullView)>>,
) -> Seq<PullRequestSnapshotView>
    decreases prs.len(),
{
    if prs.len() == 0 {
        Seq::empty()
    } else if does_follow(prs.last(), label, repository, current, name, rows) {
        successors(prs.drop_last(), label, repository, current, name, rows).push(prs.last())
    } else {
        successors(prs.drop_last(), label, repository, current, name, rows)
    }
}

fn list_successors(
    prs: &Vec<PullRequestSnapshot>,
    label: &String,
    repository: &RepositoryId,
    current: PrNumber,
    name: &String,
    rows: &Option<Vec<(String, BaseHistoryPull)>>,
) -> (r: Vec<PullRequestSnapshot>)
    ensures
        r.deep_view() == successors(
            prs.deep_view(),
            label@,
            repository.deep_view(),
            current,
            name@,
            rows.deep_view(),
        ),
{
    let ghost all = prs.deep_view();
    let mut out: Vec<PullRequestSnapshot> = Vec::new();
    let mut i: usize = 0;
    assert(out.deep_view() =~= Seq::<PullRequestSnapshotView>::empty());
    while i < prs.len()
        invariant
            all == prs.deep_view(),
            i <= prs.len(),
            out.deep_view() == successors(
                all.take(i as int),
                label@,
                repository.deep_view(),
                current,
                name@,
                rows.deep_view(),
            ),
        decreases prs.len() - i,
    {
        assert(all.take(i as int + 1).drop_last() =~= all.take(i as int));
        assert(all[i as int] == prs[i as int].deep_view());
        let candidate = &prs[i];
        let fits = !candidate.number.same(&current) && candidate.has_label(label.as_str())
            && candidate.head.repository.same(repository) && !candidate.cross_repository;
        let follows = fits && match rows {
            None => candidate.base.name.same(name),
            Some(known) => stood_on(known, candidate.number, name),
        };
        if follows {
            push_item(&mut out, candidate.dup());
        }
        i = i + 1;
    }
    assert(all.take(i as int) =~= all);
    out
}

/// The branch of a merged member.
pub open spec fn branch_of(
    prs: Seq<PullRequestSnapshotView>,
    historical: PullRequestSnapshotView,
    current: PrNumber,
) -> Seq<char> {
    match pull_with(prs, current) {
        Some(known) => known.head.name,
        None => historical.head.name,
    }
}

/// One step from a merged member to the one that follows it. Former bases count
/// only where nothing stands on its branch now.
pub open spec fn step_from(
    label: Seq<char>,
    repository: RepositoryIdView,
    branch: Seq<char>,
    historical: PullRequestSnapshotView,
    prs: Seq<PullRequestSnapshotView>,
    current: PrNumber,
    rows: Option<Seq<(Seq<char>, BaseHistoryPullView)>>,
) -> StepView {
    let name = branch_of(prs, historical, current);
    let direct = successors(prs, label, repository, current, name, None);
    if direct.len() == 0 && rows is None {
        StepView::NeedHistory(current)
    } else {
        let list = if direct.len() > 0 {
            direct
        } else {
            successors(prs, label, repository, current, name, rows)
        };
        if list.len() == 0 {
            StepView::Found(None)
        } else if list.len() > 1 {
            StepView::Refused(unmapped("ambiguous_successor"@, branch, bare_numbers(list)))
        } else if list[0].state == PullRequestState::Open && list[0].is_active_caravan_member() {
            StepView::Found(Some(list[0].number))
        } else if list[0].state != PullRequestState::Merged {
            StepView::Refused(lone("successor_not_active_or_merged"@, branch, historical))
        } else {
            StepView::Next(list[0].number)
        }
    }
}

fn take_step(
    label: &String,
    repository: &RepositoryId,
    branch: &str,
    historical: &PullRequestSnapshot,
    prs: &Vec<PullRequestSnapshot>,
    current: PrNumber,
    rows: &Option<Vec<(String, BaseHistoryPull)>>,
) -> (r: Step)
    ensures
        r.deep_view() == step_from(
            label@,
            repository.deep_view(),
            branch@,
            historical.deep_view(),
            prs.deep_view(),
            current,
            rows.deep_view(),
        ),
{
    let name = match find_pull(prs, current) {
        Some(known) => known.head.name.dup(),
        None => historical.head.name.dup(),
    };
    let direct = list_successors(prs, label, repository, current, &name, &None);
    assert(direct.deep_view().len() == direct.len());
    if direct.len() == 0 && rows.is_none() {
        return Step::NeedHistory(current);
    }
    let list = if direct.len() > 0 {
        direct
    } else {
        list_successors(prs, label, repository, current, &name, rows)
    };
    assert(list.deep_view().len() == list.len());
    if list.len() == 0 {
        return Step::Found(None);
    }
    if list.len() > 1 {
        return Step::Refused(cannot_map("ambiguous_successor", branch, list_bare_numbers(&list)));
    }
    assert(list.deep_view()[0] == list[0].deep_view());
    if list[0].state.same(&PullRequestState::Open) && list[0].is_active_caravan_member() {
        return Step::Found(Some(list[0].number));
    }
    if !list[0].state.same(&PullRequestState::Merged) {
        return Step::Refused(
            cannot_map_one("successor_not_active_or_merged", branch, historical),
        );
    }
    Step::Next(list[0].number)
}

/// From a merged member to the active one that follows, through merged ones. A
/// walk that takes more steps than there are pull requests goes in a circle.
pub open spec fn walked(
    label: Seq<char>,
    repository: RepositoryIdView,
    branch: Seq<char>,
    historical: PullRequestSnapshotView,
    prs: Seq<PullRequestSnapshotView>,
    current: PrNumber,
    rows: Option<Seq<(Seq<char>, BaseHistoryPullView)>>,
    steps: nat,
) -> StepView
    decreases steps,
{
    match step_from(label, repository, branch, historical, prs, current, rows) {
        StepView::Next(next) => if steps == 0 {
            StepView::Refused(lone("successor_cycle"@, branch, historical))
        } else {
            walked(
                label,
                repository,
                branch,
                historical,
                prs,
                next,
                rows,
                (steps - 1) as nat,
            )
        },
        end => end,
    }
}

/// From a merged member to the active one that follows, through merged ones.
pub fn walk(
    label: &String,
    repository: &RepositoryId,
    branch: &str,
    historical: &PullRequestSnapshot,
    prs: &Vec<PullRequestSnapshot>,
    from: PrNumber,
    rows: &Option<Vec<(String, BaseHistoryPull)>>,
) -> (r: Step)
    ensures
        r.deep_view() == walked(
            label@,
            repository.deep_view(),
            branch@,
            historical.deep_view(),
            prs.deep_view(),
            from,
            rows.deep_view(),
            prs.deep_view().len(),
        ),
{
    let mut current = from;
    let mut left: usize = prs.len();
    let ghost whole = walked(
        label@,
        repository.deep_view(),
        branch@,
        historical.deep_view(),
        prs.deep_view(),
        from,
        rows.deep_view(),
        prs.deep_view().len(),
    );
    loop
        invariant
            whole == walked(
                label@,
                repository.deep_view(),
                branch@,
                historical.deep_view(),
                prs.deep_view(),
                from,
                rows.deep_view(),
                prs.deep_view().len(),
            ),
            whole == walked(
                label@,
                repository.deep_view(),
                branch@,
                historical.deep_view(),
                prs.deep_view(),
                current,
                rows.deep_view(),
                left as nat,
            ),
        decreases left,
    {
        match take_step(label, repository, branch, historical, prs, current, rows) {
            Step::Next(next) => {
                if left == 0 {
                    return Step::Refused(cannot_map_one("successor_cycle", branch, historical));
                }
                current = next;
                left = left - 1;
            },
            end => {
                return end;
            },
        }
    }
}

proof fn lemma_successor_is_listed(
    prs: Seq<PullRequestSnapshotView>,
    label: Seq<char>,
    repository: RepositoryIdView,
    current: PrNumber,
    name: Seq<char>,
    rows: Option<Seq<(Seq<char>, BaseHistoryPullView)>>,
    k: int,
)
    requires
        0 <= k < successors(prs, label, repository, current, name, rows).len(),
    ensures
        exists|i: int|
            0 <= i < prs.len() && #[trigger] prs[i] == successors(
                prs,
                label,
                repository,
                current,
                name,
                rows,
            )[k],
        does_follow(
            successors(prs, label, repository, current, name, rows)[k],
            label,
            repository,
            current,
            name,
            rows,
        ),
    decreases prs.len(),
{
    if prs.len() > 0 {
        let before = prs.drop_last();
        let earlier = successors(before, label, repository, current, name, rows);
        if k < earlier.len() {
            lemma_successor_is_listed(before, label, repository, current, name, rows, k);
            let i = choose|i: int| 0 <= i < before.len() && #[trigger] before[i] == earlier[k];
            assert(prs[i] == earlier[k]);
        } else {
            assert(prs[prs.len() - 1] == successors(
                prs,
                label,
                repository,
                current,
                name,
                rows,
            )[k]);
        }
    }
}

/// A step leads to one of the pull requests, a labelled one of the repository;
/// the one that it ends at is open and an active member.
proof fn lemma_step_is_listed(
    label: Seq<char>,
    repository: RepositoryIdView,
    branch: Seq<char>,
    historical: PullRequestSnapshotView,
    prs: Seq<PullRequestSnapshotView>,
    current: PrNumber,
    rows: Option<Seq<(Seq<char>, BaseHistoryPullView)>>,
)
    ensures
        match step_from(label, repository, branch, historical, prs, current, rows) {
            StepView::Next(next) => exists|i: int|
                0 <= i < prs.len() && (#[trigger] prs[i]).number == next,
            StepView::Found(Some(found)) => is_found(label, repository, prs, found),
            _ => true,
        },
{
    let name = branch_of(prs, historical, current);
    let direct = successors(prs, label, repository, current, name, None);
    if direct.len() > 0 {
        lemma_successor_is_listed(prs, label, repository, current, name, None, 0);
    } else {
        let list = successors(prs, label, repository, current, name, rows);
        if list.len() > 0 {
            lemma_successor_is_listed(prs, label, repository, current, name, rows, 0);
        }
    }
}

/// Whether a number is that of an open active member among the pull requests,
/// labelled and of the repository.
pub open spec fn is_found(
    label: Seq<char>,
    repository: RepositoryIdView,
    prs: Seq<PullRequestSnapshotView>,
    number: PrNumber,
) -> bool {
    exists|i: int|
        0 <= i < prs.len() && (#[trigger] prs[i]).number == number && prs[i].state
            == PullRequestState::Open && prs[i].is_active_caravan_member() && prs[i].has_label(
                label,
            )
            && prs[i].head.repository == repository && !prs[i].cross_repository
}

/// What a walk finds is an open active member among the pull requests, labelled
/// and of the repository.
pub proof fn lemma_found_is_active(
    label: Seq<char>,
    repository: RepositoryIdView,
    branch: Seq<char>,
    historical: PullRequestSnapshotView,
    prs: Seq<PullRequestSnapshotView>,
    current: PrNumber,
    rows: Option<Seq<(Seq<char>, BaseHistoryPullView)>>,
    steps: nat,
    number: PrNumber,
)
    requires
        walked(label, repository, branch, historical, prs, current, rows, steps)
            == StepView::Found(Some(number)),
    ensures
        is_found(label, repository, prs, number),
    decreases steps,
{
    lemma_step_is_listed(label, repository, branch, historical, prs, current, rows);
    match step_from(label, repository, branch, historical, prs, current, rows) {
        StepView::Next(next) => {
            lemma_found_is_active(
                label,
                repository,
                branch,
                historical,
                prs,
                next,
                rows,
                (steps - 1) as nat,
                number,
            );
        },
        _ => {},
    }
}

/// Where a walk stands after some steps, unless it ended before.
pub open spec fn stands(
    label: Seq<char>,
    repository: RepositoryIdView,
    branch: Seq<char>,
    historical: PullRequestSnapshotView,
    prs: Seq<PullRequestSnapshotView>,
    from: PrNumber,
    rows: Option<Seq<(Seq<char>, BaseHistoryPullView)>>,
    k: nat,
) -> Option<PrNumber>
    decreases k,
{
    if k == 0 {
        Some(from)
    } else {
        match stands(label, repository, branch, historical, prs, from, rows, (k - 1) as nat) {
            None => None,
            Some(current) => match step_from(
                label,
                repository,
                branch,
                historical,
                prs,
                current,
                rows,
            ) {
                StepView::Next(next) => Some(next),
                _ => None,
            },
        }
    }
}

proof fn lemma_stands_add(
    label: Seq<char>,
    repository: RepositoryIdView,
    branch: Seq<char>,
    historical: PullRequestSnapshotView,
    prs: Seq<PullRequestSnapshotView>,
    from: PrNumber,
    rows: Option<Seq<(Seq<char>, BaseHistoryPullView)>>,
    a: nat,
    b: nat,
)
    ensures
        stands(label, repository, branch, historical, prs, from, rows, a + b) == match stands(
            label,
            repository,
            branch,
            historical,
            prs,
            from,
            rows,
            a,
        ) {
            None => None,
            Some(current) => stands(
                label,
                repository,
                branch,
                historical,
                prs,
                current,
                rows,
                b,
            ),
        },
    decreases b,
{
    if b > 0 {
        lemma_stands_add(
            label,
            repository,
            branch,
            historical,
            prs,
            from,
            rows,
            a,
            (b - 1) as nat,
        );
        assert((a + b - 1) as nat == a + (b - 1) as nat);
    }
}

/// A walk that is refused for its length has not ended after so many steps.
proof fn lemma_refused_stands(
    label: Seq<char>,
    repository: RepositoryIdView,
    branch: Seq<char>,
    historical: PullRequestSnapshotView,
    prs: Seq<PullRequestSnapshotView>,
    from: PrNumber,
    rows: Option<Seq<(Seq<char>, BaseHistoryPullView)>>,
    steps: nat,
)
    ensures
        stands(label, repository, branch, historical, prs, from, rows, steps + 1) is Some
            ==> walked(label, repository, branch, historical, prs, from, rows, steps)
            == StepView::Refused(lone("successor_cycle"@, branch, historical)),
        stands(label, repository, branch, historical, prs, from, rows, steps + 1) is None
            ==> forall|more: nat|
            steps <= more ==> #[trigger] walked(
                label,
                repository,
                branch,
                historical,
                prs,
                from,
                rows,
                more,
            ) == walked(label, repository, branch, historical, prs, from, rows, steps),
    decreases steps,
{
    match step_from(label, repository, branch, historical, prs, from, rows) {
        StepView::Next(next) => {
            assert(stands(label, repository, branch, historical, prs, from, rows, 0) == Some(from));
            assert(stands(label, repository, branch, historical, prs, from, rows, 1) == Some(next));
            lemma_stands_add(label, repository, branch, historical, prs, from, rows, 1, steps);
            assert(1 + steps == steps + 1);
            if steps > 0 {
                lemma_refused_stands(
                    label,
                    repository,
                    branch,
                    historical,
                    prs,
                    next,
                    rows,
                    (steps - 1) as nat,
                );
                assert forall|more: nat|
                    steps <= more && stands(
                        label,
                        repository,
                        branch,
                        historical,
                        prs,
                        from,
                        rows,
                        steps + 1,
                    ) is None implies #[trigger] walked(
                    label,
                    repository,
                    branch,
                    historical,
                    prs,
                    from,
                    rows,
                    more,
                ) == walked(label, repository, branch, historical, prs, from, rows, steps) by {
                    assert(walked(
                        label,
                        repository,
                        branch,
                        historical,
                        prs,
                        next,
                        rows,
                        (more - 1) as nat,
                    ) == walked(
                        label,
                        repository,
                        branch,
                        historical,
                        prs,
                        next,
                        rows,
                        (steps - 1) as nat,
                    ));
                }
            } else {
                assert(stands(label, repository, branch, historical, prs, next, rows, 0) is Some);
            }
        },
        _ => {
            assert(stands(label, repository, branch, historical, prs, from, rows, 0) == Some(from));
            assert(stands(label, repository, branch, historical, prs, from, rows, 1) is None);
            lemma_stands_add(label, repository, branch, historical, prs, from, rows, 1, steps);
            assert(1 + steps == steps + 1);
        },
    }
}

/// Two of the places of a long walk are the same.
proof fn lemma_place_repeats(
    label: Seq<char>,
    repository: RepositoryIdView,
    branch: Seq<char>,
    historical: PullRequestSnapshotView,
    prs: Seq<PullRequestSnapshotView>,
    from: PrNumber,
    rows: Option<Seq<(Seq<char>, BaseHistoryPullView)>>,
) -> (pair: (nat, nat))
    requires
        stands(label, repository, branch, historical, prs, from, rows, prs.len() + 1) is Some,
    ensures
        pair.0 < pair.1 <= prs.len() + 1,
        stands(label, repository, branch, historical, prs, from, rows, pair.0) == stands(
            label,
            repository,
            branch,
            historical,
            prs,
            from,
            rows,
            pair.1,
        ),
{
    let n = prs.len();
    let places = Seq::new(
        n + 1,
        |i: int|
            stands(label, repository, branch, historical, prs, from, rows, (i + 1) as nat)->0,
    );
    let numbers = Seq::new(n, |i: int| prs[i].number);
    assert forall|i: int| 0 <= i < n + 1 implies numbers.contains(#[trigger] places[i]) && stands(
        label,
        repository,
        branch,
        historical,
        prs,
        from,
        rows,
        (i + 1) as nat,
    ) is Some by {
        lemma_stands_add(
            label,
            repository,
            branch,
            historical,
            prs,
            from,
            rows,
            (i + 1) as nat,
            (n - i) as nat,
        );
        assert((i + 1) as nat + (n - i) as nat == n + 1);
        lemma_stands_add(label, repository, branch, historical, prs, from, rows, i as nat, 1);
        let current = stands(label, repository, branch, historical, prs, from, rows, i as nat)->0;
        lemma_step_is_listed(label, repository, branch, historical, prs, current, rows);
        let k = choose|k: int| 0 <= k < n && (#[trigger] prs[k]).number == places[i];
        assert(numbers[k] == places[i]);
    }
    if places.no_duplicates() {
        places.unique_seq_to_set();
        numbers.lemma_cardinality_of_set();
        vstd::seq_lib::seq_to_set_is_finite(numbers);
        assert(places.to_set().subset_of(numbers.to_set())) by {
            assert forall|x: PrNumber| places.to_set().contains(x) implies numbers.to_set().contains(
                x,
            ) by {
                let i = choose|i: int| 0 <= i < places.len() && places[i] == x;
                assert(numbers.contains(places[i]));
            }
        }
        vstd::set_lib::lemma_len_subset(places.to_set(), numbers.to_set());
        assert(false);
    }
    let (i, j) = choose|i: int, j: int|
        0 <= i < places.len() && 0 <= j < places.len() && i != j && places[i] == places[j];
    let a = if i < j {
        i
    } else {
        j
    };
    let b = if i < j {
        j
    } else {
        i
    };
    assert(numbers.contains(places[a]) && numbers.contains(places[b]));
    ((a + 1) as nat, (b + 1) as nat)
}

proof fn lemma_never_ends(
    label: Seq<char>,
    repository: RepositoryIdView,
    branch: Seq<char>,
    historical: PullRequestSnapshotView,
    prs: Seq<PullRequestSnapshotView>,
    from: PrNumber,
    rows: Option<Seq<(Seq<char>, BaseHistoryPullView)>>,
    k: nat,
)
    requires
        stands(label, repository, branch, historical, prs, from, rows, prs.len() + 1) is Some,
    ensures
        stands(label, repository, branch, historical, prs, from, rows, k) is Some,
    decreases k,
{
    let n = prs.len();
    if k <= n + 1 {
        lemma_stands_add(
            label,
            repository,
            branch,
            historical,
            prs,
            from,
            rows,
            k,
            (n + 1 - k) as nat,
        );
        assert(k + (n + 1 - k) as nat == n + 1);
    } else {
        let (i, j) = lemma_place_repeats(label, repository, branch, historical, prs, from, rows);
        let rest = (k - j) as nat;
        lemma_stands_add(label, repository, branch, historical, prs, from, rows, j, rest);
        lemma_stands_add(label, repository, branch, historical, prs, from, rows, i, rest);
        assert(j + rest == k);
        lemma_never_ends(label, repository, branch, historical, prs, from, rows, i + rest);
    }
}

/// A walk is refused for its length only where it would never end: where more
/// steps than there are pull requests do not end it, no number of steps does.
/// Any other walk ends the same, however many more steps it may take.
pub proof fn lemma_refused_walk_never_ends(
    label: Seq<char>,
    repository: RepositoryIdView,
    branch: Seq<char>,
    historical: PullRequestSnapshotView,
    prs: Seq<PullRequestSnapshotView>,
    from: PrNumber,
    rows: Option<Seq<(Seq<char>, BaseHistoryPullView)>>,
)
    ensures
        ({
            let bound = prs.len();
            let whole = walked(label, repository, branch, historical, prs, from, rows, bound);
            if stands(label, repository, branch, historical, prs, from, rows, bound + 1) is Some {
                whole == StepView::Refused(lone("successor_cycle"@, branch, historical))
                    && forall|k: nat| #[trigger]
                    stands(label, repository, branch, historical, prs, from, rows, k) is Some
            } else {
                forall|more: nat|
                    bound <= more ==> #[trigger] walked(
                        label,
                        repository,
                        branch,
                        historical,
                        prs,
                        from,
                        rows,
                        more,
                    ) == whole
            }
        }),
{
    let bound = prs.len();
    lemma_refused_stands(label, repository, branch, historical, prs, from, rows, bound);
    if stands(label, repository, branch, historical, prs, from, rows, bound + 1) is Some {
        assert forall|k: nat| #[trigger]
            stands(label, repository, branch, historical, prs, from, rows, k) is Some by {
            lemma_never_ends(label, repository, branch, historical, prs, from, rows, k);
        }
    }
}

// ---------------------------------------------------------------------------
// The past of a branch
// ---------------------------------------------------------------------------

/// The pull requests of documents, up to the first that has none.
pub open spec fn snapshots_of(
    rows: Seq<PullRequestJsonView>,
    repository: RepositoryIdView,
) -> Result<Seq<PullRequestSnapshotView>, DiscoveryErrorView>
    decreases rows.len(),
{
    if rows.len() == 0 {
        Ok(Seq::empty())
    } else {
        match snapshots_of(rows.drop_last(), repository) {
            Err(error) => Err(error),
            Ok(list) => match rows.last().snapshot(repository) {
                Err(error) => Err(error),
                Ok(pr) => Ok(list.push(pr)),
            },
        }
    }
}

proof fn lemma_snapshots_stop(
    rows: Seq<PullRequestJsonView>,
    repository: RepositoryIdView,
    k: int,
)
    requires
        0 <= k <= rows.len(),
        snapshots_of(rows.take(k), repository) is Err,
    ensures
        snapshots_of(rows, repository) == snapshots_of(rows.take(k), repository),
    decreases rows.len(),
{
    if k < rows.len() {
        assert(rows.drop_last().take(k) =~= rows.take(k));
        lemma_snapshots_stop(rows.drop_last(), repository, k);
    } else {
        assert(rows.take(k) =~= rows);
    }
}

/// The generation facts of documents.
pub open spec fn facts_of(rows: Seq<PullRequestJsonView>) -> Seq<PullRequestGenerationFactView> {
    Seq::new(rows.len(), |i: int| rows[i].generation_fact())
}

/// The pull requests of documents and their generation facts.
pub open spec fn both_of(
    rows: Seq<PullRequestJsonView>,
    repository: RepositoryIdView,
) -> Result<
    (Seq<PullRequestSnapshotView>, Seq<PullRequestGenerationFactView>),
    DiscoveryErrorView,
> {
    match snapshots_of(rows, repository) {
        Err(error) => Err(error),
        Ok(list) => Ok((list, facts_of(rows))),
    }
}

/// The pull requests of documents and their generation facts.
pub fn convert_pulls(rows: Vec<PullRequestJson>, repository: &RepositoryId) -> (r: Result<
    (Vec<PullRequestSnapshot>, Vec<PullRequestGenerationFact>),
    DiscoveryError,
>)
    ensures
        provider::read_view(r) == both_of(rows.deep_view(), repository.deep_view()),
{
    let ghost all = rows.deep_view();
    let mut prs: Vec<PullRequestSnapshot> = Vec::new();
    let mut facts: Vec<PullRequestGenerationFact> = Vec::new();
    let mut i: usize = 0;
    assert(all.take(0) =~= Seq::<PullRequestJsonView>::empty());
    assert(prs.deep_view() =~= Seq::<PullRequestSnapshotView>::empty());
    while i < rows.len()
        invariant
            all == rows.deep_view(),
            i <= rows.len(),
            snapshots_of(all.take(i as int), repository.deep_view()) == Ok::<_, DiscoveryErrorView>(
                prs.deep_view(),
            ),
            facts.deep_view() == facts_of(all).take(i as int),
        decreases rows.len() - i,
    {
        assert(all.take(i as int + 1).drop_last() =~= all.take(i as int));
        assert(all[i as int] == rows[i as int].deep_view());
        push_item(&mut facts, rows[i].generation_fact());
        match rows[i].dup().into_snapshot(repository) {
            Err(error) => {
                proof {
                    lemma_snapshots_stop(all, repository.deep_view(), i as int + 1);
                }
                return Err(error);
            },
            Ok(pr) => {
                push_item(&mut prs, pr);
            },
        }
        i = i + 1;
        assert(facts.deep_view() =~= facts_of(all).take(i as int));
    }
    assert(all.take(i as int) =~= all);
    assert(facts.deep_view() =~= facts_of(all));
    Ok((prs, facts))
}

/// Reading pull requests may end so.
pub open spec fn pulls_read<R: CommandRunner>(
    runner: R,
    command: CommandSpecView,
    repository: RepositoryIdView,
    outcome: Result<
        (Seq<PullRequestSnapshotView>, Seq<PullRequestGenerationFactView>),
        DiscoveryErrorView,
    >,
) -> bool {
    exists|read: Result<Seq<PullRequestJsonView>, DiscoveryErrorView>| #[trigger]
        provider::fetched::<R, Vec<PullRequestJson>>(runner, command, read) && outcome
            == match read {
            Err(error) => Err(error),
            Ok(rows) => both_of(rows, repository),
        }
}

/// The pull requests of a branch.
pub open spec fn on_branch(prs: Seq<PullRequestSnapshotView>, branch: Seq<char>) -> Seq<
    PullRequestSnapshotView,
>
    decreases prs.len(),
{
    if prs.len() == 0 {
        Seq::empty()
    } else if prs.last().head.name == branch {
        on_branch(prs.drop_last(), branch).push(prs.last())
    } else {
        on_branch(prs.drop_last(), branch)
    }
}

/// Ordered pull requests with one more, behind those of the same number.
pub open spec fn placed(
    prs: Seq<PullRequestSnapshotView>,
    pr: PullRequestSnapshotView,
) -> Seq<PullRequestSnapshotView>
    decreases prs.len(),
{
    if prs.len() == 0 || prs.last().number.0 <= pr.number.0 {
        prs.push(pr)
    } else {
        placed(prs.drop_last(), pr).push(prs.last())
    }
}

/// Pull requests ordered by number.
pub open spec fn by_number(prs: Seq<PullRequestSnapshotView>) -> Seq<PullRequestSnapshotView>
    decreases prs.len(),
{
    if prs.len() == 0 {
        Seq::empty()
    } else {
        placed(by_number(prs.drop_last()), prs.last())
    }
}

/// Whether pull requests are ordered by number.
pub open spec fn numbered(prs: Seq<PullRequestSnapshotView>) -> bool {
    forall|i: int, j: int|
        0 <= i < j < prs.len() ==> (#[trigger] prs[i]).number.0 <= (#[trigger] prs[j]).number.0
}

proof fn lemma_placed(prs: Seq<PullRequestSnapshotView>, pr: PullRequestSnapshotView)
    requires
        numbered(prs),
    ensures
        numbered(placed(prs, pr)),
        placed(prs, pr).to_multiset() == prs.to_multiset().insert(pr),
        placed(prs, pr).len() == prs.len() + 1,
    decreases prs.len(),
{
    broadcast use vstd::seq_lib::group_to_multiset_ensures;

    if prs.len() > 0 && prs.last().number.0 > pr.number.0 {
        let below = prs.drop_last();
        let rest = placed(below, pr);
        lemma_placed(below, pr);
        assert(prs =~= below.push(prs.last()));
        assert(numbered(rest.push(prs.last()))) by {
            assert forall|i: int| 0 <= i < rest.len() implies (#[trigger] rest[i]).number.0
                <= prs.last().number.0 by {
                assert(rest.to_multiset().count(rest[i]) > 0) by {
                    assert(rest.contains(rest[i]));
                }
                if rest[i] != pr {
                    assert(below.to_multiset().count(rest[i]) > 0);
                    assert(below.contains(rest[i]));
                    let k = choose|k: int| 0 <= k < below.len() && below[k] == rest[i];
                    assert(prs[k] == below[k]);
                }
            }
        }
    }
}

/// Ordering pull requests keeps each of them and puts them in order.
pub proof fn lemma_by_number(prs: Seq<PullRequestSnapshotView>)
    ensures
        numbered(by_number(prs)),
        by_number(prs).to_multiset() == prs.to_multiset(),
    decreases prs.len(),
{
    broadcast use vstd::seq_lib::group_to_multiset_ensures;

    if prs.len() > 0 {
        lemma_by_number(prs.drop_last());
        lemma_placed(by_number(prs.drop_last()), prs.last());
        assert(prs =~= prs.drop_last().push(prs.last()));
    } else {
        assert(by_number(prs) =~= prs);
    }
}

fn place(prs: &Vec<PullRequestSnapshot>, to: usize, pr: PullRequestSnapshot) -> (r: Vec<
    PullRequestSnapshot,
>)
    requires
        to <= prs.len(),
    ensures
        r.deep_view() == placed(prs.deep_view().take(to as int), pr.deep_view()),
    decreases to,
{
    let ghost all = prs.deep_view();
    if to == 0 || prs[to - 1].number.0 <= pr.number.0 {
        let mut out = dup_range(prs, 0, to);
        assert(out.deep_view() =~= all.take(to as int));
        if to > 0 {
            assert(all.take(to as int).last() == prs[to - 1].deep_view());
        }
        push_item(&mut out, pr);
        return out;
    }
    assert(all.take(to as int).drop_last() =~= all.take(to - 1));
    assert(all.take(to as int).last() == prs[to - 1].deep_view());
    let mut out = place(prs, to - 1, pr);
    push_item(&mut out, prs[to - 1].dup());
    out
}

fn order_by_number(prs: &Vec<PullRequestSnapshot>) -> (r: Vec<PullRequestSnapshot>)
    ensures
        r.deep_view() == by_number(prs.deep_view()),
{
    let ghost all = prs.deep_view();
    let mut out: Vec<PullRequestSnapshot> = Vec::new();
    let mut i: usize = 0;
    assert(all.take(0) =~= Seq::<PullRequestSnapshotView>::empty());
    assert(out.deep_view() =~= Seq::<PullRequestSnapshotView>::empty());
    while i < prs.len()
        invariant
            all == prs.deep_view(),
            i <= prs.len(),
            out.deep_view() == by_number(all.take(i as int)),
        decreases prs.len() - i,
    {
        assert(all.take(i as int + 1).drop_last() =~= all.take(i as int));
        assert(all[i as int] == prs[i as int].deep_view());
        let count = out.len();
        assert(out.deep_view().take(count as int) =~= out.deep_view());
        out = place(&out, count, prs[i].dup());
        i = i + 1;
    }
    assert(all.take(i as int) =~= all);
    out
}

/// The pull requests of a branch.
pub fn keep_branch(prs: &Vec<PullRequestSnapshot>, branch: &str) -> (r: Vec<PullRequestSnapshot>)
    ensures
        r.deep_view() == on_branch(prs.deep_view(), branch@),
{
    let ghost all = prs.deep_view();
    let mut out: Vec<PullRequestSnapshot> = Vec::new();
    let mut i: usize = 0;
    assert(out.deep_view() =~= Seq::<PullRequestSnapshotView>::empty());
    while i < prs.len()
        invariant
            all == prs.deep_view(),
            i <= prs.len(),
            out.deep_view() == on_branch(all.take(i as int), branch@),
        decreases prs.len() - i,
    {
        assert(all.take(i as int + 1).drop_last() =~= all.take(i as int));
        assert(all[i as int] == prs[i as int].deep_view());
        if text_eq(prs[i].head.name.as_str(), branch) {
            push_item(&mut out, prs[i].dup());
        }
        i = i + 1;
    }
    assert(all.take(i as int) =~= all);
    out
}

/// The open pull requests.
pub open spec fn open_of(prs: Seq<PullRequestSnapshotView>) -> Seq<PullRequestSnapshotView>
    decreases prs.len(),
{
    if prs.len() == 0 {
        Seq::empty()
    } else if prs.last().state == PullRequestState::Open {
        open_of(prs.drop_last()).push(prs.last())
    } else {
        open_of(prs.drop_last())
    }
}

fn keep_open(prs: &Vec<PullRequestSnapshot>) -> (r: Vec<PullRequestSnapshot>)
    ensures
        r.deep_view() == open_of(prs.deep_view()),
{
    let ghost all = prs.deep_view();
    let mut out: Vec<PullRequestSnapshot> = Vec::new();
    let mut i: usize = 0;
    assert(out.deep_view() =~= Seq::<PullRequestSnapshotView>::empty());
    while i < prs.len()
        invariant
            all == prs.deep_view(),
            i <= prs.len(),
            out.deep_view() == open_of(all.take(i as int)),
        decreases prs.len() - i,
    {
        assert(all.take(i as int + 1).drop_last() =~= all.take(i as int));
        assert(all[i as int] == prs[i as int].deep_view());
        if prs[i].state.same(&PullRequestState::Open) {
            push_item(&mut out, prs[i].dup());
        }
        i = i + 1;
    }
    assert(all.take(i as int) =~= all);
    out
}

/// Whether the head of a pull request is in another repository.
pub open spec fn is_fork(pr: PullRequestSnapshotView, repository: RepositoryIdView) -> bool {
    pr.cross_repository || pr.head.repository != repository
}

/// Whether another pull request of the branch is or was a member.
pub open spec fn other_member(
    history: Seq<PullRequestSnapshotView>,
    current: PrNumber,
    label: Seq<char>,
) -> bool {
    exists|i: int|
        0 <= i < history.len() && (#[trigger] history[i]).number != current && (
        history[i].has_label(label) || history[i].has_label("caravan-evicted"@))
}

fn has_other_member(history: &Vec<PullRequestSnapshot>, current: PrNumber, label: &str) -> (r: bool)
    ensures
        r == other_member(history.deep_view(), current, label@),
{
    let ghost all = history.deep_view();
    let mut i: usize = 0;
    while i < history.len()
        invariant
            all == history.deep_view(),
            i <= history.len(),
            forall|j: int|
                0 <= j < i ==> !((#[trigger] all[j]).number != current && (all[j].has_label(label@)
                    || all[j].has_label("caravan-evicted"@))),
        decreases history.len() - i,
    {
        assert(all[i as int] == history[i as int].deep_view());
        if !history[i].number.same(&current) && (history[i].has_label(label)
            || history[i].has_label("caravan-evicted")) {
            return true;
        }
        i = i + 1;
    }
    false
}

/// What stands on the branch: here, and at the provider.
pub type Heads = Result<
    (Seq<char>, Result<Seq<char>, DiscoveryErrorView>),
    DiscoveryErrorView,
>;

/// The text of a command may be so.
pub open spec fn said<R: CommandRunner>(
    runner: R,
    command: CommandSpecView,
    outcome: Result<Seq<char>, DiscoveryErrorView>,
) -> bool {
    exists|done: Result<CommandOutputView, DiscoveryErrorView>| #[trigger]
        provider::completed(runner, command, done) && outcome == match done {
            Err(error) => Err(error),
            Ok(output) => Ok(text::trimmed(output.stdout)),
        }
}

/// Reading what stands at the provider may end so.
pub open spec fn remote_read<R: CommandRunner>(
    runner: R,
    slug: Seq<char>,
    branch: Seq<char>,
    local: Seq<char>,
    outcome: Heads,
) -> bool {
    exists|read: Result<GitRefJsonView, DiscoveryErrorView>| #[trigger]
        provider::fetched::<R, GitRefJson>(runner, commands::default_branch(slug, branch), read)
            && outcome == Ok::<_, DiscoveryErrorView>(
            (
                local,
                match read {
                    Err(error) => Err(error),
                    Ok(reference) => Ok(reference.object.sha),
                },
            ),
        )
}

/// Reading what stands on the branch may end so.
pub open spec fn heads_read<R: CommandRunner>(
    runner: R,
    slug: Seq<char>,
    branch: Seq<char>,
    outcome: Heads,
) -> bool {
    exists|local: Result<Seq<char>, DiscoveryErrorView>| #[trigger]
        said(runner, commands::current_head_oid(), local) && match local {
            Err(error) => outcome == Err::<(Seq<char>, Result<Seq<char>, DiscoveryErrorView>), _>(
                error,
            ),
            Ok(oid) => remote_read(runner, slug, branch, oid, outcome),
        }
}

/// The content of what stands on the branch.
pub open spec fn heads_view(
    heads: Result<(String, Result<String, DiscoveryError>), DiscoveryError>,
) -> Heads {
    match heads {
        Err(error) => Err(error.deep_view()),
        Ok(pair) => Ok((pair.0@, provider::read_view(pair.1))),
    }
}

/// Whether an open pull request is exactly what stands on the branch.
pub open spec fn reuse_of(
    label: Seq<char>,
    branch: Seq<char>,
    history: Seq<PullRequestSnapshotView>,
    current: PullRequestSnapshotView,
    heads: Heads,
) -> Result<Option<PullRequestSnapshotView>, DiscoveryErrorView> {
    match heads {
        Err(error) => Err(error),
        Ok((_, Err(error))) => Err(error),
        Ok((local, Ok(remote))) => if current.head.oid != local || remote != local {
            Err(lone("exact_open_head_mismatch"@, branch, current))
        } else if other_member(history, current.number, label) {
            Err(lone("historical_membership_conflict"@, branch, current))
        } else {
            Ok(Some(current))
        },
    }
}

/// Whether an open pull request is exactly what stands on the branch.
pub fn judge_reuse(
    label: &str,
    branch: &str,
    history: &Vec<PullRequestSnapshot>,
    current: &PullRequestSnapshot,
    heads: Result<(String, Result<String, DiscoveryError>), DiscoveryError>,
) -> (r: Result<Option<PullRequestSnapshot>, DiscoveryError>)
    ensures
        provider::read_view(r) == reuse_of(
            label@,
            branch@,
            history.deep_view(),
            current.deep_view(),
            heads_view(heads),
        ),
{
    match heads {
        Err(error) => Err(error),
        Ok((local, read)) => match read {
            Err(error) => Err(error),
            Ok(remote) => {
                if !current.head.oid.0.same(&local) || !remote.same(&local) {
                    return Err(cannot_map_one("exact_open_head_mismatch", branch, current));
                }
                if has_other_member(history, current.number, label) {
                    return Err(cannot_map_one("historical_membership_conflict", branch, current));
                }
                Ok(Some(current.dup()))
            },
        },
    }
}

/// Looking for an open pull request of the branch may end so.
pub open spec fn reuse_read<R: CommandRunner>(
    runner: R,
    label: Seq<char>,
    repository: RepositoryIdView,
    branch: Seq<char>,
    history: Seq<PullRequestSnapshotView>,
    outcome: Result<Option<PullRequestSnapshotView>, DiscoveryErrorView>,
) -> bool {
    let open = open_of(history);
    if open.len() == 0 {
        outcome == Ok::<_, DiscoveryErrorView>(None::<PullRequestSnapshotView>)
    } else if open.len() != 1 {
        outcome == Err::<Option<PullRequestSnapshotView>, _>(
            unmapped("open_branch_reuse_ambiguous"@, branch, bare_numbers(open)),
        )
    } else if is_fork(open[0], repository) {
        outcome == Err::<Option<PullRequestSnapshotView>, _>(
            lone("fork_only_open_head"@, branch, open[0]),
        )
    } else {
        exists|heads: Heads| #[trigger]
            heads_read(runner, repository.slug(), branch, heads) && outcome == reuse_of(
                label,
                branch,
                history,
                open[0],
                heads,
            )
    }
}

/// The commit of a new generation that was published.
pub open spec fn published(
    branch: Seq<char>,
    historical: PullRequestSnapshotView,
    heads: Heads,
) -> Result<Seq<char>, DiscoveryErrorView> {
    match heads {
        Err(error) => Err(error),
        Ok((_, Err(error))) => Err(error),
        Ok((local, Ok(remote))) => if local == historical.head.oid || remote
            == historical.head.oid {
            Err(lone("unchanged_merged_head"@, branch, historical))
        } else if local != remote {
            Err(lone("unpublished_generation"@, branch, historical))
        } else {
            Ok(local)
        },
    }
}

/// The commit of a new generation that was published.
pub fn judge_published(
    branch: &str,
    historical: &PullRequestSnapshot,
    heads: Result<(String, Result<String, DiscoveryError>), DiscoveryError>,
) -> (r: Result<String, DiscoveryError>)
    ensures
        provider::read_view(r) == published(branch@, historical.deep_view(), heads_view(heads)),
{
    match heads {
        Err(error) => Err(error),
        Ok((local, read)) => match read {
            Err(error) => Err(error),
            Ok(remote) => {
                if local.same(&historical.head.oid.0) || remote.same(&historical.head.oid.0) {
                    return Err(cannot_map_one("unchanged_merged_head", branch, historical));
                }
                if !local.same(&remote) {
                    return Err(cannot_map_one("unpublished_generation", branch, historical));
                }
                Ok(local)
            },
        },
    }
}

/// Whether a commit is an ancestor of another.
pub open spec fn is_ancestor(old_oid: Seq<char>, new_oid: Seq<char>) -> CommandSpecView {
    command::git(seq!["merge-base"@, "--is-ancestor"@, old_oid, new_oid])
}

fn is_ancestor_command(old_oid: &str, new_oid: &str) -> (r: CommandSpec)
    ensures
        r.deep_view() == is_ancestor(old_oid@, new_oid@),
{
    let args = vec!["merge-base", "--is-ancestor", old_oid, new_oid];
    assert(args.deep_view() =~= is_ancestor(old_oid@, new_oid@).args);
    CommandSpec::git(args)
}

/// Whether the merged generation is an ancestor, by a reply.
pub open spec fn ancestor_by(
    branch: Seq<char>,
    historical: PullRequestSnapshotView,
    reply: Reply,
) -> Result<(), DiscoveryErrorView> {
    match reply {
        Err(error) => Err(DiscoveryErrorView::Runner(error)),
        Ok(output) => if !output.succeeded() {
            Err(lone("historical_head_not_ancestor"@, branch, historical))
        } else {
            Ok(())
        },
    }
}

/// Whether the merged generation is an ancestor, by a reply.
pub fn judge_ancestor(
    branch: &str,
    historical: &PullRequestSnapshot,
    reply: Result<CommandOutput, CommandRunError>,
) -> (r: Result<(), DiscoveryError>)
    ensures
        provider::read_view(r) == ancestor_by(
            branch@,
            historical.deep_view(),
            command::reply_view(reply),
        ),
{
    match reply {
        Err(error) => Err(DiscoveryError::Runner(error)),
        Ok(output) => if !output.is_success() {
            Err(cannot_map_one("historical_head_not_ancestor", branch, historical))
        } else {
            Ok(())
        },
    }
}

/// Asking whether the merged generation is an ancestor may end so.
pub open spec fn ancestor_read<R: CommandRunner>(
    runner: R,
    branch: Seq<char>,
    historical: PullRequestSnapshotView,
    local: Seq<char>,
    outcome: Result<(), DiscoveryErrorView>,
) -> bool {
    exists|reply: Reply| #[trigger]
        command::ran(runner, is_ancestor(historical.head.oid, local), reply) && outcome
            == ancestor_by(branch, historical, reply)
}

/// Confirming a new generation of a branch may end so.
pub open spec fn reused_head<R: CommandRunner>(
    runner: R,
    repository: RepositoryIdView,
    branch: Seq<char>,
    historical: PullRequestSnapshotView,
    outcome: Result<(), DiscoveryErrorView>,
) -> bool {
    exists|heads: Heads| #[trigger]
        heads_read(runner, repository.slug(), branch, heads) && match published(
            branch,
            historical,
            heads,
        ) {
            Err(error) => outcome == Err::<(), _>(error),
            Ok(local) => ancestor_read(runner, branch, historical, local, outcome),
        }
}

/// Whether the merged generation still stands on the branch.
pub open spec fn still_there(
    branch: Seq<char>,
    historical: PullRequestSnapshotView,
    heads: Heads,
) -> Result<(), DiscoveryErrorView> {
    match heads {
        Err(error) => Err(error),
        Ok((_, Err(error))) => match error {
            DiscoveryErrorView::CommandFailed { command, code, stderr } => if code == Some(1i32)
                && text::holds_text(stderr, "404"@) {
                Err(lone("deleted_head"@, branch, historical))
            } else {
                Err(error)
            },
            _ => Err(error),
        },
        Ok((local, Ok(remote))) => if local != historical.head.oid || remote
            != historical.head.oid {
            Err(lone("stale_oid"@, branch, historical))
        } else {
            Ok(())
        },
    }
}

/// Whether the merged generation still stands on the branch.
pub fn judge_still_there(
    branch: &str,
    historical: &PullRequestSnapshot,
    heads: Result<(String, Result<String, DiscoveryError>), DiscoveryError>,
) -> (r: Result<(), DiscoveryError>)
    ensures
        provider::read_view(r) == still_there(branch@, historical.deep_view(), heads_view(heads)),
{
    match heads {
        Err(error) => Err(error),
        Ok((local, read)) => match read {
            Err(error) => {
                let gone = match &error {
                    DiscoveryError::CommandFailed { code, stderr, .. } => match code {
                        Some(status) => *status == 1 && text_contains(stderr.as_str(), "404"),
                        None => false,
                    },
                    _ => false,
                };
                if gone {
                    Err(cannot_map_one("deleted_head", branch, historical))
                } else {
                    Err(error)
                }
            },
            Ok(remote) => {
                if !local.same(&historical.head.oid.0) || !remote.same(&historical.head.oid.0) {
                    return Err(cannot_map_one("stale_oid", branch, historical));
                }
                Ok(())
            },
        },
    }
}

/// Confirming the merged generation of a branch may end so.
pub open spec fn past_head<R: CommandRunner>(
    runner: R,
    repository: RepositoryIdView,
    branch: Seq<char>,
    historical: PullRequestSnapshotView,
    outcome: Result<(), DiscoveryErrorView>,
) -> bool {
    exists|heads: Heads| #[trigger]
        heads_read(runner, repository.slug(), branch, heads) && outcome == still_there(
            branch,
            historical,
            heads,
        )
}

/// What the past of a branch is: a merged member and the member that follows.
pub type Past = Result<Option<(PullRequestSnapshotView, Option<PrNumber>)>, DiscoveryErrorView>;

/// The past of a branch from the end of a walk.
pub open spec fn ended(historical: PullRequestSnapshotView, end: StepView) -> Past {
    match end {
        StepView::Refused(error) => Err(error),
        StepView::Found(successor) => Ok(Some((historical, successor))),
        _ => Ok(Some((historical, None))),
    }
}

fn end_walk(historical: &PullRequestSnapshot, end: Step) -> (r: Result<
    Option<(PullRequestSnapshot, Option<PrNumber>)>,
    DiscoveryError,
>)
    ensures
        provider::read_view(r) == ended(historical.deep_view(), end.deep_view()),
{
    match end {
        Step::Refused(error) => Err(error),
        Step::Found(successor) => Ok(Some((historical.dup(), successor))),
        _ => Ok(Some((historical.dup(), None))),
    }
}

/// The walk from a merged member, with what is known of former bases.
pub open spec fn walk_of(
    label: Seq<char>,
    repository: RepositoryIdView,
    branch: Seq<char>,
    historical: PullRequestSnapshotView,
    prs: Seq<PullRequestSnapshotView>,
    from: PrNumber,
    rows: Option<Seq<(Seq<char>, BaseHistoryPullView)>>,
) -> StepView {
    walked(label, repository, branch, historical, prs, from, rows, prs.len())
}

/// Finding the member that follows by former bases may end so.
pub open spec fn followed_by_history<R: CommandRunner>(
    runner: R,
    label: Seq<char>,
    repository: RepositoryIdView,
    branch: Seq<char>,
    historical: PullRequestSnapshotView,
    prs: Seq<PullRequestSnapshotView>,
    at: PrNumber,
    outcome: Past,
) -> bool {
    exists|rows: Result<Seq<(Seq<char>, BaseHistoryPullView)>, DiscoveryErrorView>| #[trigger]
        bases_read(runner, repository, numbers_of(prs), rows) && outcome == match rows {
            Err(error) => Err(error),
            Ok(known) => ended(
                historical,
                walk_of(label, repository, branch, historical, prs, at, Some(known)),
            ),
        }
}

/// Finding the member that follows a merged one may end so.
pub open spec fn followed<R: CommandRunner>(
    runner: R,
    label: Seq<char>,
    repository: RepositoryIdView,
    branch: Seq<char>,
    historical: PullRequestSnapshotView,
    prs: Seq<PullRequestSnapshotView>,
    outcome: Past,
) -> bool {
    match walk_of(label, repository, branch, historical, prs, historical.number, None) {
        StepView::NeedHistory(at) => followed_by_history(
            runner,
            label,
            repository,
            branch,
            historical,
            prs,
            at,
            outcome,
        ),
        end => outcome == ended(historical, end),
    }
}

/// Why the one pull request of a branch cannot stand for it.
pub open spec fn past_refusal(
    options: DiscoveryOptionsView,
    repository: RepositoryIdView,
    branch: Seq<char>,
    history: Seq<PullRequestSnapshotView>,
) -> Option<DiscoveryErrorView> {
    if history.len() != 1 {
        Some(unmapped("branch_reuse_ambiguous"@, branch, bare_numbers(history)))
    } else if history[0].state != PullRequestState::Merged {
        Some(lone("closed_unmerged"@, branch, history[0]))
    } else if !history[0].has_label(options.label)
        && !options.allow_unlabelled_historical_pr_creation {
        Some(lone("missing_caravan_label"@, branch, history[0]))
    } else if is_fork(history[0], repository) {
        Some(lone("fork_only_head"@, branch, history[0]))
    } else {
        None
    }
}

/// Why the one pull request of a branch cannot stand for it.
pub fn refuse_past(
    options: &DiscoveryOptions,
    repository: &RepositoryId,
    branch: &str,
    history: &Vec<PullRequestSnapshot>,
) -> (r: Option<DiscoveryError>)
    ensures
        match r {
            Some(error) => past_refusal(
                options.deep_view(),
                repository.deep_view(),
                branch@,
                history.deep_view(),
            ) == Some(error.deep_view()),
            None => past_refusal(
                options.deep_view(),
                repository.deep_view(),
                branch@,
                history.deep_view(),
            ) is None,
        },
{
    assert(history.deep_view().len() == history.len());
    if history.len() != 1 {
        return Some(cannot_map("branch_reuse_ambiguous", branch, list_bare_numbers(history)));
    }
    let historical = &history[0];
    assert(history.deep_view()[0] == historical.deep_view());
    if !historical.state.same(&PullRequestState::Merged) {
        return Some(cannot_map_one("closed_unmerged", branch, historical));
    }
    if !historical.has_label(options.label.as_str())
        && !options.allow_unlabelled_historical_pr_creation {
        return Some(cannot_map_one("missing_caravan_label", branch, historical));
    }
    if historical.cross_repository || !historical.head.repository.same(repository) {
        return Some(cannot_map_one("fork_only_head", branch, historical));
    }
    None
}

/// Mapping a branch whose only pull request is no member may end so.
pub open spec fn past_of_other<R: CommandRunner>(
    runner: R,
    repository: RepositoryIdView,
    branch: Seq<char>,
    historical: PullRequestSnapshotView,
    outcome: Past,
) -> bool {
    exists|checked: Result<(), DiscoveryErrorView>| #[trigger]
        reused_head(runner, repository, branch, historical, checked) && outcome == match checked {
            Err(error) => Err(error),
            Ok(_) => Ok(None::<(PullRequestSnapshotView, Option<PrNumber>)>),
        }
}

/// Mapping a branch whose only pull request is a merged member may end so.
pub open spec fn past_of_member<R: CommandRunner>(
    runner: R,
    label: Seq<char>,
    repository: RepositoryIdView,
    branch: Seq<char>,
    historical: PullRequestSnapshotView,
    prs: Seq<PullRequestSnapshotView>,
    outcome: Past,
) -> bool {
    exists|checked: Result<(), DiscoveryErrorView>| #[trigger]
        past_head(runner, repository, branch, historical, checked) && match checked {
            Err(error) => outcome == Err::<
                Option<(PullRequestSnapshotView, Option<PrNumber>)>,
                _,
            >(error),
            Ok(_) => followed(runner, label, repository, branch, historical, prs, outcome),
        }
}

/// Mapping a branch without an open pull request may end so.
pub open spec fn past_of<R: CommandRunner>(
    runner: R,
    options: DiscoveryOptionsView,
    repository: RepositoryIdView,
    branch: Seq<char>,
    history: Seq<PullRequestSnapshotView>,
    prs: Seq<PullRequestSnapshotView>,
    outcome: Past,
) -> bool {
    match past_refusal(options, repository, branch, history) {
        Some(error) => outcome == Err::<Option<(PullRequestSnapshotView, Option<PrNumber>)>, _>(
            error,
        ),
        None => if history[0].has_label(options.label) {
            past_of_member(
                runner,
                options.label,
                repository,
                branch,
                history[0],
                prs,
                outcome,
            )
        } else {
            past_of_other(runner, repository, branch, history[0], outcome)
        },
    }
}

/// Mapping a branch by its pull requests may end so.
pub open spec fn mapped<R: CommandRunner>(
    runner: R,
    options: DiscoveryOptionsView,
    repository: RepositoryIdView,
    branch: Seq<char>,
    history: Seq<PullRequestSnapshotView>,
    prs: Seq<PullRequestSnapshotView>,
    outcome: Past,
) -> bool {
    exists|open: Result<Option<PullRequestSnapshotView>, DiscoveryErrorView>| #[trigger]
        reuse_read(runner, options.label, repository, branch, history, open) && match open {
            Err(error) => outcome == Err::<
                Option<(PullRequestSnapshotView, Option<PrNumber>)>,
                _,
            >(error),
            Ok(Some(current)) => outcome == Ok::<_, DiscoveryErrorView>(
                Some((current, Some(current.number))),
            ),
            Ok(None) => past_of(runner, options, repository, branch, history, prs, outcome),
        }
}

/// Mapping a branch to its past may end so.
pub open spec fn past_read<R: CommandRunner>(
    runner: R,
    options: DiscoveryOptionsView,
    repository: RepositoryIdView,
    branch: Seq<char>,
    prs: Seq<PullRequestSnapshotView>,
    outcome: Past,
) -> bool {
    exists|
        read: Result<
            (Seq<PullRequestSnapshotView>, Seq<PullRequestGenerationFactView>),
            DiscoveryErrorView,
        >,
    | #[trigger]
        pulls_read(
            runner,
            commands::branch_pr_history(repository.slug(), branch, options.merged_limit),
            repository,
            read,
        ) && match read {
            Err(error) => outcome == Err::<
                Option<(PullRequestSnapshotView, Option<PrNumber>)>,
                _,
            >(error),
            Ok(pair) => {
                let history = by_number(on_branch(pair.0, branch));
                if history.len() == 0 {
                    outcome == Ok::<_, DiscoveryErrorView>(
                        None::<(PullRequestSnapshotView, Option<PrNumber>)>,
                    )
                } else {
                    mapped(runner, options, repository, branch, history, prs, outcome)
                }
            },
        }
}

impl<R: CommandRunner> GitHubDiscovery<R> {
    /// The pull requests that a command lists, and their generation facts.
    pub fn pull_requests_with_generation(
        &self,
        command: &CommandSpec,
        repository: &RepositoryId,
    ) -> (r: Result<(Vec<PullRequestSnapshot>, Vec<PullRequestGenerationFact>), DiscoveryError>)
        requires
            self.runner.allows(command.deep_view()),
        ensures
            pulls_read(
                self.runner,
                command.deep_view(),
                repository.deep_view(),
                provider::read_view(r),
            ),
    {
        let read = fetch::<R, Vec<PullRequestJson>>(&self.runner, command);
        assert(provider::fetched::<R, Vec<PullRequestJson>>(
            self.runner,
            command.deep_view(),
            provider::read_view(read),
        ));
        match read {
            Err(error) => Err(error),
            Ok(rows) => convert_pulls(rows, repository),
        }
    }

    fn command_text(&self, command: &CommandSpec) -> (r: Result<String, DiscoveryError>)
        requires
            self.runner.allows(command.deep_view()),
        ensures
            said(self.runner, command.deep_view(), provider::read_view(r)),
    {
        let done = run_checked(&self.runner, command);
        assert(provider::completed(
            self.runner,
            command.deep_view(),
            provider::read_view(done),
        ));
        match done {
            Err(error) => Err(error),
            Ok(output) => Ok(trim(output.stdout.as_str())),
        }
    }

    fn read_heads(&self, slug: &str, branch: &str) -> (r: Result<
        (String, Result<String, DiscoveryError>),
        DiscoveryError,
    >)
        requires
            command::reads_allowed(self.runner),
        ensures
            heads_read(self.runner, slug@, branch@, heads_view(r)),
    {
        let local = self.command_text(&current_head_oid_command());
        assert(said(self.runner, commands::current_head_oid(), provider::read_view(local)));
        let oid = match local {
            Err(error) => {
                return Err(error);
            },
            Ok(oid) => oid,
        };
        let read = fetch::<R, GitRefJson>(&self.runner, &default_branch_command(slug, branch));
        assert(provider::fetched::<R, GitRefJson>(
            self.runner,
            commands::default_branch(slug@, branch@),
            provider::read_view(read),
        ));
        let ghost seen = provider::read_view(read);
        let ghost here = oid@;
        let remote = match read {
            Err(error) => Err(error),
            Ok(reference) => Ok(reference.object.sha),
        };
        assert(provider::read_view(remote) == match seen {
            Err(error) => Err(error),
            Ok(reference) => Ok(reference.object.sha),
        });
        let r: Result<(String, Result<String, DiscoveryError>), DiscoveryError> = Ok((oid, remote));
        assert(remote_read(self.runner, slug@, branch@, here, heads_view(r)));
        r
    }

    fn resolve_exact_open_reused_branch(
        &self,
        repository: &RepositoryId,
        branch: &str,
        history: &Vec<PullRequestSnapshot>,
    ) -> (r: Result<Option<PullRequestSnapshot>, DiscoveryError>)
        requires
            command::reads_allowed(self.runner),
        ensures
            reuse_read(
                self.runner,
                self.options.deep_view().label,
                repository.deep_view(),
                branch@,
                history.deep_view(),
                provider::read_view(r),
            ),
    {
        let open = keep_open(history);
        assert(open.deep_view().len() == open.len());
        if open.len() == 0 {
            return Ok(None);
        }
        if open.len() != 1 {
            return Err(
                cannot_map("open_branch_reuse_ambiguous", branch, list_bare_numbers(&open)),
            );
        }
        let current = &open[0];
        assert(open.deep_view()[0] == current.deep_view());
        if current.cross_repository || !current.head.repository.same(repository) {
            return Err(cannot_map_one("fork_only_open_head", branch, current));
        }
        let slug = repository.slug();
        let heads = self.read_heads(slug.as_str(), branch);
        assert(heads_read(
            self.runner,
            repository.deep_view().slug(),
            branch@,
            heads_view(heads),
        ));
        judge_reuse(self.options.label.as_str(), branch, history, current, heads)
    }

    fn validate_reused_historical_head(
        &self,
        repository: &RepositoryId,
        branch: &str,
        historical: &PullRequestSnapshot,
    ) -> (r: Result<(), DiscoveryError>)
        requires
            command::reads_allowed(self.runner),
        ensures
            reused_head(
                self.runner,
                repository.deep_view(),
                branch@,
                historical.deep_view(),
                provider::read_view(r),
            ),
    {
        let slug = repository.slug();
        let heads = self.read_heads(slug.as_str(), branch);
        assert(heads_read(
            self.runner,
            repository.deep_view().slug(),
            branch@,
            heads_view(heads),
        ));
        let local = match judge_published(branch, historical, heads) {
            Err(error) => {
                return Err(error);
            },
            Ok(local) => local,
        };
        let reply = run(
            &self.runner,
            &is_ancestor_command(historical.head.oid.0.as_str(), local.as_str()),
        );
        assert(command::ran(
            self.runner,
            is_ancestor(historical.deep_view().head.oid, local@),
            command::reply_view(reply),
        ));
        let r = judge_ancestor(branch, historical, reply);
        assert(ancestor_read(
            self.runner,
            branch@,
            historical.deep_view(),
            local@,
            provider::read_view(r),
        ));
        r
    }

    fn validate_historical_head(
        &self,
        repository: &RepositoryId,
        branch: &str,
        historical: &PullRequestSnapshot,
    ) -> (r: Result<(), DiscoveryError>)
        requires
            command::reads_allowed(self.runner),
        ensures
            past_head(
                self.runner,
                repository.deep_view(),
                branch@,
                historical.deep_view(),
                provider::read_view(r),
            ),
    {
        let slug = repository.slug();
        let heads = self.read_heads(slug.as_str(), branch);
        assert(heads_read(
            self.runner,
            repository.deep_view().slug(),
            branch@,
            heads_view(heads),
        ));
        judge_still_there(branch, historical, heads)
    }

    fn base_ref_history(&self, repository: &RepositoryId, numbers: &Vec<PrNumber>) -> (r: Result<
        Vec<(String, BaseHistoryPull)>,
        DiscoveryError,
    >)
        requires
            command::reads_allowed(self.runner),
        ensures
            bases_read(
                self.runner,
                repository.deep_view(),
                numbers.deep_view(),
                provider::read_view(r),
            ),
    {
        assert(numbers.deep_view().len() == numbers.len());
        if numbers.len() == 0 {
            let none: Vec<(String, BaseHistoryPull)> = Vec::new();
            assert(none.deep_view() =~= Seq::empty());
            return Ok(none);
        }
        let read = fetch::<R, BaseHistoryResponse>(
            &self.runner,
            &base_history_command(repository, numbers),
        );
        assert(provider::fetched::<R, BaseHistoryResponse>(
            self.runner,
            commands::base_history(repository.deep_view(), numbers.deep_view()),
            provider::read_view(read),
        ));
        match read {
            Err(error) => Err(error),
            Ok(response) => Ok(response.data.repository.pulls),
        }
    }

    fn find_successor(
        &self,
        repository: &RepositoryId,
        branch: &str,
        historical: &PullRequestSnapshot,
        pulls: &Vec<PullRequestSnapshot>,
    ) -> (r: Result<Option<(PullRequestSnapshot, Option<PrNumber>)>, DiscoveryError>)
        requires
            command::reads_allowed(self.runner),
        ensures
            followed(
                self.runner,
                self.options.deep_view().label,
                repository.deep_view(),
                branch@,
                historical.deep_view(),
                pulls.deep_view(),
                provider::read_view(r),
            ),
    {
        let label = &self.options.label;
        let first = walk(label, repository, branch, historical, pulls, historical.number, &None);
        match first {
            Step::NeedHistory(at) => {
                let read = self.base_ref_history(repository, &list_numbers(pulls));
                assert(bases_read(
                    self.runner,
                    repository.deep_view(),
                    numbers_of(pulls.deep_view()),
                    provider::read_view(read),
                ));
                match read {
                    Err(error) => Err(error),
                    Ok(rows) => {
                        let known = Some(rows);
                        let end = walk(label, repository, branch, historical, pulls, at, &known);
                        end_walk(historical, end)
                    },
                }
            },
            end => end_walk(historical, end),
        }
    }

    fn resolve_past(
        &self,
        repository: &RepositoryId,
        branch: &str,
        history: &Vec<PullRequestSnapshot>,
        pulls: &Vec<PullRequestSnapshot>,
    ) -> (r: Result<Option<(PullRequestSnapshot, Option<PrNumber>)>, DiscoveryError>)
        requires
            command::reads_allowed(self.runner),
        ensures
            past_of(
                self.runner,
                self.options.deep_view(),
                repository.deep_view(),
                branch@,
                history.deep_view(),
                pulls.deep_view(),
                provider::read_view(r),
            ),
    {
        match refuse_past(&self.options, repository, branch, history) {
            Some(error) => {
                return Err(error);
            },
            None => {},
        }
        assert(history.deep_view().len() == history.len());
        let historical = &history[0];
        assert(history.deep_view()[0] == historical.deep_view());
        if historical.has_label(self.options.label.as_str()) {
            let checked = self.validate_historical_head(repository, branch, historical);
            assert(past_head(
                self.runner,
                repository.deep_view(),
                branch@,
                history.deep_view()[0],
                provider::read_view(checked),
            ));
            match checked {
                Err(error) => Err(error),
                Ok(_) => self.find_successor(repository, branch, historical, pulls),
            }
        } else {
            let checked = self.validate_reused_historical_head(repository, branch, historical);
            assert(reused_head(
                self.runner,
                repository.deep_view(),
                branch@,
                history.deep_view()[0],
                provider::read_view(checked),
            ));
            match checked {
                Err(error) => Err(error),
                Ok(_) => Ok(None),
            }
        }
    }

    /// The merged member that a branch stands for, and the active member that
    /// follows it.
    pub fn resolve_historical_current_pr(
        &self,
        repository: &RepositoryId,
        branch: &str,
        pulls: &Vec<PullRequestSnapshot>,
    ) -> (r: Result<Option<(PullRequestSnapshot, Option<PrNumber>)>, DiscoveryError>)
        requires
            command::reads_allowed(self.runner),
        ensures
            past_read(
                self.runner,
                self.options.deep_view(),
                repository.deep_view(),
                branch@,
                pulls.deep_view(),
                provider::read_view(r),
            ),
    {
        let slug = repository.slug();
        let read = self.pull_requests_with_generation(
            &branch_pr_history_command(slug.as_str(), branch, self.options.merged_limit),
            repository,
        );
        assert(pulls_read(
            self.runner,
            commands::branch_pr_history(
                repository.deep_view().slug(),
                branch@,
                self.options.deep_view().merged_limit,
            ),
            repository.deep_view(),
            provider::read_view(read),
        ));
        let listed = match read {
            Err(error) => {
                return Err(error);
            },
            Ok(pair) => pair.0,
        };
        let history = order_by_number(&keep_branch(&listed, branch));
        assert(history.deep_view().len() == history.len());
        if history.len() == 0 {
            return Ok(None);
        }
        let open = self.resolve_exact_open_reused_branch(repository, branch, &history);
        assert(reuse_read(
            self.runner,
            self.options.deep_view().label,
            repository.deep_view(),
            branch@,
            history.deep_view(),
            provider::read_view(open),
        ));
        match open {
            Err(error) => Err(error),
            Ok(Some(current)) => {
                let number = current.number;
                Ok(Some((current, Some(number))))
            },
            Ok(None) => self.resolve_past(repository, branch, &history, pulls),
        }
    }
}

} // verus!
