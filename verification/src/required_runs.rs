//! Required checks of a branch, and the runs that stand behind a commit.

use vstd::prelude::*;
use vstd::string::*;
use crate::model;
use crate::model::{append_items, dup_range, holds_item, push_item, LabelSet, Model};
use crate::text;
use crate::text::text_less;

verus! {

/// One required check, bound to one app or to none.
#[derive(Debug, PartialEq, Eq)]
pub struct RequiredCheck {
    pub context: String,
    pub app_id: Option<u64>,
}

/// The content of a [`RequiredCheck`].
#[verifier::ext_equal]
pub struct RequiredCheckView {
    pub context: Seq<char>,
    pub app_id: Option<u64>,
}

impl DeepView for RequiredCheck {
    type V = RequiredCheckView;

    open spec fn deep_view(&self) -> RequiredCheckView {
        RequiredCheckView {
            context: self.context.deep_view(),
            app_id: self.app_id.deep_view(),
        }
    }
}

impl Clone for RequiredCheck {
    fn clone(&self) -> (r: Self)
        ensures
            r.deep_view() == self.deep_view(),
    {
        self.dup()
    }
}

impl Model for RequiredCheck {
    fn same(&self, other: &Self) -> (r: bool) {
        self.context.same(&other.context)
            && self.app_id.same(&other.app_id)
    }

    fn dup(&self) -> (r: Self) {
        RequiredCheck {
            context: self.context.dup(),
            app_id: self.app_id.dup(),
        }
    }
}

/// What a read of the requirements of a branch gave.
#[derive(Debug, PartialEq, Eq)]
pub struct RequiredContextsRead {
    pub branch: String,
    /// Whether the branch is protected, as far as the read shows.
    pub protected: bool,
    /// The names of the required checks.
    pub contexts: Vec<String>,
    /// The required checks.
    pub checks: Vec<RequiredCheck>,
    /// Whether nothing was left unread.
    pub complete: bool,
}

/// The content of a [`RequiredContextsRead`].
#[verifier::ext_equal]
pub struct RequiredContextsReadView {
    pub branch: Seq<char>,
    pub protected: bool,
    pub contexts: Seq<Seq<char>>,
    pub checks: Seq<RequiredCheckView>,
    pub complete: bool,
}

impl DeepView for RequiredContextsRead {
    type V = RequiredContextsReadView;

    open spec fn deep_view(&self) -> RequiredContextsReadView {
        RequiredContextsReadView {
            branch: self.branch.deep_view(),
            protected: self.protected.deep_view(),
            contexts: self.contexts.deep_view(),
            checks: self.checks.deep_view(),
            complete: self.complete.deep_view(),
        }
    }
}

impl Clone for RequiredContextsRead {
    fn clone(&self) -> (r: Self)
        ensures
            r.deep_view() == self.deep_view(),
    {
        self.dup()
    }
}

impl Model for RequiredContextsRead {
    fn same(&self, other: &Self) -> (r: bool) {
        self.branch.same(&other.branch)
            && self.protected.same(&other.protected)
            && self.contexts.same(&other.contexts)
            && self.checks.same(&other.checks)
            && self.complete.same(&other.complete)
    }

    fn dup(&self) -> (r: Self) {
        RequiredContextsRead {
            branch: self.branch.dup(),
            protected: self.protected.dup(),
            contexts: self.contexts.dup(),
            checks: self.checks.dup(),
            complete: self.complete.dup(),
        }
    }
}

/// One check suite of a commit.
#[derive(Debug, PartialEq, Eq)]
pub struct CheckSuiteLineage {
    pub id: u64,
    pub head_sha: String,
    pub status: String,
    pub conclusion: String,
    pub app_slug: String,
    pub rerequestable: bool,
}

/// The content of a [`CheckSuiteLineage`].
#[verifier::ext_equal]
pub struct CheckSuiteLineageView {
    pub id: u64,
    pub head_sha: Seq<char>,
    pub status: Seq<char>,
    pub conclusion: Seq<char>,
    pub app_slug: Seq<char>,
    pub rerequestable: bool,
}

impl DeepView for CheckSuiteLineage {
    type V = CheckSuiteLineageView;

    open spec fn deep_view(&self) -> CheckSuiteLineageView {
        CheckSuiteLineageView {
            id: self.id.deep_view(),
            head_sha: self.head_sha.deep_view(),
            status: self.status.deep_view(),
            conclusion: self.conclusion.deep_view(),
            app_slug: self.app_slug.deep_view(),
            rerequestable: self.rerequestable.deep_view(),
        }
    }
}

impl Clone for CheckSuiteLineage {
    fn clone(&self) -> (r: Self)
        ensures
            r.deep_view() == self.deep_view(),
    {
        self.dup()
    }
}

impl Model for CheckSuiteLineage {
    fn same(&self, other: &Self) -> (r: bool) {
        self.id.same(&other.id)
            && self.head_sha.same(&other.head_sha)
            && self.status.same(&other.status)
            && self.conclusion.same(&other.conclusion)
            && self.app_slug.same(&other.app_slug)
            && self.rerequestable.same(&other.rerequestable)
    }

    fn dup(&self) -> (r: Self) {
        CheckSuiteLineage {
            id: self.id.dup(),
            head_sha: self.head_sha.dup(),
            status: self.status.dup(),
            conclusion: self.conclusion.dup(),
            app_slug: self.app_slug.dup(),
            rerequestable: self.rerequestable.dup(),
        }
    }
}

/// One workflow run of a commit.
#[derive(Debug, PartialEq, Eq)]
pub struct WorkflowRunLineage {
    pub run_id: u64,
    pub check_suite_id: u64,
    pub workflow_name: String,
    pub head_sha: String,
    pub status: String,
    pub conclusion: String,
    pub event: String,
}

/// The content of a [`WorkflowRunLineage`].
#[verifier::ext_equal]
pub struct WorkflowRunLineageView {
    pub run_id: u64,
    pub check_suite_id: u64,
    pub workflow_name: Seq<char>,
    pub head_sha: Seq<char>,
    pub status: Seq<char>,
    pub conclusion: Seq<char>,
    pub event: Seq<char>,
}

impl DeepView for WorkflowRunLineage {
    type V = WorkflowRunLineageView;

    open spec fn deep_view(&self) -> WorkflowRunLineageView {
        WorkflowRunLineageView {
            run_id: self.run_id.deep_view(),
            check_suite_id: self.check_suite_id.deep_view(),
            workflow_name: self.workflow_name.deep_view(),
            head_sha: self.head_sha.deep_view(),
            status: self.status.deep_view(),
            conclusion: self.conclusion.deep_view(),
            event: self.event.deep_view(),
        }
    }
}

impl Clone for WorkflowRunLineage {
    fn clone(&self) -> (r: Self)
        ensures
            r.deep_view() == self.deep_view(),
    {
        self.dup()
    }
}

impl Model for WorkflowRunLineage {
    fn same(&self, other: &Self) -> (r: bool) {
        self.run_id.same(&other.run_id)
            && self.check_suite_id.same(&other.check_suite_id)
            && self.workflow_name.same(&other.workflow_name)
            && self.head_sha.same(&other.head_sha)
            && self.status.same(&other.status)
            && self.conclusion.same(&other.conclusion)
            && self.event.same(&other.event)
    }

    fn dup(&self) -> (r: Self) {
        WorkflowRunLineage {
            run_id: self.run_id.dup(),
            check_suite_id: self.check_suite_id.dup(),
            workflow_name: self.workflow_name.dup(),
            head_sha: self.head_sha.dup(),
            status: self.status.dup(),
            conclusion: self.conclusion.dup(),
            event: self.event.dup(),
        }
    }
}

/// The check suites and workflow runs of a commit.
#[derive(Debug, PartialEq, Eq)]
pub struct HeadRunLineage {
    pub head_sha: String,
    pub check_suites: Vec<CheckSuiteLineage>,
    pub workflow_runs: Vec<WorkflowRunLineage>,
    pub head_committed_at: Option<String>,
    /// Whether every part was read.
    pub complete: bool,
}

/// The content of a [`HeadRunLineage`].
#[verifier::ext_equal]
pub struct HeadRunLineageView {
    pub head_sha: Seq<char>,
    pub check_suites: Seq<CheckSuiteLineageView>,
    pub workflow_runs: Seq<WorkflowRunLineageView>,
    pub head_committed_at: Option<Seq<char>>,
    pub complete: bool,
}

impl DeepView for HeadRunLineage {
    type V = HeadRunLineageView;

    open spec fn deep_view(&self) -> HeadRunLineageView {
        HeadRunLineageView {
            head_sha: self.head_sha.deep_view(),
            check_suites: self.check_suites.deep_view(),
            workflow_runs: self.workflow_runs.deep_view(),
            head_committed_at: self.head_committed_at.deep_view(),
            complete: self.complete.deep_view(),
        }
    }
}

impl Clone for HeadRunLineage {
    fn clone(&self) -> (r: Self)
        ensures
            r.deep_view() == self.deep_view(),
    {
        self.dup()
    }
}

impl Model for HeadRunLineage {
    fn same(&self, other: &Self) -> (r: bool) {
        self.head_sha.same(&other.head_sha)
            && self.check_suites.same(&other.check_suites)
            && self.workflow_runs.same(&other.workflow_runs)
            && self.head_committed_at.same(&other.head_committed_at)
            && self.complete.same(&other.complete)
    }

    fn dup(&self) -> (r: Self) {
        HeadRunLineage {
            head_sha: self.head_sha.dup(),
            check_suites: self.check_suites.dup(),
            workflow_runs: self.workflow_runs.dup(),
            head_committed_at: self.head_committed_at.dup(),
            complete: self.complete.dup(),
        }
    }
}

// ---------------------------------------------------------------------------
// Required checks
// ---------------------------------------------------------------------------

/// Whether one app binding stands before another: none comes first.
pub open spec fn binding_lt(a: Option<u64>, b: Option<u64>) -> bool {
    match (a, b) {
        (None, Some(_)) => true,
        (Some(x), Some(y)) => x < y,
        _ => false,
    }
}

/// Whether one check stands before another: by name, then by binding.
pub open spec fn check_lt(a: RequiredCheckView, b: RequiredCheckView) -> bool {
    text::text_lt(a.context, b.context) || (a.context == b.context && binding_lt(
        a.app_id,
        b.app_id,
    ))
}

/// The position before which a check belongs in an ordered list.
pub open spec fn check_position(rows: Seq<RequiredCheckView>, check: RequiredCheckView) -> int
    decreases rows.len(),
{
    if rows.len() == 0 {
        0
    } else if check_lt(rows.last(), check) {
        rows.len() as int
    } else {
        check_position(rows.drop_last(), check)
    }
}

/// An ordered list with one more check.
pub open spec fn check_insert(rows: Seq<RequiredCheckView>, check: RequiredCheckView) -> Seq<
    RequiredCheckView,
> {
    if rows.contains(check) {
        rows
    } else {
        let at = check_position(rows, check);
        rows.take(at).push(check) + rows.skip(at)
    }
}

/// The ordered list of the distinct checks of a list.
pub open spec fn check_set(checks: Seq<RequiredCheckView>) -> Seq<RequiredCheckView>
    decreases checks.len(),
{
    if checks.len() == 0 {
        Seq::empty()
    } else {
        check_insert(check_set(checks.drop_last()), checks.last())
    }
}

/// The names of checks.
pub open spec fn check_names(checks: Seq<RequiredCheckView>) -> Seq<Seq<char>> {
    Seq::new(checks.len(), |i: int| checks[i].context)
}

/// One unbound check for every name that no check has.
pub open spec fn unbound_checks(contexts: Seq<Seq<char>>, checks: Seq<RequiredCheckView>) -> Seq<
    RequiredCheckView,
>
    decreases contexts.len(),
{
    if contexts.len() == 0 {
        Seq::empty()
    } else {
        let before = unbound_checks(contexts.drop_last(), checks);
        if check_names(checks).contains(contexts.last()) {
            before
        } else {
            before.push(RequiredCheckView { context: contexts.last(), app_id: None })
        }
    }
}

impl RequiredContextsReadView {
    /// A read in order: every name stands once, and every name has a check.
    pub open spec fn in_order(self) -> RequiredContextsReadView {
        RequiredContextsReadView {
            contexts: model::label_set(self.contexts + check_names(self.checks)),
            checks: check_set(self.checks + unbound_checks(self.contexts, self.checks)),
            ..self
        }
    }
}

/// A read that failed says nothing of the requirements.
pub open spec fn partial_read(branch: Seq<char>) -> RequiredContextsReadView {
    RequiredContextsReadView {
        branch,
        protected: true,
        contexts: Seq::empty(),
        checks: Seq::empty(),
        complete: false,
    }
}

/// A branch without protection requires nothing.
pub open spec fn unprotected_read(branch: Seq<char>) -> RequiredContextsReadView {
    RequiredContextsReadView {
        branch,
        protected: false,
        contexts: Seq::empty(),
        checks: Seq::empty(),
        complete: true,
    }
}

fn binding_less(a: &Option<u64>, b: &Option<u64>) -> (r: bool)
    ensures
        r == binding_lt(a.deep_view(), b.deep_view()),
{
    match (a, b) {
        (None, Some(_)) => true,
        (Some(x), Some(y)) => *x < *y,
        _ => false,
    }
}

fn check_less(a: &RequiredCheck, b: &RequiredCheck) -> (r: bool)
    ensures
        r == check_lt(a.deep_view(), b.deep_view()),
{
    text_less(a.context.as_str(), b.context.as_str()) || (a.context.same(&b.context)
        && binding_less(&a.app_id, &b.app_id))
}

fn insert_check(rows: &mut Vec<RequiredCheck>, check: RequiredCheck)
    ensures
        final(rows).deep_view() == check_insert(old(rows).deep_view(), check.deep_view()),
{
    let ghost all = rows.deep_view();
    if holds_item(rows, &check) {
        return;
    }
    let mut at: usize = rows.len();
    assert(all.take(at as int) =~= all);
    while at > 0 && !check_less(&rows[at - 1], &check)
        invariant
            at <= rows.len(),
            all == rows.deep_view(),
            check_position(all, check.deep_view()) == check_position(
                all.take(at as int),
                check.deep_view(),
            ),
        decreases at,
    {
        assert(all[at - 1] == rows[at - 1].deep_view());
        assert(all.take(at as int).drop_last() =~= all.take(at - 1));
        at = at - 1;
    }
    if at > 0 {
        assert(all[at - 1] == rows[at - 1].deep_view());
        assert(all.take(at as int).last() == all[at - 1]);
    }
    assert(check_position(all, check.deep_view()) == at);
    let mut items = dup_range(rows, 0, at);
    let rest = dup_range(rows, at, rows.len());
    let ghost added = check.deep_view();
    push_item(&mut items, check);
    append_items(&mut items, rest);
    assert(items.deep_view() =~= check_insert(all, added));
    *rows = items;
}

fn ordered_checks(checks: &Vec<RequiredCheck>) -> (r: Vec<RequiredCheck>)
    ensures
        r.deep_view() == check_set(checks.deep_view()),
{
    let ghost all = checks.deep_view();
    let mut out: Vec<RequiredCheck> = Vec::new();
    let mut i: usize = 0;
    assert(out.deep_view() =~= check_set(all.take(0)));
    while i < checks.len()
        invariant
            all == checks.deep_view(),
            i <= checks.len(),
            out.deep_view() == check_set(all.take(i as int)),
        decreases checks.len() - i,
    {
        assert(all.take(i as int + 1).drop_last() =~= all.take(i as int));
        assert(all[i as int] == checks[i as int].deep_view());
        insert_check(&mut out, checks[i].dup());
        i = i + 1;
    }
    assert(all.take(i as int) =~= all);
    out
}

fn names_of(checks: &Vec<RequiredCheck>) -> (r: Vec<String>)
    ensures
        r.deep_view() == check_names(checks.deep_view()),
{
    let ghost all = checks.deep_view();
    let mut out: Vec<String> = Vec::new();
    let mut i: usize = 0;
    while i < checks.len()
        invariant
            all == checks.deep_view(),
            i <= checks.len(),
            out.deep_view() == check_names(all).take(i as int),
        decreases checks.len() - i,
    {
        assert(all[i as int] == checks[i as int].deep_view());
        push_item(&mut out, checks[i].context.dup());
        i = i + 1;
        assert(out.deep_view() =~= check_names(all).take(i as int));
    }
    assert(out.deep_view() =~= check_names(all));
    out
}

fn unbound(contexts: &Vec<String>, checks: &Vec<RequiredCheck>) -> (r: Vec<RequiredCheck>)
    ensures
        r.deep_view() == unbound_checks(contexts.deep_view(), checks.deep_view()),
{
    let ghost all = contexts.deep_view();
    let ghost bound = checks.deep_view();
    let names = names_of(checks);
    let mut out: Vec<RequiredCheck> = Vec::new();
    let mut i: usize = 0;
    assert(out.deep_view() =~= unbound_checks(all.take(0), bound));
    while i < contexts.len()
        invariant
            all == contexts.deep_view(),
            names.deep_view() == check_names(bound),
            i <= contexts.len(),
            out.deep_view() == unbound_checks(all.take(i as int), bound),
        decreases contexts.len() - i,
    {
        assert(all.take(i as int + 1).drop_last() =~= all.take(i as int));
        assert(all[i as int] == contexts[i as int].deep_view());
        if !holds_item(&names, &contexts[i]) {
            let row = RequiredCheck { context: contexts[i].dup(), app_id: None };
            push_item(&mut out, row);
        }
        i = i + 1;
    }
    assert(all.take(i as int) =~= all);
    out
}

impl RequiredContextsRead {
    /// A read that failed says nothing of the requirements.
    pub fn partial(branch: &str) -> (r: Self)
        ensures
            r.deep_view() == partial_read(branch@),
    {
        let r = RequiredContextsRead {
            branch: branch.to_owned(),
            protected: true,
            contexts: Vec::new(),
            checks: Vec::new(),
            complete: false,
        };
        assert(r.deep_view() =~= partial_read(branch@));
        r
    }

    /// A branch without protection requires nothing.
    pub fn unprotected(branch: &str) -> (r: Self)
        ensures
            r.deep_view() == unprotected_read(branch@),
    {
        let r = RequiredContextsRead {
            branch: branch.to_owned(),
            protected: false,
            contexts: Vec::new(),
            checks: Vec::new(),
            complete: true,
        };
        assert(r.deep_view() =~= unprotected_read(branch@));
        r
    }

    /// The read in order: every name stands once, and every name has a check.
    pub fn normalized(self) -> (r: Self)
        ensures
            r.deep_view() == self.deep_view().in_order(),
    {
        let mut names = self.contexts.dup();
        append_items(&mut names, names_of(&self.checks));
        let mut checks = self.checks.dup();
        append_items(&mut checks, unbound(&self.contexts, &self.checks));
        RequiredContextsRead {
            branch: self.branch,
            protected: self.protected,
            contexts: LabelSet::from_list(&names).to_list(),
            checks: ordered_checks(&checks),
            complete: self.complete,
        }
    }
}

/// Whether checks stand in strictly increasing order.
pub open spec fn checks_sorted(rows: Seq<RequiredCheckView>) -> bool {
    forall|i: int, j: int| 0 <= i < j < rows.len() ==> check_lt(rows[i], rows[j])
}

proof fn lemma_check_lt_total(a: RequiredCheckView, b: RequiredCheckView)
    ensures
        check_lt(a, b) || a == b || check_lt(b, a),
        !(check_lt(a, b) && check_lt(b, a)),
        !check_lt(a, a),
{
    text::lemma_text_lt_total(a.context, b.context);
    text::lemma_text_lt_total(a.context, a.context);
}

proof fn lemma_check_lt_transitive(
    a: RequiredCheckView,
    b: RequiredCheckView,
    c: RequiredCheckView,
)
    requires
        check_lt(a, b),
        check_lt(b, c),
    ensures
        check_lt(a, c),
{
    if text::text_lt(a.context, b.context) && text::text_lt(b.context, c.context) {
        text::lemma_text_lt_transitive(a.context, b.context, c.context);
    }
}

proof fn lemma_check_position(rows: Seq<RequiredCheckView>, check: RequiredCheckView)
    requires
        checks_sorted(rows),
    ensures
        0 <= check_position(rows, check) <= rows.len(),
        forall|j: int| 0 <= j < check_position(rows, check) ==> check_lt(rows[j], check),
        forall|j: int| check_position(rows, check) <= j < rows.len() ==> !check_lt(rows[j], check),
    decreases rows.len(),
{
    if rows.len() > 0 {
        if check_lt(rows.last(), check) {
            assert forall|j: int| 0 <= j < rows.len() implies check_lt(rows[j], check) by {
                if j < rows.len() - 1 {
                    lemma_check_lt_transitive(rows[j], rows.last(), check);
                }
            }
        } else {
            let before = rows.drop_last();
            lemma_check_position(before, check);
            assert forall|j: int| 0 <= j < check_position(rows, check) implies check_lt(
                rows[j],
                check,
            ) by {
                assert(before[j] == rows[j]);
            }
            assert forall|j: int| check_position(rows, check) <= j < rows.len() implies !check_lt(
                rows[j],
                check,
            ) by {
                if j < before.len() {
                    assert(before[j] == rows[j]);
                }
            }
        }
    }
}

/// The ordered list of the distinct checks of a list stands in strictly
/// increasing order, so none stands twice, and it holds exactly the checks of
/// the list.
pub proof fn lemma_check_set(checks: Seq<RequiredCheckView>)
    ensures
        checks_sorted(check_set(checks)),
        forall|x: RequiredCheckView| #[trigger]
            check_set(checks).contains(x) <==> checks.contains(x),
    decreases checks.len(),
{
    if checks.len() > 0 {
        let before = checks.drop_last();
        lemma_check_set(before);
        let rows = check_set(before);
        let check = checks.last();
        let out = check_insert(rows, check);
        assert forall|x: RequiredCheckView| checks.contains(x) <==> before.contains(x) || x
            == check by {
            if checks.contains(x) && x != check {
                let k = choose|k: int| 0 <= k < checks.len() && checks[k] == x;
                assert(before[k] == x);
            }
            if before.contains(x) {
                let k = choose|k: int| 0 <= k < before.len() && before[k] == x;
                assert(checks[k] == x);
            }
            assert(checks[checks.len() - 1] == check);
        }
        if !rows.contains(check) {
            let at = check_position(rows, check);
            lemma_check_position(rows, check);
            assert forall|i: int, j: int| 0 <= i < j < out.len() implies check_lt(
                out[i],
                out[j],
            ) by {
                if i == at {
                    lemma_check_lt_total(rows[j - 1], check);
                }
            }
            assert forall|x: RequiredCheckView| #[trigger] out.contains(x) <==> (rows.contains(x)
                || x == check) by {
                if rows.contains(x) {
                    let k = choose|k: int| 0 <= k < rows.len() && rows[k] == x;
                    if k < at {
                        assert(out[k] == x);
                    } else {
                        assert(out[k + 1] == x);
                    }
                }
                if x == check {
                    assert(out[at] == x);
                }
                if out.contains(x) {
                    let k = choose|k: int| 0 <= k < out.len() && out[k] == x;
                    if k < at {
                        assert(rows[k] == x);
                    } else if k > at {
                        assert(rows[k - 1] == x);
                    }
                }
            }
        }
    }
}

// ---------------------------------------------------------------------------
// Runs of a commit
// ---------------------------------------------------------------------------

/// Rows that one read of a lineage keeps.
pub const LINEAGE_LIMIT: usize = 100;

/// At most the first rows of a list.
pub open spec fn first_rows<A>(rows: Seq<A>) -> Seq<A> {
    if rows.len() <= LINEAGE_LIMIT {
        rows
    } else {
        rows.take(LINEAGE_LIMIT as int)
    }
}

impl HeadRunLineageView {
    /// A lineage of bounded size. One that was cut is not complete.
    pub open spec fn cut(self) -> HeadRunLineageView {
        HeadRunLineageView {
            check_suites: first_rows(self.check_suites),
            workflow_runs: first_rows(self.workflow_runs),
            complete: self.complete && self.check_suites.len() <= LINEAGE_LIMIT
                && self.workflow_runs.len() <= LINEAGE_LIMIT,
            ..self
        }
    }
}

fn keep_first<T: Model>(rows: Vec<T>) -> (r: Vec<T>)
    ensures
        r.deep_view() == first_rows(rows.deep_view()),
{
    if rows.len() <= LINEAGE_LIMIT {
        rows
    } else {
        let out = dup_range(&rows, 0, LINEAGE_LIMIT);
        assert(out.deep_view() =~= rows.deep_view().take(LINEAGE_LIMIT as int));
        out
    }
}

impl HeadRunLineage {
    /// The lineage at bounded size. One that was cut is not complete.
    pub fn bounded(self) -> (r: Self)
        ensures
            r.deep_view() == self.deep_view().cut(),
    {
        let complete = self.complete && self.check_suites.len() <= LINEAGE_LIMIT
            && self.workflow_runs.len() <= LINEAGE_LIMIT;
        HeadRunLineage {
            head_sha: self.head_sha,
            check_suites: keep_first(self.check_suites),
            workflow_runs: keep_first(self.workflow_runs),
            head_committed_at: self.head_committed_at,
            complete,
        }
    }
}

/// Whether a check suite can be requested again for a commit.
pub open spec fn requestable(suite: CheckSuiteLineageView, head: Seq<char>) -> bool {
    suite.rerequestable && suite.head_sha == head
}

/// The lowest check suite that can be requested again for a commit.
pub open spec fn lowest_requestable(suites: Seq<CheckSuiteLineageView>, head: Seq<char>) -> Option<
    u64,
>
    decreases suites.len(),
{
    if suites.len() == 0 {
        None
    } else {
        let before = lowest_requestable(suites.drop_last(), head);
        let last = suites.last();
        if !requestable(last, head) {
            before
        } else {
            match before {
                Some(id) => if id <= last.id {
                    Some(id)
                } else {
                    Some(last.id)
                },
                None => Some(last.id),
            }
        }
    }
}

/// The lowest check suite that can be requested again for a commit, where
/// there is a lineage.
pub fn rerequestable_suite(lineage: Option<&HeadRunLineage>, head: &str) -> (r: Option<u64>)
    ensures
        r == match lineage {
            Some(known) => lowest_requestable(known.deep_view().check_suites, head@),
            None => None,
        },
{
    match lineage {
        None => None,
        Some(known) => {
            let suites = &known.check_suites;
            let ghost all = suites.deep_view();
            let wanted = head.to_owned();
            let mut best: Option<u64> = None;
            let mut i: usize = 0;
            while i < suites.len()
                invariant
                    all == suites.deep_view(),
                    wanted@ == head@,
                    i <= suites.len(),
                    best == lowest_requestable(all.take(i as int), head@),
                decreases suites.len() - i,
            {
                assert(all.take(i as int + 1).drop_last() =~= all.take(i as int));
                assert(all[i as int] == suites[i as int].deep_view());
                if suites[i].rerequestable && suites[i].head_sha.same(&wanted) {
                    best = match best {
                        Some(id) => if id <= suites[i].id {
                            Some(id)
                        } else {
                            Some(suites[i].id)
                        },
                        None => Some(suites[i].id),
                    };
                }
                i = i + 1;
            }
            assert(all.take(i as int) =~= all);
            best
        },
    }
}

} // verus!
