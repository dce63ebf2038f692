//! Mechanical validation of a derived fleet: the planned compatibility proofs
//! run against an injected checker, and their outcomes become evidence and
//! problems.

use std::time::Instant;
use vstd::prelude::*;
use vstd::string::*;
use crate::error::{AppError, AppErrorView, ErrorCategory};
use crate::graph;
use crate::graph::laws;
use crate::graph::rows;
use crate::graph::rows::find_row;
use crate::graph::tasks;
use crate::graph::tasks::{
    compatibility_tasks, defer_tasks, push_progress_sample, CompatibilityAnalysisTask, TaskView,
};
use crate::graph::{
    derive_for_actor, BoundedGraphAnalysis, BoundedGraphAnalysisView,
    CompatibilityAnalysisProgress, CompatibilityAnalysisProgressView, GraphAnalysis,
    GraphAnalysisView,
};
use crate::model;
use crate::model::{
    push_item, BranchSnapshot, BranchSnapshotView, Caravan, CaravanFleetView, CaravanView,
    CompatibilityOutcome, CompatibilityReport, CompatibilityReportView, CumulativeTreeProof,
    CumulativeTreeProofView, GraphProblem, GraphProblemKind, GraphProblemView, HeadMergeActor,
    Model, PrNumber, PullRequestSnapshot, PullRequestSnapshotView, RepositorySnapshot,
    RepositorySnapshotView, SquashEquivalenceReport, SquashEquivalenceReportView,
};
use crate::text;
use crate::text::text_less;

verus! {

/// The monotonic clock reading of the standard library.
#[verifier::external_type_specification]
#[verifier::external_body]
pub struct ExInstant(Instant);

/// `Instant::now` reads the clock. Nothing is claimed of the reading: it depends
/// on the time of the call.
pub assume_specification[ Instant::now ]() -> (r: Instant)
;

/// `>=` of two readings of the clock. A reading is opaque, so nothing is claimed
/// of the answer.
#[verifier::external_body]
fn not_before(moment: &Instant, deadline: &Instant) -> (r: bool) {
    moment >= deadline
}

/// What a checker is asked.
pub enum Question {
    /// To fetch branches.
    Prepare(Seq<BranchSnapshotView>),
    /// Whether the first branch merges cleanly into the second.
    Check(BranchSnapshotView, BranchSnapshotView),
    /// For the tree proof of landing the first branch on the second.
    Tree(BranchSnapshotView, BranchSnapshotView),
    /// For squash evidence on the first branch and the second.
    Squash(BranchSnapshotView, BranchSnapshotView),
}

/// Compatibility seam. Production runs Git; tests focus on graph policy
/// without subprocesses.
///
/// A checker says what it may be asked. What a function requires of that bounds
/// what it asks: it is verified for every checker that may be asked no more.
pub trait CompatibilityChecker {
    /// Whether the checker may be asked a question. One that does not say
    /// otherwise may be asked any.
    open spec fn may_be_asked(&self, question: Question) -> bool {
        true
    }

    /// Fetch unique branches once before the pairwise proofs.
    fn prepare(&self, _branches: &[BranchSnapshot]) -> (r: Result<(), AppError>)
        requires
            self.may_be_asked(Question::Prepare(_branches.deep_view())),
    {
        Ok(())
    }

    /// Whether a candidate merges cleanly into a target.
    fn check(&self, candidate: &BranchSnapshot, target: &BranchSnapshot) -> (r: Result<
        CompatibilityReport,
        AppError,
    >)
        requires
            self.may_be_asked(Question::Check(candidate.deep_view(), target.deep_view())),
    ;

    /// The tree proof of landing a candidate on a target. No proof means that
    /// a caravan-owned merge must wait.
    fn cumulative_tree(&self, _candidate: &BranchSnapshot, _target: &BranchSnapshot) -> (r: Result<
        Option<CumulativeTreeProof>,
        AppError,
    >)
        requires
            self.may_be_asked(Question::Tree(_candidate.deep_view(), _target.deep_view())),
    {
        Ok(None)
    }

    /// Squash-equivalence evidence for an attachment that is not clean.
    fn squash_equivalence(&self, _candidate: &BranchSnapshot, _target: &BranchSnapshot) -> (r:
        Result<Option<SquashEquivalenceReport>, AppError>)
        requires
            self.may_be_asked(Question::Squash(_candidate.deep_view(), _target.deep_view())),
    {
        Ok(None)
    }
}

// ---------------------------------------------------------------------------
// What the checker answered
// ---------------------------------------------------------------------------

/// The content of an outcome.
pub open spec fn outcome_view<T: DeepView>(outcome: Result<T, AppError>) -> Result<
    T::V,
    AppErrorView,
> {
    match outcome {
        Ok(value) => Ok(value.deep_view()),
        Err(error) => Err(error.deep_view()),
    }
}

/// The checker may answer a preparation of branches so.
pub open spec fn prepared<C: CompatibilityChecker>(
    checker: C,
    branches: Seq<BranchSnapshotView>,
    outcome: Result<(), AppErrorView>,
) -> bool {
    exists|list: &[BranchSnapshot], raw: Result<(), AppError>|
        #[trigger] call_ensures(C::prepare, (&checker, list), raw) && list.deep_view() == branches
            && outcome_view(raw) == outcome
}

/// The checker may answer a merge trial so.
pub open spec fn checked<C: CompatibilityChecker>(
    checker: C,
    candidate: BranchSnapshotView,
    target: BranchSnapshotView,
    outcome: Result<CompatibilityReportView, AppErrorView>,
) -> bool {
    exists|a: BranchSnapshot, b: BranchSnapshot, raw: Result<CompatibilityReport, AppError>|
        #[trigger] call_ensures(C::check, (&checker, &a, &b), raw) && a.deep_view() == candidate
            && b.deep_view() == target && outcome_view(raw) == outcome
}

/// The checker may answer a request for a tree proof so.
pub open spec fn tree_proved<C: CompatibilityChecker>(
    checker: C,
    candidate: BranchSnapshotView,
    target: BranchSnapshotView,
    outcome: Result<Option<CumulativeTreeProofView>, AppErrorView>,
) -> bool {
    exists|a: BranchSnapshot, b: BranchSnapshot, raw: Result<Option<CumulativeTreeProof>, AppError>|
        #[trigger] call_ensures(C::cumulative_tree, (&checker, &a, &b), raw) && a.deep_view()
            == candidate && b.deep_view() == target && outcome_view(raw) == outcome
}

/// The checker may answer a request for squash evidence so.
pub open spec fn squash_proved<C: CompatibilityChecker>(
    checker: C,
    candidate: BranchSnapshotView,
    target: BranchSnapshotView,
    outcome: Result<Option<SquashEquivalenceReportView>, AppErrorView>,
) -> bool {
    exists|
        a: BranchSnapshot,
        b: BranchSnapshot,
        raw: Result<Option<SquashEquivalenceReport>, AppError>,
    |
        #[trigger] call_ensures(C::squash_equivalence, (&checker, &a, &b), raw) && a.deep_view()
            == candidate && b.deep_view() == target && outcome_view(raw) == outcome
}

// ---------------------------------------------------------------------------
// Recording outcomes
// ---------------------------------------------------------------------------

impl GraphAnalysisView {
    pub open spec fn with_problem(self, problem: GraphProblemView) -> GraphAnalysisView {
        GraphAnalysisView {
            fleet: CaravanFleetView { problems: self.fleet.problems.push(problem), ..self.fleet },
            ..self
        }
    }

    pub open spec fn with_report(self, report: CompatibilityReportView) -> GraphAnalysisView {
        GraphAnalysisView { compatibility: self.compatibility.push(report), ..self }
    }

    /// The analysis after a report on an unadmitted candidate: a conflict is
    /// advisory evidence about that candidate.
    pub open spec fn with_candidate_report(
        self,
        report: CompatibilityReportView,
        pr: PrNumber,
        message: Seq<char>,
    ) -> GraphAnalysisView {
        if report.outcome == CompatibilityOutcome::Clean {
            self.with_report(report)
        } else {
            self.with_problem(
                rows::single(GraphProblemKind::CandidateIncompatible, pr, message),
            ).with_report(report)
        }
    }

    /// The analysis after a conflict between members became a problem.
    pub open spec fn with_conflict(
        self,
        prs: Seq<PrNumber>,
        message: Seq<char>,
    ) -> GraphAnalysisView {
        self.with_problem(GraphProblemView { kind: GraphProblemKind::Incompatible, prs, message })
    }

    /// The analysis after squash evidence, if there is any, and a report.
    pub open spec fn with_evidence(
        self,
        reconciliation: Option<SquashEquivalenceReportView>,
        report: CompatibilityReportView,
    ) -> GraphAnalysisView {
        match reconciliation {
            Some(found) => GraphAnalysisView {
                squash_reconciliations: self.squash_reconciliations.push(found),
                ..self
            }.with_report(report),
            None => self.with_report(report),
        }
    }
}

/// Record the report on an unadmitted candidate as advisory evidence.
pub fn record_candidate_compatibility(
    analysis: GraphAnalysis,
    report: CompatibilityReport,
    pr: PrNumber,
    message: &str,
) -> (r: GraphAnalysis)
    ensures
        r.deep_view() == analysis.deep_view().with_candidate_report(
            report.deep_view(),
            pr,
            message@,
        ),
{
    let mut analysis = analysis;
    if report.outcome != CompatibilityOutcome::Clean {
        push_item(
            &mut analysis.fleet.problems,
            rows::single_problem(GraphProblemKind::CandidateIncompatible, pr, message.to_owned()),
        );
    }
    push_item(&mut analysis.compatibility, report);
    analysis
}

/// Record a conflict between members as a problem.
pub fn record_conflict(analysis: GraphAnalysis, prs: Vec<PrNumber>, message: &str) -> (r:
    GraphAnalysis)
    ensures
        r.deep_view() == analysis.deep_view().with_conflict(prs.deep_view(), message@),
{
    let mut analysis = analysis;
    push_item(
        &mut analysis.fleet.problems,
        GraphProblem { kind: GraphProblemKind::Incompatible, prs, message: message.to_owned() },
    );
    analysis
}

/// Record squash evidence, if there is any, and a report.
pub fn record_evidence(
    analysis: GraphAnalysis,
    reconciliation: Option<SquashEquivalenceReport>,
    report: CompatibilityReport,
) -> (r: GraphAnalysis)
    ensures
        r.deep_view() == analysis.deep_view().with_evidence(
            reconciliation.deep_view(),
            report.deep_view(),
        ),
{
    let mut analysis = analysis;
    if let Some(found) = reconciliation {
        push_item(&mut analysis.squash_reconciliations, found);
    }
    push_item(&mut analysis.compatibility, report);
    analysis
}

// ---------------------------------------------------------------------------
// One proof
// ---------------------------------------------------------------------------

/// What one proof of members may do to an analysis. A conflict is recorded
/// before squash evidence is asked for, and stays if that fails.
pub open spec fn fleet_step<C: CompatibilityChecker>(
    checker: C,
    before: GraphAnalysisView,
    after: GraphAnalysisView,
    failure: Option<AppErrorView>,
    report: CompatibilityReportView,
    prs: Seq<PrNumber>,
    message: Seq<char>,
) -> bool {
    if report.outcome == CompatibilityOutcome::Clean {
        after == before.with_report(report) && failure is None
    } else {
        exists|evidence: Result<Option<SquashEquivalenceReportView>, AppErrorView>|
            #[trigger] squash_proved(checker, report.candidate, report.target, evidence)
                && match evidence {
                Ok(found) => after == before.with_conflict(prs, message).with_evidence(
                    found,
                    report,
                ) && failure is None,
                Err(error) => after == before.with_conflict(prs, message) && failure == Some(error),
            }
    }
}

/// What one planned proof may do to an analysis.
pub open spec fn task_step<C: CompatibilityChecker>(
    checker: C,
    task: TaskView,
    before: GraphAnalysisView,
    after: GraphAnalysisView,
    failure: Option<AppErrorView>,
) -> bool {
    match task {
        TaskView::Fleet { candidate, target, prs, message, .. } => exists|
            outcome: Result<CompatibilityReportView, AppErrorView>,
        |
            #[trigger] checked(checker, candidate, target, outcome) && match outcome {
                Ok(report) => fleet_step(checker, before, after, failure, report, prs, message),
                Err(error) => after == before && failure == Some(error),
            },
        TaskView::CumulativeTree { candidate, target, .. } => exists|
            outcome: Result<Option<CumulativeTreeProofView>, AppErrorView>,
        |
            #[trigger] tree_proved(checker, candidate, target, outcome) && match outcome {
                Ok(Some(proof)) => after == (GraphAnalysisView {
                    cumulative_trees: before.cumulative_trees.push(proof),
                    ..before
                }) && failure is None,
                Ok(None) => after == before && failure is None,
                Err(error) => after == before && failure == Some(error),
            },
        TaskView::AdmissionCandidate { candidate, target, pr, .. } => exists|
            outcome: Result<CompatibilityReportView, AppErrorView>,
        |
            #[trigger] checked(checker, candidate, target, outcome) && match outcome {
                Ok(report) => after == before.with_candidate_report(
                    report,
                    pr,
                    "leading admission candidate does not merge cleanly into the current default branch"@,
                ) && failure is None,
                Err(error) => after == before && failure == Some(error),
            },
    }
}

/// What recording a report may ask: squash evidence on the two branches of the
/// report, if they conflict, and nothing otherwise.
pub open spec fn may_record<C: CompatibilityChecker>(
    checker: C,
    report: CompatibilityReportView,
) -> bool {
    report.outcome != CompatibilityOutcome::Clean ==> checker.may_be_asked(
        Question::Squash(report.candidate, report.target),
    )
}

/// What one planned proof may ask: its own question and, once that was answered
/// with a conflict of members, squash evidence on it.
pub open spec fn may_prove<C: CompatibilityChecker>(checker: C, task: TaskView) -> bool {
    match task {
        TaskView::Fleet { candidate, target, .. } => {
            &&& checker.may_be_asked(Question::Check(candidate, target))
            &&& forall|report: CompatibilityReportView| #[trigger]
                checked(checker, candidate, target, Ok(report)) ==> may_record(checker, report)
        },
        TaskView::CumulativeTree { candidate, target, .. } => checker.may_be_asked(
            Question::Tree(candidate, target),
        ),
        TaskView::AdmissionCandidate { candidate, target, .. } => checker.may_be_asked(
            Question::Check(candidate, target),
        ),
    }
}

/// Record the report of one proof of members, asking for squash evidence
/// where they conflict.
pub fn record_compatibility<C: CompatibilityChecker>(
    analysis: GraphAnalysis,
    checker: &C,
    report: CompatibilityReport,
    prs: Vec<PrNumber>,
    message: &str,
) -> (r: (GraphAnalysis, Option<AppError>))
    requires
        may_record(*checker, report.deep_view()),
    ensures
        fleet_step(
            *checker,
            analysis.deep_view(),
            r.0.deep_view(),
            r.1.deep_view(),
            report.deep_view(),
            prs.deep_view(),
            message@,
        ),
{
    if report.outcome == CompatibilityOutcome::Clean {
        let next = record_evidence(analysis, None, report);
        return (next, None);
    }
    let next = record_conflict(analysis, prs, message);
    let evidence = checker.squash_equivalence(&report.candidate, &report.target);
    assert(squash_proved(
        *checker,
        report.deep_view().candidate,
        report.deep_view().target,
        outcome_view(evidence),
    ));
    match evidence {
        Ok(found) => (record_evidence(next, found, report), None),
        Err(error) => (next, Some(error)),
    }
}

impl CompatibilityAnalysisTask {
    /// Run one planned proof.
    pub fn execute<C: CompatibilityChecker>(&self, analysis: GraphAnalysis, checker: &C) -> (r: (
        GraphAnalysis,
        Option<AppError>,
    ))
        requires
            may_prove(*checker, self.deep_view()),
        ensures
            task_step(
                *checker,
                self.deep_view(),
                analysis.deep_view(),
                r.0.deep_view(),
                r.1.deep_view(),
            ),
    {
        let ghost task = self.deep_view();
        match self {
            CompatibilityAnalysisTask::Fleet { candidate, target, prs, message, .. } => {
                let outcome = checker.check(candidate, target);
                let ghost answer = outcome_view(outcome);
                assert(checked(*checker, task->Fleet_candidate, task->Fleet_target, answer));
                match outcome {
                    Ok(report) => record_compatibility(
                        analysis,
                        checker,
                        report,
                        prs.dup(),
                        message.as_str(),
                    ),
                    Err(error) => (analysis, Some(error)),
                }
            },
            CompatibilityAnalysisTask::CumulativeTree { candidate, target, .. } => {
                let outcome = checker.cumulative_tree(candidate, target);
                let ghost answer = outcome_view(outcome);
                assert(tree_proved(
                    *checker,
                    task->CumulativeTree_candidate,
                    task->CumulativeTree_target,
                    answer,
                ));
                match outcome {
                    Ok(Some(proof)) => {
                        let mut next = analysis;
                        push_item(&mut next.cumulative_trees, proof);
                        (next, None)
                    },
                    Ok(None) => (analysis, None),
                    Err(error) => (analysis, Some(error)),
                }
            },
            CompatibilityAnalysisTask::AdmissionCandidate { candidate, target, pr, .. } => {
                let outcome = checker.check(candidate, target);
                let ghost answer = outcome_view(outcome);
                assert(checked(
                    *checker,
                    task->AdmissionCandidate_candidate,
                    task->AdmissionCandidate_target,
                    answer,
                ));
                match outcome {
                    Ok(report) => {
                        let next = record_candidate_compatibility(
                            analysis,
                            report,
                            *pr,
                            "leading admission candidate does not merge cleanly into the current default branch",
                        );
                        (next, None)
                    },
                    Err(error) => (analysis, Some(error)),
                }
            },
        }
    }
}

// ---------------------------------------------------------------------------
// Branches to prepare
// ---------------------------------------------------------------------------

/// Order of branches by name, then commit.
pub open spec fn branch_lt(a: BranchSnapshotView, b: BranchSnapshotView) -> bool {
    text::text_lt(a.name, b.name) || (a.name == b.name && text::text_lt(a.oid, b.oid))
}

/// Whether two branches are the same revision.
pub open spec fn same_revision(a: BranchSnapshotView, b: BranchSnapshotView) -> bool {
    a.name == b.name && a.oid == b.oid
}

/// The position before which a branch belongs in ordered branches.
pub open spec fn branch_position(sorted: Seq<BranchSnapshotView>, branch: BranchSnapshotView) -> int
    decreases sorted.len(),
{
    if sorted.len() == 0 {
        0
    } else if branch_lt(sorted.last(), branch) {
        sorted.len() as int
    } else {
        branch_position(sorted.drop_last(), branch)
    }
}

/// Ordered branches with one more revision, unless it is there.
pub open spec fn branch_insert(
    sorted: Seq<BranchSnapshotView>,
    branch: BranchSnapshotView,
) -> Seq<BranchSnapshotView> {
    if exists|i: int| 0 <= i < sorted.len() && same_revision(#[trigger] sorted[i], branch) {
        sorted
    } else {
        let at = branch_position(sorted, branch);
        sorted.take(at).push(branch) + sorted.skip(at)
    }
}

/// The distinct revisions of a list, ordered by name and commit.
pub open spec fn branch_set(branches: Seq<BranchSnapshotView>) -> Seq<BranchSnapshotView>
    decreases branches.len(),
{
    if branches.len() == 0 {
        Seq::empty()
    } else {
        branch_insert(branch_set(branches.drop_last()), branches.last())
    }
}

/// The heads of the first members that have a row.
pub open spec fn member_heads(
    rows: Seq<PullRequestSnapshotView>,
    members: Seq<PrNumber>,
) -> Seq<BranchSnapshotView>
    decreases members.len(),
{
    if members.len() == 0 {
        Seq::empty()
    } else {
        match rows::row_of(rows, members.last()) {
            Some(pr) => member_heads(rows, members.drop_last()).push(pr.head),
            None => member_heads(rows, members.drop_last()),
        }
    }
}

/// The heads of the members of caravans.
pub open spec fn fleet_heads(
    rows: Seq<PullRequestSnapshotView>,
    caravans: Seq<CaravanView>,
) -> Seq<BranchSnapshotView>
    decreases caravans.len(),
{
    if caravans.len() == 0 {
        Seq::empty()
    } else {
        fleet_heads(rows, caravans.drop_last()) + member_heads(rows, caravans.last().members)
    }
}

/// The revisions that an analysis prepares: the default branch and the heads
/// of all members.
pub open spec fn needed_branches(
    analysis: GraphAnalysisView,
    default_branch: BranchSnapshotView,
) -> Seq<BranchSnapshotView> {
    branch_set(
        seq![default_branch] + fleet_heads(analysis.pull_requests, analysis.fleet.caravans),
    )
}

fn holds_revision(sorted: &Vec<BranchSnapshot>, branch: &BranchSnapshot) -> (r: bool)
    ensures
        r == (exists|i: int|
            0 <= i < sorted.deep_view().len() && same_revision(
                #[trigger] sorted.deep_view()[i],
                branch.deep_view(),
            )),
{
    let ghost all = sorted.deep_view();
    let mut i: usize = 0;
    while i < sorted.len()
        invariant
            all == sorted.deep_view(),
            i <= sorted.len(),
            forall|j: int| 0 <= j < i ==> !same_revision(#[trigger] all[j], branch.deep_view()),
        decreases sorted.len() - i,
    {
        assert(all[i as int] == sorted[i as int].deep_view());
        if sorted[i].name.same(&branch.name) && sorted[i].oid.same(&branch.oid) {
            return true;
        }
        i = i + 1;
    }
    false
}

fn insert_branch(sorted: Vec<BranchSnapshot>, branch: &BranchSnapshot) -> (r: Vec<BranchSnapshot>)
    ensures
        r.deep_view() == branch_insert(sorted.deep_view(), branch.deep_view()),
{
    if holds_revision(&sorted, branch) {
        return sorted;
    }
    let ghost all = sorted.deep_view();
    let ghost item = branch.deep_view();
    let mut out = sorted;
    let mut at: usize = out.len();
    assert(all.take(at as int) =~= all);
    while at > 0 && !branch_less(&out[at - 1], branch)
        invariant
            all == out.deep_view(),
            item == branch.deep_view(),
            at <= out.len(),
            branch_position(all, item) == branch_position(all.take(at as int), item),
        decreases at,
    {
        assert(all.take(at as int).last() == out[at - 1].deep_view());
        assert(all.take(at as int).drop_last() =~= all.take(at as int - 1));
        at = at - 1;
    }
    if at > 0 {
        assert(all.take(at as int).last() == out[at - 1].deep_view());
    }
    assert(branch_position(all, item) == at);
    out.insert(at, branch.dup());
    assert(out.deep_view() =~= all.take(at as int).push(item) + all.skip(at as int));
    out
}

fn branch_less(a: &BranchSnapshot, b: &BranchSnapshot) -> (r: bool)
    ensures
        r == branch_lt(a.deep_view(), b.deep_view()),
{
    text_less(a.name.as_str(), b.name.as_str()) || (a.name.same(&b.name) && text_less(
        a.oid.0.as_str(),
        b.oid.0.as_str(),
    ))
}

fn find_member_heads(rows: &Vec<PullRequestSnapshot>, members: &Vec<PrNumber>) -> (r: Vec<
    BranchSnapshot,
>)
    ensures
        r.deep_view() == member_heads(rows.deep_view(), members.deep_view()),
{
    let ghost all = rows.deep_view();
    let ghost numbers = members.deep_view();
    let mut out: Vec<BranchSnapshot> = Vec::new();
    assert(out.deep_view() =~= member_heads(all, numbers.take(0)));
    let mut i: usize = 0;
    while i < members.len()
        invariant
            all == rows.deep_view(),
            numbers == members.deep_view(),
            i <= members.len(),
            out.deep_view() == member_heads(all, numbers.take(i as int)),
        decreases members.len() - i,
    {
        assert(numbers.take(i as int + 1).drop_last() =~= numbers.take(i as int));
        assert(numbers[i as int] == members[i as int]);
        if let Some(pr) = find_row(rows, members[i]) {
            push_item(&mut out, pr.head.dup());
        }
        i = i + 1;
    }
    assert(numbers.take(i as int) =~= numbers);
    out
}

fn find_fleet_heads(rows: &Vec<PullRequestSnapshot>, caravans: &Vec<Caravan>) -> (r: Vec<
    BranchSnapshot,
>)
    ensures
        r.deep_view() == fleet_heads(rows.deep_view(), caravans.deep_view()),
{
    let ghost all = rows.deep_view();
    let ghost views = caravans.deep_view();
    let mut out: Vec<BranchSnapshot> = Vec::new();
    assert(out.deep_view() =~= fleet_heads(all, views.take(0)));
    let mut i: usize = 0;
    while i < caravans.len()
        invariant
            all == rows.deep_view(),
            views == caravans.deep_view(),
            i <= caravans.len(),
            out.deep_view() == fleet_heads(all, views.take(i as int)),
        decreases caravans.len() - i,
    {
        assert(views.take(i as int + 1).drop_last() =~= views.take(i as int));
        assert(views[i as int] == caravans[i as int].deep_view());
        model::append_items(&mut out, find_member_heads(rows, &caravans[i].members));
        i = i + 1;
    }
    assert(views.take(i as int) =~= views);
    out
}

/// The revisions that an analysis prepares.
pub fn branches_to_prepare(analysis: &GraphAnalysis, default_branch: &BranchSnapshot) -> (r: Vec<
    BranchSnapshot,
>)
    ensures
        r.deep_view() == needed_branches(analysis.deep_view(), default_branch.deep_view()),
{
    let mut list: Vec<BranchSnapshot> = Vec::new();
    push_item(&mut list, default_branch.dup());
    model::append_items(
        &mut list,
        find_fleet_heads(&analysis.pull_requests, &analysis.fleet.caravans),
    );
    let ghost all = list.deep_view();
    assert(all =~= seq![default_branch.deep_view()] + fleet_heads(
        analysis.deep_view().pull_requests,
        analysis.deep_view().fleet.caravans,
    ));
    let mut out: Vec<BranchSnapshot> = Vec::new();
    assert(out.deep_view() =~= branch_set(all.take(0)));
    let mut i: usize = 0;
    while i < list.len()
        invariant
            all == list.deep_view(),
            i <= list.len(),
            out.deep_view() == branch_set(all.take(i as int)),
        decreases list.len() - i,
    {
        assert(all.take(i as int + 1).drop_last() =~= all.take(i as int));
        assert(all[i as int] == list[i as int].deep_view());
        out = insert_branch(out, &list[i]);
        i = i + 1;
    }
    assert(all.take(i as int) =~= all);
    out
}

// ---------------------------------------------------------------------------
// The analysis
// ---------------------------------------------------------------------------

/// The progress before any proof ran.
pub open spec fn planned_progress(
    snapshot: RepositorySnapshotView,
    analysis: GraphAnalysisView,
) -> CompatibilityAnalysisProgressView {
    let skipped = tasks::sample_all(
        tasks::SamplesView { kept: Seq::empty(), truncated: 0 },
        tasks::skipped_names(analysis, snapshot.default_branch),
    );
    CompatibilityAnalysisProgressView {
        complete: false,
        revision_preparation_complete: false,
        candidate_count: snapshot.pull_requests.len() as usize,
        unqueued_candidate_count: analysis.fleet.unqueued.len() as usize,
        caravan_count: analysis.fleet.caravans.len() as usize,
        branch_count: needed_branches(analysis, snapshot.default_branch).len() as usize,
        planned_analyses: tasks::planned_tasks(analysis, snapshot.default_branch).len() as usize,
        completed_analyses: 0,
        deferred_analyses: Seq::empty(),
        deferred_analyses_truncated: 0,
        skipped_analyses: skipped.kept,
        skipped_analyses_truncated: skipped.truncated,
    }
}

/// The progress after some proofs.
pub open spec fn progressed(
    planned: CompatibilityAnalysisProgressView,
    done: nat,
) -> CompatibilityAnalysisProgressView {
    CompatibilityAnalysisProgressView {
        revision_preparation_complete: true,
        completed_analyses: done as usize,
        ..planned
    }
}

/// The analyses between the first proofs, one after the other.
pub open spec fn proofs_ran<C: CompatibilityChecker>(
    checker: C,
    planned: Seq<TaskView>,
    states: Seq<GraphAnalysisView>,
) -> bool {
    &&& 1 <= states.len() <= planned.len() + 1
    &&& forall|i: int|
        0 <= i < states.len() - 1 ==> #[trigger] task_step(
            checker,
            planned[i],
            states[i],
            states[i + 1],
            None,
        )
}

/// What an analysis returns once the proofs of `states` succeeded, if the clock
/// answered so. Each turn asks the clock once: the preparation and each proof.
pub open spec fn proofs_ended<C: CompatibilityChecker>(
    checker: C,
    planned: Seq<TaskView>,
    progress: CompatibilityAnalysisProgressView,
    bounded: bool,
    answers: Seq<bool>,
    states: Seq<GraphAnalysisView>,
    r: Result<BoundedGraphAnalysisView, AppErrorView>,
) -> bool {
    let done = (states.len() - 1) as nat;
    let rest = planned.skip(done as int);
    if done == planned.len() {
        answers.len() == done + 1 && !answers.last() && r == Ok::<_, AppErrorView>(
            BoundedGraphAnalysisView {
                analysis: states.last(),
                progress: CompatibilityAnalysisProgressView {
                    complete: true,
                    ..progressed(progress, done)
                },
            },
        )
    } else if answers.last() {
        answers.len() == done + 2 && r == Ok::<_, AppErrorView>(
            BoundedGraphAnalysisView {
                analysis: states.last(),
                progress: tasks::deferred(progressed(progress, done), rest),
            },
        )
    } else {
        answers.len() == done + 2 && exists|after: GraphAnalysisView, error: AppErrorView|
            #[trigger] task_step(checker, planned[done as int], states.last(), after, Some(error))
                && if bounded && error.category == ErrorCategory::Timeout {
                r == Ok::<_, AppErrorView>(
                    BoundedGraphAnalysisView {
                        analysis: after,
                        progress: tasks::deferred(progressed(progress, done), rest),
                    },
                )
            } else {
                r == Err::<BoundedGraphAnalysisView, _>(error)
            }
    }
}

/// What an analysis returns that stops before its preparation: the derived
/// analysis, with every proof deferred.
pub open spec fn untouched(
    snapshot: RepositorySnapshotView,
    actor: HeadMergeActor,
) -> BoundedGraphAnalysisView {
    let start = graph::derived(snapshot, actor);
    BoundedGraphAnalysisView {
        analysis: start,
        progress: tasks::deferred(
            planned_progress(snapshot, start),
            tasks::planned_tasks(start, snapshot.default_branch),
        ),
    }
}

/// What an analysis returns if the clock answered so, turn by turn, whether it
/// must stop. It goes on until the clock says stop, a proof fails, or nothing is
/// left. A bounded one turns timeouts into deferred proofs.
pub open spec fn analyzed_answering<C: CompatibilityChecker>(
    checker: C,
    snapshot: RepositorySnapshotView,
    actor: HeadMergeActor,
    bounded: bool,
    answers: Seq<bool>,
    r: Result<BoundedGraphAnalysisView, AppErrorView>,
) -> bool {
    let start = graph::derived(snapshot, actor);
    let planned = tasks::planned_tasks(start, snapshot.default_branch);
    let progress = planned_progress(snapshot, start);
    &&& answers.len() >= 1
    &&& forall|i: int| 0 <= i < answers.len() - 1 ==> !(#[trigger] answers[i])
    &&& if answers[0] {
        r == Ok::<_, AppErrorView>(untouched(snapshot, actor))
    } else {
        exists|outcome: Result<(), AppErrorView>|
            #[trigger] prepared(checker, needed_branches(start, snapshot.default_branch), outcome)
                && match outcome {
                Err(error) => answers.len() == 1 && if bounded && error.category
                    == ErrorCategory::Timeout {
                    r == Ok::<_, AppErrorView>(untouched(snapshot, actor))
                } else {
                    r == Err::<BoundedGraphAnalysisView, _>(error)
                },
                Ok(_) => exists|states: Seq<GraphAnalysisView>|
                    #[trigger] proofs_ran(checker, planned, states) && states[0] == start
                        && proofs_ended(checker, planned, progress, bounded, answers, states, r),
            }
    }
}

/// What an analysis may return. A bounded one may be stopped before its
/// preparation or before a proof; any other runs every proof or reports the
/// first failure.
pub open spec fn analyzed<C: CompatibilityChecker>(
    checker: C,
    snapshot: RepositorySnapshotView,
    actor: HeadMergeActor,
    bounded: bool,
    r: Result<BoundedGraphAnalysisView, AppErrorView>,
) -> bool {
    exists|answers: Seq<bool>|
        #[trigger] analyzed_answering(checker, snapshot, actor, bounded, answers, r) && (
        !bounded ==> !answers.last())
}

// ---------------------------------------------------------------------------
// The clock
// ---------------------------------------------------------------------------

/// Where an analysis stops.
#[derive(Debug, Clone, Copy, PartialEq, Eq, Structural)]
pub enum StopBefore {
    /// Before anything is prepared.
    Preparation,
    /// Before the proof at a place in the plan.
    Proof(usize),
}

/// What bounds an analysis.
pub enum AnalysisClock {
    /// Nothing: every proof is mandatory.
    Unbounded,
    /// A given place, if any.
    Stops(Option<StopBefore>),
    /// A moment.
    Deadline(Instant),
}

/// A reading of the clock may say so of a deadline: that it is past, or not.
pub closed spec fn clock_said(deadline: Instant, past: bool) -> bool {
    exists|now: Instant| #[trigger]
        call_ensures(Instant::now, (), now) && call_ensures(not_before, (&now, &deadline), past)
}

/// Whether a place where an analysis stops is reached at a turn. The first turn
/// is the preparation, and each proof is one more.
pub open spec fn stop_reached(stop: Option<StopBefore>, turn: int) -> bool {
    match stop {
        None => false,
        Some(StopBefore::Preparation) => true,
        Some(StopBefore::Proof(place)) => turn > place,
    }
}

impl AnalysisClock {
    /// Whether the clock may stop an analysis.
    pub open spec fn bounds(self) -> bool {
        !(self is Unbounded)
    }

    /// Whether the clock may answer so at a turn. At a deadline the answer is
    /// what a reading at that turn says.
    pub open spec fn says(self, turn: int, stop: bool) -> bool {
        match self {
            AnalysisClock::Unbounded => !stop,
            AnalysisClock::Stops(place) => stop == stop_reached(place, turn),
            AnalysisClock::Deadline(deadline) => clock_said(deadline, stop),
        }
    }

    fn must_stop(&self, turn: usize) -> (r: bool)
        ensures
            self.says(turn as int, r),
    {
        match self {
            AnalysisClock::Unbounded => false,
            AnalysisClock::Stops(place) => match place {
                None => false,
                Some(StopBefore::Preparation) => true,
                Some(StopBefore::Proof(at)) => turn > *at,
            },
            AnalysisClock::Deadline(deadline) => {
                let now = Instant::now();
                let past = not_before(&now, deadline);
                assert(call_ensures(Instant::now, (), now));
                past
            },
        }
    }

    fn is_bounded(&self) -> (r: bool)
        ensures
            r == self.bounds(),
    {
        match self {
            AnalysisClock::Unbounded => false,
            _ => true,
        }
    }
}

/// What an analysis returns under a clock.
pub open spec fn analyzed_by<C: CompatibilityChecker>(
    checker: C,
    snapshot: RepositorySnapshotView,
    actor: HeadMergeActor,
    clock: AnalysisClock,
    r: Result<BoundedGraphAnalysisView, AppErrorView>,
) -> bool {
    exists|answers: Seq<bool>|
        #[trigger] analyzed_answering(
            checker,
            snapshot,
            actor,
            clock.bounds(),
            answers,
            r,
        ) && forall|i: int|
            0 <= i < answers.len() ==> clock.says(i, #[trigger] answers[i])
}

/// Whether the clock may let every turn up to one go on.
pub open spec fn goes_on(clock: AnalysisClock, turn: nat) -> bool {
    forall|i: int| 0 <= i <= turn ==> #[trigger] clock.says(i, false)
}

/// What an analysis may ask: nothing if the clock stops it on entry, else the
/// preparation, and each planned proof once everything before it succeeded and
/// the clock let it go on.
pub open spec fn may_analyze<C: CompatibilityChecker>(
    checker: C,
    snapshot: RepositorySnapshotView,
    actor: HeadMergeActor,
    clock: AnalysisClock,
) -> bool {
    let start = graph::derived(snapshot, actor);
    let planned = tasks::planned_tasks(start, snapshot.default_branch);
    let branches = needed_branches(start, snapshot.default_branch);
    goes_on(clock, 0) ==> {
        &&& checker.may_be_asked(Question::Prepare(branches))
        &&& prepared(checker, branches, Ok(())) ==> forall|states: Seq<GraphAnalysisView>| #[trigger]
            proofs_ran(checker, planned, states) && states[0] == start && states.len()
                <= planned.len() && goes_on(clock, states.len()) ==> may_prove(
                checker,
                planned[states.len() - 1],
            )
    }
}

fn plan_progress(
    snapshot: &RepositorySnapshot,
    analysis: &GraphAnalysis,
    branch_count: usize,
    planned: usize,
    skipped: &Vec<String>,
) -> (r: CompatibilityAnalysisProgress)
    requires
        branch_count == needed_branches(
            analysis.deep_view(),
            snapshot.deep_view().default_branch,
        ).len(),
        planned == tasks::planned_tasks(
            analysis.deep_view(),
            snapshot.deep_view().default_branch,
        ).len(),
        skipped.deep_view() == tasks::skipped_names(
            analysis.deep_view(),
            snapshot.deep_view().default_branch,
        ),
    ensures
        r.deep_view() == planned_progress(snapshot.deep_view(), analysis.deep_view()),
{
    let ghost names = skipped.deep_view();
    let ghost start = tasks::SamplesView { kept: Seq::empty(), truncated: 0 };
    let mut kept: Vec<String> = Vec::new();
    let mut truncated: usize = 0;
    let mut i: usize = 0;
    assert((tasks::SamplesView { kept: kept.deep_view(), truncated }) =~= tasks::sample_all(
        start,
        names.take(0),
    ));
    while i < skipped.len()
        invariant
            names == skipped.deep_view(),
            i <= skipped.len(),
            (tasks::SamplesView { kept: kept.deep_view(), truncated }) == tasks::sample_all(
                start,
                names.take(i as int),
            ),
        decreases skipped.len() - i,
    {
        assert(names.take(i as int + 1).drop_last() =~= names.take(i as int));
        assert(names[i as int] == skipped[i as int]@);
        push_progress_sample(&mut kept, &mut truncated, skipped[i].dup());
        i = i + 1;
    }
    assert(names.take(i as int) =~= names);
    let deferred_analyses: Vec<String> = Vec::new();
    assert(deferred_analyses.deep_view() =~= Seq::<Seq<char>>::empty());
    CompatibilityAnalysisProgress {
        complete: false,
        revision_preparation_complete: false,
        candidate_count: snapshot.pull_requests.len(),
        unqueued_candidate_count: analysis.fleet.unqueued.len(),
        caravan_count: analysis.fleet.caravans.len(),
        branch_count,
        planned_analyses: planned,
        completed_analyses: 0,
        deferred_analyses,
        deferred_analyses_truncated: 0,
        skipped_analyses: kept,
        skipped_analyses_truncated: truncated,
    }
}

fn analyze_for_actor_internal<C: CompatibilityChecker>(
    snapshot: &RepositorySnapshot,
    checker: &C,
    actor: HeadMergeActor,
    clock: &AnalysisClock,
) -> (r: Result<BoundedGraphAnalysis, AppError>)
    requires
        may_analyze(*checker, snapshot.deep_view(), actor, *clock),
    ensures
        analyzed_by(*checker, snapshot.deep_view(), actor, *clock, outcome_view(r)),
{
    let ghost view = snapshot.deep_view();
    let ghost bounded = clock.bounds();
    let mut analysis = derive_for_actor(snapshot, actor);
    let ghost start = analysis.deep_view();
    proof {
        laws::lemma_members_have_rows(view);
    }
    let branches = branches_to_prepare(&analysis, &snapshot.default_branch);
    let (planned, skipped) = compatibility_tasks(&analysis, &snapshot.default_branch);
    let ghost plan = planned.deep_view();
    let mut progress = plan_progress(snapshot, &analysis, branches.len(), planned.len(), &skipped);
    let ghost base = progress.deep_view();
    assert(plan.skip(0) =~= plan);

    let stop = clock.must_stop(0);
    let ghost mut answers: Seq<bool> = seq![stop];
    if stop {
        progress = defer_tasks(progress, &planned, 0);
        let out = Ok(BoundedGraphAnalysis { analysis, progress });
        assert(analyzed_answering(*checker, view, actor, bounded, answers, outcome_view(out)));
        return out;
    }
    let list = branches.as_slice();
    assert(list.deep_view() =~= branches.deep_view());
    assert(goes_on(*clock, 0)) by {
        assert(clock.says(0, stop));
    }
    let preparation = checker.prepare(list);
    assert(prepared(
        *checker,
        needed_branches(start, view.default_branch),
        outcome_view(preparation),
    ));
    match preparation {
        Err(error) => {
            if clock.is_bounded() && error.timed_out() {
                progress = defer_tasks(progress, &planned, 0);
                let out = Ok(BoundedGraphAnalysis { analysis, progress });
                assert(analyzed_answering(
                    *checker,
                    view,
                    actor,
                    bounded,
                    answers,
                    outcome_view(out),
                ));
                return out;
            }
            let out = Err(error);
            assert(analyzed_answering(*checker, view, actor, bounded, answers, outcome_view(out)));
            return out;
        },
        Ok(_) => {},
    }
    progress.revision_preparation_complete = true;

    let ghost mut states: Seq<GraphAnalysisView> = seq![start];
    let mut i: usize = 0;
    while i < planned.len()
        invariant
            view == snapshot.deep_view(),
            bounded == clock.bounds(),
            may_analyze(*checker, view, actor, *clock),
            answers.len() == i + 1,
            forall|k: int| 0 <= k < answers.len() ==> !(#[trigger] answers[k]) && clock.says(
                k,
                answers[k],
            ),
            start == graph::derived(view, actor),
            plan == planned.deep_view(),
            plan == tasks::planned_tasks(start, view.default_branch),
            base == planned_progress(view, start),
            prepared(*checker, needed_branches(start, view.default_branch), Ok(())),
            i <= planned.len(),
            states.len() == i + 1,
            states[0] == start,
            states.last() == analysis.deep_view(),
            proofs_ran(*checker, plan, states),
            progress.deep_view() == progressed(base, i as nat),
        decreases planned.len() - i,
    {
        let stop = clock.must_stop(i + 1);
        proof {
            answers = answers.push(stop);
        }
        if stop {
            progress = defer_tasks(progress, &planned, i);
            let out = Ok(BoundedGraphAnalysis { analysis, progress });
            assert(proofs_ended(*checker, plan, base, bounded, answers, states, outcome_view(out)));
            assert(analyzed_answering(*checker, view, actor, bounded, answers, outcome_view(out)));
            return out;
        }
        assert(plan[i as int] == planned[i as int].deep_view());
        assert forall|k: int| 0 <= k <= i + 1 implies #[trigger] clock.says(k, false) by {
            assert(clock.says(k, answers[k]));
        }
        assert(goes_on(*clock, 0));
        assert(goes_on(*clock, states.len()));
        let (next, failure) = planned[i].execute(analysis, checker);
        analysis = next;
        match failure {
            Some(error) => {
                let ghost after = analysis.deep_view();
                let ghost problem = error.deep_view();
                assert(task_step(*checker, plan[i as int], states.last(), after, Some(problem)));
                if clock.is_bounded() && error.timed_out() {
                    progress = defer_tasks(progress, &planned, i);
                    let out = Ok(BoundedGraphAnalysis { analysis, progress });
                    assert(proofs_ended(
                        *checker,
                        plan,
                        base,
                        bounded,
                        answers,
                        states,
                        outcome_view(out),
                    ));
                    assert(analyzed_answering(
                        *checker,
                        view,
                        actor,
                        bounded,
                        answers,
                        outcome_view(out),
                    ));
                    return out;
                }
                let out = Err(error);
                assert(proofs_ended(
                    *checker,
                    plan,
                    base,
                    bounded,
                    answers,
                    states,
                    outcome_view(out),
                ));
                assert(analyzed_answering(
                    *checker,
                    view,
                    actor,
                    bounded,
                    answers,
                    outcome_view(out),
                ));
                return out;
            },
            None => {},
        }
        progress.completed_analyses = progress.completed_analyses.saturating_add(1);
        proof {
            let old_states = states;
            states = states.push(analysis.deep_view());
            assert forall|k: int| 0 <= k < states.len() - 1 implies #[trigger] task_step(
                *checker,
                plan[k],
                states[k],
                states[k + 1],
                None,
            ) by {
                if k < i {
                    assert(task_step(*checker, plan[k], old_states[k], old_states[k + 1], None));
                }
            }
        }
        i = i + 1;
    }
    progress.complete = true;
    let out = Ok(BoundedGraphAnalysis { analysis, progress });
    assert(proofs_ended(*checker, plan, base, bounded, answers, states, outcome_view(out)));
    assert(analyzed_answering(*checker, view, actor, bounded, answers, outcome_view(out)));
    out
}

/// Derive and mechanically validate the fleet of a repository whose provider
/// merges the head.
pub fn analyze<C: CompatibilityChecker>(snapshot: &RepositorySnapshot, checker: &C) -> (r: Result<
    GraphAnalysis,
    AppError,
>)
    requires
        may_analyze(
            *checker,
            snapshot.deep_view(),
            HeadMergeActor::Github,
            AnalysisClock::Unbounded,
        ),
    ensures
        exists|full: Result<BoundedGraphAnalysisView, AppErrorView>|
            #[trigger] analyzed(
                *checker,
                snapshot.deep_view(),
                HeadMergeActor::Github,
                false,
                full,
            ) && outcome_view(r) == only_analysis(full),
{
    analyze_for_actor(snapshot, checker, HeadMergeActor::Github)
}

/// The analysis of a result without its progress.
pub open spec fn only_analysis(full: Result<BoundedGraphAnalysisView, AppErrorView>) -> Result<
    GraphAnalysisView,
    AppErrorView,
> {
    match full {
        Ok(bounded) => Ok(bounded.analysis),
        Err(error) => Err(error),
    }
}

/// Derive and mechanically validate the fleet for one configured head merge
/// actor. Every proof is mandatory.
pub fn analyze_for_actor<C: CompatibilityChecker>(
    snapshot: &RepositorySnapshot,
    checker: &C,
    actor: HeadMergeActor,
) -> (r: Result<GraphAnalysis, AppError>)
    requires
        may_analyze(
            *checker,
            snapshot.deep_view(),
            actor,
            AnalysisClock::Unbounded,
        ),
    ensures
        exists|full: Result<BoundedGraphAnalysisView, AppErrorView>|
            #[trigger] analyzed(*checker, snapshot.deep_view(), actor, false, full)
                && outcome_view(r) == only_analysis(full),
{
    let full = analyze_for_actor_with_progress(snapshot, checker, actor);
    assert(analyzed(*checker, snapshot.deep_view(), actor, false, outcome_view(full)));
    match full {
        Ok(bounded) => Ok(bounded.analysis),
        Err(error) => Err(error),
    }
}

/// Complete compatibility analysis with work counts. A timeout is an error.
pub fn analyze_for_actor_with_progress<C: CompatibilityChecker>(
    snapshot: &RepositorySnapshot,
    checker: &C,
    actor: HeadMergeActor,
) -> (r: Result<BoundedGraphAnalysis, AppError>)
    requires
        may_analyze(
            *checker,
            snapshot.deep_view(),
            actor,
            AnalysisClock::Unbounded,
        ),
    ensures
        analyzed(*checker, snapshot.deep_view(), actor, false, outcome_view(r)),
{
    analyze_for_actor_internal(snapshot, checker, actor, &AnalysisClock::Unbounded)
}

/// Compatibility analysis which stops where it is told to, if anywhere, and
/// turns timeouts into deferred proofs. Deferred proofs are named.
pub fn analyze_for_actor_until<C: CompatibilityChecker>(
    snapshot: &RepositorySnapshot,
    checker: &C,
    actor: HeadMergeActor,
    stop: Option<StopBefore>,
) -> (r: Result<BoundedGraphAnalysis, AppError>)
    requires
        may_analyze(
            *checker,
            snapshot.deep_view(),
            actor,
            AnalysisClock::Stops(stop),
        ),
    ensures
        analyzed_by(
            *checker,
            snapshot.deep_view(),
            actor,
            AnalysisClock::Stops(stop),
            outcome_view(r),
        ),
        analyzed(*checker, snapshot.deep_view(), actor, true, outcome_view(r)),
{
    analyze_for_actor_internal(snapshot, checker, actor, &AnalysisClock::Stops(stop))
}

/// Compatibility analysis which yields at an absolute deadline: the clock is
/// read before the preparation and before each proof, and the analysis stops at
/// the first reading that is not before the deadline. Deferred proofs are named;
/// a partial result must never be used for a mutation.
pub fn analyze_for_actor_bounded<C: CompatibilityChecker>(
    snapshot: &RepositorySnapshot,
    checker: &C,
    actor: HeadMergeActor,
    analysis_deadline: Instant,
) -> (r: Result<BoundedGraphAnalysis, AppError>)
    requires
        may_analyze(
            *checker,
            snapshot.deep_view(),
            actor,
            AnalysisClock::Deadline(analysis_deadline),
        ),
    ensures
        analyzed_by(
            *checker,
            snapshot.deep_view(),
            actor,
            AnalysisClock::Deadline(analysis_deadline),
            outcome_view(r),
        ),
        analyzed(*checker, snapshot.deep_view(), actor, true, outcome_view(r)),
{
    analyze_for_actor_internal(
        snapshot,
        checker,
        actor,
        &AnalysisClock::Deadline(analysis_deadline),
    )
}

} // verus!
