//! What holds of an analysis whatever its checker answers, and where it stops.

use vstd::prelude::*;
use crate::error::{AppErrorView, ErrorCategory};
use crate::graph;
use crate::graph::analyze;
use crate::graph::analyze::{AnalysisClock, CompatibilityChecker, Question, StopBefore};
use crate::graph::tasks;
use crate::graph::tasks::TaskView;
use crate::graph::{
    BoundedGraphAnalysisView, CompatibilityAnalysisProgressView, GraphAnalysisView,
};
use crate::model::{
    BranchSnapshotView, CompatibilityOutcome, CompatibilityReportView, CumulativeTreeProofView,
    HeadMergeActor, RepositorySnapshotView, SquashEquivalenceReportView,
};

verus! {

// ---------------------------------------------------------------------------
// Where an analysis stops
// ---------------------------------------------------------------------------

/// An analysis whose clock can only say stop at the first turn, such as one past
/// its deadline on entry, gives the derived analysis with every proof deferred.
pub proof fn lemma_past_on_entry<C: CompatibilityChecker>(
    checker: C,
    snapshot: RepositorySnapshotView,
    actor: HeadMergeActor,
    clock: AnalysisClock,
    r: Result<BoundedGraphAnalysisView, AppErrorView>,
)
    requires
        analyze::analyzed_by(checker, snapshot, actor, clock, r),
        !clock.says(0, false),
    ensures
        r == Ok::<_, AppErrorView>(analyze::untouched(snapshot, actor)),
        r->Ok_0.analysis == graph::derived(snapshot, actor),
        !r->Ok_0.progress.complete,
        r->Ok_0.progress.completed_analyses == 0,
{
    let answers = choose|answers: Seq<bool>|
        #[trigger] analyze::analyzed_answering(
            checker,
            snapshot,
            actor,
            clock.bounds(),
            answers,
            r,
        ) && forall|i: int| 0 <= i < answers.len() ==> clock.says(i, #[trigger] answers[i]);
    assert(clock.says(0, answers[0]));
}

/// An analysis that is told to stop before its preparation defers every proof.
pub proof fn lemma_stopped_before_preparation<C: CompatibilityChecker>(
    checker: C,
    snapshot: RepositorySnapshotView,
    actor: HeadMergeActor,
    r: Result<BoundedGraphAnalysisView, AppErrorView>,
)
    requires
        analyze::analyzed_by(
            checker,
            snapshot,
            actor,
            AnalysisClock::Stops(Some(StopBefore::Preparation)),
            r,
        ),
    ensures
        r == Ok::<_, AppErrorView>(analyze::untouched(snapshot, actor)),
{
    lemma_past_on_entry(
        checker,
        snapshot,
        actor,
        AnalysisClock::Stops(Some(StopBefore::Preparation)),
        r,
    );
}

/// An analysis that is told to stop before a proof runs no later one: it ran at
/// most the proofs before that place, and it is complete only if there are no
/// others.
pub proof fn lemma_stopped_before_proof<C: CompatibilityChecker>(
    checker: C,
    snapshot: RepositorySnapshotView,
    actor: HeadMergeActor,
    place: usize,
    full: BoundedGraphAnalysisView,
)
    requires
        analyze::analyzed_by(
            checker,
            snapshot,
            actor,
            AnalysisClock::Stops(Some(StopBefore::Proof(place))),
            Ok(full),
        ),
        tasks::planned_tasks(graph::derived(snapshot, actor), snapshot.default_branch).len()
            <= usize::MAX,
    ensures
        full.progress.completed_analyses <= place,
        full.progress.complete ==> full.progress.planned_analyses <= place,
{
    let clock = AnalysisClock::Stops(Some(StopBefore::Proof(place)));
    let answers = choose|answers: Seq<bool>|
        #[trigger] analyze::analyzed_answering(
            checker,
            snapshot,
            actor,
            clock.bounds(),
            answers,
            Ok(full),
        ) && forall|i: int| 0 <= i < answers.len() ==> clock.says(i, #[trigger] answers[i]);
    let start = graph::derived(snapshot, actor);
    let planned = tasks::planned_tasks(start, snapshot.default_branch);
    let progress = analyze::planned_progress(snapshot, start);
    assert(clock.says(0, answers[0]));
    if full != analyze::untouched(snapshot, actor) {
        let states = choose|states: Seq<GraphAnalysisView>|
            #[trigger] analyze::proofs_ran(checker, planned, states) && states[0] == start
                && analyze::proofs_ended(
                checker,
                planned,
                progress,
                true,
                answers,
                states,
                Ok(full),
            );
        let done = states.len() - 1;
        if done > 0 {
            if done == planned.len() {
                assert(clock.says(done, answers[done]));
            } else {
                assert(!answers[done]);
                assert(clock.says(done, answers[done]));
            }
        }
    }
}

/// A bounded analysis that nothing stops and that no timeout cut short is the
/// unbounded one: it is complete, or it reports the same failure.
pub proof fn lemma_never_stopped<C: CompatibilityChecker>(
    checker: C,
    snapshot: RepositorySnapshotView,
    actor: HeadMergeActor,
    r: Result<BoundedGraphAnalysisView, AppErrorView>,
)
    requires
        analyze::analyzed_by(checker, snapshot, actor, AnalysisClock::Stops(None), r),
        r matches Ok(full) ==> full.progress.complete,
    ensures
        analyze::analyzed(checker, snapshot, actor, false, r),
{
    let clock = AnalysisClock::Stops(None);
    let answers = choose|answers: Seq<bool>|
        #[trigger] analyze::analyzed_answering(
            checker,
            snapshot,
            actor,
            clock.bounds(),
            answers,
            r,
        ) && forall|i: int| 0 <= i < answers.len() ==> clock.says(i, #[trigger] answers[i]);
    let start = graph::derived(snapshot, actor);
    let planned = tasks::planned_tasks(start, snapshot.default_branch);
    let progress = analyze::planned_progress(snapshot, start);
    assert(clock.says(0, answers[0]));
    assert(clock.says(answers.len() - 1, answers[answers.len() - 1]));
    let outcome = choose|outcome: Result<(), AppErrorView>|
        #[trigger] analyze::prepared(
            checker,
            analyze::needed_branches(start, snapshot.default_branch),
            outcome,
        ) && match outcome {
            Err(error) => answers.len() == 1 && if error.category == ErrorCategory::Timeout {
                r == Ok::<_, AppErrorView>(analyze::untouched(snapshot, actor))
            } else {
                r == Err::<BoundedGraphAnalysisView, _>(error)
            },
            Ok(_) => exists|states: Seq<GraphAnalysisView>|
                #[trigger] analyze::proofs_ran(checker, planned, states) && states[0] == start
                    && analyze::proofs_ended(
                    checker,
                    planned,
                    progress,
                    true,
                    answers,
                    states,
                    r,
                ),
        };
    if outcome is Ok {
        let states = choose|states: Seq<GraphAnalysisView>|
            #[trigger] analyze::proofs_ran(checker, planned, states) && states[0] == start
                && analyze::proofs_ended(checker, planned, progress, true, answers, states, r);
        assert(analyze::proofs_ended(checker, planned, progress, false, answers, states, r));
    }
    assert(analyze::analyzed_answering(checker, snapshot, actor, false, answers, r));
}

// ---------------------------------------------------------------------------
// What the checker is asked
// ---------------------------------------------------------------------------

/// An analysis past its deadline on entry asks nothing: any checker will do.
pub proof fn lemma_past_on_entry_asks_nothing<C: CompatibilityChecker>(
    checker: C,
    snapshot: RepositorySnapshotView,
    actor: HeadMergeActor,
    clock: AnalysisClock,
)
    requires
        !clock.says(0, false),
    ensures
        analyze::may_analyze(checker, snapshot, actor, clock),
{
    assert(!analyze::goes_on(clock, 0));
}

/// Nothing is asked after a preparation that fails.
pub proof fn lemma_failed_preparation_ends_questions<C: CompatibilityChecker>(
    checker: C,
    snapshot: RepositorySnapshotView,
    actor: HeadMergeActor,
    clock: AnalysisClock,
)
    requires
        ({
            let branches = analyze::needed_branches(
                graph::derived(snapshot, actor),
                snapshot.default_branch,
            );
            checker.may_be_asked(Question::Prepare(branches)) && !analyze::prepared(
                checker,
                branches,
                Ok(()),
            )
        }),
    ensures
        analyze::may_analyze(checker, snapshot, actor, clock),
{
}

/// Nothing is asked after a proof that fails: where the proof at a place cannot
/// succeed, a checker will do that may be asked of the preparation and of the
/// proofs up to that place.
pub proof fn lemma_failed_proof_ends_questions<C: CompatibilityChecker>(
    checker: C,
    snapshot: RepositorySnapshotView,
    actor: HeadMergeActor,
    clock: AnalysisClock,
    place: int,
)
    requires
        ({
            let start = graph::derived(snapshot, actor);
            let planned = tasks::planned_tasks(start, snapshot.default_branch);
            &&& checker.may_be_asked(
                Question::Prepare(analyze::needed_branches(start, snapshot.default_branch)),
            )
            &&& 0 <= place < planned.len()
            &&& forall|i: int|
                0 <= i <= place ==> analyze::may_prove(checker, #[trigger] planned[i])
            &&& forall|before: GraphAnalysisView, after: GraphAnalysisView| !#[trigger]
                analyze::task_step(checker, planned[place], before, after, None)
        }),
    ensures
        analyze::may_analyze(checker, snapshot, actor, clock),
{
    let start = graph::derived(snapshot, actor);
    let planned = tasks::planned_tasks(start, snapshot.default_branch);
    assert forall|states: Seq<GraphAnalysisView>| #[trigger]
        analyze::proofs_ran(checker, planned, states) && states[0] == start && states.len()
            <= planned.len() && analyze::goes_on(clock, states.len()) implies analyze::may_prove(
        checker,
        planned[states.len() - 1],
    ) by {
        if states.len() - 1 > place {
            assert(analyze::task_step(
                checker,
                planned[place],
                states[place],
                states[place + 1],
                None,
            ));
        }
    }
}

/// Squash evidence is asked only on members that conflict: a checker will do
/// that may be asked for it on the branches of conflicting reports alone.
pub proof fn lemma_squash_evidence_is_on_conflicts<C: CompatibilityChecker>(
    checker: C,
    snapshot: RepositorySnapshotView,
    actor: HeadMergeActor,
    clock: AnalysisClock,
)
    requires
        forall|question: Question|
            !(question is Squash) ==> #[trigger] checker.may_be_asked(question),
        ({
            let start = graph::derived(snapshot, actor);
            let planned = tasks::planned_tasks(start, snapshot.default_branch);
            forall|i: int, report: CompatibilityReportView|
                0 <= i < planned.len() && (#[trigger] planned[i] matches TaskView::Fleet {
                    candidate,
                    target,
                    ..
                } && analyze::checked(checker, candidate, target, Ok(report)))
                    && report.outcome != CompatibilityOutcome::Clean ==> #[trigger]
                checker.may_be_asked(Question::Squash(report.candidate, report.target))
        }),
    ensures
        analyze::may_analyze(checker, snapshot, actor, clock),
{
    let start = graph::derived(snapshot, actor);
    let planned = tasks::planned_tasks(start, snapshot.default_branch);
    assert forall|i: int| 0 <= i < planned.len() implies analyze::may_prove(
        checker,
        #[trigger] planned[i],
    ) by {
        match planned[i] {
            TaskView::Fleet { candidate, target, .. } => {
                assert forall|report: CompatibilityReportView| #[trigger]
                    analyze::checked(
                        checker,
                        candidate,
                        target,
                        Ok(report),
                    ) implies analyze::may_record(checker, report) by {}
            },
            _ => {},
        }
    }
}

// ---------------------------------------------------------------------------
// Checkers that answer alike
// ---------------------------------------------------------------------------

/// Whether a checker answers the same request always alike.
pub open spec fn deterministic<C: CompatibilityChecker>(checker: C) -> bool {
    &&& forall|
        branches: Seq<BranchSnapshotView>,
        one: Result<(), AppErrorView>,
        other: Result<(), AppErrorView>,
    |
        #[trigger] analyze::prepared(checker, branches, one) && #[trigger] analyze::prepared(
            checker,
            branches,
            other,
        ) ==> one == other
    &&& forall|
        a: BranchSnapshotView,
        b: BranchSnapshotView,
        one: Result<CompatibilityReportView, AppErrorView>,
        other: Result<CompatibilityReportView, AppErrorView>,
    |
        #[trigger] analyze::checked(checker, a, b, one) && #[trigger] analyze::checked(
            checker,
            a,
            b,
            other,
        ) ==> one == other
    &&& forall|
        a: BranchSnapshotView,
        b: BranchSnapshotView,
        one: Result<Option<CumulativeTreeProofView>, AppErrorView>,
        other: Result<Option<CumulativeTreeProofView>, AppErrorView>,
    |
        #[trigger] analyze::tree_proved(checker, a, b, one) && #[trigger] analyze::tree_proved(
            checker,
            a,
            b,
            other,
        ) ==> one == other
    &&& forall|
        a: BranchSnapshotView,
        b: BranchSnapshotView,
        one: Result<Option<SquashEquivalenceReportView>, AppErrorView>,
        other: Result<Option<SquashEquivalenceReportView>, AppErrorView>,
    |
        #[trigger] analyze::squash_proved(checker, a, b, one) && #[trigger] analyze::squash_proved(
            checker,
            a,
            b,
            other,
        ) ==> one == other
}

proof fn lemma_step_is_determined<C: CompatibilityChecker>(
    checker: C,
    task: TaskView,
    before: GraphAnalysisView,
    one: GraphAnalysisView,
    one_failure: Option<AppErrorView>,
    other: GraphAnalysisView,
    other_failure: Option<AppErrorView>,
)
    requires
        deterministic(checker),
        analyze::task_step(checker, task, before, one, one_failure),
        analyze::task_step(checker, task, before, other, other_failure),
    ensures
        one == other,
        one_failure == other_failure,
{
}

proof fn lemma_states_are_determined<C: CompatibilityChecker>(
    checker: C,
    planned: Seq<TaskView>,
    one: Seq<GraphAnalysisView>,
    other: Seq<GraphAnalysisView>,
    i: int,
)
    requires
        deterministic(checker),
        analyze::proofs_ran(checker, planned, one),
        analyze::proofs_ran(checker, planned, other),
        one[0] == other[0],
        0 <= i < one.len(),
        i < other.len(),
    ensures
        one[i] == other[i],
    decreases i,
{
    if i > 0 {
        lemma_states_are_determined(checker, planned, one, other, i - 1);
        assert(analyze::task_step(checker, planned[i - 1], one[i - 1], one[i - 1 + 1], None));
        assert(analyze::task_step(checker, planned[i - 1], other[i - 1], other[i - 1 + 1], None));
        lemma_step_is_determined(
            checker,
            planned[i - 1],
            one[i - 1],
            one[i],
            None,
            other[i],
            None,
        );
    }
}

proof fn lemma_ends_together<C: CompatibilityChecker>(
    checker: C,
    planned: Seq<TaskView>,
    progress: CompatibilityAnalysisProgressView,
    bounded: bool,
    answers: Seq<bool>,
    one: Seq<GraphAnalysisView>,
    r: Result<BoundedGraphAnalysisView, AppErrorView>,
    other_answers: Seq<bool>,
    other: Seq<GraphAnalysisView>,
    other_r: Result<BoundedGraphAnalysisView, AppErrorView>,
)
    requires
        deterministic(checker),
        analyze::proofs_ran(checker, planned, one),
        analyze::proofs_ran(checker, planned, other),
        one[0] == other[0],
        analyze::proofs_ended(checker, planned, progress, bounded, answers, one, r),
        analyze::proofs_ended(checker, planned, progress, bounded, other_answers, other, other_r),
        forall|i: int| 0 <= i < other_answers.len() - 1 ==> !(#[trigger] other_answers[i]),
        forall|i: int|
            0 <= i < answers.len() && i < other_answers.len() ==> #[trigger] answers[i]
                == other_answers[i],
    ensures
        one.len() >= other.len(),
{
    if one.len() < other.len() {
        let done = one.len() - 1;
        lemma_states_are_determined(checker, planned, one, other, done);
        assert(analyze::task_step(checker, planned[done], other[done], other[done + 1], None));
        assert(answers.len() == done + 2);
        assert(answers[done + 1] == other_answers[done + 1]);
        if !answers.last() {
            let (after, error) = choose|after: GraphAnalysisView, error: AppErrorView|
                #[trigger] analyze::task_step(
                    checker,
                    planned[done],
                    one.last(),
                    after,
                    Some(error),
                );
            lemma_step_is_determined(
                checker,
                planned[done],
                one[done],
                after,
                Some(error),
                other[done + 1],
                None,
            );
        }
    }
}

/// With a checker that answers alike, what an analysis returns is determined by
/// what the clock answers.
pub proof fn lemma_answers_determine<C: CompatibilityChecker>(
    checker: C,
    snapshot: RepositorySnapshotView,
    actor: HeadMergeActor,
    bounded: bool,
    answers: Seq<bool>,
    r: Result<BoundedGraphAnalysisView, AppErrorView>,
    other_answers: Seq<bool>,
    other_r: Result<BoundedGraphAnalysisView, AppErrorView>,
)
    requires
        deterministic(checker),
        analyze::analyzed_answering(checker, snapshot, actor, bounded, answers, r),
        analyze::analyzed_answering(checker, snapshot, actor, bounded, other_answers, other_r),
        forall|i: int|
            0 <= i < answers.len() && i < other_answers.len() ==> #[trigger] answers[i]
                == other_answers[i],
    ensures
        r == other_r,
{
    let start = graph::derived(snapshot, actor);
    let planned = tasks::planned_tasks(start, snapshot.default_branch);
    let progress = analyze::planned_progress(snapshot, start);
    let branches = analyze::needed_branches(start, snapshot.default_branch);
    assert(answers[0] == other_answers[0]);
    if !answers[0] {
        let outcome = choose|outcome: Result<(), AppErrorView>| #[trigger]
            analyze::prepared(checker, branches, outcome);
        if outcome is Ok {
            let one = choose|states: Seq<GraphAnalysisView>|
                #[trigger] analyze::proofs_ran(checker, planned, states) && states[0] == start
                    && analyze::proofs_ended(
                    checker,
                    planned,
                    progress,
                    bounded,
                    answers,
                    states,
                    r,
                );
            let other = choose|states: Seq<GraphAnalysisView>|
                #[trigger] analyze::proofs_ran(checker, planned, states) && states[0] == start
                    && analyze::proofs_ended(
                    checker,
                    planned,
                    progress,
                    bounded,
                    other_answers,
                    states,
                    other_r,
                );
            lemma_ends_together(
                checker,
                planned,
                progress,
                bounded,
                answers,
                one,
                r,
                other_answers,
                other,
                other_r,
            );
            lemma_ends_together(
                checker,
                planned,
                progress,
                bounded,
                other_answers,
                other,
                other_r,
                answers,
                one,
                r,
            );
            let done = one.len() - 1;
            lemma_states_are_determined(checker, planned, one, other, done);
            if done < planned.len() {
                assert(answers[done + 1] == other_answers[done + 1]);
                if !answers.last() {
                    let (a, e) = choose|after: GraphAnalysisView, error: AppErrorView|
                        #[trigger] analyze::task_step(
                            checker,
                            planned[done],
                            one.last(),
                            after,
                            Some(error),
                        ) && if bounded && error.category == ErrorCategory::Timeout {
                            r is Ok && r->Ok_0.analysis == after && r->Ok_0.progress
                                == tasks::deferred(
                                analyze::progressed(progress, done as nat),
                                planned.skip(done),
                            )
                        } else {
                            r == Err::<BoundedGraphAnalysisView, _>(error)
                        };
                    let (b, f) = choose|after: GraphAnalysisView, error: AppErrorView|
                        #[trigger] analyze::task_step(
                            checker,
                            planned[done],
                            other.last(),
                            after,
                            Some(error),
                        ) && if bounded && error.category == ErrorCategory::Timeout {
                            other_r is Ok && other_r->Ok_0.analysis == after
                                && other_r->Ok_0.progress == tasks::deferred(
                                analyze::progressed(progress, done as nat),
                                planned.skip(done),
                            )
                        } else {
                            other_r == Err::<BoundedGraphAnalysisView, _>(error)
                        };
                    lemma_step_is_determined(
                        checker,
                        planned[done],
                        one[done],
                        a,
                        Some(e),
                        b,
                        Some(f),
                    );
                }
            }
        }
    }
}

/// With a checker that answers alike, the unbounded analysis is determined. So
/// the analysis alone is the one that comes with progress, or its first error.
pub proof fn lemma_unbounded_is_determined<C: CompatibilityChecker>(
    checker: C,
    snapshot: RepositorySnapshotView,
    actor: HeadMergeActor,
    r: Result<BoundedGraphAnalysisView, AppErrorView>,
    other: Result<BoundedGraphAnalysisView, AppErrorView>,
)
    requires
        deterministic(checker),
        analyze::analyzed(checker, snapshot, actor, false, r),
        analyze::analyzed(checker, snapshot, actor, false, other),
    ensures
        r == other,
        analyze::only_analysis(r) == analyze::only_analysis(other),
{
    let answers = choose|answers: Seq<bool>|
        #[trigger] analyze::analyzed_answering(checker, snapshot, actor, false, answers, r)
            && !answers.last();
    let others = choose|answers: Seq<bool>|
        #[trigger] analyze::analyzed_answering(checker, snapshot, actor, false, answers, other)
            && !answers.last();
    assert forall|i: int| 0 <= i < answers.len() && i < others.len() implies #[trigger] answers[i]
        == others[i] by {
        if i < answers.len() - 1 {
            assert(!answers[i]);
        }
        if i < others.len() - 1 {
            assert(!others[i]);
        }
    }
    lemma_answers_determine(checker, snapshot, actor, false, answers, r, others, other);
}

} // verus!
