//! Derivation of the caravan fleet from one provider snapshot.

use vstd::prelude::*;
use vstd::string::*;
use crate::graph::chains::{Links, LinksView};
use crate::graph::links::{Topology, TopologyView};
use crate::graph::rows::{
    find_fork_problems, find_row, find_shared_heads, index_rows, single_problem, split_rows,
};
use crate::model;
use crate::model::{
    append_items, push_item, Caravan, CaravanFleet, CaravanFleetView, CaravanHistory,
    CaravanHistoryView, CaravanView, CompatibilityReport, CompatibilityReportView,
    CumulativeTreeProof, CumulativeTreeProofView, GraphProblem, GraphProblemKind, GraphProblemView,
    HeadMergeActor, Model, PrNumber, PullRequestSnapshot, PullRequestSnapshotView, PullRequestState,
    RepositorySnapshot, RepositorySnapshotView, SquashEquivalenceReport,
    SquashEquivalenceReportView,
};
use crate::text;
use crate::text::text_less;

pub mod analysis_laws;
pub mod proof_laws;
pub mod analyze;
pub mod chains;
pub mod fleet_laws;
pub mod laws;
pub mod links;
pub mod order_laws;
pub mod preparation_laws;
pub mod prepared;
pub mod problem_laws;
pub mod row_laws;
pub mod rows;
pub mod tasks;

pub use crate::graph::analyze::{
    analyze, analyze_for_actor, analyze_for_actor_bounded, analyze_for_actor_until,
    analyze_for_actor_with_progress, CompatibilityChecker, StopBefore,
};

verus! {

/// Read-only analysis of one snapshot: the fleet and the evidence behind it.
#[derive(Debug, PartialEq, Eq)]
pub struct GraphAnalysis {
    pub fleet: CaravanFleet,
    /// The pull request rows in increasing order of their numbers.
    pub pull_requests: Vec<PullRequestSnapshot>,
    /// Compatibility evidence collected while validating current chains.
    pub compatibility: Vec<CompatibilityReport>,
    /// Cumulative-tree evidence for every caravan root against the default
    /// branch.
    pub cumulative_trees: Vec<CumulativeTreeProof>,
    /// Squash-equivalence evidence for attachments that are not clean. It is
    /// evidence only: it never authorizes a rewrite.
    pub squash_reconciliations: Vec<SquashEquivalenceReport>,
}

/// The content of a [`GraphAnalysis`].
#[verifier::ext_equal]
pub struct GraphAnalysisView {
    pub fleet: CaravanFleetView,
    pub pull_requests: Seq<PullRequestSnapshotView>,
    pub compatibility: Seq<CompatibilityReportView>,
    pub cumulative_trees: Seq<CumulativeTreeProofView>,
    pub squash_reconciliations: Seq<SquashEquivalenceReportView>,
}

impl DeepView for GraphAnalysis {
    type V = GraphAnalysisView;

    open spec fn deep_view(&self) -> GraphAnalysisView {
        GraphAnalysisView {
            fleet: self.fleet.deep_view(),
            pull_requests: self.pull_requests.deep_view(),
            compatibility: self.compatibility.deep_view(),
            cumulative_trees: self.cumulative_trees.deep_view(),
            squash_reconciliations: self.squash_reconciliations.deep_view(),
        }
    }
}

impl Clone for GraphAnalysis {
    fn clone(&self) -> (r: Self)
        ensures
            r.deep_view() == self.deep_view(),
    {
        self.dup()
    }
}

impl Model for GraphAnalysis {
    fn same(&self, other: &Self) -> (r: bool) {
        self.fleet.same(&other.fleet)
            && self.pull_requests.same(&other.pull_requests)
            && self.compatibility.same(&other.compatibility)
            && self.cumulative_trees.same(&other.cumulative_trees)
            && self.squash_reconciliations.same(&other.squash_reconciliations)
    }

    fn dup(&self) -> (r: Self) {
        GraphAnalysis {
            fleet: self.fleet.dup(),
            pull_requests: self.pull_requests.dup(),
            compatibility: self.compatibility.dup(),
            cumulative_trees: self.cumulative_trees.dup(),
            squash_reconciliations: self.squash_reconciliations.dup(),
        }
    }
}

/// How much of the planned compatibility work is done, and what was deferred
/// or skipped.
#[derive(Debug, Default, PartialEq, Eq)]
pub struct CompatibilityAnalysisProgress {
    pub complete: bool,
    pub revision_preparation_complete: bool,
    /// Pull request rows in the snapshot.
    pub candidate_count: usize,
    /// Unenrolled rows that may take part in automatic admission.
    pub unqueued_candidate_count: usize,
    pub caravan_count: usize,
    pub branch_count: usize,
    pub planned_analyses: usize,
    pub completed_analyses: usize,
    pub deferred_analyses: Vec<String>,
    pub deferred_analyses_truncated: usize,
    pub skipped_analyses: Vec<String>,
    pub skipped_analyses_truncated: usize,
}

/// The content of a [`CompatibilityAnalysisProgress`].
#[verifier::ext_equal]
pub struct CompatibilityAnalysisProgressView {
    pub complete: bool,
    pub revision_preparation_complete: bool,
    pub candidate_count: usize,
    pub unqueued_candidate_count: usize,
    pub caravan_count: usize,
    pub branch_count: usize,
    pub planned_analyses: usize,
    pub completed_analyses: usize,
    pub deferred_analyses: Seq<Seq<char>>,
    pub deferred_analyses_truncated: usize,
    pub skipped_analyses: Seq<Seq<char>>,
    pub skipped_analyses_truncated: usize,
}

impl DeepView for CompatibilityAnalysisProgress {
    type V = CompatibilityAnalysisProgressView;

    open spec fn deep_view(&self) -> CompatibilityAnalysisProgressView {
        CompatibilityAnalysisProgressView {
            complete: self.complete.deep_view(),
            revision_preparation_complete: self.revision_preparation_complete.deep_view(),
            candidate_count: self.candidate_count.deep_view(),
            unqueued_candidate_count: self.unqueued_candidate_count.deep_view(),
            caravan_count: self.caravan_count.deep_view(),
            branch_count: self.branch_count.deep_view(),
            planned_analyses: self.planned_analyses.deep_view(),
            completed_analyses: self.completed_analyses.deep_view(),
            deferred_analyses: self.deferred_analyses.deep_view(),
            deferred_analyses_truncated: self.deferred_analyses_truncated.deep_view(),
            skipped_analyses: self.skipped_analyses.deep_view(),
            skipped_analyses_truncated: self.skipped_analyses_truncated.deep_view(),
        }
    }
}

impl Clone for CompatibilityAnalysisProgress {
    fn clone(&self) -> (r: Self)
        ensures
            r.deep_view() == self.deep_view(),
    {
        self.dup()
    }
}

impl Model for CompatibilityAnalysisProgress {
    fn same(&self, other: &Self) -> (r: bool) {
        self.complete.same(&other.complete)
            && self.revision_preparation_complete.same(&other.revision_preparation_complete)
            && self.candidate_count.same(&other.candidate_count)
            && self.unqueued_candidate_count.same(&other.unqueued_candidate_count)
            && self.caravan_count.same(&other.caravan_count)
            && self.branch_count.same(&other.branch_count)
            && self.planned_analyses.same(&other.planned_analyses)
            && self.completed_analyses.same(&other.completed_analyses)
            && self.deferred_analyses.same(&other.deferred_analyses)
            && self.deferred_analyses_truncated.same(&other.deferred_analyses_truncated)
            && self.skipped_analyses.same(&other.skipped_analyses)
            && self.skipped_analyses_truncated.same(&other.skipped_analyses_truncated)
    }

    fn dup(&self) -> (r: Self) {
        CompatibilityAnalysisProgress {
            complete: self.complete.dup(),
            revision_preparation_complete: self.revision_preparation_complete.dup(),
            candidate_count: self.candidate_count.dup(),
            unqueued_candidate_count: self.unqueued_candidate_count.dup(),
            caravan_count: self.caravan_count.dup(),
            branch_count: self.branch_count.dup(),
            planned_analyses: self.planned_analyses.dup(),
            completed_analyses: self.completed_analyses.dup(),
            deferred_analyses: self.deferred_analyses.dup(),
            deferred_analyses_truncated: self.deferred_analyses_truncated.dup(),
            skipped_analyses: self.skipped_analyses.dup(),
            skipped_analyses_truncated: self.skipped_analyses_truncated.dup(),
        }
    }
}

/// One graph with the completeness of its mechanical analysis.
#[derive(Debug, PartialEq, Eq)]
pub struct BoundedGraphAnalysis {
    pub analysis: GraphAnalysis,
    pub progress: CompatibilityAnalysisProgress,
}

/// The content of a [`BoundedGraphAnalysis`].
#[verifier::ext_equal]
pub struct BoundedGraphAnalysisView {
    pub analysis: GraphAnalysisView,
    pub progress: CompatibilityAnalysisProgressView,
}

impl DeepView for BoundedGraphAnalysis {
    type V = BoundedGraphAnalysisView;

    open spec fn deep_view(&self) -> BoundedGraphAnalysisView {
        BoundedGraphAnalysisView {
            analysis: self.analysis.deep_view(),
            progress: self.progress.deep_view(),
        }
    }
}

impl Clone for BoundedGraphAnalysis {
    fn clone(&self) -> (r: Self)
        ensures
            r.deep_view() == self.deep_view(),
    {
        self.dup()
    }
}

impl Model for BoundedGraphAnalysis {
    fn same(&self, other: &Self) -> (r: bool) {
        self.analysis.same(&other.analysis)
            && self.progress.same(&other.progress)
    }

    fn dup(&self) -> (r: Self) {
        BoundedGraphAnalysis {
            analysis: self.analysis.dup(),
            progress: self.progress.dup(),
        }
    }
}

// ---------------------------------------------------------------------------
// Health
// ---------------------------------------------------------------------------

/// Whether some of the pull requests stands in a caravan that is parked or
/// not, as asked.
pub open spec fn touches(caravans: Seq<CaravanView>, prs: Seq<PrNumber>, parked: bool) -> bool {
    exists|i: int|
        0 <= i < prs.len() && match model::containing_caravan(caravans, #[trigger] prs[i]) {
            Some(at) => caravans[at].parked == parked,
            None => false,
        }
}

impl GraphAnalysisView {
    /// Whether a problem gates the active fleet: its kind does, and it either
    /// spans an unparked caravan or no parked one.
    pub open spec fn blocks(self, problem: GraphProblemView) -> bool {
        problem.kind.gates_fleet() && (touches(self.fleet.caravans, problem.prs, false) || !touches(
            self.fleet.caravans,
            problem.prs,
            true,
        ))
    }

    /// No problem gates the active fleet.
    pub open spec fn is_healthy(self) -> bool {
        forall|i: int|
            0 <= i < self.fleet.problems.len() ==> !self.blocks(#[trigger] self.fleet.problems[i])
    }
}

impl GraphAnalysis {
    /// Whether one problem gates the active fleet rather than a quarantined
    /// parked caravan. A problem without an identifiable caravan gates.
    #[must_use]
    pub fn problem_blocks_active_fleet(&self, problem: &GraphProblem) -> (r: bool)
        ensures
            r == self.deep_view().blocks(problem.deep_view()),
    {
        if !problem.kind.blocks_fleet() {
            return false;
        }
        let ghost caravans = self.deep_view().fleet.caravans;
        let ghost prs = problem.deep_view().prs;
        let mut parked_caravan_observed = false;
        let mut i: usize = 0;
        while i < problem.prs.len()
            invariant
                caravans == self.deep_view().fleet.caravans,
                prs == problem.deep_view().prs,
                problem.deep_view().kind.gates_fleet(),
                i <= problem.prs.len(),
                parked_caravan_observed == touches(caravans, prs.take(i as int), true),
                !touches(caravans, prs.take(i as int), false),
            decreases problem.prs.len() - i,
        {
            let ghost taken = prs.take(i as int);
            let ghost next = prs.take(i as int + 1);
            assert(forall|j: int| 0 <= j < taken.len() ==> taken[j] == next[j]);
            assert(next[i as int] == prs[i as int]);
            if let Some(caravan) = self.fleet.containing(problem.prs[i]) {
                if !caravan.parked {
                    assert(touches(caravans, prs, false)) by {
                        assert(prs[i as int] == problem.prs[i as int]);
                    }
                    return true;
                }
                assert(touches(caravans, next, true)) by {
                    assert(next[i as int] == problem.prs[i as int]);
                }
                assert(!touches(caravans, next, false)) by {
                    if touches(caravans, next, false) {
                        let k = choose|k: int|
                            0 <= k < next.len() && match model::containing_caravan(
                                caravans,
                                #[trigger] next[k],
                            ) {
                                Some(at) => !caravans[at].parked,
                                None => false,
                            };
                        if k < i {
                            assert(taken[k] == next[k]);
                        }
                    }
                }
                parked_caravan_observed = true;
            } else {
                assert(touches(caravans, next, true) == touches(caravans, taken, true)) by {
                    if touches(caravans, next, true) {
                        let k = choose|k: int|
                            0 <= k < next.len() && match model::containing_caravan(
                                caravans,
                                #[trigger] next[k],
                            ) {
                                Some(at) => caravans[at].parked,
                                None => false,
                            };
                        assert(taken[k] == next[k]);
                    }
                    if touches(caravans, taken, true) {
                        let k = choose|k: int|
                            0 <= k < taken.len() && match model::containing_caravan(
                                caravans,
                                #[trigger] taken[k],
                            ) {
                                Some(at) => caravans[at].parked,
                                None => false,
                            };
                        assert(taken[k] == next[k]);
                    }
                }
                assert(!touches(caravans, next, false)) by {
                    if touches(caravans, next, false) {
                        let k = choose|k: int|
                            0 <= k < next.len() && match model::containing_caravan(
                                caravans,
                                #[trigger] next[k],
                            ) {
                                Some(at) => !caravans[at].parked,
                                None => false,
                            };
                        assert(taken[k] == next[k]);
                    }
                }
            }
            i = i + 1;
        }
        assert(prs.take(i as int) =~= prs);
        !parked_caravan_observed
    }

    /// Whether no problem gates the active fleet.
    #[must_use]
    pub fn healthy(&self) -> (r: bool)
        ensures
            r == self.deep_view().is_healthy(),
    {
        let ghost view = self.deep_view();
        let mut i: usize = 0;
        while i < self.fleet.problems.len()
            invariant
                view == self.deep_view(),
                i <= self.fleet.problems.len(),
                forall|j: int| 0 <= j < i ==> !view.blocks(#[trigger] view.fleet.problems[j]),
            decreases self.fleet.problems.len() - i,
        {
            assert(view.fleet.problems[i as int] == self.fleet.problems[i as int].deep_view());
            if self.problem_blocks_active_fleet(&self.fleet.problems[i]) {
                return false;
            }
            i = i + 1;
        }
        true
    }

    /// The row of a pull request.
    pub fn pull_request(&self, number: PrNumber) -> (r: Option<&PullRequestSnapshot>)
        ensures
            match r {
                Some(pr) => rows::row_of(self.deep_view().pull_requests, number) == Some(
                    pr.deep_view(),
                ),
                None => rows::row_of(self.deep_view().pull_requests, number) is None,
            },
    {
        find_row(&self.pull_requests, number)
    }
}

// ---------------------------------------------------------------------------
// Caravans
// ---------------------------------------------------------------------------

/// Caravans ordered by head with one more of them.
pub open spec fn caravan_insert(sorted: Seq<CaravanView>, caravan: CaravanView) -> Seq<CaravanView>
    decreases sorted.len(),
{
    if sorted.len() == 0 || sorted.last().id.0 <= caravan.id.0 {
        sorted.push(caravan)
    } else {
        caravan_insert(sorted.drop_last(), caravan).push(sorted.last())
    }
}

/// Whether the head of a caravan carries the parking label.
pub open spec fn is_parked(active: Seq<PullRequestSnapshotView>, head: PrNumber) -> bool {
    match rows::row_of(active, head) {
        Some(pr) => pr.has_label("caravan-parked"@),
        None => false,
    }
}

/// The caravan of a chain.
pub open spec fn chain_caravan(
    active: Seq<PullRequestSnapshotView>,
    chain: Seq<PrNumber>,
) -> CaravanView {
    CaravanView { id: chain[0], members: chain, parked: is_parked(active, chain[0]) }
}

/// The caravans of chains, ordered by head.
pub open spec fn chain_caravans(
    active: Seq<PullRequestSnapshotView>,
    chains: Seq<Seq<PrNumber>>,
) -> Seq<CaravanView>
    decreases chains.len(),
{
    if chains.len() == 0 {
        Seq::empty()
    } else if chains.last().len() == 0 {
        chain_caravans(active, chains.drop_last())
    } else {
        caravan_insert(
            chain_caravans(active, chains.drop_last()),
            chain_caravan(active, chains.last()),
        )
    }
}

pub open spec fn headless_problem(chain: Seq<PrNumber>) -> GraphProblemView {
    GraphProblemView {
        kind: GraphProblemKind::MissingHead,
        prs: chain,
        message: "active component has no unique default-branch head"@,
    }
}

fn insert_caravan(sorted: Vec<Caravan>, caravan: Caravan) -> (r: Vec<Caravan>)
    ensures
        r.deep_view() == caravan_insert(sorted.deep_view(), caravan.deep_view()),
{
    let ghost all = sorted.deep_view();
    let ghost item = caravan.deep_view();
    let mut sorted = sorted;
    let mut at: usize = sorted.len();
    assert(caravan_insert(all.take(at as int), item) + all.skip(at as int) =~= caravan_insert(
        all,
        item,
    )) by {
        assert(all.take(at as int) =~= all);
    }
    while at > 0 && sorted[at - 1].id.0 > caravan.id.0
        invariant
            all == sorted.deep_view(),
            item == caravan.deep_view(),
            at <= sorted.len(),
            caravan_insert(all.take(at as int), item) + all.skip(at as int) == caravan_insert(
                all,
                item,
            ),
        decreases at,
    {
        assert(all[at - 1] == sorted[at - 1].deep_view());
        let ghost head = all.take(at as int);
        assert(head.drop_last() =~= all.take(at as int - 1));
        assert(caravan_insert(head, item) == caravan_insert(all.take(at as int - 1), item).push(
            all[at - 1],
        ));
        assert(caravan_insert(all.take(at as int - 1), item) + all.skip(at as int - 1)
            =~= caravan_insert(head, item) + all.skip(at as int));
        at = at - 1;
    }
    assert(at > 0 ==> all[at - 1] == sorted[at - 1].deep_view());
    assert(caravan_insert(all.take(at as int), item) == all.take(at as int).push(item));
    sorted.insert(at, caravan);
    assert(sorted.deep_view() =~= all.take(at as int).push(item) + all.skip(at as int));
    sorted
}

fn collect_caravans(
    active: &Vec<PullRequestSnapshot>,
    chains: Vec<Vec<PrNumber>>,
) -> (r: Vec<Caravan>)
    ensures
        r.deep_view() == chain_caravans(active.deep_view(), chains.deep_view()),
{
    let ghost rows = active.deep_view();
    let ghost all = chains.deep_view();
    let mut out: Vec<Caravan> = Vec::new();
    assert(out.deep_view() =~= chain_caravans(rows, all.take(0)));
    let mut i: usize = 0;
    while i < chains.len()
        invariant
            rows == active.deep_view(),
            all == chains.deep_view(),
            i <= chains.len(),
            out.deep_view() == chain_caravans(rows, all.take(i as int)),
        decreases chains.len() - i,
    {
        assert(all.take(i as int + 1).drop_last() =~= all.take(i as int));
        let members = chains[i].dup();
        assert(members.deep_view() == all[i as int]);
        if let Some(caravan) = Caravan::new(members) {
            let parked = match find_row(active, caravan.id) {
                Some(head) => head.has_label("caravan-parked"),
                None => false,
            };
            let placed = Caravan { id: caravan.id, members: caravan.members, parked };
            assert(placed.deep_view() == chain_caravan(rows, all[i as int]));
            out = insert_caravan(out, placed);
        }
        i = i + 1;
    }
    assert(all.take(i as int) =~= all);
    out
}

// ---------------------------------------------------------------------------
// Auto-merge invariant
// ---------------------------------------------------------------------------

/// Whether the root must have native auto-merge armed: the provider merges
/// and the caravan is not parked.
pub open spec fn root_must_be_armed(
    actor: HeadMergeActor,
    caravan: CaravanView,
    position: int,
) -> bool {
    actor == HeadMergeActor::Github && position == 0 && !caravan.parked
}

/// The auto-merge problem of one member.
pub open spec fn arming_problem(
    active: Seq<PullRequestSnapshotView>,
    actor: HeadMergeActor,
    caravan: CaravanView,
    position: int,
) -> Option<GraphProblemView> {
    let number = caravan.members[position];
    let armed = match rows::row_of(active, number) {
        Some(pr) => if root_must_be_armed(actor, caravan, position) {
            model::squash_armed(pr.auto_merge)
        } else {
            !pr.auto_merge.enabled
        },
        None => true,
    };
    if armed {
        None
    } else {
        let message = if root_must_be_armed(actor, caravan, position) {
            "caravan head #"@ + model::pr_text(number) + " must have squash auto-merge enabled"@
        } else if position == 0 {
            "caravan head #"@ + model::pr_text(number)
                + " must not delegate merging to native auto-merge; cara is the single merge actor"@
        } else {
            "non-head caravan PR #"@ + model::pr_text(number) + " must have auto-merge disabled"@
        };
        Some(rows::single(GraphProblemKind::AutoMergeInvariant, number, message))
    }
}

/// The auto-merge problems of the first members of a caravan.
pub open spec fn arming_problems_in(
    active: Seq<PullRequestSnapshotView>,
    actor: HeadMergeActor,
    caravan: CaravanView,
    k: nat,
) -> Seq<GraphProblemView>
    decreases k,
{
    if k == 0 {
        Seq::empty()
    } else {
        match arming_problem(active, actor, caravan, k - 1) {
            Some(problem) => arming_problems_in(active, actor, caravan, (k - 1) as nat).push(
                problem,
            ),
            None => arming_problems_in(active, actor, caravan, (k - 1) as nat),
        }
    }
}

/// The auto-merge problems of caravans.
pub open spec fn arming_problems(
    active: Seq<PullRequestSnapshotView>,
    actor: HeadMergeActor,
    caravans: Seq<CaravanView>,
) -> Seq<GraphProblemView>
    decreases caravans.len(),
{
    if caravans.len() == 0 {
        Seq::empty()
    } else {
        arming_problems(active, actor, caravans.drop_last()) + arming_problems_in(
            active,
            actor,
            caravans.last(),
            caravans.last().members.len(),
        )
    }
}

fn find_arming_in(
    active: &Vec<PullRequestSnapshot>,
    actor: HeadMergeActor,
    caravan: &Caravan,
) -> (r: Vec<GraphProblem>)
    ensures
        r.deep_view() == arming_problems_in(
            active.deep_view(),
            actor,
            caravan.deep_view(),
            caravan.deep_view().members.len(),
        ),
{
    let ghost rows = active.deep_view();
    let ghost view = caravan.deep_view();
    let mut problems: Vec<GraphProblem> = Vec::new();
    assert(problems.deep_view() =~= arming_problems_in(rows, actor, view, 0));
    let mut i: usize = 0;
    while i < caravan.members.len()
        invariant
            rows == active.deep_view(),
            view == caravan.deep_view(),
            i <= caravan.members.len(),
            problems.deep_view() == arming_problems_in(rows, actor, view, i as nat),
        decreases caravan.members.len() - i,
    {
        let number = caravan.members[i];
        assert(view.members[i as int] == number);
        let must_be_armed = actor.github() && i == 0 && !caravan.parked;
        let valid = match find_row(active, number) {
            Some(pr) => if must_be_armed {
                pr.auto_merge.is_squash()
            } else {
                !pr.auto_merge.enabled
            },
            None => true,
        };
        if !valid {
            let message = if must_be_armed {
                "caravan head #".to_owned().concat(number.to_text().as_str()).concat(
                    " must have squash auto-merge enabled",
                )
            } else if i == 0 {
                "caravan head #".to_owned().concat(number.to_text().as_str()).concat(
                    " must not delegate merging to native auto-merge; cara is the single merge actor",
                )
            } else {
                "non-head caravan PR #".to_owned().concat(number.to_text().as_str()).concat(
                    " must have auto-merge disabled",
                )
            };
            push_item(
                &mut problems,
                single_problem(GraphProblemKind::AutoMergeInvariant, number, message),
            );
        }
        i = i + 1;
    }
    problems
}

fn find_arming(
    active: &Vec<PullRequestSnapshot>,
    actor: HeadMergeActor,
    caravans: &Vec<Caravan>,
) -> (r: Vec<GraphProblem>)
    ensures
        r.deep_view() == arming_problems(active.deep_view(), actor, caravans.deep_view()),
{
    let ghost rows = active.deep_view();
    let ghost all = caravans.deep_view();
    let mut problems: Vec<GraphProblem> = Vec::new();
    assert(problems.deep_view() =~= arming_problems(rows, actor, all.take(0)));
    let mut i: usize = 0;
    while i < caravans.len()
        invariant
            rows == active.deep_view(),
            all == caravans.deep_view(),
            i <= caravans.len(),
            problems.deep_view() == arming_problems(rows, actor, all.take(i as int)),
        decreases caravans.len() - i,
    {
        assert(all.take(i as int + 1).drop_last() =~= all.take(i as int));
        assert(all[i as int] == caravans[i as int].deep_view());
        append_items(&mut problems, find_arming_in(active, actor, &caravans[i]));
        i = i + 1;
    }
    assert(all.take(i as int) =~= all);
    problems
}

// ---------------------------------------------------------------------------
// Candidates and history
// ---------------------------------------------------------------------------

/// Whether a row waits outside every caravan.
pub open spec fn is_unqueued(pr: PullRequestSnapshotView) -> bool {
    pr.state == PullRequestState::Open && !pr.draft && !pr.has_label("caravan"@) && !pr.has_label(
        "caravan-evicted"@,
    )
}

/// The numbers of the rows that wait outside every caravan.
pub open spec fn unqueued_of(rows: Seq<PullRequestSnapshotView>) -> Seq<PrNumber>
    decreases rows.len(),
{
    if rows.len() == 0 {
        Seq::empty()
    } else if is_unqueued(rows.last()) {
        unqueued_of(rows.drop_last()).push(rows.last().number)
    } else {
        unqueued_of(rows.drop_last())
    }
}

fn find_unqueued(rows: &Vec<PullRequestSnapshot>) -> (r: Vec<PrNumber>)
    ensures
        r.deep_view() == unqueued_of(rows.deep_view()),
{
    let ghost all = rows.deep_view();
    let mut out: Vec<PrNumber> = Vec::new();
    assert(out.deep_view() =~= unqueued_of(all.take(0)));
    let mut i: usize = 0;
    while i < rows.len()
        invariant
            all == rows.deep_view(),
            i <= rows.len(),
            out.deep_view() == unqueued_of(all.take(i as int)),
        decreases rows.len() - i,
    {
        assert(all.take(i as int + 1).drop_last() =~= all.take(i as int));
        let pr = &rows[i];
        assert(pr.deep_view() == all[i as int]);
        if pr.state == PullRequestState::Open && !pr.draft && !pr.has_label("caravan")
            && !pr.has_label("caravan-evicted") {
            push_item(&mut out, pr.number);
        }
        i = i + 1;
    }
    assert(all.take(i as int) =~= all);
    out
}

/// The smaller of two optional texts; a missing one never counts.
pub open spec fn earlier(a: Option<Seq<char>>, b: Option<Seq<char>>) -> Option<Seq<char>> {
    match (a, b) {
        (Some(x), Some(y)) => if text::text_lt(y, x) {
            Some(y)
        } else {
            Some(x)
        },
        (None, y) => y,
        (x, None) => x,
    }
}

/// The greater of two optional texts; a missing one never counts.
pub open spec fn later(a: Option<Seq<char>>, b: Option<Seq<char>>) -> Option<Seq<char>> {
    match (a, b) {
        (Some(x), Some(y)) => if text::text_lt(x, y) {
            Some(y)
        } else {
            Some(x)
        },
        (None, y) => y,
        (x, None) => x,
    }
}

/// What the merged rows of a snapshot prove about earlier caravans.
pub open spec fn history_of(prs: Seq<PullRequestSnapshotView>) -> CaravanHistoryView
    decreases prs.len(),
{
    if prs.len() == 0 {
        CaravanHistoryView {
            merged_members_observed: 0,
            earliest_merged_at: None,
            latest_merged_at: None,
            unlabelled_merged_rows: 0,
        }
    } else {
        let before = history_of(prs.drop_last());
        let pr = prs.last();
        if pr.state != PullRequestState::Merged {
            before
        } else if pr.has_label("caravan"@) {
            CaravanHistoryView {
                merged_members_observed: (before.merged_members_observed + 1) as usize,
                earliest_merged_at: earlier(before.earliest_merged_at, pr.merged_at),
                latest_merged_at: later(before.latest_merged_at, pr.merged_at),
                unlabelled_merged_rows: before.unlabelled_merged_rows,
            }
        } else {
            CaravanHistoryView {
                unlabelled_merged_rows: (before.unlabelled_merged_rows + 1) as usize,
                ..before
            }
        }
    }
}

fn pick_earlier(a: Option<String>, b: Option<String>) -> (r: Option<String>)
    ensures
        r.deep_view() == earlier(a.deep_view(), b.deep_view()),
{
    match (a, b) {
        (Some(x), Some(y)) => if text_less(y.as_str(), x.as_str()) {
            Some(y)
        } else {
            Some(x)
        },
        (None, y) => y,
        (x, None) => x,
    }
}

fn pick_later(a: Option<String>, b: Option<String>) -> (r: Option<String>)
    ensures
        r.deep_view() == later(a.deep_view(), b.deep_view()),
{
    match (a, b) {
        (Some(x), Some(y)) => if text_less(x.as_str(), y.as_str()) {
            Some(y)
        } else {
            Some(x)
        },
        (None, y) => y,
        (x, None) => x,
    }
}

fn find_history(prs: &Vec<PullRequestSnapshot>) -> (r: CaravanHistory)
    ensures
        r.deep_view() == history_of(prs.deep_view()),
{
    let ghost all = prs.deep_view();
    let mut members: usize = 0;
    let mut earliest: Option<String> = None;
    let mut latest: Option<String> = None;
    let mut unlabelled: usize = 0;
    let mut i: usize = 0;
    while i < prs.len()
        invariant
            all == prs.deep_view(),
            i <= prs.len(),
            members + unlabelled <= i,
            members == history_of(all.take(i as int)).merged_members_observed,
            earliest.deep_view() == history_of(all.take(i as int)).earliest_merged_at,
            latest.deep_view() == history_of(all.take(i as int)).latest_merged_at,
            unlabelled == history_of(all.take(i as int)).unlabelled_merged_rows,
        decreases prs.len() - i,
    {
        assert(all.take(i as int + 1).drop_last() =~= all.take(i as int));
        let pr = &prs[i];
        assert(pr.deep_view() == all[i as int]);
        if pr.state == PullRequestState::Merged {
            if pr.has_label("caravan") {
                members = members + 1;
                earliest = pick_earlier(earliest, pr.merged_at.dup());
                latest = pick_later(latest, pr.merged_at.dup());
            } else {
                unlabelled = unlabelled + 1;
            }
        }
        i = i + 1;
    }
    assert(all.take(i as int) =~= all);
    CaravanHistory {
        merged_members_observed: members,
        earliest_merged_at: earliest,
        latest_merged_at: latest,
        unlabelled_merged_rows: unlabelled,
    }
}

// ---------------------------------------------------------------------------
// The derivation
// ---------------------------------------------------------------------------

/// The rows of a snapshot, the active ones, and the default branch.
pub open spec fn topology_of(snapshot: RepositorySnapshotView) -> TopologyView {
    let rows = rows::indexed(snapshot.pull_requests);
    TopologyView {
        rows,
        active: rows::active_rows(rows),
        default_name: snapshot.default_branch.name,
    }
}

/// The active members of a snapshot with their predecessors.
pub open spec fn links_of(snapshot: RepositorySnapshotView) -> LinksView {
    let t = topology_of(snapshot);
    LinksView { numbers: t.numbers(), parents: t.links() }
}

/// The chains of a snapshot: those from roots, then those without a head.
pub open spec fn chains_of(snapshot: RepositorySnapshotView) -> Seq<Seq<PrNumber>> {
    let g = links_of(snapshot);
    g.root_walks(g.numbers.len()).chains + g.rest_walks(g.numbers.len()).chains
}

/// The caravans of a snapshot, ordered by head.
pub open spec fn caravans_of(snapshot: RepositorySnapshotView) -> Seq<CaravanView> {
    chain_caravans(topology_of(snapshot).active, chains_of(snapshot))
}

/// One problem for each chain without a head.
pub open spec fn headless_problems(snapshot: RepositorySnapshotView) -> Seq<GraphProblemView> {
    let g = links_of(snapshot);
    let rest = g.rest_walks(g.numbers.len()).chains;
    Seq::new(rest.len(), |i: int| headless_problem(rest[i]))
}

/// The problems of a snapshot, in the order of the checks.
pub open spec fn problems_of(snapshot: RepositorySnapshotView, actor: HeadMergeActor) -> Seq<
    GraphProblemView,
> {
    let t = topology_of(snapshot);
    let g = links_of(snapshot);
    rows::repeated_problems(snapshot.pull_requests) + rows::label_problems(t.rows)
        + rows::fork_problems(t.active, snapshot.repository) + rows::shared_head_problems(
        t.active,
        model::label_set(rows::head_names(t.active)),
    ) + t.link_problems(t.active.len()) + g.branching_problems(g.numbers.len())
        + g.cycle_problems() + headless_problems(snapshot) + arming_problems(
        t.active,
        actor,
        caravans_of(snapshot),
    )
}

/// The structural analysis of a snapshot.
pub open spec fn derived(
    snapshot: RepositorySnapshotView,
    actor: HeadMergeActor,
) -> GraphAnalysisView {
    GraphAnalysisView {
        fleet: CaravanFleetView {
            repository: snapshot.repository,
            default_branch: snapshot.default_branch,
            caravans: caravans_of(snapshot),
            unqueued: unqueued_of(topology_of(snapshot).rows),
            problems: problems_of(snapshot, actor),
            history: history_of(snapshot.pull_requests),
        },
        pull_requests: topology_of(snapshot).rows,
        compatibility: Seq::empty(),
        cumulative_trees: Seq::empty(),
        squash_reconciliations: Seq::empty(),
    }
}

/// Derive structural chains without compatibility checks, for a repository
/// whose provider merges the head.
#[must_use]
pub fn derive(snapshot: &RepositorySnapshot) -> (r: GraphAnalysis)
    ensures
        r.deep_view() == derived(snapshot.deep_view(), HeadMergeActor::Github),
{
    derive_for_actor(snapshot, HeadMergeActor::Github)
}

/// Derive structural chains for one configured head merge actor.
///
/// The auto-merge invariant depends on the actor: where the provider merges,
/// an unparked root must have a squash armed; otherwise every member must
/// keep native auto-merge off, so that there is one merge actor.
#[must_use]
pub fn derive_for_actor(snapshot: &RepositorySnapshot, actor: HeadMergeActor) -> (r: GraphAnalysis)
    ensures
        r.deep_view() == derived(snapshot.deep_view(), actor),
{
    let ghost view = snapshot.deep_view();
    let (rows, mut problems) = index_rows(&snapshot.pull_requests);
    let (active, found) = split_rows(&rows);
    append_items(&mut problems, found);
    append_items(&mut problems, find_fork_problems(&active, &snapshot.repository));
    append_items(&mut problems, find_shared_heads(&active));

    let topology = Topology { rows, active, default_name: snapshot.default_branch.name.dup() };
    assert(topology.deep_view() == topology_of(view));
    let (parents, found) = topology.link_rows();
    append_items(&mut problems, found);
    let graph = Links { numbers: topology.active_numbers(), parents };
    assert(graph.deep_view() == links_of(view));
    append_items(&mut problems, graph.find_branching());
    append_items(&mut problems, graph.find_cycles());

    let (mut chains, rest) = graph.find_chains();
    let headless = headless_chains(&rest);
    assert(headless.deep_view() =~= headless_problems(view));
    append_items(&mut problems, headless);
    append_items(&mut chains, rest);
    let caravans = collect_caravans(&topology.active, chains);
    append_items(&mut problems, find_arming(&topology.active, actor, &caravans));

    let unqueued = find_unqueued(&topology.rows);
    let history = find_history(&snapshot.pull_requests);
    let compatibility: Vec<CompatibilityReport> = Vec::new();
    let cumulative_trees: Vec<CumulativeTreeProof> = Vec::new();
    let squash_reconciliations: Vec<SquashEquivalenceReport> = Vec::new();
    assert(compatibility.deep_view() =~= Seq::empty());
    assert(cumulative_trees.deep_view() =~= Seq::empty());
    assert(squash_reconciliations.deep_view() =~= Seq::empty());
    GraphAnalysis {
        fleet: CaravanFleet {
            repository: snapshot.repository.dup(),
            default_branch: snapshot.default_branch.dup(),
            caravans,
            unqueued,
            problems,
            history,
        },
        pull_requests: topology.rows,
        compatibility,
        cumulative_trees,
        squash_reconciliations,
    }
}

fn headless_chains(chains: &Vec<Vec<PrNumber>>) -> (r: Vec<GraphProblem>)
    ensures
        r.deep_view() == Seq::new(
            chains.deep_view().len(),
            |i: int| headless_problem(chains.deep_view()[i]),
        ),
{
    let ghost all = chains.deep_view();
    let mut problems: Vec<GraphProblem> = Vec::new();
    let mut i: usize = 0;
    while i < chains.len()
        invariant
            all == chains.deep_view(),
            i <= chains.len(),
            problems.deep_view() == Seq::new(i as nat, |j: int| headless_problem(all[j])),
        decreases chains.len() - i,
    {
        assert(all[i as int] == chains[i as int].deep_view());
        push_item(
            &mut problems,
            GraphProblem {
                kind: GraphProblemKind::MissingHead,
                prs: chains[i].dup(),
                message: "active component has no unique default-branch head".to_owned(),
            },
        );
        i = i + 1;
        assert(problems.deep_view() =~= Seq::new(i as nat, |j: int| headless_problem(all[j])));
    }
    problems
}

} // verus!
