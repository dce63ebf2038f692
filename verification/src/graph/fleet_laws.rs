//! What holds of every fleet and of every analysis of it.

use vstd::prelude::*;
use crate::error::AppErrorView;
use crate::graph;
use crate::graph::analyze;
use crate::graph::analyze::CompatibilityChecker;
use crate::graph::chains::LinksView;
use crate::graph::laws;
use crate::graph::rows;
use crate::graph::tasks;
use crate::graph::tasks::TaskView;
use crate::graph::{
    BoundedGraphAnalysisView, CompatibilityAnalysisProgressView, GraphAnalysisView,
};
use crate::model;
use crate::model::{
    CaravanView, CompatibilityReportView, GraphProblemKind, GraphProblemView, HeadMergeActor,
    PrNumber, PullRequestSnapshotView, RepositorySnapshotView,
};

verus! {

// ---------------------------------------------------------------------------
// Health
// ---------------------------------------------------------------------------

/// A problem of an unadmitted candidate never gates the fleet, nor does a
/// dissolution: no chain is left to protect.
pub proof fn lemma_advice_never_gates(analysis: GraphAnalysisView, problem: GraphProblemView)
    requires
        problem.kind == GraphProblemKind::CandidateIncompatible || problem.kind
            == GraphProblemKind::DissolvedMember,
    ensures
        !analysis.blocks(problem),
{
}

/// A problem that lies within parked caravans never gates the fleet.
pub proof fn lemma_parked_never_gates(analysis: GraphAnalysisView, problem: GraphProblemView)
    requires
        graph::touches(analysis.fleet.caravans, problem.prs, true),
        !graph::touches(analysis.fleet.caravans, problem.prs, false),
    ensures
        !analysis.blocks(problem),
{
}

/// A problem without an identifiable caravan fails closed: unless it is mere
/// advice, it gates the fleet.
pub proof fn lemma_unplaced_gates(analysis: GraphAnalysisView, problem: GraphProblemView)
    requires
        problem.kind.gates_fleet(),
        forall|i: int|
            0 <= i < problem.prs.len() ==> model::containing_caravan(
                analysis.fleet.caravans,
                #[trigger] problem.prs[i],
            ) is None,
    ensures
        analysis.blocks(problem),
        analysis.fleet.problems.contains(problem) ==> !analysis.is_healthy(),
{
    if analysis.fleet.problems.contains(problem) {
        let i = choose|i: int|
            0 <= i < analysis.fleet.problems.len() && analysis.fleet.problems[i] == problem;
        assert(analysis.blocks(analysis.fleet.problems[i]));
    }
}

/// What a report says about an unadmitted candidate never changes the health
/// of the fleet.
pub proof fn lemma_candidate_keeps_health(
    analysis: GraphAnalysisView,
    report: CompatibilityReportView,
    pr: PrNumber,
    message: Seq<char>,
)
    ensures
        analysis.with_candidate_report(report, pr, message).is_healthy() == analysis.is_healthy(),
{
    let after = analysis.with_candidate_report(report, pr, message);
    let n = analysis.fleet.problems.len();
    assert(forall|i: int| 0 <= i < n ==> after.fleet.problems[i] == analysis.fleet.problems[i]);
    assert(forall|p: GraphProblemView| after.blocks(p) == analysis.blocks(p));
    if analysis.is_healthy() {
        assert forall|i: int| 0 <= i < after.fleet.problems.len() implies !after.blocks(
            #[trigger] after.fleet.problems[i],
        ) by {
            if i < n {
                assert(!analysis.blocks(analysis.fleet.problems[i]));
            }
        }
    }
    if after.is_healthy() {
        assert forall|i: int| 0 <= i < n implies !analysis.blocks(
            #[trigger] analysis.fleet.problems[i],
        ) by {
            assert(!after.blocks(after.fleet.problems[i]));
        }
    }
}

// ---------------------------------------------------------------------------
// Chains
// ---------------------------------------------------------------------------

/// Whether each member of a chain is the sole successor of the one before.
pub open spec fn linked(g: LinksView, chain: Seq<PrNumber>) -> bool {
    forall|i: int|
        0 <= i < chain.len() - 1 ==> g.kids(#[trigger] chain[i]) == seq![chain[i + 1]]
}

proof fn lemma_walk_links(g: LinksView, visited: Seq<PrNumber>, current: PrNumber, fuel: nat)
    ensures
        linked(g, g.walk(visited, current, fuel)),
        g.walk(visited, current, fuel).len() > 0 ==> g.walk(visited, current, fuel)[0] == current,
    decreases fuel,
{
    if fuel > 0 && !visited.contains(current) && g.kids(current).len() == 1 {
        let chain = g.walk(visited, current, fuel);
        let kid = g.kids(current)[0];
        let tail = g.walk(visited.push(current), kid, (fuel - 1) as nat);
        lemma_walk_links(g, visited.push(current), kid, (fuel - 1) as nat);
        assert(chain =~= seq![current] + tail);
        assert forall|i: int| 0 <= i < chain.len() - 1 implies g.kids(#[trigger] chain[i]) == seq![
            chain[i + 1],
        ] by {
            if i == 0 {
                assert(g.kids(current) =~= seq![kid]);
                assert(chain[1] == tail[0]);
            } else {
                assert(g.kids(tail[i - 1]) == seq![tail[i - 1 + 1]]);
            }
        }
    }
}

/// Every chain of walks is linked, and those of root walks start at a member
/// without a predecessor.
pub(crate) proof fn lemma_root_walk_links(g: LinksView, k: nat)
    requires
        k <= g.numbers.len(),
    ensures
        forall|c: int|
            0 <= c < g.root_walks(k).chains.len() ==> linked(
                g,
                #[trigger] g.root_walks(k).chains[c],
            ),
        forall|c: int|
            0 <= c < g.root_walks(k).chains.len() ==> starts_at_root(
                g,
                #[trigger] g.root_walks(k).chains[c],
            ),
    decreases k,
{
    if k > 0 {
        lemma_root_walk_links(g, (k - 1) as nat);
        let before = g.root_walks((k - 1) as nat);
        let start = g.numbers[k - 1];
        lemma_walk_links(g, before.visited, start, g.numbers.len());
        let chain = g.walk(before.visited, start, g.numbers.len());
        let chains = g.root_walks(k).chains;
        assert forall|c: int| 0 <= c < chains.len() implies linked(g, #[trigger] chains[c])
            && starts_at_root(g, chains[c]) by {
            if c < before.chains.len() {
                assert(chains[c] == before.chains[c]);
            } else {
                assert(chains[c] == chain);
                if chain.len() > 0 {
                    assert(g.numbers[k - 1] == chain[0] && g.parents[k - 1] is None);
                }
            }
        }
    }
}

/// Whether a chain is empty or its first member has no predecessor.
pub open spec fn starts_at_root(g: LinksView, chain: Seq<PrNumber>) -> bool {
    chain.len() > 0 ==> exists|k: int|
        0 <= k < g.numbers.len() && #[trigger] g.numbers[k] == chain[0] && g.parents[k] is None
}

proof fn lemma_rest_walk_links(g: LinksView, k: nat)
    requires
        k <= g.numbers.len(),
    ensures
        forall|c: int|
            0 <= c < g.rest_walks(k).chains.len() ==> linked(
                g,
                #[trigger] g.rest_walks(k).chains[c],
            ),
    decreases k,
{
    if k > 0 {
        lemma_rest_walk_links(g, (k - 1) as nat);
        let before = g.rest_walks((k - 1) as nat);
        lemma_walk_links(g, before.visited, g.numbers[k - 1], g.numbers.len());
        let chains = g.rest_walks(k).chains;
        assert forall|c: int| 0 <= c < chains.len() implies linked(g, #[trigger] chains[c]) by {
            if c < before.chains.len() {
                assert(chains[c] == before.chains[c]);
            }
        }
    }
}

proof fn lemma_inserted(sorted: Seq<CaravanView>, caravan: CaravanView, i: int)
    requires
        0 <= i < graph::caravan_insert(sorted, caravan).len(),
    ensures
        graph::caravan_insert(sorted, caravan)[i] == caravan || sorted.contains(
            graph::caravan_insert(sorted, caravan)[i],
        ),
    decreases sorted.len(),
{
    let out = graph::caravan_insert(sorted, caravan);
    if sorted.len() == 0 || sorted.last().id.0 <= caravan.id.0 {
        if i < sorted.len() {
            assert(sorted[i] == out[i]);
        }
    } else {
        let before = sorted.drop_last();
        let inner = graph::caravan_insert(before, caravan);
        if i < inner.len() {
            lemma_inserted(before, caravan, i);
            if before.contains(inner[i]) {
                let j = choose|j: int| 0 <= j < before.len() && before[j] == inner[i];
                assert(sorted[j] == inner[i]);
            }
        } else {
            assert(sorted[sorted.len() - 1] == out[i]);
        }
    }
}

/// The members of every caravan are a chain, and the caravan is named by the
/// first of them.
pub(crate) proof fn lemma_caravans_are_chains(
    active: Seq<PullRequestSnapshotView>,
    chains: Seq<Seq<PrNumber>>,
    i: int,
)
    requires
        0 <= i < graph::chain_caravans(active, chains).len(),
    ensures
        chains.contains(graph::chain_caravans(active, chains)[i].members),
        graph::chain_caravans(active, chains)[i].members.len() > 0,
        graph::chain_caravans(active, chains)[i].id == graph::chain_caravans(
            active,
            chains,
        )[i].members[0],
    decreases chains.len(),
{
    let out = graph::chain_caravans(active, chains);
    if chains.len() > 0 {
        let before = chains.drop_last();
        let earlier = graph::chain_caravans(active, before);
        if chains.last().len() == 0 {
            lemma_caravans_are_chains(active, before, i);
            let j = choose|j: int| 0 <= j < before.len() && before[j] == earlier[i].members;
            assert(chains[j] == out[i].members);
        } else {
            lemma_inserted(earlier, graph::chain_caravan(active, chains.last()), i);
            if out[i] == graph::chain_caravan(active, chains.last()) {
                assert(chains[chains.len() - 1] == out[i].members);
            } else {
                let k = choose|k: int| 0 <= k < earlier.len() && earlier[k] == out[i];
                lemma_caravans_are_chains(active, before, k);
                let j = choose|j: int| 0 <= j < before.len() && before[j] == earlier[k].members;
                assert(chains[j] == out[i].members);
            }
        }
    }
}

/// Within a caravan each member is the sole successor of the one before it.
pub proof fn lemma_members_are_linked(snapshot: RepositorySnapshotView, i: int)
    requires
        0 <= i < graph::caravans_of(snapshot).len(),
    ensures
        linked(graph::links_of(snapshot), graph::caravans_of(snapshot)[i].members),
{
    let g = graph::links_of(snapshot);
    let roots = g.root_walks(g.numbers.len()).chains;
    let rest = g.rest_walks(g.numbers.len()).chains;
    let chains = graph::chains_of(snapshot);
    lemma_root_walk_links(g, g.numbers.len());
    lemma_rest_walk_links(g, g.numbers.len());
    lemma_caravans_are_chains(graph::topology_of(snapshot).active, chains, i);
    let members = graph::caravans_of(snapshot)[i].members;
    let c = choose|c: int| 0 <= c < chains.len() && chains[c] == members;
    if c < roots.len() {
        assert(chains[c] == roots[c]);
    } else {
        assert(chains[c] == rest[c - roots.len()]);
    }
}

/// Whether some problem is of a kind.
pub open spec fn has_kind(problems: Seq<GraphProblemView>, kind: GraphProblemKind) -> bool {
    exists|i: int| 0 <= i < problems.len() && (#[trigger] problems[i]).kind == kind
}

/// A caravan whose head has a predecessor never goes unreported: where no
/// problem says that a head is missing, every caravan starts at a member
/// without a predecessor.
pub proof fn lemma_heads_are_roots(
    snapshot: RepositorySnapshotView,
    actor: HeadMergeActor,
    i: int,
)
    requires
        0 <= i < graph::caravans_of(snapshot).len(),
        !has_kind(graph::problems_of(snapshot, actor), GraphProblemKind::MissingHead),
    ensures
        starts_at_root(graph::links_of(snapshot), graph::caravans_of(snapshot)[i].members),
        graph::caravans_of(snapshot)[i].id == graph::caravans_of(snapshot)[i].members[0],
{
    let g = graph::links_of(snapshot);
    let t = graph::topology_of(snapshot);
    let roots = g.root_walks(g.numbers.len()).chains;
    let rest = g.rest_walks(g.numbers.len()).chains;
    let chains = graph::chains_of(snapshot);
    let problems = graph::problems_of(snapshot, actor);
    if rest.len() > 0 {
        let headless = graph::headless_problems(snapshot);
        let arming = graph::arming_problems(t.active, actor, graph::caravans_of(snapshot));
        let at = problems.len() - arming.len() - headless.len();
        assert(problems[at] == headless[0]);
        assert(headless[0].kind == GraphProblemKind::MissingHead);
        assert(has_kind(problems, GraphProblemKind::MissingHead));
    }
    lemma_root_walk_links(g, g.numbers.len());
    lemma_caravans_are_chains(t.active, chains, i);
    let members = graph::caravans_of(snapshot)[i].members;
    let c = choose|c: int| 0 <= c < chains.len() && chains[c] == members;
    assert(chains[c] == roots[c]);
}

// ---------------------------------------------------------------------------
// The merge actor
// ---------------------------------------------------------------------------

/// Whether a member is armed as its place and the merge actor ask for.
pub open spec fn armed_as_asked(
    active: Seq<PullRequestSnapshotView>,
    actor: HeadMergeActor,
    caravan: CaravanView,
    position: int,
) -> bool {
    rows::row_of(active, caravan.members[position]) matches Some(pr) ==> if actor
        == HeadMergeActor::Github && position == 0 && !caravan.parked {
        model::squash_armed(pr.auto_merge)
    } else {
        !pr.auto_merge.enabled
    }
}

proof fn lemma_arming_in(
    active: Seq<PullRequestSnapshotView>,
    actor: HeadMergeActor,
    caravan: CaravanView,
    k: nat,
    position: int,
)
    requires
        0 <= position < k <= caravan.members.len(),
        graph::arming_problems_in(active, actor, caravan, k).len() == 0,
    ensures
        armed_as_asked(active, actor, caravan, position),
    decreases k,
{
    if position < k - 1 {
        lemma_arming_in(active, actor, caravan, (k - 1) as nat, position);
    }
}

proof fn lemma_arming(
    active: Seq<PullRequestSnapshotView>,
    actor: HeadMergeActor,
    caravans: Seq<CaravanView>,
    i: int,
    position: int,
)
    requires
        0 <= i < caravans.len(),
        0 <= position < caravans[i].members.len(),
        graph::arming_problems(active, actor, caravans).len() == 0,
    ensures
        armed_as_asked(active, actor, caravans[i], position),
    decreases caravans.len(),
{
    if i < caravans.len() - 1 {
        assert(caravans.drop_last()[i] == caravans[i]);
        lemma_arming(active, actor, caravans.drop_last(), i, position);
    } else {
        lemma_arming_in(active, actor, caravans[i], caravans[i].members.len(), position);
    }
}

proof fn lemma_arming_kind_in(
    active: Seq<PullRequestSnapshotView>,
    actor: HeadMergeActor,
    caravan: CaravanView,
    k: nat,
    i: int,
)
    requires
        0 <= i < graph::arming_problems_in(active, actor, caravan, k).len(),
    ensures
        graph::arming_problems_in(active, actor, caravan, k)[i].kind
            == GraphProblemKind::AutoMergeInvariant,
    decreases k,
{
    if k > 0 {
        let before = graph::arming_problems_in(active, actor, caravan, (k - 1) as nat);
        if i < before.len() {
            lemma_arming_kind_in(active, actor, caravan, (k - 1) as nat, i);
        }
    }
}

proof fn lemma_arming_kind(
    active: Seq<PullRequestSnapshotView>,
    actor: HeadMergeActor,
    caravans: Seq<CaravanView>,
    i: int,
)
    requires
        0 <= i < graph::arming_problems(active, actor, caravans).len(),
    ensures
        graph::arming_problems(active, actor, caravans)[i].kind
            == GraphProblemKind::AutoMergeInvariant,
    decreases caravans.len(),
{
    if caravans.len() > 0 {
        let before = graph::arming_problems(active, actor, caravans.drop_last());
        if i < before.len() {
            lemma_arming_kind(active, actor, caravans.drop_last(), i);
        } else {
            lemma_arming_kind_in(
                active,
                actor,
                caravans.last(),
                caravans.last().members.len(),
                i - before.len(),
            );
        }
    }
}

/// There is one merge actor: where no auto-merge problem is reported, every
/// member keeps native auto-merge off, but for the head of an unparked caravan
/// whose provider merges, which has a squash armed.
pub proof fn lemma_one_merge_actor(
    snapshot: RepositorySnapshotView,
    actor: HeadMergeActor,
    i: int,
    position: int,
)
    requires
        0 <= i < graph::caravans_of(snapshot).len(),
        0 <= position < graph::caravans_of(snapshot)[i].members.len(),
        !has_kind(graph::problems_of(snapshot, actor), GraphProblemKind::AutoMergeInvariant),
    ensures
        armed_as_asked(
            graph::topology_of(snapshot).active,
            actor,
            graph::caravans_of(snapshot)[i],
            position,
        ),
{
    let active = graph::topology_of(snapshot).active;
    let caravans = graph::caravans_of(snapshot);
    let arming = graph::arming_problems(active, actor, caravans);
    let problems = graph::problems_of(snapshot, actor);
    if arming.len() > 0 {
        lemma_arming_kind(active, actor, caravans, 0);
        assert(problems[problems.len() - arming.len()] == arming[0]);
        assert(has_kind(problems, GraphProblemKind::AutoMergeInvariant));
    }
    lemma_arming(active, actor, caravans, i, position);
}

// ---------------------------------------------------------------------------
// Rows outside of caravans
// ---------------------------------------------------------------------------

proof fn lemma_unqueued_rows(all: Seq<PullRequestSnapshotView>, x: PrNumber)
    requires
        graph::unqueued_of(all).contains(x),
    ensures
        exists|i: int| 0 <= i < all.len() && graph::is_unqueued(#[trigger] all[i]) && all[i].number == x,
    decreases all.len(),
{
    if all.len() > 0 {
        let before = all.drop_last();
        let out = graph::unqueued_of(all);
        let k = choose|k: int| 0 <= k < out.len() && out[k] == x;
        let earlier = graph::unqueued_of(before);
        if k < earlier.len() {
            assert(earlier[k] == x);
            lemma_unqueued_rows(before, x);
            let i = choose|i: int|
                0 <= i < before.len() && graph::is_unqueued(#[trigger] before[i]) && before[i].number
                    == x;
            assert(all[i] == before[i]);
        } else {
            assert(all[all.len() - 1].number == x);
        }
    }
}

/// A pull request that waits for admission is open, no draft, neither a member
/// nor evicted, and stands in no caravan.
pub proof fn lemma_unqueued_is_apart(snapshot: RepositorySnapshotView, x: PrNumber)
    requires
        graph::unqueued_of(graph::topology_of(snapshot).rows).contains(x),
    ensures
        rows::row_of(graph::topology_of(snapshot).rows, x) matches Some(pr)
            && graph::is_unqueued(pr),
        !laws::in_some_caravan(graph::caravans_of(snapshot), x),
{
    let t = graph::topology_of(snapshot);
    rows::lemma_indexed(snapshot.pull_requests);
    lemma_unqueued_rows(t.rows, x);
    let i = choose|i: int|
        0 <= i < t.rows.len() && graph::is_unqueued(#[trigger] t.rows[i]) && t.rows[i].number == x;
    rows::lemma_row_of(t.rows, x);
    assert(rows::has_row(t.rows, x));
    let pr = rows::row_of(t.rows, x)->0;
    let k = choose|k: int| 0 <= k < t.rows.len() && t.rows[k] == pr;
    assert(k == i) by {
        if k < i {
            assert(t.rows[k].number.0 < t.rows[i].number.0);
        } else if i < k {
            assert(t.rows[i].number.0 < t.rows[k].number.0);
        }
    }
    if laws::in_some_caravan(graph::caravans_of(snapshot), x) {
        laws::lemma_members_are_active(snapshot, x);
        let member = choose|member: PullRequestSnapshotView|
            t.rows.contains(member) && member.number == x
                && #[trigger] member.is_active_caravan_member();
        let m = choose|m: int| 0 <= m < t.rows.len() && t.rows[m] == member;
        assert(m == i) by {
            if m < i {
                assert(t.rows[m].number.0 < t.rows[i].number.0);
            } else if i < m {
                assert(t.rows[i].number.0 < t.rows[m].number.0);
            }
        }
    }
}

// ---------------------------------------------------------------------------
// Analyses
// ---------------------------------------------------------------------------

/// Whether an analysis differs from another by evidence alone: the fleet is
/// the same, but for further conflicts.
pub open spec fn adds_evidence(before: GraphAnalysisView, after: GraphAnalysisView) -> bool {
    &&& after.pull_requests == before.pull_requests
    &&& after.fleet.repository == before.fleet.repository
    &&& after.fleet.default_branch == before.fleet.default_branch
    &&& after.fleet.caravans == before.fleet.caravans
    &&& after.fleet.unqueued == before.fleet.unqueued
    &&& after.fleet.history == before.fleet.history
    &&& before.fleet.problems.len() <= after.fleet.problems.len()
    &&& forall|i: int|
        0 <= i < before.fleet.problems.len() ==> #[trigger] after.fleet.problems[i]
            == before.fleet.problems[i]
    &&& forall|i: int|
        before.fleet.problems.len() <= i < after.fleet.problems.len() ==> (
        #[trigger] after.fleet.problems[i]).kind == GraphProblemKind::Incompatible
            || after.fleet.problems[i].kind == GraphProblemKind::CandidateIncompatible
}

proof fn lemma_step_adds<C: CompatibilityChecker>(
    checker: C,
    task: TaskView,
    before: GraphAnalysisView,
    after: GraphAnalysisView,
    failure: Option<AppErrorView>,
)
    requires
        analyze::task_step(checker, task, before, after, failure),
    ensures
        adds_evidence(before, after),
{
}

proof fn lemma_steps_add<C: CompatibilityChecker>(
    checker: C,
    planned: Seq<TaskView>,
    states: Seq<GraphAnalysisView>,
    k: int,
)
    requires
        analyze::proofs_ran(checker, planned, states),
        0 <= k < states.len(),
    ensures
        adds_evidence(states[0], states[k]),
    decreases k,
{
    if k > 0 {
        lemma_steps_add(checker, planned, states, k - 1);
        assert(analyze::task_step(checker, planned[k - 1], states[k - 1], states[k - 1 + 1], None));
        lemma_step_adds(checker, planned[k - 1], states[k - 1], states[k], None);
        assert forall|i: int| 0 <= i < states[0].fleet.problems.len() implies (
        #[trigger] states[k].fleet.problems[i]) == states[0].fleet.problems[i] by {
            assert(states[k - 1].fleet.problems[i] == states[0].fleet.problems[i]);
        }
        assert forall|i: int|
            states[0].fleet.problems.len() <= i < states[k].fleet.problems.len() implies (
        #[trigger] states[k].fleet.problems[i]).kind == GraphProblemKind::Incompatible
            || states[k].fleet.problems[i].kind == GraphProblemKind::CandidateIncompatible by {
            if i < states[k - 1].fleet.problems.len() {
                assert(states[k].fleet.problems[i] == states[k - 1].fleet.problems[i]);
            }
        }
    }
}

/// Compatibility proofs add evidence and never change the derived fleet: its
/// rows, caravans, candidates and history stay, no problem goes, and every new
/// one is a conflict.
pub proof fn lemma_analysis_keeps_fleet<C: CompatibilityChecker>(
    checker: C,
    snapshot: RepositorySnapshotView,
    actor: HeadMergeActor,
    bounded: bool,
    full: BoundedGraphAnalysisView,
)
    requires
        analyze::analyzed(checker, snapshot, actor, bounded, Ok(full)),
    ensures
        adds_evidence(graph::derived(snapshot, actor), full.analysis),
{
    let start = graph::derived(snapshot, actor);
    let planned = tasks::planned_tasks(start, snapshot.default_branch);
    let progress = analyze::planned_progress(snapshot, start);
    let answers = choose|answers: Seq<bool>| #[trigger]
        analyze::analyzed_answering(checker, snapshot, actor, bounded, answers, Ok(full));
    if full.analysis != start {
        let outcome = choose|outcome: Result<(), AppErrorView>|
            #[trigger] analyze::prepared(
                checker,
                analyze::needed_branches(start, snapshot.default_branch),
                outcome,
            ) && outcome is Ok && exists|states: Seq<GraphAnalysisView>|
                #[trigger] analyze::proofs_ran(checker, planned, states) && states[0] == start
                    && analyze::proofs_ended(
                    checker,
                    planned,
                    progress,
                    bounded,
                    answers,
                    states,
                    Ok(full),
                );
        let states = choose|states: Seq<GraphAnalysisView>|
            #[trigger] analyze::proofs_ran(checker, planned, states) && states[0] == start
                && analyze::proofs_ended(
                    checker,
                    planned,
                    progress,
                    bounded,
                    answers,
                    states,
                    Ok(full),
                );
        let done = states.len() - 1;
        lemma_steps_add(checker, planned, states, done);
        if full.analysis != states.last() {
            let (after, error) = choose|after: GraphAnalysisView, error: AppErrorView|
                #[trigger] analyze::task_step(
                    checker,
                    planned[done],
                    states.last(),
                    after,
                    Some(error),
                ) && full.analysis == after;
            lemma_step_adds(checker, planned[done], states.last(), after, Some(error));
            let last = states.last();
            assert forall|i: int| 0 <= i < start.fleet.problems.len() implies (
            #[trigger] after.fleet.problems[i]) == start.fleet.problems[i] by {
                assert(last.fleet.problems[i] == start.fleet.problems[i]);
            }
            assert forall|i: int|
                start.fleet.problems.len() <= i < after.fleet.problems.len() implies (
            #[trigger] after.fleet.problems[i]).kind == GraphProblemKind::Incompatible
                || after.fleet.problems[i].kind == GraphProblemKind::CandidateIncompatible by {
                if i < last.fleet.problems.len() {
                    assert(after.fleet.problems[i] == last.fleet.problems[i]);
                }
            }
        }
    }
}

proof fn lemma_samples(samples: tasks::SamplesView, names: Seq<Seq<char>>)
    requires
        samples.kept.len() + samples.truncated + names.len() <= usize::MAX,
    ensures
        tasks::sample_all(samples, names).kept.len() + tasks::sample_all(samples, names).truncated
            == samples.kept.len() + samples.truncated + names.len(),
    decreases names.len(),
{
    if names.len() > 0 {
        lemma_samples(samples, names.drop_last());
    }
}

/// Whether the counts of a progress add up: every planned proof either ran or
/// is named or counted as deferred, and only a complete analysis defers none.
pub open spec fn accounted(progress: CompatibilityAnalysisProgressView) -> bool {
    &&& progress.completed_analyses + progress.deferred_analyses.len()
        + progress.deferred_analyses_truncated == progress.planned_analyses
    &&& progress.complete ==> progress.completed_analyses == progress.planned_analyses
}

/// No proof is lost: the counts of a progress add up. An analysis without a
/// deadline that succeeds is complete, and so is one whose every proof ran; a
/// partial one says so.
pub proof fn lemma_progress_is_accounted<C: CompatibilityChecker>(
    checker: C,
    snapshot: RepositorySnapshotView,
    actor: HeadMergeActor,
    bounded: bool,
    full: BoundedGraphAnalysisView,
)
    requires
        analyze::analyzed(checker, snapshot, actor, bounded, Ok(full)),
        tasks::planned_tasks(graph::derived(snapshot, actor), snapshot.default_branch).len()
            <= usize::MAX,
    ensures
        accounted(full.progress),
        !bounded ==> full.progress.complete,
        full.progress.complete ==> full.progress.revision_preparation_complete
            && full.progress.deferred_analyses.len() == 0,
{
    let start = graph::derived(snapshot, actor);
    let planned = tasks::planned_tasks(start, snapshot.default_branch);
    let progress = analyze::planned_progress(snapshot, start);
    let empty = tasks::SamplesView { kept: Seq::empty(), truncated: 0 };
    lemma_samples(empty, tasks::task_names(planned));
    let answers = choose|answers: Seq<bool>|
        #[trigger] analyze::analyzed_answering(
            checker,
            snapshot,
            actor,
            bounded,
            answers,
            Ok(full),
        ) && (!bounded ==> !answers.last());
    if full.progress != tasks::deferred(progress, planned) {
        let outcome = choose|outcome: Result<(), AppErrorView>|
            #[trigger] analyze::prepared(
                checker,
                analyze::needed_branches(start, snapshot.default_branch),
                outcome,
            ) && outcome is Ok && exists|states: Seq<GraphAnalysisView>|
                #[trigger] analyze::proofs_ran(checker, planned, states) && states[0] == start
                    && analyze::proofs_ended(
                    checker,
                    planned,
                    progress,
                    bounded,
                    answers,
                    states,
                    Ok(full),
                );
        let states = choose|states: Seq<GraphAnalysisView>|
            #[trigger] analyze::proofs_ran(checker, planned, states) && states[0] == start
                && analyze::proofs_ended(
                    checker,
                    planned,
                    progress,
                    bounded,
                    answers,
                    states,
                    Ok(full),
                );
        let done = states.len() - 1;
        lemma_samples(empty, tasks::task_names(planned.skip(done)));
    }
}

} // verus!
