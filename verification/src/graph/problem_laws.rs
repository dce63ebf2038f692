//! Which problems a fleet reports and what its history counts, over the rows of
//! the snapshot themselves.

use vstd::prelude::*;
use crate::graph;
use crate::graph::chains::LinksView;
use crate::graph::fleet_laws;
use crate::graph::laws;
use crate::graph::links::TopologyView;
use crate::graph::row_laws;
use crate::graph::row_laws::{counts, follows, is_member};
use crate::graph::rows;
use crate::model;
use crate::model::{
    CaravanView, GraphProblemKind, GraphProblemView, HeadMergeActor, MergeMethod, PrNumber,
    PullRequestSnapshotView, PullRequestState, RepositoryIdView, RepositorySnapshotView,
};
use crate::text;

verus! {

// ---------------------------------------------------------------------------
// Lists of problems
// ---------------------------------------------------------------------------

/// Some problem of this kind names just this pull request.
pub open spec fn reports(
    problems: Seq<GraphProblemView>,
    kind: GraphProblemKind,
    x: PrNumber,
) -> bool {
    exists|i: int|
        0 <= i < problems.len() && (#[trigger] problems[i]).kind == kind && problems[i].prs
            == seq![x]
}

/// No problem is of this kind.
pub open spec fn lacks(problems: Seq<GraphProblemView>, kind: GraphProblemKind) -> bool {
    forall|i: int| 0 <= i < problems.len() ==> (#[trigger] problems[i]).kind != kind
}

proof fn lemma_joined(
    a: Seq<GraphProblemView>,
    b: Seq<GraphProblemView>,
    kind: GraphProblemKind,
    x: PrNumber,
)
    ensures
        reports(a + b, kind, x) <==> reports(a, kind, x) || reports(b, kind, x),
        lacks(a + b, kind) <==> lacks(a, kind) && lacks(b, kind),
{
    let both = a + b;
    if reports(both, kind, x) {
        let i = choose|i: int|
            0 <= i < both.len() && (#[trigger] both[i]).kind == kind && both[i].prs == seq![x];
        if i < a.len() {
            assert(a[i] == both[i]);
        } else {
            assert(b[i - a.len()] == both[i]);
        }
    }
    if reports(a, kind, x) {
        let i = choose|i: int|
            0 <= i < a.len() && (#[trigger] a[i]).kind == kind && a[i].prs == seq![x];
        assert(both[i] == a[i]);
    }
    if reports(b, kind, x) {
        let i = choose|i: int|
            0 <= i < b.len() && (#[trigger] b[i]).kind == kind && b[i].prs == seq![x];
        assert(both[a.len() + i] == b[i]);
    }
    if lacks(both, kind) {
        assert forall|i: int| 0 <= i < a.len() implies (#[trigger] a[i]).kind != kind by {
            assert(both[i] == a[i]);
        }
        assert forall|i: int| 0 <= i < b.len() implies (#[trigger] b[i]).kind != kind by {
            assert(both[a.len() + i] == b[i]);
        }
    }
    if lacks(a, kind) && lacks(b, kind) {
        assert forall|i: int| 0 <= i < both.len() implies (#[trigger] both[i]).kind != kind by {
            if i < a.len() {
                assert(both[i] == a[i]);
            } else {
                assert(both[i] == b[i - a.len()]);
            }
        }
    }
}

proof fn lemma_pushed(
    a: Seq<GraphProblemView>,
    problem: GraphProblemView,
    kind: GraphProblemKind,
    x: PrNumber,
)
    ensures
        reports(a.push(problem), kind, x) <==> reports(a, kind, x) || (problem.kind == kind
            && problem.prs == seq![x]),
        lacks(a.push(problem), kind) <==> lacks(a, kind) && problem.kind != kind,
{
    let b = seq![problem];
    lemma_joined(a, b, kind, x);
    assert(a.push(problem) =~= a + b);
    if problem.kind == kind && problem.prs == seq![x] {
        assert(b[0] == problem);
        assert(reports(b, kind, x));
    }
    if problem.kind == kind {
        assert(b[0].kind == kind);
    }
}

proof fn lemma_one(a: PrNumber, x: PrNumber)
    ensures
        seq![a] == seq![x] <==> a == x,
{
    assert(seq![a][0] == a);
    assert(seq![x][0] == x);
}

// ---------------------------------------------------------------------------
// Each list
// ---------------------------------------------------------------------------

proof fn lemma_repeated(prs: Seq<PullRequestSnapshotView>, kind: GraphProblemKind, x: PrNumber)
    ensures
        reports(rows::repeated_problems(prs), kind, x) <==> kind
            == GraphProblemKind::DuplicateMember && exists|i: int, j: int|
            0 <= i < j < prs.len() && (#[trigger] prs[i]).number == x && (#[trigger] prs[j]).number
                == x,
        kind != GraphProblemKind::DuplicateMember ==> lacks(rows::repeated_problems(prs), kind),
    decreases prs.len(),
{
    if prs.len() > 0 {
        let front = prs.drop_last();
        let last = prs.last();
        lemma_repeated(front, kind, x);
        let kept = rows::repeated_problems(front);
        lemma_pushed(kept, rows::repeated_problem(last.number), kind, x);
        lemma_one(last.number, x);
        assert(prs[prs.len() - 1] == last);
        if rows::has_row(front, last.number) {
            let i = choose|i: int| 0 <= i < front.len() && (#[trigger] front[i]).number
                == last.number;
            assert(prs[i].number == last.number);
        }
        if exists|i: int, j: int|
            0 <= i < j < front.len() && (#[trigger] front[i]).number == x && (
            #[trigger] front[j]).number == x {
            let (i, j) = choose|i: int, j: int|
                0 <= i < j < front.len() && (#[trigger] front[i]).number == x && (
                #[trigger] front[j]).number == x;
            assert(prs[i].number == x && prs[j].number == x);
        }
        if exists|i: int, j: int|
            0 <= i < j < prs.len() && (#[trigger] prs[i]).number == x && (#[trigger] prs[j]).number
                == x {
            let (i, j) = choose|i: int, j: int|
                0 <= i < j < prs.len() && (#[trigger] prs[i]).number == x && (
                #[trigger] prs[j]).number == x;
            assert(front[i].number == x);
            if j < front.len() {
                assert(front[j].number == x);
            } else {
                assert(rows::has_row(front, last.number));
            }
        }
    }
}

/// The labels of a row that some list of problems is about.
pub open spec fn labelled_so(pr: PullRequestSnapshotView, kind: GraphProblemKind) -> bool {
    if kind == GraphProblemKind::DissolvedMember {
        pr.state == PullRequestState::Closed && pr.labels.contains("caravan"@)
    } else if kind == GraphProblemKind::ActiveAndEvicted {
        pr.state == PullRequestState::Open && pr.labels.contains("caravan"@)
            && pr.labels.contains("caravan-evicted"@)
    } else {
        false
    }
}

proof fn lemma_labels(all: Seq<PullRequestSnapshotView>, kind: GraphProblemKind, x: PrNumber)
    ensures
        reports(rows::label_problems(all), kind, x) <==> exists|i: int|
            0 <= i < all.len() && labelled_so(#[trigger] all[i], kind) && all[i].number == x,
        kind != GraphProblemKind::DissolvedMember && kind != GraphProblemKind::ActiveAndEvicted
            ==> lacks(rows::label_problems(all), kind),
    decreases all.len(),
{
    if all.len() > 0 {
        let front = all.drop_last();
        let last = all.last();
        lemma_labels(front, kind, x);
        let kept = rows::label_problems(front);
        lemma_pushed(kept, rows::dissolved_problem(last.number), kind, x);
        lemma_pushed(kept, rows::evicted_problem(last.number), kind, x);
        lemma_one(last.number, x);
        assert(all[all.len() - 1] == last);
        if exists|i: int|
            0 <= i < front.len() && labelled_so(#[trigger] front[i], kind) && front[i].number
                == x {
            let i = choose|i: int|
                0 <= i < front.len() && labelled_so(#[trigger] front[i], kind) && front[i].number
                    == x;
            assert(all[i] == front[i]);
        }
        if exists|i: int|
            0 <= i < all.len() && labelled_so(#[trigger] all[i], kind) && all[i].number == x {
            let i = choose|i: int|
                0 <= i < all.len() && labelled_so(#[trigger] all[i], kind) && all[i].number == x;
            if i < front.len() {
                assert(front[i] == all[i]);
            }
        }
    }
}

proof fn lemma_forks(
    active: Seq<PullRequestSnapshotView>,
    repository: RepositoryIdView,
    kind: GraphProblemKind,
    x: PrNumber,
)
    ensures
        reports(rows::fork_problems(active, repository), kind, x) <==> kind
            == GraphProblemKind::ForkOnlyPredecessor && exists|i: int|
            0 <= i < active.len() && (#[trigger] active[i]).number == x && (
            active[i].cross_repository || active[i].head.repository != repository),
        kind != GraphProblemKind::ForkOnlyPredecessor ==> lacks(
            rows::fork_problems(active, repository),
            kind,
        ),
    decreases active.len(),
{
    if active.len() > 0 {
        let front = active.drop_last();
        let last = active.last();
        lemma_forks(front, repository, kind, x);
        lemma_pushed(
            rows::fork_problems(front, repository),
            rows::fork_problem(last.number),
            kind,
            x,
        );
        lemma_one(last.number, x);
        assert(active[active.len() - 1] == last);
        if exists|i: int|
            0 <= i < front.len() && (#[trigger] front[i]).number == x && (front[i].cross_repository
                || front[i].head.repository != repository) {
            let i = choose|i: int|
                0 <= i < front.len() && (#[trigger] front[i]).number == x && (
                front[i].cross_repository || front[i].head.repository != repository);
            assert(active[i] == front[i]);
        }
        if exists|i: int|
            0 <= i < active.len() && (#[trigger] active[i]).number == x && (
            active[i].cross_repository || active[i].head.repository != repository) {
            let i = choose|i: int|
                0 <= i < active.len() && (#[trigger] active[i]).number == x && (
                active[i].cross_repository || active[i].head.repository != repository);
            if i < front.len() {
                assert(front[i] == active[i]);
            }
        }
    }
}

proof fn lemma_shared(
    active: Seq<PullRequestSnapshotView>,
    branches: Seq<Seq<char>>,
    kind: GraphProblemKind,
    x: PrNumber,
)
    ensures
        !reports(rows::shared_head_problems(active, branches), kind, x),
        kind != GraphProblemKind::DuplicateMember ==> lacks(
            rows::shared_head_problems(active, branches),
            kind,
        ),
    decreases branches.len(),
{
    if branches.len() > 0 {
        lemma_shared(active, branches.drop_last(), kind, x);
        let on = rows::members_on(active, branches.last());
        lemma_pushed(
            rows::shared_head_problems(active, branches.drop_last()),
            rows::shared_head_problem(on),
            kind,
            x,
        );
        assert(seq![x].len() == 1);
    }
}

/// The kinds of problems that concern how rows are linked.
pub open spec fn of_links(kind: GraphProblemKind) -> bool {
    ||| kind == GraphProblemKind::ReusedBranchProvenance
    ||| kind == GraphProblemKind::MultipleHeads
    ||| kind == GraphProblemKind::DanglingBase
    ||| kind == GraphProblemKind::Branching
    ||| kind == GraphProblemKind::Cycle
    ||| kind == GraphProblemKind::MissingHead
}

proof fn lemma_links(t: TopologyView, k: nat, kind: GraphProblemKind)
    requires
        !of_links(kind),
    ensures
        lacks(t.link_problems(k), kind),
    decreases k,
{
    if k > 0 {
        lemma_links(t, (k - 1) as nat, kind);
        if let Some(problem) = t.link_problem(t.active[k - 1]) {
            lemma_pushed(t.link_problems((k - 1) as nat), problem, kind, PrNumber(0));
        }
    }
}

proof fn lemma_branching(g: LinksView, k: nat, kind: GraphProblemKind)
    requires
        !of_links(kind),
    ensures
        lacks(g.branching_problems(k), kind),
    decreases k,
{
    if k > 0 {
        lemma_branching(g, (k - 1) as nat, kind);
        lemma_pushed(
            g.branching_problems((k - 1) as nat),
            g.branching_problem(g.numbers[k - 1]),
            kind,
            PrNumber(0),
        );
    }
}

/// The setting of a member that is not as the merge actor asks: the head that
/// GitHub is to merge must be armed with a squash, unless its caravan is parked,
/// and no other member may be armed at all.
pub open spec fn armed_wrongly(
    pr: PullRequestSnapshotView,
    actor: HeadMergeActor,
    caravan: CaravanView,
) -> bool {
    if actor == HeadMergeActor::Github && pr.number == caravan.members[0] && !caravan.parked {
        !pr.auto_merge.enabled || pr.auto_merge.merge_method != Some(MergeMethod::Squash)
    } else {
        pr.auto_merge.enabled
    }
}

proof fn lemma_arming_in(
    active: Seq<PullRequestSnapshotView>,
    actor: HeadMergeActor,
    caravan: CaravanView,
    k: nat,
    kind: GraphProblemKind,
    x: PrNumber,
)
    requires
        rows::rows_sorted(active),
        k <= caravan.members.len(),
        caravan.members.no_duplicates(),
    ensures
        reports(graph::arming_problems_in(active, actor, caravan, k), kind, x) <==> kind
            == GraphProblemKind::AutoMergeInvariant && exists|p: int|
            0 <= p < k && #[trigger] caravan.members[p] == x && (rows::row_of(
                active,
                x,
            ) matches Some(pr) && armed_wrongly(pr, actor, caravan)),
        kind != GraphProblemKind::AutoMergeInvariant ==> lacks(
            graph::arming_problems_in(active, actor, caravan, k),
            kind,
        ),
    decreases k,
{
    if k > 0 {
        let j = (k - 1) as nat;
        lemma_arming_in(active, actor, caravan, j, kind, x);
        let number = caravan.members[j as int];
        rows::lemma_row_of(active, number);
        if let Some(problem) = graph::arming_problem(active, actor, caravan, j as int) {
            lemma_pushed(graph::arming_problems_in(active, actor, caravan, j), problem, kind, x);
            lemma_one(number, x);
        }
        let wrong = rows::row_of(active, number) matches Some(pr) && armed_wrongly(
            pr,
            actor,
            caravan,
        );
        assert(wrong == (graph::arming_problem(active, actor, caravan, j as int) is Some));
        if number == x && wrong {
            assert(caravan.members[j as int] == x);
        }
    }
}

proof fn lemma_arming(
    active: Seq<PullRequestSnapshotView>,
    actor: HeadMergeActor,
    caravans: Seq<CaravanView>,
    kind: GraphProblemKind,
    x: PrNumber,
)
    requires
        rows::rows_sorted(active),
        forall|c: int| 0 <= c < caravans.len() ==> (#[trigger] caravans[c]).members.no_duplicates(),
    ensures
        reports(graph::arming_problems(active, actor, caravans), kind, x) <==> kind
            == GraphProblemKind::AutoMergeInvariant && exists|c: int|
            0 <= c < caravans.len() && (#[trigger] caravans[c]).members.contains(x) && (
            rows::row_of(active, x) matches Some(pr) && armed_wrongly(pr, actor, caravans[c])),
        kind != GraphProblemKind::AutoMergeInvariant ==> lacks(
            graph::arming_problems(active, actor, caravans),
            kind,
        ),
    decreases caravans.len(),
{
    if caravans.len() > 0 {
        let front = caravans.drop_last();
        let last = caravans.last();
        assert(caravans[caravans.len() - 1] == last);
        assert forall|c: int| 0 <= c < front.len() implies (
        #[trigger] front[c]).members.no_duplicates() by {
            assert(caravans[c] == front[c]);
        }
        lemma_arming(active, actor, front, kind, x);
        lemma_arming_in(active, actor, last, last.members.len(), kind, x);
        lemma_joined(
            graph::arming_problems(active, actor, front),
            graph::arming_problems_in(active, actor, last, last.members.len()),
            kind,
            x,
        );
        let before = exists|c: int|
            0 <= c < front.len() && (#[trigger] front[c]).members.contains(x) && (rows::row_of(
                active,
                x,
            ) matches Some(pr) && armed_wrongly(pr, actor, front[c]));
        if before {
            let c = choose|c: int|
                0 <= c < front.len() && (#[trigger] front[c]).members.contains(x) && (rows::row_of(
                    active,
                    x,
                ) matches Some(pr) && armed_wrongly(pr, actor, front[c]));
            assert(caravans[c] == front[c]);
        }
        if exists|p: int|
            0 <= p < last.members.len() && #[trigger] last.members[p] == x && (rows::row_of(
                active,
                x,
            ) matches Some(pr) && armed_wrongly(pr, actor, last)) {
            let p = choose|p: int|
                0 <= p < last.members.len() && #[trigger] last.members[p] == x && (rows::row_of(
                    active,
                    x,
                ) matches Some(pr) && armed_wrongly(pr, actor, last));
            assert(last.members.contains(x));
        }
        if exists|c: int|
            0 <= c < caravans.len() && (#[trigger] caravans[c]).members.contains(x) && (
            rows::row_of(active, x) matches Some(pr) && armed_wrongly(pr, actor, caravans[c])) {
            let c = choose|c: int|
                0 <= c < caravans.len() && (#[trigger] caravans[c]).members.contains(x) && (
                rows::row_of(active, x) matches Some(pr) && armed_wrongly(
                    pr,
                    actor,
                    caravans[c],
                ));
            if c < front.len() {
                assert(front[c] == caravans[c]);
            } else {
                let p = choose|p: int| 0 <= p < last.members.len() && last.members[p] == x;
                assert(last.members[p] == x);
            }
        }
    }
}

// ---------------------------------------------------------------------------
// All problems
// ---------------------------------------------------------------------------

proof fn lemma_problems(
    snapshot: RepositorySnapshotView,
    actor: HeadMergeActor,
    kind: GraphProblemKind,
    x: PrNumber,
)
    requires
        !of_links(kind),
    ensures
        ({
            let t = graph::topology_of(snapshot);
            reports(graph::problems_of(snapshot, actor), kind, x) <==> {
                ||| reports(rows::repeated_problems(snapshot.pull_requests), kind, x)
                ||| reports(rows::label_problems(t.rows), kind, x)
                ||| reports(rows::fork_problems(t.active, snapshot.repository), kind, x)
                ||| reports(
                    graph::arming_problems(t.active, actor, graph::caravans_of(snapshot)),
                    kind,
                    x,
                )
            }
        }),
{
    let t = graph::topology_of(snapshot);
    let g = graph::links_of(snapshot);
    let a = rows::repeated_problems(snapshot.pull_requests);
    let b = rows::label_problems(t.rows);
    let c = rows::fork_problems(t.active, snapshot.repository);
    let branches = model::label_set(rows::head_names(t.active));
    let d = rows::shared_head_problems(t.active, branches);
    let e = t.link_problems(t.active.len());
    let f = g.branching_problems(g.numbers.len());
    let h = g.cycle_problems();
    let i = graph::headless_problems(snapshot);
    let j = graph::arming_problems(t.active, actor, graph::caravans_of(snapshot));
    lemma_shared(t.active, branches, kind, x);
    lemma_links(t, t.active.len(), kind);
    lemma_branching(g, g.numbers.len(), kind);
    lemma_joined(a, b, kind, x);
    lemma_joined(a + b, c, kind, x);
    lemma_joined(a + b + c, d, kind, x);
    lemma_joined(a + b + c + d, e, kind, x);
    lemma_joined(a + b + c + d + e, f, kind, x);
    lemma_joined(a + b + c + d + e + f, h, kind, x);
    lemma_joined(a + b + c + d + e + f + h, i, kind, x);
    lemma_joined(a + b + c + d + e + f + h + i, j, kind, x);
}

/// A pull request is reported as listed more than once exactly where two rows
/// have its number.
pub proof fn lemma_repetition_is_reported_exactly(
    snapshot: RepositorySnapshotView,
    actor: HeadMergeActor,
    x: PrNumber,
)
    ensures
        reports(
            graph::derived(snapshot, actor).fleet.problems,
            GraphProblemKind::DuplicateMember,
            x,
        ) <==> exists|i: int, j: int|
            0 <= i < j < snapshot.pull_requests.len() && (
            #[trigger] snapshot.pull_requests[i]).number == x && (
            #[trigger] snapshot.pull_requests[j]).number == x,
{
    let kind = GraphProblemKind::DuplicateMember;
    let t = graph::topology_of(snapshot);
    lemma_problems(snapshot, actor, kind, x);
    lemma_repeated(snapshot.pull_requests, kind, x);
    lemma_labels(t.rows, kind, x);
    lemma_forks(t.active, snapshot.repository, kind, x);
    row_laws::lemma_active(snapshot);
    laws::lemma_caravans_partition(snapshot);
    lemma_arming(t.active, actor, graph::caravans_of(snapshot), kind, x);
}

/// A pull request is reported as dissolved exactly where it was closed without
/// merging and still has the membership label; and as both active and evicted
/// exactly where it is open with both labels.
pub proof fn lemma_labels_are_reported_exactly(
    snapshot: RepositorySnapshotView,
    actor: HeadMergeActor,
    x: PrNumber,
)
    ensures
        reports(
            graph::derived(snapshot, actor).fleet.problems,
            GraphProblemKind::DissolvedMember,
            x,
        ) <==> exists|pr: PullRequestSnapshotView| #[trigger]
            counts(snapshot.pull_requests, pr) && pr.number == x && pr.state
                == PullRequestState::Closed && pr.labels.contains("caravan"@),
        reports(
            graph::derived(snapshot, actor).fleet.problems,
            GraphProblemKind::ActiveAndEvicted,
            x,
        ) <==> exists|pr: PullRequestSnapshotView| #[trigger]
            counts(snapshot.pull_requests, pr) && pr.number == x && pr.state
                == PullRequestState::Open && pr.labels.contains("caravan"@) && pr.labels.contains(
                "caravan-evicted"@,
            ),
{
    lemma_labelled(snapshot, actor, GraphProblemKind::DissolvedMember, x);
    lemma_labelled(snapshot, actor, GraphProblemKind::ActiveAndEvicted, x);
    assert forall|pr: PullRequestSnapshotView| labelled_so(
        pr,
        GraphProblemKind::DissolvedMember,
    ) == (pr.state == PullRequestState::Closed && #[trigger] pr.labels.contains("caravan"@)) by {}
}

proof fn lemma_labelled(
    snapshot: RepositorySnapshotView,
    actor: HeadMergeActor,
    kind: GraphProblemKind,
    x: PrNumber,
)
    requires
        kind == GraphProblemKind::DissolvedMember || kind == GraphProblemKind::ActiveAndEvicted,
    ensures
        reports(graph::problems_of(snapshot, actor), kind, x) <==> exists|
            pr: PullRequestSnapshotView,
        | #[trigger]
            counts(snapshot.pull_requests, pr) && pr.number == x && labelled_so(pr, kind),
{
    let t = graph::topology_of(snapshot);
    lemma_problems(snapshot, actor, kind, x);
    lemma_repeated(snapshot.pull_requests, kind, x);
    lemma_labels(t.rows, kind, x);
    lemma_forks(t.active, snapshot.repository, kind, x);
    row_laws::lemma_active(snapshot);
    laws::lemma_caravans_partition(snapshot);
    lemma_arming(t.active, actor, graph::caravans_of(snapshot), kind, x);
    if exists|i: int|
        0 <= i < t.rows.len() && labelled_so(#[trigger] t.rows[i], kind) && t.rows[i].number
            == x {
        let i = choose|i: int|
            0 <= i < t.rows.len() && labelled_so(#[trigger] t.rows[i], kind) && t.rows[i].number
                == x;
        assert(t.rows.contains(t.rows[i]));
        assert(counts(snapshot.pull_requests, t.rows[i]));
    }
    if exists|pr: PullRequestSnapshotView| #[trigger]
        counts(snapshot.pull_requests, pr) && pr.number == x && labelled_so(pr, kind) {
        let pr = choose|pr: PullRequestSnapshotView| #[trigger]
            counts(snapshot.pull_requests, pr) && pr.number == x && labelled_so(pr, kind);
        assert(t.rows.contains(pr));
        let i = choose|i: int| 0 <= i < t.rows.len() && t.rows[i] == pr;
        assert(labelled_so(t.rows[i], kind));
    }
}

/// A member is reported as a fork exactly where its head is in another
/// repository.
pub proof fn lemma_forks_are_reported_exactly(
    snapshot: RepositorySnapshotView,
    actor: HeadMergeActor,
    x: PrNumber,
)
    ensures
        reports(
            graph::derived(snapshot, actor).fleet.problems,
            GraphProblemKind::ForkOnlyPredecessor,
            x,
        ) <==> exists|pr: PullRequestSnapshotView| #[trigger]
            is_member(snapshot, pr) && pr.number == x && (pr.cross_repository || pr.head.repository
                != snapshot.repository),
{
    let kind = GraphProblemKind::ForkOnlyPredecessor;
    let t = graph::topology_of(snapshot);
    lemma_problems(snapshot, actor, kind, x);
    lemma_repeated(snapshot.pull_requests, kind, x);
    lemma_labels(t.rows, kind, x);
    lemma_forks(t.active, snapshot.repository, kind, x);
    row_laws::lemma_active(snapshot);
    laws::lemma_caravans_partition(snapshot);
    lemma_arming(t.active, actor, graph::caravans_of(snapshot), kind, x);
    if reports(rows::fork_problems(t.active, snapshot.repository), kind, x) {
        let i = choose|i: int|
            0 <= i < t.active.len() && (#[trigger] t.active[i]).number == x && (
            t.active[i].cross_repository || t.active[i].head.repository != snapshot.repository);
        assert(t.active.contains(t.active[i]));
        assert(is_member(snapshot, t.active[i]));
    }
    if exists|pr: PullRequestSnapshotView| #[trigger]
        is_member(snapshot, pr) && pr.number == x && (pr.cross_repository || pr.head.repository
            != snapshot.repository) {
        let pr = choose|pr: PullRequestSnapshotView| #[trigger]
            is_member(snapshot, pr) && pr.number == x && (pr.cross_repository || pr.head.repository
                != snapshot.repository);
        assert(t.active.contains(pr));
        let i = choose|i: int| 0 <= i < t.active.len() && t.active[i] == pr;
        assert(t.active[i].number == x);
    }
}

/// A member of a caravan is reported for its auto-merge setting exactly where
/// the setting is not as the merge actor asks.
pub proof fn lemma_arming_is_reported_exactly(
    snapshot: RepositorySnapshotView,
    actor: HeadMergeActor,
    c: int,
    pr: PullRequestSnapshotView,
)
    requires
        0 <= c < graph::caravans_of(snapshot).len(),
        is_member(snapshot, pr),
        graph::caravans_of(snapshot)[c].members.contains(pr.number),
    ensures
        reports(
            graph::derived(snapshot, actor).fleet.problems,
            GraphProblemKind::AutoMergeInvariant,
            pr.number,
        ) <==> armed_wrongly(pr, actor, graph::caravans_of(snapshot)[c]),
{
    let kind = GraphProblemKind::AutoMergeInvariant;
    let x = pr.number;
    let t = graph::topology_of(snapshot);
    let caravans = graph::caravans_of(snapshot);
    lemma_problems(snapshot, actor, kind, x);
    lemma_repeated(snapshot.pull_requests, kind, x);
    lemma_labels(t.rows, kind, x);
    lemma_forks(t.active, snapshot.repository, kind, x);
    row_laws::lemma_active(snapshot);
    laws::lemma_caravans_partition(snapshot);
    lemma_arming(t.active, actor, caravans, kind, x);
    assert(t.active.contains(pr));
    row_laws::lemma_found_row(t.active, pr);
    if reports(graph::arming_problems(t.active, actor, caravans), kind, x) {
        let d = choose|d: int|
            0 <= d < caravans.len() && (#[trigger] caravans[d]).members.contains(x) && (
            rows::row_of(t.active, x) matches Some(row) && armed_wrongly(row, actor, caravans[d]));
        assert(caravans[c].members.contains(x));
        assert(d == c);
    }
    if armed_wrongly(pr, actor, caravans[c]) {
        assert(caravans[c].members.contains(x));
    }
}

/// Two members with the same head branch are reported together, with every
/// other member of that branch and no one else.
pub proof fn lemma_shared_heads_are_reported(
    snapshot: RepositorySnapshotView,
    actor: HeadMergeActor,
    a: PullRequestSnapshotView,
    b: PullRequestSnapshotView,
)
    requires
        is_member(snapshot, a),
        is_member(snapshot, b),
        a.number != b.number,
        a.head.name == b.head.name,
    ensures
        exists|i: int|
            0 <= i < graph::derived(snapshot, actor).fleet.problems.len()
                && #[trigger] names_branch(
                snapshot,
                graph::derived(snapshot, actor).fleet.problems[i],
                a.head.name,
            ),
{
    let t = graph::topology_of(snapshot);
    let branch = a.head.name;
    let names = rows::head_names(t.active);
    let branches = model::label_set(names);
    row_laws::lemma_active(snapshot);
    row_laws::lemma_on_branch(t.active, branch);
    model::lemma_label_set(names);
    assert(t.active.contains(a) && t.active.contains(b));
    let ia = choose|i: int| 0 <= i < t.active.len() && t.active[i] == a;
    let ib = choose|i: int| 0 <= i < t.active.len() && t.active[i] == b;
    assert(names[ia] == branch);
    assert(names.contains(branch));
    assert(branches.contains(branch));
    let on = rows::members_on(t.active, branch);
    assert(t.active[ia].number == a.number && t.active[ib].number == b.number);
    assert(on.contains(a.number) && on.contains(b.number));
    assert(on.len() > 1) by {
        let p = choose|p: int| 0 <= p < on.len() && on[p] == a.number;
        let q = choose|q: int| 0 <= q < on.len() && on[q] == b.number;
        assert(p != q);
    }
    let at = choose|k: int| 0 <= k < branches.len() && branches[k] == branch;
    lemma_shared_is_listed(t.active, branches, at);
    let list = rows::shared_head_problems(t.active, branches);
    let m = choose|m: int| 0 <= m < list.len() && #[trigger] list[m]
        == rows::shared_head_problem(on);
    let first = rows::repeated_problems(snapshot.pull_requests) + rows::label_problems(t.rows)
        + rows::fork_problems(t.active, snapshot.repository);
    let problems = graph::derived(snapshot, actor).fleet.problems;
    assert(problems[first.len() + m] == list[m]);
    let problem = problems[first.len() + m];
    assert forall|x: PrNumber| #[trigger] problem.prs.contains(x) <==> exists|
        pr: PullRequestSnapshotView,
    | #[trigger]
        is_member(snapshot, pr) && pr.number == x && pr.head.name == branch by {
        assert(problem.prs == on);
        if on.contains(x) {
            let i = choose|i: int|
                0 <= i < t.active.len() && (#[trigger] t.active[i]).number == x
                    && t.active[i].head.name == branch;
            assert(t.active.contains(t.active[i]));
            assert(is_member(snapshot, t.active[i]));
        }
        if exists|pr: PullRequestSnapshotView| #[trigger]
            is_member(snapshot, pr) && pr.number == x && pr.head.name == branch {
            let pr = choose|pr: PullRequestSnapshotView| #[trigger]
                is_member(snapshot, pr) && pr.number == x && pr.head.name == branch;
            assert(t.active.contains(pr));
            let i = choose|i: int| 0 <= i < t.active.len() && t.active[i] == pr;
            assert(t.active[i].number == x);
        }
    }
    assert(names_branch(snapshot, problem, branch));
}

/// A problem that names just the members with this head branch.
pub open spec fn names_branch(
    snapshot: RepositorySnapshotView,
    problem: GraphProblemView,
    branch: Seq<char>,
) -> bool {
    &&& problem.kind == GraphProblemKind::DuplicateMember
    &&& forall|x: PrNumber| #[trigger]
        problem.prs.contains(x) <==> exists|pr: PullRequestSnapshotView| #[trigger]
            is_member(snapshot, pr) && pr.number == x && pr.head.name == branch
}

proof fn lemma_shared_is_listed(
    active: Seq<PullRequestSnapshotView>,
    branches: Seq<Seq<char>>,
    at: int,
)
    requires
        0 <= at < branches.len(),
        rows::members_on(active, branches[at]).len() > 1,
    ensures
        exists|m: int|
            0 <= m < rows::shared_head_problems(active, branches).len()
                && #[trigger] rows::shared_head_problems(active, branches)[m]
                == rows::shared_head_problem(rows::members_on(active, branches[at])),
    decreases branches.len(),
{
    let front = branches.drop_last();
    let kept = rows::shared_head_problems(active, front);
    let all = rows::shared_head_problems(active, branches);
    let wanted = rows::shared_head_problem(rows::members_on(active, branches[at]));
    if at < front.len() {
        assert(front[at] == branches[at]);
        lemma_shared_is_listed(active, front, at);
        let m = choose|m: int| 0 <= m < kept.len() && #[trigger] kept[m] == wanted;
        assert(all[m] == wanted);
    } else {
        assert(all[kept.len() as int] == wanted);
    }
}

/// A problem that says that a member has several followers, and names it and
/// just those.
pub open spec fn names_followers(
    snapshot: RepositorySnapshotView,
    problem: GraphProblemView,
    above: PullRequestSnapshotView,
) -> bool {
    &&& problem.kind == GraphProblemKind::Branching
    &&& problem.prs.len() > 2
    &&& problem.prs[0] == above.number
    &&& forall|x: PrNumber| #[trigger]
        problem.prs.skip(1).contains(x) <==> exists|pr: PullRequestSnapshotView| #[trigger]
            follows(snapshot, above, pr) && pr.number == x
}

proof fn lemma_branching_is_listed(g: LinksView, k: nat, i: int)
    requires
        0 <= i < k <= g.numbers.len(),
        g.kids(g.numbers[i]).len() > 1,
    ensures
        exists|m: int|
            0 <= m < g.branching_problems(k).len() && #[trigger] g.branching_problems(k)[m]
                == g.branching_problem(g.numbers[i]),
    decreases k,
{
    let j = (k - 1) as nat;
    let kept = g.branching_problems(j);
    if i < j {
        lemma_branching_is_listed(g, j, i);
        let m = choose|m: int| 0 <= m < kept.len() && #[trigger] kept[m] == g.branching_problem(
            g.numbers[i],
        );
        assert(g.branching_problems(k)[m] == kept[m]);
    } else {
        assert(g.branching_problems(k)[kept.len() as int] == g.branching_problem(g.numbers[i]));
    }
}

/// A member that two others follow is reported with all its followers.
pub proof fn lemma_branching_is_reported(
    snapshot: RepositorySnapshotView,
    actor: HeadMergeActor,
    above: PullRequestSnapshotView,
    a: PullRequestSnapshotView,
    b: PullRequestSnapshotView,
)
    requires
        follows(snapshot, above, a),
        follows(snapshot, above, b),
        a.number != b.number,
    ensures
        exists|i: int|
            0 <= i < graph::derived(snapshot, actor).fleet.problems.len()
                && #[trigger] names_followers(
                snapshot,
                graph::derived(snapshot, actor).fleet.problems[i],
                above,
            ),
{
    let t = graph::topology_of(snapshot);
    let g = graph::links_of(snapshot);
    let kids = g.kids(above.number);
    row_laws::lemma_active(snapshot);
    row_laws::lemma_kids(g, above.number, g.numbers.len());
    assert forall|x: PrNumber| #[trigger] kids.contains(x) <==> exists|
        pr: PullRequestSnapshotView,
    | #[trigger]
        follows(snapshot, above, pr) && pr.number == x by {
        if kids.contains(x) {
            let i = choose|i: int|
                0 <= i < g.numbers.len() && #[trigger] g.numbers[i] == x && g.parents[i] == Some(
                    above.number,
                );
            assert(t.active.contains(t.active[i]));
            row_laws::lemma_parent(snapshot, above, t.active[i]);
            assert(follows(snapshot, above, t.active[i]));
        }
        if exists|pr: PullRequestSnapshotView| #[trigger]
            follows(snapshot, above, pr) && pr.number == x {
            let pr = choose|pr: PullRequestSnapshotView| #[trigger]
                follows(snapshot, above, pr) && pr.number == x;
            row_laws::lemma_parent(snapshot, above, pr);
            assert(t.active.contains(pr));
            let i = choose|i: int| 0 <= i < t.active.len() && t.active[i] == pr;
            assert(g.numbers[i] == x);
            assert(g.parents[i] == Some(above.number));
        }
    }
    assert(kids.contains(a.number) && kids.contains(b.number));
    assert(kids.len() > 1) by {
        let p = choose|p: int| 0 <= p < kids.len() && kids[p] == a.number;
        let q = choose|q: int| 0 <= q < kids.len() && kids[q] == b.number;
        assert(p != q);
    }
    assert(t.active.contains(above));
    let at = choose|i: int| 0 <= i < t.active.len() && t.active[i] == above;
    assert(g.numbers[at] == above.number);
    lemma_branching_is_listed(g, g.numbers.len(), at);
    let list = g.branching_problems(g.numbers.len());
    let problem = g.branching_problem(above.number);
    let m = choose|m: int| 0 <= m < list.len() && #[trigger] list[m] == problem;
    let first = rows::repeated_problems(snapshot.pull_requests) + rows::label_problems(t.rows)
        + rows::fork_problems(t.active, snapshot.repository) + rows::shared_head_problems(
        t.active,
        model::label_set(rows::head_names(t.active)),
    ) + t.link_problems(t.active.len());
    let problems = graph::derived(snapshot, actor).fleet.problems;
    assert(problems[first.len() + m] == problem);
    assert(problem.prs.skip(1) =~= kids);
    assert(names_followers(snapshot, problems[first.len() + m], above));
}

/// A caravan that starts at a member that follows another is reported to have
/// no head, with just its members.
pub proof fn lemma_headless_caravan_is_reported(
    snapshot: RepositorySnapshotView,
    actor: HeadMergeActor,
    c: int,
    above: PullRequestSnapshotView,
    head: PullRequestSnapshotView,
)
    requires
        0 <= c < graph::caravans_of(snapshot).len(),
        head.number == graph::caravans_of(snapshot)[c].members[0],
        follows(snapshot, above, head),
    ensures
        exists|i: int|
            0 <= i < graph::derived(snapshot, actor).fleet.problems.len() && (
            #[trigger] graph::derived(snapshot, actor).fleet.problems[i]).kind
                == GraphProblemKind::MissingHead && graph::derived(
                snapshot,
                actor,
            ).fleet.problems[i].prs == graph::caravans_of(snapshot)[c].members,
{
    let t = graph::topology_of(snapshot);
    let g = graph::links_of(snapshot);
    let roots = g.root_walks(g.numbers.len()).chains;
    let rest = g.rest_walks(g.numbers.len()).chains;
    let chains = graph::chains_of(snapshot);
    let members = graph::caravans_of(snapshot)[c].members;
    row_laws::lemma_active(snapshot);
    row_laws::lemma_parent(snapshot, above, head);
    fleet_laws::lemma_root_walk_links(g, g.numbers.len());
    fleet_laws::lemma_caravans_are_chains(t.active, chains, c);
    let at = choose|k: int| 0 <= k < chains.len() && chains[k] == members;
    if at < roots.len() {
        assert(chains[at] == roots[at]);
        let k = choose|k: int|
            0 <= k < g.numbers.len() && #[trigger] g.numbers[k] == members[0]
                && g.parents[k] is None;
        assert(t.active.contains(t.active[k]));
        assert(t.active.contains(head));
        row_laws::lemma_same_row(t.active, t.active[k], head);
    }
    let m = at - roots.len();
    assert(rest[m] == members);
    let headless = graph::headless_problems(snapshot);
    assert(headless[m].prs == members);
    let first = rows::repeated_problems(snapshot.pull_requests) + rows::label_problems(t.rows)
        + rows::fork_problems(t.active, snapshot.repository) + rows::shared_head_problems(
        t.active,
        model::label_set(rows::head_names(t.active)),
    ) + t.link_problems(t.active.len()) + g.branching_problems(g.numbers.len())
        + g.cycle_problems();
    let problems = graph::derived(snapshot, actor).fleet.problems;
    assert(problems[first.len() + m] == headless[m]);
}

// ---------------------------------------------------------------------------
// History
// ---------------------------------------------------------------------------

/// A merged member of a caravan.
pub open spec fn merged_member(pr: PullRequestSnapshotView) -> bool {
    pr.state == PullRequestState::Merged && pr.labels.contains("caravan"@)
}

proof fn lemma_history(prs: Seq<PullRequestSnapshotView>)
    requires
        prs.len() <= usize::MAX,
    ensures
        graph::history_of(prs).merged_members_observed == prs.filter(
            |pr: PullRequestSnapshotView| merged_member(pr),
        ).len(),
        graph::history_of(prs).unlabelled_merged_rows == prs.filter(
            |pr: PullRequestSnapshotView|
                pr.state == PullRequestState::Merged && !pr.labels.contains("caravan"@),
        ).len(),
        graph::history_of(prs).merged_members_observed <= prs.len(),
        graph::history_of(prs).unlabelled_merged_rows <= prs.len(),
    decreases prs.len(),
{
    reveal(Seq::filter);
    if prs.len() > 0 {
        lemma_history(prs.drop_last());
    }
}

/// The history counts the merged members of the caravans, and apart from them
/// the merged pull requests that were no members.
pub proof fn lemma_history_counts(snapshot: RepositorySnapshotView, actor: HeadMergeActor)
    requires
        snapshot.pull_requests.len() <= usize::MAX,
    ensures
        ({
            let history = graph::derived(snapshot, actor).fleet.history;
            let prs = snapshot.pull_requests;
            &&& history.merged_members_observed == prs.filter(
                |pr: PullRequestSnapshotView| merged_member(pr),
            ).len()
            &&& history.unlabelled_merged_rows == prs.filter(
                |pr: PullRequestSnapshotView|
                    pr.state == PullRequestState::Merged && !pr.labels.contains("caravan"@),
            ).len()
        }),
{
    lemma_history(snapshot.pull_requests);
}

proof fn lemma_span(prs: Seq<PullRequestSnapshotView>)
    ensures
        ({
            let history = graph::history_of(prs);
            &&& history.earliest_merged_at is Some <==> history.latest_merged_at is Some
            &&& history.earliest_merged_at matches Some(first) ==> exists|i: int|
                0 <= i < prs.len() && merged_member(#[trigger] prs[i]) && prs[i].merged_at == Some(
                    first,
                )
            &&& history.latest_merged_at matches Some(last) ==> exists|i: int|
                0 <= i < prs.len() && merged_member(#[trigger] prs[i]) && prs[i].merged_at == Some(
                    last,
                )
            &&& forall|i: int|
                0 <= i < prs.len() && merged_member(#[trigger] prs[i]) && prs[i].merged_at is Some
                    ==> history.earliest_merged_at is Some && history.latest_merged_at is Some
                    && !text::text_lt(prs[i].merged_at->0, history.earliest_merged_at->0)
                    && !text::text_lt(history.latest_merged_at->0, prs[i].merged_at->0)
        }),
    decreases prs.len(),
{
    if prs.len() > 0 {
        let front = prs.drop_last();
        let last = prs.last();
        let before = graph::history_of(front);
        let history = graph::history_of(prs);
        lemma_span(front);
        assert(prs[prs.len() - 1] == last);
        assert forall|i: int| 0 <= i < front.len() implies #[trigger] prs[i] == front[i] by {}
        if before.earliest_merged_at is Some {
            let i = choose|i: int|
                0 <= i < front.len() && merged_member(#[trigger] front[i]) && front[i].merged_at
                    == Some(before.earliest_merged_at->0);
            assert(merged_member(prs[i]));
        }
        if before.latest_merged_at is Some {
            let i = choose|i: int|
                0 <= i < front.len() && merged_member(#[trigger] front[i]) && front[i].merged_at
                    == Some(before.latest_merged_at->0);
            assert(merged_member(prs[i]));
        }
        if merged_member(last) && last.merged_at is Some {
            let stamp = last.merged_at->0;
            text::lemma_text_lt_total(stamp, stamp);
            if before.earliest_merged_at is Some {
                text::lemma_text_lt_total(stamp, before.earliest_merged_at->0);
            }
            if before.latest_merged_at is Some {
                text::lemma_text_lt_total(stamp, before.latest_merged_at->0);
            }
        }
        assert forall|i: int|
            0 <= i < prs.len() && merged_member(#[trigger] prs[i])
                && prs[i].merged_at is Some implies history.earliest_merged_at is Some
            && history.latest_merged_at is Some && !text::text_lt(
            prs[i].merged_at->0,
            history.earliest_merged_at->0,
        ) && !text::text_lt(history.latest_merged_at->0, prs[i].merged_at->0) by {
            if i < front.len() {
                let stamp = prs[i].merged_at->0;
                assert(merged_member(front[i]));
                if merged_member(last) && last.merged_at is Some {
                    let other = last.merged_at->0;
                    let first = before.earliest_merged_at->0;
                    let final_one = before.latest_merged_at->0;
                    if text::text_lt(other, first) && text::text_lt(stamp, other) {
                        text::lemma_text_lt_transitive(stamp, other, first);
                    }
                    if text::text_lt(final_one, other) && text::text_lt(other, stamp) {
                        text::lemma_text_lt_transitive(final_one, other, stamp);
                    }
                }
            }
        }
    }
}

/// The history spans the merged members: its first and last stamp are those of
/// merged members, and no merged member lies outside of them.
pub proof fn lemma_history_spans(snapshot: RepositorySnapshotView, actor: HeadMergeActor)
    ensures
        ({
            let history = graph::derived(snapshot, actor).fleet.history;
            let prs = snapshot.pull_requests;
            &&& history.earliest_merged_at matches Some(first) ==> exists|i: int|
                0 <= i < prs.len() && merged_member(#[trigger] prs[i]) && prs[i].merged_at == Some(
                    first,
                )
            &&& history.latest_merged_at matches Some(last) ==> exists|i: int|
                0 <= i < prs.len() && merged_member(#[trigger] prs[i]) && prs[i].merged_at == Some(
                    last,
                )
            &&& forall|i: int|
                0 <= i < prs.len() && merged_member(#[trigger] prs[i]) && prs[i].merged_at is Some
                    ==> history.earliest_merged_at is Some && history.latest_merged_at is Some
                    && !text::text_lt(prs[i].merged_at->0, history.earliest_merged_at->0)
                    && !text::text_lt(history.latest_merged_at->0, prs[i].merged_at->0)
        }),
{
    lemma_span(snapshot.pull_requests);
}

} // verus!
