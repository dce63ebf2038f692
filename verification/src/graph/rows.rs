//! Pull request rows: the index by number, labels that mark membership, and
//! the problems that single rows and shared head branches show.

use vstd::prelude::*;
use vstd::string::*;
use crate::model;
use crate::model::{
    push_item, GraphProblem, GraphProblemKind, GraphProblemView, LabelSet, Model, PrNumber,
    PullRequestSnapshot, PullRequestSnapshotView, PullRequestState, RepositoryId, RepositoryIdView,
};

verus! {

// ---------------------------------------------------------------------------
// Index by number
// ---------------------------------------------------------------------------

/// Whether rows stand in strictly increasing order of their numbers.
pub open spec fn rows_sorted(rows: Seq<PullRequestSnapshotView>) -> bool {
    forall|i: int, j: int| 0 <= i < j < rows.len() ==> rows[i].number.0 < rows[j].number.0
}

/// The position before which a number belongs in ordered rows.
pub open spec fn row_position(rows: Seq<PullRequestSnapshotView>, number: PrNumber) -> int
    decreases rows.len(),
{
    if rows.len() == 0 {
        0
    } else if rows.last().number.0 < number.0 {
        rows.len() as int
    } else {
        row_position(rows.drop_last(), number)
    }
}

/// Whether some row has the number.
pub open spec fn has_row(rows: Seq<PullRequestSnapshotView>, number: PrNumber) -> bool {
    exists|i: int| 0 <= i < rows.len() && (#[trigger] rows[i]).number == number
}

/// Ordered rows with one more row; a row of the same number is replaced.
pub open spec fn index_insert(
    rows: Seq<PullRequestSnapshotView>,
    pr: PullRequestSnapshotView,
) -> Seq<PullRequestSnapshotView> {
    let at = row_position(rows, pr.number);
    if at < rows.len() && rows[at].number == pr.number {
        rows.update(at, pr)
    } else {
        rows.take(at).push(pr) + rows.skip(at)
    }
}

/// The rows of a snapshot by number; the last row of a number stands.
pub open spec fn indexed(prs: Seq<PullRequestSnapshotView>) -> Seq<PullRequestSnapshotView>
    decreases prs.len(),
{
    if prs.len() == 0 {
        Seq::empty()
    } else {
        index_insert(indexed(prs.drop_last()), prs.last())
    }
}

/// The first row of a number.
pub open spec fn row_of(
    rows: Seq<PullRequestSnapshotView>,
    number: PrNumber,
) -> Option<PullRequestSnapshotView>
    decreases rows.len(),
{
    if rows.len() == 0 {
        None
    } else {
        match row_of(rows.drop_last(), number) {
            Some(pr) => Some(pr),
            None => if rows.last().number == number {
                Some(rows.last())
            } else {
                None
            },
        }
    }
}

pub proof fn lemma_row_position(rows: Seq<PullRequestSnapshotView>, number: PrNumber)
    requires
        rows_sorted(rows),
    ensures
        0 <= row_position(rows, number) <= rows.len(),
        forall|j: int| 0 <= j < row_position(rows, number) ==> rows[j].number.0 < number.0,
        forall|j: int| row_position(rows, number) <= j < rows.len() ==> rows[j].number.0
            >= number.0,
    decreases rows.len(),
{
    if rows.len() > 0 && rows.last().number.0 >= number.0 {
        let before = rows.drop_last();
        lemma_row_position(before, number);
        assert forall|j: int| 0 <= j < row_position(rows, number) implies rows[j].number.0
            < number.0 by {
            assert(before[j] == rows[j]);
        }
        assert forall|j: int| row_position(rows, number) <= j < rows.len() implies rows[j].number.0
            >= number.0 by {
            if j < before.len() {
                assert(before[j] == rows[j]);
            }
        }
    }
}

/// Inserting a row keeps the order, holds the row, and keeps every other row.
pub proof fn lemma_index_insert(rows: Seq<PullRequestSnapshotView>, pr: PullRequestSnapshotView)
    requires
        rows_sorted(rows),
    ensures
        rows_sorted(index_insert(rows, pr)),
        index_insert(rows, pr).contains(pr),
        forall|n: PrNumber|
            #[trigger] has_row(index_insert(rows, pr), n) <==> (has_row(rows, n) || n == pr.number),
        forall|x: PullRequestSnapshotView|
            x.number != pr.number ==> (#[trigger] index_insert(rows, pr).contains(x)
                <==> rows.contains(x)),
{
    let out = index_insert(rows, pr);
    let at = row_position(rows, pr.number);
    lemma_row_position(rows, pr.number);
    assert(out[at] == pr);
    let replaced = at < rows.len() && rows[at].number == pr.number;
    assert forall|n: PrNumber| #[trigger] has_row(out, n) <==> (has_row(rows, n) || n
        == pr.number) by {
        if has_row(rows, n) {
            let k = choose|k: int| 0 <= k < rows.len() && (#[trigger] rows[k]).number == n;
            if replaced || k < at {
                assert(out[k].number == n);
            } else {
                assert(out[k + 1].number == n);
            }
        }
        if n == pr.number {
            assert(out[at].number == n);
        }
        if has_row(out, n) {
            let k = choose|k: int| 0 <= k < out.len() && (#[trigger] out[k]).number == n;
            if k < at || replaced {
                assert(rows[k].number == n || n == pr.number);
            } else if k > at {
                assert(rows[k - 1].number == n);
            }
        }
    }
    assert forall|x: PullRequestSnapshotView| x.number != pr.number implies (
    #[trigger] out.contains(x) <==> rows.contains(x)) by {
        if rows.contains(x) {
            let k = choose|k: int| 0 <= k < rows.len() && rows[k] == x;
            if replaced || k < at {
                assert(out[k] == x);
            } else {
                assert(out[k + 1] == x);
            }
        }
        if out.contains(x) {
            let k = choose|k: int| 0 <= k < out.len() && out[k] == x;
            if k < at || replaced {
                assert(rows[k] == x);
            } else {
                assert(rows[k - 1] == x);
            }
        }
    }
}

/// The index of a snapshot is ordered by number and has a row exactly for
/// the numbers of the snapshot.
pub proof fn lemma_indexed(prs: Seq<PullRequestSnapshotView>)
    ensures
        rows_sorted(indexed(prs)),
        forall|n: PrNumber| #[trigger] has_row(indexed(prs), n) <==> has_row(prs, n),
    decreases prs.len(),
{
    if prs.len() > 0 {
        let before = prs.drop_last();
        lemma_indexed(before);
        lemma_index_insert(indexed(before), prs.last());
        assert forall|n: PrNumber| #[trigger] has_row(indexed(prs), n) <==> has_row(prs, n) by {
            assert(has_row(indexed(before), n) <==> has_row(before, n));
            if has_row(before, n) {
                let k = choose|k: int| 0 <= k < before.len() && (#[trigger] before[k]).number == n;
                assert(prs[k].number == n);
            }
            if has_row(prs, n) {
                let k = choose|k: int| 0 <= k < prs.len() && (#[trigger] prs[k]).number == n;
                if k < before.len() {
                    assert(before[k].number == n);
                }
            }
            if n == prs.last().number {
                assert(prs[prs.len() - 1].number == n);
            }
        }
    } else {
        assert forall|n: PrNumber| #[trigger] has_row(indexed(prs), n) <==> has_row(prs, n) by {}
    }
}

/// Looking a number up finds a row exactly if there is one, and a row of
/// that number.
pub proof fn lemma_row_of(rows: Seq<PullRequestSnapshotView>, number: PrNumber)
    ensures
        row_of(rows, number) is Some <==> has_row(rows, number),
        row_of(rows, number) matches Some(pr) ==> rows.contains(pr) && pr.number == number,
    decreases rows.len(),
{
    if rows.len() > 0 {
        let before = rows.drop_last();
        lemma_row_of(before, number);
        if has_row(before, number) {
            let k = choose|k: int|
                0 <= k < before.len() && (#[trigger] before[k]).number == number;
            assert(rows[k].number == number);
        }
        if has_row(rows, number) {
            let k = choose|k: int| 0 <= k < rows.len() && (#[trigger] rows[k]).number == number;
            if k < before.len() {
                assert(before[k].number == number);
            }
        }
        match row_of(before, number) {
            Some(pr) => {
                let k = choose|k: int| 0 <= k < before.len() && before[k] == pr;
                assert(rows[k] == pr);
            },
            None => {
                assert(rows[rows.len() - 1] == rows.last());
            },
        }
    }
}

proof fn lemma_row_of_stays(rows: Seq<PullRequestSnapshotView>, number: PrNumber, k: int)
    requires
        0 <= k <= rows.len(),
        row_of(rows.take(k), number) is Some,
    ensures
        row_of(rows, number) == row_of(rows.take(k), number),
    decreases rows.len() - k,
{
    if k < rows.len() {
        assert(rows.take(k + 1).drop_last() =~= rows.take(k));
        lemma_row_of_stays(rows, number, k + 1);
    } else {
        assert(rows.take(k) =~= rows);
    }
}

/// The first row of a number.
pub fn find_row(rows: &Vec<PullRequestSnapshot>, number: PrNumber) -> (r: Option<
    &PullRequestSnapshot,
>)
    ensures
        match r {
            Some(pr) => row_of(rows.deep_view(), number) == Some(pr.deep_view()),
            None => row_of(rows.deep_view(), number) is None,
        },
{
    let ghost all = rows.deep_view();
    let mut i: usize = 0;
    while i < rows.len()
        invariant
            all == rows.deep_view(),
            i <= rows.len(),
            row_of(all.take(i as int), number) is None,
        decreases rows.len() - i,
    {
        assert(all.take(i as int + 1).drop_last() =~= all.take(i as int));
        if rows[i].number == number {
            proof {
                lemma_row_of_stays(all, number, i as int + 1);
            }
            return Some(&rows[i]);
        }
        i = i + 1;
    }
    assert(all.take(i as int) =~= all);
    None
}

/// Ordered rows with one more row, and whether it replaced one.
fn insert_row(rows: Vec<PullRequestSnapshot>, pr: PullRequestSnapshot) -> (r: (
    Vec<PullRequestSnapshot>,
    bool,
))
    requires
        rows_sorted(rows.deep_view()),
    ensures
        r.0.deep_view() == index_insert(rows.deep_view(), pr.deep_view()),
        r.1 == has_row(rows.deep_view(), pr.deep_view().number),
{
    let ghost all = rows.deep_view();
    let ghost row = pr.deep_view();
    let ghost spot = row_position(all, row.number);
    proof {
        lemma_row_position(all, row.number);
    }
    let mut rows = rows;
    let mut at: usize = rows.len();
    while at > 0 && rows[at - 1].number.0 >= pr.number.0
        invariant
            all == rows.deep_view(),
            row == pr.deep_view(),
            spot == row_position(all, row.number),
            0 <= spot <= at <= rows.len(),
            forall|j: int| 0 <= j < spot ==> all[j].number.0 < row.number.0,
            forall|j: int| spot <= j < all.len() ==> all[j].number.0 >= row.number.0,
            forall|j: int| 0 <= j < all.len() ==> all[j] == rows[j].deep_view(),
        decreases at,
    {
        assert(all[at - 1] == rows[at - 1].deep_view());
        at = at - 1;
    }
    assert(at == spot) by {
        if at > spot {
            assert(all[at - 1].number.0 >= row.number.0);
        }
    }
    let replaced = at < rows.len() && rows[at].number == pr.number;
    if replaced {
        assert(all[at as int].number == row.number);
        rows[at] = pr;
        assert(rows.deep_view() =~= index_insert(all, row));
        (rows, true)
    } else {
        assert(!has_row(all, row.number)) by {
            if has_row(all, row.number) {
                let k = choose|k: int|
                    0 <= k < all.len() && (#[trigger] all[k]).number == row.number;
                assert(k >= spot);
                if k > spot {
                    assert(all[spot].number.0 < all[k].number.0);
                }
            }
        }
        rows.insert(at, pr);
        assert(rows.deep_view() =~= index_insert(all, row));
        (rows, false)
    }
}

// ---------------------------------------------------------------------------
// Problems of single rows
// ---------------------------------------------------------------------------

/// A problem that concerns one pull request.
pub open spec fn single(
    kind: GraphProblemKind,
    pr: PrNumber,
    message: Seq<char>,
) -> GraphProblemView {
    GraphProblemView { kind, prs: seq![pr], message }
}

pub open spec fn repeated_problem(pr: PrNumber) -> GraphProblemView {
    single(
        GraphProblemKind::DuplicateMember,
        pr,
        "PR #"@ + model::pr_text(pr) + " appeared more than once in one discovery snapshot"@,
    )
}

/// One problem for each row whose number an earlier row has.
pub open spec fn repeated_problems(prs: Seq<PullRequestSnapshotView>) -> Seq<GraphProblemView>
    decreases prs.len(),
{
    if prs.len() == 0 {
        Seq::empty()
    } else if has_row(prs.drop_last(), prs.last().number) {
        repeated_problems(prs.drop_last()).push(repeated_problem(prs.last().number))
    } else {
        repeated_problems(prs.drop_last())
    }
}

/// One problem that names a single pull request.
pub fn single_problem(kind: GraphProblemKind, pr: PrNumber, message: String) -> (r: GraphProblem)
    ensures
        r.deep_view() == single(kind, pr, message@),
{
    let prs = vec![pr];
    assert(prs.deep_view() =~= seq![pr]);
    GraphProblem { kind, prs, message }
}

/// The rows of a snapshot by number, with one problem for each repetition.
pub fn index_rows(prs: &Vec<PullRequestSnapshot>) -> (r: (
    Vec<PullRequestSnapshot>,
    Vec<GraphProblem>,
))
    ensures
        r.0.deep_view() == indexed(prs.deep_view()),
        r.1.deep_view() == repeated_problems(prs.deep_view()),
{
    let ghost all = prs.deep_view();
    let mut rows: Vec<PullRequestSnapshot> = Vec::new();
    let mut problems: Vec<GraphProblem> = Vec::new();
    assert(rows.deep_view() =~= indexed(all.take(0)));
    assert(problems.deep_view() =~= repeated_problems(all.take(0)));
    let mut i: usize = 0;
    while i < prs.len()
        invariant
            all == prs.deep_view(),
            i <= prs.len(),
            rows.deep_view() == indexed(all.take(i as int)),
            problems.deep_view() == repeated_problems(all.take(i as int)),
        decreases prs.len() - i,
    {
        assert(all.take(i as int + 1).drop_last() =~= all.take(i as int));
        proof {
            lemma_indexed(all.take(i as int));
            assert(has_row(indexed(all.take(i as int)), all[i as int].number) <==> has_row(
                all.take(i as int),
                all[i as int].number,
            ));
        }
        let number = prs[i].number;
        let (next, replaced) = insert_row(rows, prs[i].dup());
        rows = next;
        if replaced {
            let message = "PR #".to_owned().concat(number.to_text().as_str()).concat(
                " appeared more than once in one discovery snapshot",
            );
            push_item(
                &mut problems,
                single_problem(GraphProblemKind::DuplicateMember, number, message),
            );
        }
        i = i + 1;
    }
    assert(all.take(i as int) =~= all);
    (rows, problems)
}

/// Whether a row left the chain without landing.
pub open spec fn dissolved(pr: PullRequestSnapshotView) -> bool {
    pr.state == PullRequestState::Closed && pr.has_label("caravan"@)
}

/// Whether an open row is labelled a member and evicted at once.
pub open spec fn active_and_evicted(pr: PullRequestSnapshotView) -> bool {
    pr.state == PullRequestState::Open && pr.has_label("caravan"@) && pr.has_label(
        "caravan-evicted"@,
    )
}

pub open spec fn dissolved_problem(pr: PrNumber) -> GraphProblemView {
    single(
        GraphProblemKind::DissolvedMember,
        pr,
        "caravan member #"@ + model::pr_text(pr)
            + " was closed without merging, so its caravan no longer exists; requeue the work through its successor or remove the `caravan` label to acknowledge the dissolution"@,
    )
}

pub open spec fn evicted_problem(pr: PrNumber) -> GraphProblemView {
    single(
        GraphProblemKind::ActiveAndEvicted,
        pr,
        "PR #"@ + model::pr_text(pr) + " has both caravan and caravan-evicted labels"@,
    )
}

/// The problems that the labels of single rows show.
pub open spec fn label_problems(rows: Seq<PullRequestSnapshotView>) -> Seq<GraphProblemView>
    decreases rows.len(),
{
    if rows.len() == 0 {
        Seq::empty()
    } else if dissolved(rows.last()) {
        label_problems(rows.drop_last()).push(dissolved_problem(rows.last().number))
    } else if active_and_evicted(rows.last()) {
        label_problems(rows.drop_last()).push(evicted_problem(rows.last().number))
    } else {
        label_problems(rows.drop_last())
    }
}

/// The active members among rows.
pub open spec fn active_rows(rows: Seq<PullRequestSnapshotView>) -> Seq<PullRequestSnapshotView>
    decreases rows.len(),
{
    if rows.len() == 0 {
        Seq::empty()
    } else if rows.last().is_active_caravan_member() {
        active_rows(rows.drop_last()).push(rows.last())
    } else {
        active_rows(rows.drop_last())
    }
}

/// Active rows keep the order of the rows and are exactly the active ones.
pub proof fn lemma_active_rows(rows: Seq<PullRequestSnapshotView>)
    requires
        rows_sorted(rows),
    ensures
        rows_sorted(active_rows(rows)),
        forall|x: PullRequestSnapshotView|
            #[trigger] active_rows(rows).contains(x) <==> (rows.contains(x)
                && x.is_active_caravan_member()),
    decreases rows.len(),
{
    let out = active_rows(rows);
    if rows.len() > 0 {
        let before = rows.drop_last();
        let kept = active_rows(before);
        lemma_active_rows(before);
        assert forall|x: PullRequestSnapshotView| #[trigger] out.contains(x) <==> (rows.contains(x)
            && x.is_active_caravan_member()) by {
            assert(kept.contains(x) <==> (before.contains(x) && x.is_active_caravan_member()));
            if before.contains(x) {
                let k = choose|k: int| 0 <= k < before.len() && before[k] == x;
                assert(rows[k] == x);
            }
            if rows.contains(x) {
                let k = choose|k: int| 0 <= k < rows.len() && rows[k] == x;
                if k < before.len() {
                    assert(before[k] == x);
                }
            }
            assert(rows[rows.len() - 1] == rows.last());
            if rows.last().is_active_caravan_member() {
                assert(out[out.len() - 1] == rows.last());
                if kept.contains(x) {
                    let k = choose|k: int| 0 <= k < kept.len() && kept[k] == x;
                    assert(out[k] == x);
                }
                if out.contains(x) {
                    let k = choose|k: int| 0 <= k < out.len() && out[k] == x;
                    if k < kept.len() {
                        assert(kept[k] == x);
                    }
                }
            }
        }
        if rows.last().is_active_caravan_member() {
            assert forall|i: int, j: int| 0 <= i < j < out.len() implies out[i].number.0
                < out[j].number.0 by {
                if j == out.len() - 1 {
                    assert(kept.contains(kept[i]));
                    let k = choose|k: int| 0 <= k < before.len() && before[k] == kept[i];
                    assert(rows[k].number.0 < rows[rows.len() - 1].number.0);
                }
            }
        }
    } else {
        assert forall|x: PullRequestSnapshotView| #[trigger] out.contains(x) <==> (rows.contains(x)
            && x.is_active_caravan_member()) by {}
    }
}

/// The active members among rows, and the problems that labels show.
pub fn split_rows(rows: &Vec<PullRequestSnapshot>) -> (r: (
    Vec<PullRequestSnapshot>,
    Vec<GraphProblem>,
))
    ensures
        r.0.deep_view() == active_rows(rows.deep_view()),
        r.1.deep_view() == label_problems(rows.deep_view()),
{
    let ghost all = rows.deep_view();
    let mut active: Vec<PullRequestSnapshot> = Vec::new();
    let mut problems: Vec<GraphProblem> = Vec::new();
    assert(active.deep_view() =~= active_rows(all.take(0)));
    assert(problems.deep_view() =~= label_problems(all.take(0)));
    let mut i: usize = 0;
    while i < rows.len()
        invariant
            all == rows.deep_view(),
            i <= rows.len(),
            active.deep_view() == active_rows(all.take(i as int)),
            problems.deep_view() == label_problems(all.take(i as int)),
        decreases rows.len() - i,
    {
        assert(all.take(i as int + 1).drop_last() =~= all.take(i as int));
        let pr = &rows[i];
        assert(pr.deep_view() == all[i as int]);
        let number = pr.number;
        let member = pr.has_label("caravan");
        let evicted = pr.has_label("caravan-evicted");
        if pr.state == PullRequestState::Closed && member {
            let message = "caravan member #".to_owned().concat(number.to_text().as_str()).concat(
                " was closed without merging, so its caravan no longer exists; requeue the work through its successor or remove the `caravan` label to acknowledge the dissolution",
            );
            push_item(
                &mut problems,
                single_problem(GraphProblemKind::DissolvedMember, number, message),
            );
        }
        if pr.state == PullRequestState::Open && member && evicted {
            let message = "PR #".to_owned().concat(number.to_text().as_str()).concat(
                " has both caravan and caravan-evicted labels",
            );
            push_item(
                &mut problems,
                single_problem(GraphProblemKind::ActiveAndEvicted, number, message),
            );
        } else if pr.is_active_caravan_member() {
            push_item(&mut active, pr.dup());
        }
        i = i + 1;
    }
    assert(all.take(i as int) =~= all);
    (active, problems)
}

/// The last labelled row of a state whose head is the branch.
pub open spec fn last_owner(
    rows: Seq<PullRequestSnapshotView>,
    state: PullRequestState,
    branch: Seq<char>,
) -> Option<PrNumber>
    decreases rows.len(),
{
    if rows.len() == 0 {
        None
    } else if rows.last().state == state && rows.last().has_label("caravan"@)
        && rows.last().head.name == branch {
        Some(rows.last().number)
    } else {
        last_owner(rows.drop_last(), state, branch)
    }
}

/// The last labelled row of a state whose head is the branch.
pub fn find_last_owner(
    rows: &Vec<PullRequestSnapshot>,
    state: PullRequestState,
    branch: &String,
) -> (r: Option<PrNumber>)
    ensures
        r == last_owner(rows.deep_view(), state, branch@),
{
    let ghost all = rows.deep_view();
    let mut i: usize = rows.len();
    assert(all.take(i as int) =~= all);
    while i > 0
        invariant
            all == rows.deep_view(),
            i <= rows.len(),
            last_owner(all, state, branch@) == last_owner(all.take(i as int), state, branch@),
        decreases i,
    {
        let pr = &rows[i - 1];
        assert(all.take(i as int).last() == pr.deep_view());
        if pr.state == state && pr.has_label("caravan") && pr.head.name.same(branch) {
            return Some(pr.number);
        }
        assert(all.take(i as int).drop_last() =~= all.take(i as int - 1));
        i = i - 1;
    }
    None
}

// ---------------------------------------------------------------------------
// Head branches
// ---------------------------------------------------------------------------

/// Whether the head branch of a row lives outside the repository.
pub open spec fn foreign_head(pr: PullRequestSnapshotView, repository: RepositoryIdView) -> bool {
    pr.cross_repository || pr.head.repository != repository
}

pub open spec fn fork_problem(pr: PrNumber) -> GraphProblemView {
    single(
        GraphProblemKind::ForkOnlyPredecessor,
        pr,
        "PR #"@ + model::pr_text(pr)
            + " has a fork-only head branch which cannot be a GitHub PR base"@,
    )
}

/// One problem for each active row with a foreign head.
pub open spec fn fork_problems(
    active: Seq<PullRequestSnapshotView>,
    repository: RepositoryIdView,
) -> Seq<GraphProblemView>
    decreases active.len(),
{
    if active.len() == 0 {
        Seq::empty()
    } else if foreign_head(active.last(), repository) {
        fork_problems(active.drop_last(), repository).push(fork_problem(active.last().number))
    } else {
        fork_problems(active.drop_last(), repository)
    }
}

pub fn find_fork_problems(
    active: &Vec<PullRequestSnapshot>,
    repository: &RepositoryId,
) -> (r: Vec<GraphProblem>)
    ensures
        r.deep_view() == fork_problems(active.deep_view(), repository.deep_view()),
{
    let ghost all = active.deep_view();
    let ghost home = repository.deep_view();
    let mut problems: Vec<GraphProblem> = Vec::new();
    assert(problems.deep_view() =~= fork_problems(all.take(0), home));
    let mut i: usize = 0;
    while i < active.len()
        invariant
            all == active.deep_view(),
            home == repository.deep_view(),
            i <= active.len(),
            problems.deep_view() == fork_problems(all.take(i as int), home),
        decreases active.len() - i,
    {
        assert(all.take(i as int + 1).drop_last() =~= all.take(i as int));
        let pr = &active[i];
        assert(pr.deep_view() == all[i as int]);
        if pr.cross_repository || !pr.head.repository.same(repository) {
            let message = "PR #".to_owned().concat(pr.number.to_text().as_str()).concat(
                " has a fork-only head branch which cannot be a GitHub PR base",
            );
            push_item(
                &mut problems,
                single_problem(GraphProblemKind::ForkOnlyPredecessor, pr.number, message),
            );
        }
        i = i + 1;
    }
    assert(all.take(i as int) =~= all);
    problems
}

/// The numbers of the rows whose head is the branch.
pub open spec fn members_on(
    active: Seq<PullRequestSnapshotView>,
    branch: Seq<char>,
) -> Seq<PrNumber>
    decreases active.len(),
{
    if active.len() == 0 {
        Seq::empty()
    } else if active.last().head.name == branch {
        members_on(active.drop_last(), branch).push(active.last().number)
    } else {
        members_on(active.drop_last(), branch)
    }
}

pub fn find_members_on(active: &Vec<PullRequestSnapshot>, branch: &String) -> (r: Vec<PrNumber>)
    ensures
        r.deep_view() == members_on(active.deep_view(), branch@),
{
    let ghost all = active.deep_view();
    let mut out: Vec<PrNumber> = Vec::new();
    assert(out.deep_view() =~= members_on(all.take(0), branch@));
    let mut i: usize = 0;
    while i < active.len()
        invariant
            all == active.deep_view(),
            i <= active.len(),
            out.deep_view() == members_on(all.take(i as int), branch@),
        decreases active.len() - i,
    {
        assert(all.take(i as int + 1).drop_last() =~= all.take(i as int));
        if active[i].head.name.same(branch) {
            push_item(&mut out, active[i].number);
        }
        i = i + 1;
    }
    assert(all.take(i as int) =~= all);
    out
}

/// The numbers on a branch belong to rows of that head.
pub proof fn lemma_members_on(active: Seq<PullRequestSnapshotView>, branch: Seq<char>)
    ensures
        forall|n: PrNumber| #[trigger]
            members_on(active, branch).contains(n) ==> has_row(active, n),
    decreases active.len(),
{
    let out = members_on(active, branch);
    if active.len() > 0 {
        let before = active.drop_last();
        lemma_members_on(before, branch);
        assert forall|n: PrNumber| #[trigger] out.contains(n) implies has_row(active, n) by {
            let k = choose|k: int| 0 <= k < out.len() && out[k] == n;
            if k < members_on(before, branch).len() {
                assert(members_on(before, branch)[k] == n);
                assert(members_on(before, branch).contains(n));
                let m = choose|m: int| 0 <= m < before.len() && (#[trigger] before[m]).number == n;
                assert(active[m].number == n);
            } else {
                assert(active[active.len() - 1].number == n);
            }
        }
    }
}

/// The head branches of rows, in row order.
pub open spec fn head_names(active: Seq<PullRequestSnapshotView>) -> Seq<Seq<char>> {
    Seq::new(active.len(), |i: int| active[i].head.name)
}

pub open spec fn shared_head_problem(members: Seq<PrNumber>) -> GraphProblemView {
    GraphProblemView {
        kind: GraphProblemKind::DuplicateMember,
        prs: members,
        message: "multiple active PRs expose the same head branch"@,
    }
}

/// One problem for each of the branches that more than one row has as head.
pub open spec fn shared_head_problems(
    active: Seq<PullRequestSnapshotView>,
    branches: Seq<Seq<char>>,
) -> Seq<GraphProblemView>
    decreases branches.len(),
{
    if branches.len() == 0 {
        Seq::empty()
    } else if members_on(active, branches.last()).len() > 1 {
        shared_head_problems(active, branches.drop_last()).push(
            shared_head_problem(members_on(active, branches.last())),
        )
    } else {
        shared_head_problems(active, branches.drop_last())
    }
}

/// The branches in increasing order, with one problem for each shared one.
pub fn find_shared_heads(active: &Vec<PullRequestSnapshot>) -> (r: Vec<GraphProblem>)
    ensures
        r.deep_view() == shared_head_problems(
            active.deep_view(),
            model::label_set(head_names(active.deep_view())),
        ),
{
    let mut names: Vec<String> = Vec::new();
    let mut i: usize = 0;
    while i < active.len()
        invariant
            i <= active.len(),
            names.deep_view() == head_names(active.deep_view()).take(i as int),
        decreases active.len() - i,
    {
        push_item(&mut names, active[i].head.name.dup());
        i = i + 1;
        assert(names.deep_view() =~= head_names(active.deep_view()).take(i as int));
    }
    assert(names.deep_view() =~= head_names(active.deep_view()));
    let branches = LabelSet::from_list(&names).to_list();
    let ghost all = branches.deep_view();
    let mut problems: Vec<GraphProblem> = Vec::new();
    assert(problems.deep_view() =~= shared_head_problems(active.deep_view(), all.take(0)));
    let mut k: usize = 0;
    while k < branches.len()
        invariant
            all == branches.deep_view(),
            k <= branches.len(),
            problems.deep_view() == shared_head_problems(active.deep_view(), all.take(k as int)),
        decreases branches.len() - k,
    {
        assert(all.take(k as int + 1).drop_last() =~= all.take(k as int));
        let members = find_members_on(active, &branches[k]);
        if members.len() > 1 {
            push_item(
                &mut problems,
                GraphProblem {
                    kind: GraphProblemKind::DuplicateMember,
                    prs: members,
                    message: "multiple active PRs expose the same head branch".to_owned(),
                },
            );
        }
        k = k + 1;
    }
    assert(all.take(k as int) =~= all);
    problems
}

} // verus!
