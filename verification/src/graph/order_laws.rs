//! What a snapshot gives does not depend on the order of its rows.

use vstd::prelude::*;
use crate::graph;
use crate::graph::rows;
use crate::model::{
    CaravanHistoryView, GraphProblemView, HeadMergeActor, PullRequestSnapshotView,
    PullRequestState, RepositorySnapshotView,
};
use crate::text;

verus! {

/// Whether no two rows have the same number.
pub open spec fn distinct_numbers(prs: Seq<PullRequestSnapshotView>) -> bool {
    forall|i: int, j: int|
        0 <= i < j < prs.len() ==> (#[trigger] prs[i]).number != (#[trigger] prs[j]).number
}

/// Whether two lists hold the same rows.
pub open spec fn same_rows(
    a: Seq<PullRequestSnapshotView>,
    b: Seq<PullRequestSnapshotView>,
) -> bool {
    forall|x: PullRequestSnapshotView| #[trigger] a.contains(x) <==> b.contains(x)
}

// ---------------------------------------------------------------------------
// The index
// ---------------------------------------------------------------------------

proof fn lemma_last_is_new(prs: Seq<PullRequestSnapshotView>)
    requires
        distinct_numbers(prs),
        prs.len() > 0,
    ensures
        distinct_numbers(prs.drop_last()),
        !rows::has_row(prs.drop_last(), prs.last().number),
{
    let before = prs.drop_last();
    assert forall|i: int, j: int| 0 <= i < j < before.len() implies (#[trigger] before[i]).number
        != (#[trigger] before[j]).number by {
        assert(prs[i] == before[i] && prs[j] == before[j]);
    }
    if rows::has_row(before, prs.last().number) {
        let k = choose|k: int|
            0 <= k < before.len() && (#[trigger] before[k]).number == prs.last().number;
        assert(prs[k] == before[k] && prs[prs.len() - 1] == prs.last());
    }
}

/// The index of rows with distinct numbers holds exactly those rows.
proof fn lemma_index_holds(prs: Seq<PullRequestSnapshotView>)
    requires
        distinct_numbers(prs),
    ensures
        same_rows(rows::indexed(prs), prs),
    decreases prs.len(),
{
    if prs.len() > 0 {
        let before = prs.drop_last();
        let last = prs.last();
        let out = rows::indexed(prs);
        lemma_last_is_new(prs);
        lemma_index_holds(before);
        rows::lemma_indexed(before);
        rows::lemma_index_insert(rows::indexed(before), last);
        assert forall|x: PullRequestSnapshotView| #[trigger] out.contains(x) <==> prs.contains(
            x,
        ) by {
            assert(prs =~= before.push(last));
            if prs.contains(x) {
                let k = choose|k: int| 0 <= k < prs.len() && prs[k] == x;
                if k < before.len() {
                    assert(before[k] == x);
                    assert(before.contains(x));
                    assert(rows::has_row(before, x.number));
                }
            }
            if before.contains(x) {
                let k = choose|k: int| 0 <= k < before.len() && before[k] == x;
                assert(prs[k] == x);
            }
            assert(prs[prs.len() - 1] == last);
            if x.number == last.number && out.contains(x) {
                rows::lemma_indexed(prs);
                let i = choose|i: int| 0 <= i < out.len() && out[i] == x;
                let j = choose|j: int| 0 <= j < out.len() && out[j] == last;
                assert(i == j) by {
                    if i < j {
                        assert(out[i].number.0 < out[j].number.0);
                    }
                    if j < i {
                        assert(out[j].number.0 < out[i].number.0);
                    }
                }
            } else if x.number != last.number {
                assert(out.contains(x) <==> rows::indexed(before).contains(x));
            }
        }
    }
}

/// Ordered rows are determined by what they hold.
proof fn lemma_sorted_rows_are_equal(
    a: Seq<PullRequestSnapshotView>,
    b: Seq<PullRequestSnapshotView>,
)
    requires
        rows::rows_sorted(a),
        rows::rows_sorted(b),
        same_rows(a, b),
    ensures
        a == b,
    decreases a.len(),
{
    if a.len() == 0 {
        if b.len() > 0 {
            assert(b.contains(b[0]));
            assert(a.contains(b[0]));
        }
        assert(a =~= b);
    } else {
        assert(a.contains(a.last())) by {
            assert(a[a.len() - 1] == a.last());
        }
        assert(b.contains(a.last()));
        let at = choose|k: int| 0 <= k < b.len() && b[k] == a.last();
        assert(b.contains(b.last())) by {
            assert(b[b.len() - 1] == b.last());
        }
        assert(a.contains(b.last()));
        let from = choose|k: int| 0 <= k < a.len() && a[k] == b.last();
        if at < b.len() - 1 {
            assert(b[at].number.0 < b[b.len() - 1].number.0);
            if from < a.len() - 1 {
                assert(a[from].number.0 < a[a.len() - 1].number.0);
            }
        }
        assert(a.last() == b.last());
        let x = a.drop_last();
        let y = b.drop_last();
        assert forall|i: int, j: int| 0 <= i < j < x.len() implies x[i].number.0
            < x[j].number.0 by {
            assert(a[i].number.0 < a[j].number.0);
        }
        assert forall|i: int, j: int| 0 <= i < j < y.len() implies y[i].number.0
            < y[j].number.0 by {
            assert(b[i].number.0 < b[j].number.0);
        }
        assert forall|r: PullRequestSnapshotView| #[trigger] x.contains(r) <==> y.contains(r) by {
            if x.contains(r) {
                let k = choose|k: int| 0 <= k < x.len() && x[k] == r;
                assert(a[k] == r);
                assert(a[k].number.0 < a[a.len() - 1].number.0);
                assert(a.contains(r));
                let m = choose|m: int| 0 <= m < b.len() && b[m] == r;
                assert(m < b.len() - 1);
                assert(y[m] == r);
            }
            if y.contains(r) {
                let k = choose|k: int| 0 <= k < y.len() && y[k] == r;
                assert(b[k] == r);
                assert(b[k].number.0 < b[b.len() - 1].number.0);
                assert(b.contains(r));
                assert(a.contains(r));
                let m = choose|m: int| 0 <= m < a.len() && a[m] == r;
                assert(m < a.len() - 1);
                assert(x[m] == r);
            }
        }
        lemma_sorted_rows_are_equal(x, y);
        assert(a =~= x.push(a.last()));
        assert(b =~= y.push(b.last()));
    }
}

proof fn lemma_none_repeated(prs: Seq<PullRequestSnapshotView>)
    requires
        distinct_numbers(prs),
    ensures
        rows::repeated_problems(prs) == Seq::<GraphProblemView>::empty(),
    decreases prs.len(),
{
    if prs.len() > 0 {
        lemma_last_is_new(prs);
        lemma_none_repeated(prs.drop_last());
    }
}

// ---------------------------------------------------------------------------
// History
// ---------------------------------------------------------------------------

/// History with one more row.
spec fn history_with(before: CaravanHistoryView, pr: PullRequestSnapshotView) -> CaravanHistoryView {
    if pr.state != PullRequestState::Merged {
        before
    } else if pr.has_label("caravan"@) {
        CaravanHistoryView {
            merged_members_observed: (before.merged_members_observed + 1) as usize,
            earliest_merged_at: graph::earlier(before.earliest_merged_at, pr.merged_at),
            latest_merged_at: graph::later(before.latest_merged_at, pr.merged_at),
            unlabelled_merged_rows: before.unlabelled_merged_rows,
        }
    } else {
        CaravanHistoryView {
            unlabelled_merged_rows: (before.unlabelled_merged_rows + 1) as usize,
            ..before
        }
    }
}

proof fn lemma_earlier_commutes(
    a: Option<Seq<char>>,
    b: Option<Seq<char>>,
    c: Option<Seq<char>>,
)
    ensures
        graph::earlier(graph::earlier(a, b), c) == graph::earlier(graph::earlier(a, c), b),
        graph::later(graph::later(a, b), c) == graph::later(graph::later(a, c), b),
{
    match (a, b, c) {
        (Some(x), Some(y), Some(z)) => {
            lemma_text_order(x, y, z);
        },
        (None, Some(y), Some(z)) => {
            text::lemma_text_lt_total(y, z);
        },
        _ => {},
    }
}

proof fn lemma_text_order(x: Seq<char>, y: Seq<char>, z: Seq<char>)
    ensures
        graph::earlier(graph::earlier(Some(x), Some(y)), Some(z)) == graph::earlier(
            graph::earlier(Some(x), Some(z)),
            Some(y),
        ),
        graph::later(graph::later(Some(x), Some(y)), Some(z)) == graph::later(
            graph::later(Some(x), Some(z)),
            Some(y),
        ),
{
    text::lemma_text_lt_total(x, y);
    text::lemma_text_lt_total(y, z);
    text::lemma_text_lt_total(x, z);
    if text::text_lt(x, y) && text::text_lt(y, z) {
        text::lemma_text_lt_transitive(x, y, z);
    }
    if text::text_lt(x, z) && text::text_lt(z, y) {
        text::lemma_text_lt_transitive(x, z, y);
    }
    if text::text_lt(y, x) && text::text_lt(x, z) {
        text::lemma_text_lt_transitive(y, x, z);
    }
    if text::text_lt(y, z) && text::text_lt(z, x) {
        text::lemma_text_lt_transitive(y, z, x);
    }
    if text::text_lt(z, x) && text::text_lt(x, y) {
        text::lemma_text_lt_transitive(z, x, y);
    }
    if text::text_lt(z, y) && text::text_lt(y, x) {
        text::lemma_text_lt_transitive(z, y, x);
    }
}

proof fn lemma_history_commutes(
    h: CaravanHistoryView,
    a: PullRequestSnapshotView,
    b: PullRequestSnapshotView,
)
    ensures
        history_with(history_with(h, a), b) == history_with(history_with(h, b), a),
{
    lemma_earlier_commutes(h.earliest_merged_at, a.merged_at, b.merged_at);
    lemma_earlier_commutes(h.latest_merged_at, a.merged_at, b.merged_at);
}

proof fn lemma_history_moves(
    head: Seq<PullRequestSnapshotView>,
    pr: PullRequestSnapshotView,
    tail: Seq<PullRequestSnapshotView>,
)
    ensures
        graph::history_of(head.push(pr) + tail) == history_with(
            graph::history_of(head + tail),
            pr,
        ),
    decreases tail.len(),
{
    if tail.len() == 0 {
        assert(head.push(pr) + tail =~= head.push(pr));
        assert(head.push(pr).drop_last() =~= head);
        assert(head + tail =~= head);
    } else {
        let rest = tail.drop_last();
        let last = tail.last();
        lemma_history_moves(head, pr, rest);
        assert((head.push(pr) + tail).drop_last() =~= head.push(pr) + rest);
        assert((head + tail).drop_last() =~= head + rest);
        assert((head + tail).last() == last);
        assert((head.push(pr) + tail).last() == last);
        lemma_history_commutes(graph::history_of(head + rest), pr, last);
    }
}

/// The history of rows with distinct numbers is that of their index.
proof fn lemma_history_of_index(prs: Seq<PullRequestSnapshotView>)
    requires
        distinct_numbers(prs),
    ensures
        graph::history_of(rows::indexed(prs)) == graph::history_of(prs),
    decreases prs.len(),
{
    if prs.len() > 0 {
        let before = prs.drop_last();
        let last = prs.last();
        lemma_last_is_new(prs);
        lemma_history_of_index(before);
        rows::lemma_indexed(before);
        let index = rows::indexed(before);
        let at = rows::row_position(index, last.number);
        rows::lemma_row_position(index, last.number);
        assert(rows::has_row(index, last.number) <==> rows::has_row(before, last.number));
        if at < index.len() && index[at].number == last.number {
            assert(rows::has_row(index, last.number));
        }
        assert(rows::indexed(prs) == index.take(at).push(last) + index.skip(at));
        lemma_history_moves(index.take(at), last, index.skip(at));
        assert(index.take(at) + index.skip(at) =~= index);
    }
}

// ---------------------------------------------------------------------------
// The derivation
// ---------------------------------------------------------------------------

/// Deriving does not depend on the order of distinct rows: two snapshots of one
/// repository and default branch that hold the same rows, none of them twice,
/// give the same analysis.
pub proof fn lemma_order_of_rows_is_free(
    one: RepositorySnapshotView,
    other: RepositorySnapshotView,
    actor: HeadMergeActor,
)
    requires
        one.repository == other.repository,
        one.default_branch == other.default_branch,
        distinct_numbers(one.pull_requests),
        distinct_numbers(other.pull_requests),
        same_rows(one.pull_requests, other.pull_requests),
    ensures
        graph::derived(one, actor) == graph::derived(other, actor),
{
    let a = one.pull_requests;
    let b = other.pull_requests;
    lemma_index_holds(a);
    lemma_index_holds(b);
    rows::lemma_indexed(a);
    rows::lemma_indexed(b);
    assert forall|x: PullRequestSnapshotView| #[trigger] rows::indexed(a).contains(x)
        <==> rows::indexed(b).contains(x) by {
        assert(rows::indexed(a).contains(x) <==> a.contains(x));
        assert(a.contains(x) <==> b.contains(x));
        assert(rows::indexed(b).contains(x) <==> b.contains(x));
    }
    lemma_sorted_rows_are_equal(rows::indexed(a), rows::indexed(b));
    lemma_history_of_index(a);
    lemma_history_of_index(b);
    lemma_none_repeated(a);
    lemma_none_repeated(b);
    assert(graph::topology_of(one) == graph::topology_of(other));
    assert(graph::problems_of(one, actor) == graph::problems_of(other, actor));
}

} // verus!
