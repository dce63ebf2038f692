//! What holds of every derived fleet.

use vstd::prelude::*;
use crate::graph;
use crate::graph::chains::{LinksView, WalksView};
use crate::graph::rows;
use crate::graph::tasks;
use crate::model::{CaravanView, PrNumber, PullRequestSnapshotView, RepositorySnapshotView};

verus! {

/// Successors are members.
proof fn lemma_kids_are_members(g: LinksView, parent: PrNumber, k: nat)
    requires
        k <= g.numbers.len(),
    ensures
        forall|x: PrNumber| #[trigger] g.kids_among(parent, k).contains(x) ==> g.numbers.contains(
            x,
        ),
    decreases k,
{
    if k > 0 {
        lemma_kids_are_members(g, parent, (k - 1) as nat);
        let before = g.kids_among(parent, (k - 1) as nat);
        let out = g.kids_among(parent, k);
        assert forall|x: PrNumber| #[trigger] out.contains(x) implies g.numbers.contains(x) by {
            let i = choose|i: int| 0 <= i < out.len() && out[i] == x;
            if i < before.len() {
                assert(before[i] == x);
                assert(before.contains(x));
            } else {
                assert(g.numbers[k - 1] == x);
            }
        }
    }
}

/// Whether chains are made of distinct members, and the visited members are
/// exactly those of the chains after some earlier ones.
pub open spec fn walks_ok(g: LinksView, earlier: Seq<PrNumber>, w: WalksView) -> bool {
    &&& w.visited == earlier + flat(w.chains)
    &&& w.visited.no_duplicates()
    &&& forall|x: PrNumber| #[trigger] w.visited.contains(x) ==> g.numbers.contains(x)
    &&& forall|i: int| 0 <= i < w.chains.len() ==> (#[trigger] w.chains[i]).len() > 0
}

/// The members of chains, one chain after the other.
pub open spec fn flat(chains: Seq<Seq<PrNumber>>) -> Seq<PrNumber>
    decreases chains.len(),
{
    if chains.len() == 0 {
        Seq::empty()
    } else {
        flat(chains.drop_last()) + chains.last()
    }
}

/// A walk from an unvisited member starts there, visits members only, and
/// visits nothing twice.
proof fn lemma_walk(g: LinksView, visited: Seq<PrNumber>, current: PrNumber, fuel: nat)
    requires
        g.numbers.contains(current),
        visited.no_duplicates(),
        forall|x: PrNumber| #[trigger] visited.contains(x) ==> g.numbers.contains(x),
    ensures
        (visited + g.walk(visited, current, fuel)).no_duplicates(),
        forall|x: PrNumber| #[trigger]
            (visited + g.walk(visited, current, fuel)).contains(x) ==> g.numbers.contains(x),
        fuel > 0 && !visited.contains(current) ==> g.walk(visited, current, fuel).len() > 0
            && g.walk(visited, current, fuel)[0] == current,
    decreases fuel,
{
    let chain = g.walk(visited, current, fuel);
    if fuel == 0 || visited.contains(current) {
        assert(visited + chain =~= visited);
    } else {
        let next = visited.push(current);
        assert(next.no_duplicates());
        assert forall|x: PrNumber| #[trigger] next.contains(x) implies g.numbers.contains(x) by {
            let i = choose|i: int| 0 <= i < next.len() && next[i] == x;
            if i < visited.len() {
                assert(visited[i] == x);
                assert(visited.contains(x));
            }
        }
        if g.kids(current).len() == 1 {
            let kid = g.kids(current)[0];
            lemma_kids_are_members(g, current, g.numbers.len());
            assert(g.kids(current).contains(kid));
            lemma_walk(g, next, kid, (fuel - 1) as nat);
            let tail = g.walk(next, kid, (fuel - 1) as nat);
            assert(visited + chain =~= next + tail);
        } else {
            assert(visited + chain =~= next);
        }
    }
}

proof fn lemma_flat_push(chains: Seq<Seq<PrNumber>>, chain: Seq<PrNumber>)
    ensures
        flat(chains.push(chain)) == flat(chains) + chain,
{
    assert(chains.push(chain).drop_last() =~= chains);
}

proof fn lemma_walk_from(g: LinksView, earlier: Seq<PrNumber>, before: WalksView, start: PrNumber)
    requires
        g.numbers.contains(start),
        walks_ok(g, earlier, before),
    ensures
        walks_ok(g, earlier, g.walk_from(before, start)),
        g.walk_from(before, start).visited.contains(start),
        forall|x: PrNumber| #[trigger]
            before.visited.contains(x) ==> g.walk_from(before, start).visited.contains(x),
{
    let after = g.walk_from(before, start);
    if !before.visited.contains(start) {
        assert(g.numbers.len() > 0);
        lemma_walk(g, before.visited, start, g.numbers.len());
        let chain = g.walk(before.visited, start, g.numbers.len());
        lemma_flat_push(before.chains, chain);
        assert(after.visited =~= earlier + flat(after.chains));
        assert(after.visited[before.visited.len() as int] == start);
        assert forall|x: PrNumber| #[trigger] before.visited.contains(x) implies after.visited.contains(
            x,
        ) by {
            let i = choose|i: int| 0 <= i < before.visited.len() && before.visited[i] == x;
            assert(after.visited[i] == x);
        }
    }
}

proof fn lemma_root_walks(g: LinksView, k: nat)
    requires
        k <= g.numbers.len(),
    ensures
        walks_ok(g, Seq::empty(), g.root_walks(k)),
    decreases k,
{
    if k > 0 {
        lemma_root_walks(g, (k - 1) as nat);
        assert(g.numbers.contains(g.numbers[k - 1]));
        lemma_walk_from(
            g,
            Seq::empty(),
            g.root_walks((k - 1) as nat),
            g.numbers[k - 1],
        );
    } else {
        assert(g.root_walks(0).visited =~= Seq::<PrNumber>::empty() + flat(
            g.root_walks(0).chains,
        ));
    }
}

proof fn lemma_rest_walks(g: LinksView, k: nat)
    requires
        k <= g.numbers.len(),
    ensures
        walks_ok(g, g.root_walks(g.numbers.len()).visited, g.rest_walks(k)),
        forall|i: int| 0 <= i < k ==> g.rest_walks(k).visited.contains(#[trigger] g.numbers[i]),
    decreases k,
{
    let roots = g.root_walks(g.numbers.len());
    if k > 0 {
        let before = g.rest_walks((k - 1) as nat);
        lemma_rest_walks(g, (k - 1) as nat);
        assert(g.numbers.contains(g.numbers[k - 1]));
        lemma_walk_from(g, roots.visited, before, g.numbers[k - 1]);
        assert forall|i: int| 0 <= i < k implies g.rest_walks(k).visited.contains(
            #[trigger] g.numbers[i],
        ) by {
            if i < k - 1 {
                assert(before.visited.contains(g.numbers[i]));
            }
        }
    } else {
        lemma_root_walks(g, g.numbers.len());
        assert(g.rest_walks(0).visited =~= roots.visited + flat(g.rest_walks(0).chains));
    }
}

proof fn lemma_flat_add(a: Seq<Seq<PrNumber>>, b: Seq<Seq<PrNumber>>)
    ensures
        flat(a + b) == flat(a) + flat(b),
    decreases b.len(),
{
    if b.len() == 0 {
        assert(a + b =~= a);
        assert(flat(a) + flat(b) =~= flat(a));
    } else {
        lemma_flat_add(a, b.drop_last());
        assert((a + b).drop_last() =~= a + b.drop_last());
        assert(flat(a + b) =~= flat(a) + flat(b));
    }
}

/// The chains of a snapshot partition its active members: no chain is empty,
/// and one after the other they hold every active member exactly once.
pub proof fn lemma_chains_partition(snapshot: RepositorySnapshotView)
    ensures
        flat(graph::chains_of(snapshot)).no_duplicates(),
        forall|x: PrNumber| #[trigger]
            flat(graph::chains_of(snapshot)).contains(x) <==> graph::links_of(
                snapshot,
            ).numbers.contains(x),
        forall|i: int|
            0 <= i < graph::chains_of(snapshot).len() ==> (#[trigger] graph::chains_of(
                snapshot,
            )[i]).len() > 0,
{
    let g = graph::links_of(snapshot);
    let roots = g.root_walks(g.numbers.len());
    let rest = g.rest_walks(g.numbers.len());
    lemma_root_walks(g, g.numbers.len());
    lemma_rest_walks(g, g.numbers.len());
    lemma_flat_add(roots.chains, rest.chains);
    let whole = flat(graph::chains_of(snapshot));
    assert(roots.visited =~= flat(roots.chains));
    assert(whole =~= rest.visited);
    assert forall|x: PrNumber| #[trigger] whole.contains(x) <==> g.numbers.contains(x) by {
        if g.numbers.contains(x) {
            let i = choose|i: int| 0 <= i < g.numbers.len() && g.numbers[i] == x;
            assert(rest.visited.contains(g.numbers[i]));
        }
    }
}

/// The position at which a caravan is inserted.
proof fn lemma_caravan_insert(sorted: Seq<CaravanView>, caravan: CaravanView) -> (at: int)
    ensures
        0 <= at <= sorted.len(),
        graph::caravan_insert(sorted, caravan) == sorted.take(at).push(caravan) + sorted.skip(at),
        at > 0 ==> sorted[at - 1].id.0 <= caravan.id.0,
        forall|i: int| at <= i < sorted.len() ==> sorted[i].id.0 > caravan.id.0,
    decreases sorted.len(),
{
    if sorted.len() == 0 || sorted.last().id.0 <= caravan.id.0 {
        assert(sorted.take(sorted.len() as int).push(caravan) + sorted.skip(sorted.len() as int)
            =~= sorted.push(caravan));
        sorted.len() as int
    } else {
        let before = sorted.drop_last();
        let at = lemma_caravan_insert(before, caravan);
        assert(graph::caravan_insert(sorted, caravan) =~= sorted.take(at).push(caravan)
            + sorted.skip(at)) by {
            assert(before.take(at) =~= sorted.take(at));
            assert(before.skip(at).push(sorted.last()) =~= sorted.skip(at));
        }
        assert forall|i: int| at <= i < sorted.len() implies sorted[i].id.0 > caravan.id.0 by {
            if i < before.len() {
                assert(before[i] == sorted[i]);
            }
        }
        at
    }
}

/// Caravans that share no member, each headed by its first member, ordered by
/// head, and made of the members of the given chains.
pub open spec fn caravans_ok(chains: Seq<Seq<PrNumber>>, caravans: Seq<CaravanView>) -> bool {
    &&& forall|i: int|
        0 <= i < caravans.len() ==> (#[trigger] caravans[i]).members.len() > 0 && caravans[i].id
            == caravans[i].members[0] && caravans[i].members.no_duplicates()
    &&& forall|i: int, j: int|
        0 <= i < j < caravans.len() ==> (
            #[trigger] caravans[i]
        ).id.0 < (#[trigger] caravans[j]).id.0
    &&& forall|i: int, j: int, x: PrNumber|
        0 <= i < caravans.len() && 0 <= j < caravans.len() && #[trigger] caravans[i].members.contains(
            x,
        ) && #[trigger] caravans[j].members.contains(x) ==> i == j
    &&& forall|x: PrNumber| #[trigger]
        flat(chains).contains(x) <==> in_some_caravan(caravans, x)
}

/// Whether some caravan holds a member.
pub open spec fn in_some_caravan(caravans: Seq<CaravanView>, x: PrNumber) -> bool {
    exists|i: int| 0 <= i < caravans.len() && (#[trigger] caravans[i]).members.contains(x)
}

proof fn lemma_chain_caravans(
    active: Seq<PullRequestSnapshotView>,
    chains: Seq<Seq<PrNumber>>,
)
    requires
        flat(chains).no_duplicates(),
        forall|i: int| 0 <= i < chains.len() ==> (#[trigger] chains[i]).len() > 0,
    ensures
        caravans_ok(chains, graph::chain_caravans(active, chains)),
    decreases chains.len(),
{
    let out = graph::chain_caravans(active, chains);
    if chains.len() == 0 {
        assert forall|x: PrNumber| #[trigger] flat(chains).contains(x) <==> in_some_caravan(
            out,
            x,
        ) by {}
    } else {
        let before_chains = chains.drop_last();
        let chain = chains.last();
        let whole = flat(chains);
        let head = flat(before_chains);
        assert(whole =~= head + chain);
        assert(head.no_duplicates()) by {
            assert forall|i: int, j: int| 0 <= i < head.len() && 0 <= j < head.len() && i
                != j implies head[i] != head[j] by {
                assert(whole[i] == head[i]);
                assert(whole[j] == head[j]);
            }
        }
        assert forall|i: int| 0 <= i < before_chains.len() implies (
        #[trigger] before_chains[i]).len() > 0 by {
            assert(chains[i] == before_chains[i]);
        }
        lemma_chain_caravans(active, before_chains);
        let before = graph::chain_caravans(active, before_chains);
        assert(chains[chains.len() - 1].len() > 0);
        let item = graph::chain_caravan(active, chain);
        let at = lemma_caravan_insert(before, item);
        assert(out == before.take(at).push(item) + before.skip(at));
        // No member of the new chain stands in an earlier caravan.
        assert forall|i: int, x: PrNumber| 0 <= i < before.len()
            && #[trigger] before[i].members.contains(x) implies !chain.contains(x) by {
            assert(in_some_caravan(before, x));
            assert(head.contains(x));
            if chain.contains(x) {
                let a = choose|a: int| 0 <= a < head.len() && head[a] == x;
                let b = choose|b: int| 0 <= b < chain.len() && chain[b] == x;
                assert(whole[a] == x);
                assert(whole[head.len() + b] == x);
            }
        }
        assert(chain.no_duplicates()) by {
            assert forall|i: int, j: int| 0 <= i < chain.len() && 0 <= j < chain.len() && i
                != j implies chain[i] != chain[j] by {
                assert(whole[head.len() + i] == chain[i]);
                assert(whole[head.len() + j] == chain[j]);
            }
        }
        assert(out[at] == item);
        assert forall|i: int| 0 <= i < out.len() && i != at implies #[trigger] out[i] == (if i < at {
            before[i]
        } else {
            before[i - 1]
        }) by {}
        assert forall|i: int| 0 <= i < out.len() implies (#[trigger] out[i]).members.len() > 0
            && out[i].id == out[i].members[0] && out[i].members.no_duplicates() by {
            if i < at {
                assert(out[i] == before[i]);
            } else if i > at {
                assert(out[i] == before[i - 1]);
            }
        }
        // Heads differ, so the order is strict.
        assert forall|i: int| 0 <= i < before.len() implies (#[trigger] before[i]).id.0
            != item.id.0 by {
            assert(before[i].members[0] == before[i].id);
            assert(before[i].members.contains(before[i].id));
            assert(chain.contains(chain[0]));
        }
        assert forall|i: int, j: int| 0 <= i < j < out.len() implies (#[trigger] out[i]).id.0 < (
        #[trigger] out[j]).id.0 by {
            if j == at {
                assert(out[i] == before[i]);
                if i < at - 1 {
                    assert(before[i].id.0 < before[at - 1].id.0);
                }
            } else if i == at {
                assert(out[j] == before[j - 1]);
            } else {
                let a = if i < at { i } else { i - 1 };
                let b = if j < at { j } else { j - 1 };
                assert(out[i] == before[a]);
                assert(out[j] == before[b]);
            }
        }
        assert forall|i: int, j: int, x: PrNumber|
            0 <= i < out.len() && 0 <= j < out.len() && #[trigger] out[i].members.contains(x)
                && #[trigger] out[j].members.contains(x) implies i == j by {
            let a = if i < at { i } else { i - 1 };
            let b = if j < at { j } else { j - 1 };
            if i != at {
                assert(out[i] == before[a]);
                assert(before[a].members.contains(x));
            }
            if j != at {
                assert(out[j] == before[b]);
                assert(before[b].members.contains(x));
            }
        }
        assert forall|x: PrNumber| #[trigger] whole.contains(x) <==> in_some_caravan(out, x) by {
            assert(head.contains(x) <==> in_some_caravan(before, x));
            if whole.contains(x) {
                let a = choose|a: int| 0 <= a < whole.len() && whole[a] == x;
                if a < head.len() {
                    assert(head[a] == x);
                    let i = choose|i: int|
                        0 <= i < before.len() && (#[trigger] before[i]).members.contains(x);
                    if i < at {
                        assert(out[i].members.contains(x));
                    } else {
                        assert(out[i + 1] == before[i]);
                        assert(out[i + 1].members.contains(x));
                    }
                } else {
                    assert(chain[a - head.len()] == x);
                    assert(out[at].members.contains(x));
                }
            }
            if in_some_caravan(out, x) {
                let i = choose|i: int|
                    0 <= i < out.len() && (#[trigger] out[i]).members.contains(x);
                if i == at {
                    let b = choose|b: int| 0 <= b < chain.len() && chain[b] == x;
                    assert(whole[head.len() + b] == x);
                } else {
                    let a = if i < at { i } else { i - 1 };
                    assert(before[a].members.contains(x));
                    assert(head.contains(x));
                    let b = choose|b: int| 0 <= b < head.len() && head[b] == x;
                    assert(whole[b] == x);
                }
            }
        }
    }
}

/// The caravans of a snapshot partition its active members. No two share a
/// member, every active member stands in one, no member stands twice, each
/// caravan is named by its first member, and the caravans are ordered by it.
pub proof fn lemma_caravans_partition(snapshot: RepositorySnapshotView)
    ensures
        caravans_ok(graph::chains_of(snapshot), graph::caravans_of(snapshot)),
        forall|x: PrNumber| #[trigger]
            in_some_caravan(graph::caravans_of(snapshot), x) <==> graph::links_of(
                snapshot,
            ).numbers.contains(x),
{
    lemma_chains_partition(snapshot);
    lemma_chain_caravans(graph::topology_of(snapshot).active, graph::chains_of(snapshot));
    assert forall|x: PrNumber| #[trigger]
        in_some_caravan(graph::caravans_of(snapshot), x) <==> graph::links_of(
            snapshot,
        ).numbers.contains(x) by {
        assert(flat(graph::chains_of(snapshot)).contains(x) <==> in_some_caravan(
            graph::caravans_of(snapshot),
            x,
        ));
    }
}

/// Every member of a derived caravan has a row that is an active member.
pub proof fn lemma_members_are_active(snapshot: RepositorySnapshotView, x: PrNumber)
    requires
        in_some_caravan(graph::caravans_of(snapshot), x),
    ensures
        exists|pr: PullRequestSnapshotView|
            graph::topology_of(snapshot).rows.contains(pr) && pr.number == x
                && #[trigger] pr.is_active_caravan_member(),
        rows::row_of(graph::topology_of(snapshot).rows, x) is Some,
{
    let t = graph::topology_of(snapshot);
    lemma_caravans_partition(snapshot);
    rows::lemma_indexed(snapshot.pull_requests);
    rows::lemma_active_rows(t.rows);
    let i = choose|i: int| 0 <= i < t.numbers().len() && t.numbers()[i] == x;
    let pr = t.active[i];
    assert(t.active.contains(pr));
    assert(pr.number == x && pr.is_active_caravan_member() && t.rows.contains(pr));
    let k = choose|k: int| 0 <= k < t.rows.len() && t.rows[k] == pr;
    assert(t.rows[k].number == x);
    rows::lemma_row_of(t.rows, x);
}

/// Every member of a derived caravan has a row.
pub proof fn lemma_members_have_rows(snapshot: RepositorySnapshotView)
    ensures
        tasks::members_have_rows(
            graph::caravans_of(snapshot),
            graph::topology_of(snapshot).rows,
        ),
{
    let caravans = graph::caravans_of(snapshot);
    let all = graph::topology_of(snapshot).rows;
    assert forall|i: int, j: int|
        0 <= i < caravans.len() && 0 <= j < caravans[i].members.len() implies rows::row_of(
        all,
        #[trigger] caravans[i].members[j],
    ) is Some by {
        assert(caravans[i].members.contains(caravans[i].members[j]));
        assert(in_some_caravan(caravans, caravans[i].members[j]));
        lemma_members_are_active(snapshot, caravans[i].members[j]);
    }
}

} // verus!
