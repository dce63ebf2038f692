//! Chains and cycles of the predecessor relation: successors, branching,
//! cycles, and the walk that follows sole successors.

use vstd::prelude::*;
use vstd::string::*;
use crate::model;
use crate::model::{
    append_items, dup_range, holds_item, push_item, GraphProblem, GraphProblemKind,
    GraphProblemView, Model, PrNumber,
};

verus! {

/// Members by number with the predecessor of each.
pub struct Links {
    pub numbers: Vec<PrNumber>,
    pub parents: Vec<Option<PrNumber>>,
}

/// The content of [`Links`].
#[verifier::ext_equal]
pub struct LinksView {
    pub numbers: Seq<PrNumber>,
    pub parents: Seq<Option<PrNumber>>,
}

impl DeepView for Links {
    type V = LinksView;

    open spec fn deep_view(&self) -> LinksView {
        LinksView { numbers: self.numbers@, parents: self.parents@ }
    }
}

impl LinksView {
    /// One predecessor entry for each member.
    pub open spec fn aligned(self) -> bool {
        self.numbers.len() == self.parents.len()
    }

    /// The successors of a member among the first members.
    pub open spec fn kids_among(self, parent: PrNumber, k: nat) -> Seq<PrNumber>
        decreases k,
    {
        if k == 0 {
            Seq::empty()
        } else if self.parents[k - 1] == Some(parent) {
            self.kids_among(parent, (k - 1) as nat).push(self.numbers[k - 1])
        } else {
            self.kids_among(parent, (k - 1) as nat)
        }
    }

    /// The successors of a member.
    pub open spec fn kids(self, parent: PrNumber) -> Seq<PrNumber> {
        self.kids_among(parent, self.numbers.len())
    }

    /// The predecessor of a member among the first members.
    pub open spec fn parent_among(self, number: PrNumber, k: nat) -> Option<PrNumber>
        decreases k,
    {
        if k == 0 {
            None
        } else if self.numbers[k - 1] == number {
            self.parents[k - 1]
        } else {
            self.parent_among(number, (k - 1) as nat)
        }
    }

    /// The predecessor of a member.
    pub open spec fn parent(self, number: PrNumber) -> Option<PrNumber> {
        self.parent_among(number, self.numbers.len())
    }

    pub open spec fn branching_problem(self, parent: PrNumber) -> GraphProblemView {
        GraphProblemView {
            kind: GraphProblemKind::Branching,
            prs: seq![parent] + self.kids(parent),
            message: "PR #"@ + model::pr_text(parent) + " has multiple active caravan children"@,
        }
    }

    /// One problem for each of the first members with several successors.
    pub open spec fn branching_problems(self, k: nat) -> Seq<GraphProblemView>
        decreases k,
    {
        if k == 0 {
            Seq::empty()
        } else if self.kids(self.numbers[k - 1]).len() > 1 {
            self.branching_problems((k - 1) as nat).push(
                self.branching_problem(self.numbers[k - 1]),
            )
        } else {
            self.branching_problems((k - 1) as nat)
        }
    }

    /// The cycle that climbing from a member runs into: `path` holds the
    /// members already climbed, `fuel` bounds how many may follow.
    pub open spec fn climb(
        self,
        path: Seq<PrNumber>,
        current: PrNumber,
        fuel: nat,
    ) -> Option<Seq<PrNumber>>
        decreases fuel,
    {
        if path.contains(current) {
            Some(path.skip(first_index(path, current)))
        } else {
            match self.parent(current) {
                Some(above) => if fuel == 0 {
                    None
                } else {
                    self.climb(path.push(current), above, (fuel - 1) as nat)
                },
                None => None,
            }
        }
    }

    /// The cycles that climbing from the first members runs into, each as an
    /// ordered list, each once.
    pub open spec fn cycles(self, k: nat) -> Seq<Seq<PrNumber>>
        decreases k,
    {
        if k == 0 {
            Seq::empty()
        } else {
            let before = self.cycles((k - 1) as nat);
            match self.climb(Seq::empty(), self.numbers[k - 1], self.numbers.len()) {
                Some(cycle) => if before.contains(number_sort(cycle)) {
                    before
                } else {
                    before.push(number_sort(cycle))
                },
                None => before,
            }
        }
    }

    pub open spec fn cycle_problems(self) -> Seq<GraphProblemView> {
        let cycles = self.cycles(self.numbers.len());
        Seq::new(cycles.len(), |i: int| cycle_problem(cycles[i]))
    }

    /// The chain from a member through sole successors, up to a member that
    /// was visited before; `fuel` bounds its length.
    pub open spec fn walk(self, visited: Seq<PrNumber>, current: PrNumber, fuel: nat) -> Seq<
        PrNumber,
    >
        decreases fuel,
    {
        if fuel == 0 || visited.contains(current) {
            Seq::empty()
        } else if self.kids(current).len() == 1 {
            seq![current] + self.walk(
                visited.push(current),
                self.kids(current)[0],
                (fuel - 1) as nat,
            )
        } else {
            seq![current]
        }
    }

    /// The members visited and the chains found after walking from the first
    /// members that have no predecessor.
    pub open spec fn root_walks(self, k: nat) -> WalksView
        decreases k,
    {
        if k == 0 {
            WalksView { visited: Seq::empty(), chains: Seq::empty() }
        } else {
            let before = self.root_walks((k - 1) as nat);
            if self.parents[k - 1] is None {
                self.walk_from(before, self.numbers[k - 1])
            } else {
                before
            }
        }
    }

    /// The members visited and the chains found after then walking from the
    /// first members, whatever their predecessor.
    pub open spec fn rest_walks(self, k: nat) -> WalksView
        decreases k,
    {
        if k == 0 {
            WalksView { visited: self.root_walks(self.numbers.len()).visited, chains: Seq::empty() }
        } else {
            self.walk_from(self.rest_walks((k - 1) as nat), self.numbers[k - 1])
        }
    }

    /// One more walk, unless its start was visited.
    pub open spec fn walk_from(self, before: WalksView, start: PrNumber) -> WalksView {
        if before.visited.contains(start) {
            before
        } else {
            let chain = self.walk(before.visited, start, self.numbers.len());
            WalksView { visited: before.visited + chain, chains: before.chains.push(chain) }
        }
    }
}

/// Members visited so far, and the chains they make up.
#[verifier::ext_equal]
pub struct WalksView {
    pub visited: Seq<PrNumber>,
    pub chains: Seq<Seq<PrNumber>>,
}

pub open spec fn cycle_problem(cycle: Seq<PrNumber>) -> GraphProblemView {
    GraphProblemView {
        kind: GraphProblemKind::Cycle,
        prs: cycle,
        message: "active caravan base graph contains a cycle"@,
    }
}

/// A list with one more number before the first that is not smaller.
pub open spec fn number_insert(sorted: Seq<PrNumber>, number: PrNumber) -> Seq<PrNumber>
    decreases sorted.len(),
{
    if sorted.len() == 0 || sorted.last().0 < number.0 {
        sorted.push(number)
    } else {
        number_insert(sorted.drop_last(), number).push(sorted.last())
    }
}

/// The numbers of a list in increasing order.
pub open spec fn number_sort(numbers: Seq<PrNumber>) -> Seq<PrNumber>
    decreases numbers.len(),
{
    if numbers.len() == 0 {
        Seq::empty()
    } else {
        number_insert(number_sort(numbers.drop_last()), numbers.last())
    }
}

fn insert_number(sorted: Vec<PrNumber>, number: PrNumber) -> (r: Vec<PrNumber>)
    ensures
        r@ == number_insert(sorted@, number),
{
    let ghost all = sorted@;
    let mut rest = sorted;
    let mut moved: Vec<PrNumber> = Vec::new();
    while rest.len() > 0 && rest[rest.len() - 1].0 >= number.0
        invariant
            number_insert(all, number) =~= number_insert(rest@, number) + moved@.reverse(),
        decreases rest.len(),
    {
        let ghost before = rest@;
        let ghost tail = moved@;
        let last = rest.pop().unwrap();
        moved.push(last);
        assert(moved@.reverse() =~= seq![last] + tail.reverse());
        assert(before.drop_last() =~= rest@);
        assert(number_insert(before, number) == number_insert(rest@, number).push(last));
    }
    rest.push(number);
    while moved.len() > 0
        invariant
            number_insert(all, number) =~= rest@ + moved@.reverse(),
        decreases moved.len(),
    {
        let ghost tail = moved@;
        let next = moved.pop().unwrap();
        assert(tail.reverse() =~= seq![next] + moved@.reverse());
        rest.push(next);
    }
    assert(rest@ =~= number_insert(all, number));
    rest
}

pub fn sort_numbers(numbers: &Vec<PrNumber>) -> (r: Vec<PrNumber>)
    ensures
        r@ == number_sort(numbers@),
{
    let mut out: Vec<PrNumber> = Vec::new();
    let mut i: usize = 0;
    while i < numbers.len()
        invariant
            i <= numbers.len(),
            out@ == number_sort(numbers@.take(i as int)),
        decreases numbers.len() - i,
    {
        assert(numbers@.take(i as int + 1).drop_last() =~= numbers@.take(i as int));
        out = insert_number(out, numbers[i]);
        i = i + 1;
    }
    assert(numbers@.take(i as int) =~= numbers@);
    out
}

/// The content of a list of numbers is the list.
pub proof fn lemma_numbers_view(numbers: Vec<PrNumber>)
    ensures
        numbers.deep_view() == numbers@,
{
    assert(numbers.deep_view() =~= numbers@);
}

impl Links {
    pub fn successors(&self, parent: PrNumber) -> (r: Vec<PrNumber>)
        requires
            self.deep_view().aligned(),
        ensures
            r@ == self.deep_view().kids(parent),
    {
        let ghost g = self.deep_view();
        let mut out: Vec<PrNumber> = Vec::new();
        assert(out@ =~= g.kids_among(parent, 0));
        let mut i: usize = 0;
        while i < self.numbers.len()
            invariant
                g == self.deep_view(),
                g.aligned(),
                i <= self.numbers.len(),
                out@ == g.kids_among(parent, i as nat),
            decreases self.numbers.len() - i,
        {
            match self.parents[i] {
                Some(above) => {
                    if above == parent {
                        out.push(self.numbers[i]);
                    }
                },
                None => {},
            }
            i = i + 1;
        }
        out
    }

    pub fn predecessor(&self, number: PrNumber) -> (r: Option<PrNumber>)
        requires
            self.deep_view().aligned(),
        ensures
            r == self.deep_view().parent(number),
    {
        let ghost g = self.deep_view();
        let mut i: usize = self.numbers.len();
        while i > 0
            invariant
                g == self.deep_view(),
                g.aligned(),
                i <= self.numbers.len(),
                g.parent(number) == g.parent_among(number, i as nat),
            decreases i,
        {
            if self.numbers[i - 1] == number {
                return self.parents[i - 1];
            }
            i = i - 1;
        }
        None
    }

    /// One problem for each member with several successors.
    pub fn find_branching(&self) -> (r: Vec<GraphProblem>)
        requires
            self.deep_view().aligned(),
        ensures
            r.deep_view() == self.deep_view().branching_problems(self.deep_view().numbers.len()),
    {
        let ghost g = self.deep_view();
        let mut problems: Vec<GraphProblem> = Vec::new();
        assert(problems.deep_view() =~= g.branching_problems(0));
        let mut i: usize = 0;
        while i < self.numbers.len()
            invariant
                g == self.deep_view(),
                g.aligned(),
                i <= self.numbers.len(),
                problems.deep_view() == g.branching_problems(i as nat),
            decreases self.numbers.len() - i,
        {
            let parent = self.numbers[i];
            let kids = self.successors(parent);
            if kids.len() > 1 {
                let mut prs = vec![parent];
                proof {
                    lemma_numbers_view(prs);
                    lemma_numbers_view(kids);
                }
                append_items(&mut prs, kids);
                assert(prs.deep_view() =~= seq![parent] + g.kids(parent));
                let message = "PR #".to_owned().concat(parent.to_text().as_str()).concat(
                    " has multiple active caravan children",
                );
                push_item(
                    &mut problems,
                    GraphProblem { kind: GraphProblemKind::Branching, prs, message },
                );
            }
            i = i + 1;
        }
        problems
    }

    /// The cycle that climbing from a member runs into.
    fn find_cycle(&self, start: PrNumber) -> (r: Option<Vec<PrNumber>>)
        requires
            self.deep_view().aligned(),
        ensures
            match r {
                Some(cycle) => self.deep_view().climb(
                    Seq::empty(),
                    start,
                    self.deep_view().numbers.len(),
                ) == Some(cycle@),
                None => self.deep_view().climb(
                    Seq::empty(),
                    start,
                    self.deep_view().numbers.len(),
                ) is None,
            },
    {
        let ghost g = self.deep_view();
        let mut path: Vec<PrNumber> = Vec::new();
        let mut current = start;
        let mut fuel: usize = self.numbers.len();
        let ghost whole = g.climb(Seq::empty(), start, g.numbers.len());
        assert(path@ =~= Seq::empty());
        loop
            invariant
                g == self.deep_view(),
                g.aligned(),
                whole == g.climb(Seq::empty(), start, g.numbers.len()),
                whole == g.climb(path@, current, fuel as nat),
            decreases fuel,
        {
            match position(&path, current) {
                Some(at) => {
                    let cycle = dup_range(&path, at, path.len());
                    proof {
                        lemma_numbers_view(cycle);
                        lemma_numbers_view(path);
                        assert(path@.subrange(at as int, path@.len() as int) =~= path@.skip(
                            at as int,
                        ));
                    }
                    return Some(cycle);
                },
                None => {},
            }
            match self.predecessor(current) {
                Some(above) => {
                    if fuel == 0 {
                        return None;
                    }
                    path.push(current);
                    current = above;
                    fuel = fuel - 1;
                },
                None => {
                    return None;
                },
            }
        }
    }

    /// One problem for each cycle.
    pub fn find_cycles(&self) -> (r: Vec<GraphProblem>)
        requires
            self.deep_view().aligned(),
        ensures
            r.deep_view() == self.deep_view().cycle_problems(),
    {
        let ghost g = self.deep_view();
        let mut cycles: Vec<Vec<PrNumber>> = Vec::new();
        let mut problems: Vec<GraphProblem> = Vec::new();
        assert(cycles.deep_view() =~= g.cycles(0));
        let mut i: usize = 0;
        while i < self.numbers.len()
            invariant
                g == self.deep_view(),
                g.aligned(),
                i <= self.numbers.len(),
                cycles.deep_view() == g.cycles(i as nat),
                problems.deep_view() == Seq::new(
                    g.cycles(i as nat).len(),
                    |j: int| cycle_problem(g.cycles(i as nat)[j]),
                ),
            decreases self.numbers.len() - i,
        {
            match self.find_cycle(self.numbers[i]) {
                Some(found) => {
                    let cycle = sort_numbers(&found);
                    proof {
                        lemma_numbers_view(cycle);
                    }
                    if !holds_item(&cycles, &cycle) {
                        push_item(
                            &mut problems,
                            GraphProblem {
                                kind: GraphProblemKind::Cycle,
                                prs: cycle.dup(),
                                message: "active caravan base graph contains a cycle".to_owned(),
                            },
                        );
                        push_item(&mut cycles, cycle);
                    }
                },
                None => {},
            }
            i = i + 1;
            assert(problems.deep_view() =~= Seq::new(
                g.cycles(i as nat).len(),
                |j: int| cycle_problem(g.cycles(i as nat)[j]),
            ));
        }
        assert(problems.deep_view() =~= g.cycle_problems());
        problems
    }

    /// The chain from a member through sole successors, up to a member that
    /// was visited before. The chain is added to the visited members.
    fn walk(&self, start: PrNumber, visited: &mut Vec<PrNumber>) -> (r: Vec<PrNumber>)
        requires
            self.deep_view().aligned(),
        ensures
            r@ == self.deep_view().walk(old(visited)@, start, self.deep_view().numbers.len()),
            final(visited)@ == old(visited)@ + r@,
    {
        let ghost g = self.deep_view();
        let ghost before = visited@;
        let ghost whole = g.walk(before, start, g.numbers.len());
        let mut members: Vec<PrNumber> = Vec::new();
        let mut current = start;
        let mut fuel: usize = self.numbers.len();
        assert(members@ + g.walk(visited@, current, fuel as nat) =~= whole);
        assert(before + members@ =~= visited@);
        while fuel > 0
            invariant_except_break
                g == self.deep_view(),
                g.aligned(),
                visited@ == before + members@,
                members@ + g.walk(visited@, current, fuel as nat) == whole,
            ensures
                visited@ == before + members@,
                members@ == whole,
            decreases fuel,
        {
            proof {
                lemma_numbers_view(*visited);
            }
            if holds_item(visited, &current) {
                assert(members@ =~= whole);
                break;
            }
            let ghost trail = members@;
            let ghost seen = visited@;
            let kids = self.successors(current);
            members.push(current);
            visited.push(current);
            assert(visited@ =~= before + members@);
            if kids.len() != 1 {
                assert(trail + seq![current] =~= members@);
                break;
            }
            let next = kids[0];
            fuel = fuel - 1;
            assert(seen.push(current) =~= visited@);
            assert(trail + (seq![current] + g.walk(visited@, next, fuel as nat)) =~= members@
                + g.walk(visited@, next, fuel as nat));
            current = next;
        }
        assert(members@ =~= whole);
        members
    }

    /// The chains from members without a predecessor, then the chains from
    /// members that no chain has reached.
    pub fn find_chains(&self) -> (r: (Vec<Vec<PrNumber>>, Vec<Vec<PrNumber>>))
        requires
            self.deep_view().aligned(),
        ensures
            r.0.deep_view() == self.deep_view().root_walks(self.deep_view().numbers.len()).chains,
            r.1.deep_view() == self.deep_view().rest_walks(self.deep_view().numbers.len()).chains,
    {
        let ghost g = self.deep_view();
        let mut visited: Vec<PrNumber> = Vec::new();
        let mut roots: Vec<Vec<PrNumber>> = Vec::new();
        assert(visited@ =~= g.root_walks(0).visited);
        assert(roots.deep_view() =~= g.root_walks(0).chains);
        let mut i: usize = 0;
        while i < self.numbers.len()
            invariant
                g == self.deep_view(),
                g.aligned(),
                i <= self.numbers.len(),
                visited@ == g.root_walks(i as nat).visited,
                roots.deep_view() == g.root_walks(i as nat).chains,
            decreases self.numbers.len() - i,
        {
            proof {
                lemma_numbers_view(visited);
            }
            if self.parents[i].is_none() && !holds_item(&visited, &self.numbers[i]) {
                let chain = self.walk(self.numbers[i], &mut visited);
                proof {
                    lemma_numbers_view(chain);
                }
                push_item(&mut roots, chain);
            }
            i = i + 1;
        }
        let mut rest: Vec<Vec<PrNumber>> = Vec::new();
        assert(rest.deep_view() =~= g.rest_walks(0).chains);
        let mut k: usize = 0;
        while k < self.numbers.len()
            invariant
                g == self.deep_view(),
                g.aligned(),
                k <= self.numbers.len(),
                visited@ == g.rest_walks(k as nat).visited,
                rest.deep_view() == g.rest_walks(k as nat).chains,
            decreases self.numbers.len() - k,
        {
            proof {
                lemma_numbers_view(visited);
            }
            if !holds_item(&visited, &self.numbers[k]) {
                let chain = self.walk(self.numbers[k], &mut visited);
                proof {
                    lemma_numbers_view(chain);
                }
                push_item(&mut rest, chain);
            }
            k = k + 1;
        }
        (roots, rest)
    }
}

/// The first position of a number in a list.
pub open spec fn first_index(path: Seq<PrNumber>, number: PrNumber) -> int
    decreases path.len(),
{
    if path.len() == 0 || path[0] == number {
        0
    } else {
        1 + first_index(path.drop_first(), number)
    }
}

proof fn lemma_first_index(path: Seq<PrNumber>, number: PrNumber, at: int)
    requires
        0 <= at < path.len(),
        path[at] == number,
        forall|j: int| 0 <= j < at ==> path[j] != number,
    ensures
        first_index(path, number) == at,
    decreases path.len(),
{
    if at > 0 {
        lemma_first_index(path.drop_first(), number, at - 1);
    }
}

/// The first position of a number in a list.
fn position(path: &Vec<PrNumber>, number: PrNumber) -> (r: Option<usize>)
    ensures
        match r {
            Some(at) => at < path.len() && path@.contains(number) && at == first_index(
                path@,
                number,
            ),
            None => !path@.contains(number),
        },
{
    let mut i: usize = 0;
    while i < path.len()
        invariant
            i <= path.len(),
            forall|j: int| 0 <= j < i ==> path@[j] != number,
        decreases path.len() - i,
    {
        if path[i] == number {
            assert(path@[i as int] == number);
            proof {
                lemma_first_index(path@, number, i as int);
            }
            return Some(i);
        }
        i = i + 1;
    }
    None
}

} // verus!
