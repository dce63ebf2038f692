//! Predecessor links between active rows and the problems of rows that have
//! no unique predecessor.

use vstd::prelude::*;
use vstd::string::*;
use crate::graph::rows;
use crate::graph::rows::{find_last_owner, find_members_on, find_row};
use crate::model;
use crate::model::{
    append_items, push_item, GraphProblem, GraphProblemKind, GraphProblemView, Model, PrNumber,
    PullRequestSnapshot, PullRequestSnapshotView, PullRequestState,
};

verus! {

/// All rows, the active ones among them, and the default branch.
pub struct Topology {
    pub rows: Vec<PullRequestSnapshot>,
    pub active: Vec<PullRequestSnapshot>,
    pub default_name: String,
}

/// The content of a [`Topology`].
#[verifier::ext_equal]
pub struct TopologyView {
    pub rows: Seq<PullRequestSnapshotView>,
    pub active: Seq<PullRequestSnapshotView>,
    pub default_name: Seq<char>,
}

impl DeepView for Topology {
    type V = TopologyView;

    open spec fn deep_view(&self) -> TopologyView {
        TopologyView {
            rows: self.rows.deep_view(),
            active: self.active.deep_view(),
            default_name: self.default_name.deep_view(),
        }
    }
}

impl TopologyView {
    /// The merged member whose branch name a row targets.
    pub open spec fn merged_owner(self, pr: PullRequestSnapshotView) -> Option<PrNumber> {
        rows::last_owner(self.rows, PullRequestState::Merged, pr.base.name)
    }

    /// The member closed without merging whose branch name a row targets.
    pub open spec fn departed_owner(self, pr: PullRequestSnapshotView) -> Option<PrNumber> {
        rows::last_owner(self.rows, PullRequestState::Closed, pr.base.name)
    }

    /// Whether the sole active holder of the base branch is not the recorded
    /// predecessor: a merged member used the name too and the recorded base
    /// commit is not the holder's head.
    pub open spec fn reused(self, pr: PullRequestSnapshotView, parent: PrNumber) -> bool {
        self.merged_owner(pr) is Some && match rows::row_of(self.active, parent) {
            Some(holder) => holder.head.oid != pr.base.oid,
            None => false,
        }
    }

    /// The predecessor of an active row.
    pub open spec fn parent(self, pr: PullRequestSnapshotView) -> Option<PrNumber> {
        let parents = rows::members_on(self.active, pr.base.name);
        if pr.base.name == self.default_name || parents.len() != 1 || self.reused(pr, parents[0]) {
            None
        } else {
            Some(parents[0])
        }
    }

    /// The problem of an active row without a unique predecessor.
    pub open spec fn link_problem(self, pr: PullRequestSnapshotView) -> Option<GraphProblemView> {
        let parents = rows::members_on(self.active, pr.base.name);
        if pr.base.name == self.default_name {
            None
        } else if parents.len() == 1 {
            if self.reused(pr, parents[0]) {
                Some(
                    GraphProblemView {
                        kind: GraphProblemKind::ReusedBranchProvenance,
                        prs: seq![pr.number, parents[0]] + option_seq(self.merged_owner(pr)),
                        message: "PR #"@ + model::pr_text(pr.number) + " records base `"@
                            + pr.base.name + "` at "@ + pr.base.oid + " but active PR #"@
                            + model::pr_text(parents[0])
                            + " now holds that branch; a merged caravan member also used it, so the predecessor is ambiguous"@,
                    },
                )
            } else {
                None
            }
        } else if parents.len() > 1 {
            Some(
                GraphProblemView {
                    kind: GraphProblemKind::MultipleHeads,
                    prs: seq![pr.number] + parents,
                    message: "PR #"@ + model::pr_text(pr.number) + " targets ambiguous branch `"@
                        + pr.base.name + "`"@,
                },
            )
        } else {
            Some(
                GraphProblemView {
                    kind: GraphProblemKind::DanglingBase,
                    prs: seq![pr.number] + option_seq(self.lost_owner(pr)),
                    message: self.dangling_message(pr),
                },
            )
        }
    }

    /// Who owned the base branch of a stranded row.
    pub open spec fn lost_owner(self, pr: PullRequestSnapshotView) -> Option<PrNumber> {
        match self.merged_owner(pr) {
            Some(merged) => Some(merged),
            None => self.departed_owner(pr),
        }
    }

    pub open spec fn dangling_message(self, pr: PullRequestSnapshotView) -> Seq<char> {
        match (self.merged_owner(pr), self.departed_owner(pr)) {
            (Some(merged), _) => "PR #"@ + model::pr_text(pr.number)
                + " still targets merged predecessor #"@ + model::pr_text(merged)
                + "; sync must advance it to `"@ + self.default_name + "`"@,
            (None, Some(departed)) => "PR #"@ + model::pr_text(pr.number)
                + " is stranded on branch `"@ + pr.base.name + "` of caravan member #"@
                + model::pr_text(departed)
                + ", which was closed without merging; the caravan lost that member and this PR must be rebased onto `"@
                + self.default_name + "` or evicted"@,
            (None, None) => "PR #"@ + model::pr_text(pr.number) + " targets non-member branch `"@
                + pr.base.name + "`"@,
        }
    }

    /// The numbers of the active rows.
    pub open spec fn numbers(self) -> Seq<PrNumber> {
        Seq::new(self.active.len(), |i: int| self.active[i].number)
    }

    /// The predecessors of the active rows, in their order.
    pub open spec fn links(self) -> Seq<Option<PrNumber>> {
        Seq::new(self.active.len(), |i: int| self.parent(self.active[i]))
    }

    /// The problems of the first rows without a unique predecessor.
    pub open spec fn link_problems(self, k: nat) -> Seq<GraphProblemView>
        decreases k,
    {
        if k == 0 {
            Seq::empty()
        } else {
            match self.link_problem(self.active[k - 1]) {
                Some(problem) => self.link_problems((k - 1) as nat).push(problem),
                None => self.link_problems((k - 1) as nat),
            }
        }
    }
}

/// The item of an option as a list.
pub open spec fn option_seq<T>(item: Option<T>) -> Seq<T> {
    match item {
        Some(x) => seq![x],
        None => Seq::empty(),
    }
}

fn listed(first: PrNumber, second: Option<PrNumber>, third: Option<PrNumber>) -> (r: Vec<PrNumber>)
    ensures
        r.deep_view() == seq![first] + option_seq(second) + option_seq(third),
{
    let mut out: Vec<PrNumber> = Vec::new();
    out.push(first);
    if let Some(x) = second {
        out.push(x);
    }
    if let Some(x) = third {
        out.push(x);
    }
    assert(out.deep_view() =~= seq![first] + option_seq(second) + option_seq(third));
    out
}

impl Topology {
    /// The predecessor of an active row and the problem of having none.
    fn link(&self, pr: &PullRequestSnapshot) -> (r: (Option<PrNumber>, Option<GraphProblem>))
        ensures
            r.0 == self.deep_view().parent(pr.deep_view()),
            r.1.deep_view() == self.deep_view().link_problem(pr.deep_view()),
    {
        let ghost t = self.deep_view();
        let ghost row = pr.deep_view();
        if pr.base.name.same(&self.default_name) {
            return (None, None);
        }
        let number = pr.number.to_text();
        let parents = find_members_on(&self.active, &pr.base.name);
        let merged = find_last_owner(&self.rows, PullRequestState::Merged, &pr.base.name);
        if parents.len() == 1 {
            let parent = parents[0];
            assert(parents.deep_view()[0] == parent);
            let foreign = match find_row(&self.active, parent) {
                Some(holder) => !holder.head.oid.same(&pr.base.oid),
                None => false,
            };
            if merged.is_some() && foreign {
                let message = "PR #".to_owned().concat(number.as_str()).concat(
                    " records base `",
                ).concat(pr.base.name.as_str()).concat("` at ").concat(
                    pr.base.oid.0.as_str(),
                ).concat(" but active PR #").concat(parent.to_text().as_str()).concat(
                    " now holds that branch; a merged caravan member also used it, so the predecessor is ambiguous",
                );
                let prs = listed(pr.number, Some(parent), merged);
                assert(prs.deep_view() =~= seq![row.number, parent] + option_seq(
                    t.merged_owner(row),
                ));
                return (
                    None,
                    Some(
                        GraphProblem {
                            kind: GraphProblemKind::ReusedBranchProvenance,
                            prs,
                            message,
                        },
                    ),
                );
            }
            return (Some(parent), None);
        }
        if parents.len() > 1 {
            let message = "PR #".to_owned().concat(number.as_str()).concat(
                " targets ambiguous branch `",
            ).concat(pr.base.name.as_str()).concat("`");
            let mut prs = listed(pr.number, None, None);
            append_items(&mut prs, parents);
            assert(prs.deep_view() =~= seq![row.number] + rows::members_on(
                t.active,
                row.base.name,
            ));
            return (
                None,
                Some(GraphProblem { kind: GraphProblemKind::MultipleHeads, prs, message }),
            );
        }
        let departed = find_last_owner(&self.rows, PullRequestState::Closed, &pr.base.name);
        let (lost, message) = match (merged, departed) {
            (Some(owner), _) => (
                Some(owner),
                "PR #".to_owned().concat(number.as_str()).concat(
                    " still targets merged predecessor #",
                ).concat(owner.to_text().as_str()).concat("; sync must advance it to `").concat(
                    self.default_name.as_str(),
                ).concat("`"),
            ),
            (None, Some(owner)) => (
                Some(owner),
                "PR #".to_owned().concat(number.as_str()).concat(
                    " is stranded on branch `",
                ).concat(pr.base.name.as_str()).concat("` of caravan member #").concat(
                    owner.to_text().as_str(),
                ).concat(
                    ", which was closed without merging; the caravan lost that member and this PR must be rebased onto `",
                ).concat(self.default_name.as_str()).concat("` or evicted"),
            ),
            (None, None) => (
                None,
                "PR #".to_owned().concat(number.as_str()).concat(
                    " targets non-member branch `",
                ).concat(pr.base.name.as_str()).concat("`"),
            ),
        };
        let prs = listed(pr.number, lost, None);
        assert(prs.deep_view() =~= seq![row.number] + option_seq(t.lost_owner(row)));
        (None, Some(GraphProblem { kind: GraphProblemKind::DanglingBase, prs, message }))
    }

    /// The predecessors of all active rows and the problems of those that
    /// have none.
    pub fn link_rows(&self) -> (r: (Vec<Option<PrNumber>>, Vec<GraphProblem>))
        ensures
            r.0@ == self.deep_view().links(),
            r.1.deep_view() == self.deep_view().link_problems(self.deep_view().active.len()),
    {
        let ghost t = self.deep_view();
        let mut links: Vec<Option<PrNumber>> = Vec::new();
        let mut problems: Vec<GraphProblem> = Vec::new();
        assert(problems.deep_view() =~= t.link_problems(0));
        let mut i: usize = 0;
        while i < self.active.len()
            invariant
                t == self.deep_view(),
                i <= self.active.len(),
                links@ == t.links().take(i as int),
                problems.deep_view() == t.link_problems(i as nat),
            decreases self.active.len() - i,
        {
            let (parent, problem) = self.link(&self.active[i]);
            assert(t.active[i as int] == self.active[i as int].deep_view());
            links.push(parent);
            if let Some(found) = problem {
                push_item(&mut problems, found);
            }
            i = i + 1;
            assert(links@ =~= t.links().take(i as int));
        }
        assert(links@ =~= t.links());
        (links, problems)
    }

    /// The numbers of the active rows.
    pub fn active_numbers(&self) -> (r: Vec<PrNumber>)
        ensures
            r@ == self.deep_view().numbers(),
    {
        let ghost t = self.deep_view();
        let mut out: Vec<PrNumber> = Vec::new();
        let mut i: usize = 0;
        while i < self.active.len()
            invariant
                t == self.deep_view(),
                i <= self.active.len(),
                out@ == t.numbers().take(i as int),
            decreases self.active.len() - i,
        {
            assert(t.active[i as int] == self.active[i as int].deep_view());
            out.push(self.active[i].number);
            i = i + 1;
            assert(out@ =~= t.numbers().take(i as int));
        }
        assert(out@ =~= t.numbers());
        out
    }
}

} // verus!
