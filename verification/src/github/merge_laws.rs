//! What a merge of a ready prefix selects, asks for and claims, over the evidence
//! and the facts themselves.

use vstd::prelude::*;
use crate::github::stack::{GitHubStackEntryGenerationView, GitHubStackGenerationView};
use crate::github::stack_merge;
use crate::github::stack_merge::{
    GitHubStackMergeBlocker, GitHubStackMergeEntryEvidenceView, GitHubStackMergeErrorView,
    GitHubStackReadyPrefixView,
};
use crate::model::PullRequestState;
use crate::text;

verus! {

proof fn lemma_generations(
    entries: Seq<GitHubStackEntryGenerationView>,
    evidence: Seq<GitHubStackMergeEntryEvidenceView>,
)
    ensures
        stack_merge::first_stale(entries, evidence) is None <==> forall|i: int|
            0 <= i < evidence.len() ==> (#[trigger] evidence[i]).generation == entries[i],
    decreases evidence.len(),
{
    if evidence.len() > 0 {
        let rest = evidence.drop_last();
        lemma_generations(entries, rest);
        let whole = forall|i: int|
            0 <= i < evidence.len() ==> (#[trigger] evidence[i]).generation == entries[i];
        let part = forall|i: int|
            0 <= i < rest.len() ==> (#[trigger] rest[i]).generation == entries[i];
        if whole {
            assert forall|i: int| 0 <= i < rest.len() implies (#[trigger] rest[i]).generation
                == entries[i] by {
                assert(evidence[i].generation == entries[i]);
            }
            assert(evidence[evidence.len() - 1].generation == entries[evidence.len() - 1]);
        }
        if part && evidence.last().generation == entries[evidence.len() - 1] {
            assert forall|i: int| 0 <= i < evidence.len() implies (
            #[trigger] evidence[i]).generation == entries[i] by {
                if i < rest.len() {
                    assert(rest[i].generation == entries[i]);
                }
            }
        }
    }
}

/// A ready prefix is planned exactly if the evidence covers every entry of the
/// Stack, in order and each of the same generation.
pub proof fn lemma_prefix_needs_exact_evidence(
    stack: GitHubStackGenerationView,
    evidence: Seq<GitHubStackMergeEntryEvidenceView>,
)
    ensures
        stack_merge::ready_prefix(stack, evidence) is Ok <==> evidence.len()
            == stack.topology.entries.len() && forall|i: int|
            0 <= i < evidence.len() ==> (#[trigger] evidence[i]).generation
                == stack.topology.entries[i],
{
    lemma_generations(stack.topology.entries, evidence);
}

/// Whether nothing keeps the entry of this evidence out of a ready prefix: the
/// Stack is open, the pull request is open, not a draft, and open in the Stack,
/// and the scheduler names no blocker.
pub open spec fn nothing_blocks(
    stack_open: bool,
    item: GitHubStackMergeEntryEvidenceView,
) -> bool {
    &&& stack_open
    &&& item.generation.pull_request_state == PullRequestState::Open
    &&& !item.generation.draft
    &&& text::lowered(item.generation.stack_state) == text::lowered("open"@)
    &&& item.blockers.len() == 0
}

proof fn lemma_blockers_tell(stack_open: bool, item: GitHubStackMergeEntryEvidenceView)
    ensures
        stack_merge::entry_blockers(stack_open, item).len() == 0 <==> nothing_blocks(
            stack_open,
            item,
        ),
        ({
            let said = stack_merge::entry_blockers(stack_open, item);
            &&& !stack_open ==> said.contains(GitHubStackMergeBlocker::StackClosed)
            &&& item.generation.pull_request_state != PullRequestState::Open ==> said.contains(
                GitHubStackMergeBlocker::PullRequestNotOpen,
            )
            &&& item.generation.draft ==> said.contains(GitHubStackMergeBlocker::Draft)
            &&& text::lowered(item.generation.stack_state) != text::lowered("open"@)
                ==> said.contains(GitHubStackMergeBlocker::StackEntryNotOpen)
            &&& forall|k: int|
                0 <= k < item.blockers.len() ==> said.contains(#[trigger] item.blockers[k])
            &&& forall|b: GitHubStackMergeBlocker| #[trigger]
                said.contains(b) ==> item.blockers.contains(b) || b
                    == GitHubStackMergeBlocker::StackClosed && !stack_open || b
                    == GitHubStackMergeBlocker::PullRequestNotOpen
                    && item.generation.pull_request_state != PullRequestState::Open || b
                    == GitHubStackMergeBlocker::Draft && item.generation.draft || b
                    == GitHubStackMergeBlocker::StackEntryNotOpen && text::lowered(
                    item.generation.stack_state,
                ) != text::lowered("open"@)
        }),
{
    let entry = item.generation;
    let a = stack_merge::blocking(!stack_open, GitHubStackMergeBlocker::StackClosed);
    let b = stack_merge::blocking(
        entry.pull_request_state != PullRequestState::Open,
        GitHubStackMergeBlocker::PullRequestNotOpen,
    );
    let c = stack_merge::blocking(entry.draft, GitHubStackMergeBlocker::Draft);
    let d = stack_merge::blocking(
        text::lowered(entry.stack_state) != text::lowered("open"@),
        GitHubStackMergeBlocker::StackEntryNotOpen,
    );
    let said = stack_merge::entry_blockers(stack_open, item);
    assert(said == a + b + c + d + item.blockers);
    if !stack_open {
        assert(said[0] == GitHubStackMergeBlocker::StackClosed);
    }
    if entry.pull_request_state != PullRequestState::Open {
        assert(said[a.len() as int] == GitHubStackMergeBlocker::PullRequestNotOpen);
    }
    if entry.draft {
        assert(said[(a + b).len() as int] == GitHubStackMergeBlocker::Draft);
    }
    if text::lowered(entry.stack_state) != text::lowered("open"@) {
        assert(said[(a + b + c).len() as int] == GitHubStackMergeBlocker::StackEntryNotOpen);
    }
    assert forall|k: int| 0 <= k < item.blockers.len() implies said.contains(
        #[trigger] item.blockers[k],
    ) by {
        assert(said[(a + b + c + d).len() + k] == item.blockers[k]);
    }
    assert forall|x: GitHubStackMergeBlocker| #[trigger]
        said.contains(x) implies item.blockers.contains(x) || x
        == GitHubStackMergeBlocker::StackClosed && !stack_open || x
        == GitHubStackMergeBlocker::PullRequestNotOpen && entry.pull_request_state
        != PullRequestState::Open || x == GitHubStackMergeBlocker::Draft && entry.draft || x
        == GitHubStackMergeBlocker::StackEntryNotOpen && text::lowered(entry.stack_state)
        != text::lowered("open"@) by {
        let k = choose|k: int| 0 <= k < said.len() && said[k] == x;
        let lead = (a + b + c + d).len();
        if k >= lead {
            assert(item.blockers[k - lead] == x);
        }
    }
}

/// A ready prefix holds the entries from the bottom that nothing blocks, all of
/// them, and no more: it ends at the top of the Stack or right below an entry
/// that something blocks. That entry is named with exactly what blocks it.
pub proof fn lemma_selected_entries_are_ready(
    stack: GitHubStackGenerationView,
    evidence: Seq<GitHubStackMergeEntryEvidenceView>,
    prefix: GitHubStackReadyPrefixView,
)
    requires
        stack_merge::ready_prefix(stack, evidence) == Ok::<_, GitHubStackMergeErrorView>(prefix),
    ensures
        prefix.stack == stack,
        prefix.selected.len() <= evidence.len(),
        evidence.len() == stack.topology.entries.len(),
        forall|i: int|
            0 <= i < prefix.selected.len() ==> (#[trigger] prefix.selected[i])
                == stack.topology.entries[i] && evidence[i].generation == prefix.selected[i]
                && nothing_blocks(stack.open, evidence[i]),
        prefix.first_blocked is None <==> prefix.selected.len() == stack.topology.entries.len(),
        match prefix.first_blocked {
            None => true,
            Some(blocked) => {
                let at = prefix.selected.len() as int;
                let item = evidence[at];
                &&& at < evidence.len()
                &&& !nothing_blocks(stack.open, item)
                &&& blocked.pr == item.generation.pr
                &&& blocked.position == item.generation.position
                &&& blocked.blockers.len() > 0
                &&& forall|k: int|
                    0 <= k < item.blockers.len() ==> blocked.blockers.contains(
                        #[trigger] item.blockers[k],
                    )
                &&& !stack.open ==> blocked.blockers.contains(GitHubStackMergeBlocker::StackClosed)
                &&& item.generation.pull_request_state != PullRequestState::Open
                    ==> blocked.blockers.contains(GitHubStackMergeBlocker::PullRequestNotOpen)
                &&& item.generation.draft ==> blocked.blockers.contains(
                    GitHubStackMergeBlocker::Draft,
                )
                &&& text::lowered(item.generation.stack_state) != text::lowered("open"@)
                    ==> blocked.blockers.contains(GitHubStackMergeBlocker::StackEntryNotOpen)
            },
        },
{
    let entries = stack.topology.entries;
    let count = stack_merge::ready_count(stack.open, evidence) as int;
    stack_merge::lemma_ready_prefix_is_maximal(stack.open, evidence);
    lemma_generations(entries, evidence);
    assert forall|i: int| 0 <= i < prefix.selected.len() implies (#[trigger] prefix.selected[i])
        == entries[i] && evidence[i].generation == prefix.selected[i] && nothing_blocks(
        stack.open,
        evidence[i],
    ) by {
        assert(stack_merge::entry_blockers(stack.open, evidence[i]).len() == 0);
        lemma_blockers_tell(stack.open, evidence[i]);
        assert(evidence[i].generation == entries[i]);
    }
    if count < evidence.len() {
        lemma_blockers_tell(stack.open, evidence[count]);
    }
}

} // verus!
