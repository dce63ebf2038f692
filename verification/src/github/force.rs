//! The steps of a force transition: one label state and, if asked for, armed
//! auto-merge, in one request.

use vstd::prelude::*;
use crate::command;
use crate::command::{
    dup_reply, CommandOutput, CommandOutputView, CommandRunErrorView, CommandRunner, CommandSpec,
    CommandSpecView, Reply, Sent,
};
use crate::github::adapter;
use crate::github::commands;
use crate::github::commands::force_transaction_command;
use crate::github::facts::{GitHubMutationReceipt, GitHubMutationReceiptView, MutationKind};
use crate::github::mutations;
use crate::github::mutations::{judge_force, pick_force_nodes};
use crate::github::provider::{
    DiscoveryError, DiscoveryErrorView, MutationError, MutationErrorView,
    PullRequestPreconditionView,
};
use crate::github::raw::{ForceTransactionIdsResponse, ForceTransactionIdsResponseView};
use crate::model::{
    Model, PrNumber, PullRequestSnapshot, PullRequestSnapshotView, RepositoryIdView,
};

verus! {

/// What a force transition brings about.
#[derive(Debug, PartialEq, Eq)]
pub struct ForceGoal {
    pub number: PrNumber,
    pub label: String,
    pub desired: bool,
    pub ensure_squash: bool,
}

/// The content of a [`ForceGoal`].
pub struct ForceGoalView {
    pub number: PrNumber,
    pub label: Seq<char>,
    pub desired: bool,
    pub ensure_squash: bool,
}

impl DeepView for ForceGoal {
    type V = ForceGoalView;

    open spec fn deep_view(&self) -> ForceGoalView {
        ForceGoalView {
            number: self.number,
            label: self.label@,
            desired: self.desired,
            ensure_squash: self.ensure_squash,
        }
    }
}

/// How far a force transition has come.
pub enum ForceStep {
    /// The precondition is to be confirmed.
    Confirming,
    /// The nodes of the request are to be read.
    Resolving { before: PullRequestSnapshot },
    /// The request is to be sent.
    Sending { before: PullRequestSnapshot, pull: String, node: Option<String> },
    /// The request was answered: the facts are to be read back.
    ReadingBack { before: PullRequestSnapshot, output: CommandOutput, sent: Sent },
    /// Nothing is left to do.
    Done { outcome: Result<(GitHubMutationReceipt, bool), MutationError> },
}

/// The content of a [`ForceStep`].
pub enum ForceStepView {
    Confirming,
    Resolving { before: PullRequestSnapshotView },
    Sending { before: PullRequestSnapshotView, pull: Seq<char>, node: Option<Seq<char>> },
    ReadingBack { before: PullRequestSnapshotView, output: CommandOutputView },
    Done { outcome: Result<(GitHubMutationReceiptView, bool), MutationErrorView> },
}

/// What a force transition learns.
pub enum ForceEvent {
    /// The precondition was confirmed, or not.
    Confirmed(Result<PullRequestSnapshot, MutationError>),
    /// The nodes were read.
    Resolved(Result<ForceTransactionIdsResponse, MutationError>),
    /// The request was sent and answered.
    Answered(Sent),
    /// The facts were read back.
    ReadBack(Result<PullRequestSnapshot, MutationError>),
}

/// The content of a [`ForceEvent`].
pub enum ForceEventView {
    Confirmed(Result<PullRequestSnapshotView, MutationErrorView>),
    Resolved(Result<ForceTransactionIdsResponseView, MutationErrorView>),
    Answered(Reply),
    ReadBack(Result<PullRequestSnapshotView, MutationErrorView>),
}

impl DeepView for ForceStep {
    type V = ForceStepView;

    open spec fn deep_view(&self) -> ForceStepView {
        match self {
            ForceStep::Confirming => ForceStepView::Confirming,
            ForceStep::Resolving { before } => ForceStepView::Resolving {
                before: before.deep_view(),
            },
            ForceStep::Sending { before, pull, node } => ForceStepView::Sending {
                before: before.deep_view(),
                pull: pull@,
                node: node.deep_view(),
            },
            ForceStep::ReadingBack { before, output, .. } => ForceStepView::ReadingBack {
                before: before.deep_view(),
                output: output.deep_view(),
            },
            ForceStep::Done { outcome } => ForceStepView::Done {
                outcome: adapter::outcome_view(*outcome),
            },
        }
    }
}

impl DeepView for ForceEvent {
    type V = ForceEventView;

    open spec fn deep_view(&self) -> ForceEventView {
        match self {
            ForceEvent::Confirmed(read) => ForceEventView::Confirmed(adapter::outcome_view(*read)),
            ForceEvent::Resolved(read) => ForceEventView::Resolved(adapter::outcome_view(*read)),
            ForceEvent::Answered(sent) => ForceEventView::Answered(sent.answer()),
            ForceEvent::ReadBack(read) => ForceEventView::ReadBack(adapter::outcome_view(*read)),
        }
    }
}

impl ForceStepView {
    /// The place of the step in the order.
    pub open spec fn rank(self) -> nat {
        match self {
            ForceStepView::Confirming => 0,
            ForceStepView::Resolving { .. } => 1,
            ForceStepView::Sending { .. } => 2,
            ForceStepView::ReadingBack { .. } => 3,
            ForceStepView::Done { .. } => 4,
        }
    }

    /// The one write that the step asks for.
    pub open spec fn request(self, goal: ForceGoalView) -> Option<CommandSpecView> {
        match self {
            ForceStepView::Sending { before, pull, node } => Some(
                commands::force_transaction(
                    pull,
                    node,
                    goal.desired,
                    mutations::must_arm(before, goal.ensure_squash),
                ),
            ),
            _ => None,
        }
    }
}

/// What a transition returns that finds its state already there.
pub open spec fn force_satisfied(before: PullRequestSnapshotView) -> (
    GitHubMutationReceiptView,
    bool,
) {
    (
        GitHubMutationReceiptView {
            kind: MutationKind::ForceIntentTransaction,
            before: Some(before),
            after: before,
            provider_output: Some("atomic provider force postcondition already satisfied"@),
        },
        false,
    )
}

/// The step that follows a step once something is learned. What a step does not
/// wait for changes nothing.
pub open spec fn force_step(
    goal: ForceGoalView,
    at: ForceStepView,
    event: ForceEventView,
) -> ForceStepView {
    match (at, event) {
        (ForceStepView::Confirming, ForceEventView::Confirmed(read)) => match read {
            Err(error) => ForceStepView::Done { outcome: Err(error) },
            Ok(before) => if mutations::label_must_change(before, goal.label, goal.desired)
                || mutations::must_arm(before, goal.ensure_squash) {
                ForceStepView::Resolving { before }
            } else {
                ForceStepView::Done { outcome: Ok(force_satisfied(before)) }
            },
        },
        (ForceStepView::Resolving { before }, ForceEventView::Resolved(read)) => match read {
            Err(error) => ForceStepView::Done { outcome: Err(error) },
            Ok(found) => match mutations::force_nodes(
                found,
                goal.number,
                goal.label,
                mutations::label_must_change(before, goal.label, goal.desired),
            ) {
                Err(error) => ForceStepView::Done { outcome: Err(error) },
                Ok(nodes) => ForceStepView::Sending { before, pull: nodes.0, node: nodes.1 },
            },
        },
        (ForceStepView::Sending { before, pull, node }, ForceEventView::Answered(reply)) => {
            match reply {
                Err(error) => ForceStepView::Done {
                    outcome: Err(MutationErrorView::Provider(DiscoveryErrorView::Runner(error))),
                },
                Ok(output) => ForceStepView::ReadingBack { before, output },
            }
        },
        (ForceStepView::ReadingBack { before, output }, ForceEventView::ReadBack(read)) => {
            ForceStepView::Done { outcome: force_judgement(goal, before, output, read) }
        },
        _ => at,
    }
}

/// The step that a force transition has come to once it learned some things.
pub open spec fn force_after(goal: ForceGoalView, events: Seq<ForceEventView>) -> ForceStepView
    decreases events.len(),
{
    if events.len() == 0 {
        ForceStepView::Confirming
    } else {
        force_step(goal, force_after(goal, events.drop_last()), events.last())
    }
}

/// Whether the request of a transition is sent and answered at a place among
/// what the transition learns.
pub open spec fn force_sent_at(goal: ForceGoalView, events: Seq<ForceEventView>, at: int) -> bool {
    0 <= at < events.len() && force_after(goal, events.take(at)).request(goal) is Some
        && events[at] is Answered
}

proof fn lemma_force_goes_on(goal: ForceGoalView, events: Seq<ForceEventView>, from: int, to: int)
    requires
        0 <= from <= to <= events.len(),
    ensures
        force_after(goal, events.take(from)).rank() <= force_after(goal, events.take(to)).rank(),
    decreases to - from,
{
    if from < to {
        lemma_force_goes_on(goal, events, from, to - 1);
        assert(events.take(to).drop_last() =~= events.take(to - 1));
    }
}

proof fn lemma_force_sent_goes_on(
    goal: ForceGoalView,
    events: Seq<ForceEventView>,
    first: int,
    second: int,
)
    requires
        force_sent_at(goal, events, first),
        force_sent_at(goal, events, second),
    ensures
        first >= second,
{
    if first < second {
        assert(events.take(first + 1).drop_last() =~= events.take(first));
        lemma_force_goes_on(goal, events, first + 1, second);
    }
}

proof fn lemma_force_was_confirmed(goal: ForceGoalView, events: Seq<ForceEventView>)
    requires
        force_after(goal, events) is Resolving || force_after(goal, events) is Sending,
    ensures
        exists|i: int|
            0 <= i < events.len() && #[trigger] events[i] is Confirmed && events[i]->Confirmed_0
                is Ok,
    decreases events.len(),
{
    if events.len() > 0 {
        let before = force_after(goal, events.drop_last());
        if before is Resolving || before is Sending {
            lemma_force_was_confirmed(goal, events.drop_last());
            let i = choose|i: int|
                0 <= i < events.len() - 1 && #[trigger] events.drop_last()[i] is Confirmed
                    && events.drop_last()[i]->Confirmed_0 is Ok;
            assert(events[i] == events.drop_last()[i]);
        } else {
            assert(before is Confirming);
            assert(events[events.len() - 1] == events.last());
        }
    }
}

/// The request of a transition is sent at most once, whatever is learned and in
/// whatever order, and only after the precondition was confirmed.
pub proof fn lemma_force_is_sent_once(
    goal: ForceGoalView,
    events: Seq<ForceEventView>,
    first: int,
    second: int,
)
    requires
        force_sent_at(goal, events, first),
        force_sent_at(goal, events, second),
    ensures
        first == second,
        exists|i: int|
            0 <= i < first && #[trigger] events[i] is Confirmed && events[i]->Confirmed_0 is Ok,
{
    lemma_force_sent_goes_on(goal, events, first, second);
    lemma_force_sent_goes_on(goal, events, second, first);
    lemma_force_was_confirmed(goal, events.take(first));
    let i = choose|i: int|
        0 <= i < first && #[trigger] events.take(first)[i] is Confirmed && events.take(
            first,
        )[i]->Confirmed_0 is Ok;
    assert(events[i] == events.take(first)[i]);
}

/// The outcome of reading the facts back after the request was answered.
pub open spec fn force_judgement(
    goal: ForceGoalView,
    before: PullRequestSnapshotView,
    output: CommandOutputView,
    read: Result<PullRequestSnapshotView, MutationErrorView>,
) -> Result<(GitHubMutationReceiptView, bool), MutationErrorView> {
    match read {
        Err(error) => Err(error),
        Ok(after) => mutations::force_outcome(
            before,
            after,
            goal.label,
            goal.desired,
            goal.ensure_squash,
            output,
        ),
    }
}

/// What follows the request decides: once it was answered, the transition ends
/// by facts that were read back after the answer.
pub proof fn lemma_force_is_judged_later(
    goal: ForceGoalView,
    events: Seq<ForceEventView>,
    at: int,
)
    requires
        force_sent_at(goal, events, at),
        events[at]->Answered_0 is Ok,
        force_after(goal, events) is Done,
    ensures
        exists|i: int|
            at < i < events.len() && (#[trigger] events[i]) is ReadBack && force_after(
                goal,
                events,
            )->outcome == force_judgement(
                goal,
                force_after(goal, events.take(at))->Sending_before,
                events[at]->Answered_0->Ok_0,
                events[i]->ReadBack_0,
            ),
    decreases events.len(),
{
    let last = events.len() - 1;
    let earlier = events.drop_last();
    if at == last {
        assert(earlier =~= events.take(at));
    } else {
        assert(earlier.take(at) =~= events.take(at));
        assert(earlier[at] == events[at]);
        assert(force_sent_at(goal, earlier, at));
        if force_after(goal, earlier) is Done {
            lemma_force_is_judged_later(goal, earlier, at);
            let i = choose|i: int|
                at < i < earlier.len() && (#[trigger] earlier[i]) is ReadBack && force_after(
                    goal,
                    earlier,
                )->outcome == force_judgement(
                    goal,
                    force_after(goal, earlier.take(at))->Sending_before,
                    earlier[at]->Answered_0->Ok_0,
                    earlier[i]->ReadBack_0,
                );
            assert(events[i] == earlier[i]);
        } else {
            lemma_force_waits_for_facts(goal, earlier, at);
            assert(events[last] == events.last());
        }
    }
}

proof fn lemma_force_waits_for_facts(goal: ForceGoalView, events: Seq<ForceEventView>, at: int)
    requires
        force_sent_at(goal, events, at),
        events[at]->Answered_0 is Ok,
        !(force_after(goal, events) is Done),
    ensures
        force_after(goal, events) == (ForceStepView::ReadingBack {
            before: force_after(goal, events.take(at))->Sending_before,
            output: events[at]->Answered_0->Ok_0,
        }),
    decreases events.len(),
{
    let earlier = events.drop_last();
    if at == events.len() - 1 {
        assert(earlier =~= events.take(at));
    } else {
        assert(earlier.take(at) =~= events.take(at));
        assert(earlier[at] == events[at]);
        assert(force_sent_at(goal, earlier, at));
        lemma_force_waits_for_facts(goal, earlier, at);
    }
}

impl ForceStep {
    /// The one write that the step asks for.
    pub fn request(&self, goal: &ForceGoal) -> (r: Option<CommandSpec>)
        ensures
            r.deep_view() == self.deep_view().request(goal.deep_view()),
    {
        match self {
            ForceStep::Sending { before, pull, node } => {
                let arm = goal.ensure_squash && !before.auto_merge.is_squash();
                Some(force_transaction_command(pull.as_str(), node.dup(), goal.desired, arm))
            },
            _ => None,
        }
    }

    /// The step that follows once something is learned.
    pub fn step(self, goal: &ForceGoal, event: ForceEvent) -> (r: Self)
        ensures
            r.deep_view() == force_step(goal.deep_view(), self.deep_view(), event.deep_view()),
            self is Sending && event is Answered && r is ReadingBack ==> r->sent
                == event->Answered_0,
    {
        match (self, event) {
            (ForceStep::Confirming, ForceEvent::Confirmed(read)) => after_confirming(goal, read),
            (ForceStep::Resolving { before }, ForceEvent::Resolved(read)) => after_resolving(
                goal,
                before,
                read,
            ),
            (ForceStep::Sending { before, .. }, ForceEvent::Answered(sent)) => {
                match dup_reply(sent.reply()) {
                    Err(error) => ForceStep::Done {
                        outcome: Err(MutationError::Provider(DiscoveryError::Runner(error))),
                    },
                    Ok(output) => ForceStep::ReadingBack { before, output, sent },
                }
            },
            (ForceStep::ReadingBack { before, output, .. }, ForceEvent::ReadBack(read)) => {
                ForceStep::Done {
                    outcome: match read {
                        Err(error) => Err(error),
                        Ok(after) => judge_force(
                            before,
                            after,
                            goal.label.as_str(),
                            goal.desired,
                            goal.ensure_squash,
                            &output,
                        ),
                    },
                }
            },
            (at, _) => at,
        }
    }
}

fn after_confirming(goal: &ForceGoal, read: Result<PullRequestSnapshot, MutationError>) -> (r:
    ForceStep)
    ensures
        r.deep_view() == force_step(
            goal.deep_view(),
            ForceStepView::Confirming,
            ForceEventView::Confirmed(adapter::outcome_view(read)),
        ),
{
    match read {
        Err(error) => ForceStep::Done { outcome: Err(error) },
        Ok(before) => {
            let label_change = before.has_label(goal.label.as_str()) != goal.desired;
            let arm = goal.ensure_squash && !before.auto_merge.is_squash();
            if label_change || arm {
                ForceStep::Resolving { before }
            } else {
                ForceStep::Done {
                    outcome: Ok(
                        (
                            GitHubMutationReceipt {
                                kind: MutationKind::ForceIntentTransaction,
                                before: Some(before.dup()),
                                after: before,
                                provider_output: Some(
                                    "atomic provider force postcondition already satisfied".to_owned(),
                                ),
                            },
                            false,
                        ),
                    ),
                }
            }
        },
    }
}

fn after_resolving(
    goal: &ForceGoal,
    before: PullRequestSnapshot,
    read: Result<ForceTransactionIdsResponse, MutationError>,
) -> (r: ForceStep)
    ensures
        r.deep_view() == force_step(
            goal.deep_view(),
            ForceStepView::Resolving { before: before.deep_view() },
            ForceEventView::Resolved(adapter::outcome_view(read)),
        ),
{
    match read {
        Err(error) => ForceStep::Done { outcome: Err(error) },
        Ok(found) => {
            let label_change = before.has_label(goal.label.as_str()) != goal.desired;
            match pick_force_nodes(found, goal.number, goal.label.as_str(), label_change) {
                Err(error) => ForceStep::Done { outcome: Err(error) },
                Ok((pull, node)) => ForceStep::Sending { before, pull, node },
            }
        },
    }
}

/// How a force transition may have come to a step.
pub open spec fn force_explained<R: CommandRunner>(
    runner: R,
    repository: RepositoryIdView,
    expected: PullRequestPreconditionView,
    goal: ForceGoalView,
    at: ForceStep,
) -> bool {
    match at {
        ForceStep::Confirming => true,
        ForceStep::Resolving { before } => adapter::verified(
            runner,
            repository,
            expected,
            true,
            Ok(before.deep_view()),
        ) && (mutations::label_must_change(before.deep_view(), goal.label, goal.desired)
            || mutations::must_arm(before.deep_view(), goal.ensure_squash)),
        ForceStep::Sending { before, pull, node } => nodes_explained(
            runner,
            repository,
            expected,
            goal,
            before.deep_view(),
            (pull@, node.deep_view()),
        ),
        ForceStep::ReadingBack { before, output, sent } => {
            &&& sent.answer() == Ok::<_, CommandRunErrorView>(output.deep_view())
            &&& exists|nodes: (Seq<char>, Option<Seq<char>>)|
                #[trigger] nodes_explained(
                    runner,
                    repository,
                    expected,
                    goal,
                    before.deep_view(),
                    nodes,
                ) && command::was_sent(
                    runner,
                    commands::force_transaction(
                        nodes.0,
                        nodes.1,
                        goal.desired,
                        mutations::must_arm(before.deep_view(), goal.ensure_squash),
                    ),
                    sent,
                )
        },
        ForceStep::Done { outcome } => mutations::forced(
            runner,
            repository,
            expected,
            goal.label,
            goal.desired,
            goal.ensure_squash,
            adapter::outcome_view(outcome),
        ),
    }
}

/// How a force transition may have come to the nodes of its request.
pub open spec fn nodes_explained<R: CommandRunner>(
    runner: R,
    repository: RepositoryIdView,
    expected: PullRequestPreconditionView,
    goal: ForceGoalView,
    before: PullRequestSnapshotView,
    nodes: (Seq<char>, Option<Seq<char>>),
) -> bool {
    &&& adapter::verified(runner, repository, expected, true, Ok(before))
    &&& mutations::label_must_change(before, goal.label, goal.desired) || mutations::must_arm(
        before,
        goal.ensure_squash,
    )
    &&& exists|found: ForceTransactionIdsResponseView|
        #[trigger] adapter::got::<R, ForceTransactionIdsResponse>(
            runner,
            commands::force_transaction_ids(repository, goal.number, goal.label),
            Ok(found),
        ) && mutations::force_nodes(
            found,
            goal.number,
            goal.label,
            mutations::label_must_change(before, goal.label, goal.desired),
        ) == Ok::<_, MutationErrorView>(nodes)
}

} // verus!
