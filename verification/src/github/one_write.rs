//! Operations of one write: what speaks for the write is read, the write is sent
//! once, and facts that are read after it decide the outcome.

use vstd::prelude::*;
use crate::command;
use crate::command::{
    send, CommandOutput, CommandRunError, CommandRunner, CommandSpec, CommandSpecView, Reply, Sent,
};

use crate::model::Model;

verus! {

/// The decisions of an operation of one write.
pub trait OneWrite: Sized {
    /// What the reads before the write leave to keep.
    type Kept: DeepView;
    /// What is read after the write.
    type Seen;
    type SeenView;
    type Outcome;
    type OutcomeView;

    /// The content of what is read after the write.
    spec fn seen_view(seen: Self::Seen) -> Self::SeenView;

    /// The content of an outcome.
    spec fn outcome_view(outcome: Self::Outcome) -> Self::OutcomeView;

    /// The write.
    spec fn request(&self, kept: <Self::Kept as DeepView>::V) -> CommandSpecView;

    /// The outcome that the answer to the write decides alone, if it does.
    spec fn closed(&self, kept: <Self::Kept as DeepView>::V, reply: Reply) -> Option<
        Self::OutcomeView,
    >;

    /// The outcome that what was read afterwards decides.
    spec fn concluded(
        &self,
        kept: <Self::Kept as DeepView>::V,
        reply: Reply,
        seen: Self::SeenView,
    ) -> Self::OutcomeView;

    fn make_request(&self, kept: &Self::Kept) -> (r: CommandSpec)
        ensures
            r.deep_view() == self.request(kept.deep_view()),
    ;

    fn close(
        &self,
        kept: &Self::Kept,
        reply: &Result<CommandOutput, CommandRunError>,
    ) -> (r: Option<Self::Outcome>)
        ensures
            (match r {
                Some(outcome) => Some(Self::outcome_view(outcome)),
                None => None,
            }) == self.closed(kept.deep_view(), command::reply_view(*reply)),
    ;

    fn conclude(
        &self,
        kept: Self::Kept,
        reply: &Result<CommandOutput, CommandRunError>,
        seen: Self::Seen,
    ) -> (r: Self::Outcome)
        ensures
            Self::outcome_view(r) == self.concluded(
                kept.deep_view(),
                command::reply_view(*reply),
                Self::seen_view(seen),
            ),
    ;
}

/// Leave to write, with nothing to keep.
pub struct Granted;

impl DeepView for Granted {
    type V = ();

    open spec fn deep_view(&self) -> () {
        ()
    }
}

// ---------------------------------------------------------------------------
// Steps
// ---------------------------------------------------------------------------

/// How far an operation has come.
pub enum WriteStep<K, T> {
    /// What speaks for the write is to be read.
    Guarding,
    /// The write is to be sent.
    Sending { kept: K, command: CommandSpec },
    /// Facts are to be read, after the write.
    Reading { kept: K, sent: Sent },
    /// Nothing is left to do.
    Done { outcome: T },
}

/// The content of a [`WriteStep`].
pub enum WriteStepView<K, T> {
    Guarding,
    Sending { kept: K, command: CommandSpecView },
    Reading { kept: K, reply: Reply },
    Done { outcome: T },
}

/// What an operation learns.
pub enum WriteEvent<K, S, T> {
    /// What the reads before the write leave to keep, or the outcome.
    Guarded(Result<K, T>),
    /// The write was sent and answered.
    Answered(Sent),
    /// Facts were read.
    Seen(S),
}

/// The content of a [`WriteEvent`].
pub enum WriteEventView<K, S, T> {
    Guarded(Result<K, T>),
    Answered(Reply),
    Seen(S),
}

/// The content of a step.
pub open spec fn step_view<O: OneWrite>(at: WriteStep<O::Kept, O::Outcome>) -> WriteStepView<
    <O::Kept as DeepView>::V,
    O::OutcomeView,
> {
    match at {
        WriteStep::Guarding => WriteStepView::Guarding,
        WriteStep::Sending { kept, command } => WriteStepView::Sending {
            kept: kept.deep_view(),
            command: command.deep_view(),
        },
        WriteStep::Reading { kept, sent } => WriteStepView::Reading {
            kept: kept.deep_view(),
            reply: sent.answer(),
        },
        WriteStep::Done { outcome } => WriteStepView::Done { outcome: O::outcome_view(outcome) },
    }
}

/// The content of what an operation learns.
pub open spec fn event_view<O: OneWrite>(
    event: WriteEvent<O::Kept, O::Seen, O::Outcome>,
) -> WriteEventView<<O::Kept as DeepView>::V, O::SeenView, O::OutcomeView> {
    match event {
        WriteEvent::Guarded(Ok(kept)) => WriteEventView::Guarded(Ok(kept.deep_view())),
        WriteEvent::Guarded(Err(outcome)) => WriteEventView::Guarded(
            Err(O::outcome_view(outcome)),
        ),
        WriteEvent::Answered(sent) => WriteEventView::Answered(sent.answer()),
        WriteEvent::Seen(seen) => WriteEventView::Seen(O::seen_view(seen)),
    }
}

impl<K, T> WriteStepView<K, T> {
    /// The place of the step in the order.
    pub open spec fn rank(self) -> nat {
        match self {
            WriteStepView::Guarding => 0,
            WriteStepView::Sending { .. } => 1,
            WriteStepView::Reading { .. } => 2,
            WriteStepView::Done { .. } => 3,
        }
    }
}

/// The step that follows a step once something is learned. What a step does not
/// wait for changes nothing.
pub open spec fn write_step<O: OneWrite>(
    operation: O,
    at: WriteStepView<<O::Kept as DeepView>::V, O::OutcomeView>,
    event: WriteEventView<<O::Kept as DeepView>::V, O::SeenView, O::OutcomeView>,
) -> WriteStepView<<O::Kept as DeepView>::V, O::OutcomeView> {
    match (at, event) {
        (WriteStepView::Guarding, WriteEventView::Guarded(Err(outcome))) => WriteStepView::Done {
            outcome,
        },
        (WriteStepView::Guarding, WriteEventView::Guarded(Ok(kept))) => WriteStepView::Sending {
            kept,
            command: operation.request(kept),
        },
        (WriteStepView::Sending { kept, .. }, WriteEventView::Answered(reply)) => {
            match operation.closed(kept, reply) {
                Some(outcome) => WriteStepView::Done { outcome },
                None => WriteStepView::Reading { kept, reply },
            }
        },
        (WriteStepView::Reading { kept, reply }, WriteEventView::Seen(seen)) => {
            WriteStepView::Done { outcome: operation.concluded(kept, reply, seen) }
        },
        _ => at,
    }
}

/// The step that an operation has come to once it learned some things.
pub open spec fn steps_after<O: OneWrite>(
    operation: O,
    events: Seq<WriteEventView<<O::Kept as DeepView>::V, O::SeenView, O::OutcomeView>>,
) -> WriteStepView<<O::Kept as DeepView>::V, O::OutcomeView>
    decreases events.len(),
{
    if events.len() == 0 {
        WriteStepView::Guarding
    } else {
        write_step(operation, steps_after(operation, events.drop_last()), events.last())
    }
}

/// Whether the write of an operation is sent and answered at a place among what
/// the operation learns.
pub open spec fn written_at<O: OneWrite>(
    operation: O,
    events: Seq<WriteEventView<<O::Kept as DeepView>::V, O::SeenView, O::OutcomeView>>,
    at: int,
) -> bool {
    0 <= at < events.len() && steps_after(operation, events.take(at)) is Sending
        && events[at] is Answered
}

proof fn lemma_steps_go_on<O: OneWrite>(
    operation: O,
    events: Seq<WriteEventView<<O::Kept as DeepView>::V, O::SeenView, O::OutcomeView>>,
    from: int,
    to: int,
)
    requires
        0 <= from <= to <= events.len(),
    ensures
        steps_after(operation, events.take(from)).rank() <= steps_after(
            operation,
            events.take(to),
        ).rank(),
    decreases to - from,
{
    if from < to {
        lemma_steps_go_on(operation, events, from, to - 1);
        assert(events.take(to).drop_last() =~= events.take(to - 1));
    }
}

proof fn lemma_written_goes_on<O: OneWrite>(
    operation: O,
    events: Seq<WriteEventView<<O::Kept as DeepView>::V, O::SeenView, O::OutcomeView>>,
    first: int,
    second: int,
)
    requires
        written_at(operation, events, first),
        written_at(operation, events, second),
    ensures
        first >= second,
{
    if first < second {
        assert(events.take(first + 1).drop_last() =~= events.take(first));
        lemma_steps_go_on(operation, events, first + 1, second);
    }
}

/// The write of an operation is sent at most once, whatever is learned and in
/// whatever order.
pub proof fn lemma_written_once<O: OneWrite>(
    operation: O,
    events: Seq<WriteEventView<<O::Kept as DeepView>::V, O::SeenView, O::OutcomeView>>,
    first: int,
    second: int,
)
    requires
        written_at(operation, events, first),
        written_at(operation, events, second),
    ensures
        first == second,
{
    lemma_written_goes_on(operation, events, first, second);
    lemma_written_goes_on(operation, events, second, first);
}

/// The write of an operation is sent only after the reads before it spoke for
/// it, and it is the one that they ask for.
pub proof fn lemma_write_is_guarded<O: OneWrite>(
    operation: O,
    events: Seq<WriteEventView<<O::Kept as DeepView>::V, O::SeenView, O::OutcomeView>>,
)
    requires
        steps_after(operation, events) is Sending,
    ensures
        exists|i: int|
            0 <= i < events.len() && (#[trigger] events[i]) == WriteEventView::<
                <O::Kept as DeepView>::V,
                O::SeenView,
                O::OutcomeView,
            >::Guarded(Ok(steps_after(operation, events)->Sending_kept)),
        operation.request(steps_after(operation, events)->Sending_kept) == steps_after(
            operation,
            events,
        )->command,
    decreases events.len(),
{
    if events.len() > 0 {
        let before = steps_after(operation, events.drop_last());
        if before is Sending {
            lemma_write_is_guarded(operation, events.drop_last());
            let i = choose|i: int|
                0 <= i < events.len() - 1 && (#[trigger] events.drop_last()[i])
                    == WriteEventView::<
                    <O::Kept as DeepView>::V,
                    O::SeenView,
                    O::OutcomeView,
                >::Guarded(Ok(before->Sending_kept));
            assert(events[i] == events.drop_last()[i]);
        } else {
            assert(events[events.len() - 1] == events.last());
        }
    }
}

/// What follows a write decides: once the write was answered, the operation ends
/// by that answer alone, or by facts that were read after it.
pub proof fn lemma_later_facts_decide<O: OneWrite>(
    operation: O,
    events: Seq<WriteEventView<<O::Kept as DeepView>::V, O::SeenView, O::OutcomeView>>,
    at: int,
)
    requires
        written_at(operation, events, at),
        steps_after(operation, events) is Done,
    ensures
        ({
            let kept = steps_after(operation, events.take(at))->Sending_kept;
            let reply = events[at]->Answered_0;
            let outcome = steps_after(operation, events)->outcome;
            match operation.closed(kept, reply) {
                Some(closed) => outcome == closed,
                None => exists|i: int|
                    at < i < events.len() && (#[trigger] events[i]) is Seen && outcome
                        == operation.concluded(kept, reply, events[i]->Seen_0),
            }
        }),
    decreases events.len(),
{
    let last = events.len() - 1;
    let before = events.drop_last();
    assert(events.take(at + 1).drop_last() =~= events.take(at));
    if at == last {
        assert(before =~= events.take(at));
    } else {
        assert(before.take(at) =~= events.take(at));
        assert(before[at] == events[at]);
        assert(written_at(operation, before, at));
        if steps_after(operation, before) is Done {
            lemma_later_facts_decide(operation, before, at);
            let kept = steps_after(operation, events.take(at))->Sending_kept;
            let reply = events[at]->Answered_0;
            if operation.closed(kept, reply) is None {
                let i = choose|i: int|
                    at < i < before.len() && (#[trigger] before[i]) is Seen && steps_after(
                        operation,
                        before,
                    )->outcome == operation.concluded(kept, reply, before[i]->Seen_0);
                assert(events[i] == before[i]);
            }
        } else {
            lemma_still_reading(operation, before, at);
            assert(events[last] == events.last());
        }
    }
}

proof fn lemma_still_reading<O: OneWrite>(
    operation: O,
    events: Seq<WriteEventView<<O::Kept as DeepView>::V, O::SeenView, O::OutcomeView>>,
    at: int,
)
    requires
        written_at(operation, events, at),
        !(steps_after(operation, events) is Done),
    ensures
        ({
            let kept = steps_after(operation, events.take(at))->Sending_kept;
            let reply = events[at]->Answered_0;
            operation.closed(kept, reply) is None && steps_after(operation, events)
                == WriteStepView::<<O::Kept as DeepView>::V, O::OutcomeView>::Reading {
                kept,
                reply,
            }
        }),
    decreases events.len(),
{
    let before = events.drop_last();
    if at == events.len() - 1 {
        assert(before =~= events.take(at));
    } else {
        assert(before.take(at) =~= events.take(at));
        assert(before[at] == events[at]);
        assert(written_at(operation, before, at));
        lemma_still_reading(operation, before, at);
    }
}

impl<K, T> WriteStep<K, T> {
    /// The step that follows once something is learned.
    pub fn step<O: OneWrite<Kept = K, Outcome = T>>(
        self,
        operation: &O,
        event: WriteEvent<K, O::Seen, T>,
    ) -> (r: Self) where K: DeepView
        ensures
            step_view::<O>(r) == write_step(
                *operation,
                step_view::<O>(self),
                event_view::<O>(event),
            ),
            self is Sending && event is Answered && r is Reading ==> r->sent
                == event->Answered_0,
    {
        match (self, event) {
            (WriteStep::Guarding, WriteEvent::Guarded(Err(outcome))) => WriteStep::Done { outcome },
            (WriteStep::Guarding, WriteEvent::Guarded(Ok(kept))) => {
                let command = operation.make_request(&kept);
                WriteStep::Sending { kept, command }
            },
            (WriteStep::Sending { kept, .. }, WriteEvent::Answered(sent)) => {
                match operation.close(&kept, sent.reply()) {
                    Some(outcome) => WriteStep::Done { outcome },
                    None => WriteStep::Reading { kept, sent },
                }
            },
            (WriteStep::Reading { kept, sent }, WriteEvent::Seen(seen)) => {
                let outcome = operation.conclude(kept, sent.reply(), seen);
                WriteStep::Done { outcome }
            },
            (at, _) => at,
        }
    }
}

// ---------------------------------------------------------------------------
// Carrying an operation out
// ---------------------------------------------------------------------------

/// What an operation may run for what the reads before the write left: its one
/// write.
pub open spec fn may_write<R: CommandRunner, O: OneWrite>(
    runner: R,
    operation: O,
    guard: Result<O::Kept, O::Outcome>,
) -> bool {
    guard matches Ok(kept) ==> runner.allows(operation.request(kept.deep_view()))
}

/// Whether facts may be read after the write.
pub open spec fn may_see<R: CommandRunner, O: OneWrite, S: Fn(&Sent) -> O::Seen>(
    runner: R,
    operation: O,
    guard: Result<O::Kept, O::Outcome>,
    see: S,
) -> bool {
    guard matches Ok(kept) ==> forall|sent: Sent| #[trigger]
        command::was_sent(runner, operation.request(kept.deep_view()), sent) ==> call_requires(
            see,
            (&sent,),
        )
}

/// An operation may end so for what the reads before the write left. What is
/// seen is read once the write was answered.
pub open spec fn performed<R: CommandRunner, O: OneWrite, S: Fn(&Sent) -> O::Seen>(
    runner: R,
    operation: O,
    guard: Result<O::Kept, O::Outcome>,
    see: S,
    outcome: O::OutcomeView,
) -> bool {
    match guard {
        Err(known) => outcome == O::outcome_view(known),
        Ok(kept) => exists|sent: Sent| #[trigger]
            command::was_sent(runner, operation.request(kept.deep_view()), sent)
                && match operation.closed(kept.deep_view(), sent.answer()) {
                Some(closed) => outcome == closed,
                None => exists|seen: O::Seen|
                    #[trigger] call_ensures(see, (&sent,), seen) && outcome
                        == operation.concluded(
                        kept.deep_view(),
                        sent.answer(),
                        O::seen_view(seen),
                    ),
            },
    }
}

/// How an operation may have come to a step.
spec fn step_explained<R: CommandRunner, O: OneWrite, S: Fn(&Sent) -> O::Seen>(
    runner: R,
    operation: O,
    guard: Result<O::Kept, O::Outcome>,
    see: S,
    at: WriteStep<O::Kept, O::Outcome>,
) -> bool {
    match at {
        WriteStep::Guarding => false,
        WriteStep::Sending { kept, command } => guard is Ok && guard->Ok_0.deep_view()
            == kept.deep_view() && operation.request(kept.deep_view()) == command.deep_view(),
        WriteStep::Reading { kept, sent } => guard is Ok && guard->Ok_0.deep_view()
            == kept.deep_view() && command::was_sent(
            runner,
            operation.request(kept.deep_view()),
            sent,
        ) && operation.closed(kept.deep_view(), sent.answer()) is None,
        WriteStep::Done { outcome } => performed(
            runner,
            operation,
            guard,
            see,
            O::outcome_view(outcome),
        ),
    }
}

/// Carries an operation out for what the reads before the write left. Facts are
/// read by `see`, which is told of the write.
pub fn perform<R: CommandRunner, O: OneWrite, S: Fn(&Sent) -> O::Seen>(
    runner: &R,
    operation: &O,
    guard: Result<O::Kept, O::Outcome>,
    see: S,
) -> (r: O::Outcome)
    requires
        may_write(*runner, *operation, guard),
        may_see(*runner, *operation, guard, see),
    ensures
        performed(*runner, *operation, guard, see, O::outcome_view(r)),
{
    let ghost known = guard;
    let mut at = WriteStep::Guarding.step(operation, WriteEvent::Guarded(guard));
    loop
        invariant
            known == guard,
            may_write(*runner, *operation, known),
            may_see(*runner, *operation, known, see),
            step_explained(*runner, *operation, known, see, at),
        decreases 3 - step_view::<O>(at).rank(),
    {
        at = match at {
            WriteStep::Done { outcome } => {
                return outcome;
            },
            WriteStep::Sending { kept, command } => {
                let sent = send(runner, command.dup());
                assert(command::was_sent(*runner, command.deep_view(), sent));
                WriteStep::Sending { kept, command }.step(operation, WriteEvent::Answered(sent))
            },
            WriteStep::Reading { kept, sent } => {
                let seen = see(&sent);
                assert(call_ensures(see, (&sent,), seen));
                WriteStep::Reading { kept, sent }.step(operation, WriteEvent::Seen(seen))
            },
            WriteStep::Guarding => WriteStep::Guarding,
        };
    }
}

} // verus!
