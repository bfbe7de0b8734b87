//! Whole runs of a producer: what it hands out over any sequence of events,
//! and what holds of every such run.

use vstd::prelude::*;
use crate::generator::{history, record};
use crate::messages::{ServiceError, TransactionRecord};
use crate::producer::{ActionView, Phase, ProducerEvent, ProducerState};

verus! {

/// Where a run ends, and the actions handed out on the way, one per event.
pub struct Run {
    pub state: ProducerState,
    pub actions: Seq<ActionView>,
}

/// The run of a producer that starts in `start` and is told `events` in turn.
pub open spec fn run(start: ProducerState, events: Seq<ProducerEvent>) -> Run
    decreases events.len(),
{
    if events.len() == 0 {
        Run { state: start, actions: Seq::empty() }
    } else {
        let before = run(start, events.drop_last());
        let (state, action) = before.state.step(events.last());
        Run { state, actions: before.actions.push(action) }
    }
}

/// The items that `actions` ask to write to the pipe, in order.
pub open spec fn written(actions: Seq<ActionView>) -> Seq<Result<TransactionRecord, ServiceError>>
    decreases actions.len(),
{
    if actions.len() == 0 {
        Seq::empty()
    } else {
        let earlier = written(actions.drop_last());
        match actions.last() {
            ActionView::Send(item) => earlier.push(item),
            _ => earlier,
        }
    }
}

/// How many writes the pipe took, by what `events` tell.
pub open spec fn accepted(events: Seq<ProducerEvent>) -> nat
    decreases events.len(),
{
    if events.len() == 0 {
        0
    } else if events.last() == ProducerEvent::Sent {
        accepted(events.drop_last()) + 1
    } else {
        accepted(events.drop_last())
    }
}

/// The records of a history from place `from` up to, not including, place
/// `to`, each as an item that carries no failure.
pub open spec fn stretch(from: nat, to: nat) -> Seq<Result<TransactionRecord, ServiceError>>
    recommends
        from <= to,
{
    history(to).subrange(from as int, to as int).map_values(|r: TransactionRecord| Ok(r))
}

/// A run over `first` and then `second` is the run over `first`, followed by
/// the run over `second` from where the first one ended.
pub proof fn lemma_run_append(
    start: ProducerState,
    first: Seq<ProducerEvent>,
    second: Seq<ProducerEvent>,
)
    ensures
        run(start, first + second).state == run(run(start, first).state, second).state,
        run(start, first + second).actions == run(start, first).actions + run(
            run(start, first).state,
            second,
        ).actions,
    decreases second.len(),
{
    let middle = run(start, first).state;
    if second.len() == 0 {
        assert(first + second =~= first);
        assert(run(start, first).actions + run(middle, second).actions =~= run(
            start,
            first,
        ).actions);
    } else {
        lemma_run_append(start, first, second.drop_last());
        assert((first + second).drop_last() =~= first + second.drop_last());
        assert((first + second).last() == second.last());
        assert(run(start, first + second).actions =~= run(start, first).actions + run(
            middle,
            second,
        ).actions);
    }
}

/// A run over one event is one step.
pub proof fn lemma_run_single(start: ProducerState, event: ProducerEvent)
    ensures
        run(start, seq![event]).state == start.step(event).0,
        run(start, seq![event]).actions == seq![start.step(event).1],
{
    let events = seq![event];
    assert(events.drop_last() =~= Seq::<ProducerEvent>::empty());
    assert(run(start, events.drop_last()).actions =~= Seq::<ActionView>::empty());
    assert(run(start, events).actions =~= seq![start.step(event).1]);
}

/// What two stretches of actions ask to write is what the first asks,
/// followed by what the second asks.
pub proof fn lemma_written_append(first: Seq<ActionView>, second: Seq<ActionView>)
    ensures
        written(first + second) == written(first) + written(second),
    decreases second.len(),
{
    if second.len() == 0 {
        assert(first + second =~= first);
        assert(written(first) + written(second) =~= written(first));
    } else {
        lemma_written_append(first, second.drop_last());
        assert((first + second).drop_last() =~= first + second.drop_last());
        assert((first + second).last() == second.last());
        assert(written(first + second) =~= written(first) + written(second));
    }
}

/// Order, and nothing twice or left out: whatever the events, a producer
/// hands out the records from the place where it started to the place where
/// it stands, each once, in rising order, and none as a failure. It never
/// goes past the end of the history.
pub proof fn lemma_records_in_order(start: ProducerState, events: Seq<ProducerEvent>)
    requires
        start.records.position <= start.records.count,
    ensures
        start.records.position <= run(start, events).state.records.position
            <= start.records.count,
        run(start, events).state.records.count == start.records.count,
        run(start, events).state.batch == start.batch,
        run(start, events).state.pause_secs == start.pause_secs,
        run(start, events).actions.len() == events.len(),
        written(run(start, events).actions) == stretch(
            start.records.position,
            run(start, events).state.records.position,
        ),
    decreases events.len(),
{
    let from = start.records.position;
    if events.len() == 0 {
        assert(written(run(start, events).actions) =~= stretch(from, from));
    } else {
        lemma_records_in_order(start, events.drop_last());
        let before = run(start, events.drop_last());
        let after = run(start, events);
        let mid = before.state.records.position;
        let to = after.state.records.position;
        assert(after.actions.drop_last() =~= before.actions);
        if to == mid {
            assert(written(after.actions) == written(before.actions));
        } else {
            assert(to == mid + 1);
            assert(after.actions.last() == ActionView::Send(Ok(record(mid))));
            assert(written(after.actions) == written(before.actions).push(Ok(record(mid))));
            assert(stretch(from, mid).push(Ok(record(mid))) =~= stretch(from, to));
        }
    }
}

/// One write in flight: whatever the events, the producer has handed out at
/// most one record more than the pipe took, and when it stands idle or
/// pausing, not one more. So a record is made only after the pipe took the
/// one before.
pub proof fn lemma_one_write_in_flight(start: ProducerState, events: Seq<ProducerEvent>)
    ensures
        run(start, events).state.records.position <= start.records.position + accepted(events)
            + 1,
        run(start, events).state.phase == Phase::Idle || run(start, events).state.phase
            == Phase::Pausing ==> run(start, events).state.records.position
            <= start.records.position + accepted(events),
    decreases events.len(),
{
    if events.len() > 0 {
        lemma_one_write_in_flight(start, events.drop_last());
    }
}

/// A closed producer stays as it is: it answers every event with `Close`
/// and makes no record.
pub proof fn lemma_closed_stays_closed(start: ProducerState, events: Seq<ProducerEvent>)
    requires
        start.phase == Phase::Closed,
    ensures
        run(start, events).state == start,
        run(start, events).actions == Seq::new(events.len(), |i: int| ActionView::Close),
        written(run(start, events).actions) == Seq::<
            Result<TransactionRecord, ServiceError>,
        >::empty(),
    decreases events.len(),
{
    if events.len() == 0 {
        assert(run(start, events).actions =~= Seq::new(events.len(), |i: int| ActionView::Close));
    } else {
        lemma_closed_stays_closed(start, events.drop_last());
        assert(start.closed() == start);
        assert(run(start, events).actions =~= Seq::new(events.len(), |i: int| ActionView::Close));
        assert(run(start, events).actions.drop_last() =~= run(start, events.drop_last()).actions);
    }
}

/// Cancellation: once a write fails because the consumer is gone, the
/// producer is closed by that very event. It makes no record in answer, and
/// none ever after, whatever events follow: all it hands out is `Close`.
pub proof fn lemma_consumer_gone_stops(
    start: ProducerState,
    before: Seq<ProducerEvent>,
    after: Seq<ProducerEvent>,
)
    ensures
        ({
            let then = run(start, before);
            let events = before.push(ProducerEvent::ConsumerGone) + after;
            &&& run(start, events).state == then.state.closed()
            &&& run(start, events).actions == then.actions + Seq::new(
                after.len() + 1,
                |i: int| ActionView::Close,
            )
            &&& written(run(start, events).actions) == written(then.actions)
        }),
{
    let then = run(start, before);
    let gone = seq![ProducerEvent::ConsumerGone];
    let shut = then.state.closed();
    let rest = run(shut, after);
    assert(before.push(ProducerEvent::ConsumerGone) =~= before + gone);
    lemma_run_append(start, before, gone);
    lemma_run_single(then.state, ProducerEvent::ConsumerGone);
    lemma_run_append(start, before + gone, after);
    lemma_closed_stays_closed(shut, after);
    assert(run(start, before + gone + after).actions =~= then.actions + Seq::new(
        after.len() + 1,
        |i: int| ActionView::Close,
    ));
    lemma_written_append(then.actions + seq![ActionView::Close], rest.actions);
    lemma_written_append(then.actions, seq![ActionView::Close]);
    assert(written(seq![ActionView::Close]) =~= Seq::empty()) by {
        reveal_with_fuel(written, 2);
    }
    assert(written(then.actions) + Seq::empty() + Seq::empty() =~= written(then.actions));
}

/// How many steps a producer can still take before it closes, at most.
pub open spec fn steps_left(state: ProducerState) -> nat {
    let records_left: nat = if state.records.position <= state.records.count {
        (state.records.count - state.records.position) as nat
    } else {
        0
    };
    2 * records_left + match state.phase {
        Phase::Sending => 2nat,
        Phase::Idle => 1nat,
        Phase::Pausing => 1nat,
        Phase::Closed => 0nat,
    }
}

/// The events of a drive that nothing hinders, from `event` on: every write
/// is taken by the pipe and every pause ends, until the producer closes.
pub open spec fn unhindered(state: ProducerState, event: ProducerEvent) -> Seq<ProducerEvent>
    decreases steps_left(state),
{
    let (next, action) = state.step(event);
    match action {
        ActionView::Send(_) => seq![event] + unhindered(next, ProducerEvent::Sent),
        ActionView::Pause(_) => seq![event] + unhindered(next, ProducerEvent::Resumed),
        ActionView::Close => seq![event],
    }
}

/// `event` is the one that a producer in `state` waits for.
pub open spec fn awaited(state: ProducerState, event: ProducerEvent) -> bool {
    ||| state.phase == Phase::Idle && event == ProducerEvent::Started
    ||| state.phase == Phase::Sending && event == ProducerEvent::Sent
    ||| state.phase == Phase::Pausing && event == ProducerEvent::Resumed
}

/// From any state that waits for `event`, an unhindered drive ends closed at
/// the end of the history, and `Close` is the last action and no other.
pub proof fn lemma_unhindered_reaches_end(state: ProducerState, event: ProducerEvent)
    requires
        awaited(state, event),
        state.records.position <= state.records.count,
    ensures
        ({
            let r = run(state, unhindered(state, event));
            &&& r.state.phase == Phase::Closed
            &&& r.state.records.position == state.records.count
            &&& r.actions.len() >= 1
            &&& r.actions.last() == ActionView::Close
            &&& forall|i: int| 0 <= i < r.actions.len() - 1 ==> r.actions[i] != ActionView::Close
        }),
    decreases steps_left(state),
{
    let (next, action) = state.step(event);
    lemma_run_single(state, event);
    match action {
        ActionView::Close => {},
        _ => {
            let reply = if action is Send {
                ProducerEvent::Sent
            } else {
                ProducerEvent::Resumed
            };
            let rest = unhindered(next, reply);
            assert(unhindered(state, event) == seq![event] + rest);
            lemma_unhindered_reaches_end(next, reply);
            lemma_run_append(state, seq![event], rest);
            let r = run(state, unhindered(state, event));
            let tail = run(next, rest);
            assert(r.actions == seq![action] + tail.actions);
            assert forall|i: int| 0 <= i < r.actions.len() - 1 implies r.actions[i]
                != ActionView::Close by {
                if i > 0 {
                    assert(r.actions[i] == tail.actions[i - 1]);
                }
            }
        },
    }
}

/// Completeness: a producer that has not begun, driven with nothing in its
/// way, hands out every record that is left, each once and in rising order,
/// and then closes.
pub proof fn lemma_unhindered_run_is_complete(start: ProducerState)
    requires
        start.phase == Phase::Idle,
        start.records.position <= start.records.count,
    ensures
        ({
            let r = run(start, unhindered(start, ProducerEvent::Started));
            &&& written(r.actions) == stretch(start.records.position, start.records.count)
            &&& r.state.phase == Phase::Closed
            &&& r.actions.last() == ActionView::Close
            &&& forall|i: int| 0 <= i < r.actions.len() - 1 ==> r.actions[i] != ActionView::Close
        }),
{
    lemma_unhindered_reaches_end(start, ProducerEvent::Started);
    lemma_records_in_order(start, unhindered(start, ProducerEvent::Started));
}

/// The events of `schedule` that go to one of two producers: to the first
/// where `to_first` holds, else to the second.
pub open spec fn events_for(schedule: Seq<(bool, ProducerEvent)>, to_first: bool) -> Seq<
    ProducerEvent,
>
    decreases schedule.len(),
{
    if schedule.len() == 0 {
        Seq::empty()
    } else {
        let earlier = events_for(schedule.drop_last(), to_first);
        if schedule.last().0 == to_first {
            earlier.push(schedule.last().1)
        } else {
            earlier
        }
    }
}

/// Two producers run side by side: each entry of `schedule` is the next
/// event of one of them.
pub open spec fn run_two(
    first: ProducerState,
    second: ProducerState,
    schedule: Seq<(bool, ProducerEvent)>,
) -> (Run, Run)
    decreases schedule.len(),
{
    if schedule.len() == 0 {
        (
            Run { state: first, actions: Seq::empty() },
            Run { state: second, actions: Seq::empty() },
        )
    } else {
        let (a, b) = run_two(first, second, schedule.drop_last());
        let event = schedule.last().1;
        if schedule.last().0 {
            let (state, action) = a.state.step(event);
            (Run { state, actions: a.actions.push(action) }, b)
        } else {
            let (state, action) = b.state.step(event);
            (a, Run { state, actions: b.actions.push(action) })
        }
    }
}

/// Independence: however the events of two producers are interleaved, each
/// producer runs as it would alone on its own events.
pub proof fn lemma_streams_are_independent(
    first: ProducerState,
    second: ProducerState,
    schedule: Seq<(bool, ProducerEvent)>,
)
    ensures
        run_two(first, second, schedule).0 == run(first, events_for(schedule, true)),
        run_two(first, second, schedule).1 == run(second, events_for(schedule, false)),
    decreases schedule.len(),
{
    if schedule.len() > 0 {
        lemma_streams_are_independent(first, second, schedule.drop_last());
        let event = schedule.last().1;
        let to_first = schedule.last().0;
        let earlier = events_for(schedule.drop_last(), to_first);
        assert(earlier.push(event).drop_last() =~= earlier);
        assert(earlier.push(event).last() == event);
    }
}

} // verus!
