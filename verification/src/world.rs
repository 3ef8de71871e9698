//! Runs of the monitor against a model of its surroundings, and the laws that
//! hold of every run.
//!
//! The model holds what can be seen of the surroundings from outside: the log
//! that a load of the persisted document yields, and the changes that the
//! subscriber has been told of. A run feeds the monitor the outcomes of the
//! actions it asks for, one after the other.
//!
//! The model gives the monitor the persisted document for itself: nothing else
//! writes or removes the document while a cycle is under way.

use crate::history::{adjacent_distinct, announced, is_new, observe, observe_all, Log, Text};
use crate::monitor::{
    transition,
    ActionView,
    EventView,
    Failure,
    MonitorView,
    POLL_PERIOD_SECS,
};
use vstd::prelude::*;

verus! {

/// What can be seen of the monitor's surroundings.
pub struct World {
    /// The log that loading the persisted document yields: empty where the
    /// document is missing or does not hold a history.
    pub stored: Log,
    /// The changes that the subscriber has been told of, oldest first.
    pub published: Seq<Text>,
}

/// A monitor in its surroundings, with the action it has asked for and whose
/// outcome it waits for.
pub struct Cycle {
    pub monitor: MonitorView,
    pub pending: ActionView,
    pub world: World,
}

/// A running monitor at the start of a tick: it has asked for the clipboard
/// to be read. This is where starting an idle monitor leads, and where each
/// tick ends.
pub open spec fn polling(world: World) -> Cycle {
    Cycle { monitor: MonitorView::Reading, pending: ActionView::ReadClipboard, world }
}

/// Whether `event` can be the outcome of the action that `cycle` waits for.
/// A load yields what is stored; a halted monitor waits for nothing.
pub open spec fn answers(cycle: Cycle, event: EventView) -> bool {
    match cycle.pending {
        ActionView::ReadClipboard => event is Snapshot,
        ActionView::Report(_) => event is Reported,
        ActionView::LoadHistory => event == EventView::Loaded(cycle.world.stored),
        ActionView::Persist(_) => event is Persisted,
        ActionView::Publish(_) => event is Published,
        ActionView::Sleep(_) => event is Woke,
        ActionView::Halt(_) => false,
    }
}

/// The surroundings after `action` has had the outcome `event`. A write that
/// succeeded has replaced the document, a delivery that succeeded has told
/// the subscriber. A write that failed may leave anything behind.
pub open spec fn outcome(world: World, action: ActionView, event: EventView) -> World {
    match (action, event) {
        (ActionView::Persist(log), EventView::Persisted(Ok(_))) => World { stored: log, ..world },
        (ActionView::Persist(_), EventView::Persisted(Err(_))) => World {
            stored: arbitrary(),
            ..world
        },
        (ActionView::Publish(text), EventView::Published(Ok(_))) => World {
            published: world.published.push(text),
            ..world
        },
        _ => world,
    }
}

/// The cycle after `event` has come in.
pub open spec fn advance(cycle: Cycle, event: EventView) -> Cycle {
    let (monitor, pending) = transition(cycle.monitor, event);
    Cycle { monitor, pending, world: outcome(cycle.world, cycle.pending, event) }
}

/// The cycle after `events` have come in, in turn.
pub open spec fn run(cycle: Cycle, events: Seq<EventView>) -> Cycle
    decreases events.len(),
{
    if events.len() == 0 {
        cycle
    } else {
        run(advance(cycle, events.first()), events.drop_first())
    }
}

/// Whether each of `events`, when its turn comes, is an outcome of the action
/// that the cycle then waits for.
pub open spec fn accepts(cycle: Cycle, events: Seq<EventView>) -> bool
    decreases events.len(),
{
    events.len() > 0 ==> answers(cycle, events.first()) && accepts(
        advance(cycle, events.first()),
        events.drop_first(),
    )
}

/// The monitor's state and the action it waits for belong together, and what
/// it asks to persist or to publish fits what is stored.
pub open spec fn coherent(cycle: Cycle) -> bool {
    match cycle.pending {
        ActionView::ReadClipboard => cycle.monitor == MonitorView::Reading,
        ActionView::Report(_) => cycle.monitor == MonitorView::Reporting,
        ActionView::LoadHistory => cycle.monitor is Loading,
        ActionView::Persist(log) => {
            &&& cycle.monitor is Persisting
            &&& is_new(cycle.world.stored, cycle.monitor->Persisting_snapshot)
            &&& log == cycle.world.stored.push(cycle.monitor->Persisting_snapshot)
        },
        ActionView::Publish(text) => {
            &&& cycle.monitor == MonitorView::Publishing
            &&& cycle.world.stored.len() > 0
            &&& cycle.world.stored.last() == text
        },
        ActionView::Sleep(seconds) => {
            &&& cycle.monitor == MonitorView::Sleeping
            &&& seconds == POLL_PERIOD_SECS
        },
        ActionView::Halt(failure) => cycle.monitor == MonitorView::Halted(failure),
    }
}

/// Whether no write fails among `events`.
pub open spec fn writes_succeed(events: Seq<EventView>) -> bool {
    forall|i: int|
        0 <= i < events.len() ==> !(#[trigger] events[i] matches EventView::Persisted(Err(_)))
}

/// The outcomes of one tick in which the clipboard holds `value`, `stored` is
/// what the persisted document holds, and nothing fails.
pub open spec fn tick_script(stored: Log, value: Text) -> Seq<EventView> {
    if is_new(stored, value) {
        seq![
            EventView::Snapshot(Ok(value)),
            EventView::Loaded(stored),
            EventView::Persisted(Ok(())),
            EventView::Published(Ok(())),
            EventView::Woke,
        ]
    } else {
        seq![EventView::Snapshot(Ok(value)), EventView::Loaded(stored), EventView::Woke]
    }
}

/// The outcomes of one tick in which the clipboard cannot be read.
pub open spec fn failed_read_script(message: Text) -> Seq<EventView> {
    seq![EventView::Snapshot(Err(message)), EventView::Reported, EventView::Woke]
}

/// The outcomes of as many ticks as `values` has entries, the clipboard
/// holding one value after the other, starting with `stored` in the persisted
/// document, and with nothing failing.
pub open spec fn script(stored: Log, values: Seq<Text>) -> Seq<EventView>
    decreases values.len(),
{
    if values.len() == 0 {
        Seq::empty()
    } else {
        tick_script(stored, values.first()) + script(
            observe(stored, values.first()),
            values.drop_first(),
        )
    }
}

/// Starting an idle monitor makes it poll.
pub proof fn lemma_start_polls(world: World)
    ensures
        transition(MonitorView::Idle, EventView::Started) == (
            polling(world).monitor,
            polling(world).pending,
        ),
        coherent(polling(world)),
{
}

/// Coherence is kept by every outcome that the cycle can meet.
pub proof fn lemma_advance_keeps_coherent(cycle: Cycle, event: EventView)
    requires
        coherent(cycle),
        answers(cycle, event),
    ensures
        coherent(advance(cycle, event)),
{
}

/// Coherence is kept throughout a run.
pub proof fn lemma_run_keeps_coherent(cycle: Cycle, events: Seq<EventView>)
    requires
        coherent(cycle),
        accepts(cycle, events),
    ensures
        coherent(run(cycle, events)),
    decreases events.len(),
{
    if events.len() > 0 {
        lemma_advance_keeps_coherent(cycle, events.first());
        lemma_run_keeps_coherent(advance(cycle, events.first()), events.drop_first());
    }
}

/// A change is published only after it has been persisted: whenever an
/// outcome tells the subscriber something, it tells exactly one value, and
/// the log that a load yields from then on ends with that value.
pub proof fn lemma_published_value_is_persisted(cycle: Cycle, event: EventView)
    requires
        coherent(cycle),
        answers(cycle, event),
        advance(cycle, event).world.published != cycle.world.published,
    ensures
        cycle.pending is Publish,
        event is Published,
        advance(cycle, event).world.published == cycle.world.published.push(
            cycle.pending->Publish_0,
        ),
        advance(cycle, event).world.stored.len() > 0,
        advance(cycle, event).world.stored.last() == cycle.pending->Publish_0,
{
}

/// Unless a write fails, the persisted log changes in one way only: a value
/// that differs from its last entry is appended to it.
pub proof fn lemma_stored_grows_by_new_value(cycle: Cycle, event: EventView)
    requires
        coherent(cycle),
        answers(cycle, event),
        !(event matches EventView::Persisted(Err(_))),
    ensures
        ({
            let before = cycle.world.stored;
            let after = advance(cycle, event).world.stored;
            after == before || exists|value: Text|
                is_new(before, value) && after == #[trigger] before.push(value)
        }),
{
}

/// Whatever the clipboard holds from tick to tick, and whatever else happens
/// in a run, a persisted log without adjacent repeats stays without them, as
/// long as no write fails.
pub proof fn lemma_run_keeps_adjacent_distinct(cycle: Cycle, events: Seq<EventView>)
    requires
        coherent(cycle),
        accepts(cycle, events),
        writes_succeed(events),
        adjacent_distinct(cycle.world.stored),
    ensures
        adjacent_distinct(run(cycle, events).world.stored),
    decreases events.len(),
{
    if events.len() > 0 {
        let event = events.first();
        let rest = events.drop_first();
        lemma_advance_keeps_coherent(cycle, event);
        lemma_stored_grows_by_new_value(cycle, event);
        lemma_run_keeps_adjacent_distinct(advance(cycle, event), rest);
    }
}

/// A monitor halts only where a write or a delivery failed. No outcome of an
/// action that it asked for is unexpected to it.
pub proof fn lemma_halts_only_on_failure(cycle: Cycle, event: EventView)
    requires
        coherent(cycle),
        answers(cycle, event),
        advance(cycle, event).monitor is Halted,
    ensures
        (event matches EventView::Persisted(Err(_)) && advance(cycle, event).monitor
            == MonitorView::Halted(Failure::NotPersisted)) || (event matches EventView::Published(
            Err(_),
        ) && advance(cycle, event).monitor == MonitorView::Halted(Failure::NotPublished)),
{
}

/// A run over two stretches of outcomes is the run over the first, followed
/// by the run over the second.
pub proof fn lemma_run_concat(cycle: Cycle, first: Seq<EventView>, second: Seq<EventView>)
    ensures
        run(cycle, first + second) == run(run(cycle, first), second),
        accepts(cycle, first + second) == (accepts(cycle, first) && accepts(
            run(cycle, first),
            second,
        )),
    decreases first.len(),
{
    if first.len() > 0 {
        assert((first + second).drop_first() =~= first.drop_first() + second);
        lemma_run_concat(advance(cycle, first.first()), first.drop_first(), second);
    }
}

/// A run over an outcome followed by others is the run over the others, from
/// where the first leads.
proof fn lemma_run_unfold(cycle: Cycle, events: Seq<EventView>)
    requires
        events.len() > 0,
    ensures
        run(cycle, events) == run(advance(cycle, events.first()), events.drop_first()),
        accepts(cycle, events) == (answers(cycle, events.first()) && accepts(
            advance(cycle, events.first()),
            events.drop_first(),
        )),
{
}

/// Where a run stands after the first `count` of `events` have come in, the
/// next of them is an outcome of what the cycle then waits for, and leads to
/// where the run stands after it.
pub proof fn lemma_run_step(cycle: Cycle, events: Seq<EventView>, count: int)
    requires
        coherent(cycle),
        accepts(cycle, events),
        0 <= count < events.len(),
    ensures
        coherent(run(cycle, events.take(count))),
        answers(run(cycle, events.take(count)), events[count]),
        run(cycle, events.take(count + 1)) == advance(
            run(cycle, events.take(count)),
            events[count],
        ),
{
    let before = events.take(count);
    let after = events.skip(count);
    let next = seq![events[count]];
    assert(events =~= before + after);
    assert(events.take(count + 1) =~= before + next);
    lemma_run_concat(cycle, before, after);
    lemma_run_concat(cycle, before, next);
    lemma_run_keeps_coherent(cycle, before);
    lemma_run_unfold(run(cycle, before), after);
    lemma_run_unfold(run(cycle, before), next);
}

/// Throughout a run, every change that the subscriber is told of has been
/// persisted before: at whichever point of the run something is published,
/// it is one value, and the log that a load yields right after ends with it.
pub proof fn lemma_run_publishes_what_is_persisted(
    cycle: Cycle,
    events: Seq<EventView>,
    count: int,
)
    requires
        coherent(cycle),
        accepts(cycle, events),
        0 <= count < events.len(),
        run(cycle, events.take(count + 1)).world.published != run(
            cycle,
            events.take(count),
        ).world.published,
    ensures
        ({
            let before = run(cycle, events.take(count));
            let after = run(cycle, events.take(count + 1));
            &&& before.pending is Publish
            &&& after.world.published == before.world.published.push(before.pending->Publish_0)
            &&& after.world.stored.len() > 0
            &&& after.world.stored.last() == before.pending->Publish_0
        }),
{
    lemma_run_step(cycle, events, count);
    lemma_published_value_is_persisted(run(cycle, events.take(count)), events[count]);
}

/// One tick without failure observes the clipboard's value: the persisted log
/// becomes what observing the value makes of it, the subscriber is told the
/// value if and only if it was new, and the monitor polls again.
pub proof fn lemma_tick_observes(world: World, value: Text)
    ensures
        accepts(polling(world), tick_script(world.stored, value)),
        run(polling(world), tick_script(world.stored, value)) == polling(
            World {
                stored: observe(world.stored, value),
                published: if is_new(world.stored, value) {
                    world.published.push(value)
                } else {
                    world.published
                },
            },
        ),
{
    let events = tick_script(world.stored, value);
    let c0 = polling(world);
    let c1 = advance(c0, events[0]);
    let c2 = advance(c1, events[1]);
    let rest1 = events.drop_first();
    let rest2 = rest1.drop_first();
    lemma_run_unfold(c0, events);
    lemma_run_unfold(c1, rest1);
    lemma_run_unfold(c2, rest2);
    if is_new(world.stored, value) {
        let c3 = advance(c2, events[2]);
        let c4 = advance(c3, events[3]);
        let rest3 = rest2.drop_first();
        let rest4 = rest3.drop_first();
        lemma_run_unfold(c3, rest3);
        lemma_run_unfold(c4, rest4);
    }
}

/// A tick in which the clipboard cannot be read changes nothing: the
/// persisted log stays as it is, the subscriber is told nothing, and the
/// monitor polls again.
pub proof fn lemma_failed_read_changes_nothing(world: World, message: Text)
    ensures
        accepts(polling(world), failed_read_script(message)),
        run(polling(world), failed_read_script(message)) == polling(world),
{
    let events = failed_read_script(message);
    let c0 = polling(world);
    let c1 = advance(c0, events[0]);
    let c2 = advance(c1, events[1]);
    let rest1 = events.drop_first();
    let rest2 = rest1.drop_first();
    lemma_run_unfold(c0, events);
    lemma_run_unfold(c1, rest1);
    lemma_run_unfold(c2, rest2);
}

/// Ticks without failure observe the clipboard's values in turn: afterwards
/// the persisted log is what observing all of them makes of it, the
/// subscriber has been told exactly the values that were new when their turn
/// came, and the monitor polls again.
pub proof fn lemma_ticks_observe_all(world: World, values: Seq<Text>)
    ensures
        accepts(polling(world), script(world.stored, values)),
        run(polling(world), script(world.stored, values)) == polling(
            World {
                stored: observe_all(world.stored, values),
                published: world.published + announced(world.stored, values),
            },
        ),
    decreases values.len(),
{
    if values.len() > 0 {
        let value = values.first();
        let rest = values.drop_first();
        let next = World {
            stored: observe(world.stored, value),
            published: if is_new(world.stored, value) {
                world.published.push(value)
            } else {
                world.published
            },
        };
        lemma_tick_observes(world, value);
        lemma_ticks_observe_all(next, rest);
        lemma_run_concat(
            polling(world),
            tick_script(world.stored, value),
            script(next.stored, rest),
        );
        assert(next.published + announced(next.stored, rest) =~= world.published + announced(
            world.stored,
            values,
        ));
    }
}

} // verus!
