//! What holds of the listener over whole sequences of events.

use crate::hotkey::{
    hotkey_held, pressed_after, step, Chord, InputEvent, ListenerState, SignalView,
};
use crate::keys::ModifierFlags;
use crate::label::label_text;
use vstd::prelude::*;

verus! {

/// The state that the listener reaches from `state` after `events`.
pub open spec fn run(state: ListenerState, events: Seq<InputEvent>) -> ListenerState
    decreases events.len(),
{
    if events.len() == 0 {
        state
    } else {
        step(run(state, events.drop_last()), events.last()).0
    }
}

/// The signal that the listener gives at the event `events[i]`, when it
/// starts in `state` and is handed `events` one by one.
pub open spec fn signal_at(state: ListenerState, events: Seq<InputEvent>, i: int) -> SignalView
    recommends
        0 <= i < events.len(),
{
    step(run(state, events.take(i)), events[i]).1
}

/// Whether all keys and modifiers of the armed hotkey are down right after
/// the event `events[i]`.
pub open spec fn held_at(state: ListenerState, events: Seq<InputEvent>, i: int) -> bool
    recommends
        0 <= i < events.len(),
{
    run(state, events.take(i + 1)).pressed.covers(state.hotkey)
}

/// How many of the events `events[from]` up to, but not including,
/// `events[to]` make the listener fire.
pub open spec fn fires_between(
    state: ListenerState,
    events: Seq<InputEvent>,
    from: int,
    to: int,
) -> nat
    decreases to - from,
{
    if to <= from {
        0
    } else {
        fires_between(state, events, from, to - 1) + if signal_at(state, events, to - 1)
            == SignalView::Fired {
            1nat
        } else {
            0nat
        }
    }
}

/// While no recording goes on, events change neither the hotkey nor the
/// recorder's side of the state, and the latch says whether the hotkey was
/// held after the last event.
pub proof fn lemma_matching_run(state: ListenerState, events: Seq<InputEvent>)
    requires
        !state.recording,
    ensures
        !run(state, events).recording,
        run(state, events).hotkey == state.hotkey,
        run(state, events).captured == state.captured,
        events.len() > 0 ==> run(state, events).hotkey_is_down == hotkey_held(
            state.hotkey,
            run(state, events).pressed,
        ),
        events.len() == 0 ==> run(state, events) == state,
    decreases events.len(),
{
    if events.len() > 0 {
        lemma_matching_run(state, events.drop_last());
    }
}

/// Edge triggering. With a hotkey that is not empty and no recording going
/// on, the listener fires at an event exactly when the hotkey is held after
/// that event and was not held after the event before (before the first
/// event: when the latch was not set).
pub proof fn law_fires_on_rising_edge(state: ListenerState, events: Seq<InputEvent>, i: int)
    requires
        !state.recording,
        !state.hotkey.is_empty(),
        0 <= i < events.len(),
    ensures
        signal_at(state, events, i) == SignalView::Fired <==> held_at(state, events, i) && !(if i
            == 0 {
            state.hotkey_is_down
        } else {
            held_at(state, events, i - 1)
        }),
        signal_at(state, events, i) == SignalView::Fired || signal_at(state, events, i)
            == SignalView::Quiet,
{
    let before = events.take(i);
    lemma_matching_run(state, before);
    assert(events.take(i + 1).drop_last() =~= before);
}

/// The listener fires exactly once in every stretch of events during which
/// the hotkey stays held and before which it was not held: at the first
/// event of the stretch, and at no other.
pub proof fn law_fires_once_per_hold(
    state: ListenerState,
    events: Seq<InputEvent>,
    from: int,
    to: int,
)
    requires
        !state.recording,
        !state.hotkey.is_empty(),
        0 <= from <= to < events.len(),
        forall|k: int| from <= k <= to ==> held_at(state, events, k),
        if from == 0 {
            !state.hotkey_is_down
        } else {
            !held_at(state, events, from - 1)
        },
    ensures
        signal_at(state, events, from) == SignalView::Fired,
        forall|k: int| from < k <= to ==> signal_at(state, events, k) != SignalView::Fired,
        fires_between(state, events, from, to + 1) == 1,
    decreases to - from,
{
    law_fires_on_rising_edge(state, events, from);
    assert forall|k: int| from < k <= to implies signal_at(state, events, k)
        != SignalView::Fired by {
        law_fires_on_rising_edge(state, events, k);
    }
    if from < to {
        law_fires_once_per_hold(state, events, from, to - 1);
    } else {
        assert(fires_between(state, events, from, from) == 0);
    }
}

/// With no recording going on, the listener never fires at an event after
/// which the hotkey is not held.
pub proof fn law_fires_only_while_held(state: ListenerState, events: Seq<InputEvent>, i: int)
    requires
        !state.recording,
        0 <= i < events.len(),
        !held_at(state, events, i),
    ensures
        signal_at(state, events, i) != SignalView::Fired,
{
    let before = events.take(i);
    lemma_matching_run(state, before);
    assert(events.take(i + 1).drop_last() =~= before);
}

/// An empty hotkey never fires, whatever goes down.
pub proof fn law_empty_hotkey_never_fires(state: ListenerState, events: Seq<InputEvent>, i: int)
    requires
        !state.recording,
        state.hotkey.is_empty(),
        0 <= i < events.len(),
    ensures
        signal_at(state, events, i) != SignalView::Fired,
{
    lemma_matching_run(state, events.take(i));
}

/// Pressing the hotkey fires, and keys and modifiers that are down besides
/// those of the hotkey do not prevent it. When after an event the keys and
/// modifiers of a hotkey that is not empty are down, with or without
/// others, and the hotkey was not held before, the listener fires.
pub proof fn law_pressing_the_hotkey_fires(
    state: ListenerState,
    event: InputEvent,
    other_keys: Set<u64>,
    other_modifiers: ModifierFlags,
)
    requires
        !state.recording,
        !state.hotkey.is_empty(),
        !state.hotkey_is_down,
        pressed_after(state.pressed, event) == (Chord {
            keys: state.hotkey.keys + other_keys,
            modifiers: ModifierFlags {
                bits: state.hotkey.modifiers.bits | other_modifiers.bits,
            },
        }),
    ensures
        step(state, event).1 == SignalView::Fired,
        step(state, event).0.hotkey_is_down,
{
    let wanted = state.hotkey.modifiers.bits;
    let other = other_modifiers.bits;
    assert((wanted | other) & wanted == wanted) by (bit_vector);
}

/// A hotkey that is not empty is never replaced by an empty one: whatever
/// the events, the listener stays armed.
pub proof fn law_hotkey_is_never_emptied(state: ListenerState, events: Seq<InputEvent>)
    requires
        !state.hotkey.is_empty(),
    ensures
        !run(state, events).hotkey.is_empty(),
    decreases events.len(),
{
    if events.len() > 0 {
        law_hotkey_is_never_emptied(state, events.drop_last());
    }
}

/// The modifiers that an event carries; a key that goes up carries none.
pub open spec fn carried_modifiers(event: InputEvent) -> ModifierFlags {
    match event {
        InputEvent::KeyDown { modifiers, .. } => modifiers,
        InputEvent::KeyUp { .. } => ModifierFlags { bits: 0 },
        InputEvent::ModifiersChanged { modifiers } => modifiers,
    }
}

/// The codes of the keys that go down in `events`.
pub open spec fn down_codes(events: Seq<InputEvent>) -> Set<u64> {
    Set::new(
        |code: u64|
            exists|i: int|
                0 <= i < events.len() && (#[trigger] events[i]) is KeyDown
                    && events[i]->KeyDown_code == code,
    )
}

/// What a recording that started with nothing has taken in after `events`,
/// none of which is a key going up: the keys that went down, and the
/// modifiers that the last event carried.
pub open spec fn taken_in(events: Seq<InputEvent>) -> Chord {
    Chord {
        keys: down_codes(events),
        modifiers: if events.len() == 0 {
            ModifierFlags { bits: 0 }
        } else {
            carried_modifiers(events.last())
        },
    }
}

/// During a recording, events other than a key going up are taken in and
/// change nothing else.
pub proof fn lemma_recording_run(state: ListenerState, events: Seq<InputEvent>)
    requires
        state.recording,
        state.captured == Chord::nothing(),
        forall|i: int| 0 <= i < events.len() ==> !((#[trigger] events[i]) is KeyUp),
    ensures
        run(state, events) == (ListenerState { captured: taken_in(events), ..state }),
    decreases events.len(),
{
    let end = run(state, events);
    if events.len() > 0 {
        let earlier = events.drop_last();
        lemma_recording_run(state, earlier);
        assert(end.captured.keys =~= down_codes(events)) by {
            assert forall|code: u64| end.captured.keys.contains(code) <==> down_codes(
                events,
            ).contains(code) by {
                if down_codes(events).contains(code) {
                    let i = choose|i: int|
                        0 <= i < events.len() && (#[trigger] events[i]) is KeyDown
                            && events[i]->KeyDown_code == code;
                    if i < earlier.len() {
                        assert(earlier[i] == events[i]);
                    }
                }
            }
        }
    }
}

/// The recording law. A recording that starts with nothing taken in, sees
/// key-down and modifier events of which at least one is a key going down,
/// and then a key going up, replaces the hotkey: its keys are the keys that
/// went down, its modifiers are those that the last event before the key-up
/// carried. The recording is over, nothing taken in is left, and what the
/// matcher knows is as it was.
pub proof fn law_recording_commits_what_went_down(
    state: ListenerState,
    events: Seq<InputEvent>,
    released: u64,
)
    requires
        state.recording,
        state.captured == Chord::nothing(),
        forall|i: int| 0 <= i < events.len() ==> !((#[trigger] events[i]) is KeyUp),
        exists|i: int| 0 <= i < events.len() && (#[trigger] events[i]) is KeyDown,
    ensures
        ({
            let all = events.push(InputEvent::KeyUp { code: released });
            let end = run(state, all);
            &&& end.hotkey.keys == down_codes(events)
            &&& end.hotkey.modifiers == carried_modifiers(events.last())
            &&& !end.recording
            &&& end.captured == Chord::nothing()
            &&& end.pressed == state.pressed
            &&& end.hotkey_is_down == state.hotkey_is_down
            &&& signal_at(state, all, events.len() as int) == SignalView::Committed(
                label_text(end.hotkey.keys, end.hotkey.modifiers),
            )
        }),
{
    let all = events.push(InputEvent::KeyUp { code: released });
    lemma_recording_run(state, events);
    assert(all.drop_last() =~= events);
    let i = choose|i: int| 0 <= i < events.len() && (#[trigger] events[i]) is KeyDown;
    assert(down_codes(events).contains(events[i]->KeyDown_code));
}

/// Ending a recording that has taken in nothing leaves the hotkey as it
/// was, and ends the recording.
pub proof fn law_empty_recording_keeps_hotkey(state: ListenerState, released: u64)
    requires
        state.recording,
        state.captured.is_empty(),
    ensures
        ({
            let (end, signal) = step(state, InputEvent::KeyUp { code: released });
            &&& end.hotkey == state.hotkey
            &&& !end.recording
            &&& end.captured == Chord::nothing()
            &&& signal == SignalView::Ended
        }),
{
}

} // verus!
