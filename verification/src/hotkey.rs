//! The armed hotkey, the state of the keyboard as the hook reports it, and
//! the listener that either matches the hotkey or records a new one.

use crate::keys::{ModifierFlags, FLAG_SHIFT};
use crate::label::{hotkey_label, label_text};
use std::collections::HashSet;
use vstd::prelude::*;

verus! {

broadcast use vstd::std_specs::hash::group_hash_axioms;

/// A chord: a set of key codes together with a set of modifier flags.
#[verifier::ext_equal]
pub struct Chord {
    pub keys: Set<u64>,
    pub modifiers: ModifierFlags,
}

impl Chord {
    /// The chord of no key and no modifier.
    pub open spec fn nothing() -> Chord {
        Chord { keys: Set::empty(), modifiers: ModifierFlags { bits: 0 } }
    }

    /// Whether the chord has neither a key nor a modifier.
    pub open spec fn is_empty(self) -> bool {
        self.keys.is_empty() && self.modifiers.is_empty()
    }

    /// Whether every key and every modifier of `other` is in this chord too.
    /// Keys and modifiers beyond those of `other` do not matter.
    pub open spec fn covers(self, other: Chord) -> bool {
        other.keys.subset_of(self.keys) && self.modifiers.contains(other.modifiers)
    }
}

/// One event of the keyboard hook.
#[derive(Clone, Copy, Debug, PartialEq, Eq, Structural)]
pub enum InputEvent {
    /// A key went down while `modifiers` were active.
    KeyDown { code: u64, modifiers: ModifierFlags },
    /// A key went up.
    KeyUp { code: u64 },
    /// The set of active modifiers changed to `modifiers`.
    ModifiersChanged { modifiers: ModifierFlags },
}

/// Whether every key of `want` is in `have`.
fn contains_all(have: &HashSet<u64>, want: &HashSet<u64>) -> (all: bool)
    ensures
        all == want@.subset_of(have@),
{
    for key in it: want.iter()
        invariant
            it.seq().unref().to_set() == want@,
            forall|j: int| 0 <= j < it.index() ==> have@.contains(#[trigger] it.seq().unref()[j]),
            it.index() == it.seq().len() ==> want@.subset_of(have@),
    {
        if !have.contains(key) {
            return false;
        }
    }
    true
}

/// The armed hotkey: the keys and the modifiers that must be down together
/// for the hotkey to count as pressed.
pub struct HotkeyDefinition {
    keys: HashSet<u64>,
    modifiers: ModifierFlags,
}

impl View for HotkeyDefinition {
    type V = Chord;

    closed spec fn view(&self) -> Chord {
        Chord { keys: self.keys@, modifiers: self.modifiers }
    }
}

impl HotkeyDefinition {
    /// The hotkey of the keys `keys` and the modifiers `modifiers`.
    pub fn new(keys: HashSet<u64>, modifiers: ModifierFlags) -> (hotkey: HotkeyDefinition)
        ensures
            hotkey@ == (Chord { keys: keys@, modifiers }),
    {
        HotkeyDefinition { keys, modifiers }
    }

    /// The hotkey that is armed before the user has recorded one: Shift
    /// alone.
    pub fn shift_alone() -> (hotkey: HotkeyDefinition)
        ensures
            hotkey@ == (Chord {
                keys: Set::empty(),
                modifiers: ModifierFlags { bits: FLAG_SHIFT },
            }),
            !hotkey@.is_empty(),
    {
        HotkeyDefinition { keys: HashSet::new(), modifiers: ModifierFlags::from_bits(FLAG_SHIFT) }
    }

    /// The keys of the hotkey.
    pub fn keys(&self) -> (keys: &HashSet<u64>)
        ensures
            keys@ == self@.keys,
    {
        &self.keys
    }

    /// The modifiers of the hotkey.
    pub fn modifiers(&self) -> (modifiers: ModifierFlags)
        ensures
            modifiers == self@.modifiers,
    {
        self.modifiers
    }

    /// Whether the hotkey has neither a key nor a modifier.
    pub fn is_empty(&self) -> (empty: bool)
        ensures
            empty == self@.is_empty(),
    {
        self.keys.is_empty() && self.modifiers.is_empty()
    }

    /// The label that shows the hotkey to the user.
    pub fn label(&self) -> (label: String)
        ensures
            label@ == label_text(self@.keys, self@.modifiers),
    {
        hotkey_label(&self.keys, self.modifiers)
    }
}

/// The keys and modifiers that are down right now, as far as the events
/// seen so far tell.
pub struct PressedKeyState {
    keys: HashSet<u64>,
    modifiers: ModifierFlags,
}

impl View for PressedKeyState {
    type V = Chord;

    closed spec fn view(&self) -> Chord {
        Chord { keys: self.keys@, modifiers: self.modifiers }
    }
}

/// What is down after `event`, when `pressed` was down before it: a key
/// that goes down joins the keys, a key that goes up leaves them, and a
/// change of modifiers replaces the modifiers.
pub open spec fn pressed_after(pressed: Chord, event: InputEvent) -> Chord {
    match event {
        InputEvent::KeyDown { code, .. } => Chord { keys: pressed.keys.insert(code), ..pressed },
        InputEvent::KeyUp { code } => Chord { keys: pressed.keys.remove(code), ..pressed },
        InputEvent::ModifiersChanged { modifiers } => Chord { modifiers, ..pressed },
    }
}

impl PressedKeyState {
    /// The state in which nothing is down.
    pub fn new() -> (pressed: PressedKeyState)
        ensures
            pressed@ == Chord::nothing(),
    {
        PressedKeyState { keys: HashSet::new(), modifiers: ModifierFlags::empty() }
    }

    /// The keys that are down.
    pub fn keys(&self) -> (keys: &HashSet<u64>)
        ensures
            keys@ == self@.keys,
    {
        &self.keys
    }

    /// The modifiers that are active.
    pub fn modifiers(&self) -> (modifiers: ModifierFlags)
        ensures
            modifiers == self@.modifiers,
    {
        self.modifiers
    }

    /// Takes note of `event`.
    pub fn apply(&mut self, event: InputEvent)
        ensures
            final(self)@ == pressed_after(old(self)@, event),
    {
        match event {
            InputEvent::KeyDown { code, .. } => {
                self.keys.insert(code);
            },
            InputEvent::KeyUp { code } => {
                self.keys.remove(&code);
            },
            InputEvent::ModifiersChanged { modifiers } => {
                self.modifiers = modifiers;
            },
        }
    }
}

/// Whether the hotkey `hotkey` counts as pressed while `pressed` is down:
/// the hotkey is not empty, and all its keys and modifiers are down.
pub open spec fn hotkey_held(hotkey: Chord, pressed: Chord) -> bool {
    !hotkey.is_empty() && pressed.covers(hotkey)
}

impl HotkeyDefinition {
    /// Whether the hotkey counts as pressed while `pressed` is down. An
    /// empty hotkey never does.
    pub fn is_held(&self, pressed: &PressedKeyState) -> (held: bool)
        ensures
            held == hotkey_held(self@, pressed@),
    {
        !self.is_empty() && pressed.modifiers.contains(self.modifiers) && contains_all(
            &pressed.keys,
            &self.keys,
        )
    }
}

/// A recording session: whether one is going on, and what it has taken in
/// so far.
pub struct RecordingSession {
    is_active: bool,
    accumulated_keys: HashSet<u64>,
    accumulated_modifiers: ModifierFlags,
}

impl RecordingSession {
    /// Whether a session is going on.
    pub closed spec fn active(&self) -> bool {
        self.is_active
    }

    /// The keys and modifiers taken in so far.
    pub closed spec fn captured(&self) -> Chord {
        Chord { keys: self.accumulated_keys@, modifiers: self.accumulated_modifiers }
    }

    /// No session, and nothing taken in.
    pub fn new() -> (session: RecordingSession)
        ensures
            !session.active(),
            session.captured() == Chord::nothing(),
    {
        RecordingSession {
            is_active: false,
            accumulated_keys: HashSet::new(),
            accumulated_modifiers: ModifierFlags::empty(),
        }
    }
}

/// What the listener knows: the armed hotkey, what is down, whether the
/// hotkey was held at the last event outside a recording, whether a
/// recording is going on, and what it has taken in.
#[verifier::ext_equal]
pub struct ListenerState {
    pub hotkey: Chord,
    pub pressed: Chord,
    pub hotkey_is_down: bool,
    pub recording: bool,
    pub captured: Chord,
}

/// What the listener asks of its host after an event.
#[derive(Debug, PartialEq, Eq)]
pub enum Signal {
    /// Nothing to do.
    Quiet,
    /// The hotkey went from not held to held: send one trigger.
    Fired,
    /// A recording goes on: show this label of what it has taken in.
    Label(String),
    /// A recording ended and replaced the hotkey: show this final label.
    Committed(String),
    /// A recording ended with nothing taken in; the hotkey is as before.
    Ended,
}

/// A [`Signal`] with its label as a sequence of characters.
pub enum SignalView {
    Quiet,
    Fired,
    Label(Seq<char>),
    Committed(Seq<char>),
    Ended,
}

impl View for Signal {
    type V = SignalView;

    open spec fn view(&self) -> SignalView {
        match self {
            Signal::Quiet => SignalView::Quiet,
            Signal::Fired => SignalView::Fired,
            Signal::Label(label) => SignalView::Label(label@),
            Signal::Committed(label) => SignalView::Committed(label@),
            Signal::Ended => SignalView::Ended,
        }
    }
}

/// What a recording has taken in after `event`: a key that goes down joins
/// the keys and brings the modifiers that were active with it, a change of
/// modifiers replaces the modifiers, and a key that goes up changes nothing.
pub open spec fn captured_after(captured: Chord, event: InputEvent) -> Chord {
    match event {
        InputEvent::KeyDown { code, modifiers } => Chord {
            keys: captured.keys.insert(code),
            modifiers,
        },
        InputEvent::KeyUp { .. } => captured,
        InputEvent::ModifiersChanged { modifiers } => Chord { modifiers, ..captured },
    }
}

/// One step of the recorder, which takes the events while a recording goes
/// on. A key that goes up ends the recording: what was taken in becomes the
/// hotkey unless it is empty, and is forgotten either way. Any other event
/// is taken in and answered with the label of what has been taken in so far.
/// What is down and the edge latch are left alone.
pub open spec fn record_step(state: ListenerState, event: InputEvent) -> (
    ListenerState,
    SignalView,
) {
    match event {
        InputEvent::KeyUp { .. } => {
            let ended = ListenerState { recording: false, captured: Chord::nothing(), ..state };
            if state.captured.is_empty() {
                (ended, SignalView::Ended)
            } else {
                (
                    ListenerState { hotkey: state.captured, ..ended },
                    SignalView::Committed(
                        label_text(state.captured.keys, state.captured.modifiers),
                    ),
                )
            }
        },
        _ => {
            let captured = captured_after(state.captured, event);
            (
                ListenerState { captured, ..state },
                SignalView::Label(label_text(captured.keys, captured.modifiers)),
            )
        },
    }
}

/// One step of the matcher, which takes the events while no recording goes
/// on. It brings what is down up to date and fires when the hotkey is held
/// now and was not held at the event before.
pub open spec fn match_step(state: ListenerState, event: InputEvent) -> (
    ListenerState,
    SignalView,
) {
    let pressed = pressed_after(state.pressed, event);
    let held = hotkey_held(state.hotkey, pressed);
    (
        ListenerState { pressed, hotkey_is_down: held, ..state },
        if held && !state.hotkey_is_down {
            SignalView::Fired
        } else {
            SignalView::Quiet
        },
    )
}

/// One step of the listener: the recorder takes the event while a recording
/// goes on, the matcher takes it otherwise.
pub open spec fn step(state: ListenerState, event: InputEvent) -> (ListenerState, SignalView) {
    if state.recording {
        record_step(state, event)
    } else {
        match_step(state, event)
    }
}

/// The state in which a recording goes on: a listener that records already
/// stays as it is, any other starts a recording with nothing taken in.
pub open spec fn capture_started(state: ListenerState) -> ListenerState {
    if state.recording {
        state
    } else {
        ListenerState { recording: true, captured: Chord::nothing(), ..state }
    }
}

/// The listener behind the keyboard hook. It is handed every event, and
/// either matches the armed hotkey against what is down or, while a
/// recording goes on, records a new hotkey.
pub struct Listener {
    hotkey: HotkeyDefinition,
    pressed: PressedKeyState,
    hotkey_is_down: bool,
    session: RecordingSession,
}

impl View for Listener {
    type V = ListenerState;

    closed spec fn view(&self) -> ListenerState {
        ListenerState {
            hotkey: self.hotkey@,
            pressed: self.pressed@,
            hotkey_is_down: self.hotkey_is_down,
            recording: self.session.active(),
            captured: self.session.captured(),
        }
    }
}

impl Listener {
    /// A listener armed with `hotkey`: nothing is down, the hotkey is not
    /// held, and no recording goes on.
    pub fn new(hotkey: HotkeyDefinition) -> (listener: Listener)
        ensures
            listener@ == (ListenerState {
                hotkey: hotkey@,
                pressed: Chord::nothing(),
                hotkey_is_down: false,
                recording: false,
                captured: Chord::nothing(),
            }),
    {
        Listener {
            hotkey,
            pressed: PressedKeyState::new(),
            hotkey_is_down: false,
            session: RecordingSession::new(),
        }
    }

    /// The armed hotkey.
    pub fn hotkey(&self) -> (hotkey: &HotkeyDefinition)
        ensures
            hotkey@ == self@.hotkey,
    {
        &self.hotkey
    }

    /// What is down, as far as the matcher has seen.
    pub fn pressed(&self) -> (pressed: &PressedKeyState)
        ensures
            pressed@ == self@.pressed,
    {
        &self.pressed
    }

    /// Whether the hotkey was held at the last event outside a recording.
    pub fn hotkey_is_down(&self) -> (down: bool)
        ensures
            down == self@.hotkey_is_down,
    {
        self.hotkey_is_down
    }

    /// Whether a recording goes on.
    pub fn is_recording(&self) -> (recording: bool)
        ensures
            recording == self@.recording,
    {
        self.session.is_active
    }

    /// The keys that the recording has taken in so far.
    pub fn captured_keys(&self) -> (keys: &HashSet<u64>)
        ensures
            keys@ == self@.captured.keys,
    {
        &self.session.accumulated_keys
    }

    /// The modifiers that the recording has taken in last.
    pub fn captured_modifiers(&self) -> (modifiers: ModifierFlags)
        ensures
            modifiers == self@.captured.modifiers,
    {
        self.session.accumulated_modifiers
    }

    /// Starts a recording, unless one goes on already, and says whether it
    /// did. A new recording starts with nothing taken in.
    pub fn start_hotkey_capture(&mut self) -> (started: bool)
        ensures
            final(self)@ == capture_started(old(self)@),
            started == !old(self)@.recording,
    {
        if self.session.is_active {
            false
        } else {
            self.session.is_active = true;
            self.session.accumulated_keys.clear();
            self.session.accumulated_modifiers = ModifierFlags::empty();
            true
        }
    }

    /// Takes one event of the keyboard hook and says what the host is to do.
    pub fn on_event(&mut self, event: InputEvent) -> (signal: Signal)
        ensures
            final(self)@ == step(old(self)@, event).0,
            signal@ == step(old(self)@, event).1,
    {
        if self.session.is_active {
            match event {
                InputEvent::KeyDown { code, modifiers } => {
                    self.session.accumulated_keys.insert(code);
                    self.session.accumulated_modifiers = modifiers;
                    Signal::Label(
                        hotkey_label(
                            &self.session.accumulated_keys,
                            self.session.accumulated_modifiers,
                        ),
                    )
                },
                InputEvent::ModifiersChanged { modifiers } => {
                    self.session.accumulated_modifiers = modifiers;
                    Signal::Label(
                        hotkey_label(
                            &self.session.accumulated_keys,
                            self.session.accumulated_modifiers,
                        ),
                    )
                },
                InputEvent::KeyUp { .. } => {
                    let nothing = self.session.accumulated_keys.is_empty()
                        && self.session.accumulated_modifiers.is_empty();
                    let signal = if nothing {
                        self.session.accumulated_keys.clear();
                        Signal::Ended
                    } else {
                        let label = hotkey_label(
                            &self.session.accumulated_keys,
                            self.session.accumulated_modifiers,
                        );
                        let mut keys: HashSet<u64> = HashSet::new();
                        core::mem::swap(&mut keys, &mut self.session.accumulated_keys);
                        self.hotkey = HotkeyDefinition::new(
                            keys,
                            self.session.accumulated_modifiers,
                        );
                        Signal::Committed(label)
                    };
                    self.session.accumulated_modifiers = ModifierFlags::empty();
                    self.session.is_active = false;
                    signal
                },
            }
        } else {
            self.pressed.apply(event);
            let held = self.hotkey.is_held(&self.pressed);
            let fired = held && !self.hotkey_is_down;
            self.hotkey_is_down = held;
            if fired {
                Signal::Fired
            } else {
                Signal::Quiet
            }
        }
    }
}

} // verus!
