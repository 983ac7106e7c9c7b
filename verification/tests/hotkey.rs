use auto_morph::dispatch::{on_fire, CommandScript, Dispatch, SimulationFlag};
use auto_morph::engine::Reply;
use auto_morph::hotkey::{HotkeyDefinition, InputEvent, Listener, PressedKeyState, Signal};
use auto_morph::keys::{ModifierFlags, FLAG_COMMAND, FLAG_CONTROL, FLAG_SHIFT};
use auto_morph::playback::{Platform, Step};
use std::collections::HashSet;

fn flags(bits: u64) -> ModifierFlags {
    ModifierFlags::from_bits(bits)
}

fn keys(codes: &[u64]) -> HashSet<u64> {
    codes.iter().copied().collect()
}

fn down(code: u64) -> InputEvent {
    InputEvent::KeyDown { code, modifiers: flags(0) }
}

fn down_with(code: u64, bits: u64) -> InputEvent {
    InputEvent::KeyDown { code, modifiers: flags(bits) }
}

fn up(code: u64) -> InputEvent {
    InputEvent::KeyUp { code }
}

fn modifiers(bits: u64) -> InputEvent {
    InputEvent::ModifiersChanged { modifiers: flags(bits) }
}

fn fires(listener: &mut Listener, events: &[InputEvent]) -> Vec<bool> {
    events.iter().map(|event| listener.on_event(*event) == Signal::Fired).collect()
}

#[test]
fn shift_alone_is_the_first_hotkey() {
    let hotkey = HotkeyDefinition::shift_alone();
    assert!(hotkey.keys().is_empty());
    assert_eq!(hotkey.modifiers(), flags(FLAG_SHIFT));
    assert!(!hotkey.is_empty());
    assert_eq!(hotkey.label(), "Shift");
}

#[test]
fn pressed_state_follows_the_events() {
    let mut pressed = PressedKeyState::new();
    assert!(pressed.keys().is_empty());
    assert!(pressed.modifiers().is_empty());
    pressed.apply(down_with(0, FLAG_SHIFT));
    pressed.apply(down(1));
    assert_eq!(pressed.keys(), &keys(&[0, 1]));
    assert!(pressed.modifiers().is_empty());
    pressed.apply(modifiers(FLAG_SHIFT));
    assert_eq!(pressed.modifiers(), flags(FLAG_SHIFT));
    pressed.apply(up(0));
    assert_eq!(pressed.keys(), &keys(&[1]));
    pressed.apply(up(7));
    assert_eq!(pressed.keys(), &keys(&[1]));
    pressed.apply(modifiers(0));
    assert!(pressed.modifiers().is_empty());
}

#[test]
fn hotkey_is_held_when_all_of_it_is_down() {
    let hotkey = HotkeyDefinition::new(keys(&[0, 1]), flags(FLAG_SHIFT));
    let mut pressed = PressedKeyState::new();
    assert!(!hotkey.is_held(&pressed));
    pressed.apply(down(0));
    pressed.apply(modifiers(FLAG_SHIFT));
    assert!(!hotkey.is_held(&pressed));
    pressed.apply(down(1));
    assert!(hotkey.is_held(&pressed));
}

#[test]
fn extra_keys_and_modifiers_do_not_prevent_a_match() {
    let hotkey = HotkeyDefinition::new(keys(&[0]), flags(FLAG_SHIFT));
    let mut pressed = PressedKeyState::new();
    pressed.apply(down(0));
    pressed.apply(down(5));
    pressed.apply(modifiers(FLAG_SHIFT | FLAG_COMMAND));
    assert!(hotkey.is_held(&pressed));
}

#[test]
fn empty_hotkey_is_never_held() {
    let hotkey = HotkeyDefinition::new(HashSet::new(), ModifierFlags::empty());
    assert!(hotkey.is_empty());
    let mut pressed = PressedKeyState::new();
    assert!(!hotkey.is_held(&pressed));
    pressed.apply(down(0));
    pressed.apply(modifiers(FLAG_SHIFT));
    assert!(!hotkey.is_held(&pressed));
}

#[test]
fn empty_hotkey_never_fires() {
    let mut listener = Listener::new(HotkeyDefinition::new(HashSet::new(), ModifierFlags::empty()));
    let events = [down(0), modifiers(FLAG_SHIFT), down(1), up(0), modifiers(0), up(1), down(0)];
    assert_eq!(fires(&mut listener, &events), vec![false; 7]);
}

#[test]
fn listener_fires_once_while_the_chord_is_held() {
    let mut listener = Listener::new(HotkeyDefinition::shift_alone());
    let events = [
        modifiers(FLAG_SHIFT),
        down(0),
        down(1),
        up(0),
        modifiers(FLAG_SHIFT | FLAG_CONTROL),
        up(1),
        modifiers(0),
    ];
    assert_eq!(
        fires(&mut listener, &events),
        vec![true, false, false, false, false, false, false]
    );
    assert!(!listener.hotkey_is_down());
}

#[test]
fn listener_fires_again_after_the_chord_was_let_go() {
    let mut listener = Listener::new(HotkeyDefinition::new(keys(&[40]), flags(FLAG_COMMAND)));
    let events = [
        modifiers(FLAG_COMMAND),
        down_with(40, FLAG_COMMAND),
        down_with(40, FLAG_COMMAND),
        up(40),
        down_with(40, FLAG_COMMAND),
        modifiers(0),
        modifiers(FLAG_COMMAND),
        up(40),
        down_with(40, FLAG_COMMAND),
    ];
    assert_eq!(
        fires(&mut listener, &events),
        vec![false, true, false, false, true, false, true, false, true]
    );
    assert!(listener.hotkey_is_down());
}

#[test]
fn modifiers_of_a_key_down_do_not_count_as_pressed() {
    let mut listener = Listener::new(HotkeyDefinition::shift_alone());
    assert_eq!(listener.on_event(down_with(0, FLAG_SHIFT)), Signal::Quiet);
    assert!(listener.pressed().modifiers().is_empty());
    assert_eq!(listener.on_event(modifiers(FLAG_SHIFT)), Signal::Fired);
}

#[test]
fn recording_starts_once() {
    let mut listener = Listener::new(HotkeyDefinition::shift_alone());
    assert!(!listener.is_recording());
    assert!(listener.start_hotkey_capture());
    assert!(listener.is_recording());
    assert!(!listener.start_hotkey_capture());
    assert!(listener.is_recording());
}

#[test]
fn recording_publishes_a_live_label() {
    let mut listener = Listener::new(HotkeyDefinition::shift_alone());
    listener.start_hotkey_capture();
    assert_eq!(listener.on_event(modifiers(FLAG_COMMAND)), Signal::Label("Cmd".to_string()));
    assert_eq!(
        listener.on_event(down_with(40, FLAG_COMMAND)),
        Signal::Label("Cmd + K".to_string())
    );
    assert_eq!(
        listener.on_event(down_with(0, FLAG_COMMAND | FLAG_SHIFT)),
        Signal::Label("Cmd + Shift + A + K".to_string())
    );
    assert_eq!(listener.captured_keys(), &keys(&[0, 40]));
    assert_eq!(listener.captured_modifiers(), flags(FLAG_COMMAND | FLAG_SHIFT));
    assert_eq!(
        listener.on_event(modifiers(FLAG_SHIFT)),
        Signal::Label("Shift + A + K".to_string())
    );
}

#[test]
fn recording_commits_the_keys_and_the_last_modifiers() {
    let mut listener = Listener::new(HotkeyDefinition::shift_alone());
    listener.start_hotkey_capture();
    listener.on_event(down_with(1, FLAG_SHIFT));
    listener.on_event(down_with(2, FLAG_SHIFT | FLAG_CONTROL));
    listener.on_event(down_with(3, FLAG_CONTROL));
    assert_eq!(listener.on_event(up(2)), Signal::Committed("Ctrl + D + F + S".to_string()));
    assert!(!listener.is_recording());
    assert_eq!(listener.hotkey().keys(), &keys(&[1, 2, 3]));
    assert_eq!(listener.hotkey().modifiers(), flags(FLAG_CONTROL));
    assert!(listener.captured_keys().is_empty());
    assert!(listener.captured_modifiers().is_empty());
}

#[test]
fn recording_commits_a_modifier_alone() {
    let mut listener = Listener::new(HotkeyDefinition::new(keys(&[0]), ModifierFlags::empty()));
    listener.start_hotkey_capture();
    listener.on_event(modifiers(FLAG_CONTROL));
    assert_eq!(listener.on_event(up(9)), Signal::Committed("Ctrl".to_string()));
    assert!(listener.hotkey().keys().is_empty());
    assert_eq!(listener.hotkey().modifiers(), flags(FLAG_CONTROL));
}

#[test]
fn recording_that_took_in_nothing_keeps_the_hotkey() {
    let mut listener = Listener::new(HotkeyDefinition::new(keys(&[7]), flags(FLAG_SHIFT)));
    listener.start_hotkey_capture();
    assert_eq!(listener.on_event(up(3)), Signal::Ended);
    assert!(!listener.is_recording());
    assert_eq!(listener.hotkey().keys(), &keys(&[7]));
    assert_eq!(listener.hotkey().modifiers(), flags(FLAG_SHIFT));
}

#[test]
fn recording_whose_modifiers_went_away_keeps_the_hotkey() {
    let mut listener = Listener::new(HotkeyDefinition::shift_alone());
    listener.start_hotkey_capture();
    listener.on_event(modifiers(FLAG_COMMAND));
    listener.on_event(modifiers(0));
    assert_eq!(listener.on_event(up(3)), Signal::Ended);
    assert_eq!(listener.hotkey().modifiers(), flags(FLAG_SHIFT));
}

#[test]
fn recording_does_not_reach_the_matcher() {
    let mut listener = Listener::new(HotkeyDefinition::new(keys(&[0]), ModifierFlags::empty()));
    listener.start_hotkey_capture();
    assert_eq!(listener.on_event(down(0)), Signal::Label("A".to_string()));
    assert!(listener.pressed().keys().is_empty());
    assert!(!listener.hotkey_is_down());
    assert_eq!(listener.on_event(up(0)), Signal::Committed("A".to_string()));
    assert!(listener.pressed().keys().is_empty());
    assert_eq!(listener.on_event(down(0)), Signal::Fired);
}

#[test]
fn a_new_recording_starts_with_nothing() {
    let mut listener = Listener::new(HotkeyDefinition::shift_alone());
    listener.start_hotkey_capture();
    listener.on_event(down_with(0, FLAG_SHIFT));
    listener.on_event(up(0));
    listener.start_hotkey_capture();
    assert!(listener.captured_keys().is_empty());
    assert_eq!(listener.on_event(down(1)), Signal::Label("S".to_string()));
    assert_eq!(listener.on_event(up(1)), Signal::Committed("S".to_string()));
    assert_eq!(listener.hotkey().keys(), &keys(&[1]));
    assert!(listener.hotkey().modifiers().is_empty());
}

#[test]
fn right_shift_alone_starts_one_run_of_two_lines() {
    let mut listener = Listener::new(HotkeyDefinition::shift_alone());
    let mut script = CommandScript::new();
    script.set_commands("unpermall me\nunpermhats me");
    script.set_delay("40");
    let mut flag = SimulationFlag::new();
    let mut log: Vec<String> = Vec::new();

    assert_eq!(listener.on_event(modifiers(FLAG_SHIFT)), Signal::Fired);
    let mut run = match on_fire(&mut flag, &script, Platform::MacOs, &mut log) {
        Dispatch::Started(run) => run,
        Dispatch::Ignored => panic!("the first trigger must start a run"),
    };
    let mut waited = 0u64;
    let mut lines = Vec::new();
    let mut reply = Reply::Done;
    loop {
        let step = run.next(reply);
        reply = Reply::Done;
        match step {
            Step::Done => break,
            Step::ReadClipboard => reply = Reply::Clipboard(Some("before".to_string())),
            Step::Sleep(millis) => waited += millis,
            Step::WriteClipboard(text) => lines.push(text),
            Step::ReleaseFlag => flag.release(),
            _ => {}
        }
    }
    assert_eq!(lines, vec!["unpermall me".to_string(), "unpermhats me".to_string()]);
    assert_eq!(waited, 2 * (40 + 20 + 40 + 40));
    assert!(!flag.is_simulating());
}
