use auto_morph::playback::{commands, Key, Platform, Step, STEPS_PER_LINE};

fn log(text: &str) -> Step {
    Step::Log(text.to_string())
}

fn line_on_mac(text: &str, delay: u64) -> Vec<Step> {
    vec![
        Step::Log(format!("Morphing line: {text}")),
        Step::RawClick(39),
        Step::Sleep(delay),
        Step::Click(Key::Backspace),
        Step::Sleep(delay / 2),
        Step::WriteClipboard(text.to_string()),
        Step::Press(Key::Meta),
        Step::Click(Key::Other(9)),
        Step::Release(Key::Meta),
        Step::Sleep(delay),
        Step::Click(Key::Return),
        Step::Sleep(delay),
    ]
}

fn total_sleep(steps: &[Step]) -> u64 {
    steps.iter().map(|step| if let Step::Sleep(millis) = step { *millis } else { 0 }).sum()
}

#[test]
fn platforms_differ_in_their_keys() {
    assert_eq!(Platform::MacOs.clear_line_code(), 39);
    assert_eq!(Platform::Windows.clear_line_code(), 40);
    assert_eq!(Platform::MacOs.paste_modifier(), Key::Meta);
    assert_eq!(Platform::Windows.paste_modifier(), Key::Control);
    assert_eq!(Platform::MacOs.paste_key(), Key::Other(9));
    assert_eq!(Platform::Windows.paste_key(), Key::V);
}

#[test]
fn one_line_is_played_in_twelve_steps() {
    let steps = commands("heal me", 40, Platform::MacOs, None);
    let mut expected = line_on_mac("heal me", 40);
    assert_eq!(expected.len(), STEPS_PER_LINE);
    expected.push(log("Morph process finished."));
    assert_eq!(steps, expected);
}

#[test]
fn windows_pastes_with_control_and_v() {
    let steps = commands("x", 30, Platform::Windows, None);
    assert_eq!(
        steps,
        vec![
            log("Morphing line: x"),
            Step::RawClick(40),
            Step::Sleep(30),
            Step::Click(Key::Backspace),
            Step::Sleep(15),
            Step::WriteClipboard("x".to_string()),
            Step::Press(Key::Control),
            Step::Click(Key::V),
            Step::Release(Key::Control),
            Step::Sleep(30),
            Step::Click(Key::Return),
            Step::Sleep(30),
            log("Morph process finished."),
        ]
    );
}

#[test]
fn clipboard_is_restored_after_the_last_line() {
    let steps = commands("a\nb", 10, Platform::MacOs, Some("kept".to_string()));
    let mut expected = line_on_mac("a", 10);
    expected.extend(line_on_mac("b", 10));
    expected.push(Step::RestoreClipboard("kept".to_string()));
    expected.push(log("Clipboard restored."));
    expected.push(log("Morph process finished."));
    assert_eq!(steps, expected);
}

#[test]
fn nothing_is_restored_when_nothing_was_saved() {
    let steps = commands("a", 10, Platform::MacOs, None);
    assert!(!steps.iter().any(|step| matches!(step, Step::RestoreClipboard(_))));
    assert_eq!(steps.last(), Some(&log("Morph process finished.")));
}

#[test]
fn script_without_commands_only_closes() {
    assert_eq!(
        commands("\n  \n\t\n", 40, Platform::MacOs, Some("c".to_string())),
        vec![
            Step::RestoreClipboard("c".to_string()),
            log("Clipboard restored."),
            log("Morph process finished."),
        ]
    );
    assert_eq!(commands("", 40, Platform::Windows, None), vec![log("Morph process finished.")]);
}

#[test]
fn blank_lines_take_no_steps() {
    let steps = commands("a\n\n b\n", 40, Platform::MacOs, None);
    let mut expected = line_on_mac("a", 40);
    expected.extend(line_on_mac(" b", 40));
    expected.push(log("Morph process finished."));
    assert_eq!(steps, expected);
    assert_eq!(steps.iter().filter(|step| matches!(step, Step::WriteClipboard(_))).count(), 2);
}

#[test]
fn leading_colon_is_not_played() {
    let steps = commands(":heal me\nheal me", 1, Platform::MacOs, None);
    let pasted: Vec<&Step> =
        steps.iter().filter(|step| matches!(step, Step::WriteClipboard(_))).collect();
    assert_eq!(
        pasted,
        vec![
            &Step::WriteClipboard("heal me".to_string()),
            &Step::WriteClipboard("heal me".to_string()),
        ]
    );
    assert_eq!(steps[0], log("Morphing line: heal me"));
}

#[test]
fn two_lines_at_forty_wait_280_milliseconds() {
    let steps = commands("unpermall me\nunpermhats me", 40, Platform::MacOs, None);
    assert_eq!(steps.len(), 2 * STEPS_PER_LINE + 1);
    assert_eq!(total_sleep(&steps), 2 * (40 + 20 + 40 + 40));
    assert_eq!(total_sleep(&steps), 280);
}

#[test]
fn odd_delay_is_halved_downwards() {
    let steps = commands("a", 41, Platform::MacOs, None);
    assert_eq!(steps[4], Step::Sleep(20));
    assert_eq!(total_sleep(&steps), 3 * 41 + 20);
    let steps = commands("a", 1, Platform::MacOs, None);
    assert_eq!(steps[4], Step::Sleep(0));
    let steps = commands("a", 0, Platform::MacOs, None);
    assert_eq!(total_sleep(&steps), 0);
}

#[test]
fn largest_delay_does_not_overflow() {
    let steps = commands("a", u64::MAX, Platform::MacOs, None);
    assert_eq!(steps[2], Step::Sleep(u64::MAX));
    assert_eq!(steps[4], Step::Sleep(u64::MAX / 2));
}

#[test]
fn waiting_grows_with_the_number_of_lines() {
    for lines in 0usize..6 {
        let script = "go\n".repeat(lines);
        let steps = commands(&script, 30, Platform::Windows, Some(String::new()));
        assert_eq!(total_sleep(&steps), lines as u64 * (3 * 30 + 15));
        assert_eq!(steps.len(), lines * STEPS_PER_LINE + 3);
    }
}

#[test]
fn clipboard_holds_each_line_when_it_is_pasted() {
    let steps = commands("one\n:two\nthree", 5, Platform::Windows, Some("mine".to_string()));
    let mut clipboard = "mine".to_string();
    let mut pasted = Vec::new();
    for step in &steps {
        match step {
            Step::WriteClipboard(text) | Step::RestoreClipboard(text) => clipboard = text.clone(),
            Step::Click(Key::V) => pasted.push(clipboard.clone()),
            _ => {}
        }
    }
    assert_eq!(pasted, vec!["one".to_string(), "two".to_string(), "three".to_string()]);
    assert_eq!(clipboard, "mine");
}

#[test]
fn duplicate_gives_an_equal_step() {
    for step in commands("a", 3, Platform::MacOs, Some("c".to_string())) {
        assert_eq!(step.duplicate(), step);
    }
    assert_eq!(Step::ReadClipboard.duplicate(), Step::ReadClipboard);
    assert_eq!(Step::ReleaseFlag.duplicate(), Step::ReleaseFlag);
    assert_eq!(Step::Done.duplicate(), Step::Done);
}
