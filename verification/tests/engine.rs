use auto_morph::engine::{Playback, Reply, Stage};
use auto_morph::playback::{commands, Key, Platform, Step};

fn log(text: &str) -> Step {
    Step::Log(text.to_string())
}

/// Runs `run` to its end. `answer` gives the reply to each step.
fn drive(run: &mut Playback, mut answer: impl FnMut(usize, &Step) -> Reply) -> Vec<Step> {
    let mut taken = Vec::new();
    let mut reply = Reply::Done;
    for count in 0..10_000 {
        let step = run.next(reply);
        if step == Step::Done {
            return taken;
        }
        reply = answer(count, &step);
        taken.push(step);
    }
    panic!("the run did not end");
}

fn undisturbed(clipboard: Option<&str>) -> impl FnMut(usize, &Step) -> Reply + '_ {
    move |_, step| match step {
        Step::ReadClipboard => Reply::Clipboard(clipboard.map(|text| text.to_string())),
        _ => Reply::Done,
    }
}

#[test]
fn undisturbed_run_takes_every_step_in_order() {
    let mut run = Playback::new("a\n:b", 40, Platform::MacOs);
    assert_eq!(run.stage(), Stage::Fresh);
    let taken = drive(&mut run, undisturbed(Some("kept")));
    let mut expected = vec![log("Starting morph process..."), Step::ReadClipboard];
    expected.extend(commands("a\n:b", 40, Platform::MacOs, Some("kept".to_string())));
    expected.push(Step::ReleaseFlag);
    assert_eq!(taken, expected);
    assert!(run.is_finished());
    assert_eq!(run.stage(), Stage::Finished);
}

#[test]
fn stages_follow_one_another() {
    let mut run = Playback::new("a", 1, Platform::MacOs);
    assert_eq!(run.stage(), Stage::Fresh);
    assert_eq!(run.next(Reply::Done), log("Starting morph process..."));
    assert_eq!(run.stage(), Stage::Announced);
    assert_eq!(run.next(Reply::Done), Step::ReadClipboard);
    assert_eq!(run.stage(), Stage::Reading);
    assert_eq!(run.next(Reply::Clipboard(None)), log("Morphing line: a"));
    assert_eq!(run.stage(), Stage::Running);
    for _ in 0..11 {
        run.next(Reply::Done);
        assert_eq!(run.stage(), Stage::Running);
    }
    assert_eq!(run.next(Reply::Done), log("Morph process finished."));
    assert_eq!(run.stage(), Stage::Running);
    assert_eq!(run.next(Reply::Done), Step::ReleaseFlag);
    assert_eq!(run.stage(), Stage::Released);
    assert_eq!(run.next(Reply::Done), Step::Done);
    assert_eq!(run.stage(), Stage::Finished);
    assert_eq!(run.next(Reply::Failed), Step::Done);
    assert_eq!(run.stage(), Stage::Finished);
}

#[test]
fn empty_script_is_skipped_and_the_flag_reset() {
    let mut run = Playback::new("", 40, Platform::MacOs);
    let taken = drive(&mut run, undisturbed(Some("kept")));
    assert_eq!(taken, vec![log("Morph commands are empty, skipping."), Step::ReleaseFlag]);
    assert!(run.is_finished());
}

#[test]
fn script_of_blank_lines_runs_without_lines() {
    let mut run = Playback::new(" \n\n", 40, Platform::MacOs);
    let taken = drive(&mut run, undisturbed(Some("kept")));
    assert_eq!(
        taken,
        vec![
            log("Starting morph process..."),
            Step::ReadClipboard,
            Step::RestoreClipboard("kept".to_string()),
            log("Clipboard restored."),
            log("Morph process finished."),
            Step::ReleaseFlag,
        ]
    );
}

#[test]
fn clipboard_that_cannot_be_read_is_not_restored() {
    let mut run = Playback::new("a", 40, Platform::Windows);
    let taken = drive(&mut run, undisturbed(None));
    assert!(!taken.iter().any(|step| matches!(step, Step::RestoreClipboard(_))));
    assert!(!taken.contains(&log("Clipboard restored.")));
    assert_eq!(taken[taken.len() - 2], log("Morph process finished."));
    assert_eq!(taken[taken.len() - 1], Step::ReleaseFlag);
}

#[test]
fn failed_read_counts_as_nothing_saved() {
    let mut run = Playback::new("a", 40, Platform::Windows);
    let taken = drive(&mut run, |_, step| match step {
        Step::ReadClipboard => Reply::Failed,
        _ => Reply::Done,
    });
    assert!(!taken.iter().any(|step| matches!(step, Step::RestoreClipboard(_))));
    assert_eq!(taken.len(), 2 + 12 + 1 + 1);
}

#[test]
fn failed_keystroke_ends_the_run_and_resets_the_flag() {
    let mut run = Playback::new("a\nb\nc", 40, Platform::MacOs);
    let taken = drive(&mut run, |_, step| match step {
        Step::ReadClipboard => Reply::Clipboard(Some("kept".to_string())),
        Step::Click(Key::Return) => Reply::Failed,
        _ => Reply::Done,
    });
    assert_eq!(taken.iter().filter(|step| matches!(step, Step::WriteClipboard(_))).count(), 1);
    assert_eq!(
        &taken[taken.len() - 3..],
        &[Step::Click(Key::Return), log("Morph process aborted."), Step::ReleaseFlag]
    );
    assert!(!taken.iter().any(|step| matches!(step, Step::RestoreClipboard(_))));
    assert!(run.is_finished());
}

#[test]
fn each_kind_of_keystroke_can_end_the_run() {
    let kinds: Vec<Box<dyn Fn(&Step) -> bool>> = vec![
        Box::new(|step| matches!(step, Step::RawClick(_))),
        Box::new(|step| matches!(step, Step::Click(Key::Backspace))),
        Box::new(|step| matches!(step, Step::Press(_))),
        Box::new(|step| matches!(step, Step::Click(Key::Other(9)))),
        Box::new(|step| matches!(step, Step::Release(_))),
    ];
    for fails in kinds {
        let mut run = Playback::new("a\nb", 40, Platform::MacOs);
        let taken = drive(&mut run, |_, step| {
            if fails(step) {
                Reply::Failed
            } else {
                Reply::Done
            }
        });
        assert_eq!(taken[taken.len() - 2], log("Morph process aborted."));
        assert_eq!(taken[taken.len() - 1], Step::ReleaseFlag);
        assert!(!taken.contains(&log("Morphing line: b")));
        assert_eq!(taken.iter().filter(|step| **step == Step::ReleaseFlag).count(), 1);
    }
}

#[test]
fn line_that_cannot_be_put_on_the_clipboard_is_given_up() {
    let mut run = Playback::new("a\nb\nc", 40, Platform::MacOs);
    let taken = drive(&mut run, |_, step| match step {
        Step::ReadClipboard => Reply::Clipboard(Some("kept".to_string())),
        Step::WriteClipboard(text) if text == "b" => Reply::Failed,
        _ => Reply::Done,
    });
    let at = taken.iter().position(|step| *step == Step::WriteClipboard("b".to_string())).unwrap();
    assert_eq!(taken[at + 1], log("Morphing line: c"));
    assert_eq!(taken.iter().filter(|step| matches!(step, Step::Click(Key::Return))).count(), 2);
    assert_eq!(
        &taken[taken.len() - 4..],
        &[
            Step::RestoreClipboard("kept".to_string()),
            log("Clipboard restored."),
            log("Morph process finished."),
            Step::ReleaseFlag,
        ]
    );
}

#[test]
fn last_line_that_cannot_be_put_on_the_clipboard_goes_on_to_the_closing_steps() {
    let mut run = Playback::new("a", 40, Platform::MacOs);
    let taken = drive(&mut run, |_, step| match step {
        Step::WriteClipboard(_) => Reply::Failed,
        _ => Reply::Done,
    });
    assert_eq!(
        &taken[taken.len() - 3..],
        &[Step::WriteClipboard("a".to_string()), log("Morph process finished."), Step::ReleaseFlag]
    );
}

#[test]
fn clipboard_that_cannot_be_restored_is_reported() {
    let mut run = Playback::new("a", 40, Platform::MacOs);
    let taken = drive(&mut run, |_, step| match step {
        Step::ReadClipboard => Reply::Clipboard(Some("kept".to_string())),
        Step::RestoreClipboard(_) => Reply::Failed,
        _ => Reply::Done,
    });
    assert_eq!(
        &taken[taken.len() - 4..],
        &[
            Step::RestoreClipboard("kept".to_string()),
            log("Clipboard could not be restored."),
            log("Morph process finished."),
            Step::ReleaseFlag,
        ]
    );
    assert!(!taken.contains(&log("Clipboard restored.")));
}

#[test]
fn failed_logs_and_sleeps_do_not_disturb_the_run() {
    let mut calm = Playback::new("a\nb", 7, Platform::Windows);
    let expected = drive(&mut calm, undisturbed(Some("c")));
    let mut run = Playback::new("a\nb", 7, Platform::Windows);
    let taken = drive(&mut run, |_, step| match step {
        Step::ReadClipboard => Reply::Clipboard(Some("c".to_string())),
        Step::Log(_) | Step::Sleep(_) => Reply::Failed,
        _ => Reply::Done,
    });
    assert_eq!(taken, expected);
}

#[test]
fn flag_is_reset_exactly_once_whatever_fails() {
    for failing in 0..40usize {
        let mut run = Playback::new("a\nb\nc", 2, Platform::MacOs);
        let taken = drive(&mut run, |count, step| {
            if count == failing {
                Reply::Failed
            } else if *step == Step::ReadClipboard {
                Reply::Clipboard(Some("kept".to_string()))
            } else {
                Reply::Done
            }
        });
        assert_eq!(
            taken.iter().filter(|step| **step == Step::ReleaseFlag).count(),
            1,
            "when step {failing} fails"
        );
        assert_eq!(taken.last(), Some(&Step::ReleaseFlag));
        assert!(run.is_finished());
    }
}

#[test]
fn run_is_not_touched_by_later_changes_of_the_script() {
    let mut script = String::from("first");
    let mut run = Playback::new(&script, 40, Platform::MacOs);
    script.clear();
    script.push_str("second");
    let taken = drive(&mut run, undisturbed(None));
    assert!(taken.contains(&Step::WriteClipboard("first".to_string())));
    assert!(!taken.contains(&Step::WriteClipboard("second".to_string())));
}

#[test]
fn clipboard_is_the_same_after_an_undisturbed_run() {
    let mut clipboard = String::from("what the user copied");
    let mut pasted = Vec::new();
    let mut run = Playback::new("unpermall me\n\n:unpermhats me\n", 40, Platform::MacOs);
    let mut reply = Reply::Done;
    loop {
        let step = run.next(reply);
        reply = Reply::Done;
        match step {
            Step::Done => break,
            Step::ReadClipboard => reply = Reply::Clipboard(Some(clipboard.clone())),
            Step::WriteClipboard(text) | Step::RestoreClipboard(text) => clipboard = text,
            Step::Click(Key::Other(9)) => pasted.push(clipboard.clone()),
            _ => {}
        }
    }
    assert_eq!(pasted, vec!["unpermall me".to_string(), "unpermhats me".to_string()]);
    assert_eq!(clipboard, "what the user copied");
}
