//! The steps of one playback run: what is typed, pasted and waited for,
//! line by line, and how the clipboard is saved and restored around it.

use crate::script::{command_lines, commands_of};
use crate::text::texts;
use vstd::prelude::*;
use vstd::string::StringExecFns;

verus! {

/// The system whose keyboard is driven. It decides which key clears the
/// input line and which chord pastes.
#[derive(Clone, Copy, Debug, PartialEq, Eq, Structural)]
pub enum Platform {
    MacOs,
    Windows,
}

/// A key that a playback run presses by name.
#[derive(Clone, Copy, Debug, PartialEq, Eq, Structural)]
pub enum Key {
    Backspace,
    Return,
    Control,
    Meta,
    /// The letter V.
    V,
    /// The key with this platform key code.
    Other(u32),
}

impl Platform {
    /// The raw key code of the key that opens and clears the input line.
    pub open spec fn spec_clear_line_code(&self) -> u16 {
        match self {
            Platform::MacOs => 39,
            Platform::Windows => 40,
        }
    }

    /// The modifier of the paste chord.
    pub open spec fn spec_paste_modifier(&self) -> Key {
        match self {
            Platform::MacOs => Key::Meta,
            Platform::Windows => Key::Control,
        }
    }

    /// The key that pastes while the modifier is down.
    pub open spec fn spec_paste_key(&self) -> Key {
        match self {
            Platform::MacOs => Key::Other(9),
            Platform::Windows => Key::V,
        }
    }

    /// The raw key code of the key that opens and clears the input line.
    #[verifier::when_used_as_spec(spec_clear_line_code)]
    pub fn clear_line_code(&self) -> (code: u16)
        ensures
            code == self.spec_clear_line_code(),
    {
        match self {
            Platform::MacOs => 39,
            Platform::Windows => 40,
        }
    }

    /// The modifier of the paste chord: Command on macOS, Control on
    /// Windows.
    #[verifier::when_used_as_spec(spec_paste_modifier)]
    pub fn paste_modifier(&self) -> (key: Key)
        ensures
            key == self.spec_paste_modifier(),
    {
        match self {
            Platform::MacOs => Key::Meta,
            Platform::Windows => Key::Control,
        }
    }

    /// The key that pastes while the modifier is down: the letter V, which
    /// on macOS is named by its key code.
    #[verifier::when_used_as_spec(spec_paste_key)]
    pub fn paste_key(&self) -> (key: Key)
        ensures
            key == self.spec_paste_key(),
    {
        match self {
            Platform::MacOs => Key::Other(9),
            Platform::Windows => Key::V,
        }
    }
}

/// One thing that the host of a playback run is asked to do.
#[derive(Debug, PartialEq, Eq)]
pub enum Step {
    /// Append this message to the log.
    Log(String),
    /// Read the clipboard and hand back what it holds.
    ReadClipboard,
    /// Press and release the key with this raw key code.
    RawClick(u16),
    /// Press and release this key.
    Click(Key),
    /// Press this key and hold it.
    Press(Key),
    /// Release this key.
    Release(Key),
    /// Wait for this many milliseconds.
    Sleep(u64),
    /// Put the text of a line on the clipboard, to be pasted.
    WriteClipboard(String),
    /// Put back on the clipboard what it held before the run.
    RestoreClipboard(String),
    /// Reset the flag that says a run is going on.
    ReleaseFlag,
    /// Nothing is left to do.
    Done,
}

/// A [`Step`] with its text as a sequence of characters.
pub enum StepView {
    Log(Seq<char>),
    ReadClipboard,
    RawClick(u16),
    Click(Key),
    Press(Key),
    Release(Key),
    Sleep(u64),
    WriteClipboard(Seq<char>),
    RestoreClipboard(Seq<char>),
    ReleaseFlag,
    Done,
}

impl View for Step {
    type V = StepView;

    open spec fn view(&self) -> StepView {
        match self {
            Step::Log(message) => StepView::Log(message@),
            Step::ReadClipboard => StepView::ReadClipboard,
            Step::RawClick(code) => StepView::RawClick(*code),
            Step::Click(key) => StepView::Click(*key),
            Step::Press(key) => StepView::Press(*key),
            Step::Release(key) => StepView::Release(*key),
            Step::Sleep(millis) => StepView::Sleep(*millis),
            Step::WriteClipboard(text) => StepView::WriteClipboard(text@),
            Step::RestoreClipboard(text) => StepView::RestoreClipboard(text@),
            Step::ReleaseFlag => StepView::ReleaseFlag,
            Step::Done => StepView::Done,
        }
    }
}

impl Step {
    /// A step equal to this one.
    pub fn duplicate(&self) -> (copy: Step)
        ensures
            copy@ == self@,
    {
        match self {
            Step::Log(message) => Step::Log(message.clone()),
            Step::ReadClipboard => Step::ReadClipboard,
            Step::RawClick(code) => Step::RawClick(*code),
            Step::Click(key) => Step::Click(*key),
            Step::Press(key) => Step::Press(*key),
            Step::Release(key) => Step::Release(*key),
            Step::Sleep(millis) => Step::Sleep(*millis),
            Step::WriteClipboard(text) => Step::WriteClipboard(text.clone()),
            Step::RestoreClipboard(text) => Step::RestoreClipboard(text.clone()),
            Step::ReleaseFlag => Step::ReleaseFlag,
            Step::Done => Step::Done,
        }
    }
}

/// The views of a list of steps, in order.
pub open spec fn step_views(steps: Seq<Step>) -> Seq<StepView> {
    steps.map_values(|step: Step| step@)
}

/// The number of steps that one line takes.
pub const STEPS_PER_LINE: usize = 12;

/// The steps that play back the one command `line`: announce it, clear the
/// input line and wait, erase the character that the clearing key typed and
/// wait half as long, put the command on the clipboard and paste it, wait,
/// send it off with Return, and wait again.
pub open spec fn line_steps(line: Seq<char>, delay: u64, platform: Platform) -> Seq<StepView> {
    seq![
        StepView::Log("Morphing line: "@ + line),
        StepView::RawClick(platform.clear_line_code()),
        StepView::Sleep(delay),
        StepView::Click(Key::Backspace),
        StepView::Sleep(delay / 2),
        StepView::WriteClipboard(line),
        StepView::Press(platform.paste_modifier()),
        StepView::Click(platform.paste_key()),
        StepView::Release(platform.paste_modifier()),
        StepView::Sleep(delay),
        StepView::Click(Key::Return),
        StepView::Sleep(delay),
    ]
}

/// The steps that play back the commands `lines`, one after the other.
pub open spec fn lines_steps(lines: Seq<Seq<char>>, delay: u64, platform: Platform) -> Seq<
    StepView,
>
    decreases lines.len(),
{
    if lines.len() == 0 {
        Seq::empty()
    } else {
        lines_steps(lines.drop_last(), delay, platform) + line_steps(
            lines.last(),
            delay,
            platform,
        )
    }
}

/// The steps that close a run: put back what the clipboard held before the
/// run, if that is known, and say so; then say that the run is finished.
pub open spec fn closing_steps(saved: Option<Seq<char>>) -> Seq<StepView> {
    let restore = match saved {
        Some(content) => seq![
            StepView::RestoreClipboard(content),
            StepView::Log("Clipboard restored."@),
        ],
        None => Seq::empty(),
    };
    restore + seq![StepView::Log("Morph process finished."@)]
}

/// The steps of a run of the script `script` in which nothing fails: the
/// steps of each command in order, then the closing steps.
pub open spec fn command_steps(
    script: Seq<char>,
    delay: u64,
    platform: Platform,
    saved: Option<Seq<char>>,
) -> Seq<StepView> {
    lines_steps(commands_of(script), delay, platform) + closing_steps(saved)
}

/// The view of an optional string.
pub open spec fn text_of(content: Option<String>) -> Option<Seq<char>> {
    match content {
        Some(text) => Some(text@),
        None => None,
    }
}

/// Adds the steps that play back the one command `line` to `steps`.
fn push_line_steps(steps: &mut Vec<Step>, line: &String, delay: u64, platform: Platform)
    ensures
        step_views(final(steps)@) == step_views(old(steps)@) + line_steps(line@, delay, platform),
{
    let mut message = "Morphing line: ".to_owned();
    message.append(line.as_str());
    steps.push(Step::Log(message));
    steps.push(Step::RawClick(platform.clear_line_code()));
    steps.push(Step::Sleep(delay));
    steps.push(Step::Click(Key::Backspace));
    steps.push(Step::Sleep(delay / 2));
    steps.push(Step::WriteClipboard(line.clone()));
    steps.push(Step::Press(platform.paste_modifier()));
    steps.push(Step::Click(platform.paste_key()));
    steps.push(Step::Release(platform.paste_modifier()));
    steps.push(Step::Sleep(delay));
    steps.push(Step::Click(Key::Return));
    steps.push(Step::Sleep(delay));
}

/// The steps of a run of the script `cmds` in which nothing fails, in the
/// order in which they are to be taken. Each line of the script that is not
/// blank is played back with the delay `delay`, in milliseconds, between
/// its keystrokes. `saved_clipboard` is what the clipboard held before
/// the run, if that could be read; it is put back at the end.
pub fn commands(
    cmds: &str,
    delay: u64,
    platform: Platform,
    saved_clipboard: Option<String>,
) -> (steps: Vec<Step>)
    ensures
        step_views(steps@) == command_steps(cmds@, delay, platform, text_of(saved_clipboard)),
{
    let lines = command_lines(cmds);
    let mut steps: Vec<Step> = Vec::new();
    let mut i: usize = 0;
    while i < lines.len()
        invariant
            i <= lines.len(),
            step_views(steps@) == lines_steps(texts(lines@).take(i as int), delay, platform),
        decreases lines.len() - i,
    {
        push_line_steps(&mut steps, &lines[i], delay, platform);
        i = i + 1;
        proof {
            let played = texts(lines@).take(i as int);
            assert(played.drop_last() =~= texts(lines@).take(i - 1));
        }
    }
    assert(texts(lines@).take(i as int) =~= texts(lines@));
    let ghost played = step_views(steps@);
    match saved_clipboard {
        Some(content) => {
            steps.push(Step::RestoreClipboard(content));
            steps.push(Step::Log("Clipboard restored.".to_owned()));
        },
        None => {},
    }
    steps.push(Step::Log("Morph process finished.".to_owned()));
    steps
}

} // verus!
