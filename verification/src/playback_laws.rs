//! What holds of the steps of a run in which nothing fails.

use crate::playback::{
    closing_steps, command_steps, line_steps, lines_steps, Platform, StepView, STEPS_PER_LINE,
};
use crate::script::commands_of;
use vstd::prelude::*;

verus! {

/// Every command takes the same number of steps.
pub proof fn lemma_lines_steps_len(lines: Seq<Seq<char>>, delay: u64, platform: Platform)
    ensures
        lines_steps(lines, delay, platform).len() == STEPS_PER_LINE * lines.len(),
    decreases lines.len(),
{
    if lines.len() > 0 {
        lemma_lines_steps_len(lines.drop_last(), delay, platform);
    }
}

/// The steps of the commands are the steps of each command, one command
/// after the other.
pub proof fn lemma_lines_steps_index(
    lines: Seq<Seq<char>>,
    delay: u64,
    platform: Platform,
    index: int,
)
    requires
        0 <= index < STEPS_PER_LINE * lines.len(),
    ensures
        lines_steps(lines, delay, platform)[index] == line_steps(
            lines[index / (STEPS_PER_LINE as int)],
            delay,
            platform,
        )[index % (STEPS_PER_LINE as int)],
    decreases lines.len(),
{
    let earlier = lines.drop_last();
    lemma_lines_steps_len(earlier, delay, platform);
    if index < STEPS_PER_LINE * earlier.len() {
        lemma_lines_steps_index(earlier, delay, platform, index);
    }
}

/// A run takes twelve steps for each command, and then the closing steps:
/// three when the clipboard is to be restored, one otherwise.
pub proof fn lemma_command_steps_len(
    script: Seq<char>,
    delay: u64,
    platform: Platform,
    saved: Option<Seq<char>>,
)
    ensures
        command_steps(script, delay, platform, saved).len() == STEPS_PER_LINE * commands_of(
            script,
        ).len() + if saved is Some {
            3int
        } else {
            1int
        },
{
    lemma_lines_steps_len(commands_of(script), delay, platform);
}

/// The step at `index` of a run: a step of the command that the index
/// falls into, or one of the closing steps.
pub proof fn lemma_command_steps_index(
    script: Seq<char>,
    delay: u64,
    platform: Platform,
    saved: Option<Seq<char>>,
    index: int,
)
    requires
        0 <= index < command_steps(script, delay, platform, saved).len(),
    ensures
        ({
            let lines = commands_of(script);
            let steps = command_steps(script, delay, platform, saved);
            let played = STEPS_PER_LINE * lines.len();
            &&& steps.len() == played + closing_steps(saved).len()
            &&& index < played ==> steps[index] == line_steps(
                lines[index / (STEPS_PER_LINE as int)],
                delay,
                platform,
            )[index % (STEPS_PER_LINE as int)]
            &&& index >= played ==> steps[index] == closing_steps(saved)[index - played]
        }),
{
    let lines = commands_of(script);
    lemma_lines_steps_len(lines, delay, platform);
    if index < STEPS_PER_LINE * lines.len() {
        lemma_lines_steps_index(lines, delay, platform, index);
    }
}

/// The clipboard is restored in one step only: the third from the end.
pub proof fn lemma_restore_is_third_from_end(
    script: Seq<char>,
    delay: u64,
    platform: Platform,
    saved: Option<Seq<char>>,
    index: int,
)
    requires
        0 <= index < command_steps(script, delay, platform, saved).len(),
        command_steps(script, delay, platform, saved)[index] is RestoreClipboard,
    ensures
        index + 3 == command_steps(script, delay, platform, saved).len(),
{
    lemma_command_steps_index(script, delay, platform, saved, index);
}

/// The time, in milliseconds, that the host is asked to wait in `steps`.
pub open spec fn total_sleep(steps: Seq<StepView>) -> nat
    decreases steps.len(),
{
    if steps.len() == 0 {
        0
    } else {
        total_sleep(steps.drop_last()) + match steps.last() {
            StepView::Sleep(millis) => millis as nat,
            _ => 0nat,
        }
    }
}

/// The waits of two lists of steps add up.
pub proof fn lemma_total_sleep_add(first: Seq<StepView>, second: Seq<StepView>)
    ensures
        total_sleep(first + second) == total_sleep(first) + total_sleep(second),
    decreases second.len(),
{
    if second.len() > 0 {
        lemma_total_sleep_add(first, second.drop_last());
        assert((first + second).drop_last() =~= first + second.drop_last());
    }
}

/// One command waits three times the delay and once half of it.
pub proof fn lemma_line_sleep(line: Seq<char>, delay: u64, platform: Platform)
    ensures
        total_sleep(line_steps(line, delay, platform)) == 3 * delay + delay / 2,
{
    reveal_with_fuel(total_sleep, 13);
}

/// The waiting law. A run in which nothing fails waits, for each command,
/// three times the delay and once half of it, and no longer.
pub proof fn law_total_sleep(
    script: Seq<char>,
    delay: u64,
    platform: Platform,
    saved: Option<Seq<char>>,
)
    ensures
        total_sleep(command_steps(script, delay, platform, saved)) == commands_of(script).len()
            * (3 * delay + delay / 2),
{
    let lines = commands_of(script);
    lemma_lines_sleep(lines, delay, platform);
    lemma_total_sleep_add(lines_steps(lines, delay, platform), closing_steps(saved));
    reveal_with_fuel(total_sleep, 4);
}

/// The commands together wait as long as each of them does, added up.
proof fn lemma_lines_sleep(lines: Seq<Seq<char>>, delay: u64, platform: Platform)
    ensures
        total_sleep(lines_steps(lines, delay, platform)) == lines.len() * (3 * delay + delay / 2),
    decreases lines.len(),
{
    if lines.len() > 0 {
        let earlier = lines.drop_last();
        lemma_lines_sleep(earlier, delay, platform);
        lemma_line_sleep(lines.last(), delay, platform);
        lemma_total_sleep_add(
            lines_steps(earlier, delay, platform),
            line_steps(lines.last(), delay, platform),
        );
        assert(lines.len() * (3 * delay + delay / 2) == earlier.len() * (3 * delay + delay / 2) + (
        3 * delay + delay / 2)) by (nonlinear_arith)
            requires
                lines.len() == earlier.len() + 1,
        ;
    } else {
        assert(lines.len() * (3 * delay + delay / 2) == 0) by (nonlinear_arith)
            requires
                lines.len() == 0,
        ;
    }
}

/// What the clipboard holds after the host has taken `steps` without a
/// failure, when it held `clipboard` before: what the last step that wrote
/// to it put there.
pub open spec fn clipboard_after(steps: Seq<StepView>, clipboard: Seq<char>) -> Seq<char>
    decreases steps.len(),
{
    if steps.len() == 0 {
        clipboard
    } else {
        match steps.last() {
            StepView::WriteClipboard(text) => text,
            StepView::RestoreClipboard(text) => text,
            _ => clipboard_after(steps.drop_last(), clipboard),
        }
    }
}

/// Steps that do not write to the clipboard leave on it what it held.
pub proof fn lemma_clipboard_untouched(steps: Seq<StepView>, clipboard: Seq<char>)
    requires
        forall|i: int|
            0 <= i < steps.len() ==> !((#[trigger] steps[i]) is WriteClipboard) && !(steps[i]
                is RestoreClipboard),
    ensures
        clipboard_after(steps, clipboard) == clipboard,
    decreases steps.len(),
{
    if steps.len() > 0 {
        lemma_clipboard_untouched(steps.drop_last(), clipboard);
    }
}

/// Taking two lists of steps in a row is taking the second where the
/// first has left the clipboard.
pub proof fn lemma_clipboard_after_add(
    first: Seq<StepView>,
    second: Seq<StepView>,
    clipboard: Seq<char>,
)
    ensures
        clipboard_after(first + second, clipboard) == clipboard_after(
            second,
            clipboard_after(first, clipboard),
        ),
    decreases second.len(),
{
    if second.len() > 0 {
        lemma_clipboard_after_add(first, second.drop_last(), clipboard);
        assert((first + second).drop_last() =~= first + second.drop_last());
    }
}

/// The first half of the clipboard law. A run in which nothing fails, and
/// which could read the clipboard at its start, leaves on the clipboard
/// what it held before the run.
pub proof fn law_clipboard_is_restored(
    script: Seq<char>,
    delay: u64,
    platform: Platform,
    held: Seq<char>,
    clipboard: Seq<char>,
)
    ensures
        clipboard_after(command_steps(script, delay, platform, Some(held)), clipboard)
            == held,
{
    let played = lines_steps(commands_of(script), delay, platform);
    let closing = closing_steps(Some(held));
    lemma_clipboard_after_add(played, closing, clipboard);
    let between = clipboard_after(played, clipboard);
    assert(clipboard_after(closing.drop_last().drop_last(), between) == held);
    assert(clipboard_after(closing.drop_last(), between) == held);
}

/// The index, among the steps of a run, of the step that pastes the
/// command with the index `line`.
pub open spec fn paste_step(line: int) -> int {
    STEPS_PER_LINE * line + 7
}

/// The second half of the clipboard law. In a run in which nothing fails,
/// the clipboard holds the text of a command at the moment at which that
/// command is pasted.
pub proof fn law_clipboard_holds_line_when_pasted(
    script: Seq<char>,
    delay: u64,
    platform: Platform,
    saved: Option<Seq<char>>,
    clipboard: Seq<char>,
    line: int,
)
    requires
        0 <= line < commands_of(script).len(),
    ensures
        ({
            let steps = command_steps(script, delay, platform, saved);
            &&& paste_step(line) < steps.len()
            &&& steps[paste_step(line)] == StepView::Click(platform.paste_key())
            &&& clipboard_after(steps.take(paste_step(line)), clipboard) == commands_of(
                script,
            )[line]
        }),
{
    let steps = command_steps(script, delay, platform, saved);
    let first = STEPS_PER_LINE * line;
    lemma_command_steps_len(script, delay, platform, saved);
    lemma_command_steps_index(script, delay, platform, saved, first + 5);
    lemma_command_steps_index(script, delay, platform, saved, first + 6);
    lemma_command_steps_index(script, delay, platform, saved, first + 7);
    let text = commands_of(script)[line];
    assert(steps.take(first + 7).drop_last() =~= steps.take(first + 6));
    assert(clipboard_after(steps.take(first + 6), clipboard) == text);
}

} // verus!
