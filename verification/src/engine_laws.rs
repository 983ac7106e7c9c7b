//! What holds of a playback run over whole sequences of replies.

use crate::engine::{advance, content_of, next_line_start, PlaybackState, ReplyView, Stage};
use crate::playback::{command_steps, StepView, STEPS_PER_LINE};
use crate::playback_laws::{
    clipboard_after, law_clipboard_holds_line_when_pasted, law_clipboard_is_restored,
    lemma_clipboard_after_add, lemma_clipboard_untouched, lemma_command_steps_index,
    lemma_command_steps_len, lemma_restore_is_third_from_end, paste_step,
};
use crate::script::commands_of;
use vstd::prelude::*;

verus! {

/// The steps that a run asks for, one for each of `replies`, when it starts
/// in `state`.
pub open spec fn trace(state: PlaybackState, replies: Seq<ReplyView>) -> Seq<StepView>
    decreases replies.len(),
{
    if replies.len() == 0 {
        Seq::empty()
    } else {
        seq![advance(state, replies[0]).1] + trace(
            advance(state, replies[0]).0,
            replies.drop_first(),
        )
    }
}

/// The state that a run reaches from `state` after `replies`.
pub open spec fn outcome(state: PlaybackState, replies: Seq<ReplyView>) -> PlaybackState
    decreases replies.len(),
{
    if replies.len() == 0 {
        state
    } else {
        outcome(advance(state, replies[0]).0, replies.drop_first())
    }
}

/// How often `steps` asks for the flag to be reset.
pub open spec fn releases(steps: Seq<StepView>) -> nat
    decreases steps.len(),
{
    if steps.len() == 0 {
        0
    } else {
        releases(steps.drop_first()) + if steps[0] == StepView::ReleaseFlag {
            1nat
        } else {
            0nat
        }
    }
}

/// A bound on the number of steps that a run in `state` still asks for
/// before nothing is left to do.
pub open spec fn steps_left(state: PlaybackState) -> nat {
    let lines = commands_of(state.script).len();
    match state.stage {
        Stage::Fresh => (STEPS_PER_LINE * lines + 8) as nat,
        Stage::Announced => (STEPS_PER_LINE * lines + 7) as nat,
        Stage::Reading => (STEPS_PER_LINE * lines + 6) as nat,
        Stage::Running => (state.steps().len() - state.cursor + 3) as nat,
        Stage::Closing => 2,
        Stage::Released => 1,
        Stage::Finished => 0,
    }
}

/// Whatever the host replies, a run that is in order stays in order and
/// comes closer to its end with every step.
pub proof fn lemma_advance_comes_closer(state: PlaybackState, reply: ReplyView)
    requires
        state.valid(),
        state.stage != Stage::Finished,
    ensures
        advance(state, reply).0.valid(),
        steps_left(advance(state, reply).0) < steps_left(state),
        advance(state, reply).1 == StepView::ReleaseFlag <==> advance(state, reply).0.stage
            == Stage::Released,
{
    match state.stage {
        Stage::Reading => {
            lemma_command_steps_len(state.script, state.delay, state.platform, content_of(reply));
            lemma_command_steps_index(
                state.script,
                state.delay,
                state.platform,
                content_of(reply),
                0,
            );
        },
        Stage::Running => {
            lemma_command_steps_len(state.script, state.delay, state.platform, state.saved);
            let last = state.steps()[state.cursor - 1];
            let target = if reply is Failed && last is WriteClipboard {
                next_line_start(state.cursor - 1)
            } else {
                state.cursor as int
            };
            if 0 <= target < state.steps().len() {
                lemma_command_steps_index(
                    state.script,
                    state.delay,
                    state.platform,
                    state.saved,
                    target,
                );
            }
            if reply is Failed && last is RestoreClipboard {
                lemma_restore_is_third_from_end(
                    state.script,
                    state.delay,
                    state.platform,
                    state.saved,
                    state.cursor - 1,
                );
            }
        },
        _ => {},
    }
}

/// A run never asks twice for the flag to be reset, and once it has asked,
/// nothing is left to do.
pub proof fn lemma_released_at_most_once(state: PlaybackState, replies: Seq<ReplyView>)
    requires
        state.valid(),
    ensures
        releases(trace(state, replies)) <= 1,
        state.stage == Stage::Released || state.stage == Stage::Finished ==> releases(
            trace(state, replies),
        ) == 0,
    decreases replies.len(),
{
    if replies.len() > 0 {
        let next = advance(state, replies[0]).0;
        let rest = trace(next, replies.drop_first());
        if state.stage != Stage::Finished {
            lemma_advance_comes_closer(state, replies[0]);
        }
        lemma_released_at_most_once(next, replies.drop_first());
        assert(trace(state, replies).drop_first() =~= rest);
    }
}

/// The law of the flag. Whatever the host replies, and whichever steps
/// fail, a run comes to its end after a bounded number of steps, and on the
/// way it asks exactly once for the flag to be reset.
pub proof fn law_flag_is_released_exactly_once(state: PlaybackState, replies: Seq<ReplyView>)
    requires
        state.valid(),
        state.stage != Stage::Released,
        state.stage != Stage::Finished,
        replies.len() >= steps_left(state),
    ensures
        outcome(state, replies).stage == Stage::Finished,
        releases(trace(state, replies)) == 1,
    decreases replies.len(),
{
    let next = advance(state, replies[0]).0;
    let rest = replies.drop_first();
    lemma_advance_comes_closer(state, replies[0]);
    assert(trace(state, replies).drop_first() =~= trace(next, rest));
    if next.stage == Stage::Released {
        lemma_released_at_most_once(next, rest);
        lemma_run_ends(next, rest);
    } else {
        law_flag_is_released_exactly_once(next, rest);
    }
}

/// A run is over once it has been asked for as many steps as were left.
pub proof fn lemma_run_ends(state: PlaybackState, replies: Seq<ReplyView>)
    requires
        state.valid(),
        replies.len() >= steps_left(state),
    ensures
        outcome(state, replies).stage == Stage::Finished,
    decreases replies.len(),
{
    if replies.len() > 0 {
        if state.stage != Stage::Finished {
            lemma_advance_comes_closer(state, replies[0]);
        }
        lemma_run_ends(advance(state, replies[0]).0, replies.drop_first());
    }
}

/// While no step fails, a run that takes the steps of its script takes
/// those that are left in order, and then asks for the flag to be reset.
proof fn lemma_undisturbed_rest(state: PlaybackState, replies: Seq<ReplyView>)
    requires
        state.valid(),
        state.stage == Stage::Running,
        replies.len() == state.steps().len() - state.cursor + 1,
        forall|i: int| 0 <= i < replies.len() ==> !((#[trigger] replies[i]) is Failed),
    ensures
        trace(state, replies) == state.steps().skip(state.cursor as int) + seq![
            StepView::ReleaseFlag,
        ],
    decreases replies.len(),
{
    let next = advance(state, replies[0]).0;
    let rest = replies.drop_first();
    if state.cursor < state.steps().len() {
        lemma_undisturbed_rest(next, rest);
        assert(trace(state, replies) =~= state.steps().skip(state.cursor as int) + seq![
            StepView::ReleaseFlag,
        ]);
    } else {
        assert(trace(next, rest) =~= Seq::<StepView>::empty());
        assert(trace(state, replies) =~= state.steps().skip(state.cursor as int) + seq![
            StepView::ReleaseFlag,
        ]);
    }
}

/// Whether `replies` are the replies of a host for which no step of a run
/// of `state` fails: the third reply answers the request to read the
/// clipboard, there is one reply for each request up to the one that
/// resets the flag, and none of the replies after the third says that a
/// step failed.
pub open spec fn undisturbed(state: PlaybackState, replies: Seq<ReplyView>) -> bool {
    &&& replies.len() >= 3
    &&& replies.len() == command_steps(
        state.script,
        state.delay,
        state.platform,
        content_of(replies[2]),
    ).len() + 3
    &&& forall|i: int| 3 <= i < replies.len() ==> !((#[trigger] replies[i]) is Failed)
}

/// A run of a script that is not empty, in which no step fails, announces
/// itself, asks for the clipboard to be read, takes every step of the
/// script in order, and asks for the flag to be reset.
pub proof fn law_undisturbed_run_takes_every_step(state: PlaybackState, replies: Seq<ReplyView>)
    requires
        state.stage == Stage::Fresh,
        state.script.len() > 0,
        undisturbed(state, replies),
    ensures
        trace(state, replies) == seq![
            StepView::Log("Starting morph process..."@),
            StepView::ReadClipboard,
        ] + command_steps(state.script, state.delay, state.platform, content_of(replies[2]))
            + seq![StepView::ReleaseFlag],
{
    let saved = content_of(replies[2]);
    let steps = command_steps(state.script, state.delay, state.platform, saved);
    lemma_command_steps_len(state.script, state.delay, state.platform, saved);
    let announced = advance(state, replies[0]).0;
    let reading = advance(announced, replies[1]).0;
    let running = advance(reading, replies[2]).0;
    let rest = replies.drop_first().drop_first().drop_first();
    lemma_undisturbed_rest(running, rest);
    assert(steps.skip(1) + seq![StepView::ReleaseFlag] =~= (steps + seq![
        StepView::ReleaseFlag,
    ]).skip(1));
    let second = replies.drop_first();
    let third = second.drop_first();
    assert(trace(reading, third) =~= seq![steps[0]] + trace(running, rest));
    assert(trace(state, replies) =~= seq![StepView::Log("Starting morph process..."@)] + trace(
        announced,
        second,
    ));
    assert(trace(state, replies) =~= seq![
        StepView::Log("Starting morph process..."@),
        StepView::ReadClipboard,
    ] + steps + seq![StepView::ReleaseFlag]);
}

/// The clipboard law. In a run in which no step fails and which found
/// `held` on the clipboard, the clipboard holds the text of each
/// command at the moment at which the command is pasted, and holds
/// `held` again when the run is over.
pub proof fn law_clipboard_round_trip(
    state: PlaybackState,
    replies: Seq<ReplyView>,
    held: Seq<char>,
)
    requires
        state.stage == Stage::Fresh,
        state.script.len() > 0,
        undisturbed(state, replies),
        replies[2] == ReplyView::Clipboard(Some(held)),
    ensures
        clipboard_after(trace(state, replies), held) == held,
        forall|line: int|
            0 <= line < commands_of(state.script).len() ==> {
                &&& (#[trigger] trace(state, replies)[2 + paste_step(line)]) == StepView::Click(
                    state.platform.paste_key(),
                )
                &&& clipboard_after(trace(state, replies).take(2 + paste_step(line)), held)
                    == commands_of(state.script)[line]
            },
{
    let steps = command_steps(state.script, state.delay, state.platform, Some(held));
    let opening = seq![StepView::Log("Starting morph process..."@), StepView::ReadClipboard];
    let closing = seq![StepView::ReleaseFlag];
    let all = trace(state, replies);
    law_undisturbed_run_takes_every_step(state, replies);
    lemma_clipboard_untouched(opening, held);
    lemma_clipboard_after_add(opening, steps, held);
    law_clipboard_is_restored(state.script, state.delay, state.platform, held, held);
    lemma_clipboard_after_add(opening + steps, closing, held);
    lemma_clipboard_untouched(closing, held);
    assert forall|line: int| 0 <= line < commands_of(state.script).len() implies {
        &&& (#[trigger] all[2 + paste_step(line)]) == StepView::Click(state.platform.paste_key())
        &&& clipboard_after(all.take(2 + paste_step(line)), held) == commands_of(
            state.script,
        )[line]
    } by {
        law_clipboard_holds_line_when_pasted(
            state.script,
            state.delay,
            state.platform,
            Some(held),
            held,
            line,
        );
        let at = paste_step(line);
        assert(all.take(2 + at) =~= opening + steps.take(at));
        lemma_clipboard_after_add(opening, steps.take(at), held);
    }
}

} // verus!
