//! The playback engine: it hands the steps of one run to its host one by
//! one, and decides after each what comes next from how the step went.

use crate::playback::{
    command_steps, commands, step_views, text_of, Platform, Step, StepView, STEPS_PER_LINE,
};
use crate::playback_laws::lemma_restore_is_third_from_end;
use vstd::prelude::*;

verus! {

/// Where a run stands.
#[derive(Clone, Copy, Debug, PartialEq, Eq, Structural)]
pub enum Stage {
    /// Nothing has been asked of the host yet.
    Fresh,
    /// The start of the run has been announced.
    Announced,
    /// The host has been asked for what the clipboard holds.
    Reading,
    /// The steps of the script are being taken.
    Running,
    /// The run is over but for resetting the flag.
    Closing,
    /// The host has been asked to reset the flag.
    Released,
    /// Nothing is left to do.
    Finished,
}

/// How the step that the host was last asked to take went.
#[derive(Debug, PartialEq, Eq)]
pub enum Reply {
    /// It was done.
    Done,
    /// It failed.
    Failed,
    /// The clipboard was read: this is what it holds, or nothing if it
    /// could not be read.
    Clipboard(Option<String>),
}

/// A [`Reply`] with its text as a sequence of characters.
pub enum ReplyView {
    Done,
    Failed,
    Clipboard(Option<Seq<char>>),
}

impl View for Reply {
    type V = ReplyView;

    open spec fn view(&self) -> ReplyView {
        match self {
            Reply::Done => ReplyView::Done,
            Reply::Failed => ReplyView::Failed,
            Reply::Clipboard(content) => ReplyView::Clipboard(text_of(*content)),
        }
    }
}

/// What the clipboard held according to `reply`: nothing unless the reply
/// brings it.
pub open spec fn content_of(reply: ReplyView) -> Option<Seq<char>> {
    match reply {
        ReplyView::Clipboard(content) => content,
        _ => None,
    }
}

/// A run: the script and the delay as they were when the run was accepted,
/// the platform, how far the run has come, and what the clipboard held
/// before it.
#[verifier::ext_equal]
pub struct PlaybackState {
    pub script: Seq<char>,
    pub delay: u64,
    pub platform: Platform,
    pub stage: Stage,
    /// While the steps of the script are taken: how many of them are behind.
    pub cursor: nat,
    /// What the clipboard held before the run, once it has been read.
    pub saved: Option<Seq<char>>,
}

impl PlaybackState {
    /// The steps of the script of this run, if nothing fails.
    pub open spec fn steps(self) -> Seq<StepView> {
        command_steps(self.script, self.delay, self.platform, self.saved)
    }

    /// This run at the stage `stage`.
    pub open spec fn at(self, stage: Stage) -> PlaybackState {
        PlaybackState { stage, ..self }
    }

    /// Whether the run is in order: while the steps of the script are
    /// taken, at least one and at most all of them are behind.
    pub open spec fn valid(self) -> bool {
        self.stage == Stage::Running ==> 1 <= self.cursor <= self.steps().len()
    }
}

/// Whether `step` is a keystroke.
pub open spec fn is_keystroke(step: StepView) -> bool {
    step is RawClick || step is Click || step is Press || step is Release
}

/// The index of the first step of the line after the one that the step at
/// `index` belongs to.
pub open spec fn next_line_start(index: int) -> int {
    index - index % (STEPS_PER_LINE as int) + STEPS_PER_LINE
}

/// The run asks for the step at `index` of the script's steps; past the
/// last of them, it asks for the flag to be reset.
pub open spec fn take_step(state: PlaybackState, index: int) -> (PlaybackState, StepView) {
    if 0 <= index < state.steps().len() {
        (
            PlaybackState { stage: Stage::Running, cursor: (index + 1) as nat, ..state },
            state.steps()[index],
        )
    } else {
        (state.at(Stage::Released), StepView::ReleaseFlag)
    }
}

/// One step of a run: the state after the host's reply `reply` to the step
/// before, and the step that the host is asked to take next.
///
/// A run of an empty script says that it skips and goes on to reset the
/// flag. Any other run announces itself, asks for the clipboard to be read,
/// and then takes the steps of the script in order. A keystroke that fails
/// ends the run at once: it says so and goes on to reset the flag. A line
/// whose text cannot be put on the clipboard is given up, and the run goes
/// on with the next line. When the clipboard cannot be restored the run
/// says so in place of saying that it was restored. After the last step the
/// host is asked to reset the flag, and from then on nothing is left to do.
pub open spec fn advance(state: PlaybackState, reply: ReplyView) -> (PlaybackState, StepView) {
    match state.stage {
        Stage::Fresh => if state.script.len() == 0 {
            (
                state.at(Stage::Closing),
                StepView::Log("Morph commands are empty, skipping."@),
            )
        } else {
            (state.at(Stage::Announced), StepView::Log("Starting morph process..."@))
        },
        Stage::Announced => (state.at(Stage::Reading), StepView::ReadClipboard),
        Stage::Reading => take_step(PlaybackState { saved: content_of(reply), ..state }, 0),
        Stage::Running => {
            let last = state.steps()[state.cursor - 1];
            if reply is Failed && is_keystroke(last) {
                (state.at(Stage::Closing), StepView::Log("Morph process aborted."@))
            } else if reply is Failed && last is WriteClipboard {
                take_step(state, next_line_start(state.cursor - 1))
            } else if reply is Failed && last is RestoreClipboard {
                (
                    PlaybackState { cursor: state.cursor + 1, ..state },
                    StepView::Log("Clipboard could not be restored."@),
                )
            } else {
                take_step(state, state.cursor as int)
            }
        },
        Stage::Closing => (state.at(Stage::Released), StepView::ReleaseFlag),
        Stage::Released => (state.at(Stage::Finished), StepView::Done),
        Stage::Finished => (state, StepView::Done),
    }
}

/// One playback run. The host asks it for one step after the other with
/// [`Playback::next`], takes each step and reports how it went.
pub struct Playback {
    script: String,
    delay: u64,
    platform: Platform,
    stage: Stage,
    cursor: usize,
    steps: Vec<Step>,
    saved: Ghost<Option<Seq<char>>>,
}

impl View for Playback {
    type V = PlaybackState;

    closed spec fn view(&self) -> PlaybackState {
        PlaybackState {
            script: self.script@,
            delay: self.delay,
            platform: self.platform,
            stage: self.stage,
            cursor: self.cursor as nat,
            saved: self.saved@,
        }
    }
}

impl Playback {
    #[verifier::type_invariant]
    spec fn in_order(self) -> bool {
        self.stage == Stage::Running ==> {
            &&& step_views(self.steps@) == self@.steps()
            &&& 1 <= self.cursor <= self.steps@.len()
        }
    }

    /// A run of the script `script` with the delay `delay`, in
    /// milliseconds, on `platform`. Both are kept as they are now: what
    /// the user changes later does not reach this run.
    pub fn new(script: &str, delay: u64, platform: Platform) -> (run: Playback)
        ensures
            run@ == (PlaybackState {
                script: script@,
                delay,
                platform,
                stage: Stage::Fresh,
                cursor: 0,
                saved: None,
            }),
            run@.valid(),
    {
        Playback {
            script: script.to_owned(),
            delay,
            platform,
            stage: Stage::Fresh,
            cursor: 0,
            steps: Vec::new(),
            saved: Ghost(None),
        }
    }

    /// Where the run stands.
    pub fn stage(&self) -> (stage: Stage)
        ensures
            stage == self@.stage,
    {
        self.stage
    }

    /// Whether nothing is left to do.
    pub fn is_finished(&self) -> (finished: bool)
        ensures
            finished == (self@.stage == Stage::Finished),
    {
        self.stage == Stage::Finished
    }

    /// Takes the host's reply to the step before and gives the next step.
    /// The reply to the first call does not matter.
    pub fn next(&mut self, reply: Reply) -> (step: Step)
        ensures
            final(self)@ == advance(old(self)@, reply@).0,
            step@ == advance(old(self)@, reply@).1,
            final(self)@.valid(),
    {
        proof {
            use_type_invariant(&*self);
        }
        let target: usize = match self.stage {
            Stage::Fresh => {
                if self.script.as_str().is_empty() {
                    self.stage = Stage::Closing;
                    return Step::Log("Morph commands are empty, skipping.".to_owned());
                } else {
                    self.stage = Stage::Announced;
                    return Step::Log("Starting morph process...".to_owned());
                }
            },
            Stage::Announced => {
                self.stage = Stage::Reading;
                return Step::ReadClipboard;
            },
            Stage::Reading => {
                let content = match reply {
                    Reply::Clipboard(content) => content,
                    _ => None,
                };
                self.saved = Ghost(text_of(content));
                self.steps = commands(self.script.as_str(), self.delay, self.platform, content);
                0
            },
            Stage::Running => {
                let index = self.cursor - 1;
                let total = self.steps.len();
                let failed = match reply {
                    Reply::Failed => true,
                    _ => false,
                };
                if !failed {
                    self.cursor
                } else {
                    match &self.steps[index] {
                        Step::RawClick(_) | Step::Click(_) | Step::Press(_) | Step::Release(_) => {
                            self.stage = Stage::Closing;
                            return Step::Log("Morph process aborted.".to_owned());
                        },
                        Step::WriteClipboard(_) => {
                            let rest = STEPS_PER_LINE - index % STEPS_PER_LINE;
                            if rest >= total - index {
                                self.stage = Stage::Released;
                                return Step::ReleaseFlag;
                            }
                            index + rest
                        },
                        Step::RestoreClipboard(_) => {
                            proof {
                                lemma_restore_is_third_from_end(
                                    self@.script,
                                    self@.delay,
                                    self@.platform,
                                    self@.saved,
                                    index as int,
                                );
                            }
                            self.cursor = self.cursor + 1;
                            return Step::Log("Clipboard could not be restored.".to_owned());
                        },
                        _ => self.cursor,
                    }
                }
            },
            Stage::Closing => {
                self.stage = Stage::Released;
                return Step::ReleaseFlag;
            },
            Stage::Released => {
                self.stage = Stage::Finished;
                return Step::Done;
            },
            Stage::Finished => {
                return Step::Done;
            },
        };
        if target < self.steps.len() {
            self.cursor = target + 1;
            self.stage = Stage::Running;
            self.steps[target].duplicate()
        } else {
            self.stage = Stage::Released;
            Step::ReleaseFlag
        }
    }
}

} // verus!
