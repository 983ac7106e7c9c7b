//! The command script as the user interface sets it, the flag that says a
//! run is going on, and the dispatcher that answers each trigger of the
//! hotkey by starting a run or by dropping the trigger.

use crate::engine::{Playback, PlaybackState, Stage};
use crate::messages::{appended, log_message};
use crate::playback::Platform;
use crate::script::{delay_of, parse_delay};
use crate::text::texts;
use vstd::prelude::*;

verus! {

/// The flag that is set for as long as a playback run goes on. Setting it
/// is one step with finding it unset, so that of several triggers only one
/// can win.
pub struct SimulationFlag {
    simulating: bool,
}

impl View for SimulationFlag {
    type V = bool;

    closed spec fn view(&self) -> bool {
        self.simulating
    }
}

impl SimulationFlag {
    /// A flag that is not set.
    pub fn new() -> (flag: SimulationFlag)
        ensures
            !flag@,
    {
        SimulationFlag { simulating: false }
    }

    /// Whether a run is going on.
    pub fn is_simulating(&self) -> (simulating: bool)
        ensures
            simulating == self@,
    {
        self.simulating
    }

    /// Sets the flag and says whether it was unset before: whether the
    /// caller is the one that may start a run.
    pub fn try_acquire(&mut self) -> (won: bool)
        ensures
            won == !old(self)@,
            final(self)@,
    {
        let won = !self.simulating;
        self.simulating = true;
        won
    }

    /// Resets the flag at the end of a run.
    pub fn release(&mut self)
        ensures
            !final(self)@,
    {
        self.simulating = false;
    }
}

/// The script and the delay as the user typed them.
#[verifier::ext_equal]
pub struct ScriptText {
    pub commands: Seq<char>,
    pub delay: Seq<char>,
}

/// The script and the delay as the user set them last. A run takes both as
/// they are when it is accepted.
pub struct CommandScript {
    commands: String,
    delay: String,
}

impl View for CommandScript {
    type V = ScriptText;

    closed spec fn view(&self) -> ScriptText {
        ScriptText { commands: self.commands@, delay: self.delay@ }
    }
}

/// The commands that a reset brings back.
pub open spec fn default_commands() -> Seq<char> {
    "unpermall me\nunpermhats me\nunpermshirt me\nclearstartergear me"@
}

impl CommandScript {
    /// No commands, and a delay of 40.
    pub fn new() -> (script: CommandScript)
        ensures
            script@ == (ScriptText { commands: Seq::empty(), delay: "40"@ }),
    {
        CommandScript { commands: String::new(), delay: "40".to_owned() }
    }

    /// Replaces the commands by `text`.
    pub fn set_commands(&mut self, text: &str)
        ensures
            final(self)@ == (ScriptText { commands: text@, ..old(self)@ }),
    {
        self.commands = text.to_owned();
    }

    /// Replaces the delay by `text`, which need not be a number.
    pub fn set_delay(&mut self, text: &str)
        ensures
            final(self)@ == (ScriptText { delay: text@, ..old(self)@ }),
    {
        self.delay = text.to_owned();
    }

    /// Brings the commands back to the default ones.
    pub fn reset(&mut self)
        ensures
            final(self)@ == (ScriptText { commands: default_commands(), ..old(self)@ }),
    {
        self.commands =
            "unpermall me\nunpermhats me\nunpermshirt me\nclearstartergear me".to_owned();
    }

    /// The commands.
    pub fn commands(&self) -> (text: &str)
        ensures
            text@ == self@.commands,
    {
        self.commands.as_str()
    }

    /// The delay as the user typed it.
    pub fn delay_text(&self) -> (text: &str)
        ensures
            text@ == self@.delay,
    {
        self.delay.as_str()
    }

    /// The delay in milliseconds: the number that the user typed, or the
    /// default delay if what the user typed is not a number.
    pub fn delay_ms(&self) -> (delay: u64)
        ensures
            delay == delay_of(self@.delay),
    {
        parse_delay(self.delay.as_str())
    }
}

/// The answer of the dispatcher to one trigger.
pub enum Dispatch {
    /// A run goes on already: the trigger is dropped.
    Ignored,
    /// The flag is taken and this run is to be started.
    Started(Playback),
}

/// The run that a trigger starts when the user has set `script`.
pub open spec fn accepted_run(script: ScriptText, platform: Platform) -> PlaybackState {
    PlaybackState {
        script: script.commands,
        delay: delay_of(script.delay),
        platform,
        stage: Stage::Fresh,
        cursor: 0,
        saved: None,
    }
}

/// What one trigger does to the flag and the log, and whether it starts a
/// run: the flag is set afterwards in any case; a trigger that finds it
/// unset starts a run and says so, any other is dropped and says so.
pub open spec fn after_fire(simulating: bool, log: Seq<Seq<char>>) -> (bool, Seq<Seq<char>>, bool) {
    if simulating {
        (true, appended(log, "Simulation already in progress, ignoring hotkey."@), false)
    } else {
        (
            true,
            appended(log, "Hotkey signal received, spawning a new simulation thread."@),
            true,
        )
    }
}

/// Answers one trigger of the hotkey. If a run goes on, the trigger is
/// dropped and the log says so. Otherwise the flag is set, the log says
/// that a run starts, and the run is handed back: it plays the script and
/// the delay as they are now.
pub fn on_fire(
    flag: &mut SimulationFlag,
    script: &CommandScript,
    platform: Platform,
    log: &mut Vec<String>,
) -> (dispatch: Dispatch)
    ensures
        final(flag)@ == after_fire(old(flag)@, texts(old(log)@)).0,
        texts(final(log)@) == after_fire(old(flag)@, texts(old(log)@)).1,
        (dispatch is Started) == after_fire(old(flag)@, texts(old(log)@)).2,
        dispatch matches Dispatch::Started(run) ==> run@ == accepted_run(script@, platform)
            && run@.valid(),
{
    if flag.try_acquire() {
        log_message(log, "Hotkey signal received, spawning a new simulation thread.");
        Dispatch::Started(Playback::new(script.commands(), script.delay_ms(), platform))
    } else {
        log_message(log, "Simulation already in progress, ignoring hotkey.");
        Dispatch::Ignored
    }
}

/// What `fires` triggers in a row do, when no run ends in between: the
/// flag and the log after the last of them, and how many runs they start.
pub open spec fn after_fires(simulating: bool, log: Seq<Seq<char>>, fires: nat) -> (
    bool,
    Seq<Seq<char>>,
    nat,
)
    decreases fires,
{
    if fires == 0 {
        (simulating, log, 0)
    } else {
        let first = after_fire(simulating, log);
        let rest = after_fires(first.0, first.1, (fires - 1) as nat);
        (
            rest.0,
            rest.1,
            rest.2 + if first.2 {
                1nat
            } else {
                0nat
            },
        )
    }
}

/// The log after the message `message` has been appended `times` times.
pub open spec fn appended_times(log: Seq<Seq<char>>, message: Seq<char>, times: nat) -> Seq<
    Seq<char>,
>
    decreases times,
{
    if times == 0 {
        log
    } else {
        appended_times(appended(log, message), message, (times - 1) as nat)
    }
}

/// Triggers that arrive while a run goes on start nothing; each is logged
/// as ignored.
pub proof fn lemma_fires_during_a_run_are_ignored(log: Seq<Seq<char>>, fires: nat)
    ensures
        after_fires(true, log, fires) == (
            true,
            appended_times(log, "Simulation already in progress, ignoring hotkey."@, fires),
            0nat,
        ),
    decreases fires,
{
    if fires > 0 {
        lemma_fires_during_a_run_are_ignored(
            appended(log, "Simulation already in progress, ignoring hotkey."@),
            (fires - 1) as nat,
        );
    }
}

/// The law of the single run. Of any number of triggers that arrive while
/// no run goes on, in whichever order the flag serves them, exactly one
/// starts a run: the first. All others are logged as ignored, and the flag
/// stays set.
pub proof fn law_one_of_many_fires_starts_a_run(log: Seq<Seq<char>>, fires: nat)
    requires
        fires >= 1,
    ensures
        after_fires(false, log, fires) == (
            true,
            appended_times(
                appended(log, "Hotkey signal received, spawning a new simulation thread."@),
                "Simulation already in progress, ignoring hotkey."@,
                (fires - 1) as nat,
            ),
            1nat,
        ),
{
    lemma_fires_during_a_run_are_ignored(
        appended(log, "Hotkey signal received, spawning a new simulation thread."@),
        (fires - 1) as nat,
    );
}

} // verus!
