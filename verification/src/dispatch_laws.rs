//! What holds of the flag and the runs together: at most one run is under
//! way at any time.

use crate::dispatch::{accepted_run, ScriptText};
use crate::engine::{advance, PlaybackState, ReplyView, Stage};
use crate::engine_laws::lemma_advance_comes_closer;
use crate::playback::{Platform, StepView};
use vstd::prelude::*;

verus! {

/// The flag together with every run that has been started so far.
#[verifier::ext_equal]
pub struct Plant {
    pub simulating: bool,
    pub runs: Seq<PlaybackState>,
}

/// Something that happens to the flag and the runs.
pub enum Move {
    /// The hotkey fires while the user has set `script`.
    Fire { script: ScriptText, platform: Platform },
    /// The host of the run with the index `run` reports how the step before
    /// went and takes the next step; when that step asks for the flag to be
    /// reset, it resets the flag.
    Step { run: int, reply: ReplyView },
}

/// Whether a run is under way: it has not yet asked for the flag to be
/// reset.
pub open spec fn under_way(run: PlaybackState) -> bool {
    run.stage != Stage::Released && run.stage != Stage::Finished
}

/// The flag and the runs before anything has happened.
pub open spec fn at_rest() -> Plant {
    Plant { simulating: false, runs: Seq::empty() }
}

/// The flag and the runs after `action`. A trigger that finds the flag set
/// changes nothing; one that finds it unset sets it and starts a run.
pub open spec fn moved(plant: Plant, action: Move) -> Plant {
    match action {
        Move::Fire { script, platform } => if plant.simulating {
            plant
        } else {
            Plant { simulating: true, runs: plant.runs.push(accepted_run(script, platform)) }
        },
        Move::Step { run, reply } => if 0 <= run < plant.runs.len() {
            let (next, step) = advance(plant.runs[run], reply);
            Plant {
                simulating: plant.simulating && step != StepView::ReleaseFlag,
                runs: plant.runs.update(run, next),
            }
        } else {
            plant
        },
    }
}

/// The flag and the runs after all of `actions`, in order.
pub open spec fn moved_all(plant: Plant, actions: Seq<Move>) -> Plant
    decreases actions.len(),
{
    if actions.len() == 0 {
        plant
    } else {
        moved(moved_all(plant, actions.drop_last()), actions.last())
    }
}

/// Whether the flag and the runs agree: every run is in order, at most one
/// run is under way, and the flag is set exactly while one is.
pub open spec fn single_flight(plant: Plant) -> bool {
    &&& forall|i: int| 0 <= i < plant.runs.len() ==> (#[trigger] plant.runs[i]).valid()
    &&& forall|i: int, j: int|
        0 <= i < plant.runs.len() && 0 <= j < plant.runs.len() && under_way(
            #[trigger] plant.runs[i],
        ) && under_way(#[trigger] plant.runs[j]) ==> i == j
    &&& plant.simulating <==> exists|i: int|
        0 <= i < plant.runs.len() && under_way(#[trigger] plant.runs[i])
}

/// Whatever happens, the flag and the runs go on agreeing.
pub proof fn lemma_single_flight_is_kept(plant: Plant, action: Move)
    requires
        single_flight(plant),
    ensures
        single_flight(moved(plant, action)),
{
    let after = moved(plant, action);
    match action {
        Move::Fire { script, platform } => {
            if !plant.simulating {
                assert(under_way(after.runs[plant.runs.len() as int]));
            }
        },
        Move::Step { run, reply } => {
            if 0 <= run < plant.runs.len() {
                let before = plant.runs[run];
                if before.stage != Stage::Finished {
                    lemma_advance_comes_closer(before, reply);
                }
                assert(after.runs[run] == advance(before, reply).0);
                if after.simulating {
                    let i = choose|i: int|
                        0 <= i < plant.runs.len() && under_way(#[trigger] plant.runs[i]);
                    if i != run {
                        assert(after.runs[i] == plant.runs[i]);
                    }
                }
            }
        },
    }
}

/// The law of the single flight. Whatever triggers arrive and whatever the
/// hosts of the runs report, in whichever order, at most one run is under
/// way at any time, and the flag is set exactly while one is.
pub proof fn law_at_most_one_run_at_a_time(actions: Seq<Move>)
    ensures
        single_flight(moved_all(at_rest(), actions)),
    decreases actions.len(),
{
    if actions.len() > 0 {
        law_at_most_one_run_at_a_time(actions.drop_last());
        lemma_single_flight_is_kept(moved_all(at_rest(), actions.drop_last()), actions.last());
    }
}

} // verus!
