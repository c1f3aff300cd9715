use vstd::prelude::*;

verus! {

/// The screen phases the surrounding presentation loop drives. The core does
/// not implement the transition logic itself; it only reacts to entering and
/// leaving a phase, and may request a transition (see `results::check_done`).
#[derive(Clone, Copy, Eq, PartialEq, Structural, Debug, Hash)]
pub enum GameState {
    Loading,
    StartMenu,
    Painting,
    Results,
    LeaderBoard,
}

} // verus!
