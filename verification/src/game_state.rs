//! The screens of the game.

use vstd::prelude::*;

verus! {

#[derive(Clone, PartialEq, Eq, Debug, Hash)]
pub enum GameState {
    Loading,
    Menu,
    Credits,
    Playing,
    GameOver,
}

} // verus!
