//! The wire-level vocabulary of the game messages as clients see it:
//! roles, game states and cell values in their published order.

use vstd::prelude::*;

verus! {

/// Distinguishes to a player which role they fulfil
#[derive(Clone, Copy, PartialEq, Eq, Structural, Debug)]
pub enum PlayerRole {
    /// this player initiated the game
    Initiator,
    /// this player joined the game
    Joiner,
}

/// Describes the state of an initiated game (fits into u8)
#[derive(Clone, Copy, PartialEq, Eq, Structural, Debug)]
pub enum GameState {
    /// waiting for another player to join
    WaitingForPlayer,
    /// waiting for both players to submit their setups
    WaitingForBothPlayersSetup,
    /// waiting for only the initiator to submit their setup
    WaitingForInitiatorSetup,
    /// waiting for only the joiner to submit their setup
    WaitingForJoinerSetup,
    /// waiting for the player who initiated to submit their move
    InitiatorsTurn,
    /// waiting for the player who joined to submit their move
    JoinersTurn,
    /// player who initiated won
    GameOverInitiatorWon,
    /// player who joined won
    GameOverJoinerWon,
}

/// Describes the occupancy of a cell (fits into u8)
#[derive(Clone, Copy, PartialEq, Eq, Structural, Debug)]
pub enum CellValue {
    /// part of the "Carrier" vessel occupies the cell
    Carrier,
    /// part of the "Battleship" vessel occupies the cell
    Battleship,
    /// part of the "Cruiser" vessel occupies the cell
    Cruiser,
    /// part of the "Submarine" vessel occupies the cell
    Submarine,
    /// part of the "Destroyer" vessel occupies the cell
    Destroyer,
    /// nothing occupies the cell. used for both `board` and `tracking`
    /// grids
    Empty,
    /// for `tracking` grid only: player missed the cell
    Miss,
    /// for `tracking` grid only: player hit a vessel but has not yet sunk
    /// it
    HitUnknown,
}

} // verus!
