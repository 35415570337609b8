//! Validation failures surfaced to the caller.  Every command either succeeds
//! or reports exactly one of these kinds and leaves the table untouched.

use vstd::prelude::*;

verus! {

/// The error kinds a table command can report.
#[derive(Clone, Copy, Debug, PartialEq, Eq, Structural)]
pub enum PokerError {
    /// Table is full.
    TableFull,
    /// Invalid seat number.
    InvalidSeat,
    /// Seat already occupied.
    SeatOccupied,
    /// Not enough players to start game.
    NotEnoughPlayers,
    /// Game already in progress.
    GameInProgress,
    /// Game not started.
    GameNotStarted,
    /// Not player's turn.
    NotPlayersTurn,
    /// Player has already acted this round.
    AlreadyActed,
    /// Invalid action.
    InvalidAction,
    /// Insufficient funds.
    InsufficientFunds,
    /// Raise amount too small.
    RaiseTooSmall,
    /// Player not found at table.
    PlayerNotFound,
    /// Player is all-in.
    PlayerAllIn,
    /// Player has folded.
    PlayerFolded,
    /// Cannot leave during active game.
    CannotLeaveDuringGame,
    /// Math overflow.
    MathOverflow,
    /// Action timeout.
    ActionTimeout,
    /// Invalid game state.
    InvalidGameState,
    /// Showdown required.
    ShowdownRequired,
}

impl PokerError {
    /// A short human-readable description of the error.
    pub fn message(&self) -> (m: &'static str) {
        match self {
            PokerError::TableFull => "Table is full",
            PokerError::InvalidSeat => "Invalid seat number",
            PokerError::SeatOccupied => "Seat already occupied",
            PokerError::NotEnoughPlayers => "Not enough players to start game",
            PokerError::GameInProgress => "Game already in progress",
            PokerError::GameNotStarted => "Game not started",
            PokerError::NotPlayersTurn => "Not player's turn",
            PokerError::AlreadyActed => "Player has already acted this round",
            PokerError::InvalidAction => "Invalid action",
            PokerError::InsufficientFunds => "Insufficient funds",
            PokerError::RaiseTooSmall => "Raise amount too small",
            PokerError::PlayerNotFound => "Player not found at table",
            PokerError::PlayerAllIn => "Player is all-in",
            PokerError::PlayerFolded => "Player has folded",
            PokerError::CannotLeaveDuringGame => "Cannot leave during active game",
            PokerError::MathOverflow => "Math overflow",
            PokerError::ActionTimeout => "Action timeout",
            PokerError::InvalidGameState => "Invalid game state",
            PokerError::ShowdownRequired => "Showdown required",
        }
    }
}

} // verus!
