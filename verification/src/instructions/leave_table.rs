//! Unseating a player between hands.

use vstd::prelude::*;

use crate::error::PokerError;
use crate::state::{GameState, Table, TableModel};

verus! {

/// The validation failure leaving reports, if any: a hand in progress, the
/// caller not seated, or an inconsistent occupied-seat count.
pub open spec fn leave_error(t: TableModel, key: Seq<u8>) -> Option<PokerError> {
    if !(t.game_state == GameState::Waiting || t.game_state == GameState::Finished) {
        Some(PokerError::CannotLeaveDuringGame)
    } else if t.find_seat(key) is None {
        Some(PokerError::PlayerNotFound)
    } else if t.player_count == 0 {
        Some(PokerError::MathOverflow)
    } else {
        None
    }
}

/// The table after a successful leave: the slot cleared, the count one less.
pub open spec fn left_table(t: TableModel, key: Seq<u8>) -> TableModel {
    TableModel {
        players: t.players.update(t.find_seat(key)->0 as int, None),
        player_count: (t.player_count - 1) as u8,
        ..t
    }
}

/// Unseats the caller identified by `player_key`.
pub fn handler(table: &mut Table, player_key: [u8; 32]) -> (r: Result<(), PokerError>)
    ensures
        match r {
            Ok(()) => {
                &&& leave_error(old(table)@, player_key@) is None
                &&& final(table)@ == left_table(old(table)@, player_key@)
            },
            Err(e) => {
                &&& leave_error(old(table)@, player_key@) == Some(e)
                &&& *final(table) == *old(table)
            },
        },
{
    if !(table.game_state == GameState::Waiting || table.game_state == GameState::Finished) {
        return Err(PokerError::CannotLeaveDuringGame);
    }
    let seat = match table.find_player_seat(&player_key) {
        Some(s) => s,
        None => {
            return Err(PokerError::PlayerNotFound);
        },
    };
    if table.player_count == 0 {
        return Err(PokerError::MathOverflow);
    }
    let ghost before = table@;
    table.players[seat as usize] = None;
    table.player_count = table.player_count - 1;
    proof {
        assert(table@.players =~= left_table(before, player_key@).players);
        assert(table@ =~= left_table(before, player_key@));
    }
    Ok(())
}

} // verus!
