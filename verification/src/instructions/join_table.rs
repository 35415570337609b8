//! Seating a new player at a waiting table.

use vstd::prelude::*;

use crate::error::PokerError;
use crate::state::{bytes32_eq, GameState, Player, PlayerJoinedEvent, PlayerModel, Table, TableModel};

verus! {

/// Some seat holds a player whose identity is `key`.
pub open spec fn key_seated(t: TableModel, key: Seq<u8>) -> bool {
    exists|i: int| #[trigger] t.seat_occupied(i) && t.player_at(i).pubkey == key
}

/// The validation failure joining reports, if any, in the order the checks
/// run: seat out of range, hand in progress, table at capacity, seat beyond
/// the table's own cap, seat taken, caller already seated.
pub open spec fn join_error(t: TableModel, key: Seq<u8>, seat: u8) -> Option<PokerError> {
    if seat >= 9 {
        Some(PokerError::InvalidSeat)
    } else if t.game_state != GameState::Waiting {
        Some(PokerError::GameInProgress)
    } else if !(t.player_count < t.max_players) {
        Some(PokerError::TableFull)
    } else if seat >= t.max_players {
        Some(PokerError::InvalidSeat)
    } else if t.players[seat as int] is Some {
        Some(PokerError::SeatOccupied)
    } else if key_seated(t, key) {
        Some(PokerError::InvalidAction)
    } else {
        None
    }
}

/// The seat record a successful join creates: the table's buy-in as stack,
/// everything else zeroed.
pub open spec fn joined_player(key: Seq<u8>, seat: u8, buy_in: u64) -> PlayerModel {
    PlayerModel {
        pubkey: key,
        seat: seat,
        stack: buy_in,
        bet: 0,
        hole_cards: seq![None, None],
        hole_cards_committed: Seq::new(32, |i: int| 0u8),
        is_all_in: false,
        has_folded: false,
        has_acted: false,
        last_action: None,
    }
}

/// The table after a successful join.
pub open spec fn joined_table(t: TableModel, key: Seq<u8>, seat: u8) -> TableModel {
    TableModel {
        players: t.players.update(seat as int, Some(joined_player(key, seat, t.buy_in))),
        player_count: (t.player_count + 1) as u8,
        ..t
    }
}

/// Seats the caller identified by `player_key` at `seat`.
pub fn handler(table: &mut Table, player_key: [u8; 32], seat: u8) -> (r: Result<
    PlayerJoinedEvent,
    PokerError,
>)
    ensures
        match r {
            Ok(ev) => {
                &&& join_error(old(table)@, player_key@, seat) is None
                &&& final(table)@ == joined_table(old(table)@, player_key@, seat)
                &&& ev == (PlayerJoinedEvent {
                    table_id: old(table).table_id,
                    player: player_key,
                    seat: seat,
                    stack: old(table).buy_in,
                })
            },
            Err(e) => {
                &&& join_error(old(table)@, player_key@, seat) == Some(e)
                &&& *final(table) == *old(table)
            },
        },
{
    if seat >= 9 {
        return Err(PokerError::InvalidSeat);
    }
    if table.game_state != GameState::Waiting {
        return Err(PokerError::GameInProgress);
    }
    if !(table.player_count < table.max_players) {
        return Err(PokerError::TableFull);
    }
    if seat >= table.max_players {
        return Err(PokerError::InvalidSeat);
    }
    if table.players[seat as usize].is_some() {
        return Err(PokerError::SeatOccupied);
    }
    let mut i: usize = 0;
    #[verifier::loop_isolation(false)]
    while i < 9
        invariant
            i <= 9,
            forall|k: int|
                0 <= k < i ==> !(#[trigger] table@.seat_occupied(k) && table@.player_at(k).pubkey
                    == player_key@),
        decreases 9 - i,
    {
        match &table.players[i] {
            Some(p) => {
                if bytes32_eq(&p.pubkey, &player_key) {
                    assert(table@.seat_occupied(i as int) && table@.player_at(i as int).pubkey
                        == player_key@);
                    return Err(PokerError::InvalidAction);
                }
            },
            None => {},
        }
        i = i + 1;
    }
    assert(!key_seated(table@, player_key@));
    let buy_in = table.buy_in;
    let player = Player {
        pubkey: player_key,
        seat,
        stack: buy_in,
        bet: 0,
        hole_cards: [None, None],
        hole_cards_committed: [0u8; 32],
        is_all_in: false,
        has_folded: false,
        has_acted: false,
        last_action: None,
    };
    let ghost before = table@;
    table.players[seat as usize] = Some(player);
    table.player_count = table.player_count + 1;
    proof {
        assert(player@ =~= joined_player(player_key@, seat, buy_in));
        assert(table@.players =~= joined_table(before, player_key@, seat).players);
        assert(table@ =~= joined_table(before, player_key@, seat));
    }
    Ok(
        PlayerJoinedEvent {
            table_id: table.table_id,
            player: player_key,
            seat,
            stack: buy_in,
        },
    )
}

} // verus!
