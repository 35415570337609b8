//! Creating a fresh table in the waiting phase.

use vstd::prelude::*;

use crate::error::PokerError;
use crate::state::{GameState, Round, Table, TableModel};

verus! {

/// The validation failure table creation reports, if any: a seat cap outside
/// 2..=9, a big blind not above the small blind, or a buy-in under ten big
/// blinds.
pub open spec fn create_error(
    small_blind: u64,
    big_blind: u64,
    max_players: u8,
    buy_in: u64,
) -> Option<PokerError> {
    if !(2 <= max_players && max_players <= 9) {
        Some(PokerError::InvalidSeat)
    } else if !(big_blind > small_blind) {
        Some(PokerError::InvalidAction)
    } else if !(buy_in as int >= 10 * big_blind as int) {
        Some(PokerError::InvalidAction)
    } else {
        None
    }
}

/// The record a successful creation produces: waiting phase, empty registry,
/// empty pot, minimum raise set to the big blind, a 60 second action timeout.
pub open spec fn created_table(
    creator: Seq<u8>,
    table_id: u64,
    small_blind: u64,
    big_blind: u64,
    max_players: u8,
    buy_in: u64,
    now: i64,
) -> TableModel {
    TableModel {
        creator: creator,
        table_id: table_id,
        small_blind: small_blind,
        big_blind: big_blind,
        max_players: max_players,
        buy_in: buy_in,
        game_state: GameState::Waiting,
        dealer_position: 0,
        small_blind_position: 0,
        big_blind_position: 0,
        current_player: None,
        pot: 0,
        community_cards: seq![None, None, None, None, None],
        round: Round::PreFlop,
        last_raise_amount: 0,
        min_raise: big_blind,
        players: seq![None, None, None, None, None, None, None, None, None],
        player_count: 0,
        created_at: now,
        last_action_at: now,
        action_timeout: 60,
    }
}

/// Creates a new table owned by `creator`, stamped with `now`.
pub fn handler(
    creator: [u8; 32],
    table_id: u64,
    small_blind: u64,
    big_blind: u64,
    max_players: u8,
    buy_in: u64,
    now: i64,
) -> (r: Result<Table, PokerError>)
    ensures
        match r {
            Ok(t) => {
                &&& create_error(small_blind, big_blind, max_players, buy_in) is None
                &&& t@ == created_table(
                    creator@,
                    table_id,
                    small_blind,
                    big_blind,
                    max_players,
                    buy_in,
                    now,
                )
            },
            Err(e) => create_error(small_blind, big_blind, max_players, buy_in) == Some(e),
        },
{
    if !(max_players >= 2 && max_players <= 9) {
        return Err(PokerError::InvalidSeat);
    }
    if !(big_blind > small_blind) {
        return Err(PokerError::InvalidAction);
    }
    match big_blind.checked_mul(10) {
        Some(floor) => {
            if buy_in < floor {
                return Err(PokerError::InvalidAction);
            }
        },
        None => {
            return Err(PokerError::InvalidAction);
        },
    }
    let t = Table {
        creator,
        table_id,
        small_blind,
        big_blind,
        max_players,
        buy_in,
        game_state: GameState::Waiting,
        dealer_position: 0,
        small_blind_position: 0,
        big_blind_position: 0,
        current_player: None,
        pot: 0,
        community_cards: [None, None, None, None, None],
        round: Round::PreFlop,
        last_raise_amount: 0,
        min_raise: big_blind,
        players: [None, None, None, None, None, None, None, None, None],
        player_count: 0,
        created_at: now,
        last_action_at: now,
        action_timeout: 60,
    };
    proof {
        assert(t@.players =~= created_table(
            creator@,
            table_id,
            small_blind,
            big_blind,
            max_players,
            buy_in,
            now,
        ).players);
        assert(t@ =~= created_table(
            creator@,
            table_id,
            small_blind,
            big_blind,
            max_players,
            buy_in,
            now,
        ));
    }
    Ok(t)
}

} // verus!
