//! The showdown: reveals every active player's hole cards and closes the
//! hand.

use vstd::prelude::*;

use crate::error::PokerError;
use crate::state::{
    active_seats_in, CardRevealedEvent, GameState, Table, TableModel,
};

verus! {

/// The validation failure the showdown reports, if any: the table is not in
/// the showdown phase.
pub open spec fn showdown_error(t: TableModel) -> Option<PokerError> {
    if t.game_state != GameState::Showdown {
        Some(PokerError::InvalidGameState)
    } else {
        None
    }
}

/// Reveals every active player's hole cards, one notification per active
/// seat in ascending order, and moves the table to the finished phase.
pub fn handler(table: &mut Table) -> (r: Result<Vec<CardRevealedEvent>, PokerError>)
    requires
        old(table)@.game_state == GameState::Showdown ==> forall|i: int|
            old(table)@.active_at(i) ==> (#[trigger] old(table)@.player_at(i).hole_cards)[0]
                is Some && old(table)@.player_at(i).hole_cards[1] is Some,
    ensures
        match r {
            Ok(evs) => {
                &&& showdown_error(old(table)@) is None
                &&& *final(table) == (Table { game_state: GameState::Finished, ..*old(table) })
                &&& evs@.len() == active_seats_in(old(table)@.players, 0, 9).len()
                &&& forall|k: int|
                    0 <= k < evs@.len() ==> {
                        let s = active_seats_in(old(table)@.players, 0, 9)[k];
                        &&& (#[trigger] evs@[k]).table_id == old(table).table_id
                        &&& evs@[k].seat == s
                        &&& evs@[k].player@ == old(table)@.player_at(s as int).pubkey
                        &&& evs@[k].cards@ == seq![
                            old(table)@.player_at(s as int).hole_cards[0]->0,
                            old(table)@.player_at(s as int).hole_cards[1]->0,
                        ]
                    }
            },
            Err(e) => {
                &&& showdown_error(old(table)@) == Some(e)
                &&& *final(table) == *old(table)
            },
        },
{
    if table.game_state != GameState::Showdown {
        return Err(PokerError::InvalidGameState);
    }
    let actives = table.get_active_players();
    let mut evs: Vec<CardRevealedEvent> = Vec::new();
    let mut k: usize = 0;
    while k < actives.len()
        invariant
            k <= actives@.len(),
            evs@.len() == k,
            table@ == old(table)@,
            *table == *old(table),
            crate::state::seats_of(actives@) == active_seats_in(old(table)@.players, 0, 9),
            forall|m: int|
                0 <= m < actives@.len() ==> old(table)@.active_at(
                    #[trigger] actives@[m].0 as int,
                ) && actives@[m].1@ == old(table)@.player_at(actives@[m].0 as int),
            forall|i: int|
                old(table)@.active_at(i) ==> (#[trigger] old(table)@.player_at(i).hole_cards)[0]
                    is Some && old(table)@.player_at(i).hole_cards[1] is Some,
            forall|m: int|
                0 <= m < k ==> {
                    let s = active_seats_in(old(table)@.players, 0, 9)[m];
                    &&& (#[trigger] evs@[m]).table_id == old(table).table_id
                    &&& evs@[m].seat == s
                    &&& evs@[m].player@ == old(table)@.player_at(s as int).pubkey
                    &&& evs@[m].cards@ == seq![
                        old(table)@.player_at(s as int).hole_cards[0]->0,
                        old(table)@.player_at(s as int).hole_cards[1]->0,
                    ]
                },
        decreases actives@.len() - k,
    {
        let seat = actives[k].0;
        let p = actives[k].1;
        proof {
            assert(crate::state::seats_of(actives@)[k as int] == actives@[k as int].0);
        }
        proof {
            assert(old(table)@.active_at(seat as int));
            assert(p@ == old(table)@.player_at(seat as int));
            assert(old(table)@.player_at(seat as int).hole_cards[0] is Some);
            assert(old(table)@.player_at(seat as int).hole_cards[1] is Some);
        }
        let c0 = match p.hole_cards[0] {
            Some(c) => c,
            None => {
                proof {
                    assert(false);
                }
                return Err(PokerError::InvalidGameState);
            },
        };
        let c1 = match p.hole_cards[1] {
            Some(c) => c,
            None => {
                proof {
                    assert(false);
                }
                return Err(PokerError::InvalidGameState);
            },
        };
        let ev = CardRevealedEvent {
            table_id: table.table_id,
            player: p.pubkey,
            seat,
            cards: [c0, c1],
        };
        evs.push(ev);
        proof {
            assert(ev.cards@ =~= seq![c0, c1]);
        }
        k = k + 1;
    }
    table.game_state = GameState::Finished;
    proof {
        assert(*table =~= (Table { game_state: GameState::Finished, ..*old(table) }));
    }
    Ok(evs)
}

} // verus!
