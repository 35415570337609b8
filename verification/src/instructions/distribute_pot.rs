//! Settlement: pays the pot to the first active seat and resets the table
//! for the next hand.

use vstd::prelude::*;

use crate::error::PokerError;
use crate::state::{
    lemma_least_active_in_props, GameState, PlayerModel, PotDistributedEvent, SeatSeq, Table,
    TableModel,
};

verus! {

/// The all-zero 32-byte commitment a reset seat carries.
pub open spec fn zero_commitment() -> Seq<u8> {
    Seq::new(32, |i: int| 0u8)
}

/// A seat record reset for the next hand: bet and flags cleared, cards and
/// commitment wiped; identity, seat, stack and last action stay.
pub open spec fn reset_player(q: PlayerModel) -> PlayerModel {
    PlayerModel {
        bet: 0,
        has_folded: false,
        has_acted: false,
        is_all_in: false,
        hole_cards: seq![None, None],
        hole_cards_committed: zero_commitment(),
        ..q
    }
}

/// Every occupied seat reset for the next hand.
pub open spec fn reset_players(ps: SeatSeq) -> SeatSeq {
    ps.map_values(
        |op: Option<PlayerModel>|
            match op {
                Some(q) => Some(reset_player(q)),
                None => None,
            },
    )
}

/// The validation failure settlement reports, if any: the showdown has not
/// finished, or crediting the winner would overflow their stack.
pub open spec fn distribute_error(t: TableModel) -> Option<PokerError> {
    if t.game_state != GameState::Finished {
        Some(PokerError::InvalidGameState)
    } else if t.player_at(t.first_active_seat()->0 as int).stack + t.pot > u64::MAX {
        Some(PokerError::MathOverflow)
    } else {
        None
    }
}

/// The table settlement leaves behind: the whole pot credited to the first
/// active seat, the pot emptied, the phase back to waiting, community cards
/// and turn cleared, and every seat reset for the next hand.
pub open spec fn settled_table(t: TableModel) -> TableModel {
    let w = t.first_active_seat()->0 as int;
    let winner = t.player_at(w);
    let ps1 = t.players.update(
        w,
        Some(PlayerModel { stack: (winner.stack + t.pot) as u64, ..winner }),
    );
    TableModel {
        players: reset_players(ps1),
        pot: 0,
        game_state: GameState::Waiting,
        community_cards: seq![None, None, None, None, None],
        current_player: None,
        ..t
    }
}

/// Pays the pot to the first active seat — the placeholder winner policy —
/// and resets the table for the next hand.
pub fn handler(table: &mut Table) -> (r: Result<PotDistributedEvent, PokerError>)
    requires
        old(table)@.game_state == GameState::Finished ==> old(
            table,
        )@.first_active_seat() is Some,
    ensures
        match r {
            Ok(ev) => {
                &&& distribute_error(old(table)@) is None
                &&& final(table)@ == settled_table(old(table)@)
                &&& ev.table_id == old(table).table_id
                &&& ev.winners@.len() == 1
                &&& ev.winners@[0]@ == old(table)@.player_at(
                    old(table)@.first_active_seat()->0 as int,
                ).pubkey
                &&& ev.amounts@ == seq![old(table).pot]
            },
            Err(e) => {
                &&& distribute_error(old(table)@) == Some(e)
                &&& *final(table) == *old(table)
            },
        },
{
    if table.game_state != GameState::Finished {
        return Err(PokerError::InvalidGameState);
    }
    proof {
        lemma_least_active_in_props(table@.players, 0, 9);
    }
    let w = match table.get_first_active_seat() {
        Some(s) => s,
        None => {
            proof {
                assert(false);
            }
            return Err(PokerError::InvalidGameState);
        },
    };
    let ghost t0 = old(table)@;
    let ghost pv = table@.players;
    let p = match table.players[w as usize] {
        Some(p) => p,
        None => {
            proof {
                assert(false);
            }
            return Err(PokerError::InvalidGameState);
        },
    };
    proof {
        assert(pv[w as int] == Some(p@));
    }
    let new_stack = match p.stack.checked_add(table.pot) {
        Some(v) => v,
        None => {
            return Err(PokerError::MathOverflow);
        },
    };
    let pot0 = table.pot;
    let mut p2 = p;
    p2.stack = new_stack;
    table.players[w as usize] = Some(p2);
    proof {
        assert(p2@ =~= (PlayerModel { stack: (p@.stack + t0.pot) as u64, ..p@ }));
        assert(table@.players =~= pv.update(w as int, Some(p2@)));
    }
    let ev = PotDistributedEvent {
        table_id: table.table_id,
        winners: vec![p.pubkey],
        amounts: vec![pot0],
    };
    reset_players_exec(table);
    table.pot = 0;
    table.game_state = GameState::Waiting;
    table.community_cards = [None, None, None, None, None];
    table.current_player = None;
    proof {
        assert(table@.community_cards =~= seq![None, None, None, None, None]);
        assert(table@ =~= settled_table(t0));
        assert(ev.amounts@ =~= seq![old(table).pot]);
    }
    Ok(ev)
}

/// Resets every occupied seat for the next hand.
fn reset_players_exec(table: &mut Table)
    ensures
        final(table)@ == (TableModel { players: reset_players(old(table)@.players), ..old(
            table,
        )@ }),
        *final(table) == (Table { players: final(table).players, ..*old(table) }),
{
    let mut j: usize = 0;
    while j < 9
        invariant
            j <= 9,
            table@.players.len() == 9,
            old(table)@.players.len() == 9,
            forall|k: int|
                0 <= k < j ==> table@.players[k] == reset_players(old(table)@.players)[k],
            forall|k: int| j <= k < 9 ==> table@.players[k] == old(table)@.players[k],
            (TableModel { players: old(table)@.players, ..table@ }) =~= old(table)@,
            *table == (Table { players: table.players, ..*old(table) }),
        decreases 9 - j,
    {
        let ghost pv = table@.players;
        let slot = table.players[j];
        match slot {
            Some(q) => {
                proof {
                    assert(pv[j as int] == Some(q@));
                }
                let mut q2 = q;
                q2.bet = 0;
                q2.has_folded = false;
                q2.has_acted = false;
                q2.is_all_in = false;
                q2.hole_cards = [None, None];
                q2.hole_cards_committed = [0u8; 32];
                table.players[j] = Some(q2);
                proof {
                    assert(q2@.hole_cards =~= seq![None, None]);
                    assert(q2@.hole_cards_committed =~= zero_commitment());
                    assert(q2@ =~= reset_player(q@));
                    assert(table@.players =~= pv.update(j as int, Some(q2@)));
                }
            },
            None => {},
        }
        proof {
            assert(reset_players(old(table)@.players)[j as int] == (match old(
                table,
            )@.players[j as int] {
                Some(q) => Some(reset_player(q)),
                None => None,
            }));
            assert forall|k: int|
                0 <= k < j + 1 implies table@.players[k] == reset_players(
                old(table)@.players,
            )[k] by {
                if k < j as int {
                    assert(pv[k] == reset_players(old(table)@.players)[k]);
                }
            }
            assert forall|k: int| j + 1 <= k < 9 implies table@.players[k] == old(
                table,
            )@.players[k] by {
                assert(pv[k] == old(table)@.players[k]);
            }
            assert((TableModel { players: old(table)@.players, ..table@ }) =~= old(table)@);
            assert(*table =~= (Table { players: table.players, ..*old(table) }));
        }
        j = j + 1;
    }
    proof {
        assert(table@.players =~= reset_players(old(table)@.players));
        assert(table@ =~= (TableModel {
            players: reset_players(old(table)@.players),
            ..old(table)@
        }));
    }
}

} // verus!
