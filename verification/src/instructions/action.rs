//! The betting engine: validates one player action, applies it, recomputes
//! the pot, and either advances the street or passes the turn.

use vstd::prelude::*;

use crate::error::PokerError;
use crate::state::{
    ActionTakenEvent, ActionType, GameState, PlayerModel, Round, RoundEndedEvent, SeatSeq, Table,
    TableModel,
};

verus! {

/// The table is in one of the four betting phases.
pub open spec fn betting_phase(g: GameState) -> bool {
    g == GameState::PreFlop || g == GameState::Flop || g == GameState::Turn || g == GameState::River
}

/// the failure the shared admission checks report before any action is considered:
/// wrong phase, stale action clock, unknown caller, out of turn, or a
/// repeated action in the same round.
pub open spec fn admission_error(t: TableModel, key: Seq<u8>, now: i64) -> Option<PokerError> {
    if !betting_phase(t.game_state) {
        Some(PokerError::InvalidGameState)
    } else if now - t.last_action_at > t.action_timeout {
        Some(PokerError::ActionTimeout)
    } else if t.find_seat(key) is None {
        Some(PokerError::PlayerNotFound)
    } else {
        let p = t.player_at(t.find_seat(key)->0 as int);
        if !p.can_act(t) {
            Some(PokerError::NotPlayersTurn)
        } else if p.has_acted {
            Some(PokerError::AlreadyActed)
        } else {
            None
        }
    }
}

/// What the player at `seat` still owes to match the current bet.
pub open spec fn to_call_of(t: TableModel, seat: int) -> u64 {
    if t.current_bet() > t.player_at(seat).bet {
        (t.current_bet() - t.player_at(seat).bet) as u64
    } else {
        0u64
    }
}

/// The failure one particular action reports, after the admission checks pass.
pub open spec fn arm_error(t: TableModel, seat: int, a: ActionType, amount: Option<u64>) -> Option<
    PokerError,
> {
    let p = t.player_at(seat);
    let to_call = to_call_of(t, seat);
    match a {
        ActionType::Fold => None,
        ActionType::Check => if to_call != 0 {
            Some(PokerError::InvalidAction)
        } else {
            None
        },
        ActionType::Call => if to_call == 0 {
            Some(PokerError::InvalidAction)
        } else {
            let call_amount: u64 = if p.stack < to_call {
                p.stack
            } else {
                to_call
            };
            if p.bet + call_amount > u64::MAX {
                Some(PokerError::MathOverflow)
            } else {
                None
            }
        },
        ActionType::Raise => match amount {
            Option::None => Some(PokerError::InvalidAction),
            Option::Some(raise) => if raise < t.min_raise {
                Some(PokerError::RaiseTooSmall)
            } else if to_call + raise > u64::MAX {
                Some(PokerError::MathOverflow)
            } else if to_call + raise > p.stack {
                Some(PokerError::InsufficientFunds)
            } else if p.bet + to_call + raise > u64::MAX {
                Some(PokerError::MathOverflow)
            } else {
                None
            },
        },
        ActionType::AllIn => if p.stack == 0 {
            Some(PokerError::InvalidAction)
        } else if p.bet + p.stack > u64::MAX {
            Some(PokerError::MathOverflow)
        } else {
            None
        },
    }
}

/// The acting player's record after the action: chips paid, flags set, the
/// action recorded.
pub open spec fn acted_player(t: TableModel, seat: int, a: ActionType, amount: Option<u64>) -> PlayerModel {
    let p = t.player_at(seat);
    let to_call = to_call_of(t, seat);
    match a {
        ActionType::Fold => PlayerModel {
            has_folded: true,
            has_acted: true,
            last_action: Some(ActionType::Fold),
            ..p
        },
        ActionType::Check => PlayerModel {
            has_acted: true,
            last_action: Some(ActionType::Check),
            ..p
        },
        ActionType::Call => {
            let call_amount: u64 = if p.stack < to_call {
                p.stack
            } else {
                to_call
            };
            let stack2 = (p.stack - call_amount) as u64;
            PlayerModel {
                stack: stack2,
                bet: (p.bet + call_amount) as u64,
                is_all_in: p.is_all_in || stack2 == 0,
                has_acted: true,
                last_action: Some(ActionType::Call),
                ..p
            }
        },
        ActionType::Raise => {
            let total = (to_call + amount->0) as u64;
            let stack2 = (p.stack - total) as u64;
            PlayerModel {
                stack: stack2,
                bet: (p.bet + total) as u64,
                is_all_in: p.is_all_in || stack2 == 0,
                has_acted: true,
                last_action: Some(ActionType::Raise),
                ..p
            }
        },
        ActionType::AllIn => PlayerModel {
            stack: 0,
            bet: (p.bet + p.stack) as u64,
            is_all_in: true,
            has_acted: true,
            last_action: Some(ActionType::AllIn),
            ..p
        },
    }
}

/// A player's record once a raise reopens the action: the acted flag is
/// cleared on every active player other than the actor.
pub open spec fn cleared_other(q: PlayerModel, actor: u8) -> PlayerModel {
    if q.is_active() && q.seat != actor {
        PlayerModel { has_acted: false, ..q }
    } else {
        q
    }
}

/// The registry with every active player's acted flag cleared, the actor
/// excepted.
pub open spec fn clear_others(ps: SeatSeq, actor: u8) -> SeatSeq {
    ps.map_values(
        |op: Option<PlayerModel>|
            match op {
                Some(q) => Some(cleared_other(q, actor)),
                None => None,
            },
    )
}

/// The registry with every active player's acted flag cleared.
pub open spec fn clear_active(ps: SeatSeq) -> SeatSeq {
    ps.map_values(
        |op: Option<PlayerModel>|
            match op {
                Some(q) => Some(
                    if q.is_active() {
                        PlayerModel { has_acted: false, ..q }
                    } else {
                        q
                    },
                ),
                None => None,
            },
    )
}

/// The action reopens betting: a raise, or an all-in whose resulting bet
/// exceeds the current bet.
pub open spec fn raise_like(t: TableModel, seat: int, a: ActionType) -> bool {
    a == ActionType::Raise || (a == ActionType::AllIn && t.player_at(seat).bet + t.player_at(
        seat,
    ).stack > t.current_bet())
}

/// The raise size recorded when betting is reopened: the supplied size for a
/// raise, the excess over the current bet for an all-in.
pub open spec fn raise_delta(t: TableModel, seat: int, a: ActionType, amount: Option<u64>) -> u64 {
    if a == ActionType::Raise {
        amount->0
    } else {
        (t.player_at(seat).bet + t.player_at(seat).stack - t.current_bet()) as u64
    }
}

/// The registry after the action: others' flags cleared when betting was
/// reopened, then the actor's record replaced.
pub open spec fn acted_players(t: TableModel, seat: int, a: ActionType, amount: Option<u64>) -> SeatSeq {
    let base = if raise_like(t, seat, a) {
        clear_others(t.players, seat as u8)
    } else {
        t.players
    };
    base.update(seat, Some(acted_player(t, seat, a, amount)))
}

/// The table after the action but before the pot recomputation.
pub open spec fn pre_pot_table(
    t: TableModel,
    seat: int,
    a: ActionType,
    amount: Option<u64>,
    now: i64,
) -> TableModel {
    TableModel {
        players: acted_players(t, seat, a, amount),
        last_raise_amount: if raise_like(t, seat, a) {
            raise_delta(t, seat, a, amount)
        } else {
            t.last_raise_amount
        },
        min_raise: if raise_like(t, seat, a) {
            raise_delta(t, seat, a, amount)
        } else {
            t.min_raise
        },
        last_action_at: now,
        ..t
    }
}

/// The table after the action with the pot recomputed as the sum of active
/// players' bets, before the round-completion decision.
pub open spec fn mid_table(
    t: TableModel,
    seat: int,
    a: ActionType,
    amount: Option<u64>,
    now: i64,
) -> TableModel {
    let t1 = pre_pot_table(t, seat, a, amount, now);
    TableModel { pot: t1.active_bet_sum() as u64, ..t1 }
}

/// The validation failure an action command reports, if any, in the order
/// the checks run.
pub open spec fn action_error(
    t: TableModel,
    key: Seq<u8>,
    a: ActionType,
    amount: Option<u64>,
    now: i64,
) -> Option<PokerError> {
    match admission_error(t, key, now) {
        Some(e) => Some(e),
        None => {
            let seat = t.find_seat(key)->0 as int;
            match arm_error(t, seat, a, amount) {
                Some(e) => Some(e),
                None => {
                    if pre_pot_table(t, seat, a, amount, now).active_bet_sum() > u64::MAX {
                        Some(PokerError::MathOverflow)
                    } else {
                        None
                    }
                },
            }
        },
    }
}

/// The street advance: the next street is dealt in, or the table enters the
/// showdown after the river.  On every advance except into the showdown the
/// active players' acted flags are cleared and the turn returns to the first
/// active seat after the dealer; entering the showdown there is no turn, so
/// the pointer is cleared.
pub open spec fn advance_round_table(t: TableModel) -> TableModel {
    if t.round == Round::River {
        TableModel { game_state: GameState::Showdown, current_player: None, ..t }
    } else {
        let r2 = match t.round {
            Round::PreFlop => Round::Flop,
            Round::Flop => Round::Turn,
            Round::Turn => Round::River,
            Round::River => Round::River,
        };
        let g2 = match t.round {
            Round::PreFlop => GameState::Flop,
            Round::Flop => GameState::Turn,
            Round::Turn => GameState::River,
            Round::River => GameState::Showdown,
        };
        let t2 = TableModel { round: r2, game_state: g2, players: clear_active(t.players), ..t };
        TableModel { current_player: t2.next_active_seat(t2.dealer_position as int), ..t2 }
    }
}

/// The amount the action notification carries: nothing for fold and check,
/// the amount owed for a call, the supplied size for a raise, the pre-action
/// stack for an all-in.
pub open spec fn event_amount_of(t: TableModel, seat: int, a: ActionType, amount: Option<u64>) -> u64 {
    match a {
        ActionType::Fold => 0u64,
        ActionType::Check => 0u64,
        ActionType::Call => to_call_of(t, seat),
        ActionType::Raise => if amount is Some {
            amount->0
        } else {
            0u64
        },
        ActionType::AllIn => t.player_at(seat).stack,
    }
}

/// The table a successful action command leaves behind: the mid-action state
/// with either the street advanced (when the round closed) or the turn
/// passed to the next active seat.
pub open spec fn action_result(
    t: TableModel,
    key: Seq<u8>,
    a: ActionType,
    amount: Option<u64>,
    now: i64,
) -> TableModel {
    let seat = t.find_seat(key)->0 as int;
    let mid = mid_table(t, seat, a, amount, now);
    if mid.round_complete() {
        advance_round_table(mid)
    } else {
        TableModel { current_player: mid.next_active_seat(seat), ..mid }
    }
}


/// Clears the acted flag of every active player other than `actor`.
fn clear_other_flags(table: &mut Table, actor: u8)
    ensures
        final(table)@ == (TableModel { players: clear_others(old(table)@.players, actor), ..old(
            table,
        )@ }),
        *final(table) == (Table { players: final(table).players, ..*old(table) }),
{
    let mut j: usize = 0;
    while j < 9
        invariant
            j <= 9,
            table@.players.len() == 9,
            old(table)@.players.len() == 9,
            forall|k: int|
                0 <= k < j ==> table@.players[k] == clear_others(old(table)@.players, actor)[k],
            forall|k: int| j <= k < 9 ==> table@.players[k] == old(table)@.players[k],
            (TableModel { players: old(table)@.players, ..table@ }) =~= old(table)@,
            *table == (Table { players: table.players, ..*old(table) }),
        decreases 9 - j,
    {
        let ghost pv = table@.players;
        let slot = table.players[j];
        match slot {
            Some(q) => {
                proof {
                    assert(pv[j as int] == Some(q@));
                }
                if q.is_active() && q.seat != actor {
                    let mut q2 = q;
                    q2.has_acted = false;
                    table.players[j] = Some(q2);
                    proof {
                        assert(q2@ == cleared_other(q@, actor));
                        assert(table@.players =~= pv.update(j as int, Some(q2@)));
                    }
                }
            },
            None => {},
        }
        proof {
            assert(clear_others(old(table)@.players, actor)[j as int] == (match old(
                table,
            )@.players[j as int] {
                Some(q) => Some(cleared_other(q, actor)),
                None => None,
            }));
            assert forall|k: int|
                0 <= k < j + 1 implies table@.players[k] == clear_others(
                old(table)@.players,
                actor,
            )[k] by {
                if k < j as int {
                    assert(pv[k] == clear_others(old(table)@.players, actor)[k]);
                }
            }
            assert forall|k: int| j + 1 <= k < 9 implies table@.players[k] == old(
                table,
            )@.players[k] by {
                assert(pv[k] == old(table)@.players[k]);
            }
            assert((TableModel { players: old(table)@.players, ..table@ }) =~= old(table)@);
            assert(*table =~= (Table { players: table.players, ..*old(table) }));
        }
        j = j + 1;
    }
    proof {
        assert(table@.players =~= clear_others(old(table)@.players, actor));
        assert(table@ =~= (TableModel {
            players: clear_others(old(table)@.players, actor),
            ..old(table)@
        }));
    }
}

/// Clears the acted flag of every active player.
fn clear_active_flags(table: &mut Table)
    ensures
        final(table)@ == (TableModel { players: clear_active(old(table)@.players), ..old(
            table,
        )@ }),
        *final(table) == (Table { players: final(table).players, ..*old(table) }),
{
    let mut j: usize = 0;
    while j < 9
        invariant
            j <= 9,
            table@.players.len() == 9,
            old(table)@.players.len() == 9,
            forall|k: int|
                0 <= k < j ==> table@.players[k] == clear_active(old(table)@.players)[k],
            forall|k: int| j <= k < 9 ==> table@.players[k] == old(table)@.players[k],
            (TableModel { players: old(table)@.players, ..table@ }) =~= old(table)@,
            *table == (Table { players: table.players, ..*old(table) }),
        decreases 9 - j,
    {
        let ghost pv = table@.players;
        let slot = table.players[j];
        match slot {
            Some(q) => {
                proof {
                    assert(pv[j as int] == Some(q@));
                }
                if q.is_active() {
                    let mut q2 = q;
                    q2.has_acted = false;
                    table.players[j] = Some(q2);
                    proof {
                        assert(q2@ == (PlayerModel { has_acted: false, ..q@ }));
                        assert(table@.players =~= pv.update(j as int, Some(q2@)));
                    }
                }
            },
            None => {},
        }
        proof {
            assert(clear_active(old(table)@.players)[j as int] == (match old(
                table,
            )@.players[j as int] {
                Some(q) => Some(
                    if q.is_active() {
                        PlayerModel { has_acted: false, ..q }
                    } else {
                        q
                    },
                ),
                None => None,
            }));
            assert forall|k: int|
                0 <= k < j + 1 implies table@.players[k] == clear_active(
                old(table)@.players,
            )[k] by {
                if k < j as int {
                    assert(pv[k] == clear_active(old(table)@.players)[k]);
                }
            }
            assert forall|k: int| j + 1 <= k < 9 implies table@.players[k] == old(
                table,
            )@.players[k] by {
                assert(pv[k] == old(table)@.players[k]);
            }
            assert((TableModel { players: old(table)@.players, ..table@ }) =~= old(table)@);
            assert(*table =~= (Table { players: table.players, ..*old(table) }));
        }
        j = j + 1;
    }
    proof {
        assert(table@.players =~= clear_active(old(table)@.players));
        assert(table@ =~= (TableModel {
            players: clear_active(old(table)@.players),
            ..old(table)@
        }));
    }
}

/// Advances the betting street once a round closes.
pub fn advance_round(table: &mut Table) -> (rev: Option<RoundEndedEvent>)
    ensures
        final(table)@ == advance_round_table(old(table)@),
        final(table).table_id == old(table).table_id,
        final(table).community_cards == old(table).community_cards,
        rev is Some <==> old(table).round != Round::River,
        rev is Some ==> rev->0 == (RoundEndedEvent {
            table_id: old(table).table_id,
            round: final(table).round,
            community_cards: old(table).community_cards,
        }),
{
    match table.round {
        Round::PreFlop => {
            table.round = Round::Flop;
            table.game_state = GameState::Flop;
        },
        Round::Flop => {
            table.round = Round::Turn;
            table.game_state = GameState::Turn;
        },
        Round::Turn => {
            table.round = Round::River;
            table.game_state = GameState::River;
        },
        Round::River => {
            table.game_state = GameState::Showdown;
            table.current_player = None;
            proof {
                assert(table@ =~= advance_round_table(old(table)@));
            }
            return None;
        },
    }
    clear_active_flags(table);
    let next = table.get_next_active_player(table.dealer_position);
    table.current_player = next;
    proof {
        assert(table@ =~= advance_round_table(old(table)@));
    }
    Some(
        RoundEndedEvent {
            table_id: table.table_id,
            round: table.round,
            community_cards: table.community_cards,
        },
    )
}

/// Applies one betting action for the caller identified by `player_key`,
/// stamped with `now`.  On success the returned pair carries the
/// action-taken notification and, when a street closed short of the
/// showdown, the round-ended notification.
#[verifier::rlimit(100)]
pub fn handler(
    table: &mut Table,
    player_key: [u8; 32],
    action_type: ActionType,
    amount: Option<u64>,
    now: i64,
) -> (r: Result<(ActionTakenEvent, Option<RoundEndedEvent>), PokerError>)
    requires
        i64::MIN as int <= now as int - old(table).last_action_at as int <= i64::MAX as int,
    ensures
        match r {
            Ok(evs) => {
                &&& action_error(old(table)@, player_key@, action_type, amount, now) is None
                &&& final(table)@ == action_result(
                    old(table)@,
                    player_key@,
                    action_type,
                    amount,
                    now,
                )
                &&& evs.0 == (ActionTakenEvent {
                    table_id: old(table).table_id,
                    player: player_key,
                    seat: old(table)@.find_seat(player_key@)->0,
                    action_type: action_type,
                    amount: event_amount_of(
                        old(table)@,
                        old(table)@.find_seat(player_key@)->0 as int,
                        action_type,
                        amount,
                    ),
                    new_pot: final(table).pot,
                    round: old(table).round,
                })
                &&& (evs.1 is Some <==> mid_table(
                    old(table)@,
                    old(table)@.find_seat(player_key@)->0 as int,
                    action_type,
                    amount,
                    now,
                ).round_complete() && old(table).round != Round::River)
                &&& (evs.1 is Some ==> evs.1->0 == (RoundEndedEvent {
                    table_id: old(table).table_id,
                    round: final(table).round,
                    community_cards: old(table).community_cards,
                }))
            },
            Err(e) => {
                &&& action_error(old(table)@, player_key@, action_type, amount, now) == Some(e)
                &&& *final(table) == *old(table)
            },
        },
{
    let saved = *table;
    let g = table.game_state;
    if !(g == GameState::PreFlop || g == GameState::Flop || g == GameState::Turn || g
        == GameState::River) {
        return Err(PokerError::InvalidGameState);
    }
    if now - table.last_action_at > table.action_timeout {
        return Err(PokerError::ActionTimeout);
    }
    let seat = match table.find_player_seat(&player_key) {
        Some(s) => s,
        None => {
            return Err(PokerError::PlayerNotFound);
        },
    };
    let p = match table.get_player(seat) {
        Some(pp) => *pp,
        None => {
            return Err(PokerError::PlayerNotFound);
        },
    };
    if !p.can_act(table) {
        return Err(PokerError::NotPlayersTurn);
    }
    if p.has_acted {
        return Err(PokerError::AlreadyActed);
    }
    let ghost t0 = old(table)@;
    let ghost seat_i = seat as int;
    let current_bet = table.get_current_bet();
    let to_call = if current_bet > p.bet {
        current_bet - p.bet
    } else {
        0
    };
    let seat_us = seat as usize;
    let event_amt: u64;
    match action_type {
        ActionType::Fold => {
            let mut np = p;
            np.has_folded = true;
            np.has_acted = true;
            np.last_action = Some(ActionType::Fold);
            table.players[seat_us] = Some(np);
            event_amt = 0;
        },
        ActionType::Check => {
            if to_call != 0 {
                return Err(PokerError::InvalidAction);
            }
            let mut np = p;
            np.has_acted = true;
            np.last_action = Some(ActionType::Check);
            table.players[seat_us] = Some(np);
            event_amt = 0;
        },
        ActionType::Call => {
            if to_call == 0 {
                return Err(PokerError::InvalidAction);
            }
            let call_amount = if p.stack < to_call {
                p.stack
            } else {
                to_call
            };
            let bet2 = match p.bet.checked_add(call_amount) {
                Some(b) => b,
                None => {
                    return Err(PokerError::MathOverflow);
                },
            };
            let mut np = p;
            np.stack = p.stack - call_amount;
            np.bet = bet2;
            if np.stack == 0 {
                np.is_all_in = true;
            }
            np.has_acted = true;
            np.last_action = Some(ActionType::Call);
            table.players[seat_us] = Some(np);
            event_amt = to_call;
        },
        ActionType::Raise => {
            let raise = match amount {
                Some(x) => x,
                None => {
                    return Err(PokerError::InvalidAction);
                },
            };
            if raise < table.min_raise {
                return Err(PokerError::RaiseTooSmall);
            }
            let total = match to_call.checked_add(raise) {
                Some(v) => v,
                None => {
                    return Err(PokerError::MathOverflow);
                },
            };
            if total > p.stack {
                return Err(PokerError::InsufficientFunds);
            }
            let bet2 = match p.bet.checked_add(total) {
                Some(b) => b,
                None => {
                    return Err(PokerError::MathOverflow);
                },
            };
            let mut np = p;
            np.stack = p.stack - total;
            np.bet = bet2;
            if np.stack == 0 {
                np.is_all_in = true;
            }
            np.has_acted = true;
            np.last_action = Some(ActionType::Raise);
            clear_other_flags(table, seat);
            table.players[seat_us] = Some(np);
            table.last_raise_amount = raise;
            table.min_raise = raise;
            event_amt = raise;
        },
        ActionType::AllIn => {
            if p.stack == 0 {
                return Err(PokerError::InvalidAction);
            }
            let bet2 = match p.bet.checked_add(p.stack) {
                Some(b) => b,
                None => {
                    return Err(PokerError::MathOverflow);
                },
            };
            let mut np = p;
            np.bet = bet2;
            np.stack = 0;
            np.is_all_in = true;
            np.has_acted = true;
            np.last_action = Some(ActionType::AllIn);
            if bet2 > current_bet {
                table.last_raise_amount = bet2 - current_bet;
                table.min_raise = bet2 - current_bet;
                clear_other_flags(table, seat);
            }
            table.players[seat_us] = Some(np);
            event_amt = p.stack;
        },
    }
    proof {
        assert(table@.players =~= acted_players(t0, seat_i, action_type, amount));
        assert(table@ =~= (TableModel {
            pot: t0.pot,
            last_action_at: t0.last_action_at,
            ..pre_pot_table(t0, seat_i, action_type, amount, now)
        }));
    }
    let pot = match table.active_bet_total() {
        Some(v) => v,
        None => {
            *table = saved;
            return Err(PokerError::MathOverflow);
        },
    };
    table.pot = pot;
    table.last_action_at = now;
    proof {
        assert(table@ =~= mid_table(t0, seat_i, action_type, amount, now));
    }
    let ev = ActionTakenEvent {
        table_id: table.table_id,
        player: player_key,
        seat,
        action_type,
        amount: event_amt,
        new_pot: pot,
        round: table.round,
    };
    if table.is_round_complete() {
        let rev = advance_round(table);
        proof {
            assert(table@ == action_result(t0, player_key@, action_type, amount, now));
        }
        Ok((ev, rev))
    } else {
        let next = table.get_next_active_player(seat);
        table.current_player = next;
        proof {
            assert(table@ =~= action_result(t0, player_key@, action_type, amount, now));
        }
        Ok((ev, None))
    }
}

} // verus!
