//! Table-wide laws of the betting engine, stated over the same models the
//! command contracts use and proved once and for all.

use vstd::prelude::*;

use crate::error::PokerError;
use crate::instructions::action::{
    action_error, action_result, advance_round_table, betting_phase, clear_active, mid_table,
    raise_like,
};
use crate::instructions::distribute_pot::{distribute_error, settled_table};
use crate::state::{
    active_bet_sum_below, active_of, lemma_active_bet_sum_below_monotone,
    lemma_find_seat_props, lemma_least_active_in_props, ActionType, GameState, Round, SeatSeq,
    TableModel,
};

verus! {

/// Clearing acted flags touches no stack, no bet and no fold flag, so the
/// sum of active bets is unchanged.
proof fn lemma_clear_active_bet_sum(ps: SeatSeq, n: int)
    requires
        n <= ps.len(),
    ensures
        active_bet_sum_below(clear_active(ps), n) == active_bet_sum_below(ps, n),
    decreases n,
{
    if n > 0 {
        lemma_clear_active_bet_sum(ps, n - 1);
        assert(clear_active(ps)[n - 1] == (match ps[n - 1] {
            Some(q) => Some(
                if q.is_active() {
                    crate::state::PlayerModel { has_acted: false, ..q }
                } else {
                    q
                },
            ),
            None => None,
        }));
    }
}

/// After every valid action the pot equals the sum of the active players'
/// bets.
pub proof fn lemma_pot_matches_active_bets(
    t: TableModel,
    key: Seq<u8>,
    a: ActionType,
    amount: Option<u64>,
    now: i64,
)
    requires
        t.num_seats() == 9,
        action_error(t, key, a, amount, now) is None,
    ensures
        ({
            let r = action_result(t, key, a, amount, now);
            r.pot as int == r.active_bet_sum()
        }),
{
    let seat = t.find_seat(key)->0 as int;
    lemma_find_seat_props(t.players, key, 0);
    let mid = mid_table(t, seat, a, amount, now);
    assert(mid.players.len() == 9);
    lemma_active_bet_sum_below_monotone(mid.players, 0, 9);
    if mid.round_complete() {
        if mid.round != Round::River {
            lemma_clear_active_bet_sum(mid.players, 9);
            assert(advance_round_table(mid).players == clear_active(mid.players));
        }
    }
}

/// A player who has already acted this round is turned away: once the admission checks
/// reach the acted check, the command reports exactly that error.
pub proof fn lemma_second_act_rejected(
    t: TableModel,
    key: Seq<u8>,
    a: ActionType,
    amount: Option<u64>,
    now: i64,
)
    requires
        betting_phase(t.game_state),
        now - t.last_action_at <= t.action_timeout,
        t.find_seat(key) is Some,
        t.player_at(t.find_seat(key)->0 as int).can_act(t),
        t.player_at(t.find_seat(key)->0 as int).has_acted,
    ensures
        action_error(t, key, a, amount, now) == Some(PokerError::AlreadyActed),
{
}

/// An action that does not reopen betting and does not close the round
/// leaves every other seat's record — its acted flag included — untouched.
pub proof fn lemma_acted_flags_preserved(
    t: TableModel,
    key: Seq<u8>,
    a: ActionType,
    amount: Option<u64>,
    now: i64,
    i: int,
)
    requires
        t.num_seats() == 9,
        action_error(t, key, a, amount, now) is None,
        !raise_like(t, t.find_seat(key)->0 as int, a),
        !mid_table(t, t.find_seat(key)->0 as int, a, amount, now).round_complete(),
        0 <= i < 9,
        i != t.find_seat(key)->0 as int,
    ensures
        action_result(t, key, a, amount, now).players[i] == t.players[i],
{
    lemma_find_seat_props(t.players, key, 0);
    let seat = t.find_seat(key)->0 as int;
    assert(action_result(t, key, a, amount, now).players[i] == t.players.update(
        seat,
        Some(crate::instructions::action::acted_player(t, seat, a, amount)),
    )[i]);
}

/// A call never lifts the caller's bet above the current bet at call time.
pub proof fn lemma_call_capped_at_current_bet(
    t: TableModel,
    key: Seq<u8>,
    amount: Option<u64>,
    now: i64,
)
    requires
        t.num_seats() == 9,
        action_error(t, key, ActionType::Call, amount, now) is None,
    ensures
        ({
            let seat = t.find_seat(key)->0 as int;
            action_result(t, key, ActionType::Call, amount, now).players[seat]->0.bet
                <= t.current_bet()
        }),
{
    lemma_find_seat_props(t.players, key, 0);
    let seat = t.find_seat(key)->0 as int;
    let mid = mid_table(t, seat, ActionType::Call, amount, now);
    assert(mid.players[seat] == Some(
        crate::instructions::action::acted_player(t, seat, ActionType::Call, amount),
    ));
    assert(mid.players[seat]->0.bet <= t.current_bet());
    if mid.round_complete() && mid.round != Round::River {
        assert(clear_active(mid.players)[seat] == (match mid.players[seat] {
            Some(q) => Some(
                if q.is_active() {
                    crate::state::PlayerModel { has_acted: false, ..q }
                } else {
                    q
                },
            ),
            None => None,
        }));
    }
}

/// After a raise, or an all-in that outbids the current bet, every other
/// active player who is not all-in must act again: their acted flag is
/// false.  The seat registry must be consistent: each record sits at the
/// seat it names.
pub proof fn lemma_reopened_betting_clears_flags(
    t: TableModel,
    key: Seq<u8>,
    a: ActionType,
    amount: Option<u64>,
    now: i64,
    i: int,
)
    requires
        t.num_seats() == 9,
        forall|j: int|
            0 <= j < 9 && t.players[j] is Some ==> (#[trigger] t.players[j])->0.seat == j,
        action_error(t, key, a, amount, now) is None,
        raise_like(t, t.find_seat(key)->0 as int, a),
        0 <= i < 9,
        i != t.find_seat(key)->0 as int,
        active_of(action_result(t, key, a, amount, now).players, i),
        !action_result(t, key, a, amount, now).players[i]->0.is_all_in,
    ensures
        !action_result(t, key, a, amount, now).players[i]->0.has_acted,
{
    lemma_find_seat_props(t.players, key, 0);
    let seat = t.find_seat(key)->0 as int;
    let mid = mid_table(t, seat, a, amount, now);
    assert(crate::instructions::action::clear_others(t.players, seat as u8)[i] == (match t.players[i] {
        Some(q) => Some(crate::instructions::action::cleared_other(q, seat as u8)),
        None => None,
    }));
    if mid.round_complete() && mid.round != Round::River {
        assert(clear_active(mid.players)[i] == (match mid.players[i] {
            Some(q) => Some(
                if q.is_active() {
                    crate::state::PlayerModel { has_acted: false, ..q }
                } else {
                    q
                },
            ),
            None => None,
        }));
    }
}

/// The betting round closes exactly when every active player has acted or
/// is all-in and all active bets are level: the street or phase advances
/// if and only if the completion test holds of the post-action state.
pub proof fn lemma_round_closes_iff_complete(
    t: TableModel,
    key: Seq<u8>,
    a: ActionType,
    amount: Option<u64>,
    now: i64,
)
    requires
        t.num_seats() == 9,
        action_error(t, key, a, amount, now) is None,
    ensures
        ({
            let seat = t.find_seat(key)->0 as int;
            let mid = mid_table(t, seat, a, amount, now);
            let r = action_result(t, key, a, amount, now);
            mid.round_complete() <==> (r.round != mid.round || r.game_state != mid.game_state)
        }),
{
    let seat = t.find_seat(key)->0 as int;
    let mid = mid_table(t, seat, a, amount, now);
    if mid.round_complete() {
        let r = advance_round_table(mid);
        if mid.round == Round::River {
            assert(betting_phase(mid.game_state));
            assert(r.game_state != mid.game_state);
        } else {
            assert(r.round != mid.round);
        }
    }
}

/// The next-active-player computation is total on a table with any active
/// player: it returns an active seat, prefers the least active seat
/// strictly after the reference seat, and wraps to the least active seat
/// overall when no active seat lies beyond it.
pub proof fn lemma_next_active_seat_total(t: TableModel, from: int)
    requires
        t.num_seats() == 9,
        0 <= from < 256,
        exists|i: int| #[trigger] t.active_at(i),
    ensures
        ({
            let r = t.next_active_seat(from);
            &&& r is Some
            &&& t.active_at(r->0 as int)
            &&& (exists|i: int| #[trigger] t.active_at(i) && i > from) ==> r->0 > from && (
            forall|i: int| #[trigger] t.active_at(i) && i > from ==> r->0 <= i)
            &&& !(exists|i: int| #[trigger] t.active_at(i) && i > from) ==> (forall|i: int|
                #[trigger] t.active_at(i) ==> r->0 <= i)
        }),
{
    lemma_least_active_in_props(t.players, from + 1, 9);
    lemma_least_active_in_props(t.players, 0, 9);
    let r = t.next_active_seat(from);
    match crate::state::least_active_in(t.players, from + 1, 9) {
        Some(s) => {
            assert(r == Some(s));
            assert(t.active_at(s as int));
            assert forall|i: int| t.active_at(i) && i > from implies s <= i by {
                assert(0 <= i < 9);
                if i < s {
                    assert(!t.active_at(i));
                }
            }
        },
        None => {
            assert forall|i: int| t.active_at(i) implies !(i > from) by {
                assert(0 <= i < 9);
            }
            let w = choose|i: int| t.active_at(i);
            assert(0 <= w < 9);
            assert(crate::state::least_active_in(t.players, 0, 9) is Some);
            let f = crate::state::least_active_in(t.players, 0, 9)->0;
            assert(r == Some(f));
            assert forall|i: int| t.active_at(i) implies f <= i by {
                assert(0 <= i < 9);
                if i < f {
                    assert(!t.active_at(i));
                }
            }
        },
    }
}

/// The turn pointer only ever names a seat that may act.  On a table where
/// no active player is flagged all-in, any valid action leaves the current
/// player either absent — the hand reached the showdown or no active player
/// remains — or on an active seat whose record is not all-in.
pub proof fn lemma_turn_names_active_seat(
    t: TableModel,
    key: Seq<u8>,
    a: ActionType,
    amount: Option<u64>,
    now: i64,
)
    requires
        t.num_seats() == 9,
        forall|j: int| #[trigger] active_of(t.players, j) ==> !t.players[j]->0.is_all_in,
        action_error(t, key, a, amount, now) is None,
    ensures
        ({
            let r = action_result(t, key, a, amount, now);
            match r.current_player {
                Some(c) => active_of(r.players, c as int) && !r.players[c as int]->0.is_all_in,
                None => true,
            }
        }),
{
    lemma_find_seat_props(t.players, key, 0);
    let seat = t.find_seat(key)->0 as int;
    let p = t.player_at(seat);
    assert(p.can_act(t));
    let mid = mid_table(t, seat, a, amount, now);
    assert(mid.players.len() == 9);
    assert forall|j: int| #[trigger] active_of(mid.players, j) implies !mid.players[j]->0.is_all_in by {
        if j != seat {
            if raise_like(t, seat, a) {
                assert(crate::instructions::action::clear_others(t.players, seat as u8)[j]
                    == (match t.players[j] {
                    Some(q) => Some(
                        crate::instructions::action::cleared_other(q, seat as u8),
                    ),
                    None => None,
                }));
            }
            assert(active_of(t.players, j));
        }
    }
    let r = action_result(t, key, a, amount, now);
    if mid.round_complete() {
        if mid.round != Round::River {
            let cleared = clear_active(mid.players);
            assert(cleared.len() == 9);
            assert forall|j: int| #[trigger] active_of(cleared, j) implies !cleared[j]->0.is_all_in by {
                assert(clear_active(mid.players)[j] == (match mid.players[j] {
                    Some(q) => Some(
                        if q.is_active() {
                            crate::state::PlayerModel { has_acted: false, ..q }
                        } else {
                            q
                        },
                    ),
                    None => None,
                }));
                assert(active_of(mid.players, j));
            }
            lemma_least_active_in_props(cleared, mid.dealer_position as int + 1, 9);
            lemma_least_active_in_props(cleared, 0, 9);
        }
    } else {
        lemma_least_active_in_props(mid.players, seat + 1, 9);
        lemma_least_active_in_props(mid.players, 0, 9);
    }
}

/// Settlement always empties the pot, returns the phase to waiting and
/// clears the turn, whether one survivor remains or several.
pub proof fn lemma_settlement_resets(t: TableModel)
    requires
        distribute_error(t) is None,
    ensures
        settled_table(t).pot == 0,
        settled_table(t).game_state == GameState::Waiting,
        settled_table(t).current_player is None,
{
}

} // verus!
