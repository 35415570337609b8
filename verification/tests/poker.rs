use multiplayer_poker::error::PokerError;
use multiplayer_poker::instructions::{
    action, create_table, distribute_pot, join_table, leave_table, showdown, start_game,
};
use multiplayer_poker::state::{ActionType, Card, GameState, Round, Table};

const KEY1: [u8; 32] = [1u8; 32];
const KEY2: [u8; 32] = [2u8; 32];
const KEY3: [u8; 32] = [3u8; 32];

fn two_player_table() -> Table {
    let mut table = create_table::handler(KEY1, 7, 5, 10, 9, 1000, 100).unwrap();
    join_table::handler(&mut table, KEY1, 0).unwrap();
    join_table::handler(&mut table, KEY2, 1).unwrap();
    table
}

fn started_table() -> Table {
    let mut table = two_player_table();
    start_game::handler(&mut table, 200, 42).unwrap();
    table
}

#[test]
fn card_index_round_trip_all_52() {
    for v in 0..52u8 {
        let c = Card::from_u8(v);
        assert_eq!(c.to_u8(), v);
        assert_eq!(Card::from_u8(c.to_u8()), c);
    }
}

#[test]
fn create_table_initial_state() {
    let t = create_table::handler(KEY1, 7, 5, 10, 9, 1000, 100).unwrap();
    assert_eq!(t.game_state, GameState::Waiting);
    assert_eq!(t.pot, 0);
    assert_eq!(t.min_raise, 10);
    assert_eq!(t.player_count, 0);
    assert_eq!(t.action_timeout, 60);
    assert!(t.players.iter().all(|p| p.is_none()));
}

#[test]
fn create_table_rejects_bad_config() {
    assert_eq!(
        create_table::handler(KEY1, 7, 5, 10, 1, 1000, 100).unwrap_err(),
        PokerError::InvalidSeat
    );
    assert_eq!(
        create_table::handler(KEY1, 7, 10, 5, 9, 1000, 100).unwrap_err(),
        PokerError::InvalidAction
    );
    assert_eq!(
        create_table::handler(KEY1, 7, 5, 10, 9, 99, 100).unwrap_err(),
        PokerError::InvalidAction
    );
}

#[test]
fn join_seats_player_with_buy_in() {
    let mut table = create_table::handler(KEY1, 7, 5, 10, 9, 1000, 100).unwrap();
    let ev = join_table::handler(&mut table, KEY1, 3).unwrap();
    assert_eq!(ev.seat, 3);
    assert_eq!(ev.stack, 1000);
    let p = table.players[3].unwrap();
    assert_eq!(p.stack, 1000);
    assert_eq!(p.bet, 0);
    assert_eq!(table.player_count, 1);
}

#[test]
fn join_errors() {
    let mut table = create_table::handler(KEY1, 7, 5, 10, 2, 1000, 100).unwrap();
    assert_eq!(
        join_table::handler(&mut table, KEY1, 9).unwrap_err(),
        PokerError::InvalidSeat
    );
    // seat 5 is in the registry's range but beyond this table's cap of 2
    assert_eq!(
        join_table::handler(&mut table, KEY1, 5).unwrap_err(),
        PokerError::InvalidSeat
    );
    join_table::handler(&mut table, KEY1, 0).unwrap();
    assert_eq!(
        join_table::handler(&mut table, KEY2, 0).unwrap_err(),
        PokerError::SeatOccupied
    );
    assert_eq!(
        join_table::handler(&mut table, KEY1, 1).unwrap_err(),
        PokerError::InvalidAction
    );
    join_table::handler(&mut table, KEY2, 1).unwrap();
    assert_eq!(
        join_table::handler(&mut table, KEY3, 2).unwrap_err(),
        PokerError::TableFull
    );
    start_game::handler(&mut table, 200, 42).unwrap();
    assert_eq!(
        join_table::handler(&mut table, KEY3, 2).unwrap_err(),
        PokerError::GameInProgress
    );
}

#[test]
fn leave_clears_seat_and_errors() {
    let mut table = two_player_table();
    assert_eq!(
        leave_table::handler(&mut table, KEY3).unwrap_err(),
        PokerError::PlayerNotFound
    );
    leave_table::handler(&mut table, KEY1).unwrap();
    assert!(table.players[0].is_none());
    assert_eq!(table.player_count, 1);
    join_table::handler(&mut table, KEY1, 0).unwrap();
    start_game::handler(&mut table, 200, 42).unwrap();
    assert_eq!(
        leave_table::handler(&mut table, KEY2).unwrap_err(),
        PokerError::CannotLeaveDuringGame
    );
}

#[test]
fn start_game_blinds_positions_and_deal() {
    let mut table = two_player_table();
    let ev = start_game::handler(&mut table, 200, 42).unwrap();
    assert_eq!(ev.dealer_position, 0);
    assert_eq!(ev.small_blind_position, 1);
    assert_eq!(ev.big_blind_position, 0);
    assert_eq!(table.game_state, GameState::PreFlop);
    assert_eq!(table.round, Round::PreFlop);
    let p0 = table.players[0].unwrap();
    let p1 = table.players[1].unwrap();
    assert_eq!(p1.bet, 5);
    assert_eq!(p1.stack, 995);
    assert_eq!(p0.bet, 10);
    assert_eq!(p0.stack, 990);
    assert_eq!(table.pot, 15);
    assert_eq!(table.current_player, Some(1));
    assert!(p0.hole_cards[0].is_some() && p0.hole_cards[1].is_some());
    assert!(p1.hole_cards[0].is_some() && p1.hole_cards[1].is_some());
    // the keccak commitment binds the dealt cards: two different hands, two
    // different digests, neither of them blank
    assert_ne!(p0.hole_cards_committed, [0u8; 32]);
    assert_ne!(p1.hole_cards_committed, [0u8; 32]);
    assert_ne!(p0.hole_cards_committed, p1.hole_cards_committed);
    // the shuffle is deterministic in its seed
    let mut again = two_player_table();
    start_game::handler(&mut again, 200, 42).unwrap();
    assert_eq!(again.players[0].unwrap().hole_cards, p0.hole_cards);
    let mut other = two_player_table();
    start_game::handler(&mut other, 201, 42).unwrap();
    assert_eq!(other.players[0].unwrap().hole_cards[0].is_some(), true);
}

#[test]
fn start_game_needs_two_players() {
    let mut table = create_table::handler(KEY1, 7, 5, 10, 9, 1000, 100).unwrap();
    join_table::handler(&mut table, KEY1, 0).unwrap();
    assert_eq!(
        start_game::handler(&mut table, 200, 42).unwrap_err(),
        PokerError::NotEnoughPlayers
    );
}

#[test]
fn call_and_check_close_the_preflop_round() {
    let mut table = started_table();
    // seat 1 owes 5 and calls it
    let (ev, rev) = action::handler(&mut table, KEY2, ActionType::Call, None, 210).unwrap();
    assert_eq!(ev.amount, 5);
    assert_eq!(ev.new_pot, 20);
    assert!(rev.is_none());
    assert_eq!(table.pot, 20);
    assert_eq!(table.current_player, Some(0));
    let bets: u64 = table
        .players
        .iter()
        .flatten()
        .filter(|p| !p.has_folded && p.stack > 0)
        .map(|p| p.bet)
        .sum();
    assert_eq!(table.pot, bets);
    // the big blind checks; everyone has acted on level bets, so the street
    // advances to the flop and the acted flags clear
    let (ev2, rev2) = action::handler(&mut table, KEY1, ActionType::Check, None, 220).unwrap();
    assert_eq!(ev2.amount, 0);
    let rev2 = rev2.unwrap();
    assert_eq!(rev2.round, Round::Flop);
    assert_eq!(table.game_state, GameState::Flop);
    assert_eq!(table.round, Round::Flop);
    assert!(!table.players[0].unwrap().has_acted);
    assert!(!table.players[1].unwrap().has_acted);
    assert_eq!(table.current_player, Some(1));
}

#[test]
fn action_gate_errors() {
    let mut waiting = two_player_table();
    assert_eq!(
        action::handler(&mut waiting, KEY1, ActionType::Check, None, 200).unwrap_err(),
        PokerError::InvalidGameState
    );
    let mut table = started_table();
    assert_eq!(
        action::handler(&mut table, KEY2, ActionType::Call, None, 300).unwrap_err(),
        PokerError::ActionTimeout
    );
    assert_eq!(
        action::handler(&mut table, KEY3, ActionType::Call, None, 210).unwrap_err(),
        PokerError::PlayerNotFound
    );
    assert_eq!(
        action::handler(&mut table, KEY1, ActionType::Check, None, 210).unwrap_err(),
        PokerError::NotPlayersTurn
    );
    let mut p1 = table.players[1].unwrap();
    p1.has_acted = true;
    table.players[1] = Some(p1);
    assert_eq!(
        action::handler(&mut table, KEY2, ActionType::Call, None, 210).unwrap_err(),
        PokerError::AlreadyActed
    );
}

#[test]
fn check_requires_nothing_owed() {
    let mut table = started_table();
    assert_eq!(
        action::handler(&mut table, KEY2, ActionType::Check, None, 210).unwrap_err(),
        PokerError::InvalidAction
    );
}

#[test]
fn raise_below_minimum_rejected_without_mutation() {
    let mut table = started_table();
    let before = table;
    assert_eq!(
        action::handler(&mut table, KEY2, ActionType::Raise, Some(5), 210).unwrap_err(),
        PokerError::RaiseTooSmall
    );
    assert_eq!(table, before);
}

#[test]
fn raise_reopens_betting() {
    let mut table = started_table();
    let mut p0 = table.players[0].unwrap();
    p0.has_acted = true;
    table.players[0] = Some(p0);
    let (ev, _) = action::handler(&mut table, KEY2, ActionType::Raise, Some(20), 210).unwrap();
    assert_eq!(ev.amount, 20);
    let p1 = table.players[1].unwrap();
    // the raiser pays the 5 owed plus the 20 raise
    assert_eq!(p1.bet, 30);
    assert_eq!(p1.stack, 970);
    assert_eq!(table.min_raise, 20);
    assert_eq!(table.last_raise_amount, 20);
    assert!(!table.players[0].unwrap().has_acted);
    assert_eq!(table.pot, 40);
}

#[test]
fn raise_beyond_stack_rejected() {
    let mut table = started_table();
    assert_eq!(
        action::handler(&mut table, KEY2, ActionType::Raise, Some(2000), 210).unwrap_err(),
        PokerError::InsufficientFunds
    );
}

#[test]
fn all_in_short_stack_matches_scenario() {
    // a player with a stack of 20 facing 15 to call moves all-in: the bet
    // becomes the prior bet plus the whole stack, and since that outbids the
    // table, the other acted flags clear
    let mut table = started_table();
    let mut p0 = table.players[0].unwrap();
    p0.bet = 15;
    p0.has_acted = true;
    table.players[0] = Some(p0);
    let mut p1 = table.players[1].unwrap();
    p1.bet = 0;
    p1.stack = 20;
    table.players[1] = Some(p1);
    let (ev, _) = action::handler(&mut table, KEY2, ActionType::AllIn, None, 210).unwrap();
    assert_eq!(ev.amount, 20);
    let p1 = table.players[1].unwrap();
    assert_eq!(p1.bet, 20);
    assert_eq!(p1.stack, 0);
    assert!(p1.is_all_in);
    assert!(!table.players[0].unwrap().has_acted);
    assert_eq!(table.last_raise_amount, 5);
    assert_eq!(table.min_raise, 5);
}

#[test]
fn pot_overflow_reported_and_state_kept() {
    let mut table = started_table();
    let mut p0 = table.players[0].unwrap();
    p0.bet = u64::MAX;
    table.players[0] = Some(p0);
    let mut p1 = table.players[1].unwrap();
    p1.stack = u64::MAX;
    table.players[1] = Some(p1);
    let before = table;
    assert_eq!(
        action::handler(&mut table, KEY2, ActionType::Call, None, 210).unwrap_err(),
        PokerError::MathOverflow
    );
    assert_eq!(table, before);
}

#[test]
fn fold_removes_player_from_action() {
    let mut table = started_table();
    let (ev, _) = action::handler(&mut table, KEY2, ActionType::Fold, None, 210).unwrap();
    assert_eq!(ev.amount, 0);
    let p1 = table.players[1].unwrap();
    assert!(p1.has_folded);
    // only the big blind's bet stays in the pot
    assert_eq!(table.pot, 10);
}

#[test]
fn showdown_reveals_and_settlement_resets() {
    let mut table = started_table();
    assert_eq!(
        showdown::handler(&mut table).unwrap_err(),
        PokerError::InvalidGameState
    );
    table.game_state = GameState::Showdown;
    let events = showdown::handler(&mut table).unwrap();
    assert_eq!(table.game_state, GameState::Finished);
    assert_eq!(events.len(), 2);
    assert_eq!(events[0].seat, 0);
    assert_eq!(events[1].seat, 1);
    // settlement pays the whole pot to the first active seat and resets
    let stack_before = table.players[0].unwrap().stack;
    let pot_before = table.pot;
    let ev = distribute_pot::handler(&mut table).unwrap();
    assert_eq!(ev.winners.len(), 1);
    assert_eq!(ev.winners[0], KEY1);
    assert_eq!(ev.amounts, vec![pot_before]);
    assert_eq!(table.pot, 0);
    assert_eq!(table.game_state, GameState::Waiting);
    assert_eq!(table.current_player, None);
    let p0 = table.players[0].unwrap();
    assert_eq!(p0.stack, stack_before + pot_before);
    assert_eq!(p0.bet, 0);
    assert!(p0.hole_cards[0].is_none());
    assert_eq!(p0.hole_cards_committed, [0u8; 32]);
    let p1 = table.players[1].unwrap();
    assert_eq!(p1.bet, 0);
    assert!(!p1.is_all_in && !p1.has_folded && !p1.has_acted);
}

#[test]
fn settlement_with_single_survivor() {
    let mut table = started_table();
    action::handler(&mut table, KEY2, ActionType::Fold, None, 210).unwrap();
    table.game_state = GameState::Finished;
    let pot_before = table.pot;
    let stack_before = table.players[0].unwrap().stack;
    let ev = distribute_pot::handler(&mut table).unwrap();
    assert_eq!(ev.winners[0], KEY1);
    assert_eq!(table.pot, 0);
    assert_eq!(table.game_state, GameState::Waiting);
    assert_eq!(table.players[0].unwrap().stack, stack_before + pot_before);
}

#[test]
fn closing_the_river_clears_the_turn() {
    let mut table = started_table();
    table.round = Round::River;
    table.game_state = GameState::River;
    let mut p0 = table.players[0].unwrap();
    p0.bet = 10;
    p0.has_acted = true;
    table.players[0] = Some(p0);
    // seat 1 folds; every remaining active player has acted on level bets,
    // so the river closes and the table enters the showdown with no turn
    let (_, rev) = action::handler(&mut table, KEY2, ActionType::Fold, None, 210).unwrap();
    assert!(rev.is_none());
    assert_eq!(table.game_state, GameState::Showdown);
    assert_eq!(table.round, Round::River);
    assert_eq!(table.current_player, None);
}

#[test]
fn next_active_player_wraps() {
    let table = started_table();
    assert_eq!(table.get_next_active_player(0), Some(1));
    assert_eq!(table.get_next_active_player(1), Some(0));
    assert_eq!(table.get_next_active_player(8), Some(0));
    assert_eq!(table.get_active_player_count(), 2);
}
