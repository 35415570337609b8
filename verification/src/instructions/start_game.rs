//! Starting a hand: positions, blinds, the deterministic shuffle, the deal
//! with its fairness commitments, and the opening turn.

use vstd::prelude::*;

use crate::error::PokerError;
use crate::hashing::{keccak256, keccak_of};
use crate::state::{
    active_seats_in, lemma_active_seats_len, occupied_of, player_of, Card, GameState,
    GameStartedEvent, PlayerModel, Round, SeatSeq, Table, TableModel,
};
use vstd::bytes::{spec_u64_to_le_bytes, u64_to_le_bytes};
use vstd::pervasive::VecAdditionalExecFns;

verus! {

/// The 52-card deck in its generation order: suit-major, rank-ascending, so
/// the card at position `i` is the card with index `i`.
pub open spec fn fresh_deck() -> Seq<Card> {
    Seq::new(52, |i: int| Card::from_u8_spec(i as u8))
}

/// One step of the linear-congruential generator driving the shuffle.
pub open spec fn lcg_next(s: u64) -> u64 {
    s.wrapping_mul(1103515245).wrapping_add(12345)
}

/// The exclusive-or fold of the first `k` seed bytes, each shifted to its
/// position modulo eight.
pub open spec fn fold_seed_below(bytes: Seq<u8>, k: int) -> u64
    decreases k,
{
    if k <= 0 {
        0u64
    } else {
        fold_seed_below(bytes, k - 1) ^ ((bytes[k - 1] as u64) << ((((k - 1) % 8) * 8) as u64))
    }
}

/// The 64-bit shuffle seed folded from the seed bytes.
pub open spec fn seed_value(bytes: Seq<u8>) -> u64 {
    fold_seed_below(bytes, bytes.len() as int)
}

/// The Fisher–Yates pass from position `i` down to 1, driven by the
/// generator state `s`.
#[verifier::opaque]
pub open spec fn shuffled(deck: Seq<Card>, s: u64, i: int) -> Seq<Card>
    decreases i,
{
    if i < 1 {
        deck
    } else {
        let s2 = lcg_next(s);
        let j = (s2 as int) % (i + 1);
        shuffled(deck.update(i, deck[j]).update(j, deck[i]), s2, i - 1)
    }
}

/// One unfolding of the shuffle pass: the swap at `i`, then the rest.
pub proof fn lemma_shuffled_unfold(deck: Seq<Card>, s: u64, i: int)
    requires
        i >= 1,
    ensures
        ({
            let s2 = lcg_next(s);
            let j = (s2 as int) % (i + 1);
            shuffled(deck, s, i) == shuffled(
                deck.update(i, deck[j]).update(j, deck[i]),
                s2,
                i - 1,
            )
        }),
{
    reveal(shuffled);
}

/// The shuffle pass below position 1 leaves the deck alone.
pub proof fn lemma_shuffled_base(deck: Seq<Card>, s: u64, i: int)
    requires
        i < 1,
    ensures
        shuffled(deck, s, i) == deck,
{
    reveal(shuffled);
}

/// The unsigned bit pattern of a signed 64-bit value.
pub open spec fn u64_of_i64(x: i64) -> u64 {
    if x >= 0 {
        x as u64
    } else {
        (x + 0x1_0000_0000_0000_0000) as u64
    }
}

/// The shuffle-seed bytes: the little-endian bytes of the timestamp, the
/// table identifier and the slot counter, in that order.
pub open spec fn seed_bytes(now: i64, table_id: u64, slot: u64) -> Seq<u8> {
    spec_u64_to_le_bytes(u64_of_i64(now)) + spec_u64_to_le_bytes(table_id) + spec_u64_to_le_bytes(
        slot,
    )
}

/// The bytes the fairness commitment hashes: both hole-card indices, then
/// the seed bytes.
pub open spec fn commit_bytes(c0: u8, c1: u8, seed: Seq<u8>) -> Seq<u8> {
    seq![c0, c1] + seed
}

/// A seat record with the blind posted: the bet set to what the stack
/// covers, the all-in flag raised when the stack empties.
pub open spec fn post_blind(ps: SeatSeq, seat: int, amount: u64) -> SeatSeq {
    if occupied_of(ps, seat) {
        let p = player_of(ps, seat);
        let a: u64 = if p.stack < amount {
            p.stack
        } else {
            amount
        };
        let stack2 = (p.stack - a) as u64;
        ps.update(
            seat,
            Some(
                PlayerModel {
                    stack: stack2,
                    bet: a,
                    is_all_in: if stack2 == 0 {
                        true
                    } else {
                        p.is_all_in
                    },
                    ..p
                },
            ),
        )
    } else {
        ps
    }
}

/// A seat record with its hole cards dealt and the fairness commitment
/// computed over them and the seed.
pub open spec fn deal_one(p: PlayerModel, c0: Card, c1: Card, seed: Seq<u8>) -> PlayerModel {
    PlayerModel {
        hole_cards: seq![Some(c0), Some(c1)],
        hole_cards_committed: keccak_of(commit_bytes(c0.to_u8_spec(), c1.to_u8_spec(), seed)),
        ..p
    }
}

/// Dealing down the active-seat order: each seat takes the next two deck
/// positions while the deck lasts.
pub open spec fn deal_players(
    ps: SeatSeq,
    order: Seq<u8>,
    deck: Seq<Card>,
    seed: Seq<u8>,
    idx: int,
) -> SeatSeq
    decreases order.len(),
{
    if order.len() == 0 {
        ps
    } else {
        let s = order[0] as int;
        if idx + 1 < deck.len() && occupied_of(ps, s) {
            deal_players(
                ps.update(s, Some(deal_one(player_of(ps, s), deck[idx], deck[idx + 1], seed))),
                order.drop_first(),
                deck,
                seed,
                idx + 2,
            )
        } else {
            deal_players(ps, order.drop_first(), deck, seed, idx)
        }
    }
}

/// Every seat record with its acted flag lowered, occupied seats only.
pub open spec fn reset_acted_all(ps: SeatSeq) -> SeatSeq {
    ps.map_values(
        |op: Option<PlayerModel>|
            match op {
                Some(q) => Some(PlayerModel { has_acted: false, ..q }),
                None => None,
            },
    )
}

/// The validation failure starting reports, if any: a hand already under
/// way, fewer than two seated players, or blinds whose sum overflows.
pub open spec fn start_error(t: TableModel) -> Option<PokerError> {
    if t.game_state != GameState::Waiting {
        Some(PokerError::InvalidGameState)
    } else if t.player_count < 2 {
        Some(PokerError::NotEnoughPlayers)
    } else if t.small_blind + t.big_blind > u64::MAX {
        Some(PokerError::MathOverflow)
    } else {
        None
    }
}

/// The table a successful start produces: dealer at the first active seat,
/// blinds posted by the next two active seats in rotation, the pot opened
/// with the full small and big blinds — even when a short stack posts less,
/// the recorded pot follows the configured blinds — hole cards dealt from
/// the seeded shuffle with their commitments, the turn on the first active
/// seat past the big blind, and every acted flag cleared.
#[verifier::opaque]
pub open spec fn started_table(t: TableModel, now: i64, slot: u64) -> TableModel {
    let seats0 = active_seats_in(t.players, 0, t.num_seats());
    let n = seats0.len() as int;
    let dealer = seats0[0];
    let sb_pos = seats0[1int % n];
    let bb_pos = seats0[2int % n];
    let ps1 = post_blind(t.players, sb_pos as int, t.small_blind);
    let ps2 = post_blind(ps1, bb_pos as int, t.big_blind);
    let sbytes = seed_bytes(now, t.table_id, slot);
    let deck = shuffled(fresh_deck(), seed_value(sbytes), 51);
    let order = active_seats_in(ps2, 0, ps2.len() as int);
    let ps3 = deal_players(ps2, order, deck, sbytes, 0);
    let t2 = TableModel {
        dealer_position: dealer,
        small_blind_position: sb_pos,
        big_blind_position: bb_pos,
        pot: (t.small_blind + t.big_blind) as u64,
        last_raise_amount: t.big_blind,
        min_raise: t.big_blind,
        players: ps3,
        game_state: GameState::PreFlop,
        round: Round::PreFlop,
        last_action_at: now,
        ..t
    };
    TableModel {
        current_player: t2.next_active_seat(bb_pos as int),
        players: reset_acted_all(ps3),
        ..t2
    }
}

/// The unsigned bit pattern of a signed 64-bit value.
fn i64_to_u64_repr(x: i64) -> (r: u64)
    ensures
        r == u64_of_i64(x),
{
    if x >= 0 {
        x as u64
    } else {
        ((x as i128) + 0x1_0000_0000_0000_0000i128) as u64
    }
}

/// Builds the 52-card deck in generation order.
pub fn generate_deck() -> (deck: Vec<Card>)
    ensures
        deck@ == fresh_deck(),
{
    let mut deck: Vec<Card> = Vec::new();
    let mut v: u8 = 0;
    while v < 52
        invariant
            v <= 52,
            deck@.len() == v as int,
            forall|k: int| 0 <= k < v as int ==> deck@[k] == Card::from_u8_spec(k as u8),
        decreases 52 - v,
    {
        deck.push(Card::from_u8(v));
        v = v + 1;
    }
    proof {
        assert(deck@ =~= fresh_deck());
    }
    deck
}

/// Shuffles the deck with a Fisher–Yates pass driven by a linear
/// congruential generator seeded from the folded seed bytes.
#[verifier::rlimit(100)]
#[verifier::spinoff_prover]
pub fn shuffle_deck(deck: &mut Vec<Card>, seed: &[u8])
    requires
        old(deck)@.len() < 0x1_0000_0000,
    ensures
        final(deck)@ == shuffled(old(deck)@, seed_value(seed@), old(deck)@.len() - 1),
        final(deck)@.len() == old(deck)@.len(),
{
    let mut rng_seed: u64 = 0;
    let mut b: usize = 0;
    while b < seed.len()
        invariant
            b <= seed@.len(),
            rng_seed == fold_seed_below(seed@, b as int),
        decreases seed@.len() - b,
    {
        rng_seed = rng_seed ^ ((seed[b] as u64) << (((b % 8) * 8) as u64));
        b = b + 1;
    }
    if deck.len() < 2 {
        proof {
            lemma_shuffled_base(deck@, rng_seed, deck@.len() - 1);
        }
        return ;
    }
    let ghost orig = deck@;
    let ghost s0 = rng_seed;
    let mut i: usize = deck.len() - 1;
    while i >= 1
        invariant
            1 <= i + 1 <= deck@.len(),
            deck@.len() == orig.len(),
            orig.len() < 0x1_0000_0000,
            shuffled(orig, s0, orig.len() - 1) == shuffled(deck@, rng_seed, i as int),
        decreases i,
    {
        let ghost pre = deck@;
        let ghost rng_pre = rng_seed;
        rng_seed = rng_seed.wrapping_mul(1103515245).wrapping_add(12345);
        proof {
            assert(rng_seed == lcg_next(rng_pre));
        }
        let j: usize = (rng_seed % ((i as u64) + 1)) as usize;
        proof {
            assert(j <= i);
            assert(j as int == (rng_seed as int) % (i as int + 1));
        }
        let card_i = deck[i];
        let card_j = deck[j];
        deck.set(i, card_j);
        deck.set(j, card_i);
        proof {
            lemma_shuffled_unfold(pre, rng_pre, i as int);
            assert(deck@ =~= pre.update(i as int, pre[j as int]).update(j as int, pre[i as int]));
            assert(shuffled(pre, rng_pre, i as int) == shuffled(deck@, rng_seed, i as int - 1));
        }
        i = i - 1;
    }
    proof {
        lemma_shuffled_base(deck@, rng_seed, 0);
    }
}

/// Starts a hand on a waiting table, stamped with `now` and the external
/// `slot` counter that salts the shuffle seed.
#[verifier::rlimit(20)]
#[verifier::spinoff_prover]
pub fn handler(table: &mut Table, now: i64, slot: u64) -> (r: Result<GameStartedEvent, PokerError>)
    requires
        start_error(old(table)@) is None ==> old(table)@.active_count() >= 1,
    ensures
        match r {
            Ok(ev) => {
                &&& start_error(old(table)@) is None
                &&& final(table)@ == started_table(old(table)@, now, slot)
                &&& ev == (GameStartedEvent {
                    table_id: old(table).table_id,
                    dealer_position: final(table).dealer_position,
                    small_blind_position: final(table).small_blind_position,
                    big_blind_position: final(table).big_blind_position,
                })
            },
            Err(e) => {
                &&& start_error(old(table)@) == Some(e)
                &&& *final(table) == *old(table)
            },
        },
{
    if table.game_state != GameState::Waiting {
        return Err(PokerError::InvalidGameState);
    }
    if table.player_count < 2 {
        return Err(PokerError::NotEnoughPlayers);
    }
    let pot = match table.small_blind.checked_add(table.big_blind) {
        Some(v) => v,
        None => {
            return Err(PokerError::MathOverflow);
        },
    };
    let ghost t0 = old(table)@;
    proof {
        lemma_active_seats_len(t0.players, 9);
    }
    let actives = table.get_active_players();
    let n = actives.len();
    let dealer = actives[0].0;
    let sb_pos = actives[1 % n].0;
    let bb_pos = actives[2 % n].0;
    proof {
        let ghost seats0 = active_seats_in(t0.players, 0, 9);
        assert(dealer == seats0[0]);
        assert(sb_pos == seats0[1int % (n as int)]);
        assert(bb_pos == seats0[2int % (n as int)]);
    }
    table.dealer_position = dealer;
    table.small_blind_position = sb_pos;
    table.big_blind_position = bb_pos;
    let small_blind = table.small_blind;
    let big_blind = table.big_blind;
    post_blind_exec(table, sb_pos, small_blind);
    post_blind_exec(table, bb_pos, big_blind);
    table.pot = pot;
    table.last_raise_amount = big_blind;
    table.min_raise = big_blind;
    let now_u = i64_to_u64_repr(now);
    let mut seed = u64_to_le_bytes(now_u);
    let mut tid_bytes = u64_to_le_bytes(table.table_id);
    seed.append(&mut tid_bytes);
    let mut slot_bytes = u64_to_le_bytes(slot);
    seed.append(&mut slot_bytes);
    proof {
        assert(seed@ =~= seed_bytes(now, t0.table_id, slot));
    }
    let mut deck = generate_deck();
    shuffle_deck(&mut deck, seed.as_slice());
    deal_to_actives(table, &deck, &seed);
    let next = table.get_next_active_player(bb_pos);
    table.current_player = next;
    table.game_state = GameState::PreFlop;
    table.round = Round::PreFlop;
    table.last_action_at = now;
    reset_acted_exec(table);
    proof {
        reveal(started_table);
        let ps1 = post_blind(t0.players, sb_pos as int, t0.small_blind);
        let ps2 = post_blind(ps1, bb_pos as int, t0.big_blind);
        assert(ps2.len() == 9);
        let sbytes = seed_bytes(now, t0.table_id, slot);
        assert(seed@ == sbytes);
        let dk = shuffled(fresh_deck(), seed_value(sbytes), 51);
        assert(deck@ == dk);
        assert(active_seats_in(ps2, 0, ps2.len() as int) == active_seats_in(ps2, 0, 9));
        let ps3 = deal_players(ps2, active_seats_in(ps2, 0, 9), dk, sbytes, 0);
        assert(table@.players == reset_acted_all(ps3));
        assert(table@ =~= started_table(t0, now, slot));
    }
    Ok(
        GameStartedEvent {
            table_id: table.table_id,
            dealer_position: dealer,
            small_blind_position: sb_pos,
            big_blind_position: bb_pos,
        },
    )
}

/// Posts one blind at `seat`, as far as the seat's stack covers it.
fn post_blind_exec(table: &mut Table, seat: u8, amount: u64)
    ensures
        final(table)@ == (TableModel {
            players: post_blind(old(table)@.players, seat as int, amount),
            ..old(table)@
        }),
        *final(table) == (Table { players: final(table).players, ..*old(table) }),
{
    if seat >= 9 {
        proof {
            assert(table@ =~= (TableModel {
                players: post_blind(old(table)@.players, seat as int, amount),
                ..old(table)@
            }));
        }
        return ;
    }
    let ghost pv = table@.players;
    let slot = table.players[seat as usize];
    match slot {
        Some(p) => {
            proof {
                assert(pv[seat as int] == Some(p@));
            }
            let a = if p.stack < amount {
                p.stack
            } else {
                amount
            };
            let mut p2 = p;
            p2.stack = p.stack - a;
            p2.bet = a;
            if p2.stack == 0 {
                p2.is_all_in = true;
            }
            table.players[seat as usize] = Some(p2);
            proof {
                assert(table@.players =~= pv.update(seat as int, Some(p2@)));
                assert(table@.players =~= post_blind(old(table)@.players, seat as int, amount));
                assert(table@ =~= (TableModel {
                    players: post_blind(old(table)@.players, seat as int, amount),
                    ..old(table)@
                }));
            }
        },
        None => {
            proof {
                assert(table@ =~= (TableModel {
                    players: post_blind(old(table)@.players, seat as int, amount),
                    ..old(table)@
                }));
            }
        },
    }
}

/// Deals two cards and a commitment to each active seat, in seat order.
#[verifier::rlimit(20)]
fn deal_to_actives(table: &mut Table, deck: &Vec<Card>, seed: &Vec<u8>)
    requires
        deck@.len() == 52,
    ensures
        final(table)@ == (TableModel {
            players: deal_players(
                old(table)@.players,
                active_seats_in(old(table)@.players, 0, 9),
                deck@,
                seed@,
                0,
            ),
            ..old(table)@
        }),
        *final(table) == (Table { players: final(table).players, ..*old(table) }),
{
    let order = table.get_active_players();
    let ghost ps0 = old(table)@.players;
    let ghost oseats = active_seats_in(ps0, 0, 9);
    proof {
        assert(oseats.skip(0) =~= oseats);
        assert((TableModel { players: old(table)@.players, ..table@ }) =~= old(table)@);
        assert(*table =~= (Table { players: table.players, ..*old(table) }));
    }
    let mut card_idx: usize = 0;
    let mut k: usize = 0;
    while k < order.len()
        invariant
            k <= order@.len(),
            order@.len() <= 9,
            card_idx == 2 * k,
            deck@.len() == 52,
            crate::state::seats_of(order@) == oseats,
            forall|m: int|
                0 <= m < order@.len() ==> #[trigger] order@[m].0 < 9 && occupied_of(
                    ps0,
                    order@[m].0 as int,
                ),
            table@.players.len() == 9,
            deal_players(ps0, oseats, deck@, seed@, 0) == deal_players(
                table@.players,
                oseats.skip(k as int),
                deck@,
                seed@,
                card_idx as int,
            ),
            forall|m: int|
                k <= m < order@.len() ==> occupied_of(table@.players, #[trigger] order@[m].0 as int),
            (TableModel { players: old(table)@.players, ..table@ }) =~= old(table)@,
            *table == (Table { players: table.players, ..*old(table) }),
        decreases order@.len() - k,
    {
        let seat = order[k].0;
        let ghost pv = table@.players;
        let slot = table.players[seat as usize];
        match slot {
            Some(p) => {
                let c0 = deck[card_idx];
                let c1 = deck[card_idx + 1];
                let c0b = c0.to_u8();
                let c1b = c1.to_u8();
                let mut data: Vec<u8> = Vec::new();
                data.push(c0b);
                data.push(c1b);
                let mut z: usize = 0;
                while z < seed.len()
                    invariant
                        z <= seed@.len(),
                        data@ == seq![c0b, c1b] + seed@.take(z as int),
                    decreases seed@.len() - z,
                {
                    data.push(seed[z]);
                    proof {
                        assert(data@ =~= seq![c0b, c1b] + seed@.take(z as int + 1));
                    }
                    z = z + 1;
                }
                proof {
                    assert(data@ =~= commit_bytes(c0b, c1b, seed@));
                }
                let digest = keccak256(data.as_slice());
                let mut p2 = p;
                p2.hole_cards = [Some(c0), Some(c1)];
                p2.hole_cards_committed = digest;
                table.players[seat as usize] = Some(p2);
                proof {
                    assert(pv[seat as int] == Some(p@));
                    assert(p2@.hole_cards =~= seq![Some(c0), Some(c1)]);
                    assert(p2@ =~= deal_one(p@, c0, c1, seed@));
                    assert(table@.players =~= pv.update(seat as int, Some(p2@)));
                    assert(oseats.skip(k as int).drop_first() =~= oseats.skip(k as int + 1));
                    assert(oseats.skip(k as int)[0] == seat);
                }
            },
            None => {
                proof {
                    assert(occupied_of(pv, seat as int));
                    assert(pv[seat as int] is Some);
                    assert(false);
                }
            },
        }
        card_idx = card_idx + 2;
        k = k + 1;
    }
    proof {
        assert(oseats.skip(order@.len() as int) =~= Seq::<u8>::empty());
        assert(table@.players =~= deal_players(ps0, oseats, deck@, seed@, 0));
        assert(table@ =~= (TableModel {
            players: deal_players(ps0, oseats, deck@, seed@, 0),
            ..old(table)@
        }));
    }
}

/// Lowers the acted flag on every occupied seat.
fn reset_acted_exec(table: &mut Table)
    ensures
        final(table)@ == (TableModel { players: reset_acted_all(old(table)@.players), ..old(
            table,
        )@ }),
        *final(table) == (Table { players: final(table).players, ..*old(table) }),
{
    let mut j: usize = 0;
    while j < 9
        invariant
            j <= 9,
            table@.players.len() == 9,
            old(table)@.players.len() == 9,
            forall|k: int|
                0 <= k < j ==> table@.players[k] == reset_acted_all(old(table)@.players)[k],
            forall|k: int| j <= k < 9 ==> table@.players[k] == old(table)@.players[k],
            (TableModel { players: old(table)@.players, ..table@ }) =~= old(table)@,
            *table == (Table { players: table.players, ..*old(table) }),
        decreases 9 - j,
    {
        let ghost pv = table@.players;
        let slot = table.players[j];
        match slot {
            Some(q) => {
                proof {
                    assert(pv[j as int] == Some(q@));
                }
                let mut q2 = q;
                q2.has_acted = false;
                table.players[j] = Some(q2);
                proof {
                    assert(q2@ == (PlayerModel { has_acted: false, ..q@ }));
                    assert(table@.players =~= pv.update(j as int, Some(q2@)));
                }
            },
            None => {},
        }
        proof {
            assert(reset_acted_all(old(table)@.players)[j as int] == (match old(
                table,
            )@.players[j as int] {
                Some(q) => Some(PlayerModel { has_acted: false, ..q }),
                None => None,
            }));
            assert forall|k: int|
                0 <= k < j + 1 implies table@.players[k] == reset_acted_all(
                old(table)@.players,
            )[k] by {
                if k < j as int {
                    assert(pv[k] == reset_acted_all(old(table)@.players)[k]);
                }
            }
            assert forall|k: int| j + 1 <= k < 9 implies table@.players[k] == old(
                table,
            )@.players[k] by {
                assert(pv[k] == old(table)@.players[k]);
            }
            assert((TableModel { players: old(table)@.players, ..table@ }) =~= old(table)@);
            assert(*table =~= (Table { players: table.players, ..*old(table) }));
        }
        j = j + 1;
    }
    proof {
        assert(table@.players =~= reset_acted_all(old(table)@.players));
        assert(table@ =~= (TableModel {
            players: reset_acted_all(old(table)@.players),
            ..old(table)@
        }));
    }
}

} // verus!
