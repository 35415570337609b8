//! Core data model: cards, players, the table record and its enumerations.

use vstd::prelude::*;

verus! {

/// One of the four card suits.
#[derive(Clone, Copy, Debug, PartialEq, Eq, Structural)]
pub enum Suit {
    Clubs,
    Diamonds,
    Hearts,
    Spades,
}

/// One of the thirteen card ranks, two low, ace high.
#[derive(Clone, Copy, Debug, PartialEq, Eq, Structural)]
pub enum Rank {
    Two,
    Three,
    Four,
    Five,
    Six,
    Seven,
    Eight,
    Nine,
    Ten,
    Jack,
    Queen,
    King,
    Ace,
}

impl Suit {
    /// The suit's position in the fixed suit order.
    pub open spec fn index_spec(self) -> u8 {
        match self {
            Suit::Clubs => 0,
            Suit::Diamonds => 1,
            Suit::Hearts => 2,
            Suit::Spades => 3,
        }
    }

    /// The suit decoded from an index; out-of-range values decode to clubs.
    pub open spec fn from_u8_spec(value: u8) -> Suit {
        if value == 0 {
            Suit::Clubs
        } else if value == 1 {
            Suit::Diamonds
        } else if value == 2 {
            Suit::Hearts
        } else if value == 3 {
            Suit::Spades
        } else {
            Suit::Clubs
        }
    }

    pub fn index(&self) -> (v: u8)
        ensures
            v == self.index_spec(),
    {
        match self {
            Suit::Clubs => 0,
            Suit::Diamonds => 1,
            Suit::Hearts => 2,
            Suit::Spades => 3,
        }
    }

    pub fn from_u8(value: u8) -> (s: Suit)
        ensures
            s == Suit::from_u8_spec(value),
    {
        if value == 0 {
            Suit::Clubs
        } else if value == 1 {
            Suit::Diamonds
        } else if value == 2 {
            Suit::Hearts
        } else if value == 3 {
            Suit::Spades
        } else {
            Suit::Clubs
        }
    }
}

impl Rank {
    /// The rank's position in the fixed rank order.
    pub open spec fn index_spec(self) -> u8 {
        match self {
            Rank::Two => 0,
            Rank::Three => 1,
            Rank::Four => 2,
            Rank::Five => 3,
            Rank::Six => 4,
            Rank::Seven => 5,
            Rank::Eight => 6,
            Rank::Nine => 7,
            Rank::Ten => 8,
            Rank::Jack => 9,
            Rank::Queen => 10,
            Rank::King => 11,
            Rank::Ace => 12,
        }
    }

    /// The rank decoded from an index; out-of-range values decode to two.
    pub open spec fn from_u8_spec(value: u8) -> Rank {
        if value == 0 {
            Rank::Two
        } else if value == 1 {
            Rank::Three
        } else if value == 2 {
            Rank::Four
        } else if value == 3 {
            Rank::Five
        } else if value == 4 {
            Rank::Six
        } else if value == 5 {
            Rank::Seven
        } else if value == 6 {
            Rank::Eight
        } else if value == 7 {
            Rank::Nine
        } else if value == 8 {
            Rank::Ten
        } else if value == 9 {
            Rank::Jack
        } else if value == 10 {
            Rank::Queen
        } else if value == 11 {
            Rank::King
        } else if value == 12 {
            Rank::Ace
        } else {
            Rank::Two
        }
    }

    pub fn index(&self) -> (v: u8)
        ensures
            v == self.index_spec(),
    {
        match self {
            Rank::Two => 0,
            Rank::Three => 1,
            Rank::Four => 2,
            Rank::Five => 3,
            Rank::Six => 4,
            Rank::Seven => 5,
            Rank::Eight => 6,
            Rank::Nine => 7,
            Rank::Ten => 8,
            Rank::Jack => 9,
            Rank::Queen => 10,
            Rank::King => 11,
            Rank::Ace => 12,
        }
    }

    pub fn from_u8(value: u8) -> (r: Rank)
        ensures
            r == Rank::from_u8_spec(value),
    {
        if value == 0 {
            Rank::Two
        } else if value == 1 {
            Rank::Three
        } else if value == 2 {
            Rank::Four
        } else if value == 3 {
            Rank::Five
        } else if value == 4 {
            Rank::Six
        } else if value == 5 {
            Rank::Seven
        } else if value == 6 {
            Rank::Eight
        } else if value == 7 {
            Rank::Nine
        } else if value == 8 {
            Rank::Ten
        } else if value == 9 {
            Rank::Jack
        } else if value == 10 {
            Rank::Queen
        } else if value == 11 {
            Rank::King
        } else if value == 12 {
            Rank::Ace
        } else {
            Rank::Two
        }
    }
}

/// A playing card: a suit paired with a rank.
#[derive(Clone, Copy, Debug, PartialEq, Eq, Structural)]
pub struct Card {
    pub suit: Suit,
    pub rank: Rank,
}

impl Card {
    /// The card's index in `[0, 52)`: suit-major, rank-ascending.
    pub open spec fn to_u8_spec(self) -> u8 {
        (self.suit.index_spec() * 13 + self.rank.index_spec()) as u8
    }

    /// The card decoded from an index by dividing out the suit.
    pub open spec fn from_u8_spec(value: u8) -> Card {
        Card {
            suit: Suit::from_u8_spec((value / 13) as u8),
            rank: Rank::from_u8_spec((value % 13) as u8),
        }
    }

    pub fn new(suit: Suit, rank: Rank) -> (c: Card)
        ensures
            c == (Card { suit, rank }),
    {
        Card { suit, rank }
    }

    pub fn to_u8(&self) -> (v: u8)
        ensures
            v == self.to_u8_spec(),
            v < 52,
    {
        self.suit.index() * 13 + self.rank.index()
    }

    pub fn from_u8(value: u8) -> (c: Card)
        ensures
            c == Card::from_u8_spec(value),
    {
        Card {
            suit: Suit::from_u8(value / 13),
            rank: Rank::from_u8(value % 13),
        }
    }
}

/// The card-index mapping is invertible: decoding a card's index gives the
/// card back, for every one of the 52 cards.
pub proof fn lemma_card_index_round_trip(c: Card)
    ensures
        Card::from_u8_spec(c.to_u8_spec()) == c,
{
    match c.suit {
        Suit::Clubs => {}
        Suit::Diamonds => {}
        Suit::Hearts => {}
        Suit::Spades => {}
    }
}

/// The table's coarse phase.
#[derive(Clone, Copy, Debug, PartialEq, Eq, Structural)]
pub enum GameState {
    Waiting,
    Starting,
    PreFlop,
    Flop,
    Turn,
    River,
    Showdown,
    Finished,
}

/// The betting street, tracked in lock-step with the phase.
#[derive(Clone, Copy, Debug, PartialEq, Eq, Structural)]
pub enum Round {
    PreFlop,
    Flop,
    Turn,
    River,
}

/// One betting action a seated player can submit.
#[derive(Clone, Copy, Debug, PartialEq, Eq, Structural)]
pub enum ActionType {
    Fold,
    Check,
    Call,
    Raise,
    AllIn,
}

/// One seat's state: identity, chips, cards and per-round flags.
#[derive(Clone, Copy, Debug, PartialEq, Eq)]
#[verifier::ext_equal]
pub struct Player {
    pub pubkey: [u8; 32],
    pub seat: u8,
    pub stack: u64,
    pub bet: u64,
    pub hole_cards: [Option<Card>; 2],
    pub hole_cards_committed: [u8; 32],
    pub is_all_in: bool,
    pub has_folded: bool,
    pub has_acted: bool,
    pub last_action: Option<ActionType>,
}

/// The mathematical image of a [`Player`]: fixed-size arrays become sequences.
#[verifier::ext_equal]
pub ghost struct PlayerModel {
    pub pubkey: Seq<u8>,
    pub seat: u8,
    pub stack: u64,
    pub bet: u64,
    pub hole_cards: Seq<Option<Card>>,
    pub hole_cards_committed: Seq<u8>,
    pub is_all_in: bool,
    pub has_folded: bool,
    pub has_acted: bool,
    pub last_action: Option<ActionType>,
}

impl View for Player {
    type V = PlayerModel;

    open spec fn view(&self) -> PlayerModel {
        PlayerModel {
            pubkey: self.pubkey@,
            seat: self.seat,
            stack: self.stack,
            bet: self.bet,
            hole_cards: self.hole_cards@,
            hole_cards_committed: self.hole_cards_committed@,
            is_all_in: self.is_all_in,
            has_folded: self.has_folded,
            has_acted: self.has_acted,
            last_action: self.last_action,
        }
    }
}

impl PlayerModel {
    /// A player is active while they have not folded and still hold chips.
    pub open spec fn is_active(self) -> bool {
        !self.has_folded && self.stack > 0
    }

    /// Whether this player may act on the given table: active, not all-in,
    /// and holding the table's current turn.
    pub open spec fn can_act(self, t: TableModel) -> bool {
        self.is_active() && !self.is_all_in && t.current_player == Some(self.seat)
    }
}

/// The root table record: configuration, phase, pot, registry and turn pointer.
#[derive(Clone, Copy, Debug, PartialEq, Eq)]
#[verifier::ext_equal]
pub struct Table {
    pub creator: [u8; 32],
    pub table_id: u64,
    pub small_blind: u64,
    pub big_blind: u64,
    pub max_players: u8,
    pub buy_in: u64,
    pub game_state: GameState,
    pub dealer_position: u8,
    pub small_blind_position: u8,
    pub big_blind_position: u8,
    pub current_player: Option<u8>,
    pub pot: u64,
    pub community_cards: [Option<Card>; 5],
    pub round: Round,
    pub last_raise_amount: u64,
    pub min_raise: u64,
    pub players: [Option<Player>; 9],
    pub player_count: u8,
    pub created_at: i64,
    pub last_action_at: i64,
    pub action_timeout: i64,
}

/// The mathematical image of a [`Table`].
#[verifier::ext_equal]
pub ghost struct TableModel {
    pub creator: Seq<u8>,
    pub table_id: u64,
    pub small_blind: u64,
    pub big_blind: u64,
    pub max_players: u8,
    pub buy_in: u64,
    pub game_state: GameState,
    pub dealer_position: u8,
    pub small_blind_position: u8,
    pub big_blind_position: u8,
    pub current_player: Option<u8>,
    pub pot: u64,
    pub community_cards: Seq<Option<Card>>,
    pub round: Round,
    pub last_raise_amount: u64,
    pub min_raise: u64,
    pub players: Seq<Option<PlayerModel>>,
    pub player_count: u8,
    pub created_at: i64,
    pub last_action_at: i64,
    pub action_timeout: i64,
}

impl View for Table {
    type V = TableModel;

    open spec fn view(&self) -> TableModel {
        TableModel {
            creator: self.creator@,
            table_id: self.table_id,
            small_blind: self.small_blind,
            big_blind: self.big_blind,
            max_players: self.max_players,
            buy_in: self.buy_in,
            game_state: self.game_state,
            dealer_position: self.dealer_position,
            small_blind_position: self.small_blind_position,
            big_blind_position: self.big_blind_position,
            current_player: self.current_player,
            pot: self.pot,
            community_cards: self.community_cards@,
            round: self.round,
            last_raise_amount: self.last_raise_amount,
            min_raise: self.min_raise,
            players: self.players@.map_values(
                |p: Option<Player>|
                    match p {
                        Some(q) => Some(q@),
                        None => None,
                    },
            ),
            player_count: self.player_count,
            created_at: self.created_at,
            last_action_at: self.last_action_at,
            action_timeout: self.action_timeout,
        }
    }
}

/// The seat registry as the specifications see it.
pub type SeatSeq = Seq<Option<PlayerModel>>;

/// Seat `i` of the registry holds a player.
pub open spec fn occupied_of(ps: SeatSeq, i: int) -> bool {
    0 <= i < ps.len() && ps[i] is Some
}

/// The player at seat `i` of the registry.
pub open spec fn player_of(ps: SeatSeq, i: int) -> PlayerModel {
    ps[i]->0
}

/// Seat `i` of the registry holds an active player.
pub open spec fn active_of(ps: SeatSeq, i: int) -> bool {
    occupied_of(ps, i) && player_of(ps, i).is_active()
}

/// Number of occupied seats with index below `n`.
pub open spec fn occupied_below(ps: SeatSeq, n: int) -> int
    decreases n,
{
    if n <= 0 {
        0
    } else {
        occupied_below(ps, n - 1) + if occupied_of(ps, n - 1) {
            1int
        } else {
            0int
        }
    }
}

/// Number of active seats with index below `n`.
pub open spec fn active_below(ps: SeatSeq, n: int) -> int
    decreases n,
{
    if n <= 0 {
        0
    } else {
        active_below(ps, n - 1) + if active_of(ps, n - 1) {
            1int
        } else {
            0int
        }
    }
}

/// Largest bet among active seats below `n`; zero if there are none.
pub open spec fn max_active_bet_below(ps: SeatSeq, n: int) -> u64
    decreases n,
{
    if n <= 0 {
        0
    } else {
        let m = max_active_bet_below(ps, n - 1);
        if active_of(ps, n - 1) && player_of(ps, n - 1).bet > m {
            player_of(ps, n - 1).bet
        } else {
            m
        }
    }
}

/// Sum of the bets of active seats below `n`.
pub open spec fn active_bet_sum_below(ps: SeatSeq, n: int) -> int
    decreases n,
{
    if n <= 0 {
        0
    } else {
        active_bet_sum_below(ps, n - 1) + if active_of(ps, n - 1) {
            player_of(ps, n - 1).bet as int
        } else {
            0int
        }
    }
}

/// The active seats in `[lo, hi)`, in ascending seat order.
pub open spec fn active_seats_in(ps: SeatSeq, lo: int, hi: int) -> Seq<u8>
    decreases hi - lo,
{
    if lo >= hi {
        Seq::empty()
    } else {
        active_seats_in(ps, lo, hi - 1) + if active_of(ps, hi - 1) {
            seq![(hi - 1) as u8]
        } else {
            Seq::empty()
        }
    }
}

/// The least active seat in `[lo, hi)`, if any.
pub open spec fn least_active_in(ps: SeatSeq, lo: int, hi: int) -> Option<u8>
    decreases hi - lo,
{
    if lo >= hi {
        None
    } else if active_of(ps, lo) {
        Some(lo as u8)
    } else {
        least_active_in(ps, lo + 1, hi)
    }
}

/// The least-indexed seat at or above `lo` holding a player whose identity
/// is `key`.
pub open spec fn find_seat_from(ps: SeatSeq, key: Seq<u8>, lo: int) -> Option<u8>
    decreases ps.len() - lo,
{
    if lo < 0 || lo >= ps.len() {
        None
    } else if occupied_of(ps, lo) && player_of(ps, lo).pubkey == key {
        Some(lo as u8)
    } else {
        find_seat_from(ps, key, lo + 1)
    }
}

impl TableModel {
    /// Number of seats in the registry (always nine for a real table).
    pub open spec fn num_seats(self) -> int {
        self.players.len() as int
    }

    /// Seat `i` holds a player.
    pub open spec fn seat_occupied(self, i: int) -> bool {
        occupied_of(self.players, i)
    }

    /// The player seated at `i`.
    pub open spec fn player_at(self, i: int) -> PlayerModel {
        player_of(self.players, i)
    }

    /// Seat `i` holds an active player.
    pub open spec fn active_at(self, i: int) -> bool {
        active_of(self.players, i)
    }

    /// Number of active players at the table.
    pub open spec fn active_count(self) -> int {
        active_below(self.players, self.num_seats())
    }

    /// The current bet to match: the largest bet among active players.
    pub open spec fn current_bet(self) -> u64 {
        max_active_bet_below(self.players, self.num_seats())
    }

    /// Sum of all active players' bets: what the pot is recomputed to.
    pub open spec fn active_bet_sum(self) -> int {
        active_bet_sum_below(self.players, self.num_seats())
    }

    /// All active seats in ascending order.
    pub open spec fn active_seats(self) -> Seq<u8> {
        active_seats_in(self.players, 0, self.num_seats())
    }

    /// The first active seat in seat order, if any player is active.
    pub open spec fn first_active_seat(self) -> Option<u8> {
        least_active_in(self.players, 0, self.num_seats())
    }

    /// The next active seat strictly after `from`, wrapping to the least
    /// active seat, or `None` when no player is active.
    pub open spec fn next_active_seat(self, from: int) -> Option<u8> {
        match least_active_in(self.players, from + 1, self.num_seats()) {
            Some(s) => Some(s),
            None => self.first_active_seat(),
        }
    }

    /// Every active player has acted or is all-in.
    pub open spec fn all_active_acted_or_all_in(self) -> bool {
        forall|i: int|
            #[trigger] self.active_at(i) ==> self.player_at(i).has_acted || self.player_at(
                i,
            ).is_all_in
    }

    /// Every active player's bet equals the first active player's bet,
    /// all-in players exempted; false when no player is active.
    pub open spec fn all_active_bets_equal(self) -> bool {
        &&& self.first_active_seat() is Some
        &&& forall|i: int|
            #[trigger] self.active_at(i) ==> self.player_at(i).bet == self.player_at(
                self.first_active_seat()->0 as int,
            ).bet || self.player_at(i).is_all_in
    }

    /// The betting round closes exactly when every active player has acted
    /// or is all-in and all active bets are level (all-in players exempt).
    pub open spec fn round_complete(self) -> bool {
        self.all_active_acted_or_all_in() && self.all_active_bets_equal()
    }

    /// The seat of the player whose identity is `key`, if seated.
    pub open spec fn find_seat(self, key: Seq<u8>) -> Option<u8> {
        find_seat_from(self.players, key, 0)
    }
}

/// Byte-for-byte equality of two 32-byte identifiers.
pub fn bytes32_eq(a: &[u8; 32], b: &[u8; 32]) -> (r: bool)
    ensures
        r <==> a@ == b@,
{
    let mut i: usize = 0;
    while i < 32
        invariant
            i <= 32,
            forall|k: int| 0 <= k < i ==> a@[k] == b@[k],
        decreases 32 - i,
    {
        if a[i] != b[i] {
            return false;
        }
        i = i + 1;
    }
    assert(a@ =~= b@);
    true
}

/// The seat column of an active-player listing.
pub open spec fn seats_of(r: Seq<(u8, Player)>) -> Seq<u8> {
    r.map_values(|pr: (u8, Player)| pr.0)
}

impl Player {
    /// Whether the player is still in the hand with chips behind.
    pub fn is_active(&self) -> (r: bool)
        ensures
            r == self@.is_active(),
    {
        !self.has_folded && self.stack > 0
    }

    /// Whether the player may act on `table` right now.
    pub fn can_act(&self, table: &Table) -> (r: bool)
        ensures
            r == self@.can_act(table@),
    {
        if !self.is_active() {
            return false;
        }
        if self.is_all_in {
            return false;
        }
        if let Some(current) = table.current_player {
            if current == self.seat {
                return true;
            }
        }
        false
    }
}

impl Table {
    /// Whether seat `i` holds an active player.
    fn active_at_exec(&self, i: usize) -> (r: bool)
        requires
            i < 9,
        ensures
            r == self@.active_at(i as int),
    {
        match &self.players[i] {
            Some(p) => p.is_active(),
            None => false,
        }
    }

    /// The player seated at `seat`, if the seat is in range and occupied.
    pub fn get_player(&self, seat: u8) -> (r: Option<&Player>)
        ensures
            r is Some <==> self@.seat_occupied(seat as int),
            r is Some ==> (r->0)@ == self@.player_at(seat as int),
    {
        if seat as usize >= 9 {
            return None;
        }
        match &self.players[seat as usize] {
            Some(p) => Some(p),
            None => None,
        }
    }

    /// All active players with their seats, in ascending seat order.
    pub fn get_active_players(&self) -> (r: Vec<(u8, Player)>)
        ensures
            seats_of(r@) == self@.active_seats(),
            r@.len() <= 9,
            forall|k: int|
                0 <= k < r@.len() ==> self@.active_at(#[trigger] r@[k].0 as int) && r@[k].1@
                    == self@.player_at(r@[k].0 as int),
    {
        let mut r: Vec<(u8, Player)> = Vec::new();
        assert(seats_of(r@) =~= active_seats_in(self@.players, 0, 0));
        let mut i: usize = 0;
        while i < 9
            invariant
                i <= 9,
                r@.len() <= i,
                seats_of(r@) == active_seats_in(self@.players, 0, i as int),
                forall|k: int|
                    0 <= k < r@.len() ==> self@.active_at(#[trigger] r@[k].0 as int) && r@[k].1@
                        == self@.player_at(r@[k].0 as int),
            decreases 9 - i,
        {
            match &self.players[i] {
                Some(p) => {
                    if p.is_active() {
                        r.push((i as u8, *p));
                    }
                },
                None => {},
            }
            assert(seats_of(r@) =~= active_seats_in(self@.players, 0, i as int + 1));
            i = i + 1;
        }
        r
    }

    /// The number of active players.
    pub fn get_active_player_count(&self) -> (r: u8)
        ensures
            r as int == self@.active_count(),
    {
        let mut count: u8 = 0;
        let mut i: usize = 0;
        while i < 9
            invariant
                i <= 9,
                count as int == active_below(self@.players, i as int),
                count <= i,
            decreases 9 - i,
        {
            if self.active_at_exec(i) {
                count = count + 1;
            }
            i = i + 1;
        }
        count
    }

    /// The seat the player identified by `key` occupies, if any.
    pub fn find_player_seat(&self, key: &[u8; 32]) -> (r: Option<u8>)
        ensures
            r == self@.find_seat(key@),
            r is Some ==> r->0 < 9 && self@.seat_occupied(r->0 as int) && self@.player_at(
                r->0 as int,
            ).pubkey == key@,
    {
        let mut i: usize = 0;
        while i < 9
            invariant
                i <= 9,
                self@.find_seat(key@) == find_seat_from(self@.players, key@, i as int),
                self@.num_seats() == 9,
            decreases 9 - i,
        {
            match &self.players[i] {
                Some(p) => {
                    if bytes32_eq(&p.pubkey, key) {
                        return Some(i as u8);
                    }
                },
                None => {},
            }
            i = i + 1;
        }
        None
    }

    /// The current bet to match: the largest bet among active players.
    pub fn get_current_bet(&self) -> (r: u64)
        ensures
            r == self@.current_bet(),
    {
        let mut best: u64 = 0;
        let mut i: usize = 0;
        while i < 9
            invariant
                i <= 9,
                best == max_active_bet_below(self@.players, i as int),
                self@.num_seats() == 9,
            decreases 9 - i,
        {
            match &self.players[i] {
                Some(p) => {
                    if p.is_active() && p.bet > best {
                        best = p.bet;
                    }
                },
                None => {},
            }
            i = i + 1;
        }
        best
    }

    /// The sum of all active players' bets, or `None` when that sum does not
    /// fit an unsigned 64-bit amount.
    pub fn active_bet_total(&self) -> (r: Option<u64>)
        ensures
            match r {
                Some(v) => self@.active_bet_sum() <= u64::MAX && v as int == self@.active_bet_sum(),
                None => self@.active_bet_sum() > u64::MAX,
            },
    {
        let mut acc: u64 = 0;
        let mut i: usize = 0;
        while i < 9
            invariant
                i <= 9,
                acc as int == active_bet_sum_below(self@.players, i as int),
                self@.num_seats() == 9,
            decreases 9 - i,
        {
            match &self.players[i] {
                Some(p) => {
                    if p.is_active() {
                        match acc.checked_add(p.bet) {
                            Some(v) => {
                                acc = v;
                            },
                            None => {
                                proof {
                                    lemma_active_bet_sum_below_monotone(self@.players, i as int + 1, 9);
                                }
                                return None;
                            },
                        }
                    }
                },
                None => {},
            }
            i = i + 1;
        }
        Some(acc)
    }

    /// The least active seat, if any player is active.
    pub fn get_first_active_seat(&self) -> (r: Option<u8>)
        ensures
            r == self@.first_active_seat(),
    {
        let mut i: usize = 0;
        while i < 9
            invariant
                least_active_in(self@.players, 0, 9) == least_active_in(self@.players, i as int, 9),
                self@.num_seats() == 9,
            decreases 9 - i,
        {
            if self.active_at_exec(i) {
                return Some(i as u8);
            }
            i = i + 1;
        }
        None
    }

    /// The round-completion test: every active player has acted or is
    /// all-in, and every active player's bet matches the first active
    /// player's bet, all-in players exempted.
    pub fn is_round_complete(&self) -> (b: bool)
        ensures
            b == self@.round_complete(),
    {
        proof {
            lemma_least_active_in_props(self@.players, 0, 9);
        }
        let first = match self.get_first_active_seat() {
            Some(f) => f,
            None => {
                return false;
            },
        };
        let first_bet = match self.get_player(first) {
            Some(p) => p.bet,
            None => {
                return false;
            },
        };
        let mut i: usize = 0;
        while i < 9
            invariant
                i <= 9,
                self@.num_seats() == 9,
                self@.first_active_seat() == Some(first),
                first_bet == self@.player_at(first as int).bet,
                forall|k: int|
                    0 <= k < i && #[trigger] self@.active_at(k) ==> (self@.player_at(k).has_acted
                        || self@.player_at(k).is_all_in) && (self@.player_at(k).bet == first_bet
                        || self@.player_at(k).is_all_in),
            decreases 9 - i,
        {
            match &self.players[i] {
                Some(p) => {
                    if p.is_active() {
                        if !(p.has_acted || p.is_all_in) {
                            assert(self@.active_at(i as int) && !(self@.player_at(i as int).has_acted
                                || self@.player_at(i as int).is_all_in));
                            return false;
                        }
                        if !(p.bet == first_bet || p.is_all_in) {
                            assert(self@.active_at(i as int));
                            return false;
                        }
                    }
                },
                None => {},
            }
            i = i + 1;
        }
        true
    }

    /// The next active seat strictly after `from_seat`, wrapping around to
    /// the least active seat; `None` when no player is active.
    pub fn get_next_active_player(&self, from_seat: u8) -> (r: Option<u8>)
        ensures
            r == self@.next_active_seat(from_seat as int),
    {
        let mut i: usize = from_seat as usize + 1;
        while i < 9
            invariant
                from_seat as int + 1 <= i as int,
                least_active_in(self@.players, from_seat as int + 1, 9) == least_active_in(self@.players, i as int, 9),
                self@.num_seats() == 9,
            decreases 9 - i,
        {
            if self.active_at_exec(i) {
                return Some(i as u8);
            }
            i = i + 1;
        }
        let mut j: usize = 0;
        while j < 9
            invariant
                least_active_in(self@.players, from_seat as int + 1, 9) is None,
                least_active_in(self@.players, 0, 9) == least_active_in(self@.players, j as int, 9),
                self@.num_seats() == 9,
            decreases 9 - j,
        {
            if self.active_at_exec(j) {
                return Some(j as u8);
            }
            j = j + 1;
        }
        None
    }
}

/// Partial sums of active bets grow with the range: bets are non-negative.
pub proof fn lemma_active_bet_sum_below_monotone(ps: SeatSeq, i: int, j: int)
    requires
        0 <= i <= j,
    ensures
        active_bet_sum_below(ps, i) <= active_bet_sum_below(ps, j),
    decreases j - i,
{
    if i < j {
        lemma_active_bet_sum_below_monotone(ps, i, j - 1);
    }
}

/// The active-seat listing of `[0, hi)` has one entry per active seat.
pub proof fn lemma_active_seats_len(ps: SeatSeq, hi: int)
    ensures
        active_seats_in(ps, 0, hi).len() == active_below(ps, hi),
    decreases hi,
{
    if hi > 0 {
        lemma_active_seats_len(ps, hi - 1);
    }
}

/// What the identity search returns: a seat in range holding the searched
/// identity.
pub proof fn lemma_find_seat_props(ps: SeatSeq, key: Seq<u8>, lo: int)
    requires
        0 <= lo,
        ps.len() <= 256,
    ensures
        match find_seat_from(ps, key, lo) {
            Some(s) => lo <= s < ps.len() && occupied_of(ps, s as int) && player_of(
                ps,
                s as int,
            ).pubkey == key,
            None => true,
        },
    decreases ps.len() - lo,
{
    if lo >= ps.len() {
    } else if occupied_of(ps, lo) && player_of(ps, lo).pubkey == key {
    } else {
        lemma_find_seat_props(ps, key, lo + 1);
    }
}

/// What the least-active-seat search returns: the least active seat of the
/// range when one exists, and `None` exactly when the range has none.
pub proof fn lemma_least_active_in_props(ps: SeatSeq, lo: int, hi: int)
    requires
        0 <= lo,
        hi <= 256,
    ensures
        match least_active_in(ps, lo, hi) {
            Some(s) => lo <= s < hi && active_of(ps, s as int) && (forall|k: int|
                lo <= k < s ==> !active_of(ps, k)),
            None => forall|k: int| lo <= k < hi ==> !active_of(ps, k),
        },
    decreases hi - lo,
{
    if lo >= hi {
    } else if active_of(ps, lo) {
    } else {
        lemma_least_active_in_props(ps, lo + 1, hi);
    }
}

/// Notification payload: a player took a seat.
#[derive(Clone, Debug, PartialEq, Eq)]
pub struct PlayerJoinedEvent {
    pub table_id: u64,
    pub player: [u8; 32],
    pub seat: u8,
    pub stack: u64,
}

/// Notification payload: a hand began.
#[derive(Clone, Debug, PartialEq, Eq)]
pub struct GameStartedEvent {
    pub table_id: u64,
    pub dealer_position: u8,
    pub small_blind_position: u8,
    pub big_blind_position: u8,
}

/// Notification payload: a betting action was applied.
#[derive(Clone, Debug, PartialEq, Eq)]
pub struct ActionTakenEvent {
    pub table_id: u64,
    pub player: [u8; 32],
    pub seat: u8,
    pub action_type: ActionType,
    pub amount: u64,
    pub new_pot: u64,
    pub round: Round,
}

/// Notification payload: a betting street closed.
#[derive(Clone, Debug, PartialEq, Eq)]
pub struct RoundEndedEvent {
    pub table_id: u64,
    pub round: Round,
    pub community_cards: [Option<Card>; 5],
}

/// Notification payload: the pot was paid out.
#[derive(Clone, Debug, PartialEq, Eq)]
pub struct PotDistributedEvent {
    pub table_id: u64,
    pub winners: Vec<[u8; 32]>,
    pub amounts: Vec<u64>,
}

/// Notification payload: a player's hole cards were revealed.
#[derive(Clone, Debug, PartialEq, Eq)]
pub struct CardRevealedEvent {
    pub table_id: u64,
    pub player: [u8; 32],
    pub seat: u8,
    pub cards: [Card; 2],
}

} // verus!
