//! The game ledger and the five game actions: create, join, submit-setup,
//! attack and claim-victory, plus the read-only queries.
//!
//! All state is explicit: the ledger of listed/finished games, the per-game
//! play state, and the per-seat active-game index. The host resolves token
//! ownership and supplies time, randomness and funds; every rule of the
//! game itself is decided — and verified — here.

use vstd::prelude::*;

use crate::board::count_hitmark_from;
use crate::board::BATTLESHIP_SIZE;
use crate::board::CARRIER_SIZE;
use crate::board::CRUISER_SIZE;
use crate::board::DESTROYER_SIZE;
use crate::board::SUBMARINE_SIZE;
use crate::board::count_ship_from;
use crate::board::count_val_from;
use crate::board::is_ship_type;
use crate::board::lemma_ship_count_none;
use crate::board::lemma_ship_count_nonneg;
use crate::board::lemma_valid_setup_ship_count;
use crate::board::size_of;
use crate::board::spec_valid_setup;
use crate::board::valid_setup;
use crate::board::BOARD_SIZE;
use crate::crypto::base64_encode;
use crate::crypto::base64_of;
use crate::crypto::cbor_game_update_of;
use crate::notify::only_counter_bumped;
use crate::notify::send_game_updated;
use crate::notify::spec_encrypted;
use crate::notify::spec_notification_id;
use crate::notify::NotificationState;
use crate::notify::GAME_UPDATED_CHANNEL_ID;
use crate::strmap::StrMap;
use crate::util::contains_string;
use crate::util::spec_contains_string;
use crate::util::strings_distinct;

verus! {

/// The only denomination wagers may be sent in.
pub const DENOM: &'static str = "uscrt";

/// Seconds of inactivity after which the waiting player may claim victory.
pub const TIMEOUT_SEC: u64 = 45;

/// The flat deduction taken from the pot on a normal (sinking) win.
pub const GAME_RAKE: u128 = 1000000;

/// Distinguishes to a player which role they fulfil
#[derive(Clone, Copy, PartialEq, Eq, Structural, Debug)]
pub enum PlayerRole {
    /// this player initiated the game
    Initiator,
    /// this player joined the game
    Joiner,
}

impl PlayerRole {
    /// The stored byte for this role.
    pub open spec fn as_u8(self) -> u8 {
        match self {
            PlayerRole::Initiator => 0,
            PlayerRole::Joiner => 1,
        }
    }

    /// Returns u8 representation of the role.
    pub fn to_u8(&self) -> (r: u8)
        ensures
            r == self.as_u8(),
    {
        match self {
            PlayerRole::Initiator => 0,
            PlayerRole::Joiner => 1,
        }
    }
}

/// Describes the state of an initiated game (fits into u8)
#[derive(Clone, Copy, PartialEq, Eq, Structural, Debug)]
pub enum TurnState {
    /// waiting for another player to join
    WaitingForPlayer,
    /// waiting for both players to submit their setups
    WaitingForBothPlayersSetup,
    /// waiting for only the initiator to submit their setup
    WaitingForInitiatorSetup,
    /// waiting for only the joiner to submit their setup
    WaitingForJoinerSetup,
    /// waiting for the player who initiated to submit their move
    InitiatorsTurn,
    /// waiting for the player who joined to submit their move
    JoinersTurn,
    /// player who initiated won
    GameOverInitiatorWon,
    /// player who joined won
    GameOverJoinerWon,
}

impl TurnState {
    /// The stored byte for this state.
    pub open spec fn as_u8(self) -> u8 {
        match self {
            TurnState::WaitingForPlayer => 0,
            TurnState::WaitingForBothPlayersSetup => 1,
            TurnState::WaitingForInitiatorSetup => 2,
            TurnState::WaitingForJoinerSetup => 3,
            TurnState::InitiatorsTurn => 4,
            TurnState::JoinersTurn => 5,
            TurnState::GameOverInitiatorWon => 6,
            TurnState::GameOverJoinerWon => 7,
        }
    }

    /// Returns u8 representation of the turn state.
    pub fn to_u8(&self) -> (r: u8)
        ensures
            r == self.as_u8(),
    {
        match self {
            TurnState::WaitingForPlayer => 0,
            TurnState::WaitingForBothPlayersSetup => 1,
            TurnState::WaitingForInitiatorSetup => 2,
            TurnState::WaitingForJoinerSetup => 3,
            TurnState::InitiatorsTurn => 4,
            TurnState::JoinersTurn => 5,
            TurnState::GameOverInitiatorWon => 6,
            TurnState::GameOverJoinerWon => 7,
        }
    }
}

/// A native-currency amount.
#[derive(Debug)]
pub struct Coin {
    pub denom: String,
    pub amount: u128,
}

/// Used to represent a game to prospective players browsing the lobby
#[derive(Debug)]
pub struct ListedGame {
    pub game_id: String,
    pub wager: Coin,
    pub title: String,
    pub created: u64,
}

/// a listed game, as the ledger stores it
pub struct StoredListedGame {
    pub title: String,
    pub wager: u128,
    pub created: u64,
    /// token id of the seat that created the game
    pub initiator_token_id: String,
    /// owner of that token
    pub initiator_owner: String,
    pub initiator_goes_first: bool,
}

impl StoredListedGame {
    /// A field-for-field copy.
    pub fn dup(&self) -> (r: Self)
        ensures
            r == *self,
    {
        StoredListedGame {
            title: self.title.clone(),
            wager: self.wager,
            created: self.created,
            initiator_token_id: self.initiator_token_id.clone(),
            initiator_owner: self.initiator_owner.clone(),
            initiator_goes_first: self.initiator_goes_first,
        }
    }
}

/// A seat's record of its attacks on the opponent, with one hit counter per
/// ship type.
pub struct StoredAway {
    pub away_values: Vec<u8>,
    pub carrier_hits: u8,
    pub battleship_hits: u8,
    pub cruiser_hits: u8,
    pub submarine_hits: u8,
    pub destroyer_hits: u8,
}

/// All five hit counters summed.
pub open spec fn total_hits(a: StoredAway) -> int {
    a.carrier_hits + a.battleship_hits + a.cruiser_hits + a.submarine_hits + a.destroyer_hits
}

/// Same contents, cell for cell and counter for counter.
pub open spec fn away_eq(a: StoredAway, b: StoredAway) -> bool {
    &&& a.away_values@ == b.away_values@
    &&& a.carrier_hits == b.carrier_hits
    &&& a.battleship_hits == b.battleship_hits
    &&& a.cruiser_hits == b.cruiser_hits
    &&& a.submarine_hits == b.submarine_hits
    &&& a.destroyer_hits == b.destroyer_hits
}

/// The live state of one game.
pub struct PlayState {
    pub turn: TurnState,
    pub joiner_token: Option<String>,
    pub joiner_owner: Option<String>,
    pub initiator_home: Option<Vec<u8>>,
    pub joiner_home: Option<Vec<u8>>,
    pub initiator_away: Option<StoredAway>,
    pub joiner_away: Option<StoredAway>,
    pub last_move: u64,
}

pub open spec fn opt_str_view(o: Option<String>) -> Option<Seq<char>> {
    match o {
        Some(s) => Some(s@),
        None => None,
    }
}

pub open spec fn opt_bytes_view(o: Option<Vec<u8>>) -> Option<Seq<u8>> {
    match o {
        Some(v) => Some(v@),
        None => None,
    }
}

pub open spec fn opt_away_eq(a: Option<StoredAway>, b: Option<StoredAway>) -> bool {
    match (a, b) {
        (Some(x), Some(y)) => away_eq(x, y),
        (None, None) => true,
        _ => false,
    }
}

/// The whole persisted state of the game system.
pub struct GameLedger {
    /// open games, by game id
    pub listed: StrMap<StoredListedGame>,
    /// finished games, by game id
    pub finished: StrMap<StoredListedGame>,
    /// live play state, by game id
    pub play: StrMap<PlayState>,
    /// active game ids, by seat (token id)
    pub active: StrMap<Vec<String>>,
}

/// Why a game action was refused. Mirrors the failure modes of the five
/// actions; a refused action leaves the ledger untouched.
#[derive(Clone, Copy, PartialEq, Eq, Structural, Debug)]
pub enum GameError {
    /// the seat is not a participant of this game
    Unauthorized,
    /// funds were sent in a foreign denomination, or as several coins
    InvalidFunds,
    /// the amount sent is not one of the allowed wagers
    InvalidWager,
    /// no listed game has that id
    NoSuchGame,
    /// there is already a joiner for this game
    AlreadyJoined,
    /// a seat cannot play itself
    SelfPlay,
    /// the funds sent do not equal the listed wager
    WrongWager,
    /// the game's state does not permit this action
    InvalidGameState,
    /// not a valid battleship setup
    InvalidSetup,
    /// this seat already submitted a setup
    AlreadySetUp,
    /// the attacked cell index is not on the board
    CellOutOfBounds,
    /// this seat has already attacked this cell
    CellAlreadyAttacked,
    /// it is not this seat's turn to attack
    NotYourTurn,
    /// a stored cell failed to decode (storage corruption)
    InvalidCellValue,
    /// victory cannot be claimed yet
    CannotClaimYet,
}

/// The wagers a game may be created with.
pub open spec fn is_valid_wager(w: u128) -> bool {
    w == 0 || w == 1000000 || w == 2000000 || w == 5000000 || w == 10000000
}

pub fn valid_wager(w: u128) -> (r: bool)
    ensures
        r == is_valid_wager(w),
{
    w == 0 || w == 1000000 || w == 2000000 || w == 5000000 || w == 10000000
}

/// Funds are well-formed: nothing, or one coin in the right denomination.
pub open spec fn funds_denom_ok(funds: Seq<Coin>) -> bool {
    funds.len() == 0 || (funds.len() == 1 && funds[0].denom@ == DENOM@)
}

/// The wager the funds carry: the single coin's amount, or zero.
pub open spec fn funds_amount(funds: Seq<Coin>) -> u128 {
    if funds.len() == 1 {
        funds[0].amount
    } else {
        0
    }
}

/// A stored home-board byte: empty, miss, a bare ship marker, or a hit
/// ship marker (the ship byte with the hit bit).
pub open spec fn board_cell_ok(b: u8) -> bool {
    b == 0 || b == 1 || is_ship_type(b) || (130 <= b <= 134)
}

/// Undo the attack marks on one cell: a miss becomes empty again, a hit
/// ship cell becomes its bare marker.
pub open spec fn restore_cell(b: u8) -> u8 {
    if b == 1 {
        0
    } else if 130 <= b <= 134 {
        (b - 128) as u8
    } else {
        b
    }
}

/// The board as it was submitted, before any attack marked it.
pub open spec fn restore(bd: Seq<u8>) -> Seq<u8> {
    Seq::new(bd.len(), |i: int| restore_cell(bd[i]))
}

/// A stored home board: 100 known cell bytes whose un-attacked projection
/// is a valid setup.
pub open spec fn home_wf(bd: Seq<u8>) -> bool {
    &&& bd.len() == 100
    &&& forall|i: int| 0 <= i < 100 ==> board_cell_ok(#[trigger] bd[i])
    &&& spec_valid_setup(restore(bd))
}

pub open spec fn away_wf(a: StoredAway) -> bool {
    a.away_values@.len() == 100
}

/// An away record that has not yet attacked anything.
pub open spec fn away_fresh(a: StoredAway) -> bool {
    &&& away_wf(a)
    &&& total_hits(a) == 0
    &&& forall|j: int| 0 <= j < 100 ==> a.away_values@[j] == 0
}

/// An away-record byte that marks a hit: the generic hit flag, or — once
/// the struck ship has been sunk — that ship's revealed marker.
pub open spec fn is_hit_mark(a: u8) -> bool {
    a == 128 || (130 <= a <= 134)
}

/// An away record and the opponent's home board are marked in tandem:
/// each cell either still awaits an attack (empty there, empty or a bare
/// ship marker here), was missed (marked on both), or was hit (a hit mark
/// there, the hit ship marker here). A revealed mark names exactly the
/// ship that stands on the cell.
pub open spec fn records_consistent(away: Seq<u8>, opp_home: Seq<u8>) -> bool {
    forall|j: int|
        0 <= j < 100 ==> {
            let a = #[trigger] away[j];
            let h = opp_home[j];
            &&& (a == 0 || a == 1 || is_hit_mark(a))
            &&& ((a == 1) <==> (h == 1))
            &&& (is_hit_mark(a) <==> (130 <= h <= 134))
            &&& ((a == 0) <==> (h == 0 || is_ship_type(h)))
            &&& (130 <= a <= 134 ==> a == h)
        }
}

/// How many cells of an away record bear a hit mark of either kind.
pub open spec fn count_hit_marks(away: Seq<u8>, lo: int) -> int {
    count_val_from(away, 128, lo) + count_hitmark_from(away, lo)
}

/// The away record after a sunk ship of type `t` is revealed: every cell
/// where the opponent's board shows that ship hit now bears its marker.
pub open spec fn reveal_away(away: Seq<u8>, opp_home: Seq<u8>, t: u8) -> Seq<u8> {
    Seq::new(
        away.len(),
        |j: int|
            if opp_home[j] == t + 128 {
                (t + 128) as u8
            } else {
                away[j]
            },
    )
}

/// The per-game invariant, by phase: which records exist, that stored
/// boards stay valid, and that a game still in play has fewer than the
/// seventeen hits that end it.
pub open spec fn play_wf(p: PlayState) -> bool {
    &&& p.last_move <= u64::MAX - TIMEOUT_SEC
    &&& match p.turn {
        TurnState::WaitingForPlayer => {
            &&& p.joiner_token is None
            &&& p.joiner_owner is None
            &&& p.initiator_home is None
            &&& p.joiner_home is None
            &&& p.initiator_away is None
            &&& p.joiner_away is None
        },
        TurnState::WaitingForBothPlayersSetup => {
            &&& p.joiner_token is Some
            &&& p.joiner_owner is Some
            &&& p.initiator_home is None
            &&& p.joiner_home is None
            &&& p.initiator_away is None
            &&& p.joiner_away is None
        },
        TurnState::WaitingForInitiatorSetup => {
            &&& p.joiner_token is Some
            &&& p.joiner_owner is Some
            &&& p.initiator_home is None
            &&& p.initiator_away is None
            &&& p.joiner_home is Some
            &&& spec_valid_setup(p.joiner_home.unwrap()@)
            &&& p.joiner_away is Some
            &&& away_fresh(p.joiner_away.unwrap())
        },
        TurnState::WaitingForJoinerSetup => {
            &&& p.joiner_token is Some
            &&& p.joiner_owner is Some
            &&& p.joiner_home is None
            &&& p.joiner_away is None
            &&& p.initiator_home is Some
            &&& spec_valid_setup(p.initiator_home.unwrap()@)
            &&& p.initiator_away is Some
            &&& away_fresh(p.initiator_away.unwrap())
        },
        TurnState::InitiatorsTurn | TurnState::JoinersTurn => {
            &&& p.joiner_token is Some
            &&& p.joiner_owner is Some
            &&& p.initiator_home is Some
            &&& home_wf(p.initiator_home.unwrap()@)
            &&& p.joiner_home is Some
            &&& home_wf(p.joiner_home.unwrap()@)
            &&& p.initiator_away is Some
            &&& away_wf(p.initiator_away.unwrap())
            &&& total_hits(p.initiator_away.unwrap()) <= 16
            &&& p.joiner_away is Some
            &&& away_wf(p.joiner_away.unwrap())
            &&& total_hits(p.joiner_away.unwrap()) <= 16
            &&& records_consistent(
                p.initiator_away.unwrap().away_values@,
                p.joiner_home.unwrap()@,
            )
            &&& records_consistent(
                p.joiner_away.unwrap().away_values@,
                p.initiator_home.unwrap()@,
            )
            &&& total_hits(p.initiator_away.unwrap()) == count_hit_marks(
                p.initiator_away.unwrap().away_values@,
                0,
            )
            &&& total_hits(p.joiner_away.unwrap()) == count_hit_marks(
                p.joiner_away.unwrap().away_values@,
                0,
            )
        },
        TurnState::GameOverInitiatorWon | TurnState::GameOverJoinerWon => true,
    }
}

impl GameLedger {
    /// The system invariant: every live game satisfies its phase
    /// invariant, and every recorded wager is an allowed one. Game ids in
    /// the ledger are short (they are base64 of 32 random bytes).
    pub open spec fn wf(self) -> bool {
        &&& forall|g: Seq<char>|
            self.play@.contains_key(g) ==> play_wf(#[trigger] self.play@[g]) && g.len() <= 256
        &&& forall|g: Seq<char>|
            self.listed@.contains_key(g) ==> is_valid_wager((#[trigger] self.listed@[g]).wager)
                && g.len() <= 256
        &&& forall|g: Seq<char>|
            self.finished@.contains_key(g) ==> is_valid_wager((#[trigger] self.finished@[g]).wager)
        &&& forall|t: Seq<char>|
            self.active@.contains_key(t) ==> strings_distinct((#[trigger] self.active@[t])@)
    }

    pub fn new() -> (r: Self)
        ensures
            r.wf(),
            r.listed@ == Map::<Seq<char>, StoredListedGame>::empty(),
            r.finished@ == Map::<Seq<char>, StoredListedGame>::empty(),
            r.play@ == Map::<Seq<char>, PlayState>::empty(),
            r.active@ == Map::<Seq<char>, Vec<String>>::empty(),
    {
        GameLedger {
            listed: StrMap::new(),
            finished: StrMap::new(),
            play: StrMap::new(),
            active: StrMap::new(),
        }
    }
}

/// `gid` is recorded as an active game of seat `token`.
pub open spec fn spec_active(m: Map<Seq<char>, Vec<String>>, token: Seq<char>, gid: Seq<char>) -> bool {
    m.contains_key(token) && spec_contains_string(m[token]@, gid)
}

/// Record `game_id` under `token_id`'s active games. Each seat's list is
/// a set: an id already present is not recorded twice.
fn add_active(active: &mut StrMap<Vec<String>>, token_id: &String, game_id: &String)
    requires
        forall|t: Seq<char>|
            old(active)@.contains_key(t) ==> strings_distinct((#[trigger] old(active)@[t])@),
    ensures
        forall|t: Seq<char>|
            final(active)@.contains_key(t) ==> strings_distinct((#[trigger] final(active)@[t])@),
        spec_active(final(active)@, token_id@, game_id@),
        forall|t: Seq<char>, g: Seq<char>|
            spec_active(old(active)@, t, g) ==> spec_active(final(active)@, t, g),
        forall|t: Seq<char>, g: Seq<char>|
            spec_active(final(active)@, t, g) ==> spec_active(old(active)@, t, g) || (t == token_id@
                && g == game_id@),
{
    let mut list: Vec<String> = match active.take(token_id) {
        Some(l) => l,
        None => Vec::new(),
    };
    let ghost l0 = list@;
    if !contains_string(&list, game_id) {
        list.push(game_id.clone());
        proof {
            assert forall|i: int, j: int| 0 <= i < j < list@.len() implies list@[i]@
                != list@[j]@ by {
                if j == l0.len() {
                    assert(list@[i]@ == l0[i]@);
                    assert(!spec_contains_string(l0, game_id@));
                    if l0[i]@ == game_id@ {
                        assert(spec_contains_string(l0, game_id@));
                    }
                }
            }
        }
    }
    proof {
        assert forall|g: Seq<char>| spec_contains_string(l0, g) implies spec_contains_string(
            list@,
            g,
        ) by {
            let i = choose|i: int| 0 <= i < l0.len() && l0[i]@ == g;
            assert(list@[i]@ == g);
        }
        assert forall|g: Seq<char>| spec_contains_string(list@, g) implies spec_contains_string(
            l0,
            g,
        ) || g == game_id@ by {
            let i = choose|i: int| 0 <= i < list@.len() && list@[i]@ == g;
            if i < l0.len() {
                assert(l0[i]@ == g);
            }
        }
        assert(spec_contains_string(list@, game_id@)) by {
            if !spec_contains_string(l0, game_id@) {
                assert(list@[l0.len() as int]@ == game_id@);
            } else {
                let i = choose|i: int| 0 <= i < l0.len() && l0[i]@ == game_id@;
                assert(list@[i]@ == game_id@);
            }
        }
    }
    active.insert(token_id.clone(), list);
}

/// Strike `game_id` from `token_id`'s active games.
fn remove_active(active: &mut StrMap<Vec<String>>, token_id: &String, game_id: &String)
    requires
        forall|t: Seq<char>|
            old(active)@.contains_key(t) ==> strings_distinct((#[trigger] old(active)@[t])@),
    ensures
        forall|t: Seq<char>|
            final(active)@.contains_key(t) ==> strings_distinct((#[trigger] final(active)@[t])@),
        forall|t: Seq<char>, g: Seq<char>|
            spec_active(final(active)@, t, g) <==> (spec_active(old(active)@, t, g) && !(t
                == token_id@ && g == game_id@)),
{
    let list: Vec<String> = match active.take(token_id) {
        Some(l) => l,
        None => {
            proof {
                assert forall|t: Seq<char>, g: Seq<char>|
                    spec_active(active@, t, g) <==> (spec_active(old(active)@, t, g) && !(t
                        == token_id@ && g == game_id@)) by {}
            }
            return ;
        },
    };
    let mut kept: Vec<String> = Vec::new();
    let n = list.len();
    for i in 0..n
        invariant
            n == list@.len(),
            strings_distinct(list@),
            strings_distinct(kept@),
            forall|m: int, q: int|
                0 <= m < kept@.len() && i <= q < n ==> (#[trigger] kept@[m])@ != (
                #[trigger] list@[q])@,
            forall|g: Seq<char>|
                spec_contains_string(kept@, g) ==> spec_contains_string(list@, g) && g
                    != game_id@,
            forall|j: int|
                0 <= j < i && (#[trigger] list@[j])@ != game_id@ ==> spec_contains_string(
                    kept@,
                    list@[j]@,
                ),
    {
        let ghost k0 = kept@;
        let pushed = !list[i].eq(game_id);
        if pushed {
            kept.push(list[i].clone());
        }
        proof {
            assert forall|m: int, q: int|
                0 <= m < kept@.len() && i + 1 <= q < n implies (#[trigger] kept@[m])@ != (
            #[trigger] list@[q])@ by {
                if m < k0.len() {
                    assert(k0[m]@ != list@[q]@);
                } else {
                    assert(kept@[m]@ == list@[i as int]@);
                    assert(list@[i as int]@ != list@[q]@);
                }
            }
            assert forall|m1: int, m2: int| 0 <= m1 < m2 < kept@.len() implies kept@[m1]@
                != kept@[m2]@ by {
                if m2 == k0.len() {
                    assert(kept@[m2]@ == list@[i as int]@);
                    assert(k0[m1]@ != list@[i as int]@);
                }
            }
        }
        proof {
            assert forall|g: Seq<char>| spec_contains_string(kept@, g) implies
                spec_contains_string(list@, g) && g != game_id@ by {
                let j = choose|j: int| 0 <= j < kept@.len() && (#[trigger] kept@[j])@ == g;
                if j < k0.len() {
                    assert(k0[j]@ == g);
                } else {
                    assert(g == list@[i as int]@);
                }
            }
            assert forall|j: int|
                0 <= j < i + 1 && (#[trigger] list@[j])@ != game_id@ implies spec_contains_string(
                    kept@,
                    list@[j]@,
                ) by {
                if j < i {
                    let m = choose|m: int| 0 <= m < k0.len() && (#[trigger] k0[m])@ == list@[j]@;
                    assert(kept@[m]@ == list@[j]@);
                } else {
                    assert(pushed);
                    assert(kept@[k0.len() as int]@ == list@[j]@);
                }
            }
        }
    }
    active.insert(token_id.clone(), kept);
    proof {
        assert forall|t: Seq<char>, g: Seq<char>| spec_active(active@, t, g) implies (spec_active(
            old(active)@,
            t,
            g,
        ) && !(t == token_id@ && g == game_id@)) by {
            if t == token_id@ {
                assert(spec_contains_string(kept@, g));
                assert(spec_contains_string(list@, g) && g != game_id@);
            }
        }
        assert forall|t: Seq<char>, g: Seq<char>|
            spec_active(old(active)@, t, g) && !(t == token_id@ && g == game_id@) implies
            spec_active(active@, t, g) by {
            if t == token_id@ {
                assert(spec_contains_string(list@, g));
                let j = choose|j: int| 0 <= j < list@.len() && (#[trigger] list@[j])@ == g;
                assert(spec_contains_string(kept@, g));
            }
        }
    }
}

/// Does the string equal the wager denomination?
fn is_denom(d: &String) -> (r: bool)
    ensures
        r == (d@ == DENOM@),
{
    let denom: String = DENOM.to_owned();
    d.eq(&denom)
}

/// Has this seat sunk the whole fleet? True exactly when the five hit
/// counters sum to the seventeen cells the fleet occupies.
pub fn has_won(away: &StoredAway) -> (r: bool)
    ensures
        r == (total_hits(*away) >= 17),
{
    let total: u32 = away.carrier_hits as u32 + away.battleship_hits as u32 + away.cruiser_hits
        as u32 + away.submarine_hits as u32 + away.destroyer_hits as u32;
    total >= 17
}

/// Create a new listed game. The caller has already resolved the sender's
/// authority over `token_id` (yielding `token_owner`) and drawn the
/// randomness: one byte for the first-mover coin flip and 32 bytes of game
/// id entropy.
pub fn new_game(
    ledger: &mut GameLedger,
    now: u64,
    token_id: String,
    token_owner: String,
    title: String,
    funds: &Vec<Coin>,
    coin_flip: u8,
    id_entropy: &Vec<u8>,
) -> (r: Result<ListedGame, GameError>)
    requires
        old(ledger).wf(),
        now <= u64::MAX - TIMEOUT_SEC,
        id_entropy@.len() == 32,
    ensures
        final(ledger).wf(),
        match r {
            Ok(game) => {
                let gid = base64_of(id_entropy@);
                &&& funds_denom_ok(funds@)
                &&& is_valid_wager(funds_amount(funds@))
                &&& game.game_id@ == gid
                &&& game.title@ == title@
                &&& game.created == now
                &&& game.wager.denom@ == DENOM@
                &&& game.wager.amount == funds_amount(funds@)
                &&& final(ledger).listed@.contains_key(gid)
                &&& final(ledger).listed@[gid].title@ == title@
                &&& final(ledger).listed@[gid].wager == funds_amount(funds@)
                &&& final(ledger).listed@[gid].created == now
                &&& final(ledger).listed@[gid].initiator_token_id@ == token_id@
                &&& final(ledger).listed@[gid].initiator_owner@ == token_owner@
                &&& final(ledger).listed@[gid].initiator_goes_first == ((coin_flip & 2) == 0)
                &&& final(ledger).listed@.remove(gid) == old(ledger).listed@.remove(gid)
                &&& final(ledger).play@.contains_key(gid)
                &&& final(ledger).play@[gid].turn == TurnState::WaitingForPlayer
                &&& final(ledger).play@[gid].joiner_token is None
                &&& final(ledger).play@[gid].joiner_owner is None
                &&& final(ledger).play@[gid].initiator_home is None
                &&& final(ledger).play@[gid].joiner_home is None
                &&& final(ledger).play@[gid].initiator_away is None
                &&& final(ledger).play@[gid].joiner_away is None
                &&& final(ledger).play@[gid].last_move == now
                &&& final(ledger).play@.remove(gid) == old(ledger).play@.remove(gid)
                &&& final(ledger).finished@ == old(ledger).finished@
                &&& spec_active(final(ledger).active@, token_id@, gid)
                &&& forall|t: Seq<char>, g: Seq<char>|
                    spec_active(old(ledger).active@, t, g) ==> spec_active(
                        final(ledger).active@,
                        t,
                        g,
                    )
                &&& forall|t: Seq<char>, g: Seq<char>|
                    spec_active(final(ledger).active@, t, g) ==> spec_active(
                        old(ledger).active@,
                        t,
                        g,
                    ) || (t == token_id@ && g == gid)
            },
            Err(e) => {
                &&& *final(ledger) == *old(ledger)
                &&& (e == GameError::InvalidFunds || e == GameError::InvalidWager)
                &&& (e == GameError::InvalidFunds <==> !funds_denom_ok(funds@))
                &&& (e == GameError::InvalidWager <==> funds_denom_ok(funds@) && !is_valid_wager(
                    funds_amount(funds@),
                ))
            },
        },
{
    let mut wager: u128 = 0;
    if funds.len() == 1 {
        if !is_denom(&funds[0].denom) {
            return Err(GameError::InvalidFunds);
        }
        wager = funds[0].amount;
        if !valid_wager(wager) {
            return Err(GameError::InvalidWager);
        }
    } else if funds.len() != 0 {
        return Err(GameError::InvalidFunds);
    }

    // coin flip to see who goes first; unguessable game id
    let initiator_goes_first = coin_flip & 2 == 0;
    let game_id = base64_encode(id_entropy.as_slice());

    ledger.listed.insert(
        game_id.clone(),
        StoredListedGame {
            title: title.clone(),
            wager,
            created: now,
            initiator_token_id: token_id.clone(),
            initiator_owner: token_owner,
            initiator_goes_first,
        },
    );
    ledger.play.insert(
        game_id.clone(),
        PlayState {
            turn: TurnState::WaitingForPlayer,
            joiner_token: None,
            joiner_owner: None,
            initiator_home: None,
            joiner_home: None,
            initiator_away: None,
            joiner_away: None,
            last_move: now,
        },
    );
    add_active(&mut ledger.active, &token_id, &game_id);

    proof {
        assert(game_id@.len() == 44);
        assert forall|g: Seq<char>| ledger.play@.contains_key(g) implies play_wf(
            #[trigger] ledger.play@[g],
        ) && g.len() <= 256 by {
            if g != game_id@ {
                assert(old(ledger).play@.contains_key(g));
            }
        }
        assert forall|g: Seq<char>| ledger.listed@.contains_key(g) implies is_valid_wager(
            (#[trigger] ledger.listed@[g]).wager,
        ) && g.len() <= 256 by {
            if g != game_id@ {
                assert(old(ledger).listed@.contains_key(g));
            }
        }
    }

    Ok(
        ListedGame {
            game_id,
            wager: Coin { denom: DENOM.to_owned(), amount: wager },
            title,
            created: now,
        },
    )
}

/// The all-empty board placeholder sent in notifications before a board
/// exists.
pub open spec fn empty_board_seq() -> Seq<u8> {
    Seq::new(100, |i: int| 0u8)
}

/// A board of 100 empty cells.
pub fn empty_board() -> (r: Vec<u8>)
    ensures
        r@ == empty_board_seq(),
{
    let mut v: Vec<u8> = Vec::new();
    let mut i: usize = 0;
    while i < 100
        invariant
            i <= 100,
            v@.len() == i,
            forall|j: int| 0 <= j < i ==> v@[j] == 0u8,
        decreases 100 - i,
    {
        v.push(0);
        i = i + 1;
    }
    proof {
        assert(v@ =~= empty_board_seq());
    }
    v
}

/// Join a listed game that is waiting for an opponent. The caller has
/// resolved the sender's authority over `token_id` (yielding
/// `token_owner`). On success the initiator is notified on the
/// `game_updated` channel with an empty board placeholder and the new
/// state, and the notification counter advances once.
pub fn join_game(
    ledger: &mut GameLedger,
    notify: &mut NotificationState,
    now: u64,
    block_height: u64,
    sender: &String,
    token_id: String,
    token_owner: String,
    game_id: String,
    funds: &Vec<Coin>,
) -> (r: Result<(Vec<u8>, Vec<u8>), GameError>)
    requires
        old(ledger).wf(),
        old(notify).wf(),
        now <= u64::MAX - TIMEOUT_SEC,
    ensures
        final(ledger).wf(),
        final(notify).wf(),
        match r {
            Ok(note) => {
                let gid = game_id@;
                let owner = old(ledger).listed@[gid].initiator_owner@;
                &&& old(ledger).listed@.contains_key(gid)
                &&& old(ledger).play@.contains_key(gid)
                &&& old(ledger).play@[gid].joiner_token is None
                &&& old(ledger).play@[gid].turn == TurnState::WaitingForPlayer
                &&& token_id@ != old(ledger).listed@[gid].initiator_token_id@
                &&& funds_denom_ok(funds@)
                &&& funds_amount(funds@) == old(ledger).listed@[gid].wager
                &&& final(ledger).listed@ == old(ledger).listed@
                &&& final(ledger).finished@ == old(ledger).finished@
                &&& final(ledger).play@.contains_key(gid)
                &&& final(ledger).play@[gid].turn == TurnState::WaitingForBothPlayersSetup
                &&& opt_str_view(final(ledger).play@[gid].joiner_token) == Some(token_id@)
                &&& opt_str_view(final(ledger).play@[gid].joiner_owner) == Some(token_owner@)
                &&& final(ledger).play@[gid].initiator_home is None
                &&& final(ledger).play@[gid].joiner_home is None
                &&& final(ledger).play@[gid].initiator_away is None
                &&& final(ledger).play@[gid].joiner_away is None
                &&& final(ledger).play@[gid].last_move == now
                &&& final(ledger).play@.remove(gid) == old(ledger).play@.remove(gid)
                &&& spec_active(final(ledger).active@, token_id@, gid)
                &&& forall|t: Seq<char>, g: Seq<char>|
                    spec_active(old(ledger).active@, t, g) ==> spec_active(
                        final(ledger).active@,
                        t,
                        g,
                    )
                &&& forall|t: Seq<char>, g: Seq<char>|
                    spec_active(final(ledger).active@, t, g) ==> spec_active(
                        old(ledger).active@,
                        t,
                        g,
                    ) || (t == token_id@ && g == gid)
                &&& note.0@ == spec_notification_id(*old(notify), owner, GAME_UPDATED_CHANNEL_ID@)
                &&& note.1@ == spec_encrypted(
                    *old(notify),
                    block_height,
                    sender@,
                    owner,
                    GAME_UPDATED_CHANNEL_ID@,
                    cbor_game_update_of(gid, empty_board_seq(), 1),
                )
                &&& only_counter_bumped(
                    *old(notify),
                    *final(notify),
                    GAME_UPDATED_CHANNEL_ID@,
                    owner,
                )
            },
            Err(e) => {
                let gid = game_id@;
                let listed = old(ledger).listed@.contains_key(gid);
                let joined = listed && old(ledger).play@.contains_key(gid) && old(
                    ledger,
                ).play@[gid].joiner_token is Some;
                let selfplay = listed && !joined && token_id@ == old(
                    ledger,
                ).listed@[gid].initiator_token_id@;
                let badfunds = listed && !joined && !selfplay && !funds_denom_ok(funds@);
                let badwager = listed && !joined && !selfplay && funds_denom_ok(funds@)
                    && funds_amount(funds@) != old(ledger).listed@[gid].wager;
                &&& *final(ledger) == *old(ledger)
                &&& *final(notify) == *old(notify)
                &&& (e == GameError::NoSuchGame || e == GameError::AlreadyJoined || e
                    == GameError::SelfPlay || e == GameError::InvalidFunds || e
                    == GameError::WrongWager || e == GameError::InvalidGameState)
                &&& (e == GameError::NoSuchGame <==> !listed)
                &&& (e == GameError::AlreadyJoined <==> joined)
                &&& (e == GameError::SelfPlay <==> selfplay)
                &&& (e == GameError::InvalidFunds <==> badfunds)
                &&& (e == GameError::WrongWager <==> badwager)
                &&& (e == GameError::InvalidGameState <==> listed && !joined && !selfplay
                    && funds_denom_ok(funds@) && funds_amount(funds@) == old(
                    ledger,
                ).listed@[gid].wager && (!old(ledger).play@.contains_key(gid) || old(
                    ledger,
                ).play@[gid].turn != TurnState::WaitingForPlayer))
            },
        },
{
    // check if game id exists
    let listed_game = match ledger.listed.get(&game_id) {
        None => {
            return Err(GameError::NoSuchGame);
        },
        Some(g) => g.dup(),
    };

    // check if there is already a joiner
    let has_joiner = match ledger.play.get(&game_id) {
        Some(p) => p.joiner_token.is_some(),
        None => false,
    };
    if has_joiner {
        return Err(GameError::AlreadyJoined);
    }

    if token_id.eq(&listed_game.initiator_token_id) {
        return Err(GameError::SelfPlay);
    }

    // check that wager equals initiator's
    if funds.len() == 0 {
        if listed_game.wager != 0 {
            return Err(GameError::WrongWager);
        }
    } else if funds.len() == 1 {
        if !is_denom(&funds[0].denom) {
            return Err(GameError::InvalidFunds);
        }
        if funds[0].amount != listed_game.wager {
            return Err(GameError::WrongWager);
        }
    } else {
        return Err(GameError::InvalidFunds);
    }

    let state_ok = match ledger.play.get(&game_id) {
        Some(p) => p.turn == TurnState::WaitingForPlayer,
        None => false,
    };
    if !state_ok {
        return Err(GameError::InvalidGameState);
    }

    let mut play = ledger.play.take(&game_id).unwrap();
    play.joiner_token = Some(token_id.clone());
    play.joiner_owner = Some(token_owner);
    play.turn = TurnState::WaitingForBothPlayersSetup;
    play.last_move = now;
    ledger.play.insert(game_id.clone(), play);

    add_active(&mut ledger.active, &token_id, &game_id);

    proof {
        assert forall|g: Seq<char>| ledger.play@.contains_key(g) implies play_wf(
            #[trigger] ledger.play@[g],
        ) && g.len() <= 256 by {
            if g != game_id@ {
                assert(old(ledger).play@.contains_key(g));
            }
        }
    }

    let placeholder = empty_board();
    let note = send_game_updated(
        notify,
        &listed_game.initiator_owner,
        block_height,
        sender,
        &game_id,
        &placeholder,
        1,
    );
    Ok(note)
}

/// A freshly submitted board is a well-formed stored home board: no cell
/// is yet marked, so the restored projection is the board itself.
proof fn lemma_setup_home_wf(b: Seq<u8>)
    requires
        spec_valid_setup(b),
    ensures
        home_wf(b),
{
    assert forall|i: int| 0 <= i < 100 implies board_cell_ok(#[trigger] b[i]) by {
        assert(b[i] == 0 || is_ship_type(b[i]));
    }
    assert(restore(b) =~= b);
}

/// An away record that has attacked nothing counts no hit marks.
proof fn lemma_fresh_count(a: StoredAway, lo: int)
    requires
        away_fresh(a),
        0 <= lo,
    ensures
        count_hit_marks(a.away_values@, lo) == 0,
    decreases 100 - lo,
{
    if lo < 100 {
        lemma_fresh_count(a, lo + 1);
    }
}

/// Rewriting one cell moves a value count by the difference at that cell.
proof fn lemma_count_val_update(s: Seq<u8>, v: u8, cell: int, nv: u8, lo: int)
    requires
        s.len() == 100,
        0 <= cell < 100,
        0 <= lo,
    ensures
        count_val_from(s.update(cell, nv), v, lo) == count_val_from(s, v, lo) + (
        if lo <= cell && nv == v {
            1int
        } else {
            0int
        }) - (if lo <= cell && s[cell] == v {
            1int
        } else {
            0int
        }),
    decreases 100 - lo,
{
    if lo < 100 {
        lemma_count_val_update(s, v, cell, nv, lo + 1);
    }
}

/// Rewriting one cell moves the revealed-marker count by the difference
/// at that cell.
proof fn lemma_count_hitmark_update(s: Seq<u8>, cell: int, nv: u8, lo: int)
    requires
        s.len() == 100,
        0 <= cell < 100,
        0 <= lo,
    ensures
        count_hitmark_from(s.update(cell, nv), lo) == count_hitmark_from(s, lo) + (
        if lo <= cell && 130 <= nv <= 134 {
            1int
        } else {
            0int
        }) - (if lo <= cell && 130 <= s[cell] <= 134 {
            1int
        } else {
            0int
        }),
    decreases 100 - lo,
{
    if lo < 100 {
        lemma_count_hitmark_update(s, cell, nv, lo + 1);
    }
}

/// In consistent records the attacker's hit marks and the opponent's hit
/// markers count the same cells.
proof fn lemma_consistent_hitmarks(a: Seq<u8>, h: Seq<u8>, lo: int)
    requires
        records_consistent(a, h),
        0 <= lo,
    ensures
        count_hit_marks(a, lo) == count_hitmark_from(h, lo),
    decreases 100 - lo,
{
    if lo < 100 {
        lemma_consistent_hitmarks(a, h, lo + 1);
    }
}

/// Revealing a sunk ship rewrites generic hit flags into revealed
/// markers: no hit mark appears or disappears.
proof fn lemma_reveal_counts(a: Seq<u8>, h: Seq<u8>, t: u8, lo: int)
    requires
        records_consistent(a, h),
        a.len() == 100,
        h.len() == 100,
        is_ship_type(t),
        0 <= lo,
    ensures
        count_hit_marks(reveal_away(a, h, t), lo) == count_hit_marks(a, lo),
    decreases 100 - lo,
{
    if lo < 100 {
        lemma_reveal_counts(a, h, t, lo + 1);
        if h[lo] == t + 128 {
            assert(is_hit_mark(a[lo]));
        }
    }
}

/// Revealing a sunk ship keeps the records consistent: only cells whose
/// home marker names the sunk ship change, and they gain exactly that
/// marker.
proof fn lemma_reveal_consistent(a: Seq<u8>, h: Seq<u8>, t: u8)
    requires
        records_consistent(a, h),
        a.len() == 100,
        h.len() == 100,
        is_ship_type(t),
    ensures
        records_consistent(reveal_away(a, h, t), h),
{
    let r = reveal_away(a, h, t);
    assert forall|j: int| 0 <= j < 100 implies {
        let av = #[trigger] r[j];
        let hv = h[j];
        &&& (av == 0 || av == 1 || is_hit_mark(av))
        &&& ((av == 1) <==> (hv == 1))
        &&& (is_hit_mark(av) <==> (130 <= hv <= 134))
        &&& ((av == 0) <==> (hv == 0 || is_ship_type(hv)))
        &&& (130 <= av <= 134 ==> av == hv)
    } by {
        if h[j] == t + 128 {
            assert(r[j] == (t + 128) as u8);
        } else {
            assert(r[j] == a[j]);
        }
    }
}

/// The un-attacked projection holds a ship marker wherever the board
/// holds one, bare or hit.
proof fn lemma_restore_ship_split(h: Seq<u8>, lo: int)
    requires
        h.len() == 100,
        0 <= lo,
    ensures
        count_ship_from(restore(h), lo) == count_ship_from(h, lo) + count_hitmark_from(h, lo),
    decreases 100 - lo,
{
    if lo < 100 {
        lemma_restore_ship_split(h, lo + 1);
        assert(restore(h)[lo] == restore_cell(h[lo]));
    }
}

/// A game can only be won by sinking the whole fleet: when a seat's hit
/// counters reach seventeen against a well-formed board they are
/// consistent with, not one un-hit ship cell remains on that board. The
/// ledger invariant supplies every hypothesis for both live records of
/// every game in play.
pub proof fn lemma_win_sinks_fleet(a: StoredAway, h: Seq<u8>)
    requires
        away_wf(a),
        h.len() == 100,
        home_wf(h),
        records_consistent(a.away_values@, h),
        total_hits(a) == count_hit_marks(a.away_values@, 0),
        total_hits(a) >= 17,
    ensures
        forall|j: int| 0 <= j < 100 ==> !is_ship_type(#[trigger] h[j]),
{
    lemma_consistent_hitmarks(a.away_values@, h, 0);
    lemma_restore_ship_split(h, 0);
    lemma_valid_setup_ship_count(restore(h));
    lemma_ship_count_nonneg(h, 0);
    lemma_ship_count_none(h, 0);
}

/// A fresh away record is consistent with any pristine valid board: no
/// cell on either side bears an attack mark yet.
proof fn lemma_fresh_consistent(a: StoredAway, h: Seq<u8>)
    requires
        away_fresh(a),
        spec_valid_setup(h),
    ensures
        records_consistent(a.away_values@, h),
{
    assert forall|j: int| 0 <= j < 100 implies {
        let av = #[trigger] a.away_values@[j];
        let hv = h[j];
        &&& (av == 0 || av == 1 || is_hit_mark(av))
        &&& ((av == 1) <==> (hv == 1))
        &&& (is_hit_mark(av) <==> (130 <= hv <= 134))
        &&& ((av == 0) <==> (hv == 0 || is_ship_type(hv)))
        &&& (130 <= av <= 134 ==> av == hv)
    } by {
        assert(a.away_values@[j] == 0);
        assert(h[j] == 0 || is_ship_type(h[j]));
    }
}

/// Marking one attacked cell on both records in tandem keeps them
/// consistent.
proof fn lemma_attack_consistent(
    a0: Seq<u8>,
    a1: Seq<u8>,
    h0: Seq<u8>,
    h1: Seq<u8>,
    cell: int,
    av: u8,
    hv: u8,
)
    requires
        records_consistent(a0, h0),
        a0.len() == 100,
        h0.len() == 100,
        0 <= cell < 100,
        a0[cell] == 0,
        a1 == a0.update(cell, av),
        h1 == h0.update(cell, hv),
        (av == 1 && hv == 1) || (av == 128 && 130 <= hv <= 134),
    ensures
        records_consistent(a1, h1),
{
    assert forall|j: int| 0 <= j < 100 implies {
        let a = #[trigger] a1[j];
        let h = h1[j];
        &&& (a == 0 || a == 1 || is_hit_mark(a))
        &&& ((a == 1) <==> (h == 1))
        &&& (is_hit_mark(a) <==> (130 <= h <= 134))
        &&& ((a == 0) <==> (h == 0 || is_ship_type(h)))
        &&& (130 <= a <= 134 ==> a == h)
    } by {
        if j != cell {
            assert(a1[j] == a0[j]);
            assert(h1[j] == h0[j]);
            assert(a0[j] == 0 || a0[j] == 1 || is_hit_mark(a0[j]));
        }
    }
}

/// Which turn states allow this seat to submit a setup, and what follows.
pub open spec fn setup_next_turn(turn: TurnState, is_init: bool, goes_first: bool) -> Option<
    TurnState,
> {
    let first_mover = if goes_first {
        TurnState::InitiatorsTurn
    } else {
        TurnState::JoinersTurn
    };
    if is_init {
        if turn == TurnState::WaitingForBothPlayersSetup {
            Some(TurnState::WaitingForJoinerSetup)
        } else if turn == TurnState::WaitingForInitiatorSetup {
            Some(first_mover)
        } else {
            None
        }
    } else {
        if turn == TurnState::WaitingForBothPlayersSetup {
            Some(TurnState::WaitingForInitiatorSetup)
        } else if turn == TurnState::WaitingForJoinerSetup {
            Some(first_mover)
        } else {
            None
        }
    }
}

/// Submit a seat's board layout. The board must be a valid setup; the
/// seat must be a participant whose setup is still outstanding. The
/// opponent is notified with the board they themselves stand on (their
/// own home view, or an empty placeholder before they have set up) and
/// the new turn state.
pub fn submit_setup(
    ledger: &mut GameLedger,
    notify: &mut NotificationState,
    now: u64,
    block_height: u64,
    sender: &String,
    token_id: String,
    game_id: String,
    cells: Vec<u8>,
) -> (r: Result<(Vec<u8>, Vec<u8>), GameError>)
    requires
        old(ledger).wf(),
        old(notify).wf(),
        now <= u64::MAX - TIMEOUT_SEC,
    ensures
        final(ledger).wf(),
        final(notify).wf(),
        match r {
            Ok(note) => {
                let gid = game_id@;
                let p0 = old(ledger).play@[gid];
                let is_init = token_id@ == old(ledger).listed@[gid].initiator_token_id@;
                let goes_first = old(ledger).listed@[gid].initiator_goes_first;
                let new_turn = setup_next_turn(p0.turn, is_init, goes_first).unwrap();
                let owner = if is_init {
                    p0.joiner_owner.unwrap()@
                } else {
                    old(ledger).listed@[gid].initiator_owner@
                };
                let sent_board = if is_init {
                    match opt_bytes_view(p0.joiner_home) {
                        Some(b) => b,
                        None => empty_board_seq(),
                    }
                } else {
                    match opt_bytes_view(p0.initiator_home) {
                        Some(b) => b,
                        None => empty_board_seq(),
                    }
                };
                &&& spec_valid_setup(cells@)
                &&& old(ledger).listed@.contains_key(gid)
                &&& old(ledger).play@.contains_key(gid)
                &&& (is_init || (p0.joiner_token is Some && p0.joiner_token.unwrap()@
                    == token_id@))
                &&& setup_next_turn(p0.turn, is_init, goes_first) is Some
                &&& final(ledger).listed@ == old(ledger).listed@
                &&& final(ledger).finished@ == old(ledger).finished@
                &&& final(ledger).active@ == old(ledger).active@
                &&& final(ledger).play@.contains_key(gid)
                &&& final(ledger).play@.remove(gid) == old(ledger).play@.remove(gid)
                &&& {
                    let p1 = final(ledger).play@[gid];
                    &&& p1.turn == new_turn
                    &&& p1.last_move == now
                    &&& opt_str_view(p1.joiner_token) == opt_str_view(p0.joiner_token)
                    &&& opt_str_view(p1.joiner_owner) == opt_str_view(p0.joiner_owner)
                    &&& (if is_init {
                        &&& opt_bytes_view(p1.initiator_home) == Some(cells@)
                        &&& p1.initiator_away is Some
                        &&& p1.initiator_away.unwrap().away_values@ == empty_board_seq()
                        &&& total_hits(p1.initiator_away.unwrap()) == 0
                        &&& opt_bytes_view(p1.joiner_home) == opt_bytes_view(p0.joiner_home)
                        &&& opt_away_eq(p1.joiner_away, p0.joiner_away)
                    } else {
                        &&& opt_bytes_view(p1.joiner_home) == Some(cells@)
                        &&& p1.joiner_away is Some
                        &&& p1.joiner_away.unwrap().away_values@ == empty_board_seq()
                        &&& total_hits(p1.joiner_away.unwrap()) == 0
                        &&& opt_bytes_view(p1.initiator_home) == opt_bytes_view(p0.initiator_home)
                        &&& opt_away_eq(p1.initiator_away, p0.initiator_away)
                    })
                }
                &&& note.0@ == spec_notification_id(*old(notify), owner, GAME_UPDATED_CHANNEL_ID@)
                &&& note.1@ == spec_encrypted(
                    *old(notify),
                    block_height,
                    sender@,
                    owner,
                    GAME_UPDATED_CHANNEL_ID@,
                    cbor_game_update_of(gid, sent_board, new_turn.as_u8()),
                )
                &&& only_counter_bumped(
                    *old(notify),
                    *final(notify),
                    GAME_UPDATED_CHANNEL_ID@,
                    owner,
                )
            },
            Err(e) => {
                let gid = game_id@;
                let valid = spec_valid_setup(cells@);
                let listed = valid && old(ledger).listed@.contains_key(gid);
                let is_init = token_id@ == old(ledger).listed@[gid].initiator_token_id@;
                let joiner_match = old(ledger).play@.contains_key(gid) && old(
                    ledger,
                ).play@[gid].joiner_token is Some && old(ledger).play@[gid].joiner_token.unwrap()@
                    == token_id@;
                let goes_first = old(ledger).listed@[gid].initiator_goes_first;
                &&& *final(ledger) == *old(ledger)
                &&& *final(notify) == *old(notify)
                &&& (e == GameError::InvalidSetup || e == GameError::NoSuchGame || e
                    == GameError::Unauthorized || e == GameError::InvalidGameState || e
                    == GameError::AlreadySetUp)
                &&& (e == GameError::InvalidSetup <==> !valid)
                &&& (e == GameError::NoSuchGame <==> valid && !old(ledger).listed@.contains_key(
                    gid,
                ))
                &&& (e == GameError::Unauthorized <==> listed && !is_init && !joiner_match)
                &&& (e == GameError::InvalidGameState <==> listed && is_init && !old(
                    ledger,
                ).play@.contains_key(gid))
                &&& (e == GameError::AlreadySetUp <==> listed && (is_init || joiner_match) && old(
                    ledger,
                ).play@.contains_key(gid) && setup_next_turn(
                    old(ledger).play@[gid].turn,
                    is_init,
                    goes_first,
                ) is None)
            },
        },
{
    if !valid_setup(&cells) {
        return Err(GameError::InvalidSetup);
    }

    // check if game id exists
    let listed_game = match ledger.listed.get(&game_id) {
        None => {
            return Err(GameError::NoSuchGame);
        },
        Some(g) => g.dup(),
    };
    let first_mover_turn = if listed_game.initiator_goes_first {
        TurnState::InitiatorsTurn
    } else {
        TurnState::JoinersTurn
    };

    // identify if initiator or joiner (or neither)
    let initiator: bool;
    if token_id.eq(&listed_game.initiator_token_id) {
        initiator = true;
    } else {
        let joiner_match = match ledger.play.get(&game_id) {
            Some(p) => match &p.joiner_token {
                Some(j) => j.eq(&token_id),
                None => false,
            },
            None => false,
        };
        if joiner_match {
            initiator = false;
        } else {
            return Err(GameError::Unauthorized);
        }
    }

    let turn0 = match ledger.play.get(&game_id) {
        Some(p) => p.turn,
        None => {
            return Err(GameError::InvalidGameState);
        },
    };

    let new_turn: TurnState;
    if initiator {
        if turn0 == TurnState::WaitingForBothPlayersSetup {
            new_turn = TurnState::WaitingForJoinerSetup;
        } else if turn0 == TurnState::WaitingForInitiatorSetup {
            new_turn = first_mover_turn;
        } else {
            return Err(GameError::AlreadySetUp);
        }
    } else {
        if turn0 == TurnState::WaitingForBothPlayersSetup {
            new_turn = TurnState::WaitingForInitiatorSetup;
        } else if turn0 == TurnState::WaitingForJoinerSetup {
            new_turn = first_mover_turn;
        } else {
            return Err(GameError::AlreadySetUp);
        }
    }

    proof {
        lemma_setup_home_wf(cells@);
    }

    let mut play = ledger.play.take(&game_id).unwrap();
    let fresh_away = StoredAway {
        away_values: empty_board(),
        carrier_hits: 0,
        battleship_hits: 0,
        cruiser_hits: 0,
        submarine_hits: 0,
        destroyer_hits: 0,
    };

    let opponent_owner: String;
    let opponent_home: Vec<u8>;
    if initiator {
        play.initiator_home = Some(cells);
        play.initiator_away = Some(fresh_away);
        opponent_owner = play.joiner_owner.as_ref().unwrap().clone();
        opponent_home = match &play.joiner_home {
            Some(h) => crate::util::dup_bytes(h),
            None => empty_board(),
        };
    } else {
        play.joiner_home = Some(cells);
        play.joiner_away = Some(fresh_away);
        opponent_owner = listed_game.initiator_owner.clone();
        opponent_home = match &play.initiator_home {
            Some(h) => crate::util::dup_bytes(h),
            None => empty_board(),
        };
    }
    play.turn = new_turn;
    play.last_move = now;
    proof {
        match play.turn {
            TurnState::InitiatorsTurn | TurnState::JoinersTurn => {
                lemma_setup_home_wf(play.initiator_home.unwrap()@);
                lemma_setup_home_wf(play.joiner_home.unwrap()@);
                lemma_fresh_consistent(
                    play.initiator_away.unwrap(),
                    play.joiner_home.unwrap()@,
                );
                lemma_fresh_consistent(
                    play.joiner_away.unwrap(),
                    play.initiator_home.unwrap()@,
                );
                lemma_fresh_count(play.initiator_away.unwrap(), 0);
                lemma_fresh_count(play.joiner_away.unwrap(), 0);
            },
            _ => {},
        }
        assert(play_wf(play));
    }
    ledger.play.insert(game_id.clone(), play);

    proof {
        assert forall|g: Seq<char>| ledger.play@.contains_key(g) implies play_wf(
            #[trigger] ledger.play@[g],
        ) && g.len() <= 256 by {
            if g != game_id@ {
                assert(old(ledger).play@.contains_key(g));
            }
        }
    }

    let turn_byte = new_turn.to_u8();
    let note = send_game_updated(
        notify,
        &opponent_owner,
        block_height,
        sender,
        &game_id,
        &opponent_home,
        turn_byte,
    );
    Ok(note)
}

/// The hit counter of one ship type.
pub open spec fn hits_for(a: StoredAway, t: u8) -> u8 {
    if t == 2 {
        a.carrier_hits
    } else if t == 3 {
        a.battleship_hits
    } else if t == 4 {
        a.cruiser_hits
    } else if t == 5 {
        a.submarine_hits
    } else if t == 6 {
        a.destroyer_hits
    } else {
        0
    }
}

/// Marking one cell does not change the un-attacked projection of a board.
proof fn lemma_restore_update(b: Seq<u8>, cell: int, nv: u8)
    requires
        0 <= cell < b.len(),
        restore_cell(nv) == restore_cell(b[cell]),
    ensures
        restore(b.update(cell, nv)) =~= restore(b),
{
}

/// Resolve one attack on `cell`: mark a miss on both records, or mark a
/// hit on both records and advance the matching hit counter. A hit shows
/// the attacker only the generic hit flag — until it is the ship's last
/// un-hit cell: the sinking hit reveals the whole ship, rewriting the hit
/// flag on each of its cells into the ship's own marker.
#[verifier::rlimit(60)]
fn attack_records(home: &mut Vec<u8>, away: &mut StoredAway, cell: usize)
    requires
        old(home)@.len() == 100,
        old(away).away_values@.len() == 100,
        cell < 100,
        old(away).away_values@[cell as int] == 0,
        old(home)@[cell as int] == 0 || is_ship_type(old(home)@[cell as int]),
        total_hits(*old(away)) <= 16,
    ensures
        final(home)@.len() == 100,
        final(away).away_values@.len() == 100,
        ({
            let v = old(home)@[cell as int];
            let marked = old(away).away_values@.update(
                cell as int,
                if v == 0 {
                    1u8
                } else {
                    128u8
                },
            );
            if v == 0 {
                &&& final(home)@ == old(home)@.update(cell as int, 1u8)
                &&& final(away).away_values@ == marked
                &&& forall|t: u8| hits_for(*final(away), t) == hits_for(*old(away), t)
                &&& total_hits(*final(away)) == total_hits(*old(away))
            } else {
                &&& final(home)@ == old(home)@.update(cell as int, (v + 128) as u8)
                &&& hits_for(*final(away), v) == hits_for(*old(away), v) + 1
                &&& forall|t: u8| t != v ==> hits_for(*final(away), t) == hits_for(*old(away), t)
                &&& total_hits(*final(away)) == total_hits(*old(away)) + 1
                &&& final(away).away_values@ == (if hits_for(*old(away), v) + 1 == size_of(v) {
                    reveal_away(marked, final(home)@, v)
                } else {
                    marked
                })
            }
        }),
{
    let v = home[cell];
    if v == 0 {
        away.away_values[cell] = 1;
        home[cell] = 1;
    } else {
        // the high bit marks a hit; the ship stays anonymous for now
        away.away_values[cell] = 128;
        let hits: u8;
        let size: u8;
        if v == 2 {
            away.carrier_hits = away.carrier_hits + 1;
            hits = away.carrier_hits;
            size = CARRIER_SIZE;
        } else if v == 3 {
            away.battleship_hits = away.battleship_hits + 1;
            hits = away.battleship_hits;
            size = BATTLESHIP_SIZE;
        } else if v == 4 {
            away.cruiser_hits = away.cruiser_hits + 1;
            hits = away.cruiser_hits;
            size = CRUISER_SIZE;
        } else if v == 5 {
            away.submarine_hits = away.submarine_hits + 1;
            hits = away.submarine_hits;
            size = SUBMARINE_SIZE;
        } else {
            away.destroyer_hits = away.destroyer_hits + 1;
            hits = away.destroyer_hits;
            size = DESTROYER_SIZE;
        }
        home[cell] = v + 128;
        let ghost marked = away.away_values@;
        let ghost amid = *away;
        if hits == size {
            // the ship has been sunk, reveal the type
            let marker = v + 128;
            let ghost h1 = home@;
            let mut j: usize = 0;
            while j < 100
                invariant
                    j <= 100,
                    away.away_values@.len() == 100,
                    home@ == h1,
                    h1.len() == 100,
                    marked.len() == 100,
                    is_ship_type(v),
                    marker == v + 128,
                    away.carrier_hits == amid.carrier_hits,
                    away.battleship_hits == amid.battleship_hits,
                    away.cruiser_hits == amid.cruiser_hits,
                    away.submarine_hits == amid.submarine_hits,
                    away.destroyer_hits == amid.destroyer_hits,
                    forall|q: int|
                        0 <= q < j ==> away.away_values@[q] == reveal_away(marked, h1, v)[q],
                    forall|q: int| j <= q < 100 ==> away.away_values@[q] == marked[q],
                decreases 100 - j,
            {
                if home[j] == marker {
                    away.away_values[j] = marker;
                }
                j = j + 1;
            }
            proof {
                assert(away.away_values@ =~= reveal_away(marked, home@, v));
            }
        }
    }
}

/// What a successful attack hands back: the attacker's updated away
/// record, the new turn state byte, the payout on a win, and the
/// notification for the opponent.
#[derive(Debug)]
pub struct AttackOutcome {
    pub away: Vec<u8>,
    pub turn: u8,
    pub payout: Option<Coin>,
    pub notification: (Vec<u8>, Vec<u8>),
}

/// Attack one cell of the opponent's board. It must be the seat's turn and
/// the cell must not have been attacked by this seat before. A miss marks
/// both records; a hit advances the matching counter, and the seventeenth
/// hit ends the game: the winner is paid twice the wager less the rake
/// (nothing changes hands in a free game), the game moves from listed to
/// finished, and both seats' active-game indices drop it. The opponent is
/// notified with their own updated board and the new turn state.
///
/// The contract states the laws of play: a second attack on an attacked
/// cell is refused with `CellAlreadyAttacked` and changes nothing; an
/// attack that does not end the game hands the turn to the opponent,
/// never to the attacker; exactly the struck ship's counter advances, and
/// only on a hit; the hit that completes a ship reveals that whole ship
/// in the attacker's away record, while hits on a still-floating ship
/// show only the generic hit flag; and the turn state becomes terminal
/// exactly when the five counters sum to seventeen, never below.
#[verifier::rlimit(100)]
#[verifier::spinoff_prover]
pub fn attack_cell(
    ledger: &mut GameLedger,
    notify: &mut NotificationState,
    now: u64,
    block_height: u64,
    sender: &String,
    token_id: String,
    game_id: String,
    cell: u8,
) -> (r: Result<AttackOutcome, GameError>)
    requires
        old(ledger).wf(),
        old(notify).wf(),
        now <= u64::MAX - TIMEOUT_SEC,
    ensures
        final(ledger).wf(),
        final(notify).wf(),
        match r {
            Ok(out) => {
                let gid = game_id@;
                let p0 = old(ledger).play@[gid];
                let listed_game = old(ledger).listed@[gid];
                let is_init = token_id@ == listed_game.initiator_token_id@;
                let away0 = if is_init {
                    p0.initiator_away.unwrap()
                } else {
                    p0.joiner_away.unwrap()
                };
                let home0 = if is_init {
                    p0.joiner_home.unwrap()@
                } else {
                    p0.initiator_home.unwrap()@
                };
                let v = home0[cell as int];
                let miss = (v == 0);
                let marked_away = away0.away_values@.update(
                    cell as int,
                    if miss {
                        1u8
                    } else {
                        128u8
                    },
                );
                let new_home = home0.update(
                    cell as int,
                    if miss {
                        1u8
                    } else {
                        (v + 128) as u8
                    },
                );
                // the hit that completes a ship reveals it whole
                let sunk = !miss && hits_for(away0, v) + 1 == size_of(v);
                let new_away_cells = if sunk {
                    reveal_away(marked_away, new_home, v)
                } else {
                    marked_away
                };
                let won = !miss && total_hits(away0) + 1 >= 17;
                let new_turn = if won {
                    if is_init {
                        TurnState::GameOverInitiatorWon
                    } else {
                        TurnState::GameOverJoinerWon
                    }
                } else {
                    if is_init {
                        TurnState::JoinersTurn
                    } else {
                        TurnState::InitiatorsTurn
                    }
                };
                let owner = if is_init {
                    p0.joiner_owner.unwrap()@
                } else {
                    listed_game.initiator_owner@
                };
                let join_tok = p0.joiner_token.unwrap()@;
                let init_tok = listed_game.initiator_token_id@;
                &&& old(ledger).listed@.contains_key(gid)
                &&& old(ledger).play@.contains_key(gid)
                &&& (is_init || (p0.joiner_token is Some && p0.joiner_token.unwrap()@
                    == token_id@))
                &&& cell < 100
                &&& (if is_init {
                    p0.turn == TurnState::InitiatorsTurn
                } else {
                    p0.turn == TurnState::JoinersTurn
                })
                &&& away0.away_values@[cell as int] == 0
                &&& (v == 0 || is_ship_type(v))
                // the game ends exactly on the seventeenth cumulative hit
                &&& (won <==> !miss && total_hits(away0) + 1 == 17)
                &&& out.away@ == new_away_cells
                &&& out.turn == new_turn.as_u8()
                &&& (if won && listed_game.wager > 0 {
                    &&& out.payout is Some
                    &&& out.payout.unwrap().denom@ == DENOM@
                    &&& out.payout.unwrap().amount == 2 * listed_game.wager - GAME_RAKE
                } else {
                    out.payout is None
                })
                &&& final(ledger).play@.contains_key(gid)
                &&& final(ledger).play@.remove(gid) == old(ledger).play@.remove(gid)
                &&& {
                    let p1 = final(ledger).play@[gid];
                    &&& p1.turn == new_turn
                    &&& p1.last_move == now
                    &&& opt_str_view(p1.joiner_token) == opt_str_view(p0.joiner_token)
                    &&& opt_str_view(p1.joiner_owner) == opt_str_view(p0.joiner_owner)
                    &&& (if is_init {
                        &&& opt_bytes_view(p1.joiner_home) == Some(new_home)
                        &&& opt_bytes_view(p1.initiator_home) == opt_bytes_view(p0.initiator_home)
                        &&& p1.initiator_away is Some
                        &&& p1.initiator_away.unwrap().away_values@ == new_away_cells
                        &&& total_hits(p1.initiator_away.unwrap()) == total_hits(away0) + (
                        if miss {
                            0int
                        } else {
                            1int
                        })
                        // exactly the struck ship's counter moves, and
                        // only on a hit
                        &&& (if miss {
                            forall|t: u8|
                                hits_for(p1.initiator_away.unwrap(), t) == hits_for(away0, t)
                        } else {
                            &&& hits_for(p1.initiator_away.unwrap(), v) == hits_for(away0, v) + 1
                            &&& forall|t: u8|
                                t != v ==> hits_for(p1.initiator_away.unwrap(), t) == hits_for(
                                    away0,
                                    t,
                                )
                        })
                        &&& opt_away_eq(p1.joiner_away, p0.joiner_away)
                    } else {
                        &&& opt_bytes_view(p1.initiator_home) == Some(new_home)
                        &&& opt_bytes_view(p1.joiner_home) == opt_bytes_view(p0.joiner_home)
                        &&& p1.joiner_away is Some
                        &&& p1.joiner_away.unwrap().away_values@ == new_away_cells
                        &&& total_hits(p1.joiner_away.unwrap()) == total_hits(away0) + (
                        if miss {
                            0int
                        } else {
                            1int
                        })
                        // exactly the struck ship's counter moves, and
                        // only on a hit
                        &&& (if miss {
                            forall|t: u8| hits_for(p1.joiner_away.unwrap(), t) == hits_for(away0, t)
                        } else {
                            &&& hits_for(p1.joiner_away.unwrap(), v) == hits_for(away0, v) + 1
                            &&& forall|t: u8|
                                t != v ==> hits_for(p1.joiner_away.unwrap(), t) == hits_for(
                                    away0,
                                    t,
                                )
                        })
                        &&& opt_away_eq(p1.initiator_away, p0.initiator_away)
                    })
                }
                &&& (if won {
                    &&& final(ledger).listed@ == old(ledger).listed@.remove(gid)
                    &&& final(ledger).finished@ == old(ledger).finished@.insert(gid, listed_game)
                    &&& forall|t: Seq<char>, g: Seq<char>|
                        spec_active(final(ledger).active@, t, g) <==> (spec_active(
                            old(ledger).active@,
                            t,
                            g,
                        ) && !(g == gid && (t == init_tok || t == join_tok)))
                } else {
                    &&& final(ledger).listed@ == old(ledger).listed@
                    &&& final(ledger).finished@ == old(ledger).finished@
                    &&& final(ledger).active@ == old(ledger).active@
                })
                &&& out.notification.0@ == spec_notification_id(
                    *old(notify),
                    owner,
                    GAME_UPDATED_CHANNEL_ID@,
                )
                &&& out.notification.1@ == spec_encrypted(
                    *old(notify),
                    block_height,
                    sender@,
                    owner,
                    GAME_UPDATED_CHANNEL_ID@,
                    cbor_game_update_of(gid, new_home, new_turn.as_u8()),
                )
                &&& only_counter_bumped(
                    *old(notify),
                    *final(notify),
                    GAME_UPDATED_CHANNEL_ID@,
                    owner,
                )
            },
            Err(e) => {
                let gid = game_id@;
                let p0 = old(ledger).play@[gid];
                let listed = old(ledger).listed@.contains_key(gid);
                let is_init = token_id@ == old(ledger).listed@[gid].initiator_token_id@;
                let joiner_match = old(ledger).play@.contains_key(gid) && p0.joiner_token is Some
                    && p0.joiner_token.unwrap()@ == token_id@;
                let seat_ok = listed && (is_init || joiner_match);
                let in_bounds = seat_ok && cell < 100;
                let turn_ok = in_bounds && old(ledger).play@.contains_key(gid) && (if is_init {
                    p0.turn == TurnState::InitiatorsTurn
                } else {
                    p0.turn == TurnState::JoinersTurn
                });
                let away0 = if is_init {
                    p0.initiator_away.unwrap()
                } else {
                    p0.joiner_away.unwrap()
                };
                &&& *final(ledger) == *old(ledger)
                &&& *final(notify) == *old(notify)
                &&& (e == GameError::NoSuchGame || e == GameError::Unauthorized || e
                    == GameError::CellOutOfBounds || e == GameError::InvalidGameState || e
                    == GameError::NotYourTurn || e == GameError::CellAlreadyAttacked || e
                    == GameError::InvalidCellValue)
                &&& (e == GameError::NoSuchGame <==> !listed)
                &&& (e == GameError::Unauthorized <==> listed && !is_init && !joiner_match)
                &&& (e == GameError::CellOutOfBounds <==> seat_ok && cell >= 100)
                &&& (e == GameError::InvalidGameState <==> in_bounds && !old(
                    ledger,
                ).play@.contains_key(gid))
                &&& (e == GameError::NotYourTurn <==> in_bounds && old(
                    ledger,
                ).play@.contains_key(gid) && !(if is_init {
                    p0.turn == TurnState::InitiatorsTurn
                } else {
                    p0.turn == TurnState::JoinersTurn
                }))
                &&& (e == GameError::CellAlreadyAttacked <==> turn_ok
                    && away0.away_values@[cell as int] != 0)
                &&& {
                    let v = if is_init {
                        p0.joiner_home.unwrap()@[cell as int]
                    } else {
                        p0.initiator_home.unwrap()@[cell as int]
                    };
                    e == GameError::InvalidCellValue <==> turn_ok
                        && away0.away_values@[cell as int] == 0 && !(v == 0 || is_ship_type(v))
                }
            },
        },
{
    // check if game id exists
    let listed_game = match ledger.listed.get(&game_id) {
        None => {
            return Err(GameError::NoSuchGame);
        },
        Some(g) => g.dup(),
    };

    // identify if initiator or joiner (or neither)
    let initiator: bool;
    if token_id.eq(&listed_game.initiator_token_id) {
        initiator = true;
    } else {
        let joiner_match = match ledger.play.get(&game_id) {
            Some(p) => match &p.joiner_token {
                Some(j) => j.eq(&token_id),
                None => false,
            },
            None => false,
        };
        if joiner_match {
            initiator = false;
        } else {
            return Err(GameError::Unauthorized);
        }
    }

    let cell = cell as usize;
    if cell >= BOARD_SIZE {
        return Err(GameError::CellOutOfBounds);
    }

    // it must be this seat's turn, and the cell still unattacked
    match ledger.play.get(&game_id) {
        Some(p) => {
            let my_turn = if initiator {
                p.turn == TurnState::InitiatorsTurn
            } else {
                p.turn == TurnState::JoinersTurn
            };
            if !my_turn {
                return Err(GameError::NotYourTurn);
            }
            let attacked = if initiator {
                p.initiator_away.as_ref().unwrap().away_values[cell] != 0
            } else {
                p.joiner_away.as_ref().unwrap().away_values[cell] != 0
            };
            if attacked {
                return Err(GameError::CellAlreadyAttacked);
            }
            let hv = if initiator {
                p.joiner_home.as_ref().unwrap()[cell]
            } else {
                p.initiator_home.as_ref().unwrap()[cell]
            };
            if !(hv == 0 || (2 <= hv && hv <= 6)) {
                return Err(GameError::InvalidCellValue);
            }
        },
        None => {
            return Err(GameError::InvalidGameState);
        },
    }

    let mut play = ledger.play.take(&game_id).unwrap();
    let winner: bool;
    let new_turn: TurnState;
    let out_away: Vec<u8>;
    let opponent_owner: String;
    let sent_home: Vec<u8>;
    let ghost p0 = old(ledger).play@[game_id@];
    if initiator {
        let mut away = play.initiator_away.unwrap();
        let mut opponent_home = play.joiner_home.unwrap();
        attack_records(&mut opponent_home, &mut away, cell);
        winner = has_won(&away);
        out_away = crate::util::dup_bytes(&away.away_values);
        sent_home = crate::util::dup_bytes(&opponent_home);
        opponent_owner = play.joiner_owner.as_ref().unwrap().clone();
        proof {
            let a0 = p0.initiator_away.unwrap().away_values@;
            let h0 = p0.joiner_home.unwrap()@;
            let v = h0[cell as int];
            let av: u8 = if v == 0 {
                1u8
            } else {
                128u8
            };
            let marked = a0.update(cell as int, av);
            lemma_restore_update(h0, cell as int, opponent_home@[cell as int]);
            lemma_attack_consistent(
                a0,
                marked,
                h0,
                opponent_home@,
                cell as int,
                av,
                opponent_home@[cell as int],
            );
            lemma_count_val_update(a0, 128, cell as int, av, 0);
            lemma_count_hitmark_update(a0, cell as int, av, 0);
            if v != 0 && hits_for(p0.initiator_away.unwrap(), v) + 1 == size_of(v) {
                lemma_reveal_consistent(marked, opponent_home@, v);
                lemma_reveal_counts(marked, opponent_home@, v, 0);
            }
        }
        play.initiator_away = Some(away);
        play.joiner_home = Some(opponent_home);
        new_turn = if winner {
            TurnState::GameOverInitiatorWon
        } else {
            TurnState::JoinersTurn
        };
    } else {
        let mut away = play.joiner_away.unwrap();
        let mut opponent_home = play.initiator_home.unwrap();
        attack_records(&mut opponent_home, &mut away, cell);
        winner = has_won(&away);
        out_away = crate::util::dup_bytes(&away.away_values);
        sent_home = crate::util::dup_bytes(&opponent_home);
        opponent_owner = listed_game.initiator_owner.clone();
        proof {
            let a0 = p0.joiner_away.unwrap().away_values@;
            let h0 = p0.initiator_home.unwrap()@;
            let v = h0[cell as int];
            let av: u8 = if v == 0 {
                1u8
            } else {
                128u8
            };
            let marked = a0.update(cell as int, av);
            lemma_restore_update(h0, cell as int, opponent_home@[cell as int]);
            lemma_attack_consistent(
                a0,
                marked,
                h0,
                opponent_home@,
                cell as int,
                av,
                opponent_home@[cell as int],
            );
            lemma_count_val_update(a0, 128, cell as int, av, 0);
            lemma_count_hitmark_update(a0, cell as int, av, 0);
            if v != 0 && hits_for(p0.joiner_away.unwrap(), v) + 1 == size_of(v) {
                lemma_reveal_consistent(marked, opponent_home@, v);
                lemma_reveal_counts(marked, opponent_home@, v, 0);
            }
        }
        play.joiner_away = Some(away);
        play.initiator_home = Some(opponent_home);
        new_turn = if winner {
            TurnState::GameOverJoinerWon
        } else {
            TurnState::InitiatorsTurn
        };
    }
    play.turn = new_turn;
    play.last_move = now;
    let ghost pnew = play;
    proof {
        assert(play_wf(pnew));
    }
    ledger.play.insert(game_id.clone(), play);

    let joiner_token = ledger.play.get(&game_id).unwrap().joiner_token.as_ref().unwrap().clone();

    let payout: Option<Coin>;
    if winner {
        // remove from active games for both tokens
        remove_active(&mut ledger.active, &token_id, &game_id);
        if initiator {
            remove_active(&mut ledger.active, &joiner_token, &game_id);
        } else {
            remove_active(&mut ledger.active, &listed_game.initiator_token_id, &game_id);
        }
        // move the game from listed to finished
        ledger.listed.remove(&game_id);
        ledger.finished.insert(game_id.clone(), listed_game.dup());
        payout = if listed_game.wager == 0 {
            None
        } else {
            Some(Coin { denom: DENOM.to_owned(), amount: 2 * listed_game.wager - GAME_RAKE })
        };
    } else {
        payout = None;
    }

    proof {
        assert forall|g: Seq<char>| ledger.play@.contains_key(g) implies play_wf(
            #[trigger] ledger.play@[g],
        ) && g.len() <= 256 by {
            if g != game_id@ {
                assert(old(ledger).play@.contains_key(g));
            } else {
                assert(ledger.play@[g] == pnew);
            }
        }
        assert forall|g: Seq<char>| ledger.listed@.contains_key(g) implies is_valid_wager(
            (#[trigger] ledger.listed@[g]).wager,
        ) && g.len() <= 256 by {
            assert(old(ledger).listed@.contains_key(g));
            assert(ledger.listed@[g] == old(ledger).listed@[g]);
        }
        assert forall|g: Seq<char>| ledger.finished@.contains_key(g) implies is_valid_wager(
            (#[trigger] ledger.finished@[g]).wager,
        ) by {
            if g != game_id@ {
                assert(old(ledger).finished@.contains_key(g));
                assert(ledger.finished@[g] == old(ledger).finished@[g]);
            } else {
                if winner {
                    assert(ledger.finished@[g].wager == old(ledger).listed@[g].wager);
                } else {
                    assert(old(ledger).finished@.contains_key(g));
                    assert(ledger.finished@[g] == old(ledger).finished@[g]);
                }
            }
        }
    }

    let turn_byte = new_turn.to_u8();
    let note = send_game_updated(
        notify,
        &opponent_owner,
        block_height,
        sender,
        &game_id,
        &sent_home,
        turn_byte,
    );

    Ok(AttackOutcome { away: out_away, turn: turn_byte, payout, notification: note })
}

/// May this seat claim victory in this turn state at all? Never while both
/// setups are pending or the game is over, and never on the seat's own
/// pending turn.
pub open spec fn claimable(turn: TurnState, is_init: bool) -> bool {
    &&& turn != TurnState::WaitingForBothPlayersSetup
    &&& turn != TurnState::GameOverInitiatorWon
    &&& turn != TurnState::GameOverJoinerWon
    &&& (is_init ==> turn != TurnState::WaitingForInitiatorSetup && turn
        != TurnState::InitiatorsTurn)
    &&& (!is_init ==> turn != TurnState::WaitingForJoinerSetup && turn != TurnState::JoinersTurn)
}

/// What a successful victory claim hands back: the refund or pot, and the
/// notification for the opponent (none for a pre-join withdrawal).
#[derive(Debug)]
pub struct ClaimOutcome {
    pub payout: Coin,
    pub notification: Option<(Vec<u8>, Vec<u8>)>,
}

/// Claim victory. Before anyone joins, the initiator may withdraw and
/// reclaim the wager. Once the game is under way, the seat whose opponent
/// must act may claim the full pot after the move timeout has elapsed; the
/// opponent is notified with their own board and the terminal state.
#[verifier::rlimit(100)]
#[verifier::spinoff_prover]
pub fn claim_victory(
    ledger: &mut GameLedger,
    notify: &mut NotificationState,
    now: u64,
    block_height: u64,
    sender: &String,
    token_id: String,
    game_id: String,
) -> (r: Result<ClaimOutcome, GameError>)
    requires
        old(ledger).wf(),
        old(notify).wf(),
    ensures
        final(ledger).wf(),
        final(notify).wf(),
        match r {
            Ok(out) => {
                let gid = game_id@;
                let p0 = old(ledger).play@[gid];
                let listed_game = old(ledger).listed@[gid];
                let is_init = token_id@ == listed_game.initiator_token_id@;
                let withdrawal = is_init && p0.turn == TurnState::WaitingForPlayer;
                let init_tok = listed_game.initiator_token_id@;
                let join_tok = p0.joiner_token.unwrap()@;
                let owner = if is_init {
                    p0.joiner_owner.unwrap()@
                } else {
                    listed_game.initiator_owner@
                };
                let opp_home = if is_init {
                    p0.joiner_home.unwrap()@
                } else {
                    p0.initiator_home.unwrap()@
                };
                let new_turn = if is_init {
                    TurnState::GameOverInitiatorWon
                } else {
                    TurnState::GameOverJoinerWon
                };
                &&& old(ledger).listed@.contains_key(gid)
                &&& old(ledger).play@.contains_key(gid)
                &&& (is_init || (p0.joiner_token is Some && p0.joiner_token.unwrap()@
                    == token_id@))
                &&& claimable(p0.turn, is_init)
                &&& out.payout.denom@ == DENOM@
                &&& final(ledger).listed@ == old(ledger).listed@.remove(gid)
                &&& final(ledger).finished@ == old(ledger).finished@.insert(gid, listed_game)
                &&& final(ledger).play@.contains_key(gid)
                &&& final(ledger).play@.remove(gid) == old(ledger).play@.remove(gid)
                &&& final(ledger).play@[gid].turn == new_turn
                &&& (if withdrawal {
                    &&& out.payout.amount == listed_game.wager
                    &&& out.notification is None
                    &&& *final(notify) == *old(notify)
                    &&& forall|t: Seq<char>, g: Seq<char>|
                        spec_active(final(ledger).active@, t, g) <==> (spec_active(
                            old(ledger).active@,
                            t,
                            g,
                        ) && !(g == gid && t == init_tok))
                } else {
                    &&& (if is_init {
                        p0.turn == TurnState::JoinersTurn
                    } else {
                        p0.turn == TurnState::InitiatorsTurn
                    })
                    &&& now >= p0.last_move + TIMEOUT_SEC
                    &&& out.payout.amount == 2 * listed_game.wager
                    &&& out.notification is Some
                    &&& out.notification.unwrap().0@ == spec_notification_id(
                        *old(notify),
                        owner,
                        GAME_UPDATED_CHANNEL_ID@,
                    )
                    &&& out.notification.unwrap().1@ == spec_encrypted(
                        *old(notify),
                        block_height,
                        sender@,
                        owner,
                        GAME_UPDATED_CHANNEL_ID@,
                        cbor_game_update_of(gid, opp_home, new_turn.as_u8()),
                    )
                    &&& only_counter_bumped(
                        *old(notify),
                        *final(notify),
                        GAME_UPDATED_CHANNEL_ID@,
                        owner,
                    )
                    &&& forall|t: Seq<char>, g: Seq<char>|
                        spec_active(final(ledger).active@, t, g) <==> (spec_active(
                            old(ledger).active@,
                            t,
                            g,
                        ) && !(g == gid && (t == init_tok || t == join_tok)))
                })
            },
            Err(e) => {
                let gid = game_id@;
                let p0 = old(ledger).play@[gid];
                let listed = old(ledger).listed@.contains_key(gid);
                let is_init = token_id@ == old(ledger).listed@[gid].initiator_token_id@;
                let joiner_match = old(ledger).play@.contains_key(gid) && p0.joiner_token is Some
                    && p0.joiner_token.unwrap()@ == token_id@;
                let seat_ok = listed && (is_init || joiner_match);
                let has_play = seat_ok && old(ledger).play@.contains_key(gid);
                let can = has_play && claimable(p0.turn, is_init);
                let withdrawal = can && is_init && p0.turn == TurnState::WaitingForPlayer;
                let elapsed = can && !withdrawal && now >= p0.last_move + TIMEOUT_SEC;
                let home_there = elapsed && (if is_init {
                    p0.joiner_home is Some
                } else {
                    p0.initiator_home is Some
                });
                &&& *final(ledger) == *old(ledger)
                &&& *final(notify) == *old(notify)
                &&& (e == GameError::NoSuchGame || e == GameError::Unauthorized || e
                    == GameError::CannotClaimYet || e == GameError::InvalidGameState)
                &&& (e == GameError::NoSuchGame <==> !listed)
                &&& (e == GameError::Unauthorized <==> listed && !is_init && !joiner_match)
                &&& (e == GameError::CannotClaimYet <==> (has_play && !claimable(p0.turn, is_init))
                    || (can && !withdrawal && now < p0.last_move + TIMEOUT_SEC))
                &&& (e == GameError::InvalidGameState <==> (seat_ok && !old(
                    ledger,
                ).play@.contains_key(gid)) || (elapsed && !home_there))
            },
        },
{
    // check if game id exists
    let listed_game = match ledger.listed.get(&game_id) {
        None => {
            return Err(GameError::NoSuchGame);
        },
        Some(g) => g.dup(),
    };

    // identify if initiator or joiner (or neither)
    let initiator: bool;
    if token_id.eq(&listed_game.initiator_token_id) {
        initiator = true;
    } else {
        let joiner_match = match ledger.play.get(&game_id) {
            Some(p) => match &p.joiner_token {
                Some(j) => j.eq(&token_id),
                None => false,
            },
            None => false,
        };
        if joiner_match {
            initiator = false;
        } else {
            return Err(GameError::Unauthorized);
        }
    }

    // identify if turn is one where you can claim victory
    let (turn0, last_move) = match ledger.play.get(&game_id) {
        Some(p) => (p.turn, p.last_move),
        None => {
            return Err(GameError::InvalidGameState);
        },
    };

    if turn0 == TurnState::WaitingForBothPlayersSetup || turn0 == TurnState::GameOverInitiatorWon
        || turn0 == TurnState::GameOverJoinerWon {
        return Err(GameError::CannotClaimYet);
    }
    if initiator && (turn0 == TurnState::WaitingForInitiatorSetup || turn0
        == TurnState::InitiatorsTurn) {
        return Err(GameError::CannotClaimYet);
    }
    if !initiator && (turn0 == TurnState::WaitingForJoinerSetup || turn0
        == TurnState::JoinersTurn) {
        return Err(GameError::CannotClaimYet);
    }

    if initiator && turn0 == TurnState::WaitingForPlayer {
        // can always pull out of the game before someone joins
        remove_active(&mut ledger.active, &listed_game.initiator_token_id, &game_id);
        let mut play = ledger.play.take(&game_id).unwrap();
        play.turn = TurnState::GameOverInitiatorWon;
        ledger.play.insert(game_id.clone(), play);
        ledger.listed.remove(&game_id);
        ledger.finished.insert(game_id.clone(), listed_game.dup());
        proof {
            assert forall|g: Seq<char>| ledger.play@.contains_key(g) implies play_wf(
                #[trigger] ledger.play@[g],
            ) && g.len() <= 256 by {
                if g != game_id@ {
                    assert(old(ledger).play@.contains_key(g));
                }
            }
            assert forall|g: Seq<char>| ledger.listed@.contains_key(g) implies is_valid_wager(
                (#[trigger] ledger.listed@[g]).wager,
            ) && g.len() <= 256 by {
                assert(old(ledger).listed@.contains_key(g));
                assert(ledger.listed@[g] == old(ledger).listed@[g]);
            }
            assert forall|g: Seq<char>| ledger.finished@.contains_key(g) implies is_valid_wager(
                (#[trigger] ledger.finished@[g]).wager,
            ) by {
                if g != game_id@ {
                    assert(old(ledger).finished@.contains_key(g));
                    assert(ledger.finished@[g] == old(ledger).finished@[g]);
                } else {
                    assert(ledger.finished@[g].wager == old(ledger).listed@[g].wager);
                }
            }
        }
        return Ok(
            ClaimOutcome {
                payout: Coin { denom: DENOM.to_owned(), amount: listed_game.wager },
                notification: None,
            },
        );
    }

    // forfeit by inactivity: the opponent has let the timeout lapse
    if now < last_move + TIMEOUT_SEC {
        return Err(GameError::CannotClaimYet);
    }

    let home_there = match ledger.play.get(&game_id) {
        Some(p) => if initiator {
            p.joiner_home.is_some()
        } else {
            p.initiator_home.is_some()
        },
        None => false,
    };
    if !home_there {
        return Err(GameError::InvalidGameState);
    }

    let joiner_token = ledger.play.get(&game_id).unwrap().joiner_token.as_ref().unwrap().clone();
    remove_active(&mut ledger.active, &listed_game.initiator_token_id, &game_id);
    remove_active(&mut ledger.active, &joiner_token, &game_id);

    let mut play = ledger.play.take(&game_id).unwrap();
    let new_turn: TurnState;
    let opponent_owner: String;
    let opponent_home: Vec<u8>;
    if initiator {
        new_turn = TurnState::GameOverInitiatorWon;
        opponent_owner = play.joiner_owner.as_ref().unwrap().clone();
        opponent_home = crate::util::dup_bytes(play.joiner_home.as_ref().unwrap());
    } else {
        new_turn = TurnState::GameOverJoinerWon;
        opponent_owner = listed_game.initiator_owner.clone();
        opponent_home = crate::util::dup_bytes(play.initiator_home.as_ref().unwrap());
    }
    play.turn = new_turn;
    ledger.play.insert(game_id.clone(), play);

    ledger.listed.remove(&game_id);
    ledger.finished.insert(game_id.clone(), listed_game.dup());

    proof {
        assert forall|g: Seq<char>| ledger.play@.contains_key(g) implies play_wf(
            #[trigger] ledger.play@[g],
        ) && g.len() <= 256 by {
            if g != game_id@ {
                assert(old(ledger).play@.contains_key(g));
            }
        }
        assert forall|g: Seq<char>| ledger.listed@.contains_key(g) implies is_valid_wager(
            (#[trigger] ledger.listed@[g]).wager,
        ) && g.len() <= 256 by {
            assert(old(ledger).listed@.contains_key(g));
            assert(ledger.listed@[g] == old(ledger).listed@[g]);
        }
        assert forall|g: Seq<char>| ledger.finished@.contains_key(g) implies is_valid_wager(
            (#[trigger] ledger.finished@[g]).wager,
        ) by {
            if g != game_id@ {
                assert(old(ledger).finished@.contains_key(g));
                assert(ledger.finished@[g] == old(ledger).finished@[g]);
            } else {
                assert(ledger.finished@[g].wager == old(ledger).listed@[g].wager);
            }
        }
        assert(2 * listed_game.wager <= 20000000);
    }

    let turn_byte = new_turn.to_u8();
    let note = send_game_updated(
        notify,
        &opponent_owner,
        block_height,
        sender,
        &game_id,
        &opponent_home,
        turn_byte,
    );

    Ok(
        ClaimOutcome {
            payout: Coin { denom: DENOM.to_owned(), amount: 2 * listed_game.wager },
            notification: Some(note),
        },
    )
}

/// What the game-state query reveals to a participant.
#[derive(Debug)]
pub struct GameStateAnswer {
    pub role: u8,
    pub turn: u8,
    pub home: Vec<u8>,
    pub away: Vec<u8>,
    pub game_id: String,
    pub wager: Coin,
    pub title: String,
    pub created: u64,
}

/// One page of the public lobby, oldest listings first.
pub fn query_list_games(ledger: &GameLedger, page: Option<u32>, page_size: Option<u32>) -> (r: Vec<
    ListedGame,
>)
    ensures
        ({
            let p = (match page {
                Some(x) => x,
                None => 0u32,
            }) as int;
            let sz = (match page_size {
                Some(x) => x,
                None => 20u32,
            }) as int;
            let entries = ledger.listed.entries_seq();
            let start = p * sz;
            &&& r@.len() == (if start >= entries.len() {
                0int
            } else if entries.len() - start < sz {
                entries.len() - start
            } else {
                sz
            })
            &&& forall|i: int|
                0 <= i < r@.len() ==> {
                    &&& (#[trigger] r@[i]).game_id@ == entries[start + i].0@
                    &&& r@[i].title@ == entries[start + i].1.title@
                    &&& r@[i].created == entries[start + i].1.created
                    &&& r@[i].wager.denom@ == DENOM@
                    &&& r@[i].wager.amount == entries[start + i].1.wager
                }
        }),
{
    let page: u32 = match page {
        Some(x) => x,
        None => 0,
    };
    let page_size: u32 = match page_size {
        Some(x) => x,
        None => 20,
    };
    let entries = ledger.listed.entries();
    let n = entries.len();
    let p64: u64 = page as u64;
    let s64: u64 = page_size as u64;
    proof {
        assert(p64 * s64 <= 0xffffffffu64 * 0xffffffffu64) by (nonlinear_arith)
            requires
                p64 <= 0xffffffffu64,
                s64 <= 0xffffffffu64,
        ;
    }
    let start64: u64 = p64 * s64;
    let mut games: Vec<ListedGame> = Vec::new();
    if start64 >= n as u64 {
        return games;
    }
    let start: usize = start64 as usize;
    let stop: usize = if n - start < page_size as usize {
        n
    } else {
        start + page_size as usize
    };
    let mut i: usize = start;
    while i < stop
        invariant
            stop <= n,
            n == ledger.listed.entries_seq().len(),
            entries@ == ledger.listed.entries_seq(),
            start <= i <= stop,
            games@.len() == i - start,
            forall|j: int|
                0 <= j < games@.len() ==> {
                    &&& (#[trigger] games@[j]).game_id@ == ledger.listed.entries_seq()[start
                        + j].0@
                    &&& games@[j].title@ == ledger.listed.entries_seq()[start + j].1.title@
                    &&& games@[j].created == ledger.listed.entries_seq()[start + j].1.created
                    &&& games@[j].wager.denom@ == DENOM@
                    &&& games@[j].wager.amount == ledger.listed.entries_seq()[start + j].1.wager
                },
        decreases stop - i,
    {
        let stored = &entries[i].1;
        games.push(
            ListedGame {
                game_id: entries[i].0.clone(),
                wager: Coin { denom: DENOM.to_owned(), amount: stored.wager },
                title: stored.title.clone(),
                created: stored.created,
            },
        );
        i = i + 1;
    }
    games
}

/// The game ids a seat is currently party to.
pub fn query_active_games(ledger: &GameLedger, token_id: &String) -> (r: Vec<String>)
    ensures
        ledger.active@.contains_key(token_id@) ==> r@ == ledger.active@[token_id@]@,
        !ledger.active@.contains_key(token_id@) ==> r@.len() == 0,
        // the index is a set: a well-formed ledger never lists a game twice
        ledger.wf() ==> strings_distinct(r@),
{
    match ledger.active.get(token_id) {
        Some(list) => crate::util::dup_strings(list),
        None => Vec::new(),
    }
}

/// A participant's view of one game: role, turn, own home board and own
/// away record (empty boards before they exist), and the listing metadata.
pub fn query_game_state(ledger: &GameLedger, token_id: String, game_id: String) -> (r: Result<
    GameStateAnswer,
    GameError,
>)
    ensures
        match r {
            Ok(out) => {
                let gid = game_id@;
                let known = ledger.listed@.contains_key(gid) || ledger.finished@.contains_key(gid);
                let game = if ledger.listed@.contains_key(gid) {
                    ledger.listed@[gid]
                } else {
                    ledger.finished@[gid]
                };
                let p0 = ledger.play@[gid];
                let is_init = token_id@ == game.initiator_token_id@;
                &&& known
                &&& ledger.play@.contains_key(gid)
                &&& (is_init || (p0.joiner_token is Some && p0.joiner_token.unwrap()@
                    == token_id@))
                &&& out.role == (if is_init {
                    PlayerRole::Initiator.as_u8()
                } else {
                    PlayerRole::Joiner.as_u8()
                })
                &&& out.turn == p0.turn.as_u8()
                &&& out.home@ == (match opt_bytes_view(
                    if is_init {
                        p0.initiator_home
                    } else {
                        p0.joiner_home
                    },
                ) {
                    Some(b) => b,
                    None => empty_board_seq(),
                })
                &&& out.away@ == (match (if is_init {
                    p0.initiator_away
                } else {
                    p0.joiner_away
                }) {
                    Some(a) => a.away_values@,
                    None => empty_board_seq(),
                })
                &&& out.game_id@ == gid
                &&& out.wager.denom@ == DENOM@
                &&& out.wager.amount == game.wager
                &&& out.title@ == game.title@
                &&& out.created == game.created
            },
            Err(e) => {
                let gid = game_id@;
                let known = ledger.listed@.contains_key(gid) || ledger.finished@.contains_key(gid);
                let game = if ledger.listed@.contains_key(gid) {
                    ledger.listed@[gid]
                } else {
                    ledger.finished@[gid]
                };
                let p0 = ledger.play@[gid];
                let is_init = token_id@ == game.initiator_token_id@;
                let joiner_match = ledger.play@.contains_key(gid) && p0.joiner_token is Some
                    && p0.joiner_token.unwrap()@ == token_id@;
                &&& (e == GameError::NoSuchGame || e == GameError::Unauthorized || e
                    == GameError::InvalidGameState)
                &&& (e == GameError::NoSuchGame <==> !known)
                &&& (e == GameError::Unauthorized <==> known && !is_init && !joiner_match)
                &&& (e == GameError::InvalidGameState <==> known && is_init
                    && !ledger.play@.contains_key(gid))
            },
        },
{
    let game: StoredListedGame = match ledger.listed.get(&game_id) {
        Some(g) => g.dup(),
        None => match ledger.finished.get(&game_id) {
            Some(g) => g.dup(),
            None => {
                return Err(GameError::NoSuchGame);
            },
        },
    };

    let is_init = token_id.eq(&game.initiator_token_id);
    let role: PlayerRole;
    if is_init {
        role = PlayerRole::Initiator;
    } else {
        let joiner_match = match ledger.play.get(&game_id) {
            Some(p) => match &p.joiner_token {
                Some(j) => j.eq(&token_id),
                None => false,
            },
            None => false,
        };
        if joiner_match {
            role = PlayerRole::Joiner;
        } else {
            return Err(GameError::Unauthorized);
        }
    }

    let p = match ledger.play.get(&game_id) {
        Some(p) => p,
        None => {
            return Err(GameError::InvalidGameState);
        },
    };

    let home: Vec<u8> = if is_init {
        match &p.initiator_home {
            Some(h) => crate::util::dup_bytes(h),
            None => empty_board(),
        }
    } else {
        match &p.joiner_home {
            Some(h) => crate::util::dup_bytes(h),
            None => empty_board(),
        }
    };
    let away: Vec<u8> = if is_init {
        match &p.initiator_away {
            Some(a) => crate::util::dup_bytes(&a.away_values),
            None => empty_board(),
        }
    } else {
        match &p.joiner_away {
            Some(a) => crate::util::dup_bytes(&a.away_values),
            None => empty_board(),
        }
    };
    let turn = p.turn.to_u8();

    Ok(
        GameStateAnswer {
            role: role.to_u8(),
            turn,
            home,
            away,
            wager: Coin { denom: DENOM.to_owned(), amount: game.wager },
            title: game.title,
            created: game.created,
            game_id,
        },
    )
}

/// Escrow conservation: the deposits of a completed game are the two equal
/// wagers (or one, before a join); a sinking win pays the pot less the
/// rake, a timeout win pays the whole pot, and a pre-join withdrawal
/// returns the single deposit. The payout amounts stated by `attack_cell`
/// and `claim_victory` add up to the deposits recorded by `new_game` and
/// `join_game`.
pub proof fn lemma_escrow_conservation(wager: u128)
    requires
        is_valid_wager(wager),
    ensures
        2 * wager == wager + wager,
        wager > 0 ==> (2 * wager - GAME_RAKE) + GAME_RAKE == wager + wager,
        wager > 0 ==> GAME_RAKE <= 2 * wager,
{
}

} // verus!
