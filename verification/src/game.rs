//! The per-game session aggregate: board, roster, round challenge and the
//! shot bitmask that tracks who has fired this round.

use vstd::prelude::*;

use crate::board::{grid_all, Board};
use crate::codec::dec_digits;
use crate::position::CellView;
use vstd::utf8::is_ascii_chars;

verus! {

/// A game session.  The roster is ordered; a player's position in it is
/// their slot.  Bit `i` of `shot_list` is set while slot `i` has fired in
/// the current round; the challenge is empty until the roster fills.
pub struct Game {
    pub boards: Board,
    pub number_of_players: usize,
    pub player_tags: Vec<String>,
    pub challenge: String,
    pub game_number: u64,
    pub shot_list: u32,
}

/// The bitmask with one bit set for each of `n` roster slots.
pub open spec fn full_mask(n: usize) -> u32
    recommends
        n < 32,
{
    (((1u64 << (n as u64)) - 1) as u32)
}

/// Whether the roster of `g` holds a handle whose text is `h`.
pub open spec fn roster_contains(g: Game, h: Seq<char>) -> bool {
    exists|i: int| 0 <= i < g.player_tags@.len() && (#[trigger] g.player_tags@[i])@ == h
}

/// The exec computation of the full bitmask agrees with [`full_mask`].
pub(crate) proof fn lemma_full_mask_exec(c: u32)
    requires
        0 < c < 32,
    ensures
        (((1u64 << (c as u64)) - 1) as u32) == (1u32 << c) - 1,
{
    assert((0 < c < 32) ==> ((((1u64 << (c as u64)) - 1) as u32) == (1u32 << c) - 1))
        by (bit_vector);
}

impl Game {
    /// Whether play has begun: the challenge is set exactly from the moment
    /// the roster fills.
    pub open spec fn started(&self) -> bool {
        self.challenge@.len() > 0
    }

    /// Structural soundness of a session, the session invariant:
    /// the board is sound and sized for this game's capacity, the roster
    /// never exceeds the capacity and never lists a handle twice, the shot
    /// bitmask never carries a bit outside the roster, and before play
    /// begins the bitmask is clear and every cell is `Empty`; once play
    /// begins the roster is full and the challenge is a ten-character
    /// ASCII token.
    pub open spec fn wf(&self) -> bool {
        &&& self.boards.wf()
        &&& self.boards.players == self.number_of_players
        &&& 0 < self.number_of_players < 32
        &&& self.player_tags@.len() <= self.number_of_players
        &&& forall|i: int, j: int|
            0 <= i < j < self.player_tags@.len() ==> (#[trigger] self.player_tags@[i])@ != (
            #[trigger] self.player_tags@[j])@
        &&& self.shot_list & full_mask(self.number_of_players) == self.shot_list
        &&& is_ascii_chars(self.challenge@)
        &&& (self.started() ==> self.challenge@.len() == 10 && self.player_tags@.len()
            == self.number_of_players)
        &&& (!self.started() ==> self.shot_list == 0 && grid_all(
            self.boards.positions@,
            CellView::Empty,
        ))
    }

    /// A fresh session: empty roster, empty challenge, clear bitmask, a
    /// board of `Empty` cells and one standard fleet per future player.
    pub fn new(number_of_players: usize, game_number: u64) -> (r: Self)
        requires
            0 < number_of_players < 32,
        ensures
            r.wf(),
            r.number_of_players == number_of_players,
            r.game_number == game_number,
            r.player_tags@.len() == 0,
            r.challenge@.len() == 0,
            r.shot_list == 0,
            !r.started(),
            r.boards.players == number_of_players,
            r.boards.ship_set@.len() == number_of_players,
            forall|p: int|
                0 <= p < number_of_players ==> crate::ship::is_standard_fleet(
                    (#[trigger] r.boards.ship_set@[p])@,
                ),
    {
        let r = Self {
            boards: Board::new(number_of_players),
            number_of_players,
            player_tags: Vec::with_capacity(number_of_players),
            challenge: String::new(),
            game_number,
            shot_list: 0,
        };
        proof {
            assert(0u32 & full_mask(r.number_of_players) == 0u32) by (bit_vector);
        }
        r
    }

    /// The address under which this game's page is served.
    pub fn get_link(&self) -> (r: String)
        ensures
            r@ == "http://127.0.0.1:8000/game/"@ + dec_digits(self.game_number as nat),
    {
        let mut s = String::from_str("http://127.0.0.1:8000/game/");
        crate::codec::append_dec_u64(&mut s, self.game_number);
        s
    }
}


/// Law: the roster of a sound session never exceeds its capacity, so no
/// game ever holds more players than it was created for.
pub proof fn lemma_roster_within_capacity(g: Game)
    requires
        g.wf(),
    ensures
        g.player_tags@.len() <= g.number_of_players,
{
}

/// Decides whether no handle appears twice in a roster.
fn roster_distinct(tags: &Vec<String>) -> (r: bool)
    ensures
        r == (forall|i: int, j: int|
            0 <= i < j < tags@.len() ==> (#[trigger] tags@[i])@ != (#[trigger] tags@[j])@),
{
    let mut i: usize = 0;
    while i < tags.len()
        invariant
            i <= tags@.len(),
            forall|a: int, b: int|
                0 <= a < b < tags@.len() && a < i ==> (#[trigger] tags@[a])@ != (
                #[trigger] tags@[b])@,
        decreases tags@.len() - i,
    {
        let mut j: usize = i + 1;
        while j < tags.len()
            invariant
                i < tags@.len(),
                i < j <= tags@.len(),
                forall|b: int| i < b < j ==> (#[trigger] tags@[b])@ != tags@[i as int]@,
            decreases tags@.len() - j,
        {
            if tags[i].eq(&tags[j]) {
                proof {
                    assert(tags@[i as int]@ == tags@[j as int]@);
                }
                return false;
            }
            j = j + 1;
        }
        i = i + 1;
    }
    true
}

impl Game {
    /// Decides the session invariant for a value loaded from outside,
    /// such as a stored session document: callers that read sessions back
    /// from a store validate them here before handing them to the engine.
    pub fn is_well_formed(&self) -> (r: bool)
        ensures
            r == self.wf(),
    {
        if !self.boards.is_well_formed() {
            return false;
        }
        if self.boards.players != self.number_of_players {
            return false;
        }
        if self.number_of_players == 0 || self.number_of_players >= 32 {
            return false;
        }
        if self.player_tags.len() > self.number_of_players {
            return false;
        }
        if !roster_distinct(&self.player_tags) {
            return false;
        }
        let capacity: u32 = self.number_of_players as u32;
        proof {
            assert((0 < capacity < 32) ==> 1u32 << capacity >= 1) by (bit_vector);
        }
        let full: u32 = (1u32 << capacity) - 1;
        proof {
            lemma_full_mask_exec(capacity);
            assert(full == full_mask(self.number_of_players));
        }
        if self.shot_list & full != self.shot_list {
            return false;
        }
        if !self.challenge.as_str().is_ascii() {
            return false;
        }
        let challenge_len = self.challenge.as_str().unicode_len();
        if challenge_len > 0 {
            if challenge_len != 10 || self.player_tags.len() != self.number_of_players {
                return false;
            }
        } else {
            if self.shot_list != 0 {
                return false;
            }
            if !Board::check_all_empty(&self.boards.positions) {
                return false;
            }
        }
        true
    }
}

} // verus!
