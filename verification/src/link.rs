//! The directory of games: one catalog entry per created game, carrying
//! the game's number, its capacity, and the handles that have joined.

use vstd::prelude::*;

verus! {

/// The whole catalog.
pub type GameList = Vec<GameListEntry>;

/// One directory entry.
pub struct GameListEntry {
    pub game_record_number: u64,
    pub total_positions: usize,
    pub active_player_names: Vec<String>,
}

impl GameListEntry {
    /// The directory invariant: an entry never lists more players than the
    /// game has positions.
    pub open spec fn wf(&self) -> bool {
        self.active_player_names@.len() <= self.total_positions
    }

    /// A fresh entry with no players yet.
    pub fn new(game_record_number: u64, total_positions: usize) -> (r: Self)
        ensures
            r.wf(),
            r.game_record_number == game_record_number,
            r.total_positions == total_positions,
            r.active_player_names@.len() == 0,
    {
        Self { game_record_number, total_positions, active_player_names: Vec::new() }
    }

    /// Whether every position of the game is taken.
    pub fn is_full(&self) -> (r: bool)
        ensures
            r == (self.active_player_names@.len() == self.total_positions),
    {
        self.active_player_names.len() == self.total_positions
    }

    /// A copy of this entry with `player_name` appended, or an error when
    /// the entry is already full; the entry itself is never mutated.
    pub fn add_player(&self, player_name: String) -> (r: Result<Self, &str>)
        requires
            self.wf(),
        ensures
            r is Ok <==> self.active_player_names@.len() != self.total_positions,
            r matches Ok(e) ==> {
                &&& e.wf()
                &&& e.game_record_number == self.game_record_number
                &&& e.total_positions == self.total_positions
                &&& e.active_player_names@ == self.active_player_names@.push(player_name)
            },
            r matches Err(m) ==> m@ == "Game is already full"@,
    {
        if self.is_full() {
            return Err("Game is already full");
        }
        let mut player_list = crate::codec::copy_strings(&self.active_player_names);
        player_list.push(player_name);
        Ok(
            Self {
                game_record_number: self.game_record_number,
                total_positions: self.total_positions,
                active_player_names: player_list,
            },
        )
    }
}

} // verus!
