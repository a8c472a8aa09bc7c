//! The session protocol: joining a game, authenticating a request, firing
//! a shot, and reading the per-player view of a session.  Every operation
//! takes the loaded session state and plain request values, and returns the
//! new state and an outcome; loading and storing the session is the
//! caller's concern.

use vstd::prelude::*;

use crate::board::{
    fleet_covers, grid_all, grid_cell, grid_dims_ok, grid_hides_ships, Board,
    PositionVectors,
};
use crate::codec::{ascii_bytes, copy_strings, hex_decode, hex_decoded, hex_pairs_ok};
use crate::crypto::{
    decrypt_message, decrypted, fresh_challenge, lemma_alnum_ascii, CIPHER_INPUT_LIMIT,
};
use crate::game::{full_mask, lemma_full_mask_exec, roster_contains, Game};
use crate::link::GameListEntry;
use crate::position::{CellView, FirePosition, SQUARE_SIDE};
use crate::ship::Ship;
use vstd::utf8::is_ascii_chars;

verus! {

/// The outcome of a join request.
pub enum JoinOutcome {
    /// The handle was already on the roster; the session is unchanged.
    AlreadyPresent,
    /// The roster was full and the handle new: the caller is a spectator.
    Full,
    /// The handle was appended; the roster is still filling.
    Joined,
    /// The handle was appended and filled the roster: play has begun.
    Started,
}

/// The outcome of a fire command.
pub enum FireOutcome {
    /// The shot was applied.
    Accepted,
    /// The firing slot had already fired this round.
    AlreadyActed,
    /// The proof did not decrypt to the current round challenge, or the
    /// game has not started.
    AuthenticationFailed,
    /// A slot or coordinate lay outside the roster or the board.
    OutOfRange,
}

/// How far a session-state request was authorized.
pub enum AccessLevel {
    /// A roster member with a valid proof; the payload is their slot.
    Player(usize),
    /// A stranger to a full game: read-only, no ship data.
    Spectator,
    /// A roster member (or a joiner of a filling game) without a valid
    /// proof, or a request before play has begun.
    Unauthenticated,
}

/// What a session-state request returns: the round challenge, the roster,
/// the requester's own ships where authorized, and a board view.
pub struct SessionView {
    pub access: AccessLevel,
    pub challenge: String,
    pub roster: Vec<String>,
    pub ships: Vec<Ship>,
    pub board: PositionVectors,
}

/// The bitmask bit of roster slot `f`.
pub open spec fn bit_of(f: usize) -> u32
    recommends
        f < 32,
{
    1u32 << (f as u32)
}

/// Whether slot `f` has already fired in the current round of `g`.
pub open spec fn already_acted(g: Game, f: usize) -> bool {
    g.shot_list & bit_of(f) != 0
}

/// Whether a fire proof is one the engine accepts: small enough for the
/// cipher to take, and decrypting, under `key`, to exactly the current
/// round challenge of `g`.  A genuine proof of a ten-character challenge
/// is around a hundred bytes.
pub open spec fn fire_auth_ok(g: Game, fp: FirePosition, key: Seq<u8>) -> bool {
    &&& fp.challenge@.len() < CIPHER_INPUT_LIMIT
    &&& decrypted(key, fp.challenge@) == Some(ascii_bytes(g.challenge@))
}

/// Whether the target slot and the coordinates of a fire command are in
/// range for `g`.
pub open spec fn fire_ranges_ok(g: Game, fp: FirePosition) -> bool {
    fp.to < g.number_of_players && fp.lon < SQUARE_SIDE && fp.lat < SQUARE_SIDE
}

/// Setting a roster bit keeps the mask within the roster's bits.
proof fn lemma_mask_or(s: u32, f: u32, c: u32)
    requires
        f < c,
        c < 32,
        s & (((1u64 << (c as u64)) - 1) as u32) == s,
    ensures
        (s | (1u32 << f)) & (((1u64 << (c as u64)) - 1) as u32) == (s | (1u32 << f)),
        (s | (1u32 << f)) & (1u32 << f) != 0,
{
    assert((s & (((1u64 << (c as u64)) - 1) as u32) == s && f < c && c < 32) ==> ((s | (1u32 << f))
        & (((1u64 << (c as u64)) - 1) as u32) == (s | (1u32 << f)) && (s | (1u32 << f)) & (1u32
        << f) != 0)) by (bit_vector);
}

/// The slot of the first roster entry equal to `player_id`, if any.
pub fn roster_index(tags: &Vec<String>, player_id: &String) -> (r: Option<usize>)
    ensures
        r matches Some(i) ==> i < tags@.len() && tags@[i as int]@ == player_id@ && forall|j: int|
            0 <= j < i ==> (#[trigger] tags@[j])@ != player_id@,
        r is None ==> forall|j: int|
            0 <= j < tags@.len() ==> (#[trigger] tags@[j])@ != player_id@,
{
    let mut i: usize = 0;
    while i < tags.len()
        invariant
            i <= tags@.len(),
            forall|j: int| 0 <= j < i ==> (#[trigger] tags@[j])@ != player_id@,
        decreases tags@.len() - i,
    {
        if tags[i].eq(player_id) {
            return Some(i);
        }
        i = i + 1;
    }
    None
}

/// Whether the bytes `b` are exactly the ASCII text `s`, byte for byte.
fn bytes_match_ascii(b: &Vec<u8>, s: &str) -> (r: bool)
    requires
        is_ascii_chars(s@),
    ensures
        r == (b@ == ascii_bytes(s@)),
{
    let n = s.unicode_len();
    if b.len() != n {
        return false;
    }
    let mut i: usize = 0;
    while i < n
        invariant
            is_ascii_chars(s@),
            n == s@.len(),
            b@.len() == n,
            i <= n,
            forall|j: int| 0 <= j < i ==> b@[j] == s@[j] as u8,
        decreases n - i,
    {
        if b[i] != s.get_ascii(i) {
            assert(b@[i as int] != ascii_bytes(s@)[i as int]);
            return false;
        }
        i = i + 1;
    }
    proof {
        assert(b@ =~= ascii_bytes(s@));
    }
    true
}

/// A copy of a fleet, ship by ship.
fn copy_fleet(ships: &Vec<Ship>) -> (r: Vec<Ship>)
    ensures
        r@.len() == ships@.len(),
        forall|k: int| 0 <= k < ships@.len() ==> (#[trigger] r@[k])@ == ships@[k]@,
{
    let mut v: Vec<Ship> = Vec::new();
    let mut i: usize = 0;
    while i < ships.len()
        invariant
            i <= ships@.len(),
            v@.len() == i,
            forall|k: int| 0 <= k < i ==> (#[trigger] v@[k])@ == ships@[k]@,
        decreases ships@.len() - i,
    {
        v.push(ships[i].duplicate());
        i = i + 1;
    }
    v
}

/// A copy of a grid, cell by cell.
fn copy_grid(g: &PositionVectors) -> (r: PositionVectors)
    ensures
        r@.len() == g@.len(),
        forall|x: int| 0 <= x < g@.len() ==> (#[trigger] r@[x])@.len() == g@[x]@.len(),
        forall|x: int, y: int|
            0 <= x < g@.len() && 0 <= y < g@[x]@.len() ==> #[trigger] grid_cell(r@, x, y)
                == grid_cell(g@, x, y),
{
    let mut out: PositionVectors = Vec::new();
    let mut x: usize = 0;
    while x < g.len()
        invariant
            x <= g@.len(),
            out@.len() == x,
            forall|i: int| 0 <= i < x ==> (#[trigger] out@[i])@.len() == g@[i]@.len(),
            forall|i: int, j: int|
                0 <= i < x && 0 <= j < g@[i]@.len() ==> #[trigger] grid_cell(out@, i, j)
                    == grid_cell(g@, i, j),
        decreases g@.len() - x,
    {
        let src_row = &g[x];
        let mut row: Vec<crate::position::Position> = Vec::new();
        let mut y: usize = 0;
        while y < src_row.len()
            invariant
                x < g@.len(),
                src_row == g@[x as int],
                y <= src_row@.len(),
                row@.len() == y,
                forall|j: int| 0 <= j < y ==> (#[trigger] row@[j])@ == src_row@[j]@,
            decreases src_row@.len() - y,
        {
            row.push(src_row[y].duplicate());
            y = y + 1;
        }
        let ghost pre = out@;
        out.push(row);
        proof {
            assert forall|i: int, j: int|
                0 <= i < x + 1 && 0 <= j < g@[i]@.len() implies #[trigger] grid_cell(out@, i, j)
                == grid_cell(g@, i, j) by {
                if i == x {
                    assert(out@[i] == row);
                    assert(row@[j]@ == g@[i]@[j]@);
                } else {
                    assert(out@[i] == pre[i]);
                    assert(grid_cell(pre, i, j) == grid_cell(g@, i, j));
                }
            }
        }
        x = x + 1;
    }
    out
}

/// Appends `player_id` to the roster of `game` unless it is already there
/// or the roster is full; when the join fills the roster, resets the board
/// to `Untouched`, generates the first round challenge, and starts play.
///
/// Joining with a handle already on the roster leaves the session exactly
/// as it was, and a new handle meeting a full roster leaves it unchanged
/// too: that caller becomes a spectator.
pub fn join_game(game: &mut Game, player_id: String) -> (r: JoinOutcome)
    requires
        old(game).wf(),
    ensures
        final(game).wf(),
        final(game).number_of_players == old(game).number_of_players,
        final(game).game_number == old(game).game_number,
        final(game).boards.ship_set == old(game).boards.ship_set,
        roster_contains(*old(game), player_id@) ==> r == JoinOutcome::AlreadyPresent && *final(game) == *old(game),
        !roster_contains(*old(game), player_id@) && old(game).player_tags@.len() == old(game).number_of_players ==> r == JoinOutcome::Full && *final(game) == *old(game),
        !roster_contains(*old(game), player_id@) && old(game).player_tags@.len() < old(game).number_of_players ==> final(game).player_tags@ == old(game).player_tags@.push(player_id),
        !roster_contains(*old(game), player_id@) && old(game).player_tags@.len() + 1 < old(game).number_of_players ==> r == JoinOutcome::Joined && final(game).challenge == old(game).challenge && final(game).boards == old(game).boards && final(game).shot_list == old(game).shot_list && !final(game).started(),
        !roster_contains(*old(game), player_id@) && old(game).player_tags@.len() + 1 == old(game).number_of_players ==> r == JoinOutcome::Started && final(game).started() && final(game).challenge@.len() == 10 && final(game).shot_list == 0 && grid_all(
            final(game).boards.positions@,
            CellView::Untouched,
        ),
{
    let present = roster_index(&game.player_tags, &player_id);
    if let Some(_) = present {
        return JoinOutcome::AlreadyPresent;
    }
    if game.player_tags.len() == game.number_of_players {
        return JoinOutcome::Full;
    }
    game.player_tags.push(player_id);
    if game.player_tags.len() < game.number_of_players {
        return JoinOutcome::Joined;
    }
    game.boards.start_board();
    let challenge = fresh_challenge();
    proof {
        lemma_alnum_ascii(challenge@);
    }
    game.challenge = challenge;
    proof {
        assert(grid_hides_ships(game.boards.positions@));
    }
    JoinOutcome::Started
}

/// Validates and applies one fire command against the session: the firing
/// slot must not have fired this round, the proof must decrypt to the
/// current round challenge under the firing player's key, and the target
/// slot and coordinates must be in range.  An accepted shot marks the
/// firing slot's bit, resolves the shot against the target's fleet, and —
/// when every roster slot has now fired — clears the bitmask and
/// regenerates the round challenge.  A rejected command leaves the session
/// untouched.
pub fn fire(game: &mut Game, fire_position: &FirePosition, decryption_key: &Vec<u8>) -> (r:
    FireOutcome)
    requires
        old(game).wf(),
    ensures
        final(game).wf(),
        final(game).number_of_players == old(game).number_of_players,
        final(game).game_number == old(game).game_number,
        final(game).player_tags == old(game).player_tags,
        final(game).boards.ship_set == old(game).boards.ship_set,
        final(game).boards.players == old(game).boards.players,
        !(r is Accepted) ==> *final(game) == *old(game),
        r is Accepted <==> old(game).started() && fire_position.from < old(game).number_of_players && !already_acted(*old(game), fire_position.from) && fire_auth_ok(
            *old(game),
            *fire_position,
            decryption_key@,
        ) && fire_ranges_ok(*old(game), *fire_position),
        !old(game).started() ==> r == FireOutcome::AuthenticationFailed,
        old(game).started() && fire_position.from >= old(game).number_of_players ==> r
            == FireOutcome::OutOfRange,
        old(game).started() && fire_position.from < old(game).number_of_players && already_acted(
            *old(game),
            fire_position.from,
        ) ==> r == FireOutcome::AlreadyActed,
        old(game).started() && fire_position.from < old(game).number_of_players && !already_acted(
            *old(game),
            fire_position.from,
        ) && !fire_auth_ok(*old(game), *fire_position, decryption_key@) ==> r
            == FireOutcome::AuthenticationFailed,
        old(game).started() && fire_position.from < old(game).number_of_players && !already_acted(
            *old(game),
            fire_position.from,
        ) && fire_auth_ok(*old(game), *fire_position, decryption_key@) && !fire_ranges_ok(
            *old(game),
            *fire_position,
        ) ==> r == FireOutcome::OutOfRange,
        r is Accepted ==> forall|x: int, y: int, s: int|
            0 <= x < SQUARE_SIDE && 0 <= y < SQUARE_SIDE && 0 <= s < old(game).number_of_players
                ==> #[trigger] grid_cell(final(game).boards.positions@, x, y)[s] == Board::shot_cell(
                old(game).boards.positions@,
                old(game).boards.ship_set@[fire_position.to as int]@,
                fire_position.lon,
                fire_position.lat,
                fire_position.to as int,
                x,
                y,
                s,
            ),
        r is Accepted ==> {
            let m = old(game).shot_list | bit_of(fire_position.from);
            if m == full_mask(old(game).number_of_players) {
                final(game).shot_list == 0 && final(game).challenge@.len() == 10
            } else {
                final(game).shot_list == m && final(game).challenge == old(game).challenge
            }
        },
{
    if game.challenge.as_str().is_empty() {
        return FireOutcome::AuthenticationFailed;
    }
    if fire_position.from >= game.number_of_players {
        return FireOutcome::OutOfRange;
    }
    let from_bit: u32 = 1u32 << (fire_position.from as u32);
    if game.shot_list & from_bit != 0 {
        return FireOutcome::AlreadyActed;
    }
    if fire_position.challenge.len() >= CIPHER_INPUT_LIMIT {
        return FireOutcome::AuthenticationFailed;
    }
    let decrypted_proof = match decrypt_message(decryption_key, &fire_position.challenge) {
        Some(d) => d,
        None => {
            return FireOutcome::AuthenticationFailed;
        },
    };
    if !bytes_match_ascii(&decrypted_proof, game.challenge.as_str()) {
        return FireOutcome::AuthenticationFailed;
    }
    if fire_position.to >= game.number_of_players || fire_position.lon >= SQUARE_SIDE
        || fire_position.lat >= SQUARE_SIDE {
        return FireOutcome::OutOfRange;
    }
    let new_positions = match game.boards.fire(
        fire_position.lon,
        fire_position.lat,
        fire_position.to,
    ) {
        Ok(v) => v,
        Err(_) => vstd::pervasive::unreached(),
    };
    game.boards.positions = new_positions;
    let new_mask = game.shot_list | from_bit;
    game.shot_list = new_mask;
    proof {
        lemma_mask_or(
            old(game).shot_list,
            fire_position.from as u32,
            game.number_of_players as u32,
        );
    }
    let capacity: u32 = game.number_of_players as u32;
    proof {
        assert((0 < capacity < 32) ==> 1u32 << capacity >= 1) by (bit_vector);
    }
    let full: u32 = (1u32 << capacity) - 1;
    proof {
        lemma_full_mask_exec(capacity);
        assert(full == full_mask(game.number_of_players));
    }
    if new_mask == full {
        game.shot_list = 0;
        let challenge = fresh_challenge();
        proof {
            lemma_alnum_ascii(challenge@);
        }
        game.challenge = challenge;
        proof {
            assert(0u32 & full_mask(game.number_of_players) == 0u32) by (bit_vector);
        }
    }
    FireOutcome::Accepted
}

/// Whether the requester of a session read is a stranger to a full game:
/// they are shown the spectator view, with no challenge and no ship data.
pub open spec fn spectator_case(g: Game, pid: Seq<char>) -> bool {
    !roster_contains(g, pid) && g.player_tags@.len() == g.number_of_players
}

/// Whether a session read is fully authorized: a key was found for the
/// requester, the access key is well-formed hex small enough for the
/// cipher to take, its bytes decrypt under that key to the literal
/// request plaintext, and play has begun.
pub open spec fn read_auth_ok(g: Game, ak: Seq<char>, key: Option<&Vec<u8>>) -> bool {
    match key {
        Some(k) => {
            &&& hex_pairs_ok(ak)
            &&& hex_decoded(ak).len() < CIPHER_INPUT_LIMIT
            &&& decrypted(k@, hex_decoded(ak)) == Some(ascii_bytes("Request"@))
            &&& g.started()
        },
        None => false,
    }
}

/// Reads the session as `player_id` is allowed to see it.  A stranger to a
/// full game gets the spectator view: no challenge, no ships, the stored
/// board.  A requester whose proof fails, or who asks before play begins,
/// gets the same board with the challenge but no ships.  An authenticated
/// roster member gets their slot, their own fleet, and the board with
/// their own un-hit ship cells overlaid; an opponent's ships are never in
/// any of these views.
pub fn get_session_state(
    game: &Game,
    player_id: &String,
    access_key: &String,
    decryption_key: Option<&Vec<u8>>,
) -> (r: SessionView)
    requires
        game.wf(),
    ensures
        r.roster@ == game.player_tags@,
        grid_dims_ok(r.board@),
        spectator_case(*game, player_id@) ==> r.access is Spectator && r.challenge@.len() == 0
            && r.ships@.len() == 0,
        !spectator_case(*game, player_id@) ==> r.challenge@ == game.challenge@,
        !spectator_case(*game, player_id@) && !read_auth_ok(*game, access_key@, decryption_key)
            ==> r.access is Unauthenticated && r.ships@.len() == 0,
        spectator_case(*game, player_id@) || !read_auth_ok(*game, access_key@, decryption_key)
            ==> forall|x: int, y: int|
            0 <= x < SQUARE_SIDE && 0 <= y < SQUARE_SIDE ==> #[trigger] grid_cell(r.board@, x, y)
                == grid_cell(game.boards.positions@, x, y),
        !spectator_case(*game, player_id@) && read_auth_ok(*game, access_key@, decryption_key)
            ==> (r.access matches AccessLevel::Player(i) && {
            &&& i < game.player_tags@.len()
            &&& game.player_tags@[i as int]@ == player_id@
            &&& forall|j: int| 0 <= j < i ==> (#[trigger] game.player_tags@[j])@ != player_id@
            &&& r.ships@.len() == game.boards.ship_set@[i as int]@.len()
            &&& forall|k: int|
                0 <= k < r.ships@.len() ==> (#[trigger] r.ships@[k])@
                    == game.boards.ship_set@[i as int]@[k]@
            &&& forall|x: int, y: int, s: int|
                0 <= x < SQUARE_SIDE && 0 <= y < SQUARE_SIDE && 0 <= s < game.number_of_players
                    ==> #[trigger] grid_cell(r.board@, x, y)[s] == Board::overlaid_cell(
                    game.boards.positions@,
                    game.boards.ship_set@[i as int]@,
                    i as int,
                    x,
                    y,
                    s,
                )
        }),
{
    let roster = copy_strings(&game.player_tags);
    let idx = roster_index(&game.player_tags, player_id);
    if idx.is_none() && game.player_tags.len() == game.number_of_players {
        return SessionView {
            access: AccessLevel::Spectator,
            challenge: String::new(),
            roster,
            ships: Vec::new(),
            board: copy_grid(&game.boards.positions),
        };
    }
    let authorized: bool = match decryption_key {
        None => false,
        Some(key) => match hex_decode(access_key.as_str()) {
            None => false,
            Some(bytes) => if bytes.len() >= CIPHER_INPUT_LIMIT {
                false
            } else {
                match decrypt_message(key, &bytes) {
                None => false,
                Some(plain) => {
                    proof {
                        reveal_strlit("Request");
                        assert(is_ascii_chars("Request"@));
                    }
                    let matches_request = bytes_match_ascii(&plain, "Request");
                    matches_request && !game.challenge.as_str().is_empty()
                },
                }
            },
        },
    };
    if !authorized {
        return SessionView {
            access: AccessLevel::Unauthenticated,
            challenge: game.challenge.clone(),
            roster,
            ships: Vec::new(),
            board: copy_grid(&game.boards.positions),
        };
    }
    let player_index = match idx {
        Some(i) => i,
        None => vstd::pervasive::unreached(),
    };
    let ships = copy_fleet(&game.boards.ship_set[player_index]);
    let board = game.boards.get_board_with_player_positions(player_index);
    SessionView {
        access: AccessLevel::Player(player_index),
        challenge: game.challenge.clone(),
        roster,
        ships,
        board,
    }
}

/// Law: a session view never shows ship state where it should not.  Slots
/// other than the requester's own are never overlaid — the personal view
/// shows exactly the stored state there — and the stored board of a sound
/// session never holds a `Ship` state, so the spectator and
/// unauthenticated views reveal nobody's ships.  At the requester's own
/// slot, every cell covered by their own fleet and not already `Hit` is
/// shown as a ship.
pub proof fn lemma_session_view_confidentiality(g: Game, pi: int, x: int, y: int, s: int)
    requires
        g.wf(),
        0 <= pi < g.number_of_players,
        0 <= x < SQUARE_SIDE,
        0 <= y < SQUARE_SIDE,
        0 <= s < g.number_of_players,
    ensures
        !(grid_cell(g.boards.positions@, x, y)[s] is Ship),
        s != pi ==> Board::overlaid_cell(g.boards.positions@, g.boards.ship_set@[pi]@, pi, x, y, s)
            == grid_cell(g.boards.positions@, x, y)[s],
        s == pi && fleet_covers(g.boards.ship_set@[pi]@, x as usize, y as usize) && !(grid_cell(
            g.boards.positions@,
            x,
            y,
        )[s] is Hit) ==> Board::overlaid_cell(
            g.boards.positions@,
            g.boards.ship_set@[pi]@,
            pi,
            x,
            y,
            s,
        ) is Ship,
{
    assert(grid_cell(g.boards.positions@, x, y).len() == g.number_of_players);
}


/// Allocates the next game: the fresh session, its directory entry, and
/// the game counter value to store back.
pub fn create_game(number_of_players: usize, game_count: u64) -> (r: (Game, GameListEntry, u64))
    requires
        0 < number_of_players < 32,
        game_count < u64::MAX,
    ensures
        r.2 == game_count + 1,
        r.0.wf(),
        r.0.number_of_players == number_of_players,
        r.0.game_number == r.2,
        r.0.player_tags@.len() == 0,
        r.0.shot_list == 0,
        !r.0.started(),
        r.0.boards.ship_set@.len() == number_of_players,
        forall|p: int|
            0 <= p < number_of_players ==> crate::ship::is_standard_fleet(
                (#[trigger] r.0.boards.ship_set@[p])@,
            ),
        r.1.wf(),
        r.1.game_record_number == r.2,
        r.1.total_positions == number_of_players,
        r.1.active_player_names@.len() == 0,
{
    let new_count = game_count + 1;
    let game = Game::new(number_of_players, new_count);
    let entry = GameListEntry::new(new_count, number_of_players);
    (game, entry, new_count)
}

} // verus!
