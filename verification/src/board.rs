//! The session board: a fixed 10x10 grid of cells, one fired state per
//! player slot in every cell, and one fleet of ships per player.

use vstd::prelude::*;

use crate::position::{CellView, FiredState, Position, SQUARE_SIDE};
use crate::ship::{fleet_in_grid, is_standard_fleet, Ship, ShipSet};

verus! {

/// The grid of cells of one board.
pub type PositionVectors = Vec<Vec<Position>>;

/// The cell of a grid at `(x, y)`, as a sequence of per-slot states.
pub open spec fn grid_cell(g: Seq<Vec<Position>>, x: int, y: int) -> Seq<CellView> {
    g[x]@[y]@
}

/// Whether a grid has the fixed square dimensions.
pub open spec fn grid_dims_ok(g: Seq<Vec<Position>>) -> bool {
    &&& g.len() == SQUARE_SIDE
    &&& forall|x: int| 0 <= x < g.len() ==> (#[trigger] g[x])@.len() == SQUARE_SIDE
}

/// Whether every cell of a grid carries exactly `n` slots.
pub open spec fn grid_cells_sized(g: Seq<Vec<Position>>, n: int) -> bool {
    forall|x: int, y: int|
        0 <= x < SQUARE_SIDE && 0 <= y < SQUARE_SIDE ==> (#[trigger] grid_cell(g, x, y)).len() == n
}

/// Whether every slot of every cell of a grid holds the state `cv`.
pub open spec fn grid_all(g: Seq<Vec<Position>>, cv: CellView) -> bool {
    forall|x: int, y: int, s: int|
        0 <= x < SQUARE_SIDE && 0 <= y < SQUARE_SIDE && 0 <= s < grid_cell(g, x, y).len()
            ==> #[trigger] grid_cell(g, x, y)[s] == cv
}

/// Whether no slot of any cell of a grid holds a `Ship` state.  The stored
/// board of a session never does: ship positions live only in the fleets,
/// and are overlaid onto a player's personal view of the board.
pub open spec fn grid_hides_ships(g: Seq<Vec<Position>>) -> bool {
    forall|x: int, y: int, s: int|
        0 <= x < SQUARE_SIDE && 0 <= y < SQUARE_SIDE && 0 <= s < grid_cell(g, x, y).len() ==> !((
        #[trigger] grid_cell(g, x, y)[s]) is Ship)
}

/// Whether some ship of `ships` occupies the cell `(x, y)`.
pub open spec fn fleet_covers(ships: Seq<Ship>, x: usize, y: usize) -> bool {
    exists|k: int| 0 <= k < ships.len() && (#[trigger] ships[k]).location@.contains((x, y))
}

/// How a shot at `(x, y)` against the fleet `ships` resolves.  The previous
/// state of the cell plays no part: a shot over an occupied cell is a `Hit`
/// even if the cell was hit before, so resolution is idempotent.
pub open spec fn resolve_shot(prev: CellView, ships: Seq<Ship>, x: usize, y: usize) -> CellView {
    if fleet_covers(ships, x, y) {
        CellView::Hit
    } else {
        CellView::Miss
    }
}

/// Resolving a shot a second time gives the same cell state, and a shot
/// over an occupied cell always leaves the cell `Hit`.
pub proof fn lemma_resolve_idempotent(prev: CellView, ships: Seq<Ship>, x: usize, y: usize)
    ensures
        resolve_shot(resolve_shot(prev, ships, x, y), ships, x, y) == resolve_shot(
            prev,
            ships,
            x,
            y,
        ),
        fleet_covers(ships, x, y) ==> resolve_shot(prev, ships, x, y) == CellView::Hit,
{
}

/// The kind of the highest-numbered ship of `ships` covering `(x, y)`, or
/// the empty kind when none does.
pub open spec fn last_cover_name(ships: Seq<Ship>, x: usize, y: usize) -> Seq<char>
    decreases ships.len(),
{
    if ships.len() == 0 {
        Seq::<char>::empty()
    } else if ships.last().location@.contains((x, y)) {
        ships.last().name@
    } else {
        last_cover_name(ships.drop_last(), x, y)
    }
}

/// What a player's personal view shows at their own slot of a cell: their
/// un-hit ship cells are overlaid as `Ship(kind)`, everything else is shown
/// as stored.
pub open spec fn overlay_cell(prev: CellView, ships: Seq<Ship>, x: usize, y: usize) -> CellView {
    if !fleet_covers(ships, x, y) {
        prev
    } else if prev is Hit {
        prev
    } else {
        CellView::Ship(last_cover_name(ships, x, y))
    }
}

/// A session board: the stored grid and one fleet per player slot.
pub struct Board {
    pub positions: PositionVectors,
    pub ship_set: Vec<Vec<Ship>>,
    pub players: usize,
}

impl Board {
    /// Structural soundness of a board: square grid, one state per player
    /// in every cell, no stored `Ship` state, one in-grid fleet per player.
    pub open spec fn wf(&self) -> bool {
        &&& grid_dims_ok(self.positions@)
        &&& grid_cells_sized(self.positions@, self.players as int)
        &&& grid_hides_ships(self.positions@)
        &&& self.ship_set@.len() == self.players
        &&& forall|p: int|
            0 <= p < self.players ==> fleet_in_grid((#[trigger] self.ship_set@[p])@)
    }

    /// A fresh board for `players` slots: every cell `Empty`, one standard
    /// fleet per player.
    pub fn new(players: usize) -> (r: Self)
        ensures
            r.wf(),
            r.players == players,
            grid_all(r.positions@, CellView::Empty),
            r.ship_set@.len() == players,
            forall|p: int| 0 <= p < players ==> is_standard_fleet((#[trigger] r.ship_set@[p])@),
    {
        let ship_set = ShipSet::new(players);
        proof {
            assert forall|p: int| 0 <= p < players implies fleet_in_grid(
                (#[trigger] ship_set@[p])@,
            ) by {
                crate::ship::lemma_standard_fleet_in_grid(ship_set@[p]@);
            }
        }
        Self { positions: Self::initialize_board(players), ship_set, players }
    }

    /// A fresh grid: the fixed square of cells, each `Empty` for `players`
    /// slots.
    pub fn initialize_board(players: usize) -> (r: PositionVectors)
        ensures
            grid_dims_ok(r@),
            grid_cells_sized(r@, players as int),
            grid_all(r@, CellView::Empty),
    {
        let mut grid: PositionVectors = Vec::new();
        let mut x: usize = 0;
        while x < SQUARE_SIDE
            invariant
                x <= SQUARE_SIDE,
                grid@.len() == x,
                forall|i: int| 0 <= i < x ==> (#[trigger] grid@[i])@.len() == SQUARE_SIDE,
                forall|i: int, j: int|
                    0 <= i < x && 0 <= j < SQUARE_SIDE ==> (#[trigger] grid_cell(grid@, i, j)).len()
                        == players,
                forall|i: int, j: int, s: int|
                    0 <= i < x && 0 <= j < SQUARE_SIDE && 0 <= s < players
                        ==> #[trigger] grid_cell(grid@, i, j)[s] == CellView::Empty,
            decreases SQUARE_SIDE - x,
        {
            let mut row: Vec<Position> = Vec::new();
            let mut y: usize = 0;
            while y < SQUARE_SIDE
                invariant
                    x < SQUARE_SIDE,
                    y <= SQUARE_SIDE,
                    row@.len() == y,
                    forall|j: int| 0 <= j < y ==> (#[trigger] row@[j])@.len() == players,
                    forall|j: int, s: int|
                        0 <= j < y && 0 <= s < players ==> #[trigger] row@[j]@[s]
                            == CellView::Empty,
                decreases SQUARE_SIDE - y,
            {
                let cell = match Position::new(x, y, None, players) {
                    Ok(p) => p,
                    Err(_) => vstd::pervasive::unreached(),
                };
                row.push(cell);
                y = y + 1;
            }
            let ghost pre = grid@;
            grid.push(row);
            proof {
                assert forall|i: int, j: int|
                    0 <= i < x + 1 && 0 <= j < SQUARE_SIDE implies (#[trigger] grid_cell(
                    grid@,
                    i,
                    j,
                )).len() == players by {
                    if i == x {
                        assert(grid@[i] == row);
                        assert(row@[j]@.len() == players);
                    } else {
                        assert(grid@[i] == pre[i]);
                        assert(grid_cell(pre, i, j).len() == players);
                    }
                }
                assert forall|i: int, j: int, s: int|
                    0 <= i < x + 1 && 0 <= j < SQUARE_SIDE && 0 <= s
                        < players implies #[trigger] grid_cell(grid@, i, j)[s]
                    == CellView::Empty by {
                    if i == x {
                        assert(grid@[i] == row);
                        assert(row@[j]@[s] == CellView::Empty);
                    } else {
                        assert(grid@[i] == pre[i]);
                        assert(grid_cell(pre, i, j)[s] == CellView::Empty);
                    }
                }
            }
            x = x + 1;
        }
        grid
    }

    /// A board for no players at all: the fixed grid with zero-slot cells
    /// and no fleets.
    pub fn empty() -> (r: Self)
        ensures
            r.wf(),
            r.players == 0,
            grid_all(r.positions@, CellView::Empty),
    {
        Self { positions: Self::initialize_board(0), ship_set: ShipSet::new(0), players: 0 }
    }

    /// Resets every cell of the grid to `Untouched` for every player slot,
    /// leaving the fleets as they are.  This is the round-start reset that
    /// runs when the roster fills.
    pub fn start_board(&mut self)
        ensures
            final(self).ship_set == old(self).ship_set,
            final(self).players == old(self).players,
            grid_dims_ok(final(self).positions@),
            grid_cells_sized(final(self).positions@, final(self).players as int),
            grid_all(final(self).positions@, CellView::Untouched),
    {
        let players = self.players;
        let mut grid: PositionVectors = Vec::new();
        let mut x: usize = 0;
        while x < SQUARE_SIDE
            invariant
                x <= SQUARE_SIDE,
                grid@.len() == x,
                forall|i: int| 0 <= i < x ==> (#[trigger] grid@[i])@.len() == SQUARE_SIDE,
                forall|i: int, j: int|
                    0 <= i < x && 0 <= j < SQUARE_SIDE ==> (#[trigger] grid_cell(grid@, i, j)).len()
                        == players,
                forall|i: int, j: int, s: int|
                    0 <= i < x && 0 <= j < SQUARE_SIDE && 0 <= s < players
                        ==> #[trigger] grid_cell(grid@, i, j)[s] == CellView::Untouched,
            decreases SQUARE_SIDE - x,
        {
            let mut row: Vec<Position> = Vec::new();
            let mut y: usize = 0;
            while y < SQUARE_SIDE
                invariant
                    x < SQUARE_SIDE,
                    y <= SQUARE_SIDE,
                    row@.len() == y,
                    forall|j: int| 0 <= j < y ==> (#[trigger] row@[j])@.len() == players,
                    forall|j: int, s: int|
                        0 <= j < y && 0 <= s < players ==> #[trigger] row@[j]@[s]
                            == CellView::Untouched,
                decreases SQUARE_SIDE - y,
            {
                row.push(Position { fired_state: crate::position::untouched_states(players) });
                y = y + 1;
            }
            let ghost pre = grid@;
            grid.push(row);
            proof {
                assert forall|i: int, j: int|
                    0 <= i < x + 1 && 0 <= j < SQUARE_SIDE implies (#[trigger] grid_cell(
                    grid@,
                    i,
                    j,
                )).len() == players by {
                    if i == x {
                        assert(grid@[i] == row);
                        assert(row@[j]@.len() == players);
                    } else {
                        assert(grid@[i] == pre[i]);
                        assert(grid_cell(pre, i, j).len() == players);
                    }
                }
                assert forall|i: int, j: int, s: int|
                    0 <= i < x + 1 && 0 <= j < SQUARE_SIDE && 0 <= s
                        < players implies #[trigger] grid_cell(grid@, i, j)[s]
                    == CellView::Untouched by {
                    if i == x {
                        assert(grid@[i] == row);
                        assert(row@[j]@[s] == CellView::Untouched);
                    } else {
                        assert(grid@[i] == pre[i]);
                        assert(grid_cell(pre, i, j)[s] == CellView::Untouched);
                    }
                }
            }
            x = x + 1;
        }
        self.positions = grid;
    }

    /// Whether some ship of the fleet `ships` occupies `(x, y)`.
    fn fleet_hit(ships: &Vec<Ship>, x: usize, y: usize) -> (r: bool)
        ensures
            r == fleet_covers(ships@, x, y),
    {
        let mut k: usize = 0;
        let mut hit = false;
        while k < ships.len()
            invariant
                k <= ships@.len(),
                hit == fleet_covers(ships@.take(k as int), x, y),
            decreases ships@.len() - k,
        {
            let ghost pre = ships@.take(k as int);
            let covers = ships[k].check_hit(x, y);
            hit = hit || covers;
            proof {
                let cur = ships@.take(k + 1 as int);
                assert(cur.drop_last() =~= pre);
                assert(cur.last() == ships@[k as int]);
                if covers {
                    assert(cur[k as int].location@.contains((x, y)));
                    assert(fleet_covers(cur, x, y));
                } else if fleet_covers(pre, x, y) {
                    let w = choose|i: int|
                        0 <= i < pre.len() && (#[trigger] pre[i]).location@.contains((x, y));
                    assert(cur[w].location@.contains((x, y)));
                } else if fleet_covers(cur, x, y) {
                    let w = choose|i: int|
                        0 <= i < cur.len() && (#[trigger] cur[i]).location@.contains((x, y));
                    assert(0 <= w < pre.len() || w == k);
                    if w < pre.len() {
                        assert(pre[w].location@.contains((x, y)));
                    }
                }
            }
            k = k + 1;
        }
        proof {
            assert(ships@.take(ships@.len() as int) =~= ships@);
        }
        hit
    }

    /// The slot `to` of the cell `(x, y)` of the returned grid after a shot
    /// there; every other slot is as stored.
    pub open spec fn shot_cell(
        g: Seq<Vec<Position>>,
        ships: Seq<Ship>,
        lon: usize,
        lat: usize,
        to: int,
        x: int,
        y: int,
        s: int,
    ) -> CellView {
        if x == lon && y == lat && s == to {
            resolve_shot(grid_cell(g, x, y)[s], ships, lon, lat)
        } else {
            grid_cell(g, x, y)[s]
        }
    }

    /// Resolves a shot by slot `to`'s opponent at `(lon, lat)` against slot
    /// `to`'s fleet, returning the grid that results.  The stored board is
    /// left untouched; out-of-grid coordinates and an out-of-roster target
    /// are rejected, never applied.
    pub fn fire(&mut self, lon: usize, lat: usize, to: usize) -> (r: Result<
        PositionVectors,
        String,
    >)
        requires
            old(self).wf(),
        ensures
            *final(self) == *old(self),
            r is Ok <==> lon < SQUARE_SIDE && lat < SQUARE_SIDE && to < old(self).players,
            r matches Ok(v) ==> {
                &&& grid_dims_ok(v@)
                &&& grid_cells_sized(v@, old(self).players as int)
                &&& grid_hides_ships(v@)
                &&& forall|x: int, y: int, s: int|
                    0 <= x < SQUARE_SIDE && 0 <= y < SQUARE_SIDE && 0 <= s < old(self).players
                        ==> #[trigger] grid_cell(v@, x, y)[s] == Self::shot_cell(
                        old(self).positions@,
                        old(self).ship_set@[to as int]@,
                        lon,
                        lat,
                        to as int,
                        x,
                        y,
                        s,
                    )
            },
    {
        if lon >= SQUARE_SIDE || lat >= SQUARE_SIDE {
            proof { reveal_strlit("board: fire: coordinates lie outside the board"); }
            return Err(String::from_str("board: fire: coordinates lie outside the board"));
        }
        if to >= self.players {
            proof { reveal_strlit("board: fire: target is not a roster slot"); }
            return Err(String::from_str("board: fire: target is not a roster slot"));
        }
        let hit = Self::fleet_hit(&self.ship_set[to], lon, lat);
        let resolved = if hit {
            FiredState::Hit
        } else {
            FiredState::Miss
        };
        let mut grid: PositionVectors = Vec::new();
        let mut x: usize = 0;
        while x < SQUARE_SIDE
            invariant
                old(self).wf(),
                *self == *old(self),
                lon < SQUARE_SIDE,
                lat < SQUARE_SIDE,
                to < self.players,
                resolved@ == resolve_shot(
                    grid_cell(self.positions@, lon as int, lat as int)[to as int],
                    self.ship_set@[to as int]@,
                    lon,
                    lat,
                ),
                x <= SQUARE_SIDE,
                grid@.len() == x,
                forall|i: int| 0 <= i < x ==> (#[trigger] grid@[i])@.len() == SQUARE_SIDE,
                forall|i: int, j: int|
                    0 <= i < x && 0 <= j < SQUARE_SIDE ==> (#[trigger] grid_cell(grid@, i, j)).len()
                        == self.players,
                forall|i: int, j: int, s: int|
                    0 <= i < x && 0 <= j < SQUARE_SIDE && 0 <= s < self.players
                        ==> #[trigger] grid_cell(grid@, i, j)[s] == Self::shot_cell(
                        self.positions@,
                        self.ship_set@[to as int]@,
                        lon,
                        lat,
                        to as int,
                        i,
                        j,
                        s,
                    ),
            decreases SQUARE_SIDE - x,
        {
            let mut row: Vec<Position> = Vec::new();
            let mut y: usize = 0;
            while y < SQUARE_SIDE
                invariant
                    old(self).wf(),
                    *self == *old(self),
                    lon < SQUARE_SIDE,
                    lat < SQUARE_SIDE,
                    to < self.players,
                    x < SQUARE_SIDE,
                    resolved@ == resolve_shot(
                        grid_cell(self.positions@, lon as int, lat as int)[to as int],
                        self.ship_set@[to as int]@,
                        lon,
                        lat,
                    ),
                    y <= SQUARE_SIDE,
                    row@.len() == y,
                    forall|j: int, s: int|
                        0 <= j < y && 0 <= s < self.players ==> (#[trigger] row@[j]@[s])
                            == Self::shot_cell(
                            self.positions@,
                            self.ship_set@[to as int]@,
                            lon,
                            lat,
                            to as int,
                            x as int,
                            j,
                            s,
                        ),
                    forall|j: int| 0 <= j < y ==> (#[trigger] row@[j])@.len() == self.players,
                decreases SQUARE_SIDE - y,
            {
                proof {
                    assert(grid_cell(self.positions@, x as int, y as int).len() == self.players);
                }
                if x == lon && y == lat {
                    let mut fs = self.positions[x][y].get_fired_state();
                    proof {
                        assert(fs@.map_values(|f: FiredState| f@).len() == fs@.len());
                    }
                    fs.set(to, resolved.duplicate());
                    let cell = Position { fired_state: fs };
                    proof {
                        assert(cell@.len() == self.players);
                        assert forall|s: int| 0 <= s < self.players implies cell@[s]
                            == Self::shot_cell(
                            self.positions@,
                            self.ship_set@[to as int]@,
                            lon,
                            lat,
                            to as int,
                            x as int,
                            y as int,
                            s,
                        ) by {}
                    }
                    row.push(cell);
                } else {
                    row.push(self.positions[x][y].duplicate());
                }
                y = y + 1;
            }
            let ghost pre = grid@;
            grid.push(row);
            proof {
                assert forall|i: int, j: int|
                    0 <= i < x + 1 && 0 <= j < SQUARE_SIDE implies (#[trigger] grid_cell(
                    grid@,
                    i,
                    j,
                )).len() == self.players by {
                    if i == x {
                        assert(grid@[i] == row);
                        assert(row@[j]@.len() == self.players);
                    } else {
                        assert(grid@[i] == pre[i]);
                        assert(grid_cell(pre, i, j).len() == self.players);
                    }
                }
                assert forall|i: int, j: int, s: int|
                    0 <= i < x + 1 && 0 <= j < SQUARE_SIDE && 0 <= s
                        < self.players implies #[trigger] grid_cell(grid@, i, j)[s]
                    == Self::shot_cell(
                    self.positions@,
                    self.ship_set@[to as int]@,
                    lon,
                    lat,
                    to as int,
                    i,
                    j,
                    s,
                ) by {
                    if i == x {
                        assert(grid@[i] == row);
                        assert(row@[j]@[s] == Self::shot_cell(
                            self.positions@,
                            self.ship_set@[to as int]@,
                            lon,
                            lat,
                            to as int,
                            i,
                            j,
                            s,
                        ));
                    } else {
                        assert(grid@[i] == pre[i]);
                        assert(grid_cell(pre, i, j)[s] == Self::shot_cell(
                            self.positions@,
                            self.ship_set@[to as int]@,
                            lon,
                            lat,
                            to as int,
                            i,
                            j,
                            s,
                        ));
                    }
                }
            }
            x = x + 1;
        }
        Ok(grid)
    }

    /// The slot `s` of the cell `(x, y)` of the personal view grid for the
    /// player at slot `pi`: their own slot is overlaid, all others are as
    /// stored.
    pub open spec fn overlaid_cell(
        g: Seq<Vec<Position>>,
        ships: Seq<Ship>,
        pi: int,
        x: int,
        y: int,
        s: int,
    ) -> CellView {
        if s == pi {
            overlay_cell(grid_cell(g, x, y)[s], ships, x as usize, y as usize)
        } else {
            grid_cell(g, x, y)[s]
        }
    }

    /// The cell `(x, y)` as the player at slot `pi` sees it: their own
    /// un-hit ship cells are overlaid as `Ship(kind)` at their own slot,
    /// every other slot is as stored.
    fn overlay_position(cell: &Position, ships: &Vec<Ship>, pi: usize, x: usize, y: usize) -> (r:
        Position)
        requires
            pi < cell.fired_state@.len(),
        ensures
            r@.len() == cell@.len(),
            forall|s: int| 0 <= s < cell@.len() && s != pi ==> r@[s] == cell@[s],
            r@[pi as int] == overlay_cell(cell@[pi as int], ships@, x, y),
    {
        let mut covered = false;
        let mut kind: Option<String> = None;
        let mut k: usize = 0;
        while k < ships.len()
            invariant
                k <= ships@.len(),
                covered == fleet_covers(ships@.take(k as int), x, y),
                covered ==> (kind matches Some(n) && n@ == last_cover_name(
                    ships@.take(k as int),
                    x,
                    y,
                )),
            decreases ships@.len() - k,
        {
            let ghost pre = ships@.take(k as int);
            let covers = ships[k].check_hit(x, y);
            if covers {
                covered = true;
                kind = Some(ships[k].name.clone());
            }
            proof {
                let cur = ships@.take(k + 1 as int);
                assert(cur.drop_last() =~= pre);
                assert(cur.last() == ships@[k as int]);
                if covers {
                    assert(cur[k as int].location@.contains((x, y)));
                    assert(fleet_covers(cur, x, y));
                } else {
                    if fleet_covers(pre, x, y) {
                        let w = choose|i: int|
                            0 <= i < pre.len() && (#[trigger] pre[i]).location@.contains((x, y));
                        assert(cur[w].location@.contains((x, y)));
                    } else if fleet_covers(cur, x, y) {
                        let w = choose|i: int|
                            0 <= i < cur.len() && (#[trigger] cur[i]).location@.contains((x, y));
                        assert(0 <= w < pre.len() || w == k);
                        if w < pre.len() {
                            assert(pre[w].location@.contains((x, y)));
                        }
                    }
                }
            }
            k = k + 1;
        }
        proof {
            assert(ships@.take(ships@.len() as int) =~= ships@);
        }
        let mut fs = cell.get_fired_state();
        proof {
            assert(fs@.map_values(|f: FiredState| f@).len() == fs@.len());
        }
        if covered {
            let already_hit = match &cell.fired_state[pi] {
                FiredState::Hit => true,
                _ => false,
            };
            if !already_hit {
                let name = match kind {
                    Some(n) => n,
                    None => vstd::pervasive::unreached(),
                };
                fs.set(pi, FiredState::Ship(name));
            }
        }
        let r = Position { fired_state: fs };
        r
    }

    /// The grid as the player at slot `player_index` sees it: their own
    /// un-hit ship cells overlaid as `Ship(kind)` at their own slot, every
    /// other slot exactly as stored — an opponent's ships are never shown.
    pub fn get_board_with_player_positions(&self, player_index: usize) -> (r: PositionVectors)
        requires
            self.wf(),
            player_index < self.players,
        ensures
            grid_dims_ok(r@),
            grid_cells_sized(r@, self.players as int),
            forall|x: int, y: int, s: int|
                0 <= x < SQUARE_SIDE && 0 <= y < SQUARE_SIDE && 0 <= s < self.players
                    ==> #[trigger] grid_cell(r@, x, y)[s] == Self::overlaid_cell(
                    self.positions@,
                    self.ship_set@[player_index as int]@,
                    player_index as int,
                    x,
                    y,
                    s,
                ),
    {
        let mut grid: PositionVectors = Vec::new();
        let mut x: usize = 0;
        while x < SQUARE_SIDE
            invariant
                self.wf(),
                player_index < self.players,
                x <= SQUARE_SIDE,
                grid@.len() == x,
                forall|i: int| 0 <= i < x ==> (#[trigger] grid@[i])@.len() == SQUARE_SIDE,
                forall|i: int, j: int|
                    0 <= i < x && 0 <= j < SQUARE_SIDE ==> (#[trigger] grid_cell(grid@, i, j)).len()
                        == self.players,
                forall|i: int, j: int, s: int|
                    0 <= i < x && 0 <= j < SQUARE_SIDE && 0 <= s < self.players
                        ==> #[trigger] grid_cell(grid@, i, j)[s] == Self::overlaid_cell(
                        self.positions@,
                        self.ship_set@[player_index as int]@,
                        player_index as int,
                        i,
                        j,
                        s,
                    ),
            decreases SQUARE_SIDE - x,
        {
            let mut row: Vec<Position> = Vec::new();
            let mut y: usize = 0;
            while y < SQUARE_SIDE
                invariant
                    self.wf(),
                    player_index < self.players,
                    x < SQUARE_SIDE,
                    y <= SQUARE_SIDE,
                    row@.len() == y,
                    forall|j: int| 0 <= j < y ==> (#[trigger] row@[j])@.len() == self.players,
                    forall|j: int, s: int|
                        0 <= j < y && 0 <= s < self.players ==> (#[trigger] row@[j]@[s])
                            == Self::overlaid_cell(
                            self.positions@,
                            self.ship_set@[player_index as int]@,
                            player_index as int,
                            x as int,
                            j,
                            s,
                        ),
                decreases SQUARE_SIDE - y,
            {
                proof {
                    assert(grid_cell(self.positions@, x as int, y as int).len() == self.players);
                }
                let cell = Self::overlay_position(
                    &self.positions[x][y],
                    &self.ship_set[player_index],
                    player_index,
                    x,
                    y,
                );
                row.push(cell);
                y = y + 1;
            }
            let ghost pre = grid@;
            grid.push(row);
            proof {
                assert forall|i: int, j: int|
                    0 <= i < x + 1 && 0 <= j < SQUARE_SIDE implies (#[trigger] grid_cell(
                    grid@,
                    i,
                    j,
                )).len() == self.players by {
                    if i == x {
                        assert(grid@[i] == row);
                        assert(row@[j]@.len() == self.players);
                    } else {
                        assert(grid@[i] == pre[i]);
                        assert(grid_cell(pre, i, j).len() == self.players);
                    }
                }
                assert forall|i: int, j: int, s: int|
                    0 <= i < x + 1 && 0 <= j < SQUARE_SIDE && 0 <= s
                        < self.players implies #[trigger] grid_cell(grid@, i, j)[s]
                    == Self::overlaid_cell(
                    self.positions@,
                    self.ship_set@[player_index as int]@,
                    player_index as int,
                    i,
                    j,
                    s,
                ) by {
                    if i == x {
                        assert(grid@[i] == row);
                        assert(row@[j]@[s] == Self::overlaid_cell(
                            self.positions@,
                            self.ship_set@[player_index as int]@,
                            player_index as int,
                            i,
                            j,
                            s,
                        ));
                    } else {
                        assert(grid@[i] == pre[i]);
                        assert(grid_cell(pre, i, j)[s] == Self::overlaid_cell(
                            self.positions@,
                            self.ship_set@[player_index as int]@,
                            player_index as int,
                            i,
                            j,
                            s,
                        ));
                    }
                }
            }
            x = x + 1;
        }
        grid
    }

    /// Decides whether a grid has the fixed square dimensions.
    fn check_dims(g: &PositionVectors) -> (r: bool)
        ensures
            r == grid_dims_ok(g@),
    {
        if g.len() != SQUARE_SIDE {
            return false;
        }
        let mut x: usize = 0;
        while x < SQUARE_SIDE
            invariant
                g@.len() == SQUARE_SIDE,
                x <= SQUARE_SIDE,
                forall|i: int| 0 <= i < x ==> (#[trigger] g@[i])@.len() == SQUARE_SIDE,
            decreases SQUARE_SIDE - x,
        {
            if g[x].len() != SQUARE_SIDE {
                proof {
                    assert(g@[x as int]@.len() != SQUARE_SIDE);
                }
                return false;
            }
            x = x + 1;
        }
        true
    }

    /// Decides whether every cell of a grid carries exactly `n` slots.
    fn check_cells_sized(g: &PositionVectors, n: usize) -> (r: bool)
        requires
            grid_dims_ok(g@),
        ensures
            r == grid_cells_sized(g@, n as int),
    {
        let mut x: usize = 0;
        while x < SQUARE_SIDE
            invariant
                grid_dims_ok(g@),
                x <= SQUARE_SIDE,
                forall|i: int, j: int|
                    0 <= i < x && 0 <= j < SQUARE_SIDE ==> (#[trigger] grid_cell(g@, i, j)).len()
                        == n,
            decreases SQUARE_SIDE - x,
        {
            let mut y: usize = 0;
            while y < SQUARE_SIDE
                invariant
                    grid_dims_ok(g@),
                    x < SQUARE_SIDE,
                    y <= SQUARE_SIDE,
                    forall|j: int|
                        0 <= j < y ==> (#[trigger] grid_cell(g@, x as int, j)).len() == n,
                decreases SQUARE_SIDE - y,
            {
                if g[x][y].fired_state.len() != n {
                    proof {
                        assert(grid_cell(g@, x as int, y as int).len() != n);
                    }
                    return false;
                }
                y = y + 1;
            }
            x = x + 1;
        }
        true
    }

    /// Decides whether one cell holds no `Ship` state.
    fn cell_hides_ships(cell: &Position) -> (r: bool)
        ensures
            r == (forall|s: int| 0 <= s < cell@.len() ==> !((#[trigger] cell@[s]) is Ship)),
    {
        let mut s: usize = 0;
        while s < cell.fired_state.len()
            invariant
                s <= cell.fired_state@.len(),
                forall|t: int| 0 <= t < s ==> !((#[trigger] cell@[t]) is Ship),
            decreases cell.fired_state@.len() - s,
        {
            let shown = match &cell.fired_state[s] {
                FiredState::Ship(_) => true,
                _ => false,
            };
            if shown {
                proof {
                    assert(cell@[s as int] is Ship);
                }
                return false;
            }
            s = s + 1;
        }
        true
    }

    /// Decides whether no slot of any cell of a grid holds a `Ship` state.
    fn check_hides_ships(g: &PositionVectors) -> (r: bool)
        requires
            grid_dims_ok(g@),
        ensures
            r == grid_hides_ships(g@),
    {
        let mut x: usize = 0;
        while x < SQUARE_SIDE
            invariant
                grid_dims_ok(g@),
                x <= SQUARE_SIDE,
                forall|i: int, j: int, s: int|
                    0 <= i < x && 0 <= j < SQUARE_SIDE && 0 <= s < grid_cell(g@, i, j).len()
                        ==> !((#[trigger] grid_cell(g@, i, j)[s]) is Ship),
            decreases SQUARE_SIDE - x,
        {
            let mut y: usize = 0;
            while y < SQUARE_SIDE
                invariant
                    grid_dims_ok(g@),
                    x < SQUARE_SIDE,
                    y <= SQUARE_SIDE,
                    forall|j: int, s: int|
                        0 <= j < y && 0 <= s < grid_cell(g@, x as int, j).len() ==> !((
                        #[trigger] grid_cell(g@, x as int, j)[s]) is Ship),
                decreases SQUARE_SIDE - y,
            {
                if !Self::cell_hides_ships(&g[x][y]) {
                    proof {
                        let cell = g@[x as int]@[y as int];
                        let w = choose|t: int| 0 <= t < cell@.len() && (#[trigger] cell@[t]) is Ship;
                        assert(grid_cell(g@, x as int, y as int)[w] is Ship);
                    }
                    return false;
                }
                proof {
                    assert forall|s: int|
                        0 <= s < grid_cell(g@, x as int, y as int).len() implies !((
                    #[trigger] grid_cell(g@, x as int, y as int)[s]) is Ship) by {
                        assert(!(g@[x as int]@[y as int]@[s] is Ship));
                    }
                }
                y = y + 1;
            }
            x = x + 1;
        }
        true
    }

    /// Decides whether every slot of every cell of a grid is `Empty`.
    pub(crate) fn check_all_empty(g: &PositionVectors) -> (r: bool)
        requires
            grid_dims_ok(g@),
        ensures
            r == grid_all(g@, CellView::Empty),
    {
        let mut x: usize = 0;
        while x < SQUARE_SIDE
            invariant
                grid_dims_ok(g@),
                x <= SQUARE_SIDE,
                forall|i: int, j: int, s: int|
                    0 <= i < x && 0 <= j < SQUARE_SIDE && 0 <= s < grid_cell(g@, i, j).len()
                        ==> #[trigger] grid_cell(g@, i, j)[s] == CellView::Empty,
            decreases SQUARE_SIDE - x,
        {
            let mut y: usize = 0;
            while y < SQUARE_SIDE
                invariant
                    grid_dims_ok(g@),
                    x < SQUARE_SIDE,
                    y <= SQUARE_SIDE,
                    forall|j: int, s: int|
                        0 <= j < y && 0 <= s < grid_cell(g@, x as int, j).len()
                            ==> #[trigger] grid_cell(g@, x as int, j)[s] == CellView::Empty,
                decreases SQUARE_SIDE - y,
            {
                let cell = &g[x][y];
                let mut s: usize = 0;
                while s < cell.fired_state.len()
                    invariant
                        grid_dims_ok(g@),
                        x < SQUARE_SIDE,
                        y < SQUARE_SIDE,
                        cell == g@[x as int]@[y as int],
                        s <= cell.fired_state@.len(),
                        forall|t: int| 0 <= t < s ==> #[trigger] cell@[t] == CellView::Empty,
                    decreases cell.fired_state@.len() - s,
                {
                    let empty_slot = match &cell.fired_state[s] {
                        FiredState::Empty => true,
                        _ => false,
                    };
                    if !empty_slot {
                        proof {
                            assert(grid_cell(g@, x as int, y as int)[s as int]
                                != CellView::Empty);
                        }
                        return false;
                    }
                    s = s + 1;
                }
                proof {
                    assert forall|t: int|
                        0 <= t < grid_cell(g@, x as int, y as int).len() implies #[trigger] grid_cell(
                        g@,
                        x as int,
                        y as int,
                    )[t] == CellView::Empty by {
                        assert(cell@[t] == CellView::Empty);
                    }
                }
                y = y + 1;
            }
            x = x + 1;
        }
        true
    }

    /// Decides whether every ship of one fleet lies on the board.
    fn check_fleet(ships: &Vec<Ship>) -> (r: bool)
        ensures
            r == fleet_in_grid(ships@),
    {
        let mut k: usize = 0;
        while k < ships.len()
            invariant
                k <= ships@.len(),
                forall|a: int, j: int|
                    0 <= a < k && 0 <= j < ships@[a]@.cells.len() ==> (
                    #[trigger] ships@[a]@.cells[j]).0 < SQUARE_SIDE && ships@[a]@.cells[j].1
                        < SQUARE_SIDE,
            decreases ships@.len() - k,
        {
            let ship = &ships[k];
            let mut j: usize = 0;
            while j < ship.location.len()
                invariant
                    k < ships@.len(),
                    ship == ships@[k as int],
                    j <= ship.location@.len(),
                    forall|t: int|
                        0 <= t < j ==> (#[trigger] ship.location@[t]).0 < SQUARE_SIDE
                            && ship.location@[t].1 < SQUARE_SIDE,
                decreases ship.location@.len() - j,
            {
                let cell = ship.location[j];
                if cell.0 >= SQUARE_SIDE || cell.1 >= SQUARE_SIDE {
                    proof {
                        assert(!((ships@[k as int]@.cells[j as int]).0 < SQUARE_SIDE
                            && ships@[k as int]@.cells[j as int].1 < SQUARE_SIDE));
                    }
                    return false;
                }
                j = j + 1;
            }
            k = k + 1;
        }
        true
    }

    /// Decides whether every fleet of the set lies on the board.
    fn check_fleets(ship_set: &Vec<Vec<Ship>>) -> (r: bool)
        ensures
            r == (forall|p: int|
                0 <= p < ship_set@.len() ==> fleet_in_grid((#[trigger] ship_set@[p])@)),
    {
        let mut p: usize = 0;
        while p < ship_set.len()
            invariant
                p <= ship_set@.len(),
                forall|a: int| 0 <= a < p ==> fleet_in_grid((#[trigger] ship_set@[a])@),
            decreases ship_set@.len() - p,
        {
            if !Self::check_fleet(&ship_set[p]) {
                return false;
            }
            p = p + 1;
        }
        true
    }

    /// Decides the board invariant for a value loaded from outside, such
    /// as a stored session document.
    pub fn is_well_formed(&self) -> (r: bool)
        ensures
            r == self.wf(),
    {
        if !Self::check_dims(&self.positions) {
            return false;
        }
        if !Self::check_cells_sized(&self.positions, self.players) {
            return false;
        }
        if !Self::check_hides_ships(&self.positions) {
            return false;
        }
        if self.ship_set.len() != self.players {
            return false;
        }
        if !Self::check_fleets(&self.ship_set) {
            return false;
        }
        true
    }
}

} // verus!
