//! Ships and the deterministic fleet layout computed at game start: five
//! ships placed eastward from fixed offsets, one row per ship.

use vstd::prelude::*;

use crate::position::SQUARE_SIDE;

verus! {

/// A placed ship: its kind and the cells it occupies.
pub struct Ship {
    pub name: String,
    pub location: Vec<(usize, usize)>,
}

/// The mathematical value of a [`Ship`].
pub struct ShipView {
    pub name: Seq<char>,
    pub cells: Seq<(usize, usize)>,
}

impl View for Ship {
    type V = ShipView;

    open spec fn view(&self) -> ShipView {
        ShipView { name: self.name@, cells: self.location@ }
    }
}

/// Compass direction a ship is laid out along.
enum Direction {
    North,
    West,
    South,
    East,
}

/// The cells of a ship of `size` cells laid out from `pos` along `d`.
spec fn line_cells(pos: (usize, usize), size: nat, d: Direction) -> Seq<(usize, usize)> {
    Seq::new(
        size,
        |i: int|
            match d {
                Direction::East => ((pos.0 + i) as usize, pos.1),
                Direction::West => ((pos.0 - i) as usize, pos.1),
                Direction::North => (pos.0, (pos.1 + i) as usize),
                Direction::South => (pos.0, (pos.1 - i) as usize),
            },
    )
}

/// The kind of the fleet's ship number `k`.
pub open spec fn fleet_name(k: int) -> Seq<char> {
    if k == 0 {
        "Carrier"@
    } else if k == 1 {
        "Battleship"@
    } else if k == 2 {
        "Destroyer"@
    } else if k == 3 {
        "Submarine"@
    } else {
        "Patrol Boat"@
    }
}

/// The length of the fleet's ship number `k`.
pub open spec fn fleet_size(k: int) -> nat {
    if k == 0 {
        5
    } else if k == 1 {
        4
    } else if k == 2 {
        3
    } else if k == 3 {
        3
    } else {
        2
    }
}

/// The cells of the fleet's ship number `k`: row `k`, eastward from the
/// west edge.
pub open spec fn fleet_cells(k: int) -> Seq<(usize, usize)> {
    Seq::new(fleet_size(k), |i: int| (i as usize, k as usize))
}

/// Whether `ships` is exactly the standard five-ship fleet.
pub open spec fn is_standard_fleet(ships: Seq<Ship>) -> bool {
    &&& ships.len() == 5
    &&& forall|k: int|
        0 <= k < 5 ==> (#[trigger] ships[k])@.name == fleet_name(k) && ships[k]@.cells
            == fleet_cells(k)
}

/// Whether every cell of every ship in `ships` lies on the board.
pub open spec fn fleet_in_grid(ships: Seq<Ship>) -> bool {
    forall|k: int, j: int|
        0 <= k < ships.len() && 0 <= j < ships[k]@.cells.len() ==> (
        #[trigger] ships[k]@.cells[j]).0 < SQUARE_SIDE && ships[k]@.cells[j].1 < SQUARE_SIDE
}

/// The standard fleet fits on the board.
pub proof fn lemma_standard_fleet_in_grid(ships: Seq<Ship>)
    requires
        is_standard_fleet(ships),
    ensures
        fleet_in_grid(ships),
{
}

impl Ship {
    /// Builds a ship from a computed placement; a failed placement is ruled
    /// out by the caller.
    pub fn new(ship_name: String, pos: Result<Vec<(usize, usize)>, String>) -> (r: Self)
        requires
            pos is Ok,
        ensures
            r.name == ship_name,
            pos matches Ok(p) ==> r.location == p,
    {
        match pos {
            Ok(p) => Self { name: ship_name, location: p },
            Err(_) => vstd::pervasive::unreached(),
        }
    }

    /// The cells of a ship of `size` cells laid out from `pos` along
    /// `direction`; the offsets in use keep every coordinate in range.
    fn direction(pos: (usize, usize), size: usize, direction: Direction) -> (r: Result<
        Vec<(usize, usize)>,
        String,
    >)
        requires
            match direction {
                Direction::East => pos.0 + size <= usize::MAX,
                Direction::West => size > 0 ==> pos.0 >= size - 1,
                Direction::North => pos.1 + size <= usize::MAX,
                Direction::South => size > 0 ==> pos.1 >= size - 1,
            },
        ensures
            r matches Ok(v) && v@ == line_cells(pos, size as nat, direction),
    {
        let mut v: Vec<(usize, usize)> = Vec::new();
        let mut i: usize = 0;
        while i < size
            invariant
                i <= size,
                v@.len() == i,
                match direction {
                    Direction::East => pos.0 + size <= usize::MAX,
                    Direction::West => size > 0 ==> pos.0 >= size - 1,
                    Direction::North => pos.1 + size <= usize::MAX,
                    Direction::South => size > 0 ==> pos.1 >= size - 1,
                },
                forall|j: int| 0 <= j < i ==> v@[j] == line_cells(pos, size as nat, direction)[j],
            decreases size - i,
        {
            let cell = match direction {
                Direction::East => (pos.0 + i, pos.1),
                Direction::West => (pos.0 - i, pos.1),
                Direction::North => (pos.0, pos.1 + i),
                Direction::South => (pos.0, pos.1 - i),
            };
            v.push(cell);
            i = i + 1;
        }
        proof {
            assert(v@ =~= line_cells(pos, size as nat, direction));
        }
        Ok(v)
    }

    /// The standard fleet: five ships in the first five rows, each laid out
    /// eastward from the west edge.
    pub fn new_ships() -> (r: Vec<Ship>)
        ensures
            is_standard_fleet(r@),
    {
        let mut v: Vec<Ship> = Vec::new();
        let s0 = Self::new(String::from_str("Carrier"), Self::direction((0, 0), 5, Direction::East));
        proof {
            assert(s0@.cells =~= fleet_cells(0));
        }
        v.push(s0);
        let s1 = Self::new(
            String::from_str("Battleship"),
            Self::direction((0, 1), 4, Direction::East),
        );
        proof {
            assert(s1@.cells =~= fleet_cells(1));
        }
        v.push(s1);
        let s2 = Self::new(
            String::from_str("Destroyer"),
            Self::direction((0, 2), 3, Direction::East),
        );
        proof {
            assert(s2@.cells =~= fleet_cells(2));
        }
        v.push(s2);
        let s3 = Self::new(
            String::from_str("Submarine"),
            Self::direction((0, 3), 3, Direction::East),
        );
        proof {
            assert(s3@.cells =~= fleet_cells(3));
        }
        v.push(s3);
        let s4 = Self::new(
            String::from_str("Patrol Boat"),
            Self::direction((0, 4), 2, Direction::East),
        );
        proof {
            assert(s4@.cells =~= fleet_cells(4));
        }
        v.push(s4);
        v
    }

    /// Whether this ship occupies the cell `(index, jndex)`.
    pub fn check_hit(&self, index: usize, jndex: usize) -> (r: bool)
        ensures
            r == self.location@.contains((index, jndex)),
    {
        let mut i: usize = 0;
        while i < self.location.len()
            invariant
                i <= self.location@.len(),
                forall|j: int| 0 <= j < i ==> self.location@[j] != (index, jndex),
            decreases self.location@.len() - i,
        {
            let cell = self.location[i];
            if cell.0 == index && cell.1 == jndex {
                return true;
            }
            i = i + 1;
        }
        false
    }

    /// A copy of this ship carrying the same value.
    pub fn duplicate(&self) -> (r: Ship)
        ensures
            r@ == self@,
    {
        let mut cells: Vec<(usize, usize)> = Vec::new();
        let mut i: usize = 0;
        while i < self.location.len()
            invariant
                i <= self.location@.len(),
                cells@.len() == i,
                forall|j: int| 0 <= j < i ==> cells@[j] == self.location@[j],
            decreases self.location@.len() - i,
        {
            let cell = self.location[i];
            cells.push(cell);
            i = i + 1;
        }
        proof {
            assert(cells@ =~= self.location@);
        }
        Ship { name: self.name.clone(), location: cells }
    }
}

/// Builder for the per-player fleets of a session.
pub struct ShipSet;

impl ShipSet {
    /// One standard fleet for each of `players` slots.
    pub fn new(players: usize) -> (r: Vec<Vec<Ship>>)
        ensures
            r@.len() == players,
            forall|p: int| 0 <= p < players ==> is_standard_fleet((#[trigger] r@[p])@),
    {
        let mut v: Vec<Vec<Ship>> = Vec::new();
        let mut i: usize = 0;
        while i < players
            invariant
                i <= players,
                v@.len() == i,
                forall|p: int| 0 <= p < i ==> is_standard_fleet((#[trigger] v@[p])@),
            decreases players - i,
        {
            v.push(Ship::new_ships());
            i = i + 1;
        }
        v
    }
}

} // verus!
