//! A single board cell and the per-slot fired state it carries, plus the
//! payload of a fire command as submitted by a client.

use vstd::prelude::*;

use crate::codec::dec_digits;

verus! {

/// Side length of the square board.
pub const SQUARE_SIDE: usize = 10;

/// Number of slots a freshly rebuilt cell carries.
pub const PLAYERS: usize = 2;

/// What one player slot knows about one cell.
///
/// `Ship` carries the kind of the ship occupying the cell; it is only ever
/// produced by the personal overlay a player gets of their own board, never
/// stored in a session.
pub enum FiredState {
    Hit,
    Miss,
    Untouched,
    Empty,
    Ship(String),
}

/// The mathematical value of a [`FiredState`].
pub enum CellView {
    Hit,
    Miss,
    Untouched,
    Empty,
    Ship(Seq<char>),
}

impl View for FiredState {
    type V = CellView;

    open spec fn view(&self) -> CellView {
        match self {
            FiredState::Hit => CellView::Hit,
            FiredState::Miss => CellView::Miss,
            FiredState::Untouched => CellView::Untouched,
            FiredState::Empty => CellView::Empty,
            FiredState::Ship(kind) => CellView::Ship(kind@),
        }
    }
}

impl FiredState {
    /// A copy of this state carrying the same value.
    pub fn duplicate(&self) -> (r: FiredState)
        ensures
            r@ == self@,
    {
        match self {
            FiredState::Hit => FiredState::Hit,
            FiredState::Miss => FiredState::Miss,
            FiredState::Untouched => FiredState::Untouched,
            FiredState::Empty => FiredState::Empty,
            FiredState::Ship(kind) => FiredState::Ship(kind.clone()),
        }
    }
}

/// One cell of the board: one fired state per player slot.
pub struct Position {
    pub fired_state: Vec<FiredState>,
}

impl View for Position {
    type V = Seq<CellView>;

    open spec fn view(&self) -> Seq<CellView> {
        self.fired_state@.map_values(|f: FiredState| f@)
    }
}

/// A vector of `size` `Empty` states.
pub fn empty_states(size: usize) -> (r: Vec<FiredState>)
    ensures
        r@.len() == size,
        forall|i: int| 0 <= i < size ==> (#[trigger] r@[i])@ == CellView::Empty,
{
    let mut v: Vec<FiredState> = Vec::new();
    let mut i: usize = 0;
    while i < size
        invariant
            i <= size,
            v@.len() == i,
            forall|j: int| 0 <= j < i ==> (#[trigger] v@[j])@ == CellView::Empty,
        decreases size - i,
    {
        v.push(FiredState::Empty);
        i = i + 1;
    }
    v
}

/// A vector of `size` `Untouched` states.
pub fn untouched_states(size: usize) -> (r: Vec<FiredState>)
    ensures
        r@.len() == size,
        forall|i: int| 0 <= i < size ==> (#[trigger] r@[i])@ == CellView::Untouched,
{
    let mut v: Vec<FiredState> = Vec::new();
    let mut i: usize = 0;
    while i < size
        invariant
            i <= size,
            v@.len() == i,
            forall|j: int| 0 <= j < i ==> (#[trigger] v@[j])@ == CellView::Untouched,
        decreases size - i,
    {
        v.push(FiredState::Untouched);
        i = i + 1;
    }
    v
}

impl Position {
    /// Builds a cell at `(lon, lat)`, rejecting out-of-grid coordinates.
    /// With `shots` absent the cell starts as `size` `Empty` slots.
    pub fn new(lon: usize, lat: usize, shots: Option<Vec<FiredState>>, size: usize) -> (r: Result<
        Self,
        String,
    >)
        ensures
            r is Ok <==> lon < SQUARE_SIDE && lat < SQUARE_SIDE,
            r matches Ok(p) ==> match shots {
                Some(v) => p.fired_state == v,
                None => p@.len() == size && forall|i: int|
                    0 <= i < size ==> #[trigger] p@[i] == CellView::Empty,
            },
    {
        if SQUARE_SIDE - 1 < lat {
            proof { reveal_strlit("Position: lat is greater than the board side"); }
            return Err(String::from_str("Position: lat is greater than the board side"));
        } else if SQUARE_SIDE - 1 < lon {
            proof { reveal_strlit("Position: lon is greater than the board side"); }
            return Err(String::from_str("Position: lon is greater than the board side"));
        }
        let fired_state = match shots {
            Some(v) => v,
            None => empty_states(size),
        };
        Ok(Self { fired_state })
    }

    /// Rebuilds a cell at `(lat, lon)` with every slot `Untouched`, for the
    /// fixed two-player cell layout; rejects out-of-grid coordinates.
    pub fn update(lat: usize, lon: usize) -> (r: Result<Self, String>)
        ensures
            r is Ok <==> lon < SQUARE_SIDE && lat < SQUARE_SIDE,
            r matches Ok(p) ==> p@.len() == PLAYERS && forall|i: int|
                0 <= i < PLAYERS ==> #[trigger] p@[i] == CellView::Untouched,
    {
        if SQUARE_SIDE - 1 < lat {
            proof { reveal_strlit("Position: lat is greater than the board side"); }
            return Err(String::from_str("Position: lat is greater than the board side"));
        } else if SQUARE_SIDE - 1 < lon {
            proof { reveal_strlit("Position: lon is greater than the board side"); }
            return Err(String::from_str("Position: lon is greater than the board side"));
        }
        Ok(Self { fired_state: untouched_states(PLAYERS) })
    }

    /// A copy of this cell's fired states.
    pub fn get_fired_state(&self) -> (r: Vec<FiredState>)
        ensures
            r@.map_values(|f: FiredState| f@) == self@,
    {
        let mut v: Vec<FiredState> = Vec::new();
        let mut i: usize = 0;
        while i < self.fired_state.len()
            invariant
                i <= self.fired_state@.len(),
                v@.len() == i,
                forall|j: int| 0 <= j < i ==> (#[trigger] v@[j])@ == self.fired_state@[j]@,
            decreases self.fired_state@.len() - i,
        {
            v.push(self.fired_state[i].duplicate());
            i = i + 1;
        }
        proof {
            assert(v@.map_values(|f: FiredState| f@) =~= self@);
        }
        v
    }

    /// A copy of this cell carrying the same value.
    pub fn duplicate(&self) -> (r: Position)
        ensures
            r@ == self@,
    {
        let r = Position { fired_state: self.get_fired_state() };
        r
    }
}

/// A fire command as submitted by a client: the encrypted proof of the
/// current round challenge, the firing slot, the target slot, and the
/// coordinates of the shot.
pub struct FirePosition {
    pub challenge: Vec<u8>,
    pub from: usize,
    pub to: usize,
    pub lon: usize,
    pub lat: usize,
}

impl FirePosition {
    /// Bundles the parts of a fire command.
    pub fn new(challenge: Vec<u8>, from: usize, to: usize, lon: usize, lat: usize) -> (r: Self)
        ensures
            r.challenge == challenge,
            r.from == from,
            r.to == to,
            r.lon == lon,
            r.lat == lat,
    {
        Self { challenge, from, to, lon, lat }
    }

    /// The JSON path of the targeted slot inside the stored board document.
    pub fn print(&self) -> (r: String)
        ensures
            r@ == "$.board["@ + dec_digits(self.lon as nat) + "]["@ + dec_digits(self.lat as nat)
                + "]["@ + dec_digits(self.to as nat) + "]"@,
    {
        let mut s = String::from_str("$.board[");
        crate::codec::append_dec_u64(&mut s, self.lon as u64);
        s.append("][");
        crate::codec::append_dec_u64(&mut s, self.lat as u64);
        s.append("][");
        crate::codec::append_dec_u64(&mut s, self.to as u64);
        s.append("]");
        proof {
            assert(s@ =~= "$.board["@ + dec_digits(self.lon as nat) + "]["@ + dec_digits(
                self.lat as nat,
            ) + "]["@ + dec_digits(self.to as nat) + "]"@);
        }
        s
    }
}

} // verus!
