//! The read-only board snapshot handed to the interpreter, and the
//! predicates it exposes.
//!
//! Occupancy and state entries are kept as plain entry lists; a lookup
//! returns the first entry with the queried key.  The ghost model
//! (`BoardModel`) states every predicate over mathematical integers, so the
//! interpreter's semantics can refer to squares far outside the machine
//! range of a coordinate without overflow.

use vstd::prelude::*;

verus! {

/// Ghost model of a [`BoardState`].
pub struct BoardModel {
    pub width: int,
    pub height: int,
    pub piece_x: int,
    pub piece_y: int,
    pub piece_name: Seq<char>,
    pub is_white: bool,
    pub occ: Seq<((int, int), (Seq<char>, bool))>,
    pub state: Seq<(Seq<char>, int)>,
    pub danger: Seq<(int, int)>,
    pub in_check: bool,
}

/// The first occupancy entry for `(x, y)` at or after index `i`.
pub open spec fn occ_at_from(
    occ: Seq<((int, int), (Seq<char>, bool))>,
    i: int,
    x: int,
    y: int,
) -> Option<(Seq<char>, bool)>
    decreases occ.len() - i,
{
    if i < 0 || i >= occ.len() {
        Option::None
    } else if occ[i].0 == (x, y) {
        Option::Some(occ[i].1)
    } else {
        occ_at_from(occ, i + 1, x, y)
    }
}

/// The first state entry for `key` at or after index `i`; absent keys read 0.
pub open spec fn state_at_from(state: Seq<(Seq<char>, int)>, i: int, key: Seq<char>) -> int
    decreases state.len() - i,
{
    if i < 0 || i >= state.len() {
        0
    } else if state[i].0 == key {
        state[i].1
    } else {
        state_at_from(state, i + 1, key)
    }
}

impl BoardModel {
    /// The occupant of `(x, y)`, if any.
    #[verifier::opaque]
    pub open spec fn occ_at(self, x: int, y: int) -> Option<(Seq<char>, bool)> {
        occ_at_from(self.occ, 0, x, y)
    }

    #[verifier::opaque]
    pub open spec fn in_bounds(self, x: int, y: int) -> bool {
        0 <= x < self.width && 0 <= y < self.height
    }

    /// In bounds and unoccupied.
    #[verifier::opaque]
    pub open spec fn is_empty(self, x: int, y: int) -> bool {
        self.in_bounds(x, y) && self.occ_at(x, y) is None
    }

    #[verifier::opaque]
    pub open spec fn has_enemy(self, x: int, y: int) -> bool {
        self.in_bounds(x, y) && match self.occ_at(x, y) {
            Option::Some(e) => e.1 != self.is_white,
            Option::None => false,
        }
    }

    #[verifier::opaque]
    pub open spec fn has_friendly(self, x: int, y: int) -> bool {
        self.in_bounds(x, y) && match self.occ_at(x, y) {
            Option::Some(e) => e.1 == self.is_white,
            Option::None => false,
        }
    }

    #[verifier::opaque]
    pub open spec fn has_piece(self, x: int, y: int, name: Seq<char>) -> bool {
        self.in_bounds(x, y) && match self.occ_at(x, y) {
            Option::Some(e) => e.0 == name,
            Option::None => false,
        }
    }

    /// The global-state entry for `key`, defaulting to 0.
    #[verifier::opaque]
    pub open spec fn state_val(self, key: Seq<char>) -> int {
        state_at_from(self.state, 0, key)
    }

    #[verifier::opaque]
    pub open spec fn has_danger(self, x: int, y: int) -> bool {
        exists|i: int| 0 <= i < self.danger.len() && self.danger[i] == (x, y)
    }
}

/// The board snapshot the interpreter reads.  It never writes through it.
pub struct BoardState {
    pub board_width: i32,
    pub board_height: i32,
    /// The acting piece's position.
    pub piece_x: i32,
    pub piece_y: i32,
    /// The acting piece's effective kind.
    pub piece_name: String,
    /// The acting piece's side.
    pub is_white: bool,
    /// Occupancy entries: a square and its occupant's name and side.
    pub pieces: Vec<((i32, i32), (String, bool))>,
    /// Global-state entries; a key that is absent reads 0.
    pub state: Vec<(String, i32)>,
    /// Squares under enemy attack (may be empty when unknown).
    pub danger_squares: Vec<(i32, i32)>,
    pub in_check: bool,
}

/// The models of the occupancy entries.
pub open spec fn occ_model(
    s: Seq<((i32, i32), (String, bool))>,
) -> Seq<((int, int), (Seq<char>, bool))> {
    s.map_values(
        |e: ((i32, i32), (String, bool))| ((e.0.0 as int, e.0.1 as int), (e.1.0@, e.1.1)),
    )
}

/// The models of the state entries.
pub open spec fn state_model(s: Seq<(String, i32)>) -> Seq<(Seq<char>, int)> {
    s.map_values(|e: (String, i32)| (e.0@, e.1 as int))
}

/// The models of the danger squares.
pub open spec fn danger_model(s: Seq<(i32, i32)>) -> Seq<(int, int)> {
    s.map_values(|e: (i32, i32)| (e.0 as int, e.1 as int))
}

impl View for BoardState {
    type V = BoardModel;

    open spec fn view(&self) -> BoardModel {
        BoardModel {
            width: self.board_width as int,
            height: self.board_height as int,
            piece_x: self.piece_x as int,
            piece_y: self.piece_y as int,
            piece_name: self.piece_name@,
            is_white: self.is_white,
            occ: occ_model(self.pieces@),
            state: state_model(self.state@),
            danger: danger_model(self.danger_squares@),
            in_check: self.in_check,
        }
    }
}

impl BoardState {
    /// Whether `(x, y)` lies on the board.
    pub fn in_bounds(&self, x: i64, y: i64) -> (r: bool)
        ensures
            r == self@.in_bounds(x as int, y as int),
    {
        proof {
            reveal(BoardModel::in_bounds);
        }
        0 <= x && x < self.board_width as i64 && 0 <= y && y < self.board_height as i64
    }

    /// The occupant of `(x, y)`: its index in `pieces`, if any.
    fn occ_index(&self, x: i64, y: i64) -> (r: Option<usize>)
        ensures
            match r {
                Option::Some(i) => i < self.pieces@.len() && self@.occ_at(x as int, y as int)
                    == Option::Some(self@.occ[i as int].1) && self.pieces@[i as int].0.0 as int
                    == x as int && self.pieces@[i as int].0.1 as int == y as int,
                Option::None => self@.occ_at(x as int, y as int) is None,
            },
    {
        proof {
            reveal(BoardModel::occ_at);
        }
        let n = self.pieces.len();
        let mut i: usize = 0;
        while i < n
            invariant
                0 <= i <= n,
                n == self.pieces@.len(),
                occ_at_from(self@.occ, 0, x as int, y as int) == occ_at_from(
                    self@.occ,
                    i as int,
                    x as int,
                    y as int,
                ),
            decreases n - i,
        {
            proof {
                reveal(BoardModel::occ_at);
            }
            let e = &self.pieces[i];
            if e.0.0 as i64 == x && e.0.1 as i64 == y {
                return Option::Some(i);
            }
            i = i + 1;
        }
        Option::None
    }

    /// Whether `(x, y)` is in bounds and unoccupied.
    pub fn is_empty(&self, x: i64, y: i64) -> (r: bool)
        ensures
            r == self@.is_empty(x as int, y as int),
    {
        proof {
            reveal(BoardModel::is_empty);
        }
        self.in_bounds(x, y) && self.occ_index(x, y).is_none()
    }

    /// Whether an enemy of the acting piece stands on `(x, y)`, honoring
    /// bounds.
    pub fn has_enemy(&self, x: i64, y: i64) -> (r: bool)
        ensures
            r == self@.has_enemy(x as int, y as int),
    {
        proof {
            reveal(BoardModel::has_enemy);
        }
        self.in_bounds(x, y) && match self.occ_index(x, y) {
            Option::Some(i) => self.pieces[i].1.1 != self.is_white,
            Option::None => false,
        }
    }

    /// Whether a piece of the acting piece's own side stands on `(x, y)`,
    /// honoring bounds.
    pub fn has_friendly(&self, x: i64, y: i64) -> (r: bool)
        ensures
            r == self@.has_friendly(x as int, y as int),
    {
        proof {
            reveal(BoardModel::has_friendly);
        }
        self.in_bounds(x, y) && match self.occ_index(x, y) {
            Option::Some(i) => self.pieces[i].1.1 == self.is_white,
            Option::None => false,
        }
    }

    /// Whether a piece named `name` stands on `(x, y)`, honoring bounds.
    pub fn has_piece(&self, x: i64, y: i64, name: &String) -> (r: bool)
        ensures
            r == self@.has_piece(x as int, y as int, name@),
    {
        proof {
            reveal(BoardModel::has_piece);
        }
        self.in_bounds(x, y) && match self.occ_index(x, y) {
            Option::Some(i) => self.pieces[i].1.0 == *name,
            Option::None => false,
        }
    }

    /// The global-state entry for `key`, defaulting to 0.
    pub fn state_val(&self, key: &String) -> (r: i32)
        ensures
            r as int == self@.state_val(key@),
    {
        proof {
            reveal(BoardModel::state_val);
        }
        let n = self.state.len();
        let mut i: usize = 0;
        while i < n
            invariant
                0 <= i <= n,
                n == self.state@.len(),
                state_at_from(self@.state, 0, key@) == state_at_from(self@.state, i as int, key@),
            decreases n - i,
        {
            proof {
                reveal(BoardModel::state_val);
            }
            if self.state[i].0 == *key {
                return self.state[i].1;
            }
            i = i + 1;
        }
        0
    }

    /// Whether `(x, y)` is listed as under enemy attack.
    pub fn has_danger(&self, x: i64, y: i64) -> (r: bool)
        ensures
            r == self@.has_danger(x as int, y as int),
    {
        proof {
            reveal(BoardModel::has_danger);
        }
        let n = self.danger_squares.len();
        let mut i: usize = 0;
        while i < n
            invariant
                0 <= i <= n,
                n == self.danger_squares@.len(),
                forall|j: int| 0 <= j < i ==> self@.danger[j] != (x as int, y as int),
            decreases n - i,
        {
            proof {
                reveal(BoardModel::has_danger);
            }
            let e = self.danger_squares[i];
            if e.0 as i64 == x && e.1 as i64 == y {
                assert(self@.danger[i as int] == (x as int, y as int));
                return true;
            }
            i = i + 1;
        }
        false
    }
}

} // verus!
