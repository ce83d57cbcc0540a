//! Squares, piece kinds and pieces of the outer game.
//!
//! Every piece kind carries a score, promotion data and the move script that
//! defines its movement; a piece adds ownership, position and the move/stun
//! stacks the outer game's action economy runs on.

use vstd::prelude::*;
use vstd::std_specs::cmp::PartialEqSpec;

verus! {

pub type PlayerId = u8;

pub type PieceId = String;

/// A board coordinate; `x` counts files from the left, `y` ranks from
/// white's side.
#[derive(Debug, Clone, Copy, PartialEq, Eq, Structural)]
pub struct Square {
    pub x: i32,
    pub y: i32,
}

/// The square algebraic notation denotes: a file letter from `a` and a rank
/// digit from `1`, both within the 8-by-8 board.
pub open spec fn spec_notation_square(s: Seq<char>) -> Option<(int, int)> {
    if s.len() == 2 {
        let x = s[0] as int - 'a' as int;
        let y = s[1] as int - '1' as int;
        if 0 <= x && x < 8 && 0 <= y && y < 8 {
            Option::Some((x, y))
        } else {
            Option::None
        }
    } else {
        Option::None
    }
}

impl Square {
    pub fn new(x: i32, y: i32) -> (r: Square)
        ensures
            r == (Square { x, y }),
    {
        Square { x, y }
    }

    /// Parses algebraic notation such as `e4`.
    pub fn from_notation(s: &str) -> (r: Option<Square>)
        ensures
            match r {
                Option::Some(sq) => spec_notation_square(s@) == Option::Some(
                    (sq.x as int, sq.y as int),
                ),
                Option::None => spec_notation_square(s@) is None,
            },
    {
        let n = s.unicode_len();
        if n != 2 {
            return Option::None;
        }
        let x = s.get_char(0) as i64 - 'a' as i64;
        let y = s.get_char(1) as i64 - '1' as i64;
        if 0 <= x && x < 8 && 0 <= y && y < 8 {
            Option::Some(Square { x: x as i32, y: y as i32 })
        } else {
            Option::None
        }
    }

    /// Formats a valid square in algebraic notation.
    pub fn to_notation(&self) -> (r: String)
        requires
            0 <= self.x < 8,
            0 <= self.y < 8,
        ensures
            r@.len() == 2,
            r@[0] as int == 'a' as int + self.x,
            r@[1] as int == '1' as int + self.y,
    {
        let file: &str = match self.x {
            0 => "a",
            1 => "b",
            2 => "c",
            3 => "d",
            4 => "e",
            5 => "f",
            6 => "g",
            _ => "h",
        };
        let rank: &str = match self.y {
            0 => "1",
            1 => "2",
            2 => "3",
            3 => "4",
            4 => "5",
            5 => "6",
            6 => "7",
            _ => "8",
        };
        proof {
            reveal_strlit("a");
            reveal_strlit("b");
            reveal_strlit("c");
            reveal_strlit("d");
            reveal_strlit("e");
            reveal_strlit("f");
            reveal_strlit("g");
            reveal_strlit("h");
            reveal_strlit("1");
            reveal_strlit("2");
            reveal_strlit("3");
            reveal_strlit("4");
            reveal_strlit("5");
            reveal_strlit("6");
            reveal_strlit("7");
            reveal_strlit("8");
        }
        let mut out = file.to_owned();
        out.append(rank);
        out
    }

    /// Whether the square lies on the 8-by-8 board.
    pub fn is_valid(&self) -> (r: bool)
        ensures
            r == (0 <= self.x < 8 && 0 <= self.y < 8),
    {
        self.x >= 0 && self.x < 8 && self.y >= 0 && self.y < 8
    }
}

/// The piece kinds the outer game knows, plus free-form custom kinds.
#[derive(Debug, Clone)]
pub enum PieceKind {
    Pawn,
    King,
    Queen,
    Rook,
    Knight,
    Bishop,
    Amazon,
    Grasshopper,
    Knightrider,
    Archbishop,
    Dabbaba,
    Alfil,
    Ferz,
    Centaur,
    Camel,
    TempestRook,
    Cannon,
    Experiment,
    Custom(String),
}

/// Structural equality of piece kinds; custom kinds compare by name.
pub open spec fn kind_eq(a: PieceKind, b: PieceKind) -> bool {
    match a {
        PieceKind::Pawn => b is Pawn,
        PieceKind::King => b is King,
        PieceKind::Queen => b is Queen,
        PieceKind::Rook => b is Rook,
        PieceKind::Knight => b is Knight,
        PieceKind::Bishop => b is Bishop,
        PieceKind::Amazon => b is Amazon,
        PieceKind::Grasshopper => b is Grasshopper,
        PieceKind::Knightrider => b is Knightrider,
        PieceKind::Archbishop => b is Archbishop,
        PieceKind::Dabbaba => b is Dabbaba,
        PieceKind::Alfil => b is Alfil,
        PieceKind::Ferz => b is Ferz,
        PieceKind::Centaur => b is Centaur,
        PieceKind::Camel => b is Camel,
        PieceKind::TempestRook => b is TempestRook,
        PieceKind::Cannon => b is Cannon,
        PieceKind::Experiment => b is Experiment,
        PieceKind::Custom(x) => match b {
            PieceKind::Custom(y) => x@ == y@,
            _ => false,
        },
    }
}

impl core::cmp::PartialEq for PieceKind {
    #[verifier::rlimit(60)]
    fn eq(&self, other: &PieceKind) -> (r: bool) {
        match self {
            PieceKind::Pawn => matches!(other, PieceKind::Pawn),
            PieceKind::King => matches!(other, PieceKind::King),
            PieceKind::Queen => matches!(other, PieceKind::Queen),
            PieceKind::Rook => matches!(other, PieceKind::Rook),
            PieceKind::Knight => matches!(other, PieceKind::Knight),
            PieceKind::Bishop => matches!(other, PieceKind::Bishop),
            PieceKind::Amazon => matches!(other, PieceKind::Amazon),
            PieceKind::Grasshopper => matches!(other, PieceKind::Grasshopper),
            PieceKind::Knightrider => matches!(other, PieceKind::Knightrider),
            PieceKind::Archbishop => matches!(other, PieceKind::Archbishop),
            PieceKind::Dabbaba => matches!(other, PieceKind::Dabbaba),
            PieceKind::Alfil => matches!(other, PieceKind::Alfil),
            PieceKind::Ferz => matches!(other, PieceKind::Ferz),
            PieceKind::Centaur => matches!(other, PieceKind::Centaur),
            PieceKind::Camel => matches!(other, PieceKind::Camel),
            PieceKind::TempestRook => matches!(other, PieceKind::TempestRook),
            PieceKind::Cannon => matches!(other, PieceKind::Cannon),
            PieceKind::Experiment => matches!(other, PieceKind::Experiment),
            PieceKind::Custom(a) => match other {
                PieceKind::Custom(b) => *a == *b,
                _ => false,
            },
        }
    }
}

impl core::cmp::Eq for PieceKind {

}

impl vstd::std_specs::cmp::PartialEqSpecImpl for PieceKind {
    open spec fn obeys_eq_spec() -> bool {
        true
    }

    open spec fn eq_spec(&self, other: &PieceKind) -> bool {
        kind_eq(*self, *other)
    }
}

/// Executable kind equality, the meaning `==` has on piece kinds.
pub fn same_kind(a: &PieceKind, b: &PieceKind) -> (r: bool)
    ensures
        r == kind_eq(*a, *b),
{
    *a == *b
}

/// The score of a piece kind.
pub open spec fn spec_score(k: PieceKind) -> i32 {
    match k {
        PieceKind::Pawn => 1,
        PieceKind::King => 4,
        PieceKind::Queen => 9,
        PieceKind::Rook => 5,
        PieceKind::Knight => 3,
        PieceKind::Bishop => 3,
        PieceKind::Amazon => 13,
        PieceKind::Grasshopper => 4,
        PieceKind::Knightrider => 7,
        PieceKind::Archbishop => 6,
        PieceKind::Dabbaba => 2,
        PieceKind::Alfil => 2,
        PieceKind::Ferz => 1,
        PieceKind::Centaur => 5,
        PieceKind::Camel => 3,
        PieceKind::TempestRook => 7,
        PieceKind::Cannon => 5,
        PieceKind::Experiment => 1,
        PieceKind::Custom(_) => 3,
    }
}

/// Every score is positive and at most the amazon's.
pub proof fn lemma_score_range(k: PieceKind)
    ensures
        1 <= spec_score(k) <= 13,
{
}

impl PieceKind {
    /// The piece's score, the currency of pockets and stacks.
    pub fn score(&self) -> (r: i32)
        ensures
            r == spec_score(*self),
    {
        match self {
            PieceKind::Pawn => 1,
            PieceKind::King => 4,
            PieceKind::Queen => 9,
            PieceKind::Rook => 5,
            PieceKind::Knight => 3,
            PieceKind::Bishop => 3,
            PieceKind::Amazon => 13,
            PieceKind::Grasshopper => 4,
            PieceKind::Knightrider => 7,
            PieceKind::Archbishop => 6,
            PieceKind::Dabbaba => 2,
            PieceKind::Alfil => 2,
            PieceKind::Ferz => 1,
            PieceKind::Centaur => 5,
            PieceKind::Camel => 3,
            PieceKind::TempestRook => 7,
            PieceKind::Cannon => 5,
            PieceKind::Experiment => 1,
            PieceKind::Custom(_) => 3,
        }
    }

    /// Whether the kind promotes: only pawns do.
    pub fn can_promote(&self) -> (r: bool)
        ensures
            r == (*self is Pawn),
    {
        match self {
            PieceKind::Pawn => true,
            _ => false,
        }
    }

    /// The kinds a promotion may turn this kind into.
    pub fn promotion_targets(&self) -> (r: Vec<PieceKind>)
        ensures
            *self is Pawn ==> r@ == seq![
                PieceKind::Queen,
                PieceKind::Rook,
                PieceKind::Bishop,
                PieceKind::Knight,
            ],
            !(*self is Pawn) ==> r@.len() == 0,
    {
        match self {
            PieceKind::Pawn => {
                let mut v: Vec<PieceKind> = Vec::new();
                v.push(PieceKind::Queen);
                v.push(PieceKind::Rook);
                v.push(PieceKind::Bishop);
                v.push(PieceKind::Knight);
                proof {
                    assert(v@ =~= seq![
                        PieceKind::Queen,
                        PieceKind::Rook,
                        PieceKind::Bishop,
                        PieceKind::Knight,
                    ]);
                }
                v
            },
            _ => Vec::new(),
        }
    }

    /// Whether `square` is this kind's promotion rank for the given side:
    /// the far rank for white, the near one for black.
    pub fn is_promotion_square(&self, square: Square, is_white: bool) -> (r: bool)
        ensures
            r == (*self is Pawn && (if is_white {
                square.y == 7
            } else {
                square.y == 0
            })),
    {
        if !self.can_promote() {
            return false;
        }
        if is_white {
            square.y == 7
        } else {
            square.y == 0
        }
    }

    /// Straight-line distance to the promotion rank; 0 for kinds that do not
    /// promote.
    pub fn distance_to_promotion(&self, square: Square, is_white: bool) -> (r: i32)
        requires
            square.y as int >= 7 - i32::MAX as int,
        ensures
            r as int == (if *self is Pawn {
                if is_white {
                    7 - square.y as int
                } else {
                    square.y as int
                }
            } else {
                0
            }),
    {
        if !self.can_promote() {
            return 0;
        }
        if is_white {
            7 - square.y
        } else {
            square.y
        }
    }

    /// The largest stun a placement of this kind can carry.
    pub fn max_promotion_stun(&self) -> (r: i32)
        ensures
            r == (if *self is Pawn {
                8int
            } else {
                0int
            }),
    {
        match self {
            PieceKind::Pawn => 8,
            _ => 0,
        }
    }

    /// The move script of this kind for the given side.
    pub fn chessembly_script(&self, is_white: bool) -> (r: &'static str)
        ensures
            r@ == spec_script(*self, is_white),
    {
        match self {
            PieceKind::Pawn => {
                if is_white {
                    "move(0, 1); take(1, 1); take(-1, 1);"
                } else {
                    "move(0, -1); take(1, -1); take(-1, -1);"
                }
            },
            PieceKind::King => {
                "take-move(1, 0); take-move(-1, 0); take-move(0, 1); take-move(0, -1);
                 take-move(1, 1); take-move(1, -1); take-move(-1, 1); take-move(-1, -1);"
            },
            PieceKind::Queen => {
                "take-move(1, 0) repeat(1); take-move(-1, 0) repeat(1);
                 take-move(0, 1) repeat(1); take-move(0, -1) repeat(1);
                 take-move(1, 1) repeat(1); take-move(1, -1) repeat(1);
                 take-move(-1, 1) repeat(1); take-move(-1, -1) repeat(1);"
            },
            PieceKind::Rook => {
                "take-move(1, 0) repeat(1); take-move(-1, 0) repeat(1);
                 take-move(0, 1) repeat(1); take-move(0, -1) repeat(1);"
            },
            PieceKind::Knight => {
                "take-move(1, 2); take-move(2, 1); take-move(2, -1); take-move(1, -2);
                 take-move(-1, 2); take-move(-2, 1); take-move(-2, -1); take-move(-1, -2);"
            },
            PieceKind::Bishop => {
                "take-move(1, 1) repeat(1); take-move(1, -1) repeat(1);
                 take-move(-1, 1) repeat(1); take-move(-1, -1) repeat(1);"
            },
            PieceKind::Amazon => {
                "take-move(1, 0) repeat(1); take-move(-1, 0) repeat(1);
                 take-move(0, 1) repeat(1); take-move(0, -1) repeat(1);
                 take-move(1, 1) repeat(1); take-move(1, -1) repeat(1);
                 take-move(-1, 1) repeat(1); take-move(-1, -1) repeat(1);
                 take-move(1, 2); take-move(2, 1); take-move(2, -1); take-move(1, -2);
                 take-move(-1, 2); take-move(-2, 1); take-move(-2, -1); take-move(-1, -2);"
            },
            PieceKind::Grasshopper => {
                "do peek(1, 0) while take-move(1, 0);
                 do peek(-1, 0) while take-move(-1, 0);
                 do peek(0, 1) while take-move(0, 1);
                 do peek(0, -1) while take-move(0, -1);
                 do peek(1, 1) while take-move(1, 1);
                 do peek(1, -1) while take-move(1, -1);
                 do peek(-1, 1) while take-move(-1, 1);
                 do peek(-1, -1) while take-move(-1, -1);"
            },
            PieceKind::Knightrider => {
                "take-move(1, 2) repeat(1); take-move(2, 1) repeat(1);
                 take-move(2, -1) repeat(1); take-move(1, -2) repeat(1);
                 take-move(-1, 2) repeat(1); take-move(-2, 1) repeat(1);
                 take-move(-2, -1) repeat(1); take-move(-1, -2) repeat(1);"
            },
            PieceKind::Archbishop => {
                "take-move(1, 1) repeat(1); take-move(1, -1) repeat(1);
                 take-move(-1, 1) repeat(1); take-move(-1, -1) repeat(1);
                 take-move(1, 2); take-move(2, 1); take-move(2, -1); take-move(1, -2);
                 take-move(-1, 2); take-move(-2, 1); take-move(-2, -1); take-move(-1, -2);"
            },
            PieceKind::Dabbaba => {
                "take-move(2, 0); take-move(-2, 0); take-move(0, 2); take-move(0, -2);"
            },
            PieceKind::Alfil => {
                "take-move(2, 2); take-move(2, -2); take-move(-2, 2); take-move(-2, -2);"
            },
            PieceKind::Ferz => {
                "take-move(1, 1); take-move(1, -1); take-move(-1, 1); take-move(-1, -1);"
            },
            PieceKind::Centaur => {
                "take-move(1, 0); take-move(-1, 0); take-move(0, 1); take-move(0, -1);
                 take-move(1, 1); take-move(1, -1); take-move(-1, 1); take-move(-1, -1);
                 take-move(1, 2); take-move(2, 1); take-move(2, -1); take-move(1, -2);
                 take-move(-1, 2); take-move(-2, 1); take-move(-2, -1); take-move(-1, -2);"
            },
            PieceKind::Camel => {
                "take-move(3, 1); take-move(3, -1); take-move(-3, 1); take-move(-3, -1);
                 take-move(1, 3); take-move(1, -3); take-move(-1, 3); take-move(-1, -3);"
            },
            PieceKind::TempestRook => {
                "take-move(1, 1) { take-move(1, 0) repeat(1) } { take-move(0, 1) repeat(1) };
                 take-move(-1, 1) { take-move(-1, 0) repeat(1) } { take-move(0, 1) repeat(1) };
                 take-move(1, -1) { take-move(1, 0) repeat(1) } { take-move(0, -1) repeat(1) };
                 take-move(-1, -1) { take-move(-1, 0) repeat(1) } { take-move(0, -1) repeat(1) };"
            },
            PieceKind::Cannon => {
                "do take(1, 0) enemy(0, 0) not while jump(1, 0) repeat(1);
                 do take(-1, 0) enemy(0, 0) not while jump(-1, 0) repeat(1);
                 do take(0, 1) enemy(0, 0) not while jump(0, 1) repeat(1);
                 do take(0, -1) enemy(0, 0) not while jump(0, -1) repeat(1);
                 do peek(1, 0) while friendly(0, 0) move(1, 0) repeat(1);
                 do peek(-1, 0) while friendly(0, 0) move(-1, 0) repeat(1);
                 do peek(0, 1) while friendly(0, 0) move(0, 1) repeat(1);
                 do peek(0, -1) while friendly(0, 0) move(0, -1) repeat(1);"
            },
            PieceKind::Experiment => {
                "
                 do
                    take-move(1, -1)
                 while
                 peek(0, 0)
                 edge-bottom(1, -1) jne(0)
                    take-move(1, 1) repeat(1)
                 label(0)
                 edge-right(1, -1) jne(1)
                    take-move(-1, -1) repeat(1)
                 label(1);
                 "
            },
            PieceKind::Custom(_) => {
                "take-move(1, 0); take-move(-1, 0); take-move(0, 1); take-move(0, -1);
                 take-move(1, 1); take-move(1, -1); take-move(-1, 1); take-move(-1, -1);"
            },
        }
    }
}

/// The move script of a kind for a side.  Pawn scripts differ by side; every
/// other kind moves symmetrically.
pub open spec fn spec_script(k: PieceKind, is_white: bool) -> Seq<char> {
    match k {
        PieceKind::Pawn => {
            if is_white {
                "move(0, 1); take(1, 1); take(-1, 1);"@
            } else {
                "move(0, -1); take(1, -1); take(-1, -1);"@
            }
        },
        PieceKind::King => {
            "take-move(1, 0); take-move(-1, 0); take-move(0, 1); take-move(0, -1);
                 take-move(1, 1); take-move(1, -1); take-move(-1, 1); take-move(-1, -1);"@
        },
        PieceKind::Queen => {
            "take-move(1, 0) repeat(1); take-move(-1, 0) repeat(1);
                 take-move(0, 1) repeat(1); take-move(0, -1) repeat(1);
                 take-move(1, 1) repeat(1); take-move(1, -1) repeat(1);
                 take-move(-1, 1) repeat(1); take-move(-1, -1) repeat(1);"@
        },
        PieceKind::Rook => {
            "take-move(1, 0) repeat(1); take-move(-1, 0) repeat(1);
                 take-move(0, 1) repeat(1); take-move(0, -1) repeat(1);"@
        },
        PieceKind::Knight => {
            "take-move(1, 2); take-move(2, 1); take-move(2, -1); take-move(1, -2);
                 take-move(-1, 2); take-move(-2, 1); take-move(-2, -1); take-move(-1, -2);"@
        },
        PieceKind::Bishop => {
            "take-move(1, 1) repeat(1); take-move(1, -1) repeat(1);
                 take-move(-1, 1) repeat(1); take-move(-1, -1) repeat(1);"@
        },
        PieceKind::Amazon => {
            "take-move(1, 0) repeat(1); take-move(-1, 0) repeat(1);
                 take-move(0, 1) repeat(1); take-move(0, -1) repeat(1);
                 take-move(1, 1) repeat(1); take-move(1, -1) repeat(1);
                 take-move(-1, 1) repeat(1); take-move(-1, -1) repeat(1);
                 take-move(1, 2); take-move(2, 1); take-move(2, -1); take-move(1, -2);
                 take-move(-1, 2); take-move(-2, 1); take-move(-2, -1); take-move(-1, -2);"@
        },
        PieceKind::Grasshopper => {
            "do peek(1, 0) while take-move(1, 0);
                 do peek(-1, 0) while take-move(-1, 0);
                 do peek(0, 1) while take-move(0, 1);
                 do peek(0, -1) while take-move(0, -1);
                 do peek(1, 1) while take-move(1, 1);
                 do peek(1, -1) while take-move(1, -1);
                 do peek(-1, 1) while take-move(-1, 1);
                 do peek(-1, -1) while take-move(-1, -1);"@
        },
        PieceKind::Knightrider => {
            "take-move(1, 2) repeat(1); take-move(2, 1) repeat(1);
                 take-move(2, -1) repeat(1); take-move(1, -2) repeat(1);
                 take-move(-1, 2) repeat(1); take-move(-2, 1) repeat(1);
                 take-move(-2, -1) repeat(1); take-move(-1, -2) repeat(1);"@
        },
        PieceKind::Archbishop => {
            "take-move(1, 1) repeat(1); take-move(1, -1) repeat(1);
                 take-move(-1, 1) repeat(1); take-move(-1, -1) repeat(1);
                 take-move(1, 2); take-move(2, 1); take-move(2, -1); take-move(1, -2);
                 take-move(-1, 2); take-move(-2, 1); take-move(-2, -1); take-move(-1, -2);"@
        },
        PieceKind::Dabbaba => {
            "take-move(2, 0); take-move(-2, 0); take-move(0, 2); take-move(0, -2);"@
        },
        PieceKind::Alfil => {
            "take-move(2, 2); take-move(2, -2); take-move(-2, 2); take-move(-2, -2);"@
        },
        PieceKind::Ferz => {
            "take-move(1, 1); take-move(1, -1); take-move(-1, 1); take-move(-1, -1);"@
        },
        PieceKind::Centaur => {
            "take-move(1, 0); take-move(-1, 0); take-move(0, 1); take-move(0, -1);
                 take-move(1, 1); take-move(1, -1); take-move(-1, 1); take-move(-1, -1);
                 take-move(1, 2); take-move(2, 1); take-move(2, -1); take-move(1, -2);
                 take-move(-1, 2); take-move(-2, 1); take-move(-2, -1); take-move(-1, -2);"@
        },
        PieceKind::Camel => {
            "take-move(3, 1); take-move(3, -1); take-move(-3, 1); take-move(-3, -1);
                 take-move(1, 3); take-move(1, -3); take-move(-1, 3); take-move(-1, -3);"@
        },
        PieceKind::TempestRook => {
            "take-move(1, 1) { take-move(1, 0) repeat(1) } { take-move(0, 1) repeat(1) };
                 take-move(-1, 1) { take-move(-1, 0) repeat(1) } { take-move(0, 1) repeat(1) };
                 take-move(1, -1) { take-move(1, 0) repeat(1) } { take-move(0, -1) repeat(1) };
                 take-move(-1, -1) { take-move(-1, 0) repeat(1) } { take-move(0, -1) repeat(1) };"@
        },
        PieceKind::Cannon => {
            "do take(1, 0) enemy(0, 0) not while jump(1, 0) repeat(1);
                 do take(-1, 0) enemy(0, 0) not while jump(-1, 0) repeat(1);
                 do take(0, 1) enemy(0, 0) not while jump(0, 1) repeat(1);
                 do take(0, -1) enemy(0, 0) not while jump(0, -1) repeat(1);
                 do peek(1, 0) while friendly(0, 0) move(1, 0) repeat(1);
                 do peek(-1, 0) while friendly(0, 0) move(-1, 0) repeat(1);
                 do peek(0, 1) while friendly(0, 0) move(0, 1) repeat(1);
                 do peek(0, -1) while friendly(0, 0) move(0, -1) repeat(1);"@
        },
        PieceKind::Experiment => {
            "
                 do
                    take-move(1, -1)
                 while
                 peek(0, 0)
                 edge-bottom(1, -1) jne(0)
                    take-move(1, 1) repeat(1)
                 label(0)
                 edge-right(1, -1) jne(1)
                    take-move(-1, -1) repeat(1)
                 label(1);
                 "@
        },
        PieceKind::Custom(_) => {
            "take-move(1, 0); take-move(-1, 0); take-move(0, 1); take-move(0, -1);
                 take-move(1, 1); take-move(1, -1); take-move(-1, 1); take-move(-1, -1);"@
        },
    }
}

/// A piece of the outer game.
#[derive(Debug, Clone)]
pub struct Piece {
    pub id: PieceId,
    pub kind: PieceKind,
    pub owner: PlayerId,
    /// `None` while the piece sits in a pocket.
    pub pos: Option<Square>,
    /// Stun stack: a positive value forbids moving.
    pub stun: i32,
    /// Move stack: moves available this turn.
    pub move_stack: i32,
    pub is_royal: bool,
    /// A royal piece may move as another kind.
    pub disguise: Option<PieceKind>,
}

/// The kind a piece moves as: its disguise when it wears one.
pub open spec fn spec_effective_kind(p: Piece) -> PieceKind {
    match p.disguise {
        Option::Some(k) => k,
        Option::None => p.kind,
    }
}

impl Piece {
    /// A fresh piece in the pocket, with empty stacks.
    pub fn new(id: PieceId, kind: PieceKind, owner: PlayerId) -> (r: Piece)
        ensures
            r == (Piece {
                id,
                kind,
                owner,
                pos: Option::None::<Square>,
                stun: 0,
                move_stack: 0,
                is_royal: false,
                disguise: Option::None::<PieceKind>,
            }),
    {
        Piece {
            id,
            kind,
            owner,
            pos: Option::None,
            stun: 0,
            move_stack: 0,
            is_royal: false,
            disguise: Option::None,
        }
    }

    /// The kind used for movement, honoring a disguise.
    pub fn effective_kind(&self) -> (r: &PieceKind)
        ensures
            *r == spec_effective_kind(*self),
    {
        match &self.disguise {
            Option::Some(k) => k,
            Option::None => &self.kind,
        }
    }

    /// The piece's score, by its identity kind.
    pub fn score(&self) -> (r: i32)
        ensures
            r == spec_score(self.kind),
    {
        self.kind.score()
    }

    /// Whether the piece may move: no stun and a positive move stack.
    pub fn can_move(&self) -> (r: bool)
        ensures
            r == (self.stun == 0 && self.move_stack > 0),
    {
        self.stun == 0 && self.move_stack > 0
    }

    /// Whether the piece belongs to the white side (player 0).
    pub fn is_white(&self) -> (r: bool)
        ensures
            r == (self.owner == 0),
    {
        self.owner == 0
    }
}

/// A pocket entry: a piece kind waiting to be placed.
#[derive(Debug, Clone)]
pub struct PieceSpec {
    pub kind: PieceKind,
}

impl PieceSpec {
    pub fn new(kind: PieceKind) -> (r: PieceSpec)
        ensures
            r == (PieceSpec { kind }),
    {
        PieceSpec { kind }
    }

    pub fn score(&self) -> (r: i32)
        ensures
            r == spec_score(self.kind),
    {
        self.kind.score()
    }
}

/// A player's possible actions.
#[derive(Debug, Clone)]
pub enum Action {
    /// Place a pocket piece on the board.
    Place { piece_id: PieceId, target: Square },
    /// Move a piece already on the board.
    Move { piece_id: PieceId, from: Square, to: Square },
    /// Disguise a royal piece as another kind.
    Disguise { piece_id: PieceId, as_kind: PieceKind },
    /// Crown a piece royal.
    Crown { piece_id: PieceId },
    /// Stun a piece.
    Stun { piece_id: PieceId, amount: i32 },
}

/// The game's outcome: it ends when a side has no royal piece left.
#[derive(Debug, Clone, Copy)]
pub enum GameResult {
    Ongoing,
    WhiteWins,
    BlackWins,
}

impl core::cmp::PartialEq for GameResult {
    fn eq(&self, other: &GameResult) -> (r: bool) {
        match self {
            GameResult::Ongoing => matches!(other, GameResult::Ongoing),
            GameResult::WhiteWins => matches!(other, GameResult::WhiteWins),
            GameResult::BlackWins => matches!(other, GameResult::BlackWins),
        }
    }
}

impl core::cmp::Eq for GameResult {

}

impl vstd::std_specs::cmp::PartialEqSpecImpl for GameResult {
    open spec fn obeys_eq_spec() -> bool {
        true
    }

    open spec fn eq_spec(&self, other: &GameResult) -> bool {
        match self {
            GameResult::Ongoing => other is Ongoing,
            GameResult::WhiteWins => other is WhiteWins,
            GameResult::BlackWins => other is BlackWins,
        }
    }
}

} // verus!
