//! The outer game state and the move-generator adapter.
//!
//! `GameState` keeps the board, the pockets, the pieces and the turn
//! bookkeeping as plain entry lists with map semantics: a lookup returns the
//! first entry with the queried key, and an insert replaces that entry or
//! appends a new one.  `get_legal_moves` drives the interpreter per piece
//! and turns its activations into legal-move records.

use vstd::pervasive::VecAdditionalExecFns;
use vstd::prelude::*;

use crate::board::{danger_model, occ_model, state_model, BoardState};
use crate::interp::{clone_tags, Interpreter};
use crate::lexer::lex;
use crate::pieces::{
    kind_eq, same_kind, spec_effective_kind, spec_score, spec_script, Action, GameResult, Piece,
    PieceId, PieceKind, PieceSpec, PlayerId, Square,
};
use crate::semantics::interp_outcome;
use crate::tokens::{tags_model, ActionTag, ActionTagType, Activation, MoveType, TagModel};

verus! {

/// The pocket score a player may not exceed.
pub const MAX_POCKET_SCORE: i32 = 39;

/// The first piece with the given id at or after index `i`.
pub open spec fn piece_idx_from(ps: Seq<Piece>, i: int, id: Seq<char>) -> Option<int>
    decreases ps.len() - i,
{
    if i < 0 || i >= ps.len() {
        Option::None
    } else if ps[i].id@ == id {
        Option::Some(i)
    } else {
        piece_idx_from(ps, i + 1, id)
    }
}

pub open spec fn piece_idx(ps: Seq<Piece>, id: Seq<char>) -> Option<int> {
    piece_idx_from(ps, 0, id)
}

/// The first board entry for the given square at or after index `i`.
pub open spec fn board_idx_from(b: Seq<(Square, String)>, i: int, sq: Square) -> Option<int>
    decreases b.len() - i,
{
    if i < 0 || i >= b.len() {
        Option::None
    } else if b[i].0 == sq {
        Option::Some(i)
    } else {
        board_idx_from(b, i + 1, sq)
    }
}

pub open spec fn board_idx(b: Seq<(Square, String)>, sq: Square) -> Option<int> {
    board_idx_from(b, 0, sq)
}

/// The first pocket entry for the given player at or after index `i`.
pub open spec fn pocket_idx_from(p: Seq<(u8, Vec<PieceSpec>)>, i: int, player: u8) -> Option<int>
    decreases p.len() - i,
{
    if i < 0 || i >= p.len() {
        Option::None
    } else if p[i].0 == player {
        Option::Some(i)
    } else {
        pocket_idx_from(p, i + 1, player)
    }
}

pub open spec fn pocket_idx(p: Seq<(u8, Vec<PieceSpec>)>, player: u8) -> Option<int> {
    pocket_idx_from(p, 0, player)
}

/// The first global-state entry for the given key at or after index `i`.
pub open spec fn state_idx_from(st: Seq<(String, i32)>, i: int, key: Seq<char>) -> Option<int>
    decreases st.len() - i,
{
    if i < 0 || i >= st.len() {
        Option::None
    } else if st[i].0@ == key {
        Option::Some(i)
    } else {
        state_idx_from(st, i + 1, key)
    }
}

pub open spec fn state_idx(st: Seq<(String, i32)>, key: Seq<char>) -> Option<int> {
    state_idx_from(st, 0, key)
}

/// Map-style insertion into the board list.
pub open spec fn board_insert_s(b: Seq<(Square, String)>, sq: Square, id: String) -> Seq<
    (Square, String),
> {
    match board_idx(b, sq) {
        Option::Some(i) => b.update(i, (sq, id)),
        Option::None => b.push((sq, id)),
    }
}

/// Map-style removal from the board list.
pub open spec fn board_remove_s(b: Seq<(Square, String)>, sq: Square) -> Seq<(Square, String)> {
    match board_idx(b, sq) {
        Option::Some(i) => b.remove(i),
        Option::None => b,
    }
}

/// Map-style insertion into the global-state list.
pub open spec fn state_insert_s(st: Seq<(String, i32)>, key: String, value: i32) -> Seq<
    (String, i32),
> {
    match state_idx(st, key@) {
        Option::Some(i) => st.update(i, (key, value)),
        Option::None => st.push((key, value)),
    }
}

/// Map-style insertion into the piece list, keyed by the piece's id.
pub open spec fn pieces_insert_s(ps: Seq<Piece>, p: Piece) -> Seq<Piece> {
    match piece_idx(ps, p.id@) {
        Option::Some(i) => ps.update(i, p),
        Option::None => ps.push(p),
    }
}

/// Map-style removal from the piece list.
pub open spec fn pieces_remove_s(ps: Seq<Piece>, id: Seq<char>) -> Seq<Piece> {
    match piece_idx(ps, id) {
        Option::Some(i) => ps.remove(i),
        Option::None => ps,
    }
}

/// The piece standing on `sq`: its index in `ps`, through the board list.
pub open spec fn occupant_idx(b: Seq<(Square, String)>, ps: Seq<Piece>, sq: Square) -> Option<
    int,
> {
    match board_idx(b, sq) {
        Option::Some(bi) => piece_idx(ps, b[bi].1@),
        Option::None => Option::None,
    }
}

/// The decimal digits of `n`, most significant first.
pub open spec fn dec_digits(n: nat) -> Seq<char>
    decreases n,
{
    if n < 10 {
        seq![(48 + n) as char]
    } else {
        dec_digits(n / 10).push((48 + n % 10) as char)
    }
}

/// The id the game gives its `n`-th created piece.
pub open spec fn id_seq(n: nat) -> Seq<char> {
    "piece_"@ + dec_digits(n)
}

fn digit_str(d: u32) -> (r: &'static str)
    requires
        d < 10,
    ensures
        r@ =~= seq![(48 + d as nat) as char],
{
    proof {
        reveal_strlit("0");
        reveal_strlit("1");
        reveal_strlit("2");
        reveal_strlit("3");
        reveal_strlit("4");
        reveal_strlit("5");
        reveal_strlit("6");
        reveal_strlit("7");
        reveal_strlit("8");
        reveal_strlit("9");
    }
    match d {
        0 => "0",
        1 => "1",
        2 => "2",
        3 => "3",
        4 => "4",
        5 => "5",
        6 => "6",
        7 => "7",
        8 => "8",
        _ => "9",
    }
}

fn append_digits(s: &mut String, n: u32)
    ensures
        final(s)@ == old(s)@ + dec_digits(n as nat),
    decreases n,
{
    if n < 10 {
        s.append(digit_str(n));
        assert(final(s)@ =~= old(s)@ + dec_digits(n as nat));
    } else {
        append_digits(s, n / 10);
        s.append(digit_str(n % 10));
        assert(final(s)@ =~= old(s)@ + dec_digits(n as nat));
    }
}

/// Builds the id of the `n`-th created piece.
fn piece_id_string(n: u32) -> (r: String)
    ensures
        r@ == id_seq(n as nat),
{
    let mut s = "piece_".to_owned();
    append_digits(&mut s, n);
    s
}

/// An exact copy of a piece kind.
pub fn clone_kind(k: &PieceKind) -> (r: PieceKind)
    ensures
        r == *k,
{
    match k {
        PieceKind::Pawn => PieceKind::Pawn,
        PieceKind::King => PieceKind::King,
        PieceKind::Queen => PieceKind::Queen,
        PieceKind::Rook => PieceKind::Rook,
        PieceKind::Knight => PieceKind::Knight,
        PieceKind::Bishop => PieceKind::Bishop,
        PieceKind::Amazon => PieceKind::Amazon,
        PieceKind::Grasshopper => PieceKind::Grasshopper,
        PieceKind::Knightrider => PieceKind::Knightrider,
        PieceKind::Archbishop => PieceKind::Archbishop,
        PieceKind::Dabbaba => PieceKind::Dabbaba,
        PieceKind::Alfil => PieceKind::Alfil,
        PieceKind::Ferz => PieceKind::Ferz,
        PieceKind::Centaur => PieceKind::Centaur,
        PieceKind::Camel => PieceKind::Camel,
        PieceKind::TempestRook => PieceKind::TempestRook,
        PieceKind::Cannon => PieceKind::Cannon,
        PieceKind::Experiment => PieceKind::Experiment,
        PieceKind::Custom(s) => PieceKind::Custom(s.clone()),
    }
}

/// An exact copy of a piece.
pub fn clone_piece(p: &Piece) -> (r: Piece)
    ensures
        r == *p,
{
    Piece {
        id: p.id.clone(),
        kind: clone_kind(&p.kind),
        owner: p.owner,
        pos: p.pos,
        stun: p.stun,
        move_stack: p.move_stack,
        is_royal: p.is_royal,
        disguise: match &p.disguise {
            Option::Some(k) => Option::Some(clone_kind(k)),
            Option::None => Option::None,
        },
    }
}

/// The summed score of a pocket's entries.
pub open spec fn specs_score(s: Seq<PieceSpec>) -> int
    decreases s.len(),
{
    if s.len() == 0 {
        0
    } else {
        specs_score(s.drop_last()) + spec_score(s.last().kind)
    }
}

proof fn lemma_specs_score_prefix_le(s: Seq<PieceSpec>, k: int)
    requires
        0 <= k <= s.len(),
    ensures
        specs_score(s.subrange(0, k)) <= specs_score(s),
    decreases s.len() - k,
{
    if k == s.len() {
        assert(s.subrange(0, k) =~= s);
    } else {
        lemma_specs_score_prefix_le(s, k + 1);
        let p = s.subrange(0, k + 1);
        assert(p.drop_last() =~= s.subrange(0, k));
        crate::pieces::lemma_score_range(p.last().kind);
    }
}

/// The move stack a piece starts its turn with, by score.
pub open spec fn spec_initial_move_stack(score: i32) -> i32 {
    if 1 <= score <= 2 {
        5
    } else if 3 <= score <= 5 {
        3
    } else if 6 <= score <= 7 {
        2
    } else if score >= 8 {
        1
    } else {
        1
    }
}

/// Truncating division by 7, the machine's rounding.
pub open spec fn div7_trunc(a: int) -> int {
    if a >= 0 {
        a / 7
    } else {
        -((-a) / 7)
    }
}

/// The stun a placement carries: promoting kinds scale with their distance
/// to promotion, others pay their score.
pub open spec fn spec_placement_stun(p: Piece, sq: Square) -> int {
    if p.kind is Pawn {
        let dist: int = if p.owner == 0 {
            7 - sq.y as int
        } else {
            sq.y as int
        };
        8 - div7_trunc(8 * dist)
    } else {
        spec_score(p.kind) as int
    }
}

/// The name the transition tags use for each kind, folded to lower case.
pub open spec fn kind_of_lower(s: Seq<char>) -> Option<PieceKind> {
    if s == "pawn"@ {
        Option::Some(PieceKind::Pawn)
    } else if s == "king"@ {
        Option::Some(PieceKind::King)
    } else if s == "queen"@ {
        Option::Some(PieceKind::Queen)
    } else if s == "rook"@ {
        Option::Some(PieceKind::Rook)
    } else if s == "knight"@ {
        Option::Some(PieceKind::Knight)
    } else if s == "bishop"@ {
        Option::Some(PieceKind::Bishop)
    } else if s == "amazon"@ {
        Option::Some(PieceKind::Amazon)
    } else if s == "grasshopper"@ {
        Option::Some(PieceKind::Grasshopper)
    } else if s == "knightrider"@ {
        Option::Some(PieceKind::Knightrider)
    } else if s == "archbishop"@ {
        Option::Some(PieceKind::Archbishop)
    } else if s == "dabbaba"@ {
        Option::Some(PieceKind::Dabbaba)
    } else if s == "alfil"@ {
        Option::Some(PieceKind::Alfil)
    } else if s == "ferz"@ {
        Option::Some(PieceKind::Ferz)
    } else if s == "centaur"@ {
        Option::Some(PieceKind::Centaur)
    } else if s == "camel"@ {
        Option::Some(PieceKind::Camel)
    } else if s == "tempestrook"@ {
        Option::Some(PieceKind::TempestRook)
    } else if s == "cannon"@ {
        Option::Some(PieceKind::Cannon)
    } else if s == "experiment"@ {
        Option::Some(PieceKind::Experiment)
    } else {
        Option::None
    }
}

/// ASCII lower-casing of one character.
pub open spec fn lower_char(c: char) -> char {
    if 'A' <= c && c <= 'Z' {
        ((c as u32) + 32) as char
    } else {
        c
    }
}

pub open spec fn lower_seq(s: Seq<char>) -> Seq<char> {
    s.map_values(|c: char| lower_char(c))
}

/// Whether `name` lower-cases to exactly the known lowercase word `lit`.
fn eq_lower(name: &String, lit: &str) -> (r: bool)
    ensures
        r == (lower_seq(name@) == lit@),
{
    let ns = name.as_str();
    let n = ns.unicode_len();
    let m = lit.unicode_len();
    if n != m {
        assert(lower_seq(name@).len() == name@.len());
        return false;
    }
    let mut i: usize = 0;
    while i < n
        invariant
            0 <= i <= n,
            n == name@.len(),
            m == lit@.len(),
            n == m,
            ns@ == name@,
            forall|k: int| 0 <= k < i ==> lower_seq(name@)[k] == lit@[k],
        decreases n - i,
    {
        let c = ns.get_char(i);
        let l = lit.get_char(i);
        let cv = c as u32;
        let lv = l as u32;
        let clow: u32 = if 65 <= cv && cv <= 90 {
            cv + 32
        } else {
            cv
        };
        proof {
            assert(lower_char(c) as u32 == clow);
            assert(lower_seq(name@)[i as int] == lower_char(name@[i as int]));
        }
        if clow != lv {
            assert(lower_seq(name@)[i as int] != lit@[i as int]);
            return false;
        }
        assert(lower_seq(name@)[i as int] == lit@[i as int]);
        i = i + 1;
    }
    proof {
        assert(lower_seq(name@) =~= lit@);
    }
    true
}

/// The piece kind a transition tag's name denotes, or nothing for unknown
/// names.
fn kind_from_name(name: &String) -> (r: Option<PieceKind>)
    ensures
        r == kind_of_lower(lower_seq(name@)),
{
    if eq_lower(name, "pawn") {
        Option::Some(PieceKind::Pawn)
    } else if eq_lower(name, "king") {
        Option::Some(PieceKind::King)
    } else if eq_lower(name, "queen") {
        Option::Some(PieceKind::Queen)
    } else if eq_lower(name, "rook") {
        Option::Some(PieceKind::Rook)
    } else if eq_lower(name, "knight") {
        Option::Some(PieceKind::Knight)
    } else if eq_lower(name, "bishop") {
        Option::Some(PieceKind::Bishop)
    } else if eq_lower(name, "amazon") {
        Option::Some(PieceKind::Amazon)
    } else if eq_lower(name, "grasshopper") {
        Option::Some(PieceKind::Grasshopper)
    } else if eq_lower(name, "knightrider") {
        Option::Some(PieceKind::Knightrider)
    } else if eq_lower(name, "archbishop") {
        Option::Some(PieceKind::Archbishop)
    } else if eq_lower(name, "dabbaba") {
        Option::Some(PieceKind::Dabbaba)
    } else if eq_lower(name, "alfil") {
        Option::Some(PieceKind::Alfil)
    } else if eq_lower(name, "ferz") {
        Option::Some(PieceKind::Ferz)
    } else if eq_lower(name, "centaur") {
        Option::Some(PieceKind::Centaur)
    } else if eq_lower(name, "camel") {
        Option::Some(PieceKind::Camel)
    } else if eq_lower(name, "tempestrook") {
        Option::Some(PieceKind::TempestRook)
    } else if eq_lower(name, "cannon") {
        Option::Some(PieceKind::Cannon)
    } else if eq_lower(name, "experiment") {
        Option::Some(PieceKind::Experiment)
    } else {
        Option::None
    }
}

/// A legal move of a piece: its origin and destination on the real board,
/// the move kind, and the deferred tags of its activation.
#[derive(Debug, Clone)]
pub struct LegalMove {
    pub from: Square,
    pub to: Square,
    pub move_type: MoveType,
    pub is_capture: bool,
    pub tags: Vec<ActionTag>,
    /// For `Jump`: the square whose piece is removed on commit.
    pub catch_to: Square,
}

/// Ghost model of a [`LegalMove`].
pub struct LegalMoveModel {
    pub from: Square,
    pub to: Square,
    pub move_type: MoveType,
    pub is_capture: bool,
    pub tags: Seq<TagModel>,
    pub catch_to: Square,
}

impl View for LegalMove {
    type V = LegalMoveModel;

    open spec fn view(&self) -> LegalMoveModel {
        LegalMoveModel {
            from: self.from,
            to: self.to,
            move_type: self.move_type,
            is_capture: self.is_capture,
            tags: tags_model(self.tags@),
            catch_to: self.catch_to,
        }
    }
}

/// The models of a list of legal moves.
pub open spec fn moves_model(s: Seq<LegalMove>) -> Seq<LegalMoveModel> {
    s.map_values(|m: LegalMove| m@)
}

/// A piece summary handed to callers that render the board.
#[derive(Debug, Clone)]
pub struct PieceInfo {
    pub id: PieceId,
    pub kind: PieceKind,
    pub owner: PlayerId,
    pub pos: Square,
    pub stun_stack: i32,
    pub move_stack: i32,
    pub is_royal: bool,
}

/// The whole game: board, pockets, pieces and turn bookkeeping.
#[derive(Debug, Clone)]
pub struct GameState {
    /// Which piece stands on which square.
    pub board: Vec<(Square, PieceId)>,
    /// Each player's reserve of placeable pieces.
    pub pockets: Vec<(PlayerId, Vec<PieceSpec>)>,
    /// Every piece, on the board or in a pocket, keyed by its id.
    pub pieces: Vec<Piece>,
    pub turn: PlayerId,
    /// The script-visible key/value state.
    pub global_state: Vec<(String, i32)>,
    /// The piece currently mid-move this turn, if any.
    pub active_piece: Option<PieceId>,
    /// Whether a non-move action was taken this turn.
    pub action_taken: bool,
    /// Whether interpreter tracing was requested.
    pub debug_mode: bool,
    /// The counter fresh piece ids are drawn from.
    pub next_piece_id: u32,
}

impl GameState {
    /// Finds a piece by id.
    fn find_piece(&self, id: &String) -> (r: Option<usize>)
        ensures
            match r {
                Option::Some(i) => piece_idx(self.pieces@, id@) == Option::Some(i as int) && i
                    < self.pieces@.len(),
                Option::None => piece_idx(self.pieces@, id@) is None,
            },
    {
        let n = self.pieces.len();
        let mut i: usize = 0;
        while i < n
            invariant
                0 <= i <= n,
                n == self.pieces@.len(),
                piece_idx(self.pieces@, id@) == piece_idx_from(self.pieces@, i as int, id@),
            decreases n - i,
        {
            if self.pieces[i].id == *id {
                return Option::Some(i);
            }
            i = i + 1;
        }
        Option::None
    }

    /// Finds the board entry for a square.
    fn find_board(&self, sq: Square) -> (r: Option<usize>)
        ensures
            match r {
                Option::Some(i) => board_idx(self.board@, sq) == Option::Some(i as int) && i
                    < self.board@.len(),
                Option::None => board_idx(self.board@, sq) is None,
            },
    {
        let n = self.board.len();
        let mut i: usize = 0;
        while i < n
            invariant
                0 <= i <= n,
                n == self.board@.len(),
                board_idx(self.board@, sq) == board_idx_from(self.board@, i as int, sq),
            decreases n - i,
        {
            let e = &self.board[i];
            if e.0.x == sq.x && e.0.y == sq.y {
                return Option::Some(i);
            }
            i = i + 1;
        }
        Option::None
    }

    /// Finds a player's pocket entry.
    fn find_pocket(&self, player: PlayerId) -> (r: Option<usize>)
        ensures
            match r {
                Option::Some(i) => pocket_idx(self.pockets@, player) == Option::Some(i as int)
                    && i < self.pockets@.len() && self.pockets@[i as int].0 == player,
                Option::None => pocket_idx(self.pockets@, player) is None,
            },
    {
        let n = self.pockets.len();
        let mut i: usize = 0;
        while i < n
            invariant
                0 <= i <= n,
                n == self.pockets@.len(),
                pocket_idx(self.pockets@, player) == pocket_idx_from(
                    self.pockets@,
                    i as int,
                    player,
                ),
            decreases n - i,
        {
            if self.pockets[i].0 == player {
                return Option::Some(i);
            }
            i = i + 1;
        }
        Option::None
    }

    /// Map-style insertion into the board list.
    fn board_insert(&mut self, sq: Square, id: PieceId)
        ensures
            final(self).board@ == board_insert_s(old(self).board@, sq, id),
            final(self).pockets == old(self).pockets,
            final(self).pieces == old(self).pieces,
            final(self).turn == old(self).turn,
            final(self).global_state == old(self).global_state,
            final(self).active_piece == old(self).active_piece,
            final(self).action_taken == old(self).action_taken,
            final(self).debug_mode == old(self).debug_mode,
            final(self).next_piece_id == old(self).next_piece_id,
    {
        match self.find_board(sq) {
            Option::Some(i) => {
                self.board.set(i, (sq, id));
            },
            Option::None => {
                self.board.push((sq, id));
            },
        }
    }

    /// Map-style removal from the board list.
    fn board_remove(&mut self, sq: Square)
        ensures
            final(self).board@ == board_remove_s(old(self).board@, sq),
            final(self).pockets == old(self).pockets,
            final(self).pieces == old(self).pieces,
            final(self).turn == old(self).turn,
            final(self).global_state == old(self).global_state,
            final(self).active_piece == old(self).active_piece,
            final(self).action_taken == old(self).action_taken,
            final(self).debug_mode == old(self).debug_mode,
            final(self).next_piece_id == old(self).next_piece_id,
    {
        match self.find_board(sq) {
            Option::Some(i) => {
                self.board.remove(i);
            },
            Option::None => {},
        }
    }

    /// Map-style insertion into the piece list.
    fn pieces_insert(&mut self, p: Piece)
        ensures
            final(self).pieces@ == pieces_insert_s(old(self).pieces@, p),
            final(self).board == old(self).board,
            final(self).pockets == old(self).pockets,
            final(self).turn == old(self).turn,
            final(self).global_state == old(self).global_state,
            final(self).active_piece == old(self).active_piece,
            final(self).action_taken == old(self).action_taken,
            final(self).debug_mode == old(self).debug_mode,
            final(self).next_piece_id == old(self).next_piece_id,
    {
        let idx = self.find_piece(&p.id);
        match idx {
            Option::Some(i) => {
                self.pieces.set(i, p);
            },
            Option::None => {
                self.pieces.push(p);
            },
        }
    }

    /// Map-style insertion into the global-state list.
    fn state_insert(&mut self, key: String, value: i32)
        ensures
            final(self).global_state@ == state_insert_s(old(self).global_state@, key, value),
            final(self).board == old(self).board,
            final(self).pockets == old(self).pockets,
            final(self).pieces == old(self).pieces,
            final(self).turn == old(self).turn,
            final(self).active_piece == old(self).active_piece,
            final(self).action_taken == old(self).action_taken,
            final(self).debug_mode == old(self).debug_mode,
            final(self).next_piece_id == old(self).next_piece_id,
    {
        let n = self.global_state.len();
        let mut i: usize = 0;
        while i < n
            invariant
                0 <= i <= n,
                n == self.global_state@.len(),
                self == old(self),
                state_idx(self.global_state@, key@) == state_idx_from(
                    self.global_state@,
                    i as int,
                    key@,
                ),
            decreases n - i,
        {
            if self.global_state[i].0 == key {
                self.global_state.set(i, (key, value));
                return ;
            }
            i = i + 1;
        }
        self.global_state.push((key, value));
    }
}

/// A freshly created king as `new` places it.
pub open spec fn spec_initial_king(p: Piece, n: nat, owner: u8, sq: Square) -> bool {
    &&& p.id@ == id_seq(n)
    &&& p.kind is King
    &&& p.owner == owner
    &&& p.pos == Option::Some(sq)
    &&& p.stun == 0
    &&& p.move_stack == 3
    &&& p.is_royal
    &&& p.disguise is None
}

/// Map-style insertion into the pocket list.
pub open spec fn pockets_set_s(
    p: Seq<(u8, Vec<PieceSpec>)>,
    player: u8,
    specs: Vec<PieceSpec>,
) -> Seq<(u8, Vec<PieceSpec>)> {
    match pocket_idx(p, player) {
        Option::Some(i) => p.update(i, (player, specs)),
        Option::None => p.push((player, specs)),
    }
}

/// The pocket a standard game starts with: one queen, two rooks, two
/// bishops, two knights and eight pawns, worth the full 39 points.
pub open spec fn standard_pocket() -> Seq<PieceSpec> {
    seq![
        PieceSpec { kind: PieceKind::Queen },
        PieceSpec { kind: PieceKind::Rook },
        PieceSpec { kind: PieceKind::Rook },
        PieceSpec { kind: PieceKind::Bishop },
        PieceSpec { kind: PieceKind::Bishop },
        PieceSpec { kind: PieceKind::Knight },
        PieceSpec { kind: PieceKind::Knight },
        PieceSpec { kind: PieceKind::Pawn },
        PieceSpec { kind: PieceKind::Pawn },
        PieceSpec { kind: PieceKind::Pawn },
        PieceSpec { kind: PieceKind::Pawn },
        PieceSpec { kind: PieceKind::Pawn },
        PieceSpec { kind: PieceKind::Pawn },
        PieceSpec { kind: PieceKind::Pawn },
        PieceSpec { kind: PieceKind::Pawn },
    ]
}

/// The pocket of fairy pieces the experimental setup hands out.
pub open spec fn experimental_pocket() -> Seq<PieceSpec> {
    seq![
        PieceSpec { kind: PieceKind::Amazon },
        PieceSpec { kind: PieceKind::Grasshopper },
        PieceSpec { kind: PieceKind::Knightrider },
        PieceSpec { kind: PieceKind::Archbishop },
        PieceSpec { kind: PieceKind::Dabbaba },
        PieceSpec { kind: PieceKind::Alfil },
        PieceSpec { kind: PieceKind::Ferz },
        PieceSpec { kind: PieceKind::Centaur },
        PieceSpec { kind: PieceKind::Camel },
        PieceSpec { kind: PieceKind::TempestRook },
        PieceSpec { kind: PieceKind::Cannon },
        PieceSpec { kind: PieceKind::Experiment },
    ]
}

/// The first pocket entry of the given kind.
pub open spec fn first_kind_idx_from(s: Seq<PieceSpec>, i: int, kind: PieceKind) -> Option<int>
    decreases s.len() - i,
{
    if i < 0 || i >= s.len() {
        Option::None
    } else if kind_eq(s[i].kind, kind) {
        Option::Some(i)
    } else {
        first_kind_idx_from(s, i + 1, kind)
    }
}

pub open spec fn first_kind_idx(s: Seq<PieceSpec>, kind: PieceKind) -> Option<int> {
    first_kind_idx_from(s, 0, kind)
}

/// Why a placement is refused, or nothing when it is allowed: the first
/// failing check, in the order the game makes them.
pub open spec fn spec_can_place_err(
    s: GameState,
    player: u8,
    kind: PieceKind,
    target: Square,
) -> Option<Seq<char>> {
    if s.turn != player {
        Option::Some("not your turn"@)
    } else if s.action_taken {
        Option::Some("an action was already taken this turn"@)
    } else if s.active_piece is Some {
        Option::Some("a piece is already moving"@)
    } else if board_idx(s.board@, target) is Some {
        Option::Some("the target square is occupied"@)
    } else if kind is Pawn && (if player == 0 {
        target.y == 7
    } else {
        target.y == 0
    }) {
        Option::Some("a promoting piece cannot be placed on its promotion rank"@)
    } else {
        match pocket_idx(s.pockets@, player) {
            Option::None => Option::Some("no pocket for this player"@),
            Option::Some(pi) => {
                if first_kind_idx(s.pockets@[pi].1@, kind) is Some {
                    Option::None
                } else {
                    Option::Some("the pocket does not hold that piece"@)
                }
            },
        }
    }
}

/// The victor: the side whose opponent keeps no royal piece.
pub open spec fn spec_victory(ps: Seq<Piece>) -> GameResult {
    let white_has = exists|i: int|
        0 <= i < ps.len() && (#[trigger] ps[i]).is_royal && ps[i].owner == 0;
    let black_has = exists|i: int|
        0 <= i < ps.len() && (#[trigger] ps[i]).is_royal && ps[i].owner != 0;
    if !white_has {
        GameResult::BlackWins
    } else if !black_has {
        GameResult::WhiteWins
    } else {
        GameResult::Ongoing
    }
}

/// The piece standing on a square, read through the board list.
pub open spec fn spec_piece_at(s: GameState, sq: Square) -> Option<Piece> {
    match occupant_idx(s.board@, s.pieces@, sq) {
        Option::Some(i) => Option::Some(s.pieces@[i]),
        Option::None => Option::None,
    }
}

/// Stun decay at the end of the owner's turn.
pub open spec fn dec_stun_pieces(ps: Seq<Piece>, turn: u8) -> Seq<Piece> {
    ps.map_values(
        |p: Piece|
            if p.owner == turn {
                Piece {
                    stun: if p.stun > 0 {
                        (p.stun - 1) as i32
                    } else {
                        0
                    },
                    ..p
                }
            } else {
                p
            },
    )
}

/// Move-stack refresh for the side about to play.
pub open spec fn reset_stack_pieces(ps: Seq<Piece>, turn: u8) -> Seq<Piece> {
    ps.map_values(
        |p: Piece|
            if p.owner == turn && p.pos is Some {
                Piece { move_stack: spec_initial_move_stack(spec_score(p.kind)), ..p }
            } else {
                p
            },
    )
}

impl GameState {
    /// A fresh game: both kings on their home squares, everything else
    /// empty, the given player to move.
    pub fn new(starting_player: PlayerId) -> (r: GameState)
        ensures
            r.turn == starting_player,
            r.pockets@.len() == 0,
            r.global_state@.len() == 0,
            r.active_piece is None,
            !r.action_taken,
            !r.debug_mode,
            r.next_piece_id == 2,
            r.pieces@.len() == 2,
            spec_initial_king(r.pieces@[0], 0, 0, Square { x: 4, y: 0 }),
            spec_initial_king(r.pieces@[1], 1, 1, Square { x: 4, y: 7 }),
            r.board@.len() == 2,
            r.board@[0].0 == (Square { x: 4, y: 0 }),
            r.board@[0].1@ == id_seq(0),
            r.board@[1].0 == (Square { x: 4, y: 7 }),
            r.board@[1].1@ == id_seq(1),
    {
        let mut state = GameState {
            board: Vec::new(),
            pockets: Vec::new(),
            pieces: Vec::new(),
            turn: starting_player,
            global_state: Vec::new(),
            active_piece: Option::None,
            action_taken: false,
            debug_mode: false,
            next_piece_id: 0,
        };
        state.setup_initial_kings();
        state
    }

    /// A fresh game with white to move.
    pub fn new_default() -> (r: GameState)
        ensures
            r.turn == 0,
            r.pockets@.len() == 0,
            r.global_state@.len() == 0,
            r.active_piece is None,
            !r.action_taken,
            !r.debug_mode,
            r.next_piece_id == 2,
            r.pieces@.len() == 2,
            spec_initial_king(r.pieces@[0], 0, 0, Square { x: 4, y: 0 }),
            spec_initial_king(r.pieces@[1], 1, 1, Square { x: 4, y: 7 }),
            r.board@.len() == 2,
            r.board@[0].0 == (Square { x: 4, y: 0 }),
            r.board@[0].1@ == id_seq(0),
            r.board@[1].0 == (Square { x: 4, y: 7 }),
            r.board@[1].1@ == id_seq(1),
    {
        GameState::new(0)
    }

    /// Places the two kings of a fresh game.
    fn setup_initial_kings(&mut self)
        requires
            old(self).pieces@.len() == 0,
            old(self).board@.len() == 0,
            old(self).next_piece_id == 0,
        ensures
            final(self).pieces@.len() == 2,
            spec_initial_king(final(self).pieces@[0], 0, 0, Square { x: 4, y: 0 }),
            spec_initial_king(final(self).pieces@[1], 1, 1, Square { x: 4, y: 7 }),
            final(self).board@.len() == 2,
            final(self).board@[0].0 == (Square { x: 4, y: 0 }),
            final(self).board@[0].1@ == id_seq(0),
            final(self).board@[1].0 == (Square { x: 4, y: 7 }),
            final(self).board@[1].1@ == id_seq(1),
            final(self).next_piece_id == 2,
            final(self).pockets == old(self).pockets,
            final(self).turn == old(self).turn,
            final(self).global_state == old(self).global_state,
            final(self).active_piece == old(self).active_piece,
            final(self).action_taken == old(self).action_taken,
            final(self).debug_mode == old(self).debug_mode,
    {
        let white_king = self.create_piece(PieceKind::King, 0);
        let ghost wk = white_king;
        let white_king_id = white_king.id.clone();
        proof {
            assert(piece_idx(old(self).pieces@, wk.id@) is None);
        }
        self.pieces_insert(white_king);
        proof {
            assert(self.pieces@ =~= old(self).pieces@.push(wk));
            assert(self.pieces@[0] == wk);
            assert(piece_idx(self.pieces@, white_king_id@) == Option::Some(0int));
        }
        self.place_king(&white_king_id, Square::new(4, 0));
        let black_king = self.create_piece(PieceKind::King, 1);
        let ghost bk = black_king;
        let black_king_id = black_king.id.clone();
        proof {
            reveal_strlit("piece_");
            assert(dec_digits(0) =~= seq![48 as char]);
            assert(dec_digits(1) =~= seq![49 as char]);
            assert(id_seq(0).len() == 7);
            assert(id_seq(0)[6] == 48 as char);
            assert(id_seq(1)[6] == 49 as char);
            assert(id_seq(0) != id_seq(1));
            assert(self.pieces@.len() == 1);
            assert(self.pieces@[0].id@ == id_seq(0));
            assert(piece_idx_from(self.pieces@, 1, bk.id@) is None);
            assert(piece_idx_from(self.pieces@, 0, bk.id@) is None);
            assert(piece_idx(self.pieces@, bk.id@) is None);
        }
        self.pieces_insert(black_king);
        proof {
            assert(self.pieces@.len() == 2);
            assert(self.pieces@[1] == bk);
            assert(self.pieces@[0].id@ == id_seq(0));
            assert(piece_idx_from(self.pieces@, 1, black_king_id@) == Option::Some(1int));
            assert(piece_idx_from(self.pieces@, 0, black_king_id@) == Option::Some(1int));
            assert(piece_idx(self.pieces@, black_king_id@) == Option::Some(1int));
            assert(self.board@.len() == 1);
            assert(self.board@[0].0 == (Square { x: 4, y: 0 }));
            assert(board_idx_from(self.board@, 1, Square { x: 4, y: 7 }) is None);
            assert(board_idx_from(self.board@, 0, Square { x: 4, y: 7 }) is None);
            assert(board_idx(self.board@, Square { x: 4, y: 7 }) is None);
        }
        self.place_king(&black_king_id, Square::new(4, 7));
    }

    /// Registers a piece as a royal king on its home square.
    fn place_king(&mut self, piece_id: &PieceId, square: Square)
        ensures
            match piece_idx(old(self).pieces@, piece_id@) {
                Option::Some(i) => final(self).pieces@ == old(self).pieces@.update(
                    i,
                    Piece {
                        pos: Option::Some(square),
                        is_royal: true,
                        stun: 0,
                        move_stack: 3,
                        ..old(self).pieces@[i]
                    },
                ) && final(self).board@ == board_insert_s(old(self).board@, square, *piece_id),
                Option::None => final(self).pieces == old(self).pieces && final(self).board == old(self).board,
            },
            final(self).pockets == old(self).pockets,
            final(self).turn == old(self).turn,
            final(self).global_state == old(self).global_state,
            final(self).active_piece == old(self).active_piece,
            final(self).action_taken == old(self).action_taken,
            final(self).debug_mode == old(self).debug_mode,
            final(self).next_piece_id == old(self).next_piece_id,
    {
        match self.find_piece(piece_id) {
            Option::Some(i) => {
                let mut p = clone_piece(&self.pieces[i]);
                p.pos = Option::Some(square);
                p.is_royal = true;
                p.stun = 0;
                p.move_stack = 3;
                self.pieces.set(i, p);
                self.board_insert(square, piece_id.clone());
            },
            Option::None => {},
        }
    }

    /// Mints a fresh piece without registering it.
    pub fn create_piece(&mut self, kind: PieceKind, owner: PlayerId) -> (r: Piece)
        requires
            old(self).next_piece_id < u32::MAX,
        ensures
            r.id@ == id_seq(old(self).next_piece_id as nat),
            r.kind == kind,
            r.owner == owner,
            r.pos is None,
            r.stun == 0,
            r.move_stack == 0,
            !r.is_royal,
            r.disguise is None,
            final(self).next_piece_id == old(self).next_piece_id + 1,
            final(self).board == old(self).board,
            final(self).pockets == old(self).pockets,
            final(self).pieces == old(self).pieces,
            final(self).turn == old(self).turn,
            final(self).global_state == old(self).global_state,
            final(self).active_piece == old(self).active_piece,
            final(self).action_taken == old(self).action_taken,
            final(self).debug_mode == old(self).debug_mode,
    {
        let id = piece_id_string(self.next_piece_id);
        self.next_piece_id = self.next_piece_id + 1;
        Piece::new(id, kind, owner)
    }

    /// Fills a player's pocket, refusing one worth more than the limit.
    pub fn setup_pocket(&mut self, player: PlayerId, specs: Vec<PieceSpec>) -> (r: Result<
        (),
        String,
    >)
        ensures
            specs_score(specs@) <= MAX_POCKET_SCORE ==> r is Ok && final(self).pockets@
                == pockets_set_s(old(self).pockets@, player, specs),
            specs_score(specs@) > MAX_POCKET_SCORE ==> r is Err && r->Err_0@
                == "pocket score exceeds the limit"@ && final(self).pockets == old(self).pockets,
            final(self).board == old(self).board,
            final(self).pieces == old(self).pieces,
            final(self).turn == old(self).turn,
            final(self).global_state == old(self).global_state,
            final(self).active_piece == old(self).active_piece,
            final(self).action_taken == old(self).action_taken,
            final(self).debug_mode == old(self).debug_mode,
            final(self).next_piece_id == old(self).next_piece_id,
    {
        let n = specs.len();
        let mut total: i32 = 0;
        let mut i: usize = 0;
        while i < n
            invariant
                0 <= i <= n,
                n == specs@.len(),
                total as int == specs_score(specs@.subrange(0, i as int)),
                total <= MAX_POCKET_SCORE,
                self == old(self),
            decreases n - i,
        {
            let sc = specs[i].score();
            proof {
                let p = specs@.subrange(0, i + 1);
                assert(p.drop_last() =~= specs@.subrange(0, i as int));
                crate::pieces::lemma_score_range(specs@[i as int].kind);
            }
            let next = total + sc;
            if next > MAX_POCKET_SCORE {
                proof {
                    lemma_specs_score_prefix_le(specs@, i + 1);
                }
                return Result::Err(String::from_str("pocket score exceeds the limit"));
            }
            total = next;
            i = i + 1;
        }
        assert(specs@.subrange(0, n as int) =~= specs@);
        self.set_pocket(player, specs);
        Result::Ok(())
    }

    /// Fills a player's pocket without the score check.
    pub fn setup_pocket_unchecked(&mut self, player: PlayerId, specs: Vec<PieceSpec>)
        ensures
            final(self).pockets@ == pockets_set_s(old(self).pockets@, player, specs),
            final(self).board == old(self).board,
            final(self).pieces == old(self).pieces,
            final(self).turn == old(self).turn,
            final(self).global_state == old(self).global_state,
            final(self).active_piece == old(self).active_piece,
            final(self).action_taken == old(self).action_taken,
            final(self).debug_mode == old(self).debug_mode,
            final(self).next_piece_id == old(self).next_piece_id,
    {
        self.set_pocket(player, specs);
    }

    /// Map-style insertion into the pocket list.
    fn set_pocket(&mut self, player: PlayerId, specs: Vec<PieceSpec>)
        ensures
            final(self).pockets@ == pockets_set_s(old(self).pockets@, player, specs),
            final(self).board == old(self).board,
            final(self).pieces == old(self).pieces,
            final(self).turn == old(self).turn,
            final(self).global_state == old(self).global_state,
            final(self).active_piece == old(self).active_piece,
            final(self).action_taken == old(self).action_taken,
            final(self).debug_mode == old(self).debug_mode,
            final(self).next_piece_id == old(self).next_piece_id,
    {
        match self.find_pocket(player) {
            Option::Some(i) => {
                self.pockets.set(i, (player, specs));
            },
            Option::None => {
                self.pockets.push((player, specs));
            },
        }
    }

    /// The move stack a score buys at the start of a turn.
    pub fn initial_move_stack(score: i32) -> (r: i32)
        ensures
            r == spec_initial_move_stack(score),
    {
        if 1 <= score && score <= 2 {
            5
        } else if 3 <= score && score <= 5 {
            3
        } else if 6 <= score && score <= 7 {
            2
        } else if score >= 8 {
            1
        } else {
            1
        }
    }

    /// The stun a placement carries.
    pub fn calculate_placement_stun(&self, piece: &Piece, square: Square) -> (r: i32)
        requires
            piece.kind is Pawn ==> -268435448 <= square.y <= 268435455,
        ensures
            r as int == spec_placement_stun(*piece, square),
    {
        if piece.kind.can_promote() {
            let distance = piece.kind.distance_to_promotion(square, piece.is_white());
            let dmag: u64 = if distance >= 0 {
                distance as u64
            } else {
                (-(distance as i64)) as u64
            };
            let q: u64 = (8 * dmag) / 7;
            if distance >= 0 {
                (8 - q as i64) as i32
            } else {
                (8 + q as i64) as i32
            }
        } else {
            piece.score()
        }
    }

    /// Whether a placement would be accepted, with the refusal that applies.
    #[verifier::loop_isolation(false)]
    pub fn can_place(&self, player: PlayerId, kind: &PieceKind, target: Square) -> (r: Result<
        (),
        String,
    >)
        ensures
            match r {
                Result::Ok(_) => spec_can_place_err(*self, player, *kind, target) is None,
                Result::Err(m) => spec_can_place_err(*self, player, *kind, target)
                    == Option::Some(m@),
            },
    {
        if self.turn != player {
            return Result::Err(String::from_str("not your turn"));
        }
        if self.action_taken {
            return Result::Err(String::from_str("an action was already taken this turn"));
        }
        if self.active_piece.is_some() {
            return Result::Err(String::from_str("a piece is already moving"));
        }
        if self.find_board(target).is_some() {
            return Result::Err(String::from_str("the target square is occupied"));
        }
        let is_white = player == 0;
        if kind.is_promotion_square(target, is_white) {
            return Result::Err(
                String::from_str("a promoting piece cannot be placed on its promotion rank"),
            );
        }
        match self.find_pocket(player) {
            Option::None => Result::Err(String::from_str("no pocket for this player")),
            Option::Some(pi) => {
                let m = self.pockets[pi].1.len();
                let mut j: usize = 0;
                while j < m
                    invariant
                        0 <= j <= m,
                        pi < self.pockets@.len(),
                        m == self.pockets@[pi as int].1@.len(),
                        first_kind_idx(self.pockets@[pi as int].1@, *kind) == first_kind_idx_from(
                            self.pockets@[pi as int].1@,
                            j as int,
                            *kind,
                        ),
                    decreases m - j,
                {
                    if same_kind(&self.pockets[pi].1[j].kind, kind) {
                        assert(first_kind_idx_from(
                            self.pockets@[pi as int].1@,
                            j as int,
                            *kind,
                        ) == Option::Some(j as int));
                        return Result::Ok(());
                    }
                    j = j + 1;
                }
                Result::Err(String::from_str("the pocket does not hold that piece"))
            },
        }
    }

    /// Whether the current player could place this kind here.
    pub fn can_place_from_pocket(&self, kind: &PieceKind, square: Square) -> (r: bool)
        ensures
            r == (spec_can_place_err(*self, self.turn, *kind, square) is None),
    {
        self.can_place(self.turn, kind, square).is_ok()
    }

    /// The player whose turn it is.
    pub fn current_player(&self) -> (r: PlayerId)
        ensures
            r == self.turn,
    {
        self.turn
    }

    /// The piece standing on `square`, if any.
    pub fn get_piece_at(&self, square: Square) -> (r: Option<&Piece>)
        ensures
            match r {
                Option::Some(p) => spec_piece_at(*self, square) == Option::Some(*p),
                Option::None => spec_piece_at(*self, square) is None,
            },
    {
        match self.find_board(square) {
            Option::Some(bi) => {
                let id = &self.board[bi].1;
                match self.find_piece(id) {
                    Option::Some(pi) => Option::Some(&self.pieces[pi]),
                    Option::None => Option::None,
                }
            },
            Option::None => Option::None,
        }
    }

    /// The game's outcome so far.
    pub fn check_victory(&self) -> (r: GameResult)
        ensures
            r == spec_victory(self.pieces@),
    {
        let n = self.pieces.len();
        let mut white_has_royal = false;
        let mut black_has_royal = false;
        let mut i: usize = 0;
        while i < n
            invariant
                0 <= i <= n,
                n == self.pieces@.len(),
                white_has_royal == exists|k: int|
                    0 <= k < i && (#[trigger] self.pieces@[k]).is_royal && self.pieces@[k].owner
                        == 0,
                black_has_royal == exists|k: int|
                    0 <= k < i && (#[trigger] self.pieces@[k]).is_royal && self.pieces@[k].owner
                        != 0,
            decreases n - i,
        {
            let p = &self.pieces[i];
            if p.is_royal {
                if p.owner == 0 {
                    white_has_royal = true;
                } else {
                    black_has_royal = true;
                }
            }
            i = i + 1;
        }
        if !white_has_royal {
            GameResult::BlackWins
        } else if !black_has_royal {
            GameResult::WhiteWins
        } else {
            GameResult::Ongoing
        }
    }

    /// Ends the turn: the mover's stuns decay by one, the other side gets
    /// fresh move stacks and becomes the current player.
    pub fn end_turn(&mut self)
        requires
            old(self).turn <= 1,
        ensures
            final(self).turn == 1 - old(self).turn,
            final(self).pieces@ == reset_stack_pieces(
                dec_stun_pieces(old(self).pieces@, old(self).turn),
                (1 - old(self).turn) as u8,
            ),
            final(self).active_piece is None,
            !final(self).action_taken,
            final(self).board == old(self).board,
            final(self).pockets == old(self).pockets,
            final(self).global_state == old(self).global_state,
            final(self).debug_mode == old(self).debug_mode,
            final(self).next_piece_id == old(self).next_piece_id,
    {
        let ghost mid = dec_stun_pieces(old(self).pieces@, old(self).turn);
        let n = self.pieces.len();
        let mut i: usize = 0;
        while i < n
            invariant
                0 <= i <= n,
                n == self.pieces@.len(),
                mid == dec_stun_pieces(old(self).pieces@, old(self).turn),
                mid.len() == n,
                forall|k: int| 0 <= k < i ==> self.pieces@[k] == mid[k],
                forall|k: int| i <= k < n ==> self.pieces@[k] == old(self).pieces@[k],
                self.turn == old(self).turn,
                self.board == old(self).board,
                self.pockets == old(self).pockets,
                self.global_state == old(self).global_state,
                self.active_piece == old(self).active_piece,
                self.action_taken == old(self).action_taken,
                self.debug_mode == old(self).debug_mode,
                self.next_piece_id == old(self).next_piece_id,
            decreases n - i,
        {
            let p = &self.pieces[i];
            if p.owner == self.turn {
                let mut q = clone_piece(p);
                q.stun = if q.stun > 0 {
                    q.stun - 1
                } else {
                    0
                };
                self.pieces.set(i, q);
            }
            i = i + 1;
        }
        assert(self.pieces@ =~= mid);
        self.turn = 1 - self.turn;
        let ghost fin = reset_stack_pieces(mid, self.turn);
        let mut j: usize = 0;
        while j < n
            invariant
                0 <= j <= n,
                n == self.pieces@.len(),
                fin == reset_stack_pieces(mid, self.turn),
                fin.len() == n,
                self.turn == 1 - old(self).turn,
                forall|k: int| 0 <= k < j ==> self.pieces@[k] == fin[k],
                forall|k: int| j <= k < n ==> self.pieces@[k] == mid[k],
                self.board == old(self).board,
                self.pockets == old(self).pockets,
                self.global_state == old(self).global_state,
                self.active_piece == old(self).active_piece,
                self.action_taken == old(self).action_taken,
                self.debug_mode == old(self).debug_mode,
                self.next_piece_id == old(self).next_piece_id,
            decreases n - j,
        {
            let p = &self.pieces[j];
            if p.owner == self.turn && p.pos.is_some() {
                let sc = p.score();
                let mut q = clone_piece(p);
                q.move_stack = GameState::initial_move_stack(sc);
                self.pieces.set(j, q);
            }
            j = j + 1;
        }
        assert(self.pieces@ =~= fin);
        self.active_piece = Option::None;
        self.action_taken = false;
    }
}

/// Why a move is refused, or nothing when it is allowed: the first failing
/// check, in the order the game makes them.
pub open spec fn spec_can_move_err(
    s: GameState,
    player: u8,
    pid: Seq<char>,
    to: Square,
    mt: MoveType,
) -> Option<Seq<char>> {
    if s.turn != player {
        Option::Some("not your turn"@)
    } else if s.action_taken {
        Option::Some("an action was already taken this turn"@)
    } else if (match s.active_piece {
        Option::Some(a) => a@ != pid,
        Option::None => false,
    }) {
        Option::Some("another piece is already moving"@)
    } else {
        match piece_idx(s.pieces@, pid) {
            Option::None => Option::Some("piece not found"@),
            Option::Some(i) => {
                let p = s.pieces@[i];
                if p.owner != player {
                    Option::Some("not your piece"@)
                } else if !(p.stun == 0 && p.move_stack > 0) {
                    // The piece cannot move at all; a positive stun is named,
                    // anything else reads as a spent move stack.
                    if p.stun > 0 {
                        Option::Some("the piece is stunned"@)
                    } else {
                        Option::Some("no move stack left"@)
                    }
                } else {
                    let empty_target = board_idx(s.board@, to) is None;
                    let occ = occupant_idx(s.board@, s.pieces@, to);
                    let has_enemy = match occ {
                        Option::Some(j) => s.pieces@[j].owner != player,
                        Option::None => false,
                    };
                    let has_friendly = match occ {
                        Option::Some(j) => s.pieces@[j].owner == player,
                        Option::None => false,
                    };
                    match mt {
                        MoveType::Move => if !empty_target {
                            Option::Some("move needs an empty square"@)
                        } else {
                            Option::None
                        },
                        MoveType::Take => if !has_enemy {
                            Option::Some("take needs an enemy piece"@)
                        } else {
                            Option::None
                        },
                        MoveType::Catch => if !has_enemy {
                            Option::Some("catch needs an enemy piece"@)
                        } else {
                            Option::None
                        },
                        MoveType::Shift => if empty_target {
                            Option::Some("shift needs an occupied square"@)
                        } else {
                            Option::None
                        },
                        MoveType::TakeMove => if has_friendly {
                            Option::Some("cannot move onto a friendly piece"@)
                        } else {
                            Option::None
                        },
                        MoveType::Jump => if !empty_target {
                            Option::Some("jump needs an empty square"@)
                        } else {
                            Option::None
                        },
                    }
                }
            },
        }
    }
}

/// The board and piece lists after `aid` captures `vid`: the attacker pays
/// one move and inherits the victim's stacks; the victim leaves its square
/// and the roster.  `None` when the victim is unknown.
pub open spec fn spec_capture(
    b: Seq<(Square, String)>,
    ps: Seq<Piece>,
    aid: Seq<char>,
    vid: Seq<char>,
) -> Option<(Seq<(Square, String)>, Seq<Piece>)> {
    match piece_idx(ps, vid) {
        Option::None => Option::None,
        Option::Some(vi) => {
            let v = ps[vi];
            let ps1 = match piece_idx(ps, aid) {
                Option::Some(ai) => ps.update(
                    ai,
                    Piece {
                        move_stack: (ps[ai].move_stack - 1 + v.move_stack) as i32,
                        stun: (ps[ai].stun + v.stun) as i32,
                        ..ps[ai]
                    },
                ),
                Option::None => ps,
            };
            let b1 = match v.pos {
                Option::Some(p) => board_remove_s(b, p),
                Option::None => b,
            };
            (Option::Some((b1, pieces_remove_s(ps1, vid))))
        },
    }
}

/// Whether the stack arithmetic of `aid` capturing `vid` stays within the
/// machine range.
pub open spec fn capture_fits(ps: Seq<Piece>, aid: Seq<char>, vid: Seq<char>) -> bool {
    match (piece_idx(ps, aid), piece_idx(ps, vid)) {
        (Option::Some(ai), Option::Some(vi)) => {
            &&& i32::MIN <= ps[ai].move_stack - 1 + ps[vi].move_stack <= i32::MAX
            &&& i32::MIN <= ps[ai].stun + ps[vi].stun <= i32::MAX
        },
        _ => true,
    }
}

/// Whether the captures a move of this type could perform all fit the
/// machine range.
pub open spec fn move_arith_fits(s: GameState, pid: Seq<char>, to: Square, mt: MoveType) -> bool {
    match mt {
        MoveType::Take | MoveType::TakeMove | MoveType::Catch => {
            match board_idx(s.board@, to) {
                Option::Some(bi) => capture_fits(s.pieces@, pid, s.board@[bi].1@),
                Option::None => true,
            }
        },
        _ => true,
    }
}

/// The piece and state lists after the deferred tags of a committed move are
/// applied, one by one: a transition re-kinds the mover and refreshes its
/// move stack; a state tag writes the global state.
pub open spec fn spec_apply_tags(
    ps: Seq<Piece>,
    st: Seq<(String, i32)>,
    pid: Seq<char>,
    tags: Seq<ActionTag>,
    i: int,
) -> (Seq<Piece>, Seq<(String, i32)>)
    decreases tags.len() - i,
{
    if i < 0 || i >= tags.len() {
        (ps, st)
    } else {
        let tag = tags[i];
        match tag.tag_type {
            ActionTagType::Transition => {
                let ps1 = match tag.piece_name {
                    Option::Some(nm) => match kind_of_lower(lower_seq(nm@)) {
                        Option::Some(k) => match piece_idx(ps, pid) {
                            Option::Some(j) => ps.update(
                                j,
                                Piece {
                                    kind: k,
                                    move_stack: spec_initial_move_stack(spec_score(k)),
                                    ..ps[j]
                                },
                            ),
                            Option::None => ps,
                        },
                        Option::None => ps,
                    },
                    Option::None => ps,
                };
                spec_apply_tags(ps1, st, pid, tags, i + 1)
            },
            ActionTagType::SetState => {
                spec_apply_tags(ps, state_insert_s(st, tag.key, tag.value), pid, tags, i + 1)
            },
        }
    }
}

/// What a move does: either it is refused with a message, or it yields the
/// new board and piece lists and the id of the captured piece, if one fell.
pub enum MoveOutcome {
    Fail(Seq<char>),
    Go(Seq<(Square, String)>, Seq<Piece>, Option<String>),
}

/// The meaning of `move_piece`: validation, then the per-kind board surgery.
pub open spec fn spec_move_piece(
    s: GameState,
    player: u8,
    pid: String,
    from: Square,
    to: Square,
    mt: MoveType,
) -> MoveOutcome {
    match spec_can_move_err(s, player, pid@, to, mt) {
        Option::Some(m) => MoveOutcome::Fail(m),
        Option::None => {
            let pi = piece_idx(s.pieces@, pid@);
            match mt {
                MoveType::Move => {
                    let b1 = board_insert_s(board_remove_s(s.board@, from), to, pid);
                    let ps1 = match pi {
                        Option::Some(i) => s.pieces@.update(
                            i,
                            Piece {
                                pos: Option::Some(to),
                                move_stack: (s.pieces@[i].move_stack - 1) as i32,
                                ..s.pieces@[i]
                            },
                        ),
                        Option::None => s.pieces@,
                    };
                    MoveOutcome::Go(b1, ps1, Option::None)
                },
                MoveType::Take | MoveType::TakeMove => {
                    match board_idx(s.board@, to) {
                        Option::Some(bi) => {
                            let vid = s.board@[bi].1;
                            match spec_capture(s.board@, s.pieces@, pid@, vid@) {
                                Option::None => MoveOutcome::Fail("victim not found"@),
                                Option::Some(bp) => {
                                    let b1 = board_insert_s(
                                        board_remove_s(bp.0, from),
                                        to,
                                        pid,
                                    );
                                    let ps1 = match piece_idx(bp.1, pid@) {
                                        Option::Some(i) => bp.1.update(
                                            i,
                                            Piece { pos: Option::Some(to), ..bp.1[i] },
                                        ),
                                        Option::None => bp.1,
                                    };
                                    MoveOutcome::Go(b1, ps1, Option::Some(vid))
                                },
                            }
                        },
                        Option::None => {
                            let b1 = board_insert_s(board_remove_s(s.board@, from), to, pid);
                            let ps1 = match pi {
                                Option::Some(i) => s.pieces@.update(
                                    i,
                                    Piece {
                                        pos: Option::Some(to),
                                        move_stack: (s.pieces@[i].move_stack - 1) as i32,
                                        ..s.pieces@[i]
                                    },
                                ),
                                Option::None => s.pieces@,
                            };
                            MoveOutcome::Go(b1, ps1, Option::None)
                        },
                    }
                },
                MoveType::Catch => {
                    match board_idx(s.board@, to) {
                        Option::Some(bi) => {
                            let vid = s.board@[bi].1;
                            match piece_idx(s.pieces@, vid@) {
                                Option::None => MoveOutcome::Fail("victim not found"@),
                                Option::Some(vi) => {
                                    let v = s.pieces@[vi];
                                    let ps1 = match pi {
                                        Option::Some(i) => s.pieces@.update(
                                            i,
                                            Piece {
                                                move_stack: (s.pieces@[i].move_stack - 1
                                                    + v.move_stack) as i32,
                                                stun: (s.pieces@[i].stun + v.stun) as i32,
                                                ..s.pieces@[i]
                                            },
                                        ),
                                        Option::None => s.pieces@,
                                    };
                                    let b1 = board_remove_s(s.board@, to);
                                    MoveOutcome::Go(
                                        b1,
                                        pieces_remove_s(ps1, vid@),
                                        Option::Some(vid),
                                    )
                                },
                            }
                        },
                        Option::None => MoveOutcome::Fail("catch target is missing"@),
                    }
                },
                MoveType::Shift => {
                    match board_idx(s.board@, to) {
                        Option::Some(bi) => {
                            let tid = s.board@[bi].1;
                            let b1 = board_insert_s(
                                board_insert_s(board_remove_s(board_remove_s(s.board@, from), to), from, tid),
                                to,
                                pid,
                            );
                            let ps1 = match pi {
                                Option::Some(i) => s.pieces@.update(
                                    i,
                                    Piece {
                                        pos: Option::Some(to),
                                        move_stack: (s.pieces@[i].move_stack - 1) as i32,
                                        ..s.pieces@[i]
                                    },
                                ),
                                Option::None => s.pieces@,
                            };
                            let ps2 = match piece_idx(ps1, tid@) {
                                Option::Some(j) => ps1.update(
                                    j,
                                    Piece { pos: Option::Some(from), ..ps1[j] },
                                ),
                                Option::None => ps1,
                            };
                            MoveOutcome::Go(b1, ps2, Option::None)
                        },
                        Option::None => MoveOutcome::Fail("shift target is missing"@),
                    }
                },
                MoveType::Jump => {
                    let b1 = board_insert_s(board_remove_s(s.board@, from), to, pid);
                    let ps1 = match pi {
                        Option::Some(i) => s.pieces@.update(
                            i,
                            Piece {
                                pos: Option::Some(to),
                                move_stack: (s.pieces@[i].move_stack - 1) as i32,
                                ..s.pieces@[i]
                            },
                        ),
                        Option::None => s.pieces@,
                    };
                    MoveOutcome::Go(b1, ps1, Option::None)
                },
            }
        },
    }
}

impl GameState {
    /// Whether a move of this type to `to` would be accepted for the piece.
    pub fn can_move_piece(
        &self,
        player: PlayerId,
        piece_id: &PieceId,
        _from: Square,
        to: Square,
        move_type: MoveType,
    ) -> (r: Result<(), String>)
        ensures
            match r {
                Result::Ok(_) => spec_can_move_err(*self, player, piece_id@, to, move_type)
                    is None,
                Result::Err(m) => spec_can_move_err(*self, player, piece_id@, to, move_type)
                    == Option::Some(m@),
            },
    {
        if self.turn != player {
            return Result::Err(String::from_str("not your turn"));
        }
        if self.action_taken {
            return Result::Err(String::from_str("an action was already taken this turn"));
        }
        match &self.active_piece {
            Option::Some(active) => {
                if !(*active == *piece_id) {
                    return Result::Err(String::from_str("another piece is already moving"));
                }
            },
            Option::None => {},
        }
        let pi = match self.find_piece(piece_id) {
            Option::Some(i) => i,
            Option::None => {
                return Result::Err(String::from_str("piece not found"));
            },
        };
        let piece = &self.pieces[pi];
        if piece.owner != player {
            return Result::Err(String::from_str("not your piece"));
        }
        if !piece.can_move() {
            if piece.stun > 0 {
                return Result::Err(String::from_str("the piece is stunned"));
            } else {
                return Result::Err(String::from_str("no move stack left"));
            }
        }
        let occ = match self.find_board(to) {
            Option::Some(bi) => self.find_piece(&self.board[bi].1),
            Option::None => Option::None,
        };
        let is_target_empty = self.find_board(to).is_none();
        let has_enemy = match occ {
            Option::Some(j) => self.pieces[j].owner != player,
            Option::None => false,
        };
        let has_friendly = match occ {
            Option::Some(j) => self.pieces[j].owner == player,
            Option::None => false,
        };
        match move_type {
            MoveType::Move => {
                if !is_target_empty {
                    return Result::Err(String::from_str("move needs an empty square"));
                }
            },
            MoveType::Take => {
                if !has_enemy {
                    return Result::Err(String::from_str("take needs an enemy piece"));
                }
            },
            MoveType::Catch => {
                if !has_enemy {
                    return Result::Err(String::from_str("catch needs an enemy piece"));
                }
            },
            MoveType::Shift => {
                if is_target_empty {
                    return Result::Err(String::from_str("shift needs an occupied square"));
                }
            },
            MoveType::TakeMove => {
                if has_friendly {
                    return Result::Err(String::from_str("cannot move onto a friendly piece"));
                }
            },
            MoveType::Jump => {
                if !is_target_empty {
                    return Result::Err(String::from_str("jump needs an empty square"));
                }
            },
        }
        Result::Ok(())
    }

    /// Removes a victim and hands its stacks to the attacker.
    pub fn capture(&mut self, attacker_id: &PieceId, victim_id: &PieceId) -> (r: Result<
        (),
        String,
    >)
        requires
            capture_fits(old(self).pieces@, attacker_id@, victim_id@),
        ensures
            match spec_capture(old(self).board@, old(self).pieces@, attacker_id@, victim_id@) {
                Option::Some(bp) => r is Ok && final(self).board@ == bp.0 && final(self).pieces@
                    == bp.1,
                Option::None => r is Err && r->Err_0@ == "victim not found"@ && final(self).board
                    == old(self).board && final(self).pieces == old(self).pieces,
            },
            final(self).pockets == old(self).pockets,
            final(self).turn == old(self).turn,
            final(self).global_state == old(self).global_state,
            final(self).active_piece == old(self).active_piece,
            final(self).action_taken == old(self).action_taken,
            final(self).debug_mode == old(self).debug_mode,
            final(self).next_piece_id == old(self).next_piece_id,
    {
        let vi = match self.find_piece(victim_id) {
            Option::Some(i) => i,
            Option::None => {
                return Result::Err(String::from_str("victim not found"));
            },
        };
        let victim = clone_piece(&self.pieces[vi]);
        match self.find_piece(attacker_id) {
            Option::Some(ai) => {
                let mut attacker = clone_piece(&self.pieces[ai]);
                attacker.move_stack = ((attacker.move_stack as i64) - 1 + (victim.move_stack
                    as i64)) as i32;
                attacker.stun = ((attacker.stun as i64) + (victim.stun as i64)) as i32;
                self.pieces.set(ai, attacker);
            },
            Option::None => {},
        }
        match victim.pos {
            Option::Some(p) => {
                self.board_remove(p);
            },
            Option::None => {},
        }
        match self.find_piece(victim_id) {
            Option::Some(vj) => {
                self.pieces.remove(vj);
            },
            Option::None => {},
        }
        Result::Ok(())
    }

    /// Applies a committed move's deferred tags to the mover and the global
    /// state, in tag order.
    pub fn apply_action_tags(&mut self, piece_id: &PieceId, tags: &Vec<ActionTag>)
        ensures
            (final(self).pieces@, final(self).global_state@) == spec_apply_tags(
                old(self).pieces@,
                old(self).global_state@,
                piece_id@,
                tags@,
                0,
            ),
            final(self).board == old(self).board,
            final(self).pockets == old(self).pockets,
            final(self).turn == old(self).turn,
            final(self).active_piece == old(self).active_piece,
            final(self).action_taken == old(self).action_taken,
            final(self).debug_mode == old(self).debug_mode,
            final(self).next_piece_id == old(self).next_piece_id,
    {
        let n = tags.len();
        let mut i: usize = 0;
        while i < n
            invariant
                0 <= i <= n,
                n == tags@.len(),
                spec_apply_tags(
                    old(self).pieces@,
                    old(self).global_state@,
                    piece_id@,
                    tags@,
                    0,
                ) == spec_apply_tags(self.pieces@, self.global_state@, piece_id@, tags@, i as int),
                self.board == old(self).board,
                self.pockets == old(self).pockets,
                self.turn == old(self).turn,
                self.active_piece == old(self).active_piece,
                self.action_taken == old(self).action_taken,
                self.debug_mode == old(self).debug_mode,
                self.next_piece_id == old(self).next_piece_id,
            decreases n - i,
        {
            let tag = &tags[i];
            match tag.tag_type {
                ActionTagType::Transition => {
                    match &tag.piece_name {
                        Option::Some(nm) => {
                            match kind_from_name(nm) {
                                Option::Some(new_kind) => {
                                    match self.find_piece(piece_id) {
                                        Option::Some(j) => {
                                            let sc = new_kind.score();
                                            let mut p = clone_piece(&self.pieces[j]);
                                            p.kind = new_kind;
                                            p.move_stack = GameState::initial_move_stack(sc);
                                            self.pieces.set(j, p);
                                        },
                                        Option::None => {},
                                    }
                                },
                                Option::None => {},
                            }
                        },
                        Option::None => {},
                    }
                },
                ActionTagType::SetState => {
                    self.state_insert(tag.key.clone(), tag.value);
                },
            }
            i = i + 1;
        }
    }

    /// Performs a validated move of the given type, returning the captured
    /// piece's id when one fell.
    pub fn move_piece(
        &mut self,
        player: PlayerId,
        piece_id: &PieceId,
        from: Square,
        to: Square,
        move_type: MoveType,
    ) -> (r: Result<Option<PieceId>, String>)
        requires
            old(self).turn == player ==> move_arith_fits(*old(self), piece_id@, to, move_type),
        ensures
            match spec_move_piece(*old(self), player, *piece_id, from, to, move_type) {
                MoveOutcome::Fail(m) => r is Err && r->Err_0@ == m && *final(self) == *old(self),
                MoveOutcome::Go(b, ps, cap) => {
                    &&& r is Ok
                    &&& r->Ok_0 == cap
                    &&& final(self).board@ == b
                    &&& final(self).pieces@ == ps
                    &&& final(self).active_piece == Option::Some(*piece_id)
                    &&& final(self).pockets == old(self).pockets
                    &&& final(self).turn == old(self).turn
                    &&& final(self).global_state == old(self).global_state
                    &&& final(self).action_taken == old(self).action_taken
                    &&& final(self).debug_mode == old(self).debug_mode
                    &&& final(self).next_piece_id == old(self).next_piece_id
                },
            },
    {
        match self.can_move_piece(player, piece_id, from, to, move_type) {
            Result::Err(m) => {
                return Result::Err(m);
            },
            Result::Ok(_) => {},
        }
        let mut captured_id: Option<PieceId> = Option::None;
        match move_type {
            MoveType::Move => {
                self.board_remove(from);
                self.board_insert(to, piece_id.clone());
                match self.find_piece(piece_id) {
                    Option::Some(i) => {
                        let mut p = clone_piece(&self.pieces[i]);
                        p.pos = Option::Some(to);
                        p.move_stack = p.move_stack - 1;
                        self.pieces.set(i, p);
                    },
                    Option::None => {},
                }
            },
            MoveType::Take | MoveType::TakeMove => {
                match self.find_board(to) {
                    Option::Some(bi) => {
                        let victim_id = self.board[bi].1.clone();
                        captured_id = Option::Some(victim_id.clone());
                        match self.capture(piece_id, &victim_id) {
                            Result::Err(m) => {
                                return Result::Err(m);
                            },
                            Result::Ok(_) => {},
                        }
                        self.board_remove(from);
                        self.board_insert(to, piece_id.clone());
                        match self.find_piece(piece_id) {
                            Option::Some(i) => {
                                let mut p = clone_piece(&self.pieces[i]);
                                p.pos = Option::Some(to);
                                self.pieces.set(i, p);
                            },
                            Option::None => {},
                        }
                    },
                    Option::None => {
                        self.board_remove(from);
                        self.board_insert(to, piece_id.clone());
                        match self.find_piece(piece_id) {
                            Option::Some(i) => {
                                let mut p = clone_piece(&self.pieces[i]);
                                p.pos = Option::Some(to);
                                p.move_stack = p.move_stack - 1;
                                self.pieces.set(i, p);
                            },
                            Option::None => {},
                        }
                    },
                }
            },
            MoveType::Catch => {
                match self.find_board(to) {
                    Option::Some(bi) => {
                        let victim_id = self.board[bi].1.clone();
                        let vi = match self.find_piece(&victim_id) {
                            Option::Some(i) => i,
                            Option::None => {
                                return Result::Err(String::from_str("victim not found"));
                            },
                        };
                        captured_id = Option::Some(victim_id.clone());
                        let victim = clone_piece(&self.pieces[vi]);
                        match self.find_piece(piece_id) {
                            Option::Some(i) => {
                                let mut p = clone_piece(&self.pieces[i]);
                                p.move_stack = p.move_stack - 1 + victim.move_stack;
                                p.stun = p.stun + victim.stun;
                                self.pieces.set(i, p);
                            },
                            Option::None => {},
                        }
                        self.board_remove(to);
                        match self.find_piece(&victim_id) {
                            Option::Some(vj) => {
                                self.pieces.remove(vj);
                            },
                            Option::None => {},
                        }
                    },
                    Option::None => {
                        return Result::Err(String::from_str("catch target is missing"));
                    },
                }
            },
            MoveType::Shift => {
                match self.find_board(to) {
                    Option::Some(bi) => {
                        let target_id = self.board[bi].1.clone();
                        self.board_remove(from);
                        self.board_remove(to);
                        self.board_insert(from, target_id.clone());
                        self.board_insert(to, piece_id.clone());
                        match self.find_piece(piece_id) {
                            Option::Some(i) => {
                                let mut p = clone_piece(&self.pieces[i]);
                                p.pos = Option::Some(to);
                                p.move_stack = p.move_stack - 1;
                                self.pieces.set(i, p);
                            },
                            Option::None => {},
                        }
                        match self.find_piece(&target_id) {
                            Option::Some(j) => {
                                let mut q = clone_piece(&self.pieces[j]);
                                q.pos = Option::Some(from);
                                self.pieces.set(j, q);
                            },
                            Option::None => {},
                        }
                    },
                    Option::None => {
                        return Result::Err(String::from_str("shift target is missing"));
                    },
                }
            },
            MoveType::Jump => {
                self.board_remove(from);
                self.board_insert(to, piece_id.clone());
                match self.find_piece(piece_id) {
                    Option::Some(i) => {
                        let mut p = clone_piece(&self.pieces[i]);
                        p.pos = Option::Some(to);
                        p.move_stack = p.move_stack - 1;
                        self.pieces.set(i, p);
                    },
                    Option::None => {},
                }
            },
        }
        self.active_piece = Option::Some(piece_id.clone());
        Result::Ok(captured_id)
    }
}

/// Every stack value small enough that any capture's stack transfer fits the
/// machine range.
pub open spec fn stacks_bounded(ps: Seq<Piece>) -> bool {
    forall|k: int|
        0 <= k < ps.len() ==> -0x2000_0000 <= (#[trigger] ps[k]).move_stack <= 0x2000_0000
            && -0x2000_0000 <= ps[k].stun <= 0x2000_0000
}

/// Bounded stacks keep any capture's arithmetic within the machine range,
/// with one spent move of slack.
proof fn lemma_capture_fits(ps: Seq<Piece>, aid: Seq<char>, vid: Seq<char>)
    requires
        forall|k: int|
            0 <= k < ps.len() ==> -0x2000_0001 <= (#[trigger] ps[k]).move_stack <= 0x2000_0000
                && -0x2000_0001 <= ps[k].stun <= 0x2000_0000,
    ensures
        capture_fits(ps, aid, vid),
{
    match (piece_idx(ps, aid), piece_idx(ps, vid)) {
        (Option::Some(ai), Option::Some(vi)) => {
            lemma_piece_idx_in_range(ps, aid, 0);
            lemma_piece_idx_in_range(ps, vid, 0);
            assert(-0x2000_0001 <= ps[ai].move_stack <= 0x2000_0000);
            assert(-0x2000_0001 <= ps[vi].move_stack <= 0x2000_0000);
            assert(-0x2000_0001 <= ps[ai].stun <= 0x2000_0000);
            assert(-0x2000_0001 <= ps[vi].stun <= 0x2000_0000);
        },
        _ => {},
    }
}

/// A found index lies within the list.
proof fn lemma_piece_idx_in_range(ps: Seq<Piece>, id: Seq<char>, i: int)
    requires
        0 <= i,
    ensures
        match piece_idx_from(ps, i, id) {
            Option::Some(j) => i <= j < ps.len(),
            Option::None => true,
        },
    decreases ps.len() - i,
{
    if i < ps.len() && !(ps[i].id@ == id) {
        lemma_piece_idx_in_range(ps, id, i + 1);
    }
}

/// What a legal-move commit does: either it is refused with a message, or it
/// yields the new board, piece and global-state lists, the mover's id and
/// the captured piece's id, if one fell.
pub enum CommitOutcome {
    Fail(Seq<char>),
    Go(Seq<(Square, String)>, Seq<Piece>, Seq<(String, i32)>, String, Option<String>),
}

/// The meaning of `move_piece_by_legal_moves`: origin lookup, validation,
/// the per-kind board surgery, a `jump`'s deferred capture, and the tags.
pub open spec fn spec_commit_move(s: GameState, mv: LegalMove) -> CommitOutcome {
    match board_idx(s.board@, mv.from) {
        Option::None => CommitOutcome::Fail("no piece at the origin square"@),
        Option::Some(fbi) => {
            let pid = s.board@[fbi].1;
            match piece_idx(s.pieces@, pid@) {
                Option::None => CommitOutcome::Fail("piece not found"@),
                Option::Some(pi0) => {
                    let player = s.pieces@[pi0].owner;
                    match spec_can_move_err(s, player, pid@, mv.to, mv.move_type) {
                        Option::Some(m) => CommitOutcome::Fail(m),
                        Option::None => spec_commit_arms(s, mv, pid, player),
                    }
                },
            }
        },
    }
}

/// The per-kind board surgery of a legal-move commit, after validation.
pub open spec fn spec_commit_arms(
    s: GameState,
    mv: LegalMove,
    pid: String,
    player: u8,
) -> CommitOutcome {
    let pi = piece_idx(s.pieces@, pid@);
    match mv.move_type {
        MoveType::Move | MoveType::Jump => {
            let b1 = board_insert_s(board_remove_s(s.board@, mv.from), mv.to, pid);
            let ps1 = match pi {
                Option::Some(i) => s.pieces@.update(
                    i,
                    Piece {
                        pos: Option::Some(mv.to),
                        move_stack: (s.pieces@[i].move_stack - 1) as i32,
                        ..s.pieces@[i]
                    },
                ),
                Option::None => s.pieces@,
            };
            if mv.move_type is Jump && 0 <= mv.catch_to.x < 8 && 0 <= mv.catch_to.y < 8 {
                match board_idx(b1, mv.catch_to) {
                    Option::Some(cbi) => {
                        let vid = b1[cbi].1;
                        match spec_capture(b1, ps1, pid@, vid@) {
                            Option::None => CommitOutcome::Fail("victim not found"@),
                            Option::Some(bp) => spec_commit_tags(
                                s,
                                mv,
                                pid,
                                bp.0,
                                bp.1,
                                Option::Some(vid),
                            ),
                        }
                    },
                    Option::None => spec_commit_tags(s, mv, pid, b1, ps1, Option::None),
                }
            } else {
                spec_commit_tags(s, mv, pid, b1, ps1, Option::None)
            }
        },
        MoveType::Take | MoveType::TakeMove => {
            match board_idx(s.board@, mv.to) {
                Option::Some(bi) => {
                    let vid = s.board@[bi].1;
                    match spec_capture(s.board@, s.pieces@, pid@, vid@) {
                        Option::None => CommitOutcome::Fail("victim not found"@),
                        Option::Some(bp) => {
                            let b1 = board_insert_s(board_remove_s(bp.0, mv.from), mv.to, pid);
                            let ps1 = match piece_idx(bp.1, pid@) {
                                Option::Some(i) => bp.1.update(
                                    i,
                                    Piece { pos: Option::Some(mv.to), ..bp.1[i] },
                                ),
                                Option::None => bp.1,
                            };
                            spec_commit_tags(s, mv, pid, b1, ps1, Option::Some(vid))
                        },
                    }
                },
                Option::None => {
                    let b1 = board_insert_s(board_remove_s(s.board@, mv.from), mv.to, pid);
                    let ps1 = match pi {
                        Option::Some(i) => s.pieces@.update(
                            i,
                            Piece {
                                pos: Option::Some(mv.to),
                                move_stack: (s.pieces@[i].move_stack - 1) as i32,
                                ..s.pieces@[i]
                            },
                        ),
                        Option::None => s.pieces@,
                    };
                    spec_commit_tags(s, mv, pid, b1, ps1, Option::None)
                },
            }
        },
        MoveType::Catch => {
            match board_idx(s.board@, mv.to) {
                Option::Some(bi) => {
                    let vid = s.board@[bi].1;
                    match spec_capture(s.board@, s.pieces@, pid@, vid@) {
                        Option::None => CommitOutcome::Fail("victim not found"@),
                        Option::Some(bp) => spec_commit_tags(
                            s,
                            mv,
                            pid,
                            bp.0,
                            bp.1,
                            Option::Some(vid),
                        ),
                    }
                },
                Option::None => CommitOutcome::Fail("catch target is missing"@),
            }
        },
        MoveType::Shift => {
            match board_idx(s.board@, mv.to) {
                Option::Some(bi) => {
                    let tid = s.board@[bi].1;
                    let b1 = board_insert_s(
                        board_insert_s(
                            board_remove_s(board_remove_s(s.board@, mv.from), mv.to),
                            mv.from,
                            tid,
                        ),
                        mv.to,
                        pid,
                    );
                    let ps1 = match pi {
                        Option::Some(i) => s.pieces@.update(
                            i,
                            Piece {
                                pos: Option::Some(mv.to),
                                move_stack: (s.pieces@[i].move_stack - 1) as i32,
                                ..s.pieces@[i]
                            },
                        ),
                        Option::None => s.pieces@,
                    };
                    let ps2 = match piece_idx(ps1, tid@) {
                        Option::Some(j) => ps1.update(
                            j,
                            Piece { pos: Option::Some(mv.from), ..ps1[j] },
                        ),
                        Option::None => ps1,
                    };
                    spec_commit_tags(s, mv, pid, b1, ps2, Option::None)
                },
                Option::None => CommitOutcome::Fail("shift target is missing"@),
            }
        },
    }
}

/// The closing step of a commit: the deferred tags are applied to the mover
/// and the global state.
pub open spec fn spec_commit_tags(
    s: GameState,
    mv: LegalMove,
    pid: String,
    b: Seq<(Square, String)>,
    ps: Seq<Piece>,
    cap: Option<String>,
) -> CommitOutcome {
    let applied = spec_apply_tags(ps, s.global_state@, pid@, mv.tags@, 0);
    CommitOutcome::Go(b, applied.0, applied.1, pid, cap)
}

impl GameState {
    /// Commits one legal move produced by `get_legal_moves`.
    pub fn move_piece_by_legal_moves(&mut self, mv: LegalMove) -> (r: Result<
        Option<PieceId>,
        String,
    >)
        requires
            stacks_bounded(old(self).pieces@),
        ensures
            match spec_commit_move(*old(self), mv) {
                CommitOutcome::Fail(m) => {
                    &&& r is Err
                    &&& r->Err_0@ == m
                    &&& final(self).global_state == old(self).global_state
                    &&& final(self).active_piece == old(self).active_piece
                    // A jump whose capture finds a dangling board entry has
                    // already moved the jumper; every other refusal leaves
                    // the state as it was.
                    &&& (mv.move_type is Jump || *final(self) == *old(self))
                },
                CommitOutcome::Go(b, ps, st, pid, cap) => {
                    &&& r is Ok
                    &&& r->Ok_0 == cap
                    &&& final(self).board@ == b
                    &&& final(self).pieces@ == ps
                    &&& final(self).global_state@ == st
                    &&& final(self).active_piece == Option::Some(pid)
                },
            },
            final(self).pockets == old(self).pockets,
            final(self).turn == old(self).turn,
            final(self).action_taken == old(self).action_taken,
            final(self).debug_mode == old(self).debug_mode,
            final(self).next_piece_id == old(self).next_piece_id,
    {
        let from = mv.from;
        let to = mv.to;
        let fbi = match self.find_board(from) {
            Option::Some(i) => i,
            Option::None => {
                return Result::Err(String::from_str("no piece at the origin square"));
            },
        };
        let piece_id = self.board[fbi].1.clone();
        let pi0 = match self.find_piece(&piece_id) {
            Option::Some(i) => i,
            Option::None => {
                return Result::Err(String::from_str("piece not found"));
            },
        };
        let player = self.pieces[pi0].owner;
        match self.can_move_piece(player, &piece_id, from, to, mv.move_type) {
            Result::Err(m) => {
                return Result::Err(m);
            },
            Result::Ok(_) => {},
        }
        let mut captured_id: Option<PieceId> = Option::None;
        match mv.move_type {
            MoveType::Move | MoveType::Jump => {
                self.board_remove(from);
                self.board_insert(to, piece_id.clone());
                match self.find_piece(&piece_id) {
                    Option::Some(i) => {
                        let mut p = clone_piece(&self.pieces[i]);
                        p.pos = Option::Some(to);
                        p.move_stack = p.move_stack - 1;
                        self.pieces.set(i, p);
                    },
                    Option::None => {},
                }
                if matches!(mv.move_type, MoveType::Jump) && mv.catch_to.is_valid() {
                    match self.find_board(mv.catch_to) {
                        Option::Some(cbi) => {
                            let victim_id = self.board[cbi].1.clone();
                            captured_id = Option::Some(victim_id.clone());
                            proof {
                                assert forall|k: int| 0 <= k < self.pieces@.len() implies
                                    -0x2000_0001 <= (#[trigger] self.pieces@[k]).move_stack
                                        <= 0x2000_0000 && -0x2000_0001 <= self.pieces@[k].stun
                                        <= 0x2000_0000 by {
                                    assert(-0x2000_0000 <= old(self).pieces@[k].move_stack
                                        <= 0x2000_0000 && -0x2000_0000 <= old(self).pieces@[k].stun <= 0x2000_0000);
                                }
                                lemma_capture_fits(self.pieces@, piece_id@, victim_id@);
                            }
                            match self.capture(&piece_id, &victim_id) {
                                Result::Err(m) => {
                                    return Result::Err(m);
                                },
                                Result::Ok(_) => {},
                            }
                        },
                        Option::None => {},
                    }
                }
            },
            MoveType::Take | MoveType::TakeMove => {
                match self.find_board(to) {
                    Option::Some(bi) => {
                        let victim_id = self.board[bi].1.clone();
                        captured_id = Option::Some(victim_id.clone());
                        proof {
                            assert forall|k: int| 0 <= k < self.pieces@.len() implies -0x2000_0001
                                <= (#[trigger] self.pieces@[k]).move_stack <= 0x2000_0000
                                && -0x2000_0001 <= self.pieces@[k].stun <= 0x2000_0000 by {
                                assert(-0x2000_0000 <= old(self).pieces@[k].move_stack
                                    <= 0x2000_0000 && -0x2000_0000 <= old(self).pieces@[k].stun
                                    <= 0x2000_0000);
                            }
                            lemma_capture_fits(self.pieces@, piece_id@, victim_id@);
                        }
                        match self.capture(&piece_id, &victim_id) {
                            Result::Err(m) => {
                                return Result::Err(m);
                            },
                            Result::Ok(_) => {},
                        }
                        self.board_remove(from);
                        self.board_insert(to, piece_id.clone());
                        match self.find_piece(&piece_id) {
                            Option::Some(i) => {
                                let mut p = clone_piece(&self.pieces[i]);
                                p.pos = Option::Some(to);
                                self.pieces.set(i, p);
                            },
                            Option::None => {},
                        }
                    },
                    Option::None => {
                        self.board_remove(from);
                        self.board_insert(to, piece_id.clone());
                        match self.find_piece(&piece_id) {
                            Option::Some(i) => {
                                let mut p = clone_piece(&self.pieces[i]);
                                p.pos = Option::Some(to);
                                p.move_stack = p.move_stack - 1;
                                self.pieces.set(i, p);
                            },
                            Option::None => {},
                        }
                    },
                }
            },
            MoveType::Catch => {
                match self.find_board(to) {
                    Option::Some(bi) => {
                        let victim_id = self.board[bi].1.clone();
                        captured_id = Option::Some(victim_id.clone());
                        proof {
                            assert forall|k: int| 0 <= k < self.pieces@.len() implies -0x2000_0001
                                <= (#[trigger] self.pieces@[k]).move_stack <= 0x2000_0000
                                && -0x2000_0001 <= self.pieces@[k].stun <= 0x2000_0000 by {
                                assert(-0x2000_0000 <= old(self).pieces@[k].move_stack
                                    <= 0x2000_0000 && -0x2000_0000 <= old(self).pieces@[k].stun
                                    <= 0x2000_0000);
                            }
                            lemma_capture_fits(self.pieces@, piece_id@, victim_id@);
                        }
                        match self.capture(&piece_id, &victim_id) {
                            Result::Err(m) => {
                                return Result::Err(m);
                            },
                            Result::Ok(_) => {},
                        }
                    },
                    Option::None => {
                        return Result::Err(String::from_str("catch target is missing"));
                    },
                }
            },
            MoveType::Shift => {
                match self.find_board(to) {
                    Option::Some(bi) => {
                        let target_id = self.board[bi].1.clone();
                        self.board_remove(from);
                        self.board_remove(to);
                        self.board_insert(from, target_id.clone());
                        self.board_insert(to, piece_id.clone());
                        match self.find_piece(&piece_id) {
                            Option::Some(i) => {
                                let mut p = clone_piece(&self.pieces[i]);
                                p.pos = Option::Some(to);
                                p.move_stack = p.move_stack - 1;
                                self.pieces.set(i, p);
                            },
                            Option::None => {},
                        }
                        match self.find_piece(&target_id) {
                            Option::Some(j) => {
                                let mut q = clone_piece(&self.pieces[j]);
                                q.pos = Option::Some(from);
                                self.pieces.set(j, q);
                            },
                            Option::None => {},
                        }
                    },
                    Option::None => {
                        return Result::Err(String::from_str("shift target is missing"));
                    },
                }
            },
        }
        self.active_piece = Option::Some(piece_id.clone());
        self.apply_action_tags(&piece_id, &mv.tags);
        Result::Ok(captured_id)
    }
}

/// The name the interpreter sees for a piece kind.
pub open spec fn kind_name_seq(k: PieceKind) -> Seq<char> {
    match k {
        PieceKind::Pawn => "Pawn"@,
        PieceKind::King => "King"@,
        PieceKind::Queen => "Queen"@,
        PieceKind::Rook => "Rook"@,
        PieceKind::Knight => "Knight"@,
        PieceKind::Bishop => "Bishop"@,
        PieceKind::Amazon => "Amazon"@,
        PieceKind::Grasshopper => "Grasshopper"@,
        PieceKind::Knightrider => "Knightrider"@,
        PieceKind::Archbishop => "Archbishop"@,
        PieceKind::Dabbaba => "Dabbaba"@,
        PieceKind::Alfil => "Alfil"@,
        PieceKind::Ferz => "Ferz"@,
        PieceKind::Centaur => "Centaur"@,
        PieceKind::Camel => "Camel"@,
        PieceKind::TempestRook => "TempestRook"@,
        PieceKind::Cannon => "Cannon"@,
        PieceKind::Experiment => "Experiment"@,
        PieceKind::Custom(s) => "Custom(\""@ + s@ + "\")"@,
    }
}

/// The interpreter's name for a piece kind.
pub fn kind_debug_name(k: &PieceKind) -> (r: String)
    ensures
        r@ == kind_name_seq(*k),
{
    match k {
        PieceKind::Pawn => "Pawn".to_owned(),
        PieceKind::King => "King".to_owned(),
        PieceKind::Queen => "Queen".to_owned(),
        PieceKind::Rook => "Rook".to_owned(),
        PieceKind::Knight => "Knight".to_owned(),
        PieceKind::Bishop => "Bishop".to_owned(),
        PieceKind::Amazon => "Amazon".to_owned(),
        PieceKind::Grasshopper => "Grasshopper".to_owned(),
        PieceKind::Knightrider => "Knightrider".to_owned(),
        PieceKind::Archbishop => "Archbishop".to_owned(),
        PieceKind::Dabbaba => "Dabbaba".to_owned(),
        PieceKind::Alfil => "Alfil".to_owned(),
        PieceKind::Ferz => "Ferz".to_owned(),
        PieceKind::Centaur => "Centaur".to_owned(),
        PieceKind::Camel => "Camel".to_owned(),
        PieceKind::TempestRook => "TempestRook".to_owned(),
        PieceKind::Cannon => "Cannon".to_owned(),
        PieceKind::Experiment => "Experiment".to_owned(),
        PieceKind::Custom(s) => {
            let mut out = "Custom(\"".to_owned();
            out.append(s.as_str());
            out.append("\")");
            out
        },
    }
}

/// The snapshot occupancy the interpreter sees: each board entry that
/// resolves to a piece, in board order, named by its effective kind.
pub open spec fn spec_occ_entries(
    b: Seq<(Square, String)>,
    ps: Seq<Piece>,
    i: int,
) -> Seq<((int, int), (Seq<char>, bool))>
    decreases b.len() - i,
{
    if i < 0 || i >= b.len() {
        Seq::empty()
    } else {
        let rest = spec_occ_entries(b, ps, i + 1);
        match piece_idx(ps, b[i].1@) {
            Option::Some(pi) => seq![
                (
                    (b[i].0.x as int, b[i].0.y as int),
                    (kind_name_seq(spec_effective_kind(ps[pi])), ps[pi].owner == 0),
                ),
            ] + rest,
            Option::None => rest,
        }
    }
}

/// The board snapshot handed to the interpreter for the piece at index `pi`.
pub open spec fn spec_board_model(s: GameState, pi: int) -> crate::board::BoardModel {
    crate::board::BoardModel {
        width: 8,
        height: 8,
        piece_x: s.pieces@[pi].pos->0.x as int,
        piece_y: s.pieces@[pi].pos->0.y as int,
        piece_name: kind_name_seq(spec_effective_kind(s.pieces@[pi])),
        is_white: s.pieces@[pi].owner == 0,
        occ: spec_occ_entries(s.board@, s.pieces@, 0),
        state: state_model(s.global_state@),
        danger: Seq::empty(),
        in_check: false,
    }
}

/// Whether an opponent of `owner` stands on `sq`, read through the board
/// list.
pub open spec fn occupant_enemy(
    b: Seq<(Square, String)>,
    ps: Seq<Piece>,
    sq: Square,
    owner: u8,
) -> bool {
    match occupant_idx(b, ps, sq) {
        Option::Some(j) => ps[j].owner != owner,
        Option::None => false,
    }
}

/// The legal moves an activation list yields: in-board destinations keep
/// their move kind and tags; the capture flag reads whether an opponent
/// stands on the destination or, through the catch square, falls to a jump.
pub open spec fn spec_acts_to_moves(
    acts: Seq<crate::tokens::ActivationModel>,
    pos: Square,
    b: Seq<(Square, String)>,
    ps: Seq<Piece>,
    owner: u8,
    i: int,
) -> Seq<LegalMoveModel>
    decreases acts.len() - i,
{
    if i < 0 || i >= acts.len() {
        Seq::empty()
    } else {
        let a = acts[i];
        let rest = spec_acts_to_moves(acts, pos, b, ps, owner, i + 1);
        let tx = pos.x + a.dx;
        let ty = pos.y + a.dy;
        if 0 <= tx < 8 && 0 <= ty < 8 {
            let target = Square { x: tx as i32, y: ty as i32 };
            let catch = match a.catch_to {
                Option::Some(c) => Square {
                    x: (pos.x + c.0) as i32,
                    y: (pos.y + c.1) as i32,
                },
                Option::None => Square { x: 0, y: 0 },
            };
            let captures = occupant_enemy(b, ps, target, owner) || (a.catch_to is Some
                && occupant_enemy(b, ps, catch, owner));
            seq![
                LegalMoveModel {
                    from: pos,
                    to: target,
                    move_type: a.move_type,
                    is_capture: captures,
                    tags: a.tags,
                    catch_to: catch,
                },
            ] + rest
        } else {
            rest
        }
    }
}

/// The legal moves of a piece: nothing for a missing, pocketed or exhausted
/// piece; otherwise its script run on the snapshot, activations filtered to
/// the board.
pub open spec fn spec_legal_moves(s: GameState, pid: Seq<char>) -> Seq<LegalMoveModel> {
    match piece_idx(s.pieces@, pid) {
        Option::None => Seq::empty(),
        Option::Some(pi) => {
            let p = s.pieces@[pi];
            if !(p.stun == 0 && p.move_stack > 0) {
                Seq::empty()
            } else {
                match p.pos {
                    Option::None => Seq::empty(),
                    Option::Some(pos) => {
                        let toks = lex(spec_script(spec_effective_kind(p), p.owner == 0));
                        match interp_outcome(toks, spec_board_model(s, pi)) {
                            Option::None => Seq::empty(),
                            Option::Some(acts) => spec_acts_to_moves(
                                acts,
                                pos,
                                s.board@,
                                s.pieces@,
                                p.owner,
                                0,
                            ),
                        }
                    },
                }
            }
        },
    }
}

proof fn lemma_moves_push_concat(m: Seq<LegalMoveModel>, x: LegalMoveModel, r: Seq<LegalMoveModel>)
    ensures
        m.push(x) + r == m + (seq![x] + r),
{
    assert(m.push(x) + r =~= m + (seq![x] + r));
}

impl GameState {
    /// Builds the interpreter's snapshot for a piece: `None` when the piece
    /// is unknown or not on the board.
    pub fn to_chessembly_board(&self, piece_id: &PieceId) -> (r: Option<BoardState>)
        ensures
            match piece_idx(self.pieces@, piece_id@) {
                Option::Some(pi) => match self.pieces@[pi].pos {
                    Option::Some(_) => r matches Option::Some(b) && b@ == spec_board_model(
                        *self,
                        pi,
                    ),
                    Option::None => r is None,
                },
                Option::None => r is None,
            },
    {
        let pi = match self.find_piece(piece_id) {
            Option::Some(i) => i,
            Option::None => {
                return Option::None;
            },
        };
        let pos = match self.pieces[pi].pos {
            Option::Some(p) => p,
            Option::None => {
                return Option::None;
            },
        };
        let n = self.board.len();
        let mut occ: Vec<((i32, i32), (String, bool))> = Vec::new();
        let mut i: usize = 0;
        assert(occ_model(occ@) =~= Seq::<((int, int), (Seq<char>, bool))>::empty());
        assert(occ_model(occ@) + spec_occ_entries(self.board@, self.pieces@, 0)
            =~= spec_occ_entries(self.board@, self.pieces@, 0));
        while i < n
            invariant
                0 <= i <= n,
                n == self.board@.len(),
                occ_model(occ@) + spec_occ_entries(self.board@, self.pieces@, i as int)
                    == spec_occ_entries(self.board@, self.pieces@, 0),
            decreases n - i,
        {
            let entry = &self.board[i];
            match self.find_piece(&entry.1) {
                Option::Some(pj) => {
                    let p = &self.pieces[pj];
                    let name = kind_debug_name(p.effective_kind());
                    let e = ((entry.0.x, entry.0.y), (name, p.owner == 0));
                    proof {
                        let em = (
                            (entry.0.x as int, entry.0.y as int),
                            (kind_name_seq(spec_effective_kind(self.pieces@[pj as int])),
                            self.pieces@[pj as int].owner == 0),
                        );
                        assert(occ_model(occ@.push(e)) =~= occ_model(occ@).push(em));
                        assert(occ_model(occ@).push(em) + spec_occ_entries(
                            self.board@,
                            self.pieces@,
                            i + 1,
                        ) =~= occ_model(occ@) + (seq![em] + spec_occ_entries(
                            self.board@,
                            self.pieces@,
                            i + 1,
                        )));
                    }
                    occ.push(e);
                },
                Option::None => {},
            }
            i = i + 1;
        }
        let mut state_copy: Vec<(String, i32)> = Vec::new();
        let m = self.global_state.len();
        let mut j: usize = 0;
        while j < m
            invariant
                0 <= j <= m,
                m == self.global_state@.len(),
                state_copy@ =~= self.global_state@.subrange(0, j as int),
            decreases m - j,
        {
            let e = &self.global_state[j];
            state_copy.push((e.0.clone(), e.1));
            assert(state_copy@ =~= self.global_state@.subrange(0, j + 1));
            j = j + 1;
        }
        assert(state_copy@ =~= self.global_state@);
        let piece = &self.pieces[pi];
        let b = BoardState {
            board_width: 8,
            board_height: 8,
            piece_x: pos.x,
            piece_y: pos.y,
            piece_name: kind_debug_name(piece.effective_kind()),
            is_white: piece.owner == 0,
            pieces: occ,
            state: state_copy,
            danger_squares: Vec::new(),
            in_check: false,
        };
        proof {
            assert(danger_model(b.danger_squares@) =~= Seq::<(int, int)>::empty());
            assert(b@ =~= spec_board_model(*self, pi as int));
        }
        Option::Some(b)
    }

    /// Whether an opponent of `owner` stands on `sq`.
    fn enemy_at(&self, sq: Square, owner: PlayerId) -> (r: bool)
        ensures
            r == occupant_enemy(self.board@, self.pieces@, sq, owner),
    {
        match self.find_board(sq) {
            Option::Some(bi) => {
                let id = &self.board[bi].1;
                match self.find_piece(id) {
                    Option::Some(pj) => self.pieces[pj].owner != owner,
                    Option::None => false,
                }
            },
            Option::None => false,
        }
    }

    /// The legal moves of a piece, by running its move script.
    pub fn get_legal_moves(&self, piece_id: &PieceId) -> (r: Vec<LegalMove>)
        ensures
            moves_model(r@) == spec_legal_moves(*self, piece_id@),
    {
        let mut legal_moves: Vec<LegalMove> = Vec::new();
        assert(moves_model(legal_moves@) =~= Seq::<LegalMoveModel>::empty());
        let pi = match self.find_piece(piece_id) {
            Option::Some(i) => i,
            Option::None => {
                return legal_moves;
            },
        };
        if !self.pieces[pi].can_move() {
            return legal_moves;
        }
        let pos = match self.pieces[pi].pos {
            Option::Some(p) => p,
            Option::None => {
                return legal_moves;
            },
        };
        let board = match self.to_chessembly_board(piece_id) {
            Option::Some(b) => b,
            Option::None => {
                proof {
                    assert(false);
                }
                return legal_moves;
            },
        };
        let script = self.pieces[pi].effective_kind().chessembly_script(
            self.pieces[pi].is_white(),
        );
        let mut interpreter = Interpreter::new();
        interpreter.set_debug(self.debug_mode);
        interpreter.parse(script);
        let activations = match interpreter.execute(&board) {
            Result::Ok(a) => a,
            Result::Err(_) => {
                // An undefined label in the script: surfaced as no moves.
                return legal_moves;
            },
        };
        let owner = self.pieces[pi].owner;
        let ghost acts = crate::tokens::acts_model(activations@);
        let n = activations.len();
        let mut i: usize = 0;
        assert(moves_model(legal_moves@) + spec_acts_to_moves(
            acts,
            pos,
            self.board@,
            self.pieces@,
            owner,
            0,
        ) =~= spec_acts_to_moves(acts, pos, self.board@, self.pieces@, owner, 0));
        while i < n
            invariant
                0 <= i <= n,
                n == activations@.len(),
                acts == crate::tokens::acts_model(activations@),
                owner == self.pieces@[pi as int].owner,
                moves_model(legal_moves@) + spec_acts_to_moves(
                    acts,
                    pos,
                    self.board@,
                    self.pieces@,
                    owner,
                    i as int,
                ) == spec_acts_to_moves(acts, pos, self.board@, self.pieces@, owner, 0),
            decreases n - i,
        {
            let a = &activations[i];
            proof {
                assert(acts[i as int] == activations@[i as int]@);
            }
            let tx: i128 = pos.x as i128 + a.dx as i128;
            let ty: i128 = pos.y as i128 + a.dy as i128;
            if 0 <= tx && tx < 8 && 0 <= ty && ty < 8 {
                let target = Square { x: tx as i32, y: ty as i32 };
                let catch = match a.catch_to {
                    Option::Some(c) => {
                        #[verifier::truncate]
                        let cx = (pos.x as i128 + c.0 as i128) as i32;
                        #[verifier::truncate]
                        let cy = (pos.y as i128 + c.1 as i128) as i32;
                        Square { x: cx, y: cy }
                    },
                    Option::None => Square { x: 0, y: 0 },
                };
                let is_capture = self.enemy_at(target, owner) || (a.catch_to.is_some()
                    && self.enemy_at(catch, owner));
                let lm = LegalMove {
                    from: pos,
                    to: target,
                    move_type: a.move_type,
                    is_capture,
                    tags: clone_tags(&a.tags),
                    catch_to: catch,
                };
                proof {
                    let lmm = lm@;
                    assert(moves_model(legal_moves@.push(lm)) =~= moves_model(
                        legal_moves@,
                    ).push(lmm));
                    lemma_moves_push_concat(
                        moves_model(legal_moves@),
                        lmm,
                        spec_acts_to_moves(acts, pos, self.board@, self.pieces@, owner, i + 1),
                    );
                    assert(lmm == spec_acts_to_moves(
                        acts,
                        pos,
                        self.board@,
                        self.pieces@,
                        owner,
                        i as int,
                    )[0]);
                }
                legal_moves.push(lm);
            }
            i = i + 1;
        }
        legal_moves
    }

    /// Whether moving this piece from `from` to `to` is among its legal
    /// moves.
    pub fn is_valid_move(&self, piece_id: &PieceId, from: Square, to: Square) -> (r: bool)
        ensures
            r == exists|k: int|
                0 <= k < spec_legal_moves(*self, piece_id@).len() && (#[trigger] spec_legal_moves(
                    *self,
                    piece_id@,
                )[k]).from == from && spec_legal_moves(*self, piece_id@)[k].to == to,
    {
        let moves = self.get_legal_moves(piece_id);
        let n = moves.len();
        let mut i: usize = 0;
        while i < n
            invariant
                0 <= i <= n,
                n == moves@.len(),
                moves_model(moves@) == spec_legal_moves(*self, piece_id@),
                forall|k: int|
                    0 <= k < i ==> !((#[trigger] moves_model(moves@)[k]).from == from
                        && moves_model(moves@)[k].to == to),
            decreases n - i,
        {
            let m = &moves[i];
            if m.from.x == from.x && m.from.y == from.y && m.to.x == to.x && m.to.y == to.y {
                assert(moves_model(moves@)[i as int].from == from);
                return true;
            }
            i = i + 1;
        }
        false
    }
}

/// The first legal move with this origin and destination.
pub open spec fn first_move_match(
    ms: Seq<LegalMoveModel>,
    i: int,
    from: Square,
    to: Square,
) -> Option<int>
    decreases ms.len() - i,
{
    if i < 0 || i >= ms.len() {
        Option::None
    } else if ms[i].from == from && ms[i].to == to {
        Option::Some(i)
    } else {
        first_move_match(ms, i + 1, from, to)
    }
}

/// The first legal move with this destination.
pub open spec fn first_to_match(ms: Seq<LegalMoveModel>, i: int, to: Square) -> Option<int>
    decreases ms.len() - i,
{
    if i < 0 || i >= ms.len() {
        Option::None
    } else if ms[i].to == to {
        Option::Some(i)
    } else {
        first_to_match(ms, i + 1, to)
    }
}

/// Why a promotion is refused, or nothing when it is allowed.
pub open spec fn spec_promote_err(s: GameState, pid: Seq<char>, k: PieceKind) -> Option<
    Seq<char>,
> {
    match piece_idx(s.pieces@, pid) {
        Option::None => Option::Some("piece not found"@),
        Option::Some(i) => {
            let p = s.pieces@[i];
            if !(p.kind is Pawn) {
                Option::Some("this piece cannot promote"@)
            } else if !(k is Queen || k is Rook || k is Bishop || k is Knight) {
                Option::Some("invalid promotion target"@)
            } else {
                match p.pos {
                    Option::None => Option::Some("the piece is not on the board"@),
                    Option::Some(pos) => {
                        if !(if p.owner == 0 {
                            pos.y == 7
                        } else {
                            pos.y == 0
                        }) {
                            Option::Some("the piece is not on its promotion square"@)
                        } else {
                            Option::None
                        }
                    },
                }
            }
        },
    }
}

/// Why a crowning is refused, or nothing when it is allowed.
pub open spec fn spec_crown_err(s: GameState, player: u8, pid: Seq<char>) -> Option<Seq<char>> {
    if s.turn != player {
        Option::Some("not your turn"@)
    } else if s.action_taken || s.active_piece is Some {
        Option::Some("an action was already taken this turn"@)
    } else {
        match piece_idx(s.pieces@, pid) {
            Option::None => Option::Some("piece not found"@),
            Option::Some(i) => {
                if s.pieces@[i].owner != player {
                    Option::Some("not your piece"@)
                } else if s.pieces@[i].pos is None {
                    Option::Some("only a piece on the board can be crowned"@)
                } else {
                    Option::None
                }
            },
        }
    }
}

/// Why a disguise is refused, or nothing when it is allowed.
pub open spec fn spec_disguise_err(s: GameState, player: u8, pid: Seq<char>) -> Option<
    Seq<char>,
> {
    if s.turn != player {
        Option::Some("not your turn"@)
    } else if s.action_taken || s.active_piece is Some {
        Option::Some("an action was already taken this turn"@)
    } else {
        match piece_idx(s.pieces@, pid) {
            Option::None => Option::Some("piece not found"@),
            Option::Some(i) => {
                if s.pieces@[i].owner != player {
                    Option::Some("not your piece"@)
                } else if !s.pieces@[i].is_royal {
                    Option::Some("only a royal piece can wear a disguise"@)
                } else {
                    Option::None
                }
            },
        }
    }
}

/// Why a stun action is refused, or nothing when it is allowed.
pub open spec fn spec_apply_stun_err(
    s: GameState,
    player: u8,
    pid: Seq<char>,
    amount: i32,
) -> Option<Seq<char>> {
    if s.turn != player {
        Option::Some("not your turn"@)
    } else if s.action_taken || s.active_piece is Some {
        Option::Some("an action was already taken this turn"@)
    } else {
        match piece_idx(s.pieces@, pid) {
            Option::None => Option::Some("piece not found"@),
            Option::Some(i) => {
                if s.pieces@[i].owner == player {
                    if amount < 1 || amount > 3 {
                        Option::Some("stun for your own piece must be between 1 and 3"@)
                    } else {
                        Option::None
                    }
                } else {
                    if amount != 1 {
                        Option::Some("stun for an enemy piece must be exactly 1"@)
                    } else {
                        Option::None
                    }
                }
            },
        }
    }
}

/// Why a bare stun is refused, or nothing when it is allowed: allegiance is
/// judged against the current player, without the turn checks.
pub open spec fn spec_stun_err(s: GameState, pid: Seq<char>, amount: i32) -> Option<Seq<char>> {
    match piece_idx(s.pieces@, pid) {
        Option::None => Option::Some("piece not found"@),
        Option::Some(i) => {
            if s.pieces@[i].owner == s.turn {
                if amount < 1 || amount > 3 {
                    Option::Some("stun for your own piece must be between 1 and 3"@)
                } else {
                    Option::None
                }
            } else {
                if amount != 1 {
                    Option::Some("stun for an enemy piece must be exactly 1"@)
                } else {
                    Option::None
                }
            }
        },
    }
}

/// The piece summaries of every piece on the board, in roster order.
pub open spec fn spec_piece_infos(ps: Seq<Piece>, i: int) -> Seq<PieceInfo>
    decreases ps.len() - i,
{
    if i < 0 || i >= ps.len() {
        Seq::empty()
    } else {
        let rest = spec_piece_infos(ps, i + 1);
        match ps[i].pos {
            Option::Some(sq) => seq![
                PieceInfo {
                    id: ps[i].id,
                    kind: ps[i].kind,
                    owner: ps[i].owner,
                    pos: sq,
                    stun_stack: ps[i].stun,
                    move_stack: ps[i].move_stack,
                    is_royal: ps[i].is_royal,
                },
            ] + rest,
            Option::None => rest,
        }
    }
}

proof fn lemma_infos_push_concat(m: Seq<PieceInfo>, x: PieceInfo, r: Seq<PieceInfo>)
    ensures
        m.push(x) + r == m + (seq![x] + r),
{
    assert(m.push(x) + r =~= m + (seq![x] + r));
}

impl GameState {
    /// The move type of the first legal move with this origin and
    /// destination.
    pub fn get_move_type(&self, piece_id: &PieceId, from: Square, to: Square) -> (r: Option<
        MoveType,
    >)
        ensures
            match first_move_match(spec_legal_moves(*self, piece_id@), 0, from, to) {
                Option::Some(k) => r == Option::Some(
                    spec_legal_moves(*self, piece_id@)[k].move_type,
                ),
                Option::None => r is None,
            },
    {
        let moves = self.get_legal_moves(piece_id);
        let ghost ms = moves_model(moves@);
        let n = moves.len();
        let mut i: usize = 0;
        while i < n
            invariant
                0 <= i <= n,
                n == moves@.len(),
                ms == moves_model(moves@),
                ms == spec_legal_moves(*self, piece_id@),
                first_move_match(ms, 0, from, to) == first_move_match(ms, i as int, from, to),
            decreases n - i,
        {
            let m = &moves[i];
            if m.from.x == from.x && m.from.y == from.y && m.to.x == to.x && m.to.y == to.y {
                assert(ms[i as int].from == from && ms[i as int].to == to);
                return Option::Some(m.move_type);
            }
            i = i + 1;
        }
        Option::None
    }

    /// The legal moves of whatever piece stands on `square`.
    pub fn get_legal_moves_at(&self, square: Square) -> (r: Vec<LegalMove>)
        ensures
            moves_model(r@) == (match board_idx(self.board@, square) {
                Option::Some(bi) => spec_legal_moves(*self, self.board@[bi].1@),
                Option::None => Seq::<LegalMoveModel>::empty(),
            }),
    {
        match self.find_board(square) {
            Option::Some(bi) => {
                let id = self.board[bi].1.clone();
                self.get_legal_moves(&id)
            },
            Option::None => {
                let empty: Vec<LegalMove> = Vec::new();
                assert(moves_model(empty@) =~= Seq::<LegalMoveModel>::empty());
                empty
            },
        }
    }

    /// Whether the piece on `from` can legally reach `to`.
    pub fn is_valid_move_at(&self, from: Square, to: Square) -> (r: bool)
        ensures
            r == (match board_idx(self.board@, from) {
                Option::Some(bi) => exists|k: int|
                    0 <= k < spec_legal_moves(*self, self.board@[bi].1@).len() && (
                    #[trigger] spec_legal_moves(*self, self.board@[bi].1@)[k]).from == from
                        && spec_legal_moves(*self, self.board@[bi].1@)[k].to == to,
                Option::None => false,
            }),
    {
        match self.find_board(from) {
            Option::Some(bi) => {
                let id = self.board[bi].1.clone();
                self.is_valid_move(&id, from, to)
            },
            Option::None => false,
        }
    }

    /// Promotes a pawn standing on its promotion rank.
    pub fn promote(&mut self, piece_id: &PieceId, to_kind: PieceKind) -> (r: Result<(), String>)
        ensures
            match spec_promote_err(*old(self), piece_id@, to_kind) {
                Option::Some(m) => r is Err && r->Err_0@ == m && *final(self) == *old(self),
                Option::None => r is Ok && (match piece_idx(old(self).pieces@, piece_id@) {
                    Option::Some(i) => final(self).pieces@ == old(self).pieces@.update(
                        i,
                        Piece { kind: to_kind, ..old(self).pieces@[i] },
                    ),
                    Option::None => false,
                }),
            },
            final(self).board == old(self).board,
            final(self).pockets == old(self).pockets,
            final(self).turn == old(self).turn,
            final(self).global_state == old(self).global_state,
            final(self).active_piece == old(self).active_piece,
            final(self).action_taken == old(self).action_taken,
            final(self).debug_mode == old(self).debug_mode,
            final(self).next_piece_id == old(self).next_piece_id,
    {
        let pi = match self.find_piece(piece_id) {
            Option::Some(i) => i,
            Option::None => {
                return Result::Err(String::from_str("piece not found"));
            },
        };
        if !self.pieces[pi].kind.can_promote() {
            return Result::Err(String::from_str("this piece cannot promote"));
        }
        let targets = self.pieces[pi].kind.promotion_targets();
        let mut found = false;
        let mut j: usize = 0;
        let tn = targets.len();
        while j < tn
            invariant
                0 <= j <= tn,
                tn == targets@.len(),
                found == exists|k: int|
                    0 <= k < j && kind_eq(#[trigger] targets@[k], to_kind),
            decreases tn - j,
        {
            if same_kind(&targets[j], &to_kind) {
                found = true;
            }
            j = j + 1;
        }
        proof {
            if self.pieces@[pi as int].kind is Pawn {
                assert(targets@ == seq![
                    PieceKind::Queen,
                    PieceKind::Rook,
                    PieceKind::Bishop,
                    PieceKind::Knight,
                ]);
                assert(found == (to_kind is Queen || to_kind is Rook || to_kind is Bishop
                    || to_kind is Knight)) by {
                    if found {
                        let k = choose|k: int|
                            0 <= k < 4 && kind_eq(#[trigger] targets@[k], to_kind);
                    } else {
                        assert(!kind_eq(targets@[0], to_kind));
                        assert(!kind_eq(targets@[1], to_kind));
                        assert(!kind_eq(targets@[2], to_kind));
                        assert(!kind_eq(targets@[3], to_kind));
                    }
                }
            }
        }
        if !found {
            return Result::Err(String::from_str("invalid promotion target"));
        }
        let pos = match self.pieces[pi].pos {
            Option::Some(p) => p,
            Option::None => {
                return Result::Err(String::from_str("the piece is not on the board"));
            },
        };
        let is_white = self.pieces[pi].owner == 0;
        if !self.pieces[pi].kind.is_promotion_square(pos, is_white) {
            return Result::Err(String::from_str("the piece is not on its promotion square"));
        }
        let mut p = clone_piece(&self.pieces[pi]);
        p.kind = to_kind;
        self.pieces.set(pi, p);
        Result::Ok(())
    }

    /// Makes a piece on the board royal.
    pub fn crown_piece(&mut self, player: PlayerId, piece_id: &PieceId) -> (r: Result<
        (),
        String,
    >)
        ensures
            match spec_crown_err(*old(self), player, piece_id@) {
                Option::Some(m) => r is Err && r->Err_0@ == m && *final(self) == *old(self),
                Option::None => r is Ok && final(self).action_taken && (match piece_idx(
                    old(self).pieces@,
                    piece_id@,
                ) {
                    Option::Some(i) => final(self).pieces@ == old(self).pieces@.update(
                        i,
                        Piece { is_royal: true, ..old(self).pieces@[i] },
                    ),
                    Option::None => false,
                }),
            },
            final(self).board == old(self).board,
            final(self).pockets == old(self).pockets,
            final(self).turn == old(self).turn,
            final(self).global_state == old(self).global_state,
            final(self).active_piece == old(self).active_piece,
            final(self).debug_mode == old(self).debug_mode,
            final(self).next_piece_id == old(self).next_piece_id,
    {
        if self.turn != player {
            return Result::Err(String::from_str("not your turn"));
        }
        if self.action_taken || self.active_piece.is_some() {
            return Result::Err(String::from_str("an action was already taken this turn"));
        }
        let pi = match self.find_piece(piece_id) {
            Option::Some(i) => i,
            Option::None => {
                return Result::Err(String::from_str("piece not found"));
            },
        };
        if self.pieces[pi].owner != player {
            return Result::Err(String::from_str("not your piece"));
        }
        if self.pieces[pi].pos.is_none() {
            return Result::Err(String::from_str("only a piece on the board can be crowned"));
        }
        let mut p = clone_piece(&self.pieces[pi]);
        p.is_royal = true;
        self.pieces.set(pi, p);
        self.action_taken = true;
        Result::Ok(())
    }

    /// Disguises a royal piece as another kind; its move stack follows the
    /// disguise.
    pub fn disguise_piece(&mut self, player: PlayerId, piece_id: &PieceId, as_kind: PieceKind) -> (r:
        Result<(), String>)
        ensures
            match spec_disguise_err(*old(self), player, piece_id@) {
                Option::Some(m) => r is Err && r->Err_0@ == m && *final(self) == *old(self),
                Option::None => r is Ok && final(self).action_taken && (match piece_idx(
                    old(self).pieces@,
                    piece_id@,
                ) {
                    Option::Some(i) => final(self).pieces@ == old(self).pieces@.update(
                        i,
                        Piece {
                            move_stack: spec_initial_move_stack(spec_score(as_kind)),
                            disguise: Option::Some(as_kind),
                            ..old(self).pieces@[i]
                        },
                    ),
                    Option::None => false,
                }),
            },
            final(self).board == old(self).board,
            final(self).pockets == old(self).pockets,
            final(self).turn == old(self).turn,
            final(self).global_state == old(self).global_state,
            final(self).active_piece == old(self).active_piece,
            final(self).debug_mode == old(self).debug_mode,
            final(self).next_piece_id == old(self).next_piece_id,
    {
        if self.turn != player {
            return Result::Err(String::from_str("not your turn"));
        }
        if self.action_taken || self.active_piece.is_some() {
            return Result::Err(String::from_str("an action was already taken this turn"));
        }
        let pi = match self.find_piece(piece_id) {
            Option::Some(i) => i,
            Option::None => {
                return Result::Err(String::from_str("piece not found"));
            },
        };
        if self.pieces[pi].owner != player {
            return Result::Err(String::from_str("not your piece"));
        }
        if !self.pieces[pi].is_royal {
            return Result::Err(String::from_str("only a royal piece can wear a disguise"));
        }
        let new_score = as_kind.score();
        let mut p = clone_piece(&self.pieces[pi]);
        p.move_stack = GameState::initial_move_stack(new_score);
        p.disguise = Option::Some(as_kind);
        self.pieces.set(pi, p);
        self.action_taken = true;
        Result::Ok(())
    }

    /// Stuns a piece as this turn's action: up to three stacks for an own
    /// piece, exactly one for an enemy.
    pub fn apply_stun(&mut self, player: PlayerId, target_id: &PieceId, amount: i32) -> (r: Result<
        (),
        String,
    >)
        requires
            match piece_idx(old(self).pieces@, target_id@) {
                Option::Some(i) => old(self).pieces@[i].stun <= i32::MAX - 3,
                Option::None => true,
            },
        ensures
            match spec_apply_stun_err(*old(self), player, target_id@, amount) {
                Option::Some(m) => r is Err && r->Err_0@ == m && *final(self) == *old(self),
                Option::None => r is Ok && final(self).action_taken && (match piece_idx(
                    old(self).pieces@,
                    target_id@,
                ) {
                    Option::Some(i) => final(self).pieces@ == old(self).pieces@.update(
                        i,
                        Piece {
                            stun: (old(self).pieces@[i].stun + amount) as i32,
                            ..old(self).pieces@[i]
                        },
                    ),
                    Option::None => false,
                }),
            },
            final(self).board == old(self).board,
            final(self).pockets == old(self).pockets,
            final(self).turn == old(self).turn,
            final(self).global_state == old(self).global_state,
            final(self).active_piece == old(self).active_piece,
            final(self).debug_mode == old(self).debug_mode,
            final(self).next_piece_id == old(self).next_piece_id,
    {
        if self.turn != player {
            return Result::Err(String::from_str("not your turn"));
        }
        if self.action_taken || self.active_piece.is_some() {
            return Result::Err(String::from_str("an action was already taken this turn"));
        }
        let pi = match self.find_piece(target_id) {
            Option::Some(i) => i,
            Option::None => {
                return Result::Err(String::from_str("piece not found"));
            },
        };
        if self.pieces[pi].owner == player {
            if amount < 1 || amount > 3 {
                return Result::Err(
                    String::from_str("stun for your own piece must be between 1 and 3"),
                );
            }
        } else {
            if amount != 1 {
                return Result::Err(String::from_str("stun for an enemy piece must be exactly 1"));
            }
        }
        let mut p = clone_piece(&self.pieces[pi]);
        p.stun = p.stun + amount;
        self.pieces.set(pi, p);
        self.action_taken = true;
        Result::Ok(())
    }

    /// Stuns a piece without the turn checks; allegiance is judged against
    /// the current player.
    pub fn stun_piece(&mut self, piece_id: &PieceId, amount: i32) -> (r: Result<(), String>)
        requires
            match piece_idx(old(self).pieces@, piece_id@) {
                Option::Some(i) => old(self).pieces@[i].stun <= i32::MAX - 3,
                Option::None => true,
            },
        ensures
            match spec_stun_err(*old(self), piece_id@, amount) {
                Option::Some(m) => r is Err && r->Err_0@ == m && *final(self) == *old(self),
                Option::None => r is Ok && final(self).action_taken && (match piece_idx(
                    old(self).pieces@,
                    piece_id@,
                ) {
                    Option::Some(i) => final(self).pieces@ == old(self).pieces@.update(
                        i,
                        Piece {
                            stun: (old(self).pieces@[i].stun + amount) as i32,
                            ..old(self).pieces@[i]
                        },
                    ),
                    Option::None => false,
                }),
            },
            final(self).board == old(self).board,
            final(self).pockets == old(self).pockets,
            final(self).turn == old(self).turn,
            final(self).global_state == old(self).global_state,
            final(self).active_piece == old(self).active_piece,
            final(self).debug_mode == old(self).debug_mode,
            final(self).next_piece_id == old(self).next_piece_id,
    {
        let pi = match self.find_piece(piece_id) {
            Option::Some(i) => i,
            Option::None => {
                return Result::Err(String::from_str("piece not found"));
            },
        };
        let is_ally = self.pieces[pi].owner == self.turn;
        if is_ally {
            if amount < 1 || amount > 3 {
                return Result::Err(
                    String::from_str("stun for your own piece must be between 1 and 3"),
                );
            }
        } else {
            if amount != 1 {
                return Result::Err(String::from_str("stun for an enemy piece must be exactly 1"));
            }
        }
        let mut p = clone_piece(&self.pieces[pi]);
        p.stun = p.stun + amount;
        self.pieces.set(pi, p);
        self.action_taken = true;
        Result::Ok(())
    }

    /// A player's pocket, as a list of kinds.
    pub fn get_pocket(&self, player: PlayerId) -> (r: Vec<PieceKind>)
        ensures
            match pocket_idx(self.pockets@, player) {
                Option::Some(i) => r@.len() == self.pockets@[i].1@.len() && forall|k: int|
                    0 <= k < r@.len() ==> r@[k] == self.pockets@[i].1@[k].kind,
                Option::None => r@.len() == 0,
            },
    {
        match self.find_pocket(player) {
            Option::Some(i) => {
                let n = self.pockets[i].1.len();
                let mut out: Vec<PieceKind> = Vec::new();
                let mut j: usize = 0;
                while j < n
                    invariant
                        0 <= j <= n,
                        i < self.pockets@.len(),
                        n == self.pockets@[i as int].1@.len(),
                        out@.len() == j,
                        forall|k: int|
                            0 <= k < j ==> out@[k] == self.pockets@[i as int].1@[k].kind,
                    decreases n - j,
                {
                    out.push(clone_kind(&self.pockets[i].1[j].kind));
                    j = j + 1;
                }
                out
            },
            Option::None => Vec::new(),
        }
    }

    /// Summaries of every piece on the board.
    pub fn get_all_pieces(&self) -> (r: Vec<PieceInfo>)
        ensures
            r@ == spec_piece_infos(self.pieces@, 0),
    {
        let n = self.pieces.len();
        let mut out: Vec<PieceInfo> = Vec::new();
        let mut i: usize = 0;
        assert(out@ + spec_piece_infos(self.pieces@, 0) =~= spec_piece_infos(self.pieces@, 0));
        while i < n
            invariant
                0 <= i <= n,
                n == self.pieces@.len(),
                out@ + spec_piece_infos(self.pieces@, i as int) == spec_piece_infos(
                    self.pieces@,
                    0,
                ),
            decreases n - i,
        {
            let p = &self.pieces[i];
            match p.pos {
                Option::Some(sq) => {
                    let info = PieceInfo {
                        id: p.id.clone(),
                        kind: clone_kind(&p.kind),
                        owner: p.owner,
                        pos: sq,
                        stun_stack: p.stun,
                        move_stack: p.move_stack,
                        is_royal: p.is_royal,
                    };
                    proof {
                        assert(info == spec_piece_infos(self.pieces@, i as int)[0]);
                        lemma_infos_push_concat(
                            out@,
                            info,
                            spec_piece_infos(self.pieces@, i + 1),
                        );
                    }
                    out.push(info);
                },
                Option::None => {},
            }
            i = i + 1;
        }
        out
    }

    /// Fills both pockets with the standard set, worth exactly the limit.
    pub fn setup_initial_position(&mut self)
        ensures
            exists|v0: Vec<PieceSpec>, v1: Vec<PieceSpec>|
                v0@ == standard_pocket() && v1@ == standard_pocket() && final(self).pockets@
                    == pockets_set_s(pockets_set_s(old(self).pockets@, 0, v0), 1, v1),
            final(self).board == old(self).board,
            final(self).pieces == old(self).pieces,
            final(self).turn == old(self).turn,
            final(self).global_state == old(self).global_state,
            final(self).active_piece == old(self).active_piece,
            final(self).action_taken == old(self).action_taken,
            final(self).debug_mode == old(self).debug_mode,
            final(self).next_piece_id == old(self).next_piece_id,
    {
        let white_pocket = GameState::standard_pocket_vec();
        let ghost v0 = white_pocket;
        proof {
            reveal_with_fuel(specs_score, 17);
            assert(specs_score(standard_pocket()) == 39);
        }
        let r0 = self.setup_pocket(0, white_pocket);
        let black_pocket = GameState::standard_pocket_vec();
        let ghost v1 = black_pocket;
        let r1 = self.setup_pocket(1, black_pocket);
        proof {
            assert(v0@ == standard_pocket() && v1@ == standard_pocket() && self.pockets@
                == pockets_set_s(pockets_set_s(old(self).pockets@, 0, v0), 1, v1));
        }
    }

    /// The standard pocket: one queen, two rooks, two bishops, two knights
    /// and eight pawns.
    fn standard_pocket_vec() -> (r: Vec<PieceSpec>)
        ensures
            r@ == standard_pocket(),
    {
        let mut v: Vec<PieceSpec> = Vec::new();
        v.push(PieceSpec::new(PieceKind::Queen));
        v.push(PieceSpec::new(PieceKind::Rook));
        v.push(PieceSpec::new(PieceKind::Rook));
        v.push(PieceSpec::new(PieceKind::Bishop));
        v.push(PieceSpec::new(PieceKind::Bishop));
        v.push(PieceSpec::new(PieceKind::Knight));
        v.push(PieceSpec::new(PieceKind::Knight));
        v.push(PieceSpec::new(PieceKind::Pawn));
        v.push(PieceSpec::new(PieceKind::Pawn));
        v.push(PieceSpec::new(PieceKind::Pawn));
        v.push(PieceSpec::new(PieceKind::Pawn));
        v.push(PieceSpec::new(PieceKind::Pawn));
        v.push(PieceSpec::new(PieceKind::Pawn));
        v.push(PieceSpec::new(PieceKind::Pawn));
        v.push(PieceSpec::new(PieceKind::Pawn));
        proof {
            assert(v@ =~= standard_pocket());
        }
        v
    }

    /// Fills both pockets with one of every fairy piece, without the score
    /// check.
    pub fn setup_experimental_pocket(&mut self)
        ensures
            exists|v0: Vec<PieceSpec>, v1: Vec<PieceSpec>|
                v0@ == experimental_pocket() && v1@ == experimental_pocket() && final(self).pockets@
                    == pockets_set_s(pockets_set_s(old(self).pockets@, 0, v0), 1, v1),
            final(self).board == old(self).board,
            final(self).pieces == old(self).pieces,
            final(self).turn == old(self).turn,
            final(self).global_state == old(self).global_state,
            final(self).active_piece == old(self).active_piece,
            final(self).action_taken == old(self).action_taken,
            final(self).debug_mode == old(self).debug_mode,
            final(self).next_piece_id == old(self).next_piece_id,
    {
        let white_pocket = GameState::experimental_pocket_vec();
        let ghost v0 = white_pocket;
        self.setup_pocket_unchecked(0, white_pocket);
        let black_pocket = GameState::experimental_pocket_vec();
        let ghost v1 = black_pocket;
        self.setup_pocket_unchecked(1, black_pocket);
        proof {
            assert(v0@ == experimental_pocket() && v1@ == experimental_pocket() && self.pockets@
                == pockets_set_s(pockets_set_s(old(self).pockets@, 0, v0), 1, v1));
        }
    }

    /// The experimental pocket: one of every fairy piece.
    fn experimental_pocket_vec() -> (r: Vec<PieceSpec>)
        ensures
            r@ == experimental_pocket(),
    {
        let mut v: Vec<PieceSpec> = Vec::new();
        v.push(PieceSpec::new(PieceKind::Amazon));
        v.push(PieceSpec::new(PieceKind::Grasshopper));
        v.push(PieceSpec::new(PieceKind::Knightrider));
        v.push(PieceSpec::new(PieceKind::Archbishop));
        v.push(PieceSpec::new(PieceKind::Dabbaba));
        v.push(PieceSpec::new(PieceKind::Alfil));
        v.push(PieceSpec::new(PieceKind::Ferz));
        v.push(PieceSpec::new(PieceKind::Centaur));
        v.push(PieceSpec::new(PieceKind::Camel));
        v.push(PieceSpec::new(PieceKind::TempestRook));
        v.push(PieceSpec::new(PieceKind::Cannon));
        v.push(PieceSpec::new(PieceKind::Experiment));
        proof {
            assert(v@ =~= experimental_pocket());
        }
        v
    }

    /// Fills a pocket from a piece, and places a pocket piece on the board.
    pub fn place_piece(&mut self, player: PlayerId, kind: PieceKind, target: Square) -> (r: Result<
        PieceId,
        String,
    >)
        requires
            old(self).next_piece_id < u32::MAX,
            kind is Pawn ==> -268435448 <= target.y <= 268435455,
        ensures
            match spec_can_place_err(*old(self), player, kind, target) {
                Option::Some(m) => r is Err && r->Err_0@ == m && *final(self) == *old(self),
                Option::None => {
                    &&& r matches Result::Ok(id) && id@ == id_seq(old(self).next_piece_id as nat)
                    &&& match pocket_idx(old(self).pockets@, player) {
                        Option::Some(pi) => {
                            &&& final(self).pockets@.len() == old(self).pockets@.len()
                            &&& forall|k: int|
                                0 <= k < old(self).pockets@.len() && k != pi ==> final(self).pockets@[k] == old(self).pockets@[k]
                            &&& final(self).pockets@[pi].0 == player
                            &&& match first_kind_idx(old(self).pockets@[pi].1@, kind) {
                                Option::Some(j) => final(self).pockets@[pi].1@ == old(self).pockets@[pi].1@.remove(j),
                                Option::None => final(self).pockets@[pi].1@ == old(self).pockets@[pi].1@,
                            }
                        },
                        Option::None => false,
                    }
                    &&& (r matches Result::Ok(id) ==> final(self).pieces@ == pieces_insert_s(
                        old(self).pieces@,
                        Piece {
                            id: id,
                            kind: kind,
                            owner: player,
                            pos: Option::Some(target),
                            stun: spec_placement_stun(
                                Piece {
                                    id: id,
                                    kind: kind,
                                    owner: player,
                                    pos: Option::None,
                                    stun: 0,
                                    move_stack: 0,
                                    is_royal: false,
                                    disguise: Option::None,
                                },
                                target,
                            ) as i32,
                            move_stack: spec_initial_move_stack(spec_score(kind)),
                            is_royal: false,
                            disguise: Option::None,
                        },
                    ) && final(self).board@ == board_insert_s(old(self).board@, target, id))
                    &&& final(self).action_taken
                    &&& final(self).next_piece_id == old(self).next_piece_id + 1
                    &&& final(self).turn == old(self).turn
                    &&& final(self).global_state == old(self).global_state
                    &&& final(self).active_piece == old(self).active_piece
                    &&& final(self).debug_mode == old(self).debug_mode
                },
            },
    {
        match self.can_place(player, &kind, target) {
            Result::Err(m) => {
                return Result::Err(m);
            },
            Result::Ok(_) => {},
        }
        match self.find_pocket(player) {
            Option::Some(pi) => {
                let m = self.pockets[pi].1.len();
                let mut j: usize = 0;
                let mut removed = false;
                while j < m && !removed
                    invariant
                        0 <= j <= m,
                        pi < self.pockets@.len(),
                        old(self).pockets@[pi as int].0 == player,
                        !removed ==> self == old(self) && m == self.pockets@[pi as int].1@.len()
                            && first_kind_idx(old(self).pockets@[pi as int].1@, kind)
                            == first_kind_idx_from(
                            old(self).pockets@[pi as int].1@,
                            j as int,
                            kind,
                        ),
                        removed ==> {
                            &&& self.pockets@.len() == old(self).pockets@.len()
                            &&& forall|k: int|
                                0 <= k < old(self).pockets@.len() && k != pi ==> self.pockets@[k]
                                    == old(self).pockets@[k]
                            &&& self.pockets@[pi as int].0 == old(self).pockets@[pi as int].0
                            &&& match first_kind_idx(old(self).pockets@[pi as int].1@, kind) {
                                Option::Some(fj) => self.pockets@[pi as int].1@ == old(self).pockets@[pi as int].1@.remove(fj),
                                Option::None => false,
                            }
                            &&& self.board == old(self).board
                            &&& self.pieces == old(self).pieces
                            &&& self.turn == old(self).turn
                            &&& self.global_state == old(self).global_state
                            &&& self.active_piece == old(self).active_piece
                            &&& self.action_taken == old(self).action_taken
                            &&& self.debug_mode == old(self).debug_mode
                            &&& self.next_piece_id == old(self).next_piece_id
                        },
                    decreases m - j, if removed { 0int } else { 1int },
                {
                    if same_kind(&self.pockets[pi].1[j].kind, &kind) {
                        let mut pocket = clone_specs(&self.pockets[pi].1);
                        pocket.remove(j);
                        let owner = self.pockets[pi].0;
                        self.pockets.set(pi, (owner, pocket));
                        removed = true;
                    } else {
                        j = j + 1;
                    }
                }
            },
            Option::None => {
                proof {
                    assert(false);
                }
            },
        }
        let mut piece = self.create_piece(kind, player);
        let piece_id = piece.id.clone();
        let stun = self.calculate_placement_stun(&piece, target);
        let score = piece.score();
        piece.stun = stun;
        piece.move_stack = GameState::initial_move_stack(score);
        piece.pos = Option::Some(target);
        self.pieces_insert(piece);
        self.board_insert(target, piece_id.clone());
        self.action_taken = true;
        Result::Ok(piece_id)
    }

    /// Applies a player action, treating a refused one as a no-op.  A
    /// `Place` only re-checks placement; a `Move` commits the first legal
    /// move that reaches the requested destination.
    pub fn apply_action(&mut self, action: Action)
        requires
            stacks_bounded(old(self).pieces@),
            forall|k: int|
                0 <= k < old(self).pieces@.len() ==> (#[trigger] old(self).pieces@[k]).stun
                    <= i32::MAX - 3,
        ensures
            final(self).pockets == old(self).pockets,
            final(self).turn == old(self).turn,
            final(self).debug_mode == old(self).debug_mode,
            final(self).next_piece_id == old(self).next_piece_id,
            match action {
                Action::Place { .. } => *final(self) == *old(self),
                Action::Move { piece_id: _, from, to } => {
                    let ms = match board_idx(old(self).board@, from) {
                        Option::Some(bi) => spec_legal_moves(*old(self), old(self).board@[bi].1@),
                        Option::None => Seq::<LegalMoveModel>::empty(),
                    };
                    match first_to_match(ms, 0, to) {
                        Option::Some(k) => exists|mv: LegalMove|
                            #[trigger] mv@ == ms[k] && (match spec_commit_move(*old(self), mv) {
                                CommitOutcome::Fail(_) => mv.move_type is Jump || *final(self)
                                    == *old(self),
                                CommitOutcome::Go(b, ps, st, pid, _) => final(self).board@ == b
                                    && final(self).pieces@ == ps && final(self).global_state@
                                    == st && final(self).active_piece == Option::Some(pid),
                            }),
                        Option::None => *final(self) == *old(self),
                    }
                },
                Action::Crown { piece_id } => match piece_idx(old(self).pieces@, piece_id@) {
                    Option::Some(i) => final(self).pieces@ == old(self).pieces@.update(
                        i,
                        Piece { is_royal: true, ..old(self).pieces@[i] },
                    ) && final(self).board == old(self).board && final(self).global_state == old(self).global_state,
                    Option::None => *final(self) == *old(self),
                },
                Action::Disguise { piece_id, as_kind } => match piece_idx(
                    old(self).pieces@,
                    piece_id@,
                ) {
                    Option::Some(i) => final(self).pieces@ == old(self).pieces@.update(
                        i,
                        Piece { disguise: Option::Some(as_kind), ..old(self).pieces@[i] },
                    ) && final(self).board == old(self).board && final(self).global_state == old(self).global_state,
                    Option::None => *final(self) == *old(self),
                },
                Action::Stun { piece_id, amount } => match spec_stun_err(
                    *old(self),
                    piece_id@,
                    amount,
                ) {
                    Option::Some(_) => *final(self) == *old(self),
                    Option::None => final(self).action_taken && final(self).board == old(
                        self,
                    ).board && final(self).global_state == old(self).global_state && (
                    match piece_idx(old(self).pieces@, piece_id@) {
                        Option::Some(i) => final(self).pieces@ == old(self).pieces@.update(
                            i,
                            Piece {
                                stun: (old(self).pieces@[i].stun + amount) as i32,
                                ..old(self).pieces@[i]
                            },
                        ),
                        Option::None => false,
                    }),
                },
            },
    {
        match action {
            Action::Place { piece_id, target } => {
                match self.find_piece(&piece_id) {
                    Option::Some(pi) => {
                        let kind = clone_kind(&self.pieces[pi].kind);
                        let _ = self.can_place(self.turn, &kind, target);
                    },
                    Option::None => {},
                }
            },
            Action::Move { piece_id: _, from, to } => {
                let legal_moves = self.get_legal_moves_at(from);
                let ghost ms = moves_model(legal_moves@);
                let n = legal_moves.len();
                let mut i: usize = 0;
                let mut done = false;
                while i < n && !done
                    invariant
                        0 <= i <= n,
                        n == legal_moves@.len(),
                        ms == moves_model(legal_moves@),
                        ms == (match board_idx(old(self).board@, from) {
                            Option::Some(bi) => spec_legal_moves(
                                *old(self),
                                old(self).board@[bi].1@,
                            ),
                            Option::None => Seq::<LegalMoveModel>::empty(),
                        }),
                        stacks_bounded(old(self).pieces@),
                        !done ==> *self == *old(self) && first_to_match(ms, 0, to)
                            == first_to_match(ms, i as int, to),
                        done ==> (first_to_match(ms, 0, to) matches Option::Some(k)
                            && exists|mv: LegalMove|
                            #[trigger] mv@ == ms[k] && (match spec_commit_move(*old(self), mv) {
                                CommitOutcome::Fail(_) => mv.move_type is Jump || *self == *old(
                                    self,
                                ),
                                CommitOutcome::Go(b, ps, st, pid, _) => self.board@ == b
                                    && self.pieces@ == ps && self.global_state@ == st
                                    && self.active_piece == Option::Some(pid),
                            })),
                        self.pockets == old(self).pockets,
                        self.turn == old(self).turn,
                        self.action_taken == old(self).action_taken,
                        self.debug_mode == old(self).debug_mode,
                        self.next_piece_id == old(self).next_piece_id,
                    decreases n - i, if done { 0int } else { 1int },
                {
                    let lm = &legal_moves[i];
                    if to.x == lm.to.x && to.y == lm.to.y {
                        let owned = LegalMove {
                            from: lm.from,
                            to: lm.to,
                            move_type: lm.move_type,
                            is_capture: lm.is_capture,
                            tags: clone_tags(&lm.tags),
                            catch_to: lm.catch_to,
                        };
                        proof {
                            assert(owned@ =~= ms[i as int]);
                            assert(first_to_match(ms, i as int, to) == Option::Some(i as int));
                        }
                        let ghost mv_w = owned;
                        let _ = self.move_piece_by_legal_moves(owned);
                        proof {
                            assert(mv_w@ == ms[i as int]);
                        }
                        done = true;
                    } else {
                        i = i + 1;
                    }
                }
            },
            Action::Stun { piece_id, amount } => {
                proof {
                    match piece_idx(self.pieces@, piece_id@) {
                        Option::Some(i) => {
                            lemma_piece_idx_in_range(self.pieces@, piece_id@, 0);
                            assert(old(self).pieces@[i].stun <= i32::MAX - 3);
                        },
                        Option::None => {},
                    }
                }
                let _ = self.stun_piece(&piece_id, amount);
            },
            Action::Crown { piece_id } => {
                match self.find_piece(&piece_id) {
                    Option::Some(pi) => {
                        let mut p = clone_piece(&self.pieces[pi]);
                        p.is_royal = true;
                        self.pieces.set(pi, p);
                    },
                    Option::None => {},
                }
            },
            Action::Disguise { piece_id, as_kind } => {
                match self.find_piece(&piece_id) {
                    Option::Some(pi) => {
                        let mut p = clone_piece(&self.pieces[pi]);
                        p.disguise = Option::Some(as_kind);
                        self.pieces.set(pi, p);
                    },
                    Option::None => {},
                }
            },
        }
    }
}

/// An exact copy of a pocket list.
fn clone_specs(v: &Vec<PieceSpec>) -> (r: Vec<PieceSpec>)
    ensures
        r@ == v@,
{
    let n = v.len();
    let mut r: Vec<PieceSpec> = Vec::new();
    while r.len() < n
        invariant
            r@.len() <= n,
            n == v@.len(),
            r@ =~= v@.subrange(0, r@.len() as int),
        decreases n - r@.len(),
    {
        let i = r.len();
        let copied = PieceSpec { kind: clone_kind(&v[i].kind) };
        assert(copied == v@[i as int]);
        r.push(copied);
        assert(r@ =~= v@.subrange(0, r@.len() as int));
    }
    assert(r@ =~= v@);
    r
}

} // verus!
