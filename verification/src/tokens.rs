//! The token model of the move-script language, and the activation records
//! the interpreter emits.
//!
//! Every executable type here has a ghost model (`TokenModel`, `TagModel`,
//! `ActivationModel`) in which strings are `Seq<char>` and machine integers
//! are mathematical integers; the interpreter's contracts are stated over
//! those models.

use vstd::prelude::*;

verus! {

/// The kind of move an activation stands for.
#[derive(Debug, Clone, Copy, PartialEq, Eq, Structural)]
pub enum MoveType {
    /// Move to an empty square or capture an enemy there.
    TakeMove,
    /// Move to an empty square only.
    Move,
    /// Capture an enemy only.
    Take,
    /// Capture in place, without moving.
    Catch,
    /// Swap places with an occupant.
    Shift,
    /// Land on an empty square while capturing on a remembered one.
    Jump,
}

/// The kind of a deferred action tag.
#[derive(Debug, Clone, Copy, PartialEq, Eq, Structural)]
pub enum ActionTagType {
    /// Turn the mover into another piece kind after the move commits.
    Transition,
    /// Write an entry of the global state after the move commits.
    SetState,
}

/// A deferred side effect attached to an activation; the outer game applies
/// it exactly once, after the move is committed.
#[derive(Debug, Clone, PartialEq, Eq)]
pub struct ActionTag {
    pub tag_type: ActionTagType,
    pub key: String,
    pub value: i32,
    pub piece_name: Option<String>,
}

/// Ghost model of an [`ActionTag`].
pub struct TagModel {
    pub tag_type: ActionTagType,
    pub key: Seq<char>,
    pub value: int,
    pub piece_name: Option<Seq<char>>,
}

impl View for ActionTag {
    type V = TagModel;

    open spec fn view(&self) -> TagModel {
        TagModel {
            tag_type: self.tag_type,
            key: self.key@,
            value: self.value as int,
            piece_name: match self.piece_name {
                Option::Some(s) => Option::Some(s@),
                Option::None => Option::None,
            },
        }
    }
}

/// A candidate move emitted by the interpreter.  `dx`/`dy` are offsets from
/// the acting piece's original square, not from the current anchor.
#[derive(Debug, Clone, PartialEq, Eq)]
pub struct Activation {
    pub dx: i64,
    pub dy: i64,
    pub move_type: MoveType,
    pub tags: Vec<ActionTag>,
    /// For `Jump` only: the offset of the square whose piece is removed.
    pub catch_to: Option<(i64, i64)>,
}

/// Ghost model of an [`Activation`].
pub struct ActivationModel {
    pub dx: int,
    pub dy: int,
    pub move_type: MoveType,
    pub tags: Seq<TagModel>,
    pub catch_to: Option<(int, int)>,
}

impl View for Activation {
    type V = ActivationModel;

    open spec fn view(&self) -> ActivationModel {
        ActivationModel {
            dx: self.dx as int,
            dy: self.dy as int,
            move_type: self.move_type,
            tags: tags_model(self.tags@),
            catch_to: match self.catch_to {
                Option::Some(sq) => Option::Some((sq.0 as int, sq.1 as int)),
                Option::None => Option::None,
            },
        }
    }
}

/// One instruction of the move-script language.
#[derive(Debug, Clone, PartialEq)]
pub enum Token {
    // Move operators.
    TakeMove(i32, i32),
    Move(i32, i32),
    Take(i32, i32),
    Catch(i32, i32),
    Shift(i32, i32),
    Jump(i32, i32),
    Anchor(i32, i32),
    // Predicates.
    Observe(i32, i32),
    Peek(i32, i32),
    Enemy(i32, i32),
    Friendly(i32, i32),
    PieceOn(String, i32, i32),
    Danger(i32, i32),
    Check,
    Bound(i32, i32),
    Edge(i32, i32),
    EdgeTop(i32, i32),
    EdgeBottom(i32, i32),
    EdgeLeft(i32, i32),
    EdgeRight(i32, i32),
    Corner(i32, i32),
    CornerTopLeft(i32, i32),
    CornerTopRight(i32, i32),
    CornerBottomLeft(i32, i32),
    CornerBottomRight(i32, i32),
    // Identity and deferred state.
    Piece(String),
    IfState(String, i32),
    SetState(String, i32),
    SetStateReset,
    Transition(String),
    // Control.
    Repeat(usize),
    Do,
    While,
    Jmp(String),
    Jne(String),
    Label(String),
    Not,
    End,
    // Structure.
    OpenBrace,
    CloseBrace,
    Semicolon,
}

/// Ghost model of a [`Token`].
pub enum TokenModel {
    TakeMove(int, int),
    Move(int, int),
    Take(int, int),
    Catch(int, int),
    Shift(int, int),
    Jump(int, int),
    Anchor(int, int),
    Observe(int, int),
    Peek(int, int),
    Enemy(int, int),
    Friendly(int, int),
    PieceOn(Seq<char>, int, int),
    Danger(int, int),
    Check,
    Bound(int, int),
    Edge(int, int),
    EdgeTop(int, int),
    EdgeBottom(int, int),
    EdgeLeft(int, int),
    EdgeRight(int, int),
    Corner(int, int),
    CornerTopLeft(int, int),
    CornerTopRight(int, int),
    CornerBottomLeft(int, int),
    CornerBottomRight(int, int),
    Piece(Seq<char>),
    IfState(Seq<char>, int),
    SetState(Seq<char>, int),
    SetStateReset,
    Transition(Seq<char>),
    Repeat(nat),
    Do,
    While,
    Jmp(Seq<char>),
    Jne(Seq<char>),
    Label(Seq<char>),
    Not,
    End,
    OpenBrace,
    CloseBrace,
    Semicolon,
}

impl View for Token {
    type V = TokenModel;

    open spec fn view(&self) -> TokenModel {
        match self {
            Token::TakeMove(dx, dy) => TokenModel::TakeMove(*dx as int, *dy as int),
            Token::Move(dx, dy) => TokenModel::Move(*dx as int, *dy as int),
            Token::Take(dx, dy) => TokenModel::Take(*dx as int, *dy as int),
            Token::Catch(dx, dy) => TokenModel::Catch(*dx as int, *dy as int),
            Token::Shift(dx, dy) => TokenModel::Shift(*dx as int, *dy as int),
            Token::Jump(dx, dy) => TokenModel::Jump(*dx as int, *dy as int),
            Token::Anchor(dx, dy) => TokenModel::Anchor(*dx as int, *dy as int),
            Token::Observe(dx, dy) => TokenModel::Observe(*dx as int, *dy as int),
            Token::Peek(dx, dy) => TokenModel::Peek(*dx as int, *dy as int),
            Token::Enemy(dx, dy) => TokenModel::Enemy(*dx as int, *dy as int),
            Token::Friendly(dx, dy) => TokenModel::Friendly(*dx as int, *dy as int),
            Token::PieceOn(n, dx, dy) => TokenModel::PieceOn(n@, *dx as int, *dy as int),
            Token::Danger(dx, dy) => TokenModel::Danger(*dx as int, *dy as int),
            Token::Check => TokenModel::Check,
            Token::Bound(dx, dy) => TokenModel::Bound(*dx as int, *dy as int),
            Token::Edge(dx, dy) => TokenModel::Edge(*dx as int, *dy as int),
            Token::EdgeTop(dx, dy) => TokenModel::EdgeTop(*dx as int, *dy as int),
            Token::EdgeBottom(dx, dy) => TokenModel::EdgeBottom(*dx as int, *dy as int),
            Token::EdgeLeft(dx, dy) => TokenModel::EdgeLeft(*dx as int, *dy as int),
            Token::EdgeRight(dx, dy) => TokenModel::EdgeRight(*dx as int, *dy as int),
            Token::Corner(dx, dy) => TokenModel::Corner(*dx as int, *dy as int),
            Token::CornerTopLeft(dx, dy) => TokenModel::CornerTopLeft(*dx as int, *dy as int),
            Token::CornerTopRight(dx, dy) => TokenModel::CornerTopRight(*dx as int, *dy as int),
            Token::CornerBottomLeft(dx, dy) => TokenModel::CornerBottomLeft(
                *dx as int,
                *dy as int,
            ),
            Token::CornerBottomRight(dx, dy) => TokenModel::CornerBottomRight(
                *dx as int,
                *dy as int,
            ),
            Token::Piece(n) => TokenModel::Piece(n@),
            Token::IfState(k, v) => TokenModel::IfState(k@, *v as int),
            Token::SetState(k, v) => TokenModel::SetState(k@, *v as int),
            Token::SetStateReset => TokenModel::SetStateReset,
            Token::Transition(n) => TokenModel::Transition(n@),
            Token::Repeat(n) => TokenModel::Repeat(*n as nat),
            Token::Do => TokenModel::Do,
            Token::While => TokenModel::While,
            Token::Jmp(l) => TokenModel::Jmp(l@),
            Token::Jne(l) => TokenModel::Jne(l@),
            Token::Label(l) => TokenModel::Label(l@),
            Token::Not => TokenModel::Not,
            Token::End => TokenModel::End,
            Token::OpenBrace => TokenModel::OpenBrace,
            Token::CloseBrace => TokenModel::CloseBrace,
            Token::Semicolon => TokenModel::Semicolon,
        }
    }
}

/// The models of a sequence of tags.
pub open spec fn tags_model(s: Seq<ActionTag>) -> Seq<TagModel> {
    s.map_values(|t: ActionTag| t@)
}

/// The models of a sequence of activations.
pub open spec fn acts_model(s: Seq<Activation>) -> Seq<ActivationModel> {
    s.map_values(|a: Activation| a@)
}

/// The models of a sequence of tokens.
pub open spec fn toks_model(s: Seq<Token>) -> Seq<TokenModel> {
    s.map_values(|t: Token| t@)
}

pub broadcast proof fn lemma_tags_model_push(s: Seq<ActionTag>, t: ActionTag)
    ensures
        #[trigger] tags_model(s.push(t)) == tags_model(s).push(t@),
{
    assert(tags_model(s.push(t)) =~= tags_model(s).push(t@));
}

pub broadcast proof fn lemma_acts_model_push(s: Seq<Activation>, a: Activation)
    ensures
        #[trigger] acts_model(s.push(a)) == acts_model(s).push(a@),
{
    assert(acts_model(s.push(a)) =~= acts_model(s).push(a@));
}

pub broadcast proof fn lemma_toks_model_push(s: Seq<Token>, t: Token)
    ensures
        #[trigger] toks_model(s.push(t)) == toks_model(s).push(t@),
{
    assert(toks_model(s.push(t)) =~= toks_model(s).push(t@));
}

} // verus!
