//! The interpreter: a stack-machine evaluator over the token stream.
//!
//! `parse` lexes a script and keeps its token stream; `execute` walks it
//! against a board snapshot and returns the emitted activations.  The
//! executable machine mirrors the ghost configuration of `semantics` field
//! for field, and `execute` is proved to return exactly `interp_outcome` of
//! its token stream and board: the spec model is the single meaning of a
//! script, and this file only computes it.

use vstd::prelude::*;

use crate::board::BoardState;
use crate::lexer::{lex, tokenize};
use crate::semantics::{
    cfg_anchors_bounded, cfg_wf, chain_reset, disp_control, disp_move, disp_pred,
    disp_structural, disp_tag, init_cfg, interp_outcome, is_exception, is_move_op, is_pred_op,
    is_structural, is_tag_op, label_entries, lemma_run_snoc, lemma_run_stopped,
    lemma_step_preserves, lookup_entries, run, skip, step, toks_args_i32, Cfg, FUEL,
};
use crate::tokens::{
    acts_model, lemma_acts_model_push, lemma_tags_model_push, tags_model, toks_model, ActionTag,
    Activation, MoveType, Token, TokenModel,
};

verus! {

/// The models of the saved scope frames.
pub open spec fn scopes_model(s: Seq<(i64, i64, usize)>) -> Seq<(int, int, int)> {
    s.map_values(|e: (i64, i64, usize)| (e.0 as int, e.1 as int, e.2 as int))
}

/// The models of the label-table rows.
pub open spec fn entries_model(s: Seq<(usize, String, usize)>) -> Seq<(int, Seq<char>, int)> {
    s.map_values(|e: (usize, String, usize)| (e.0 as int, e.1@, e.2 as int))
}

pub open spec fn opt_pc_model(o: Option<usize>) -> Option<int> {
    match o {
        Option::Some(p) => Option::Some(p as int),
        Option::None => Option::None,
    }
}

pub open spec fn opt_sq_model(o: Option<(i64, i64)>) -> Option<(int, int)> {
    match o {
        Option::Some(sq) => Option::Some((sq.0 as int, sq.1 as int)),
        Option::None => Option::None,
    }
}

broadcast proof fn lemma_scopes_model_push(s: Seq<(i64, i64, usize)>, e: (i64, i64, usize))
    ensures
        #[trigger] scopes_model(s.push(e)) == scopes_model(s).push((e.0 as int, e.1 as int, e.2 as int)),
{
    assert(scopes_model(s.push(e)) =~= scopes_model(s).push((e.0 as int, e.1 as int, e.2 as int)));
}

broadcast proof fn lemma_entries_model_push(s: Seq<(usize, String, usize)>, e: (usize, String, usize))
    ensures
        #[trigger] entries_model(s.push(e)) == entries_model(s).push((e.0 as int, e.1@, e.2 as int)),
{
    assert(entries_model(s.push(e)) =~= entries_model(s).push((e.0 as int, e.1@, e.2 as int)));
}

/// Every token that comes from an executable stream carries arguments of the
/// machine integer range.
proof fn lemma_toks_model_ranges(v: Seq<Token>)
    ensures
        toks_model(v).len() == v.len(),
        toks_args_i32(toks_model(v)),
{
    assert forall|k: int| 0 <= k < toks_model(v).len() implies crate::semantics::tok_args_i32(
        #[trigger] toks_model(v)[k],
    ) by {
        assert(toks_model(v)[k] == v[k]@);
    }
}

/// A deep copy of a tag list; `String` clones preserve the value exactly.
pub fn clone_tags(v: &Vec<ActionTag>) -> (r: Vec<ActionTag>)
    ensures
        r@ == v@,
{
    let n = v.len();
    let mut r: Vec<ActionTag> = Vec::new();
    while r.len() < n
        invariant
            r@.len() <= n,
            n == v@.len(),
            r@ =~= v@.subrange(0, r@.len() as int),
        decreases n - r@.len(),
    {
        let i = r.len();
        let t = &v[i];
        let name_copy: Option<String> = match &t.piece_name {
            Option::Some(s) => Option::Some(s.clone()),
            Option::None => Option::None,
        };
        let copied = ActionTag {
            tag_type: t.tag_type,
            key: t.key.clone(),
            value: t.value,
            piece_name: name_copy,
        };
        assert(copied == v@[i as int]);
        r.push(copied);
        assert(r@ =~= v@.subrange(0, r@.len() as int));
    }
    assert(r@ =~= v@);
    r
}

/// Finds the latest label-table row for `(chain, name)`.
fn lookup_label(labels: &Vec<(usize, String, usize)>, chain: usize, name: &String) -> (r: Option<
    usize,
>)
    ensures
        match r {
            Option::Some(t) => lookup_entries(entries_model(labels@), chain as int, name@)
                == Option::Some(t as int),
            Option::None => lookup_entries(entries_model(labels@), chain as int, name@) is None,
        },
{
    let ghost es = entries_model(labels@);
    let mut i: usize = labels.len();
    assert(es.subrange(0, i as int) =~= es);
    while i > 0
        invariant
            0 <= i <= labels@.len(),
            es == entries_model(labels@),
            lookup_entries(es, chain as int, name@) == lookup_entries(
                es.subrange(0, i as int),
                chain as int,
                name@,
            ),
        decreases i,
    {
        let e = &labels[i - 1];
        proof {
            assert(es[i - 1] == (e.0 as int, e.1@, e.2 as int));
            assert(es.subrange(0, i as int).last() == es[i - 1]);
            assert(es.subrange(0, i as int).drop_last() =~= es.subrange(0, i - 1));
        }
        if e.0 == chain && e.1 == *name {
            return Option::Some(e.2);
        }
        i = i - 1;
    }
    assert(es.subrange(0, 0) =~= Seq::<(int, Seq<char>, int)>::empty());
    Option::None
}

/// The executable interpreter state; its view is the ghost configuration it
/// stands for (never the failed one: failure returns early).
pub struct Machine {
    pub pc: usize,
    pub chain: usize,
    pub ax: i64,
    pub ay: i64,
    pub last: bool,
    pub pending: Vec<ActionTag>,
    pub do_pc: Option<usize>,
    pub take_sq: Option<(i64, i64)>,
    pub scopes: Vec<(i64, i64, usize)>,
    pub open_depth: u128,
    pub acts: Vec<Activation>,
}

impl View for Machine {
    type V = Cfg;

    open spec fn view(&self) -> Cfg {
        Cfg {
            pc: self.pc as int,
            chain: self.chain as int,
            ax: self.ax as int,
            ay: self.ay as int,
            last: self.last,
            pending: tags_model(self.pending@),
            do_pc: opt_pc_model(self.do_pc),
            take_sq: opt_sq_model(self.take_sq),
            scopes: scopes_model(self.scopes@),
            open_depth: self.open_depth as int,
            acts: acts_model(self.acts@),
            failed: false,
        }
    }
}

fn is_exception_exec(t: &Token) -> (r: bool)
    ensures
        r == is_exception(t@),
{
    match t {
        Token::While => true,
        Token::Jmp(_) => true,
        Token::Jne(_) => true,
        Token::Not => true,
        Token::Label(_) => true,
        Token::Semicolon => true,
        Token::CloseBrace => true,
        _ => false,
    }
}

fn is_structural_exec(t: &Token) -> (r: bool)
    ensures
        r == is_structural(t@),
{
    match t {
        Token::Semicolon => true,
        Token::OpenBrace => true,
        Token::CloseBrace => true,
        _ => false,
    }
}

fn is_move_op_exec(t: &Token) -> (r: bool)
    ensures
        r == is_move_op(t@),
{
    match t {
        Token::TakeMove(_, _) => true,
        Token::Move(_, _) => true,
        Token::Take(_, _) => true,
        Token::Catch(_, _) => true,
        Token::Shift(_, _) => true,
        Token::Jump(_, _) => true,
        Token::Anchor(_, _) => true,
        _ => false,
    }
}

fn is_pred_op_exec(t: &Token) -> (r: bool)
    ensures
        r == is_pred_op(t@),
{
    match t {
        Token::Observe(_, _) => true,
        Token::Peek(_, _) => true,
        Token::Enemy(_, _) => true,
        Token::Friendly(_, _) => true,
        Token::PieceOn(_, _, _) => true,
        Token::Danger(_, _) => true,
        Token::Check => true,
        Token::Bound(_, _) => true,
        Token::Edge(_, _) => true,
        Token::EdgeTop(_, _) => true,
        Token::EdgeBottom(_, _) => true,
        Token::EdgeLeft(_, _) => true,
        Token::EdgeRight(_, _) => true,
        Token::Corner(_, _) => true,
        Token::CornerTopLeft(_, _) => true,
        Token::CornerTopRight(_, _) => true,
        Token::CornerBottomLeft(_, _) => true,
        Token::CornerBottomRight(_, _) => true,
        Token::Piece(_) => true,
        Token::IfState(_, _) => true,
        _ => false,
    }
}

fn is_tag_op_exec(t: &Token) -> (r: bool)
    ensures
        r == is_tag_op(t@),
{
    match t {
        Token::SetState(_, _) => true,
        Token::SetStateReset => true,
        Token::Transition(_) => true,
        _ => false,
    }
}

/// The largest anchor magnitude any reachable configuration can show.
pub open spec fn anchor_cap() -> int {
    0x1_0000_0000 * (FUEL as int)
}

/// Dispatches a structural token.
fn exec_structural(m: &mut Machine, t: &Token)
    requires
        is_structural(t@),
        old(m)@.chain <= FUEL as int,
    ensures
        final(m)@ == disp_structural(t@, old(m)@),
{
    broadcast use lemma_scopes_model_push;

    match t {
        Token::Semicolon => {
            m.chain = m.chain + 1;
            m.ax = 0;
            m.ay = 0;
            m.last = true;
            m.pending.clear();
            m.do_pc = Option::None;
            m.take_sq = Option::None;
            assert(tags_model(m.pending@) =~= Seq::empty());
            assert(m@ =~= chain_reset(old(m)@));
        },
        Token::OpenBrace => {
            let frame = (m.ax, m.ay, m.pc);
            m.scopes.push(frame);
            m.last = true;
            assert(m@ =~= disp_structural(t@, old(m)@));
        },
        Token::CloseBrace => {
            let popped = m.scopes.pop();
            match popped {
                Option::Some(fr) => {
                    m.ax = fr.0;
                    m.ay = fr.1;
                    proof {
                        assert(scopes_model(old(m).scopes@).last() == (
                            fr.0 as int,
                            fr.1 as int,
                            fr.2 as int,
                        ));
                        assert(scopes_model(m.scopes@) =~= scopes_model(
                            old(m).scopes@,
                        ).drop_last());
                    }
                },
                Option::None => {
                    proof {
                        assert(scopes_model(old(m).scopes@).len() == 0);
                    }
                },
            }
            m.last = true;
            assert(m@ =~= disp_structural(t@, old(m)@));
        },
        _ => {
            proof {
                assert(false);
            }
        },
    }
}

/// Dispatches a move operator.
fn exec_move(m: &mut Machine, board: &BoardState, t: &Token, Ghost(mm): Ghost<int>)
    requires
        is_move_op(t@),
        cfg_anchors_bounded(old(m)@, mm),
        0 <= mm <= anchor_cap(),
    ensures
        final(m)@ == disp_move(board@, t@, old(m)@),
{
    broadcast use lemma_acts_model_push;

    match t {
        Token::TakeMove(dx, dy) => {
            let dxl = *dx as i64;
            let dyl = *dy as i64;
            let tx = board.piece_x as i64 + m.ax + dxl;
            let ty = board.piece_y as i64 + m.ay + dyl;
            if !board.in_bounds(tx, ty) || board.has_friendly(tx, ty) {
                m.last = false;
            } else {
                let enemy = board.has_enemy(tx, ty);
                m.acts.push(
                    Activation {
                        dx: m.ax + dxl,
                        dy: m.ay + dyl,
                        move_type: MoveType::TakeMove,
                        tags: clone_tags(&m.pending),
                        catch_to: Option::None,
                    },
                );
                m.ax = m.ax + dxl;
                m.ay = m.ay + dyl;
                m.last = !enemy;
            }
            assert(m@ =~= disp_move(board@, t@, old(m)@));
        },
        Token::Move(dx, dy) => {
            let dxl = *dx as i64;
            let dyl = *dy as i64;
            let tx = board.piece_x as i64 + m.ax + dxl;
            let ty = board.piece_y as i64 + m.ay + dyl;
            if board.is_empty(tx, ty) {
                m.acts.push(
                    Activation {
                        dx: m.ax + dxl,
                        dy: m.ay + dyl,
                        move_type: MoveType::Move,
                        tags: clone_tags(&m.pending),
                        catch_to: Option::None,
                    },
                );
                m.ax = m.ax + dxl;
                m.ay = m.ay + dyl;
                m.last = true;
            } else {
                m.last = false;
            }
            assert(m@ =~= disp_move(board@, t@, old(m)@));
        },
        Token::Take(dx, dy) => {
            let dxl = *dx as i64;
            let dyl = *dy as i64;
            let tx = board.piece_x as i64 + m.ax + dxl;
            let ty = board.piece_y as i64 + m.ay + dyl;
            if board.has_enemy(tx, ty) {
                m.take_sq = Option::Some((m.ax + dxl, m.ay + dyl));
                m.acts.push(
                    Activation {
                        dx: m.ax + dxl,
                        dy: m.ay + dyl,
                        move_type: MoveType::Take,
                        tags: clone_tags(&m.pending),
                        catch_to: Option::None,
                    },
                );
                m.ax = m.ax + dxl;
                m.ay = m.ay + dyl;
                m.last = true;
            } else if board.in_bounds(tx, ty) && !board.has_friendly(tx, ty) {
                m.ax = m.ax + dxl;
                m.ay = m.ay + dyl;
                m.last = true;
            } else {
                m.last = false;
            }
            assert(m@ =~= disp_move(board@, t@, old(m)@));
        },
        Token::Catch(dx, dy) => {
            let dxl = *dx as i64;
            let dyl = *dy as i64;
            let tx = board.piece_x as i64 + m.ax + dxl;
            let ty = board.piece_y as i64 + m.ay + dyl;
            if board.has_enemy(tx, ty) {
                m.acts.push(
                    Activation {
                        dx: m.ax + dxl,
                        dy: m.ay + dyl,
                        move_type: MoveType::Catch,
                        tags: clone_tags(&m.pending),
                        catch_to: Option::None,
                    },
                );
                m.last = true;
            } else {
                m.last = false;
            }
            assert(m@ =~= disp_move(board@, t@, old(m)@));
        },
        Token::Shift(dx, dy) => {
            let dxl = *dx as i64;
            let dyl = *dy as i64;
            let tx = board.piece_x as i64 + m.ax + dxl;
            let ty = board.piece_y as i64 + m.ay + dyl;
            if board.in_bounds(tx, ty) && !board.is_empty(tx, ty) {
                m.acts.push(
                    Activation {
                        dx: m.ax + dxl,
                        dy: m.ay + dyl,
                        move_type: MoveType::Shift,
                        tags: clone_tags(&m.pending),
                        catch_to: Option::None,
                    },
                );
                m.ax = m.ax + dxl;
                m.ay = m.ay + dyl;
                m.last = true;
            } else {
                m.last = false;
            }
            assert(m@ =~= disp_move(board@, t@, old(m)@));
        },
        Token::Jump(dx, dy) => {
            let dxl = *dx as i64;
            let dyl = *dy as i64;
            // A trailing take is replaced by the jump whether or not the
            // jump itself goes through.
            if m.acts.len() > 0 {
                let last_mt = m.acts[m.acts.len() - 1].move_type;
                if last_mt == MoveType::Take {
                    m.acts.pop();
                    proof {
                        assert(acts_model(m.acts@) =~= acts_model(old(m).acts@).drop_last());
                    }
                }
            }
            match m.take_sq {
                Option::Some(ts) => {
                    let tx = board.piece_x as i64 + m.ax + dxl;
                    let ty = board.piece_y as i64 + m.ay + dyl;
                    if board.is_empty(tx, ty) {
                        m.acts.push(
                            Activation {
                                dx: m.ax + dxl,
                                dy: m.ay + dyl,
                                move_type: MoveType::Jump,
                                tags: clone_tags(&m.pending),
                                catch_to: Option::Some(ts),
                            },
                        );
                        m.ax = m.ax + dxl;
                        m.ay = m.ay + dyl;
                        m.last = true;
                    } else {
                        m.last = false;
                    }
                },
                Option::None => {
                    m.last = false;
                },
            }
            assert(m@ =~= disp_move(board@, t@, old(m)@));
        },
        Token::Anchor(dx, dy) => {
            m.ax = m.ax + *dx as i64;
            m.ay = m.ay + *dy as i64;
            m.last = true;
            assert(m@ =~= disp_move(board@, t@, old(m)@));
        },
        _ => {
            proof {
                assert(false);
            }
        },
    }
}

/// The predicates that read only the board's geometry.
pub open spec fn is_geo_pred(t: TokenModel) -> bool {
    match t {
        TokenModel::Bound(_, _) => true,
        TokenModel::Edge(_, _) => true,
        TokenModel::EdgeTop(_, _) => true,
        TokenModel::EdgeBottom(_, _) => true,
        TokenModel::EdgeLeft(_, _) => true,
        TokenModel::EdgeRight(_, _) => true,
        TokenModel::Corner(_, _) => true,
        TokenModel::CornerTopLeft(_, _) => true,
        TokenModel::CornerTopRight(_, _) => true,
        TokenModel::CornerBottomLeft(_, _) => true,
        TokenModel::CornerBottomRight(_, _) => true,
        _ => false,
    }
}

/// Dispatches an edge, corner or bound predicate.
fn exec_pred_geo(m: &mut Machine, board: &BoardState, t: &Token, Ghost(mm): Ghost<int>)
    requires
        is_pred_op(t@),
        is_geo_pred(t@),
        cfg_anchors_bounded(old(m)@, mm),
        0 <= mm <= anchor_cap(),
    ensures
        final(m)@ == disp_pred(board@, t@, old(m)@),
{
    match t {
        Token::Bound(dx, dy) => {
            let tx = board.piece_x as i64 + m.ax + *dx as i64;
            let ty = board.piece_y as i64 + m.ay + *dy as i64;
            m.last = !board.in_bounds(tx, ty);
        },
        Token::Edge(dx, dy) => {
            let tx = board.piece_x as i64 + m.ax + *dx as i64;
            let ty = board.piece_y as i64 + m.ay + *dy as i64;
            m.last = tx < 0 || tx >= board.board_width as i64 || ty < 0 || ty
                >= board.board_height as i64;
        },
        Token::EdgeTop(_, dy) => {
            let ty = board.piece_y as i64 + m.ay + *dy as i64;
            m.last = ty >= board.board_height as i64;
        },
        Token::EdgeBottom(_, dy) => {
            let ty = board.piece_y as i64 + m.ay + *dy as i64;
            m.last = ty < 0;
        },
        Token::EdgeLeft(dx, _) => {
            let tx = board.piece_x as i64 + m.ax + *dx as i64;
            m.last = tx < 0;
        },
        Token::EdgeRight(dx, _) => {
            let tx = board.piece_x as i64 + m.ax + *dx as i64;
            m.last = tx >= board.board_width as i64;
        },
        Token::Corner(dx, dy) => {
            let tx = board.piece_x as i64 + m.ax + *dx as i64;
            let ty = board.piece_y as i64 + m.ay + *dy as i64;
            let out_x = tx < 0 || tx >= board.board_width as i64;
            let out_y = ty < 0 || ty >= board.board_height as i64;
            m.last = out_x && out_y;
        },
        Token::CornerTopLeft(dx, dy) => {
            let tx = board.piece_x as i64 + m.ax + *dx as i64;
            let ty = board.piece_y as i64 + m.ay + *dy as i64;
            m.last = tx < 0 && ty >= board.board_height as i64;
        },
        Token::CornerTopRight(dx, dy) => {
            let tx = board.piece_x as i64 + m.ax + *dx as i64;
            let ty = board.piece_y as i64 + m.ay + *dy as i64;
            m.last = tx >= board.board_width as i64 && ty >= board.board_height as i64;
        },
        Token::CornerBottomLeft(dx, dy) => {
            let tx = board.piece_x as i64 + m.ax + *dx as i64;
            let ty = board.piece_y as i64 + m.ay + *dy as i64;
            m.last = tx < 0 && ty < 0;
        },
        Token::CornerBottomRight(dx, dy) => {
            let tx = board.piece_x as i64 + m.ax + *dx as i64;
            let ty = board.piece_y as i64 + m.ay + *dy as i64;
            m.last = tx >= board.board_width as i64 && ty < 0;
        },
        _ => {
            proof {
                assert(false);
            }
        },
    }
    assert(m@ =~= disp_pred(board@, t@, old(m)@));
}

/// Dispatches an occupancy, identity or state predicate.
fn exec_pred_occ(m: &mut Machine, board: &BoardState, t: &Token, Ghost(mm): Ghost<int>)
    requires
        is_pred_op(t@),
        !is_geo_pred(t@),
        cfg_anchors_bounded(old(m)@, mm),
        0 <= mm <= anchor_cap(),
    ensures
        final(m)@ == disp_pred(board@, t@, old(m)@),
{
    match t {
        Token::Observe(dx, dy) => {
            let tx = board.piece_x as i64 + m.ax + *dx as i64;
            let ty = board.piece_y as i64 + m.ay + *dy as i64;
            m.last = board.is_empty(tx, ty);
        },
        Token::Peek(dx, dy) => {
            let dxl = *dx as i64;
            let dyl = *dy as i64;
            let tx = board.piece_x as i64 + m.ax + dxl;
            let ty = board.piece_y as i64 + m.ay + dyl;
            m.last = board.is_empty(tx, ty);
            m.ax = m.ax + dxl;
            m.ay = m.ay + dyl;
        },
        Token::Enemy(dx, dy) => {
            let tx = board.piece_x as i64 + m.ax + *dx as i64;
            let ty = board.piece_y as i64 + m.ay + *dy as i64;
            m.last = board.has_enemy(tx, ty);
        },
        Token::Friendly(dx, dy) => {
            let tx = board.piece_x as i64 + m.ax + *dx as i64;
            let ty = board.piece_y as i64 + m.ay + *dy as i64;
            m.last = board.has_friendly(tx, ty);
        },
        Token::PieceOn(name, dx, dy) => {
            let tx = board.piece_x as i64 + m.ax + *dx as i64;
            let ty = board.piece_y as i64 + m.ay + *dy as i64;
            m.last = board.has_piece(tx, ty, name);
        },
        Token::Danger(dx, dy) => {
            let tx = board.piece_x as i64 + m.ax + *dx as i64;
            let ty = board.piece_y as i64 + m.ay + *dy as i64;
            m.last = board.has_danger(tx, ty);
        },
        Token::Check => {
            m.last = board.in_check;
        },
        Token::Piece(name) => {
            m.last = board.piece_name == *name;
        },
        Token::IfState(key, expected) => {
            let actual = board.state_val(key);
            m.last = actual == *expected;
        },

        _ => {
            proof {
                assert(false);
            }
        },
    }
    assert(m@ =~= disp_pred(board@, t@, old(m)@));
}

/// Dispatches a predicate.
fn exec_pred(m: &mut Machine, board: &BoardState, t: &Token, Ghost(mm): Ghost<int>)
    requires
        is_pred_op(t@),
        cfg_anchors_bounded(old(m)@, mm),
        0 <= mm <= anchor_cap(),
    ensures
        final(m)@ == disp_pred(board@, t@, old(m)@),
{
    match t {
        Token::Bound(_, _)
        | Token::Edge(_, _)
        | Token::EdgeTop(_, _)
        | Token::EdgeBottom(_, _)
        | Token::EdgeLeft(_, _)
        | Token::EdgeRight(_, _)
        | Token::Corner(_, _)
        | Token::CornerTopLeft(_, _)
        | Token::CornerTopRight(_, _)
        | Token::CornerBottomLeft(_, _)
        | Token::CornerBottomRight(_, _) => {
            exec_pred_geo(m, board, t, Ghost(mm));
        },
        _ => {
            exec_pred_occ(m, board, t, Ghost(mm));
        },
    }
}

/// Dispatches a deferred-tag operator.
fn exec_tag(m: &mut Machine, t: &Token)
    requires
        is_tag_op(t@),
    ensures
        final(m)@ == disp_tag(t@, old(m)@),
{
    broadcast use lemma_tags_model_push;

    match t {
        Token::SetState(key, value) => {
            m.pending.push(
                ActionTag {
                    tag_type: crate::tokens::ActionTagType::SetState,
                    key: key.clone(),
                    value: *value,
                    piece_name: Option::None,
                },
            );
            m.last = true;
        },
        Token::SetStateReset => {
            let popped = m.pending.pop();
            proof {
                if old(m).pending@.len() > 0 {
                    assert(tags_model(m.pending@) =~= tags_model(old(m).pending@).drop_last());
                } else {
                    assert(tags_model(m.pending@) =~= tags_model(old(m).pending@));
                }
            }
            m.last = true;
        },
        Token::Transition(name) => {
            let empty_key = String::new();
            assert(empty_key@ =~= Seq::<char>::empty());
            m.pending.push(
                ActionTag {
                    tag_type: crate::tokens::ActionTagType::Transition,
                    key: empty_key,
                    value: 0,
                    piece_name: Option::Some(name.clone()),
                },
            );
            m.last = true;
        },
        _ => {
            proof {
                assert(false);
            }
        },
    }
    assert(m@ =~= disp_tag(t@, old(m)@));
}

/// Dispatches a control operator.  Returns false exactly when a `jmp`/`jne`
/// names a label undefined in the current chain.
fn exec_control(
    m: &mut Machine,
    t: &Token,
    labels: &Vec<(usize, String, usize)>,
    Ghost(toks): Ghost<Seq<TokenModel>>,
) -> (ok: bool)
    requires
        !is_structural(t@) && !is_move_op(t@) && !is_pred_op(t@) && !is_tag_op(t@),
        entries_model(labels@) == label_entries(toks, toks.len() as int),
    ensures
        ok == !disp_control(toks, t@, old(m)@).failed,
        ok ==> final(m)@ == disp_control(toks, t@, old(m)@),
{
    match t {
        Token::Repeat(n) => {
            if m.last && *n > 0 {
                m.pc = if m.pc > *n {
                    m.pc - *n - 1
                } else {
                    0
                };
            }
        },
        Token::Do => {
            if m.last {
                m.do_pc = Option::Some(m.pc);
            }
        },
        Token::While => {
            if m.last {
                match m.do_pc {
                    Option::Some(target) => {
                        m.pc = target;
                    },
                    Option::None => {},
                }
            }
            m.last = true;
        },
        Token::Jmp(name) => {
            if m.last {
                match lookup_label(labels, m.chain, name) {
                    Option::Some(target) => {
                        m.pc = target;
                        m.last = true;
                    },
                    Option::None => {
                        return false;
                    },
                }
            } else {
                m.last = true;
            }
        },
        Token::Jne(name) => {
            if !m.last {
                match lookup_label(labels, m.chain, name) {
                    Option::Some(target) => {
                        m.pc = target;
                        m.last = true;
                    },
                    Option::None => {
                        return false;
                    },
                }
            } else {
                m.last = true;
            }
        },
        Token::Label(_) => {},
        Token::Not => {
            m.last = !m.last;
        },
        Token::End => {
            m.last = false;
        },
        _ => {
            proof {
                assert(false);
            }
        },
    }
    assert(m@ =~= disp_control(toks, t@, old(m)@));
    true
}

/// Walks past the rest of the chain once the bus went false: the executable
/// counterpart of `skip`.
fn exec_skip(
    m: &mut Machine,
    tokens: &Vec<Token>,
    Ghost(toks): Ghost<Seq<TokenModel>>,
)
    requires
        toks == toks_model(tokens@),
        old(m)@.pc <= toks.len(),
        old(m)@.chain <= FUEL as int,
        old(m)@.open_depth <= 0x2710_0000_0000_0000_0000,
    ensures
        final(m)@ == skip(toks, old(m)@),
{
    let ghost orig = old(m)@;
    let ghost target = skip(toks, orig);
    let n = tokens.len();
    proof {
        assert(toks.len() == tokens@.len());
    }
    let mut done: bool = false;
    while !done && m.pc < n
        invariant
            n == tokens@.len(),
            toks == toks_model(tokens@),
            target == skip(toks, orig),
            0 <= orig.pc,
            orig.chain <= FUEL as int,
            orig.open_depth <= 0x2710_0000_0000_0000_0000,
            !done ==> skip(toks, m@) == target && m@.chain == orig.chain && m@.pc <= toks.len()
                && orig.pc <= m@.pc && m@.open_depth <= orig.open_depth + (m@.pc - orig.pc),
            done ==> m@ == target,
        decreases n - m.pc, if done { 0int } else { 1int },
    {
        let ghost before = m@;
        let t2 = &tokens[m.pc];
        proof {
            assert(toks[m.pc as int] == tokens@[m.pc as int]@);
        }
        match t2 {
            Token::Semicolon => {
                m.pc = m.pc + 1;
                m.chain = m.chain + 1;
                m.ax = 0;
                m.ay = 0;
                m.pending.clear();
                m.do_pc = Option::None;
                m.take_sq = Option::None;
                m.last = true;
                done = true;
                proof {
                    assert(tags_model(m.pending@) =~= Seq::empty());
                    assert(m@ =~= chain_reset(Cfg { pc: before.pc + 1, ..before }));
                    assert(m@.last == true);
                }
            },
            Token::CloseBrace => {
                if m.open_depth > 0 {
                    m.open_depth = m.open_depth - 1;
                    m.pc = m.pc + 1;
                    proof {
                        assert(m@ =~= Cfg {
                            pc: before.pc + 1,
                            open_depth: before.open_depth - 1,
                            ..before
                        });
                    }
                } else {
                    let popped = m.scopes.pop();
                    match popped {
                        Option::Some(fr) => {
                            m.ax = fr.0;
                            m.ay = fr.1;
                            proof {
                                assert(before.scopes.last() == (
                                    fr.0 as int,
                                    fr.1 as int,
                                    fr.2 as int,
                                ));
                            }
                        },
                        Option::None => {},
                    }
                    m.pc = m.pc + 1;
                    done = true;
                    proof {
                        if before.scopes.len() > 0 {
                            assert(scopes_model(m.scopes@) =~= before.scopes.drop_last());
                            assert(m@ =~= Cfg {
                                pc: before.pc + 1,
                                ax: before.scopes.last().0,
                                ay: before.scopes.last().1,
                                scopes: before.scopes.drop_last(),
                                ..before
                            });
                        } else {
                            assert(m@ =~= Cfg { pc: before.pc + 1, ..before });
                        }
                    }
                }
            },
            Token::OpenBrace => {
                proof {
                    assert(usize::MAX as int <= u64::MAX as int);
                    assert(m@.open_depth <= orig.open_depth + toks.len());
                }
                m.open_depth = m.open_depth + 1;
                m.pc = m.pc + 1;
                proof {
                    assert(m@ =~= Cfg {
                        pc: before.pc + 1,
                        open_depth: before.open_depth + 1,
                        ..before
                    });
                }
            },
            _ => {
                m.pc = m.pc + 1;
                proof {
                    assert(m@ =~= Cfg { pc: before.pc + 1, ..before });
                    assert(!(toks[before.pc] is Semicolon));
                    assert(!(toks[before.pc] is CloseBrace));
                    assert(!(toks[before.pc] is OpenBrace));
                }
            },
        }
    }
    if !done {
        proof {
            assert(m@.pc >= toks.len());
            assert(skip(toks, m@) == m@);
        }
    }
}

/// The move-script interpreter.  `parse` installs a token stream; `execute`
/// evaluates it against a board snapshot.
pub struct Interpreter {
    /// The current token stream.
    pub tokens: Vec<Token>,
    /// Whether tracing was requested; evaluation ignores it.
    pub debug: bool,
}

impl Interpreter {
    /// A fresh interpreter with an empty token stream.
    pub fn new() -> (r: Interpreter)
        ensures
            r.tokens@.len() == 0,
            r.debug == false,
    {
        Interpreter { tokens: Vec::new(), debug: false }
    }

    /// Toggles trace logging; evaluation is unaffected.
    pub fn set_debug(&mut self, enabled: bool)
        ensures
            final(self).debug == enabled,
            final(self).tokens == old(self).tokens,
    {
        self.debug = enabled;
    }

    /// Replaces the current token stream with the script's.
    pub fn parse(&mut self, input: &str)
        ensures
            toks_model(final(self).tokens@) == lex(input@),
            final(self).debug == old(self).debug,
    {
        self.tokens = tokenize(input);
    }

    /// Evaluates the current token stream against `board` and returns the
    /// activations in emission order: exactly `interp_outcome` of the stream
    /// and the board.  The one error is a `jmp`/`jne` to a label undefined in
    /// its chain.
    pub fn execute(&self, board: &BoardState) -> (r: Result<Vec<Activation>, String>)
        ensures
            match interp_outcome(toks_model(self.tokens@), board@) {
                Option::Some(acts) => r is Ok && acts_model(r->Ok_0@) == acts,
                Option::None => r is Err && r->Err_0@ == "jump to undefined label"@,
            },
    {
        broadcast use lemma_entries_model_push;

        let ghost toks = toks_model(self.tokens@);
        let ghost bm = board@;
        proof {
            lemma_toks_model_ranges(self.tokens@);
        }
        let n = self.tokens.len();

        // Label prepass: record, for every `label` token, the chain it
        // stands in and the index just past it.
        let mut labels: Vec<(usize, String, usize)> = Vec::new();
        let mut pp: usize = 0;
        let mut pchain: usize = 0;
        assert(entries_model(labels@) =~= label_entries(toks, 0));
        while pp < n
            invariant
                0 <= pp <= n,
                n == self.tokens@.len(),
                toks == toks_model(self.tokens@),
                pchain <= pp,
                pchain as int == crate::semantics::chain_at(toks, pp as int),
                entries_model(labels@) == label_entries(toks, pp as int),
            decreases n - pp,
        {
            broadcast use lemma_entries_model_push;

            let t = &self.tokens[pp];
            proof {
                assert(toks[pp as int] == self.tokens@[pp as int]@);
            }
            match t {
                Token::Semicolon => {
                    pchain = pchain + 1;
                },
                Token::Label(nm) => {
                    labels.push((pchain, nm.clone(), pp + 1));
                },
                _ => {},
            }
            pp = pp + 1;
        }
        assert(entries_model(labels@) == label_entries(toks, toks.len() as int));

        // The machine proper.
        let mut m = Machine {
            pc: 0,
            chain: 0,
            ax: 0,
            ay: 0,
            last: true,
            pending: Vec::new(),
            do_pc: Option::None,
            take_sq: Option::None,
            scopes: Vec::new(),
            open_depth: 0,
            acts: Vec::new(),
        };
        let mut fuel: usize = FUEL;
        let ghost mut steps: nat = 0;
        proof {
            assert(tags_model(m.pending@) =~= Seq::empty());
            assert(scopes_model(m.scopes@) =~= Seq::empty());
            assert(acts_model(m.acts@) =~= Seq::empty());
            assert(m@ =~= init_cfg());
        }
        while m.pc < n && fuel > 0
            invariant
                n == self.tokens@.len(),
                toks == toks_model(self.tokens@),
                bm == board@,
                toks_args_i32(toks),
                entries_model(labels@) == label_entries(toks, toks.len() as int),
                steps + fuel == FUEL as nat,
                m@ == run(toks, bm, init_cfg(), steps),
                cfg_wf(toks, m@),
                cfg_anchors_bounded(m@, 0x1_0000_0000 * (steps + 1) as int),
                m@.chain <= steps,
                m@.open_depth <= steps * (n as int + 1),
            decreases fuel,
        {
            let ghost cur = m@;
            let ghost nxt = step(toks, bm, cur);
            proof {
                lemma_run_snoc(toks, bm, init_cfg(), steps);
                lemma_step_preserves(toks, bm, cur, 0x1_0000_0000 * (steps + 1) as int);
                assert((steps + 1) * (n as int + 1) == steps * (n as int + 1) + (n as int + 1))
                    by (nonlinear_arith);
                assert(steps * (n as int + 1) <= 10000 * 0x1_0000_0000_0000_0000int)
                    by (nonlinear_arith)
                    requires
                        0 <= steps <= 10000,
                        0 <= n as int + 1 <= 0x1_0000_0000_0000_0000int,
                ;
            }
            let t = &self.tokens[m.pc];
            proof {
                assert(toks[m.pc as int] == self.tokens@[m.pc as int]@);
            }
            m.pc = m.pc + 1;
            let ghost s1 = m@;
            assert(s1 == Cfg { pc: cur.pc + 1, ..cur });
            fuel = fuel - 1;
            if !m.last && !is_exception_exec(t) {
                exec_skip(&mut m, &self.tokens, Ghost(toks));
                m.last = true;
                assert(m@ =~= nxt);
            } else if is_structural_exec(t) {
                exec_structural(&mut m, t);
                assert(m@ =~= nxt);
            } else if is_move_op_exec(t) {
                exec_move(&mut m, board, t, Ghost(0x1_0000_0000 * (steps + 1) as int));
                assert(m@ =~= nxt);
            } else if is_pred_op_exec(t) {
                exec_pred(&mut m, board, t, Ghost(0x1_0000_0000 * (steps + 1) as int));
                assert(m@ =~= nxt);
            } else if is_tag_op_exec(t) {
                exec_tag(&mut m, t);
                assert(m@ =~= nxt);
            } else {
                let ok = exec_control(&mut m, t, &labels, Ghost(toks));
                if !ok {
                    proof {
                        assert(nxt.failed);
                        assert(run(toks, bm, init_cfg(), steps + 1) == nxt);
                        lemma_run_stopped(toks, bm, init_cfg(), steps + 1, FUEL as nat);
                        assert(interp_outcome(toks, bm) is None);
                    }
                    return Result::Err(String::from_str("jump to undefined label"));
                }
                assert(m@ =~= nxt);
            }
            proof {
                steps = steps + 1;
            }
        }
        if fuel == 0 && m.pc < n {
            proof {
                assert(steps == FUEL as nat);
                assert(interp_outcome(toks, bm) == Option::Some(Seq::<
                    crate::tokens::ActivationModel,
                >::empty()));
            }
            let empty: Vec<Activation> = Vec::new();
            assert(acts_model(empty@) =~= Seq::empty());
            return Result::Ok(empty);
        }
        proof {
            assert(m@.pc >= toks.len());
            lemma_run_stopped(toks, bm, init_cfg(), steps, FUEL as nat);
            assert(run(toks, bm, init_cfg(), FUEL as nat) == m@);
            assert(interp_outcome(toks, bm) == Option::Some(acts_model(m.acts@)));
        }
        Result::Ok(m.acts)
    }
}

} // verus!
