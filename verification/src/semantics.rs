//! The mathematical meaning of a token stream.
//!
//! A ghost configuration (`Cfg`) carries the interpreter's runtime state:
//! program counter, anchor cursor, predicate bus, pending tags, scope stack,
//! label bookkeeping and the activations emitted so far.  `step` dispatches
//! one token, `skip` models the chain-termination walk that a false predicate
//! triggers, and `run` iterates `step` under a fuel bound.  The executable
//! interpreter in `interp` is proved to return exactly `interp_outcome`.

use vstd::prelude::*;

use crate::board::BoardModel;
use crate::tokens::{ActionTagType, ActivationModel, MoveType, TagModel, TokenModel};

verus! {

/// Every `execute` call dispatches at most this many opcodes; a script still
/// running when the budget is spent yields an empty activation list.
pub const FUEL: usize = 10000;

/// One interpreter configuration.
#[verifier::ext_equal]
pub struct Cfg {
    /// Program counter into the token stream.
    pub pc: int,
    /// Index of the current `;`-terminated chain; scopes label lookups.
    pub chain: int,
    /// Anchor cursor, accumulated from the acting square.
    pub ax: int,
    pub ay: int,
    /// The predicate bus: the most recent truth value.
    pub last: bool,
    /// Deferred action tags not yet attached to an activation.
    pub pending: Seq<TagModel>,
    /// Token index recorded by the most recent `do`.
    pub do_pc: Option<int>,
    /// Anchor-relative square of the most recent capturing `take`.
    pub take_sq: Option<(int, int)>,
    /// Saved `(ax, ay, pc)` frames of the open `{` scopes.
    pub scopes: Seq<(int, int, int)>,
    /// Unmatched `{` seen while skipping; carried across skips.
    pub open_depth: int,
    /// Activations emitted so far, in order.
    pub acts: Seq<ActivationModel>,
    /// Set when a `jmp`/`jne` names a label undefined in its chain.
    pub failed: bool,
}

/// The configuration `execute` starts from.
pub open spec fn init_cfg() -> Cfg {
    Cfg {
        pc: 0,
        chain: 0,
        ax: 0,
        ay: 0,
        last: true,
        pending: Seq::empty(),
        do_pc: Option::None,
        take_sq: Option::None,
        scopes: Seq::empty(),
        open_depth: 0,
        acts: Seq::empty(),
        failed: false,
    }
}

/// Operators exempt from the chain-termination rule.
pub open spec fn is_exception(t: TokenModel) -> bool {
    match t {
        TokenModel::While => true,
        TokenModel::Jmp(_) => true,
        TokenModel::Jne(_) => true,
        TokenModel::Not => true,
        TokenModel::Label(_) => true,
        TokenModel::Semicolon => true,
        TokenModel::CloseBrace => true,
        _ => false,
    }
}

/// The number of `;` tokens before index `i`: the chain a token belongs to.
pub open spec fn chain_at(toks: Seq<TokenModel>, i: int) -> int
    decreases i,
{
    if i <= 0 {
        0
    } else {
        chain_at(toks, i - 1) + if toks[i - 1] is Semicolon {
            1int
        } else {
            0int
        }
    }
}

/// The label table as built by the prepass over the first `n` tokens: for
/// each `label(name)` at index `j`, the entry `(chain_at(j), name, j + 1)`.
pub open spec fn label_entries(toks: Seq<TokenModel>, n: int) -> Seq<(int, Seq<char>, int)>
    decreases n,
{
    if n <= 0 {
        Seq::empty()
    } else {
        let rest = label_entries(toks, n - 1);
        match toks[n - 1] {
            TokenModel::Label(name) => rest.push((chain_at(toks, n - 1), name, n)),
            _ => rest,
        }
    }
}

/// The latest entry for `(chain, name)`, mirroring map insertion order.
pub open spec fn lookup_entries(es: Seq<(int, Seq<char>, int)>, chain: int, name: Seq<char>) ->
    Option<int>
    decreases es.len(),
{
    if es.len() == 0 {
        Option::None
    } else if es.last().0 == chain && es.last().1 == name {
        Option::Some(es.last().2)
    } else {
        lookup_entries(es.drop_last(), chain, name)
    }
}

/// Where a `jmp`/`jne` in chain `chain` to `name` lands, if anywhere.
pub open spec fn label_lookup(toks: Seq<TokenModel>, chain: int, name: Seq<char>) -> Option<int> {
    lookup_entries(label_entries(toks, toks.len() as int), chain, name)
}

/// The activation list after emitting one candidate from configuration `s`.
/// Offsets are relative to the acting square, and the pending tags are
/// snapshotted at this moment.
pub open spec fn emit(
    s: Cfg,
    dx: int,
    dy: int,
    mt: MoveType,
    catch: Option<(int, int)>,
) -> Seq<ActivationModel> {
    s.acts.push(
        ActivationModel {
            dx: s.ax + dx,
            dy: s.ay + dy,
            move_type: mt,
            tags: s.pending,
            catch_to: catch,
        },
    )
}

/// The chain reset performed at a `;`: anchor, pending tags, `do` anchor and
/// take square are cleared, the chain index advances, the bus reads true.
pub open spec fn chain_reset(s: Cfg) -> Cfg {
    Cfg {
        chain: s.chain + 1,
        ax: 0,
        ay: 0,
        last: true,
        pending: Seq::empty(),
        do_pc: Option::None,
        take_sq: Option::None,
        ..s
    }
}

/// The walk that abandons the rest of a chain once the bus went false at a
/// non-exception opcode: tokens are passed over until a `;` (consumed, chain
/// reset applies) or a `}` at the current scope depth (scope restored).
pub open spec fn skip(toks: Seq<TokenModel>, s: Cfg) -> Cfg
    decreases toks.len() - s.pc,
{
    if s.pc < 0 || s.pc >= toks.len() {
        s
    } else {
        match toks[s.pc] {
            TokenModel::Semicolon => chain_reset(Cfg { pc: s.pc + 1, ..s }),
            TokenModel::CloseBrace => {
                if s.open_depth > 0 {
                    skip(toks, Cfg { pc: s.pc + 1, open_depth: s.open_depth - 1, ..s })
                } else if s.scopes.len() > 0 {
                    Cfg {
                        pc: s.pc + 1,
                        ax: s.scopes.last().0,
                        ay: s.scopes.last().1,
                        scopes: s.scopes.drop_last(),
                        ..s
                    }
                } else {
                    Cfg { pc: s.pc + 1, ..s }
                }
            },
            TokenModel::OpenBrace => skip(
                toks,
                Cfg { pc: s.pc + 1, open_depth: s.open_depth + 1, ..s },
            ),
            _ => skip(toks, Cfg { pc: s.pc + 1, ..s }),
        }
    }
}

/// The structural tokens: chain boundary and scope braces.
pub open spec fn is_structural(t: TokenModel) -> bool {
    t is Semicolon || t is OpenBrace || t is CloseBrace
}

pub open spec fn disp_structural(t: TokenModel, s: Cfg) -> Cfg {
    match t {
        TokenModel::Semicolon => chain_reset(s),
        TokenModel::OpenBrace => Cfg {
            scopes: s.scopes.push((s.ax, s.ay, s.pc)),
            last: true,
            ..s
        },
        TokenModel::CloseBrace => {
            if s.scopes.len() > 0 {
                Cfg {
                    ax: s.scopes.last().0,
                    ay: s.scopes.last().1,
                    scopes: s.scopes.drop_last(),
                    last: true,
                    ..s
                }
            } else {
                Cfg { last: true, ..s }
            }
        },
        _ => s,
    }
}

/// The move operators, which may emit an activation and advance the anchor.
pub open spec fn is_move_op(t: TokenModel) -> bool {
    match t {
        TokenModel::TakeMove(_, _) => true,
        TokenModel::Move(_, _) => true,
        TokenModel::Take(_, _) => true,
        TokenModel::Catch(_, _) => true,
        TokenModel::Shift(_, _) => true,
        TokenModel::Jump(_, _) => true,
        TokenModel::Anchor(_, _) => true,
        _ => false,
    }
}

pub open spec fn disp_move(b: BoardModel, t: TokenModel, s: Cfg) -> Cfg {
    match t {
        TokenModel::TakeMove(dx, dy) => {
            let tx = b.piece_x + s.ax + dx;
            let ty = b.piece_y + s.ay + dy;
            if !b.in_bounds(tx, ty) || b.has_friendly(tx, ty) {
                Cfg { last: false, ..s }
            } else {
                Cfg {
                    acts: emit(s, dx, dy, MoveType::TakeMove, Option::None),
                    ax: s.ax + dx,
                    ay: s.ay + dy,
                    last: !b.has_enemy(tx, ty),
                    ..s
                }
            }
        },
        TokenModel::Move(dx, dy) => {
            let tx = b.piece_x + s.ax + dx;
            let ty = b.piece_y + s.ay + dy;
            if b.is_empty(tx, ty) {
                Cfg {
                    acts: emit(s, dx, dy, MoveType::Move, Option::None),
                    ax: s.ax + dx,
                    ay: s.ay + dy,
                    last: true,
                    ..s
                }
            } else {
                Cfg { last: false, ..s }
            }
        },
        TokenModel::Take(dx, dy) => {
            let tx = b.piece_x + s.ax + dx;
            let ty = b.piece_y + s.ay + dy;
            if b.has_enemy(tx, ty) {
                Cfg {
                    take_sq: Option::Some((s.ax + dx, s.ay + dy)),
                    acts: emit(s, dx, dy, MoveType::Take, Option::None),
                    ax: s.ax + dx,
                    ay: s.ay + dy,
                    last: true,
                    ..s
                }
            } else if b.in_bounds(tx, ty) && !b.has_friendly(tx, ty) {
                Cfg { ax: s.ax + dx, ay: s.ay + dy, last: true, ..s }
            } else {
                Cfg { last: false, ..s }
            }
        },
        TokenModel::Catch(dx, dy) => {
            let tx = b.piece_x + s.ax + dx;
            let ty = b.piece_y + s.ay + dy;
            if b.has_enemy(tx, ty) {
                Cfg { acts: emit(s, dx, dy, MoveType::Catch, Option::None), last: true, ..s }
            } else {
                Cfg { last: false, ..s }
            }
        },
        TokenModel::Shift(dx, dy) => {
            let tx = b.piece_x + s.ax + dx;
            let ty = b.piece_y + s.ay + dy;
            if b.in_bounds(tx, ty) && !b.is_empty(tx, ty) {
                Cfg {
                    acts: emit(s, dx, dy, MoveType::Shift, Option::None),
                    ax: s.ax + dx,
                    ay: s.ay + dy,
                    last: true,
                    ..s
                }
            } else {
                Cfg { last: false, ..s }
            }
        },
        TokenModel::Jump(dx, dy) => {
            // A trailing `take` activation is replaced by the jump whether or
            // not the jump itself goes through.
            let s0 = if s.acts.len() > 0 && s.acts.last().move_type == MoveType::Take {
                Cfg { acts: s.acts.drop_last(), ..s }
            } else {
                s
            };
            match s0.take_sq {
                Option::Some(_) => {
                    let tx = b.piece_x + s0.ax + dx;
                    let ty = b.piece_y + s0.ay + dy;
                    if b.is_empty(tx, ty) {
                        Cfg {
                            acts: emit(s0, dx, dy, MoveType::Jump, s0.take_sq),
                            ax: s0.ax + dx,
                            ay: s0.ay + dy,
                            last: true,
                            ..s0
                        }
                    } else {
                        Cfg { last: false, ..s0 }
                    }
                },
                Option::None => Cfg { last: false, ..s0 },
            }
        },
        TokenModel::Anchor(dx, dy) => Cfg { ax: s.ax + dx, ay: s.ay + dy, last: true, ..s },
        _ => s,
    }
}

/// The predicates, which write the bus; `peek` alone also moves the anchor.
pub open spec fn is_pred_op(t: TokenModel) -> bool {
    match t {
        TokenModel::Observe(_, _) => true,
        TokenModel::Peek(_, _) => true,
        TokenModel::Enemy(_, _) => true,
        TokenModel::Friendly(_, _) => true,
        TokenModel::PieceOn(_, _, _) => true,
        TokenModel::Danger(_, _) => true,
        TokenModel::Check => true,
        TokenModel::Bound(_, _) => true,
        TokenModel::Edge(_, _) => true,
        TokenModel::EdgeTop(_, _) => true,
        TokenModel::EdgeBottom(_, _) => true,
        TokenModel::EdgeLeft(_, _) => true,
        TokenModel::EdgeRight(_, _) => true,
        TokenModel::Corner(_, _) => true,
        TokenModel::CornerTopLeft(_, _) => true,
        TokenModel::CornerTopRight(_, _) => true,
        TokenModel::CornerBottomLeft(_, _) => true,
        TokenModel::CornerBottomRight(_, _) => true,
        TokenModel::Piece(_) => true,
        TokenModel::IfState(_, _) => true,
        _ => false,
    }
}

/// The truth value a predicate token reads off the board at the current
/// anchor.
pub open spec fn pred_value(b: BoardModel, t: TokenModel, ax: int, ay: int) -> bool {
    match t {
        TokenModel::Observe(dx, dy) => b.is_empty(b.piece_x + ax + dx, b.piece_y + ay + dy),
        TokenModel::Peek(dx, dy) => b.is_empty(b.piece_x + ax + dx, b.piece_y + ay + dy),
        TokenModel::Enemy(dx, dy) => b.has_enemy(b.piece_x + ax + dx, b.piece_y + ay + dy),
        TokenModel::Friendly(dx, dy) => b.has_friendly(b.piece_x + ax + dx, b.piece_y + ay + dy),
        TokenModel::PieceOn(name, dx, dy) => b.has_piece(
            b.piece_x + ax + dx,
            b.piece_y + ay + dy,
            name,
        ),
        TokenModel::Danger(dx, dy) => b.has_danger(b.piece_x + ax + dx, b.piece_y + ay + dy),
        TokenModel::Check => b.in_check,
        TokenModel::Bound(dx, dy) => !b.in_bounds(b.piece_x + ax + dx, b.piece_y + ay + dy),
        TokenModel::Edge(dx, dy) => {
            let tx = b.piece_x + ax + dx;
            let ty = b.piece_y + ay + dy;
            tx < 0 || tx >= b.width || ty < 0 || ty >= b.height
        },
        TokenModel::EdgeTop(dx, dy) => b.piece_y + ay + dy >= b.height,
        TokenModel::EdgeBottom(dx, dy) => b.piece_y + ay + dy < 0,
        TokenModel::EdgeLeft(dx, dy) => b.piece_x + ax + dx < 0,
        TokenModel::EdgeRight(dx, dy) => b.piece_x + ax + dx >= b.width,
        TokenModel::Corner(dx, dy) => {
            let tx = b.piece_x + ax + dx;
            let ty = b.piece_y + ay + dy;
            (tx < 0 || tx >= b.width) && (ty < 0 || ty >= b.height)
        },
        TokenModel::CornerTopLeft(dx, dy) => b.piece_x + ax + dx < 0 && b.piece_y + ay + dy
            >= b.height,
        TokenModel::CornerTopRight(dx, dy) => b.piece_x + ax + dx >= b.width && b.piece_y + ay + dy
            >= b.height,
        TokenModel::CornerBottomLeft(dx, dy) => b.piece_x + ax + dx < 0 && b.piece_y + ay + dy < 0,
        TokenModel::CornerBottomRight(dx, dy) => b.piece_x + ax + dx >= b.width && b.piece_y + ay
            + dy < 0,
        TokenModel::Piece(name) => b.piece_name == name,
        TokenModel::IfState(key, expected) => b.state_val(key) == expected,
        _ => true,
    }
}

pub open spec fn disp_pred(b: BoardModel, t: TokenModel, s: Cfg) -> Cfg {
    let l = pred_value(b, t, s.ax, s.ay);
    match t {
        TokenModel::Peek(dx, dy) => Cfg { ax: s.ax + dx, ay: s.ay + dy, last: l, ..s },
        _ => Cfg { last: l, ..s },
    }
}

/// The deferred-tag operators.
pub open spec fn is_tag_op(t: TokenModel) -> bool {
    match t {
        TokenModel::SetState(_, _) => true,
        TokenModel::SetStateReset => true,
        TokenModel::Transition(_) => true,
        _ => false,
    }
}

pub open spec fn disp_tag(t: TokenModel, s: Cfg) -> Cfg {
    match t {
        TokenModel::SetState(key, value) => Cfg {
            pending: s.pending.push(
                TagModel {
                    tag_type: ActionTagType::SetState,
                    key: key,
                    value: value,
                    piece_name: Option::None,
                },
            ),
            last: true,
            ..s
        },
        TokenModel::SetStateReset => Cfg {
            pending: if s.pending.len() > 0 {
                s.pending.drop_last()
            } else {
                s.pending
            },
            last: true,
            ..s
        },
        TokenModel::Transition(name) => Cfg {
            pending: s.pending.push(
                TagModel {
                    tag_type: ActionTagType::Transition,
                    key: Seq::empty(),
                    value: 0,
                    piece_name: Option::Some(name),
                },
            ),
            last: true,
            ..s
        },
        _ => s,
    }
}

/// The control operators: loops, jumps and the bus manipulations.
pub open spec fn disp_control(toks: Seq<TokenModel>, t: TokenModel, s: Cfg) -> Cfg {
    match t {
        TokenModel::Repeat(n) => {
            if s.last && n > 0 {
                Cfg {
                    pc: if s.pc > n {
                        s.pc - n - 1
                    } else {
                        0int
                    },
                    ..s
                }
            } else {
                s
            }
        },
        TokenModel::Do => {
            if s.last {
                Cfg { do_pc: Option::Some(s.pc), ..s }
            } else {
                s
            }
        },
        TokenModel::While => {
            match s.do_pc {
                Option::Some(target) if s.last => Cfg { pc: target, last: true, ..s },
                _ => Cfg { last: true, ..s },
            }
        },
        TokenModel::Jmp(name) => {
            if s.last {
                match label_lookup(toks, s.chain, name) {
                    Option::Some(target) => Cfg { pc: target, last: true, ..s },
                    Option::None => Cfg { failed: true, last: true, ..s },
                }
            } else {
                Cfg { last: true, ..s }
            }
        },
        TokenModel::Jne(name) => {
            if !s.last {
                match label_lookup(toks, s.chain, name) {
                    Option::Some(target) => Cfg { pc: target, last: true, ..s },
                    Option::None => Cfg { failed: true, last: true, ..s },
                }
            } else {
                Cfg { last: true, ..s }
            }
        },
        TokenModel::Label(_) => s,
        TokenModel::Not => Cfg { last: !s.last, ..s },
        TokenModel::End => Cfg { last: false, ..s },
        _ => s,
    }
}

/// The effect of one dispatched token `t` on configuration `s`, whose `pc`
/// already points past `t`.
pub open spec fn dispatch(toks: Seq<TokenModel>, b: BoardModel, t: TokenModel, s: Cfg) -> Cfg {
    if is_structural(t) {
        disp_structural(t, s)
    } else if is_move_op(t) {
        disp_move(b, t, s)
    } else if is_pred_op(t) {
        disp_pred(b, t, s)
    } else if is_tag_op(t) {
        disp_tag(t, s)
    } else {
        disp_control(toks, t, s)
    }
}

/// One step: read the token under `pc`, advance `pc`, then either abandon the
/// chain (bus false at a non-exception opcode) or dispatch the token.
pub open spec fn step(toks: Seq<TokenModel>, b: BoardModel, s: Cfg) -> Cfg
    recommends
        0 <= s.pc < toks.len(),
{
    let t = toks[s.pc];
    let s1 = Cfg { pc: s.pc + 1, ..s };
    if !s.last && !is_exception(t) {
        Cfg { last: true, ..skip(toks, s1) }
    } else {
        dispatch(toks, b, t, s1)
    }
}

/// Whether a configuration dispatches no further token.
pub open spec fn stopped(toks: Seq<TokenModel>, s: Cfg) -> bool {
    s.failed || s.pc < 0 || s.pc >= toks.len()
}

/// `fuel`-bounded iteration of `step`.
pub open spec fn run(toks: Seq<TokenModel>, b: BoardModel, s: Cfg, fuel: nat) -> Cfg
    decreases fuel,
{
    if stopped(toks, s) || fuel == 0 {
        s
    } else {
        run(toks, b, step(toks, b, s), (fuel - 1) as nat)
    }
}

/// What `execute` returns for a token stream on a board: the emitted
/// activations in order, `None` when a jump names an undefined label, and an
/// empty list when the opcode budget runs out first.
pub open spec fn interp_outcome(toks: Seq<TokenModel>, b: BoardModel) -> Option<
    Seq<ActivationModel>,
> {
    let fin = run(toks, b, init_cfg(), FUEL as nat);
    if fin.failed {
        Option::None
    } else if fin.pc >= toks.len() {
        Option::Some(fin.acts)
    } else {
        Option::Some(Seq::empty())
    }
}

/// Whether an integer fits the machine range token arguments come from.
pub open spec fn in_i32(v: int) -> bool {
    i32::MIN <= v <= i32::MAX
}

/// Whether a token's integer arguments fit that range.
pub open spec fn tok_args_i32(t: TokenModel) -> bool {
    match t {
        TokenModel::TakeMove(dx, dy) => in_i32(dx) && in_i32(dy),
        TokenModel::Move(dx, dy) => in_i32(dx) && in_i32(dy),
        TokenModel::Take(dx, dy) => in_i32(dx) && in_i32(dy),
        TokenModel::Catch(dx, dy) => in_i32(dx) && in_i32(dy),
        TokenModel::Shift(dx, dy) => in_i32(dx) && in_i32(dy),
        TokenModel::Jump(dx, dy) => in_i32(dx) && in_i32(dy),
        TokenModel::Anchor(dx, dy) => in_i32(dx) && in_i32(dy),
        TokenModel::Observe(dx, dy) => in_i32(dx) && in_i32(dy),
        TokenModel::Peek(dx, dy) => in_i32(dx) && in_i32(dy),
        TokenModel::Enemy(dx, dy) => in_i32(dx) && in_i32(dy),
        TokenModel::Friendly(dx, dy) => in_i32(dx) && in_i32(dy),
        TokenModel::PieceOn(_, dx, dy) => in_i32(dx) && in_i32(dy),
        TokenModel::Danger(dx, dy) => in_i32(dx) && in_i32(dy),
        TokenModel::Bound(dx, dy) => in_i32(dx) && in_i32(dy),
        TokenModel::Edge(dx, dy) => in_i32(dx) && in_i32(dy),
        TokenModel::EdgeTop(dx, dy) => in_i32(dx) && in_i32(dy),
        TokenModel::EdgeBottom(dx, dy) => in_i32(dx) && in_i32(dy),
        TokenModel::EdgeLeft(dx, dy) => in_i32(dx) && in_i32(dy),
        TokenModel::EdgeRight(dx, dy) => in_i32(dx) && in_i32(dy),
        TokenModel::Corner(dx, dy) => in_i32(dx) && in_i32(dy),
        TokenModel::CornerTopLeft(dx, dy) => in_i32(dx) && in_i32(dy),
        TokenModel::CornerTopRight(dx, dy) => in_i32(dx) && in_i32(dy),
        TokenModel::CornerBottomLeft(dx, dy) => in_i32(dx) && in_i32(dy),
        TokenModel::CornerBottomRight(dx, dy) => in_i32(dx) && in_i32(dy),
        TokenModel::IfState(_, v) => in_i32(v),
        TokenModel::SetState(_, v) => in_i32(v),
        _ => true,
    }
}

pub open spec fn toks_args_i32(toks: Seq<TokenModel>) -> bool {
    forall|k: int| 0 <= k < toks.len() ==> tok_args_i32(#[trigger] toks[k])
}

/// Structural sanity of a configuration against its token stream: every
/// stored program counter stays within the stream.
pub open spec fn cfg_wf(toks: Seq<TokenModel>, s: Cfg) -> bool {
    &&& 0 <= s.pc <= toks.len()
    &&& match s.do_pc {
        Option::Some(p) => 0 <= p <= toks.len(),
        Option::None => true,
    }
    &&& forall|k: int|
        0 <= k < s.scopes.len() ==> 0 <= (#[trigger] s.scopes[k]).2 <= toks.len()
    &&& 0 <= s.open_depth
    &&& 0 <= s.chain
}

/// Every anchor-valued component lies within `[-m, m]`.
pub open spec fn cfg_anchors_bounded(s: Cfg, m: int) -> bool {
    &&& -m <= s.ax <= m
    &&& -m <= s.ay <= m
    &&& forall|k: int|
        0 <= k < s.scopes.len() ==> -m <= (#[trigger] s.scopes[k]).0 <= m && -m <= s.scopes[k].1
            <= m
}

/// Every label-table entry points just past its `label` token, within the
/// chain the label was defined in.
pub open spec fn entry_ok(toks: Seq<TokenModel>, e: (int, Seq<char>, int)) -> bool {
    &&& 0 < e.2 <= toks.len()
    &&& toks[e.2 - 1] == TokenModel::Label(e.1)
    &&& chain_at(toks, e.2 - 1) == e.0
    &&& chain_at(toks, e.2) == e.0
}

pub proof fn lemma_label_entries_ok(toks: Seq<TokenModel>, n: int)
    requires
        0 <= n <= toks.len(),
    ensures
        forall|k: int|
            0 <= k < label_entries(toks, n).len() ==> entry_ok(
                toks,
                #[trigger] label_entries(toks, n)[k],
            ),
    decreases n,
{
    if n > 0 {
        lemma_label_entries_ok(toks, n - 1);
        let rest = label_entries(toks, n - 1);
        match toks[n - 1] {
            TokenModel::Label(name) => {
                let e = (chain_at(toks, n - 1), name, n);
                assert(chain_at(toks, n) == chain_at(toks, n - 1));
                assert(entry_ok(toks, e));
                assert forall|k: int| 0 <= k < rest.push(e).len() implies entry_ok(
                    toks,
                    #[trigger] rest.push(e)[k],
                ) by {
                    if k < rest.len() {
                        assert(rest.push(e)[k] == rest[k]);
                    }
                }
            },
            _ => {},
        }
    }
}

proof fn lemma_lookup_entries_mem(es: Seq<(int, Seq<char>, int)>, chain: int, name: Seq<char>)
    ensures
        match lookup_entries(es, chain, name) {
            Option::Some(t) => exists|k: int|
                0 <= k < es.len() && #[trigger] es[k] == (chain, name, t),
            Option::None => true,
        },
    decreases es.len(),
{
    if es.len() > 0 {
        if es.last().0 == chain && es.last().1 == name {
            assert(es[es.len() - 1] == (chain, name, es.last().2));
        } else {
            lemma_lookup_entries_mem(es.drop_last(), chain, name);
            match lookup_entries(es.drop_last(), chain, name) {
                Option::Some(t) => {
                    let k = choose|k: int|
                        0 <= k < es.drop_last().len() && #[trigger] es.drop_last()[k] == (
                            chain,
                            name,
                            t,
                        );
                    assert(es[k] == (chain, name, t));
                },
                Option::None => {},
            }
        }
    }
}

/// A successful label lookup lands just past a `label` token of the same
/// chain: control never crosses a `;` boundary by jumping.
pub proof fn lemma_label_lookup_props(toks: Seq<TokenModel>, chain: int, name: Seq<char>)
    ensures
        match label_lookup(toks, chain, name) {
            Option::Some(t) => 0 < t <= toks.len() && toks[t - 1] == TokenModel::Label(name)
                && chain_at(toks, t - 1) == chain && chain_at(toks, t) == chain,
            Option::None => true,
        },
{
    let es = label_entries(toks, toks.len() as int);
    lemma_label_entries_ok(toks, toks.len() as int);
    lemma_lookup_entries_mem(es, chain, name);
    match lookup_entries(es, chain, name) {
        Option::Some(t) => {
            let k = choose|k: int| 0 <= k < es.len() && #[trigger] es[k] == (chain, name, t);
            assert(entry_ok(toks, es[k]));
        },
        Option::None => {},
    }
}

/// `skip` stays within the stream, keeps anchors bounded, advances the chain
/// index at most once, and grows the open-brace counter by at most the
/// distance walked.
pub proof fn lemma_skip_preserves(toks: Seq<TokenModel>, s: Cfg, m: int)
    requires
        cfg_wf(toks, s),
        cfg_anchors_bounded(s, m),
        m >= 0,
    ensures
        cfg_wf(toks, skip(toks, s)),
        cfg_anchors_bounded(skip(toks, s), m),
        s.pc <= skip(toks, s).pc,
        s.chain <= skip(toks, s).chain <= s.chain + 1,
        skip(toks, s).open_depth <= s.open_depth + (skip(toks, s).pc - s.pc),
        skip(toks, s).failed == s.failed,
        skip(toks, s).acts == s.acts,
    decreases toks.len() - s.pc,
{
    if s.pc < 0 || s.pc >= toks.len() {
    } else {
        match toks[s.pc] {
            TokenModel::Semicolon => {},
            TokenModel::CloseBrace => {
                if s.open_depth > 0 {
                    lemma_skip_preserves(
                        toks,
                        Cfg { pc: s.pc + 1, open_depth: s.open_depth - 1, ..s },
                        m,
                    );
                }
            },
            TokenModel::OpenBrace => {
                lemma_skip_preserves(
                    toks,
                    Cfg { pc: s.pc + 1, open_depth: s.open_depth + 1, ..s },
                    m,
                );
            },
            _ => {
                lemma_skip_preserves(toks, Cfg { pc: s.pc + 1, ..s }, m);
            },
        }
    }
}

/// Common shape of the preservation facts: the configuration stays
/// well-formed against the stream, anchors grow by at most one token
/// argument, the chain index advances at most once, and the open-brace
/// counter does not grow outside `skip`.
pub open spec fn preserved(toks: Seq<TokenModel>, s: Cfg, d: Cfg, m: int) -> bool {
    &&& cfg_wf(toks, d)
    &&& cfg_anchors_bounded(d, m + 0x1_0000_0000)
    &&& s.chain <= d.chain <= s.chain + 1
    &&& 0 <= d.open_depth <= s.open_depth + toks.len()
}

proof fn lemma_disp_structural(toks: Seq<TokenModel>, t: TokenModel, s: Cfg, m: int)
    requires
        cfg_wf(toks, s),
        cfg_anchors_bounded(s, m),
        m >= 0,
    ensures
        preserved(toks, s, disp_structural(t, s), m),
{
}

proof fn lemma_disp_move(toks: Seq<TokenModel>, b: BoardModel, t: TokenModel, s: Cfg, m: int)
    requires
        cfg_wf(toks, s),
        cfg_anchors_bounded(s, m),
        tok_args_i32(t),
        m >= 0,
    ensures
        preserved(toks, s, disp_move(b, t, s), m),
{
}

proof fn lemma_disp_pred(toks: Seq<TokenModel>, b: BoardModel, t: TokenModel, s: Cfg, m: int)
    requires
        cfg_wf(toks, s),
        cfg_anchors_bounded(s, m),
        tok_args_i32(t),
        m >= 0,
    ensures
        preserved(toks, s, disp_pred(b, t, s), m),
{
}

proof fn lemma_disp_tag(toks: Seq<TokenModel>, t: TokenModel, s: Cfg, m: int)
    requires
        cfg_wf(toks, s),
        cfg_anchors_bounded(s, m),
        m >= 0,
    ensures
        preserved(toks, s, disp_tag(t, s), m),
{
}

proof fn lemma_disp_control(toks: Seq<TokenModel>, t: TokenModel, s: Cfg, m: int)
    requires
        cfg_wf(toks, s),
        cfg_anchors_bounded(s, m),
        m >= 0,
    ensures
        preserved(toks, s, disp_control(toks, t, s), m),
{
    match t {
        TokenModel::Jmp(nm) => {
            lemma_label_lookup_props(toks, s.chain, nm);
        },
        TokenModel::Jne(nm) => {
            lemma_label_lookup_props(toks, s.chain, nm);
        },
        _ => {},
    }
}

/// One step stays within the stream, grows anchors by at most one token
/// argument, advances the chain index at most once, and grows the open-brace
/// counter by at most the stream length.
pub proof fn lemma_step_preserves(toks: Seq<TokenModel>, b: BoardModel, s: Cfg, m: int)
    requires
        cfg_wf(toks, s),
        cfg_anchors_bounded(s, m),
        toks_args_i32(toks),
        0 <= s.pc < toks.len(),
        m >= 0,
    ensures
        preserved(toks, s, step(toks, b, s), m),
{
    let t = toks[s.pc];
    let s1 = Cfg { pc: s.pc + 1, ..s };
    assert(tok_args_i32(t));
    assert(cfg_wf(toks, s1));
    if !s.last && !is_exception(t) {
        lemma_skip_preserves(toks, s1, m);
    } else if is_structural(t) {
        lemma_disp_structural(toks, t, s1, m);
    } else if is_move_op(t) {
        lemma_disp_move(toks, b, t, s1, m);
    } else if is_pred_op(t) {
        lemma_disp_pred(toks, b, t, s1, m);
    } else if is_tag_op(t) {
        lemma_disp_tag(toks, t, s1, m);
    } else {
        lemma_disp_control(toks, t, s1, m);
    }
}

/// Running one more step applies `step` to the end of the run, as long as the
/// run has not stopped.
pub proof fn lemma_run_snoc(toks: Seq<TokenModel>, b: BoardModel, s: Cfg, fuel: nat)
    ensures
        stopped(toks, run(toks, b, s, fuel)) ==> run(toks, b, s, (fuel + 1) as nat) == run(
            toks,
            b,
            s,
            fuel,
        ),
        !stopped(toks, run(toks, b, s, fuel)) ==> run(toks, b, s, (fuel + 1) as nat) == step(
            toks,
            b,
            run(toks, b, s, fuel),
        ),
    decreases fuel,
{
    if stopped(toks, s) {
    } else if fuel == 0 {
        assert(run(toks, b, s, fuel) == s);
        assert(run(toks, b, s, (fuel + 1) as nat) == run(toks, b, step(toks, b, s), 0));
    } else {
        lemma_run_snoc(toks, b, step(toks, b, s), (fuel - 1) as nat);
        assert(run(toks, b, s, (fuel + 1) as nat) == run(
            toks,
            b,
            step(toks, b, s),
            fuel,
        ));
    }
}

/// A stopped run stays put under more fuel.
pub proof fn lemma_run_stopped(toks: Seq<TokenModel>, b: BoardModel, s: Cfg, f1: nat, f2: nat)
    requires
        f1 <= f2,
        stopped(toks, run(toks, b, s, f1)),
    ensures
        run(toks, b, s, f2) == run(toks, b, s, f1),
    decreases f2 - f1,
{
    if f1 < f2 {
        lemma_run_snoc(toks, b, s, f1);
        lemma_run_stopped(toks, b, s, (f1 + 1) as nat, f2);
    }
}

} // verus!
