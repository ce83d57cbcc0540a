//! The global laws of the interpreter's semantics, stated over the ghost
//! configurations of `semantics` and proved once and for all.

use vstd::prelude::*;

use crate::board::BoardModel;
use crate::semantics::{
    chain_at, disp_control, disp_move, disp_pred, disp_structural, disp_tag, is_exception,
    is_move_op, is_pred_op, is_structural, is_tag_op, label_lookup, lemma_label_lookup_props,
    lemma_skip_preserves, skip, step, Cfg, cfg_anchors_bounded, cfg_wf,
};
use crate::tokens::{ActionTagType, TagModel, TokenModel};

verus! {

/// Chain boundary reset: dispatching a `;` clears the anchor, the pending
/// tags, the `do` anchor and the take square, advances the chain index and
/// sets the bus true.
pub proof fn law_chain_boundary_reset(toks: Seq<TokenModel>, b: BoardModel, s: Cfg)
    requires
        0 <= s.pc < toks.len(),
        toks[s.pc] is Semicolon,
    ensures
        step(toks, b, s).ax == 0,
        step(toks, b, s).ay == 0,
        step(toks, b, s).pending == Seq::<TagModel>::empty(),
        step(toks, b, s).do_pc is None,
        step(toks, b, s).take_sq is None,
        step(toks, b, s).last,
        step(toks, b, s).chain == s.chain + 1,
{
}

/// The same reset holds when a chain is abandoned: whenever `skip` crosses a
/// chain boundary, the anchor and the deferred state come out cleared.
pub proof fn law_skip_chain_reset(toks: Seq<TokenModel>, s: Cfg)
    requires
        0 <= s.pc,
        skip(toks, s).chain > s.chain,
    ensures
        skip(toks, s).ax == 0,
        skip(toks, s).ay == 0,
        skip(toks, s).pending == Seq::<TagModel>::empty(),
        skip(toks, s).do_pc is None,
        skip(toks, s).take_sq is None,
    decreases toks.len() - s.pc,
{
    if s.pc < toks.len() {
        match toks[s.pc] {
            TokenModel::Semicolon => {},
            TokenModel::CloseBrace => {
                if s.open_depth > 0 {
                    law_skip_chain_reset(
                        toks,
                        Cfg { pc: s.pc + 1, open_depth: s.open_depth - 1, ..s },
                    );
                }
            },
            TokenModel::OpenBrace => {
                law_skip_chain_reset(toks, Cfg { pc: s.pc + 1, open_depth: s.open_depth + 1, ..s });
            },
            _ => {
                law_skip_chain_reset(toks, Cfg { pc: s.pc + 1, ..s });
            },
        }
    }
}

/// Scope entry: a dispatched `{` saves the current anchor (with the return
/// position) on the scope stack and leaves the anchor itself in place.
pub proof fn law_scope_push(toks: Seq<TokenModel>, b: BoardModel, s: Cfg)
    requires
        0 <= s.pc < toks.len(),
        toks[s.pc] is OpenBrace,
        s.last,
    ensures
        step(toks, b, s).scopes == s.scopes.push((s.ax, s.ay, s.pc + 1)),
        step(toks, b, s).ax == s.ax,
        step(toks, b, s).ay == s.ay,
        step(toks, b, s).last,
{
}

/// Scope exit: a dispatched `}` restores exactly the anchor that the
/// matching `{` saved on top of the stack, and pops that frame.
pub proof fn law_scope_pop(toks: Seq<TokenModel>, b: BoardModel, s: Cfg)
    requires
        0 <= s.pc < toks.len(),
        toks[s.pc] is CloseBrace,
        s.scopes.len() > 0,
    ensures
        step(toks, b, s).ax == s.scopes.last().0,
        step(toks, b, s).ay == s.scopes.last().1,
        step(toks, b, s).scopes == s.scopes.drop_last(),
        step(toks, b, s).last,
{
}

/// Short-circuit: once the bus is false at a non-exception opcode, the rest
/// of the chain is abandoned in a single step that emits no activation and
/// leaves the pending tags, and the bus comes out true again.
pub proof fn law_short_circuit(toks: Seq<TokenModel>, b: BoardModel, s: Cfg, m: int)
    requires
        0 <= s.pc < toks.len(),
        !s.last,
        !is_exception(toks[s.pc]),
        cfg_wf(toks, s),
        cfg_anchors_bounded(s, m),
        m >= 0,
    ensures
        step(toks, b, s).acts == s.acts,
        step(toks, b, s).last,
        step(toks, b, s).pc > s.pc,
{
    lemma_skip_preserves(toks, Cfg { pc: s.pc + 1, ..s }, m);
}

/// Tag ordering, appending: a dispatched `transition` or `set-state` appends
/// exactly one tag of its kind to the pending list.
pub proof fn law_tag_append(toks: Seq<TokenModel>, b: BoardModel, s: Cfg)
    requires
        0 <= s.pc < toks.len(),
        s.last,
    ensures
        (match toks[s.pc] {
            TokenModel::Transition(nm) => step(toks, b, s).pending == s.pending.push(
                TagModel {
                    tag_type: ActionTagType::Transition,
                    key: Seq::empty(),
                    value: 0,
                    piece_name: Option::Some(nm),
                },
            ),
            TokenModel::SetState(k, v) => step(toks, b, s).pending == s.pending.push(
                TagModel {
                    tag_type: ActionTagType::SetState,
                    key: k,
                    value: v,
                    piece_name: Option::None,
                },
            ),
            TokenModel::SetStateReset => step(toks, b, s).pending == (if s.pending.len() > 0 {
                s.pending.drop_last()
            } else {
                s.pending
            }),
            _ => true,
        }),
{
}

/// Tag ordering, snapshot: whatever a step emits carries the pending tags
/// exactly as they stood when the operator fired.
pub proof fn law_emitted_tags(toks: Seq<TokenModel>, b: BoardModel, s: Cfg, m: int)
    requires
        0 <= s.pc < toks.len(),
        cfg_wf(toks, s),
        cfg_anchors_bounded(s, m),
        m >= 0,
    ensures
        step(toks, b, s).acts.len() > s.acts.len() ==> step(toks, b, s).acts.last().tags
            == s.pending,
        step(toks, b, s).acts.len() <= s.acts.len() + 1,
{
    let t = toks[s.pc];
    let s1 = Cfg { pc: s.pc + 1, ..s };
    if !s.last && !is_exception(t) {
        lemma_skip_preserves(toks, s1, m);
    } else if is_structural(t) {
        assert(disp_structural(t, s1).acts == s.acts);
    } else if is_move_op(t) {
    } else if is_pred_op(t) {
        assert(disp_pred(b, t, s1).acts == s.acts);
    } else if is_tag_op(t) {
        assert(disp_tag(t, s1).acts == s.acts);
    } else {
        assert(disp_control(toks, t, s1).acts == s.acts);
    }
}

/// Label scoping: a label lookup made from chain `c` only ever lands just
/// past a `label` of chain `c`, so `jmp` and `jne` never cross a `;`.
pub proof fn law_label_scoping(toks: Seq<TokenModel>, chain: int, name: Seq<char>)
    ensures
        match label_lookup(toks, chain, name) {
            Option::Some(t) => 0 < t <= toks.len() && toks[t - 1] == TokenModel::Label(name)
                && chain_at(toks, t - 1) == chain && chain_at(toks, t) == chain,
            Option::None => true,
        },
{
    lemma_label_lookup_props(toks, chain, name);
}

/// Label scoping at the step level: a taken jump lands within the chain the
/// machine is in.
pub proof fn law_jump_stays_in_chain(toks: Seq<TokenModel>, b: BoardModel, s: Cfg)
    requires
        0 <= s.pc < toks.len(),
        s.last,
        toks[s.pc] is Jmp,
        !step(toks, b, s).failed,
    ensures
        chain_at(toks, step(toks, b, s).pc) == s.chain,
        step(toks, b, s).chain == s.chain,
{
    match toks[s.pc] {
        TokenModel::Jmp(nm) => {
            lemma_label_lookup_props(toks, s.chain, nm);
        },
        _ => {},
    }
}

/// The token stream of a plain slider: one `take-move` looped by `repeat(1)`
/// until its chain dies.
pub open spec fn slide_tokens(dx: int, dy: int) -> Seq<TokenModel> {
    seq![TokenModel::TakeMove(dx, dy), TokenModel::Repeat(1), TokenModel::Semicolon]
}

/// The activations a slide of `k` squares emits: every multiple of the
/// direction, in order, each bare of tags.
pub open spec fn slide_acts(k: nat, dx: int, dy: int) -> Seq<crate::tokens::ActivationModel> {
    Seq::new(
        k,
        |i: int|
            crate::tokens::ActivationModel {
                dx: (i + 1) * dx,
                dy: (i + 1) * dy,
                move_type: crate::tokens::MoveType::TakeMove,
                tags: Seq::empty(),
                catch_to: Option::None,
            },
    )
}

/// The machine after `k` empty slide squares: back at the start of the
/// stream with the anchor advanced `k` times and `k` activations out.
pub open spec fn slide_cfg(k: nat, dx: int, dy: int) -> Cfg {
    Cfg {
        pc: 0,
        chain: 0,
        ax: k * dx,
        ay: k * dy,
        last: true,
        pending: Seq::empty(),
        do_pc: Option::None,
        take_sq: Option::None,
        scopes: Seq::empty(),
        open_depth: 0,
        acts: slide_acts(k, dx, dy),
        failed: false,
    }
}

/// One slide iteration over an empty square: a `take-move` dispatch and the
/// `repeat` jump back.
proof fn lemma_slide_step_pair(b: BoardModel, dx: int, dy: int, k: nat)
    requires
        b.is_empty(b.piece_x + (k + 1) * dx, b.piece_y + (k + 1) * dy),
    ensures
        step(
            slide_tokens(dx, dy),
            b,
            step(slide_tokens(dx, dy), b, slide_cfg(k, dx, dy)),
        ) == slide_cfg((k + 1) as nat, dx, dy),
{
    reveal(BoardModel::is_empty);
    reveal(BoardModel::has_friendly);
    reveal(BoardModel::has_enemy);
    let toks = slide_tokens(dx, dy);
    let s = slide_cfg(k, dx, dy);
    let tx = b.piece_x + s.ax + dx;
    let ty = b.piece_y + s.ay + dy;
    assert((k + 1) * dx == k * dx + dx && (k + 1) * dy == k * dy + dy) by (nonlinear_arith);
    assert(tx == b.piece_x + (k + 1) * dx && ty == b.piece_y + (k + 1) * dy);
    assert(!b.has_friendly(tx, ty) && !b.has_enemy(tx, ty) && b.in_bounds(tx, ty));
    let s1 = step(toks, b, s);
    assert(s1 == disp_move(b, toks[0], Cfg { pc: 1, ..s }));
    assert(s1.acts =~= slide_acts((k + 1) as nat, dx, dy)) by {
        assert((k + 1) * dx == k * dx + dx && (k + 1) * dy == k * dy + dy) by (nonlinear_arith);
    }
    let s2 = step(toks, b, s1);
    assert(s2 == disp_control(toks, toks[1], Cfg { pc: 2, ..s1 }));
    assert(s2.ax == (k + 1) * dx && s2.ay == (k + 1) * dy);
    assert(s2 =~= slide_cfg((k + 1) as nat, dx, dy));
}

/// Running the slide over `k` empty squares lands the machine exactly at
/// `slide_cfg(k)`, spending two fuel per square.
proof fn lemma_slide_run_to(b: BoardModel, dx: int, dy: int, k: nat, fuel: nat)
    requires
        forall|i: int|
            1 <= i <= k ==> #[trigger] b.is_empty(b.piece_x + i * dx, b.piece_y + i * dy),
        2 * k <= fuel,
    ensures
        crate::semantics::run(slide_tokens(dx, dy), b, crate::semantics::init_cfg(), fuel)
            == crate::semantics::run(
            slide_tokens(dx, dy),
            b,
            slide_cfg(k, dx, dy),
            (fuel - 2 * k) as nat,
        ),
    decreases k,
{
    let toks = slide_tokens(dx, dy);
    if k == 0 {
        assert(slide_acts(0, dx, dy) =~= Seq::<crate::tokens::ActivationModel>::empty());
        assert(0 * dx == 0 && 0 * dy == 0) by (nonlinear_arith);
        assert(slide_cfg(0, dx, dy) =~= crate::semantics::init_cfg());
    } else {
        lemma_slide_run_to(b, dx, dy, (k - 1) as nat, fuel);
        let s = slide_cfg((k - 1) as nat, dx, dy);
        let f = (fuel - 2 * (k - 1)) as nat;
        assert(b.is_empty(b.piece_x + ((k - 1) + 1) * dx, b.piece_y + ((k - 1) + 1) * dy));
        lemma_slide_step_pair(b, dx, dy, (k - 1) as nat);
        let s1 = step(toks, b, s);
        assert(crate::semantics::run(toks, b, s, f) == crate::semantics::run(
            toks,
            b,
            s1,
            (f - 1) as nat,
        ));
        assert(crate::semantics::run(toks, b, s1, (f - 1) as nat) == crate::semantics::run(
            toks,
            b,
            step(toks, b, s1),
            (f - 2) as nat,
        ));
    }
}

/// Slide determinism, blocked run: on a board whose squares along the
/// direction are empty until a boundary or a friendly piece, the slider
/// emits exactly one activation per empty square, in order.
pub proof fn law_slide_blocked(b: BoardModel, dx: int, dy: int, n: nat)
    requires
        forall|i: int|
            1 <= i <= n ==> #[trigger] b.is_empty(b.piece_x + i * dx, b.piece_y + i * dy),
        !b.in_bounds(b.piece_x + (n + 1) * dx, b.piece_y + (n + 1) * dy) || b.has_friendly(
            b.piece_x + (n + 1) * dx,
            b.piece_y + (n + 1) * dy,
        ),
        2 * n + 2 <= crate::semantics::FUEL,
    ensures
        crate::semantics::interp_outcome(slide_tokens(dx, dy), b) == Option::Some(
            slide_acts(n, dx, dy),
        ),
{
    let toks = slide_tokens(dx, dy);
    let fuel = crate::semantics::FUEL as nat;
    lemma_slide_run_to(b, dx, dy, n, fuel);
    let s = slide_cfg(n, dx, dy);
    let f = (fuel - 2 * n) as nat;
    let tx = b.piece_x + s.ax + dx;
    let ty = b.piece_y + s.ay + dy;
    assert((n + 1) * dx == n * dx + dx && (n + 1) * dy == n * dy + dy) by (nonlinear_arith);
    assert(tx == b.piece_x + (n + 1) * dx && ty == b.piece_y + (n + 1) * dy);
    let s1 = step(toks, b, s);
    assert(s1 == Cfg { pc: 1, last: false, ..s });
    let s2 = step(toks, b, s1);
    assert(s2 == Cfg {
        last: true,
        ..crate::semantics::skip(toks, Cfg { pc: 2, ..s1 })
    });
    assert(s2.pc == 3 && !s2.failed && s2.acts == slide_acts(n, dx, dy));
    assert(crate::semantics::run(toks, b, s, f) == crate::semantics::run(
        toks,
        b,
        s1,
        (f - 1) as nat,
    ));
    assert(crate::semantics::run(toks, b, s1, (f - 1) as nat) == crate::semantics::run(
        toks,
        b,
        s2,
        (f - 2) as nat,
    ));
    assert(crate::semantics::run(toks, b, s2, (f - 2) as nat) == s2);
}

/// Slide determinism, capturing run: when the first stop is an enemy on the
/// board, a final capturing activation follows the run of empty squares.
pub proof fn law_slide_capture(b: BoardModel, dx: int, dy: int, n: nat)
    requires
        forall|i: int|
            1 <= i <= n ==> #[trigger] b.is_empty(b.piece_x + i * dx, b.piece_y + i * dy),
        b.in_bounds(b.piece_x + (n + 1) * dx, b.piece_y + (n + 1) * dy),
        b.has_enemy(b.piece_x + (n + 1) * dx, b.piece_y + (n + 1) * dy),
        2 * n + 3 <= crate::semantics::FUEL,
    ensures
        crate::semantics::interp_outcome(slide_tokens(dx, dy), b) == Option::Some(
            slide_acts((n + 1) as nat, dx, dy),
        ),
{
    reveal(BoardModel::has_friendly);
    reveal(BoardModel::has_enemy);
    let toks = slide_tokens(dx, dy);
    let fuel = crate::semantics::FUEL as nat;
    lemma_slide_run_to(b, dx, dy, n, fuel);
    let s = slide_cfg(n, dx, dy);
    let f = (fuel - 2 * n) as nat;
    let tx = b.piece_x + s.ax + dx;
    let ty = b.piece_y + s.ay + dy;
    assert((n + 1) * dx == n * dx + dx && (n + 1) * dy == n * dy + dy) by (nonlinear_arith);
    assert(tx == b.piece_x + (n + 1) * dx && ty == b.piece_y + (n + 1) * dy);
    assert(!b.has_friendly(tx, ty));
    let s1 = step(toks, b, s);
    assert(s1.pc == 1 && s1.last == false);
    assert(s1.acts =~= slide_acts((n + 1) as nat, dx, dy)) by {
        assert((n + 1) * dx == n * dx + dx && (n + 1) * dy == n * dy + dy) by (nonlinear_arith);
    }
    let s2 = step(toks, b, s1);
    assert(s2 == Cfg {
        last: true,
        ..crate::semantics::skip(toks, Cfg { pc: 2, ..s1 })
    });
    assert(s2.pc == 3 && !s2.failed && s2.acts == slide_acts((n + 1) as nat, dx, dy));
    assert(crate::semantics::run(toks, b, s, f) == crate::semantics::run(
        toks,
        b,
        s1,
        (f - 1) as nat,
    ));
    assert(crate::semantics::run(toks, b, s1, (f - 1) as nat) == crate::semantics::run(
        toks,
        b,
        s2,
        (f - 2) as nat,
    ));
    assert(crate::semantics::run(toks, b, s2, (f - 2) as nat) == s2);
}

} // verus!
