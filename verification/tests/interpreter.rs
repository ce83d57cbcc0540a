use chesstack::board::BoardState;
use chesstack::interp::Interpreter;
use chesstack::tokens::ActionTagType;

fn make_empty_board() -> BoardState {
    BoardState {
        board_width: 8,
        board_height: 8,
        piece_x: 4,
        piece_y: 4,
        piece_name: "test".to_string(),
        is_white: true,
        pieces: Vec::new(),
        state: Vec::new(),
        danger_squares: Vec::new(),
        in_check: false,
    }
}

#[test]
fn test_wazir() {
    let mut interp = Interpreter::new();
    interp.parse("take-move(1, 0); take-move(0, 1); take-move(-1, 0); take-move(0, -1);");
    let board = make_empty_board();
    let activations = interp.execute(&board).unwrap();

    assert_eq!(activations.len(), 4);
    assert!(activations.iter().any(|a| a.dx == 1 && a.dy == 0));
    assert!(activations.iter().any(|a| a.dx == 0 && a.dy == 1));
    assert!(activations.iter().any(|a| a.dx == -1 && a.dy == 0));
    assert!(activations.iter().any(|a| a.dx == 0 && a.dy == -1));
}

#[test]
fn test_rook_slide() {
    let mut interp = Interpreter::new();
    interp.parse("take-move(1, 0) repeat(1);");
    let board = make_empty_board();
    let activations = interp.execute(&board).unwrap();

    assert_eq!(activations.len(), 3);
    assert!(activations.iter().any(|a| a.dx == 1 && a.dy == 0));
    assert!(activations.iter().any(|a| a.dx == 2 && a.dy == 0));
    assert!(activations.iter().any(|a| a.dx == 3 && a.dy == 0));
}

#[test]
fn test_rook_blocked_by_friendly() {
    let mut interp = Interpreter::new();
    interp.parse("take-move(1, 0) repeat(1);");
    let mut board = make_empty_board();
    board.pieces.push(((6, 4), ("pawn".to_string(), true)));
    let activations = interp.execute(&board).unwrap();

    assert_eq!(activations.len(), 1);
    assert_eq!(activations[0].dx, 1);
}

#[test]
fn test_rook_capture_enemy() {
    let mut interp = Interpreter::new();
    interp.parse("take-move(1, 0) repeat(1);");
    let mut board = make_empty_board();
    board.pieces.push(((6, 4), ("pawn".to_string(), false)));
    let activations = interp.execute(&board).unwrap();

    assert_eq!(activations.len(), 2);
}

#[test]
fn test_move_only() {
    let mut interp = Interpreter::new();
    interp.parse("move(1, 0);");
    let mut board = make_empty_board();
    board.pieces.push(((5, 4), ("enemy".to_string(), false)));
    let activations = interp.execute(&board).unwrap();

    assert_eq!(activations.len(), 0);
}

#[test]
fn test_take_only() {
    let mut interp = Interpreter::new();
    interp.parse("take(1, 0);");
    let board = make_empty_board();
    let activations = interp.execute(&board).unwrap();

    assert_eq!(activations.len(), 0);
}

#[test]
fn test_scope_anchor_restore() {
    let mut interp = Interpreter::new();
    interp.parse("move(0, 1) { move(1, 1) } move(-1, 1);");
    let board = make_empty_board();
    let activations = interp.execute(&board).unwrap();

    assert_eq!(activations.len(), 3);
    assert!(activations.iter().any(|a| a.dx == 0 && a.dy == 1));
    assert!(activations.iter().any(|a| a.dx == 1 && a.dy == 2));
    assert!(activations.iter().any(|a| a.dx == -1 && a.dy == 2));
}

#[test]
fn test_observe_blocked_knight() {
    let mut interp = Interpreter::new();
    interp.parse("observe(1, 0) take-move(2, 1);");
    let mut board = make_empty_board();
    board.pieces.push(((5, 4), ("blocker".to_string(), true)));
    let activations = interp.execute(&board).unwrap();

    assert_eq!(activations.len(), 0);
}

#[test]
fn test_do_while_pattern() {
    let mut interp = Interpreter::new();
    interp.parse("do move(1, 0) while;");
    let board = make_empty_board();
    let activations = interp.execute(&board).unwrap();

    assert_eq!(activations.len(), 3);
}

#[test]
fn test_if_state() {
    let mut interp = Interpreter::new();
    interp.parse("if-state(mode, 0) move(1, 0);");
    let board = make_empty_board();
    let activations = interp.execute(&board).unwrap();

    assert_eq!(activations.len(), 1);
}

#[test]
fn test_if_state_false() {
    let mut interp = Interpreter::new();
    interp.parse("if-state(mode, 1) move(1, 0);");
    let board = make_empty_board();
    let activations = interp.execute(&board).unwrap();

    assert_eq!(activations.len(), 0);
}

#[test]
fn test_piece_condition() {
    let mut interp = Interpreter::new();
    interp.parse("piece(rook) move(1, 0);");
    let mut board = make_empty_board();
    board.piece_name = "rook".to_string();
    let activations = interp.execute(&board).unwrap();

    assert_eq!(activations.len(), 1);
}

#[test]
fn test_transition_tag() {
    let mut interp = Interpreter::new();
    interp.parse("transition(queen) move(1, 0);");
    let board = make_empty_board();
    let activations = interp.execute(&board).unwrap();

    assert_eq!(activations.len(), 1);
    assert_eq!(activations[0].tags.len(), 1);
    assert_eq!(activations[0].tags[0].tag_type, ActionTagType::Transition);
    assert_eq!(activations[0].tags[0].piece_name, Some("queen".to_string()));
}

#[test]
fn test_not() {
    let mut interp = Interpreter::new();
    interp.parse("observe(1, 0) not jne(SKIP) move(2, 0); label(SKIP) move(1, 0);");
    let mut board = make_empty_board();
    board.pieces.push(((5, 4), ("blocker".to_string(), true)));
    let activations = interp.execute(&board).unwrap();

    assert!(activations.len() >= 1);
}

#[test]
fn test_skip_chain_over_braces_until_semicolon() {
    let mut interp = Interpreter::new();
    interp.parse(
        "if-state(mode, 1) set-state(mode, 0) { take-move(1, 0) repeat(1) } { take-move(-1, 0) repeat(1) };",
    );
    let board = make_empty_board();
    let activations = interp.execute(&board).unwrap();
    assert_eq!(activations.len(), 0);
}

#[test]
fn test_jmp() {
    let mut interp = Interpreter::new();
    interp.parse(
        "piece(test) jmp(0) move(0, 1) label(0) piece(test) jmp(1) move(1, 0) move(1, 0) label(1); ",
    );
    let board = make_empty_board();

    let activations = interp.execute(&board).unwrap();
    assert_eq!(activations.len(), 0);
}

#[test]
fn test_jne() {
    let mut interp = Interpreter::new();
    interp.parse("piece(queen) jne(0) move(0, 1) label(0) move(1, 0) move(1, 0);");
    let board = make_empty_board();

    let activations = interp.execute(&board).unwrap();
    assert_eq!(activations.len(), 2);
}

#[test]
fn test_undefined_label_is_an_error() {
    let mut interp = Interpreter::new();
    interp.parse("piece(test) jmp(nowhere) move(0, 1);");
    let board = make_empty_board();
    assert!(interp.execute(&board).is_err());
}

#[test]
fn test_catch_in_place() {
    let mut interp = Interpreter::new();
    interp.parse("catch(2, 0);");
    let mut board = make_empty_board();
    board.pieces.push(((6, 4), ("pawn".to_string(), false)));
    let activations = interp.execute(&board).unwrap();
    assert_eq!(activations.len(), 1);
    assert_eq!(activations[0].dx, 2);
    assert_eq!(activations[0].move_type, chesstack::tokens::MoveType::Catch);
}

#[test]
fn test_cannon_jump_over_screen() {
    // A capture behind a screen: take slides to the screen, jump replaces it.
    let mut interp = Interpreter::new();
    interp.parse("do take(1, 0) enemy(0, 0) not while jump(1, 0) repeat(1);");
    let mut board = make_empty_board();
    board.pieces.push(((6, 4), ("screen".to_string(), false)));
    let activations = interp.execute(&board).unwrap();
    assert!(activations
        .iter()
        .any(|a| a.move_type == chesstack::tokens::MoveType::Jump
            && a.catch_to == Some((2, 0))));
}

#[test]
fn test_set_state_tag_value() {
    let mut interp = Interpreter::new();
    interp.parse("set-state(flag, 7) move(0, 1);");
    let board = make_empty_board();
    let activations = interp.execute(&board).unwrap();
    assert_eq!(activations.len(), 1);
    assert_eq!(activations[0].tags.len(), 1);
    assert_eq!(activations[0].tags[0].tag_type, ActionTagType::SetState);
    assert_eq!(activations[0].tags[0].key, "flag".to_string());
    assert_eq!(activations[0].tags[0].value, 7);
}

#[test]
fn test_set_state_reset_undoes_tag() {
    let mut interp = Interpreter::new();
    interp.parse("set-state(flag, 7) set-state() move(0, 1);");
    let board = make_empty_board();
    let activations = interp.execute(&board).unwrap();
    assert_eq!(activations.len(), 1);
    assert_eq!(activations[0].tags.len(), 0);
}

#[test]
fn test_edge_predicates() {
    let mut interp = Interpreter::new();
    // From (4,4), (4,0) is off the right edge after four steps; probe directly.
    interp.parse("edge-right(4, 0) jne(NO) move(0, 1) label(NO) move(1, 0);");
    let board = make_empty_board();
    let activations = interp.execute(&board).unwrap();
    // (4+4, 4) = (8, 4) is outside: edge-right is true, so move(0,1) runs.
    assert_eq!(activations.len(), 2);
    assert!(activations.iter().any(|a| a.dx == 0 && a.dy == 1));
}

#[test]
fn test_anchor_shifts_without_emitting() {
    let mut interp = Interpreter::new();
    interp.parse("anchor(2, 2) move(0, 1);");
    let board = make_empty_board();
    let activations = interp.execute(&board).unwrap();
    assert_eq!(activations.len(), 1);
    assert_eq!(activations[0].dx, 2);
    assert_eq!(activations[0].dy, 3);
}

#[test]
fn test_comments_and_unknown_words() {
    let mut interp = Interpreter::new();
    interp.parse("# a comment line\nmove(0, 1); # trailing\nnonsense move(1, 0);");
    let board = make_empty_board();
    let activations = interp.execute(&board).unwrap();
    // The unknown word reads as `end`, so its chain dies before move(1, 0).
    assert_eq!(activations.len(), 1);
    assert_eq!(activations[0].dy, 1);
}

#[test]
fn test_malformed_numbers_default_to_zero() {
    let mut interp = Interpreter::new();
    interp.parse("move(zero, 1);");
    let board = make_empty_board();
    let activations = interp.execute(&board).unwrap();
    assert_eq!(activations.len(), 1);
    assert_eq!(activations[0].dx, 0);
    assert_eq!(activations[0].dy, 1);
}

#[test]
fn test_rook_slide_capture_order() {
    // The slide emits the empty squares in walking order and the capture
    // last.
    let mut interp = Interpreter::new();
    interp.parse("take-move(1, 0) repeat(1);");
    let mut board = make_empty_board();
    board.pieces.push(((6, 4), ("pawn".to_string(), false)));
    let activations = interp.execute(&board).unwrap();
    assert_eq!(activations.len(), 2);
    assert_eq!((activations[0].dx, activations[0].dy), (1, 0));
    assert_eq!((activations[1].dx, activations[1].dy), (2, 0));
}

#[test]
fn test_jne_skips_over_label() {
    // The identity test fails, jne jumps past the first move, and only the
    // move after the label runs.
    let mut interp = Interpreter::new();
    interp.parse("piece(queen) jne(END) move(0, 1) label(END) move(1, 0);");
    let mut board = make_empty_board();
    board.piece_name = "knight".to_string();
    let activations = interp.execute(&board).unwrap();
    assert_eq!(activations.len(), 1);
    assert_eq!((activations[0].dx, activations[0].dy), (1, 0));
}

#[test]
fn test_scope_branch_order() {
    // The branch emits in walking order: trunk, scope, then the restored
    // trunk again.
    let mut interp = Interpreter::new();
    interp.parse("move(0, 1) { move(1, 1) } move(-1, 1);");
    let board = make_empty_board();
    let activations = interp.execute(&board).unwrap();
    assert_eq!(activations.len(), 3);
    assert_eq!((activations[0].dx, activations[0].dy), (0, 1));
    assert_eq!((activations[1].dx, activations[1].dy), (1, 2));
    assert_eq!((activations[2].dx, activations[2].dy), (-1, 2));
}

#[test]
fn test_do_while_order() {
    let mut interp = Interpreter::new();
    interp.parse("do move(1, 0) while;");
    let board = make_empty_board();
    let activations = interp.execute(&board).unwrap();
    assert_eq!(activations.len(), 3);
    assert_eq!((activations[0].dx, activations[0].dy), (1, 0));
    assert_eq!((activations[1].dx, activations[1].dy), (2, 0));
    assert_eq!((activations[2].dx, activations[2].dy), (3, 0));
}

#[test]
fn test_empty_script() {
    let mut interp = Interpreter::new();
    interp.parse("");
    let board = make_empty_board();
    assert_eq!(interp.execute(&board).unwrap().len(), 0);
}

#[test]
fn test_runaway_script_yields_nothing() {
    // A loop that always re-satisfies runs out of its opcode budget and
    // yields an empty activation list.
    let mut interp = Interpreter::new();
    interp.parse("anchor(0, 0) repeat(1);");
    let board = make_empty_board();
    assert_eq!(interp.execute(&board).unwrap().len(), 0);
}

#[test]
fn test_repeat_malformed_count_is_zero() {
    // An unparsable repeat count falls back to 0 like any integer argument,
    // so the repeat is a no-op; only a missing argument means 1.
    let mut interp = Interpreter::new();
    interp.parse("move(1, 0) repeat(x);");
    let board = make_empty_board();
    let activations = interp.execute(&board).unwrap();
    assert_eq!(activations.len(), 1);

    let mut looped = Interpreter::new();
    looped.parse("move(1, 0) repeat;");
    let activations = looped.execute(&board).unwrap();
    assert_eq!(activations.len(), 3);
}

#[test]
fn test_enemy_predicate_honors_bounds() {
    // An occupancy entry on an off-board square reads as no enemy: the
    // predicate honors bounds.
    let mut interp = Interpreter::new();
    interp.parse("enemy(4, 0) move(0, 1);");
    let mut board = make_empty_board();
    board.pieces.push(((8, 4), ("stray".to_string(), false)));
    let activations = interp.execute(&board).unwrap();
    assert_eq!(activations.len(), 0);
}
