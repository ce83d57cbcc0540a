use chesstack::game::GameState;
use chesstack::interp::Interpreter;
use chesstack::pieces::{GameResult, Piece, PieceKind, PieceSpec, Square};

#[test]
fn test_initial_setup() {
    let state = GameState::new(0);

    let white_king = state.get_piece_at(Square::new(4, 0));
    assert!(white_king.is_some());
    assert_eq!(white_king.unwrap().kind, PieceKind::King);
    assert!(white_king.unwrap().is_royal);
    assert_eq!(white_king.unwrap().stun, 0);
    assert_eq!(white_king.unwrap().move_stack, 3);

    let black_king = state.get_piece_at(Square::new(4, 7));
    assert!(black_king.is_some());
    assert_eq!(black_king.unwrap().kind, PieceKind::King);
}

#[test]
fn test_move_stack_calculation() {
    assert_eq!(GameState::initial_move_stack(1), 5);
    assert_eq!(GameState::initial_move_stack(2), 5);
    assert_eq!(GameState::initial_move_stack(3), 3);
    assert_eq!(GameState::initial_move_stack(5), 3);
    assert_eq!(GameState::initial_move_stack(7), 2);
    assert_eq!(GameState::initial_move_stack(9), 1);
    assert_eq!(GameState::initial_move_stack(13), 1);
}

#[test]
fn test_piece_scores() {
    assert_eq!(PieceKind::Pawn.score(), 1);
    assert_eq!(PieceKind::King.score(), 4);
    assert_eq!(PieceKind::Queen.score(), 9);
    assert_eq!(PieceKind::Rook.score(), 5);
    assert_eq!(PieceKind::Knight.score(), 3);
    assert_eq!(PieceKind::Bishop.score(), 3);
    assert_eq!(PieceKind::Amazon.score(), 13);
}

#[test]
fn test_pocket_score_limit() {
    let mut state = GameState::new(0);

    let valid_pocket = vec![
        PieceSpec { kind: PieceKind::Queen },
        PieceSpec { kind: PieceKind::Rook },
        PieceSpec { kind: PieceKind::Rook },
        PieceSpec { kind: PieceKind::Bishop },
        PieceSpec { kind: PieceKind::Bishop },
        PieceSpec { kind: PieceKind::Knight },
        PieceSpec { kind: PieceKind::Knight },
        PieceSpec { kind: PieceKind::Pawn },
        PieceSpec { kind: PieceKind::Pawn },
        PieceSpec { kind: PieceKind::Pawn },
        PieceSpec { kind: PieceKind::Pawn },
        PieceSpec { kind: PieceKind::Pawn },
        PieceSpec { kind: PieceKind::Pawn },
        PieceSpec { kind: PieceKind::Pawn },
        PieceSpec { kind: PieceKind::Pawn },
    ];
    assert!(state.setup_pocket(0, valid_pocket).is_ok());

    let invalid_pocket = vec![
        PieceSpec { kind: PieceKind::Amazon },
        PieceSpec { kind: PieceKind::Queen },
        PieceSpec { kind: PieceKind::Queen },
        PieceSpec { kind: PieceKind::Queen },
    ];
    assert!(state.setup_pocket(1, invalid_pocket).is_err());
}

#[test]
fn test_capture_stack_transfer() {
    let mut state = GameState::new(0);

    let attacker = state.create_piece(PieceKind::Knight, 0);
    let attacker_id = attacker.id.clone();
    state.pieces.push(attacker);
    for p in state.pieces.iter_mut() {
        if p.id == attacker_id {
            p.pos = Some(Square::new(0, 0));
            p.move_stack = 3;
            p.stun = 0;
        }
    }
    state.board.push((Square::new(0, 0), attacker_id.clone()));

    let victim = state.create_piece(PieceKind::Rook, 1);
    let victim_id = victim.id.clone();
    state.pieces.push(victim);
    for p in state.pieces.iter_mut() {
        if p.id == victim_id {
            p.pos = Some(Square::new(2, 1));
            p.move_stack = 3;
            p.stun = 2;
        }
    }
    state.board.push((Square::new(2, 1), victim_id.clone()));

    state.capture(&attacker_id, &victim_id).unwrap();

    let attacker = state.pieces.iter().find(|p| p.id == attacker_id).unwrap();
    assert_eq!(attacker.move_stack, 5);
    assert_eq!(attacker.stun, 2);

    assert!(state.pieces.iter().find(|p| p.id == victim_id).is_none());
}

#[test]
fn test_victory_condition() {
    let mut state = GameState::new(0);
    assert_eq!(state.check_victory(), GameResult::Ongoing);

    let black_king_id = state
        .board
        .iter()
        .find(|e| e.0 == Square::new(4, 7))
        .map(|e| e.1.clone());
    if let Some(id) = black_king_id {
        state.board.retain(|e| e.0 != Square::new(4, 7));
        state.pieces.retain(|p| p.id != id);
    }

    assert_eq!(state.check_victory(), GameResult::WhiteWins);
}

#[test]
fn test_square_notation() {
    let e4 = Square::from_notation("e4").unwrap();
    assert_eq!(e4.x, 4);
    assert_eq!(e4.y, 3);
    assert_eq!(e4.to_notation(), "e4");

    let a1 = Square::from_notation("a1").unwrap();
    assert_eq!(a1.x, 0);
    assert_eq!(a1.y, 0);

    let h8 = Square::from_notation("h8").unwrap();
    assert_eq!(h8.x, 7);
    assert_eq!(h8.y, 7);
}

#[test]
fn test_pawn_promotion_stun() {
    let state = GameState::new(0);

    let pawn = Piece::new("pawn1".to_string(), PieceKind::Pawn, 0);

    let stun_at_1 = state.calculate_placement_stun(&pawn, Square::new(0, 0));
    assert_eq!(stun_at_1, 0);

    let stun_at_7 = state.calculate_placement_stun(&pawn, Square::new(0, 6));
    assert!(stun_at_7 > 0);
}

#[test]
fn test_crown_piece() {
    let mut state = GameState::new(0);

    state.pockets.push((0, vec![PieceSpec { kind: PieceKind::Pawn }]));
    let pawn_id = state.place_piece(0, PieceKind::Pawn, Square::new(0, 1)).unwrap();

    state.end_turn();
    state.end_turn();
    state.action_taken = false;

    assert!(state.crown_piece(0, &pawn_id).is_ok());
    assert!(state.pieces.iter().find(|p| p.id == pawn_id).unwrap().is_royal);
}

#[test]
fn test_pawn_cannot_place_on_promotion_rank() {
    let mut state = GameState::new(0);
    state.pockets.push((0, vec![PieceSpec { kind: PieceKind::Pawn }]));

    let result = state.place_piece(0, PieceKind::Pawn, Square::new(0, 7));
    assert!(result.is_err());
}

#[test]
fn test_king_legal_moves() {
    let state = GameState::new(0);

    let white_king_id = state
        .board
        .iter()
        .find(|e| e.0 == Square::new(4, 0))
        .map(|e| e.1.clone())
        .unwrap();
    let moves = state.get_legal_moves(&white_king_id);

    assert!(!moves.is_empty());

    assert!(moves.iter().any(|m| m.to == Square::new(3, 1)));
    assert!(moves.iter().any(|m| m.to == Square::new(4, 1)));
}

#[test]
fn test_rook_legal_moves() {
    let mut state = GameState::new(0);

    let rook = state.create_piece(PieceKind::Rook, 0);
    let rook_id = rook.id.clone();
    state.pieces.push(rook);
    for p in state.pieces.iter_mut() {
        if p.id == rook_id {
            p.pos = Some(Square::new(3, 3));
            p.move_stack = 3;
            p.stun = 0;
        }
    }
    state.board.push((Square::new(3, 3), rook_id.clone()));

    let script = "take-move(1, 0) repeat(1); take-move(-1, 0) repeat(1); take-move(0, 1) repeat(1); take-move(0, -1) repeat(1);";

    let board = state.to_chessembly_board(&rook_id).unwrap();
    let mut interpreter = Interpreter::new();
    interpreter.set_debug(state.debug_mode);
    interpreter.parse(script);
    let activations = interpreter.execute(&board).unwrap();

    println!("Script: {}", script);
    println!("Piece at: ({}, {})", board.piece_x, board.piece_y);
    println!("Activations count: {}", activations.len());
    for a in &activations {
        let target_x = board.piece_x as i64 + a.dx;
        let target_y = board.piece_y as i64 + a.dy;
        println!("  dx={}, dy={} -> ({}, {})", a.dx, a.dy, target_x, target_y);
    }

    assert!(activations.iter().any(|a| a.dx == 1 && a.dy == 0));
    assert!(activations.iter().any(|a| a.dx == -1 && a.dy == 0));
    assert!(activations.iter().any(|a| a.dx == 0 && a.dy == 1));
    assert!(activations.iter().any(|a| a.dx == 0 && a.dy == -1));
}

#[test]
fn test_knight_legal_moves() {
    let mut state = GameState::new(0);

    let knight = state.create_piece(PieceKind::Knight, 0);
    let knight_id = knight.id.clone();
    state.pieces.push(knight);
    for p in state.pieces.iter_mut() {
        if p.id == knight_id {
            p.pos = Some(Square::new(3, 3));
            p.move_stack = 3;
            p.stun = 0;
        }
    }
    state.board.push((Square::new(3, 3), knight_id.clone()));

    let moves = state.get_legal_moves(&knight_id);

    assert_eq!(moves.len(), 8);

    assert!(moves.iter().any(|m| m.to == Square::new(1, 4)));
    assert!(moves.iter().any(|m| m.to == Square::new(5, 4)));
}

#[test]
fn test_is_valid_move() {
    let state = GameState::new(0);

    let white_king_id = state
        .board
        .iter()
        .find(|e| e.0 == Square::new(4, 0))
        .map(|e| e.1.clone())
        .unwrap();

    assert!(state.is_valid_move(&white_king_id, Square::new(4, 0), Square::new(4, 1)));

    assert!(!state.is_valid_move(&white_king_id, Square::new(4, 0), Square::new(4, 2)));
}

#[test]
fn test_transition_tag_rekinds_the_mover() {
    // A committed move whose activation carries a transition tag turns the
    // mover into the named kind and refreshes its move stack.
    let mut state = GameState::new(0);
    let piece = state.create_piece(PieceKind::Pawn, 0);
    let id = piece.id.clone();
    state.pieces.push(piece);
    for p in state.pieces.iter_mut() {
        if p.id == id {
            p.pos = Some(Square::new(0, 3));
            p.move_stack = 5;
        }
    }
    state.board.push((Square::new(0, 3), id.clone()));
    let mv = chesstack::game::LegalMove {
        from: Square::new(0, 3),
        to: Square::new(0, 4),
        move_type: chesstack::tokens::MoveType::Move,
        is_capture: false,
        tags: vec![chesstack::tokens::ActionTag {
            tag_type: chesstack::tokens::ActionTagType::Transition,
            key: String::new(),
            value: 0,
            piece_name: Some("queen".to_string()),
        }],
        catch_to: Square::new(0, 0),
    };
    state.move_piece_by_legal_moves(mv).unwrap();
    let p = state.pieces.iter().find(|p| p.id == id).unwrap();
    assert_eq!(p.kind, PieceKind::Queen);
    assert_eq!(p.move_stack, 1);
    assert_eq!(p.pos, Some(Square::new(0, 4)));
}

#[test]
fn test_set_state_tag_writes_global_state() {
    let mut state = GameState::new(0);
    let piece = state.create_piece(PieceKind::Rook, 0);
    let id = piece.id.clone();
    state.pieces.push(piece);
    for p in state.pieces.iter_mut() {
        if p.id == id {
            p.pos = Some(Square::new(0, 3));
            p.move_stack = 3;
        }
    }
    state.board.push((Square::new(0, 3), id.clone()));
    let mv = chesstack::game::LegalMove {
        from: Square::new(0, 3),
        to: Square::new(1, 3),
        move_type: chesstack::tokens::MoveType::Move,
        is_capture: false,
        tags: vec![chesstack::tokens::ActionTag {
            tag_type: chesstack::tokens::ActionTagType::SetState,
            key: "mode".to_string(),
            value: 2,
            piece_name: None,
        }],
        catch_to: Square::new(0, 0),
    };
    state.move_piece_by_legal_moves(mv).unwrap();
    assert_eq!(
        state.global_state.iter().find(|e| e.0 == "mode").map(|e| e.1),
        Some(2)
    );
}

#[test]
fn test_placement_consumes_pocket_entry() {
    let mut state = GameState::new(0);
    state.pockets.push((
        0,
        vec![
            PieceSpec { kind: PieceKind::Rook },
            PieceSpec { kind: PieceKind::Pawn },
        ],
    ));
    let id = state.place_piece(0, PieceKind::Rook, Square::new(2, 2)).unwrap();
    assert_eq!(state.pockets[0].1.len(), 1);
    assert_eq!(state.pockets[0].1[0].kind, PieceKind::Pawn);
    let placed = state.pieces.iter().find(|p| p.id == id).unwrap();
    assert_eq!(placed.kind, PieceKind::Rook);
    // A rook scores 5: five stun stacks on placement, three moves per turn.
    assert_eq!(placed.stun, 5);
    assert_eq!(placed.move_stack, 3);
}

#[test]
fn test_disguise_changes_movement() {
    let mut state = GameState::new(0);
    let king_id = state
        .board
        .iter()
        .find(|e| e.0 == Square::new(4, 0))
        .map(|e| e.1.clone())
        .unwrap();
    state.disguise_piece(0, &king_id, PieceKind::Knight).unwrap();
    let p = state.pieces.iter().find(|p| p.id == king_id).unwrap();
    assert_eq!(p.disguise, Some(PieceKind::Knight));
    assert_eq!(p.move_stack, 3);
    let moves = state.get_legal_moves(&king_id);
    // A knight's jump from e1, not a king's step.
    assert!(moves.iter().any(|m| m.to == Square::new(3, 1)) == false);
    assert!(moves.iter().any(|m| m.to == Square::new(5, 2)));
}

#[test]
fn test_stun_blocks_movement() {
    let mut state = GameState::new(0);
    let king_id = state
        .board
        .iter()
        .find(|e| e.0 == Square::new(4, 0))
        .map(|e| e.1.clone())
        .unwrap();
    assert!(state.apply_stun(0, &king_id, 4).is_err());
    assert!(state.apply_stun(0, &king_id, 2).is_ok());
    assert_eq!(state.get_legal_moves(&king_id).len(), 0);
}

#[test]
fn test_end_turn_decays_stun_and_refreshes_stacks() {
    let mut state = GameState::new(0);
    let king_id = state
        .board
        .iter()
        .find(|e| e.0 == Square::new(4, 0))
        .map(|e| e.1.clone())
        .unwrap();
    state.apply_stun(0, &king_id, 2).unwrap();
    state.end_turn();
    let p = state.pieces.iter().find(|p| p.id == king_id).unwrap();
    assert_eq!(p.stun, 1);
    assert_eq!(state.turn, 1);
}

#[test]
fn test_promote_pawn_on_last_rank() {
    let mut state = GameState::new(0);
    let piece = state.create_piece(PieceKind::Pawn, 0);
    let id = piece.id.clone();
    state.pieces.push(piece);
    for p in state.pieces.iter_mut() {
        if p.id == id {
            p.pos = Some(Square::new(0, 7));
        }
    }
    state.board.push((Square::new(0, 7), id.clone()));
    assert!(state.promote(&id, PieceKind::King).is_err());
    assert!(state.promote(&id, PieceKind::Queen).is_ok());
    let p = state.pieces.iter().find(|p| p.id == id).unwrap();
    assert_eq!(p.kind, PieceKind::Queen);
}

#[test]
fn test_experimental_pocket_contents() {
    let mut state = GameState::new(0);
    state.setup_experimental_pocket();
    let pocket = state.get_pocket(0);
    assert_eq!(pocket.len(), 12);
    assert!(pocket.contains(&PieceKind::Amazon));
    assert!(pocket.contains(&PieceKind::Cannon));
}

#[test]
fn test_initial_position_pockets() {
    let mut state = GameState::new(0);
    state.setup_initial_position();
    let pocket = state.get_pocket(1);
    assert_eq!(pocket.len(), 15);
    assert_eq!(pocket.iter().filter(|k| **k == PieceKind::Pawn).count(), 8);
}

#[test]
fn test_notation_rejects_bad_squares() {
    assert!(Square::from_notation("i1").is_none());
    assert!(Square::from_notation("a9").is_none());
    assert!(Square::from_notation("a").is_none());
    assert!(Square::from_notation("a10").is_none());
}

#[test]
fn test_negative_stun_blocks_moves() {
    // Any nonzero stun makes a piece immovable, negative values included.
    let mut state = GameState::new(0);
    let rook = state.create_piece(PieceKind::Rook, 0);
    let id = rook.id.clone();
    state.pieces.push(rook);
    for p in state.pieces.iter_mut() {
        if p.id == id {
            p.pos = Some(Square::new(3, 3));
            p.move_stack = 3;
            p.stun = -1;
        }
    }
    state.board.push((Square::new(3, 3), id.clone()));
    assert!(state
        .can_move_piece(0, &id, Square::new(3, 3), Square::new(3, 4),
            chesstack::tokens::MoveType::Move)
        .is_err());
}

#[test]
fn test_capture_flag_reads_the_opponent() {
    // The capture flag means an opponent falls: true onto an enemy, false
    // onto an empty square, and true for a jump through its catch square
    // even though the jump lands on an empty square.
    let mut state = GameState::new(0);
    let cannon = state.create_piece(PieceKind::Cannon, 0);
    let cannon_id = cannon.id.clone();
    state.pieces.push(cannon);
    for p in state.pieces.iter_mut() {
        if p.id == cannon_id {
            p.pos = Some(Square::new(0, 3));
            p.move_stack = 3;
        }
    }
    state.board.push((Square::new(0, 3), cannon_id.clone()));
    let screen = state.create_piece(PieceKind::Pawn, 1);
    let screen_id = screen.id.clone();
    state.pieces.push(screen);
    for p in state.pieces.iter_mut() {
        if p.id == screen_id {
            p.pos = Some(Square::new(2, 3));
        }
    }
    state.board.push((Square::new(2, 3), screen_id.clone()));

    let moves = state.get_legal_moves(&cannon_id);
    let jump = moves
        .iter()
        .find(|m| m.move_type == chesstack::tokens::MoveType::Jump)
        .unwrap();
    assert_eq!(jump.to, Square::new(3, 3));
    assert_eq!(jump.catch_to, Square::new(2, 3));
    assert!(jump.is_capture);

    let king_id = state
        .board
        .iter()
        .find(|e| e.0 == Square::new(4, 0))
        .map(|e| e.1.clone())
        .unwrap();
    let enemy = state.create_piece(PieceKind::Pawn, 1);
    let enemy_id = enemy.id.clone();
    state.pieces.push(enemy);
    for p in state.pieces.iter_mut() {
        if p.id == enemy_id {
            p.pos = Some(Square::new(3, 1));
        }
    }
    state.board.push((Square::new(3, 1), enemy_id.clone()));
    let king_moves = state.get_legal_moves(&king_id);
    let onto_enemy = king_moves.iter().find(|m| m.to == Square::new(3, 1)).unwrap();
    assert!(onto_enemy.is_capture);
    let onto_empty = king_moves.iter().find(|m| m.to == Square::new(4, 1)).unwrap();
    assert!(!onto_empty.is_capture);
}

#[test]
fn test_stun_errors_name_their_cause() {
    let mut state = GameState::new(0);
    let king_id = state
        .board
        .iter()
        .find(|e| e.0 == Square::new(4, 0))
        .map(|e| e.1.clone())
        .unwrap();
    assert!(state.apply_stun(1, &king_id, 1).is_err());
    assert!(state.apply_stun(0, &king_id, 0).is_err());
    assert!(state.apply_stun(0, &king_id, 3).is_ok());
    assert!(state.apply_stun(0, &king_id, 1).is_err());
}
