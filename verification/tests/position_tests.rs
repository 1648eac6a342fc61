use emblium::pieces::{Color, Piece, Role, Square};
use emblium::position::{GameEnd, PlayErrorKind, Position};

const START: &str = "rnbqkbnr/pppppppp/8/8/8/8/PPPPPPPP/RNBQKBNR w KQkq - 0 1";

fn play_all(ucis: &[&str]) -> Position {
    let mut p = Position::initial();
    for u in ucis {
        let (next, _) = p.play_uci(u).expect("legal move");
        p = next;
    }
    p
}

#[test]
fn initial_position_fen() {
    let p = Position::initial();
    assert_eq!(p.fen(), START);
    assert_eq!(p.side_to_move(), Color::White);
    assert_eq!(p.halfmoves(), 0);
    assert_eq!(p.game_end(), None);
}

#[test]
fn initial_pieces() {
    let p = Position::initial();
    assert_eq!(p.piece_at(Square::from_coords(4, 1)), Some(Piece { color: Color::White, role: Role::Pawn }));
    assert_eq!(p.piece_at(Square::from_coords(4, 7)), Some(Piece { color: Color::Black, role: Role::King }));
    assert_eq!(p.piece_at(Square::from_coords(3, 0)), Some(Piece { color: Color::White, role: Role::Queen }));
    assert_eq!(p.piece_at(Square::from_coords(4, 3)), None);
}

#[test]
fn initial_legal_moves() {
    let p = Position::initial();
    let moves = p.legal_moves();
    assert_eq!(moves.len(), 20);
    let e2e4 = moves.iter().find(|m| m.uci == "e2e4").expect("e2e4 is legal");
    assert_eq!(e2e4.from, Some(Square::from_coords(4, 1)));
    assert_eq!(e2e4.to, Square::from_coords(4, 3));
    assert_eq!(e2e4.promotion, None);
}

#[test]
fn play_changes_fen_and_turn() {
    let p = Position::initial();
    let (next, m) = p.play_uci("e2e4").unwrap();
    assert_eq!(next.fen(), "rnbqkbnr/pppppppp/8/8/4P3/8/PPPP1PPP/RNBQKBNR b KQkq - 0 1");
    assert_eq!(next.side_to_move(), Color::Black);
    assert_eq!(m.uci, "e2e4");
    // The position played from is unchanged.
    assert_eq!(p.fen(), START);
}

#[test]
fn play_failures() {
    let p = Position::initial();
    let e = p.play_uci("xyz").unwrap_err();
    assert_eq!(e.kind, PlayErrorKind::InvalidNotation);
    assert_eq!(e.message, "invalid uci");
    let e = p.play_uci("e2e5").unwrap_err();
    assert_eq!(e.kind, PlayErrorKind::IllegalMove);
    assert_eq!(e.message, "illegal uci");
    let e = p.play_uci("0000").unwrap_err();
    assert_eq!(e.kind, PlayErrorKind::IllegalMove);
    let e = p.play_uci("e7e5").unwrap_err();
    assert_eq!(e.kind, PlayErrorKind::IllegalMove);
}

#[test]
fn castling_is_recorded_in_standard_notation() {
    let p = play_all(&["e2e4", "e7e5", "g1f3", "b8c6", "f1c4", "g8f6"]);
    // The king moving onto its own rook's square is castling too.
    let (a, ma) = p.play_uci("e1g1").unwrap();
    let (b, mb) = p.play_uci("e1h1").unwrap();
    assert_eq!(ma.uci, "e1g1");
    assert_eq!(mb.uci, "e1g1");
    assert_eq!(a.fen(), b.fen());
    // The move's target is the rook's square.
    assert_eq!(ma.to, Square::from_coords(7, 0));
}

#[test]
fn fools_mate_is_checkmate() {
    let p = play_all(&["f2f3", "e7e5", "g2g4", "d8h4"]);
    assert!(p.is_checkmate());
    assert!(!p.is_stalemate());
    assert_eq!(p.legal_moves().len(), 0);
    assert_eq!(p.game_end(), Some(GameEnd::Checkmate { winner: Color::Black }));
}

#[test]
fn quickest_stalemate() {
    let p = play_all(&[
        "e2e3", "a7a5", "d1h5", "a8a6", "h5a5", "h7h5", "h2h4", "a6h6", "a5c7", "f7f6", "c7d7", "e8f7",
        "d7b7", "d8d3", "b7b8", "d3h7", "b8c8", "f7g6", "c8e6",
    ]);
    assert!(p.is_stalemate());
    assert!(!p.is_checkmate());
    assert_eq!(p.game_end(), Some(GameEnd::Stalemate));
}

#[test]
fn fifty_move_rule() {
    let mut ucis = Vec::new();
    for _ in 0..25 {
        ucis.extend_from_slice(&["g1f3", "g8f6", "f3g1", "f6g8"]);
    }
    let p = play_all(&ucis[..99]);
    assert_eq!(p.halfmoves(), 99);
    assert_eq!(p.game_end(), None);
    let p = play_all(&ucis);
    assert_eq!(p.halfmoves(), 100);
    assert_eq!(p.game_end(), Some(GameEnd::FiftyMoveRule));
}

#[test]
fn en_passant_square_only_when_capture_is_legal() {
    let p = play_all(&["e2e4"]);
    assert!(p.fen().contains(" - 0 1"));
    let p = play_all(&["e2e4", "a7a6", "e4e5", "d7d5"]);
    assert!(p.fen().contains(" d6 "));
    let (q, m) = p.play_uci("e5d6").unwrap();
    assert_eq!(m.from, Some(Square::from_coords(4, 4)));
    assert_eq!(q.piece_at(Square::from_coords(3, 4)), None);
}

#[test]
fn duplicate_keeps_position() {
    let p = play_all(&["d2d4"]);
    assert_eq!(p.duplicate().fen(), p.fen());
}

/// Plays pseudo-random games (a fixed linear congruential generator picks
/// among the legal moves) until one ends by insufficient material.
fn random_game_ending_in_insufficient_material() -> Position {
    let mut seed: u64 = 0x2545_F491_4F6C_DD1D;
    for _game in 0..200 {
        let mut p = Position::initial();
        loop {
            if let Some(end) = p.game_end() {
                if end == GameEnd::InsufficientMaterial {
                    return p;
                }
                break;
            }
            let moves = p.legal_moves();
            seed = seed.wrapping_mul(6364136223846793005).wrapping_add(1442695040888963407);
            let pick = ((seed >> 33) as usize) % moves.len();
            p = p.play_uci(&moves[pick].uci).unwrap().0;
        }
    }
    panic!("no random game ended by insufficient material");
}

#[test]
fn insufficient_material_is_detected() {
    let p = random_game_ending_in_insufficient_material();
    assert!(p.is_insufficient_material());
    assert!(!p.is_checkmate());
    assert!(!p.is_stalemate());
    assert_eq!(p.game_end(), Some(GameEnd::InsufficientMaterial));
    assert!(!Position::initial().is_insufficient_material());
}
