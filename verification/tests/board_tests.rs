use emblium::board::{click_targets, first_click_index, BoardState};
use emblium::position::ChessMove;
use emblium::pieces::{Color, Role, Square};

const START: &str = "rnbqkbnr/pppppppp/8/8/8/8/PPPPPPPP/RNBQKBNR w KQkq - 0 1";

fn sq(name: &str) -> Square {
    let b = name.as_bytes();
    Square::from_coords((b[0] - b'a') as u32, (b[1] - b'1') as u32)
}

#[test]
fn new_board() {
    let b = BoardState::new();
    assert_eq!(b.fen(), START);
    assert!(b.uci_history().is_empty());
    assert_eq!(b.selected(), None);
    assert!(b.legal_targets().is_empty());
    assert!(!b.is_flipped());
    assert_eq!(b.game_over_message(), None);
}

#[test]
fn click_selects_and_marks_targets() {
    let mut b = BoardState::new();
    assert!(b.handle_click(sq("e2")).is_none());
    assert_eq!(b.selected(), Some(sq("e2")));
    let mut targets = b.legal_targets().clone();
    targets.sort_by_key(|s| s.index());
    assert_eq!(targets, vec![sq("e3"), sq("e4")]);
    let played = b.handle_click(sq("e4")).expect("e2e4 is played");
    assert_eq!(played.uci, "e2e4");
    assert_eq!(b.selected(), None);
    assert!(b.legal_targets().is_empty());
    assert_eq!(b.uci_history(), vec!["e2e4".to_string()]);
    assert_eq!(b.side_to_move(), Color::Black);
}

#[test]
fn click_on_empty_or_opponent_square_does_nothing() {
    let mut b = BoardState::new();
    assert!(b.handle_click(sq("e4")).is_none());
    assert_eq!(b.selected(), None);
    assert!(b.handle_click(sq("e7")).is_none());
    assert_eq!(b.selected(), None);
    assert_eq!(b.fen(), START);
}

#[test]
fn second_click_on_unreachable_square_drops_selection() {
    let mut b = BoardState::new();
    b.handle_click(sq("g1"));
    assert_eq!(b.selected(), Some(sq("g1")));
    assert_eq!(b.legal_targets().len(), 2);
    assert!(b.handle_click(sq("g4")).is_none());
    assert_eq!(b.selected(), None);
    assert!(b.legal_targets().is_empty());
    assert_eq!(b.fen(), START);
    assert!(b.uci_history().is_empty());
}

#[test]
fn human_move_promotes_to_queen() {
    let mut b = BoardState::new();
    for u in ["a2a4", "b7b5", "a4b5", "a7a6", "b5a6", "c8b7", "a6b7", "g8f6"] {
        b.push_uci(u).unwrap();
    }
    let played = b.try_human_move(sq("b7"), sq("a8")).expect("promotion");
    assert_eq!(played.promotion, Some(Role::Queen));
    assert_eq!(played.uci, "b7a8q");
    assert_eq!(b.uci_history().last().unwrap(), "b7a8q");
}

#[test]
fn human_move_without_legal_move_changes_nothing() {
    let mut b = BoardState::new();
    assert!(b.try_human_move(sq("e2"), sq("e5")).is_none());
    assert_eq!(b.fen(), START);
    assert!(b.uci_history().is_empty());
}

#[test]
fn castling_by_clicking_the_rook() {
    let mut b = BoardState::new();
    for u in ["e2e4", "e7e5", "g1f3", "b8c6", "f1c4", "g8f6"] {
        b.push_uci(u).unwrap();
    }
    // The king's castling move goes to the rook's square.
    assert!(b.try_human_move(sq("e1"), sq("g1")).is_none());
    let played = b.try_human_move(sq("e1"), sq("h1")).expect("castling");
    assert_eq!(played.uci, "e1g1");
}

#[test]
fn push_uci_errors() {
    let mut b = BoardState::new();
    assert_eq!(b.push_uci("hello"), Err("Ung\u{fc}ltiger UCI-Zug: hello".to_string()));
    assert_eq!(b.push_uci("e2e5"), Err("Illegaler Zug: e2e5".to_string()));
    assert_eq!(b.fen(), START);
    assert!(b.push_uci("e2e4").is_ok());
    assert_eq!(b.uci_history(), vec!["e2e4".to_string()]);
}

#[test]
fn push_uci_records_standard_notation() {
    let mut b = BoardState::new();
    for u in ["e2e4", "e7e5", "g1f3", "b8c6", "f1c4", "g8f6", "e1h1"] {
        b.push_uci(u).unwrap();
    }
    assert_eq!(b.uci_history().last().unwrap(), "e1g1");
}

#[test]
fn history_replays_to_position() {
    let mut b = BoardState::new();
    for u in ["d2d4", "d7d5", "c2c4", "e7e6", "b1c3", "g8f6"] {
        b.push_uci(u).unwrap();
    }
    let mut replay = BoardState::new();
    for u in b.uci_history() {
        replay.push_uci(&u).unwrap();
    }
    assert_eq!(replay.fen(), b.fen());
    assert_eq!(replay.uci_history(), b.uci_history());
}

fn mv(from: &str, to: &str, promotion: Option<Role>, uci: &str) -> ChessMove {
    ChessMove { from: Some(sq(from)), to: sq(to), promotion, uci: uci.to_string() }
}

#[test]
fn first_click_index_prefers_first_queen_or_plain_move() {
    let moves = vec![
        mv("b7", "a8", Some(Role::Knight), "b7a8n"),
        mv("b7", "a8", Some(Role::Queen), "b7a8q"),
        mv("b7", "a8", Some(Role::Rook), "b7a8r"),
        mv("e2", "e4", None, "e2e4"),
    ];
    assert_eq!(first_click_index(&moves, sq("b7"), sq("a8")), Some(1));
    assert_eq!(first_click_index(&moves, sq("e2"), sq("e4")), Some(3));
    assert_eq!(first_click_index(&moves, sq("e2"), sq("e3")), None);
    assert_eq!(first_click_index(&Vec::new(), sq("e2"), sq("e4")), None);
}

#[test]
fn click_targets_in_move_order() {
    let moves = vec![
        mv("g1", "h3", None, "g1h3"),
        mv("e2", "e3", None, "e2e3"),
        mv("g1", "f3", None, "g1f3"),
        mv("e2", "e4", None, "e2e4"),
    ];
    assert_eq!(click_targets(&moves, sq("g1")), vec![sq("h3"), sq("f3")]);
    assert_eq!(click_targets(&moves, sq("e2")), vec![sq("e3"), sq("e4")]);
    assert!(click_targets(&moves, sq("a1")).is_empty());
}

#[test]
fn checkmate_message() {
    let mut b = BoardState::new();
    for u in ["f2f3", "e7e5", "g2g4", "d8h4"] {
        b.push_uci(u).unwrap();
    }
    assert_eq!(b.game_over_message(), Some("Matt \u{2013} Schwarz gewinnt".to_string()));
    let mut w = BoardState::new();
    for u in ["e2e4", "e7e5", "f1c4", "b8c6", "d1h5", "g8f6", "h5f7"] {
        w.push_uci(u).unwrap();
    }
    assert_eq!(w.game_over_message(), Some("Matt \u{2013} Wei\u{df} gewinnt".to_string()));
}

#[test]
fn stalemate_message() {
    let mut b = BoardState::new();
    for u in [
        "e2e3", "a7a5", "d1h5", "a8a6", "h5a5", "h7h5", "h2h4", "a6h6", "a5c7", "f7f6", "c7d7", "e8f7",
        "d7b7", "d8d3", "b7b8", "d3h7", "b8c8", "f7g6", "c8e6",
    ] {
        b.push_uci(u).unwrap();
    }
    assert_eq!(b.game_over_message(), Some("Patt \u{2013} Remis".to_string()));
}

#[test]
fn fifty_move_message() {
    let mut b = BoardState::new();
    for _ in 0..25 {
        for u in ["g1f3", "g8f6", "f3g1", "f6g8"] {
            b.push_uci(u).unwrap();
        }
    }
    assert_eq!(b.game_over_message(), Some("Remis \u{2013} 50-Z\u{fc}ge-Regel".to_string()));
}

#[test]
fn reset_keeps_orientation() {
    let mut b = BoardState::new();
    b.push_uci("e2e4").unwrap();
    b.handle_click(sq("e7"));
    b.flip();
    b.reset();
    assert_eq!(b.fen(), START);
    assert!(b.uci_history().is_empty());
    assert_eq!(b.selected(), None);
    assert!(b.legal_targets().is_empty());
    assert!(b.is_flipped());
}

#[test]
fn flipped_pixel_lookup() {
    let mut b = BoardState::new();
    assert_eq!(b.square_at_pixel(0, 0, 0, 0, 50), Some(sq("a8")));
    b.flip();
    assert_eq!(b.square_at_pixel(0, 0, 0, 0, 50), Some(sq("h1")));
    assert_eq!(b.to_screen(0, 0), (7, 0));
    assert_eq!(b.from_screen(7, 0), sq("a1"));
}

#[test]
fn board_cells_describe_the_board() {
    let mut b = BoardState::new();
    b.handle_click(sq("b1"));
    let cells = b.board_cells();
    assert_eq!(cells.len(), 64);
    let a1 = cells[0];
    assert_eq!(a1.square, sq("a1"));
    assert_eq!((a1.column, a1.row), (0, 7));
    assert!(a1.dark);
    assert_eq!(a1.piece.map(|p| p.role), Some(Role::Rook));
    let b1 = cells[1];
    assert!(!b1.dark);
    assert!(b1.highlighted);
    let c3 = cells[sq("c3").index() as usize];
    assert!(c3.target);
    assert!(c3.piece.is_none());
    let e4 = cells[sq("e4").index() as usize];
    assert!(!e4.target);
    assert_eq!(cells.iter().filter(|c| c.target).count(), 2);
    assert_eq!(cells.iter().filter(|c| c.piece.is_some()).count(), 32);
}

#[test]
fn insufficient_material_message() {
    let mut seed: u64 = 0x2545_F491_4F6C_DD1D;
    for _game in 0..200 {
        let mut b = BoardState::new();
        while b.game_over_message().is_none() {
            let moves = b.position().legal_moves();
            seed = seed.wrapping_mul(6364136223846793005).wrapping_add(1442695040888963407);
            let pick = ((seed >> 33) as usize) % moves.len();
            b.push_uci(&moves[pick].uci).unwrap();
        }
        if b.position().is_insufficient_material() && !b.position().is_stalemate() && !b.position().is_checkmate() {
            assert_eq!(b.game_over_message(), Some("Remis \u{2013} ungen\u{fc}gendes Material".to_string()));
            return;
        }
    }
    panic!("no random game ended by insufficient material");
}
