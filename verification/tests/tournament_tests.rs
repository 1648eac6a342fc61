use emblium::position::Position;
use emblium::tournament::{
    gauntlet_pairs, round_robin_pairs, terminal_outcome, EngineGame, Outcome, SprtTally, MAX_PLIES,
};

#[test]
fn round_robin_pair_count() {
    assert_eq!(round_robin_pairs(3).len(), 6);
    assert_eq!(round_robin_pairs(4).len(), 12);
}

#[test]
fn round_robin_order() {
    assert_eq!(round_robin_pairs(3), vec![(0, 1), (0, 2), (1, 0), (1, 2), (2, 0), (2, 1)]);
    assert!(round_robin_pairs(0).is_empty());
    assert!(round_robin_pairs(1).is_empty());
}

#[test]
fn gauntlet_pair_count() {
    let pairs = gauntlet_pairs(0, &[1, 2, 3]);
    assert_eq!(pairs.len(), 6);
    assert!(pairs.contains(&(0, 1)));
    assert!(pairs.contains(&(1, 0)));
}

#[test]
fn gauntlet_order() {
    assert_eq!(gauntlet_pairs(5, &[2, 7]), vec![(5, 2), (2, 5), (5, 7), (7, 5)]);
    assert!(gauntlet_pairs(0, &[]).is_empty());
}

#[test]
fn terminal_outcomes() {
    assert_eq!(terminal_outcome(&Position::initial()), None);
    let mut p = Position::initial();
    for u in ["f2f3", "e7e5", "g2g4", "d8h4"] {
        p = p.play_uci(u).unwrap().0;
    }
    assert_eq!(terminal_outcome(&p), Some(Outcome::BlackWin));
}

#[test]
fn engine_game_to_checkmate() {
    let mut g = EngineGame::new();
    assert!(g.finished().is_none());
    for u in ["e2e4", "e7e5", "f1c4", "b8c6", "d1h5", "g8f6", "h5f7"] {
        assert!(g.white_to_move() == (g.moves().len() % 2 == 0));
        assert!(g.apply_reply(Some(u.to_string())).unwrap().is_none());
    }
    let r = g.finished().expect("checkmate");
    assert_eq!(r.outcome, Outcome::WhiteWin);
    assert_eq!(r.termination, "Normal");
    assert_eq!(r.moves.len(), 7);
    assert_eq!(r.moves[6], "h5f7");
}

#[test]
fn engine_game_records_moves_as_sent() {
    let mut g = EngineGame::new();
    for u in ["e2e4", "e7e5", "g1f3", "b8c6", "f1c4", "g8f6", "e1h1"] {
        assert!(g.apply_reply(Some(u.to_string())).unwrap().is_none());
    }
    assert_eq!(g.moves().last().unwrap(), "e1h1");
}

#[test]
fn engine_without_move_loses() {
    let mut g = EngineGame::new();
    let r = g.apply_reply(None).unwrap().unwrap();
    assert_eq!(r.outcome, Outcome::BlackWin);
    assert_eq!(r.termination, "Engine lieferte keinen Zug (Absturz/Timeout)");
    g.apply_reply(Some("e2e4".to_string())).unwrap();
    let r = g.apply_reply(None).unwrap().unwrap();
    assert_eq!(r.outcome, Outcome::WhiteWin);
    assert_eq!(r.moves, vec!["e2e4".to_string()]);
}

#[test]
fn engine_invalid_and_illegal_moves_lose() {
    let mut g = EngineGame::new();
    let r = g.apply_reply(Some("zz".to_string())).unwrap().unwrap();
    assert_eq!(r.outcome, Outcome::BlackWin);
    assert_eq!(r.termination, "Ung\u{fc}ltiger Zugstring von Engine: zz");
    let r = g.apply_reply(Some("e2e5".to_string())).unwrap().unwrap();
    assert_eq!(r.outcome, Outcome::BlackWin);
    assert_eq!(r.termination, "Illegaler Zug von Engine: e2e5");
    assert!(g.moves().is_empty());
}

#[test]
fn engine_game_fifty_moves_is_a_normal_draw() {
    let mut g = EngineGame::new();
    for _ in 0..25 {
        for u in ["g1f3", "g8f6", "f3g1", "f6g8"] {
            g.apply_reply(Some(u.to_string())).unwrap();
        }
    }
    let r = g.finished().expect("fifty-move rule");
    assert_eq!(r.outcome, Outcome::Draw);
    assert_eq!(r.termination, "Normal");
    assert!(r.moves.len() < MAX_PLIES);
}

#[test]
fn sprt_tally_counts() {
    let mut t = SprtTally::new();
    t.record(Outcome::WhiteWin);
    t.record(Outcome::WhiteWin);
    t.record(Outcome::Draw);
    t.record(Outcome::BlackWin);
    assert_eq!(t, SprtTally { wins: 2, draws: 1, losses: 1 });
    assert_eq!(t.total(), 4);
}
