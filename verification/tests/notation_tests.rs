use emblium::notation::{bestmove_choice, decimal_string, move_list_lines};

#[test]
fn decimal_numbers() {
    assert_eq!(decimal_string(0), "0");
    assert_eq!(decimal_string(7), "7");
    assert_eq!(decimal_string(10), "10");
    assert_eq!(decimal_string(1234567), "1234567");
}

#[test]
fn move_list_two_moves_per_line() {
    let moves: Vec<String> = ["e2e4", "e7e5", "g1f3"].iter().map(|s| s.to_string()).collect();
    assert_eq!(move_list_lines(&moves), vec!["1. e2e4   e7e5".to_string(), "2. g1f3".to_string()]);
    let even: Vec<String> = ["d2d4", "d7d5"].iter().map(|s| s.to_string()).collect();
    assert_eq!(move_list_lines(&even), vec!["1. d2d4   d7d5".to_string()]);
    assert!(move_list_lines(&Vec::new()).is_empty());
}

#[test]
fn move_list_numbers_beyond_nine() {
    let moves: Vec<String> = (0..21).map(|_| "g1f3".to_string()).collect();
    let lines = move_list_lines(&moves);
    assert_eq!(lines.len(), 11);
    assert_eq!(lines[9], "10. g1f3   g1f3");
    assert_eq!(lines[10], "11. g1f3");
}

#[test]
fn bestmove_none() {
    assert_eq!(bestmove_choice("(none)".to_string()), None);
    assert_eq!(bestmove_choice("e2e4".to_string()), Some("e2e4".to_string()));
}
