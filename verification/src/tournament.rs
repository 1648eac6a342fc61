//! Engine tournaments: the decisions of a game between two engines, the
//! pairings of a round robin and of a gauntlet, and the win/draw/loss tally
//! of a sequential probability ratio test.

use vstd::prelude::*;
use crate::pieces::Color;
use crate::position::{
    checkmate_in, game_end_in, halfmoves_in, initial_fen, insufficient_material_in,
    lemma_position_after_push, play_uci_in, position_after, stalemate_in, white_to_move_in,
    GameEnd, PlayErrorKind, Position,
};
use crate::notation::texts;

verus! {

/// The result of a game, from White's point of view.
#[derive(Clone, Copy, Debug, PartialEq, Eq, Structural)]
pub enum Outcome {
    WhiteWin,
    BlackWin,
    Draw,
}

/// The result of a game that has ended on the board.
pub open spec fn outcome_of_end(end: GameEnd) -> Outcome {
    match end {
        GameEnd::Checkmate { winner: Color::White } => Outcome::WhiteWin,
        GameEnd::Checkmate { winner: Color::Black } => Outcome::BlackWin,
        _ => Outcome::Draw,
    }
}

/// Only a checkmate decides a game: it is won by the checkmating side, and
/// every other way a game ends on the board is a draw.
pub proof fn lemma_only_checkmate_wins(end: GameEnd)
    ensures
        outcome_of_end(end) == Outcome::WhiteWin <==> end == (GameEnd::Checkmate { winner: Color::White }),
        outcome_of_end(end) == Outcome::BlackWin <==> end == (GameEnd::Checkmate { winner: Color::Black }),
        !(end is Checkmate) ==> outcome_of_end(end) == Outcome::Draw,
{
}

/// The result of a position on the board: checkmate is won by the side not
/// to move; without checkmate, stalemate, insufficient material or a
/// halfmove clock of at least 100 is a draw; otherwise the game goes on.
pub proof fn lemma_board_result(fen: Seq<char>)
    ensures
        checkmate_in(fen) ==> (game_end_in(fen) is Some && outcome_of_end(game_end_in(fen).unwrap())
            == if white_to_move_in(fen) {
            Outcome::BlackWin
        } else {
            Outcome::WhiteWin
        }),
        !checkmate_in(fen) && (stalemate_in(fen) || insufficient_material_in(fen) || halfmoves_in(
            fen,
        ) >= 100) ==> (game_end_in(fen) is Some && outcome_of_end(game_end_in(fen).unwrap())
            == Outcome::Draw),
        !checkmate_in(fen) && !stalemate_in(fen) && !insufficient_material_in(fen) && halfmoves_in(
            fen,
        ) < 100 ==> game_end_in(fen) is None,
{
}

/// The result of the game in `position` if it is over on the board:
/// checkmate wins for the side not to move; stalemate, insufficient material
/// and the fifty-move rule draw.
pub fn terminal_outcome(position: &Position) -> (outcome: Option<Outcome>)
    ensures
        outcome == match game_end_in(position@) {
            Some(end) => Some(outcome_of_end(end)),
            None => None,
        },
        checkmate_in(position@) ==> outcome == Some(
            if white_to_move_in(position@) {
                Outcome::BlackWin
            } else {
                Outcome::WhiteWin
            },
        ),
        !checkmate_in(position@) ==> (outcome is None || outcome == Some(Outcome::Draw)),
{
    match position.game_end() {
        Some(GameEnd::Checkmate { winner: Color::White }) => Some(Outcome::WhiteWin),
        Some(GameEnd::Checkmate { winner: Color::Black }) => Some(Outcome::BlackWin),
        Some(_) => Some(Outcome::Draw),
        None => None,
    }
}

/// A finished game: its result, its moves as the engines sent them, and why
/// it ended.
#[derive(Debug)]
pub struct GameResult {
    pub outcome: Outcome,
    pub moves: Vec<String>,
    pub termination: String,
}

pub struct GameResultView {
    pub outcome: Outcome,
    pub moves: Seq<Seq<char>>,
    pub termination: Seq<char>,
}

impl View for GameResult {
    type V = GameResultView;

    open spec fn view(&self) -> GameResultView {
        GameResultView { outcome: self.outcome, moves: texts(self.moves@), termination: self.termination@ }
    }
}

/// The most half-moves a game between engines may last.
pub const MAX_PLIES: usize = 400;

/// The side that did not fail wins when the side to move fails to move.
pub open spec fn forfeit_by(white_to_move: bool) -> Outcome {
    if white_to_move {
        Outcome::BlackWin
    } else {
        Outcome::WhiteWin
    }
}

/// How a game ends before the next move is asked for, if it does: on the
/// board ("Normal"), or as a draw once it has `MAX_PLIES` half-moves.
pub open spec fn finish_of(fen: Seq<char>, moves: Seq<Seq<char>>) -> Option<GameResultView> {
    match game_end_in(fen) {
        Some(end) => Some(
            GameResultView { outcome: outcome_of_end(end), moves, termination: "Normal"@ },
        ),
        None => if moves.len() >= MAX_PLIES {
            Some(GameResultView { outcome: Outcome::Draw, moves, termination: "Zuglimit erreicht"@ })
        } else {
            None
        },
    }
}

/// A game between engines that stops before the next move is won only by
/// checkmate, and then by the side not to move; any other finish is a draw.
pub proof fn lemma_finish_won_only_by_checkmate(fen: Seq<char>, moves: Seq<Seq<char>>)
    ensures
        (finish_of(fen, moves) is Some && finish_of(fen, moves).unwrap().outcome != Outcome::Draw)
            ==> checkmate_in(fen) && finish_of(fen, moves).unwrap().outcome == if white_to_move_in(
            fen,
        ) {
            Outcome::BlackWin
        } else {
            Outcome::WhiteWin
        },
        stalemate_in(fen) && !checkmate_in(fen) ==> finish_of(fen, moves) == Some(
            GameResultView { outcome: Outcome::Draw, moves, termination: "Normal"@ },
        ),
{
}

pub struct EngineGameView {
    pub fen: Seq<char>,
    pub moves: Seq<Seq<char>>,
}

/// A game between two engines, as far as it has been played.
pub struct EngineGame {
    position: Position,
    moves: Vec<String>,
}

impl View for EngineGame {
    type V = EngineGameView;

    closed spec fn view(&self) -> EngineGameView {
        EngineGameView { fen: self.position@, moves: texts(self.moves@) }
    }
}

fn copy_texts(v: &Vec<String>) -> (copy: Vec<String>)
    ensures
        texts(copy@) == texts(v@),
{
    let mut copy: Vec<String> = Vec::new();
    let mut i: usize = 0;
    while i < v.len()
        invariant
            i <= v@.len(),
            copy@.len() == i,
            forall|j: int| 0 <= j < i ==> (#[trigger] copy@[j])@ == v@[j]@,
        decreases v@.len() - i,
    {
        copy.push(v[i].clone());
        i = i + 1;
    }
    assert(texts(copy@) =~= texts(v@));
    copy
}

impl EngineGame {
    /// The moves, played from the start of the game, reach the position.
    pub closed spec fn wf(&self) -> bool {
        position_after(self@.moves) == Some(self@.fen)
    }

    pub fn new() -> (game: EngineGame)
        ensures
            game.wf(),
            game@.fen == initial_fen(),
            game@.moves.len() == 0,
    {
        let game = EngineGame { position: Position::initial(), moves: Vec::new() };
        assert(game@.moves =~= Seq::<Seq<char>>::empty());
        game
    }

    /// The moves so far, as the engines sent them; the engine to move is
    /// given the position as the start position followed by these.
    pub fn moves(&self) -> (moves: &Vec<String>)
        ensures
            texts(moves@) == self@.moves,
    {
        &self.moves
    }

    pub fn position(&self) -> (position: &Position)
        ensures
            position@ == self@.fen,
    {
        &self.position
    }

    /// Whether White's engine is the one to ask for the next move.
    pub fn white_to_move(&self) -> (white: bool)
        ensures
            white == white_to_move_in(self@.fen),
    {
        match self.position.side_to_move() {
            Color::White => true,
            Color::Black => false,
        }
    }

    /// The end of the game, if it ends before the next move: on the board,
    /// or after `MAX_PLIES` half-moves.
    pub fn finished(&self) -> (result: Option<GameResult>)
        ensures
            match result {
                Some(r) => finish_of(self@.fen, self@.moves) == Some(r@),
                None => finish_of(self@.fen, self@.moves) is None,
            },
    {
        match terminal_outcome(&self.position) {
            Some(outcome) => Some(
                GameResult {
                    outcome,
                    moves: copy_texts(&self.moves),
                    termination: String::from_str("Normal"),
                },
            ),
            None => if self.moves.len() >= MAX_PLIES {
                Some(
                    GameResult {
                        outcome: Outcome::Draw,
                        moves: copy_texts(&self.moves),
                        termination: String::from_str("Zuglimit erreicht"),
                    },
                )
            } else {
                None
            },
        }
    }

    /// Takes the reply of the engine to move: none (it crashed, timed out or
    /// had no move) loses the game for it, as do text that is no UCI move and
    /// a move that is not legal; a legal move is played and recorded as sent.
    /// A move that the position refuses to play ends the game with the error
    /// text.
    pub fn apply_reply(&mut self, reply: Option<String>) -> (res: Result<Option<GameResult>, String>)
        requires
            old(self).wf(),
        ensures
            final(self).wf(),
            ({
                let fen = old(self)@.fen;
                let moves = old(self)@.moves;
                let loser_is_white = white_to_move_in(fen);
                match reply {
                    None => res matches Ok(Some(r)) && r@ == (GameResultView {
                        outcome: forfeit_by(loser_is_white),
                        moves,
                        termination: "Engine lieferte keinen Zug (Absturz/Timeout)"@,
                    }) && final(self)@ == old(self)@,
                    Some(best) => match play_uci_in(fen, best@) {
                        Ok((next, _)) => res matches Ok(None) && final(self)@ == (EngineGameView {
                            fen: next,
                            moves: moves.push(best@),
                        }),
                        Err((PlayErrorKind::InvalidNotation, _)) => res matches Ok(Some(r)) && r@ == (
                        GameResultView {
                            outcome: forfeit_by(loser_is_white),
                            moves,
                            termination: "Ung\u{fc}ltiger Zugstring von Engine: "@ + best@,
                        }) && final(self)@ == old(self)@,
                        Err((PlayErrorKind::IllegalMove, _)) => res matches Ok(Some(r)) && r@ == (
                        GameResultView {
                            outcome: forfeit_by(loser_is_white),
                            moves,
                            termination: "Illegaler Zug von Engine: "@ + best@,
                        }) && final(self)@ == old(self)@,
                        Err((PlayErrorKind::NotPlayable, text)) => res matches Err(e) && e@ == text
                            && final(self)@ == old(self)@,
                    },
                }
            }),
    {
        let white = self.white_to_move();
        let forfeit = if white {
            Outcome::BlackWin
        } else {
            Outcome::WhiteWin
        };
        match reply {
            None => Ok(
                Some(
                    GameResult {
                        outcome: forfeit,
                        moves: copy_texts(&self.moves),
                        termination: String::from_str("Engine lieferte keinen Zug (Absturz/Timeout)"),
                    },
                ),
            ),
            Some(best) => {
                match self.position.play_uci(best.as_str()) {
                    Ok((next, _)) => {
                        proof {
                            lemma_position_after_push(self@.moves, best@);
                            assert(texts(self.moves@.push(best)) =~= self@.moves.push(best@));
                        }
                        self.position = next;
                        self.moves.push(best);
                        Ok(None)
                    },
                    Err(failure) => match failure.kind {
                        PlayErrorKind::InvalidNotation => Ok(
                            Some(
                                GameResult {
                                    outcome: forfeit,
                                    moves: copy_texts(&self.moves),
                                    termination: String::from_str(
                                        "Ung\u{fc}ltiger Zugstring von Engine: ",
                                    ).concat(best.as_str()),
                                },
                            ),
                        ),
                        PlayErrorKind::IllegalMove => Ok(
                            Some(
                                GameResult {
                                    outcome: forfeit,
                                    moves: copy_texts(&self.moves),
                                    termination: String::from_str("Illegaler Zug von Engine: ").concat(
                                        best.as_str(),
                                    ),
                                },
                            ),
                        ),
                        PlayErrorKind::NotPlayable => Err(failure.message),
                    },
                }
            },
        }
    }
}

/// The moves of an engine game, played from the start of the game, reach
/// its position.
pub proof fn lemma_engine_moves_reach_position(game: &EngineGame)
    requires
        game.wf(),
    ensures
        position_after(game@.moves) == Some(game@.fen),
{
}

/// A game that has reached `MAX_PLIES` half-moves is over.
pub proof fn lemma_game_length_bounded(fen: Seq<char>, moves: Seq<Seq<char>>)
    requires
        moves.len() >= MAX_PLIES,
    ensures
        finish_of(fen, moves) is Some,
{
}

/// `a` comes before `b` when ordered by White's index, then Black's.
pub open spec fn pair_before(a: (usize, usize), b: (usize, usize)) -> bool {
    a.0 < b.0 || (a.0 == b.0 && a.1 < b.1)
}

/// Every engine meets every other twice, once with each color: all pairs
/// (white, black) of different engines below `n_engines`, ordered by White's
/// index, then Black's.
pub fn round_robin_pairs(n_engines: usize) -> (pairs: Vec<(usize, usize)>)
    ensures
        pairs@.len() == n_engines * (n_engines - 1),
        forall|k: int|
            0 <= k < pairs@.len() ==> (#[trigger] pairs@[k]).0 < n_engines && pairs@[k].1 < n_engines
                && pairs@[k].0 != pairs@[k].1,
        forall|k1: int, k2: int|
            0 <= k1 < k2 < pairs@.len() ==> pair_before(#[trigger] pairs@[k1], #[trigger] pairs@[k2]),
        forall|w: usize, b: usize|
            w < n_engines && b < n_engines && w != b ==> #[trigger] pairs@.contains((w, b)),
        forall|k1: int, k2: int|
            0 <= k1 < pairs@.len() && 0 <= k2 < pairs@.len() && k1 != k2 ==> #[trigger] pairs@[k1]
                != #[trigger] pairs@[k2],
{
    let mut pairs: Vec<(usize, usize)> = Vec::new();
    let mut i: usize = 0;
    while i < n_engines
        invariant
            i <= n_engines,
            pairs@.len() == i * (n_engines - 1),
            forall|k: int|
                0 <= k < pairs@.len() ==> (#[trigger] pairs@[k]).0 < i && pairs@[k].1 < n_engines
                    && pairs@[k].0 != pairs@[k].1,
            forall|k1: int, k2: int|
                0 <= k1 < k2 < pairs@.len() ==> pair_before(#[trigger] pairs@[k1], #[trigger] pairs@[k2]),
            forall|w: usize, b: usize|
                w < i && b < n_engines && w != b ==> #[trigger] pairs@.contains((w, b)),
        decreases n_engines - i,
    {
        let ghost start = pairs@.len();
        let mut j: usize = 0;
        while j < n_engines
            invariant
                i < n_engines,
                j <= n_engines,
                start == i * (n_engines - 1),
                pairs@.len() == start + j - (if j > i {
                    1int
                } else {
                    0int
                }),
                forall|k: int|
                    0 <= k < pairs@.len() ==> (#[trigger] pairs@[k]).0 <= i && pairs@[k].1 < n_engines
                        && pairs@[k].0 != pairs@[k].1,
                forall|k: int| start <= k < pairs@.len() ==> (#[trigger] pairs@[k]).0 == i && pairs@[k].1 < j,
                forall|k: int| 0 <= k < start ==> (#[trigger] pairs@[k]).0 < i,
                forall|k1: int, k2: int|
                    0 <= k1 < k2 < pairs@.len() ==> pair_before(#[trigger] pairs@[k1], #[trigger] pairs@[k2]),
                forall|w: usize, b: usize|
                    (w < i && b < n_engines && w != b) || (w == i && b < j && w != b)
                        ==> #[trigger] pairs@.contains((w, b)),
            decreases n_engines - j,
        {
            if i != j {
                let ghost before = pairs@;
                pairs.push((i, j));
                proof {
                    assert(pairs@[pairs@.len() - 1] == (i, j));
                    assert forall|w: usize, b: usize|
                        (w < i && b < n_engines && w != b) || (w == i && b < j + 1 && w != b) implies #[trigger] pairs@.contains(
                        (w, b),
                    ) by {
                        if w == i && b == j {
                            assert(pairs@[pairs@.len() - 1] == (w, b));
                        } else {
                            assert(before.contains((w, b)));
                            let k = choose|k: int| 0 <= k < before.len() && before[k] == (w, b);
                            assert(pairs@[k] == (w, b));
                        }
                    }
                }
            }
            j = j + 1;
        }
        assert((i + 1) * (n_engines - 1) == i * (n_engines - 1) + (n_engines - 1)) by (nonlinear_arith);
        i = i + 1;
    }
    proof {
        assert forall|k1: int, k2: int|
            0 <= k1 < pairs@.len() && 0 <= k2 < pairs@.len() && k1 != k2 implies #[trigger] pairs@[k1]
            != #[trigger] pairs@[k2] by {
            if k1 < k2 {
                assert(pair_before(pairs@[k1], pairs@[k2]));
            } else {
                assert(pair_before(pairs@[k2], pairs@[k1]));
            }
        }
    }
    pairs
}

/// The engine `test_idx` meets every opponent twice, first with White, then
/// with Black, in the order of `opponents`.
pub fn gauntlet_pairs(test_idx: usize, opponents: &[usize]) -> (pairs: Vec<(usize, usize)>)
    ensures
        pairs@.len() == 2 * opponents@.len(),
        forall|k: int|
            0 <= k < opponents@.len() ==> pairs@[2 * k] == (test_idx, opponents@[k]) && pairs@[2 * k + 1] == (
            opponents@[k],
            test_idx,
        ),
{
    let mut pairs: Vec<(usize, usize)> = Vec::new();
    let mut i: usize = 0;
    while i < opponents.len()
        invariant
            i <= opponents@.len(),
            pairs@.len() == 2 * i,
            forall|k: int|
                0 <= k < i ==> pairs@[2 * k] == (test_idx, opponents@[k]) && pairs@[2 * k + 1] == (
                opponents@[k],
                test_idx,
            ),
        decreases opponents@.len() - i,
    {
        let opp = opponents[i];
        pairs.push((test_idx, opp));
        pairs.push((opp, test_idx));
        i = i + 1;
    }
    pairs
}

/// Wins, draws and losses of the engine under test.
#[derive(Clone, Copy, Debug, PartialEq, Eq, Structural)]
pub struct SprtTally {
    pub wins: u32,
    pub draws: u32,
    pub losses: u32,
}

impl SprtTally {
    pub fn new() -> (tally: SprtTally)
        ensures
            tally == (SprtTally { wins: 0, draws: 0, losses: 0 }),
    {
        SprtTally { wins: 0, draws: 0, losses: 0 }
    }

    /// Counts one game, `outcome_for_test_engine` telling it as a white win
    /// for a win of the engine under test and a black win for its loss.
    pub fn record(&mut self, outcome_for_test_engine: Outcome)
        requires
            match outcome_for_test_engine {
                Outcome::WhiteWin => old(self).wins < u32::MAX,
                Outcome::BlackWin => old(self).losses < u32::MAX,
                Outcome::Draw => old(self).draws < u32::MAX,
            },
        ensures
            *final(self) == match outcome_for_test_engine {
                Outcome::WhiteWin => SprtTally { wins: (old(self).wins + 1) as u32, ..*old(self) },
                Outcome::BlackWin => SprtTally { losses: (old(self).losses + 1) as u32, ..*old(self) },
                Outcome::Draw => SprtTally { draws: (old(self).draws + 1) as u32, ..*old(self) },
            },
    {
        match outcome_for_test_engine {
            Outcome::WhiteWin => self.wins = self.wins + 1,
            Outcome::BlackWin => self.losses = self.losses + 1,
            Outcome::Draw => self.draws = self.draws + 1,
        }
    }

    /// The number of games counted.
    pub fn total(&self) -> (n: u32)
        requires
            self.wins + self.draws + self.losses <= u32::MAX,
        ensures
            n == self.wins + self.draws + self.losses,
    {
        self.wins + self.draws + self.losses
    }
}

/// Each recorded game adds one to the total.
pub proof fn lemma_record_adds_one_game(before: SprtTally, after: SprtTally, outcome: Outcome)
    requires
        after == match outcome {
            Outcome::WhiteWin => SprtTally { wins: (before.wins + 1) as u32, ..before },
            Outcome::BlackWin => SprtTally { losses: (before.losses + 1) as u32, ..before },
            Outcome::Draw => SprtTally { draws: (before.draws + 1) as u32, ..before },
        },
        match outcome {
            Outcome::WhiteWin => before.wins < u32::MAX,
            Outcome::BlackWin => before.losses < u32::MAX,
            Outcome::Draw => before.draws < u32::MAX,
        },
    ensures
        after.wins + after.draws + after.losses == before.wins + before.draws + before.losses + 1,
{
}

} // verus!
