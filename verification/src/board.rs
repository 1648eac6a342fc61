//! The state of the board in the graphical front end: the position, the
//! moves played so far, the square the player has picked up and the squares
//! it can move to, and whether the board is drawn turned around.

use vstd::prelude::*;
use crate::pieces::{
    from_screen, lemma_index_injective, option_piece_code, screen_cell, square_at_pixel_defined, square_at_pixel_spec,
    square_of_index, to_screen, Color, Piece, Role, Square,
};
use crate::position::{
    game_end_in, initial_fen, piece_at_in, play_uci_in,
    position_after, uci_texts, white_to_move_in, legal_moves_in, ChessMove, GameEnd,
    PlayErrorKind, Position, RawMove,
};

verus! {

/// The board as the contracts see it.
pub struct BoardView {
    /// FEN of the current position.
    pub fen: Seq<char>,
    /// The moves played since the start, oldest first.
    pub history: Seq<RawMove>,
    /// The square picked up by the first click of a move.
    pub selected: Option<Square>,
    /// The squares the picked-up piece can move to.
    pub targets: Seq<Square>,
    /// Whether Black's side is drawn at the bottom.
    pub flipped: bool,
}

/// A move chosen by a click on its origin and its target qualifies if it
/// promotes to nothing or to a queen.
pub open spec fn is_click_move(m: RawMove, from: u8, to: u8) -> bool {
    &&& m.0 == Some(from)
    &&& m.1 == to
    &&& (m.2 is None || m.2 == Some(Role::Queen.code()))
}

pub open spec fn is_first_click_move(moves: Seq<RawMove>, from: u8, to: u8, i: int) -> bool {
    &&& 0 <= i < moves.len()
    &&& is_click_move(moves[i], from, to)
    &&& forall|j: int| 0 <= j < i ==> !is_click_move(#[trigger] moves[j], from, to)
}

/// The position in `moves` of the first move that a click from `from` to
/// `to` chooses, if there is one.
pub open spec fn first_click_move(moves: Seq<RawMove>, from: u8, to: u8) -> Option<int> {
    if exists|i: int| is_first_click_move(moves, from, to, i) {
        Some(choose|i: int| is_first_click_move(moves, from, to, i))
    } else {
        None
    }
}

/// The targets of the moves in `moves` that start on square `from`, in the
/// order of the moves.
pub open spec fn destinations(moves: Seq<RawMove>, from: u8) -> Seq<u8>
    decreases moves.len(),
{
    if moves.len() == 0 {
        Seq::empty()
    } else {
        let rest = destinations(moves.drop_last(), from);
        if moves.last().0 == Some(from) {
            rest.push(moves.last().1)
        } else {
            rest
        }
    }
}

pub open spec fn square_indices(squares: Seq<Square>) -> Seq<u8> {
    squares.map_values(|s: Square| s.index_spec())
}

/// A first click on `square` picks it up when one of the pieces of the side
/// to move stands there.
pub open spec fn click_picks_up(fen: Seq<char>, square: u8) -> bool {
    piece_at_in(fen, square) matches Some((white, _)) && white == white_to_move_in(fen)
}

/// A first click picks up exactly the pieces of the side to move: a piece
/// whose colour is the side to move is picked up, one of the other side is
/// not, and an empty square never is.
pub proof fn lemma_click_picks_up_side_to_move(fen: Seq<char>, square: u8)
    ensures
        piece_at_in(fen, square) is None ==> !click_picks_up(fen, square),
        (piece_at_in(fen, square) is Some && piece_at_in(fen, square).unwrap().0 == white_to_move_in(
            fen,
        )) ==> click_picks_up(fen, square),
        (piece_at_in(fen, square) is Some && piece_at_in(fen, square).unwrap().0 != white_to_move_in(
            fen,
        )) ==> !click_picks_up(fen, square),
{
}

/// The FEN reached by playing `uci` in `fen`, if it plays.
pub open spec fn fen_after(fen: Seq<char>, uci: Seq<char>) -> Seq<char> {
    match play_uci_in(fen, uci) {
        Ok((next, _)) => next,
        Err(_) => fen,
    }
}

/// The message shown when the game is over.
pub open spec fn game_over_text(end: Option<GameEnd>) -> Option<Seq<char>> {
    match end {
        Some(GameEnd::Checkmate { winner: Color::Black }) => Some("Matt \u{2013} Schwarz gewinnt"@),
        Some(GameEnd::Checkmate { winner: Color::White }) => Some("Matt \u{2013} Wei\u{df} gewinnt"@),
        Some(GameEnd::Stalemate) => Some("Patt \u{2013} Remis"@),
        Some(GameEnd::InsufficientMaterial) => Some("Remis \u{2013} ungen\u{fc}gendes Material"@),
        Some(GameEnd::FiftyMoveRule) => Some("Remis \u{2013} 50-Z\u{fc}ge-Regel"@),
        None => None,
    }
}

pub open spec fn option_text(text: Option<String>) -> Option<Seq<char>> {
    match text {
        Some(t) => Some(t@),
        None => None,
    }
}

/// The message of a refused UCI move.
pub open spec fn push_error_text(kind: PlayErrorKind, uci: Seq<char>) -> Seq<char> {
    match kind {
        PlayErrorKind::InvalidNotation => "Ung\u{fc}ltiger UCI-Zug: "@ + uci,
        PlayErrorKind::IllegalMove => "Illegaler Zug: "@ + uci,
        PlayErrorKind::NotPlayable => "Zug konnte nicht gespielt werden: "@ + uci,
    }
}

/// The views of a list of moves.
pub open spec fn move_views(moves: Seq<ChessMove>) -> Seq<RawMove> {
    moves.map_values(|m: ChessMove| m@)
}

/// The FEN reached by a recorded game: each recorded move is the move that
/// its own UCI text plays in the position before it, starting from the
/// standard start. None if some move does not fit.
pub open spec fn recorded_game(history: Seq<RawMove>) -> Option<Seq<char>>
    decreases history.len(),
{
    if history.len() == 0 {
        Some(initial_fen())
    } else {
        match recorded_game(history.drop_last()) {
            Some(fen) => match play_uci_in(fen, history.last().3) {
                Ok((next, m)) => if m == history.last() {
                    Some(next)
                } else {
                    None
                },
                Err(_) => None,
            },
            None => None,
        }
    }
}

/// What a fresh board holds after `push_uci` of each of `ucis` in turn: its
/// position and its recorded moves, or none if one of the texts does not
/// play.
pub open spec fn replay_pushes(ucis: Seq<Seq<char>>) -> Option<(Seq<char>, Seq<RawMove>)>
    decreases ucis.len(),
{
    if ucis.len() == 0 {
        Some((initial_fen(), Seq::empty()))
    } else {
        match replay_pushes(ucis.drop_last()) {
            Some((fen, history)) => match play_uci_in(fen, ucis.last()) {
                Ok((next, m)) => Some((next, history.push(m))),
                Err(_) => None,
            },
            None => None,
        }
    }
}

/// The board is consistent: its recorded moves, played one after the other
/// from the start, reach its position; the squares it holds are on the
/// board; nothing is marked unless a square is picked up.
pub open spec fn view_consistent(v: BoardView) -> bool {
    &&& recorded_game(v.history) == Some(v.fen)
    &&& (v.selected matches Some(s) ==> s.wf())
    &&& (v.selected is None ==> v.targets.len() == 0)
    &&& forall|i: int| 0 <= i < v.targets.len() ==> (#[trigger] v.targets[i]).wf()
}

/// `t` is the target of a move in `moves` that starts on `from`.
pub open spec fn has_move_between(moves: Seq<RawMove>, from: u8, t: u8) -> bool {
    exists|i: int| 0 <= i < moves.len() && (#[trigger] moves[i]).0 == Some(from) && moves[i].1 == t
}

proof fn lemma_destinations_contains(moves: Seq<RawMove>, from: u8, t: u8)
    ensures
        destinations(moves, from).contains(t) <==> has_move_between(moves, from, t),
    decreases moves.len(),
{
    if moves.len() > 0 {
        let init = moves.drop_last();
        lemma_destinations_contains(init, from, t);
        let rest = destinations(init, from);
        if has_move_between(moves, from, t) {
            let i = choose|i: int| 0 <= i < moves.len() && (#[trigger] moves[i]).0 == Some(from) && moves[i].1 == t;
            if i < moves.len() - 1 {
                assert(init[i] == moves[i]);
                assert(has_move_between(init, from, t));
                let k = choose|k: int| 0 <= k < rest.len() && rest[k] == t;
                if moves.last().0 == Some(from) {
                    assert(rest.push(moves.last().1)[k] == t);
                }
            } else {
                assert(rest.push(moves.last().1)[rest.len() as int] == t);
            }
        }
        if destinations(moves, from).contains(t) {
            let d = destinations(moves, from);
            let k = choose|k: int| 0 <= k < d.len() && d[k] == t;
            if moves.last().0 == Some(from) && k == rest.len() {
                assert(moves[moves.len() - 1].0 == Some(from) && moves[moves.len() - 1].1 == t);
            } else {
                assert(rest[k] == t);
                assert(rest.contains(t));
                let i = choose|i: int| 0 <= i < init.len() && (#[trigger] init[i]).0 == Some(from) && init[i].1 == t;
                assert(moves[i] == init[i]);
            }
        }
    }
}

/// The position of the first move in `moves` that a click from `from` to
/// `to` chooses (see `first_click_move`).
pub fn first_click_index(moves: &Vec<ChessMove>, from: Square, to: Square) -> (found: Option<usize>)
    requires
        from.wf(),
        to.wf(),
        forall|j: int| 0 <= j < moves@.len() ==> (#[trigger] moves@[j]).wf(),
    ensures
        match first_click_move(move_views(moves@), from.index_spec(), to.index_spec()) {
            None => found is None,
            Some(k) => found == Some(k as usize),
        },
{
    let from_index = from.index();
    let to_index = to.index();
    let ghost views = move_views(moves@);
    let mut i: usize = 0;
    while i < moves.len()
        invariant
            i <= moves@.len(),
            views == move_views(moves@),
            forall|j: int| 0 <= j < moves@.len() ==> (#[trigger] moves@[j]).wf(),
            forall|j: int| 0 <= j < i ==> !is_click_move(#[trigger] views[j], from_index, to_index),
            from_index == from.index_spec(),
            to_index == to.index_spec(),
        decreases moves@.len() - i,
    {
        let m = &moves[i];
        let from_matches = match m.from {
            Some(f) => f.index() == from_index,
            None => false,
        };
        proof {
            assert(views[i as int] == m@);
        }
        if from_matches && m.to.index() == to_index {
            let promotion_ok = match m.promotion {
                None => true,
                Some(Role::Queen) => true,
                Some(_) => false,
            };
            if promotion_ok {
                proof {
                    assert(is_first_click_move(views, from_index, to_index, i as int));
                    let k = choose|k: int| is_first_click_move(views, from_index, to_index, k);
                    assert(k == i) by {
                        if k < i {
                            assert(!is_click_move(views[k], from_index, to_index));
                        }
                        if k > i {
                            assert(!is_click_move(views[i as int], from_index, to_index));
                        }
                    }
                }
                return Some(i);
            }
        }
        i = i + 1;
    }
    proof {
        assert(!exists|k: int| is_first_click_move(views, from_index, to_index, k));
    }
    None
}

/// The targets of the moves in `moves` that start on `from`, in the order
/// of the moves: exactly the squares a move from `from` goes to.
pub fn click_targets(moves: &Vec<ChessMove>, from: Square) -> (targets: Vec<Square>)
    requires
        from.wf(),
        forall|j: int| 0 <= j < moves@.len() ==> (#[trigger] moves@[j]).wf(),
    ensures
        square_indices(targets@) == destinations(move_views(moves@), from.index_spec()),
        forall|i: int| 0 <= i < targets@.len() ==> (#[trigger] targets@[i]).wf(),
        forall|s: Square|
            s.wf() ==> (targets@.contains(s) <==> has_move_between(
                move_views(moves@),
                from.index_spec(),
                s.index_spec(),
            )),
{
    let from_index = from.index();
    let ghost views = move_views(moves@);
    let mut targets: Vec<Square> = Vec::new();
    let mut i: usize = 0;
    while i < moves.len()
        invariant
            i <= moves@.len(),
            views == move_views(moves@),
            forall|j: int| 0 <= j < moves@.len() ==> (#[trigger] moves@[j]).wf(),
            square_indices(targets@) == destinations(views.take(i as int), from_index),
            forall|j: int| 0 <= j < targets@.len() ==> (#[trigger] targets@[j]).wf(),
            from_index == from.index_spec(),
        decreases moves@.len() - i,
    {
        let m = &moves[i];
        let starts_here = match m.from {
            Some(f) => f.index() == from_index,
            None => false,
        };
        proof {
            assert(views.take(i + 1).drop_last() =~= views.take(i as int));
            assert(views[i as int] == m@);
        }
        if starts_here {
            proof {
                assert(square_indices(targets@.push(m.to)) =~= square_indices(targets@).push(
                    m.to.index_spec(),
                ));
            }
            targets.push(m.to);
        }
        i = i + 1;
    }
    proof {
        assert(views.take(moves@.len() as int) =~= views);
        assert forall|s: Square| s.wf() implies (targets@.contains(s) <==> has_move_between(
            views,
            from_index,
            s.index_spec(),
        )) by {
            lemma_destinations_contains(views, from_index, s.index_spec());
            let idx = square_indices(targets@);
            if targets@.contains(s) {
                let k = choose|k: int| 0 <= k < targets@.len() && targets@[k] == s;
                assert(idx[k] == s.index_spec());
            }
            if idx.contains(s.index_spec()) {
                let k = choose|k: int| 0 <= k < idx.len() && idx[k] == s.index_spec();
                lemma_index_injective(targets@[k], s);
                assert(targets@[k] == s);
            }
        }
    }
    targets
}

/// What is drawn in one square of the board.
#[derive(Clone, Copy, Debug)]
pub struct BoardCell {
    pub square: Square,
    /// Screen column, 0 at the left.
    pub column: u32,
    /// Screen row, 0 at the top.
    pub row: u32,
    /// Dark squares are those whose file and rank add up to an even number.
    pub dark: bool,
    /// The square is the one picked up.
    pub highlighted: bool,
    pub piece: Option<Piece>,
    /// The picked-up piece can move here.
    pub target: bool,
}

/// The position and the moves that led to it.
struct GameRecord {
    position: Position,
    history: Vec<ChessMove>,
}

impl GameRecord {
    fn start() -> (record: GameRecord)
        ensures
            record.position@ == initial_fen(),
            record.history@.len() == 0,
    {
        GameRecord { position: Position::initial(), history: Vec::new() }
    }
}

pub struct BoardState {
    record: GameRecord,
    selected: Option<Square>,
    legal_targets: Vec<Square>,
    flipped: bool,
}

impl View for BoardState {
    type V = BoardView;

    closed spec fn view(&self) -> BoardView {
        BoardView {
            fen: self.record.position@,
            history: move_views(self.record.history@),
            selected: self.selected,
            targets: self.legal_targets@,
            flipped: self.flipped,
        }
    }
}

impl BoardState {
    #[verifier::type_invariant]
    spec fn consistent(self) -> bool {
        &&& view_consistent(self@)
        &&& forall|i: int| 0 <= i < self.record.history@.len() ==> (#[trigger] self.record.history@[i]).wf()
    }

    pub fn new() -> (board: BoardState)
        ensures
            view_consistent(board@),
            board@ == (BoardView {
                fen: initial_fen(),
                history: Seq::empty(),
                selected: None,
                targets: Seq::empty(),
                flipped: false,
            }),
    {
        let board = BoardState {
            record: GameRecord::start(),
            selected: None,
            legal_targets: Vec::new(),
            flipped: false,
        };
        assert(board@.history =~= Seq::empty());
        board
    }

    /// Back to the start of the game; the board stays turned as it was.
    pub fn reset(&mut self)
        ensures
            view_consistent(final(self)@),
            final(self)@ == (BoardView {
                fen: initial_fen(),
                history: Seq::empty(),
                selected: None,
                targets: Seq::empty(),
                flipped: old(self)@.flipped,
            }),
    {
        proof {
            use_type_invariant(&*self);
        }
        self.legal_targets = Vec::new();
        self.selected = None;
        let record = GameRecord::start();
        proof {
            assert(move_views(record.history@) =~= Seq::empty());
        }
        self.record = record;
    }

    pub fn fen(&self) -> (fen: String)
        ensures
            fen@ == self@.fen,
    {
        self.record.position.fen()
    }

    pub fn position(&self) -> (position: &Position)
        ensures
            position@ == self@.fen,
    {
        &self.record.position
    }

    pub fn side_to_move(&self) -> (c: Color)
        ensures
            (c == Color::White) == white_to_move_in(self@.fen),
    {
        self.record.position.side_to_move()
    }

    pub fn selected(&self) -> (selected: Option<Square>)
        ensures
            selected == self@.selected,
            view_consistent(self@),
    {
        proof {
            use_type_invariant(self);
        }
        self.selected
    }

    pub fn legal_targets(&self) -> (targets: &Vec<Square>)
        ensures
            targets@ == self@.targets,
            view_consistent(self@),
    {
        proof {
            use_type_invariant(self);
        }
        &self.legal_targets
    }

    pub fn is_flipped(&self) -> (flipped: bool)
        ensures
            flipped == self@.flipped,
    {
        self.flipped
    }

    /// Turns the board around; nothing else changes.
    pub fn flip(&mut self)
        ensures
            view_consistent(final(self)@),
            final(self)@ == (BoardView { flipped: !old(self)@.flipped, ..old(self)@ }),
    {
        proof {
            use_type_invariant(&*self);
        }
        self.flipped = !self.flipped;
    }

    /// The moves played so far in UCI notation, oldest first. Pushed one
    /// after the other onto a new board, they reach the same position and
    /// record the same moves.
    pub fn uci_history(&self) -> (ucis: Vec<String>)
        ensures
            ucis@.len() == self@.history.len(),
            forall|i: int| 0 <= i < ucis@.len() ==> (#[trigger] ucis@[i])@ == self@.history[i].3,
            replay_pushes(ucis@.map_values(|u: String| u@)) == Some((self@.fen, self@.history)),
            position_after(ucis@.map_values(|u: String| u@)) == Some(self@.fen),
    {
        proof {
            use_type_invariant(self);
        }
        let history = &self.record.history;
        let mut ucis: Vec<String> = Vec::new();
        let mut i: usize = 0;
        while i < history.len()
            invariant
                i <= history@.len(),
                ucis@.len() == i,
                forall|j: int| 0 <= j < i ==> (#[trigger] ucis@[j])@ == history@[j]@.3,
            decreases history@.len() - i,
        {
            ucis.push(history[i].uci.clone());
            i = i + 1;
        }
        proof {
            assert(ucis@.map_values(|u: String| u@) =~= uci_texts(self@.history));
            lemma_replay_records_same_moves(self@.history);
            lemma_recorded_game_position(self@.history);
        }
        ucis
    }

    /// The first legal move from `from` to `to` that promotes to nothing or
    /// to a queen is played and recorded, and returned; without such a move
    /// nothing changes.
    pub fn try_human_move(&mut self, from: Square, to: Square) -> (played: Option<ChessMove>)
        requires
            from.wf(),
            to.wf(),
        ensures
            view_consistent(final(self)@),
            ({
                let moves = legal_moves_in(old(self)@.fen);
                match first_click_move(moves, from.index_spec(), to.index_spec()) {
                    None => played is None && final(self)@ == old(self)@,
                    Some(i) => played matches Some(m) && m@ == moves[i] && m.wf() && final(self)@ == (
                    BoardView {
                        fen: fen_after(old(self)@.fen, moves[i].3),
                        history: old(self)@.history.push(moves[i]),
                        ..old(self)@
                    }),
                }
            }),
    {
        proof {
            use_type_invariant(&*self);
        }
        let legals = self.record.position.legal_moves();
        proof {
            assert(move_views(legals@) =~= legal_moves_in(self@.fen));
        }
        match first_click_index(&legals, from, to) {
            Some(k) => self.play_listed_move(&legals[k]),
            None => None,
        }
    }

    /// Plays a move taken from the list of legal moves of the position.
    fn play_listed_move(&mut self, m: &ChessMove) -> (played: Option<ChessMove>)
        requires
            m.wf(),
            play_uci_in(old(self)@.fen, m.uci@) matches Ok((_, r)) && r == m@,
        ensures
            view_consistent(final(self)@),
            played matches Some(p) && p@ == m@ && p.wf(),
            final(self)@ == (BoardView {
                fen: fen_after(old(self)@.fen, m@.3),
                history: old(self)@.history.push(m@),
                ..old(self)@
            }),
    {
        proof {
            use_type_invariant(&*self);
        }
        let mut record = GameRecord::start();
        std::mem::swap(&mut record, &mut self.record);
        match record.position.play_uci(m.uci.as_str()) {
            Ok((next, _)) => {
                let ghost old_history = record.history@;
                record.position = next;
                record.history.push(m.duplicate());
                proof {
                    assert(move_views(record.history@) =~= move_views(old_history).push(m@));
                    assert(move_views(record.history@).drop_last() =~= move_views(old_history));
                }
                self.record = record;
                Some(m.duplicate())
            },
            Err(_) => {
                self.record = record;
                None
            },
        }
    }

    /// Plays a move given in UCI notation and records it (in standard UCI
    /// notation); a move that does not play leaves the board as it was and
    /// is answered with a message that quotes it.
    pub fn push_uci(&mut self, uci_str: &str) -> (res: Result<(), String>)
        ensures
            view_consistent(final(self)@),
            match play_uci_in(old(self)@.fen, uci_str@) {
                Ok((next, m)) => res is Ok && final(self)@ == (BoardView {
                    fen: next,
                    history: old(self)@.history.push(m),
                    ..old(self)@
                }),
                Err((kind, _)) => res matches Err(text) && text@ == push_error_text(kind, uci_str@)
                    && final(self)@ == old(self)@,
            },
    {
        proof {
            use_type_invariant(&*self);
        }
        match self.record.position.play_uci(uci_str) {
            Ok((next, m)) => {
                let mut record = GameRecord::start();
                std::mem::swap(&mut record, &mut self.record);
                let ghost old_history = record.history@;
                record.position = next;
                record.history.push(m);
                proof {
                    assert(move_views(record.history@) =~= move_views(old_history).push(
                        play_uci_in(old(self)@.fen, uci_str@)->Ok_0.1,
                    ));
                    assert(move_views(record.history@).drop_last() =~= move_views(old_history));
                }
                self.record = record;
                Ok(())
            },
            Err(failure) => {
                let prefix = match failure.kind {
                    PlayErrorKind::InvalidNotation => "Ung\u{fc}ltiger UCI-Zug: ",
                    PlayErrorKind::IllegalMove => "Illegaler Zug: ",
                    PlayErrorKind::NotPlayable => "Zug konnte nicht gespielt werden: ",
                };
                let text = String::from_str(prefix).concat(uci_str);
                Err(text)
            },
        }
    }

    /// The message announcing the end of the game, if the game is over.
    pub fn game_over_message(&self) -> (message: Option<String>)
        ensures
            option_text(message) == game_over_text(game_end_in(self@.fen)),
    {
        match self.record.position.game_end() {
            Some(GameEnd::Checkmate { winner: Color::Black }) => Some(
                String::from_str("Matt \u{2013} Schwarz gewinnt"),
            ),
            Some(GameEnd::Checkmate { winner: Color::White }) => Some(
                String::from_str("Matt \u{2013} Wei\u{df} gewinnt"),
            ),
            Some(GameEnd::Stalemate) => Some(String::from_str("Patt \u{2013} Remis")),
            Some(GameEnd::InsufficientMaterial) => Some(
                String::from_str("Remis \u{2013} ungen\u{fc}gendes Material"),
            ),
            Some(GameEnd::FiftyMoveRule) => Some(String::from_str("Remis \u{2013} 50-Z\u{fc}ge-Regel")),
            None => None,
        }
    }

    /// The screen cell (column, row) in which the square on `file` and `rank`
    /// is drawn.
    pub fn to_screen(&self, file: u32, rank: u32) -> (cell: (u32, u32))
        requires
            file < 8,
            rank < 8,
        ensures
            (cell.0 as int, cell.1 as int) == screen_cell(self@.flipped, file as int, rank as int),
            cell.0 < 8,
            cell.1 < 8,
    {
        to_screen(self.flipped, file, rank)
    }

    /// The square drawn in screen cell (`col`, `row`).
    pub fn from_screen(&self, col: u32, row: u32) -> (sq: Square)
        requires
            col < 8,
            row < 8,
        ensures
            (sq.file as int, sq.rank as int) == crate::pieces::board_coords(
                self@.flipped,
                col as int,
                row as int,
            ),
            sq.wf(),
    {
        from_screen(self.flipped, col, row)
    }

    /// The square under pixel (`x`, `y`) of the board drawn with its top-left
    /// corner at (`origin_x`, `origin_y`) and squares `square_size` wide.
    pub fn square_at_pixel(&self, x: i32, y: i32, origin_x: i32, origin_y: i32, square_size: i32) -> (sq:
        Option<Square>)
        requires
            square_at_pixel_defined(x as int, y as int, origin_x as int, origin_y as int, square_size as int),
        ensures
            sq == square_at_pixel_spec(
                self@.flipped,
                x as int,
                y as int,
                origin_x as int,
                origin_y as int,
                square_size as int,
            ),
            sq matches Some(s) ==> s.wf(),
    {
        crate::pieces::square_at_pixel(self.flipped, x, y, origin_x, origin_y, square_size)
    }

    /// A click on a square. With nothing picked up, a click on a piece of the
    /// side to move picks it up and marks exactly the squares its legal moves
    /// go to; a click elsewhere does nothing. With a square picked up, the
    /// click chooses the target: the move is played as `try_human_move` plays
    /// it, and the pick-up and the marks are dropped either way.
    pub fn handle_click(&mut self, clicked: Square) -> (played: Option<ChessMove>)
        requires
            clicked.wf(),
        ensures
            view_consistent(final(self)@),
            match old(self)@.selected {
                None => {
                    &&& played is None
                    &&& final(self)@.fen == old(self)@.fen
                    &&& final(self)@.history == old(self)@.history
                    &&& final(self)@.flipped == old(self)@.flipped
                    &&& (final(self)@.selected is Some <==> (piece_at_in(
                        old(self)@.fen,
                        clicked.index_spec(),
                    ) is Some && piece_at_in(old(self)@.fen, clicked.index_spec()).unwrap().0
                        == white_to_move_in(old(self)@.fen)))
                    &&& if click_picks_up(old(self)@.fen, clicked.index_spec()) {
                        &&& final(self)@.selected == Some(clicked)
                        &&& square_indices(final(self)@.targets) == destinations(
                            legal_moves_in(old(self)@.fen),
                            clicked.index_spec(),
                        )
                        &&& forall|i: int|
                            0 <= i < final(self)@.targets.len() ==> (#[trigger] final(self)@.targets[i]).wf()
                        &&& forall|s: Square|
                            s.wf() ==> (final(self)@.targets.contains(s) <==> has_move_between(
                                legal_moves_in(old(self)@.fen),
                                clicked.index_spec(),
                                s.index_spec(),
                            ))
                    } else {
                        final(self)@ == old(self)@
                    }
                },
                Some(from) => {
                    let moves = legal_moves_in(old(self)@.fen);
                    &&& final(self)@.selected is None
                    &&& final(self)@.targets.len() == 0
                    &&& final(self)@.flipped == old(self)@.flipped
                    &&& match first_click_move(moves, from.index_spec(), clicked.index_spec()) {
                        None => played is None && final(self)@.fen == old(self)@.fen
                            && final(self)@.history == old(self)@.history,
                        Some(i) => played matches Some(m) && m@ == moves[i] && m.wf() && final(self)@.fen
                            == fen_after(old(self)@.fen, moves[i].3) && final(self)@.history == old(
                            self,
                        )@.history.push(moves[i]),
                    }
                },
            },
    {
        proof {
            use_type_invariant(&*self);
        }
        match self.selected {
            None => {
                match self.record.position.piece_at(clicked) {
                    Some(piece) => {
                        let turn = self.record.position.side_to_move();
                        if piece.color == turn {
                            let legals = self.record.position.legal_moves();
                            proof {
                                assert(move_views(legals@) =~= legal_moves_in(self@.fen));
                            }
                            let targets = click_targets(&legals, clicked);
                            self.selected = Some(clicked);
                            self.legal_targets = targets;
                        }
                    },
                    None => {},
                }
                None
            },
            Some(from) => {
                let result = self.try_human_move(from, clicked);
                proof {
                    use_type_invariant(&*self);
                }
                self.legal_targets = Vec::new();
                self.selected = None;
                result
            },
        }
    }

    /// What to draw in each of the 64 squares, a1 first, then along the
    /// first rank, then rank by rank.
    pub fn board_cells(&self) -> (cells: Vec<BoardCell>)
        ensures
            cells@.len() == 64,
            forall|k: int|
                0 <= k < 64 ==> {
                    let c = #[trigger] cells@[k];
                    let sq = square_of_index(k as u8);
                    let cell = screen_cell(self@.flipped, sq.file as int, sq.rank as int);
                    &&& c.square == sq
                    &&& c.column == cell.0
                    &&& c.row == cell.1
                    &&& c.dark == ((sq.file + sq.rank) % 2 == 0)
                    &&& c.highlighted == (self@.selected == Some(sq))
                    &&& option_piece_code(c.piece) == piece_at_in(self@.fen, k as u8)
                    &&& c.target == self@.targets.contains(sq)
                },
    {
        let mut cells: Vec<BoardCell> = Vec::new();
        let mut index: u8 = 0;
        while index < 64
            invariant
                index <= 64,
                cells@.len() == index,
                forall|k: int|
                    0 <= k < index ==> {
                        let c = #[trigger] cells@[k];
                        let sq = square_of_index(k as u8);
                        let cell = screen_cell(self@.flipped, sq.file as int, sq.rank as int);
                        &&& c.square == sq
                        &&& c.column == cell.0
                        &&& c.row == cell.1
                        &&& c.dark == ((sq.file + sq.rank) % 2 == 0)
                        &&& c.highlighted == (self@.selected == Some(sq))
                        &&& option_piece_code(c.piece) == piece_at_in(self@.fen, k as u8)
                        &&& c.target == self@.targets.contains(sq)
                    },
            decreases 64 - index,
        {
            let square = Square::from_index(index);
            let (column, row) = self.to_screen(square.file as u32, square.rank as u32);
            let highlighted = match self.selected {
                Some(s) => s == square,
                None => false,
            };
            let piece = self.record.position.piece_at(square);
            let target = self.is_target(square);
            cells.push(
                BoardCell {
                    square,
                    column,
                    row,
                    dark: (square.file + square.rank) % 2 == 0,
                    highlighted,
                    piece,
                    target,
                },
            );
            index = index + 1;
        }
        cells
    }

    fn is_target(&self, square: Square) -> (found: bool)
        ensures
            found == self@.targets.contains(square),
    {
        let mut i: usize = 0;
        while i < self.legal_targets.len()
            invariant
                i <= self.legal_targets@.len(),
                forall|j: int| 0 <= j < i ==> self.legal_targets@[j] != square,
            decreases self.legal_targets@.len() - i,
        {
            if self.legal_targets[i] == square {
                proof {
                    assert(self@.targets[i as int] == square);
                }
                return true;
            }
            i = i + 1;
        }
        false
    }
}

/// Pushing the recorded moves' UCI texts one after the other onto a new
/// board reaches the same position and records the same moves.
pub proof fn lemma_replay_records_same_moves(history: Seq<RawMove>)
    requires
        recorded_game(history) is Some,
    ensures
        replay_pushes(uci_texts(history)) == Some((recorded_game(history)->0, history)),
    decreases history.len(),
{
    if history.len() > 0 {
        let init = history.drop_last();
        lemma_replay_records_same_moves(init);
        assert(uci_texts(history).drop_last() =~= uci_texts(init));
        assert(init.push(history.last()) =~= history);
    }
}

/// The recorded moves' UCI texts, played from the start of the game, reach
/// the position of the recorded game.
pub proof fn lemma_recorded_game_position(history: Seq<RawMove>)
    requires
        recorded_game(history) is Some,
    ensures
        position_after(uci_texts(history)) == recorded_game(history),
    decreases history.len(),
{
    if history.len() > 0 {
        let init = history.drop_last();
        lemma_recorded_game_position(init);
        assert(uci_texts(history).drop_last() =~= uci_texts(init));
    }
}

/// Replaying the recorded moves of a board from the start reaches its
/// position, and pushing their UCI texts onto a new board records the same
/// moves.
pub proof fn lemma_board_history_replays(board: BoardView)
    requires
        view_consistent(board),
    ensures
        position_after(uci_texts(board.history)) == Some(board.fen),
        replay_pushes(uci_texts(board.history)) == Some((board.fen, board.history)),
{
    lemma_replay_records_same_moves(board.history);
    lemma_recorded_game_position(board.history);
}

/// Without a picked-up square no square is marked.
pub proof fn lemma_no_targets_without_selection(board: BoardView)
    requires
        view_consistent(board),
        board.selected is None,
    ensures
        board.targets.len() == 0,
{
}

} // verus!
