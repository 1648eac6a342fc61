//! Chess positions held as FEN text, and the calls into `shakmaty` that read
//! and advance them.
//!
//! `shakmaty` computes everything that depends on the rules of chess: the
//! legal moves, whose turn it is, what stands on a square, checkmate,
//! stalemate, insufficient material, the halfmove clock and the position
//! after a move. Each of these results is named by an uninterpreted spec
//! function of the FEN text (and of the other plain arguments); the trusted
//! wrappers below say that the call returns exactly that named value, plus
//! the few facts about it that `shakmaty`'s source shows and the library
//! needs.

use vstd::prelude::*;
use crate::pieces::{option_piece_code, piece_from_code, Color, Piece, Role, Square};
use shakmaty::fen::Fen;
use shakmaty::uci::UciMove;
use shakmaty::{CastlingMode, Chess, EnPassantMode};
use shakmaty::Position as _;

verus! {

/// A move as plain values: the index of its origin square (none for a
/// drop), the index of its target square (for castling, the rook's square),
/// the code of the promotion role if any, and its UCI text in standard
/// castling notation.
pub type RawMove = (Option<u8>, u8, Option<u8>, Seq<char>);

/// A move as the trusted calls hand it over.
pub type ExecRawMove = (Option<u8>, u8, Option<u8>, String);

pub open spec fn raw_view(m: ExecRawMove) -> RawMove {
    (m.0, m.1, m.2, m.3@)
}

/// Square indices below 64 and promotion codes of real roles.
pub open spec fn raw_move_valid(m: RawMove) -> bool {
    &&& (m.0 matches Some(f) ==> f < 64)
    &&& m.1 < 64
    &&& (m.2 matches Some(p) ==> 1 <= p <= 6)
}

/// Why a move given in UCI notation was not played.
#[derive(Clone, Copy, Debug, PartialEq, Eq, Structural)]
pub enum PlayErrorKind {
    /// The text is not a move in UCI notation.
    InvalidNotation,
    /// The text is a move, but not a legal one in the position.
    IllegalMove,
    /// The position refused to play the move.
    NotPlayable,
}

/// The start of the standard game, in FEN.
pub open spec fn initial_fen() -> Seq<char> {
    "rnbqkbnr/pppppppp/8/8/8/8/PPPPPPPP/RNBQKBNR w KQkq - 0 1"@
}

/// `fen` parses as FEN and sets up a standard chess position that `shakmaty`
/// accepts (`Fen::from_ascii` followed by `Fen::into_position::<Chess>` with
/// standard castling).
pub uninterp spec fn fen_describes_position(fen: Seq<char>) -> bool;

/// `Position::legal_moves` of the position `fen` describes, each move given
/// by `Move::from`, `Move::to`, `Move::promotion` and
/// `Move::to_uci(CastlingMode::Standard)`.
pub uninterp spec fn legal_moves_in(fen: Seq<char>) -> Seq<RawMove>;

/// Playing the UCI text `uci` in the position `fen` describes
/// (`UciMove` parsing, `UciMove::to_move`, `Position::play`): the FEN of the
/// position reached (`Fen::from_position` with legal en passant squares) and
/// the move played, or the kind of failure and the error's text.
pub uninterp spec fn play_uci_in(fen: Seq<char>, uci: Seq<char>) -> Result<(Seq<char>, RawMove), (PlayErrorKind, Seq<char>)>;

/// `Position::turn` is white.
pub uninterp spec fn white_to_move_in(fen: Seq<char>) -> bool;

/// `Board::piece_at` the square with the given index: whether the piece is
/// white, and the code of its role.
pub uninterp spec fn piece_at_in(fen: Seq<char>, square: u8) -> Option<(bool, u8)>;

/// `Position::is_checkmate`.
pub uninterp spec fn checkmate_in(fen: Seq<char>) -> bool;

/// `Position::is_stalemate`.
pub uninterp spec fn stalemate_in(fen: Seq<char>) -> bool;

/// `Position::is_insufficient_material`.
pub uninterp spec fn insufficient_material_in(fen: Seq<char>) -> bool;

/// `Position::halfmoves`: halfmoves since the last capture or pawn move.
pub uninterp spec fn halfmoves_in(fen: Seq<char>) -> u32;

pub open spec fn play_result_view(
    res: Result<(String, ExecRawMove), (PlayErrorKind, String)>,
) -> Result<(Seq<char>, RawMove), (PlayErrorKind, Seq<char>)> {
    match res {
        Ok((fen, m)) => Ok((fen@, raw_view(m))),
        Err((kind, text)) => Err((kind, text@)),
    }
}

/// `Fen::from_position(Chess::default(), EnPassantMode::Legal)`, as text.
/// Claims: it is the standard starting FEN, and it sets up a position again.
#[verifier::external_body]
fn shakmaty_initial_fen() -> (fen: String)
    ensures
        fen@ == initial_fen(),
        fen_describes_position(fen@),
{
    Fen::from_position(Chess::default(), EnPassantMode::Legal).to_string()
}

/// `Position::legal_moves` of the position set up from `fen`. Claims: the
/// result is the named list, its squares and roles are in range, and the
/// UCI text of each listed move, played with `UciMove::to_move` and
/// `Position::play`, plays that same move.
#[verifier::external_body]
fn shakmaty_legal_moves(fen: &str) -> (moves: Vec<ExecRawMove>)
    requires
        fen_describes_position(fen@),
    ensures
        moves@.len() == legal_moves_in(fen@).len(),
        forall|i: int| 0 <= i < moves@.len() ==> raw_view(#[trigger] moves@[i]) == legal_moves_in(fen@)[i],
        forall|i: int| 0 <= i < moves@.len() ==> raw_move_valid(raw_view(#[trigger] moves@[i])),
        forall|i: int|
            0 <= i < moves@.len() ==> (play_uci_in(fen@, (#[trigger] moves@[i]).3@) matches Ok((_, m))
                && m == raw_view(moves@[i])),
{
    let pos: Chess = fen.parse::<Fen>().unwrap().into_position(CastlingMode::Standard).unwrap();
    pos.legal_moves().iter().map(|m| (m.from().map(u8::from), u8::from(m.to()), m.promotion().map(
        u8::from), m.to_uci(CastlingMode::Standard).to_string())).collect()
}

/// Parses `uci` as a `UciMove`, turns it into a legal `Move` of the position
/// set up from `fen` and plays it. Claims: the result is the named one; the
/// FEN reached sets up a position again; the move's squares and role are in
/// range; and playing the move's own UCI text gives the same result as
/// playing `uci`.
#[verifier::external_body]
fn shakmaty_play_uci(fen: &str, uci: &str) -> (res: Result<(String, ExecRawMove), (PlayErrorKind, String)>)
    requires
        fen_describes_position(fen@),
    ensures
        play_result_view(res) == play_uci_in(fen@, uci@),
        res matches Ok((next, m)) ==> {
            &&& fen_describes_position(next@)
            &&& raw_move_valid(raw_view(m))
            &&& play_uci_in(fen@, m.3@) == play_uci_in(fen@, uci@)
        },
{
    let pos: Chess = fen.parse::<Fen>().unwrap().into_position(CastlingMode::Standard).unwrap();
    let u = uci.parse::<UciMove>().map_err(|e| (PlayErrorKind::InvalidNotation, e.to_string()))?;
    let m = u.to_move(&pos).map_err(|e| (PlayErrorKind::IllegalMove, e.to_string()))?;
    let next = pos.play(&m).map_err(|e| (PlayErrorKind::NotPlayable, e.to_string()))?;
    let raw = (m.from().map(u8::from), u8::from(m.to()), m.promotion().map(u8::from), m.to_uci(CastlingMode::Standard).to_string());
    Ok((Fen::from_position(next, EnPassantMode::Legal).to_string(), raw))
}

/// `Position::turn` of the position set up from `fen`, telling white apart.
#[verifier::external_body]
fn shakmaty_white_to_move(fen: &str) -> (white: bool)
    requires
        fen_describes_position(fen@),
    ensures
        white == white_to_move_in(fen@),
{
    let pos: Chess = fen.parse::<Fen>().unwrap().into_position(CastlingMode::Standard).unwrap();
    pos.turn().is_white()
}

/// `Board::piece_at` on the square with index `square` (`Square::new`).
/// Claims: the result is the named one and a role code is in range.
#[verifier::external_body]
fn shakmaty_piece_at(fen: &str, square: u8) -> (piece: Option<(bool, u8)>)
    requires
        fen_describes_position(fen@),
        square < 64,
    ensures
        piece == piece_at_in(fen@, square),
        piece matches Some((_, code)) ==> 1 <= code <= 6,
{
    let pos: Chess = fen.parse::<Fen>().unwrap().into_position(CastlingMode::Standard).unwrap();
    pos.board().piece_at(shakmaty::Square::new(u32::from(square))).map(|p| (p.color.is_white(), u8::from(p.role)))
}

/// `Position::is_checkmate` of the position set up from `fen`.
#[verifier::external_body]
fn shakmaty_is_checkmate(fen: &str) -> (mate: bool)
    requires
        fen_describes_position(fen@),
    ensures
        mate == checkmate_in(fen@),
{
    let pos: Chess = fen.parse::<Fen>().unwrap().into_position(CastlingMode::Standard).unwrap();
    pos.is_checkmate()
}

/// `Position::is_stalemate` of the position set up from `fen`.
#[verifier::external_body]
fn shakmaty_is_stalemate(fen: &str) -> (stalemate: bool)
    requires
        fen_describes_position(fen@),
    ensures
        stalemate == stalemate_in(fen@),
{
    let pos: Chess = fen.parse::<Fen>().unwrap().into_position(CastlingMode::Standard).unwrap();
    pos.is_stalemate()
}

/// `Position::is_insufficient_material` of the position set up from `fen`.
#[verifier::external_body]
fn shakmaty_is_insufficient_material(fen: &str) -> (insufficient: bool)
    requires
        fen_describes_position(fen@),
    ensures
        insufficient == insufficient_material_in(fen@),
{
    let pos: Chess = fen.parse::<Fen>().unwrap().into_position(CastlingMode::Standard).unwrap();
    pos.is_insufficient_material()
}

/// `Position::halfmoves` of the position set up from `fen`.
#[verifier::external_body]
fn shakmaty_halfmoves(fen: &str) -> (halfmoves: u32)
    requires
        fen_describes_position(fen@),
    ensures
        halfmoves == halfmoves_in(fen@),
{
    let pos: Chess = fen.parse::<Fen>().unwrap().into_position(CastlingMode::Standard).unwrap();
    pos.halfmoves()
}

/// The FEN reached by playing the UCI texts `ucis` one after the other from
/// the start of the standard game, or none if one of them does not play.
pub open spec fn position_after(ucis: Seq<Seq<char>>) -> Option<Seq<char>>
    decreases ucis.len(),
{
    if ucis.len() == 0 {
        Some(initial_fen())
    } else {
        match position_after(ucis.drop_last()) {
            Some(fen) => match play_uci_in(fen, ucis.last()) {
                Ok((next, _)) => Some(next),
                Err(_) => None,
            },
            None => None,
        }
    }
}

/// The UCI texts of a list of moves.
pub open spec fn uci_texts(moves: Seq<RawMove>) -> Seq<Seq<char>> {
    moves.map_values(|m: RawMove| m.3)
}

/// One more played move extends the replayed game by one step.
pub proof fn lemma_position_after_push(ucis: Seq<Seq<char>>, uci: Seq<char>)
    ensures
        position_after(ucis.push(uci)) == match position_after(ucis) {
            Some(fen) => match play_uci_in(fen, uci) {
                Ok((next, _)) => Some(next),
                Err(_) => None,
            },
            None => None,
        },
{
    assert(ucis.push(uci).drop_last() =~= ucis);
}

/// A move of a position: where it starts, where it goes (for castling, the
/// rook's square), the role a pawn is promoted to, and its UCI text.
#[derive(Debug)]
pub struct ChessMove {
    pub from: Option<Square>,
    pub to: Square,
    pub promotion: Option<Role>,
    pub uci: String,
}

impl View for ChessMove {
    type V = RawMove;

    open spec fn view(&self) -> RawMove {
        (
            match self.from {
                Some(s) => Some(s.index_spec()),
                None => None,
            },
            self.to.index_spec(),
            match self.promotion {
                Some(r) => Some(r.code()),
                None => None,
            },
            self.uci@,
        )
    }
}

impl ChessMove {
    pub open spec fn wf(&self) -> bool {
        &&& (self.from matches Some(s) ==> s.wf())
        &&& self.to.wf()
    }

    fn from_raw(raw: ExecRawMove) -> (m: ChessMove)
        requires
            raw_move_valid(raw_view(raw)),
        ensures
            m@ == raw_view(raw),
            m.wf(),
    {
        let (from, to, promotion, uci) = raw;
        let from = match from {
            Some(f) => Some(Square::from_index(f)),
            None => None,
        };
        let promotion = match promotion {
            Some(p) => Some(Role::from_code(p)),
            None => None,
        };
        ChessMove { from, to: Square::from_index(to), promotion, uci }
    }

    /// A copy of the move.
    pub fn duplicate(&self) -> (m: ChessMove)
        ensures
            m@ == self@,
            m.from == self.from,
            m.to == self.to,
            m.promotion == self.promotion,
    {
        ChessMove { from: self.from, to: self.to, promotion: self.promotion, uci: self.uci.clone() }
    }
}

/// A move that failed to be played, and the text of the error.
#[derive(Debug)]
pub struct PlayFailure {
    pub kind: PlayErrorKind,
    pub message: String,
}

/// Why a game is over.
#[derive(Clone, Copy, Debug, PartialEq, Eq, Structural)]
pub enum GameEnd {
    Checkmate { winner: Color },
    Stalemate,
    InsufficientMaterial,
    FiftyMoveRule,
}

/// The end of the game in the position `fen` describes, checked in this
/// order: checkmate (the side not to move wins), stalemate, insufficient
/// material on both sides, and a halfmove clock of at least 100.
pub open spec fn game_end_in(fen: Seq<char>) -> Option<GameEnd> {
    if checkmate_in(fen) {
        Some(
            GameEnd::Checkmate {
                winner: if white_to_move_in(fen) {
                    Color::Black
                } else {
                    Color::White
                },
            },
        )
    } else if stalemate_in(fen) {
        Some(GameEnd::Stalemate)
    } else if insufficient_material_in(fen) {
        Some(GameEnd::InsufficientMaterial)
    } else if halfmoves_in(fen) >= 100 {
        Some(GameEnd::FiftyMoveRule)
    } else {
        None
    }
}

/// A chess position, held as its FEN text.
#[derive(Debug)]
pub struct Position {
    fen: String,
}

impl View for Position {
    type V = Seq<char>;

    closed spec fn view(&self) -> Seq<char> {
        self.fen@
    }
}

impl Position {
    #[verifier::type_invariant]
    spec fn sets_up_a_position(self) -> bool {
        fen_describes_position(self.fen@)
    }

    /// The start of the standard game.
    pub fn initial() -> (p: Position)
        ensures
            p@ == initial_fen(),
    {
        Position { fen: shakmaty_initial_fen() }
    }

    /// The position's FEN text, with an en passant square only where an en
    /// passant capture is legal.
    pub fn fen(&self) -> (fen: String)
        ensures
            fen@ == self@,
    {
        self.fen.clone()
    }

    /// A copy of the position.
    pub fn duplicate(&self) -> (p: Position)
        ensures
            p@ == self@,
    {
        proof {
            use_type_invariant(self);
        }
        Position { fen: self.fen.clone() }
    }

    pub fn side_to_move(&self) -> (c: Color)
        ensures
            (c == Color::White) == white_to_move_in(self@),
    {
        proof {
            use_type_invariant(self);
        }
        if shakmaty_white_to_move(self.fen.as_str()) {
            Color::White
        } else {
            Color::Black
        }
    }

    pub fn piece_at(&self, square: Square) -> (piece: Option<Piece>)
        requires
            square.wf(),
        ensures
            option_piece_code(piece) == piece_at_in(self@, square.index_spec()),
    {
        proof {
            use_type_invariant(self);
        }
        match shakmaty_piece_at(self.fen.as_str(), square.index()) {
            Some((white, code)) => Some(piece_from_code(white, code)),
            None => None,
        }
    }

    /// The legal moves, in the order `shakmaty` generates them. The UCI text
    /// of each of them plays that very move.
    pub fn legal_moves(&self) -> (moves: Vec<ChessMove>)
        ensures
            moves@.len() == legal_moves_in(self@).len(),
            forall|i: int| 0 <= i < moves@.len() ==> (#[trigger] moves@[i])@ == legal_moves_in(self@)[i],
            forall|i: int| 0 <= i < moves@.len() ==> (#[trigger] moves@[i]).wf(),
            forall|i: int|
                0 <= i < moves@.len() ==> (play_uci_in(self@, (#[trigger] moves@[i]).uci@) matches Ok(
                    (_, m),
                ) && m == moves@[i]@),
    {
        proof {
            use_type_invariant(self);
        }
        let raw = shakmaty_legal_moves(self.fen.as_str());
        let mut moves: Vec<ChessMove> = Vec::new();
        let mut i: usize = 0;
        while i < raw.len()
            invariant
                i <= raw@.len(),
                moves@.len() == i,
                raw@.len() == legal_moves_in(self@).len(),
                forall|j: int| 0 <= j < raw@.len() ==> raw_view(#[trigger] raw@[j]) == legal_moves_in(self@)[j],
                forall|j: int| 0 <= j < raw@.len() ==> raw_move_valid(raw_view(#[trigger] raw@[j])),
                forall|j: int|
                    0 <= j < raw@.len() ==> (play_uci_in(self@, (#[trigger] raw@[j]).3@) matches Ok((_, m))
                        && m == raw_view(raw@[j])),
                forall|j: int| 0 <= j < i ==> (#[trigger] moves@[j])@ == raw_view(raw@[j]),
                forall|j: int| 0 <= j < i ==> (#[trigger] moves@[j]).wf(),
            decreases raw@.len() - i,
        {
            let entry = &raw[i];
            let m = ChessMove::from_raw((entry.0, entry.1, entry.2, entry.3.clone()));
            moves.push(m);
            i = i + 1;
        }
        proof {
            assert forall|j: int| 0 <= j < moves@.len() implies (play_uci_in(
                self@,
                (#[trigger] moves@[j]).uci@,
            ) matches Ok((_, m)) && m == moves@[j]@) by {
                assert(moves@[j].uci@ == raw@[j].3@);
            }
        }
        moves
    }

    pub fn is_checkmate(&self) -> (mate: bool)
        ensures
            mate == checkmate_in(self@),
    {
        proof {
            use_type_invariant(self);
        }
        shakmaty_is_checkmate(self.fen.as_str())
    }

    pub fn is_stalemate(&self) -> (stalemate: bool)
        ensures
            stalemate == stalemate_in(self@),
    {
        proof {
            use_type_invariant(self);
        }
        shakmaty_is_stalemate(self.fen.as_str())
    }

    pub fn is_insufficient_material(&self) -> (insufficient: bool)
        ensures
            insufficient == insufficient_material_in(self@),
    {
        proof {
            use_type_invariant(self);
        }
        shakmaty_is_insufficient_material(self.fen.as_str())
    }

    pub fn halfmoves(&self) -> (halfmoves: u32)
        ensures
            halfmoves == halfmoves_in(self@),
    {
        proof {
            use_type_invariant(self);
        }
        shakmaty_halfmoves(self.fen.as_str())
    }

    /// Why the game is over in this position, if it is.
    pub fn game_end(&self) -> (end: Option<GameEnd>)
        ensures
            end == game_end_in(self@),
    {
        if self.is_checkmate() {
            let winner = match self.side_to_move() {
                Color::White => Color::Black,
                Color::Black => Color::White,
            };
            Some(GameEnd::Checkmate { winner })
        } else if self.is_stalemate() {
            Some(GameEnd::Stalemate)
        } else if self.is_insufficient_material() {
            Some(GameEnd::InsufficientMaterial)
        } else if self.halfmoves() >= 100 {
            Some(GameEnd::FiftyMoveRule)
        } else {
            None
        }
    }

    /// Plays the move written `uci` in UCI notation. On success, returns the
    /// position reached and the move played, whose own UCI text (standard
    /// castling notation) plays it the same way.
    pub fn play_uci(&self, uci: &str) -> (res: Result<(Position, ChessMove), PlayFailure>)
        ensures
            match play_uci_in(self@, uci@) {
                Ok((next, raw)) => res matches Ok((p, m)) && p@ == next && m@ == raw && m.wf(),
                Err((kind, text)) => res matches Err(f) && f.kind == kind && f.message@ == text,
            },
            res matches Ok((_, m)) ==> play_uci_in(self@, m.uci@) == play_uci_in(self@, uci@),
    {
        proof {
            use_type_invariant(self);
        }
        match shakmaty_play_uci(self.fen.as_str(), uci) {
            Ok((fen, raw)) => {
                let m = ChessMove::from_raw(raw);
                Ok((Position { fen }, m))
            },
            Err((kind, message)) => Err(PlayFailure { kind, message }),
        }
    }
}

} // verus!
