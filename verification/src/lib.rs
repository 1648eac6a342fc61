//! A chess board for a graphical front end and the bookkeeping of engine
//! tournaments: board geometry, the board state that reacts to clicks and to
//! moves in UCI notation, engine-versus-engine games, pairings and the
//! win/draw/loss tally of a sequential test.
//!
//! Move generation and the rules of chess are computed by `shakmaty`; the
//! library holds positions as FEN text and proves what it does around those
//! calls.

pub mod pieces;
pub mod position;
pub mod board;
pub mod notation;
pub mod tournament;
