# emblium

A chess front end's board logic and engine-tournament bookkeeping, verified
with Verus.

- `src/pieces.rs`: colors, roles, pieces, squares; the mapping between board
  squares, screen cells and pixels; piece glyphs.
- `src/position.rs`: positions held as FEN text; the trusted calls into
  `shakmaty` (legal moves, playing a UCI move, side to move, piece on a
  square, checkmate, stalemate, insufficient material, halfmove clock) and
  the names their results are given; the replay of a move list from the start.
- `src/board.rs`: the board state of the GUI: clicks, human moves, moves in
  UCI notation, the move history, game-over messages, what to draw.
- `src/notation.rs`: decimal numbers, the two-moves-per-line move list, the
  engines' "(none)" answer.
- `src/tournament.rs`: the decisions of an engine-versus-engine game,
  round-robin and gauntlet pairings, the win/draw/loss tally.
- `app/`: the fltk window and the floating-point statistics of the
  sequential probability ratio test.
