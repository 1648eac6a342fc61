//! Colors, piece kinds, pieces and squares, the mapping between board
//! squares and screen cells, and the glyph drawn for each piece.

use vstd::prelude::*;

verus! {

/// A side in a game of chess.
#[derive(Clone, Copy, Debug, PartialEq, Eq, Structural)]
pub enum Color {
    White,
    Black,
}

impl Color {
    pub open spec fn opposite(self) -> Color {
        match self {
            Color::White => Color::Black,
            Color::Black => Color::White,
        }
    }

    pub fn is_white(&self) -> (b: bool)
        ensures
            b == (*self == Color::White),
    {
        match self {
            Color::White => true,
            Color::Black => false,
        }
    }
}

/// The kind of a chess piece.
#[derive(Clone, Copy, Debug, PartialEq, Eq, Structural)]
pub enum Role {
    Pawn,
    Knight,
    Bishop,
    Rook,
    Queen,
    King,
}

impl Role {
    /// The number that `shakmaty` gives the role, from pawn (1) to king (6).
    pub open spec fn code(self) -> u8 {
        match self {
            Role::Pawn => 1,
            Role::Knight => 2,
            Role::Bishop => 3,
            Role::Rook => 4,
            Role::Queen => 5,
            Role::King => 6,
        }
    }

    pub fn from_code(code: u8) -> (role: Role)
        requires
            1 <= code <= 6,
        ensures
            role.code() == code,
    {
        match code {
            1 => Role::Pawn,
            2 => Role::Knight,
            3 => Role::Bishop,
            4 => Role::Rook,
            5 => Role::Queen,
            _ => Role::King,
        }
    }
}

/// A piece: its color and its kind.
#[derive(Clone, Copy, Debug, PartialEq, Eq, Structural)]
pub struct Piece {
    pub color: Color,
    pub role: Role,
}

/// A piece as plain numbers: whether it is white, and its role's code.
pub open spec fn piece_code(piece: Piece) -> (bool, u8) {
    (piece.color == Color::White, piece.role.code())
}

pub open spec fn option_piece_code(piece: Option<Piece>) -> Option<(bool, u8)> {
    match piece {
        Some(p) => Some(piece_code(p)),
        None => None,
    }
}

pub fn piece_from_code(white: bool, code: u8) -> (piece: Piece)
    requires
        1 <= code <= 6,
    ensures
        piece_code(piece) == (white, code),
{
    Piece { color: if white { Color::White } else { Color::Black }, role: Role::from_code(code) }
}

/// A square of the board: file 0 is the a-file, rank 0 is White's first rank.
#[derive(Clone, Copy, Debug, PartialEq, Eq, Structural)]
pub struct Square {
    pub file: u8,
    pub rank: u8,
}

/// The square with the given index, numbered as `shakmaty` numbers them:
/// a1 is 0, b1 is 1, a2 is 8, h8 is 63.
pub open spec fn square_of_index(index: u8) -> Square {
    Square { file: index % 8, rank: index / 8 }
}

impl Square {
    pub open spec fn wf(self) -> bool {
        self.file < 8 && self.rank < 8
    }

    pub open spec fn index_spec(self) -> u8 {
        (self.file + 8 * self.rank) as u8
    }

    /// The square on `file` and `rank`.
    pub fn from_coords(file: u32, rank: u32) -> (sq: Square)
        requires
            file < 8,
            rank < 8,
        ensures
            sq.file == file,
            sq.rank == rank,
            sq.wf(),
    {
        Square { file: file as u8, rank: rank as u8 }
    }

    pub fn index(&self) -> (i: u8)
        requires
            self.wf(),
        ensures
            i == self.index_spec(),
            i < 64,
            square_of_index(i) == *self,
    {
        let i = self.file + 8 * self.rank;
        assert(i % 8 == self.file && i / 8 == self.rank) by (nonlinear_arith)
            requires
                i == self.file + 8 * self.rank,
                self.file < 8,
        ;
        i
    }

    pub fn from_index(index: u8) -> (sq: Square)
        requires
            index < 64,
        ensures
            sq == square_of_index(index),
            sq.wf(),
            sq.index_spec() == index,
    {
        let sq = Square { file: index % 8, rank: index / 8 };
        assert(index % 8 + 8 * (index / 8) == index) by (nonlinear_arith);
        sq
    }
}

/// Squares on the board with the same index are the same square.
pub proof fn lemma_index_injective(a: Square, b: Square)
    requires
        a.wf(),
        b.wf(),
        a.index_spec() == b.index_spec(),
    ensures
        a == b,
{
    assert(a.file + 8 * a.rank < 64);
    assert(b.file + 8 * b.rank < 64);
}

/// Where a board square is drawn: the (column, row) of the screen cell, row 0
/// at the top. Unflipped, White's first rank is at the bottom; flipped, the
/// a-file is on the right and White's first rank at the top.
pub open spec fn screen_cell(flipped: bool, file: int, rank: int) -> (int, int) {
    if flipped {
        (7 - file, rank)
    } else {
        (file, 7 - rank)
    }
}

/// The board square drawn in screen cell (`col`, `row`), as (file, rank).
pub open spec fn board_coords(flipped: bool, col: int, row: int) -> (int, int) {
    if flipped {
        (7 - col, row)
    } else {
        (col, 7 - row)
    }
}

pub fn to_screen(flipped: bool, file: u32, rank: u32) -> (cell: (u32, u32))
    requires
        file < 8,
        rank < 8,
    ensures
        (cell.0 as int, cell.1 as int) == screen_cell(flipped, file as int, rank as int),
        cell.0 < 8,
        cell.1 < 8,
{
    if flipped {
        (7 - file, rank)
    } else {
        (file, 7 - rank)
    }
}

pub fn from_screen(flipped: bool, col: u32, row: u32) -> (sq: Square)
    requires
        col < 8,
        row < 8,
    ensures
        (sq.file as int, sq.rank as int) == board_coords(flipped, col as int, row as int),
        sq.wf(),
{
    let (file, rank) = if flipped {
        (7 - col, row)
    } else {
        (col, 7 - row)
    };
    Square::from_coords(file, rank)
}

/// Drawing a square and looking up the cell it is drawn in give back the
/// square, whichever way the board is turned.
pub proof fn lemma_screen_round_trip(flipped: bool, file: int, rank: int)
    requires
        0 <= file < 8,
        0 <= rank < 8,
    ensures
        ({
            let cell = screen_cell(flipped, file, rank);
            &&& 0 <= cell.0 < 8
            &&& 0 <= cell.1 < 8
            &&& board_coords(flipped, cell.0, cell.1) == (file, rank)
        }),
{
}

/// Rust's division of integers, which rounds toward zero.
pub open spec fn quotient_toward_zero(a: int, b: int) -> int {
    let q = (if a >= 0 { a } else { -a }) / (if b >= 0 { b } else { -b });
    if (a >= 0) == (b >= 0) {
        q
    } else {
        -q
    }
}

/// The square under pixel (`x`, `y`) of a board whose top-left corner is at
/// (`origin_x`, `origin_y`) and whose squares are `square_size` pixels wide.
pub open spec fn square_at_pixel_spec(
    flipped: bool,
    x: int,
    y: int,
    origin_x: int,
    origin_y: int,
    square_size: int,
) -> Option<Square> {
    let rel_x = x - origin_x;
    let rel_y = y - origin_y;
    if rel_x < 0 || rel_y < 0 {
        None
    } else {
        let col = quotient_toward_zero(rel_x, square_size);
        let row = quotient_toward_zero(rel_y, square_size);
        if col > 7 || row > 7 {
            None
        } else {
            let fr = board_coords(flipped, col, row);
            Some(Square { file: fr.0 as u8, rank: fr.1 as u8 })
        }
    }
}

/// The inputs on which the pixel lookup neither overflows nor divides by
/// zero nor meets a negative cell index.
pub open spec fn square_at_pixel_defined(
    x: int,
    y: int,
    origin_x: int,
    origin_y: int,
    square_size: int,
) -> bool {
    let rel_x = x - origin_x;
    let rel_y = y - origin_y;
    &&& i32::MIN <= rel_x <= i32::MAX
    &&& i32::MIN <= rel_y <= i32::MAX
    &&& (rel_x >= 0 && rel_y >= 0) ==> {
        &&& square_size != 0
        &&& ({
            let col = quotient_toward_zero(rel_x, square_size);
            let row = quotient_toward_zero(rel_y, square_size);
            (col <= 7 && row <= 7) ==> (col >= 0 && row >= 0)
        })
    }
}

/// Division of a non-negative number, rounding toward zero.
fn divide_toward_zero(a: i64, b: i64) -> (q: i64)
    requires
        0 <= a <= i32::MAX,
        b != 0,
        i32::MIN <= b <= i32::MAX,
    ensures
        q == quotient_toward_zero(a as int, b as int),
        -(i32::MAX as int) <= q <= i32::MAX,
{
    if b > 0 {
        let q = ((a as u64) / (b as u64)) as i64;
        assert((a as u64) / (b as u64) <= a) by (nonlinear_arith)
            requires
                b >= 1,
                a >= 0,
        ;
        q
    } else {
        let nb: u64 = (-b) as u64;
        let q = ((a as u64) / nb) as i64;
        assert((a as u64) / nb <= a) by (nonlinear_arith)
            requires
                nb >= 1,
                a >= 0,
        ;
        -q
    }
}

pub fn square_at_pixel(flipped: bool, x: i32, y: i32, origin_x: i32, origin_y: i32, square_size: i32) -> (sq:
    Option<Square>)
    requires
        square_at_pixel_defined(x as int, y as int, origin_x as int, origin_y as int, square_size as int),
    ensures
        sq == square_at_pixel_spec(
            flipped,
            x as int,
            y as int,
            origin_x as int,
            origin_y as int,
            square_size as int,
        ),
        sq matches Some(s) ==> s.wf(),
{
    let rel_x = x - origin_x;
    let rel_y = y - origin_y;
    if rel_x < 0 || rel_y < 0 {
        return None;
    }
    let col = divide_toward_zero(rel_x as i64, square_size as i64);
    let row = divide_toward_zero(rel_y as i64, square_size as i64);
    if col > 7 || row > 7 {
        return None;
    }
    Some(from_screen(flipped, col as u32, row as u32))
}

/// The character printed for a piece: the Unicode chess symbols, outlined for
/// White and filled for Black.
pub open spec fn symbol_char(piece: Piece) -> char {
    match (piece.color, piece.role) {
        (Color::White, Role::Pawn) => '\u{2659}',
        (Color::White, Role::Knight) => '\u{2658}',
        (Color::White, Role::Bishop) => '\u{2657}',
        (Color::White, Role::Rook) => '\u{2656}',
        (Color::White, Role::Queen) => '\u{2655}',
        (Color::White, Role::King) => '\u{2654}',
        (Color::Black, Role::Pawn) => '\u{265F}',
        (Color::Black, Role::Knight) => '\u{265E}',
        (Color::Black, Role::Bishop) => '\u{265D}',
        (Color::Black, Role::Rook) => '\u{265C}',
        (Color::Black, Role::Queen) => '\u{265B}',
        (Color::Black, Role::King) => '\u{265A}',
    }
}

pub fn piece_symbol(piece: Piece) -> (symbol: &'static str)
    ensures
        symbol@ == seq![symbol_char(piece)],
{
    match (piece.color, piece.role) {
        (Color::White, Role::Pawn) => {
            proof {
                reveal_strlit("\u{2659}");
            }
            "\u{2659}"
        },
        (Color::White, Role::Knight) => {
            proof {
                reveal_strlit("\u{2658}");
            }
            "\u{2658}"
        },
        (Color::White, Role::Bishop) => {
            proof {
                reveal_strlit("\u{2657}");
            }
            "\u{2657}"
        },
        (Color::White, Role::Rook) => {
            proof {
                reveal_strlit("\u{2656}");
            }
            "\u{2656}"
        },
        (Color::White, Role::Queen) => {
            proof {
                reveal_strlit("\u{2655}");
            }
            "\u{2655}"
        },
        (Color::White, Role::King) => {
            proof {
                reveal_strlit("\u{2654}");
            }
            "\u{2654}"
        },
        (Color::Black, Role::Pawn) => {
            proof {
                reveal_strlit("\u{265F}");
            }
            "\u{265F}"
        },
        (Color::Black, Role::Knight) => {
            proof {
                reveal_strlit("\u{265E}");
            }
            "\u{265E}"
        },
        (Color::Black, Role::Bishop) => {
            proof {
                reveal_strlit("\u{265D}");
            }
            "\u{265D}"
        },
        (Color::Black, Role::Rook) => {
            proof {
                reveal_strlit("\u{265C}");
            }
            "\u{265C}"
        },
        (Color::Black, Role::Queen) => {
            proof {
                reveal_strlit("\u{265B}");
            }
            "\u{265B}"
        },
        (Color::Black, Role::King) => {
            proof {
                reveal_strlit("\u{265A}");
            }
            "\u{265A}"
        },
    }
}

} // verus!

verus! {

/// Role codes follow `shakmaty`'s numbering of roles, from pawn (1) up to
/// king (6), and distinct roles have distinct codes.
pub proof fn lemma_role_codes_follow_shakmaty(role: Role, other: Role)
    ensures
        1 <= role.code() <= 6,
        role.code() == other.code() ==> role == other,
        role == Role::Pawn <==> role.code() == 1,
        role == Role::Knight <==> role.code() == 2,
        role == Role::Bishop <==> role.code() == 3,
        role == Role::Rook <==> role.code() == 4,
        role == Role::Queen <==> role.code() == 5,
        role == Role::King <==> role.code() == 6,
{
}

/// Each piece is drawn with the Unicode chess symbol of its color and role:
/// the white symbols run from the king (U+2654) down to the pawn (U+2659),
/// the black ones from the king (U+265A) down to the pawn (U+265F), in the
/// reverse order of the role codes.
pub proof fn lemma_symbol_is_unicode_chess_symbol(piece: Piece)
    ensures
        symbol_char(piece) as u32 == (if piece.color == Color::White {
            0x2654u32
        } else {
            0x265Au32
        }) + 6 - piece.role.code(),
{
}

/// Turning the board around is a half turn: every square moves to the cell
/// opposite its unturned cell.
pub proof fn lemma_flip_is_half_turn(file: int, rank: int)
    requires
        0 <= file < 8,
        0 <= rank < 8,
    ensures
        screen_cell(true, file, rank).0 == 7 - screen_cell(false, file, rank).0,
        screen_cell(true, file, rank).1 == 7 - screen_cell(false, file, rank).1,
{
}

/// Unturned, files run left to right and ranks bottom to top: a square on a
/// higher file is further right, one on a higher rank is higher up.
pub proof fn lemma_unflipped_orientation(file: int, rank: int, file2: int, rank2: int)
    requires
        0 <= file < 8,
        0 <= rank < 8,
        0 <= file2 < 8,
        0 <= rank2 < 8,
    ensures
        file < file2 ==> screen_cell(false, file, rank).0 < screen_cell(false, file2, rank2).0,
        rank < rank2 ==> screen_cell(false, file, rank).1 > screen_cell(false, file2, rank2).1,
        screen_cell(false, file, rank).0 == file,
{
}

} // verus!
