//! Text shown around the board: decimal move numbers, the move list drawn
//! two half-moves to a line, and the engine's answer that it has no move.

use vstd::prelude::*;

verus! {

pub open spec fn digit_char(d: int) -> char {
    if d == 0 {
        '0'
    } else if d == 1 {
        '1'
    } else if d == 2 {
        '2'
    } else if d == 3 {
        '3'
    } else if d == 4 {
        '4'
    } else if d == 5 {
        '5'
    } else if d == 6 {
        '6'
    } else if d == 7 {
        '7'
    } else if d == 8 {
        '8'
    } else {
        '9'
    }
}

/// The decimal digits of `n`, without leading zeros.
pub open spec fn decimal(n: nat) -> Seq<char>
    decreases n,
{
    if n < 10 {
        seq![digit_char(n as int)]
    } else {
        decimal(n / 10) + seq![digit_char((n % 10) as int)]
    }
}

/// The number a text of decimal digits stands for, read from the left.
pub open spec fn decimal_value(text: Seq<char>) -> int
    decreases text.len(),
{
    if text.len() == 0 {
        0
    } else {
        10 * decimal_value(text.drop_last()) + (text.last() as int - '0' as int)
    }
}

/// Each digit is the character `'0' + d`, as in ASCII and Unicode.
pub proof fn lemma_digit_char_code(d: int)
    requires
        0 <= d < 10,
    ensures
        digit_char(d) as int == '0' as int + d,
{
}

/// `decimal(n)` is the standard decimal text of `n`: it is made of the
/// digits '0' to '9', it has no leading zero, and it reads back as `n`.
pub proof fn lemma_decimal_reads_back(n: nat)
    ensures
        decimal(n).len() >= 1,
        forall|i: int|
            0 <= i < decimal(n).len() ==> '0' as int <= (#[trigger] decimal(n)[i]) as int <= '9' as int,
        n >= 10 ==> decimal(n)[0] != '0',
        decimal_value(decimal(n)) == n,
    decreases n,
{
    if n < 10 {
        lemma_digit_char_code(n as int);
        assert(decimal(n).drop_last() =~= Seq::<char>::empty());
        assert(decimal_value(decimal(n)) == 10 * decimal_value(Seq::<char>::empty()) + n);
    } else {
        lemma_decimal_reads_back(n / 10);
        lemma_digit_char_code((n % 10) as int);
        let d = decimal(n);
        assert(d.drop_last() =~= decimal(n / 10));
        assert(d.last() == digit_char((n % 10) as int));
        assert forall|i: int| 0 <= i < d.len() implies '0' as int <= (#[trigger] d[i]) as int <= '9' as int by {
            if i < decimal(n / 10).len() {
                assert(d[i] == decimal(n / 10)[i]);
            }
        }
        assert(d[0] == decimal(n / 10)[0]);
        assert(decimal_value(d) == 10 * decimal_value(decimal(n / 10)) + (n % 10));
        assert(n == 10 * (n / 10) + n % 10);
    }
}

fn digit_text(d: usize) -> (text: &'static str)
    requires
        d < 10,
    ensures
        text@ == seq![digit_char(d as int)],
{
    match d {
        0 => {
            proof {
                reveal_strlit("0");
            }
            "0"
        },
        1 => {
            proof {
                reveal_strlit("1");
            }
            "1"
        },
        2 => {
            proof {
                reveal_strlit("2");
            }
            "2"
        },
        3 => {
            proof {
                reveal_strlit("3");
            }
            "3"
        },
        4 => {
            proof {
                reveal_strlit("4");
            }
            "4"
        },
        5 => {
            proof {
                reveal_strlit("5");
            }
            "5"
        },
        6 => {
            proof {
                reveal_strlit("6");
            }
            "6"
        },
        7 => {
            proof {
                reveal_strlit("7");
            }
            "7"
        },
        8 => {
            proof {
                reveal_strlit("8");
            }
            "8"
        },
        _ => {
            proof {
                reveal_strlit("9");
            }
            "9"
        },
    }
}

/// `n` written in decimal.
pub fn decimal_string(n: usize) -> (text: String)
    ensures
        text@ == decimal(n as nat),
        decimal_value(text@) == n,
    decreases n,
{
    proof {
        lemma_decimal_reads_back(n as nat);
    }
    if n < 10 {
        String::from_str(digit_text(n))
    } else {
        let head = decimal_string(n / 10);
        head.concat(digit_text(n % 10))
    }
}

/// Line `k` of the move list: the move number, White's move and, if it has
/// been played, Black's answer.
pub open spec fn move_line(moves: Seq<Seq<char>>, k: int) -> Seq<char> {
    let white = decimal((k + 1) as nat) + ". "@ + moves[2 * k];
    if 2 * k + 1 < moves.len() {
        white + "   "@ + moves[2 * k + 1]
    } else {
        white
    }
}

pub open spec fn texts(v: Seq<String>) -> Seq<Seq<char>> {
    v.map_values(|s: String| s@)
}

/// The move list two half-moves to a line: "1. e2e4   e7e5", "2. g1f3", ...
pub fn move_list_lines(moves: &Vec<String>) -> (lines: Vec<String>)
    ensures
        lines@.len() == (moves@.len() + 1) / 2,
        forall|k: int| 0 <= k < lines@.len() ==> (#[trigger] lines@[k])@ == move_line(texts(moves@), k),
{
    let mut lines: Vec<String> = Vec::new();
    let mut i: usize = 0;
    while i < moves.len()
        invariant
            i <= moves@.len(),
            i % 2 == 0 || i == moves@.len(),
            lines@.len() == (i + 1) / 2,
            forall|k: int| 0 <= k < lines@.len() ==> (#[trigger] lines@[k])@ == move_line(texts(moves@), k),
        decreases moves@.len() - i,
    {
        let number = decimal_string(i / 2 + 1);
        let mut line = number.concat(". ").concat(moves[i].as_str());
        if i + 1 < moves.len() {
            line = line.concat("   ").concat(moves[i + 1].as_str());
        }
        proof {
            let k = (i / 2) as int;
            assert(2 * k == i);
            assert(texts(moves@)[2 * k] == moves@[2 * k]@);
            if 2 * k + 1 < moves@.len() {
                assert(texts(moves@)[2 * k + 1] == moves@[2 * k + 1]@);
            }
            assert(line@ =~= move_line(texts(moves@), k));
        }
        lines.push(line);
        i = if i + 1 < moves.len() {
            i + 2
        } else {
            i + 1
        };
    }
    lines
}

/// An engine's best move, or none when it answers "(none)", as engines do
/// when the side to move has no legal move.
pub fn bestmove_choice(best: String) -> (choice: Option<String>)
    ensures
        best@ == "(none)"@ ==> choice is None,
        best@ != "(none)"@ ==> (choice matches Some(m) && m@ == best@),
{
    let none = String::from_str("(none)");
    if best == none {
        None
    } else {
        Some(best)
    }
}

} // verus!
