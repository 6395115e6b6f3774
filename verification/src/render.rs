//! Rendering of a matrix as a fixed four-line diagnostic text, one line
//! per row, cells separated by single spaces, with bracket glyphs: row 0
//! opens with `/ ` and closes with ` \`, rows 1 and 2 with `| ` and ` |`,
//! row 3 with `\ ` and ` /`. The output is write-only diagnostics; no
//! parser for it exists or is intended.

use vstd::prelude::*;
use vstd::string::StringExecFns;
use crate::matrix::Matrix;

verus! {

/// The character for one decimal digit value.
pub open spec fn digit_char(d: int) -> char {
    if d == 0 {
        '0'
    } else if d == 1 {
        '1'
    } else if d == 2 {
        '2'
    } else if d == 3 {
        '3'
    } else if d == 4 {
        '4'
    } else if d == 5 {
        '5'
    } else if d == 6 {
        '6'
    } else if d == 7 {
        '7'
    } else if d == 8 {
        '8'
    } else {
        '9'
    }
}

/// The decimal rendering of a natural number, most significant digit
/// first, with no leading zeros (and `0` itself rendered as "0").
pub open spec fn dec_str_nat(n: nat) -> Seq<char>
    decreases n,
{
    if n < 10 {
        seq![digit_char(n as int)]
    } else {
        dec_str_nat(n / 10).push(digit_char((n % 10) as int))
    }
}

/// The decimal rendering of an integer: a leading minus sign for
/// negative values, then the magnitude's digits.
pub open spec fn int_str(x: int) -> Seq<char> {
    if x < 0 {
        seq!['-'] + dec_str_nat((-x) as nat)
    } else {
        dec_str_nat(x as nat)
    }
}

/// Row `r`'s first `w` cells as text, each cell followed by one space.
pub open spec fn cells_str(m: Seq<Seq<int>>, r: int, w: int) -> Seq<char>
    decreases w,
{
    if w <= 0 {
        Seq::empty()
    } else {
        cells_str(m, r, w - 1) + int_str(m[w - 1][r]) + seq![' ']
    }
}

/// The opening glyphs of row `r`.
pub open spec fn row_prefix(r: int) -> Seq<char> {
    if r == 0 {
        "/ "@
    } else if r == 3 {
        "\\ "@
    } else {
        "| "@
    }
}

/// The closing glyphs of row `r`, newline included.
pub open spec fn row_suffix(r: int) -> Seq<char> {
    if r == 0 {
        "\\\n"@
    } else if r == 3 {
        "/\n"@
    } else {
        "|\n"@
    }
}

/// One full rendered row of `m`.
pub open spec fn row_str(m: Seq<Seq<int>>, r: int) -> Seq<char> {
    row_prefix(r) + cells_str(m, r, m.len() as int) + row_suffix(r)
}

/// The full rendering of `m`: rows 0 through 3, each ending in a newline.
pub open spec fn render_str(m: Seq<Seq<int>>) -> Seq<char> {
    row_str(m, 0) + row_str(m, 1) + row_str(m, 2) + row_str(m, 3)
}

/// Append the single digit `d` to `s`.
fn append_digit(s: &mut String, d: u64)
    requires
        d < 10,
    ensures
        final(s)@ == old(s)@.push(digit_char(d as int)),
{
    if d == 0 {
        s.append("0");
        proof {
            reveal_strlit("0");
            assert(s@ =~= old(s)@.push('0'));
        }
    } else if d == 1 {
        s.append("1");
        proof {
            reveal_strlit("1");
            assert(s@ =~= old(s)@.push('1'));
        }
    } else if d == 2 {
        s.append("2");
        proof {
            reveal_strlit("2");
            assert(s@ =~= old(s)@.push('2'));
        }
    } else if d == 3 {
        s.append("3");
        proof {
            reveal_strlit("3");
            assert(s@ =~= old(s)@.push('3'));
        }
    } else if d == 4 {
        s.append("4");
        proof {
            reveal_strlit("4");
            assert(s@ =~= old(s)@.push('4'));
        }
    } else if d == 5 {
        s.append("5");
        proof {
            reveal_strlit("5");
            assert(s@ =~= old(s)@.push('5'));
        }
    } else if d == 6 {
        s.append("6");
        proof {
            reveal_strlit("6");
            assert(s@ =~= old(s)@.push('6'));
        }
    } else if d == 7 {
        s.append("7");
        proof {
            reveal_strlit("7");
            assert(s@ =~= old(s)@.push('7'));
        }
    } else if d == 8 {
        s.append("8");
        proof {
            reveal_strlit("8");
            assert(s@ =~= old(s)@.push('8'));
        }
    } else {
        s.append("9");
        proof {
            reveal_strlit("9");
            assert(s@ =~= old(s)@.push('9'));
        }
    }
}

/// Append the decimal digits of `n` to `s`, most significant first.
fn append_dec(s: &mut String, n: u64)
    ensures
        final(s)@ == old(s)@ + dec_str_nat(n as nat),
    decreases n,
{
    if n >= 10 {
        append_dec(s, n / 10);
        append_digit(s, n % 10);
        proof {
            assert(s@ =~= old(s)@ + dec_str_nat(n as nat));
        }
    } else {
        append_digit(s, n);
        proof {
            assert(s@ =~= old(s)@ + dec_str_nat(n as nat));
        }
    }
}

/// Append the decimal rendering of `x` to `s`.
fn append_int(s: &mut String, x: i64)
    ensures
        final(s)@ == old(s)@ + int_str(x as int),
{
    if x >= 0 {
        append_dec(s, x as u64);
        proof {
            assert(s@ =~= old(s)@ + int_str(x as int));
        }
    } else {
        s.append("-");
        let mag: u64 = ((-(x + 1)) as u64) + 1;
        proof {
            reveal_strlit("-");
            assert(mag as int == -(x as int));
        }
        append_dec(s, mag);
        proof {
            assert(s@ =~= old(s)@ + int_str(x as int));
        }
    }
}

impl Matrix {
    /// Append one rendered row of `self` to `s`.
    fn render_row(&self, s: &mut String, r: usize)
        requires
            r < 4,
        ensures
            final(s)@ == old(s)@ + row_str(self@, r as int),
    {
        if r == 0 {
            s.append("/ ");
        } else if r == 3 {
            s.append("\\ ");
        } else {
            s.append("| ");
        }
        proof {
            assert(s@ == old(s)@ + row_prefix(r as int));
        }
        let width = self.width();
        for j in 0..width
            invariant
                width == self@.len(),
                r < 4,
                s@ == old(s)@ + row_prefix(r as int) + cells_str(self@, r as int, j as int),
        {
            let c = self.col_at(j);
            proof {
                assert(c@[r as int] as int == self@[j as int][r as int]);
            }
            append_int(s, c[r]);
            s.append(" ");
            proof {
                reveal_strlit(" ");
                assert(" "@ =~= seq![' ']);
                assert(s@ =~= old(s)@ + row_prefix(r as int)
                    + cells_str(self@, r as int, j + 1));
            }
        }
        if r == 0 {
            s.append("\\\n");
        } else if r == 3 {
            s.append("/\n");
        } else {
            s.append("|\n");
        }
        proof {
            assert(s@ =~= old(s)@ + row_str(self@, r as int));
        }
    }

    /// Render `self` as its fixed four-line textual layout: one line per
    /// row, each cell followed by a single space, bracket glyphs opening
    /// and closing every line.
    pub fn render(&self) -> (s: String)
        ensures
            s@ == render_str(self@),
    {
        let mut s = String::new();
        self.render_row(&mut s, 0);
        self.render_row(&mut s, 1);
        self.render_row(&mut s, 2);
        self.render_row(&mut s, 3);
        proof {
            assert(s@ =~= render_str(self@));
        }
        s
    }
}

} // verus!
