//! Decimal and tape rendering for diagnostics and pretty-printing.

use vstd::prelude::*;
use vstd::string::StringExecFns;

verus! {

/// The character of one decimal digit.
pub open spec fn digit_char(d: int) -> char {
    if d == 0 {
        '0'
    } else if d == 1 {
        '1'
    } else if d == 2 {
        '2'
    } else if d == 3 {
        '3'
    } else if d == 4 {
        '4'
    } else if d == 5 {
        '5'
    } else if d == 6 {
        '6'
    } else if d == 7 {
        '7'
    } else if d == 8 {
        '8'
    } else {
        '9'
    }
}

/// The decimal digits of `n`, most significant first.
pub open spec fn dec_digits(n: nat) -> Seq<char>
    decreases n,
{
    if n < 10 {
        seq![digit_char(n as int)]
    } else {
        dec_digits(n / 10) + seq![digit_char((n % 10) as int)]
    }
}

/// The decimal rendering of a signed number: a minus sign, if negative,
/// then the digits of its magnitude.
pub open spec fn dec_digits_signed(n: int) -> Seq<char> {
    if n < 0 {
        seq!['-'] + dec_digits((-n) as nat)
    } else {
        dec_digits(n as nat)
    }
}

/// One cell rendered three characters wide, right-aligned.
pub open spec fn cell_text(v: u8) -> Seq<char> {
    if v < 10 {
        seq![' ', ' '] + dec_digits(v as nat)
    } else if v < 100 {
        seq![' '] + dec_digits(v as nat)
    } else {
        dec_digits(v as nat)
    }
}

/// The cells of a tape, each three characters wide behind a space, with the
/// cell under the head bracketed.
pub open spec fn tape_cells_text(cells: Seq<u8>, at: int) -> Seq<char>
    decreases cells,
{
    if cells.len() == 0 {
        Seq::empty()
    } else {
        tape_cells_text(cells.drop_last(), at) + (if cells.len() - 1 == at {
            seq![' ', '['] + cell_text(cells.last()) + seq![']']
        } else {
            seq![' '] + cell_text(cells.last())
        })
    }
}

/// A whole tape rendered for a diagnostic, with the head cell bracketed:
/// `[ 0 5 [ 42] 7 0 ]`.
pub open spec fn tape_text(cells: Seq<u8>, at: int) -> Seq<char> {
    seq!['['] + tape_cells_text(cells, at) + seq![']']
}

fn digit_str(d: u64) -> (r: &'static str)
    requires
        d < 10,
    ensures
        r@ == seq![digit_char(d as int)],
{
    proof {
        reveal_strlit("0");
        reveal_strlit("1");
        reveal_strlit("2");
        reveal_strlit("3");
        reveal_strlit("4");
        reveal_strlit("5");
        reveal_strlit("6");
        reveal_strlit("7");
        reveal_strlit("8");
        reveal_strlit("9");
    }
    let r = match d {
        0 => "0",
        1 => "1",
        2 => "2",
        3 => "3",
        4 => "4",
        5 => "5",
        6 => "6",
        7 => "7",
        8 => "8",
        _ => "9",
    };
    proof {
        assert(r@ =~= seq![digit_char(d as int)]);
    }
    r
}

/// Append the decimal digits of `n`.
pub fn push_dec(n: u64, out: &mut String)
    ensures
        final(out)@ == old(out)@ + dec_digits(n as nat),
    decreases n,
{
    if n >= 10 {
        push_dec(n / 10, out);
        out.append(digit_str(n % 10));
        proof {
            assert(out@ =~= old(out)@ + (dec_digits(n as nat / 10) + seq![
                digit_char((n as nat % 10) as int),
            ]));
        }
    } else {
        out.append(digit_str(n));
    }
}

/// The decimal rendering of `n`.
pub fn dec_string(n: u64) -> (r: String)
    ensures
        r@ == dec_digits(n as nat),
{
    let mut s = String::new();
    push_dec(n, &mut s);
    proof {
        assert(Seq::<char>::empty() + dec_digits(n as nat) =~= dec_digits(n as nat));
    }
    s
}

/// Append one cell, three characters wide and right-aligned.
pub fn push_cell(v: u8, out: &mut String)
    ensures
        final(out)@ == old(out)@ + cell_text(v),
{
    proof {
        reveal_strlit(" ");
        reveal_strlit("  ");
    }
    if v < 10 {
        out.append("  ");
    } else if v < 100 {
        out.append(" ");
    }
    push_dec(v as u64, out);
    proof {
        assert("  "@ =~= seq![' ', ' ']);
        assert(" "@ =~= seq![' ']);
        assert(out@ =~= old(out)@ + cell_text(v));
    }
}

/// Render a tape for a diagnostic, bracketing the cell at `at`.
pub fn tape_string(cells: &[u8], at: usize) -> (r: String)
    ensures
        r@ == tape_text(cells@, at as int),
{
    proof {
        reveal_strlit("[");
        reveal_strlit("]");
        reveal_strlit(" [");
        reveal_strlit(" ");
        assert("["@ =~= seq!['[']);
        assert("]"@ =~= seq![']']);
        assert(" ["@ =~= seq![' ', '[']);
        assert(" "@ =~= seq![' ']);
    }
    let mut s = "[".to_owned();
    let n = cells.len();
    proof {
        assert(cells@.take(0) =~= Seq::<u8>::empty());
        assert(seq!['['] + tape_cells_text(cells@.take(0), at as int) =~= "["@);
    }
    #[verifier::loop_isolation(false)]
    for i in 0..n
        invariant
            s@ == seq!['['] + tape_cells_text(cells@.take(i as int), at as int),
    {
        proof {
            assert(cells@.take(i + 1).drop_last() =~= cells@.take(i as int));
            assert(cells@.take(i + 1).last() == cells@[i as int]);
        }
        if i == at {
            s.append(" [");
            push_cell(cells[i], &mut s);
            s.append("]");
        } else {
            s.append(" ");
            push_cell(cells[i], &mut s);
        }
        proof {
            assert(s@ =~= seq!['['] + tape_cells_text(cells@.take(i + 1), at as int));
        }
    }
    proof {
        assert(cells@.take(n as int) =~= cells@);
    }
    s.append("]");
    proof {
        assert(s@ =~= tape_text(cells@, at as int));
    }
    s
}

} // verus!
