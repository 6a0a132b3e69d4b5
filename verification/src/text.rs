//! Numbers and columns in text.

use vstd::prelude::*;

verus! {

/// A decimal digit.
pub open spec fn digit(d: int) -> char {
    if d == 0 {
        '0'
    } else if d == 1 {
        '1'
    } else if d == 2 {
        '2'
    } else if d == 3 {
        '3'
    } else if d == 4 {
        '4'
    } else if d == 5 {
        '5'
    } else if d == 6 {
        '6'
    } else if d == 7 {
        '7'
    } else if d == 8 {
        '8'
    } else {
        '9'
    }
}

/// A number in decimal notation, without leading zeros.
pub open spec fn decimal(n: nat) -> Seq<char>
    decreases n,
{
    if n < 10 {
        seq![digit(n as int)]
    } else {
        decimal(n / 10).push(digit((n % 10) as int))
    }
}

/// `text` with as many blanks before it as make it `width` characters long.
pub open spec fn right_aligned(text: Seq<char>, width: nat) -> Seq<char> {
    if text.len() >= width {
        text
    } else {
        Seq::new((width - text.len()) as nat, |i: int| ' ') + text
    }
}

fn digit_text(d: u64) -> (text: &'static str)
    requires
        d < 10,
    ensures
        text@ == seq![digit(d as int)],
{
    proof {
        reveal_strlit("0");
        reveal_strlit("1");
        reveal_strlit("2");
        reveal_strlit("3");
        reveal_strlit("4");
        reveal_strlit("5");
        reveal_strlit("6");
        reveal_strlit("7");
        reveal_strlit("8");
        reveal_strlit("9");
    }
    match d {
        0 => "0",
        1 => "1",
        2 => "2",
        3 => "3",
        4 => "4",
        5 => "5",
        6 => "6",
        7 => "7",
        8 => "8",
        _ => "9",
    }
}

/// Writes a number in decimal notation.
pub fn decimal_text(n: u64) -> (text: String)
    ensures
        text@ == decimal(n as nat),
    decreases n,
{
    if n < 10 {
        digit_text(n).to_owned()
    } else {
        let mut text: String = decimal_text(n / 10);
        text.append(digit_text(n % 10));
        assert(text@ =~= decimal(n as nat));
        text
    }
}

/// Moves `text` to the right edge of a column that is `width` characters wide.
pub fn align_right(text: &str, width: usize) -> (aligned: String)
    ensures
        aligned@ == right_aligned(text@, width as nat),
{
    let mut aligned: String = String::new();
    let mut used: usize = text.unicode_len();
    let ghost start = used;
    proof {
        reveal_strlit(" ");
    }
    while used < width
        invariant
            start == text@.len(),
            start <= used,
            used <= width || used == start,
            aligned@ == Seq::new((used - start) as nat, |i: int| ' '),
            " "@ == seq![' '],
        decreases width - used,
    {
        aligned.append(" ");
        used += 1;
        assert(aligned@ =~= Seq::new((used - start) as nat, |i: int| ' '));
    }
    aligned.append(text);
    assert(aligned@ =~= right_aligned(text@, width as nat));
    aligned
}

/// Read digit by digit, a number in decimal notation is the number again; it is
/// made of digits alone, and begins with a zero only where it is zero.
pub proof fn decimal_notation_reads_back(n: nat)
    ensures
        decimal(n).len() > 0,
        forall|i: int| 0 <= i < decimal(n).len() ==> '0' <= #[trigger] decimal(n)[i] <= '9',
        n > 0 ==> decimal(n)[0] != '0',
        decimal(n).fold_left(0int, |v: int, c: char| 10 * v + (c as int - '0' as int)) == n,
    decreases n,
{
    let read = |v: int, c: char| 10 * v + (c as int - '0' as int);
    reveal_with_fuel(Seq::fold_left, 2);
    if n >= 10 {
        let front = decimal(n / 10);
        decimal_notation_reads_back(n / 10);
        assert(decimal(n).drop_last() =~= front);
        assert(decimal(n).last() == digit((n % 10) as int));
        assert(read(n as int / 10, decimal(n).last()) == n);
        assert forall|i: int| 0 <= i < decimal(n).len() implies '0' <= #[trigger] decimal(
            n,
        )[i] <= '9' by {
            if i < front.len() {
                assert(decimal(n)[i] == front[i]);
            }
        }
        assert(decimal(n)[0] == front[0]);
    } else {
        assert(decimal(n).drop_last() =~= Seq::empty());
        assert(read(0, decimal(n).last()) == n);
    }
}

/// A text in a column ends at the column's edge, has only blanks before it, and
/// is never cut off.
pub proof fn aligned_text_ends_the_column(text: Seq<char>, width: nat)
    ensures
        ({
            let column = right_aligned(text, width);
            let blanks = column.len() - text.len();
            &&& column.len() == if text.len() < width {
                width
            } else {
                text.len()
            }
            &&& column.skip(blanks) == text
            &&& forall|i: int| 0 <= i < blanks ==> #[trigger] column[i] == ' '
        }),
{
    assert(right_aligned(text, width).skip(right_aligned(text, width).len() - text.len()) =~= text);
}

} // verus!
