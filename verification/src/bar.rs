//! Load bars made of characters.

use vstd::prelude::*;

verus! {

/// A bar with `width` cells, of which the first `filled` ones are filled.
pub open spec fn bar(filled: nat, width: nat) -> Seq<char> {
    let full = if filled < width {
        filled
    } else {
        width
    };
    seq!['['] + Seq::new(full, |i: int| '#') + Seq::new((width - full) as nat, |i: int| '.') + seq![
        ']',
    ]
}

/// Draws a bar with `width` cells, of which the first `filled` ones are filled,
/// and all of them where `filled` is larger.
pub fn make_bar(filled: usize, width: usize) -> (drawn: String)
    ensures
        drawn@ == bar(filled as nat, width as nat),
{
    let full: usize = if filled < width {
        filled
    } else {
        width
    };
    proof {
        reveal_strlit("[");
        reveal_strlit("]");
        reveal_strlit("#");
        reveal_strlit(".");
    }
    let mut drawn: String = "[".to_owned();
    let mut i: usize = 0;
    while i < width
        invariant
            i <= width,
            full <= width,
            drawn@.len() == i + 1,
            drawn@[0] == '[',
            forall|k: int|
                0 < k <= i ==> #[trigger] drawn@[k] == if k <= full {
                    '#'
                } else {
                    '.'
                },
            "#"@ == seq!['#'],
            "."@ == seq!['.'],
        decreases width - i,
    {
        if i < full {
            drawn.append("#");
        } else {
            drawn.append(".");
        }
        i += 1;
    }
    drawn.append("]");
    assert(drawn@ =~= bar(filled as nat, width as nat));
    drawn
}

/// How many cells of a bar are filled: as many as it was asked for, up to its width.
pub proof fn filled_cells_are_counted(filled: nat, width: nat)
    ensures
        bar(filled, width).to_multiset().count('#') == if filled < width {
            filled
        } else {
            width
        },
        bar(filled, width).len() == width + 2,
{
    let full = if filled < width {
        filled
    } else {
        width
    };
    let cells = Seq::new(full, |i: int| '#');
    let rest = Seq::new((width - full) as nat, |i: int| '.');
    lemma_run(full, '#');
    lemma_run((width - full) as nat, '.');
    lemma_run(1, '[');
    lemma_run(1, ']');
    assert(seq!['['] =~= Seq::new(1, |i: int| '['));
    assert(seq![']'] =~= Seq::new(1, |i: int| ']'));
    vstd::seq_lib::lemma_multiset_commutative(seq!['['], cells);
    vstd::seq_lib::lemma_multiset_commutative(seq!['['] + cells, rest);
    vstd::seq_lib::lemma_multiset_commutative(seq!['['] + cells + rest, seq![']']);
}

proof fn lemma_run(n: nat, c: char)
    ensures
        Seq::new(n, |i: int| c).to_multiset().count('#') == if c == '#' {
            n
        } else {
            0
        },
    decreases n,
{
    let run = Seq::new(n, |i: int| c);
    run.to_multiset_ensures();
    if n > 0 {
        let shorter = Seq::new((n - 1) as nat, |i: int| c);
        lemma_run((n - 1) as nat, c);
        shorter.to_multiset_ensures();
        assert(run =~= shorter.push(c));
    }
}

/// Of two bars of one width the one that is filled further has no fewer filled
/// cells, and both are equally long.
pub proof fn a_larger_share_never_gives_a_shorter_bar(a: nat, b: nat, width: nat)
    requires
        a <= b,
    ensures
        bar(a, width).to_multiset().count('#') <= bar(b, width).to_multiset().count('#'),
        bar(a, width).len() == bar(b, width).len(),
{
    filled_cells_are_counted(a, width);
    filled_cells_are_counted(b, width);
}

/// All bars of one width are equally long, and one that is filled further has
/// the filled cells of the other one among its own.
pub proof fn bars_grow_to_the_right(a: nat, b: nat, width: nat, i: int)
    requires
        a <= b,
    ensures
        bar(a, width).len() == width + 2,
        bar(b, width).len() == width + 2,
        0 <= i < width + 2 && bar(a, width)[i] == '#' ==> bar(b, width)[i] == '#',
        bar(a, width)[0] == '[',
        bar(a, width)[(width + 1) as int] == ']',
{
}

/// A bar that is filled to its width or further is filled in every cell.
pub proof fn bars_fill_up(filled: nat, width: nat, i: int)
    requires
        0 < i <= width,
    ensures
        filled >= width ==> bar(filled, width)[i] == '#',
        bar(0, width)[i] == '.',
{
}

/// The cell at place `i` of a bar, counted from 1, is filled if and only if that
/// many cells were asked for; all others are empty.
pub proof fn cells_are_filled_from_the_left(filled: nat, width: nat, i: int)
    requires
        1 <= i <= width,
    ensures
        bar(filled, width).len() == width + 2,
        i <= filled ==> bar(filled, width)[i] == '#',
        i > filled ==> bar(filled, width)[i] == '.',
        bar(filled, width)[0] == '[',
        bar(filled, width)[(width + 1) as int] == ']',
{
}

} // verus!
