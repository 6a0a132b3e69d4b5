//! The monitor of the local host, which prints and sends nothing.

use crate::agent::Reading;
use crate::bar::{bar, cells_are_filled_from_the_left, make_bar};
use crate::text::{decimal, decimal_text};
use vstd::prelude::*;

verus! {

/// How many cells the bars of the local monitor have.
pub const LOCAL_BAR_WIDTH: usize = 10;

/// The line of the core at place `i`.
pub open spec fn core_line(i: nat, filled: nat, usage: Seq<char>) -> Seq<char> {
    "\x1B[2KCore "@ + decimal(i) + ": "@ + bar(filled, LOCAL_BAR_WIDTH as nat) + " | "@ + usage
        + "%"@
}

/// The line between the cores and the memory.
pub open spec fn separator() -> Seq<char> {
    "-----------------------------"@
}

/// The line of the memory.
pub open spec fn memory_line(filled: nat) -> Seq<char> {
    "\x1B[2KMem: "@ + bar(filled, LOCAL_BAR_WIDTH as nat)
}

/// The line of a core shows its number from the tenth character on, then the bar,
/// of whose ten cells exactly the first ones are filled, and at the end the load,
/// whole.
pub proof fn the_line_of_a_core_shows_it_all(i: nat, filled: nat, usage: Seq<char>, c: int)
    requires
        1 <= c <= 10,
    ensures
        ({
            let line = core_line(i, filled, usage);
            let number = decimal(i);
            let wide = number.len() as int;
            &&& line.len() == 27 + wide + usage.len()
            &&& line.take(9) == "\x1B[2KCore "@
            &&& line.subrange(9, 9 + wide) == number
            &&& line.subrange(9 + wide, 11 + wide) == ": "@
            &&& line[11 + wide] == '['
            &&& c <= filled ==> line[11 + wide + c] == '#'
            &&& c > filled ==> line[11 + wide + c] == '.'
            &&& line[22 + wide] == ']'
            &&& line.subrange(23 + wide, 26 + wide) == " | "@
            &&& line.subrange(26 + wide, line.len() - 1) == usage
            &&& line[line.len() - 1] == '%'
        }),
{
    reveal_strlit("\x1B[2KCore ");
    reveal_strlit(": ");
    reveal_strlit(" | ");
    reveal_strlit("%");
    let line = core_line(i, filled, usage);
    let number = decimal(i);
    let wide = number.len() as int;
    cells_are_filled_from_the_left(filled, 10, c);
    assert(line.take(9) =~= "\x1B[2KCore "@);
    assert(line.subrange(9, 9 + wide) =~= number);
    assert(line.subrange(9 + wide, 11 + wide) =~= ": "@);
    assert(line.subrange(23 + wide, 26 + wide) =~= " | "@);
    assert(line.subrange(26 + wide, line.len() - 1) =~= usage);
}

/// The line of the memory shows a bar, of whose ten cells exactly the first ones
/// are filled.
pub proof fn the_line_of_the_memory_shows_its_bar(filled: nat, c: int)
    requires
        1 <= c <= 10,
    ensures
        ({
            let line = memory_line(filled);
            &&& line.len() == 21
            &&& line.take(9) == "\x1B[2KMem: "@
            &&& line[9] == '['
            &&& c <= filled ==> line[9 + c] == '#'
            &&& c > filled ==> line[9 + c] == '.'
            &&& line[20] == ']'
        }),
{
    reveal_strlit("\x1B[2KMem: ");
    cells_are_filled_from_the_left(filled, 10, c);
    assert(memory_line(filled).take(9) =~= "\x1B[2KMem: "@);
}

fn core_text(i: usize, reading: &Reading) -> (line: String)
    ensures
        line@ == core_line(i as nat, reading.filled as nat, reading.text@),
{
    let mut line: String = "\x1B[2KCore ".to_owned();
    line.append(decimal_text(i as u64).as_str());
    line.append(": ");
    line.append(make_bar(reading.filled, LOCAL_BAR_WIDTH).as_str());
    line.append(" | ");
    line.append(reading.text.as_str());
    line.append("%");
    line
}

/// The lines of one round: one for each core, the separator, and the memory
/// with so many cells of its bar filled.
pub fn screen_lines(readings: &Vec<Reading>, memory_filled: usize) -> (lines: Vec<String>)
    ensures
        lines@.len() == readings@.len() + 2,
        forall|i: int|
            0 <= i < readings@.len() ==> (#[trigger] lines@[i])@ == core_line(
                i as nat,
                readings@[i].filled as nat,
                readings@[i].text@,
            ),
        lines@[readings@.len() as int]@ == separator(),
        lines@[readings@.len() as int + 1]@ == memory_line(memory_filled as nat),
{
    let mut lines: Vec<String> = Vec::new();
    let mut i: usize = 0;
    while i < readings.len()
        invariant
            i <= readings.len(),
            lines@.len() == i,
            forall|k: int|
                0 <= k < i ==> (#[trigger] lines@[k])@ == core_line(
                    k as nat,
                    readings@[k].filled as nat,
                    readings@[k].text@,
                ),
        decreases readings.len() - i,
    {
        lines.push(core_text(i, &readings[i]));
        i += 1;
    }
    lines.push("-----------------------------".to_owned());
    let mut memory: String = "\x1B[2KMem: ".to_owned();
    memory.append(make_bar(memory_filled, LOCAL_BAR_WIDTH).as_str());
    lines.push(memory);
    lines
}

} // verus!
