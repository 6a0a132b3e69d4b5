//! The agent: the report that it sends of its host, and what it prints.

use crate::bar::{bar, cells_are_filled_from_the_left, make_bar};
use crate::metrics::{CoreData, MetricsRequest};
use crate::text::{
    align_right, aligned_text_ends_the_column, decimal, decimal_notation_reads_back, decimal_text,
    right_aligned,
};
use vstd::prelude::*;

verus! {

/// How many cells the agent's bars have.
pub const AGENT_BAR_WIDTH: usize = 20;

/// A measured value as it is printed: how many cells of its bar are filled,
/// and the number itself with two decimals.
#[derive(Debug)]
pub struct Reading {
    pub filled: usize,
    pub text: String,
}

/// The number of a core in a report: its place, in 32 bits.
pub open spec fn core_id(i: int) -> int {
    i % 0x1_0000_0000
}

/// The name under which a host reports that cannot tell its own.
pub open spec fn reported_name(name: Option<String>) -> Seq<char> {
    match name {
        Some(name) => name@,
        None => "unknown-host"@,
    }
}

/// The report on a host with these loads of its cores and this much memory in use.
pub fn report<F: Copy>(host_name: Option<String>, usages: &Vec<F>, used_gb: F) -> (request:
    MetricsRequest<F>)
    ensures
        request.hostname@ == reported_name(host_name),
        request.cores@.len() == usages@.len(),
        forall|i: int|
            0 <= i < usages@.len() ==> (#[trigger] request.cores@[i]).core_id == core_id(i)
                && request.cores@[i].usage == usages@[i],
        request.memory_usage == used_gb,
        host_name is Some ==> request.hostname@ == host_name->0@,
        host_name is None ==> request.hostname@ == "unknown-host"@,
        forall|i: int|
            0 <= i < usages@.len() && i < 0x1_0000_0000 ==> (#[trigger] request.cores@[i]).core_id
                == i,
{
    let mut cores: Vec<CoreData<F>> = Vec::new();
    let mut i: usize = 0;
    while i < usages.len()
        invariant
            i <= usages.len(),
            cores@.len() == i,
            forall|k: int|
                0 <= k < i ==> (#[trigger] cores@[k]).core_id == core_id(k) && cores@[k].usage
                    == usages@[k],
        decreases usages.len() - i,
    {
        let wide: u64 = i as u64;
        let id: u32 = #[verifier::truncate] (wide as u32);
        assert(id == wide % 0x1_0000_0000) by (bit_vector)
            requires
                id == wide as u32,
        ;
        cores.push(CoreData { core_id: id, usage: usages[i] });
        i += 1;
    }
    let hostname: String = match host_name {
        Some(name) => name,
        None => "unknown-host".to_owned(),
    };
    MetricsRequest { hostname, cores, memory_usage: used_gb }
}

/// The line of the core at place `i`.
pub open spec fn core_line(i: nat, filled: nat, usage: Seq<char>) -> Seq<char> {
    "\x1B[2KCore "@ + right_aligned(decimal(i), 2) + ": "@ + bar(filled, AGENT_BAR_WIDTH as nat)
        + " | "@ + right_aligned(usage, 5) + "% |"@
}

/// The line between the cores and the memory.
pub open spec fn separator() -> Seq<char> {
    "--------------------------------|--------|"@
}

/// The line of the memory.
pub open spec fn memory_line(filled: nat, used: Seq<char>) -> Seq<char> {
    "\x1B[2KMem:     "@ + bar(filled, AGENT_BAR_WIDTH as nat) + " | "@ + right_aligned(used, 4)
        + "Gb |"@
}

/// The control sequence that moves the cursor up over the lines of `cores`
/// cores, the separator and the memory.
pub open spec fn back_to_top(cores: nat) -> Seq<char> {
    "\x1B["@ + decimal(cores + 2) + "A"@
}

/// The cores are numbered by their places, from zero on, and from zero again
/// where 32 bits do not suffice.
pub proof fn cores_are_numbered_by_their_places(i: int)
    requires
        i >= 0,
    ensures
        i < 0x1_0000_0000 ==> core_id(i) == i,
        core_id(i + 0x1_0000_0000) == core_id(i),
{
}

/// A host reports under its own name wherever it can tell it.
pub proof fn a_host_reports_under_its_own_name(name: String)
    ensures
        reported_name(Some(name)) == name@,
        reported_name(None) == "unknown-host"@,
{
}

/// The line of a core shows its number in a column of at least two characters,
/// from the tenth one on. Then comes the bar, of whose twenty cells exactly the
/// first ones are filled, and at the end the load, whole, in a column of at
/// least five characters.
pub proof fn the_line_of_a_core_shows_it_all(i: nat, filled: nat, usage: Seq<char>, c: int)
    requires
        1 <= c <= 20,
    ensures
        ({
            let line = core_line(i, filled, usage);
            let number = decimal(i);
            let wide = if number.len() < 2 {
                2
            } else {
                number.len() as int
            };
            let column = if usage.len() < 5 {
                5
            } else {
                usage.len() as int
            };
            &&& line.len() == 39 + wide + column
            &&& line.take(9) == "\x1B[2KCore "@
            &&& line.subrange(9 + wide - number.len(), 9 + wide) == number
            &&& number.len() == 1 ==> line[9] == ' '
            &&& line.subrange(9 + wide, 11 + wide) == ": "@
            &&& line[11 + wide] == '['
            &&& c <= filled ==> line[11 + wide + c] == '#'
            &&& c > filled ==> line[11 + wide + c] == '.'
            &&& line[32 + wide] == ']'
            &&& line.subrange(33 + wide, 36 + wide) == " | "@
            &&& line.subrange(line.len() - 3 - usage.len(), line.len() - 3) == usage
            &&& forall|k: int|
                36 + wide <= k < line.len() - 3 - usage.len() ==> #[trigger] line[k] == ' '
            &&& line.skip(line.len() - 3) == "% |"@
        }),
{
    reveal_strlit("\x1B[2KCore ");
    reveal_strlit(": ");
    reveal_strlit(" | ");
    reveal_strlit("% |");
    let line = core_line(i, filled, usage);
    let number = decimal(i);
    decimal_notation_reads_back(i);
    aligned_text_ends_the_column(number, 2);
    aligned_text_ends_the_column(usage, 5);
    cells_are_filled_from_the_left(filled, 20, c);
    let wide = right_aligned(number, 2).len() as int;
    assert(line.take(9) =~= "\x1B[2KCore "@);
    assert(line.subrange(9 + wide - number.len(), 9 + wide) =~= number);
    assert(line.subrange(9 + wide, 11 + wide) =~= ": "@);
    assert(line.subrange(33 + wide, 36 + wide) =~= " | "@);
    assert(line.subrange(line.len() - 3 - usage.len(), line.len() - 3) =~= usage);
    assert(line.skip(line.len() - 3) =~= "% |"@);
}

/// The line of the memory shows a bar, of whose twenty cells exactly the first
/// ones are filled, and at the end what is in use, whole, in a column of at least
/// four characters.
pub proof fn the_line_of_the_memory_shows_it_all(filled: nat, used: Seq<char>, c: int)
    requires
        1 <= c <= 20,
    ensures
        ({
            let line = memory_line(filled, used);
            let column = if used.len() < 4 {
                4
            } else {
                used.len() as int
            };
            &&& line.len() == 42 + column
            &&& line.take(13) == "\x1B[2KMem:     "@
            &&& line[13] == '['
            &&& c <= filled ==> line[13 + c] == '#'
            &&& c > filled ==> line[13 + c] == '.'
            &&& line[34] == ']'
            &&& line.subrange(35, 38) == " | "@
            &&& line.subrange(line.len() - 4 - used.len(), line.len() - 4) == used
            &&& forall|k: int|
                38 <= k < line.len() - 4 - used.len() ==> #[trigger] line[k] == ' '
            &&& line.skip(line.len() - 4) == "Gb |"@
        }),
{
    reveal_strlit("\x1B[2KMem:     ");
    reveal_strlit(" | ");
    reveal_strlit("Gb |");
    let line = memory_line(filled, used);
    aligned_text_ends_the_column(used, 4);
    cells_are_filled_from_the_left(filled, 20, c);
    assert(line.take(13) =~= "\x1B[2KMem:     "@);
    assert(line.subrange(35, 38) =~= " | "@);
    assert(line.subrange(line.len() - 4 - used.len(), line.len() - 4) =~= used);
    assert(line.skip(line.len() - 4) =~= "Gb |"@);
}

/// Between `ESC [` and `A` the control sequence names the number of lines above
/// the cursor: those of the cores, and two more.
pub proof fn the_cursor_goes_up_by_all_lines(cores: nat)
    ensures
        ({
            let sequence = back_to_top(cores);
            &&& sequence.len() >= 3
            &&& sequence[0] == '\x1B'
            &&& sequence[1] == '['
            &&& sequence[sequence.len() - 1] == 'A'
            &&& sequence.subrange(2, sequence.len() - 1).fold_left(
                0int,
                |v: int, c: char| 10 * v + (c as int - '0' as int),
            ) == cores + 2
        }),
{
    reveal_strlit("\x1B[");
    reveal_strlit("A");
    let sequence = back_to_top(cores);
    decimal_notation_reads_back(cores + 2);
    assert(sequence.subrange(2, sequence.len() - 1) =~= decimal(cores + 2));
}

fn core_text(i: usize, reading: &Reading) -> (line: String)
    ensures
        line@ == core_line(i as nat, reading.filled as nat, reading.text@),
{
    let mut line: String = "\x1B[2KCore ".to_owned();
    line.append(align_right(decimal_text(i as u64).as_str(), 2).as_str());
    line.append(": ");
    line.append(make_bar(reading.filled, AGENT_BAR_WIDTH).as_str());
    line.append(" | ");
    line.append(align_right(reading.text.as_str(), 5).as_str());
    line.append("% |");
    line
}

/// The lines that the agent prints before it sends its report: one for each
/// core, and the separator.
pub fn core_lines(readings: &Vec<Reading>) -> (lines: Vec<String>)
    ensures
        lines@.len() == readings@.len() + 1,
        forall|i: int|
            0 <= i < readings@.len() ==> (#[trigger] lines@[i])@ == core_line(
                i as nat,
                readings@[i].filled as nat,
                readings@[i].text@,
            ),
        lines@[readings@.len() as int]@ == separator(),
{
    let mut lines: Vec<String> = Vec::new();
    let mut i: usize = 0;
    while i < readings.len()
        invariant
            i <= readings.len(),
            lines@.len() == i,
            forall|k: int|
                0 <= k < i ==> (#[trigger] lines@[k])@ == core_line(
                    k as nat,
                    readings@[k].filled as nat,
                    readings@[k].text@,
                ),
        decreases readings.len() - i,
    {
        lines.push(core_text(i, &readings[i]));
        i += 1;
    }
    lines.push("--------------------------------|--------|".to_owned());
    lines
}

/// The line that the agent prints of the memory after it has sent its report.
pub fn memory_text(reading: &Reading) -> (line: String)
    ensures
        line@ == memory_line(reading.filled as nat, reading.text@),
{
    let mut line: String = "\x1B[2KMem:     ".to_owned();
    line.append(make_bar(reading.filled, AGENT_BAR_WIDTH).as_str());
    line.append(" | ");
    line.append(align_right(reading.text.as_str(), 4).as_str());
    line.append("Gb |");
    line
}

/// The control sequence that leads back to the first line, so that the next
/// round overwrites this one.
pub fn cursor_home(cores: usize) -> (sequence: String)
    requires
        cores + 2 <= usize::MAX,
    ensures
        sequence@ == back_to_top(cores as nat),
{
    let mut sequence: String = "\x1B[".to_owned();
    sequence.append(decimal_text((cores + 2) as u64).as_str());
    sequence.append("A");
    sequence
}

} // verus!
