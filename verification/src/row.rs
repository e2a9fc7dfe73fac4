//! The cells of a table row, as text.

use crate::model::BrtProcess;
use crate::model::Record;
use crate::text::format_hundredths;
use crate::text::format_i64;
use crate::text::hundredths_digits;
use crate::text::signed_digits;
use vstd::prelude::*;
use vstd::string::*;

verus! {

/// Fractional digits of a memory size that is not a whole number of units.
pub const SIZE_DECIMAL_PLACES: u8 = 1;

/// Fractional digits of a memory size that is a whole number of units.
pub const SIZE_DECIMAL_ZEROES: u8 = 0;

/// Whether a space separates the number of a memory size from its unit.
pub const SIZE_SPACE_AFTER_VALUE: bool = false;

/// The text that `humansize` gives for a number of bytes with binary
/// (1024-based) units, with the given number of fractional digits for sizes
/// that are not whole (`decimal_places`) and for sizes that are
/// (`decimal_zeroes`), and with or without a space before the unit.
pub uninterp spec fn binary_size_text(
    bytes: u64,
    decimal_places: u8,
    decimal_zeroes: u8,
    space_after_value: bool,
) -> Seq<char>;

/// The memory cell of a row: the size in binary units, as in `1.5KiB`.
pub open spec fn memory_text(bytes: u64) -> Seq<char> {
    binary_size_text(bytes, SIZE_DECIMAL_PLACES, SIZE_DECIMAL_ZEROES, SIZE_SPACE_AFTER_VALUE)
}

/// The eight cells of a row: process id, program, command line, thread
/// count, user, memory, history glyphs, and CPU utilisation in percent with
/// two fractional digits.
pub open spec fn row_cells(record: Record, memory: Seq<char>) -> Seq<Seq<char>> {
    seq![
        signed_digits(record.pid),
        record.program,
        record.command,
        signed_digits(record.number_of_threads),
        record.user,
        memory,
        record.cpu_graph,
        hundredths_digits(record.cpu as nat),
    ]
}

/// Calls `humansize::format_size` with the binary option set, changed in
/// the two digit counts and the spacing as the arguments say. The result is
/// taken to be a function of the four arguments alone; nothing else is
/// claimed of it.
#[verifier::external_body]
fn format_binary_size(
    bytes: u64,
    decimal_places: u8,
    decimal_zeroes: u8,
    space_after_value: bool,
) -> (text: String)
    ensures
        text@ == binary_size_text(bytes, decimal_places, decimal_zeroes, space_after_value),
{
    let options = humansize::FormatSizeOptions::from(humansize::BINARY)
        .space_after_value(space_after_value)
        .decimal_places(decimal_places as usize)
        .decimal_zeroes(decimal_zeroes as usize);
    humansize::format_size(bytes, options)
}

/// Puts the cells of a row together, given the text of its memory cell.
pub fn assemble_row(process: &BrtProcess, memory: String) -> (cells: Vec<String>)
    ensures
        cells.deep_view() == row_cells(process@, memory@),
{
    let mut cells: Vec<String> = Vec::new();
    cells.push(format_i64(process.pid as i64));
    cells.push(process.program.clone());
    cells.push(process.command.clone());
    cells.push(format_i64(process.number_of_threads));
    cells.push(process.user.clone());
    cells.push(memory);
    cells.push(process.cpu_graph.clone());
    cells.push(format_hundredths(process.cpu));
    assert(cells.deep_view() =~= row_cells(process@, memory@));
    cells
}

/// The cells of the row of one process.
pub fn create_row(process: &BrtProcess) -> (cells: Vec<String>)
    ensures
        cells.deep_view() == row_cells(process@, memory_text(process.resident_memory)),
{
    let memory = format_binary_size(
        process.resident_memory,
        SIZE_DECIMAL_PLACES,
        SIZE_DECIMAL_ZEROES,
        SIZE_SPACE_AFTER_VALUE,
    );
    assemble_row(process, memory)
}

/// The rows of all processes, in the order of the table.
pub fn create_rows(processes: &Vec<BrtProcess>) -> (rows: Vec<Vec<String>>)
    ensures
        rows@.len() == processes@.len(),
        forall|i: int|
            0 <= i < rows@.len() ==> (#[trigger] rows@[i]).deep_view() == row_cells(
                processes@[i]@,
                memory_text(processes@[i].resident_memory),
            ),
{
    let mut rows: Vec<Vec<String>> = Vec::new();
    let mut i: usize = 0;
    while i < processes.len()
        invariant
            i <= processes@.len(),
            rows@.len() == i,
            forall|k: int|
                0 <= k < rows@.len() ==> (#[trigger] rows@[k]).deep_view() == row_cells(
                    processes@[k]@,
                    memory_text(processes@[k].resident_memory),
                ),
        decreases processes@.len() - i,
    {
        rows.push(create_row(&processes[i]));
        i = i + 1;
    }
    rows
}

} // verus!
