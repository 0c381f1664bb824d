//! The check that runs before a conversion: the listing must exist, hold at
//! least two rows, have no script beside it yet, and its lines up to one past
//! the expected row count must all be acceptable, with at least one move.

use vstd::prelude::*;
use crate::scan::{scan, scan_lines, texts, Halt, ScanState, Scanner};

verus! {

/// The code and message of a check that reads its listing, from the state of
/// its pass and whether reading failed after the lines it was given.
pub open spec fn check_outcome(st: ScanState, read_failed: bool) -> (u32, Seq<char>) {
    match st.halt {
        Some(Halt::ShortQuoted(_)) => (3, "a line in the file quoted less than 4"@),
        Some(Halt::ShortSpaced(_)) => (4, "a line in the file spaced less than 3"@),
        Some(Halt::NoMega) => (5, "a line in the file does not have /MEGA/"@),
        _ => if st.halt is None && read_failed {
            (6, "error reading mega file"@)
        } else if st.moves < 1 {
            (6, "no lines containing mv in file"@)
        } else {
            (0, "got fclone dry run and all files are ok"@)
        },
    }
}

/// Whether the check reads the listing at all.
pub open spec fn check_reads(file_exists: bool, rows_num: nat, target_exists: bool) -> bool {
    file_exists && rows_num >= 2 && !target_exists
}

/// The code and message of the check. `lines` are the lines read from the
/// listing in order, each as read with its line end; `read_failed` tells
/// that reading failed after them (rather than reaching the end).
pub open spec fn execpress_spec(
    file_exists: bool,
    rows_num: nat,
    target_exists: bool,
    lines: Seq<Seq<char>>,
    read_failed: bool,
) -> (u32, Seq<char>) {
    if !file_exists {
        (6, "the fclone dry run file does not exist"@)
    } else if rows_num < 2 {
        (1, "The number of rows is less than 2"@)
    } else if target_exists {
        (2, "output file already exists"@)
    } else {
        check_outcome(scan(rows_num, lines), read_failed)
    }
}

/// Whether the check needs the lines of the listing.
pub fn check_needs_lines(file_exists: bool, rows_num: u64, target_exists: bool) -> (b: bool)
    ensures
        b == check_reads(file_exists, rows_num as nat, target_exists),
{
    file_exists && rows_num >= 2 && !target_exists
}

/// Checks a dry-run listing before it is converted. `file_exists` tells
/// whether the listing exists, `target_exists` whether its script
/// (`<listing>__tmp3`) already exists; `lines` and `read_failed` are as in
/// `execpress_spec`. Lines are only looked at where `check_needs_lines`
/// holds. Returns the code (0 when all is well) and the message.
pub fn execpress(
    file_exists: bool,
    rows_num: u64,
    target_exists: bool,
    lines: &Vec<String>,
    read_failed: bool,
) -> (r: (u32, String))
    ensures
        r.0 == execpress_spec(file_exists, rows_num as nat, target_exists, texts(lines@), read_failed).0,
        r.1@ == execpress_spec(file_exists, rows_num as nat, target_exists, texts(lines@), read_failed).1,
{
    if !file_exists {
        return (6, String::from_str("the fclone dry run file does not exist"));
    }
    if rows_num < 2 {
        return (1, String::from_str("The number of rows is less than 2"));
    }
    if target_exists {
        return (2, String::from_str("output file already exists"));
    }
    let s = scan_lines(rows_num, lines);
    check_finish(&s, read_failed)
}

/// The code and message of the check, from its pass over the listing and
/// whether reading failed after the lines that the pass was given (for a
/// check that reads the listing line by line, as `check_needs_lines` asks).
pub fn check_finish(s: &Scanner, read_failed: bool) -> (r: (u32, String))
    ensures
        r.0 == check_outcome(s@, read_failed).0,
        r.1@ == check_outcome(s@, read_failed).1,
{
    match s.halt() {
        Some(Halt::ShortQuoted(_)) => (3, String::from_str("a line in the file quoted less than 4")),
        Some(Halt::ShortSpaced(_)) => (4, String::from_str("a line in the file spaced less than 3")),
        Some(Halt::NoMega) => (5, String::from_str("a line in the file does not have /MEGA/")),
        h => {
            if h.is_none() && read_failed {
                (6, String::from_str("error reading mega file"))
            } else if s.moves() < 1 {
                (6, String::from_str("no lines containing mv in file"))
            } else {
                (0, String::from_str("got fclone dry run and all files are ok"))
            }
        },
    }
}

} // verus!
