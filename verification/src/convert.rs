//! The conversion of a dry-run listing into a `mega-rm` script.

use vstd::prelude::*;
use crate::scan::{scan, scan_lines, texts, Halt, ScanState, Scanner};

verus! {

/// The result of a conversion: a code (0 when all is well) and a message.
#[derive(Debug, Clone)]
pub struct Execx {
    pub errcd: u32,
    pub errval: String,
}

/// What a conversion produces.
#[derive(Debug)]
pub struct Conversion {
    /// The code and message.
    pub execx: Execx,
    /// The lines of the script (`<listing>__tmp3`), each without its line end.
    pub script: Vec<String>,
    /// The progress messages, in the order they are sent.
    pub progress: Vec<String>,
}

/// The code and message of a conversion that reads its listing.
pub open spec fn convert_outcome(st: ScanState, read_failed: bool) -> (u32, Seq<char>) {
    match st.halt {
        Some(Halt::ShortQuoted(_)) => (2, "a line in the file quoted less than 4"@),
        Some(Halt::ShortSpaced(_)) => (3, "a line in the file spaced less than 3"@),
        Some(Halt::NoMega) => (4, "a line in the file does not have /MEGA/"@),
        _ => if st.halt is None && read_failed {
            (1, "error reading mega-ls file: do file i and iconv"@)
        } else {
            (0, "processed the file"@)
        },
    }
}

/// Whether the conversion reads the listing (and writes a script).
pub open spec fn convert_reads(file_exists: bool, rows_num: nat) -> bool {
    file_exists && rows_num >= 2
}

/// The code and message of the conversion; `lines` and `read_failed` are as
/// for the check.
pub open spec fn execit_outcome(
    file_exists: bool,
    rows_num: nat,
    lines: Seq<Seq<char>>,
    read_failed: bool,
) -> (u32, Seq<char>) {
    if !file_exists {
        (6, "the fclone dry run file does not exist"@)
    } else if rows_num < 2 {
        (1, "The number of rows is less than 2"@)
    } else {
        convert_outcome(scan(rows_num, lines), read_failed)
    }
}

/// The script lines of the conversion.
pub open spec fn execit_script(file_exists: bool, rows_num: nat, lines: Seq<Seq<char>>) -> Seq<
    Seq<char>,
> {
    if convert_reads(file_exists, rows_num) {
        scan(rows_num, lines).script
    } else {
        Seq::empty()
    }
}

/// The progress messages of the conversion.
pub open spec fn execit_progress(file_exists: bool, rows_num: nat, lines: Seq<Seq<char>>) -> Seq<
    Seq<char>,
> {
    if convert_reads(file_exists, rows_num) {
        scan(rows_num, lines).progress
    } else {
        Seq::empty()
    }
}

impl Execx {
    /// Whether the conversion needs the lines of the listing (and writes a
    /// script).
    pub fn needs_lines(file_exists: bool, rows_num: u64) -> (b: bool)
        ensures
            b == convert_reads(file_exists, rows_num as nat),
    {
        file_exists && rows_num >= 2
    }

    /// The code and message of a conversion, from its pass over the listing
    /// and whether reading failed after the lines that the pass was given
    /// (for a conversion that reads the listing line by line, as
    /// `needs_lines` asks).
    pub fn finish(s: &Scanner, read_failed: bool) -> (x: Execx)
        ensures
            x.errcd == convert_outcome(s@, read_failed).0,
            x.errval@ == convert_outcome(s@, read_failed).1,
    {
        match s.halt() {
            Some(Halt::ShortQuoted(_)) => Execx {
                errcd: 2,
                errval: String::from_str("a line in the file quoted less than 4"),
            },
            Some(Halt::ShortSpaced(_)) => Execx {
                errcd: 3,
                errval: String::from_str("a line in the file spaced less than 3"),
            },
            Some(Halt::NoMega) => Execx {
                errcd: 4,
                errval: String::from_str("a line in the file does not have /MEGA/"),
            },
            h => {
                if h.is_none() && read_failed {
                    Execx {
                        errcd: 1,
                        errval: String::from_str("error reading mega-ls file: do file i and iconv"),
                    }
                } else {
                    Execx { errcd: 0, errval: String::from_str("processed the file") }
                }
            },
        }
    }

    /// Converts a dry-run listing into the lines of a `mega-rm` script and
    /// the progress messages. `file_exists` tells whether the listing exists;
    /// `lines` are the lines read from it in order, each with its line end,
    /// and `read_failed` tells that reading failed after them. Lines are only
    /// looked at where `needs_lines` holds.
    pub fn execit(file_exists: bool, rows_num: u64, lines: &Vec<String>, read_failed: bool) -> (r:
        Conversion)
        ensures
            r.execx.errcd == execit_outcome(file_exists, rows_num as nat, texts(lines@), read_failed).0,
            r.execx.errval@ == execit_outcome(file_exists, rows_num as nat, texts(lines@), read_failed).1,
            texts(r.script@) == execit_script(file_exists, rows_num as nat, texts(lines@)),
            texts(r.progress@) == execit_progress(file_exists, rows_num as nat, texts(lines@)),
    {
        if !file_exists || rows_num < 2 {
            let errval = if !file_exists {
                String::from_str("the fclone dry run file does not exist")
            } else {
                String::from_str("The number of rows is less than 2")
            };
            let script: Vec<String> = Vec::new();
            let progress: Vec<String> = Vec::new();
            assert(texts(script@) =~= Seq::<Seq<char>>::empty());
            assert(texts(progress@) =~= Seq::<Seq<char>>::empty());
            return Conversion {
                execx: Execx { errcd: if !file_exists { 6 } else { 1 }, errval },
                script,
                progress,
            };
        }
        let s = scan_lines(rows_num, lines);
        let execx = Execx::finish(&s, read_failed);
        let (script, progress) = s.into_outputs();
        Conversion { execx, script, progress }
    }
}

} // verus!
