//! Reading back a progress message `Progress|<line>|<rows>`.

use vstd::prelude::*;
use crate::numbers::{parse_i32, parse_i32_spec};
use crate::text::{chars_of, matches_at, split_fields, split_pieces};

verus! {

/// What a message on the progress channel says.
#[derive(Debug, Clone, Copy, PartialEq, Eq, Structural)]
pub enum ProgressMsg {
    /// The line number and the row count that the message carries.
    Fraction(i32, i32),
    /// A progress message whose numbers do not read as `i32` (or read as the
    /// marker `-9999`).
    NotNumeric,
    /// Not three pieces split at `|`, or the first is not `Progress`.
    NotProgress,
}

/// The number read from `s`, with `-9999` standing for a failed read.
pub open spec fn number_or_marker(s: Seq<char>) -> i32 {
    match parse_i32_spec(s) {
        Some(v) => v,
        None => -9999i32,
    }
}

/// What the message `m` says.
pub open spec fn progress_meaning(m: Seq<char>) -> ProgressMsg {
    let f = split_fields(m, '|');
    if f.len() != 3 || f[0] != "Progress"@ {
        ProgressMsg::NotProgress
    } else if number_or_marker(f[1]) == -9999 || number_or_marker(f[2]) == -9999 {
        ProgressMsg::NotNumeric
    } else {
        ProgressMsg::Fraction(number_or_marker(f[1]), number_or_marker(f[2]))
    }
}

/// Reads a message from the progress channel.
pub fn parse_progress(msg: &str) -> (r: ProgressMsg)
    ensures
        r == progress_meaning(msg@),
{
    let v = chars_of(msg);
    let (count, first, second) = split_pieces(&v, '|');
    if count != 3 {
        return ProgressMsg::NotProgress;
    }
    let label = chars_of("Progress");
    if first != label.len() || !matches_at(&v, &label, 0) {
        proof {
            if v@.take(first as int) == label@ {
                assert(v@.subrange(0, label@.len() as int) =~= label@);
            }
        }
        return ProgressMsg::NotProgress;
    }
    assert(v@.take(first as int) =~= label@);
    let num = match parse_i32(&v, first + 1, second) {
        Some(x) => x,
        None => -9999,
    };
    let den = match parse_i32(&v, second + 1, v.len()) {
        Some(x) => x,
        None => -9999,
    };
    if num == -9999 || den == -9999 {
        ProgressMsg::NotNumeric
    } else {
        ProgressMsg::Fraction(num, den)
    }
}

} // verus!
