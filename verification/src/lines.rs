//! What one line of an fclones dry-run listing says.
//!
//! A move line starts with `mv `. Its source path is the second piece of the
//! line split at `'` when the line holds a `'`, else split at spaces; a quoted
//! line must split into at least four pieces and a spaced one into at least
//! three. The source path must hold `/MEGA/`; what follows the first `/MEGA/`
//! is the name of the file on MEGA.

use vstd::prelude::*;
use crate::text::{
    chars_of, contains_seq, find_seq, first_occurrence, lemma_index_of_char, matches_at,
    next_char, split_fields, split_pieces, starts_with,
};

verus! {

/// The verdict on one line.
#[derive(Debug)]
pub enum LineKind {
    /// Not a move line: it does not start with `mv `.
    Other,
    /// A move line with a `'` that splits at `'` into fewer than four pieces
    /// (the number of pieces).
    ShortQuoted(usize),
    /// A move line without `'` that splits at spaces into fewer than three
    /// pieces (the number of pieces).
    ShortSpaced(usize),
    /// A move line whose source path holds no `/MEGA/`.
    NoMega,
    /// A move line; the name after `/MEGA/` in its source path.
    Move(String),
}

/// The verdict on one line, over the characters of the name.
pub enum LineClass {
    Other,
    ShortQuoted(usize),
    ShortSpaced(usize),
    NoMega,
    Move(Seq<char>),
}

impl View for LineKind {
    type V = LineClass;

    open spec fn view(&self) -> LineClass {
        match self {
            LineKind::Other => LineClass::Other,
            LineKind::ShortQuoted(n) => LineClass::ShortQuoted(*n),
            LineKind::ShortSpaced(n) => LineClass::ShortSpaced(*n),
            LineKind::NoMega => LineClass::NoMega,
            LineKind::Move(name) => LineClass::Move(name@),
        }
    }
}

/// What a source path gives: the text after its first `/MEGA/`, if any.
pub open spec fn source_class(from: Seq<char>) -> LineClass {
    if contains_seq(from, "/MEGA/"@) {
        LineClass::Move(from.skip(first_occurrence(from, "/MEGA/"@) + 6))
    } else {
        LineClass::NoMega
    }
}

/// The verdict on the line `l`.
pub open spec fn line_class(l: Seq<char>) -> LineClass {
    if !starts_with(l, "mv "@) {
        LineClass::Other
    } else if l.contains('\'') {
        let pieces = split_fields(l, '\'');
        if pieces.len() < 4 {
            LineClass::ShortQuoted(pieces.len() as usize)
        } else {
            source_class(pieces[1])
        }
    } else {
        let pieces = split_fields(l, ' ');
        if pieces.len() < 3 {
            LineClass::ShortSpaced(pieces.len() as usize)
        } else {
            source_class(pieces[1])
        }
    }
}

/// The verdict on the text of a source path.
fn classify_source(from: &str) -> (k: LineKind)
    ensures
        k@ == source_class(from@),
{
    let fv = chars_of(from);
    let marker = chars_of("/MEGA/");
    proof {
        reveal_strlit("/MEGA/");
    }
    assert(marker@.len() == 6);
    match find_seq(&fv, &marker) {
        None => LineKind::NoMega,
        Some(p) => {
            let end = fv.len();
            assert(p + 6 <= end);
            let name = from.substring_char(p + 6, end);
            assert(name@ =~= from@.skip(p + 6));
            LineKind::Move(String::from_str(name))
        },
    }
}

/// The verdict on one line of the listing (its end of line included or not).
pub fn classify_line(line: &str) -> (k: LineKind)
    ensures
        k@ == line_class(line@),
{
    let v = chars_of(line);
    let prefix = chars_of("mv ");
    if !matches_at(&v, &prefix, 0) {
        return LineKind::Other;
    }
    let q = next_char(&v, '\'', 0);
    proof {
        assert(v@.skip(0) =~= v@);
        lemma_index_of_char(v@, '\'');
    }
    let quoted = q < v.len();
    let sep = if quoted {
        '\''
    } else {
        ' '
    };
    let need: usize = if quoted {
        4
    } else {
        3
    };
    let (count, first_sep, second_sep) = split_pieces(&v, sep);
    if count < need {
        if quoted {
            return LineKind::ShortQuoted(count);
        } else {
            return LineKind::ShortSpaced(count);
        }
    }
    let from = line.substring_char(first_sep + 1, second_sep);
    classify_source(from)
}

} // verus!
