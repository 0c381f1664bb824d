//! What the check and the conversion do with a listing, stated line by line
//! from the text of the lines themselves.
//!
//! A line is a move line when it starts with `mv `. Its source path is the
//! second piece of the line split at `'` (when it holds one) or at spaces. A
//! move line is accepted when it has enough pieces (four when quoted, three
//! otherwise) and its source path holds `/MEGA/`; any other move line is
//! refused. Lines are numbered from 1, and the line numbered one past the
//! expected row count is the last one read.

use vstd::prelude::*;
use crate::check::execpress_spec;
use crate::convert::{execit_outcome, execit_progress, execit_script};
use crate::lines::{line_class, LineClass};
use crate::numbers::dec;
use crate::scan::{lemma_scan_facts, lemma_scan_stays_halted, scan, scan_step, Halt, ScanState};
use crate::text::{contains_seq, first_occurrence, split_fields, starts_with};

verus! {

/// The line starts with `mv `.
pub open spec fn is_move_line(l: Seq<char>) -> bool {
    starts_with(l, "mv "@)
}

/// The character a move line is split at.
pub open spec fn separator(l: Seq<char>) -> char {
    if l.contains('\'') {
        '\''
    } else {
        ' '
    }
}

/// The move line splits into enough pieces.
pub open spec fn has_enough_pieces(l: Seq<char>) -> bool {
    split_fields(l, separator(l)).len() >= if l.contains('\'') {
        4int
    } else {
        3int
    }
}

/// The source path of a move line.
pub open spec fn source_path(l: Seq<char>) -> Seq<char> {
    split_fields(l, separator(l))[1]
}

/// The move line is accepted.
pub open spec fn is_accepted_move(l: Seq<char>) -> bool {
    &&& is_move_line(l)
    &&& has_enough_pieces(l)
    &&& contains_seq(source_path(l), "/MEGA/"@)
}

/// The move line has enough pieces but its source path holds no `/MEGA/`.
pub open spec fn lacks_mega(l: Seq<char>) -> bool {
    &&& is_move_line(l)
    &&& has_enough_pieces(l)
    &&& !contains_seq(source_path(l), "/MEGA/"@)
}

/// The line is a refused move line.
pub open spec fn is_refused_line(l: Seq<char>) -> bool {
    is_move_line(l) && !is_accepted_move(l)
}

/// The whole text after the first `/MEGA/` of the source path.
pub open spec fn mega_name(l: Seq<char>) -> Seq<char> {
    let src = source_path(l);
    src.skip(first_occurrence(src, "/MEGA/"@) + "/MEGA/"@.len())
}

/// The number of accepted move lines in `lines`.
pub open spec fn count_moves(lines: Seq<Seq<char>>) -> nat
    decreases lines.len(),
{
    if lines.len() == 0 {
        0
    } else {
        count_moves(lines.drop_last()) + if is_accepted_move(lines.last()) {
            1nat
        } else {
            0nat
        }
    }
}

/// No line before index `i` is refused.
pub open spec fn none_refused_before(lines: Seq<Seq<char>>, i: int) -> bool {
    forall|j: int| 0 <= j < i ==> !is_refused_line(#[trigger] lines[j])
}

/// How the classification of a line reads in terms of its text.
proof fn lemma_line_class_text(l: Seq<char>)
    ensures
        line_class(l) is Other <==> !is_move_line(l),
        line_class(l) is Move <==> is_accepted_move(l),
        line_class(l) is NoMega <==> lacks_mega(l),
        is_accepted_move(l) ==> line_class(l) == LineClass::Move(mega_name(l)),
        (line_class(l) is ShortQuoted || line_class(l) is ShortSpaced || line_class(l) is NoMega)
            <==> is_refused_line(l),
{
    reveal_strlit("/MEGA/");
}

/// The script of a pass only grows: a step keeps what was written.
proof fn lemma_step_keeps_script(rows: nat, st: ScanState, l: Seq<char>)
    ensures
        st.script.len() <= scan_step(rows, st, l).script.len(),
        forall|p: int|
            0 <= p < st.script.len() ==> #[trigger] scan_step(rows, st, l).script[p]
                == st.script[p],
{
}

/// What a pass over the first `k` lines wrote stays at the front of what a
/// pass over all lines writes.
proof fn lemma_script_prefix(rows: nat, lines: Seq<Seq<char>>, k: int)
    requires
        0 <= k <= lines.len(),
    ensures
        scan(rows, lines.take(k)).script.len() <= scan(rows, lines).script.len(),
        forall|p: int|
            0 <= p < scan(rows, lines.take(k)).script.len() ==> #[trigger] scan(
                rows,
                lines,
            ).script[p] == scan(rows, lines.take(k)).script[p],
    decreases lines.len(),
{
    if k == lines.len() {
        assert(lines.take(k) =~= lines);
    } else {
        let d = lines.drop_last();
        assert(d.take(k) =~= lines.take(k));
        lemma_script_prefix(rows, d, k);
        lemma_step_keeps_script(rows, scan(rows, d), lines.last());
    }
}

/// Before any refused line and within the rows read, a pass has read every
/// line, has not stopped, and has counted the accepted moves.
proof fn lemma_clean_prefix(rows: nat, lines: Seq<Seq<char>>, k: int)
    requires
        0 <= k <= lines.len(),
        k <= rows,
        none_refused_before(lines, k),
    ensures
        scan(rows, lines.take(k)).halt is None,
        scan(rows, lines.take(k)).linenum == k,
        scan(rows, lines.take(k)).moves == count_moves(lines.take(k)),
    decreases k,
{
    if k > 0 {
        let t = lines.take(k);
        assert(t.drop_last() =~= lines.take(k - 1));
        assert(t.last() == lines[k - 1]);
        lemma_clean_prefix(rows, lines, k - 1);
        assert(!is_refused_line(lines[k - 1]));
        lemma_line_class_text(lines[k - 1]);
    } else {
        assert(lines.take(0) =~= Seq::<Seq<char>>::empty());
    }
}

/// The state of a pass just after it read line `i`, which it reached without
/// a refusal.
proof fn lemma_state_after(rows: nat, lines: Seq<Seq<char>>, i: int)
    requires
        0 <= i < lines.len(),
        i <= rows,
        none_refused_before(lines, i),
    ensures
        scan(rows, lines.take(i + 1)) == scan_step(rows, scan(rows, lines.take(i)), lines[i]),
        scan(rows, lines.take(i)).halt is None,
        scan(rows, lines.take(i)).linenum == i,
        scan(rows, lines.take(i)).moves == count_moves(lines.take(i)),
        scan(rows, lines.take(i)).echo == count_moves(lines.take(i)) % 20,
        scan(rows, lines.take(i)).script.len() == count_moves(lines.take(i)) + count_moves(
            lines.take(i),
        ) / 20,
{
    lemma_clean_prefix(rows, lines, i);
    lemma_scan_facts(rows, lines.take(i));
    assert(lines.take(i + 1).drop_last() =~= lines.take(i));
    assert(lines.take(i + 1).last() == lines[i]);
}

/// A listing whose first refused line, read within the expected rows, is a
/// move whose source path holds no `/MEGA/`: the check answers 5 and the
/// conversion 4, with the message "a line in the file does not have
/// /MEGA/", however many good moves came before it and whatever follows.
pub proof fn law_move_outside_mega_is_refused(
    rows: nat,
    lines: Seq<Seq<char>>,
    i: int,
    read_failed: bool,
)
    requires
        rows >= 2,
        0 <= i < lines.len(),
        i <= rows,
        none_refused_before(lines, i),
        lacks_mega(lines[i]),
    ensures
        execpress_spec(true, rows, false, lines, read_failed) == (
            5u32,
            "a line in the file does not have /MEGA/"@,
        ),
        execit_outcome(true, rows, lines, read_failed) == (
            4u32,
            "a line in the file does not have /MEGA/"@,
        ),
{
    lemma_state_after(rows, lines, i);
    lemma_line_class_text(lines[i]);
    assert(scan(rows, lines.take(i + 1)).halt == Some(Halt::NoMega));
    lemma_scan_stays_halted(rows, lines, i + 1);
}

/// Every accepted move line read before any refusal puts, in the script, the
/// line `mega-rm '<name>'`, where `<name>` is the whole text after the first
/// `/MEGA/` of its source path; it stands after the lines of the `m` moves
/// before it and their `m / 20` echo lines.
pub proof fn law_move_writes_mega_rm(rows: nat, lines: Seq<Seq<char>>, i: int)
    requires
        rows >= 2,
        0 <= i < lines.len(),
        i <= rows,
        none_refused_before(lines, i),
        is_accepted_move(lines[i]),
    ensures
        ({
            let m = count_moves(lines.take(i));
            let script = execit_script(true, rows, lines);
            &&& m + m / 20 < script.len()
            &&& script[(m + m / 20) as int] == "mega-rm '"@ + mega_name(lines[i]) + "'"@
        }),
{
    lemma_state_after(rows, lines, i);
    lemma_line_class_text(lines[i]);
    let m = count_moves(lines.take(i));
    let after = scan(rows, lines.take(i + 1));
    assert(after.script[(m + m / 20) as int] == "mega-rm '"@ + mega_name(lines[i]) + "'"@);
    lemma_script_prefix(rows, lines, i + 1);
}

/// The move line that brings the number of accepted moves to `20 * k` is
/// followed in the script by `echo "processing <n> of <rows>" `, where `<n>`
/// is the number of that line in the listing.
pub proof fn law_echo_reports_line_number(rows: nat, lines: Seq<Seq<char>>, i: int, k: nat)
    requires
        rows >= 2,
        0 <= i < lines.len(),
        i <= rows,
        none_refused_before(lines, i),
        is_accepted_move(lines[i]),
        k >= 1,
        count_moves(lines.take(i)) + 1 == 20 * k,
    ensures
        ({
            let script = execit_script(true, rows, lines);
            &&& 20 * k + k - 1 < script.len()
            &&& script[20 * k + k - 1] == "echo \"processing "@ + dec((i + 1) as nat) + " of "@
                + dec(rows) + "\" "@
        }),
{
    lemma_state_after(rows, lines, i);
    lemma_line_class_text(lines[i]);
    let m = count_moves(lines.take(i));
    assert(m % 20 == 19);
    assert(m / 20 == k - 1);
    let after = scan(rows, lines.take(i + 1));
    assert(after.script[20 * k + k - 1] == "echo \"processing "@ + dec((i + 1) as nat) + " of "@
        + dec(rows) + "\" "@);
    lemma_script_prefix(rows, lines, i + 1);
}

/// A step of a pass keeps the progress messages sent so far.
proof fn lemma_step_keeps_progress(rows: nat, st: ScanState, l: Seq<char>)
    ensures
        st.progress.len() <= scan_step(rows, st, l).progress.len(),
        forall|p: int|
            0 <= p < st.progress.len() ==> #[trigger] scan_step(rows, st, l).progress[p]
                == st.progress[p],
{
}

/// The messages of a pass over the first `k` lines stay at the front of
/// those of a pass over all lines.
proof fn lemma_progress_prefix(rows: nat, lines: Seq<Seq<char>>, k: int)
    requires
        0 <= k <= lines.len(),
    ensures
        scan(rows, lines.take(k)).progress.len() <= scan(rows, lines).progress.len(),
        forall|p: int|
            0 <= p < scan(rows, lines.take(k)).progress.len() ==> #[trigger] scan(
                rows,
                lines,
            ).progress[p] == scan(rows, lines.take(k)).progress[p],
    decreases lines.len(),
{
    if k == lines.len() {
        assert(lines.take(k) =~= lines);
    } else {
        let d = lines.drop_last();
        assert(d.take(k) =~= lines.take(k));
        lemma_progress_prefix(rows, d, k);
        lemma_step_keeps_progress(rows, scan(rows, d), lines.last());
    }
}

/// Every line that is read and not refused, before any refusal, is reported
/// by the conversion with the message `Progress|<n>|<rows>`, where `<n>` is
/// its number in the listing, and message `n` is the `n`-th sent.
pub proof fn law_progress_reports_each_line(rows: nat, lines: Seq<Seq<char>>, i: int)
    requires
        rows >= 2,
        0 <= i < lines.len(),
        i <= rows,
        none_refused_before(lines, i + 1),
    ensures
        ({
            let progress = execit_progress(true, rows, lines);
            &&& i < progress.len()
            &&& progress[i] == "Progress|"@ + dec((i + 1) as nat) + "|"@ + dec(rows)
        }),
{
    lemma_state_after(rows, lines, i);
    lemma_scan_facts(rows, lines.take(i));
    lemma_line_class_text(lines[i]);
    assert(!is_refused_line(lines[i]));
    let after = scan(rows, lines.take(i + 1));
    assert(after.progress[i] == "Progress|"@ + dec((i + 1) as nat) + "|"@ + dec(rows));
    lemma_progress_prefix(rows, lines, i + 1);
}

/// The first refused line read decides both answers, however many good
/// lines came before it and whatever follows: a quoted move line with fewer
/// than four pieces gives 3 and 2, a spaced one with fewer than three pieces
/// gives 4 and 3, and one without `/MEGA/` gives 5 and 4 (check and
/// conversion), each with its message.
pub proof fn law_first_refusal_decides(
    rows: nat,
    lines: Seq<Seq<char>>,
    i: int,
    read_failed: bool,
)
    requires
        rows >= 2,
        0 <= i < lines.len(),
        i <= rows,
        none_refused_before(lines, i),
        is_refused_line(lines[i]),
    ensures
        lines[i].contains('\'') && !has_enough_pieces(lines[i]) ==> {
            &&& execpress_spec(true, rows, false, lines, read_failed) == (
                3u32,
                "a line in the file quoted less than 4"@,
            )
            &&& execit_outcome(true, rows, lines, read_failed) == (
                2u32,
                "a line in the file quoted less than 4"@,
            )
        },
        !lines[i].contains('\'') && !has_enough_pieces(lines[i]) ==> {
            &&& execpress_spec(true, rows, false, lines, read_failed) == (
                4u32,
                "a line in the file spaced less than 3"@,
            )
            &&& execit_outcome(true, rows, lines, read_failed) == (
                3u32,
                "a line in the file spaced less than 3"@,
            )
        },
        lacks_mega(lines[i]) ==> {
            &&& execpress_spec(true, rows, false, lines, read_failed) == (
                5u32,
                "a line in the file does not have /MEGA/"@,
            )
            &&& execit_outcome(true, rows, lines, read_failed) == (
                4u32,
                "a line in the file does not have /MEGA/"@,
            )
        },
{
    lemma_state_after(rows, lines, i);
    lemma_line_class_text(lines[i]);
    assert(scan(rows, lines.take(i + 1)).halt is Some);
    lemma_scan_stays_halted(rows, lines, i + 1);
}

/// A listing with no refused line among the lines read (all of them, up to
/// the one numbered one past the expected rows), read without failure up to
/// there: the check answers 0 when it holds an accepted move and 6 ("no
/// lines containing mv in file") when it holds none, and the conversion
/// answers 0 ("processed the file").
pub proof fn law_clean_listing_passes(rows: nat, lines: Seq<Seq<char>>, read_failed: bool)
    requires
        rows >= 2,
        none_refused_before(lines, if lines.len() <= rows { lines.len() as int } else { rows + 1 as int }),
        read_failed ==> lines.len() > rows,
    ensures
        ({
            let r = if lines.len() <= rows {
                lines.len() as int
            } else {
                rows + 1 as int
            };
            let moves = count_moves(lines.take(r));
            &&& moves >= 1 ==> execpress_spec(true, rows, false, lines, read_failed) == (
                0u32,
                "got fclone dry run and all files are ok"@,
            )
            &&& moves == 0 ==> execpress_spec(true, rows, false, lines, read_failed) == (
                6u32,
                "no lines containing mv in file"@,
            )
            &&& execit_outcome(true, rows, lines, read_failed) == (0u32, "processed the file"@)
        }),
{
    if lines.len() <= rows {
        let n = lines.len() as int;
        lemma_clean_prefix(rows, lines, n);
        assert(lines.take(n) =~= lines);
    } else {
        let i = rows as int;
        lemma_state_after(rows, lines, i);
        lemma_line_class_text(lines[i]);
        assert(!is_refused_line(lines[i]));
        let t = lines.take(i + 1);
        assert(t.drop_last() =~= lines.take(i));
        assert(count_moves(t) == count_moves(lines.take(i)) + if is_accepted_move(lines[i]) {
            1nat
        } else {
            0nat
        });
        assert(scan(rows, t).halt == Some(Halt::Limit));
        lemma_scan_stays_halted(rows, lines, i + 1);
    }
}

} // verus!
