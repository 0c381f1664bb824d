//! Properties that tie the check, the conversion and the window together.

use vstd::prelude::*;
use crate::check::execpress_spec;
use crate::convert::{execit_outcome, execit_script};
use crate::numbers::{all_digits, dec, is_digit, lemma_dec, lemma_parse_dec};
use crate::progress::{number_or_marker, progress_meaning, ProgressMsg};
use crate::scan::{lemma_scan_facts, progress_message, refused, scan, Halt};
use crate::text::{lemma_index_of_char_unique, split_fields};
use crate::window::{asks_again, progress_flag_after_all, WindowEvent};

verus! {

/// A string of digits splits at `|` into itself alone.
proof fn lemma_digits_one_piece(s: Seq<char>)
    requires
        all_digits(s),
    ensures
        split_fields(s, '|') == seq![s],
{
    assert forall|j: int| 0 <= j < s.len() implies s[j] != '|' by {
        assert(is_digit(s[j]));
    }
    lemma_index_of_char_unique(s, '|', s.len() as int);
}

/// A progress message that the conversion sends reads back, in the window,
/// as the line number and the row count it carries, whenever both fit in an
/// `i32`; otherwise it reads as not numeric.
pub proof fn law_progress_round_trip(n: nat, rows: nat)
    ensures
        progress_meaning(progress_message(n, rows)) == if n <= i32::MAX && rows <= i32::MAX {
            ProgressMsg::Fraction(n as i32, rows as i32)
        } else {
            ProgressMsg::NotNumeric
        },
{
    reveal_strlit("Progress|");
    reveal_strlit("Progress");
    reveal_strlit("|");
    let a = dec(n);
    let b = dec(rows);
    lemma_dec(n);
    lemma_dec(rows);
    lemma_parse_dec(n);
    lemma_parse_dec(rows);
    let m = progress_message(n, rows);
    assert(m =~= "Progress|"@ + a + "|"@ + b);
    // The first `|` closes the label.
    assert(m[8] == '|');
    assert forall|j: int| 0 <= j < 8 implies m[j] != '|' by {
        assert(m[j] == "Progress|"@[j]);
    }
    lemma_index_of_char_unique(m, '|', 8);
    let t1 = m.skip(9);
    assert(t1 =~= a + "|"@ + b);
    // The second `|` closes the line number.
    assert(t1[a.len() as int] == '|');
    assert forall|j: int| 0 <= j < a.len() implies t1[j] != '|' by {
        assert(t1[j] == a[j]);
        assert(is_digit(a[j]));
    }
    lemma_index_of_char_unique(t1, '|', a.len() as int);
    let t2 = t1.skip(a.len() + 1 as int);
    assert(t2 =~= b);
    lemma_digits_one_piece(b);
    assert(t1.take(a.len() as int) =~= a);
    assert(split_fields(t1, '|') =~= seq![a, b]);
    assert(m.take(8) =~= "Progress"@);
    assert(split_fields(m, '|') =~= seq!["Progress"@, a, b]);
    if n <= i32::MAX {
        assert(number_or_marker(a) == n as i32);
    } else {
        assert(number_or_marker(a) == -9999);
    }
    if rows <= i32::MAX {
        assert(number_or_marker(b) == rows as i32);
    } else {
        assert(number_or_marker(b) == -9999);
    }
}

/// The check and the conversion agree on a listing that both read: the
/// check refuses a line exactly when the conversion does (for the same
/// reason, with the same message, its code one higher); the check reports a
/// read failure exactly when the conversion does; and the check succeeds
/// exactly when the conversion succeeds and writes a script that is not
/// empty.
pub proof fn law_check_agrees_with_conversion(
    rows: nat,
    lines: Seq<Seq<char>>,
    read_failed: bool,
)
    requires
        rows >= 2,
    ensures
        ({
            let c = execpress_spec(true, rows, false, lines, read_failed);
            let x = execit_outcome(true, rows, lines, read_failed);
            let script = execit_script(true, rows, lines);
            &&& (3 <= c.0 <= 5) <==> (2 <= x.0 <= 4)
            &&& (3 <= c.0 <= 5) ==> c.0 == x.0 + 1 && c.1 == x.1
            &&& (c.0 == 6 && c.1 == "error reading mega file"@) <==> x.0 == 1
            &&& c.0 == 0 <==> (x.0 == 0 && script.len() > 0)
        }),
{
    reveal_strlit("error reading mega file");
    reveal_strlit("no lines containing mv in file");
    lemma_scan_facts(rows, lines);
    let st = scan(rows, lines);
    assert(st.script.len() > 0 <==> st.moves >= 1);
    assert("no lines containing mv in file"@[0] != "error reading mega file"@[0]);
}

/// A pass never reads more than one line past the expected number of rows,
/// nor more lines than it is given.
pub proof fn law_reads_at_most_rows_plus_one(rows: nat, lines: Seq<Seq<char>>)
    ensures
        scan(rows, lines).linenum <= rows + 1,
        scan(rows, lines).linenum <= lines.len(),
{
    lemma_scan_facts(rows, lines);
}

/// The conversion writes one `echo` line after every twentieth `mega-rm`
/// line: its script holds `m + m / 20` lines for `m` accepted moves.
pub proof fn law_echo_every_twenty(rows: nat, lines: Seq<Seq<char>>)
    ensures
        scan(rows, lines).script.len() == scan(rows, lines).moves + scan(rows, lines).moves / 20,
{
    lemma_scan_facts(rows, lines);
}

/// The progress messages of a pass number its lines 1, 2, 3, ... in order,
/// one for every line read except a refused last one.
pub proof fn law_progress_numbers_lines(rows: nat, lines: Seq<Seq<char>>)
    ensures
        forall|i: int|
            0 <= i < scan(rows, lines).progress.len() ==> #[trigger] scan(rows, lines).progress[i]
                == progress_message((i + 1) as nat, rows),
        scan(rows, lines).progress.len() == if refused(scan(rows, lines)) {
            scan(rows, lines).linenum - 1
        } else {
            scan(rows, lines).linenum as int
        },
{
    lemma_scan_facts(rows, lines);
}

/// Some event among the first `n` of `events` is a press of the progress
/// button.
pub open spec fn pressed_before(events: Seq<WindowEvent>, n: int) -> bool {
    exists|j: int| 0 <= j < n && #[trigger] events[j] is ProgressPressed
}

proof fn lemma_flag_is_pressed(events: Seq<WindowEvent>)
    ensures
        progress_flag_after_all(false, events) == pressed_before(events, events.len() as int),
    decreases events.len(),
{
    if events.len() > 0 {
        let d = events.drop_last();
        lemma_flag_is_pressed(d);
        if pressed_before(d, d.len() as int) {
            let j = choose|j: int| 0 <= j < d.len() && #[trigger] d[j] is ProgressPressed;
            assert(events[j] == d[j]);
        }
        if pressed_before(events, events.len() as int) {
            let j = choose|j: int| 0 <= j < events.len() && #[trigger] events[j] is ProgressPressed;
            if j < d.len() {
                assert(d[j] == events[j]);
            }
        }
    }
}

/// The progress flag of a window that has just opened (`Megaremove::new`
/// leaves it unset) is unset until the progress button is pressed, and set
/// for good from then on; a tick of the timer that ends well starts the
/// timer again exactly when the button was pressed before it, and no other
/// event starts it.
pub proof fn law_progress_flag(events: Seq<WindowEvent>)
    ensures
        forall|i: int|
            0 <= i <= events.len() ==> progress_flag_after_all(false, #[trigger] events.take(i))
                == pressed_before(events, i),
        forall|i: int|
            0 <= i < events.len() ==> (asks_again(
                progress_flag_after_all(false, events.take(i)),
                #[trigger] events[i],
            ) <==> (events[i] matches WindowEvent::ProgressTick(ok) && ok && pressed_before(
                events,
                i,
            ))),
{
    assert forall|i: int| 0 <= i <= events.len() implies progress_flag_after_all(
        false,
        #[trigger] events.take(i),
    ) == pressed_before(events, i) by {
        let t = events.take(i);
        lemma_flag_is_pressed(t);
        if pressed_before(t, i) {
            let j = choose|j: int| 0 <= j < i && #[trigger] t[j] is ProgressPressed;
            assert(events[j] == t[j]);
        }
        if pressed_before(events, i) {
            let j = choose|j: int| 0 <= j < i && #[trigger] events[j] is ProgressPressed;
            assert(t[j] == events[j]);
        }
    }
    assert forall|i: int| 0 <= i < events.len() implies (asks_again(
        progress_flag_after_all(false, events.take(i)),
        #[trigger] events[i],
    ) <==> (events[i] matches WindowEvent::ProgressTick(ok) && ok && pressed_before(
        events,
        i,
    ))) by {
        assert(progress_flag_after_all(false, events.take(i)) == pressed_before(events, i));
    }
}

} // verus!
