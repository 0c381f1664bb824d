//! One pass over the lines of a dry-run listing.
//!
//! Lines are numbered from 1. Each line is classified; a refused line stops
//! the pass at once. Every move line adds a `mega-rm` command to the script,
//! and every twentieth one is followed by an `echo` line that reports the
//! line number. Every line that is not refused is reported in a progress
//! message. The pass stops after the line whose number passes the expected
//! number of rows.

use vstd::prelude::*;
use crate::lines::{classify_line, line_class, LineClass, LineKind};
use crate::numbers::{dec, decimal};

verus! {

/// Why a pass stopped before the end of its input.
#[derive(Debug, Clone, Copy, PartialEq, Eq, Structural)]
pub enum Halt {
    /// The line numbered one past the expected number of rows was read.
    Limit,
    /// A quoted move line split into too few pieces (the number of pieces).
    ShortQuoted(usize),
    /// A spaced move line split into too few pieces (the number of pieces).
    ShortSpaced(usize),
    /// A move line without `/MEGA/` in its source path.
    NoMega,
}

/// The state of a pass.
pub struct ScanState {
    /// The number of lines read.
    pub linenum: nat,
    /// The number of move lines accepted.
    pub moves: nat,
    /// Move lines accepted since the last `echo` line.
    pub echo: nat,
    /// Why the pass stopped, once it has.
    pub halt: Option<Halt>,
    /// The script lines written so far, without their line ends.
    pub script: Seq<Seq<char>>,
    /// The progress messages sent so far.
    pub progress: Seq<Seq<char>>,
}

/// A pass that has read nothing.
pub open spec fn start_state() -> ScanState {
    ScanState {
        linenum: 0,
        moves: 0,
        echo: 0,
        halt: None,
        script: Seq::empty(),
        progress: Seq::empty(),
    }
}

/// The script line that removes `name` on MEGA.
pub open spec fn rm_command(name: Seq<char>) -> Seq<char> {
    "mega-rm '"@ + name + "'"@
}

/// The script line that reports line `n` of `rows`.
pub open spec fn echo_command(n: nat, rows: nat) -> Seq<char> {
    "echo \"processing "@ + dec(n) + " of "@ + dec(rows) + "\" "@
}

/// The progress message for line `n` of `rows`.
pub open spec fn progress_message(n: nat, rows: nat) -> Seq<char> {
    "Progress|"@ + dec(n) + "|"@ + dec(rows)
}

/// The halt that a refused line causes.
pub open spec fn refusal(k: LineClass) -> Option<Halt> {
    match k {
        LineClass::ShortQuoted(n) => Some(Halt::ShortQuoted(n)),
        LineClass::ShortSpaced(n) => Some(Halt::ShortSpaced(n)),
        LineClass::NoMega => Some(Halt::NoMega),
        _ => None,
    }
}

/// Records the move of `name` read on line `n`.
pub open spec fn record_move(st: ScanState, n: nat, rows: nat, name: Seq<char>) -> ScanState {
    let script = st.script.push(rm_command(name));
    if st.echo + 1 > 19 {
        ScanState {
            linenum: n,
            moves: st.moves + 1,
            echo: 0,
            halt: st.halt,
            script: script.push(echo_command(n, rows)),
            progress: st.progress,
        }
    } else {
        ScanState {
            linenum: n,
            moves: st.moves + 1,
            echo: st.echo + 1,
            halt: st.halt,
            script: script,
            progress: st.progress,
        }
    }
}

/// Reports an accepted line and stops once the line number passes `rows`.
pub open spec fn after_line(st: ScanState, rows: nat) -> ScanState {
    ScanState {
        linenum: st.linenum,
        moves: st.moves,
        echo: st.echo,
        halt: if st.linenum > rows {
            Some(Halt::Limit)
        } else {
            None
        },
        script: st.script,
        progress: st.progress.push(progress_message(st.linenum, rows)),
    }
}

/// The state after reading the line `l`; a stopped pass reads nothing more.
pub open spec fn scan_step(rows: nat, st: ScanState, l: Seq<char>) -> ScanState {
    if st.halt is Some {
        st
    } else {
        let n = st.linenum + 1;
        match line_class(l) {
            LineClass::Move(name) => after_line(record_move(st, n, rows, name), rows),
            LineClass::Other => after_line(
                ScanState {
                    linenum: n,
                    moves: st.moves,
                    echo: st.echo,
                    halt: None,
                    script: st.script,
                    progress: st.progress,
                },
                rows,
            ),
            k => ScanState {
                linenum: n,
                moves: st.moves,
                echo: st.echo,
                halt: refusal(k),
                script: st.script,
                progress: st.progress,
            },
        }
    }
}

/// The state after reading `lines` in order.
pub open spec fn scan(rows: nat, lines: Seq<Seq<char>>) -> ScanState
    decreases lines.len(),
{
    if lines.len() == 0 {
        start_state()
    } else {
        scan_step(rows, scan(rows, lines.drop_last()), lines.last())
    }
}

/// The characters of each string.
pub open spec fn texts(v: Seq<String>) -> Seq<Seq<char>> {
    v.map_values(|s: String| s@)
}

/// A pass over a listing that is expected to hold `rows` lines.
pub struct Scanner {
    rows: u64,
    linenum: u64,
    moves: u64,
    echo: u64,
    halt: Option<Halt>,
    script: Vec<String>,
    progress: Vec<String>,
}

impl View for Scanner {
    type V = ScanState;

    closed spec fn view(&self) -> ScanState {
        ScanState {
            linenum: self.linenum as nat,
            moves: self.moves as nat,
            echo: self.echo as nat,
            halt: self.halt,
            script: texts(self.script@),
            progress: texts(self.progress@),
        }
    }
}

impl Scanner {
    /// The expected number of rows.
    pub closed spec fn rows(&self) -> nat {
        self.rows as nat
    }

    /// The counters agree with each other and with `rows`.
    pub closed spec fn wf(&self) -> bool {
        &&& self.moves <= self.linenum
        &&& self.echo < 20
        &&& self.halt is None ==> self.linenum <= self.rows
    }

    /// A pass that has read nothing yet.
    pub fn new(rows: u64) -> (s: Scanner)
        ensures
            s@ == start_state(),
            s.rows() == rows,
            s.wf(),
    {
        let s = Scanner {
            rows,
            linenum: 0,
            moves: 0,
            echo: 0,
            halt: None,
            script: Vec::new(),
            progress: Vec::new(),
        };
        assert(texts(s.script@) =~= Seq::<Seq<char>>::empty());
        assert(texts(s.progress@) =~= Seq::<Seq<char>>::empty());
        s
    }

    /// The expected number of rows.
    pub fn rows_num(&self) -> (r: u64)
        ensures
            r == self.rows(),
    {
        self.rows
    }

    /// Why the pass stopped, if it has.
    pub fn halt(&self) -> (h: Option<Halt>)
        ensures
            h == self@.halt,
    {
        self.halt
    }

    /// The number of lines read.
    pub fn lines_read(&self) -> (n: u64)
        ensures
            n == self@.linenum,
    {
        self.linenum
    }

    /// The number of move lines accepted.
    pub fn moves(&self) -> (n: u64)
        ensures
            n == self@.moves,
    {
        self.moves
    }

    /// Reads one line; tells whether the pass wants another.
    pub fn feed(&mut self, line: &str) -> (more: bool)
        requires
            old(self).wf(),
            old(self)@.halt is Some || old(self)@.linenum < u64::MAX,
        ensures
            final(self).wf(),
            final(self)@ == scan_step(old(self).rows(), old(self)@, line@),
            final(self).rows() == old(self).rows(),
            more == (final(self)@.halt is None),
    {
        if self.halt.is_some() {
            return false;
        }
        let n = self.linenum + 1;
        let kind = classify_line(line);
        match kind {
            LineKind::ShortQuoted(k) => {
                self.linenum = n;
                self.halt = Some(Halt::ShortQuoted(k));
                return false;
            },
            LineKind::ShortSpaced(k) => {
                self.linenum = n;
                self.halt = Some(Halt::ShortSpaced(k));
                return false;
            },
            LineKind::NoMega => {
                self.linenum = n;
                self.halt = Some(Halt::NoMega);
                return false;
            },
            LineKind::Move(name) => {
                let ghost before = self.script@;
                let mut cmd = String::from_str("mega-rm '");
                cmd.append(name.as_str());
                cmd.append("'");
                self.script.push(cmd);
                assert(texts(self.script@) =~= texts(before).push(rm_command(name@)));
                self.moves = self.moves + 1;
                if self.echo + 1 > 19 {
                    let ghost mid = self.script@;
                    let mut echo_line = String::from_str("echo \"processing ");
                    echo_line.append(decimal(n).as_str());
                    echo_line.append(" of ");
                    echo_line.append(decimal(self.rows).as_str());
                    echo_line.append("\" ");
                    self.script.push(echo_line);
                    assert(texts(self.script@) =~= texts(mid).push(
                        echo_command(n as nat, self.rows as nat),
                    ));
                    self.echo = 0;
                } else {
                    self.echo = self.echo + 1;
                }
                self.linenum = n;
            },
            LineKind::Other => {
                self.linenum = n;
            },
        }
        let ghost before = self.progress@;
        let mut msg = String::from_str("Progress|");
        msg.append(decimal(n).as_str());
        msg.append("|");
        msg.append(decimal(self.rows).as_str());
        self.progress.push(msg);
        assert(texts(self.progress@) =~= texts(before).push(
            progress_message(n as nat, self.rows as nat),
        ));
        if n > self.rows {
            self.halt = Some(Halt::Limit);
            false
        } else {
            true
        }
    }

    /// The number of script lines so far.
    pub fn script_len(&self) -> (n: usize)
        ensures
            n == self@.script.len(),
    {
        self.script.len()
    }

    /// Script line `i`.
    pub fn script_line(&self, i: usize) -> (line: &String)
        requires
            i < self@.script.len(),
        ensures
            line@ == self@.script[i as int],
    {
        &self.script[i]
    }

    /// The number of progress messages so far.
    pub fn progress_len(&self) -> (n: usize)
        ensures
            n == self@.progress.len(),
    {
        self.progress.len()
    }

    /// Progress message `i`.
    pub fn progress_message(&self, i: usize) -> (msg: &String)
        requires
            i < self@.progress.len(),
        ensures
            msg@ == self@.progress[i as int],
    {
        &self.progress[i]
    }

    /// The script lines and the progress messages of the pass.
    pub fn into_outputs(self) -> (r: (Vec<String>, Vec<String>))
        ensures
            texts(r.0@) == self@.script,
            texts(r.1@) == self@.progress,
    {
        (self.script, self.progress)
    }
}

/// Runs a pass over `lines`.
pub fn scan_lines(rows: u64, lines: &Vec<String>) -> (s: Scanner)
    ensures
        s@ == scan(rows as nat, texts(lines@)),
        s.rows() == rows,
        s.wf(),
{
    let mut s = Scanner::new(rows);
    let mut i: usize = 0;
    while i < lines.len()
        invariant
            i <= lines@.len(),
            s.rows() == rows,
            s.wf(),
            s@ == scan(rows as nat, texts(lines@).take(i as int)),
            s@.linenum <= i,
        decreases lines@.len() - i,
    {
        if s.halt().is_some() {
            proof {
                lemma_scan_stays_halted(rows as nat, texts(lines@), i as int);
            }
            return s;
        }
        let ghost prefix = texts(lines@).take(i as int);
        s.feed(lines[i].as_str());
        i = i + 1;
        assert(texts(lines@).take(i as int).drop_last() =~= prefix);
    }
    assert(texts(lines@).take(i as int) =~= texts(lines@));
    s
}

/// A stopped pass stays as it is, whatever else it is given.
pub proof fn lemma_scan_stays_halted(rows: nat, lines: Seq<Seq<char>>, i: int)
    requires
        0 <= i <= lines.len(),
        scan(rows, lines.take(i)).halt is Some,
    ensures
        scan(rows, lines) == scan(rows, lines.take(i)),
    decreases lines.len(),
{
    if i < lines.len() {
        let d = lines.drop_last();
        assert(d.take(i) =~= lines.take(i));
        lemma_scan_stays_halted(rows, d, i);
    } else {
        assert(lines.take(i) =~= lines);
    }
}

/// The pass stopped on a refused line.
pub open spec fn refused(st: ScanState) -> bool {
    match st.halt {
        Some(Halt::ShortQuoted(_)) | Some(Halt::ShortSpaced(_)) | Some(Halt::NoMega) => true,
        _ => false,
    }
}

/// What holds of every pass: it reads at most one line past `rows` and
/// reads on while it has not stopped; the counters agree with the script
/// (one `echo` line after every twentieth move); the progress messages number
/// the accepted lines 1, 2, 3, ... in order.
pub proof fn lemma_scan_facts(rows: nat, lines: Seq<Seq<char>>)
    ensures
        scan(rows, lines).moves <= scan(rows, lines).linenum,
        scan(rows, lines).linenum <= rows + 1,
        scan(rows, lines).linenum <= lines.len(),
        scan(rows, lines).halt is None ==> scan(rows, lines).linenum == lines.len(),
        scan(rows, lines).halt is None ==> scan(rows, lines).linenum <= rows,
        scan(rows, lines).echo == scan(rows, lines).moves % 20,
        scan(rows, lines).script.len() == scan(rows, lines).moves + scan(rows, lines).moves / 20,
        scan(rows, lines).progress.len() == if refused(scan(rows, lines)) {
            scan(rows, lines).linenum - 1
        } else {
            scan(rows, lines).linenum as int
        },
        forall|i: int|
            0 <= i < scan(rows, lines).progress.len() ==> #[trigger] scan(rows, lines).progress[i]
                == progress_message((i + 1) as nat, rows),
    decreases lines.len(),
{
    if lines.len() > 0 {
        let prev = scan(rows, lines.drop_last());
        lemma_scan_facts(rows, lines.drop_last());
        let st = scan(rows, lines);
        if prev.halt is None {
            let n = prev.linenum + 1;
            match line_class(lines.last()) {
                LineClass::Move(name) => {
                    let mid = record_move(prev, n, rows, name);
                    assert(mid.echo == mid.moves % 20);
                    assert(mid.script.len() == mid.moves + mid.moves / 20);
                    assert forall|i: int| 0 <= i < st.progress.len() implies #[trigger] st.progress[i]
                        == progress_message((i + 1) as nat, rows) by {
                        if i < prev.progress.len() {
                            assert(st.progress[i] == prev.progress[i]);
                        }
                    }
                },
                LineClass::Other => {
                    assert forall|i: int| 0 <= i < st.progress.len() implies #[trigger] st.progress[i]
                        == progress_message((i + 1) as nat, rows) by {
                        if i < prev.progress.len() {
                            assert(st.progress[i] == prev.progress[i]);
                        }
                    }
                },
                _ => {},
            }
        }
    }
}

/// Once a pass has stopped, further lines change nothing.
pub proof fn lemma_scan_ignores_rest(rows: nat, lines: Seq<Seq<char>>, more: Seq<Seq<char>>)
    requires
        scan(rows, lines).halt is Some,
    ensures
        scan(rows, lines + more) == scan(rows, lines),
{
    assert((lines + more).take(lines.len() as int) =~= lines);
    lemma_scan_stays_halted(rows, lines + more, lines.len() as int);
}

} // verus!
