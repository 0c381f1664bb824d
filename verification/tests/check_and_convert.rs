use megaremove::check::{check_finish, check_needs_lines, execpress};
use megaremove::convert::Execx;
use megaremove::scan::{scan_lines, Halt, Scanner};

fn lines(v: &[&str]) -> Vec<String> {
    v.iter().map(|s| s.to_string()).collect()
}

fn good() -> Vec<String> {
    lines(&[
        "# fclones dry run\n",
        "mv '/home/u/MEGA/a b.txt' '/home/u/dup/a b.txt'\n",
        "mv /home/u/MEGA/c.txt /home/u/dup/c.txt\n",
        "\n",
    ])
}

#[test]
fn execpress_missing_file() {
    let (code, msg) = execpress(false, 10, false, &good(), false);
    assert_eq!(code, 6);
    assert_eq!(msg, "the fclone dry run file does not exist");
}

#[test]
fn execpress_too_few_rows() {
    let (code, msg) = execpress(true, 1, false, &good(), false);
    assert_eq!(code, 1);
    assert_eq!(msg, "The number of rows is less than 2");
}

#[test]
fn execpress_target_exists() {
    let (code, msg) = execpress(true, 4, true, &good(), false);
    assert_eq!(code, 2);
    assert_eq!(msg, "output file already exists");
}

#[test]
fn execpress_good_listing() {
    let (code, msg) = execpress(true, 4, false, &good(), false);
    assert_eq!(code, 0);
    assert_eq!(msg, "got fclone dry run and all files are ok");
}

#[test]
fn execpress_quoted_refusal() {
    let l = lines(&["mv /a/MEGA/b /c\n", "mv 'x'\n", "mv /a/MEGA/d /e\n"]);
    assert_eq!(execpress(true, 3, false, &l, false), (3, "a line in the file quoted less than 4".to_string()));
}

#[test]
fn execpress_spaced_refusal() {
    let l = lines(&["mv x\n"]);
    assert_eq!(execpress(true, 3, false, &l, false), (4, "a line in the file spaced less than 3".to_string()));
}

#[test]
fn execpress_no_mega_refusal() {
    let l = lines(&["mv /a/b /c\n"]);
    assert_eq!(execpress(true, 3, false, &l, false), (5, "a line in the file does not have /MEGA/".to_string()));
}

#[test]
fn execpress_read_error() {
    assert_eq!(execpress(true, 9, false, &good(), true), (6, "error reading mega file".to_string()));
}

#[test]
fn execpress_without_moves() {
    let l = lines(&["a\n", "b\n"]);
    assert_eq!(execpress(true, 2, false, &l, false), (6, "no lines containing mv in file".to_string()));
}

#[test]
fn execpress_stops_one_past_rows() {
    // rows = 2: lines 1..3 are read, line 4 (a bad one) and the read error are never seen.
    let l = lines(&["mv /a/MEGA/x /b\n", "x\n", "y\n", "mv bad\n"]);
    assert_eq!(execpress(true, 2, false, &l, true).0, 0);
    let s = scan_lines(2, &l);
    assert_eq!(s.lines_read(), 3);
    assert_eq!(s.halt(), Some(Halt::Limit));
}

#[test]
fn check_needs_lines_only_when_it_reads() {
    assert!(check_needs_lines(true, 2, false));
    assert!(!check_needs_lines(false, 2, false));
    assert!(!check_needs_lines(true, 1, false));
    assert!(!check_needs_lines(true, 2, true));
}

#[test]
fn execit_missing_file_and_few_rows() {
    let c = Execx::execit(false, 10, &good(), false);
    assert_eq!(c.execx.errcd, 6);
    assert_eq!(c.execx.errval, "the fclone dry run file does not exist");
    assert!(c.script.is_empty() && c.progress.is_empty());
    let c = Execx::execit(true, 1, &good(), false);
    assert_eq!(c.execx.errcd, 1);
    assert_eq!(c.execx.errval, "The number of rows is less than 2");
    assert!(!Execx::needs_lines(true, 1));
    assert!(Execx::needs_lines(true, 2));
}

#[test]
fn execit_writes_rm_lines_and_progress() {
    let c = Execx::execit(true, 4, &good(), false);
    assert_eq!(c.execx.errcd, 0);
    assert_eq!(c.execx.errval, "processed the file");
    assert_eq!(c.script, vec!["mega-rm 'a b.txt'".to_string(), "mega-rm 'c.txt'".to_string()]);
    assert_eq!(
        c.progress,
        vec!["Progress|1|4", "Progress|2|4", "Progress|3|4", "Progress|4|4"]
    );
}

#[test]
fn execit_echo_after_every_twenty_moves() {
    let mut l = Vec::new();
    for i in 0..25 {
        l.push(format!("mv /m/MEGA/f{} /d/f{}\n", i, i));
    }
    let c = Execx::execit(true, 30, &l, false);
    assert_eq!(c.execx.errcd, 0);
    assert_eq!(c.script.len(), 26);
    assert_eq!(c.script[19], "mega-rm 'f19'");
    assert_eq!(c.script[20], "echo \"processing 20 of 30\" ");
    assert_eq!(c.script[21], "mega-rm 'f20'");
    assert_eq!(c.progress.len(), 25);
    assert_eq!(c.progress[24], "Progress|25|30");
}

#[test]
fn execit_refusals_and_read_error() {
    let l = lines(&["mv /a/MEGA/b /c\n", "mv 'x'\n"]);
    let c = Execx::execit(true, 5, &l, false);
    assert_eq!((c.execx.errcd, c.execx.errval.as_str()), (2, "a line in the file quoted less than 4"));
    assert_eq!(c.script, vec!["mega-rm 'b'".to_string()]);
    assert_eq!(c.progress, vec!["Progress|1|5".to_string()]);
    let c = Execx::execit(true, 5, &lines(&["mv x\n"]), false);
    assert_eq!(c.execx.errcd, 3);
    let c = Execx::execit(true, 5, &lines(&["mv /x /y\n"]), false);
    assert_eq!((c.execx.errcd, c.execx.errval.as_str()), (4, "a line in the file does not have /MEGA/"));
    let c = Execx::execit(true, 5, &good(), true);
    assert_eq!((c.execx.errcd, c.execx.errval.as_str()), (1, "error reading mega-ls file: do file i and iconv"));
    assert_eq!(c.script.len(), 2);
}

#[test]
fn check_and_conversion_agree() {
    let cases: Vec<(Vec<String>, bool)> = vec![
        (good(), false),
        (good(), true),
        (lines(&["a\n"]), false),
        (lines(&["mv 'x'\n"]), false),
        (lines(&["mv x\n"]), false),
        (lines(&["mv /x /y\n"]), false),
    ];
    for (l, failed) in cases {
        let (code, msg) = execpress(true, 5, false, &l, failed);
        let c = Execx::execit(true, 5, &l, failed);
        if (3..=5).contains(&code) {
            assert_eq!(code, c.execx.errcd + 1);
            assert_eq!(msg, c.execx.errval);
        }
        assert_eq!(code == 0, c.execx.errcd == 0 && !c.script.is_empty());
        assert_eq!(code == 6 && msg == "error reading mega file", c.execx.errcd == 1);
    }
}

#[test]
fn feeding_lines_one_by_one_matches_batch() {
    let l = good();
    let mut s = Scanner::new(4);
    for line in &l {
        if !s.feed(line) {
            break;
        }
    }
    let batch = scan_lines(4, &l);
    assert_eq!(s.lines_read(), batch.lines_read());
    assert_eq!(s.moves(), batch.moves());
    assert_eq!(s.halt(), batch.halt());
    assert_eq!(s.into_outputs(), batch.into_outputs());
}

#[test]
fn halted_scanner_ignores_more_lines() {
    let mut s = Scanner::new(5);
    assert!(!s.feed("mv x\n"));
    assert!(!s.feed("mv /a/MEGA/b /c\n"));
    assert_eq!(s.lines_read(), 1);
    assert_eq!(s.moves(), 0);
    assert_eq!(s.halt(), Some(Halt::ShortSpaced(2)));
}

#[test]
fn line_by_line_pass_gives_same_results() {
    let mut l = good();
    l.push("mv x\n".to_string());
    for (rows, failed) in [(2u64, false), (9, false), (9, true)] {
        let mut s = Scanner::new(rows);
        let mut sent = 0;
        let mut written = 0;
        let mut script = Vec::new();
        let mut progress = Vec::new();
        let mut stopped = false;
        for line in &l {
            let more = s.feed(line);
            while written < s.script_len() {
                script.push(s.script_line(written).clone());
                written += 1;
            }
            while sent < s.progress_len() {
                progress.push(s.progress_message(sent).clone());
                sent += 1;
            }
            if !more {
                stopped = true;
                break;
            }
        }
        let read_failed = failed && !stopped;
        assert_eq!(check_finish(&s, read_failed), execpress(true, rows, false, &l, failed));
        let x = Execx::finish(&s, read_failed);
        let c = Execx::execit(true, rows, &l, failed);
        assert_eq!((x.errcd, x.errval), (c.execx.errcd, c.execx.errval));
        assert_eq!(script, c.script);
        assert_eq!(progress, c.progress);
    }
}
