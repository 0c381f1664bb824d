use megaremove::check::execpress;
use megaremove::convert::Execx;
use megaremove::progress::ProgressMsg;
use megaremove::window::{Error, MessColor, Megaremove, Progstart, Tick};

#[test]
fn window_opens_empty() {
    let m = Megaremove::new();
    assert_eq!(m.mega_file, "--");
    assert_eq!(m.msg_value, "no message");
    assert_eq!(m.rows_num, 0);
    assert_eq!(m.mess_color, MessColor::Black);
    assert!(!m.do_progress);
    assert_eq!(Megaremove::title(), "create mega-rm file list from fclone dry run move -- iced");
}

#[test]
fn choosing_a_listing() {
    let mut m = Megaremove::new();
    let three: Vec<String> = vec!["a\n".to_string(), "b\n".to_string(), "c".to_string()];
    m.mega_chosen(3, "no file chosen".to_string(), "x".to_string(), true, &three, false);
    assert_eq!((m.msg_value.as_str(), m.mess_color, m.mega_file.as_str()), ("no file chosen", MessColor::Red, "--"));

    m.mega_chosen(0, "got file".to_string(), "/tmp/none".to_string(), false, &Vec::new(), false);
    assert_eq!(m.msg_value, "mega ls file does not exist: /tmp/none");
    assert_eq!(m.mess_color, MessColor::Red);
    assert_eq!(m.mega_file, "--");

    m.mega_chosen(0, "got file".to_string(), "/tmp/list".to_string(), true, &three, false);
    assert_eq!(m.mega_file, "/tmp/list");
    assert_eq!(m.rows_num, 3);
    assert_eq!(m.mess_color, MessColor::Green);
    assert_eq!(m.msg_value, "got mega ls file and retrieved its number of rows");

    m.mega_chosen(0, "got file".to_string(), "/tmp/bad".to_string(), true, &three, true);
    assert_eq!(m.mega_file, "/tmp/bad");
    assert_eq!(m.rows_num, 0);
    assert_eq!(m.mess_color, MessColor::Red);
    assert_eq!(m.msg_value, "error reading mega ");

    assert!(Megaremove::should_count_rows(0, true));
    assert!(!Megaremove::should_count_rows(0, false));
    assert!(!Megaremove::should_count_rows(1, true));
}

#[test]
fn exec_check_and_result() {
    let mut m = Megaremove::new();
    assert!(m.exec_checked(0, "all good".to_string()));
    assert_eq!((m.msg_value.as_str(), m.mess_color), ("all good", MessColor::Green));
    assert!(!m.exec_checked(2, "output file already exists".to_string()));
    assert_eq!(m.mess_color, MessColor::Red);

    m.exec_finished(Ok(Execx { errcd: 0, errval: "processed the file".to_string() }));
    assert_eq!((m.msg_value.as_str(), m.mess_color), ("processed the file", MessColor::Green));
    m.exec_finished(Ok(Execx { errcd: 4, errval: "bad".to_string() }));
    assert_eq!(m.mess_color, MessColor::Red);
    m.exec_finished(Err(Error::TaskFailed));
    assert_eq!((m.msg_value.as_str(), m.mess_color), ("error in copyx copyit routine", MessColor::Red));
}

#[test]
fn progress_ticks() {
    let mut m = Megaremove::new();
    let t = m.progress_tick(Ok(Progstart {}), Some("Progress|1|2".to_string()));
    assert_eq!(t, Tick { again: false, reading: None });
    m.progress_pressed();
    assert!(m.do_progress);
    let t = m.progress_tick(Ok(Progstart {}), Some("Progress|1|2".to_string()));
    assert_eq!(t, Tick { again: true, reading: Some(ProgressMsg::Fraction(1, 2)) });
    let t = m.progress_tick(Ok(Progstart {}), None);
    assert_eq!(t, Tick { again: true, reading: None });
    let t = m.progress_tick(Ok(Progstart {}), Some("hello".to_string()));
    assert_eq!(t, Tick { again: true, reading: Some(ProgressMsg::NotProgress) });
    m.show_progress("Convert progress: 50".to_string());
    assert_eq!((m.msg_value.as_str(), m.mess_color), ("Convert progress: 50", MessColor::Blue));
    let t = m.progress_tick(Err(Error::TaskFailed), None);
    assert_eq!(t, Tick { again: false, reading: None });
    assert_eq!((m.msg_value.as_str(), m.mess_color), ("error in Progstart::pstart routine", MessColor::Red));
}

#[test]
fn progress_message_round_trip() {
    let l: Vec<String> = vec!["mv /a/MEGA/b /c\n".to_string(), "x\n".to_string()];
    assert_eq!(execpress(true, 2, false, &l, false).0, 0);
    let c = Execx::execit(true, 2, &l, false);
    let mut m = Megaremove::new();
    m.progress_pressed();
    for (i, msg) in c.progress.iter().enumerate() {
        let t = m.progress_tick(Ok(Progstart {}), Some(msg.clone()));
        assert_eq!(t.reading, Some(ProgressMsg::Fraction(i as i32 + 1, 2)));
    }
    let big = format!("Progress|{}|{}", 3_000_000_000u64, 5);
    assert_eq!(megaremove::progress::parse_progress(&big), ProgressMsg::NotNumeric);
}

#[test]
fn progress_flag_over_events() {
    let mut m = Megaremove::new();
    let tick = |m: &mut Megaremove| m.progress_tick(Ok(Progstart {}), None).again;
    assert!(!tick(&mut m));
    m.exec_checked(0, "ok".to_string());
    m.exec_finished(Ok(Execx { errcd: 0, errval: "done".to_string() }));
    assert!(!m.do_progress);
    assert!(!tick(&mut m));
    m.progress_pressed();
    for _ in 0..3 {
        assert!(tick(&mut m));
    }
    m.exec_checked(5, "bad".to_string());
    m.show_progress("Convert progress: 1".to_string());
    m.mega_chosen(1, "none".to_string(), "x".to_string(), false, &Vec::new(), false);
    assert!(m.do_progress);
    assert!(tick(&mut m));
    assert!(!m.progress_tick(Err(Error::TaskFailed), None).again);
    assert!(m.do_progress);
}
