//! The state of the window and how each event changes it.
//!
//! The window shows a message in a colour, the chosen listing, its number of
//! rows, and a progress bar. Choosing a listing counts its rows; the exec
//! button checks the listing and then converts it; the progress button starts
//! a timer whose ticks read the latest progress message.

use vstd::prelude::*;
use crate::convert::Execx;
use crate::progress::{parse_progress, progress_meaning, ProgressMsg};

verus! {

/// The colour of the message.
#[derive(Debug, Clone, Copy, PartialEq, Eq, Structural)]
pub enum MessColor {
    Black,
    Green,
    Red,
    Blue,
}

/// The failure of a background task. The conversion and the progress timer
/// never report it.
#[derive(Debug, Clone, Copy, PartialEq, Eq, Structural)]
pub enum Error {
    TaskFailed,
}

/// The tick of the progress timer.
#[derive(Debug, Clone, Copy, PartialEq, Eq, Structural)]
pub struct Progstart {}

/// What a tick of the progress timer asks for.
#[derive(Debug, Clone, Copy, PartialEq, Eq, Structural)]
pub struct Tick {
    /// Start the timer again.
    pub again: bool,
    /// What the latest progress message said, if one was read.
    pub reading: Option<ProgressMsg>,
}

/// The events of the window, as far as the progress flag is concerned.
pub enum WindowEvent {
    MegaChosen,
    ExecChecked,
    ExecFinished,
    ProgressPressed,
    /// A tick of the progress timer; whether it ended well.
    ProgressTick(bool),
    ProgressShown,
}

/// The progress flag after the event `e`: only the progress button sets it,
/// and nothing clears it.
pub open spec fn progress_flag_after(flag: bool, e: WindowEvent) -> bool {
    e is ProgressPressed || flag
}

/// Whether the event `e`, with the progress flag `flag`, starts the timer
/// again: a tick that ended well while the flag is set.
pub open spec fn asks_again(flag: bool, e: WindowEvent) -> bool {
    e matches WindowEvent::ProgressTick(ok) && ok && flag
}

/// The progress flag after `events`, starting from `flag`.
pub open spec fn progress_flag_after_all(flag: bool, events: Seq<WindowEvent>) -> bool
    decreases events.len(),
{
    if events.len() == 0 {
        flag
    } else {
        progress_flag_after(progress_flag_after_all(flag, events.drop_last()), events.last())
    }
}

/// The state of the window (its progress value aside).
#[derive(Debug)]
pub struct Megaremove {
    pub mega_file: String,
    pub mess_color: MessColor,
    pub msg_value: String,
    pub rows_num: u64,
    pub do_progress: bool,
}

impl Megaremove {
    /// The window as it opens.
    pub fn new() -> (m: Megaremove)
        ensures
            m.mega_file@ == "--"@,
            m.msg_value@ == "no message"@,
            m.rows_num == 0,
            m.mess_color == MessColor::Black,
            !m.do_progress,
    {
        Megaremove {
            mega_file: String::from_str("--"),
            mess_color: MessColor::Black,
            msg_value: String::from_str("no message"),
            rows_num: 0,
            do_progress: false,
        }
    }

    /// The title of the window.
    pub fn title() -> (s: String)
        ensures
            s@ == "create mega-rm file list from fclone dry run move -- iced"@,
    {
        String::from_str("create mega-rm file list from fclone dry run move -- iced")
    }

    /// Whether the chosen listing is to be read to count its rows: the
    /// choice succeeded (`errcode` 0) and the listing exists.
    pub fn should_count_rows(errcode: u32, exists: bool) -> (b: bool)
        ensures
            b == (errcode == 0 && exists),
    {
        errcode == 0 && exists
    }

    /// A listing was chosen: `errcode` and `errstr` are what the choice
    /// reported, `newinput` the path chosen, `exists` whether it exists;
    /// `lines` are the lines read from it and `read_failed` tells that
    /// reading failed before its end (both looked at only where
    /// `should_count_rows` holds). The rows are the lines read.
    pub fn mega_chosen(
        &mut self,
        errcode: u32,
        errstr: String,
        newinput: String,
        exists: bool,
        lines: &Vec<String>,
        read_failed: bool,
    )
        ensures
            final(self).do_progress == old(self).do_progress,
            final(self).do_progress == progress_flag_after(
                old(self).do_progress,
                WindowEvent::MegaChosen,
            ),
            errcode != 0 ==> {
                &&& final(self).msg_value@ == errstr@
                &&& final(self).mess_color == MessColor::Red
                &&& final(self).mega_file == old(self).mega_file
                &&& final(self).rows_num == old(self).rows_num
            },
            errcode == 0 && !exists ==> {
                &&& final(self).msg_value@ == "mega ls file does not exist: "@ + newinput@
                &&& final(self).mess_color == MessColor::Red
                &&& final(self).mega_file == old(self).mega_file
                &&& final(self).rows_num == old(self).rows_num
            },
            errcode == 0 && exists ==> final(self).mega_file == newinput,
            errcode == 0 && exists && !read_failed ==> {
                &&& final(self).msg_value@ == "got mega ls file and retrieved its number of rows"@
                &&& final(self).mess_color == MessColor::Green
                &&& final(self).rows_num == lines@.len()
            },
            errcode == 0 && exists && read_failed ==> {
                &&& final(self).msg_value@ == "error reading mega "@
                &&& final(self).mess_color == MessColor::Red
                &&& final(self).rows_num == 0
            },
    {
        if errcode != 0 {
            self.msg_value = errstr;
            self.mess_color = MessColor::Red;
            return;
        }
        if !exists {
            let mut msg = String::from_str("mega ls file does not exist: ");
            msg.append(newinput.as_str());
            self.msg_value = msg;
            self.mess_color = MessColor::Red;
            return;
        }
        self.mega_file = newinput;
        if read_failed {
            self.rows_num = 0;
            self.mess_color = MessColor::Red;
            self.msg_value = String::from_str("error reading mega ");
        } else {
            self.rows_num = lines.len() as u64;
            self.mess_color = MessColor::Green;
            self.msg_value = String::from_str("got mega ls file and retrieved its number of rows");
        }
    }

    /// The check of the listing answered `errcode` and `errstr`; tells
    /// whether the conversion is to start.
    pub fn exec_checked(&mut self, errcode: u32, errstr: String) -> (start: bool)
        ensures
            start == (errcode == 0),
            final(self).msg_value@ == errstr@,
            final(self).mess_color == if errcode == 0 {
                MessColor::Green
            } else {
                MessColor::Red
            },
            final(self).mega_file == old(self).mega_file,
            final(self).rows_num == old(self).rows_num,
            final(self).do_progress == old(self).do_progress,
            final(self).do_progress == progress_flag_after(
                old(self).do_progress,
                WindowEvent::ExecChecked,
            ),
    {
        self.msg_value = errstr;
        if errcode == 0 {
            self.mess_color = MessColor::Green;
            true
        } else {
            self.mess_color = MessColor::Red;
            false
        }
    }

    /// The conversion ended with `res`.
    pub fn exec_finished(&mut self, res: Result<Execx, Error>)
        ensures
            final(self).mega_file == old(self).mega_file,
            final(self).rows_num == old(self).rows_num,
            final(self).do_progress == old(self).do_progress,
            final(self).do_progress == progress_flag_after(
                old(self).do_progress,
                WindowEvent::ExecFinished,
            ),
            res matches Ok(x) ==> {
                &&& final(self).msg_value@ == x.errval@
                &&& final(self).mess_color == if x.errcd == 0 {
                    MessColor::Green
                } else {
                    MessColor::Red
                }
            },
            res is Err ==> {
                &&& final(self).msg_value@ == "error in copyx copyit routine"@
                &&& final(self).mess_color == MessColor::Red
            },
    {
        match res {
            Ok(x) => {
                self.msg_value = x.errval;
                if x.errcd == 0 {
                    self.mess_color = MessColor::Green;
                } else {
                    self.mess_color = MessColor::Red;
                }
            },
            Err(_) => {
                self.msg_value = String::from_str("error in copyx copyit routine");
                self.mess_color = MessColor::Red;
            },
        }
    }

    /// The progress button was pressed: ticks now read progress.
    pub fn progress_pressed(&mut self)
        ensures
            final(self).do_progress,
            final(self).do_progress == progress_flag_after(
                old(self).do_progress,
                WindowEvent::ProgressPressed,
            ),
            final(self).mega_file == old(self).mega_file,
            final(self).msg_value == old(self).msg_value,
            final(self).mess_color == old(self).mess_color,
            final(self).rows_num == old(self).rows_num,
    {
        self.do_progress = true;
    }

    /// A tick of the progress timer ended with `res`; `latest` is the last
    /// message waiting on the progress channel, if any.
    pub fn progress_tick(&mut self, res: Result<Progstart, Error>, latest: Option<String>) -> (t:
        Tick)
        ensures
            final(self).mega_file == old(self).mega_file,
            final(self).rows_num == old(self).rows_num,
            final(self).do_progress == old(self).do_progress,
            final(self).do_progress == progress_flag_after(
                old(self).do_progress,
                WindowEvent::ProgressTick(res is Ok),
            ),
            t.again == asks_again(old(self).do_progress, WindowEvent::ProgressTick(res is Ok)),
            res is Err ==> {
                &&& t == Tick { again: false, reading: None }
                &&& final(self).msg_value@ == "error in Progstart::pstart routine"@
                &&& final(self).mess_color == MessColor::Red
            },
            res is Ok ==> {
                &&& final(self).msg_value == old(self).msg_value
                &&& final(self).mess_color == old(self).mess_color
                &&& t.again == old(self).do_progress
                &&& t.reading == if old(self).do_progress && latest is Some {
                    Some(progress_meaning(latest->0@))
                } else {
                    None
                }
            },
    {
        match res {
            Err(_) => {
                self.msg_value = String::from_str("error in Progstart::pstart routine");
                self.mess_color = MessColor::Red;
                Tick { again: false, reading: None }
            },
            Ok(_) => {
                if !self.do_progress {
                    return Tick { again: false, reading: None };
                }
                let reading = match latest {
                    Some(m) => Some(parse_progress(m.as_str())),
                    None => None,
                };
                Tick { again: true, reading }
            },
        }
    }

    /// Shows the progress text `text` (rendered from a `Fraction` reading).
    pub fn show_progress(&mut self, text: String)
        ensures
            final(self).msg_value == text,
            final(self).mess_color == MessColor::Blue,
            final(self).mega_file == old(self).mega_file,
            final(self).rows_num == old(self).rows_num,
            final(self).do_progress == old(self).do_progress,
            final(self).do_progress == progress_flag_after(
                old(self).do_progress,
                WindowEvent::ProgressShown,
            ),
    {
        self.msg_value = text;
        self.mess_color = MessColor::Blue;
    }
}

} // verus!
