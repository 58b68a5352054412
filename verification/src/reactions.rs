//! How the daemon reads triggers: one emoji id per line of stdin or of
//! the IPC socket, and the reply each command gets.

use vstd::prelude::*;

use crate::protocol::Response;
use crate::text::{chars_of, string_from, trim, trim_chars};

verus! {

/// The emoji id on a stdin line: the trimmed line, none when blank.
pub fn trigger_from_line(line: &str) -> (res: Option<String>)
    ensures
        match res {
            Some(id) => trim(line@).len() > 0 && id@ == trim(line@),
            None => trim(line@).len() == 0,
        },
{
    let t = trim_chars(&chars_of(line));
    if t.len() == 0 {
        None
    } else {
        Some(string_from(&t))
    }
}

/// A line holding nothing but whitespace, which the IPC loop skips.
pub fn is_blank_line(line: &str) -> (res: bool)
    ensures
        res == (trim(line@).len() == 0),
{
    trim_chars(&chars_of(line)).len() == 0
}

/// The reply to a line that does not parse as a command.
pub fn malformed_command(error: &str) -> (res: Response)
    ensures
        res matches Response::Error { message } && message@ == "malformed command: "@ + error@,
{
    let mut m = "malformed command: ".to_owned();
    m.append(error);
    Response::Error { message: m }
}

/// The reply to a trigger: acknowledged, or the reactor's error.
pub fn trigger_response(result: Result<(), String>) -> (res: Response)
    ensures
        match result {
            Ok(()) => res == Response::Accepted,
            Err(e) => res == Response::Error { message: e },
        },
{
    match result {
        Ok(()) => Response::Accepted,
        Err(e) => Response::Error { message: e },
    }
}

/// The reply to a progress query.
pub fn sync_status_response(progress: (u32, u32, bool)) -> (res: Response)
    ensures
        res == (Response::SyncStatus {
            fetched: progress.0,
            total: progress.1,
            complete: progress.2,
        }),
{
    Response::SyncStatus { fetched: progress.0, total: progress.1, complete: progress.2 }
}

/// The error of a trigger that found every slot busy.
pub fn all_slots_busy(slot_count: usize) -> (res: String)
    ensures
        res@ == "all "@ + crate::text::decimal(slot_count as nat) + " slots busy"@,
{
    let mut m = "all ".to_owned();
    m.append(string_from(&crate::text::decimal_chars(slot_count as u64)).as_str());
    m.append(" slots busy");
    m
}

} // verus!
