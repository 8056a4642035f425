//! The log: where it lies, what a line of it looks like, and time stamps.

use vstd::prelude::*;
use crate::text::{chars_of, push_decimal, push_decimal_padded};
use crate::text::{decimal, decimal_padded};

verus! {

/// Name of the directory that holds the log.
pub const LOG_DIR_NAME: &'static str = "teams-usb-fix";

/// Name of the log file.
pub const LOG_FILE_NAME: &'static str = "teams-usb-fix.log";

/// The directory under which the log directory lies.
#[derive(Debug)]
pub enum LogBase {
    /// The user's local application data.
    LocalAppData(String),
    /// The directory for temporary files.
    TempDir,
}

/// Where the log directory lies.
#[derive(Debug)]
pub struct LogDir {
    pub base: LogBase,
    pub name: String,
}

/// Finds the log directory: `teams-usb-fix` under the local application data,
/// or under the directory for temporary files if that is not known.
pub fn log_dir(local_app_data: Option<String>) -> (dir: LogDir)
    ensures
        dir.base == (match local_app_data {
            Some(path) => LogBase::LocalAppData(path),
            None => LogBase::TempDir,
        }),
        dir.name@ == "teams-usb-fix"@,
{
    let base: LogBase = match local_app_data {
        Some(path) => LogBase::LocalAppData(path),
        None => LogBase::TempDir,
    };
    LogDir { base, name: LOG_DIR_NAME.to_owned() }
}

/// A moment of local time.
#[derive(Clone, Copy, Debug, PartialEq, Eq, Structural)]
pub struct LocalTime {
    pub year: u16,
    pub month: u16,
    pub day: u16,
    pub hour: u16,
    pub minute: u16,
    pub second: u16,
    pub millis: u16,
}

/// Year, month and day.
pub open spec fn date_text(time: LocalTime) -> Seq<char> {
    decimal_padded(time.year as nat, 4) + "-"@ + decimal_padded(time.month as nat, 2) + "-"@
        + decimal_padded(time.day as nat, 2)
}

/// Hour and minute.
pub open spec fn clock_text(time: LocalTime) -> Seq<char> {
    decimal_padded(time.hour as nat, 2) + ":"@ + decimal_padded(time.minute as nat, 2)
}

/// The time stamp of a moment, such as `2026-03-01 16:30:05.042`.
pub open spec fn timestamp_text(time: LocalTime) -> Seq<char> {
    date_text(time) + " "@ + clock_text(time) + ":"@ + decimal_padded(time.second as nat, 2) + "."@
        + decimal_padded(time.millis as nat, 3)
}

/// Makes the time stamp of a moment.
pub fn timestamp(time: &LocalTime) -> (stamp: String)
    ensures
        stamp@ == timestamp_text(*time),
{
    let mut stamp: String = String::new();
    push_decimal_padded(&mut stamp, time.year as u64, 4);
    stamp.append("-");
    push_decimal_padded(&mut stamp, time.month as u64, 2);
    stamp.append("-");
    push_decimal_padded(&mut stamp, time.day as u64, 2);
    stamp.append(" ");
    push_decimal_padded(&mut stamp, time.hour as u64, 2);
    stamp.append(":");
    push_decimal_padded(&mut stamp, time.minute as u64, 2);
    stamp.append(":");
    push_decimal_padded(&mut stamp, time.second as u64, 2);
    stamp.append(".");
    push_decimal_padded(&mut stamp, time.millis as u64, 3);
    stamp
}

/// A padded number is at least as long as it was padded to.
proof fn lemma_padded_len(n: nat, width: nat)
    ensures
        decimal_padded(n, width).len() >= width,
{
}

/// Numbers below a hundred have at most two digits, and those below ten thousand
/// at most four.
proof fn lemma_decimal_len(n: nat)
    ensures
        decimal(n).len() >= 1,
        n < 100 ==> decimal(n).len() <= 2,
        n < 10000 ==> decimal(n).len() <= 4,
{
    reveal_with_fuel(decimal, 5);
}

/// The short form of a moment: the five characters of its time stamp behind
/// the date.
pub open spec fn short_time(time: LocalTime) -> Seq<char> {
    timestamp_text(time).subrange(11, 16)
}

/// What is kept of an injection: the process and the time.
pub open spec fn injection_text(pid: u32, time: LocalTime) -> Seq<char> {
    "PID "@ + decimal(pid as nat) + " at "@ + short_time(time)
}

/// A time stamp is long enough for its short form.
proof fn lemma_timestamp_len(time: LocalTime)
    ensures
        timestamp_text(time).len() >= 23,
{
    lemma_padded_len(time.year as nat, 4);
    lemma_padded_len(time.month as nat, 2);
    lemma_padded_len(time.day as nat, 2);
    lemma_padded_len(time.hour as nat, 2);
    lemma_padded_len(time.minute as nat, 2);
    lemma_padded_len(time.second as nat, 2);
    lemma_padded_len(time.millis as nat, 3);
    reveal_strlit("-");
    reveal_strlit(" ");
    reveal_strlit(":");
    reveal_strlit(".");
}

/// Notes an injection, such as `PID 1234 at 16:30`.
pub fn injection_label(pid: u32, time: &LocalTime) -> (label: String)
    ensures
        label@ == injection_text(pid, *time),
{
    let mut label: String = String::new();
    label.append("PID ");
    push_decimal(&mut label, pid as u64);
    label.append(" at ");
    let stamp: String = timestamp(time);
    let chars: Vec<char> = chars_of(&stamp);
    proof {
        lemma_timestamp_len(*time);
    }
    let ghost before = label@;
    let mut i: usize = 11;
    while i < 16
        invariant
            11 <= i <= 16,
            chars@ == timestamp_text(*time),
            chars@.len() >= 23,
            label@ == before + timestamp_text(*time).subrange(11, i as int),
        decreases 16 - i,
    {
        label.push(chars[i]);
        i = i + 1;
    }
    label
}

/// For a year of at most four digits, and month, day, hour and minute of at
/// most two, the short form of a moment is its hour and minute.
pub proof fn law_short_time_is_clock(time: LocalTime)
    requires
        time.year <= 9999,
        time.month <= 99,
        time.day <= 99,
        time.hour <= 99,
        time.minute <= 99,
    ensures
        short_time(time) == clock_text(time),
        short_time(time) == decimal_padded(time.hour as nat, 2) + ":"@ + decimal_padded(
            time.minute as nat,
            2,
        ),
{
    lemma_decimal_len(time.year as nat);
    lemma_decimal_len(time.month as nat);
    lemma_decimal_len(time.day as nat);
    lemma_decimal_len(time.hour as nat);
    lemma_decimal_len(time.minute as nat);
    reveal_strlit("-");
    reveal_strlit(" ");
    reveal_strlit(":");
    assert(date_text(time).len() == 10);
    assert(clock_text(time).len() == 5);
    assert(short_time(time) =~= clock_text(time));
}

/// A line of the log as the hook writes it.
pub fn hook_log_line(now: &str, message: &str) -> (line: String)
    ensures
        line@ == "["@ + now@ + "] "@ + message@,
{
    let mut line: String = String::new();
    line.append("[");
    line.append(now);
    line.append("] ");
    line.append(message);
    line
}

/// A line of the log as the watcher writes it.
pub fn watcher_log_line(now: &str, message: &str) -> (line: String)
    ensures
        line@ == "["@ + now@ + "] [watcher] "@ + message@,
{
    let mut line: String = String::new();
    line.append("[");
    line.append(now);
    line.append("] [watcher] ");
    line.append(message);
    line
}

/// A message of the watcher as it stands on the console.
pub fn watcher_console_line(message: &str) -> (line: String)
    ensures
        line@ == "[watcher] "@ + message@,
{
    let mut line: String = String::new();
    line.append("[watcher] ");
    line.append(message);
    line
}

/// A time stamp has year, month, day, hour, minute, second and thousandths in
/// this order, the year in four places, the thousandths in three and the others
/// in two, with their signs between them.
pub proof fn law_timestamp_by_fields(time: LocalTime)
    ensures
        timestamp_text(time) == decimal_padded(time.year as nat, 4) + "-"@ + decimal_padded(
            time.month as nat,
            2,
        ) + "-"@ + decimal_padded(time.day as nat, 2) + " "@ + decimal_padded(time.hour as nat, 2)
            + ":"@ + decimal_padded(time.minute as nat, 2) + ":"@ + decimal_padded(
            time.second as nat,
            2,
        ) + "."@ + decimal_padded(time.millis as nat, 3),
{
    assert(timestamp_text(time) =~= decimal_padded(time.year as nat, 4) + "-"@ + decimal_padded(
        time.month as nat,
        2,
    ) + "-"@ + decimal_padded(time.day as nat, 2) + " "@ + decimal_padded(time.hour as nat, 2)
        + ":"@ + decimal_padded(time.minute as nat, 2) + ":"@ + decimal_padded(
        time.second as nat,
        2,
    ) + "."@ + decimal_padded(time.millis as nat, 3));
}

/// An injection is noted with its process and characters 11 to 15 of the
/// time stamp, which in any year up to 9999 are hour and minute.
pub proof fn law_injection_is_noted_with_the_time(pid: u32, time: LocalTime)
    ensures
        injection_text(pid, time) == "PID "@ + decimal(pid as nat) + " at "@ + timestamp_text(
            time,
        ).subrange(11, 16),
        time.year <= 9999 && time.month <= 99 && time.day <= 99 && time.hour <= 99 && time.minute
            <= 99 ==> injection_text(pid, time) == "PID "@ + decimal(pid as nat) + " at "@ + (
        decimal_padded(time.hour as nat, 2) + ":"@ + decimal_padded(time.minute as nat, 2)),
{
    if time.year <= 9999 && time.month <= 99 && time.day <= 99 && time.hour <= 99 && time.minute
        <= 99 {
        law_short_time_is_clock(time);
    }
}

/// The log lies in its own directory under its own name.
pub proof fn law_log_has_its_place()
    ensures
        LOG_DIR_NAME@ == "teams-usb-fix"@,
        LOG_FILE_NAME@ == "teams-usb-fix.log"@,
{
}

} // verus!
