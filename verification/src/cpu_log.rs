//! The lines of the processor-time log.

use crate::text::{join, padded_text, unsigned_text};
use vstd::prelude::*;

verus! {

/// The seconds between two lines.
pub const LOG_INTERVAL_SECS: u64 = 120;

/// The file that the lines are written to.
pub const LOG_FILE: &'static str = "server_cpu.log";

/// The time of day, in hours, minutes and seconds.
#[derive(Debug, Clone, Copy, PartialEq, Eq, Structural)]
pub struct ClockTime {
    pub hours: u64,
    pub minutes: u64,
    pub seconds: u64,
}

/// The time of day at a number of seconds since midnight on some day.
pub fn time_of_day(wall: u64) -> (t: ClockTime)
    ensures
        t.hours == (wall / 3600) % 24,
        t.minutes == (wall / 60) % 60,
        t.seconds == wall % 60,
        t.hours * 3600 + t.minutes * 60 + t.seconds == wall % 86400,
{
    ClockTime { hours: (wall / 3600) % 24, minutes: (wall / 60) % 60, seconds: wall % 60 }
}

/// The line for a moment, with the figures already rendered.
pub open spec fn line_text(
    wall: u64,
    total: Seq<char>,
    interval: Seq<char>,
    percent: Seq<char>,
    cores: u64,
) -> Seq<char> {
    "["@ + crate::text::decimal(wall as nat) + "] ["@ + crate::text::two_digits(
        (wall as nat / 3600) % 24,
    ) + ":"@ + crate::text::two_digits((wall as nat / 60) % 60) + ":"@ + crate::text::two_digits(
        wall as nat % 60,
    ) + " UTC]  cpu_totale="@ + total + "s  cpu_intervallo_2min="@ + interval + "s  cpu_pct="@
        + percent + "%  cores="@ + crate::text::decimal(cores as nat) + "\n"@
}

/// Writes the line for a moment.
pub fn log_line(wall: u64, total: &str, interval: &str, percent: &str, cores: u64) -> (line: String)
    ensures
        line@ == line_text(wall, total@, interval@, percent@, cores),
{
    let t = time_of_day(wall);
    let mut line = join("[", unsigned_text(wall).as_str());
    line.append("] [");
    line.append(padded_text(t.hours).as_str());
    line.append(":");
    line.append(padded_text(t.minutes).as_str());
    line.append(":");
    line.append(padded_text(t.seconds).as_str());
    line.append(" UTC]  cpu_totale=");
    line.append(total);
    line.append("s  cpu_intervallo_2min=");
    line.append(interval);
    line.append("s  cpu_pct=");
    line.append(percent);
    line.append("%  cores=");
    line.append(unsigned_text(cores).as_str());
    line.append("\n");
    line
}

/// The line of a moment that is `h` hours, `m` minutes and `s` seconds into some
/// day shows the seconds since 1970, that time of day in two digits each, and
/// the figures and cores as they are.
pub proof fn law_line_shows_the_time_of_day(
    wall: u64,
    day: nat,
    h: nat,
    m: nat,
    s: nat,
    total: Seq<char>,
    interval: Seq<char>,
    percent: Seq<char>,
    cores: u64,
)
    requires
        wall == day * 86400 + h * 3600 + m * 60 + s,
        h < 24,
        m < 60,
        s < 60,
    ensures
        line_text(wall, total, interval, percent, cores) == "["@ + crate::text::decimal(
            wall as nat,
        ) + "] ["@ + crate::text::two_digits(h) + ":"@ + crate::text::two_digits(m) + ":"@
            + crate::text::two_digits(s) + " UTC]  cpu_totale="@ + total
            + "s  cpu_intervallo_2min="@ + interval + "s  cpu_pct="@ + percent + "%  cores="@
            + crate::text::decimal(cores as nat) + "\n"@,
{
    let w = wall as nat;
    assert(w / 3600 == day * 24 + h && w % 3600 == m * 60 + s) by (nonlinear_arith)
        requires
            w == day * 86400 + h * 3600 + m * 60 + s,
            m < 60,
            s < 60,
    ;
    assert((w / 3600) % 24 == h) by (nonlinear_arith)
        requires
            w / 3600 == day * 24 + h,
            h < 24,
    ;
    assert(w / 60 == day * 1440 + h * 60 + m && w % 60 == s) by (nonlinear_arith)
        requires
            w == day * 86400 + h * 3600 + m * 60 + s,
            s < 60,
    ;
    assert((w / 60) % 60 == m) by (nonlinear_arith)
        requires
            w / 60 == day * 1440 + h * 60 + m,
            m < 60,
    ;
}

/// A line is written every two minutes, to one file.
pub proof fn law_log_settings()
    ensures
        LOG_INTERVAL_SECS == 2 * 60,
        LOG_FILE@ == "server_cpu.log"@,
{
}

}
