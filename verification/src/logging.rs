//! Lines for the log.

use vstd::prelude::*;
use vstd::string::*;

verus! {

/// How many lines are written between two flushes.
pub const FLUSH_INTERVAL: u32 = 64;

/// What every line begins with.
pub const PREFIX: &'static str = "[neuralforge-layer] ";

/// Counts the lines.
#[derive(Clone, Copy, Debug, PartialEq, Eq, Structural)]
pub struct Throttle {
    pub lines: u32,
}

/// A line to write.
pub struct LogLine {
    pub text: String,
    /// The sink is flushed behind it.
    pub flush: bool,
}

/// The count after another line.
pub open spec fn counted(lines: u32) -> u32 {
    if lines == u32::MAX {
        0
    } else {
        (lines + 1) as u32
    }
}

impl Throttle {
    /// No line yet.
    pub fn new() -> (t: Throttle)
        ensures
            t.lines == 0,
    {
        Throttle { lines: 0 }
    }
}

/// Makes a line of a message. The first line, and every 64th after it, is flushed.
pub fn log(throttle: &mut Throttle, message: &str) -> (line: LogLine)
    ensures
        line.text@ == PREFIX@ + message@ + "\n"@,
        line.flush == (old(throttle).lines % FLUSH_INTERVAL == 0),
        final(throttle).lines == counted(old(throttle).lines),
{
    let mut text: String = PREFIX.to_owned();
    text.append(message);
    text.append("\n");
    let flush: bool = throttle.lines % FLUSH_INTERVAL == 0;
    throttle.lines = if throttle.lines == u32::MAX {
        0
    } else {
        throttle.lines + 1
    };
    LogLine { text, flush }
}

/// The count after more lines.
pub open spec fn counted_many(lines: u32, more: nat) -> u32
    decreases more,
{
    if more == 0 {
        lines
    } else {
        counted(counted_many(lines, (more - 1) as nat))
    }
}

/// However many lines were written, one of the next 64 is flushed, and a flushed line is followed by
/// another 64 lines later: the count wraps at a multiple of the interval.
pub proof fn no_line_waits_for_more_than_the_interval(lines: u32, more: nat)
    ensures
        counted_many(lines, more) as nat % FLUSH_INTERVAL as nat == (lines as nat + more) % FLUSH_INTERVAL as nat,
    decreases more,
{
    if more > 0 {
        no_line_waits_for_more_than_the_interval(lines, (more - 1) as nat);
    }
}

/// The file to log to, where one is configured that may be written: else the log goes to the
/// standard error. `isolated` says that the path keeps to the layer's own files.
pub fn log_file(variable: Option<&str>, isolated: bool) -> (path: Option<String>)
    ensures
        match variable {
            Some(v) => if v@.len() > 0 && isolated {
                path matches Some(p) && p@ == v@
            } else {
                path is None
            },
            None => path is None,
        },
{
    match variable {
        Some(v) => if !v.is_empty() && isolated {
            Some(v.to_owned())
        } else {
            None
        },
        None => None,
    }
}

/// The first line and every 64th behind it are flushed, and no other, and the count goes on however
/// many there were. Every line begins with the layer's name in brackets and a space.
pub proof fn every_64th_line_is_flushed(more: nat)
    ensures
        counted_many(0, more) % FLUSH_INTERVAL == 0 <==> more % 64 == 0,
        counted_many(0, more) as nat == more % 0x1_0000_0000,
        PREFIX@ == "[neuralforge-layer] "@,
    decreases more,
{
    if more > 0 {
        every_64th_line_is_flushed((more - 1) as nat);
    }
}

} // verus!
