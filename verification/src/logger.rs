//! The log of one invocation: leveled, timestamped lines under the name of
//! the plugin.

use crate::text::{lowercase, lowercased, owned, str_eq};
use vstd::prelude::*;

verus! {

/// How much a line matters.
#[derive(Debug, Clone, Copy, PartialEq, Eq, Structural)]
pub enum LogLevel {
    Error,
    Warn,
    Info,
    Debug,
    Trace,
}

/// The level that a lower-case name stands for; a name that is not known
/// stands for `Info`.
pub open spec fn level_of(lower: Seq<char>) -> LogLevel {
    if lower == "error"@ {
        LogLevel::Error
    } else if lower == "warn"@ || lower == "warning"@ {
        LogLevel::Warn
    } else if lower == "info"@ {
        LogLevel::Info
    } else if lower == "debug"@ {
        LogLevel::Debug
    } else if lower == "trace"@ {
        LogLevel::Trace
    } else {
        LogLevel::Info
    }
}

/// The name of a level as it is shown.
pub open spec fn level_label(level: LogLevel) -> Seq<char> {
    match level {
        LogLevel::Error => "ERROR"@,
        LogLevel::Warn => "WARN"@,
        LogLevel::Info => "INFO"@,
        LogLevel::Debug => "DEBUG"@,
        LogLevel::Trace => "TRACE"@,
    }
}

/// The colours in which a text can be shown.
#[derive(Debug, Clone, Copy, PartialEq, Eq, Structural)]
pub enum Hue {
    Red,
    Green,
    Yellow,
    Blue,
    Purple,
}

/// The code that switches the colour of the text.
pub open spec fn hue_code(hue: Hue) -> Seq<char> {
    match hue {
        Hue::Red => seq!['3', '1'],
        Hue::Green => seq!['3', '2'],
        Hue::Yellow => seq!['3', '3'],
        Hue::Blue => seq!['3', '4'],
        Hue::Purple => seq!['3', '5'],
    }
}

/// The codes of a style: `1` first for bold, then the code of the colour.
pub open spec fn style_codes(bold: bool, hue: Hue) -> Seq<char> {
    if bold {
        seq!['1', ';'] + hue_code(hue)
    } else {
        hue_code(hue)
    }
}

/// The colour in which a level is shown: errors in red, warnings in yellow,
/// then green, blue and purple.
pub open spec fn level_hue(level: LogLevel) -> Hue {
    match level {
        LogLevel::Error => Hue::Red,
        LogLevel::Warn => Hue::Yellow,
        LogLevel::Info => Hue::Green,
        LogLevel::Debug => Hue::Blue,
        LogLevel::Trace => Hue::Purple,
    }
}

/// Errors and warnings are shown in bold.
pub open spec fn level_is_bold(level: LogLevel) -> bool {
    level == LogLevel::Error || level == LogLevel::Warn
}

/// The codes of the style in which a level is shown.
pub open spec fn level_style(level: LogLevel) -> Seq<char> {
    style_codes(level_is_bold(level), level_hue(level))
}

/// A text between the escape sequence that switches a style on and the one
/// that resets it.
pub open spec fn painted(style: Seq<char>, text: Seq<char>) -> Seq<char> {
    seq!['\u{1b}', '['] + style + seq!['m'] + text + seq!['\u{1b}', '[', '0', 'm']
}

/// Paints a text with `ansi_term::Style::paint`, which writes the codes of
/// the style between `ESC [` and `m`, then the text, then the reset
/// sequence `ESC [ 0 m`.
#[verifier::external_body]
fn paint(bold: bool, hue: Hue, text: &str) -> (r: String)
    ensures
        r@ == painted(style_codes(bold, hue), text@),
{
    let colour = match hue {
        Hue::Red => ansi_term::Colour::Red,
        Hue::Green => ansi_term::Colour::Green,
        Hue::Yellow => ansi_term::Colour::Yellow,
        Hue::Blue => ansi_term::Colour::Blue,
        Hue::Purple => ansi_term::Colour::Purple,
    };
    let style = ansi_term::Style { is_bold: bold, ..colour.normal() };
    style.paint(text).to_string()
}

/// The local time of the call, written as `%Y-%m-%dT%H:%M:%S` by `chrono`.
#[verifier::external_body]
pub(crate) fn timestamp_now() -> String {
    chrono::Local::now().format("%Y-%m-%dT%H:%M:%S").to_string()
}

/// One line of the log.
pub open spec fn log_line(
    name: Seq<char>,
    timestamp: Seq<char>,
    level: LogLevel,
    message: Seq<char>,
) -> Seq<char> {
    "["@ + name + "] ["@ + timestamp + "] ["@ + painted(level_style(level), level_label(level))
        + "] "@ + message
}

impl LogLevel {
    /// The level that a lower-case name stands for.
    pub fn from_lower(lower: &str) -> (level: LogLevel)
        ensures
            level == level_of(lower@),
    {
        if str_eq(lower, "error") {
            LogLevel::Error
        } else if str_eq(lower, "warn") || str_eq(lower, "warning") {
            LogLevel::Warn
        } else if str_eq(lower, "info") {
            LogLevel::Info
        } else if str_eq(lower, "debug") {
            LogLevel::Debug
        } else if str_eq(lower, "trace") {
            LogLevel::Trace
        } else {
            LogLevel::Info
        }
    }

    /// The level that a name stands for, whatever the case of its letters.
    pub fn parse(name: &str) -> (level: LogLevel)
        ensures
            level == level_of(lowercased(name@)),
    {
        let lower = lowercase(name);
        LogLevel::from_lower(lower.as_str())
    }

    /// The colour in which the level is shown.
    pub fn hue(&self) -> (hue: Hue)
        ensures
            hue == level_hue(*self),
    {
        match self {
            LogLevel::Error => Hue::Red,
            LogLevel::Warn => Hue::Yellow,
            LogLevel::Info => Hue::Green,
            LogLevel::Debug => Hue::Blue,
            LogLevel::Trace => Hue::Purple,
        }
    }

    /// Whether the level is shown in bold.
    pub fn is_bold(&self) -> (bold: bool)
        ensures
            bold == level_is_bold(*self),
    {
        match self {
            LogLevel::Error | LogLevel::Warn => true,
            _ => false,
        }
    }

    /// The name of the level, painted in the style of the level.
    pub fn painted_label(&self) -> (r: String)
        ensures
            r@ == painted(level_style(*self), level_label(*self)),
    {
        paint(self.is_bold(), self.hue(), self.label())
    }

    /// The name of the level as it is shown.
    pub fn label(&self) -> (label: &'static str)
        ensures
            label@ == level_label(*self),
    {
        match self {
            LogLevel::Error => "ERROR",
            LogLevel::Warn => "WARN",
            LogLevel::Info => "INFO",
            LogLevel::Debug => "DEBUG",
            LogLevel::Trace => "TRACE",
        }
    }
}

/// The logger of one plugin.
#[derive(Debug)]
pub struct PluginLogger {
    pub name: String,
    pub logs: Vec<String>,
}

impl PluginLogger {
    /// A logger without lines.
    pub fn new(name: &str) -> (logger: PluginLogger)
        ensures
            logger.name@ == name@,
            logger.logs@.len() == 0,
    {
        PluginLogger { name: owned(name), logs: Vec::new() }
    }

    /// The line for a message, as it is logged at the given time.
    pub fn format_line(&self, level: LogLevel, timestamp: &str, message: &str) -> (line: String)
        ensures
            line@ == log_line(self.name@, timestamp@, level, message@),
    {
        let label = level.painted_label();
        let mut line = owned("[");
        line.append(self.name.as_str());
        line.append("] [");
        line.append(timestamp);
        line.append("] [");
        line.append(label.as_str());
        line.append("] ");
        line.append(message);
        line
    }

    /// Logs a message at a level, with the given timestamp: the line is
    /// added to the log and handed out to be shown.
    pub fn record(&mut self, level: LogLevel, message: &str, timestamp: &str) -> (line: String)
        ensures
            line@ == log_line(old(self).name@, timestamp@, level, message@),
            final(self).name == old(self).name,
            final(self).logs@.len() == old(self).logs@.len() + 1,
            final(self).logs@.last()@ == line@,
            final(self).logs@.drop_last() == old(self).logs@,
    {
        let line = self.format_line(level, timestamp, message);
        self.logs.push(line.clone());
        assert(self.logs@.drop_last() =~= old(self).logs@);
        line
    }

    /// Logs a message under the name of a level, with the given timestamp.
    pub fn log_at(&mut self, level: &str, message: &str, timestamp: &str) -> (line: String)
        ensures
            line@ == log_line(old(self).name@, timestamp@, level_of(lowercased(level@)), message@),
            final(self).name == old(self).name,
            final(self).logs@.len() == old(self).logs@.len() + 1,
            final(self).logs@.last()@ == line@,
            final(self).logs@.drop_last() == old(self).logs@,
    {
        self.record(LogLevel::parse(level), message, timestamp)
    }

    /// Logs a message at the time of the call.
    pub fn log(&mut self, level: &str, message: &str) -> (line: String)
        ensures
            exists|timestamp: Seq<char>|
                line@ == #[trigger] log_line(
                    old(self).name@,
                    timestamp,
                    level_of(lowercased(level@)),
                    message@,
                ),
            final(self).name == old(self).name,
            final(self).logs@.len() == old(self).logs@.len() + 1,
            final(self).logs@.last()@ == line@,
            final(self).logs@.drop_last() == old(self).logs@,
    {
        let timestamp = timestamp_now();
        self.log_at(level, message, timestamp.as_str())
    }
}

} // verus!
