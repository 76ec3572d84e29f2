use vstd::prelude::*;
use vstd::string::StrSliceExecFns;
use vstd::string::StringExecFns;

verus! {

/// The level of one log record, most severe first.
#[derive(Clone, Copy, Debug, PartialEq, Eq, Structural)]
pub enum LogLevel {
    Error,
    Warn,
    Info,
    Debug,
    Trace,
}

/// The most verbose level that is still logged; `Off` logs nothing.
#[derive(Clone, Copy, Debug, PartialEq, Eq, Structural)]
pub enum LevelFilter {
    Off,
    Error,
    Warn,
    Info,
    Debug,
    Trace,
}

/// Verbosity of a level: 1 for `Error` up to 5 for `Trace`.
pub open spec fn level_rank(level: LogLevel) -> int {
    match level {
        LogLevel::Error => 1,
        LogLevel::Warn => 2,
        LogLevel::Info => 3,
        LogLevel::Debug => 4,
        LogLevel::Trace => 5,
    }
}

/// Verbosity of a filter: 0 for `Off` up to 5 for `Trace`.
pub open spec fn filter_rank(filter: LevelFilter) -> int {
    match filter {
        LevelFilter::Off => 0,
        LevelFilter::Error => 1,
        LevelFilter::Warn => 2,
        LevelFilter::Info => 3,
        LevelFilter::Debug => 4,
        LevelFilter::Trace => 5,
    }
}

/// The filter that the `LOG` setting selects; `INFO` when it is unset or
/// names no level.
pub open spec fn filter_of_setting(setting: Option<Seq<char>>) -> LevelFilter {
    match setting {
        Some(s) => if s == "SILENT"@ {
            LevelFilter::Off
        } else if s == "ERROR"@ {
            LevelFilter::Error
        } else if s == "WARN"@ {
            LevelFilter::Warn
        } else if s == "INFO"@ {
            LevelFilter::Info
        } else if s == "DEBUG"@ {
            LevelFilter::Debug
        } else if s == "TRACE"@ {
            LevelFilter::Trace
        } else {
            LevelFilter::Info
        },
        None => LevelFilter::Info,
    }
}

/// The upper-case name of a level.
pub open spec fn level_name(level: LogLevel) -> Seq<char> {
    match level {
        LogLevel::Error => "ERROR"@,
        LogLevel::Warn => "WARN"@,
        LogLevel::Info => "INFO"@,
        LogLevel::Debug => "DEBUG"@,
        LogLevel::Trace => "TRACE"@,
    }
}

/// The terminal escape sequence that colours a level.
pub open spec fn level_color(level: LogLevel) -> Seq<char> {
    match level {
        LogLevel::Error => "\x1b[31m"@,
        LogLevel::Warn => "\x1b[93m"@,
        LogLevel::Info => "\x1b[34m"@,
        LogLevel::Debug => "\x1b[32m"@,
        LogLevel::Trace => "\x1b[90m"@,
    }
}

/// The console line of a record: coloured level tag, hart number, message,
/// colour reset.
pub open spec fn log_line(level: LogLevel, message: Seq<char>) -> Seq<char> {
    level_color(level) + "["@ + level_name(level) + "][0] "@ + message + "\x1b[0m"@
}

/// A filter that lets a level through lets every more severe level through.
pub proof fn lemma_filter_keeps_more_severe(filter: LevelFilter, more: LogLevel, less: LogLevel)
    requires
        level_rank(more) <= level_rank(less),
        level_rank(less) <= filter_rank(filter),
    ensures
        level_rank(more) <= filter_rank(filter),
{
}

/// `Off` lets no level through and `Trace` lets every level through.
pub proof fn lemma_filter_extremes(level: LogLevel)
    ensures
        level_rank(level) > filter_rank(LevelFilter::Off),
        level_rank(level) <= filter_rank(LevelFilter::Trace),
{
}

/// The filter that names `level`.
pub open spec fn named_filter(level: LogLevel) -> LevelFilter {
    match level {
        LogLevel::Error => LevelFilter::Error,
        LogLevel::Warn => LevelFilter::Warn,
        LogLevel::Info => LevelFilter::Info,
        LogLevel::Debug => LevelFilter::Debug,
        LogLevel::Trace => LevelFilter::Trace,
    }
}

/// Levels go from most to least severe: Error, Warn, Info, Debug, Trace.
/// The filter that names a level lets through exactly that level and the
/// more severe ones, and `Off` lets nothing through.
pub proof fn lemma_named_filter_passes_up_to_its_level(level: LogLevel, other: LogLevel)
    ensures
        level_rank(LogLevel::Error) < level_rank(LogLevel::Warn),
        level_rank(LogLevel::Warn) < level_rank(LogLevel::Info),
        level_rank(LogLevel::Info) < level_rank(LogLevel::Debug),
        level_rank(LogLevel::Debug) < level_rank(LogLevel::Trace),
        (level_rank(other) <= filter_rank(named_filter(level))) <==> (level_rank(other) <= level_rank(level)),
        level_rank(level) <= filter_rank(named_filter(level)),
        level_rank(other) > filter_rank(LevelFilter::Off),
{
}

/// Whether two strings hold the same characters.
pub fn str_equal(a: &str, b: &str) -> (r: bool)
    ensures
        r == (a@ == b@),
{
    let n = a.unicode_len();
    if n != b.unicode_len() {
        return false;
    }
    let mut i: usize = 0;
    while i < n
        invariant
            n == a@.len(),
            n == b@.len(),
            i <= n,
            forall|j: int| 0 <= j < i ==> a@[j] == b@[j],
        decreases n - i,
    {
        if a.get_char(i) != b.get_char(i) {
            return false;
        }
        i = i + 1;
    }
    assert(a@ =~= b@);
    true
}

/// The filter that the `LOG` setting selects.
pub fn level_filter_of(setting: Option<&str>) -> (r: LevelFilter)
    ensures
        r == filter_of_setting(
            match setting {
                Some(s) => Some(s@),
                None => None,
            },
        ),
{
    match setting {
        Some(s) => {
            if str_equal(s, "SILENT") {
                LevelFilter::Off
            } else if str_equal(s, "ERROR") {
                LevelFilter::Error
            } else if str_equal(s, "WARN") {
                LevelFilter::Warn
            } else if str_equal(s, "INFO") {
                LevelFilter::Info
            } else if str_equal(s, "DEBUG") {
                LevelFilter::Debug
            } else if str_equal(s, "TRACE") {
                LevelFilter::Trace
            } else {
                LevelFilter::Info
            }
        },
        None => LevelFilter::Info,
    }
}

/// Whether records of `level` pass `filter`.
pub fn level_enabled(level: LogLevel, filter: LevelFilter) -> (r: bool)
    ensures
        r == (level_rank(level) <= filter_rank(filter)),
{
    let rank: u8 = match level {
        LogLevel::Error => 1,
        LogLevel::Warn => 2,
        LogLevel::Info => 3,
        LogLevel::Debug => 4,
        LogLevel::Trace => 5,
    };
    let max: u8 = match filter {
        LevelFilter::Off => 0,
        LevelFilter::Error => 1,
        LevelFilter::Warn => 2,
        LevelFilter::Info => 3,
        LevelFilter::Debug => 4,
        LevelFilter::Trace => 5,
    };
    rank <= max
}

/// The upper-case name of a level.
pub fn level_as_str(level: LogLevel) -> (r: &'static str)
    ensures
        r@ == level_name(level),
{
    match level {
        LogLevel::Error => "ERROR",
        LogLevel::Warn => "WARN",
        LogLevel::Info => "INFO",
        LogLevel::Debug => "DEBUG",
        LogLevel::Trace => "TRACE",
    }
}

/// The escape sequence that colours a level.
pub fn level_color_str(level: LogLevel) -> (r: &'static str)
    ensures
        r@ == level_color(level),
{
    match level {
        LogLevel::Error => "\x1b[31m",
        LogLevel::Warn => "\x1b[93m",
        LogLevel::Info => "\x1b[34m",
        LogLevel::Debug => "\x1b[32m",
        LogLevel::Trace => "\x1b[90m",
    }
}

/// The kernel logger: drops the records above its filter and renders the
/// others as coloured console lines.
pub struct Logger {
    pub max_level: LevelFilter,
}

impl Logger {
    /// A logger whose filter is chosen by the `LOG` setting.
    pub fn new(setting: Option<&str>) -> (r: Logger)
        ensures
            r.max_level == filter_of_setting(
                match setting {
                    Some(s) => Some(s@),
                    None => None,
                },
            ),
    {
        Logger { max_level: level_filter_of(setting) }
    }

    /// Whether records of `level` are logged.
    pub fn enabled(&self, level: LogLevel) -> (r: bool)
        ensures
            r == (level_rank(level) <= filter_rank(self.max_level)),
    {
        level_enabled(level, self.max_level)
    }

    /// The console line of a record, or `None` when its level is filtered out.
    pub fn log(&self, level: LogLevel, message: &str) -> (r: Option<String>)
        ensures
            match r {
                Some(line) => level_rank(level) <= filter_rank(self.max_level) && line@ == log_line(
                    level,
                    message@,
                ),
                None => level_rank(level) > filter_rank(self.max_level),
            },
    {
        if !self.enabled(level) {
            return None;
        }
        let mut line = String::new();
        line.append(level_color_str(level));
        line.append("[");
        line.append(level_as_str(level));
        line.append("][0] ");
        line.append(message);
        line.append("\x1b[0m");
        Some(line)
    }
}

/// The code of each character of `s`, in order: what the console is handed,
/// one character at a time.
pub fn print(s: &str) -> (codes: Vec<usize>)
    ensures
        codes@.len() == s@.len(),
        forall|i: int| 0 <= i < s@.len() ==> codes@[i] == s@[i] as usize,
{
    let n = s.unicode_len();
    let mut codes: Vec<usize> = Vec::new();
    let mut i: usize = 0;
    while i < n
        invariant
            n == s@.len(),
            i <= n,
            codes@.len() == i,
            forall|j: int| 0 <= j < i ==> codes@[j] == s@[j] as usize,
        decreases n - i,
    {
        let c = s.get_char(i);
        codes.push(c as usize);
        i = i + 1;
    }
    codes
}

} // verus!
