//! Levelled diagnostic records. This module decides what is emitted and with
//! which label; writing the records out is left to the caller.
use vstd::prelude::*;

verus! {

/// Severity of a record, from the least to the most severe.
#[derive(Debug, Clone, Copy, PartialEq, Eq)]
pub enum LogLevel {
    Trace,
    Debug,
    Info,
    Warn,
    Error,
}

impl LogLevel {
    pub open spec fn spec_rank(self) -> u8 {
        match self {
            LogLevel::Trace => 0,
            LogLevel::Debug => 1,
            LogLevel::Info => 2,
            LogLevel::Warn => 3,
            LogLevel::Error => 4,
        }
    }

    pub open spec fn spec_name(self) -> Seq<char> {
        match self {
            LogLevel::Trace => seq!['T', 'R', 'A', 'C', 'E'],
            LogLevel::Debug => seq!['D', 'E', 'B', 'U', 'G'],
            LogLevel::Info => seq!['I', 'N', 'F', 'O'],
            LogLevel::Warn => seq!['W', 'A', 'R', 'N'],
            LogLevel::Error => seq!['E', 'R', 'R', 'O', 'R'],
        }
    }

    /// The terminal colour escape: magenta, blue, green, yellow, red.
    pub open spec fn spec_color_code(self) -> Seq<char> {
        match self {
            LogLevel::Trace => seq!['\x1b', '[', '3', '5', 'm'],
            LogLevel::Debug => seq!['\x1b', '[', '3', '4', 'm'],
            LogLevel::Info => seq!['\x1b', '[', '3', '2', 'm'],
            LogLevel::Warn => seq!['\x1b', '[', '3', '3', 'm'],
            LogLevel::Error => seq!['\x1b', '[', '3', '1', 'm'],
        }
    }

    /// The level's position in the order of severity.
    pub fn rank(&self) -> (r: u8)
        ensures
            r == self.spec_rank(),
    {
        match self {
            LogLevel::Trace => 0,
            LogLevel::Debug => 1,
            LogLevel::Info => 2,
            LogLevel::Warn => 3,
            LogLevel::Error => 4,
        }
    }

    /// The level's label, in capitals.
    pub fn to_string(&self) -> (r: String)
        ensures
            r@ == self.spec_name(),
    {
        match self {
            LogLevel::Trace => {
                let r = "TRACE".to_string();
                proof {
                    reveal_strlit("TRACE");
                    assert(r@ =~= self.spec_name());
                }
                r
            },
            LogLevel::Debug => {
                let r = "DEBUG".to_string();
                proof {
                    reveal_strlit("DEBUG");
                    assert(r@ =~= self.spec_name());
                }
                r
            },
            LogLevel::Info => {
                let r = "INFO".to_string();
                proof {
                    reveal_strlit("INFO");
                    assert(r@ =~= self.spec_name());
                }
                r
            },
            LogLevel::Warn => {
                let r = "WARN".to_string();
                proof {
                    reveal_strlit("WARN");
                    assert(r@ =~= self.spec_name());
                }
                r
            },
            LogLevel::Error => {
                let r = "ERROR".to_string();
                proof {
                    reveal_strlit("ERROR");
                    assert(r@ =~= self.spec_name());
                }
                r
            },
        }
    }

    /// The terminal colour escape that starts a record of this level.
    pub fn color_code(&self) -> (r: &'static str)
        ensures
            r@ == self.spec_color_code(),
    {
        match self {
            LogLevel::Trace => {
                proof {
                    reveal_strlit("\x1b[35m");
                }
                "\x1b[35m"
            },
            LogLevel::Debug => {
                proof {
                    reveal_strlit("\x1b[34m");
                }
                "\x1b[34m"
            },
            LogLevel::Info => {
                proof {
                    reveal_strlit("\x1b[32m");
                }
                "\x1b[32m"
            },
            LogLevel::Warn => {
                proof {
                    reveal_strlit("\x1b[33m");
                }
                "\x1b[33m"
            },
            LogLevel::Error => {
                proof {
                    reveal_strlit("\x1b[31m");
                }
                "\x1b[31m"
            },
        }
    }
}

/// A record that passed the logger's level, ready to be written out.
#[derive(Debug, PartialEq, Eq)]
pub struct LogRecord {
    pub level: LogLevel,
    pub message: String,
}

/// Passes on the records at or above its level.
#[derive(Debug, Clone, Copy)]
pub struct Logger {
    level: LogLevel,
}

impl Logger {
    /// The least severe level that passes.
    pub closed spec fn threshold(&self) -> LogLevel {
        self.level
    }

    /// A logger that passes `level` and every more severe one.
    pub fn new(level: LogLevel) -> (r: Logger)
        ensures
            r.threshold() == level,
    {
        Logger { level }
    }

    /// Whether a record of `level` passes.
    pub fn enabled(&self, level: LogLevel) -> (r: bool)
        ensures
            r == (level.spec_rank() >= self.threshold().spec_rank()),
    {
        level.rank() >= self.level.rank()
    }

    /// The record of `message` at `level`, or `None` where the level does not pass.
    pub fn log(&self, level: LogLevel, message: &str) -> (r: Option<LogRecord>)
        ensures
            r is Some == (level.spec_rank() >= self.threshold().spec_rank()),
            r matches Some(rec) ==> rec.level == level && rec.message@ == message@,
    {
        if self.enabled(level) {
            Some(LogRecord { level, message: message.to_string() })
        } else {
            None
        }
    }

    /// A debug record of `message`, where debug records pass.
    pub fn debug(&self, message: &str) -> (r: Option<LogRecord>)
        ensures
            r is Some == (LogLevel::Debug.spec_rank() >= self.threshold().spec_rank()),
            r matches Some(rec) ==> rec.level == LogLevel::Debug && rec.message@ == message@,
    {
        self.log(LogLevel::Debug, message)
    }

    /// An info record of `message`, where info records pass.
    pub fn info(&self, message: &str) -> (r: Option<LogRecord>)
        ensures
            r is Some == (LogLevel::Info.spec_rank() >= self.threshold().spec_rank()),
            r matches Some(rec) ==> rec.level == LogLevel::Info && rec.message@ == message@,
    {
        self.log(LogLevel::Info, message)
    }

    /// A warning record of `message`, where warnings pass.
    pub fn warn(&self, message: &str) -> (r: Option<LogRecord>)
        ensures
            r is Some == (LogLevel::Warn.spec_rank() >= self.threshold().spec_rank()),
            r matches Some(rec) ==> rec.level == LogLevel::Warn && rec.message@ == message@,
    {
        self.log(LogLevel::Warn, message)
    }

    /// An error record of `message`; error records always pass.
    pub fn error(&self, message: &str) -> (r: Option<LogRecord>)
        ensures
            r is Some,
            r matches Some(rec) ==> rec.level == LogLevel::Error && rec.message@ == message@,
    {
        self.log(LogLevel::Error, message)
    }

    /// A trace record of `message`, where trace records pass.
    pub fn trace(&self, message: &str) -> (r: Option<LogRecord>)
        ensures
            r is Some == (self.threshold() == LogLevel::Trace),
            r matches Some(rec) ==> rec.level == LogLevel::Trace && rec.message@ == message@,
    {
        self.log(LogLevel::Trace, message)
    }
}

/// The hours, minutes and seconds of the day that `secs` seconds after the
/// Unix epoch falls in, in UTC.
pub fn time_of_day(secs: u64) -> (r: (u64, u64, u64))
    ensures
        r.0 == (secs % 86400) / 3600,
        r.1 == (secs % 3600) / 60,
        r.2 == secs % 60,
        r.0 < 24 && r.1 < 60 && r.2 < 60,
{
    let time = secs % (24 * 3600);
    let hours = time / 3600;
    let time = time % 3600;
    let minutes = time / 60;
    let seconds = time % 60;
    assert((secs % 86400) % 3600 == secs % 3600) by (nonlinear_arith);
    assert((secs % 3600) % 60 == secs % 60) by (nonlinear_arith);
    (hours, minutes, seconds)
}

} // verus!
