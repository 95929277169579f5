//! Log interface model: severity levels and the filtering rule that runs
//! before any formatting work.

use vstd::prelude::*;

verus! {

/// Severity of a log message, from silence to trace.
#[derive(Clone, Copy, Debug, PartialEq, Eq, Structural)]
pub enum LogLevel {
    NoneVal,
    Error,
    Warn,
    Info,
    Debug,
    Trace,
}

/// The numeric code of each level; filtering compares these.
pub open spec fn log_level_code(l: LogLevel) -> u32 {
    match l {
        LogLevel::NoneVal => 0,
        LogLevel::Error => 1,
        LogLevel::Warn => 2,
        LogLevel::Info => 3,
        LogLevel::Debug => 4,
        LogLevel::Trace => 5,
    }
}

impl LogLevel {
    /// Numeric code of this level.
    pub fn to_u32(self) -> (r: u32)
        ensures
            r == log_level_code(self),
    {
        match self {
            LogLevel::NoneVal => 0,
            LogLevel::Error => 1,
            LogLevel::Warn => 2,
            LogLevel::Info => 3,
            LogLevel::Debug => 4,
            LogLevel::Trace => 5,
        }
    }

    /// Level for a numeric code; unknown codes are rejected.
    pub fn from_u32(v: u32) -> (r: Option<LogLevel>)
        ensures
            r == spec_log_level_from(v),
    {
        if v == 0 {
            Option::Some(LogLevel::NoneVal)
        } else if v == 1 {
            Option::Some(LogLevel::Error)
        } else if v == 2 {
            Option::Some(LogLevel::Warn)
        } else if v == 3 {
            Option::Some(LogLevel::Info)
        } else if v == 4 {
            Option::Some(LogLevel::Debug)
        } else if v == 5 {
            Option::Some(LogLevel::Trace)
        } else {
            Option::None
        }
    }

    /// Parse the one-letter or one-digit spellings used by level patterns.
    pub fn parse(value: &str) -> (r: Option<LogLevel>)
        ensures
            r == spec_level_parse(value@),
    {
        if crate::str_eq(value, "E") || crate::str_eq(value, "1") {
            Option::Some(LogLevel::Error)
        } else if crate::str_eq(value, "W") || crate::str_eq(value, "2") {
            Option::Some(LogLevel::Warn)
        } else if crate::str_eq(value, "I") || crate::str_eq(value, "3") {
            Option::Some(LogLevel::Info)
        } else if crate::str_eq(value, "D") || crate::str_eq(value, "4") {
            Option::Some(LogLevel::Debug)
        } else if crate::str_eq(value, "T") || crate::str_eq(value, "5") {
            Option::Some(LogLevel::Trace)
        } else {
            Option::None
        }
    }
}

/// The level that a numeric code stands for, if any.
pub open spec fn spec_log_level_from(v: u32) -> Option<LogLevel> {
    if v == 0 {
        Option::Some(LogLevel::NoneVal)
    } else if v == 1 {
        Option::Some(LogLevel::Error)
    } else if v == 2 {
        Option::Some(LogLevel::Warn)
    } else if v == 3 {
        Option::Some(LogLevel::Info)
    } else if v == 4 {
        Option::Some(LogLevel::Debug)
    } else if v == 5 {
        Option::Some(LogLevel::Trace)
    } else {
        Option::None
    }
}

/// Round trip of the level codes.
pub proof fn lemma_log_level_code_round_trip(l: LogLevel)
    ensures
        spec_log_level_from(log_level_code(l)) == Option::Some(l),
{
}

/// The level named by a one-letter or one-digit spelling, if any.
pub open spec fn spec_level_parse(s: Seq<char>) -> Option<LogLevel> {
    if s == "E"@ || s == "1"@ {
        Option::Some(LogLevel::Error)
    } else if s == "W"@ || s == "2"@ {
        Option::Some(LogLevel::Warn)
    } else if s == "I"@ || s == "3"@ {
        Option::Some(LogLevel::Info)
    } else if s == "D"@ || s == "4"@ {
        Option::Some(LogLevel::Debug)
    } else if s == "T"@ || s == "5"@ {
        Option::Some(LogLevel::Trace)
    } else {
        Option::None
    }
}

/// A named log topic, optionally carrying its own severity threshold.
pub struct LogTopic {
    pub topic: String,
    pub level: LogLevel,
    pub has_custom_level: bool,
}

/// The threshold a message is held against: the topic's own level when it
/// carries one, else the interface-global level.
pub open spec fn spec_effective_level(global: LogLevel, topic: Option<LogTopic>) -> LogLevel {
    match topic {
        Option::Some(t) => if t.has_custom_level {
            t.level
        } else {
            global
        },
        Option::None => global,
    }
}

/// Filtering happens before formatting: a message passes exactly when its
/// level does not exceed the effective threshold.
pub fn should_log(level: LogLevel, global: LogLevel, topic: Option<&LogTopic>) -> (r: bool)
    ensures
        r <==> log_level_code(level) <= log_level_code(
            spec_effective_level(
                global,
                match topic {
                    Option::Some(t) => Option::Some(*t),
                    Option::None => Option::None,
                },
            ),
        ),
{
    let threshold = match topic {
        Option::Some(t) => if t.has_custom_level {
            t.level
        } else {
            global
        },
        Option::None => global,
    };
    level.to_u32() <= threshold.to_u32()
}

} // verus!
