use vstd::prelude::*;

verus! {

/// Severity of a log message, and verbosity of a log sink, from silent to chatty.
#[derive(Debug, Clone, Copy, PartialEq, Eq, Structural, PartialOrd)]
pub enum LogLevel {
    QUIET,
    ERROR,
    WARN,
    INFO,
    DEBUG,
}

impl LogLevel {
    /// Position of the level on the scale, `QUIET` being 0 and `DEBUG` 4.
    pub open spec fn spec_rank(self) -> u32 {
        match self {
            LogLevel::QUIET => 0,
            LogLevel::ERROR => 1,
            LogLevel::WARN => 2,
            LogLevel::INFO => 3,
            LogLevel::DEBUG => 4,
        }
    }

    /// The level at a position of the scale; every number past the scale is `DEBUG`.
    pub open spec fn spec_from_rank(n: u32) -> LogLevel {
        if n == 0 {
            LogLevel::QUIET
        } else if n == 1 {
            LogLevel::ERROR
        } else if n == 2 {
            LogLevel::WARN
        } else if n == 3 {
            LogLevel::INFO
        } else {
            LogLevel::DEBUG
        }
    }

    /// Position of the level on the scale.
    #[verifier::when_used_as_spec(spec_rank)]
    pub fn rank(self) -> (r: u32)
        ensures
            r == self.spec_rank(),
    {
        match self {
            LogLevel::QUIET => 0,
            LogLevel::ERROR => 1,
            LogLevel::WARN => 2,
            LogLevel::INFO => 3,
            LogLevel::DEBUG => 4,
        }
    }

    /// Whether a sink of this verbosity shows a message of `level`: a quiet
    /// message is never shown, any other one when the verbosity reaches it.
    pub fn shows(self, level: LogLevel) -> (r: bool)
        ensures
            r == (level != LogLevel::QUIET && level.spec_rank() <= self.spec_rank()),
    {
        match level {
            LogLevel::QUIET => false,
            _ => level.rank() <= self.rank(),
        }
    }
}

impl From<u32> for LogLevel {
    fn from(number: u32) -> (r: LogLevel)
        ensures
            r == LogLevel::spec_from_rank(number),
    {
        if number == 0 {
            LogLevel::QUIET
        } else if number == 1 {
            LogLevel::ERROR
        } else if number == 2 {
            LogLevel::WARN
        } else if number == 3 {
            LogLevel::INFO
        } else {
            LogLevel::DEBUG
        }
    }
}

impl vstd::std_specs::convert::FromSpecImpl<u32> for LogLevel {
    open spec fn obeys_from_spec() -> bool {
        true
    }

    open spec fn from_spec(number: u32) -> LogLevel {
        LogLevel::spec_from_rank(number)
    }
}

} // verus!
