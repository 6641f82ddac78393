//! Settings understood by the chromedriver binary.

use vstd::prelude::*;

verus! {

/// The verbosity that the chromedriver binary accepts through its
/// `--log-level` flag.
///
/// `Info` is the default: at this level the driver still announces on its
/// standard output where it listens.
#[derive(Debug, Clone, Copy, PartialEq, Eq, Structural)]
pub enum LogLevel {
    All,
    Debug,
    Info,
    Warning,
    Severe,
    Off,
}

impl LogLevel {
    /// The flag value of this level, in the upper case that the driver expects.
    pub open spec fn flag(self) -> Seq<char> {
        match self {
            LogLevel::All => "ALL"@,
            LogLevel::Debug => "DEBUG"@,
            LogLevel::Info => "INFO"@,
            LogLevel::Warning => "WARNING"@,
            LogLevel::Severe => "SEVERE"@,
            LogLevel::Off => "OFF"@,
        }
    }

    /// Renders the level as the driver's flag value.
    pub fn to_string(&self) -> (text: String)
        ensures
            text@ == self.flag(),
    {
        String::from_str(
            match self {
                LogLevel::All => "ALL",
                LogLevel::Debug => "DEBUG",
                LogLevel::Info => "INFO",
                LogLevel::Warning => "WARNING",
                LogLevel::Severe => "SEVERE",
                LogLevel::Off => "OFF",
            },
        )
    }
}

impl Default for LogLevel {
    fn default() -> (level: LogLevel)
        ensures
            level == LogLevel::Info,
    {
        LogLevel::Info
    }
}

} // verus!
