use vstd::prelude::*;

verus! {

/// How much the program says of what it does.
#[derive(Clone, Copy, Debug, PartialEq, Eq, Structural)]
pub enum LogLevel {
    Info,
    Debug,
    Trace,
}

/// The options that hold for every command.
#[derive(Debug)]
pub struct GlobalOptions {
    pub log_level: LogLevel,
    pub config_dir: String,
}

/// Why the options of the command line are refused.
#[derive(Clone, Copy, Debug, PartialEq, Eq, Structural)]
pub enum OptionsError {
    /// More verbosity was asked for than there is.
    InvalidVerbosityLevel,
}

/// The log level for the number of times that verbosity was asked for.
pub open spec fn log_level_of(verbosity: u64) -> Result<LogLevel, OptionsError> {
    if verbosity == 0 {
        Ok(LogLevel::Info)
    } else if verbosity == 1 {
        Ok(LogLevel::Debug)
    } else if verbosity == 2 {
        Ok(LogLevel::Trace)
    } else {
        Err(OptionsError::InvalidVerbosityLevel)
    }
}

impl GlobalOptions {
    /// The global options for the number of times that verbosity was asked for and the
    /// configuration directory that was named, which is the default one where none was.
    pub fn new(verbosity: u64, config_dir: Option<String>, default_config_dir: String) -> (r: Result<
        GlobalOptions,
        OptionsError,
    >)
        ensures
            match r {
                Ok(options) => log_level_of(verbosity) == Ok::<LogLevel, OptionsError>(
                    options.log_level,
                ) && options.config_dir == match config_dir {
                    Some(path) => path,
                    None => default_config_dir,
                },
                Err(error) => log_level_of(verbosity) == Err::<LogLevel, OptionsError>(error),
            },
    {
        let log_level = match verbosity {
            0 => LogLevel::Info,
            1 => LogLevel::Debug,
            2 => LogLevel::Trace,
            _ => {
                return Err(OptionsError::InvalidVerbosityLevel);
            },
        };
        let config_dir = match config_dir {
            Some(path) => path,
            None => default_config_dir,
        };
        Ok(GlobalOptions { log_level, config_dir })
    }
}

} // verus!
