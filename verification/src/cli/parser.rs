//! What the command line's options mean.
use vstd::prelude::*;

verus! {

broadcast use vstd::string::group_string_axioms;

/// How much the node logs.
#[derive(Debug, Clone, Copy, PartialEq, Eq)]
pub enum LogLevel {
    Trace,
    Debug,
    Info,
    Warn,
    Error,
}

/// The level named by the `--loglevel` option: one of `trace`, `debug`,
/// `info`, `warn`, `error`; anything else, or no option, is `info`.
pub fn log_level(arg: Option<&str>) -> (r: LogLevel)
    ensures
        match arg {
            Some(a) => {
                &&& a@ == "trace"@ ==> r == LogLevel::Trace
                &&& a@ == "debug"@ ==> r == LogLevel::Debug
                &&& a@ == "warn"@ ==> r == LogLevel::Warn
                &&& a@ == "error"@ ==> r == LogLevel::Error
                &&& (a@ != "trace"@ && a@ != "debug"@ && a@ != "warn"@ && a@ != "error"@) ==> r == LogLevel::Info
            },
            None => r == LogLevel::Info,
        },
{
    match arg {
        None => LogLevel::Info,
        Some(a) => {
            proof {
                reveal_strlit("trace");
                reveal_strlit("debug");
                reveal_strlit("warn");
                reveal_strlit("error");
                assert("trace"@[0] == 't' && "debug"@[0] == 'd' && "warn"@[0] == 'w' && "error"@[0] == 'e');
            }
            let s = a.to_string();
            if s == "trace".to_string() {
                LogLevel::Trace
            } else if s == "debug".to_string() {
                LogLevel::Debug
            } else if s == "warn".to_string() {
                LogLevel::Warn
            } else if s == "error".to_string() {
                LogLevel::Error
            } else {
                LogLevel::Info
            }
        },
    }
}

} // verus!
