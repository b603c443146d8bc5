use vstd::prelude::*;

use crate::display::claims::{all_digits, digits_value};
use crate::text::{ascii_lower_seq, is_blank, trim, trim_str};
use tracing_subscriber::filter::LevelFilter;

verus! {

broadcast use vstd::std_specs::vec::group_vec_axioms;

/// How log lines are written.
#[derive(Clone, Copy, Debug, PartialEq, Eq, Structural)]
pub enum FmtLayerMode {
    Standard,
    Pretty,
    Json,
}

impl Default for FmtLayerMode {
    /// Pretty output.
    fn default() -> (m: Self)
        ensures
            m == FmtLayerMode::Pretty,
    {
        FmtLayerMode::Pretty
    }
}

/// Which details each log line carries.
#[derive(Clone, Copy, Debug)]
pub struct TracingConfig {
    pub with_target: bool,
    pub with_file: bool,
    pub with_line_number: bool,
    pub with_ansi_coloring: bool,
    pub with_thread_name: bool,
    pub with_thread_id: bool,
}

impl Default for TracingConfig {
    /// Targets, files, line numbers and colours, without thread names or ids.
    fn default() -> (c: Self)
        ensures
            c.with_target && c.with_file && c.with_line_number && c.with_ansi_coloring,
            !c.with_thread_name && !c.with_thread_id,
    {
        TracingConfig {
            with_target: true,
            with_file: true,
            with_line_number: true,
            with_ansi_coloring: true,
            with_thread_name: false,
            with_thread_id: false,
        }
    }
}

/// A verbosity level of the log filter, from `Off` (nothing) to `Trace` (everything).
#[derive(Clone, Copy, Debug, PartialEq, Eq, Structural)]
pub enum LogLevel {
    Off,
    Error,
    Warn,
    Info,
    Debug,
    Trace,
}

/// The rank of a level: 0 for `Off` up to 5 for `Trace`.
pub open spec fn level_rank(l: LogLevel) -> int {
    match l {
        LogLevel::Off => 0,
        LogLevel::Error => 1,
        LogLevel::Warn => 2,
        LogLevel::Info => 3,
        LogLevel::Debug => 4,
        LogLevel::Trace => 5,
    }
}

/// The level with rank `n` (0 to 5).
pub open spec fn level_of_rank(n: int) -> LogLevel {
    if n == 0 {
        LogLevel::Off
    } else if n == 1 {
        LogLevel::Error
    } else if n == 2 {
        LogLevel::Warn
    } else if n == 3 {
        LogLevel::Info
    } else if n == 4 {
        LogLevel::Debug
    } else {
        LogLevel::Trace
    }
}

/// `LevelFilter::from_str`: a number from 0 to 5 (as `usize` reads it: an
/// optional `+`, then digits), else, ignoring ASCII case, `error`, `warn`,
/// `info`, `debug`, `trace` or `off`; the empty text reads as `Error`.
pub open spec fn parse_level(s: Seq<char>) -> Option<LogLevel> {
    let digits = if s.len() > 0 && s[0] == '+' { s.skip(1) } else { s };
    let lower = ascii_lower_seq(s);
    if digits.len() > 0 && all_digits(digits) && digits_value(digits) <= 5 {
        Some(level_of_rank(digits_value(digits) as int))
    } else if s.len() == 0 {
        Some(LogLevel::Error)
    } else if lower == "error"@ {
        Some(LogLevel::Error)
    } else if lower == "warn"@ {
        Some(LogLevel::Warn)
    } else if lower == "info"@ {
        Some(LogLevel::Info)
    } else if lower == "debug"@ {
        Some(LogLevel::Debug)
    } else if lower == "trace"@ {
        Some(LogLevel::Trace)
    } else if lower == "off"@ {
        Some(LogLevel::Off)
    } else {
        None
    }
}

/// `<LevelFilter as FromStr>::from_str`, with the filter it reads given as
/// a `LogLevel`. Its source reads a number from 0 to 5 as `usize` reads it,
/// else one of the level names ignoring ASCII case, the empty text as
/// `Error`; the contract states exactly that, as `parse_level`.
#[verifier::external_body]
fn level_filter_from_str(text: &str) -> (r: Option<LogLevel>)
    ensures
        r == parse_level(text@),
{
    match text.parse::<LevelFilter>().ok() {
        None => None,
        Some(LevelFilter::OFF) => Some(LogLevel::Off),
        Some(LevelFilter::ERROR) => Some(LogLevel::Error),
        Some(LevelFilter::WARN) => Some(LogLevel::Warn),
        Some(LevelFilter::INFO) => Some(LogLevel::Info),
        Some(LevelFilter::DEBUG) => Some(LogLevel::Debug),
        Some(_) => Some(LogLevel::Trace),
    }
}

/// Reads a configured log level as the log filter does, after trimming the
/// surrounding whitespace; `None` where it is no level.
pub fn parse_level_filter(value: &str) -> (r: Option<LogLevel>)
    ensures
        r == parse_level(trim(value@)),
{
    let t = trim_str(value);
    level_filter_from_str(t.as_str())
}

} // verus!

verus! {

/// `tracing_subscriber::filter::Targets`: a log filter by target prefix.
#[verifier::external_type_specification]
#[verifier::external_body]
pub struct ExTargets(tracing_subscriber::filter::Targets);

/// `tracing_subscriber::filter::ParseError`: why a filter text was refused.
#[verifier::external_type_specification]
#[verifier::external_body]
pub struct ExFilterParseError(tracing_subscriber::filter::ParseError);

/// What a filter holds: for each target its level rank, over the directives
/// that name a target and no fields.
pub uninterp spec fn target_levels(t: tracing_subscriber::filter::Targets) -> Map<Seq<char>, int>;

/// The level rank a filter gives targets that no directive names, where it
/// has a directive without a target.
pub uninterp spec fn filter_default_level(t: tracing_subscriber::filter::Targets) -> Option<int>;

/// What reading a filter text gives: its target levels and default level,
/// where the text reads.
pub uninterp spec fn parsed_filter(text: Seq<char>) -> Option<(Map<Seq<char>, int>, Option<int>)>;

/// `Targets::new`: a filter without directives.
#[verifier::external_body]
fn targets_new() -> (r: tracing_subscriber::filter::Targets)
    ensures
        target_levels(r).dom() == Set::<Seq<char>>::empty(),
        filter_default_level(r) is None,
{
    tracing_subscriber::filter::Targets::new()
}

/// `Targets::with_default`: the directive without a target now gives `level`
/// (a directive for the same target replaces the earlier one).
#[verifier::external_body]
fn targets_with_default(t: tracing_subscriber::filter::Targets, level: LogLevel) -> (r: tracing_subscriber::filter::Targets)
    ensures
        target_levels(r) == target_levels(t),
        filter_default_level(r) == Some(level_rank(level)),
{
    let l = match level {
        LogLevel::Off => tracing_subscriber::filter::LevelFilter::OFF,
        LogLevel::Error => tracing_subscriber::filter::LevelFilter::ERROR,
        LogLevel::Warn => tracing_subscriber::filter::LevelFilter::WARN,
        LogLevel::Info => tracing_subscriber::filter::LevelFilter::INFO,
        LogLevel::Debug => tracing_subscriber::filter::LevelFilter::DEBUG,
        LogLevel::Trace => tracing_subscriber::filter::LevelFilter::TRACE,
    };
    t.with_default(l)
}

/// `Targets::with_target`: the directive for `target` now gives `level`
/// (a directive for the same target replaces the earlier one).
#[verifier::external_body]
fn targets_with_target(t: tracing_subscriber::filter::Targets, target: &str, level: LogLevel) -> (r: tracing_subscriber::filter::Targets)
    ensures
        target_levels(r) == target_levels(t).insert(target@, level_rank(level)),
        filter_default_level(r) == filter_default_level(t),
{
    let l = match level {
        LogLevel::Off => tracing_subscriber::filter::LevelFilter::OFF,
        LogLevel::Error => tracing_subscriber::filter::LevelFilter::ERROR,
        LogLevel::Warn => tracing_subscriber::filter::LevelFilter::WARN,
        LogLevel::Info => tracing_subscriber::filter::LevelFilter::INFO,
        LogLevel::Debug => tracing_subscriber::filter::LevelFilter::DEBUG,
        LogLevel::Trace => tracing_subscriber::filter::LevelFilter::TRACE,
    };
    t.with_target(target, l)
}

/// `<Targets as FromStr>::from_str`: reads comma-separated directives; what
/// a text reads as is left to the crate and only named here.
#[verifier::external_body]
fn parse_targets(text: &str) -> (r: Result<tracing_subscriber::filter::Targets, tracing_subscriber::filter::ParseError>)
    ensures
        match r {
            Ok(t) => parsed_filter(text@) == Some((target_levels(t), filter_default_level(t))),
            Err(_) => parsed_filter(text@) is None,
        },
{
    text.parse::<tracing_subscriber::filter::Targets>()
}

/// The filter text that a log filter was refused for, and why.
#[derive(Clone, Debug)]
pub struct FilterTextError {
    pub text: String,
}

/// The filter used when none is configured: `default_level` for everything,
/// warnings and worse for the runtime and database targets.
pub fn default_fmt_filter(default_level: LogLevel) -> (t: tracing_subscriber::filter::Targets)
    ensures
        filter_default_level(t) == Some(level_rank(default_level)),
        target_levels(t) == map!["tokio"@ => 2int, "runtime"@ => 2int, "sqlx"@ => 2int],
{
    let t = targets_new();
    let t = targets_with_default(t, default_level);
    let t = targets_with_target(t, "tokio", LogLevel::Warn);
    let t = targets_with_target(t, "runtime", LogLevel::Warn);
    let t = targets_with_target(t, "sqlx", LogLevel::Warn);
    assert(target_levels(t) =~= map!["tokio"@ => 2int, "runtime"@ => 2int, "sqlx"@ => 2int]);
    t
}

/// The log filter: the configured filter text (trimmed) where it is not
/// blank, else the default filter; a configured database level then
/// overrides the `sqlx` target. A configured text that does not read is refused.
pub fn build_fmt_filter(
    default_level: LogLevel,
    configured_filter: Option<&str>,
    sqlx_log_level: Option<LogLevel>,
) -> (r: Result<tracing_subscriber::filter::Targets, FilterTextError>)
    ensures
        ({
            let configured = match configured_filter {
                Some(c) => if trim(c@).len() > 0 { Some(trim(c@)) } else { None },
                None => None,
            };
            let base: Option<(Map<Seq<char>, int>, Option<int>)> = match configured {
                Some(c) => parsed_filter(c),
                None => Some((
                    map!["tokio"@ => 2int, "runtime"@ => 2int, "sqlx"@ => 2int],
                    Some(level_rank(default_level)),
                )),
            };
            match base {
                None => r matches Err(e) && e.text@ == configured->Some_0,
                Some((levels, default)) => r matches Ok(t) && filter_default_level(t) == default && target_levels(t) == match sqlx_log_level {
                    Some(l) => levels.insert("sqlx"@, level_rank(l)),
                    None => levels,
                },
            }
        }),
{
    let configured: Option<String> = match configured_filter {
        Some(c) => {
            let t = trim_str(c);
            proof {
                crate::display::labels::lemma_trim_idempotent(c@);
            }
            if is_blank(t.as_str()) { None } else { Some(t) }
        },
        None => None,
    };
    let filter = match configured {
        Some(text) => match parse_targets(text.as_str()) {
            Ok(t) => t,
            Err(_) => return Err(FilterTextError { text }),
        },
        None => default_fmt_filter(default_level),
    };
    match sqlx_log_level {
        Some(level) => Ok(targets_with_target(filter, "sqlx", level)),
        None => Ok(filter),
    }
}

} // verus!
