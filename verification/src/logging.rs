//! Output policy: how much is logged, and how a message is shown. Functional
//! messages are logged at the info level, technical detail below it.

use crate::cli::OutputMode;
use vstd::prelude::*;

verus! {

/// How much is logged: everything at least this urgent.
#[derive(Clone, Copy, PartialEq, Eq, Structural, Debug)]
pub enum LevelFilter {
    Off,
    Warn,
    Info,
    Debug,
    Trace,
}

/// How urgent a message is.
#[derive(Clone, Copy, PartialEq, Eq, Structural, Debug)]
pub enum Level {
    Error,
    Warn,
    Info,
    Debug,
    Trace,
}

/// The filter of a mode, `verbose` steps up.
pub open spec fn filter_for(mode: OutputMode, verbose: int) -> LevelFilter {
    if mode == OutputMode::Tui {
        LevelFilter::Off
    } else if mode == OutputMode::Quiet {
        LevelFilter::Warn
    } else if verbose == 0 {
        LevelFilter::Info
    } else if verbose == 1 {
        LevelFilter::Debug
    } else {
        LevelFilter::Trace
    }
}

/// Whether a filter lets a message of some urgency through.
pub open spec fn lets_through(filter: LevelFilter, level: Level) -> bool {
    match level {
        Level::Error | Level::Warn => filter != LevelFilter::Off,
        Level::Info => filter != LevelFilter::Off && filter != LevelFilter::Warn,
        Level::Debug => filter == LevelFilter::Debug || filter == LevelFilter::Trace,
        Level::Trace => filter == LevelFilter::Trace,
    }
}

/// How much is logged in a given mode, `verbose` steps up.
pub fn level_for(mode: OutputMode, verbose: u8) -> (level: LevelFilter)
    ensures
        level == filter_for(mode, verbose as int),
        level == match mode {
            // The dashboard owns the screen.
            OutputMode::Tui => LevelFilter::Off,
            OutputMode::Quiet => LevelFilter::Warn,
            OutputMode::Plain => if verbose == 0 {
                LevelFilter::Info
            } else if verbose == 1 {
                LevelFilter::Debug
            } else {
                LevelFilter::Trace
            },
        },
{
    match (mode, verbose) {
        (OutputMode::Tui, _) => LevelFilter::Off,
        (OutputMode::Quiet, _) => LevelFilter::Warn,
        (_, 0) => LevelFilter::Info,
        (_, 1) => LevelFilter::Debug,
        (_, _) => LevelFilter::Trace,
    }
}

/// Whether messages are shown bare rather than with their origin.
pub fn is_clean(verbose: u8) -> (clean: bool)
    ensures
        clean == (verbose == 0),
{
    verbose == 0
}

/// What a bare message starts with; `None` if messages of that level are not shown.
pub fn clean_prefix(level: Level) -> (prefix: Option<&'static str>)
    ensures
        level == Level::Info ==> (prefix matches Some(p) && p@ == ""@),
        level == Level::Warn ==> (prefix matches Some(p) && p@ == "warning: "@),
        level == Level::Error ==> (prefix matches Some(p) && p@ == "error: "@),
        level == Level::Debug || level == Level::Trace ==> prefix is None,
{
    match level {
        Level::Info => Some(""),
        Level::Warn => Some("warning: "),
        Level::Error => Some("error: "),
        _ => None,
    }
}

/// What is heard of in each mode: nothing behind the dashboard; warnings and errors in
/// quiet; and in plain, news always, detail at the first step up, everything from the
/// second on.
pub proof fn modes_let_through_what_they_are_for(mode: OutputMode, verbose: int, level: Level)
    requires
        0 <= verbose,
    ensures
        mode == OutputMode::Tui ==> !lets_through(filter_for(mode, verbose), level),
        mode == OutputMode::Quiet ==> (lets_through(filter_for(mode, verbose), level) <==> level
            == Level::Warn || level == Level::Error),
        mode == OutputMode::Plain ==> {
            &&& level != Level::Debug && level != Level::Trace ==> lets_through(
                filter_for(mode, verbose),
                level,
            )
            &&& lets_through(filter_for(mode, verbose), Level::Debug) <==> verbose >= 1
            &&& lets_through(filter_for(mode, verbose), Level::Trace) <==> verbose >= 2
        },
{
}

/// Raising verbosity hides nothing.
pub proof fn verbosity_hides_nothing(mode: OutputMode, less: int, more: int, level: Level)
    requires
        0 <= less <= more,
        lets_through(filter_for(mode, less), level),
    ensures
        lets_through(filter_for(mode, more), level),
{
}

} // verus!
