//! The command line: `--host <text>`, `--port <text>` and any number of `-v`.
//!
//! Matching the arguments against these three flags is left to `clap`; what
//! the matched flags mean for the configuration is decided here.

use crate::config::{config_of, Config, Flags, FlagsView};
use clap::{App, Arg};
use vstd::prelude::*;

verus! {

/// `clap::Error`: why `clap` produced no matches. It is carried through as it
/// is; nothing is known of its contents.
#[verifier::external_type_specification]
#[verifier::external_body]
pub struct ExClapError(clap::Error);

/// The flags that `clap` finds in a command line (program name first) for
/// the application defined in [`match_flags`], or `None` where it finds a
/// reason to stop instead: a usage error, or a request for the help or
/// version text.
pub uninterp spec fn matched_flags(args: Seq<Seq<char>>) -> Option<FlagsView>;

/// Runs `clap::App::get_matches_from_safe` for the application with the
/// options `--host` and `--port`, which take a value each, and the repeatable
/// switch `-v`, and reads the three results out of the matches with
/// `ArgMatches::value_of` and `ArgMatches::occurrences_of`.
///
/// Assumed, not proved: the outcome depends on the arguments alone, so that
/// it is what [`matched_flags`] names for them.
#[verifier::external_body]
fn match_flags(args: &Vec<String>) -> (outcome: Result<Flags, clap::Error>)
    ensures
        match matched_flags(args.deep_view()) {
            Some(found) => outcome matches Ok(flags) && flags@ == found,
            None => outcome is Err,
        },
{
    let matches = App::new("Big Rust App")
        .version("1.0")
        .author("Author <author@example.com>")
        .about("Boilerplate")
        .arg(Arg::with_name("host").long("host").takes_value(true))
        .arg(Arg::with_name("port").long("port").takes_value(true))
        .arg(Arg::with_name("verbose").short("v").multiple(true))
        .get_matches_from_safe(args)?;
    Ok(Flags {
        host: matches.value_of("host").map(String::from),
        port: matches.value_of("port").map(String::from),
        verbose: matches.occurrences_of("verbose"),
    })
}

/// Reads the field `message` of a `clap::Error`: the text `clap` wants shown.
/// Nothing is claimed of the text.
#[verifier::external_body]
fn early_exit_text(error: &clap::Error) -> (text: String) {
    error.message.clone()
}

/// Calls `clap::Error::use_stderr`: whether the text is an error report, as
/// opposed to the help or version text that was asked for. Nothing is claimed
/// of the answer.
#[verifier::external_body]
fn early_exit_is_failure(error: &clap::Error) -> (failure: bool) {
    error.use_stderr()
}

/// The end of a run before it began: a text to show and the exit code to
/// leave with.
#[derive(Debug, Clone, PartialEq, Eq)]
pub struct EarlyExit {
    pub message: String,
    pub code: i32,
}

impl EarlyExit {
    /// The early exit for a text that is an error report (`failure`, exit
    /// code 1, meant for the error stream) or one that was asked for (exit
    /// code 0, meant for the output stream).
    pub fn new(message: String, failure: bool) -> (exit: EarlyExit)
        ensures
            exit.message == message,
            exit.code == if failure { 1i32 } else { 0i32 },
    {
        EarlyExit { message, code: if failure { 1 } else { 0 } }
    }

    /// Whether the text belongs on the error stream.
    pub fn is_failure(&self) -> (failure: bool)
        ensures
            failure == (self.code != 0),
    {
        self.code != 0
    }
}

/// Turns a command line (program name first) into the configuration of the
/// run. Where `clap` finds the flags, the configuration follows from them by
/// [`config_of`]; where it stops instead, the result is the early exit with
/// `clap`'s text and exit code 0 or 1.
pub fn parse_args(args: &Vec<String>) -> (outcome: Result<Config, EarlyExit>)
    ensures
        match matched_flags(args.deep_view()) {
            Some(found) => outcome matches Ok(config) && config@ == config_of(found),
            None => outcome matches Err(exit) && (exit.code == 0 || exit.code == 1),
        },
{
    match match_flags(args) {
        Ok(flags) => Ok(Config::from_flags(flags)),
        Err(error) => {
            let message = early_exit_text(&error);
            let failure = early_exit_is_failure(&error);
            Err(EarlyExit::new(message, failure))
        },
    }
}

} // verus!
