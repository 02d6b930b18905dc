//! What the program reports: the kinds of error, and the lines that it logs.

use crate::text::to_chars;
use vstd::prelude::*;
use vstd::string::*;

verus! {

/// What went wrong, with what is said of it.
#[derive(Debug)]
pub enum Error {
    /// The help text was asked for.
    HelpMessage(String),
    /// The command line cannot be read.
    InvalidCommandLineArgument(String),
    /// The program's directories cannot be made.
    InvalidEnvironment(String),
    /// A colorscheme cannot be loaded.
    ColorschemeError(String),
    /// A blueprint cannot be rendered.
    BlueprintError(String),
    /// The script that runs after rendering failed.
    ExecError(String),
    /// The file system refused something outside any single blueprint.
    SystemError(String),
}

/// How much a logged line matters.
#[derive(Clone, Copy, Debug, PartialEq, Eq, Structural)]
pub enum Level {
    Error,
    Warning,
    Info,
}

/// Which lines are logged: with `quiet` none, and those of the level `Info`
/// only with `verbose`.
#[derive(Clone, Copy, Debug, PartialEq, Eq, Structural)]
pub struct Verbosity {
    pub verbose: bool,
    pub quiet: bool,
}

/// The verbosity after the flags of the command line were read: `--verbose`
/// switches `verbose` on and `quiet` off, else `--quiet` switches `quiet` on
/// and `verbose` off, and without either nothing changes.
pub open spec fn verbosity_after(v: Verbosity, verbose: bool, quiet: bool) -> Verbosity {
    if verbose {
        Verbosity { verbose: true, quiet: false }
    } else if quiet {
        Verbosity { verbose: false, quiet: true }
    } else {
        v
    }
}

/// What is said of an error.
pub open spec fn message_of(e: Error) -> Seq<char> {
    match e {
        Error::HelpMessage(m) => m@,
        Error::InvalidCommandLineArgument(m) => m@,
        Error::InvalidEnvironment(m) => m@,
        Error::ColorschemeError(m) => m@,
        Error::BlueprintError(m) => m@,
        Error::ExecError(m) => m@,
        Error::SystemError(m) => m@,
    }
}

/// The label of a level, in the color of the level.
pub open spec fn label_of(level: Level) -> Seq<char> {
    match level {
        Level::Error => "\x1b[31mERR"@,
        Level::Warning => "\x1b[33mWRN"@,
        Level::Info => "\x1b[32mNFO"@,
    }
}

/// The line that reports `message` at the level `level`.
pub open spec fn log_line(level: Level, message: Seq<char>) -> Seq<char> {
    "["@ + label_of(level) + "\x1b[0m] "@ + message
}

/// Whether a line of the level `level` is logged.
pub open spec fn is_logged(v: Verbosity, level: Level) -> bool {
    !v.quiet && (level != Level::Info || v.verbose)
}

/// What a failure to read the command line prints, without the `error: `
/// that it may start with.
pub open spec fn without_error_prefix(text: Seq<char>) -> Seq<char> {
    if text.len() >= 7 && text.take(7) == "error: "@ {
        text.skip(7)
    } else {
        text
    }
}

impl Verbosity {
    /// Neither verbose nor quiet.
    pub fn new() -> (r: Self)
        ensures
            r == (Verbosity { verbose: false, quiet: false }),
    {
        Verbosity { verbose: false, quiet: false }
    }
}

impl Error {
    /// What is said of the error.
    pub fn message(&self) -> (r: &str)
        ensures
            r@ == message_of(*self),
    {
        match self {
            Error::HelpMessage(m) => m.as_str(),
            Error::InvalidCommandLineArgument(m) => m.as_str(),
            Error::InvalidEnvironment(m) => m.as_str(),
            Error::ColorschemeError(m) => m.as_str(),
            Error::BlueprintError(m) => m.as_str(),
            Error::ExecError(m) => m.as_str(),
            Error::SystemError(m) => m.as_str(),
        }
    }

    /// The error for a command line that could not be read. `help` says
    /// whether the help text was asked for, and `text` is what the failure
    /// prints: the help text is kept as it is, anything else loses a leading
    /// `error: `.
    pub fn from_command_line(help: bool, text: &str) -> (r: Error)
        ensures
            match r {
                Error::HelpMessage(m) => help && m@ == text@,
                Error::InvalidCommandLineArgument(m) => !help && m@ == without_error_prefix(text@),
                _ => false,
            },
    {
        if help {
            return Error::HelpMessage(String::from_str(text));
        }
        let cs = to_chars(text);
        let lead = to_chars("error: ");
        proof {
            reveal_strlit("error: ");
        }
        let mut led = cs.len() >= 7;
        let mut i: usize = 0;
        while led && i < 7
            invariant
                i <= 7,
                lead@ == "error: "@,
                lead@.len() == 7,
                led ==> cs.len() >= 7,
                led ==> forall|j: int| 0 <= j < i ==> cs@[j] == lead@[j],
                !led ==> !(cs@.len() >= 7 && cs@.take(7) == lead@),
            decreases 7 - i,
        {
            if cs[i] != lead[i] {
                led = false;
                assert(cs@.take(7)[i as int] == cs@[i as int]);
            }
            i = i + 1;
        }
        if led {
            assert(cs@.take(7) =~= lead@);
            assert(text@.skip(7) =~= text@.subrange(7, cs.len() as int));
            Error::InvalidCommandLineArgument(String::from_str(text.substring_char(7, cs.len())))
        } else {
            Error::InvalidCommandLineArgument(String::from_str(text))
        }
    }
}

/// Reads the flags `--verbose` and `--quiet` of the command line into the
/// verbosity.
pub fn set_verbosity(v: &mut Verbosity, verbose: bool, quiet: bool)
    ensures
        *final(v) == verbosity_after(*old(v), verbose, quiet),
{
    if verbose {
        v.verbose = true;
        v.quiet = false;
    } else if quiet {
        v.quiet = true;
        v.verbose = false;
    }
}

/// The line to print for `error` at the level `level`, if one is to be
/// printed.
pub fn log_as(v: &Verbosity, level: Level, error: Error) -> (r: Option<String>)
    ensures
        match r {
            Some(line) => is_logged(*v, level) && line@ == log_line(level, message_of(error)),
            None => !is_logged(*v, level),
        },
{
    if v.quiet {
        return None;
    }
    if level == Level::Info && !v.verbose {
        return None;
    }
    let label = match level {
        Level::Error => "\x1b[31mERR",
        Level::Warning => "\x1b[33mWRN",
        Level::Info => "\x1b[32mNFO",
    };
    let mut line = String::from_str("[");
    line.append(label);
    line.append("\x1b[0m] ");
    line.append(error.message());
    Some(line)
}

/// The line to print for `e` as a warning, if one is to be printed.
pub fn log_as_warning(v: &Verbosity, e: Error) -> (r: Option<String>)
    ensures
        match r {
            Some(line) => is_logged(*v, Level::Warning) && line@ == log_line(
                Level::Warning,
                message_of(e),
            ),
            None => !is_logged(*v, Level::Warning),
        },
{
    log_as(v, Level::Warning, e)
}

/// The line to print for `e` as an error, if one is to be printed.
pub fn log_as_error(v: &Verbosity, e: Error) -> (r: Option<String>)
    ensures
        match r {
            Some(line) => is_logged(*v, Level::Error) && line@ == log_line(
                Level::Error,
                message_of(e),
            ),
            None => !is_logged(*v, Level::Error),
        },
{
    log_as(v, Level::Error, e)
}

} // verus!
