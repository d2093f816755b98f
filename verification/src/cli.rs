//! Reading the command line.

use vstd::prelude::*;
use vstd::string::*;
use crate::text::{starts_with_char, str_eq};

verus! {

/// What the command line asks for.
#[derive(Debug)]
pub enum CliAction {
    /// Show the log in the named file, or the sample lines.
    Run(Option<String>),
    /// Log in to the web service.
    Login,
    /// Print the help text and leave.
    Help,
    /// Print the version and leave.
    Version,
}

/// `arg` asks for the help text.
pub open spec fn is_help_flag(arg: Seq<char>) -> bool {
    arg == "-h"@ || arg == "--help"@
}

/// `arg` asks for the version.
pub open spec fn is_version_flag(arg: Seq<char>) -> bool {
    arg == "-V"@ || arg == "--version"@
}

/// `arg` is an option: it starts with a dash.
pub open spec fn is_option(arg: Seq<char>) -> bool {
    arg.len() > 0 && arg[0] == '-'
}

/// The index of the first argument after the program's name that is no
/// option, at or after `from`; the number of arguments where there is none.
pub open spec fn first_positional(args: Seq<String>, from: int) -> int
    decreases args.len() - from,
{
    if from >= args.len() {
        args.len() as int
    } else if !is_option(args[from]@) {
        from
    } else {
        first_positional(args, from + 1)
    }
}

/// Some argument after the program's name asks for the help text.
pub open spec fn wants_help(args: Seq<String>) -> bool {
    exists|i: int| 1 <= i < args.len() && is_help_flag(#[trigger] args[i]@)
}

/// Some argument after the program's name asks for the version.
pub open spec fn wants_version(args: Seq<String>) -> bool {
    exists|i: int| 1 <= i < args.len() && is_version_flag(#[trigger] args[i]@)
}

/// Whether some argument after the program's name is one of two flags.
fn has_flag(args: &[String], short: &str, long: &str) -> (found: bool)
    ensures
        found == exists|i: int|
            1 <= i < args@.len() && ((#[trigger] args@[i])@ == short@ || args@[i]@ == long@),
{
    let mut i: usize = 1;
    while i < args.len()
        invariant
            1 <= i,
            forall|j: int|
                1 <= j < i && j < args@.len() ==> !((#[trigger] args@[j])@ == short@ || args@[j]@
                    == long@),
        decreases args@.len() - i,
    {
        if str_eq(args[i].as_str(), short) || str_eq(args[i].as_str(), long) {
            return true;
        }
        i = i + 1;
    }
    false
}

/// Decides what the command line asks for.
///
/// A help flag anywhere wins, then a version flag. Otherwise the first
/// argument that is no option decides: the word `login` asks for the login,
/// anything else names the file to show, and without such an argument the
/// sample lines are shown.
pub fn parse_args(args: &[String]) -> (action: CliAction)
    ensures
        wants_help(args@) ==> action is Help,
        !wants_help(args@) && wants_version(args@) ==> action is Version,
        !wants_help(args@) && !wants_version(args@) ==> {
            let at = first_positional(args@, 1);
            if at >= args@.len() {
                action matches CliAction::Run(None)
            } else if args@[at]@ == "login"@ {
                action is Login
            } else {
                (action matches CliAction::Run(Some(path)) && path@ == args@[at]@)
            }
        },
{
    if has_flag(args, "-h", "--help") {
        return CliAction::Help;
    }
    if has_flag(args, "-V", "--version") {
        return CliAction::Version;
    }
    let mut i: usize = 1;
    while i < args.len()
        invariant
            1 <= i,
            !wants_help(args@),
            !wants_version(args@),
            first_positional(args@, 1) == first_positional(args@, i as int),
        decreases args@.len() - i,
    {
        if !starts_with_char(args[i].as_str(), '-') {
            if str_eq(args[i].as_str(), "login") {
                return CliAction::Login;
            }
            return CliAction::Run(Some(args[i].clone()));
        }
        i = i + 1;
    }
    CliAction::Run(None)
}

} // verus!
