//! Command-line decisions: which action an argument list asks for, and
//! whether the terminal interface should be chosen over the graphical
//! placeholder. Reading the arguments and the environment, and acting on
//! the decision, happen outside the library.

use vstd::prelude::*;
use vstd::string::StrSliceExecFns;
use vstd::string::StringExecFns;

use crate::text::str_eq;

verus! {

/// What the command line asks the program to do.
#[derive(Debug, Clone)]
pub enum CliCommand {
    Help,
    Version,
    Update(String),
    Run,
    Invalid(String),
}

/// Decides the action from the argument list, program name first: no
/// argument runs the picker; `--help`, `--version` and `--update` (with an
/// optional channel defaulting to `stable`) do what they say; anything else
/// is rejected, carrying the offending argument.
pub fn parse_cli(args: &Vec<String>) -> (c: CliCommand)
    ensures
        args@.len() <= 1 ==> c is Run,
        args@.len() > 1 ==> match c {
            CliCommand::Help => args@[1]@ == "--help"@,
            CliCommand::Version => args@[1]@ == "--version"@,
            CliCommand::Update(ch) => args@[1]@ == "--update"@ && ch@ == if args@.len() > 2 {
                args@[2]@
            } else {
                "stable"@
            },
            CliCommand::Invalid(a) => {
                &&& a@ == args@[1]@
                &&& args@[1]@ != "--help"@
                &&& args@[1]@ != "--version"@
                &&& args@[1]@ != "--update"@
            },
            CliCommand::Run => false,
        },
{
    if args.len() <= 1 {
        return CliCommand::Run;
    }
    let first = &args[1];
    if str_eq(first.as_str(), "--help") {
        CliCommand::Help
    } else if str_eq(first.as_str(), "--version") {
        CliCommand::Version
    } else if str_eq(first.as_str(), "--update") {
        let channel = if args.len() > 2 {
            args[2].as_str().to_owned()
        } else {
            String::from_str("stable")
        };
        CliCommand::Update(channel)
    } else {
        CliCommand::Invalid(first.as_str().to_owned())
    }
}

/// Decides between the terminal and the graphical interface: a remote
/// session always takes the terminal; otherwise the terminal is used
/// exactly when no display is available.
pub fn should_use_tui(remote_session: bool, has_display: bool) -> (r: bool)
    ensures
        r == (remote_session || !has_display),
{
    if remote_session {
        true
    } else {
        !has_display
    }
}

} // verus!
