//! What a command line asks for.

use super::BootMode;
use vstd::prelude::*;

verus! {

/// What the arguments of the program ask for.
#[derive(Debug, PartialEq, Eq)]
pub enum BinCommand {
    /// Run the mode; `path` names the stored stream for the modes that read
    /// one.
    Run { mode: BootMode, path: Option<String> },
    /// The mode reads a stored stream, and no path was given.
    MissingPath { mode: BootMode },
    /// No mode was given, or none that is known.
    Usage,
}

/// The mode that a word names.
pub open spec fn spec_mode_of(word: Seq<char>) -> Option<BootMode> {
    if word == "record"@ {
        Some(BootMode::Record)
    } else if word == "view"@ {
        Some(BootMode::View)
    } else if word == "gui"@ {
        Some(BootMode::Gui)
    } else if word == "apply"@ {
        Some(BootMode::Apply)
    } else {
        None
    }
}

/// What `args` ask for. The first argument is the name of the program, the
/// second the mode, the third the path of the stored stream.
pub open spec fn spec_command(args: Seq<String>) -> BinCommand {
    if args.len() < 2 {
        BinCommand::Usage
    } else {
        match spec_mode_of(args[1]@) {
            None => BinCommand::Usage,
            Some(mode) => if mode is View || mode is Apply {
                if args.len() < 3 {
                    BinCommand::MissingPath { mode }
                } else {
                    BinCommand::Run { mode, path: Some(args[2]) }
                }
            } else {
                BinCommand::Run { mode, path: None }
            },
        }
    }
}

/// The mode that a word names: one of `record`, `view`, `gui` and `apply`.
pub fn mode_of(word: &String) -> (r: Option<BootMode>)
    ensures
        r == spec_mode_of(word@),
{
    if *word == "record".to_owned() {
        Some(BootMode::Record)
    } else if *word == "view".to_owned() {
        Some(BootMode::View)
    } else if *word == "gui".to_owned() {
        Some(BootMode::Gui)
    } else if *word == "apply".to_owned() {
        Some(BootMode::Apply)
    } else {
        None
    }
}

/// Reads the arguments of the program. A mode that reads a stored stream
/// needs its path; without one nothing is to be run.
pub fn bin_bootstrap(args: &[String]) -> (r: BinCommand)
    ensures
        r == spec_command(args@),
{
    if args.len() < 2 {
        return BinCommand::Usage;
    }
    match mode_of(&args[1]) {
        None => BinCommand::Usage,
        Some(mode) => match mode {
            BootMode::View | BootMode::Apply => {
                if args.len() < 3 {
                    BinCommand::MissingPath { mode }
                } else {
                    BinCommand::Run { mode, path: Some(args[2].clone()) }
                }
            },
            _ => BinCommand::Run { mode, path: None },
        },
    }
}

} // verus!
