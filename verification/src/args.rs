//! The command line: which path to read and which statistic to report.
//!
//! The arguments are those after the program's name. The last one is the
//! path. Once it is taken off, the first of those that remain may select a
//! single statistic.

use crate::error::WcError;
use vstd::prelude::*;
use vstd::string::*;

verus! {

/// What to report.
#[derive(Clone, Copy, Debug, PartialEq, Eq, Structural)]
pub enum Commands {
    /// The size in bytes only.
    GetBytes,
    /// The number of lines only.
    GetLines,
    /// The number of words only.
    GetWords,
    /// All three statistics.
    Empty,
}

/// The command that a flag selects: `-c` the bytes, `-l` the lines, `-w` the
/// words, and anything else all three.
pub open spec fn command_for(flag: Seq<char>) -> Commands {
    if flag == "-c"@ {
        Commands::GetBytes
    } else if flag == "-l"@ {
        Commands::GetLines
    } else if flag == "-w"@ {
        Commands::GetWords
    } else {
        Commands::Empty
    }
}

/// Refuses an empty argument list.
pub fn args_is_empty(args: &Vec<String>) -> (result: Result<(), WcError>)
    ensures
        args.len() == 0 ==> result == Err::<(), WcError>(WcError::Usage),
        args.len() > 0 ==> result == Ok::<(), WcError>(()),
{
    if args.is_empty() {
        return Err(WcError::Usage);
    }
    Ok(())
}

/// Takes the path, which is the last argument, off the list. `exists` tells
/// whether anything exists at that path.
///
/// An empty list is left as it is and gives [`WcError::Usage`]. Otherwise
/// the last argument leaves the list, and is returned if `exists` holds;
/// if not, the result is [`WcError::PathNotFound`].
pub fn get_path(arg: &mut Vec<String>, exists: bool) -> (result: Result<String, WcError>)
    ensures
        old(arg).len() == 0 ==> final(arg)@ == old(arg)@ && result == Err::<String, WcError>(
            WcError::Usage,
        ),
        old(arg).len() > 0 ==> final(arg)@ == old(arg)@.drop_last(),
        old(arg).len() > 0 && exists ==> result == Ok::<String, WcError>(old(arg)@.last()),
        old(arg).len() > 0 && !exists ==> result == Err::<String, WcError>(
            WcError::PathNotFound,
        ),
{
    if let Some(path) = arg.pop() {
        return if exists {
            Ok(path)
        } else {
            Err(WcError::PathNotFound)
        };
    }
    Err(WcError::Usage)
}

/// Reads the command off the arguments that remain once the path is taken:
/// the first of them is the flag, and without any all three statistics are
/// reported.
pub fn parse_args_to_command(args: &Vec<String>) -> (command: Commands)
    ensures
        command == if args.len() > 0 {
            command_for(args[0]@)
        } else {
            Commands::Empty
        },
{
    if args.len() == 0 {
        return Commands::Empty;
    }
    let flag = &args[0];
    if *flag == String::from_str("-c") {
        Commands::GetBytes
    } else if *flag == String::from_str("-l") {
        Commands::GetLines
    } else if *flag == String::from_str("-w") {
        Commands::GetWords
    } else {
        Commands::Empty
    }
}

} // verus!
