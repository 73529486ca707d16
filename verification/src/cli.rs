//! Command-line parsing: the two subcommands of the exporter, each taking
//! one identifier. Anything else is a usage error, which the caller turns
//! into a message and a non-zero exit.

use vstd::prelude::*;

use crate::text::str_eq;

verus! {

/// What the user asked for: export a whole fiction, or one chapter.
#[derive(Debug)]
pub enum Command {
    Fiction(String),
    Chapter(String),
}

/// The command line did not name a known subcommand with exactly one
/// identifier.
#[derive(Debug, PartialEq, Eq, Structural)]
pub enum CliError {
    Usage,
}

/// Parse the arguments after the program name: `fiction <ID>` or
/// `chapter <ID>`. Every other argument list is a usage error.
pub fn parse_command(args: &Vec<String>) -> (r: Result<Command, CliError>)
    ensures
        match r {
            Ok(c) => match c {
                Command::Fiction(id) => args@.len() == 2 && args@[0]@ == "fiction"@ && id@
                    == args@[1]@,
                Command::Chapter(id) => args@.len() == 2 && args@[0]@ == "chapter"@ && id@
                    == args@[1]@,
            },
            Err(e) => e == CliError::Usage && !(args@.len() == 2 && (args@[0]@ == "fiction"@
                || args@[0]@ == "chapter"@)),
        },
{
    if args.len() == 2 {
        if str_eq(args[0].as_str(), "fiction") {
            return Ok(Command::Fiction(args[1].clone()));
        }
        if str_eq(args[0].as_str(), "chapter") {
            return Ok(Command::Chapter(args[1].clone()));
        }
    }
    Err(CliError::Usage)
}

} // verus!
