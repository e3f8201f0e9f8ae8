//! The command line.

use vstd::prelude::*;

use crate::strs::{concat, str_eq};

verus! {

pub const USAGE: &'static str = "usage: conveyor [config]
       conveyor --help | --version";

#[derive(Debug, Clone, Copy, PartialEq, Eq, Structural)]
pub enum Command {
    Tui,
    Config,
    Help,
    Version,
}

/// What the first argument asks for.
pub open spec fn command_of(args: Seq<Seq<char>>) -> Result<Command, Seq<char>> {
    if args.len() == 0 {
        Ok(Command::Tui)
    } else {
        let a = args[0];
        if a == "config"@ {
            Ok(Command::Config)
        } else if a == "--help"@ || a == "-h"@ || a == "help"@ {
            Ok(Command::Help)
        } else if a == "--version"@ || a == "-V"@ || a == "version"@ {
            Ok(Command::Version)
        } else {
            Err("unknown argument '"@ + a + "'\n"@ + USAGE@)
        }
    }
}

/// Reads the arguments after the program name; only the first counts.
pub fn parse(args: &[String]) -> (r: Result<Command, String>)
    ensures
        match r {
            Ok(c) => command_of(args@.map_values(|a: String| a@)) == Ok::<Command, Seq<char>>(c),
            Err(e) => command_of(args@.map_values(|a: String| a@)) == Err::<Command, Seq<char>>(
                e@,
            ),
        },
{
    if args.len() == 0 {
        return Ok(Command::Tui);
    }
    let a = args[0].as_str();
    assert(args@.map_values(|a: String| a@)[0] == a@);
    if str_eq(a, "config") {
        Ok(Command::Config)
    } else if str_eq(a, "--help") || str_eq(a, "-h") || str_eq(a, "help") {
        Ok(Command::Help)
    } else if str_eq(a, "--version") || str_eq(a, "-V") || str_eq(a, "version") {
        Ok(Command::Version)
    } else {
        let head = concat("unknown argument '", a);
        let line = concat(head.as_str(), "'\n");
        Err(concat(line.as_str(), USAGE))
    }
}

} // verus!
