//! The closed set of commands and the mapping from a command name to one.

use crate::text::str_eq;
use vstd::prelude::*;

verus! {

/// What a request asks for. A name that is none of the five known ones is
/// `ERROR`.
#[derive(Debug, Clone, Copy, PartialEq, Eq, Structural)]
pub enum CommandType {
    PING,
    WHAT,
    ECHO,
    SET,
    GET,
    ERROR,
}

/// Whether `name` is one of the five command names.
pub open spec fn is_known_name(name: Seq<char>) -> bool {
    ||| name == "PING"@
    ||| name == "WHAT"@
    ||| name == "ECHO"@
    ||| name == "SET"@
    ||| name == "GET"@
}

impl CommandType {
    /// The command that `name` stands for. Names are matched letter for
    /// letter, in upper case only.
    pub open spec fn of_name(name: Seq<char>) -> CommandType {
        if name == "PING"@ {
            CommandType::PING
        } else if name == "WHAT"@ {
            CommandType::WHAT
        } else if name == "ECHO"@ {
            CommandType::ECHO
        } else if name == "SET"@ {
            CommandType::SET
        } else if name == "GET"@ {
            CommandType::GET
        } else {
            CommandType::ERROR
        }
    }

    /// Maps a command name to its command.
    pub fn from_str(command: &str) -> (kind: CommandType)
        ensures
            kind == CommandType::of_name(command@),
            kind == CommandType::ERROR <==> !is_known_name(command@),
    {
        if str_eq(command, "PING") {
            CommandType::PING
        } else if str_eq(command, "WHAT") {
            CommandType::WHAT
        } else if str_eq(command, "ECHO") {
            CommandType::ECHO
        } else if str_eq(command, "SET") {
            CommandType::SET
        } else if str_eq(command, "GET") {
            CommandType::GET
        } else {
            CommandType::ERROR
        }
    }
}

} // verus!
