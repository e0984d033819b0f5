//! Dispatch: what each command replies and what it does to the store, and
//! the handling of one request line.

use crate::command::{is_known_name, CommandType};
use crate::store::Store;
use crate::text::{
    after_space, before_space, require_data, split_at_space, trim, trimmed, unquoted,
};
use vstd::prelude::*;
use vstd::string::*;

verus! {

/// Ends every reply.
pub const NEWLINE: &'static str = "\n";

/// The reply to `PING` without an argument.
pub const PONG_REPLY: &'static str = "PONG\n";

/// Stands before the argument in the reply to `PING` with an argument.
pub const PONG_PREFIX: &'static str = "PONG ";

/// The reply to `WHAT`.
pub const DESCRIPTION_REPLY: &'static str =
    "This is a implementation of redis using Rust. Checkout my github: www.github.com/harmya\n";

/// The reply to `SET`.
pub const SUCCESS_REPLY: &'static str = "Success\n";

/// Stands before the value in the reply to `GET` for a key that is bound.
pub const VALUE_PREFIX: &'static str = "Value: ";

/// The reply to `GET` for a key that is not bound.
pub const NOT_FOUND_REPLY: &'static str = "Value: Not found\n";

/// The reply to a command name that is not known.
pub const UNKNOWN_COMMAND_REPLY: &'static str = "Error executing command, not found\n";

/// The reply to a request line that holds nothing but white space.
pub const EMPTY_REQUEST_REPLY: &'static str = "Error parsing request, no bytes in request body\n";

/// The key that `SET` with the argument `data` binds: what stands before the
/// first space, without the quotes that wrap it.
pub open spec fn set_key(data: Seq<char>) -> Seq<char> {
    unquoted(before_space(data))
}

/// The value that `SET` with the argument `data` binds the key to: what
/// stands after the first space, without the quotes that wrap it.
pub open spec fn set_value(data: Seq<char>) -> Seq<char> {
    unquoted(after_space(data))
}

/// The reply to `command` with the argument `data`, given against `store`.
pub open spec fn reply_to(
    command: CommandType,
    data: Seq<char>,
    store: Map<Seq<char>, Seq<char>>,
) -> Seq<char> {
    match command {
        CommandType::PING => if data.len() == 0 {
            PONG_REPLY@
        } else {
            PONG_PREFIX@ + data + NEWLINE@
        },
        CommandType::ECHO => unquoted(data) + NEWLINE@,
        CommandType::WHAT => DESCRIPTION_REPLY@,
        CommandType::SET => SUCCESS_REPLY@,
        CommandType::GET => if store.contains_key(unquoted(data)) {
            VALUE_PREFIX@ + store[unquoted(data)] + NEWLINE@
        } else {
            NOT_FOUND_REPLY@
        },
        CommandType::ERROR => UNKNOWN_COMMAND_REPLY@,
    }
}

/// The store that `command` with the argument `data` leaves behind, run
/// against `store`. Only `SET` changes anything.
pub open spec fn store_after(
    command: CommandType,
    data: Seq<char>,
    store: Map<Seq<char>, Seq<char>>,
) -> Map<Seq<char>, Seq<char>> {
    match command {
        CommandType::SET => store.insert(set_key(data), set_value(data)),
        _ => store,
    }
}

/// The reply to the request line `request`, given against `store`.
pub open spec fn response_to(request: Seq<char>, store: Map<Seq<char>, Seq<char>>) -> Seq<char> {
    let line = trimmed(request);
    if line.len() == 0 {
        EMPTY_REQUEST_REPLY@
    } else {
        reply_to(CommandType::of_name(before_space(line)), after_space(line), store)
    }
}

/// The store that the request line `request` leaves behind, run against `store`.
pub open spec fn store_after_request(
    request: Seq<char>,
    store: Map<Seq<char>, Seq<char>>,
) -> Map<Seq<char>, Seq<char>> {
    let line = trimmed(request);
    if line.len() == 0 {
        store
    } else {
        store_after(CommandType::of_name(before_space(line)), after_space(line), store)
    }
}

/// Whether `reply` ends with a line break.
pub open spec fn ends_in_newline(reply: Seq<char>) -> bool {
    reply.len() > 0 && reply.last() == '\n'
}

/// Every reply to a command ends with a line break.
pub proof fn lemma_reply_ends_in_newline(
    command: CommandType,
    data: Seq<char>,
    store: Map<Seq<char>, Seq<char>>,
)
    ensures
        ends_in_newline(reply_to(command, data, store)),
{
    reveal_strlit("\n");
    reveal_strlit("PONG\n");
    reveal_strlit(
        "This is a implementation of redis using Rust. Checkout my github: www.github.com/harmya\n",
    );
    reveal_strlit("Success\n");
    reveal_strlit("Value: Not found\n");
    reveal_strlit("Error executing command, not found\n");
}

/// Every reply to a request line ends with a line break.
pub proof fn lemma_response_ends_in_newline(request: Seq<char>, store: Map<Seq<char>, Seq<char>>)
    ensures
        ends_in_newline(response_to(request, store)),
{
    reveal_strlit("Error parsing request, no bytes in request body\n");
    let line = trimmed(request);
    lemma_reply_ends_in_newline(CommandType::of_name(before_space(line)), after_space(line), store);
}

/// Runs `command` with the argument `data` against `storage` and returns the reply.
pub fn execute_command(command: CommandType, data: String, storage: &mut Store) -> (reply: String)
    ensures
        reply@ == reply_to(command, data@, old(storage)@),
        final(storage)@ == store_after(command, data@, old(storage)@),
        command != CommandType::SET ==> final(storage)@ == old(storage)@,
        command == CommandType::ERROR ==> reply@ == UNKNOWN_COMMAND_REPLY@,
        ends_in_newline(reply@),
{
    proof {
        lemma_reply_ends_in_newline(command, data@, storage@);
    }
    match command {
        CommandType::ECHO => {
            let mut reply = require_data(data);
            reply.append(NEWLINE);
            reply
        },
        CommandType::PING => {
            if data.as_str().is_empty() {
                String::from_str(PONG_REPLY)
            } else {
                let mut reply = String::from_str(PONG_PREFIX);
                reply.append(data.as_str());
                reply.append(NEWLINE);
                reply
            }
        },
        CommandType::WHAT => String::from_str(DESCRIPTION_REPLY),
        CommandType::SET => {
            let (key_part, value_part) = split_at_space(data.as_str());
            let key = require_data(String::from_str(key_part));
            let value = require_data(String::from_str(value_part));
            storage.set(key, value);
            String::from_str(SUCCESS_REPLY)
        },
        CommandType::GET => {
            let key = require_data(data);
            match storage.get(key.as_str()) {
                Some(value) => {
                    let mut reply = String::from_str(VALUE_PREFIX);
                    reply.append(value.as_str());
                    reply.append(NEWLINE);
                    reply
                },
                None => String::from_str(NOT_FOUND_REPLY),
            }
        },
        CommandType::ERROR => String::from_str(UNKNOWN_COMMAND_REPLY),
    }
}

/// Handles one request line: trims it, takes what stands before the first
/// space as the command name and the rest as the argument, and runs the
/// command against `storage`. A line that holds nothing but white space gets
/// the fixed reply for an empty request, and the store stays as it is.
pub fn respond(request: String, storage: &mut Store) -> (reply: String)
    ensures
        reply@ == response_to(request@, old(storage)@),
        final(storage)@ == store_after_request(request@, old(storage)@),
        trimmed(request@).len() == 0 ==> reply@ == EMPTY_REQUEST_REPLY@ && final(storage)@ == old(
            storage,
        )@,
        trimmed(request@).len() > 0 && !is_known_name(before_space(trimmed(request@))) ==> reply@
            == UNKNOWN_COMMAND_REPLY@ && final(storage)@ == old(storage)@,
        ends_in_newline(reply@),
{
    proof {
        lemma_response_ends_in_newline(request@, storage@);
    }
    let line = trim(request.as_str());
    if line.is_empty() {
        return String::from_str(EMPTY_REQUEST_REPLY);
    }
    let (name, data) = split_at_space(line);
    execute_command(CommandType::from_str(name), String::from_str(data), storage)
}

} // verus!
