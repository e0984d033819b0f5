use kv_server::command::CommandType;
use kv_server::dispatch::{
    execute_command, respond, DESCRIPTION_REPLY, EMPTY_REQUEST_REPLY, NOT_FOUND_REPLY, PONG_REPLY,
    SUCCESS_REPLY, UNKNOWN_COMMAND_REPLY,
};
use kv_server::store::Store;

fn run(store: &mut Store, line: &str) -> String {
    respond(line.to_string(), store)
}

#[test]
fn fixed_replies_read_as_documented() {
    assert_eq!(PONG_REPLY, "PONG\n");
    assert_eq!(SUCCESS_REPLY, "Success\n");
    assert_eq!(NOT_FOUND_REPLY, "Value: Not found\n");
    assert_eq!(UNKNOWN_COMMAND_REPLY, "Error executing command, not found\n");
    assert_eq!(EMPTY_REQUEST_REPLY, "Error parsing request, no bytes in request body\n");
    assert_eq!(
        DESCRIPTION_REPLY,
        "This is a implementation of redis using Rust. Checkout my github: www.github.com/harmya\n"
    );
}

#[test]
fn ping_without_argument_replies_pong() {
    let mut store = Store::new();
    assert_eq!(run(&mut store, "PING"), "PONG\n");
    assert_eq!(run(&mut store, "PING\r\n"), "PONG\n");
    assert_eq!(run(&mut store, "  PING  "), "PONG\n");
}

#[test]
fn ping_with_argument_echoes_it_behind_pong() {
    let mut store = Store::new();
    assert_eq!(run(&mut store, "PING hello"), "PONG hello\n");
    assert_eq!(run(&mut store, "PING hello world\n"), "PONG hello world\n");
}

#[test]
fn ping_does_not_strip_quotes() {
    let mut store = Store::new();
    assert_eq!(run(&mut store, "PING 'hello'"), "PONG 'hello'\n");
}

#[test]
fn echo_strips_the_quotes() {
    let mut store = Store::new();
    assert_eq!(run(&mut store, "ECHO 'hello'"), "hello\n");
}

#[test]
fn echo_passes_unquoted_text_through() {
    let mut store = Store::new();
    assert_eq!(run(&mut store, "ECHO hello"), "hello\n");
}

#[test]
fn echo_of_two_quotes_is_empty() {
    let mut store = Store::new();
    assert_eq!(run(&mut store, "ECHO ''"), "\n");
}

#[test]
fn echo_without_argument_is_empty() {
    let mut store = Store::new();
    assert_eq!(run(&mut store, "ECHO"), "\n");
}

#[test]
fn echo_keeps_the_spaces_inside_its_argument() {
    let mut store = Store::new();
    assert_eq!(run(&mut store, "ECHO 'hello  big world'"), "hello  big world\n");
    assert_eq!(run(&mut store, "ECHO a b c"), "a b c\n");
}

#[test]
fn echo_of_a_lone_quote_returns_the_quote() {
    let mut store = Store::new();
    assert_eq!(run(&mut store, "ECHO '"), "'\n");
}

#[test]
fn what_replies_with_the_description() {
    let mut store = Store::new();
    assert_eq!(run(&mut store, "WHAT"), DESCRIPTION_REPLY);
    assert_eq!(run(&mut store, "WHAT is this"), DESCRIPTION_REPLY);
}

#[test]
fn get_after_set_returns_the_value() {
    let mut store = Store::new();
    assert_eq!(run(&mut store, "SET name value"), "Success\n");
    assert_eq!(run(&mut store, "GET name"), "Value: value\n");
}

#[test]
fn get_of_a_key_never_set_is_not_found() {
    let mut store = Store::new();
    assert_eq!(run(&mut store, "GET missing"), "Value: Not found\n");
    assert_eq!(run(&mut store, "SET other x"), "Success\n");
    assert_eq!(run(&mut store, "GET missing"), "Value: Not found\n");
}

#[test]
fn get_does_not_create_an_entry() {
    let mut store = Store::new();
    assert_eq!(run(&mut store, "GET k"), "Value: Not found\n");
    assert_eq!(store.get("k"), None);
    assert_eq!(run(&mut store, "GET k"), "Value: Not found\n");
}

#[test]
fn second_set_overwrites_the_first() {
    let mut store = Store::new();
    assert_eq!(run(&mut store, "SET k v1"), "Success\n");
    assert_eq!(run(&mut store, "SET k v2"), "Success\n");
    assert_eq!(run(&mut store, "GET k"), "Value: v2\n");
}

#[test]
fn set_takes_everything_after_the_key_as_the_value() {
    let mut store = Store::new();
    assert_eq!(run(&mut store, "SET greeting hello big world"), "Success\n");
    assert_eq!(run(&mut store, "GET greeting"), "Value: hello big world\n");
}

#[test]
fn set_strips_the_quotes_of_key_and_value() {
    let mut store = Store::new();
    assert_eq!(run(&mut store, "SET 'k' 'some value'"), "Success\n");
    assert_eq!(store.get("k"), Some(&"some value".to_string()));
    assert_eq!(run(&mut store, "GET k"), "Value: some value\n");
    assert_eq!(run(&mut store, "GET 'k'"), "Value: some value\n");
}

#[test]
fn set_without_value_binds_the_empty_text() {
    let mut store = Store::new();
    assert_eq!(run(&mut store, "SET k"), "Success\n");
    assert_eq!(store.get("k"), Some(&String::new()));
    assert_eq!(run(&mut store, "GET k"), "Value: \n");
}

#[test]
fn set_without_argument_binds_the_empty_key() {
    let mut store = Store::new();
    assert_eq!(run(&mut store, "SET"), "Success\n");
    assert_eq!(store.get(""), Some(&String::new()));
    assert_eq!(run(&mut store, "GET"), "Value: \n");
}

#[test]
fn set_with_two_spaces_before_the_key_binds_the_empty_key() {
    let mut store = Store::new();
    assert_eq!(run(&mut store, "SET  k v"), "Success\n");
    assert_eq!(store.get(""), Some(&"k v".to_string()));
    assert_eq!(store.get("k"), None);
}

#[test]
fn unknown_command_gets_the_fixed_reply_and_leaves_the_store() {
    let mut store = Store::new();
    assert_eq!(run(&mut store, "SET k v"), "Success\n");
    assert_eq!(run(&mut store, "DEL k"), "Error executing command, not found\n");
    assert_eq!(run(&mut store, "FLUSH"), "Error executing command, not found\n");
    assert_eq!(run(&mut store, "set k other"), "Error executing command, not found\n");
    assert_eq!(run(&mut store, "GET k"), "Value: v\n");
}

#[test]
fn command_names_are_matched_in_upper_case_only() {
    let mut store = Store::new();
    assert_eq!(run(&mut store, "ping"), "Error executing command, not found\n");
    assert_eq!(run(&mut store, "Echo hi"), "Error executing command, not found\n");
}

#[test]
fn a_tab_does_not_separate_command_and_argument() {
    let mut store = Store::new();
    assert_eq!(run(&mut store, "PING\tx"), "Error executing command, not found\n");
}

#[test]
fn empty_line_gets_the_empty_request_reply() {
    let mut store = Store::new();
    assert_eq!(run(&mut store, ""), "Error parsing request, no bytes in request body\n");
}

#[test]
fn line_of_white_space_gets_the_empty_request_reply() {
    let mut store = Store::new();
    assert_eq!(run(&mut store, "\n"), "Error parsing request, no bytes in request body\n");
    assert_eq!(run(&mut store, "  \r\n"), "Error parsing request, no bytes in request body\n");
}

#[test]
fn empty_line_leaves_the_store_unchanged() {
    let mut store = Store::new();
    assert_eq!(run(&mut store, "SET k v"), "Success\n");
    assert_eq!(run(&mut store, ""), "Error parsing request, no bytes in request body\n");
    assert_eq!(run(&mut store, "GET k"), "Value: v\n");
    assert_eq!(store.get(""), None);
}

#[test]
fn every_reply_ends_with_a_line_break() {
    let mut store = Store::new();
    let lines = [
        "", "PING", "PING x", "ECHO", "ECHO 'x'", "WHAT", "SET a b", "GET a", "GET b", "NOPE",
    ];
    for line in lines {
        let reply = run(&mut store, line);
        assert!(reply.ends_with('\n'), "{:?} -> {:?}", line, reply);
    }
}

#[test]
fn execute_command_runs_each_command_on_its_argument() {
    let mut store = Store::new();
    assert_eq!(execute_command(CommandType::PING, String::new(), &mut store), "PONG\n");
    assert_eq!(execute_command(CommandType::PING, "x".to_string(), &mut store), "PONG x\n");
    assert_eq!(execute_command(CommandType::ECHO, "'a b'".to_string(), &mut store), "a b\n");
    assert_eq!(execute_command(CommandType::WHAT, "x".to_string(), &mut store), DESCRIPTION_REPLY);
    assert_eq!(execute_command(CommandType::SET, "k v".to_string(), &mut store), "Success\n");
    assert_eq!(execute_command(CommandType::GET, "k".to_string(), &mut store), "Value: v\n");
    assert_eq!(
        execute_command(CommandType::GET, "q".to_string(), &mut store),
        "Value: Not found\n"
    );
    assert_eq!(
        execute_command(CommandType::ERROR, "k w".to_string(), &mut store),
        "Error executing command, not found\n"
    );
    assert_eq!(store.get("k"), Some(&"v".to_string()));
}

#[test]
fn execute_command_does_not_trim_its_argument() {
    let mut store = Store::new();
    assert_eq!(execute_command(CommandType::ECHO, " x ".to_string(), &mut store), " x \n");
    assert_eq!(execute_command(CommandType::SET, "k v ".to_string(), &mut store), "Success\n");
    assert_eq!(store.get("k"), Some(&"v ".to_string()));
}

#[test]
fn keys_and_values_may_hold_any_characters() {
    let mut store = Store::new();
    assert_eq!(run(&mut store, "SET clé valeur été"), "Success\n");
    assert_eq!(run(&mut store, "GET clé"), "Value: valeur été\n");
}
