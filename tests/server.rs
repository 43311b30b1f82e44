use redlite::command::RedisCommand;
use redlite::controller::{format_error, handle_request, Databases};
use redlite::index::Index;
use redlite::protocol::parse_request;
use redlite::tokenizer::get_token;

struct Server {
    index: Index,
    databases: Databases,
}

impl Server {
    fn new() -> Server {
        Server { index: Index::new(), databases: Databases::new() }
    }

    fn raw(&mut self, request: &[u8]) -> Vec<u8> {
        handle_request(&mut self.index, &mut self.databases, request)
    }

    fn send(&mut self, args: &[&str]) -> String {
        let reply = self.raw(&frame(args));
        String::from_utf8(reply).unwrap()
    }
}

fn frame(args: &[&str]) -> Vec<u8> {
    let mut out = format!("*{}\r\n", args.len()).into_bytes();
    for a in args {
        out.extend_from_slice(format!("${}\r\n", a.len()).as_bytes());
        out.extend_from_slice(a.as_bytes());
        out.extend_from_slice(b"\r\n");
    }
    out
}

#[test]
fn scenario_get_on_empty_server_is_nil() {
    let mut s = Server::new();
    assert_eq!(s.raw(b"*2\r\n$3\r\nGET\r\n$1\r\nk\r\n"), b"+(nil)\r\n".to_vec());
}

#[test]
fn scenario_set_then_get() {
    let mut s = Server::new();
    assert_eq!(s.raw(b"*3\r\n$3\r\nSET\r\n$1\r\nk\r\n$1\r\nv\r\n"), b"+OK\r\n".to_vec());
    assert_eq!(s.raw(b"*2\r\n$3\r\nGET\r\n$1\r\nk\r\n"), b"+v\r\n".to_vec());
}

#[test]
fn scenario_incr_twice() {
    let mut s = Server::new();
    assert_eq!(s.raw(b"*2\r\n$4\r\nINCR\r\n$1\r\nc\r\n"), b"+1\r\n".to_vec());
    assert_eq!(s.raw(b"*2\r\n$4\r\nINCR\r\n$1\r\nc\r\n"), b"+2\r\n".to_vec());
}

#[test]
fn scenario_rpush_lpop_exists() {
    let mut s = Server::new();
    assert_eq!(s.raw(b"*3\r\n$5\r\nRPUSH\r\n$1\r\nl\r\n$1\r\na\r\n"), b":1\r\n".to_vec());
    assert_eq!(s.raw(b"*2\r\n$4\r\nLPOP\r\n$1\r\nl\r\n"), b"+a\r\n".to_vec());
    assert_eq!(s.raw(b"*2\r\n$6\r\nEXISTS\r\n$1\r\nl\r\n"), b":0\r\n".to_vec());
    assert!(!s.index.contains("l"));
    assert_eq!(s.databases.list.internal_get_length(), 0);
}

#[test]
fn scenario_del_on_empty_server() {
    let mut s = Server::new();
    assert_eq!(s.raw(b"*2\r\n$3\r\nDEL\r\n$1\r\nx\r\n"), b":0\r\n".to_vec());
}

#[test]
fn scenario_rename_missing_key() {
    let mut s = Server::new();
    assert_eq!(s.raw(b"*3\r\n$6\r\nRENAME\r\n$1\r\na\r\n$1\r\nb\r\n"), b"-ERR -no such key \r\n".to_vec());
}

#[test]
fn set_then_get_keeps_spaces_and_punctuation() {
    let mut s = Server::new();
    assert_eq!(s.send(&["SET", "greeting", "hello, big world!"]), "+OK\r\n");
    assert_eq!(s.send(&["GET", "greeting"]), "+hello, big world!\r\n");
}

#[test]
fn rpush_many_then_llen_and_lindex() {
    let mut s = Server::new();
    let items = ["x0", "x1", "x2", "x3", "x4"];
    for (i, x) in items.iter().enumerate() {
        assert_eq!(s.send(&["RPUSH", "k", x]), format!(":{}\r\n", i + 1));
    }
    assert_eq!(s.send(&["LLEN", "k"]), ":5\r\n");
    for (i, x) in items.iter().enumerate() {
        assert_eq!(s.send(&["LINDEX", "k", &i.to_string()]), format!("+{}\r\n", x));
    }
    assert_eq!(s.send(&["LINDEX", "k", "5"]), "_\r\n");
}

#[test]
fn rename_moves_string_value() {
    let mut s = Server::new();
    s.send(&["SET", "a", "v"]);
    assert_eq!(s.send(&["RENAME", "a", "b"]), "+OK\r\n");
    assert_eq!(s.send(&["EXISTS", "a"]), ":0\r\n");
    assert_eq!(s.send(&["EXISTS", "b"]), ":1\r\n");
    assert_eq!(s.send(&["GET", "b"]), "+v\r\n");
}

#[test]
fn rename_moves_list_over_a_string() {
    let mut s = Server::new();
    s.send(&["RPUSH", "a", "1"]);
    s.send(&["RPUSH", "a", "2"]);
    s.send(&["SET", "b", "old"]);
    assert_eq!(s.send(&["RENAME", "a", "b"]), "+OK\r\n");
    assert_eq!(s.send(&["EXISTS", "a"]), ":0\r\n");
    assert_eq!(s.send(&["LLEN", "b"]), ":2\r\n");
    assert_eq!(s.send(&["LINDEX", "b", "1"]), "+2\r\n");
    assert!(!s.databases.string.internal_exists("b"));
}

#[test]
fn rename_onto_itself_drops_the_key() {
    let mut s = Server::new();
    s.send(&["SET", "a", "v"]);
    assert_eq!(s.send(&["RENAME", "a", "a"]), "+OK\r\n");
    assert_eq!(s.send(&["EXISTS", "a"]), ":0\r\n");
    assert_eq!(s.send(&["GET", "a"]), "+(nil)\r\n");
}

#[test]
fn set_set_rename_get_returns_first_value() {
    let mut s = Server::new();
    s.send(&["SET", "a", "v1"]);
    s.send(&["SET", "b", "v2"]);
    s.send(&["RENAME", "a", "b"]);
    assert_eq!(s.send(&["GET", "b"]), "+v1\r\n");
}

#[test]
fn lpush_on_string_key_is_a_type_error_and_changes_nothing() {
    let mut s = Server::new();
    s.send(&["SET", "a", "v"]);
    assert_eq!(s.send(&["LPUSH", "a", "x"]), "-ERR Key already exists with different type \r\n");
    assert_eq!(s.send(&["GET", "a"]), "+v\r\n");
    assert_eq!(s.databases.list.internal_get_length(), 0);
}

#[test]
fn every_key_lives_in_one_store() {
    let mut s = Server::new();
    s.send(&["SET", "s", "1"]);
    s.send(&["RPUSH", "l", "x"]);
    s.send(&["INCR", "n"]);
    s.send(&["RPUSH", "s", "y"]);
    s.send(&["SET", "l", "z"]);
    s.send(&["RENAME", "l", "m"]);
    s.send(&["DEL", "n"]);
    for key in ["s", "l", "n", "m"] {
        let in_strings = s.databases.string.internal_exists(key);
        let in_lists = s.databases.list.internal_get_list_length(key) > 0;
        assert!(!(in_strings && in_lists));
        assert_eq!(s.index.contains(key), in_strings || in_lists);
    }
    assert!(s.databases.string.internal_exists("s"));
    assert_eq!(s.databases.list.internal_get_list_length("m"), 1);
}

#[test]
fn verbs_match_in_any_case() {
    let mut s = Server::new();
    assert_eq!(s.send(&["set", "k", "v"]), "+OK\r\n");
    assert_eq!(s.send(&["GeT", "k"]), "+v\r\n");
}

#[test]
fn unknown_verb_is_reported() {
    let mut s = Server::new();
    assert_eq!(s.send(&["PING"]), "-ERR Unknown Command \r\n");
}

#[test]
fn wrong_arity_is_reported() {
    let mut s = Server::new();
    assert_eq!(s.send(&["GET", "a", "b"]), "-ERR GET command requires exactly one parameter \r\n");
    assert_eq!(s.send(&["RPUSH", "a"]), "-ERR RPUSH command requires exactly two parameters \r\n");
    assert_eq!(s.send(&["RENAME", "a"]), "-ERR RENAME command requires two parameter \r\n");
    assert_eq!(s.send(&["DEL"]), "-ERR Not enough identifiers provided for index command \r\n");
}

#[test]
fn arithmetic_rules() {
    let mut s = Server::new();
    assert_eq!(s.send(&["INCRBY", "n", "10"]), "+10\r\n");
    assert_eq!(s.send(&["DECRBY", "n", "15"]), "+-5\r\n");
    assert_eq!(s.send(&["DECR", "n"]), "+-6\r\n");
    assert_eq!(s.send(&["INCRBY", "n", "+6"]), "+0\r\n");
    assert_eq!(s.send(&["GET", "n"]), "+0\r\n");
    let not_int = "-ERR -ERR value is not an integer or out of range \r\n";
    assert_eq!(s.send(&["INCRBY", "n", "ten"]), not_int);
    assert_eq!(s.send(&["SET", "big", "9223372036854775807"]), "+OK\r\n");
    assert_eq!(s.send(&["INCR", "big"]), not_int);
    assert_eq!(s.send(&["GET", "big"]), "+9223372036854775807\r\n");
    assert_eq!(s.send(&["DECRBY", "m", "-9223372036854775808"]), not_int);
    assert_eq!(s.send(&["DECRBY", "m", "-9223372036854775807"]), "+9223372036854775807\r\n");
    assert_eq!(s.send(&["SET", "w", "word"]), "+OK\r\n");
    assert_eq!(s.send(&["INCR", "w"]), not_int);
}

#[test]
fn lindex_rules() {
    let mut s = Server::new();
    assert_eq!(s.send(&["LINDEX", "none", "x"]), "_\r\n");
    s.send(&["LPUSH", "l", "b"]);
    assert_eq!(s.send(&["LPUSH", "l", "a"]), ":2\r\n");
    assert_eq!(s.send(&["LINDEX", "l", "0"]), "+a\r\n");
    assert_eq!(s.send(&["LINDEX", "l", "-1"]), "-ERR Index is not an integer or out of range \r\n");
    assert_eq!(s.send(&["LINDEX", "l", "one"]), "-ERR Index is not an integer or out of range \r\n");
    assert_eq!(s.send(&["RPOP", "l"]), "+b\r\n");
    assert_eq!(s.send(&["RPOP", "l"]), "+a\r\n");
    assert_eq!(s.send(&["RPOP", "l"]), "_\r\n");
    assert_eq!(s.send(&["EXISTS", "l"]), ":0\r\n");
}

#[test]
fn del_on_list_removes_it() {
    let mut s = Server::new();
    s.send(&["RPUSH", "l", "a"]);
    assert_eq!(s.send(&["DEL", "l"]), ":1\r\n");
    assert_eq!(s.send(&["EXISTS", "l"]), ":0\r\n");
    assert_eq!(s.send(&["LLEN", "l"]), ":0\r\n");
}

#[test]
fn framing_errors_are_reported() {
    let mut s = Server::new();
    let err = |m: &str| format!("-ERR {} \r\n", m).into_bytes();
    assert_eq!(s.raw(b""), err("Request is empty"));
    assert_eq!(s.raw(b"*1\r"), err("Invalid token format, expected newline after carriage return"));
    assert_eq!(s.raw(b"*1\rX"), err("Invalid token format, expected newline after carriage return"));
    assert_eq!(
        s.raw(b"*1\r\n\r\n"),
        err("Empty token value; expected at least one character before carriage return")
    );
    assert_eq!(
        s.raw(b"$1\r\nk\r\n"),
        err("Invalid request structure, expected an array indicator '*' at the start")
    );
    assert_eq!(s.raw(b"*x\r\n"), err("Token size is not a valid number"));
    assert_eq!(s.raw(b"*\xff\r\n"), err("Unable to determine size of Token"));
    assert_eq!(s.raw(b"*0\r\n"), err("Array size cannot be zero"));
    assert_eq!(s.raw(b"*1\r\nGET\r\n"), err("Expected size token '$' before identifier"));
    assert_eq!(s.raw(b"*1\r\n$3\r\n"), err("Expected identifier after size token"));
    assert_eq!(s.raw(b"*1\r\n$4\r\nGET\r\n"), err("Identifier size is less than expected"));
    assert_eq!(s.raw(b"*1\r\n$1\r\n\xff\r\n"), err("Identifiers are not valid UTF-8 bytes"));
    assert_eq!(
        s.raw(b"*2\r\n$3\r\nGET\r\n"),
        err("Invalid structure, number of identifiers does not match expected size")
    );
}

#[test]
fn error_replies_keep_the_trailing_space() {
    assert_eq!(format_error("boom"), b"-ERR boom \r\n".to_vec());
}

#[test]
fn final_line_without_line_end_is_a_format_error() {
    match get_token(b"*1\r\nGET", 4) {
        Ok(_) => panic!("Expected error"),
        Err(e) => assert_eq!(e, redlite::tokenizer::INVALID_TOKEN_FORMAT),
    }
}

#[test]
fn incomplete_frame_is_a_parse_error() {
    let result = redlite::tokenizer::identify_command(b"*1\r\n$3\r\nGET");
    assert!(result.is_err());
    assert_eq!(
        result.err().unwrap().get_message(),
        redlite::tokenizer::INVALID_TOKEN_FORMAT
    );
    let mut s = Server::new();
    assert_eq!(
        s.raw(b"*1\r\n$3\r\nGET"),
        b"-ERR Invalid token format, expected newline after carriage return \r\n".to_vec()
    );
}

#[test]
fn parse_request_describes_the_command() {
    let command = parse_request(&frame(&["lpush", "jobs", "a"])).unwrap();
    assert_eq!(command.get_command_type(), "ListCommand");
    assert_eq!(command.get_action(), "lpush");
    assert_eq!(command.get_target(), "jobs");
    assert_eq!(command.get_params().len(), 1);
    assert_eq!(command.to_string(), "ListCommand jobs lpush a");
}

#[test]
fn redis_command_to_string_joins_params() {
    let command = RedisCommand::new(
        "StringCommand".to_string(),
        "k".to_string(),
        "SET".to_string(),
        vec!["a".to_string(), "b".to_string()],
    );
    assert_eq!(command.to_string(), "StringCommand k SET a b");
}

