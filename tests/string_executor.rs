use bytes::Bytes;
use redlite::index::LockType::{Read, Write};
use redlite::index::{CommandIdentifier, KeyType, RedisCommandType};
use redlite::string_executor::StringExecutor;

#[test]
fn given_valid_key_when_get_return_value() {
    let mut obj = StringExecutor::new();
    setup_db_with_string(&mut obj);
    let command = CommandIdentifier::new(
        RedisCommandType::StringCommand,
        "key".to_string(),
        "GET".to_string(),
        Vec::new(),
        KeyType::String,
        Read,
    );
    let result = obj.execute_command(&command);
    assert_eq!(result.unwrap().get_response(), "+value\r\n".as_bytes());
}

#[test]
fn given_empty_db_when_get_return_empty_string() {
    let mut db = StringExecutor::new();
    let command = CommandIdentifier::new(
        RedisCommandType::StringCommand,
        "key".to_string(),
        "GET".to_string(),
        Vec::new(),
        KeyType::String,
        Read,
    );
    let result = db.execute_command(&command);
    assert_eq!(result.unwrap().get_response(), "+(nil)\r\n".as_bytes());
}

#[test]
fn given_key_does_not_exist_when_incr_create_key_with_value_1() {
    let mut db = StringExecutor::new();
    let command = CommandIdentifier::new(
        RedisCommandType::StringCommand,
        "key".to_string(),
        "INCR".to_string(),
        Vec::new(),
        KeyType::String,
        Write,
    );
    let result = db.execute_command(&command);
    assert_eq!(result.unwrap().get_response(), "+1\r\n");
}

#[test]
fn given_valid_int_in_str_when_incr_increase_value() {
    let mut db = StringExecutor::new();
    setup_db_with_int(&mut db);
    let command = CommandIdentifier::new(
        RedisCommandType::StringCommand,
        "key".to_string(),
        "INCR".to_string(),
        Vec::new(),
        KeyType::String,
        Write,
    );
    let result = db.execute_command(&command);
    assert_eq!(result.unwrap().get_response(), "+11\r\n");
}

#[test]
fn given_valid_int_in_str_when_incrby_increase_value() {
    let mut db = StringExecutor::new();
    setup_db_with_int(&mut db);

    let mut value = Vec::new();
    value.push(Bytes::from("10"));
    let command = CommandIdentifier::new(
        RedisCommandType::StringCommand,
        "key".to_string(),
        "INCRBY".to_string(),
        value,
        KeyType::String,
        Write,
    );
    let result = db.execute_command(&command);
    assert_eq!(result.unwrap().get_response(), "+20\r\n");
}

#[test]
fn given_valid_int_in_str_when_decr_decrease_value() {
    let mut db = StringExecutor::new();
    setup_db_with_int(&mut db);
    let command = CommandIdentifier::new(
        RedisCommandType::StringCommand,
        "key".to_string(),
        "DECR".to_string(),
        Vec::new(),
        KeyType::String,
        Write,
    );
    let result = db.execute_command(&command);
    assert_eq!(result.unwrap().get_response(), "+9\r\n");
}

#[test]
fn given_key_does_not_exist_when_decr_create_key_with_value_minus_1() {
    let mut db = StringExecutor::new();
    let command = CommandIdentifier::new(
        RedisCommandType::StringCommand,
        "key".to_string(),
        "DECR".to_string(),
        Vec::new(),
        KeyType::String,
        Write,
    );
    let result = db.execute_command(&command);
    assert_eq!(result.unwrap().get_response(), "+-1\r\n");
}

#[test]
fn given_valid_int_in_str_when_decrby_decrease_value() {
    let mut db = StringExecutor::new();
    setup_db_with_int(&mut db);

    let mut value = Vec::new();
    value.push(Bytes::from("4"));
    let command = CommandIdentifier::new(
        RedisCommandType::StringCommand,
        "key".to_string(),
        "DECRBY".to_string(),
        value,
        KeyType::String,
        Write,
    );
    let result = db.execute_command(&command);
    assert_eq!(result.unwrap().get_response(), "+6\r\n");
}

#[test]
fn given_no_key_exists_when_decrby_decrease_value() {
    let mut db = StringExecutor::new();
    let mut value = Vec::new();
    value.push(Bytes::from("4"));
    let command = CommandIdentifier::new(
        RedisCommandType::StringCommand,
        "key".to_string(),
        "DECRBY".to_string(),
        value,
        KeyType::String,
        Write,
    );
    let result = db.execute_command(&command);
    assert_eq!(result.unwrap().get_response(), "+-4\r\n");
}

#[test]
fn give_string_key_when_incr_return_error() {
    let mut db = StringExecutor::new();
    setup_db_with_string(&mut db);
    let command = CommandIdentifier::new(
        RedisCommandType::StringCommand,
        "key".to_string(),
        "INCR".to_string(),
        Vec::new(),
        KeyType::String,
        Write,
    );
    let incr_result = db.execute_command(&command);
    assert!(incr_result.is_err());
    let err = incr_result.err().unwrap();
    assert_eq!(err.get_message(), "-ERR value is not an integer or out of range");
}


#[test]
fn given_non_numeric_value_when_incr_return_error() {
    let mut db = StringExecutor::new();
    setup_db_with_string(&mut db);

    // Now try to INCR the non-numeric value
    let incr_command = CommandIdentifier::new(
        RedisCommandType::StringCommand,
        "key".to_string(),
        "INCR".to_string(),
        Vec::new(),
        KeyType::String,
        Write,
    );
    let incr_result = db.execute_command(&incr_command);
    assert!(incr_result.is_err());
    let err = incr_result.err().unwrap();
    assert_eq!(err.get_message(), "-ERR value is not an integer or out of range");
}



fn setup_db_with_string(db: &mut StringExecutor) {
    let mut value = Vec::new();
    value.push(Bytes::from("value"));
    let command = CommandIdentifier::new(
        RedisCommandType::StringCommand,
        "key".to_string(),
        "SET".to_string(),
        value,
        KeyType::String,
        Write,
    );
    let result = db.execute_command(&command);
    assert_eq!(result.unwrap().get_response(), "+OK\r\n".as_bytes());
}

fn setup_db_with_int(db: &mut StringExecutor) {
    let mut value = Vec::new();
    value.push(Bytes::from("10"));
    let command = CommandIdentifier::new(
        RedisCommandType::StringCommand,
        "key".to_string(),
        "SET".to_string(),
        value,
        KeyType::String,
        Write,
    );
    let result = db.execute_command(&command);
    assert_eq!(result.unwrap().get_response(), "+OK\r\n".as_bytes());
}
