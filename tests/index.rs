use bytes::Bytes;
use redlite::commands::ExecutionError;
use redlite::controller::Databases;
use redlite::index::Index;
use redlite::list_executor::ListExecutor;
use redlite::string_executor::StringExecutor;

fn setup_databases() -> Databases {
    Databases {
        string: StringExecutor::new(),
        list: ListExecutor::new(),
    }
}

fn set_a_string_value(
    index: &mut Index,
    databases: &mut Databases,
    key: &str,
    value: &str,
) -> Result<Bytes, ExecutionError> {
    let request = vec!["SET".to_string(), key.to_string(), value.to_string()];
    index.execute_command(databases, &request)
}

#[test]
fn given_unknown_command_return_error() {
    let mut index = Index::new();
    let mut databases = setup_databases();
    let request = vec!["UNKNOWN".to_string(), "key".to_string(), "value".to_string()];
    match index.execute_command(&mut databases, &request) {
        Ok(response) => {
            panic!("Expected error, but got response: {:?}", response)
        }
        Err(error) => assert_eq!(error.get_message(), "Unknown Command"),
    }
}

#[test]
fn given_empty_index_when_get_then_key_not_added_to_index() {
    let mut index = Index::new();
    let mut databases = setup_databases();
    let request = vec!["GET".to_string(), "key".to_string()];
    match index.execute_command(&mut databases, &request) {
        Ok(_) => {
            assert_eq!(index.contains("key"), false)
        }
        Err(error) => panic!("Error executing command: {:?}", error),
    }
}

#[test]
fn given_string_set_add_to_the_index() {
    let mut index = Index::new();
    let mut databases = setup_databases();
    let response = set_a_string_value(&mut index, &mut databases, "key", "value");
    match response {
        Ok(_) => {
            assert_eq!(index.contains("key"), true)
        }
        Err(error) => panic!("Error executing command: {:?}", error),
    }
}

#[test]
fn given_key_in_index_when_delete_key_is_removed() {
    let mut index = Index::new();
    let mut databases = setup_databases();
    set_a_string_value(&mut index, &mut databases, "key", "value").expect("Failed to setup Index for test");
    let request = vec!["DEL".to_string(), "key".to_string()];
    match index.execute_command(&mut databases, &request) {
        Ok(_) => {
            assert_eq!(index.contains("key"), false)
        }
        Err(error) => panic!("Error executing command: {:?}", error),
    }
    assert_eq!(
        databases.string.internal_exists("key"),
        false,
        "Key was not removed from the string database"
    );
}

#[test]
fn given_key_does_not_exist_when_delete_return_zero() {
    let mut index = Index::new();
    let mut databases = setup_databases();
    set_a_string_value(&mut index, &mut databases, "key", "value").expect("Failed to setup Index for test");
    let request = vec!["DEL".to_string(), "another_key".to_string()];
    match index.execute_command(&mut databases, &request) {
        Ok(response) => {
            assert_eq!(response, ":0\r\n")
        }
        Err(error) => panic!("Error executing command: {:?}", error),
    }
}

#[test]
fn given_key_when_rename_and_dest_not_exists_name_has_changed() {
    const KEY_NAME: &'static str = "key";
    const NEW_KEY_NAME: &'static str = "new_key";

    let mut index = Index::new();
    let mut databases = setup_databases();
    set_a_string_value(&mut index, &mut databases, KEY_NAME, "value").expect("Failed to setup Index for test");
    let request = vec!["RENAME".to_string(), KEY_NAME.to_string(), NEW_KEY_NAME.to_string()];

    match index.execute_command(&mut databases, &request) {
        Ok(_) => {
            assert_eq!(index.contains(NEW_KEY_NAME), true);
            assert_eq!(index.contains(KEY_NAME), false)
        }
        Err(error) => panic!("Error executing command: {:?}", error),
    }
    assert_eq!(
        databases.string.internal_exists(KEY_NAME),
        false,
        "Key was not removed from the string database"
    );
    assert_eq!(
        databases.string.internal_exists(NEW_KEY_NAME),
        true,
        "Key was not renamed from the string database"
    );
}

#[test]
fn given_key_which_already_exists_when_rename_delete_old_and_rename() {
    const KEY_NAME: &'static str = "key";
    const KEY_VALUE: &'static str = "value";
    const NEW_KEY_NAME: &'static str = "new_key";
    const NEW_KEY_VALUE: &'static str = "new_value";

    let mut index = Index::new();
    let mut databases = setup_databases();
    set_a_string_value(&mut index, &mut databases, KEY_NAME, KEY_VALUE).expect("Failed to setup Index for test");
    set_a_string_value(&mut index, &mut databases, NEW_KEY_NAME, NEW_KEY_VALUE)
        .expect("Failed to setup Index for test");
    let request = vec!["RENAME".to_string(), KEY_NAME.to_string(), NEW_KEY_NAME.to_string()];

    match index.execute_command(&mut databases, &request) {
        Ok(_) => {
            assert_eq!(index.contains(NEW_KEY_NAME), true);
            assert_eq!(index.contains(KEY_NAME), false)
        }
        Err(error) => panic!("Error executing command: {:?}", error),
    }
    assert_eq!(
        databases.string.internal_exists(KEY_NAME),
        false,
        "Key was not removed from the string database"
    );
    assert_eq!(
        databases.string.internal_exists(NEW_KEY_NAME),
        true,
        "Key was not renamed from the string database"
    );

    let get_request = vec!["GET".to_string(), NEW_KEY_NAME.to_string()];
    match index.execute_command(&mut databases, &get_request) {
        Ok(get_value) => {
            assert_eq!(get_value, format!("+{}\r\n", KEY_VALUE).as_bytes());
        }
        Err(error) => panic!("Error executing command: {:?}", error),
    }
}

#[test]
fn given_key_does_not_exist_when_rename_return_error() {
    const KEY_NAME: &'static str = "key";
    const NEW_KEY_NAME: &'static str = "new_key";
    let mut index = Index::new();
    let mut databases = setup_databases();
    let request = vec!["RENAME".to_string(), KEY_NAME.to_string(), NEW_KEY_NAME.to_string()];

    match index.execute_command(&mut databases, &request) {
        Ok(_) => {
            panic!("Expected error, but got response")
        }
        Err(error) => {
            assert_eq!(error.get_message(), "-no such key")
        }
    }
}

#[test]
fn given_exists_command_for_existing_key_return_1() {
    let mut index = Index::new();
    let mut databases = setup_databases();
    set_a_string_value(&mut index, &mut databases, "key", "value").expect("Failed to setup Index for test");
    let request = vec!["EXISTS".to_string(), "key".to_string()];
    match index.execute_command(&mut databases, &request) {
        Ok(response) => {
            assert_eq!(response, b":1\r\n".as_ref())
        }
        Err(error) => panic!("Error executing command: {:?}", error),
    }
}

#[test]
fn given_exists_command_for_nonexistent_key_return_0() {
    let mut index = Index::new();
    let mut databases = setup_databases();
    let request = vec!["EXISTS".to_string(), "nonexistent".to_string()];
    match index.execute_command(&mut databases, &request) {
        Ok(response) => {
            assert_eq!(response, b":0\r\n".as_ref())
        }
        Err(error) => panic!("Error executing command: {:?}", error),
    }
}
