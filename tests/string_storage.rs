use redlite::string_storage::StringStorage;

#[test]
fn given_empty_storage_when_get_then_return_none() {
    let storage = StringStorage::new();
    let result = storage.get("key");
    assert_eq!(result, None);
}

#[test]
fn given_empty_storage_when_set_then_can_get_value() {
    let mut storage = StringStorage::new();
    let value = bytes::Bytes::from("value");
    storage.set("key", &value);
    let result = storage.get("key");
    match result {
        Some(v) => assert_eq!(v, value),
        None => panic!("Expected value"),
    }
}

#[test]
fn given_empty_storage_when_del_then_can_get_none() {
    let mut storage = StringStorage::new();
    storage.del("key");
    let result = storage.get("key");
    assert_eq!(result, None);
}

#[test]
fn given_storage_when_del_then_delete() {
    let mut storage = StringStorage::new();
    let value = bytes::Bytes::from("value");
    storage.set("key", &value);
    storage.del("key");
    let result = storage.get("key");
    assert_eq!(result, None);
}
