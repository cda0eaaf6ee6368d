use serde_json::Value;
use voice_channel_manager::request::{room_request, ROOM_KIND};

#[test]
fn request_names_kind_and_name() {
    let request = room_request("Room 1 of 1", None, None);
    assert_eq!(request.len(), 2);
    assert_eq!(request.get("type"), Some(&Value::from(2u64)));
    assert_eq!(request.get("name"), Some(&Value::from("Room 1 of 1")));
    assert_eq!(ROOM_KIND, 2);
}

#[test]
fn request_names_category_as_text_and_capacity_as_number() {
    let request = room_request("Lobby", Some(987654321), Some(5));
    assert_eq!(request.len(), 4);
    assert_eq!(request.get("type"), Some(&Value::from(2u64)));
    assert_eq!(request.get("name"), Some(&Value::from("Lobby")));
    assert_eq!(request.get("parent_id"), Some(&Value::from("987654321")));
    assert_eq!(request.get("user_limit"), Some(&Value::from(5u64)));
}

#[test]
fn request_leaves_out_what_is_unset() {
    let request = room_request("", Some(1), None);
    assert!(request.contains_key("parent_id"));
    assert!(!request.contains_key("user_limit"));
    assert_eq!(request.get("name"), Some(&Value::from("")));
    let request = room_request("x", None, Some(0));
    assert!(!request.contains_key("parent_id"));
    assert_eq!(request.get("user_limit"), Some(&Value::from(0u64)));
}

#[test]
fn request_serialises_as_the_platform_reads_it() {
    let request = room_request("Room 2 of 3", Some(42), Some(7));
    let text = serde_json::to_string(&request).unwrap();
    let read: Value = serde_json::from_str(&text).unwrap();
    assert_eq!(read["type"], Value::from(2u64));
    assert_eq!(read["name"], Value::from("Room 2 of 3"));
    assert_eq!(read["parent_id"], Value::from("42"));
    assert_eq!(read["user_limit"], Value::from(7u64));
}
