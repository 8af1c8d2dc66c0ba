use cmcli::ops::{
    prepare_secret_value, DeleteRequest, FileListRequest, GetRequest, ListRequest, LoginRequest,
    PutRequest, Session,
};
use cmcli::store::SecretStore;

#[test]
fn session_headers_carry_token_and_content_type() {
    let s = Session::new(String::from("tok-123"), String::from("Bearer"));
    let h = s.headers();
    assert_eq!(h.len(), 2);
    assert_eq!(h[0].0, "authorization");
    assert_eq!(h[0].1, "tok-123");
    assert_eq!(h[1].0, "content-type");
    assert_eq!(h[1].1, "application/json");
}

#[test]
fn endpoint_paths_are_fixed() {
    assert_eq!(LoginRequest::path(), "api/v1/user/login");
    assert_eq!(ListRequest::path(), "api/v1/user/secret/list_no_dup");
    assert_eq!(FileListRequest::path(), "api/v1/user/list_file");
    assert_eq!(GetRequest::path(), "api/v1/user/secret/expose");
    assert_eq!(PutRequest::path(), "api/v1/user/secret/protect");
    assert_eq!(DeleteRequest::path(), "api/v1/user/secret/delete");
}

#[test]
fn request_builders_carry_the_fields() {
    let g = GetRequest::new("user@example.com", "k1");
    assert_eq!(g.email, "user@example.com");
    assert_eq!(g.key_name, "k1");
    let p = PutRequest::new("user@example.com", "k1", String::from("v1"));
    assert_eq!(p.key_value, "v1");
    let d = DeleteRequest::new("user@example.com", "k1");
    assert_eq!(d.key_name, "k1");
}

#[test]
fn empty_secret_value_aborts_locally() {
    assert!(prepare_secret_value("").is_none());
    assert!(prepare_secret_value("\n").is_none());
}

#[test]
fn secret_value_strips_trailing_newline() {
    assert_eq!(prepare_secret_value("hello\n").unwrap(), "hello");
    assert_eq!(prepare_secret_value("a b \n").unwrap(), "a b ");
}

#[test]
fn secret_value_without_newline_is_unchanged() {
    assert_eq!(prepare_secret_value("hi").unwrap(), "hi");
}

#[test]
fn put_then_get_round_trip() {
    let mut store = SecretStore::new();
    store.put("k", "v");
    assert_eq!(store.get("k").unwrap(), "v");
}

#[test]
fn put_replaces_wholesale() {
    let mut store = SecretStore::new();
    store.put("k", "old");
    store.put("other", "x");
    store.put("k", "new");
    assert_eq!(store.get("k").unwrap(), "new");
    assert_eq!(store.get("other").unwrap(), "x");
}

#[test]
fn delete_removes_and_absent_delete_is_harmless() {
    let mut store = SecretStore::new();
    store.put("k", "v");
    store.delete("k");
    assert!(store.get("k").is_none());
    store.delete("never-stored");
    assert!(store.get("never-stored").is_none());
}

#[test]
fn listing_names_each_once() {
    let mut store = SecretStore::new();
    store.put("a", "1");
    store.put("b", "2");
    store.put("a", "3");
    let mut names = store.list_names();
    names.sort();
    assert_eq!(names, vec![String::from("a"), String::from("b")]);
}
