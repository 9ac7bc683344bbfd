//! The service core end to end over the in-memory table model: startup,
//! the JSON endpoints, the HTML views, and the error path.

use userlist::service::{
    bad_request_response, created_response, index_page_response, index_response,
    list_users_response, storage_error_response, users_fragment_response, BodyKind, Response,
};
use userlist::store::Store;
use userlist::user::User;

fn body_of(r: &Response) -> &str {
    r.body.as_str()
}

#[test]
fn index_is_plain_greeting() {
    let r = index_response();
    assert_eq!(r.status, 200);
    assert_eq!(r.kind, BodyKind::Text);
    assert_eq!(body_of(&r), "Hello world");
}

#[test]
fn landing_page_is_static_html() {
    let r = index_page_response();
    assert_eq!(r.status, 200);
    assert_eq!(r.kind, BodyKind::Html);
    assert_eq!(
        body_of(&r),
        "<!DOCTYPE html><html><head><title>Users</title></head><body><h1>Hello world</h1><ul id=\"users\"></ul></body></html>"
    );
}

#[test]
fn empty_store_lists_empty_array() {
    let st = Store::new();
    let r = st.handle_list();
    assert_eq!(r.status, 200);
    assert_eq!(r.kind, BodyKind::Json);
    assert_eq!(body_of(&r), "[]");
}

#[test]
fn init_is_idempotent_over_storage() {
    let first = Store::init(None);
    assert_eq!(first.handle_list().body, "[]");
    let again = Store::init(Some(first));
    assert_eq!(again.handle_list().body, "[]");

    let mut seeded = Store::init(None);
    seeded.insert(String::from("alice"));
    let listing = seeded.handle_list().body;
    let reinit = Store::init(Some(seeded));
    assert_eq!(reinit.handle_list().body, listing);
}

#[test]
fn create_then_list_shows_username() {
    let mut st = Store::new();
    let r = st.handle_create("{\"username\":\"alice\"}");
    assert_eq!(r.status, 201);
    assert_eq!(body_of(&r), "{\"id\":1,\"username\":\"alice\"}");
    assert_eq!(st.handle_list().body, "[{\"id\":1,\"username\":\"alice\"}]");
}

#[test]
fn duplicate_usernames_both_listed() {
    let mut st = Store::new();
    assert_eq!(st.handle_create("{\"username\":\"dup\"}").status, 201);
    assert_eq!(st.handle_create("{\"username\":\"dup\"}").status, 201);
    assert_eq!(
        st.handle_list().body,
        "[{\"id\":1,\"username\":\"dup\"},{\"id\":2,\"username\":\"dup\"}]"
    );
}

#[test]
fn malformed_body_is_client_error_and_changes_nothing() {
    let mut st = Store::new();
    for bad in ["{}", "{\"username\":1}", "{\"user\":\"a\"}", "", "not json"] {
        let r = st.handle_create(bad);
        assert_eq!(r.status, 400);
        assert_eq!(r.kind, BodyKind::Json);
        assert_eq!(r.body, "{\"error\":\"invalid request body\"}");
    }
    assert_eq!(st.handle_list().body, "[]");
}

#[test]
fn full_scenario_in_insertion_order() {
    let mut st = Store::init(None);
    assert_eq!(st.handle_list().body, "[]");

    let r = st.handle_create("{\"username\":\"alice\"}");
    assert_eq!(r.status, 201);
    assert_eq!(body_of(&r), "{\"id\":1,\"username\":\"alice\"}");
    assert_eq!(st.handle_list().body, "[{\"id\":1,\"username\":\"alice\"}]");

    let r = st.handle_create("{\"username\":\"bob\"}");
    assert_eq!(r.status, 201);
    assert_eq!(
        st.handle_list().body,
        "[{\"id\":1,\"username\":\"alice\"},{\"id\":2,\"username\":\"bob\"}]"
    );
}

#[test]
fn insert_assigns_sequential_ids() {
    let mut st = Store::new();
    assert_eq!(st.insert(String::from("a")), 1);
    assert_eq!(st.insert(String::from("b")), 2);
    assert_eq!(st.insert(String::from("a")), 3);
    assert_eq!(st.len(), 3);
    assert_eq!(st.users()[2].id, 3);
    assert_eq!(st.users()[2].username, "a");
}

#[test]
fn created_response_reports_the_assigned_key() {
    let r = created_response(7, "grace");
    assert_eq!(r.status, 201);
    assert_eq!(body_of(&r), "{\"id\":7,\"username\":\"grace\"}");
}

#[test]
fn storage_error_response_is_fixed() {
    let r = storage_error_response();
    assert_eq!(r.status, 500);
    assert_eq!(r.kind, BodyKind::Json);
    assert_eq!(body_of(&r), "{\"error\":\"storage error\"}");
}

#[test]
fn create_accepts_unicode_escaped_username() {
    let mut st = Store::new();
    let r = st.handle_create("{\"username\":\"Jos\\u00e9\"}");
    assert_eq!(r.status, 201);
    assert_eq!(body_of(&r), "{\"id\":1,\"username\":\"Jos\u{e9}\"}");
    assert_eq!(st.handle_list().body, "[{\"id\":1,\"username\":\"Jos\u{e9}\"}]");
}

#[test]
fn bad_request_response_is_fixed() {
    let r = bad_request_response();
    assert_eq!(r.status, 400);
    assert_eq!(body_of(&r), "{\"error\":\"invalid request body\"}");
}

#[test]
fn list_users_response_from_fetched_rows() {
    let rows = vec![
        User { id: 1, username: String::from("alice") },
        User { id: 2, username: String::from("bob") },
    ];
    let r = list_users_response(&rows);
    assert_eq!(r.status, 200);
    assert_eq!(body_of(&r), "[{\"id\":1,\"username\":\"alice\"},{\"id\":2,\"username\":\"bob\"}]");
}

#[test]
fn fragment_lists_one_row_per_user() {
    let rows: Vec<User> = Vec::new();
    assert_eq!(users_fragment_response(&rows).body, "<ul></ul>");

    let rows = vec![
        User { id: 1, username: String::from("alice") },
        User { id: 2, username: String::from("bob") },
    ];
    let r = users_fragment_response(&rows);
    assert_eq!(r.status, 200);
    assert_eq!(r.kind, BodyKind::Html);
    assert_eq!(body_of(&r), "<ul><li>alice</li><li>bob</li></ul>");
}

#[test]
fn fragment_shows_username_as_text_not_markup() {
    let rows = vec![User { id: 1, username: String::from("<script>&\"'x") }];
    let st = Store::from_users(rows);
    let r = st.handle_users_fragment();
    assert_eq!(body_of(&r), "<ul><li>&lt;script&gt;&amp;&quot;&#x27;x</li></ul>");
}
