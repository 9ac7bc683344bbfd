//! The JSON wire format: exact encoder output, exact parser behaviour,
//! and agreement of the encoder with an independent JSON reader.

use userlist::json::{user_json_string, users_json_string};
use userlist::request::parse_create_user;
use userlist::user::User;

fn user(id: u64, username: &str) -> User {
    User { id, username: String::from(username) }
}

#[test]
fn empty_listing_is_empty_array() {
    let users: Vec<User> = Vec::new();
    assert_eq!(users_json_string(&users), "[]");
}

#[test]
fn single_user_listing() {
    let users = vec![user(1, "alice")];
    assert_eq!(users_json_string(&users), "[{\"id\":1,\"username\":\"alice\"}]");
}

#[test]
fn two_user_listing_keeps_order() {
    let users = vec![user(1, "alice"), user(2, "bob")];
    assert_eq!(
        users_json_string(&users),
        "[{\"id\":1,\"username\":\"alice\"},{\"id\":2,\"username\":\"bob\"}]"
    );
}

#[test]
fn largest_id_renders_all_digits() {
    assert_eq!(
        user_json_string(u64::MAX, "x"),
        "{\"id\":18446744073709551615,\"username\":\"x\"}"
    );
}

#[test]
fn zero_id_and_empty_username() {
    assert_eq!(user_json_string(0, ""), "{\"id\":0,\"username\":\"\"}");
}

#[test]
fn encoder_escapes_quote_backslash_and_controls() {
    assert_eq!(
        user_json_string(3, "a\"b\\c\nd\te"),
        "{\"id\":3,\"username\":\"a\\\"b\\\\c\\nd\\te\"}"
    );
    assert_eq!(
        user_json_string(4, "\u{1}\u{8}\u{c}\r\u{1f}"),
        "{\"id\":4,\"username\":\"\\u0001\\b\\f\\r\\u001f\"}"
    );
}

#[test]
fn encoder_output_reads_back_with_independent_parser() {
    let users = vec![user(1, "a\"b\\c\n"), user(2, "plain")];
    let s = users_json_string(&users);
    let v: serde_json::Value = serde_json::from_str(&s).expect("encoder must emit valid JSON");
    let arr = v.as_array().expect("a listing is a JSON array");
    assert_eq!(arr.len(), 2);
    assert_eq!(arr[0]["id"].as_u64(), Some(1));
    assert_eq!(arr[0]["username"].as_str(), Some("a\"b\\c\n"));
    assert_eq!(arr[1]["id"].as_u64(), Some(2));
    assert_eq!(arr[1]["username"].as_str(), Some("plain"));
}

#[test]
fn parses_minimal_body() {
    assert_eq!(parse_create_user("{\"username\":\"alice\"}"), Some(String::from("alice")));
}

#[test]
fn parses_body_with_whitespace() {
    assert_eq!(
        parse_create_user(" \t\r\n{ \"username\" :\n\"bob\" } "),
        Some(String::from("bob"))
    );
}

#[test]
fn parses_escaped_username() {
    assert_eq!(
        parse_create_user("{\"username\":\"a\\nb\\\"c\\\\d\\/e\\t\\r\\b\\f\"}"),
        Some(String::from("a\nb\"c\\d/e\t\r\u{8}\u{c}"))
    );
}

#[test]
fn parses_empty_username() {
    assert_eq!(parse_create_user("{\"username\":\"\"}"), Some(String::from("")));
}

#[test]
fn parser_agrees_with_independent_reader_on_plain_body() {
    let body = "{ \"username\" : \"x y\" }";
    let ours = parse_create_user(body);
    let v: serde_json::Value = serde_json::from_str(body).unwrap();
    assert_eq!(ours.as_deref(), v["username"].as_str());
}

#[test]
fn rejects_missing_username_member() {
    assert_eq!(parse_create_user("{}"), None);
    assert_eq!(parse_create_user("{\"user\":\"a\"}"), None);
    assert_eq!(parse_create_user("{\"Username\":\"a\"}"), None);
}

#[test]
fn rejects_wrong_value_type() {
    assert_eq!(parse_create_user("{\"username\":1}"), None);
    assert_eq!(parse_create_user("{\"username\":null}"), None);
    assert_eq!(parse_create_user("{\"username\":[\"a\"]}"), None);
}

#[test]
fn rejects_non_object_bodies() {
    assert_eq!(parse_create_user(""), None);
    assert_eq!(parse_create_user("[]"), None);
    assert_eq!(parse_create_user("null"), None);
    assert_eq!(parse_create_user("\"username\""), None);
}

#[test]
fn rejects_unterminated_and_trailing_input() {
    assert_eq!(parse_create_user("{\"username\":\"a\""), None);
    assert_eq!(parse_create_user("{\"username\":\"a\"}x"), None);
    assert_eq!(parse_create_user("{\"username\":\"a\"} {}"), None);
}

#[test]
fn rejects_bad_escapes_and_bare_controls() {
    assert_eq!(parse_create_user("{\"username\":\"a\\x\"}"), None);
    assert_eq!(parse_create_user("{\"username\":\"a\nb\"}"), None);
}

#[test]
fn parses_unicode_escapes() {
    assert_eq!(
        parse_create_user("{\"username\":\"Jos\\u00e9\"}"),
        Some(String::from("Jos\u{e9}"))
    );
    assert_eq!(
        parse_create_user("{\"username\":\"\\u0041\\u00E9\\u20ac\"}"),
        Some(String::from("A\u{e9}\u{20ac}"))
    );
    assert_eq!(
        parse_create_user("{\"username\":\"\\ud83d\\ude00\"}"),
        Some(String::from("\u{1f600}"))
    );
    assert_eq!(parse_create_user("{\"username\":\"\\u0001\"}"), Some(String::from("\u{1}")));
}

#[test]
fn rejects_broken_unicode_escapes() {
    assert_eq!(parse_create_user("{\"username\":\"\\udc00\"}"), None);
    assert_eq!(parse_create_user("{\"username\":\"\\ud800\"}"), None);
    assert_eq!(parse_create_user("{\"username\":\"\\ud800\\u0041\"}"), None);
    assert_eq!(parse_create_user("{\"username\":\"\\ud800x\"}"), None);
    assert_eq!(parse_create_user("{\"username\":\"\\u00g1\"}"), None);
    assert_eq!(parse_create_user("{\"username\":\"\\u00\"}"), None);
}

#[test]
fn ignores_unknown_members() {
    assert_eq!(
        parse_create_user("{\"id\":1,\"username\":\"a\"}"),
        Some(String::from("a"))
    );
    assert_eq!(
        parse_create_user("{\"username\":\"a\",\"id\":1}"),
        Some(String::from("a"))
    );
    assert_eq!(
        parse_create_user(
            "{ \"extra\" : {\"x\": [1, -2.5e3, true, null, \"s\\u0041\", {}] } , \"username\" : \"a\" , \"more\" : [] }"
        ),
        Some(String::from("a"))
    );
    assert_eq!(
        parse_create_user("{\"x\":\"\\ud800\",\"username\":\"a\"}"),
        Some(String::from("a"))
    );
}

#[test]
fn matches_member_name_after_decoding() {
    assert_eq!(
        parse_create_user("{\"usern\\u0061me\":\"a\"}"),
        Some(String::from("a"))
    );
    assert_eq!(parse_create_user("{\"usern\\u0061mx\":\"a\"}"), None);
}

#[test]
fn rejects_duplicate_username_member() {
    assert_eq!(parse_create_user("{\"username\":\"a\",\"username\":\"b\"}"), None);
    assert_eq!(parse_create_user("{\"username\":\"a\",\"usern\\u0061me\":\"b\"}"), None);
}

#[test]
fn rejects_malformed_skipped_values() {
    assert_eq!(parse_create_user("{\"x\":01,\"username\":\"a\"}"), None);
    assert_eq!(parse_create_user("{\"x\":-,\"username\":\"a\"}"), None);
    assert_eq!(parse_create_user("{\"x\":1e,\"username\":\"a\"}"), None);
    assert_eq!(parse_create_user("{\"x\":[1,,2],\"username\":\"a\"}"), None);
    assert_eq!(parse_create_user("{\"x\":{\"y\":},\"username\":\"a\"}"), None);
    assert_eq!(parse_create_user("{\"x\":tru,\"username\":\"a\"}"), None);
    assert_eq!(parse_create_user("{\"x\":\"\\uZZZZ\",\"username\":\"a\"}"), None);
}

#[test]
fn parser_agrees_with_independent_reader_on_escaped_body() {
    for body in [
        "{\"username\":\"Jos\\u00e9\"}",
        "{\"username\":\"\\ud83d\\ude00\"}",
        "{ \"skip\": [1, {\"k\": \"v\"}, false], \"username\": \"x\" }",
    ] {
        let ours = parse_create_user(body);
        let v: serde_json::Value = serde_json::from_str(body).unwrap();
        assert_eq!(ours.as_deref(), v["username"].as_str());
    }
}
