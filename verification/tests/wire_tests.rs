use line_oauth::models::Profile;
use line_oauth::wire::{profile_from_json, profile_to_json};

fn profile(user_id: &str, display_name: &str, picture_url: &str, status_message: &str) -> Profile {
    Profile::new(
        user_id.to_string(),
        display_name.to_string(),
        picture_url.to_string(),
        status_message.to_string(),
    )
}

fn assert_same(a: &Profile, b: &Profile) {
    assert_eq!(a.user_id(), b.user_id());
    assert_eq!(a.display_name(), b.display_name());
    assert_eq!(a.picture_url(), b.picture_url());
    assert_eq!(a.status_message(), b.status_message());
}

#[test]
fn renders_expected_wire_form() {
    let p = profile("U1", "Alice", "http://x/p.png", "hi");
    assert_eq!(
        profile_to_json(&p),
        "{\"userId\":\"U1\",\"displayName\":\"Alice\",\"pictureUrl\":\"http://x/p.png\",\"statusMessage\":\"hi\"}"
    );
}

#[test]
fn renders_escapes() {
    let p = profile("U1", "A\"B", "http://x/a\\b", "line1\nline2");
    assert_eq!(
        profile_to_json(&p),
        "{\"userId\":\"U1\",\"displayName\":\"A\\\"B\",\"pictureUrl\":\"http://x/a\\\\b\",\"statusMessage\":\"line1\\u000aline2\"}"
    );
}

#[test]
fn parses_rendered_profile() {
    let json = "{\"userId\":\"U1\",\"displayName\":\"Alice\",\"pictureUrl\":\"http://x/p.png\",\"statusMessage\":\"hi\"}";
    let p = profile_from_json(json).unwrap();
    assert_same(&p, &profile("U1", "Alice", "http://x/p.png", "hi"));
}

#[test]
fn round_trip_plain() {
    let p = profile("U1", "Alice", "http://x/p.png", "hi");
    let back = profile_from_json(&profile_to_json(&p)).unwrap();
    assert_same(&p, &back);
}

#[test]
fn round_trip_with_escapes_and_unicode() {
    let p = profile(
        "id-\"quoted\"",
        "back\\slash",
        "http://x/?q=1&r=2",
        "tab\there\nand\u{1}control\u{1F600}",
    );
    let back = profile_from_json(&profile_to_json(&p)).unwrap();
    assert_same(&p, &back);
}

#[test]
fn round_trip_empty_fields() {
    let p = profile("", "", "", "");
    let back = profile_from_json(&profile_to_json(&p)).unwrap();
    assert_same(&p, &back);
}

#[test]
fn parses_short_escapes() {
    let json = "{\"userId\":\"a\\nb\",\"displayName\":\"c\\td\",\"pictureUrl\":\"e\\/f\",\"statusMessage\":\"g\\\"h\"}";
    let p = profile_from_json(json).unwrap();
    assert_eq!(p.user_id(), "a\nb");
    assert_eq!(p.display_name(), "c\td");
    assert_eq!(p.picture_url(), "e/f");
    assert_eq!(p.status_message(), "g\"h");
}

#[test]
fn rejects_malformed_objects() {
    assert!(profile_from_json("").is_none());
    assert!(profile_from_json("{}").is_none());
    assert!(profile_from_json("{\"userId\":\"U1\"}").is_none());
    // a missing colon
    assert!(profile_from_json(
        "{\"displayName\" \"Alice\",\"userId\":\"U1\",\"pictureUrl\":\"p\",\"statusMessage\":\"s\"}"
    )
    .is_none());
    // an unterminated string
    assert!(profile_from_json("{\"userId\":\"U1").is_none());
    // a dangling escape
    assert!(profile_from_json(
        "{\"userId\":\"U1\\x\",\"displayName\":\"A\",\"pictureUrl\":\"p\",\"statusMessage\":\"s\"}"
    )
    .is_none());
    // trailing garbage after the closing brace
    assert!(profile_from_json(
        "{\"userId\":\"U1\",\"displayName\":\"A\",\"pictureUrl\":\"p\",\"statusMessage\":\"s\"} x"
    )
    .is_none());
    // a duplicated member
    assert!(profile_from_json(
        "{\"userId\":\"U1\",\"userId\":\"U2\",\"displayName\":\"A\",\"pictureUrl\":\"p\",\"statusMessage\":\"s\"}"
    )
    .is_none());
    // a lone high surrogate escape
    assert!(profile_from_json(
        "{\"userId\":\"\\uD83Dx\",\"displayName\":\"A\",\"pictureUrl\":\"p\",\"statusMessage\":\"s\"}"
    )
    .is_none());
    // an unknown member with a non-string value
    assert!(profile_from_json(
        "{\"userId\":\"U1\",\"displayName\":\"A\",\"pictureUrl\":\"p\",\"statusMessage\":\"s\",\"n\":1}"
    )
    .is_none());
}

#[test]
fn parses_whitespace_and_any_member_order() {
    let json = " {\n  \"statusMessage\" : \"hi\" ,\n  \"pictureUrl\": \"http://x/p.png\",\n  \"displayName\":\"Alice\" ,\"userId\" : \"U1\"\n}\t";
    let p = profile_from_json(json).unwrap();
    assert_same(&p, &profile("U1", "Alice", "http://x/p.png", "hi"));
}

#[test]
fn skips_unknown_string_members() {
    let json = "{\"language\":\"en\",\"userId\":\"U1\",\"displayName\":\"Alice\",\"pictureUrl\":\"p\",\"extra\":\"zz\",\"statusMessage\":\"hi\"}";
    let p = profile_from_json(json).unwrap();
    assert_same(&p, &profile("U1", "Alice", "p", "hi"));
}

#[test]
fn parses_full_unicode_escapes() {
    // a BMP escape and a surrogate pair
    let json = "{\"userId\":\"\\u0041b\",\"displayName\":\"\\uD83D\\uDE00\",\"pictureUrl\":\"p\",\"statusMessage\":\"\\u00e9\"}";
    let p = profile_from_json(json).unwrap();
    assert_eq!(p.user_id(), "Ab");
    assert_eq!(p.display_name(), "\u{1F600}");
    assert_eq!(p.status_message(), "\u{e9}");
}
