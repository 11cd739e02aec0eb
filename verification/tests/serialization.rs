use json_editor::app::App;
use json_editor::app::KeyPress;

fn commit_pair(app: &mut App, key: &str, value: &str) {
    app.handle_key(KeyPress::Char('e'));
    for c in key.chars() {
        app.handle_key(KeyPress::Char(c));
    }
    app.handle_key(KeyPress::Tab);
    for c in value.chars() {
        app.handle_key(KeyPress::Char(c));
    }
    app.handle_key(KeyPress::Enter);
}

#[test]
fn empty_pairs_serialize_to_the_empty_object() {
    let app = App::new();
    assert_eq!(app.serialize().unwrap(), "{}");
}

#[test]
fn one_pair_serializes_exactly() {
    let mut app = App::new();
    commit_pair(&mut app, "name", "bob");
    assert_eq!(app.serialize().unwrap(), "{\"name\":\"bob\"}");
}

#[test]
fn two_pairs_are_separated_by_a_comma() {
    let mut app = App::new();
    commit_pair(&mut app, "a", "1");
    commit_pair(&mut app, "b", "2");
    assert_eq!(app.serialize().unwrap(), "{\"a\":\"1\",\"b\":\"2\"}");
}

#[test]
fn empty_key_and_value_serialize_exactly() {
    let mut app = App::new();
    commit_pair(&mut app, "", "");
    assert_eq!(app.serialize().unwrap(), "{\"\":\"\"}");
}

#[test]
fn quotes_and_backslashes_are_escaped() {
    let mut app = App::new();
    commit_pair(&mut app, "a\"b", "c\\d");
    assert_eq!(app.serialize().unwrap(), "{\"a\\\"b\":\"c\\\\d\"}");
}

#[test]
fn named_control_characters_use_short_escapes() {
    let mut app = App::new();
    commit_pair(&mut app, "k", "a\u{8}\t\n\u{c}\r");
    assert_eq!(app.serialize().unwrap(), "{\"k\":\"a\\b\\t\\n\\f\\r\"}");
}

#[test]
fn other_control_characters_use_unicode_escapes() {
    let mut app = App::new();
    commit_pair(&mut app, "k", "\u{1}\u{1f}");
    assert_eq!(app.serialize().unwrap(), "{\"k\":\"\\u0001\\u001f\"}");
}

#[test]
fn output_round_trips_through_a_json_parser() {
    let mut app = App::new();
    commit_pair(&mut app, "name", "bob");
    commit_pair(&mut app, "quote\"key", "back\\slash");
    commit_pair(&mut app, "ctl", "line\nbreak\ttab\u{1}");
    let text = app.serialize().unwrap();
    let value: serde_json::Value = serde_json::from_str(&text).unwrap();
    let object = value.as_object().unwrap();
    assert_eq!(object.len(), 3);
    assert_eq!(object.get("name").unwrap().as_str().unwrap(), "bob");
    assert_eq!(object.get("quote\"key").unwrap().as_str().unwrap(), "back\\slash");
    assert_eq!(object.get("ctl").unwrap().as_str().unwrap(), "line\nbreak\ttab\u{1}");
}

#[test]
fn output_matches_the_reference_encoder() {
    // serde_json writes a lone string with the same escaping rules, so
    // each member of the object must embed exactly its rendering.
    let mut app = App::new();
    commit_pair(&mut app, "k\u{7f}", "a\"b\\c\u{1e}\n");
    let expected_key = serde_json::to_string("k\u{7f}").unwrap();
    let expected_value = serde_json::to_string("a\"b\\c\u{1e}\n").unwrap();
    let expected = format!("{{{expected_key}:{expected_value}}}");
    assert_eq!(app.serialize().unwrap(), expected);
}
