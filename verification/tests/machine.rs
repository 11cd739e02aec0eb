use json_editor::app::App;
use json_editor::app::CurrentScreen;
use json_editor::app::CurrentlyEditing;
use json_editor::app::KeyPress;
use json_editor::app::Signal;

fn type_text(app: &mut App, text: &str) {
    for c in text.chars() {
        let sig = app.handle_key(KeyPress::Char(c));
        assert_eq!(sig, Signal::Continue);
    }
}

#[test]
fn starts_on_main_with_everything_empty() {
    let app = App::new();
    assert_eq!(app.current_screen, CurrentScreen::Main);
    assert_eq!(app.currently_editing, None);
    assert_eq!(app.key_input, "");
    assert_eq!(app.value_input, "");
    assert_eq!(app.pairs.len(), 0);
}

#[test]
fn commit_one_pair() {
    // `e` enters Editing on the Key field; "name", Tab, "bob", Enter
    // commits {"name": "bob"} and returns to Main.
    let mut app = App::new();
    app.handle_key(KeyPress::Char('e'));
    assert_eq!(app.current_screen, CurrentScreen::Editing);
    assert_eq!(app.currently_editing, Some(CurrentlyEditing::Key));
    type_text(&mut app, "name");
    assert_eq!(app.key_input, "name");
    app.handle_key(KeyPress::Tab);
    assert_eq!(app.currently_editing, Some(CurrentlyEditing::Value));
    type_text(&mut app, "bob");
    assert_eq!(app.value_input, "bob");
    app.handle_key(KeyPress::Enter);
    assert_eq!(app.current_screen, CurrentScreen::Main);
    assert_eq!(app.currently_editing, None);
    assert_eq!(app.key_input, "");
    assert_eq!(app.value_input, "");
    assert_eq!(app.pairs.len(), 1);
    assert_eq!(app.pairs[0].0, "name");
    assert_eq!(app.pairs[0].1, "bob");
}

#[test]
fn quit_and_deny_does_not_emit() {
    let mut app = App::new();
    let sig = app.handle_key(KeyPress::Char('q'));
    assert_eq!(sig, Signal::Continue);
    assert_eq!(app.current_screen, CurrentScreen::Exiting);
    let sig = app.handle_key(KeyPress::Char('n'));
    assert_eq!(sig, Signal::Terminate(false));
}

#[test]
fn quit_and_confirm_emits() {
    let mut app = App::new();
    app.handle_key(KeyPress::Char('q'));
    assert_eq!(app.current_screen, CurrentScreen::Exiting);
    let sig = app.handle_key(KeyPress::Char('y'));
    assert_eq!(sig, Signal::Terminate(true));
    assert_eq!(app.serialize().unwrap(), "{}");
}

#[test]
fn backspace_on_empty_key_is_a_no_op() {
    let mut app = App::new();
    app.handle_key(KeyPress::Char('e'));
    type_text(&mut app, "a");
    assert_eq!(app.key_input, "a");
    app.handle_key(KeyPress::Backspace);
    assert_eq!(app.key_input, "");
    let sig = app.handle_key(KeyPress::Backspace);
    assert_eq!(sig, Signal::Continue);
    assert_eq!(app.key_input, "");
    assert_eq!(app.current_screen, CurrentScreen::Editing);
}

#[test]
fn backspace_trims_the_value_field() {
    let mut app = App::new();
    app.handle_key(KeyPress::Char('e'));
    app.handle_key(KeyPress::Tab);
    type_text(&mut app, "bob");
    app.handle_key(KeyPress::Backspace);
    assert_eq!(app.value_input, "bo");
}

#[test]
fn second_commit_with_same_key_overwrites() {
    let mut app = App::new();
    app.handle_key(KeyPress::Char('e'));
    type_text(&mut app, "k");
    app.handle_key(KeyPress::Tab);
    type_text(&mut app, "first");
    app.handle_key(KeyPress::Enter);
    app.handle_key(KeyPress::Char('e'));
    type_text(&mut app, "k");
    app.handle_key(KeyPress::Tab);
    type_text(&mut app, "second");
    app.handle_key(KeyPress::Enter);
    assert_eq!(app.pairs.len(), 1);
    assert_eq!(app.pairs[0].0, "k");
    assert_eq!(app.pairs[0].1, "second");
}

#[test]
fn tab_twice_restores_the_field() {
    let mut app = App::new();
    app.handle_key(KeyPress::Char('e'));
    assert_eq!(app.currently_editing, Some(CurrentlyEditing::Key));
    app.handle_key(KeyPress::Tab);
    assert_eq!(app.currently_editing, Some(CurrentlyEditing::Value));
    app.handle_key(KeyPress::Tab);
    assert_eq!(app.currently_editing, Some(CurrentlyEditing::Key));
}

#[test]
fn toggle_with_no_field_defaults_to_key() {
    let mut app = App::new();
    assert_eq!(app.currently_editing, None);
    app.toggle_editing();
    assert_eq!(app.currently_editing, Some(CurrentlyEditing::Key));
}

#[test]
fn ignored_keys_change_nothing_on_main() {
    let mut app = App::new();
    for key in [KeyPress::Char('z'), KeyPress::Enter, KeyPress::Backspace, KeyPress::Tab, KeyPress::Other] {
        let sig = app.handle_key(key);
        assert_eq!(sig, Signal::Continue);
        assert_eq!(app.current_screen, CurrentScreen::Main);
        assert_eq!(app.currently_editing, None);
        assert_eq!(app.key_input, "");
        assert_eq!(app.value_input, "");
        assert_eq!(app.pairs.len(), 0);
    }
}

#[test]
fn ignored_keys_change_nothing_on_exiting() {
    let mut app = App::new();
    app.handle_key(KeyPress::Char('q'));
    for key in [KeyPress::Char('x'), KeyPress::Enter, KeyPress::Backspace, KeyPress::Tab, KeyPress::Other] {
        let sig = app.handle_key(key);
        assert_eq!(sig, Signal::Continue);
        assert_eq!(app.current_screen, CurrentScreen::Exiting);
    }
}

#[test]
fn enter_on_key_field_moves_to_value_without_commit() {
    let mut app = App::new();
    app.handle_key(KeyPress::Char('e'));
    type_text(&mut app, "k");
    app.handle_key(KeyPress::Enter);
    assert_eq!(app.currently_editing, Some(CurrentlyEditing::Value));
    assert_eq!(app.current_screen, CurrentScreen::Editing);
    assert_eq!(app.pairs.len(), 0);
    assert_eq!(app.key_input, "k");
}

#[test]
fn committing_an_empty_key_is_allowed() {
    let mut app = App::new();
    app.handle_key(KeyPress::Char('e'));
    app.handle_key(KeyPress::Enter);
    app.handle_key(KeyPress::Enter);
    assert_eq!(app.current_screen, CurrentScreen::Main);
    assert_eq!(app.pairs.len(), 1);
    assert_eq!(app.pairs[0].0, "");
    assert_eq!(app.pairs[0].1, "");
}

#[test]
fn field_is_set_only_while_editing() {
    let mut app = App::new();
    assert_eq!(app.currently_editing, None);
    app.handle_key(KeyPress::Char('e'));
    assert!(app.currently_editing.is_some());
    app.handle_key(KeyPress::Enter);
    app.handle_key(KeyPress::Enter);
    assert_eq!(app.current_screen, CurrentScreen::Main);
    assert_eq!(app.currently_editing, None);
    app.handle_key(KeyPress::Char('q'));
    assert_eq!(app.current_screen, CurrentScreen::Exiting);
    assert_eq!(app.currently_editing, None);
}
