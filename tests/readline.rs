use promkit::event::{Event, KeyCode, KeyEvent, KeyModifiers, CONTROL, NONE};
use promkit::readline::{Action, EventHandler, History, KeyBind, Readline, Signal, Suggest};
use promkit::switcher::ActiveKeySwitcher;
use promkit::text_editor::{Mode, TextEditor};

fn key(code: KeyCode) -> Event {
    Event::Key(KeyEvent::new(code, KeyModifiers(NONE)))
}

fn ctrl(c: char) -> Event {
    Event::Key(KeyEvent::new(KeyCode::Char(c), KeyModifiers(CONTROL)))
}

fn state() -> Readline {
    Readline {
        editor: TextEditor::default(),
        edit_mode: Mode::Insert,
        history: History::new(),
        suggest: Suggest::new(vec![
            "banana".to_string(),
            "apricot".to_string(),
            "apple".to_string(),
        ]),
    }
}

fn text(r: &Readline) -> String {
    r.editor.text_without_cursor().to_string()
}

#[test]
fn default_bindings() {
    let b = KeyBind::default();
    assert_eq!(b.handle(&KeyEvent::new(KeyCode::Enter, KeyModifiers(NONE))), Some(Action::Enter));
    assert_eq!(
        b.handle(&KeyEvent::new(KeyCode::Char('c'), KeyModifiers(CONTROL))),
        Some(Action::Interrupt)
    );
    assert_eq!(b.handle(&KeyEvent::new(KeyCode::Char('c'), KeyModifiers(NONE))), None);
    assert_eq!(b.event_mapping.len(), 11);
}

#[test]
fn assign_replaces_a_binding() {
    let mut b = KeyBind::default();
    let enter = KeyEvent::new(KeyCode::Enter, KeyModifiers(NONE));
    b.assign(enter, Action::EraseAll);
    assert_eq!(b.handle(&enter), Some(Action::EraseAll));
    assert_eq!(b.handle(&KeyEvent::new(KeyCode::Tab, KeyModifiers(NONE))), Some(Action::Complete));
    assert_eq!(KeyBind::new().handle(&enter), None);
}

#[test]
fn typing_and_finishing() {
    let handler = EventHandler { keybind: KeyBind::default() };
    let mut r = state();
    for c in "hey".chars() {
        assert_eq!(handler.handle_event(&key(KeyCode::Char(c)), &mut r, 80), Signal::Continue);
    }
    assert_eq!(text(&r), "hey");
    handler.handle_event(&key(KeyCode::Left), &mut r, 80);
    handler.handle_event(&key(KeyCode::Backspace), &mut r, 80);
    assert_eq!(text(&r), "hy");
    handler.handle_event(&ctrl('a'), &mut r, 80);
    assert_eq!(r.editor.position(), 0);
    handler.handle_event(&ctrl('e'), &mut r, 80);
    assert_eq!(r.editor.position(), 2);
    assert_eq!(handler.handle_event(&key(KeyCode::Enter), &mut r, 80), Signal::Quit);
    assert_eq!(handler.handle_event(&ctrl('c'), &mut r, 80), Signal::Cancel);
    handler.handle_event(&ctrl('u'), &mut r, 80);
    assert_eq!(text(&r), "");
}

#[test]
fn overwrite_mode_and_width_limit() {
    let handler = EventHandler { keybind: KeyBind::default() };
    let mut r = state();
    for c in "abc".chars() {
        handler.handle_event(&key(KeyCode::Char(c)), &mut r, 3);
    }
    handler.handle_event(&key(KeyCode::Char('d')), &mut r, 3);
    assert_eq!(text(&r), "abc");
    r.edit_mode = Mode::Overwrite;
    handler.handle_event(&ctrl('a'), &mut r, 10);
    handler.handle_event(&key(KeyCode::Char('x')), &mut r, 10);
    assert_eq!(text(&r), "xbc");
    handler.handle_event(&ctrl('x'), &mut r, 10);
    handler.handle_event(&Event::Resize(10, 10), &mut r, 10);
    assert_eq!(text(&r), "xbc");
}

#[test]
fn history_walks_entries() {
    let handler = EventHandler { keybind: KeyBind::default() };
    let mut r = state();
    r.history.insert("first");
    r.history.insert("");
    r.history.insert("second");
    assert_eq!(r.history.cursor.contents.len(), 3);
    handler.handle_event(&key(KeyCode::Up), &mut r, 80);
    assert_eq!(text(&r), "second");
    handler.handle_event(&key(KeyCode::Up), &mut r, 80);
    assert_eq!(text(&r), "first");
    handler.handle_event(&key(KeyCode::Up), &mut r, 80);
    assert_eq!(text(&r), "first");
    handler.handle_event(&key(KeyCode::Down), &mut r, 80);
    handler.handle_event(&key(KeyCode::Down), &mut r, 80);
    assert_eq!(text(&r), "");
    assert_eq!(r.history.get(), "");
}

#[test]
fn completion_takes_the_first_match_in_order() {
    let handler = EventHandler { keybind: KeyBind::default() };
    let mut r = state();
    handler.handle_event(&key(KeyCode::Char('a')), &mut r, 80);
    handler.handle_event(&key(KeyCode::Tab), &mut r, 80);
    assert_eq!(text(&r), "apple");
    assert_eq!(r.editor.position(), 5);
    let mut r = state();
    handler.handle_event(&key(KeyCode::Char('z')), &mut r, 80);
    handler.handle_event(&key(KeyCode::Tab), &mut r, 80);
    assert_eq!(text(&r), "z");
}

#[test]
fn suggest_search() {
    let s = Suggest::new(vec!["rust".to_string(), "ruby".to_string(), "go".to_string()]);
    assert_eq!(s.search("ru"), Some("ruby".to_string()));
    assert_eq!(s.search(""), Some("go".to_string()));
    assert_eq!(s.search("py"), None);
    assert_eq!(s.search("rust"), Some("rust".to_string()));
}

#[test]
fn keymap_switcher_registers_and_activates() {
    let mut s = ActiveKeySwitcher::new("default", KeyBind::default());
    let mut search = KeyBind::new();
    search.assign(KeyEvent::new(KeyCode::Enter, KeyModifiers(NONE)), Action::Complete);
    s.register("search", search);
    let enter = KeyEvent::new(KeyCode::Enter, KeyModifiers(NONE));
    assert_eq!(s.get().handle(&enter), Some(Action::Enter));
    assert!(s.activate("search"));
    assert_eq!(s.get().handle(&enter), Some(Action::Complete));
    assert!(!s.activate("missing"));
    assert_eq!(s.active, "search");
    s.register("search", KeyBind::new());
    assert_eq!(s.get().handle(&enter), None);
}
