use chord_depth::session::{tuning_from_words, App, InputMode, KeyInput};

fn words(s: &[&str]) -> Vec<String> {
    s.iter().map(|w| w.to_string()).collect()
}

#[test]
fn new_session() {
    let app = App::new();
    assert_eq!(app.progression, words(&["Fm9", "C/Bb", "G13", "Dbdim7"]));
    assert_eq!(app.tuning, vec![0, 7, 2, 7, 9, 2]);
    assert_eq!(app.tuning_input, "C G D G A D");
    assert_eq!(app.key, 0);
    assert_eq!(app.input_mode, InputMode::Chord);
    assert!(app.input.is_empty());
}

#[test]
fn tuning_needs_six_words() {
    assert_eq!(tuning_from_words(&words(&["E", "A", "D", "G", "B", "E"])), Some(vec![4, 9, 2, 7, 11, 4]));
    assert_eq!(tuning_from_words(&words(&["E", "A", "D", "G", "B"])), None);
    assert_eq!(tuning_from_words(&words(&["Eb", "Ab", "Db", "Gb", "Bb", "Q"])), Some(vec![3, 8, 1, 6, 10, 0]));
}

#[test]
fn submit_takes_both_lines() {
    let mut app = App::new();
    app.input = "  Am7   D7 ".to_string();
    app.tuning_input = "D A D G B E".to_string();
    app.submit();
    assert_eq!(app.progression, words(&["Am7", "D7"]));
    assert!(app.input.is_empty());
    assert_eq!(app.tuning, vec![2, 9, 2, 7, 11, 4]);
}

#[test]
fn submit_keeps_what_is_not_given() {
    let mut app = App::new();
    app.tuning_input = "E A D".to_string();
    app.submit();
    assert_eq!(app.progression, words(&["Fm9", "C/Bb", "G13", "Dbdim7"]));
    assert_eq!(app.tuning, vec![0, 7, 2, 7, 9, 2]);
}

#[test]
fn keys_edit_and_move() {
    let mut app = App::new();
    assert!(!app.handle_key(KeyInput::Char('C')));
    assert!(!app.handle_key(KeyInput::Char('7')));
    assert!(!app.handle_key(KeyInput::Char('x')));
    assert!(!app.handle_key(KeyInput::Backspace));
    assert_eq!(app.input, "C7");
    assert!(!app.handle_key(KeyInput::Down));
    assert_eq!(app.key, 11);
    assert!(!app.handle_key(KeyInput::Up));
    assert!(!app.handle_key(KeyInput::Up));
    assert_eq!(app.key, 1);
    assert!(!app.handle_key(KeyInput::Enter));
    assert_eq!(app.progression, words(&["C7"]));
    assert!(app.input.is_empty());
    assert!(!app.handle_key(KeyInput::Backspace));
    assert!(app.input.is_empty());
}

#[test]
fn tab_switches_lines() {
    let mut app = App::new();
    assert!(!app.handle_key(KeyInput::Tab));
    assert_eq!(app.input_mode, InputMode::Tuning);
    assert!(!app.handle_key(KeyInput::Backspace));
    assert_eq!(app.tuning_input, "C G D G A ");
    assert!(!app.handle_key(KeyInput::Char('E')));
    assert!(!app.handle_key(KeyInput::Enter));
    assert_eq!(app.tuning, vec![0, 7, 2, 7, 9, 4]);
    assert!(!app.handle_key(KeyInput::Tab));
    assert_eq!(app.input_mode, InputMode::Chord);
    assert!(app.handle_key(KeyInput::Esc));
}
