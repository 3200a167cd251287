use diagram_editor::keybind::{Event, KeyCode, KeyEvent, KeyModifiers, KeySequence, ParseError};
use diagram_editor::keybind_manager::{BindingError, KeyBindManager};

#[test]
fn test_key_sequence_from_str() {
    // a plain lower-case letter
    assert_eq!(
        KeySequence::try_from("h").unwrap().0,
        vec![KeyEvent::new(KeyCode::Char('h'), KeyModifiers::empty())]
    );

    // an upper-case letter (Shift)
    assert_eq!(
        KeySequence::try_from("A").unwrap().0,
        vec![KeyEvent::new(KeyCode::Char('a'), KeyModifiers::shift())]
    );

    // Control
    assert_eq!(
        KeySequence::try_from("<C-h>").unwrap().0,
        vec![KeyEvent::new(KeyCode::Char('h'), KeyModifiers::control())]
    );

    // several keys in a row
    assert_eq!(
        KeySequence::try_from("gh<C-h>").unwrap().0,
        vec![
            KeyEvent::new(KeyCode::Char('g'), KeyModifiers::empty()),
            KeyEvent::new(KeyCode::Char('h'), KeyModifiers::empty()),
            KeyEvent::new(KeyCode::Char('h'), KeyModifiers::control()),
        ]
    );

    assert_eq!(
        KeySequence::try_from("<C-h>gh").unwrap().0,
        vec![
            KeyEvent::new(KeyCode::Char('h'), KeyModifiers::control()),
            KeyEvent::new(KeyCode::Char('g'), KeyModifiers::empty()),
            KeyEvent::new(KeyCode::Char('h'), KeyModifiers::empty()),
        ]
    );
}

fn key(c: char) -> Event {
    Event::Key(KeyEvent::new(KeyCode::Char(c), KeyModifiers::empty()))
}

#[test]
fn resolver_emits_after_the_last_key_of_a_sequence() {
    let mut manager = KeyBindManager::new(vec![("gh<C-h>", 7u32)]).unwrap();
    assert_eq!(manager.process_event(key('g')), None);
    assert_eq!(manager.process_event(key('h')), None);
    let last = Event::Key(KeyEvent::new(KeyCode::Char('h'), KeyModifiers::control()));
    assert_eq!(manager.process_event(last), Some(7));
    // the buffer is empty again: the sequence can be typed once more
    assert_eq!(manager.process_event(key('g')), None);
    assert_eq!(manager.process_event(key('h')), None);
    assert_eq!(manager.process_event(last), Some(7));
}

#[test]
fn resolver_drops_a_key_that_cannot_continue() {
    let mut manager = KeyBindManager::new(vec![("gh", 1u32), ("x", 2u32)]).unwrap();
    assert_eq!(manager.process_event(key('g')), None);
    // `x` does not continue `g`: both keys are dropped, `x` is not read again
    assert_eq!(manager.process_event(key('x')), None);
    assert_eq!(manager.process_event(key('x')), Some(2));
    assert_eq!(manager.process_event(Event::Other), None);
}

#[test]
fn resolver_reports_a_malformed_binding() {
    let r = KeyBindManager::new(vec![("h", 1u32), ("g<C-", 2u32), ("<", 3u32)]);
    let expected =
        BindingError { index: 1, text: "g<C-".to_string(), error: ParseError { position: 1 } };
    assert_eq!(r.err(), Some(expected));
}

#[test]
fn later_binding_of_the_same_sequence_counts() {
    let mut manager = KeyBindManager::new(vec![("A", 1u32), ("<S-a>", 2u32)]).unwrap();
    let shifted = Event::Key(KeyEvent::new(KeyCode::Char('A'), KeyModifiers::empty()));
    assert_eq!(manager.process_event(shifted), Some(2));
}

#[test]
fn grammar_reads_named_keys_and_modifiers() {
    let none = KeyModifiers::empty();
    assert_eq!(
        KeySequence::try_from("<Esc><CR><BS><Space><Up><Down><Left><Right><lt>").unwrap().0,
        vec![
            KeyEvent::new(KeyCode::Esc, none),
            KeyEvent::new(KeyCode::Enter, none),
            KeyEvent::new(KeyCode::Backspace, none),
            KeyEvent::new(KeyCode::Char(' '), none),
            KeyEvent::new(KeyCode::Up, none),
            KeyEvent::new(KeyCode::Down, none),
            KeyEvent::new(KeyCode::Left, none),
            KeyEvent::new(KeyCode::Right, none),
            KeyEvent::new(KeyCode::Char('<'), none),
        ]
    );
    assert_eq!(
        KeySequence::try_from("<C-S-M-Up>").unwrap().0,
        vec![KeyEvent::new(KeyCode::Up, KeyModifiers::from_bits(7))]
    );
    assert_eq!(
        KeySequence::try_from("<M-X>7").unwrap().0,
        vec![
            KeyEvent::new(KeyCode::Char('x'), KeyModifiers::alt()),
            KeyEvent::new(KeyCode::Char('7'), none),
        ]
    );
}

#[test]
fn grammar_rejects_what_is_no_key_sequence() {
    assert_eq!(KeySequence::try_from("").unwrap_err().position, 0);
    assert_eq!(KeySequence::try_from("ab-").unwrap_err().position, 2);
    assert_eq!(KeySequence::try_from("<a>").unwrap_err().position, 0);
    assert_eq!(KeySequence::try_from("h<Esc").unwrap_err().position, 1);
    assert_eq!(KeySequence::try_from("<C-Esc").unwrap_err().position, 0);
    assert_eq!(KeySequence::try_from("g<C->").unwrap_err().position, 1);
    assert_eq!(KeySequence::try_from("é").unwrap_err().position, 0);
    assert_eq!(KeySequence::parse_bytes(b"l<CR").unwrap_err(), ParseError { position: 1 });
}

#[test]
fn shift_and_upper_case_are_one_key() {
    let upper = KeyEvent::new(KeyCode::Char('A'), KeyModifiers::empty());
    let shifted = KeyEvent::new(KeyCode::Char('a'), KeyModifiers::shift());
    assert_eq!(upper, shifted);
    assert_eq!(upper.code(), KeyCode::Char('A'));
    assert_eq!(upper.modifiers(), KeyModifiers::shift());
    assert!(upper.same(&shifted));
    let plain = KeyEvent::new(KeyCode::Char('a'), KeyModifiers::empty());
    assert_ne!(plain, shifted);
    assert!(KeyModifiers::from_bits(3).contains(KeyModifiers::shift()));
    assert!(!KeyModifiers::control().contains(KeyModifiers::shift()));
    assert_eq!(KeyModifiers::control().union(KeyModifiers::alt()), KeyModifiers::from_bits(6));
}
