use crossterm::event::{KeyCode, KeyEvent, KeyEventKind, KeyEventState, KeyModifiers};
use tally::counter::Answer;
use tally::dialogs::{
    counter_keys, get_character_choice, overwrite_keys, overwrite_prompt, Choice,
};
use tally::keys::{key, keycode, Input, Key, KeyKind, KeyMap, Keystroke, CONTROL, SHIFT};

fn event_of(k: &Keystroke) -> KeyEvent {
    KeyEvent::new_with_kind_and_state(
        match k.code {
            Key::Char(c) => KeyCode::Char(c),
            Key::Backspace => KeyCode::Backspace,
        },
        KeyModifiers::from_bits_retain(k.modifiers),
        match k.kind {
            KeyKind::Press => KeyEventKind::Press,
            KeyKind::Repeat => KeyEventKind::Repeat,
            KeyKind::Release => KeyEventKind::Release,
        },
        KeyEventState::from_bits_retain(k.state),
    )
}

fn settled(k: &Keystroke) -> (Key, u8, KeyKind, u8) {
    match k.code {
        Key::Char(c) if c.is_ascii_uppercase() => {
            (k.code, if k.modifiers % 2 == 1 { k.modifiers } else { k.modifiers + 1 }, k.kind, k.state)
        }
        Key::Char(c) if k.modifiers % 2 == 1 => {
            let upper: char = if ('a'..='z').contains(&c) {
                char::from_u32(c as u32 - 32).unwrap()
            } else {
                c
            };
            (Key::Char(upper), k.modifiers, k.kind, k.state)
        }
        _ => (k.code, k.modifiers, k.kind, k.state),
    }
}

fn sample_strokes() -> Vec<Keystroke> {
    let codes: [Key; 12] = [
        Key::Char('a'),
        Key::Char('A'),
        Key::Char('z'),
        Key::Char('Z'),
        Key::Char('q'),
        Key::Char('Q'),
        Key::Char('+'),
        Key::Char('='),
        Key::Char('é'),
        Key::Char('É'),
        Key::Char('ß'),
        Key::Backspace,
    ];
    let modifiers: [u8; 7] = [0, SHIFT, CONTROL, SHIFT + CONTROL, 4, 0x40, 0xff];
    let kinds: [KeyKind; 3] = [KeyKind::Press, KeyKind::Repeat, KeyKind::Release];
    let states: [u8; 3] = [0, 1, 0x80];
    let mut out: Vec<Keystroke> = Vec::new();
    for code in codes {
        for m in modifiers {
            for kind in kinds {
                for state in states {
                    out.push(Keystroke { code, modifiers: m, kind, state });
                }
            }
        }
    }
    out
}

#[test]
fn new_fills_in_a_press_without_state() {
    let k: Keystroke = Keystroke::new(Key::Char('c'), CONTROL);
    assert_eq!(k.code, Key::Char('c'));
    assert_eq!(k.modifiers, 2);
    assert_eq!(k.kind, KeyKind::Press);
    assert_eq!(k.state, 0);
}

#[test]
fn new_holds_what_the_terminal_library_puts_in_a_new_event() {
    let ours: Keystroke = Keystroke::new(Key::Char('c'), CONTROL);
    let theirs: KeyEvent = KeyEvent::new(KeyCode::Char('c'), KeyModifiers::CONTROL);
    assert_eq!(theirs.code, KeyCode::Char('c'));
    assert_eq!(theirs.modifiers.bits(), ours.modifiers);
    assert_eq!(theirs.kind, KeyEventKind::Press);
    assert_eq!(theirs.state.bits(), ours.state);
    assert_eq!(KeyModifiers::SHIFT.bits(), SHIFT);
    assert_eq!(KeyModifiers::CONTROL.bits(), CONTROL);
}

#[test]
fn key_and_keycode_hold_no_modifier() {
    assert_eq!(key('x').code, Key::Char('x'));
    assert_eq!(key('x').modifiers, 0);
    assert_eq!(keycode(Key::Backspace).code, Key::Backspace);
    assert_eq!(keycode(Key::Backspace).modifiers, 0);
    assert_eq!(keycode(Key::Backspace).kind, KeyKind::Press);
}

#[test]
fn upper_case_and_shifted_lower_case_are_one_key() {
    assert!(key('Y').is_same_key(&Keystroke::new(Key::Char('y'), SHIFT)));
    assert!(Keystroke::new(Key::Char('y'), SHIFT).is_same_key(&key('Y')));
    assert!(key('Y').is_same_key(&Keystroke::new(Key::Char('Y'), SHIFT)));
}

#[test]
fn lower_case_and_upper_case_are_two_keys() {
    assert!(!key('q').is_same_key(&key('Q')));
    assert!(!key('+').is_same_key(&Keystroke::new(Key::Char('+'), SHIFT)));
    assert!(!key('c').is_same_key(&Keystroke::new(Key::Char('c'), CONTROL)));
}

#[test]
fn a_release_is_not_a_press() {
    let press: Keystroke = key('q');
    let release: Keystroke = Keystroke { kind: KeyKind::Release, ..press };
    let keypad: Keystroke = Keystroke { state: 1, ..press };
    assert!(!press.is_same_key(&release));
    assert!(!press.is_same_key(&keypad));
    assert!(release.is_same_key(&release));
}

#[test]
fn same_key_is_equality_of_settled_strokes() {
    let strokes: Vec<Keystroke> = sample_strokes();
    for a in &strokes {
        for b in &strokes {
            assert_eq!(a.is_same_key(b), settled(a) == settled(b), "{:?} {:?}", a, b);
            assert_eq!(a.is_same_key(b), event_of(a) == event_of(b), "{:?} {:?}", a, b);
        }
    }
}

#[test]
fn an_empty_map_binds_nothing() {
    let keys: KeyMap<u8> = KeyMap::new();
    assert_eq!(keys.get(&key('a')), None);
}

#[test]
fn a_later_binding_replaces_an_earlier_one() {
    let mut keys: KeyMap<u8> = KeyMap::new();
    keys.bind(key('a'), 1);
    keys.bind(key('b'), 2);
    keys.bind(key('a'), 3);
    assert_eq!(keys.get(&key('a')), Some(&3));
    assert_eq!(keys.get(&key('b')), Some(&2));
    assert_eq!(keys.get(&key('c')), None);
    keys.bind(key('A'), 4);
    keys.bind(Keystroke::new(Key::Char('a'), SHIFT), 5);
    assert_eq!(keys.get(&key('A')), Some(&5));
    assert_eq!(keys.get(&key('a')), Some(&3));
}

#[test]
fn counter_keys_count_up() {
    let keys: KeyMap<Choice> = counter_keys();
    assert_eq!(keys.get(&key('+')), Some(&Choice::Increment));
    assert_eq!(keys.get(&key('=')), Some(&Choice::Increment));
    assert_eq!(keys.get(&key(' ')), Some(&Choice::Increment));
}

#[test]
fn counter_keys_count_down() {
    let keys: KeyMap<Choice> = counter_keys();
    assert_eq!(keys.get(&key('-')), Some(&Choice::Decrement));
    assert_eq!(keys.get(&key('_')), Some(&Choice::Decrement));
    assert_eq!(keys.get(&keycode(Key::Backspace)), Some(&Choice::Decrement));
}

#[test]
fn counter_keys_quit() {
    let keys: KeyMap<Choice> = counter_keys();
    assert_eq!(keys.get(&key('q')), Some(&Choice::Quit));
    assert_eq!(keys.get(&key('Q')), Some(&Choice::Quit));
    assert_eq!(keys.get(&Keystroke::new(Key::Char('q'), SHIFT)), Some(&Choice::Quit));
    assert_eq!(keys.get(&Keystroke::new(Key::Char('c'), CONTROL)), Some(&Choice::Quit));
}

#[test]
fn counter_keys_ignore_other_keys() {
    let keys: KeyMap<Choice> = counter_keys();
    assert_eq!(keys.get(&key('c')), None);
    assert_eq!(keys.get(&key('y')), None);
    assert_eq!(keys.get(&Keystroke::new(Key::Char('q'), CONTROL)), None);
    assert_eq!(keys.get(&Keystroke::new(Key::Backspace, SHIFT)), None);
    assert_eq!(keys.get(&Keystroke { kind: KeyKind::Release, ..key('+') }), None);
}

#[test]
fn overwrite_keys_answer() {
    let keys: KeyMap<Answer> = overwrite_keys();
    assert_eq!(keys.get(&key('y')), Some(&Answer::Yes));
    assert_eq!(keys.get(&key('Y')), Some(&Answer::Yes));
    assert_eq!(keys.get(&key('n')), Some(&Answer::No));
    assert_eq!(keys.get(&key('N')), Some(&Answer::No));
    assert_eq!(keys.get(&key('q')), Some(&Answer::Quit));
    assert_eq!(keys.get(&key('Q')), Some(&Answer::Quit));
    assert_eq!(keys.get(&Keystroke::new(Key::Char('c'), CONTROL)), Some(&Answer::Quit));
    assert_eq!(keys.get(&key('+')), None);
    assert_eq!(keys.get(&keycode(Key::Backspace)), None);
}

#[test]
fn overwrite_prompt_asks_the_question() {
    assert_eq!(
        overwrite_prompt(),
        "File contains non-counter data. Use anyway? (data will be lost!)  [y/n]"
    );
}

#[test]
fn a_dialog_hears_its_keys_only() {
    let keys: KeyMap<Choice> = counter_keys();
    assert_eq!(get_character_choice(&keys, &Input::Key(key('+'))), Some(&Choice::Increment));
    assert_eq!(get_character_choice(&keys, &Input::Key(key('x'))), None);
    assert_eq!(get_character_choice(&keys, &Input::Other), None);
}
