//! The two dialogs: which keys each one listens to, and what they mean.

use crate::counter::Answer;
use crate::keys::{key, keycode, Input, Key, KeyKind, KeyMap, Keystroke, CONTROL, SHIFT};
use vstd::prelude::*;

verus! {

/// What the user asks of the counter.
#[derive(Clone, Copy, Debug, PartialEq, Eq, Structural)]
pub enum Choice {
    Increment,
    Decrement,
    Quit,
}

/// The keys of the counter: `+`, `=` and space count up; `-`, `_` and
/// backspace count down; `q`, `Q` and control-c quit.
pub open spec fn counter_bindings() -> Map<Keystroke, Choice> {
    Map::<Keystroke, Choice>::empty().insert(
        Keystroke::pressed(Key::Char('+'), 0).normalized(),
        Choice::Increment,
    ).insert(Keystroke::pressed(Key::Char('='), 0).normalized(), Choice::Increment).insert(
        Keystroke::pressed(Key::Char(' '), 0).normalized(),
        Choice::Increment,
    ).insert(Keystroke::pressed(Key::Char('-'), 0).normalized(), Choice::Decrement).insert(
        Keystroke::pressed(Key::Char('_'), 0).normalized(),
        Choice::Decrement,
    ).insert(Keystroke::pressed(Key::Backspace, 0).normalized(), Choice::Decrement).insert(
        Keystroke::pressed(Key::Char('q'), 0).normalized(),
        Choice::Quit,
    ).insert(Keystroke::pressed(Key::Char('Q'), 0).normalized(), Choice::Quit).insert(
        Keystroke::pressed(Key::Char('c'), CONTROL).normalized(),
        Choice::Quit,
    )
}

/// The keys of the question about a file that holds no count: `y` and `Y`
/// say yes; `n` and `N` say no; `q`, `Q` and control-c quit.
pub open spec fn overwrite_bindings() -> Map<Keystroke, Answer> {
    Map::<Keystroke, Answer>::empty().insert(
        Keystroke::pressed(Key::Char('y'), 0).normalized(),
        Answer::Yes,
    ).insert(Keystroke::pressed(Key::Char('Y'), 0).normalized(), Answer::Yes).insert(
        Keystroke::pressed(Key::Char('n'), 0).normalized(),
        Answer::No,
    ).insert(Keystroke::pressed(Key::Char('N'), 0).normalized(), Answer::No).insert(
        Keystroke::pressed(Key::Char('q'), 0).normalized(),
        Answer::Quit,
    ).insert(Keystroke::pressed(Key::Char('Q'), 0).normalized(), Answer::Quit).insert(
        Keystroke::pressed(Key::Char('c'), CONTROL).normalized(),
        Answer::Quit,
    )
}

/// What a key stroke means in a dialog with these bindings; `None` for a key
/// that the dialog does not listen to.
pub open spec fn meaning<T>(bindings: Map<Keystroke, T>, stroke: Keystroke) -> Option<T> {
    if bindings.contains_key(stroke.normalized()) {
        Some(bindings[stroke.normalized()])
    } else {
        None
    }
}

/// What a dialog with these bindings makes of an event: what the key stroke
/// means, if it is one; nothing of any other event.
pub open spec fn heard<T>(bindings: Map<Keystroke, T>, event: Input) -> Option<T> {
    match event {
        Input::Key(stroke) => meaning(bindings, stroke),
        Input::Other => None,
    }
}

/// What a key stroke asks of the counter, read off the stroke with its case
/// settled: only a press without keyboard state asks for anything.
pub open spec fn counter_choice(stroke: Keystroke) -> Option<Choice> {
    let settled = stroke.normalized();
    if settled.kind != KeyKind::Press || settled.state != 0 {
        None
    } else if settled.modifiers == 0 && (settled.code == Key::Char('+') || settled.code
        == Key::Char('=') || settled.code == Key::Char(' ')) {
        Some(Choice::Increment)
    } else if settled.modifiers == 0 && (settled.code == Key::Char('-') || settled.code
        == Key::Char('_') || settled.code == Key::Backspace) {
        Some(Choice::Decrement)
    } else if (settled.modifiers == 0 && settled.code == Key::Char('q')) || (settled.modifiers
        == SHIFT && settled.code == Key::Char('Q')) || (settled.modifiers == CONTROL
        && settled.code == Key::Char('c')) {
        Some(Choice::Quit)
    } else {
        None
    }
}

/// What a key stroke answers to the question about the file, read off the
/// stroke with its case settled.
pub open spec fn overwrite_answer(stroke: Keystroke) -> Option<Answer> {
    let settled = stroke.normalized();
    if settled.kind != KeyKind::Press || settled.state != 0 {
        None
    } else if (settled.modifiers == 0 && settled.code == Key::Char('y')) || (settled.modifiers
        == SHIFT && settled.code == Key::Char('Y')) {
        Some(Answer::Yes)
    } else if (settled.modifiers == 0 && settled.code == Key::Char('n')) || (settled.modifiers
        == SHIFT && settled.code == Key::Char('N')) {
        Some(Answer::No)
    } else if (settled.modifiers == 0 && settled.code == Key::Char('q')) || (settled.modifiers
        == SHIFT && settled.code == Key::Char('Q')) || (settled.modifiers == CONTROL
        && settled.code == Key::Char('c')) {
        Some(Answer::Quit)
    } else {
        None
    }
}

/// The keys of the counter mean what [`counter_choice`] reads off a stroke;
/// every other key stroke means nothing.
pub proof fn lemma_counter_keys(stroke: Keystroke)
    ensures
        meaning(counter_bindings(), stroke) == counter_choice(stroke),
{
}

/// The keys of the question mean what [`overwrite_answer`] reads off a
/// stroke; every other key stroke means nothing.
pub proof fn lemma_overwrite_keys(stroke: Keystroke)
    ensures
        meaning(overwrite_bindings(), stroke) == overwrite_answer(stroke),
{
}

/// The key map of the counter.
pub fn counter_keys() -> (keys: KeyMap<Choice>)
    ensures
        keys@ == counter_bindings(),
{
    let mut keys: KeyMap<Choice> = KeyMap::new();
    keys.bind(key('+'), Choice::Increment);
    keys.bind(key('='), Choice::Increment);
    keys.bind(key(' '), Choice::Increment);
    keys.bind(key('-'), Choice::Decrement);
    keys.bind(key('_'), Choice::Decrement);
    keys.bind(keycode(Key::Backspace), Choice::Decrement);
    keys.bind(key('q'), Choice::Quit);
    keys.bind(key('Q'), Choice::Quit);
    keys.bind(Keystroke::new(Key::Char('c'), CONTROL), Choice::Quit);
    keys
}

/// The key map of the question about a file that holds no count.
pub fn overwrite_keys() -> (keys: KeyMap<Answer>)
    ensures
        keys@ == overwrite_bindings(),
{
    let mut keys: KeyMap<Answer> = KeyMap::new();
    keys.bind(key('y'), Answer::Yes);
    keys.bind(key('Y'), Answer::Yes);
    keys.bind(key('n'), Answer::No);
    keys.bind(key('N'), Answer::No);
    keys.bind(key('q'), Answer::Quit);
    keys.bind(key('Q'), Answer::Quit);
    keys.bind(Keystroke::new(Key::Char('c'), CONTROL), Answer::Quit);
    keys
}

/// The question about a file that holds no count.
pub fn overwrite_prompt() -> (text: &'static str)
    ensures
        text@ == "File contains non-counter data. Use anyway? (data will be lost!)  [y/n]"@,
{
    "File contains non-counter data. Use anyway? (data will be lost!)  [y/n]"
}

/// What the dialog with the key map `keys` makes of one event: the value to go
/// on with, or `None` for an event that it does not listen to, after which the
/// prompt is shown again and the next event is awaited.
pub fn get_character_choice<'a, T>(keys: &'a KeyMap<T>, event: &Input) -> (r: Option<&'a T>)
    ensures
        match r {
            Some(value) => heard(keys@, *event) == Some(*value),
            None => heard(keys@, *event).is_none(),
        },
{
    match event {
        Input::Key(stroke) => keys.get(stroke),
        Input::Other => None,
    }
}

} // verus!
