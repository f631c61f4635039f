//! Key strokes, and maps from key strokes to what they mean.
//!
//! A [`Keystroke`] holds as plain values what the terminal reports of one key
//! event. Two key strokes are the same key when the terminal library says
//! that their events are equal, which is looser than field by field: an upper
//! case letter and the same letter with the shift key held are one key.

use crossterm::event::{KeyCode, KeyEvent, KeyEventKind, KeyEventState, KeyModifiers};
use vstd::prelude::*;

verus! {

/// The modifier bit of the shift key.
pub const SHIFT: u8 = 1;

/// The modifier bit of the control key.
pub const CONTROL: u8 = 2;

/// The keys that can be bound.
#[derive(Clone, Copy, Debug, PartialEq, Eq, Structural)]
pub enum Key {
    /// A key that gives a character.
    Char(char),
    /// The backspace key.
    Backspace,
}

/// What happened to the key.
#[derive(Clone, Copy, Debug, PartialEq, Eq, Structural)]
pub enum KeyKind {
    Press,
    Repeat,
    Release,
}

/// One key event, as the terminal reports it.
#[derive(Clone, Copy, Debug)]
pub struct Keystroke {
    /// The key itself.
    pub code: Key,
    /// The modifier keys held with it, one bit each; bit 0 is shift, bit 1
    /// control.
    pub modifiers: u8,
    /// Whether the key went down, stayed down or came up.
    pub kind: KeyKind,
    /// The keyboard's state bits (keypad, caps lock, num lock).
    pub state: u8,
}

/// One event from the terminal.
#[derive(Clone, Copy, Debug)]
pub enum Input {
    /// A key event.
    Key(Keystroke),
    /// Anything else: the window changed its size, the mouse moved, text was
    /// pasted, or a key was used that [`Key`] has no name for.
    Other,
}

/// Whether `c` is one of the letters `A` to `Z`.
pub open spec fn is_upper(c: char) -> bool {
    65 <= c as u32 <= 90
}

/// The letters `a` to `z` in upper case; any other character as it is.
pub open spec fn to_upper(c: char) -> char {
    if 97 <= c as u32 <= 122 {
        ((c as u32) - 32) as char
    } else {
        c
    }
}

/// Whether the shift bit is set in `modifiers`.
pub open spec fn holds_shift(modifiers: u8) -> bool {
    modifiers % 2 == 1
}

/// `modifiers` with the shift bit set.
pub open spec fn with_shift(modifiers: u8) -> u8 {
    if holds_shift(modifiers) {
        modifiers
    } else {
        (modifiers + 1) as u8
    }
}

impl Keystroke {
    /// A press of `code` with `modifiers` held and no keyboard state.
    pub open spec fn pressed(code: Key, modifiers: u8) -> Keystroke {
        Keystroke { code, modifiers, kind: KeyKind::Press, state: 0 }
    }

    /// The key stroke with its case settled: an upper case letter counts as
    /// shifted, and a shifted character is taken in upper case.
    pub open spec fn normalized(self) -> Keystroke {
        match self.code {
            Key::Char(c) => if is_upper(c) {
                Keystroke { modifiers: with_shift(self.modifiers), ..self }
            } else if holds_shift(self.modifiers) {
                Keystroke { code: Key::Char(to_upper(c)), ..self }
            } else {
                self
            },
            Key::Backspace => self,
        }
    }

    /// Whether the two are the same key: equal once the case of each is
    /// settled.
    pub open spec fn same_as(self, other: Keystroke) -> bool {
        self.normalized() == other.normalized()
    }

    /// A press of `code` with `modifiers` held and no keyboard state.
    pub fn new(code: Key, modifiers: u8) -> (k: Keystroke)
        ensures
            k == Keystroke::pressed(code, modifiers),
    {
        Keystroke { code, modifiers, kind: KeyKind::Press, state: 0 }
    }

    /// Calls `==` of `crossterm::event::KeyEvent` on the two events that hold
    /// what `self` and `other` hold. That `==` first settles the case of each
    /// event (to an upper case letter it adds the shift bit; else, if the
    /// shift bit is set, it takes the character in ASCII upper case) and then
    /// asks that code, modifiers, kind and state be equal.
    #[verifier::external_body]
    fn events_equal(&self, other: &Keystroke) -> (r: bool)
        ensures
            r == self.same_as(*other),
    {
        let event = |k: &Keystroke| KeyEvent::new_with_kind_and_state(
            match k.code {
                Key::Char(c) => KeyCode::Char(c),
                Key::Backspace => KeyCode::Backspace,
            },
            KeyModifiers::from_bits_retain(k.modifiers),
            match k.kind {
                KeyKind::Press => KeyEventKind::Press,
                KeyKind::Repeat => KeyEventKind::Repeat,
                KeyKind::Release => KeyEventKind::Release,
            },
            KeyEventState::from_bits_retain(k.state),
        );
        event(self) == event(other)
    }

    /// Whether `self` and `other` are the same key.
    pub fn is_same_key(&self, other: &Keystroke) -> (r: bool)
        ensures
            r == self.same_as(*other),
    {
        self.events_equal(other)
    }
}

/// A press of `code` with no modifier held.
pub fn keycode(code: Key) -> (k: Keystroke)
    ensures
        k == Keystroke::pressed(code, 0),
{
    Keystroke::new(code, 0)
}

/// A press of the key that gives `c`, with no modifier held.
pub fn key(c: char) -> (k: Keystroke)
    ensures
        k == Keystroke::pressed(Key::Char(c), 0),
{
    keycode(Key::Char(c))
}

/// What a list of bindings binds: each key, with its case settled, to the
/// value of the last binding that names it.
spec fn bound<T>(bindings: Seq<(Keystroke, T)>) -> Map<Keystroke, T>
    decreases bindings.len(),
{
    if bindings.len() == 0 {
        Map::empty()
    } else {
        bound(bindings.drop_last()).insert(bindings.last().0.normalized(), bindings.last().1)
    }
}

/// A key that the last binding for it binds to a value is bound to that value.
proof fn lemma_bound_found<T>(bindings: Seq<(Keystroke, T)>, i: int, k: Keystroke)
    requires
        0 <= i < bindings.len(),
        bindings[i].0.normalized() == k,
        forall|j: int| i < j < bindings.len() ==> (#[trigger] bindings[j]).0.normalized() != k,
    ensures
        bound(bindings).contains_key(k),
        bound(bindings)[k] == bindings[i].1,
    decreases bindings.len(),
{
    if i < bindings.len() - 1 {
        assert(bindings[bindings.len() - 1].0.normalized() != k);
        lemma_bound_found(bindings.drop_last(), i, k);
    }
}

/// A key that no binding names is not bound.
proof fn lemma_bound_absent<T>(bindings: Seq<(Keystroke, T)>, k: Keystroke)
    requires
        forall|j: int| 0 <= j < bindings.len() ==> (#[trigger] bindings[j]).0.normalized() != k,
    ensures
        !bound(bindings).contains_key(k),
    decreases bindings.len(),
{
    if bindings.len() > 0 {
        assert(bindings[bindings.len() - 1].0.normalized() != k);
        lemma_bound_absent(bindings.drop_last(), k);
    }
}

/// A map from key strokes to values of `T`. Key strokes that are the same
/// key share one entry.
pub struct KeyMap<T> {
    bindings: Vec<(Keystroke, T)>,
}

impl<T> View for KeyMap<T> {
    type V = Map<Keystroke, T>;

    /// The map, keyed by key strokes with their case settled.
    closed spec fn view(&self) -> Map<Keystroke, T> {
        bound(self.bindings@)
    }
}

impl<T> KeyMap<T> {
    /// A map that binds no key.
    pub fn new() -> (m: KeyMap<T>)
        ensures
            m@ == Map::<Keystroke, T>::empty(),
    {
        KeyMap { bindings: Vec::new() }
    }

    /// Binds `key` to `value`, in place of what it was bound to before.
    pub fn bind(&mut self, key: Keystroke, value: T)
        ensures
            final(self)@ == old(self)@.insert(key.normalized(), value),
    {
        self.bindings.push((key, value));
        assert(self.bindings@.drop_last() =~= old(self).bindings@);
    }

    /// What `key` is bound to, or `None` if it is not bound.
    pub fn get(&self, key: &Keystroke) -> (r: Option<&T>)
        ensures
            match r {
                Some(value) => self@.contains_key(key.normalized()) && *value == self@[key.normalized()],
                None => !self@.contains_key(key.normalized()),
            },
    {
        let mut i: usize = self.bindings.len();
        while i > 0
            invariant
                i <= self.bindings@.len(),
                forall|j: int|
                    i <= j < self.bindings@.len() ==> (#[trigger] self.bindings@[j]).0.normalized()
                        != key.normalized(),
            decreases i,
        {
            i = i - 1;
            if self.bindings[i].0.is_same_key(key) {
                proof {
                    lemma_bound_found(self.bindings@, i as int, key.normalized());
                }
                return Some(&self.bindings[i].1);
            }
        }
        proof {
            lemma_bound_absent(self.bindings@, key.normalized());
        }
        None
    }
}

} // verus!
