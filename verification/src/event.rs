//! Input events as the terminal reports them: keys, mouse gestures and raw
//! byte sequences that the input layer does not decode.

use vstd::prelude::*;

verus! {

/// A mouse button.
#[derive(Debug, Clone, Copy, PartialEq, Eq, Hash, Structural)]
pub enum MouseButton {
    Left,
    Right,
    Middle,
    WheelUp,
    WheelDown,
}

/// A mouse gesture. The coordinates are one-based: column first, then row.
#[derive(Debug, Clone, Copy, PartialEq, Eq, Hash, Structural)]
pub enum MouseEvent {
    Press(MouseButton, u16, u16),
    Release(u16, u16),
    Hold(u16, u16),
}

/// A key press.
#[derive(Debug, Clone, Copy, PartialEq, Eq, Hash, Structural)]
pub enum Key {
    Backspace,
    Left,
    Right,
    Up,
    Down,
    Home,
    End,
    PageUp,
    PageDown,
    BackTab,
    Delete,
    Insert,
    /// A function key, by its number.
    F(u8),
    /// A plain character.
    Char(char),
    /// A character pressed together with alt.
    Alt(char),
    /// A character pressed together with ctrl.
    Ctrl(char),
    Null,
    Esc,
}

/// An event reported by the terminal.
#[derive(Debug, Clone, PartialEq, Eq, Hash)]
pub enum Event {
    Key(Key),
    Mouse(MouseEvent),
    /// A byte sequence that the input layer hands over undecoded.
    Unsupported(Vec<u8>),
}

/// The mathematical value of an [`Event`].
pub enum EventView {
    Key(Key),
    Mouse(MouseEvent),
    Unsupported(Seq<u8>),
}

impl View for Event {
    type V = EventView;

    open spec fn view(&self) -> EventView {
        match self {
            Event::Key(k) => EventView::Key(*k),
            Event::Mouse(m) => EventView::Mouse(*m),
            Event::Unsupported(bytes) => EventView::Unsupported(bytes@),
        }
    }
}

/// Whether two byte vectors hold the same bytes.
pub fn same_bytes(a: &Vec<u8>, b: &Vec<u8>) -> (r: bool)
    ensures
        r == (a@ == b@),
{
    if a.len() != b.len() {
        return false;
    }
    let mut i: usize = 0;
    while i < a.len()
        invariant
            i <= a.len(),
            a.len() == b.len(),
            forall|j: int| 0 <= j < i ==> a@[j] == b@[j],
        decreases a.len() - i,
    {
        if a[i] != b[i] {
            assert(a@[i as int] != b@[i as int]);
            return false;
        }
        i += 1;
    }
    assert(a@ =~= b@);
    true
}

impl Event {
    /// Whether two events are the same event.
    pub fn same(&self, other: &Event) -> (r: bool)
        ensures
            r == (self@ == other@),
    {
        match (self, other) {
            (Event::Key(a), Event::Key(b)) => *a == *b,
            (Event::Mouse(a), Event::Mouse(b)) => *a == *b,
            (Event::Unsupported(a), Event::Unsupported(b)) => same_bytes(a, b),
            _ => false,
        }
    }

    /// A copy of the event.
    pub fn duplicate(&self) -> (r: Event)
        ensures
            r@ == self@,
    {
        match self {
            Event::Key(k) => Event::Key(*k),
            Event::Mouse(m) => Event::Mouse(*m),
            Event::Unsupported(bytes) => {
                let mut copy: Vec<u8> = Vec::new();
                let mut i: usize = 0;
                while i < bytes.len()
                    invariant
                        i <= bytes.len(),
                        copy@ == bytes@.take(i as int),
                    decreases bytes.len() - i,
                {
                    copy.push(bytes[i]);
                    i += 1;
                    assert(bytes@.take(i as int) == bytes@.take(i - 1).push(bytes@[i - 1]));
                }
                assert(bytes@.take(bytes.len() as int) == bytes@);
                Event::Unsupported(copy)
            },
        }
    }
}

} // verus!
