//! The key-chord grammar: how a chord descriptor such as `"ctrl+shift+c"`
//! names an input event.
//!
//! A descriptor is one of a closed table of named keys and named modified
//! navigation keys, or `f` followed by the decimal number of a function key,
//! or `ctrl+` or `alt+`, optionally followed by `shift+`, followed by exactly
//! one character. Every other descriptor names no event.

use vstd::prelude::*;
use crate::event::{Event, EventView, Key};
use crate::text::{chars_of, str_eq};

verus! {

/// The escape sequence `ESC [ first ; modifier last`, which terminals send for
/// a navigation key pressed together with modifiers.
pub open spec fn csi_sequence(first: u8, modifier: u8, last: u8) -> Seq<u8> {
    seq![27u8, 91u8, first, 59u8, modifier, last]
}

/// The event of a descriptor of the closed table, if it is one.
pub open spec fn named_chord(key: Seq<char>) -> Option<EventView> {
    if key == "enter"@ {
        Some(EventView::Key(Key::Char('\n')))
    } else if key == "tab"@ {
        Some(EventView::Key(Key::Char('\t')))
    } else if key == "backspace"@ {
        Some(EventView::Key(Key::Backspace))
    } else if key == "left"@ {
        Some(EventView::Key(Key::Left))
    } else if key == "right"@ {
        Some(EventView::Key(Key::Right))
    } else if key == "up"@ {
        Some(EventView::Key(Key::Up))
    } else if key == "down"@ {
        Some(EventView::Key(Key::Down))
    } else if key == "home"@ {
        Some(EventView::Key(Key::Home))
    } else if key == "end"@ {
        Some(EventView::Key(Key::End))
    } else if key == "pageup"@ {
        Some(EventView::Key(Key::PageUp))
    } else if key == "pagedown"@ {
        Some(EventView::Key(Key::PageDown))
    } else if key == "delete"@ {
        Some(EventView::Key(Key::Delete))
    } else if key == "insert"@ {
        Some(EventView::Key(Key::Insert))
    } else if key == "escape"@ {
        Some(EventView::Key(Key::Esc))
    } else if key == "ctrl+right"@ {
        Some(EventView::Unsupported(csi_sequence(49, 53, 67)))
    } else if key == "ctrl+left"@ {
        Some(EventView::Unsupported(csi_sequence(49, 53, 68)))
    } else if key == "ctrl+home"@ {
        Some(EventView::Unsupported(csi_sequence(49, 53, 72)))
    } else if key == "ctrl+end"@ {
        Some(EventView::Unsupported(csi_sequence(49, 53, 70)))
    } else if key == "ctrl+shift+right"@ {
        Some(EventView::Unsupported(csi_sequence(49, 54, 67)))
    } else if key == "ctrl+shift+left"@ {
        Some(EventView::Unsupported(csi_sequence(49, 54, 68)))
    } else if key == "ctrl+shift+up"@ {
        Some(EventView::Unsupported(csi_sequence(49, 54, 65)))
    } else if key == "ctrl+shift+down"@ {
        Some(EventView::Unsupported(csi_sequence(49, 54, 66)))
    } else if key == "ctrl+shift+home"@ {
        Some(EventView::Unsupported(csi_sequence(49, 54, 72)))
    } else if key == "ctrl+shift+end"@ {
        Some(EventView::Unsupported(csi_sequence(49, 54, 70)))
    } else if key == "alt+shift+up"@ {
        Some(EventView::Unsupported(csi_sequence(49, 52, 65)))
    } else if key == "alt+shift+down"@ {
        Some(EventView::Unsupported(csi_sequence(49, 52, 66)))
    } else if key == "shift+up"@ {
        Some(EventView::Unsupported(csi_sequence(49, 50, 65)))
    } else if key == "shift+down"@ {
        Some(EventView::Unsupported(csi_sequence(49, 50, 66)))
    } else if key == "shift+right"@ {
        Some(EventView::Unsupported(csi_sequence(49, 50, 67)))
    } else if key == "shift+left"@ {
        Some(EventView::Unsupported(csi_sequence(49, 50, 68)))
    } else if key == "shift+pageup"@ {
        Some(EventView::Unsupported(csi_sequence(53, 50, 126)))
    } else if key == "shift+pagedown"@ {
        Some(EventView::Unsupported(csi_sequence(54, 50, 126)))
    } else if key == "shift+end"@ {
        Some(EventView::Unsupported(csi_sequence(49, 50, 70)))
    } else if key == "shift+home"@ {
        Some(EventView::Unsupported(csi_sequence(49, 50, 72)))
    } else if key == "ctrl+pageup"@ {
        Some(EventView::Unsupported(csi_sequence(53, 53, 126)))
    } else if key == "ctrl+pagedown"@ {
        Some(EventView::Unsupported(csi_sequence(54, 53, 126)))
    } else {
        None
    }
}

/// Whether a character is a decimal digit.
pub open spec fn is_digit(c: char) -> bool {
    '0' <= c && c <= '9'
}

/// Whether every character of a sequence is a decimal digit.
pub open spec fn all_digits(s: Seq<char>) -> bool {
    forall|i: int| 0 <= i < s.len() ==> is_digit(#[trigger] s[i])
}

/// The number that a sequence of decimal digits writes.
pub open spec fn digits_value(s: Seq<char>) -> nat
    decreases s.len(),
{
    if s.len() == 0 {
        0
    } else {
        (digits_value(s.drop_last()) * 10 + (s.last() as int - '0' as int)) as nat
    }
}

/// The function key of a descriptor that starts with `f`: the rest must be
/// one or more decimal digits that write a number up to 255.
pub open spec fn function_key(key: Seq<char>) -> Option<EventView> {
    let digits = key.skip(1);
    if digits.len() > 0 && all_digits(digits) && digits_value(digits) <= 255 {
        Some(EventView::Key(Key::F(digits_value(digits) as u8)))
    } else {
        None
    }
}

/// The upper-case form of an ASCII letter; any other character is unchanged.
pub open spec fn ascii_upper(c: char) -> char {
    if 'a' <= c && c <= 'z' {
        ((c as u8) - 32) as char
    } else {
        c
    }
}

/// The lower-case form of an ASCII letter; any other character is unchanged.
pub open spec fn ascii_lower(c: char) -> char {
    if 'A' <= c && c <= 'Z' {
        ((c as u8) + 32) as char
    } else {
        c
    }
}

pub open spec fn ctrl_prefix() -> Seq<char> {
    seq!['c', 't', 'r', 'l', '+']
}

pub open spec fn alt_prefix() -> Seq<char> {
    seq!['a', 'l', 't', '+']
}

pub open spec fn shift_infix() -> Seq<char> {
    seq!['s', 'h', 'i', 'f', 't', '+']
}

/// Whether `pattern` stands in `text` at index `at`.
pub open spec fn stands_at(text: Seq<char>, at: int, pattern: Seq<char>) -> bool {
    &&& 0 <= at
    &&& at + pattern.len() <= text.len()
    &&& text.subrange(at, at + pattern.len()) == pattern
}

/// The character that follows a modifier prefix: one character alone stands
/// for its lower-case form, one character after `shift+` for its upper-case
/// form.
pub open spec fn modified_letter(rest: Seq<char>) -> Option<char> {
    if rest.len() == 1 {
        Some(ascii_lower(rest[0]))
    } else if rest.len() == 7 && stands_at(rest, 0, shift_infix()) {
        Some(ascii_upper(rest[6]))
    } else {
        None
    }
}

/// The event of a descriptor made of `ctrl+` or `alt+` and a letter.
pub open spec fn modified_key(key: Seq<char>) -> Option<EventView> {
    if stands_at(key, 0, ctrl_prefix()) {
        match modified_letter(key.skip(5)) {
            Some(c) => Some(EventView::Key(Key::Ctrl(c))),
            None => None,
        }
    } else if stands_at(key, 0, alt_prefix()) {
        match modified_letter(key.skip(4)) {
            Some(c) => Some(EventView::Key(Key::Alt(c))),
            None => None,
        }
    } else {
        None
    }
}

/// The event that one chord descriptor names, if any.
pub open spec fn parse_chord(key: Seq<char>) -> Option<EventView> {
    match named_chord(key) {
        Some(event) => Some(event),
        None => if key.len() > 0 && key[0] == 'f' {
            function_key(key)
        } else {
            modified_key(key)
        },
    }
}

/// The event that a list of chord descriptors names: a list of exactly one
/// descriptor names what that descriptor names, any other list names nothing.
pub open spec fn parse_chords(keys: Seq<Seq<char>>) -> Option<EventView> {
    if keys.len() == 1 {
        parse_chord(keys[0])
    } else {
        None
    }
}

/// Whether an optional event has the given mathematical value.
pub open spec fn event_is(event: Option<Event>, value: Option<EventView>) -> bool {
    match event {
        Some(e) => value == Some(e@),
        None => value is None,
    }
}

/// A prefix of a digit sequence writes a number no greater than the whole.
proof fn lemma_digits_prefix(s: Seq<char>, i: int)
    requires
        0 <= i <= s.len(),
        all_digits(s),
    ensures
        digits_value(s.take(i)) <= digits_value(s),
    decreases s.len(),
{
    if i == s.len() {
        assert(s.take(i) =~= s);
    } else {
        let shorter = s.drop_last();
        assert(is_digit(s[s.len() - 1]));
        assert(all_digits(shorter)) by {
            assert forall|j: int| 0 <= j < shorter.len() implies is_digit(#[trigger] shorter[j]) by {
                assert(shorter[j] == s[j]);
            }
        }
        lemma_digits_prefix(shorter, i);
        assert(shorter.take(i) =~= s.take(i));
    }
}

fn raw_event(first: u8, modifier: u8, last: u8) -> (r: Event)
    ensures
        r@ == EventView::Unsupported(csi_sequence(first, modifier, last)),
{
    let bytes: Vec<u8> = vec![27u8, 91u8, first, 59u8, modifier, last];
    assert(bytes@ =~= csi_sequence(first, modifier, last));
    Event::Unsupported(bytes)
}

/// Looks a descriptor up in the closed table of named chords.
pub fn named_chord_event(key: &str) -> (r: Option<Event>)
    ensures
        event_is(r, named_chord(key@)),
{
    if str_eq(key, "enter") {
        Some(Event::Key(Key::Char('\n')))
    } else if str_eq(key, "tab") {
        Some(Event::Key(Key::Char('\t')))
    } else if str_eq(key, "backspace") {
        Some(Event::Key(Key::Backspace))
    } else if str_eq(key, "left") {
        Some(Event::Key(Key::Left))
    } else if str_eq(key, "right") {
        Some(Event::Key(Key::Right))
    } else if str_eq(key, "up") {
        Some(Event::Key(Key::Up))
    } else if str_eq(key, "down") {
        Some(Event::Key(Key::Down))
    } else if str_eq(key, "home") {
        Some(Event::Key(Key::Home))
    } else if str_eq(key, "end") {
        Some(Event::Key(Key::End))
    } else if str_eq(key, "pageup") {
        Some(Event::Key(Key::PageUp))
    } else if str_eq(key, "pagedown") {
        Some(Event::Key(Key::PageDown))
    } else if str_eq(key, "delete") {
        Some(Event::Key(Key::Delete))
    } else if str_eq(key, "insert") {
        Some(Event::Key(Key::Insert))
    } else if str_eq(key, "escape") {
        Some(Event::Key(Key::Esc))
    } else if str_eq(key, "ctrl+right") {
        Some(raw_event(49, 53, 67))
    } else if str_eq(key, "ctrl+left") {
        Some(raw_event(49, 53, 68))
    } else if str_eq(key, "ctrl+home") {
        Some(raw_event(49, 53, 72))
    } else if str_eq(key, "ctrl+end") {
        Some(raw_event(49, 53, 70))
    } else if str_eq(key, "ctrl+shift+right") {
        Some(raw_event(49, 54, 67))
    } else if str_eq(key, "ctrl+shift+left") {
        Some(raw_event(49, 54, 68))
    } else if str_eq(key, "ctrl+shift+up") {
        Some(raw_event(49, 54, 65))
    } else if str_eq(key, "ctrl+shift+down") {
        Some(raw_event(49, 54, 66))
    } else if str_eq(key, "ctrl+shift+home") {
        Some(raw_event(49, 54, 72))
    } else if str_eq(key, "ctrl+shift+end") {
        Some(raw_event(49, 54, 70))
    } else if str_eq(key, "alt+shift+up") {
        Some(raw_event(49, 52, 65))
    } else if str_eq(key, "alt+shift+down") {
        Some(raw_event(49, 52, 66))
    } else if str_eq(key, "shift+up") {
        Some(raw_event(49, 50, 65))
    } else if str_eq(key, "shift+down") {
        Some(raw_event(49, 50, 66))
    } else if str_eq(key, "shift+right") {
        Some(raw_event(49, 50, 67))
    } else if str_eq(key, "shift+left") {
        Some(raw_event(49, 50, 68))
    } else if str_eq(key, "shift+pageup") {
        Some(raw_event(53, 50, 126))
    } else if str_eq(key, "shift+pagedown") {
        Some(raw_event(54, 50, 126))
    } else if str_eq(key, "shift+end") {
        Some(raw_event(49, 50, 70))
    } else if str_eq(key, "shift+home") {
        Some(raw_event(49, 50, 72))
    } else if str_eq(key, "ctrl+pageup") {
        Some(raw_event(53, 53, 126))
    } else if str_eq(key, "ctrl+pagedown") {
        Some(raw_event(54, 53, 126))
    } else {
        None
    }
}

/// Reads the function key of a descriptor that starts with `f`.
pub fn function_key_event(key: &Vec<char>) -> (r: Option<Event>)
    requires
        key.len() > 0,
    ensures
        event_is(r, function_key(key@)),
{
    let ghost digits = key@.skip(1);
    if key.len() == 1 {
        return None;
    }
    let mut value: u16 = 0;
    let mut i: usize = 1;
    while i < key.len()
        invariant
            1 <= i <= key.len(),
            digits == key@.skip(1),
            all_digits(digits.take(i - 1)),
            value == digits_value(digits.take(i - 1)),
            value <= 255,
        decreases key.len() - i,
    {
        let c = key[i];
        assert(c == digits[i - 1]);
        if c < '0' || c > '9' {
            assert(!is_digit(digits[i - 1]));
            return None;
        }
        let digit: u16 = (c as u8 - '0' as u8) as u16;
        let next: u16 = value * 10 + digit;
        proof {
            let longer = digits.take(i as int);
            assert(longer.drop_last() =~= digits.take(i - 1));
            assert(longer.last() == c);
            assert(all_digits(longer)) by {
                assert forall|j: int| 0 <= j < longer.len() implies is_digit(#[trigger] longer[j]) by {
                    if j < i - 1 {
                        assert(longer[j] == digits.take(i - 1)[j]);
                    }
                }
            }
            assert(next == digits_value(longer));
        }
        if next > 255 {
            proof {
                if all_digits(digits) {
                    lemma_digits_prefix(digits, i as int);
                }
            }
            return None;
        }
        value = next;
        i += 1;
    }
    assert(digits.take(i - 1) =~= digits);
    Some(Event::Key(Key::F(value as u8)))
}

/// Whether `pattern` stands in `text` at index `at`.
fn stands_at_exec(text: &Vec<char>, at: usize, pattern: &Vec<char>) -> (r: bool)
    ensures
        r == stands_at(text@, at as int, pattern@),
{
    if at > text.len() || pattern.len() > text.len() - at {
        return false;
    }
    let mut i: usize = 0;
    while i < pattern.len()
        invariant
            i <= pattern.len(),
            at + pattern.len() <= text.len(),
            forall|j: int| 0 <= j < i ==> text@[at + j] == pattern@[j],
        decreases pattern.len() - i,
    {
        if text[at + i] != pattern[i] {
            assert(text@.subrange(at as int, at + pattern.len())[i as int] != pattern@[i as int]);
            return false;
        }
        i += 1;
    }
    assert(text@.subrange(at as int, at + pattern.len()) =~= pattern@);
    true
}

fn to_ascii_upper(c: char) -> (r: char)
    ensures
        r == ascii_upper(c),
{
    if 'a' <= c && c <= 'z' {
        ((c as u8) - 32) as char
    } else {
        c
    }
}

fn to_ascii_lower(c: char) -> (r: char)
    ensures
        r == ascii_lower(c),
{
    if 'A' <= c && c <= 'Z' {
        ((c as u8) + 32) as char
    } else {
        c
    }
}

/// Reads what follows a modifier prefix that is `prefix_len` characters long.
fn modified_letter_of(key: &Vec<char>, prefix_len: usize) -> (r: Option<char>)
    requires
        prefix_len <= key.len(),
    ensures
        r == modified_letter(key@.skip(prefix_len as int)),
{
    let ghost rest = key@.skip(prefix_len as int);
    let rest_len = key.len() - prefix_len;
    if rest_len == 1 {
        assert(rest[0] == key@[prefix_len as int]);
        Some(to_ascii_lower(key[prefix_len]))
    } else if rest_len == 7 {
        let shift: Vec<char> = vec!['s', 'h', 'i', 'f', 't', '+'];
        assert(shift@ =~= shift_infix());
        let found = stands_at_exec(key, prefix_len, &shift);
        assert(rest.subrange(0, 6) =~= key@.subrange(prefix_len as int, prefix_len + 6));
        if found {
            assert(rest[6] == key@[prefix_len + 6]);
            Some(to_ascii_upper(key[prefix_len + 6]))
        } else {
            None
        }
    } else {
        None
    }
}

/// Reads a descriptor made of `ctrl+` or `alt+` and a letter.
pub fn modified_key_event(key: &Vec<char>) -> (r: Option<Event>)
    ensures
        event_is(r, modified_key(key@)),
{
    let ctrl: Vec<char> = vec!['c', 't', 'r', 'l', '+'];
    let alt: Vec<char> = vec!['a', 'l', 't', '+'];
    assert(ctrl@ =~= ctrl_prefix());
    assert(alt@ =~= alt_prefix());
    if stands_at_exec(key, 0, &ctrl) {
        match modified_letter_of(key, 5) {
            Some(c) => Some(Event::Key(Key::Ctrl(c))),
            None => None,
        }
    } else if stands_at_exec(key, 0, &alt) {
        match modified_letter_of(key, 4) {
            Some(c) => Some(Event::Key(Key::Alt(c))),
            None => None,
        }
    } else {
        None
    }
}

/// Parses one chord descriptor.
pub fn parse_chord_event(key: &str) -> (r: Option<Event>)
    ensures
        event_is(r, parse_chord(key@)),
{
    match named_chord_event(key) {
        Some(event) => Some(event),
        None => {
            let chars = chars_of(key);
            if chars.len() > 0 && chars[0] == 'f' {
                function_key_event(&chars)
            } else {
                modified_key_event(&chars)
            }
        },
    }
}

/// Parses a list of chord descriptors: only a list of exactly one descriptor
/// can name an event.
pub fn parse_keys(keys: &Vec<String>) -> (r: Option<Event>)
    ensures
        event_is(r, parse_chords(keys@.map_values(|k: String| k@))),
        keys.len() != 1 ==> r is None,
{
    if keys.len() != 1 {
        return None;
    }
    let r = parse_chord_event(keys[0].as_str());
    assert(keys@.map_values(|k: String| k@)[0] == keys@[0]@);
    r
}

} // verus!
