//! What the renderer computes: the width of characters on screen, the text
//! with its control characters escaped and its tabs expanded, and the places
//! where style sequences go into it.
//!
//! One width function serves the escaping, the placing of the cursor and the
//! translation of clicks: a control character takes two columns, a tab takes
//! the columns up to the next tab stop, any other character takes one.

use vstd::prelude::*;
use std::collections::HashMap;
use crate::line::StyleDef;
use crate::style::{reset_style, reset_style_sequence, set_style, set_style_sequence, Style};
use crate::text::chars_of;

verus! {

/// Whether a character is shown in caret notation: the control characters
/// other than the tab, and the delete character.
pub open spec fn is_control(c: char) -> bool {
    c <= '\x08' || ('\x0a' <= c && c <= '\x1f') || c == '\x7f'
}

/// The number of columns that a tab at column `position` takes: as many as
/// lead to the next multiple of the tab size.
pub open spec fn tab_width_at(position: nat, tab_size: nat) -> nat
    recommends
        tab_size > 0,
{
    (tab_size - position % tab_size) as nat
}

/// The number of columns that a character at column `position` takes.
pub open spec fn char_width(c: char, position: nat, tab_size: nat) -> nat {
    if is_control(c) {
        2
    } else if c == '\t' {
        tab_width_at(position, tab_size)
    } else {
        1
    }
}

/// The number of columns that a text takes from column zero on.
pub open spec fn text_width(text: Seq<char>, tab_size: nat) -> nat
    decreases text.len(),
{
    if text.len() == 0 {
        0
    } else {
        let before = text_width(text.drop_last(), tab_size);
        before + char_width(text.last(), before, tab_size)
    }
}

/// The second character of the caret notation of a control character: its
/// code with the bit of value 64 flipped, so that the character of code 2 is
/// written `^B`.
pub open spec fn caret_partner(c: char) -> char {
    ((c as u8) ^ 0x40u8) as char
}

/// What is shown for a character at column `position`.
pub open spec fn escaped_char(c: char, position: nat, tab_size: nat) -> Seq<char> {
    if is_control(c) {
        seq!['^', caret_partner(c)]
    } else if c == '\t' {
        Seq::new(tab_width_at(position, tab_size), |i: int| ' ')
    } else {
        seq![c]
    }
}

/// What is shown for a text: each character escaped at the column that the
/// characters before it lead to.
pub open spec fn escaped(text: Seq<char>, tab_size: nat) -> Seq<char>
    decreases text.len(),
{
    if text.len() == 0 {
        Seq::empty()
    } else {
        let front = text.drop_last();
        escaped(front, tab_size) + escaped_char(text.last(), text_width(front, tab_size), tab_size)
    }
}

/// A tab takes at least one column and at most a whole tab size, and ends at
/// a tab stop.
pub proof fn law_tab_width(position: nat, tab_size: nat)
    requires
        tab_size > 0,
    ensures
        1 <= tab_width_at(position, tab_size) <= tab_size,
        (position + tab_width_at(position, tab_size)) % tab_size == 0,
        position % tab_size == 0 ==> tab_width_at(position, tab_size) == tab_size,
{
    let p = position as int;
    let t = tab_size as int;
    vstd::arithmetic::div_mod::lemma_mod_bound(p, t);
    vstd::arithmetic::div_mod::lemma_fundamental_div_mod(p, t);
    vstd::arithmetic::div_mod::lemma_mod_multiples_vanish(p / t, t, t);
    vstd::arithmetic::div_mod::lemma_mod_self_0(t);
    assert(p + (t - p % t) == t * (p / t) + t);
}

/// What is shown for a text is as long as the text is wide.
pub proof fn law_escaped_length(text: Seq<char>, tab_size: nat)
    requires
        tab_size > 0,
    ensures
        escaped(text, tab_size).len() == text_width(text, tab_size),
    decreases text.len(),
{
    if text.len() > 0 {
        law_escaped_length(text.drop_last(), tab_size);
        law_tab_width(text_width(text.drop_last(), tab_size), tab_size);
    }
}

/// A longer prefix of a text is no narrower than a shorter one.
pub proof fn lemma_width_monotonic(text: Seq<char>, i: int, j: int, tab_size: nat)
    requires
        tab_size > 0,
        0 <= i <= j <= text.len(),
    ensures
        text_width(text.take(i), tab_size) <= text_width(text.take(j), tab_size),
    decreases j - i,
{
    if i < j {
        lemma_width_monotonic(text, i, j - 1, tab_size);
        assert(text.take(j).drop_last() =~= text.take(j - 1));
    }
}

/// The width of a prefix one character longer: the width before, and the
/// width of the character there.
pub proof fn lemma_width_step(text: Seq<char>, i: int, tab_size: nat)
    requires
        0 <= i < text.len(),
    ensures
        text_width(text.take(i + 1), tab_size) == text_width(text.take(i), tab_size) + char_width(
            text[i],
            text_width(text.take(i), tab_size),
            tab_size,
        ),
        escaped(text.take(i + 1), tab_size) == escaped(text.take(i), tab_size) + escaped_char(
            text[i],
            text_width(text.take(i), tab_size),
            tab_size,
        ),
{
    assert(text.take(i + 1).drop_last() =~= text.take(i));
    assert(text.take(i + 1).last() == text[i]);
}

/// Whether a character is shown in caret notation.
pub fn is_control_char(c: char) -> (r: bool)
    ensures
        r == is_control(c),
{
    c <= '\x08' || ('\x0a' <= c && c <= '\x1f') || c == '\x7f'
}

/// The number of columns that a tab at column `position` takes.
pub fn tab_width(position: u64, tab_size: u16) -> (width: u16)
    requires
        tab_size > 0,
    ensures
        width == tab_width_at(position as nat, tab_size as nat),
        1 <= width <= tab_size,
{
    proof {
        law_tab_width(position as nat, tab_size as nat);
    }
    let rest = (position % (tab_size as u64)) as u16;
    tab_size - rest
}

/// The number of columns that a character at column `position` takes.
pub fn char_columns(position: u64, c: char, tab_size: u16) -> (width: u16)
    requires
        tab_size > 0,
    ensures
        width == char_width(c, position as nat, tab_size as nat),
        1 <= width,
{
    if is_control_char(c) {
        2
    } else if c == '\t' {
        tab_width(position, tab_size)
    } else {
        1
    }
}

/// Escapes the control characters of a text and expands its tabs.
pub fn escape_control(text: &str, tab_size: u16) -> (out: Vec<char>)
    requires
        tab_size > 0,
    ensures
        out@ == escaped(text@, tab_size as nat),
        out@.len() == text_width(text@, tab_size as nat),
{
    let chars = chars_of(text);
    let mut out: Vec<char> = Vec::new();
    let mut i: usize = 0;
    assert(chars@.take(0) =~= Seq::<char>::empty());
    while i < chars.len()
        invariant
            i <= chars.len(),
            tab_size > 0,
            out@ == escaped(chars@.take(i as int), tab_size as nat),
            out@.len() == text_width(chars@.take(i as int), tab_size as nat),
        decreases chars.len() - i,
    {
        let c = chars[i];
        let ghost position = out@.len();
        let ghost before = out@;
        proof {
            lemma_width_step(chars@, i as int, tab_size as nat);
            law_escaped_length(chars@.take(i + 1), tab_size as nat);
        }
        if is_control_char(c) {
            out.push('^');
            out.push((c as u8 ^ 0x40u8) as char);
            assert(out@ =~= before + escaped_char(c, position, tab_size as nat));
        } else if c == '\t' {
            let rest = (out.len() % (tab_size as usize)) as u16;
            let width = tab_size - rest;
            assert(width == tab_width_at(position, tab_size as nat));
            let mut k: u16 = 0;
            while k < width
                invariant
                    k <= width,
                    out@ == before + Seq::new(k as nat, |j: int| ' '),
                decreases width - k,
            {
                out.push(' ');
                k += 1;
                assert(out@ =~= before + Seq::new(k as nat, |j: int| ' '));
            }
            assert(out@ =~= before + escaped_char(c, position, tab_size as nat));
        } else {
            out.push(c);
            assert(out@ =~= before + escaped_char(c, position, tab_size as nat));
        }
        i += 1;
    }
    assert(chars@.take(chars.len() as int) =~= chars@);
    out
}

/// An escape sequence and the place in the escaped text where it goes.
#[derive(Debug, Clone, PartialEq, Eq)]
pub struct Insertion {
    pub offset: usize,
    pub sequence: String,
}

/// The mathematical value of an [`Insertion`].
pub struct InsertionView {
    pub offset: nat,
    pub sequence: Seq<char>,
}

impl View for Insertion {
    type V = InsertionView;

    open spec fn view(&self) -> InsertionView {
        InsertionView { offset: self.offset as nat, sequence: self.sequence@ }
    }
}

/// The mathematical values of a sequence of insertions.
pub open spec fn insertions_view(insertions: Seq<Insertion>) -> Seq<InsertionView> {
    insertions.map_values(|i: Insertion| i@)
}

/// Where a run starts in a text of `len` characters: `offset` after the end
/// of the run before it, or before it if the offset is negative, and in any
/// case within the text.
pub open spec fn run_start(prev_end: nat, run: StyleDef, len: nat) -> nat {
    let start = prev_end + run.offset;
    if start < 0 {
        0
    } else if start > len {
        len
    } else {
        start as nat
    }
}

/// Where a run that starts at `start` ends: `length` characters on, and in
/// any case within the text.
pub open spec fn run_end(start: nat, run: StyleDef, len: nat) -> nat {
    if start + run.length > len {
        len
    } else {
        (start + run.length) as nat
    }
}

/// Where the last of the runs ends; zero where there is none.
pub open spec fn runs_end(runs: Seq<StyleDef>, len: nat) -> nat
    decreases runs.len(),
{
    if runs.len() == 0 {
        0
    } else {
        let run = runs.last();
        run_end(run_start(runs_end(runs.drop_last(), len), run, len), run, len)
    }
}

/// The insertions that one run calls for: the sequence that switches its
/// style on where it starts, then the one that switches it off where it ends.
/// A run whose style the table does not hold calls for none.
pub open spec fn run_points(prev_end: nat, run: StyleDef, styles: Map<u64, Style>, len: nat) -> Seq<
    InsertionView,
> {
    if styles.contains_key(run.style_id) {
        let start = run_start(prev_end, run, len);
        let style = styles[run.style_id];
        seq![
            InsertionView { offset: start, sequence: set_style_sequence(style) },
            InsertionView { offset: run_end(start, run, len), sequence: reset_style_sequence(style) },
        ]
    } else {
        Seq::empty()
    }
}

/// The insertions that the runs of a line call for, run by run.
pub open spec fn style_points(runs: Seq<StyleDef>, styles: Map<u64, Style>, len: nat) -> Seq<
    InsertionView,
>
    decreases runs.len(),
{
    if runs.len() == 0 {
        Seq::empty()
    } else {
        let front = runs.drop_last();
        style_points(front, styles, len) + run_points(runs_end(front, len), runs.last(), styles, len)
    }
}

/// The number of insertions at the head of `ordered` that lie after `offset`.
pub open spec fn insert_position(ordered: Seq<InsertionView>, offset: nat) -> nat
    decreases ordered.len(),
{
    if ordered.len() > 0 && ordered[0].offset > offset {
        1 + insert_position(ordered.skip(1), offset)
    } else {
        0
    }
}

/// The insertions from the last place in the text to the first. Of two at the
/// same place, the later of `points` comes first.
pub open spec fn descending(points: Seq<InsertionView>) -> Seq<InsertionView>
    decreases points.len(),
{
    if points.len() == 0 {
        Seq::empty()
    } else {
        let point = points.last();
        let ordered = descending(points.drop_last());
        ordered.insert(insert_position(ordered, point.offset) as int, point)
    }
}

/// Whether the insertions go from the last place in the text to the first.
pub open spec fn is_descending(ordered: Seq<InsertionView>) -> bool {
    forall|i: int, j: int| 0 <= i < j < ordered.len() ==> ordered[i].offset >= ordered[j].offset
}

/// The text with a sequence put in at `offset`, or at the end if the text is
/// shorter.
pub open spec fn insert_at(text: Seq<char>, offset: nat, sequence: Seq<char>) -> Seq<char> {
    let at = if offset > text.len() {
        text.len() as int
    } else {
        offset as int
    };
    text.take(at) + sequence + text.skip(at)
}

/// The text after the insertions, made one after the other in the order
/// given.
pub open spec fn inserted(text: Seq<char>, insertions: Seq<InsertionView>) -> Seq<char>
    decreases insertions.len(),
{
    if insertions.len() == 0 {
        text
    } else {
        inserted(
            insert_at(text, insertions[0].offset, insertions[0].sequence),
            insertions.skip(1),
        )
    }
}

/// The text with the style sequences in it: the insertions are made from the
/// last place to the first, so that none moves the place of one that is still
/// to be made.
pub open spec fn styled(text: Seq<char>, points: Seq<InsertionView>) -> Seq<char> {
    inserted(text, descending(points))
}

/// What is shown for a line: its text escaped, with the style sequences of its
/// runs in it.
pub open spec fn styled_line(
    text: Seq<char>,
    runs: Seq<StyleDef>,
    styles: Map<u64, Style>,
    tab_size: nat,
) -> Seq<char> {
    let shown = escaped(text, tab_size);
    styled(shown, style_points(runs, styles, shown.len()))
}

/// The place that [`insert_position`] gives: every insertion before it lies
/// after `offset`, and the insertion at it, if there is one, does not.
pub proof fn lemma_insert_position(ordered: Seq<InsertionView>, offset: nat)
    ensures
        insert_position(ordered, offset) <= ordered.len(),
        forall|j: int| 0 <= j < insert_position(ordered, offset) ==> ordered[j].offset > offset,
        insert_position(ordered, offset) < ordered.len() ==> ordered[insert_position(
            ordered,
            offset,
        ) as int].offset <= offset,
    decreases ordered.len(),
{
    if ordered.len() > 0 && ordered[0].offset > offset {
        let rest = ordered.skip(1);
        lemma_insert_position(rest, offset);
        let p = insert_position(rest, offset);
        assert forall|j: int| 0 <= j < p + 1 implies ordered[j].offset > offset by {
            if j > 0 {
                assert(ordered[j] == rest[j - 1]);
            }
        }
        if p + 1 < ordered.len() {
            assert(ordered[p as int + 1] == rest[p as int]);
        }
    }
}

/// The insertions in order hold what the insertions hold, and go from the
/// last place in the text to the first.
pub proof fn law_descending(points: Seq<InsertionView>)
    ensures
        descending(points).len() == points.len(),
        descending(points).to_multiset() == points.to_multiset(),
        is_descending(descending(points)),
    decreases points.len(),
{
    broadcast use vstd::seq_lib::group_to_multiset_ensures;

    if points.len() == 0 {
    } else {
        let front = points.drop_last();
        let point = points.last();
        let ordered = descending(front);
        law_descending(front);
        lemma_insert_position(ordered, point.offset);
        let at = insert_position(ordered, point.offset) as int;
        let result = ordered.insert(at, point);
        assert(points =~= front.push(point));
        assert(result.to_multiset() =~= points.to_multiset()) by {
            vstd::seq_lib::to_multiset_insert(ordered, at, point);
        }
        assert forall|i: int, j: int| 0 <= i < j < result.len() implies result[i].offset
            >= result[j].offset by {
            if i < at && j > at {
                assert(result[i] == ordered[i]);
                assert(result[j] == ordered[j - 1]);
            } else if i < at && j < at {
                assert(result[i] == ordered[i] && result[j] == ordered[j]);
            } else if i < at && j == at {
            } else if i == at {
                assert(result[j] == ordered[j - 1]);
                assert(ordered[at].offset >= ordered[j - 1].offset);
            } else {
                assert(result[i] == ordered[i - 1] && result[j] == ordered[j - 1]);
            }
        }
    }
}

/// A text without insertions is shown as it is.
pub proof fn law_styled_plain(text: Seq<char>)
    ensures
        styled(text, Seq::empty()) == text,
{
}

/// One run within the text puts the sequence that switches its style on
/// where the run starts and the one that switches it off where the run ends,
/// and leaves the text between and around them as it is.
pub proof fn law_styled_single_run(
    text: Seq<char>,
    start: nat,
    end: nat,
    on: Seq<char>,
    off: Seq<char>,
)
    requires
        start <= end <= text.len(),
    ensures
        styled(
            text,
            seq![
                InsertionView { offset: start, sequence: on },
                InsertionView { offset: end, sequence: off },
            ],
        ) == text.take(start as int) + on + text.subrange(start as int, end as int) + off
            + text.skip(end as int),
{
    let first = InsertionView { offset: start, sequence: on };
    let second = InsertionView { offset: end, sequence: off };
    let points = seq![first, second];
    assert(points.drop_last() =~= seq![first]);
    assert(seq![first].drop_last() =~= Seq::<InsertionView>::empty());
    assert(descending(Seq::<InsertionView>::empty()) =~= Seq::<InsertionView>::empty());
    assert(descending(seq![first]) =~= seq![first]);
    let one = seq![first];
    assert(one.skip(1) =~= Seq::<InsertionView>::empty());
    assert(insert_position(one.skip(1), end) == 0);
    if start > end {
        assert(false);
    }
    assert(insert_position(one, end) == 0);
    let ordered = descending(points);
    assert(ordered =~= seq![second, first]);
    assert(ordered.skip(1) =~= seq![first]);
    assert(seq![first].skip(1) =~= Seq::<InsertionView>::empty());
    let step = insert_at(text, end, off);
    assert(inserted(text, ordered) == inserted(step, seq![first]));
    let after = insert_at(step, start, on);
    assert(seq![first][0] == first);
    assert(inserted(after, Seq::<InsertionView>::empty()) == after);
    assert(inserted(step, seq![first]) == after);
    assert(insert_at(step, start, on) =~= text.take(start as int) + on + text.subrange(
        start as int,
        end as int,
    ) + off + text.skip(end as int));
}

/// Puts one more insertion in its place among those in order.
pub fn insert_ordered(ordered: &mut Vec<Insertion>, insertion: Insertion)
    ensures
        insertions_view(final(ordered)@) == insertions_view(old(ordered)@).insert(
            insert_position(insertions_view(old(ordered)@), insertion@.offset) as int,
            insertion@,
        ),
{
    let ghost before = insertions_view(ordered@);
    let ghost offset = insertion@.offset;
    let mut i: usize = 0;
    assert(before.skip(0) =~= before);
    while i < ordered.len() && ordered[i].offset > insertion.offset
        invariant
            i <= ordered.len(),
            ordered@ == old(ordered)@,
            before == insertions_view(ordered@),
            offset == insertion.offset,
            insert_position(before, offset) == i + insert_position(before.skip(i as int), offset),
        decreases ordered.len() - i,
    {
        assert(before.skip(i as int)[0] == ordered@[i as int]@);
        assert(before.skip(i as int).skip(1) =~= before.skip(i + 1));
        i += 1;
    }
    proof {
        if i < ordered.len() {
            assert(before.skip(i as int)[0] == ordered@[i as int]@);
        }
        assert(insert_position(before, offset) == i);
    }
    ordered.insert(i, insertion);
    assert(insertions_view(ordered@) =~= before.insert(i as int, insertion@));
}

/// The text with a sequence put in at `offset`, or at the end if the text is
/// shorter.
pub fn insert_chars(text: &Vec<char>, offset: usize, sequence: &Vec<char>) -> (out: Vec<char>)
    ensures
        out@ == insert_at(text@, offset as nat, sequence@),
{
    let at = if offset > text.len() {
        text.len()
    } else {
        offset
    };
    let mut out: Vec<char> = Vec::new();
    let mut i: usize = 0;
    while i < at
        invariant
            i <= at <= text.len(),
            out@ == text@.take(i as int),
        decreases at - i,
    {
        out.push(text[i]);
        i += 1;
        assert(out@ =~= text@.take(i as int));
    }
    let mut k: usize = 0;
    while k < sequence.len()
        invariant
            k <= sequence.len(),
            at <= text.len(),
            out@ == text@.take(at as int) + sequence@.take(k as int),
        decreases sequence.len() - k,
    {
        out.push(sequence[k]);
        k += 1;
        assert(out@ =~= text@.take(at as int) + sequence@.take(k as int));
    }
    assert(sequence@.take(sequence.len() as int) =~= sequence@);
    let mut j: usize = at;
    while j < text.len()
        invariant
            at <= j <= text.len(),
            out@ == text@.take(at as int) + sequence@ + text@.subrange(at as int, j as int),
        decreases text.len() - j,
    {
        out.push(text[j]);
        j += 1;
        assert(out@ =~= text@.take(at as int) + sequence@ + text@.subrange(at as int, j as int));
    }
    assert(text@.subrange(at as int, text.len() as int) =~= text@.skip(at as int));
    out
}

/// Makes the insertions in a text, one after the other in the order given.
pub fn insert_all(text: Vec<char>, insertions: &Vec<Insertion>) -> (out: Vec<char>)
    ensures
        out@ == inserted(text@, insertions_view(insertions@)),
{
    let ghost all = insertions_view(insertions@);
    let ghost start = text@;
    let mut out = text;
    let mut i: usize = 0;
    assert(all.skip(0) =~= all);
    while i < insertions.len()
        invariant
            i <= insertions.len(),
            all == insertions_view(insertions@),
            inserted(out@, all.skip(i as int)) == inserted(start, all),
        decreases insertions.len() - i,
    {
        let sequence = chars_of(insertions[i].sequence.as_str());
        proof {
            assert(all.skip(i as int)[0] == insertions@[i as int]@);
            assert(all.skip(i as int).skip(1) =~= all.skip(i + 1));
        }
        out = insert_chars(&out, insertions[i].offset, &sequence);
        i += 1;
    }
    out
}

/// Where a run starts, in machine numbers.
fn run_start_of(prev_end: usize, run: &StyleDef, len: usize) -> (start: usize)
    requires
        prev_end <= len,
    ensures
        start == run_start(prev_end as nat, *run, len as nat),
        start <= len,
{
    let offset = run.offset;
    if offset >= 0 {
        let forward = offset as u64;
        if forward > (len - prev_end) as u64 {
            len
        } else {
            prev_end + forward as usize
        }
    } else {
        // The distance back: `-offset`, which for the least offset does not
        // fit the signed type.
        let back: u64 = if offset == i64::MIN {
            9223372036854775808u64
        } else {
            (-offset) as u64
        };
        if back > prev_end as u64 {
            0
        } else {
            prev_end - back as usize
        }
    }
}

/// Where a run ends, in machine numbers.
fn run_end_of(start: usize, run: &StyleDef, len: usize) -> (end: usize)
    requires
        start <= len,
    ensures
        end == run_end(start as nat, *run, len as nat),
        start <= end <= len,
{
    if run.length > (len - start) as u64 {
        len
    } else {
        start + run.length as usize
    }
}

/// The insertions that the style runs of a line call for in a text of
/// `text_len` characters, from the last place in the text to the first.
pub fn style_sequences(styles: &HashMap<u64, Style>, runs: &Vec<StyleDef>, text_len: usize) -> (out:
    Vec<Insertion>)
    ensures
        insertions_view(out@) == descending(style_points(runs@, styles@, text_len as nat)),
{
    broadcast use vstd::std_specs::hash::group_hash_axioms;

    let mut out: Vec<Insertion> = Vec::new();
    let mut prev_end: usize = 0;
    let mut i: usize = 0;
    assert(runs@.take(0) =~= Seq::<StyleDef>::empty());
    assert(insertions_view(out@) =~= Seq::<InsertionView>::empty());
    while i < runs.len()
        invariant
            i <= runs.len(),
            prev_end <= text_len,
            prev_end == runs_end(runs@.take(i as int), text_len as nat),
            insertions_view(out@) == descending(
                style_points(runs@.take(i as int), styles@, text_len as nat),
            ),
        decreases runs.len() - i,
    {
        let run = &runs[i];
        let ghost front = runs@.take(i as int);
        let ghost points = style_points(front, styles@, text_len as nat);
        proof {
            assert(runs@.take(i + 1).drop_last() =~= front);
            assert(runs@.take(i + 1).last() == *run);
        }
        let start = run_start_of(prev_end, run, text_len);
        let end = run_end_of(start, run, text_len);
        match styles.get(&run.style_id) {
            Some(style) => {
                let on = Insertion { offset: start, sequence: set_style(style) };
                let off = Insertion { offset: end, sequence: reset_style(style) };
                proof {
                    let added = run_points(prev_end as nat, *run, styles@, text_len as nat);
                    assert(added =~= seq![on@, off@]);
                    let with_on = points.push(on@);
                    let with_both = with_on.push(off@);
                    assert(with_on.drop_last() =~= points);
                    assert(with_on.last() == on@);
                    assert(with_both.drop_last() =~= with_on);
                    assert(with_both.last() == off@);
                    assert(points + added =~= with_both);
                    assert(style_points(runs@.take(i + 1), styles@, text_len as nat) == with_both);
                }
                let ghost on_view = on@;
                let ghost off_view = off@;
                insert_ordered(&mut out, on);
                assert(insertions_view(out@) == descending(points.push(on_view)));
                insert_ordered(&mut out, off);
                assert(insertions_view(out@) == descending(points.push(on_view).push(off_view)));
            },
            None => {
                proof {
                    assert(points + Seq::<InsertionView>::empty() =~= points);
                }
            },
        }
        prev_end = end;
        i += 1;
    }
    assert(runs@.take(runs.len() as int) =~= runs@);
    out
}

/// The index of the character that a click at column `target` of a text
/// falls on, counted from `from`: the first character with which the width of
/// the text reaches the column; the length of the text, if it never does.
pub open spec fn click_column_from(text: Seq<char>, target: nat, tab_size: nat, from: nat) -> nat
    decreases text.len() - from,
{
    if from >= text.len() {
        text.len()
    } else if text_width(text.take(from as int + 1), tab_size) >= target {
        from
    } else {
        click_column_from(text, target, tab_size, from + 1)
    }
}

/// The index of the character that a click at column `target` of a text
/// falls on.
pub open spec fn click_column(text: Seq<char>, target: nat, tab_size: nat) -> nat {
    click_column_from(text, target, tab_size, 0)
}

/// A click at the first column falls on the first character, whatever the
/// text.
pub proof fn law_click_first_column(text: Seq<char>, tab_size: nat)
    ensures
        click_column(text, 0, tab_size) == 0,
{
}

/// The index of the character that a click at column `target` of a text
/// falls on.
pub fn click_column_of(text: &str, target: u64, tab_size: u16) -> (column: u64)
    requires
        tab_size > 0,
    ensures
        column == click_column(text@, target as nat, tab_size as nat),
{
    let chars = chars_of(text);
    let mut width: u64 = 0;
    let mut i: usize = 0;
    assert(chars@.take(0) =~= Seq::<char>::empty());
    while i < chars.len()
        invariant
            i <= chars.len(),
            tab_size > 0,
            chars@ == text@,
            width == text_width(chars@.take(i as int), tab_size as nat),
            i > 0 ==> width < target,
            click_column_from(chars@, target as nat, tab_size as nat, i as nat) == click_column(
                chars@,
                target as nat,
                tab_size as nat,
            ),
        decreases chars.len() - i,
    {
        let step = char_columns(width, chars[i], tab_size);
        proof {
            lemma_width_step(chars@, i as int, tab_size as nat);
        }
        if width >= target || step as u64 >= target - width {
            return i as u64;
        }
        width = width + step as u64;
        i += 1;
    }
    chars.len() as u64
}

/// The width of the first `count` characters of a text, or of the whole text
/// if it is shorter; a width over `limit` is reported as `limit + 1`.
pub fn prefix_width(text: &str, count: u64, tab_size: u16, limit: u16) -> (width: u32)
    requires
        tab_size > 0,
    ensures
        width == capped(prefix_width_of(text@, count as nat, tab_size as nat), limit as nat),
{
    let chars = chars_of(text);
    let ghost n: int = if count > chars@.len() {
        chars@.len() as int
    } else {
        count as int
    };
    let mut width: u32 = 0;
    let mut i: usize = 0;
    assert(chars@.take(0) =~= Seq::<char>::empty());
    while i < chars.len() && (i as u64) < count
        invariant
            i <= n <= chars.len(),
            n == (if count > chars@.len() {
                chars@.len() as int
            } else {
                count as int
            }),
            tab_size > 0,
            chars@ == text@,
            width <= limit,
            width == text_width(chars@.take(i as int), tab_size as nat),
        decreases chars.len() - i,
    {
        let step = char_columns(width as u64, chars[i], tab_size);
        proof {
            lemma_width_step(chars@, i as int, tab_size as nat);
        }
        width = width + step as u32;
        i += 1;
        if width > limit as u32 {
            proof {
                lemma_width_monotonic(chars@, i as int, n, tab_size as nat);
                assert(chars@.take(chars@.len() as int) =~= chars@);
            }
            return limit as u32 + 1;
        }
    }
    assert(i == n);
    assert(chars@.take(chars@.len() as int) =~= chars@);
    width
}

/// The width of the first `count` characters of a text, or of the whole text
/// if it is shorter.
pub open spec fn prefix_width_of(text: Seq<char>, count: nat, tab_size: nat) -> nat {
    if count > text.len() {
        text_width(text, tab_size)
    } else {
        text_width(text.take(count as int), tab_size)
    }
}

/// A number, or `limit + 1` in place of any number greater than `limit`.
pub open spec fn capped(n: nat, limit: nat) -> nat {
    if n > limit {
        limit + 1
    } else {
        n
    }
}

} // verus!
