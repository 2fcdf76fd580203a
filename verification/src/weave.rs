//! What the styled text is, place by place.
//!
//! The renderer puts the style sequences into the text one after the other,
//! from the last place to the first. This module says what comes of it
//! without speaking of an order of insertion: at every place of the text
//! stand the sequences that belong there, in the order of the runs that call
//! for them, and after them the character of that place.

use vstd::prelude::*;
use crate::line::StyleDef;
use crate::render::{
    descending, escaped, insert_at, insert_position, inserted, is_descending, law_descending,
    lemma_insert_position, run_points, runs_end, style_points, styled,
    styled_line, InsertionView,
};
use crate::style::Style;

verus! {

/// The sequences that go in at place `k`, in the order of the insertions.
pub open spec fn marks_at(points: Seq<InsertionView>, k: nat) -> Seq<char>
    decreases points.len(),
{
    if points.len() == 0 {
        Seq::empty()
    } else {
        marks_at(points.drop_last(), k) + (if points.last().offset == k {
            points.last().sequence
        } else {
            Seq::empty()
        })
    }
}

/// The styled text from place `k` on: the sequences of each place, then the
/// character of that place; after the last character, the sequences that go
/// in at the end.
pub open spec fn woven_from(text: Seq<char>, points: Seq<InsertionView>, k: nat) -> Seq<char>
    decreases text.len() - k,
{
    if k >= text.len() {
        marks_at(points, text.len())
    } else {
        marks_at(points, k) + seq![text[k as int]] + woven_from(text, points, k + 1)
    }
}

/// The text with the sequences of every place before the character of that
/// place.
pub open spec fn woven(text: Seq<char>, points: Seq<InsertionView>) -> Seq<char> {
    woven_from(text, points, 0)
}

/// Whether every insertion has its place within a text of `len` characters.
pub open spec fn all_within(points: Seq<InsertionView>, len: nat) -> bool {
    forall|j: int| 0 <= j < points.len() ==> (#[trigger] points[j]).offset <= len
}

/// The sequences that go in at place `k`, the last insertion first.
spec fn marks_rev(ordered: Seq<InsertionView>, k: nat) -> Seq<char>
    decreases ordered.len(),
{
    if ordered.len() == 0 {
        Seq::empty()
    } else {
        (if ordered.last().offset == k {
            ordered.last().sequence
        } else {
            Seq::empty()
        }) + marks_rev(ordered.drop_last(), k)
    }
}

/// The styled text from place `k` on, the sequences of each place taken the
/// last insertion first.
spec fn woven_rev_from(text: Seq<char>, ordered: Seq<InsertionView>, k: nat) -> Seq<char>
    decreases text.len() - k,
{
    if k >= text.len() {
        marks_rev(ordered, text.len())
    } else {
        marks_rev(ordered, k) + seq![text[k as int]] + woven_rev_from(text, ordered, k + 1)
    }
}

proof fn lemma_marks_rev_concat(a: Seq<InsertionView>, b: Seq<InsertionView>, k: nat)
    ensures
        marks_rev(a + b, k) == marks_rev(b, k) + marks_rev(a, k),
    decreases b.len(),
{
    if b.len() == 0 {
        assert(a + b =~= a);
        assert(marks_rev(b, k) + marks_rev(a, k) =~= marks_rev(a, k));
    } else {
        assert((a + b).drop_last() =~= a + b.drop_last());
        assert((a + b).last() == b.last());
        lemma_marks_rev_concat(a, b.drop_last(), k);
        let head = if b.last().offset == k {
            b.last().sequence
        } else {
            Seq::<char>::empty()
        };
        assert(head + (marks_rev(b.drop_last(), k) + marks_rev(a, k)) =~= (head + marks_rev(
            b.drop_last(),
            k,
        )) + marks_rev(a, k));
    }
}

proof fn lemma_marks_rev_none(ordered: Seq<InsertionView>, k: nat)
    requires
        forall|j: int| 0 <= j < ordered.len() ==> (#[trigger] ordered[j]).offset != k,
    ensures
        marks_rev(ordered, k) == Seq::<char>::empty(),
    decreases ordered.len(),
{
    if ordered.len() > 0 {
        let front = ordered.drop_last();
        assert forall|j: int| 0 <= j < front.len() implies (#[trigger] front[j]).offset != k by {
            assert(front[j] == ordered[j]);
        }
        lemma_marks_rev_none(front, k);
        assert(ordered.last() == ordered[ordered.len() - 1]);
        assert(Seq::<char>::empty() + Seq::<char>::empty() =~= Seq::<char>::empty());
    }
}

proof fn lemma_marks_rev_one(point: InsertionView, k: nat)
    ensures
        marks_rev(seq![point], k) == (if point.offset == k {
            point.sequence
        } else {
            Seq::<char>::empty()
        }),
{
    let one = seq![point];
    assert(one.drop_last() =~= Seq::<InsertionView>::empty());
    assert(one.last() == point);
    assert(marks_rev(one.drop_last(), k) =~= Seq::<char>::empty());
    assert(point.sequence + Seq::<char>::empty() =~= point.sequence);
    assert(Seq::<char>::empty() + Seq::<char>::empty() =~= Seq::<char>::empty());
}

/// Past every insertion the text stands as it is.
proof fn lemma_woven_rev_tail(text: Seq<char>, ordered: Seq<InsertionView>, k: nat)
    requires
        k <= text.len(),
        forall|j: int| 0 <= j < ordered.len() ==> (#[trigger] ordered[j]).offset < k,
    ensures
        woven_rev_from(text, ordered, k) == text.skip(k as int),
    decreases text.len() - k,
{
    if k >= text.len() {
        lemma_marks_rev_none(ordered, text.len());
        assert(text.skip(k as int) =~= Seq::<char>::empty());
    } else {
        lemma_marks_rev_none(ordered, k);
        lemma_woven_rev_tail(text, ordered, k + 1);
        assert(Seq::<char>::empty() + seq![text[k as int]] + text.skip(k as int + 1) =~= text.skip(
            k as int,
        ));
    }
}

/// The first of the insertions in order, which lies last in the text, parts
/// the styled text: before its sequence stands the text up to its place with
/// the other insertions, after it the rest of the text as it is.
proof fn lemma_woven_rev_head(
    text: Seq<char>,
    first: InsertionView,
    rest: Seq<InsertionView>,
    k: nat,
)
    requires
        first.offset <= text.len(),
        forall|j: int| 0 <= j < rest.len() ==> (#[trigger] rest[j]).offset <= first.offset,
        k <= first.offset,
    ensures
        woven_rev_from(text, seq![first] + rest, k) == woven_rev_from(
            text.take(first.offset as int),
            rest,
            k,
        ) + first.sequence + text.skip(first.offset as int),
    decreases first.offset - k,
{
    let o = first.offset;
    let all = seq![first] + rest;
    let front = text.take(o as int);
    lemma_marks_rev_concat(seq![first], rest, k);
    lemma_marks_rev_one(first, k);
    if k < o {
        lemma_woven_rev_head(text, first, rest, k + 1);
        assert(front[k as int] == text[k as int]);
        assert(marks_rev(all, k) =~= marks_rev(rest, k));
        let next = woven_rev_from(front, rest, k + 1);
        assert(marks_rev(rest, k) + seq![text[k as int]] + (next + first.sequence + text.skip(
            o as int,
        )) =~= (marks_rev(rest, k) + seq![text[k as int]] + next) + first.sequence + text.skip(
            o as int,
        ));
    } else {
        assert(woven_rev_from(front, rest, k) == marks_rev(rest, o));
        if o == text.len() {
            assert(text.skip(o as int) =~= Seq::<char>::empty());
            assert(marks_rev(rest, o) + first.sequence + Seq::<char>::empty() =~= marks_rev(
                rest,
                o,
            ) + first.sequence);
        } else {
            assert forall|j: int| 0 <= j < all.len() implies (#[trigger] all[j]).offset < o
                + 1 by {
                if j > 0 {
                    assert(all[j] == rest[j - 1]);
                }
            }
            lemma_woven_rev_tail(text, all, o + 1);
            assert((marks_rev(rest, o) + first.sequence) + seq![text[o as int]] + text.skip(
                o as int + 1,
            ) =~= marks_rev(rest, o) + first.sequence + text.skip(o as int));
        }
    }
}

/// Insertions within a text are not moved by what follows the text.
proof fn lemma_inserted_suffix(text: Seq<char>, suffix: Seq<char>, ordered: Seq<InsertionView>)
    requires
        all_within(ordered, text.len()),
    ensures
        inserted(text + suffix, ordered) == inserted(text, ordered) + suffix,
    decreases ordered.len(),
{
    if ordered.len() > 0 {
        let first = ordered[0];
        let rest = ordered.skip(1);
        let o = first.offset as int;
        let step = insert_at(text, first.offset, first.sequence);
        assert(insert_at(text + suffix, first.offset, first.sequence) =~= step + suffix);
        assert forall|j: int| 0 <= j < rest.len() implies (#[trigger] rest[j]).offset
            <= step.len() by {
            assert(rest[j] == ordered[j + 1]);
        }
        lemma_inserted_suffix(step, suffix, rest);
    }
}

/// Insertions made from the last place to the first give the styled text,
/// place by place.
proof fn lemma_inserted_woven(text: Seq<char>, ordered: Seq<InsertionView>)
    requires
        is_descending(ordered),
        all_within(ordered, text.len()),
    ensures
        inserted(text, ordered) == woven_rev_from(text, ordered, 0),
    decreases ordered.len(),
{
    if ordered.len() == 0 {
        lemma_woven_rev_tail(text, ordered, 0);
        assert(text.skip(0) =~= text);
    } else {
        let first = ordered[0];
        let rest = ordered.skip(1);
        let o = first.offset;
        let front = text.take(o as int);
        let tail = first.sequence + text.skip(o as int);
        assert(ordered =~= seq![first] + rest);
        assert forall|j: int| 0 <= j < rest.len() implies (#[trigger] rest[j]).offset <= o by {
            assert(rest[j] == ordered[j + 1]);
        }
        assert(is_descending(rest)) by {
            assert forall|i: int, j: int| 0 <= i < j < rest.len() implies rest[i].offset
                >= rest[j].offset by {
                assert(rest[i] == ordered[i + 1] && rest[j] == ordered[j + 1]);
            }
        }
        assert(all_within(rest, front.len()));
        assert(insert_at(text, o, first.sequence) =~= front + tail);
        lemma_inserted_suffix(front, tail, rest);
        lemma_inserted_woven(front, rest);
        lemma_woven_rev_head(text, first, rest, 0);
        assert(woven_rev_from(front, rest, 0) + tail =~= woven_rev_from(front, rest, 0)
            + first.sequence + text.skip(o as int));
    }
}

/// In the order of insertion the sequences of a place stand the other way
/// round than in the order of the runs.
proof fn lemma_marks_descending(points: Seq<InsertionView>, k: nat)
    ensures
        marks_rev(descending(points), k) == marks_at(points, k),
    decreases points.len(),
{
    if points.len() > 0 {
        let front = points.drop_last();
        let point = points.last();
        let ordered = descending(front);
        lemma_marks_descending(front, k);
        lemma_insert_position(ordered, point.offset);
        let i = insert_position(ordered, point.offset) as int;
        let before = ordered.take(i);
        let after = ordered.skip(i);
        assert(ordered =~= before + after);
        assert(ordered.insert(i, point) =~= (before + seq![point]) + after);
        lemma_marks_rev_concat(before, after, k);
        lemma_marks_rev_concat(before + seq![point], after, k);
        lemma_marks_rev_concat(before, seq![point], k);
        lemma_marks_rev_one(point, k);
        let empty = Seq::<char>::empty();
        if point.offset == k {
            assert forall|j: int| 0 <= j < before.len() implies (#[trigger] before[j]).offset
                != k by {
                assert(before[j] == ordered[j]);
            }
            lemma_marks_rev_none(before, k);
            assert(marks_rev(after, k) + (point.sequence + empty) =~= (marks_rev(after, k) + empty)
                + point.sequence);
        } else {
            assert(marks_rev(after, k) + (empty + marks_rev(before, k)) =~= marks_rev(after, k)
                + marks_rev(before, k));
            assert(marks_at(front, k) + empty =~= marks_at(front, k));
        }
    }
}

proof fn lemma_woven_same(text: Seq<char>, points: Seq<InsertionView>, k: nat)
    ensures
        woven_rev_from(text, descending(points), k) == woven_from(text, points, k),
    decreases text.len() - k,
{
    if k >= text.len() {
        lemma_marks_descending(points, text.len());
    } else {
        lemma_marks_descending(points, k);
        lemma_woven_same(text, points, k + 1);
    }
}

proof fn lemma_descending_within(points: Seq<InsertionView>, len: nat)
    requires
        all_within(points, len),
    ensures
        all_within(descending(points), len),
    decreases points.len(),
{
    if points.len() > 0 {
        let front = points.drop_last();
        let point = points.last();
        assert(all_within(front, len)) by {
            assert forall|j: int| 0 <= j < front.len() implies (#[trigger] front[j]).offset
                <= len by {
                assert(front[j] == points[j]);
            }
        }
        lemma_descending_within(front, len);
        let ordered = descending(front);
        lemma_insert_position(ordered, point.offset);
        let i = insert_position(ordered, point.offset) as int;
        let result = ordered.insert(i, point);
        assert(point == points[points.len() - 1]);
        assert forall|j: int| 0 <= j < result.len() implies (#[trigger] result[j]).offset <= len by {
            if j < i {
                assert(result[j] == ordered[j]);
            } else if j > i {
                assert(result[j] == ordered[j - 1]);
            }
        }
    }
}

/// Where every insertion has its place within the text, the text with the
/// insertions made from the last place to the first is the text with the
/// sequences of every place, in the order of the insertions, before the
/// character of that place.
pub proof fn law_styled_is_woven(text: Seq<char>, points: Seq<InsertionView>)
    requires
        all_within(points, text.len()),
    ensures
        styled(text, points) == woven(text, points),
{
    law_descending(points);
    lemma_descending_within(points, text.len());
    lemma_inserted_woven(text, descending(points));
    lemma_woven_same(text, points, 0);
}

/// The insertions that the runs of a line call for have their places within
/// the text.
pub proof fn lemma_points_within(runs: Seq<StyleDef>, styles: Map<u64, Style>, len: nat)
    ensures
        all_within(style_points(runs, styles, len), len),
        runs_end(runs, len) <= len,
    decreases runs.len(),
{
    if runs.len() > 0 {
        let front = runs.drop_last();
        lemma_points_within(front, styles, len);
        let before = style_points(front, styles, len);
        let added = run_points(runs_end(front, len), runs.last(), styles, len);
        let all = before + added;
        assert forall|j: int| 0 <= j < all.len() implies (#[trigger] all[j]).offset <= len by {
            if j < before.len() {
                assert(all[j] == before[j]);
            } else {
                assert(all[j] == added[j - before.len()]);
            }
        }
    }
}

/// What is shown for a line is its escaped text with, at every place, the
/// sequences of the runs that start or end there, in the order of the runs,
/// before the character of that place.
pub proof fn law_styled_line_is_woven(
    text: Seq<char>,
    runs: Seq<StyleDef>,
    styles: Map<u64, Style>,
    tab_size: nat,
)
    ensures
        styled_line(text, runs, styles, tab_size) == woven(
            escaped(text, tab_size),
            style_points(runs, styles, escaped(text, tab_size).len()),
        ),
{
    let shown = escaped(text, tab_size);
    lemma_points_within(runs, styles, shown.len());
    law_styled_is_woven(shown, style_points(runs, styles, shown.len()));
}

} // verus!
