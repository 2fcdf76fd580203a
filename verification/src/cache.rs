//! The line cache: the part of the buffer that is held locally.
//!
//! The cache holds a run of materialized lines and two counts: the lines
//! that are known to exist before that run and after it without being loaded.
//! The line of index `i` in the run is line `before + i` of the document. The
//! cache changes only as a whole, by an update that the engine sends.

use vstd::prelude::*;
use crate::line::{clone_lines, lines_view, Line, LineView};
use crate::op::{
    applied, apply_ops, invalidated, law_copy_all_round_trip, ops_view, DiffError, Op, OpType,
    OpView,
};

verus! {

/// An update of the cache as the engine sends it: the counts of lines not
/// loaded before and after the materialized ones, and the operations that
/// make the new materialized lines from the old.
#[derive(Debug, Clone, PartialEq, Eq)]
pub struct Update {
    pub before: u64,
    pub after: u64,
    pub ops: Vec<Op>,
}

/// The local projection of the buffer.
#[derive(Debug, PartialEq, Eq)]
pub struct LineCache {
    invalid_before: u64,
    lines: Vec<Line>,
    invalid_after: u64,
}

/// The mathematical value of a [`LineCache`].
pub struct LineCacheView {
    pub before: nat,
    pub lines: Seq<LineView>,
    pub after: nat,
}

impl LineCacheView {
    /// The number of lines of the document.
    pub open spec fn height(self) -> nat {
        self.before + self.lines.len() + self.after
    }

    /// Whether the line numbers of the document fit in 64 bits.
    pub open spec fn fits(self) -> bool {
        self.height() <= u64::MAX
    }

    /// The cache after an update, or the reason why the update is dropped:
    /// the error of the operations, or that the new document would have more
    /// lines than 64 bits can count.
    pub open spec fn updated(self, before: nat, after: nat, ops: Seq<OpView>) -> Result<
        LineCacheView,
        DiffError,
    > {
        match applied(self.lines, ops) {
            Err(e) => Err(e),
            Ok(lines) => {
                let cache = LineCacheView { before, lines, after };
                if cache.fits() {
                    Ok(cache)
                } else {
                    Err(DiffError::IndexOverflow)
                }
            },
        }
    }
}

/// An update that keeps the two counts and copies as many lines as the cache
/// holds reproduces the cache.
pub proof fn law_cache_round_trip(cache: LineCacheView)
    requires
        cache.fits(),
    ensures
        cache.updated(
            cache.before,
            cache.after,
            seq![OpView { op: OpType::Cpy, n: cache.lines.len(), lines: None }],
        ) == Ok::<LineCacheView, DiffError>(cache),
{
    law_copy_all_round_trip(cache.lines);
}

impl View for LineCache {
    type V = LineCacheView;

    closed spec fn view(&self) -> LineCacheView {
        LineCacheView {
            before: self.invalid_before as nat,
            lines: lines_view(self.lines@),
            after: self.invalid_after as nat,
        }
    }
}

impl LineCache {
    #[verifier::type_invariant]
    spec fn fits(self) -> bool {
        self.invalid_before + self.lines@.len() + self.invalid_after <= u64::MAX
    }

    /// The materialized lines themselves.
    pub closed spec fn materialized(&self) -> Seq<Line> {
        self.lines@
    }

    /// The cache of an empty document.
    pub fn new() -> (cache: LineCache)
        ensures
            cache@ == (LineCacheView { before: 0, lines: Seq::empty(), after: 0 }),
    {
        let cache = LineCache { invalid_before: 0, lines: Vec::new(), invalid_after: 0 };
        assert(cache@.lines =~= Seq::<LineView>::empty());
        cache
    }

    /// The cache of the given lines and counts, unless the document would
    /// have more lines than 64 bits can count.
    pub fn from_parts(before: u64, lines: Vec<Line>, after: u64) -> (r: Option<LineCache>)
        ensures
            match r {
                Some(cache) => {
                    &&& before + lines@.len() + after <= u64::MAX
                    &&& cache@ == (LineCacheView {
                        before: before as nat,
                        lines: lines_view(lines@),
                        after: after as nat,
                    })
                },
                None => before + lines@.len() + after > u64::MAX,
            },
    {
        let len = lines.len() as u64;
        if before > u64::MAX - len || after > u64::MAX - len - before {
            None
        } else {
            Some(LineCache { invalid_before: before, lines, invalid_after: after })
        }
    }

    /// The number of lines not loaded before the materialized ones.
    pub fn before(&self) -> (n: u64)
        ensures
            n == self@.before,
    {
        self.invalid_before
    }

    /// The number of lines not loaded after the materialized ones.
    pub fn after(&self) -> (n: u64)
        ensures
            n == self@.after,
    {
        self.invalid_after
    }

    /// The materialized lines.
    pub fn lines(&self) -> (lines: &Vec<Line>)
        ensures
            lines@ == self.materialized(),
            lines_view(lines@) == self@.lines,
            self@.before + lines@.len() + self@.after <= u64::MAX,
    {
        proof {
            use_type_invariant(self);
        }
        &self.lines
    }

    /// The number of materialized lines.
    pub fn len(&self) -> (n: usize)
        ensures
            n == self@.lines.len(),
    {
        self.lines.len()
    }

    /// The materialized line of the given index, if there is one.
    pub fn line(&self, index: usize) -> (r: Option<&Line>)
        ensures
            match r {
                Some(line) => index < self@.lines.len() && line@ == self@.lines[index as int],
                None => index >= self@.lines.len(),
            },
    {
        if index < self.lines.len() {
            Some(&self.lines[index])
        } else {
            None
        }
    }

    /// The number of the document line that the materialized line of the
    /// given index is.
    pub fn line_number(&self, index: usize) -> (n: u64)
        requires
            index < self@.lines.len(),
        ensures
            n == self@.before + index,
    {
        proof {
            use_type_invariant(self);
        }
        self.invalid_before + index as u64
    }

    /// The number of lines of the document.
    pub fn height(&self) -> (n: u64)
        ensures
            n == self@.height(),
    {
        proof {
            use_type_invariant(self);
        }
        self.invalid_before + self.lines.len() as u64 + self.invalid_after
    }

    /// Whether the cache holds nothing: no materialized line, and no line
    /// known before or after.
    pub fn is_empty(&self) -> (r: bool)
        ensures
            r == (self@.height() == 0),
    {
        self.lines.len() == 0 && self.invalid_before == 0 && self.invalid_after == 0
    }

    /// The cache that an update makes of this one.
    pub fn apply(&self, update: &Update) -> (r: Result<LineCache, DiffError>)
        ensures
            match r {
                Ok(cache) => self@.updated(
                    update.before as nat,
                    update.after as nat,
                    ops_view(update.ops@),
                ) == Ok::<LineCacheView, DiffError>(cache@),
                Err(e) => self@.updated(
                    update.before as nat,
                    update.after as nat,
                    ops_view(update.ops@),
                ) == Err::<LineCacheView, DiffError>(e),
            },
    {
        match apply_ops(self.lines.as_slice(), &update.ops) {
            Err(e) => Err(e),
            Ok(lines) => {
                assert(lines_view(lines@).len() == lines@.len());
                match LineCache::from_parts(update.before, lines, update.after) {
                    Some(cache) => Ok(cache),
                    None => Err(DiffError::IndexOverflow),
                }
            },
        }
    }

    /// Replaces the cache by what an update makes of it. An update that
    /// cannot be applied is dropped: the cache stays as it is, and the error
    /// is returned.
    pub fn update(&mut self, update: Update) -> (r: Result<(), DiffError>)
        ensures
            match r {
                Ok(()) => old(self)@.updated(
                    update.before as nat,
                    update.after as nat,
                    ops_view(update.ops@),
                ) == Ok::<LineCacheView, DiffError>(final(self)@),
                Err(e) => {
                    &&& old(self)@.updated(
                        update.before as nat,
                        update.after as nat,
                        ops_view(update.ops@),
                    ) == Err::<LineCacheView, DiffError>(e)
                    &&& *final(self) == *old(self)
                },
            },
    {
        match self.apply(&update) {
            Ok(cache) => {
                *self = cache;
                Ok(())
            },
            Err(e) => Err(e),
        }
    }
}

impl Clone for LineCache {
    fn clone(&self) -> (cache: LineCache)
        ensures
            cache@ == self@,
    {
        proof {
            use_type_invariant(self);
        }
        let lines = clone_lines(&self.lines);
        assert(lines_view(lines@).len() == lines_view(self.lines@).len());
        LineCache { invalid_before: self.invalid_before, lines, invalid_after: self.invalid_after }
    }
}

impl Default for LineCache {
    fn default() -> (cache: LineCache)
        ensures
            cache@ == (LineCacheView { before: 0, lines: Seq::empty(), after: 0 }),
    {
        LineCache::new()
    }
}

/// The number of `invalidate` operations that the operations start with.
pub open spec fn lead_count(ops: Seq<OpView>) -> nat
    decreases ops.len(),
{
    if ops.len() > 0 && ops[0].op == OpType::Invalidate {
        1 + lead_count(ops.skip(1))
    } else {
        0
    }
}

/// The number of `invalidate` operations that the operations end with.
pub open spec fn trail_count(ops: Seq<OpView>) -> nat
    decreases ops.len(),
{
    if ops.len() > 0 && ops.last().op == OpType::Invalidate {
        1 + trail_count(ops.drop_last())
    } else {
        0
    }
}

/// The `invalidate` operations that the operations start with.
pub open spec fn leading(ops: Seq<OpView>) -> Seq<OpView> {
    ops.take(lead_count(ops) as int)
}

/// The operations without the `invalidate` operations that they start with.
pub open spec fn after_leading(ops: Seq<OpView>) -> Seq<OpView> {
    ops.skip(lead_count(ops) as int)
}

/// The `invalidate` operations that the operations end with, once those that
/// they start with are taken off.
pub open spec fn trailing(ops: Seq<OpView>) -> Seq<OpView> {
    let rest = after_leading(ops);
    rest.skip(rest.len() - trail_count(rest))
}

/// The operations between the `invalidate` operations that they start with
/// and those that they end with.
pub open spec fn between(ops: Seq<OpView>) -> Seq<OpView> {
    let rest = after_leading(ops);
    rest.take(rest.len() - trail_count(rest))
}

/// A number, or the greatest 64-bit number in place of any greater one.
pub open spec fn saturated(n: nat) -> u64 {
    if n > u64::MAX {
        u64::MAX
    } else {
        n as u64
    }
}

/// The lines that operations put in as placeholders are those of the first
/// part and those of the second.
pub proof fn lemma_invalidated_concat(a: Seq<OpView>, b: Seq<OpView>)
    ensures
        invalidated(a + b) == invalidated(a) + invalidated(b),
    decreases b.len(),
{
    if b.len() == 0 {
        assert(a + b =~= a);
    } else {
        assert((a + b).drop_last() =~= a + b.drop_last());
        assert((a + b).last() == b.last());
        lemma_invalidated_concat(a, b.drop_last());
    }
}

fn is_invalidate(op: &Op) -> (r: bool)
    ensures
        r == (op@.op == OpType::Invalidate),
{
    match op.op_type() {
        OpType::Invalidate => true,
        _ => false,
    }
}

fn saturating_sum(total: u64, n: u64) -> (r: u64)
    ensures
        r == saturated((total + n) as nat),
{
    if n > u64::MAX - total {
        u64::MAX
    } else {
        total + n
    }
}

/// The update of the cache that the operations of the engine make up. The
/// engine counts the lines that are not loaded by `invalidate` operations:
/// those that the operations start with give the count of lines before the
/// materialized ones, those that they end with the count of lines after, each
/// held at the greatest 64-bit number, and the operations between them are
/// the operations of the update.
pub fn update_of(ops: Vec<Op>) -> (u: Update)
    ensures
        u.before == saturated(invalidated(leading(ops_view(ops@)))),
        u.after == saturated(invalidated(trailing(ops_view(ops@)))),
        ops_view(u.ops@) == between(ops_view(ops@)),
{
    let ghost all = ops_view(ops@);
    let mut ops = ops;
    let mut before: u64 = 0;
    let ghost mut k: int = 0;
    assert(all.skip(0) =~= all);
    assert(all.take(0) =~= Seq::<OpView>::empty());
    while ops.len() > 0 && is_invalidate(&ops[0])
        invariant
            0 <= k <= all.len(),
            ops_view(ops@) == all.skip(k),
            lead_count(all) == k + lead_count(all.skip(k)),
            before == saturated(invalidated(all.take(k))),
        decreases ops.len(),
    {
        let ghost held = ops@;
        let op = ops.remove(0);
        proof {
            assert(ops_view(held)[0] == held[0]@);
            assert(all.skip(k)[0] == all[k]);
            assert(ops_view(ops@) =~= all.skip(k + 1)) by {
                assert forall|j: int| 0 <= j < ops@.len() implies #[trigger] ops_view(ops@)[j]
                    == all.skip(k + 1)[j] by {
                    assert(ops@[j] == held[j + 1]);
                    assert(ops_view(held)[j + 1] == held[j + 1]@);
                    assert(all.skip(k)[j + 1] == all[k + j + 1]);
                }
            }
            assert(all.skip(k).skip(1) =~= all.skip(k + 1));
            assert(all.take(k + 1).drop_last() =~= all.take(k));
            assert(all.take(k + 1).last() == all[k]);
        }
        before = saturating_sum(before, op.n());
        proof {
            k = k + 1;
        }
    }
    proof {
        if ops@.len() > 0 {
            assert(ops_view(ops@)[0] == ops@[0]@);
            assert(all.skip(k)[0] == ops@[0]@);
        }
        assert(lead_count(all) == k);
    }
    let ghost rest = all.skip(k);
    let mut after: u64 = 0;
    let ghost mut m: int = rest.len() as int;
    assert(rest.take(m) =~= rest);
    assert(rest.skip(m) =~= Seq::<OpView>::empty());
    while ops.len() > 0 && is_invalidate(&ops[ops.len() - 1])
        invariant
            0 <= m <= rest.len(),
            ops_view(ops@) == rest.take(m),
            trail_count(rest) == (rest.len() - m) + trail_count(rest.take(m)),
            after == saturated(invalidated(rest.skip(m))),
        decreases ops.len(),
    {
        let ghost held = ops@;
        assert(ops_view(held).last() == held.last()@);
        let op = ops.pop().unwrap();
        proof {
            assert(ops_view(held).last() == held.last()@);
            assert(rest.take(m).last() == rest[m - 1]);
            assert(ops_view(ops@) =~= rest.take(m - 1)) by {
                assert forall|j: int| 0 <= j < ops@.len() implies #[trigger] ops_view(ops@)[j]
                    == rest.take(m - 1)[j] by {
                    assert(ops@[j] == held[j]);
                    assert(ops_view(held)[j] == held[j]@);
                }
            }
            assert(rest.take(m).drop_last() =~= rest.take(m - 1));
            assert(rest.skip(m - 1) =~= seq![rest[m - 1]] + rest.skip(m));
            lemma_invalidated_concat(seq![rest[m - 1]], rest.skip(m));
            assert(seq![rest[m - 1]].drop_last() =~= Seq::<OpView>::empty());
            assert(rest[m - 1].op == OpType::Invalidate);
            assert(invalidated(seq![rest[m - 1]]) == rest[m - 1].n) by {
                assert(seq![rest[m - 1]].last() == rest[m - 1]);
                assert(invalidated(Seq::<OpView>::empty()) == 0);
            }
        }
        after = saturating_sum(op.n(), after);
        proof {
            m = m - 1;
        }
    }
    proof {
        if ops@.len() > 0 {
            assert(ops_view(ops@).last() == ops@.last()@);
            assert(rest.take(m).last() == ops@.last()@);
        }
        assert(trail_count(rest) == rest.len() - m);
    }
    Update { before, after, ops }
}

} // verus!
