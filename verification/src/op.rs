//! The operations of an update, and the engine that applies them.
//!
//! An update is an ordered list of operations. Applying it walks the lines of
//! the old cache with an index that starts at zero, and builds the lines of
//! the new cache: `copy` hands old lines on, `skip` passes over them,
//! `invalidate` puts placeholders in, `update` keeps the old text under new
//! cursors and styles, and `ins` brings new lines.

use vstd::prelude::*;
use crate::line::{lemma_lines_view_push, lines_view, Line, LineView};
use crate::text::str_eq;

verus! {

/// The kind of an operation.
#[derive(Debug, Clone, Copy, PartialEq, Eq, Structural)]
pub enum OpType {
    Cpy,
    Skip,
    Invalidate,
    Update,
    Ins,
}

/// The name that is no kind of operation.
#[derive(Debug, PartialEq, Eq)]
pub struct OpTypeParseError {
    op: String,
}

/// What the `Debug` formatting of the standard library makes of a string: the
/// string between double quotes, with its special characters escaped.
pub uninterp spec fn debug_form(s: Seq<char>) -> Seq<char>;

/// Formats a string for debugging.
///
/// Trusted: `format!` with `{:?}` on a `str`, whose result depends on the
/// string alone.
#[verifier::external_body]
fn debug_string(s: &str) -> (r: String)
    ensures
        r@ == debug_form(s@),
{
    format!("{:?}", s)
}

/// The kind of operation that a name of the update protocol stands for.
pub open spec fn op_type_of(name: Seq<char>) -> Option<OpType> {
    if name == "copy"@ {
        Some(OpType::Cpy)
    } else if name == "skip"@ {
        Some(OpType::Skip)
    } else if name == "invalidate"@ {
        Some(OpType::Invalidate)
    } else if name == "update"@ {
        Some(OpType::Update)
    } else if name == "ins"@ {
        Some(OpType::Ins)
    } else {
        None
    }
}

impl OpTypeParseError {
    /// The name that was rejected.
    pub closed spec fn name(&self) -> Seq<char> {
        self.op@
    }

    /// The name that was rejected.
    pub fn op(&self) -> (name: &str)
        ensures
            name@ == self.name(),
    {
        self.op.as_str()
    }

    /// The name of this kind of error.
    pub fn description(&self) -> (r: &'static str)
        ensures
            r@ == "OpTypeParseError"@,
    {
        "OpTypeParseError"
    }

    /// The message of the error, given the rejected name as formatted for
    /// debugging.
    pub fn message_for(quoted: &str) -> (r: String)
        ensures
            r@ == "Unknown Op type "@ + quoted@,
    {
        let mut r = String::from_str("Unknown Op type ");
        r.append(quoted);
        r
    }

    /// The message of the error.
    pub fn message(&self) -> (r: String)
        ensures
            r@ == "Unknown Op type "@ + debug_form(self.name()),
    {
        let quoted = debug_string(self.op.as_str());
        OpTypeParseError::message_for(quoted.as_str())
    }
}

impl OpType {
    /// Reads the kind of an operation from its name in the update protocol.
    pub fn from_str(op: &str) -> (r: Result<OpType, OpTypeParseError>)
        ensures
            match r {
                Ok(kind) => op_type_of(op@) == Some(kind),
                Err(e) => op_type_of(op@) is None && e.name() == op@,
            },
    {
        if str_eq(op, "copy") {
            Ok(OpType::Cpy)
        } else if str_eq(op, "skip") {
            Ok(OpType::Skip)
        } else if str_eq(op, "invalidate") {
            Ok(OpType::Invalidate)
        } else if str_eq(op, "update") {
            Ok(OpType::Update)
        } else if str_eq(op, "ins") {
            Ok(OpType::Ins)
        } else {
            Err(OpTypeParseError { op: op.to_owned() })
        }
    }
}

/// Why an update cannot be applied.
#[derive(Debug, Clone, Copy, PartialEq, Eq, Structural)]
pub enum DiffError {
    /// An operation reads old lines past the end of the cache.
    OutOfRange,
    /// An `update` comes with fewer lines than it updates, or an `update` or
    /// an `ins` with none at all.
    MissingLines,
    /// The index into the old lines, or the number of lines of the document,
    /// leaves the range of 64-bit numbers.
    IndexOverflow,
}

/// One operation of an update.
#[derive(Debug, Clone, PartialEq, Eq)]
pub struct Op {
    op: OpType,
    n: u64,
    lines: Option<Vec<Line>>,
}

/// The mathematical value of an [`Op`].
pub struct OpView {
    pub op: OpType,
    pub n: nat,
    pub lines: Option<Seq<LineView>>,
}

impl View for Op {
    type V = OpView;

    closed spec fn view(&self) -> OpView {
        OpView {
            op: self.op,
            n: self.n as nat,
            lines: match self.lines {
                Some(lines) => Some(lines_view(lines@)),
                None => None,
            },
        }
    }
}

/// The mathematical values of a sequence of operations.
pub open spec fn ops_view(ops: Seq<Op>) -> Seq<OpView> {
    ops.map_values(|op: Op| op@)
}

impl OpView {
    /// Why the operation cannot be applied at `index` to `old_len` old lines,
    /// if it cannot.
    pub open spec fn fault(self, old_len: nat, index: nat) -> Option<DiffError> {
        match self.op {
            OpType::Cpy => if self.n > 0 && index + self.n > old_len {
                Some(DiffError::OutOfRange)
            } else {
                None
            },
            OpType::Skip | OpType::Invalidate => if index + self.n > u64::MAX {
                Some(DiffError::IndexOverflow)
            } else {
                None
            },
            OpType::Update => match self.lines {
                None => Some(DiffError::MissingLines),
                Some(lines) => if lines.len() < self.n {
                    Some(DiffError::MissingLines)
                } else if self.n > 0 && index + self.n > old_len {
                    Some(DiffError::OutOfRange)
                } else {
                    None
                },
            },
            OpType::Ins => match self.lines {
                None => Some(DiffError::MissingLines),
                Some(_) => None,
            },
        }
    }

    /// The lines that the operation adds to the new cache.
    pub open spec fn output(self, old: Seq<LineView>, index: nat) -> Seq<LineView> {
        match self.op {
            OpType::Cpy => if self.n == 0 {
                Seq::empty()
            } else {
                old.subrange(index as int, (index + self.n) as int)
            },
            OpType::Skip => Seq::empty(),
            OpType::Invalidate => Seq::new(self.n, |i: int| LineView::placeholder()),
            OpType::Update => Seq::new(
                self.n,
                |i: int| old[index as int + i].with_marks_of(self.lines->0[i]),
            ),
            OpType::Ins => self.lines->0,
        }
    }

    /// The index into the old lines after the operation.
    pub open spec fn next_index(self, index: nat) -> nat {
        match self.op {
            OpType::Ins => index,
            _ => index + self.n,
        }
    }

    /// The number of old lines that the operation reads or passes over.
    pub open spec fn consumed(self) -> nat {
        match self.op {
            OpType::Cpy | OpType::Skip | OpType::Update => self.n,
            _ => 0,
        }
    }

    /// The number of placeholder lines that the operation puts in.
    pub open spec fn invalidated(self) -> nat {
        match self.op {
            OpType::Invalidate => self.n,
            _ => 0,
        }
    }

    /// The number of lines that the operation adds to the new cache.
    pub open spec fn emitted(self) -> nat {
        match self.op {
            OpType::Cpy | OpType::Invalidate | OpType::Update => self.n,
            OpType::Skip => 0,
            OpType::Ins => match self.lines {
                Some(lines) => lines.len(),
                None => 0,
            },
        }
    }

    /// Whether the operation comes with the lines that it needs.
    pub open spec fn has_its_lines(self) -> bool {
        match self.op {
            OpType::Update => self.lines is Some && self.lines->0.len() >= self.n,
            OpType::Ins => self.lines is Some,
            _ => true,
        }
    }
}

/// Where the engine stands between two operations.
pub struct DiffState {
    /// The index of the next old line.
    pub index: nat,
    /// The lines of the new cache so far.
    pub lines: Seq<LineView>,
}

/// The state after one more operation, or the reason why it cannot be applied.
pub open spec fn step(old: Seq<LineView>, state: DiffState, op: OpView) -> Result<
    DiffState,
    DiffError,
> {
    match op.fault(old.len(), state.index) {
        Some(e) => Err(e),
        None => Ok(
            DiffState {
                index: op.next_index(state.index),
                lines: state.lines + op.output(old, state.index),
            },
        ),
    }
}

/// The state after all the operations, in order, or the error of the first
/// that cannot be applied.
pub open spec fn run(old: Seq<LineView>, ops: Seq<OpView>) -> Result<DiffState, DiffError>
    decreases ops.len(),
{
    if ops.len() == 0 {
        Ok(DiffState { index: 0, lines: Seq::empty() })
    } else {
        match run(old, ops.drop_last()) {
            Err(e) => Err(e),
            Ok(state) => step(old, state, ops.last()),
        }
    }
}

/// The lines of the new cache, or the reason why the update is dropped.
pub open spec fn applied(old: Seq<LineView>, ops: Seq<OpView>) -> Result<Seq<LineView>, DiffError> {
    match run(old, ops) {
        Ok(state) => Ok(state.lines),
        Err(e) => Err(e),
    }
}

/// The total of [`OpView::consumed`] over the operations.
pub open spec fn consumed(ops: Seq<OpView>) -> nat
    decreases ops.len(),
{
    if ops.len() == 0 {
        0
    } else {
        consumed(ops.drop_last()) + ops.last().consumed()
    }
}

/// The total of [`OpView::invalidated`] over the operations.
pub open spec fn invalidated(ops: Seq<OpView>) -> nat
    decreases ops.len(),
{
    if ops.len() == 0 {
        0
    } else {
        invalidated(ops.drop_last()) + ops.last().invalidated()
    }
}

/// The total of [`OpView::emitted`] over the operations.
pub open spec fn emitted(ops: Seq<OpView>) -> nat
    decreases ops.len(),
{
    if ops.len() == 0 {
        0
    } else {
        emitted(ops.drop_last()) + ops.last().emitted()
    }
}

/// Whether every operation comes with the lines that it needs.
pub open spec fn all_have_lines(ops: Seq<OpView>) -> bool {
    forall|i: int| 0 <= i < ops.len() ==> (#[trigger] ops[i]).has_its_lines()
}

/// Once an operation has failed, the update has failed with its error.
pub proof fn lemma_error_sticks(old: Seq<LineView>, ops: Seq<OpView>, k: int)
    requires
        0 <= k <= ops.len(),
        run(old, ops.take(k)) is Err,
    ensures
        run(old, ops) == run(old, ops.take(k)),
    decreases ops.len(),
{
    if k == ops.len() {
        assert(ops.take(k) =~= ops);
    } else {
        assert(ops.drop_last().take(k) =~= ops.take(k));
        lemma_error_sticks(old, ops.drop_last(), k);
    }
}

/// An update that is applied adds as many lines as its operations emit.
pub proof fn law_applied_length(old: Seq<LineView>, ops: Seq<OpView>)
    requires
        run(old, ops) is Ok,
    ensures
        run(old, ops)->Ok_0.lines.len() == emitted(ops),
    decreases ops.len(),
{
    if ops.len() > 0 {
        law_applied_length(old, ops.drop_last());
    }
}

/// Operations that come with their lines, that put no placeholder in, and
/// whose `copy`, `skip` and `update` counts add up to no more than the number
/// of old lines, can be applied; the index then stands at the number of lines
/// consumed.
pub proof fn lemma_consuming_run(old: Seq<LineView>, ops: Seq<OpView>)
    requires
        old.len() <= u64::MAX,
        all_have_lines(ops),
        invalidated(ops) == 0,
        consumed(ops) <= old.len(),
    ensures
        run(old, ops) is Ok,
        run(old, ops)->Ok_0.index == consumed(ops),
        run(old, ops)->Ok_0.lines.len() == emitted(ops),
    decreases ops.len(),
{
    if ops.len() > 0 {
        let front = ops.drop_last();
        assert(all_have_lines(front)) by {
            assert forall|i: int| 0 <= i < front.len() implies (#[trigger] front[i]).has_its_lines() by {
                assert(front[i] == ops[i]);
            }
        }
        assert(ops.last() == ops[ops.len() - 1]);
        assert(ops.last().has_its_lines());
        lemma_consuming_run(old, front);
    }
}

/// An update whose operations exactly consume the old lines, come with their
/// lines and put no placeholder in is applied, and the new cache has as many
/// lines as the operations emit.
pub proof fn law_exact_consumption(old: Seq<LineView>, ops: Seq<OpView>)
    requires
        old.len() <= u64::MAX,
        all_have_lines(ops),
        invalidated(ops) == 0,
        consumed(ops) == old.len(),
    ensures
        applied(old, ops) is Ok,
        applied(old, ops)->Ok_0.len() == emitted(ops),
{
    lemma_consuming_run(old, ops);
}

/// `copy n` alone hands on the first `n` old lines, each with its text, its
/// cursors and its styles.
pub proof fn law_copy_keeps_lines(old: Seq<LineView>, n: nat, lines: Option<Seq<LineView>>)
    requires
        n <= old.len(),
    ensures
        applied(old, seq![OpView { op: OpType::Cpy, n, lines }]) == Ok::<
            Seq<LineView>,
            DiffError,
        >(old.take(n as int)),
{
    let op = OpView { op: OpType::Cpy, n, lines };
    let ops = seq![op];
    assert(ops.drop_last() =~= Seq::<OpView>::empty());
    assert(ops.last() == op);
    assert(run(old, ops.drop_last()) == Ok::<DiffState, DiffError>(
        DiffState { index: 0, lines: Seq::empty() },
    ));
    assert(Seq::<LineView>::empty() + old.subrange(0, n as int) =~= old.take(n as int));
}

/// `update n` alone keeps the text of each of the first `n` old lines and
/// gives it the cursors and the styles of the line that comes with the
/// operation at the same place.
pub proof fn law_update_keeps_text(old: Seq<LineView>, n: nat, lines: Seq<LineView>)
    requires
        n <= old.len(),
        n <= lines.len(),
    ensures
        applied(old, seq![OpView { op: OpType::Update, n, lines: Some(lines) }]) is Ok,
        applied(old, seq![OpView { op: OpType::Update, n, lines: Some(lines) }])->Ok_0.len() == n,
        forall|i: int|
            0 <= i < n ==> {
                let line = #[trigger] applied(
                    old,
                    seq![OpView { op: OpType::Update, n, lines: Some(lines) }],
                )->Ok_0[i];
                &&& line.text == old[i].text
                &&& line.cursor == lines[i].cursor
                &&& line.styles == lines[i].styles
            },
{
    let op = OpView { op: OpType::Update, n, lines: Some(lines) };
    let ops = seq![op];
    assert(ops.drop_last() =~= Seq::<OpView>::empty());
    assert(ops.last() == op);
    assert(run(old, ops.drop_last()) == Ok::<DiffState, DiffError>(
        DiffState { index: 0, lines: Seq::empty() },
    ));
    let out = op.output(old, 0);
    assert(Seq::<LineView>::empty() + out =~= out);
}

/// Copying as many lines as the old cache holds reproduces them all.
pub proof fn law_copy_all_round_trip(old: Seq<LineView>)
    ensures
        applied(old, seq![OpView { op: OpType::Cpy, n: old.len(), lines: None }]) == Ok::<
            Seq<LineView>,
            DiffError,
        >(old),
{
    law_copy_keeps_lines(old, old.len(), None);
    assert(old.take(old.len() as int) =~= old);
}

impl Op {
    pub fn new(op: OpType, n: u64, lines: Option<Vec<Line>>) -> (r: Op)
        ensures
            r@ == (OpView {
                op,
                n: n as nat,
                lines: match lines {
                    Some(l) => Some(lines_view(l@)),
                    None => None,
                },
            }),
    {
        Op { op, n, lines }
    }

    /// The kind of the operation.
    pub fn op_type(&self) -> (op: OpType)
        ensures
            op == self@.op,
    {
        self.op
    }

    /// The number of lines that the operation is about.
    pub fn n(&self) -> (n: u64)
        ensures
            n == self@.n,
    {
        self.n
    }

    /// Applies the operation: reads `old_lines` from `old_line_index` on, adds
    /// to `new_lines`, and returns the index after it. An operation that
    /// cannot be applied leaves `new_lines` as it is.
    pub fn apply(&self, old_lines: &[Line], old_line_index: u64, new_lines: &mut Vec<Line>) -> (r:
        Result<u64, DiffError>)
        ensures
            match r {
                Ok(next) => {
                    &&& self@.fault(old_lines@.len(), old_line_index as nat) is None
                    &&& next == self@.next_index(old_line_index as nat)
                    &&& lines_view(final(new_lines)@) == lines_view(old(new_lines)@) + self@.output(
                        lines_view(old_lines@),
                        old_line_index as nat,
                    )
                },
                Err(e) => {
                    &&& self@.fault(old_lines@.len(), old_line_index as nat) == Some(e)
                    &&& final(new_lines)@ == old(new_lines)@
                },
            },
    {
        let ghost before = lines_view(new_lines@);
        let ghost old_view = lines_view(old_lines@);
        let ghost index = old_line_index as nat;
        match self.op {
            OpType::Cpy => {
                if self.n == 0 {
                    assert(before + self@.output(old_view, index) =~= before);
                    return Ok(old_line_index);
                }
                if old_line_index > old_lines.len() as u64 || self.n > old_lines.len() as u64
                    - old_line_index {
                    return Err(DiffError::OutOfRange);
                }
                let new_index = old_line_index + self.n;
                let mut i = old_line_index;
                while i < new_index
                    invariant
                        old_line_index <= i <= new_index,
                        new_index <= old_lines@.len() <= usize::MAX,
                        old_view == lines_view(old_lines@),
                        lines_view(new_lines@) == before + old_view.subrange(
                            old_line_index as int,
                            i as int,
                        ),
                    decreases new_index - i,
                {
                    let line = old_lines[i as usize].clone();
                    proof {
                        lemma_lines_view_push(new_lines@, line);
                    }
                    new_lines.push(line);
                    i += 1;
                    assert(lines_view(new_lines@) =~= before + old_view.subrange(
                        old_line_index as int,
                        i as int,
                    ));
                }
                Ok(new_index)
            },
            OpType::Skip => {
                if self.n > u64::MAX - old_line_index {
                    return Err(DiffError::IndexOverflow);
                }
                assert(before + self@.output(old_view, index) =~= before);
                Ok(old_line_index + self.n)
            },
            OpType::Invalidate => {
                if self.n > u64::MAX - old_line_index {
                    return Err(DiffError::IndexOverflow);
                }
                let mut i: u64 = 0;
                while i < self.n
                    invariant
                        i <= self.n,
                        lines_view(new_lines@) == before + Seq::new(
                            i as nat,
                            |j: int| LineView::placeholder(),
                        ),
                    decreases self.n - i,
                {
                    let line = Line::invalid();
                    proof {
                        lemma_lines_view_push(new_lines@, line);
                    }
                    new_lines.push(line);
                    i += 1;
                    assert(lines_view(new_lines@) =~= before + Seq::new(
                        i as nat,
                        |j: int| LineView::placeholder(),
                    ));
                }
                Ok(old_line_index + self.n)
            },
            OpType::Update => {
                let lines = match &self.lines {
                    None => {
                        return Err(DiffError::MissingLines);
                    },
                    Some(lines) => lines,
                };
                if (lines.len() as u64) < self.n {
                    return Err(DiffError::MissingLines);
                }
                if self.n == 0 {
                    assert(before + self@.output(old_view, index) =~= before);
                    return Ok(old_line_index);
                }
                if old_line_index > old_lines.len() as u64 || self.n > old_lines.len() as u64
                    - old_line_index {
                    return Err(DiffError::OutOfRange);
                }
                let ghost marks = lines_view(lines@);
                let mut i: u64 = 0;
                while i < self.n
                    invariant
                        i <= self.n,
                        self.n <= lines@.len(),
                        old_line_index + self.n <= old_lines@.len() <= usize::MAX,
                        old_view == lines_view(old_lines@),
                        marks == lines_view(lines@),
                        lines_view(new_lines@) == before + Seq::new(
                            i as nat,
                            |j: int| old_view[old_line_index + j].with_marks_of(marks[j]),
                        ),
                    decreases self.n - i,
                {
                    let line = old_lines[(old_line_index + i) as usize].with_marks_of(
                        &lines[i as usize],
                    );
                    proof {
                        lemma_lines_view_push(new_lines@, line);
                    }
                    new_lines.push(line);
                    i += 1;
                    assert(lines_view(new_lines@) =~= before + Seq::new(
                        i as nat,
                        |j: int| old_view[old_line_index + j].with_marks_of(marks[j]),
                    ));
                }
                assert(self@.output(old_view, index) =~= Seq::new(
                    self.n as nat,
                    |j: int| old_view[old_line_index + j].with_marks_of(marks[j]),
                ));
                Ok(old_line_index + self.n)
            },
            OpType::Ins => {
                let lines = match &self.lines {
                    None => {
                        return Err(DiffError::MissingLines);
                    },
                    Some(lines) => lines,
                };
                let ghost added = lines_view(lines@);
                let mut i: usize = 0;
                while i < lines.len()
                    invariant
                        i <= lines.len(),
                        added == lines_view(lines@),
                        lines_view(new_lines@) == before + added.take(i as int),
                    decreases lines.len() - i,
                {
                    let line = lines[i].clone();
                    proof {
                        lemma_lines_view_push(new_lines@, line);
                    }
                    new_lines.push(line);
                    i += 1;
                    assert(lines_view(new_lines@) =~= before + added.take(i as int));
                }
                assert(added.take(lines.len() as int) =~= added);
                Ok(old_line_index)
            },
        }
    }
}

/// Applies the operations of an update, in order, to the lines of the old
/// cache, and returns the lines of the new one. An update that cannot be
/// applied is reported with the error of its first operation that fails.
pub fn apply_ops(old_lines: &[Line], ops: &Vec<Op>) -> (r: Result<Vec<Line>, DiffError>)
    ensures
        match r {
            Ok(lines) => applied(lines_view(old_lines@), ops_view(ops@)) == Ok::<
                Seq<LineView>,
                DiffError,
            >(lines_view(lines@)),
            Err(e) => applied(lines_view(old_lines@), ops_view(ops@)) == Err::<
                Seq<LineView>,
                DiffError,
            >(e),
        },
{
    let ghost old_view = lines_view(old_lines@);
    let ghost all = ops_view(ops@);
    let mut new_lines: Vec<Line> = Vec::new();
    let mut index: u64 = 0;
    let mut k: usize = 0;
    assert(all.take(0) =~= Seq::<OpView>::empty());
    assert(lines_view(new_lines@) =~= Seq::<LineView>::empty());
    while k < ops.len()
        invariant
            k <= ops.len(),
            old_view == lines_view(old_lines@),
            all == ops_view(ops@),
            run(old_view, all.take(k as int)) == Ok::<DiffState, DiffError>(
                DiffState { index: index as nat, lines: lines_view(new_lines@) },
            ),
        decreases ops.len() - k,
    {
        proof {
            assert(all.take(k + 1).drop_last() =~= all.take(k as int));
            assert(all.take(k + 1).last() == ops@[k as int]@);
        }
        match ops[k].apply(old_lines, index, &mut new_lines) {
            Ok(next) => {
                index = next;
            },
            Err(e) => {
                proof {
                    lemma_error_sticks(old_view, all, k + 1);
                }
                return Err(e);
            },
        }
        k += 1;
    }
    assert(all.take(ops.len() as int) =~= all);
    Ok(new_lines)
}

} // verus!
