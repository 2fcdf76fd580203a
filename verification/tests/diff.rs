use xi_term::cache::{update_of, LineCache, Update};
use xi_term::line::{clone_lines, Line, StyleDef};
use xi_term::op::{apply_ops, DiffError, Op, OpType};

fn line(text: &str) -> Line {
    Line::new(text.to_string(), vec![], vec![])
}

fn marked(text: &str, cursor: Vec<u64>, styles: Vec<StyleDef>) -> Line {
    Line::new(text.to_string(), cursor, styles)
}

fn old_lines() -> Vec<Line> {
    vec![
        marked("one", vec![1], vec![StyleDef { offset: 0, length: 3, style_id: 7 }]),
        line("two"),
        line("three"),
        line("four"),
        line("five"),
    ]
}

#[test]
fn op_type_from_str_reads_the_five_names() {
    assert_eq!(OpType::from_str("copy").unwrap(), OpType::Cpy);
    assert_eq!(OpType::from_str("skip").unwrap(), OpType::Skip);
    assert_eq!(OpType::from_str("invalidate").unwrap(), OpType::Invalidate);
    assert_eq!(OpType::from_str("update").unwrap(), OpType::Update);
    assert_eq!(OpType::from_str("ins").unwrap(), OpType::Ins);
}

#[test]
fn op_type_from_str_rejects_other_names() {
    let err = OpType::from_str("insert").unwrap_err();
    assert_eq!(err.op(), "insert");
    assert_eq!(err.description(), "OpTypeParseError");
    assert_eq!(err.message(), "Unknown Op type \"insert\"");
    assert!(OpType::from_str("").is_err());
    assert!(OpType::from_str("Copy").is_err());
    assert_eq!(OpType::from_str("a\"b").unwrap_err().message(), "Unknown Op type \"a\\\"b\"");
}

#[test]
fn copy_alone_reproduces_the_first_lines() {
    let old = old_lines();
    let new = apply_ops(&old, &vec![Op::new(OpType::Cpy, 2, None)]).unwrap();
    assert_eq!(new, vec![old[0].clone(), old[1].clone()]);
    assert_eq!(new[0].cursor, vec![1]);
    assert_eq!(new[0].styles, vec![StyleDef { offset: 0, length: 3, style_id: 7 }]);
}

#[test]
fn copy_of_all_lines_is_a_round_trip() {
    let old = old_lines();
    let new = apply_ops(&old, &vec![Op::new(OpType::Cpy, 5, None)]).unwrap();
    assert_eq!(new, old);
    let empty: Vec<Line> = vec![];
    assert_eq!(apply_ops(&empty, &vec![Op::new(OpType::Cpy, 0, None)]).unwrap(), empty);
}

#[test]
fn update_keeps_text_and_replaces_marks() {
    let old = old_lines();
    let marks = vec![
        marked("ignored", vec![2, 3], vec![]),
        marked("", vec![], vec![StyleDef { offset: 1, length: 1, style_id: 2 }]),
    ];
    let new = apply_ops(&old, &vec![Op::new(OpType::Update, 2, Some(marks))]).unwrap();
    assert_eq!(new.len(), 2);
    assert_eq!(new[0], marked("one", vec![2, 3], vec![]));
    assert_eq!(new[1], marked("two", vec![], vec![StyleDef { offset: 1, length: 1, style_id: 2 }]));
}

#[test]
fn update_after_skip_pairs_old_lines_with_its_own_lines_from_the_first() {
    let old = old_lines();
    let marks = vec![marked("", vec![9], vec![])];
    let ops = vec![Op::new(OpType::Skip, 3, None), Op::new(OpType::Update, 1, Some(marks))];
    let new = apply_ops(&old, &ops).unwrap();
    assert_eq!(new, vec![marked("four", vec![9], vec![])]);
}

#[test]
fn edit_in_the_middle() {
    let old = old_lines();
    let ops = vec![
        Op::new(OpType::Cpy, 1, None),
        Op::new(OpType::Ins, 2, Some(vec![line("new two"), line("new three")])),
        Op::new(OpType::Skip, 2, None),
        Op::new(OpType::Cpy, 2, None),
    ];
    let new = apply_ops(&old, &ops).unwrap();
    assert_eq!(
        new,
        vec![old[0].clone(), line("new two"), line("new three"), line("four"), line("five")]
    );
}

#[test]
fn insert_does_not_advance_the_index() {
    let old = old_lines();
    let ops = vec![
        Op::new(OpType::Ins, 3, Some(vec![line("x")])),
        Op::new(OpType::Cpy, 5, None),
    ];
    let new = apply_ops(&old, &ops).unwrap();
    assert_eq!(new.len(), 6);
    assert_eq!(new[0], line("x"));
    assert_eq!(new[5], line("five"));
}

#[test]
fn invalidate_emits_placeholders_and_advances_the_index() {
    let old = old_lines();
    let ops = vec![Op::new(OpType::Invalidate, 2, None), Op::new(OpType::Cpy, 1, None)];
    let new = apply_ops(&old, &ops).unwrap();
    assert_eq!(new, vec![Line::invalid(), Line::invalid(), line("three")]);
    assert_eq!(Line::invalid(), line(""));
    assert_eq!(Line::default(), Line::invalid());
}

#[test]
fn exact_consumption_gives_the_sum_of_emitted_lines() {
    let old = old_lines();
    let ops = vec![
        Op::new(OpType::Cpy, 2, None),
        Op::new(OpType::Ins, 0, Some(vec![line("a"), line("b"), line("c")])),
        Op::new(OpType::Skip, 1, None),
        Op::new(OpType::Update, 2, Some(vec![line(""), line("")])),
    ];
    let new = apply_ops(&old, &ops).unwrap();
    assert_eq!(new.len(), 2 + 3 + 2);
}

#[test]
fn invalidate_before_copy_can_break_exact_consumption() {
    let old = vec![line("a")];
    let ops = vec![Op::new(OpType::Invalidate, 1, None), Op::new(OpType::Cpy, 1, None)];
    assert_eq!(apply_ops(&old, &ops), Err(DiffError::OutOfRange));
}

#[test]
fn reading_past_the_end_is_an_error() {
    let old = old_lines();
    assert_eq!(apply_ops(&old, &vec![Op::new(OpType::Cpy, 6, None)]), Err(DiffError::OutOfRange));
    let ops = vec![Op::new(OpType::Skip, 5, None), Op::new(OpType::Cpy, 1, None)];
    assert_eq!(apply_ops(&old, &ops), Err(DiffError::OutOfRange));
    let ops = vec![Op::new(OpType::Update, 6, Some(vec![line(""); 6]))];
    assert_eq!(apply_ops(&old, &ops), Err(DiffError::OutOfRange));
    assert_eq!(
        apply_ops(&old, &vec![Op::new(OpType::Cpy, u64::MAX, None)]),
        Err(DiffError::OutOfRange)
    );
}

#[test]
fn skipping_past_the_end_is_no_error() {
    let old = old_lines();
    let ops = vec![Op::new(OpType::Skip, 60, None), Op::new(OpType::Cpy, 0, None)];
    assert_eq!(apply_ops(&old, &ops).unwrap(), vec![]);
}

#[test]
fn missing_lines_are_an_error() {
    let old = old_lines();
    assert_eq!(apply_ops(&old, &vec![Op::new(OpType::Ins, 1, None)]), Err(DiffError::MissingLines));
    assert_eq!(
        apply_ops(&old, &vec![Op::new(OpType::Update, 1, None)]),
        Err(DiffError::MissingLines)
    );
    assert_eq!(
        apply_ops(&old, &vec![Op::new(OpType::Update, 2, Some(vec![line("")]))]),
        Err(DiffError::MissingLines)
    );
}

#[test]
fn index_overflow_is_an_error() {
    let old = old_lines();
    let ops = vec![Op::new(OpType::Skip, u64::MAX, None), Op::new(OpType::Skip, 1, None)];
    assert_eq!(apply_ops(&old, &ops), Err(DiffError::IndexOverflow));
}

#[test]
fn the_first_failing_operation_gives_the_error() {
    let old = old_lines();
    let ops = vec![
        Op::new(OpType::Cpy, 1, None),
        Op::new(OpType::Ins, 1, None),
        Op::new(OpType::Cpy, 9, None),
    ];
    assert_eq!(apply_ops(&old, &ops), Err(DiffError::MissingLines));
}

#[test]
fn op_apply_leaves_new_lines_alone_on_error() {
    let old = old_lines();
    let mut new_lines = vec![line("kept")];
    let r = Op::new(OpType::Cpy, 9, None).apply(&old, 0, &mut new_lines);
    assert_eq!(r, Err(DiffError::OutOfRange));
    assert_eq!(new_lines, vec![line("kept")]);
    let r = Op::new(OpType::Cpy, 2, None).apply(&old, 3, &mut new_lines);
    assert_eq!(r, Ok(5));
    assert_eq!(new_lines, vec![line("kept"), line("four"), line("five")]);
    assert_eq!(Op::new(OpType::Skip, 4, None).apply(&old, 3, &mut new_lines), Ok(7));
    assert_eq!(Op::new(OpType::Ins, 4, Some(vec![])).apply(&old, 3, &mut new_lines), Ok(3));
    assert_eq!(Op::new(OpType::Skip, 4, None).n(), 4);
    assert_eq!(Op::new(OpType::Skip, 4, None).op_type(), OpType::Skip);
}

#[test]
fn cache_starts_empty() {
    let cache = LineCache::new();
    assert!(cache.is_empty());
    assert_eq!(cache.before(), 0);
    assert_eq!(cache.after(), 0);
    assert_eq!(cache.len(), 0);
    assert_eq!(cache.height(), 0);
    assert!(cache.line(0).is_none());
    assert_eq!(cache, LineCache::default());
}

#[test]
fn cache_with_only_unloaded_lines_is_not_empty() {
    let cache = LineCache::from_parts(3, vec![], 0).unwrap();
    assert!(!cache.is_empty());
    assert_eq!(cache.height(), 3);
    let cache = LineCache::from_parts(0, vec![], 2).unwrap();
    assert!(!cache.is_empty());
}

#[test]
fn cache_update_replaces_lines_and_counts() {
    let mut cache = LineCache::from_parts(1, old_lines(), 2).unwrap();
    let update = Update {
        before: 10,
        after: 20,
        ops: vec![Op::new(OpType::Skip, 1, None), Op::new(OpType::Cpy, 2, None)],
    };
    assert_eq!(cache.update(update), Ok(()));
    assert_eq!(cache.before(), 10);
    assert_eq!(cache.after(), 20);
    assert_eq!(cache.lines(), &vec![line("two"), line("three")]);
    assert_eq!(cache.height(), 32);
    assert_eq!(cache.line_number(1), 11);
    assert_eq!(cache.line(1), Some(&line("three")));
    assert_eq!(cache.line(2), None);
}

#[test]
fn cache_update_that_fails_keeps_the_cache() {
    let mut cache = LineCache::from_parts(1, old_lines(), 2).unwrap();
    let kept = cache.clone();
    let update = Update { before: 0, after: 0, ops: vec![Op::new(OpType::Cpy, 6, None)] };
    assert_eq!(cache.update(update), Err(DiffError::OutOfRange));
    assert_eq!(cache, kept);
    let update = Update { before: u64::MAX, after: 1, ops: vec![] };
    assert_eq!(cache.update(update), Err(DiffError::IndexOverflow));
    assert_eq!(cache, kept);
}

#[test]
fn cache_round_trip_by_copying_everything() {
    let mut cache = LineCache::from_parts(4, old_lines(), 6).unwrap();
    let kept = cache.clone();
    let update = Update { before: 4, after: 6, ops: vec![Op::new(OpType::Cpy, 5, None)] };
    assert_eq!(cache.update(update), Ok(()));
    assert_eq!(cache, kept);
}

#[test]
fn cache_apply_leaves_the_old_cache_alone() {
    let cache = LineCache::from_parts(0, old_lines(), 0).unwrap();
    let update = Update { before: 0, after: 0, ops: vec![Op::new(OpType::Cpy, 1, None)] };
    let new = cache.apply(&update).unwrap();
    assert_eq!(new.len(), 1);
    assert_eq!(cache.len(), 5);
}

#[test]
fn cache_from_parts_refuses_more_lines_than_can_be_counted() {
    assert!(LineCache::from_parts(u64::MAX, vec![line("a")], 0).is_none());
    assert!(LineCache::from_parts(u64::MAX - 1, vec![line("a")], 0).is_some());
    assert!(LineCache::from_parts(1, vec![], u64::MAX).is_none());
}

#[test]
fn lines_are_cloned_with_all_their_parts() {
    let old = old_lines();
    assert_eq!(clone_lines(&old), old);
    assert_eq!(old[0].with_marks_of(&marked("zzz", vec![4], vec![])), marked("one", vec![4], vec![]));
}

#[test]
fn invalidated_lines_at_both_ends_become_the_counts_of_an_update() {
    let shown = Line::new("a".to_string(), vec![], vec![]);
    let update = update_of(vec![
        Op::new(OpType::Invalidate, 2, None),
        Op::new(OpType::Invalidate, 3, None),
        Op::new(OpType::Ins, 1, Some(vec![shown.clone()])),
        Op::new(OpType::Invalidate, 4, None),
        Op::new(OpType::Cpy, 1, None),
        Op::new(OpType::Invalidate, 5, None),
        Op::new(OpType::Invalidate, 6, None),
    ]);
    assert_eq!(update.before, 5);
    assert_eq!(update.after, 11);
    assert_eq!(
        update.ops,
        vec![
            Op::new(OpType::Ins, 1, Some(vec![shown])),
            Op::new(OpType::Invalidate, 4, None),
            Op::new(OpType::Cpy, 1, None),
        ]
    );
}

#[test]
fn an_update_of_invalidated_lines_alone_counts_them_before() {
    let update = update_of(vec![
        Op::new(OpType::Invalidate, 2, None),
        Op::new(OpType::Invalidate, 3, None),
    ]);
    assert_eq!(update.before, 5);
    assert_eq!(update.after, 0);
    assert_eq!(update.ops, Vec::<Op>::new());
    let update = update_of(vec![]);
    assert_eq!(update.before, 0);
    assert_eq!(update.after, 0);
    assert_eq!(update.ops, Vec::<Op>::new());
}

#[test]
fn counts_of_invalidated_lines_are_held_at_the_largest_number() {
    let update = update_of(vec![
        Op::new(OpType::Invalidate, u64::MAX, None),
        Op::new(OpType::Invalidate, 1, None),
        Op::new(OpType::Skip, 1, None),
        Op::new(OpType::Invalidate, u64::MAX - 1, None),
        Op::new(OpType::Invalidate, 7, None),
    ]);
    assert_eq!(update.before, u64::MAX);
    assert_eq!(update.after, u64::MAX);
    assert_eq!(update.ops, vec![Op::new(OpType::Skip, 1, None)]);
}
