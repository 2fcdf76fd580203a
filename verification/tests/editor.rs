use xi_term::cache::Update;
use xi_term::client::{Edit, Request};
use xi_term::command::{Command, ViewId};
use xi_term::config::{holds_command, KeyMap, KeybindingConfig, KeymapEntry};
use xi_term::editor::{CoreEvent, Editor, EditorRequest, XiReply};
use xi_term::event::{Event, Key, MouseButton, MouseEvent};
use xi_term::line::Line;
use xi_term::op::{Op, OpType};
use xi_term::style::Style;
use xi_term::view::ConfigChanges;

fn entry(keys: &[&str], command: &str, resolved: Option<Command>) -> KeymapEntry {
    KeymapEntry {
        keys: keys.iter().map(|k| k.to_string()).collect(),
        command: command.to_string(),
        resolved,
    }
}

fn bindings() -> KeybindingConfig {
    KeybindingConfig::parse(&vec![
        entry(&["ctrl+s"], "save", Some(Command::Save(None))),
        entry(&["ctrl+w"], "save", Some(Command::Save(None))),
        entry(&["ctrl+q"], "quit", Some(Command::Quit)),
        entry(&["ctrl+x", "ctrl+c"], "undo", Some(Command::Undo)),
        entry(&["ctrl+z"], "undo", Some(Command::Undo)),
        entry(&["nonsense"], "redo", Some(Command::Redo)),
        entry(&["ctrl+u"], "unknown", None),
        entry(&["ctrl+q"], "next", Some(Command::NextBuffer)),
        entry(&["pagedown"], "prev", Some(Command::PrevBuffer)),
    ])
}

fn key(c: char) -> Event {
    Event::Key(Key::Ctrl(c))
}

#[test]
fn first_binding_of_a_command_wins() {
    let config = bindings();
    assert_eq!(config.keymap.get(&key('s')), Some(&Command::Save(None)));
    assert_eq!(config.keymap.get(&key('w')), None);
}

#[test]
fn entries_without_event_or_command_are_passed_over() {
    let config = bindings();
    assert_eq!(config.keymap.get(&key('u')), None);
    assert_eq!(config.keymap.get(&key('x')), None);
    assert_eq!(config.keymap.get(&key('z')), Some(&Command::Undo));
    assert!(!holds_command(&config.found, &Command::Redo));
    assert!(holds_command(&config.found, &Command::Undo));
}

#[test]
fn a_chord_bound_again_calls_for_the_later_command() {
    let config = bindings();
    assert_eq!(config.keymap.get(&key('q')), Some(&Command::NextBuffer));
    assert_eq!(config.keymap.len(), 4);
    assert_eq!(
        config.found,
        vec![
            Command::Save(None),
            Command::Quit,
            Command::Undo,
            Command::NextBuffer,
            Command::PrevBuffer
        ]
    );
}

#[test]
fn keymap_insert_and_get() {
    let mut map = KeyMap::new();
    assert_eq!(map.len(), 0);
    assert_eq!(map.get(&key('a')), None);
    map.insert(key('a'), Command::Undo);
    map.insert(Event::Unsupported(vec![1, 2]), Command::Redo);
    map.insert(key('a'), Command::Quit);
    assert_eq!(map.len(), 2);
    assert_eq!(map.get(&key('a')), Some(&Command::Quit));
    assert_eq!(map.get(&Event::Unsupported(vec![1, 2])), Some(&Command::Redo));
    assert_eq!(map.get(&Event::Unsupported(vec![1])), None);
    assert_eq!(KeybindingConfig::parse(&vec![]).keymap.len(), 0);
}

fn editor_with_views(ids: &[usize]) -> Editor {
    let mut editor = Editor::new(bindings().keymap);
    editor.handle_resize((80, 24));
    let replies = ids.iter().map(|id| XiReply::NewView((ViewId(*id), None))).collect();
    editor.poll(replies);
    let _ = editor.take_requests();
    editor
}

#[test]
fn new_editor_has_no_views() {
    let mut editor = Editor::new(KeyMap::new());
    assert_eq!(editor.view_count(), 0);
    assert_eq!(editor.current_view(), ViewId(0));
    assert_eq!(editor.clipboard(), None);
    assert_eq!(editor.delayed_count(), 0);
    assert_eq!(editor.render(), None);
    assert_eq!(editor.take_requests(), vec![]);
}

#[test]
fn opened_views_are_shown_and_sized() {
    let mut editor = Editor::new(KeyMap::new());
    editor.handle_resize((80, 24));
    editor.poll(vec![
        XiReply::NewView((ViewId(7), Some("a.txt".to_string()))),
        XiReply::NewView((ViewId(9), None)),
    ]);
    assert_eq!(editor.view_count(), 2);
    assert!(editor.has_view(ViewId(7)));
    assert!(!editor.has_view(ViewId(8)));
    assert_eq!(editor.current_view(), ViewId(9));
    assert_eq!(
        editor.take_requests(),
        vec![
            EditorRequest::View(ViewId(7), Request::Edit(Edit::Scroll(0, 24))),
            EditorRequest::View(ViewId(9), Request::Edit(Edit::Scroll(0, 24))),
        ]
    );
}

#[test]
fn buffers_cycle_in_both_directions() {
    let mut editor = editor_with_views(&[1, 2, 3]);
    assert_eq!(editor.current_view(), ViewId(3));
    editor.next_buffer();
    assert_eq!(editor.current_view(), ViewId(1));
    editor.next_buffer();
    assert_eq!(editor.current_view(), ViewId(2));
    editor.prev_buffer();
    assert_eq!(editor.current_view(), ViewId(1));
    editor.prev_buffer();
    assert_eq!(editor.current_view(), ViewId(3));
    editor.handle_command(Command::NextBuffer);
    assert_eq!(editor.current_view(), ViewId(1));
    editor.handle_command(Command::PrevBuffer);
    assert_eq!(editor.current_view(), ViewId(3));
    let mut lone = editor_with_views(&[4]);
    lone.next_buffer();
    assert_eq!(lone.current_view(), ViewId(4));
    lone.prev_buffer();
    assert_eq!(lone.current_view(), ViewId(4));
    let mut none = Editor::new(KeyMap::new());
    none.next_buffer();
    none.prev_buffer();
    assert_eq!(none.current_view(), ViewId(0));
}

#[test]
fn closing_a_view_shows_the_one_before_and_moves_the_last_into_its_place() {
    let mut editor = editor_with_views(&[1, 2, 3, 4]);
    editor.next_buffer();
    editor.next_buffer();
    assert_eq!(editor.current_view(), ViewId(2));
    editor.close_view(None);
    assert_eq!(editor.current_view(), ViewId(1));
    assert_eq!(editor.view_count(), 3);
    assert!(!editor.has_view(ViewId(2)));
    assert_eq!(
        editor.take_requests(),
        vec![EditorRequest::View(ViewId(2), Request::Edit(Edit::CloseView))]
    );
    // The order is now 1, 4, 3.
    editor.next_buffer();
    assert_eq!(editor.current_view(), ViewId(4));
    editor.next_buffer();
    assert_eq!(editor.current_view(), ViewId(3));
}

#[test]
fn the_last_view_is_not_closed() {
    let mut editor = editor_with_views(&[1]);
    editor.close_view(None);
    editor.handle_command(Command::CloseCurrentView);
    assert_eq!(editor.view_count(), 1);
    assert_eq!(editor.take_requests(), vec![]);
    let mut editor = editor_with_views(&[1, 2]);
    editor.close_view(Some(ViewId(5)));
    assert_eq!(editor.view_count(), 2);
    assert_eq!(editor.current_view(), ViewId(2));
    editor.close_view(Some(ViewId(1)));
    assert_eq!(editor.view_count(), 1);
    assert_eq!(editor.current_view(), ViewId(1));
}

fn update_for(id: usize, text: &str) -> CoreEvent {
    CoreEvent::Update {
        view_id: ViewId(id),
        update: Update {
            before: 0,
            after: 0,
            ops: vec![Op::new(
                OpType::Ins,
                1,
                Some(vec![Line::new(text.to_string(), vec![], vec![])]),
            )],
        },
    }
}

#[test]
fn notifications_for_views_not_yet_open_wait() {
    let mut editor = Editor::new(KeyMap::new());
    editor.handle_resize((80, 2));
    editor.handle_core_event(update_for(3, "late"));
    editor.handle_core_event(CoreEvent::ScrollTo { view_id: ViewId(3), line: 0, column: 2 });
    editor.handle_core_event(CoreEvent::ConfigChanged {
        view_id: ViewId(4),
        changes: ConfigChanges { tab_size: Some(2) },
    });
    editor.handle_core_event(CoreEvent::Other);
    assert_eq!(editor.delayed_count(), 3);
    editor.poll(vec![]);
    assert_eq!(editor.delayed_count(), 3);
    editor.poll(vec![XiReply::NewView((ViewId(3), None))]);
    assert_eq!(editor.delayed_count(), 3);
    editor.poll(vec![]);
    assert_eq!(editor.delayed_count(), 1);
    assert_eq!(
        editor.render(),
        Some("\x1b[1;3H\x1b[2K1\x1b[1;5Hlate\x1b[2;5H\x1b[2K\x1b[1;7H".to_string())
    );
}

#[test]
fn notifications_reach_their_view() {
    let mut editor = editor_with_views(&[1, 2]);
    editor.handle_resize((80, 1));
    editor.handle_core_event(update_for(1, "\tone"));
    editor.handle_core_event(update_for(2, "\ttwo"));
    editor.handle_core_event(CoreEvent::ConfigChanged {
        view_id: ViewId(2),
        changes: ConfigChanges { tab_size: Some(2) },
    });
    editor.handle_core_event(CoreEvent::ScrollTo { view_id: ViewId(2), line: 0, column: 1 });
    assert_eq!(editor.delayed_count(), 0);
    assert_eq!(editor.render(), Some("\x1b[1;3H\x1b[2K1\x1b[1;5H  two\x1b[1;7H".to_string()));
    editor.prev_buffer();
    assert_eq!(editor.render(), Some(rows_of_first_view()));
}

fn rows_of_first_view() -> String {
    let mut out = String::from("\x1b[1;3H\x1b[2K1\x1b[1;5H    one");
    for row in 2..=24 {
        out.push_str(&format!("\x1b[{};5H\x1b[2K", row));
    }
    out.push_str("\x1b[1;5H");
    out
}

#[test]
fn an_update_that_cannot_be_applied_is_dropped() {
    let mut editor = editor_with_views(&[1]);
    editor.handle_resize((80, 1));
    editor.handle_core_event(update_for(1, "kept"));
    editor.handle_core_event(CoreEvent::Update {
        view_id: ViewId(1),
        update: Update { before: 0, after: 0, ops: vec![Op::new(OpType::Cpy, 5, None)] },
    });
    assert_eq!(editor.render(), Some("\x1b[1;3H\x1b[2K1\x1b[1;5Hkept\x1b[1;5H".to_string()));
}

#[test]
fn defined_styles_are_used_for_rendering() {
    let mut editor = editor_with_views(&[1]);
    editor.handle_resize((80, 1));
    editor.handle_core_event(CoreEvent::DefStyle(Style {
        id: 4,
        fg_color: None,
        bg_color: None,
        weight: None,
        italic: Some(true),
        underline: None,
    }));
    let line = Line::new(
        "abc".to_string(),
        vec![],
        vec![xi_term::line::StyleDef { offset: 1, length: 1, style_id: 4 }],
    );
    editor.handle_core_event(CoreEvent::Update {
        view_id: ViewId(1),
        update: Update { before: 0, after: 0, ops: vec![Op::new(OpType::Ins, 1, Some(vec![line]))] },
    });
    assert_eq!(
        editor.render(),
        Some("\x1b[1;3H\x1b[2K1\x1b[1;5Ha\x1b[3mb\x1b[23mc\x1b[1;5H".to_string())
    );
}

#[test]
fn bound_keys_call_for_their_commands_and_plain_characters_are_typed() {
    let mut editor = editor_with_views(&[1, 2]);
    editor.handle_input(Event::Key(Key::PageDown));
    assert_eq!(editor.current_view(), ViewId(1));
    editor.handle_input(key('q'));
    assert_eq!(editor.current_view(), ViewId(2));
    editor.handle_input(Event::Key(Key::Char('x')));
    editor.handle_input(Event::Key(Key::Char('\n')));
    editor.handle_input(Event::Key(Key::Left));
    editor.handle_input(key('z'));
    assert_eq!(
        editor.take_requests(),
        vec![
            EditorRequest::View(ViewId(2), Request::Edit(Edit::Char('x'))),
            EditorRequest::View(ViewId(2), Request::Edit(Edit::InsertNewline)),
            EditorRequest::View(ViewId(2), Request::Edit(Edit::Undo)),
        ]
    );
}

#[test]
fn mouse_gestures_go_to_the_view_that_is_shown() {
    let mut editor = editor_with_views(&[1]);
    editor.handle_core_event(update_for(1, "hello"));
    editor.handle_input(Event::Mouse(MouseEvent::Press(MouseButton::Left, 8, 1)));
    assert_eq!(
        editor.take_requests(),
        vec![EditorRequest::View(ViewId(1), Request::Edit(Edit::ClickPointSelect(0, 2)))]
    );
    let mut none = Editor::new(KeyMap::new());
    none.handle_input(Event::Mouse(MouseEvent::Press(MouseButton::Left, 8, 1)));
    none.handle_input(Event::Key(Key::Char('x')));
    assert_eq!(none.take_requests(), vec![]);
}

#[test]
fn editor_commands_become_requests() {
    let mut editor = editor_with_views(&[1]);
    editor.handle_command(Command::SetTheme("dark".to_string()));
    editor.handle_command(Command::Open(Some("b.txt".to_string())));
    editor.handle_command(Command::Open(None));
    editor.handle_command(Command::CopySelection);
    editor.handle_command(Command::CutSelection);
    editor.handle_command(Command::Paste);
    editor.handle_command(Command::Save(None));
    editor.handle_command(Command::Save(Some(ViewId(8))));
    editor.handle_command(Command::Undo);
    editor.handle_command(Command::Quit);
    assert_eq!(
        editor.take_requests(),
        vec![
            EditorRequest::SetTheme("dark".to_string()),
            EditorRequest::NewView(Some("b.txt".to_string())),
            EditorRequest::NewView(None),
            EditorRequest::View(ViewId(1), Request::Edit(Edit::Copy)),
            EditorRequest::View(ViewId(1), Request::Edit(Edit::Cut)),
            EditorRequest::View(ViewId(1), Request::Edit(Edit::Undo)),
        ]
    );
}

#[test]
fn copied_text_is_pasted() {
    let mut editor = editor_with_views(&[1]);
    editor.poll(vec![XiReply::CopiedText(Some("clip".to_string()))]);
    assert_eq!(editor.clipboard(), Some("clip"));
    editor.paste();
    assert_eq!(
        editor.take_requests(),
        vec![EditorRequest::View(ViewId(1), Request::Paste("clip".to_string()))]
    );
    editor.handle_reply(XiReply::CopiedText(None));
    assert_eq!(editor.clipboard(), None);
    editor.paste();
    assert_eq!(editor.take_requests(), vec![]);
}

#[test]
fn saving_uses_the_file_of_the_view() {
    let mut editor = Editor::new(KeyMap::new());
    editor.poll(vec![
        XiReply::NewView((ViewId(1), Some("a.txt".to_string()))),
        XiReply::NewView((ViewId(2), Some("b.txt".to_string()))),
    ]);
    let _ = editor.take_requests();
    editor.save(None);
    editor.save(Some(ViewId(1)));
    editor.save(Some(ViewId(3)));
    assert_eq!(
        editor.take_requests(),
        vec![
            EditorRequest::View(ViewId(2), Request::Save("b.txt".to_string())),
            EditorRequest::View(ViewId(1), Request::Save("a.txt".to_string())),
        ]
    );
}

#[test]
fn resize_reaches_the_view_that_is_shown() {
    let mut editor = editor_with_views(&[1, 2]);
    editor.handle_resize((100, 40));
    assert_eq!(
        editor.take_requests(),
        vec![EditorRequest::View(ViewId(2), Request::Edit(Edit::Scroll(0, 40)))]
    );
}

#[test]
fn next_and_previous_buffer_undo_each_other() {
    for shown in 0..4 {
        let mut editor = editor_with_views(&[5, 1, 8, 3]);
        for _ in 0..shown {
            editor.next_buffer();
        }
        let before = editor.current_view();
        editor.next_buffer();
        assert_ne!(editor.current_view(), before);
        editor.prev_buffer();
        assert_eq!(editor.current_view(), before);
        editor.prev_buffer();
        assert_ne!(editor.current_view(), before);
        editor.next_buffer();
        assert_eq!(editor.current_view(), before);
    }
}

#[test]
fn a_view_opened_under_an_identifier_in_use_takes_its_place() {
    let mut editor = editor_with_views(&[1, 2, 1]);
    assert_eq!(editor.view_count(), 2);
    assert_eq!(editor.current_view(), ViewId(1));
    editor.next_buffer();
    assert_eq!(editor.current_view(), ViewId(2));
    editor.next_buffer();
    assert_eq!(editor.current_view(), ViewId(1));
}

#[test]
fn kept_notifications_are_carried_out_in_their_order_before_the_replies() {
    let mut editor = Editor::new(KeyMap::new());
    editor.handle_resize((80, 1));
    editor.poll(vec![XiReply::NewView((ViewId(1), None))]);
    editor.handle_core_event(update_for(2, "first"));
    editor.handle_core_event(CoreEvent::Update {
        view_id: ViewId(2),
        update: Update {
            before: 0,
            after: 0,
            ops: vec![
                Op::new(OpType::Cpy, 1, None),
                Op::new(OpType::Ins, 1, Some(vec![Line::new("second".to_string(), vec![], vec![])])),
            ],
        },
    });
    editor.handle_core_event(CoreEvent::ScrollTo { view_id: ViewId(2), line: 1, column: 3 });
    editor.handle_core_event(update_for(9, "never"));
    assert_eq!(editor.delayed_count(), 4);
    editor.poll(vec![XiReply::NewView((ViewId(2), None))]);
    assert_eq!(editor.delayed_count(), 4);
    assert_eq!(editor.current_view(), ViewId(2));
    editor.poll(vec![XiReply::CopiedText(Some("kept".to_string()))]);
    assert_eq!(editor.delayed_count(), 1);
    assert_eq!(editor.clipboard(), Some("kept"));
    assert_eq!(editor.render(), Some("\x1b[1;3H\x1b[2K2\x1b[1;5Hsecond\x1b[1;8H".to_string()));
}
