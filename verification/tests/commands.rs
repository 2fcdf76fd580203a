use xi_term::client::{Client, Edit, ModifySelection, Request};
use xi_term::command::{
    AbsoluteMove, AbsoluteMovePoint, Command, CommandPromptMode, ExpandLinesDirection, FindConfig,
    RelativeMove, RelativeMoveDistance, ViewId,
};
use xi_term::command_prompt::CommandPrompt;
use xi_term::cache::Update;
use xi_term::event::{Event, Key, MouseButton, MouseEvent};
use xi_term::line::Line;
use xi_term::op::{Op, OpType};
use xi_term::view::View;

fn requests_of(cmd: Command) -> Vec<Request> {
    let mut client = Client::new(ViewId(3));
    client.handle_command(cmd);
    assert_eq!(client.view_id(), ViewId(3));
    client.take_requests()
}

fn edit(e: Edit) -> Vec<Request> {
    vec![Request::Edit(e)]
}

fn rel(by: RelativeMoveDistance, forward: bool, extend: bool) -> Command {
    Command::RelativeMove(RelativeMove { by, forward, extend })
}

fn abs(to: AbsoluteMovePoint, extend: bool) -> Command {
    Command::AbsoluteMove(AbsoluteMove { to, extend })
}

fn find_config() -> FindConfig {
    FindConfig { search_term: "needle".to_string(), case_sensitive: true, regex: false, whole_words: true }
}

#[test]
fn client_turns_editing_commands_into_requests() {
    assert_eq!(requests_of(Command::Back), edit(Edit::Backspace));
    assert_eq!(requests_of(Command::Delete), edit(Edit::Delete));
    assert_eq!(requests_of(Command::Insert('a')), edit(Edit::Char('a')));
    assert_eq!(requests_of(Command::Insert('\n')), edit(Edit::InsertNewline));
    assert_eq!(requests_of(Command::Insert('\t')), edit(Edit::InsertTab));
    assert_eq!(requests_of(Command::Undo), edit(Edit::Undo));
    assert_eq!(requests_of(Command::Redo), edit(Edit::Redo));
    assert_eq!(requests_of(Command::SelectAll), edit(Edit::SelectAll));
    assert_eq!(requests_of(Command::CloseCurrentView), edit(Edit::CloseView));
    assert_eq!(
        requests_of(Command::CursorExpandLines(ExpandLinesDirection { forward: true })),
        edit(Edit::AddSelectionBelow)
    );
    assert_eq!(
        requests_of(Command::CursorExpandLines(ExpandLinesDirection { forward: false })),
        edit(Edit::AddSelectionAbove)
    );
}

#[test]
fn client_turns_searches_into_requests() {
    assert_eq!(
        requests_of(Command::Find(find_config())),
        vec![
            Request::Find(find_config()),
            Request::Edit(Edit::FindNext {
                wrap_around: true,
                allow_same: true,
                modify_selection: ModifySelection::Replace
            }),
        ]
    );
    assert_eq!(
        requests_of(Command::FindNext),
        edit(Edit::FindNext {
            wrap_around: true,
            allow_same: false,
            modify_selection: ModifySelection::Replace
        })
    );
    assert_eq!(
        requests_of(Command::FindPrev),
        edit(Edit::FindPrev {
            wrap_around: true,
            allow_same: false,
            modify_selection: ModifySelection::Replace
        })
    );
}

#[test]
fn client_turns_relative_moves_into_requests() {
    assert_eq!(requests_of(rel(RelativeMoveDistance::Characters, true, false)), edit(Edit::Right));
    assert_eq!(requests_of(rel(RelativeMoveDistance::Characters, true, true)), edit(Edit::RightSel));
    assert_eq!(requests_of(rel(RelativeMoveDistance::Characters, false, false)), edit(Edit::Left));
    assert_eq!(requests_of(rel(RelativeMoveDistance::Characters, false, true)), edit(Edit::LeftSel));
    assert_eq!(requests_of(rel(RelativeMoveDistance::Words, true, false)), edit(Edit::MoveWordRight));
    assert_eq!(requests_of(rel(RelativeMoveDistance::Words, true, true)), edit(Edit::MoveWordRightSel));
    assert_eq!(requests_of(rel(RelativeMoveDistance::WordEnds, false, false)), edit(Edit::MoveWordLeft));
    assert_eq!(requests_of(rel(RelativeMoveDistance::WordEnds, false, true)), edit(Edit::MoveWordLeftSel));
    assert_eq!(requests_of(rel(RelativeMoveDistance::Pages, true, false)), edit(Edit::PageDown));
    assert_eq!(requests_of(rel(RelativeMoveDistance::Pages, true, true)), edit(Edit::PageDownSel));
    assert_eq!(requests_of(rel(RelativeMoveDistance::Pages, false, false)), edit(Edit::PageUp));
    assert_eq!(requests_of(rel(RelativeMoveDistance::Pages, false, true)), edit(Edit::PageUpSel));
    assert_eq!(requests_of(rel(RelativeMoveDistance::Lines, true, false)), edit(Edit::Down));
    assert_eq!(requests_of(rel(RelativeMoveDistance::Lines, true, true)), edit(Edit::DownSel));
    assert_eq!(requests_of(rel(RelativeMoveDistance::Lines, false, false)), edit(Edit::Up));
    assert_eq!(requests_of(rel(RelativeMoveDistance::Lines, false, true)), edit(Edit::UpSel));
    assert_eq!(requests_of(rel(RelativeMoveDistance::Subwords, true, false)), vec![]);
    assert_eq!(requests_of(rel(RelativeMoveDistance::SubwordEnds, false, true)), vec![]);
}

#[test]
fn client_turns_absolute_moves_into_requests() {
    assert_eq!(requests_of(abs(AbsoluteMovePoint::BOL, false)), edit(Edit::LineStart));
    assert_eq!(requests_of(abs(AbsoluteMovePoint::BOL, true)), edit(Edit::LineStartSel));
    assert_eq!(requests_of(abs(AbsoluteMovePoint::EOL, false)), edit(Edit::LineEnd));
    assert_eq!(requests_of(abs(AbsoluteMovePoint::EOL, true)), edit(Edit::LineEndSel));
    assert_eq!(requests_of(abs(AbsoluteMovePoint::BOF, false)), edit(Edit::DocumentBegin));
    assert_eq!(requests_of(abs(AbsoluteMovePoint::BOF, true)), edit(Edit::DocumentBeginSel));
    assert_eq!(requests_of(abs(AbsoluteMovePoint::EOF, false)), edit(Edit::DocumentEnd));
    assert_eq!(requests_of(abs(AbsoluteMovePoint::EOF, true)), edit(Edit::DocumentEndSel));
    assert_eq!(requests_of(abs(AbsoluteMovePoint::Line(42), true)), edit(Edit::GotoLine(42)));
    assert_eq!(requests_of(abs(AbsoluteMovePoint::Brackets, false)), vec![]);
}

#[test]
fn client_passes_over_commands_that_others_carry_out() {
    for cmd in [
        Command::Cancel,
        Command::OpenPrompt(CommandPromptMode::Command),
        Command::OpenPrompt(CommandPromptMode::Find),
        Command::Quit,
        Command::SetTheme("dark".to_string()),
        Command::NextBuffer,
        Command::PrevBuffer,
        Command::Save(None),
        Command::Save(Some(ViewId(1))),
        Command::Open(None),
        Command::Open(Some("f".to_string())),
        Command::CopySelection,
        Command::CutSelection,
        Command::Paste,
        Command::ToggleLineNumbers,
        Command::FindUnderExpand,
        Command::Invalid("x".to_string()),
    ] {
        assert_eq!(requests_of(cmd), vec![]);
    }
}

#[test]
fn client_records_requests_in_order_until_taken() {
    let mut client = Client::new(ViewId(9));
    assert_eq!(client.pending_count(), 0);
    client.scroll(3, 40);
    client.paste("text");
    client.save("file.txt");
    client.click(1, 2);
    client.click_cursor_extend(3, 4);
    client.drag(5, 6);
    client.copy();
    client.cut();
    client.collapse_selections();
    client.find_under_expand();
    client.find_under_expand_next();
    client.goto_line(8);
    assert_eq!(client.pending_count(), 12);
    assert_eq!(
        client.take_requests(),
        vec![
            Request::Edit(Edit::Scroll(3, 40)),
            Request::Paste("text".to_string()),
            Request::Save("file.txt".to_string()),
            Request::Edit(Edit::ClickPointSelect(1, 2)),
            Request::Edit(Edit::GestureMultiSelect { line: 3, col: 4 }),
            Request::Edit(Edit::Drag(5, 6)),
            Request::Edit(Edit::Copy),
            Request::Edit(Edit::Cut),
            Request::Edit(Edit::CollapseSelections),
            Request::Edit(Edit::SelectionForFind { case_sensitive: true }),
            Request::Edit(Edit::FindNext {
                wrap_around: true,
                allow_same: false,
                modify_selection: ModifySelection::Add
            }),
            Request::Edit(Edit::GotoLine(8)),
        ]
    );
    assert_eq!(client.pending_count(), 0);
    assert_eq!(client.take_requests(), vec![]);
}

#[test]
fn commands_compare_by_their_arguments() {
    let a = Command::Find(find_config());
    let mut other = find_config();
    other.regex = true;
    assert!(a.same(&a.duplicate()));
    assert!(!a.same(&Command::Find(other)));
    assert!(Command::Insert('a').same(&Command::Insert('a')));
    assert!(!Command::Insert('a').same(&Command::Insert('b')));
    assert!(!Command::Undo.same(&Command::Redo));
    assert!(Command::Save(Some(ViewId(1))).same(&Command::Save(Some(ViewId(1)))));
    assert!(!Command::Save(Some(ViewId(1))).same(&Command::Save(None)));
    assert!(!Command::Open(Some("a".to_string())).same(&Command::Open(Some("b".to_string()))));
    assert!(Command::Open(None).same(&Command::Open(None)));
    assert!(!Command::Invalid("a".to_string()).same(&Command::Invalid("b".to_string())));
    assert!(!Command::SetTheme("a".to_string()).same(&Command::SetTheme("b".to_string())));
    assert_eq!(a.duplicate(), a);
    assert_eq!(Command::Open(Some("a".to_string())).duplicate(), Command::Open(Some("a".to_string())));
    assert!(find_config().same(&find_config().duplicate()));
}

fn view_with_text() -> View {
    let mut view = View::new(Client::new(ViewId(5)), Some("notes.txt".to_string()));
    let lines = vec![
        Line::new("ab\tc".to_string(), vec![], vec![]),
        Line::new("second".to_string(), vec![], vec![]),
    ];
    let update = Update { before: 10, after: 7, ops: vec![Op::new(OpType::Ins, 2, Some(lines))] };
    assert_eq!(view.update_cache(update), Ok(()));
    view
}

#[test]
fn view_resize_asks_for_the_lines_around_the_window() {
    let mut view = view_with_text();
    assert_eq!(view.view_id(), ViewId(5));
    view.resize(20);
    assert_eq!(view.window().size(), 20);
    assert_eq!(view.take_requests(), edit(Edit::Scroll(10, 27)));
    view.set_cursor(11, 0);
    view.resize(1);
    assert_eq!(view.window().start(), 1);
    assert_eq!(view.take_requests(), edit(Edit::Scroll(11, 9)));
}

#[test]
fn view_save_uses_its_file() {
    let mut view = view_with_text();
    view.save();
    assert_eq!(view.take_requests(), vec![Request::Save("notes.txt".to_string())]);
    let mut nameless = View::new(Client::new(ViewId(5)), None);
    nameless.save();
    assert_eq!(nameless.take_requests(), vec![]);
}

#[test]
fn view_carries_out_its_own_commands() {
    let mut view = view_with_text();
    view.handle_command(Command::ToggleLineNumbers);
    assert!(!view.cfg().display_gutter);
    view.handle_command(Command::ToggleLineNumbers);
    assert!(view.cfg().display_gutter);
    assert_eq!(view.take_requests(), vec![]);
    view.handle_command(Command::FindUnderExpand);
    view.handle_command(Command::FindUnderExpand);
    view.handle_command(Command::Cancel);
    view.handle_command(Command::FindUnderExpand);
    let next = Edit::FindNext {
        wrap_around: true,
        allow_same: false,
        modify_selection: ModifySelection::Add,
    };
    let start = Edit::SelectionForFind { case_sensitive: true };
    assert_eq!(
        view.take_requests(),
        vec![
            Request::Edit(start),
            Request::Edit(next),
            Request::Edit(Edit::CollapseSelections),
            Request::Edit(start),
        ]
    );
    view.handle_command(Command::Insert('x'));
    view.handle_command(Command::Quit);
    assert_eq!(view.take_requests(), edit(Edit::Char('x')));
}

#[test]
fn view_copy_cut_paste() {
    let mut view = view_with_text();
    view.copy();
    view.cut();
    view.paste("clip");
    assert_eq!(
        view.take_requests(),
        vec![Request::Edit(Edit::Copy), Request::Edit(Edit::Cut), Request::Paste("clip".to_string())]
    );
}

#[test]
fn view_translates_mouse_gestures() {
    let mut view = view_with_text();
    view.resize(5);
    let _ = view.take_requests();
    // Column 7, row 1, both counted from one: window row 0, window column 6.
    view.handle_mouse_event(MouseEvent::Press(MouseButton::Left, 7, 1));
    assert_eq!(view.take_requests(), edit(Edit::ClickPointSelect(10, 1)));
    view.handle_mouse_event(MouseEvent::Press(MouseButton::Middle, 1, 2));
    assert_eq!(view.take_requests(), edit(Edit::GestureMultiSelect { line: 11, col: 0 }));
    view.handle_mouse_event(MouseEvent::Hold(9, 2));
    assert_eq!(view.take_requests(), edit(Edit::Drag(11, 3)));
    view.handle_mouse_event(MouseEvent::Press(MouseButton::WheelUp, 1, 1));
    view.handle_mouse_event(MouseEvent::Press(MouseButton::WheelDown, 1, 1));
    assert_eq!(view.take_requests(), vec![Request::Edit(Edit::Up), Request::Edit(Edit::Down)]);
    view.handle_mouse_event(MouseEvent::Press(MouseButton::Right, 3, 3));
    view.handle_mouse_event(MouseEvent::Release(3, 3));
    view.handle_mouse_event(MouseEvent::Press(MouseButton::Left, 0, 1));
    view.handle_mouse_event(MouseEvent::Press(MouseButton::Middle, 1, 0));
    view.handle_mouse_event(MouseEvent::Hold(0, 0));
    assert_eq!(view.take_requests(), vec![]);
    // A row without a line hands the click back as it came.
    view.handle_mouse_event(MouseEvent::Press(MouseButton::Left, 9, 4));
    assert_eq!(view.take_requests(), edit(Edit::ClickPointSelect(3, 8)));
    view.click(0, 0);
    view.click_cursor_extend(1, 5);
    view.drag(1, 400);
    assert_eq!(
        view.take_requests(),
        vec![
            Request::Edit(Edit::ClickPointSelect(10, 0)),
            Request::Edit(Edit::GestureMultiSelect { line: 11, col: 0 }),
            Request::Edit(Edit::Drag(11, 6)),
        ]
    );
}

#[test]
fn prompt_collects_keys_and_names_commands() {
    let mut prompt = CommandPrompt::new();
    assert_eq!(prompt.handle_input(Event::Key(Key::Char('s'))), None);
    assert_eq!(prompt.keys(), "s");
    assert_eq!(prompt.handle_input(Event::Key(Key::Char('\n'))), Some(Command::Save(None)));
    assert_eq!(prompt.keys(), "");
    for c in "save".chars() {
        assert_eq!(prompt.new_key(c), None);
    }
    assert_eq!(prompt.finalize(), Some(Command::Save(None)));
    for (typed, cmd) in [("q", Command::Quit), ("quit", Command::Quit)] {
        for c in typed.chars() {
            prompt.handle_input(Event::Key(Key::Char(c)));
        }
        assert_eq!(prompt.finalize(), Some(cmd));
    }
    for c in "wq".chars() {
        prompt.new_key(c);
    }
    assert_eq!(prompt.finalize(), Some(Command::Invalid("wq".to_string())));
    assert_eq!(prompt.finalize(), Some(Command::Invalid("".to_string())));
}

#[test]
fn prompt_backspace_takes_back_or_cancels() {
    let mut prompt = CommandPrompt::default();
    prompt.new_key('a');
    prompt.new_key('é');
    assert_eq!(prompt.back(), None);
    assert_eq!(prompt.keys(), "a");
    assert_eq!(prompt.handle_input(Event::Key(Key::Backspace)), None);
    assert_eq!(prompt.keys(), "");
    assert_eq!(prompt.handle_input(Event::Key(Key::Backspace)), Some(Command::Cancel));
    assert_eq!(prompt.back(), Some(Command::Cancel));
}

#[test]
fn prompt_passes_over_other_events() {
    let mut prompt = CommandPrompt::new();
    prompt.new_key('a');
    assert_eq!(prompt.handle_input(Event::Key(Key::Left)), None);
    assert_eq!(prompt.handle_input(Event::Key(Key::Ctrl('c'))), None);
    assert_eq!(prompt.handle_input(Event::Unsupported(vec![27])), None);
    assert_eq!(prompt.handle_input(Event::Mouse(MouseEvent::Release(1, 1))), None);
    assert_eq!(prompt.keys(), "a");
}

#[test]
fn prompt_renders_on_its_row() {
    let mut prompt = CommandPrompt::new();
    assert_eq!(prompt.render(24), "\x1b[24;1H\x1b[2K:");
    prompt.new_key('q');
    assert_eq!(prompt.render(3), "\x1b[3;1H\x1b[2K:q");
    assert_eq!(prompt.render(0), "\x1b[0;1H\x1b[2K:q");
}
