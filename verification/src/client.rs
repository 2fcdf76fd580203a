//! The requests that a view sends to the editor engine.
//!
//! A [`Client`] does no input or output. It records, in order, the requests
//! that the commands it was given call for; whoever owns the transport takes
//! them with [`Client::take_requests`] and sends them.

use vstd::prelude::*;
use crate::command::{
    AbsoluteMovePoint, Command, CommandView, FindConfig, FindConfigView, RelativeMoveDistance,
    ViewId,
};

verus! {

/// How a match changes the selection.
#[derive(Debug, Clone, Copy, PartialEq, Eq, Structural)]
pub enum ModifySelection {
    /// The selection stays as it is.
    Unchanged,
    /// The match becomes the selection.
    Replace,
    /// The match is added to the selection.
    Add,
    /// The match is added and the current selection removed.
    AddRemovingCurrent,
}

/// A request that carries no text.
#[derive(Debug, Clone, Copy, PartialEq, Eq, Structural)]
pub enum Edit {
    FindNext { wrap_around: bool, allow_same: bool, modify_selection: ModifySelection },
    FindPrev { wrap_around: bool, allow_same: bool, modify_selection: ModifySelection },
    /// Search for what is selected.
    SelectionForFind { case_sensitive: bool },
    /// Insert a character.
    Char(char),
    /// Ask that the lines from the first line number up to the second be
    /// loaded.
    Scroll(u64, u64),
    GotoLine(u64),
    /// Put the cursor at a line and a column.
    ClickPointSelect(u64, u64),
    /// Add a cursor at a line and a column.
    GestureMultiSelect { line: u64, col: u64 },
    /// Extend the selection to a line and a column.
    Drag(u64, u64),
    SelectAll,
    CloseView,
    Copy,
    Cut,
    Undo,
    Redo,
    InsertNewline,
    InsertTab,
    Down,
    DownSel,
    Up,
    UpSel,
    Right,
    RightSel,
    Left,
    LeftSel,
    MoveWordRight,
    MoveWordRightSel,
    MoveWordLeft,
    MoveWordLeftSel,
    PageDown,
    PageDownSel,
    PageUp,
    PageUpSel,
    LineStart,
    LineStartSel,
    LineEnd,
    LineEndSel,
    DocumentBegin,
    DocumentBeginSel,
    DocumentEnd,
    DocumentEndSel,
    Delete,
    Backspace,
    CollapseSelections,
    AddSelectionBelow,
    AddSelectionAbove,
}

/// A request to the editor engine, on behalf of one view.
#[derive(Debug, Clone, PartialEq, Eq)]
pub enum Request {
    Edit(Edit),
    /// Start a search. The request that follows it in the queue selects the
    /// first match, and is meant to be sent once this one has succeeded.
    Find(FindConfig),
    /// Insert a text at the cursor.
    Paste(String),
    /// Save the view to a file.
    Save(String),
}

/// The mathematical value of a [`Request`].
pub enum RequestView {
    Edit(Edit),
    Find(FindConfigView),
    Paste(Seq<char>),
    Save(Seq<char>),
}

impl View for Request {
    type V = RequestView;

    open spec fn view(&self) -> RequestView {
        match self {
            Request::Edit(edit) => RequestView::Edit(*edit),
            Request::Find(config) => RequestView::Find(config@),
            Request::Paste(text) => RequestView::Paste(text@),
            Request::Save(file) => RequestView::Save(file@),
        }
    }
}

/// The request that moves the cursor by one unit, if the unit is supported.
pub open spec fn relative_move_edit(by: RelativeMoveDistance, forward: bool, extend: bool) -> Option<Edit> {
    match by {
        RelativeMoveDistance::Characters => Some(
            if forward {
                if extend { Edit::RightSel } else { Edit::Right }
            } else {
                if extend { Edit::LeftSel } else { Edit::Left }
            },
        ),
        RelativeMoveDistance::Words | RelativeMoveDistance::WordEnds => Some(
            if forward {
                if extend { Edit::MoveWordRightSel } else { Edit::MoveWordRight }
            } else {
                if extend { Edit::MoveWordLeftSel } else { Edit::MoveWordLeft }
            },
        ),
        RelativeMoveDistance::Pages => Some(
            if forward {
                if extend { Edit::PageDownSel } else { Edit::PageDown }
            } else {
                if extend { Edit::PageUpSel } else { Edit::PageUp }
            },
        ),
        RelativeMoveDistance::Lines => Some(
            if forward {
                if extend { Edit::DownSel } else { Edit::Down }
            } else {
                if extend { Edit::UpSel } else { Edit::Up }
            },
        ),
        RelativeMoveDistance::Subwords | RelativeMoveDistance::SubwordEnds => None,
    }
}

/// The request that moves the cursor to a fixed point, if the point is
/// supported.
pub open spec fn absolute_move_edit(to: AbsoluteMovePoint, extend: bool) -> Option<Edit> {
    match to {
        AbsoluteMovePoint::BOL => Some(if extend { Edit::LineStartSel } else { Edit::LineStart }),
        AbsoluteMovePoint::EOL => Some(if extend { Edit::LineEndSel } else { Edit::LineEnd }),
        AbsoluteMovePoint::BOF => Some(
            if extend { Edit::DocumentBeginSel } else { Edit::DocumentBegin },
        ),
        AbsoluteMovePoint::EOF => Some(if extend { Edit::DocumentEndSel } else { Edit::DocumentEnd }),
        AbsoluteMovePoint::Line(line) => Some(Edit::GotoLine(line)),
        AbsoluteMovePoint::Brackets => None,
    }
}

/// The requests of a search: the search itself, then the selection of the
/// first match, for which the match under the cursor counts.
pub open spec fn find_requests(config: FindConfigView) -> Seq<RequestView> {
    seq![
        RequestView::Find(config),
        RequestView::Edit(
            Edit::FindNext {
                wrap_around: true,
                allow_same: true,
                modify_selection: ModifySelection::Replace,
            },
        ),
    ]
}

/// One request that carries no text, as a queue.
pub open spec fn one_edit(edit: Edit) -> Seq<RequestView> {
    seq![RequestView::Edit(edit)]
}

/// The requests that a command calls for. The commands that the view or the
/// editor carries out themselves, and the moves that the engine has no request
/// for, call for none.
pub open spec fn requests_for(cmd: CommandView) -> Seq<RequestView> {
    match cmd {
        CommandView::Back => one_edit(Edit::Backspace),
        CommandView::Delete => one_edit(Edit::Delete),
        CommandView::Insert(c) => if c == '\n' {
            one_edit(Edit::InsertNewline)
        } else if c == '\t' {
            one_edit(Edit::InsertTab)
        } else {
            one_edit(Edit::Char(c))
        },
        CommandView::Undo => one_edit(Edit::Undo),
        CommandView::Redo => one_edit(Edit::Redo),
        CommandView::CursorExpandLines(direction) => one_edit(
            if direction.forward { Edit::AddSelectionBelow } else { Edit::AddSelectionAbove },
        ),
        CommandView::CloseCurrentView => one_edit(Edit::CloseView),
        CommandView::SelectAll => one_edit(Edit::SelectAll),
        CommandView::Find(config) => find_requests(config),
        CommandView::FindNext => one_edit(
            Edit::FindNext {
                wrap_around: true,
                allow_same: false,
                modify_selection: ModifySelection::Replace,
            },
        ),
        CommandView::FindPrev => one_edit(
            Edit::FindPrev {
                wrap_around: true,
                allow_same: false,
                modify_selection: ModifySelection::Replace,
            },
        ),
        CommandView::RelativeMove(m) => match relative_move_edit(m.by, m.forward, m.extend) {
            Some(edit) => one_edit(edit),
            None => Seq::empty(),
        },
        CommandView::AbsoluteMove(m) => match absolute_move_edit(m.to, m.extend) {
            Some(edit) => one_edit(edit),
            None => Seq::empty(),
        },
        _ => Seq::empty(),
    }
}

/// The sender of one view's requests.
pub struct Client {
    view_id: ViewId,
    pending: Vec<Request>,
}

impl Client {
    /// The view on whose behalf the requests are sent.
    pub closed spec fn id(&self) -> ViewId {
        self.view_id
    }

    /// The requests recorded and not yet taken, oldest first.
    pub closed spec fn outbox(&self) -> Seq<RequestView> {
        self.pending@.map_values(|r: Request| r@)
    }

    /// Whether `after` is `before` with the given requests recorded at the end.
    pub open spec fn sent(before: &Client, after: &Client, requests: Seq<RequestView>) -> bool {
        &&& after.id() == before.id()
        &&& after.outbox() == before.outbox() + requests
    }

    pub fn new(view_id: ViewId) -> (client: Client)
        ensures
            client.id() == view_id,
            client.outbox() == Seq::<RequestView>::empty(),
    {
        let client = Client { view_id, pending: Vec::new() };
        assert(client.outbox() =~= Seq::<RequestView>::empty());
        client
    }

    /// The view on whose behalf the requests are sent.
    pub fn view_id(&self) -> (id: ViewId)
        ensures
            id == self.id(),
    {
        self.view_id
    }

    /// The number of requests recorded and not yet taken.
    pub fn pending_count(&self) -> (n: usize)
        ensures
            n == self.outbox().len(),
    {
        self.pending.len()
    }

    /// Hands over the recorded requests, oldest first, and forgets them.
    pub fn take_requests(&mut self) -> (requests: Vec<Request>)
        ensures
            requests@.map_values(|r: Request| r@) == old(self).outbox(),
            final(self).outbox() == Seq::<RequestView>::empty(),
            final(self).id() == old(self).id(),
    {
        let mut requests: Vec<Request> = Vec::new();
        core::mem::swap(&mut requests, &mut self.pending);
        assert(self.outbox() =~= Seq::<RequestView>::empty());
        requests
    }

    fn send(&mut self, request: Request)
        ensures
            Client::sent(old(self), final(self), seq![request@]),
    {
        self.pending.push(request);
        assert(self.outbox() =~= old(self).outbox() + seq![request@]);
    }

    fn send_edit(&mut self, edit: Edit)
        ensures
            Client::sent(old(self), final(self), one_edit(edit)),
    {
        self.send(Request::Edit(edit));
    }

    /// Records the requests that a command calls for.
    pub fn handle_command(&mut self, cmd: Command)
        ensures
            Client::sent(old(self), final(self), requests_for(cmd@)),
    {
        proof {
            assert(old(self).outbox() + Seq::<RequestView>::empty() =~= old(self).outbox());
        }
        match cmd {
            Command::Back => self.back(),
            Command::Delete => self.delete(),
            Command::Insert(c) => {
                if c == '\n' {
                    self.insert_newline()
                } else if c == '\t' {
                    self.insert_tab()
                } else {
                    self.insert(c)
                }
            },
            Command::Undo => self.undo(),
            Command::Redo => self.redo(),
            Command::CursorExpandLines(direction) => self.cursor_expand_line(direction.forward),
            Command::CloseCurrentView => self.close(),
            Command::SelectAll => self.select_all(),
            Command::Find(config) => self.find(&config),
            Command::FindNext => self.find_next(),
            Command::FindPrev => self.find_prev(),
            Command::RelativeMove(m) => match m.by {
                RelativeMoveDistance::Characters => {
                    if m.forward {
                        self.right(m.extend)
                    } else {
                        self.left(m.extend)
                    }
                },
                RelativeMoveDistance::Words | RelativeMoveDistance::WordEnds => {
                    if m.forward {
                        self.word_right(m.extend)
                    } else {
                        self.word_left(m.extend)
                    }
                },
                RelativeMoveDistance::Pages => {
                    if m.forward {
                        self.page_down(m.extend)
                    } else {
                        self.page_up(m.extend)
                    }
                },
                RelativeMoveDistance::Lines => {
                    if m.forward {
                        self.down(m.extend)
                    } else {
                        self.up(m.extend)
                    }
                },
                RelativeMoveDistance::Subwords | RelativeMoveDistance::SubwordEnds => {},
            },
            Command::AbsoluteMove(m) => match m.to {
                AbsoluteMovePoint::BOL => self.line_start(m.extend),
                AbsoluteMovePoint::EOL => self.line_end(m.extend),
                AbsoluteMovePoint::BOF => self.document_begin(m.extend),
                AbsoluteMovePoint::EOF => self.document_end(m.extend),
                AbsoluteMovePoint::Line(line) => self.goto_line(line),
                AbsoluteMovePoint::Brackets => {},
            },
            _ => {},
        }
    }

    /// Starts a search and selects its first match.
    pub fn find(&mut self, needle: &FindConfig)
        ensures
            Client::sent(old(self), final(self), find_requests(needle@)),
    {
        self.send(Request::Find(needle.duplicate()));
        self.send(
            Request::Edit(
                Edit::FindNext {
                    wrap_around: true,
                    allow_same: true,
                    modify_selection: ModifySelection::Replace,
                },
            ),
        );
        assert(self.outbox() =~= old(self).outbox() + find_requests(needle@));
    }

    pub fn paste(&mut self, content: &str)
        ensures
            Client::sent(old(self), final(self), seq![RequestView::Paste(content@)]),
    {
        self.send(Request::Paste(content.to_owned()));
    }

    pub fn save(&mut self, file: &str)
        ensures
            Client::sent(old(self), final(self), seq![RequestView::Save(file@)]),
    {
        self.send(Request::Save(file.to_owned()));
    }

    pub fn find_next(&mut self)
        ensures
            Client::sent(old(self), final(self), one_edit(Edit::FindNext { wrap_around: true, allow_same: false, modify_selection: ModifySelection::Replace })),
    {
        self.send_edit(Edit::FindNext { wrap_around: true, allow_same: false, modify_selection: ModifySelection::Replace });
    }

    pub fn find_prev(&mut self)
        ensures
            Client::sent(old(self), final(self), one_edit(Edit::FindPrev { wrap_around: true, allow_same: false, modify_selection: ModifySelection::Replace })),
    {
        self.send_edit(Edit::FindPrev { wrap_around: true, allow_same: false, modify_selection: ModifySelection::Replace });
    }

    pub fn select_all(&mut self)
        ensures
            Client::sent(old(self), final(self), one_edit(Edit::SelectAll)),
    {
        self.send_edit(Edit::SelectAll);
    }

    pub fn close(&mut self)
        ensures
            Client::sent(old(self), final(self), one_edit(Edit::CloseView)),
    {
        self.send_edit(Edit::CloseView);
    }

    /// Adds the next match of the running search to the selection.
    pub fn find_under_expand_next(&mut self)
        ensures
            Client::sent(old(self), final(self), one_edit(Edit::FindNext { wrap_around: true, allow_same: false, modify_selection: ModifySelection::Add })),
    {
        self.send_edit(Edit::FindNext { wrap_around: true, allow_same: false, modify_selection: ModifySelection::Add });
    }

    /// Starts a search for what is selected.
    pub fn find_under_expand(&mut self)
        ensures
            Client::sent(old(self), final(self), one_edit(Edit::SelectionForFind { case_sensitive: true })),
    {
        self.send_edit(Edit::SelectionForFind { case_sensitive: true });
    }

    /// Asks for the selected text.
    pub fn copy(&mut self)
        ensures
            Client::sent(old(self), final(self), one_edit(Edit::Copy)),
    {
        self.send_edit(Edit::Copy);
    }

    /// Asks for the selected text and removes it.
    pub fn cut(&mut self)
        ensures
            Client::sent(old(self), final(self), one_edit(Edit::Cut)),
    {
        self.send_edit(Edit::Cut);
    }

    pub fn undo(&mut self)
        ensures
            Client::sent(old(self), final(self), one_edit(Edit::Undo)),
    {
        self.send_edit(Edit::Undo);
    }

    pub fn redo(&mut self)
        ensures
            Client::sent(old(self), final(self), one_edit(Edit::Redo)),
    {
        self.send_edit(Edit::Redo);
    }

    pub fn insert(&mut self, character: char)
        ensures
            Client::sent(old(self), final(self), one_edit(Edit::Char(character))),
    {
        self.send_edit(Edit::Char(character));
    }

    pub fn insert_newline(&mut self)
        ensures
            Client::sent(old(self), final(self), one_edit(Edit::InsertNewline)),
    {
        self.send_edit(Edit::InsertNewline);
    }

    pub fn insert_tab(&mut self)
        ensures
            Client::sent(old(self), final(self), one_edit(Edit::InsertTab)),
    {
        self.send_edit(Edit::InsertTab);
    }

    pub fn scroll(&mut self, start: u64, end: u64)
        ensures
            Client::sent(old(self), final(self), one_edit(Edit::Scroll(start, end))),
    {
        self.send_edit(Edit::Scroll(start, end));
    }

    pub fn down(&mut self, extend: bool)
        ensures
            Client::sent(
                old(self),
                final(self),
                one_edit(if extend { Edit::DownSel } else { Edit::Down }),
            ),
    {
        if extend {
            self.send_edit(Edit::DownSel);
        } else {
            self.send_edit(Edit::Down);
        }
    }

    pub fn up(&mut self, extend: bool)
        ensures
            Client::sent(
                old(self),
                final(self),
                one_edit(if extend { Edit::UpSel } else { Edit::Up }),
            ),
    {
        if extend {
            self.send_edit(Edit::UpSel);
        } else {
            self.send_edit(Edit::Up);
        }
    }

    pub fn right(&mut self, extend: bool)
        ensures
            Client::sent(
                old(self),
                final(self),
                one_edit(if extend { Edit::RightSel } else { Edit::Right }),
            ),
    {
        if extend {
            self.send_edit(Edit::RightSel);
        } else {
            self.send_edit(Edit::Right);
        }
    }

    pub fn left(&mut self, extend: bool)
        ensures
            Client::sent(
                old(self),
                final(self),
                one_edit(if extend { Edit::LeftSel } else { Edit::Left }),
            ),
    {
        if extend {
            self.send_edit(Edit::LeftSel);
        } else {
            self.send_edit(Edit::Left);
        }
    }

    pub fn word_right(&mut self, extend: bool)
        ensures
            Client::sent(
                old(self),
                final(self),
                one_edit(if extend { Edit::MoveWordRightSel } else { Edit::MoveWordRight }),
            ),
    {
        if extend {
            self.send_edit(Edit::MoveWordRightSel);
        } else {
            self.send_edit(Edit::MoveWordRight);
        }
    }

    pub fn word_left(&mut self, extend: bool)
        ensures
            Client::sent(
                old(self),
                final(self),
                one_edit(if extend { Edit::MoveWordLeftSel } else { Edit::MoveWordLeft }),
            ),
    {
        if extend {
            self.send_edit(Edit::MoveWordLeftSel);
        } else {
            self.send_edit(Edit::MoveWordLeft);
        }
    }

    pub fn page_down(&mut self, extend: bool)
        ensures
            Client::sent(
                old(self),
                final(self),
                one_edit(if extend { Edit::PageDownSel } else { Edit::PageDown }),
            ),
    {
        if extend {
            self.send_edit(Edit::PageDownSel);
        } else {
            self.send_edit(Edit::PageDown);
        }
    }

    pub fn page_up(&mut self, extend: bool)
        ensures
            Client::sent(
                old(self),
                final(self),
                one_edit(if extend { Edit::PageUpSel } else { Edit::PageUp }),
            ),
    {
        if extend {
            self.send_edit(Edit::PageUpSel);
        } else {
            self.send_edit(Edit::PageUp);
        }
    }

    pub fn line_start(&mut self, extend: bool)
        ensures
            Client::sent(
                old(self),
                final(self),
                one_edit(if extend { Edit::LineStartSel } else { Edit::LineStart }),
            ),
    {
        if extend {
            self.send_edit(Edit::LineStartSel);
        } else {
            self.send_edit(Edit::LineStart);
        }
    }

    pub fn line_end(&mut self, extend: bool)
        ensures
            Client::sent(
                old(self),
                final(self),
                one_edit(if extend { Edit::LineEndSel } else { Edit::LineEnd }),
            ),
    {
        if extend {
            self.send_edit(Edit::LineEndSel);
        } else {
            self.send_edit(Edit::LineEnd);
        }
    }

    pub fn document_begin(&mut self, extend: bool)
        ensures
            Client::sent(
                old(self),
                final(self),
                one_edit(if extend { Edit::DocumentBeginSel } else { Edit::DocumentBegin }),
            ),
    {
        if extend {
            self.send_edit(Edit::DocumentBeginSel);
        } else {
            self.send_edit(Edit::DocumentBegin);
        }
    }

    pub fn document_end(&mut self, extend: bool)
        ensures
            Client::sent(
                old(self),
                final(self),
                one_edit(if extend { Edit::DocumentEndSel } else { Edit::DocumentEnd }),
            ),
    {
        if extend {
            self.send_edit(Edit::DocumentEndSel);
        } else {
            self.send_edit(Edit::DocumentEnd);
        }
    }

    pub fn goto_line(&mut self, line: u64)
        ensures
            Client::sent(old(self), final(self), one_edit(Edit::GotoLine(line))),
    {
        self.send_edit(Edit::GotoLine(line));
    }

    pub fn delete(&mut self)
        ensures
            Client::sent(old(self), final(self), one_edit(Edit::Delete)),
    {
        self.send_edit(Edit::Delete);
    }

    pub fn back(&mut self)
        ensures
            Client::sent(old(self), final(self), one_edit(Edit::Backspace)),
    {
        self.send_edit(Edit::Backspace);
    }

    pub fn collapse_selections(&mut self)
        ensures
            Client::sent(old(self), final(self), one_edit(Edit::CollapseSelections)),
    {
        self.send_edit(Edit::CollapseSelections);
    }

    pub fn cursor_expand_line(&mut self, forward: bool)
        ensures
            Client::sent(
                old(self),
                final(self),
                one_edit(if forward { Edit::AddSelectionBelow } else { Edit::AddSelectionAbove }),
            ),
    {
        if forward {
            self.send_edit(Edit::AddSelectionBelow);
        } else {
            self.send_edit(Edit::AddSelectionAbove);
        }
    }

    pub fn click(&mut self, line: u64, column: u64)
        ensures
            Client::sent(old(self), final(self), one_edit(Edit::ClickPointSelect(line, column))),
    {
        self.send_edit(Edit::ClickPointSelect(line, column));
    }

    pub fn click_cursor_extend(&mut self, line: u64, column: u64)
        ensures
            Client::sent(old(self), final(self), one_edit(Edit::GestureMultiSelect { line, col: column })),
    {
        self.send_edit(Edit::GestureMultiSelect { line, col: column });
    }

    pub fn drag(&mut self, line: u64, column: u64)
        ensures
            Client::sent(old(self), final(self), one_edit(Edit::Drag(line, column))),
    {
        self.send_edit(Edit::Drag(line, column));
    }
}

} // verus!
