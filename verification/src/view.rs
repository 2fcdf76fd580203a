//! One open view of a document: its line cache, its cursor, its viewport, and
//! what it shows on screen.
//!
//! A view does no input or output. Rendering gives the characters to write to
//! the terminal; commands and clicks are recorded as requests in the view's
//! [`Client`], from which the owner of the transport takes them.

use vstd::prelude::*;
use vstd::view::View as _;
use std::collections::HashMap;
use crate::cache::{LineCache, LineCacheView, Update};
use crate::client::{one_edit, requests_for, Client, Edit, ModifySelection, Request, RequestView};
use crate::command::{Command, CommandView, ViewId};
use crate::event::{MouseButton, MouseEvent};
use crate::line::{lines_view, Line};
use crate::op::{ops_view, DiffError};
use crate::render::{
    char_columns, char_width, click_column, click_column_of, escape_control, escaped, insert_all,
    insertions_view, descending, prefix_width, prefix_width_of, style_points,
    style_sequences, styled_line, tab_width, tab_width_at, Insertion,
};
use crate::style::Style;
use crate::weave::{law_styled_line_is_woven, woven};
use crate::term::{clear_line, clear_line_sequence, goto, goto_sequence};
use crate::text::{decimal, decimal_chars, lemma_decimal_len_u64, string_of};
use crate::window::{updated_start, Window};

verus! {

/// Where the cursor is in the document.
#[derive(Debug, Clone, Copy, PartialEq, Eq, Structural)]
pub struct Cursor {
    pub line: u64,
    pub column: u64,
}

impl Default for Cursor {
    fn default() -> (cursor: Cursor)
        ensures
            cursor == (Cursor { line: 0, column: 0 }),
    {
        Cursor { line: 0, column: 0 }
    }
}

/// How a view is shown.
#[derive(Debug, Clone, Copy, PartialEq, Eq, Structural)]
pub struct ViewConfig {
    /// The number of columns kept for the line numbers.
    pub gutter_size: u16,
    /// The distance between two tab stops.
    pub tab_size: u16,
    /// Whether the line numbers are shown.
    pub display_gutter: bool,
}

impl Default for ViewConfig {
    fn default() -> (cfg: ViewConfig)
        ensures
            cfg == (ViewConfig { gutter_size: 4, tab_size: 4, display_gutter: true }),
    {
        ViewConfig { gutter_size: 4, tab_size: 4, display_gutter: true }
    }
}

/// The changes of configuration that the engine announces, as far as a view
/// heeds them.
#[derive(Debug, Clone, Copy, PartialEq, Eq)]
pub struct ConfigChanges {
    pub tab_size: Option<u64>,
}

/// The width of the gutter of a document of `height` lines: the digits of the
/// greatest line number and one column between the number and the text, and
/// at least four columns.
pub open spec fn gutter_width(height: nat) -> nat {
    let width = decimal(height).len() + 1;
    if width < 4 {
        4
    } else {
        width
    }
}

/// The screen row of the line of index `line_index` in the window, counted
/// from one, and at most the greatest row that the terminal can be told.
pub open spec fn screen_row(line_index: nat) -> u16 {
    if line_index + 1 > u16::MAX {
        u16::MAX
    } else {
        (line_index + 1) as u16
    }
}

/// The column at which a line number of `digits` digits starts, so that it
/// ends where the gutter ends but for the separating column; column zero if
/// the gutter is too narrow.
pub open spec fn number_column(gutter_size: u16, digits: nat) -> u16 {
    if digits > gutter_size {
        0
    } else {
        (gutter_size - digits) as u16
    }
}

/// What is written for one row of the window. A row with a line, where the
/// gutter is shown: the cursor goes to the place of the line number, the row
/// is cleared, the number of the line counted from one is written, the cursor
/// goes behind the gutter, and the text is written. A row with a line, where
/// the gutter is hidden: the cursor goes to the start of the row, the row is
/// cleared, and the text is written. A row without a line: the cursor goes
/// behind the gutter and the row is cleared.
pub open spec fn rendered_row(
    text: Seq<char>,
    lineno: Option<u64>,
    line_index: nat,
    cfg: ViewConfig,
) -> Seq<char> {
    let row = screen_row(line_index);
    let content = (cfg.gutter_size + 1) as u16;
    match lineno {
        Some(n) => if cfg.display_gutter {
            let number = decimal(n as nat + 1);
            goto_sequence(number_column(cfg.gutter_size, number.len()), row) + clear_line_sequence()
                + number + goto_sequence(content, row) + text
        } else {
            goto_sequence(0, row) + clear_line_sequence() + text
        },
        None => goto_sequence(content, row) + clear_line_sequence() + text,
    }
}

/// What is written for the row of index `i` of a window that starts at
/// `start`: the line of index `start + i` with its number in the document, or
/// a blank row where the cache has no such line.
pub open spec fn window_row(
    cache: LineCacheView,
    start: nat,
    i: nat,
    cfg: ViewConfig,
    styles: Map<u64, Style>,
) -> Seq<char> {
    if start + i < cache.lines.len() {
        let line = cache.lines[(start + i) as int];
        rendered_row(
            styled_line(line.text, line.styles, styles, cfg.tab_size as nat),
            Some((cache.before + start + i) as u64),
            i,
            cfg,
        )
    } else {
        rendered_row(Seq::empty(), None, i, cfg)
    }
}

/// What is written for the first `rows` rows of the window, from the top.
pub open spec fn window_rows(
    cache: LineCacheView,
    start: nat,
    rows: nat,
    cfg: ViewConfig,
    styles: Map<u64, Style>,
) -> Seq<char>
    decreases rows,
{
    if rows == 0 {
        Seq::empty()
    } else {
        window_rows(cache, start, (rows - 1) as nat, cfg, styles) + window_row(
            cache,
            start,
            (rows - 1) as nat,
            cfg,
            styles,
        )
    }
}

/// A number, or the greatest 16-bit number in place of any greater one.
pub open spec fn clamp_u16(n: nat) -> u16 {
    if n > u16::MAX {
        u16::MAX
    } else {
        n as u16
    }
}

/// The sequence that puts the terminal's cursor where the document's cursor
/// is, if it can be shown. In an empty cache the cursor is at the top left.
/// Else it is shown only if its line is materialized and not above the
/// window: at the row of the line, counted from the start of the window, and
/// at the column that the gutter and the width of the characters before the
/// cursor lead to; a row or a column beyond the greatest that the terminal
/// can be told is held at that.
pub open spec fn cursor_sequence(
    cache: LineCacheView,
    start: nat,
    cfg: ViewConfig,
    cursor: Cursor,
) -> Option<Seq<char>> {
    if cache.height() == 0 {
        Some(goto_sequence(1, 1))
    } else if cursor.line < cache.before || cursor.line - cache.before >= cache.lines.len() {
        None
    } else {
        let index = (cursor.line - cache.before) as nat;
        if index < start {
            None
        } else {
            let width = prefix_width_of(
                cache.lines[index as int].text,
                cursor.column as nat,
                cfg.tab_size as nat,
            );
            Some(
                goto_sequence(
                    clamp_u16((cfg.gutter_size + width + 1) as nat),
                    clamp_u16((index - start + 1) as nat),
                ),
            )
        }
    }
}

/// Where a click at a row and a column of the window lands in the document:
/// the number of the line and the index of the character. A click in the
/// gutter lands on the first character of its line. A click on a row without
/// a line is handed back as it came.
pub open spec fn click_location(
    cache: LineCacheView,
    start: nat,
    cfg: ViewConfig,
    row: nat,
    column: nat,
) -> (nat, nat) {
    let index = row + start;
    if index < cache.lines.len() {
        (
            cache.before + index,
            if column < cfg.gutter_size {
                0
            } else {
                click_column(
                    cache.lines[index as int].text,
                    (column - cfg.gutter_size) as nat,
                    cfg.tab_size as nat,
                )
            },
        )
    } else {
        (row, column)
    }
}

/// A click at the first column of a row that shows a line lands on the first
/// character of that line, whatever the line holds.
pub proof fn law_click_first_column_lands_on_zero(
    cache: LineCacheView,
    start: nat,
    cfg: ViewConfig,
    row: nat,
)
    requires
        row + start < cache.lines.len(),
    ensures
        click_location(cache, start, cfg, row, 0).0 == cache.before + row + start,
        click_location(cache, start, cfg, row, 0).1 == 0,
{
}

/// Where the window starts after it has followed the cursor: where it was, if
/// the cursor is before the materialized lines; else where the window's own
/// rule puts it for the cursor's index among them.
pub open spec fn followed_start(first: nat, rows: nat, cache: LineCacheView, cursor_line: nat) -> nat {
    if cursor_line < cache.before {
        first
    } else {
        updated_start(first, rows, (cursor_line - cache.before) as nat, cache.lines.len())
    }
}

/// The tab size after a change of configuration: the announced size if it is
/// at least one and fits in 16 bits, else the size as it was.
pub open spec fn changed_tab_size(old_size: u16, changes: ConfigChanges) -> u16 {
    match changes.tab_size {
        Some(size) => if 1 <= size && size <= u16::MAX {
            size as u16
        } else {
            old_size
        },
        None => old_size,
    }
}

/// The requests that a mouse gesture calls for, given where each click lands.
/// A press of the left button puts the cursor there, a press of the middle
/// button adds a cursor there, the wheel moves the cursor a line up or down,
/// and a held button extends the selection. Coordinates are counted from one;
/// a gesture with a coordinate of zero calls for nothing, and so do a press
/// of the right button and a release.
pub open spec fn mouse_requests(
    cache: LineCacheView,
    start: nat,
    cfg: ViewConfig,
    event: MouseEvent,
) -> Seq<RequestView> {
    match event {
        MouseEvent::Press(button, column, row) => match button {
            MouseButton::Left => if column >= 1 && row >= 1 {
                let at = click_location(cache, start, cfg, (row - 1) as nat, (column - 1) as nat);
                one_edit(Edit::ClickPointSelect(at.0 as u64, at.1 as u64))
            } else {
                Seq::empty()
            },
            MouseButton::Middle => if column >= 1 && row >= 1 {
                let at = click_location(cache, start, cfg, (row - 1) as nat, (column - 1) as nat);
                one_edit(Edit::GestureMultiSelect { line: at.0 as u64, col: at.1 as u64 })
            } else {
                Seq::empty()
            },
            MouseButton::WheelUp => one_edit(Edit::Up),
            MouseButton::WheelDown => one_edit(Edit::Down),
            MouseButton::Right => Seq::empty(),
        },
        MouseEvent::Release(_, _) => Seq::empty(),
        MouseEvent::Hold(column, row) => if column >= 1 && row >= 1 {
            let at = click_location(cache, start, cfg, (row - 1) as nat, (column - 1) as nat);
            one_edit(Edit::Drag(at.0 as u64, at.1 as u64))
        } else {
            Seq::empty()
        },
    }
}

/// The requests that a command calls for in a view: the search under the
/// cursor starts with the selection and goes on with the next match, the end
/// of a search drops the extra selections, the showing of line numbers calls
/// for nothing, and every other command calls for what the client makes of
/// it.
pub open spec fn command_requests(searching: bool, cmd: CommandView) -> Seq<RequestView> {
    match cmd {
        CommandView::ToggleLineNumbers => Seq::empty(),
        CommandView::FindUnderExpand => one_edit(
            if searching {
                Edit::FindNext {
                    wrap_around: true,
                    allow_same: false,
                    modify_selection: ModifySelection::Add,
                }
            } else {
                Edit::SelectionForFind { case_sensitive: true }
            },
        ),
        CommandView::Cancel => one_edit(Edit::CollapseSelections),
        _ => requests_for(cmd),
    }
}

/// Whether a search under the cursor is going on after a command: it starts
/// with the command that searches, ends with the command that cancels, and is
/// left alone by every other command.
pub open spec fn searching_after(searching: bool, cmd: CommandView) -> bool {
    match cmd {
        CommandView::FindUnderExpand => true,
        CommandView::Cancel => false,
        _ => searching,
    }
}

/// How a view is shown after a command: the command that toggles the line
/// numbers shows them if they were hidden and hides them if they were shown.
pub open spec fn config_after(cfg: ViewConfig, cmd: CommandView) -> ViewConfig {
    match cmd {
        CommandView::ToggleLineNumbers => ViewConfig {
            gutter_size: cfg.gutter_size,
            tab_size: cfg.tab_size,
            display_gutter: !cfg.display_gutter,
        },
        _ => cfg,
    }
}

/// A number, or the greatest 64-bit number in place of any greater one.
pub open spec fn clamp_u64(n: nat) -> u64 {
    if n > u64::MAX {
        u64::MAX
    } else {
        n as u64
    }
}

/// A configuration that a view can be shown with: the tab stops are at least
/// one column apart, and the gutter is from four to twenty-one columns wide.
struct Shown {
    cfg: ViewConfig,
}

impl Shown {
    #[verifier::type_invariant]
    spec fn shown_well(self) -> bool {
        self.cfg.tab_size >= 1 && 4 <= self.cfg.gutter_size <= 21
    }
}

/// One open view of a document.
pub struct View {
    cache: LineCache,
    cursor: Cursor,
    window: Window,
    file: Option<String>,
    client: Client,
    shown: Shown,
    search_in_progress: bool,
}

impl View {

    /// The value of the line cache.
    pub closed spec fn cache_value(&self) -> LineCacheView {
        self.cache@
    }

    /// Where the cursor is.
    pub closed spec fn cursor_value(&self) -> Cursor {
        self.cursor
    }

    /// The index of the first line of the window.
    pub closed spec fn window_start(&self) -> nat {
        self.window.first()
    }

    /// The number of rows of the window.
    pub closed spec fn window_rows(&self) -> nat {
        self.window.rows()
    }

    /// How the view is shown.
    pub closed spec fn config(&self) -> ViewConfig {
        self.shown.cfg
    }

    /// The sender of the view's requests.
    pub closed spec fn client_value(&self) -> Client {
        self.client
    }

    /// The file that the view saves to, if it has one.
    pub closed spec fn file_value(&self) -> Option<Seq<char>> {
        match self.file {
            Some(path) => Some(path@),
            None => None,
        }
    }

    /// Whether a search for what is under the cursor is going on.
    pub closed spec fn searching(&self) -> bool {
        self.search_in_progress
    }

    /// Whether two views show the same: the same cache, cursor, window and
    /// configuration, and the same file.
    pub open spec fn same_screen(&self, other: &View) -> bool {
        &&& self.cache_value() == other.cache_value()
        &&& self.cursor_value() == other.cursor_value()
        &&& self.window_start() == other.window_start()
        &&& self.window_rows() == other.window_rows()
        &&& self.config() == other.config()
        &&& self.file_value() == other.file_value()
    }

    /// Whether `after` is `before` with the given requests recorded, and
    /// nothing else changed.
    pub open spec fn requested(before: &View, after: &View, requests: Seq<RequestView>) -> bool {
        &&& after.same_screen(before)
        &&& after.searching() == before.searching()
        &&& Client::sent(&before.client_value(), &after.client_value(), requests)
    }

    /// A view of an empty document, with no rows yet.
    pub fn new(client: Client, file: Option<String>) -> (view: View)
        ensures
            view.cache_value() == (LineCacheView { before: 0, lines: Seq::empty(), after: 0 }),
            view.cursor_value() == (Cursor { line: 0, column: 0 }),
            view.window_start() == 0,
            view.window_rows() == 0,
            view.config() == (ViewConfig { gutter_size: 4, tab_size: 4, display_gutter: true }),
            view.client_value() == client,
            view.file_value() == match file {
                Some(path) => Some(path@),
                None => None::<Seq<char>>,
            },
            !view.searching(),
    {
        View {
            cache: LineCache::new(),
            cursor: Cursor { line: 0, column: 0 },
            window: Window::new(),
            shown: Shown { cfg: ViewConfig { gutter_size: 4, tab_size: 4, display_gutter: true } },
            client,
            file,
            search_in_progress: false,
        }
    }

    /// The line cache.
    pub fn cache(&self) -> (cache: &LineCache)
        ensures
            cache@ == self.cache_value(),
    {
        &self.cache
    }

    /// Where the cursor is.
    pub fn cursor(&self) -> (cursor: Cursor)
        ensures
            cursor == self.cursor_value(),
    {
        self.cursor
    }

    /// The window.
    pub fn window(&self) -> (window: Window)
        ensures
            window.first() == self.window_start(),
            window.rows() == self.window_rows(),
    {
        self.window
    }

    /// How the view is shown.
    pub fn cfg(&self) -> (cfg: ViewConfig)
        ensures
            cfg == self.config(),
            cfg.tab_size >= 1,
            4 <= cfg.gutter_size <= 21,
    {
        proof {
            use_type_invariant(&self.shown);
        }
        self.shown.cfg
    }

    /// The view on whose behalf the requests are sent.
    pub fn view_id(&self) -> (id: ViewId)
        ensures
            id == self.client_value().id(),
    {
        self.client.view_id()
    }

    /// Hands over the requests recorded so far, oldest first, and forgets
    /// them.
    pub fn take_requests(&mut self) -> (requests: Vec<Request>)
        ensures
            requests@.map_values(|r: Request| r@) == old(self).client_value().outbox(),
            final(self).client_value().outbox() == Seq::<RequestView>::empty(),
            final(self).client_value().id() == old(self).client_value().id(),
            final(self).same_screen(old(self)),
            final(self).searching() == old(self).searching(),
    {
        self.client.take_requests()
    }

    /// Replaces the cache by what an update makes of it. An update that
    /// cannot be applied is dropped and its error returned: the view stays as
    /// it is.
    pub fn update_cache(&mut self, update: Update) -> (r: Result<(), DiffError>)
        ensures
            match r {
                Ok(()) => old(self).cache_value().updated(
                    update.before as nat,
                    update.after as nat,
                    ops_view(update.ops@),
                ) == Ok::<LineCacheView, DiffError>(final(self).cache_value()),
                Err(e) => {
                    &&& old(self).cache_value().updated(
                        update.before as nat,
                        update.after as nat,
                        ops_view(update.ops@),
                    ) == Err::<LineCacheView, DiffError>(e)
                    &&& final(self).cache_value() == old(self).cache_value()
                },
            },
            final(self).cursor_value() == old(self).cursor_value(),
            final(self).window_start() == old(self).window_start(),
            final(self).window_rows() == old(self).window_rows(),
            final(self).config() == old(self).config(),
            final(self).file_value() == old(self).file_value(),
            final(self).client_value() == old(self).client_value(),
            final(self).searching() == old(self).searching(),
    {
        self.cache.update(update)
    }

    /// Puts the cursor at a line and a column of the document, and lets the
    /// window follow it.
    pub fn set_cursor(&mut self, line: u64, column: u64)
        ensures
            final(self).cursor_value() == (Cursor { line, column }),
            final(self).cache_value() == old(self).cache_value(),
            final(self).window_rows() == old(self).window_rows(),
            final(self).window_start() == followed_start(
                old(self).window_start(),
                old(self).window_rows(),
                old(self).cache_value(),
                line as nat,
            ),
            final(self).config().gutter_size == gutter_width(old(self).cache_value().height()),
            final(self).config().tab_size == old(self).config().tab_size,
            final(self).config().display_gutter == old(self).config().display_gutter,
            final(self).file_value() == old(self).file_value(),
            final(self).client_value() == old(self).client_value(),
            final(self).searching() == old(self).searching(),
    {
        self.cursor = Cursor { line, column };
        self.update_window();
    }

    /// Takes over the tab size that the engine announces, if it is at least
    /// one and fits in 16 bits; any other announcement is dropped.
    pub fn config_changed(&mut self, changes: ConfigChanges)
        ensures
            final(self).config().tab_size == changed_tab_size(old(self).config().tab_size, changes),
            final(self).config().gutter_size == old(self).config().gutter_size,
            final(self).config().display_gutter == old(self).config().display_gutter,
            final(self).cache_value() == old(self).cache_value(),
            final(self).cursor_value() == old(self).cursor_value(),
            final(self).window_start() == old(self).window_start(),
            final(self).window_rows() == old(self).window_rows(),
            final(self).file_value() == old(self).file_value(),
            final(self).client_value() == old(self).client_value(),
            final(self).searching() == old(self).searching(),
    {
        proof {
            use_type_invariant(&self.shown);
        }
        if let Some(size) = changes.tab_size {
            if 1 <= size && size <= 65535 {
                self.shown = Shown { cfg: ViewConfig {
                    gutter_size: self.shown.cfg.gutter_size,
                    tab_size: size as u16,
                    display_gutter: self.shown.cfg.display_gutter,
                } };
            }
        }
    }

    /// Shows or hides the line numbers.
    pub fn toggle_line_numbers(&mut self)
        ensures
            final(self).config().display_gutter == !old(self).config().display_gutter,
            final(self).config().gutter_size == old(self).config().gutter_size,
            final(self).config().tab_size == old(self).config().tab_size,
            final(self).cache_value() == old(self).cache_value(),
            final(self).cursor_value() == old(self).cursor_value(),
            final(self).window_start() == old(self).window_start(),
            final(self).window_rows() == old(self).window_rows(),
            final(self).file_value() == old(self).file_value(),
            final(self).client_value() == old(self).client_value(),
            final(self).searching() == old(self).searching(),
    {
        proof {
            use_type_invariant(&self.shown);
        }
        self.shown = Shown { cfg: ViewConfig {
            gutter_size: self.shown.cfg.gutter_size,
            tab_size: self.shown.cfg.tab_size,
            display_gutter: !self.shown.cfg.display_gutter,
        } };
    }

    /// Sizes the gutter for the document and lets the window follow the
    /// cursor. A cursor before the materialized lines leaves the window where
    /// it is.
    pub fn update_window(&mut self)
        ensures
            final(self).config().gutter_size == gutter_width(old(self).cache_value().height()),
            final(self).config().tab_size == old(self).config().tab_size,
            final(self).config().display_gutter == old(self).config().display_gutter,
            final(self).window_rows() == old(self).window_rows(),
            final(self).window_start() == followed_start(
                old(self).window_start(),
                old(self).window_rows(),
                old(self).cache_value(),
                old(self).cursor_value().line as nat,
            ),
            final(self).cache_value() == old(self).cache_value(),
            final(self).cursor_value() == old(self).cursor_value(),
            final(self).file_value() == old(self).file_value(),
            final(self).client_value() == old(self).client_value(),
            final(self).searching() == old(self).searching(),
    {
        proof {
            use_type_invariant(&self.shown);
        }
        let height = self.cache.height();
        let digits = decimal_chars(height as u128);
        proof {
            lemma_decimal_len_u64(height);
        }
        let wanted = digits.len() as u16 + 1;
        let gutter_size = if wanted < 4 {
            4
        } else {
            wanted
        };
        self.shown = Shown { cfg: ViewConfig {
            gutter_size,
            tab_size: self.shown.cfg.tab_size,
            display_gutter: self.shown.cfg.display_gutter,
        } };
        if self.cursor.line < self.cache.before() {
            return ;
        }
        let cursor_line = self.cursor.line - self.cache.before();
        let nb_lines = self.cache.len() as u64;
        self.window.update(cursor_line, nb_lines);
    }

    /// Gives the window a new height, lets it follow the cursor, and asks the
    /// engine for the lines around it.
    pub fn resize(&mut self, height: u16)
        ensures
            final(self).window_rows() == height,
            final(self).cache_value() == old(self).cache_value(),
            final(self).cursor_value() == old(self).cursor_value(),
            final(self).file_value() == old(self).file_value(),
            final(self).searching() == old(self).searching(),
            final(self).config().gutter_size == gutter_width(old(self).cache_value().height()),
            final(self).config().tab_size == old(self).config().tab_size,
            final(self).config().display_gutter == old(self).config().display_gutter,
            final(self).window_start() == followed_start(
                if old(self).window_start() + height <= u64::MAX {
                    old(self).window_start()
                } else {
                    (u64::MAX - height) as nat
                },
                height as nat,
                old(self).cache_value(),
                old(self).cursor_value().line as nat,
            ),
            Client::sent(
                &old(self).client_value(),
                &final(self).client_value(),
                one_edit(
                    Edit::Scroll(
                        clamp_u64(final(self).cache_value().before + final(self).window_start()),
                        clamp_u64(
                            final(self).cache_value().after + final(self).window_start()
                                + final(self).window_rows(),
                        ),
                    ),
                ),
            ),
    {
        self.window.resize(height);
        self.update_window();
        let start = self.window.start();
        let end = self.window.end();
        let before = self.cache.before();
        let after = self.cache.after();
        let top = if start > u64::MAX - before {
            u64::MAX
        } else {
            before + start
        };
        let bottom = if end > u64::MAX - after {
            u64::MAX
        } else {
            after + end
        };
        self.client.scroll(top, bottom);
    }

    /// Asks the engine to save the view to its file. A view without a file
    /// asks for nothing.
    pub fn save(&mut self)
        ensures
            View::requested(
                old(self),
                final(self),
                match old(self).file_value() {
                    Some(path) => seq![RequestView::Save(path)],
                    None => Seq::empty(),
                },
            ),
    {
        proof {
            assert(self.client.outbox() + Seq::<RequestView>::empty() =~= self.client.outbox());
        }
        match &self.file {
            Some(path) => self.client.save(path.as_str()),
            None => {},
        }
    }

    /// The number of columns that a tab at column `position` takes.
    pub fn tab_width_at_position(&self, position: u64) -> (width: u16)
        ensures
            width == tab_width_at(position as nat, self.config().tab_size as nat),
            1 <= width <= self.config().tab_size,
    {
        proof {
            use_type_invariant(&self.shown);
        }
        tab_width(position, self.shown.cfg.tab_size)
    }

    /// The number of columns that a character at column `position` takes.
    pub fn translate_char_width(&self, position: u64, c: char) -> (width: u16)
        ensures
            width == char_width(c, position as nat, self.config().tab_size as nat),
            1 <= width,
    {
        proof {
            use_type_invariant(&self.shown);
        }
        char_columns(position, c, self.shown.cfg.tab_size)
    }

    /// The insertions that the style runs of a line call for in its escaped
    /// text of `text_len` characters, from the last place to the first.
    pub fn get_style_sequences(
        &self,
        styles: &HashMap<u64, Style>,
        line: &Line,
        text_len: usize,
    ) -> (out: Vec<Insertion>)
        ensures
            insertions_view(out@) == descending(
                style_points(line@.styles, styles@, text_len as nat),
            ),
    {
        style_sequences(styles, &line.styles, text_len)
    }

    /// What is shown for a line: its control characters escaped, its tabs
    /// expanded, and the sequences of its style runs put in.
    pub fn escape_control_and_add_styles(&self, styles: &HashMap<u64, Style>, line: &Line) -> (text:
        String)
        ensures
            text@ == styled_line(
                line@.text,
                line@.styles,
                styles@,
                self.config().tab_size as nat,
            ),
            text@ == woven(
                escaped(line@.text, self.config().tab_size as nat),
                style_points(
                    line@.styles,
                    styles@,
                    escaped(line@.text, self.config().tab_size as nat).len(),
                ),
            ),
    {
        proof {
            use_type_invariant(&self.shown);
            law_styled_line_is_woven(
                line@.text,
                line@.styles,
                styles@,
                self.shown.cfg.tab_size as nat,
            );
        }
        let shown = escape_control(line.text.as_str(), self.shown.cfg.tab_size);
        let insertions = self.get_style_sequences(styles, line, shown.len());
        let out = insert_all(shown, &insertions);
        string_of(&out)
    }

    /// What is written for one row of the window: `line` at the row of index
    /// `line_index`, with its number where `lineno` gives one.
    pub fn render_line_str(
        &self,
        line: &Line,
        lineno: Option<u64>,
        line_index: usize,
        styles: &HashMap<u64, Style>,
    ) -> (out: String)
        ensures
            out@ == rendered_row(
                styled_line(line@.text, line@.styles, styles@, self.config().tab_size as nat),
                lineno,
                line_index as nat,
                self.config(),
            ),
    {
        proof {
            use_type_invariant(&self.shown);
        }
        let text = self.escape_control_and_add_styles(styles, line);
        let row: u16 = if line_index >= 65535 {
            65535
        } else {
            line_index as u16 + 1
        };
        let content: u16 = self.shown.cfg.gutter_size + 1;
        let mut out = String::new();
        match lineno {
            Some(n) => {
                if self.shown.cfg.display_gutter {
                    let number = decimal_chars(n as u128 + 1);
                    let column: u16 = if number.len() > self.shown.cfg.gutter_size as usize {
                        0
                    } else {
                        self.shown.cfg.gutter_size - number.len() as u16
                    };
                    let first = goto(column, row);
                    let clear = clear_line();
                    let digits = string_of(&number);
                    let second = goto(content, row);
                    out.append(first.as_str());
                    out.append(clear.as_str());
                    out.append(digits.as_str());
                    out.append(second.as_str());
                    out.append(text.as_str());
                    assert(out@ =~= first@ + clear@ + digits@ + second@ + text@);
                } else {
                    let first = goto(0, row);
                    let clear = clear_line();
                    out.append(first.as_str());
                    out.append(clear.as_str());
                    out.append(text.as_str());
                    assert(out@ =~= first@ + clear@ + text@);
                }
            },
            None => {
                let first = goto(content, row);
                let clear = clear_line();
                out.append(first.as_str());
                out.append(clear.as_str());
                out.append(text.as_str());
                assert(out@ =~= first@ + clear@ + text@);
            },
        }
        out
    }

    /// What is written for the rows of the window, from the top: the lines
    /// in the window, and blank rows where the cache has no line.
    pub fn render_lines(&self, styles: &HashMap<u64, Style>) -> (out: String)
        ensures
            out@ == window_rows(
                self.cache_value(),
                self.window_start(),
                self.window_rows(),
                self.config(),
                styles@,
            ),
    {
        proof {
            use_type_invariant(&self.shown);
        }
        let lines = self.cache.lines();
        let before = self.cache.before();
        let start = self.window.start();
        let end = self.window.end();
        let rows = self.window.size();
        let blank = Line::invalid();
        let mut out = String::new();
        let mut i: u16 = 0;
        while i < rows
            invariant
                i <= rows,
                rows == self.window_rows(),
                start == self.window_start(),
                start + rows <= u64::MAX,
                before == self.cache_value().before,
                lines@ == self.cache.materialized(),
                lines_view(lines@) == self.cache_value().lines,
                before + lines@.len() <= u64::MAX,
                blank@ == crate::line::LineView::placeholder(),
                self.config().tab_size >= 1,
                out@ == window_rows(
                    self.cache_value(),
                    start as nat,
                    i as nat,
                    self.config(),
                    styles@,
                ),
            decreases rows - i,
        {
            let index = start + i as u64;
            let row = if index < lines.len() as u64 {
                let line = &lines[index as usize];
                assert(line@ == self.cache_value().lines[start + i]);
                self.render_line_str(line, Some(before + index), i as usize, styles)
            } else {
                proof {
                    crate::render::law_styled_plain(Seq::<char>::empty());
                    assert(style_points(Seq::empty(), styles@, 0) =~= Seq::empty());
                    assert(crate::render::escaped(Seq::empty(), self.config().tab_size as nat)
                        =~= Seq::<char>::empty());
                }
                self.render_line_str(&blank, None, i as usize, styles)
            };
            out.append(row.as_str());
            i += 1;
        }
        out
    }

    /// The sequence that puts the terminal's cursor where the document's
    /// cursor is, if it can be shown.
    pub fn render_cursor(&self) -> (out: Option<String>)
        ensures
            match out {
                Some(sequence) => cursor_sequence(
                    self.cache_value(),
                    self.window_start(),
                    self.config(),
                    self.cursor_value(),
                ) == Some(sequence@),
                None => cursor_sequence(
                    self.cache_value(),
                    self.window_start(),
                    self.config(),
                    self.cursor_value(),
                ) is None,
            },
    {
        proof {
            use_type_invariant(&self.shown);
        }
        if self.cache.is_empty() {
            return Some(goto(1, 1));
        }
        let before = self.cache.before();
        if self.cursor.line < before {
            return None;
        }
        let line_idx = self.cursor.line - before;
        let lines = self.cache.lines();
        if line_idx >= lines.len() as u64 {
            return None;
        }
        let line = &lines[line_idx as usize];
        let start = self.window.start();
        if line_idx < start {
            return None;
        }
        assert(line@ == self.cache_value().lines[line_idx as int]);
        let row: u16 = if line_idx - start >= 65535 {
            65535
        } else {
            (line_idx - start) as u16 + 1
        };
        let width = prefix_width(line.text.as_str(), self.cursor.column, self.shown.cfg.tab_size, 65535);
        let wanted: u32 = self.shown.cfg.gutter_size as u32 + width + 1;
        let column: u16 = if wanted > 65535 {
            65535
        } else {
            wanted as u16
        };
        Some(goto(column, row))
    }

    /// What is written to show the view: the window follows the cursor, then
    /// come the rows of the window, then the cursor if it can be shown.
    pub fn render(&mut self, styles: &HashMap<u64, Style>) -> (out: String)
        ensures
            final(self).cache_value() == old(self).cache_value(),
            final(self).cursor_value() == old(self).cursor_value(),
            final(self).file_value() == old(self).file_value(),
            final(self).client_value() == old(self).client_value(),
            final(self).searching() == old(self).searching(),
            final(self).window_rows() == old(self).window_rows(),
            final(self).window_start() == followed_start(
                old(self).window_start(),
                old(self).window_rows(),
                old(self).cache_value(),
                old(self).cursor_value().line as nat,
            ),
            final(self).config().gutter_size == gutter_width(old(self).cache_value().height()),
            final(self).config().tab_size == old(self).config().tab_size,
            final(self).config().display_gutter == old(self).config().display_gutter,
            out@ == window_rows(
                final(self).cache_value(),
                final(self).window_start(),
                final(self).window_rows(),
                final(self).config(),
                styles@,
            ) + match cursor_sequence(
                final(self).cache_value(),
                final(self).window_start(),
                final(self).config(),
                final(self).cursor_value(),
            ) {
                Some(sequence) => sequence,
                None => Seq::empty(),
            },
    {
        self.update_window();
        let mut out = self.render_lines(styles);
        let ghost rows = out@;
        match self.render_cursor() {
            Some(sequence) => {
                out.append(sequence.as_str());
            },
            None => {
                assert(rows + Seq::<char>::empty() =~= rows);
            },
        }
        out
    }

    /// Where a click at a row and a column of the window lands in the
    /// document: the number of the line and the index of the character.
    pub fn get_click_location(&self, x: u64, y: u64) -> (at: (u64, u64))
        ensures
            at.0 == click_location(
                self.cache_value(),
                self.window_start(),
                self.config(),
                x as nat,
                y as nat,
            ).0,
            at.1 == click_location(
                self.cache_value(),
                self.window_start(),
                self.config(),
                x as nat,
                y as nat,
            ).1,
    {
        proof {
            use_type_invariant(&self.shown);
        }
        let start = self.window.start();
        let lines = self.cache.lines();
        let before = self.cache.before();
        if start > u64::MAX - x {
            return (x, y);
        }
        let index = x + start;
        if index >= lines.len() as u64 {
            return (x, y);
        }
        let line = &lines[index as usize];
        assert(line@ == self.cache_value().lines[index as int]);
        let lineno = before + index;
        let gutter = self.shown.cfg.gutter_size as u64;
        if y < gutter {
            return (lineno, 0);
        }
        let column = click_column_of(line.text.as_str(), y - gutter, self.shown.cfg.tab_size);
        (lineno, column)
    }

    /// Puts the cursor where a click at a row and a column of the window
    /// lands.
    pub fn click(&mut self, x: u64, y: u64)
        ensures
            View::requested(
                old(self),
                final(self),
                one_edit(
                    Edit::ClickPointSelect(
                        click_location(
                            old(self).cache_value(),
                            old(self).window_start(),
                            old(self).config(),
                            x as nat,
                            y as nat,
                        ).0 as u64,
                        click_location(
                            old(self).cache_value(),
                            old(self).window_start(),
                            old(self).config(),
                            x as nat,
                            y as nat,
                        ).1 as u64,
                    ),
                ),
            ),
    {
        let (line, column) = self.get_click_location(x, y);
        self.client.click(line, column);
    }

    /// Adds a cursor where a click at a row and a column of the window lands.
    pub fn click_cursor_extend(&mut self, x: u64, y: u64)
        ensures
            View::requested(
                old(self),
                final(self),
                one_edit(
                    Edit::GestureMultiSelect {
                        line: click_location(
                            old(self).cache_value(),
                            old(self).window_start(),
                            old(self).config(),
                            x as nat,
                            y as nat,
                        ).0 as u64,
                        col: click_location(
                            old(self).cache_value(),
                            old(self).window_start(),
                            old(self).config(),
                            x as nat,
                            y as nat,
                        ).1 as u64,
                    },
                ),
            ),
    {
        let (line, column) = self.get_click_location(x, y);
        self.client.click_cursor_extend(line, column);
    }

    /// Extends the selection to where a click at a row and a column of the
    /// window lands.
    pub fn drag(&mut self, x: u64, y: u64)
        ensures
            View::requested(
                old(self),
                final(self),
                one_edit(
                    Edit::Drag(
                        click_location(
                            old(self).cache_value(),
                            old(self).window_start(),
                            old(self).config(),
                            x as nat,
                            y as nat,
                        ).0 as u64,
                        click_location(
                            old(self).cache_value(),
                            old(self).window_start(),
                            old(self).config(),
                            x as nat,
                            y as nat,
                        ).1 as u64,
                    ),
                ),
            ),
    {
        let (line, column) = self.get_click_location(x, y);
        self.client.drag(line, column);
    }

    /// Searches for what is under the cursor: the first call starts the
    /// search, each further one adds the next match to the selection.
    pub fn find_under_expand(&mut self)
        ensures
            final(self).same_screen(old(self)),
            final(self).searching(),
            Client::sent(
                &old(self).client_value(),
                &final(self).client_value(),
                one_edit(
                    if old(self).searching() {
                        Edit::FindNext {
                            wrap_around: true,
                            allow_same: false,
                            modify_selection: ModifySelection::Add,
                        }
                    } else {
                        Edit::SelectionForFind { case_sensitive: true }
                    },
                ),
            ),
    {
        proof {
            use_type_invariant(&self.shown);
        }
        if self.search_in_progress {
            self.client.find_under_expand_next()
        } else {
            self.search_in_progress = true;
            self.client.find_under_expand()
        }
    }

    /// Asks the engine to insert a text at the cursor.
    pub fn paste(&mut self, text: &str)
        ensures
            View::requested(old(self), final(self), seq![RequestView::Paste(text@)]),
    {
        self.client.paste(text)
    }

    /// Asks the engine for the selected text.
    pub fn copy(&mut self)
        ensures
            View::requested(old(self), final(self), one_edit(Edit::Copy)),
    {
        self.client.copy()
    }

    /// Asks the engine for the selected text and to remove it.
    pub fn cut(&mut self)
        ensures
            View::requested(old(self), final(self), one_edit(Edit::Cut)),
    {
        self.client.cut()
    }

    /// Carries out a command: the view itself shows or hides the line
    /// numbers, runs the search under the cursor and ends it; every other
    /// command goes to the client.
    pub fn handle_command(&mut self, cmd: Command)
        ensures
            final(self).cache_value() == old(self).cache_value(),
            final(self).cursor_value() == old(self).cursor_value(),
            final(self).window_start() == old(self).window_start(),
            final(self).window_rows() == old(self).window_rows(),
            final(self).file_value() == old(self).file_value(),
            final(self).config() == config_after(old(self).config(), cmd@),
            final(self).searching() == searching_after(old(self).searching(), cmd@),
            Client::sent(
                &old(self).client_value(),
                &final(self).client_value(),
                command_requests(old(self).searching(), cmd@),
            ),
    {
        proof {
            use_type_invariant(&self.shown);
        }
        proof {
            assert(self.client.outbox() + Seq::<RequestView>::empty() =~= self.client.outbox());
        }
        match cmd {
            Command::ToggleLineNumbers => self.toggle_line_numbers(),
            Command::FindUnderExpand => self.find_under_expand(),
            Command::Cancel => {
                self.search_in_progress = false;
                self.client.collapse_selections()
            },
            client_command => self.client.handle_command(client_command),
        }
    }

    /// Carries out a mouse gesture.
    pub fn handle_mouse_event(&mut self, mouse_event: MouseEvent)
        ensures
            View::requested(
                old(self),
                final(self),
                mouse_requests(
                    old(self).cache_value(),
                    old(self).window_start(),
                    old(self).config(),
                    mouse_event,
                ),
            ),
    {
        proof {
            assert(self.client.outbox() + Seq::<RequestView>::empty() =~= self.client.outbox());
        }
        match mouse_event {
            MouseEvent::Press(press_event, y, x) => match press_event {
                MouseButton::Left => {
                    if x >= 1 && y >= 1 {
                        self.click((x - 1) as u64, (y - 1) as u64)
                    }
                },
                MouseButton::Middle => {
                    if x >= 1 && y >= 1 {
                        self.click_cursor_extend((x - 1) as u64, (y - 1) as u64)
                    }
                },
                MouseButton::WheelUp => self.client.up(false),
                MouseButton::WheelDown => self.client.down(false),
                MouseButton::Right => {},
            },
            MouseEvent::Release(_, _) => {},
            MouseEvent::Hold(y, x) => {
                if x >= 1 && y >= 1 {
                    self.drag((x - 1) as u64, (y - 1) as u64)
                }
            },
        }
    }
}

} // verus!
