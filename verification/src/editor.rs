//! The editor: the open views, the one that is shown, and the routing of
//! input, commands, notifications and replies to them.
//!
//! The editor does no input or output. What it wants of the engine it records
//! as requests, each with the view on whose behalf it is made; whoever owns
//! the transport takes them with [`Editor::take_requests`], sends them, and
//! hands the replies of the engine to [`Editor::poll`].

use vstd::prelude::*;
use vstd::view::View as _;
use indexmap::IndexMap;
use std::collections::hash_map::RandomState;
use std::collections::HashMap;
use crate::cache::{LineCacheView, Update};
use crate::client::{one_edit, Client, Edit, Request, RequestView};
use crate::command::{Command, CommandView, ViewId};
use crate::config::{binding_of, BindingView, KeyMap};
use crate::event::{Event, Key};
use crate::op::ops_view;
use crate::style::Style;
use crate::text::decimal;
use crate::view::{
    changed_tab_size, clamp_u64, command_requests, config_after, followed_start, gutter_width,
    mouse_requests,
    searching_after, ConfigChanges,
    Cursor, View, ViewConfig,
};
use crate::views::{
    slot_of, view_entries, views_get_mut, views_index_of, views_insert, views_key_at, views_len,
    views_new, views_remove,
};

verus! {

/// A reply of the engine to a request of the editor.
#[derive(Debug)]
pub enum XiReply {
    /// A view was opened: its identifier, and the file that it shows.
    NewView((ViewId, Option<String>)),
    /// The text that was copied or cut, if the engine gave one.
    CopiedText(Option<String>),
}

/// A notification of the engine.
#[derive(Debug, Clone, PartialEq, Eq)]
pub enum CoreEvent {
    /// The lines of a view have changed.
    Update { view_id: ViewId, update: Update },
    /// The cursor of a view has moved.
    ScrollTo { view_id: ViewId, line: u64, column: u64 },
    /// A style is defined.
    DefStyle(Style),
    /// The configuration of a view has changed.
    ConfigChanged { view_id: ViewId, changes: ConfigChanges },
    /// A notification that the editor does not heed.
    Other,
}

/// A request of the editor to the engine.
#[derive(Debug, Clone, PartialEq, Eq)]
pub enum EditorRequest {
    /// Open a file in a new view; `None` opens an empty view.
    NewView(Option<String>),
    SetTheme(String),
    /// A request on behalf of a view.
    View(ViewId, Request),
}

/// The mathematical value of an [`EditorRequest`].
pub enum EditorRequestView {
    NewView(Option<Seq<char>>),
    SetTheme(Seq<char>),
    View(ViewId, RequestView),
}

impl vstd::view::View for EditorRequest {
    type V = EditorRequestView;

    open spec fn view(&self) -> EditorRequestView {
        match self {
            EditorRequest::NewView(file) => EditorRequestView::NewView(
                match file {
                    Some(path) => Some(path@),
                    None => None,
                },
            ),
            EditorRequest::SetTheme(theme) => EditorRequestView::SetTheme(theme@),
            EditorRequest::View(id, request) => EditorRequestView::View(*id, request@),
        }
    }
}

/// The requests of a view, each with the view's identifier.
pub open spec fn tagged(id: ViewId, requests: Seq<RequestView>) -> Seq<EditorRequestView> {
    requests.map_values(|r: RequestView| EditorRequestView::View(id, r))
}

/// The identifier that follows `current` in the order of the views, the first
/// following the last; `current` itself, if it has no view.
pub open spec fn next_in(entries: Seq<(usize, View)>, current: ViewId) -> ViewId {
    let i = slot_of(entries, current.0);
    if i >= entries.len() {
        current
    } else if i + 1 == entries.len() {
        ViewId(entries[0].0)
    } else {
        ViewId(entries[i as int + 1].0)
    }
}

/// The identifier that precedes `current` in the order of the views, the last
/// preceding the first; `current` itself, if it has no view.
pub open spec fn prev_in(entries: Seq<(usize, View)>, current: ViewId) -> ViewId {
    let i = slot_of(entries, current.0);
    if i >= entries.len() {
        current
    } else if i == 0 {
        ViewId(entries[entries.len() - 1].0)
    } else {
        ViewId(entries[i as int - 1].0)
    }
}

/// Whether `after` is `before` but for the view at index `i`, whose
/// identifier is kept.
pub open spec fn changed_at(before: Seq<(usize, View)>, after: Seq<(usize, View)>, i: int) -> bool {
    &&& 0 <= i < before.len()
    &&& after.len() == before.len()
    &&& after[i].0 == before[i].0
    &&& forall|j: int| 0 <= j < before.len() && j != i ==> after[j] == before[j]
}

/// Whether `after` is `before` once its requests are moved out: the same
/// view, with no request recorded.
pub open spec fn served(before: View, after: View) -> bool {
    &&& after.same_screen(&before)
    &&& after.searching() == before.searching()
    &&& after.client_value().id() == before.client_value().id()
    &&& after.client_value().outbox() == Seq::<RequestView>::empty()
}

/// Whether a view is what a command makes of it, once its requests are moved
/// out.
pub open spec fn commanded(before: View, after: View, cmd: CommandView) -> bool {
    &&& after.cache_value() == before.cache_value()
    &&& after.cursor_value() == before.cursor_value()
    &&& after.window_start() == before.window_start()
    &&& after.window_rows() == before.window_rows()
    &&& after.file_value() == before.file_value()
    &&& after.config() == config_after(before.config(), cmd)
    &&& after.searching() == searching_after(before.searching(), cmd)
    &&& after.client_value().id() == before.client_value().id()
    &&& after.client_value().outbox() == Seq::<RequestView>::empty()
}

/// The numbers of the identifiers of the views, in their order.
pub open spec fn keys_of(entries: Seq<(usize, View)>) -> Seq<usize> {
    entries.map_values(|e: (usize, View)| e.0)
}

/// Whether a notification is for a view that is not open, and so has to wait.
pub open spec fn waits(entries: Seq<(usize, View)>, event: CoreEvent) -> bool {
    match event {
        CoreEvent::Update { view_id, update } => slot_of(entries, view_id.0) >= entries.len(),
        CoreEvent::ScrollTo { view_id, line, column } => slot_of(entries, view_id.0)
            >= entries.len(),
        CoreEvent::ConfigChanged { view_id, changes } => slot_of(entries, view_id.0)
            >= entries.len(),
        _ => false,
    }
}

/// Those of the notifications, in their order, that still have to wait.
pub open spec fn still_waiting(events: Seq<CoreEvent>, entries: Seq<(usize, View)>) -> Seq<
    CoreEvent,
>
    decreases events.len(),
{
    if events.len() == 0 {
        Seq::empty()
    } else {
        let front = still_waiting(events.drop_last(), entries);
        if waits(entries, events.last()) {
            front.push(events.last())
        } else {
            front
        }
    }
}

/// The clipboard after the replies, in their order: the text of the last
/// reply that brings a copied text.
pub open spec fn clip_after(clip: Option<Seq<char>>, replies: Seq<XiReply>) -> Option<Seq<char>>
    decreases replies.len(),
{
    if replies.len() == 0 {
        clip
    } else {
        match replies.last() {
            XiReply::CopiedText(text) => text_of(text),
            XiReply::NewView(_) => clip_after(clip, replies.drop_last()),
        }
    }
}

/// The view that is shown after the replies, in their order: the view of the
/// last reply that brings an opened view.
pub open spec fn current_after(current: ViewId, replies: Seq<XiReply>) -> ViewId
    decreases replies.len(),
{
    if replies.len() == 0 {
        current
    } else {
        match replies.last() {
            XiReply::NewView(opened) => opened.0,
            XiReply::CopiedText(_) => current_after(current, replies.drop_last()),
        }
    }
}

/// The requests after the replies, in their order: every opened view asks
/// for the lines of its window, which starts at the first line and has as
/// many rows as the terminal.
pub open spec fn requests_after(
    requests: Seq<EditorRequestView>,
    replies: Seq<XiReply>,
    rows: u16,
) -> Seq<EditorRequestView>
    decreases replies.len(),
{
    if replies.len() == 0 {
        requests
    } else {
        let front = requests_after(requests, replies.drop_last(), rows);
        match replies.last() {
            XiReply::NewView(opened) => front + tagged(
                opened.0,
                one_edit(Edit::Scroll(0, rows as u64)),
            ),
            XiReply::CopiedText(_) => front,
        }
    }
}

/// The identifiers of the views after the replies, in their order: every
/// opened view that was not open is added last.
pub open spec fn keys_after(keys: Seq<usize>, replies: Seq<XiReply>) -> Seq<usize>
    decreases replies.len(),
{
    if replies.len() == 0 {
        keys
    } else {
        let front = keys_after(keys, replies.drop_last());
        match replies.last() {
            XiReply::NewView(opened) => if front.contains(opened.0.0) {
                front
            } else {
                front.push(opened.0.0)
            },
            XiReply::CopiedText(_) => front,
        }
    }
}

/// Whether a view is what a new height makes of it, once its requests are
/// moved out: the window has the new height and has followed the cursor, the
/// gutter is sized for the document, and the rest is as it was.
pub open spec fn resized(before: View, after: View, height: u16) -> bool {
    &&& after.cache_value() == before.cache_value()
    &&& after.cursor_value() == before.cursor_value()
    &&& after.file_value() == before.file_value()
    &&& after.searching() == before.searching()
    &&& after.window_rows() == height
    &&& after.window_start() == followed_start(
        if before.window_start() + height <= u64::MAX {
            before.window_start()
        } else {
            (u64::MAX - height) as nat
        },
        height as nat,
        before.cache_value(),
        before.cursor_value().line as nat,
    )
    &&& after.config().gutter_size == gutter_width(before.cache_value().height())
    &&& after.config().tab_size == before.config().tab_size
    &&& after.config().display_gutter == before.config().display_gutter
    &&& after.client_value().id() == before.client_value().id()
    &&& after.client_value().outbox() == Seq::<RequestView>::empty()
}

/// Whether a view is what an update makes of it: the cache is what the
/// update makes of the cache, or as it was if the update cannot be applied,
/// and the rest is as it was.
pub open spec fn cache_updated(before: View, after: View, update: Update) -> bool {
    &&& after.cache_value() == match before.cache_value().updated(
        update.before as nat,
        update.after as nat,
        ops_view(update.ops@),
    ) {
        Ok(cache) => cache,
        Err(_) => before.cache_value(),
    }
    &&& after.cursor_value() == before.cursor_value()
    &&& after.window_start() == before.window_start()
    &&& after.window_rows() == before.window_rows()
    &&& after.config() == before.config()
    &&& after.file_value() == before.file_value()
    &&& after.client_value() == before.client_value()
    &&& after.searching() == before.searching()
}

/// Whether a view is what a move of the cursor makes of it: the cursor is at
/// the line and the column, the window has followed it, the gutter is sized
/// for the document, and the rest is as it was.
pub open spec fn cursor_set(before: View, after: View, line: u64, column: u64) -> bool {
    &&& after.cursor_value() == (Cursor { line, column })
    &&& after.cache_value() == before.cache_value()
    &&& after.window_rows() == before.window_rows()
    &&& after.window_start() == followed_start(
        before.window_start(),
        before.window_rows(),
        before.cache_value(),
        line as nat,
    )
    &&& after.config().gutter_size == gutter_width(before.cache_value().height())
    &&& after.config().tab_size == before.config().tab_size
    &&& after.config().display_gutter == before.config().display_gutter
    &&& after.file_value() == before.file_value()
    &&& after.client_value() == before.client_value()
    &&& after.searching() == before.searching()
}

/// Whether a view is what it is after its window has followed its cursor and
/// its gutter has been sized for the document: the window has the rows that
/// it had and starts where the cursor takes it, and the rest is as it was.
pub open spec fn window_followed(before: View, after: View) -> bool {
    &&& after.cache_value() == before.cache_value()
    &&& after.cursor_value() == before.cursor_value()
    &&& after.window_rows() == before.window_rows()
    &&& after.window_start() == followed_start(
        before.window_start(),
        before.window_rows(),
        before.cache_value(),
        before.cursor_value().line as nat,
    )
    &&& after.config().gutter_size == gutter_width(before.cache_value().height())
    &&& after.config().tab_size == before.config().tab_size
    &&& after.config().display_gutter == before.config().display_gutter
    &&& after.file_value() == before.file_value()
    &&& after.client_value() == before.client_value()
    &&& after.searching() == before.searching()
}

/// Whether a view is what a change of configuration makes of it: the tab
/// size is the announced one if that is valid, and the rest is as it was.
pub open spec fn config_changed(before: View, after: View, changes: ConfigChanges) -> bool {
    &&& after.config().tab_size == changed_tab_size(before.config().tab_size, changes)
    &&& after.config().gutter_size == before.config().gutter_size
    &&& after.config().display_gutter == before.config().display_gutter
    &&& after.cache_value() == before.cache_value()
    &&& after.cursor_value() == before.cursor_value()
    &&& after.window_start() == before.window_start()
    &&& after.window_rows() == before.window_rows()
    &&& after.file_value() == before.file_value()
    &&& after.client_value() == before.client_value()
    &&& after.searching() == before.searching()
}

/// The characters of a text that may be missing.
pub open spec fn text_of(text: Option<String>) -> Option<Seq<char>> {
    match text {
        Some(t) => Some(t@),
        None => None,
    }
}

/// Whether a view is one that was just opened under an identifier for a
/// file, with a number of rows: it shows an empty document from its first
/// line, with the cursor at the start, in the first configuration, and has
/// recorded nothing.
pub open spec fn opened(view: View, id: ViewId, file: Option<Seq<char>>, rows: u16) -> bool {
    &&& view.cache_value() == (LineCacheView { before: 0, lines: Seq::empty(), after: 0 })
    &&& view.cursor_value() == (Cursor { line: 0, column: 0 })
    &&& view.window_start() == 0
    &&& view.window_rows() == rows
    &&& view.config() == (ViewConfig { gutter_size: 4, tab_size: 4, display_gutter: true })
    &&& view.file_value() == file
    &&& !view.searching()
    &&& view.client_value().id() == id
    &&& view.client_value().outbox() == Seq::<RequestView>::empty()
}

/// Whether `after` is what a reply of the engine makes of `before`. An opened
/// view is set up with as many rows as the terminal has, asks for the lines
/// of its window, is put in under its identifier, in the place of a view of
/// that identifier if there is one and else last, and is shown. A copied text
/// becomes the clipboard.
pub open spec fn reply_handled(before: &Editor, after: &Editor, reply: XiReply) -> bool {
    &&& after.screen_size() == before.screen_size()
    &&& after.delayed() == before.delayed()
    &&& after.style_table() == before.style_table()
    &&& after.bindings() == before.bindings()
    &&& match reply {
        XiReply::NewView(new_view) => {
            let view_id = new_view.0;
            let file = text_of(new_view.1);
            let i = slot_of(before.entries(), view_id.0) as int;
            let rows = before.screen_size().1;
            &&& after.current() == view_id
            &&& after.clip() == before.clip()
            &&& after.requests() == before.requests() + tagged(
                view_id,
                one_edit(Edit::Scroll(0, rows as u64)),
            )
            &&& if i < before.entries().len() {
                &&& changed_at(before.entries(), after.entries(), i)
                &&& opened(after.entries()[i].1, view_id, file, rows)
            } else {
                &&& after.entries().len() == before.entries().len() + 1
                &&& after.entries().drop_last() == before.entries()
                &&& after.entries().last().0 == view_id.0
                &&& opened(after.entries().last().1, view_id, file, rows)
            }
        },
        XiReply::CopiedText(text) => {
            &&& after.clip() == text_of(text)
            &&& after.current() == before.current()
            &&& after.entries() == before.entries()
            &&& after.requests() == before.requests()
        },
    }
}

/// The open views under the numbers of their identifiers, none of which
/// occurs twice.
struct Views {
    map: IndexMap<usize, View, RandomState>,
}

impl Views {
    #[verifier::type_invariant]
    spec fn distinct(self) -> bool {
        keys_of(view_entries(self.map)).no_duplicates()
    }

    closed spec fn entries(&self) -> Seq<(usize, View)> {
        view_entries(self.map)
    }

    fn new() -> (views: Views)
        ensures
            views.entries() == Seq::<(usize, View)>::empty(),
    {
        Views { map: views_new() }
    }

    /// The map, to be read.
    fn map(&self) -> (map: &IndexMap<usize, View, RandomState>)
        ensures
            view_entries(*map) == self.entries(),
            keys_of(self.entries()).no_duplicates(),
    {
        proof {
            use_type_invariant(self);
        }
        &self.map
    }

    /// Hands the map out to be changed, and holds an empty one meanwhile.
    fn take(&mut self) -> (map: IndexMap<usize, View, RandomState>)
        ensures
            view_entries(map) == old(self).entries(),
            keys_of(view_entries(map)).no_duplicates(),
            final(self).entries() == Seq::<(usize, View)>::empty(),
    {
        proof {
            use_type_invariant(&*self);
        }
        let mut map = views_new();
        core::mem::swap(&mut self.map, &mut map);
        map
    }

    /// Takes the map back.
    fn put(&mut self, map: IndexMap<usize, View, RandomState>)
        requires
            keys_of(view_entries(map)).no_duplicates(),
        ensures
            final(self).entries() == view_entries(map),
    {
        *self = Views { map };
    }
}

/// Whether `after` is what a notification of the engine makes of `before`.
/// An update, a move of the cursor and a change of configuration are carried
/// out on their view if it is open, and kept to wait if it is not; a style is
/// put into the table of styles; any other notification changes nothing.
pub open spec fn core_event_handled(before: &Editor, after: &Editor, event: CoreEvent) -> bool {
    &&& after.current() == before.current()
    &&& after.screen_size() == before.screen_size()
    &&& after.bindings() == before.bindings()
    &&& after.clip() == before.clip()
    &&& after.requests() == before.requests()
    &&& match event {
        CoreEvent::Update { view_id, update } => {
            let i = slot_of(before.entries(), view_id.0) as int;
            &&& after.style_table() == before.style_table()
            &&& if i < before.entries().len() {
                &&& after.delayed() == before.delayed()
                &&& changed_at(before.entries(), after.entries(), i)
                &&& cache_updated(
                    before.entries()[i].1,
                    after.entries()[i].1,
                    update,
                )
            } else {
                &&& after.delayed() == before.delayed().push(event)
                &&& after.entries() == before.entries()
            }
        },
        CoreEvent::ScrollTo { view_id, line, column } => {
            let i = slot_of(before.entries(), view_id.0) as int;
            &&& after.style_table() == before.style_table()
            &&& if i < before.entries().len() {
                &&& after.delayed() == before.delayed()
                &&& changed_at(before.entries(), after.entries(), i)
                &&& cursor_set(
                    before.entries()[i].1,
                    after.entries()[i].1,
                    line,
                    column,
                )
            } else {
                &&& after.delayed() == before.delayed().push(event)
                &&& after.entries() == before.entries()
            }
        },
        CoreEvent::DefStyle(style) => {
            &&& after.style_table() == before.style_table().insert(style.id, style)
            &&& after.delayed() == before.delayed()
            &&& after.entries() == before.entries()
        },
        CoreEvent::ConfigChanged { view_id, changes } => {
            let i = slot_of(before.entries(), view_id.0) as int;
            &&& after.style_table() == before.style_table()
            &&& if i < before.entries().len() {
                &&& after.delayed() == before.delayed()
                &&& changed_at(before.entries(), after.entries(), i)
                &&& config_changed(
                    before.entries()[i].1,
                    after.entries()[i].1,
                    changes,
                )
            } else {
                &&& after.delayed() == before.delayed().push(event)
                &&& after.entries() == before.entries()
            }
        },
        CoreEvent::Other => {
            &&& after.style_table() == before.style_table()
            &&& after.delayed() == before.delayed()
            &&& after.entries() == before.entries()
        },
    }
}

/// Whether two editors are in the same state.
pub open spec fn same_state(a: &Editor, b: &Editor) -> bool {
    &&& a.entries() == b.entries()
    &&& a.current() == b.current()
    &&& a.screen_size() == b.screen_size()
    &&& a.delayed() == b.delayed()
    &&& a.style_table() == b.style_table()
    &&& a.bindings() == b.bindings()
    &&& a.clip() == b.clip()
    &&& a.requests() == b.requests()
}

/// Whether `start` is `before` with no notification kept.
pub open spec fn emptied(before: &Editor, start: &Editor) -> bool {
    &&& start.delayed() == Seq::<CoreEvent>::empty()
    &&& start.entries() == before.entries()
    &&& start.current() == before.current()
    &&& start.screen_size() == before.screen_size()
    &&& start.style_table() == before.style_table()
    &&& start.bindings() == before.bindings()
    &&& start.clip() == before.clip()
    &&& start.requests() == before.requests()
}

/// Whether `after` is what the notifications, carried out one after the other
/// in their order, make of `before`.
pub open spec fn events_handled(before: Editor, after: Editor, events: Seq<CoreEvent>) -> bool
    decreases events.len(),
{
    if events.len() == 0 {
        same_state(&before, &after)
    } else {
        exists|mid: Editor|
            #![trigger core_event_handled(&mid, &after, events.last())]
            events_handled(before, mid, events.drop_last()) && core_event_handled(
                &mid,
                &after,
                events.last(),
            )
    }
}

/// Whether `after` is what the replies, carried out one after the other in
/// their order, make of `before`.
pub open spec fn replies_handled(before: Editor, after: Editor, replies: Seq<XiReply>) -> bool
    decreases replies.len(),
{
    if replies.len() == 0 {
        same_state(&before, &after)
    } else {
        exists|mid: Editor|
            #![trigger reply_handled(&mid, &after, replies.last())]
            replies_handled(before, mid, replies.drop_last()) && reply_handled(
                &mid,
                &after,
                replies.last(),
            )
    }
}

/// Whether `after` is what a poll with the given replies makes of `before`:
/// the kept notifications are taken out and carried out in their order, each
/// on its view if that is open and else kept again, and then the replies are
/// carried out in their order.
pub open spec fn polled(before: &Editor, after: &Editor, replies: Seq<XiReply>) -> bool {
    exists|start: Editor, mid: Editor|
        #![trigger events_handled(start, mid, before.delayed())]
        emptied(before, &start) && events_handled(start, mid, before.delayed())
            && replies_handled(mid, *after, replies)
}

/// The table of styles after the notifications, in their order: every style
/// that a notification defines is put in under its identifier.
pub open spec fn styles_after(styles: Map<u64, Style>, events: Seq<CoreEvent>) -> Map<u64, Style>
    decreases events.len(),
{
    if events.len() == 0 {
        styles
    } else {
        let front = styles_after(styles, events.drop_last());
        match events.last() {
            CoreEvent::DefStyle(style) => front.insert(style.id, style),
            _ => front,
        }
    }
}

/// The editor.
pub struct Editor {
    delayed_events: Vec<CoreEvent>,
    views: Views,
    current_view: ViewId,
    size: (u16, u16),
    styles: HashMap<u64, Style>,
    keymap: KeyMap,
    clipboard: Option<String>,
    outbox: Vec<EditorRequest>,
}

impl Editor {
    /// The open views with the numbers of their identifiers, in the order in
    /// which they are cycled through.
    pub closed spec fn entries(&self) -> Seq<(usize, View)> {
        self.views.entries()
    }

    /// Whether no identifier has two views. This holds of every editor.
    pub open spec fn distinct_ids(&self) -> bool {
        keys_of(self.entries()).no_duplicates()
    }

    /// The identifier of the view that is shown.
    pub closed spec fn current(&self) -> ViewId {
        self.current_view
    }

    /// The size of the terminal: columns, then rows.
    pub closed spec fn screen_size(&self) -> (u16, u16) {
        self.size
    }

    /// The notifications that wait for their view to be opened.
    pub closed spec fn delayed(&self) -> Seq<CoreEvent> {
        self.delayed_events@
    }

    /// The styles that the engine has defined.
    pub closed spec fn style_table(&self) -> Map<u64, Style> {
        self.styles@
    }

    /// The key bindings.
    pub closed spec fn bindings(&self) -> Seq<BindingView> {
        self.keymap.bindings()
    }

    /// The text that was last copied or cut.
    pub closed spec fn clip(&self) -> Option<Seq<char>> {
        match self.clipboard {
            Some(text) => Some(text@),
            None => None,
        }
    }

    /// The requests recorded and not yet taken, oldest first.
    pub closed spec fn requests(&self) -> Seq<EditorRequestView> {
        self.outbox@.map_values(|r: EditorRequest| r@)
    }

    /// Whether two editors are in the same state but for the views and the
    /// requests.
    pub open spec fn same_desk(&self, other: &Editor) -> bool {
        &&& self.current() == other.current()
        &&& self.screen_size() == other.screen_size()
        &&& self.delayed() == other.delayed()
        &&& self.style_table() == other.style_table()
        &&& self.bindings() == other.bindings()
        &&& self.clip() == other.clip()
    }

    /// Whether `after` is `before` after the view of an identifier, if it
    /// is open, has recorded the given requests and they have been moved to
    /// the requests of the editor; the views themselves are not compared.
    pub open spec fn asked(
        before: &Editor,
        after: &Editor,
        id: ViewId,
        requests: Seq<RequestView>,
    ) -> bool {
        let i = slot_of(before.entries(), id.0) as int;
        if i < before.entries().len() {
            &&& changed_at(before.entries(), after.entries(), i)
            &&& after.requests() == before.requests() + tagged(
                id,
                before.entries()[i].1.client_value().outbox() + requests,
            )
        } else {
            &&& after.entries() == before.entries()
            &&& after.requests() == before.requests()
        }
    }

    /// Whether `after` is `before` but for the view of an identifier, which,
    /// if it is open, has recorded the given requests and handed them to the
    /// editor, and is else as it was.
    pub open spec fn view_asked(
        before: &Editor,
        after: &Editor,
        id: ViewId,
        requests: Seq<RequestView>,
    ) -> bool {
        let i = slot_of(before.entries(), id.0) as int;
        &&& after.same_desk(before)
        &&& Editor::asked(before, after, id, requests)
        &&& i < before.entries().len() ==> served(before.entries()[i].1, after.entries()[i].1)
    }

    /// Whether `after` is `before` but for the view that is shown, which, if
    /// it is open, has carried out a command and handed its requests to the
    /// editor.
    pub open spec fn view_commanded(before: &Editor, after: &Editor, cmd: CommandView) -> bool {
        let id = before.current();
        let i = slot_of(before.entries(), id.0) as int;
        &&& after.same_desk(before)
        &&& Editor::asked(
            before,
            after,
            id,
            command_requests(before.entries()[i].1.searching(), cmd),
        )
        &&& i < before.entries().len() ==> commanded(
            before.entries()[i].1,
            after.entries()[i].1,
            cmd,
        )
    }

    /// Whether `after` is `before` in every respect.
    pub open spec fn unchanged(before: &Editor, after: &Editor) -> bool {
        &&& after.same_desk(before)
        &&& after.entries() == before.entries()
        &&& after.requests() == before.requests()
    }

    /// Whether `after` is `before` but for the view that is shown, which is
    /// that of the identifier.
    pub open spec fn shown(before: &Editor, after: &Editor, id: ViewId) -> bool {
        &&& after.current() == id
        &&& after.screen_size() == before.screen_size()
        &&& after.delayed() == before.delayed()
        &&& after.style_table() == before.style_table()
        &&& after.bindings() == before.bindings()
        &&& after.clip() == before.clip()
        &&& after.entries() == before.entries()
        &&& after.requests() == before.requests()
    }

    /// Whether `after` is `before` with one more request of the editor's own.
    pub open spec fn asked_for(before: &Editor, after: &Editor, request: EditorRequestView) -> bool {
        &&& after.same_desk(before)
        &&& after.entries() == before.entries()
        &&& after.requests() == before.requests().push(request)
    }

    /// Whether `after` is `before` after a view, the one that is shown if
    /// none is named, was asked to save to its file. A view without a file,
    /// and a view that is not open, ask for nothing.
    pub open spec fn saved(before: &Editor, after: &Editor, view_id: Option<ViewId>) -> bool {
        let id = match view_id {
            Some(id) => id,
            None => before.current(),
        };
        let i = slot_of(before.entries(), id.0) as int;
        Editor::view_asked(
            before,
            after,
            id,
            match before.entries()[i].1.file_value() {
                Some(path) => seq![RequestView::Save(path)],
                None => Seq::empty(),
            },
        )
    }

    /// Whether `after` is `before` after the clipboard was pasted into the
    /// view that is shown. Without a clipboard nothing changes.
    pub open spec fn pasted(before: &Editor, after: &Editor) -> bool {
        match before.clip() {
            Some(text) => Editor::view_asked(
                before,
                after,
                before.current(),
                seq![RequestView::Paste(text)],
            ),
            None => Editor::unchanged(before, after),
        }
    }

    /// Whether `after` is `before` after a view, the one that is shown if
    /// none is named, was closed. The only view, and a view that is not
    /// open, are not closed. Else the view is asked to close and hands its
    /// requests to the editor, the view before the one that was shown is
    /// shown, and the last view takes the place of the closed one.
    pub open spec fn closed(before: &Editor, after: &Editor, view_id: Option<ViewId>) -> bool {
        let entries = before.entries();
        let closing = match view_id {
            Some(id) => id,
            None => before.current(),
        };
        let i = slot_of(entries, closing.0) as int;
        &&& after.screen_size() == before.screen_size()
        &&& after.delayed() == before.delayed()
        &&& after.style_table() == before.style_table()
        &&& after.bindings() == before.bindings()
        &&& after.clip() == before.clip()
        &&& if entries.len() <= 1 || i >= entries.len() {
            &&& after.entries() == entries
            &&& after.current() == before.current()
            &&& after.requests() == before.requests()
        } else {
            &&& after.entries() == entries.update(i, entries.last()).drop_last()
            &&& after.current() == prev_in(entries, before.current())
            &&& after.requests() == before.requests() + tagged(
                closing,
                entries[i].1.client_value().outbox() + one_edit(Edit::CloseView),
            )
        }
    }

    /// Whether `after` is what a command makes of `before`. The editor itself
    /// changes the theme, cycles through the views, saves, opens and closes
    /// views, and copies, cuts and pastes; every other command goes to the
    /// view that is shown.
    pub open spec fn command_handled(before: &Editor, after: &Editor, cmd: CommandView) -> bool {
        match cmd {
            CommandView::SetTheme(theme) => Editor::asked_for(
                before,
                after,
                EditorRequestView::SetTheme(theme),
            ),
            CommandView::NextBuffer => Editor::shown(
                before,
                after,
                next_in(before.entries(), before.current()),
            ),
            CommandView::PrevBuffer => Editor::shown(
                before,
                after,
                prev_in(before.entries(), before.current()),
            ),
            CommandView::Save(view_id) => Editor::saved(before, after, view_id),
            CommandView::Open(file) => Editor::asked_for(
                before,
                after,
                EditorRequestView::NewView(file),
            ),
            CommandView::CloseCurrentView => Editor::closed(before, after, None),
            CommandView::CopySelection => Editor::view_asked(
                before,
                after,
                before.current(),
                one_edit(Edit::Copy),
            ),
            CommandView::CutSelection => Editor::view_asked(
                before,
                after,
                before.current(),
                one_edit(Edit::Cut),
            ),
            CommandView::Paste => Editor::pasted(before, after),
            _ => Editor::view_commanded(before, after, cmd),
        }
    }

    /// Whether `after` is what an input event makes of `before`. A mouse
    /// gesture goes to the view that is shown. Any other event that is bound
    /// calls for its command; one that is not bound and is a plain character
    /// is typed into the view that is shown; every other event is passed
    /// over.
    pub open spec fn input_handled(before: &Editor, after: &Editor, event: Event) -> bool {
        match event {
            Event::Mouse(mouse_event) => {
                let i = slot_of(before.entries(), before.current().0) as int;
                let view = before.entries()[i].1;
                Editor::view_asked(
                    before,
                    after,
                    before.current(),
                    mouse_requests(
                        view.cache_value(),
                        view.window_start(),
                        view.config(),
                        mouse_event,
                    ),
                )
            },
            _ => match binding_of(before.bindings(), event@) {
                Some(cmd) => Editor::command_handled(before, after, cmd),
                None => match event {
                    Event::Key(Key::Char(c)) => Editor::view_commanded(
                        before,
                        after,
                        CommandView::Insert(c),
                    ),
                    _ => Editor::unchanged(before, after),
                },
            },
        }
    }

    /// An editor without views, with the style of identifier zero defined as
    /// the plain style.
    pub fn new(keymap: KeyMap) -> (editor: Editor)
        ensures
            editor.distinct_ids(),
            editor.entries() == Seq::<(usize, View)>::empty(),
            editor.current() == ViewId(0),
            editor.screen_size() == (0u16, 0u16),
            editor.delayed() == Seq::<CoreEvent>::empty(),
            editor.style_table() == Map::<u64, Style>::empty().insert(
                0,
                Style {
                    id: 0,
                    fg_color: None,
                    bg_color: None,
                    weight: None,
                    italic: None,
                    underline: None,
                },
            ),
            editor.bindings() == keymap.bindings(),
            editor.clip() is None,
            editor.requests() == Seq::<EditorRequestView>::empty(),
    {
        broadcast use vstd::std_specs::hash::group_hash_axioms;

        let mut styles: HashMap<u64, Style> = HashMap::new();
        styles.insert(0, Style::default());
        let editor = Editor {
            delayed_events: Vec::new(),
            views: Views::new(),
            current_view: ViewId(0),
            size: (0, 0),
            styles,
            keymap,
            clipboard: None,
            outbox: Vec::new(),
        };
        assert(editor.requests() =~= Seq::<EditorRequestView>::empty());
        editor
    }

    /// Learns that no identifier has two views.
    fn settle(&self)
        ensures
            self.distinct_ids(),
    {
        proof {
            use_type_invariant(&self.views);
        }
    }

    /// The identifier of the view that is shown.
    pub fn current_view(&self) -> (id: ViewId)
        ensures
            id == self.current(),
    {
        self.current_view
    }

    /// The number of open views.
    pub fn view_count(&self) -> (n: usize)
        ensures
            n == self.entries().len(),
            self.distinct_ids(),
    {
        views_len(self.views.map())
    }

    /// Whether a view is open under an identifier.
    pub fn has_view(&self, id: ViewId) -> (r: bool)
        ensures
            r == (slot_of(self.entries(), id.0) < self.entries().len()),
    {
        views_index_of(self.views.map(), id.0).is_some()
    }

    /// The text that was last copied or cut.
    pub fn clipboard(&self) -> (r: Option<&str>)
        ensures
            match r {
                Some(text) => self.clip() == Some(text@),
                None => self.clip() is None,
            },
    {
        match &self.clipboard {
            Some(text) => Some(text.as_str()),
            None => None,
        }
    }

    /// The number of notifications that wait for their view.
    pub fn delayed_count(&self) -> (n: usize)
        ensures
            n == self.delayed().len(),
    {
        self.delayed_events.len()
    }

    /// Hands over the recorded requests, oldest first, and forgets them.
    pub fn take_requests(&mut self) -> (requests: Vec<EditorRequest>)
        ensures
            final(self).distinct_ids(),
            requests@.map_values(|r: EditorRequest| r@) == old(self).requests(),
            final(self).requests() == Seq::<EditorRequestView>::empty(),
            final(self).entries() == old(self).entries(),
            final(self).same_desk(old(self)),
    {
        self.settle();
        let mut requests: Vec<EditorRequest> = Vec::new();
        core::mem::swap(&mut requests, &mut self.outbox);
        assert(self.requests() =~= Seq::<EditorRequestView>::empty());
        requests
    }

    /// Carries out an input event. A mouse gesture goes to the view that is
    /// shown. Any other event that is bound calls for its command; one that
    /// is not bound and is a plain character is typed into the view that is
    /// shown; every other event is passed over.
    pub fn handle_input(&mut self, event: Event)
        ensures
            final(self).distinct_ids(),
            Editor::input_handled(old(self), final(self), event),
    {
        self.settle();
        proof {
            lemma_slot_of(self.entries(), self.current_view.0);
        }
        match event {
            Event::Mouse(mouse_event) => {
                let id = self.current_view;
                let mut map = self.views.take();
                let ghost lent = view_entries(map);
                match views_get_mut(&mut map, id.0) {
                    Some(view) => {
                        view.handle_mouse_event(mouse_event);
                        move_requests(view, &mut self.outbox, id);
                    },
                    None => {},
                }
                proof {
                    lemma_slot_of(lent, id.0);
                    lemma_keys_kept(lent, view_entries(map));
                }
                self.views.put(map);
            },
            ev => {
                let bound = match self.keymap.get(&ev) {
                    Some(cmd) => Some(cmd.duplicate()),
                    None => None,
                };
                match bound {
                    Some(cmd) => self.handle_command(cmd),
                    None => {
                        if let Event::Key(Key::Char(c)) = ev {
                            self.view_command(Command::Insert(c));
                        }
                    },
                }
            },
        }
    }

    /// Hands a command to the view that is shown, and moves the requests that
    /// the view records to the requests of the editor.
    fn view_command(&mut self, cmd: Command)
        ensures
            final(self).distinct_ids(),
            Editor::view_commanded(old(self), final(self), cmd@),
    {
        self.settle();
        proof {
            lemma_slot_of(self.entries(), self.current_view.0);
        }
        let id = self.current_view;
        let mut map = self.views.take();
        let ghost lent = view_entries(map);
        match views_get_mut(&mut map, id.0) {
            Some(view) => {
                view.handle_command(cmd);
                move_requests(view, &mut self.outbox, id);
            },
            None => {},
        }
        proof {
            lemma_slot_of(lent, id.0);
            lemma_keys_kept(lent, view_entries(map));
        }
        self.views.put(map);
    }

    /// Carries out a command. The editor itself changes the theme, cycles
    /// through the views, saves, opens and closes views, and copies, cuts and
    /// pastes; every other command goes to the view that is shown.
    pub fn handle_command(&mut self, cmd: Command)
        ensures
            final(self).distinct_ids(),
            Editor::command_handled(old(self), final(self), cmd@),
    {
        self.settle();
        match cmd {
            Command::SetTheme(theme) => self.set_theme(theme.as_str()),
            Command::NextBuffer => self.next_buffer(),
            Command::PrevBuffer => self.prev_buffer(),
            Command::Save(view_id) => self.save(view_id),
            Command::Open(file) => self.new_view(file),
            Command::CloseCurrentView => self.close_view(None),
            Command::CopySelection => self.copy(),
            Command::CutSelection => self.cut(),
            Command::Paste => self.paste(),
            view_command => self.view_command(view_command),
        }
    }

    /// Takes over the new size of the terminal, and gives the view that is
    /// shown as many rows as the terminal has; the view lets its window
    /// follow its cursor and asks for the lines around the window.
    pub fn handle_resize(&mut self, size: (u16, u16))
        ensures
            final(self).distinct_ids(),
            final(self).screen_size() == size,
            final(self).current() == old(self).current(),
            final(self).delayed() == old(self).delayed(),
            final(self).style_table() == old(self).style_table(),
            final(self).bindings() == old(self).bindings(),
            final(self).clip() == old(self).clip(),
            ({
                let i = slot_of(old(self).entries(), old(self).current().0) as int;
                let before = old(self).entries()[i].1;
                let after = final(self).entries()[i].1;
                &&& Editor::asked(
                    old(self),
                    final(self),
                    old(self).current(),
                    one_edit(
                        Edit::Scroll(
                            clamp_u64(after.cache_value().before + after.window_start()),
                            clamp_u64(
                                after.cache_value().after + after.window_start()
                                    + after.window_rows(),
                            ),
                        ),
                    ),
                )
                &&& i < old(self).entries().len() ==> resized(before, after, size.1)
            }),
    {
        self.settle();
        proof {
            lemma_slot_of(self.entries(), self.current_view.0);
        }
        self.size = size;
        let id = self.current_view;
        let mut map = self.views.take();
        let ghost lent = view_entries(map);
        match views_get_mut(&mut map, id.0) {
            Some(view) => {
                view.resize(size.1);
                move_requests(view, &mut self.outbox, id);
            },
            None => {},
        }
        proof {
            lemma_slot_of(lent, id.0);
            lemma_keys_kept(lent, view_entries(map));
        }
        self.views.put(map);
    }

    /// Carries out a notification of the engine. A notification for a view
    /// that is not open yet is kept, to be carried out once the view is
    /// open. An update that cannot be applied is dropped.
    pub fn handle_core_event(&mut self, event: CoreEvent)
        ensures
            final(self).distinct_ids(),
            core_event_handled(old(self), final(self), event),
    {
        self.settle();
        broadcast use vstd::std_specs::hash::group_hash_axioms;

        proof {
            let entries = self.entries();
            assert forall|id: usize| #![trigger slot_of(entries, id)]
                slot_of(entries, id) < entries.len() implies entries[slot_of(entries, id) as int].0
                == id by {
                lemma_slot_of(entries, id);
            }
        }
        match event {
            CoreEvent::Update { view_id, update } => {
                let mut map = self.views.take();
                let ghost lent = view_entries(map);
                match views_get_mut(&mut map, view_id.0) {
                    Some(view) => {
                        let _ = view.update_cache(update);
                    },
                    None => {
                        self.delayed_events.push(CoreEvent::Update { view_id, update });
                    },
                }
                proof {
                    lemma_slot_of(lent, view_id.0);
                    lemma_keys_kept(lent, view_entries(map));
                }
                self.views.put(map);
            },
            CoreEvent::ScrollTo { view_id, line, column } => {
                let mut map = self.views.take();
                let ghost lent = view_entries(map);
                match views_get_mut(&mut map, view_id.0) {
                    Some(view) => {
                        view.set_cursor(line, column);
                    },
                    None => {
                        self.delayed_events.push(CoreEvent::ScrollTo { view_id, line, column });
                    },
                }
                proof {
                    lemma_slot_of(lent, view_id.0);
                    lemma_keys_kept(lent, view_entries(map));
                }
                self.views.put(map);
            },
            CoreEvent::DefStyle(style) => {
                self.styles.insert(style.id, style);
            },
            CoreEvent::ConfigChanged { view_id, changes } => {
                let mut map = self.views.take();
                let ghost lent = view_entries(map);
                match views_get_mut(&mut map, view_id.0) {
                    Some(view) => {
                        view.config_changed(changes);
                    },
                    None => {
                        self.delayed_events.push(CoreEvent::ConfigChanged { view_id, changes });
                    },
                }
                proof {
                    lemma_slot_of(lent, view_id.0);
                    lemma_keys_kept(lent, view_entries(map));
                }
                self.views.put(map);
            },
            CoreEvent::Other => {},
        }
    }

    /// Carries out a reply of the engine. An opened view is set up with as
    /// many rows as the terminal has, put in under its identifier, and shown.
    /// A copied text becomes the clipboard.
    pub fn handle_reply(&mut self, reply: XiReply)
        ensures
            final(self).distinct_ids(),
            reply_handled(old(self), final(self), reply),
    {
        self.settle();
        match reply {
            XiReply::NewView((view_id, file_path)) => {
                proof {
                    lemma_slot_of(self.entries(), view_id.0);
                    assert(decimal(0).len() == 1);
                }
                let ghost file = text_of(file_path);
                let client = Client::new(view_id);
                let mut view = View::new(client, file_path);
                view.resize(self.size.1);
                proof {
                    let sent = view.client_value().outbox();
                    let asked = one_edit(Edit::Scroll(0, self.size.1 as u64));
                    assert(Seq::<RequestView>::empty() + asked =~= asked);
                    assert(sent == asked);
                }
                move_requests(&mut view, &mut self.outbox, view_id);
                let ghost set_up = view;
                let ghost before = self.entries();
                let mut map = self.views.take();
                views_insert(&mut map, view_id.0, view);
                proof {
                    lemma_insert_keeps_distinct(before, view_entries(map), view_id.0, set_up);
                }
                self.views.put(map);
                self.current_view = view_id;
                proof {
                    assert(opened(set_up, view_id, file, self.size.1));
                    let i = slot_of(before, view_id.0) as int;
                    if i < before.len() {
                        assert(self.entries() == before.update(i, (view_id.0, set_up)));
                        assert(changed_at(before, self.entries(), i));
                    } else {
                        assert(self.entries() == before.push((view_id.0, set_up)));
                        assert(self.entries().drop_last() =~= before);
                    }
                }
            },
            XiReply::CopiedText(text) => {
                self.clipboard = text;
            },
        }
    }

    /// Carries out the notifications that were kept, then the replies of the
    /// engine, each in its order. A notification whose view is still not open
    /// is kept again.
    pub fn poll(&mut self, replies: Vec<XiReply>)
        ensures
            final(self).distinct_ids(),
            final(self).screen_size() == old(self).screen_size(),
            final(self).bindings() == old(self).bindings(),
            final(self).delayed() == still_waiting(old(self).delayed(), old(self).entries()),
            final(self).clip() == clip_after(old(self).clip(), replies@),
            final(self).current() == current_after(old(self).current(), replies@),
            keys_of(final(self).entries()) == keys_after(keys_of(old(self).entries()), replies@),
            final(self).requests() == requests_after(
                old(self).requests(),
                replies@,
                old(self).screen_size().1,
            ),
            final(self).style_table() == styles_after(old(self).style_table(), old(self).delayed()),
            polled(old(self), final(self), replies@),
    {
        self.settle();
        let ghost all = self.delayed();
        let ghost first = *self;
        let mut waiting: Vec<CoreEvent> = Vec::new();
        core::mem::swap(&mut waiting, &mut self.delayed_events);
        let ghost start = *self;
        let total = waiting.len();
        let mut i: usize = 0;
        assert(all.take(0) =~= Seq::<CoreEvent>::empty());
        assert(all.skip(0) =~= all);
        while i < total
            invariant
                i <= total,
                total == all.len(),
                waiting@ == all.skip(i as int),
                self.delayed() == still_waiting(all.take(i as int), first.entries()),
                keys_of(self.entries()) == keys_of(first.entries()),
                self.screen_size() == first.screen_size(),
                self.bindings() == first.bindings(),
                self.current() == first.current(),
                self.clip() == first.clip(),
                self.requests() == first.requests(),
                self.distinct_ids(),
                self.style_table() == styles_after(first.style_table(), all.take(i as int)),
                events_handled(start, *self, all.take(i as int)),
            decreases total - i,
        {
            let ghost before = *self;
            let ghost event_value = waiting@[0];
            let event = waiting.remove(0);
            proof {
                assert(event == all[i as int]);
                assert(waiting@ =~= all.skip(i + 1));
                assert(all.take(i + 1).drop_last() =~= all.take(i as int));
                assert(all.take(i + 1).last() == all[i as int]);
                assert forall|id: usize| #![trigger slot_of(before.entries(), id)]
                    slot_of(before.entries(), id) == slot_of(first.entries(), id) by {
                    lemma_slot_keys(before.entries(), first.entries(), id);
                }
                assert(before.entries().len() == keys_of(before.entries()).len());
                assert(first.entries().len() == keys_of(first.entries()).len());
                assert(waits(first.entries(), event) == waits(before.entries(), event));
            }
            self.handle_core_event(event);
            proof {
                lemma_events_step(start, before, *self, all.take(i + 1));
                match event_value {
                    CoreEvent::Update { view_id, update } => {
                        if slot_of(before.entries(), view_id.0) < before.entries().len() {
                            lemma_changed_keys(
                                before.entries(),
                                self.entries(),
                                slot_of(before.entries(), view_id.0) as int,
                            );
                        }
                    },
                    CoreEvent::ScrollTo { view_id, line, column } => {
                        if slot_of(before.entries(), view_id.0) < before.entries().len() {
                            lemma_changed_keys(
                                before.entries(),
                                self.entries(),
                                slot_of(before.entries(), view_id.0) as int,
                            );
                        }
                    },
                    CoreEvent::ConfigChanged { view_id, changes } => {
                        if slot_of(before.entries(), view_id.0) < before.entries().len() {
                            lemma_changed_keys(
                                before.entries(),
                                self.entries(),
                                slot_of(before.entries(), view_id.0) as int,
                            );
                        }
                    },
                    _ => {},
                }
            }
            i += 1;
        }
        assert(all.take(total as int) =~= all);
        let ghost replayed = *self;
        let ghost given = replies@;
        let mut replies = replies;
        let count = replies.len();
        let mut k: usize = 0;
        assert(given.take(0) =~= Seq::<XiReply>::empty());
        assert(given.skip(0) =~= given);
        while k < count
            invariant
                k <= count,
                count == given.len(),
                replies@ == given.skip(k as int),
                self.delayed() == replayed.delayed(),
                self.screen_size() == replayed.screen_size(),
                self.bindings() == replayed.bindings(),
                self.clip() == clip_after(replayed.clip(), given.take(k as int)),
                self.current() == current_after(replayed.current(), given.take(k as int)),
                keys_of(self.entries()) == keys_after(
                    keys_of(replayed.entries()),
                    given.take(k as int),
                ),
                self.requests() == requests_after(
                    replayed.requests(),
                    given.take(k as int),
                    replayed.screen_size().1,
                ),
                self.distinct_ids(),
                self.style_table() == replayed.style_table(),
                replies_handled(replayed, *self, given.take(k as int)),
            decreases count - k,
        {
            let ghost before = *self;
            let reply = replies.remove(0);
            proof {
                assert(reply == given[k as int]);
                assert(replies@ =~= given.skip(k + 1));
                assert(given.take(k + 1).drop_last() =~= given.take(k as int));
                assert(given.take(k + 1).last() == given[k as int]);
            }
            let ghost reply_value = reply;
            self.handle_reply(reply);
            proof {
                lemma_replies_step(replayed, before, *self, given.take(k + 1));
                match reply_value {
                    XiReply::NewView(opened_view) => {
                        let id = opened_view.0.0;
                        lemma_slot_contains(before.entries(), id);
                        if slot_of(before.entries(), id) < before.entries().len() {
                            lemma_changed_keys(
                                before.entries(),
                                self.entries(),
                                slot_of(before.entries(), id) as int,
                            );
                        } else {
                            assert(keys_of(self.entries()) =~= keys_of(before.entries()).push(id)) by {
                                assert(self.entries().drop_last() == before.entries());
                                assert forall|j: int| 0 <= j < before.entries().len() implies keys_of(
                                    self.entries(),
                                )[j] == keys_of(before.entries())[j] by {
                                    assert(self.entries().drop_last()[j] == self.entries()[j]);
                                }
                            }
                        }
                    },
                    XiReply::CopiedText(_) => {},
                }
            }
            k += 1;
        }
        assert(given.take(count as int) =~= given);
        assert(emptied(old(self), &start));
        assert(events_handled(start, replayed, old(self).delayed()));
        assert(replies_handled(replayed, *self, given));
    }

    /// Closes a view, the one that is shown if none is named, unless it is
    /// the only one. The view is asked to close, the view before the one
    /// that is shown is shown, and the closed view leaves the order, in which
    /// the last view takes its place.
    pub fn close_view(&mut self, view_id: Option<ViewId>)
        ensures
            final(self).distinct_ids(),
            Editor::closed(old(self), final(self), view_id),
    {
        self.settle();
        if views_len(self.views.map()) <= 1 {
            return ;
        }
        let view_to_close = match view_id {
            Some(id) => id,
            None => self.current_view,
        };
        let ghost entries = self.entries();
        let ghost i = slot_of(entries, view_to_close.0) as int;
        let before = match views_index_of(self.views.map(), self.current_view.0) {
            Some(dex) => {
                let at = if dex == 0 {
                    views_len(self.views.map()) - 1
                } else {
                    dex - 1
                };
                match views_key_at(self.views.map(), at) {
                    Some(id) => ViewId(id),
                    None => self.current_view,
                }
            },
            None => self.current_view,
        };
        let mut closed = false;
        let mut map = self.views.take();
        let ghost lent = view_entries(map);
        match views_get_mut(&mut map, view_to_close.0) {
            Some(view) => {
                view.handle_command(Command::CloseCurrentView);
                move_requests(view, &mut self.outbox, view_to_close);
                closed = true;
            },
            None => {},
        }
        proof {
            lemma_slot_of(lent, view_to_close.0);
            lemma_keys_kept(lent, view_entries(map));
        }
        self.views.put(map);
        if closed {
            proof {
                let changed = self.entries();
                assert(changed.len() == entries.len());
                assert(changed[i].0 == view_to_close.0) by {
                    lemma_slot_of(entries, view_to_close.0);
                }
                lemma_slot_of(entries, view_to_close.0);
                lemma_slot_of_is(changed, view_to_close.0, i);
                assert(changed.update(i, changed.last()).drop_last() =~= entries.update(
                    i,
                    entries.last(),
                ).drop_last());
            }
            self.current_view = before;
            let mut map = self.views.take();
            let ghost held = view_entries(map);
            let _ = views_remove(&mut map, view_to_close.0);
            proof {
                lemma_remove_keeps_distinct(held, view_entries(map), view_to_close.0);
            }
            self.views.put(map);
        }
    }

    /// Asks the engine for the text that is selected in the view that is
    /// shown.
    pub fn copy(&mut self)
        ensures
            final(self).distinct_ids(),
            Editor::view_asked(old(self), final(self), old(self).current(), one_edit(Edit::Copy)),
    {
        self.settle();
        proof {
            lemma_slot_of(self.entries(), self.current_view.0);
        }
        let id = self.current_view;
        let mut map = self.views.take();
        let ghost lent = view_entries(map);
        match views_get_mut(&mut map, id.0) {
            Some(view) => {
                view.copy();
                move_requests(view, &mut self.outbox, id);
            },
            None => {},
        }
        proof {
            lemma_slot_of(lent, id.0);
            lemma_keys_kept(lent, view_entries(map));
        }
        self.views.put(map);
    }

    /// Asks the engine for the text that is selected in the view that is
    /// shown, and to remove it.
    pub fn cut(&mut self)
        ensures
            final(self).distinct_ids(),
            Editor::view_asked(old(self), final(self), old(self).current(), one_edit(Edit::Cut)),
    {
        self.settle();
        proof {
            lemma_slot_of(self.entries(), self.current_view.0);
        }
        let id = self.current_view;
        let mut map = self.views.take();
        let ghost lent = view_entries(map);
        match views_get_mut(&mut map, id.0) {
            Some(view) => {
                view.cut();
                move_requests(view, &mut self.outbox, id);
            },
            None => {},
        }
        proof {
            lemma_slot_of(lent, id.0);
            lemma_keys_kept(lent, view_entries(map));
        }
        self.views.put(map);
    }

    /// Asks the engine to insert the clipboard at the cursor of the view that
    /// is shown. Without a clipboard or without that view, nothing is asked.
    pub fn paste(&mut self)
        ensures
            final(self).distinct_ids(),
            Editor::pasted(old(self), final(self)),
    {
        self.settle();
        proof {
            lemma_slot_of(self.entries(), self.current_view.0);
        }
        let id = self.current_view;
        match &self.clipboard {
            Some(content) => {
                let mut map = self.views.take();
                let ghost lent = view_entries(map);
                match views_get_mut(&mut map, id.0) {
                    Some(view) => {
                        view.paste(content.as_str());
                        move_requests(view, &mut self.outbox, id);
                    },
                    None => {},
                }
                proof {
                    lemma_slot_of(lent, id.0);
                    lemma_keys_kept(lent, view_entries(map));
                }
                self.views.put(map);
            },
            None => {},
        }
    }

    /// Asks the engine to open a file in a new view.
    pub fn new_view(&mut self, file_path: Option<String>)
        ensures
            final(self).distinct_ids(),
            Editor::asked_for(
                old(self),
                final(self),
                EditorRequestView::NewView(
                    match file_path {
                        Some(path) => Some(path@),
                        None => None,
                    },
                ),
            ),
    {
        self.settle();
        let ghost request = EditorRequest::NewView(file_path)@;
        self.outbox.push(EditorRequest::NewView(file_path));
        assert(self.requests() =~= old(self).requests().push(request));
    }

    /// Asks the engine to change the theme.
    pub fn set_theme(&mut self, theme: &str)
        ensures
            final(self).distinct_ids(),
            Editor::asked_for(old(self), final(self), EditorRequestView::SetTheme(theme@)),
    {
        self.settle();
        self.outbox.push(EditorRequest::SetTheme(theme.to_owned()));
        assert(self.requests() =~= old(self).requests().push(EditorRequestView::SetTheme(theme@)));
    }

    /// Asks the engine to save a view, the one that is shown if none is
    /// named, to its file.
    pub fn save(&mut self, view_id: Option<ViewId>)
        ensures
            final(self).distinct_ids(),
            Editor::saved(old(self), final(self), view_id),
    {
        self.settle();
        let id = match view_id {
            Some(id) => id,
            None => self.current_view,
        };
        proof {
            lemma_slot_of(self.entries(), id.0);
        }
        let mut map = self.views.take();
        let ghost lent = view_entries(map);
        match views_get_mut(&mut map, id.0) {
            Some(view) => {
                view.save();
                move_requests(view, &mut self.outbox, id);
            },
            None => {},
        }
        proof {
            lemma_slot_of(lent, id.0);
            lemma_keys_kept(lent, view_entries(map));
        }
        self.views.put(map);
    }

    /// Shows the view that follows the one that is shown, the first after the
    /// last.
    pub fn next_buffer(&mut self)
        ensures
            final(self).distinct_ids(),
            Editor::shown(
                old(self),
                final(self),
                next_in(old(self).entries(), old(self).current()),
            ),
    {
        self.settle();
        let len = views_len(self.views.map());
        if let Some(dex) = views_index_of(self.views.map(), self.current_view.0) {
            let at = if dex + 1 == len {
                0
            } else {
                dex + 1
            };
            if let Some(id) = views_key_at(self.views.map(), at) {
                self.current_view = ViewId(id);
            }
        }
    }

    /// Shows the view that precedes the one that is shown, the last before
    /// the first.
    pub fn prev_buffer(&mut self)
        ensures
            final(self).distinct_ids(),
            Editor::shown(
                old(self),
                final(self),
                prev_in(old(self).entries(), old(self).current()),
            ),
    {
        self.settle();
        if let Some(dex) = views_index_of(self.views.map(), self.current_view.0) {
            let at = if dex == 0 {
                views_len(self.views.map()) - 1
            } else {
                dex - 1
            };
            if let Some(id) = views_key_at(self.views.map(), at) {
                self.current_view = ViewId(id);
            }
        }
    }

    /// What is written to show the view that is shown; nothing, if there is
    /// no such view. The window of the view follows its cursor and its gutter
    /// is sized for the document; nothing else of the view changes.
    pub fn render(&mut self) -> (out: Option<String>)
        ensures
            final(self).distinct_ids(),
            final(self).same_desk(old(self)),
            final(self).requests() == old(self).requests(),
            ({
                let i = slot_of(old(self).entries(), old(self).current().0) as int;
                if i < old(self).entries().len() {
                    let shown = final(self).entries()[i].1;
                    &&& changed_at(old(self).entries(), final(self).entries(), i)
                    &&& window_followed(old(self).entries()[i].1, shown)
                    &&& out is Some
                    &&& out->0@ == crate::view::window_rows(
                        shown.cache_value(),
                        shown.window_start(),
                        shown.window_rows(),
                        shown.config(),
                        old(self).style_table(),
                    ) + match crate::view::cursor_sequence(
                        shown.cache_value(),
                        shown.window_start(),
                        shown.config(),
                        shown.cursor_value(),
                    ) {
                        Some(sequence) => sequence,
                        None => Seq::empty(),
                    }
                } else {
                    out is None && final(self).entries() == old(self).entries()
                }
            }),
    {
        self.settle();
        proof {
            lemma_slot_of(self.entries(), self.current_view.0);
        }
        let id = self.current_view;
        let mut map = self.views.take();
        let ghost lent = view_entries(map);
        let out = match views_get_mut(&mut map, id.0) {
            Some(view) => Some(view.render(&self.styles)),
            None => None,
        };
        proof {
            lemma_slot_of(lent, id.0);
            lemma_keys_kept(lent, view_entries(map));
        }
        self.views.put(map);
        out
    }
}

/// The index that [`slot_of`] gives: no entry before it is of the identifier,
/// and the entry at it, if there is one, is.
pub proof fn lemma_slot_of(entries: Seq<(usize, View)>, id: usize)
    ensures
        slot_of(entries, id) <= entries.len(),
        forall|j: int| 0 <= j < slot_of(entries, id) ==> entries[j].0 != id,
        slot_of(entries, id) < entries.len() ==> entries[slot_of(entries, id) as int].0 == id,
    decreases entries.len(),
{
    if entries.len() > 0 && entries[0].0 != id {
        let rest = entries.skip(1);
        lemma_slot_of(rest, id);
        let p = slot_of(rest, id);
        assert forall|j: int| 0 <= j < p + 1 implies entries[j].0 != id by {
            if j > 0 {
                assert(entries[j] == rest[j - 1]);
            }
        }
        if p + 1 < entries.len() {
            assert(entries[p as int + 1] == rest[p as int]);
        }
    }
}

/// Entries that have the identifiers of others at the same places have their
/// identifiers.
pub proof fn lemma_keys_kept(before: Seq<(usize, View)>, after: Seq<(usize, View)>)
    requires
        after.len() == before.len(),
        forall|j: int| 0 <= j < before.len() ==> after[j].0 == before[j].0,
    ensures
        keys_of(after) == keys_of(before),
{
    assert(keys_of(after) =~= keys_of(before));
}

/// Putting a view in under an identifier keeps the identifiers distinct.
pub proof fn lemma_insert_keeps_distinct(
    before: Seq<(usize, View)>,
    after: Seq<(usize, View)>,
    id: usize,
    view: View,
)
    requires
        keys_of(before).no_duplicates(),
        after == (if slot_of(before, id) < before.len() {
            before.update(slot_of(before, id) as int, (id, view))
        } else {
            before.push((id, view))
        }),
    ensures
        keys_of(after).no_duplicates(),
{
    lemma_slot_of(before, id);
    let i = slot_of(before, id) as int;
    if i < before.len() {
        lemma_keys_kept(before, after);
    } else {
        assert forall|a: int, b: int|
            0 <= a < keys_of(after).len() && 0 <= b < keys_of(after).len() && a != b implies keys_of(
            after,
        )[a] != keys_of(after)[b] by {
            if a < before.len() {
                assert(keys_of(after)[a] == keys_of(before)[a]);
            }
            if b < before.len() {
                assert(keys_of(after)[b] == keys_of(before)[b]);
            }
        }
    }
}

/// Taking the view of an identifier out, with the last view put in its
/// place, keeps the identifiers distinct.
pub proof fn lemma_remove_keeps_distinct(
    before: Seq<(usize, View)>,
    after: Seq<(usize, View)>,
    id: usize,
)
    requires
        keys_of(before).no_duplicates(),
        after == (if slot_of(before, id) < before.len() {
            before.update(slot_of(before, id) as int, before.last()).drop_last()
        } else {
            before
        }),
    ensures
        keys_of(after).no_duplicates(),
{
    lemma_slot_of(before, id);
    let i = slot_of(before, id) as int;
    if i < before.len() {
        let last = before.len() - 1;
        assert forall|a: int, b: int|
            0 <= a < keys_of(after).len() && 0 <= b < keys_of(after).len() && a != b implies keys_of(
            after,
        )[a] != keys_of(after)[b] by {
            let from_a = if a == i {
                last
            } else {
                a
            };
            let from_b = if b == i {
                last
            } else {
                b
            };
            assert(keys_of(after)[a] == keys_of(before)[from_a]);
            assert(keys_of(after)[b] == keys_of(before)[from_b]);
        }
    }
}

/// With distinct identifiers, the step to the next view and the step to the
/// view before undo each other.
pub proof fn law_next_and_prev_undo_each_other(entries: Seq<(usize, View)>, current: ViewId)
    requires
        keys_of(entries).no_duplicates(),
        slot_of(entries, current.0) < entries.len(),
    ensures
        prev_in(entries, next_in(entries, current)) == current,
        next_in(entries, prev_in(entries, current)) == current,
{
    lemma_slot_of(entries, current.0);
    let n = entries.len() as int;
    let i = slot_of(entries, current.0) as int;
    let up = if i + 1 == n {
        0
    } else {
        i + 1
    };
    let down = if i == 0 {
        n - 1
    } else {
        i - 1
    };
    assert forall|j: int| 0 <= j < n implies keys_of(entries)[j] == (#[trigger] entries[j]).0 by {}
    assert forall|j: int| 0 <= j < up implies entries[j].0 != entries[up].0 by {
        assert(keys_of(entries)[j] != keys_of(entries)[up]);
    }
    assert forall|j: int| 0 <= j < down implies entries[j].0 != entries[down].0 by {
        assert(keys_of(entries)[j] != keys_of(entries)[down]);
    }
    lemma_slot_of_is(entries, entries[up].0, up);
    lemma_slot_of_is(entries, entries[down].0, down);
}

/// One more notification carried out is the notifications carried out.
pub proof fn lemma_events_step(before: Editor, mid: Editor, after: Editor, events: Seq<CoreEvent>)
    requires
        events.len() > 0,
        events_handled(before, mid, events.drop_last()),
        core_event_handled(&mid, &after, events.last()),
    ensures
        events_handled(before, after, events),
{
}

/// One more reply carried out is the replies carried out.
pub proof fn lemma_replies_step(before: Editor, mid: Editor, after: Editor, replies: Seq<XiReply>)
    requires
        replies.len() > 0,
        replies_handled(before, mid, replies.drop_last()),
        reply_handled(&mid, &after, replies.last()),
    ensures
        replies_handled(before, after, replies),
{
}

/// A change of one view keeps the identifiers and their order.
pub proof fn lemma_changed_keys(before: Seq<(usize, View)>, after: Seq<(usize, View)>, i: int)
    requires
        changed_at(before, after, i),
    ensures
        keys_of(after) == keys_of(before),
{
    assert(keys_of(after) =~= keys_of(before));
}

/// The place of an identifier depends on the identifiers alone.
pub proof fn lemma_slot_keys(a: Seq<(usize, View)>, b: Seq<(usize, View)>, id: usize)
    requires
        keys_of(a) == keys_of(b),
    ensures
        slot_of(a, id) == slot_of(b, id),
    decreases a.len(),
{
    assert(a.len() == keys_of(a).len());
    assert(b.len() == keys_of(b).len());
    if a.len() > 0 {
        assert(a[0].0 == keys_of(a)[0]);
        assert(b[0].0 == keys_of(b)[0]);
        if a[0].0 != id {
            assert(keys_of(a.skip(1)) =~= keys_of(a).skip(1));
            assert(keys_of(b.skip(1)) =~= keys_of(b).skip(1));
            lemma_slot_keys(a.skip(1), b.skip(1), id);
        }
    }
}

/// An identifier has a place among the views exactly if it is among their
/// identifiers.
pub proof fn lemma_slot_contains(entries: Seq<(usize, View)>, id: usize)
    ensures
        slot_of(entries, id) < entries.len() <==> keys_of(entries).contains(id),
{
    lemma_slot_of(entries, id);
    let i = slot_of(entries, id) as int;
    if i < entries.len() {
        assert(keys_of(entries)[i] == id);
    } else {
        if keys_of(entries).contains(id) {
            let j = choose|j: int| 0 <= j < keys_of(entries).len() && keys_of(entries)[j] == id;
            assert(entries[j].0 == id);
        }
    }
}

/// The index that stands where [`slot_of`] says is the index that it gives.
pub proof fn lemma_slot_of_is(entries: Seq<(usize, View)>, id: usize, i: int)
    requires
        0 <= i <= entries.len(),
        forall|j: int| 0 <= j < i ==> entries[j].0 != id,
        i < entries.len() ==> entries[i].0 == id,
    ensures
        slot_of(entries, id) == i,
    decreases entries.len(),
{
    if entries.len() > 0 && entries[0].0 != id {
        let rest = entries.skip(1);
        assert forall|j: int| 0 <= j < i - 1 implies rest[j].0 != id by {
            assert(rest[j] == entries[j + 1]);
        }
        if i - 1 < rest.len() {
            assert(rest[i - 1] == entries[i]);
        }
        lemma_slot_of_is(rest, id, i - 1);
    }
}

/// Moves the requests that a view has recorded to the requests of the editor,
/// each with the view's identifier.
fn move_requests(view: &mut View, outbox: &mut Vec<EditorRequest>, id: ViewId)
    ensures
        final(outbox)@.map_values(|r: EditorRequest| r@) == old(outbox)@.map_values(
            |r: EditorRequest| r@,
        ) + tagged(id, old(view).client_value().outbox()),
        final(view).client_value().outbox() == Seq::<RequestView>::empty(),
        final(view).client_value().id() == old(view).client_value().id(),
        final(view).same_screen(old(view)),
        final(view).searching() == old(view).searching(),
{
    let mut requests = view.take_requests();
    let ghost all = requests@.map_values(|r: Request| r@);
    let ghost before = outbox@.map_values(|r: EditorRequest| r@);
    let total = requests.len();
    let mut i: usize = 0;
    assert(before + tagged(id, all.take(0)) =~= before);
    while i < total
        invariant
            i <= total,
            total == all.len(),
            requests.len() == total - i,
            requests@.map_values(|r: Request| r@) == all.skip(i as int),
            outbox@.map_values(|r: EditorRequest| r@) == before + tagged(id, all.take(i as int)),
        decreases total - i,
    {
        let ghost held = requests@;
        let ghost sent = outbox@.map_values(|r: EditorRequest| r@);
        let request = requests.remove(0);
        proof {
            assert(held.map_values(|r: Request| r@)[0] == held[0]@);
            assert(all.skip(i as int)[0] == all[i as int]);
            assert(request@ == all[i as int]);
            let kept = requests@.map_values(|r: Request| r@);
            assert forall|j: int| 0 <= j < kept.len() implies #[trigger] kept[j] == all.skip(
                i + 1,
            )[j] by {
                assert(requests@[j] == held[j + 1]);
                assert(held.map_values(|r: Request| r@)[j + 1] == held[j + 1]@);
                assert(all.skip(i as int)[j + 1] == all[i + j + 1]);
            }
            assert(requests@.map_values(|r: Request| r@) =~= all.skip(i + 1));
        }
        outbox.push(EditorRequest::View(id, request));
        i += 1;
        proof {
            let now = outbox@.map_values(|r: EditorRequest| r@);
            assert(now =~= sent.push(EditorRequestView::View(id, request@)));
            assert(tagged(id, all.take(i as int)) =~= tagged(id, all.take(i - 1)).push(
                EditorRequestView::View(id, all[i - 1]),
            ));
            assert(now =~= before + tagged(id, all.take(i as int)));
        }
    }
    assert(all.take(total as int) =~= all);
}

} // verus!
