//! The closed set of editing, navigation and interface commands.

use vstd::prelude::*;

verus! {

/// The identifier that the editor engine gives to an open view.
#[derive(Debug, Clone, Copy, PartialEq, Eq, Hash, Structural)]
pub struct ViewId(pub usize);

/// The unit by which a relative move advances.
#[derive(Debug, Clone, Copy, PartialEq, Eq, Structural)]
pub enum RelativeMoveDistance {
    Characters,
    Lines,
    Words,
    WordEnds,
    Subwords,
    SubwordEnds,
    Pages,
}

/// A move relative to the cursor.
#[derive(Debug, Clone, Copy, PartialEq, Eq, Structural)]
pub struct RelativeMove {
    pub by: RelativeMoveDistance,
    pub forward: bool,
    /// Whether the selection is extended by the move.
    pub extend: bool,
}

/// The target of an absolute move.
#[derive(Debug, Clone, Copy, PartialEq, Eq, Structural)]
pub enum AbsoluteMovePoint {
    /// Beginning of the file.
    BOF,
    /// End of the file.
    EOF,
    /// Beginning of the line.
    BOL,
    /// End of the line.
    EOL,
    /// The matching bracket.
    Brackets,
    /// A line, by its number.
    Line(u64),
}

/// A move to a fixed point.
#[derive(Debug, Clone, Copy, PartialEq, Eq, Structural)]
pub struct AbsoluteMove {
    pub to: AbsoluteMovePoint,
    /// Whether the selection is extended by the move.
    pub extend: bool,
}

/// The direction in which a further cursor is added.
#[derive(Debug, Clone, Copy, PartialEq, Eq, Structural)]
pub struct ExpandLinesDirection {
    pub forward: bool,
}

/// What the prompt is opened for.
#[derive(Debug, Clone, Copy, PartialEq, Eq, Structural)]
pub enum CommandPromptMode {
    Command,
    Find,
}

/// The parameters of a search.
#[derive(Debug, Clone, PartialEq, Eq)]
pub struct FindConfig {
    pub search_term: String,
    pub case_sensitive: bool,
    pub regex: bool,
    pub whole_words: bool,
}

/// The mathematical value of a [`FindConfig`].
pub struct FindConfigView {
    pub search_term: Seq<char>,
    pub case_sensitive: bool,
    pub regex: bool,
    pub whole_words: bool,
}

impl View for FindConfig {
    type V = FindConfigView;

    open spec fn view(&self) -> FindConfigView {
        FindConfigView {
            search_term: self.search_term@,
            case_sensitive: self.case_sensitive,
            regex: self.regex,
            whole_words: self.whole_words,
        }
    }
}

/// An abstract editing, navigation or interface intent.
#[derive(Debug, Clone, PartialEq, Eq)]
pub enum Command {
    /// Leave the prompt, or drop the extra selections.
    Cancel,
    OpenPrompt(CommandPromptMode),
    Quit,
    SetTheme(String),
    NextBuffer,
    PrevBuffer,
    /// Save a view; `None` stands for the current one.
    Save(Option<ViewId>),
    /// Open a file in a new view; `None` opens an empty view.
    Open(Option<String>),
    CopySelection,
    CutSelection,
    Paste,
    ToggleLineNumbers,
    FindUnderExpand,
    Back,
    Delete,
    Insert(char),
    Undo,
    Redo,
    CursorExpandLines(ExpandLinesDirection),
    CloseCurrentView,
    SelectAll,
    Find(FindConfig),
    FindNext,
    FindPrev,
    RelativeMove(RelativeMove),
    AbsoluteMove(AbsoluteMove),
    /// What was typed at the prompt and is no command.
    Invalid(String),
}

/// The mathematical value of a [`Command`].
pub enum CommandView {
    Cancel,
    OpenPrompt(CommandPromptMode),
    Quit,
    SetTheme(Seq<char>),
    NextBuffer,
    PrevBuffer,
    Save(Option<ViewId>),
    Open(Option<Seq<char>>),
    CopySelection,
    CutSelection,
    Paste,
    ToggleLineNumbers,
    FindUnderExpand,
    Back,
    Delete,
    Insert(char),
    Undo,
    Redo,
    CursorExpandLines(ExpandLinesDirection),
    CloseCurrentView,
    SelectAll,
    Find(FindConfigView),
    FindNext,
    FindPrev,
    RelativeMove(RelativeMove),
    AbsoluteMove(AbsoluteMove),
    Invalid(Seq<char>),
}

impl View for Command {
    type V = CommandView;

    open spec fn view(&self) -> CommandView {
        match self {
            Command::Cancel => CommandView::Cancel,
            Command::OpenPrompt(mode) => CommandView::OpenPrompt(*mode),
            Command::Quit => CommandView::Quit,
            Command::SetTheme(theme) => CommandView::SetTheme(theme@),
            Command::NextBuffer => CommandView::NextBuffer,
            Command::PrevBuffer => CommandView::PrevBuffer,
            Command::Save(id) => CommandView::Save(*id),
            Command::Open(file) => CommandView::Open(
                match file {
                    Some(path) => Some(path@),
                    None => None,
                },
            ),
            Command::CopySelection => CommandView::CopySelection,
            Command::CutSelection => CommandView::CutSelection,
            Command::Paste => CommandView::Paste,
            Command::ToggleLineNumbers => CommandView::ToggleLineNumbers,
            Command::FindUnderExpand => CommandView::FindUnderExpand,
            Command::Back => CommandView::Back,
            Command::Delete => CommandView::Delete,
            Command::Insert(c) => CommandView::Insert(*c),
            Command::Undo => CommandView::Undo,
            Command::Redo => CommandView::Redo,
            Command::CursorExpandLines(direction) => CommandView::CursorExpandLines(*direction),
            Command::CloseCurrentView => CommandView::CloseCurrentView,
            Command::SelectAll => CommandView::SelectAll,
            Command::Find(config) => CommandView::Find(config@),
            Command::FindNext => CommandView::FindNext,
            Command::FindPrev => CommandView::FindPrev,
            Command::RelativeMove(m) => CommandView::RelativeMove(*m),
            Command::AbsoluteMove(m) => CommandView::AbsoluteMove(*m),
            Command::Invalid(text) => CommandView::Invalid(text@),
        }
    }
}

impl FindConfig {
    /// A copy of the search parameters.
    pub fn duplicate(&self) -> (r: FindConfig)
        ensures
            r@ == self@,
    {
        FindConfig {
            search_term: self.search_term.clone(),
            case_sensitive: self.case_sensitive,
            regex: self.regex,
            whole_words: self.whole_words,
        }
    }

    /// Whether two searches have the same parameters.
    pub fn same(&self, other: &FindConfig) -> (r: bool)
        ensures
            r == (self@ == other@),
    {
        let same_term = self.search_term == other.search_term;
        same_term && self.case_sensitive == other.case_sensitive && self.regex == other.regex
            && self.whole_words == other.whole_words
    }
}

impl Command {
    /// A copy of the command.
    pub fn duplicate(&self) -> (r: Command)
        ensures
            r@ == self@,
    {
        match self {
            Command::Cancel => Command::Cancel,
            Command::OpenPrompt(mode) => Command::OpenPrompt(*mode),
            Command::Quit => Command::Quit,
            Command::SetTheme(theme) => Command::SetTheme(theme.clone()),
            Command::NextBuffer => Command::NextBuffer,
            Command::PrevBuffer => Command::PrevBuffer,
            Command::Save(id) => Command::Save(*id),
            Command::Open(file) => match file {
                Some(path) => Command::Open(Some(path.clone())),
                None => Command::Open(None),
            },
            Command::CopySelection => Command::CopySelection,
            Command::CutSelection => Command::CutSelection,
            Command::Paste => Command::Paste,
            Command::ToggleLineNumbers => Command::ToggleLineNumbers,
            Command::FindUnderExpand => Command::FindUnderExpand,
            Command::Back => Command::Back,
            Command::Delete => Command::Delete,
            Command::Insert(c) => Command::Insert(*c),
            Command::Undo => Command::Undo,
            Command::Redo => Command::Redo,
            Command::CursorExpandLines(direction) => Command::CursorExpandLines(*direction),
            Command::CloseCurrentView => Command::CloseCurrentView,
            Command::SelectAll => Command::SelectAll,
            Command::Find(config) => Command::Find(config.duplicate()),
            Command::FindNext => Command::FindNext,
            Command::FindPrev => Command::FindPrev,
            Command::RelativeMove(m) => Command::RelativeMove(*m),
            Command::AbsoluteMove(m) => Command::AbsoluteMove(*m),
            Command::Invalid(text) => Command::Invalid(text.clone()),
        }
    }

    /// Whether two commands are the same command with the same arguments.
    pub fn same(&self, other: &Command) -> (r: bool)
        ensures
            r == (self@ == other@),
    {
        match (self, other) {
            (Command::Cancel, Command::Cancel) => true,
            (Command::OpenPrompt(a), Command::OpenPrompt(b)) => *a == *b,
            (Command::Quit, Command::Quit) => true,
            (Command::SetTheme(a), Command::SetTheme(b)) => *a == *b,
            (Command::NextBuffer, Command::NextBuffer) => true,
            (Command::PrevBuffer, Command::PrevBuffer) => true,
            (Command::Save(a), Command::Save(b)) => match (a, b) {
                (Some(x), Some(y)) => x.0 == y.0,
                (None, None) => true,
                _ => false,
            },
            (Command::Open(a), Command::Open(b)) => match (a, b) {
                (Some(x), Some(y)) => *x == *y,
                (None, None) => true,
                _ => false,
            },
            (Command::CopySelection, Command::CopySelection) => true,
            (Command::CutSelection, Command::CutSelection) => true,
            (Command::Paste, Command::Paste) => true,
            (Command::ToggleLineNumbers, Command::ToggleLineNumbers) => true,
            (Command::FindUnderExpand, Command::FindUnderExpand) => true,
            (Command::Back, Command::Back) => true,
            (Command::Delete, Command::Delete) => true,
            (Command::Insert(a), Command::Insert(b)) => *a == *b,
            (Command::Undo, Command::Undo) => true,
            (Command::Redo, Command::Redo) => true,
            (Command::CursorExpandLines(a), Command::CursorExpandLines(b)) => a.forward
                == b.forward,
            (Command::CloseCurrentView, Command::CloseCurrentView) => true,
            (Command::SelectAll, Command::SelectAll) => true,
            (Command::Find(a), Command::Find(b)) => a.same(b),
            (Command::FindNext, Command::FindNext) => true,
            (Command::FindPrev, Command::FindPrev) => true,
            (Command::RelativeMove(a), Command::RelativeMove(b)) => *a == *b,
            (Command::AbsoluteMove(a), Command::AbsoluteMove(b)) => *a == *b,
            (Command::Invalid(a), Command::Invalid(b)) => *a == *b,
            _ => false,
        }
    }
}

} // verus!
