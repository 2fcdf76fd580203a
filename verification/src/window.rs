//! The viewport: which lines of the cache are on screen.
//!
//! The window is `size` rows high and starts at `start`, an index into the
//! materialized lines; it ends before `start + size`. It follows the cursor by
//! the least move that brings the cursor's line inside it, and stays within
//! the materialized lines where there are enough of them to fill it.

use vstd::prelude::*;

verus! {

/// The viewport over the materialized lines.
#[derive(Debug, Clone, Copy, PartialEq, Eq)]
pub struct Window {
    start: u64,
    size: u16,
}

/// Where a window that starts at `start` and is `size` rows high starts after
/// the least move that brings `cursor` inside it: up to the cursor, if the
/// cursor is above; down until the cursor is on the last row, if the cursor
/// is at or below the end; else where it is. A window of no rows only moves up.
pub open spec fn followed(start: nat, size: nat, cursor: nat) -> nat {
    if cursor < start {
        cursor
    } else if size > 0 && cursor >= start + size {
        (cursor + 1 - size) as nat
    } else {
        start
    }
}

/// Where a window may start at the latest so as not to reach past `total`
/// lines: a window that `total` lines cannot fill starts at the first.
pub open spec fn clamped(start: nat, size: nat, total: nat) -> nat {
    if total < size {
        0
    } else if start > total - size {
        (total - size) as nat
    } else {
        start
    }
}

/// Where the window starts after it has followed the cursor and been held
/// within the lines.
pub open spec fn updated_start(start: nat, size: nat, cursor: nat, total: nat) -> nat {
    clamped(followed(start, size, cursor), size, total)
}

/// After an update, a window of at least one row holds the line of a cursor
/// that is on one of the lines; where the lines can fill the window, it does
/// not reach past them.
pub proof fn law_window_holds_cursor(start: nat, size: nat, cursor: nat, total: nat)
    requires
        size > 0,
        cursor < total,
    ensures
        updated_start(start, size, cursor, total) <= cursor,
        cursor < updated_start(start, size, cursor, total) + size,
        total >= size ==> updated_start(start, size, cursor, total) + size <= total,
{
}

impl Window {
    #[verifier::type_invariant]
    spec fn fits(self) -> bool {
        self.start + self.size <= u64::MAX
    }

    /// The index of the first line of the window.
    pub closed spec fn first(&self) -> nat {
        self.start as nat
    }

    /// The number of rows of the window.
    pub closed spec fn rows(&self) -> nat {
        self.size as nat
    }

    /// A window of no rows at the first line.
    pub fn new() -> (w: Window)
        ensures
            w.first() == 0,
            w.rows() == 0,
    {
        Window { start: 0, size: 0 }
    }

    /// Gives the window a new height. The start stays where it is, unless the
    /// end would then leave the range of line indices.
    pub fn resize(&mut self, height: u16)
        ensures
            final(self).rows() == height,
            final(self).first() == if old(self).first() + height <= u64::MAX {
                old(self).first()
            } else {
                (u64::MAX - height) as nat
            },
    {
        let start = if self.start > u64::MAX - (height as u64) {
            u64::MAX - (height as u64)
        } else {
            self.start
        };
        *self = Window { start, size: height };
    }

    /// Lets the window follow the cursor, which is on the line of index
    /// `cursor`, over `nb_line` materialized lines.
    pub fn update(&mut self, cursor: u64, nb_line: u64)
        ensures
            final(self).rows() == old(self).rows(),
            final(self).first() == updated_start(
                old(self).first(),
                old(self).rows(),
                cursor as nat,
                nb_line as nat,
            ),
            old(self).rows() > 0 && cursor < nb_line ==> final(self).first() <= cursor
                < final(self).first() + final(self).rows(),
            nb_line >= old(self).rows() ==> final(self).first() + final(self).rows() <= nb_line,
    {
        proof {
            use_type_invariant(&*self);
        }
        let size = self.size as u64;
        let followed = if cursor < self.start {
            cursor
        } else if size > 0 && cursor - self.start >= size {
            cursor - (size - 1)
        } else {
            self.start
        };
        let start = if nb_line < size {
            0
        } else if followed > nb_line - size {
            nb_line - size
        } else {
            followed
        };
        *self = Window { start, size: self.size };
    }

    /// The number of rows of the window.
    pub fn size(&self) -> (size: u16)
        ensures
            size == self.rows(),
    {
        self.size
    }

    /// The index of the first line of the window.
    pub fn start(&self) -> (start: u64)
        ensures
            start == self.first(),
    {
        self.start
    }

    /// The index after the last line of the window: as many lines after the
    /// start as the window has rows.
    pub fn end(&self) -> (end: u64)
        ensures
            end == self.first() + self.rows(),
    {
        proof {
            use_type_invariant(self);
        }
        self.size as u64 + self.start
    }
}

impl Default for Window {
    fn default() -> (w: Window)
        ensures
            w.first() == 0,
            w.rows() == 0,
    {
        Window::new()
    }
}

} // verus!
