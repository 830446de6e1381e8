//! A cursor over a borrowed slice.
use vstd::prelude::*;
use crate::cursor::Cursor;
use crate::cursor::CursorPosition;
use crate::cursor::CursorWithPosition;

verus! {

/// A cursor over a borrowed slice. The position field uses 0 for the
/// start state and `len + 1` for the end state; values between are
/// 1-based element indices. Slices one short of the `usize` range keep
/// the end state representable.
pub struct SliceCursor<'a, T> {
    pub slice: &'a [T],
    pub pos: usize,
}

impl<'a, T: Copy> SliceCursor<'a, T> {
    /// A cursor standing before the first element.
    pub fn at_start(slice: &'a [T]) -> (r: Self)
        requires
            slice@.len() < usize::MAX,
        ensures
            r.cursor_wf(),
            r.elements() == slice@,
            r.position() == 0,
    {
        SliceCursor { slice, pos: 0 }
    }

    /// A cursor standing after the last element.
    pub fn at_end(slice: &'a [T]) -> (r: Self)
        requires
            slice@.len() < usize::MAX,
        ensures
            r.cursor_wf(),
            r.elements() == slice@,
            r.position() == slice@.len() + 1,
    {
        SliceCursor { slice, pos: slice.len() + 1 }
    }

    /// A cursor standing at the given element.
    pub fn with_pos(slice: &'a [T], pos: usize) -> (r: Self)
        requires
            slice@.len() < usize::MAX,
            pos < slice@.len(),
        ensures
            r.cursor_wf(),
            r.elements() == slice@,
            r.position() == pos + 1,
    {
        SliceCursor { slice, pos: pos + 1 }
    }
}

impl<'a, T: Copy> Cursor<T> for SliceCursor<'a, T> {
    open spec fn elements(&self) -> Seq<T> {
        self.slice@
    }

    open spec fn position(&self) -> int {
        self.pos as int
    }

    open spec fn cursor_wf(&self) -> bool {
        self.pos <= self.slice@.len() + 1 && self.slice@.len() < usize::MAX
    }

    fn next(&mut self) -> (r: Option<T>) {
        let end: usize = self.slice.len() + 1;
        if self.pos < end {
            self.pos = self.pos + 1;
            if self.pos < end {
                Some(self.slice[self.pos - 1])
            } else {
                None
            }
        } else {
            None
        }
    }

    fn prev(&mut self) -> (r: Option<T>) {
        if self.pos > 0 {
            self.pos = self.pos - 1;
            if self.pos > 0 {
                Some(self.slice[self.pos - 1])
            } else {
                None
            }
        } else {
            None
        }
    }

    fn current(&self) -> (r: Option<T>) {
        if self.pos > 0 && self.pos <= self.slice.len() {
            Some(self.slice[self.pos - 1])
        } else {
            None
        }
    }

    fn peek_next(&self) -> (r: Option<T>) {
        if self.pos < self.slice.len() {
            Some(self.slice[self.pos])
        } else {
            None
        }
    }

    fn peek_prev(&self) -> (r: Option<T>) {
        if self.pos > 1 {
            Some(self.slice[self.pos - 2])
        } else {
            None
        }
    }

    fn advance_by(&mut self, n: usize) -> (r: Result<(), usize>) {
        let remaining: usize = self.slice.len() - self.pos;
        let advance: usize = if n < remaining {
            n
        } else {
            remaining
        };
        self.pos = self.pos + advance;
        if n > advance {
            Err(n - advance)
        } else {
            Ok(())
        }
    }

    fn revert_by(&mut self, n: usize) -> (r: Result<(), usize>) {
        let remaining: usize = self.pos - 1;
        let revert: usize = if n < remaining {
            n
        } else {
            remaining
        };
        self.pos = self.pos - revert;
        if n > revert {
            Err(n - revert)
        } else {
            Ok(())
        }
    }

    fn at_start(&self) -> (r: bool) {
        self.pos == 0
    }

    fn at_end(&self) -> (r: bool) {
        self.pos == self.slice.len() + 1
    }
}

impl<'a, T: Copy> CursorWithPosition<T> for SliceCursor<'a, T> {
    fn pos(&self) -> (r: CursorPosition) {
        if self.pos == 0 {
            CursorPosition::Start
        } else if self.pos == self.slice.len() + 1 {
            CursorPosition::End
        } else {
            CursorPosition::Pos(self.pos - 1)
        }
    }

    fn set_pos(&mut self, pos: CursorPosition) {
        match pos {
            CursorPosition::Start => self.pos = 0,
            CursorPosition::End => self.pos = self.slice.len() + 1,
            CursorPosition::Pos(p) => self.pos = p + 1,
        }
    }
}

} // verus!
