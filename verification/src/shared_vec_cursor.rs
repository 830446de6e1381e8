//! A cursor over a shared vector: it holds its own handle to the vector,
//! so clones are cheap and the cursor can outlive other handles.
use vstd::prelude::*;
use std::sync::Arc;
use crate::clone_arc_vec;
use crate::cursor::Cursor;
use crate::cursor::CursorPosition;
use crate::cursor::CursorWithPosition;

verus! {

/// A cursor over a shared vector. The position field uses 0 for the
/// start state and `len + 1` for the end state; values between are
/// 1-based element indices.
pub struct SharedVecCursor<T> {
    pub vec: Arc<Vec<T>>,
    pub pos: usize,
}

impl<T: Copy> SharedVecCursor<T> {
    /// A cursor standing before the first element.
    pub fn at_start(vec: &Arc<Vec<T>>) -> (r: Self)
        requires
            vec@.len() < usize::MAX,
        ensures
            r.cursor_wf(),
            r.elements() == vec@,
            r.position() == 0,
    {
        SharedVecCursor { vec: clone_arc_vec(vec), pos: 0 }
    }

    /// A cursor standing after the last element.
    pub fn at_end(vec: &Arc<Vec<T>>) -> (r: Self)
        requires
            vec@.len() < usize::MAX,
        ensures
            r.cursor_wf(),
            r.elements() == vec@,
            r.position() == vec@.len() + 1,
    {
        let n: usize = vec.len();
        SharedVecCursor { vec: clone_arc_vec(vec), pos: n + 1 }
    }

    /// A cursor standing at the given element.
    pub fn with_pos(vec: &Arc<Vec<T>>, pos: usize) -> (r: Self)
        requires
            vec@.len() < usize::MAX,
            pos < vec@.len(),
        ensures
            r.cursor_wf(),
            r.elements() == vec@,
            r.position() == pos + 1,
    {
        SharedVecCursor { vec: clone_arc_vec(vec), pos: pos + 1 }
    }
}

impl<T: Copy> Cursor<T> for SharedVecCursor<T> {
    open spec fn elements(&self) -> Seq<T> {
        self.vec@
    }

    open spec fn position(&self) -> int {
        self.pos as int
    }

    open spec fn cursor_wf(&self) -> bool {
        self.pos <= self.vec@.len() + 1 && self.vec@.len() < usize::MAX
    }

    fn next(&mut self) -> (r: Option<T>) {
        let end: usize = self.vec.len() + 1;
        if self.pos < end {
            self.pos = self.pos + 1;
            if self.pos < end {
                Some(self.vec[self.pos - 1])
            } else {
                None
            }
        } else {
            None
        }
    }

    fn prev(&mut self) -> (r: Option<T>) {
        if self.pos > 0 {
            self.pos = self.pos - 1;
            if self.pos > 0 {
                Some(self.vec[self.pos - 1])
            } else {
                None
            }
        } else {
            None
        }
    }

    fn current(&self) -> (r: Option<T>) {
        if self.pos > 0 && self.pos <= self.vec.len() {
            Some(self.vec[self.pos - 1])
        } else {
            None
        }
    }

    fn peek_next(&self) -> (r: Option<T>) {
        if self.pos < self.vec.len() {
            Some(self.vec[self.pos])
        } else {
            None
        }
    }

    fn peek_prev(&self) -> (r: Option<T>) {
        if self.pos > 1 {
            Some(self.vec[self.pos - 2])
        } else {
            None
        }
    }

    fn advance_by(&mut self, n: usize) -> (r: Result<(), usize>) {
        let remaining: usize = self.vec.len() - self.pos;
        let advance: usize = if n < remaining {
            n
        } else {
            remaining
        };
        self.pos = self.pos + advance;
        if n > advance {
            Err(n - advance)
        } else {
            Ok(())
        }
    }

    fn revert_by(&mut self, n: usize) -> (r: Result<(), usize>) {
        let remaining: usize = self.pos - 1;
        let revert: usize = if n < remaining {
            n
        } else {
            remaining
        };
        self.pos = self.pos - revert;
        if n > revert {
            Err(n - revert)
        } else {
            Ok(())
        }
    }

    fn at_start(&self) -> (r: bool) {
        self.pos == 0
    }

    fn at_end(&self) -> (r: bool) {
        self.pos == self.vec.len() + 1
    }
}

impl<T: Copy> CursorWithPosition<T> for SharedVecCursor<T> {
    fn pos(&self) -> (r: CursorPosition) {
        if self.pos == 0 {
            CursorPosition::Start
        } else if self.pos == self.vec.len() + 1 {
            CursorPosition::End
        } else {
            CursorPosition::Pos(self.pos - 1)
        }
    }

    fn set_pos(&mut self, pos: CursorPosition) {
        match pos {
            CursorPosition::Start => self.pos = 0,
            CursorPosition::End => self.pos = self.vec.len() + 1,
            CursorPosition::Pos(p) => self.pos = p + 1,
        }
    }
}

} // verus!
