//! Bidirectional cursors over an ordered sequence, with distinguished
//! positions before the first element and after the last.
use vstd::prelude::*;

verus! {

/// A cursor position: before the first element, at an element, or after
/// the last.
#[derive(Debug, PartialEq, Eq, Structural, Clone, Copy)]
pub enum CursorPosition {
    Start,
    Pos(usize),
    End,
}

/// A bidirectional cursor over a sequence of elements. The position is
/// encoded as an integer: 0 is before the first element, `i + 1` is at
/// element `i`, and one past the length is after the last element.
pub trait Cursor<T>: Sized {
    spec fn elements(&self) -> Seq<T>;

    spec fn position(&self) -> int;

    spec fn cursor_wf(&self) -> bool;

    /// Steps forward; the element arrived at, if any.
    fn next(&mut self) -> (r: Option<T>)
        requires
            old(self).cursor_wf(),
        ensures
            final(self).cursor_wf(),
            final(self).elements() == old(self).elements(),
            ({
                let len = old(self).elements().len() as int;
                let p = old(self).position();
                &&& final(self).position() == if p <= len {
                    p + 1
                } else {
                    p
                }
                &&& r == if p < len {
                    Some(old(self).elements()[p])
                } else {
                    None::<T>
                }
            }),
    ;

    /// Steps backward; the element arrived at, if any.
    fn prev(&mut self) -> (r: Option<T>)
        requires
            old(self).cursor_wf(),
        ensures
            final(self).cursor_wf(),
            final(self).elements() == old(self).elements(),
            ({
                let p = old(self).position();
                &&& final(self).position() == if p >= 1 {
                    p - 1
                } else {
                    p
                }
                &&& r == if p >= 2 {
                    Some(old(self).elements()[p - 2])
                } else {
                    None::<T>
                }
            }),
    ;

    /// The element under the cursor, if it is at one.
    fn current(&self) -> (r: Option<T>)
        requires
            self.cursor_wf(),
        ensures
            ({
                let len = self.elements().len() as int;
                let p = self.position();
                r == if 1 <= p <= len {
                    Some(self.elements()[p - 1])
                } else {
                    None::<T>
                }
            }),
    ;

    /// The element a step forward, without moving.
    fn peek_next(&self) -> (r: Option<T>)
        requires
            self.cursor_wf(),
        ensures
            ({
                let len = self.elements().len() as int;
                let p = self.position();
                r == if p < len {
                    Some(self.elements()[p])
                } else {
                    None::<T>
                }
            }),
    ;

    /// The element a step backward, without moving.
    fn peek_prev(&self) -> (r: Option<T>)
        requires
            self.cursor_wf(),
        ensures
            ({
                let p = self.position();
                r == if p >= 2 {
                    Some(self.elements()[p - 2])
                } else {
                    None::<T>
                }
            }),
    ;

    /// Moves forward by `n` elements, stopping at the last; the steps that
    /// could not be taken are returned as an error.
    fn advance_by(&mut self, n: usize) -> (r: Result<(), usize>)
        requires
            old(self).cursor_wf(),
            old(self).position() <= old(self).elements().len(),
        ensures
            final(self).cursor_wf(),
            final(self).elements() == old(self).elements(),
            ({
                let len = old(self).elements().len() as int;
                let p = old(self).position();
                let remaining = len - p;
                if n <= remaining {
                    final(self).position() == p + n && r == Ok::<(), usize>(())
                } else {
                    final(self).position() == len && r == Err::<(), usize>((n - remaining) as usize)
                }
            }),
    ;

    /// Moves backward by `n` elements, stopping at the first; the steps
    /// that could not be taken are returned as an error.
    fn revert_by(&mut self, n: usize) -> (r: Result<(), usize>)
        requires
            old(self).cursor_wf(),
            old(self).position() >= 1,
        ensures
            final(self).cursor_wf(),
            final(self).elements() == old(self).elements(),
            ({
                let p = old(self).position();
                let remaining = p - 1;
                if n <= remaining {
                    final(self).position() == p - n && r == Ok::<(), usize>(())
                } else {
                    final(self).position() == 1 && r == Err::<(), usize>((n - remaining) as usize)
                }
            }),
    ;

    /// Whether the cursor stands before the first element.
    fn at_start(&self) -> (r: bool)
        requires
            self.cursor_wf(),
        ensures
            r == (self.position() == 0),
    ;

    /// Whether the cursor stands after the last element.
    fn at_end(&self) -> (r: bool)
        requires
            self.cursor_wf(),
        ensures
            r == (self.position() == self.elements().len() + 1),
    ;
}

/// A cursor whose position can be read and set.
pub trait CursorWithPosition<T>: Cursor<T> {
    /// The position as a three-way value.
    fn pos(&self) -> (r: CursorPosition)
        requires
            self.cursor_wf(),
        ensures
            r == (if self.position() == 0 {
                CursorPosition::Start
            } else if self.position() == self.elements().len() + 1 {
                CursorPosition::End
            } else {
                CursorPosition::Pos((self.position() - 1) as usize)
            }),
    ;

    /// Moves to a three-way position.
    fn set_pos(&mut self, pos: CursorPosition)
        requires
            old(self).cursor_wf(),
            pos matches CursorPosition::Pos(i) ==> i < old(self).elements().len(),
        ensures
            final(self).cursor_wf(),
            final(self).elements() == old(self).elements(),
            final(self).position() == (match pos {
                CursorPosition::Start => 0int,
                CursorPosition::Pos(i) => i + 1,
                CursorPosition::End => old(self).elements().len() as int + 1,
            }),
    ;
}

} // verus!
