//! The line buffer: the text being edited and the edit cursor inside it.

use vstd::prelude::*;

verus! {

/// The text currently being edited, together with the edit cursor.
///
/// The cursor is an index into `content`: it may sit before any character or
/// one past the last (`cursor == content.len()`), never further.
pub struct LineBuffer {
    pub content: Vec<u8>,
    pub cursor: usize,
}

/// Where the cursor lands after one ArrowLeft: one step left, clamped at 0.
pub open spec fn move_left_spec(cursor: int) -> int {
    if cursor > 0 {
        cursor - 1
    } else {
        cursor
    }
}

/// Where the cursor lands after one ArrowRight: one step right, clamped at
/// the end of the content.
pub open spec fn move_right_spec(len: int, cursor: int) -> int {
    if cursor < len {
        cursor + 1
    } else {
        cursor
    }
}

/// Content and cursor after one Backspace: the character before the cursor
/// goes away and the cursor follows it; a no-op at the left edge.
pub open spec fn delete_left_spec(content: Seq<u8>, cursor: int) -> (Seq<u8>, int) {
    if cursor > 0 {
        (content.remove(cursor - 1), cursor - 1)
    } else {
        (content, cursor)
    }
}

/// Content and cursor after one Delete: the character under the cursor goes
/// away and the cursor stays; a no-op at the right edge.
pub open spec fn delete_right_spec(content: Seq<u8>, cursor: int) -> (Seq<u8>, int) {
    if cursor < content.len() {
        (content.remove(cursor), cursor)
    } else {
        (content, cursor)
    }
}

impl LineBuffer {
    /// The cursor stays within `[0, content.len()]`.
    pub open spec fn wf(&self) -> bool {
        self.cursor <= self.content@.len()
    }

    /// An empty buffer with the cursor at 0.
    pub fn new() -> (r: LineBuffer)
        ensures
            r.wf(),
            r.content@ == Seq::<u8>::empty(),
            r.cursor == 0,
    {
        LineBuffer { content: Vec::new(), cursor: 0 }
    }

    /// Inserts `ch` at the cursor; the cursor moves just past it.
    pub fn insert_at_cursor(&mut self, ch: u8)
        requires
            old(self).wf(),
            old(self).content@.len() < usize::MAX,
        ensures
            final(self).wf(),
            final(self).content@ == old(self).content@.insert(old(self).cursor as int, ch),
            final(self).cursor == old(self).cursor + 1,
    {
        self.content.insert(self.cursor, ch);
        self.cursor = self.cursor + 1;
    }

    /// Backspace: removes the character before the cursor, if there is one.
    /// Returns whether anything changed, which drives whether a redraw is due.
    pub fn delete_left(&mut self) -> (mutated: bool)
        requires
            old(self).wf(),
        ensures
            final(self).wf(),
            mutated == (old(self).cursor > 0),
            (final(self).content@, final(self).cursor as int) == delete_left_spec(
                old(self).content@,
                old(self).cursor as int,
            ),
            !mutated ==> *final(self) == *old(self),
    {
        if self.cursor == 0 {
            return false;
        }
        self.cursor = self.cursor - 1;
        self.content.remove(self.cursor);
        true
    }

    /// Delete: removes the character under the cursor, if there is one; the
    /// cursor does not move. Returns whether anything changed.
    pub fn delete_right(&mut self) -> (mutated: bool)
        requires
            old(self).wf(),
        ensures
            final(self).wf(),
            mutated == (old(self).cursor < old(self).content@.len()),
            (final(self).content@, final(self).cursor as int) == delete_right_spec(
                old(self).content@,
                old(self).cursor as int,
            ),
            !mutated ==> *final(self) == *old(self),
    {
        if self.cursor == self.content.len() {
            return false;
        }
        self.content.remove(self.cursor);
        true
    }

    /// Moves the cursor one step left, clamped at 0. Returns whether it moved.
    pub fn move_left(&mut self) -> (moved: bool)
        requires
            old(self).wf(),
        ensures
            final(self).wf(),
            final(self).content@ == old(self).content@,
            final(self).cursor as int == move_left_spec(old(self).cursor as int),
            moved == (old(self).cursor > 0),
    {
        if self.cursor > 0 {
            self.cursor = self.cursor - 1;
            true
        } else {
            false
        }
    }

    /// Moves the cursor one step right, clamped at the end of the content.
    /// Returns whether it moved.
    pub fn move_right(&mut self) -> (moved: bool)
        requires
            old(self).wf(),
        ensures
            final(self).wf(),
            final(self).content@ == old(self).content@,
            final(self).cursor as int == move_right_spec(
                old(self).content@.len() as int,
                old(self).cursor as int,
            ),
            moved == (old(self).cursor < old(self).content@.len()),
    {
        if self.cursor < self.content.len() {
            self.cursor = self.cursor + 1;
            true
        } else {
            false
        }
    }

    /// Replaces the whole content, as history recall does; the cursor lands
    /// at the end of the new text.
    pub fn replace(&mut self, text: Vec<u8>)
        ensures
            final(self).wf(),
            final(self).content@ == text@,
            final(self).cursor == text@.len(),
    {
        self.cursor = text.len();
        self.content = text;
    }

    /// Hands the content out and resets the buffer to empty with the cursor
    /// at 0, as line submission does.
    pub fn take_and_clear(&mut self) -> (line: Vec<u8>)
        ensures
            final(self).wf(),
            line@ == old(self).content@,
            final(self).content@ == Seq::<u8>::empty(),
            final(self).cursor == 0,
    {
        let line = crate::bytes::clone_bytes(&self.content);
        self.content.clear();
        self.cursor = 0;
        line
    }
}

/// A sequence of arrow presses applied to the cursor at the model level:
/// `true` is ArrowLeft, `false` is ArrowRight.
pub open spec fn apply_moves(len: int, cursor: int, moves: Seq<bool>) -> int
    decreases moves.len(),
{
    if moves.len() == 0 {
        cursor
    } else {
        let c = if moves[0] {
            move_left_spec(cursor)
        } else {
            move_right_spec(len, cursor)
        };
        apply_moves(len, c, moves.drop_first())
    }
}

/// Law: any sequence of ArrowLeft/ArrowRight presses keeps the cursor within
/// `[0, len]`; presses past either end clamp there.
pub proof fn lemma_moves_stay_in_bounds(len: int, cursor: int, moves: Seq<bool>)
    requires
        0 <= cursor <= len,
    ensures
        0 <= apply_moves(len, cursor, moves) <= len,
    decreases moves.len(),
{
    if moves.len() > 0 {
        let c = if moves[0] {
            move_left_spec(cursor)
        } else {
            move_right_spec(len, cursor)
        };
        lemma_moves_stay_in_bounds(len, c, moves.drop_first());
    }
}

/// Whether one deletion press happens at its boundary: Backspace (`true`) at
/// the left edge, Delete (`false`) at the right edge.
pub open spec fn del_at_boundary(content: Seq<u8>, cursor: int, backspace: bool) -> bool {
    if backspace {
        cursor == 0
    } else {
        cursor == content.len()
    }
}

/// A sequence of deletion presses applied at the model level: `true` is
/// Backspace, `false` is Delete.
pub open spec fn apply_deletes(content: Seq<u8>, cursor: int, ops: Seq<bool>) -> (Seq<u8>, int)
    decreases ops.len(),
{
    if ops.len() == 0 {
        (content, cursor)
    } else {
        let s = if ops[0] {
            delete_left_spec(content, cursor)
        } else {
            delete_right_spec(content, cursor)
        };
        apply_deletes(s.0, s.1, ops.drop_first())
    }
}

/// Whether every press of the sequence happens at its boundary when applied.
pub open spec fn all_at_boundary(content: Seq<u8>, cursor: int, ops: Seq<bool>) -> bool
    decreases ops.len(),
{
    ops.len() == 0 || {
        &&& del_at_boundary(content, cursor, ops[0])
        &&& {
            let s = if ops[0] {
                delete_left_spec(content, cursor)
            } else {
                delete_right_spec(content, cursor)
            };
            all_at_boundary(s.0, s.1, ops.drop_first())
        }
    }
}

/// Law: any sequence of Backspace presses at the left edge and Delete presses
/// at the right edge leaves content and cursor unchanged.
pub proof fn lemma_boundary_deletes_keep_content(content: Seq<u8>, cursor: int, ops: Seq<bool>)
    requires
        0 <= cursor <= content.len(),
        all_at_boundary(content, cursor, ops),
    ensures
        apply_deletes(content, cursor, ops) == (content, cursor),
    decreases ops.len(),
{
    if ops.len() > 0 {
        lemma_boundary_deletes_keep_content(content, cursor, ops.drop_first());
    }
}

} // verus!
