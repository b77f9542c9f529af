//! The editable text buffer: an ordered, never-empty sequence of lines, a
//! cursor (active line, character offset), and a scroll offset that follows
//! the cursor.
//!
//! Lines are sequences of Unicode scalar values, so every index and count
//! here is in scalar values, never in encoded bytes.  Each line carries its
//! line-break marker as its last character, so a visually empty line has
//! length one and every line has length at least one.

use vstd::prelude::*;

use crate::viewport::VIEW_MARGIN;
use crate::viewport::spec_follow_offset;
use crate::viewport::follow_offset;
use crate::viewport::lemma_follow_offset_contains;

verus! {

/// Ceiling on a line's length (in scalar values, marker included) past which
/// `cursor_right` stops advancing.
pub const LINE_CAP: usize = 0xfffe;

/// Ghost model of the buffer: the lines, the active line, and the cursor's
/// offset within the active line.
#[verifier::ext_equal]
pub struct BufferView {
    pub lines: Seq<Seq<char>>,
    pub line_index: int,
    pub cursor_index: int,
}

/// The structural part of the buffer invariant: at least one line, the
/// active line in range, every line holding at least its line-break marker,
/// and the cursor not negative.  The cursor may sit one past its valid
/// range, as it does right after a character deletion at the end of a line.
pub open spec fn lines_wf(v: BufferView) -> bool {
    &&& v.lines.len() >= 1
    &&& 0 <= v.line_index < v.lines.len()
    &&& forall|i: int| 0 <= i < v.lines.len() ==> #[trigger] v.lines[i].len() >= 1
    &&& 0 <= v.cursor_index
}

/// The full buffer invariant: structure plus a cursor inside the active
/// line, i.e. `cursor_index <= lines[line_index].len() - 1`.
pub open spec fn buffer_wf(v: BufferView) -> bool {
    &&& lines_wf(v)
    &&& v.cursor_index < v.lines[v.line_index].len()
}

/// The buffer a fresh editor holds: one visually empty line, cursor at its
/// start.
pub open spec fn empty_buffer() -> BufferView {
    BufferView { lines: seq![seq!['\n']], line_index: 0, cursor_index: 0 }
}

/// Effect of inserting `ch` at the cursor: the characters at and after the
/// cursor shift right by one.  The cursor itself does not move.
pub open spec fn insert_char_tr(v: BufferView, ch: char) -> BufferView {
    BufferView {
        lines: v.lines.update(v.line_index, v.lines[v.line_index].insert(v.cursor_index, ch)),
        ..v
    }
}

/// Whether a backward deletion removes the active line: only a visually
/// empty line is removed, and never the sole remaining line.
pub open spec fn delete_merges(v: BufferView) -> bool {
    &&& v.cursor_index == 0
    &&& v.lines.len() > 1
    &&& v.lines[v.line_index].len() <= 1
}

/// Effect of a backward deletion: with the cursor inside the line, the
/// character before it goes; at the start of a visually empty line (of
/// several), the line itself goes; otherwise nothing changes.
pub open spec fn delete_tr(v: BufferView) -> BufferView {
    if v.cursor_index > 0 {
        BufferView {
            lines: v.lines.update(v.line_index, v.lines[v.line_index].remove(v.cursor_index - 1)),
            ..v
        }
    } else if delete_merges(v) {
        BufferView { lines: v.lines.remove(v.line_index), ..v }
    } else {
        v
    }
}

/// Effect of a line break at the cursor: at offset zero a visually empty
/// line appears above and the content stays intact below; otherwise the
/// text before the cursor keeps the original slot (newly terminated by the
/// marker) and the rest moves to a fresh line below.  The active line
/// advances to the lower line and the cursor returns to its start.
pub open spec fn addline_tr(v: BufferView) -> BufferView {
    if v.cursor_index == 0 {
        BufferView {
            lines: v.lines.insert(v.line_index, seq!['\n']),
            line_index: v.line_index + 1,
            cursor_index: 0,
        }
    } else {
        let line = v.lines[v.line_index];
        let head = line.subrange(0, v.cursor_index).push('\n');
        let tail = line.subrange(v.cursor_index, line.len() as int);
        BufferView {
            lines: v.lines.update(v.line_index, head).insert(v.line_index + 1, tail),
            line_index: v.line_index + 1,
            cursor_index: 0,
        }
    }
}

/// Effect of moving the cursor one character left; a no-op at the start of
/// the line.
pub open spec fn cursor_left_tr(v: BufferView) -> BufferView {
    if v.cursor_index > 0 {
        BufferView { cursor_index: v.cursor_index - 1, ..v }
    } else {
        v
    }
}

/// Effect of moving the cursor one character right; a no-op at the last
/// valid offset, and a no-op on a line that has reached the length ceiling.
pub open spec fn cursor_right_tr(v: BufferView) -> BufferView {
    if v.cursor_index < v.lines[v.line_index].len() - 1 && v.lines[v.line_index].len() < LINE_CAP {
        BufferView { cursor_index: v.cursor_index + 1, ..v }
    } else {
        v
    }
}

/// Effect of moving the cursor one line up; a no-op on the first line.
pub open spec fn cursor_up_tr(v: BufferView) -> BufferView {
    if v.line_index > 0 {
        BufferView { line_index: v.line_index - 1, ..v }
    } else {
        v
    }
}

/// Effect of moving the cursor one line down; a no-op on the last line.
pub open spec fn cursor_down_tr(v: BufferView) -> BufferView {
    if v.line_index < v.lines.len() - 1 {
        BufferView { line_index: v.line_index + 1, ..v }
    } else {
        v
    }
}

/// Effect of clamping the cursor to the active line: forced to the last
/// valid offset when `last` is set or when it lies past that offset.
pub open spec fn cursor_check_tr(v: BufferView, last: bool) -> BufferView {
    let max = v.lines[v.line_index].len() - 1;
    if last || v.cursor_index > max {
        BufferView { cursor_index: max, ..v }
    } else {
        v
    }
}

/// The whole backward-deletion command as the dispatcher runs it: the
/// deletion itself, then the cursor repositioning its result calls for —
/// one step left after a character went, or up and onto the line end after
/// a line went.
pub open spec fn backspace_tr(v: BufferView) -> BufferView {
    if delete_merges(v) {
        cursor_check_tr(cursor_up_tr(delete_tr(v)), true)
    } else {
        cursor_left_tr(delete_tr(v))
    }
}

/// The editable buffer with its cursor, visible size `(rows, cols)` and
/// scroll offset `(row, col)`.
pub struct Editor {
    pub cursor_index: usize,
    pub line_index: usize,
    pub size: (u16, u16),
    pub scroll: (u16, u16),
    pub context: Vec<Vec<char>>,
}

impl View for Editor {
    type V = BufferView;

    open spec fn view(&self) -> BufferView {
        BufferView {
            lines: self.context@.map_values(|l: Vec<char>| l@),
            line_index: self.line_index as int,
            cursor_index: self.cursor_index as int,
        }
    }
}

impl Editor {
    /// A fresh editor: one visually empty line, cursor at its start, no
    /// scroll, no known size yet.
    pub fn new() -> (e: Editor)
        ensures
            e@ == empty_buffer(),
            buffer_wf(e@),
            buffer_marked(e@),
            e.size == (0u16, 0u16),
            e.scroll == (0u16, 0u16),
    {
        let mut first: Vec<char> = Vec::new();
        first.push('\n');
        let mut context: Vec<Vec<char>> = Vec::new();
        context.push(first);
        let e = Editor { cursor_index: 0, line_index: 0, size: (0, 0), scroll: (0, 0), context };
        proof {
            assert(e@ =~~= empty_buffer());
            lemma_empty_buffer_inv();
        }
        e
    }

    /// Record the visible size `(rows, cols)`; nothing else changes, and no
    /// scroll recomputation happens here.
    pub fn getsize(&mut self, size: (u16, u16))
        ensures
            final(self).size == size,
            final(self)@ == old(self)@,
            final(self).scroll == old(self).scroll,
    {
        self.size = size;
    }

    /// Insert `ch` at the cursor in the active line.  Always succeeds and
    /// leaves the cursor where it was; advancing it is the caller's move.
    pub fn enter(&mut self, ch: char)
        requires
            buffer_wf(old(self)@),
        ensures
            final(self)@ == insert_char_tr(old(self)@, ch),
            buffer_wf(final(self)@),
            final(self).size == old(self).size,
            final(self).scroll == old(self).scroll,
    {
        let line: usize = self.line_index;
        let mut l = self.context.remove(line);
        l.insert(self.cursor_index, ch);
        self.context.insert(line, l);
        proof {
            assert(self@ =~~= insert_char_tr(old(self)@, ch));
        }
    }

    /// Backward deletion.  With the cursor inside the line, the character
    /// before it goes and the result is `false` (the caller then moves the
    /// cursor left).  At the start of a visually empty line, of several, the
    /// line goes and the result is `true` (the caller then moves the cursor
    /// up and clamps it to the line end).  Anywhere else at a line start —
    /// on a line that still holds content, or on the sole remaining line —
    /// the call is a no-op returning `false`.
    pub fn delete(&mut self) -> (merged: bool)
        requires
            buffer_wf(old(self)@),
        ensures
            final(self)@ == delete_tr(old(self)@),
            merged == delete_merges(old(self)@),
            final(self).size == old(self).size,
            final(self).scroll == old(self).scroll,
    {
        let line: usize = self.line_index;
        let height: usize = self.context.len();
        let len: usize = self.context[line].len();
        if self.cursor_index > 0 {
            let mut l = self.context.remove(line);
            l.remove(self.cursor_index - 1);
            self.context.insert(line, l);
            proof {
                assert(self@ =~~= delete_tr(old(self)@));
            }
            false
        } else if height > 1 && len <= 1 {
            self.context.remove(line);
            proof {
                assert(self@ =~~= delete_tr(old(self)@));
            }
            true
        } else {
            false
        }
    }

    /// Split the active line at the cursor: a line break appears there, the
    /// active line advances to the text after the break, and the cursor
    /// returns to offset zero.
    pub fn addline(&mut self)
        requires
            buffer_wf(old(self)@),
        ensures
            final(self)@ == addline_tr(old(self)@),
            buffer_wf(final(self)@),
            final(self).size == old(self).size,
            final(self).scroll == old(self).scroll,
    {
        let height: usize = self.context.len();
        proof {
            assert(old(self).line_index < height);
        }
        if self.cursor_index == 0 {
            let mut fresh: Vec<char> = Vec::new();
            fresh.push('\n');
            self.context.insert(self.line_index, fresh);
            self.line_index = self.line_index + 1;
            proof {
                assert(self@ =~~= addline_tr(old(self)@));
            }
        } else {
            let mut l = self.context.remove(self.line_index);
            let tail = l.split_off(self.cursor_index);
            l.push('\n');
            self.context.insert(self.line_index, l);
            self.line_index = self.line_index + 1;
            self.context.insert(self.line_index, tail);
            self.cursor_index = 0;
            proof {
                assert(self@ =~~= addline_tr(old(self)@));
            }
        }
    }

    /// Move the cursor one character left; a no-op at the start of the line.
    pub fn cursor_left(&mut self)
        ensures
            final(self)@ == cursor_left_tr(old(self)@),
            final(self).size == old(self).size,
            final(self).scroll == old(self).scroll,
    {
        if self.cursor_index > 0 {
            self.cursor_index = self.cursor_index - 1;
        }
        proof {
            assert(self@ =~~= cursor_left_tr(old(self)@));
        }
    }

    /// Move the cursor one character right; a no-op at the last valid
    /// offset, and a no-op once the line has reached the length ceiling.
    pub fn cursor_right(&mut self)
        requires
            buffer_wf(old(self)@),
        ensures
            final(self)@ == cursor_right_tr(old(self)@),
            buffer_wf(final(self)@),
            final(self).size == old(self).size,
            final(self).scroll == old(self).scroll,
    {
        let line: usize = self.line_index;
        let len: usize = self.context[line].len();
        if self.cursor_index < len - 1 && len < LINE_CAP {
            self.cursor_index = self.cursor_index + 1;
        }
        proof {
            assert(self@ =~~= cursor_right_tr(old(self)@));
        }
    }

    /// Move the cursor one line up; a no-op on the first line.
    pub fn cursor_up(&mut self)
        ensures
            final(self)@ == cursor_up_tr(old(self)@),
            final(self).size == old(self).size,
            final(self).scroll == old(self).scroll,
    {
        if self.line_index > 0 {
            self.line_index = self.line_index - 1;
        }
        proof {
            assert(self@ =~~= cursor_up_tr(old(self)@));
        }
    }

    /// Move the cursor one line down; a no-op on the last line.
    pub fn cursor_down(&mut self)
        requires
            lines_wf(old(self)@),
        ensures
            final(self)@ == cursor_down_tr(old(self)@),
            final(self).size == old(self).size,
            final(self).scroll == old(self).scroll,
    {
        let height: usize = self.context.len();
        if self.line_index < height - 1 {
            self.line_index = self.line_index + 1;
        }
        proof {
            assert(self@ =~~= cursor_down_tr(old(self)@));
        }
    }

    /// Clamp the cursor to the active line: it lands on the last valid
    /// offset when `last` is set or when it lies past that offset, and stays
    /// put otherwise.  Clamping twice changes nothing more.
    pub fn cursor_check(&mut self, last: bool)
        requires
            lines_wf(old(self)@),
        ensures
            final(self)@ == cursor_check_tr(old(self)@, last),
            buffer_wf(final(self)@),
            final(self).size == old(self).size,
            final(self).scroll == old(self).scroll,
    {
        proof {
            assert(old(self)@.lines[old(self).line_index as int].len() >= 1);
        }
        let max: usize = self.context[self.line_index].len() - 1;
        if self.cursor_index > max || last {
            self.cursor_index = max;
        }
        proof {
            assert(self@ =~~= cursor_check_tr(old(self)@, last));
        }
    }

    /// Recompute the scroll offset so the cursor stays inside the visible
    /// window: whenever the visible extent exceeds the margin and the
    /// cursor's coordinate fits the screen coordinate range, the cursor
    /// lands inside the window on that axis.  Coordinates beyond the screen
    /// coordinate range are treated as its largest value rather than
    /// wrapped.
    pub fn scroll_check(&mut self)
        ensures
            final(self).scroll.0 == spec_follow_offset(clip_u16(old(self).line_index as int), old(self).size.0),
            final(self).scroll.1 == spec_follow_offset(clip_u16(old(self).cursor_index as int), old(self).size.1),
            old(self).size.0 > VIEW_MARGIN && old(self).line_index <= 0xffff ==> {
                &&& final(self).scroll.0 <= old(self).line_index
                &&& old(self).line_index < final(self).scroll.0 + old(self).size.0
            },
            old(self).size.1 > VIEW_MARGIN && old(self).cursor_index <= 0xffff ==> {
                &&& final(self).scroll.1 <= old(self).cursor_index
                &&& old(self).cursor_index < final(self).scroll.1 + old(self).size.1
            },
            final(self)@ == old(self)@,
            final(self).size == old(self).size,
    {
        let y: u16 = clip_to_u16(self.line_index);
        let x: u16 = clip_to_u16(self.cursor_index);
        proof {
            if self.size.0 > VIEW_MARGIN {
                lemma_follow_offset_contains(y, self.size.0);
            }
            if self.size.1 > VIEW_MARGIN {
                lemma_follow_offset_contains(x, self.size.1);
            }
        }
        self.scroll.0 = follow_offset(y, self.size.0);
        self.scroll.1 = follow_offset(x, self.size.1);
    }
}

/// One editing command, as the dispatcher issues them.  `DeleteBackward`
/// stands for the whole backward-deletion command, cursor repositioning
/// included; `MoveUp` and `MoveDown` carry the cursor re-clamp that follows
/// them (the flag is the clamp's `force to line end` flag); `Clamp` is an
/// explicit cursor re-clamp.
pub enum EditOp {
    InsertChar(char),
    DeleteBackward,
    InsertLineBreak,
    MoveLeft,
    MoveRight,
    MoveUp(bool),
    MoveDown(bool),
    Clamp(bool),
}

/// Effect of one editing command on the buffer.
pub open spec fn edit_op_tr(v: BufferView, op: EditOp) -> BufferView {
    match op {
        EditOp::InsertChar(ch) => insert_char_tr(v, ch),
        EditOp::DeleteBackward => backspace_tr(v),
        EditOp::InsertLineBreak => addline_tr(v),
        EditOp::MoveLeft => cursor_left_tr(v),
        EditOp::MoveRight => cursor_right_tr(v),
        EditOp::MoveUp(last) => cursor_check_tr(cursor_up_tr(v), last),
        EditOp::MoveDown(last) => cursor_check_tr(cursor_down_tr(v), last),
        EditOp::Clamp(last) => cursor_check_tr(v, last),
    }
}

/// Effect of a whole sequence of editing commands, applied left to right.
pub open spec fn edit_run_tr(v: BufferView, ops: Seq<EditOp>) -> BufferView
    decreases ops.len(),
{
    if ops.len() == 0 {
        v
    } else {
        edit_op_tr(edit_run_tr(v, ops.drop_last()), ops.last())
    }
}

/// Every line carries its line-break marker as its last character.
pub open spec fn buffer_marked(v: BufferView) -> bool {
    forall|i: int| 0 <= i < v.lines.len() ==> #[trigger] v.lines[i].last() == '\n'
}

/// The buffer a fresh editor holds satisfies the invariant.
pub proof fn lemma_empty_buffer_inv()
    ensures
        buffer_wf(empty_buffer()),
        buffer_marked(empty_buffer()),
{
    assert(empty_buffer().lines[0] == seq!['\n']);
    assert(empty_buffer().lines[0].last() == '\n');
}

/// Cursor validity: a single editing command keeps the buffer invariant —
/// the active line stays in range and the cursor stays on a valid offset of
/// it — and keeps every line terminated by its marker.
pub proof fn lemma_edit_op_preserves_inv(v: BufferView, op: EditOp)
    requires
        buffer_wf(v),
        buffer_marked(v),
    ensures
        buffer_wf(edit_op_tr(v, op)),
        buffer_marked(edit_op_tr(v, op)),
{
    let w = edit_op_tr(v, op);
    let li = v.line_index;
    let line = v.lines[li];
    match op {
        EditOp::InsertChar(ch) => {
            let newline = line.insert(v.cursor_index, ch);
            assert(newline.last() == line.last());
            assert forall|i: int| 0 <= i < w.lines.len() implies #[trigger] w.lines[i].len() >= 1
                && w.lines[i].last() == '\n' by {
                assert(v.lines[i].len() >= 1);
                assert(v.lines[i].last() == '\n');
            }
        },
        EditOp::DeleteBackward => {
            lemma_backspace_preserves_inv(v);
        },
        EditOp::InsertLineBreak => {
            lemma_addline_preserves_inv(v);
        },
        EditOp::MoveLeft => {
        },
        EditOp::MoveRight => {
        },
        EditOp::MoveUp(last) => {
            assert(w.cursor_index < w.lines[w.line_index].len());
        },
        EditOp::MoveDown(last) => {
            assert(w.cursor_index < w.lines[w.line_index].len());
        },
        EditOp::Clamp(last) => {
            assert(w.cursor_index < w.lines[w.line_index].len());
        },
    }
}

/// The backward-deletion command (deletion plus the mandated cursor
/// repositioning) keeps the buffer invariant.
pub proof fn lemma_backspace_preserves_inv(v: BufferView)
    requires
        buffer_wf(v),
        buffer_marked(v),
    ensures
        buffer_wf(backspace_tr(v)),
        buffer_marked(backspace_tr(v)),
{
    let w = backspace_tr(v);
    let li = v.line_index;
    let line = v.lines[li];
    if delete_merges(v) {
        let d = delete_tr(v);
        assert(d.lines == v.lines.remove(li));
        assert forall|i: int| 0 <= i < d.lines.len() implies #[trigger] d.lines[i].len() >= 1
            && d.lines[i].last() == '\n' by {
            if i < li {
                assert(d.lines[i] == v.lines[i]);
            } else {
                assert(d.lines[i] == v.lines[i + 1]);
            }
        }
        assert(w.cursor_index < w.lines[w.line_index].len());
    } else if v.cursor_index > 0 {
        let newline = line.remove(v.cursor_index - 1);
        assert(line.len() >= 2);
        assert(newline.len() == line.len() - 1);
        assert(newline.last() == line[line.len() - 1]);
        assert forall|i: int| 0 <= i < w.lines.len() implies #[trigger] w.lines[i].len() >= 1
            && w.lines[i].last() == '\n' by {
            if i == li {
                assert(w.lines[i] == newline);
                assert(v.lines[li].last() == '\n');
                assert(newline.last() == '\n');
            } else {
                assert(w.lines[i] == v.lines[i]);
                assert(v.lines[i].len() >= 1);
                assert(v.lines[i].last() == '\n');
            }
        }
        assert(w.cursor_index < w.lines[w.line_index].len());
    }
}

/// Inserting a line break keeps the buffer invariant.
pub proof fn lemma_addline_preserves_inv(v: BufferView)
    requires
        buffer_wf(v),
        buffer_marked(v),
    ensures
        buffer_wf(addline_tr(v)),
        buffer_marked(addline_tr(v)),
{
    let w = addline_tr(v);
    let li = v.line_index;
    let line = v.lines[li];
    if v.cursor_index == 0 {
        assert forall|i: int| 0 <= i < w.lines.len() implies #[trigger] w.lines[i].len() >= 1
            && w.lines[i].last() == '\n' by {
            if i < li {
                assert(w.lines[i] == v.lines[i]);
            } else if i == li {
                assert(w.lines[i] == seq!['\n']);
                assert(w.lines[i].last() == '\n');
            } else {
                assert(w.lines[i] == v.lines[i - 1]);
            }
        }
        assert(w.cursor_index < w.lines[w.line_index].len());
    } else {
        let head = line.subrange(0, v.cursor_index).push('\n');
        let tail = line.subrange(v.cursor_index, line.len() as int);
        assert(head.last() == '\n');
        assert(tail.len() == line.len() - v.cursor_index);
        assert(v.lines[li].last() == '\n');
        assert(tail.last() == line[line.len() - 1]);
        assert(tail.last() == '\n');
        assert forall|i: int| 0 <= i < w.lines.len() implies #[trigger] w.lines[i].len() >= 1
            && w.lines[i].last() == '\n' by {
            let mid = v.lines.update(li, head);
            if i < li {
                assert(w.lines[i] == mid[i]);
                assert(mid[i] == v.lines[i]);
                assert(v.lines[i].len() >= 1);
                assert(v.lines[i].last() == '\n');
            } else if i == li {
                assert(w.lines[i] == mid[i]);
                assert(mid[i] == head);
            } else if i == li + 1 {
                assert(w.lines[i] == tail);
            } else {
                assert(w.lines[i] == mid[i - 1]);
                assert(mid[i - 1] == v.lines[i - 1]);
                assert(v.lines[i - 1].len() >= 1);
                assert(v.lines[i - 1].last() == '\n');
            }
        }
        assert(w.lines[w.line_index] == tail);
        assert(w.cursor_index < w.lines[w.line_index].len());
    }
}

/// Cursor validity over whole sessions: any sequence of editing commands,
/// run from a buffer satisfying the invariant, ends in a buffer satisfying
/// it.
pub proof fn lemma_edit_run_preserves_inv(v: BufferView, ops: Seq<EditOp>)
    requires
        buffer_wf(v),
        buffer_marked(v),
    ensures
        buffer_wf(edit_run_tr(v, ops)),
        buffer_marked(edit_run_tr(v, ops)),
    decreases ops.len(),
{
    if ops.len() > 0 {
        lemma_edit_run_preserves_inv(v, ops.drop_last());
        lemma_edit_op_preserves_inv(edit_run_tr(v, ops.drop_last()), ops.last());
    }
}

/// Clamping the cursor is idempotent: a second clamp with the same flag
/// changes nothing further.
pub proof fn lemma_cursor_check_idempotent(v: BufferView, last: bool)
    ensures
        cursor_check_tr(cursor_check_tr(v, last), last) == cursor_check_tr(v, last),
{
}

/// Split/join round trip: with the cursor on the line-break marker of the
/// active line (offset `k = len - 1`), inserting a line break and then
/// running the backward-deletion command from the start of the newly
/// created line restores the buffer exactly, cursor back at `k`.
pub proof fn lemma_split_join_round_trip(v: BufferView)
    requires
        buffer_wf(v),
        buffer_marked(v),
        v.cursor_index == v.lines[v.line_index].len() - 1,
    ensures
        delete_merges(addline_tr(v)),
        backspace_tr(addline_tr(v)) == v,
{
    let li = v.line_index;
    let line = v.lines[li];
    let s = addline_tr(v);
    assert(line.last() == '\n');
    if v.cursor_index == 0 {
        assert(line.len() == 1);
        assert(line =~= seq!['\n']);
        assert(s.lines == v.lines.insert(li, seq!['\n']));
        assert(s.lines[li + 1] == line);
        assert(delete_merges(s));
        let d = delete_tr(s);
        assert(d.lines =~~= v.lines) by {
            assert forall|i: int| 0 <= i < v.lines.len() implies d.lines[i] == v.lines[i] by {
                if i < li {
                    assert(d.lines[i] == s.lines[i]);
                } else if i == li {
                    assert(d.lines[i] == seq!['\n']);
                } else {
                    assert(d.lines[i] == s.lines[i + 1]);
                }
            }
        }
        assert(backspace_tr(s) =~~= v);
    } else {
        let head = line.subrange(0, v.cursor_index).push('\n');
        let tail = line.subrange(v.cursor_index, line.len() as int);
        assert(tail =~= seq!['\n']);
        assert(head =~= line);
        assert(s.lines[li + 1] == tail);
        assert(delete_merges(s));
        let d = delete_tr(s);
        assert(d.lines =~~= v.lines) by {
            let mid = v.lines.update(li, head);
            assert(mid =~~= v.lines);
            assert forall|i: int| 0 <= i < v.lines.len() implies d.lines[i] == mid[i] by {
                if i <= li {
                    assert(d.lines[i] == mid.insert(li + 1, tail)[i]);
                } else {
                    assert(d.lines[i] == mid.insert(li + 1, tail)[i + 1]);
                }
            }
        }
        assert(backspace_tr(s) =~~= v);
    }
}

/// Sole-line deletion no-op: on a buffer of exactly one line with the
/// cursor at its start, backward deletion reports no merge and changes
/// nothing.
pub proof fn lemma_sole_line_delete_noop(v: BufferView)
    requires
        v.lines.len() == 1,
        v.cursor_index == 0,
    ensures
        !delete_merges(v),
        delete_tr(v) == v,
        backspace_tr(v) == v,
{
}

/// Viewport containment: after a scroll recompute, a cursor whose
/// coordinates fit the screen coordinate range lies inside the visible
/// window on both axes, whenever the window is larger than the margin.
pub proof fn lemma_scroll_check_contains(line: int, cursor: int, rows: u16, cols: u16)
    requires
        0 <= line <= 0xffff,
        0 <= cursor <= 0xffff,
        rows > VIEW_MARGIN,
        cols > VIEW_MARGIN,
    ensures
        spec_follow_offset(clip_u16(line), rows) <= line,
        line < spec_follow_offset(clip_u16(line), rows) + rows,
        spec_follow_offset(clip_u16(cursor), cols) <= cursor,
        cursor < spec_follow_offset(clip_u16(cursor), cols) + cols,
{
    lemma_follow_offset_contains(clip_u16(line), rows);
    lemma_follow_offset_contains(clip_u16(cursor), cols);
}

/// A non-negative count squeezed into a screen coordinate: values past
/// `u16::MAX` saturate there instead of wrapping.
pub open spec fn clip_u16(n: int) -> u16 {
    if n > 0xffff {
        0xffff
    } else {
        n as u16
    }
}

/// Clamp a count to the screen coordinate range.
fn clip_to_u16(n: usize) -> (r: u16)
    ensures
        r == clip_u16(n as int),
{
    if n > 0xffff {
        0xffff
    } else {
        n as u16
    }
}

} // verus!
