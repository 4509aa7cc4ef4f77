//! Reversible edit commands.
//!
//! Every text modification is a command that carries enough captured
//! state to be executed and undone without re-deriving anything from
//! the buffer. Executing and then undoing a command restores buffer
//! and cursor exactly; this file states that law over a mathematical
//! model of the editor state and proves it for every command, single
//! or grouped.

use crate::buffer::TextBuffer;
use crate::buffer::clamp_col;
use crate::buffer::lines_view;
use crate::buffer::push_char;
use crate::buffer::spec_delete_char;
use crate::buffer::spec_delete_forward;
use crate::buffer::spec_delete_range;
use crate::buffer::spec_extract_parts;
use crate::buffer::spec_insert_char;
use crate::buffer::spec_insert_newline;
use crate::buffer::spec_insert_parts;
use crate::buffer::spec_pos_after_insert;
use crate::buffer::spec_replace_range;
use vstd::prelude::*;

verus! {

/// The state a command transforms: the buffer lines and the cursor.
#[verifier::ext_equal]
pub struct EditState {
    pub lines: Seq<Seq<char>>,
    pub cursor: (nat, nat),
}

/// The mathematical view of an executable `(line, column)` cursor.
pub open spec fn cursor_view(c: (usize, usize)) -> (nat, nat) {
    (c.0 as nat, c.1 as nat)
}

/// The state a buffer and a cursor form together.
pub open spec fn state_of(b: Seq<Seq<char>>, c: (usize, usize)) -> EditState {
    EditState { lines: b, cursor: cursor_view(c) }
}

/// Command for inserting a single character.

pub struct InsertCharCommand {
    pub line: usize,
    pub col: usize,
    pub ch: char,
    pub cursor_before: (usize, usize),
    pub cursor_after: (usize, usize),
}

impl InsertCharCommand {
    /// Creates a command that inserts `ch` at `(line, col)`.
    pub fn new(line: usize, col: usize, ch: char, cursor: (usize, usize)) -> (r: InsertCharCommand)
        requires
            col < usize::MAX,
        ensures
            r == (InsertCharCommand {
                line,
                col,
                ch,
                cursor_before: cursor,
                cursor_after: (line, (col + 1) as usize),
            }),
    {
        InsertCharCommand { line, col, ch, cursor_before: cursor, cursor_after: (line, col + 1) }
    }

    /// The state after executing this command.
    pub open spec fn apply(self, s: EditState) -> EditState {
        EditState {
            lines: spec_insert_char(s.lines, self.line as int, self.col as int, self.ch),
            cursor: cursor_view(self.cursor_after),
        }
    }

    /// The state after undoing this command.
    pub open spec fn revert(self, s: EditState) -> EditState {
        EditState {
            lines: spec_delete_forward(s.lines, self.line as int, self.col as int),
            cursor: cursor_view(self.cursor_before),
        }
    }

    /// The states from which executing and undoing this command is an
    /// exact round trip.
    pub open spec fn valid_for(self, s: EditState) -> bool {
        &&& cursor_view(self.cursor_before) == s.cursor
        &&& (self.line as int) < s.lines.len()
        &&& self.col <= s.lines[self.line as int].len()
    }

    /// Inserts the character and places the cursor after it.
    pub fn execute(&self, buffer: &mut TextBuffer, cursor: &mut (usize, usize))
        requires
            old(buffer).wf(),
        ensures
            final(buffer)@ == spec_insert_char(
                old(buffer)@,
                self.line as int,
                self.col as int,
                self.ch,
            ),
            *final(cursor) == self.cursor_after,
            final(buffer).wf(),
            state_of(final(buffer)@, *final(cursor)) == self.apply(
                state_of(old(buffer)@, *old(cursor)),
            ),
    {
        buffer.insert_char(self.line, self.col, self.ch);
        *cursor = self.cursor_after;
    }

    /// Removes the inserted character and restores the cursor.
    pub fn undo(&self, buffer: &mut TextBuffer, cursor: &mut (usize, usize))
        requires
            old(buffer).wf(),
        ensures
            final(buffer)@ == spec_delete_forward(old(buffer)@, self.line as int, self.col as int),
            *final(cursor) == self.cursor_before,
            final(buffer).wf(),
            state_of(final(buffer)@, *final(cursor)) == self.revert(
                state_of(old(buffer)@, *old(cursor)),
            ),
    {
        buffer.delete_forward(self.line, self.col);
        *cursor = self.cursor_before;
    }

    /// Undoing after executing restores the starting state exactly.
    pub proof fn lemma_round_trip(self, s: EditState)
        requires
            self.valid_for(s),
        ensures
            self.revert(self.apply(s)) == s,
    {
        let l = self.line as int;
        let c = self.col as int;
        let b = s.lines;
        let b1 = spec_insert_char(b, l, c, self.ch);
        assert(b1[l] == b[l].insert(c, self.ch));
        assert(b1[l].remove(c) =~= b[l]);
        assert(spec_delete_forward(b1, l, c) =~~= b);
        assert(self.revert(self.apply(s)) =~~= s);
    }
}

/// Command for deleting the character before the cursor (backspace).

pub struct DeleteCharCommand {
    pub line: usize,
    pub col: usize,
    pub deleted_char: Option<char>,
    pub cursor_before: (usize, usize),
    pub cursor_after: (usize, usize),
}

impl DeleteCharCommand {
    /// Creates a command for a backspace at `(line, col)`, capturing
    /// the character it will delete.
    pub fn new(buffer: &TextBuffer, line: usize, col: usize, cursor: (usize, usize)) -> (r:
        DeleteCharCommand)
        requires
            buffer.wf(),
        ensures
            r.line == line && r.col == col && r.cursor_before == cursor,
            col > 0 ==> r.deleted_char == (if line < buffer@.len() && col <= buffer@[line as int].len() {
                Some(buffer@[line as int][col - 1])
            } else {
                None::<char>
            }) && r.cursor_after == (line, (col - 1) as usize),
            col == 0 && line > 0 && line < buffer@.len() ==> r.deleted_char == None::<char>
                && cursor_view(r.cursor_after) == ((line - 1) as nat, buffer@[line - 1].len()),
            col == 0 && !(line > 0 && line < buffer@.len()) ==> r.deleted_char == None::<char>
                && r.cursor_after == cursor,
    {
        if col > 0 {
            let ch = buffer.char_at(line, col - 1);
            let ch = if line < buffer.line_count() && col <= buffer.line_len(line) {
                ch
            } else {
                None
            };
            DeleteCharCommand {
                line,
                col,
                deleted_char: ch,
                cursor_before: cursor,
                cursor_after: (line, col - 1),
            }
        } else if line > 0 && line < buffer.line_count() {
            let prev_len = buffer.line_len(line - 1);
            DeleteCharCommand {
                line,
                col,
                deleted_char: None,
                cursor_before: cursor,
                cursor_after: (line - 1, prev_len),
            }
        } else {
            DeleteCharCommand {
                line,
                col,
                deleted_char: None,
                cursor_before: cursor,
                cursor_after: cursor,
            }
        }
    }

    /// The state after executing this command.
    pub open spec fn apply(self, s: EditState) -> EditState {
        EditState {
            lines: spec_delete_char(s.lines, self.line as int, self.col as int),
            cursor: cursor_view(self.cursor_after),
        }
    }

    /// The state after undoing this command.
    pub open spec fn revert(self, s: EditState) -> EditState {
        EditState {
            lines: if self.col == 0 {
                if self.line > 0 {
                    spec_insert_newline(
                        s.lines,
                        self.cursor_after.0 as int,
                        self.cursor_after.1 as int,
                    )
                } else {
                    s.lines
                }
            } else if self.deleted_char is Some {
                spec_insert_char(
                    s.lines,
                    self.line as int,
                    self.col - 1,
                    self.deleted_char->Some_0,
                )
            } else {
                s.lines
            },
            cursor: cursor_view(self.cursor_before),
        }
    }

    /// The states from which executing and undoing this command is an
    /// exact round trip.
    pub open spec fn valid_for(self, s: EditState) -> bool {
        &&& cursor_view(self.cursor_before) == s.cursor
        &&& if self.col > 0 {
            &&& (self.line as int) < s.lines.len()
            &&& self.col <= s.lines[self.line as int].len()
            &&& self.deleted_char == Some(s.lines[self.line as int][self.col - 1])
        } else if self.line > 0 {
            &&& (self.line as int) < s.lines.len()
            &&& self.deleted_char is None
            &&& cursor_view(self.cursor_after) == (
                (self.line - 1) as nat,
                s.lines[self.line - 1].len(),
            )
        } else {
            self.deleted_char is None
        }
    }

    /// Deletes the character, or merges the line into the previous one,
    /// and moves the cursor to the deletion point.
    pub fn execute(&self, buffer: &mut TextBuffer, cursor: &mut (usize, usize))
        requires
            old(buffer).wf(),
        ensures
            final(buffer)@ == spec_delete_char(old(buffer)@, self.line as int, self.col as int),
            *final(cursor) == self.cursor_after,
            final(buffer).wf(),
            state_of(final(buffer)@, *final(cursor)) == self.apply(
                state_of(old(buffer)@, *old(cursor)),
            ),
    {
        buffer.delete_char(self.line, self.col);
        *cursor = self.cursor_after;
    }

    /// Restores the deleted character or the merged line break, and the
    /// cursor.
    pub fn undo(&self, buffer: &mut TextBuffer, cursor: &mut (usize, usize))
        requires
            old(buffer).wf(),
        ensures
            final(buffer).wf(),
            state_of(final(buffer)@, *final(cursor)) == self.revert(
                state_of(old(buffer)@, *old(cursor)),
            ),
    {
        if self.col == 0 {
            if self.line > 0 {
                buffer.insert_newline(self.cursor_after.0, self.cursor_after.1);
            }
        } else if let Some(ch) = self.deleted_char {
            buffer.insert_char(self.line, self.col - 1, ch);
        }
        *cursor = self.cursor_before;
    }

    /// Undoing after executing restores the starting state exactly.
    pub proof fn lemma_round_trip(self, s: EditState)
        requires
            self.valid_for(s),
        ensures
            self.revert(self.apply(s)) == s,
    {
        let l = self.line as int;
        let c = self.col as int;
        let b = s.lines;
        let b1 = spec_delete_char(b, l, c);
        if c > 0 {
            assert(b1[l] == b[l].remove(c - 1));
            assert(b1[l].insert(c - 1, b[l][c - 1]) =~= b[l]);
            assert(spec_insert_char(b1, l, c - 1, self.deleted_char->Some_0) =~~= b);
        } else if self.line > 0 && l < b.len() {
            let merged = b[l - 1] + b[l];
            assert(b1 == b.update(l - 1, merged).remove(l));
            let ca = self.cursor_after.0 as int;
            let cc = self.cursor_after.1 as int;
            assert(ca == l - 1 && cc == b[l - 1].len());
            assert(b1[l - 1] == merged);
            assert(clamp_col(merged, cc) == cc);
            assert(merged.take(cc) =~= b[l - 1]);
            assert(merged.skip(cc) =~= b[l]);
            assert(spec_insert_newline(b1, ca, cc) =~~= b);
        }
        assert(self.revert(self.apply(s)) =~~= s);
    }
}

/// Command for deleting the character at the cursor (delete key).

pub struct DeleteForwardCommand {
    pub line: usize,
    pub col: usize,
    pub deleted_char: Option<char>,
    pub merged_next_line: bool,
    pub cursor_before: (usize, usize),
}

impl DeleteForwardCommand {
    /// Creates a command for a delete at `(line, col)`, capturing the
    /// character it will delete or the line merge it will perform.
    pub fn new(buffer: &TextBuffer, line: usize, col: usize, cursor: (usize, usize)) -> (r:
        DeleteForwardCommand)
        requires
            buffer.wf(),
        ensures
            r.line == line && r.col == col && r.cursor_before == cursor,
            r.deleted_char == (if line < buffer@.len() && col < buffer@[line as int].len() {
                Some(buffer@[line as int][col as int])
            } else {
                None::<char>
            }),
            r.merged_next_line == (line < buffer@.len() && col >= buffer@[line as int].len()
                && line + 1 < buffer@.len()),
    {
        let ch = buffer.char_at(line, col);
        let merged = line < buffer.line_count() && col >= buffer.line_len(line) && line + 1
            < buffer.line_count();
        DeleteForwardCommand {
            line,
            col,
            deleted_char: ch,
            merged_next_line: merged,
            cursor_before: cursor,
        }
    }

    /// The state after executing this command.
    pub open spec fn apply(self, s: EditState) -> EditState {
        EditState {
            lines: spec_delete_forward(s.lines, self.line as int, self.col as int),
            cursor: cursor_view(self.cursor_before),
        }
    }

    /// The state after undoing this command.
    pub open spec fn revert(self, s: EditState) -> EditState {
        EditState {
            lines: if self.deleted_char is Some {
                spec_insert_char(
                    s.lines,
                    self.line as int,
                    self.col as int,
                    self.deleted_char->Some_0,
                )
            } else if self.merged_next_line {
                spec_insert_newline(s.lines, self.line as int, self.col as int)
            } else {
                s.lines
            },
            cursor: cursor_view(self.cursor_before),
        }
    }

    /// The states from which executing and undoing this command is an
    /// exact round trip.
    pub open spec fn valid_for(self, s: EditState) -> bool {
        &&& cursor_view(self.cursor_before) == s.cursor
        &&& if (self.line as int) < s.lines.len() && (self.col as int) < s.lines[self.line as int].len() {
            self.deleted_char == Some(s.lines[self.line as int][self.col as int])
        } else {
            &&& self.deleted_char is None
            &&& self.merged_next_line == ((self.line as int) < s.lines.len() && self.line + 1
                < s.lines.len())
            &&& ((self.line as int) < s.lines.len() ==> self.col == s.lines[self.line as int].len())
        }
    }

    /// Deletes the character, or merges the next line into this one;
    /// the cursor does not move.
    pub fn execute(&self, buffer: &mut TextBuffer, cursor: &mut (usize, usize))
        requires
            old(buffer).wf(),
        ensures
            final(buffer)@ == spec_delete_forward(old(buffer)@, self.line as int, self.col as int),
            *final(cursor) == self.cursor_before,
            final(buffer).wf(),
            state_of(final(buffer)@, *final(cursor)) == self.apply(
                state_of(old(buffer)@, *old(cursor)),
            ),
    {
        buffer.delete_forward(self.line, self.col);
        *cursor = self.cursor_before;
    }

    /// Restores the deleted character or the removed line break, and
    /// the cursor.
    pub fn undo(&self, buffer: &mut TextBuffer, cursor: &mut (usize, usize))
        requires
            old(buffer).wf(),
        ensures
            final(buffer).wf(),
            state_of(final(buffer)@, *final(cursor)) == self.revert(
                state_of(old(buffer)@, *old(cursor)),
            ),
    {
        if let Some(ch) = self.deleted_char {
            buffer.insert_char(self.line, self.col, ch);
        } else if self.merged_next_line {
            buffer.insert_newline(self.line, self.col);
        }
        *cursor = self.cursor_before;
    }

    /// Undoing after executing restores the starting state exactly.
    pub proof fn lemma_round_trip(self, s: EditState)
        requires
            self.valid_for(s),
        ensures
            self.revert(self.apply(s)) == s,
    {
        let l = self.line as int;
        let c = self.col as int;
        let b = s.lines;
        let b1 = spec_delete_forward(b, l, c);
        if 0 <= l < b.len() && c < b[l].len() {
            assert(b1[l] == b[l].remove(c));
            assert(b1[l].insert(c, b[l][c]) =~= b[l]);
            assert(spec_insert_char(b1, l, c, self.deleted_char->Some_0) =~~= b);
        } else if 0 <= l < b.len() && l + 1 < b.len() {
            let merged = b[l] + b[l + 1];
            assert(b1 == b.update(l, merged).remove(l + 1));
            assert(b1[l] == merged);
            assert(c == b[l].len());
            assert(clamp_col(merged, c) == c);
            assert(merged.take(c) =~= b[l]);
            assert(merged.skip(c) =~= b[l + 1]);
            assert(spec_insert_newline(b1, l, c) =~~= b);
        }
        assert(self.revert(self.apply(s)) =~~= s);
    }
}

/// Command for inserting a line break.

pub struct InsertNewlineCommand {
    pub line: usize,
    pub col: usize,
    pub cursor_before: (usize, usize),
    pub cursor_after: (usize, usize),
}

impl InsertNewlineCommand {
    /// Creates a command that splits `line` at `col`.
    pub fn new(line: usize, col: usize, cursor: (usize, usize)) -> (r: InsertNewlineCommand)
        requires
            line < usize::MAX,
        ensures
            r == (InsertNewlineCommand {
                line,
                col,
                cursor_before: cursor,
                cursor_after: ((line + 1) as usize, 0),
            }),
    {
        InsertNewlineCommand { line, col, cursor_before: cursor, cursor_after: (line + 1, 0) }
    }

    /// The state after executing this command.
    pub open spec fn apply(self, s: EditState) -> EditState {
        EditState {
            lines: spec_insert_newline(s.lines, self.line as int, self.col as int),
            cursor: cursor_view(self.cursor_after),
        }
    }

    /// The state after undoing this command.
    pub open spec fn revert(self, s: EditState) -> EditState {
        EditState {
            lines: spec_delete_char(s.lines, self.cursor_after.0 as int, 0),
            cursor: cursor_view(self.cursor_before),
        }
    }

    /// The states from which executing and undoing this command is an
    /// exact round trip.
    pub open spec fn valid_for(self, s: EditState) -> bool {
        &&& cursor_view(self.cursor_before) == s.cursor
        &&& (self.line as int) < s.lines.len()
        &&& self.col <= s.lines[self.line as int].len()
        &&& cursor_view(self.cursor_after) == ((self.line + 1) as nat, 0nat)
    }

    /// Splits the line and places the cursor at the start of the new
    /// line.
    pub fn execute(&self, buffer: &mut TextBuffer, cursor: &mut (usize, usize))
        requires
            old(buffer).wf(),
        ensures
            final(buffer)@ == spec_insert_newline(old(buffer)@, self.line as int, self.col as int),
            *final(cursor) == self.cursor_after,
            final(buffer).wf(),
            state_of(final(buffer)@, *final(cursor)) == self.apply(
                state_of(old(buffer)@, *old(cursor)),
            ),
    {
        buffer.insert_newline(self.line, self.col);
        *cursor = self.cursor_after;
    }

    /// Merges the two lines back together and restores the cursor.
    pub fn undo(&self, buffer: &mut TextBuffer, cursor: &mut (usize, usize))
        requires
            old(buffer).wf(),
        ensures
            final(buffer)@ == spec_delete_char(old(buffer)@, self.cursor_after.0 as int, 0),
            final(buffer).wf(),
            state_of(final(buffer)@, *final(cursor)) == self.revert(
                state_of(old(buffer)@, *old(cursor)),
            ),
    {
        buffer.delete_char(self.cursor_after.0, 0);
        *cursor = self.cursor_before;
    }

    /// Undoing after executing restores the starting state exactly.
    pub proof fn lemma_round_trip(self, s: EditState)
        requires
            self.valid_for(s),
        ensures
            self.revert(self.apply(s)) == s,
    {
        let l = self.line as int;
        let c = self.col as int;
        let b = s.lines;
        let cc = clamp_col(b[l], c);
        let b1 = spec_insert_newline(b, l, c);
        assert(b1 == b.update(l, b[l].take(cc)).insert(l + 1, b[l].skip(cc)));
        assert(b1.len() == b.len() + 1);
        assert(b1[l] == b[l].take(cc));
        assert(b1[l + 1] == b[l].skip(cc));
        let b2 = spec_delete_char(b1, l + 1, 0);
        assert(b2 == b1.update(l, b1[l] + b1[l + 1]).remove(l + 1));
        assert(b[l].take(cc) + b[l].skip(cc) =~= b[l]);
        assert(b2 =~~= b);
        assert(self.revert(self.apply(s)) =~~= s);
    }
}

/// The parts a text splits into at line feeds, from position `i` on,
/// given the part built so far and the parts already completed.
pub open spec fn split_acc(
    t: Seq<char>,
    i: int,
    cur: Seq<char>,
    acc: Seq<Seq<char>>,
) -> Seq<Seq<char>>
    decreases t.len() - i,
{
    if i < 0 || i >= t.len() {
        acc.push(cur)
    } else if t[i] == '\n' {
        split_acc(t, i + 1, Seq::empty(), acc.push(cur))
    } else {
        split_acc(t, i + 1, cur.push(t[i]), acc)
    }
}

/// The parts a text splits into at line feeds: a text without a line
/// feed is a single part, and a trailing line feed yields a trailing
/// empty part.
pub open spec fn spec_split_parts(t: Seq<char>) -> Seq<Seq<char>> {
    split_acc(t, 0, Seq::empty(), Seq::empty())
}

/// How many parts a split yields: always at least one, at most one
/// more than the text has characters; a single part is the whole text
/// appended to the part built so far.
proof fn lemma_split_acc_len(t: Seq<char>, i: int, cur: Seq<char>, acc: Seq<Seq<char>>)
    requires
        0 <= i <= t.len(),
    ensures
        split_acc(t, i, cur, acc).len() >= acc.len() + 1,
        split_acc(t, i, cur, acc).len() <= acc.len() + 1 + t.len() - i,
        split_acc(t, i, cur, acc).len() == acc.len() + 1 ==> split_acc(t, i, cur, acc) == acc.push(
            cur + t.skip(i),
        ),
    decreases t.len() - i,
{
    if i >= t.len() {
        assert(cur + t.skip(i) =~= cur);
    } else if t[i] == '\n' {
        lemma_split_acc_len(t, i + 1, Seq::empty(), acc.push(cur));
    } else {
        lemma_split_acc_len(t, i + 1, cur.push(t[i]), acc);
        assert(cur.push(t[i]) + t.skip(i + 1) =~= cur + t.skip(i));
    }
}

/// Command for inserting multiple characters at once, as a paste does.
/// The text is held as the parts it splits into at line feeds.
pub struct InsertTextCommand {
    pub line: usize,
    pub col: usize,
    pub parts: Vec<Vec<char>>,
    pub cursor_before: (usize, usize),
    pub cursor_after: (usize, usize),
}

impl InsertTextCommand {
    /// The bounds that make this command executable: at least one part,
    /// and a landing line that exists.
    pub open spec fn wf(self) -> bool {
        &&& self.parts@.len() >= 1
        &&& self.line + self.parts@.len() <= usize::MAX
    }

    /// Creates a command that inserts `text` at `(line, col)`.
    pub fn new(line: usize, col: usize, text: String, cursor: (usize, usize)) -> (r:
        InsertTextCommand)
        requires
            line + text@.len() < usize::MAX,
            col + text@.len() <= usize::MAX,
        ensures
            r.line == line && r.col == col && r.cursor_before == cursor,
            lines_view(r.parts@) == spec_split_parts(text@),
            r.cursor_after.0 as int == spec_pos_after_insert(
                line as int,
                col as int,
                spec_split_parts(text@),
            ).0,
            r.cursor_after.1 as int == spec_pos_after_insert(
                line as int,
                col as int,
                spec_split_parts(text@),
            ).1,
            r.wf(),
    {
        let ghost t = text@;
        let s = text.as_str();
        let tlen = s.unicode_len();
        let mut parts: Vec<Vec<char>> = Vec::new();
        let mut cur: Vec<char> = Vec::new();
        let mut i: usize = 0;
        proof {
            assert(lines_view(parts@) =~= Seq::<Seq<char>>::empty());
        }
        while i < tlen
            invariant
                t == text@,
                s@ == t,
                tlen == t.len(),
                0 <= i <= tlen,
                parts@.len() + 1 <= i + 1,
                spec_split_parts(t) == split_acc(t, i as int, cur@, lines_view(parts@)),
            decreases tlen - i,
        {
            let c = s.get_char(i);
            let ghost cur0 = cur@;
            let ghost acc0 = lines_view(parts@);
            if c == '\n' {
                parts.push(cur);
                proof {
                    assert(lines_view(parts@) =~~= acc0.push(cur0));
                }
                cur = Vec::new();
            } else {
                cur.push(c);
            }
            i = i + 1;
        }
        let ghost accn = lines_view(parts@);
        parts.push(cur);
        proof {
            assert(lines_view(parts@) =~~= accn.push(cur@));
            assert(lines_view(parts@) == spec_split_parts(t));
            lemma_split_acc_len(t, 0, Seq::empty(), Seq::empty());
        }
        let m = parts.len();
        let cursor_after = if m == 1 {
            proof {
                assert(Seq::<char>::empty() + t.skip(0) =~= t);
                assert(lines_view(parts@)[0] == t);
                assert(parts@[0]@.len() == t.len());
            }
            (line, col + parts[0].len())
        } else {
            (line + m - 1, parts[m - 1].len())
        };
        InsertTextCommand { line, col, parts, cursor_before: cursor, cursor_after }
    }

    /// The state after executing this command.
    pub open spec fn apply(self, s: EditState) -> EditState {
        EditState {
            lines: spec_insert_parts(
                s.lines,
                self.line as int,
                self.col as int,
                lines_view(self.parts@),
            ),
            cursor: cursor_view(self.cursor_after),
        }
    }

    /// The state after undoing this command.
    pub open spec fn revert(self, s: EditState) -> EditState {
        EditState {
            lines: spec_delete_range(
                s.lines,
                self.line as int,
                self.col as int,
                self.cursor_after.0 as int,
                self.cursor_after.1 as int,
            ),
            cursor: cursor_view(self.cursor_before),
        }
    }

    /// The states from which executing and undoing this command is an
    /// exact round trip.
    pub open spec fn valid_for(self, s: EditState) -> bool {
        &&& cursor_view(self.cursor_before) == s.cursor
        &&& self.wf()
        &&& (self.line as int) < s.lines.len()
        &&& self.col <= s.lines[self.line as int].len()
        &&& self.cursor_after.0 as int == spec_pos_after_insert(
            self.line as int,
            self.col as int,
            lines_view(self.parts@),
        ).0
        &&& self.cursor_after.1 as int == spec_pos_after_insert(
            self.line as int,
            self.col as int,
            lines_view(self.parts@),
        ).1
    }

    /// Inserts the text and places the cursor after its last character.
    pub fn execute(&self, buffer: &mut TextBuffer, cursor: &mut (usize, usize))
        requires
            old(buffer).wf(),
            self.wf(),
        ensures
            final(buffer)@ == spec_insert_parts(
                old(buffer)@,
                self.line as int,
                self.col as int,
                lines_view(self.parts@),
            ),
            *final(cursor) == self.cursor_after,
            final(buffer).wf(),
            state_of(final(buffer)@, *final(cursor)) == self.apply(
                state_of(old(buffer)@, *old(cursor)),
            ),
    {
        buffer.insert_parts(self.line, self.col, &self.parts);
        *cursor = self.cursor_after;
    }

    /// Deletes the inserted span and restores the cursor.
    pub fn undo(&self, buffer: &mut TextBuffer, cursor: &mut (usize, usize))
        requires
            old(buffer).wf(),
        ensures
            final(buffer)@ == spec_delete_range(
                old(buffer)@,
                self.line as int,
                self.col as int,
                self.cursor_after.0 as int,
                self.cursor_after.1 as int,
            ),
            *final(cursor) == self.cursor_before,
            final(buffer).wf(),
            state_of(final(buffer)@, *final(cursor)) == self.revert(
                state_of(old(buffer)@, *old(cursor)),
            ),
    {
        buffer.delete_range((self.line, self.col), self.cursor_after);
        *cursor = self.cursor_before;
    }

    /// Undoing after executing restores the starting state exactly.
    pub proof fn lemma_round_trip(self, s: EditState)
        requires
            self.valid_for(s),
        ensures
            self.revert(self.apply(s)) == s,
    {
        let l = self.line as int;
        let c = self.col as int;
        let b = s.lines;
        let pv = lines_view(self.parts@);
        let m = pv.len() as int;
        let b1 = spec_insert_parts(b, l, c, pv);
        assert(clamp_col(b[l], c) == c);
        if m == 1 {
            let e1 = c + pv[0].len();
            assert(b1[l] == b[l].take(c) + pv[0] + b[l].skip(c));
            assert(b1[l].len() == b[l].len() + pv[0].len());
            assert(clamp_col(b1[l], c) == c);
            assert(clamp_col(b1[l], e1) == e1);
            let b2 = spec_delete_range(b1, l, c, l, e1);
            assert(b1[l].take(c) =~= b[l].take(c));
            assert(b1[l].skip(e1) =~= b[l].skip(c));
            assert(b[l].take(c) + b[l].skip(c) =~= b[l]);
            assert(b2 =~~= b);
        } else {
            let e0 = l + m - 1;
            let e1 = pv.last().len() as int;
            let head = b[l].take(c);
            let tail = b[l].skip(c);
            assert(b1 == b.take(l) + seq![head + pv[0]] + pv.subrange(1, m - 1) + seq![
                pv.last() + tail,
            ] + b.skip(l + 1));
            assert(b1.len() == b.len() + m - 1);
            assert(b1[l] == head + pv[0]);
            assert(b1[e0] == pv.last() + tail);
            assert(l <= e0 < b1.len());
            let b2 = spec_delete_range(b1, l, c, e0, e1);
            assert(clamp_col(b1[l], c) == c);
            assert(clamp_col(b1[e0], e1) == e1);
            assert(b1[l].take(c) =~= head);
            assert(b1[e0].skip(e1) =~= tail);
            assert(head + tail =~= b[l]);
            assert(b1.take(l) =~= b.take(l));
            assert(b1.skip(e0 + 1) =~= b.skip(l + 1));
            assert(b2 =~~= b);
        }
        assert(self.revert(self.apply(s)) =~~= s);
    }
}

/// Command for deleting a span of text, as deleting a selection does.
/// The deleted text is held as the parts it splits into at line breaks.
pub struct DeleteRangeCommand {
    pub start: (usize, usize),
    pub end: (usize, usize),
    pub deleted: Vec<Vec<char>>,
    pub cursor_before: (usize, usize),
}

impl DeleteRangeCommand {
    /// The bounds that make this command executable: at least one
    /// captured part, and a landing line that exists.
    pub open spec fn wf(self) -> bool {
        &&& self.deleted@.len() >= 1
        &&& self.start.0 + self.deleted@.len() <= usize::MAX
    }

    /// Creates a command that deletes the span from `start` to `end`,
    /// capturing the text it removes.
    pub fn new(
        buffer: &TextBuffer,
        start: (usize, usize),
        end: (usize, usize),
        cursor: (usize, usize),
    ) -> (r: DeleteRangeCommand)
        requires
            buffer.wf(),
            start.0 <= end.0,
            end.0 < usize::MAX,
        ensures
            r.start == start && r.end == end && r.cursor_before == cursor,
            lines_view(r.deleted@) == spec_extract_parts(
                buffer@,
                start.0 as int,
                start.1 as int,
                end.0 as int,
                end.1 as int,
            ),
            r.wf(),
    {
        let deleted = buffer.range_parts(start, end);
        proof {
            assert(lines_view(deleted@).len() == deleted@.len());
        }
        DeleteRangeCommand { start, end, deleted, cursor_before: cursor }
    }

    /// The state after executing this command.
    pub open spec fn apply(self, s: EditState) -> EditState {
        EditState {
            lines: spec_delete_range(
                s.lines,
                self.start.0 as int,
                self.start.1 as int,
                self.end.0 as int,
                self.end.1 as int,
            ),
            cursor: cursor_view(self.start),
        }
    }

    /// The state after undoing this command.
    pub open spec fn revert(self, s: EditState) -> EditState {
        EditState {
            lines: spec_insert_parts(
                s.lines,
                self.start.0 as int,
                self.start.1 as int,
                lines_view(self.deleted@),
            ),
            cursor: cursor_view(self.cursor_before),
        }
    }

    /// The states from which executing and undoing this command is an
    /// exact round trip.
    pub open spec fn valid_for(self, s: EditState) -> bool {
        &&& cursor_view(self.cursor_before) == s.cursor
        &&& self.wf()
        &&& (self.start.0 as int) <= (self.end.0 as int) < s.lines.len()
        &&& self.start.1 <= s.lines[self.start.0 as int].len()
        &&& self.end.1 <= s.lines[self.end.0 as int].len()
        &&& (self.start.0 == self.end.0 ==> self.start.1 <= self.end.1)
        &&& lines_view(self.deleted@) == spec_extract_parts(
            s.lines,
            self.start.0 as int,
            self.start.1 as int,
            self.end.0 as int,
            self.end.1 as int,
        )
    }

    /// Deletes the span and places the cursor at its start.
    pub fn execute(&self, buffer: &mut TextBuffer, cursor: &mut (usize, usize))
        requires
            old(buffer).wf(),
        ensures
            final(buffer)@ == spec_delete_range(
                old(buffer)@,
                self.start.0 as int,
                self.start.1 as int,
                self.end.0 as int,
                self.end.1 as int,
            ),
            *final(cursor) == self.start,
            final(buffer).wf(),
            state_of(final(buffer)@, *final(cursor)) == self.apply(
                state_of(old(buffer)@, *old(cursor)),
            ),
    {
        buffer.delete_range(self.start, self.end);
        *cursor = self.start;
    }

    /// Re-inserts the deleted text and restores the cursor.
    pub fn undo(&self, buffer: &mut TextBuffer, cursor: &mut (usize, usize))
        requires
            old(buffer).wf(),
            self.wf(),
        ensures
            final(buffer)@ == spec_insert_parts(
                old(buffer)@,
                self.start.0 as int,
                self.start.1 as int,
                lines_view(self.deleted@),
            ),
            *final(cursor) == self.cursor_before,
            final(buffer).wf(),
            state_of(final(buffer)@, *final(cursor)) == self.revert(
                state_of(old(buffer)@, *old(cursor)),
            ),
    {
        buffer.insert_parts(self.start.0, self.start.1, &self.deleted);
        *cursor = self.cursor_before;
    }

    /// Undoing after executing restores the starting state exactly.
    pub proof fn lemma_round_trip(self, s: EditState)
        requires
            self.valid_for(s),
        ensures
            self.revert(self.apply(s)) == s,
    {
        let l0 = self.start.0 as int;
        let c0 = self.start.1 as int;
        let l1 = self.end.0 as int;
        let c1 = self.end.1 as int;
        let b = s.lines;
        let pv = lines_view(self.deleted@);
        let b1 = spec_delete_range(b, l0, c0, l1, c1);
        assert(clamp_col(b[l0], c0) == c0);
        assert(clamp_col(b[l1], c1) == c1);
        if l0 == l1 {
            assert(pv =~~= seq![b[l0].subrange(c0, c1)]);
            assert(b1[l0] == b[l0].take(c0) + b[l0].skip(c1));
            assert(clamp_col(b1[l0], c0) == c0);
            let b2 = spec_insert_parts(b1, l0, c0, pv);
            assert(b1[l0].take(c0) =~= b[l0].take(c0));
            assert(b1[l0].skip(c0) =~= b[l0].skip(c1));
            assert(b[l0].take(c0) + b[l0].subrange(c0, c1) + b[l0].skip(c1) =~= b[l0]);
            assert(b2 =~~= b);
        } else {
            let m = l1 - l0 + 1;
            assert(pv =~~= seq![b[l0].skip(c0)] + b.subrange(l0 + 1, l1) + seq![
                b[l1].take(c1),
            ]);
            assert(pv.len() == m);
            let merged = b[l0].take(c0) + b[l1].skip(c1);
            assert(b1 == b.take(l0) + seq![merged] + b.skip(l1 + 1));
            assert(b1.len() == b.len() - (l1 - l0));
            assert(b1[l0] == merged);
            assert(clamp_col(merged, c0) == c0);
            let b2 = spec_insert_parts(b1, l0, c0, pv);
            assert(pv[0] == b[l0].skip(c0));
            assert(pv.last() == b[l1].take(c1));
            assert(pv.subrange(1, m - 1) =~= b.subrange(l0 + 1, l1));
            assert(merged.take(c0) =~= b[l0].take(c0));
            assert(merged.skip(c0) =~= b[l1].skip(c1));
            assert(merged.take(c0) + pv[0] =~= b[l0]);
            assert(pv.last() + merged.skip(c0) =~= b[l1]);
            assert(b1.take(l0) =~= b.take(l0));
            assert(b1.skip(l0 + 1) =~= b.skip(l1 + 1));
            assert(b2 =~~= b);
        }
        assert(self.revert(self.apply(s)) =~~= s);
    }
}

/// Command for replacing a span of text within one line, as search and
/// replace does.

pub struct ReplaceTextCommand {
    pub position: (usize, usize),
    pub old_text: String,
    pub new_text: String,
    pub cursor_before: (usize, usize),
    pub cursor_after: (usize, usize),
}

impl ReplaceTextCommand {
    /// Creates a command that replaces `old_text_len` characters at
    /// `position` with `new_text`, capturing the replaced text.
    pub fn new(
        buffer: &TextBuffer,
        position: (usize, usize),
        old_text_len: usize,
        new_text: String,
        cursor: (usize, usize),
    ) -> (r: ReplaceTextCommand)
        requires
            buffer.wf(),
            position.1 + new_text@.len() <= usize::MAX,
        ensures
            r.position == position && r.new_text == new_text && r.cursor_before == cursor,
            r.old_text@ == (if (position.0 as int) < buffer@.len() {
                buffer@[position.0 as int].subrange(
                    clamp_col(buffer@[position.0 as int], position.1 as int),
                    clamp_col(buffer@[position.0 as int], position.1 + old_text_len),
                )
            } else {
                Seq::<char>::empty()
            }),
            cursor_view(r.cursor_after) == (position.0 as nat, (position.1 + new_text@.len()) as nat),
    {
        let (line, col) = position;
        let mut old_text = String::new();
        if line < buffer.line_count() {
            let ll = buffer.line_len(line);
            let a = if col <= ll {
                col
            } else {
                ll
            };
            let span = if old_text_len <= ll - a {
                old_text_len
            } else {
                ll - a
            };
            let mut j: usize = 0;
            while j < span
                invariant
                    buffer.wf(),
                    line < buffer@.len(),
                    a + span <= buffer@[line as int].len(),
                    buffer@[line as int].len() <= usize::MAX,
                    0 <= j <= span,
                    old_text@ == buffer@[line as int].subrange(a as int, a + j),
                decreases span - j,
            {
                proof {
                    assert(buffer@[line as int].subrange(a as int, a + j + 1)
                        == buffer@[line as int].subrange(a as int, a + j).push(
                        buffer@[line as int][a + j],
                    )) by {
                        assert(buffer@[line as int].subrange(a as int, a + j + 1) =~= buffer@[line
                            as int].subrange(a as int, a + j).push(buffer@[line as int][a + j]));
                    }
                }
                let ch = buffer.char_at(line, a + j);
                push_char(&mut old_text, ch.unwrap());
                j = j + 1;
            }
            proof {
                let l0 = buffer@[line as int];
                assert(a as int == clamp_col(l0, col as int));
                assert(a + span == clamp_col(l0, col + old_text_len));
            }
        }
        let new_len = new_text.as_str().unicode_len();
        ReplaceTextCommand {
            position,
            old_text,
            new_text,
            cursor_before: cursor,
            cursor_after: (line, col + new_len),
        }
    }

    /// The state after executing this command.
    pub open spec fn apply(self, s: EditState) -> EditState {
        EditState {
            lines: spec_replace_range(
                s.lines,
                self.position.0 as int,
                self.position.1 as int,
                self.old_text@.len() as int,
                self.new_text@,
            ),
            cursor: cursor_view(self.cursor_after),
        }
    }

    /// The state after undoing this command.
    pub open spec fn revert(self, s: EditState) -> EditState {
        EditState {
            lines: spec_replace_range(
                s.lines,
                self.position.0 as int,
                self.position.1 as int,
                self.new_text@.len() as int,
                self.old_text@,
            ),
            cursor: cursor_view(self.cursor_before),
        }
    }

    /// The states from which executing and undoing this command is an
    /// exact round trip.
    pub open spec fn valid_for(self, s: EditState) -> bool {
        &&& cursor_view(self.cursor_before) == s.cursor
        &&& (self.position.0 as int) < s.lines.len()
        &&& self.position.1 + self.old_text@.len() <= s.lines[self.position.0 as int].len()
        &&& self.old_text@ == s.lines[self.position.0 as int].subrange(
            self.position.1 as int,
            self.position.1 + self.old_text@.len(),
        )
    }

    /// Replaces the old text with the new and places the cursor after
    /// the replacement.
    pub fn execute(&self, buffer: &mut TextBuffer, cursor: &mut (usize, usize))
        requires
            old(buffer).wf(),
        ensures
            final(buffer)@ == spec_replace_range(
                old(buffer)@,
                self.position.0 as int,
                self.position.1 as int,
                self.old_text@.len() as int,
                self.new_text@,
            ),
            *final(cursor) == self.cursor_after,
            final(buffer).wf(),
            state_of(final(buffer)@, *final(cursor)) == self.apply(
                state_of(old(buffer)@, *old(cursor)),
            ),
    {
        let n = self.old_text.as_str().unicode_len();
        buffer.replace_range(self.position.0, self.position.1, n, self.new_text.as_str());
        *cursor = self.cursor_after;
    }

    /// Restores the old text and the cursor.
    pub fn undo(&self, buffer: &mut TextBuffer, cursor: &mut (usize, usize))
        requires
            old(buffer).wf(),
        ensures
            final(buffer).wf(),
            state_of(final(buffer)@, *final(cursor)) == self.revert(
                state_of(old(buffer)@, *old(cursor)),
            ),
    {
        let n = self.new_text.as_str().unicode_len();
        buffer.replace_range(self.position.0, self.position.1, n, self.old_text.as_str());
        *cursor = self.cursor_before;
    }

    /// Undoing after executing restores the starting state exactly.
    pub proof fn lemma_round_trip(self, s: EditState)
        requires
            self.valid_for(s),
        ensures
            self.revert(self.apply(s)) == s,
    {
        let l = self.position.0 as int;
        let c = self.position.1 as int;
        let b = s.lines;
        let n_old = self.old_text@.len() as int;
        let n_new = self.new_text@.len() as int;
        let b1 = spec_replace_range(b, l, c, n_old, self.new_text@);
        assert(clamp_col(b[l], c) == c);
        assert(clamp_col(b[l], c + n_old) == c + n_old);
        assert(b1[l] == b[l].take(c) + self.new_text@ + b[l].skip(c + n_old));
        assert(b1[l].len() == b[l].len() - n_old + n_new);
        assert(clamp_col(b1[l], c) == c);
        assert(clamp_col(b1[l], c + n_new) == c + n_new);
        let b2 = spec_replace_range(b1, l, c, n_new, self.old_text@);
        assert(b1[l].take(c) =~= b[l].take(c));
        assert(b1[l].skip(c + n_new) =~= b[l].skip(c + n_old));
        assert(b[l].take(c) + self.old_text@ + b[l].skip(c + n_old) =~= b[l]);
        assert(b2 =~~= b);
        assert(self.revert(self.apply(s)) =~~= s);
    }
}

/// One self-contained, reversible edit step.
pub enum SimpleCommand {
    InsertChar(InsertCharCommand),
    DeleteChar(DeleteCharCommand),
    DeleteForward(DeleteForwardCommand),
    InsertNewline(InsertNewlineCommand),
    InsertText(InsertTextCommand),
    DeleteRange(DeleteRangeCommand),
    ReplaceText(ReplaceTextCommand),
}

impl SimpleCommand {
    /// The bounds that make this command executable.
    pub open spec fn wf(self) -> bool {
        match self {
            SimpleCommand::InsertText(c) => c.wf(),
            SimpleCommand::DeleteRange(c) => c.wf(),
            _ => true,
        }
    }

    /// The state after executing this command.
    pub open spec fn apply(self, s: EditState) -> EditState {
        match self {
            SimpleCommand::InsertChar(c) => c.apply(s),
            SimpleCommand::DeleteChar(c) => c.apply(s),
            SimpleCommand::DeleteForward(c) => c.apply(s),
            SimpleCommand::InsertNewline(c) => c.apply(s),
            SimpleCommand::InsertText(c) => c.apply(s),
            SimpleCommand::DeleteRange(c) => c.apply(s),
            SimpleCommand::ReplaceText(c) => c.apply(s),
        }
    }

    /// The state after undoing this command.
    pub open spec fn revert(self, s: EditState) -> EditState {
        match self {
            SimpleCommand::InsertChar(c) => c.revert(s),
            SimpleCommand::DeleteChar(c) => c.revert(s),
            SimpleCommand::DeleteForward(c) => c.revert(s),
            SimpleCommand::InsertNewline(c) => c.revert(s),
            SimpleCommand::InsertText(c) => c.revert(s),
            SimpleCommand::DeleteRange(c) => c.revert(s),
            SimpleCommand::ReplaceText(c) => c.revert(s),
        }
    }

    /// The states from which executing and undoing this command is an
    /// exact round trip.
    pub open spec fn valid_for(self, s: EditState) -> bool {
        &&& self.wf()
        &&& match self {
            SimpleCommand::InsertChar(c) => c.valid_for(s),
            SimpleCommand::DeleteChar(c) => c.valid_for(s),
            SimpleCommand::DeleteForward(c) => c.valid_for(s),
            SimpleCommand::InsertNewline(c) => c.valid_for(s),
            SimpleCommand::InsertText(c) => c.valid_for(s),
            SimpleCommand::DeleteRange(c) => c.valid_for(s),
            SimpleCommand::ReplaceText(c) => c.valid_for(s),
        }
    }

    /// Executes this command on the buffer and cursor.
    pub fn execute(&self, buffer: &mut TextBuffer, cursor: &mut (usize, usize))
        requires
            old(buffer).wf(),
            self.wf(),
        ensures
            final(buffer).wf(),
            state_of(final(buffer)@, *final(cursor)) == self.apply(
                state_of(old(buffer)@, *old(cursor)),
            ),
    {
        match self {
            SimpleCommand::InsertChar(c) => c.execute(buffer, cursor),
            SimpleCommand::DeleteChar(c) => c.execute(buffer, cursor),
            SimpleCommand::DeleteForward(c) => c.execute(buffer, cursor),
            SimpleCommand::InsertNewline(c) => c.execute(buffer, cursor),
            SimpleCommand::InsertText(c) => c.execute(buffer, cursor),
            SimpleCommand::DeleteRange(c) => c.execute(buffer, cursor),
            SimpleCommand::ReplaceText(c) => c.execute(buffer, cursor),
        }
    }

    /// Undoes this command on the buffer and cursor.
    pub fn undo(&self, buffer: &mut TextBuffer, cursor: &mut (usize, usize))
        requires
            old(buffer).wf(),
            self.wf(),
        ensures
            final(buffer).wf(),
            state_of(final(buffer)@, *final(cursor)) == self.revert(
                state_of(old(buffer)@, *old(cursor)),
            ),
    {
        match self {
            SimpleCommand::InsertChar(c) => c.undo(buffer, cursor),
            SimpleCommand::DeleteChar(c) => c.undo(buffer, cursor),
            SimpleCommand::DeleteForward(c) => c.undo(buffer, cursor),
            SimpleCommand::InsertNewline(c) => c.undo(buffer, cursor),
            SimpleCommand::InsertText(c) => c.undo(buffer, cursor),
            SimpleCommand::DeleteRange(c) => c.undo(buffer, cursor),
            SimpleCommand::ReplaceText(c) => c.undo(buffer, cursor),
        }
    }

    /// Undoing after executing restores the starting state exactly.
    pub proof fn lemma_round_trip(self, s: EditState)
        requires
            self.valid_for(s),
        ensures
            self.revert(self.apply(s)) == s,
    {
        match self {
            SimpleCommand::InsertChar(c) => c.lemma_round_trip(s),
            SimpleCommand::DeleteChar(c) => c.lemma_round_trip(s),
            SimpleCommand::DeleteForward(c) => c.lemma_round_trip(s),
            SimpleCommand::InsertNewline(c) => c.lemma_round_trip(s),
            SimpleCommand::InsertText(c) => c.lemma_round_trip(s),
            SimpleCommand::DeleteRange(c) => c.lemma_round_trip(s),
            SimpleCommand::ReplaceText(c) => c.lemma_round_trip(s),
        }
    }
}

/// The state after executing a sequence of commands in order.
pub open spec fn seq_apply(cs: Seq<SimpleCommand>, s: EditState) -> EditState
    decreases cs.len(),
{
    if cs.len() == 0 {
        s
    } else {
        cs.last().apply(seq_apply(cs.drop_last(), s))
    }
}

/// The state after undoing a sequence of commands in reverse order.
pub open spec fn seq_revert(cs: Seq<SimpleCommand>, s: EditState) -> EditState
    decreases cs.len(),
{
    if cs.len() == 0 {
        s
    } else {
        cs.first().revert(seq_revert(cs.drop_first(), s))
    }
}

/// Whether each command of a sequence is valid in the state left by
/// the commands before it.
pub open spec fn seq_valid(cs: Seq<SimpleCommand>, s: EditState) -> bool
    decreases cs.len(),
{
    if cs.len() == 0 {
        true
    } else {
        cs.first().valid_for(s) && seq_valid(cs.drop_first(), cs.first().apply(s))
    }
}

/// Whether every command of a sequence is executable.
pub open spec fn seq_wf(cs: Seq<SimpleCommand>) -> bool {
    forall|i: int| 0 <= i < cs.len() ==> (#[trigger] cs[i]).wf()
}

/// Executing a sequence is executing all but the last command and then
/// the last; this restates the definition from the other end.
proof fn lemma_seq_apply_cons(cs: Seq<SimpleCommand>, s: EditState)
    requires
        cs.len() > 0,
    ensures
        seq_apply(cs, s) == seq_apply(cs.drop_first(), cs.first().apply(s)),
    decreases cs.len(),
{
    if cs.len() == 1 {
        assert(cs.drop_last() =~= Seq::<SimpleCommand>::empty());
        assert(cs.drop_first() =~= Seq::<SimpleCommand>::empty());
        assert(seq_apply(cs, s) == cs.last().apply(seq_apply(cs.drop_last(), s)));
        assert(seq_apply(cs.drop_last(), s) == s);
        assert(seq_apply(cs.drop_first(), cs.first().apply(s)) == cs.first().apply(s));
        assert(cs.first() == cs.last());
    } else {
        let ds = cs.drop_last();
        let d = cs.last();
        lemma_seq_apply_cons(ds, s);
        assert(cs.drop_first().drop_last() =~= ds.drop_first());
        assert(cs.drop_first().last() == d);
        assert(cs.drop_first().len() > 0);
        assert(ds.first() == cs.first());
        assert(seq_apply(cs, s) == d.apply(seq_apply(ds, s)));
        assert(seq_apply(cs.drop_first(), cs.first().apply(s)) == d.apply(
            seq_apply(ds.drop_first(), ds.first().apply(s)),
        ));
    }
}

/// Undoing a sequence extended by one command first undoes that
/// command.
proof fn lemma_seq_revert_snoc(cs: Seq<SimpleCommand>, d: SimpleCommand, s: EditState)
    ensures
        seq_revert(cs.push(d), s) == seq_revert(cs, d.revert(s)),
    decreases cs.len(),
{
    if cs.len() == 0 {
        assert(cs.push(d).drop_first() =~= Seq::<SimpleCommand>::empty());
        assert(cs.push(d).first() == d);
        assert(seq_revert(cs.push(d), s) == cs.push(d).first().revert(seq_revert(cs.push(d).drop_first(), s)));
        assert(seq_revert(cs.push(d).drop_first(), s) == s);
        assert(seq_revert(cs, d.revert(s)) == d.revert(s));
    } else {
        assert(cs.push(d).drop_first() =~= cs.drop_first().push(d));
        assert(cs.push(d).first() == cs.first());
        lemma_seq_revert_snoc(cs.drop_first(), d, s);
        assert(seq_revert(cs.push(d), s) == cs.first().revert(seq_revert(cs.drop_first().push(d), s)));
        assert(seq_revert(cs, d.revert(s)) == cs.first().revert(seq_revert(cs.drop_first(), d.revert(s))));
    }
}

/// A valid sequence extended by one command splits into a valid prefix
/// and a final command valid in the state the prefix leaves.
proof fn lemma_seq_valid_snoc(cs: Seq<SimpleCommand>, d: SimpleCommand, s: EditState)
    requires
        seq_valid(cs.push(d), s),
    ensures
        seq_valid(cs, s),
        d.valid_for(seq_apply(cs, s)),
    decreases cs.len(),
{
    if cs.len() == 0 {
        assert(cs.push(d).first() == d);
        assert(seq_apply(cs, s) == s);
    } else {
        assert(cs.push(d).first() == cs.first());
        assert(cs.push(d).drop_first() =~= cs.drop_first().push(d));
        lemma_seq_valid_snoc(cs.drop_first(), d, cs.first().apply(s));
        lemma_seq_apply_cons(cs, s);
    }
}

/// For any valid sequence of commands, undoing them all in reverse
/// order after executing them all restores the starting state exactly.
pub proof fn lemma_seq_round_trip(cs: Seq<SimpleCommand>, s: EditState)
    requires
        seq_valid(cs, s),
    ensures
        seq_revert(cs, seq_apply(cs, s)) == s,
    decreases cs.len(),
{
    if cs.len() > 0 {
        let ds = cs.drop_last();
        let d = cs.last();
        assert(ds.push(d) =~= cs);
        lemma_seq_valid_snoc(ds, d, s);
        d.lemma_round_trip(seq_apply(ds, s));
        lemma_seq_revert_snoc(ds, d, seq_apply(cs, s));
        lemma_seq_round_trip(ds, s);
    }
}

/// Composite command that groups several commands into one undo step.
pub struct CompositeCommand {
    pub commands: Vec<SimpleCommand>,
}

impl CompositeCommand {
    /// The bounds that make every grouped command executable.
    pub open spec fn wf(self) -> bool {
        seq_wf(self.commands@)
    }

    /// Creates an empty composite command.
    pub fn new(description: String) -> (r: CompositeCommand)
        ensures
            r.commands@.len() == 0,
            r.wf(),
    {
        let _ = description;
        CompositeCommand { commands: Vec::new() }
    }

    /// Adds a command to this composite.
    pub fn add(&mut self, command: SimpleCommand)
        ensures
            final(self).commands@ == old(self).commands@.push(command),
    {
        self.commands.push(command);
    }

    /// Returns whether this composite holds no commands.
    pub fn is_empty(&self) -> (r: bool)
        ensures
            r == (self.commands@.len() == 0),
    {
        self.commands.is_empty()
    }

    /// The state after executing the grouped commands in order.
    pub open spec fn apply(self, s: EditState) -> EditState {
        seq_apply(self.commands@, s)
    }

    /// The state after undoing the grouped commands in reverse order.
    pub open spec fn revert(self, s: EditState) -> EditState {
        seq_revert(self.commands@, s)
    }

    /// The states from which executing and undoing this composite is an
    /// exact round trip.
    pub open spec fn valid_for(self, s: EditState) -> bool {
        seq_valid(self.commands@, s)
    }

    /// Executes the grouped commands in insertion order.
    pub fn execute(&self, buffer: &mut TextBuffer, cursor: &mut (usize, usize))
        requires
            old(buffer).wf(),
            self.wf(),
        ensures
            final(buffer).wf(),
            state_of(final(buffer)@, *final(cursor)) == self.apply(
                state_of(old(buffer)@, *old(cursor)),
            ),
    {
        let ghost s0 = state_of(buffer@, *cursor);
        let n = self.commands.len();
        let mut i: usize = 0;
        proof {
            assert(self.commands@.take(0) =~= Seq::<SimpleCommand>::empty());
        }
        while i < n
            invariant
                buffer.wf(),
                self.wf(),
                n == self.commands@.len(),
                0 <= i <= n,
                state_of(buffer@, *cursor) == seq_apply(self.commands@.take(i as int), s0),
            decreases n - i,
        {
            self.commands[i].execute(buffer, cursor);
            proof {
                assert(self.commands@.take(i + 1).drop_last() =~= self.commands@.take(i as int));
                assert(self.commands@.take(i + 1).last() == self.commands@[i as int]);
            }
            i = i + 1;
        }
        proof {
            assert(self.commands@.take(n as int) =~= self.commands@);
        }
    }

    /// Undoes the grouped commands in reverse insertion order.
    pub fn undo(&self, buffer: &mut TextBuffer, cursor: &mut (usize, usize))
        requires
            old(buffer).wf(),
            self.wf(),
        ensures
            final(buffer).wf(),
            state_of(final(buffer)@, *final(cursor)) == self.revert(
                state_of(old(buffer)@, *old(cursor)),
            ),
    {
        let ghost s0 = state_of(buffer@, *cursor);
        let n = self.commands.len();
        let mut i: usize = n;
        proof {
            assert(self.commands@.skip(n as int) =~= Seq::<SimpleCommand>::empty());
        }
        while i > 0
            invariant
                buffer.wf(),
                self.wf(),
                n == self.commands@.len(),
                0 <= i <= n,
                state_of(buffer@, *cursor) == seq_revert(self.commands@.skip(i as int), s0),
            decreases i,
        {
            i = i - 1;
            self.commands[i].undo(buffer, cursor);
            proof {
                assert(self.commands@.skip(i as int).drop_first() =~= self.commands@.skip(i + 1));
                assert(self.commands@.skip(i as int).first() == self.commands@[i as int]);
            }
        }
        proof {
            assert(self.commands@.skip(0) =~= self.commands@);
        }
    }

    /// Undoing after executing restores the starting state exactly.
    pub proof fn lemma_round_trip(self, s: EditState)
        requires
            self.valid_for(s),
        ensures
            self.revert(self.apply(s)) == s,
    {
        lemma_seq_round_trip(self.commands@, s);
    }
}

/// A recorded edit: a single command or a grouped composite.
pub enum EditCommand {
    Simple(SimpleCommand),
    Composite(CompositeCommand),
}

impl EditCommand {
    /// The bounds that make this edit executable.
    pub open spec fn wf(self) -> bool {
        match self {
            EditCommand::Simple(c) => c.wf(),
            EditCommand::Composite(c) => c.wf(),
        }
    }

    /// The state after executing this edit.
    pub open spec fn apply(self, s: EditState) -> EditState {
        match self {
            EditCommand::Simple(c) => c.apply(s),
            EditCommand::Composite(c) => c.apply(s),
        }
    }

    /// The state after undoing this edit.
    pub open spec fn revert(self, s: EditState) -> EditState {
        match self {
            EditCommand::Simple(c) => c.revert(s),
            EditCommand::Composite(c) => c.revert(s),
        }
    }

    /// The states from which executing and undoing this edit is an
    /// exact round trip.
    pub open spec fn valid_for(self, s: EditState) -> bool {
        match self {
            EditCommand::Simple(c) => c.valid_for(s),
            EditCommand::Composite(c) => c.valid_for(s),
        }
    }

    /// Executes this edit on the buffer and cursor.
    pub fn execute(&self, buffer: &mut TextBuffer, cursor: &mut (usize, usize))
        requires
            old(buffer).wf(),
            self.wf(),
        ensures
            final(buffer).wf(),
            state_of(final(buffer)@, *final(cursor)) == self.apply(
                state_of(old(buffer)@, *old(cursor)),
            ),
    {
        match self {
            EditCommand::Simple(c) => c.execute(buffer, cursor),
            EditCommand::Composite(c) => c.execute(buffer, cursor),
        }
    }

    /// Undoes this edit on the buffer and cursor.
    pub fn undo(&self, buffer: &mut TextBuffer, cursor: &mut (usize, usize))
        requires
            old(buffer).wf(),
            self.wf(),
        ensures
            final(buffer).wf(),
            state_of(final(buffer)@, *final(cursor)) == self.revert(
                state_of(old(buffer)@, *old(cursor)),
            ),
    {
        match self {
            EditCommand::Simple(c) => c.undo(buffer, cursor),
            EditCommand::Composite(c) => c.undo(buffer, cursor),
        }
    }

    /// Undoing after executing restores the starting state exactly.
    pub proof fn lemma_round_trip(self, s: EditState)
        requires
            self.valid_for(s),
        ensures
            self.revert(self.apply(s)) == s,
    {
        match self {
            EditCommand::Simple(c) => c.lemma_round_trip(s),
            EditCommand::Composite(c) => c.lemma_round_trip(s),
        }
    }

    /// Executing again after undoing reproduces the same state: replay
    /// is deterministic.
    pub proof fn lemma_replay(self, s: EditState)
        requires
            self.valid_for(s),
        ensures
            self.apply(self.revert(self.apply(s))) == self.apply(s),
    {
        self.lemma_round_trip(s);
    }
}

/// The state after executing a sequence of edits in order.
pub open spec fn edits_apply(cs: Seq<EditCommand>, s: EditState) -> EditState
    decreases cs.len(),
{
    if cs.len() == 0 {
        s
    } else {
        cs.last().apply(edits_apply(cs.drop_last(), s))
    }
}

/// The state after undoing a sequence of edits in reverse order.
pub open spec fn edits_revert(cs: Seq<EditCommand>, s: EditState) -> EditState
    decreases cs.len(),
{
    if cs.len() == 0 {
        s
    } else {
        cs.first().revert(edits_revert(cs.drop_first(), s))
    }
}

/// Whether each edit of a sequence is valid in the state left by the
/// edits before it.
pub open spec fn edits_valid(cs: Seq<EditCommand>, s: EditState) -> bool
    decreases cs.len(),
{
    if cs.len() == 0 {
        true
    } else {
        cs.first().valid_for(s) && edits_valid(cs.drop_first(), cs.first().apply(s))
    }
}

/// Executing a sequence of edits is executing the first and then the
/// rest; this restates the definition from the other end.
proof fn lemma_edits_apply_cons(cs: Seq<EditCommand>, s: EditState)
    requires
        cs.len() > 0,
    ensures
        edits_apply(cs, s) == edits_apply(cs.drop_first(), cs.first().apply(s)),
    decreases cs.len(),
{
    if cs.len() == 1 {
        assert(cs.drop_last() =~= Seq::<EditCommand>::empty());
        assert(cs.drop_first() =~= Seq::<EditCommand>::empty());
        assert(edits_apply(cs, s) == cs.last().apply(edits_apply(cs.drop_last(), s)));
        assert(edits_apply(cs.drop_last(), s) == s);
        assert(edits_apply(cs.drop_first(), cs.first().apply(s)) == cs.first().apply(s));
        assert(cs.first() == cs.last());
    } else {
        let ds = cs.drop_last();
        let d = cs.last();
        lemma_edits_apply_cons(ds, s);
        assert(cs.drop_first().drop_last() =~= ds.drop_first());
        assert(cs.drop_first().last() == d);
        assert(cs.drop_first().len() > 0);
        assert(ds.first() == cs.first());
        assert(edits_apply(cs, s) == d.apply(edits_apply(ds, s)));
        assert(edits_apply(cs.drop_first(), cs.first().apply(s)) == d.apply(
            edits_apply(ds.drop_first(), ds.first().apply(s)),
        ));
    }
}

/// Undoing a sequence of edits extended by one edit first undoes that
/// edit.
proof fn lemma_edits_revert_snoc(cs: Seq<EditCommand>, d: EditCommand, s: EditState)
    ensures
        edits_revert(cs.push(d), s) == edits_revert(cs, d.revert(s)),
    decreases cs.len(),
{
    if cs.len() == 0 {
        assert(cs.push(d).drop_first() =~= Seq::<EditCommand>::empty());
        assert(cs.push(d).first() == d);
        assert(edits_revert(cs.push(d), s) == cs.push(d).first().revert(edits_revert(cs.push(d).drop_first(), s)));
        assert(edits_revert(cs.push(d).drop_first(), s) == s);
        assert(edits_revert(cs, d.revert(s)) == d.revert(s));
    } else {
        assert(cs.push(d).drop_first() =~= cs.drop_first().push(d));
        assert(cs.push(d).first() == cs.first());
        lemma_edits_revert_snoc(cs.drop_first(), d, s);
        assert(edits_revert(cs.push(d), s) == cs.first().revert(edits_revert(cs.drop_first().push(d), s)));
        assert(edits_revert(cs, d.revert(s)) == cs.first().revert(edits_revert(cs.drop_first(), d.revert(s))));
    }
}

/// A valid sequence of edits extended by one edit splits into a valid
/// prefix and a final edit valid in the state the prefix leaves.
proof fn lemma_edits_valid_snoc(cs: Seq<EditCommand>, d: EditCommand, s: EditState)
    requires
        edits_valid(cs.push(d), s),
    ensures
        edits_valid(cs, s),
        d.valid_for(edits_apply(cs, s)),
    decreases cs.len(),
{
    if cs.len() == 0 {
        assert(cs.push(d).first() == d);
        assert(edits_apply(cs, s) == s);
    } else {
        assert(cs.push(d).first() == cs.first());
        assert(cs.push(d).drop_first() =~= cs.drop_first().push(d));
        lemma_edits_valid_snoc(cs.drop_first(), d, cs.first().apply(s));
        lemma_edits_apply_cons(cs, s);
    }
}

/// For any valid sequence of edits, undoing them all in reverse order
/// after executing them all restores buffer and cursor exactly.
pub proof fn lemma_edits_round_trip(cs: Seq<EditCommand>, s: EditState)
    requires
        edits_valid(cs, s),
    ensures
        edits_revert(cs, edits_apply(cs, s)) == s,
    decreases cs.len(),
{
    if cs.len() > 0 {
        let ds = cs.drop_last();
        let d = cs.last();
        assert(ds.push(d) =~= cs);
        lemma_edits_valid_snoc(ds, d, s);
        d.lemma_round_trip(edits_apply(ds, s));
        lemma_edits_revert_snoc(ds, d, edits_apply(cs, s));
        lemma_edits_round_trip(ds, s);
    }
}

} // verus!
