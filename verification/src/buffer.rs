//! Line-based text buffer.
//!
//! The document is an ordered sequence of lines, each a sequence of
//! Unicode scalar values, with at least one line even when empty.
//! Columns count characters, never bytes, so every position used by the
//! editing layer addresses whole characters.

use vstd::prelude::*;
use vstd::slice::{slice_subrange, slice_to_vec};

verus! {

/// Mathematical view of a buffer: the lines as sequences of characters.
pub open spec fn lines_view(v: Seq<Vec<char>>) -> Seq<Seq<char>> {
    Seq::new(v.len(), |i: int| v[i]@)
}

/// The line at index `l`, or the empty sequence when out of range.
pub open spec fn line_at(b: Seq<Seq<char>>, l: int) -> Seq<char> {
    if 0 <= l < b.len() {
        b[l]
    } else {
        Seq::empty()
    }
}

/// A column clamped to the length of a line, the way every mutating
/// operation resolves a column that lies past the end of its line.
pub open spec fn clamp_col(s: Seq<char>, c: int) -> int {
    if c <= s.len() {
        c
    } else {
        s.len() as int
    }
}

/// Result of inserting one character at `(l, c)`: out-of-range lines
/// leave the buffer unchanged, and the column is clamped to the line.
pub open spec fn spec_insert_char(b: Seq<Seq<char>>, l: int, c: int, ch: char) -> Seq<Seq<char>> {
    if 0 <= l < b.len() {
        b.update(l, b[l].insert(clamp_col(b[l], c), ch))
    } else {
        b
    }
}

/// Result of splitting line `l` at column `c` into two lines.
pub open spec fn spec_insert_newline(b: Seq<Seq<char>>, l: int, c: int) -> Seq<Seq<char>> {
    if 0 <= l < b.len() {
        b.update(l, b[l].take(clamp_col(b[l], c))).insert(l + 1, b[l].skip(clamp_col(b[l], c)))
    } else {
        b
    }
}

/// Whether a backspace at `(l, c)` merges line `l` into the previous line.
pub open spec fn spec_delete_char_merges(b: Seq<Seq<char>>, l: int, c: int) -> bool {
    c == 0 && 0 < l < b.len()
}

/// Result of a backspace at `(l, c)`: removes the character before `c`,
/// or merges line `l` into the line above when `c` is zero.
pub open spec fn spec_delete_char(b: Seq<Seq<char>>, l: int, c: int) -> Seq<Seq<char>> {
    if c > 0 {
        if 0 <= l < b.len() && c <= b[l].len() {
            b.update(l, b[l].remove(c - 1))
        } else {
            b
        }
    } else if 0 < l < b.len() {
        b.update(l - 1, b[l - 1] + b[l]).remove(l)
    } else {
        b
    }
}

/// Result of a delete at `(l, c)`: removes the character at `c`, or
/// merges the next line into line `l` when `c` is at the end of it.
pub open spec fn spec_delete_forward(b: Seq<Seq<char>>, l: int, c: int) -> Seq<Seq<char>> {
    if 0 <= l < b.len() {
        if c < b[l].len() {
            b.update(l, b[l].remove(c))
        } else if l + 1 < b.len() {
            b.update(l, b[l] + b[l + 1]).remove(l + 1)
        } else {
            b
        }
    } else {
        b
    }
}

/// Result of replacing `n` characters of line `l` from column `c` with
/// the text `t`; both ends of the replaced span are clamped to the line.
pub open spec fn spec_replace_range(
    b: Seq<Seq<char>>,
    l: int,
    c: int,
    n: int,
    t: Seq<char>,
) -> Seq<Seq<char>> {
    if 0 <= l < b.len() {
        b.update(l, b[l].take(clamp_col(b[l], c)) + t + b[l].skip(clamp_col(b[l], c + n)))
    } else {
        b
    }
}

/// A line with a trailing carriage return removed, as the line splitter
/// treats the two-character line break.
pub open spec fn strip_cr(s: Seq<char>) -> Seq<char> {
    if s.len() > 0 && s.last() == '\r' {
        s.drop_last()
    } else {
        s
    }
}

/// The lines of `s` from position `i` on, given the line built so far
/// and the lines already completed.
pub open spec fn lines_acc(
    s: Seq<char>,
    i: int,
    cur: Seq<char>,
    acc: Seq<Seq<char>>,
) -> Seq<Seq<char>>
    decreases s.len() - i,
{
    if i < 0 || i >= s.len() {
        if cur.len() > 0 {
            acc.push(cur)
        } else {
            acc
        }
    } else if s[i] == '\n' {
        lines_acc(s, i + 1, Seq::empty(), acc.push(strip_cr(cur)))
    } else {
        lines_acc(s, i + 1, cur.push(s[i]), acc)
    }
}

/// The buffer a given text produces: its lines, with line breaks
/// removed, a final line break producing no trailing empty line, and at
/// least one line even for empty text.
pub open spec fn spec_buffer_from(s: Seq<char>) -> Seq<Seq<char>> {
    let r = lines_acc(s, 0, Seq::empty(), Seq::empty());
    if r.len() == 0 {
        seq![Seq::<char>::empty()]
    } else {
        r
    }
}

/// The whole document as one text: the lines joined by line feeds, with
/// no trailing line feed.
pub open spec fn spec_join_lines(b: Seq<Seq<char>>) -> Seq<char>
    decreases b.len(),
{
    if b.len() == 0 {
        Seq::empty()
    } else if b.len() == 1 {
        b[0]
    } else {
        b[0] + seq!['\n'] + spec_join_lines(b.drop_first())
    }
}

/// Result of inserting a text, given as the parts it splits into at
/// line breaks, at `(l, c)`: the first part joins the head of line `l`,
/// the last part joins its tail, and the parts between become lines of
/// their own. An empty sequence of parts leaves the buffer unchanged.
pub open spec fn spec_insert_parts(
    b: Seq<Seq<char>>,
    l: int,
    c: int,
    parts: Seq<Seq<char>>,
) -> Seq<Seq<char>> {
    if parts.len() == 0 || !(0 <= l < b.len()) {
        b
    } else {
        let cc = clamp_col(b[l], c);
        if parts.len() == 1 {
            b.update(l, b[l].take(cc) + parts[0] + b[l].skip(cc))
        } else {
            b.take(l) + seq![b[l].take(cc) + parts[0]] + parts.subrange(1, parts.len() - 1)
                + seq![parts.last() + b[l].skip(cc)] + b.skip(l + 1)
        }
    }
}

/// The cursor position that follows the text inserted at `(l, c)`:
/// after the last character of the last part.
pub open spec fn spec_pos_after_insert(l: int, c: int, parts: Seq<Seq<char>>) -> (int, int) {
    if parts.len() == 0 {
        (l, c)
    } else if parts.len() == 1 {
        (l, c + parts[0].len())
    } else {
        (l + parts.len() - 1, parts.last().len() as int)
    }
}

/// Result of deleting the span from `(l0, c0)` to `(l1, c1)`: within
/// one line the span between the columns goes; across lines the tail of
/// the first line, the lines between, and the head of the last line go,
/// and the remainders of the two outer lines merge.
pub open spec fn spec_delete_range(
    b: Seq<Seq<char>>,
    l0: int,
    c0: int,
    l1: int,
    c1: int,
) -> Seq<Seq<char>> {
    if !(0 <= l0 <= l1 < b.len()) {
        b
    } else if l0 == l1 {
        let a = clamp_col(b[l0], c0);
        let e = clamp_col(b[l0], c1);
        if a <= e {
            b.update(l0, b[l0].take(a) + b[l0].skip(e))
        } else {
            b
        }
    } else {
        b.take(l0) + seq![b[l0].take(clamp_col(b[l0], c0)) + b[l1].skip(clamp_col(b[l1], c1))]
            + b.skip(l1 + 1)
    }
}

/// The text of the span from `(l0, c0)` to `(l1, c1)`, as the parts it
/// splits into at line breaks; exactly what `spec_delete_range` removes.
pub open spec fn spec_extract_parts(
    b: Seq<Seq<char>>,
    l0: int,
    c0: int,
    l1: int,
    c1: int,
) -> Seq<Seq<char>> {
    if !(0 <= l0 <= l1 < b.len()) {
        seq![Seq::<char>::empty()]
    } else if l0 == l1 {
        let a = clamp_col(b[l0], c0);
        let e = clamp_col(b[l0], c1);
        if a <= e {
            seq![b[l0].subrange(a, e)]
        } else {
            seq![Seq::<char>::empty()]
        }
    } else {
        seq![b[l0].skip(clamp_col(b[l0], c0))] + b.subrange(l0 + 1, l1) + seq![
            b[l1].take(clamp_col(b[l1], c1)),
        ]
    }
}

/// A line-based text buffer addressed by `(line, column)` positions
/// whose columns count characters.
#[derive(Debug, Clone)]
pub struct TextBuffer {
    lines: Vec<Vec<char>>,
}

impl View for TextBuffer {
    type V = Seq<Seq<char>>;

    closed spec fn view(&self) -> Seq<Seq<char>> {
        lines_view(self.lines@)
    }
}

/// Appends one character to a string.
///
/// Relies on `String::push`: it appends exactly the given character.
#[verifier::external_body]
pub(crate) fn push_char(s: &mut String, c: char)
    ensures
        final(s)@ == old(s)@.push(c),
{
    s.push(c);
}

impl TextBuffer {
    /// A buffer is well formed when it holds at least one line.
    pub open spec fn wf(&self) -> bool {
        self@.len() >= 1
    }

    /// Creates a buffer from initial text, splitting it into lines.
    pub fn new(content: &str) -> (r: TextBuffer)
        ensures
            r@ == spec_buffer_from(content@),
            r.wf(),
    {
        let ghost s = content@;
        let n = content.unicode_len();
        let mut lines: Vec<Vec<char>> = Vec::new();
        let mut cur: Vec<char> = Vec::new();
        let mut i: usize = 0;
        proof {
            assert(lines_view(lines@) =~~= Seq::<Seq<char>>::empty());
        }
        while i < n
            invariant
                s == content@,
                n == s.len(),
                0 <= i <= n,
                lines_acc(s, 0, Seq::empty(), Seq::empty()) == lines_acc(
                    s,
                    i as int,
                    cur@,
                    lines_view(lines@),
                ),
            decreases n - i,
        {
            let c = content.get_char(i);
            let ghost cur0 = cur@;
            let ghost acc0 = lines_view(lines@);
            if c == '\n' {
                if cur.len() > 0 && cur[cur.len() - 1] == '\r' {
                    cur.pop();
                }
                proof {
                    assert(cur@ =~= strip_cr(cur0));
                }
                lines.push(cur);
                proof {
                    assert(lines_view(lines@) =~~= acc0.push(strip_cr(cur0)));
                    assert(lines_acc(s, i as int, cur0, acc0) == lines_acc(
                        s,
                        i + 1,
                        Seq::empty(),
                        acc0.push(strip_cr(cur0)),
                    ));
                }
                cur = Vec::new();
            } else {
                cur.push(c);
                proof {
                    assert(lines_acc(s, i as int, cur0, acc0) == lines_acc(
                        s,
                        i + 1,
                        cur0.push(s[i as int]),
                        acc0,
                    ));
                }
            }
            i = i + 1;
        }
        let ghost acc1 = lines_view(lines@);
        if cur.len() > 0 {
            lines.push(cur);
            assert(lines_view(lines@) =~~= acc1.push(cur@));
        }
        if lines.len() == 0 {
            lines.push(Vec::new());
            assert(lines_view(lines@) =~~= seq![Seq::<char>::empty()]);
        }
        TextBuffer { lines }
    }

    /// Returns the number of lines in the buffer.
    pub fn line_count(&self) -> (r: usize)
        ensures
            r == self@.len(),
    {
        self.lines.len()
    }

    /// Returns the character count of line `line`, or zero when the
    /// index is out of range.
    pub fn line_len(&self, line: usize) -> (r: usize)
        ensures
            r == line_at(self@, line as int).len(),
    {
        if line < self.lines.len() {
            self.lines[line].len()
        } else {
            0
        }
    }

    /// Returns the content of line `index`, or empty text when the
    /// index is out of range.
    pub fn line(&self, index: usize) -> (r: String)
        ensures
            r@ == line_at(self@, index as int),
    {
        let mut out = String::new();
        if index >= self.lines.len() {
            return out;
        }
        let n = self.lines[index].len();
        let mut j: usize = 0;
        while j < n
            invariant
                index < self.lines@.len(),
                n == self.lines@[index as int]@.len(),
                0 <= j <= n,
                out@ == self.lines@[index as int]@.take(j as int),
            decreases n - j,
        {
            push_char(&mut out, self.lines[index][j]);
            j = j + 1;
        }
        assert(self.lines@[index as int]@.take(n as int) == self.lines@[index as int]@);
        out
    }

    /// Inserts one character at character offset `col` of line `line`;
    /// out-of-range lines are ignored and the column is clamped.
    pub fn insert_char(&mut self, line: usize, col: usize, ch: char)
        requires
            old(self).wf(),
        ensures
            final(self)@ == spec_insert_char(old(self)@, line as int, col as int, ch),
            final(self).wf(),
    {
        if line >= self.lines.len() {
            return ;
        }
        let ll = self.lines[line].len();
        let c = if col <= ll {
            col
        } else {
            ll
        };
        let mut s = self.lines.remove(line);
        s.insert(c, ch);
        self.lines.insert(line, s);
        proof {
            assert(self@ =~~= spec_insert_char(old(self)@, line as int, col as int, ch));
        }
    }

    /// Splits line `line` at character offset `col`; the tail becomes a
    /// new line immediately after it.
    pub fn insert_newline(&mut self, line: usize, col: usize)
        requires
            old(self).wf(),
        ensures
            final(self)@ == spec_insert_newline(old(self)@, line as int, col as int),
            final(self).wf(),
    {
        if line >= self.lines.len() {
            return ;
        }
        let ll = self.lines[line].len();
        let c = if col <= ll {
            col
        } else {
            ll
        };
        let mut s = self.lines.remove(line);
        let tail = s.split_off(c);
        self.lines.insert(line, s);
        self.lines.insert(line + 1, tail);
        proof {
            let b0 = old(self)@;
            let cc = clamp_col(b0[line as int], col as int);
            assert(s@ =~= b0[line as int].take(cc));
            assert(tail@ =~= b0[line as int].skip(cc));
            assert(self@ =~~= spec_insert_newline(b0, line as int, col as int));
        }
    }

    /// Backspace at `(line, col)`: removes the character before `col`,
    /// or merges line `line` into the previous line when `col` is zero.
    /// Returns whether a line merge occurred, so that the caller can
    /// move the cursor to the merge point.
    pub fn delete_char(&mut self, line: usize, col: usize) -> (merged: bool)
        requires
            old(self).wf(),
        ensures
            final(self)@ == spec_delete_char(old(self)@, line as int, col as int),
            merged == spec_delete_char_merges(old(self)@, line as int, col as int),
            final(self).wf(),
    {
        if col > 0 {
            if line < self.lines.len() && col <= self.lines[line].len() {
                let mut s = self.lines.remove(line);
                s.remove(col - 1);
                self.lines.insert(line, s);
                proof {
                    assert(self@ =~~= spec_delete_char(old(self)@, line as int, col as int));
                }
            }
            false
        } else if line > 0 && line < self.lines.len() {
            let mut cur = self.lines.remove(line);
            let mut prev = self.lines.remove(line - 1);
            prev.append(&mut cur);
            self.lines.insert(line - 1, prev);
            proof {
                let b0 = old(self)@;
                assert(self@ =~= b0.update(line - 1, b0[line - 1] + b0[line as int]).remove(
                    line as int,
                ));
            }
            true
        } else {
            false
        }
    }

    /// Delete at `(line, col)`: removes the character at `col`, or
    /// merges the next line into line `line` when `col` is at or past
    /// the end of it.
    pub fn delete_forward(&mut self, line: usize, col: usize)
        requires
            old(self).wf(),
        ensures
            final(self)@ == spec_delete_forward(old(self)@, line as int, col as int),
            final(self).wf(),
    {
        if line >= self.lines.len() {
            return ;
        }
        if col < self.lines[line].len() {
            let mut s = self.lines.remove(line);
            s.remove(col);
            self.lines.insert(line, s);
            proof {
                assert(self@ =~~= spec_delete_forward(old(self)@, line as int, col as int));
            }
        } else if line + 1 < self.lines.len() {
            let mut next = self.lines.remove(line + 1);
            let mut cur = self.lines.remove(line);
            cur.append(&mut next);
            self.lines.insert(line, cur);
            proof {
                let b0 = old(self)@;
                assert(self@ =~= b0.update(line as int, b0[line as int] + b0[line + 1]).remove(
                    line + 1,
                ));
            }
        }
    }

    /// Replaces `length` characters of line `line`, starting at
    /// character offset `col_start`, with `new_text`; single-line only.
    pub fn replace_range(&mut self, line: usize, col_start: usize, length: usize, new_text: &str)
        requires
            old(self).wf(),
        ensures
            final(self)@ == spec_replace_range(
                old(self)@,
                line as int,
                col_start as int,
                length as int,
                new_text@,
            ),
            final(self).wf(),
    {
        if line >= self.lines.len() {
            return ;
        }
        let ll = self.lines[line].len();
        let c0 = if col_start <= ll {
            col_start
        } else {
            ll
        };
        let span = if length <= ll - c0 {
            length
        } else {
            ll - c0
        };
        let mut s = self.lines.remove(line);
        proof {
            assert(s@ == old(self)@[line as int]);
        }
        let mut tail = s.split_off(c0 + span);
        let ghost l0 = old(self)@[line as int];
        proof {
            assert(tail@ =~= l0.skip(clamp_col(l0, col_start + length)));
        }
        s.truncate(c0);
        proof {
            assert(s@ =~= l0.take(c0 as int));
            assert(s@ =~= l0.take(c0 as int) + new_text@.take(0));
        }
        let n = new_text.unicode_len();
        let mut j: usize = 0;
        while j < n
            invariant
                line < old(self)@.len(),
                c0 <= old(self)@[line as int].len(),
                n == new_text@.len(),
                0 <= j <= n,
                s@ == old(self)@[line as int].take(c0 as int) + new_text@.take(j as int),
            decreases n - j,
        {
            s.push(new_text.get_char(j));
            j = j + 1;
        }
        let ghost tail0 = tail@;
        s.append(&mut tail);
        proof {
            assert(new_text@.take(n as int) =~= new_text@);
            assert(s@ == l0.take(c0 as int) + new_text@ + tail0);
        }
        self.lines.insert(line, s);
        proof {
            let b0 = old(self)@;
            assert(self@ =~~= spec_replace_range(
                b0,
                line as int,
                col_start as int,
                length as int,
                new_text@,
            ));
        }
    }

    /// Returns the characters of line `line`, or an empty vector when
    /// the index is out of range.
    pub fn line_chars(&self, line: usize) -> (r: Vec<char>)
        ensures
            r@ == line_at(self@, line as int),
    {
        if line < self.lines.len() {
            slice_to_vec(self.lines[line].as_slice())
        } else {
            Vec::new()
        }
    }

    /// Returns the character at `(line, col)`, if that position holds
    /// one.
    pub fn char_at(&self, line: usize, col: usize) -> (r: Option<char>)
        ensures
            r == if line < self@.len() && col < line_at(self@, line as int).len() {
                Some(line_at(self@, line as int)[col as int])
            } else {
                None::<char>
            },
    {
        if line < self.lines.len() && col < self.lines[line].len() {
            Some(self.lines[line][col])
        } else {
            None
        }
    }

    /// Inserts a text, given as the parts it splits into at line
    /// breaks, at `(line, col)`.
    pub fn insert_parts(&mut self, line: usize, col: usize, parts: &Vec<Vec<char>>)
        requires
            old(self).wf(),
            line < old(self)@.len() ==> line + parts@.len() <= usize::MAX,
        ensures
            final(self)@ == spec_insert_parts(old(self)@, line as int, col as int, lines_view(parts@)),
            final(self).wf(),
    {
        let ghost b0 = self@;
        let ghost pv = lines_view(parts@);
        if parts.len() == 0 || line >= self.lines.len() {
            return ;
        }
        let mut rest = self.lines.split_off(line + 1);
        let mut s = self.lines.pop().unwrap();
        proof {
            assert(s@ == b0[line as int]);
            assert(lines_view(self.lines@) =~~= b0.take(line as int));
            assert(lines_view(rest@) =~~= b0.skip(line + 1));
        }
        let ll = s.len();
        let cc = if col <= ll {
            col
        } else {
            ll
        };
        let mut tail = s.split_off(cc);
        proof {
            assert(s@ =~= b0[line as int].take(clamp_col(b0[line as int], col as int)));
            assert(tail@ =~= b0[line as int].skip(clamp_col(b0[line as int], col as int)));
        }
        let m = parts.len();
        if m == 1 {
            let mut mid = slice_to_vec(parts[0].as_slice());
            s.append(&mut mid);
            s.append(&mut tail);
            let ghost sfull = s@;
            self.lines.push(s);
            proof {
                assert(lines_view(self.lines@) =~~= b0.take(line as int).push(sfull));
            }
        } else {
            let mut first = slice_to_vec(parts[0].as_slice());
            s.append(&mut first);
            self.lines.push(s);
            let ghost base = b0.take(line as int) + seq![
                b0[line as int].take(clamp_col(b0[line as int], col as int)) + pv[0],
            ];
            proof {
                assert(lines_view(self.lines@) =~~= base);
            }
            let mut k: usize = 1;
            while k < m - 1
                invariant
                    1 <= k <= m - 1,
                    m == parts@.len(),
                    line + m <= usize::MAX,
                    pv == lines_view(parts@),
                    lines_view(self.lines@) =~~= base + pv.subrange(1, k as int),
                decreases m - k,
            {
                let ghost v0 = lines_view(self.lines@);
                self.lines.push(slice_to_vec(parts[k].as_slice()));
                proof {
                    assert(lines_view(self.lines@) =~~= v0.push(pv[k as int]));
                    assert(pv.subrange(1, k + 1) =~~= pv.subrange(1, k as int).push(
                        pv[k as int],
                    ));
                    assert(lines_view(self.lines@) =~~= base + pv.subrange(1, k + 1));
                }
                k = k + 1;
            }
            let mut lastline = slice_to_vec(parts[m - 1].as_slice());
            lastline.append(&mut tail);
            let ghost v1 = lines_view(self.lines@);
            self.lines.push(lastline);
            proof {
                assert(lines_view(self.lines@) =~~= v1.push(
                    pv.last() + b0[line as int].skip(clamp_col(b0[line as int], col as int)),
                ));
            }
        }
        let ghost v2 = lines_view(self.lines@);
        self.lines.append(&mut rest);
        proof {
            assert(lines_view(self.lines@) =~~= v2 + b0.skip(line + 1));
            assert(self@ =~~= spec_insert_parts(b0, line as int, col as int, pv));
        }
    }

    /// Deletes the span from `start` to `end`, both `(line, column)`
    /// positions with `start` at or before `end` in document order.
    pub fn delete_range(&mut self, start: (usize, usize), end: (usize, usize))
        requires
            old(self).wf(),
        ensures
            final(self)@ == spec_delete_range(
                old(self)@,
                start.0 as int,
                start.1 as int,
                end.0 as int,
                end.1 as int,
            ),
            final(self).wf(),
    {
        let ghost b0 = self@;
        let (l0, c0) = start;
        let (l1, c1) = end;
        if !(l0 <= l1 && l1 < self.lines.len()) {
            return ;
        }
        if l0 == l1 {
            let ll = self.lines[l0].len();
            let a = if c0 <= ll {
                c0
            } else {
                ll
            };
            let e = if c1 <= ll {
                c1
            } else {
                ll
            };
            if a <= e {
                let mut s = self.lines.remove(l0);
                let mut tail = s.split_off(e);
                s.truncate(a);
                s.append(&mut tail);
                self.lines.insert(l0, s);
                proof {
                    assert(self@ =~~= spec_delete_range(
                        b0,
                        l0 as int,
                        c0 as int,
                        l1 as int,
                        c1 as int,
                    ));
                }
            }
        } else {
            let mut rest = self.lines.split_off(l1 + 1);
            let mut lastline = self.lines.pop().unwrap();
            self.lines.truncate(l0 + 1);
            let mut head = self.lines.pop().unwrap();
            proof {
                assert(lastline@ == b0[l1 as int]);
                assert(head@ == b0[l0 as int]);
                assert(lines_view(self.lines@) =~~= b0.take(l0 as int));
                assert(lines_view(rest@) =~~= b0.skip(l1 + 1));
            }
            let a = if c0 <= head.len() {
                c0
            } else {
                head.len()
            };
            let e = if c1 <= lastline.len() {
                c1
            } else {
                lastline.len()
            };
            head.truncate(a);
            let mut tail = lastline.split_off(e);
            head.append(&mut tail);
            proof {
                assert(head@ =~= b0[l0 as int].take(clamp_col(b0[l0 as int], c0 as int))
                    + b0[l1 as int].skip(clamp_col(b0[l1 as int], c1 as int)));
            }
            let ghost hfull = head@;
            self.lines.push(head);
            proof {
                assert(lines_view(self.lines@) =~~= b0.take(l0 as int).push(hfull));
            }
            let ghost v2 = lines_view(self.lines@);
            self.lines.append(&mut rest);
            proof {
                assert(lines_view(self.lines@) =~~= v2 + b0.skip(l1 + 1));
                assert(self@ =~~= spec_delete_range(
                    b0,
                    l0 as int,
                    c0 as int,
                    l1 as int,
                    c1 as int,
                ));
            }
        }
    }

    /// Returns the text of the span from `start` to `end`, as the parts
    /// it splits into at line breaks.
    pub fn range_parts(&self, start: (usize, usize), end: (usize, usize)) -> (r: Vec<Vec<char>>)
        requires
            self.wf(),
        ensures
            lines_view(r@) == spec_extract_parts(
                self@,
                start.0 as int,
                start.1 as int,
                end.0 as int,
                end.1 as int,
            ),
    {
        let (l0, c0) = start;
        let (l1, c1) = end;
        let mut r: Vec<Vec<char>> = Vec::new();
        if !(l0 <= l1 && l1 < self.lines.len()) {
            r.push(Vec::new());
            proof {
                assert(lines_view(r@) =~~= seq![Seq::<char>::empty()]);
            }
            return r;
        }
        if l0 == l1 {
            let ll = self.lines[l0].len();
            let a = if c0 <= ll {
                c0
            } else {
                ll
            };
            let e = if c1 <= ll {
                c1
            } else {
                ll
            };
            if a <= e {
                r.push(slice_to_vec(slice_subrange(self.lines[l0].as_slice(), a, e)));
            } else {
                r.push(Vec::new());
            }
            proof {
                assert(lines_view(r@) =~~= spec_extract_parts(
                    self@,
                    l0 as int,
                    c0 as int,
                    l1 as int,
                    c1 as int,
                ));
            }
        } else {
            let ll0 = self.lines[l0].len();
            let a = if c0 <= ll0 {
                c0
            } else {
                ll0
            };
            r.push(slice_to_vec(slice_subrange(self.lines[l0].as_slice(), a, ll0)));
            let mut k: usize = l0 + 1;
            while k < l1
                invariant
                    l0 < l1 < self.lines@.len(),
                    self.wf(),
                    l0 + 1 <= k <= l1,
                    r@.len() == k - l0,
                    lines_view(r@) =~~= seq![
                        self@[l0 as int].skip(clamp_col(self@[l0 as int], c0 as int)),
                    ] + self@.subrange(l0 + 1, k as int),
                decreases l1 - k,
            {
                let ghost rv0 = lines_view(r@);
                r.push(slice_to_vec(self.lines[k].as_slice()));
                proof {
                    assert(lines_view(r@) =~~= rv0.push(self@[k as int]));
                    assert(self@.subrange(l0 + 1, k + 1) =~~= self@.subrange(l0 + 1, k as int).push(
                        self@[k as int],
                    ));
                    assert(lines_view(r@) =~~= seq![
                        self@[l0 as int].skip(clamp_col(self@[l0 as int], c0 as int)),
                    ] + self@.subrange(l0 + 1, k + 1));
                }
                k = k + 1;
            }
            let ll1 = self.lines[l1].len();
            let e = if c1 <= ll1 {
                c1
            } else {
                ll1
            };
            r.push(slice_to_vec(slice_subrange(self.lines[l1].as_slice(), 0, e)));
            proof {
                assert(lines_view(r@) =~~= spec_extract_parts(
                    self@,
                    l0 as int,
                    c0 as int,
                    l1 as int,
                    c1 as int,
                ));
            }
        }
        r
    }

    /// Returns the whole document as one text, the lines joined by line
    /// feeds with no trailing line feed.
    pub fn to_string(&self) -> (r: String)
        requires
            self.wf(),
        ensures
            r@ == spec_join_lines(self@),
    {
        let mut out = String::new();
        let n = self.lines.len();
        let mut i: usize = 0;
        proof {
            assert(self@.skip(0) =~= self@);
            assert(out@ + spec_join_lines(self@) =~= spec_join_lines(self@));
        }
        while i < n
            invariant
                self.wf(),
                n == self@.len(),
                0 <= i <= n,
                i < n ==> spec_join_lines(self@) == out@ + spec_join_lines(self@.skip(i as int)),
                i == n ==> spec_join_lines(self@) == out@,
            decreases n - i,
        {
            let m = self.lines[i].len();
            let mut j: usize = 0;
            let ghost out0 = out@;
            while j < m
                invariant
                    i < self.lines@.len(),
                    m == self.lines@[i as int]@.len(),
                    0 <= j <= m,
                    out@ == out0 + self.lines@[i as int]@.take(j as int),
                decreases m - j,
            {
                push_char(&mut out, self.lines[i][j]);
                j = j + 1;
            }
            proof {
                assert(self.lines@[i as int]@.take(m as int) == self@[i as int]);
                assert(out@ == out0 + self@[i as int]);
            }
            if i + 1 < n {
                push_char(&mut out, '\n');
                proof {
                    let rest = self@.skip(i as int);
                    assert(rest[0] == self@[i as int]);
                    assert(rest.drop_first() =~= self@.skip(i + 1));
                    assert(spec_join_lines(rest) == rest[0] + seq!['\n'] + spec_join_lines(
                        rest.drop_first(),
                    ));
                    assert(out@ =~= out0 + self@[i as int] + seq!['\n']);
                }
            } else {
                proof {
                    let rest = self@.skip(i as int);
                    assert(rest.len() == 1);
                    assert(rest[0] == self@[i as int]);
                    assert(spec_join_lines(rest) == rest[0]);
                }
            }
            i = i + 1;
        }
        out
    }
}

} // verus!
