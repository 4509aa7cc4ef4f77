//! Editor state: buffer, cursor and selection.
//!
//! Resolves the host's high-level intents - typing, deletion, cursor
//! movement, selection and paste - against the text buffer, keeping
//! the cursor clamped and the selection normalized.

use crate::buffer::TextBuffer;
use crate::buffer::line_at;
use crate::buffer::lines_view;
use crate::buffer::push_char;
use crate::buffer::spec_buffer_from;
use crate::buffer::spec_delete_char;
use crate::buffer::spec_delete_char_merges;
use crate::buffer::spec_delete_forward;
use crate::buffer::spec_delete_range;
use crate::buffer::spec_extract_parts;
use crate::buffer::spec_insert_char;
use crate::buffer::spec_insert_newline;
use crate::buffer::spec_insert_parts;
use crate::buffer::spec_join_lines;
use crate::buffer::spec_pos_after_insert;
use crate::command::InsertTextCommand;
use crate::command::spec_split_parts;
use vstd::prelude::*;

verus! {

/// Arrow key directions.
#[derive(Debug, Clone, Copy)]
pub enum ArrowDirection {
    Up,
    Down,
    Left,
    Right,
}

/// High-level intents the host translates key events into. Mouse
/// positions, clipboard transport and timers stay with the host; a
/// paste arrives here with its text already resolved.
#[derive(Debug, Clone)]
pub enum CanvasEditorMessage {
    /// Character typed.
    CharacterInput(char),
    /// Backspace pressed.
    Backspace,
    /// Delete pressed.
    Delete,
    /// Enter pressed.
    Enter,
    /// Arrow key pressed, with whether selection is being extended.
    ArrowKey(ArrowDirection, bool),
    /// Text pasted at the cursor.
    Paste(String),
    /// Page Up pressed.
    PageUp,
    /// Page Down pressed.
    PageDown,
    /// Home key pressed, with whether selection is being extended.
    Home(bool),
    /// End key pressed, with whether selection is being extended.
    End(bool),
}

/// The cursor after an arrow movement: vertical moves keep the column
/// clamped to the target line, horizontal moves wrap across line ends,
/// and movement at a document boundary stands still.
pub open spec fn spec_move_cursor(
    b: Seq<Seq<char>>,
    c: (usize, usize),
    dir: ArrowDirection,
) -> (int, int) {
    match dir {
        ArrowDirection::Up => if c.0 > 0 {
            (
                c.0 - 1,
                if c.1 <= line_at(b, c.0 - 1).len() {
                    c.1 as int
                } else {
                    line_at(b, c.0 - 1).len() as int
                },
            )
        } else {
            (c.0 as int, c.1 as int)
        },
        ArrowDirection::Down => if c.0 + 1 < b.len() {
            (
                c.0 + 1,
                if c.1 <= line_at(b, c.0 + 1).len() {
                    c.1 as int
                } else {
                    line_at(b, c.0 + 1).len() as int
                },
            )
        } else {
            (c.0 as int, c.1 as int)
        },
        ArrowDirection::Left => if c.1 > 0 {
            (c.0 as int, c.1 - 1)
        } else if c.0 > 0 {
            (c.0 - 1, line_at(b, c.0 - 1).len() as int)
        } else {
            (c.0 as int, c.1 as int)
        },
        ArrowDirection::Right => if (c.1 as int) < line_at(b, c.0 as int).len() {
            (c.0 as int, c.1 + 1)
        } else if c.0 + 1 < b.len() {
            (c.0 + 1, 0)
        } else {
            (c.0 as int, c.1 as int)
        },
    }
}

/// The cursor after a page movement of `lines` lines, clamped to the
/// document, with the column clamped to the target line.
pub open spec fn spec_page_cursor(
    b: Seq<Seq<char>>,
    c: (usize, usize),
    lines: int,
    down: bool,
) -> (int, int) {
    let nl = if down {
        if c.0 + lines < b.len() - 1 {
            c.0 + lines
        } else {
            b.len() - 1
        }
    } else {
        if c.0 >= lines {
            c.0 - lines
        } else {
            0
        }
    };
    (
        nl,
        if c.1 <= line_at(b, nl).len() {
            c.1 as int
        } else {
            line_at(b, nl).len() as int
        },
    )
}

/// A selection's endpoints in document order: the earlier position
/// first, whichever endpoint the user dragged.
pub open spec fn spec_selection_range(a: (usize, usize), b: (usize, usize)) -> (
    (usize, usize),
    (usize, usize),
) {
    if a.0 < b.0 || (a.0 == b.0 && a.1 < b.1) {
        (a, b)
    } else {
        (b, a)
    }
}

/// Normalizing a selection does not depend on which endpoint was
/// dragged: both orders of the same endpoints give the same range.
pub proof fn lemma_selection_normalization(a: (usize, usize), b: (usize, usize))
    ensures
        spec_selection_range(a, b) == spec_selection_range(b, a),
{
}

/// Where a paste lands: at the start of a non-empty selection, which
/// it replaces, else at the cursor.
pub open spec fn spec_paste_origin(s: CanvasEditor) -> (usize, usize) {
    match (s.selection_start, s.selection_end) {
        (Some(a), Some(e)) => if a != e {
            spec_selection_range(a, e).0
        } else {
            s.cursor
        },
        _ => s.cursor,
    }
}

/// The buffer a paste inserts into: the one left after a non-empty
/// selection is deleted.
pub open spec fn spec_paste_base(s: CanvasEditor) -> Seq<Seq<char>> {
    match (s.selection_start, s.selection_end) {
        (Some(a), Some(e)) => if a != e {
            let r = spec_selection_range(a, e);
            spec_delete_range(
                s.buffer@,
                r.0.0 as int,
                r.0.1 as int,
                r.1.0 as int,
                r.1.1 as int,
            )
        } else {
            s.buffer@
        },
        _ => s.buffer@,
    }
}

/// Editor state: the text buffer, the caret, and an optional
/// selection held as its two endpoints.
pub struct CanvasEditor {
    /// The document being edited.
    pub buffer: TextBuffer,
    /// Cursor position as `(line, column)`.
    pub cursor: (usize, usize),
    /// Selection anchor, if a selection is being made.
    pub selection_start: Option<(usize, usize)>,
    /// Selection's moving end, if a selection is being made.
    pub selection_end: Option<(usize, usize)>,
    /// Syntax name handed to the highlighting collaborator.
    pub syntax: String,
    /// Viewport height in pixels, for page movement.
    pub viewport_height: usize,
}

/// Pixel height of one line, for page movement.
pub const EDITOR_LINE_HEIGHT: usize = 20;

impl CanvasEditor {
    /// An editor is well formed when its buffer is.
    pub open spec fn wf(&self) -> bool {
        self.buffer.wf()
    }

    /// Creates an editor over the given content.
    pub fn new(content: &str, syntax: &str) -> (r: CanvasEditor)
        ensures
            r.buffer@ == spec_buffer_from(content@),
            r.cursor == (0usize, 0usize),
            r.selection_start is None,
            r.selection_end is None,
            r.syntax@ == syntax@,
            r.viewport_height == 600,
            r.wf(),
    {
        CanvasEditor {
            buffer: TextBuffer::new(content),
            cursor: (0, 0),
            selection_start: None,
            selection_end: None,
            syntax: syntax.to_owned(),
            viewport_height: 600,
        }
    }

    /// Returns the current text content as one string.
    pub fn content(&self) -> (r: String)
        requires
            self.wf(),
        ensures
            r@ == spec_join_lines(self.buffer@),
    {
        self.buffer.to_string()
    }

    /// Moves the cursor one step in the given direction.
    pub fn move_cursor(&mut self, direction: ArrowDirection)
        requires
            old(self).wf(),
        ensures
            final(self).buffer == old(self).buffer,
            final(self).selection_start == old(self).selection_start,
            final(self).selection_end == old(self).selection_end,
            final(self).syntax == old(self).syntax,
            final(self).viewport_height == old(self).viewport_height,
            final(self).cursor.0 as int == spec_move_cursor(
                old(self).buffer@,
                old(self).cursor,
                direction,
            ).0,
            final(self).cursor.1 as int == spec_move_cursor(
                old(self).buffer@,
                old(self).cursor,
                direction,
            ).1,
    {
        let (line, col) = self.cursor;
        let count = self.buffer.line_count();
        match direction {
            ArrowDirection::Up => {
                if line > 0 {
                    let ll = self.buffer.line_len(line - 1);
                    self.cursor = (line - 1, if col <= ll {
                        col
                    } else {
                        ll
                    });
                }
            },
            ArrowDirection::Down => {
                if line < count - 1 {
                    let ll = self.buffer.line_len(line + 1);
                    self.cursor = (line + 1, if col <= ll {
                        col
                    } else {
                        ll
                    });
                }
            },
            ArrowDirection::Left => {
                if col > 0 {
                    self.cursor = (line, col - 1);
                } else if line > 0 {
                    let ll = self.buffer.line_len(line - 1);
                    self.cursor = (line - 1, ll);
                }
            },
            ArrowDirection::Right => {
                let ll = self.buffer.line_len(line);
                if col < ll {
                    self.cursor = (line, col + 1);
                } else if line < count - 1 {
                    self.cursor = (line + 1, 0);
                }
            },
        }
    }

    /// Moves the cursor one page up.
    pub fn page_up(&mut self)
        requires
            old(self).wf(),
        ensures
            final(self).buffer == old(self).buffer,
            final(self).selection_start == old(self).selection_start,
            final(self).selection_end == old(self).selection_end,
            final(self).syntax == old(self).syntax,
            final(self).viewport_height == old(self).viewport_height,
            final(self).cursor.0 as int == spec_page_cursor(
                old(self).buffer@,
                old(self).cursor,
                old(self).viewport_height as int / EDITOR_LINE_HEIGHT as int,
                false,
            ).0,
            final(self).cursor.1 as int == spec_page_cursor(
                old(self).buffer@,
                old(self).cursor,
                old(self).viewport_height as int / EDITOR_LINE_HEIGHT as int,
                false,
            ).1,
    {
        let lines_per_page = self.viewport_height / EDITOR_LINE_HEIGHT;
        let (line, col) = self.cursor;
        let nl = if line >= lines_per_page {
            line - lines_per_page
        } else {
            0
        };
        let ll = self.buffer.line_len(nl);
        self.cursor = (nl, if col <= ll {
            col
        } else {
            ll
        });
    }

    /// Moves the cursor one page down.
    pub fn page_down(&mut self)
        requires
            old(self).wf(),
        ensures
            final(self).buffer == old(self).buffer,
            final(self).selection_start == old(self).selection_start,
            final(self).selection_end == old(self).selection_end,
            final(self).syntax == old(self).syntax,
            final(self).viewport_height == old(self).viewport_height,
            final(self).cursor.0 as int == spec_page_cursor(
                old(self).buffer@,
                old(self).cursor,
                old(self).viewport_height as int / EDITOR_LINE_HEIGHT as int,
                true,
            ).0,
            final(self).cursor.1 as int == spec_page_cursor(
                old(self).buffer@,
                old(self).cursor,
                old(self).viewport_height as int / EDITOR_LINE_HEIGHT as int,
                true,
            ).1,
    {
        let lines_per_page = self.viewport_height / EDITOR_LINE_HEIGHT;
        let (line, col) = self.cursor;
        let max_line = self.buffer.line_count() - 1;
        let nl = if line >= max_line {
            max_line
        } else if lines_per_page >= max_line - line {
            max_line
        } else {
            line + lines_per_page
        };
        let ll = self.buffer.line_len(nl);
        self.cursor = (nl, if col <= ll {
            col
        } else {
            ll
        });
    }

    /// Clears the current selection.
    pub fn clear_selection(&mut self)
        ensures
            *final(self) == (CanvasEditor {
                selection_start: None,
                selection_end: None,
                ..*old(self)
            }),
    {
        self.selection_start = None;
        self.selection_end = None;
    }

    /// Returns the selected range in document order, the earlier
    /// endpoint first, whichever endpoint the user dragged.
    pub fn get_selection_range(&self) -> (r: Option<((usize, usize), (usize, usize))>)
        ensures
            r == match (self.selection_start, self.selection_end) {
                (Some(a), Some(e)) => Some(spec_selection_range(a, e)),
                _ => None::<((usize, usize), (usize, usize))>,
            },
    {
        match (self.selection_start, self.selection_end) {
            (Some(a), Some(e)) => {
                if a.0 < e.0 || (a.0 == e.0 && a.1 < e.1) {
                    Some((a, e))
                } else {
                    Some((e, a))
                }
            },
            _ => None,
        }
    }

    /// Returns the selected text, line breaks included, or nothing
    /// when no non-empty selection exists.
    pub fn get_selected_text(&self) -> (r: Option<String>)
        requires
            self.wf(),
        ensures
            match (self.selection_start, self.selection_end) {
                (Some(a), Some(e)) => if a == e {
                    r is None
                } else {
                    let range = spec_selection_range(a, e);
                    &&& r is Some
                    &&& r->Some_0@ == spec_join_lines(
                        spec_extract_parts(
                            self.buffer@,
                            range.0.0 as int,
                            range.0.1 as int,
                            range.1.0 as int,
                            range.1.1 as int,
                        ),
                    )
                },
                _ => r is None,
            },
    {
        let range = self.get_selection_range();
        match range {
            Some((start, end)) => {
                if start.0 == end.0 && start.1 == end.1 {
                    return None;
                }
                let parts = self.buffer.range_parts(start, end);
                proof {
                    assert(lines_view(parts@).len() == parts@.len());
                }
                Some(join_parts(&parts))
            },
            None => None,
        }
    }

    /// Deletes the selected text: the cursor moves to the selection's
    /// start and the selection is cleared. Without a non-empty
    /// selection nothing changes.
    pub fn delete_selection(&mut self)
        requires
            old(self).wf(),
        ensures
            final(self).wf(),
            final(self).syntax == old(self).syntax,
            final(self).viewport_height == old(self).viewport_height,
            match (old(self).selection_start, old(self).selection_end) {
                (Some(a), Some(e)) => if a == e {
                    *final(self) == *old(self)
                } else {
                    let range = spec_selection_range(a, e);
                    &&& final(self).buffer@ == spec_delete_range(
                        old(self).buffer@,
                        range.0.0 as int,
                        range.0.1 as int,
                        range.1.0 as int,
                        range.1.1 as int,
                    )
                    &&& final(self).cursor == range.0
                    &&& final(self).selection_start is None
                    &&& final(self).selection_end is None
                },
                _ => *final(self) == *old(self),
            },
    {
        let range = self.get_selection_range();
        if let Some((start, end)) = range {
            if start.0 == end.0 && start.1 == end.1 {
                return ;
            }
            self.buffer.delete_range(start, end);
            self.cursor = start;
            self.selection_start = None;
            self.selection_end = None;
        }
    }

    /// Pastes text at the cursor, first deleting any non-empty
    /// selection; the cursor ends after the last pasted character.
    pub fn paste_text(&mut self, text: &str)
        requires
            old(self).wf(),
            spec_paste_origin(*old(self)).0 + text@.len() < usize::MAX,
            spec_paste_origin(*old(self)).1 + text@.len() <= usize::MAX,
        ensures
            final(self).wf(),
            final(self).syntax == old(self).syntax,
            final(self).viewport_height == old(self).viewport_height,
            ({
                let origin = spec_paste_origin(*old(self));
                let base = spec_paste_base(*old(self));
                let parts = spec_split_parts(text@);
                &&& final(self).buffer@ == spec_insert_parts(
                    base,
                    origin.0 as int,
                    origin.1 as int,
                    parts,
                )
                &&& final(self).cursor.0 as int == spec_pos_after_insert(
                    origin.0 as int,
                    origin.1 as int,
                    parts,
                ).0
                &&& final(self).cursor.1 as int == spec_pos_after_insert(
                    origin.0 as int,
                    origin.1 as int,
                    parts,
                ).1
            }),
    {
        self.delete_selection();
        let (line, col) = self.cursor;
        let cmd = InsertTextCommand::new(line, col, text.to_owned(), self.cursor);
        let mut cur = self.cursor;
        cmd.execute(&mut self.buffer, &mut cur);
        self.cursor = cur;
    }

    /// Resolves one intent against the editor state: typing and
    /// deletion mutate the buffer at the cursor, movement with the
    /// extend modifier grows a selection from the pre-move cursor,
    /// movement without it clears the selection.
    pub fn update(&mut self, message: &CanvasEditorMessage)
        requires
            old(self).wf(),
            message matches CanvasEditorMessage::CharacterInput(_) ==> old(self).cursor.1
                < usize::MAX,
            message matches CanvasEditorMessage::Enter ==> old(self).cursor.0 < usize::MAX,
            message matches CanvasEditorMessage::Paste(t) ==> spec_paste_origin(*old(self)).0
                + t@.len() < usize::MAX && spec_paste_origin(*old(self)).1 + t@.len()
                <= usize::MAX,
        ensures
            final(self).wf(),
            final(self).syntax == old(self).syntax,
            final(self).viewport_height == old(self).viewport_height,
            match *message {
                CanvasEditorMessage::CharacterInput(ch) => {
                    &&& final(self).buffer@ == spec_insert_char(
                        old(self).buffer@,
                        old(self).cursor.0 as int,
                        old(self).cursor.1 as int,
                        ch,
                    )
                    &&& final(self).cursor.0 == old(self).cursor.0
                    &&& final(self).cursor.1 == old(self).cursor.1 + 1
                    &&& final(self).selection_start == old(self).selection_start
                    &&& final(self).selection_end == old(self).selection_end
                },
                CanvasEditorMessage::Backspace => {
                    let b = old(self).buffer@;
                    let (line, col) = old(self).cursor;
                    &&& final(self).buffer@ == spec_delete_char(b, line as int, col as int)
                    &&& if spec_delete_char_merges(b, line as int, col as int) {
                        final(self).cursor.0 as int == line - 1 && final(self).cursor.1 as int
                            == b[line - 1].len()
                    } else if col > 0 {
                        final(self).cursor == (line, (col - 1) as usize)
                    } else {
                        final(self).cursor == old(self).cursor
                    }
                    &&& final(self).selection_start == old(self).selection_start
                    &&& final(self).selection_end == old(self).selection_end
                },
                CanvasEditorMessage::Delete => {
                    &&& final(self).buffer@ == spec_delete_forward(
                        old(self).buffer@,
                        old(self).cursor.0 as int,
                        old(self).cursor.1 as int,
                    )
                    &&& final(self).cursor == old(self).cursor
                    &&& final(self).selection_start == old(self).selection_start
                    &&& final(self).selection_end == old(self).selection_end
                },
                CanvasEditorMessage::Enter => {
                    &&& final(self).buffer@ == spec_insert_newline(
                        old(self).buffer@,
                        old(self).cursor.0 as int,
                        old(self).cursor.1 as int,
                    )
                    &&& final(self).cursor == ((old(self).cursor.0 + 1) as usize, 0usize)
                    &&& final(self).selection_start == old(self).selection_start
                    &&& final(self).selection_end == old(self).selection_end
                },
                CanvasEditorMessage::ArrowKey(dir, extend) => {
                    let target = spec_move_cursor(old(self).buffer@, old(self).cursor, dir);
                    &&& final(self).buffer == old(self).buffer
                    &&& final(self).cursor.0 as int == target.0
                    &&& final(self).cursor.1 as int == target.1
                    &&& if extend {
                        final(self).selection_start == (if old(self).selection_start is None {
                            Some(old(self).cursor)
                        } else {
                            old(self).selection_start
                        }) && final(self).selection_end == Some(final(self).cursor)
                    } else {
                        final(self).selection_start is None && final(self).selection_end is None
                    }
                },
                CanvasEditorMessage::Paste(ref t) => {
                    let origin = spec_paste_origin(*old(self));
                    let base = spec_paste_base(*old(self));
                    let parts = spec_split_parts(t@);
                    &&& final(self).buffer@ == spec_insert_parts(
                        base,
                        origin.0 as int,
                        origin.1 as int,
                        parts,
                    )
                    &&& final(self).cursor.0 as int == spec_pos_after_insert(
                        origin.0 as int,
                        origin.1 as int,
                        parts,
                    ).0
                    &&& final(self).cursor.1 as int == spec_pos_after_insert(
                        origin.0 as int,
                        origin.1 as int,
                        parts,
                    ).1
                },
                CanvasEditorMessage::PageUp => {
                    let target = spec_page_cursor(
                        old(self).buffer@,
                        old(self).cursor,
                        old(self).viewport_height as int / EDITOR_LINE_HEIGHT as int,
                        false,
                    );
                    &&& final(self).buffer == old(self).buffer
                    &&& final(self).cursor.0 as int == target.0
                    &&& final(self).cursor.1 as int == target.1
                    &&& final(self).selection_start == old(self).selection_start
                    &&& final(self).selection_end == old(self).selection_end
                },
                CanvasEditorMessage::PageDown => {
                    let target = spec_page_cursor(
                        old(self).buffer@,
                        old(self).cursor,
                        old(self).viewport_height as int / EDITOR_LINE_HEIGHT as int,
                        true,
                    );
                    &&& final(self).buffer == old(self).buffer
                    &&& final(self).cursor.0 as int == target.0
                    &&& final(self).cursor.1 as int == target.1
                    &&& final(self).selection_start == old(self).selection_start
                    &&& final(self).selection_end == old(self).selection_end
                },
                CanvasEditorMessage::Home(extend) => {
                    &&& final(self).buffer == old(self).buffer
                    &&& final(self).cursor == (old(self).cursor.0, 0usize)
                    &&& if extend {
                        final(self).selection_start == (if old(self).selection_start is None {
                            Some(old(self).cursor)
                        } else {
                            old(self).selection_start
                        }) && final(self).selection_end == Some(final(self).cursor)
                    } else {
                        final(self).selection_start is None && final(self).selection_end is None
                    }
                },
                CanvasEditorMessage::End(extend) => {
                    &&& final(self).buffer == old(self).buffer
                    &&& final(self).cursor == (
                        old(self).cursor.0,
                        line_at(old(self).buffer@, old(self).cursor.0 as int).len() as usize,
                    )
                    &&& if extend {
                        final(self).selection_start == (if old(self).selection_start is None {
                            Some(old(self).cursor)
                        } else {
                            old(self).selection_start
                        }) && final(self).selection_end == Some(final(self).cursor)
                    } else {
                        final(self).selection_start is None && final(self).selection_end is None
                    }
                },
            },
    {
        match message {
            CanvasEditorMessage::CharacterInput(ch) => {
                let (line, col) = self.cursor;
                self.buffer.insert_char(line, col, *ch);
                self.cursor = (line, col + 1);
            },
            CanvasEditorMessage::Backspace => {
                let (line, col) = self.cursor;
                let prev_len = if line > 0 {
                    self.buffer.line_len(line - 1)
                } else {
                    0
                };
                let merged = self.buffer.delete_char(line, col);
                if merged {
                    self.cursor = (line - 1, prev_len);
                } else if col > 0 {
                    self.cursor = (line, col - 1);
                }
            },
            CanvasEditorMessage::Delete => {
                let (line, col) = self.cursor;
                self.buffer.delete_forward(line, col);
            },
            CanvasEditorMessage::Enter => {
                let (line, col) = self.cursor;
                self.buffer.insert_newline(line, col);
                self.cursor = (line + 1, 0);
            },
            CanvasEditorMessage::ArrowKey(direction, extend) => {
                if *extend {
                    if self.selection_start.is_none() {
                        self.selection_start = Some(self.cursor);
                    }
                    self.move_cursor(*direction);
                    self.selection_end = Some(self.cursor);
                } else {
                    self.clear_selection();
                    self.move_cursor(*direction);
                }
            },
            CanvasEditorMessage::Paste(text) => {
                self.paste_text(text.as_str());
            },
            CanvasEditorMessage::PageUp => {
                self.page_up();
            },
            CanvasEditorMessage::PageDown => {
                self.page_down();
            },
            CanvasEditorMessage::Home(extend) => {
                if *extend {
                    if self.selection_start.is_none() {
                        self.selection_start = Some(self.cursor);
                    }
                    self.cursor = (self.cursor.0, 0);
                    self.selection_end = Some(self.cursor);
                } else {
                    self.clear_selection();
                    self.cursor = (self.cursor.0, 0);
                }
            },
            CanvasEditorMessage::End(extend) => {
                let line_len = self.buffer.line_len(self.cursor.0);
                if *extend {
                    if self.selection_start.is_none() {
                        self.selection_start = Some(self.cursor);
                    }
                    self.cursor = (self.cursor.0, line_len);
                    self.selection_end = Some(self.cursor);
                } else {
                    self.clear_selection();
                    self.cursor = (self.cursor.0, line_len);
                }
            },
        }
    }
}

/// Joins a text's parts with line feeds, with no trailing line feed.
fn join_parts(parts: &Vec<Vec<char>>) -> (r: String)
    requires
        parts@.len() >= 1,
    ensures
        r@ == spec_join_lines(lines_view(parts@)),
{
    let ghost pv = lines_view(parts@);
    let mut out = String::new();
    let n = parts.len();
    let mut i: usize = 0;
    proof {
        assert(pv.skip(0) =~= pv);
        assert(out@ + spec_join_lines(pv) =~= spec_join_lines(pv));
    }
    while i < n
        invariant
            pv == lines_view(parts@),
            n == pv.len(),
            1 <= n,
            0 <= i <= n,
            i < n ==> spec_join_lines(pv) == out@ + spec_join_lines(pv.skip(i as int)),
            i == n ==> spec_join_lines(pv) == out@,
        decreases n - i,
    {
        let m = parts[i].len();
        let mut j: usize = 0;
        let ghost out0 = out@;
        while j < m
            invariant
                i < parts@.len(),
                m == parts@[i as int]@.len(),
                0 <= j <= m,
                out@ == out0 + parts@[i as int]@.take(j as int),
            decreases m - j,
        {
            push_char(&mut out, parts[i][j]);
            j = j + 1;
        }
        proof {
            assert(parts@[i as int]@.take(m as int) == pv[i as int]);
            assert(out@ == out0 + pv[i as int]);
        }
        if i + 1 < n {
            push_char(&mut out, '\n');
            proof {
                let rest = pv.skip(i as int);
                assert(rest[0] == pv[i as int]);
                assert(rest.drop_first() =~= pv.skip(i + 1));
                assert(spec_join_lines(rest) == rest[0] + seq!['\n'] + spec_join_lines(
                    rest.drop_first(),
                ));
                assert(out@ =~= out0 + pv[i as int] + seq!['\n']);
            }
        } else {
            proof {
                let rest = pv.skip(i as int);
                assert(rest.len() == 1);
                assert(rest[0] == pv[i as int]);
                assert(spec_join_lines(rest) == rest[0]);
            }
        }
        i = i + 1;
    }
    out
}

} // verus!
