//! Cursor movement and text editing.

use vstd::prelude::*;

#[allow(unused_imports)]
use super::buffer::{lemma_lines_bytes_update, lines_bytes};
use super::{offset_row, valid_offset_row, Cursor, Editor, EditorModel, Mode};
use crate::strings::{
    byte_len, char_at, char_utf8, string_clear, string_drain_front, string_insert,
    string_push_str, string_remove, string_truncate, str_tail, utf8, width_at,
};

verus! {

pub open spec fn sat_sub(a: int, b: int) -> int {
    if a >= b {
        a - b
    } else {
        0
    }
}

pub open spec fn min(a: int, b: int) -> int {
    if a <= b {
        a
    } else {
        b
    }
}

/// The last column the cursor may take on a line of `len` bytes: past the
/// end in insert mode, on the last byte otherwise.
pub open spec fn max_x_for(mode: Mode, len: int) -> int {
    match mode {
        Mode::Insert => len,
        _ => sat_sub(len, 1),
    }
}

/// `idx` is a character boundary of the UTF-8 bytes `line`.
pub open spec fn boundary_at(line: Seq<u8>, idx: int) -> bool {
    vstd::utf8::is_char_boundary(line, idx)
}

/// The lines left when rows `start..end` are taken out; one empty line when
/// none would be.
pub open spec fn lines_without(lines: Seq<Seq<u8>>, start: int, end: int) -> Seq<Seq<u8>> {
    let rest = lines.take(start) + lines.skip(end);
    if rest.len() == 0 {
        seq![Seq::empty()]
    } else {
        rest
    }
}

/// What each editing operation does to the editor.
impl EditorModel {
    /// The last column the cursor may take on row `row`.
    pub open spec fn max_x_at(self, row: int) -> int {
        max_x_for(self.mode, self.lines()[row].len() as int)
    }

    /// The last column the cursor may take on its line.
    pub open spec fn max_x(self) -> int {
        self.max_x_at(self.cursor().y as int)
    }

    /// The cursor may be placed on `row`, and the mode is one with a text
    /// cursor.
    pub open spec fn can_place(self, row: int) -> bool {
        &&& self.wf()
        &&& 0 <= row < self.lines().len()
        &&& row <= i32::MAX
        &&& !(self.mode is Command)
    }

    /// The cursor can be placed on its own row.
    pub open spec fn placeable(self) -> bool {
        self.can_place(self.cursor().y as int)
    }

    /// The cursor moved to row `y`, aiming for column `x` but kept on the
    /// line, with the given preferred column.
    pub open spec fn placed(self, x: int, y: int, want_x: int) -> EditorModel {
        self.with_cursor(
            Cursor { x: min(x, self.max_x_at(y)) as usize, y: y as usize, want_x: want_x as usize },
        )
    }

    /// The cursor's column kept on its line.
    pub open spec fn clamped(self) -> EditorModel {
        self.placed(self.cursor().x as int, self.cursor().y as int, self.cursor().want_x as int)
    }

    /// The cursor's column kept on its line, and preferred from now on.
    pub open spec fn clamped_sync(self) -> EditorModel {
        self.placed(
            self.cursor().x as int,
            self.cursor().y as int,
            min(self.cursor().x as int, self.max_x()),
        )
    }

    /// The cursor at column `x` of its row, preferring that column.
    pub open spec fn at_col(self, x: int) -> EditorModel {
        self.with_cursor(Cursor { x: x as usize, y: self.cursor().y, want_x: x as usize })
    }

    pub open spec fn moved_left(self, n: int) -> EditorModel {
        self.at_col(sat_sub(self.cursor().x as int, n))
    }

    pub open spec fn moved_right(self) -> EditorModel {
        if self.cursor().x < self.max_x() {
            self.at_col(self.cursor().x + 1)
        } else {
            self
        }
    }

    pub open spec fn moved_right_n(self, n: int) -> EditorModel {
        self.at_col(min(self.cursor().x + n, self.max_x()))
    }

    pub open spec fn moved_up(self, n: int) -> EditorModel {
        self.placed(
            self.cursor().want_x as int,
            sat_sub(self.cursor().y as int, n),
            self.cursor().want_x as int,
        )
    }

    pub open spec fn moved_down(self) -> EditorModel {
        if self.cursor().y + 1 < self.lines().len() {
            self.placed(
                self.cursor().want_x as int,
                self.cursor().y + 1,
                self.cursor().want_x as int,
            )
        } else {
            self
        }
    }

    pub open spec fn moved_down_n(self, n: int) -> EditorModel {
        self.placed(
            self.cursor().want_x as int,
            min(self.cursor().y + n, self.lines().len() - 1),
            self.cursor().want_x as int,
        )
    }

    pub open spec fn moved_to_eol(self) -> EditorModel {
        self.at_col(self.max_x())
    }

    /// The cursor line replaced by `line`.
    pub open spec fn with_line(self, line: Seq<u8>) -> EditorModel {
        self.with_lines(self.lines().update(self.cursor().y as int, line))
    }

    pub open spec fn char_inserted(self, ch: char) -> EditorModel {
        let x = self.cursor().x as int;
        self.with_line(self.line().take(x) + char_utf8(ch) + self.line().skip(x)).smudged()
    }

    /// `remove_char` can take out the character at byte `col`.
    pub open spec fn can_remove_at(self, col: int) -> bool {
        &&& self.on_line()
        &&& 0 <= col < self.line().len()
        &&& boundary_at(self.line(), col)
    }

    pub open spec fn char_removed(self, col: int) -> EditorModel {
        let line = self.line();
        self.smudged().with_line(line.take(col) + line.skip(col + width_at(line, col)))
    }

    pub open spec fn line_inserted(self, row: int, content: Seq<u8>) -> EditorModel {
        self.smudged().with_lines(self.lines().insert(row, content))
    }

    pub open spec fn line_removed(self, row: int) -> EditorModel {
        self.smudged().with_lines(self.lines().remove(row))
    }

    pub open spec fn deleted_line(self) -> EditorModel {
        let n = self.lines().len() as int;
        let y = self.cursor().y as int;
        let e1 = if n == 1 {
            self.with_line(Seq::empty())
        } else {
            self.line_removed(y)
        };
        let at_end = y == n - 1;
        let x0 = if at_end {
            self.cursor().want_x as int
        } else {
            self.cursor().x as int
        };
        let y1 = if at_end {
            sat_sub(y, 1)
        } else {
            y
        };
        e1.placed(x0, y1, min(x0, e1.max_x_at(y1)))
    }

    /// `delete_lines(count)` runs without overflow or a bad range.
    pub open spec fn can_delete_lines(self, count: int) -> bool {
        &&& self.wf()
        &&& !(self.mode is Command)
        &&& self.cursor().y <= self.lines().len()
        &&& self.cursor().y <= i32::MAX
        &&& self.cursor().y + count <= usize::MAX
    }

    /// The end of the range `delete_lines(count)` takes out.
    pub open spec fn delete_end(self, count: int) -> int {
        min(self.cursor().y + count, self.lines().len() as int)
    }

    pub open spec fn deleted_lines(self, count: int) -> EditorModel {
        let y = self.cursor().y as int;
        let rest = lines_without(self.lines(), y, self.delete_end(count));
        let ny = min(y, rest.len() - 1);
        let e1 = self.with_lines(rest);
        e1.placed(self.cursor().x as int, ny, min(self.cursor().x as int, e1.max_x_at(ny))).smudged()
    }

    /// `delete_under_cursor` runs without panicking.
    pub open spec fn can_delete_under_cursor(self) -> bool {
        &&& self.placeable()
        &&& self.line().len() > 0 ==> self.cursor().x <= i32::MAX && self.can_remove_at(
            self.cursor().x as int,
        )
    }

    pub open spec fn deleted_under_cursor(self) -> EditorModel {
        if self.line().len() == 0 {
            self
        } else {
            self.char_removed(self.cursor().x as int).clamped_sync()
        }
    }

    /// `delete_to_eol` runs without panicking.
    pub open spec fn can_delete_to_eol(self) -> bool {
        &&& self.placeable()
        &&& self.cursor().x < self.line().len() ==> boundary_at(
            self.line(),
            self.cursor().x as int,
        )
    }

    pub open spec fn deleted_to_eol(self) -> EditorModel {
        let x = self.cursor().x as int;
        if x >= self.line().len() {
            self
        } else {
            self.with_line(self.line().take(x)).clamped_sync().smudged()
        }
    }

    /// `delete_to_bol` runs without panicking.
    pub open spec fn can_delete_to_bol(self) -> bool {
        &&& self.placeable()
        &&& boundary_at(self.line(), self.cursor().x as int)
    }

    pub open spec fn deleted_to_bol(self) -> EditorModel {
        let x = self.cursor().x as int;
        if x == 0 {
            self
        } else {
            self.with_line(self.line().skip(x)).clamped_sync().smudged()
        }
    }

    /// `enter` runs without panicking.
    pub open spec fn can_enter(self) -> bool {
        &&& self.placeable()
        &&& self.cursor().y + 1 <= i32::MAX
        &&& boundary_at(self.line(), self.cursor().x as int)
    }

    pub open spec fn entered(self) -> EditorModel {
        let x = self.cursor().x as int;
        let y = self.cursor().y as int;
        let e1 = self.smudged().with_lines(
            self.lines().update(y, self.line().take(x)).insert(y + 1, self.line().skip(x)),
        );
        e1.placed(0, y + 1, 0)
    }

    /// `backspace` runs without panicking: at the start of the buffer it
    /// only reads the cursor; elsewhere the cursor must be placeable, and a
    /// character before it removable.
    pub open spec fn can_backspace(self) -> bool {
        &&& self.wf()
        &&& (self.cursor().x > 0 || self.cursor().y > 0) ==> {
            &&& self.placeable()
            &&& self.cursor().x > 0 ==> self.cursor().x - 1 <= i32::MAX && self.can_remove_at(
                self.cursor().x - 1,
            )
        }
    }

    pub open spec fn backspaced(self) -> EditorModel {
        let x = self.cursor().x as int;
        let y = self.cursor().y as int;
        if x > 0 {
            self.moved_left(1).char_removed(x - 1)
        } else if y > 0 {
            let prev = self.lines()[y - 1];
            let e1 = self.line_removed(y).placed(prev.len() as int, y - 1, prev.len() as int);
            e1.with_line(prev + self.line())
        } else {
            self
        }
    }
}

impl Editor {
    // --  Move --
    pub fn move_to(&mut self, x: usize, y: usize)
        requires
            old(self)@.can_place(y as int),
        ensures
            final(self)@ == old(self)@.placed(x as int, y as int, x as int),
    {
        *self.cursor_mut() = Cursor { x, y, want_x: x };
        self.cursor_clamp_x();
    }

    pub fn cursor_clamp_x(&mut self)
        requires
            old(self)@.placeable(),
        ensures
            final(self)@ == old(self)@.clamped(),
    {
        let max = self.cursor_max_x();
        let cur = self.cursor_mut();
        cur.x = if cur.x <= max {
            cur.x
        } else {
            max
        };
    }

    pub fn cursor_clamp_sync_x(&mut self)
        requires
            old(self)@.placeable(),
        ensures
            final(self)@ == old(self)@.clamped_sync(),
    {
        self.cursor_clamp_x();
        let cur = self.cursor_mut();
        cur.want_x = cur.x;
    }

    pub fn move_left(&mut self)
        requires
            old(self)@.wf(),
        ensures
            final(self)@ == old(self)@.moved_left(1),
    {
        let cur = self.cursor_mut();
        cur.x = cur.x.saturating_sub(1);
        cur.want_x = cur.x;
    }

    pub fn move_left_n(&mut self, count: usize)
        requires
            old(self)@.wf(),
        ensures
            final(self)@ == old(self)@.moved_left(count as int),
    {
        let cur = self.cursor_mut();
        cur.x = cur.x.saturating_sub(count);
        cur.want_x = cur.x;
    }

    pub fn move_right(&mut self)
        requires
            old(self)@.placeable(),
        ensures
            final(self)@ == old(self)@.moved_right(),
    {
        let max = self.cursor_max_x();
        let cur = self.cursor_mut();
        if cur.x < max {
            cur.x += 1;
            cur.want_x = cur.x;
        }
    }

    pub fn move_right_n(&mut self, count: usize)
        requires
            old(self)@.placeable(),
            old(self)@.cursor().x + count <= usize::MAX,
        ensures
            final(self)@ == old(self)@.moved_right_n(count as int),
    {
        let max = self.cursor_max_x();
        let cur = self.cursor_mut();
        let nx = cur.x + count;
        cur.x = if nx <= max {
            nx
        } else {
            max
        };
        cur.want_x = cur.x;
    }

    pub fn move_up(&mut self)
        requires
            old(self)@.can_place(sat_sub(old(self)@.cursor().y as int, 1)),
        ensures
            final(self)@ == old(self)@.moved_up(1),
    {
        let cur = self.cursor_mut();
        cur.y = cur.y.saturating_sub(1);
        cur.x = cur.want_x;
        self.cursor_clamp_x();
    }

    pub fn move_up_n(&mut self, count: usize)
        requires
            old(self)@.can_place(sat_sub(old(self)@.cursor().y as int, count as int)),
        ensures
            final(self)@ == old(self)@.moved_up(count as int),
    {
        let cur = self.cursor_mut();
        cur.y = cur.y.saturating_sub(count);
        cur.x = cur.want_x;
        self.cursor_clamp_x();
    }

    pub fn move_down(&mut self)
        requires
            old(self)@.wf(),
            old(self)@.lines().len() > 0,
            old(self)@.cursor().y + 1 < old(self)@.lines().len() ==> old(self)@.can_place(
                old(self)@.cursor().y + 1,
            ),
        ensures
            final(self)@ == old(self)@.moved_down(),
    {
        let max = self.buf().lines.len() - 1;
        let cur = self.cursor_mut();
        if cur.y < max {
            cur.y += 1;
            cur.x = cur.want_x;
            self.cursor_clamp_x();
        }
    }

    pub fn move_down_n(&mut self, count: usize)
        requires
            old(self)@.wf(),
            old(self)@.lines().len() > 0,
            old(self)@.cursor().y + count <= usize::MAX,
            old(self)@.can_place(
                min(old(self)@.cursor().y + count, old(self)@.lines().len() - 1),
            ),
        ensures
            final(self)@ == old(self)@.moved_down_n(count as int),
    {
        let max = self.buf().lines.len() - 1;
        let cur = self.cursor_mut();
        let ny = cur.y + count;
        cur.y = if ny <= max {
            ny
        } else {
            max
        };
        cur.x = cur.want_x;
        self.cursor_clamp_x();
    }

    pub fn move_bol(&mut self)
        requires
            old(self)@.wf(),
        ensures
            final(self)@ == old(self)@.at_col(0),
    {
        let cur = self.cursor_mut();
        cur.x = 0;
        cur.want_x = cur.x;
    }

    pub fn move_eol(&mut self)
        requires
            old(self)@.placeable(),
        ensures
            final(self)@ == old(self)@.moved_to_eol(),
    {
        let max = self.cursor_max_x();
        let cur = self.cursor_mut();
        cur.x = max;
        cur.want_x = cur.x;
    }

    // -- Edit --
    pub fn insert_char(&mut self, ch: char)
        requires
            old(self)@.on_line(),
            boundary_at(old(self)@.line(), old(self)@.cursor().x as int),
        ensures
            final(self)@ == old(self)@.char_inserted(ch),
    {
        let col = self.cursor().x;
        string_insert(self.line_mut(), col, ch);
        self.buf_mut().smudge();
    }

    pub fn remove_char(&mut self, offset_x: i32) -> (c: char)
        requires
            i32::MIN <= offset_row(old(self)@.cursor().x, offset_x) <= i32::MAX,
            old(self)@.can_remove_at(offset_row(old(self)@.cursor().x, offset_x)),
        ensures
            c == char_at(old(self)@.line(), offset_row(old(self)@.cursor().x, offset_x)),
            final(self)@ == old(self)@.char_removed(offset_row(old(self)@.cursor().x, offset_x)),
    {
        let col = self.cursor().x as i32 + offset_x;
        self.buf_mut().smudge();
        string_remove(self.line_mut(), col as usize)
    }

    pub fn insert_line(&mut self, offset_y: i32, content: Option<String>)
        requires
            old(self)@.wf(),
            i32::MIN <= offset_row(old(self)@.cursor().y, offset_y) <= i32::MAX,
            0 <= offset_row(old(self)@.cursor().y, offset_y) <= old(self)@.lines().len(),
        ensures
            final(self)@ == old(self)@.line_inserted(
                offset_row(old(self)@.cursor().y, offset_y),
                match content {
                    Some(s) => utf8(s@),
                    None => Seq::empty(),
                },
            ),
    {
        let row = self.cursor().y as i32 + offset_y;
        self.buf_mut().smudge();
        let line = match content {
            Some(s) => s,
            None => String::new(),
        };
        let b = self.buf_mut();
        let ghost before = b.lines@;
        b.lines.insert(row as usize, line);
        proof {
            assert(lines_bytes(b.lines@) =~= lines_bytes(before).insert(row as int, utf8(line@)));
        }
    }

    pub fn remove_line(&mut self, offset_y: i32) -> (line: String)
        requires
            old(self)@.wf(),
            valid_offset_row(old(self)@.lines(), old(self)@.cursor().y, offset_y),
        ensures
            utf8(line@) == old(self)@.lines()[offset_row(old(self)@.cursor().y, offset_y)],
            final(self)@ == old(self)@.line_removed(offset_row(old(self)@.cursor().y, offset_y)),
    {
        let row = self.cursor().y as i32 + offset_y;
        self.buf_mut().smudge();
        let b = self.buf_mut();
        let ghost before = b.lines@;
        let line = b.lines.remove(row as usize);
        proof {
            assert(lines_bytes(b.lines@) =~= lines_bytes(before).remove(row as int));
        }
        line
    }

    /// Deletes the cursor line (empties it when it is the only one).
    pub fn delete_line(&mut self)
        requires
            old(self)@.placeable(),
        ensures
            final(self)@ == old(self)@.deleted_line(),
    {
        let line_count = self.buf().lines.len();

        if line_count == 1 {
            string_clear(self.line_mut());
        } else {
            self.remove_line(0);
        }

        if self.cursor().y == line_count - 1 {
            self.move_up();
        }

        self.cursor_clamp_sync_x();
    }

    /// Deletes `count` lines from the cursor line down, as many as there
    /// are, and returns them.
    #[verifier::rlimit(40)]
    pub fn delete_lines(&mut self, count: usize) -> (deleted: Vec<String>)
        requires
            old(self)@.can_delete_lines(count as int),
        ensures
            lines_bytes(deleted@) == old(self)@.lines().subrange(
                old(self)@.cursor().y as int,
                old(self)@.delete_end(count as int),
            ),
            final(self)@ == old(self)@.deleted_lines(count as int),
    {
        let start = self.cursor().y;
        let len = self.buf().lines.len();
        let end = if start + count <= len {
            start + count
        } else {
            len
        };

        let b = self.buf_mut();
        let ghost before = b.lines@;
        let mut tail = b.lines.split_off(end);
        let deleted = b.lines.split_off(start);
        b.lines.append(&mut tail);
        proof {
            assert(b.lines@ =~= before.take(start as int) + before.skip(end as int));
            assert(lines_bytes(b.lines@) =~= lines_bytes(before).take(start as int) + lines_bytes(
                before,
            ).skip(end as int));
            assert(lines_bytes(deleted@) =~= lines_bytes(before).subrange(
                start as int,
                end as int,
            ));
        }

        if self.buf().lines.is_empty() {
            let b = self.buf_mut();
            b.lines.push(String::new());
            proof {
                assert(lines_bytes(b.lines@) =~= seq![Seq::<u8>::empty()]);
            }
        }

        let n = self.buf().lines.len();
        let ny = if start <= n - 1 {
            start
        } else {
            n - 1
        };
        self.cursor_mut().y = ny;
        self.cursor_clamp_sync_x();
        self.buf_mut().smudge();

        deleted
    }

    pub fn delete_under_cursor(&mut self)
        requires
            old(self)@.can_delete_under_cursor(),
        ensures
            final(self)@ == old(self)@.deleted_under_cursor(),
    {
        if byte_len(self.line()) == 0 {
            return;
        }

        self.remove_char(0);
        self.cursor_clamp_sync_x();
    }

    pub fn delete_to_eol(&mut self)
        requires
            old(self)@.can_delete_to_eol(),
        ensures
            final(self)@ == old(self)@.deleted_to_eol(),
    {
        let x = self.cursor().x;

        if x >= byte_len(self.line()) {
            return;
        }

        string_truncate(self.line_mut(), x);
        self.cursor_clamp_sync_x();
        self.buf_mut().smudge();
    }

    pub fn delete_to_bol(&mut self)
        requires
            old(self)@.can_delete_to_bol(),
        ensures
            final(self)@ == old(self)@.deleted_to_bol(),
    {
        let x = self.cursor().x;
        if x == 0 {
            return;
        }
        string_drain_front(self.line_mut(), x);
        self.cursor_clamp_sync_x();
        self.buf_mut().smudge();
    }

    /// Splits the line at the cursor and moves to the start of the new line.
    pub fn enter(&mut self)
        requires
            old(self)@.can_enter(),
        ensures
            final(self)@ == old(self)@.entered(),
    {
        let cur = self.cursor();

        if cur.x == byte_len(self.line()) {
            // at end: add new empty line
            self.insert_line(1, None);
            proof {
                let e = old(self)@;
                assert(e.line().take(cur.x as int) =~= e.line());
                assert(e.line().skip(cur.x as int) =~= Seq::<u8>::empty());
                assert(e.lines().update(cur.y as int, e.line()) =~= e.lines());
            }
        } else {
            // at mid: split
            proof {
                vstd::utf8::encode_utf8_valid_utf8(
                    old(self).buffers@[old(self)@.bufid()].lines@[cur.y as int]@,
                );
                crate::strings::lemma_boundary_in_range(old(self)@.line(), cur.x as int);
            }
            let rhs = str_tail(self.line(), cur.x).to_owned();
            string_truncate(self.line_mut(), cur.x);
            self.insert_line(1, Some(rhs));
        }
        proof {
            let e = old(self)@;
            let x = cur.x as int;
            let y = cur.y as int;
            let e1 = e.smudged().with_lines(
                e.lines().update(y, e.line().take(x)).insert(y + 1, e.line().skip(x)),
            );
            assert(self@.lines() =~= e1.lines());
            assert(self@ =~= e1);
        }

        self.move_to(0, cur.y + 1);
    }

    /// Deletes the character before the cursor, or joins the line with the
    /// one above when the cursor is at its start.
    pub fn backspace(&mut self)
        requires
            old(self)@.can_backspace(),
        ensures
            final(self)@ == old(self)@.backspaced(),
    {
        let cur = self.cursor();

        if cur.x > 0 {
            // at mid or eol: remove char
            self.move_left();
            self.remove_char(0);
            return;
        }

        if cur.y > 0 {
            // at not eof and bol: join with upper line
            let line = self.remove_line(0);
            let nx = byte_len(self.line_off(-1));
            self.move_to(nx, cur.y - 1);
            let l = self.line_mut();
            proof {
                crate::strings::lemma_utf8_concat(l@, line@);
            }
            string_push_str(l, line.as_str());
        }
    }

    pub fn cursor_max_x(&self) -> (max: usize)
        requires
            self@.placeable(),
        ensures
            max == self@.max_x(),
    {
        let len = byte_len(self.line());
        match self.mode {
            Mode::Insert => len,
            _ => len.saturating_sub(1),
        }
    }
}

} // verus!
