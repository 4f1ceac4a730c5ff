//! Whether the editor can take an input: the conditions under which each
//! key runs without a fault, checked on the live editor.

use vstd::prelude::*;

use super::key::{Event, KeyCode, KeyEvent};
use super::motion::{self, can_apply, Motion};
use super::normal::{self, count_of, digit_value, is_count_digit, without_count};
use super::operator::{self, mode_after, Operator, State};
use super::text::{min, sat_sub};
use crate::strings::byte_len;
use super::{can_update, cmdline, insert, pending_value, Editor, Mode};

verus! {

impl Editor {
    /// There is a current window, and every window shows an existing buffer.
    pub fn is_wf(&self) -> (b: bool)
        ensures
            b == self@.wf(),
    {
        if self.buffers.len() == 0 || self.winid >= self.windows.len() {
            return false;
        }
        let mut i: usize = 0;
        while i < self.windows.len()
            invariant
                0 <= i <= self.windows@.len(),
                self@.buffers.len() == self.buffers@.len(),
                forall|j: int| 0 <= j < i ==> #[trigger] self@.windows[j].bufid < self@.buffers.len(),
            decreases self.windows@.len() - i,
        {
            if self.windows[i].bufid >= self.buffers.len() {
                return false;
            }
            i = i + 1;
        }
        true
    }

    fn not_command(&self) -> (b: bool)
        ensures
            b == !(self@.mode is Command),
    {
        match self.mode {
            Mode::Command => false,
            _ => true,
        }
    }

    fn line_count(&self) -> (n: usize)
        requires
            self@.wf(),
        ensures
            n == self@.lines().len(),
    {
        self.buf().lines.len()
    }

    fn can_place_row(&self, row: usize) -> (b: bool)
        ensures
            b == self@.can_place(row as int),
    {
        if !self.is_wf() {
            return false;
        }
        row < self.line_count() && row <= (i32::MAX as usize) && self.not_command()
    }

    fn is_placeable(&self) -> (b: bool)
        ensures
            b == self@.placeable(),
    {
        if !self.is_wf() {
            return false;
        }
        self.can_place_row(self.cursor().y)
    }

    fn is_on_line(&self) -> (b: bool)
        ensures
            b == self@.on_line(),
    {
        if !self.is_wf() {
            return false;
        }
        let y = self.cursor().y;
        y < self.line_count() && y <= (i32::MAX as usize)
    }

    fn can_remove_col(&self, col: usize) -> (b: bool)
        ensures
            b == self@.can_remove_at(col as int),
    {
        if !self.is_on_line() {
            return false;
        }
        let line = self.line();
        col < byte_len(line) && line.is_char_boundary(col)
    }

    /// The cursor is placeable and its column is a character boundary.
    fn at_boundary(&self) -> (b: bool)
        ensures
            b == (self@.placeable() && super::text::boundary_at(
                self@.line(),
                self@.cursor().x as int,
            )),
    {
        if !self.is_placeable() {
            return false;
        }
        self.line().is_char_boundary(self.cursor().x)
    }

    fn can_delete_under(&self) -> (b: bool)
        ensures
            b == self@.can_delete_under_cursor(),
    {
        if !self.is_placeable() {
            return false;
        }
        let x = self.cursor().x;
        if byte_len(self.line()) > 0 {
            x <= (i32::MAX as usize) && self.can_remove_col(x)
        } else {
            true
        }
    }

    fn can_delete_eol(&self) -> (b: bool)
        ensures
            b == self@.can_delete_to_eol(),
    {
        if !self.is_placeable() {
            return false;
        }
        let x = self.cursor().x;
        if x < byte_len(self.line()) {
            self.line().is_char_boundary(x)
        } else {
            true
        }
    }

    fn can_delete_count(&self, count: usize) -> (b: bool)
        ensures
            b == self@.can_delete_lines(count as int),
    {
        if !self.is_wf() || !self.not_command() {
            return false;
        }
        let y = self.cursor().y;
        y <= self.line_count() && y <= (i32::MAX as usize) && count <= usize::MAX - y
    }

    fn can_enter_here(&self) -> (b: bool)
        ensures
            b == self@.can_enter(),
    {
        self.at_boundary() && self.cursor().y < (i32::MAX as usize)
    }

    fn can_backspace_here(&self) -> (b: bool)
        ensures
            b == self@.can_backspace(),
    {
        if !self.is_wf() {
            return false;
        }
        let cur = self.cursor();
        if cur.x == 0 && cur.y == 0 {
            return true;
        }
        if !self.is_placeable() {
            return false;
        }
        let x = self.cursor().x;
        if x > 0 {
            x - 1 <= (i32::MAX as usize) && self.can_remove_col(x - 1)
        } else {
            true
        }
    }

    fn can_apply_motion(&self, m: Motion) -> (b: bool)
        ensures
            b == can_apply(without_count(self@), m),
    {
        match m {
            Motion::Left(_) | Motion::Bol => self.is_wf(),
            Motion::Right(n) => self.is_placeable() && n <= usize::MAX - self.cursor().x,
            Motion::Up(n) => {
                if !self.is_wf() {
                    return false;
                }
                let y = self.cursor().y;
                let row = if y >= n {
                    y - n
                } else {
                    0
                };
                self.can_place_row(row)
            },
            Motion::Down(n) => {
                if !self.is_wf() {
                    return false;
                }
                let y = self.cursor().y;
                let len = self.line_count();
                if len == 0 || n > usize::MAX - y {
                    return false;
                }
                let row = if y + n <= len - 1 {
                    y + n
                } else {
                    len - 1
                };
                self.can_place_row(row)
            },
            Motion::Eol => self.is_placeable(),
        }
    }

    fn count_now(&self) -> (n: usize)
        ensures
            n == count_of(self@),
    {
        match self.pending_count {
            Some(n) => n,
            None => 1,
        }
    }

    fn normal_accepts(&self, key: KeyEvent) -> (ok: bool)
        requires
            self@.mode == Mode::Normal,
        ensures
            ok == normal::can_handle(self@, key),
    {
        let digit = match key.code {
            KeyCode::Char(ch) => if '0' <= ch && ch <= '9' && (ch != '0'
                || self.pending_count.is_some()) {
                Some((ch as u32) - ('0' as u32))
            } else {
                None
            },
            _ => None,
        };
        if let Some(d) = digit {
            assert(is_count_digit(self@, key.code) && d == digit_value(key.code));
            let p: usize = match self.pending_count {
                Some(c) => c,
                None => 0,
            };
            return (p as u128) * 10 + (d as u128) <= (usize::MAX as u128);
        }
        assert(!is_count_digit(self@, key.code));
        let ghost e1 = without_count(self@);
        match motion::parse(key.code, self.count_now()) {
            Some(m) => self.can_apply_motion(m),
            None => match key.code {
                KeyCode::Char('a') | KeyCode::Char('A') => {
                    assert(e1.with_mode(Mode::Insert).placeable() == self@.placeable());
                    self.is_placeable()
                },
                KeyCode::Char('I') => self.is_wf(),
                KeyCode::Char('o') => {
                    if !self.is_wf() {
                        return false;
                    }
                    let y = self.cursor().y;
                    y < (i32::MAX as usize) && y < self.line_count()
                },
                KeyCode::Char('O') => {
                    if !self.is_wf() {
                        return false;
                    }
                    let y = self.cursor().y;
                    y <= (i32::MAX as usize) && y <= self.line_count()
                },
                KeyCode::Char('s') => {
                    if !self.is_on_line() {
                        return false;
                    }
                    let x = self.cursor().x;
                    if byte_len(self.line()) != 0 {
                        x <= (i32::MAX as usize) && self.can_remove_col(x)
                    } else {
                        true
                    }
                },
                KeyCode::Char('G') => {
                    if !self.is_wf() {
                        return false;
                    }
                    let n = self.line_count();
                    n > 0 && self.can_place_row(n - 1)
                },
                KeyCode::Char('x') => self.can_delete_under(),
                KeyCode::Char('D') => self.can_delete_eol(),
                KeyCode::Char('C') => {
                    assert(e1.with_mode(Mode::Insert).can_delete_to_eol()
                        == self@.can_delete_to_eol());
                    self.can_delete_eol()
                },
                _ => true,
            },
        }
    }

    fn insert_accepts(&self, key: KeyEvent) -> (ok: bool)
        requires
            self@.mode == Mode::Insert,
        ensures
            ok == insert::can_handle(self@, key),
    {
        match key.code {
            KeyCode::Esc | KeyCode::Left => self.is_wf(),
            KeyCode::Right => self.is_placeable(),
            KeyCode::Up => {
                if !self.is_wf() {
                    return false;
                }
                let y = self.cursor().y;
                let row = if y >= 1 {
                    y - 1
                } else {
                    0
                };
                self.can_place_row(row)
            },
            KeyCode::Down => {
                if !self.is_wf() {
                    return false;
                }
                let y = self.cursor().y;
                let n = self.line_count();
                if n == 0 {
                    return false;
                }
                if y < n - 1 {
                    self.can_place_row(y + 1)
                } else {
                    true
                }
            },
            KeyCode::Char(_) => {
                if !self.is_on_line() {
                    return false;
                }
                let x = self.cursor().x;
                self.line().is_char_boundary(x) && x < usize::MAX
            },
            KeyCode::Tab => {
                if !self.is_on_line() {
                    return false;
                }
                let x = self.cursor().x;
                self.line().is_char_boundary(x) && x < usize::MAX - 1
            },
            KeyCode::Enter => self.can_enter_here(),
            KeyCode::Backspace => self.can_backspace_here(),
            KeyCode::Other => true,
        }
    }

    fn cmdline_accepts(&self, key: KeyEvent) -> (ok: bool)
        requires
            self@.mode == Mode::Command,
        ensures
            ok == cmdline::can_handle(self@, key),
    {
        let buf = self.cmdline.buf.as_str();
        let cursor = self.cmdline.cursor;
        match key.code {
            KeyCode::Char(_) => buf.is_char_boundary(cursor) && cursor < usize::MAX,
            KeyCode::Backspace => {
                if byte_len(buf) > 0 {
                    0 < cursor && cursor <= byte_len(buf) && buf.is_char_boundary(cursor - 1)
                } else {
                    true
                }
            },
            _ => true,
        }
    }

    fn operator_accepts(&self, key: KeyEvent, state: State) -> (ok: bool)
        requires
            self@.mode == Mode::OperatorPending(state),
        ensures
            ok == operator::can_handle(self@, key, state),
    {
        let ghost e1 = without_count(self@);
        let ghost e2 = e1.with_mode(mode_after(state.op));
        match motion::parse(key.code, self.count_now()) {
            Some(m) => match m {
                Motion::Left(_) | Motion::Right(_) => false,
                Motion::Up(_) => true,
                Motion::Down(n) => {
                    assert(e2.can_delete_lines(n + 1) == self@.can_delete_lines(n + 1));
                    n < usize::MAX && self.can_delete_count(n + 1)
                },
                Motion::Bol => {
                    assert(e2.can_delete_to_bol() == (self@.placeable()
                        && super::text::boundary_at(self@.line(), self@.cursor().x as int)));
                    self.at_boundary()
                },
                Motion::Eol => {
                    assert(e2.can_delete_to_eol() == self@.can_delete_to_eol());
                    self.can_delete_eol()
                },
            },
            None => match key.code {
                KeyCode::Char('d') => {
                    let is_delete = match state.op {
                        Operator::Delete => true,
                        Operator::Change => false,
                    };
                    !is_delete || self.is_placeable()
                },
                KeyCode::Char('c') => {
                    let is_change = match state.op {
                        Operator::Delete => false,
                        Operator::Change => true,
                    };
                    !is_change || self.is_on_line()
                },
                _ => true,
            },
        }
    }

    /// Whether `update` can take the event: the conditions under which the
    /// editor handles it without a fault.
    pub fn accepts(&self, event: Event) -> (ok: bool)
        ensures
            ok == can_update(self@, event),
    {
        match event {
            Event::Other => true,
            Event::Key(key) => {
                if key.code == KeyCode::Char('c') && key.ctrl {
                    return true;
                }
                match self.mode {
                    Mode::Normal => self.normal_accepts(key),
                    Mode::Insert => self.insert_accepts(key),
                    Mode::Command => self.cmdline_accepts(key),
                    Mode::OperatorPending(state) => self.operator_accepts(key, state),
                }
            },
        }
    }
}

} // verus!
