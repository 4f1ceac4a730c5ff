use vstd::prelude::*;

use super::cmdline::CmdLineModel;
use super::key::{KeyCode, KeyEvent};
use super::motion::{self, applied, can_apply, motion_of};
use super::operator::{self, Operator};
use super::{pending_value, Cursor, Editor, EditorModel, Mode};

verus! {

/// The key is a digit that extends the count typed in front of a command
/// (`0` only once a count was started, as it is a motion on its own).
pub open spec fn is_count_digit(e: EditorModel, code: KeyCode) -> bool {
    match code {
        KeyCode::Char(ch) => '0' <= ch <= '9' && (ch != '0' || e.pending_count is Some),
        _ => false,
    }
}

pub open spec fn digit_value(code: KeyCode) -> int {
    match code {
        KeyCode::Char(ch) => ch as int - '0' as int,
        _ => 0,
    }
}

/// The count a command runs with: the one typed, or 1.
pub open spec fn count_of(e: EditorModel) -> usize {
    match e.pending_count {
        Some(n) => n,
        None => 1,
    }
}

pub open spec fn without_count(e: EditorModel) -> EditorModel {
    EditorModel { pending_count: None, ..e }
}

/// `handle` can process `key` in normal mode.
pub open spec fn can_handle(e: EditorModel, key: KeyEvent) -> bool {
    if is_count_digit(e, key.code) {
        pending_value(e) * 10 + digit_value(key.code) <= usize::MAX
    } else {
        let e1 = without_count(e);
        let y = e1.cursor().y as int;
        match motion_of(key.code, count_of(e)) {
            Some(m) => can_apply(e1, m),
            None => match key.code {
                KeyCode::Char('a') | KeyCode::Char('A') => e1.with_mode(Mode::Insert).placeable(),
                KeyCode::Char('I') => e1.wf(),
                KeyCode::Char('o') => e1.wf() && y + 1 <= i32::MAX && y + 1 <= e1.lines().len(),
                KeyCode::Char('O') => e1.wf() && y <= i32::MAX && y <= e1.lines().len(),
                KeyCode::Char('s') => e1.on_line() && (e1.line().len() != 0 ==> e1.cursor().x
                    <= i32::MAX && e1.can_remove_at(e1.cursor().x as int)),
                KeyCode::Char('G') => e1.wf() && e1.lines().len() > 0 && e1.can_place(
                    e1.lines().len() - 1,
                ),
                KeyCode::Char('x') => e1.can_delete_under_cursor(),
                KeyCode::Char('D') => e1.can_delete_to_eol(),
                KeyCode::Char('C') => e1.with_mode(Mode::Insert).can_delete_to_eol(),
                _ => true,
            },
        }
    }
}

/// The editor after `key` in normal mode.
pub open spec fn handled(e: EditorModel, key: KeyEvent) -> EditorModel {
    if is_count_digit(e, key.code) {
        EditorModel {
            pending_count: Some((pending_value(e) * 10 + digit_value(key.code)) as usize),
            ..e
        }
    } else {
        let e1 = without_count(e);
        let c = e1.cursor();
        match motion_of(key.code, count_of(e)) {
            Some(m) => applied(e1, m),
            None => match key.code {
                KeyCode::Char('i') => e1.with_mode(Mode::Insert),
                KeyCode::Char('a') => e1.with_mode(Mode::Insert).moved_right(),
                KeyCode::Char('I') => e1.with_mode(Mode::Insert).at_col(0),
                KeyCode::Char('A') => e1.with_mode(Mode::Insert).moved_to_eol(),
                KeyCode::Char('o') => {
                    let e2 = e1.line_inserted(c.y + 1, Seq::empty()).with_mode(Mode::Insert);
                    e2.with_cursor(Cursor { y: (c.y + 1) as usize, ..c }).at_col(0)
                },
                KeyCode::Char('O') => e1.line_inserted(c.y as int, Seq::empty()).with_mode(
                    Mode::Insert,
                ).at_col(0),
                KeyCode::Char('s') => if e1.line().len() != 0 {
                    e1.char_removed(c.x as int).with_mode(Mode::Insert)
                } else {
                    e1.with_mode(Mode::Insert)
                },
                KeyCode::Char(':') => EditorModel {
                    cmdline: CmdLineModel { buf: Seq::empty(), cursor: 0 },
                    message: None,
                    mode: Mode::Command,
                    ..e1
                },
                KeyCode::Char('d') => e1.with_mode(
                    Mode::OperatorPending(operator::State { op: Operator::Delete, count: None }),
                ),
                KeyCode::Char('c') => e1.with_mode(
                    Mode::OperatorPending(operator::State { op: Operator::Change, count: None }),
                ),
                KeyCode::Char('G') => e1.with_cursor(
                    Cursor { y: (e1.lines().len() - 1) as usize, ..c },
                ).clamped(),
                KeyCode::Char('x') => e1.deleted_under_cursor(),
                KeyCode::Char('D') => e1.deleted_to_eol(),
                KeyCode::Char('C') => e1.with_mode(Mode::Insert).deleted_to_eol(),
                _ => e1,
            },
        }
    }
}

pub fn handle(ed: &mut Editor, key: KeyEvent)
    requires
        can_handle(old(ed)@, key),
    ensures
        final(ed)@ == handled(old(ed)@, key),
{
    if let KeyCode::Char(ch) = key.code {
        if '0' <= ch && ch <= '9' && (ch != '0' || ed.pending_count.is_some()) {
            let n = (ch as u32) - ('0' as u32);
            ed.push_pending_count_digit(n);
            return;
        }
    }

    let count = ed.take_pending_count();

    if let Some(motion) = motion::parse(key.code, count) {
        motion::apply(ed, motion);
        return;
    }

    match key.code {
        // -> insert
        KeyCode::Char('i') => ed.mode = Mode::Insert,
        KeyCode::Char('a') => {
            ed.mode = Mode::Insert;
            ed.move_right();
        },
        KeyCode::Char('I') => {
            ed.mode = Mode::Insert;
            ed.move_bol();
        },
        KeyCode::Char('A') => {
            ed.mode = Mode::Insert;
            ed.move_eol();
        },
        KeyCode::Char('o') => {
            ed.insert_line(1, None);
            ed.mode = Mode::Insert;
            let cur = ed.cursor_mut();
            cur.y += 1;
            ed.move_bol();
        },
        KeyCode::Char('O') => {
            ed.insert_line(0, None);
            ed.mode = Mode::Insert;
            ed.move_bol();
        },
        KeyCode::Char('s') => {
            if crate::strings::byte_len(ed.line()) != 0 {
                ed.remove_char(0);
            }
            ed.mode = Mode::Insert;
        },
        // -> command
        KeyCode::Char(':') => {
            ed.cmdline.clear();
            ed.message = None;
            ed.mode = Mode::Command;
        },
        // -> operator pending
        KeyCode::Char('d') => ed.mode = Mode::OperatorPending(operator::State::new(Operator::Delete)),
        KeyCode::Char('c') => ed.mode = Mode::OperatorPending(operator::State::new(Operator::Change)),
        // motion
        KeyCode::Char('G') => {
            let last = ed.buf().lines.len() - 1;
            ed.cursor_mut().y = last;
            ed.cursor_clamp_x();
        },
        // edit
        KeyCode::Char('x') => ed.delete_under_cursor(),
        KeyCode::Char('D') => ed.delete_to_eol(),
        KeyCode::Char('C') => {
            ed.mode = Mode::Insert;
            ed.delete_to_eol();
        },
        _ => {},
    }
}

} // verus!
