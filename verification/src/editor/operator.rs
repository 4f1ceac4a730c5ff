use vstd::prelude::*;

use super::key::{KeyCode, KeyEvent};
use super::motion::{self, motion_of, Motion};
use super::normal::{count_of, without_count};
use super::{Editor, EditorModel, Mode};

verus! {

#[derive(Debug, Clone, Copy, PartialEq, Eq, Structural)]
pub enum Operator {
    Delete,
    Change,
}

#[derive(Debug, Clone, Copy, PartialEq, Eq, Structural)]
pub struct State {
    pub op: Operator,
    pub count: Option<u32>,
}

impl State {
    pub fn new(op: Operator) -> (s: Self)
        ensures
            s == (State { op, count: None }),
    {
        Self { op, count: None }
    }
}

/// The mode an operator leaves the editor in.
pub open spec fn mode_after(op: Operator) -> Mode {
    match op {
        Operator::Delete => Mode::Normal,
        Operator::Change => Mode::Insert,
    }
}

/// `handle` can process `key` while `state` waits for its motion.
pub open spec fn can_handle(e: EditorModel, key: KeyEvent, state: State) -> bool {
    let e1 = without_count(e);
    match motion_of(key.code, count_of(e)) {
        Some(m) => {
            let e2 = e1.with_mode(mode_after(state.op));
            match m {
                Motion::Left(_) | Motion::Right(_) => false,
                Motion::Up(_) => true,
                Motion::Down(n) => n + 1 <= usize::MAX && e2.can_delete_lines(n + 1),
                Motion::Bol => e2.can_delete_to_bol(),
                Motion::Eol => e2.can_delete_to_eol(),
            }
        },
        None => match key.code {
            KeyCode::Char('d') => state.op == Operator::Delete ==> e1.placeable(),
            KeyCode::Char('c') => state.op == Operator::Change ==> e1.on_line(),
            _ => true,
        },
    }
}

/// The editor after `key` while `state` waits for its motion.
pub open spec fn handled(e: EditorModel, key: KeyEvent, state: State) -> EditorModel {
    let e1 = without_count(e);
    match motion_of(key.code, count_of(e)) {
        Some(m) => {
            let e2 = e1.with_mode(mode_after(state.op));
            match m {
                Motion::Down(n) => e2.deleted_lines(n + 1),
                Motion::Bol => e2.deleted_to_bol(),
                Motion::Eol => e2.deleted_to_eol(),
                _ => e2,
            }
        },
        None => match key.code {
            KeyCode::Esc => e1.with_mode(Mode::Normal),
            KeyCode::Char(ch) => if '0' <= ch <= '9' {
                e1.with_mode(
                    Mode::OperatorPending(
                        State { op: state.op, count: Some((ch as int - '0' as int) as u32) },
                    ),
                )
            } else if ch == 'd' && state.op == Operator::Delete {
                e1.deleted_line().with_mode(Mode::Normal)
            } else if ch == 'c' && state.op == Operator::Change {
                e1.with_line(Seq::empty()).at_col(0).with_mode(Mode::Insert)
            } else {
                e1
            },
            _ => e1,
        },
    }
}

pub fn handle(ed: &mut Editor, key: KeyEvent, state: State)
    requires
        can_handle(old(ed)@, key, state),
    ensures
        final(ed)@ == handled(old(ed)@, key, state),
{
    let count = ed.take_pending_count();

    if let Some(motion) = motion::parse(key.code, count) {
        match state.op {
            Operator::Delete => ed.mode = Mode::Normal,
            Operator::Change => ed.mode = Mode::Insert,
        }

        match motion {
            Motion::Left(_) | Motion::Right(_) => {},
            Motion::Up(_) => {},
            Motion::Down(n) => {
                let _ = ed.delete_lines(n + 1);
            },
            Motion::Bol => ed.delete_to_bol(),
            Motion::Eol => ed.delete_to_eol(),
        }

        return;
    }

    match key.code {
        KeyCode::Esc => {
            ed.mode = Mode::Normal;
        },
        KeyCode::Char(ch) => {
            if '0' <= ch && ch <= '9' {
                let digit = (ch as u32) - ('0' as u32);
                ed.mode = Mode::OperatorPending(State { op: state.op, count: Some(digit) });
            } else if ch == 'd' && state.op == Operator::Delete {
                ed.delete_line();
                ed.mode = Mode::Normal;
            } else if ch == 'c' && state.op == Operator::Change {
                crate::strings::string_clear(ed.line_mut());
                ed.move_bol();
                ed.mode = Mode::Insert;
            }
        },
        _ => {},
    }
}

} // verus!
