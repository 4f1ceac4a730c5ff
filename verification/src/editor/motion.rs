use vstd::prelude::*;

use super::key::KeyCode;
use super::text::{min, sat_sub};
use super::{Editor, EditorModel};

verus! {

#[derive(Debug, Clone, Copy, PartialEq, Eq, Structural)]
pub enum Motion {
    Left(usize),
    Right(usize),
    Up(usize),
    Down(usize),
    Bol,
    Eol,
}

/// The motion a key stands for, repeated `count` times.
pub open spec fn motion_of(code: KeyCode, count: usize) -> Option<Motion> {
    match code {
        KeyCode::Char('h') | KeyCode::Left => Some(Motion::Left(count)),
        KeyCode::Char('l') | KeyCode::Right => Some(Motion::Right(count)),
        KeyCode::Char('k') | KeyCode::Up => Some(Motion::Up(count)),
        KeyCode::Char('j') | KeyCode::Down => Some(Motion::Down(count)),
        KeyCode::Char('$') => Some(Motion::Eol),
        KeyCode::Char('0') => Some(Motion::Bol),
        _ => None,
    }
}

/// `apply` can carry out the motion.
pub open spec fn can_apply(e: EditorModel, motion: Motion) -> bool {
    match motion {
        Motion::Left(_) | Motion::Bol => e.wf(),
        Motion::Right(n) => e.placeable() && e.cursor().x + n <= usize::MAX,
        Motion::Up(n) => e.can_place(sat_sub(e.cursor().y as int, n as int)),
        Motion::Down(n) => {
            &&& e.wf()
            &&& e.lines().len() > 0
            &&& e.cursor().y + n <= usize::MAX
            &&& e.can_place(min(e.cursor().y + n, e.lines().len() - 1))
        },
        Motion::Eol => e.placeable(),
    }
}

/// The editor after the motion.
pub open spec fn applied(e: EditorModel, motion: Motion) -> EditorModel {
    match motion {
        Motion::Left(n) => e.moved_left(n as int),
        Motion::Right(n) => e.moved_right_n(n as int),
        Motion::Up(n) => e.moved_up(n as int),
        Motion::Down(n) => e.moved_down_n(n as int),
        Motion::Bol => e.at_col(0),
        Motion::Eol => e.moved_to_eol(),
    }
}

pub fn parse(code: KeyCode, count: usize) -> (motion: Option<Motion>)
    ensures
        motion == motion_of(code, count),
{
    let motion = match code {
        KeyCode::Char('h') | KeyCode::Left => Motion::Left(count),
        KeyCode::Char('l') | KeyCode::Right => Motion::Right(count),
        KeyCode::Char('k') | KeyCode::Up => Motion::Up(count),
        KeyCode::Char('j') | KeyCode::Down => Motion::Down(count),
        KeyCode::Char('$') => Motion::Eol,
        KeyCode::Char('0') => Motion::Bol,
        _ => return None,
    };
    Some(motion)
}

pub fn apply(ed: &mut Editor, motion: Motion)
    requires
        can_apply(old(ed)@, motion),
    ensures
        final(ed)@ == applied(old(ed)@, motion),
{
    match motion {
        Motion::Left(n) => ed.move_left_n(n),
        Motion::Right(n) => ed.move_right_n(n),
        Motion::Up(n) => ed.move_up_n(n),
        Motion::Down(n) => ed.move_down_n(n),
        Motion::Bol => ed.move_bol(),
        Motion::Eol => ed.move_eol(),
    }
}

} // verus!
