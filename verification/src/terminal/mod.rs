//! # What the terminal front end draws: colors, cells, and the commands
//! that bring the screen from one frame to the next.

pub mod buffer;

use vstd::prelude::*;

use buffer::{Cell, Change};

verus! {

/// A terminal color.
#[derive(Debug, Clone, Copy, PartialEq, Eq, Structural)]
pub enum Color {
    Reset,
    Black,
    DarkGrey,
    Red,
    DarkRed,
    Green,
    DarkGreen,
    Yellow,
    DarkYellow,
    Blue,
    DarkBlue,
    Magenta,
    DarkMagenta,
    Cyan,
    DarkCyan,
    White,
    Grey,
    Rgb { r: u8, g: u8, b: u8 },
    AnsiValue(u8),
}

/// A drawing command for the terminal.
#[derive(Debug, Clone, Copy, PartialEq, Eq, Structural)]
pub enum DrawCommand {
    MoveTo(u16, u16),
    SetForeground(Color),
    SetBackground(Color),
    Print(char),
}

/// The commands that draw one change: a move unless the cell follows the
/// first one of the top row, colors unless they are the terminal's own, and
/// the character.
pub open spec fn change_commands(c: Change) -> Seq<DrawCommand> {
    let (x, y, cell) = c;
    (if x != 1 || y != 0 {
        seq![DrawCommand::MoveTo(x as u16, y as u16)]
    } else {
        seq![]
    }) + (if cell.fg != Color::Reset {
        seq![DrawCommand::SetForeground(cell.fg)]
    } else {
        seq![]
    }) + (if cell.bg != Color::Reset {
        seq![DrawCommand::SetBackground(cell.bg)]
    } else {
        seq![]
    }) + seq![DrawCommand::Print(cell.ch)]
}

/// The commands for a list of changes, one change after another.
pub open spec fn frame_commands_spec(cs: Seq<Change>) -> Seq<DrawCommand>
    decreases cs.len(),
{
    if cs.len() == 0 {
        seq![]
    } else {
        frame_commands_spec(cs.drop_last()) + change_commands(cs.last())
    }
}

/// The commands that draw a frame's changes. Each change is compared with
/// the terminal's starting state (origin, default colors).
pub fn frame_commands(changes: &Vec<Change>) -> (cmds: Vec<DrawCommand>)
    ensures
        cmds@ == frame_commands_spec(changes@),
{
    let prev_x: usize = 0;
    let prev_y: usize = 0;
    let prev_fg = Color::Reset;
    let prev_bg = Color::Reset;

    let mut cmds: Vec<DrawCommand> = Vec::new();
    let mut i: usize = 0;
    while i < changes.len()
        invariant
            0 <= i <= changes@.len(),
            prev_x == 0,
            prev_y == 0,
            prev_fg == Color::Reset,
            prev_bg == Color::Reset,
            cmds@ == frame_commands_spec(changes@.take(i as int)),
        decreases changes@.len() - i,
    {
        let (x, y, cell) = changes[i];
        let ghost before = cmds@;
        if x != prev_x + 1 || y != prev_y {
            cmds.push(DrawCommand::MoveTo(#[verifier::truncate] (x as u16), #[verifier::truncate] (y as u16)));
        }
        if cell.fg != prev_fg {
            cmds.push(DrawCommand::SetForeground(cell.fg));
        }
        if cell.bg != prev_bg {
            cmds.push(DrawCommand::SetBackground(cell.bg));
        }
        cmds.push(DrawCommand::Print(cell.ch));
        proof {
            let t = changes@.take(i + 1);
            assert(t.drop_last() =~= changes@.take(i as int));
            assert(cmds@ =~= before + change_commands(changes@[i as int]));
        }
        i = i + 1;
    }
    proof {
        assert(changes@.take(changes@.len() as int) =~= changes@);
    }
    cmds
}

} // verus!
