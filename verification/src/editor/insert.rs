use vstd::prelude::*;

use super::key::{KeyCode, KeyEvent};
use super::text::{boundary_at, sat_sub};
use super::{Editor, EditorModel, Mode};
use crate::strings::char_utf8;

verus! {

/// `handle` can process `key` in insert mode.
pub open spec fn can_handle(e: EditorModel, key: KeyEvent) -> bool {
    match key.code {
        KeyCode::Esc | KeyCode::Left => e.wf(),
        KeyCode::Right => e.placeable(),
        KeyCode::Up => e.can_place(sat_sub(e.cursor().y as int, 1)),
        KeyCode::Down => {
            &&& e.wf()
            &&& e.lines().len() > 0
            &&& e.cursor().y + 1 < e.lines().len() ==> e.can_place(e.cursor().y + 1)
        },
        KeyCode::Char(_) => {
            &&& e.on_line()
            &&& boundary_at(e.line(), e.cursor().x as int)
            &&& e.cursor().x + 1 <= usize::MAX
        },
        KeyCode::Tab => {
            &&& e.on_line()
            &&& boundary_at(e.line(), e.cursor().x as int)
            &&& e.cursor().x + 2 <= usize::MAX
        },
        KeyCode::Enter => e.can_enter(),
        KeyCode::Backspace => e.can_backspace(),
        KeyCode::Other => true,
    }
}

/// The editor after `key` in insert mode.
pub open spec fn handled(e: EditorModel, key: KeyEvent) -> EditorModel {
    match key.code {
        KeyCode::Esc => e.with_mode(Mode::Normal).moved_left(1),
        KeyCode::Left => e.moved_left(1),
        KeyCode::Right => e.moved_right(),
        KeyCode::Up => e.moved_up(1),
        KeyCode::Down => e.moved_down(),
        KeyCode::Char(ch) => e.char_inserted(ch).at_col(e.cursor().x + 1),
        KeyCode::Enter => e.entered(),
        KeyCode::Backspace => e.backspaced(),
        KeyCode::Tab => e.char_inserted(' ').char_inserted(' ').at_col(e.cursor().x + 2),
        KeyCode::Other => e,
    }
}

/// A space starts a character.
proof fn lemma_space_is_boundary(line: Seq<u8>, x: int)
    requires
        vstd::utf8::valid_utf8(line),
        0 <= x < line.len(),
        line[x] == 32u8,
    ensures
        boundary_at(line, x),
{
    vstd::utf8::is_char_boundary_iff_not_is_continuation_byte(line, x);
    let b = line[x];
    assert(b == 32u8 ==> !vstd::utf8::is_continuation_byte(b)) by (bit_vector);
}

pub fn handle(ed: &mut Editor, key: KeyEvent)
    requires
        can_handle(old(ed)@, key),
    ensures
        final(ed)@ == handled(old(ed)@, key),
{
    match key.code {
        // insert -> normal
        KeyCode::Esc => {
            ed.mode = Mode::Normal;
            ed.move_left();
        },
        // movement
        KeyCode::Left => ed.move_left(),
        KeyCode::Right => ed.move_right(),
        KeyCode::Up => ed.move_up(),
        KeyCode::Down => ed.move_down(),
        // edit
        KeyCode::Char(ch) => {
            ed.insert_char(ch);
            let cur = ed.cursor_mut();
            cur.x += 1;
            cur.want_x = cur.x;
        },
        KeyCode::Enter => ed.enter(),
        KeyCode::Backspace => ed.backspace(),
        KeyCode::Tab => {
            let ghost e = ed@;
            ed.insert_char(' ');
            proof {
                let x = e.cursor().x as int;
                crate::strings::lemma_char_utf8(' ');
                super::lemma_lines_valid(ed);
                super::lemma_lines_valid(&*old(ed));
                crate::strings::lemma_boundary_in_range(e.line(), x);
                assert(ed@.line() == e.line().take(x) + char_utf8(' ') + e.line().skip(x));
                assert(ed@.line()[x] == 32u8);
                lemma_space_is_boundary(ed@.line(), x);
            }
            ed.insert_char(' ');
            let cur = ed.cursor_mut();
            cur.x += 2;
            cur.want_x = cur.x;
        },
        _ => {},
    }
}

} // verus!
