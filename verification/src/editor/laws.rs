//! Properties of the editor that hold across operations.

use vstd::prelude::*;

use super::cmdline;
use super::insert;
use super::key::{Event, KeyCode, KeyEvent};
use super::motion::{applied, can_apply, motion_of, Motion};
use super::normal::{self, count_of, is_count_digit, without_count};
use super::operator::{self, Operator, State};
use super::text::{boundary_at, lines_without, max_x_for, min, sat_sub};
use super::{
    can_update, editor_with, is_interrupt, switched, updated, BufferModel, Cursor, EditorModel,
    MessageModel, Mode,
};

verus! {

/// The view a buffer remembers, if any, has its cursor on a line of it, at
/// a column the cursor may take there in normal mode.
pub open spec fn view_in_text(b: BufferModel) -> bool {
    match b.last_view {
        Some((c, _)) => c.y < b.lines.len() && c.x <= max_x_for(
            Mode::Normal,
            b.lines[c.y as int].len() as int,
        ),
        None => true,
    }
}

/// The cursor's column is one it may take on its line in the current mode:
/// past the end in insert mode, on the last byte otherwise.
pub open spec fn on_column(e: EditorModel) -> bool {
    e.cursor().x <= e.max_x()
}

/// The editor's invariant: the cursor is on a line of its buffer and at a
/// column it may take there, every buffer holds a line, and every buffer but
/// the one shown remembers a view in its text.
pub open spec fn cursor_in_text(e: EditorModel) -> bool {
    rows_in_text(e) && on_column(e)
}

/// The cursor is on a line of its buffer, every buffer holds a line, and
/// every buffer but the one shown remembers a view on one of its lines.
pub open spec fn rows_in_text(e: EditorModel) -> bool {
    &&& e.wf()
    &&& forall|i: int| 0 <= i < e.buffers.len() ==> #[trigger] e.buffers[i].lines.len() > 0
    &&& e.cursor().y < e.lines().len()
    &&& forall|i: int|
        0 <= i < e.buffers.len() && i != e.bufid() ==> view_in_text(#[trigger] e.buffers[i])
}

/// The same as `rows_in_text`, for the current buffer replaced by `b`.
proof fn lemma_with_buf(e: EditorModel, b: BufferModel)
    requires
        rows_in_text(e),
        b.lines.len() > 0,
        e.cursor().y < b.lines.len(),
    ensures
        rows_in_text(e.with_buf(b)),
{
    let f = e.with_buf(b);
    assert forall|i: int| 0 <= i < f.windows.len() implies #[trigger] f.windows[i].bufid
        < f.buffers.len() by {
        assert(f.windows[i] == e.windows[i]);
    }
    assert forall|i: int| 0 <= i < f.buffers.len() implies #[trigger] f.buffers[i].lines.len()
        > 0 by {
        if i != e.bufid() {
            assert(f.buffers[i] == e.buffers[i]);
        }
    }
    assert forall|i: int| 0 <= i < f.buffers.len() && i != f.bufid() implies view_in_text(
        #[trigger] f.buffers[i],
    ) by {
        assert(f.buffers[i] == e.buffers[i]);
    }
}

proof fn lemma_with_lines(e: EditorModel, lines: Seq<Seq<u8>>)
    requires
        rows_in_text(e),
        lines.len() > 0,
        e.cursor().y < lines.len(),
    ensures
        rows_in_text(e.with_lines(lines)),
{
    lemma_with_buf(e, BufferModel { lines, ..e.buf() });
}

proof fn lemma_smudged(e: EditorModel)
    requires
        rows_in_text(e),
    ensures
        rows_in_text(e.smudged()),
{
    lemma_with_buf(e, BufferModel { is_dirty: true, ..e.buf() });
}

proof fn lemma_with_cursor(e: EditorModel, c: Cursor)
    requires
        rows_in_text(e),
        c.y < e.lines().len(),
    ensures
        rows_in_text(e.with_cursor(c)),
{
    let f = e.with_cursor(c);
    assert forall|i: int| 0 <= i < f.windows.len() implies #[trigger] f.windows[i].bufid
        < f.buffers.len() by {
        if i != e.winid {
            assert(f.windows[i] == e.windows[i]);
        }
    }
}

proof fn lemma_placed(e: EditorModel, x: int, y: int, w: int)
    requires
        rows_in_text(e),
        0 <= y < e.lines().len(),
    ensures
        rows_in_text(e.placed(x, y, w)),
{
    lemma_with_cursor(
        e,
        Cursor { x: min(x, e.max_x_at(y)) as usize, y: y as usize, want_x: w as usize },
    );
}

proof fn lemma_at_col(e: EditorModel, x: int)
    requires
        rows_in_text(e),
    ensures
        rows_in_text(e.at_col(x)),
{
    lemma_with_cursor(e, Cursor { x: x as usize, y: e.cursor().y, want_x: x as usize });
}

proof fn lemma_motion(e: EditorModel, m: Motion)
    requires
        rows_in_text(e),
        can_apply(e, m),
    ensures
        rows_in_text(applied(e, m)),
{
    match m {
        Motion::Left(n) => lemma_at_col(e, sat_sub(e.cursor().x as int, n as int)),
        Motion::Right(n) => lemma_at_col(e, min(e.cursor().x + n, e.max_x())),
        Motion::Up(n) => lemma_placed(
            e,
            e.cursor().want_x as int,
            sat_sub(e.cursor().y as int, n as int),
            e.cursor().want_x as int,
        ),
        Motion::Down(n) => lemma_placed(
            e,
            e.cursor().want_x as int,
            min(e.cursor().y + n, e.lines().len() - 1),
            e.cursor().want_x as int,
        ),
        Motion::Bol => lemma_at_col(e, 0),
        Motion::Eol => lemma_at_col(e, e.max_x()),
    }
}

proof fn lemma_char_removed(e: EditorModel, col: int)
    requires
        rows_in_text(e),
    ensures
        rows_in_text(e.char_removed(col)),
{
    lemma_smudged(e);
    let line = e.line();
    lemma_with_lines(
        e.smudged(),
        e.lines().update(e.cursor().y as int, line.take(col) + line.skip(col + crate::strings::width_at(line, col))),
    );
}

proof fn lemma_with_mode(e: EditorModel, m: Mode)
    requires
        rows_in_text(e),
    ensures
        rows_in_text(e.with_mode(m)),
{
}

proof fn lemma_with_line(e: EditorModel, line: Seq<u8>)
    requires
        rows_in_text(e),
    ensures
        rows_in_text(e.with_line(line)),
{
    lemma_with_lines(e, e.lines().update(e.cursor().y as int, line));
}

proof fn lemma_char_inserted(e: EditorModel, ch: char)
    requires
        rows_in_text(e),
    ensures
        rows_in_text(e.char_inserted(ch)),
{
    let x = e.cursor().x as int;
    lemma_with_line(e, e.line().take(x) + crate::strings::char_utf8(ch) + e.line().skip(x));
    lemma_smudged(e.with_line(e.line().take(x) + crate::strings::char_utf8(ch) + e.line().skip(x)));
}

proof fn lemma_line_inserted(e: EditorModel, row: int, content: Seq<u8>)
    requires
        rows_in_text(e),
        0 <= row <= e.lines().len(),
    ensures
        rows_in_text(e.line_inserted(row, content)),
        e.line_inserted(row, content).lines().len() == e.lines().len() + 1,
{
    lemma_smudged(e);
    lemma_with_lines(e.smudged(), e.lines().insert(row, content));
}

proof fn lemma_clamped_sync(e: EditorModel)
    requires
        rows_in_text(e),
    ensures
        rows_in_text(e.clamped_sync()),
        rows_in_text(e.clamped()),
{
    lemma_placed(e, e.cursor().x as int, e.cursor().y as int, min(e.cursor().x as int, e.max_x()));
    lemma_placed(e, e.cursor().x as int, e.cursor().y as int, e.cursor().want_x as int);
}

proof fn lemma_deleted_line(e: EditorModel)
    requires
        rows_in_text(e),
    ensures
        rows_in_text(e.deleted_line()),
{
    let n = e.lines().len() as int;
    let y = e.cursor().y as int;
    let e1 = if n == 1 {
        e.with_line(Seq::empty())
    } else {
        e.line_removed(y)
    };
    if n == 1 {
        lemma_with_line(e, Seq::empty());
    } else {
        lemma_smudged(e);
        let y1 = if y == n - 1 { y - 1 } else { y };
        // The cursor row of `e1` is checked after it is placed.
        let b = BufferModel { lines: e.lines().remove(y), ..e.smudged().buf() };
        assert(b.lines.len() == n - 1);
        let f = e.smudged().with_buf(b);
        lemma_with_buf_any_row(e.smudged(), b);
        assert(e1 == f);
    }
    let at_end = y == n - 1;
    let x0 = if at_end { e.cursor().want_x as int } else { e.cursor().x as int };
    let y1 = if at_end { sat_sub(y, 1) } else { y };
    lemma_placed_any(e1, x0, y1, min(x0, e1.max_x_at(y1)));
}

/// Like `lemma_with_buf`, when the cursor row is fixed up afterwards.
proof fn lemma_with_buf_any_row(e: EditorModel, b: BufferModel)
    requires
        rows_in_text(e),
        b.lines.len() > 0,
    ensures
        placeable_text(e.with_buf(b)),
{
    let f = e.with_buf(b);
    assert forall|i: int| 0 <= i < f.windows.len() implies #[trigger] f.windows[i].bufid
        < f.buffers.len() by {
        assert(f.windows[i] == e.windows[i]);
    }
    assert forall|i: int| 0 <= i < f.buffers.len() implies #[trigger] f.buffers[i].lines.len()
        > 0 by {
        if i != e.bufid() {
            assert(f.buffers[i] == e.buffers[i]);
        }
    }
    assert forall|i: int| 0 <= i < f.buffers.len() && i != f.bufid() implies view_in_text(
        #[trigger] f.buffers[i],
    ) by {
        assert(f.buffers[i] == e.buffers[i]);
    }
}

/// `rows_in_text` but for where the cursor row is.
pub open spec fn placeable_text(e: EditorModel) -> bool {
    &&& e.wf()
    &&& forall|i: int| 0 <= i < e.buffers.len() ==> #[trigger] e.buffers[i].lines.len() > 0
    &&& forall|i: int|
        0 <= i < e.buffers.len() && i != e.bufid() ==> view_in_text(#[trigger] e.buffers[i])
}

proof fn lemma_placed_any(e: EditorModel, x: int, y: int, w: int)
    requires
        placeable_text(e),
        0 <= y < e.lines().len(),
    ensures
        rows_in_text(e.placed(x, y, w)),
{
    let f = e.placed(x, y, w);
    assert forall|i: int| 0 <= i < f.windows.len() implies #[trigger] f.windows[i].bufid
        < f.buffers.len() by {
        if i != e.winid {
            assert(f.windows[i] == e.windows[i]);
        }
    }
}

proof fn lemma_deleted_lines(e: EditorModel, count: int)
    requires
        rows_in_text(e),
        count >= 0,
    ensures
        rows_in_text(e.deleted_lines(count)),
{
    let y = e.cursor().y as int;
    let rest = lines_without(e.lines(), y, e.delete_end(count));
    let ny = min(y, rest.len() - 1);
    let b = BufferModel { lines: rest, ..e.buf() };
    lemma_with_buf_any_row(e, b);
    let e1 = e.with_lines(rest);
    lemma_placed_any(e1, e.cursor().x as int, ny, min(e.cursor().x as int, e1.max_x_at(ny)));
    lemma_smudged(e1.placed(e.cursor().x as int, ny, min(e.cursor().x as int, e1.max_x_at(ny))));
}

proof fn lemma_deleted_to_ends(e: EditorModel)
    requires
        rows_in_text(e),
    ensures
        rows_in_text(e.deleted_under_cursor()),
        rows_in_text(e.deleted_to_eol()),
        rows_in_text(e.deleted_to_bol()),
{
    let x = e.cursor().x as int;
    lemma_char_removed(e, x);
    lemma_clamped_sync(e.char_removed(x));
    lemma_with_line(e, e.line().take(x));
    lemma_clamped_sync(e.with_line(e.line().take(x)));
    lemma_smudged(e.with_line(e.line().take(x)).clamped_sync());
    lemma_with_line(e, e.line().skip(x));
    lemma_clamped_sync(e.with_line(e.line().skip(x)));
    lemma_smudged(e.with_line(e.line().skip(x)).clamped_sync());
}

proof fn lemma_entered(e: EditorModel)
    requires
        rows_in_text(e),
    ensures
        rows_in_text(e.entered()),
{
    let x = e.cursor().x as int;
    let y = e.cursor().y as int;
    let lines = e.lines().update(y, e.line().take(x)).insert(y + 1, e.line().skip(x));
    lemma_smudged(e);
    lemma_with_lines(e.smudged(), lines);
    lemma_placed(e.smudged().with_lines(lines), 0, y + 1, 0);
}

proof fn lemma_backspaced(e: EditorModel)
    requires
        rows_in_text(e),
    ensures
        rows_in_text(e.backspaced()),
{
    let x = e.cursor().x as int;
    let y = e.cursor().y as int;
    if x > 0 {
        lemma_at_col(e, x - 1);
        lemma_char_removed(e.moved_left(1), x - 1);
    } else if y > 0 {
        let prev = e.lines()[y - 1];
        lemma_smudged(e);
        let b = BufferModel { lines: e.lines().remove(y), ..e.smudged().buf() };
        lemma_with_buf_any_row(e.smudged(), b);
        assert(e.line_removed(y) == e.smudged().with_buf(b));
        lemma_placed_any(e.line_removed(y), prev.len() as int, y - 1, prev.len() as int);
        let e1 = e.line_removed(y).placed(prev.len() as int, y - 1, prev.len() as int);
        lemma_with_line(e1, prev + e.line());
    }
}

proof fn lemma_normal(e: EditorModel, key: KeyEvent)
    requires
        rows_in_text(e),
        normal::can_handle(e, key),
    ensures
        rows_in_text(normal::handled(e, key)),
{
    if !is_count_digit(e, key.code) {
        let e1 = without_count(e);
        let c = e1.cursor();
        assert(rows_in_text(e1));
        match motion_of(key.code, count_of(e)) {
            Some(m) => lemma_motion(e1, m),
            None => {
                let ins = e1.with_mode(Mode::Insert);
                lemma_with_mode(e1, Mode::Insert);
                match key.code {
                    KeyCode::Char('a') => lemma_at_col(ins, ins.cursor().x + 1),
                    KeyCode::Char('I') => lemma_at_col(ins, 0),
                    KeyCode::Char('A') => lemma_at_col(ins, ins.max_x()),
                    KeyCode::Char('o') => {
                        lemma_line_inserted(e1, c.y + 1, Seq::empty());
                        let e2 = e1.line_inserted(c.y + 1, Seq::empty()).with_mode(Mode::Insert);
                        lemma_with_mode(e1.line_inserted(c.y + 1, Seq::empty()), Mode::Insert);
                        lemma_with_cursor(e2, Cursor { y: (c.y + 1) as usize, ..c });
                        lemma_at_col(e2.with_cursor(Cursor { y: (c.y + 1) as usize, ..c }), 0);
                    },
                    KeyCode::Char('O') => {
                        lemma_line_inserted(e1, c.y as int, Seq::empty());
                        lemma_with_mode(e1.line_inserted(c.y as int, Seq::empty()), Mode::Insert);
                        lemma_at_col(
                            e1.line_inserted(c.y as int, Seq::empty()).with_mode(Mode::Insert),
                            0,
                        );
                    },
                    KeyCode::Char('s') => {
                        lemma_char_removed(e1, c.x as int);
                        lemma_with_mode(e1.char_removed(c.x as int), Mode::Insert);
                    },
                    KeyCode::Char('G') => {
                        lemma_with_cursor(e1, Cursor { y: (e1.lines().len() - 1) as usize, ..c });
                        lemma_clamped_sync(
                            e1.with_cursor(Cursor { y: (e1.lines().len() - 1) as usize, ..c }),
                        );
                    },
                    KeyCode::Char('x') | KeyCode::Char('D') => lemma_deleted_to_ends(e1),
                    KeyCode::Char('C') => lemma_deleted_to_ends(ins),
                    _ => {},
                }
            },
        }
    }
}

proof fn lemma_insert(e: EditorModel, key: KeyEvent)
    requires
        rows_in_text(e),
        insert::can_handle(e, key),
    ensures
        rows_in_text(insert::handled(e, key)),
{
    match key.code {
        KeyCode::Esc => {
            lemma_with_mode(e, Mode::Normal);
            lemma_at_col(e.with_mode(Mode::Normal), sat_sub(e.cursor().x as int, 1));
        },
        KeyCode::Left => lemma_motion(e, Motion::Left(1)),
        KeyCode::Right => {
            lemma_at_col(e, e.cursor().x + 1);
        },
        KeyCode::Up => lemma_motion(e, Motion::Up(1)),
        KeyCode::Down => {
            if e.cursor().y + 1 < e.lines().len() {
                lemma_placed(
                    e,
                    e.cursor().want_x as int,
                    e.cursor().y + 1,
                    e.cursor().want_x as int,
                );
            }
        },
        KeyCode::Char(ch) => {
            lemma_char_inserted(e, ch);
            lemma_at_col(e.char_inserted(ch), e.cursor().x + 1);
        },
        KeyCode::Tab => {
            lemma_char_inserted(e, ' ');
            lemma_char_inserted(e.char_inserted(' '), ' ');
            lemma_at_col(e.char_inserted(' ').char_inserted(' '), e.cursor().x + 2);
        },
        KeyCode::Enter => lemma_entered(e),
        KeyCode::Backspace => lemma_backspaced(e),
        _ => {},
    }
}

proof fn lemma_operator(e: EditorModel, key: KeyEvent, state: State)
    requires
        rows_in_text(e),
        operator::can_handle(e, key, state),
    ensures
        rows_in_text(operator::handled(e, key, state)),
{
    let e1 = without_count(e);
    assert(rows_in_text(e1));
    match motion_of(key.code, count_of(e)) {
        Some(m) => {
            let e2 = e1.with_mode(operator::mode_after(state.op));
            lemma_with_mode(e1, operator::mode_after(state.op));
            match m {
                Motion::Down(n) => lemma_deleted_lines(e2, n + 1),
                Motion::Bol | Motion::Eol => lemma_deleted_to_ends(e2),
                _ => {},
            }
        },
        None => {
            lemma_deleted_line(e1);
            lemma_with_mode(e1.deleted_line(), Mode::Normal);
            lemma_with_line(e1, Seq::empty());
            lemma_at_col(e1.with_line(Seq::empty()), 0);
            lemma_with_mode(e1.with_line(Seq::empty()).at_col(0), Mode::Insert);
        },
    }
}

proof fn lemma_command(e: EditorModel, key: KeyEvent)
    requires
        rows_in_text(e),
    ensures
        rows_in_text(cmdline::handled(e, key).0),
{
}

/// Every event the editor handles keeps the cursor on a line of its buffer
/// and leaves every buffer with at least one line.
proof fn lemma_update_keeps_rows(e: EditorModel, event: Event)
    requires
        rows_in_text(e),
        can_update(e, event),
    ensures
        rows_in_text(updated(e, event).0),
{
    match event {
        Event::Key(k) => {
            if !is_interrupt(k) {
                match e.mode {
                    Mode::Normal => lemma_normal(e, k),
                    Mode::Insert => lemma_insert(e, k),
                    Mode::Command => lemma_command(e, k),
                    Mode::OperatorPending(s) => lemma_operator(e, k, s),
                }
            }
        },
        Event::Other => {},
    }
}

/// A character that starts at `col` ends within the line.
proof fn lemma_width_fits(line: Seq<u8>, col: int)
    requires
        vstd::utf8::valid_utf8(line),
        boundary_at(line, col),
        0 <= col < line.len(),
    ensures
        1 <= crate::strings::width_at(line, col),
        col + crate::strings::width_at(line, col) <= line.len(),
{
    vstd::utf8::valid_utf8_split(line, col);
    let suf = line.subrange(col, line.len() as int);
    assert(line.skip(col) =~= suf);
    assert(vstd::utf8::valid_first_scalar(suf));
}

proof fn lemma_col_placed(e: EditorModel, x: int, y: int, w: int)
    requires
        e.wf(),
        0 <= x,
        0 <= y <= usize::MAX,
    ensures
        on_column(e.placed(x, y, w)),
{
    let m = min(x, e.max_x_at(y));
    let f = e.placed(x, y, w);
    assert(f.cursor().x == m as usize);
    assert(f.cursor().y == y);
    assert(f.lines() == e.lines());
    assert(f.max_x() == e.max_x_at(y));
    assert(m >= 0);
    assert(m as usize <= m);
}

proof fn lemma_col_at_col(e: EditorModel, x: int)
    requires
        e.wf(),
        0 <= x <= e.max_x(),
    ensures
        on_column(e.at_col(x)),
{
    let f = e.at_col(x);
    assert(f.cursor().x == x as usize);
    assert(f.cursor().y == e.cursor().y);
    assert(f.lines() == e.lines());
    assert(x as usize <= x);
}

/// Removing the character at `col` from a line leaves it long enough for a
/// cursor at `col` in insert mode.
proof fn lemma_col_removed(e: EditorModel, col: int)
    requires
        rows_in_text(e),
        lines_utf8(e),
        e.can_remove_at(col),
    ensures
        e.char_removed(col).line().len() >= col,
        e.char_removed(col).cursor() == e.cursor(),
        e.char_removed(col).mode == e.mode,
{
    let line = e.line();
    lemma_width_fits(line, col);
}

proof fn lemma_col_motion(e: EditorModel, m: Motion)
    requires
        rows_in_text(e),
        on_column(e),
        can_apply(e, m),
    ensures
        on_column(applied(e, m)),
{
    match m {
        Motion::Left(n) => lemma_col_at_col(e, sat_sub(e.cursor().x as int, n as int)),
        Motion::Right(n) => lemma_col_at_col(e, min(e.cursor().x + n, e.max_x())),
        Motion::Up(n) => lemma_col_placed(
            e,
            e.cursor().want_x as int,
            sat_sub(e.cursor().y as int, n as int),
            e.cursor().want_x as int,
        ),
        Motion::Down(n) => lemma_col_placed(
            e,
            e.cursor().want_x as int,
            min(e.cursor().y + n, e.lines().len() - 1),
            e.cursor().want_x as int,
        ),
        Motion::Bol => lemma_col_at_col(e, 0),
        Motion::Eol => lemma_col_at_col(e, e.max_x()),
    }
}

proof fn lemma_col_deleted_to_ends(e: EditorModel)
    requires
        rows_in_text(e),
        on_column(e),
    ensures
        e.line().len() > 0 ==> on_column(e.deleted_under_cursor()),
        on_column(e.deleted_to_eol()),
        on_column(e.deleted_to_bol()),
{
    let x = e.cursor().x as int;
    let y = e.cursor().y as int;
    let f = e.char_removed(x);
    lemma_col_placed(f, x, y, min(x, f.max_x()));
    let g = e.with_line(e.line().take(x));
    lemma_col_placed(g, x, y, min(x, g.max_x()));
    let h = e.with_line(e.line().skip(x));
    lemma_col_placed(h, x, y, min(x, h.max_x()));
}

proof fn lemma_col_normal(e: EditorModel, key: KeyEvent)
    requires
        rows_in_text(e),
        on_column(e),
        lines_utf8(e),
        e.mode == Mode::Normal,
        normal::can_handle(e, key),
    ensures
        on_column(normal::handled(e, key)),
{
    if !is_count_digit(e, key.code) {
        let e1 = without_count(e);
        let c = e1.cursor();
        assert(rows_in_text(e1));
        assert(lines_utf8(e1));
        match motion_of(key.code, count_of(e)) {
            Some(m) => lemma_col_motion(e1, m),
            None => {
                let ins = e1.with_mode(Mode::Insert);
                match key.code {
                    KeyCode::Char('a') => {
                        if ins.cursor().x < ins.max_x() {
                            lemma_col_at_col(ins, ins.cursor().x + 1);
                        }
                    },
                    KeyCode::Char('I') => lemma_col_at_col(ins, 0),
                    KeyCode::Char('A') => lemma_col_at_col(ins, ins.max_x()),
                    KeyCode::Char('o') => {
                        let e2 = e1.line_inserted(c.y + 1, Seq::empty()).with_mode(Mode::Insert);
                        lemma_col_at_col(e2.with_cursor(Cursor { y: (c.y + 1) as usize, ..c }), 0);
                    },
                    KeyCode::Char('O') => {
                        lemma_col_at_col(
                            e1.line_inserted(c.y as int, Seq::empty()).with_mode(Mode::Insert),
                            0,
                        );
                    },
                    KeyCode::Char('s') => {
                        if e1.line().len() != 0 {
                            lemma_col_removed(e1, c.x as int);
                        }
                    },
                    KeyCode::Char('G') => {
                        let f = e1.with_cursor(Cursor { y: (e1.lines().len() - 1) as usize, ..c });
                        lemma_col_placed(
                            f,
                            f.cursor().x as int,
                            f.cursor().y as int,
                            f.cursor().want_x as int,
                        );
                    },
                    KeyCode::Char('x') | KeyCode::Char('D') => lemma_col_deleted_to_ends(e1),
                    KeyCode::Char('C') => lemma_col_deleted_to_ends(ins),
                    _ => {},
                }
            },
        }
    }
}

proof fn lemma_col_insert(e: EditorModel, key: KeyEvent)
    requires
        rows_in_text(e),
        on_column(e),
        lines_utf8(e),
        e.mode == Mode::Insert,
        insert::can_handle(e, key),
    ensures
        on_column(insert::handled(e, key)),
{
    let x = e.cursor().x as int;
    let y = e.cursor().y as int;
    match key.code {
        KeyCode::Esc => lemma_col_at_col(e.with_mode(Mode::Normal), sat_sub(x, 1)),
        KeyCode::Left => lemma_col_motion(e, Motion::Left(1)),
        KeyCode::Right => {
            if x < e.max_x() {
                lemma_col_at_col(e, x + 1);
            }
        },
        KeyCode::Up => lemma_col_motion(e, Motion::Up(1)),
        KeyCode::Down => {
            if y + 1 < e.lines().len() {
                lemma_col_placed(e, e.cursor().want_x as int, y + 1, e.cursor().want_x as int);
            }
        },
        KeyCode::Char(ch) => {
            crate::strings::lemma_char_utf8(ch);
            lemma_col_at_col(e.char_inserted(ch), x + 1);
        },
        KeyCode::Tab => {
            crate::strings::lemma_char_utf8(' ');
            let f = e.char_inserted(' ');
            assert(f.line().len() == e.line().len() + 1);
            assert(f.char_inserted(' ').line().len() == e.line().len() + 2);
            lemma_col_at_col(f.char_inserted(' '), x + 2);
        },
        KeyCode::Enter => {
            let lines = e.lines().update(y, e.line().take(x)).insert(y + 1, e.line().skip(x));
            lemma_col_placed(e.smudged().with_lines(lines), 0, y + 1, 0);
        },
        KeyCode::Backspace => {
            if x > 0 {
                let l = e.moved_left(1);
                assert(rows_in_text(l)) by {
                    lemma_at_col(e, x - 1);
                }
                lemma_col_removed(l, x - 1);
            } else if y > 0 {
                let prev = e.lines()[y - 1];
                let e1 = e.line_removed(y);
                assert(e1.lines()[y - 1] == prev);
                lemma_col_placed(e1, prev.len() as int, y - 1, prev.len() as int);
            }
        },
        _ => {},
    }
}

proof fn lemma_col_operator(e: EditorModel, key: KeyEvent, state: State)
    requires
        rows_in_text(e),
        on_column(e),
        e.mode == Mode::OperatorPending(state),
        operator::can_handle(e, key, state),
    ensures
        on_column(operator::handled(e, key, state)),
{
    let e1 = without_count(e);
    assert(rows_in_text(e1));
    let x = e1.cursor().x as int;
    let y = e1.cursor().y as int;
    match motion_of(key.code, count_of(e)) {
        Some(m) => {
            let e2 = e1.with_mode(operator::mode_after(state.op));
            assert(rows_in_text(e2)) by {
                lemma_with_mode(e1, operator::mode_after(state.op));
            }
            match m {
                Motion::Down(n) => {
                    let rest = lines_without(e2.lines(), y, e2.delete_end(n + 1));
                    let ny = min(y, rest.len() - 1);
                    let f = e2.with_lines(rest);
                    lemma_col_placed(f, x, ny, min(x, f.max_x_at(ny)));
                },
                Motion::Bol | Motion::Eol => lemma_col_deleted_to_ends(e2),
                _ => {},
            }
        },
        None => {
            let n = e1.lines().len() as int;
            let f = if n == 1 {
                e1.with_line(Seq::empty())
            } else {
                e1.line_removed(y)
            };
            let at_end = y == n - 1;
            let x0 = if at_end {
                e1.cursor().want_x as int
            } else {
                x
            };
            let y1 = if at_end {
                sat_sub(y, 1)
            } else {
                y
            };
            lemma_col_placed(f, x0, y1, min(x0, f.max_x_at(y1)));
            lemma_col_at_col(e1.with_line(Seq::empty()), 0);
        },
    }
}

/// Law: every event the editor handles keeps its invariant: the cursor on a
/// line of its buffer and at a column it may take there, every buffer with
/// at least one line, and every remembered view in its text.
pub proof fn lemma_update_keeps_cursor_in_text(e: EditorModel, event: Event)
    requires
        cursor_in_text(e),
        lines_utf8(e),
        can_update(e, event),
    ensures
        cursor_in_text(updated(e, event).0),
{
    lemma_update_keeps_rows(e, event);
    match event {
        Event::Key(k) => {
            if !is_interrupt(k) {
                match e.mode {
                    Mode::Normal => lemma_col_normal(e, k),
                    Mode::Insert => lemma_col_insert(e, k),
                    Mode::Command => {},
                    Mode::OperatorPending(s) => lemma_col_operator(e, k, s),
                }
            }
        },
        Event::Other => {},
    }
}

pub open spec fn key(code: KeyCode) -> Event {
    Event::Key(KeyEvent { code, ctrl: false })
}

/// Every line of the current buffer is UTF-8.
pub open spec fn lines_utf8(e: EditorModel) -> bool {
    forall|i: int| 0 <= i < e.lines().len() ==> vstd::utf8::valid_utf8(#[trigger] e.lines()[i])
}

proof fn lemma_char_inserted_then_backspaced(e: EditorModel, ch: char)
    requires
        e.mode == Mode::Insert,
        e.on_line(),
        lines_utf8(e),
        super::text::boundary_at(e.line(), e.cursor().x as int),
        e.cursor().x <= i32::MAX,
    ensures
        ({
            let typed = e.char_inserted(ch).at_col(e.cursor().x + 1);
            &&& typed.can_backspace()
            &&& typed.backspaced().lines() == e.lines()
            &&& typed.backspaced().cursor() == (Cursor {
                x: e.cursor().x,
                y: e.cursor().y,
                want_x: e.cursor().x,
            })
        }),
{
    let x = e.cursor().x as int;
    let line = e.line();
    let enc = crate::strings::char_utf8(ch);
    let line1 = line.take(x) + enc + line.skip(x);
    let typed = e.char_inserted(ch).at_col(x + 1);
    vstd::utf8::encode_utf8_valid_utf8(seq![ch]);
    crate::strings::lemma_boundary_in_range(line, x);
    crate::strings::lemma_char_first(ch, line.skip(x));
    assert(typed.line() == line1);
    assert(line1.skip(x) =~= enc + line.skip(x));
    assert(line1[x] == (enc + line.skip(x))[0]);
    vstd::utf8::valid_utf8_split(line, x);
    assert(line.take(x) =~= line.subrange(0, x));
    assert(line.skip(x) =~= line.subrange(x, line.len() as int));
    vstd::utf8::valid_utf8_concat(line.take(x), enc);
    vstd::utf8::valid_utf8_concat(line.take(x) + enc, line.skip(x));
    vstd::utf8::is_char_boundary_iff_is_leading_byte(line1, x);
    assert(crate::strings::width_at(line1, x) == enc.len());
    assert(line1.take(x) + line1.skip(x + enc.len()) =~= line);
    assert(e.lines().update(e.cursor().y as int, line) =~= e.lines());
}

/// Law: in insert mode, typing a character and then Backspace gives the
/// text back, with the cursor where the character went.
pub proof fn lemma_type_then_backspace(e: EditorModel, ch: char)
    requires
        e.mode == Mode::Insert,
        can_update(e, key(KeyCode::Char(ch))),
        e.cursor().x <= i32::MAX,
        lines_utf8(e),
    ensures
        ({
            let typed = updated(e, key(KeyCode::Char(ch))).0;
            let back = updated(typed, key(KeyCode::Backspace)).0;
            &&& can_update(typed, key(KeyCode::Backspace))
            &&& back.lines() == e.lines()
            &&& back.cursor() == (Cursor {
                x: e.cursor().x,
                y: e.cursor().y,
                want_x: e.cursor().x,
            })
        }),
{
    let k = KeyEvent { code: KeyCode::Char(ch), ctrl: false };
    assert(!is_interrupt(k));
    assert(insert::can_handle(e, k));
    let typed = e.char_inserted(ch).at_col(e.cursor().x + 1);
    assert(updated(e, key(KeyCode::Char(ch))).0 == typed);
    lemma_char_inserted_then_backspaced(e, ch);
    assert(typed.mode == Mode::Insert);
    let b = KeyEvent { code: KeyCode::Backspace, ctrl: false };
    assert(!is_interrupt(b));
    assert(updated(typed, key(KeyCode::Backspace)).0 == typed.backspaced());
}

proof fn lemma_entered_then_backspaced(e: EditorModel)
    requires
        e.mode == Mode::Insert,
        e.can_enter(),
        lines_utf8(e),
    ensures
        ({
            let split = e.entered();
            &&& split.can_backspace()
            &&& split.backspaced().lines() == e.lines()
            &&& split.backspaced().cursor() == (Cursor {
                x: e.cursor().x,
                y: e.cursor().y,
                want_x: e.cursor().x,
            })
        }),
{
    let x = e.cursor().x as int;
    let y = e.cursor().y as int;
    let line = e.line();
    crate::strings::lemma_boundary_in_range(line, x);
    assert(line.take(x) + line.skip(x) =~= line);
    let split = e.entered();
    assert(split.lines()[y] == line.take(x));
    assert(split.lines()[y + 1] == line.skip(x));
    assert(split.backspaced().lines() =~= e.lines());
}

/// Law: in insert mode, Enter and then Backspace gives the text back, with
/// the cursor where the line was split.
pub proof fn lemma_enter_then_backspace(e: EditorModel)
    requires
        e.mode == Mode::Insert,
        can_update(e, key(KeyCode::Enter)),
        lines_utf8(e),
    ensures
        ({
            let split = updated(e, key(KeyCode::Enter)).0;
            let back = updated(split, key(KeyCode::Backspace)).0;
            &&& can_update(split, key(KeyCode::Backspace))
            &&& back.lines() == e.lines()
            &&& back.cursor() == (Cursor {
                x: e.cursor().x,
                y: e.cursor().y,
                want_x: e.cursor().x,
            })
        }),
{
    let k = KeyEvent { code: KeyCode::Enter, ctrl: false };
    assert(!is_interrupt(k));
    assert(updated(e, key(KeyCode::Enter)).0 == e.entered());
    lemma_entered_then_backspaced(e);
    let split = e.entered();
    assert(split.mode == Mode::Insert);
    let b = KeyEvent { code: KeyCode::Backspace, ctrl: false };
    assert(!is_interrupt(b));
    assert(updated(split, key(KeyCode::Backspace)).0 == split.backspaced());
}

/// Law: on the command line, typing a character and then Backspace gives
/// the editor back as it was.
pub proof fn lemma_command_type_then_backspace(e: EditorModel, ch: char)
    requires
        e.mode == Mode::Command,
        can_update(e, key(KeyCode::Char(ch))),
        vstd::utf8::valid_utf8(e.cmdline.buf),
    ensures
        ({
            let typed = updated(e, key(KeyCode::Char(ch))).0;
            &&& can_update(typed, key(KeyCode::Backspace))
            &&& updated(typed, key(KeyCode::Backspace)).0 == e
        }),
{
    let k = KeyEvent { code: KeyCode::Char(ch), ctrl: false };
    assert(!is_interrupt(k));
    let c = e.cmdline;
    let x = c.cursor as int;
    let line = c.buf;
    let enc = crate::strings::char_utf8(ch);
    let line1 = line.take(x) + enc + line.skip(x);
    assert(cmdline::can_handle(e, k));
    let typed = updated(e, key(KeyCode::Char(ch))).0;
    assert(typed.cmdline.buf == line1);
    assert(typed.cmdline.cursor == x + 1);
    vstd::utf8::encode_utf8_valid_utf8(seq![ch]);
    crate::strings::lemma_boundary_in_range(line, x);
    crate::strings::lemma_char_first(ch, line.skip(x));
    crate::strings::lemma_char_utf8(ch);
    assert(line1.skip(x) =~= enc + line.skip(x));
    assert(line1[x] == (enc + line.skip(x))[0]);
    vstd::utf8::valid_utf8_split(line, x);
    assert(line.take(x) =~= line.subrange(0, x));
    assert(line.skip(x) =~= line.subrange(x, line.len() as int));
    vstd::utf8::valid_utf8_concat(line.take(x), enc);
    vstd::utf8::valid_utf8_concat(line.take(x) + enc, line.skip(x));
    vstd::utf8::is_char_boundary_iff_is_leading_byte(line1, x);
    assert(crate::strings::width_at(line1, x) == enc.len());
    assert(line1.take(x) + line1.skip(x + enc.len()) =~= line);
    let b = KeyEvent { code: KeyCode::Backspace, ctrl: false };
    assert(!is_interrupt(b));
    assert(typed.mode == Mode::Command);
    assert(line1.len() > 0);
    let back = updated(typed, key(KeyCode::Backspace)).0;
    assert(back.cmdline =~= c);
    assert(back == e);
}

/// Law: an editor opened on a buffer that holds a line starts with its
/// cursor in the text.
pub proof fn lemma_editor_with_in_text(b: BufferModel)
    requires
        b.lines.len() > 0,
    ensures
        cursor_in_text(editor_with(b)),
{
    let e = editor_with(b);
    assert(e.buffers[0] == b);
    assert(e.windows[0].bufid == 0);
}

/// Law: what the front end does on the editor's behalf keeps the cursor in
/// the text: adding a buffer read from a file, which holds a line and
/// remembers no view off its lines; showing a message; showing another
/// buffer, out of insert mode, as after a command; naming the current
/// buffer; and recording that it was written.
pub proof fn lemma_front_end_keeps_cursor_in_text(
    e: EditorModel,
    b: BufferModel,
    message: Option<MessageModel>,
    bufid: usize,
    path: Seq<char>,
)
    requires
        cursor_in_text(e),
        b.lines.len() > 0,
        view_in_text(b),
        bufid < e.buffers.len(),
    ensures
        cursor_in_text(EditorModel { buffers: e.buffers.push(b), ..e }),
        cursor_in_text(EditorModel { message, ..e }),
        !(e.mode is Insert) ==> cursor_in_text(switched(e, bufid)),
        cursor_in_text(e.with_buf(BufferModel { path: Some(path), ..e.buf() })),
        cursor_in_text(
            EditorModel { message, ..e.with_buf(BufferModel { is_dirty: false, ..e.buf() }) },
        ),
{
    let pushed = EditorModel { buffers: e.buffers.push(b), ..e };
    assert forall|i: int| 0 <= i < pushed.windows.len() implies #[trigger] pushed.windows[i].bufid
        < pushed.buffers.len() by {
        assert(pushed.windows[i] == e.windows[i]);
    }
    assert forall|i: int| 0 <= i < pushed.buffers.len() implies #[trigger] pushed.buffers[
        i
    ].lines.len() > 0 by {
        if i < e.buffers.len() {
            assert(pushed.buffers[i] == e.buffers[i]);
        }
    }
    assert forall|i: int|
        0 <= i < pushed.buffers.len() && i != pushed.bufid() implies view_in_text(
        #[trigger] pushed.buffers[i],
    ) by {
        if i < e.buffers.len() {
            assert(pushed.buffers[i] == e.buffers[i]);
        }
    }
    assert(pushed.buffers[pushed.bufid()] == e.buf());

    lemma_with_buf(e, BufferModel { path: Some(path), ..e.buf() });
    lemma_with_buf(e, BufferModel { is_dirty: false, ..e.buf() });

    if !(e.mode is Insert) {
        let a = e.bufid();
        let left = e.with_buf(BufferModel { last_view: Some((e.cursor(), e.win().scroll)), ..e.buf() });
        lemma_with_buf(e, BufferModel { last_view: Some((e.cursor(), e.win().scroll)), ..e.buf() });
        assert(left.buffers[a].lines == e.lines());
        assert(view_in_text(left.buffers[a]));
        let f = switched(e, bufid);
        assert(f.bufid() == bufid);
        assert(view_in_text(left.buffers[bufid as int])) by {
            if bufid as int != a {
                assert(left.buffers[bufid as int] == e.buffers[bufid as int]);
            }
        }
        assert(f.buffers == left.buffers);
        assert forall|i: int| 0 <= i < f.windows.len() implies #[trigger] f.windows[i].bufid
            < f.buffers.len() by {
            if i != e.winid {
                assert(f.windows[i] == e.windows[i]);
            }
        }
        assert forall|i: int| 0 <= i < f.buffers.len() && i != f.bufid() implies view_in_text(
            #[trigger] f.buffers[i],
        ) by {
            if i != a {
                assert(f.buffers[i] == e.buffers[i]);
            }
        }
    }
}

/// The editor waiting for the motion of operator `op`.
pub open spec fn pending(e: EditorModel, op: Operator, count: Option<u32>) -> EditorModel {
    EditorModel { mode: Mode::OperatorPending(State { op, count }), ..e }
}

/// Law: `c` (change) followed by a motion (`$`, `0`, `j`, `k`, Down, Up)
/// or doubled (`cc`) leaves the editor in insert mode, ready for the new
/// text; `d` (delete) followed by the same keys, or doubled, leaves it in
/// normal mode.
pub proof fn lemma_operator_leaves_mode(e: EditorModel, code: KeyCode, count: Option<u32>)
    requires
        code == KeyCode::Char('$') || code == KeyCode::Char('0') || code == KeyCode::Char('j')
            || code == KeyCode::Char('k') || code == KeyCode::Down || code == KeyCode::Up,
    ensures
        updated(pending(e, Operator::Change, count), key(code)).0.mode == Mode::Insert,
        updated(pending(e, Operator::Delete, count), key(code)).0.mode == Mode::Normal,
        updated(pending(e, Operator::Change, count), key(KeyCode::Char('c'))).0.mode
            == Mode::Insert,
        updated(pending(e, Operator::Delete, count), key(KeyCode::Char('d'))).0.mode
            == Mode::Normal,
{
    let k = KeyEvent { code, ctrl: false };
    assert(!is_interrupt(k));
    assert(!is_interrupt(KeyEvent { code: KeyCode::Char('c'), ctrl: false }));
    assert(!is_interrupt(KeyEvent { code: KeyCode::Char('d'), ctrl: false }));
}

/// Law: in insert mode, Down moves the cursor to the next row when there is
/// one, and changes nothing on the last row.
pub proof fn lemma_insert_down(e: EditorModel)
    requires
        e.wf(),
        e.mode == Mode::Insert,
    ensures
        e.cursor().y + 1 < e.lines().len() && e.cursor().y + 1 <= usize::MAX ==> updated(
            e,
            key(KeyCode::Down),
        ).0.cursor().y == e.cursor().y + 1,
        e.cursor().y + 1 >= e.lines().len() ==> updated(e, key(KeyCode::Down)).0 == e,
{
    assert(!is_interrupt(KeyEvent { code: KeyCode::Down, ctrl: false }));
}

/// Law: each arrow key is the motion of its letter (Up `k`, Down `j`, Left
/// `h`, Right `l`), repeated by the count; in normal and operator-pending
/// mode the arrow does exactly what its letter does.
pub proof fn lemma_arrows_are_letters(e: EditorModel, n: usize)
    ensures
        motion_of(KeyCode::Up, n) == Some(Motion::Up(n)),
        motion_of(KeyCode::Char('k'), n) == Some(Motion::Up(n)),
        motion_of(KeyCode::Down, n) == Some(Motion::Down(n)),
        motion_of(KeyCode::Char('j'), n) == Some(Motion::Down(n)),
        motion_of(KeyCode::Left, n) == Some(Motion::Left(n)),
        motion_of(KeyCode::Char('h'), n) == Some(Motion::Left(n)),
        motion_of(KeyCode::Right, n) == Some(Motion::Right(n)),
        motion_of(KeyCode::Char('l'), n) == Some(Motion::Right(n)),
        e.mode == Mode::Normal || e.mode is OperatorPending ==> {
            &&& updated(e, key(KeyCode::Up)) == updated(e, key(KeyCode::Char('k')))
            &&& updated(e, key(KeyCode::Down)) == updated(e, key(KeyCode::Char('j')))
            &&& updated(e, key(KeyCode::Left)) == updated(e, key(KeyCode::Char('h')))
            &&& updated(e, key(KeyCode::Right)) == updated(e, key(KeyCode::Char('l')))
        },
{
    assert(!is_interrupt(KeyEvent { code: KeyCode::Up, ctrl: false }));
    assert(!is_interrupt(KeyEvent { code: KeyCode::Down, ctrl: false }));
    assert(!is_interrupt(KeyEvent { code: KeyCode::Left, ctrl: false }));
    assert(!is_interrupt(KeyEvent { code: KeyCode::Right, ctrl: false }));
    assert(!is_interrupt(KeyEvent { code: KeyCode::Char('k'), ctrl: false }));
    assert(!is_interrupt(KeyEvent { code: KeyCode::Char('j'), ctrl: false }));
    assert(!is_interrupt(KeyEvent { code: KeyCode::Char('h'), ctrl: false }));
    assert(!is_interrupt(KeyEvent { code: KeyCode::Char('l'), ctrl: false }));
}

} // verus!
