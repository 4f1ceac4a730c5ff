use med::editor::key::{Event, KeyCode, KeyEvent};
use med::editor::{Buffer, Editor, Mode};
use med::layout::Rect;
use med::render::{
    cmdline_text, cursor_target, fg, gutter_label, status_position, status_texts, visible_text,
    CursorStyle, ToColor, TryToColor,
};
use med::terminal::buffer::{Buffer as Grid, Cell};
use med::terminal::{frame_commands, Color, DrawCommand};

fn press(ed: &mut Editor, code: KeyCode) {
    ed.update(Event::Key(KeyEvent { code, ctrl: false }));
}

#[test]
fn grid_put_and_get() {
    let mut g = Grid::new(3, 2);
    assert_eq!(g.cells.len(), 6);
    assert_eq!(*g.get(2, 1), Cell::default());
    g.put(1, 1, 'x', Color::Red, Color::Reset);
    assert_eq!(g.get(1, 1).ch, 'x');
    assert_eq!(g.get(1, 1).fg, Color::Red);
    g.put(3, 5, 'y', Color::Red, Color::Reset);
    assert_eq!(g.cells.iter().filter(|c| c.ch == 'y').count(), 0);
    g.put_str(2, 0, "abcdef", Color::White, Color::Black);
    let text: String = g.cells.iter().map(|c| c.ch).collect();
    assert_eq!(text, "  abcd");
    g.get_mut(0, 0).ch = 'z';
    assert_eq!(g.cells[0].ch, 'z');
}

#[test]
fn grid_diff_lists_changed_cells() {
    let prev = Grid::new(2, 2);
    let mut next = prev.clone();
    next.put_str(0, 0, "abc", Color::Reset, Color::Reset);
    next.put(1, 1, 'd', Color::Blue, Color::Red);
    let changes = prev.diff(&next);
    assert_eq!(changes.len(), 4);
    assert_eq!(changes[0], (0, 0, Cell { ch: 'a', fg: Color::Reset, bg: Color::Reset }));
    assert_eq!(changes[2], (0, 1, Cell { ch: 'c', fg: Color::Reset, bg: Color::Reset }));
    assert_eq!(changes[3], (1, 1, Cell { ch: 'd', fg: Color::Blue, bg: Color::Red }));
    assert!(next.diff(&next).is_empty());

    // Writing the changes into the old grid gives the new one.
    let mut patched = prev.clone();
    for (x, y, c) in &changes {
        patched.put(*x, *y, c.ch, c.fg, c.bg);
    }
    assert_eq!(patched.cells, next.cells);

    let cmds = frame_commands(&changes);
    assert_eq!(
        cmds,
        vec![
            DrawCommand::MoveTo(0, 0),
            DrawCommand::Print('a'),
            DrawCommand::Print('b'),
            DrawCommand::MoveTo(0, 1),
            DrawCommand::Print('c'),
            DrawCommand::MoveTo(1, 1),
            DrawCommand::SetForeground(Color::Blue),
            DrawCommand::SetBackground(Color::Red),
            DrawCommand::Print('d'),
        ]
    );
}

#[test]
fn colors_from_numbers_and_text() {
    assert_eq!(0xcdd6f4u32.to_color(), Color::Rgb { r: 205, g: 214, b: 244 });
    assert_eq!(fg(), 0xcdd6f4u32.to_color());
    assert_eq!("181825".try_to_color().ok(), Some(Color::Rgb { r: 24, g: 24, b: 37 }));
    assert_eq!("+FF".try_to_color().ok(), Some(Color::Rgb { r: 0, g: 0, b: 255 }));
    assert!("".try_to_color().is_err());
    assert!("12g".try_to_color().is_err());
    assert!("100000000".try_to_color().is_err());
}

#[test]
fn gutter_labels() {
    assert_eq!(gutter_label(0, 3), "   1");
    assert_eq!(gutter_label(41, 100), "  42");
    assert_eq!(gutter_label(12344, 20000), "12345");
    assert_eq!(gutter_label(3, 3), "~");
}

#[test]
fn visible_text_clips_to_width() {
    assert_eq!(visible_text("hello", 3), "hel");
    assert_eq!(visible_text("hi", 3), "hi");
    assert_eq!(visible_text("", 0), "");
}

#[test]
fn cursor_and_command_line() {
    let mut ed = Editor::with_buffer(Buffer::from_text(Some("/tmp/s".to_string()), "abc\ndef"));
    let buffer = Rect::new(5, 0, 75, 23);
    let cmdline = Rect::new(0, 23, 80, 1);
    press(&mut ed, KeyCode::Char('j'));
    press(&mut ed, KeyCode::Char('l'));
    assert_eq!(cursor_target(&ed, buffer, cmdline), (CursorStyle::SteadyBlock, 6, 1));
    press(&mut ed, KeyCode::Char('i'));
    assert_eq!(cursor_target(&ed, buffer, cmdline).0, CursorStyle::SteadyBar);
    press(&mut ed, KeyCode::Esc);
    assert_eq!(cmdline_text(&ed).map(|c| c.0), None);

    press(&mut ed, KeyCode::Char(':'));
    press(&mut ed, KeyCode::Char('w'));
    assert_eq!(ed.mode, Mode::Command);
    assert_eq!(cursor_target(&ed, buffer, cmdline), (CursorStyle::SteadyBar, 2, 23));
    assert_eq!(cmdline_text(&ed), Some((":w".to_string(), Color::Reset)));

    ed.write_finished(Err("denied".to_string()));
    ed.mode = Mode::Normal;
    assert_eq!(cmdline_text(&ed), Some(("denied".to_string(), Color::Red)));
}

#[test]
fn status_line_texts() {
    let mut ed = Editor::with_buffer(Buffer::from_text(None, "abc"));
    assert_eq!(status_texts(&ed), (" NORMAL ".to_string(), " [No Name]".to_string()));
    press(&mut ed, KeyCode::Char('x'));
    ed.buf_set_path("/tmp/p".to_string());
    press(&mut ed, KeyCode::Char('i'));
    assert_eq!(status_texts(&ed), (" INSERT ".to_string(), " /tmp/p [+]".to_string()));
    assert_eq!(status_position(&ed), " 1,1");
}

#[test]
fn grid_diff_of_zero_width() {
    let a = Grid::new(0, 3);
    let b = Grid::new(0, 3);
    assert!(a.diff(&b).is_empty());
}
