use med::editor::cmdline::{parse, split_whitespace, Command, Error as CmdError};
use med::editor::key::{Event, KeyCode, KeyEvent};
use med::editor::{Buffer, Cursor, Editor, Effect, MessageKind, Mode, Window};
use med::layout::Vec2;

fn key(code: KeyCode) -> Event {
    Event::Key(KeyEvent { code, ctrl: false })
}

fn press(ed: &mut Editor, code: KeyCode) -> Effect {
    ed.update(key(code))
}

fn type_str(ed: &mut Editor, s: &str) {
    for c in s.chars() {
        press(ed, KeyCode::Char(c));
    }
}

fn editor_with(text: &str) -> Editor {
    Editor::with_buffer(Buffer::from_text(None, text))
}

fn lines(ed: &Editor) -> Vec<String> {
    ed.buf().lines.clone()
}

#[test]
fn buffer_from_text_splits_lines() {
    let b = Buffer::from_text(None, "a\r\nb\n");
    assert_eq!(b.lines, vec!["a".to_string(), "b".to_string()]);
    assert!(b.ends_with_newline);
    assert!(!b.is_dirty);

    let b = Buffer::from_text(None, "");
    assert_eq!(b.lines, vec![String::new()]);
    assert!(!b.ends_with_newline);

    let b = Buffer::from_text(Some("/tmp/x".to_string()), "x\n\ny\r");
    assert_eq!(b.lines, vec!["x".to_string(), String::new(), "y\r".to_string()]);
    assert!(!b.ends_with_newline);
    assert_eq!(b.path, Some("/tmp/x".to_string()));
}

#[test]
fn buffer_contents_round_trip() {
    for text in ["", "a", "a\n", "a\nb", "a\nb\n", "\n\n", "a\n\n", "héllo\nwörld\n"] {
        assert_eq!(Buffer::from_text(None, text).contents(), text);
    }
    // A lone line feed reads as one empty line and is written back as nothing.
    assert_eq!(Buffer::from_text(None, "\n").contents(), "");
    // A carriage return before a line feed is not kept.
    assert_eq!(Buffer::from_text(None, "a\r\nb").contents(), "a\nb");
}

#[test]
fn buffer_default_and_write_job() {
    let b = Buffer::default();
    assert_eq!(b.lines, vec![String::new()]);
    match b.write_job() {
        Err(e) => assert_eq!(e, "No file name"),
        Ok(_) => panic!("a buffer without a path has nowhere to be written"),
    }
    let b = Buffer::from_text(Some("/tmp/f".to_string()), "one\ntwo\n");
    let job = b.write_job().ok().unwrap();
    assert_eq!(job.path, "/tmp/f");
    assert_eq!(job.contents, "one\ntwo\n");
    assert_eq!(job.lines, 2);
}

#[test]
fn smudge_marks_dirty() {
    let mut b = Buffer::default();
    b.smudge();
    assert!(b.is_dirty);
}

#[test]
fn insert_mode_typing() {
    let mut ed = editor_with("");
    press(&mut ed, KeyCode::Char('i'));
    assert_eq!(ed.mode, Mode::Insert);
    type_str(&mut ed, "hi");
    assert_eq!(lines(&ed), vec!["hi"]);
    assert_eq!(ed.cursor(), Cursor { x: 2, y: 0, want_x: 2 });
    press(&mut ed, KeyCode::Esc);
    assert_eq!(ed.mode, Mode::Normal);
    assert_eq!(ed.cursor().x, 1);
    assert!(ed.buf().is_dirty);
}

#[test]
fn insert_mode_tab_enter_backspace() {
    let mut ed = editor_with("abc");
    press(&mut ed, KeyCode::Char('a'));
    assert_eq!(ed.cursor().x, 1);
    press(&mut ed, KeyCode::Enter);
    assert_eq!(lines(&ed), vec!["a", "bc"]);
    assert_eq!(ed.cursor(), Cursor { x: 0, y: 1, want_x: 0 });
    press(&mut ed, KeyCode::Tab);
    assert_eq!(lines(&ed), vec!["a", "  bc"]);
    assert_eq!(ed.cursor().x, 2);
    press(&mut ed, KeyCode::Backspace);
    press(&mut ed, KeyCode::Backspace);
    assert_eq!(lines(&ed), vec!["a", "bc"]);
    press(&mut ed, KeyCode::Backspace);
    assert_eq!(lines(&ed), vec!["abc"]);
    assert_eq!(ed.cursor(), Cursor { x: 1, y: 0, want_x: 1 });
    // At the very start nothing happens.
    press(&mut ed, KeyCode::Left);
    press(&mut ed, KeyCode::Backspace);
    assert_eq!(lines(&ed), vec!["abc"]);
}

#[test]
fn typing_then_backspace_restores_the_text() {
    let mut ed = editor_with("ab\ncd");
    press(&mut ed, KeyCode::Char('j'));
    press(&mut ed, KeyCode::Char('a'));
    press(&mut ed, KeyCode::Char('é'));
    assert_eq!(lines(&ed), vec!["ab", "céd"]);
    press(&mut ed, KeyCode::Backspace);
    assert_eq!(lines(&ed), vec!["ab", "cd"]);
    press(&mut ed, KeyCode::Enter);
    assert_eq!(lines(&ed), vec!["ab", "c", "d"]);
    press(&mut ed, KeyCode::Backspace);
    assert_eq!(lines(&ed), vec!["ab", "cd"]);
}

#[test]
fn normal_mode_motions() {
    let mut ed = editor_with("hello\nhi\nworld");
    press(&mut ed, KeyCode::Char('$'));
    assert_eq!(ed.cursor(), Cursor { x: 4, y: 0, want_x: 4 });
    press(&mut ed, KeyCode::Char('j'));
    assert_eq!(ed.cursor(), Cursor { x: 1, y: 1, want_x: 4 });
    press(&mut ed, KeyCode::Down);
    assert_eq!(ed.cursor(), Cursor { x: 4, y: 2, want_x: 4 });
    press(&mut ed, KeyCode::Char('j'));
    assert_eq!(ed.cursor().y, 2);
    press(&mut ed, KeyCode::Char('0'));
    assert_eq!(ed.cursor(), Cursor { x: 0, y: 2, want_x: 0 });
    press(&mut ed, KeyCode::Char('k'));
    press(&mut ed, KeyCode::Char('k'));
    press(&mut ed, KeyCode::Char('l'));
    press(&mut ed, KeyCode::Right);
    assert_eq!(ed.cursor(), Cursor { x: 2, y: 0, want_x: 2 });
    press(&mut ed, KeyCode::Char('h'));
    assert_eq!(ed.cursor().x, 1);
    press(&mut ed, KeyCode::Char('G'));
    assert_eq!(ed.cursor().y, 2);
}

#[test]
fn counts_repeat_motions() {
    let mut ed = editor_with("0123456789abc\nx\ny\nz");
    press(&mut ed, KeyCode::Char('1'));
    press(&mut ed, KeyCode::Char('0'));
    assert_eq!(ed.pending_count, Some(10));
    press(&mut ed, KeyCode::Char('l'));
    assert_eq!(ed.cursor().x, 10);
    assert_eq!(ed.pending_count, None);
    press(&mut ed, KeyCode::Char('3'));
    press(&mut ed, KeyCode::Char('h'));
    assert_eq!(ed.cursor().x, 7);
    press(&mut ed, KeyCode::Char('9'));
    press(&mut ed, KeyCode::Char('j'));
    assert_eq!(ed.cursor(), Cursor { x: 0, y: 3, want_x: 7 });
    press(&mut ed, KeyCode::Char('2'));
    press(&mut ed, KeyCode::Char('k'));
    assert_eq!(ed.cursor().y, 1);
}

#[test]
fn normal_mode_edits() {
    let mut ed = editor_with("hello world");
    press(&mut ed, KeyCode::Char('x'));
    assert_eq!(lines(&ed), vec!["ello world"]);
    press(&mut ed, KeyCode::Char('$'));
    press(&mut ed, KeyCode::Char('x'));
    assert_eq!(lines(&ed), vec!["ello worl"]);
    assert_eq!(ed.cursor().x, 8);
    press(&mut ed, KeyCode::Char('0'));
    press(&mut ed, KeyCode::Char('4'));
    press(&mut ed, KeyCode::Char('l'));
    press(&mut ed, KeyCode::Char('D'));
    assert_eq!(lines(&ed), vec!["ello"]);
    assert_eq!(ed.cursor().x, 3);
    press(&mut ed, KeyCode::Char('C'));
    assert_eq!(ed.mode, Mode::Insert);
    assert_eq!(lines(&ed), vec!["ell"]);
    press(&mut ed, KeyCode::Esc);
    press(&mut ed, KeyCode::Char('s'));
    assert_eq!(ed.mode, Mode::Insert);
    assert_eq!(lines(&ed), vec!["el"]);
}

#[test]
fn open_lines() {
    let mut ed = editor_with("a\nb");
    press(&mut ed, KeyCode::Char('o'));
    assert_eq!(lines(&ed), vec!["a", "", "b"]);
    assert_eq!(ed.cursor(), Cursor { x: 0, y: 1, want_x: 0 });
    assert_eq!(ed.mode, Mode::Insert);
    press(&mut ed, KeyCode::Esc);
    press(&mut ed, KeyCode::Char('O'));
    assert_eq!(lines(&ed), vec!["a", "", "", "b"]);
    assert_eq!(ed.cursor().y, 1);
    press(&mut ed, KeyCode::Esc);
    press(&mut ed, KeyCode::Char('A'));
    assert_eq!(ed.mode, Mode::Insert);
    press(&mut ed, KeyCode::Esc);
    press(&mut ed, KeyCode::Char('I'));
    assert_eq!(ed.cursor().x, 0);
}

#[test]
fn operator_delete() {
    let mut ed = editor_with("one\ntwo\nthree\nfour");
    press(&mut ed, KeyCode::Char('d'));
    assert!(matches!(ed.mode, Mode::OperatorPending(_)));
    press(&mut ed, KeyCode::Char('d'));
    assert_eq!(lines(&ed), vec!["two", "three", "four"]);
    assert_eq!(ed.mode, Mode::Normal);
    press(&mut ed, KeyCode::Char('d'));
    press(&mut ed, KeyCode::Char('j'));
    assert_eq!(lines(&ed), vec!["four"]);
    assert_eq!(ed.cursor().y, 0);
    press(&mut ed, KeyCode::Char('d'));
    press(&mut ed, KeyCode::Char('d'));
    assert_eq!(lines(&ed), vec![""]);
    assert!(ed.buf().is_dirty);
}

#[test]
fn operator_delete_to_line_ends_and_change() {
    let mut ed = editor_with("abcdef\nxyz");
    press(&mut ed, KeyCode::Char('3'));
    press(&mut ed, KeyCode::Char('l'));
    press(&mut ed, KeyCode::Char('d'));
    press(&mut ed, KeyCode::Char('$'));
    assert_eq!(lines(&ed), vec!["abc", "xyz"]);
    assert_eq!(ed.cursor().x, 2);
    press(&mut ed, KeyCode::Char('d'));
    press(&mut ed, KeyCode::Char('0'));
    assert_eq!(lines(&ed), vec!["c", "xyz"]);
    assert_eq!(ed.cursor().x, 0);
    press(&mut ed, KeyCode::Char('c'));
    press(&mut ed, KeyCode::Char('c'));
    assert_eq!(lines(&ed), vec!["", "xyz"]);
    assert_eq!(ed.mode, Mode::Insert);
    press(&mut ed, KeyCode::Esc);
    press(&mut ed, KeyCode::Char('d'));
    press(&mut ed, KeyCode::Char('5'));
    assert!(matches!(ed.mode, Mode::OperatorPending(s) if s.count == Some(5)));
    press(&mut ed, KeyCode::Esc);
    assert_eq!(ed.mode, Mode::Normal);
    // An upward motion deletes nothing yet.
    press(&mut ed, KeyCode::Char('d'));
    press(&mut ed, KeyCode::Char('k'));
    assert_eq!(lines(&ed), vec!["", "xyz"]);
}

#[test]
fn command_line_commands() {
    let mut ed = editor_with("text");
    press(&mut ed, KeyCode::Char(':'));
    assert_eq!(ed.mode, Mode::Command);
    type_str(&mut ed, "w  out.txt");
    assert_eq!(ed.cmdline.buf, "w  out.txt");
    match press(&mut ed, KeyCode::Enter) {
        Effect::Write(Some(p)) => assert_eq!(p, "out.txt"),
        _ => panic!("expected a write"),
    }
    assert_eq!(ed.mode, Mode::Normal);

    press(&mut ed, KeyCode::Char(':'));
    type_str(&mut ed, "e");
    assert!(matches!(press(&mut ed, KeyCode::Enter), Effect::Nothing));
    let m = ed.message.as_ref().unwrap();
    assert!(matches!(m.kind, MessageKind::Error));
    assert_eq!(m.text, "Missing argument: path");

    press(&mut ed, KeyCode::Char(':'));
    assert!(ed.message.is_none());
    type_str(&mut ed, "zz");
    press(&mut ed, KeyCode::Left);
    press(&mut ed, KeyCode::Backspace);
    assert_eq!(ed.cmdline.buf, "z");
    press(&mut ed, KeyCode::Right);
    type_str(&mut ed, "q");
    press(&mut ed, KeyCode::Enter);
    assert_eq!(ed.message.as_ref().unwrap().text, "Not an editor command: zq");

    press(&mut ed, KeyCode::Char(':'));
    press(&mut ed, KeyCode::Esc);
    assert_eq!(ed.mode, Mode::Normal);

    press(&mut ed, KeyCode::Char(':'));
    type_str(&mut ed, " e  other.txt ");
    match press(&mut ed, KeyCode::Enter) {
        Effect::Edit(p) => assert_eq!(p, "other.txt"),
        _ => panic!("expected an edit"),
    }

    press(&mut ed, KeyCode::Char(':'));
    type_str(&mut ed, "q");
    press(&mut ed, KeyCode::Enter);
    assert!(ed.should_quit);
}

#[test]
fn control_c_quits() {
    let mut ed = editor_with("");
    ed.update(Event::Key(KeyEvent { code: KeyCode::Char('c'), ctrl: true }));
    assert!(ed.should_quit);
    let mut ed = editor_with("");
    ed.update(Event::Other);
    assert!(!ed.should_quit);
}

#[test]
fn parse_commands() {
    assert!(matches!(parse("   "), Ok(None)));
    assert!(matches!(parse("q"), Ok(Some(Command::Quit))));
    assert!(matches!(parse("w"), Ok(Some(Command::Write(None)))));
    assert!(matches!(parse("\tw a b"), Ok(Some(Command::Write(Some(ref p)))) if p == "a"));
    assert!(matches!(parse("e x"), Ok(Some(Command::Edit(ref p))) if p == "x"));
    assert!(matches!(parse("e"), Err(CmdError::MissingArgument("path"))));
    assert!(matches!(parse("quit"), Err(CmdError::NotAnEditorCommand(ref n)) if n == "quit"));
    assert_eq!(CmdError::NotAnEditorCommand("x".into()).message(), "Not an editor command: x");
}

#[test]
fn split_whitespace_words() {
    assert_eq!(split_whitespace("  a\u{3000}bc \n d  "), vec!["a", "bc", "d"]);
    assert!(split_whitespace("").is_empty());
}

#[test]
fn buffers_and_windows() {
    let mut ed = editor_with("first");
    ed.buf_set_path("/tmp/first".to_string());
    assert_eq!(ed.buf_find("/tmp/first"), Some(0));
    assert_eq!(ed.buf_find("/tmp/./first"), Some(0));
    assert_eq!(ed.buf_find("/tmp/second"), None);
    press(&mut ed, KeyCode::Char('l'));

    let id = ed.buf_opened(Ok(Buffer::from_text(Some("/tmp/second".to_string()), "a\nb"))).unwrap();
    assert_eq!(id, 1);
    ed.buf_switch(id);
    assert_eq!(ed.win().bufid, 1);
    assert_eq!(ed.cursor(), Cursor::default());
    assert_eq!(ed.buffers[0].last_view, Some((Cursor { x: 1, y: 0, want_x: 1 }, Vec2::new(0, 0))));
    press(&mut ed, KeyCode::Char('j'));
    ed.buf_switch(0);
    assert_eq!(ed.cursor(), Cursor { x: 1, y: 0, want_x: 1 });
    ed.buf_switch(1);
    assert_eq!(ed.cursor().y, 1);

    assert_eq!(ed.buf_opened(Err("no such file".to_string())), None);
    assert_eq!(ed.message.as_ref().unwrap().text, "no such file");
}

#[test]
fn write_finished_messages() {
    let mut ed = editor_with("a\nb");
    ed.buf_set_path("/tmp/w".to_string());
    press(&mut ed, KeyCode::Char('x'));
    assert!(ed.buf().is_dirty);
    ed.write_finished(Ok((2, 4)));
    assert!(!ed.buf().is_dirty);
    let m = ed.message.as_ref().unwrap();
    assert!(matches!(m.kind, MessageKind::Info));
    assert_eq!(m.text, "\"/tmp/w\" 2L, 4B written");
    ed.write_finished(Err("Permission denied".to_string()));
    assert!(matches!(ed.message.as_ref().unwrap().kind, MessageKind::Error));
}

#[test]
fn window_views() {
    let mut w = Window::default();
    w.cursor.y = 30;
    w.sync_view(10);
    assert_eq!(w.scroll.y, 21);
    w.cursor.y = 25;
    w.sync_view(10);
    assert_eq!(w.scroll.y, 21);
    w.cursor.y = 3;
    w.sync_view(10);
    assert_eq!(w.scroll.y, 3);

    w.set_buf(4, Some((Cursor { x: 1, y: 2, want_x: 3 }, Vec2::new(0, 1))));
    assert_eq!(w.bufid, 4);
    assert_eq!(w.cursor, Cursor { x: 1, y: 2, want_x: 3 });
    assert_eq!(w.scroll, Vec2::new(0, 1));
    w.set_buf(0, None);
    assert_eq!(w.cursor, Cursor::default());
    assert_eq!(w.scroll, Vec2::new(0, 0));
}

#[test]
fn editor_line_access() {
    let mut ed = editor_with("abc\ndef");
    assert_eq!(ed.line(), "abc");
    assert_eq!(ed.line_off(1), "def");
    ed.line_off_mut(1).push('!');
    assert_eq!(lines(&ed), vec!["abc", "def!"]);
    ed.move_to(2, 1);
    assert_eq!(ed.line_off(-1), "abc");
    assert_eq!(ed.cursor_max_x(), 3);
    assert_eq!(ed.remove_char(-1), 'e');
    assert_eq!(lines(&ed), vec!["abc", "df!"]);
    ed.insert_line(1, Some("tail".to_string()));
    assert_eq!(ed.remove_line(-1), "abc");
    assert_eq!(lines(&ed), vec!["df!", "tail"]);
    let deleted = ed.delete_lines(5);
    assert_eq!(deleted, vec!["tail"]);
    assert_eq!(lines(&ed), vec!["df!"]);
    ed.move_to(2, 0);
    ed.delete_to_bol();
    assert_eq!(lines(&ed), vec!["!"]);
    assert_eq!(Mode::Insert.name(), "INSERT");
    assert_eq!(Mode::Command.name(), "COMMAND");
    assert_eq!(Editor::default().buffers.len(), 1);
}

#[test]
fn written_text_reads_back_as_the_buffer() {
    let cases: [(&[&str], bool); 6] = [
        (&["a", "", "b"], true),
        (&["a", "b\r"], false),
        (&["a", "", "b"], false),
        (&["a", ""], true),
        (&[""], false),
        (&["héllo", "wörld"], true),
    ];
    for (ls, ends) in cases {
        let mut b = Buffer::default();
        b.lines = ls.iter().map(|l| l.to_string()).collect();
        b.ends_with_newline = ends;
        let text = b.contents();
        let back = Buffer::from_text(None, &text);
        assert_eq!(back.lines, b.lines);
        assert_eq!(back.ends_with_newline, ends);
    }
    // One empty line ending with a line feed is written as nothing.
    let mut b = Buffer::default();
    b.ends_with_newline = true;
    assert_eq!(b.contents(), "");
    assert!(!Buffer::from_text(None, &b.contents()).ends_with_newline);
}

#[test]
fn accepts_tells_which_keys_run() {
    let mut ed = editor_with("é");
    assert!(ed.is_wf());
    assert!(ed.accepts(key(KeyCode::Char('l'))));
    press(&mut ed, KeyCode::Char('l'));
    assert_eq!(ed.cursor().x, 1);
    press(&mut ed, KeyCode::Char('i'));
    assert_eq!(ed.mode, Mode::Insert);
    // Byte 1 is inside the two bytes of `é`.
    assert!(!ed.accepts(key(KeyCode::Char('a'))));
    assert!(!ed.accepts(key(KeyCode::Enter)));
    assert!(ed.accepts(key(KeyCode::Esc)));
    assert!(ed.accepts(Event::Key(KeyEvent { code: KeyCode::Char('c'), ctrl: true })));
    assert!(ed.accepts(Event::Other));

    let mut ed = editor_with("abc");
    assert!(ed.accepts(key(KeyCode::Char('x'))));
    press(&mut ed, KeyCode::Char('d'));
    assert!(!ed.accepts(key(KeyCode::Char('l'))));
    assert!(!ed.accepts(key(KeyCode::Left)));
    assert!(ed.accepts(key(KeyCode::Char('$'))));
    press(&mut ed, KeyCode::Esc);
    press(&mut ed, KeyCode::Char(':'));
    assert!(ed.accepts(key(KeyCode::Char('w'))));
    assert!(ed.accepts(key(KeyCode::Backspace)));
}

#[test]
fn command_line_type_then_backspace() {
    let mut ed = editor_with("abc");
    press(&mut ed, KeyCode::Char(':'));
    type_str(&mut ed, "w");
    let before = (ed.cmdline.buf.clone(), ed.cmdline.cursor);
    press(&mut ed, KeyCode::Char('é'));
    assert_eq!(ed.cmdline.buf, "wé");
    assert!(ed.accepts(key(KeyCode::Backspace)));
    press(&mut ed, KeyCode::Backspace);
    assert_eq!((ed.cmdline.buf.clone(), ed.cmdline.cursor), before);
    assert_eq!(ed.mode, Mode::Command);
}

#[test]
fn backspace_at_the_start_does_nothing() {
    let mut ed = editor_with("ab\ncd");
    ed.backspace();
    assert_eq!(lines(&ed), vec!["ab".to_string(), "cd".to_string()]);
    assert_eq!(ed.cursor(), Cursor::default());
    assert!(!ed.buf().is_dirty);
    press(&mut ed, KeyCode::Char(':'));
    ed.backspace();
    assert_eq!(lines(&ed), vec!["ab".to_string(), "cd".to_string()]);
    assert_eq!(ed.mode, Mode::Command);
    assert!(!ed.buf().is_dirty);
}

#[test]
fn editing_a_file_again_restores_its_view() {
    let mut ed = editor_with("one\ntwo\nthree");
    ed.buf_set_path("/tmp/first".to_string());
    press(&mut ed, KeyCode::Char('j'));
    press(&mut ed, KeyCode::Char('l'));
    let view = (ed.cursor(), ed.win().scroll);

    assert_eq!(ed.buf_edit("/tmp/second"), None);
    let second = Buffer::from_text(Some("/tmp/second".to_string()), "a\nb\nc");
    assert_eq!(ed.buf_show_opened(Ok(second)), Some(1));
    assert_eq!(ed.win().bufid, 1);
    assert_eq!(ed.cursor(), Cursor::default());
    press(&mut ed, KeyCode::Char('j'));
    press(&mut ed, KeyCode::Char('j'));

    assert_eq!(ed.buf_edit("/tmp/first"), Some(0));
    assert_eq!(ed.buffers.len(), 2);
    assert_eq!(ed.win().bufid, 0);
    assert_eq!((ed.cursor(), ed.win().scroll), view);

    assert_eq!(ed.buf_show_opened(Err("no such file".to_string())), None);
    assert_eq!(ed.message.as_ref().unwrap().text, "no such file");
    assert_eq!(ed.win().bufid, 0);
}
