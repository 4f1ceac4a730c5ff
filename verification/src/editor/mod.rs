//! # Pure editor state and behaviour.

pub mod buffer;
pub mod cmdline;
pub mod guard;
pub mod insert;
pub mod key;
pub mod laws;
pub mod motion;
pub mod normal;
pub mod operator;
pub mod text;
pub mod window;

use vstd::prelude::*;

pub use buffer::{opt_string_view, Buffer, BufferModel};
pub use cmdline::{CmdLine, CmdLineModel};
pub use window::{Cursor, Window};

use crate::strings::{decimal, string_push_str, to_decimal, utf8};

verus! {

#[derive(Debug, Clone, Copy, PartialEq, Eq, Structural)]
pub enum Mode {
    Normal,
    Insert,
    Command,
    OperatorPending(operator::State),
}

/// The name of a mode as the status line shows it.
pub open spec fn mode_name(mode: Mode) -> Seq<char> {
    match mode {
        Mode::Insert => "INSERT"@,
        Mode::Command => "COMMAND"@,
        _ => "NORMAL"@,
    }
}

impl Mode {
    /// The name of the mode, as the status line shows it.
    pub fn name(&self) -> (s: String)
        ensures
            s@ == mode_name(*self),
    {
        match self {
            Mode::Normal | Mode::OperatorPending(_) => String::from_str("NORMAL"),
            Mode::Insert => String::from_str("INSERT"),
            Mode::Command => String::from_str("COMMAND"),
        }
    }
}

#[derive(Debug, Clone, Copy, PartialEq, Eq, Structural)]
pub enum MessageKind {
    Info,
    Error,
}

pub struct Message {
    pub kind: MessageKind,
    pub text: String,
}

/// A message shown on the command line.
#[verifier::ext_equal]
pub struct MessageModel {
    pub kind: MessageKind,
    pub text: Seq<char>,
}

impl Message {
    fn info(text: String) -> (m: Self)
        ensures
            m@ == (MessageModel { kind: MessageKind::Info, text: text@ }),
    {
        Self { kind: MessageKind::Info, text }
    }

    fn error(text: String) -> (m: Self)
        ensures
            m@ == (MessageModel { kind: MessageKind::Error, text: text@ }),
    {
        Self { kind: MessageKind::Error, text }
    }

    fn from_error(e: &cmdline::Error) -> (m: Self)
        ensures
            m@ == (MessageModel { kind: MessageKind::Error, text: cmdline::error_text(e@) }),
    {
        Self::error(e.message())
    }
}

impl View for Message {
    type V = MessageModel;

    open spec fn view(&self) -> MessageModel {
        MessageModel { kind: self.kind, text: self.text@ }
    }
}

pub struct Editor {
    pub mode: Mode,
    pub buffers: Vec<Buffer>,
    pub windows: Vec<Window>,
    pub winid: usize,
    pub cmdline: CmdLine,
    pub message: Option<Message>,
    /// The count typed so far in front of a normal-mode command.
    pub pending_count: Option<usize>,
    pub should_quit: bool,
}

/// The state of the editor, as mathematical values.
#[verifier::ext_equal]
pub struct EditorModel {
    pub mode: Mode,
    pub buffers: Seq<BufferModel>,
    pub windows: Seq<Window>,
    pub winid: usize,
    pub cmdline: CmdLineModel,
    pub message: Option<MessageModel>,
    pub pending_count: Option<usize>,
    pub should_quit: bool,
}

impl EditorModel {
    /// There is a current window, and every window shows an existing buffer.
    pub open spec fn wf(self) -> bool {
        &&& self.buffers.len() > 0
        &&& self.winid < self.windows.len()
        &&& forall|i: int| 0 <= i < self.windows.len() ==> #[trigger] self.windows[i].bufid
            < self.buffers.len()
    }

    pub open spec fn win(self) -> Window {
        self.windows[self.winid as int]
    }

    pub open spec fn bufid(self) -> int {
        self.win().bufid as int
    }

    pub open spec fn buf(self) -> BufferModel {
        self.buffers[self.bufid()]
    }

    pub open spec fn cursor(self) -> Cursor {
        self.win().cursor
    }

    pub open spec fn lines(self) -> Seq<Seq<u8>> {
        self.buf().lines
    }

    /// The line under the cursor.
    pub open spec fn line(self) -> Seq<u8> {
        self.lines()[self.cursor().y as int]
    }

    /// The cursor is on a line of the buffer (whose number the editor can
    /// still compute as an `i32`).
    pub open spec fn on_line(self) -> bool {
        &&& self.wf()
        &&& self.cursor().y < self.lines().len()
        &&& self.cursor().y <= i32::MAX
    }

    pub open spec fn with_win(self, w: Window) -> EditorModel {
        EditorModel { windows: self.windows.update(self.winid as int, w), ..self }
    }

    pub open spec fn with_cursor(self, c: Cursor) -> EditorModel {
        self.with_win(Window { cursor: c, ..self.win() })
    }

    pub open spec fn with_buf(self, b: BufferModel) -> EditorModel {
        EditorModel { buffers: self.buffers.update(self.bufid(), b), ..self }
    }

    pub open spec fn with_lines(self, lines: Seq<Seq<u8>>) -> EditorModel {
        self.with_buf(BufferModel { lines, ..self.buf() })
    }

    /// The current buffer, marked as changed.
    pub open spec fn smudged(self) -> EditorModel {
        self.with_buf(BufferModel { is_dirty: true, ..self.buf() })
    }

    pub open spec fn with_mode(self, mode: Mode) -> EditorModel {
        EditorModel { mode, ..self }
    }
}

pub open spec fn opt_message_view(m: Option<Message>) -> Option<MessageModel> {
    match m {
        Some(m) => Some(m@),
        None => None,
    }
}

impl View for Editor {
    type V = EditorModel;

    open spec fn view(&self) -> EditorModel {
        EditorModel {
            mode: self.mode,
            buffers: self.buffers@.map_values(|b: Buffer| b@),
            windows: self.windows@,
            winid: self.winid,
            cmdline: self.cmdline@,
            message: opt_message_view(self.message),
            pending_count: self.pending_count,
            should_quit: self.should_quit,
        }
    }
}

/// The row `offset_y` rows away from the cursor row, computed as `i32`.
pub open spec fn offset_row(y: usize, offset_y: i32) -> int {
    (y as i32) as int + offset_y as int
}

/// `offset_row` does not overflow and names a line of `lines`.
pub open spec fn valid_offset_row(lines: Seq<Seq<u8>>, y: usize, offset_y: i32) -> bool {
    &&& i32::MIN <= offset_row(y, offset_y) <= i32::MAX
    &&& 0 <= offset_row(y, offset_y) < lines.len()
}

/// Every line of the current buffer is valid UTF-8.
pub proof fn lemma_lines_valid(ed: &Editor)
    requires
        ed@.wf(),
    ensures
        forall|i: int|
            0 <= i < ed@.lines().len() ==> vstd::utf8::valid_utf8(#[trigger] ed@.lines()[i]),
{
    assert forall|i: int| 0 <= i < ed@.lines().len() implies vstd::utf8::valid_utf8(
        #[trigger] ed@.lines()[i],
    ) by {
        let b = ed.buffers@[ed@.bufid()];
        assert(ed@.buf() == b@);
        vstd::utf8::encode_utf8_valid_utf8(b.lines@[i]@);
    }
}

/// A new editor showing buffer `b` alone, in normal mode, with the cursor at
/// the start.
pub open spec fn editor_with(b: BufferModel) -> EditorModel {
    EditorModel {
        mode: Mode::Normal,
        buffers: seq![b],
        windows: seq![
            Window {
                bufid: 0,
                cursor: Cursor { x: 0, y: 0, want_x: 0 },
                scroll: crate::layout::Vec2 { x: 0, y: 0 },
            },
        ],
        winid: 0,
        cmdline: CmdLineModel { buf: Seq::empty(), cursor: 0 },
        message: None,
        pending_count: None,
        should_quit: false,
    }
}

impl Default for Editor {
    fn default() -> (ed: Self)
        ensures
            ed@.wf(),
            ed@ == editor_with(
                BufferModel {
                    lines: seq![Seq::<u8>::empty()],
                    path: None,
                    is_dirty: false,
                    ends_with_newline: false,
                    last_view: None,
                },
            ),
    {
        Self::with_buffer(Buffer::default())
    }
}

impl Editor {
    pub fn with_buffer(buffer: Buffer) -> (ed: Self)
        ensures
            ed@ == editor_with(buffer@),
            ed@.wf(),
    {
        let ghost b = buffer@;
        let ed = Self {
            mode: Mode::Normal,
            buffers: vec![buffer],
            windows: vec![Window::default()],
            winid: 0,
            cmdline: CmdLine::default(),
            message: None,
            pending_count: None,
            should_quit: false,
        };
        assert(ed@.buffers =~= seq![b]);
        ed
    }

    pub fn win(&self) -> (w: &Window)
        requires
            self@.wf(),
        ensures
            *w == self@.win(),
    {
        &self.windows[self.winid]
    }

    pub fn win_mut(&mut self) -> (w: &mut Window)
        requires
            old(self)@.wf(),
        ensures
            *w == old(self)@.win(),
            final(self)@ == old(self)@.with_win(*final(w)),
    {
        &mut self.windows[self.winid]
    }

    pub fn buf(&self) -> (b: &Buffer)
        requires
            self@.wf(),
        ensures
            b@ == self@.buf(),
    {
        let bufid = self.win().bufid;
        &self.buffers[bufid]
    }

    pub fn buf_mut(&mut self) -> (b: &mut Buffer)
        requires
            old(self)@.wf(),
        ensures
            b@ == old(self)@.buf(),
            final(self)@ == old(self)@.with_buf(final(b)@),
    {
        let bufid = self.win().bufid;
        let b = &mut self.buffers[bufid];
        b
    }

    pub fn cursor(&self) -> (c: Cursor)
        requires
            self@.wf(),
        ensures
            c == self@.cursor(),
    {
        self.win().cursor
    }

    pub fn cursor_mut(&mut self) -> (c: &mut Cursor)
        requires
            old(self)@.wf(),
        ensures
            *c == old(self)@.cursor(),
            final(self)@ == old(self)@.with_cursor(*final(c)),
    {
        &mut self.win_mut().cursor
    }

    pub fn line(&self) -> (l: &str)
        requires
            self@.on_line(),
        ensures
            utf8(l@) == self@.line(),
    {
        self.line_off(0)
    }

    pub fn line_off(&self, offset_y: i32) -> (l: &str)
        requires
            self@.wf(),
            valid_offset_row(self@.lines(), self@.cursor().y, offset_y),
        ensures
            utf8(l@) == self@.lines()[offset_row(self@.cursor().y, offset_y)],
    {
        let row = self.cursor().y as i32 + offset_y;
        self.buf().lines[row as usize].as_str()
    }

    pub fn line_mut(&mut self) -> (l: &mut String)
        requires
            old(self)@.on_line(),
        ensures
            utf8(l@) == old(self)@.line(),
            final(self)@ == old(self)@.with_lines(
                old(self)@.lines().update(old(self)@.cursor().y as int, utf8(final(l)@)),
            ),
    {
        self.line_off_mut(0)
    }

    pub fn line_off_mut(&mut self, offset_y: i32) -> (l: &mut String)
        requires
            old(self)@.wf(),
            valid_offset_row(old(self)@.lines(), old(self)@.cursor().y, offset_y),
        ensures
            utf8(l@) == old(self)@.lines()[offset_row(old(self)@.cursor().y, offset_y)],
            final(self)@ == old(self)@.with_lines(
                old(self)@.lines().update(
                    offset_row(old(self)@.cursor().y, offset_y),
                    utf8(final(l)@),
                ),
            ),
    {
        proof {
            broadcast use buffer::lemma_lines_bytes_update;
        }
        let row = self.cursor().y as i32 + offset_y;
        let b = self.buf_mut();
        &mut b.lines[row as usize]
    }

    pub fn set_message(&mut self, msg: Message)
        ensures
            final(self)@ == (EditorModel { message: Some(msg@), ..old(self)@ }),
    {
        self.message = Some(msg)
    }
}

/// Whether two paths name the same file system location, as `Path`'s `==`
/// decides it (component by component).
pub uninterp spec fn same_path(a: Seq<char>, b: Seq<char>) -> bool;

/// Compares two paths with `Path`'s `==`.
///
/// `std::path::Path` compares paths by their components; the result depends
/// on the two paths alone and is named `same_path`.
#[verifier::external_body]
fn paths_equal(a: &str, b: &str) -> (r: bool)
    ensures
        r == same_path(a@, b@),
{
    std::path::Path::new(a) == std::path::Path::new(b)
}

/// The buffer was read from (or is to be written to) `path`.
pub open spec fn has_path(b: BufferModel, path: Seq<char>) -> bool {
    match b.path {
        Some(p) => same_path(p, path),
        None => false,
    }
}

/// The message shown when a buffer has been written.
pub open spec fn written_text(path: Seq<char>, lines: nat, bytes: nat) -> Seq<char> {
    "\""@ + path + "\" "@ + decimal(lines) + "L, "@ + decimal(bytes) + "B written"@
}

/// What the front end has to do after a key, on the editor's behalf.
pub enum Effect {
    /// Nothing is left to do.
    Nothing,
    /// Write the current buffer, first naming it after the path given.
    Write(Option<String>),
    /// Open the file at the path given in the current window.
    Edit(String),
}

pub enum EffectModel {
    Nothing,
    Write(Option<Seq<char>>),
    Edit(Seq<char>),
}

impl View for Effect {
    type V = EffectModel;

    open spec fn view(&self) -> EffectModel {
        match self {
            Effect::Nothing => EffectModel::Nothing,
            Effect::Write(dest) => EffectModel::Write(opt_string_view(*dest)),
            Effect::Edit(path) => EffectModel::Edit(path@),
        }
    }
}

/// The editor after it shows buffer `bufid` in the current window: the view
/// it leaves is remembered in the buffer it leaves, and the view remembered
/// in `bufid`, if any, comes back.
pub open spec fn switched(e: EditorModel, bufid: usize) -> EditorModel {
    let left = e.with_buf(
        BufferModel { last_view: Some((e.cursor(), e.win().scroll)), ..e.buf() },
    );
    left.with_win(
        match left.buffers[bufid as int].last_view {
            Some((cursor, scroll)) => Window { bufid, cursor, scroll },
            None => Window {
                bufid,
                cursor: Cursor { x: 0, y: 0, want_x: 0 },
                scroll: crate::layout::Vec2 { x: 0, y: 0 },
            },
        },
    )
}

/// Law: leaving a buffer for another and coming back shows the first one
/// where it was left, cursor and scroll.
pub proof fn lemma_switch_back_restores_view(e: EditorModel, bufid: usize)
    requires
        e.wf(),
        bufid < e.buffers.len(),
    ensures
        switched(switched(e, bufid), e.win().bufid).win() == e.win(),
{
    let a = e.win().bufid;
    let e1 = switched(e, bufid);
    assert(e1.win().bufid == bufid);
    let left = e1.with_buf(
        BufferModel { last_view: Some((e1.cursor(), e1.win().scroll)), ..e1.buf() },
    );
    if bufid != a {
        assert(left.buffers[a as int] == e1.buffers[a as int]);
    }
    assert(left.buffers[a as int].last_view == Some((e.cursor(), e.win().scroll)));
}

/// Law: opening with `:e` the file of a buffer that was left for another
/// one shows the first buffer where it was left, cursor and scroll, however
/// the cursor and scroll moved in the other one, and adds no buffer. This
/// holds when the first buffer is the first one read from that path.
pub proof fn lemma_edit_back_restores_view(
    e: EditorModel,
    bufid: usize,
    cursor: Cursor,
    scroll: crate::layout::Vec2<usize>,
    path: Seq<char>,
)
    requires
        e.wf(),
        bufid < e.buffers.len(),
        bufid != e.win().bufid,
        has_path(e.buf(), path),
        forall|j: int| 0 <= j < e.bufid() ==> !has_path(#[trigger] e.buffers[j], path),
    ensures
        ({
            let a = e.win().bufid;
            let moved = switched(e, bufid).with_win(Window { bufid, cursor, scroll });
            &&& has_path(moved.buffers[a as int], path)
            &&& forall|j: int| 0 <= j < a ==> !has_path(#[trigger] moved.buffers[j], path)
            &&& switched(moved, a).win() == e.win()
            &&& switched(moved, a).buffers.len() == e.buffers.len()
        }),
{
    let a = e.win().bufid;
    let e1 = switched(e, bufid);
    let moved = e1.with_win(Window { bufid, cursor, scroll });
    assert(moved.buffers == e1.buffers);
    assert(moved.buffers[a as int].path == e.buffers[a as int].path);
    assert forall|j: int| 0 <= j < a implies !has_path(#[trigger] moved.buffers[j], path) by {
        assert(moved.buffers[j] == e.buffers[j]);
    }
    assert(moved.win().bufid == bufid);
    let left = moved.with_buf(
        BufferModel { last_view: Some((moved.cursor(), moved.win().scroll)), ..moved.buf() },
    );
    assert(left.buffers[a as int] == moved.buffers[a as int]);
    assert(left.buffers[a as int].last_view == Some((e.cursor(), e.win().scroll)));
}

impl Editor {
    /// The first buffer read from `path`.
    pub fn buf_find(&self, path: &str) -> (found: Option<usize>)
        ensures
            match found {
                Some(i) => i < self@.buffers.len() && has_path(self@.buffers[i as int], path@)
                    && forall|j: int| 0 <= j < i ==> !has_path(self@.buffers[j], path@),
                None => forall|j: int|
                    0 <= j < self@.buffers.len() ==> !has_path(self@.buffers[j], path@),
            },
    {
        let mut i: usize = 0;
        while i < self.buffers.len()
            invariant
                0 <= i <= self.buffers@.len(),
                forall|j: int| 0 <= j < i ==> !has_path(self@.buffers[j], path@),
            decreases self.buffers@.len() - i,
        {
            let matches = match &self.buffers[i].path {
                Some(p) => paths_equal(p.as_str(), path),
                None => false,
            };
            if matches {
                return Some(i);
            }
            i = i + 1;
        }
        None
    }

    /// Adds a buffer that was just read, or reports why it could not be.
    pub fn buf_opened(&mut self, loaded: Result<Buffer, String>) -> (bufid: Option<usize>)
        ensures
            match loaded {
                Ok(b) => bufid == Some(old(self)@.buffers.len() as usize) && final(self)@ == (
                EditorModel { buffers: old(self)@.buffers.push(b@), ..old(self)@ }),
                Err(e) => bufid.is_none() && final(self)@ == (EditorModel {
                    message: Some(MessageModel { kind: MessageKind::Error, text: e@ }),
                    ..old(self)@
                }),
            },
    {
        match loaded {
            Err(e) => {
                self.set_message(Message::error(e));
                None
            },
            Ok(buffer) => {
                let ghost b = buffer@;
                self.buffers.push(buffer);
                proof {
                    assert(self@.buffers =~= old(self)@.buffers.push(b));
                }
                let bufid = self.buffers.len() - 1;
                Some(bufid)
            },
        }
    }

    /// Remembers the current window's view in its buffer.
    fn buf_leave(&mut self)
        requires
            old(self)@.wf(),
        ensures
            final(self)@ == old(self)@.with_buf(
                BufferModel {
                    last_view: Some((old(self)@.cursor(), old(self)@.win().scroll)),
                    ..old(self)@.buf()
                },
            ),
    {
        let win = self.win();
        let view = (win.cursor, win.scroll);
        self.buf_mut().last_view = Some(view);
    }

    /// Shows buffer `bufid` in the current window, where it was left.
    pub fn buf_switch(&mut self, bufid: usize)
        requires
            old(self)@.wf(),
            bufid < old(self)@.buffers.len(),
        ensures
            final(self)@ == switched(old(self)@, bufid),
            final(self)@.wf(),
    {
        self.buf_leave();
        assert(self.buffers@.len() == self@.buffers.len());
        let last_view = self.buffers[bufid].last_view;
        self.win_mut().set_buf(bufid, last_view);
    }

    /// Shows in the current window the first buffer read from `path`, if
    /// there is one, where it was left; tells which one it was.
    pub fn buf_edit(&mut self, path: &str) -> (found: Option<usize>)
        requires
            old(self)@.wf(),
        ensures
            final(self)@.wf(),
            match found {
                Some(i) => {
                    &&& i < old(self)@.buffers.len()
                    &&& has_path(old(self)@.buffers[i as int], path@)
                    &&& forall|j: int| 0 <= j < i ==> !has_path(old(self)@.buffers[j], path@)
                    &&& final(self)@ == switched(old(self)@, i)
                },
                None => {
                    &&& forall|j: int|
                        0 <= j < old(self)@.buffers.len() ==> !has_path(old(self)@.buffers[j], path@)
                    &&& final(self)@ == old(self)@
                },
            },
    {
        match self.buf_find(path) {
            Some(i) => {
                self.buf_switch(i);
                Some(i)
            },
            None => None,
        }
    }

    /// Adds a buffer that was just read and shows it in the current window,
    /// or reports why it could not be read.
    pub fn buf_show_opened(&mut self, loaded: Result<Buffer, String>) -> (bufid: Option<usize>)
        requires
            old(self)@.wf(),
        ensures
            final(self)@.wf(),
            match loaded {
                Ok(b) => bufid == Some(old(self)@.buffers.len() as usize) && final(self)@
                    == switched(
                    EditorModel { buffers: old(self)@.buffers.push(b@), ..old(self)@ },
                    old(self)@.buffers.len() as usize,
                ),
                Err(e) => bufid.is_none() && final(self)@ == (EditorModel {
                    message: Some(MessageModel { kind: MessageKind::Error, text: e@ }),
                    ..old(self)@
                }),
            },
    {
        let ghost e = self@;
        let bufid = self.buf_opened(loaded);
        match bufid {
            Some(i) => {
                assert forall|k: int| 0 <= k < self@.windows.len() implies #[trigger] self@.windows[k].bufid
                    < self@.buffers.len() by {
                    assert(self@.windows[k] == e.windows[k]);
                }
                self.buf_switch(i);
            },
            None => {},
        }
        bufid
    }

    /// Names the current buffer after `path`.
    pub fn buf_set_path(&mut self, path: String)
        requires
            old(self)@.wf(),
        ensures
            final(self)@ == old(self)@.with_buf(
                BufferModel { path: Some(path@), ..old(self)@.buf() },
            ),
    {
        self.buf_mut().path = Some(path);
    }

    /// Records how writing the current buffer went: `lines` lines and
    /// `bytes` bytes written, or the error.
    pub fn write_finished(&mut self, written: Result<(usize, usize), String>)
        requires
            old(self)@.wf(),
            written is Ok ==> old(self)@.buf().path is Some,
        ensures
            match written {
                Ok((lines, bytes)) => final(self)@ == (EditorModel {
                    message: Some(
                        MessageModel {
                            kind: MessageKind::Info,
                            text: written_text(
                                old(self)@.buf().path->0,
                                lines as nat,
                                bytes as nat,
                            ),
                        },
                    ),
                    ..old(self)@.with_buf(BufferModel { is_dirty: false, ..old(self)@.buf() })
                }),
                Err(e) => final(self)@ == (EditorModel {
                    message: Some(MessageModel { kind: MessageKind::Error, text: e@ }),
                    ..old(self)@
                }),
            },
    {
        match written {
            Err(e) => self.set_message(Message::error(e)),
            Ok((lines, bytes)) => {
                self.buf_mut().is_dirty = false;
                let mut info = String::from_str("\"");
                match &self.buf().path {
                    Some(p) => string_push_str(&mut info, p.as_str()),
                    None => {},
                }
                string_push_str(&mut info, "\" ");
                string_push_str(&mut info, to_decimal(lines).as_str());
                string_push_str(&mut info, "L, ");
                string_push_str(&mut info, to_decimal(bytes).as_str());
                string_push_str(&mut info, "B written");
                proof {
                    reveal_strlit("\"");
                    reveal_strlit("\" ");
                    reveal_strlit("L, ");
                    reveal_strlit("B written");
                }
                self.set_message(Message::info(info));
            },
        }
    }

    fn clear_pending_count(&mut self)
        ensures
            final(self)@ == (EditorModel { pending_count: None, ..old(self)@ }),
    {
        self.pending_count = None;
    }

    /// The count typed in front of the command, 1 when there is none;
    /// forgets it.
    fn take_pending_count(&mut self) -> (count: usize)
        ensures
            count == match old(self)@.pending_count {
                Some(n) => n,
                None => 1,
            },
            final(self)@ == (EditorModel { pending_count: None, ..old(self)@ }),
    {
        match self.pending_count.take() {
            Some(n) => n,
            None => 1,
        }
    }

    /// Appends the digit `n` to the count being typed.
    fn push_pending_count_digit(&mut self, n: u32)
        requires
            pending_value(old(self)@) * 10 + n <= usize::MAX,
        ensures
            final(self)@ == (EditorModel {
                pending_count: Some((pending_value(old(self)@) * 10 + n) as usize),
                ..old(self)@
            }),
    {
        let count = match self.pending_count {
            Some(c) => c,
            None => 0,
        };
        self.pending_count = Some(count * 10 + n as usize);
    }
}

/// The count typed so far, 0 when none.
pub open spec fn pending_value(e: EditorModel) -> int {
    match e.pending_count {
        Some(c) => c as int,
        None => 0,
    }
}

/// The key is Control-C.
pub open spec fn is_interrupt(key: key::KeyEvent) -> bool {
    key.code == key::KeyCode::Char('c') && key.ctrl
}

/// `update` can process `event`.
pub open spec fn can_update(e: EditorModel, event: key::Event) -> bool {
    match event {
        key::Event::Key(k) => !is_interrupt(k) ==> match e.mode {
            Mode::Normal => normal::can_handle(e, k),
            Mode::Insert => insert::can_handle(e, k),
            Mode::Command => cmdline::can_handle(e, k),
            Mode::OperatorPending(s) => operator::can_handle(e, k, s),
        },
        key::Event::Other => true,
    }
}

/// The editor after `event`, and what is left for the front end.
pub open spec fn updated(e: EditorModel, event: key::Event) -> (EditorModel, EffectModel) {
    match event {
        key::Event::Key(k) => if is_interrupt(k) {
            (EditorModel { should_quit: true, ..e }, EffectModel::Nothing)
        } else {
            match e.mode {
                Mode::Normal => (normal::handled(e, k), EffectModel::Nothing),
                Mode::Insert => (insert::handled(e, k), EffectModel::Nothing),
                Mode::Command => cmdline::handled(e, k),
                Mode::OperatorPending(s) => (operator::handled(e, k, s), EffectModel::Nothing),
            }
        },
        key::Event::Other => (e, EffectModel::Nothing),
    }
}

impl Editor {
    /// Reacts to an input event.
    pub fn update(&mut self, event: key::Event) -> (effect: Effect)
        requires
            can_update(old(self)@, event),
        ensures
            (final(self)@, effect@) == updated(old(self)@, event),
    {
        match event {
            key::Event::Key(key) => {
                if key.code == key::KeyCode::Char('c') && key.ctrl {
                    self.should_quit = true;
                    return Effect::Nothing;
                }
                match self.mode {
                    Mode::Normal => normal::handle(self, key),
                    Mode::Insert => insert::handle(self, key),
                    Mode::Command => return cmdline::handle(self, key),
                    Mode::OperatorPending(state) => operator::handle(self, key, state),
                }
                Effect::Nothing
            },
            key::Event::Other => Effect::Nothing,
        }
    }
}

} // verus!
