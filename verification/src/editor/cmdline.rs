use vstd::prelude::*;

use super::key::{KeyCode, KeyEvent};
use super::{Editor, EditorModel, Effect, EffectModel, Message, MessageKind, MessageModel, Mode};
use crate::strings::{
    boundary, char_utf8, string_clear, string_insert, string_push, string_remove, strings_chars,
    utf8, width_at,
};

verus! {

pub struct CmdLine {
    pub buf: String,
    /// Byte offset of the cursor in `buf`.
    pub cursor: usize,
}

/// The command line: its text as UTF-8 bytes and the cursor.
#[verifier::ext_equal]
pub struct CmdLineModel {
    pub buf: Seq<u8>,
    pub cursor: usize,
}

impl View for CmdLine {
    type V = CmdLineModel;

    open spec fn view(&self) -> CmdLineModel {
        CmdLineModel { buf: utf8(self.buf@), cursor: self.cursor }
    }
}

impl Default for CmdLine {
    fn default() -> (c: Self)
        ensures
            c@ == (CmdLineModel { buf: Seq::empty(), cursor: 0 }),
    {
        CmdLine { buf: String::new(), cursor: 0 }
    }
}

impl CmdLine {
    fn move_left(&mut self)
        ensures
            final(self)@ == (CmdLineModel {
                cursor: if old(self).cursor > 0 {
                    (old(self).cursor - 1) as usize
                } else {
                    0
                },
                ..old(self)@
            }),
    {
        self.cursor = self.cursor.saturating_sub(1);
    }

    fn move_right(&mut self)
        ensures
            final(self)@ == (CmdLineModel {
                cursor: if old(self).cursor < old(self)@.buf.len() {
                    (old(self).cursor + 1) as usize
                } else {
                    old(self).cursor
                },
                ..old(self)@
            }),
    {
        if self.cursor < crate::strings::byte_len(self.buf.as_str()) {
            self.cursor += 1;
        }
    }

    fn insert_char(&mut self, ch: char)
        requires
            boundary(old(self).buf@, old(self).cursor as int),
            old(self).cursor < usize::MAX,
        ensures
            final(self)@ == (CmdLineModel {
                buf: old(self)@.buf.take(old(self).cursor as int) + char_utf8(ch) + old(
                    self,
                )@.buf.skip(old(self).cursor as int),
                cursor: (old(self).cursor + 1) as usize,
            }),
    {
        string_insert(&mut self.buf, self.cursor, ch);
        self.cursor += 1;
    }

    fn remove_char(&mut self)
        requires
            old(self)@.buf.len() > 0 ==> {
                &&& 0 < old(self).cursor <= old(self)@.buf.len()
                &&& boundary(old(self).buf@, old(self).cursor - 1)
            },
        ensures
            old(self)@.buf.len() == 0 ==> final(self)@ == old(self)@,
            old(self)@.buf.len() > 0 ==> ({
                let b = old(self)@.buf;
                let at = old(self).cursor - 1;
                final(self)@ == (CmdLineModel {
                    buf: b.take(at) + b.skip(at + width_at(b, at)),
                    cursor: at as usize,
                })
            }),
    {
        if self.buf.as_str().is_empty() {
            proof {
                vstd::utf8::encode_utf8_valid_utf8(self.buf@);
                assert(self.buf@ =~= Seq::<char>::empty());
                assert(utf8(self.buf@) =~= Seq::<u8>::empty());
            }
            return;
        }
        proof {
            if self.buf@.len() > 0 {
                vstd::utf8::encode_utf8_first_scalar(self.buf@);
                crate::strings::lemma_char_utf8(self.buf@[0]);
            }
        }
        self.cursor -= 1;
        string_remove(&mut self.buf, self.cursor);
    }

    pub fn clear(&mut self)
        ensures
            final(self)@ == (CmdLineModel { buf: Seq::empty(), cursor: 0 }),
    {
        string_clear(&mut self.buf);
        self.cursor = 0;
    }
}

// ---------------------------------------------------------------------------
// Parsing
// ---------------------------------------------------------------------------

#[derive(Debug)]
pub enum Error {
    NotAnEditorCommand(String),
    MissingArgument(&'static str),
}

pub enum ErrorModel {
    NotAnEditorCommand(Seq<char>),
    MissingArgument(Seq<char>),
}

impl View for Error {
    type V = ErrorModel;

    open spec fn view(&self) -> ErrorModel {
        match self {
            Error::NotAnEditorCommand(name) => ErrorModel::NotAnEditorCommand(name@),
            Error::MissingArgument(arg) => ErrorModel::MissingArgument(arg@),
        }
    }
}

/// The text of an error, as it is shown to the user.
pub open spec fn error_text(e: ErrorModel) -> Seq<char> {
    match e {
        ErrorModel::NotAnEditorCommand(name) => "Not an editor command: "@ + name,
        ErrorModel::MissingArgument(arg) => "Missing argument: "@ + arg,
    }
}

impl Error {
    /// The text of the error.
    pub fn message(&self) -> (s: String)
        ensures
            s@ == error_text(self@),
    {
        match self {
            Error::NotAnEditorCommand(name) => {
                let mut s = String::from_str("Not an editor command: ");
                s.append(name.as_str());
                s
            },
            Error::MissingArgument(arg) => {
                let mut s = String::from_str("Missing argument: ");
                s.append(arg);
                s
            },
        }
    }
}

#[derive(Debug)]
pub enum Command {
    Quit,
    Write(Option<String>),
    Edit(String),
}

pub enum CommandModel {
    Quit,
    Write(Option<Seq<char>>),
    Edit(Seq<char>),
}

impl View for Command {
    type V = CommandModel;

    open spec fn view(&self) -> CommandModel {
        match self {
            Command::Quit => CommandModel::Quit,
            Command::Write(dest) => CommandModel::Write(
                match dest {
                    Some(d) => Some(d@),
                    None => None,
                },
            ),
            Command::Edit(path) => CommandModel::Edit(path@),
        }
    }
}

/// The characters `split_whitespace` separates words at: those with the
/// Unicode `White_Space` property.
pub open spec fn is_ws(c: char) -> bool {
    let u = c as u32;
    ||| u == 0x20
    ||| 0x09 <= u <= 0x0d
    ||| u == 0x85
    ||| u == 0xa0
    ||| u == 0x1680
    ||| 0x2000 <= u <= 0x200a
    ||| u == 0x2028
    ||| u == 0x2029
    ||| u == 0x202f
    ||| u == 0x205f
    ||| u == 0x3000
}

/// `cur` followed by the word that ended there, if any.
pub open spec fn flush(cur: Seq<char>) -> Seq<Seq<char>> {
    if cur.len() > 0 {
        seq![cur]
    } else {
        seq![]
    }
}

/// The words of `s`, when a word `cur` was already started before it.
pub open spec fn words_from(s: Seq<char>, cur: Seq<char>) -> Seq<Seq<char>>
    decreases s.len(),
{
    if s.len() == 0 {
        flush(cur)
    } else if is_ws(s[0]) {
        flush(cur) + words_from(s.drop_first(), seq![])
    } else {
        words_from(s.drop_first(), cur.push(s[0]))
    }
}

/// The maximal runs of non-whitespace characters of `s`, in order.
pub open spec fn words(s: Seq<char>) -> Seq<Seq<char>> {
    words_from(s, seq![])
}

/// What a command line with these words means.
pub open spec fn parse_words(w: Seq<Seq<char>>) -> Result<Option<CommandModel>, ErrorModel> {
    if w.len() == 0 {
        Ok(None)
    } else if w[0] == "q"@ {
        Ok(Some(CommandModel::Quit))
    } else if w[0] == "w"@ {
        Ok(
            Some(
                CommandModel::Write(
                    if w.len() > 1 {
                        Some(w[1])
                    } else {
                        None
                    },
                ),
            ),
        )
    } else if w[0] == "e"@ {
        if w.len() > 1 {
            Ok(Some(CommandModel::Edit(w[1])))
        } else {
            Err(ErrorModel::MissingArgument("path"@))
        }
    } else {
        Err(ErrorModel::NotAnEditorCommand(w[0]))
    }
}

pub open spec fn parse_view(r: Result<Option<Command>, Error>) -> Result<
    Option<CommandModel>,
    ErrorModel,
> {
    match r {
        Ok(Some(c)) => Ok(Some(c@)),
        Ok(None) => Ok(None),
        Err(e) => Err(e@),
    }
}

/// Whether `c` is whitespace, as `char::is_whitespace` says.
pub fn is_whitespace(c: char) -> (b: bool)
    ensures
        b == is_ws(c),
{
    let u = c as u32;
    u == 0x20 || (0x09 <= u && u <= 0x0d) || u == 0x85 || u == 0xa0 || u == 0x1680 || (0x2000
        <= u && u <= 0x200a) || u == 0x2028 || u == 0x2029 || u == 0x202f || u == 0x205f || u
        == 0x3000
}

proof fn lemma_words_step(s: Seq<char>, i: int, cur: Seq<char>)
    requires
        0 <= i < s.len(),
    ensures
        words_from(s.skip(i), cur) == if is_ws(s[i]) {
            flush(cur) + words_from(s.skip(i + 1), seq![])
        } else {
            words_from(s.skip(i + 1), cur.push(s[i]))
        },
{
    assert(s.skip(i).drop_first() =~= s.skip(i + 1));
}

/// Splits `s` into its words, as `str::split_whitespace` does.
pub fn split_whitespace(s: &str) -> (ws: Vec<String>)
    ensures
        strings_chars(ws@) == words(s@),
{
    let mut ws: Vec<String> = Vec::new();
    let mut cur = String::new();
    let ghost chars = s@;
    proof {
        assert(chars.skip(0) =~= chars);
    }
    for c in iter: s.chars()
        invariant
            iter.seq() == chars,
            words(chars) == strings_chars(ws@) + words_from(chars.skip(iter.index()), cur@),
    {
        let ghost k = iter.index();
        let ghost before = ws@;
        let ghost old_cur = cur@;
        assert(c == chars[k]);
        proof {
            lemma_words_step(chars, k, cur@);
        }
        if is_whitespace(c) {
            if !cur.as_str().is_empty() {
                let w = cur;
                cur = String::new();
                ws.push(w);
                proof {
                    assert(strings_chars(ws@) =~= strings_chars(before) + seq![w@]);
                    assert(strings_chars(ws@) + words_from(chars.skip(k + 1), cur@) =~= strings_chars(
                        before,
                    ) + (flush(old_cur) + words_from(chars.skip(k + 1), seq![])));
                }
            } else {
                proof {
                    assert(flush(old_cur) + words_from(chars.skip(k + 1), seq![]) =~= words_from(
                        chars.skip(k + 1),
                        seq![],
                    ));
                    assert(cur@ =~= Seq::<char>::empty());
                }
            }
        } else {
            string_push(&mut cur, c);
        }
    }
    let ghost i = chars.len() as int;
    proof {
        assert(chars.skip(i) =~= Seq::<char>::empty());
    }
    if !cur.as_str().is_empty() {
        let ghost before = ws@;
        ws.push(cur);
        proof {
            assert(strings_chars(ws@) =~= strings_chars(before) + flush(cur@));
        }
    } else {
        proof {
            assert(strings_chars(ws@) =~= strings_chars(ws@) + flush(cur@));
        }
    }
    ws
}

pub fn parse(input: &str) -> (res: Result<Option<Command>, Error>)
    ensures
        parse_view(res) == parse_words(words(input@)),
{
    let args = split_whitespace(input);
    proof {
        reveal_strlit("q");
        reveal_strlit("w");
        reveal_strlit("e");
        reveal_strlit("path");
    }

    if args.len() == 0 {
        return Ok(None);
    }
    let ghost w = strings_chars(args@);
    assert(args@[0]@ == w[0]);

    let cmd = if args[0] == String::from_str("q") {
        Command::Quit
    } else if args[0] == String::from_str("w") {
        if args.len() > 1 {
            assert(args@[1]@ == w[1]);
            Command::Write(Some(args[1].clone()))
        } else {
            Command::Write(None)
        }
    } else if args[0] == String::from_str("e") {
        if args.len() > 1 {
            assert(args@[1]@ == w[1]);
            Command::Edit(args[1].clone())
        } else {
            return Err(Error::MissingArgument("path"));
        }
    } else {
        return Err(Error::NotAnEditorCommand(args[0].clone()));
    };

    Ok(Some(cmd))
}

/// The characters typed on the command line.
pub open spec fn typed(e: EditorModel) -> Seq<char> {
    vstd::utf8::decode_utf8(e.cmdline.buf)
}

/// The editor after running `cmd`, and what is left for the front end.
pub open spec fn executed(e: EditorModel, cmd: CommandModel) -> (EditorModel, EffectModel) {
    match cmd {
        CommandModel::Quit => (EditorModel { should_quit: true, ..e }, EffectModel::Nothing),
        CommandModel::Write(dest) => (e, EffectModel::Write(dest)),
        CommandModel::Edit(path) => (e, EffectModel::Edit(path)),
    }
}

/// The editor after the command line is submitted, and what is left for
/// the front end.
pub open spec fn submitted(e: EditorModel) -> (EditorModel, EffectModel) {
    match parse_words(words(typed(e))) {
        Ok(None) => (e.with_mode(Mode::Normal), EffectModel::Nothing),
        Ok(Some(cmd)) => {
            let (e1, effect) = executed(e, cmd);
            (e1.with_mode(Mode::Normal), effect)
        },
        Err(err) => (
            EditorModel {
                message: Some(MessageModel { kind: MessageKind::Error, text: error_text(err) }),
                ..e
            }.with_mode(Mode::Normal),
            EffectModel::Nothing,
        ),
    }
}

/// `handle` can process `key` in command mode.
pub open spec fn can_handle(e: EditorModel, key: KeyEvent) -> bool {
    let c = e.cmdline;
    match key.code {
        KeyCode::Char(_) => vstd::utf8::is_char_boundary(c.buf, c.cursor as int) && c.cursor
            < usize::MAX,
        KeyCode::Backspace => c.buf.len() > 0 ==> {
            &&& 0 < c.cursor <= c.buf.len()
            &&& vstd::utf8::is_char_boundary(c.buf, c.cursor - 1)
        },
        _ => true,
    }
}

/// The editor after `key` in command mode, and what is left for the front
/// end.
pub open spec fn handled(e: EditorModel, key: KeyEvent) -> (EditorModel, EffectModel) {
    let c = e.cmdline;
    match key.code {
        KeyCode::Char(ch) => (
            EditorModel {
                cmdline: CmdLineModel {
                    buf: c.buf.take(c.cursor as int) + char_utf8(ch) + c.buf.skip(c.cursor as int),
                    cursor: (c.cursor + 1) as usize,
                },
                ..e
            },
            EffectModel::Nothing,
        ),
        KeyCode::Left => (
            EditorModel {
                cmdline: CmdLineModel {
                    cursor: if c.cursor > 0 {
                        (c.cursor - 1) as usize
                    } else {
                        0
                    },
                    ..c
                },
                ..e
            },
            EffectModel::Nothing,
        ),
        KeyCode::Right => (
            EditorModel {
                cmdline: CmdLineModel {
                    cursor: if c.cursor < c.buf.len() {
                        (c.cursor + 1) as usize
                    } else {
                        c.cursor
                    },
                    ..c
                },
                ..e
            },
            EffectModel::Nothing,
        ),
        KeyCode::Backspace => (
            if c.buf.len() == 0 {
                e
            } else {
                let at = c.cursor - 1;
                EditorModel {
                    cmdline: CmdLineModel {
                        buf: c.buf.take(at) + c.buf.skip(at + width_at(c.buf, at)),
                        cursor: at as usize,
                    },
                    ..e
                }
            },
            EffectModel::Nothing,
        ),
        KeyCode::Esc => (e.with_mode(Mode::Normal), EffectModel::Nothing),
        KeyCode::Enter => submitted(e),
        _ => (e, EffectModel::Nothing),
    }
}

pub fn handle(ed: &mut Editor, key: KeyEvent) -> (effect: Effect)
    requires
        can_handle(old(ed)@, key),
    ensures
        (final(ed)@, effect@) == handled(old(ed)@, key),
{
    match key.code {
        KeyCode::Char(ch) => ed.cmdline.insert_char(ch),
        KeyCode::Left => ed.cmdline.move_left(),
        KeyCode::Right => ed.cmdline.move_right(),
        KeyCode::Backspace => ed.cmdline.remove_char(),
        KeyCode::Esc => ed.mode = Mode::Normal,
        KeyCode::Enter => return submit(ed),
        _ => {},
    }
    Effect::Nothing
}

/// Runs the command typed on the command line, and leaves command mode.
fn submit(ed: &mut Editor) -> (effect: Effect)
    ensures
        (final(ed)@, effect@) == submitted(old(ed)@),
{
    proof {
        vstd::utf8::encode_utf8_decode_utf8(ed.cmdline.buf@);
    }
    let effect = match parse(ed.cmdline.buf.as_str()) {
        Ok(None) => Effect::Nothing,
        Ok(Some(cmd)) => execute(ed, cmd),
        Err(e) => {
            ed.set_message(Message::from_error(&e));
            Effect::Nothing
        },
    };
    ed.mode = Mode::Normal;
    effect
}

/// Carries out what the editor itself can of `cmd`.
fn execute(ed: &mut Editor, cmd: Command) -> (effect: Effect)
    ensures
        (final(ed)@, effect@) == executed(old(ed)@, cmd@),
{
    match cmd {
        Command::Quit => {
            ed.should_quit = true;
            Effect::Nothing
        },
        Command::Write(dest) => Effect::Write(dest),
        Command::Edit(path) => Effect::Edit(path),
    }
}

} // verus!
