use vstd::prelude::*;

use super::window::Cursor;
use crate::layout::Vec2;
use crate::strings::{string_pop, string_push, string_push_str, strings_chars, utf8};

verus! {

pub struct Buffer {
    pub lines: Vec<String>,
    /// The absolute path the buffer is read from and written to.
    pub path: Option<String>,
    pub is_dirty: bool,
    pub ends_with_newline: bool,
    /// To restore the last cursor and scroll when reentering the buffer.
    pub last_view: Option<(Cursor, Vec2<usize>)>,
}

/// What a buffer holds: its lines as UTF-8 bytes, and its state.
#[verifier::ext_equal]
pub struct BufferModel {
    pub lines: Seq<Seq<u8>>,
    pub path: Option<Seq<char>>,
    pub is_dirty: bool,
    pub ends_with_newline: bool,
    pub last_view: Option<(Cursor, Vec2<usize>)>,
}

/// The bytes of each line.
pub open spec fn lines_bytes(lines: Seq<String>) -> Seq<Seq<u8>> {
    lines.map_values(|l: String| utf8(l@))
}

/// Replacing one line replaces its bytes.
pub broadcast proof fn lemma_lines_bytes_update(lines: Seq<String>, i: int, l: String)
    requires
        0 <= i < lines.len(),
    ensures
        #[trigger] lines_bytes(lines.update(i, l)) == lines_bytes(lines).update(i, utf8(l@)),
{
    assert(lines_bytes(lines.update(i, l)) =~= lines_bytes(lines).update(i, utf8(l@)));
}

pub open spec fn opt_string_view(s: Option<String>) -> Option<Seq<char>> {
    match s {
        Some(p) => Some(p@),
        None => None,
    }
}

impl View for Buffer {
    type V = BufferModel;

    open spec fn view(&self) -> BufferModel {
        BufferModel {
            lines: lines_bytes(self.lines@),
            path: opt_string_view(self.path),
            is_dirty: self.is_dirty,
            ends_with_newline: self.ends_with_newline,
            last_view: self.last_view,
        }
    }
}

impl Default for Buffer {
    fn default() -> (b: Self)
        ensures
            b@ == (BufferModel {
                lines: seq![Seq::<u8>::empty()],
                path: None,
                is_dirty: false,
                ends_with_newline: false,
                last_view: None,
            }),
    {
        let b = Self {
            lines: vec![String::new()],
            path: None,
            is_dirty: false,
            ends_with_newline: false,
            last_view: None,
        };
        assert(b@.lines =~= seq![Seq::<u8>::empty()]);
        b
    }
}

impl Buffer {
    pub fn smudge(&mut self)
        ensures
            final(self)@ == (BufferModel { is_dirty: true, ..old(self)@ }),
    {
        self.is_dirty = true;
    }
}

/// `l` without the carriage return that ends it, if any.
pub open spec fn strip_cr(l: Seq<char>) -> Seq<char> {
    if l.len() > 0 && l.last() == '\r' {
        l.drop_last()
    } else {
        l
    }
}

/// The lines of `s` when a line `cur` was already started before it: lines
/// end at `\n`, a `\r` in front of it is not part of the line, and a last
/// line without `\n` counts only when it is not empty.
pub open spec fn lines_from(s: Seq<char>, cur: Seq<char>) -> Seq<Seq<char>>
    decreases s.len(),
{
    if s.len() == 0 {
        if cur.len() > 0 {
            seq![cur]
        } else {
            seq![]
        }
    } else if s[0] == '\n' {
        seq![strip_cr(cur)] + lines_from(s.drop_first(), seq![])
    } else {
        lines_from(s.drop_first(), cur.push(s[0]))
    }
}

/// The lines of a text, as `str::lines` gives them.
pub open spec fn text_lines(s: Seq<char>) -> Seq<Seq<char>> {
    lines_from(s, seq![])
}

/// The lines a buffer holds for a file with text `s`: at least one.
pub open spec fn file_lines(s: Seq<char>) -> Seq<Seq<char>> {
    if text_lines(s).len() == 0 {
        seq![Seq::empty()]
    } else {
        text_lines(s)
    }
}

/// The text ends with a line feed.
pub open spec fn ends_with_lf(s: Seq<char>) -> bool {
    s.len() > 0 && s.last() == '\n'
}

pub open spec fn chars_to_bytes(lines: Seq<Seq<char>>) -> Seq<Seq<u8>> {
    lines.map_values(|l: Seq<char>| utf8(l))
}

/// The lines joined with line feeds.
pub open spec fn joined(lines: Seq<Seq<u8>>) -> Seq<u8>
    decreases lines.len(),
{
    if lines.len() == 0 {
        Seq::empty()
    } else if lines.len() == 1 {
        lines[0]
    } else {
        joined(lines.drop_last()) + seq![10u8] + lines.last()
    }
}

/// The buffer ends its file with a line feed: when it says so and holds
/// more than one empty line.
pub open spec fn writes_final_lf(b: BufferModel) -> bool {
    b.ends_with_newline && !(b.lines.len() == 1 && b.lines[0].len() == 0)
}

/// The bytes a buffer writes to its file.
pub open spec fn serialized(b: BufferModel) -> Seq<u8> {
    joined(b.lines) + if writes_final_lf(b) {
        seq![10u8]
    } else {
        Seq::empty()
    }
}

/// What it takes to write a buffer to its file.
pub struct WriteJob {
    pub path: String,
    pub contents: String,
    pub lines: usize,
}

proof fn lemma_lines_step(s: Seq<char>, i: int, cur: Seq<char>)
    requires
        0 <= i < s.len(),
    ensures
        lines_from(s.skip(i), cur) == if s[i] == '\n' {
            seq![strip_cr(cur)] + lines_from(s.skip(i + 1), seq![])
        } else {
            lines_from(s.skip(i + 1), cur.push(s[i]))
        },
{
    assert(s.skip(i).drop_first() =~= s.skip(i + 1));
}

/// Splits a text into lines, and tells whether it ends with a line feed.
fn lines_from_str(s: &str) -> (res: (Vec<String>, bool))
    ensures
        strings_chars(res.0@) == file_lines(s@),
        res.1 == ends_with_lf(s@),
{
    let ghost chars = s@;
    let mut lines: Vec<String> = Vec::new();
    let mut cur = String::new();
    let mut last: Option<char> = None;
    proof {
        assert(chars.skip(0) =~= chars);
    }
    for c in iter: s.chars()
        invariant
            iter.seq() == chars,
            text_lines(chars) == strings_chars(lines@) + lines_from(
                chars.skip(iter.index()),
                cur@,
            ),
            last == if iter.index() == 0 {
                None
            } else {
                Some(chars[iter.index() - 1])
            },
    {
        let ghost k = iter.index();
        let ghost before = lines@;
        let ghost old_cur = cur@;
        assert(c == chars[k]);
        proof {
            lemma_lines_step(chars, k, cur@);
        }
        if c == '\n' {
            let mut line = cur;
            cur = String::new();
            if let Some(last_c) = string_pop(&mut line) {
                if last_c != '\r' {
                    string_push(&mut line, last_c);
                }
            }
            proof {
                assert(line@ =~= strip_cr(old_cur));
            }
            lines.push(line);
            proof {
                assert(strings_chars(lines@) =~= strings_chars(before) + seq![strip_cr(old_cur)]);
                assert(strings_chars(lines@) + lines_from(chars.skip(k + 1), cur@) =~= strings_chars(
                    before,
                ) + (seq![strip_cr(old_cur)] + lines_from(chars.skip(k + 1), seq![])));
            }
        } else {
            string_push(&mut cur, c);
        }
        last = Some(c);
    }
    proof {
        assert(chars.skip(chars.len() as int) =~= Seq::<char>::empty());
    }
    if !cur.as_str().is_empty() {
        let ghost before = lines@;
        lines.push(cur);
        proof {
            assert(strings_chars(lines@) =~= strings_chars(before) + seq![cur@]);
        }
    } else {
        proof {
            assert(strings_chars(lines@) =~= strings_chars(lines@) + Seq::<Seq<char>>::empty());
        }
    }
    if lines.len() == 0 {
        lines.push(String::new());
        proof {
            assert(strings_chars(lines@) =~= seq![Seq::<char>::empty()]);
        }
    }
    let ends_with_newline = match last {
        Some(c) => c == '\n',
        None => false,
    };
    (lines, ends_with_newline)
}

impl Buffer {
    /// A buffer holding the text of a file; no file is read here.
    pub fn from_text(path: Option<String>, text: &str) -> (b: Self)
        ensures
            b@ == (BufferModel {
                lines: chars_to_bytes(file_lines(text@)),
                path: opt_string_view(path),
                is_dirty: false,
                ends_with_newline: ends_with_lf(text@),
                last_view: None,
            }),
    {
        let (lines, ends_with_newline) = lines_from_str(text);
        let b = Self { lines, path, is_dirty: false, ends_with_newline, last_view: None };
        proof {
            assert(b@.lines =~= chars_to_bytes(file_lines(text@)));
        }
        b
    }

    /// The text the buffer writes to its file.
    pub fn contents(&self) -> (s: String)
        ensures
            utf8(s@) == serialized(self@),
    {
        let mut out = String::new();
        let n = self.lines.len();
        let mut i: usize = 0;
        proof {
            crate::strings::lemma_char_utf8('\n');
            assert(self@.lines.take(0) =~= Seq::<Seq<u8>>::empty());
        }
        while i < n
            invariant
                n == self.lines@.len(),
                0 <= i <= n,
                utf8(out@) == joined(self@.lines.take(i as int)),
                crate::strings::char_utf8('\n') == seq![10u8],
            decreases n - i,
        {
            let ghost before = out@;
            if i > 0 {
                string_push(&mut out, '\n');
                proof {
                    crate::strings::lemma_utf8_concat(before, seq!['\n']);
                    assert(before.push('\n') =~= before + seq!['\n']);
                }
            }
            let ghost mid = out@;
            string_push_str(&mut out, self.lines[i].as_str());
            proof {
                crate::strings::lemma_utf8_concat(mid, self.lines@[i as int]@);
                let t = self@.lines.take(i + 1);
                assert(t.drop_last() =~= self@.lines.take(i as int));
                if i == 0 {
                    assert(utf8(before) =~= Seq::<u8>::empty());
                    assert(utf8(out@) =~= t[0]);
                }
            }
            i = i + 1;
        }
        proof {
            assert(self@.lines.take(n as int) =~= self@.lines);
        }
        let single_empty = n == 1 && self.lines[0].as_str().is_empty();
        proof {
            if n == 1 {
                vstd::utf8::encode_utf8_valid_utf8(self.lines@[0]@);
                if self.lines@[0]@.len() > 0 {
                    vstd::utf8::encode_utf8_first_scalar(self.lines@[0]@);
                } else {
                    assert(self.lines@[0]@ =~= Seq::<char>::empty());
                }
            }
        }
        if self.ends_with_newline && !single_empty {
            let ghost before = out@;
            string_push(&mut out, '\n');
            proof {
                crate::strings::lemma_utf8_concat(before, seq!['\n']);
                assert(before.push('\n') =~= before + seq!['\n']);
            }
        } else {
            proof {
                assert(utf8(out@) =~= utf8(out@) + Seq::<u8>::empty());
            }
        }
        out
    }

    /// The path, text and line count to write, or why the buffer cannot be
    /// written.
    pub fn write_job(&self) -> (job: Result<WriteJob, String>)
        ensures
            match job {
                Ok(j) => self@.path == Some(j.path@) && utf8(j.contents@) == serialized(self@)
                    && j.lines == self@.lines.len(),
                Err(e) => self@.path is None && e@ == "No file name"@,
            },
    {
        match &self.path {
            None => Err(String::from_str("No file name")),
            Some(p) => Ok(WriteJob { path: p.clone(), contents: self.contents(), lines: self.lines.len() }),
        }
    }
}

/// The lines joined with line feeds, as characters.
pub open spec fn joined_chars(lines: Seq<Seq<char>>) -> Seq<char>
    decreases lines.len(),
{
    if lines.len() == 0 {
        Seq::empty()
    } else if lines.len() == 1 {
        lines[0]
    } else {
        joined_chars(lines.drop_last()) + seq!['\n'] + lines.last()
    }
}

/// The line holds no line feed.
pub open spec fn no_lf(l: Seq<char>) -> bool {
    forall|i: int| 0 <= i < l.len() ==> l[i] != '\n'
}

/// Lines that a file keeps as they are: none holds a line feed, and none
/// but the last ends with a carriage return.
pub open spec fn kept_lines(ls: Seq<Seq<char>>) -> bool {
    &&& forall|i: int| 0 <= i < ls.len() ==> no_lf(#[trigger] ls[i])
    &&& forall|i: int| 0 <= i < ls.len() - 1 ==> strip_cr(#[trigger] ls[i]) == ls[i]
}

/// The text holds no carriage return directly before a line feed.
pub open spec fn no_crlf(s: Seq<char>) -> bool {
    forall|i: int| 0 <= i < s.len() - 1 ==> !(s[i] == '\r' && #[trigger] s[i + 1] == '\n')
}

proof fn lemma_utf8_empty(l: Seq<char>)
    ensures
        utf8(l).len() == 0 <==> l.len() == 0,
{
    if l.len() > 0 {
        crate::strings::lemma_char_utf8(l[0]);
    }
}

proof fn lemma_joined_utf8(lines: Seq<Seq<char>>)
    ensures
        utf8(joined_chars(lines)) == joined(chars_to_bytes(lines)),
    decreases lines.len(),
{
    if lines.len() >= 2 {
        let front = lines.drop_last();
        lemma_joined_utf8(front);
        assert(chars_to_bytes(front) =~= chars_to_bytes(lines).drop_last());
        crate::strings::lemma_utf8_concat(joined_chars(front), seq!['\n']);
        crate::strings::lemma_utf8_concat(joined_chars(front) + seq!['\n'], lines.last());
        crate::strings::lemma_char_utf8('\n');
    }
}

proof fn lemma_joined_front(lines: Seq<Seq<char>>)
    requires
        lines.len() >= 2,
    ensures
        joined_chars(lines) == lines[0] + seq!['\n'] + joined_chars(lines.drop_first()),
    decreases lines.len(),
{
    let front = lines.drop_last();
    let rest = lines.drop_first();
    if lines.len() == 2 {
        assert(joined_chars(front) == lines[0]);
        assert(joined_chars(rest) == lines[1]);
        assert(joined_chars(lines) =~= lines[0] + seq!['\n'] + joined_chars(rest));
    } else {
        lemma_joined_front(front);
        assert(front.drop_first() =~= rest.drop_last());
        assert(joined_chars(lines) =~= lines[0] + seq!['\n'] + joined_chars(rest));
    }
}

proof fn lemma_lines_from_line(l: Seq<char>, rest: Seq<char>, cur: Seq<char>)
    requires
        no_lf(l),
    ensures
        lines_from(l + rest, cur) == lines_from(rest, cur + l),
    decreases l.len(),
{
    if l.len() == 0 {
        assert(l + rest =~= rest);
        assert(cur + l =~= cur);
    } else {
        assert((l + rest)[0] == l[0]);
        assert((l + rest).drop_first() =~= l.drop_first() + rest);
        lemma_lines_from_line(l.drop_first(), rest, cur.push(l[0]));
        assert(cur.push(l[0]) + l.drop_first() =~= cur + l);
    }
}

proof fn lemma_lines_from_lf(rest: Seq<char>, cur: Seq<char>)
    ensures
        lines_from(seq!['\n'] + rest, cur) == seq![strip_cr(cur)] + lines_from(rest, seq![]),
{
    assert((seq!['\n'] + rest)[0] == '\n');
    assert((seq!['\n'] + rest).drop_first() =~= rest);
}

proof fn lemma_read_joined(ls: Seq<Seq<char>>)
    requires
        ls.len() >= 1,
        kept_lines(ls),
    ensures
        strip_cr(ls.last()) == ls.last() ==> lines_from(joined_chars(ls) + seq!['\n'], seq![])
            == ls,
        lines_from(joined_chars(ls), seq![]) == if ls.last().len() > 0 {
            ls
        } else {
            ls.drop_last()
        },
    decreases ls.len(),
{
    let l = ls[0];
    assert(no_lf(l));
    if ls.len() == 1 {
        lemma_lines_from_line(l, seq!['\n'], seq![]);
        lemma_lines_from_lf(Seq::empty(), l);
        assert(seq!['\n'] + Seq::<char>::empty() =~= seq!['\n']);
        assert(Seq::<char>::empty() + l =~= l);
        lemma_lines_from_line(l, Seq::empty(), seq![]);
        assert(l + Seq::<char>::empty() =~= l);
        assert(ls =~= seq![l]);
        assert(ls.drop_last() =~= Seq::<Seq<char>>::empty());
    } else {
        let rest = ls.drop_first();
        assert(strip_cr(l) == l);
        assert forall|i: int| 0 <= i < rest.len() implies no_lf(#[trigger] rest[i]) by {
            assert(rest[i] == ls[i + 1]);
        }
        assert forall|i: int| 0 <= i < rest.len() - 1 implies strip_cr(#[trigger] rest[i])
            == rest[i] by {
            assert(rest[i] == ls[i + 1]);
        }
        lemma_read_joined(rest);
        lemma_joined_front(ls);
        let jr = joined_chars(rest);
        assert(Seq::<char>::empty() + l =~= l);
        // with the final line feed
        assert(joined_chars(ls) + seq!['\n'] =~= l + (seq!['\n'] + (jr + seq!['\n'])));
        lemma_lines_from_line(l, seq!['\n'] + (jr + seq!['\n']), seq![]);
        lemma_lines_from_lf(jr + seq!['\n'], l);
        assert(ls =~= seq![l] + rest);
        // without it
        assert(joined_chars(ls) =~= l + (seq!['\n'] + jr));
        lemma_lines_from_line(l, seq!['\n'] + jr, seq![]);
        lemma_lines_from_lf(jr, l);
        assert(ls.last() == rest.last());
        assert(ls.drop_last() =~= seq![l] + rest.drop_last());
    }
}

/// Writing a buffer to a file and reading that file back gives the same
/// lines, and a final line feed exactly when one was written. This holds
/// for a buffer of at least one line, whose lines hold no line feed, whose
/// lines followed by a line feed do not end with a carriage return, and
/// whose last line, if empty, is one of several and followed by a final
/// line feed.
pub proof fn lemma_write_then_read(b: Buffer, text: Seq<char>)
    requires
        b.lines@.len() >= 1,
        kept_lines(strings_chars(b.lines@)),
        writes_final_lf(b@) ==> strip_cr(b.lines@.last()@) == b.lines@.last()@,
        writes_final_lf(b@) || b.lines@.len() == 1 || b.lines@.last()@.len() > 0,
        utf8(text) == serialized(b@),
    ensures
        chars_to_bytes(file_lines(text)) == b@.lines,
        ends_with_lf(text) == writes_final_lf(b@),
{
    let cs = strings_chars(b.lines@);
    assert(chars_to_bytes(cs) =~= b@.lines);
    let f = writes_final_lf(b@);
    let tail: Seq<char> = if f {
        seq!['\n']
    } else {
        Seq::empty()
    };
    let t = joined_chars(cs) + tail;
    lemma_joined_utf8(cs);
    crate::strings::lemma_utf8_concat(joined_chars(cs), tail);
    crate::strings::lemma_char_utf8('\n');
    assert(utf8(tail) =~= if f {
        seq![10u8]
    } else {
        Seq::<u8>::empty()
    });
    assert(utf8(t) == utf8(text));
    vstd::utf8::encode_utf8_decode_utf8(t);
    vstd::utf8::encode_utf8_decode_utf8(text);
    assert(t == text);
    lemma_read_joined(cs);
    lemma_utf8_empty(cs[0]);
    lemma_utf8_empty(cs.last());
    if f {
        assert(text.last() == '\n');
    } else {
        assert(text =~= joined_chars(cs));
        if cs.len() == 1 && cs[0].len() == 0 {
            assert(text_lines(text) =~= Seq::<Seq<char>>::empty());
            assert(cs =~= seq![Seq::<char>::empty()]);
        } else {
            assert(cs.last().len() > 0);
            lemma_joined_last(cs);
        }
    }
}

proof fn lemma_joined_last(ls: Seq<Seq<char>>)
    requires
        ls.len() >= 1,
        ls.last().len() > 0,
    ensures
        joined_chars(ls).len() > 0,
        joined_chars(ls).last() == ls.last().last(),
{
}

proof fn lemma_join_read(s: Seq<char>, cur: Seq<char>)
    requires
        no_lf(cur),
        no_crlf(cur + s),
        cur.len() + s.len() > 0,
    ensures
        lines_from(s, cur).len() > 0,
        joined_chars(lines_from(s, cur)) + (if ends_with_lf(cur + s) {
            seq!['\n']
        } else {
            Seq::empty()
        }) == cur + s,
    decreases s.len(),
{
    let all = cur + s;
    if s.len() == 0 {
        assert(all =~= cur);
        if cur.len() > 0 {
            assert(cur.last() == cur[cur.len() - 1]);
        }
        assert(lines_from(s, cur) =~= seq![cur]);
    } else if s[0] == '\n' {
        let rest = s.drop_first();
        if cur.len() > 0 {
            let i = cur.len() - 1;
            assert(all[i] == cur.last());
            assert(all[i + 1] == '\n');
            assert(!(all[i] == '\r' && all[i + 1] == '\n'));
        }
        assert(strip_cr(cur) == cur);
        if rest.len() == 0 {
            assert(lines_from(rest, seq![]) =~= Seq::<Seq<char>>::empty());
            assert(lines_from(s, cur) =~= seq![cur]);
            assert(all =~= cur + seq!['\n']);
        } else {
            assert forall|i: int| 0 <= i < rest.len() - 1 implies !(rest[i] == '\r' && #[trigger] rest[i
                + 1] == '\n') by {
                assert(rest[i] == all[cur.len() + 1 + i]);
                assert(rest[i + 1] == all[cur.len() + 1 + i + 1]);
            }
            assert(Seq::<char>::empty() + rest =~= rest);
            lemma_join_read(rest, seq![]);
            let l2 = lines_from(rest, seq![]);
            let ls = seq![cur] + l2;
            assert(lines_from(s, cur) == ls);
            lemma_joined_front(ls);
            assert(ls.drop_first() =~= l2);
            assert(all.last() == rest.last());
            assert(all =~= cur + seq!['\n'] + rest);
        }
    } else {
        let rest = s.drop_first();
        assert(cur.push(s[0]) + rest =~= all);
        lemma_join_read(rest, cur.push(s[0]));
    }
}

/// Reading a text into a buffer and writing the buffer gives the text back,
/// for every text with no carriage return before a line feed, but for the
/// text made of one line feed alone.
pub proof fn lemma_read_then_write(text: Seq<char>, b: BufferModel)
    requires
        no_crlf(text),
        text != seq!['\n'],
        b.lines == chars_to_bytes(file_lines(text)),
        b.ends_with_newline == ends_with_lf(text),
    ensures
        serialized(b) == utf8(text),
{
    if text.len() == 0 {
        assert(text_lines(text) =~= Seq::<Seq<char>>::empty());
        assert(b.lines =~= seq![Seq::<u8>::empty()]);
        assert(serialized(b) =~= Seq::<u8>::empty());
    } else {
        assert(Seq::<char>::empty() + text =~= text);
        lemma_join_read(text, seq![]);
        let ls = text_lines(text);
        let f = ends_with_lf(text);
        let tail: Seq<char> = if f {
            seq!['\n']
        } else {
            Seq::empty()
        };
        lemma_utf8_empty(ls[0]);
        if f && ls.len() == 1 && ls[0].len() == 0 {
            assert(joined_chars(ls) =~= Seq::<char>::empty());
            assert(text =~= seq!['\n']);
        }
        assert(writes_final_lf(b) == f);
        lemma_joined_utf8(ls);
        crate::strings::lemma_utf8_concat(joined_chars(ls), tail);
        crate::strings::lemma_char_utf8('\n');
        assert(utf8(tail) =~= if f {
            seq![10u8]
        } else {
            Seq::<u8>::empty()
        });
    }
}

} // verus!
