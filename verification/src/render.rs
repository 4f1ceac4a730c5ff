//! # What editor state and layout put on screen: colors, texts and the
//! cursor. The front end turns these into terminal commands.

use vstd::prelude::*;

use crate::editor::{Editor, EditorModel, MessageKind, Mode};
use crate::layout::Rect;
use crate::strings::{
    boundary, decimal, digits_value, is_digit, lemma_decimal_reads_back, string_push,
    string_push_str, to_decimal, utf8,
};
use crate::terminal::Color;

verus! {

pub trait ToColor {
    fn to_color(&self) -> Color;
}

/// The color `0xRRGGBB` stands for.
pub open spec fn rgb_of(n: u32) -> Color {
    Color::Rgb { r: ((n >> 16u32) as u8) & 0xff, g: ((n >> 8u32) as u8) & 0xff, b: (n as u8) & 0xff }
}

impl ToColor for u32 {
    fn to_color(&self) -> (c: Color)
        ensures
            c == rgb_of(*self),
    {
        Color::Rgb {
            r: (#[verifier::truncate] ((*self >> 16u32) as u8)) & 0xff,
            g: (#[verifier::truncate] ((*self >> 8u32) as u8)) & 0xff,
            b: (#[verifier::truncate] (*self as u8)) & 0xff,
        }
    }
}

#[verifier::external_type_specification]
#[verifier::external_body]
pub struct ExParseIntError(std::num::ParseIntError);

/// The value of a hexadecimal digit.
pub open spec fn hex_digit(c: char) -> Option<nat> {
    if '0' <= c <= '9' {
        Some((c as nat - '0' as nat) as nat)
    } else if 'a' <= c <= 'f' {
        Some((c as nat - 'a' as nat + 10) as nat)
    } else if 'A' <= c <= 'F' {
        Some((c as nat - 'A' as nat + 10) as nat)
    } else {
        None
    }
}

/// The value of a run of hexadecimal digits, when they all are.
pub open spec fn hex_number(digits: Seq<char>) -> Option<nat>
    decreases digits.len(),
{
    if digits.len() == 0 {
        Some(0)
    } else {
        match (hex_number(digits.drop_last()), hex_digit(digits.last())) {
            (Some(high), Some(low)) => Some(high * 16 + low),
            _ => None,
        }
    }
}

/// What `u32::from_str_radix(s, 16)` gives: an optional `+`, then at least
/// one hexadecimal digit and nothing else, for a value that fits.
pub open spec fn hex_u32(s: Seq<char>) -> Option<u32> {
    let digits = if s.len() > 0 && s[0] == '+' {
        s.drop_first()
    } else {
        s
    };
    if digits.len() == 0 {
        None
    } else {
        match hex_number(digits) {
            Some(n) => if n <= u32::MAX {
                Some(n as u32)
            } else {
                None
            },
            None => None,
        }
    }
}

/// Parses a hexadecimal number.
///
/// `u32::from_str_radix` with radix 16 accepts an optional `+` followed by
/// one or more of `0-9`, `a-f`, `A-F`, and fails on anything else, on an
/// empty string and on a value above `u32::MAX`.
#[verifier::external_body]
fn parse_hex(s: &str) -> (r: Result<u32, std::num::ParseIntError>)
    ensures
        match r {
            Ok(n) => hex_u32(s@) == Some(n),
            Err(_) => hex_u32(s@) is None,
        },
{
    u32::from_str_radix(s, 16)
}

pub trait TryToColor {
    type Error;

    fn try_to_color(&self) -> Result<Color, Self::Error>;
}

impl TryToColor for &str {
    type Error = std::num::ParseIntError;

    fn try_to_color(&self) -> (c: Result<Color, std::num::ParseIntError>)
        ensures
            match c {
                Ok(color) => hex_u32(self@) matches Some(n) && color == rgb_of(n),
                Err(_) => hex_u32(self@) is None,
            },
    {
        match parse_hex(self) {
            Ok(n) => Ok(n.to_color()),
            Err(e) => Err(e),
        }
    }
}

/// The text color of the editor.
pub fn fg() -> (c: Color)
    ensures
        c == (Color::Rgb { r: 205, g: 214, b: 244 }),
{
    Color::Rgb { r: 205, g: 214, b: 244 }
}

/// `n` right-aligned in four columns.
pub open spec fn right4(n: nat) -> Seq<char> {
    let d = decimal(n);
    if d.len() < 4 {
        Seq::new((4 - d.len()) as nat, |i: int| ' ') + d
    } else {
        d
    }
}

/// The gutter label of buffer row `y`: its number from 1, right-aligned,
/// or `~` past the end of the buffer.
pub open spec fn gutter_label_text(y: int, line_count: int) -> Seq<char> {
    if y < line_count {
        right4((y + 1) as nat)
    } else {
        "~"@
    }
}

/// The gutter label of buffer row `y` of a buffer with `line_count` lines.
pub fn gutter_label(y: usize, line_count: usize) -> (s: String)
    requires
        y < line_count ==> y + 1 <= usize::MAX,
    ensures
        s@ == gutter_label_text(y as int, line_count as int),
{
    if y < line_count {
        let digits = to_decimal(y + 1);
        let mut s = String::new();
        let n = digits.as_str().unicode_len();
        let mut k: usize = n;
        while k < 4
            invariant
                n == decimal((y + 1) as nat).len(),
                n <= k,
                k <= 4 || k == n,
                s@ == Seq::new((k - n) as nat, |i: int| ' '),
            decreases 4 - k,
        {
            string_push(&mut s, ' ');
            proof {
                assert(s@ =~= Seq::new((k + 1 - n) as nat, |i: int| ' '));
            }
            k = k + 1;
        }
        let ghost pad = s@;
        string_push_str(&mut s, digits.as_str());
        proof {
            if n >= 4 {
                assert(pad =~= Seq::<char>::empty());
                assert(s@ =~= decimal((y + 1) as nat));
            }
        }
        s
    } else {
        proof {
            reveal_strlit("~");
        }
        String::from_str("~")
    }
}

/// The bytes of a line that fit in `w` columns.
pub open spec fn visible_len(line: Seq<u8>, w: int) -> int {
    if line.len() <= w {
        line.len() as int
    } else {
        w
    }
}

/// The start of a string slice, up to a byte offset.
///
/// Indexing a `str` with `..end` gives its first `end` bytes; it panics
/// when `end` is past the end or not on a character boundary, which
/// `requires` leaves out.
#[verifier::external_body]
fn str_head(s: &str, end: usize) -> (h: &str)
    requires
        boundary(s@, end as int),
    ensures
        utf8(h@) == utf8(s@).take(end as int),
{
    &s[..end]
}

/// The part of a line shown in a view `w` columns wide.
pub fn visible_text(line: &str, w: u16) -> (t: &str)
    requires
        boundary(line@, visible_len(utf8(line@), w as int)),
    ensures
        utf8(t@) == utf8(line@).take(visible_len(utf8(line@), w as int)),
{
    let n = crate::strings::byte_len(line);
    let len = if n <= w as usize {
        n
    } else {
        w as usize
    };
    str_head(line, len)
}

/// How the terminal shows the cursor.
#[derive(Debug, Clone, Copy, PartialEq, Eq, Structural)]
pub enum CursorStyle {
    SteadyBlock,
    SteadyBar,
}

pub open spec fn cursor_style(mode: Mode) -> CursorStyle {
    match mode {
        Mode::Insert | Mode::Command => CursorStyle::SteadyBar,
        _ => CursorStyle::SteadyBlock,
    }
}

/// Where the terminal cursor goes: on the text in the buffer view, or after
/// the `:` on the command line.
pub open spec fn cursor_place(e: EditorModel, buffer: Rect, cmdline: Rect) -> (u16, u16) {
    match e.mode {
        Mode::Command => ((cmdline.x + (e.cmdline.cursor as u16) + 1) as u16, cmdline.y),
        _ => (
            (buffer.x + (e.cursor().x - e.win().scroll.x) as u16) as u16,
            (buffer.y + (e.cursor().y - e.win().scroll.y) as u16) as u16,
        ),
    }
}

/// `cursor_target` computes the position without overflow.
pub open spec fn can_place_cursor(e: EditorModel, buffer: Rect, cmdline: Rect) -> bool {
    &&& e.wf()
    &&& match e.mode {
        Mode::Command => cmdline.x + (e.cmdline.cursor as u16) + 1 <= u16::MAX,
        _ => {
            &&& e.win().scroll.x <= e.cursor().x
            &&& e.win().scroll.y <= e.cursor().y
            &&& buffer.x + ((e.cursor().x - e.win().scroll.x) as u16) <= u16::MAX
            &&& buffer.y + ((e.cursor().y - e.win().scroll.y) as u16) <= u16::MAX
        },
    }
}

/// The terminal cursor's style and position.
pub fn cursor_target(ed: &Editor, buffer: Rect, cmdline: Rect) -> (t: (CursorStyle, u16, u16))
    requires
        can_place_cursor(ed@, buffer, cmdline),
    ensures
        t.0 == cursor_style(ed@.mode),
        (t.1, t.2) == cursor_place(ed@, buffer, cmdline),
{
    let cursor = ed.cursor();
    let scroll = ed.win().scroll;

    let style = match ed.mode {
        Mode::Insert | Mode::Command => CursorStyle::SteadyBar,
        _ => CursorStyle::SteadyBlock,
    };

    let (x, y) = match ed.mode {
        Mode::Command => {
            let c = #[verifier::truncate] (ed.cmdline.cursor as u16);
            (cmdline.x + c + 1, cmdline.y)
        },
        _ => {
            let dx = #[verifier::truncate] ((cursor.x - scroll.x) as u16);
            let dy = #[verifier::truncate] ((cursor.y - scroll.y) as u16);
            (buffer.x + dx, buffer.y + dy)
        },
    };
    (style, x, y)
}

/// What the command line shows: what is being typed after a `:`, or the
/// last message.
pub open spec fn cmdline_content(e: EditorModel) -> Option<(Seq<char>, Color)> {
    if e.mode == Mode::Command {
        Some((":"@ + vstd::utf8::decode_utf8(e.cmdline.buf), Color::Reset))
    } else {
        match e.message {
            Some(m) => Some(
                (
                    m.text,
                    match m.kind {
                        MessageKind::Info => Color::Rgb { r: 205, g: 214, b: 244 },
                        MessageKind::Error => Color::Red,
                    },
                ),
            ),
            None => None,
        }
    }
}

/// The text of the command line and its color, if it shows anything.
pub fn cmdline_text(ed: &Editor) -> (c: Option<(String, Color)>)
    ensures
        match c {
            Some((text, color)) => cmdline_content(ed@) == Some((text@, color)),
            None => cmdline_content(ed@) is None,
        },
{
    if ed.mode == Mode::Command {
        let mut s = String::from_str(":");
        string_push_str(&mut s, ed.cmdline.buf.as_str());
        proof {
            reveal_strlit(":");
            vstd::utf8::encode_utf8_decode_utf8(ed.cmdline.buf@);
        }
        Some((s, Color::Reset))
    } else {
        match &ed.message {
            Some(message) => {
                let color = match message.kind {
                    MessageKind::Info => fg(),
                    MessageKind::Error => Color::Red,
                };
                Some((message.text.clone(), color))
            },
            None => None,
        }
    }
}

/// The mode part of the status line: the mode's name between spaces.
pub open spec fn status_mode_text(mode: Mode) -> Seq<char> {
    " "@ + crate::editor::mode_name(mode) + " "@
}

/// The file part of the status line: the path, or `[No Name]`, and `[+]`
/// for a changed buffer.
pub open spec fn status_path_text(path: Option<Seq<char>>, dirty: bool) -> Seq<char> {
    " "@ + match path {
        Some(p) => p,
        None => "[No Name]"@,
    } + if dirty {
        " [+]"@
    } else {
        Seq::empty()
    }
}

/// The mode and file parts of the status line.
pub fn status_texts(ed: &Editor) -> (t: (String, String))
    requires
        ed@.wf(),
    ensures
        t.0@ == status_mode_text(ed@.mode),
        t.1@ == status_path_text(ed@.buf().path, ed@.buf().is_dirty),
{
    proof {
        reveal_strlit(" ");
        reveal_strlit("[No Name]");
        reveal_strlit(" [+]");
    }
    let mut mode = String::from_str(" ");
    string_push_str(&mut mode, ed.mode.name().as_str());
    string_push_str(&mut mode, " ");

    let buf = ed.buf();
    let mut path = String::from_str(" ");
    match &buf.path {
        Some(p) => string_push_str(&mut path, p.as_str()),
        None => string_push_str(&mut path, "[No Name]"),
    }
    if buf.is_dirty {
        string_push_str(&mut path, " [+]");
    }
    proof {
        if !buf.is_dirty {
            assert(path@ =~= path@ + Seq::<char>::empty());
        }
    }
    (mode, path)
}

/// The position part of the status line without its percentage: the
/// cursor's row and column, from 1.
pub open spec fn status_position_text(y: nat, x: nat) -> Seq<char> {
    " "@ + decimal(y + 1) + ","@ + decimal(x + 1)
}

/// The cursor's row and column, from 1, as the status line shows them.
pub fn status_position(ed: &Editor) -> (s: String)
    requires
        ed@.wf(),
        ed@.cursor().y + 1 <= usize::MAX,
        ed@.cursor().x + 1 <= usize::MAX,
    ensures
        s@ == status_position_text(ed@.cursor().y as nat, ed@.cursor().x as nat),
{
    proof {
        reveal_strlit(" ");
        reveal_strlit(",");
    }
    let cur = ed.cursor();
    let mut s = String::from_str(" ");
    string_push_str(&mut s, to_decimal(cur.y + 1).as_str());
    string_push_str(&mut s, ",");
    string_push_str(&mut s, to_decimal(cur.x + 1).as_str());
    s
}

/// Law: the gutter label of row `y` of a buffer of `n` lines is, for a row
/// of the buffer, the number `y + 1` in decimal digits after the spaces that
/// right-align it in four columns (more columns only for longer numbers);
/// for a row past the end it is `~`.
pub proof fn lemma_gutter_label(y: nat, n: nat)
    ensures
        y >= n ==> gutter_label_text(y as int, n as int) == "~"@,
        y < n ==> ({
            let t = gutter_label_text(y as int, n as int);
            exists|k: int|
                {
                    &&& 0 <= k < t.len()
                    &&& forall|i: int| 0 <= i < k ==> t[i] == ' '
                    &&& forall|i: int| k <= i < t.len() ==> is_digit(#[trigger] t[i])
                    &&& digits_value(t.skip(k)) == y + 1
                    &&& t.len() >= 4
                    &&& k > 0 ==> t.len() == 4
                }
        }),
{
    if y < n {
        let d = decimal((y + 1) as nat);
        lemma_decimal_reads_back((y + 1) as nat);
        let t = gutter_label_text(y as int, n as int);
        assert(t == right4((y + 1) as nat));
        let k: int = if d.len() < 4 {
            4 - d.len()
        } else {
            0
        };
        assert(t.skip(k) =~= d);
        assert forall|i: int| k <= i < t.len() implies is_digit(#[trigger] t[i]) by {
            assert(t[i] == d[i - k]);
        }
        assert(forall|i: int| 0 <= i < k ==> t[i] == ' ');
    }
}

/// Law: the position text of the status line is a space, the cursor's row
/// counted from 1 in decimal digits, a comma, and the cursor's column
/// counted from 1 in decimal digits.
pub proof fn lemma_status_position(y: nat, x: nat)
    ensures
        ({
            let t = status_position_text(y, x);
            exists|c: int|
                {
                    &&& 1 < c < t.len() - 1
                    &&& t[0] == ' '
                    &&& t[c] == ','
                    &&& forall|i: int| 1 <= i < c ==> is_digit(#[trigger] t[i])
                    &&& forall|i: int| c < i < t.len() ==> is_digit(#[trigger] t[i])
                    &&& digits_value(t.subrange(1, c)) == y + 1
                    &&& digits_value(t.skip(c + 1)) == x + 1
                }
        }),
{
    reveal_strlit(" ");
    reveal_strlit(",");
    let r = decimal(y + 1);
    let col = decimal(x + 1);
    lemma_decimal_reads_back(y + 1);
    lemma_decimal_reads_back(x + 1);
    let t = status_position_text(y, x);
    let c: int = 1 + r.len() as int;
    assert(t =~= seq![' '] + r + seq![','] + col);
    assert(t.subrange(1, c) =~= r);
    assert(t.skip(c + 1) =~= col);
    assert forall|i: int| 1 <= i < c implies is_digit(#[trigger] t[i]) by {
        assert(t[i] == r[i - 1]);
    }
    assert forall|i: int| c < i < t.len() implies is_digit(#[trigger] t[i]) by {
        assert(t[i] == col[i - c - 1]);
    }
    assert(t[c] == ',');
}

} // verus!
