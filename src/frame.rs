//! Frames: rendered text cut into lines, blank-line tests, and the caption
//! block that stands above the clock.
use vstd::prelude::*;
use vstd::string::*;
use vstd::utf8::{decode_utf8, valid_utf8};

verus! {

/// Whether `c` has the Unicode White_Space property.
pub open spec fn white_space(c: char) -> bool {
    let u = c as u32;
    ||| 0x9 <= u <= 0xD
    ||| u == 0x20
    ||| u == 0x85
    ||| u == 0xA0
    ||| u == 0x1680
    ||| 0x2000 <= u <= 0x200A
    ||| u == 0x2028
    ||| u == 0x2029
    ||| u == 0x202F
    ||| u == 0x205F
    ||| u == 0x3000
}

/// A line is blank when it holds nothing but white space.
pub open spec fn blank(line: Seq<char>) -> bool {
    forall|i: int| 0 <= i < line.len() ==> white_space(#[trigger] line[i])
}

/// The views of a sequence of strings.
pub open spec fn views(v: Seq<String>) -> Seq<Seq<char>> {
    v.map_values(|s: String| s@)
}

/// `line` without one carriage return at its end.
pub open spec fn strip_cr(line: Seq<char>) -> Seq<char> {
    if line.len() > 0 && line.last() == '\r' {
        line.drop_last()
    } else {
        line
    }
}

/// The lines of `rest`, where `cur` is the part of the current line already
/// read. A line ends at a line feed, which with a carriage return just before it
/// is left out of the line; the last line needs no line feed, and text that
/// ends in one has no empty line after it.
pub open spec fn lines_from(rest: Seq<char>, cur: Seq<char>) -> Seq<Seq<char>>
    decreases rest.len(),
{
    if rest.len() == 0 {
        if cur.len() == 0 {
            Seq::empty()
        } else {
            seq![cur]
        }
    } else if rest[0] == '\n' {
        seq![strip_cr(cur)] + lines_from(rest.drop_first(), Seq::empty())
    } else {
        lines_from(rest.drop_first(), cur.push(rest[0]))
    }
}

/// The lines of `text`.
pub open spec fn lines_of(text: Seq<char>) -> Seq<Seq<char>> {
    lines_from(text, Seq::empty())
}

/// The lines that are not blank, in order.
pub open spec fn shown_lines(lines: Seq<Seq<char>>) -> Seq<Seq<char>> {
    lines.filter(|l: Seq<char>| !blank(l))
}

/// The lines of a caption that are not blank, in order.
pub open spec fn caption_lines(text: Seq<char>) -> Seq<Seq<char>> {
    shown_lines(lines_of(text))
}

/// Whether `c` has the Unicode White_Space property.
pub fn is_white_space(c: char) -> (r: bool)
    ensures
        r == white_space(c),
{
    let u = c as u32;
    (0x9 <= u && u <= 0xD) || u == 0x20 || u == 0x85 || u == 0xA0 || u == 0x1680 || (0x2000 <= u
        && u <= 0x200A) || u == 0x2028 || u == 0x2029 || u == 0x202F || u == 0x205F || u == 0x3000
}

/// Whether `line` holds nothing but white space.
pub fn is_blank(line: &str) -> (r: bool)
    ensures
        r == blank(line@),
{
    let n = line.unicode_len();
    let mut i: usize = 0;
    while i < n
        invariant
            n == line@.len(),
            i <= n,
            forall|j: int| 0 <= j < i ==> white_space(#[trigger] line@[j]),
        decreases n - i,
    {
        if !is_white_space(line.get_char(i)) {
            return false;
        }
        i = i + 1;
    }
    true
}

/// Relies on `String::from_utf8`: it succeeds exactly on valid UTF-8, and the
/// string then holds the characters that the bytes encode.
#[verifier::external_body]
fn text_from_utf8(bytes: Vec<u8>) -> (r: Option<String>)
    ensures
        r is Some <==> valid_utf8(bytes@),
        r matches Some(s) ==> s@ == decode_utf8(bytes@),
{
    String::from_utf8(bytes).ok()
}

/// The lines of rendered output, or `None` when it is not valid UTF-8.
pub fn frame_lines(bytes: Vec<u8>) -> (r: Option<Vec<String>>)
    ensures
        r is Some <==> valid_utf8(bytes@),
        r matches Some(lines) ==> views(lines@) == lines_of(decode_utf8(bytes@)),
{
    match text_from_utf8(bytes) {
        Some(text) => Some(split_lines(text.as_str())),
        None => None,
    }
}

/// The caption drawn above the clock: its lines that are not blank, and its
/// height, the row at which the clock starts.
#[derive(Debug)]
pub struct CaptionBlock {
    pub lines: Vec<String>,
    pub height: usize,
}

/// The caption block for caption text: its lines that are not blank, and a
/// height of at least one row.
pub fn caption_block(text: &str) -> (r: CaptionBlock)
    ensures
        views(r.lines@) == caption_lines(text@),
        r.height == (if caption_lines(text@).len() == 0 {
            1
        } else {
            caption_lines(text@).len()
        }),
{
    let all = split_lines(text);
    let mut lines: Vec<String> = Vec::new();
    let mut i: usize = 0;
    assert(views(all@).take(0) =~= Seq::<Seq<char>>::empty());
    while i < all.len()
        invariant
            i <= all.len(),
            views(lines@) == shown_lines(views(all@).take(i as int)),
        decreases all.len() - i,
    {
        assert(views(all@).take(i + 1).drop_last() =~= views(all@).take(i as int));
        assert(views(all@).take(i + 1).last() == all@[i as int]@);
        proof {
            reveal(Seq::filter);
        }
        if !is_blank(all[i].as_str()) {
            let ghost before = lines@;
            lines.push(all[i].clone());
            assert(views(lines@) =~= views(before).push(all@[i as int]@));
        }
        i = i + 1;
    }
    assert(views(all@).take(i as int) =~= views(all@));
    let height = if lines.len() == 0 {
        1
    } else {
        lines.len()
    };
    CaptionBlock { lines, height }
}

/// The caption block for rendered caption output, or `None` when it is not
/// valid UTF-8.
pub fn rendered_caption_block(bytes: Vec<u8>) -> (r: Option<CaptionBlock>)
    ensures
        r is Some <==> valid_utf8(bytes@),
        r matches Some(b) ==> views(b.lines@) == caption_lines(decode_utf8(bytes@)),
        r matches Some(b) ==> b.height == (if caption_lines(decode_utf8(bytes@)).len() == 0 {
            1
        } else {
            caption_lines(decode_utf8(bytes@)).len()
        }),
{
    match text_from_utf8(bytes) {
        Some(text) => Some(caption_block(text.as_str())),
        None => None,
    }
}

/// Cuts `text` into lines.
pub fn split_lines(text: &str) -> (r: Vec<String>)
    ensures
        views(r@) == lines_of(text@),
{
    let n = text.unicode_len();
    let mut out: Vec<String> = Vec::new();
    let mut start: usize = 0;
    let mut i: usize = 0;
    assert(text@.skip(0) =~= text@);
    assert(text@.subrange(0, 0) =~= Seq::<char>::empty());
    assert(views(out@) =~= Seq::<Seq<char>>::empty());
    while i < n
        invariant
            n == text@.len(),
            start <= i <= n,
            lines_of(text@) == views(out@) + lines_from(text@.skip(i as int), text@.subrange(start as int, i as int)),
        decreases n - i,
    {
        let ghost rest = text@.skip(i as int);
        let ghost cur = text@.subrange(start as int, i as int);
        assert(rest[0] == text@[i as int]);
        assert(rest.drop_first() =~= text@.skip(i + 1));
        let c = text.get_char(i);
        if c == '\n' {
            let end: usize = if i > start && text.get_char(i - 1) == '\r' {
                i - 1
            } else {
                i
            };
            assert(text@.subrange(start as int, end as int) =~= strip_cr(cur));
            let line = String::from_str(text.substring_char(start, end));
            let ghost before = out@;
            out.push(line);
            assert(views(out@) =~= views(before) + seq![strip_cr(cur)]);
            start = i + 1;
            assert(text@.subrange(start as int, start as int) =~= Seq::<char>::empty());
        } else {
            assert(cur.push(rest[0]) =~= text@.subrange(start as int, i + 1));
        }
        i = i + 1;
    }
    assert(text@.skip(n as int) =~= Seq::<char>::empty());
    if start < n {
        let line = String::from_str(text.substring_char(start, n));
        let ghost before = out@;
        out.push(line);
        assert(views(out@) =~= views(before) + seq![text@.subrange(start as int, n as int)]);
    }
    out
}

} // verus!
