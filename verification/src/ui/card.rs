//! Text as the view draws it: runs of characters with a look, lines of runs, and the card
//! that every row of a column is drawn as.

use vstd::prelude::*;

use crate::strs::{chars_of, concat, string_of};
use crate::text::{pad_right, padded, truncate, truncated};
use crate::ui::style::Tone;

verus! {

/// How a run of text looks: its colour, and whether it is dimmed or bold.
#[derive(Debug, Clone, Copy, PartialEq, Eq, Structural)]
pub struct Look {
    pub tone: Option<Tone>,
    pub dim: bool,
    pub bold: bool,
}

/// A run of text with one look.
#[derive(Debug, PartialEq, Eq)]
pub struct Segment {
    pub text: String,
    pub look: Look,
}

impl Clone for Segment {
    fn clone(&self) -> (r: Self)
        ensures
            r == *self,
    {
        Segment { text: self.text.clone(), look: self.look }
    }
}

/// How far the lines under a card's title are indented.
pub const INDENT: usize = 4;

/// The bar in front of the selected card.
pub const BAR: &'static str = "▌";

pub open spec fn plain() -> Look {
    Look { tone: None, dim: false, bold: false }
}

pub open spec fn dimmed() -> Look {
    Look { tone: None, dim: true, bold: false }
}

pub open spec fn tinted(tone: Tone) -> Look {
    Look { tone: Some(tone), dim: false, bold: false }
}

pub open spec fn bold() -> Look {
    Look { tone: None, dim: false, bold: true }
}

/// A segment by its characters and look.
pub open spec fn seg_view(s: Segment) -> (Seq<char>, Look) {
    (s.text@, s.look)
}

/// A line by the characters and looks of its segments.
pub open spec fn line_view(line: Seq<Segment>) -> Seq<(Seq<char>, Look)> {
    line.map_values(|s: Segment| seg_view(s))
}

/// Lines by the characters and looks of their segments.
pub open spec fn lines_view(lines: Seq<Vec<Segment>>) -> Seq<Seq<(Seq<char>, Look)>> {
    lines.map_values(|l: Vec<Segment>| line_view(l@))
}

/// `a - b`, or nothing when `b` is larger (`usize::saturating_sub`).
pub open spec fn less(a: int, b: int) -> nat {
    if a > b {
        (a - b) as nat
    } else {
        0
    }
}

/// The parts that are not empty, joined by `sep`.
pub open spec fn joined(parts: Seq<Seq<char>>, sep: Seq<char>) -> Seq<char>
    decreases parts.len(),
{
    if parts.len() == 0 {
        Seq::empty()
    } else {
        let init = joined(parts.drop_last(), sep);
        let part = parts.last();
        if part.len() == 0 {
            init
        } else if init.len() == 0 {
            part
        } else {
            init + sep + part
        }
    }
}

/// The line of small print under a title: the parts that say something, joined by ` · `,
/// cut to the room beside the indent, dimmed.
pub open spec fn meta_of(parts: Seq<Seq<char>>, width: nat) -> Seq<(Seq<char>, Look)> {
    seq![(truncated(joined(parts, " · "@), less(width as int, INDENT as int)), dimmed())]
}

/// A card: the title line (the bar when selected, the glyph, the title padded to the room
/// the right-hand text leaves, the right-hand text dimmed), then each further line behind
/// the indent.
pub open spec fn card_of(
    selected: bool,
    glyph: (char, Tone),
    title: Seq<char>,
    right: Seq<char>,
    rest: Seq<Seq<(Seq<char>, Look)>>,
    width: nat,
) -> Seq<Seq<(Seq<char>, Look)>> {
    let title_width = less(width as int, INDENT + right.len() + 1);
    let head = seq![
        if selected {
            (BAR@, tinted(Tone::Cyan))
        } else {
            (" "@, plain())
        },
        (" "@, plain()),
        (seq![glyph.0], tinted(glyph.1)),
        (" "@, plain()),
        (padded(title, title_width), if selected {
            bold()
        } else {
            plain()
        }),
        (" "@, plain()),
        (right, dimmed()),
    ];
    seq![head] + rest.map_values(|line: Seq<(Seq<char>, Look)>| seq![("    "@, plain())] + line)
}

pub fn plain_look() -> (r: Look)
    ensures
        r == plain(),
{
    Look { tone: None, dim: false, bold: false }
}

pub fn dim_look() -> (r: Look)
    ensures
        r == dimmed(),
{
    Look { tone: None, dim: true, bold: false }
}

pub fn tint(tone: Tone) -> (r: Look)
    ensures
        r == tinted(tone),
{
    Look { tone: Some(tone), dim: false, bold: false }
}

pub fn segment(text: String, look: Look) -> (r: Segment)
    ensures
        seg_view(r) == (text@, look),
{
    Segment { text, look }
}

/// A text of one character.
pub fn char_text(c: char) -> (r: String)
    ensures
        r@ == seq![c],
{
    let mut v: Vec<char> = Vec::new();
    v.push(c);
    string_of(v.as_slice())
}

/// Joins the parts that are not empty with `sep`.
pub fn join_parts(parts: &[String], sep: &str) -> (r: String)
    ensures
        r@ == joined(parts@.map_values(|p: String| p@), sep@),
{
    let ghost views = parts@.map_values(|p: String| p@);
    let mut out = String::new();
    let mut i: usize = 0;
    while i < parts.len()
        invariant
            0 <= i <= parts@.len(),
            views == parts@.map_values(|p: String| p@),
            out@ == joined(views.take(i as int), sep@),
        decreases parts@.len() - i,
    {
        proof {
            assert(views.take(i + 1).drop_last() =~= views.take(i as int));
            assert(views.take(i + 1).last() == parts@[i as int]@);
        }
        let part = parts[i].as_str();
        if part.is_empty() {
        } else if out.as_str().is_empty() {
            out = part.to_owned();
        } else {
            let with_sep = concat(out.as_str(), sep);
            out = concat(with_sep.as_str(), part);
        }
        i = i + 1;
    }
    assert(views.take(parts@.len() as int) =~= views);
    out
}

/// See `meta_of`.
pub fn meta(parts: &[String], width: usize) -> (r: Vec<Segment>)
    ensures
        line_view(r@) == meta_of(parts@.map_values(|p: String| p@), width as nat),
{
    let text = join_parts(parts, " · ");
    let room = width.saturating_sub(INDENT);
    let mut line: Vec<Segment> = Vec::new();
    line.push(segment(truncate(text.as_str(), room), dim_look()));
    assert(line_view(line@) =~= meta_of(parts@.map_values(|p: String| p@), width as nat));
    line
}

/// See `card_of`.
pub fn card(
    selected: bool,
    glyph: (char, Tone),
    title: String,
    right: String,
    rest: Vec<Vec<Segment>>,
    width: usize,
) -> (r: Vec<Vec<Segment>>)
    ensures
        lines_view(r@) == card_of(selected, glyph, title@, right@, lines_view(rest@), width as nat),
{
    let right_len = chars_of(right.as_str()).len();
    let title_width = width.saturating_sub(right_len.saturating_add(INDENT + 1));
    let mut head: Vec<Segment> = Vec::new();
    if selected {
        head.push(segment(BAR.to_owned(), tint(Tone::Cyan)));
    } else {
        head.push(segment(" ".to_owned(), plain_look()));
    }
    head.push(segment(" ".to_owned(), plain_look()));
    head.push(segment(char_text(glyph.0), tint(glyph.1)));
    head.push(segment(" ".to_owned(), plain_look()));
    let emphasis = if selected {
        Look { tone: None, dim: false, bold: true }
    } else {
        plain_look()
    };
    head.push(segment(pad_right(title.as_str(), title_width), emphasis));
    head.push(segment(" ".to_owned(), plain_look()));
    head.push(segment(right, dim_look()));
    let ghost head_view = line_view(head@);
    let mut lines: Vec<Vec<Segment>> = Vec::new();
    lines.push(head);
    let ghost rest_views = lines_view(rest@);
    let mut i: usize = 0;
    let n = rest.len();
    while i < n
        invariant
            0 <= i <= n,
            n == rest_views.len(),
            rest@.len() == n,
            rest_views == lines_view(rest@),
            lines@.len() == 1 + i,
            line_view(lines@[0]@) == head_view,
            forall|k: int|
                0 <= k < i ==> line_view((#[trigger] lines@[k + 1])@) == seq![
                    ("    "@, plain()),
                ] + rest_views[k],
        decreases n - i,
    {
        let mut line: Vec<Segment> = Vec::new();
        line.push(segment("    ".to_owned(), plain_look()));
        let mut j: usize = 0;
        while j < rest[i].len()
            invariant
                0 <= i < n,
                rest@.len() == n,
                rest_views == lines_view(rest@),
                0 <= j <= rest@[i as int]@.len(),
                line_view(line@) == seq![("    "@, plain())] + line_view(
                    rest@[i as int]@.take(j as int),
                ),
            decreases rest@[i as int]@.len() - j,
        {
            let seg = rest[i][j].clone();
            let ghost before = line@;
            line.push(seg);
            proof {
                let src = rest@[i as int]@;
                let want = seq![("    "@, plain())] + line_view(src.take(j + 1));
                assert(src.take(j + 1) =~= src.take(j as int).push(src[j as int]));
                assert(line@ == before.push(seg));
                assert(line_view(before).len() == before.len());
                assert(line_view(src.take(j as int)).len() == j);
                assert(before.len() == j + 1);
                assert forall|k: int| 0 <= k < line@.len() implies line_view(line@)[k]
                    == want[k] by {
                    if k < before.len() {
                        assert(line_view(before)[k] == seg_view(before[k]));
                        assert(line@[k] == before[k]);
                    } else {
                        assert(k == j + 1);
                        assert(line@[k] == seg);
                        assert(want[k] == line_view(src.take(j + 1))[k - 1]);
                        assert(src.take(j + 1)[k - 1] == src[j as int]);
                    }
                }
                assert(line_view(line@) =~= want);
            }
            j = j + 1;
        }
        proof {
            assert(rest@[i as int]@.take(j as int) =~= rest@[i as int]@);
        }
        lines.push(line);
        i = i + 1;
    }
    proof {
        let want = card_of(selected, glyph, title@, right@, rest_views, width as nat);
        assert(head_view =~= want[0]);
        assert forall|k: int| 0 <= k < lines@.len() implies lines_view(lines@)[k] == want[k] by {
            if k > 0 {
                assert(lines@[(k - 1) + 1] == lines@[k]);
            }
        }
        assert(lines_view(lines@) =~= want);
    }
    lines
}

/// How many characters a line takes.
pub open spec fn line_width(line: Seq<(Seq<char>, Look)>) -> nat
    decreases line.len(),
{
    if line.len() == 0 {
        0
    } else {
        line[0].0.len() + line_width(line.drop_first())
    }
}

/// A card's title line is exactly as wide as the column whenever the right-hand text leaves
/// room for the glyph and a space, and every further line starts with the indent.
pub proof fn lemma_card_fills_the_width(
    selected: bool,
    glyph: (char, Tone),
    title: Seq<char>,
    right: Seq<char>,
    rest: Seq<Seq<(Seq<char>, Look)>>,
    width: nat,
)
    requires
        INDENT + right.len() + 1 <= width,
    ensures
        line_width(card_of(selected, glyph, title, right, rest, width)[0]) == width,
        card_of(selected, glyph, title, right, rest, width).len() == rest.len() + 1,
        forall|i: int|
            1 <= i <= rest.len() ==> (#[trigger] card_of(selected, glyph, title, right, rest, width)[i])[0]
                == ("    "@, plain()),
{
    let card = card_of(selected, glyph, title, right, rest, width);
    let head = card[0];
    let w = less(width as int, INDENT + right.len() + 1);
    assert(padded(title, w).len() == w) by {
        if title.len() < w {
        } else if title.len() <= w {
        } else if w == 0 {
        } else {
        }
    }
    reveal_strlit(" ");
    reveal_strlit("▌");
    reveal_with_fuel(line_width, 8);
    assert(head.drop_first().drop_first().drop_first().drop_first().drop_first().drop_first().drop_first()
        =~= Seq::<(Seq<char>, Look)>::empty());
}

} // verus!
