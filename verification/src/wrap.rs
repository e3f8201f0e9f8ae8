//! Filling words into lines of a width, as many lines as there is room for.

use vstd::prelude::*;

use crate::strs::{chars_of, is_space, slice_vec, space, string_of};
use crate::text::{truncate_chars, truncated};

verus! {

/// How many characters `t` starts with before its first whitespace.
pub open spec fn word_len(t: Seq<char>) -> nat
    decreases t.len(),
{
    if t.len() == 0 || is_space(t[0]) {
        0
    } else {
        1 + word_len(t.drop_first())
    }
}

pub proof fn lemma_word_len(t: Seq<char>)
    ensures
        word_len(t) <= t.len(),
        t.len() > 0 && !is_space(t[0]) ==> word_len(t) >= 1,
    decreases t.len(),
{
    if t.len() > 0 && !is_space(t[0]) {
        lemma_word_len(t.drop_first());
    }
}

/// The word of `t` runs `m` characters when none of them is whitespace and it ends there.
proof fn lemma_word_len_is(t: Seq<char>, m: int)
    requires
        0 <= m <= t.len(),
        forall|k: int| 0 <= k < m ==> !is_space(#[trigger] t[k]),
        m == t.len() || is_space(t[m]),
    ensures
        word_len(t) == m,
    decreases m,
{
    if m > 0 {
        let u = t.drop_first();
        assert forall|k: int| 0 <= k < m - 1 implies !is_space(#[trigger] u[k]) by {
            assert(u[k] == t[k + 1]);
        }
        if m < t.len() {
            assert(u[m - 1] == t[m]);
        }
        lemma_word_len_is(u, m - 1);
    }
}

/// The words of `text`: its runs of characters between whitespace (`split_whitespace`).
pub open spec fn words_of(text: Seq<char>) -> Seq<Seq<char>>
    decreases text.len(),
{
    if text.len() == 0 {
        Seq::empty()
    } else if is_space(text[0]) {
        words_of(text.drop_first())
    } else {
        let n = word_len(text);
        proof {
            lemma_word_len(text);
        }
        seq![text.take(n as int)] + words_of(text.skip(n as int))
    }
}

/// Adds the next words to `line`, each after a space, while they fit in `width`.
pub open spec fn extend(line: Seq<char>, words: Seq<Seq<char>>, width: nat) -> (
    Seq<char>,
    Seq<Seq<char>>,
)
    decreases words.len(),
{
    if words.len() > 0 && line.len() + 1 + words[0].len() <= width {
        extend(line + seq![' '] + words[0], words.drop_first(), width)
    } else {
        (line, words)
    }
}

/// The first line of `words` and the words left for the next: a word wider than the line is
/// cut at the width and goes on in the next line; else words are added while they fit.
pub open spec fn take_line(words: Seq<Seq<char>>, width: nat) -> (Seq<char>, Seq<Seq<char>>) {
    let w = words[0];
    if w.len() > width {
        (w.take(width as int), seq![w.skip(width as int)] + words.drop_first())
    } else {
        extend(w, words.drop_first(), width)
    }
}

/// The words joined by single spaces.
pub open spec fn spaced(words: Seq<Seq<char>>) -> Seq<char>
    decreases words.len(),
{
    if words.len() == 0 {
        Seq::empty()
    } else if words.len() == 1 {
        words[0]
    } else {
        words[0] + seq![' '] + spaced(words.drop_first())
    }
}

/// At most `lines` lines of `words` filled greedily into `width`; the last line allowed
/// holds all the words left, cut with an ellipsis when they do not fit.
pub open spec fn wrapped(words: Seq<Seq<char>>, width: nat, lines: nat) -> Seq<Seq<char>>
    decreases lines,
{
    if words.len() == 0 || lines == 0 || width == 0 {
        Seq::empty()
    } else if lines == 1 {
        seq![truncated(spaced(words), width)]
    } else {
        let (line, rest) = take_line(words, width);
        seq![line] + wrapped(rest, width, (lines - 1) as nat)
    }
}

pub open spec fn words_view(words: Seq<Vec<char>>) -> Seq<Seq<char>> {
    words.map_values(|w: Vec<char>| w@)
}

/// The words of `text` (see `words_of`).
fn split_words(text: &[char]) -> (r: Vec<Vec<char>>)
    ensures
        words_view(r@) == words_of(text@),
{
    let mut out: Vec<Vec<char>> = Vec::new();
    let mut i: usize = 0;
    let n = text.len();
    assert(text@.skip(0) =~= text@);
    assert(words_view(out@) =~= Seq::<Seq<char>>::empty());
    assert(words_view(out@) + words_of(text@.skip(0)) =~= words_of(text@));
    while i < n
        invariant
            0 <= i <= n == text@.len(),
            words_view(out@) + words_of(text@.skip(i as int)) == words_of(text@),
        decreases n - i,
    {
        let ghost t = text@.skip(i as int);
        if space(text[i]) {
            assert(t.drop_first() =~= text@.skip(i + 1));
            i = i + 1;
        } else {
            let mut j = i;
            while j < n && !space(text[j])
                invariant
                    i <= j <= n == text@.len(),
                    forall|k: int| i <= k < j ==> !is_space(#[trigger] text@[k]),
                decreases n - j,
            {
                j = j + 1;
            }
            proof {
                assert forall|k: int| 0 <= k < j - i implies !is_space(#[trigger] t[k]) by {
                    assert(t[k] == text@[i + k]);
                }
                if j < n {
                    assert(t[j - i] == text@[j as int]);
                }
                lemma_word_len_is(t, j - i);
                assert(t.take(j - i) =~= text@.subrange(i as int, j as int));
                assert(t.skip(j - i) =~= text@.skip(j as int));
            }
            let word = slice_vec(text, i, j);
            let ghost before = out@;
            out.push(word);
            proof {
                assert(words_view(out@) =~= words_view(before).push(word@));
                assert(words_view(out@) + words_of(text@.skip(j as int)) =~= words_view(before)
                    + words_of(t));
            }
            i = j;
        }
    }
    assert(text@.skip(n as int) =~= Seq::<char>::empty());
    assert(words_view(out@) + Seq::<Seq<char>>::empty() =~= words_view(out@));
    out
}

/// The words of `words` from `from` on.
fn words_from(words: &Vec<Vec<char>>, from: usize) -> (r: Vec<Vec<char>>)
    requires
        from <= words@.len(),
    ensures
        words_view(r@) == words_view(words@).skip(from as int),
{
    let mut out: Vec<Vec<char>> = Vec::new();
    let mut k = from;
    while k < words.len()
        invariant
            from <= k <= words@.len(),
            words_view(out@) == words_view(words@).subrange(from as int, k as int),
        decreases words@.len() - k,
    {
        let w = slice_vec(words[k].as_slice(), 0, words[k].len());
        assert(w@ =~= words@[k as int]@);
        let ghost before = out@;
        out.push(w);
        proof {
            assert(words_view(out@) =~= words_view(before).push(w@));
            assert(words_view(words@).subrange(from as int, k + 1) =~= words_view(words@).subrange(
                from as int,
                k as int,
            ).push(words_view(words@)[k as int]));
        }
        k = k + 1;
    }
    assert(words_view(words@).subrange(from as int, words@.len() as int) =~= words_view(
        words@,
    ).skip(from as int));
    out
}

/// See `take_line`.
fn take_line_of(words: &Vec<Vec<char>>, width: usize) -> (r: (Vec<char>, Vec<Vec<char>>))
    requires
        words@.len() > 0,
    ensures
        (r.0@, words_view(r.1@)) == take_line(words_view(words@), width as nat),
{
    let ghost ws = words_view(words@);
    let first = &words[0];
    assert(ws[0] == first@);
    if first.len() > width {
        let head = slice_vec(first.as_slice(), 0, width);
        let tail = slice_vec(first.as_slice(), width, first.len());
        let others = words_from(words, 1);
        let mut rest: Vec<Vec<char>> = Vec::new();
        rest.push(tail);
        let mut k: usize = 0;
        let mut others = others;
        let ghost others_view = words_view(others@);
        while k < others.len()
            invariant
                0 <= k <= others@.len(),
                others_view == words_view(others@),
                words_view(rest@) == seq![tail@] + others_view.take(k as int),
            decreases others@.len() - k,
        {
            let w = slice_vec(others[k].as_slice(), 0, others[k].len());
            assert(w@ =~= others@[k as int]@);
            let ghost before = rest@;
            rest.push(w);
            proof {
                assert(words_view(rest@) =~= words_view(before).push(w@));
                assert(others_view.take(k + 1) =~= others_view.take(k as int).push(
                    others_view[k as int],
                ));
                assert(seq![tail@] + others_view.take(k + 1) =~= (seq![tail@] + others_view.take(
                    k as int,
                )).push(others_view[k as int]));
            }
            k = k + 1;
        }
        assert(others_view.take(others@.len() as int) =~= others_view);
        assert(head@ =~= first@.take(width as int));
        assert(tail@ =~= first@.skip(width as int));
        assert(ws.skip(1) =~= ws.drop_first());
        (head, rest)
    } else {
        let mut line = slice_vec(first.as_slice(), 0, first.len());
        assert(line@ =~= first@);
        let mut k: usize = 1;
        assert(ws.skip(1) =~= ws.drop_first());
        while k < words.len() && line.len() < width && words[k].len() <= width - line.len() - 1
            invariant
                1 <= k <= words@.len(),
                ws == words_view(words@),
                line@.len() <= width,
                extend(first@, ws.drop_first(), width as nat) == extend(
                    line@,
                    ws.skip(k as int),
                    width as nat,
                ),
            decreases words@.len() - k,
        {
            let ghost before = line@;
            proof {
                assert(ws.skip(k as int)[0] == words@[k as int]@);
                assert(ws.skip(k as int).drop_first() =~= ws.skip(k + 1));
            }
            line.push(' ');
            let mut j: usize = 0;
            while j < words[k].len()
                invariant
                    1 <= k < words@.len(),
                    0 <= j <= words@[k as int]@.len(),
                    line@ == before + seq![' '] + words@[k as int]@.take(j as int),
                decreases words@[k as int]@.len() - j,
            {
                line.push(words[k][j]);
                assert(line@ =~= before + seq![' '] + words@[k as int]@.take(j + 1));
                j = j + 1;
            }
            assert(words@[k as int]@.take(j as int) =~= words@[k as int]@);
            k = k + 1;
        }
        proof {
            if k < words@.len() {
                assert(ws.skip(k as int)[0] == words@[k as int]@);
            }
        }
        let rest = words_from(words, k);
        (line, rest)
    }
}

/// See `spaced`.
fn join_words(words: &Vec<Vec<char>>) -> (r: Vec<char>)
    ensures
        r@ == spaced(words_view(words@)),
{
    let ghost ws = words_view(words@);
    let mut out: Vec<char> = Vec::new();
    let mut k: usize = words.len();
    while k > 0
        invariant
            0 <= k <= words@.len(),
            ws == words_view(words@),
            out@ == spaced(ws.skip(k as int)),
        decreases k,
    {
        k = k - 1;
        let ghost after = ws.skip(k + 1);
        let ghost here = ws.skip(k as int);
        assert(here.drop_first() =~= after);
        assert(here[0] == words@[k as int]@);
        let mut next = slice_vec(words[k].as_slice(), 0, words[k].len());
        assert(next@ =~= words@[k as int]@);
        if k + 1 < words.len() {
            next.push(' ');
            let mut j: usize = 0;
            let ghost base = next@;
            while j < out.len()
                invariant
                    0 <= j <= out@.len(),
                    next@ == base + out@.take(j as int),
                decreases out@.len() - j,
            {
                next.push(out[j]);
                assert(next@ =~= base + out@.take(j + 1));
                j = j + 1;
            }
            assert(out@.take(j as int) =~= out@);
            assert(here.len() >= 2);
        } else {
            assert(here.len() == 1);
        }
        out = next;
    }
    assert(ws.skip(0) =~= ws);
    out
}

/// At most `lines` lines of the words of `text` in `width` (see `wrapped`).
pub fn wrap(text: &str, width: usize, lines: usize) -> (r: Vec<String>)
    ensures
        r@.map_values(|s: String| s@) == wrapped(words_of(text@), width as nat, lines as nat),
{
    let chars = chars_of(text);
    let words = split_words(chars.as_slice());
    let ghost all = words_of(text@);
    let mut out: Vec<String> = Vec::new();
    if width == 0 {
        assert(out@.map_values(|s: String| s@) =~= Seq::<Seq<char>>::empty());
        return out;
    }
    let mut rest = words;
    let mut left = lines;
    while rest.len() > 0 && left > 1
        invariant
            width > 0,
            out@.map_values(|s: String| s@) + wrapped(words_view(rest@), width as nat, left as nat)
                == wrapped(all, width as nat, lines as nat),
        decreases left,
    {
        let (line, next) = take_line_of(&rest, width);
        let ghost before = out@;
        out.push(string_of(line.as_slice()));
        proof {
            assert(out@.map_values(|s: String| s@) =~= before.map_values(|s: String| s@).push(
                line@,
            ));
            assert(out@.map_values(|s: String| s@) + wrapped(words_view(next@), width as nat, (left - 1) as nat)
                =~= before.map_values(|s: String| s@) + wrapped(words_view(rest@), width as nat, left as nat));
        }
        rest = next;
        left = left - 1;
    }
    if rest.len() > 0 && left == 1 {
        let joined = join_words(&rest);
        let ghost before = out@;
        out.push(truncate_chars(&joined, width));
        assert(out@.map_values(|s: String| s@) =~= before.map_values(|s: String| s@)
            + wrapped(words_view(rest@), width as nat, left as nat));
    } else {
        assert(out@.map_values(|s: String| s@) =~= out@.map_values(|s: String| s@) + wrapped(
            words_view(rest@),
            width as nat,
            left as nat,
        ));
    }
    out
}

/// Adding words to a line that fits keeps it fitting.
proof fn lemma_extend_fits(line: Seq<char>, words: Seq<Seq<char>>, width: nat)
    requires
        line.len() <= width,
    ensures
        extend(line, words, width).0.len() <= width,
    decreases words.len(),
{
    if words.len() > 0 && line.len() + 1 + words[0].len() <= width {
        lemma_extend_fits(line + seq![' '] + words[0], words.drop_first(), width);
    }
}

/// Wrapped text takes at most the lines it is given, and no line is wider than the width.
pub proof fn lemma_wrapped_fits(words: Seq<Seq<char>>, width: nat, lines: nat)
    ensures
        wrapped(words, width, lines).len() <= lines,
        forall|i: int|
            0 <= i < wrapped(words, width, lines).len() ==> (#[trigger] wrapped(
                words,
                width,
                lines,
            )[i]).len() <= width,
    decreases lines,
{
    if words.len() == 0 || lines == 0 || width == 0 {
    } else if lines == 1 {
    } else {
        let (line, rest) = take_line(words, width);
        if words[0].len() <= width {
            lemma_extend_fits(words[0], words.drop_first(), width);
        }
        lemma_wrapped_fits(rest, width, (lines - 1) as nat);
        let out = wrapped(words, width, lines);
        assert forall|i: int| 0 <= i < out.len() implies (#[trigger] out[i]).len() <= width by {
            if i > 0 {
                assert(out[i] == wrapped(rest, width, (lines - 1) as nat)[i - 1]);
            }
        }
    }
}

} // verus!
