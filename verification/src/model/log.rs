//! The failed step's log, as `gh run view --log-failed` prints it: one line per log line,
//! `<job>\t<step>\t<timestamp> <text>`.

use vstd::prelude::*;
use vstd::utf8::encode_utf8;

use crate::strs::{lemma_trimmed_end_last, trim_end_len, trimmed_end, trimmed_start, chars_of, find_char, first_index, is_space, lemma_first_index_bounds,
    slice_vec, space, string_of, trimmed};

verus! {

/// `s` without one trailing carriage return.
pub open spec fn strip_cr(s: Seq<char>) -> Seq<char> {
    if s.len() > 0 && s.last() == '\r' {
        s.drop_last()
    } else {
        s
    }
}

/// `str::lines`: the pieces between newlines, each without a `\r` before its newline; a
/// final newline ends the last line rather than starting an empty one.
pub open spec fn lines_of(s: Seq<char>) -> Seq<Seq<char>>
    decreases s.len(),
{
    if s.len() == 0 {
        Seq::empty()
    } else {
        match first_index(s, '\n') {
            Some(i) => {
                proof {
                    lemma_first_index_bounds(s, '\n');
                }
                seq![strip_cr(s.take(i))] + lines_of(s.skip(i + 1))
            },
            None => seq![s],
        }
    }
}

/// Whether a line starts like `2026-09-14T16:09:52...`: more than 20 bytes, four ASCII digits,
/// `-` at bytes 4 and 7 and `T` at byte 10.
pub open spec fn stamp_like(bytes: Seq<u8>) -> bool {
    &&& bytes.len() > 20
    &&& bytes[4] == 45u8
    &&& bytes[7] == 45u8
    &&& bytes[10] == 84u8
    &&& forall|i: int| 0 <= i < 4 ==> 48u8 <= #[trigger] bytes[i] <= 57u8
}

/// The text of a log line without its leading timestamp: what follows the first space when
/// the line starts with a timestamp and has a space.
pub open spec fn without_stamp(text: Seq<char>) -> Seq<char> {
    if stamp_like(encode_utf8(text)) {
        match first_index(text, ' ') {
            Some(i) => text.skip(i + 1),
            None => text,
        }
    } else {
        text
    }
}

/// `text` without ANSI control sequences: each `ESC [` and what follows it up to and with the
/// first character in `@`..=`~` is dropped.
pub open spec fn ansi_stripped(text: Seq<char>) -> Seq<char>
    decreases text.len(),
{
    if text.len() == 0 {
        text
    } else if text.len() >= 2 && text[0] == '\u{1b}' && text[1] == '[' {
        proof {
            lemma_skip_sequence_shorter(text.skip(2));
        }
        ansi_stripped(skip_sequence(text.skip(2)))
    } else {
        seq![text[0]] + ansi_stripped(text.drop_first())
    }
}

/// What follows the final character of a control sequence whose parameters start `rest`.
pub open spec fn skip_sequence(rest: Seq<char>) -> Seq<char>
    decreases rest.len(),
{
    if rest.len() == 0 {
        rest
    } else if '@' <= rest[0] && rest[0] <= '~' {
        rest.drop_first()
    } else {
        skip_sequence(rest.drop_first())
    }
}

pub proof fn lemma_skip_sequence_shorter(rest: Seq<char>)
    ensures
        skip_sequence(rest).len() <= rest.len(),
        rest.len() > 0 ==> skip_sequence(rest).len() < rest.len(),
        exists|k: int| 0 <= k <= rest.len() && skip_sequence(rest) == rest.skip(k) && (rest.len()
            > 0 ==> k > 0),
    decreases rest.len(),
{
    if rest.len() == 0 {
        assert(rest.skip(0) =~= rest);
    } else if '@' <= rest[0] && rest[0] <= '~' {
        assert(rest.skip(1) =~= rest.drop_first());
    } else {
        lemma_skip_sequence_shorter(rest.drop_first());
        let k = choose|k: int|
            0 <= k <= rest.drop_first().len() && skip_sequence(rest.drop_first())
                == rest.drop_first().skip(k) && (rest.drop_first().len() > 0 ==> k > 0);
        assert(rest.drop_first().skip(k) =~= rest.skip(k + 1));
    }
}

/// A log line without the job and step fields (when it has both), its timestamp and its
/// colours.
pub open spec fn cleaned(line: Seq<char>) -> Seq<char> {
    let text = match first_index(line, '\t') {
        Some(i) => match first_index(line.skip(i + 1), '\t') {
            Some(j) => line.skip(i + 1).skip(j + 1),
            None => line,
        },
        None => line,
    };
    ansi_stripped(without_stamp(text))
}

/// The lines with trailing blank ones (empty once trimmed) removed.
pub open spec fn without_blank_tail(lines: Seq<Seq<char>>) -> Seq<Seq<char>>
    decreases lines.len(),
{
    if lines.len() > 0 && trimmed(lines.last()).len() == 0 {
        without_blank_tail(lines.drop_last())
    } else {
        lines
    }
}

/// The last `keep` cleaned lines of a log, trailing blank lines dropped first.
pub open spec fn tail_of(text: Seq<char>, keep: nat) -> Seq<Seq<char>> {
    let lines = without_blank_tail(lines_of(text).map_values(|l: Seq<char>| cleaned(l)));
    if lines.len() > keep {
        lines.skip(lines.len() - keep)
    } else {
        lines
    }
}

fn strip_ansi(text: &Vec<char>) -> (r: Vec<char>)
    ensures
        r@ == ansi_stripped(text@),
{
    let mut out: Vec<char> = Vec::new();
    let mut i: usize = 0;
    assert(text@.skip(0) =~= text@);
    while i < text.len()
        invariant
            0 <= i <= text@.len(),
            out@ + ansi_stripped(text@.skip(i as int)) == ansi_stripped(text@),
        decreases text@.len() - i,
    {
        let ghost rest = text@.skip(i as int);
        if i + 1 < text.len() && text[i] == '\u{1b}' && text[i + 1] == '[' {
            let mut j = i + 2;
            assert(rest.skip(2) =~= text@.skip(j as int));
            while j < text.len() && !('@' <= text[j] && text[j] <= '~')
                invariant
                    i + 2 <= j <= text@.len(),
                    skip_sequence(rest.skip(2)) == skip_sequence(text@.skip(j as int)),
                decreases text@.len() - j,
            {
                assert(text@.skip(j as int).drop_first() =~= text@.skip(j + 1));
                j = j + 1;
            }
            if j < text.len() {
                assert(text@.skip(j as int).drop_first() =~= text@.skip(j + 1));
                j = j + 1;
            } else {
                assert(text@.skip(j as int).len() == 0);
            }
            assert(skip_sequence(rest.skip(2)) == text@.skip(j as int));
            i = j;
        } else {
            assert(rest.drop_first() =~= text@.skip(i + 1));
            out.push(text[i]);
            i = i + 1;
            assert(out@ + ansi_stripped(text@.skip(i as int)) =~= ansi_stripped(text@)) by {
                assert(ansi_stripped(rest) == seq![rest[0]] + ansi_stripped(rest.drop_first()));
            }
        }
    }
    out
}

} // verus!

verus! {

fn without_timestamp(text: &Vec<char>) -> (r: Vec<char>)
    ensures
        r@ == without_stamp(text@),
{
    let s = string_of(text.as_slice());
    let b = s.as_str().as_bytes();
    assert(b@ == encode_utf8(text@));
    let stamp = b.len() > 20 && b[4] == 45u8 && b[7] == 45u8 && b[10] == 84u8 && 48u8 <= b[0]
        && b[0] <= 57u8 && 48u8 <= b[1] && b[1] <= 57u8 && 48u8 <= b[2] && b[2] <= 57u8 && 48u8
        <= b[3] && b[3] <= 57u8;
    assert(stamp == stamp_like(b@)) by {
        if stamp_like(b@) {
            assert(48u8 <= b@[0] <= 57u8);
            assert(48u8 <= b@[1] <= 57u8);
            assert(48u8 <= b@[2] <= 57u8);
            assert(48u8 <= b@[3] <= 57u8);
        }
    }
    if !stamp {
        return slice_vec(text.as_slice(), 0, text.len());
    }
    assert(text@.skip(0) =~= text@);
    match find_char(text.as_slice(), 0, ' ') {
        Some(i) => slice_vec(text.as_slice(), i + 1, text.len()),
        None => slice_vec(text.as_slice(), 0, text.len()),
    }
}

fn clean(line: &Vec<char>) -> (r: Vec<char>)
    ensures
        r@ == cleaned(line@),
{
    let s = line.as_slice();
    assert(s@.skip(0) =~= s@);
    let text = match find_char(s, 0, '\t') {
        Some(i) => match find_char(s, i + 1, '\t') {
            Some(j) => {
                assert(s@.skip(i + 1).skip((j - (i + 1)) + 1) =~= s@.skip(j + 1));
                slice_vec(s, j + 1, s.len())
            },
            None => slice_vec(s, 0, s.len()),
        },
        None => slice_vec(s, 0, s.len()),
    };
    let stamped = without_timestamp(&text);
    strip_ansi(&stamped)
}

/// The lines of `s`.
fn lines(s: &[char]) -> (r: Vec<Vec<char>>)
    ensures
        r@.len() == lines_of(s@).len(),
        forall|i: int| 0 <= i < r@.len() ==> (#[trigger] r@[i])@ == lines_of(s@)[i],
{
    let mut out: Vec<Vec<char>> = Vec::new();
    let ghost views: Seq<Seq<char>> = Seq::empty();
    let mut start: usize = 0;
    assert(s@.skip(0) =~= s@);
    while start < s.len()
        invariant
            0 <= start <= s@.len(),
            out@.len() == views.len(),
            forall|i: int| 0 <= i < out@.len() ==> (#[trigger] out@[i])@ == views[i],
            views + lines_of(s@.skip(start as int)) == lines_of(s@),
        decreases s@.len() - start,
    {
        let ghost rest = s@.skip(start as int);
        match find_char(s, start, '\n') {
            Some(i) => {
                let mut end = i;
                if end > start && s[end - 1] == '\r' {
                    end = end - 1;
                }
                let line = slice_vec(s, start, end);
                assert(line@ =~= strip_cr(rest.take(i - start)));
                assert(rest.skip((i - start) + 1) =~= s@.skip(i + 1));
                assert(lines_of(rest) == seq![line@] + lines_of(s@.skip(i + 1)));
                out.push(line);
                proof {
                    views = views.push(line@);
                }
                assert(views + lines_of(s@.skip(i + 1)) =~= lines_of(s@));
                start = i + 1;
            },
            None => {
                let line = slice_vec(s, start, s.len());
                assert(line@ =~= rest);
                assert(lines_of(rest) == seq![rest]);
                out.push(line);
                proof {
                    views = views.push(line@);
                }
                assert(lines_of(s@.skip(s@.len() as int)) == Seq::<Seq<char>>::empty());
                assert(views + lines_of(s@.skip(s@.len() as int)) =~= lines_of(s@));
                start = s.len();
            },
        }
    }
    assert(lines_of(s@.skip(start as int)) == Seq::<Seq<char>>::empty());
    assert(views =~= lines_of(s@));
    out
}

proof fn lemma_trimmed_start_keeps_last(x: Seq<char>)
    requires
        x.len() > 0,
        !is_space(x.last()),
    ensures
        trimmed_start(x).len() > 0,
    decreases x.len(),
{
    if is_space(x[0]) {
        assert(x.len() > 1);
        assert(x.drop_first().last() == x.last());
        lemma_trimmed_start_keeps_last(x.drop_first());
    }
}

fn is_blank(v: &Vec<char>) -> (r: bool)
    ensures
        r == (trimmed(v@).len() == 0),
{
    let n = trim_end_len(v.as_slice());
    proof {
        if n > 0 {
            assert(trimmed_end(v@) == v@.take(n as int));
            lemma_trimmed_end_last(v@);
            assert(!is_space(v@.take(n as int).last()));
            lemma_trimmed_start_keeps_last(v@.take(n as int));
        } else {
            assert(v@.take(0) =~= Seq::<char>::empty());
        }
    }
    n == 0
}

/// The last `keep` lines of a failed-step log with the job, step and timestamp prefixes and
/// any ANSI colour removed; trailing blank lines are dropped first.
pub fn tail(text: &str, keep: usize) -> (r: Vec<String>)
    ensures
        r@.len() == tail_of(text@, keep as nat).len(),
        forall|i: int| 0 <= i < r@.len() ==> (#[trigger] r@[i])@ == tail_of(text@, keep as nat)[i],
{
    let chars = chars_of(text);
    let raw = lines(chars.as_slice());
    let ghost all = lines_of(text@).map_values(|l: Seq<char>| cleaned(l));
    let mut cleaned_lines: Vec<Vec<char>> = Vec::new();
    let mut i: usize = 0;
    while i < raw.len()
        invariant
            0 <= i <= raw@.len(),
            raw@.len() == lines_of(text@).len(),
            all == lines_of(text@).map_values(|l: Seq<char>| cleaned(l)),
            forall|k: int| 0 <= k < raw@.len() ==> (#[trigger] raw@[k])@ == lines_of(text@)[k],
            cleaned_lines@.len() == i,
            forall|k: int| 0 <= k < i ==> (#[trigger] cleaned_lines@[k])@ == all[k],
        decreases raw@.len() - i,
    {
        let c = clean(&raw[i]);
        cleaned_lines.push(c);
        i = i + 1;
    }
    let mut n = cleaned_lines.len();
    assert(all.take(n as int) =~= all);
    while n > 0 && is_blank(&cleaned_lines[n - 1])
        invariant
            n <= cleaned_lines@.len(),
            cleaned_lines@.len() == all.len(),
            forall|k: int| 0 <= k < all.len() ==> (#[trigger] cleaned_lines@[k])@ == all[k],
            without_blank_tail(all.take(n as int)) == without_blank_tail(all),
        decreases n,
    {
        assert(all.take(n as int).drop_last() =~= all.take(n - 1));
        n = n - 1;
    }
    let ghost kept = all.take(n as int);
    assert(without_blank_tail(kept) == kept) by {
        if n > 0 {
            assert(kept.last() == all[n - 1]);
        }
    }
    let skip = if n > keep { n - keep } else { 0 };
    let mut out: Vec<String> = Vec::new();
    let mut k = skip;
    while k < n
        invariant
            skip <= k <= n <= cleaned_lines@.len(),
            cleaned_lines@.len() == all.len(),
            forall|j: int| 0 <= j < all.len() ==> (#[trigger] cleaned_lines@[j])@ == all[j],
            kept == all.take(n as int),
            out@.len() == k - skip,
            forall|j: int| 0 <= j < out@.len() ==> (#[trigger] out@[j])@ == kept[skip + j],
        decreases n - k,
    {
        out.push(string_of(cleaned_lines[k].as_slice()));
        k = k + 1;
    }
    out
}

} // verus!
