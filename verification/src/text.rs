//! Fitting text into columns and saying how long ago something was.

use vstd::prelude::*;

pub use crate::wrap::wrap;

use crate::strs::{
    all_digits, chars_of, decimal, decimal_chars, digit_char, digit_value, digits_value, is_digit,
    lemma_decimal_parses, push_char, string_of,
};
use crate::time::{Nanos, Stamp, SECOND, since, since_spec};

verus! {

/// `text` cut to `width` characters, the last of them an ellipsis when anything was cut.
pub open spec fn truncated(text: Seq<char>, width: nat) -> Seq<char> {
    if text.len() <= width {
        text
    } else if width == 0 {
        Seq::empty()
    } else {
        text.take(width - 1).push('…')
    }
}

/// `text` truncated to `width`, then filled with spaces up to `width`.
pub open spec fn padded(text: Seq<char>, width: nat) -> Seq<char> {
    if text.len() < width {
        text + Seq::new((width - text.len()) as nat, |i: int| ' ')
    } else {
        truncated(text, width)
    }
}

/// Shortens `text` to at most `width` characters, marking a cut with `…`.
pub fn truncate(text: &str, width: usize) -> (r: String)
    ensures
        r@ == truncated(text@, width as nat),
        r@.len() == if text@.len() <= width { text@.len() } else { width as nat },
{
    let chars = chars_of(text);
    truncate_chars(&chars, width)
}

pub fn truncate_chars(chars: &Vec<char>, width: usize) -> (r: String)
    ensures
        r@ == truncated(chars@, width as nat),
        r@.len() == if chars@.len() <= width { chars@.len() } else { width as nat },
{
    if chars.len() <= width {
        return string_of(chars.as_slice());
    }
    if width == 0 {
        return String::new();
    }
    let mut cut = String::new();
    let mut i: usize = 0;
    while i < width - 1
        invariant
            0 <= i <= width - 1,
            width - 1 < chars@.len(),
            cut@ == chars@.take(i as int),
        decreases width - 1 - i,
    {
        push_char(&mut cut, chars[i]);
        i = i + 1;
        assert(chars@.take(i as int) =~= chars@.take(i - 1).push(chars@[i - 1]));
    }
    push_char(&mut cut, '…');
    cut
}

/// Truncates `text` to `width` characters and pads it with spaces to exactly `width`.
pub fn pad_right(text: &str, width: usize) -> (r: String)
    ensures
        r@ == padded(text@, width as nat),
        r@.len() == width,
{
    let chars = chars_of(text);
    let count = chars.len();
    let mut padded_text = truncate_chars(&chars, width);
    if count < width {
        let mut k: usize = count;
        while k < width
            invariant
                count <= k <= width,
                padded_text@ == chars@ + Seq::new((k - count) as nat, |i: int| ' '),
            decreases width - k,
        {
            push_char(&mut padded_text, ' ');
            k = k + 1;
            assert(padded_text@ =~= chars@ + Seq::new((k - count) as nat, |i: int| ' '));
        }
    }
    padded_text
}

/// A length of time in its largest whole unit: seconds below a minute, minutes below an
/// hour, hours below a day, else days (`45s`, `3m`, `2h`, `6d`).
pub open spec fn duration_text(secs: nat) -> Seq<char> {
    if secs < 60 {
        decimal(secs).push('s')
    } else if secs < 3600 {
        decimal(secs / 60).push('m')
    } else if secs < 86_400 {
        decimal(secs / 3600).push('h')
    } else {
        decimal(secs / 86_400).push('d')
    }
}

/// The whole seconds in `value`, as `Duration::as_secs` gives them.
pub open spec fn whole_secs(value: Nanos) -> nat {
    (value / SECOND) as nat
}

/// Formats a length of time by its whole seconds.
pub fn duration(value: Nanos) -> (r: String)
    ensures
        r@ == duration_text(whole_secs(value)),
{
    let secs = value / SECOND;
    let mut chars = if secs < 60 {
        decimal_chars(secs)
    } else if secs < 3600 {
        decimal_chars(secs / 60)
    } else if secs < 86_400 {
        decimal_chars(secs / 3600)
    } else {
        decimal_chars(secs / 86_400)
    };
    let unit = if secs < 60 {
        's'
    } else if secs < 3600 {
        'm'
    } else if secs < 86_400 {
        'h'
    } else {
        'd'
    };
    chars.push(unit);
    string_of(chars.as_slice())
}

/// How long ago `since` was at `now`; a moment in the future counts as no time at all.
pub fn age(since_at: Stamp, now: Stamp) -> (r: String)
    ensures
        r@ == duration_text(whole_secs(
            match since_spec(now, since_at) {
                Some(d) => d,
                None => 0,
            },
        )),
{
    let elapsed = match since(now, since_at) {
        Some(d) => d,
        None => 0,
    };
    duration(elapsed)
}

/// A number below a hundred in two digits.
pub open spec fn two_digits(n: nat) -> Seq<char> {
    seq![digit_char(n / 10), digit_char(n % 10)]
}

/// The time of day of `at`, `offset` seconds east of UTC, as `HH:MM:SS`.
pub open spec fn clock_of(at: Stamp, offset: i32) -> Seq<char> {
    let day = ((at / SECOND) as int + offset) % 86_400;
    two_digits((day / 3600) as nat) + ":"@ + two_digits(((day % 3600) / 60) as nat) + ":"@
        + two_digits((day % 60) as nat)
}

/// When the shown data came: just now for its first three seconds, then the wall-clock time.
pub open spec fn refreshed_of(at: Stamp, now: Stamp, offset: i32) -> Seq<char> {
    let elapsed = match since_spec(now, at) {
        Some(d) => d,
        None => 0,
    };
    if whole_secs(elapsed) < 3 {
        "refreshed just now"@
    } else {
        "refreshed at "@ + clock_of(at, offset)
    }
}

fn push_two(out: &mut Vec<char>, n: u128)
    requires
        n < 100,
    ensures
        final(out)@ == old(out)@ + two_digits(n as nat),
{
    let tens = decimal_chars(n / 10);
    let ones = decimal_chars(n % 10);
    proof {
        reveal_with_fuel(decimal, 2);
    }
    assert(tens@ =~= seq![digit_char((n / 10) as nat)]);
    assert(ones@ =~= seq![digit_char((n % 10) as nat)]);
    out.push(tens[0]);
    out.push(ones[0]);
    assert(out@ =~= old(out)@ + two_digits(n as nat));
}

proof fn lemma_shift_day(x: int, k: int)
    by (nonlinear_arith)
    requires
        k >= 0,
    ensures
        (x + 86_400 * k) % 86_400 == x % 86_400,
{
}

/// See `clock_of`.
pub fn clock(at: Stamp, offset: i32) -> (r: String)
    ensures
        r@ == clock_of(at, offset),
{
    let secs = at / SECOND;
    let shifted: u128 = if offset >= 0 {
        secs + 2_147_558_400 + offset as u128
    } else {
        secs + 2_147_558_400 - (-(offset as i64)) as u128
    };
    let day = shifted % 86_400;
    proof {
        lemma_shift_day((at / SECOND) as int + offset, 24_856);
        assert(shifted as int == (at / SECOND) as int + offset + 86_400 * 24_856);
    }
    let mut out: Vec<char> = Vec::new();
    push_two(&mut out, day / 3600);
    out.push(':');
    push_two(&mut out, (day % 3600) / 60);
    out.push(':');
    push_two(&mut out, day % 60);
    proof {
        reveal_strlit(":");
    }
    assert(out@ =~= clock_of(at, offset));
    string_of(out.as_slice())
}

/// See `refreshed_of`.
pub fn refreshed(at: Stamp, now: Stamp, offset: i32) -> (r: String)
    ensures
        r@ == refreshed_of(at, now, offset),
{
    let elapsed = match since(now, at) {
        Some(d) => d,
        None => 0,
    };
    if elapsed / SECOND < 3 {
        "refreshed just now".to_owned()
    } else {
        let time = clock(at, offset);
        crate::strs::concat("refreshed at ", time.as_str())
    }
}

} // verus!

verus! {

proof fn lemma_two_digits(n: nat)
    requires
        n < 100,
    ensures
        two_digits(n).len() == 2,
        all_digits(two_digits(n)),
        digits_value(two_digits(n)) == n,
{
    let t = two_digits(n);
    assert(t.drop_last() =~= seq![digit_char(n / 10)]);
    assert(t.drop_last().drop_last() =~= Seq::<char>::empty());
    assert(digit_value(digit_char(n / 10)) == n / 10 && is_digit(digit_char(n / 10))) by {
        assert(0 <= n / 10 < 10);
    }
    assert(digit_value(digit_char(n % 10)) == n % 10 && is_digit(digit_char(n % 10))) by {
        assert(0 <= n % 10 < 10);
    }
    assert(digits_value(t.drop_last().drop_last()) == 0);
    assert(digits_value(t.drop_last()) == n / 10);
    assert(t.last() == digit_char(n % 10));
    assert(digits_value(t) == (n / 10) * 10 + n % 10);
}

/// The clock reads the time of day of a moment, `offset` seconds east of UTC: `HH:MM:SS`,
/// whose hours, minutes and seconds add up to the seconds since that day's midnight.
pub proof fn lemma_clock_reads_the_time_of_day(at: Stamp, offset: i32)
    ensures
        clock_of(at, offset).len() == 8,
        clock_of(at, offset)[2] == ':' && clock_of(at, offset)[5] == ':',
        all_digits(clock_of(at, offset).subrange(0, 2)) && all_digits(
            clock_of(at, offset).subrange(3, 5),
        ) && all_digits(clock_of(at, offset).subrange(6, 8)),
        digits_value(clock_of(at, offset).subrange(0, 2)) < 24,
        digits_value(clock_of(at, offset).subrange(3, 5)) < 60,
        digits_value(clock_of(at, offset).subrange(6, 8)) < 60,
        digits_value(clock_of(at, offset).subrange(0, 2)) * 3600 + digits_value(
            clock_of(at, offset).subrange(3, 5),
        ) * 60 + digits_value(clock_of(at, offset).subrange(6, 8)) == ((at / SECOND) as int
            + offset) % 86_400,
{
    reveal_strlit(":");
    let day = ((at / SECOND) as int + offset) % 86_400;
    let h = (day / 3600) as nat;
    let m = ((day % 3600) / 60) as nat;
    let s = (day % 60) as nat;
    assert(0 <= day < 86_400);
    assert(h < 24 && m < 60 && s < 60);
    assert(h * 3600 + m * 60 + s == day);
    lemma_two_digits(h);
    lemma_two_digits(m);
    lemma_two_digits(s);
    let t = clock_of(at, offset);
    assert(t.subrange(0, 2) =~= two_digits(h));
    assert(t.subrange(3, 5) =~= two_digits(m));
    assert(t.subrange(6, 8) =~= two_digits(s));
}

/// What one letter of a duration stands for, in seconds.
pub open spec fn unit_secs(c: char) -> nat {
    if c == 's' {
        1
    } else if c == 'm' {
        60
    } else if c == 'h' {
        3600
    } else {
        86_400
    }
}

/// A duration reads as a number and a unit letter: the number is how many whole units the
/// seconds hold, and the unit is the largest of seconds, minutes, hours and days that is
/// not longer than the duration (seconds below a minute).
pub proof fn lemma_duration_reads_back(secs: nat)
    ensures
        duration_text(secs).len() >= 2,
        all_digits(duration_text(secs).drop_last()),
        seq!['s', 'm', 'h', 'd'].contains(duration_text(secs).last()),
        digits_value(duration_text(secs).drop_last()) == secs / unit_secs(
            duration_text(secs).last(),
        ),
        unit_secs(duration_text(secs).last()) <= secs || duration_text(secs).last() == 's',
        duration_text(secs).last() == 'd' || secs < unit_secs(duration_text(secs).last()) * (
        if duration_text(secs).last() == 's' {
            60nat
        } else if duration_text(secs).last() == 'm' {
            60nat
        } else {
            24nat
        }),
{
    let t = duration_text(secs);
    let (n, u): (nat, char) = if secs < 60 {
        (secs, 's')
    } else if secs < 3600 {
        (secs / 60, 'm')
    } else if secs < 86_400 {
        (secs / 3600, 'h')
    } else {
        (secs / 86_400, 'd')
    };
    lemma_decimal_parses(n);
    assert(t == decimal(n).push(u));
    assert(t.drop_last() =~= decimal(n));
    assert(t.last() == u);
    assert(seq!['s', 'm', 'h', 'd'][0] == 's' && seq!['s', 'm', 'h', 'd'][1] == 'm' && seq![
        's',
        'm',
        'h',
        'd',
    ][2] == 'h' && seq!['s', 'm', 'h', 'd'][3] == 'd');
}

} // verus!
