//! Track lengths as text: `m:ss` below an hour, `h:mm:ss` from an hour on.

use crate::text;
use vstd::prelude::*;

verus! {

// --- what the text means ------------------------------------------------------------------

/// Division that rounds toward zero.
pub open spec fn quotient(a: int, b: int) -> int {
    if a < 0 {
        -((-a) / b)
    } else {
        a / b
    }
}

/// What [`quotient`] leaves over; it has the sign of `a`.
pub open spec fn remainder(a: int, b: int) -> int {
    a - b * quotient(a, b)
}

/// Whether every piece of a list is a number.
pub open spec fn all_numbers(list: Seq<Seq<char>>) -> bool {
    forall|i: int| 0 <= i < list.len() ==> text::numeral(text::trimmed(#[trigger] list[i])) is Some
}

/// The numbers that the pieces of a list are.
pub open spec fn numbers(list: Seq<Seq<char>>) -> Seq<int> {
    Seq::new(list.len(), |i: int| text::numeral(text::trimmed(list[i]))->0)
}

/// The numbers between the colons of a length. There are none where anything else stands there.
pub open spec fn length_parts(s: Seq<char>) -> Option<Seq<int>> {
    if all_numbers(text::pieces(s, ':')) {
        Some(numbers(text::pieces(s, ':')))
    } else {
        None
    }
}

/// Seconds, minutes and seconds, or hours, minutes and seconds. Any other count means nothing.
pub open spec fn parts_seconds(parts: Seq<int>) -> int {
    if parts.len() == 1 {
        parts[0]
    } else if parts.len() == 2 {
        parts[0] * 60 + parts[1]
    } else if parts.len() == 3 {
        parts[0] * 3600 + parts[1] * 60 + parts[2]
    } else {
        0
    }
}

/// The milliseconds that a length writes, 0 where there is none or it cannot be read.
pub open spec fn length_ms(s: Option<Seq<char>>) -> int {
    match s {
        Some(t) => match length_parts(t) {
            Some(parts) => parts_seconds(parts) * 1000,
            None => 0,
        },
        None => 0,
    }
}

/// Whether an integer fits in 64 bits.
pub open spec fn fits(n: int) -> bool {
    i64::MIN <= n <= i64::MAX
}

/// Whether every step of the arithmetic on the parts stays within 64 bits.
pub open spec fn parts_fit(parts: Seq<int>) -> bool {
    &&& parts.len() == 2 ==> fits(parts[0] * 60)
    &&& parts.len() == 3 ==> {
        &&& fits(parts[0] * 3600)
        &&& fits(parts[1] * 60)
        &&& fits(parts[0] * 3600 + parts[1] * 60)
    }
    &&& fits(parts_seconds(parts))
    &&& fits(parts_seconds(parts) * 1000)
}

/// Whether a length can be turned into 64-bit milliseconds.
pub open spec fn length_fits(s: Option<Seq<char>>) -> bool {
    match s {
        Some(t) => match length_parts(t) {
            Some(parts) => parts_fit(parts),
            None => true,
        },
        None => true,
    }
}

/// The text of a length of `ms` milliseconds; what is below a second is dropped.
pub open spec fn length_text(ms: int) -> Seq<char> {
    let total = quotient(ms, 1000);
    if quotient(total, 3600) == 0 {
        text::integer_text(quotient(total, 60)).push(':') + text::two_digit_text(
            remainder(total, 60),
        )
    } else {
        (text::integer_text(quotient(total, 3600)).push(':') + text::two_digit_text(
            quotient(remainder(total, 3600), 60),
        )).push(':') + text::two_digit_text(remainder(total, 60))
    }
}

// --- reading ------------------------------------------------------------------------------

/// The integers of a list, as mathematical integers.
pub open spec fn ints(v: Seq<i64>) -> Seq<int> {
    Seq::new(v.len(), |i: int| v[i] as int)
}

/// The numbers between the colons of a length, where nothing else stands there.
fn parts_of(s: &str) -> (r: Option<Vec<i64>>)
    ensures
        r is Some == (length_parts(s@) is Some),
        r matches Some(parts) ==> ints(parts@) == length_parts(s@)->0,
{
    let list = text::split(s, ':');
    let ghost all = text::views(list@);
    let mut out: Vec<i64> = Vec::new();
    for i in 0..list.len()
        invariant
            all == text::views(list@),
            all == text::pieces(s@, ':'),
            out@.len() == i,
            forall|k: int|
                0 <= k < i ==> text::numeral(text::trimmed(#[trigger] all[k])) == Some(
                    out@[k] as int,
                ),
    {
        assert(all[i as int] == list@[i as int]@);
        match text::parse_i64(&text::trim_chars(&list[i])) {
            Some(n) => {
                out.push(n);
            },
            None => {
                return None;
            },
        }
    }
    assert(all_numbers(all));
    assert(ints(out@) =~= numbers(all));
    Some(out)
}

/// Whether [`parse_duration_ms`] can be called on a length: on every text that a real length
/// has. Numbers so large that the milliseconds exceed 64 bits are what it answers `false` to.
pub fn duration_fits(s: Option<&str>) -> (r: bool)
    ensures
        r == length_fits(text::opt_str(s)),
{
    let parts: Vec<i64> = match s {
        Some(t) => match parts_of(t) {
            Some(parts) => parts,
            None => {
                return true;
            },
        },
        None => {
            return true;
        },
    };
    let ghost p = length_parts(s->0@)->0;
    let lo: i128 = -9_223_372_036_854_775_808;
    let hi: i128 = 9_223_372_036_854_775_807;
    assert(ints(parts@) == p);
    if parts.len() == 1 {
        assert(p[0] == parts@[0]);
        let secs: i128 = parts[0] as i128;
        lo <= secs * 1000 && secs * 1000 <= hi
    } else if parts.len() == 2 {
        assert(p[0] == parts@[0] && p[1] == parts@[1]);
        let m: i128 = parts[0] as i128 * 60;
        let secs: i128 = m + parts[1] as i128;
        lo <= m && m <= hi && lo <= secs && secs <= hi && lo <= secs * 1000 && secs * 1000 <= hi
    } else if parts.len() == 3 {
        assert(p[0] == parts@[0] && p[1] == parts@[1] && p[2] == parts@[2]);
        let h: i128 = parts[0] as i128 * 3600;
        let m: i128 = parts[1] as i128 * 60;
        let secs: i128 = h + m + parts[2] as i128;
        lo <= h && h <= hi && lo <= m && m <= hi && lo <= h + m && h + m <= hi && lo <= secs && secs
            <= hi && lo <= secs * 1000 && secs * 1000 <= hi
    } else {
        true
    }
}

/// Parses a `"m:ss"` / `"h:mm:ss"` length to milliseconds, 0 if absent or unparseable.
pub fn parse_duration_ms(s: Option<&str>) -> (r: i64)
    requires
        length_fits(text::opt_str(s)),
    ensures
        r == length_ms(text::opt_str(s)),
{
    let parts: Vec<i64> = match s {
        Some(t) => match parts_of(t) {
            Some(parts) => parts,
            None => {
                return 0;
            },
        },
        None => {
            return 0;
        },
    };
    let ghost p = length_parts(s->0@)->0;
    assert(ints(parts@) == p);
    let secs: i64 = if parts.len() == 1 {
        assert(p[0] == parts@[0]);
        parts[0]
    } else if parts.len() == 2 {
        assert(p[0] == parts@[0] && p[1] == parts@[1]);
        parts[0] * 60 + parts[1]
    } else if parts.len() == 3 {
        assert(p[0] == parts@[0] && p[1] == parts@[1] && p[2] == parts@[2]);
        parts[0] * 3600 + parts[1] * 60 + parts[2]
    } else {
        0
    };
    secs * 1000
}

// --- writing ------------------------------------------------------------------------------

/// Writes a length of `ms` milliseconds as `m:ss`, or as `h:mm:ss` from an hour on.
pub fn format_duration(ms: i64) -> (r: String)
    ensures
        r@ == length_text(ms as int),
{
    let total: i64 = ms / 1000;
    let h: i64 = total / 3600;
    let mut out = String::new();
    if h == 0 {
        text::push_integer(&mut out, total / 60);
        out.push(':');
        text::push_two_digits(&mut out, total % 60);
    } else {
        text::push_integer(&mut out, h);
        out.push(':');
        text::push_two_digits(&mut out, (total % 3600) / 60);
        out.push(':');
        text::push_two_digits(&mut out, total % 60);
    }
    assert(out@ =~= length_text(ms as int));
    out
}

// --- the two are inverse ------------------------------------------------------------------

/// Text without the separator is one piece.
proof fn lemma_one_piece(s: Seq<char>, sep: char)
    requires
        !s.contains(sep),
    ensures
        text::pieces(s, sep) == seq![s],
    decreases s.len(),
{
    if s.len() == 0 {
        assert(s =~= Seq::<char>::empty());
    } else {
        assert forall|i: int| 0 <= i < s.drop_last().len() implies s.drop_last()[i] != sep by {
            assert(s[i] != sep);
        }
        lemma_one_piece(s.drop_last(), sep);
        assert(s.last() == s[s.len() - 1]);
        assert(text::pieces(s, sep) =~= seq![s]) by {
            assert(seq![s.drop_last()].drop_last() =~= Seq::<Seq<char>>::empty());
            assert(s.drop_last().push(s.last()) =~= s);
        }
    }
}

/// What stands behind the last separator is the last piece.
proof fn lemma_last_piece(a: Seq<char>, b: Seq<char>, sep: char)
    requires
        !b.contains(sep),
    ensures
        text::pieces(a.push(sep) + b, sep) == text::pieces(a, sep).push(b),
    decreases b.len(),
{
    let s = a.push(sep) + b;
    if b.len() == 0 {
        assert(s =~= a.push(sep));
        assert(s.drop_last() =~= a);
        assert(b =~= Seq::<char>::empty());
    } else {
        assert forall|i: int| 0 <= i < b.drop_last().len() implies b.drop_last()[i] != sep by {
            assert(b[i] != sep);
        }
        lemma_last_piece(a, b.drop_last(), sep);
        assert(s.drop_last() =~= a.push(sep) + b.drop_last());
        assert(s.last() == b.last());
        assert(b.last() == b[b.len() - 1]);
        let before = text::pieces(a, sep).push(b.drop_last());
        assert(before.drop_last() =~= text::pieces(a, sep));
        assert(b.drop_last().push(b.last()) =~= b);
    }
}

/// A numeral reads as itself: it holds no colon and no white space.
proof fn lemma_numeral_piece(s: Seq<char>)
    requires
        s.len() > 0,
        forall|i: int| 0 <= i < s.len() ==> text::is_digit(#[trigger] s[i]) || s[i] == '-',
    ensures
        !s.contains(':'),
        text::trimmed(s) == s,
{
    assert(text::is_digit(s[0]) || s[0] == '-');
    assert(text::is_digit(s[s.len() - 1]) || s[s.len() - 1] == '-');
}

/// Whether a text reads as the number `n` between colons.
pub open spec fn reads_as(s: Seq<char>, n: int) -> bool {
    !s.contains(':') && text::numeral(text::trimmed(s)) == Some(n)
}

/// A numeral reads as its number, padded or not.
proof fn lemma_numeral_reads(n: int)
    requires
        fits(n),
    ensures
        reads_as(text::integer_text(n), n),
        reads_as(text::two_digit_text(n), n),
{
    text::lemma_numeral_chars(n);
    text::lemma_integer_text(n);
    lemma_numeral_piece(text::integer_text(n));
    lemma_numeral_piece(text::two_digit_text(n));
}

/// One more number behind a colon is one more part.
proof fn lemma_one_more_part(front: Seq<char>, parts: Seq<int>, last: Seq<char>, n: int)
    requires
        length_parts(front) == Some(parts),
        reads_as(last, n),
    ensures
        length_parts(front.push(':') + last) == Some(parts.push(n)),
{
    lemma_last_piece(front, last, ':');
    let before = text::pieces(front, ':');
    let after = before.push(last);
    assert forall|i: int| 0 <= i < after.len() implies text::numeral(
        text::trimmed(#[trigger] after[i]),
    ) is Some by {
        if i < before.len() {
            assert(after[i] == before[i]);
        }
    }
    assert(numbers(after) =~= parts.push(n));
}

/// A number alone is one part.
proof fn lemma_single_part(s: Seq<char>, n: int)
    requires
        reads_as(s, n),
    ensures
        length_parts(s) == Some(seq![n]),
{
    lemma_one_piece(s, ':');
    assert(numbers(seq![s]) =~= seq![n]);
}

/// Two written numbers are two parts.
proof fn lemma_two_parts(mins: int, secs: int)
    requires
        fits(mins),
        fits(secs),
    ensures
        length_parts(text::integer_text(mins).push(':') + text::two_digit_text(secs)) == Some(
            seq![mins, secs],
        ),
{
    lemma_numeral_reads(mins);
    lemma_numeral_reads(secs);
    lemma_single_part(text::integer_text(mins), mins);
    lemma_one_more_part(text::integer_text(mins), seq![mins], text::two_digit_text(secs), secs);
    assert(seq![mins].push(secs) =~= seq![mins, secs]);
}

/// Three written numbers are three parts.
proof fn lemma_three_parts(hours: int, mins: int, secs: int)
    requires
        fits(hours),
        fits(mins),
        fits(secs),
    ensures
        length_parts(
            (text::integer_text(hours).push(':') + text::two_digit_text(mins)).push(':')
                + text::two_digit_text(secs),
        ) == Some(seq![hours, mins, secs]),
{
    lemma_numeral_reads(hours);
    lemma_numeral_reads(mins);
    lemma_numeral_reads(secs);
    let s0 = text::integer_text(hours);
    let s1 = text::two_digit_text(mins);
    lemma_single_part(s0, hours);
    lemma_one_more_part(s0, seq![hours], s1, mins);
    lemma_one_more_part(
        s0.push(':') + s1,
        seq![hours].push(mins),
        text::two_digit_text(secs),
        secs,
    );
    assert(seq![hours].push(mins).push(secs) =~= seq![hours, mins, secs]);
}

/// The numbers of a written length fit in 64 bits.
proof fn lemma_clock_fits(ms: int)
    requires
        fits(ms),
    ensures
        ({
            let total = quotient(ms, 1000);
            &&& fits(quotient(total, 60))
            &&& fits(remainder(total, 60))
            &&& fits(quotient(total, 3600))
            &&& fits(quotient(remainder(total, 3600), 60))
        }),
{
    let total = quotient(ms, 1000);
    assert(fits(total));
    lemma_clock(total);
}

/// The parts of a written length.
proof fn lemma_written_parts(ms: int)
    requires
        fits(ms),
    ensures
        ({
            let total = quotient(ms, 1000);
            let parts = length_parts(length_text(ms));
            if quotient(total, 3600) == 0 {
                parts == Some(seq![quotient(total, 60), remainder(total, 60)])
            } else {
                parts == Some(
                    seq![
                        quotient(total, 3600),
                        quotient(remainder(total, 3600), 60),
                        remainder(total, 60),
                    ],
                )
            }
        }),
{
    let total = quotient(ms, 1000);
    lemma_clock_fits(ms);
    if quotient(total, 3600) == 0 {
        lemma_two_parts(quotient(total, 60), remainder(total, 60));
    } else {
        lemma_three_parts(
            quotient(total, 3600),
            quotient(remainder(total, 3600), 60),
            remainder(total, 60),
        );
    }
}

/// The hours, minutes and seconds of a number of seconds that is not negative add up to it, and
/// none is more than it.
proof fn lemma_clock_up(t: int)
    requires
        0 <= t,
    ensures
        t / 60 == 60 * (t / 3600) + (t - 3600 * (t / 3600)) / 60,
        0 <= 60 * (t / 60) <= t,
        0 <= 3600 * (t / 3600) <= t,
        0 <= (t - 3600 * (t / 3600)) / 60,
        0 <= t - 60 * (t / 60) < 60,
{
    let h = t / 3600;
    let r = t - 3600 * h;
    let m = r / 60;
    assert(0 <= r < 3600);
    assert(0 <= r - 60 * m < 60);
    assert(60 * (60 * h + m) <= t < 60 * (60 * h + m) + 60);
}

/// The same of any number of seconds, all of whose parts have its sign.
proof fn lemma_clock(t: int)
    ensures
        ({
            let h = quotient(t, 3600);
            let m = quotient(remainder(t, 3600), 60);
            let u = remainder(t, 60);
            &&& h * 3600 + m * 60 + u == t
            &&& quotient(t, 60) * 60 + u == t
            &&& t >= 0 ==> 0 <= h * 3600 <= t && 0 <= m * 60 <= t && 0 <= quotient(t, 60) * 60
                <= t && h * 3600 + m * 60 <= t
            &&& t < 0 ==> t <= h * 3600 <= 0 && t <= m * 60 <= 0 && t <= quotient(t, 60) * 60
                <= 0 && t <= h * 3600 + m * 60
        }),
{
    if t >= 0 {
        lemma_clock_up(t);
    } else {
        lemma_clock_up(-t);
        let h = quotient(t, 3600);
        assert(h == -((-t) / 3600));
        assert(remainder(t, 3600) == -((-t) - 3600 * ((-t) / 3600)));
        let r = (-t) - 3600 * ((-t) / 3600);
        assert(quotient(-r, 60) == -(r / 60));
    }
}

/// Reading a written length back gives the length, to the second. This holds of every length
/// of either shape, and such a text always stays within 64 bits.
pub proof fn law_length_round_trip(ms: int)
    requires
        fits(ms),
    ensures
        length_fits(Some(length_text(ms))),
        length_ms(Some(length_text(ms))) == ms - remainder(ms, 1000),
{
    lemma_written_parts(ms);
    lemma_clock(quotient(ms, 1000));
}

/// A length is read as a clock is: a number alone is seconds, two are minutes and seconds, three
/// are hours, minutes and seconds. More than three mean nothing.
pub proof fn law_lengths_read_as_a_clock(
    a: Seq<char>,
    x: int,
    b: Seq<char>,
    y: int,
    c: Seq<char>,
    z: int,
    d: Seq<char>,
    w: int,
)
    requires
        !a.contains(':') && text::numeral(text::trimmed(a)) == Some(x),
        !b.contains(':') && text::numeral(text::trimmed(b)) == Some(y),
        !c.contains(':') && text::numeral(text::trimmed(c)) == Some(z),
        !d.contains(':') && text::numeral(text::trimmed(d)) == Some(w),
    ensures
        length_ms(None) == 0,
        length_ms(Some(a)) == 1000 * x,
        length_ms(Some(a.push(':') + b)) == 1000 * (60 * x + y),
        length_ms(Some((a.push(':') + b).push(':') + c)) == 1000 * (3600 * x + 60 * y + z),
        length_ms(Some(((a.push(':') + b).push(':') + c).push(':') + d)) == 0,
{
    let two = a.push(':') + b;
    let three = two.push(':') + c;
    lemma_single_part(a, x);
    lemma_one_more_part(a, seq![x], b, y);
    lemma_one_more_part(two, seq![x].push(y), c, z);
    lemma_one_more_part(three, seq![x].push(y).push(z), d, w);
}

/// A length with anything but a number between its colons is no length.
pub proof fn law_unreadable_lengths_are_nothing(s: Seq<char>, i: int)
    requires
        0 <= i < text::pieces(s, ':').len(),
        text::numeral(text::trimmed(text::pieces(s, ':')[i])) is None,
    ensures
        length_ms(Some(s)) == 0,
{
}

/// A written length ends in a colon and two digits, whatever the seconds, and from an hour on it has
/// two digits of minutes between two colons.
pub proof fn law_lengths_are_padded(ms: int)
    requires
        0 <= ms <= i64::MAX,
    ensures
        ({
            let s = length_text(ms);
            let n = s.len() as int;
            &&& n >= 4
            &&& s[n - 3] == ':'
            &&& text::is_digit(s[n - 2])
            &&& text::is_digit(s[n - 1])
            &&& ms >= 3_600_000 ==> n >= 7 && s[n - 6] == ':' && text::is_digit(s[n - 5])
                && text::is_digit(s[n - 4])
        }),
{
    let total = quotient(ms, 1000);
    let secs = remainder(total, 60);
    assert(0 <= secs < 60);
    lemma_two_digits(secs);
    if quotient(total, 3600) == 0 {
        text::lemma_numeral_chars(quotient(total, 60));
    } else {
        let mins = quotient(remainder(total, 3600), 60);
        assert(0 <= mins < 60);
        lemma_two_digits(mins);
        text::lemma_numeral_chars(quotient(total, 3600));
    }
}

/// A number below a hundred is padded to two digits.
proof fn lemma_two_digits(n: int)
    requires
        0 <= n < 100,
    ensures
        text::two_digit_text(n).len() == 2,
        text::is_digit(text::two_digit_text(n)[0]),
        text::is_digit(text::two_digit_text(n)[1]),
{
    reveal_with_fuel(text::natural_text, 3);
}

/// A length that is written and read again is the length, to the second.
pub proof fn law_writing_and_reading_a_length(ms: i64, text: String, line: &str, back: i64)
    requires
        0 <= ms,
        call_ensures(format_duration, (ms,), text),
        line@ == text@,
        call_ensures(parse_duration_ms, (Some(line),), back),
    ensures
        back == ms - ms % 1000,
{
    law_length_round_trip(ms as int);
}

} // verus!
