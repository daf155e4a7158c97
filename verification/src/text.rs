//! Text over the character view of strings: comparing, trimming, splitting, numerals.
//!
//! Every function here is stated over `Seq<char>`, the view of a string, so that the rules built
//! on top of it never speak of bytes.

use vstd::prelude::*;

verus! {

/// Appends one character, as `String::push` documents it.
pub assume_specification[ String::push ](s: &mut String, c: char)
    ensures
        final(s)@ == old(s)@.push(c),
;

// --- reading and building -----------------------------------------------------------------

/// The characters of a string, in order.
pub fn chars_of(s: &str) -> (r: Vec<char>)
    ensures
        r@ == s@,
{
    let mut out: Vec<char> = Vec::new();
    for c in it: s.chars()
        invariant
            out@ == it.seq().take(it.index()),
            it.seq() == s@,
    {
        out.push(c);
    }
    out
}

/// The string that holds the given characters.
pub fn string_of(chars: &Vec<char>) -> (r: String)
    ensures
        r@ == chars@,
{
    let mut out = String::new();
    for i in 0..chars.len()
        invariant
            out@ == chars@.take(i as int),
    {
        out.push(chars[i]);
    }
    assert(chars@.take(chars@.len() as int) =~= chars@);
    out
}

/// The string that holds `chars[from..to]`.
pub fn string_between(chars: &Vec<char>, from: usize, to: usize) -> (r: String)
    requires
        from <= to <= chars@.len(),
    ensures
        r@ == chars@.subrange(from as int, to as int),
{
    let mut out = String::new();
    for i in from..to
        invariant
            from <= to <= chars@.len(),
            out@ == chars@.subrange(from as int, i as int),
    {
        out.push(chars[i]);
    }
    out
}

/// The two strings, one after the other.
pub fn joined(a: &str, b: &str) -> (r: String)
    ensures
        r@ == a@ + b@,
{
    let mut out = a.to_owned();
    out.append(b);
    out
}

// --- comparing ----------------------------------------------------------------------------

/// Whether two strings hold the same characters.
pub fn same(a: &str, b: &str) -> (r: bool)
    ensures
        r == (a@ == b@),
{
    let x = chars_of(a);
    let y = chars_of(b);
    if x.len() != y.len() {
        return false;
    }
    for i in 0..x.len()
        invariant
            x@ == a@,
            y@ == b@,
            x.len() == y.len(),
            forall|j: int| 0 <= j < i ==> x@[j] == y@[j],
    {
        if x[i] != y[i] {
            return false;
        }
    }
    assert(a@ =~= b@);
    true
}

/// Whether an optional string is there and holds the characters of `b`.
pub fn is_text(a: &Option<String>, b: &str) -> (r: bool)
    ensures
        r == (opt_text(*a) == Some(b@)),
{
    match a {
        Some(s) => same(s.as_str(), b),
        None => false,
    }
}

/// The view of an optional string.
pub open spec fn opt_text(s: Option<String>) -> Option<Seq<char>> {
    match s {
        Some(t) => Some(t@),
        None => None,
    }
}

/// A copy of an optional string.
pub fn copy_opt(s: &Option<String>) -> (r: Option<String>)
    ensures
        r == *s,
{
    match s {
        Some(t) => Some(t.clone()),
        None => None,
    }
}

/// The view of an optional string slice.
pub open spec fn opt_str(s: Option<&str>) -> Option<Seq<char>> {
    match s {
        Some(t) => Some(t@),
        None => None,
    }
}

/// An optional string, borrowed.
pub fn as_opt_str(s: &Option<String>) -> (r: Option<&str>)
    ensures
        opt_str(r) == opt_text(*s),
{
    match s {
        Some(t) => Some(t.as_str()),
        None => None,
    }
}

/// Whether two optional strings are both absent or hold the same characters.
pub fn same_opt(a: &Option<String>, b: &Option<String>) -> (r: bool)
    ensures
        r == (opt_text(*a) == opt_text(*b)),
{
    match (a, b) {
        (Some(x), Some(y)) => *x == *y,
        (None, None) => true,
        _ => false,
    }
}

// --- prefixes -----------------------------------------------------------------------------

/// Whether `s` starts with `prefix`.
pub open spec fn has_prefix(s: Seq<char>, prefix: Seq<char>) -> bool {
    prefix.len() <= s.len() && s.take(prefix.len() as int) == prefix
}

/// `s` without `prefix` where it starts with it, `s` itself otherwise.
pub open spec fn without_prefix(s: Seq<char>, prefix: Seq<char>) -> Seq<char> {
    if has_prefix(s, prefix) {
        s.skip(prefix.len() as int)
    } else {
        s
    }
}

/// Whether `s` starts with `prefix`.
pub fn starts_with(s: &str, prefix: &str) -> (r: bool)
    ensures
        r == has_prefix(s@, prefix@),
{
    let x = chars_of(s);
    let y = chars_of(prefix);
    if y.len() > x.len() {
        return false;
    }
    for i in 0..y.len()
        invariant
            x@ == s@,
            y@ == prefix@,
            y.len() <= x.len(),
            forall|j: int| 0 <= j < i ==> x@[j] == y@[j],
    {
        if x[i] != y[i] {
            assert(s@.take(prefix@.len() as int)[i as int] == s@[i as int]);
            return false;
        }
    }
    assert(s@.take(prefix@.len() as int) =~= prefix@);
    true
}

/// `s` without `prefix` where it starts with it, a copy of `s` otherwise.
pub fn strip_prefix(s: &str, prefix: &str) -> (r: String)
    ensures
        r@ == without_prefix(s@, prefix@),
{
    if starts_with(s, prefix) {
        let x = chars_of(s);
        let n: usize = prefix.unicode_len();
        let out = string_between(&x, n, x.len());
        assert(out@ =~= s@.skip(prefix@.len() as int));
        out
    } else {
        s.to_owned()
    }
}

/// Whether `c` occurs in `s`.
pub fn has_char(s: &str, c: char) -> (r: bool)
    ensures
        r == s@.contains(c),
{
    let x = chars_of(s);
    for i in 0..x.len()
        invariant
            x@ == s@,
            forall|j: int| 0 <= j < i ==> x@[j] != c,
    {
        if x[i] == c {
            assert(s@[i as int] == c);
            return true;
        }
    }
    false
}

// --- white space --------------------------------------------------------------------------

/// The characters with the Unicode property White_Space.
pub open spec fn is_white_space(c: char) -> bool {
    ||| 0x9 <= c as u32 <= 0xD
    ||| c as u32 == 0x20
    ||| c as u32 == 0x85
    ||| c as u32 == 0xA0
    ||| c as u32 == 0x1680
    ||| 0x2000 <= c as u32 <= 0x200A
    ||| c as u32 == 0x2028
    ||| c as u32 == 0x2029
    ||| c as u32 == 0x202F
    ||| c as u32 == 0x205F
    ||| c as u32 == 0x3000
}

/// Whether `c` is white space.
pub fn white_space(c: char) -> (r: bool)
    ensures
        r == is_white_space(c),
{
    let n: u32 = c as u32;
    (0x9 <= n && n <= 0xD) || n == 0x20 || n == 0x85 || n == 0xA0 || n == 0x1680 || (0x2000 <= n
        && n <= 0x200A) || n == 0x2028 || n == 0x2029 || n == 0x202F || n == 0x205F || n == 0x3000
}

/// `s` without the white space in front.
pub open spec fn trim_start(s: Seq<char>) -> Seq<char>
    decreases s.len(),
{
    if s.len() > 0 && is_white_space(s[0]) {
        trim_start(s.drop_first())
    } else {
        s
    }
}

/// `s` without the white space behind.
pub open spec fn trim_end(s: Seq<char>) -> Seq<char>
    decreases s.len(),
{
    if s.len() > 0 && is_white_space(s.last()) {
        trim_end(s.drop_last())
    } else {
        s
    }
}

/// `s` without the white space around it.
pub open spec fn trimmed(s: Seq<char>) -> Seq<char> {
    trim_end(trim_start(s))
}

/// The characters without the white space around them.
pub fn trim_chars(x: &Vec<char>) -> (r: Vec<char>)
    ensures
        r@ == trimmed(x@),
{
    let mut a: usize = 0;
    assert(x@.skip(0) =~= x@);
    while a < x.len() && white_space(x[a])
        invariant
            a <= x.len(),
            trim_start(x@) == trim_start(x@.skip(a as int)),
        decreases x.len() - a,
    {
        assert(x@.skip(a as int).drop_first() =~= x@.skip(a + 1));
        a = a + 1;
    }
    assert(trim_start(x@) == x@.skip(a as int));
    let mut b: usize = x.len();
    assert(x@.subrange(a as int, b as int) =~= x@.skip(a as int));
    while a < b && white_space(x[b - 1])
        invariant
            a <= b <= x.len(),
            trimmed(x@) == trim_end(x@.subrange(a as int, b as int)),
        decreases b,
    {
        assert(x@.subrange(a as int, b as int).drop_last() =~= x@.subrange(a as int, b - 1));
        b = b - 1;
    }
    assert(trimmed(x@) == x@.subrange(a as int, b as int));
    let mut out: Vec<char> = Vec::new();
    for i in a..b
        invariant
            a <= b <= x.len(),
            out@ == x@.subrange(a as int, i as int),
    {
        out.push(x[i]);
    }
    out
}

/// The string without the white space around it.
pub fn trim(s: &str) -> (r: String)
    ensures
        r@ == trimmed(s@),
{
    string_of(&trim_chars(&chars_of(s)))
}

// --- splitting ----------------------------------------------------------------------------

/// The pieces of `s` between the occurrences of `sep`: one more than there are occurrences.
pub open spec fn pieces(s: Seq<char>, sep: char) -> Seq<Seq<char>>
    decreases s.len(),
{
    if s.len() == 0 {
        seq![Seq::<char>::empty()]
    } else {
        let before = pieces(s.drop_last(), sep);
        if s.last() == sep {
            before.push(Seq::<char>::empty())
        } else {
            before.drop_last().push(before.last().push(s.last()))
        }
    }
}

/// The views of a list of character lists.
pub open spec fn views(v: Seq<Vec<char>>) -> Seq<Seq<char>> {
    Seq::new(v.len(), |i: int| v[i]@)
}

/// Splits `s` at every occurrence of `sep`.
pub fn split(s: &str, sep: char) -> (r: Vec<Vec<char>>)
    ensures
        views(r@) == pieces(s@, sep),
{
    let x = chars_of(s);
    let mut done: Vec<Vec<char>> = Vec::new();
    let mut piece: Vec<char> = Vec::new();
    assert(x@.take(0) =~= Seq::<char>::empty());
    assert(views(done@).push(piece@) =~= pieces(x@.take(0), sep));
    for i in 0..x.len()
        invariant
            x@ == s@,
            views(done@).push(piece@) == pieces(x@.take(i as int), sep),
    {
        let c = x[i];
        let ghost before = views(done@);
        let ghost was = piece@;
        assert(x@.take(i + 1).drop_last() =~= x@.take(i as int));
        assert(x@.take(i + 1).last() == c);
        assert(before.push(was).drop_last() =~= before);
        if c == sep {
            let mut fresh: Vec<char> = Vec::new();
            core::mem::swap(&mut fresh, &mut piece);
            done.push(fresh);
            assert(views(done@) =~= before.push(was));
        } else {
            piece.push(c);
        }
        assert(views(done@).push(piece@) =~= pieces(x@.take(i + 1), sep));
    }
    assert(x@.take(x@.len() as int) =~= x@);
    let ghost before = views(done@);
    let ghost was = piece@;
    done.push(piece);
    assert(views(done@) =~= before.push(was));
    done
}

// --- numerals -----------------------------------------------------------------------------

/// Whether `c` is an ASCII decimal digit.
pub open spec fn is_digit(c: char) -> bool {
    '0' <= c <= '9'
}

/// Whether every character is an ASCII decimal digit.
pub open spec fn all_digits(s: Seq<char>) -> bool {
    forall|i: int| 0 <= i < s.len() ==> is_digit(#[trigger] s[i])
}

/// The number that a run of decimal digits writes.
pub open spec fn digits_value(s: Seq<char>) -> int
    decreases s.len(),
{
    if s.len() == 0 {
        0
    } else {
        10 * digits_value(s.drop_last()) + (s.last() as int - '0' as int)
    }
}

/// The digits of a numeral: what follows a leading sign.
pub open spec fn unsigned_part(s: Seq<char>) -> Seq<char> {
    if s.len() > 0 && (s[0] == '+' || s[0] == '-') {
        s.skip(1)
    } else {
        s
    }
}

/// The integer that `s` writes: an optional sign, then at least one decimal digit and nothing
/// else, with a value that fits in 64 bits.
pub open spec fn numeral(s: Seq<char>) -> Option<int> {
    let digits = unsigned_part(s);
    let value = if s.len() > 0 && s[0] == '-' {
        -digits_value(digits)
    } else {
        digits_value(digits)
    };
    if digits.len() > 0 && all_digits(digits) && i64::MIN <= value <= i64::MAX {
        Some(value)
    } else {
        None
    }
}

/// A longer run of digits never writes a smaller number.
pub proof fn lemma_digits_monotone(s: Seq<char>, k: int)
    requires
        all_digits(s),
        0 <= k <= s.len(),
    ensures
        0 <= digits_value(s.take(k)) <= digits_value(s),
    decreases s.len(),
{
    if s.len() == 0 {
        assert(s.take(k) =~= s);
    } else if k == s.len() {
        assert(s.take(k) =~= s);
        assert(s.drop_last() =~= s.take(k - 1));
        assert(is_digit(s.last()));
        lemma_digits_monotone(s.drop_last(), 0);
        assert(s.drop_last().take(0) =~= Seq::<char>::empty());
    } else {
        assert(all_digits(s.drop_last()));
        lemma_digits_monotone(s.drop_last(), k);
        assert(s.drop_last().take(k) =~= s.take(k));
        assert(is_digit(s.last()));
    }
}

/// Reads a signed decimal integer.
pub fn parse_i64(x: &Vec<char>) -> (r: Option<i64>)
    ensures
        r is Some <==> numeral(x@) is Some,
        r is Some ==> r->0 == numeral(x@)->0,
{
    let signed: bool = x.len() > 0 && (x[0] == '+' || x[0] == '-');
    let negative: bool = x.len() > 0 && x[0] == '-';
    let first: usize = if signed { 1 } else { 0 };
    let ghost digits = unsigned_part(x@);
    assert(digits =~= x@.skip(first as int));
    if first >= x.len() {
        return None;
    }
    let mut value: i128 = 0;
    let mut i: usize = first;
    assert(digits.take(0) =~= Seq::<char>::empty());
    while i < x.len()
        invariant
            first <= i <= x.len(),
            first <= 1,
            digits == x@.skip(first as int),
            0 <= value <= 9_223_372_036_854_775_808,
            forall|j: int| 0 <= j < i - first ==> is_digit(#[trigger] digits[j]),
            value == digits_value(digits.take(i - first)),
            digits == unsigned_part(x@),
        decreases x.len() - i,
    {
        let c = x[i];
        assert(digits[i - first] == c);
        if c < '0' || c > '9' {
            return None;
        }
        let d: u32 = c as u32 - '0' as u32;
        let ghost k = i - first;
        assert(digits.take(k + 1).drop_last() =~= digits.take(k));
        assert(digits.take(k + 1).last() == c);
        value = 10 * value + d as i128;
        i = i + 1;
        if value > 9_223_372_036_854_775_808 {
            proof {
                if all_digits(digits) {
                    lemma_digits_monotone(digits, k + 1);
                }
            }
            return None;
        }
    }
    assert(digits.take(digits.len() as int) =~= digits);
    assert(all_digits(digits));
    if negative {
        value = -value;
    }
    if value <= 9_223_372_036_854_775_807 {
        Some(value as i64)
    } else {
        None
    }
}

/// The decimal digit for a value below ten.
pub open spec fn digit_char(d: int) -> char {
    ('0' as int + d) as char
}

/// The decimal numeral of a non-negative integer, without leading zeros.
pub open spec fn natural_text(n: int) -> Seq<char>
    decreases n,
{
    if n < 10 {
        seq![digit_char(n)]
    } else {
        natural_text(n / 10).push(digit_char(n % 10))
    }
}

/// The decimal numeral of an integer.
pub open spec fn integer_text(n: int) -> Seq<char> {
    if n < 0 {
        seq!['-'] + natural_text(-n)
    } else {
        natural_text(n)
    }
}

/// The decimal numeral of an integer, with a zero in front where it would be one character long.
pub open spec fn two_digit_text(n: int) -> Seq<char> {
    if 0 <= n < 10 {
        seq!['0', digit_char(n)]
    } else {
        integer_text(n)
    }
}

/// The decimal digit of a value below ten.
fn digit(d: u64) -> (c: char)
    requires
        d < 10,
    ensures
        c == digit_char(d as int),
{
    match d {
        0 => '0',
        1 => '1',
        2 => '2',
        3 => '3',
        4 => '4',
        5 => '5',
        6 => '6',
        7 => '7',
        8 => '8',
        _ => '9',
    }
}

/// Appends the decimal numeral of `n`.
pub fn push_natural(out: &mut String, n: u64)
    ensures
        final(out)@ == old(out)@ + natural_text(n as int),
    decreases n,
{
    if n >= 10 {
        push_natural(out, n / 10);
    }
    out.push(digit(n % 10));
    assert(out@ =~= old(out)@ + natural_text(n as int));
}

/// Appends the decimal numeral of `n`, with its sign where it is negative.
pub fn push_integer(out: &mut String, n: i64)
    ensures
        final(out)@ == old(out)@ + integer_text(n as int),
{
    if n < 0 {
        out.push('-');
        let magnitude: u64 = (-(n as i128)) as u64;
        push_natural(out, magnitude);
        assert(out@ =~= old(out)@ + integer_text(n as int));
    } else {
        push_natural(out, n as u64);
    }
}

/// Appends the decimal numeral of `n`, at least two characters long.
pub fn push_two_digits(out: &mut String, n: i64)
    ensures
        final(out)@ == old(out)@ + two_digit_text(n as int),
{
    if 0 <= n && n < 10 {
        out.push('0');
        out.push(digit(n as u64));
        assert(out@ =~= old(out)@ + two_digit_text(n as int));
    } else {
        push_integer(out, n);
    }
}

/// Reading a numeral back gives the number it was written from.
pub proof fn lemma_natural_text(n: int)
    requires
        0 <= n,
    ensures
        natural_text(n).len() > 0,
        all_digits(natural_text(n)),
        digits_value(natural_text(n)) == n,
    decreases n,
{
    if n >= 10 {
        lemma_natural_text(n / 10);
        let head = natural_text(n / 10);
        assert(natural_text(n).drop_last() =~= head);
        assert forall|i: int| 0 <= i < natural_text(n).len() implies is_digit(
            #[trigger] natural_text(n)[i],
        ) by {
            if i < head.len() {
                assert(natural_text(n)[i] == head[i]);
            }
        }
    } else {
        reveal_with_fuel(digits_value, 2);
        assert(natural_text(n).drop_last() =~= Seq::<char>::empty());
    }
}

/// Reading the numeral of a 64-bit integer back gives that integer, padded or not.
pub proof fn lemma_integer_text(n: int)
    requires
        i64::MIN <= n <= i64::MAX,
    ensures
        numeral(integer_text(n)) == Some(n),
        numeral(two_digit_text(n)) == Some(n),
{
    if n < 0 {
        lemma_natural_text(-n);
        assert(integer_text(n).skip(1) =~= natural_text(-n));
    } else {
        lemma_natural_text(n);
        assert(is_digit(natural_text(n)[0]));
        if n < 10 {
            reveal_with_fuel(digits_value, 3);
            let padded = two_digit_text(n);
            assert(padded.drop_last() =~= seq!['0']);
            assert(padded.drop_last().drop_last() =~= Seq::<char>::empty());
        }
    }
}

/// A numeral holds digits and at most a sign: no other character occurs in it.
pub proof fn lemma_numeral_chars(n: int)
    requires
        i64::MIN <= n <= i64::MAX,
    ensures
        integer_text(n).len() > 0,
        two_digit_text(n).len() > 0,
        forall|i: int|
            0 <= i < integer_text(n).len() ==> is_digit(#[trigger] integer_text(n)[i])
                || integer_text(n)[i] == '-',
        forall|i: int|
            0 <= i < two_digit_text(n).len() ==> is_digit(#[trigger] two_digit_text(n)[i])
                || two_digit_text(n)[i] == '-',
{
    if n < 0 {
        lemma_natural_text(-n);
        assert forall|i: int| 0 <= i < integer_text(n).len() implies is_digit(
            #[trigger] integer_text(n)[i],
        ) || integer_text(n)[i] == '-' by {
            if i > 0 {
                assert(integer_text(n)[i] == natural_text(-n)[i - 1]);
            }
        }
    } else {
        lemma_natural_text(n);
    }
}

/// The lower-case hexadecimal digit for a value below sixteen.
pub open spec fn hex_char(d: int) -> char {
    if d < 10 {
        ('0' as int + d) as char
    } else {
        ('a' as int + (d - 10)) as char
    }
}

/// The last `width` hexadecimal digits of `n`, with zeros in front.
pub open spec fn hex_text(n: int, width: nat) -> Seq<char>
    decreases width,
{
    if width == 0 {
        Seq::empty()
    } else {
        hex_text(n / 16, (width - 1) as nat).push(hex_char(n % 16))
    }
}

fn hex_digit(d: u64) -> (c: char)
    requires
        d < 16,
    ensures
        c == hex_char(d as int),
{
    match d {
        10 => 'a',
        11 => 'b',
        12 => 'c',
        13 => 'd',
        14 => 'e',
        15 => 'f',
        _ => digit(d),
    }
}

/// Appends the last `width` hexadecimal digits of `n`.
pub fn push_hex(out: &mut String, n: u64, width: usize)
    ensures
        final(out)@ == old(out)@ + hex_text(n as int, width as nat),
    decreases width,
{
    if width > 0 {
        push_hex(out, n / 16, width - 1);
        out.push(hex_digit(n % 16));
    }
    assert(out@ =~= old(out)@ + hex_text(n as int, width as nat));
}

// --- what these readings are --------------------------------------------------------------

/// White space in front goes whole, and nothing else.
proof fn lemma_trim_start(s: Seq<char>) -> (k: int)
    ensures
        0 <= k <= s.len(),
        trim_start(s) == s.skip(k),
        forall|i: int| 0 <= i < k ==> is_white_space(#[trigger] s[i]),
        k < s.len() ==> !is_white_space(s[k]),
    decreases s.len(),
{
    if s.len() > 0 && is_white_space(s[0]) {
        let rest = s.drop_first();
        let k = lemma_trim_start(rest);
        assert(rest.skip(k) =~= s.skip(k + 1));
        assert forall|i: int| 0 <= i < k + 1 implies is_white_space(#[trigger] s[i]) by {
            if i > 0 {
                assert(rest[i - 1] == s[i]);
            }
        }
        if k < rest.len() {
            assert(rest[k] == s[k + 1]);
        }
        k + 1
    } else {
        assert(s.skip(0) =~= s);
        0
    }
}

/// White space behind goes whole, and nothing else.
proof fn lemma_trim_end(s: Seq<char>) -> (k: int)
    ensures
        0 <= k <= s.len(),
        trim_end(s) == s.take(k),
        forall|i: int| k <= i < s.len() ==> is_white_space(#[trigger] s[i]),
        k > 0 ==> !is_white_space(s[k - 1]),
    decreases s.len(),
{
    if s.len() > 0 && is_white_space(s.last()) {
        let rest = s.drop_last();
        let k = lemma_trim_end(rest);
        assert(rest.take(k) =~= s.take(k));
        assert forall|i: int| k <= i < s.len() implies is_white_space(#[trigger] s[i]) by {
            if i < rest.len() {
                assert(rest[i] == s[i]);
            }
        }
        k
    } else {
        assert(s.take(s.len() as int) =~= s);
        s.len() as int
    }
}

/// A trimmed text is the text between its first and its last character that is not white space:
/// nothing but white space is lost, and none is left at either end. Trimmed again it stays.
pub proof fn law_trimming_takes_only_the_space_around(s: Seq<char>) -> (r: (int, int))
    ensures
        0 <= r.0 <= r.1 <= s.len(),
        trimmed(s) == s.subrange(r.0, r.1),
        forall|i: int| 0 <= i < r.0 ==> is_white_space(#[trigger] s[i]),
        forall|i: int| r.1 <= i < s.len() ==> is_white_space(#[trigger] s[i]),
        trimmed(s).len() > 0 ==> !is_white_space(trimmed(s)[0]) && !is_white_space(
            trimmed(s).last(),
        ),
        trimmed(trimmed(s)) == trimmed(s),
{
    let a = lemma_trim_start(s);
    let rest = s.skip(a);
    let k = lemma_trim_end(rest);
    assert(rest.take(k) =~= s.subrange(a, a + k));
    assert forall|i: int| a + k <= i < s.len() implies is_white_space(#[trigger] s[i]) by {
        assert(rest[i - a] == s[i]);
    }
    let t = trimmed(s);
    if t.len() > 0 {
        assert(t[0] == s[a]);
        assert(t.last() == rest[k - 1]);
    }
    (a, a + k)
}

/// The pieces of a list, with `sep` between each two.
pub open spec fn rejoined(list: Seq<Seq<char>>, sep: char) -> Seq<char>
    decreases list.len(),
{
    if list.len() == 0 {
        Seq::empty()
    } else if list.len() == 1 {
        list[0]
    } else {
        rejoined(list.drop_last(), sep).push(sep) + list.last()
    }
}

/// Splitting loses nothing but the separators: with them put back between the pieces, the text is
/// what it was, and no piece holds one.
pub proof fn law_pieces_rejoin(s: Seq<char>, sep: char)
    ensures
        pieces(s, sep).len() > 0,
        rejoined(pieces(s, sep), sep) == s,
        forall|i: int| 0 <= i < pieces(s, sep).len() ==> !(#[trigger] pieces(s, sep)[i]).contains(sep),
    decreases s.len(),
{
    let list = pieces(s, sep);
    if s.len() == 0 {
        assert(list[0] =~= s);
    } else {
        let before = pieces(s.drop_last(), sep);
        law_pieces_rejoin(s.drop_last(), sep);
        assert(s =~= s.drop_last().push(s.last()));
        if s.last() == sep {
            assert(list.drop_last() =~= before);
            assert(rejoined(list, sep) =~= s);
        } else {
            let last = before.last().push(s.last());
            assert(list.drop_last() =~= before.drop_last());
            assert(rejoined(list, sep) =~= rejoined(before, sep).push(s.last()));
            assert forall|i: int| 0 <= i < list.len() implies !(#[trigger] list[i]).contains(sep) by {
                if i < before.len() - 1 {
                    assert(list[i] == before[i]);
                } else {
                    assert(!before[i].contains(sep));
                    if last.contains(sep) {
                        let j = last.index_of(sep);
                        assert(before.last()[j] == sep);
                    }
                }
            }
        }
    }
}

/// Decimal digits are read by their place: one more digit behind counts for itself, and the rest
/// for ten times as much.
pub proof fn law_digits_are_decimal(s: Seq<char>, c: char)
    requires
        '0' <= c <= '9',
    ensures
        digits_value(Seq::<char>::empty()) == 0,
        digits_value(s.push(c)) == 10 * digits_value(s) + (c as int - '0' as int),
{
    assert(s.push(c).drop_last() =~= s);
}

/// How many numbers `width` hexadecimal digits tell apart.
pub open spec fn hex_span(width: nat) -> int
    decreases width,
{
    if width == 0 {
        1
    } else {
        16 * hex_span((width - 1) as nat)
    }
}

/// Hexadecimal digits tell every two numbers apart that have no more digits than are written, and
/// each is one of the sixteen.
pub proof fn law_hex_tells_numbers_apart(n: int, m: int, width: nat)
    requires
        0 <= n < hex_span(width),
        0 <= m < hex_span(width),
    ensures
        hex_text(n, width).len() == width,
        hex_text(n, width) == hex_text(m, width) ==> n == m,
        forall|i: int|
            0 <= i < width ==> '0' <= #[trigger] hex_text(n, width)[i] <= '9' || 'a' <= hex_text(
                n,
                width,
            )[i] <= 'f',
    decreases width,
{
    if width > 0 {
        let w = (width - 1) as nat;
        law_hex_tells_numbers_apart(n / 16, m / 16, w);
        law_hex_tells_numbers_apart(m / 16, n / 16, w);
        let a = hex_text(n, width);
        let b = hex_text(m, width);
        assert(a.drop_last() =~= hex_text(n / 16, w));
        assert(b.drop_last() =~= hex_text(m / 16, w));
        if a == b {
            assert(a.last() == b.last());
            assert(hex_char(n % 16) == hex_char(m % 16));
            assert(n % 16 == m % 16);
            assert(n == 16 * (n / 16) + n % 16);
            assert(m == 16 * (m / 16) + m % 16);
        }
        assert forall|i: int| 0 <= i < width implies '0' <= #[trigger] a[i] <= '9' || 'a' <= a[i]
            <= 'f' by {
            if i < w {
                assert(a[i] == hex_text(n / 16, w)[i]);
            } else {
                assert(a[i] == hex_char(n % 16));
            }
        }
    }
}

/// A numeral is an optional sign and then digits alone, read with the sign, as long as the number
/// fits in 64 bits. Nothing else is one.
pub proof fn law_numerals_are_signed_digits(s: Seq<char>)
    requires
        s.len() > 0,
        forall|i: int| 0 <= i < s.len() ==> '0' <= #[trigger] s[i] <= '9',
    ensures
        digits_value(s) <= i64::MAX ==> numeral(s) == Some(digits_value(s)) && numeral(
            seq!['+'] + s,
        ) == Some(digits_value(s)),
        digits_value(s) > i64::MAX ==> numeral(s) is None,
        digits_value(s) <= i64::MAX + 1 ==> numeral(seq!['-'] + s) == Some(-digits_value(s)),
        digits_value(s) > i64::MAX + 1 ==> numeral(seq!['-'] + s) is None,
        numeral(Seq::<char>::empty()) is None,
        numeral(seq!['-']) is None,
        numeral(seq!['+']) is None,
{
    lemma_digits_monotone(s, 0);
    assert(s.take(0) =~= Seq::<char>::empty());
    assert((seq!['+'] + s).skip(1) =~= s);
    assert((seq!['-'] + s).skip(1) =~= s);
    assert(seq!['-'].skip(1) =~= Seq::<char>::empty());
    assert(seq!['+'].skip(1) =~= Seq::<char>::empty());
    assert(all_digits(s));
}

/// A text with any character that is neither a digit nor a leading sign is no number.
pub proof fn law_other_characters_are_no_number(s: Seq<char>, i: int)
    requires
        0 <= i < s.len(),
        !('0' <= s[i] <= '9'),
        i > 0 || (s[i] != '-' && s[i] != '+'),
    ensures
        numeral(s) is None,
{
    let digits = unsigned_part(s);
    if s[0] == '-' || s[0] == '+' {
        assert(digits[i - 1] == s[i]);
    } else {
        assert(digits[i] == s[i]);
    }
}

/// Of the ASCII characters, the blank and the controls from the tab to the carriage return are white
/// space, and no other.
pub proof fn law_ascii_white_space(c: char)
    requires
        c as u32 <= 0x7F,
    ensures
        is_white_space(c) == (c == ' ' || c == '\t' || c == '\n' || c == '\r' || c as u32 == 0xB
            || c as u32 == 0xC),
{
}

} // verus!
