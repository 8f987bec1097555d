//! Text as sequences of characters: the bridge between `str` / `String` and
//! the `Vec<char>` on which the scanners of this library work.

use vstd::prelude::*;

verus! {

/// Taken on faith of `String::push`: it appends the character to the end of
/// the string and changes nothing else.
pub assume_specification[ String::push ](s: &mut String, c: char)
    ensures
        final(s)@ == old(s)@.push(c),
;

/// The characters of `s`, in order.
pub fn to_chars(s: &str) -> (v: Vec<char>)
    ensures
        v@ == s@,
{
    let mut v: Vec<char> = Vec::new();
    for c in it: s.chars()
        invariant
            v@ == it.seq().take(it.index()),
            it.seq() == s@,
    {
        v.push(c);
    }
    v
}

/// The string made of the characters of `v`, in order.
pub fn from_chars(v: &Vec<char>) -> (s: String)
    ensures
        s@ == v@,
{
    let mut s = String::new();
    let mut i: usize = 0;
    while i < v.len()
        invariant
            i <= v.len(),
            s@ == v@.take(i as int),
        decreases v.len() - i,
    {
        s.push(v[i]);
        i += 1;
    }
    s
}

/// Whether two texts hold the same characters.
pub fn same_chars(a: &Vec<char>, b: &Vec<char>) -> (same: bool)
    ensures
        same == (a@ == b@),
{
    if a.len() != b.len() {
        return false;
    }
    let mut i: usize = 0;
    while i < a.len()
        invariant
            i <= a.len(),
            a.len() == b.len(),
            a@.take(i as int) == b@.take(i as int),
        decreases a.len() - i,
    {
        if a[i] != b[i] {
            return false;
        }
        assert(a@.take(i + 1) == a@.take(i as int).push(a@[i as int]));
        assert(b@.take(i + 1) == b@.take(i as int).push(b@[i as int]));
        i += 1;
    }
    assert(a@.take(a.len() as int) == a@);
    assert(b@.take(b.len() as int) == b@);
    true
}


/// Whether `c` is white space: one of the characters with the Unicode
/// property `White_Space`.
pub open spec fn is_white_space(c: char) -> bool {
    let n = c as u32;
    ||| 0x09 <= n <= 0x0d
    ||| n == 0x20
    ||| n == 0x85
    ||| n == 0xa0
    ||| n == 0x1680
    ||| 0x2000 <= n <= 0x200a
    ||| n == 0x2028
    ||| n == 0x2029
    ||| n == 0x202f
    ||| n == 0x205f
    ||| n == 0x3000
}

/// Taken on faith of `char::is_whitespace`: it accepts the characters with
/// the Unicode property `White_Space`, which are those of
/// [`is_white_space`], and no others.
pub assume_specification[ char::is_whitespace ](c: char) -> (b: bool)
    ensures
        b == is_white_space(c),
;

/// The lower-case form of a text, as `str::to_lowercase` gives it.
pub uninterp spec fn lowercased(text: Seq<char>) -> Seq<char>;

/// Taken on faith of `str::to_lowercase`: what it returns depends on the
/// characters of the text alone, so that [`lowercased`] can name it. Nothing
/// is claimed of the letters it changes.
pub assume_specification[ str::to_lowercase ](s: &str) -> (lower: String)
    ensures
        lower@ == lowercased(s@),
;

/// `s` without the white space it starts with.
pub open spec fn trim_start(s: Seq<char>) -> Seq<char>
    decreases s.len(),
{
    if s.len() > 0 && is_white_space(s[0]) {
        trim_start(s.drop_first())
    } else {
        s
    }
}

/// `s` without the white space it ends with.
pub open spec fn trim_end(s: Seq<char>) -> Seq<char>
    decreases s.len(),
{
    if s.len() > 0 && is_white_space(s.last()) {
        trim_end(s.drop_last())
    } else {
        s
    }
}

/// `s` without the white space around it.
pub open spec fn trimmed(s: Seq<char>) -> Seq<char> {
    trim_end(trim_start(s))
}

/// The characters of `s` without the white space around them.
pub fn trim_chars(s: &Vec<char>) -> (out: Vec<char>)
    ensures
        out@ == trimmed(s@),
{
    let mut from: usize = 0;
    assert(s@.subrange(0, s.len() as int) == s@);
    while from < s.len() && s[from].is_whitespace()
        invariant
            from <= s.len(),
            trim_start(s@) == trim_start(s@.subrange(from as int, s.len() as int)),
        decreases s.len() - from,
    {
        assert(s@.subrange(from as int, s.len() as int).drop_first() == s@.subrange(
            from + 1,
            s.len() as int,
        ));
        from += 1;
    }
    let ghost rest = s@.subrange(from as int, s.len() as int);
    assert(trim_start(s@) == rest);
    let mut to: usize = s.len();
    while to > from && s[to - 1].is_whitespace()
        invariant
            from <= to <= s.len(),
            trim_end(rest) == trim_end(s@.subrange(from as int, to as int)),
        decreases to - from,
    {
        assert(s@.subrange(from as int, to as int).drop_last() == s@.subrange(
            from as int,
            to - 1,
        ));
        to -= 1;
    }
    assert(trim_end(rest) == s@.subrange(from as int, to as int));
    let mut out: Vec<char> = Vec::new();
    let mut i: usize = from;
    while i < to
        invariant
            from <= i <= to <= s.len(),
            out@ == s@.subrange(from as int, i as int),
        decreases to - i,
    {
        out.push(s[i]);
        assert(s@.subrange(from as int, i + 1) == s@.subrange(from as int, i as int).push(
            s@[i as int],
        ));
        i += 1;
    }
    out
}

/// `text` without the white space around it.
pub fn trim(text: &str) -> (out: String)
    ensures
        out@ == trimmed(text@),
{
    let s = to_chars(text);
    let t = trim_chars(&s);
    from_chars(&t)
}

/// The ten decimal digits.
pub open spec fn digits() -> Seq<char> {
    seq!['0', '1', '2', '3', '4', '5', '6', '7', '8', '9']
}

/// `c` is a decimal digit.
pub open spec fn is_digit(c: char) -> bool {
    digits().contains(c)
}

/// The number that the digit `c` stands for.
pub open spec fn digit_value(c: char) -> nat {
    digits().index_of(c) as nat
}

/// `n` in decimal notation, without leading zeros.
pub open spec fn decimal(n: nat) -> Seq<char>
    decreases n,
{
    if n < 10 {
        seq![digits()[n as int]]
    } else {
        decimal(n / 10).push(digits()[(n % 10) as int])
    }
}

/// The number that a text of decimal digits stands for.
pub open spec fn digits_value(s: Seq<char>) -> nat
    decreases s.len(),
{
    if s.len() == 0 {
        0
    } else {
        digits_value(s.drop_last()) * 10 + digit_value(s.last())
    }
}

/// Every character of `s` is a decimal digit.
pub open spec fn all_digits(s: Seq<char>) -> bool {
    forall|i: int| 0 <= i < s.len() ==> is_digit(#[trigger] s[i])
}

/// The part of a number's text behind its sign.
pub open spec fn unsigned_part(s: Seq<char>) -> Seq<char> {
    if s.len() > 0 && (s[0] == '+' || s[0] == '-') {
        s.subrange(1, s.len() as int)
    } else {
        s
    }
}

/// The integer that `s` denotes: an optional `+` or `-`, then one or more
/// decimal digits and nothing else.
pub open spec fn parsed_number(s: Seq<char>) -> Option<int> {
    let body = unsigned_part(s);
    if body.len() == 0 || !all_digits(body) {
        None
    } else if s[0] == '-' {
        Some(-(digits_value(body) as int))
    } else {
        Some(digits_value(body) as int)
    }
}

/// The `i32` nearest to `v`.
pub open spec fn clamped_i32(v: int) -> i32 {
    if v > i32::MAX {
        i32::MAX
    } else if v < i32::MIN {
        i32::MIN
    } else {
        v as i32
    }
}

/// What `s` denotes, brought into the range of an `i32`: a number too large
/// for it counts as the largest, one too small as the smallest.
pub open spec fn parsed_clamped(s: Seq<char>) -> Option<i32> {
    match parsed_number(s) {
        Some(v) => Some(clamped_i32(v)),
        None => None,
    }
}

/// What `s` denotes as an unsigned number of at most `max`: nothing where it
/// starts with `-` or where the number is larger.
pub open spec fn parsed_unsigned(s: Seq<char>, max: nat) -> Option<nat> {
    match parsed_number(s) {
        Some(v) => if s[0] != '-' && v <= max {
            Some(v as nat)
        } else {
            None
        },
        None => None,
    }
}

/// The digit that stands for `d`.
fn digit_of(d: u64) -> (c: char)
    requires
        d < 10,
    ensures
        c == digits()[d as int],
{
    if d == 0 {
        '0'
    } else if d == 1 {
        '1'
    } else if d == 2 {
        '2'
    } else if d == 3 {
        '3'
    } else if d == 4 {
        '4'
    } else if d == 5 {
        '5'
    } else if d == 6 {
        '6'
    } else if d == 7 {
        '7'
    } else if d == 8 {
        '8'
    } else {
        '9'
    }
}

/// The number that `c` stands for, if it is a digit.
fn value_of(c: char) -> (d: Option<u64>)
    ensures
        match d {
            Some(v) => is_digit(c) && v == digit_value(c) && v < 10,
            None => !is_digit(c),
        },
{
    let ghost ds = digits();
    assert(ds[0] == '0' && ds[1] == '1' && ds[2] == '2' && ds[3] == '3' && ds[4] == '4' && ds[5]
        == '5' && ds[6] == '6' && ds[7] == '7' && ds[8] == '8' && ds[9] == '9');
    let d: Option<u64> = if c == '0' {
        Some(0)
    } else if c == '1' {
        Some(1)
    } else if c == '2' {
        Some(2)
    } else if c == '3' {
        Some(3)
    } else if c == '4' {
        Some(4)
    } else if c == '5' {
        Some(5)
    } else if c == '6' {
        Some(6)
    } else if c == '7' {
        Some(7)
    } else if c == '8' {
        Some(8)
    } else if c == '9' {
        Some(9)
    } else {
        None
    };
    proof {
        match d {
            Some(v) => {
                assert(ds[v as int] == c);
                assert(ds.contains(c));
                let k = ds.index_of(c);
                assert(0 <= k < 10 && ds[k] == c);
            },
            None => {
                if ds.contains(c) {
                    let k = choose|k: int| 0 <= k < ds.len() && ds[k] == c;
                    assert(false);
                }
            },
        }
    }
    d
}

/// Appends `n` in decimal notation to `out`.
pub fn push_decimal(out: &mut Vec<char>, n: u64)
    ensures
        final(out)@ == old(out)@ + decimal(n as nat),
    decreases n,
{
    if n >= 10 {
        push_decimal(out, n / 10);
    }
    out.push(digit_of(n % 10));
}

/// `n` in decimal notation.
pub fn decimal_text(n: u64) -> (out: String)
    ensures
        out@ == decimal(n as nat),
{
    let mut v: Vec<char> = Vec::new();
    push_decimal(&mut v, n);
    from_chars(&v)
}

/// What the digits of a text come to, held against a limit.
enum Digits {
    /// The text is empty or holds something else than digits.
    NoNumber,
    /// The digits stand for more than the limit.
    TooLarge,
    /// The digits stand for this number, which is at most the limit.
    Value(u64),
}

/// Reads the characters of `s` from `from` on as decimal digits and holds
/// their value against `limit`.
fn parse_digits(s: &Vec<char>, from: usize, limit: u64) -> (read: Digits)
    requires
        from <= s.len(),
    ensures
        ({
            let body = s@.subrange(from as int, s.len() as int);
            match read {
                Digits::NoNumber => body.len() == 0 || !all_digits(body),
                Digits::TooLarge => body.len() > 0 && all_digits(body) && digits_value(body)
                    > limit,
                Digits::Value(v) => body.len() > 0 && all_digits(body) && digits_value(body) == v
                    && v <= limit,
            }
        }),
{
    let ghost body = s@.subrange(from as int, s.len() as int);
    if from == s.len() {
        return Digits::NoNumber;
    }
    let mut acc: u128 = 0;
    let mut too_large: bool = false;
    let mut i: usize = from;
    while i < s.len()
        invariant
            from <= i <= s.len(),
            body == s@.subrange(from as int, s.len() as int),
            all_digits(body.take(i - from)),
            too_large ==> digits_value(body.take(i - from)) > limit,
            !too_large ==> acc == digits_value(body.take(i - from)) && acc <= limit,
        decreases s.len() - i,
    {
        let ghost prefix = body.take(i - from + 1);
        assert(prefix.drop_last() == body.take(i - from));
        assert(prefix.last() == s@[i as int]);
        match value_of(s[i]) {
            None => {
                assert(!is_digit(body[i - from]));
                return Digits::NoNumber;
            },
            Some(d) => {
                if !too_large {
                    acc = acc * 10 + (d as u128);
                    if acc > limit as u128 {
                        too_large = true;
                    }
                }
            },
        }
        i += 1;
    }
    assert(body.take(s.len() - from) == body);
    if too_large {
        Digits::TooLarge
    } else {
        Digits::Value(acc as u64)
    }
}

/// Reads `text` as a whole number and brings it into the range of an `i32`:
/// an optional sign, then digits and nothing else. A number beyond the range
/// gives the end of the range on its side.
pub fn parse_clamped(text: &str) -> (value: Option<i32>)
    ensures
        value == parsed_clamped(text@),
{
    let s = to_chars(text);
    if s.len() == 0 {
        return None;
    }
    let negative: bool = s[0] == '-';
    let from: usize = if s[0] == '+' || s[0] == '-' {
        1
    } else {
        0
    };
    assert(s@.subrange(0, s.len() as int) == s@);
    if negative {
        match parse_digits(&s, from, 0x8000_0000) {
            Digits::Value(v) => Some((0 - (v as i64)) as i32),
            Digits::TooLarge => Some(i32::MIN),
            Digits::NoNumber => None,
        }
    } else {
        match parse_digits(&s, from, 0x7fff_ffff) {
            Digits::Value(v) => Some(v as i32),
            Digits::TooLarge => Some(i32::MAX),
            Digits::NoNumber => None,
        }
    }
}

/// Reads `text` as an unsigned number of at most `max`, as `str::parse` does
/// for an unsigned type whose largest value is `max`.
pub fn parse_unsigned(text: &str, max: u64) -> (value: Option<u64>)
    ensures
        value == match parsed_unsigned(text@, max as nat) {
            Some(v) => Some(v as u64),
            None => None,
        },
{
    let s = to_chars(text);
    if s.len() == 0 || s[0] == '-' {
        return None;
    }
    let from: usize = if s[0] == '+' {
        1
    } else {
        0
    };
    assert(s@.subrange(0, s.len() as int) == s@);
    match parse_digits(&s, from, max) {
        Digits::Value(v) => Some(v),
        _ => None,
    }
}

/// Whether two texts hold the same characters.
pub fn same_text(a: &str, b: &str) -> (same: bool)
    ensures
        same == (a@ == b@),
{
    let x = to_chars(a);
    let y = to_chars(b);
    same_chars(&x, &y)
}

} // verus!
