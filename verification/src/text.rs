//! Text helpers shared by the rest of the library: characters of a string,
//! decimal numerals, ASCII case folding and substring search.

use vstd::prelude::*;

verus! {

/// Appends one character to a string, through `String::push`: the string
/// afterwards holds its former characters followed by `c`.
#[verifier::external_body]
pub(crate) fn push_char(s: &mut String, c: char)
    ensures
        final(s)@ == old(s)@.push(c),
{
    s.push(c)
}

/// The characters of `s`, in order.
pub fn chars_of(s: &str) -> (v: Vec<char>)
    ensures
        v@ == s@,
{
    let mut v: Vec<char> = Vec::new();
    for c in it: s.chars()
        invariant
            v@ == it.seq().take(it.index() as int),
            it.seq() == s@,
    {
        v.push(c);
    }
    v
}

/// The string made of the characters of `v`, in order.
pub fn string_of(v: &Vec<char>) -> (s: String)
    ensures
        s@ == v@,
{
    let mut s: String = String::new();
    let mut i: usize = 0;
    while i < v.len()
        invariant
            i <= v.len(),
            s@ == v@.take(i as int),
        decreases v.len() - i,
    {
        push_char(&mut s, v[i]);
        i = i + 1;
    }
    s
}

/// Whether two string slices hold the same characters.
pub fn same_text(a: &str, b: &str) -> (r: bool)
    ensures
        r == (a@ == b@),
{
    let x: String = a.to_owned();
    let y: String = b.to_owned();
    x == y
}

/// An owned copy of an optional string.
pub fn copy_optional(s: &Option<String>) -> (r: Option<String>)
    ensures
        optional_text(r) == optional_text(*s),
{
    match s {
        Some(t) => Some(t.clone()),
        None => None,
    }
}

/// The characters of an optional string.
pub open spec fn optional_text(s: Option<String>) -> Option<Seq<char>> {
    match s {
        Some(t) => Some(t@),
        None => None,
    }
}

// ---------------------------------------------------------------------------
// Decimal numerals
// ---------------------------------------------------------------------------

/// Whether `c` is one of `0` to `9`.
pub open spec fn is_digit(c: char) -> bool {
    48 <= c as u32 && c as u32 <= 57
}

/// The value of the digit `c`.
pub open spec fn digit_value(c: char) -> nat {
    (c as u32 - 48) as nat
}

/// The character that writes the digit `d`.
pub open spec fn digit_char(d: int) -> char {
    (d + 48) as u8 as char
}

/// The decimal numeral of a natural number, without leading zeros.
pub open spec fn decimal_digits(n: nat) -> Seq<char>
    decreases n,
{
    if n < 10 {
        seq![digit_char(n as int)]
    } else {
        decimal_digits(n / 10).push(digit_char((n % 10) as int))
    }
}

/// The decimal numeral of an integer, with a leading `-` when negative.
pub open spec fn decimal_text(n: int) -> Seq<char> {
    if n < 0 {
        seq!['-'] + decimal_digits((-n) as nat)
    } else {
        decimal_digits(n as nat)
    }
}

/// The numeral of `n` written in at least two columns, zero-padded: a single
/// digit gets a leading `0`, everything else is written as it is.
pub open spec fn two_column_text(n: int) -> Seq<char> {
    if 0 <= n < 10 {
        seq!['0'] + decimal_digits(n as nat)
    } else {
        decimal_text(n)
    }
}

/// Appends the decimal numeral of `n` to `out`.
pub fn append_digits(out: &mut String, n: u64)
    ensures
        final(out)@ == old(out)@ + decimal_digits(n as nat),
    decreases n,
{
    if n >= 10 {
        append_digits(out, n / 10);
    }
    let d: u8 = (n % 10) as u8;
    push_char(out, (d + 48) as char);
    proof {
        if n >= 10 {
            assert(final(out)@ == old(out)@ + decimal_digits(n as nat / 10).push(
                digit_char((n % 10) as int),
            ));
        } else {
            assert(final(out)@ == old(out)@ + seq![digit_char(n as int)]);
        }
    }
}

/// Appends the decimal numeral of the signed integer `n` to `out`.
pub fn append_decimal(out: &mut String, n: i64)
    ensures
        final(out)@ == old(out)@ + decimal_text(n as int),
{
    if n < 0 {
        push_char(out, '-');
        let magnitude: u64 = if n == i64::MIN {
            9223372036854775808u64
        } else {
            (-n) as u64
        };
        append_digits(out, magnitude);
        assert(final(out)@ == old(out)@ + (seq!['-'] + decimal_digits((-n) as nat)));
    } else {
        append_digits(out, n as u64);
    }
}

/// The value of a sequence of digits read as a decimal numeral.
pub open spec fn digits_value(s: Seq<char>) -> nat
    decreases s.len(),
{
    if s.len() == 0 {
        0
    } else {
        digits_value(s.drop_last()) * 10 + digit_value(s.last())
    }
}

/// Whether every character of `s` is a decimal digit.
pub open spec fn all_digits(s: Seq<char>) -> bool {
    forall|i: int| 0 <= i < s.len() ==> is_digit(#[trigger] s[i])
}

/// The natural number that `s` writes: one or more decimal digits, after an
/// optional `+`. Anything else writes no number.
pub open spec fn parse_natural(s: Seq<char>) -> Option<nat> {
    let body = if s.len() > 0 && s[0] == '+' {
        s.subrange(1, s.len() as int)
    } else {
        s
    };
    if body.len() > 0 && all_digits(body) {
        Some(digits_value(body))
    } else {
        None
    }
}

/// The integer that `s` writes: one or more decimal digits, after an optional
/// `+` or `-`. Anything else writes no number.
pub open spec fn parse_integer(s: Seq<char>) -> Option<int> {
    if s.len() > 0 && s[0] == '-' {
        let body = s.subrange(1, s.len() as int);
        if body.len() > 0 && all_digits(body) {
            Some(-(digits_value(body) as int))
        } else {
            None
        }
    } else {
        match parse_natural(s) {
            Some(v) => Some(v as int),
            None => None,
        }
    }
}

/// A longer run of digits is worth at least as much as any of its prefixes.
pub proof fn lemma_digits_value_monotonic(s: Seq<char>, k: int)
    requires
        0 <= k <= s.len(),
    ensures
        digits_value(s.take(k)) <= digits_value(s),
    decreases s.len(),
{
    if k < s.len() {
        lemma_digits_value_monotonic(s.drop_last(), k);
        assert(s.drop_last().take(k) == s.take(k));
    } else {
        assert(s.take(k) == s);
    }
}

/// Reads the digits of `v` from position `start` on. `Some(n)` is their value
/// where there is at least one character, all are digits and the value is at
/// most `limit`; `None` otherwise.
fn read_digits(v: &Vec<char>, start: usize, limit: u64) -> (r: Option<u64>)
    requires
        start <= v.len(),
        limit <= 0xffff_ffff_ffff,
    ensures
        r == ({
            let body = v@.subrange(start as int, v.len() as int);
            if body.len() > 0 && all_digits(body) && digits_value(body) <= limit {
                Some(digits_value(body) as u64)
            } else {
                None
            }
        }),
{
    let ghost body = v@.subrange(start as int, v.len() as int);
    if start == v.len() {
        return None;
    }
    let mut acc: u64 = 0;
    let mut i: usize = start;
    while i < v.len()
        invariant
            start <= i <= v.len(),
            limit <= 0xffff_ffff_ffff,
            body == v@.subrange(start as int, v.len() as int),
            all_digits(body.take(i - start)),
            acc == digits_value(body.take(i - start)),
            acc <= limit,
        decreases v.len() - i,
    {
        let c: char = v[i];
        let code: u32 = c as u32;
        assert(body[i - start] == c);
        if code < 48 || code > 57 {
            assert(!all_digits(body));
            return None;
        }
        let d: u64 = (code - 48) as u64;
        let next: u64 = acc * 10 + d;
        proof {
            let longer = body.take(i - start + 1);
            assert(longer.drop_last() == body.take(i - start));
            assert(longer.last() == c);
            assert(next == digits_value(longer));
            assert forall|j: int| 0 <= j < longer.len() implies is_digit(
                #[trigger] longer[j],
            ) by {
                if j < i - start {
                    assert(body.take(i - start)[j] == longer[j]);
                }
            }
        }
        if next > limit {
            proof {
                lemma_digits_value_monotonic(body, i - start + 1);
            }
            return None;
        }
        acc = next;
        i = i + 1;
    }
    assert(body.take(i - start) == body);
    Some(acc)
}

/// Reads a decimal `i32`: digits after an optional sign, within the range of
/// the type.
pub open spec fn parse_i32_text(s: Seq<char>) -> Option<i32> {
    match parse_integer(s) {
        Some(v) => if i32::MIN <= v <= i32::MAX {
            Some(v as i32)
        } else {
            None
        },
        None => None,
    }
}

/// Reads a decimal `u16`: digits after an optional `+`, within the range of
/// the type.
pub open spec fn parse_u16_text(s: Seq<char>) -> Option<u16> {
    match parse_natural(s) {
        Some(v) => if v <= u16::MAX {
            Some(v as u16)
        } else {
            None
        },
        None => None,
    }
}

/// Parses a decimal `i32` as `parse_i32_text` reads it.
pub fn parse_i32(s: &str) -> (r: Option<i32>)
    ensures
        r == parse_i32_text(s@),
{
    let v = chars_of(s);
    if v.len() == 0 {
        return None;
    }
    let first: char = v[0];
    if first == '-' {
        match read_digits(&v, 1, 2147483648) {
            Some(n) => {
                let value: i64 = -(n as i64);
                Some(value as i32)
            },
            None => None,
        }
    } else {
        let start: usize = if first == '+' {
            1
        } else {
            0
        };
        proof {
            if first != '+' {
                assert(v@.subrange(0, v.len() as int) == v@);
            }
        }
        match read_digits(&v, start, 2147483647) {
            Some(n) => Some(n as i32),
            None => None,
        }
    }
}

/// Parses a decimal `u16` as `parse_u16_text` reads it.
pub fn parse_u16(s: &str) -> (r: Option<u16>)
    ensures
        r == parse_u16_text(s@),
{
    let v = chars_of(s);
    if v.len() == 0 {
        return None;
    }
    let first: char = v[0];
    let start: usize = if first == '+' {
        1
    } else {
        0
    };
    proof {
        if first != '+' {
            assert(v@.subrange(0, v.len() as int) == v@);
        }
    }
    match read_digits(&v, start, 65535) {
        Some(n) => Some(n as u16),
        None => None,
    }
}

// ---------------------------------------------------------------------------
// Case folding and substring search
// ---------------------------------------------------------------------------

/// `c` with the letters `A` to `Z` mapped to `a` to `z`; every other
/// character stands for itself.
pub open spec fn fold_char(c: char) -> char {
    if 65 <= c as u32 && c as u32 <= 90 {
        (c as u32 + 32) as u8 as char
    } else {
        c
    }
}

/// `s` with every character folded.
pub open spec fn folded(s: Seq<char>) -> Seq<char> {
    s.map_values(|c: char| fold_char(c))
}

/// Whether `needle` stands in `hay` at position `i`.
pub open spec fn occurs_at(hay: Seq<char>, needle: Seq<char>, i: int) -> bool {
    &&& 0 <= i
    &&& i + needle.len() <= hay.len()
    &&& forall|k: int| 0 <= k < needle.len() ==> #[trigger] hay[i + k] == needle[k]
}

/// Whether `needle` is a contiguous part of `hay`.
pub open spec fn contains_text(hay: Seq<char>, needle: Seq<char>) -> bool {
    exists|i: int| occurs_at(hay, needle, i)
}

/// Whether `needle` is a contiguous part of `hay` once the letters `A` to
/// `Z` count as their lower-case forms.
pub open spec fn contains_ignoring_case(hay: Seq<char>, needle: Seq<char>) -> bool {
    contains_text(folded(hay), folded(needle))
}

/// Folds one character.
pub fn fold(c: char) -> (r: char)
    ensures
        r == fold_char(c),
{
    let code: u32 = c as u32;
    if 65 <= code && code <= 90 {
        ((code + 32) as u8) as char
    } else {
        c
    }
}

/// Whether `needle`, folded, stands in `hay`, folded, at position `i`.
fn occurs_folded_at(hay: &Vec<char>, needle: &Vec<char>, i: usize) -> (r: bool)
    requires
        i + needle.len() <= hay.len(),
    ensures
        r == occurs_at(folded(hay@), folded(needle@), i as int),
{
    let mut k: usize = 0;
    while k < needle.len()
        invariant
            k <= needle.len(),
            i + needle.len() <= hay.len(),
            forall|j: int|
                0 <= j < k ==> #[trigger] folded(hay@)[i + j] == folded(needle@)[j],
        decreases needle.len() - k,
    {
        if fold(hay[i + k]) != fold(needle[k]) {
            assert(folded(hay@)[i + k] != folded(needle@)[k as int]);
            return false;
        }
        k = k + 1;
    }
    true
}

/// Case-insensitive substring test on characters.
pub fn find_ignoring_case(hay: &Vec<char>, needle: &Vec<char>) -> (r: bool)
    ensures
        r == contains_ignoring_case(hay@, needle@),
{
    if needle.len() > hay.len() {
        assert forall|i: int| !occurs_at(folded(hay@), folded(needle@), i) by {}
        return false;
    }
    let last: usize = hay.len() - needle.len();
    let mut i: usize = 0;
    while i <= last
        invariant
            i <= last + 1,
            last == hay.len() - needle.len(),
            forall|j: int| 0 <= j < i ==> !occurs_at(folded(hay@), folded(needle@), j),
        decreases last + 1 - i,
    {
        if occurs_folded_at(hay, needle, i) {
            return true;
        }
        i = i + 1;
    }
    assert forall|j: int| !occurs_at(folded(hay@), folded(needle@), j) by {}
    false
}

/// Case-insensitive substring test on strings.
pub fn contains_ignore_case(hay: &str, needle: &str) -> (r: bool)
    ensures
        r == contains_ignoring_case(hay@, needle@),
{
    let h = chars_of(hay);
    let n = chars_of(needle);
    find_ignoring_case(&h, &n)
}

} // verus!
