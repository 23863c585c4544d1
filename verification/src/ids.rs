//! Identifiers: 128-bit numbers, written as 32 lower-case hexadecimal digits
//! in groups of 8, 4, 4, 4 and 12 with hyphens between.

use crate::text::push_char;
use vstd::prelude::*;

verus! {

/// The character that writes the hexadecimal digit `d`.
pub open spec fn hex_char(d: int) -> char {
    if d < 10 {
        (d + 48) as u8 as char
    } else {
        (d + 87) as u8 as char
    }
}

/// The last `width` hexadecimal digits of `n`, most significant first.
pub open spec fn hex_digits(n: nat, width: nat) -> Seq<char>
    decreases width,
{
    if width == 0 {
        Seq::empty()
    } else {
        hex_digits(n / 16, (width - 1) as nat).push(hex_char((n % 16) as int))
    }
}

/// The text of an identifier.
pub open spec fn uuid_text(id: u128) -> Seq<char> {
    let digits = hex_digits(id as nat, 32);
    digits.subrange(0, 8) + seq!['-'] + digits.subrange(8, 12) + seq!['-'] + digits.subrange(
        12,
        16,
    ) + seq!['-'] + digits.subrange(16, 20) + seq!['-'] + digits.subrange(20, 32)
}

/// The identifier that a text writes, as `Uuid::parse_str` reads it; `None`
/// where it reads none.
pub uninterp spec fn uuid_parse(text: Seq<char>) -> Option<u128>;

/// `hex_digits` gives as many digits as asked.
pub proof fn lemma_hex_digits_len(n: nat, width: nat)
    ensures
        hex_digits(n, width).len() == width,
    decreases width,
{
    if width > 0 {
        lemma_hex_digits_len(n / 16, (width - 1) as nat);
    }
}

/// The last `width` hexadecimal digits of `n`.
fn hex_digits_of(n: u128, width: usize) -> (v: Vec<char>)
    ensures
        v@ == hex_digits(n as nat, width as nat),
    decreases width,
{
    if width == 0 {
        Vec::new()
    } else {
        let mut v = hex_digits_of(n / 16, width - 1);
        let d: u8 = (n % 16) as u8;
        let c: char = if d < 10 {
            (d + 48) as char
        } else {
            (d + 87) as char
        };
        v.push(c);
        v
    }
}

/// Appends the characters of `v` from `from` up to `to`.
fn append_chars(out: &mut String, v: &Vec<char>, from: usize, to: usize)
    requires
        from <= to <= v@.len(),
    ensures
        final(out)@ == old(out)@ + v@.subrange(from as int, to as int),
{
    let mut i: usize = from;
    assert(v@.subrange(from as int, from as int) =~= Seq::<char>::empty());
    while i < to
        invariant
            from <= i <= to,
            to <= v@.len(),
            out@ == old(out)@ + v@.subrange(from as int, i as int),
        decreases to - i,
    {
        push_char(out, v[i]);
        assert(v@.subrange(from as int, i + 1) =~= v@.subrange(from as int, i as int).push(
            v@[i as int],
        ));
        i = i + 1;
    }
}

/// Writes an identifier as text.
pub fn id_text(id: u128) -> (s: String)
    ensures
        s@ == uuid_text(id),
{
    let digits = hex_digits_of(id, 32);
    proof {
        lemma_hex_digits_len(id as nat, 32);
    }
    let mut s: String = String::new();
    append_chars(&mut s, &digits, 0, 8);
    push_char(&mut s, '-');
    append_chars(&mut s, &digits, 8, 12);
    push_char(&mut s, '-');
    append_chars(&mut s, &digits, 12, 16);
    push_char(&mut s, '-');
    append_chars(&mut s, &digits, 16, 20);
    push_char(&mut s, '-');
    append_chars(&mut s, &digits, 20, 32);
    assert(s@ =~= uuid_text(id));
    s
}

/// A new random identifier, from `Uuid::new_v4`. Nothing is promised of its
/// value.
#[verifier::external_body]
pub(crate) fn random_id() -> (id: u128) {
    uuid::Uuid::new_v4().as_u128()
}

/// Reads an identifier with `Uuid::parse_str`: the result is what that
/// function reads from the text, and the text that `uuid_text` gives of an
/// identifier is read as that identifier.
#[verifier::external_body]
pub(crate) fn read_id(text: &str) -> (r: Option<u128>)
    ensures
        r == uuid_parse(text@),
        forall|id: u128| text@ == uuid_text(id) ==> r == Some(id),
{
    uuid::Uuid::parse_str(text).ok().map(|u| u.as_u128())
}

} // verus!
