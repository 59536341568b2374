//! The textual form of an identifier: thirty-two hexadecimal digits, the
//! first sixteen for the high word and the last sixteen for the low word,
//! written in groups of 8, 4, 4, 4 and 12 digits with hyphens between them.

use vstd::prelude::*;

verus! {

/// The value of a hexadecimal digit, in either case.
pub open spec fn hex_digit_value(c: char) -> Option<nat> {
    if '0' <= c && c <= '9' {
        Some((c as nat - '0' as nat) as nat)
    } else if 'a' <= c && c <= 'f' {
        Some((c as nat - 'a' as nat + 10) as nat)
    } else if 'A' <= c && c <= 'F' {
        Some((c as nat - 'A' as nat + 10) as nat)
    } else {
        None
    }
}

/// The lower-case hexadecimal digit for a value below sixteen.
pub open spec fn lower_hex_digit(d: nat) -> char {
    if d < 10 {
        ('0' as nat + d) as char
    } else {
        ('a' as nat + d - 10) as char
    }
}

/// Whether every character is a hexadecimal digit.
pub open spec fn all_hex(s: Seq<char>) -> bool {
    forall|i: int| 0 <= i < s.len() ==> (#[trigger] hex_digit_value(s[i])) is Some
}

/// The number that a sequence of hexadecimal digits writes, most significant
/// digit first.
pub open spec fn hex_number(s: Seq<char>) -> nat
    decreases s.len(),
{
    if s.len() == 0 {
        0
    } else {
        hex_number(s.drop_last()) * 16 + hex_digit_value(s.last()).unwrap()
    }
}

/// The `n` least significant hexadecimal digits of `v`, most significant
/// first, in lower case.
pub open spec fn hex_text(v: nat, n: nat) -> Seq<char>
    decreases n,
{
    if n == 0 {
        Seq::empty()
    } else {
        hex_text(v / 16, (n - 1) as nat).push(lower_hex_digit(v % 16))
    }
}

/// The thirty-two digits of an identifier, high word first.
pub open spec fn simple_text(high: u64, low: u64) -> Seq<char> {
    hex_text(high as nat, 16) + hex_text(low as nat, 16)
}

/// Thirty-two characters set in groups of 8, 4, 4, 4 and 12 with hyphens
/// between them.
pub open spec fn hyphenate(d: Seq<char>) -> Seq<char> {
    d.subrange(0, 8) + seq!['-'] + d.subrange(8, 12) + seq!['-'] + d.subrange(12, 16) + seq!['-']
        + d.subrange(16, 20) + seq!['-'] + d.subrange(20, 32)
}

/// The canonical text of an identifier: thirty-six characters, lower case,
/// hyphens at positions 8, 13, 18 and 23.
pub open spec fn canonical_text(high: u64, low: u64) -> Seq<char> {
    hyphenate(simple_text(high, low))
}

/// The thirty-two characters between the hyphens of a hyphenated text, or
/// `None` where the text is not thirty-six characters with hyphens at
/// positions 8, 13, 18 and 23.
pub open spec fn unhyphenate(s: Seq<char>) -> Option<Seq<char>> {
    if s.len() == 36 && s[8] == '-' && s[13] == '-' && s[18] == '-' && s[23] == '-' {
        Some(
            s.subrange(0, 8) + s.subrange(9, 13) + s.subrange(14, 18) + s.subrange(19, 23)
                + s.subrange(24, 36),
        )
    } else {
        None
    }
}

/// Whether nine characters spell `urn:uuid:`, the letters in either case.
pub open spec fn is_urn_prefix(p: Seq<char>) -> bool {
    &&& p.len() == 9
    &&& (p[0] == 'u' || p[0] == 'U')
    &&& (p[1] == 'r' || p[1] == 'R')
    &&& (p[2] == 'n' || p[2] == 'N')
    &&& p[3] == ':'
    &&& (p[4] == 'u' || p[4] == 'U')
    &&& (p[5] == 'u' || p[5] == 'U')
    &&& (p[6] == 'i' || p[6] == 'I')
    &&& (p[7] == 'd' || p[7] == 'D')
    &&& p[8] == ':'
}

/// The thirty-two digit positions of a text in one of the four accepted
/// shapes: plain (32 characters), hyphenated (36), hyphenated in braces (38),
/// or hyphenated after `urn:uuid:` (45).
pub open spec fn digit_positions(s: Seq<char>) -> Option<Seq<char>> {
    if s.len() == 32 {
        Some(s)
    } else if s.len() == 36 {
        unhyphenate(s)
    } else if s.len() == 38 && s[0] == '{' && s[37] == '}' {
        unhyphenate(s.subrange(1, 37))
    } else if s.len() == 45 && is_urn_prefix(s.subrange(0, 9)) {
        unhyphenate(s.subrange(9, 45))
    } else {
        None
    }
}

/// The words that a text denotes, or `None` where it is no textual form of
/// an identifier.
pub open spec fn parsed_text(s: Seq<char>) -> Option<(u64, u64)> {
    match digit_positions(s) {
        Some(d) => if all_hex(d) {
            Some((hex_number(d.subrange(0, 16)) as u64, hex_number(d.subrange(16, 32)) as u64))
        } else {
            None
        },
        None => None,
    }
}

/// Sixteen to the power `n`.
pub open spec fn sixteen_pow(n: nat) -> nat
    decreases n,
{
    if n == 0 {
        1
    } else {
        16 * sixteen_pow((n - 1) as nat)
    }
}

/// A lower-case digit reads back as the value it was written for.
pub proof fn lemma_lower_hex_digit(d: nat)
    requires
        d < 16,
    ensures
        hex_digit_value(lower_hex_digit(d)) == Some(d),
{
}

/// The digits of a number that fits in `n` digits are `n` hexadecimal
/// digits that write that number.
pub proof fn lemma_hex_text(v: nat, n: nat)
    requires
        v < sixteen_pow(n),
    ensures
        hex_text(v, n).len() == n,
        all_hex(hex_text(v, n)),
        hex_number(hex_text(v, n)) == v,
    decreases n,
{
    if n > 0 {
        let rest = hex_text(v / 16, (n - 1) as nat);
        let t = hex_text(v, n);
        lemma_hex_text(v / 16, (n - 1) as nat);
        lemma_lower_hex_digit(v % 16);
        assert(t == rest.push(lower_hex_digit(v % 16)));
        assert(t.drop_last() =~= rest);
        assert(t.last() == lower_hex_digit(v % 16));
        assert forall|i: int| 0 <= i < t.len() implies (#[trigger] hex_digit_value(t[i])) is Some by {
            if i < rest.len() {
                assert(t[i] == rest[i]);
            }
        }
    }
}

/// Every 64-bit word fits in sixteen hexadecimal digits.
pub proof fn lemma_word_fits(x: u64)
    ensures
        (x as nat) < sixteen_pow(16),
{
    reveal_with_fuel(sixteen_pow, 17);
}

/// Reading the canonical text of an identifier gives the identifier back.
pub proof fn lemma_parse_canonical(high: u64, low: u64)
    ensures
        canonical_text(high, low).len() == 36,
        parsed_text(canonical_text(high, low)) == Some((high, low)),
{
    let h = hex_text(high as nat, 16);
    let l = hex_text(low as nat, 16);
    let d = simple_text(high, low);
    let s = canonical_text(high, low);
    lemma_word_fits(high);
    lemma_word_fits(low);
    lemma_hex_text(high as nat, 16);
    lemma_hex_text(low as nat, 16);
    assert(d.len() == 32);
    assert(s.len() == 36);
    assert(s[8] == '-' && s[13] == '-' && s[18] == '-' && s[23] == '-');
    assert(unhyphenate(s) == Some(d)) by {
        let u = s.subrange(0, 8) + s.subrange(9, 13) + s.subrange(14, 18) + s.subrange(19, 23)
            + s.subrange(24, 36);
        assert(u =~= d);
    }
    assert(digit_positions(s) == Some(d));
    assert(d.subrange(0, 16) =~= h);
    assert(d.subrange(16, 32) =~= l);
    assert forall|i: int| 0 <= i < d.len() implies (#[trigger] hex_digit_value(d[i])) is Some by {
        if i < 16 {
            assert(d[i] == h[i]);
        } else {
            assert(d[i] == l[i - 16]);
        }
    }
}

/// Calls `uuid::Uuid::parse_str` and hands back the two words of the
/// identifier it read (`Uuid::as_u64_pair`), or `None` where it failed.
///
/// Not proved: that the parser accepts exactly the four shapes of
/// `digit_positions` with hexadecimal digits in either case, and reads the
/// digits as a big-endian number.
#[verifier::external_body]
pub(crate) fn uuid_parse_str(s: &str) -> (r: Option<(u64, u64)>)
    ensures
        r == parsed_text(s@),
{
    match uuid::Uuid::parse_str(s) {
        Ok(u) => Some(u.as_u64_pair()),
        Err(_) => None,
    }
}

/// Calls `uuid::Uuid::to_string` on the identifier with the given words
/// (`Uuid::from_u64_pair`).
///
/// Not proved: that the text is the lower-case hyphenated form.
#[verifier::external_body]
pub(crate) fn uuid_to_string(high: u64, low: u64) -> (r: String)
    ensures
        r@ == canonical_text(high, low),
{
    uuid::Uuid::from_u64_pair(high, low).to_string()
}

} // verus!
