//! Category identifiers: UUIDs held as `u128`, and their text.
use vstd::prelude::*;

use vstd::arithmetic::div_mod::{lemma_mod_breakdown, lemma_small_mod};
use vstd::arithmetic::power::pow;

use crate::error::{CoreError, ValidationError};

verus! {

/// The lowercase hexadecimal digit for `d < 16`.
pub open spec fn hex_char(d: nat) -> char {
    seq!['0', '1', '2', '3', '4', '5', '6', '7', '8', '9', 'a', 'b', 'c', 'd', 'e', 'f'][d as int]
}

/// The value of a hexadecimal digit of either case.
pub open spec fn hex_digit_value(c: char) -> Option<nat> {
    let u = c as u32;
    if 48 <= u <= 57 {
        Some((u - 48) as nat)
    } else if 97 <= u <= 102 {
        Some((u - 87) as nat)
    } else if 65 <= u <= 70 {
        Some((u - 55) as nat)
    } else {
        None
    }
}

/// The last `n` hexadecimal digits of `v`, most significant first.
pub open spec fn hex_digits(v: nat, n: nat) -> Seq<char>
    decreases n,
{
    if n == 0 {
        seq![]
    } else {
        hex_digits(v / 16, (n - 1) as nat).push(hex_char(v % 16))
    }
}

/// The big-endian value of a run of hexadecimal digits, if all of them are digits.
pub open spec fn hex_value(s: Seq<char>) -> Option<nat>
    decreases s.len(),
{
    if s.len() == 0 {
        Some(0)
    } else {
        match (hex_value(s.drop_last()), hex_digit_value(s.last())) {
            (Some(a), Some(d)) => Some(a * 16 + d),
            _ => None,
        }
    }
}

/// The hyphenated lowercase text of a UUID: `8-4-4-4-12` hexadecimal digits.
pub open spec fn uuid_text(v: u128) -> Seq<char> {
    let d = hex_digits(v as nat, 32);
    d.subrange(0, 8) + seq!['-'] + d.subrange(8, 12) + seq!['-'] + d.subrange(12, 16) + seq!['-']
        + d.subrange(16, 20) + seq!['-'] + d.subrange(20, 32)
}

/// The value of a 36-character hyphenated UUID text.
pub open spec fn hyphenated_value(s: Seq<char>) -> Option<nat> {
    if s.len() == 36 && s[8] == '-' && s[13] == '-' && s[18] == '-' && s[23] == '-' {
        hex_value(
            s.subrange(0, 8) + s.subrange(9, 13) + s.subrange(14, 18) + s.subrange(19, 23)
                + s.subrange(24, 36),
        )
    } else {
        None
    }
}

/// ASCII lowercase of a character.
pub open spec fn ascii_lower(c: char) -> char {
    if 'A' <= c <= 'Z' {
        ((c as u32) + 32) as char
    } else {
        c
    }
}

/// `p` spells `urn:uuid:`, ignoring ASCII case.
pub open spec fn is_urn_prefix(p: Seq<char>) -> bool {
    p.len() == 9 && forall|i: int| 0 <= i < 9 ==> ascii_lower(#[trigger] p[i]) == seq![
        'u',
        'r',
        'n',
        ':',
        'u',
        'u',
        'i',
        'd',
        ':',
    ][i]
}

/// The UUID that a text denotes: 32 digits, the hyphenated form, the hyphenated
/// form in braces, or the hyphenated form after `urn:uuid:`.
pub open spec fn uuid_of_text(s: Seq<char>) -> Option<u128> {
    let v = if s.len() == 32 {
        hex_value(s)
    } else if s.len() == 36 {
        hyphenated_value(s)
    } else if s.len() == 38 && s[0] == '{' && s[37] == '}' {
        hyphenated_value(s.subrange(1, 37))
    } else if s.len() == 45 && is_urn_prefix(s.subrange(0, 9)) {
        hyphenated_value(s.subrange(9, 45))
    } else {
        None
    };
    match v {
        Some(n) => Some(n as u128),
        None => None,
    }
}

/// A character of Unicode's White_Space property.
pub open spec fn is_space(c: char) -> bool {
    let u = c as u32;
    (9 <= u <= 13) || u == 32 || u == 0x85 || u == 0xA0 || u == 0x1680 || (0x2000 <= u <= 0x200A)
        || u == 0x2028 || u == 0x2029 || u == 0x202F || u == 0x205F || u == 0x3000
}

/// Empty, or whitespace only.
pub open spec fn blank(s: Seq<char>) -> bool {
    forall|i: int| 0 <= i < s.len() ==> is_space(#[trigger] s[i])
}

/// What an identifier supplied by a caller resolves to.
pub open spec fn category_id_of(s: Seq<char>) -> Result<u128, CoreError> {
    if blank(s) {
        Err(CoreError::Validation(ValidationError::EmptyIdentifier))
    } else {
        match uuid_of_text(s) {
            Some(v) => Ok(v),
            None => Err(CoreError::Validation(ValidationError::InvalidIdentifier)),
        }
    }
}

proof fn lemma_hex_digits_len(v: nat, n: nat)
    ensures
        hex_digits(v, n).len() == n,
    decreases n,
{
    if n > 0 {
        lemma_hex_digits_len(v / 16, (n - 1) as nat);
    }
}

proof fn lemma_hex_char_value(d: nat)
    requires
        d < 16,
    ensures
        hex_digit_value(hex_char(d)) == Some(d),
{
}

proof fn lemma_hex_value_of_digits(v: nat, n: nat)
    ensures
        hex_value(hex_digits(v, n)) == Some(((v as int) % pow(16, n)) as nat),
    decreases n,
{
    reveal(pow);
    if n == 0 {
        assert(v % 1 == 0);
    } else {
        let m = (n - 1) as nat;
        lemma_hex_value_of_digits(v / 16, m);
        let d = hex_digits(v, n);
        assert(d.drop_last() =~= hex_digits(v / 16, m));
        lemma_hex_char_value(v % 16);
        assert(pow(16, m) > 0) by {
            vstd::arithmetic::power::lemma_pow_positive(16, m);
        }
        lemma_mod_breakdown(v as int, 16, pow(16, m));
        assert(pow(16, n) == 16 * pow(16, m));
    }
}

/// The hyphenated text of a UUID is made of hexadecimal digits and hyphens only.
pub proof fn lemma_uuid_text_chars(v: u128)
    ensures
        uuid_text(v).len() == 36,
        forall|i: int|
            0 <= i < 36 ==> {
                let c = #[trigger] uuid_text(v)[i];
                c == '-' || hex_digit_value(c) is Some
            },
{
    let d = hex_digits(v as nat, 32);
    lemma_hex_digits_len(v as nat, 32);
    assert forall|i: int| 0 <= i < 32 implies hex_digit_value(#[trigger] d[i]) is Some by {
        lemma_hex_digits_chars(v as nat, 32, i);
    }
    assert forall|i: int| 0 <= i < 36 implies {
        let c = #[trigger] uuid_text(v)[i];
        c == '-' || hex_digit_value(c) is Some
    } by {
        if i < 8 {
            assert(uuid_text(v)[i] == d[i]);
        } else if i == 8 || i == 13 || i == 18 || i == 23 {
        } else if i < 13 {
            assert(uuid_text(v)[i] == d[i - 1]);
        } else if i < 18 {
            assert(uuid_text(v)[i] == d[i - 2]);
        } else if i < 23 {
            assert(uuid_text(v)[i] == d[i - 3]);
        } else {
            assert(uuid_text(v)[i] == d[i - 4]);
        }
    }
}

proof fn lemma_hex_digits_chars(v: nat, n: nat, i: int)
    requires
        0 <= i < n,
    ensures
        hex_digits(v, n).len() == n,
        hex_digit_value(hex_digits(v, n)[i]) is Some,
    decreases n,
{
    lemma_hex_digits_len(v, n);
    let m = (n - 1) as nat;
    if i == m {
        lemma_hex_char_value(v % 16);
    } else {
        lemma_hex_digits_chars(v / 16, m, i);
    }
}

/// The hyphenated text of a UUID denotes that UUID.
pub proof fn lemma_uuid_text_round_trip(v: u128)
    ensures
        uuid_of_text(uuid_text(v)) == Some(v),
{
    let d = hex_digits(v as nat, 32);
    lemma_hex_digits_len(v as nat, 32);
    lemma_hex_value_of_digits(v as nat, 32);
    assert(pow(16, 32) == 0x1_0000_0000_0000_0000_0000_0000_0000_0000) by {
        reveal_with_fuel(pow, 33);
    }
    lemma_small_mod(v as nat, pow(16, 32) as nat);
    let t = uuid_text(v);
    assert(t.len() == 36);
    assert(t[8] == '-' && t[13] == '-' && t[18] == '-' && t[23] == '-');
    assert(t.subrange(0, 8) + t.subrange(9, 13) + t.subrange(14, 18) + t.subrange(19, 23)
        + t.subrange(24, 36) =~= d);
}

/// Distinct UUIDs have distinct texts.
pub proof fn lemma_uuid_text_injective(a: u128, b: u128)
    requires
        uuid_text(a) == uuid_text(b),
    ensures
        a == b,
{
    lemma_uuid_text_round_trip(a);
    lemma_uuid_text_round_trip(b);
}

/// Relies on `uuid::Uuid::parse_str` and `Uuid::as_u128`: the parser accepts
/// 32 hex digits, the hyphenated form, the hyphenated form in braces, or after
/// an ASCII-case-insensitive `urn:uuid:`, with digits of either case, and the
/// value is big-endian. It works on bytes; a non-ASCII byte is never a digit,
/// hyphen, brace or prefix letter, so it rejects exactly the texts with a
/// non-ASCII character, as `uuid_of_text` does.
#[verifier::external_body]
pub(crate) fn parse_uuid(s: &str) -> (r: Option<u128>)
    ensures
        r == uuid_of_text(s@),
{
    uuid::Uuid::parse_str(s).ok().map(|u| u.as_u128())
}

/// Relies on `uuid::Uuid::from_u128` (big-endian bytes of `v`) and the
/// `Display` of `Hyphenated` (lowercase digits in groups 8-4-4-4-12).
#[verifier::external_body]
pub(crate) fn format_uuid(v: u128) -> (r: String)
    ensures
        r@ == uuid_text(v),
{
    uuid::Uuid::from_u128(v).hyphenated().to_string()
}

/// Relies on `uuid::Uuid::now_v7`: a fresh, time-ordered identifier. Nothing
/// is claimed of its value.
#[verifier::external_body]
pub(crate) fn new_uuid_v7() -> (r: u128) {
    uuid::Uuid::now_v7().as_u128()
}

fn is_space_char(c: char) -> (r: bool)
    ensures
        r == is_space(c),
{
    let u = c as u32;
    (9 <= u && u <= 13) || u == 32 || u == 0x85 || u == 0xA0 || u == 0x1680 || (0x2000 <= u && u
        <= 0x200A) || u == 0x2028 || u == 0x2029 || u == 0x202F || u == 0x205F || u == 0x3000
}

/// Whether `s` is empty or holds only whitespace.
pub fn is_blank(s: &str) -> (r: bool)
    ensures
        r == blank(s@),
{
    let n = s.unicode_len();
    let mut i: usize = 0;
    while i < n
        invariant
            n == s@.len(),
            i <= n,
            forall|j: int| 0 <= j < i ==> is_space(#[trigger] s@[j]),
        decreases n - i,
    {
        if !is_space_char(s.get_char(i)) {
            return false;
        }
        i = i + 1;
    }
    true
}

/// Resolves a caller-supplied identifier, before any call to a backend: blank
/// text is `EmptyIdentifier`, text that is no UUID is `InvalidIdentifier`.
pub fn parse_category_id(s: &str) -> (r: Result<u128, CoreError>)
    ensures
        r == category_id_of(s@),
{
    if is_blank(s) {
        return Err(CoreError::Validation(ValidationError::EmptyIdentifier));
    }
    match parse_uuid(s) {
        Some(v) => Ok(v),
        None => Err(CoreError::Validation(ValidationError::InvalidIdentifier)),
    }
}

} // verus!
