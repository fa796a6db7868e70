//! Identifiers of rows: 128-bit numbers and their texts.

use vstd::arithmetic::div_mod::lemma_div_denominator;
use vstd::arithmetic::power::{lemma_pow_positive, pow};
use vstd::prelude::*;

use crate::encoding::hex_char;

verus! {

broadcast use vstd::seq_lib::group_seq_properties;

/// A 128-bit identifier, its most significant byte first.
#[derive(Clone, Copy, Debug, PartialEq, Eq, Structural)]
pub struct Uuid {
    pub bits: u128,
}

/// Why a text is no identifier.
pub struct UuidError {
    pub message: String,
}

pub open spec fn is_hex(c: char) -> bool {
    ('0' <= c <= '9') || ('a' <= c <= 'f') || ('A' <= c <= 'F')
}

/// The value of a hexadecimal digit of either case.
pub open spec fn digit_value(c: char) -> int {
    if c <= '9' {
        c as int - '0' as int
    } else if c <= 'F' {
        c as int - 'A' as int + 10
    } else {
        c as int - 'a' as int + 10
    }
}

/// The number that hexadecimal digits stand for.
pub open spec fn hex_number(digits: Seq<char>) -> int
    decreases digits.len(),
{
    if digits.len() == 0 {
        0
    } else {
        16 * hex_number(digits.drop_last()) + digit_value(digits.last())
    }
}

/// Whether `s` is grouped by hyphens into eight, four, four, four and twelve characters.
pub open spec fn grouped(s: Seq<char>) -> bool {
    s.len() == 36 && s[8] == '-' && s[13] == '-' && s[18] == '-' && s[23] == '-'
}

/// The characters of a grouped text other than its four hyphens.
pub open spec fn ungrouped(s: Seq<char>) -> Seq<char> {
    s.subrange(0, 8) + s.subrange(9, 13) + s.subrange(14, 18) + s.subrange(19, 23) + s.subrange(
        24,
        36,
    )
}

pub open spec fn lower(c: char) -> char {
    if 'A' <= c <= 'Z' {
        (c as int + 32) as char
    } else {
        c
    }
}

/// The digits in a text that has the shape of an identifier: thirty-two characters, or a grouped
/// text, bare, in braces, or after `urn:uuid:` in letters of either case.
pub open spec fn uuid_digits(s: Seq<char>) -> Option<Seq<char>> {
    if s.len() == 32 {
        Some(s)
    } else if grouped(s) {
        Some(ungrouped(s))
    } else if s.len() == 38 && s[0] == '{' && s[37] == '}' && grouped(s.subrange(1, 37)) {
        Some(ungrouped(s.subrange(1, 37)))
    } else if s.len() == 45 && s.take(9).map_values(|c: char| lower(c)) == seq![
        'u',
        'r',
        'n',
        ':',
        'u',
        'u',
        'i',
        'd',
        ':',
    ] && grouped(s.skip(9)) {
        Some(ungrouped(s.skip(9)))
    } else {
        None
    }
}

/// The identifier that `s` is a text of, if there is one.
pub open spec fn uuid_value(s: Seq<char>) -> Option<u128> {
    match uuid_digits(s) {
        Some(digits) => if digits.all(|c: char| is_hex(c)) {
            Some(hex_number(digits) as u128)
        } else {
            None
        },
        None => None,
    }
}

/// What `uuid::Error` displays when `uuid::Uuid::parse_str` refuses the text.
pub uninterp spec fn uuid_error_text(s: Seq<char>) -> Seq<char>;

/// Calls `sqlx::types::uuid::Uuid::parse_str`, then `as_u128` on an identifier and `to_string` on
/// an error.
///
/// Trusted: it accepts the thirty-two digits of an identifier bare, or grouped by hyphens and then
/// also in braces or as a URN, and gives the number that they stand for; it refuses everything
/// else. The message of a refusal depends on the text alone and is only named.
#[verifier::external_body]
pub(crate) fn parse_uuid_text(text: &str) -> (parsed: Result<u128, String>)
    ensures
        match parsed {
            Ok(bits) => uuid_value(text@) == Some(bits),
            Err(message) => uuid_value(text@) is None && message@ == uuid_error_text(text@),
        },
{
    match sqlx::types::uuid::Uuid::parse_str(text) {
        Ok(id) => Ok(id.as_u128()),
        Err(error) => Err(error.to_string()),
    }
}

/// The `i`th of the thirty-two hexadecimal digits of `bits`.
pub open spec fn nibble(bits: u128, i: int) -> int {
    bits as int / pow(16, (31 - i) as nat) % 16
}

/// The thirty-two digits of `bits`, in lower case.
pub open spec fn hex_digits(bits: u128) -> Seq<char> {
    Seq::new(32, |i: int| hex_char(nibble(bits, i)))
}

/// The digits of `bits`, grouped by hyphens.
pub open spec fn uuid_text(bits: u128) -> Seq<char> {
    let d = hex_digits(bits);
    d.subrange(0, 8) + seq!['-'] + d.subrange(8, 12) + seq!['-'] + d.subrange(12, 16) + seq!['-']
        + d.subrange(16, 20) + seq!['-'] + d.subrange(20, 32)
}

/// Calls `sqlx::types::uuid::Uuid::from_u128` and `to_string` on the identifier.
///
/// Trusted: the text is the thirty-two lower-case hexadecimal digits, grouped by hyphens.
#[verifier::external_body]
pub(crate) fn format_uuid(bits: u128) -> (text: String)
    ensures
        text@ == uuid_text(bits),
{
    sqlx::types::uuid::Uuid::from_u128(bits).to_string()
}

/// Reads an identifier from its text.
pub fn parse_uuid(uuid_str: &str) -> (r: Result<Uuid, UuidError>)
    ensures
        match r {
            Ok(id) => uuid_value(uuid_str@) == Some(id.bits),
            Err(e) => uuid_value(uuid_str@) is None && e.message@ == uuid_error_text(uuid_str@),
        },
{
    match parse_uuid_text(uuid_str) {
        Ok(bits) => Ok(Uuid { bits }),
        Err(message) => Err(UuidError { message }),
    }
}

impl Uuid {
    /// The text of the identifier.
    pub fn to_text(&self) -> (text: String)
        ensures
            text@ == uuid_text(self.bits),
    {
        format_uuid(self.bits)
    }
}

/// The first `k` digits of `bits` stand for its most significant `k` nibbles.
proof fn lemma_leading_digits(bits: u128, k: nat)
    requires
        k <= 32,
    ensures
        hex_number(hex_digits(bits).take(k as int)) == bits as int / pow(16, (32 - k) as nat),
    decreases k,
{
    let d = hex_digits(bits);
    if k == 0 {
        assert(pow(16, 32) == u128::MAX + 1) by {
            reveal(pow);
            reveal_with_fuel(pow, 33);
        }
        assert(bits as int / (u128::MAX + 1) == 0);
    } else {
        let m = (32 - k) as nat;
        lemma_leading_digits(bits, (k - 1) as nat);
        assert(d.take(k as int).drop_last() =~= d.take(k - 1));
        let p = pow(16, m);
        let q = bits as int / p;
        lemma_pow_positive(16, m);
        assert(pow(16, (m + 1) as nat) == p * 16) by {
            reveal(pow);
            assert(16 * p == p * 16);
        }
        lemma_div_denominator(bits as int, p, 16);
        assert(bits as int / pow(16, (m + 1) as nat) == q / 16);
        assert(digit_value(hex_char(nibble(bits, k - 1))) == nibble(bits, k - 1));
        assert(nibble(bits, k - 1) == q % 16);
        assert(q == 16 * (q / 16) + q % 16);
    }
}

/// Reading the text of an identifier gives the identifier back.
pub proof fn law_uuid_text_read_back(id: Uuid)
    ensures
        uuid_value(uuid_text(id.bits)) == Some(id.bits),
{
    let d = hex_digits(id.bits);
    let text = uuid_text(id.bits);
    assert(grouped(text));
    assert(ungrouped(text) =~= d);
    assert(d.all(|c: char| is_hex(c)));
    lemma_leading_digits(id.bits, 32);
    assert(d.take(32) =~= d);
    assert(pow(16, 0) == 1) by {
        reveal(pow);
    }
}

} // verus!
