//! Text encodings: base64, JSON strings, and the characters of a header value.

use base64::Engine;
use vstd::prelude::*;

verus! {

/// The character that stands for the six-bit number `n` in the standard base64 alphabet.
pub open spec fn base64_char(n: int) -> char {
    if n < 26 {
        ('A' as int + n) as char
    } else if n < 52 {
        ('a' as int + n - 26) as char
    } else if n < 62 {
        ('0' as int + n - 52) as char
    } else if n == 62 {
        '+'
    } else {
        '/'
    }
}

/// The byte at `i`, or zero past the end.
pub open spec fn byte_or_zero(bytes: Seq<u8>, i: int) -> int {
    if i < bytes.len() {
        bytes[i] as int
    } else {
        0
    }
}

/// The `i`th group of six bits of `bytes`, four groups to every three bytes.
pub open spec fn sextet(bytes: Seq<u8>, i: int) -> int {
    let b0 = byte_or_zero(bytes, i / 4 * 3);
    let b1 = byte_or_zero(bytes, i / 4 * 3 + 1);
    let b2 = byte_or_zero(bytes, i / 4 * 3 + 2);
    if i % 4 == 0 {
        b0 / 4
    } else if i % 4 == 1 {
        b0 % 4 * 16 + b1 / 16
    } else if i % 4 == 2 {
        b1 % 16 * 4 + b2 / 64
    } else {
        b2 % 64
    }
}

/// The standard base64 text of `bytes`, without padding.
pub open spec fn base64_text(bytes: Seq<u8>) -> Seq<char> {
    Seq::new((4 * bytes.len() + 2) as nat / 3, |i: int| base64_char(sextet(bytes, i)))
}

/// Calls `Engine::encode` of the engine `base64::engine::general_purpose::STANDARD_NO_PAD`.
///
/// Trusted: the text has one character of the standard alphabet for every six bits of `bytes`,
/// the last group filled up with zero bits, and no padding. A slice holds at most `isize::MAX`
/// bytes, for which the length of the text does not overflow.
#[verifier::external_body]
pub(crate) fn encode_no_pad(bytes: &[u8]) -> (text: String)
    ensures
        text@ == base64_text(bytes@),
{
    base64::engine::general_purpose::STANDARD_NO_PAD.encode(bytes)
}

/// Every base64 digit is one of the sixty-four characters of the alphabet.
proof fn lemma_sextet_range(bytes: Seq<u8>, i: int)
    requires
        0 <= i,
    ensures
        0 <= sextet(bytes, i) < 64,
{
}

/// Different digits have different characters.
proof fn lemma_base64_char_injective(m: int, n: int)
    requires
        0 <= m < 64,
        0 <= n < 64,
        base64_char(m) == base64_char(n),
    ensures
        m == n,
{
}

/// Base64 loses nothing: two byte sequences with the same text are the same.
pub proof fn law_base64_injective(a: Seq<u8>, b: Seq<u8>)
    requires
        base64_text(a) == base64_text(b),
    ensures
        a == b,
{
    assert(base64_text(a).len() == (4 * a.len() + 2) as nat / 3);
    assert(base64_text(b).len() == (4 * b.len() + 2) as nat / 3);
    assert(a.len() == b.len());
    assert forall|i: int| 0 <= i < (4 * a.len() + 2) as nat / 3 implies sextet(a, i) == sextet(
        b,
        i,
    ) by {
        assert(base64_text(a)[i] == base64_char(sextet(a, i)));
        assert(base64_text(b)[i] == base64_char(sextet(b, i)));
        lemma_sextet_range(a, i);
        lemma_sextet_range(b, i);
        lemma_base64_char_injective(sextet(a, i), sextet(b, i));
    }
    assert forall|j: int| 0 <= j < a.len() implies a[j] == b[j] by {
        let i = j / 3 * 4 + j % 3;
        assert(i / 4 == j / 3 && i % 4 == j % 3 && (i + 1) / 4 == j / 3);
        assert(sextet(a, i) == sextet(b, i));
        assert(sextet(a, i + 1) == sextet(b, i + 1));
    }
    assert(a =~= b);
}

/// Whether a header may hold `text`: no control character but the tab, and no delete.
pub open spec fn header_safe(text: Seq<char>) -> bool {
    forall|i: int| 0 <= i < text.len() ==> header_safe_char(#[trigger] text[i])
}

pub open spec fn header_safe_char(c: char) -> bool {
    c == '\t' || (c >= ' ' && c != '\x7f')
}

/// Calls `hyper::header::HeaderValue::from_str`.
///
/// Trusted: it accepts exactly the texts without a control character other than the tab, and
/// without a delete character. Characters outside of ASCII are accepted.
#[verifier::external_body]
pub(crate) fn is_header_value(text: &str) -> (accepted: bool)
    ensures
        accepted == header_safe(text@),
{
    hyper::header::HeaderValue::from_str(text).is_ok()
}

/// Base64 text may stand in a header.
pub proof fn law_base64_header_safe(bytes: Seq<u8>)
    ensures
        header_safe(base64_text(bytes)),
{
    assert forall|i: int| 0 <= i < base64_text(bytes).len() implies header_safe_char(
        #[trigger] base64_text(bytes)[i],
    ) by {
        lemma_sextet_range(bytes, i);
    }
}

/// The hexadecimal digit of `n`, in lower case.
pub open spec fn hex_char(n: int) -> char {
    if n < 10 {
        ('0' as int + n) as char
    } else {
        ('a' as int + n - 10) as char
    }
}

/// How the character `c` is written inside a JSON string.
pub open spec fn json_char(c: char) -> Seq<char> {
    if c == '"' {
        seq!['\\', '"']
    } else if c == '\\' {
        seq!['\\', '\\']
    } else if c == '\x08' {
        seq!['\\', 'b']
    } else if c == '\x0c' {
        seq!['\\', 'f']
    } else if c == '\n' {
        seq!['\\', 'n']
    } else if c == '\r' {
        seq!['\\', 'r']
    } else if c == '\t' {
        seq!['\\', 't']
    } else if ' ' > c {
        seq!['\\', 'u', '0', '0', hex_char(c as int / 16), hex_char(c as int % 16)]
    } else {
        seq![c]
    }
}

/// `text` as a JSON string, quotes included.
pub open spec fn json_string(text: Seq<char>) -> Seq<char> {
    seq!['"'] + text.map_values(|c: char| json_char(c)).flatten() + seq!['"']
}

/// The JSON object with the one member `key`.
pub open spec fn json_object(key: Seq<char>, value: Seq<char>) -> Seq<char> {
    seq!['{'] + json_string(key) + seq![':'] + json_string(value) + seq!['}']
}

/// Makes a `serde_json::Value` object of one string member and calls its `to_string`.
///
/// Trusted: the text is the compact JSON object with that member.
#[verifier::external_body]
pub(crate) fn json_object_text(key: &str, value: &str) -> (text: String)
    ensures
        text@ == json_object(key@, value@),
{
    let member = (key.to_string(), serde_json::Value::String(value.to_string()));
    serde_json::Value::Object(serde_json::Map::from_iter([member])).to_string()
}

/// No character is written as the beginning of what another one is written as.
proof fn lemma_json_char_prefix_free(c: char, d: char, rest1: Seq<char>, rest2: Seq<char>)
    requires
        json_char(c) + rest1 == json_char(d) + rest2,
    ensures
        c == d,
        rest1 == rest2,
{
    let whole = json_char(c) + rest1;
    assert(whole == json_char(d) + rest2);
    assert(whole[0] == json_char(c)[0] && whole[0] == json_char(d)[0]);
    if whole[0] == '\\' {
        assert(whole[1] == json_char(c)[1] && whole[1] == json_char(d)[1]);
        if whole[1] == 'u' {
            assert(whole[4] == json_char(c)[4] && whole[4] == json_char(d)[4]);
            assert(whole[5] == json_char(c)[5] && whole[5] == json_char(d)[5]);
        }
    }
    assert(c == d);
    assert(rest1 =~= whole.skip(json_char(c).len() as int));
    assert(rest2 =~= whole.skip(json_char(d).len() as int));
}

proof fn lemma_json_text_injective(a: Seq<char>, b: Seq<char>)
    requires
        a.map_values(|c: char| json_char(c)).flatten() == b.map_values(
            |c: char| json_char(c),
        ).flatten(),
    ensures
        a == b,
    decreases a.len(),
{
    let write = |c: char| json_char(c);
    let x = a.map_values(write);
    let y = b.map_values(write);
    if a.len() == 0 {
        if b.len() > 0 {
            assert(y.first() == json_char(b[0]));
            assert(y.flatten() == y.first() + y.drop_first().flatten());
            assert(y.flatten().len() > 0);
        }
        assert(a =~= b);
    } else if b.len() == 0 {
        assert(x.first() == json_char(a[0]));
        assert(x.flatten() == x.first() + x.drop_first().flatten());
        assert(x.flatten().len() > 0);
    } else {
        assert(x.drop_first() =~= a.drop_first().map_values(write));
        assert(y.drop_first() =~= b.drop_first().map_values(write));
        assert(x.flatten() == json_char(a[0]) + x.drop_first().flatten());
        assert(y.flatten() == json_char(b[0]) + y.drop_first().flatten());
        lemma_json_char_prefix_free(
            a[0],
            b[0],
            x.drop_first().flatten(),
            y.drop_first().flatten(),
        );
        lemma_json_text_injective(a.drop_first(), b.drop_first());
        assert(a =~= seq![a[0]] + a.drop_first());
        assert(b =~= seq![b[0]] + b.drop_first());
    }
}

/// JSON loses nothing: objects of the same member with the same text have the same value.
pub proof fn law_json_object_injective(key: Seq<char>, a: Seq<char>, b: Seq<char>)
    requires
        json_object(key, a) == json_object(key, b),
    ensures
        a == b,
{
    let write = |c: char| json_char(c);
    let start = seq!['{'] + json_string(key) + seq![':'];
    let x = a.map_values(write).flatten();
    let y = b.map_values(write).flatten();
    let n = start.len() as int + 1;
    let whole = json_object(key, a);
    assert(whole =~= start + json_string(a) + seq!['}']);
    assert(json_object(key, b) =~= start + json_string(b) + seq!['}']);
    assert(x.len() == y.len());
    assert(x =~= whole.subrange(n, n + x.len()));
    assert(y =~= json_object(key, b).subrange(n, n + y.len()));
    lemma_json_text_injective(a, b);
}

} // verus!
