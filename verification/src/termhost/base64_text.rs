//! Raw bytes inside JSON strings: standard base64, the form the daemon's JSON
//! codec gives byte slices.

use base64::Engine;
use vstd::prelude::*;

verus! {

/// The base64 digit of a 6-bit value.
pub open spec fn b64_digit(v: int) -> char {
    if v < 26 {
        (65 + v) as char
    } else if v < 52 {
        (97 + (v - 26)) as char
    } else if v < 62 {
        (48 + (v - 52)) as char
    } else if v == 62 {
        '+'
    } else {
        '/'
    }
}

/// Byte `i` of `b`, zero beyond the end.
pub open spec fn byte_or_zero(b: Seq<u8>, i: int) -> int {
    if i < b.len() {
        b[i] as int
    } else {
        0
    }
}

/// The 6-bit value of digit `k` of the three-byte group from `g` on.
pub open spec fn b64_sextet(b: Seq<u8>, g: int, k: int) -> int {
    if k == 0 {
        byte_or_zero(b, g) / 4
    } else if k == 1 {
        byte_or_zero(b, g) % 4 * 16 + byte_or_zero(b, g + 1) / 16
    } else if k == 2 {
        byte_or_zero(b, g + 1) % 16 * 4 + byte_or_zero(b, g + 2) / 64
    } else {
        byte_or_zero(b, g + 2) % 64
    }
}

/// Character `i` of the padded text: digit `i % 4` of group `i / 4`, or `=` for
/// a digit that carries none of the last group's bytes.
pub open spec fn b64_char(b: Seq<u8>, i: int) -> char {
    if i / 4 * 3 + i % 4 > b.len() {
        '='
    } else {
        b64_digit(b64_sextet(b, i / 4 * 3, i % 4))
    }
}

/// The padded base64 text of `b`: four characters for every three bytes.
pub open spec fn b64_text(b: Seq<u8>) -> Seq<char> {
    Seq::new((b.len() + 2) / 3 * 4, |i: int| b64_char(b, i))
}

/// `base64::DecodeError`, carried and never looked into.
#[verifier::external_type_specification]
#[verifier::external_body]
pub struct ExDecodeError(base64::DecodeError);

/// Calls `STANDARD.encode` of the `base64` crate: the standard alphabet, with
/// padding. The text must be short enough to be allocated.
#[verifier::external_body]
fn standard_encode(bytes: &[u8]) -> (r: String)
    requires
        (bytes@.len() + 2) / 3 * 4 <= isize::MAX,
    ensures
        r@ == b64_text(bytes@),
{
    base64::engine::general_purpose::STANDARD.encode(bytes)
}

/// Calls `STANDARD.decode` of the `base64` crate, which wants canonical padding
/// and no stray trailing bits: it accepts the bytes of a text that some byte
/// string encodes to, and only those, and gives back that byte string.
#[verifier::external_body]
fn standard_decode(text: &[u8]) -> (r: Result<Vec<u8>, base64::DecodeError>)
    ensures
        match r {
            Ok(bytes) => text@ == vstd::utf8::encode_utf8(b64_text(bytes@)),
            Err(_) => forall|b: Seq<u8>|
                text@ != vstd::utf8::encode_utf8(#[trigger] b64_text(b)),
        },
{
    base64::engine::general_purpose::STANDARD.decode(text)
}

/// The text is not canonical padded base64.
#[derive(Debug, Clone, Copy, PartialEq, Eq, Structural)]
pub struct NotBase64;

/// The base64 text of `bytes`.
pub fn b64_serialize(bytes: &[u8]) -> (r: String)
    requires
        (bytes@.len() + 2) / 3 * 4 <= isize::MAX,
    ensures
        r@ == b64_text(bytes@),
{
    standard_encode(bytes)
}

/// The bytes behind a base64 text. Fails exactly on the texts that no byte
/// string encodes to.
pub fn b64_deserialize(text: &str) -> (r: Result<Vec<u8>, NotBase64>)
    ensures
        match r {
            Ok(bytes) => text@ == b64_text(bytes@),
            Err(_) => forall|b: Seq<u8>| text@ != #[trigger] b64_text(b),
        },
{
    broadcast use vstd::utf8::encode_utf8_decode_utf8;

    match standard_decode(text.as_bytes()) {
        Ok(bytes) => {
            assert(text@ == b64_text(bytes@)) by {
                assert(vstd::utf8::decode_utf8(vstd::utf8::encode_utf8(text@)) == text@);
                assert(vstd::utf8::decode_utf8(vstd::utf8::encode_utf8(b64_text(bytes@)))
                    == b64_text(bytes@));
            }
            Ok(bytes)
        },
        Err(_) => Err(NotBase64),
    }
}

proof fn digits_differ(v: int, w: int)
    requires
        0 <= v < 64,
        0 <= w < 64,
    ensures
        b64_digit(v) == b64_digit(w) ==> v == w,
        b64_digit(v) != '=',
{
}

proof fn sextet_range(b: Seq<u8>, g: int, k: int)
    requires
        0 <= g,
        0 <= k < 4,
    ensures
        0 <= b64_sextet(b, g, k) < 64,
{
}

proof fn same_digit(a: Seq<u8>, b: Seq<u8>, g: int, k: int)
    requires
        b64_text(a) == b64_text(b),
        0 <= g,
        g % 3 == 0,
        g < a.len(),
        0 <= k < 4,
    ensures
        g + k > a.len() <==> g + k > b.len(),
        g + k <= a.len() ==> b64_sextet(a, g, k) == b64_sextet(b, g, k),
{
    let i = g / 3 * 4 + k;
    assert(i / 4 * 3 == g && i % 4 == k);
    assert(0 <= i < b64_text(a).len());
    assert(b64_text(a).len() == b64_text(b).len());
    assert(b64_text(a)[i] == b64_char(a, i));
    assert(b64_text(b)[i] == b64_char(b, i));
    sextet_range(a, g, k);
    sextet_range(b, g, k);
    digits_differ(b64_sextet(a, g, k), b64_sextet(b, g, k));
    digits_differ(b64_sextet(b, g, k), b64_sextet(a, g, k));
}

/// Different byte strings have different base64 texts.
pub proof fn b64_text_is_injective(a: Seq<u8>, b: Seq<u8>)
    requires
        b64_text(a) == b64_text(b),
    ensures
        a == b,
{
    let (m, n) = ((a.len() + 2) / 3, (b.len() + 2) / 3);
    assert(b64_text(a).len() == m * 4 && b64_text(b).len() == n * 4);
    assert(a.len() == b.len()) by {
        if a.len() > 0 && a.len() != b.len() {
            let g = (a.len() - 1) / 3 * 3;
            assert(m == n);
            same_digit(a, b, g, 2);
            same_digit(a, b, g, 3);
        }
    }
    assert forall|i: int| 0 <= i < a.len() implies a[i] == b[i] by {
        let g = i / 3 * 3;
        same_digit(a, b, g, 0);
        same_digit(a, b, g, 1);
        same_digit(a, b, g, 2);
        same_digit(a, b, g, 3);
    }
    assert(a =~= b);
}

/// Bytes written as base64 are read back unchanged.
pub proof fn b64_round_trips(bytes: Seq<u8>, read: Result<Seq<u8>, NotBase64>)
    requires
        match read {
            Ok(b) => b64_text(bytes) == b64_text(b),
            Err(_) => forall|b: Seq<u8>| b64_text(bytes) != #[trigger] b64_text(b),
        },
    ensures
        read == Ok::<Seq<u8>, NotBase64>(bytes),
{
    match read {
        Ok(b) => b64_text_is_injective(bytes, b),
        Err(_) => {
            assert(b64_text(bytes) == b64_text(bytes));
        },
    }
}

/// What a digit of the alphabet is worth: upper case, lower case, digits, plus and
/// slash, in this order.
pub open spec fn digit_worth(c: char) -> Option<int> {
    if 'A' <= c <= 'Z' {
        Some(c as int - 'A' as int)
    } else if 'a' <= c <= 'z' {
        Some(26 + (c as int - 'a' as int))
    } else if '0' <= c <= '9' {
        Some(52 + (c as int - '0' as int))
    } else if c == '+' {
        Some(62)
    } else if c == '/' {
        Some(63)
    } else {
        None
    }
}

/// Four digits are worth the three bytes they stand for, the first byte the most
/// significant.
pub proof fn digits_are_worth_their_bytes(b: Seq<u8>, g: int)
    requires
        0 <= g,
        3 * g + 2 < b.len(),
    ensures
        ({
            let t = b64_text(b);
            &&& 4 * g + 3 < t.len()
            &&& digit_worth(t[4 * g]) is Some && digit_worth(t[4 * g + 1]) is Some
            &&& digit_worth(t[4 * g + 2]) is Some && digit_worth(t[4 * g + 3]) is Some
            &&& 262144 * digit_worth(t[4 * g])->0 + 4096 * digit_worth(t[4 * g + 1])->0 + 64
                * digit_worth(t[4 * g + 2])->0 + digit_worth(t[4 * g + 3])->0 == 65536 * b[3 * g]
                + 256 * b[3 * g + 1] + b[3 * g + 2]
        }),
{
    assert((4 * g) / 4 == g && (4 * g) % 4 == 0);
    assert((4 * g + 1) / 4 == g && (4 * g + 1) % 4 == 1);
    assert((4 * g + 2) / 4 == g && (4 * g + 2) % 4 == 2);
    assert((4 * g + 3) / 4 == g && (4 * g + 3) % 4 == 3);
    let t = b64_text(b);
    assert(t[4 * g] == b64_char(b, 4 * g));
    assert(t[4 * g + 1] == b64_char(b, 4 * g + 1));
    assert(t[4 * g + 2] == b64_char(b, 4 * g + 2));
    assert(t[4 * g + 3] == b64_char(b, 4 * g + 3));
}

/// The text has four characters for every three bytes begun. It ends in two `=`
/// where one byte is left over, in one where two are, in none where none is.
pub proof fn short_groups_are_padded(b: Seq<u8>)
    requires
        b.len() > 0,
    ensures
        ({
            let t = b64_text(b);
            let n = t.len() as int;
            &&& n == 4 * ((b.len() + 2) / 3)
            &&& b.len() % 3 == 1 <==> t[n - 2] == '='
            &&& b.len() % 3 != 0 <==> t[n - 1] == '='
            &&& forall|i: int| 0 <= i < n - 2 ==> #[trigger] t[i] != '='
        }),
{
    let t = b64_text(b);
    let n = t.len() as int;
    assert(t[n - 1] == b64_char(b, n - 1));
    assert(t[n - 2] == b64_char(b, n - 2));
    sextet_range(b, (n - 1) / 4 * 3, (n - 1) % 4);
    sextet_range(b, (n - 2) / 4 * 3, (n - 2) % 4);
    assert forall|i: int| 0 <= i < n - 2 implies #[trigger] t[i] != '=' by {
        assert(t[i] == b64_char(b, i));
        sextet_range(b, i / 4 * 3, i % 4);
    }
}

/// The digits of a group cut short are worth its bytes, followed by zero bits.
pub proof fn short_groups_end_in_zero_bits(b: Seq<u8>)
    requires
        b.len() > 0,
    ensures
        ({
            let t = b64_text(b);
            let n = t.len() as int;
            let last = b.len() - 1;
            &&& b.len() % 3 == 1 ==> digit_worth(t[n - 4]) is Some && digit_worth(t[n - 3]) is Some
                && 64 * digit_worth(t[n - 4])->0 + digit_worth(t[n - 3])->0 == 16 * b[last]
            &&& b.len() % 3 == 2 ==> digit_worth(t[n - 4]) is Some && digit_worth(t[n - 3]) is Some
                && digit_worth(t[n - 2]) is Some && 4096 * digit_worth(t[n - 4])->0 + 64
                * digit_worth(t[n - 3])->0 + digit_worth(t[n - 2])->0 == 4 * (256 * b[last - 1]
                + b[last])
        }),
{
    let t = b64_text(b);
    let n = t.len() as int;
    let g = n / 4 - 1;
    assert(n == 4 * g + 4);
    assert((4 * g) / 4 == g && (4 * g) % 4 == 0);
    assert((4 * g + 1) / 4 == g && (4 * g + 1) % 4 == 1);
    assert((4 * g + 2) / 4 == g && (4 * g + 2) % 4 == 2);
    assert(t[4 * g] == b64_char(b, 4 * g));
    assert(t[4 * g + 1] == b64_char(b, 4 * g + 1));
    assert(t[4 * g + 2] == b64_char(b, 4 * g + 2));
}

} // verus!
