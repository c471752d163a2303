//! Text forms of bytes: base64, hexadecimal and percent-encoding.

use base64::Engine as _;
#[allow(unused_imports)]
use crate::text::white_space;
use vstd::prelude::*;
use vstd::utf8::encode_utf8;

verus! {

/// The base64 digit that stands for six bits.
pub open spec fn base64_digit(bits: int) -> char {
    if bits < 26 {
        ('A' as u32 + bits) as char
    } else if bits < 52 {
        ('a' as u32 + (bits - 26)) as char
    } else if bits < 62 {
        ('0' as u32 + (bits - 52)) as char
    } else if bits == 62 {
        '+'
    } else {
        '/'
    }
}

/// Standard base64 with padding: four digits for every three bytes, and `=` in the places that
/// a last group of one or two bytes leaves open.
pub open spec fn base64_text(bytes: Seq<u8>) -> Seq<char>
    decreases bytes.len(),
{
    if bytes.len() == 0 {
        Seq::empty()
    } else {
        let a = bytes[0] as int;
        let b = if bytes.len() > 1 { bytes[1] as int } else { 0 };
        let c = if bytes.len() > 2 { bytes[2] as int } else { 0 };
        let group = seq![
            base64_digit(a / 4),
            base64_digit((a % 4) * 16 + b / 16),
            if bytes.len() > 1 { base64_digit((b % 16) * 4 + c / 64) } else { '=' },
            if bytes.len() > 2 { base64_digit(c % 64) } else { '=' },
        ];
        if bytes.len() <= 3 {
            group
        } else {
            group + base64_text(bytes.skip(3))
        }
    }
}

/// Why a text is no base64.
#[verifier::external_type_specification]
#[verifier::external_body]
pub struct ExDecodeError(base64::DecodeError);

/// `base64::engine::general_purpose::STANDARD.encode`: the base64 text of the bytes. It panics
/// where the length of that text overflows, which the bound leaves out.
#[verifier::external_body]
pub(crate) fn encode_base64(bytes: &[u8]) -> (r: String)
    requires
        bytes@.len() <= usize::MAX / 4,
    ensures
        r@ == base64_text(bytes@),
{
    base64::engine::general_purpose::STANDARD.encode(bytes)
}

/// `base64::engine::general_purpose::STANDARD.decode`: the bytes whose base64 text this is. The
/// engine asks for canonical padding and for zeros in the bits that the last digit has to spare,
/// so it refuses every text that is not the base64 text of some bytes.
#[verifier::external_body]
pub(crate) fn decode_base64(text: &str) -> (r: Result<Vec<u8>, base64::DecodeError>)
    ensures
        r matches Ok(bytes) ==> base64_text(bytes@) == text@,
        r is Err ==> forall|bytes: Seq<u8>| #[trigger] base64_text(bytes) != text@,
{
    base64::engine::general_purpose::STANDARD.decode(text)
}

proof fn base64_digit_injective(a: int, b: int)
    requires
        0 <= a < 64,
        0 <= b < 64,
        base64_digit(a) == base64_digit(b),
    ensures
        a == b,
{
}

proof fn base64_digit_is_no_padding(a: int)
    requires
        0 <= a < 64,
    ensures
        base64_digit(a) != '=',
{
}

proof fn base64_text_len(bytes: Seq<u8>)
    ensures
        bytes.len() > 0 ==> base64_text(bytes).len() >= 4,
        bytes.len() > 3 ==> base64_text(bytes).len() >= 8,
    decreases bytes.len(),
{
    if bytes.len() > 3 {
        base64_text_len(bytes.skip(3));
    }
}

/// Different bytes have different base64 texts, so a text says which bytes it stands for.
pub proof fn base64_text_injective(x: Seq<u8>, y: Seq<u8>)
    requires
        base64_text(x) == base64_text(y),
    ensures
        x == y,
    decreases x.len(),
{
    base64_text_len(x);
    base64_text_len(y);
    if x.len() == 0 || y.len() == 0 {
        assert(x =~= y);
    } else {
        let s = base64_text(x);
        let t = base64_text(y);
        let (a1, a2) = (x[0] as int, y[0] as int);
        let b1 = if x.len() > 1 { x[1] as int } else { 0 };
        let b2 = if y.len() > 1 { y[1] as int } else { 0 };
        let c1 = if x.len() > 2 { x[2] as int } else { 0 };
        let c2 = if y.len() > 2 { y[2] as int } else { 0 };
        assert(s[0] == base64_digit(a1 / 4) && t[0] == base64_digit(a2 / 4));
        assert(s[1] == base64_digit((a1 % 4) * 16 + b1 / 16));
        assert(t[1] == base64_digit((a2 % 4) * 16 + b2 / 16));
        base64_digit_injective(a1 / 4, a2 / 4);
        base64_digit_injective((a1 % 4) * 16 + b1 / 16, (a2 % 4) * 16 + b2 / 16);
        base64_digit_is_no_padding((b1 % 16) * 4 + c1 / 64);
        base64_digit_is_no_padding((b2 % 16) * 4 + c2 / 64);
        base64_digit_is_no_padding(c1 % 64);
        base64_digit_is_no_padding(c2 % 64);
        assert(s[2] == if x.len() > 1 { base64_digit((b1 % 16) * 4 + c1 / 64) } else { '=' });
        assert(t[2] == if y.len() > 1 { base64_digit((b2 % 16) * 4 + c2 / 64) } else { '=' });
        assert(s[3] == if x.len() > 2 { base64_digit(c1 % 64) } else { '=' });
        assert(t[3] == if y.len() > 2 { base64_digit(c2 % 64) } else { '=' });
        assert(a1 == a2);
        if x.len() > 1 {
            base64_digit_injective((b1 % 16) * 4 + c1 / 64, (b2 % 16) * 4 + c2 / 64);
            assert(b1 == b2);
        }
        if x.len() > 2 {
            base64_digit_injective(c1 % 64, c2 % 64);
            assert(c1 == c2);
        }
        if x.len() > 3 || y.len() > 3 {
            assert(x.len() > 3 && y.len() > 3);
            assert(base64_text(x.skip(3)) =~= s.skip(4));
            assert(base64_text(y.skip(3)) =~= t.skip(4));
            base64_text_injective(x.skip(3), y.skip(3));
            assert(x =~= x.take(3) + x.skip(3));
            assert(y =~= y.take(3) + y.skip(3));
            assert(x.take(3) =~= y.take(3));
        }
        assert(x =~= y);
    }
}

/// The bytes that a base64 text stands for, `None` where it is the base64 text of no bytes.
pub open spec fn base64_bytes(text: Seq<char>) -> Option<Seq<u8>> {
    if exists|bytes: Seq<u8>| #[trigger] base64_text(bytes) == text {
        Some(choose|bytes: Seq<u8>| #[trigger] base64_text(bytes) == text)
    } else {
        None
    }
}

/// The bytes of a base64 text are the ones that it was made from.
pub proof fn base64_reads_back(bytes: Seq<u8>)
    ensures
        base64_bytes(base64_text(bytes)) == Some(bytes),
{
    let text = base64_text(bytes);
    let found = choose|b: Seq<u8>| #[trigger] base64_text(b) == text;
    base64_text_injective(bytes, found);
}

/// Base64 text holds no white space.
pub proof fn base64_text_has_no_white_space(bytes: Seq<u8>)
    ensures
        forall|i: int|
            0 <= i < base64_text(bytes).len() ==> !white_space(#[trigger] base64_text(bytes)[i]),
    decreases bytes.len(),
{
    if bytes.len() > 0 {
        let a = bytes[0] as int;
        let b = if bytes.len() > 1 { bytes[1] as int } else { 0 };
        let c = if bytes.len() > 2 { bytes[2] as int } else { 0 };
        base64_digit_is_no_white_space(a / 4);
        base64_digit_is_no_white_space((a % 4) * 16 + b / 16);
        base64_digit_is_no_white_space((b % 16) * 4 + c / 64);
        base64_digit_is_no_white_space(c % 64);
        let s = base64_text(bytes);
        if bytes.len() > 3 {
            let rest = base64_text(bytes.skip(3));
            base64_text_has_no_white_space(bytes.skip(3));
            assert forall|i: int| 0 <= i < s.len() implies !white_space(#[trigger] s[i]) by {
                if i >= 4 {
                    assert(s[i] == rest[i - 4]);
                }
            }
        }
    }
}

proof fn base64_digit_is_no_white_space(a: int)
    requires
        0 <= a < 64,
    ensures
        !white_space(base64_digit(a)),
{
}

/// A hexadecimal digit in lower case.
pub open spec fn hex_digit(n: int) -> char {
    if n < 10 {
        ('0' as u32 + n) as char
    } else {
        ('a' as u32 + (n - 10)) as char
    }
}

/// Two hexadecimal digits for each byte, the high half first.
pub open spec fn hex_text(bytes: Seq<u8>) -> Seq<char> {
    Seq::new(
        bytes.len() * 2,
        |i: int|
            if i % 2 == 0 {
                hex_digit(bytes[i / 2] as int / 16)
            } else {
                hex_digit(bytes[i / 2] as int % 16)
            },
    )
}

/// `hex::encode`: two lower-case hexadecimal digits for each byte.
#[verifier::external_body]
pub(crate) fn encode_hex(bytes: &[u8]) -> (r: String)
    ensures
        r@ == hex_text(bytes@),
{
    hex::encode(bytes)
}

/// The characters that may stand in lower-case hexadecimal text.
pub open spec fn is_hex(c: char) -> bool {
    '0' <= c <= '9' || 'a' <= c <= 'f'
}

/// Hexadecimal text is twice as long as its bytes and holds hexadecimal digits only.
pub proof fn hex_text_shape(bytes: Seq<u8>)
    ensures
        hex_text(bytes).len() == bytes.len() * 2,
        forall|i: int| 0 <= i < hex_text(bytes).len() ==> is_hex(#[trigger] hex_text(bytes)[i]),
{
}

/// The bytes that percent-encoding leaves as they are: letters, digits, `-`, `_`, `.` and `~`.
pub open spec fn unreserved(b: u8) -> bool {
    ||| 0x30 <= b <= 0x39
    ||| 0x41 <= b <= 0x5A
    ||| 0x61 <= b <= 0x7A
    ||| b == 0x2D
    ||| b == 0x2E
    ||| b == 0x5F
    ||| b == 0x7E
}

/// A hexadecimal digit in upper case.
pub open spec fn upper_hex_digit(n: int) -> char {
    if n < 10 {
        ('0' as u32 + n) as char
    } else {
        ('A' as u32 + (n - 10)) as char
    }
}

/// Each reserved byte as `%` and two upper-case hexadecimal digits, the others as they are.
pub open spec fn percent_text(bytes: Seq<u8>) -> Seq<char>
    decreases bytes.len(),
{
    if bytes.len() == 0 {
        Seq::empty()
    } else {
        let b = bytes[0];
        let head = if unreserved(b) {
            seq![b as char]
        } else {
            seq!['%', upper_hex_digit(b as int / 16), upper_hex_digit(b as int % 16)]
        };
        head + percent_text(bytes.drop_first())
    }
}

/// `urlencoding::encode`: percent-encodes the UTF-8 bytes of a text.
#[verifier::external_body]
pub(crate) fn encode_percent(text: &str) -> (r: String)
    ensures
        r@ == percent_text(encode_utf8(text@)),
{
    urlencoding::encode(text).into_owned()
}

} // verus!
