//! Hexadecimal and base64 texts of bytes.

use vstd::prelude::*;
use vstd::string::*;
use base64::Engine;

verus! {

/// What `STANDARD.decode` reads from a text: the bytes, or the text of its
/// error.
pub uninterp spec fn base64_bytes(text: Seq<char>) -> Result<Seq<u8>, Seq<char>>;

/// The text of the error that `hex::decode` gives for a text.
pub uninterp spec fn hex_error(text: Seq<char>) -> Seq<char>;

/// The base64 digit of a number below 64, in the standard alphabet.
pub open spec fn base64_char(d: int) -> char {
    if d < 26 {
        (65 + d) as char
    } else if d < 52 {
        (71 + d) as char
    } else if d < 62 {
        (d - 4) as char
    } else if d == 62 {
        '+'
    } else {
        '/'
    }
}

/// The base64 text of some bytes: four digits for each three bytes, the highest
/// bits first. The last bytes are filled up with zero bits to whole digits, and
/// those with `=` to four.
#[verifier::opaque]
pub open spec fn base64_text(bytes: Seq<u8>) -> Seq<char> {
    let byte = |k: int| if k < bytes.len() { bytes[k] as int } else { 0 };
    Seq::new(
        4 * ((bytes.len() + 2) / 3),
        |i: int|
            {
                let k = 3 * (i / 4);
                let bits = 65536 * byte(k) + 256 * byte(k + 1) + byte(k + 2);
                if i % 4 == 0 {
                    base64_char(bits / 262144)
                } else if i % 4 == 1 {
                    base64_char(bits / 4096 % 64)
                } else if i % 4 == 2 && k + 1 < bytes.len() {
                    base64_char(bits / 64 % 64)
                } else if i % 4 == 3 && k + 2 < bytes.len() {
                    base64_char(bits % 64)
                } else {
                    '='
                }
            },
    )
}

/// The lower-case hexadecimal digit of a number below 16.
pub open spec fn hex_char(d: int) -> char {
    if d < 10 {
        (48 + d) as char
    } else {
        (87 + d) as char
    }
}

/// Two lower-case hexadecimal digits for each byte, the higher one first.
pub open spec fn hex_text(bytes: Seq<u8>) -> Seq<char> {
    Seq::new(
        2 * bytes.len(),
        |i: int|
            hex_char(
                if i % 2 == 0 {
                    bytes[i / 2] as int / 16
                } else {
                    bytes[i / 2] as int % 16
                },
            ),
    )
}

/// The value of a hexadecimal digit, of either case.
pub open spec fn hex_digit(c: char) -> Option<int> {
    if '0' <= c <= '9' {
        Some(c as int - 48)
    } else if 'a' <= c <= 'f' {
        Some(c as int - 87)
    } else if 'A' <= c <= 'F' {
        Some(c as int - 55)
    } else {
        None
    }
}

/// The bytes that a text of hexadecimal digit pairs writes.
pub open spec fn hex_bytes(s: Seq<char>) -> Option<Seq<u8>> {
    if s.len() % 2 == 0 && forall|i: int| 0 <= i < s.len() ==> hex_digit(#[trigger] s[i]) is Some {
        Some(
            Seq::new(
                s.len() / 2,
                |i: int| (hex_digit(s[2 * i])->0 * 16 + hex_digit(s[2 * i + 1])->0) as u8,
            ),
        )
    } else {
        None
    }
}

/// The bytes written in hexadecimal read back as those bytes.
pub proof fn lemma_hex_reads_back(bytes: Seq<u8>)
    ensures
        hex_bytes(hex_text(bytes)) == Some(bytes),
{
    let s = hex_text(bytes);
    assert forall|i: int| 0 <= i < s.len() implies hex_digit(#[trigger] s[i]) is Some by {
        let d = if i % 2 == 0 {
            bytes[i / 2] as int / 16
        } else {
            bytes[i / 2] as int % 16
        };
        assert(0 <= d < 16);
    }
    assert forall|i: int| 0 <= i < bytes.len() implies (hex_digit(s[2 * i])->0 * 16 + hex_digit(
        s[2 * i + 1],
    )->0) as u8 == #[trigger] bytes[i] by {
        assert((2 * i) / 2 == i && (2 * i) % 2 == 0);
        assert((2 * i + 1) / 2 == i && (2 * i + 1) % 2 == 1);
        let high = bytes[i] as int / 16;
        let low = bytes[i] as int % 16;
        assert(0 <= high < 16 && 0 <= low < 16);
        assert(high * 16 + low == bytes[i]);
    }
    assert(hex_bytes(s)->0 =~= bytes);
}

/// `hex::encode`: two lower-case hexadecimal digits for each byte.
#[verifier::external_body]
pub(crate) fn hex_encode(bytes: &[u8]) -> (r: String)
    ensures
        r@ == hex_text(bytes@),
{
    hex::encode(bytes)
}

/// `hex::decode`: the bytes, where the text is hexadecimal digit pairs. The
/// wording of its error is a name, but for an odd number of bytes.
#[verifier::external_body]
pub(crate) fn hex_decode(text: &str) -> (r: Result<Vec<u8>, String>)
    ensures
        match r {
            Ok(b) => hex_bytes(text@) == Some(b@),
            Err(e) => hex_bytes(text@) is None && e@ == hex_error(text@),
        },
        r matches Err(e) ==> text.spec_bytes().len() % 2 == 1 ==> e@ == "Odd number of digits"@,
{
    hex::decode(text).map_err(|e| e.to_string())
}

/// `encode` of base64's `STANDARD` engine: the standard alphabet, padded with
/// `=`. `STANDARD` decodes the text to the same bytes again.
#[verifier::external_body]
pub(crate) fn base64_encode(bytes: &[u8]) -> (r: String)
    ensures
        r@ == base64_text(bytes@),
        (base64_bytes(r@) == Ok::<Seq<u8>, Seq<char>>(bytes@)),
{
    base64::engine::general_purpose::STANDARD.encode(bytes)
}

/// `decode` of base64's `STANDARD` engine. The bytes and the wording of the
/// error stay a name.
#[verifier::external_body]
pub(crate) fn base64_decode(text: &str) -> (r: Result<Vec<u8>, String>)
    ensures
        match r {
            Ok(b) => base64_bytes(text@) == Ok::<Seq<u8>, Seq<char>>(b@),
            Err(e) => base64_bytes(text@) == Err::<Seq<u8>, Seq<char>>(e@),
        },
{
    base64::engine::general_purpose::STANDARD.decode(text).map_err(|e| e.to_string())
}

} // verus!
