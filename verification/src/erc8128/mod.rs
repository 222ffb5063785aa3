//! Signed HTTP requests: RFC 9421 signature bases under EIP-191 signatures.

use vstd::prelude::*;
use vstd::string::*;
use vstd::utf8::*;

pub mod sign;
pub mod types;
pub mod verify;

pub use sign::Erc8128Signer;
pub use types::{Erc8128Error, Erc8128Identity, Erc8128SignedHeaders};
pub use verify::{has_erc8128_headers, verify_from_request};

use crate::crypto::{keccak256, keccak256_digest};
use crate::encoding::{hex_digit, hex_encode, hex_text, lemma_hex_reads_back};
use crate::models::domains::{fixed_hex, law_hex_case};
use crate::text::{after_prefix, ascii_upper, chars_of, law_prefix_and_rest};

verus! {

/// A hexadecimal digit as the checksum of its address writes it: upper case
/// where it is a letter and the hash has 8 or more at its place.
pub open spec fn checksum_char(hex: Seq<char>, hash: Seq<u8>, i: int) -> char {
    let nibble = if i % 2 == 0 {
        hash[i / 2] as int / 16
    } else {
        hash[i / 2] as int % 16
    };
    if nibble >= 8 {
        ascii_upper(hex[i])
    } else {
        hex[i]
    }
}

/// The hexadecimal digits of an address as a hash of 32 bytes has them cased.
pub open spec fn cased_hex(hex: Seq<char>, hash: Seq<u8>) -> Seq<char> {
    "0x"@ + Seq::new(hex.len(), |i: int| checksum_char(hex, hash, i))
}

/// The mixed-case EIP-55 text of an address.
pub open spec fn checksum_text(bytes: Seq<u8>) -> Seq<char> {
    cased_hex(hex_text(bytes), keccak256(encode_utf8(hex_text(bytes))))
}

/// The hexadecimal digits of an address as a hash has them cased.
pub fn apply_checksum(text: &str, hash: &Vec<u8>) -> (r: String)
    requires
        text@.len() == 40,
        hash@.len() == 32,
    ensures
        r@ == cased_hex(text@, hash@),
{
    let hex = chars_of(text);
    let mut out = "0x".to_owned();
    let ghost digits = Seq::new(hex@.len(), |i: int| checksum_char(hex@, hash@, i));
    assert(digits.take(0) =~= seq![]);
    assert(out@ =~= "0x"@ + digits.take(0));
    let mut i: usize = 0;
    while i < hex.len()
        invariant
            i <= hex@.len(),
            hex@.len() == 40,
            hash@.len() == 32,
            digits == Seq::new(hex@.len(), |i: int| checksum_char(hex@, hash@, i)),
            out@ == "0x"@ + digits.take(i as int),
        decreases hex@.len() - i,
    {
        let c = hex[i];
        let byte = hash[i / 2];
        let nibble = if i % 2 == 0 {
            byte / 16
        } else {
            byte % 16
        };
        let shown = if nibble >= 8 && 'a' <= c && c <= 'z' {
            ((c as u8) - 32u8) as char
        } else {
            c
        };
        assert(shown == digits[i as int]);
        out.push(shown);
        i += 1;
        assert(out@ =~= "0x"@ + digits.take(i as int));
    }
    assert(digits.take(i as int) =~= digits);
    out
}

/// The mixed-case EIP-55 text of an address.
pub fn to_checksum_address(addr_bytes: &[u8; 20]) -> (r: String)
    ensures
        r@ == checksum_text(addr_bytes@),
{
    let text = hex_encode(addr_bytes.as_slice());
    let hash = keccak256_digest(text.as_str().as_bytes());
    apply_checksum(text.as_str(), &hash)
}

/// The checksum of an address changes nothing but the case of its letters:
/// behind `0x` the same digits stand, a letter in upper case where the hash has
/// 8 or more at its place and in lower case elsewhere.
pub proof fn law_checksum_is_in_the_case(bytes: Seq<u8>, hash: Seq<u8>, i: int)
    requires
        0 <= i < 2 * bytes.len(),
    ensures
        ({
            let plain = hex_text(bytes);
            let cased = cased_hex(plain, hash);
            let nibble = if i % 2 == 0 {
                hash[i / 2] as int / 16
            } else {
                hash[i / 2] as int % 16
            };
            &&& after_prefix(cased, "0x"@) is Some
            &&& cased.len() == 2 + 2 * bytes.len()
            &&& hex_digit(cased[2 + i]) == hex_digit(plain[i])
            &&& 'a' <= plain[i] <= 'f' && nibble >= 8 ==> 'A' <= cased[2 + i] <= 'F'
            &&& nibble < 8 || '0' <= plain[i] <= '9' ==> cased[2 + i] == plain[i]
        }),
{
    reveal_strlit("0x");
    let plain = hex_text(bytes);
    let digits = Seq::new(plain.len(), |i: int| checksum_char(plain, hash, i));
    law_prefix_and_rest("0x"@ + digits, "0x"@, digits);
    assert(cased_hex(plain, hash)[2 + i] == digits[i]);
}

/// An address with its checksum reads back as the same bytes, whatever the
/// hash.
pub proof fn law_checksum_reads_back(bytes: Seq<u8>, what: Seq<char>)
    ensures
        fixed_hex(checksum_text(bytes), bytes.len(), what) == Ok::<Seq<u8>, Seq<char>>(bytes),
{
    let plain = hex_text(bytes);
    let hash = keccak256(encode_utf8(plain));
    let digits = Seq::new(plain.len(), |i: int| checksum_char(plain, hash, i));
    reveal_strlit("0x");
    law_prefix_and_rest("0x"@ + digits, "0x"@, digits);
    assert forall|i: int| 0 <= i < plain.len() implies hex_digit(#[trigger] plain[i]) == hex_digit(
        digits[i],
    ) by {
        law_checksum_is_in_the_case(bytes, hash, i);
        assert(cased_hex(plain, hash)[2 + i] == digits[i]);
    }
    law_hex_case(plain, digits);
    lemma_hex_reads_back(bytes);
}

} // verus!
