//! Addresses, 32-byte values and amounts, with their texts.

use vstd::prelude::*;
use vstd::string::*;

use crate::encoding::{
    hex_bytes, hex_decode, hex_digit, hex_encode, hex_error, hex_text, lemma_hex_reads_back,
};
use crate::text::{
    after_prefix, decimal, decimal_text, decimal_value, lemma_decimal, strip_prefix,
};

verus! {

/// The text of the error that `u128`'s `FromStr` gives for a text.
pub uninterp spec fn u128_error(text: Seq<char>) -> Seq<char>;

/// `str::parse::<u128>`: the number that digits after an optional plus sign
/// write, where 128 bits hold it. The wording of the error stays a name.
#[verifier::external_body]
fn parse_u128(s: &str) -> (r: Result<u128, String>)
    ensures
        match r {
            Ok(n) => decimal_value(s@) == Some(n as nat),
            Err(e) => e@ == u128_error(s@) && match decimal_value(s@) {
                Some(n) => n > u128::MAX,
                None => true,
            },
        },
{
    s.parse::<u128>().map_err(|e| e.to_string())
}

/// An Ethereum address.
#[derive(Debug, Clone, Copy, PartialEq, Eq)]
pub struct DomainEthAddress(pub [u8; 20]);

/// A 32-byte value.
#[derive(Debug, Clone, Copy, PartialEq, Eq)]
pub struct DomainBytes32(pub [u8; 32]);

/// An amount.
#[derive(Debug, Clone, Copy, PartialEq, Eq)]
pub struct DomainUint256(pub u128);

/// A text without the prefix `0x`, where it has it.
pub open spec fn without_0x(s: Seq<char>) -> Seq<char> {
    match after_prefix(s, "0x"@) {
        Some(t) => t,
        None => s,
    }
}

/// The `n` bytes that a hexadecimal text writes, with or without `0x`, or the
/// text of the error; `what` names the value where its length is wrong.
pub open spec fn fixed_hex(s: Seq<char>, n: nat, what: Seq<char>) -> Result<Seq<u8>, Seq<char>> {
    let t = without_0x(s);
    match hex_bytes(t) {
        Some(b) => if b.len() == n {
            Ok(b)
        } else {
            Err(
                "Invalid "@ + what + " length: expected "@ + decimal(n) + ", got "@ + decimal(
                    b.len(),
                ),
            )
        },
        None => Err(hex_error(t)),
    }
}

/// The bytes that a hexadecimal text writes, where there are `n` of them.
fn read_fixed_hex(s: &str, n: usize, what: &str) -> (r: Result<Vec<u8>, String>)
    ensures
        match r {
            Ok(b) => fixed_hex(s@, n as nat, what@) == Ok::<Seq<u8>, Seq<char>>(b@) && b@.len()
                == n,
            Err(e) => fixed_hex(s@, n as nat, what@) == Err::<Seq<u8>, Seq<char>>(e@),
        },
{
    let t = match strip_prefix(s, "0x") {
        Some(t) => t,
        None => s.to_owned(),
    };
    match hex_decode(t.as_str()) {
        Ok(b) => if b.len() == n {
            Ok(b)
        } else {
            let mut e = "Invalid ".to_owned();
            e.append(what);
            e.append(" length: expected ");
            e.append(decimal_text(n as u128).as_str());
            e.append(", got ");
            e.append(decimal_text(b.len() as u128).as_str());
            Err(e)
        },
        Err(e) => Err(e),
    }
}

impl DomainEthAddress {
    /// The 20 bytes.
    pub fn inner(&self) -> (r: [u8; 20])
        ensures
            r == self.0,
    {
        self.0
    }

    /// Reads an address from 40 hexadecimal digits, with or without `0x`.
    pub fn from_hex(s: &str) -> (r: Result<Self, String>)
        ensures
            match r {
                Ok(a) => fixed_hex(s@, 20, "address"@) == Ok::<Seq<u8>, Seq<char>>(a.0@),
                Err(e) => fixed_hex(s@, 20, "address"@) == Err::<Seq<u8>, Seq<char>>(e@),
            },
    {
        let bytes = match read_fixed_hex(s, 20, "address") {
            Ok(b) => b,
            Err(e) => return Err(e),
        };
        let mut arr = [0u8; 20];
        let mut i: usize = 0;
        while i < 20
            invariant
                i <= 20,
                bytes@.len() == 20,
                forall|j: int| 0 <= j < i ==> arr@[j] == bytes@[j],
            decreases 20 - i,
        {
            arr[i] = bytes[i];
            i += 1;
        }
        assert(arr@ =~= bytes@);
        Ok(DomainEthAddress(arr))
    }

    /// The address as `0x` and 40 lower-case hexadecimal digits.
    pub fn to_hex(&self) -> (r: String)
        ensures
            r@ == "0x"@ + hex_text(self.0@),
    {
        let mut out = "0x".to_owned();
        out.append(hex_encode(self.0.as_slice()).as_str());
        out
    }
}

impl DomainBytes32 {
    /// The 32 bytes.
    pub fn inner(&self) -> (r: [u8; 32])
        ensures
            r == self.0,
    {
        self.0
    }

    /// Reads a value from 64 hexadecimal digits, with or without `0x`.
    pub fn from_hex(s: &str) -> (r: Result<Self, String>)
        ensures
            match r {
                Ok(a) => fixed_hex(s@, 32, "bytes32"@) == Ok::<Seq<u8>, Seq<char>>(a.0@),
                Err(e) => fixed_hex(s@, 32, "bytes32"@) == Err::<Seq<u8>, Seq<char>>(e@),
            },
    {
        let bytes = match read_fixed_hex(s, 32, "bytes32") {
            Ok(b) => b,
            Err(e) => return Err(e),
        };
        let mut arr = [0u8; 32];
        let mut i: usize = 0;
        while i < 32
            invariant
                i <= 32,
                bytes@.len() == 32,
                forall|j: int| 0 <= j < i ==> arr@[j] == bytes@[j],
            decreases 32 - i,
        {
            arr[i] = bytes[i];
            i += 1;
        }
        assert(arr@ =~= bytes@);
        Ok(DomainBytes32(arr))
    }

    /// The value as `0x` and 64 lower-case hexadecimal digits.
    pub fn to_hex(&self) -> (r: String)
        ensures
            r@ == "0x"@ + hex_text(self.0@),
    {
        let mut out = "0x".to_owned();
        out.append(hex_encode(self.0.as_slice()).as_str());
        out
    }
}

impl DomainUint256 {
    /// The amount.
    pub fn inner(&self) -> (r: u128)
        ensures
            r == self.0,
    {
        self.0
    }

    /// Reads an amount from a decimal text.
    pub fn from_str(s: &str) -> (r: Result<Self, String>)
        ensures
            match r {
                Ok(a) => decimal_value(s@) == Some(a.0 as nat),
                Err(e) => e@ == u128_error(s@) && match decimal_value(s@) {
                    Some(n) => n > u128::MAX,
                    None => true,
                },
            },
    {
        match parse_u128(s) {
            Ok(n) => Ok(DomainUint256(n)),
            Err(e) => Err(e),
        }
    }

    /// Reads an amount from a decimal text.
    pub fn from_str_checked(s: &str) -> (r: Result<Self, String>)
        ensures
            match r {
                Ok(a) => decimal_value(s@) == Some(a.0 as nat),
                Err(e) => e@ == u128_error(s@) && match decimal_value(s@) {
                    Some(n) => n > u128::MAX,
                    None => true,
                },
            },
    {
        Self::from_str(s)
    }

    /// The amount in decimal.
    pub fn to_string(&self) -> (r: String)
        ensures
            r@ == decimal(self.0 as nat),
    {
        decimal_text(self.0)
    }
}

impl From<u64> for DomainUint256 {
    fn from(val: u64) -> (r: Self) {
        DomainUint256(val as u128)
    }
}

impl vstd::std_specs::convert::FromSpecImpl<u64> for DomainUint256 {
    open spec fn obeys_from_spec() -> bool {
        true
    }

    open spec fn from_spec(val: u64) -> Self {
        DomainUint256(val as u128)
    }
}

impl From<u128> for DomainUint256 {
    fn from(val: u128) -> (r: Self) {
        DomainUint256(val)
    }
}

impl vstd::std_specs::convert::FromSpecImpl<u128> for DomainUint256 {
    open spec fn obeys_from_spec() -> bool {
        true
    }

    open spec fn from_spec(val: u128) -> Self {
        DomainUint256(val)
    }
}

/// An address written by `to_hex` is read back by `from_hex` as the same
/// address; so is a 32-byte value.
pub proof fn law_hex_text_reads_back(bytes: Seq<u8>, what: Seq<char>)
    ensures
        fixed_hex("0x"@ + hex_text(bytes), bytes.len(), what) == Ok::<Seq<u8>, Seq<char>>(bytes),
{
    let s = "0x"@ + hex_text(bytes);
    assert(s.subrange(0, "0x"@.len() as int) =~= "0x"@);
    assert(s.skip("0x"@.len() as int) =~= hex_text(bytes));
    lemma_hex_reads_back(bytes);
}

/// Reading an address does not mind the case of its digits: where two texts
/// write the same digits, the same address comes out.
pub proof fn law_hex_case(a: Seq<char>, b: Seq<char>)
    requires
        a.len() == b.len(),
        forall|i: int| 0 <= i < a.len() ==> hex_digit(#[trigger] a[i]) == hex_digit(b[i]),
    ensures
        hex_bytes(a) == hex_bytes(b),
{
    if hex_bytes(a) is Some {
        assert forall|i: int| 0 <= i < b.len() implies hex_digit(#[trigger] b[i]) is Some by {
            assert(hex_digit(a[i]) is Some);
        }
        assert forall|i: int| 0 <= i < a.len() / 2 implies #[trigger] hex_bytes(a)->0[i]
            == hex_bytes(b)->0[i] by {
            assert(hex_digit(a[2 * i]) == hex_digit(b[2 * i]));
            assert(hex_digit(a[2 * i + 1]) == hex_digit(b[2 * i + 1]));
        }
        assert(hex_bytes(a)->0 =~= hex_bytes(b)->0);
    } else if hex_bytes(b) is Some {
        assert forall|i: int| 0 <= i < a.len() implies hex_digit(#[trigger] a[i]) is Some by {
            assert(hex_digit(b[i]) is Some);
        }
    }
}

/// An amount written in decimal is read back as the same amount.
pub proof fn law_amount_reads_back(amount: DomainUint256)
    ensures
        decimal_value(decimal(amount.0 as nat)) == Some(amount.0 as nat),
{
    lemma_decimal(amount.0 as nat);
}

/// A text of digits is read as its bytes, with `0x` before it or without;
/// where there are too few of them or too many, the message says how many there
/// should be and how many there are.
pub proof fn law_length_is_checked(t: Seq<char>, n: nat, what: Seq<char>)
    requires
        hex_bytes(t) is Some,
    ensures
        fixed_hex(t, n, what) == fixed_hex("0x"@ + t, n, what),
        t.len() == 2 * n ==> fixed_hex(t, n, what) == Ok::<Seq<u8>, Seq<char>>(hex_bytes(t)->0),
        t.len() != 2 * n ==> fixed_hex(t, n, what) == Err::<Seq<u8>, Seq<char>>(
            "Invalid "@ + what + " length: expected "@ + decimal(n) + ", got "@ + decimal(
                t.len() / 2,
            ),
        ),
        forall|i: int|
            #![trigger hex_bytes(t)->0[i]]
            0 <= i < t.len() / 2 ==> hex_bytes(t)->0[i] == 16 * hex_digit(t[2 * i])->0
                + hex_digit(t[2 * i + 1])->0,
{
    reveal_strlit("0x");
    let s = "0x"@ + t;
    assert(s.subrange(0, "0x"@.len() as int) =~= "0x"@);
    assert(s.skip("0x"@.len() as int) =~= t);
    if after_prefix(t, "0x"@) is Some {
        assert(t.subrange(0, 2)[1] == t[1]);
        assert(hex_digit(t[1]) is Some);
    }
    assert(t.len() % 2 == 0);
}

/// Whatever holds a character that is no hexadecimal digit, or an odd number of
/// them, is refused.
pub proof fn law_other_texts_are_refused(t: Seq<char>, n: nat, what: Seq<char>, i: int)
    requires
        after_prefix(t, "0x"@) is None,
        t.len() % 2 == 1 || (0 <= i < t.len() && hex_digit(t[i]) is None),
    ensures
        fixed_hex(t, n, what) == Err::<Seq<u8>, Seq<char>>(hex_error(t)),
        fixed_hex("0x"@ + t, n, what) == Err::<Seq<u8>, Seq<char>>(hex_error(t)),
{
    reveal_strlit("0x");
    let s = "0x"@ + t;
    assert(s.subrange(0, "0x"@.len() as int) =~= "0x"@);
    assert(s.skip("0x"@.len() as int) =~= t);
}

} // verus!
