//! Account and contract addresses, transaction references, and the hexadecimal
//! text in which feeds and stores carry them.

use crate::amount::word;
use vstd::prelude::*;

verus! {

/// Two to the power 128.
pub open spec fn half() -> nat {
    word() * word()
}

/// A 160-bit account or contract address: the first four of its twenty bytes in `hi`,
/// the other sixteen in `lo`, each read as a big-endian number.
#[derive(Clone, Copy, Debug, PartialEq, Eq, Hash, Structural)]
pub struct Address {
    pub hi: u32,
    pub lo: u128,
}

impl View for Address {
    type V = nat;

    /// The address as one number.
    open spec fn view(&self) -> nat {
        (self.hi as nat) * half() + (self.lo as nat)
    }
}

/// A 256-bit transaction reference: the first sixteen of its thirty-two bytes in `hi`,
/// the other sixteen in `lo`, each read as a big-endian number.
#[derive(Clone, Copy, Debug, PartialEq, Eq, Hash, Structural)]
pub struct TxHash {
    pub hi: u128,
    pub lo: u128,
}

/// The characters that hexadecimal text may hold between its digits.
pub open spec fn is_hex_space(c: char) -> bool {
    c == ' ' || c == '\r' || c == '\n' || c == '\t'
}

/// The value of a hexadecimal digit of either case.
pub open spec fn hex_digit(c: char) -> Option<nat> {
    let code = c as u32;
    if 0x30 <= code <= 0x39 {
        Some((code - 0x30) as nat)
    } else if 0x41 <= code <= 0x46 {
        Some((code - 0x41 + 10) as nat)
    } else if 0x61 <= code <= 0x66 {
        Some((code - 0x61 + 10) as nat)
    } else {
        None
    }
}

/// The text without one leading `0x`.
pub open spec fn without_prefix(text: Seq<char>) -> Seq<char> {
    if text.len() >= 2 && text[0] == '0' && text[1] == 'x' {
        text.subrange(2, text.len() as int)
    } else {
        text
    }
}

/// The number that a run of hexadecimal digits spells, most significant first.
pub open spec fn hex_number(digits: Seq<char>) -> nat
    decreases digits.len(),
{
    if digits.len() == 0 {
        0
    } else {
        hex_number(digits.drop_last()) * 16 + match hex_digit(digits.last()) {
            Some(d) => d,
            None => 0,
        }
    }
}

/// The address that a text spells: after one optional `0x`, and with blanks left
/// out, exactly forty hexadecimal digits. Any other text spells none.
pub open spec fn address_of_text(text: Seq<char>) -> Option<Address> {
    let digits = without_prefix(text).filter(|c: char| !is_hex_space(c));
    if digits.len() == 40 && (forall|i: int| 0 <= i < 40 ==> (#[trigger] hex_digit(
        digits[i],
    )).is_some()) {
        Some(
            Address {
                hi: (hex_number(digits) / half()) as u32,
                lo: (hex_number(digits) % half()) as u128,
            },
        )
    } else {
        None
    }
}

/// The sixteen lower-case hexadecimal digits, in order of value.
pub open spec fn hex_alphabet() -> Seq<char> {
    seq!['0', '1', '2', '3', '4', '5', '6', '7', '8', '9', 'a', 'b', 'c', 'd', 'e', 'f']
}

/// The last `width` hexadecimal digits of `n`, most significant first.
pub open spec fn hex_text(n: nat, width: nat) -> Seq<char>
    decreases width,
{
    if width == 0 {
        Seq::empty()
    } else {
        hex_text(n / 16, (width - 1) as nat).push(hex_alphabet()[(n % 16) as int])
    }
}

/// The text of a transaction reference: `0x` and its sixty-four hexadecimal digits.
pub open spec fn hash_text(hash: TxHash) -> Seq<char> {
    seq!['0', 'x'] + hex_text(hash.hi as nat, 32) + hex_text(hash.lo as nat, 32)
}

/// Reads an address, by the `FromStr` of ethers' `H160`: it drops one leading `0x`,
/// skips blanks, and accepts exactly twenty bytes of hexadecimal digits.
#[verifier::external_body]
pub(crate) fn read_address(text: &str) -> (r: Option<Address>)
    ensures
        r == address_of_text(text@),
{
    match text.parse::<ethers::types::H160>() {
        Ok(h) => Some(
            Address {
                hi: u32::from_be_bytes([h.0[0], h.0[1], h.0[2], h.0[3]]),
                lo: u128::from_be_bytes(h.0[4..20].try_into().unwrap()),
            },
        ),
        Err(_) => None,
    }
}

/// The text of an address: `0x` and its forty hexadecimal digits.
pub open spec fn address_text(address: Address) -> Seq<char> {
    seq!['0', 'x'] + hex_text(address.hi as nat, 8) + hex_text(address.lo as nat, 32)
}

/// Writes an address, by the `Debug` of ethers' `H160`: `0x` and the twenty bytes,
/// two lower-case digits each.
#[verifier::external_body]
pub(crate) fn write_address(address: Address) -> (r: String)
    ensures
        r@ == address_text(address),
{
    let mut bytes = [0u8; 20];
    bytes[..4].copy_from_slice(&address.hi.to_be_bytes());
    bytes[4..].copy_from_slice(&address.lo.to_be_bytes());
    format!("{:?}", ethers::types::H160(bytes))
}

/// Writes a transaction reference, by the `Debug` of ethers' `H256`: `0x` and the
/// thirty-two bytes, two lower-case digits each.
#[verifier::external_body]
pub(crate) fn write_hash(hash: TxHash) -> (r: String)
    ensures
        r@ == hash_text(hash),
{
    let mut bytes = [0u8; 32];
    bytes[..16].copy_from_slice(&hash.hi.to_be_bytes());
    bytes[16..].copy_from_slice(&hash.lo.to_be_bytes());
    format!("{:?}", ethers::types::H256(bytes))
}

} // verus!
