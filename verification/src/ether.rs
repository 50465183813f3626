//! Ethereum addresses: 20 bytes written as 40 hex digits, and their
//! checksum form, in which the case of the letters carries a checksum.

use alloy_primitives::hex::FromHexError;
use alloy_primitives::Address;
use std::str::FromStr;
use vstd::prelude::*;
use vstd::utf8::encode_utf8;

verus! {

/// Why a text is not the hex form of an address.
#[derive(Debug, Clone, Copy, PartialEq, Eq, Structural)]
pub enum HexError {
    /// A byte that is no hex digit, and its place after the prefix.
    InvalidHexCharacter { c: char, index: usize },
    /// The text has an odd number of bytes.
    OddLength,
    /// The digits do not make 20 bytes.
    InvalidStringLength,
}

/// Whether a byte is one of `0-9`, `a-f`, `A-F`.
pub open spec fn is_hex_digit(b: u8) -> bool {
    ||| 0x30 <= b <= 0x39
    ||| 0x41 <= b <= 0x46
    ||| 0x61 <= b <= 0x66
}

/// The value of a hex digit.
pub open spec fn hex_value(b: u8) -> int {
    if 0x30 <= b <= 0x39 {
        b - 0x30
    } else if 0x41 <= b <= 0x46 {
        b - 0x41 + 10
    } else {
        b - 0x61 + 10
    }
}

/// The bytes of a text without a leading `0x` or `0X`.
pub open spec fn strip_prefix(bytes: Seq<u8>) -> Seq<u8> {
    if bytes.len() >= 2 && bytes[0] == 0x30 && (bytes[1] == 0x78 || bytes[1] == 0x58) {
        bytes.skip(2)
    } else {
        bytes
    }
}

/// The place of the first byte at or after `from` that is no hex digit; the
/// length where there is none.
pub open spec fn first_non_hex(digits: Seq<u8>, from: int) -> int
    decreases digits.len() - from,
{
    if from < 0 || from >= digits.len() {
        digits.len() as int
    } else if !is_hex_digit(digits[from]) {
        from
    } else {
        first_non_hex(digits, from + 1)
    }
}

/// The 20 bytes that 40 hex digits spell.
pub open spec fn hex_bytes(digits: Seq<u8>) -> Seq<u8> {
    Seq::new(20, |k: int| (16 * hex_value(digits[2 * k]) + hex_value(digits[2 * k + 1])) as u8)
}

/// The address that the bytes of a text spell: after an optional `0x`, 40 hex
/// digits in either case. An odd length is refused first, then a wrong
/// length, then the first byte that is no hex digit.
pub open spec fn decoded_address(bytes: Seq<u8>) -> Result<Seq<u8>, HexError> {
    let digits = strip_prefix(bytes);
    let bad = first_non_hex(digits, 0);
    if bytes.len() % 2 != 0 {
        Err(HexError::OddLength)
    } else if digits.len() != 40 {
        Err(HexError::InvalidStringLength)
    } else if bad < 40 {
        Err(HexError::InvalidHexCharacter { c: digits[bad] as char, index: bad as usize })
    } else {
        Ok(hex_bytes(digits))
    }
}

/// The address that a text spells.
pub open spec fn address_of(text: Seq<char>) -> Result<Seq<u8>, HexError> {
    decoded_address(encode_utf8(text))
}

/// The checksum form of an address: `0x` and its 40 hex digits, each letter
/// in the case that the hash of the digits gives it.
pub uninterp spec fn checksum_text(bytes: Seq<u8>) -> Seq<char>;

/// Whether a text spells an address.
pub open spec fn is_valid_address(text: Seq<char>) -> bool {
    address_of(text).is_ok()
}

/// Whether a text is the checksum form of the address it spells.
pub open spec fn is_checksum_address(text: Seq<char>) -> bool {
    match address_of(text) {
        Ok(bytes) => text == checksum_text(bytes),
        Err(_) => false,
    }
}

/// A parsed address as the sequence of its bytes.
pub open spec fn bytes_of(r: Result<[u8; 20], HexError>) -> Result<Seq<u8>, HexError> {
    match r {
        Ok(bytes) => Ok(bytes@),
        Err(e) => Err(e),
    }
}

/// Calls `Address::from_str`, which decodes the hex digits of the text into
/// 20 bytes.
#[verifier::external_body]
pub(crate) fn parse_address(text: &str) -> (r: Result<[u8; 20], HexError>)
    ensures
        bytes_of(r) == address_of(text@),
{
    match Address::from_str(text) {
        Ok(address) => Ok(address.into_array()),
        Err(FromHexError::InvalidHexCharacter { c, index }) => Err(
            HexError::InvalidHexCharacter { c, index },
        ),
        Err(FromHexError::OddLength) => Err(HexError::OddLength),
        Err(FromHexError::InvalidStringLength) => Err(HexError::InvalidStringLength),
    }
}

/// Calls `Address::to_checksum` without a chain id. The text it gives spells
/// the address again.
#[verifier::external_body]
pub(crate) fn checksum(bytes: &[u8; 20]) -> (r: String)
    ensures
        r@ == checksum_text(bytes@),
        address_of(r@) == bytes_of(Ok(*bytes)),
{
    Address::from(*bytes).to_checksum(None)
}

/// The rules on Ethereum addresses.
pub struct EtherAddress;

impl EtherAddress {
    /// Whether `addr` spells an address: 40 hex digits, with or without `0x`.
    pub fn is_valid_eth_address(addr: &str) -> (r: bool)
        ensures
            r == is_valid_address(addr@),
    {
        parse_address(addr).is_ok()
    }

    /// Whether `addr` is an address in its checksum form, letter for letter.
    pub fn is_strict_checksum(addr: &str) -> (r: bool)
        ensures
            r == is_checksum_address(addr@),
    {
        match parse_address(addr) {
            Ok(parsed) => {
                let checksummed = checksum(&parsed);
                addr.to_owned() == checksummed
            },
            Err(_) => false,
        }
    }
}

} // verus!
