//! Reading the remote explorer's plain-text answers: a tip height, a block
//! hash, and a hex-encoded block header.
use vstd::prelude::*;
use bitcoin::hex::FromHex;

verus! {

#[verifier::external_type_specification]
#[verifier::external_body]
pub struct ExHeader(bitcoin::block::Header);

#[verifier::external_type_specification]
#[verifier::external_body]
pub struct ExBlockHash(bitcoin::BlockHash);

#[verifier::external_type_specification]
#[verifier::external_body]
pub struct ExParseHeightError(bitcoin::absolute::ParseHeightError);

#[verifier::external_type_specification]
#[verifier::external_body]
pub struct ExHexToBytesError(bitcoin::hex::HexToBytesError);

#[verifier::external_type_specification]
#[verifier::external_body]
pub struct ExHexToArrayError(bitcoin::hex::HexToArrayError);

#[verifier::external_type_specification]
#[verifier::external_body]
pub struct ExEncodeError(bitcoin::consensus::encode::Error);

/// Heights at or above this bound are lock times, not block heights.
pub const LOCK_TIME_THRESHOLD: u32 = 500_000_000;

/// Number of bytes in a serialized block header.
pub const HEADER_SIZE: usize = 80;

pub open spec fn is_digit(c: char) -> bool {
    '0' <= c <= '9'
}

pub open spec fn all_digits(s: Seq<char>) -> bool {
    forall|i: int| 0 <= i < s.len() ==> is_digit(#[trigger] s[i])
}

/// The number written by a string of decimal digits.
pub open spec fn digits_value(s: Seq<char>) -> nat
    decreases s.len(),
{
    if s.len() == 0 {
        0
    } else {
        digits_value(s.drop_last()) * 10 + ((s.last() as int) - ('0' as int)) as nat
    }
}

/// The height a decimal text names: an optional sign, then one digit or more,
/// whose value is a block height. A minus sign is only allowed before zero.
pub open spec fn decimal_height(s: Seq<char>) -> Option<nat> {
    let signed = s.len() > 0 && (s[0] == '+' || s[0] == '-');
    let d = if signed { s.drop_first() } else { s };
    let v = digits_value(d);
    if d.len() == 0 || !all_digits(d) {
        None
    } else if signed && s[0] == '-' && v != 0 {
        None
    } else if v < 500_000_000 {
        Some(v)
    } else {
        None
    }
}

pub open spec fn is_hex_digit(c: char) -> bool {
    ('0' <= c <= '9') || ('a' <= c <= 'f') || ('A' <= c <= 'F')
}

pub open spec fn hex_value(c: char) -> nat {
    if '0' <= c <= '9' {
        ((c as int) - ('0' as int)) as nat
    } else if 'a' <= c <= 'f' {
        ((c as int) - ('a' as int) + 10) as nat
    } else {
        ((c as int) - ('A' as int) + 10) as nat
    }
}

/// An even number of hex digits.
pub open spec fn is_hex(s: Seq<char>) -> bool {
    &&& s.len() % 2 == 0
    &&& forall|i: int| 0 <= i < s.len() ==> is_hex_digit(#[trigger] s[i])
}

/// The bytes that hex digits spell, two digits a byte, high digit first.
pub open spec fn hex_bytes(s: Seq<char>) -> Seq<u8> {
    Seq::new(
        s.len() / 2,
        |i: int| (hex_value(s[2 * i]) * 16 + hex_value(s[2 * i + 1])) as u8,
    )
}

/// The text of a block hash: 64 hex digits.
pub open spec fn is_hash_text(s: Seq<char>) -> bool {
    s.len() == 64 && is_hex(s)
}

/// Why an answer of the remote side could not be read.
#[derive(Debug, Clone, Copy, PartialEq, Eq, Structural)]
pub enum DecodeError {
    /// The tip height is not a decimal block height.
    BadHeight,
    /// The block hash is not 64 hex digits.
    BadBlockHash,
    /// The header text is not hex.
    BadHex,
    /// The header bytes are not one serialized header.
    BadHeader,
}

/// Relies on `Height`'s `FromStr` in bitcoin-units: it reads the text as an
/// `i64` (optional sign, then decimal digits) and keeps it if it is a block
/// height, below the lock-time threshold.
#[verifier::external_body]
fn parse_height(text: &str) -> (r: Result<u32, bitcoin::absolute::ParseHeightError>)
    ensures
        r is Ok <==> decimal_height(text@) is Some,
        r is Ok ==> decimal_height(text@) == Some(r->Ok_0 as nat),
{
    match text.parse::<bitcoin::absolute::Height>() {
        Ok(h) => Ok(h.to_consensus_u32()),
        Err(e) => Err(e),
    }
}

/// Relies on `BlockHash`'s `FromStr` in bitcoin_hashes: it takes exactly
/// 64 hex digits.
#[verifier::external_body]
fn parse_hash(text: &str) -> (r: Result<bitcoin::BlockHash, bitcoin::hex::HexToArrayError>)
    ensures
        r is Ok <==> is_hash_text(text@),
{
    text.parse::<bitcoin::BlockHash>()
}

/// Relies on hex-conservative's `FromHex for Vec<u8>`: an even number of
/// hex digits of either case, two to a byte.
#[verifier::external_body]
fn hex_to_bytes(text: &str) -> (r: Result<Vec<u8>, bitcoin::hex::HexToBytesError>)
    ensures
        r is Ok <==> is_hex(text@),
        r is Ok ==> r->Ok_0@ == hex_bytes(text@),
{
    Vec::<u8>::from_hex(text)
}

/// Relies on `bitcoin::consensus::encode::deserialize` for a block header:
/// it reads the header's six fixed-size fields, 80 bytes, from any bytes,
/// and fails unless the input is exactly that long.
#[verifier::external_body]
fn deserialize_header(bytes: &[u8]) -> (r: Result<
    bitcoin::block::Header,
    bitcoin::consensus::encode::Error,
>)
    ensures
        r is Ok <==> bytes@.len() == 80,
{
    bitcoin::consensus::encode::deserialize::<bitcoin::block::Header>(bytes)
}

/// Reads the tip height the remote side reports.
pub fn parse_tip_height(text: &str) -> (r: Result<u32, DecodeError>)
    ensures
        r == match decimal_height(text@) {
            Some(h) => Ok::<u32, DecodeError>(h as u32),
            None => Err(DecodeError::BadHeight),
        },
        r is Ok ==> r->Ok_0 < LOCK_TIME_THRESHOLD,
{
    match parse_height(text) {
        Ok(h) => Ok(h),
        Err(_) => Err(DecodeError::BadHeight),
    }
}

/// Reads a block hash, 64 hex digits.
pub fn parse_block_hash(text: &str) -> (r: Result<bitcoin::BlockHash, DecodeError>)
    ensures
        r is Ok <==> is_hash_text(text@),
        r is Err ==> r == Err::<bitcoin::BlockHash, DecodeError>(DecodeError::BadBlockHash),
{
    match parse_hash(text) {
        Ok(h) => Ok(h),
        Err(_) => Err(DecodeError::BadBlockHash),
    }
}

/// Reads a block header from its hex text: 160 hex digits.
pub fn decode_header(text: &str) -> (r: Result<bitcoin::block::Header, DecodeError>)
    ensures
        r is Ok <==> is_hex(text@) && text@.len() == 2 * HEADER_SIZE,
        !is_hex(text@) ==> r == Err::<bitcoin::block::Header, DecodeError>(DecodeError::BadHex),
        is_hex(text@) && text@.len() != 2 * HEADER_SIZE ==> r == Err::<
            bitcoin::block::Header,
            DecodeError,
        >(DecodeError::BadHeader),
{
    let bytes = match hex_to_bytes(text) {
        Ok(b) => b,
        Err(_) => return Err(DecodeError::BadHex),
    };
    match deserialize_header(bytes.as_slice()) {
        Ok(h) => Ok(h),
        Err(_) => Err(DecodeError::BadHeader),
    }
}

} // verus!
