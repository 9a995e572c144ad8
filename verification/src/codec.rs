//! Hexadecimal and decimal byte-string codecs.
//!
//! Every input string reaches the core as its UTF-8 bytes; the specs here say
//! exactly which byte strings decode, and to what.

use vstd::prelude::*;
use vstd::string::StringSliceAdditionalSpecFns;

use crate::errors::FatalError;

verus! {

/// Whether an ASCII byte is a hexadecimal digit.
pub open spec fn is_hex_digit(b: u8) -> bool {
    (48 <= b <= 57) || (97 <= b <= 102) || (65 <= b <= 70)
}

/// Numeric value of an ASCII hexadecimal digit.
pub open spec fn hex_val(b: u8) -> u8
    recommends
        is_hex_digit(b),
{
    if 48 <= b <= 57 {
        (b - 48) as u8
    } else if 97 <= b <= 102 {
        (b - 87) as u8
    } else {
        (b - 55) as u8
    }
}

/// A byte string decodes as hexadecimal when its length is even and every
/// byte is a hexadecimal digit.
pub open spec fn hex_ok(s: Seq<u8>) -> bool {
    s.len() % 2 == 0 && (forall|i: int| 0 <= i < s.len() ==> is_hex_digit(#[trigger] s[i]))
}

/// The bytes a hexadecimal string decodes to: two digits per byte, high
/// nibble first.
pub open spec fn hex_decoded(s: Seq<u8>) -> Seq<u8>
    recommends
        hex_ok(s),
{
    Seq::new((s.len() / 2) as nat, |i: int| (hex_val(s[2 * i]) * 16 + hex_val(s[2 * i + 1])) as u8)
}

/// The lowercase ASCII digit of a nibble value.
pub open spec fn hex_digit_of(n: u8) -> u8
    recommends
        n < 16,
{
    if n < 10 {
        (48 + n) as u8
    } else {
        (87 + n) as u8
    }
}

/// The lowercase hexadecimal encoding of a byte string, two digits per byte.
pub open spec fn hex_encoded(s: Seq<u8>) -> Seq<u8> {
    Seq::new(2 * s.len(), |i: int|
        if i % 2 == 0 {
            hex_digit_of((s[i / 2] / 16) as u8)
        } else {
            hex_digit_of((s[i / 2] % 16) as u8)
        })
}

/// The ASCII decimal digits of a number, without leading zeros (zero itself
/// is the single digit "0").
pub open spec fn dec_bytes_of(n: nat) -> Seq<u8>
    decreases n,
{
    if n < 10 {
        seq![(48 + n) as u8]
    } else {
        dec_bytes_of(n / 10).push((48 + n % 10) as u8)
    }
}

/// A hex string may carry a leading "0x" marker; this is the remainder.
pub open spec fn strip_hex_prefix(s: Seq<u8>) -> Seq<u8> {
    if s.len() >= 2 && s[0] == 48 && s[1] == 120 {
        s.skip(2)
    } else {
        s
    }
}

/// What a 32-byte hex string (optional "0x" marker) parses to, if anything.
pub open spec fn spec_parse_32_bytes(s: Seq<u8>) -> Option<Seq<u8>> {
    let t = strip_hex_prefix(s);
    if hex_ok(t) && t.len() == 64 {
        Some(hex_decoded(t))
    } else {
        None
    }
}

fn hex_digit_value(b: u8) -> (r: Option<u8>)
    ensures
        r is Some <==> is_hex_digit(b),
        r matches Some(v) ==> v == hex_val(b) && v < 16,
{
    if 48 <= b && b <= 57 {
        Some(b - 48)
    } else if 97 <= b && b <= 102 {
        Some(b - 87)
    } else if 65 <= b && b <= 70 {
        Some(b - 55)
    } else {
        None
    }
}

fn hex_digit_char(n: u8) -> (r: u8)
    requires
        n < 16,
    ensures
        r == hex_digit_of(n),
{
    if n < 10 {
        48 + n
    } else {
        87 + n
    }
}

/// Decode a hexadecimal byte string (without marker) into raw bytes.
pub fn decode_hex(s: &[u8]) -> (r: Option<Vec<u8>>)
    ensures
        r is Some <==> hex_ok(s@),
        r matches Some(v) ==> v@ == hex_decoded(s@),
{
    if s.len() % 2 != 0 {
        return None;
    }
    let mut out: Vec<u8> = Vec::new();
    let mut i: usize = 0;
    while i < s.len()
        invariant
            i % 2 == 0,
            i <= s@.len(),
            s@.len() % 2 == 0,
            forall|j: int| 0 <= j < i ==> is_hex_digit(#[trigger] s@[j]),
            out@.len() == i / 2,
            forall|k: int|
                0 <= k < out@.len() ==> out@[k] == (hex_val(s@[2 * k]) * 16 + hex_val(
                    s@[2 * k + 1],
                )) as u8,
        decreases s@.len() - i,
    {
        let hi = match hex_digit_value(s[i]) {
            Some(v) => v,
            None => {
                assert(!is_hex_digit(s@[i as int]));
                return None;
            },
        };
        let lo = match hex_digit_value(s[i + 1]) {
            Some(v) => v,
            None => {
                assert(!is_hex_digit(s@[i + 1]));
                return None;
            },
        };
        out.push(hi * 16 + lo);
        i = i + 2;
    }
    assert(out@ =~= hex_decoded(s@));
    Some(out)
}

/// Encode raw bytes as lowercase hexadecimal ASCII, two digits per byte.
pub fn encode_hex(s: &[u8]) -> (r: Vec<u8>)
    ensures
        r@ == hex_encoded(s@),
{
    let mut out: Vec<u8> = Vec::new();
    let mut i: usize = 0;
    while i < s.len()
        invariant
            i <= s@.len(),
            out@.len() == 2 * i,
            forall|j: int| 0 <= j < out@.len() ==> out@[j] == hex_encoded(s@)[j],
        decreases s@.len() - i,
    {
        let b = s[i];
        out.push(hex_digit_char(b / 16));
        out.push(hex_digit_char(b % 16));
        i = i + 1;
    }
    assert(out@ =~= hex_encoded(s@));
    out
}

/// Encode a number as ASCII decimal digits, without leading zeros.
pub fn encode_dec(n: u64) -> (r: Vec<u8>)
    ensures
        r@ == dec_bytes_of(n as nat),
    decreases n,
{
    if n < 10 {
        let mut out: Vec<u8> = Vec::new();
        out.push(48 + (n as u8));
        assert(out@ =~= dec_bytes_of(n as nat));
        out
    } else {
        let mut out = encode_dec(n / 10);
        out.push(48 + ((n % 10) as u8));
        out
    }
}

/// Parse a 32-byte value from a hex string with an optional "0x" marker;
/// a malformed string is a structural, run-aborting fault.
pub fn parse_32_bytes(s: &str) -> (r: Result<[u8; 32], FatalError>)
    ensures
        r matches Ok(b) ==> spec_parse_32_bytes(s.spec_bytes()) == Some(b@),
        r matches Err(e) ==> e == FatalError::MalformedHex && spec_parse_32_bytes(s.spec_bytes())
            is None,
{
    let bytes = s.as_bytes();
    let stripped: &[u8] = if bytes.len() >= 2 && bytes[0] == 48 && bytes[1] == 120 {
        let t = &bytes[2..bytes.len()];
        assert(t@ =~= strip_hex_prefix(bytes@));
        t
    } else {
        bytes
    };
    let decoded = match decode_hex(stripped) {
        Some(v) => v,
        None => {
            return Err(FatalError::MalformedHex);
        },
    };
    if decoded.len() != 32 {
        return Err(FatalError::MalformedHex);
    }
    let mut out: [u8; 32] = [0u8; 32];
    let mut i: usize = 0;
    while i < 32
        invariant
            i <= 32,
            decoded@.len() == 32,
            forall|j: int| 0 <= j < i ==> out@[j] == decoded@[j],
        decreases 32 - i,
    {
        out[i] = decoded[i];
        i = i + 1;
    }
    assert(out@ =~= decoded@);
    Ok(out)
}

} // verus!
