//! Shared byte-level rules: length requirements, little-endian integers,
//! checksums and device strings.

use vstd::prelude::*;

use crate::text::{push_str, trim_padding, trimmed, u64_text};
pub use crate::text::opt_text;

verus! {

/// Why a binary structure could not be decoded.
#[derive(Clone, Debug, PartialEq, Eq)]
pub enum ParseError {
    Truncated { structure: &'static str, expected: usize, actual: usize },
    InvalidChecksum { structure: &'static str },
}

/// The message of a truncation error.
pub open spec fn truncated_message(structure: Seq<char>, expected: nat, actual: nat) -> Seq<char> {
    structure + " requires at least "@ + crate::text::decimal(expected) + " bytes, got "@
        + crate::text::decimal(actual)
}

/// The message of a checksum error.
pub open spec fn checksum_message(structure: Seq<char>) -> Seq<char> {
    structure + " checksum is invalid"@
}

impl ParseError {
    /// The human-readable description of the error.
    pub fn message(&self) -> (m: String)
        ensures
            m@ == match self {
                ParseError::Truncated { structure, expected, actual } => truncated_message(
                    structure@,
                    *expected as nat,
                    *actual as nat,
                ),
                ParseError::InvalidChecksum { structure } => checksum_message(structure@),
            },
    {
        match self {
            ParseError::Truncated { structure, expected, actual } => {
                let mut m = crate::text::owned(structure);
                push_str(&mut m, " requires at least ");
                let e = u64_text(*expected as u64);
                push_str(&mut m, e.as_str());
                push_str(&mut m, " bytes, got ");
                let a = u64_text(*actual as u64);
                push_str(&mut m, a.as_str());
                m
            },
            ParseError::InvalidChecksum { structure } => {
                let mut m = crate::text::owned(structure);
                push_str(&mut m, " checksum is invalid");
                m
            },
        }
    }
}

/// Fails with `Truncated` when `bytes` is shorter than `expected`.
pub fn require_len(bytes: &[u8], expected: usize, structure: &'static str) -> (r: Result<
    (),
    ParseError,
>)
    ensures
        r is Ok <==> bytes@.len() >= expected,
        r is Err ==> r->Err_0 == (ParseError::Truncated {
            structure,
            expected,
            actual: bytes@.len() as usize,
        }),
{
    if bytes.len() < expected {
        return Err(ParseError::Truncated { structure, expected, actual: bytes.len() });
    }
    Ok(())
}

/// `256^n`.
pub open spec fn pow256(n: nat) -> nat
    decreases n,
{
    if n == 0 {
        1
    } else {
        256 * pow256((n - 1) as nat)
    }
}

/// The unsigned value of little-endian bytes.
pub open spec fn le_value(s: Seq<u8>) -> nat
    decreases s.len(),
{
    if s.len() == 0 {
        0
    } else {
        s[0] as nat + 256 * le_value(s.drop_first())
    }
}

proof fn lemma_pow256_monotone(a: nat, b: nat)
    requires
        a <= b,
    ensures
        pow256(a) <= pow256(b),
    decreases b,
{
    if a < b {
        lemma_pow256_monotone(a, (b - 1) as nat);
    }
}

/// Little-endian bytes are below `256^len`.
pub proof fn lemma_le_value_bound(s: Seq<u8>)
    ensures
        le_value(s) < pow256(s.len()),
    decreases s.len(),
{
    if s.len() > 0 {
        lemma_le_value_bound(s.drop_first());
    }
}

/// The little-endian value of `bytes[offset..offset + len]`, for at most
/// sixteen bytes.
pub fn le_u128(bytes: &[u8], offset: usize, len: usize) -> (v: u128)
    requires
        len <= 16,
        offset + len <= bytes@.len(),
    ensures
        v == le_value(bytes@.subrange(offset as int, offset + len)),
{
    let total = bytes.len();
    let mut v: u128 = 0;
    let mut k: usize = len;
    proof {
        reveal_with_fuel(pow256, 17);
        assert(pow256(16) == 0x1_0000_0000_0000_0000_0000_0000_0000_0000);
        assert(bytes@.subrange(offset + len, offset + len) =~= Seq::<u8>::empty());
    }
    while k > 0
        invariant
            len <= 16,
            total == bytes@.len(),
            offset + len <= bytes@.len(),
            k <= len,
            pow256(16) == 0x1_0000_0000_0000_0000_0000_0000_0000_0000,
            v == le_value(bytes@.subrange(offset + k, offset + len)),
        decreases k,
    {
        let ghost tail = bytes@.subrange(offset + k, offset + len);
        proof {
            lemma_le_value_bound(tail);
            lemma_pow256_monotone((len - k) as nat, 15);
            assert(bytes@.subrange(offset + k - 1, offset + len).drop_first() =~= tail);
            assert(tail.len() == len - k);
        }
        let b = bytes[offset + k - 1];
        v = v * 256 + b as u128;
        k = k - 1;
    }
    v
}

/// The sum of the bytes of `s`.
pub open spec fn byte_sum(s: Seq<u8>) -> nat
    decreases s.len(),
{
    if s.len() == 0 {
        0
    } else {
        byte_sum(s.drop_last()) + s.last() as nat
    }
}

/// The first `n` bytes sum to zero modulo 256.
pub open spec fn checksum_ok(s: Seq<u8>, n: int) -> bool {
    byte_sum(s.subrange(0, n)) % 256 == 0
}

/// Whether the first `n` bytes of `bytes` sum to zero modulo 256.
pub fn checksum_holds(bytes: &[u8], n: usize) -> (r: bool)
    requires
        n <= bytes@.len(),
        n <= 0x1_0000,
    ensures
        r == checksum_ok(bytes@, n as int),
{
    let mut sum: u64 = 0;
    let mut i: usize = 0;
    proof {
        assert(bytes@.subrange(0, 0) =~= Seq::<u8>::empty());
    }
    while i < n
        invariant
            n <= bytes@.len(),
            n <= 0x1_0000,
            i <= n,
            sum == byte_sum(bytes@.subrange(0, i as int)),
            sum <= 255 * i,
        decreases n - i,
    {
        proof {
            assert(bytes@.subrange(0, i + 1).drop_last() =~= bytes@.subrange(0, i as int));
        }
        sum = sum + bytes[i] as u64;
        i = i + 1;
    }
    sum % 256 == 0
}

/// Text decoded from bytes, invalid UTF-8 sequences replaced by U+FFFD
/// (`String::from_utf8_lossy`).
pub uninterp spec fn utf8_lossy(bytes: Seq<u8>) -> Seq<char>;

/// Calls `String::from_utf8_lossy`. Trusted: the result is the named
/// decoding of the bytes, and valid UTF-8 decodes to exactly the characters
/// it encodes.
#[verifier::external_body]
fn decode_lossy(bytes: &[u8]) -> (s: String)
    ensures
        s@ == utf8_lossy(bytes@),
        vstd::utf8::valid_utf8(bytes@) ==> s@ == vstd::utf8::decode_utf8(bytes@),
{
    String::from_utf8_lossy(bytes).into_owned()
}

/// A padded text with NUL and ASCII whitespace trimmed from both ends,
/// absent when nothing remains.
pub open spec fn padded_text(text: Seq<char>) -> Option<Seq<char>> {
    let t = trim_padding(text);
    if t.len() == 0 {
        None
    } else {
        Some(t)
    }
}

/// A device string: the decoded bytes with NUL and ASCII whitespace trimmed
/// from both ends, absent when nothing remains.
pub open spec fn device_text(bytes: Seq<u8>) -> Option<Seq<char>> {
    padded_text(utf8_lossy(bytes))
}

/// `t` is the device string of `bytes`; when the bytes are valid UTF-8 it is
/// the trimmed text they encode.
pub open spec fn reads_as(t: Option<Seq<char>>, bytes: Seq<u8>) -> bool {
    &&& t == device_text(bytes)
    &&& vstd::utf8::valid_utf8(bytes) ==> t == padded_text(vstd::utf8::decode_utf8(bytes))
}

/// Decodes a device string from `bytes`.
pub fn trimmed_ascii(bytes: &[u8]) -> (r: Option<String>)
    ensures
        reads_as(opt_text(r), bytes@),
{
    let decoded = decode_lossy(bytes);
    trimmed(decoded.as_str())
}

/// Decodes the device string of `bytes[from..to]`.
pub fn trimmed_range(bytes: &[u8], from: usize, to: usize) -> (r: Option<String>)
    requires
        from <= to <= bytes@.len(),
    ensures
        reads_as(opt_text(r), bytes@.subrange(from as int, to as int)),
{
    let mut part: Vec<u8> = Vec::new();
    let mut i = from;
    while i < to
        invariant
            from <= i <= to <= bytes@.len(),
            part@ == bytes@.subrange(from as int, i as int),
        decreases to - i,
    {
        part.push(bytes[i]);
        i = i + 1;
    }
    trimmed_ascii(part.as_slice())
}

} // verus!
