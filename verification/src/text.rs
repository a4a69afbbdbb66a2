//! Text forms of binary values.
//!
//! A camera's identifier goes on the wire in hyphenated hexadecimal form and
//! a session's token in base64 without padding. Both texts are produced by
//! the `uuid` and `base64` crates; this module says, character by character,
//! what they are.

use vstd::prelude::*;

verus! {

/// The lower-case hexadecimal digits, by value.
pub open spec fn hex_digits() -> Seq<char> {
    "0123456789abcdef"@
}

/// Character `i` of the hyphenated form of a 16-byte identifier: hyphens at
/// positions 8, 13, 18 and 23, and between them the 32 hexadecimal digits of
/// the bytes, the high half of each byte first.
pub open spec fn hyphenated_char(bytes: Seq<u8>, i: int) -> char {
    if i == 8 || i == 13 || i == 18 || i == 23 {
        '-'
    } else {
        let j = if i < 8 {
            i
        } else if i < 13 {
            i - 1
        } else if i < 18 {
            i - 2
        } else if i < 23 {
            i - 3
        } else {
            i - 4
        };
        let byte = bytes[j / 2] as int;
        hex_digits()[if j % 2 == 0 {
            byte / 16
        } else {
            byte % 16
        }]
    }
}

/// The hyphenated form of a 16-byte identifier, 36 characters long, such as
/// `67e55044-10b1-426f-9247-bb680e5fe0c8`.
pub open spec fn hyphenated(bytes: Seq<u8>) -> Seq<char> {
    Seq::new(36, |i: int| hyphenated_char(bytes, i))
}

/// The base64 alphabet of RFC 4648, by value.
pub open spec fn base64_alphabet() -> Seq<char> {
    "ABCDEFGHIJKLMNOPQRSTUVWXYZabcdefghijklmnopqrstuvwxyz0123456789+/"@
}

/// Byte `i` of `bytes`, and zero past their end.
pub open spec fn octet(bytes: Seq<u8>, i: int) -> int {
    if 0 <= i < bytes.len() {
        bytes[i] as int
    } else {
        0
    }
}

/// The `i`-th group of six bits of `bytes`, read as one string of bits with
/// the high bit of each byte first and zero bits after the last byte.
pub open spec fn sextet(bytes: Seq<u8>, i: int) -> int {
    let first = (i / 4) * 3;
    if i % 4 == 0 {
        octet(bytes, first) / 4
    } else if i % 4 == 1 {
        (octet(bytes, first) % 4) * 16 + octet(bytes, first + 1) / 16
    } else if i % 4 == 2 {
        (octet(bytes, first + 1) % 16) * 4 + octet(bytes, first + 2) / 64
    } else {
        octet(bytes, first + 2) % 64
    }
}

/// The base64 form of `bytes` in the standard alphabet, without padding: one
/// character for each group of six bits that holds a bit of the input.
pub open spec fn base64_no_pad(bytes: Seq<u8>) -> Seq<char> {
    Seq::new(((bytes.len() * 4 + 2) / 3) as nat, |i: int| base64_alphabet()[sextet(bytes, i)])
}

/// Every group of six bits is a position in the alphabet.
pub proof fn lemma_sextet_range(bytes: Seq<u8>, i: int)
    requires
        0 <= i,
    ensures
        0 <= sextet(bytes, i) < 64,
{
}

/// The base64 form of sixteen bytes is 22 characters of the alphabet, all of
/// them ASCII: it is always valid text.
pub proof fn lemma_base64_of_sixteen(bytes: Seq<u8>)
    requires
        bytes.len() == 16,
    ensures
        base64_no_pad(bytes).len() == 22,
        forall|i: int|
            0 <= i < 22 ==> base64_alphabet().contains(#[trigger] base64_no_pad(bytes)[i]),
        vstd::utf8::is_ascii_chars(base64_no_pad(bytes)),
{
    reveal_strlit("ABCDEFGHIJKLMNOPQRSTUVWXYZabcdefghijklmnopqrstuvwxyz0123456789+/");
    assert forall|i: int| 0 <= i < 22 implies base64_alphabet().contains(
        #[trigger] base64_no_pad(bytes)[i],
    ) && '\0' <= base64_no_pad(bytes)[i] <= '\u{7f}' by {
        lemma_sextet_range(bytes, i);
        let k = sextet(bytes, i);
        assert(base64_no_pad(bytes)[i] == base64_alphabet()[k]);
        assert('\0' <= base64_alphabet()[k] <= '\u{7f}');
    }
}

/// Calls `Uuid::from_bytes(..).hyphenated().to_string()` of the `uuid` crate.
/// Trusted: the text is the 36-character lower-case hyphenated form of the
/// sixteen bytes, as `hyphenated` spells it out.
#[verifier::external_body]
pub(crate) fn uuid_hyphenated(bytes: &[u8; 16]) -> (text: String)
    ensures
        text@ == hyphenated(bytes@),
{
    uuid::Uuid::from_bytes(*bytes).hyphenated().to_string()
}

/// Calls `Engine::encode` of the `base64` crate on its `STANDARD_NO_PAD`
/// engine. Trusted: the text is the unpadded base64 form of the sixteen
/// bytes in the standard alphabet, as `base64_no_pad` spells it out.
#[verifier::external_body]
pub(crate) fn base64_encode(bytes: &[u8; 16]) -> (text: String)
    ensures
        text@ == base64_no_pad(bytes@),
{
    base64::Engine::encode(&base64::engine::general_purpose::STANDARD_NO_PAD, bytes)
}

} // verus!
