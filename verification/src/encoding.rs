//! Base64 with the URL-safe alphabet and no padding: what it is, the call
//! that computes it, and the proof that it can be undone.

use base64::engine::general_purpose::URL_SAFE_NO_PAD;
use base64::Engine;
use vstd::prelude::*;
use vstd::utf8::{decode_utf8, encode_utf8, encode_utf8_decode_utf8, encode_utf8_valid_utf8, valid_utf8};

verus! {

/// The character that stands for the six-bit value `v`.
pub open spec fn sextet_char(v: int) -> char {
    if v < 26 {
        ('A' as int + v) as char
    } else if v < 52 {
        ('a' as int + (v - 26)) as char
    } else if v < 62 {
        ('0' as int + (v - 52)) as char
    } else if v == 62 {
        '-'
    } else {
        '_'
    }
}

/// The six-bit value that `c` stands for, or -1 where `c` is outside the
/// alphabet.
pub open spec fn sextet_value(c: char) -> int {
    if 'A' <= c <= 'Z' {
        c as int - 'A' as int
    } else if 'a' <= c <= 'z' {
        c as int - 'a' as int + 26
    } else if '0' <= c <= '9' {
        c as int - '0' as int + 52
    } else if c == '-' {
        62
    } else if c == '_' {
        63
    } else {
        -1
    }
}

/// The encoding of `bytes`: each group of three bytes gives four
/// characters; a last group of one byte gives two, of two bytes three.
pub open spec fn base64url(bytes: Seq<u8>) -> Seq<char>
    decreases bytes.len(),
{
    if bytes.len() == 0 {
        Seq::empty()
    } else if bytes.len() == 1 {
        let b0 = bytes[0] as int;
        seq![sextet_char(b0 / 4), sextet_char((b0 % 4) * 16)]
    } else if bytes.len() == 2 {
        let b0 = bytes[0] as int;
        let b1 = bytes[1] as int;
        seq![
            sextet_char(b0 / 4),
            sextet_char((b0 % 4) * 16 + b1 / 16),
            sextet_char((b1 % 16) * 4),
        ]
    } else {
        let b0 = bytes[0] as int;
        let b1 = bytes[1] as int;
        let b2 = bytes[2] as int;
        seq![
            sextet_char(b0 / 4),
            sextet_char((b0 % 4) * 16 + b1 / 16),
            sextet_char((b1 % 16) * 4 + b2 / 64),
            sextet_char(b2 % 64),
        ] + base64url(bytes.skip(3))
    }
}

/// The bytes that `text` encodes, or `None` where `text` is no encoding:
/// a character outside the alphabet, a length of 1 modulo 4, or unused low
/// bits that are not zero.
pub open spec fn base64url_decoded(text: Seq<char>) -> Option<Seq<u8>>
    decreases text.len(),
{
    if text.len() == 0 {
        Some(Seq::empty())
    } else if text.len() == 1 {
        None
    } else {
        let a = sextet_value(text[0]);
        let b = sextet_value(text[1]);
        if a < 0 || b < 0 {
            None
        } else if text.len() == 2 {
            if b % 16 == 0 {
                Some(seq![(a * 4 + b / 16) as u8])
            } else {
                None
            }
        } else {
            let c = sextet_value(text[2]);
            if c < 0 {
                None
            } else if text.len() == 3 {
                if c % 4 == 0 {
                    Some(seq![(a * 4 + b / 16) as u8, ((b % 16) * 16 + c / 4) as u8])
                } else {
                    None
                }
            } else {
                let d = sextet_value(text[3]);
                match base64url_decoded(text.skip(4)) {
                    Some(rest) if d >= 0 => Some(
                        seq![
                            (a * 4 + b / 16) as u8,
                            ((b % 16) * 16 + c / 4) as u8,
                            ((c % 4) * 64 + d) as u8,
                        ] + rest,
                    ),
                    _ => None,
                }
            }
        }
    }
}

/// Every six-bit value is recovered from its character.
pub proof fn lemma_sextet_round_trip(v: int)
    requires
        0 <= v < 64,
    ensures
        sextet_value(sextet_char(v)) == v,
{
}

/// Decoding undoes encoding: the bytes are recovered from their text, so
/// two byte strings with the same encoding are equal.
pub proof fn lemma_decode_inverts_encode(bytes: Seq<u8>)
    ensures
        base64url_decoded(base64url(bytes)) == Some(bytes),
    decreases bytes.len(),
{
    let text = base64url(bytes);
    if bytes.len() == 0 {
        assert(bytes =~= Seq::empty());
    } else {
        let b0 = bytes[0] as int;
        lemma_sextet_round_trip(b0 / 4);
        if bytes.len() == 1 {
            lemma_sextet_round_trip((b0 % 4) * 16);
            assert(bytes =~= seq![(b0 / 4 * 4 + ((b0 % 4) * 16) / 16) as u8]);
        } else {
            let b1 = bytes[1] as int;
            lemma_sextet_round_trip((b0 % 4) * 16 + b1 / 16);
            if bytes.len() == 2 {
                lemma_sextet_round_trip((b1 % 16) * 4);
                assert(bytes =~= seq![bytes[0], bytes[1]]);
            } else {
                let b2 = bytes[2] as int;
                lemma_sextet_round_trip((b1 % 16) * 4 + b2 / 64);
                lemma_sextet_round_trip(b2 % 64);
                lemma_decode_inverts_encode(bytes.skip(3));
                assert(text.skip(4) =~= base64url(bytes.skip(3)));
                assert(bytes =~= seq![bytes[0], bytes[1], bytes[2]] + bytes.skip(3));
            }
        }
    }
}

/// The length of an encoding: four characters for each full group of three
/// bytes, and one more than the bytes that are left over, if any are.
pub proof fn lemma_encoded_len(bytes: Seq<u8>)
    ensures
        base64url(bytes).len() == (bytes.len() / 3) * 4 + if bytes.len() % 3 == 0 {
            0int
        } else {
            (bytes.len() % 3) as int + 1
        },
    decreases bytes.len(),
{
    if bytes.len() >= 3 {
        lemma_encoded_len(bytes.skip(3));
    }
}

/// Every character of an encoding belongs to the alphabet.
pub proof fn lemma_encoding_alphabet(bytes: Seq<u8>)
    ensures
        forall|i: int|
            0 <= i < base64url(bytes).len() ==> sextet_value(#[trigger] base64url(bytes)[i]) >= 0,
    decreases bytes.len(),
{
    let text = base64url(bytes);
    if bytes.len() > 0 {
        let b0 = bytes[0] as int;
        lemma_sextet_round_trip(b0 / 4);
        if bytes.len() == 1 {
            lemma_sextet_round_trip((b0 % 4) * 16);
        } else {
            let b1 = bytes[1] as int;
            lemma_sextet_round_trip((b0 % 4) * 16 + b1 / 16);
            if bytes.len() == 2 {
                lemma_sextet_round_trip((b1 % 16) * 4);
            } else {
                let b2 = bytes[2] as int;
                lemma_sextet_round_trip((b1 % 16) * 4 + b2 / 64);
                lemma_sextet_round_trip(b2 % 64);
                lemma_encoding_alphabet(bytes.skip(3));
                assert forall|i: int| 0 <= i < text.len() implies sextet_value(
                    #[trigger] text[i],
                ) >= 0 by {
                    if i >= 4 {
                        assert(text[i] == base64url(bytes.skip(3))[i - 4]);
                    }
                }
            }
        }
    }
}

/// The text that a segment encodes: its bytes decoded and read as UTF-8, or
/// `None` where the segment is no encoding of a text.
pub open spec fn segment_text(segment: Seq<char>) -> Option<Seq<char>> {
    match base64url_decoded(segment) {
        Some(bytes) if valid_utf8(bytes) => Some(decode_utf8(bytes)),
        _ => None,
    }
}

/// A text is recovered from the segment that encodes it.
pub proof fn lemma_segment_round_trip(text: Seq<char>)
    ensures
        segment_text(base64url(encode_utf8(text))) == Some(text),
{
    lemma_decode_inverts_encode(encode_utf8(text));
    encode_utf8_valid_utf8(text);
    encode_utf8_decode_utf8(text);
}

/// The encoding of `text`'s UTF-8 bytes.
///
/// Trusted: `Engine::encode` of `base64`'s `URL_SAFE_NO_PAD` engine writes
/// the RFC 4648 encoding of the input with the alphabet `A-Z a-z 0-9 - _`
/// and without `=`. It panics only where the encoded length does not fit in
/// `usize`; no string in memory is that long, as its length is at most
/// `isize::MAX`.
#[verifier::external_body]
pub(crate) fn base64url_of(text: &str) -> (encoded: String)
    ensures
        encoded@ == base64url(encode_utf8(text@)),
{
    URL_SAFE_NO_PAD.encode(text)
}

/// One segment of a token: the encoding of `text`.
pub fn encode_segment(text: &str) -> (segment: String)
    ensures
        segment@ == base64url(encode_utf8(text@)),
        segment_text(segment@) == Some(text@),
{
    proof {
        lemma_segment_round_trip(text@);
    }
    base64url_of(text)
}

} // verus!
