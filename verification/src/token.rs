//! The three-segment token: its text, how one is made, and what its
//! segments decode to.

use rand::rngs::StdRng;
use vstd::prelude::*;
use vstd::string::StringExecFns;
use vstd::utf8::encode_utf8;
use crate::clock::{rfc3339_string, rfc3339_utc, Timestamp};
use crate::encoding::{
    base64url, encode_segment, lemma_encoding_alphabet, lemma_segment_round_trip, segment_text,
    sextet_value,
};
use crate::payload::{
    draw_claims, lemma_payload_round_trip, parse_payload, payload_text, render_payload,
    TokenClaims,
};
use crate::random::{draw_in_range, draw_text, drawn_from};

verus! {

/// The shortest validity of a token, in minutes.
pub const MIN_VALIDITY_MINUTES: u64 = 10;

/// The longest validity of a token, in minutes: two days.
pub const MAX_VALIDITY_MINUTES: u64 = 2880;

/// The number of characters of the signature segment.
pub const SIGNATURE_LEN: usize = 342;

/// The characters a signature segment is drawn from.
pub const SIGNATURE_ALPHABET: &'static str =
    "ABCDEFGHIJKLMNOPQRSTUVWXYZabcdefghijklmnopqrstuvwxyz0123456789-_";

/// The header object, the same in every token.
pub const HEADER_JSON: &'static str = "{\"kid\":\"049181\",\"alg\":\"RS256\"}";

/// The text of the header object.
pub open spec fn header_text() -> Seq<char> {
    HEADER_JSON@
}

/// The header segment of every token.
pub open spec fn header_segment() -> Seq<char> {
    base64url(encode_utf8(header_text()))
}

/// The payload segment of a token that states `claims`.
pub open spec fn payload_segment(claims: TokenClaims) -> Seq<char> {
    base64url(encode_utf8(payload_text(claims)))
}

/// Whether `signature` has the length and the characters of a signature
/// segment.
pub open spec fn is_signature(signature: Seq<char>) -> bool {
    &&& signature.len() == SIGNATURE_LEN
    &&& forall|i: int| 0 <= i < signature.len() ==> sextet_value(#[trigger] signature[i]) >= 0
}

/// The text of the token with the given claims and signature: three
/// segments joined by dots.
pub open spec fn token_text(claims: TokenClaims, signature: Seq<char>) -> Seq<char> {
    header_segment() + seq!['.'] + payload_segment(claims) + seq!['.'] + signature
}

/// A token together with what it was made from.
#[derive(Debug)]
pub struct EncodedToken {
    /// The token as it is handed out: three segments joined by dots.
    pub text: String,
    /// What the payload segment states.
    pub claims: TokenClaims,
    /// The minutes between issue and expiry.
    pub validity_minutes: u64,
    /// The signature segment.
    pub signature: String,
}

impl EncodedToken {
    /// The text is the token of the claims and the signature, the claims
    /// are well formed, and the expiry lies the validity after the issue.
    pub open spec fn wf(&self) -> bool {
        &&& self.claims.wf()
        &&& is_signature(self.signature@)
        &&& MIN_VALIDITY_MINUTES <= self.validity_minutes <= MAX_VALIDITY_MINUTES
        &&& self.claims.expires == self.claims.issued_at + self.validity_minutes * 60
        &&& self.text@ == token_text(self.claims, self.signature@)
    }
}

/// The second at which a token issued at `issued_at` expires.
pub fn expiry_second(issued_at: i64, validity_minutes: u64) -> (expires: i64)
    requires
        0 <= issued_at <= crate::clock::LAST_SECOND,
        validity_minutes <= MAX_VALIDITY_MINUTES,
    ensures
        expires == issued_at + validity_minutes * 60,
{
    issued_at + (validity_minutes * 60) as i64
}

/// Joins the three segments of a token: the fixed header, the payload that
/// states `claims`, and `signature`.
pub fn assemble_token(claims: TokenClaims, validity_minutes: u64, signature: String) -> (token:
    EncodedToken)
    requires
        claims.wf(),
        is_signature(signature@),
        MIN_VALIDITY_MINUTES <= validity_minutes <= MAX_VALIDITY_MINUTES,
        claims.expires == claims.issued_at + validity_minutes * 60,
    ensures
        token.wf(),
        token.claims == claims,
        token.validity_minutes == validity_minutes,
        token.signature@ == signature@,
{
    let payload: String = render_payload(&claims);
    let mut text: String = encode_segment(HEADER_JSON);
    text.append(".");
    text.append(encode_segment(payload.as_str()).as_str());
    text.append(".");
    text.append(signature.as_str());
    proof {
        reveal_strlit(".");
        assert("."@ =~= seq!['.']);
    }
    EncodedToken { text, claims, validity_minutes, signature }
}

/// Every character of the signature alphabet stands for a six-bit value.
pub proof fn lemma_signature_alphabet(c: char)
    requires
        SIGNATURE_ALPHABET@.contains(c),
    ensures
        sextet_value(c) >= 0,
{
    reveal_strlit("ABCDEFGHIJKLMNOPQRSTUVWXYZabcdefghijklmnopqrstuvwxyz0123456789-_");
}

/// Draws a signature segment.
pub fn draw_signature(rng: &mut StdRng) -> (signature: String)
    ensures
        is_signature(signature@),
        drawn_from(signature@, SIGNATURE_ALPHABET@),
{
    proof {
        reveal_strlit("ABCDEFGHIJKLMNOPQRSTUVWXYZabcdefghijklmnopqrstuvwxyz0123456789-_");
    }
    let signature: String = draw_text(rng, SIGNATURE_ALPHABET, SIGNATURE_LEN);
    proof {
        assert forall|i: int| 0 <= i < signature@.len() implies sextet_value(
            #[trigger] signature@[i],
        ) >= 0 by {
            lemma_signature_alphabet(signature@[i]);
        }
    }
    signature
}

/// Makes a token issued at `now`, valid for a number of minutes drawn from
/// 10 to 2880, and the RFC 3339 text of its expiry.
pub fn synthesize_token(now: Timestamp, rng: &mut StdRng) -> (made: (EncodedToken, String))
    requires
        now.wf(),
    ensures
        made.0.wf(),
        made.0.claims.issued_at == now.secs,
        made.0.claims.not_before == now.secs,
        made.1@ == rfc3339_utc(made.0.claims.expires as int, now.nanos as int),
{
    let minutes: u64 = draw_in_range(rng, MIN_VALIDITY_MINUTES, MAX_VALIDITY_MINUTES);
    let expires: i64 = expiry_second(now.secs, minutes);
    let claims: TokenClaims = draw_claims(rng, now.secs, expires);
    let signature: String = draw_signature(rng);
    let token: EncodedToken = assemble_token(claims, minutes, signature);
    let expires_at: String = rfc3339_string(expires, now.nanos);
    (token, expires_at)
}

/// The position of the first dot of `s`, or the length of `s` where it
/// holds none.
pub open spec fn dot_position(s: Seq<char>) -> int
    decreases s.len(),
{
    if s.len() == 0 || s[0] == '.' {
        0
    } else {
        1 + dot_position(s.drop_first())
    }
}

/// What stands before the first dot of `s`.
pub open spec fn before_dot(s: Seq<char>) -> Seq<char> {
    s.take(dot_position(s))
}

/// What stands after the first dot of `s`; nothing where `s` holds no dot.
pub open spec fn after_dot(s: Seq<char>) -> Seq<char> {
    if dot_position(s) < s.len() {
        s.skip(dot_position(s) + 1)
    } else {
        Seq::empty()
    }
}

/// The first segment of a token's text.
pub open spec fn first_segment(text: Seq<char>) -> Seq<char> {
    before_dot(text)
}

/// The second segment of a token's text.
pub open spec fn second_segment(text: Seq<char>) -> Seq<char> {
    before_dot(after_dot(text))
}

/// The third segment of a token's text: all that follows the second dot.
pub open spec fn third_segment(text: Seq<char>) -> Seq<char> {
    after_dot(after_dot(text))
}

/// Where `head` holds no dot, the first dot of `head`, a dot and `tail`
/// is the one that was put between them.
pub proof fn lemma_split_at_joint(head: Seq<char>, tail: Seq<char>)
    requires
        forall|i: int| 0 <= i < head.len() ==> head[i] != '.',
    ensures
        before_dot(head + seq!['.'] + tail) == head,
        after_dot(head + seq!['.'] + tail) == tail,
    decreases head.len(),
{
    let joined = head + seq!['.'] + tail;
    lemma_dot_after_head(head, seq!['.'] + tail);
    assert(joined =~= head + (seq!['.'] + tail));
    assert(joined.take(head.len() as int) =~= head);
    assert(joined.skip(head.len() as int + 1) =~= tail);
}

/// Where `head` holds no dot and `rest` begins with one, the first dot of
/// `head` followed by `rest` stands right after `head`.
pub proof fn lemma_dot_after_head(head: Seq<char>, rest: Seq<char>)
    requires
        forall|i: int| 0 <= i < head.len() ==> head[i] != '.',
        rest.len() > 0,
        rest[0] == '.',
    ensures
        dot_position(head + rest) == head.len(),
    decreases head.len(),
{
    if head.len() == 0 {
        assert(head + rest =~= rest);
    } else {
        assert((head + rest).drop_first() =~= head.drop_first() + rest);
        lemma_dot_after_head(head.drop_first(), rest);
    }
}

/// The claims that the payload segment of the token text `text` states,
/// or `None` where the segment does not decode to a payload text.
pub open spec fn decoded_claims(text: Seq<char>) -> Option<TokenClaims> {
    match segment_text(second_segment(text)) {
        Some(payload) => parse_payload(payload),
        None => None,
    }
}

/// The three segments of a well-formed token's text are its header
/// segment, its payload segment and its signature. The header segment
/// decodes to the fixed header, and the payload segment to the payload
/// text of the token's claims, from which the claims are read back.
pub proof fn lemma_token_decodes(token: EncodedToken)
    requires
        token.wf(),
    ensures
        first_segment(token.text@) == header_segment(),
        second_segment(token.text@) == payload_segment(token.claims),
        third_segment(token.text@) == token.signature@,
        segment_text(first_segment(token.text@)) == Some(header_text()),
        segment_text(second_segment(token.text@)) == Some(payload_text(token.claims)),
        decoded_claims(token.text@) == Some(token.claims),
{
    let head = header_segment();
    let body = payload_segment(token.claims);
    let tail = token.signature@;
    lemma_encoding_alphabet(encode_utf8(header_text()));
    lemma_encoding_alphabet(encode_utf8(payload_text(token.claims)));
    assert(token.text@ =~= head + seq!['.'] + (body + seq!['.'] + tail));
    lemma_split_at_joint(head, body + seq!['.'] + tail);
    lemma_split_at_joint(body, tail);
    lemma_segment_round_trip(header_text());
    lemma_segment_round_trip(payload_text(token.claims));
    lemma_payload_round_trip(token.claims);
}

/// In the claims decoded from a well-formed token, the expiry lies the
/// validity after the issue: the minutes times sixty, from 600 to 172800
/// seconds; and the token is valid from the second of its issue.
pub proof fn lemma_validity_window(token: EncodedToken)
    requires
        token.wf(),
    ensures
        decoded_claims(token.text@) is Some,
        decoded_claims(token.text@)->0.expires - decoded_claims(token.text@)->0.issued_at
            == token.validity_minutes * 60,
        600 <= decoded_claims(token.text@)->0.expires - decoded_claims(token.text@)->0.issued_at
            <= 172_800,
        decoded_claims(token.text@)->0.not_before == decoded_claims(token.text@)->0.issued_at,
{
    lemma_token_decodes(token);
}

/// In the claims decoded from a well-formed token, the profile id under
/// the tag of the profile map and the one in the profile description are
/// the same.
pub proof fn lemma_profile_ids_agree(token: EncodedToken)
    requires
        token.wf(),
    ensures
        decoded_claims(token.text@) is Some,
        decoded_claims(token.text@)->0.profile_mc == decoded_claims(
            token.text@,
        )->0.described_profile,
{
    lemma_token_decodes(token);
}

} // verus!
