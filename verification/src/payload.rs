//! The payload of a token: the claims it states, its text, and how the
//! claims are read back from the text.

use rand::rngs::StdRng;
use vstd::prelude::*;
use vstd::string::StringExecFns;
use crate::canonical::lemma_payload_text_is_canonical;
use crate::json::label_texts;
use crate::numbers::{
    append_numbers, decimals_end, hex_numbers_fit, kind_of, kinds_of, lemma_numbers_round_trip,
    numbers_text, parse_numbers, pow16, read_numbers, Number, NumberKind,
};
use crate::random::{draw_in_range, draw_u128};
use crate::reader::{chars_of, match_literal};

verus! {

/// The smallest number of sixteen decimal digits.
pub const MIN_SIXTEEN_DIGITS: u64 = 1_000_000_000_000_000;

/// The largest number of sixteen decimal digits.
pub const MAX_SIXTEEN_DIGITS: u64 = 9_999_999_999_999_999;

/// The largest value of 48 bits.
pub const MAX_48_BITS: u64 = 0xffff_ffff_ffff;

/// The payload up to the subject number.
pub const PAYLOAD_OPEN: &'static str = "{\"xuid\":\"";

/// The payload between the subject number and the subject string.
pub const PAYLOAD_SUBJECT: &'static str = "\",\"agg\":\"Adulu\",\"sub\":\"";

/// What stands between the groups of the subject string.
pub const SUBJECT_DASH: &'static str = "-";

/// The payload between the subject string and the profile map's id.
pub const PAYLOAD_PROFILES: &'static str =
    "\",\"auth\":\"XBOX\",\"ns\":\"default\",\"roles\":[],\"iss\":\"authentication\",\"flags\":[\"orders_2022\",\"msamigration_stage4\",\"twofactorauth\",\"multiplaxUr\"],\"profiles\":{\"mc\":\"";

/// The payload between the profile map's id and the profile description's id.
pub const PAYLOAD_DESCRIPTION: &'static str =
    "\"}, \"platform\":\"PC_LAUNCHER\",\"pfd\":[{\"type\":\"mc\",\"id\":\"";

/// The payload between the profile description's id and the not-before time.
pub const PAYLOAD_NOT_BEFORE: &'static str = "\",\"name\":\"player\"}],\"nbf\":";

/// The payload between the not-before time and the expiry.
pub const PAYLOAD_EXPIRES: &'static str = ",\"exp\":";

/// The payload between the expiry and the time of issue.
pub const PAYLOAD_ISSUED: &'static str = ",\"iat\":";

/// The payload between the time of issue and the session id's last group.
pub const PAYLOAD_SESSION: &'static str = ",\"aid\":\"00000000-0000-0000-0000-";

/// The end of the payload.
pub const PAYLOAD_CLOSE: &'static str = "\"}";

/// A subject string in the shape of a UUID: five groups of 8, 4, 4, 4 and
/// 12 hexadecimal digits.
#[derive(Clone, Copy, Debug, PartialEq, Eq, Structural)]
pub struct SubjectId {
    /// The first group.
    pub time_low: u32,
    /// The second group.
    pub time_mid: u16,
    /// The third group.
    pub time_high: u16,
    /// The fourth group.
    pub clock_seq: u16,
    /// The fifth group, a value of 48 bits.
    pub node: u64,
}

/// What the payload of a token states.
#[derive(Clone, Copy, Debug, PartialEq, Eq, Structural)]
pub struct TokenClaims {
    /// The subject number, sixteen decimal digits.
    pub xuid: u64,
    /// The subject string.
    pub subject: SubjectId,
    /// The profile id under the tag `mc` of the profile map.
    pub profile_mc: u128,
    /// The profile id in the one-element profile description.
    pub described_profile: u128,
    /// The second before which the token is not valid.
    pub not_before: i64,
    /// The second at which the token expires.
    pub expires: i64,
    /// The second at which the token was issued.
    pub issued_at: i64,
    /// The last group of the session id, a value of 48 bits.
    pub session: u64,
}

impl TokenClaims {
    /// The claims are those of a token issued at some second from the epoch
    /// on: the random fields lie in their ranges, both profile ids agree,
    /// and the token is valid from its issue.
    pub open spec fn wf(&self) -> bool {
        &&& MIN_SIXTEEN_DIGITS <= self.xuid <= MAX_SIXTEEN_DIGITS
        &&& self.subject.node <= MAX_48_BITS
        &&& self.session <= MAX_48_BITS
        &&& self.profile_mc == self.described_profile
        &&& 0 <= self.issued_at
        &&& self.not_before == self.issued_at
        &&& self.issued_at <= self.expires
    }
}

/// The labels of the payload's numbers, in order: the subject string is
/// five numbers with dashes between them.
pub open spec fn payload_labels() -> Seq<Seq<char>> {
    seq![
        PAYLOAD_OPEN@,
        PAYLOAD_SUBJECT@,
        SUBJECT_DASH@,
        SUBJECT_DASH@,
        SUBJECT_DASH@,
        SUBJECT_DASH@,
        PAYLOAD_PROFILES@,
        PAYLOAD_DESCRIPTION@,
        PAYLOAD_NOT_BEFORE@,
        PAYLOAD_EXPIRES@,
        PAYLOAD_ISSUED@,
        PAYLOAD_SESSION@,
    ]
}

/// The numbers of the payload, in order, each in its form.
pub open spec fn payload_numbers(claims: TokenClaims) -> Seq<Number> {
    seq![
        Number::Decimal(claims.xuid),
        Number::Hex(claims.subject.time_low as u128, 8),
        Number::Hex(claims.subject.time_mid as u128, 4),
        Number::Hex(claims.subject.time_high as u128, 4),
        Number::Hex(claims.subject.clock_seq as u128, 4),
        Number::Hex(claims.subject.node as u128, 12),
        Number::Hex(claims.profile_mc, 32),
        Number::Hex(claims.described_profile, 32),
        Number::Decimal(claims.not_before as u64),
        Number::Decimal(claims.expires as u64),
        Number::Decimal(claims.issued_at as u64),
        Number::Hex(claims.session as u128, 12),
    ]
}

/// The forms of the payload's numbers, in order.
pub open spec fn payload_kinds() -> Seq<NumberKind> {
    seq![
        NumberKind::Decimal,
        NumberKind::Hex(8),
        NumberKind::Hex(4),
        NumberKind::Hex(4),
        NumberKind::Hex(4),
        NumberKind::Hex(12),
        NumberKind::Hex(32),
        NumberKind::Hex(32),
        NumberKind::Decimal,
        NumberKind::Decimal,
        NumberKind::Decimal,
        NumberKind::Hex(12),
    ]
}

/// The text of the payload object that states `claims`: each label with
/// its number, then the closing.
pub open spec fn payload_text(claims: TokenClaims) -> Seq<char> {
    numbers_text(payload_labels(), payload_numbers(claims)) + PAYLOAD_CLOSE@
}

/// The labels of the payload's numbers, in order.
pub fn payload_label_list() -> (labels: Vec<&'static str>)
    ensures
        label_texts(labels@) == payload_labels(),
{
    let labels: Vec<&'static str> = vec![
        PAYLOAD_OPEN,
        PAYLOAD_SUBJECT,
        SUBJECT_DASH,
        SUBJECT_DASH,
        SUBJECT_DASH,
        SUBJECT_DASH,
        PAYLOAD_PROFILES,
        PAYLOAD_DESCRIPTION,
        PAYLOAD_NOT_BEFORE,
        PAYLOAD_EXPIRES,
        PAYLOAD_ISSUED,
        PAYLOAD_SESSION,
    ];
    proof {
        assert(label_texts(labels@) =~= payload_labels());
    }
    labels
}

/// The forms of the payload's numbers, in order.
pub fn payload_kind_list() -> (kinds: Vec<NumberKind>)
    ensures
        kinds@ == payload_kinds(),
{
    let kinds: Vec<NumberKind> = vec![
        NumberKind::Decimal,
        NumberKind::Hex(8),
        NumberKind::Hex(4),
        NumberKind::Hex(4),
        NumberKind::Hex(4),
        NumberKind::Hex(12),
        NumberKind::Hex(32),
        NumberKind::Hex(32),
        NumberKind::Decimal,
        NumberKind::Decimal,
        NumberKind::Decimal,
        NumberKind::Hex(12),
    ];
    proof {
        assert(kinds@ =~= payload_kinds());
    }
    kinds
}

/// The numbers of the payload that states `claims`, in order.
pub fn payload_number_list(claims: &TokenClaims) -> (numbers: Vec<Number>)
    requires
        0 <= claims.not_before,
        0 <= claims.expires,
        0 <= claims.issued_at,
    ensures
        numbers@ == payload_numbers(*claims),
{
    let numbers: Vec<Number> = vec![
        Number::Decimal(claims.xuid),
        Number::Hex(claims.subject.time_low as u128, 8),
        Number::Hex(claims.subject.time_mid as u128, 4),
        Number::Hex(claims.subject.time_high as u128, 4),
        Number::Hex(claims.subject.clock_seq as u128, 4),
        Number::Hex(claims.subject.node as u128, 12),
        Number::Hex(claims.profile_mc, 32),
        Number::Hex(claims.described_profile, 32),
        Number::Decimal(claims.not_before as u64),
        Number::Decimal(claims.expires as u64),
        Number::Decimal(claims.issued_at as u64),
        Number::Hex(claims.session as u128, 12),
    ];
    proof {
        assert(numbers@ =~= payload_numbers(*claims));
    }
    numbers
}

/// The text of the payload object that states `claims`.
pub fn render_payload(claims: &TokenClaims) -> (s: String)
    requires
        0 <= claims.not_before,
        0 <= claims.expires,
        0 <= claims.issued_at,
    ensures
        s@ == payload_text(*claims),
{
    let labels = payload_label_list();
    let numbers = payload_number_list(claims);
    let mut out: String = String::new();
    assert(label_texts(labels@).len() == labels.len());
    append_numbers(&mut out, &labels, &numbers);
    out.append(PAYLOAD_CLOSE);
    proof {
        assert(out@ =~= payload_text(*claims));
    }
    out
}

/// Draws the random fields of the claims of a token issued at `issued_at`
/// that expires at `expires`.
pub fn draw_claims(rng: &mut StdRng, issued_at: i64, expires: i64) -> (claims: TokenClaims)
    requires
        0 <= issued_at <= expires,
    ensures
        claims.wf(),
        claims.issued_at == issued_at,
        claims.not_before == issued_at,
        claims.expires == expires,
{
    let xuid: u64 = draw_in_range(rng, MIN_SIXTEEN_DIGITS, MAX_SIXTEEN_DIGITS);
    let time_low: u64 = draw_in_range(rng, 0, 0xffff_ffff);
    let time_mid: u64 = draw_in_range(rng, 0, 0xffff);
    let time_high: u64 = draw_in_range(rng, 0, 0xffff);
    let clock_seq: u64 = draw_in_range(rng, 0, 0xffff);
    let node: u64 = draw_in_range(rng, 0, MAX_48_BITS);
    let profile: u128 = draw_u128(rng);
    let session: u64 = draw_in_range(rng, 0, MAX_48_BITS);
    TokenClaims {
        xuid,
        subject: SubjectId {
            time_low: time_low as u32,
            time_mid: time_mid as u16,
            time_high: time_high as u16,
            clock_seq: clock_seq as u16,
            node,
        },
        profile_mc: profile,
        described_profile: profile,
        not_before: issued_at,
        expires,
        issued_at,
        session,
    }
}

/// The claims whose numbers are `numbers`, in the order of the payload;
/// `None` where there are not twelve of them, one is of the wrong form, or
/// one does not fit the field it belongs to.
pub open spec fn claims_from_numbers(numbers: Seq<Number>) -> Option<TokenClaims> {
    if kinds_of(numbers) == payload_kinds() && numbers[1]->Hex_0 <= u32::MAX && numbers[2]->Hex_0
        <= u16::MAX && numbers[3]->Hex_0 <= u16::MAX && numbers[4]->Hex_0 <= u16::MAX
        && numbers[5]->Hex_0 <= u64::MAX && numbers[8]->Decimal_0 <= i64::MAX
        && numbers[9]->Decimal_0 <= i64::MAX && numbers[10]->Decimal_0 <= i64::MAX
        && numbers[11]->Hex_0 <= u64::MAX {
        Some(
            TokenClaims {
                xuid: numbers[0]->Decimal_0,
                subject: SubjectId {
                    time_low: numbers[1]->Hex_0 as u32,
                    time_mid: numbers[2]->Hex_0 as u16,
                    time_high: numbers[3]->Hex_0 as u16,
                    clock_seq: numbers[4]->Hex_0 as u16,
                    node: numbers[5]->Hex_0 as u64,
                },
                profile_mc: numbers[6]->Hex_0,
                described_profile: numbers[7]->Hex_0,
                not_before: numbers[8]->Decimal_0 as i64,
                expires: numbers[9]->Decimal_0 as i64,
                issued_at: numbers[10]->Decimal_0 as i64,
                session: numbers[11]->Hex_0 as u64,
            },
        )
    } else {
        None
    }
}

/// The claims that the payload text `s` states, or `None` where `s` is no
/// payload text.
pub open spec fn parse_payload(s: Seq<char>) -> Option<TokenClaims> {
    match parse_numbers(s, payload_labels(), payload_kinds()) {
        Some((numbers, behind)) => if behind == PAYLOAD_CLOSE@ {
            claims_from_numbers(numbers)
        } else {
            None
        },
        None => None,
    }
}

/// The claims whose numbers are `numbers`, in the order of the payload.
pub fn claims_from_number_list(numbers: &Vec<Number>) -> (found: Option<TokenClaims>)
    ensures
        found == claims_from_numbers(numbers@),
{
    if numbers.len() != 12 {
        assert(kinds_of(numbers@).len() != payload_kinds().len());
        return None;
    }
    proof {
        assert forall|i: int| 0 <= i < 12 implies #[trigger] kinds_of(numbers@)[i]
            == kind_of(numbers@[i]) by {}
    }
    match (
        numbers[0],
        numbers[1],
        numbers[2],
        numbers[3],
        numbers[4],
        numbers[5],
        numbers[6],
        numbers[7],
        numbers[8],
        numbers[9],
        numbers[10],
        numbers[11],
    ) {
        (
            Number::Decimal(xuid),
            Number::Hex(time_low, 8),
            Number::Hex(time_mid, 4),
            Number::Hex(time_high, 4),
            Number::Hex(clock_seq, 4),
            Number::Hex(node, 12),
            Number::Hex(profile_mc, 32),
            Number::Hex(described_profile, 32),
            Number::Decimal(not_before),
            Number::Decimal(expires),
            Number::Decimal(issued_at),
            Number::Hex(session, 12),
        ) => {
            proof {
                assert(kinds_of(numbers@) =~= payload_kinds());
            }
            if time_low <= 0xffff_ffff && time_mid <= 0xffff && time_high <= 0xffff && clock_seq
                <= 0xffff && node <= 0xffff_ffff_ffff_ffff && not_before
                <= 0x7fff_ffff_ffff_ffff && expires <= 0x7fff_ffff_ffff_ffff && issued_at
                <= 0x7fff_ffff_ffff_ffff && session <= 0xffff_ffff_ffff_ffff {
                Some(
                    TokenClaims {
                        xuid,
                        subject: SubjectId {
                            time_low: time_low as u32,
                            time_mid: time_mid as u16,
                            time_high: time_high as u16,
                            clock_seq: clock_seq as u16,
                            node: node as u64,
                        },
                        profile_mc,
                        described_profile,
                        not_before: not_before as i64,
                        expires: expires as i64,
                        issued_at: issued_at as i64,
                        session: session as u64,
                    },
                )
            } else {
                None
            }
        },
        _ => {
            proof {
                assert(kinds_of(numbers@) != payload_kinds()) by {
                    if kinds_of(numbers@) == payload_kinds() {
                        assert(kinds_of(numbers@)[0] == payload_kinds()[0]);
                        assert(kinds_of(numbers@)[1] == payload_kinds()[1]);
                        assert(kinds_of(numbers@)[2] == payload_kinds()[2]);
                        assert(kinds_of(numbers@)[3] == payload_kinds()[3]);
                        assert(kinds_of(numbers@)[4] == payload_kinds()[4]);
                        assert(kinds_of(numbers@)[5] == payload_kinds()[5]);
                        assert(kinds_of(numbers@)[6] == payload_kinds()[6]);
                        assert(kinds_of(numbers@)[7] == payload_kinds()[7]);
                        assert(kinds_of(numbers@)[8] == payload_kinds()[8]);
                        assert(kinds_of(numbers@)[9] == payload_kinds()[9]);
                        assert(kinds_of(numbers@)[10] == payload_kinds()[10]);
                        assert(kinds_of(numbers@)[11] == payload_kinds()[11]);
                    }
                }
            }
            None
        },
    }
}

/// Reads the claims back from a payload text; `None` where the text is no
/// payload text. The payload text of claims gives those claims again, and
/// no other text gives claims.
pub fn read_claims(payload: &str) -> (found: Option<TokenClaims>)
    ensures
        found == parse_payload(payload@),
        found matches Some(claims) ==> payload@ == payload_text(claims),
        forall|claims: TokenClaims|
            claims.wf() && payload@ == #[trigger] payload_text(claims) ==> found == Some(claims),
{
    proof {
        assert forall|claims: TokenClaims| #[trigger]
            payload_text(claims) == payload@ && claims.wf() implies parse_payload(payload@)
            == Some(claims) by {
            lemma_payload_round_trip(claims);
        }
        if parse_payload(payload@) is Some {
            lemma_payload_text_is_canonical(payload@, parse_payload(payload@)->0);
        }
    }
    let input: Vec<char> = chars_of(payload);
    assert(input@.skip(0) =~= payload@);
    let labels = payload_label_list();
    let kinds = payload_kind_list();
    assert(label_texts(labels@).len() == labels.len());
    let (numbers, behind) = match read_numbers(&input, 0, &labels, &kinds) {
        Some(found) => found,
        None => {
            return None;
        },
    };
    let ghost tail: Seq<char> = input@.skip(behind as int);
    match match_literal(&input, behind, PAYLOAD_CLOSE) {
        Some(n) => {
            if n != input.len() {
                return None;
            }
            proof {
                assert(tail =~= tail.take(PAYLOAD_CLOSE@.len() as int));
            }
        },
        None => {
            proof {
                if tail == PAYLOAD_CLOSE@ {
                    assert(tail.take(PAYLOAD_CLOSE@.len() as int) =~= PAYLOAD_CLOSE@);
                }
            }
            return None;
        },
    }
    claims_from_number_list(&numbers)
}

/// The powers of 16 that bound the hexadecimal numbers of the payload.
pub proof fn lemma_pow16_values()
    ensures
        pow16(4) == 0x1_0000,
        pow16(8) == 0x1_0000_0000,
        pow16(12) == 0x1_0000_0000_0000,
        pow16(32) == u128::MAX + 1,
{
    reveal_with_fuel(pow16, 5);
    assert(pow16(4) == 0x1_0000);
    assert(pow16(8) == 0x1_0000 * pow16(4));
    assert(pow16(12) == 0x1_0000 * pow16(8));
    assert(pow16(16) == 0x1_0000 * pow16(12));
    assert(pow16(20) == 0x1_0000 * pow16(16));
    assert(pow16(24) == 0x1_0000 * pow16(20));
    assert(pow16(28) == 0x1_0000 * pow16(24));
    assert(pow16(32) == 0x1_0000 * pow16(28));
}

/// Claims are read back from their payload text, where their times are
/// not negative and the subject's last group and the session have no more
/// than 48 bits.
pub proof fn lemma_payload_round_trip(claims: TokenClaims)
    requires
        0 <= claims.not_before,
        0 <= claims.expires,
        0 <= claims.issued_at,
        claims.subject.node <= MAX_48_BITS,
        claims.session <= MAX_48_BITS,
    ensures
        parse_payload(payload_text(claims)) == Some(claims),
{
    let labels = payload_labels();
    let numbers = payload_numbers(claims);
    lemma_pow16_values();
    reveal_strlit("\",\"agg\":\"Adulu\",\"sub\":\"");
    reveal_strlit(",\"exp\":");
    reveal_strlit(",\"iat\":");
    reveal_strlit(",\"aid\":\"00000000-0000-0000-0000-");
    assert(decimals_end(labels, numbers, PAYLOAD_CLOSE@));
    assert(hex_numbers_fit(numbers));
    lemma_numbers_round_trip(labels, numbers, PAYLOAD_CLOSE@);
    assert(kinds_of(numbers) =~= payload_kinds());
}

} // verus!
