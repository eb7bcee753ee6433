//! Account records and how a fresh one is built.

use rand::rngs::StdRng;
use vstd::prelude::*;
use vstd::string::StringExecFns;
use crate::clock::{rfc3339_utc, Timestamp};
use crate::name::is_valid_name;
use crate::random::{draw_in_range, draw_text, draw_u128, drawn_from};
use crate::text::{decimal_string, decimal_text, hex_string, hex_text};
use crate::payload::{MAX_SIXTEEN_DIGITS, MIN_SIXTEEN_DIGITS};
use crate::token::{synthesize_token, EncodedToken};

verus! {

/// The number of characters of a refresh token.
pub const REFRESH_TOKEN_LEN: usize = 380;

/// The characters a refresh token is drawn from.
pub const REFRESH_ALPHABET: &'static str =
    "ABCDEFGHIJKLMNOPQRSTUVWXYZabcdefghijklmnopqrstuvwxyz0123456789!*-_.";

/// The type of every account the library builds.
pub const ACCOUNT_TYPE: &'static str = "Xbox";

/// The game profile of an account.
#[derive(Clone, Debug, PartialEq, Eq)]
pub struct Profile {
    /// The profile id, 32 hexadecimal digits.
    pub id: String,
    /// The name shown in the game.
    pub name: String,
}

/// One entry of the credential store.
#[derive(Clone, Debug, PartialEq, Eq)]
pub struct AccountRecord {
    /// The token that grants access.
    pub access_token: String,
    /// The expiry of the access token, as RFC 3339 text.
    pub access_token_expires_at: String,
    /// Whether the account may be migrated.
    pub eligible_for_migration: bool,
    /// Whether the account has more than one profile.
    pub has_multiple_profiles: bool,
    /// Whether the account is of the legacy kind.
    pub legacy: bool,
    /// Whether the account is kept between sessions.
    pub persistent: bool,
    /// The key of the account in the store.
    pub local_id: String,
    /// The token by which the access token is renewed.
    pub refresh_token: String,
    /// The game profile.
    pub profile: Profile,
    /// The id of the account at its provider, sixteen decimal digits.
    pub remote_id: String,
    /// The type of the account.
    pub account_type: String,
    /// The name of the account's user.
    pub username: String,
    /// Properties of the user: a text, written to the store as a JSON
    /// string, or nothing, written as `null`.
    pub user_properties: Option<String>,
}

/// The mathematical content of a [`Profile`].
pub struct ProfileView {
    pub id: Seq<char>,
    pub name: Seq<char>,
}

/// The mathematical content of an [`AccountRecord`].
pub struct AccountRecordView {
    pub access_token: Seq<char>,
    pub access_token_expires_at: Seq<char>,
    pub eligible_for_migration: bool,
    pub has_multiple_profiles: bool,
    pub legacy: bool,
    pub persistent: bool,
    pub local_id: Seq<char>,
    pub refresh_token: Seq<char>,
    pub profile: ProfileView,
    pub remote_id: Seq<char>,
    pub account_type: Seq<char>,
    pub username: Seq<char>,
    pub user_properties: Option<Seq<char>>,
}

impl View for Profile {
    type V = ProfileView;

    open spec fn view(&self) -> ProfileView {
        ProfileView { id: self.id@, name: self.name@ }
    }
}

impl View for AccountRecord {
    type V = AccountRecordView;

    open spec fn view(&self) -> AccountRecordView {
        AccountRecordView {
            access_token: self.access_token@,
            access_token_expires_at: self.access_token_expires_at@,
            eligible_for_migration: self.eligible_for_migration,
            has_multiple_profiles: self.has_multiple_profiles,
            legacy: self.legacy,
            persistent: self.persistent,
            local_id: self.local_id@,
            refresh_token: self.refresh_token@,
            profile: self.profile@,
            remote_id: self.remote_id@,
            account_type: self.account_type@,
            username: self.username@,
            user_properties: match self.user_properties {
                Some(text) => Some(text@),
                None => None,
            },
        }
    }
}

/// The random values that go into a record beside its token.
#[derive(Debug)]
pub struct AccountSeeds {
    /// The value whose 32 hexadecimal digits are the record's key.
    pub local_id: u128,
    /// The value whose 32 hexadecimal digits are the profile id.
    pub profile_id: u128,
    /// The number whose sixteen decimal digits are the remote id.
    pub remote_id: u64,
    /// The refresh token.
    pub refresh_token: String,
}

/// Whether `token` has the length and the characters of a refresh token.
pub open spec fn is_refresh_token(token: Seq<char>) -> bool {
    &&& token.len() == REFRESH_TOKEN_LEN
    &&& drawn_from(token, REFRESH_ALPHABET@)
}

impl AccountSeeds {
    /// The remote id has sixteen digits and the refresh token its shape.
    pub open spec fn wf(&self) -> bool {
        &&& MIN_SIXTEEN_DIGITS <= self.remote_id <= MAX_SIXTEEN_DIGITS
        &&& is_refresh_token(self.refresh_token@)
    }
}

/// The record for `name` that is made of `seeds`, the token text
/// `access_token` and the expiry text `expires_at`.
pub open spec fn record_of(
    name: Seq<char>,
    seeds: AccountSeeds,
    access_token: Seq<char>,
    expires_at: Seq<char>,
) -> AccountRecordView {
    AccountRecordView {
        access_token,
        access_token_expires_at: expires_at,
        eligible_for_migration: false,
        has_multiple_profiles: false,
        legacy: false,
        persistent: true,
        local_id: hex_text(seeds.local_id as nat, 32),
        refresh_token: seeds.refresh_token@,
        profile: ProfileView { id: hex_text(seeds.profile_id as nat, 32), name },
        remote_id: decimal_text(seeds.remote_id as nat),
        account_type: ACCOUNT_TYPE@,
        username: name,
        user_properties: None,
    }
}

/// Whether `record` is the record for `name` made at `now` of `seeds` and
/// `token`: the token was issued at `now`, and the record's expiry text is
/// that of the token's expiry.
pub open spec fn is_built_from(
    record: AccountRecordView,
    name: Seq<char>,
    now: Timestamp,
    seeds: AccountSeeds,
    token: EncodedToken,
) -> bool {
    &&& seeds.wf()
    &&& token.wf()
    &&& token.claims.issued_at == now.secs
    &&& record == record_of(
        name,
        seeds,
        token.text@,
        rfc3339_utc(token.claims.expires as int, now.nanos as int),
    )
}

/// Whether `record` is a record for `name` made at `now`, whatever was
/// drawn for it.
pub open spec fn is_fresh_record(record: AccountRecordView, name: Seq<char>, now: Timestamp) -> bool {
    exists|seeds: AccountSeeds, token: EncodedToken|
        #[trigger] is_built_from(record, name, now, seeds, token)
}

/// Draws a refresh token: 380 characters of its alphabet.
pub fn draw_refresh_token(rng: &mut StdRng) -> (token: String)
    ensures
        is_refresh_token(token@),
{
    proof {
        reveal_strlit("ABCDEFGHIJKLMNOPQRSTUVWXYZabcdefghijklmnopqrstuvwxyz0123456789!*-_.");
    }
    draw_text(rng, REFRESH_ALPHABET, REFRESH_TOKEN_LEN)
}

/// Draws the random values of a record.
pub fn draw_seeds(rng: &mut StdRng) -> (seeds: AccountSeeds)
    ensures
        seeds.wf(),
{
    let local_id: u128 = draw_u128(rng);
    let profile_id: u128 = draw_u128(rng);
    let remote_id: u64 = draw_in_range(rng, MIN_SIXTEEN_DIGITS, MAX_SIXTEEN_DIGITS);
    let refresh_token: String = draw_refresh_token(rng);
    AccountSeeds { local_id, profile_id, remote_id, refresh_token }
}

/// Builds the record for `display_name` of values already drawn, and its
/// key in the store.
pub fn compose_record(
    display_name: &str,
    seeds: &AccountSeeds,
    access_token: &str,
    expires_at: &str,
) -> (made: (String, AccountRecord))
    ensures
        made.1@ == record_of(display_name@, *seeds, access_token@, expires_at@),
        made.0@ == made.1@.local_id,
{
    let local_id: String = hex_string(seeds.local_id, 32);
    let record = AccountRecord {
        access_token: String::from_str(access_token),
        access_token_expires_at: String::from_str(expires_at),
        eligible_for_migration: false,
        has_multiple_profiles: false,
        legacy: false,
        persistent: true,
        local_id: local_id.clone(),
        refresh_token: seeds.refresh_token.clone(),
        profile: Profile {
            id: hex_string(seeds.profile_id, 32),
            name: String::from_str(display_name),
        },
        remote_id: decimal_string(seeds.remote_id),
        account_type: String::from_str(ACCOUNT_TYPE),
        username: String::from_str(display_name),
        user_properties: None,
    };
    (local_id, record)
}

/// Builds a fresh record for `display_name` with a token issued at `now`,
/// and returns it with its key in the store.
pub fn build_record(display_name: &str, rng: &mut StdRng, now: Timestamp) -> (made: (
    String,
    AccountRecord,
))
    requires
        now.wf(),
    ensures
        made.0@ == made.1@.local_id,
        made.1@.username == display_name@,
        made.1@.profile.name == display_name@,
        !made.1@.eligible_for_migration,
        !made.1@.has_multiple_profiles,
        !made.1@.legacy,
        made.1@.persistent,
        made.1@.account_type == ACCOUNT_TYPE@,
        made.1@.user_properties is None,
        is_refresh_token(made.1@.refresh_token),
        is_fresh_record(made.1@, display_name@, now),
{
    let seeds: AccountSeeds = draw_seeds(rng);
    let (token, expires_at) = synthesize_token(now, rng);
    let made = compose_record(display_name, &seeds, token.text.as_str(), expires_at.as_str());
    proof {
        assert(is_built_from(made.1@, display_name@, now, seeds, token));
    }
    made
}

/// A fresh record for a valid display name carries that name as the name
/// of its profile and as its user name.
pub proof fn lemma_fresh_record_names(record: AccountRecordView, name: Seq<char>, now: Timestamp)
    requires
        is_valid_name(name),
        is_fresh_record(record, name, now),
    ensures
        record.profile.name == name,
        record.username == name,
        record.profile.name == record.username,
{
    let (seeds, token) = choose|seeds: AccountSeeds, token: EncodedToken|
        #[trigger] is_built_from(record, name, now, seeds, token);
}

/// A fresh record has the fixed flags, the fixed type and no user
/// properties; its access token is the text of a well-formed token issued
/// at `now`, and its expiry text names the second at which that token
/// expires.
pub proof fn lemma_fresh_record_fields(record: AccountRecordView, name: Seq<char>, now: Timestamp)
    requires
        is_fresh_record(record, name, now),
    ensures
        !record.eligible_for_migration,
        !record.has_multiple_profiles,
        !record.legacy,
        record.persistent,
        record.account_type == ACCOUNT_TYPE@,
        record.user_properties is None,
        is_refresh_token(record.refresh_token),
        exists|token: EncodedToken|
            #![trigger token.wf()]
            {
                &&& token.wf()
                &&& token.claims.issued_at == now.secs
                &&& record.access_token == token.text@
                &&& record.access_token_expires_at == rfc3339_utc(
                    token.claims.expires as int,
                    now.nanos as int,
                )
            },
{
    let (seeds, token) = choose|seeds: AccountSeeds, token: EncodedToken|
        #[trigger] is_built_from(record, name, now, seeds, token);
    assert(token.wf());
}

} // verus!
