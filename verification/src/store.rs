//! The credential store and its text form.

use rand::rngs::StdRng;
use vstd::prelude::*;
use vstd::string::StringExecFns;
use crate::account::{build_record, is_fresh_record, AccountRecord, AccountRecordView};
use crate::clock::Timestamp;
use crate::error::PatchError;
use crate::json::{
    append_fields, fields_text, json_quoted, label_texts, quote, scalar_views, Scalar, ScalarView,
};

verus! {

/// One account of the store under its key.
#[derive(Clone, Debug, PartialEq, Eq)]
pub struct AccountEntry {
    /// The key of the account.
    pub id: String,
    /// The account.
    pub record: AccountRecord,
}

/// The contents of the store file.
#[derive(Clone, Debug, PartialEq, Eq)]
pub struct CredentialStore {
    /// The key of the account in use.
    pub active_account_id: String,
    /// The accounts, each under its key, in the order of the file.
    pub accounts: Vec<AccountEntry>,
}

/// The mathematical content of a [`CredentialStore`].
pub struct CredentialStoreView {
    pub active_account_id: Seq<char>,
    pub accounts: Seq<(Seq<char>, AccountRecordView)>,
}

impl View for AccountEntry {
    type V = (Seq<char>, AccountRecordView);

    open spec fn view(&self) -> (Seq<char>, AccountRecordView) {
        (self.id@, self.record@)
    }
}

impl View for CredentialStore {
    type V = CredentialStoreView;

    open spec fn view(&self) -> CredentialStoreView {
        CredentialStoreView {
            active_account_id: self.active_account_id@,
            accounts: Seq::new(self.accounts@.len(), |i: int| self.accounts@[i]@),
        }
    }
}

impl CredentialStoreView {
    /// The keys of the accounts, in order.
    pub open spec fn keys(self) -> Seq<Seq<char>> {
        Seq::new(self.accounts.len(), |i: int| self.accounts[i].0)
    }

    /// The accounts as a mapping from key to record.
    pub open spec fn as_map(self) -> Map<Seq<char>, AccountRecordView> {
        Map::new(
            |key: Seq<char>| self.keys().contains(key),
            |key: Seq<char>| self.accounts[self.keys().index_of(key)].1,
        )
    }

    /// No key occurs twice, and the active key is the key of an account.
    pub open spec fn wf(self) -> bool {
        &&& self.keys().no_duplicates()
        &&& self.keys().contains(self.active_account_id)
    }

    /// The store that holds `record` under `key` and nothing else, with
    /// `key` active.
    pub open spec fn single(key: Seq<char>, record: AccountRecordView) -> CredentialStoreView {
        CredentialStoreView { active_account_id: key, accounts: seq![(key, record)] }
    }
}

impl CredentialStore {
    /// The store that holds `record` under `key` and nothing else, with
    /// `key` active.
    pub fn single(key: String, record: AccountRecord) -> (store: CredentialStore)
        ensures
            store@ == CredentialStoreView::single(key@, record@),
            store@.wf(),
            store@.accounts.len() == 1,
            store@.active_account_id == store@.accounts[0].0,
    {
        let active_account_id: String = key.clone();
        let mut accounts: Vec<AccountEntry> = Vec::new();
        accounts.push(AccountEntry { id: key, record });
        let store = CredentialStore { active_account_id, accounts };
        proof {
            assert(store@.accounts =~= seq![(key@, record@)]);
            lemma_single_wf(key@, record@);
        }
        store
    }

    /// Whether the key `key` is the key of one of the first `count`
    /// accounts.
    fn has_key_before(&self, key: &String, count: usize) -> (found: bool)
        requires
            count <= self.accounts.len(),
        ensures
            found == self@.keys().take(count as int).contains(key@),
    {
        let ghost keys = self@.keys();
        let mut i: usize = 0;
        while i < count
            invariant
                count <= self.accounts.len(),
                keys == self@.keys(),
                i <= count,
                forall|j: int| 0 <= j < i ==> keys[j] != key@,
            decreases count - i,
        {
            assert(keys[i as int] == self.accounts@[i as int].id@);
            if self.accounts[i].id == *key {
                assert(keys.take(count as int)[i as int] == key@);
                return true;
            }
            i += 1;
        }
        false
    }

    /// Whether no key occurs twice and the active key is the key of an
    /// account.
    pub fn is_well_formed(&self) -> (ok: bool)
        ensures
            ok == self@.wf(),
    {
        let ghost keys = self@.keys();
        let count: usize = self.accounts.len();
        assert(keys.take(count as int) =~= keys);
        if !self.has_key_before(&self.active_account_id, count) {
            return false;
        }
        let mut i: usize = 0;
        while i < count
            invariant
                count == self.accounts.len(),
                keys == self@.keys(),
                keys.contains(self@.active_account_id),
                i <= count,
                forall|a: int, b: int| 0 <= a < b < i ==> keys[a] != keys[b],
            decreases count - i,
        {
            assert(keys[i as int] == self.accounts@[i as int].id@);
            if self.has_key_before(&self.accounts[i].id, i) {
                proof {
                    let earlier = keys.take(i as int);
                    let at = choose|a: int| 0 <= a < earlier.len() && earlier[a] == keys[i as int];
                    assert(keys[at] == keys[i as int]);
                }
                return false;
            }
            proof {
                assert forall|a: int, b: int| 0 <= a < b < i + 1 implies keys[a] != keys[b] by {
                    if b == i {
                        assert(keys.take(i as int)[a] == keys[a]);
                    }
                }
            }
            i += 1;
        }
        true
    }
}

/// A store of one account whose key is active is well formed, and its
/// mapping has that key alone.
pub proof fn lemma_single_wf(key: Seq<char>, record: AccountRecordView)
    ensures
        CredentialStoreView::single(key, record).wf(),
        CredentialStoreView::single(key, record).as_map().dom() =~= set![key],
        CredentialStoreView::single(key, record).as_map()[key] == record,
{
    let store = CredentialStoreView::single(key, record);
    assert(store.keys() =~= seq![key]);
    assert(store.keys()[0] == key);
    assert(store.keys().index_of(key) == 0);
}

/// The text of a record up to its access token.
pub const RECORD_OPEN: &'static str = "{\n      \"accessToken\": ";

/// The text of a record before the expiry of its access token.
pub const RECORD_EXPIRES: &'static str = ",\n      \"accessTokenExpiresAt\": ";

/// The text of a record before its migration flag.
pub const RECORD_ELIGIBLE: &'static str = ",\n      \"eligibleForMigration\": ";

/// The text of a record before its flag of several profiles.
pub const RECORD_MULTIPLE: &'static str = ",\n      \"hasMultipleProfiles\": ";

/// The text of a record before its legacy flag.
pub const RECORD_LEGACY: &'static str = ",\n      \"legacy\": ";

/// The text of a record before its persistence flag.
pub const RECORD_PERSISTENT: &'static str = ",\n      \"persistent\": ";

/// The text of a record before its key.
pub const RECORD_LOCAL_ID: &'static str = ",\n      \"localId\": ";

/// The text of a record before its refresh token.
pub const RECORD_REFRESH: &'static str = ",\n      \"refreshToken\": ";

/// The text of a record before the id of its profile.
pub const RECORD_PROFILE_ID: &'static str =
    ",\n      \"minecraftProfile\": {\n        \"id\": ";

/// The text of a record before the name of its profile.
pub const RECORD_PROFILE_NAME: &'static str = ",\n        \"name\": ";

/// The text of a record before its remote id.
pub const RECORD_REMOTE_ID: &'static str = "\n      },\n      \"remoteId\": ";

/// The text of a record before its type.
pub const RECORD_TYPE: &'static str = ",\n      \"type\": ";

/// The text of a record before its user name.
pub const RECORD_USERNAME: &'static str = ",\n      \"username\": ";

/// The text of a record before its user properties.
pub const RECORD_PROPERTIES: &'static str = ",\n      \"userProperties\": ";

/// The end of the text of a record.
pub const RECORD_CLOSE: &'static str = "\n    }";

/// The text of a store up to its active key.
pub const STORE_OPEN: &'static str = "{\n  \"activeAccountLocalId\": ";

/// The text of a store before its accounts.
pub const STORE_ACCOUNTS: &'static str = ",\n  \"accounts\": {";

/// What stands before the key of the first account.
pub const ENTRY_FIRST: &'static str = "\n    ";

/// What stands before the key of every further account.
pub const ENTRY_NEXT: &'static str = ",\n    ";

/// What stands between the key of an account and its record.
pub const ENTRY_COLON: &'static str = ": ";

/// The end of the text of a store that holds accounts.
pub const STORE_CLOSE: &'static str = "\n  }\n}";

/// The end of the text of a store that holds no account.
pub const STORE_CLOSE_EMPTY: &'static str = "}\n}";

/// The labels of a record's values, in the order of the file.
pub open spec fn record_labels() -> Seq<Seq<char>> {
    seq![
        RECORD_OPEN@,
        RECORD_EXPIRES@,
        RECORD_ELIGIBLE@,
        RECORD_MULTIPLE@,
        RECORD_LEGACY@,
        RECORD_PERSISTENT@,
        RECORD_LOCAL_ID@,
        RECORD_REFRESH@,
        RECORD_PROFILE_ID@,
        RECORD_PROFILE_NAME@,
        RECORD_REMOTE_ID@,
        RECORD_TYPE@,
        RECORD_USERNAME@,
        RECORD_PROPERTIES@,
    ]
}

/// The values of a record, in the order of the file. User properties that
/// are absent stand as `null`.
pub open spec fn record_values(record: AccountRecordView) -> Seq<ScalarView> {
    seq![
        ScalarView::Text(record.access_token),
        ScalarView::Text(record.access_token_expires_at),
        ScalarView::Flag(record.eligible_for_migration),
        ScalarView::Flag(record.has_multiple_profiles),
        ScalarView::Flag(record.legacy),
        ScalarView::Flag(record.persistent),
        ScalarView::Text(record.local_id),
        ScalarView::Text(record.refresh_token),
        ScalarView::Text(record.profile.id),
        ScalarView::Text(record.profile.name),
        ScalarView::Text(record.remote_id),
        ScalarView::Text(record.account_type),
        ScalarView::Text(record.username),
        match record.user_properties {
            Some(text) => ScalarView::Text(text),
            None => ScalarView::Null,
        },
    ]
}

/// The text of one record, as it stands under its key in the store: each
/// label with its value, then the closing brace.
pub open spec fn record_text(record: AccountRecordView) -> Seq<char> {
    fields_text(record_labels(), record_values(record)) + RECORD_CLOSE@
}

/// What stands before the key of an account: a line break for the first,
/// a comma and a line break for every other.
pub open spec fn separator(first: bool) -> Seq<char> {
    if first {
        ENTRY_FIRST@
    } else {
        ENTRY_NEXT@
    }
}

/// The text of one account: its key, a colon and its record.
pub open spec fn entry_text(entry: (Seq<char>, AccountRecordView)) -> Seq<char> {
    json_quoted(entry.0) + ENTRY_COLON@ + record_text(entry.1)
}

/// The text of the accounts, each behind its separator; `first` says
/// whether the list begins the accounts of the store.
pub open spec fn entries_text(entries: Seq<(Seq<char>, AccountRecordView)>, first: bool) -> Seq<
    char,
>
    decreases entries.len(),
{
    if entries.len() == 0 {
        Seq::empty()
    } else {
        separator(first) + entry_text(entries[0]) + entries_text(entries.drop_first(), false)
    }
}

/// What closes the accounts and the store.
pub open spec fn closing_text(empty: bool) -> Seq<char> {
    if empty {
        STORE_CLOSE_EMPTY@
    } else {
        STORE_CLOSE@
    }
}

/// The text of the store file: the active key, then the accounts, on
/// lines indented by two spaces for each level.
pub open spec fn store_text(store: CredentialStoreView) -> Seq<char> {
    STORE_OPEN@ + json_quoted(store.active_account_id) + STORE_ACCOUNTS@ + entries_text(
        store.accounts,
        true,
    ) + closing_text(store.accounts.len() == 0)
}

/// One more account at the end adds its separator and its text at the end.
pub proof fn lemma_entries_text_push(
    entries: Seq<(Seq<char>, AccountRecordView)>,
    first: bool,
    entry: (Seq<char>, AccountRecordView),
)
    ensures
        entries_text(entries.push(entry), first) == entries_text(entries, first) + separator(
            first && entries.len() == 0,
        ) + entry_text(entry),
    decreases entries.len(),
{
    let more = entries.push(entry);
    if entries.len() == 0 {
        assert(more.drop_first() =~= Seq::<(Seq<char>, AccountRecordView)>::empty());
        assert(more[0] == entry);
        assert(entries_text(more.drop_first(), false) =~= Seq::<char>::empty());
        assert(entries_text(more, first) =~= separator(first) + entry_text(entry));
        assert(entries_text(entries, first) + separator(first) + entry_text(entry) =~= separator(
            first,
        ) + entry_text(entry));
    } else {
        lemma_entries_text_push(entries.drop_first(), false, entry);
        assert(more.drop_first() =~= entries.drop_first().push(entry));
        assert(entries_text(more, first) =~= separator(first) + entry_text(entries[0]) + (
        entries_text(entries.drop_first(), false) + separator(false) + entry_text(entry)));
        assert(entries_text(more, first) =~= entries_text(entries, first) + separator(false)
            + entry_text(entry));
    }
}

/// The labels of a record's values, in the order of the file.
pub fn record_label_list() -> (labels: Vec<&'static str>)
    ensures
        label_texts(labels@) == record_labels(),
{
    let labels: Vec<&'static str> = vec![
        RECORD_OPEN,
        RECORD_EXPIRES,
        RECORD_ELIGIBLE,
        RECORD_MULTIPLE,
        RECORD_LEGACY,
        RECORD_PERSISTENT,
        RECORD_LOCAL_ID,
        RECORD_REFRESH,
        RECORD_PROFILE_ID,
        RECORD_PROFILE_NAME,
        RECORD_REMOTE_ID,
        RECORD_TYPE,
        RECORD_USERNAME,
        RECORD_PROPERTIES,
    ];
    proof {
        assert(label_texts(labels@) =~= record_labels());
    }
    labels
}

/// The values of a record, in the order of the file.
pub fn record_value_list(record: &AccountRecord) -> (values: Vec<Scalar>)
    ensures
        scalar_views(values@) == record_values(record@),
{
    let properties: Scalar = match &record.user_properties {
        Some(text) => Scalar::Text(text.clone()),
        None => Scalar::Null,
    };
    let values: Vec<Scalar> = vec![
        Scalar::Text(record.access_token.clone()),
        Scalar::Text(record.access_token_expires_at.clone()),
        Scalar::Flag(record.eligible_for_migration),
        Scalar::Flag(record.has_multiple_profiles),
        Scalar::Flag(record.legacy),
        Scalar::Flag(record.persistent),
        Scalar::Text(record.local_id.clone()),
        Scalar::Text(record.refresh_token.clone()),
        Scalar::Text(record.profile.id.clone()),
        Scalar::Text(record.profile.name.clone()),
        Scalar::Text(record.remote_id.clone()),
        Scalar::Text(record.account_type.clone()),
        Scalar::Text(record.username.clone()),
        properties,
    ];
    proof {
        assert(scalar_views(values@) =~= record_values(record@));
    }
    values
}

/// Appends the text of one record to `out`. This always succeeds.
pub fn append_record(out: &mut String, record: &AccountRecord) -> (outcome: Result<
    (),
    PatchError,
>)
    ensures
        outcome is Ok,
        final(out)@ == old(out)@ + record_text(record@),
{
    let labels = record_label_list();
    let values = record_value_list(record);
    match append_fields(out, &labels, &values) {
        Ok(_) => {
            out.append(RECORD_CLOSE);
            proof {
                assert(final(out)@ =~= old(out)@ + record_text(record@));
            }
            Ok(())
        },
        Err(_) => Err(PatchError::Serialization),
    }
}

/// The text of one record. Every record has its text.
pub fn render_record(record: &AccountRecord) -> (outcome: Result<String, PatchError>)
    ensures
        outcome is Ok,
        outcome->Ok_0@ == record_text(record@),
{
    let mut out: String = String::new();
    match append_record(&mut out, record) {
        Ok(_) => {
            proof {
                assert(out@ =~= record_text(record@));
            }
            Ok(out)
        },
        Err(_) => Err(PatchError::Serialization),
    }
}

/// The text of the store file. Every store has its text.
pub fn render_store(store: &CredentialStore) -> (outcome: Result<String, PatchError>)
    ensures
        outcome is Ok,
        outcome->Ok_0@ == store_text(store@),
{
    let mut out: String = String::from_str(STORE_OPEN);
    match quote(store.active_account_id.as_str()) {
        Ok(quoted) => {
            out.append(quoted.as_str());
        },
        Err(_) => {
            return Err(PatchError::Serialization);
        },
    }
    out.append(STORE_ACCOUNTS);
    let ghost head: Seq<char> = out@;
    let count: usize = store.accounts.len();
    let mut i: usize = 0;
    while i < count
        invariant
            count == store.accounts@.len(),
            i <= count,
            out@ == head + entries_text(store@.accounts.take(i as int), true),
        decreases count - i,
    {
        let entry: &AccountEntry = &store.accounts[i];
        if i == 0 {
            out.append(ENTRY_FIRST);
        } else {
            out.append(ENTRY_NEXT);
        }
        match quote(entry.id.as_str()) {
            Ok(quoted) => {
                out.append(quoted.as_str());
            },
            Err(_) => {
                return Err(PatchError::Serialization);
            },
        }
        out.append(ENTRY_COLON);
        match append_record(&mut out, &entry.record) {
            Ok(_) => {},
            Err(_) => {
                return Err(PatchError::Serialization);
            },
        }
        proof {
            let before = store@.accounts.take(i as int);
            assert(store@.accounts.take(i as int + 1) =~= before.push(store@.accounts[i as int]));
            assert(store@.accounts[i as int] == entry@);
            lemma_entries_text_push(before, true, entry@);
            assert(out@ =~= head + entries_text(before.push(entry@), true));
        }
        i += 1;
    }
    proof {
        assert(store@.accounts.take(count as int) =~= store@.accounts);
    }
    if count == 0 {
        out.append(STORE_CLOSE_EMPTY);
    } else {
        out.append(STORE_CLOSE);
    }
    Ok(out)
}

/// Whether `store` holds one fresh record for `name` made at `now`, under
/// the record's own key, which is active.
pub open spec fn is_fresh_store(store: CredentialStoreView, name: Seq<char>, now: Timestamp) -> bool {
    &&& store.accounts.len() == 1
    &&& store.active_account_id == store.accounts[0].0
    &&& store.accounts[0].0 == store.accounts[0].1.local_id
    &&& is_fresh_record(store.accounts[0].1, name, now)
}

/// Builds the store that holds one fresh record for `display_name` and
/// nothing else.
pub fn generate_store(display_name: &str, rng: &mut StdRng, now: Timestamp) -> (store:
    CredentialStore)
    requires
        now.wf(),
    ensures
        is_fresh_store(store@, display_name@, now),
        store@.wf(),
        store@.accounts[0].1.username == display_name@,
        store@.accounts[0].1.profile.name == display_name@,
{
    let (key, record) = build_record(display_name, rng, now);
    CredentialStore::single(key, record)
}

/// A fresh store has exactly one key, the active one, and it is well
/// formed.
pub proof fn lemma_fresh_store_one_key(store: CredentialStoreView, name: Seq<char>, now: Timestamp)
    requires
        is_fresh_store(store, name, now),
    ensures
        store.wf(),
        store.keys().len() == 1,
        store.as_map().dom() =~= set![store.active_account_id],
        store.as_map()[store.active_account_id] == store.accounts[0].1,
{
    assert(store.accounts =~= seq![store.accounts[0]]);
    assert(store == CredentialStoreView::single(store.active_account_id, store.accounts[0].1));
    lemma_single_wf(store.active_account_id, store.accounts[0].1);
}

} // verus!
