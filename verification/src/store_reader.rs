//! Reading the store file back: the inverse of [`crate::store::store_text`].

use vstd::prelude::*;
use crate::account::{AccountRecord, AccountRecordView, Profile, ProfileView};
use crate::canonical::lemma_store_text_is_canonical;
use crate::json::{fields_text, json_quoted, scalar_views, Scalar, ScalarView};
use crate::reader::{
    chars_of, lemma_fields_round_trip, lemma_quoted_round_trip, lemma_strip_prefix, match_literal,
    parse_fields, parse_quoted, read_fields, read_quoted, strip_prefix,
};
use crate::store::{
    closing_text, entries_text, entry_text, record_label_list, record_labels, record_text,
    record_values, separator, store_text, AccountEntry, CredentialStore, CredentialStoreView,
    ENTRY_COLON, ENTRY_FIRST, ENTRY_NEXT, RECORD_CLOSE, STORE_ACCOUNTS, STORE_CLOSE,
    STORE_CLOSE_EMPTY, STORE_OPEN,
};

verus! {

/// The record whose values are `values`, in the order of the file; `None`
/// where there are not fourteen of them or one is of the wrong kind.
pub open spec fn record_from_values(values: Seq<ScalarView>) -> Option<AccountRecordView> {
    if values.len() == 14 && values[0] is Text && values[1] is Text && values[2] is Flag
        && values[3] is Flag && values[4] is Flag && values[5] is Flag && values[6] is Text
        && values[7] is Text && values[8] is Text && values[9] is Text && values[10] is Text
        && values[11] is Text && values[12] is Text && !(values[13] is Flag) {
        Some(
            AccountRecordView {
                access_token: values[0]->Text_0,
                access_token_expires_at: values[1]->Text_0,
                eligible_for_migration: values[2]->Flag_0,
                has_multiple_profiles: values[3]->Flag_0,
                legacy: values[4]->Flag_0,
                persistent: values[5]->Flag_0,
                local_id: values[6]->Text_0,
                refresh_token: values[7]->Text_0,
                profile: ProfileView { id: values[8]->Text_0, name: values[9]->Text_0 },
                remote_id: values[10]->Text_0,
                account_type: values[11]->Text_0,
                username: values[12]->Text_0,
                user_properties: match values[13] {
                    ScalarView::Text(text) => Some(text),
                    _ => None,
                },
            },
        )
    } else {
        None
    }
}

/// The record at the head of `s`, and what follows it.
#[verifier::opaque]
pub open spec fn parse_record(s: Seq<char>) -> Option<(AccountRecordView, Seq<char>)> {
    match parse_fields(s, record_labels()) {
        Some((values, behind)) => match (
            record_from_values(values),
            strip_prefix(behind, RECORD_CLOSE@),
        ) {
            (Some(record), Some(rest)) => Some((record, rest)),
            _ => None,
        },
        None => None,
    }
}

/// The account at the head of `s`, and what follows it.
pub open spec fn parse_entry(s: Seq<char>) -> Option<((Seq<char>, AccountRecordView), Seq<char>)> {
    match parse_quoted(s) {
        Some((key, behind_key)) => match strip_prefix(behind_key, ENTRY_COLON@) {
            Some(behind_colon) => match parse_record(behind_colon) {
                Some((record, rest)) => Some(((key, record), rest)),
                None => None,
            },
            None => None,
        },
        None => None,
    }
}

/// The accounts at the head of `s`, each behind its separator, and what
/// follows the last of them. The list ends where no separator stands.
pub open spec fn parse_entries(s: Seq<char>, first: bool) -> Option<
    (Seq<(Seq<char>, AccountRecordView)>, Seq<char>),
>
    decreases s.len(),
{
    match strip_prefix(s, separator(first)) {
        None => Some((Seq::empty(), s)),
        Some(behind) => match parse_entry(behind) {
            Some((entry, rest)) => if rest.len() < s.len() {
                match parse_entries(rest, false) {
                    Some((entries, end)) => Some((seq![entry] + entries, end)),
                    None => None,
                }
            } else {
                None
            },
            None => None,
        },
    }
}

/// The store that `s` is the text of, or `None` where `s` is no text of a
/// store.
pub open spec fn parse_store(s: Seq<char>) -> Option<CredentialStoreView> {
    match strip_prefix(s, STORE_OPEN@) {
        Some(behind_open) => match parse_quoted(behind_open) {
            Some((active, behind_active)) => match strip_prefix(behind_active, STORE_ACCOUNTS@) {
                Some(behind_accounts) => match parse_entries(behind_accounts, true) {
                    Some((entries, end)) => if end == closing_text(entries.len() == 0) {
                        Some(CredentialStoreView { active_account_id: active, accounts: entries })
                    } else {
                        None
                    },
                    None => None,
                },
                None => None,
            },
            None => None,
        },
        None => None,
    }
}

/// A record is rebuilt from its values.
pub proof fn lemma_record_from_its_values(record: AccountRecordView)
    ensures
        record_from_values(record_values(record)) == Some(record),
{
}

/// A record is read back from its text.
pub proof fn lemma_record_round_trip(record: AccountRecordView, rest: Seq<char>)
    ensures
        parse_record(record_text(record) + rest) == Some((record, rest)),
{
    reveal(parse_record);
    let behind = RECORD_CLOSE@ + rest;
    assert(record_text(record) + rest =~= fields_text(record_labels(), record_values(record))
        + behind);
    lemma_fields_round_trip(record_labels(), record_values(record), behind);
    lemma_strip_prefix(RECORD_CLOSE@, rest);
    lemma_record_from_its_values(record);
}

/// An account is read back from its text.
pub proof fn lemma_entry_round_trip(entry: (Seq<char>, AccountRecordView), rest: Seq<char>)
    ensures
        parse_entry(entry_text(entry) + rest) == Some((entry, rest)),
{
    let behind_colon = record_text(entry.1) + rest;
    let behind_key = ENTRY_COLON@ + behind_colon;
    assert(entry_text(entry) + rest =~= json_quoted(entry.0) + behind_key);
    lemma_quoted_round_trip(entry.0, behind_key);
    lemma_strip_prefix(ENTRY_COLON@, behind_colon);
    lemma_record_round_trip(entry.1, rest);
}

/// Neither separator stands at the head of what closes the store.
pub proof fn lemma_closing_is_no_separator(empty: bool, first: bool)
    ensures
        strip_prefix(closing_text(empty), separator(first)) is None,
        separator(first).len() > 0,
{
    reveal_strlit("\n    ");
    reveal_strlit(",\n    ");
    reveal_strlit("\n  }\n}");
    reveal_strlit("}\n}");
    let close = closing_text(empty);
    let sep = separator(first);
    if sep.len() <= close.len() {
        if first {
            assert(close.take(sep.len() as int)[3] != sep[3] || close.take(sep.len() as int)[0]
                != sep[0]);
        } else {
            assert(close.take(sep.len() as int)[0] != sep[0]);
        }
    }
}

/// One account behind its separator, followed by further accounts, is
/// read as that account before the others.
proof fn lemma_entries_step(
    entry: (Seq<char>, AccountRecordView),
    first: bool,
    rest: Seq<char>,
    later: Seq<(Seq<char>, AccountRecordView)>,
    end: Seq<char>,
)
    requires
        parse_entries(rest, false) == Some((later, end)),
    ensures
        parse_entries(separator(first) + entry_text(entry) + rest, first) == Some(
            (seq![entry] + later, end),
        ),
{
    let behind = entry_text(entry) + rest;
    let s = separator(first) + entry_text(entry) + rest;
    assert(s =~= separator(first) + behind);
    lemma_strip_prefix(separator(first), behind);
    lemma_entry_round_trip(entry, rest);
    lemma_closing_is_no_separator(true, first);
    assert(rest.len() < s.len());
}

/// Accounts are read back from their text, where what follows is the
/// closing of the store.
pub proof fn lemma_entries_round_trip(
    entries: Seq<(Seq<char>, AccountRecordView)>,
    first: bool,
    empty: bool,
)
    ensures
        parse_entries(entries_text(entries, first) + closing_text(empty), first) == Some(
            (entries, closing_text(empty)),
        ),
    decreases entries.len(),
{
    let close = closing_text(empty);
    let s = entries_text(entries, first) + close;
    if entries.len() == 0 {
        lemma_closing_is_no_separator(empty, first);
        assert(s =~= close);
    } else {
        let later = entries.drop_first();
        let rest = entries_text(later, false) + close;
        lemma_entries_round_trip(later, false, empty);
        lemma_entries_step(entries[0], first, rest, later, close);
        assert(s =~= separator(first) + entry_text(entries[0]) + rest);
        assert(seq![entries[0]] + later =~= entries);
    }
}

/// Writing a store and reading the text back gives the store again, equal
/// in every field.
pub proof fn lemma_store_round_trip(store: CredentialStoreView)
    ensures
        parse_store(store_text(store)) == Some(store),
{
    let empty = store.accounts.len() == 0;
    let behind_accounts = entries_text(store.accounts, true) + closing_text(empty);
    let behind_active = STORE_ACCOUNTS@ + behind_accounts;
    let behind_open = json_quoted(store.active_account_id) + behind_active;
    assert(store_text(store) =~= STORE_OPEN@ + behind_open);
    lemma_strip_prefix(STORE_OPEN@, behind_open);
    lemma_quoted_round_trip(store.active_account_id, behind_active);
    lemma_strip_prefix(STORE_ACCOUNTS@, behind_accounts);
    lemma_entries_round_trip(store.accounts, true, empty);
}

/// Takes the last value off `values` where it is a text.
fn take_text(values: &mut Vec<Scalar>) -> (text: Option<String>)
    requires
        old(values).len() > 0,
    ensures
        final(values)@ == old(values)@.drop_last(),
        match text {
            Some(t) => old(values)@.last()@ == ScalarView::Text(t@),
            None => !(old(values)@.last()@ is Text),
        },
{
    match values.pop() {
        Some(Scalar::Text(t)) => Some(t),
        _ => None,
    }
}

/// Takes the last value off `values` where it is a truth value.
fn take_flag(values: &mut Vec<Scalar>) -> (flag: Option<bool>)
    requires
        old(values).len() > 0,
    ensures
        final(values)@ == old(values)@.drop_last(),
        match flag {
            Some(f) => old(values)@.last()@ == ScalarView::Flag(f),
            None => !(old(values)@.last()@ is Flag),
        },
{
    match values.pop() {
        Some(Scalar::Flag(f)) => Some(f),
        _ => None,
    }
}

/// The record whose values are `values`, in the order of the file.
pub fn record_from_scalars(values: Vec<Scalar>) -> (made: Option<AccountRecord>)
    ensures
        match made {
            Some(record) => record_from_values(scalar_views(values@)) == Some(record@),
            None => record_from_values(scalar_views(values@)) is None,
        },
{
    let ghost all: Seq<ScalarView> = scalar_views(values@);
    let mut values = values;
    if values.len() != 14 {
        return None;
    }
    assert(forall|i: int| 0 <= i < 14 ==> all[i] == values@[i]@);
    let user_properties: Option<String> = match values.pop() {
        Some(Scalar::Text(t)) => Some(t),
        Some(Scalar::Null) => None,
        _ => {
            return None;
        },
    };
    let username: String = match take_text(&mut values) {
        Some(t) => t,
        None => {
            return None;
        },
    };
    let account_type: String = match take_text(&mut values) {
        Some(t) => t,
        None => {
            return None;
        },
    };
    let remote_id: String = match take_text(&mut values) {
        Some(t) => t,
        None => {
            return None;
        },
    };
    let profile_name: String = match take_text(&mut values) {
        Some(t) => t,
        None => {
            return None;
        },
    };
    let profile_id: String = match take_text(&mut values) {
        Some(t) => t,
        None => {
            return None;
        },
    };
    let refresh_token: String = match take_text(&mut values) {
        Some(t) => t,
        None => {
            return None;
        },
    };
    let local_id: String = match take_text(&mut values) {
        Some(t) => t,
        None => {
            return None;
        },
    };
    let persistent: bool = match take_flag(&mut values) {
        Some(f) => f,
        None => {
            return None;
        },
    };
    let legacy: bool = match take_flag(&mut values) {
        Some(f) => f,
        None => {
            return None;
        },
    };
    let has_multiple_profiles: bool = match take_flag(&mut values) {
        Some(f) => f,
        None => {
            return None;
        },
    };
    let eligible_for_migration: bool = match take_flag(&mut values) {
        Some(f) => f,
        None => {
            return None;
        },
    };
    let access_token_expires_at: String = match take_text(&mut values) {
        Some(t) => t,
        None => {
            return None;
        },
    };
    let access_token: String = match take_text(&mut values) {
        Some(t) => t,
        None => {
            return None;
        },
    };
    Some(
        AccountRecord {
            access_token,
            access_token_expires_at,
            eligible_for_migration,
            has_multiple_profiles,
            legacy,
            persistent,
            local_id,
            refresh_token,
            profile: Profile { id: profile_id, name: profile_name },
            remote_id,
            account_type,
            username,
            user_properties,
        },
    )
}

/// Reads the record that stands in `input` at `pos`; returns it with the
/// position behind it.
pub fn read_record(input: &Vec<char>, pos: usize) -> (found: Option<(AccountRecord, usize)>)
    requires
        pos <= input.len(),
    ensures
        match found {
            Some((record, n)) => {
                &&& pos <= n <= input.len()
                &&& parse_record(input@.skip(pos as int)) == Some(
                    (record@, input@.skip(n as int)),
                )
            },
            None => parse_record(input@.skip(pos as int)) is None,
        },
{
    proof {
        reveal(parse_record);
    }
    let labels = record_label_list();
    match read_fields(input, pos, &labels) {
        Some((values, behind)) => {
            let made = record_from_scalars(values);
            match match_literal(input, behind, RECORD_CLOSE) {
                Some(n) => match made {
                    Some(record) => Some((record, n)),
                    None => None,
                },
                None => None,
            }
        },
        None => None,
    }
}

/// Reads the account that stands in `input` at `pos`; returns it with the
/// position behind it.
pub fn read_entry(input: &Vec<char>, pos: usize) -> (found: Option<(AccountEntry, usize)>)
    requires
        pos <= input.len(),
    ensures
        match found {
            Some((entry, n)) => {
                &&& pos < n <= input.len()
                &&& parse_entry(input@.skip(pos as int)) == Some((entry@, input@.skip(n as int)))
            },
            None => parse_entry(input@.skip(pos as int)) is None,
        },
{
    let (id, behind_key) = match read_quoted(input, pos) {
        Some(found) => found,
        None => {
            return None;
        },
    };
    let behind_colon: usize = match match_literal(input, behind_key, ENTRY_COLON) {
        Some(n) => n,
        None => {
            return None;
        },
    };
    match read_record(input, behind_colon) {
        Some((record, n)) => Some((AccountEntry { id, record }, n)),
        None => None,
    }
}

/// The views of a list of accounts.
pub open spec fn entry_views(entries: Seq<AccountEntry>) -> Seq<(Seq<char>, AccountRecordView)> {
    Seq::new(entries.len(), |i: int| entries[i]@)
}

/// What is read behind some accounts already read: the same as `found`,
/// with `head` put before the accounts that `found` holds.
pub open spec fn with_entries(
    head: Seq<(Seq<char>, AccountRecordView)>,
    found: Option<(Seq<(Seq<char>, AccountRecordView)>, Seq<char>)>,
) -> Option<(Seq<(Seq<char>, AccountRecordView)>, Seq<char>)> {
    match found {
        Some((tail, rest)) => Some((head + tail, rest)),
        None => None,
    }
}

/// Reads the accounts that stand in `input` from `pos` on; returns them
/// with the position behind the last.
pub fn read_entries(input: &Vec<char>, pos: usize) -> (found: Option<(Vec<AccountEntry>, usize)>)
    requires
        pos <= input.len(),
    ensures
        match found {
            Some((entries, n)) => {
                &&& pos <= n <= input.len()
                &&& parse_entries(input@.skip(pos as int), true) == Some(
                    (entry_views(entries@), input@.skip(n as int)),
                )
            },
            None => parse_entries(input@.skip(pos as int), true) is None,
        },
{
    let ghost whole = parse_entries(input@.skip(pos as int), true);
    let mut entries: Vec<AccountEntry> = Vec::new();
    let mut i: usize = pos;
    proof {
        match whole {
            Some((tail, rest)) => {
                assert(entry_views(entries@) + tail =~= tail);
            },
            None => {},
        }
    }
    loop
        invariant
            pos <= i <= input.len(),
            whole == parse_entries(input@.skip(pos as int), true),
            whole == with_entries(
                entry_views(entries@),
                parse_entries(input@.skip(i as int), entries.len() == 0),
            ),
        decreases input.len() - i,
    {
        let first: bool = entries.len() == 0;
        let mark: &'static str = if first {
            ENTRY_FIRST
        } else {
            ENTRY_NEXT
        };
        assert(mark@ == separator(first));
        proof {
            lemma_closing_is_no_separator(true, first);
        }
        let behind: usize = match match_literal(input, i, mark) {
            Some(n) => n,
            None => {
                proof {
                    assert(entry_views(entries@) + Seq::<(Seq<char>, AccountRecordView)>::empty()
                        =~= entry_views(entries@));
                }
                return Some((entries, i));
            },
        };
        match read_entry(input, behind) {
            Some((entry, n)) => {
                proof {
                    let before = entry_views(entries@);
                    let after = entry_views(entries@.push(entry));
                    assert(after =~= before.push(entry@));
                    assert(input@.skip(n as int).len() < input@.skip(i as int).len());
                    match parse_entries(input@.skip(n as int), false) {
                        Some((tail, rest)) => {
                            assert(after + tail =~= before + (seq![entry@] + tail));
                        },
                        None => {},
                    }
                }
                entries.push(entry);
                i = n;
            },
            None => {
                return None;
            },
        }
    }
}

/// Reads a store back from the text of the store file; `None` where the
/// text is not the text of a store. A text that was written for a store
/// gives that store again, equal in every field, and no other text gives a
/// store.
pub fn parse_store_text(text: &str) -> (found: Option<CredentialStore>)
    ensures
        match found {
            Some(store) => parse_store(text@) == Some(store@) && text@ == store_text(store@),
            None => parse_store(text@) is None,
        },
        forall|store: CredentialStoreView|
            text@ == #[trigger] store_text(store) ==> found is Some && found->0@ == store,
{
    proof {
        assert forall|store: CredentialStoreView| #[trigger]
            store_text(store) == text@ <==> parse_store(text@) == Some(store) by {
            lemma_store_text_is_canonical(text@, store);
        }
    }
    let input: Vec<char> = chars_of(text);
    assert(input@.skip(0) =~= text@);
    let behind_open: usize = match match_literal(&input, 0, STORE_OPEN) {
        Some(n) => n,
        None => {
            return None;
        },
    };
    let (active_account_id, behind_active) = match read_quoted(&input, behind_open) {
        Some(found) => found,
        None => {
            return None;
        },
    };
    let behind_accounts: usize = match match_literal(&input, behind_active, STORE_ACCOUNTS) {
        Some(n) => n,
        None => {
            return None;
        },
    };
    let (accounts, end) = match read_entries(&input, behind_accounts) {
        Some(found) => found,
        None => {
            return None;
        },
    };
    let closing: &'static str = if accounts.len() == 0 {
        STORE_CLOSE_EMPTY
    } else {
        STORE_CLOSE
    };
    assert(closing@ == closing_text(entry_views(accounts@).len() == 0));
    let ghost tail: Seq<char> = input@.skip(end as int);
    match match_literal(&input, end, closing) {
        Some(n) => {
            if n == input.len() {
                proof {
                    assert(tail =~= tail.take(closing@.len() as int));
                }
                let store = CredentialStore { active_account_id, accounts };
                proof {
                    assert(store@.accounts =~= entry_views(accounts@));
                }
                Some(store)
            } else {
                None
            }
        },
        None => {
            proof {
                if tail == closing@ {
                    assert(tail.take(closing@.len() as int) =~= closing@);
                }
            }
            None
        },
    }
}

} // verus!
