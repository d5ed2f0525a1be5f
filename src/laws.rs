//! Facts about sequences of store operations, stated over the model that the
//! operations' contracts use (`lookup`, `after_set`, `after_delete`, `lists_exactly`).

use vstd::prelude::*;
use crate::model::{
    after_delete, after_set, key_of, lists_exactly, lookup, query_admits, starts_with, EntryKey,
    FindQuery, KeychainEntry, KeychainMetadata, StoredSecret,
};

verus! {

/// Reading a key that was just deleted, or that an empty store never held, finds no
/// password: the read succeeds with `None`.
pub proof fn absent_after_delete(m: Map<EntryKey, StoredSecret>, service: Seq<char>, account: Seq<char>)
    ensures
        lookup(after_delete(m, service, account), service, account) is None,
        lookup(Map::empty(), service, account) is None,
{
}

/// A password that was just set is read back exactly, whatever characters it holds
/// (empty, multi-line, quotes, any Unicode).
pub proof fn read_after_set(
    m: Map<EntryKey, StoredSecret>,
    service: Seq<char>,
    account: Seq<char>,
    password: Seq<char>,
    metadata: Option<KeychainMetadata>,
)
    ensures
        lookup(after_set(m, service, account, password, metadata), service, account) == Some(password),
{
}

/// Setting a key twice leaves what the second write holds: no append and no merge of
/// the first write's metadata.
pub proof fn last_write_wins(
    m: Map<EntryKey, StoredSecret>,
    service: Seq<char>,
    account: Seq<char>,
    first: Seq<char>,
    first_metadata: Option<KeychainMetadata>,
    second: Seq<char>,
    second_metadata: Option<KeychainMetadata>,
)
    ensures
        after_set(after_set(m, service, account, first, first_metadata), service, account, second, second_metadata)
            == after_set(m, service, account, second, second_metadata),
        lookup(
            after_set(after_set(m, service, account, first, first_metadata), service, account, second, second_metadata),
            service,
            account,
        ) == Some(second),
{
    assert(after_set(after_set(m, service, account, first, first_metadata), service, account, second, second_metadata)
        =~= after_set(m, service, account, second, second_metadata));
}

/// Writing or deleting one key leaves every other key as it was, so callers that work
/// on distinct keys never see each other's effects.
pub proof fn distinct_keys_independent(
    m: Map<EntryKey, StoredSecret>,
    service: Seq<char>,
    account: Seq<char>,
    password: Seq<char>,
    metadata: Option<KeychainMetadata>,
    other_service: Seq<char>,
    other_account: Seq<char>,
)
    requires
        (service, account) != (other_service, other_account),
    ensures
        lookup(after_set(m, service, account, password, metadata), other_service, other_account)
            == lookup(m, other_service, other_account),
        lookup(after_delete(m, service, account), other_service, other_account)
            == lookup(m, other_service, other_account),
        after_set(m, service, account, password, metadata).contains_key((other_service, other_account))
            == m.contains_key((other_service, other_account)),
{
}

/// A search without a query lists every live entry, each once, and nothing else.
pub proof fn find_all_is_live_set(found: Seq<KeychainEntry>, m: Map<EntryKey, StoredSecret>)
    requires
        lists_exactly(found, m, |k: EntryKey| query_admits(None, k.1)),
    ensures
        found.map_values(|e: KeychainEntry| key_of(e)).to_set() == m.dom(),
        found.map_values(|e: KeychainEntry| key_of(e)).no_duplicates(),
{
    let keys = found.map_values(|e: KeychainEntry| key_of(e));
    assert forall|k: EntryKey| m.dom().contains(k) implies keys.to_set().contains(k) by {
        assert(query_admits(None, k.1));
        let i = choose|i: int| 0 <= i < found.len() && #[trigger] key_of(found[i]) == k;
        assert(keys[i] == k);
    }
    assert forall|k: EntryKey| keys.to_set().contains(k) implies m.dom().contains(k) by {
        let i = choose|i: int| 0 <= i < keys.len() && keys[i] == k;
        assert(key_of(found[i]) == k);
    }
    assert(keys.to_set() =~= m.dom());
}

/// A search by account prefix lists, each once, exactly the live entries whose account
/// starts with the prefix, compared character by character (so case-sensitively).
pub proof fn find_by_prefix_selects(found: Seq<KeychainEntry>, m: Map<EntryKey, StoredSecret>, query: FindQuery)
    requires
        query.account_prefix is Some,
        lists_exactly(found, m, |k: EntryKey| query_admits(Some(query), k.1)),
    ensures
        forall|i: int| 0 <= i < found.len() ==> starts_with(
            (#[trigger] found[i]).account@,
            query.account_prefix->0@,
        ),
        forall|k: EntryKey| m.contains_key(k) && starts_with(k.1, query.account_prefix->0@) ==> exists|i: int|
            0 <= i < found.len() && #[trigger] key_of(found[i]) == k,
        found.map_values(|e: KeychainEntry| key_of(e)).to_set() == m.dom().filter(
            |k: EntryKey| starts_with(k.1, query.account_prefix->0@),
        ),
{
    let keys = found.map_values(|e: KeychainEntry| key_of(e));
    let p = query.account_prefix->0@;
    assert forall|i: int| 0 <= i < found.len() implies starts_with((#[trigger] found[i]).account@, p) by {
        assert(query_admits(Some(query), key_of(found[i]).1));
    }
    assert forall|k: EntryKey| m.contains_key(k) && starts_with(k.1, p) implies exists|i: int|
        0 <= i < found.len() && #[trigger] key_of(found[i]) == k by {
        assert(query_admits(Some(query), k.1));
    }
    assert forall|k: EntryKey| #[trigger] keys.to_set().contains(k) <==> m.dom().filter(|k: EntryKey| starts_with(k.1, p)).contains(k) by {
        if keys.to_set().contains(k) {
            let i = choose|i: int| 0 <= i < keys.len() && keys[i] == k;
            assert(key_of(found[i]) == k);
            assert(query_admits(Some(query), key_of(found[i]).1));
        }
        if m.dom().filter(|k: EntryKey| starts_with(k.1, p)).contains(k) {
            assert(query_admits(Some(query), k.1));
            let i = choose|i: int| 0 <= i < found.len() && #[trigger] key_of(found[i]) == k;
            assert(keys[i] == k);
        }
    }
    assert(keys.to_set() =~= m.dom().filter(|k: EntryKey| starts_with(k.1, p)));
}

} // verus!
