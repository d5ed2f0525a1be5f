use vstd::prelude::*;

verus! {

/// Code-signing details of the application that owns an entry.
#[derive(Debug, Clone, PartialEq, Eq)]
pub struct CodeSigningInfo {
    pub team_id: Option<String>,
    pub signing_identity: Option<String>,
}

/// Optional attributes that travel with a stored secret.
#[derive(Debug, Clone, PartialEq, Eq)]
pub struct KeychainMetadata {
    pub created_at: Option<i64>,
    pub modified_at: Option<i64>,
    pub label: Option<String>,
    pub comment: Option<String>,
    pub team_id: Option<String>,
    pub code_signing_info: Option<CodeSigningInfo>,
    pub access_group: Option<String>,
    pub synchronizable: Option<bool>,
}

/// One stored secret together with the key it is stored under.
#[derive(Debug, Clone, PartialEq, Eq)]
pub struct KeychainEntry {
    pub service: String,
    pub account: String,
    pub password: String,
    pub metadata: Option<KeychainMetadata>,
}

/// How a store is to be constructed. Backends that cannot honour a field ignore it.
#[derive(Debug, Clone, PartialEq, Eq)]
pub struct KeychainOptions {
    /// Team id used to namespace the access group (e.g. "ABC123XYZ").
    pub team_id: Option<String>,
    /// Access group for sharing entries between applications.
    pub access_group: Option<String>,
    /// Whether entries are synchronised across devices by the platform.
    pub synchronizable: Option<bool>,
}

/// A filter over the entries of a store; an absent field admits every entry.
#[derive(Debug, Clone, PartialEq, Eq)]
pub struct FindQuery {
    pub account_prefix: Option<String>,
    pub environment: Option<String>,
    pub team_id: Option<String>,
    pub access_group: Option<String>,
}

/// The key of a stored secret: `(service, account)`.
pub type EntryKey = (Seq<char>, Seq<char>);

/// What a store holds under one key.
pub struct StoredSecret {
    pub password: Seq<char>,
    pub metadata: Option<KeychainMetadata>,
}

pub open spec fn key_of(e: KeychainEntry) -> EntryKey {
    (e.service@, e.account@)
}

pub open spec fn secret_of(e: KeychainEntry) -> StoredSecret {
    StoredSecret { password: e.password@, metadata: e.metadata }
}

/// `p` is a prefix of `s`, compared character by character.
pub open spec fn starts_with(s: Seq<char>, p: Seq<char>) -> bool {
    p.len() <= s.len() && s.subrange(0, p.len() as int) == p
}

/// Whether an entry stored under `account` is selected by `query`: only the
/// account prefix filters; the other fields are accepted and not applied.
pub open spec fn query_admits(query: Option<FindQuery>, account: Seq<char>) -> bool {
    match query {
        None => true,
        Some(q) => match q.account_prefix {
            None => true,
            Some(p) => starts_with(account, p@),
        },
    }
}

/// `found` lists, without repetition, exactly the entries of `m` whose key `pick` selects,
/// each with the secret that `m` holds for it.
pub open spec fn lists_exactly(
    found: Seq<KeychainEntry>,
    m: Map<EntryKey, StoredSecret>,
    pick: spec_fn(EntryKey) -> bool,
) -> bool {
    &&& forall|i: int|
        0 <= i < found.len() ==> {
            &&& m.contains_key(#[trigger] key_of(found[i]))
            &&& pick(key_of(found[i]))
            &&& m[key_of(found[i])] == secret_of(found[i])
        }
    &&& forall|k: EntryKey|
        m.contains_key(k) && pick(k) ==> exists|i: int|
            0 <= i < found.len() && #[trigger] key_of(found[i]) == k
    &&& forall|i: int, j: int|
        0 <= i < j < found.len() ==> key_of(found[i]) != key_of(found[j])
}

/// A copy of optional text, equal to it.
pub fn copy_text(t: &Option<String>) -> (r: Option<String>)
    ensures
        r == *t,
{
    match t {
        Some(s) => Some(s.clone()),
        None => None,
    }
}

impl CodeSigningInfo {
    pub fn copy(&self) -> (r: CodeSigningInfo)
        ensures
            r == *self,
    {
        CodeSigningInfo {
            team_id: copy_text(&self.team_id),
            signing_identity: copy_text(&self.signing_identity),
        }
    }
}

impl KeychainMetadata {
    pub fn copy(&self) -> (r: KeychainMetadata)
        ensures
            r == *self,
    {
        KeychainMetadata {
            created_at: self.created_at,
            modified_at: self.modified_at,
            label: copy_text(&self.label),
            comment: copy_text(&self.comment),
            team_id: copy_text(&self.team_id),
            code_signing_info: match &self.code_signing_info {
                Some(c) => Some(c.copy()),
                None => None,
            },
            access_group: copy_text(&self.access_group),
            synchronizable: self.synchronizable,
        }
    }
}

pub fn copy_metadata(m: &Option<KeychainMetadata>) -> (r: Option<KeychainMetadata>)
    ensures
        r == *m,
{
    match m {
        Some(md) => Some(md.copy()),
        None => None,
    }
}

impl KeychainEntry {
    pub fn copy(&self) -> (r: KeychainEntry)
        ensures
            r == *self,
    {
        KeychainEntry {
            service: self.service.clone(),
            account: self.account.clone(),
            password: self.password.clone(),
            metadata: copy_metadata(&self.metadata),
        }
    }
}

} // verus!

verus! {

/// The password that `m` holds under `(service, account)`, if any.
pub open spec fn lookup(m: Map<EntryKey, StoredSecret>, service: Seq<char>, account: Seq<char>) -> Option<Seq<char>> {
    if m.contains_key((service, account)) {
        Some(m[(service, account)].password)
    } else {
        None
    }
}

/// The characters of an optional text.
pub open spec fn text_of(t: Option<String>) -> Option<Seq<char>> {
    match t {
        Some(s) => Some(s@),
        None => None,
    }
}

/// What a store holds after `(service, account)` was set to `password`: the previous
/// secret under that key, metadata included, is replaced and not merged.
pub open spec fn after_set(
    m: Map<EntryKey, StoredSecret>,
    service: Seq<char>,
    account: Seq<char>,
    password: Seq<char>,
    metadata: Option<KeychainMetadata>,
) -> Map<EntryKey, StoredSecret> {
    m.insert((service, account), StoredSecret { password, metadata })
}

/// What a store holds after `(service, account)` was deleted.
pub open spec fn after_delete(m: Map<EntryKey, StoredSecret>, service: Seq<char>, account: Seq<char>) -> Map<EntryKey, StoredSecret> {
    m.remove((service, account))
}

} // verus!
