use vstd::prelude::*;
use crate::error::{ErrorView, KeychainError};
use crate::model::{
    key_of, lists_exactly, query_admits, secret_of, starts_with, EntryKey, FindQuery, KeychainEntry, KeychainMetadata, KeychainOptions, StoredSecret,
};
use crate::platform::PlatformKeychain;
use crate::text::{has_prefix, same_text};

verus! {

/// The in-memory backend: available on every platform, owned by one store instance,
/// and gone with it. Nothing survives the process.
///
/// Operations take `&mut self` for writes, so one instance is never changed by two
/// callers at once; callers that share an instance put the whole store behind one lock.
pub struct FallbackKeychain {
    entries: Vec<KeychainEntry>,
    stored: Ghost<Map<EntryKey, StoredSecret>>,
}

/// Which entries a search selects.
enum Selection {
    All,
    AccountPrefix(String),
    Service(String),
    Account(String),
}

spec fn selects(s: Selection, k: EntryKey) -> bool {
    match s {
        Selection::All => true,
        Selection::AccountPrefix(p) => starts_with(k.1, p@),
        Selection::Service(service) => k.0 == service@,
        Selection::Account(account) => k.1 == account@,
    }
}

impl FallbackKeychain {
    /// An empty store. The options are accepted and ignored.
    pub fn new(_options: Option<KeychainOptions>) -> (r: Result<FallbackKeychain, KeychainError>)
        ensures
            r is Ok,
            r->Ok_0.wf(),
            r->Ok_0.contents() == Map::<EntryKey, StoredSecret>::empty(),
            r->Ok_0.refusal() is None,
    {
        Ok(Self::empty())
    }

    /// An empty store.
    pub fn empty() -> (r: FallbackKeychain)
        ensures
            r.wf(),
            r.contents() == Map::<EntryKey, StoredSecret>::empty(),
    {
        FallbackKeychain { entries: Vec::new(), stored: Ghost(Map::empty()) }
    }

    /// The position of the entry stored under `(service, account)`.
    fn position(&self, service: &str, account: &str) -> (r: Option<usize>)
        requires
            self.wf(),
        ensures
            r is Some ==> r->0 < self.entries@.len() && key_of(self.entries@[r->0 as int]) == (
                service@,
                account@,
            ),
            r is None ==> !self.stored@.contains_key((service@, account@)),
    {
        let mut i: usize = 0;
        while i < self.entries.len()
            invariant
                self.wf(),
                i <= self.entries@.len(),
                forall|j: int| 0 <= j < i ==> key_of(self.entries@[j]) != (service@, account@),
            decreases self.entries@.len() - i,
        {
            if same_text(self.entries[i].service.as_str(), service) && same_text(
                self.entries[i].account.as_str(),
                account,
            ) {
                return Some(i);
            }
            i = i + 1;
        }
        None
    }

    fn admits(selection: &Selection, e: &KeychainEntry) -> (r: bool)
        ensures
            r == selects(*selection, key_of(*e)),
    {
        match selection {
            Selection::All => true,
            Selection::AccountPrefix(p) => has_prefix(e.account.as_str(), p.as_str()),
            Selection::Service(service) => same_text(e.service.as_str(), service.as_str()),
            Selection::Account(account) => same_text(e.account.as_str(), account.as_str()),
        }
    }

    /// Copies of the entries that `selection` selects.
    #[verifier::rlimit(50)]
    fn collect(&self, selection: &Selection, Ghost(pick): Ghost<spec_fn(EntryKey) -> bool>) -> (r: Vec<KeychainEntry>)
        requires
            self.wf(),
            forall|k: EntryKey| #[trigger] pick(k) == selects(*selection, k),
        ensures
            lists_exactly(r@, self.stored@, pick),
    {
        let mut found: Vec<KeychainEntry> = Vec::new();
        let mut i: usize = 0;
        while i < self.entries.len()
            invariant
                self.wf(),
                forall|k: EntryKey| #[trigger] pick(k) == selects(*selection, k),
                i <= self.entries@.len(),
                forall|j: int|
                    0 <= j < found@.len() ==> {
                        &&& self.stored@.contains_key(#[trigger] key_of(found@[j]))
                        &&& pick(key_of(found@[j]))
                        &&& self.stored@[key_of(found@[j])] == secret_of(found@[j])
                    },
                forall|j: int|
                    0 <= j < found@.len() ==> exists|t: int|
                        0 <= t < i && key_of(self.entries@[t]) == #[trigger] key_of(found@[j]),
                forall|t: int|
                    0 <= t < i && pick(#[trigger] key_of(self.entries@[t])) ==> exists|j: int|
                        0 <= j < found@.len() && #[trigger] key_of(found@[j]) == key_of(
                            self.entries@[t],
                        ),
                forall|a: int, b: int|
                    0 <= a < b < found@.len() ==> key_of(found@[a]) != key_of(found@[b]),
            decreases self.entries@.len() - i,
        {
            let e = &self.entries[i];
            if Self::admits(selection, e) {
                let c = e.copy();
                proof {
                    assert forall|j: int| 0 <= j < found@.len() implies key_of(found@[j]) != key_of(c) by {
                        let t = choose|t: int|
                            0 <= t < i && key_of(self.entries@[t]) == #[trigger] key_of(found@[j]);
                        assert(key_of(self.entries@[t]) != key_of(self.entries@[i as int]));
                    }
                    assert(self.stored@.contains_key(key_of(self.entries@[i as int])));
                }
                let ghost prior = found@;
                found.push(c);
                proof {
                    let n = prior.len() as int;
                    assert(found@ == prior.push(c));
                    assert(key_of(found@[n]) == key_of(self.entries@[i as int]));
                    assert forall|j: int| 0 <= j < found@.len() implies exists|t: int|
                        0 <= t < i + 1 && key_of(self.entries@[t]) == #[trigger] key_of(found@[j]) by {
                        if j < n {
                            assert(found@[j] == prior[j]);
                            let t = choose|t: int|
                                0 <= t < i && key_of(self.entries@[t]) == #[trigger] key_of(prior[j]);
                            assert(0 <= t < i + 1 && key_of(self.entries@[t]) == key_of(found@[j]));
                        } else {
                            assert(key_of(self.entries@[i as int]) == key_of(found@[j]));
                        }
                    }
                    assert forall|t: int|
                        0 <= t < i + 1 && pick(#[trigger] key_of(self.entries@[t])) implies exists|j: int|
                        0 <= j < found@.len() && #[trigger] key_of(found@[j]) == key_of(
                            self.entries@[t],
                        ) by {
                        if t < i {
                            let j = choose|j: int|
                                0 <= j < prior.len() && #[trigger] key_of(prior[j]) == key_of(
                                    self.entries@[t],
                                );
                            assert(found@[j] == prior[j]);
                        } else {
                            assert(key_of(found@[n]) == key_of(self.entries@[t]));
                        }
                    }
                }
            }
            i = i + 1;
        }
        proof {
            assert forall|k: EntryKey| self.stored@.contains_key(k) && pick(k) implies exists|j: int|
                0 <= j < found@.len() && #[trigger] key_of(found@[j]) == k by {
                let t = choose|t: int| 0 <= t < self.entries@.len() && key_of(self.entries@[t]) == k;
                assert(pick(key_of(self.entries@[t])));
            }
        }
        found
    }
}

impl PlatformKeychain for FallbackKeychain {
    /// Keys are unique in `entries`, and `entries` lists exactly what `stored` maps.
    closed spec fn wf(&self) -> bool {
        &&& forall|i: int, j: int|
            0 <= i < j < self.entries@.len() ==> key_of(self.entries@[i]) != key_of(self.entries@[j])
        &&& forall|i: int|
            0 <= i < self.entries@.len() ==> {
                &&& self.stored@.contains_key(#[trigger] key_of(self.entries@[i]))
                &&& self.stored@[key_of(self.entries@[i])] == secret_of(self.entries@[i])
            }
        &&& forall|k: EntryKey|
            #[trigger] self.stored@.contains_key(k) ==> exists|i: int|
                0 <= i < self.entries@.len() && key_of(self.entries@[i]) == k
    }

    closed spec fn contents(&self) -> Map<EntryKey, StoredSecret> {
        self.stored@
    }

    open spec fn refusal(&self) -> Option<ErrorView> {
        None
    }

    open spec fn platform_name(&self) -> Seq<char> {
        "fallback"@
    }

    fn set_password(
        &mut self,
        service: &str,
        account: &str,
        password: &str,
        metadata: Option<KeychainMetadata>,
    ) -> (r: Result<(), KeychainError>) {
        let ghost k = (service@, account@);
        let ghost before = self.entries@;
        let entry = KeychainEntry {
            service: String::from_str(service),
            account: String::from_str(account),
            password: String::from_str(password),
            metadata,
        };
        assert(key_of(entry) == k);
        match self.position(service, account) {
            Some(i) => {
                self.entries.set(i, entry);
                self.stored = Ghost(self.stored@.insert(k, secret_of(entry)));
                proof {
                    assert forall|j: int| 0 <= j < self.entries@.len() implies key_of(
                        self.entries@[j],
                    ) == key_of(before[j]) by {}
                    assert forall|key: EntryKey| #[trigger] self.stored@.contains_key(key) implies exists|t: int|
                        0 <= t < self.entries@.len() && key_of(self.entries@[t]) == key by {
                        if key != k {
                            let t = choose|t: int| 0 <= t < before.len() && key_of(before[t]) == key;
                            assert(key_of(self.entries@[t]) == key);
                        } else {
                            assert(key_of(self.entries@[i as int]) == key);
                        }
                    }
                }
            },
            None => {
                self.entries.push(entry);
                self.stored = Ghost(self.stored@.insert(k, secret_of(entry)));
                proof {
                    let n = before.len() as int;
                    assert forall|key: EntryKey| #[trigger] self.stored@.contains_key(key) implies exists|t: int|
                        0 <= t < self.entries@.len() && key_of(self.entries@[t]) == key by {
                        if key != k {
                            let t = choose|t: int| 0 <= t < before.len() && key_of(before[t]) == key;
                            assert(key_of(self.entries@[t]) == key);
                        } else {
                            assert(key_of(self.entries@[n]) == key);
                        }
                    }
                }
            },
        }
        Ok(())
    }

    fn get_password(&self, service: &str, account: &str) -> (r: Result<Option<String>, KeychainError>) {
        match self.position(service, account) {
            Some(i) => Ok(Some(self.entries[i].password.clone())),
            None => Ok(None),
        }
    }

    fn delete_password(&mut self, service: &str, account: &str) -> (r: Result<bool, KeychainError>) {
        let ghost k = (service@, account@);
        let ghost before = self.entries@;
        match self.position(service, account) {
            Some(i) => {
                self.entries.remove(i);
                self.stored = Ghost(self.stored@.remove(k));
                proof {
                    assert forall|j: int| 0 <= j < self.entries@.len() implies #[trigger] self.entries@[j] == (
                        if j < i { before[j] } else { before[j + 1] }) by {}
                    assert forall|key: EntryKey| #[trigger] self.stored@.contains_key(key) implies exists|t: int|
                        0 <= t < self.entries@.len() && key_of(self.entries@[t]) == key by {
                        let t = choose|t: int| 0 <= t < before.len() && key_of(before[t]) == key;
                        if t < i {
                            assert(key_of(self.entries@[t]) == key);
                        } else {
                            assert(t != i);
                            assert(key_of(self.entries@[t - 1]) == key);
                        }
                    }
                }
                Ok(true)
            },
            None => {
                assert(self.stored@.remove(k) =~= self.stored@);
                Ok(false)
            },
        }
    }

    fn get_entry(&self, service: &str, account: &str) -> (r: Result<Option<KeychainEntry>, KeychainError>) {
        match self.position(service, account) {
            Some(i) => Ok(Some(self.entries[i].copy())),
            None => Ok(None),
        }
    }

    fn find_entries(&self, query: Option<FindQuery>) -> (r: Result<Vec<KeychainEntry>, KeychainError>) {
        let selection = match query {
            Some(q) => match q.account_prefix {
                Some(p) => Selection::AccountPrefix(p),
                None => Selection::All,
            },
            None => Selection::All,
        };
        Ok(self.collect(&selection, Ghost(|k: EntryKey| query_admits(query, k.1))))
    }

    fn find_credentials(&self, service: &str) -> (r: Result<Vec<KeychainEntry>, KeychainError>) {
        let selection = Selection::Service(String::from_str(service));
        Ok(self.collect(&selection, Ghost(|k: EntryKey| k.0 == service@)))
    }

    fn find_by_account(&self, account: &str) -> (r: Result<Vec<KeychainEntry>, KeychainError>) {
        let selection = Selection::Account(String::from_str(account));
        Ok(self.collect(&selection, Ghost(|k: EntryKey| k.1 == account@)))
    }

    fn get_platform_info(&self) -> (r: &'static str) {
        "fallback"
    }
}

} // verus!
