use vstd::prelude::*;
use vstd::rwlock::{RwLock, RwLockPredicate};
use crate::error::KeychainError;
use crate::model::{FindQuery, KeychainEntry, KeychainMetadata};
use crate::platform::fallback::FallbackKeychain;
use crate::platform::PlatformKeychain;

verus! {

/// What the lock of a shared store keeps true of the store inside it.
pub struct TableInvariant;

impl RwLockPredicate<FallbackKeychain> for TableInvariant {
    open spec fn inv(self, k: FallbackKeychain) -> bool {
        k.wf()
    }
}

/// The in-memory backend for callers that share one instance: one lock guards the
/// whole table, so operations are serialised store-wide, not per key. Each instance has
/// its own table; nothing is shared between instances.
///
/// Between two calls another caller may change the table, so what one call returns is
/// not stated in terms of earlier calls here; it is what the in-memory backend returns
/// on the table as the lock found it. No operation fails: absence is `None` or `false`.
pub struct SharedKeychain {
    table: RwLock<FallbackKeychain, TableInvariant>,
}

impl SharedKeychain {
    /// A shared, empty store.
    pub fn new() -> (r: SharedKeychain) {
        let k = FallbackKeychain::empty();
        SharedKeychain { table: RwLock::new(k, Ghost(TableInvariant)) }
    }

    pub fn set_password(
        &self,
        service: &str,
        account: &str,
        password: &str,
        metadata: Option<KeychainMetadata>,
    ) -> (r: Result<(), KeychainError>)
        ensures
            r is Ok,
    {
        let (mut k, handle) = self.table.acquire_write();
        let r = k.set_password(service, account, password, metadata);
        handle.release_write(k);
        r
    }

    pub fn get_password(&self, service: &str, account: &str) -> (r: Result<Option<String>, KeychainError>)
        ensures
            r is Ok,
    {
        let handle = self.table.acquire_read();
        let r = handle.borrow().get_password(service, account);
        handle.release_read();
        r
    }

    pub fn delete_password(&self, service: &str, account: &str) -> (r: Result<bool, KeychainError>)
        ensures
            r is Ok,
    {
        let (mut k, handle) = self.table.acquire_write();
        let r = k.delete_password(service, account);
        handle.release_write(k);
        r
    }

    pub fn get_entry(&self, service: &str, account: &str) -> (r: Result<Option<KeychainEntry>, KeychainError>)
        ensures
            r is Ok,
            r->Ok_0 matches Some(e) ==> e.service@ == service@ && e.account@ == account@,
    {
        let handle = self.table.acquire_read();
        let r = handle.borrow().get_entry(service, account);
        handle.release_read();
        r
    }

    pub fn find_entries(&self, query: Option<FindQuery>) -> (r: Result<Vec<KeychainEntry>, KeychainError>)
        ensures
            r is Ok,
    {
        let handle = self.table.acquire_read();
        let r = handle.borrow().find_entries(query);
        handle.release_read();
        r
    }
}

} // verus!
