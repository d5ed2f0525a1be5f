use vstd::prelude::*;
use crate::error::{ErrorView, KeychainError};
use crate::platform::fallback::FallbackKeychain;
use crate::platform::linux::{linux_refusal_text, LinuxKeychain};
use crate::platform::macos::{MacOSKeychain, NativeSettings};
use crate::model::{
    after_delete, after_set, key_of, lists_exactly, lookup, query_admits, secret_of, text_of,
    EntryKey, FindQuery, KeychainEntry, KeychainMetadata, KeychainOptions, StoredSecret,
};

pub mod fallback;
pub mod linux;
pub mod macos;
pub mod shared;

verus! {

/// The operations that every credential-store backend offers.
///
/// A backend either performs operations, or refuses every one of them with the same
/// error (`refusal`). A backend that performs them keeps a map from `(service, account)`
/// to a secret (`contents`); an absent key is a value (`None`, `false`), never an error.
pub trait PlatformKeychain: Sized {
    /// The backend's internal invariant.
    spec fn wf(&self) -> bool;

    /// The entries that the store holds.
    spec fn contents(&self) -> Map<EntryKey, StoredSecret>;

    /// The error with which the backend refuses every operation, if it does.
    spec fn refusal(&self) -> Option<ErrorView>;

    /// The name of the platform the backend serves.
    spec fn platform_name(&self) -> Seq<char>;

    /// Stores `password` (and `metadata`) under `(service, account)`, replacing any
    /// previous secret there.
    fn set_password(
        &mut self,
        service: &str,
        account: &str,
        password: &str,
        metadata: Option<KeychainMetadata>,
    ) -> (r: Result<(), KeychainError>)
        requires
            old(self).wf(),
        ensures
            final(self).wf(),
            final(self).refusal() == old(self).refusal(),
            final(self).platform_name() == old(self).platform_name(),
            old(self).refusal() is None ==> r is Ok && final(self).contents() == after_set(
                old(self).contents(),
                service@,
                account@,
                password@,
                metadata,
            ),
            old(self).refusal() is Some ==> r is Err && r->Err_0@ == old(self).refusal()->0
                && final(self).contents() == old(self).contents(),
    ;

    /// The password stored under `(service, account)`; `None` when there is none.
    fn get_password(&self, service: &str, account: &str) -> (r: Result<Option<String>, KeychainError>)
        requires
            self.wf(),
        ensures
            self.refusal() is None ==> r is Ok && text_of(r->Ok_0) == lookup(
                self.contents(),
                service@,
                account@,
            ),
            self.refusal() is Some ==> r is Err && r->Err_0@ == self.refusal()->0,
    ;

    /// Removes the entry under `(service, account)`; `true` exactly when one was there.
    fn delete_password(&mut self, service: &str, account: &str) -> (r: Result<bool, KeychainError>)
        requires
            old(self).wf(),
        ensures
            final(self).wf(),
            final(self).refusal() == old(self).refusal(),
            final(self).platform_name() == old(self).platform_name(),
            old(self).refusal() is None ==> r == Ok::<bool, KeychainError>(
                old(self).contents().contains_key((service@, account@)),
            ) && final(self).contents() == after_delete(old(self).contents(), service@, account@),
            old(self).refusal() is Some ==> r is Err && r->Err_0@ == old(self).refusal()->0
                && final(self).contents() == old(self).contents(),
    ;

    /// The whole entry under `(service, account)`, metadata included; `None` when there is none.
    fn get_entry(&self, service: &str, account: &str) -> (r: Result<Option<KeychainEntry>, KeychainError>)
        requires
            self.wf(),
        ensures
            self.refusal() is None ==> r is Ok && (r->Ok_0 is Some <==> self.contents().contains_key(
                (service@, account@),
            )) && (r->Ok_0 is Some ==> key_of(r->Ok_0->0) == (service@, account@) && secret_of(
                r->Ok_0->0,
            ) == self.contents()[(service@, account@)]),
            self.refusal() is Some ==> r is Err && r->Err_0@ == self.refusal()->0,
    ;

    /// Every entry whose account `query` admits.
    fn find_entries(&self, query: Option<FindQuery>) -> (r: Result<Vec<KeychainEntry>, KeychainError>)
        requires
            self.wf(),
        ensures
            self.refusal() is None ==> r is Ok && lists_exactly(
                r->Ok_0@,
                self.contents(),
                |k: EntryKey| query_admits(query, k.1),
            ),
            self.refusal() is Some ==> r is Err && r->Err_0@ == self.refusal()->0,
    ;

    /// Every entry stored for `service`.
    fn find_credentials(&self, service: &str) -> (r: Result<Vec<KeychainEntry>, KeychainError>)
        requires
            self.wf(),
        ensures
            self.refusal() is None ==> r is Ok && lists_exactly(
                r->Ok_0@,
                self.contents(),
                |k: EntryKey| k.0 == service@,
            ),
            self.refusal() is Some ==> r is Err && r->Err_0@ == self.refusal()->0,
    ;

    /// Every entry stored under `account`, whatever its service.
    fn find_by_account(&self, account: &str) -> (r: Result<Vec<KeychainEntry>, KeychainError>)
        requires
            self.wf(),
        ensures
            self.refusal() is None ==> r is Ok && lists_exactly(
                r->Ok_0@,
                self.contents(),
                |k: EntryKey| k.1 == account@,
            ),
            self.refusal() is Some ==> r is Err && r->Err_0@ == self.refusal()->0,
    ;

    /// The name of the platform the backend serves.
    fn get_platform_info(&self) -> (r: &'static str)
        ensures
            r@ == self.platform_name(),
    ;
}

/// The operating system a store is built for.
#[derive(Debug, Clone, Copy, PartialEq, Eq)]
pub enum TargetPlatform {
    MacOS,
    Linux,
    Windows,
    Other,
}

/// The one backend that a store is bound to for its whole life.
pub enum PlatformBackend {
    MacOS(MacOSKeychain),
    Fallback(FallbackKeychain),
}

/// Selects the backend for `platform`: the native one on macOS, the in-memory one where
/// no native backend exists. Platforms whose native backend is not implemented yet fail
/// at once rather than falling back silently: Linux with `Unsupported`, Windows with
/// `UnsupportedPlatform`.
pub fn create_keychain(platform: TargetPlatform, options: KeychainOptions) -> (r: Result<
    PlatformBackend,
    KeychainError,
>)
    ensures
        platform == TargetPlatform::MacOS ==> (r matches Ok(PlatformBackend::MacOS(k)) && k@ == (
        NativeSettings {
            team_id: text_of(options.team_id),
            access_group: text_of(options.access_group),
            synchronizable: options.synchronizable == Some(true),
        })),
        platform == TargetPlatform::Linux ==> r is Err && r->Err_0@ == ErrorView::Unsupported(
            linux_refusal_text(),
        ),
        platform == TargetPlatform::Windows ==> r is Err && r->Err_0@ == ErrorView::UnsupportedPlatform,
        platform == TargetPlatform::Other ==> (r matches Ok(PlatformBackend::Fallback(f)) && f.wf()
            && f.refusal() is None && f.contents() == Map::<EntryKey, StoredSecret>::empty()),
{
    match platform {
        TargetPlatform::MacOS => match MacOSKeychain::new(Some(options)) {
            Ok(k) => Ok(PlatformBackend::MacOS(k)),
            Err(e) => Err(e),
        },
        TargetPlatform::Linux => match LinuxKeychain::new(Some(options)) {
            Ok(_) => Err(KeychainError::UnsupportedPlatform),
            Err(e) => Err(e),
        },
        TargetPlatform::Windows => Err(KeychainError::UnsupportedPlatform),
        TargetPlatform::Other => match FallbackKeychain::new(Some(options)) {
            Ok(f) => Ok(PlatformBackend::Fallback(f)),
            Err(e) => Err(e),
        },
    }
}

} // verus!
