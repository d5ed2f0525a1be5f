//! Cross-platform credential storage: one create/read/delete/search interface over
//! an in-memory store, a native keychain backend and stubs for platforms that have no
//! native backend yet, together with the helpers that turn `.env` files and repository
//! identities into the `(service, account, password)` triples that the stores keep.

use vstd::prelude::*;
use crate::error::{ErrorView, KeychainError};
use crate::model::{text_of, EntryKey, KeychainOptions, StoredSecret};
use crate::platform::{create_keychain, PlatformBackend, PlatformKeychain as _, TargetPlatform};
use crate::platform::linux::linux_refusal_text;
use crate::platform::macos::NativeSettings;

pub mod error;
pub mod model;
pub mod text;
pub mod platform;
pub mod laws;
pub mod env_parser;
pub mod service_name;
pub mod manager;
pub mod command;

verus! {

/// A credential store bound, at construction, to the one backend of its platform.
pub struct Keychain {
    platform: PlatformBackend,
}

/// The options used when none are given: no team id, no access group, no synchronisation.
pub open spec fn default_options() -> KeychainOptions {
    KeychainOptions { team_id: None, access_group: None, synchronizable: None }
}

impl Keychain {
    /// Builds the store for `target` (see `create_keychain`).
    pub fn new(target: TargetPlatform, options: Option<KeychainOptions>) -> (r: Result<Keychain, KeychainError>)
        ensures
            ({
                let o = match options {
                    Some(o) => o,
                    None => default_options(),
                };
                &&& target == TargetPlatform::MacOS ==> (r matches Ok(k) && k.platform() matches PlatformBackend::MacOS(n) && n@ == (NativeSettings {
                    team_id: text_of(o.team_id),
                    access_group: text_of(o.access_group),
                    synchronizable: o.synchronizable == Some(true),
                }))
                &&& target == TargetPlatform::Linux ==> r is Err && r->Err_0@ == ErrorView::Unsupported(
                    linux_refusal_text(),
                )
                &&& target == TargetPlatform::Windows ==> r is Err && r->Err_0@ == ErrorView::UnsupportedPlatform
                &&& target == TargetPlatform::Other ==> (r matches Ok(k) && k.platform() matches PlatformBackend::Fallback(f)
                    && f.wf() && f.refusal() is None && f.contents() == Map::<EntryKey, StoredSecret>::empty())
            }),
    {
        let o = match options {
            Some(o) => o,
            None => KeychainOptions { team_id: None, access_group: None, synchronizable: None },
        };
        match create_keychain(target, o) {
            Ok(platform) => Ok(Keychain { platform }),
            Err(e) => Err(e),
        }
    }

    /// The backend this store is bound to.
    pub closed spec fn platform(&self) -> PlatformBackend {
        self.platform
    }

    /// The backend this store is bound to.
    pub fn backend(&self) -> (r: &PlatformBackend)
        ensures
            *r == self.platform(),
    {
        &self.platform
    }

    /// Gives up the store, handing back its backend.
    pub fn into_backend(self) -> (r: PlatformBackend)
        ensures
            r == self.platform(),
    {
        self.platform
    }
}

} // verus!
