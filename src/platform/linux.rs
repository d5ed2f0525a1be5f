use vstd::prelude::*;
use crate::error::{ErrorView, KeychainError};
use crate::model::{
    EntryKey, FindQuery, KeychainEntry, KeychainMetadata, KeychainOptions, StoredSecret,
};
use crate::platform::PlatformKeychain;

verus! {

/// The backend for Linux, which has no native implementation yet: it cannot be
/// constructed, and every operation is refused with `Unsupported`.
pub struct LinuxKeychain;

/// The message with which `LinuxKeychain::new` fails.
pub open spec fn linux_refusal_text() -> Seq<char> {
    "Linux keychain support not yet implemented. Use fallback."@
}

impl LinuxKeychain {
    /// Always fails with `Unsupported`, telling the caller to use the in-memory backend.
    pub fn new(_options: Option<KeychainOptions>) -> (r: Result<LinuxKeychain, KeychainError>)
        ensures
            r matches Err(KeychainError::Unsupported(msg)) && msg@ == linux_refusal_text(),
    {
        Err(KeychainError::Unsupported(String::from_str("Linux keychain support not yet implemented. Use fallback.")))
    }

    fn refuse(&self) -> (e: KeychainError)
        ensures
            e@ == ErrorView::Unsupported("Not implemented"@),
    {
        KeychainError::Unsupported(String::from_str("Not implemented"))
    }
}

impl PlatformKeychain for LinuxKeychain {
    open spec fn wf(&self) -> bool {
        true
    }

    open spec fn contents(&self) -> Map<EntryKey, StoredSecret> {
        Map::empty()
    }

    open spec fn refusal(&self) -> Option<ErrorView> {
        Some(ErrorView::Unsupported("Not implemented"@))
    }

    open spec fn platform_name(&self) -> Seq<char> {
        "linux"@
    }

    fn set_password(
        &mut self,
        _service: &str,
        _account: &str,
        _password: &str,
        _metadata: Option<KeychainMetadata>,
    ) -> (r: Result<(), KeychainError>) {
        Err(self.refuse())
    }

    fn get_password(&self, _service: &str, _account: &str) -> (r: Result<Option<String>, KeychainError>) {
        Err(self.refuse())
    }

    fn delete_password(&mut self, _service: &str, _account: &str) -> (r: Result<bool, KeychainError>) {
        Err(self.refuse())
    }

    fn get_entry(&self, _service: &str, _account: &str) -> (r: Result<Option<KeychainEntry>, KeychainError>) {
        Err(self.refuse())
    }

    fn find_entries(&self, _query: Option<FindQuery>) -> (r: Result<Vec<KeychainEntry>, KeychainError>) {
        Err(self.refuse())
    }

    fn find_credentials(&self, _service: &str) -> (r: Result<Vec<KeychainEntry>, KeychainError>) {
        Err(self.refuse())
    }

    fn find_by_account(&self, _account: &str) -> (r: Result<Vec<KeychainEntry>, KeychainError>) {
        Err(self.refuse())
    }

    fn get_platform_info(&self) -> (r: &'static str) {
        "linux"
    }
}

} // verus!
