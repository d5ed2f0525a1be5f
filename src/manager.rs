//! The variables of one service, kept in the operating system's credential store. The
//! store is read and written by the host program; this type names the service and
//! turns the store's outcomes into results.

use vstd::prelude::*;
use crate::env_parser::EnvVars;
use crate::error::{ErrorView, KeychainError};

verus! {

/// How a call to the operating system's credential store failed.
#[derive(Debug, Clone, PartialEq, Eq)]
pub enum StoreFailure {
    /// No credential exists for the key.
    NoEntry,
    /// The store refused access; the store's message.
    NoAccess(String),
    /// Any other failure; the store's message.
    Other(String),
}

/// The error for a failed store call: a refusal is `AccessDenied`, anything else a
/// platform error whose message is `context` followed by the store's message.
pub open spec fn failure_error(context: Seq<char>, f: StoreFailure) -> ErrorView {
    match f {
        StoreFailure::NoAccess(_) => ErrorView::AccessDenied,
        StoreFailure::NoEntry => ErrorView::PlatformError(context + ": no entry"@),
        StoreFailure::Other(m) => ErrorView::PlatformError(context + ": "@ + m@),
    }
}

fn failure(context: String, f: StoreFailure) -> (e: KeychainError)
    ensures
        e@ == failure_error(context@, f),
{
    match f {
        StoreFailure::NoAccess(_) => KeychainError::AccessDenied,
        StoreFailure::NoEntry => {
            let mut m = context;
            m.append(": no entry");
            KeychainError::PlatformError(m)
        },
        StoreFailure::Other(detail) => {
            let mut m = context;
            m.append(": ");
            m.append(detail.as_str());
            KeychainError::PlatformError(m)
        },
    }
}

/// The variables of one service name.
pub struct KeychainManager {
    service_name: String,
}

impl View for KeychainManager {
    type V = Seq<char>;

    /// The service name.
    closed spec fn view(&self) -> Seq<char> {
        self.service_name@
    }
}

impl KeychainManager {
    pub fn new(service_name: String) -> (r: KeychainManager)
        ensures
            r@ == service_name@,
    {
        KeychainManager { service_name }
    }

    /// The service whose variables this manages.
    pub fn service_name(&self) -> (r: &str)
        ensures
            r@ == self@,
    {
        self.service_name.as_str()
    }

    /// The variables of the service. The credential store offers no enumeration of
    /// its entries, so this is always empty.
    pub fn list_vars(&self) -> (r: Result<EnvVars, KeychainError>)
        ensures
            r is Ok,
            r->Ok_0@.len() == 0,
            r->Ok_0.wf(),
    {
        Ok(EnvVars::new())
    }

    /// Removes every variable of the service. The credential store offers no
    /// enumeration of its entries, so there is nothing this can find to remove.
    pub fn clear_all(&self) -> (r: Result<(), KeychainError>)
        ensures
            r is Ok,
    {
        Ok(())
    }

    /// The result of writing `key`, from the store's outcome.
    pub fn set_var_outcome(key: &str, outcome: Result<(), StoreFailure>) -> (r: Result<(), KeychainError>)
        ensures
            outcome is Ok ==> r is Ok,
            outcome is Err ==> r is Err && r->Err_0@ == failure_error(
                "Failed to set "@ + key@ + " in keychain"@,
                outcome->Err_0,
            ),
    {
        match outcome {
            Ok(()) => Ok(()),
            Err(f) => {
                let mut context = String::from_str("Failed to set ");
                context.append(key);
                context.append(" in keychain");
                Err(failure(context, f))
            },
        }
    }

    /// The result of reading a variable, from the store's outcome: a missing entry is
    /// `None`, not an error.
    pub fn get_var_outcome(outcome: Result<String, StoreFailure>) -> (r: Result<Option<String>, KeychainError>)
        ensures
            outcome is Ok ==> r is Ok && r->Ok_0 == Some(outcome->Ok_0),
            outcome matches Err(StoreFailure::NoEntry) ==> r matches Ok(None),
            (outcome is Err && !(outcome matches Err(StoreFailure::NoEntry))) ==> r is Err
                && r->Err_0@ == failure_error("Failed to read from keychain"@, outcome->Err_0),
    {
        match outcome {
            Ok(password) => Ok(Some(password)),
            Err(StoreFailure::NoEntry) => Ok(None),
            Err(f) => Err(failure(String::from_str("Failed to read from keychain"), f)),
        }
    }

    /// The result of deleting a variable, from the store's outcome: `true` when it was
    /// removed, `false` when there was none.
    pub fn delete_var_outcome(outcome: Result<(), StoreFailure>) -> (r: Result<bool, KeychainError>)
        ensures
            outcome is Ok ==> r matches Ok(true),
            outcome matches Err(StoreFailure::NoEntry) ==> r matches Ok(false),
            (outcome is Err && !(outcome matches Err(StoreFailure::NoEntry))) ==> r is Err
                && r->Err_0@ == failure_error("Failed to delete from keychain"@, outcome->Err_0),
    {
        match outcome {
            Ok(()) => Ok(true),
            Err(StoreFailure::NoEntry) => Ok(false),
            Err(f) => Err(failure(String::from_str("Failed to delete from keychain"), f)),
        }
    }
}

} // verus!
