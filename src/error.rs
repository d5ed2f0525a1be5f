use vstd::prelude::*;

verus! {

/// The portable failure kinds of every credential store.
///
/// An absent entry is never one of these for `get_password` or `delete_password`:
/// absence is reported as `None` or `false`.
#[derive(Debug, Clone, PartialEq, Eq)]
pub enum KeychainError {
    NotFound(String),
    AccessDenied,
    InvalidData(String),
    InvalidParameter(String),
    PlatformError(String),
    Unsupported(String),
    UnsupportedPlatform,
}

/// An error as a mathematical value: its kind and the characters it carries.
pub enum ErrorView {
    NotFound(Seq<char>),
    AccessDenied,
    InvalidData(Seq<char>),
    InvalidParameter(Seq<char>),
    PlatformError(Seq<char>),
    Unsupported(Seq<char>),
    UnsupportedPlatform,
}

impl View for KeychainError {
    type V = ErrorView;

    open spec fn view(&self) -> ErrorView {
        match self {
            KeychainError::NotFound(a) => ErrorView::NotFound(a@),
            KeychainError::AccessDenied => ErrorView::AccessDenied,
            KeychainError::InvalidData(m) => ErrorView::InvalidData(m@),
            KeychainError::InvalidParameter(m) => ErrorView::InvalidParameter(m@),
            KeychainError::PlatformError(m) => ErrorView::PlatformError(m@),
            KeychainError::Unsupported(m) => ErrorView::Unsupported(m@),
            KeychainError::UnsupportedPlatform => ErrorView::UnsupportedPlatform,
        }
    }
}

/// The human-readable text of an error.
pub open spec fn error_text(e: KeychainError) -> Seq<char> {
    match e {
        KeychainError::NotFound(account) => "Keychain item not found: "@ + account@,
        KeychainError::AccessDenied => "Access denied to keychain"@,
        KeychainError::InvalidData(msg) => "Invalid data: "@ + msg@,
        KeychainError::InvalidParameter(msg) => "Invalid parameter: "@ + msg@,
        KeychainError::PlatformError(msg) => "Platform error: "@ + msg@,
        KeychainError::Unsupported(msg) => "Unsupported operation: "@ + msg@,
        KeychainError::UnsupportedPlatform => "This operation is not supported on this platform"@,
    }
}

/// Text made of a fixed prefix followed by a detail.
fn prefixed(prefix: &str, detail: &String) -> (r: String)
    ensures
        r@ == prefix@ + detail@,
{
    let r = String::from_str(prefix);
    r.concat(detail.as_str())
}

impl KeychainError {
    /// The message shown to a user for this error.
    pub fn to_string(&self) -> (r: String)
        ensures
            r@ == error_text(*self),
    {
        match self {
            KeychainError::NotFound(account) => prefixed("Keychain item not found: ", account),
            KeychainError::AccessDenied => String::from_str("Access denied to keychain"),
            KeychainError::InvalidData(msg) => prefixed("Invalid data: ", msg),
            KeychainError::InvalidParameter(msg) => prefixed("Invalid parameter: ", msg),
            KeychainError::PlatformError(msg) => prefixed("Platform error: ", msg),
            KeychainError::Unsupported(msg) => prefixed("Unsupported operation: ", msg),
            KeychainError::UnsupportedPlatform => String::from_str(
                "This operation is not supported on this platform",
            ),
        }
    }
}

} // verus!
