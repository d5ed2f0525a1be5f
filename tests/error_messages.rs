use lpop::error::KeychainError;

#[test]
fn test_keychain_error_display() {
    let error = KeychainError::NotFound("test_account".to_string());
    assert_eq!(error.to_string(), "Keychain item not found: test_account");

    let error = KeychainError::AccessDenied;
    assert_eq!(error.to_string(), "Access denied to keychain");

    let error = KeychainError::InvalidData("bad format".to_string());
    assert_eq!(error.to_string(), "Invalid data: bad format");
}

#[test]
fn test_platform_error() {
    let error = KeychainError::PlatformError("macOS specific error".to_string());
    assert_eq!(error.to_string(), "Platform error: macOS specific error");
}

#[test]
fn test_unsupported_platform() {
    let error = KeychainError::UnsupportedPlatform;
    assert_eq!(error.to_string(), "This operation is not supported on this platform");
}

#[test]
fn remaining_error_kinds_have_their_messages() {
    assert_eq!(
        KeychainError::InvalidParameter("empty account".to_string()).to_string(),
        "Invalid parameter: empty account"
    );
    assert_eq!(
        KeychainError::Unsupported("Not implemented".to_string()).to_string(),
        "Unsupported operation: Not implemented"
    );
    assert_eq!(KeychainError::NotFound(String::new()).to_string(), "Keychain item not found: ");
}
