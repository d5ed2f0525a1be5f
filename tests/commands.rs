use lpop::command::{classify_input, SmartCommand};

#[test]
fn existing_path_is_read_as_a_file() {
    assert_eq!(classify_input("KEY=value", true), SmartCommand::SetFromFile);
}

#[test]
fn pair_is_split_at_the_first_equals() {
    assert_eq!(
        classify_input("URL=a=b", false),
        SmartCommand::SetPair { key: "URL".to_string(), value: "a=b".to_string() }
    );
    assert_eq!(
        classify_input("=x", false),
        SmartCommand::SetPair { key: String::new(), value: "x".to_string() }
    );
}

#[test]
fn env_file_names_restore() {
    assert_eq!(classify_input("prod.env", false), SmartCommand::Restore);
    assert_eq!(classify_input("config/settings", false), SmartCommand::Restore);
    assert_eq!(classify_input(".env", false), SmartCommand::Restore);
}

#[test]
fn anything_else_is_a_variable_name() {
    assert_eq!(classify_input("API_KEY", false), SmartCommand::Get);
    assert_eq!(classify_input("env", false), SmartCommand::Get);
}
