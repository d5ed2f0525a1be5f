use lpop::env_parser::{EnvFileParser, EnvVars};

#[test]
fn test_parse_simple_env() {
    let content = r#"
KEY1=value1
KEY2=value2
# This is a comment
KEY3=value3
"#;
    let vars = EnvFileParser::parse_content(content).unwrap();
    assert_eq!(vars.get("KEY1").unwrap(), "value1");
    assert_eq!(vars.get("KEY2").unwrap(), "value2");
    assert_eq!(vars.get("KEY3").unwrap(), "value3");
    assert_eq!(vars.len(), 3);
}

#[test]
fn test_parse_quoted_values() {
    let content = r#"
SIMPLE=unquoted
DOUBLE="double quoted"
SINGLE='single quoted'
ESCAPED="with \"escaped\" quotes"
"#;
    let vars = EnvFileParser::parse_content(content).unwrap();
    assert_eq!(vars.get("SIMPLE").unwrap(), "unquoted");
    assert_eq!(vars.get("DOUBLE").unwrap(), "double quoted");
    assert_eq!(vars.get("SINGLE").unwrap(), "single quoted");
    assert_eq!(vars.get("ESCAPED").unwrap(), "with \"escaped\" quotes");
}

#[test]
fn test_parse_multiline_values() {
    let content = r#"
SINGLE_LINE=value
WITH_NEWLINE="line1\nline2"
WITH_TAB="value\twith\ttabs"
"#;
    let vars = EnvFileParser::parse_content(content).unwrap();
    assert_eq!(vars.get("SINGLE_LINE").unwrap(), "value");
    assert_eq!(vars.get("WITH_NEWLINE").unwrap(), "line1\nline2");
    assert_eq!(vars.get("WITH_TAB").unwrap(), "value\twith\ttabs");
}

#[test]
fn test_skip_empty_and_comments() {
    let content = r#"
# Comment at start
KEY1=value1

# Another comment
  # Indented comment
KEY2=value2
    
KEY3=value3
"#;
    let vars = EnvFileParser::parse_content(content).unwrap();
    assert_eq!(vars.len(), 3);
}

#[test]
fn test_equals_in_value() {
    let content = r#"
URL=https://example.com?foo=bar&baz=qux
EQUATION=2+2=4
"#;
    let vars = EnvFileParser::parse_content(content).unwrap();
    assert_eq!(vars.get("URL").unwrap(), "https://example.com?foo=bar&baz=qux");
    assert_eq!(vars.get("EQUATION").unwrap(), "2+2=4");
}

#[test]
fn later_assignment_replaces_earlier_in_place() {
    let vars = EnvFileParser::parse_content("A=1\r\nB=2\nA=3").unwrap();
    assert_eq!(vars.len(), 2);
    assert_eq!(vars.get("A").unwrap(), "3");
    let pairs = vars.pairs();
    assert_eq!(pairs[0], ("A".to_string(), "3".to_string()));
    assert_eq!(pairs[1], ("B".to_string(), "2".to_string()));
}

#[test]
fn lines_without_key_or_equals_are_skipped() {
    let vars = EnvFileParser::parse_content("=value\nNOEQUALS\n  \n#K=V\nK\\=X=Y").unwrap();
    assert_eq!(vars.len(), 1);
    assert_eq!(vars.get("K\\=X").unwrap(), "Y");
    assert!(vars.get("NOEQUALS").is_none());
}

#[test]
fn escaped_equals_is_not_a_separator() {
    assert_eq!(EnvFileParser::find_unescaped_equals("a\\=b=c"), Some(4));
    assert_eq!(EnvFileParser::find_unescaped_equals("abc"), None);
    assert_eq!(EnvFileParser::find_unescaped_equals("=x"), Some(0));
}

#[test]
fn unescape_resolves_known_escapes_only() {
    assert_eq!(EnvFileParser::unescape_value("a\\nb\\tc\\rd"), "a\nb\tc\rd");
    assert_eq!(EnvFileParser::unescape_value("q\\\"s\\'b\\\\"), "q\"s'b\\");
    assert_eq!(EnvFileParser::unescape_value("\\x"), "\\x");
    assert_eq!(EnvFileParser::unescape_value("end\\"), "end\\");
}

#[test]
fn unquote_only_matching_quotes() {
    assert_eq!(EnvFileParser::unquote_value("  'a b'  "), "a b");
    assert_eq!(EnvFileParser::unquote_value("\"mixed'"), "\"mixed'");
    assert_eq!(EnvFileParser::unquote_value("\""), "\"");
    assert_eq!(EnvFileParser::unquote_value("\"\""), "");
}

#[test]
fn quote_value_quotes_special_values() {
    assert_eq!(EnvFileParser::quote_value("plain"), "plain");
    assert_eq!(EnvFileParser::quote_value("two words"), "\"two words\"");
    assert_eq!(EnvFileParser::quote_value("say \"hi\""), "\"say \\\"hi\\\"\"");
    assert_eq!(EnvFileParser::quote_value("it's"), "\"it's\"");
    assert_eq!(EnvFileParser::quote_value(""), "");
}

#[test]
fn update_content_rewrites_known_keys_and_appends_new_ones() {
    let existing = "# settings\nA=1\nB = 2\n\nC=3";
    let mut vars = EnvVars::new();
    vars.insert("B".to_string(), "two words".to_string());
    vars.insert("D".to_string(), "4".to_string());
    vars.insert("A".to_string(), "x".to_string());
    let updated = EnvFileParser::update_content(existing, &vars);
    assert_eq!(updated, "# settings\nA=x\nB=\"two words\"\n\nC=3\nD=4");
}

#[test]
fn parse_of_updated_content_reads_back_values() {
    let mut vars = EnvVars::new();
    vars.insert("K".to_string(), "with \"quotes\" and spaces".to_string());
    let text = EnvFileParser::update_content("", &vars);
    let back = EnvFileParser::parse_content(&text).unwrap();
    assert_eq!(back.get("K").unwrap(), "with \"quotes\" and spaces");
}

#[test]
fn create_content_sorts_lines() {
    let mut vars = EnvVars::new();
    vars.insert("B".to_string(), "2".to_string());
    vars.insert("A".to_string(), "x y".to_string());
    vars.insert("AB".to_string(), "".to_string());
    assert_eq!(EnvFileParser::create_content(&vars), "A=\"x y\"\nAB=\nB=2");
    assert_eq!(EnvFileParser::create_content(&EnvVars::new()), "");
}
