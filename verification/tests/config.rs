use fzt::cli::settings::parse_config;

#[test]
fn test_parse_config() {
    let content = "# This is a comment\npreview=file\nmode = directory\n  key = value  \n\n# Another comment\ntest=123\n";
    let config = parse_config(content);
    assert_eq!(config.get("preview"), Some(&"file".to_string()));
    assert_eq!(config.get("mode"), Some(&"directory".to_string()));
    assert_eq!(config.get("key"), Some(&"value".to_string()));
    assert_eq!(config.get("test"), Some(&"123".to_string()));
    assert_eq!(config.len(), 4);
}

#[test]
fn test_empty_config() {
    let content = "# Only comments\n\n";
    let config = parse_config(content);
    assert!(config.is_empty());
}

#[test]
fn later_setting_replaces_earlier_one() {
    let config = parse_config("a=1\na = 2\n");
    assert_eq!(config.get("a"), Some(&"2".to_string()));
    assert_eq!(config.len(), 1);
}

#[test]
fn lines_without_equals_sign_are_ignored() {
    let config = parse_config("just words\nk=v=w\n");
    assert_eq!(config.get("just words"), None);
    assert_eq!(config.get("k"), Some(&"v=w".to_string()));
    assert_eq!(config.len(), 1);
}
