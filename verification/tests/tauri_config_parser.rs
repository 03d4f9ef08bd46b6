use update_version::parsers::tauri_config_parser::TauriConfigParser;
use update_version::parsers::Parser;
use update_version::version::Version;

#[test]
fn test_version_regex_matches_in_tauri_config() {
    let content = r#"{
  "productName": "My App",
  "version": "1.0.0",
  "identifier": "com.example.app"
}"#;
    let found = TauriConfigParser::find_version_text(content).unwrap();
    assert_eq!(found, "1.0.0");
}

#[test]
fn test_filename_regex_matches_tauri_conf_json() {
    assert!(TauriConfigParser::matches_filename("/path/to/tauri.conf.json"));
    assert!(TauriConfigParser::matches_filename("\\path\\to\\tauri.conf.json"));
    assert!(TauriConfigParser::matches_filename("/src-tauri/tauri.conf.json"));
}

#[test]
fn test_filename_regex_case_insensitive() {
    assert!(TauriConfigParser::matches_filename("/path/to/TAURI.CONF.JSON"));
    assert!(TauriConfigParser::matches_filename("/path/to/Tauri.Conf.Json"));
}

#[test]
fn test_filename_regex_no_false_positives() {
    assert!(!TauriConfigParser::matches_filename("/path/to/tauri.conf.json.bak"));
    assert!(!TauriConfigParser::matches_filename("/path/to/my-tauri.conf.json"));
    assert!(!TauriConfigParser::matches_filename("/path/to/tauri.json"));
}

#[test]
fn test_version_line_format_strips_prerelease() {
    let version = Version::parse("1.2.3-beta.1").unwrap();
    let formatted = TauriConfigParser::version_line_format(&version);
    assert_eq!(formatted, r#""version": "1.2.3""#);
}

#[test]
fn test_version_line_format_simple() {
    let version = Version::parse("2.0.0").unwrap();
    let formatted = TauriConfigParser::version_line_format(&version);
    assert_eq!(formatted, r#""version": "2.0.0""#);
}
