use update_version::parsers::package_json_parser::PackageJsonParser;
use update_version::parsers::tauri_config_parser::TauriConfigParser;
use update_version::parsers::toml_parser::TomlParser;
use update_version::parsers::{Parser, ParsingError, ProjectFile};
use update_version::version::Version;

fn file(path: &str, content: &str) -> ProjectFile {
    ProjectFile { path: path.to_string(), content: content.to_string() }
}

#[test]
fn test_toml_update_version() {
    let files = vec![file(
        "/project/Cargo.toml",
        r#"[package]
name = "test-crate"
version = "1.0.0"
edition = "2021"
"#,
    )];

    let new_version = Version::parse("2.0.0").unwrap();
    let updated = TomlParser::update_version(&files, &new_version);

    assert_eq!(updated.len(), 1);
    assert_eq!(updated[0].path, "/project/Cargo.toml");
    assert!(updated[0].content.contains(r#"version = "2.0.0""#));
}

#[test]
fn test_toml_increment_version() {
    let files = vec![file(
        "/project/Cargo.toml",
        r#"[package]
name = "test-crate"
version = "1.2.3"
"#,
    )];

    let updated = TomlParser::increment_version("/project", &files).unwrap();

    assert_eq!(updated.len(), 1);
    assert!(updated[0].content.contains(r#"version = "1.2.4""#));
}

#[test]
fn test_toml_get_current_version() {
    let files = vec![file(
        "/project/Cargo.toml",
        r#"[package]
name = "test-crate"
version = "3.2.1"
"#,
    )];

    let version = TomlParser::get_current_version("/project", &files).unwrap();
    assert_eq!(version, Version::parse("3.2.1").unwrap());
}

#[test]
fn test_toml_multiple_files() {
    let entries = vec![
        "/project/crates/sub-crate/Cargo.toml".to_string(),
        "/project/Cargo.toml".to_string(),
    ];
    let found = TomlParser::get_matching_files("/project", &entries);
    assert_eq!(found, vec!["/project/Cargo.toml", "/project/crates/sub-crate/Cargo.toml"]);

    let files = vec![
        file(
            "/project/Cargo.toml",
            r#"[package]
name = "root"
version = "1.0.0"
"#,
        ),
        file(
            "/project/crates/sub-crate/Cargo.toml",
            r#"[package]
name = "sub-crate"
version = "1.0.0"
"#,
        ),
    ];

    let new_version = Version::parse("2.0.0").unwrap();
    let updated = TomlParser::update_version(&files, &new_version);

    assert_eq!(updated.len(), 2);
    assert!(updated[0].content.contains(r#"version = "2.0.0""#));
    assert!(updated[1].content.contains(r#"version = "2.0.0""#));
}

#[test]
fn test_package_json_update_version() {
    let files = vec![file(
        "/project/package.json",
        r#"{
  "name": "test-package",
  "version": "1.0.0",
  "description": "A test"
}"#,
    )];

    let new_version = Version::parse("2.0.0").unwrap();
    let updated = PackageJsonParser::update_version(&files, &new_version);

    assert_eq!(updated.len(), 1);
    assert!(updated[0].content.contains(r#""version": "2.0.0""#));
}

#[test]
fn test_package_json_increment_version() {
    let files = vec![file(
        "/project/package.json",
        r#"{
  "name": "test",
  "version": "0.1.0"
}"#,
    )];

    let updated = PackageJsonParser::increment_version("/project", &files).unwrap();
    assert!(updated[0].content.contains(r#""version": "0.1.1""#));
}

#[test]
fn test_package_json_get_current_version() {
    let files = vec![file(
        "/project/package.json",
        r#"{
  "name": "test",
  "version": "5.4.3"
}"#,
    )];

    let version = PackageJsonParser::get_current_version("/project", &files).unwrap();
    assert_eq!(version, Version::parse("5.4.3").unwrap());
}

#[test]
fn test_tauri_config_update_version() {
    let files = vec![file(
        "/project/tauri.conf.json",
        r#"{
  "productName": "My App",
  "version": "1.0.0",
  "identifier": "com.example.app"
}"#,
    )];

    let new_version = Version::parse("2.0.0").unwrap();
    let updated = TauriConfigParser::update_version(&files, &new_version);

    assert_eq!(updated.len(), 1);
    assert!(updated[0].content.contains(r#""version": "2.0.0""#));
}

#[test]
fn test_tauri_config_strips_prerelease() {
    let files = vec![file(
        "/project/tauri.conf.json",
        r#"{
  "version": "1.0.0"
}"#,
    )];

    let new_version = Version::parse("2.0.0-beta.1").unwrap();
    let updated = TauriConfigParser::update_version(&files, &new_version);

    assert!(updated[0].content.contains(r#""version": "2.0.0""#));
    assert!(!updated[0].content.contains("beta"));
    assert_eq!(
        updated[0].content,
        r#"{
  "version": "2.0.0"
}"#
    );
}

#[test]
fn test_no_matching_files_returns_error() {
    let entries: Vec<String> = vec!["/project/README.md".to_string()];
    let found = TomlParser::get_matching_files("/project", &entries);
    assert!(found.is_empty());

    let files: Vec<ProjectFile> = Vec::new();
    let result = TomlParser::get_current_version("/project", &files);
    assert!(result.is_err());
    assert_eq!(result, Err(ParsingError::NoVersionFound { root: "/project".to_string() }));
}

#[test]
fn test_no_version_in_file_returns_error() {
    let files = vec![file(
        "/project/Cargo.toml",
        r#"[package]
name = "test-crate"
edition = "2021"
"#,
    )];

    let result = TomlParser::get_current_version("/project", &files);
    assert!(result.is_err());
    assert_eq!(result, Err(ParsingError::NoVersionFound { root: "/project".to_string() }));
}

#[test]
fn test_preserves_file_structure() {
    let before = r#"[package]
name = "test-crate"
version = "1.0.0"
edition = "2021"
description = "A test crate"

[dependencies]
serde = "1.0"
"#;
    let files = vec![file("/project/Cargo.toml", before)];

    let new_version = Version::parse("2.0.0").unwrap();
    let updated = TomlParser::update_version(&files, &new_version);
    let content = &updated[0].content;

    assert!(content.contains(r#"name = "test-crate""#));
    assert!(content.contains(r#"edition = "2021""#));
    assert!(content.contains(r#"description = "A test crate""#));
    assert!(content.contains(r#"serde = "1.0""#));
    assert_eq!(content, &before.replace("1.0.0", "2.0.0"));
}

#[test]
fn test_version_with_prerelease() {
    let files = vec![file(
        "/project/Cargo.toml",
        r#"[package]
name = "test"
version = "1.0.0-alpha.1"
"#,
    )];

    let version = TomlParser::get_current_version("/project", &files).unwrap();
    assert_eq!(version.major, 1);
    assert_eq!(version.minor, 0);
    assert_eq!(version.patch, 0);
    assert!(!version.pre.is_empty());
}

#[test]
fn test_toml_no_double_quote_after_version() {
    let files = vec![file(
        "/project/Cargo.toml",
        r#"[package]
name = "test"
version = "1.0.0"
edition = "2024"
"#,
    )];

    let new_version = Version::parse("2.0.0").unwrap();
    let updated = TomlParser::update_version(&files, &new_version);
    let content = &updated[0].content;

    assert!(
        !content.contains(r#"version = "2.0.0""#) || !content.contains(r#"version = "2.0.0"""#),
        "Double quote detected in output: {}",
        content
    );
    assert!(
        content.contains("version = \"2.0.0\"\n") || content.contains("version = \"2.0.0\"\r\n"),
        "Version line not properly terminated: {}",
        content
    );
}

#[test]
fn test_package_json_no_double_quote_after_version() {
    let files = vec![file(
        "/project/package.json",
        r#"{
  "name": "test",
  "version": "1.0.0"
}"#,
    )];

    let new_version = Version::parse("2.0.0").unwrap();
    let updated = PackageJsonParser::update_version(&files, &new_version);
    let content = &updated[0].content;

    assert!(
        !content.contains(r#""version": "2.0.0"""#),
        "Double quote detected in output: {}",
        content
    );
}

#[test]
fn test_increment_prerelease_with_numeric_suffix() {
    let files = vec![file(
        "/project/Cargo.toml",
        r#"[package]
name = "test"
version = "0.0.1-alpha.0"
"#,
    )];

    let updated = TomlParser::increment_version("/project", &files).unwrap();
    let content = &updated[0].content;
    assert!(
        content.contains(r#"version = "0.0.1-alpha.1""#),
        "Expected 0.0.1-alpha.1, got: {}",
        content
    );
}

#[test]
fn test_increment_prerelease_without_numeric_suffix() {
    let files = vec![file(
        "/project/Cargo.toml",
        r#"[package]
name = "test"
version = "0.0.1-alpha"
"#,
    )];

    let updated = TomlParser::increment_version("/project", &files).unwrap();
    let content = &updated[0].content;
    assert!(
        content.contains(r#"version = "0.0.2-alpha""#),
        "Expected 0.0.2-alpha, got: {}",
        content
    );
}

#[test]
fn test_increment_prerelease_beta_numeric() {
    let files = vec![file(
        "/project/Cargo.toml",
        r#"[package]
name = "test"
version = "1.0.0-beta.5"
"#,
    )];

    let updated = TomlParser::increment_version("/project", &files).unwrap();
    let content = &updated[0].content;
    assert!(
        content.contains(r#"version = "1.0.0-beta.6""#),
        "Expected 1.0.0-beta.6, got: {}",
        content
    );
}
