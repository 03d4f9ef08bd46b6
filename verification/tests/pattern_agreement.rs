//! The version lines and file names of the three formats can also be written
//! down as regular expressions. These tests hold the library's scanners
//! against those expressions, run by the `regex` crate.

use regex::Regex;
use update_version::parsers::package_json_parser::PackageJsonParser;
use update_version::parsers::tauri_config_parser::TauriConfigParser;
use update_version::parsers::toml_parser::TomlParser;
use update_version::parsers::Parser;

const CONTENTS: [&str; 30] = [
    "",
    "\n",
    "version",
    "version = \"1.2.3\"",
    "version = \"1.2.3\"\n",
    "version=\"1.2.3\"",
    "version  =\t\"1.2.3\"",
    "version\n=\n\"1.2.3\"",
    "version\u{a0}=\u{2003}\"1.2.3\"",
    " version = \"1.2.3\"",
    "\tversion = \"1.2.3\"",
    "[package]\nname = \"x\"\nversion = \"0.1.0\"\nedition = \"2021\"\n",
    "[package]\r\nname = \"x\"\r\nversion = \"0.1.0\"\r\n",
    "name = \"x\"\rversion = \"0.1.0\"\r",
    "rust-version = \"1.70\"\nversion = \"2.0.0\"",
    "version = \"1.0.0\nname = \"x\"\n",
    "version = \"unterminated",
    "version = 1\nversion = \"3\"",
    "version == \"1\"",
    "versions = \"1\"",
    "version = \"\"",
    "version = 'a'\nversion = \"b\"",
    "[dependencies]\nserde = { version = \"1.0\" }\n\n[package]\nversion = \"0.3.0\"\n",
    "{\n  \"name\": \"x\",\n  \"version\": \"1.0.0\"\n}",
    "{\n\t\"version\"\t:\t\"1.0.0\",\n\t\"x\": 1\n}",
    "{ \"version\": \"1.0.0\" }",
    "\"version\":\"1.0.0\"",
    "\n\n   \n  \"version\": \"4.5.6-rc.1+b\"\n",
    "{\n  \"version\" :\n\"version\": \"x\"\n}",
    "{\n  \"version\": \"1.0.0\",\n  \"dependencies\": {\n    \"version\": \"9\"\n  }\n}",
];

const PATHS: [&str; 22] = [
    "",
    "/",
    "Cargo.toml",
    "/Cargo.toml",
    "./Cargo.toml",
    "\\Cargo.toml",
    "C:\\work\\Cargo.toml",
    "/p/cargo.toml",
    "/p/CARGO.TOML",
    "/p/Cargo.toml.bak",
    "/p/Cargo.toml/",
    "/p/xCargo.toml",
    "/p/Cargo_toml",
    "/p/package.json",
    "/p/Package.Json",
    "/p/package-lock.json",
    "/p/my-package.json",
    "/p/src-tauri/tauri.conf.json",
    "/p/TAURI.CONF.JSON",
    "/p/tauri.json",
    "/p/tauri.conf.json5",
    "/p/tauri-conf.json",
];

fn captured(pattern: &str, content: &str) -> Option<String> {
    let expression = Regex::new(pattern).unwrap();
    expression
        .captures(content)
        .and_then(|found| found.get(1))
        .map(|group| group.as_str().to_string())
}

fn replaced(pattern: &str, content: &str, value: &str) -> String {
    let expression = Regex::new(pattern).unwrap();
    match expression.captures(content).and_then(|found| found.get(1)) {
        Some(group) => {
            let mut out = String::new();
            out.push_str(&content[..group.start()]);
            out.push_str(value);
            out.push_str(&content[group.end()..]);
            out
        }
        None => content.to_string(),
    }
}

const TOML_LINE: &str = r#"(?m)^version\s*=\s*"([^"]*)""#;
const JSON_LINE: &str = r#"(?m)^\s*"version"\s*:\s*"([^"]*)""#;

#[test]
fn toml_version_lines_agree_with_the_pattern() {
    for content in CONTENTS {
        assert_eq!(
            TomlParser::find_version_text(content),
            captured(TOML_LINE, content),
            "in {:?}",
            content
        );
    }
}

#[test]
fn json_version_lines_agree_with_the_pattern() {
    for content in CONTENTS {
        assert_eq!(
            PackageJsonParser::find_version_text(content),
            captured(JSON_LINE, content),
            "in {:?}",
            content
        );
        assert_eq!(
            TauriConfigParser::find_version_text(content),
            captured(JSON_LINE, content),
            "in {:?}",
            content
        );
    }
}

#[test]
fn rewriting_replaces_what_the_pattern_captures() {
    let version = update_version::version::Version::parse("7.8.9-rc.1").unwrap();
    for content in CONTENTS {
        assert_eq!(
            TomlParser::rewrite(content, &version),
            replaced(TOML_LINE, content, "7.8.9-rc.1"),
            "in {:?}",
            content
        );
        assert_eq!(
            PackageJsonParser::rewrite(content, &version),
            replaced(JSON_LINE, content, "7.8.9-rc.1"),
            "in {:?}",
            content
        );
        assert_eq!(
            TauriConfigParser::rewrite(content, &version),
            replaced(JSON_LINE, content, "7.8.9"),
            "in {:?}",
            content
        );
    }
}

#[test]
fn file_names_agree_with_the_patterns() {
    let toml = Regex::new(r#"(?i)[/\\]Cargo\.toml$"#).unwrap();
    let package_json = Regex::new(r#"(?i)[/\\]package\.json$"#).unwrap();
    let tauri = Regex::new(r#"(?i)[/\\]tauri\.conf\.json$"#).unwrap();
    for path in PATHS {
        assert_eq!(TomlParser::matches_filename(path), toml.is_match(path), "for {:?}", path);
        assert_eq!(
            PackageJsonParser::matches_filename(path),
            package_json.is_match(path),
            "for {:?}",
            path
        );
        assert_eq!(
            TauriConfigParser::matches_filename(path),
            tauri.is_match(path),
            "for {:?}",
            path
        );
    }
}
