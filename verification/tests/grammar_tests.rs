use update_version::parsers::package_json_parser::PackageJsonParser;
use update_version::parsers::tauri_config_parser::TauriConfigParser;
use update_version::parsers::toml_parser::TomlParser;
use update_version::parsers::{Parser, ParsingError, ProjectFile};
use update_version::version::Version;

fn file(path: &str, content: &str) -> ProjectFile {
    ProjectFile { path: path.to_string(), content: content.to_string() }
}

#[test]
fn toml_version_line_must_begin_the_line() {
    assert_eq!(TomlParser::find_version_text("version = \"1.2.3\"\n"), Some("1.2.3".to_string()));
    assert_eq!(TomlParser::find_version_text("version=\"1.2.3\""), Some("1.2.3".to_string()));
    assert_eq!(TomlParser::find_version_text("version\t=\t\"1.2.3\""), Some("1.2.3".to_string()));
    assert_eq!(TomlParser::find_version_text("  version = \"1.2.3\"\n"), None);
    assert_eq!(TomlParser::find_version_text("rust-version = \"1.70\"\n"), None);
    assert_eq!(TomlParser::find_version_text("version = 1\n"), None);
    assert_eq!(TomlParser::find_version_text("version = \"1.2.3\n"), None);
    assert_eq!(TomlParser::find_version_text(""), None);
    assert_eq!(TomlParser::find_version_text("version = \"\""), Some(String::new()));
}

#[test]
fn toml_first_version_line_wins() {
    let content = "[package]\nversion = \"1.0.0\"\n\n[dependencies.x]\nversion = \"9.9.9\"\n";
    assert_eq!(TomlParser::find_version_text(content), Some("1.0.0".to_string()));
    let updated = TomlParser::rewrite(content, &Version::parse("1.0.1").unwrap());
    assert_eq!(
        updated,
        "[package]\nversion = \"1.0.1\"\n\n[dependencies.x]\nversion = \"9.9.9\"\n"
    );
}

#[test]
fn toml_inline_dependency_versions_are_not_version_lines() {
    let content = "[dependencies]\nserde = { version = \"1.0\" }\n[package]\nversion = \"0.3.0\"\n";
    assert_eq!(TomlParser::locate_version(content), Some((64, 69)));
    assert_eq!(TomlParser::find_version_text(content), Some("0.3.0".to_string()));
}

#[test]
fn locate_counts_in_characters() {
    let content = "# é\nversion = \"1.0.0\"\n";
    assert_eq!(TomlParser::locate_version(content), Some((15, 20)));
    assert_eq!(
        TomlParser::rewrite(content, &Version::parse("1.0.1").unwrap()),
        "# é\nversion = \"1.0.1\"\n"
    );
}

#[test]
fn json_version_line_may_be_indented() {
    assert_eq!(
        PackageJsonParser::find_version_text("{\n\t\"version\" : \"0.1.0\"\n}"),
        Some("0.1.0".to_string())
    );
    assert_eq!(
        PackageJsonParser::find_version_text("\"version\":\"0.1.0\""),
        Some("0.1.0".to_string())
    );
    assert_eq!(PackageJsonParser::find_version_text("{ \"version\": \"0.1.0\" }"), None);
    assert_eq!(PackageJsonParser::find_version_text("{\n  \"versions\": \"0.1.0\"\n}"), None);
    assert_eq!(PackageJsonParser::find_version_text("{\n  \"version\": 1\n}"), None);
}

#[test]
fn rewrite_keeps_spacing_and_everything_else() {
    let content = "{\n    \"name\": \"x\",\n    \"version\"  :   \"1.0.0\",\n    \"private\": true\n}\n";
    let out = PackageJsonParser::rewrite(content, &Version::parse("1.1.0-rc.1").unwrap());
    assert_eq!(
        out,
        "{\n    \"name\": \"x\",\n    \"version\"  :   \"1.1.0-rc.1\",\n    \"private\": true\n}\n"
    );
}

#[test]
fn rewrite_without_version_line_changes_nothing() {
    let content = "[workspace]\nmembers = [\"a\", \"b\"]\n";
    assert_eq!(TomlParser::rewrite(content, &Version::new(2, 0, 0)), content);
    let updated = TomlParser::update_version(
        &vec![file("/p/Cargo.toml", content)],
        &Version::new(2, 0, 0),
    );
    assert_eq!(updated, vec![file("/p/Cargo.toml", content)]);
}

#[test]
fn writing_a_version_and_reading_it_back() {
    let content = "[package]\nname = \"x\"\nversion = \"1.0.0\"\n";
    let target = Version::parse("2.0.0-rc.1+b7").unwrap();
    let out = TomlParser::rewrite(content, &target);
    assert_eq!(TomlParser::find_version_text(&out), Some("2.0.0-rc.1+b7".to_string()));
    assert_eq!(out.matches('"').count(), content.matches('"').count());
}

#[test]
fn version_lines_as_each_format_writes_them() {
    let v = Version::parse("1.2.3-beta.1").unwrap();
    assert_eq!(TomlParser::version_line_format(&v), "version = \"1.2.3-beta.1\"");
    assert_eq!(PackageJsonParser::version_line_format(&v), "\"version\": \"1.2.3-beta.1\"");
    assert_eq!(TauriConfigParser::version_line_format(&v), "\"version\": \"1.2.3\"");
    assert_eq!(TomlParser::version_value_format(&v), "1.2.3-beta.1");
    assert_eq!(TauriConfigParser::version_value_format(&v), "1.2.3");
    assert_eq!(
        TomlParser::find_version_text(&TomlParser::version_line_format(&v)),
        Some("1.2.3-beta.1".to_string())
    );
    assert_eq!(
        TomlParser::rewrite("version = \"1.0.0\"", &Version::new(2, 0, 0)),
        TomlParser::version_line_format(&Version::new(2, 0, 0))
    );
}

#[test]
fn current_version_is_that_of_the_first_file_with_a_version_line() {
    let files = vec![
        file("/p/Cargo.toml", "[workspace]\n"),
        file("/p/a/Cargo.toml", "[package]\nversion = \"0.4.0\"\n"),
        file("/p/b/Cargo.toml", "[package]\nversion = \"7.0.0\"\n"),
    ];
    assert_eq!(TomlParser::get_current_version("/p", &files), Ok(Version::new(0, 4, 0)));
}

#[test]
fn current_version_that_is_no_version_is_an_error() {
    let files = vec![
        file("/p/Cargo.toml", "[package]\nversion = \"one\"\n"),
        file("/p/b/Cargo.toml", "[package]\nversion = \"7.0.0\"\n"),
    ];
    assert_eq!(
        TomlParser::get_current_version("/p", &files),
        Err(ParsingError::MalformedVersion { text: "one".to_string() })
    );
    assert_eq!(
        TomlParser::increment_version("/p", &files),
        Err(ParsingError::MalformedVersion { text: "one".to_string() })
    );
}

#[test]
fn increment_writes_the_next_version_into_every_file() {
    let files = vec![
        file("/p/Cargo.toml", "[package]\nversion = \"0.4.0\"\n"),
        file("/p/b/Cargo.toml", "[package]\nversion = \"7.0.0\"\n"),
        file("/p/c/Cargo.toml", "[workspace]\n"),
    ];
    let out = TomlParser::increment_version("/p", &files).unwrap();
    assert_eq!(
        out,
        vec![
            file("/p/Cargo.toml", "[package]\nversion = \"0.4.1\"\n"),
            file("/p/b/Cargo.toml", "[package]\nversion = \"0.4.1\"\n"),
            file("/p/c/Cargo.toml", "[workspace]\n"),
        ]
    );
}

#[test]
fn increment_at_the_largest_patch_number_is_an_error() {
    let files = vec![file("/p/Cargo.toml", "version = \"1.0.18446744073709551615\"\n")];
    assert_eq!(
        TomlParser::increment_version("/p", &files),
        Err(ParsingError::VersionOutOfRange { text: "1.0.18446744073709551615".to_string() })
    );
}

#[test]
fn increment_of_a_cargo_manifest_gives_one_rewritten_file() {
    let files = vec![file("/p/Cargo.toml", "version = \"1.2.3\"")];
    let out = TomlParser::increment_version("/p", &files).unwrap();
    assert_eq!(out.len(), 1);
    assert_eq!(out[0].content, "version = \"1.2.4\"");
}

#[test]
fn after_an_increment_the_next_version_is_the_current_one() {
    let files = vec![
        file("/p/Cargo.toml", "[workspace]\n"),
        file("/p/a/Cargo.toml", "[package]\nversion = \"0.4.0-rc.9+b1\"\n"),
    ];
    let current = TomlParser::get_current_version("/p", &files).unwrap();
    let out = TomlParser::increment_version("/p", &files).unwrap();
    assert_eq!(TomlParser::get_current_version("/p", &out), Ok(current.increment()));
    assert_eq!(
        TomlParser::get_current_version("/p", &out),
        Ok(Version::parse("0.4.0-rc.10").unwrap())
    );
}

#[test]
fn writing_the_same_version_twice_changes_nothing_more() {
    let files = vec![file("/p/package.json", "{\n  \"version\": \"1.0.0\"\n}")];
    let target = Version::parse("1.1.0").unwrap();
    let once = PackageJsonParser::update_version(&files, &target);
    let twice = PackageJsonParser::update_version(&once, &target);
    assert_eq!(once, twice);
}
