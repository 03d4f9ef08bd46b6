use update_version::parsers::package_json_parser::PackageJsonParser;
use update_version::parsers::tauri_config_parser::TauriConfigParser;
use update_version::parsers::toml_parser::TomlParser;
use update_version::parsers::{project_ignore_file_name, Parser, WalkOptions};

fn entries(paths: &[&str]) -> Vec<String> {
    paths.iter().map(|p| p.to_string()).collect()
}

#[test]
fn matching_files_come_out_by_depth_then_by_path() {
    let walked = entries(&[
        "/p/z/Cargo.toml",
        "/p/a/b/Cargo.toml",
        "/p/Cargo.toml",
        "/p/src/main.rs",
        "/p/a/Cargo.toml",
        "/p/a/a/Cargo.toml",
    ]);
    let found = TomlParser::get_matching_files("/p", &walked);
    assert_eq!(
        found,
        vec![
            "/p/Cargo.toml",
            "/p/a/Cargo.toml",
            "/p/z/Cargo.toml",
            "/p/a/a/Cargo.toml",
            "/p/a/b/Cargo.toml",
        ]
    );
}

#[test]
fn matching_files_do_not_depend_on_the_order_of_the_walk() {
    let one = entries(&["/p/b/package.json", "/p/package.json", "/p/a/package.json"]);
    let other = entries(&["/p/a/package.json", "/p/b/package.json", "/p/package.json"]);
    assert_eq!(
        PackageJsonParser::get_matching_files("/p", &one),
        PackageJsonParser::get_matching_files("/p", &other)
    );
}

#[test]
fn depth_counts_components_not_characters() {
    let walked = entries(&["/p/aaaaaaaaaaaaaaaa/Cargo.toml", "/p/b/c/Cargo.toml"]);
    let found = TomlParser::get_matching_files("/p", &walked);
    assert_eq!(found, vec!["/p/aaaaaaaaaaaaaaaa/Cargo.toml", "/p/b/c/Cargo.toml"]);
}

#[test]
fn an_entry_listed_twice_comes_out_twice() {
    let walked = entries(&["/p/Cargo.toml", "/p/Cargo.toml"]);
    assert_eq!(TomlParser::get_matching_files("/p", &walked).len(), 2);
}

#[test]
fn hidden_directories_below_the_root_are_left_out() {
    let walked = entries(&[
        "/p/.git/Cargo.toml",
        "/p/sub/.cache/deep/Cargo.toml",
        "/p/sub/Cargo.toml",
        "/p/./Cargo.toml",
        "/p/sub/../Cargo.toml",
    ]);
    let found = TomlParser::get_matching_files("/p", &walked);
    assert_eq!(found, vec!["/p/./Cargo.toml", "/p/sub/Cargo.toml", "/p/sub/../Cargo.toml"]);
}

#[test]
fn a_hidden_root_hides_nothing() {
    let walked = entries(&["/tmp/.tmpAbCdEf/Cargo.toml", "/tmp/.tmpAbCdEf/.git/Cargo.toml"]);
    let found = TomlParser::get_matching_files("/tmp/.tmpAbCdEf", &walked);
    assert_eq!(found, vec!["/tmp/.tmpAbCdEf/Cargo.toml"]);
}

#[test]
fn each_format_has_its_file_name() {
    assert!(TomlParser::matches_filename("/p/Cargo.toml"));
    assert!(TomlParser::matches_filename("C:\\p\\cargo.TOML"));
    assert!(!TomlParser::matches_filename("/p/Cargo.toml.orig"));
    assert!(!TomlParser::matches_filename("/p/xCargo.toml"));
    assert!(!TomlParser::matches_filename("Cargo.toml"));
    assert!(!TomlParser::matches_filename(""));
    assert!(PackageJsonParser::matches_filename("./package.json"));
    assert!(!PackageJsonParser::matches_filename("./package-lock.json"));
    assert!(!PackageJsonParser::matches_filename("./tauri.conf.json"));
    assert!(TauriConfigParser::matches_filename("./src-tauri/tauri.conf.json"));
    assert!(!TauriConfigParser::matches_filename("./package.json"));
}

#[test]
fn the_walk_always_skips_hidden_directories() {
    let default = WalkOptions::default().plan();
    assert!(default.skip_hidden);
    assert!(default.standard_ignore_files);
    assert!(default.project_ignore_file);

    let everything = WalkOptions { no_ignore: true }.plan();
    assert!(everything.skip_hidden);
    assert!(!everything.standard_ignore_files);
    assert!(!everything.project_ignore_file);

    assert_eq!(project_ignore_file_name(), ".uvignore");
}
