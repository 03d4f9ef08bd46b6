//! Tauri application configuration.

use crate::parsers::grammar::{
    is_space, lemma_line_is_read, lemma_line_is_rewritten, LineShape, LineShapeView,
};
use crate::parsers::package_json_parser::PackageJsonParser;
use crate::parsers::Parser;
use crate::text::{chars_of, is_digit, lemma_decimal_round_trip};
use crate::version::{lemma_plain_text_has_no_quote, Version, VersionView};
use vstd::prelude::*;
use vstd::string::StringExecFns;

verus! {

/// The format of `tauri.conf.json`: the version line is that of
/// `package.json`, but the format has no prerelease and no build metadata, so
/// only `major.minor.patch` is written.
pub struct TauriConfigParser;

impl Parser for TauriConfigParser {
    open spec fn file_name() -> Seq<char> {
        "tauri.conf.json"@
    }

    open spec fn line_shape() -> LineShapeView {
        PackageJsonParser::line_shape()
    }

    open spec fn version_token(version: VersionView) -> Seq<char> {
        version.core_text()
    }

    open spec fn version_line(version: VersionView) -> Seq<char> {
        "\"version\": \""@ + version.core_text() + "\""@
    }

    proof fn lemma_line_shape() {
        reveal_strlit("\"version\"");
    }

    proof fn lemma_version_token(version: VersionView) {
        lemma_plain_text_has_no_quote(version);
    }

    fn target_file_name() -> (name: Vec<char>) {
        chars_of("tauri.conf.json")
    }

    fn version_line_shape() -> (shape: LineShape) {
        PackageJsonParser::version_line_shape()
    }

    fn version_value_format(version: &Version) -> (token: String) {
        version.core_string()
    }

    fn version_line_format(version: &Version) -> (line: String) {
        let mut line = String::from_str("\"version\": \"");
        line.append(version.core_string().as_str());
        line.append("\"");
        line
    }
}

/// The version line of a `tauri.conf.json` is the key `"version"`, a colon,
/// a space, and `major.minor.patch` between double quotes.
pub proof fn lemma_tauri_config_line(version: VersionView)
    ensures
        TauriConfigParser::line_shape().well_formed(),
        TauriConfigParser::version_line(version) == TauriConfigParser::line_shape().line(
            Seq::empty(),
            seq![' '],
            version.core_text(),
        ),
{
    reveal_strlit("\"version\"");
    reveal_strlit("\"version\": \"");
    reveal_strlit("\"");
    assert(TauriConfigParser::version_line(version) =~= TauriConfigParser::line_shape().line(
        Seq::empty(),
        seq![' '],
        version.core_text(),
    ));
}

/// What is written into a `tauri.conf.json` holds digits and dots only:
/// nothing of the prerelease or of the build metadata gets there.
pub proof fn lemma_tauri_config_token(version: VersionView)
    ensures
        forall|i: int|
            0 <= i < TauriConfigParser::version_token(version).len() ==> {
                let c = #[trigger] TauriConfigParser::version_token(version)[i];
                is_digit(c) || c == '.'
            },
{
    lemma_decimal_round_trip(version.major);
    lemma_decimal_round_trip(version.minor);
    lemma_decimal_round_trip(version.patch);
}

/// The line that is written for a version is read back as its
/// `major.minor.patch`, and writing another version into it gives the line
/// of that other version, with one quote on each side of it.
pub proof fn lemma_tauri_config_round_trip(old_version: VersionView, new_version: VersionView)
    ensures
        TauriConfigParser::line_shape().version_text(
            TauriConfigParser::version_line(old_version),
        ) == Some(old_version.core_text()),
        TauriConfigParser::line_shape().rewritten(
            TauriConfigParser::version_line(old_version),
            TauriConfigParser::version_token(new_version),
        ) == TauriConfigParser::version_line(new_version),
{
    lemma_tauri_config_line(old_version);
    lemma_tauri_config_line(new_version);
    lemma_tauri_config_token(old_version);
    let written = old_version.core_text();
    assert forall|i: int| 0 <= i < written.len() implies written[i] != '"' by {
        let c = TauriConfigParser::version_token(old_version)[i];
        assert(is_digit(c) || c == '.');
    }
    let space = seq![' '];
    assert(is_space(space[0]));
    lemma_line_is_read(
        TauriConfigParser::line_shape(),
        Seq::empty(),
        space,
        old_version.core_text(),
    );
    lemma_line_is_rewritten(
        TauriConfigParser::line_shape(),
        Seq::empty(),
        space,
        old_version.core_text(),
        new_version.core_text(),
    );
}

} // verus!
