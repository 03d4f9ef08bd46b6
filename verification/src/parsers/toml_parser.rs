//! Cargo manifests.

use crate::parsers::grammar::{
    is_space, lemma_line_is_read, lemma_line_is_rewritten, LineShape, LineShapeView,
};
use crate::parsers::Parser;
use crate::text::{chars_of, has_quote};
use crate::version::{lemma_plain_text_has_no_quote, Version, VersionView};
use vstd::prelude::*;
use vstd::string::StringExecFns;

verus! {

/// The format of `Cargo.toml`: the version stands in a line
/// `version = "1.2.3"` that begins at the start of a line.
pub struct TomlParser;

impl Parser for TomlParser {
    open spec fn file_name() -> Seq<char> {
        "Cargo.toml"@
    }

    open spec fn line_shape() -> LineShapeView {
        LineShapeView { key: "version"@, separator: '=', indented: false }
    }

    open spec fn version_token(version: VersionView) -> Seq<char> {
        version.text()
    }

    open spec fn version_line(version: VersionView) -> Seq<char> {
        "version = \""@ + version.text() + "\""@
    }

    proof fn lemma_line_shape() {
        reveal_strlit("version");
    }

    proof fn lemma_version_token(version: VersionView) {
        lemma_plain_text_has_no_quote(version);
    }

    fn target_file_name() -> (name: Vec<char>) {
        chars_of("Cargo.toml")
    }

    fn version_line_shape() -> (shape: LineShape) {
        LineShape { key: chars_of("version"), separator: '=', indented: false }
    }

    fn version_value_format(version: &Version) -> (token: String) {
        version.to_string()
    }

    fn version_line_format(version: &Version) -> (line: String) {
        let mut line = String::from_str("version = \"");
        line.append(version.to_string().as_str());
        line.append("\"");
        line
    }
}

/// The version line of a Cargo manifest is the key `version`, a space, `=`,
/// a space, and the version between double quotes.
pub proof fn lemma_toml_line(version: VersionView)
    ensures
        TomlParser::line_shape().well_formed(),
        TomlParser::version_line(version) == TomlParser::line_shape().line(
            seq![' '],
            seq![' '],
            version.text(),
        ),
{
    reveal_strlit("version");
    reveal_strlit("version = \"");
    reveal_strlit("\"");
    assert(TomlParser::version_line(version) =~= TomlParser::line_shape().line(
        seq![' '],
        seq![' '],
        version.text(),
    ));
}

/// The line that is written for a version is read back as that version, and
/// writing another version into it gives the line of that other version,
/// with one quote on each side of it: provided that the text of the first
/// version holds no double quote.
pub proof fn lemma_toml_round_trip(old_version: VersionView, new_version: VersionView)
    requires
        !has_quote(old_version.text()),
    ensures
        TomlParser::line_shape().version_text(TomlParser::version_line(old_version)) == Some(
            old_version.text(),
        ),
        TomlParser::line_shape().rewritten(
            TomlParser::version_line(old_version),
            TomlParser::version_token(new_version),
        ) == TomlParser::version_line(new_version),
{
    lemma_toml_line(old_version);
    lemma_toml_line(new_version);
    let space = seq![' '];
    assert(is_space(space[0]));
    lemma_line_is_read(TomlParser::line_shape(), space, space, old_version.text());
    lemma_line_is_rewritten(
        TomlParser::line_shape(),
        space,
        space,
        old_version.text(),
        new_version.text(),
    );
}

} // verus!
