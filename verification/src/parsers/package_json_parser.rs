//! Node package manifests.

use crate::parsers::grammar::{
    is_space, lemma_line_is_read, lemma_line_is_rewritten, LineShape, LineShapeView,
};
use crate::parsers::Parser;
use crate::text::{chars_of, has_quote};
use crate::version::{lemma_plain_text_has_no_quote, Version, VersionView};
use vstd::prelude::*;
use vstd::string::StringExecFns;

verus! {

/// The format of `package.json`: the version stands in a line
/// `"version": "1.2.3"`, indented or not.
pub struct PackageJsonParser;

impl Parser for PackageJsonParser {
    open spec fn file_name() -> Seq<char> {
        "package.json"@
    }

    open spec fn line_shape() -> LineShapeView {
        LineShapeView { key: "\"version\""@, separator: ':', indented: true }
    }

    open spec fn version_token(version: VersionView) -> Seq<char> {
        version.text()
    }

    open spec fn version_line(version: VersionView) -> Seq<char> {
        "\"version\": \""@ + version.text() + "\""@
    }

    proof fn lemma_line_shape() {
        reveal_strlit("\"version\"");
    }

    proof fn lemma_version_token(version: VersionView) {
        lemma_plain_text_has_no_quote(version);
    }

    fn target_file_name() -> (name: Vec<char>) {
        chars_of("package.json")
    }

    fn version_line_shape() -> (shape: LineShape) {
        LineShape { key: chars_of("\"version\""), separator: ':', indented: true }
    }

    fn version_value_format(version: &Version) -> (token: String) {
        version.to_string()
    }

    fn version_line_format(version: &Version) -> (line: String) {
        let mut line = String::from_str("\"version\": \"");
        line.append(version.to_string().as_str());
        line.append("\"");
        line
    }
}

/// The version line of a `package.json` is the key `"version"`, a colon, a
/// space, and the version between double quotes.
pub proof fn lemma_package_json_line(version: VersionView)
    ensures
        PackageJsonParser::line_shape().well_formed(),
        PackageJsonParser::version_line(version) == PackageJsonParser::line_shape().line(
            Seq::empty(),
            seq![' '],
            version.text(),
        ),
{
    reveal_strlit("\"version\"");
    reveal_strlit("\"version\": \"");
    reveal_strlit("\"");
    assert(PackageJsonParser::version_line(version) =~= PackageJsonParser::line_shape().line(
        Seq::empty(),
        seq![' '],
        version.text(),
    ));
}

/// The line that is written for a version is read back as that version, and
/// writing another version into it gives the line of that other version,
/// with one quote on each side of it: provided that the text of the first
/// version holds no double quote.
pub proof fn lemma_package_json_round_trip(old_version: VersionView, new_version: VersionView)
    requires
        !has_quote(old_version.text()),
    ensures
        PackageJsonParser::line_shape().version_text(
            PackageJsonParser::version_line(old_version),
        ) == Some(old_version.text()),
        PackageJsonParser::line_shape().rewritten(
            PackageJsonParser::version_line(old_version),
            PackageJsonParser::version_token(new_version),
        ) == PackageJsonParser::version_line(new_version),
{
    lemma_package_json_line(old_version);
    lemma_package_json_line(new_version);
    let space = seq![' '];
    assert(is_space(space[0]));
    lemma_line_is_read(
        PackageJsonParser::line_shape(),
        Seq::empty(),
        space,
        old_version.text(),
    );
    lemma_line_is_rewritten(
        PackageJsonParser::line_shape(),
        Seq::empty(),
        space,
        old_version.text(),
        new_version.text(),
    );
}

} // verus!
