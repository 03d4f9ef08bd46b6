//! The supported file formats and what is done with the files of one format:
//! choosing them among the entries of a directory walk, reading the current
//! version, and writing a new one.

pub mod discovery;
pub mod grammar;
pub mod package_json_parser;
pub mod tauri_config_parser;
pub mod toml_parser;

use crate::parsers::discovery::{
    ends_with_file_name, in_discovery_order, names_file, select_files, selects, texts,
};
use crate::parsers::grammar::{lemma_rewritten_reads_back, splice, LineShape, LineShapeView};
use crate::text::{chars_of, has_quote, push_range, string_of};
use crate::version::{lemma_next_is_plain, semver_parse, Version, VersionView};
use vstd::prelude::*;

verus! {

/// How the directory tree is walked.
#[derive(Debug, Clone, Copy, PartialEq, Eq)]
pub struct WalkOptions {
    /// Walk files that ignore files exclude, too.
    pub no_ignore: bool,
}

impl Default for WalkOptions {
    fn default() -> (options: WalkOptions)
        ensures
            !options.no_ignore,
    {
        WalkOptions { no_ignore: false }
    }
}

/// What a directory walk has to do.
#[derive(Debug, Clone, Copy, PartialEq, Eq)]
pub struct WalkPlan {
    /// Stay out of hidden directories.
    pub skip_hidden: bool,
    /// Apply the ignore files of source control.
    pub standard_ignore_files: bool,
    /// Apply the project's own ignore file, see [`project_ignore_file_name`].
    pub project_ignore_file: bool,
}

impl WalkOptions {
    /// What a walk with these options has to do. Hidden directories are
    /// skipped whatever the options say; the options only switch the ignore
    /// files on or off.
    pub fn plan(&self) -> (plan: WalkPlan)
        ensures
            plan.skip_hidden,
            plan.standard_ignore_files == !self.no_ignore,
            plan.project_ignore_file == !self.no_ignore,
    {
        WalkPlan {
            skip_hidden: true,
            standard_ignore_files: !self.no_ignore,
            project_ignore_file: !self.no_ignore,
        }
    }
}

/// The name of the project's own ignore file.
pub fn project_ignore_file_name() -> (name: &'static str)
    ensures
        name@ == ".uvignore"@,
{
    ".uvignore"
}

/// A file of the project: its path and its whole text.
#[derive(Debug, PartialEq, Eq)]
pub struct ProjectFile {
    pub path: String,
    pub content: String,
}

/// Why no version could be read or written.
#[derive(Debug, PartialEq, Eq)]
pub enum ParsingError {
    /// None of the files holds a version line. `root` is the directory that
    /// was searched.
    NoVersionFound { root: String },
    /// The first version line holds a text that is no semantic version.
    MalformedVersion { text: String },
    /// The version after the current one has a patch number too large to hold.
    VersionOutOfRange { text: String },
}

/// The version text of the first file, from index `from` on, that has a
/// version line of the given shape.
pub open spec fn first_version_text(shape: LineShapeView, files: Seq<ProjectFile>, from: int)
    -> Option<Seq<char>>
    decreases files.len() - from,
{
    if from < 0 || from >= files.len() {
        None
    } else if shape.version_text(files[from].content@) is Some {
        shape.version_text(files[from].content@)
    } else {
        first_version_text(shape, files, from + 1)
    }
}

/// Whether `out` holds the files of `files`, in the same order and under the
/// same paths, each with `token` written into its first version line.
pub open spec fn rewritten_files(
    shape: LineShapeView,
    token: Seq<char>,
    files: Seq<ProjectFile>,
    out: Seq<ProjectFile>,
) -> bool {
    &&& out.len() == files.len()
    &&& forall|i: int|
        0 <= i < files.len() ==> {
            &&& (#[trigger] out[i]).path@ == files[i].path@
            &&& out[i].content@ == shape.rewritten(files[i].content@, token)
        }
}

/// After a version has been written into the files, it is the version that
/// is read from them: where one of `files` has a version line and `token`
/// holds no double quote, the first version text of the rewritten files is
/// `token`.
pub proof fn lemma_written_version_is_read(
    shape: LineShapeView,
    token: Seq<char>,
    files: Seq<ProjectFile>,
    out: Seq<ProjectFile>,
    from: int,
)
    requires
        shape.well_formed(),
        !has_quote(token),
        rewritten_files(shape, token, files, out),
        0 <= from,
        first_version_text(shape, files, from) is Some,
    ensures
        first_version_text(shape, out, from) == Some(token),
    decreases files.len() - from,
{
    let content = files[from].content@;
    assert(out[from].content@ == shape.rewritten(content, token));
    if shape.version_text(content) is Some {
        lemma_rewritten_reads_back(shape, content, token);
    } else {
        lemma_written_version_is_read(shape, token, files, out, from + 1);
    }
}

/// A file format that carries a version.
pub trait Parser: Sized {
    /// The name of the files of this format.
    spec fn file_name() -> Seq<char>;

    /// How the format writes its version line.
    spec fn line_shape() -> LineShapeView;

    /// What the format writes between the quotes for a version.
    spec fn version_token(version: VersionView) -> Seq<char>;

    /// The version line in the form in which the format usually writes it.
    spec fn version_line(version: VersionView) -> Seq<char>;

    /// The shape of the version line is well formed.
    proof fn lemma_line_shape()
        ensures
            Self::line_shape().well_formed(),
    ;

    /// What is written for a plain version holds no double quote, so that
    /// the quote after it is the first one.
    proof fn lemma_version_token(version: VersionView)
        requires
            version.is_plain(),
        ensures
            !has_quote(Self::version_token(version)),
    ;

    /// The name of the files of this format.
    fn target_file_name() -> (name: Vec<char>)
        ensures
            name@ == Self::file_name(),
    ;

    /// How the format writes its version line.
    fn version_line_shape() -> (shape: LineShape)
        ensures
            shape@ == Self::line_shape(),
    ;

    /// What the format writes between the quotes for `version`.
    fn version_value_format(version: &Version) -> (token: String)
        ensures
            token@ == Self::version_token(version@),
    ;

    /// The version line for `version` in the form in which the format
    /// usually writes it.
    fn version_line_format(version: &Version) -> (line: String)
        ensures
            line@ == Self::version_line(version@),
    ;

    /// Whether `path` names a file of this format.
    fn matches_filename(path: &str) -> (b: bool)
        ensures
            b == names_file(path@, Self::file_name()),
    {
        let name = Self::target_file_name();
        let chars = chars_of(path);
        ends_with_file_name(&chars, &name)
    }

    /// Chooses among the entries of a directory walk from `root` the files of
    /// this format, and puts them in discovery order: fewer components
    /// first, then lexicographically by the whole path. Entries in hidden
    /// directories below `root` are left out.
    fn get_matching_files(root: &str, entries: &Vec<String>) -> (files: Vec<String>)
        ensures
            in_discovery_order(texts(files@)),
            texts(files@).to_multiset() == texts(entries@).filter(
                |p: Seq<char>| selects(Self::file_name(), root@, p),
            ).to_multiset(),
    {
        let name = Self::target_file_name();
        let root_chars = chars_of(root);
        select_files(&name, &root_chars, entries)
    }

    /// Finds the version in `content`: the positions, counted in characters,
    /// of the first character of the version text and of the quote that
    /// closes it.
    fn locate_version(content: &str) -> (span: Option<(usize, usize)>)
        ensures
            match Self::line_shape().first_value(content@) {
                Some((start, end)) => span matches Some((s, e)) && s == start && e == end && 0
                    < start <= end < content@.len(),
                None => span is None,
            },
    {
        let chars = chars_of(content);
        Self::version_line_shape().first_value(&chars)
    }

    /// Reads the version text of `content`, as it stands between the quotes.
    fn find_version_text(content: &str) -> (text: Option<String>)
        ensures
            match Self::line_shape().version_text(content@) {
                Some(t) => text matches Some(s) && s@ == t,
                None => text is None,
            },
    {
        let chars = chars_of(content);
        match Self::version_line_shape().first_value(&chars) {
            Some((start, end)) => {
                let mut text = String::new();
                push_range(&mut text, &chars, start, end);
                proof {
                    assert(text@ =~= chars@.subrange(start as int, end as int));
                }
                Some(text)
            },
            None => None,
        }
    }

    /// Writes `version` into `content`, in place of the version that its
    /// first version line holds. Nothing else changes: every character
    /// before the version text and every character from its closing quote on
    /// is kept. A text without a version line comes back as it is.
    fn rewrite(content: &str, version: &Version) -> (out: String)
        ensures
            out@ == Self::line_shape().rewritten(content@, Self::version_token(version@)),
    {
        let chars = chars_of(content);
        match Self::version_line_shape().first_value(&chars) {
            Some((start, end)) => {
                let token = Self::version_value_format(version);
                let token_chars = chars_of(token.as_str());
                splice(&chars, start, end, &token_chars)
            },
            None => string_of(&chars),
        }
    }

    /// Reads the current version: that of the first of `files` that has a
    /// version line. `files` are the files of this format in discovery order,
    /// and `root` is the directory that they were found in.
    fn get_current_version(root: &str, files: &Vec<ProjectFile>) -> (r: Result<
        Version,
        ParsingError,
    >)
        ensures
            match first_version_text(Self::line_shape(), files@, 0) {
                None => r matches Err(ParsingError::NoVersionFound { root: searched })
                    && searched@ == root@,
                Some(found) => match semver_parse(found) {
                    None => r matches Err(ParsingError::MalformedVersion { text })
                        && text@ == found,
                    Some(version) => r matches Ok(v) && v@ == version && version.is_plain(),
                },
            },
    {
        let shape = Self::version_line_shape();
        let mut i: usize = 0;
        while i < files.len()
            invariant
                i <= files.len(),
                shape@ == Self::line_shape(),
                first_version_text(Self::line_shape(), files@, i as int) == first_version_text(
                    Self::line_shape(),
                    files@,
                    0,
                ),
            decreases files.len() - i,
        {
            let chars = chars_of(files[i].content.as_str());
            match shape.first_value(&chars) {
                Some((start, end)) => {
                    let mut text = String::new();
                    push_range(&mut text, &chars, start, end);
                    proof {
                        assert(text@ =~= chars@.subrange(start as int, end as int));
                    }
                    return match Version::parse(text.as_str()) {
                        Ok(v) => Ok(v),
                        Err(e) => Err(ParsingError::MalformedVersion { text: e.input }),
                    };
                },
                None => {},
            }
            i += 1;
        }
        Err(ParsingError::NoVersionFound { root: root.to_owned() })
    }

    /// Writes `version` into every one of `files`: each comes back under its
    /// path, in the same order, with the version text of its first version
    /// line replaced and nothing else changed. A file without a version line
    /// comes back with its content as it was. Where any of the files has a
    /// version line and `version` is plain, what was written is what
    /// [`Parser::get_current_version`] then finds.
    fn update_version(files: &Vec<ProjectFile>, version: &Version) -> (out: Vec<ProjectFile>)
        ensures
            rewritten_files(Self::line_shape(), Self::version_token(version@), files@, out@),
            version@.is_plain() && first_version_text(Self::line_shape(), files@, 0) is Some
                ==> first_version_text(Self::line_shape(), out@, 0) == Some(
                Self::version_token(version@),
            ),
    {
        let shape = Self::version_line_shape();
        let token = Self::version_value_format(version);
        let token_chars = chars_of(token.as_str());
        let mut out: Vec<ProjectFile> = Vec::new();
        let mut i: usize = 0;
        while i < files.len()
            invariant
                i <= files.len(),
                shape@ == Self::line_shape(),
                token_chars@ == Self::version_token(version@),
                rewritten_files(
                    Self::line_shape(),
                    Self::version_token(version@),
                    files@.take(i as int),
                    out@,
                ),
            decreases files.len() - i,
        {
            let chars = chars_of(files[i].content.as_str());
            let content = match shape.first_value(&chars) {
                Some((start, end)) => splice(&chars, start, end, &token_chars),
                None => string_of(&chars),
            };
            out.push(ProjectFile { path: files[i].path.clone(), content });
            i += 1;
        }
        proof {
            assert(files@.take(files.len() as int) =~= files@);
            if version@.is_plain() && first_version_text(Self::line_shape(), files@, 0) is Some {
                Self::lemma_line_shape();
                Self::lemma_version_token(version@);
                lemma_written_version_is_read(
                    Self::line_shape(),
                    Self::version_token(version@),
                    files@,
                    out@,
                    0,
                );
            }
        }
        out
    }

    /// Raises the version of `files`: reads the current version as
    /// [`Parser::get_current_version`] does, takes the next one after it and
    /// writes that into every file as [`Parser::update_version`] does. The
    /// version text that is then found in the files is that of the next
    /// version.
    fn increment_version(root: &str, files: &Vec<ProjectFile>) -> (r: Result<
        Vec<ProjectFile>,
        ParsingError,
    >)
        ensures
            match first_version_text(Self::line_shape(), files@, 0) {
                None => r matches Err(ParsingError::NoVersionFound { root: searched })
                    && searched@ == root@,
                Some(found) => match semver_parse(found) {
                    None => r matches Err(ParsingError::MalformedVersion { text })
                        && text@ == found,
                    Some(version) => if version.has_next() {
                        r matches Ok(out) && rewritten_files(
                            Self::line_shape(),
                            Self::version_token(version.next()),
                            files@,
                            out@,
                        ) && first_version_text(Self::line_shape(), out@, 0) == Some(
                            Self::version_token(version.next()),
                        )
                    } else {
                        r matches Err(ParsingError::VersionOutOfRange { text })
                            && text@ == version.text()
                    },
                },
            },
    {
        match Self::get_current_version(root, files) {
            Ok(current) => {
                if current.can_increment() {
                    let next = current.increment();
                    proof {
                        lemma_next_is_plain(current@);
                    }
                    Ok(Self::update_version(files, &next))
                } else {
                    Err(ParsingError::VersionOutOfRange { text: current.to_string() })
                }
            },
            Err(e) => Err(e),
        }
    }
}

} // verus!
