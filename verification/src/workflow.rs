//! One run over a project: which version is written and into which formats.

use crate::arguments::SupportedTypes;
use crate::parsers::package_json_parser::PackageJsonParser;
use crate::parsers::tauri_config_parser::TauriConfigParser;
use crate::parsers::toml_parser::TomlParser;
use crate::parsers::{first_version_text, rewritten_files, Parser, ParsingError, ProjectFile};
use crate::version::{semver_parse, MalformedVersion, Version, VersionView};
use vstd::prelude::*;

verus! {

impl SupportedTypes {
    /// Whether a run for these types works on Cargo manifests.
    pub open spec fn has_toml(self) -> bool {
        self == SupportedTypes::All || self == SupportedTypes::TOML
    }

    /// Whether a run for these types works on `package.json` files.
    pub open spec fn has_package_json(self) -> bool {
        self == SupportedTypes::All || self == SupportedTypes::PackageJSON
    }

    /// Whether a run for these types works on `tauri.conf.json` files.
    pub open spec fn has_tauri_config(self) -> bool {
        self == SupportedTypes::All || self == SupportedTypes::TauriConfig
    }

    /// Whether a run for these types works on Cargo manifests.
    pub fn includes_toml(self) -> (b: bool)
        ensures
            b == self.has_toml(),
    {
        match self {
            SupportedTypes::All | SupportedTypes::TOML => true,
            _ => false,
        }
    }

    /// Whether a run for these types works on `package.json` files.
    pub fn includes_package_json(self) -> (b: bool)
        ensures
            b == self.has_package_json(),
    {
        match self {
            SupportedTypes::All | SupportedTypes::PackageJSON => true,
            _ => false,
        }
    }

    /// Whether a run for these types works on `tauri.conf.json` files.
    pub fn includes_tauri_config(self) -> (b: bool)
        ensures
            b == self.has_tauri_config(),
    {
        match self {
            SupportedTypes::All | SupportedTypes::TauriConfig => true,
            _ => false,
        }
    }
}

/// The version that the caller asked for, if any.
pub fn requested_version(new_version: Option<&str>) -> (r: Result<
    Option<Version>,
    MalformedVersion,
>)
    ensures
        match new_version {
            None => r matches Ok(None),
            Some(text) => match semver_parse(text@) {
                Some(version) => r matches Ok(Some(v)) && v@ == version,
                None => r matches Err(e) && e.input@ == text@,
            },
        },
{
    match new_version {
        None => Ok(None),
        Some(text) => match Version::parse(text) {
            Ok(v) => Ok(Some(v)),
            Err(e) => Err(e),
        },
    }
}

/// Writes a version into the files of one format: `version` where one is
/// given, the next version after the current one where none is.
pub fn apply_version<P: Parser>(root: &str, files: &Vec<ProjectFile>, version: Option<&Version>)
    -> (r: Result<Vec<ProjectFile>, ParsingError>)
    ensures
        match version {
            Some(given) => r matches Ok(out) && rewritten_files(
                P::line_shape(),
                P::version_token(given@),
                files@,
                out@,
            ) && (given@.is_plain() && first_version_text(P::line_shape(), files@, 0) is Some
                ==> first_version_text(P::line_shape(), out@, 0) == Some(
                P::version_token(given@),
            )),
            None => match first_version_text(P::line_shape(), files@, 0) {
                None => r matches Err(ParsingError::NoVersionFound { root: searched })
                    && searched@ == root@,
                Some(found) => match semver_parse(found) {
                    None => r matches Err(ParsingError::MalformedVersion { text })
                        && text@ == found,
                    Some(current) => if current.has_next() {
                        r matches Ok(out) && rewritten_files(
                            P::line_shape(),
                            P::version_token(current.next()),
                            files@,
                            out@,
                        ) && first_version_text(P::line_shape(), out@, 0) == Some(
                            P::version_token(current.next()),
                        )
                    } else {
                        r matches Err(ParsingError::VersionOutOfRange { text })
                            && text@ == current.text()
                    },
                },
            },
        },
{
    match version {
        Some(given) => Ok(P::update_version(files, given)),
        None => P::increment_version(root, files),
    }
}

/// The version that the first file with a version line holds, if it is a
/// semantic version.
pub open spec fn readable_version<P: Parser>(files: Seq<ProjectFile>) -> Option<VersionView> {
    match first_version_text(P::line_shape(), files, 0) {
        Some(found) => semver_parse(found),
        None => None,
    }
}

/// Whether `error` says why no version can be read from `files`: that no file
/// has a version line, or that the first version line holds no semantic
/// version.
pub open spec fn explains_unreadable<P: Parser>(
    root: Seq<char>,
    files: Seq<ProjectFile>,
    error: ParsingError,
) -> bool {
    match first_version_text(P::line_shape(), files, 0) {
        None => error matches ParsingError::NoVersionFound { root: searched } && searched@
            == root,
        Some(found) => error matches ParsingError::MalformedVersion { text } && text@ == found,
    }
}

/// The version that a run for `types` takes for the current one. For
/// `PackageJSON` and `TauriConfig` it is read from the files of that format.
/// For `All` and `TOML` it is read from the Cargo manifests, from the
/// `package.json` files where those give none, and from the `tauri.conf.json`
/// files where those give none either.
pub open spec fn current_version(
    types: SupportedTypes,
    toml: Seq<ProjectFile>,
    package_json: Seq<ProjectFile>,
    tauri: Seq<ProjectFile>,
) -> Option<VersionView> {
    match types {
        SupportedTypes::PackageJSON => readable_version::<PackageJsonParser>(package_json),
        SupportedTypes::TauriConfig => readable_version::<TauriConfigParser>(tauri),
        _ => if readable_version::<TomlParser>(toml) is Some {
            readable_version::<TomlParser>(toml)
        } else if readable_version::<PackageJsonParser>(package_json) is Some {
            readable_version::<PackageJsonParser>(package_json)
        } else {
            readable_version::<TauriConfigParser>(tauri)
        },
    }
}

/// The version that a run without a given version writes: the next one after
/// the current version of the project. Each argument holds the files of one
/// format in discovery order. Where no current version can be read, the error
/// is that of the format that was asked last.
pub fn get_next_version(
    root: &str,
    types: SupportedTypes,
    toml: &Vec<ProjectFile>,
    package_json: &Vec<ProjectFile>,
    tauri: &Vec<ProjectFile>,
) -> (r: Result<Version, ParsingError>)
    ensures
        match current_version(types, toml@, package_json@, tauri@) {
            Some(current) => if current.has_next() {
                r matches Ok(v) && v@ == current.next()
            } else {
                r matches Err(ParsingError::VersionOutOfRange { text }) && text@
                    == current.text()
            },
            None => r matches Err(error) && match types {
                SupportedTypes::PackageJSON => explains_unreadable::<PackageJsonParser>(
                    root@,
                    package_json@,
                    error,
                ),
                _ => explains_unreadable::<TauriConfigParser>(root@, tauri@, error),
            },
        },
{
    let current = match types {
        SupportedTypes::PackageJSON => PackageJsonParser::get_current_version(root, package_json),
        SupportedTypes::TauriConfig => TauriConfigParser::get_current_version(root, tauri),
        _ => match TomlParser::get_current_version(root, toml) {
            Ok(v) => Ok(v),
            Err(_) => match PackageJsonParser::get_current_version(root, package_json) {
                Ok(v) => Ok(v),
                Err(_) => TauriConfigParser::get_current_version(root, tauri),
            },
        },
    };
    match current {
        Ok(v) => {
            if v.can_increment() {
                Ok(v.increment())
            } else {
                Err(ParsingError::VersionOutOfRange { text: v.to_string() })
            }
        },
        Err(e) => Err(e),
    }
}

} // verus!
