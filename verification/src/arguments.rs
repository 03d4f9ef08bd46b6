//! What the caller asks for: which formats, which version, how far to go with git.

use crate::parsers::WalkOptions;
use vstd::prelude::*;

verus! {

/// The file formats to work on.
#[derive(Debug, Copy, Clone, PartialEq, Eq, PartialOrd, Ord, Structural)]
pub enum SupportedTypes {
    All,
    TOML,
    PackageJSON,
    TauriConfig,
}

impl Default for SupportedTypes {
    fn default() -> (types: SupportedTypes)
        ensures
            types == SupportedTypes::All,
    {
        SupportedTypes::All
    }
}

/// How far a release goes once the files are rewritten.
#[derive(Debug, Copy, Clone, PartialEq, Eq, PartialOrd, Ord, Structural)]
pub enum GitMode {
    /// Leave git alone.
    Skip,
    Commit,
    CommitPush,
    CommitPushTag,
    CommitTag,
}

impl Default for GitMode {
    fn default() -> (mode: GitMode)
        ensures
            mode == GitMode::Skip,
    {
        GitMode::Skip
    }
}

/// The arguments of one run.
#[derive(Debug)]
pub struct Arguments {
    pub supported_types: SupportedTypes,
    pub git_mode: GitMode,
    /// The directory to work in.
    pub path: String,
    pub verbose: bool,
    /// Accept any certificate that the remote presents.
    pub insecure: bool,
    /// Walk files that ignore files exclude, too.
    pub no_ignore: bool,
    /// The version to write; the next version after the current one if absent.
    pub new_version: Option<String>,
}

impl Arguments {
    /// How these arguments have the directory tree walked.
    pub fn walk_options(&self) -> (options: WalkOptions)
        ensures
            options.no_ignore == self.no_ignore,
    {
        WalkOptions { no_ignore: self.no_ignore }
    }
}

} // verus!
