//! The release: what is done in git once the version files are rewritten.
//!
//! A release moves through a fixed sequence of states. From each state the
//! mode decides the next step; whoever drives the release performs that step
//! on the repository and reports how it went, and the report decides the next
//! state. Nothing here touches a repository.

use crate::arguments::GitMode;
use crate::parsers::discovery::{ends_with_file_name, names_file, texts};
use crate::parsers::grammar::{has_at, starts_with_at};
use crate::text::{chars_of, push_range, same_text};
use vstd::prelude::*;
use vstd::string::StringExecFns;

verus! {

/// How far a release has come.
#[derive(Debug, Copy, Clone, PartialEq, Eq, Structural)]
pub enum ReleaseState {
    /// Nothing is done yet.
    Idle,
    /// The modified files are in the index.
    Staged,
    /// The index differs from the last commit: there is something to commit.
    Changed,
    /// The index equals the last commit: the release ends without a commit.
    Unchanged,
    /// The commit exists.
    Committed,
    /// The commit carries the tag.
    Tagged,
    /// The branch is on the remote.
    Pushed,
    /// The tag is on the remote, too.
    TagPushed,
    /// A step failed; the steps after it are not taken, and what was done
    /// before it stays done.
    Failed,
}

/// What a step does.
#[derive(Debug, Copy, Clone, PartialEq, Eq, Structural)]
pub enum StepKind {
    /// Add the modified files to the index.
    Stage,
    /// Find out whether anything is pending.
    CheckChanges,
    /// Commit the index.
    Commit,
    /// Tag the new commit.
    Tag,
    /// Push the current branch.
    PushBranch,
    /// Push the tag.
    PushTag,
}

/// How a step went.
#[derive(Debug, Copy, Clone, PartialEq, Eq, Structural)]
pub enum StepResult {
    /// The step was taken. For the change check: changes are pending.
    Done,
    /// The change check found nothing pending.
    NothingPending,
    /// The step failed.
    Failed,
}

impl GitMode {
    /// Whether a release in this mode commits.
    pub open spec fn commits(self) -> bool {
        self != GitMode::Skip
    }

    /// Whether a release in this mode tags the commit.
    pub open spec fn tags(self) -> bool {
        self == GitMode::CommitPushTag || self == GitMode::CommitTag
    }

    /// Whether a release in this mode pushes.
    pub open spec fn pushes(self) -> bool {
        self == GitMode::CommitPush || self == GitMode::CommitPushTag
    }

    /// Whether a release in this mode tags the commit.
    pub fn should_tag(self) -> (b: bool)
        ensures
            b == self.tags(),
    {
        match self {
            GitMode::CommitPushTag | GitMode::CommitTag => true,
            _ => false,
        }
    }

    /// Whether a release in this mode pushes.
    pub fn should_push(self) -> (b: bool)
        ensures
            b == self.pushes(),
    {
        match self {
            GitMode::CommitPush | GitMode::CommitPushTag => true,
            _ => false,
        }
    }
}

/// The step that a release in `mode` takes from `state`; `None` where the
/// release is over.
pub open spec fn step_from(mode: GitMode, state: ReleaseState) -> Option<StepKind> {
    match state {
        ReleaseState::Idle => if mode.commits() {
            Some(StepKind::Stage)
        } else {
            None
        },
        ReleaseState::Staged => Some(StepKind::CheckChanges),
        ReleaseState::Changed => Some(StepKind::Commit),
        ReleaseState::Unchanged => None,
        ReleaseState::Committed => if mode.tags() {
            Some(StepKind::Tag)
        } else if mode.pushes() {
            Some(StepKind::PushBranch)
        } else {
            None
        },
        ReleaseState::Tagged => if mode.pushes() {
            Some(StepKind::PushBranch)
        } else {
            None
        },
        ReleaseState::Pushed => if mode.tags() {
            Some(StepKind::PushTag)
        } else {
            None
        },
        ReleaseState::TagPushed => None,
        ReleaseState::Failed => None,
    }
}

/// The state that a step leads to when it is taken.
pub open spec fn state_after(step: StepKind) -> ReleaseState {
    match step {
        StepKind::Stage => ReleaseState::Staged,
        StepKind::CheckChanges => ReleaseState::Changed,
        StepKind::Commit => ReleaseState::Committed,
        StepKind::Tag => ReleaseState::Tagged,
        StepKind::PushBranch => ReleaseState::Pushed,
        StepKind::PushTag => ReleaseState::TagPushed,
    }
}

/// The state that follows `state` once the step taken from it has gone as
/// `result` says. A failure ends the release in `Failed`. A change check
/// that finds nothing pending ends it in `Unchanged`; of any other step,
/// `NothingPending` says no more than `Done`. Where the release is over, the
/// state stays.
pub open spec fn state_following(mode: GitMode, state: ReleaseState, result: StepResult)
    -> ReleaseState {
    match step_from(mode, state) {
        None => state,
        Some(step) => match result {
            StepResult::Failed => ReleaseState::Failed,
            StepResult::NothingPending => if step == StepKind::CheckChanges {
                ReleaseState::Unchanged
            } else {
                state_after(step)
            },
            StepResult::Done => state_after(step),
        },
    }
}

/// The step to take from `state`, or `None` where the release is over.
pub fn next_step(mode: GitMode, state: ReleaseState) -> (step: Option<StepKind>)
    ensures
        step == step_from(mode, state),
{
    match state {
        ReleaseState::Idle => match mode {
            GitMode::Skip => None,
            _ => Some(StepKind::Stage),
        },
        ReleaseState::Staged => Some(StepKind::CheckChanges),
        ReleaseState::Changed => Some(StepKind::Commit),
        ReleaseState::Committed => if mode.should_tag() {
            Some(StepKind::Tag)
        } else if mode.should_push() {
            Some(StepKind::PushBranch)
        } else {
            None
        },
        ReleaseState::Tagged => if mode.should_push() {
            Some(StepKind::PushBranch)
        } else {
            None
        },
        ReleaseState::Pushed => if mode.should_tag() {
            Some(StepKind::PushTag)
        } else {
            None
        },
        _ => None,
    }
}

/// The state after the step from `state` has gone as `result` says.
pub fn advance(mode: GitMode, state: ReleaseState, result: StepResult) -> (next: ReleaseState)
    ensures
        next == state_following(mode, state, result),
{
    match next_step(mode, state) {
        None => state,
        Some(step) => match result {
            StepResult::Failed => ReleaseState::Failed,
            StepResult::NothingPending => match step {
                StepKind::CheckChanges => ReleaseState::Unchanged,
                _ => reached_by(step),
            },
            StepResult::Done => reached_by(step),
        },
    }
}

/// The state that a step leads to when it is taken.
pub fn reached_by(step: StepKind) -> (state: ReleaseState)
    ensures
        state == state_after(step),
{
    match step {
        StepKind::Stage => ReleaseState::Staged,
        StepKind::CheckChanges => ReleaseState::Changed,
        StepKind::Commit => ReleaseState::Committed,
        StepKind::Tag => ReleaseState::Tagged,
        StepKind::PushBranch => ReleaseState::Pushed,
        StepKind::PushTag => ReleaseState::TagPushed,
    }
}

/// How many steps a release may still take from `state`, at most.
pub open spec fn steps_left(state: ReleaseState) -> nat {
    match state {
        ReleaseState::Idle => 6,
        ReleaseState::Staged => 5,
        ReleaseState::Changed => 4,
        ReleaseState::Committed => 3,
        ReleaseState::Tagged => 2,
        ReleaseState::Pushed => 1,
        ReleaseState::TagPushed => 0,
        ReleaseState::Unchanged => 0,
        ReleaseState::Failed => 0,
    }
}

/// The steps of a release in `mode` that starts in `state` and in which no
/// step fails; `pending` says what the change check finds.
pub open spec fn steps_from(mode: GitMode, state: ReleaseState, pending: bool) -> Seq<StepKind>
    decreases steps_left(state),
{
    match step_from(mode, state) {
        None => Seq::empty(),
        Some(step) => {
            let result = if step == StepKind::CheckChanges && !pending {
                StepResult::NothingPending
            } else {
                StepResult::Done
            };
            seq![step] + steps_from(mode, state_following(mode, state, result), pending)
        },
    }
}

/// The steps of a whole release in which no step fails.
pub open spec fn release_steps(mode: GitMode, pending: bool) -> Seq<StepKind> {
    steps_from(mode, ReleaseState::Idle, pending)
}

/// How many of `steps` are commits.
pub open spec fn commit_count(steps: Seq<StepKind>) -> nat
    decreases steps.len(),
{
    if steps.len() == 0 {
        0
    } else {
        commit_count(steps.drop_last()) + if steps.last() == StepKind::Commit {
            1nat
        } else {
            0nat
        }
    }
}

/// The steps of a release, mode by mode. In mode `Skip` nothing is done.
/// Every other mode stages and checks for changes; with nothing pending the
/// release ends there. With changes pending it commits, then tags if the mode
/// says so, then pushes the branch if the mode says so, and the tag after the
/// branch if it both tags and pushes.
pub proof fn lemma_release_steps(mode: GitMode, pending: bool)
    ensures
        release_steps(mode, pending) == if !mode.commits() {
            Seq::<StepKind>::empty()
        } else if !pending {
            seq![StepKind::Stage, StepKind::CheckChanges]
        } else {
            match mode {
                GitMode::CommitTag => seq![
                    StepKind::Stage,
                    StepKind::CheckChanges,
                    StepKind::Commit,
                    StepKind::Tag,
                ],
                GitMode::CommitPush => seq![
                    StepKind::Stage,
                    StepKind::CheckChanges,
                    StepKind::Commit,
                    StepKind::PushBranch,
                ],
                GitMode::CommitPushTag => seq![
                    StepKind::Stage,
                    StepKind::CheckChanges,
                    StepKind::Commit,
                    StepKind::Tag,
                    StepKind::PushBranch,
                    StepKind::PushTag,
                ],
                _ => seq![StepKind::Stage, StepKind::CheckChanges, StepKind::Commit],
            }
        },
{
    reveal_with_fuel(steps_from, 8);
    assert(release_steps(mode, pending) =~= if !mode.commits() {
        Seq::<StepKind>::empty()
    } else if !pending {
        seq![StepKind::Stage, StepKind::CheckChanges]
    } else {
        match mode {
            GitMode::CommitTag => seq![
                StepKind::Stage,
                StepKind::CheckChanges,
                StepKind::Commit,
                StepKind::Tag,
            ],
            GitMode::CommitPush => seq![
                StepKind::Stage,
                StepKind::CheckChanges,
                StepKind::Commit,
                StepKind::PushBranch,
            ],
            GitMode::CommitPushTag => seq![
                StepKind::Stage,
                StepKind::CheckChanges,
                StepKind::Commit,
                StepKind::Tag,
                StepKind::PushBranch,
                StepKind::PushTag,
            ],
            _ => seq![StepKind::Stage, StepKind::CheckChanges, StepKind::Commit],
        }
    });
}

/// A release that finds changes pending commits exactly once (in any mode
/// but `Skip`), and a release that finds nothing pending does not commit.
/// So of two releases in a row over the same files, where the second finds
/// the tree as the first one's commit left it, only the first one commits.
pub proof fn lemma_release_is_idempotent(mode: GitMode)
    requires
        mode.commits(),
    ensures
        commit_count(release_steps(mode, true)) == 1,
        commit_count(release_steps(mode, false)) == 0,
        commit_count(release_steps(mode, true)) + commit_count(release_steps(mode, false)) == 1,
{
    lemma_release_steps(mode, true);
    lemma_release_steps(mode, false);
    reveal_with_fuel(commit_count, 8);
    let with_changes = release_steps(mode, true);
    let without = release_steps(mode, false);
    assert(without.drop_last() =~= seq![StepKind::Stage]);
    assert(without.drop_last().drop_last() =~= Seq::<StepKind>::empty());
    let head = seq![StepKind::Stage, StepKind::CheckChanges, StepKind::Commit];
    assert(head.drop_last() =~= without);
    assert(commit_count(head) == 1);
    match mode {
        GitMode::CommitTag => {
            assert(with_changes.drop_last() =~= head);
        },
        GitMode::CommitPush => {
            assert(with_changes.drop_last() =~= head);
        },
        GitMode::CommitPushTag => {
            let four = seq![
                StepKind::Stage,
                StepKind::CheckChanges,
                StepKind::Commit,
                StepKind::Tag,
            ];
            let five = four.push(StepKind::PushBranch);
            assert(four.drop_last() =~= head);
            assert(five.drop_last() =~= four);
            assert(with_changes.drop_last() =~= five);
        },
        _ => {
            assert(with_changes =~= head);
        },
    }
}

/// No step but staging and the change check is taken before the commit
/// exists: a mode that tags or pushes always commits first.
pub proof fn lemma_tag_and_push_follow_commit(mode: GitMode, state: ReleaseState)
    ensures
        mode.tags() || mode.pushes() ==> mode.commits(),
        step_from(mode, state) == Some(StepKind::Tag) ==> state == ReleaseState::Committed,
        step_from(mode, state) == Some(StepKind::PushBranch) ==> state == ReleaseState::Committed
            || state == ReleaseState::Tagged,
        step_from(mode, state) == Some(StepKind::PushTag) ==> state == ReleaseState::Pushed,
        step_from(mode, state) == Some(StepKind::Commit) ==> state == ReleaseState::Changed,
{
}

/// A failed step ends the release: from `Failed` no step is taken, whatever
/// the mode, and the state stays `Failed`.
pub proof fn lemma_failure_is_final(mode: GitMode, state: ReleaseState, result: StepResult)
    ensures
        step_from(mode, state) is Some ==> state_following(mode, state, StepResult::Failed)
            == ReleaseState::Failed,
        step_from(mode, ReleaseState::Failed) is None,
        state_following(mode, ReleaseState::Failed, result) == ReleaseState::Failed,
{
}

/// The remote that a release pushes to.
pub fn remote_name() -> (name: &'static str)
    ensures
        name@ == "origin"@,
{
    "origin"
}

/// The message of the commit that bumps to `version`.
pub fn commit_message(version: &str) -> (message: String)
    ensures
        message@ == "chore: bump version to "@ + version@,
{
    let mut message = String::from_str("chore: bump version to ");
    message.append(version);
    message
}

/// The name of the tag for `version`.
pub fn tag_name(version: &str) -> (name: String)
    ensures
        name@ == "v"@ + version@,
{
    let mut name = String::from_str("v");
    name.append(version);
    name
}

/// The message of the annotated tag named `tag`.
pub fn tag_message(tag: &str) -> (message: String)
    ensures
        message@ == "Release "@ + tag@,
{
    let mut message = String::from_str("Release ");
    message.append(tag);
    message
}

/// The refspec that pushes `branch` to the branch of the same name.
pub fn branch_refspec(branch: &str) -> (refspec: String)
    ensures
        refspec@ == "refs/heads/"@ + branch@ + ":refs/heads/"@ + branch@,
{
    let mut refspec = String::from_str("refs/heads/");
    refspec.append(branch);
    refspec.append(":refs/heads/");
    refspec.append(branch);
    refspec
}

/// The refspec that pushes the tag named `tag`.
pub fn tag_refspec(tag: &str) -> (refspec: String)
    ensures
        refspec@ == "refs/tags/"@ + tag@ + ":refs/tags/"@ + tag@,
{
    let mut refspec = String::from_str("refs/tags/");
    refspec.append(tag);
    refspec.append(":refs/tags/");
    refspec.append(tag);
    refspec
}

/// The refspec that fetches every tag.
pub fn fetch_tags_refspec() -> (refspec: &'static str)
    ensures
        refspec@ == "refs/tags/*:refs/tags/*"@,
{
    "refs/tags/*:refs/tags/*"
}

/// What the full name of a tag reference begins with.
pub open spec fn tag_prefix() -> Seq<char> {
    "refs/tags/"@
}

/// `reference` without the tag prefix at its start, as often as it stands there.
pub open spec fn short_name(reference: Seq<char>) -> Seq<char>
    decreases reference.len(),
{
    if tag_prefix().len() > 0 && has_at(reference, 0, tag_prefix()) {
        short_name(reference.skip(tag_prefix().len() as int))
    } else {
        reference
    }
}

/// The short name of a tag, given the name of its reference:
/// `refs/tags/v1.0.0` gives `v1.0.0`.
pub fn short_tag_name(reference: &str) -> (name: String)
    ensures
        name@ == short_name(reference@),
{
    let chars = chars_of(reference);
    let prefix = chars_of("refs/tags/");
    let mut from: usize = 0;
    proof {
        assert(chars@.skip(0) =~= chars@);
    }
    while prefix.len() > 0 && starts_with_at(&chars, from, &prefix)
        invariant
            from <= chars.len(),
            prefix@ == tag_prefix(),
            short_name(chars@.skip(from as int)) == short_name(chars@),
        decreases chars.len() - from,
    {
        proof {
            let rest = chars@.skip(from as int);
            assert(rest.subrange(0, prefix.len() as int) =~= chars@.subrange(
                from as int,
                from + prefix.len(),
            ));
            assert(rest.skip(prefix.len() as int) =~= chars@.skip(from + prefix.len()));
        }
        from += prefix.len();
    }
    proof {
        let rest = chars@.skip(from as int);
        if prefix.len() > 0 && from + prefix.len() <= chars.len() {
            assert(rest.subrange(0, prefix.len() as int) =~= chars@.subrange(
                from as int,
                from + prefix.len(),
            ));
        }
        assert(rest =~= chars@.subrange(from as int, chars.len() as int));
    }
    let mut name = String::new();
    push_range(&mut name, &chars, from, chars.len());
    name
}

/// The short names of the tags whose references are given, in the same order.
pub fn get_tags(references: &Vec<String>) -> (tags: Vec<String>)
    ensures
        tags.len() == references.len(),
        forall|i: int| 0 <= i < tags.len() ==> (#[trigger] tags[i])@ == short_name(references[i]@),
{
    let mut tags: Vec<String> = Vec::new();
    let mut i: usize = 0;
    while i < references.len()
        invariant
            i <= references.len(),
            tags.len() == i,
            forall|k: int| 0 <= k < i ==> (#[trigger] tags[k])@ == short_name(references[k]@),
        decreases references.len() - i,
    {
        tags.push(short_tag_name(references[i].as_str()));
        i += 1;
    }
    tags
}

/// Whether a tag named `name` is among `tags`. A tag is never moved: where
/// this holds, the release does not create the tag again.
pub fn tag_exists(tags: &Vec<String>, name: &str) -> (exists: bool)
    ensures
        exists == texts(tags@).contains(name@),
{
    let mut i: usize = 0;
    while i < tags.len()
        invariant
            i <= tags.len(),
            forall|k: int| 0 <= k < i ==> texts(tags@)[k] != name@,
        decreases tags.len() - i,
    {
        if same_text(tags[i].as_str(), name) {
            proof {
                assert(texts(tags@)[i as int] == name@);
            }
            return true;
        }
        i += 1;
    }
    false
}

/// The lock file that belongs to a Cargo manifest: `Cargo.lock` in the same
/// directory. `None` for a path that does not name a Cargo manifest.
pub open spec fn lock_file_of(path: Seq<char>) -> Option<Seq<char>> {
    if names_file(path, "Cargo.toml"@) {
        Some(path.take(path.len() - "Cargo.toml"@.len()) + "Cargo.lock"@)
    } else {
        None
    }
}

/// Where the lock file of a staged manifest lies, so that it can be staged
/// with it once it has been refreshed.
pub fn lock_file_beside(path: &str) -> (lock: Option<String>)
    ensures
        match lock_file_of(path@) {
            Some(l) => lock matches Some(s) && s@ == l,
            None => lock is None,
        },
{
    let chars = chars_of(path);
    let name = chars_of("Cargo.toml");
    if ends_with_file_name(&chars, &name) {
        let mut lock = String::new();
        push_range(&mut lock, &chars, 0, chars.len() - name.len());
        lock.append("Cargo.lock");
        proof {
            assert(chars@.subrange(0, chars.len() - name.len()) =~= chars@.take(
                chars.len() - name.len(),
            ));
        }
        Some(lock)
    } else {
        None
    }
}

/// What staging does with one of the modified files.
#[derive(Debug, PartialEq, Eq)]
pub struct Staging {
    /// Whether the file goes into the index.
    pub stage: bool,
    /// The lock file to refresh and, if it exists afterwards, to stage with
    /// the file. Failing to refresh or to stage it does not fail the release.
    pub lock_file: Option<String>,
}

/// Decides what staging does with the modified file at `path`. A file that
/// the repository ignores is passed over, which is no error. Any other file
/// is staged, a Cargo manifest together with its lock file.
pub fn staging_of(path: &str, ignored: bool) -> (staging: Staging)
    ensures
        staging.stage == !ignored,
        match staging.lock_file {
            Some(lock) => !ignored && lock_file_of(path@) == Some(lock@),
            None => ignored || lock_file_of(path@) is None,
        },
{
    if ignored {
        Staging { stage: false, lock_file: None }
    } else {
        Staging { stage: true, lock_file: lock_file_beside(path) }
    }
}

/// Why a step on the repository failed, as far as the release tells causes
/// apart.
#[derive(Debug, Copy, Clone, PartialEq, Eq, Structural)]
pub enum FailureCause {
    /// The repository has no user name or no e-mail address configured.
    MissingIdentity,
    /// A tag of that name exists.
    TagExists,
    /// The repository knows no remote of that name.
    MissingRemote,
    /// The remote turned down every credential that was offered.
    AuthenticationExhausted,
    /// Anything else.
    Other,
}

/// Why a release failed.
#[derive(Debug, PartialEq, Eq)]
pub enum ReleaseError {
    /// No repository at `path` or above it.
    RepositoryNotFound { path: String },
    /// The repository has no identity to commit or tag with.
    NoIdentityConfigured,
    /// The repository has no remote named `remote`.
    RemoteNotFound { remote: String },
    /// The tag named `tag` exists already.
    DuplicateTag { tag: String },
    /// No credential was accepted by `remote`.
    AuthenticationExhausted { remote: String },
    /// Talking to `remote` failed.
    NetworkFailure { remote: String },
    /// A step on the local repository failed.
    StepFailed { step: StepKind },
}

/// Whether `step` talks to the remote.
pub open spec fn is_push(step: StepKind) -> bool {
    step == StepKind::PushBranch || step == StepKind::PushTag
}

/// The error of a release for `version` whose step `step` failed for `cause`.
pub fn release_error(step: StepKind, cause: FailureCause, version: &str) -> (error: ReleaseError)
    ensures
        match cause {
            FailureCause::MissingIdentity => error == ReleaseError::NoIdentityConfigured,
            FailureCause::TagExists => error matches ReleaseError::DuplicateTag { tag } && tag@
                == "v"@ + version@,
            FailureCause::MissingRemote => error matches ReleaseError::RemoteNotFound { remote }
                && remote@ == "origin"@,
            FailureCause::AuthenticationExhausted => error matches
                ReleaseError::AuthenticationExhausted { remote } && remote@ == "origin"@,
            FailureCause::Other => if is_push(step) {
                error matches ReleaseError::NetworkFailure { remote } && remote@ == "origin"@
            } else {
                error == (ReleaseError::StepFailed { step })
            },
        },
{
    match cause {
        FailureCause::MissingIdentity => ReleaseError::NoIdentityConfigured,
        FailureCause::TagExists => ReleaseError::DuplicateTag { tag: tag_name(version) },
        FailureCause::MissingRemote => ReleaseError::RemoteNotFound {
            remote: remote_name().to_owned(),
        },
        FailureCause::AuthenticationExhausted => ReleaseError::AuthenticationExhausted {
            remote: remote_name().to_owned(),
        },
        FailureCause::Other => match step {
            StepKind::PushBranch | StepKind::PushTag => ReleaseError::NetworkFailure {
                remote: remote_name().to_owned(),
            },
            _ => ReleaseError::StepFailed { step },
        },
    }
}

} // verus!
