//! Resolved projects, the lock file, and the destination directory.

use crate::names::{collected, law_collected_of_increasing, NameTable};
use crate::paths::{path_with_extension, with_extension};
use crate::yaml::{
    error_text, has_shallow_nesting, is_shallow, read_mapping, write_mapping, yaml_document,
    yaml_mapping,
};
use vstd::prelude::*;
use vstd::string::StringExecFns;

verus! {

/// The identifier under which the hosting service knows a project.
#[derive(Clone, Copy, Debug, PartialEq, Eq, Structural)]
pub struct ProjectId(pub u64);

/// The identifier of a commit: an opaque text, compared letter by letter.
#[derive(Clone, Debug, PartialEq, Eq)]
pub struct CommitId(pub String);

impl View for CommitId {
    type V = Seq<char>;

    open spec fn view(&self) -> Seq<char> {
        self.0@
    }
}

/// A project together with the last commit of the branch that was asked for.
#[derive(Clone, Debug, PartialEq, Eq)]
pub struct ProjectBranch {
    pub project: ProjectId,
    pub name: String,
    pub commit: CommitId,
}

/// Why a project could not be resolved.
#[derive(Clone, Copy, Debug, PartialEq, Eq, Structural)]
pub enum ResolveError {
    /// The service knows no project of that name.
    ProjectNotFound,
    /// The project has no branch of that name.
    BranchNotFound,
    /// The branch has no commit.
    NoCommit,
}

impl ResolveError {
    /// The text of the error for the project and branch that it is about.
    pub open spec fn message_of(self, project: Seq<char>, branch: Seq<char>) -> Seq<char> {
        match self {
            ResolveError::ProjectNotFound => "Can't get project "@ + project,
            ResolveError::BranchNotFound => "Can't get branch "@ + branch + " of project "@
                + project,
            ResolveError::NoCommit => "No commit for project "@ + project,
        }
    }

    /// What the user is told.
    pub fn message(&self, project: &str, branch: &str) -> (r: String)
        ensures
            r@ == self.message_of(project@, branch@),
    {
        match self {
            ResolveError::ProjectNotFound => String::from_str("Can't get project ").concat(
                project,
            ),
            ResolveError::BranchNotFound => String::from_str("Can't get branch ").concat(
                branch,
            ).concat(" of project ").concat(project),
            ResolveError::NoCommit => String::from_str("No commit for project ").concat(project),
        }
    }
}

/// Puts together what the hosting service answered for one project.
///
/// `project` is the answer to the lookup by name: the project's identifier
/// and display name, or `None` where the lookup failed. `branch` is the answer
/// to the lookup of the branch, `None` where it failed or was not made, and
/// inside it the branch's last commit, `None` where the branch has none.
pub fn get_project(project: Option<(ProjectId, String)>, branch: Option<Option<CommitId>>) -> (r:
    Result<ProjectBranch, ResolveError>)
    ensures
        r == match (project, branch) {
            (None, _) => Err::<ProjectBranch, ResolveError>(ResolveError::ProjectNotFound),
            (Some(_), None) => Err(ResolveError::BranchNotFound),
            (Some(_), Some(None)) => Err(ResolveError::NoCommit),
            (Some(found), Some(Some(commit))) => Ok(
                (ProjectBranch { project: found.0, name: found.1, commit: commit }),
            ),
        },
{
    match project {
        None => Err(ResolveError::ProjectNotFound),
        Some(found) => match branch {
            None => Err(ResolveError::BranchNotFound),
            Some(None) => Err(ResolveError::NoCommit),
            Some(Some(commit)) => Ok(ProjectBranch { project: found.0, name: found.1, commit }),
        },
    }
}

/// A lock file that cannot be read or written as a mapping of names to
/// commits.
#[derive(Clone, Debug, PartialEq, Eq)]
pub enum ConfigError {
    /// The document is not a mapping from strings to strings.
    Unreadable(String),
    /// The mapping could not be written out.
    Unwritable(String),
}

impl ConfigError {
    /// What the YAML reader or writer said.
    pub fn detail(&self) -> (r: &String)
        ensures
            *r == match *self {
                ConfigError::Unreadable(text) => text,
                ConfigError::Unwritable(text) => text,
            },
    {
        match self {
            ConfigError::Unreadable(text) => text,
            ConfigError::Unwritable(text) => text,
        }
    }

    /// The text of the error for the file that it is about.
    pub open spec fn message_of(self, path: Seq<char>) -> Seq<char> {
        match self {
            ConfigError::Unreadable(_) => "Can't read "@ + path,
            ConfigError::Unwritable(_) => "Can't write "@ + path,
        }
    }

    /// What the user is told.
    pub fn message(&self, path: &str) -> (r: String)
        ensures
            r@ == self.message_of(path@),
    {
        match self {
            ConfigError::Unreadable(_) => String::from_str("Can't read ").concat(path),
            ConfigError::Unwritable(_) => String::from_str("Can't write ").concat(path),
        }
    }
}

/// The path of the lock file that belongs to a configuration file: the same
/// path with the extension `lock`.
pub fn lock_path(config: &str) -> (r: String)
    ensures
        r@ == path_with_extension(config@, "lock"@),
{
    proof {
        reveal_strlit("lock");
    }
    with_extension(config, "lock")
}

/// The mapping that a lock file's bytes stand for, or `None` where the file
/// is refused: because it is not shallow, or because the reader reports an
/// error.
pub open spec fn lock_of(document: Seq<u8>) -> Option<Map<Seq<char>, Seq<char>>> {
    if !is_shallow(document) {
        None
    } else {
        match yaml_mapping(document) {
            Some(entries) => Some(collected(entries)),
            None => None,
        }
    }
}

/// What is said of a lock file that is not shallow.
pub open spec fn deep_nesting_text() -> Seq<char> {
    "the lock file is nested too deep"@
}

/// The lock mapping that a lock file holds. `content` is the file's bytes, or
/// `None` where there is no such file: then the mapping is empty. A file
/// that is not shallow is refused unread: one with a carriage return that
/// no line feed follows, or with a line that begins with more than
/// `MAX_INDENT` bytes of indentation.
pub fn get_lock(content: Option<&[u8]>) -> (r: Result<NameTable, ConfigError>)
    ensures
        match content {
            None => r is Ok && r.unwrap().wf() && r.unwrap()@ == Map::<
                Seq<char>,
                Seq<char>,
            >::empty(),
            Some(document) => match lock_of(document@) {
                Some(mapping) => r is Ok && r.unwrap().wf() && r.unwrap()@ == mapping,
                None => r is Err && r.unwrap_err() is Unreadable,
            },
        },
        content is Some && !is_shallow(content.unwrap()@) ==> (r matches Err(
            ConfigError::Unreadable(text),
        ) && text@ == deep_nesting_text()),
{
    match content {
        None => Ok(NameTable::new()),
        Some(document) => {
            if !has_shallow_nesting(document) {
                return Err(
                    ConfigError::Unreadable(String::from_str("the lock file is nested too deep")),
                );
            }
            match read_mapping(document) {
                Ok(entries) => Ok(NameTable::from_entries(entries)),
                Err(error) => Err(ConfigError::Unreadable(error_text(&error))),
            }
        },
    }
}

/// Whether a run writes the lock file: in update mode always, otherwise only
/// while there is none. Once written, a lock file is frozen until an update.
pub open spec fn lock_is_due(update: bool, exists: bool) -> bool {
    update || !exists
}

/// What a run writes to the lock file at its end: the document for `commits`
/// where the file is due, `None` where it must be left as it is.
pub fn save_lock(update: bool, exists: bool, commits: &NameTable) -> (r: Result<
    Option<Vec<u8>>,
    ConfigError,
>)
    requires
        commits.wf(),
    ensures
        !lock_is_due(update, exists) ==> r == Ok::<Option<Vec<u8>>, ConfigError>(None),
        lock_is_due(update, exists) ==> match yaml_document(commits.pairs()) {
            Some(document) => r is Ok && r.unwrap() is Some && r.unwrap().unwrap()@ == document,
            None => r is Err && r.unwrap_err() is Unwritable,
        },
{
    if update || !exists {
        match write_mapping(commits.entries()) {
            Ok(document) => Ok(Some(document)),
            Err(error) => Err(ConfigError::Unwritable(error_text(&error))),
        }
    } else {
        Ok(None)
    }
}

/// A saved lock mapping loads back: where the document written for a table
/// is shallow, and the YAML reader gives back the pairs that the writer was
/// handed, the lock file stands for the table's own mapping.
pub proof fn law_saved_lock_loads_back(commits: NameTable, document: Seq<u8>)
    requires
        commits.wf(),
    ensures
        yaml_document(commits.pairs()) == Some(document) && is_shallow(document) && yaml_mapping(
            document,
        ) == Some(commits.pairs()) ==> lock_of(document) == Some(commits@),
{
    law_collected_of_increasing(commits.pairs());
}

/// Why the destination directory could not be made ready.
#[derive(Clone, Copy, Debug, PartialEq, Eq, Structural)]
pub enum WorkspaceError {
    /// The old directory could not be removed.
    CannotRemove,
    /// The directory could not be created.
    CannotCreate,
}

impl WorkspaceError {
    /// The text of the error for the directory that it is about.
    pub open spec fn message_of(self, dir: Seq<char>) -> Seq<char> {
        match self {
            WorkspaceError::CannotRemove => "Can't remove dir "@ + dir,
            WorkspaceError::CannotCreate => "Can't create dir "@ + dir,
        }
    }

    /// What the user is told.
    pub fn message(&self, dir: &str) -> (r: String)
        ensures
            r@ == self.message_of(dir@),
    {
        match self {
            WorkspaceError::CannotRemove => String::from_str("Can't remove dir ").concat(dir),
            WorkspaceError::CannotCreate => String::from_str("Can't create dir ").concat(dir),
        }
    }
}

/// How far the destination directory has come.
#[derive(Clone, Copy, Debug, PartialEq, Eq, Structural)]
pub enum DirState {
    /// Waiting to hear whether the directory exists; `cleaned` once the old
    /// one has been removed.
    Probing { cleaned: bool },
    /// Waiting for the removal of the old directory.
    Removing,
    /// Waiting for the creation of the directory.
    Creating,
    /// The directory stands.
    Ready,
    /// The run cannot go on.
    Failed(WorkspaceError),
}

/// What the caller found out or did.
#[derive(Clone, Copy, Debug, PartialEq, Eq, Structural)]
pub enum DirEvent {
    /// Whether the directory exists.
    Exists(bool),
    /// Whether removing the directory and all below it succeeded.
    Removed(bool),
    /// Whether creating the directory succeeded.
    Created(bool),
}

/// What the caller does next.
#[derive(Clone, Copy, Debug, PartialEq, Eq, Structural)]
pub enum DirAction {
    /// Test whether the directory exists.
    Probe,
    /// Remove the directory and all below it.
    Remove,
    /// Create the directory.
    Create,
    /// Nothing: the state is `Ready` or `Failed`.
    Stop,
}

/// What is asked of the caller while the directory is in `state`.
pub open spec fn dir_pending(state: DirState) -> DirAction {
    match state {
        DirState::Probing { .. } => DirAction::Probe,
        DirState::Removing => DirAction::Remove,
        DirState::Creating => DirAction::Create,
        DirState::Ready => DirAction::Stop,
        DirState::Failed(_) => DirAction::Stop,
    }
}

/// The state that follows `state` on `event`. An existing directory is
/// removed first unless `keep` or `update` is set; a directory that does not
/// exist is created. An event that the state does not wait for changes
/// nothing.
pub open spec fn dir_next(keep: bool, update: bool, state: DirState, event: DirEvent) -> DirState {
    match (state, event) {
        (DirState::Probing { cleaned }, DirEvent::Exists(exists)) => {
            if exists && !cleaned && !keep && !update {
                DirState::Removing
            } else if !exists {
                DirState::Creating
            } else {
                DirState::Ready
            }
        },
        (DirState::Removing, DirEvent::Removed(done)) => {
            if done {
                DirState::Probing { cleaned: true }
            } else {
                DirState::Failed(WorkspaceError::CannotRemove)
            }
        },
        (DirState::Creating, DirEvent::Created(done)) => {
            if done {
                DirState::Ready
            } else {
                DirState::Failed(WorkspaceError::CannotCreate)
            }
        },
        _ => state,
    }
}

/// The actions handed out, one for each event, from `state` on.
pub open spec fn dir_actions(keep: bool, update: bool, state: DirState, events: Seq<DirEvent>) -> Seq<
    DirAction,
>
    decreases events.len(),
{
    if events.len() == 0 {
        Seq::<DirAction>::empty()
    } else {
        let after = dir_next(keep, update, state, events[0]);
        seq![dir_pending(after)] + dir_actions(keep, update, after, events.drop_first())
    }
}

/// In keep mode and in update mode nothing is ever removed: whatever the
/// caller reports, no action from the start on is `Remove`.
pub proof fn law_kept_directory_is_never_removed(
    keep: bool,
    update: bool,
    state: DirState,
    events: Seq<DirEvent>,
)
    requires
        keep || update,
        state != DirState::Removing,
    ensures
        dir_actions(keep, update, state, events).len() == events.len(),
        forall|i: int|
            0 <= i < events.len() ==> #[trigger] dir_actions(keep, update, state, events)[i]
                != DirAction::Remove,
    decreases events.len(),
{
    if events.len() > 0 {
        let after = dir_next(keep, update, state, events[0]);
        law_kept_directory_is_never_removed(keep, update, after, events.drop_first());
    }
}

/// One step in making the destination directory ready. The caller starts in
/// `DirState::Probing { cleaned: false }` with `DirAction::Probe`, performs
/// each action it is handed and reports back, until the action is `Stop`.
pub fn get_or_create_dir(keep: bool, update: bool, state: DirState, event: DirEvent) -> (r: (
    DirState,
    DirAction,
))
    ensures
        r.0 == dir_next(keep, update, state, event),
        r.1 == dir_pending(r.0),
{
    let next: DirState = match (state, event) {
        (DirState::Probing { cleaned }, DirEvent::Exists(exists)) => {
            if exists && !cleaned && !keep && !update {
                DirState::Removing
            } else if !exists {
                DirState::Creating
            } else {
                DirState::Ready
            }
        },
        (DirState::Removing, DirEvent::Removed(true)) => DirState::Probing { cleaned: true },
        (DirState::Removing, DirEvent::Removed(false)) => DirState::Failed(
            WorkspaceError::CannotRemove,
        ),
        (DirState::Creating, DirEvent::Created(true)) => DirState::Ready,
        (DirState::Creating, DirEvent::Created(false)) => DirState::Failed(
            WorkspaceError::CannotCreate,
        ),
        _ => state,
    };
    let action: DirAction = match next {
        DirState::Probing { .. } => DirAction::Probe,
        DirState::Removing => DirAction::Remove,
        DirState::Creating => DirAction::Create,
        DirState::Ready => DirAction::Stop,
        DirState::Failed(_) => DirAction::Stop,
    };
    (next, action)
}

} // verus!
