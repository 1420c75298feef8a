//! The decisions of the `get` operation, project by project and member by
//! member. The caller does the work that each action names and reports back.

use crate::names::{same_name, NameTable};
use crate::utils::{CommitId, ProjectBranch, ProjectId, ResolveError};
use vstd::prelude::*;

verus! {

/// The two modes of a run that bear on a project.
#[derive(Clone, Copy, Debug, PartialEq, Eq, Structural)]
pub struct Flags {
    /// Leave a project alone whose directory already exists.
    pub keep: bool,
    /// Refresh a project whose directory exists only where its commit moved.
    pub update: bool,
}

impl Flags {
    /// Both modes were asked for. `keep` then wins wherever a project's
    /// directory exists, so `update` has no effect; callers warn about it.
    pub fn conflicting(&self) -> (r: bool)
        ensures
            r == (self.keep && self.update),
    {
        self.keep && self.update
    }
}

/// Why a project was left alone.
#[derive(Clone, Copy, Debug, PartialEq, Eq, Structural)]
pub enum Skip {
    /// Its directory exists and the run keeps what is there.
    AlreadyExtracted,
    /// Its directory exists and the locked commit is still the branch's last.
    UpToDate,
}

/// How the work on one project ended.
#[derive(Clone, Copy, Debug, PartialEq, Eq, Structural)]
pub enum Outcome {
    Skipped(Skip),
    ResolveFailed(ResolveError),
    FetchFailed,
    Done,
}

/// How far the work on one project has come.
#[derive(Clone, Debug, PartialEq, Eq)]
pub enum State {
    /// Waiting to hear whether the project's directory exists.
    Probing,
    /// Waiting for the hosting service to resolve the project.
    Resolving { exists: bool },
    /// Waiting for the archive of `commit`.
    Fetching { project: ProjectId, commit: CommitId },
    /// Waiting for the archive to be extracted.
    Extracting { commit: CommitId },
    /// Nothing more happens for this project.
    Ended(Outcome),
}

/// A `State` with its commit identifiers by view.
pub enum StateView {
    Probing,
    Resolving { exists: bool },
    Fetching { project: ProjectId, commit: Seq<char> },
    Extracting { commit: Seq<char> },
    Ended(Outcome),
}

impl View for State {
    type V = StateView;

    open spec fn view(&self) -> StateView {
        match *self {
            State::Probing => StateView::Probing,
            State::Resolving { exists } => StateView::Resolving { exists },
            State::Fetching { project, commit } => StateView::Fetching { project, commit: commit@ },
            State::Extracting { commit } => StateView::Extracting { commit: commit@ },
            State::Ended(outcome) => StateView::Ended(outcome),
        }
    }
}

/// What the caller found out or did.
#[derive(Debug, PartialEq, Eq)]
pub enum Event {
    /// Whether the project's directory exists.
    Probed(bool),
    /// The hosting service's answer for the project and its branch.
    Resolved(Result<ProjectBranch, ResolveError>),
    /// Whether the archive could be fetched and opened, and the project's
    /// directory made ready for it.
    Fetched(bool),
    /// The archive has been gone through, member by member.
    Extracted,
}

/// What the caller does next.
#[derive(Clone, Copy, Debug, PartialEq, Eq, Structural)]
pub enum Action {
    /// Test whether the project's directory exists.
    Probe,
    /// Ask the hosting service for the project and its branch.
    Resolve,
    /// Fetch the archive of the project and commit that the state names.
    Fetch,
    /// Extract the archive into the project's directory.
    Extract,
    /// Nothing: the project has ended.
    Stop,
}

/// What is asked of the caller while a project is in `state`.
pub open spec fn pending(state: StateView) -> Action {
    match state {
        StateView::Probing => Action::Probe,
        StateView::Resolving { .. } => Action::Resolve,
        StateView::Fetching { .. } => Action::Fetch,
        StateView::Extracting { .. } => Action::Extract,
        StateView::Ended(_) => Action::Stop,
    }
}

/// The commit that the lock mapping holds for a project, if any.
pub open spec fn locked_commit(lock: Map<Seq<char>, Seq<char>>, name: Seq<char>) -> Option<
    Seq<char>,
> {
    if lock.contains_key(name) {
        Some(lock[name])
    } else {
        None
    }
}

/// The commit to fetch once a project is resolved, or `None` where nothing
/// needs fetching. The locked commit is used where there is one, else the
/// resolved one. In update mode a project whose directory exists is skipped
/// where the two agree, and moves to the resolved commit where they differ.
pub open spec fn chosen_commit(
    update: bool,
    exists: bool,
    locked: Option<Seq<char>>,
    resolved: Seq<char>,
) -> Option<Seq<char>> {
    let start = match locked {
        Some(commit) => commit,
        None => resolved,
    };
    if update && exists {
        if start == resolved {
            None
        } else {
            Some(resolved)
        }
    } else {
        Some(start)
    }
}

/// The state that follows `state` on `event`. An event that the state does
/// not wait for changes nothing.
pub open spec fn next(
    flags: Flags,
    locked: Option<Seq<char>>,
    state: StateView,
    event: Event,
) -> StateView {
    match (state, event) {
        (StateView::Probing, Event::Probed(exists)) => {
            if flags.keep && exists {
                StateView::Ended(Outcome::Skipped(Skip::AlreadyExtracted))
            } else {
                StateView::Resolving { exists }
            }
        },
        (StateView::Resolving { exists }, Event::Resolved(Err(error))) => StateView::Ended(
            Outcome::ResolveFailed(error),
        ),
        (StateView::Resolving { exists }, Event::Resolved(Ok(resolved))) => {
            match chosen_commit(flags.update, exists, locked, resolved.commit@) {
                None => StateView::Ended(Outcome::Skipped(Skip::UpToDate)),
                Some(commit) => StateView::Fetching { project: resolved.project, commit },
            }
        },
        (StateView::Fetching { project, commit }, Event::Fetched(opened)) => {
            if opened {
                StateView::Extracting { commit }
            } else {
                StateView::Ended(Outcome::FetchFailed)
            }
        },
        (StateView::Extracting { commit }, Event::Extracted) => StateView::Ended(Outcome::Done),
        _ => state,
    }
}

/// The lock mapping after `event`: the extracted commit is entered under the
/// project's name when the extraction ends, and nothing changes otherwise.
pub open spec fn recorded(
    lock: Map<Seq<char>, Seq<char>>,
    name: Seq<char>,
    state: StateView,
    event: Event,
) -> Map<Seq<char>, Seq<char>> {
    match (state, event) {
        (StateView::Extracting { commit }, Event::Extracted) => lock.insert(name, commit),
        _ => lock,
    }
}

/// The `get` operation for the project `name`, one step at a time. The
/// caller starts in `State::Probing` with `Action::Probe`, performs each
/// action it is handed and reports back, until the action is `Stop`.
pub fn cmd(flags: Flags, name: &str, lock: &mut NameTable, state: State, event: Event) -> (r: (
    State,
    Action,
))
    requires
        old(lock).wf(),
    ensures
        final(lock).wf(),
        r.0@ == next(flags, locked_commit(old(lock)@, name@), state@, event),
        r.1 == pending(r.0@),
        final(lock)@ == recorded(old(lock)@, name@, state@, event),
{
    match (state, event) {
        (State::Probing, Event::Probed(exists)) => {
            if flags.keep && exists {
                (State::Ended(Outcome::Skipped(Skip::AlreadyExtracted)), Action::Stop)
            } else {
                (State::Resolving { exists }, Action::Resolve)
            }
        },
        (State::Resolving { exists }, Event::Resolved(Err(error))) => {
            (State::Ended(Outcome::ResolveFailed(error)), Action::Stop)
        },
        (State::Resolving { exists }, Event::Resolved(Ok(resolved))) => {
            let start: CommitId = match lock.get(name) {
                Some(commit) => CommitId(commit.clone()),
                None => CommitId(resolved.commit.0.clone()),
            };
            if flags.update && exists {
                if same_name(start.0.as_str(), resolved.commit.0.as_str()) {
                    (State::Ended(Outcome::Skipped(Skip::UpToDate)), Action::Stop)
                } else {
                    (
                        State::Fetching { project: resolved.project, commit: resolved.commit },
                        Action::Fetch,
                    )
                }
            } else {
                (State::Fetching { project: resolved.project, commit: start }, Action::Fetch)
            }
        },
        (State::Fetching { project, commit }, Event::Fetched(opened)) => {
            if opened {
                (State::Extracting { commit }, Action::Extract)
            } else {
                (State::Ended(Outcome::FetchFailed), Action::Stop)
            }
        },
        (State::Extracting { commit }, Event::Extracted) => {
            lock.insert(name.to_owned(), commit.0);
            (State::Ended(Outcome::Done), Action::Stop)
        },
        (state, _) => {
            let action: Action = match state {
                State::Probing => Action::Probe,
                State::Resolving { .. } => Action::Resolve,
                State::Fetching { .. } => Action::Fetch,
                State::Extracting { .. } => Action::Extract,
                State::Ended(_) => Action::Stop,
            };
            (state, action)
        },
    }
}

/// The lock mapping changes only when a project ends as done, and then it
/// holds the extracted commit under the project's name.
pub proof fn law_recorded_when_done(
    flags: Flags,
    lock: Map<Seq<char>, Seq<char>>,
    name: Seq<char>,
    state: StateView,
    event: Event,
)
    ensures
        next(flags, locked_commit(lock, name), state, event) != StateView::Ended(Outcome::Done)
            ==> recorded(lock, name, state, event) == lock,
        state != StateView::Ended(Outcome::Done) && next(
            flags,
            locked_commit(lock, name),
            state,
            event,
        ) == StateView::Ended(Outcome::Done) ==> state is Extracting && recorded(
            lock,
            name,
            state,
            event,
        ) == lock.insert(name, state->Extracting_commit),
{
}

/// The actions handed out, one for each event, from `state` on.
pub open spec fn actions(
    flags: Flags,
    locked: Option<Seq<char>>,
    state: StateView,
    events: Seq<Event>,
) -> Seq<Action>
    decreases events.len(),
{
    if events.len() == 0 {
        Seq::<Action>::empty()
    } else {
        let after = next(flags, locked, state, events[0]);
        seq![pending(after)] + actions(flags, locked, after, events.drop_first())
    }
}

/// One action is handed out for each event.
pub proof fn lemma_actions_len(
    flags: Flags,
    locked: Option<Seq<char>>,
    state: StateView,
    events: Seq<Event>,
)
    ensures
        actions(flags, locked, state, events).len() == events.len(),
    decreases events.len(),
{
    if events.len() > 0 {
        lemma_actions_len(
            flags,
            locked,
            next(flags, locked, state, events[0]),
            events.drop_first(),
        );
    }
}

/// Once a project has ended, every further event is answered with `Stop`.
pub proof fn law_ended_stays_ended(
    flags: Flags,
    locked: Option<Seq<char>>,
    outcome: Outcome,
    events: Seq<Event>,
)
    ensures
        actions(flags, locked, StateView::Ended(outcome), events).len() == events.len(),
        forall|i: int|
            0 <= i < events.len() ==> #[trigger] actions(
                flags,
                locked,
                StateView::Ended(outcome),
                events,
            )[i] == Action::Stop,
    decreases events.len(),
{
    if events.len() > 0 {
        law_ended_stays_ended(flags, locked, outcome, events.drop_first());
    }
}

/// In keep mode a project whose directory exists is never resolved and never
/// fetched: whatever is reported after the probe, every action is `Stop`.
pub proof fn law_keep_short_circuit(flags: Flags, locked: Option<Seq<char>>, events: Seq<Event>)
    requires
        flags.keep,
        events.len() > 0,
        events[0] == Event::Probed(true),
    ensures
        actions(flags, locked, StateView::Probing, events).len() == events.len(),
        forall|i: int|
            0 <= i < events.len() ==> #[trigger] actions(flags, locked, StateView::Probing, events)[i]
                == Action::Stop,
{
    lemma_actions_len(flags, locked, StateView::Probing, events);
    law_ended_stays_ended(
        flags,
        locked,
        Outcome::Skipped(Skip::AlreadyExtracted),
        events.drop_first(),
    );
}

/// In update mode a project whose directory exists, and whose resolved
/// commit is the locked one, is never fetched.
pub proof fn law_update_no_op(
    flags: Flags,
    locked: Option<Seq<char>>,
    resolved: ProjectBranch,
    events: Seq<Event>,
)
    requires
        flags.update,
        locked == Some(resolved.commit@),
        events.len() > 1,
        events[0] == Event::Probed(true),
        events[1] == Event::Resolved(Ok(resolved)),
    ensures
        actions(flags, locked, StateView::Probing, events).len() == events.len(),
        forall|i: int|
            0 <= i < events.len() ==> #[trigger] actions(flags, locked, StateView::Probing, events)[i]
                != Action::Fetch,
{
    lemma_actions_len(flags, locked, StateView::Probing, events);
    if flags.keep {
        law_keep_short_circuit(flags, locked, events);
    } else {
        let rest = events.drop_first();
        let tail = rest.drop_first();
        let resolving = StateView::Resolving { exists: true };
        let ended = StateView::Ended(Outcome::Skipped(Skip::UpToDate));
        assert(rest[0] == events[1]);
        assert(next(flags, locked, StateView::Probing, events[0]) == resolving);
        assert(next(flags, locked, resolving, rest[0]) == ended);
        assert(actions(flags, locked, resolving, rest) == seq![Action::Stop] + actions(
            flags,
            locked,
            ended,
            tail,
        ));
        assert(actions(flags, locked, StateView::Probing, events) == seq![Action::Resolve]
            + actions(flags, locked, resolving, rest));
        law_ended_stays_ended(flags, locked, Outcome::Skipped(Skip::UpToDate), tail);
    }
}

/// The kind of an archive member.
#[derive(Clone, Copy, Debug, PartialEq, Eq, Structural)]
pub enum EntryKind {
    Directory,
    RegularFile,
    /// A link, a device, or anything else that is neither of the above.
    Other,
}

/// What is done for an archive member.
#[derive(Clone, Copy, Debug, PartialEq, Eq, Structural)]
pub enum EntryAction {
    /// Create the directory.
    CreateDir,
    /// Nothing: the directory is there already.
    KeepDir,
    /// Create or truncate the file and copy the member's content into it.
    WriteFile,
    /// Nothing: members of this kind are not supported.
    SkipUnsupported,
}

/// The action for a member of `kind` whose destination `exists` or does not.
pub open spec fn entry_action(kind: EntryKind, exists: bool) -> EntryAction {
    match kind {
        EntryKind::Directory => if exists {
            EntryAction::KeepDir
        } else {
            EntryAction::CreateDir
        },
        EntryKind::RegularFile => EntryAction::WriteFile,
        EntryKind::Other => EntryAction::SkipUnsupported,
    }
}

/// Decides what is done for one archive member. A member of another kind
/// than directory or regular file never touches the file system.
pub fn extract(kind: EntryKind, exists: bool) -> (r: EntryAction)
    ensures
        r == entry_action(kind, exists),
        kind is Other ==> r is SkipUnsupported,
{
    match kind {
        EntryKind::Directory => if exists {
            EntryAction::KeepDir
        } else {
            EntryAction::CreateDir
        },
        EntryKind::RegularFile => EntryAction::WriteFile,
        EntryKind::Other => EntryAction::SkipUnsupported,
    }
}

/// What went wrong with one archive member.
#[derive(Clone, Copy, Debug, PartialEq, Eq, Structural)]
pub enum EntryError {
    /// The member's header could not be decoded.
    Decode,
    /// The directory could not be created.
    CreateDir,
    /// The file could not be created.
    CreateFile,
    /// The content could not be copied in full.
    Copy,
}

/// How one archive member ended.
#[derive(Clone, Copy, Debug, PartialEq, Eq, Structural)]
pub enum EntryOutcome {
    /// The action was carried out; for a file, `bytes` were copied.
    Processed { action: EntryAction, bytes: u64 },
    /// The member was given up; the archive goes on with the next one.
    Failed(EntryError),
}

/// Whether an outcome is reported to the user: a failure and an unsupported
/// member always, any other member only in verbose mode.
pub open spec fn is_reported(verbose: bool, outcome: EntryOutcome) -> bool {
    match outcome {
        EntryOutcome::Failed(_) => true,
        EntryOutcome::Processed { action, .. } => verbose || action is SkipUnsupported,
    }
}

/// Whether the caller reports `outcome`.
pub fn reports(verbose: bool, outcome: EntryOutcome) -> (r: bool)
    ensures
        r == is_reported(verbose, outcome),
{
    match outcome {
        EntryOutcome::Failed(_) => true,
        EntryOutcome::Processed { action, .. } => match action {
            EntryAction::SkipUnsupported => true,
            _ => verbose,
        },
    }
}

} // verus!
