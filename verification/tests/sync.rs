use archive_sync::args::{Get, Opts, Print, SubCommand};
use archive_sync::cmd::get::cmd as get;
use archive_sync::cmd::get::{
    extract, reports, Action, EntryAction, EntryError, EntryKind, EntryOutcome, Event, Flags,
    Outcome, Skip, State,
};
use archive_sync::cmd::print::cmd as print;
use archive_sync::config::Config;
use archive_sync::names::NameTable;
use archive_sync::paths::{apply, project_dir_name};
use archive_sync::utils::{
    get_lock, get_project, save_lock, CommitId, ProjectBranch, ProjectId, ResolveError,
};

fn commit(id: &str) -> CommitId {
    CommitId(id.to_string())
}

fn resolved(id: u64, name: &str, commit_id: &str) -> ProjectBranch {
    ProjectBranch { project: ProjectId(id), name: name.to_string(), commit: commit(commit_id) }
}

fn lock_of(pairs: &[(&str, &str)]) -> NameTable {
    NameTable::from_entries(pairs.iter().map(|p| (p.0.to_string(), p.1.to_string())).collect())
}

/// Drives one project with stub collaborators and counts their calls.
struct Stub {
    exists: bool,
    answer: Result<ProjectBranch, ResolveError>,
    archive_opens: bool,
    resolves: u32,
    fetches: Vec<(ProjectId, CommitId)>,
    extracts: u32,
}

impl Stub {
    fn new(exists: bool, answer: Result<ProjectBranch, ResolveError>) -> Stub {
        Stub { exists, answer, archive_opens: true, resolves: 0, fetches: Vec::new(), extracts: 0 }
    }

    fn run(&mut self, flags: Flags, name: &str, lock: &mut NameTable) -> Outcome {
        let mut state = State::Probing;
        let mut action = Action::Probe;
        for _ in 0..10 {
            let event = match action {
                Action::Probe => Event::Probed(self.exists),
                Action::Resolve => {
                    self.resolves += 1;
                    Event::Resolved(self.answer.clone())
                }
                Action::Fetch => {
                    match &state {
                        State::Fetching { project, commit } => {
                            self.fetches.push((*project, commit.clone()))
                        }
                        other => panic!("fetch asked for in {:?}", other),
                    }
                    Event::Fetched(self.archive_opens)
                }
                Action::Extract => {
                    self.extracts += 1;
                    Event::Extracted
                }
                Action::Stop => match state {
                    State::Ended(outcome) => return outcome,
                    other => panic!("stopped in {:?}", other),
                },
            };
            let (next_state, next_action) = get(flags, name, lock, state, event);
            state = next_state;
            action = next_action;
        }
        panic!("the project did not end");
    }
}

#[test]
fn keep_mode_skips_an_existing_project_without_any_call() {
    for update in [false, true] {
        let mut lock = lock_of(&[("group/app", "old")]);
        let mut stub = Stub::new(true, Ok(resolved(7, "app", "new")));
        let outcome = stub.run(Flags { keep: true, update }, "group/app", &mut lock);
        assert_eq!(outcome, Outcome::Skipped(Skip::AlreadyExtracted));
        assert_eq!(stub.resolves, 0);
        assert!(stub.fetches.is_empty());
        assert_eq!(stub.extracts, 0);
        assert_eq!(lock, lock_of(&[("group/app", "old")]));
    }
}

#[test]
fn keep_mode_processes_a_missing_project() {
    let mut lock = NameTable::new();
    let mut stub = Stub::new(false, Ok(resolved(7, "app", "c1")));
    let outcome = stub.run(Flags { keep: true, update: false }, "group/app", &mut lock);
    assert_eq!(outcome, Outcome::Done);
    assert_eq!(stub.resolves, 1);
    assert_eq!(stub.fetches, vec![(ProjectId(7), commit("c1"))]);
    assert_eq!(lock, lock_of(&[("group/app", "c1")]));
}

#[test]
fn update_mode_skips_a_project_whose_commit_is_locked() {
    let mut lock = lock_of(&[("group/app", "c1")]);
    let mut stub = Stub::new(true, Ok(resolved(7, "app", "c1")));
    let outcome = stub.run(Flags { keep: false, update: true }, "group/app", &mut lock);
    assert_eq!(outcome, Outcome::Skipped(Skip::UpToDate));
    assert_eq!(stub.resolves, 1);
    assert!(stub.fetches.is_empty());
    assert_eq!(stub.extracts, 0);
    assert_eq!(lock, lock_of(&[("group/app", "c1")]));
}

#[test]
fn update_mode_refreshes_a_project_whose_commit_moved() {
    let mut lock = lock_of(&[("group/app", "c1"), ("group/lib", "d1")]);
    let mut stub = Stub::new(true, Ok(resolved(7, "app", "c2")));
    let outcome = stub.run(Flags { keep: false, update: true }, "group/app", &mut lock);
    assert_eq!(outcome, Outcome::Done);
    assert_eq!(stub.fetches, vec![(ProjectId(7), commit("c2"))]);
    assert_eq!(stub.extracts, 1);
    assert_eq!(lock, lock_of(&[("group/app", "c2"), ("group/lib", "d1")]));
}

#[test]
fn update_mode_skips_an_unlocked_project_that_exists() {
    let mut lock = NameTable::new();
    let mut stub = Stub::new(true, Ok(resolved(7, "app", "c1")));
    let outcome = stub.run(Flags { keep: false, update: true }, "group/app", &mut lock);
    assert_eq!(outcome, Outcome::Skipped(Skip::UpToDate));
    assert!(stub.fetches.is_empty());
    assert_eq!(lock, NameTable::new());
}

#[test]
fn update_mode_fetches_the_locked_commit_of_a_missing_project() {
    let mut lock = lock_of(&[("group/app", "c1")]);
    let mut stub = Stub::new(false, Ok(resolved(7, "app", "c2")));
    let outcome = stub.run(Flags { keep: false, update: true }, "group/app", &mut lock);
    assert_eq!(outcome, Outcome::Done);
    assert_eq!(stub.fetches, vec![(ProjectId(7), commit("c1"))]);
    assert_eq!(lock, lock_of(&[("group/app", "c1")]));
}

#[test]
fn the_locked_commit_is_fetched_without_update() {
    for exists in [false, true] {
        let mut lock = lock_of(&[("group/app", "c1")]);
        let mut stub = Stub::new(exists, Ok(resolved(7, "app", "c2")));
        let outcome = stub.run(Flags { keep: false, update: false }, "group/app", &mut lock);
        assert_eq!(outcome, Outcome::Done);
        assert_eq!(stub.fetches, vec![(ProjectId(7), commit("c1"))]);
        assert_eq!(lock, lock_of(&[("group/app", "c1")]));
    }
}

#[test]
fn a_failed_resolve_ends_the_project_only() {
    for error in
        [ResolveError::ProjectNotFound, ResolveError::BranchNotFound, ResolveError::NoCommit]
    {
        let mut lock = lock_of(&[("other", "x")]);
        let mut stub = Stub::new(false, Err(error));
        let outcome = stub.run(Flags { keep: false, update: false }, "group/app", &mut lock);
        assert_eq!(outcome, Outcome::ResolveFailed(error));
        assert!(stub.fetches.is_empty());
        assert_eq!(lock, lock_of(&[("other", "x")]));
    }
}

#[test]
fn a_failed_fetch_records_nothing() {
    let mut lock = NameTable::new();
    let mut stub = Stub::new(false, Ok(resolved(7, "app", "c1")));
    stub.archive_opens = false;
    let outcome = stub.run(Flags { keep: false, update: false }, "group/app", &mut lock);
    assert_eq!(outcome, Outcome::FetchFailed);
    assert_eq!(stub.fetches.len(), 1);
    assert_eq!(stub.extracts, 0);
    assert_eq!(lock, NameTable::new());
}

#[test]
fn an_unexpected_event_repeats_the_pending_action() {
    let flags = Flags { keep: false, update: false };
    let mut lock = NameTable::new();
    let (state, action) = get(flags, "p", &mut lock, State::Probing, Event::Extracted);
    assert_eq!((state, action), (State::Probing, Action::Probe));
    let waiting = State::Fetching { project: ProjectId(1), commit: commit("c") };
    let (state, action) = get(flags, "p", &mut lock, waiting.clone(), Event::Probed(true));
    assert_eq!((state, action), (waiting, Action::Fetch));
    let ended = State::Ended(Outcome::Done);
    let (state, action) = get(flags, "p", &mut lock, ended.clone(), Event::Fetched(true));
    assert_eq!((state, action), (ended, Action::Stop));
    assert_eq!(lock, NameTable::new());
}

#[test]
fn conflicting_flags_are_told_apart() {
    assert!(Flags { keep: true, update: true }.conflicting());
    assert!(!Flags { keep: true, update: false }.conflicting());
    assert!(!Flags { keep: false, update: true }.conflicting());
    assert!(!Flags { keep: false, update: false }.conflicting());
}

#[test]
fn a_directory_and_a_file_under_it_are_both_extracted() {
    let entries = vec![
        (vec!["docs".to_string()], EntryKind::Directory),
        (vec!["docs".to_string(), "readme.md".to_string()], EntryKind::RegularFile),
    ];
    let mut planned = Vec::new();
    for (path, kind) in entries.iter() {
        if let Some(place) = apply(path, 0) {
            planned.push((place, extract(*kind, false)));
        }
    }
    assert_eq!(
        planned,
        vec![
            (vec!["docs".to_string()], EntryAction::CreateDir),
            (vec!["docs".to_string(), "readme.md".to_string()], EntryAction::WriteFile),
        ]
    );
}

#[test]
fn an_existing_directory_is_not_created_again() {
    assert_eq!(extract(EntryKind::Directory, true), EntryAction::KeepDir);
    assert_eq!(extract(EntryKind::Directory, false), EntryAction::CreateDir);
    assert_eq!(extract(EntryKind::RegularFile, true), EntryAction::WriteFile);
    assert_eq!(extract(EntryKind::RegularFile, false), EntryAction::WriteFile);
}

#[test]
fn an_unsupported_member_is_skipped_and_the_next_one_processed() {
    assert_eq!(extract(EntryKind::Other, false), EntryAction::SkipUnsupported);
    assert_eq!(extract(EntryKind::Other, true), EntryAction::SkipUnsupported);
    let kinds = [EntryKind::Other, EntryKind::RegularFile];
    let actions: Vec<EntryAction> = kinds.iter().map(|k| extract(*k, false)).collect();
    assert_eq!(actions, vec![EntryAction::SkipUnsupported, EntryAction::WriteFile]);
}

#[test]
fn failures_and_unsupported_members_are_always_reported() {
    for verbose in [false, true] {
        for error in
            [EntryError::Decode, EntryError::CreateDir, EntryError::CreateFile, EntryError::Copy]
        {
            assert!(reports(verbose, EntryOutcome::Failed(error)));
        }
        let skipped = EntryOutcome::Processed { action: EntryAction::SkipUnsupported, bytes: 0 };
        assert!(reports(verbose, skipped));
    }
}

#[test]
fn processed_members_are_reported_in_verbose_mode_only() {
    for action in [EntryAction::CreateDir, EntryAction::KeepDir, EntryAction::WriteFile] {
        let outcome = EntryOutcome::Processed { action, bytes: 5 };
        assert!(reports(true, outcome));
        assert!(!reports(false, outcome));
    }
}

#[test]
fn one_project_from_configuration_to_lock_file() {
    let config = Config::new(
        "host.example".to_string(),
        "SECRET-REDACTED".to_string(),
        vec![("group/app".to_string(), "main".to_string())],
    );
    let get = Get { strip: 1, ..Get::default() };
    let mut lock = get_lock(None).unwrap();

    let (name, branch) = config.archives.entries()[0].clone();
    assert_eq!(branch, "main");
    assert_eq!(project_dir_name(&name), "app");

    let answer = get_project(Some((ProjectId(42), "app".to_string())), Some(Some(commit("c1"))));
    let mut stub = Stub::new(false, answer);
    assert_eq!(stub.run(get.flags(), &name, &mut lock), Outcome::Done);
    assert_eq!(stub.fetches, vec![(ProjectId(42), commit("c1"))]);

    let members = vec![
        (vec!["wrapper".to_string()], EntryKind::Directory),
        (vec!["wrapper".to_string(), "file.txt".to_string()], EntryKind::RegularFile),
    ];
    let mut written = Vec::new();
    for (path, kind) in members.iter() {
        if let Some(place) = apply(path, usize::from(get.strip)) {
            written.push((place, extract(*kind, false)));
        }
    }
    assert_eq!(written, vec![(vec!["file.txt".to_string()], EntryAction::WriteFile)]);

    assert_eq!(lock, lock_of(&[("group/app", "c1")]));
    let document = save_lock(get.update, false, &lock).unwrap().unwrap();
    assert_eq!(document, b"---\ngroup/app: c1\n".to_vec());
    assert_eq!(get_lock(Some(&document[..])), Ok(lock_of(&[("group/app", "c1")])));
}

#[test]
fn get_project_tells_the_failures_apart() {
    let found = || Some((ProjectId(3), "app".to_string()));
    assert_eq!(get_project(None, None), Err(ResolveError::ProjectNotFound));
    assert_eq!(get_project(None, Some(Some(commit("c")))), Err(ResolveError::ProjectNotFound));
    assert_eq!(get_project(found(), None), Err(ResolveError::BranchNotFound));
    assert_eq!(get_project(found(), Some(None)), Err(ResolveError::NoCommit));
    assert_eq!(get_project(found(), Some(Some(commit("c")))), Ok(resolved(3, "app", "c")));
}

#[test]
fn print_gives_name_and_commit() {
    assert_eq!(print("group/app", &Ok(resolved(1, "app", "c1"))), Ok("group/app:c1".to_string()));
    assert_eq!(print("", &Ok(resolved(1, "app", ""))), Ok(":".to_string()));
}

#[test]
fn print_hands_back_the_error_of_a_project_that_does_not_resolve() {
    assert_eq!(print("group/app", &Err(ResolveError::NoCommit)), Err(ResolveError::NoCommit));
    assert_eq!(
        print("group/app", &Err(ResolveError::ProjectNotFound)),
        Err(ResolveError::ProjectNotFound)
    );
}

#[test]
fn get_defaults() {
    let get = Get::default();
    assert_eq!(get.strip, 0);
    assert_eq!(get.dir, "tmp");
    assert!(!get.keep);
    assert!(!get.update);
    assert_eq!(get.flags(), Flags { keep: false, update: false });
    let opts = Opts {
        config: "projects.yml".to_string(),
        verbose: true,
        subcmd: SubCommand::Get(Get { keep: true, ..Get::default() }),
    };
    match opts.subcmd {
        SubCommand::Get(get) => assert_eq!(get.flags(), Flags { keep: true, update: false }),
        SubCommand::Print(Print {}) => panic!("not the operation that was given"),
    }
}

#[test]
fn configuration_projects_come_sorted_and_once() {
    let config = Config::new(
        "h".to_string(),
        "t".to_string(),
        vec![
            ("z/last".to_string(), "main".to_string()),
            ("a/first".to_string(), "dev".to_string()),
            ("z/last".to_string(), "release".to_string()),
        ],
    );
    assert_eq!(config.host, "h");
    assert_eq!(config.token, "t");
    assert_eq!(
        config.archives.entries(),
        &vec![
            ("a/first".to_string(), "dev".to_string()),
            ("z/last".to_string(), "release".to_string())
        ]
    );
}

#[test]
fn a_resolve_error_names_project_and_branch() {
    assert_eq!(
        ResolveError::ProjectNotFound.message("group/app", "main"),
        "Can't get project group/app"
    );
    assert_eq!(
        ResolveError::BranchNotFound.message("group/app", "main"),
        "Can't get branch main of project group/app"
    );
    assert_eq!(ResolveError::NoCommit.message("group/app", "main"), "No commit for project group/app");
}
