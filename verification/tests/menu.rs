use file_manager::{
    file_name_menu, print_menu_options, run_save_file_menu_with_errors, Action, DirEntry,
    EntryKind, Error, Event, Input, Notice, Prompt, Session, Step,
};

fn names(list: &[&str]) -> Vec<String> {
    list.iter().map(|s| s.to_string()).collect()
}

fn files(list: &[&str]) -> Vec<DirEntry> {
    list.iter().map(|s| DirEntry { name: s.to_string(), kind: EntryKind::File }).collect()
}

fn line(text: &str) -> Event {
    Event::Input(Input::Line(text.to_string()))
}

fn read_menu(seed: &str) -> Action {
    Action::ReadLine { prompt: Prompt::Menu, history: None, seed: seed.to_string() }
}

fn go_on(step: Step) -> (Session, Option<Notice>, Action) {
    match step {
        Step::Next { session, notice, action } => (session, notice, action),
        Step::Done { notice, outcome } => panic!("the session ended: {:?} {:?}", notice, outcome),
    }
}

fn selected(path: &str) -> Step {
    Step::Done { notice: None, outcome: Ok(path.to_string()) }
}

fn aborted(e: Error) -> Step {
    Step::Done { notice: None, outcome: Err(e) }
}

/// A session at the menu of the directory `a/`, with the defaults `a/` and
/// `b/` and the given entries.
fn at_menu(is_saving: bool, entries: Vec<DirEntry>) -> Session {
    let first = run_save_file_menu_with_errors(is_saving, Some(names(&["a/", "b/"])));
    let (session, notice, action) = go_on(first);
    assert_eq!(notice, None);
    assert_eq!(action, Action::CreateDir("a/".to_string()));
    let (session, notice, action) = go_on(session.step(Event::Completed));
    assert_eq!(notice, None);
    assert_eq!(action, Action::ListDir("a/".to_string()));
    let (session, notice, action) = go_on(session.step(Event::Listing(entries)));
    assert!(matches!(notice, Some(Notice::Menu(_))));
    assert!(matches!(
        action,
        Action::ReadLine { prompt: Prompt::Menu, history: Some(_), .. }
    ));
    session
}

/// A session that asks what to do about the existing file `a/notes.map`.
fn at_collision(entries: Vec<DirEntry>) -> Session {
    let session = at_menu(true, entries);
    let (session, _, action) = go_on(session.step(line("notes")));
    assert_eq!(action, Action::ProbeFile("a/notes.map".to_string()));
    let (session, notice, action) = go_on(session.step(Event::Exists(true)));
    assert_eq!(notice, Some(Notice::Collision("a/notes.map".to_string())));
    assert_eq!(
        action,
        Action::ReadLine {
            prompt: Prompt::Choice,
            history: Some(names(&["r", "m", "c", "n", "d"])),
            seed: String::new(),
        }
    );
    session
}

#[test]
fn a_session_starts_by_creating_the_first_default_directory() {
    let (session, notice, action) =
        go_on(run_save_file_menu_with_errors(true, Some(names(&["hello/", "world/"]))));
    assert_eq!(notice, None);
    assert_eq!(action, Action::CreateDir("hello/".to_string()));
    assert_eq!(session.current_dir(), "hello/");
    assert_eq!(session.default_dirs(), &names(&["hello/", "world/"]));
    assert!(session.is_saving());
    assert_eq!(session.seed(), "");
}

#[test]
fn a_session_without_defaults_starts_in_the_built_in_directory() {
    let (session, _, action) = go_on(run_save_file_menu_with_errors(false, None));
    assert_eq!(action, Action::CreateDir("./test_dir/".to_string()));
    assert_eq!(session.default_dirs(), &names(&["./test_dir/"]));
    assert!(!session.is_saving());
    let (_, _, action) = go_on(run_save_file_menu_with_errors(false, Some(Vec::new())));
    assert_eq!(action, Action::CreateDir("./test_dir/".to_string()));
}

#[test]
fn the_current_directory_always_ends_in_the_separator() {
    let (session, _, action) = go_on(file_name_menu("maps".to_string(), &names(&["maps"]), true));
    assert_eq!(action, Action::CreateDir("maps/".to_string()));
    assert_eq!(session.current_dir(), "maps/");
}

#[test]
fn a_failure_to_create_the_first_directory_ends_the_session() {
    let (session, _, _) = go_on(run_save_file_menu_with_errors(true, None));
    assert_eq!(
        session.step(Event::Failed("permission denied".to_string())),
        aborted(Error::Io("permission denied".to_string()))
    );
}

#[test]
fn the_listing_is_shown_as_the_menu_and_fills_the_history() {
    let first = run_save_file_menu_with_errors(true, Some(names(&["a/", "b/"])));
    let (session, _, _) = go_on(first);
    let (session, _, _) = go_on(session.step(Event::Completed));
    let entries = vec![
        DirEntry { name: "run_000.map".to_string(), kind: EntryKind::File },
        DirEntry { name: "sub".to_string(), kind: EntryKind::Directory },
        DirEntry { name: "readme.txt".to_string(), kind: EntryKind::File },
        DirEntry { name: "notes.map".to_string(), kind: EntryKind::File },
    ];
    let (session, notice, action) = go_on(session.step(Event::Listing(entries)));
    let dirs = names(&["a/", "b/"]);
    let subs = names(&["sub/"]);
    let listed = names(&["run_000.map", "notes.map"]);
    assert_eq!(notice, Some(Notice::Menu(print_menu_options("a/", &dirs, &subs, &listed))));
    assert_eq!(
        action,
        Action::ReadLine {
            prompt: Prompt::Menu,
            history: Some(names(&["notes.map", "run_000.map", "b/", "a/"])),
            seed: String::new(),
        }
    );
    assert_eq!(session.files(), &listed);
    assert_eq!(session.sub_dirs(), &subs);
}

#[test]
fn a_failed_listing_ends_the_session() {
    let (session, _, _) = go_on(run_save_file_menu_with_errors(true, None));
    let (session, _, _) = go_on(session.step(Event::Completed));
    assert_eq!(
        session.step(Event::Failed("device error".to_string())),
        aborted(Error::Io("device error".to_string()))
    );
}

#[test]
fn saving_under_a_sequential_base_takes_the_next_name() {
    let session = at_menu(true, files(&["run_000.map", "run_001.map"]));
    let (session, notice, action) = go_on(session.step(line("run_")));
    assert_eq!(notice, None);
    assert_eq!(action, Action::ProbeFile("a/run_002.map".to_string()));
    assert_eq!(session.step(Event::Exists(false)), selected("a/run_002.map"));
}

#[test]
fn loading_under_a_sequential_base_takes_the_last_name() {
    let session = at_menu(false, files(&["run_000.map", "run_001.map"]));
    let (session, _, action) = go_on(session.step(line("run_")));
    assert_eq!(action, Action::ProbeFile("a/run_001.map".to_string()));
    assert_eq!(session.step(Event::Exists(true)), selected("a/run_001.map"));
}

#[test]
fn a_sequential_base_without_files_starts_at_zero() {
    let session = at_menu(true, files(&["notes.map"]));
    let (_, _, action) = go_on(session.step(line("run_")));
    assert_eq!(action, Action::ProbeFile("a/run_000.map".to_string()));
    let session = at_menu(false, files(&["notes.map"]));
    let (_, _, action) = go_on(session.step(line("run_")));
    assert_eq!(action, Action::ProbeFile("a/run_000.map".to_string()));
}

#[test]
fn a_full_row_of_sequential_names_ends_the_session_when_saving() {
    let session = at_menu(true, files(&["run_999.map"]));
    assert_eq!(session.step(line("run_")), aborted(Error::InvalidSequentialName));
    let session = at_menu(false, files(&["run_999.map"]));
    let (_, _, action) = go_on(session.step(line("run_")));
    assert_eq!(action, Action::ProbeFile("a/run_999.map".to_string()));
}

#[test]
fn a_name_without_extension_gets_the_extension() {
    let session = at_menu(true, Vec::new());
    let (session, notice, action) = go_on(session.step(line("notes")));
    assert_eq!(notice, None);
    assert_eq!(action, Action::ProbeFile("a/notes.map".to_string()));
    assert_eq!(session.step(Event::Exists(false)), selected("a/notes.map"));
}

#[test]
fn a_name_with_the_extension_is_taken_as_it_is() {
    let session = at_menu(true, Vec::new());
    let (session, _, action) = go_on(session.step(line("notes.map")));
    assert_eq!(action, Action::ProbeFile("a/notes.map".to_string()));
    assert_eq!(session.step(Event::Exists(false)), selected("a/notes.map"));
}

#[test]
fn a_name_with_another_extension_is_corrected_and_asked_for_again() {
    let session = at_menu(true, Vec::new());
    let (session, notice, action) = go_on(session.step(line("notes.txt")));
    assert_eq!(notice, Some(Notice::ExtensionCorrected));
    assert_eq!(action, read_menu("notes.map"));
    assert_eq!(session.seed(), "notes.map");
    let (session, _, action) = go_on(session.step(line("notes.map")));
    assert_eq!(action, Action::ProbeFile("a/notes.map".to_string()));
    assert_eq!(session.step(Event::Exists(false)), selected("a/notes.map"));
}

#[test]
fn the_extension_is_what_follows_the_first_period() {
    let session = at_menu(true, Vec::new());
    let (_, notice, action) = go_on(session.step(line("a.b.map")));
    assert_eq!(notice, Some(Notice::ExtensionCorrected));
    assert_eq!(action, read_menu("a.map"));
    let session = at_menu(true, Vec::new());
    let (_, notice, action) = go_on(session.step(line("notes.")));
    assert_eq!(notice, Some(Notice::ExtensionCorrected));
    assert_eq!(action, read_menu("notes.map"));
}

#[test]
fn words_are_joined_before_the_line_is_read() {
    let session = at_menu(true, Vec::new());
    let (_, _, action) = go_on(session.step(line("  my  new   map ")));
    assert_eq!(action, Action::ProbeFile("a/my_new_map.map".to_string()));
}

#[test]
fn a_name_that_is_too_long_ends_the_session() {
    let session = at_menu(true, Vec::new());
    let name = "n".repeat(27);
    assert_eq!(session.step(line(&name)), aborted(Error::InvalidNameTooLong));
    let session = at_menu(true, Vec::new());
    let name = "n".repeat(26);
    let (_, _, action) = go_on(session.step(line(&name)));
    assert_eq!(action, Action::ProbeFile(format!("a/{}.map", name)));
}

#[test]
fn an_empty_line_is_asked_for_again() {
    let session = at_menu(true, Vec::new());
    let (session, _, _) = go_on(session.step(line("notes.txt")));
    assert_eq!(session.seed(), "notes.map");
    let (session, notice, action) = go_on(session.step(line("   ")));
    assert_eq!(notice, Some(Notice::EmptyInput));
    assert_eq!(action, read_menu(""));
    assert_eq!(session.seed(), "");
}

#[test]
fn a_number_outside_the_list_is_asked_for_again() {
    let session = at_menu(true, files(&["notes.map"]));
    let (session, notice, action) = go_on(session.step(line("3")));
    assert_eq!(notice, Some(Notice::OutOfRange("3".to_string())));
    assert_eq!(action, read_menu(""));
    assert_eq!(session.current_dir(), "a/");
}

#[test]
fn a_cancelled_line_clears_the_seed() {
    let session = at_menu(true, Vec::new());
    let (session, _, _) = go_on(session.step(line("notes.txt")));
    let (session, notice, action) = go_on(session.step(Event::Input(Input::Interrupted)));
    assert_eq!(notice, None);
    assert_eq!(action, read_menu(""));
    assert_eq!(session.seed(), "");
}

#[test]
fn the_end_of_input_terminates_the_session() {
    let session = at_menu(true, Vec::new());
    assert_eq!(session.step(Event::Input(Input::Eof)), aborted(Error::ManuallyTerminated));
}

#[test]
fn a_failed_read_at_the_menu_ends_the_session() {
    let session = at_menu(true, Vec::new());
    assert_eq!(
        session.step(Event::Input(Input::Failed("no terminal".to_string()))),
        aborted(Error::Cmd("no terminal".to_string()))
    );
}

#[test]
fn an_answer_that_was_not_asked_for_ends_the_session() {
    let session = at_menu(true, Vec::new());
    assert_eq!(
        session.step(Event::Exists(true)),
        aborted(Error::Io("FILE MNG :: unexpected answer to a request".to_string()))
    );
    let (session, _, _) = go_on(run_save_file_menu_with_errors(true, None));
    assert_eq!(
        session.step(line("notes")),
        aborted(Error::Io("FILE MNG :: unexpected answer to a request".to_string()))
    );
}

#[test]
fn selecting_a_file_by_number_takes_its_collapsed_name() {
    let session = at_menu(false, files(&["notes.map", "run_004.map"]));
    let (session, _, action) = go_on(session.step(line("2")));
    assert_eq!(action, Action::ProbeFile("a/notes.map".to_string()));
    assert_eq!(session.step(Event::Exists(true)), selected("a/notes.map"));
    let session = at_menu(false, files(&["notes.map", "run_004.map"]));
    let (_, _, action) = go_on(session.step(line("3")));
    assert_eq!(action, Action::ProbeFile("a/run.map".to_string()));
}

#[test]
fn selecting_a_default_directory_changes_the_directory_and_lists_it() {
    let session = at_menu(true, files(&["notes.map"]));
    let (session, notice, action) = go_on(session.step(line("1")));
    assert_eq!(notice, None);
    assert_eq!(action, Action::ProbeDir("b/".to_string()));
    assert_eq!(session.current_dir(), "a/");
    let (session, notice, action) = go_on(session.step(Event::Exists(true)));
    assert_eq!(notice, None);
    assert_eq!(action, Action::ListDir("b/".to_string()));
    assert_eq!(session.current_dir(), "b/");
    let (session, notice, action) = go_on(session.step(Event::Listing(files(&["other.map"]))));
    assert!(matches!(notice, Some(Notice::Menu(_))));
    assert_eq!(
        action,
        Action::ReadLine {
            prompt: Prompt::Menu,
            history: Some(names(&["other.map", "b/", "a/"])),
            seed: String::new(),
        }
    );
    assert_eq!(session.files(), &names(&["other.map"]));
}

#[test]
fn selecting_a_sub_directory_goes_below_the_current_directory() {
    let entries = vec![DirEntry { name: "deep".to_string(), kind: EntryKind::Directory }];
    let session = at_menu(true, entries);
    let (session, _, action) = go_on(session.step(line("2")));
    assert_eq!(action, Action::ProbeDir("a/deep/".to_string()));
    let (session, _, action) = go_on(session.step(Event::Exists(true)));
    assert_eq!(action, Action::ListDir("a/deep/".to_string()));
    assert_eq!(session.current_dir(), "a/deep/");
}

#[test]
fn a_directory_and_a_file_on_one_line_are_both_taken() {
    let session = at_menu(true, files(&["run_000.map"]));
    let (session, _, action) = go_on(session.step(line("deep/run_")));
    assert_eq!(action, Action::ProbeDir("a/deep/".to_string()));
    let (session, _, action) = go_on(session.step(Event::Exists(true)));
    assert_eq!(action, Action::ListDir("a/deep/".to_string()));
    let listing = Event::Listing(files(&["run_000.map", "run_007.map"]));
    let (session, notice, action) = go_on(session.step(listing));
    assert_eq!(notice, None);
    assert_eq!(action, Action::ProbeFile("a/deep/run_008.map".to_string()));
    assert_eq!(session.step(Event::Exists(false)), selected("a/deep/run_008.map"));
}

#[test]
fn after_a_change_of_directory_another_name_is_asked_for_through_a_new_listing() {
    let session = at_menu(false, Vec::new());
    let (session, _, _) = go_on(session.step(line("deep/notes")));
    let (session, _, _) = go_on(session.step(Event::Exists(true)));
    let (session, _, action) = go_on(session.step(Event::Listing(Vec::new())));
    assert_eq!(action, Action::ProbeFile("a/deep/notes.map".to_string()));
    let (session, notice, action) = go_on(session.step(Event::Exists(false)));
    assert_eq!(notice, Some(Notice::MissingWhileLoading("a/deep/notes.map".to_string())));
    assert_eq!(action, Action::ListDir("a/deep/".to_string()));
    let (_, notice, _) = go_on(session.step(Event::Listing(Vec::new())));
    assert!(matches!(notice, Some(Notice::Menu(_))));
}

#[test]
fn a_missing_directory_is_offered_for_creation_when_saving() {
    let session = at_menu(true, Vec::new());
    let (session, _, action) = go_on(session.step(line("fresh/")));
    assert_eq!(action, Action::ProbeDir("a/fresh/".to_string()));
    let (session, notice, action) = go_on(session.step(Event::Exists(false)));
    assert_eq!(notice, Some(Notice::CreateDirectory("a/fresh/".to_string())));
    assert_eq!(
        action,
        Action::ReadLine {
            prompt: Prompt::Confirmation,
            history: Some(names(&["y", "yes", "n", "no"])),
            seed: String::new(),
        }
    );
    let (session, notice, action) = go_on(session.step(line("yes")));
    assert_eq!(notice, None);
    assert_eq!(action, Action::CreateDir("a/fresh/".to_string()));
    assert_eq!(session.current_dir(), "a/");
    let (session, notice, action) = go_on(session.step(Event::Completed));
    assert_eq!(notice, None);
    assert_eq!(action, Action::ListDir("a/fresh/".to_string()));
    assert_eq!(session.current_dir(), "a/fresh/");
}

#[test]
fn declining_the_creation_stays_in_the_directory() {
    for answer in [line("n"), line("no"), line("what"), Event::Input(Input::Interrupted),
        Event::Input(Input::Failed("broken".to_string()))]
    {
        let session = at_menu(true, Vec::new());
        let (session, _, _) = go_on(session.step(line("fresh/")));
        let (session, _, _) = go_on(session.step(Event::Exists(false)));
        let (session, notice, action) = go_on(session.step(answer));
        assert_eq!(notice, Some(Notice::DirectoryNotCreated));
        assert_eq!(action, read_menu(""));
        assert_eq!(session.current_dir(), "a/");
    }
}

#[test]
fn the_end_of_input_at_the_confirmation_terminates_the_session() {
    let session = at_menu(true, Vec::new());
    let (session, _, _) = go_on(session.step(line("fresh/")));
    let (session, _, _) = go_on(session.step(Event::Exists(false)));
    assert_eq!(session.step(Event::Input(Input::Eof)), aborted(Error::ManuallyTerminated));
}

#[test]
fn a_failure_to_create_a_directory_ends_the_session() {
    let session = at_menu(true, Vec::new());
    let (session, _, _) = go_on(session.step(line("fresh/")));
    let (session, _, _) = go_on(session.step(Event::Exists(false)));
    let (session, _, _) = go_on(session.step(line("y")));
    assert_eq!(
        session.step(Event::Failed("read-only file system".to_string())),
        aborted(Error::Io("read-only file system".to_string()))
    );
}

#[test]
fn a_missing_directory_is_not_created_when_loading() {
    let session = at_menu(false, Vec::new());
    let (session, _, _) = go_on(session.step(line("fresh/notes")));
    let (session, notice, action) = go_on(session.step(Event::Exists(false)));
    assert_eq!(notice, Some(Notice::DirectoryMissing("a/fresh/".to_string())));
    assert_eq!(action, read_menu(""));
    assert_eq!(session.current_dir(), "a/");
}

#[test]
fn loading_a_missing_file_asks_for_another_name_without_the_choice() {
    let session = at_menu(false, Vec::new());
    let (session, _, _) = go_on(session.step(line("notes.txt")));
    let (session, _, action) = go_on(session.step(line("notes")));
    assert_eq!(action, Action::ProbeFile("a/notes.map".to_string()));
    let (session, notice, action) = go_on(session.step(Event::Exists(false)));
    assert_eq!(notice, Some(Notice::MissingWhileLoading("a/notes.map".to_string())));
    assert_eq!(action, read_menu(""));
    assert_eq!(session.seed(), "");
    let (_, _, action) = go_on(session.step(line("other")));
    assert_eq!(action, Action::ProbeFile("a/other.map".to_string()));
}

#[test]
fn loading_an_existing_file_selects_it() {
    let session = at_menu(false, files(&["notes.map"]));
    let (session, _, _) = go_on(session.step(line("notes")));
    assert_eq!(session.step(Event::Exists(true)), selected("a/notes.map"));
}

#[test]
fn replacing_deletes_the_existing_file_and_selects_the_name() {
    let session = at_collision(files(&["notes.map"]));
    let (session, notice, action) = go_on(session.step(line("r")));
    assert_eq!(notice, Some(Notice::Replacing("a/notes.map".to_string())));
    assert_eq!(action, Action::RemoveFile("a/notes.map".to_string()));
    assert_eq!(session.step(Event::Completed), selected("a/notes.map"));
}

#[test]
fn a_failure_to_delete_ends_the_session() {
    let session = at_collision(files(&["notes.map"]));
    let (session, _, _) = go_on(session.step(line("r")));
    assert_eq!(
        session.step(Event::Failed("busy".to_string())),
        aborted(Error::Io("busy".to_string()))
    );
}

#[test]
fn moving_renames_the_existing_file_to_the_next_sequential_name() {
    let session = at_collision(files(&["notes.map", "notes_000.map", "notes_001.map"]));
    let (session, notice, action) = go_on(session.step(line("m")));
    assert_eq!(
        notice,
        Some(Notice::Renaming {
            from: "a/notes.map".to_string(),
            to: "a/notes_002.map".to_string(),
        })
    );
    assert_eq!(
        action,
        Action::RenameFile { from: "a/notes.map".to_string(), to: "a/notes_002.map".to_string() }
    );
    assert_eq!(session.step(Event::Completed), selected("a/notes.map"));
}

#[test]
fn taking_a_sequential_name_leaves_the_existing_file() {
    let session = at_collision(files(&["notes.map"]));
    assert_eq!(session.step(line("c")), selected("a/notes_000.map"));
    let session = at_collision(files(&["notes.map", "notes_041.map"]));
    assert_eq!(session.step(line(" c ")), selected("a/notes_042.map"));
}

#[test]
fn a_full_row_ends_the_session_on_move_and_on_sequential() {
    let session = at_collision(files(&["notes.map", "notes_999.map"]));
    assert_eq!(session.step(line("m")), aborted(Error::InvalidSequentialName));
    let session = at_collision(files(&["notes.map", "notes_999.map"]));
    assert_eq!(session.step(line("c")), aborted(Error::InvalidSequentialName));
}

#[test]
fn a_sequential_name_that_is_too_long_ends_the_session() {
    let stem = "n".repeat(26);
    let session = at_menu(true, Vec::new());
    let (session, _, action) = go_on(session.step(line(&stem)));
    assert_eq!(action, Action::ProbeFile(format!("a/{}.map", stem)));
    let (session, _, _) = go_on(session.step(Event::Exists(true)));
    assert_eq!(session.step(line("c")), aborted(Error::InvalidNameTooLong));
}

#[test]
fn asking_for_a_new_name_returns_to_the_menu() {
    for answer in [line("n"), Event::Input(Input::Interrupted)] {
        let session = at_collision(files(&["notes.map"]));
        let (session, notice, action) = go_on(session.step(answer));
        assert_eq!(notice, Some(Notice::NewNameWanted));
        assert_eq!(action, read_menu(""));
        let (_, _, action) = go_on(session.step(line("other")));
        assert_eq!(action, Action::ProbeFile("a/other.map".to_string()));
    }
}

#[test]
fn deleting_removes_the_file_and_selects_nothing() {
    let session = at_collision(files(&["notes.map"]));
    let (session, notice, action) = go_on(session.step(line("d")));
    assert_eq!(notice, None);
    assert_eq!(action, Action::RemoveFile("a/notes.map".to_string()));
    assert_eq!(
        session.step(Event::Completed),
        Step::Done {
            notice: Some(Notice::Deleted("a/notes.map".to_string())),
            outcome: Err(Error::FileDeletion),
        }
    );
}

#[test]
fn an_invalid_choice_is_asked_for_again() {
    let session = at_collision(files(&["notes.map"]));
    let (session, notice, action) = go_on(session.step(line("x")));
    assert_eq!(notice, Some(Notice::InvalidInput));
    assert_eq!(
        action,
        Action::ReadLine { prompt: Prompt::Choice, history: None, seed: String::new() }
    );
    let (session, notice, _) = go_on(session.step(line("")));
    assert_eq!(notice, Some(Notice::InvalidInput));
    let (_, _, action) = go_on(session.step(line("r")));
    assert_eq!(action, Action::RemoveFile("a/notes.map".to_string()));
}

#[test]
fn the_end_of_input_at_the_choice_terminates_the_session() {
    let session = at_collision(files(&["notes.map"]));
    assert_eq!(session.step(Event::Input(Input::Eof)), aborted(Error::ManuallyTerminated));
}

#[test]
fn a_failed_read_at_the_choice_ends_the_session() {
    let session = at_collision(files(&["notes.map"]));
    assert_eq!(
        session.step(Event::Input(Input::Failed("gone".to_string()))),
        aborted(Error::Cmd("gone".to_string()))
    );
}

#[test]
fn saving_a_new_sequential_file_leaves_the_row_one_longer() {
    let mut directory = names(&["run_000.map", "run_001.map"]);
    let entries = files(&["run_000.map", "run_001.map"]);
    let session = at_menu(true, entries);
    let (session, _, action) = go_on(session.step(line("run_")));
    let probed = match action {
        Action::ProbeFile(path) => path,
        other => panic!("unexpected request {:?}", other),
    };
    let exists = directory.iter().any(|name| format!("a/{}", name) == probed);
    let path = match session.step(Event::Exists(exists)) {
        Step::Done { outcome: Ok(path), .. } => path,
        other => panic!("unexpected step {:?}", other),
    };
    directory.push(path.strip_prefix("a/").unwrap().to_string());
    assert_eq!(directory, names(&["run_000.map", "run_001.map", "run_002.map"]));
}

#[test]
fn replacing_leaves_exactly_one_file_of_the_name() {
    let mut directory = names(&["notes.map", "other.map"]);
    let session = at_collision(files(&["notes.map", "other.map"]));
    let (session, _, action) = go_on(session.step(line("r")));
    match action {
        Action::RemoveFile(path) => directory.retain(|name| format!("a/{}", name) != path),
        other => panic!("unexpected request {:?}", other),
    }
    assert_eq!(directory, names(&["other.map"]));
    let path = match session.step(Event::Completed) {
        Step::Done { outcome: Ok(path), .. } => path,
        other => panic!("unexpected step {:?}", other),
    };
    directory.push(path.strip_prefix("a/").unwrap().to_string());
    assert_eq!(directory.iter().filter(|name| *name == "notes.map").count(), 1);
}

#[test]
fn a_typed_directory_is_taken_below_the_current_directory() {
    let session = at_menu(true, Vec::new());
    let (session, _, action) = go_on(session.step(line("s/run_000.map")));
    assert_eq!(action, Action::ProbeDir("a/s/".to_string()));
    let (session, _, action) = go_on(session.step(Event::Exists(true)));
    assert_eq!(action, Action::ListDir("a/s/".to_string()));
    let (session, _, action) = go_on(session.step(Event::Listing(Vec::new())));
    assert_eq!(action, Action::ProbeFile("a/s/run_000.map".to_string()));
    assert_eq!(session.step(Event::Exists(false)), selected("a/s/run_000.map"));
}

#[test]
fn a_typed_directory_that_starts_with_the_separator_is_taken_below_as_well() {
    let session = at_menu(true, Vec::new());
    let (_, _, action) = go_on(session.step(line("/tmp/maps/")));
    assert_eq!(action, Action::ProbeDir("a//tmp/maps/".to_string()));
}

#[test]
fn a_typed_directory_named_like_a_default_is_taken_below_the_current_directory() {
    let session = at_menu(true, Vec::new());
    let (_, _, action) = go_on(session.step(line("b/")));
    assert_eq!(action, Action::ProbeDir("a/b/".to_string()));
    let session = at_menu(true, Vec::new());
    let (_, _, action) = go_on(session.step(line("1")));
    assert_eq!(action, Action::ProbeDir("b/".to_string()));
}

#[test]
fn a_selected_path_never_leaves_the_current_directory() {
    let entries = vec![
        DirEntry { name: "x/y.map".to_string(), kind: EntryKind::File },
        DirEntry { name: "notes.map".to_string(), kind: EntryKind::File },
    ];
    let session = at_menu(false, entries);
    assert_eq!(session.files(), &names(&["notes.map"]));
    let (session, _, action) = go_on(session.step(line("2")));
    assert_eq!(action, Action::ProbeFile("a/notes.map".to_string()));
    let path = match session.step(Event::Exists(true)) {
        Step::Done { outcome: Ok(path), .. } => path,
        other => panic!("unexpected step {:?}", other),
    };
    assert_eq!(path.strip_prefix("a/"), Some("notes.map"));
    assert!(!path["a/".len()..].contains('/'));
}
