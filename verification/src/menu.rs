//! The menu that leads the user to a file name.
//!
//! The menu neither reads input nor touches the file system. Each step
//! takes the answer to the last request and returns the next request, until
//! the session ends with a path or with the reason why there is none.

use crate::config::SEQUENTIAL_NAMING_CHAR;
use crate::error::Error;
use crate::laws::{
    lemma_on_choice_sound, lemma_on_line_sound, lemma_on_listing_sound, lemma_open_menu_sound,
    lemma_step_sound, lemma_take_file_sound,
};
use crate::model::{
    base_of, choice_words, confirmation_words, is_directory_path, menu_history, open_menu,
    pending_wf, start, step_sound, valid_name, ActionView, EventView, PhaseView, SessionView,
    StepView,
};
use crate::names::{
    check_extension, check_file_name_len, concat, correct_extension, ensure_separator,
    init_default_paths, normalize_line, separator_free,
};
use crate::notice::Notice;
use crate::parser::{is_index, lemma_parse_file, parse_menu_file};
use crate::prompt::{
    ask_yes_no, check_file_exists, collision_choice, Choice, FileCheck, Input, Prompt,
};
use crate::render::print_menu_options;
use crate::scanner::{
    get_dir_list, get_file_list, lemma_eligible_files, lemma_sub_directories, DirEntry,
};
use crate::sequential::get_sequential_name;
use crate::text::{copy_range, find_first, from_chars, to_chars};
use vstd::prelude::*;

verus! {

/// What the menu asks its surroundings to do. Each request is answered by
/// one [`Event`].
#[derive(Debug, PartialEq, Eq)]
pub enum Action {
    /// Create the directory and those above it; answer `Completed` or
    /// `Failed`.
    CreateDir(String),
    /// List the immediate entries of the directory, none for one that does
    /// not exist; answer `Listing` or `Failed`.
    ListDir(String),
    /// Say whether the directory exists; answer `Exists`.
    ProbeDir(String),
    /// Say whether the file exists; answer `Exists`.
    ProbeFile(String),
    /// Delete the file; answer `Completed` or `Failed`.
    RemoveFile(String),
    /// Move the file `from` to `to`; answer `Completed` or `Failed`.
    RenameFile { from: String, to: String },
    /// Read one line, offered to the user with `seed` filled in; answer
    /// `Input`. Where `history` is given, the recall history of `prompt` is
    /// first emptied and then filled with it, oldest entry first.
    ReadLine { prompt: Prompt, history: Option<Vec<String>>, seed: String },
}

impl View for Action {
    type V = ActionView;

    open spec fn view(&self) -> ActionView {
        match self {
            Action::CreateDir(path) => ActionView::CreateDir(path@),
            Action::ListDir(path) => ActionView::ListDir(path@),
            Action::ProbeDir(path) => ActionView::ProbeDir(path@),
            Action::ProbeFile(path) => ActionView::ProbeFile(path@),
            Action::RemoveFile(path) => ActionView::RemoveFile(path@),
            Action::RenameFile { from, to } => ActionView::RenameFile { from: from@, to: to@ },
            Action::ReadLine { prompt, history, seed } => ActionView::ReadLine {
                prompt: *prompt,
                history: history.deep_view(),
                seed: seed@,
            },
        }
    }
}

/// What the surroundings answer to an [`Action`].
#[derive(Debug, PartialEq, Eq)]
pub enum Event {
    /// The directory was created, or the file deleted or moved.
    Completed,
    /// The file system failed; the text is what it reported.
    Failed(String),
    /// The entries of the listed directory.
    Listing(Vec<DirEntry>),
    /// Whether the directory or file exists.
    Exists(bool),
    /// What reading a line gave.
    Input(Input),
}

impl View for Event {
    type V = EventView;

    open spec fn view(&self) -> EventView {
        match self {
            Event::Completed => EventView::Completed,
            Event::Failed(text) => EventView::Failed(text@),
            Event::Listing(entries) => EventView::Listing(entries.deep_view()),
            Event::Exists(exists) => EventView::Exists(*exists),
            Event::Input(input) => EventView::Input(input@),
        }
    }
}

/// What the menu is waiting for.
#[derive(Debug, PartialEq, Eq)]
enum Phase {
    Opening,
    Listing { pending: Option<String> },
    Reading,
    ProbingDir { target: String, file: Option<String> },
    Confirming { target: String, file: Option<String> },
    Creating { target: String, file: Option<String> },
    ProbingFile { name: String, changed: bool },
    Resolving { name: String, changed: bool },
    Replacing { name: String },
    Moving { name: String },
    Deleting { name: String },
}

impl View for Phase {
    type V = PhaseView;

    closed spec fn view(&self) -> PhaseView {
        match self {
            Phase::Opening => PhaseView::Opening,
            Phase::Listing { pending } => PhaseView::Listing { pending: pending.deep_view() },
            Phase::Reading => PhaseView::Reading,
            Phase::ProbingDir { target, file } => PhaseView::ProbingDir {
                target: target@,
                file: file.deep_view(),
            },
            Phase::Confirming { target, file } => PhaseView::Confirming {
                target: target@,
                file: file.deep_view(),
            },
            Phase::Creating { target, file } => PhaseView::Creating {
                target: target@,
                file: file.deep_view(),
            },
            Phase::ProbingFile { name, changed } => PhaseView::ProbingFile {
                name: name@,
                changed: *changed,
            },
            Phase::Resolving { name, changed } => PhaseView::Resolving {
                name: name@,
                changed: *changed,
            },
            Phase::Replacing { name } => PhaseView::Replacing { name: name@ },
            Phase::Moving { name } => PhaseView::Moving { name: name@ },
            Phase::Deleting { name } => PhaseView::Deleting { name: name@ },
        }
    }
}

/// What the menu holds whatever it is waiting for.
#[derive(Debug, PartialEq, Eq)]
struct Core {
    is_saving: bool,
    defaults: Vec<String>,
    current_dir: String,
    listed_dir: String,
    sub_dirs: Vec<String>,
    files: Vec<String>,
    seed: String,
}

impl Core {
    /// The session that holds this and waits for `phase`.
    spec fn with(self, phase: PhaseView) -> SessionView {
        SessionView {
            is_saving: self.is_saving,
            defaults: self.defaults.deep_view(),
            current_dir: self.current_dir@,
            listed_dir: self.listed_dir@,
            sub_dirs: self.sub_dirs.deep_view(),
            files: self.files.deep_view(),
            seed: self.seed@,
            phase,
        }
    }

    /// The session that holds this and waits for a line at the menu.
    spec fn reading(self) -> SessionView {
        self.with(PhaseView::Reading)
    }
}

/// A session of the menu between two requests.
#[derive(Debug, PartialEq, Eq)]
pub struct Session {
    core: Core,
    phase: Phase,
}

impl View for Session {
    type V = SessionView;

    closed spec fn view(&self) -> SessionView {
        self.core.with(self.phase@)
    }
}

/// What a step of the menu leads to.
#[derive(Debug, PartialEq, Eq)]
pub enum Step {
    /// The session goes on: show the notice, carry out the action, and hand
    /// its answer to the next step.
    Next { session: Session, notice: Option<Notice>, action: Action },
    /// The session is over, with the path of the selected file or the
    /// reason why there is none.
    Done { notice: Option<Notice>, outcome: Result<String, Error> },
}

impl View for Step {
    type V = StepView;

    open spec fn view(&self) -> StepView {
        match self {
            Step::Next { session, notice, action } => StepView::Next {
                session: session@,
                notice: notice.deep_view(),
                action: action@,
            },
            Step::Done { notice, outcome } => StepView::Done {
                notice: notice.deep_view(),
                outcome: match outcome {
                    Ok(path) => Ok(path@),
                    Err(e) => Err(e@),
                },
            },
        }
    }
}

/// Adds `word` at the end of `list`.
fn push_word(list: &mut Vec<String>, word: String)
    ensures
        final(list).deep_view() == old(list).deep_view().push(word@),
{
    list.push(word);
}

/// The words that the question about a directory can be answered with.
fn confirmation_history() -> (list: Vec<String>)
    ensures
        list.deep_view() == confirmation_words(),
{
    let mut list: Vec<String> = Vec::new();
    proof {
        reveal_strlit("y");
        reveal_strlit("yes");
        reveal_strlit("n");
        reveal_strlit("no");
        assert("y"@ =~= seq!['y']);
        assert("yes"@ =~= seq!['y', 'e', 's']);
        assert("n"@ =~= seq!['n']);
        assert("no"@ =~= seq!['n', 'o']);
    }
    push_word(&mut list, "y".to_owned());
    push_word(&mut list, "yes".to_owned());
    push_word(&mut list, "n".to_owned());
    push_word(&mut list, "no".to_owned());
    list
}

/// The letters that the choice about an existing file is made with.
fn choice_history() -> (list: Vec<String>)
    ensures
        list.deep_view() == choice_words(),
{
    let mut list: Vec<String> = Vec::new();
    proof {
        reveal_strlit("r");
        reveal_strlit("m");
        reveal_strlit("c");
        reveal_strlit("n");
        reveal_strlit("d");
        assert("r"@ =~= seq!['r']);
        assert("m"@ =~= seq!['m']);
        assert("c"@ =~= seq!['c']);
        assert("n"@ =~= seq!['n']);
        assert("d"@ =~= seq!['d']);
    }
    push_word(&mut list, "r".to_owned());
    push_word(&mut list, "m".to_owned());
    push_word(&mut list, "c".to_owned());
    push_word(&mut list, "n".to_owned());
    push_word(&mut list, "d".to_owned());
    list
}

/// A list of its own with the texts of `list`.
fn copy_of(list: &[String]) -> (copy: Vec<String>)
    ensures
        copy.deep_view() == list.deep_view(),
{
    let mut copy: Vec<String> = Vec::new();
    let mut i: usize = 0;
    while i < list.len()
        invariant
            i <= list.len(),
            copy.deep_view() == list.deep_view().take(i as int),
        decreases list.len() - i,
    {
        push_word(&mut copy, list[i].clone());
        i += 1;
    }
    copy
}

/// The recall history of the menu, oldest entry first: the files from the
/// last to the first, then the default directories from the last to the
/// first.
pub(crate) fn history_entries(files: &[String], defaults: &[String]) -> (list: Vec<String>)
    ensures
        list.deep_view() == menu_history(files.deep_view(), defaults.deep_view()),
{
    let mut list: Vec<String> = Vec::new();
    let ghost f = files.deep_view();
    let ghost d = defaults.deep_view();
    let mut i: usize = files.len();
    while i > 0
        invariant
            i <= files.len(),
            f == files.deep_view(),
            list.deep_view() == f.reverse().take(files.len() - i),
        decreases i,
    {
        i -= 1;
        push_word(&mut list, files[i].clone());
    }
    let mut i: usize = defaults.len();
    while i > 0
        invariant
            i <= defaults.len(),
            d == defaults.deep_view(),
            list.deep_view() == f.reverse() + d.reverse().take(defaults.len() - i),
        decreases i,
    {
        i -= 1;
        push_word(&mut list, defaults[i].clone());
    }
    list
}

/// The error that an answer stands for where the menu was waiting for
/// another.
fn fault(event: Event) -> (e: Error)
    ensures
        e@ == crate::model::fault(event@),
{
    match event {
        Event::Failed(text) => Error::Io(text),
        Event::Input(Input::Failed(text)) => Error::Cmd(text),
        _ => Error::Io("FILE MNG :: unexpected answer to a request".to_owned()),
    }
}

/// The end of the session with the error `e`.
fn abort(e: Error) -> (r: Step)
    ensures
        r@ == crate::model::abort(e@),
{
    Step::Done { notice: None, outcome: Err(e) }
}

impl Session {
    /// Every session is well-formed.
    #[verifier::type_invariant]
    spec fn inv(self) -> bool {
        self@.wf()
    }
}

/// Asks for a line at the menu, showing `notice` first.
fn prompt(core: Core, notice: Option<Notice>) -> (r: Step)
    requires
        core.reading().wf(),
    ensures
        r@ == core.reading().prompt(notice.deep_view()),
{
    let seed = core.seed.clone();
    Step::Next {
        session: Session { core, phase: Phase::Reading },
        notice,
        action: Action::ReadLine { prompt: Prompt::Menu, history: None, seed },
    }
}

/// Asks for the listing of the current directory, showing `notice` first.
fn relist(core: Core, pending: Option<String>, notice: Option<Notice>) -> (r: Step)
    requires
        core.with(PhaseView::Opening).wf(),
        pending_wf(pending.deep_view()),
    ensures
        r@ == core.reading().relist(pending.deep_view(), notice.deep_view()),
{
    let path = core.current_dir.clone();
    Step::Next {
        session: Session { core, phase: Phase::Listing { pending } },
        notice,
        action: Action::ListDir(path),
    }
}

/// Asks for another line: through a fresh listing where the directory
/// changed, at once where it did not.
fn reprompt(core: Core, changed: bool, notice: Option<Notice>) -> (r: Step)
    requires
        core.reading().wf(),
    ensures
        r@ == core.reading().reprompt(changed, notice.deep_view()),
{
    if changed {
        relist(core, None, notice)
    } else {
        prompt(core, notice)
    }
}

/// Makes `target` the current directory and asks for its listing.
fn adopt(core: Core, target: String, file: Option<String>) -> (r: Step)
    requires
        core.with(PhaseView::Opening).wf(),
        is_directory_path(target@),
        pending_wf(file.deep_view()),
    ensures
        r@ == core.reading().adopt(target@, file.deep_view()),
{
    let seed = match &file {
        Some(_) => core.seed,
        None => String::new(),
    };
    let core = Core {
        is_saving: core.is_saving,
        defaults: core.defaults,
        current_dir: target,
        listed_dir: core.listed_dir,
        sub_dirs: core.sub_dirs,
        files: core.files,
        seed,
    };
    relist(core, file, None)
}

/// Goes on with the file name `file`.
fn take_file(core: Core, file: String, changed: bool) -> (r: Step)
    requires
        core.reading().wf(),
        separator_free(file@),
    ensures
        r@ == core.reading().take_file(file@, changed),
{
    proof {
        lemma_take_file_sound(core.reading(), file@, changed);
    }
    let chars = to_chars(file.as_str());
    let given: String = if chars.len() > 0 && chars[chars.len() - 1] == SEQUENTIAL_NAMING_CHAR {
        match get_sequential_name(&core.files, file.as_str(), core.is_saving) {
            Ok(name) => name,
            Err(_) => {
                return abort(Error::InvalidSequentialName);
            },
        }
    } else {
        file
    };
    match check_extension(given.as_str()) {
        Err(_) => {
            let seed = correct_extension(given.as_str());
            let core = Core {
                is_saving: core.is_saving,
                defaults: core.defaults,
                current_dir: core.current_dir,
                listed_dir: core.listed_dir,
                sub_dirs: core.sub_dirs,
                files: core.files,
                seed,
            };
            reprompt(core, changed, Some(Notice::ExtensionCorrected))
        },
        Ok(name) => match check_file_name_len(name.as_str()) {
            Ok(_) => {
                let path = path_of(&core, name.as_str());
                Step::Next {
                    session: Session { core, phase: Phase::ProbingFile { name, changed } },
                    notice: None,
                    action: Action::ProbeFile(path),
                }
            },
            Err(_) => abort(Error::InvalidNameTooLong),
        },
    }
}

/// The step on the listing of the current directory.
fn on_listing(core: Core, pending: Option<String>, event: Event) -> (r: Step)
    requires
        core.with(PhaseView::Opening).wf(),
        pending_wf(pending.deep_view()),
    ensures
        r@ == core.reading().on_listing(pending.deep_view(), event@),
{
    proof {
        lemma_on_listing_sound(core.with(PhaseView::Opening), pending.deep_view(), event@);
    }
    match event {
        Event::Listing(entries) => {
            let sub_dirs = get_dir_list(&entries);
            let files = get_file_list(&entries);
            let listed_dir = core.current_dir.clone();
            let core = Core {
                is_saving: core.is_saving,
                defaults: core.defaults,
                current_dir: core.current_dir,
                listed_dir,
                sub_dirs,
                files,
                seed: core.seed,
            };
            proof {
                lemma_eligible_files(entries.deep_view());
                lemma_sub_directories(entries.deep_view());
            }
            match pending {
                Some(file) => take_file(core, file, true),
                None => {
                    let text = print_menu_options(
                        core.current_dir.as_str(),
                        core.defaults.as_slice(),
                        core.sub_dirs.as_slice(),
                        core.files.as_slice(),
                    );
                    let history = history_entries(core.files.as_slice(), core.defaults.as_slice());
                    let seed = core.seed.clone();
                    Step::Next {
                        session: Session { core, phase: Phase::Reading },
                        notice: Some(Notice::Menu(text)),
                        action: Action::ReadLine {
                            prompt: Prompt::Menu,
                            history: Some(history),
                            seed,
                        },
                    }
                },
            }
        },
        other => abort(fault(other)),
    }
}

/// The same core with an empty seed.
fn without_seed(core: Core) -> (r: Core)
    ensures
        forall|phase: PhaseView|
            #[trigger] r.with(phase) == (SessionView { seed: Seq::empty(), ..core.with(phase) }),
{
    Core {
        is_saving: core.is_saving,
        defaults: core.defaults,
        current_dir: core.current_dir,
        listed_dir: core.listed_dir,
        sub_dirs: core.sub_dirs,
        files: core.files,
        seed: String::new(),
    }
}

/// The step on a line at the menu.
fn on_line(core: Core, event: Event) -> (r: Step)
    requires
        core.reading().wf(),
    ensures
        r@ == core.reading().on_line(event@),
{
    proof {
        lemma_on_line_sound(core.reading(), event@);
    }
    match event {
        Event::Input(Input::Line(raw)) => {
            let line = normalize_line(raw.as_str());
            let selected = match parse_menu_file(
                core.current_dir.as_str(),
                line.as_str(),
                core.defaults.as_slice(),
                core.sub_dirs.as_slice(),
                core.files.as_slice(),
            ) {
                Ok(parts) => parts,
                Err(e) => {
                    return abort(e);
                },
            };
            proof {
                lemma_parse_file(
                    core.current_dir@,
                    line@,
                    core.defaults.deep_view(),
                    core.sub_dirs.deep_view(),
                    core.files.deep_view(),
                );
            }
            match selected.0 {
                Some(directory) => {
                    let target = if is_index(line.as_str()) {
                        directory
                    } else {
                        concat(core.current_dir.as_str(), directory.as_str())
                    };
                    let path = target.clone();
                    Step::Next {
                        session: Session {
                            core,
                            phase: Phase::ProbingDir { target, file: selected.1 },
                        },
                        notice: None,
                        action: Action::ProbeDir(path),
                    }
                },
                None => match selected.1 {
                    Some(file) => take_file(core, file, false),
                    None => {
                        let empty = to_chars(line.as_str()).len() == 0;
                        let notice = if empty {
                            Notice::EmptyInput
                        } else {
                            Notice::OutOfRange(line)
                        };
                        prompt(without_seed(core), Some(notice))
                    },
                },
            }
        },
        Event::Input(Input::Interrupted) => prompt(without_seed(core), None),
        Event::Input(Input::Eof) => abort(Error::ManuallyTerminated),
        other => abort(fault(other)),
    }
}

/// The step on the answer whether the directory `target` exists.
fn on_dir_probe(core: Core, target: String, file: Option<String>, event: Event) -> (r: Step)
    requires
        core.reading().wf(),
        is_directory_path(target@),
        pending_wf(file.deep_view()),
    ensures
        r@ == core.reading().on_dir_probe(target@, file.deep_view(), event@),
{
    match event {
        Event::Exists(exists) => {
            if exists {
                adopt(core, target, file)
            } else if core.is_saving {
                let path = target.clone();
                Step::Next {
                    session: Session { core, phase: Phase::Confirming { target, file } },
                    notice: Some(Notice::CreateDirectory(path)),
                    action: Action::ReadLine {
                        prompt: Prompt::Confirmation,
                        history: Some(confirmation_history()),
                        seed: String::new(),
                    },
                }
            } else {
                prompt(core, Some(Notice::DirectoryMissing(target)))
            }
        },
        other => abort(fault(other)),
    }
}

/// The step on the answer whether the directory `target` is to be created.
fn on_confirmation(core: Core, target: String, file: Option<String>, event: Event) -> (r: Step)
    requires
        core.reading().wf(),
        is_directory_path(target@),
        pending_wf(file.deep_view()),
    ensures
        r@ == core.reading().on_confirmation(target@, file.deep_view(), event@),
{
    match event {
        Event::Input(input) => {
            match ask_yes_no(&input) {
                Ok(_) => {
                    let path = target.clone();
                    Step::Next {
                        session: Session { core, phase: Phase::Creating { target, file } },
                        notice: None,
                        action: Action::CreateDir(path),
                    }
                },
                Err(Error::ManuallyTerminated) => abort(Error::ManuallyTerminated),
                Err(_) => prompt(core, Some(Notice::DirectoryNotCreated)),
            }
        },
        other => abort(fault(other)),
    }
}

/// The path of the file `name` in the current directory.
fn path_of(core: &Core, name: &str) -> (path: String)
    ensures
        path@ == core.current_dir@ + name@,
{
    concat(core.current_dir.as_str(), name)
}

/// The step on the answer whether the file `name` exists.
fn on_file_probe(core: Core, name: String, changed: bool, event: Event) -> (r: Step)
    requires
        core.reading().wf(),
        valid_name(name@),
    ensures
        r@ == core.reading().on_file_probe(name@, changed, event@),
{
    match event {
        Event::Exists(exists) => {
            let path = path_of(&core, name.as_str());
            match check_file_exists(exists, core.is_saving) {
                FileCheck::Accepted => Step::Done { notice: None, outcome: Ok(path) },
                FileCheck::Collision => Step::Next {
                    session: Session { core, phase: Phase::Resolving { name, changed } },
                    notice: Some(Notice::Collision(path)),
                    action: Action::ReadLine {
                        prompt: Prompt::Choice,
                        history: Some(choice_history()),
                        seed: String::new(),
                    },
                },
                FileCheck::Missing => reprompt(
                    without_seed(core),
                    changed,
                    Some(Notice::MissingWhileLoading(path)),
                ),
            }
        },
        other => abort(fault(other)),
    }
}

/// The base from which the names beside `name` are counted.
fn base_name(name: &str) -> (base: String)
    ensures
        base@ == base_of(name@),
{
    let v = to_chars(name);
    let dot = find_first(v.as_slice(), '.');
    let mut base = copy_range(v.as_slice(), 0, dot);
    base.push(SEQUENTIAL_NAMING_CHAR);
    from_chars(base.as_slice())
}

/// The step on the choice `choice` about the existing file `name`.
fn on_choice(core: Core, name: String, changed: bool, choice: Choice) -> (r: Step)
    requires
        core.reading().wf(),
        valid_name(name@),
    ensures
        r@ == core.with(PhaseView::Resolving { name: name@, changed }).on_choice(
            name@,
            changed,
            choice,
        ),
{
    proof {
        lemma_on_choice_sound(
            core.with(PhaseView::Resolving { name: name@, changed }),
            name@,
            changed,
            choice,
        );
    }
    let path = path_of(&core, name.as_str());
    match choice {
        Choice::Replace => {
            let shown = path.clone();
            Step::Next {
                session: Session { core, phase: Phase::Replacing { name } },
                notice: Some(Notice::Replacing(shown)),
                action: Action::RemoveFile(path),
            }
        },
        Choice::MoveExisting => {
            let base = base_name(name.as_str());
            match get_sequential_name(&core.files, base.as_str(), true) {
                Ok(other) => {
                    let to = path_of(&core, other.as_str());
                    let from = path.clone();
                    let shown = to.clone();
                    Step::Next {
                        session: Session { core, phase: Phase::Moving { name } },
                        notice: Some(Notice::Renaming { from, to: shown }),
                        action: Action::RenameFile { from: path, to },
                    }
                },
                Err(_) => abort(Error::InvalidSequentialName),
            }
        },
        Choice::TakeSequential => {
            let base = base_name(name.as_str());
            match get_sequential_name(&core.files, base.as_str(), true) {
                Ok(other) => match check_file_name_len(other.as_str()) {
                    Ok(_) => Step::Done {
                        notice: None,
                        outcome: Ok(path_of(&core, other.as_str())),
                    },
                    Err(_) => abort(Error::InvalidNameTooLong),
                },
                Err(_) => abort(Error::InvalidSequentialName),
            }
        },
        Choice::NewName => reprompt(without_seed(core), changed, Some(Notice::NewNameWanted)),
        Choice::Delete => Step::Next {
            session: Session { core, phase: Phase::Deleting { name } },
            notice: None,
            action: Action::RemoveFile(path),
        },
        Choice::Invalid => Step::Next {
            session: Session { core, phase: Phase::Resolving { name, changed } },
            notice: Some(Notice::InvalidInput),
            action: Action::ReadLine {
                prompt: Prompt::Choice,
                history: None,
                seed: String::new(),
            },
        },
    }
}

/// The step on what was read for the choice about the existing file
/// `name`.
fn on_resolution(core: Core, name: String, changed: bool, event: Event) -> (r: Step)
    requires
        core.reading().wf(),
        valid_name(name@),
    ensures
        r@ == core.with(PhaseView::Resolving { name: name@, changed }).on_resolution(
            name@,
            changed,
            event@,
        ),
{
    match event {
        Event::Input(Input::Line(text)) => {
            let choice = collision_choice(text.as_str());
            on_choice(core, name, changed, choice)
        },
        Event::Input(Input::Interrupted) => on_choice(core, name, changed, Choice::NewName),
        Event::Input(Input::Eof) => abort(Error::ManuallyTerminated),
        other => abort(fault(other)),
    }
}

/// Opens the menu in the directory `current_path`, with the default
/// directories `paths`, for saving or for loading.
///
/// Returns the first step: the directory, with the path separator at its
/// end, becomes the current directory, and its creation is asked for.
pub fn file_name_menu(current_path: String, paths: &[String], is_saving: bool) -> (r: Step)
    ensures
        r@ == open_menu(current_path@, paths.deep_view(), is_saving),
        r is Next,
        r->session@.wf(),
{
    proof {
        lemma_open_menu_sound(current_path@, paths.deep_view(), is_saving);
    }
    let current_dir = ensure_separator(current_path.as_str());
    let path = current_dir.clone();
    let core = Core {
        is_saving,
        defaults: copy_of(paths),
        current_dir,
        listed_dir: String::new(),
        sub_dirs: Vec::new(),
        files: Vec::new(),
        seed: String::new(),
    };
    assert(core.files.deep_view() =~= Seq::<Seq<char>>::empty());
    Step::Next {
        session: Session { core, phase: Phase::Opening },
        notice: None,
        action: Action::CreateDir(path),
    }
}

/// Begins a session: for saving if `is_saving`, else for loading, with the
/// default directories that the caller supplies or the built-in one.
///
/// Returns the first step, which opens the menu in the first default
/// directory.
pub fn run_save_file_menu_with_errors(is_saving: bool, default_dirs: Option<Vec<String>>) -> (r:
    Step)
    ensures
        r@ == start(is_saving, default_dirs.deep_view()),
        r is Next,
        r->session@.wf(),
{
    let (default_path, paths) = init_default_paths(default_dirs);
    file_name_menu(default_path, paths.as_slice(), is_saving)
}

impl Session {
    /// Whether the file is selected for writing.
    pub fn is_saving(&self) -> (r: bool)
        ensures
            r == self@.is_saving,
    {
        self.core.is_saving
    }

    /// The current directory.
    pub fn current_dir(&self) -> (r: &String)
        ensures
            r@ == self@.current_dir,
    {
        &self.core.current_dir
    }

    /// The default directories.
    pub fn default_dirs(&self) -> (r: &Vec<String>)
        ensures
            r.deep_view() == self@.defaults,
    {
        &self.core.defaults
    }

    /// The sub-directories that were listed last.
    pub fn sub_dirs(&self) -> (r: &Vec<String>)
        ensures
            r.deep_view() == self@.sub_dirs,
    {
        &self.core.sub_dirs
    }

    /// The eligible files that were listed last.
    pub fn files(&self) -> (r: &Vec<String>)
        ensures
            r.deep_view() == self@.files,
    {
        &self.core.files
    }

    /// The text that the next line at the menu is offered with.
    pub fn seed(&self) -> (r: &String)
        ensures
            r@ == self@.seed,
    {
        &self.core.seed
    }

    /// The step of the menu: takes the answer to the last request and
    /// returns what comes next.
    ///
    /// The result is what the model gives for this session and answer, and
    /// it is sound: a session that goes on is well-formed, a path that is
    /// handed out is a valid file name in the current directory, and the
    /// session ends without a path only on an error that ends sessions.
    pub fn step(self, event: Event) -> (r: Step)
        ensures
            r@ == self@.step(event@),
            self@.wf(),
            step_sound(self@, r@),
    {
        proof {
            use_type_invariant(&self);
            lemma_step_sound(self@, event@);
        }
        let Session { core, phase } = self;
        match phase {
            Phase::Opening => match event {
                Event::Completed => relist(core, None, None),
                other => abort(fault(other)),
            },
            Phase::Listing { pending } => on_listing(core, pending, event),
            Phase::Reading => on_line(core, event),
            Phase::ProbingDir { target, file } => on_dir_probe(core, target, file, event),
            Phase::Confirming { target, file } => on_confirmation(core, target, file, event),
            Phase::Creating { target, file } => match event {
                Event::Completed => adopt(core, target, file),
                other => abort(fault(other)),
            },
            Phase::ProbingFile { name, changed } => on_file_probe(core, name, changed, event),
            Phase::Resolving { name, changed } => on_resolution(core, name, changed, event),
            Phase::Replacing { name } => match event {
                Event::Completed => Step::Done {
                    notice: None,
                    outcome: Ok(path_of(&core, name.as_str())),
                },
                other => abort(fault(other)),
            },
            Phase::Moving { name } => match event {
                Event::Completed => Step::Done {
                    notice: None,
                    outcome: Ok(path_of(&core, name.as_str())),
                },
                other => abort(fault(other)),
            },
            Phase::Deleting { name } => match event {
                Event::Completed => Step::Done {
                    notice: Some(Notice::Deleted(path_of(&core, name.as_str()))),
                    outcome: Err(Error::FileDeletion),
                },
                other => abort(fault(other)),
            },
        }
    }
}

} // verus!
