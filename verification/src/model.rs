//! The menu as a state machine over plain values: what it holds, what it
//! is told, what it asks for, and how one leads to the next.

use crate::config::{dot_extension, PATH_SEPARATOR, SEQUENTIAL_NAMING_CHAR};
use crate::error::{Error, ErrorView};
use crate::names::{
    accepted_name, corrected_name, default_paths, name_fits, normalize, separator_free, stem_of,
    with_separator,
};
use crate::notice::NoticeView;
use crate::parser::{index_text, parse};
use crate::prompt::{
    choice_of, confirmation, file_check, Choice, FileCheck, InputView, Prompt,
};
use crate::render::menu_text;
use crate::scanner::{eligible_files, is_eligible, sub_directories, DirEntryView};
use crate::sequential::derived_name;
use crate::text::ends_with;
use vstd::prelude::*;

verus! {

/// What the menu asks its surroundings to do. Each request is answered by
/// one event.
pub enum ActionView {
    /// Create the directory and those above it.
    CreateDir(Seq<char>),
    /// List the immediate entries of the directory; one that does not
    /// exist has none.
    ListDir(Seq<char>),
    /// Say whether the directory exists.
    ProbeDir(Seq<char>),
    /// Say whether the file exists.
    ProbeFile(Seq<char>),
    /// Delete the file.
    RemoveFile(Seq<char>),
    /// Move the file `from` to `to`.
    RenameFile { from: Seq<char>, to: Seq<char> },
    /// Read one line, offered to the user with `seed` filled in. Where
    /// `history` is given, the recall history of `prompt` is first emptied
    /// and then filled with it, oldest entry first.
    ReadLine { prompt: Prompt, history: Option<Seq<Seq<char>>>, seed: Seq<char> },
}

/// What the surroundings answer.
pub enum EventView {
    /// The directory was created, or the file deleted or moved.
    Completed,
    /// The file system failed; the text is what it reported.
    Failed(Seq<char>),
    /// The entries of the listed directory.
    Listing(Seq<DirEntryView>),
    /// Whether the directory or file exists.
    Exists(bool),
    /// What reading a line gave.
    Input(InputView),
}

/// What the menu is waiting for.
pub enum PhaseView {
    /// The creation of the directory it starts in.
    Opening,
    /// The listing of the current directory. `pending` is a file name that
    /// came on the same line as the directory.
    Listing { pending: Option<Seq<char>> },
    /// A line at the menu.
    Reading,
    /// Whether the directory `target` exists.
    ProbingDir { target: Seq<char>, file: Option<Seq<char>> },
    /// Whether the directory `target` is to be created.
    Confirming { target: Seq<char>, file: Option<Seq<char>> },
    /// The creation of the directory `target`.
    Creating { target: Seq<char>, file: Option<Seq<char>> },
    /// Whether the file `name` exists in the current directory. `changed`
    /// says that the directory changed on the same line.
    ProbingFile { name: Seq<char>, changed: bool },
    /// The choice about the existing file `name`.
    Resolving { name: Seq<char>, changed: bool },
    /// The deletion of the file that `name` replaces.
    Replacing { name: Seq<char> },
    /// The move of the existing file `name` to a sequential name.
    Moving { name: Seq<char> },
    /// The deletion of the file `name`, after which nothing is selected.
    Deleting { name: Seq<char> },
}

/// What the menu holds between two requests.
pub struct SessionView {
    /// Whether the file is selected for writing.
    pub is_saving: bool,
    /// The default directories.
    pub defaults: Seq<Seq<char>>,
    /// The current directory.
    pub current_dir: Seq<char>,
    /// The directory that `sub_dirs` and `files` were listed from.
    pub listed_dir: Seq<char>,
    /// The sub-directories of `listed_dir`.
    pub sub_dirs: Seq<Seq<char>>,
    /// The eligible files of `listed_dir`.
    pub files: Seq<Seq<char>>,
    /// The text that the next line at the menu is offered with.
    pub seed: Seq<char>,
    /// What the menu is waiting for.
    pub phase: PhaseView,
}

/// What a step of the menu leads to.
pub enum StepView {
    /// The session goes on: the notice is shown, the action carried out,
    /// and its answer handed to the next step.
    Next { session: SessionView, notice: Option<NoticeView>, action: ActionView },
    /// The session is over, with the path of the selected file or the
    /// reason why there is none.
    Done { notice: Option<NoticeView>, outcome: Result<Seq<char>, ErrorView> },
}

/// The words that the question about a directory can be answered with.
pub open spec fn confirmation_words() -> Seq<Seq<char>> {
    seq![seq!['y'], seq!['y', 'e', 's'], seq!['n'], seq!['n', 'o']]
}

/// The letters that the choice about an existing file is made with.
pub open spec fn choice_words() -> Seq<Seq<char>> {
    seq![seq!['r'], seq!['m'], seq!['c'], seq!['n'], seq!['d']]
}

/// The recall history of the menu, oldest entry first: the files from the
/// last to the first, then the default directories from the last to the
/// first. The first default directory is recalled first.
pub open spec fn menu_history(files: Seq<Seq<char>>, defaults: Seq<Seq<char>>) -> Seq<Seq<char>> {
    files.reverse() + defaults.reverse()
}

/// The text shown for an answer that the menu was not waiting for.
pub open spec fn unexpected_answer() -> Seq<char> {
    "FILE MNG :: unexpected answer to a request"@
}

/// The error that an answer stands for where the menu was waiting for
/// another.
pub open spec fn fault(event: EventView) -> ErrorView {
    match event {
        EventView::Failed(text) => ErrorView::Io(text),
        EventView::Input(InputView::Failed(text)) => ErrorView::Cmd(text),
        _ => ErrorView::Io(unexpected_answer()),
    }
}

/// The end of the session with the error `e`.
pub open spec fn abort(e: ErrorView) -> StepView {
    StepView::Done { notice: None, outcome: Err(e) }
}

/// The base from which the names beside `name` are counted: what stands
/// before its first period, and the sequential-naming character.
pub open spec fn base_of(name: Seq<char>) -> Seq<char> {
    stem_of(name).push(SEQUENTIAL_NAMING_CHAR)
}

/// A file name that the menu hands out: it holds no path separator, has
/// the managed extension and is not too long.
pub open spec fn valid_name(name: Seq<char>) -> bool {
    separator_free(name) && ends_with(name, dot_extension()) && name_fits(name)
}

/// A file name that waits for its directory holds no path separator.
pub open spec fn pending_wf(file: Option<Seq<char>>) -> bool {
    match file {
        Some(name) => separator_free(name),
        None => true,
    }
}

/// `path` is the directory `dir` followed by a valid file name: nothing
/// behind `dir` leads into another directory.
pub open spec fn resolved_in(dir: Seq<char>, path: Seq<char>) -> bool {
    exists|name: Seq<char>| path == dir + name && #[trigger] valid_name(name)
}

/// `dir` ends in the path separator.
pub open spec fn is_directory_path(dir: Seq<char>) -> bool {
    dir.len() > 0 && dir.last() == PATH_SEPARATOR
}

/// What holds of every listing: the sub-directories end in the separator
/// and the files are eligible.
pub open spec fn listing_wf(sub_dirs: Seq<Seq<char>>, files: Seq<Seq<char>>) -> bool {
    &&& forall|i: int| 0 <= i < sub_dirs.len() ==> is_directory_path(#[trigger] sub_dirs[i])
    &&& forall|i: int| 0 <= i < files.len() ==> is_eligible(#[trigger] files[i])
}

impl SessionView {
    /// What holds of the session at every step: directories end in the
    /// separator; the listed files are eligible; while a line is read or a
    /// file looked at, the listing is that of the current directory; a
    /// file name that waits for its directory holds no separator; and a
    /// file name that is looked at is valid.
    pub open spec fn wf(self) -> bool {
        &&& is_directory_path(self.current_dir)
        &&& listing_wf(self.sub_dirs, self.files)
        &&& match self.phase {
            PhaseView::Opening => true,
            PhaseView::Listing { pending } => pending_wf(pending),
            PhaseView::Reading => self.listed_dir == self.current_dir,
            PhaseView::ProbingDir { target, file } => self.listed_dir == self.current_dir
                && is_directory_path(target) && pending_wf(file),
            PhaseView::Confirming { target, file } => self.listed_dir == self.current_dir
                && is_directory_path(target) && pending_wf(file),
            PhaseView::Creating { target, file } => self.listed_dir == self.current_dir
                && is_directory_path(target) && pending_wf(file),
            PhaseView::ProbingFile { name, .. } => self.listed_dir == self.current_dir
                && valid_name(name),
            PhaseView::Resolving { name, .. } => self.listed_dir == self.current_dir
                && valid_name(name),
            PhaseView::Replacing { name } => self.listed_dir == self.current_dir && valid_name(
                name,
            ),
            PhaseView::Moving { name } => self.listed_dir == self.current_dir && valid_name(name),
            PhaseView::Deleting { name } => self.listed_dir == self.current_dir && valid_name(
                name,
            ),
        }
    }

    /// The path of the file `name` in the current directory.
    pub open spec fn path_of(self, name: Seq<char>) -> Seq<char> {
        self.current_dir + name
    }

    /// The directory that `line` asks for, given the directory `selected`
    /// that the parser reads from it: a directory that was typed is taken
    /// below the current directory, and a candidate that was picked by its
    /// number stands as the parser gives it.
    pub open spec fn target_of(self, line: Seq<char>, selected: Seq<char>) -> Seq<char> {
        if index_text(line) is None {
            self.current_dir + selected
        } else {
            selected
        }
    }

    /// Asks for a line at the menu, showing `notice` first.
    pub open spec fn prompt(self, notice: Option<NoticeView>) -> StepView {
        StepView::Next {
            session: SessionView { phase: PhaseView::Reading, ..self },
            notice,
            action: ActionView::ReadLine { prompt: Prompt::Menu, history: None, seed: self.seed },
        }
    }

    /// Asks for the listing of the current directory, showing `notice`
    /// first. `pending` is a file name to go on with once the listing is
    /// there.
    pub open spec fn relist(self, pending: Option<Seq<char>>, notice: Option<NoticeView>) -> StepView {
        StepView::Next {
            session: SessionView { phase: PhaseView::Listing { pending }, ..self },
            notice,
            action: ActionView::ListDir(self.current_dir),
        }
    }

    /// Asks for another line: through a fresh listing where the directory
    /// changed, at once where it did not.
    pub open spec fn reprompt(self, changed: bool, notice: Option<NoticeView>) -> StepView {
        if changed {
            self.relist(None, notice)
        } else {
            self.prompt(notice)
        }
    }

    /// Makes `target` the current directory and asks for its listing. The
    /// seed is cleared unless a file name came with the directory.
    pub open spec fn adopt(self, target: Seq<char>, file: Option<Seq<char>>) -> StepView {
        SessionView {
            current_dir: target,
            seed: if file is None {
                Seq::empty()
            } else {
                self.seed
            },
            ..self
        }.relist(file, None)
    }

    /// Takes the listing of the current directory and shows the menu.
    pub open spec fn show_menu(self) -> StepView {
        StepView::Next {
            session: SessionView { phase: PhaseView::Reading, ..self },
            notice: Some(
                NoticeView::Menu(
                    menu_text(self.current_dir, self.defaults, self.sub_dirs, self.files),
                ),
            ),
            action: ActionView::ReadLine {
                prompt: Prompt::Menu,
                history: Some(menu_history(self.files, self.defaults)),
                seed: self.seed,
            },
        }
    }

    /// Goes on with the file name `file`.
    ///
    /// A name that ends in the sequential-naming character is expanded: to
    /// the next name of its row when saving, to the last when loading; the
    /// session ends where the counter would exceed the maximum. A name
    /// without a period gets the extension. A name with another extension
    /// is not accepted: the seed becomes what stands before its first
    /// period, with the managed extension, and another line is asked for.
    /// A name that is too long ends the session. Any other name is looked
    /// for in the current directory.
    pub open spec fn take_file(self, file: Seq<char>, changed: bool) -> StepView {
        let expanded = if file.len() > 0 && file.last() == SEQUENTIAL_NAMING_CHAR {
            derived_name(self.files, file, self.is_saving)
        } else {
            Some(file)
        };
        match expanded {
            None => abort(ErrorView::InvalidSequentialName),
            Some(given) => match accepted_name(given) {
                None => SessionView { seed: corrected_name(given), ..self }.reprompt(
                    changed,
                    Some(NoticeView::ExtensionCorrected),
                ),
                Some(name) => if name_fits(name) {
                    StepView::Next {
                        session: SessionView {
                            phase: PhaseView::ProbingFile { name, changed },
                            ..self
                        },
                        notice: None,
                        action: ActionView::ProbeFile(self.path_of(name)),
                    }
                } else {
                    abort(ErrorView::InvalidNameTooLong)
                },
            },
        }
    }

    /// The step on the listing of the current directory.
    pub open spec fn on_listing(self, pending: Option<Seq<char>>, event: EventView) -> StepView {
        match event {
            EventView::Listing(entries) => {
                let listed = SessionView {
                    listed_dir: self.current_dir,
                    sub_dirs: sub_directories(entries),
                    files: eligible_files(entries),
                    ..self
                };
                match pending {
                    None => listed.show_menu(),
                    Some(file) => listed.take_file(file, true),
                }
            },
            _ => abort(fault(event)),
        }
    }

    /// The step on a line at the menu.
    pub open spec fn on_line(self, event: EventView) -> StepView {
        match event {
            EventView::Input(InputView::Line(raw)) => {
                let line = normalize(raw);
                let selected = parse(
                    self.current_dir,
                    line,
                    self.defaults,
                    self.sub_dirs,
                    self.files,
                );
                match selected {
                    (Some(directory), file) => {
                        let target = self.target_of(line, directory);
                        StepView::Next {
                            session: SessionView {
                                phase: PhaseView::ProbingDir { target, file },
                                ..self
                            },
                            notice: None,
                            action: ActionView::ProbeDir(target),
                        }
                    },
                    (None, Some(file)) => self.take_file(file, false),
                    (None, None) => SessionView { seed: Seq::empty(), ..self }.prompt(
                        Some(
                            if line.len() == 0 {
                                NoticeView::EmptyInput
                            } else {
                                NoticeView::OutOfRange(line)
                            },
                        ),
                    ),
                }
            },
            EventView::Input(InputView::Interrupted) => SessionView {
                seed: Seq::empty(),
                ..self
            }.prompt(None),
            EventView::Input(InputView::Eof) => abort(ErrorView::ManuallyTerminated),
            _ => abort(fault(event)),
        }
    }

    /// The step on the answer whether the directory `target` exists.
    pub open spec fn on_dir_probe(
        self,
        target: Seq<char>,
        file: Option<Seq<char>>,
        event: EventView,
    ) -> StepView {
        match event {
            EventView::Exists(true) => self.adopt(target, file),
            EventView::Exists(false) => if self.is_saving {
                StepView::Next {
                    session: SessionView { phase: PhaseView::Confirming { target, file }, ..self },
                    notice: Some(NoticeView::CreateDirectory(target)),
                    action: ActionView::ReadLine {
                        prompt: Prompt::Confirmation,
                        history: Some(confirmation_words()),
                        seed: Seq::empty(),
                    },
                }
            } else {
                self.prompt(Some(NoticeView::DirectoryMissing(target)))
            },
            _ => abort(fault(event)),
        }
    }

    /// The step on the answer whether the directory `target` is to be
    /// created.
    pub open spec fn on_confirmation(
        self,
        target: Seq<char>,
        file: Option<Seq<char>>,
        event: EventView,
    ) -> StepView {
        match event {
            EventView::Input(input) => match confirmation(input) {
                Ok(_) => StepView::Next {
                    session: SessionView { phase: PhaseView::Creating { target, file }, ..self },
                    notice: None,
                    action: ActionView::CreateDir(target),
                },
                Err(Error::ManuallyTerminated) => abort(
                    ErrorView::ManuallyTerminated,
                ),
                Err(_) => self.prompt(Some(NoticeView::DirectoryNotCreated)),
            },
            _ => abort(fault(event)),
        }
    }

    /// The step on the answer whether the file `name` exists.
    pub open spec fn on_file_probe(self, name: Seq<char>, changed: bool, event: EventView) -> StepView {
        match event {
            EventView::Exists(exists) => match file_check(exists, self.is_saving) {
                FileCheck::Accepted => StepView::Done {
                    notice: None,
                    outcome: Ok(self.path_of(name)),
                },
                FileCheck::Collision => StepView::Next {
                    session: SessionView { phase: PhaseView::Resolving { name, changed }, ..self },
                    notice: Some(NoticeView::Collision(self.path_of(name))),
                    action: ActionView::ReadLine {
                        prompt: Prompt::Choice,
                        history: Some(choice_words()),
                        seed: Seq::empty(),
                    },
                },
                FileCheck::Missing => SessionView { seed: Seq::empty(), ..self }.reprompt(
                    changed,
                    Some(NoticeView::MissingWhileLoading(self.path_of(name))),
                ),
            },
            _ => abort(fault(event)),
        }
    }

    /// The step on the choice `choice` about the existing file `name`.
    ///
    /// The sequential name that the existing file is moved to, or that is
    /// taken in its place, is the next of the row of `name`; the session
    /// ends where its counter would exceed the maximum, or where the name
    /// taken would be too long.
    pub open spec fn on_choice(self, name: Seq<char>, changed: bool, choice: Choice) -> StepView {
        let path = self.path_of(name);
        let beside = derived_name(self.files, base_of(name), true);
        match choice {
            Choice::Replace => StepView::Next {
                session: SessionView { phase: PhaseView::Replacing { name }, ..self },
                notice: Some(NoticeView::Replacing(path)),
                action: ActionView::RemoveFile(path),
            },
            Choice::MoveExisting => match beside {
                None => abort(ErrorView::InvalidSequentialName),
                Some(other) => StepView::Next {
                    session: SessionView { phase: PhaseView::Moving { name }, ..self },
                    notice: Some(NoticeView::Renaming { from: path, to: self.path_of(other) }),
                    action: ActionView::RenameFile { from: path, to: self.path_of(other) },
                },
            },
            Choice::TakeSequential => match beside {
                None => abort(ErrorView::InvalidSequentialName),
                Some(other) => if name_fits(other) {
                    StepView::Done { notice: None, outcome: Ok(self.path_of(other)) }
                } else {
                    abort(ErrorView::InvalidNameTooLong)
                },
            },
            Choice::NewName => SessionView { seed: Seq::empty(), ..self }.reprompt(
                changed,
                Some(NoticeView::NewNameWanted),
            ),
            Choice::Delete => StepView::Next {
                session: SessionView { phase: PhaseView::Deleting { name }, ..self },
                notice: None,
                action: ActionView::RemoveFile(path),
            },
            Choice::Invalid => StepView::Next {
                session: self,
                notice: Some(NoticeView::InvalidInput),
                action: ActionView::ReadLine {
                    prompt: Prompt::Choice,
                    history: None,
                    seed: Seq::empty(),
                },
            },
        }
    }

    /// The step on what was read for the choice about the existing file
    /// `name`. A cancelled line asks for another name.
    pub open spec fn on_resolution(self, name: Seq<char>, changed: bool, event: EventView) -> StepView {
        match event {
            EventView::Input(InputView::Line(text)) => self.on_choice(
                name,
                changed,
                choice_of(text),
            ),
            EventView::Input(InputView::Interrupted) => self.on_choice(
                name,
                changed,
                Choice::NewName,
            ),
            EventView::Input(InputView::Eof) => abort(ErrorView::ManuallyTerminated),
            _ => abort(fault(event)),
        }
    }

    /// The step of the menu: what the answer `event` leads to.
    pub open spec fn step(self, event: EventView) -> StepView {
        match self.phase {
            PhaseView::Opening => match event {
                EventView::Completed => self.relist(None, None),
                _ => abort(fault(event)),
            },
            PhaseView::Listing { pending } => self.on_listing(pending, event),
            PhaseView::Reading => self.on_line(event),
            PhaseView::ProbingDir { target, file } => self.on_dir_probe(target, file, event),
            PhaseView::Confirming { target, file } => self.on_confirmation(target, file, event),
            PhaseView::Creating { target, file } => match event {
                EventView::Completed => self.adopt(target, file),
                _ => abort(fault(event)),
            },
            PhaseView::ProbingFile { name, changed } => self.on_file_probe(name, changed, event),
            PhaseView::Resolving { name, changed } => self.on_resolution(name, changed, event),
            PhaseView::Replacing { name } => match event {
                EventView::Completed => StepView::Done {
                    notice: None,
                    outcome: Ok(self.path_of(name)),
                },
                _ => abort(fault(event)),
            },
            PhaseView::Moving { name } => match event {
                EventView::Completed => StepView::Done {
                    notice: None,
                    outcome: Ok(self.path_of(name)),
                },
                _ => abort(fault(event)),
            },
            PhaseView::Deleting { name } => match event {
                EventView::Completed => StepView::Done {
                    notice: Some(NoticeView::Deleted(self.path_of(name))),
                    outcome: Err(ErrorView::FileDeletion),
                },
                _ => abort(fault(event)),
            },
        }
    }
}

/// The first step of the menu in the directory `current_path`, with the
/// default directories `paths`: the directory becomes the current
/// directory, and its creation is asked for.
pub open spec fn open_menu(current_path: Seq<char>, paths: Seq<Seq<char>>, is_saving: bool) -> StepView {
    let current_dir = with_separator(current_path);
    StepView::Next {
        session: SessionView {
            is_saving,
            defaults: paths,
            current_dir,
            listed_dir: Seq::empty(),
            sub_dirs: Seq::empty(),
            files: Seq::empty(),
            seed: Seq::empty(),
            phase: PhaseView::Opening,
        },
        notice: None,
        action: ActionView::CreateDir(current_dir),
    }
}

/// The first step of a session: the menu opens in the first of the default
/// directories that [`default_paths`] gives.
pub open spec fn start(is_saving: bool, default_dirs: Option<Seq<Seq<char>>>) -> StepView {
    let defaults = default_paths(default_dirs);
    open_menu(defaults[0], defaults, is_saving)
}

/// What holds of every step from the session `from`: the session that goes
/// on is well-formed; a path that is handed out is a valid file name in the
/// current directory; and a session ends without a path only on an error
/// that ends sessions, never on a request for another name.
pub open spec fn step_sound(from: SessionView, step: StepView) -> bool {
    match step {
        StepView::Next { session, .. } => session.wf(),
        StepView::Done { outcome: Ok(path), .. } => resolved_in(from.current_dir, path),
        StepView::Done { outcome: Err(e), .. } => e.ends_session(),
    }
}

} // verus!
