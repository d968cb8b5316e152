//! What holds of the menu whatever it is told.

use crate::config::{dot_extension, SEQUENTIAL_NAMING_CHAR};
use crate::error::ErrorView;
use crate::model::{
    abort, base_of, open_menu, pending_wf, start, step_sound, valid_name, ActionView, EventView,
    PhaseView, SessionView, StepView,
};
use crate::names::{
    lemma_accepted_name, lemma_separator_free_beginning, lemma_separator_free_parts, name_fits,
    normalize, separator_free, stem_of, with_separator,
};
use crate::notice::NoticeView;
use crate::parser::{
    classify, index_text, lemma_classify, lemma_parse_directory, lemma_parse_file, parse,
};
use crate::prompt::{choice_of, Choice, InputView, Prompt};
use crate::scanner::{
    eligible_files, lemma_eligible_files, lemma_sub_directories, sub_directories,
};
use crate::sequential::{
    derived_counter, derived_name, lemma_sequential_separator_free, sequential_name,
};
use crate::text::{ends_with, first_index_of, lemma_first_index_of};
use vstd::prelude::*;

verus! {

/// Every sequential name has the managed extension.
pub proof fn lemma_sequential_name_extension(base: Seq<char>, counter: nat)
    ensures
        ends_with(sequential_name(base, counter), dot_extension()),
{
    let name = sequential_name(base, counter);
    assert(name.subrange(name.len() - dot_extension().len(), name.len() as int)
        =~= dot_extension());
}

/// The first step of the menu leaves a well-formed session.
pub proof fn lemma_open_menu_sound(current_path: Seq<char>, paths: Seq<Seq<char>>, is_saving: bool)
    ensures
        open_menu(current_path, paths, is_saving) is Next,
        open_menu(current_path, paths, is_saving)->session.wf(),
        start(is_saving, Some(paths)) is Next,
        start(is_saving, Some(paths))->session.wf(),
        start(is_saving, None) is Next,
        start(is_saving, None)->session.wf(),
{
}

/// Going on with a file name that holds no path separator is sound.
pub proof fn lemma_take_file_sound(s: SessionView, file: Seq<char>, changed: bool)
    requires
        (SessionView { phase: PhaseView::Reading, ..s }).wf(),
        separator_free(file),
    ensures
        step_sound(s, s.take_file(file, changed)),
{
    let expanded = if file.len() > 0 && file.last() == SEQUENTIAL_NAMING_CHAR {
        derived_name(s.files, file, s.is_saving)
    } else {
        Some(file)
    };
    match expanded {
        None => {},
        Some(given) => {
            if given != file {
                lemma_sequential_separator_free(file, derived_counter(s.files, file, s.is_saving));
            }
            lemma_accepted_name(given);
        },
    }
}

/// The step on the listing of the current directory is sound.
pub proof fn lemma_on_listing_sound(s: SessionView, pending: Option<Seq<char>>, event: EventView)
    requires
        s.wf(),
        pending_wf(pending),
    ensures
        step_sound(s, s.on_listing(pending, event)),
{
    match event {
        EventView::Listing(entries) => {
            lemma_eligible_files(entries);
            lemma_sub_directories(entries);
            let listed = SessionView {
                listed_dir: s.current_dir,
                sub_dirs: sub_directories(entries),
                files: eligible_files(entries),
                ..s
            };
            match pending {
                None => {},
                Some(file) => {
                    lemma_take_file_sound(listed, file, true);
                },
            }
        },
        _ => {},
    }
}

/// The step on a line at the menu is sound.
pub proof fn lemma_on_line_sound(s: SessionView, event: EventView)
    requires
        s.wf(),
        s.phase is Reading,
    ensures
        step_sound(s, s.on_line(event)),
{
    match event {
        EventView::Input(InputView::Line(raw)) => {
            let line = normalize(raw);
            lemma_parse_directory(s.current_dir, line, s.defaults, s.sub_dirs, s.files);
            lemma_parse_file(s.current_dir, line, s.defaults, s.sub_dirs, s.files);
            match parse(s.current_dir, line, s.defaults, s.sub_dirs, s.files) {
                (None, Some(file)) => {
                    lemma_take_file_sound(s, file, false);
                },
                (Some(directory), _) => {
                    assert((s.current_dir + directory).last() == directory.last());
                },
                _ => {},
            }
        },
        _ => {},
    }
}

/// The step on the choice about an existing file is sound.
pub proof fn lemma_on_choice_sound(s: SessionView, name: Seq<char>, changed: bool, choice: Choice)
    requires
        s.wf(),
        s.phase == (PhaseView::Resolving { name, changed }),
    ensures
        step_sound(s, s.on_choice(name, changed, choice)),
{
    match derived_name(s.files, base_of(name), true) {
        Some(other) => {
            let counter = derived_counter(s.files, base_of(name), true);
            lemma_sequential_name_extension(base_of(name), counter);
            lemma_first_index_of(name, '.');
            lemma_separator_free_beginning(name, first_index_of(name, '.'));
            lemma_separator_free_parts(stem_of(name), seq![SEQUENTIAL_NAMING_CHAR]);
            assert(base_of(name) =~= stem_of(name) + seq![SEQUENTIAL_NAMING_CHAR]);
            lemma_sequential_separator_free(base_of(name), counter);
            if name_fits(other) {
                assert(valid_name(other));
            }
        },
        None => {},
    }
}

/// Every step from a well-formed session is sound: the session that goes
/// on is well-formed, a path that is handed out is a valid file name in the
/// current directory, and the session ends without a path only on an error
/// that ends sessions: a request for another name never leaves the menu.
pub proof fn lemma_step_sound(s: SessionView, event: EventView)
    requires
        s.wf(),
    ensures
        step_sound(s, s.step(event)),
{
    match s.phase {
        PhaseView::Listing { pending } => {
            lemma_on_listing_sound(s, pending, event);
        },
        PhaseView::Reading => {
            lemma_on_line_sound(s, event);
        },
        PhaseView::Resolving { name, changed } => {
            match event {
                EventView::Input(InputView::Line(text)) => {
                    lemma_on_choice_sound(s, name, changed, choice_of(text));
                },
                EventView::Input(InputView::Interrupted) => {
                    lemma_on_choice_sound(s, name, changed, Choice::NewName);
                },
                _ => {},
            }
        },
        _ => {},
    }
}

/// Replacing an existing file: on the choice `r` the menu asks for the
/// deletion of the file at the path that was asked for, and once that is
/// done it hands out that very path.
pub proof fn lemma_replace_deletes_then_selects(
    s: SessionView,
    name: Seq<char>,
    changed: bool,
    answer: Seq<char>,
)
    requires
        s.phase == (PhaseView::Resolving { name, changed }),
        choice_of(answer) == Choice::Replace,
    ensures
        s.step(EventView::Input(InputView::Line(answer))) is Next,
        s.step(EventView::Input(InputView::Line(answer)))->action == ActionView::RemoveFile(
            s.current_dir + name,
        ),
        s.step(EventView::Input(InputView::Line(answer)))->session.step(EventView::Completed) == (
        StepView::Done { notice: None, outcome: Ok(s.current_dir + name) }),
{
}

/// Loading a file that does not exist: the menu asks for another name. It
/// clears the seed, hands out no path, and does not offer the choice that
/// is made about an existing file.
pub proof fn lemma_loading_missing_file_asks_again(s: SessionView, name: Seq<char>, changed: bool)
    requires
        s.phase == (PhaseView::ProbingFile { name, changed }),
        !s.is_saving,
    ensures
        s.step(EventView::Exists(false)) is Next,
        s.step(EventView::Exists(false))->Next_notice == Some(
            NoticeView::MissingWhileLoading(s.current_dir + name),
        ),
        s.step(EventView::Exists(false))->session.seed == Seq::<char>::empty(),
        !(s.step(EventView::Exists(false))->session.phase is Resolving),
        s.step(EventView::Exists(false))->action == if changed {
            ActionView::ListDir(s.current_dir)
        } else {
            ActionView::ReadLine { prompt: Prompt::Menu, history: None, seed: Seq::empty() }
        },
{
}

/// The choice about an existing file is offered only for a file that
/// exists and is about to be written.
pub proof fn lemma_choice_only_on_collision(s: SessionView, event: EventView)
    requires
        !(s.phase is Resolving),
        s.step(event) is Next,
        s.step(event)->session.phase is Resolving,
    ensures
        s.phase is ProbingFile,
        s.is_saving,
        event == EventView::Exists(true),
{
    match s.phase {
        PhaseView::Listing { pending } => {
            match event {
                EventView::Listing(entries) => {},
                _ => {},
            }
        },
        PhaseView::Reading => {},
        _ => {},
    }
}

/// The listing is never stale: whenever the menu adopts another directory,
/// the next thing it asks for is the listing of that directory.
pub proof fn lemma_directory_change_lists_again(s: SessionView, event: EventView)
    requires
        s.step(event) is Next,
        s.step(event)->session.current_dir != s.current_dir,
    ensures
        s.step(event)->action == ActionView::ListDir(s.step(event)->session.current_dir),
        s.step(event)->session.phase is Listing,
{
    match s.phase {
        PhaseView::Listing { pending } => {
            match event {
                EventView::Listing(entries) => {},
                _ => {},
            }
        },
        PhaseView::Reading => {},
        _ => {},
    }
}

/// A failure of the file system ends the session, whatever the menu was
/// waiting for, with the error that carries the text of the failure.
pub proof fn lemma_failure_ends_session(s: SessionView, text: Seq<char>)
    ensures
        s.step(EventView::Failed(text)) == abort(ErrorView::Io(text)),
{
}

/// The request to end the session ends it wherever a line is read: at the
/// menu, at the question about a directory, and at the choice about an
/// existing file.
pub proof fn lemma_end_of_input_terminates(s: SessionView)
    requires
        s.phase is Reading || s.phase is Confirming || s.phase is Resolving,
    ensures
        s.step(EventView::Input(InputView::Eof)) == abort(ErrorView::ManuallyTerminated),
{
}

/// A session keeps its mode and its default directories for as long as it
/// goes on.
pub proof fn lemma_step_keeps_mode_and_defaults(s: SessionView, event: EventView)
    requires
        s.step(event) is Next,
    ensures
        s.step(event)->session.is_saving == s.is_saving,
        s.step(event)->session.defaults == s.defaults,
{
    match s.phase {
        PhaseView::Listing { pending } => {
            match event {
                EventView::Listing(entries) => {},
                _ => {},
            }
        },
        PhaseView::Reading => {},
        _ => {},
    }
}

/// A directory that is typed at the menu is taken below the current
/// directory: the menu asks whether the current directory followed by the
/// directory part of the line exists, and keeps the file part for later.
pub proof fn lemma_typed_directory_goes_below(s: SessionView, raw: Seq<char>, directory: Seq<char>)
    requires
        s.phase is Reading,
        index_text(normalize(raw)) is None,
        classify(normalize(raw)).0 == Some(directory),
    ensures
        s.step(EventView::Input(InputView::Line(raw))) is Next,
        s.step(EventView::Input(InputView::Line(raw)))->action == ActionView::ProbeDir(
            s.current_dir + directory,
        ),
        s.step(EventView::Input(InputView::Line(raw)))->session.phase == (PhaseView::ProbingDir {
            target: s.current_dir + directory,
            file: classify(normalize(raw)).1,
        }),
        s.step(EventView::Input(InputView::Line(raw)))->session.current_dir == s.current_dir,
{
    lemma_classify(normalize(raw));
}

/// A default directory that is picked by its number is asked for as it
/// is, with the path separator at its end, wherever the menu stands.
pub proof fn lemma_default_directory_stands(s: SessionView, raw: Seq<char>, index: nat)
    requires
        s.phase is Reading,
        normalize(raw).len() > 0,
        index_text(normalize(raw)) == Some(index),
        index < s.defaults.len(),
    ensures
        s.step(EventView::Input(InputView::Line(raw))) is Next,
        s.step(EventView::Input(InputView::Line(raw)))->action == ActionView::ProbeDir(
            with_separator(s.defaults[index as int]),
        ),
{
}

/// Every path that a session hands out is its current directory followed
/// by a file name without a path separator, with the managed extension and
/// within the length limit.
pub proof fn lemma_path_stays_in_current_directory(s: SessionView, event: EventView)
    requires
        s.wf(),
        s.step(event) is Done,
        s.step(event)->outcome is Ok,
    ensures
        exists|name: Seq<char>|
            s.step(event)->outcome->Ok_0 == s.current_dir + name && #[trigger] valid_name(name)
                && separator_free(name),
{
    lemma_step_sound(s, event);
}

} // verus!
