//! What the answers of the user mean: to the question whether a directory
//! is to be created, and to the choice offered when a file already exists.

use crate::error::Error;
use crate::names::{trim, trimmed};
use rustyline::error::ReadlineError;
use vstd::prelude::*;

verus! {

/// What reading one line from the user gave.
#[derive(Debug, PartialEq, Eq)]
pub enum Input {
    /// A line of text.
    Line(String),
    /// The user cancelled the line.
    Interrupted,
    /// The user asked to end the session.
    Eof,
    /// Reading failed; the text is what the line input reported.
    Failed(String),
}

/// [`Input`], with its texts as sequences of characters.
pub enum InputView {
    Line(Seq<char>),
    Interrupted,
    Eof,
    Failed(Seq<char>),
}

impl View for Input {
    type V = InputView;

    open spec fn view(&self) -> InputView {
        match self {
            Input::Line(text) => InputView::Line(text@),
            Input::Interrupted => InputView::Interrupted,
            Input::Eof => InputView::Eof,
            Input::Failed(text) => InputView::Failed(text@),
        }
    }
}

/// The error of the line editor. Nothing of its inside is used in a
/// contract.
#[verifier::external_type_specification]
#[verifier::external_body]
pub struct ExReadlineError(ReadlineError);

/// Which question a line is read for. Each has a recall history of its
/// own.
#[derive(Debug, Clone, Copy, PartialEq, Eq)]
pub enum Prompt {
    /// The menu: a number, a directory, a file name.
    Menu,
    /// Whether a directory is to be created.
    Confirmation,
    /// What to do about a file that already exists.
    Choice,
}

/// What the user chose to do about a file that already exists.
#[derive(Debug, Clone, Copy, PartialEq, Eq)]
pub enum Choice {
    /// `r`: delete the existing file and keep the name.
    Replace,
    /// `m`: move the existing file to the next sequential name and keep
    /// the name.
    MoveExisting,
    /// `c`: leave the existing file and take the next sequential name.
    TakeSequential,
    /// `n`: ask for another name.
    NewName,
    /// `d`: delete the existing file and select nothing.
    Delete,
    /// Anything else: ask again.
    Invalid,
}

/// What the state of a file means for the name that was asked for.
#[derive(Debug, Clone, Copy, PartialEq, Eq)]
pub enum FileCheck {
    /// The name can be used as it is.
    Accepted,
    /// The file exists and is about to be written: the user has to choose.
    Collision,
    /// The file does not exist and is about to be read: another name is
    /// needed.
    Missing,
}

/// The answer to the question whether a directory is to be created.
///
/// `y` and `yes`, with or without white space around them, accept. A
/// request to end the session ends it. Everything else declines: `n`, `no`,
/// any other text, a cancelled line, a failed read.
pub open spec fn confirmation(input: InputView) -> Result<(), Error> {
    match input {
        InputView::Line(text) => if trim(text) == seq!['y'] || trim(text) == seq!['y', 'e', 's'] {
            Ok(())
        } else {
            Err(Error::NeedNewName)
        },
        InputView::Eof => Err(Error::ManuallyTerminated),
        _ => Err(Error::NeedNewName),
    }
}

/// The choice that a line makes: one of the five letters, with or without
/// white space around it.
pub open spec fn choice_of(line: Seq<char>) -> Choice {
    let text = trim(line);
    if text == seq!['r'] {
        Choice::Replace
    } else if text == seq!['m'] {
        Choice::MoveExisting
    } else if text == seq!['c'] {
        Choice::TakeSequential
    } else if text == seq!['n'] {
        Choice::NewName
    } else if text == seq!['d'] {
        Choice::Delete
    } else {
        Choice::Invalid
    }
}

/// What the state of the file means: a file that exists collides with a
/// save, a file that is missing cannot be loaded, and in the other two
/// cases the name is accepted.
pub open spec fn file_check(exists: bool, is_saving: bool) -> FileCheck {
    if exists && is_saving {
        FileCheck::Collision
    } else if !exists && !is_saving {
        FileCheck::Missing
    } else {
        FileCheck::Accepted
    }
}

/// A name that does not exist is never accepted for loading and never
/// leads to the choice offered on a collision.
pub proof fn lemma_loading_missing_file(is_saving: bool)
    ensures
        !is_saving ==> file_check(false, is_saving) == FileCheck::Missing,
        file_check(false, is_saving) != FileCheck::Collision,
{
}

/// What an error of the line editor stands for.
///
/// Tells the variants of `rustyline::error::ReadlineError` apart:
/// `Interrupted` is a cancelled line, `Eof` is the request to end the
/// session, and every other variant is a failed read, kept with the text
/// that the error displays. The contract claims only that an error never
/// stands for a line.
#[verifier::external_body]
fn input_of_error(error: ReadlineError) -> (input: Input)
    ensures
        !(input is Line),
{
    match error {
        ReadlineError::Interrupted => Input::Interrupted,
        ReadlineError::Eof => Input::Eof,
        other => Input::Failed(other.to_string()),
    }
}

/// What reading a line with the line editor gave: the line that was read,
/// or what the error stands for. An error never stands for a line.
pub fn input_of(read: Result<String, ReadlineError>) -> (input: Input)
    ensures
        match read {
            Ok(line) => input == Input::Line(line),
            Err(_) => !(input is Line),
        },
{
    match read {
        Ok(line) => Input::Line(line),
        Err(error) => input_of_error(error),
    }
}

/// Decides on the answer to the question whether a directory is to be
/// created: `Ok` to create it, `NeedNewName` to ask for another name,
/// `ManuallyTerminated` to end the session.
pub fn ask_yes_no(input: &Input) -> (r: Result<(), Error>)
    ensures
        r == confirmation(input@),
{
    match input {
        Input::Line(text) => {
            let answer = trimmed(text.as_str());
            let yes = (answer.len() == 1 && answer[0] == 'y') || (answer.len() == 3 && answer[0]
                == 'y' && answer[1] == 'e' && answer[2] == 's');
            proof {
                assert(yes ==> answer@ =~= seq!['y'] || answer@ =~= seq!['y', 'e', 's']);
            }
            if yes {
                Ok(())
            } else {
                Err(Error::NeedNewName)
            }
        },
        Input::Eof => Err(Error::ManuallyTerminated),
        Input::Interrupted => Err(Error::NeedNewName),
        Input::Failed(_) => Err(Error::NeedNewName),
    }
}

/// Reads the choice that a line makes about a file that already exists.
pub fn collision_choice(line: &str) -> (choice: Choice)
    ensures
        choice == choice_of(line@),
{
    let answer = trimmed(line);
    if answer.len() != 1 {
        return Choice::Invalid;
    }
    let letter = answer[0];
    proof {
        assert(answer@ =~= seq![letter]);
    }
    if letter == 'r' {
        Choice::Replace
    } else if letter == 'm' {
        Choice::MoveExisting
    } else if letter == 'c' {
        Choice::TakeSequential
    } else if letter == 'n' {
        Choice::NewName
    } else if letter == 'd' {
        Choice::Delete
    } else {
        Choice::Invalid
    }
}

/// Decides what the state of the file means for the name that was asked
/// for: `exists` says whether the file is there, `is_saving` whether it is
/// about to be written.
pub fn check_file_exists(exists: bool, is_saving: bool) -> (check: FileCheck)
    ensures
        check == file_check(exists, is_saving),
{
    if exists && is_saving {
        FileCheck::Collision
    } else if !exists && !is_saving {
        FileCheck::Missing
    } else {
        FileCheck::Accepted
    }
}

} // verus!
