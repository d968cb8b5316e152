//! The ways in which a selection ends without a file name, or has to be
//! asked for again.

use crate::config::{DEFAULT_MAP_TYPE, MAX_FILE_NAME_CHARS, SEQUENTIAL_FILE_MAX_NUMBER};
use crate::decimal::decimal_chars;
use crate::text::{append_chars, decimal, from_chars, to_chars};
use vstd::prelude::*;

verus! {

/// Why a step of the selection did not yield a file name.
#[derive(Debug, PartialEq, Eq)]
pub enum Error {
    /// The file system failed; the text is what it reported.
    Io(String),
    /// The line input failed; the text is what it reported.
    Cmd(String),
    /// The user ended the session.
    ManuallyTerminated,
    /// Another name has to be asked for.
    NeedNewName,
    /// The user chose to delete the named file and nothing else.
    FileDeletion,
    /// The file name is longer than [`MAX_FILE_NAME_CHARS`].
    InvalidNameTooLong,
    /// The next counter would exceed [`SEQUENTIAL_FILE_MAX_NUMBER`].
    InvalidSequentialName,
    /// The file name carries an extension other than [`DEFAULT_MAP_TYPE`].
    UnknownFileType,
}

/// [`Error`], with its texts as sequences of characters.
pub enum ErrorView {
    Io(Seq<char>),
    Cmd(Seq<char>),
    ManuallyTerminated,
    NeedNewName,
    FileDeletion,
    InvalidNameTooLong,
    InvalidSequentialName,
    UnknownFileType,
}

impl View for Error {
    type V = ErrorView;

    open spec fn view(&self) -> ErrorView {
        match self {
            Error::Io(text) => ErrorView::Io(text@),
            Error::Cmd(text) => ErrorView::Cmd(text@),
            Error::ManuallyTerminated => ErrorView::ManuallyTerminated,
            Error::NeedNewName => ErrorView::NeedNewName,
            Error::FileDeletion => ErrorView::FileDeletion,
            Error::InvalidNameTooLong => ErrorView::InvalidNameTooLong,
            Error::InvalidSequentialName => ErrorView::InvalidSequentialName,
            Error::UnknownFileType => ErrorView::UnknownFileType,
        }
    }
}

impl DeepView for Error {
    type V = ErrorView;

    open spec fn deep_view(&self) -> ErrorView {
        self@
    }
}

impl ErrorView {
    /// An error that ends the whole session. The other two only ask for
    /// another name.
    pub open spec fn ends_session(self) -> bool {
        !(self is NeedNewName) && !(self is UnknownFileType)
    }

    /// The text shown to the user for this error.
    pub open spec fn text(self) -> Seq<char> {
        match self {
            ErrorView::Io(text) => text,
            ErrorView::Cmd(text) => text,
            ErrorView::ManuallyTerminated => {
                "FILE MNG :: File selection has been manually terminated with CTRL+D"@
            },
            ErrorView::NeedNewName => "FILE MNG :: File selection needs to be re-run."@,
            ErrorView::FileDeletion => "FILE MNG :: Specified file has been deleted."@,
            ErrorView::InvalidNameTooLong => {
                "FILE MNG :: Error selected file name is longer than "@ + decimal(
                    MAX_FILE_NAME_CHARS as nat,
                ) + "."@
            },
            ErrorView::InvalidSequentialName => {
                "FILE MNG :: Error sequential name count larger than "@ + decimal(
                    SEQUENTIAL_FILE_MAX_NUMBER as nat,
                ) + "."@
            },
            ErrorView::UnknownFileType => {
                "FILE MNG :: Error unsupported file type, use "@ + DEFAULT_MAP_TYPE@ + "."@
            },
        }
    }
}

impl Error {
    /// The text shown to the user for this error.
    pub fn message(&self) -> (text: String)
        ensures
            text@ == self@.text(),
    {
        match self {
            Error::Io(text) => text.clone(),
            Error::Cmd(text) => text.clone(),
            Error::ManuallyTerminated => {
                "FILE MNG :: File selection has been manually terminated with CTRL+D".to_owned()
            },
            Error::NeedNewName => "FILE MNG :: File selection needs to be re-run.".to_owned(),
            Error::FileDeletion => "FILE MNG :: Specified file has been deleted.".to_owned(),
            Error::InvalidNameTooLong => {
                let mut v = to_chars("FILE MNG :: Error selected file name is longer than ");
                let number = decimal_chars(MAX_FILE_NAME_CHARS as u128);
                append_chars(&mut v, number.as_slice());
                v.push('.');
                proof {
                    reveal_strlit(".");
                }
                from_chars(v.as_slice())
            },
            Error::InvalidSequentialName => {
                let mut v = to_chars("FILE MNG :: Error sequential name count larger than ");
                let number = decimal_chars(SEQUENTIAL_FILE_MAX_NUMBER as u128);
                append_chars(&mut v, number.as_slice());
                v.push('.');
                proof {
                    reveal_strlit(".");
                }
                from_chars(v.as_slice())
            },
            Error::UnknownFileType => {
                let mut v = to_chars("FILE MNG :: Error unsupported file type, use ");
                let extension = to_chars(DEFAULT_MAP_TYPE);
                append_chars(&mut v, extension.as_slice());
                v.push('.');
                proof {
                    reveal_strlit(".");
                }
                from_chars(v.as_slice())
            },
        }
    }
}

} // verus!
