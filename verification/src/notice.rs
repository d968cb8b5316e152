//! What the menu tells the user between two requests.

use crate::error::{Error, ErrorView};
use crate::names::concat;
use crate::text::{append_str, from_chars};
use vstd::prelude::*;

verus! {

/// Something to show to the user before the next request is carried out.
#[derive(Debug, PartialEq, Eq)]
pub enum Notice {
    /// The menu of the current directory.
    Menu(String),
    /// The line was empty.
    EmptyInput,
    /// The line was a number that addresses no candidate.
    OutOfRange(String),
    /// The directory does not exist, and none is created when loading.
    DirectoryMissing(String),
    /// The directory does not exist; the user is asked whether to create
    /// it.
    CreateDirectory(String),
    /// The user declined to create the directory.
    DirectoryNotCreated,
    /// The name carried another extension and was corrected.
    ExtensionCorrected,
    /// Another name is asked for.
    NewNameWanted,
    /// The file to load does not exist.
    MissingWhileLoading(String),
    /// The file to save exists already; the user is asked what to do.
    Collision(String),
    /// The existing file is being replaced.
    Replacing(String),
    /// The existing file is being moved to a sequential name.
    Renaming { from: String, to: String },
    /// The existing file was deleted.
    Deleted(String),
    /// The answer was none of those offered.
    InvalidInput,
}

/// [`Notice`], with its texts as sequences of characters.
pub enum NoticeView {
    Menu(Seq<char>),
    EmptyInput,
    OutOfRange(Seq<char>),
    DirectoryMissing(Seq<char>),
    CreateDirectory(Seq<char>),
    DirectoryNotCreated,
    ExtensionCorrected,
    NewNameWanted,
    MissingWhileLoading(Seq<char>),
    Collision(Seq<char>),
    Replacing(Seq<char>),
    Renaming { from: Seq<char>, to: Seq<char> },
    Deleted(Seq<char>),
    InvalidInput,
}

impl View for Notice {
    type V = NoticeView;

    open spec fn view(&self) -> NoticeView {
        match self {
            Notice::Menu(text) => NoticeView::Menu(text@),
            Notice::EmptyInput => NoticeView::EmptyInput,
            Notice::OutOfRange(line) => NoticeView::OutOfRange(line@),
            Notice::DirectoryMissing(path) => NoticeView::DirectoryMissing(path@),
            Notice::CreateDirectory(path) => NoticeView::CreateDirectory(path@),
            Notice::DirectoryNotCreated => NoticeView::DirectoryNotCreated,
            Notice::ExtensionCorrected => NoticeView::ExtensionCorrected,
            Notice::NewNameWanted => NoticeView::NewNameWanted,
            Notice::MissingWhileLoading(path) => NoticeView::MissingWhileLoading(path@),
            Notice::Collision(path) => NoticeView::Collision(path@),
            Notice::Replacing(path) => NoticeView::Replacing(path@),
            Notice::Renaming { from, to } => NoticeView::Renaming { from: from@, to: to@ },
            Notice::Deleted(path) => NoticeView::Deleted(path@),
            Notice::InvalidInput => NoticeView::InvalidInput,
        }
    }
}

impl DeepView for Notice {
    type V = NoticeView;

    open spec fn deep_view(&self) -> NoticeView {
        self@
    }
}

impl NoticeView {
    /// The text of the notice.
    pub open spec fn text(self) -> Seq<char> {
        match self {
            NoticeView::Menu(text) => text,
            NoticeView::EmptyInput => "Empty input, try again."@,
            NoticeView::OutOfRange(line) => line + " is out of range, try again."@,
            NoticeView::DirectoryMissing(path) => "Selected path does not exist: "@ + path,
            NoticeView::CreateDirectory(path) => {
                "Selected path does not exist: "@ + path
                    + "\nCreate new dir?\nInput <y>/<yes> or <n>/<no>:"@
            },
            NoticeView::DirectoryNotCreated => "New directory not created, input a new one."@,
            NoticeView::ExtensionCorrected => ErrorView::UnknownFileType.text(),
            NoticeView::NewNameWanted => "Please input a new name."@,
            NoticeView::MissingWhileLoading(path) => {
                "FILE MNG :: file "@ + path
                    + " does not exist while loading.\nPlease input a new name."@
            },
            NoticeView::Collision(path) => {
                "FILE MNG :: file "@ + path
                    + " already exists while saving.\nInput:\n  'r' to replace existing file.\n  'm' to turn existing file into sequential naming.\n  'c' to turn new file into sequential naming.\n  'n' to select a new name.\n  'd' to delete the specified file."@
            },
            NoticeView::Replacing(path) => "Replacing "@ + path + "..."@,
            NoticeView::Renaming { from, to } => "Renaming "@ + from + " to "@ + to,
            NoticeView::Deleted(path) => "File "@ + path + " has been deleted."@,
            NoticeView::InvalidInput => "Invalid input, try again."@,
        }
    }
}

/// The three texts, one after the other.
fn wrap(before: &str, middle: &str, after: &str) -> (r: String)
    ensures
        r@ == before@ + middle@ + after@,
{
    let mut v: Vec<char> = Vec::new();
    append_str(&mut v, before);
    append_str(&mut v, middle);
    append_str(&mut v, after);
    from_chars(v.as_slice())
}

impl Notice {
    /// The text of the notice.
    pub fn message(&self) -> (text: String)
        ensures
            text@ == self@.text(),
    {
        match self {
            Notice::Menu(text) => text.clone(),
            Notice::EmptyInput => "Empty input, try again.".to_owned(),
            Notice::OutOfRange(line) => concat(line.as_str(), " is out of range, try again."),
            Notice::DirectoryMissing(path) => concat(
                "Selected path does not exist: ",
                path.as_str(),
            ),
            Notice::CreateDirectory(path) => wrap(
                "Selected path does not exist: ",
                path.as_str(),
                "\nCreate new dir?\nInput <y>/<yes> or <n>/<no>:",
            ),
            Notice::DirectoryNotCreated => "New directory not created, input a new one.".to_owned(),
            Notice::ExtensionCorrected => Error::UnknownFileType.message(),
            Notice::NewNameWanted => "Please input a new name.".to_owned(),
            Notice::MissingWhileLoading(path) => wrap(
                "FILE MNG :: file ",
                path.as_str(),
                " does not exist while loading.\nPlease input a new name.",
            ),
            Notice::Collision(path) => wrap(
                "FILE MNG :: file ",
                path.as_str(),
                " already exists while saving.\nInput:\n  'r' to replace existing file.\n  'm' to turn existing file into sequential naming.\n  'c' to turn new file into sequential naming.\n  'n' to select a new name.\n  'd' to delete the specified file.",
            ),
            Notice::Replacing(path) => wrap("Replacing ", path.as_str(), "..."),
            Notice::Renaming { from, to } => {
                let head = wrap("Renaming ", from.as_str(), " to ");
                concat(head.as_str(), to.as_str())
            },
            Notice::Deleted(path) => wrap("File ", path.as_str(), " has been deleted."),
            Notice::InvalidInput => "Invalid input, try again.".to_owned(),
        }
    }
}

} // verus!
