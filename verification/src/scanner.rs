//! What a directory offers to the menu: its sub-directories and its
//! eligible files.

use crate::config::{dot_extension, dot_extension_chars, PATH_SEPARATOR};
use crate::names::{ensure_separator, separator_free, with_separator};
use crate::text::{ends_with, find_first, has_suffix, lemma_first_index_of, to_chars};
use vstd::prelude::*;

verus! {

/// What an entry of a directory is.
#[derive(Debug, Clone, Copy, PartialEq, Eq)]
pub enum EntryKind {
    /// A regular file.
    File,
    /// A directory.
    Directory,
    /// Anything else.
    Other,
}

/// One immediate entry of a directory.
#[derive(Debug, PartialEq, Eq)]
pub struct DirEntry {
    /// Name of the entry inside its directory.
    pub name: String,
    /// What the entry is.
    pub kind: EntryKind,
}

/// A directory entry, with its name as a sequence of characters.
pub struct DirEntryView {
    pub name: Seq<char>,
    pub kind: EntryKind,
}

impl View for DirEntry {
    type V = DirEntryView;

    open spec fn view(&self) -> DirEntryView {
        DirEntryView { name: self.name@, kind: self.kind }
    }
}

impl DeepView for DirEntry {
    type V = DirEntryView;

    open spec fn deep_view(&self) -> DirEntryView {
        self@
    }
}

/// A file name is eligible when it names an entry of the directory and has
/// the managed extension: it holds no path separator, ends in a period and
/// the extension, and is longer than that.
pub open spec fn is_eligible(name: Seq<char>) -> bool {
    separator_free(name) && name.len() > dot_extension().len() && ends_with(
        name,
        dot_extension(),
    )
}

/// The names of the eligible files among `entries`, in the order of
/// `entries`.
pub open spec fn eligible_files(entries: Seq<DirEntryView>) -> Seq<Seq<char>>
    decreases entries.len(),
{
    if entries.len() == 0 {
        Seq::empty()
    } else {
        let before = eligible_files(entries.drop_last());
        let entry = entries.last();
        if entry.kind == EntryKind::File && is_eligible(entry.name) {
            before.push(entry.name)
        } else {
            before
        }
    }
}

/// The names of the directories among `entries`, each with the path
/// separator at its end, in the order of `entries`.
pub open spec fn sub_directories(entries: Seq<DirEntryView>) -> Seq<Seq<char>>
    decreases entries.len(),
{
    if entries.len() == 0 {
        Seq::empty()
    } else {
        let before = sub_directories(entries.drop_last());
        let entry = entries.last();
        if entry.kind == EntryKind::Directory {
            before.push(with_separator(entry.name))
        } else {
            before
        }
    }
}

/// Every listed file is the name of a regular file of the directory and
/// has the managed extension.
pub proof fn lemma_eligible_files(entries: Seq<DirEntryView>)
    ensures
        forall|i: int|
            0 <= i < eligible_files(entries).len() ==> {
                let name = #[trigger] eligible_files(entries)[i];
                &&& is_eligible(name)
                &&& exists|j: int|
                    0 <= j < entries.len() && #[trigger] entries[j].kind == EntryKind::File
                        && entries[j].name == name
            },
    decreases entries.len(),
{
    if entries.len() > 0 {
        let front = entries.drop_last();
        lemma_eligible_files(front);
        let listed = eligible_files(entries);
        assert forall|i: int| 0 <= i < listed.len() implies {
            let name = #[trigger] listed[i];
            &&& is_eligible(name)
            &&& exists|j: int|
                0 <= j < entries.len() && #[trigger] entries[j].kind == EntryKind::File
                    && entries[j].name == name
        } by {
            let name = listed[i];
            if i < eligible_files(front).len() {
                assert(eligible_files(front)[i] == name);
                let j = choose|j: int|
                    0 <= j < front.len() && #[trigger] front[j].kind == EntryKind::File
                        && front[j].name == name;
                assert(entries[j] == front[j]);
            } else {
                let j = entries.len() - 1;
                assert(entries[j].kind == EntryKind::File && entries[j].name == name);
            }
        }
    }
}

/// Every listed sub-directory ends in the path separator.
pub proof fn lemma_sub_directories(entries: Seq<DirEntryView>)
    ensures
        forall|i: int|
            0 <= i < sub_directories(entries).len() ==> (#[trigger] sub_directories(
                entries,
            )[i]).last() == PATH_SEPARATOR && sub_directories(entries)[i].len() > 0,
    decreases entries.len(),
{
    if entries.len() > 0 {
        let front = entries.drop_last();
        lemma_sub_directories(front);
        let listed = sub_directories(entries);
        assert forall|i: int| 0 <= i < listed.len() implies (#[trigger] listed[i]).last()
            == PATH_SEPARATOR && listed[i].len() > 0 by {
            if i < sub_directories(front).len() {
                assert(sub_directories(front)[i] == listed[i]);
            }
        }
    }
}

/// Whether `name` is eligible.
pub(crate) fn has_managed_extension(name: &str) -> (r: bool)
    ensures
        r == is_eligible(name@),
{
    let v = to_chars(name);
    let tail = dot_extension_chars();
    proof {
        lemma_first_index_of(v@, PATH_SEPARATOR);
    }
    find_first(v.as_slice(), PATH_SEPARATOR) == v.len() && v.len() > tail.len() && has_suffix(
        v.as_slice(),
        tail.as_slice(),
    )
}

/// The eligible files of a directory, given its immediate entries: the
/// regular files with the managed extension, in the order of the entries.
pub fn get_file_list(entries: &Vec<DirEntry>) -> (files: Vec<String>)
    ensures
        files.deep_view() == eligible_files(entries.deep_view()),
{
    let mut files: Vec<String> = Vec::new();
    let mut i: usize = 0;
    while i < entries.len()
        invariant
            i <= entries.len(),
            files.deep_view() == eligible_files(entries.deep_view().take(i as int)),
        decreases entries.len() - i,
    {
        let entry = &entries[i];
        proof {
            let all = entries.deep_view();
            assert(all.take(i + 1).drop_last() =~= all.take(i as int));
        }
        let is_file = match entry.kind {
            EntryKind::File => true,
            _ => false,
        };
        if is_file && has_managed_extension(entry.name.as_str()) {
            files.push(entry.name.clone());
        }
        i += 1;
    }
    assert(entries.deep_view().take(entries.len() as int) =~= entries.deep_view());
    files
}

/// The sub-directories of a directory, given its immediate entries: the
/// directories, each with the path separator at its end, in the order of
/// the entries.
pub fn get_dir_list(entries: &Vec<DirEntry>) -> (dirs: Vec<String>)
    ensures
        dirs.deep_view() == sub_directories(entries.deep_view()),
{
    let mut dirs: Vec<String> = Vec::new();
    let mut i: usize = 0;
    while i < entries.len()
        invariant
            i <= entries.len(),
            dirs.deep_view() == sub_directories(entries.deep_view().take(i as int)),
        decreases entries.len() - i,
    {
        let entry = &entries[i];
        proof {
            let all = entries.deep_view();
            assert(all.take(i + 1).drop_last() =~= all.take(i as int));
        }
        let is_dir = match entry.kind {
            EntryKind::Directory => true,
            _ => false,
        };
        if is_dir {
            let name = ensure_separator(entry.name.as_str());
            dirs.push(name);
        }
        i += 1;
    }
    assert(entries.deep_view().take(entries.len() as int) =~= entries.deep_view());
    dirs
}

} // verus!
