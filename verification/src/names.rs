//! Rules on directories, file names and input lines that the menu applies
//! before it looks at the file system.

use crate::config::{
    default_directory, dot_extension, dot_extension_chars, extension, extension_chars,
    DEFAULT_DIRECTORY, MAX_FILE_NAME_CHARS, PATH_SEPARATOR, SEQUENTIAL_NAMING_CHAR,
};
use crate::error::Error;
use crate::text::{
    append_chars, copy_range, ends_with, find_first, first_index_of, from_chars,
    lemma_first_index_of, matches_at, to_chars,
};
use vstd::prelude::*;
use vstd::string::*;

verus! {

/// `dir` with the path separator at its end, added where it was missing.
pub open spec fn with_separator(dir: Seq<char>) -> Seq<char> {
    if dir.len() > 0 && dir.last() == PATH_SEPARATOR {
        dir
    } else {
        dir.push(PATH_SEPARATOR)
    }
}

/// `name` holds no path separator: it names an entry of one directory.
pub open spec fn separator_free(name: Seq<char>) -> bool {
    !name.contains(PATH_SEPARATOR)
}

/// Number of bytes that `c` takes in UTF-8.
pub open spec fn char_byte_len(c: char) -> nat {
    if '\u{80}' > c {
        1
    } else if '\u{800}' > c {
        2
    } else if '\u{10000}' > c {
        3
    } else {
        4
    }
}

/// Number of bytes that `name` takes in UTF-8.
pub open spec fn byte_len(name: Seq<char>) -> nat
    decreases name.len(),
{
    if name.len() == 0 {
        0
    } else {
        byte_len(name.drop_last()) + char_byte_len(name.last())
    }
}

/// A file name is accepted up to [`MAX_FILE_NAME_CHARS`] bytes.
pub open spec fn name_fits(name: Seq<char>) -> bool {
    byte_len(name) <= MAX_FILE_NAME_CHARS
}

/// What stands before the first period of `name`: all of it where it holds
/// no period.
pub open spec fn stem_of(name: Seq<char>) -> Seq<char> {
    name.subrange(0, first_index_of(name, '.'))
}

/// What follows the first period of `name`, if it holds a period.
pub open spec fn extension_of(name: Seq<char>) -> Option<Seq<char>> {
    let dot = first_index_of(name, '.');
    if dot < name.len() {
        Some(name.subrange(dot + 1, name.len() as int))
    } else {
        None
    }
}

/// The name under which `name` is accepted: itself where it carries the
/// managed extension, itself with the managed extension added where it
/// carries none, and none where it carries another.
pub open spec fn accepted_name(name: Seq<char>) -> Option<Seq<char>> {
    match extension_of(name) {
        None => Some(name + dot_extension()),
        Some(given) => if given == extension() {
            Some(name)
        } else {
            None
        },
    }
}

/// `name` with the managed extension in place of its own: its stem, a
/// period and the managed extension.
pub open spec fn corrected_name(name: Seq<char>) -> Seq<char> {
    stem_of(name) + dot_extension()
}

/// Two texts without a path separator make a text without one.
pub proof fn lemma_separator_free_parts(a: Seq<char>, b: Seq<char>)
    requires
        separator_free(a),
        separator_free(b),
    ensures
        separator_free(a + b),
{
    let joined = a + b;
    assert forall|i: int| 0 <= i < joined.len() implies joined[i] != PATH_SEPARATOR by {
        if i < a.len() {
            assert(a.contains(a[i]));
        } else {
            assert(b.contains(b[i - a.len()]));
        }
    }
}

/// Every beginning of a text without a path separator is without one.
pub proof fn lemma_separator_free_beginning(name: Seq<char>, n: int)
    requires
        separator_free(name),
        0 <= n <= name.len(),
    ensures
        separator_free(name.subrange(0, n)),
{
    let head = name.subrange(0, n);
    assert forall|i: int| 0 <= i < head.len() implies head[i] != PATH_SEPARATOR by {
        assert(name.contains(name[i]));
    }
}

/// A name that is accepted has the managed extension, and so has every
/// corrected name.
pub proof fn lemma_accepted_name(name: Seq<char>)
    ensures
        match accepted_name(name) {
            Some(accepted) => ends_with(accepted, dot_extension()),
            None => true,
        },
        ends_with(corrected_name(name), dot_extension()),
        accepted_name(corrected_name(name)) == Some(corrected_name(name)),
        separator_free(name) ==> separator_free(corrected_name(name)) && match accepted_name(
            name,
        ) {
            Some(accepted) => separator_free(accepted),
            None => true,
        },
{
    if separator_free(name) {
        lemma_first_index_of(name, '.');
        lemma_separator_free_beginning(name, first_index_of(name, '.'));
        lemma_separator_free_parts(stem_of(name), dot_extension());
        lemma_separator_free_parts(name, dot_extension());
    }
    let dot = first_index_of(name, '.');
    lemma_first_index_of(name, '.');
    let width = dot_extension().len() as int;
    match extension_of(name) {
        None => {
            let accepted = name + dot_extension();
            assert(accepted.subrange(accepted.len() - width, accepted.len() as int)
                =~= dot_extension());
        },
        Some(given) => {
            if given == extension() {
                let tail = name.subrange(name.len() - width, name.len() as int);
                assert(tail =~= dot_extension());
            }
        },
    }
    let corrected = corrected_name(name);
    assert(corrected.subrange(corrected.len() - width, corrected.len() as int)
        =~= dot_extension());
    assert(first_index_of(corrected, '.') == dot) by {
        lemma_first_index_of(corrected, '.');
        assert(corrected[dot] == '.');
    }
    assert(corrected.subrange(dot + 1, corrected.len() as int) =~= extension());
}

/// The directories offered to the user: those the caller supplied, or the
/// built-in one where the caller supplied none.
pub open spec fn default_paths(paths: Option<Seq<Seq<char>>>) -> Seq<Seq<char>> {
    match paths {
        Some(list) if list.len() > 0 => list,
        _ => seq![default_directory()],
    }
}

/// The line as the menu reads it: its words, separated in the input by
/// white space, joined by the sequential-naming character.
pub open spec fn normalize(line: Seq<char>) -> Seq<char>
    decreases line.len(),
{
    if line.len() == 0 {
        Seq::empty()
    } else {
        let before = normalize(line.drop_last());
        let c = line.last();
        if is_blank(c) {
            before
        } else if before.len() > 0 && is_blank(line[line.len() - 2]) {
            before.push(SEQUENTIAL_NAMING_CHAR).push(c)
        } else {
            before.push(c)
        }
    }
}

/// `c` is white space: one of the characters that Unicode gives the
/// property White_Space.
pub open spec fn is_blank(c: char) -> bool {
    ||| '\u{9}' <= c <= '\u{d}'
    ||| c == ' '
    ||| c == '\u{85}'
    ||| c == '\u{a0}'
    ||| c == '\u{1680}'
    ||| '\u{2000}' <= c <= '\u{200a}'
    ||| c == '\u{2028}'
    ||| c == '\u{2029}'
    ||| c == '\u{202f}'
    ||| c == '\u{205f}'
    ||| c == '\u{3000}'
}

/// `s` without the white space at its end.
pub open spec fn trim_end(s: Seq<char>) -> Seq<char>
    decreases s.len(),
{
    if s.len() > 0 && is_blank(s.last()) {
        trim_end(s.drop_last())
    } else {
        s
    }
}

/// `s` without the white space at its start.
pub open spec fn trim_start(s: Seq<char>) -> Seq<char>
    decreases s.len(),
{
    if s.len() > 0 && is_blank(s[0]) {
        trim_start(s.drop_first())
    } else {
        s
    }
}

/// `s` without the white space at its start and at its end.
pub open spec fn trim(s: Seq<char>) -> Seq<char> {
    trim_start(trim_end(s))
}

/// The normalized line holds no white space.
pub proof fn lemma_normalize_has_no_blank(line: Seq<char>)
    ensures
        forall|i: int| 0 <= i < normalize(line).len() ==> !is_blank(#[trigger] normalize(line)[i]),
    decreases line.len(),
{
    if line.len() > 0 {
        lemma_normalize_has_no_blank(line.drop_last());
        let before = normalize(line.drop_last());
        assert forall|i: int| 0 <= i < normalize(line).len() implies !is_blank(
            #[trigger] normalize(line)[i],
        ) by {
            if i < before.len() {
                assert(normalize(line)[i] == before[i]);
            }
        }
    }
}

/// The two texts, one after the other.
pub(crate) fn concat(a: &str, b: &str) -> (r: String)
    ensures
        r@ == a@ + b@,
{
    let mut v = to_chars(a);
    let tail = to_chars(b);
    append_chars(&mut v, tail.as_slice());
    from_chars(v.as_slice())
}

/// `dir` with the path separator at its end, added where it was missing.
pub(crate) fn ensure_separator(dir: &str) -> (r: String)
    ensures
        r@ == with_separator(dir@),
{
    let mut v = to_chars(dir);
    if v.len() == 0 || v[v.len() - 1] != PATH_SEPARATOR {
        v.push(PATH_SEPARATOR);
    }
    from_chars(v.as_slice())
}

/// Accepts a file name by its extension.
///
/// A name with the managed extension is returned as it is, a name without
/// a period is returned with the managed extension added, and a name with
/// another extension is refused.
pub fn check_extension(name: &str) -> (r: Result<String, Error>)
    ensures
        match r {
            Ok(accepted) => accepted_name(name@) == Some(accepted@),
            Err(e) => e == Error::UnknownFileType && accepted_name(name@) is None,
        },
{
    let mut v = to_chars(name);
    let dot = find_first(v.as_slice(), '.');
    if dot < v.len() {
        let ext = extension_chars();
        if v.len() - (dot + 1) == ext.len() && matches_at(v.as_slice(), dot + 1, ext.as_slice()) {
            Ok(from_chars(v.as_slice()))
        } else {
            Err(Error::UnknownFileType)
        }
    } else {
        let tail = dot_extension_chars();
        append_chars(&mut v, tail.as_slice());
        Ok(from_chars(v.as_slice()))
    }
}

/// `name` with the managed extension in place of its own.
pub fn correct_extension(name: &str) -> (r: String)
    ensures
        r@ == corrected_name(name@),
{
    let v = to_chars(name);
    let dot = find_first(v.as_slice(), '.');
    let mut stem = copy_range(v.as_slice(), 0, dot);
    let tail = dot_extension_chars();
    append_chars(&mut stem, tail.as_slice());
    from_chars(stem.as_slice())
}

/// Accepts a file name of up to [`MAX_FILE_NAME_CHARS`] bytes and refuses a
/// longer one.
pub fn check_file_name_len(name: &str) -> (r: Result<(), Error>)
    ensures
        r is Ok <==> name_fits(name@),
        r is Err ==> r == Err::<(), Error>(Error::InvalidNameTooLong),
{
    let v = to_chars(name);
    if fits_in(v.as_slice(), MAX_FILE_NAME_CHARS) {
        Ok(())
    } else {
        Err(Error::InvalidNameTooLong)
    }
}

/// Whether `name` takes at most `limit` bytes in UTF-8.
pub(crate) fn fits_in(name: &[char], limit: usize) -> (r: bool)
    ensures
        r == (byte_len(name@) <= limit),
{
    let mut used: usize = 0;
    let mut i: usize = 0;
    while i < name.len()
        invariant
            i <= name.len(),
            used == byte_len(name@.take(i as int)),
            used <= limit,
        decreases name.len() - i,
    {
        let c = name[i];
        let width: usize = if '\u{80}' > c {
            1
        } else if '\u{800}' > c {
            2
        } else if '\u{10000}' > c {
            3
        } else {
            4
        };
        proof {
            assert(name@.take(i + 1).drop_last() =~= name@.take(i as int));
        }
        if width > limit - used {
            proof {
                lemma_byte_len_grows(name@, i + 1);
            }
            return false;
        }
        used += width;
        i += 1;
    }
    assert(name@.take(name.len() as int) =~= name@);
    true
}

/// A name takes at least as many bytes as any of its beginnings.
pub proof fn lemma_byte_len_grows(name: Seq<char>, n: int)
    requires
        0 <= n <= name.len(),
    ensures
        byte_len(name.take(n)) <= byte_len(name),
    decreases name.len(),
{
    if n == name.len() {
        assert(name.take(n) =~= name);
    } else {
        assert(name.drop_last().take(n) =~= name.take(n));
        lemma_byte_len_grows(name.drop_last(), n);
    }
}

/// The directory the menu starts in and the directories it offers.
///
/// The offered directories are those the caller supplied, or the built-in
/// one where the caller supplied none or an empty list; the first of them is
/// where the menu starts.
pub fn init_default_paths(paths: Option<Vec<String>>) -> (r: (String, Vec<String>))
    ensures
        r.1.deep_view() == default_paths(paths.deep_view()),
        r.1.len() > 0,
        r.0@ == r.1[0]@,
{
    let paths: Vec<String> = match paths {
        Some(list) => {
            if list.len() == 0 {
                built_in_paths()
            } else {
                list
            }
        },
        None => built_in_paths(),
    };
    let first: String = paths[0].clone();
    (first, paths)
}

/// The list that holds the built-in directory alone.
fn built_in_paths() -> (r: Vec<String>)
    ensures
        r.deep_view() == seq![default_directory()],
        r.len() == 1,
{
    let mut list: Vec<String> = Vec::new();
    list.push(DEFAULT_DIRECTORY.to_owned());
    proof {
        reveal_strlit("./test_dir/");
        assert(DEFAULT_DIRECTORY@ =~= default_directory());
    }
    list
}

/// The line as the menu reads it: its words joined by the sequential-naming
/// character.
pub fn normalize_line(line: &str) -> (r: String)
    ensures
        r@ == normalize(line@),
{
    let v = to_chars(line);
    let mut out: Vec<char> = Vec::new();
    let mut i: usize = 0;
    while i < v.len()
        invariant
            i <= v.len(),
            out@ == normalize(v@.take(i as int)),
        decreases v.len() - i,
    {
        let c = v[i];
        proof {
            assert(v@.take(i + 1).drop_last() =~= v@.take(i as int));
        }
        if !char_is_blank(c) {
            if out.len() > 0 && char_is_blank(v[i - 1]) {
                out.push(SEQUENTIAL_NAMING_CHAR);
            }
            out.push(c);
        }
        i += 1;
    }
    assert(v@.take(v.len() as int) =~= v@);
    from_chars(out.as_slice())
}

/// Whether `c` is white space.
pub(crate) fn char_is_blank(c: char) -> (r: bool)
    ensures
        r == is_blank(c),
{
    ('\u{9}' <= c && c <= '\u{d}') || c == ' ' || c == '\u{85}' || c == '\u{a0}' || c == '\u{1680}'
        || ('\u{2000}' <= c && c <= '\u{200a}') || c == '\u{2028}' || c == '\u{2029}' || c
        == '\u{202f}' || c == '\u{205f}' || c == '\u{3000}'
}

/// `s` without the white space at its start and at its end.
pub(crate) fn trimmed(s: &str) -> (r: Vec<char>)
    ensures
        r@ == trim(s@),
{
    let v = to_chars(s);
    let mut end: usize = v.len();
    assert(v@.take(v.len() as int) =~= v@);
    while end > 0 && char_is_blank(v[end - 1])
        invariant
            end <= v.len(),
            trim_end(v@) == trim_end(v@.take(end as int)),
        decreases end,
    {
        proof {
            assert(v@.take(end as int).drop_last() =~= v@.take(end - 1));
        }
        end -= 1;
    }
    let ghost kept = v@.take(end as int);
    let mut start: usize = 0;
    while start < end && char_is_blank(v[start])
        invariant
            start <= end <= v.len(),
            kept == v@.take(end as int),
            trim_start(kept) == trim_start(v@.subrange(start as int, end as int)),
        decreases end - start,
    {
        proof {
            assert(v@.subrange(start as int, end as int).drop_first() =~= v@.subrange(
                start + 1,
                end as int,
            ));
        }
        start += 1;
    }
    copy_range(v.as_slice(), start, end)
}

} // verus!
