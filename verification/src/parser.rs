//! Reading of one input line: a number picks a candidate, any other text
//! names a directory, a file, or both.

use crate::config::PATH_SEPARATOR;
use crate::decimal::lemma_digits_value_push;
use crate::error::Error;
use crate::names::{concat, ensure_separator, separator_free, with_separator};
use crate::sequential::{collapse, is_sequential_name, lemma_sequential_separator_free};
use crate::text::{
    all_digits, char_is_digit, copy_range, digits_value, find_last, from_chars, is_digit,
    last_index_of, lemma_last_index_of, to_chars,
};
use vstd::prelude::*;

verus! {

/// The directory part and the file part of a line that is no number.
///
/// A line that ends in the path separator is a directory and nothing else.
/// A line that holds a separator elsewhere is cut behind the last one: what
/// stands before the cut, separator included, is the directory, the rest is
/// the file. A line without a separator is a file. The empty line is
/// neither.
pub open spec fn classify(line: Seq<char>) -> (Option<Seq<char>>, Option<Seq<char>>) {
    let cut = last_index_of(line, PATH_SEPARATOR) + 1;
    if line.len() == 0 {
        (None, None)
    } else if cut == line.len() {
        (Some(line), None)
    } else if cut > 0 {
        (Some(line.subrange(0, cut)), Some(line.subrange(cut, line.len() as int)))
    } else {
        (None, Some(line))
    }
}

/// The number that `line` writes, if it writes one: decimal digits, with or
/// without a plus sign in front.
pub open spec fn index_text(line: Seq<char>) -> Option<nat> {
    let digits = if line.len() > 0 && line[0] == '+' {
        line.drop_first()
    } else {
        line
    };
    if digits.len() > 0 && all_digits(digits) {
        Some(digits_value(digits))
    } else {
        None
    }
}

/// The list that the numbers of the menu address: the default directories,
/// then the sub-directories of the current directory, then its files.
pub open spec fn candidates(
    defaults: Seq<Seq<char>>,
    sub_dirs: Seq<Seq<char>>,
    files: Seq<Seq<char>>,
) -> Seq<Seq<char>> {
    defaults + sub_dirs + files
}

/// What the candidate with the number `index` selects: a default directory
/// selects itself, a sub-directory selects its place below `current`, a
/// file selects its name, collapsed if it is sequential. A number outside
/// the list selects nothing.
pub open spec fn select(
    current: Seq<char>,
    defaults: Seq<Seq<char>>,
    sub_dirs: Seq<Seq<char>>,
    files: Seq<Seq<char>>,
    index: nat,
) -> (Option<Seq<char>>, Option<Seq<char>>) {
    let entry = candidates(defaults, sub_dirs, files)[index as int];
    if index < defaults.len() {
        (Some(with_separator(entry)), None)
    } else if index < defaults.len() + sub_dirs.len() {
        (Some(current + entry), None)
    } else if index < defaults.len() + sub_dirs.len() + files.len() {
        (None, Some(collapse(entry)))
    } else {
        (None, None)
    }
}

/// The directory and the file that `line` selects.
///
/// The empty line selects nothing. A number selects by [`select`]. Any
/// other line is cut by [`classify`] and its parts are given as they were
/// typed.
pub open spec fn parse(
    current: Seq<char>,
    line: Seq<char>,
    defaults: Seq<Seq<char>>,
    sub_dirs: Seq<Seq<char>>,
    files: Seq<Seq<char>>,
) -> (Option<Seq<char>>, Option<Seq<char>>) {
    if line.len() == 0 {
        (None, None)
    } else {
        match index_text(line) {
            Some(index) => select(current, defaults, sub_dirs, files, index),
            None => classify(line),
        }
    }
}

/// A line that is not empty and selects nothing is a number outside the
/// list of candidates.
pub open spec fn out_of_range(
    line: Seq<char>,
    defaults: Seq<Seq<char>>,
    sub_dirs: Seq<Seq<char>>,
    files: Seq<Seq<char>>,
) -> bool {
    match index_text(line) {
        Some(index) => index >= candidates(defaults, sub_dirs, files).len(),
        None => false,
    }
}

/// The numbers of the menu run from 0 to the sum of the three lengths
/// without a gap, and each part of the list is found in its own range: the
/// defaults first, the sub-directories behind them, the files last.
pub proof fn lemma_candidate_index_space(
    defaults: Seq<Seq<char>>,
    sub_dirs: Seq<Seq<char>>,
    files: Seq<Seq<char>>,
)
    ensures
        candidates(defaults, sub_dirs, files).len() == defaults.len() + sub_dirs.len()
            + files.len(),
        forall|i: int|
            0 <= i < defaults.len() ==> candidates(defaults, sub_dirs, files)[i]
                == #[trigger] defaults[i],
        forall|i: int|
            0 <= i < sub_dirs.len() ==> candidates(defaults, sub_dirs, files)[defaults.len() + i]
                == #[trigger] sub_dirs[i],
        forall|i: int|
            0 <= i < files.len() ==> candidates(defaults, sub_dirs, files)[defaults.len()
                + sub_dirs.len() + i] == #[trigger] files[i],
{
}

/// What each range of numbers selects: a default directory with the
/// separator at its end, a sub-directory below the current directory, the
/// collapsed name of a file; and nothing from the length of the list on.
pub proof fn lemma_select_by_range(
    current: Seq<char>,
    defaults: Seq<Seq<char>>,
    sub_dirs: Seq<Seq<char>>,
    files: Seq<Seq<char>>,
    index: nat,
)
    ensures
        index < defaults.len() ==> select(current, defaults, sub_dirs, files, index) == (
            Some(with_separator(defaults[index as int])),
            None::<Seq<char>>,
        ),
        defaults.len() <= index < defaults.len() + sub_dirs.len() ==> select(
            current,
            defaults,
            sub_dirs,
            files,
            index,
        ) == (Some(current + sub_dirs[index - defaults.len()]), None::<Seq<char>>),
        defaults.len() + sub_dirs.len() <= index < candidates(defaults, sub_dirs, files).len()
            ==> select(current, defaults, sub_dirs, files, index) == (
            None::<Seq<char>>,
            Some(collapse(files[index - defaults.len() - sub_dirs.len()])),
        ),
        index >= candidates(defaults, sub_dirs, files).len() ==> select(
            current,
            defaults,
            sub_dirs,
            files,
            index,
        ) == (None::<Seq<char>>, None::<Seq<char>>),
{
}

/// The parts of a line that is no number: the line is its directory part
/// followed by its file part; the directory part ends in the separator; the
/// file part is not empty and holds no separator; and a line that is not
/// empty has at least one part.
pub proof fn lemma_classify(line: Seq<char>)
    ensures
        match classify(line).0 {
            Some(dir) => dir.len() > 0 && dir.last() == PATH_SEPARATOR,
            None => true,
        },
        match classify(line).1 {
            Some(file) => file.len() > 0 && !file.contains(PATH_SEPARATOR),
            None => true,
        },
        line.len() > 0 ==> classify(line).0 is Some || classify(line).1 is Some,
        line == (match classify(line).0 {
            Some(dir) => dir,
            None => Seq::empty(),
        }) + (match classify(line).1 {
            Some(file) => file,
            None => Seq::empty(),
        }),
{
    lemma_last_index_of(line, PATH_SEPARATOR);
    let cut = last_index_of(line, PATH_SEPARATOR) + 1;
    if 0 < cut < line.len() {
        let file = line.subrange(cut, line.len() as int);
        assert forall|i: int| 0 <= i < file.len() implies file[i] != PATH_SEPARATOR by {
            assert(file[i] == line[cut + i]);
        }
    }
}

/// A line that holds a character which is neither a digit nor a plus sign
/// in front writes no number, and what it selects is its directory part and
/// its file part as typed: the current directory and the candidates have no
/// say in it.
pub proof fn lemma_parse_of_text(
    current: Seq<char>,
    line: Seq<char>,
    defaults: Seq<Seq<char>>,
    sub_dirs: Seq<Seq<char>>,
    files: Seq<Seq<char>>,
    at: int,
)
    requires
        0 <= at < line.len(),
        !is_digit(line[at]),
        at > 0 || line[0] != '+',
    ensures
        index_text(line) is None,
        parse(current, line, defaults, sub_dirs, files) == classify(line),
{
    if line[0] == '+' {
        assert(line.drop_first()[at - 1] == line[at]);
    }
}

/// A line that writes no number selects its parts as typed, and the empty
/// line selects nothing, as it has no parts.
pub proof fn lemma_parse_without_number(
    current: Seq<char>,
    line: Seq<char>,
    defaults: Seq<Seq<char>>,
    sub_dirs: Seq<Seq<char>>,
    files: Seq<Seq<char>>,
)
    requires
        index_text(line) is None,
    ensures
        parse(current, line, defaults, sub_dirs, files) == classify(line),
{
}

/// A line selects nothing exactly when it is empty or a number outside the
/// list of candidates.
pub proof fn lemma_parse_selects_nothing(
    current: Seq<char>,
    line: Seq<char>,
    defaults: Seq<Seq<char>>,
    sub_dirs: Seq<Seq<char>>,
    files: Seq<Seq<char>>,
)
    ensures
        parse(current, line, defaults, sub_dirs, files) == (None::<Seq<char>>, None::<Seq<char>>)
            <==> line.len() == 0 || out_of_range(line, defaults, sub_dirs, files),
{
    lemma_classify(line);
}

/// A directory that a line selects ends in the path separator, provided
/// the listed sub-directories do.
pub proof fn lemma_parse_directory(
    current: Seq<char>,
    line: Seq<char>,
    defaults: Seq<Seq<char>>,
    sub_dirs: Seq<Seq<char>>,
    files: Seq<Seq<char>>,
)
    requires
        forall|i: int|
            0 <= i < sub_dirs.len() ==> (#[trigger] sub_dirs[i]).len() > 0 && sub_dirs[i].last()
                == PATH_SEPARATOR,
    ensures
        match parse(current, line, defaults, sub_dirs, files).0 {
            Some(dir) => dir.len() > 0 && dir.last() == PATH_SEPARATOR,
            None => true,
        },
{
    lemma_classify(line);
}

/// A file name that a line selects holds no path separator, provided the
/// listed files hold none.
pub proof fn lemma_parse_file(
    current: Seq<char>,
    line: Seq<char>,
    defaults: Seq<Seq<char>>,
    sub_dirs: Seq<Seq<char>>,
    files: Seq<Seq<char>>,
)
    requires
        forall|i: int| 0 <= i < files.len() ==> separator_free(#[trigger] files[i]),
    ensures
        match parse(current, line, defaults, sub_dirs, files).1 {
            Some(file) => separator_free(file),
            None => true,
        },
{
    lemma_classify(line);
    match index_text(line) {
        Some(index) => {
            let first = defaults.len() + sub_dirs.len();
            if first <= index < first + files.len() {
                let entry = files[index - first];
                assert(candidates(defaults, sub_dirs, files)[index as int] == entry);
                lemma_sequential_separator_free(entry, 0);
            }
        },
        None => {},
    }
}

/// The directory part and the file part of a line, by [`classify`].
pub fn check_if_path_or_file(line: &str) -> (parts: (Option<String>, Option<String>))
    ensures
        (parts.0.deep_view(), parts.1.deep_view()) == classify(line@),
{
    let v = to_chars(line);
    if v.len() == 0 {
        return (None, None);
    }
    match find_last(v.as_slice(), PATH_SEPARATOR) {
        Some(at) => {
            proof {
                lemma_last_index_of(v@, PATH_SEPARATOR);
            }
            if at + 1 == v.len() {
                (Some(from_chars(v.as_slice())), None)
            } else {
                let dir = copy_range(v.as_slice(), 0, at + 1);
                let file = copy_range(v.as_slice(), at + 1, v.len());
                (Some(from_chars(dir.as_slice())), Some(from_chars(file.as_slice())))
            }
        },
        None => (None, Some(from_chars(v.as_slice()))),
    }
}

/// What a line says as a number, measured against the number of candidates.
enum IndexText {
    /// The line writes no number.
    NotANumber,
    /// The line writes a number at or above the number of candidates.
    OutOfRange,
    /// The line writes this number, which is below the number of
    /// candidates.
    Index(u128),
}

/// The value of the digits read so far never exceeds the value of the
/// whole row.
proof fn lemma_digits_value_prefix(s: Seq<char>, n: int)
    requires
        0 <= n <= s.len(),
    ensures
        digits_value(s.take(n)) <= digits_value(s),
    decreases s.len(),
{
    if n == s.len() {
        assert(s.take(n) =~= s);
    } else {
        assert(s.drop_last().take(n) =~= s.take(n));
        lemma_digits_value_prefix(s.drop_last(), n);
    }
}

/// Reads `line` as a number and holds it against `count`, the number of
/// candidates.
fn read_index(line: &[char], count: u128) -> (r: IndexText)
    requires
        count <= 3 * usize::MAX,
    ensures
        match index_text(line@) {
            None => r is NotANumber,
            Some(n) => if n < count {
                r == IndexText::Index(n as u128)
            } else {
                r is OutOfRange
            },
        },
{
    let start: usize = if line.len() > 0 && line[0] == '+' {
        1
    } else {
        0
    };
    let ghost digits = line@.subrange(start as int, line.len() as int);
    assert(start == 0 ==> digits =~= line@);
    if start == line.len() {
        return IndexText::NotANumber;
    }
    let mut i: usize = start;
    while i < line.len()
        invariant
            start <= i <= line.len(),
            digits == line@.subrange(start as int, line.len() as int),
            all_digits(digits.take(i - start)),
            index_text(line@) == if all_digits(digits) {
                Some(digits_value(digits))
            } else {
                None
            },
        decreases line.len() - i,
    {
        if !char_is_digit(line[i]) {
            assert(digits[i - start] == line@[i as int]);
            return IndexText::NotANumber;
        }
        proof {
            let before = digits.take(i - start);
            let after = digits.take(i - start + 1);
            assert forall|j: int| 0 <= j < after.len() implies is_digit(#[trigger] after[j]) by {
                if j < before.len() {
                    assert(after[j] == before[j]);
                }
            }
        }
        i += 1;
    }
    assert(digits.take(digits.len() as int) =~= digits);
    let mut value: u128 = 0;
    let mut i: usize = start;
    while i < line.len()
        invariant
            start <= i <= line.len(),
            count <= 3 * usize::MAX,
            digits == line@.subrange(start as int, line.len() as int),
            all_digits(digits),
            index_text(line@) == Some(digits_value(digits)),
            value == digits_value(digits.take(i - start)),
            value < count || i == start,
        decreases line.len() - i,
    {
        let c = line[i];
        proof {
            let before = digits.take(i - start);
            let after = digits.take(i - start + 1);
            assert(after =~= before.push(c));
            lemma_digits_value_push(before, c);
            lemma_digits_value_prefix(digits, i - start + 1);
        }
        let d: u128 = (c as u32 - '0' as u32) as u128;
        let next: u128 = value * 10 + d;
        if next >= count {
            return IndexText::OutOfRange;
        }
        value = next;
        i += 1;
    }
    IndexText::Index(value)
}

/// Whether `line` writes a number, by [`index_text`].
pub fn is_index(line: &str) -> (r: bool)
    ensures
        r == index_text(line@) is Some,
{
    let v = to_chars(line);
    match read_index(v.as_slice(), 0) {
        IndexText::NotANumber => false,
        _ => true,
    }
}

/// The directory and the file that `line` selects, by [`parse`]. Reading a
/// line never fails.
///
/// `current_path` is the current directory, `dirs` the default
/// directories, `sub_paths` and `files` the sub-directories and the
/// eligible files of the current directory.
pub fn parse_menu_file(
    current_path: &str,
    line: &str,
    dirs: &[String],
    sub_paths: &[String],
    files: &[String],
) -> (r: Result<(Option<String>, Option<String>), Error>)
    ensures
        r is Ok,
        ((r->Ok_0).0.deep_view(), (r->Ok_0).1.deep_view()) == parse(
            current_path@,
            line@,
            dirs.deep_view(),
            sub_paths.deep_view(),
            files.deep_view(),
        ),
{
    let v = to_chars(line);
    if v.len() == 0 {
        return Ok((None, None));
    }
    let count: u128 = dirs.len() as u128 + sub_paths.len() as u128 + files.len() as u128;
    let parts = match read_index(v.as_slice(), count) {
        IndexText::NotANumber => check_if_path_or_file(line),
        IndexText::OutOfRange => (None, None),
        IndexText::Index(n) => {
            if n < dirs.len() as u128 {
                let at = n as usize;
                (Some(ensure_separator(dirs[at].as_str())), None)
            } else if n - (dirs.len() as u128) < sub_paths.len() as u128 {
                let at = (n - dirs.len() as u128) as usize;
                (Some(concat(current_path, sub_paths[at].as_str())), None)
            } else {
                let at = (n - dirs.len() as u128 - sub_paths.len() as u128) as usize;
                (None, Some(is_sequential_name(files[at].clone())))
            }
        },
    };
    Ok(parts)
}

} // verus!
