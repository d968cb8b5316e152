//! The text of the menu: numbered listings in columns, under a fixed
//! header.

use crate::config::{MAX_FILE_NAME_CHARS, PRINT_COLUMNS, SEQUENTIAL_FILE_PADDING_LEN};
use crate::decimal::{decimal_chars, padded_left, padded_right};
use crate::text::{append_chars, append_str, decimal, from_chars, pad_left, pad_right, to_chars};
use vstd::prelude::*;

verus! {

/// What a line of a listing starts with.
pub open spec fn indent() -> Seq<char> {
    seq![' ', ' ', ' ', ' ']
}

/// The end of a line.
pub open spec fn newline() -> Seq<char> {
    seq!['\n']
}

/// One entry of a listing: its number at the right edge of a field as wide
/// as a counter, a colon and a space, and its text at the left edge of a
/// field as wide as the longest file name.
pub open spec fn entry_text(number: nat, entry: Seq<char>) -> Seq<char> {
    pad_left(decimal(number), SEQUENTIAL_FILE_PADDING_LEN as nat, ' ') + seq![':', ' ']
        + pad_right(entry, MAX_FILE_NAME_CHARS as nat, ' ')
}

/// The first `n` entries of a listing, numbered from `start`, as many on a
/// line as there are columns. A line that is full is ended; the last line
/// is left open where it is not full.
pub open spec fn entries_text(opts: Seq<Seq<char>>, start: nat, n: nat) -> Seq<char>
    decreases n,
{
    if n == 0 {
        Seq::empty()
    } else {
        let at = (n - 1) as nat;
        entries_text(opts, start, at) + (if at % PRINT_COLUMNS as nat == 0 {
            indent()
        } else {
            Seq::empty()
        }) + entry_text(at + start, opts[at as int]) + (if n % PRINT_COLUMNS as nat == 0 {
            newline()
        } else {
            Seq::empty()
        })
    }
}

/// A listing: the note on a line of its own where there is nothing to
/// list, else the entries in columns, every line ended.
pub open spec fn option_list_text(opts: Seq<Seq<char>>, empty_note: Seq<char>, start: nat) -> Seq<
    char,
> {
    (if opts.len() == 0 {
        indent() + empty_note + newline()
    } else {
        Seq::empty()
    }) + entries_text(opts, start, opts.len()) + (if opts.len() % PRINT_COLUMNS as nat != 0 {
        newline()
    } else {
        Seq::empty()
    })
}

/// The note shown in place of an empty list of files.
pub open spec fn no_files_note() -> Seq<char> {
    "(Empty directory)"@
}

/// The note shown in place of an empty list of directories.
pub open spec fn no_directories_note() -> Seq<char> {
    "(No directories)"@
}

/// The listing of the files of a directory, numbered from `start`.
pub open spec fn dir_files_text(files: Seq<Seq<char>>, start: nat) -> Seq<char> {
    option_list_text(files, no_files_note(), start)
}

/// The listing of directories, numbered from `start`.
pub open spec fn paths_text(paths: Seq<Seq<char>>, start: nat) -> Seq<char> {
    option_list_text(paths, no_directories_note(), start)
}

/// The lines above the listings.
pub open spec fn menu_header() -> Seq<char> {
    "Input the name of the file:\n - Input a number to preselect a directory or a file.\n - Input a name ending with / to enter a directory below the current one.\n - Press CTRL+C to restart the input.\n - Press CTRL+D to exit (may need to press CTRL+C first).\n - A name ending in _ (e.g. test_), will be transformed into a sequential name.\n----\nDefault directories (relative):\n"@
}

/// The whole menu: the header, the default directories numbered from 0,
/// the current directory, its sub-directories numbered on from the
/// defaults, and its files numbered on from the sub-directories.
pub open spec fn menu_text(
    current_dir: Seq<char>,
    paths: Seq<Seq<char>>,
    sub_paths: Seq<Seq<char>>,
    files: Seq<Seq<char>>,
) -> Seq<char> {
    menu_header() + paths_text(paths, 0) + "----\nCurrent dir: "@ + current_dir
        + "\n----\nSub dirs:\n"@ + paths_text(sub_paths, paths.len()) + "----\nFiles:\n"@
        + dir_files_text(files, sub_paths.len() + paths.len())
}

/// Appends the listing of `opts`, numbered from `start`, to `out`.
fn push_option_list(out: &mut Vec<char>, opts: &[String], empty_note: &str, start: u128)
    requires
        start <= 2 * usize::MAX,
    ensures
        final(out)@ == old(out)@ + option_list_text(opts.deep_view(), empty_note@, start as nat),
{
    let ghost list = opts.deep_view();
    if opts.len() == 0 {
        append_str(out, "    ");
        append_str(out, empty_note);
        out.push('\n');
        proof {
            reveal_strlit("    ");
        }
    }
    let ghost head = out@;
    let mut cnt: usize = 0;
    while cnt < opts.len()
        invariant
            cnt <= opts.len(),
            start <= 2 * usize::MAX,
            list == opts.deep_view(),
            out@ == head + entries_text(list, start as nat, cnt as nat),
        decreases opts.len() - cnt,
    {
        if cnt % PRINT_COLUMNS == 0 {
            append_str(out, "    ");
            proof {
                reveal_strlit("    ");
            }
        }
        let number = decimal_chars(cnt as u128 + start);
        let field = padded_left(number.as_slice(), SEQUENTIAL_FILE_PADDING_LEN, ' ');
        append_chars(out, field.as_slice());
        out.push(':');
        out.push(' ');
        let text = to_chars(opts[cnt].as_str());
        let field = padded_right(text.as_slice(), MAX_FILE_NAME_CHARS, ' ');
        append_chars(out, field.as_slice());
        if (cnt + 1) % PRINT_COLUMNS == 0 {
            out.push('\n');
        }
        cnt += 1;
    }
    if opts.len() % PRINT_COLUMNS != 0 {
        out.push('\n');
    }
}

/// The numbered listing of `opts` in columns, or `empty_note` where there
/// is nothing to list. The first entry gets the number `start`.
pub fn print_option_list(opts: &[String], empty_note: &str, start: usize) -> (text: String)
    ensures
        text@ == option_list_text(opts.deep_view(), empty_note@, start as nat),
{
    let mut out: Vec<char> = Vec::new();
    push_option_list(&mut out, opts, empty_note, start as u128);
    from_chars(out.as_slice())
}

/// The numbered listing of the files of a directory.
pub fn print_dir_files(files: &[String], start: usize) -> (text: String)
    ensures
        text@ == dir_files_text(files.deep_view(), start as nat),
{
    print_option_list(files, "(Empty directory)", start)
}

/// The numbered listing of directories.
pub fn print_paths(paths: &[String], start: usize) -> (text: String)
    ensures
        text@ == paths_text(paths.deep_view(), start as nat),
{
    print_option_list(paths, "(No directories)", start)
}

/// The whole menu for the directory `current_dir`.
pub fn print_menu_options(
    current_dir: &str,
    paths: &[String],
    sub_paths: &[String],
    files: &[String],
) -> (text: String)
    ensures
        text@ == menu_text(
            current_dir@,
            paths.deep_view(),
            sub_paths.deep_view(),
            files.deep_view(),
        ),
{
    let mut out: Vec<char> = Vec::new();
    append_str(
        &mut out,
        "Input the name of the file:\n - Input a number to preselect a directory or a file.\n - Input a name ending with / to enter a directory below the current one.\n - Press CTRL+C to restart the input.\n - Press CTRL+D to exit (may need to press CTRL+C first).\n - A name ending in _ (e.g. test_), will be transformed into a sequential name.\n----\nDefault directories (relative):\n",
    );
    push_option_list(&mut out, paths, "(No directories)", 0);
    append_str(&mut out, "----\nCurrent dir: ");
    append_str(&mut out, current_dir);
    append_str(&mut out, "\n----\nSub dirs:\n");
    push_option_list(&mut out, sub_paths, "(No directories)", paths.len() as u128);
    append_str(&mut out, "----\nFiles:\n");
    push_option_list(
        &mut out,
        files,
        "(Empty directory)",
        sub_paths.len() as u128 + paths.len() as u128,
    );
    from_chars(out.as_slice())
}

} // verus!
