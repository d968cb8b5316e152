//! The naming convention of the managed files, fixed for the whole process.

use vstd::prelude::*;

verus! {

/// Directory offered when the caller supplies none.
pub const DEFAULT_DIRECTORY: &'static str = "./test_dir/";

/// Extension of the managed files, without the leading period.
pub const DEFAULT_MAP_TYPE: &'static str = "map";

/// Number of digits of the zero-padded counter of a sequential name.
pub const SEQUENTIAL_FILE_PADDING_LEN: usize = 3;

/// Character that separates the stem of a sequential name from its counter.
pub const SEQUENTIAL_NAMING_CHAR: char = '_';

/// Largest counter a sequential name can carry.
pub const SEQUENTIAL_FILE_MAX_NUMBER: u16 = 999;

/// Number of entries shown on one line of a listing.
pub const PRINT_COLUMNS: usize = 4;

/// Longest accepted file name, in bytes.
pub const MAX_FILE_NAME_CHARS: usize = 30;

/// Character that ends every directory and separates path components.
pub const PATH_SEPARATOR: char = '/';

/// The characters of [`DEFAULT_MAP_TYPE`].
pub open spec fn extension() -> Seq<char> {
    seq!['m', 'a', 'p']
}

/// The characters of [`DEFAULT_DIRECTORY`].
pub open spec fn default_directory() -> Seq<char> {
    seq!['.', '/', 't', 'e', 's', 't', '_', 'd', 'i', 'r', '/']
}

/// What follows the stem of every managed file: a period and the extension.
pub open spec fn dot_extension() -> Seq<char> {
    seq!['.'] + extension()
}

/// Ten to the power `n`.
pub open spec fn pow10(n: nat) -> nat
    decreases n,
{
    if n == 0 {
        1
    } else {
        10 * pow10((n - 1) as nat)
    }
}

/// The counter width is the number of digits of the largest counter: every
/// counter up to the maximum fits the padding, and the maximum is the largest
/// number that does.
pub proof fn lemma_counter_width_matches_maximum()
    ensures
        SEQUENTIAL_FILE_MAX_NUMBER + 1 == pow10(SEQUENTIAL_FILE_PADDING_LEN as nat),
        DEFAULT_MAP_TYPE@ == extension(),
        DEFAULT_DIRECTORY@ == default_directory(),
        MAX_FILE_NAME_CHARS >= dot_extension().len() + 1 + SEQUENTIAL_FILE_PADDING_LEN,
{
    reveal_with_fuel(pow10, 4);
    reveal_strlit("map");
    reveal_strlit("./test_dir/");
}

/// The extension as an owned list of characters.
pub(crate) fn extension_chars() -> (v: Vec<char>)
    ensures
        v@ == extension(),
{
    let mut v: Vec<char> = Vec::new();
    v.push('m');
    v.push('a');
    v.push('p');
    v
}

/// A period followed by the extension, as an owned list of characters.
pub(crate) fn dot_extension_chars() -> (v: Vec<char>)
    ensures
        v@ == dot_extension(),
{
    let mut v: Vec<char> = Vec::new();
    v.push('.');
    v.push('m');
    v.push('a');
    v.push('p');
    v
}

} // verus!
