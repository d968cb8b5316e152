//! Sequential names: a base that ends in the separator, a zero-padded
//! counter, a period and the extension.

use crate::config::{
    dot_extension, dot_extension_chars, pow10, PATH_SEPARATOR, SEQUENTIAL_FILE_MAX_NUMBER,
    SEQUENTIAL_FILE_PADDING_LEN, SEQUENTIAL_NAMING_CHAR,
};
use crate::decimal::{
    decimal_chars, lemma_zero_padded, lemma_zero_padded_of_digits, padded_left,
};
use crate::error::Error;
use crate::names::{
    lemma_separator_free_beginning, lemma_separator_free_parts, separator_free,
};
use crate::text::{
    all_digits, append_chars, char_is_digit, copy_range, digits_value, ends_with, from_chars,
    is_digit, matches_at, to_chars, zero_padded,
};
use vstd::prelude::*;

verus! {

/// The name that `base` and `counter` expand to: the base, the counter with
/// zeros in front up to the padding width, a period and the extension.
pub open spec fn sequential_name(base: Seq<char>, counter: nat) -> Seq<char> {
    base + zero_padded(counter, SEQUENTIAL_FILE_PADDING_LEN as nat) + dot_extension()
}

/// The counter that `entry` carries behind `base`, if `entry` is `base`
/// followed by exactly as many digits as the padding width, a period and the
/// extension.
pub open spec fn counter_of(entry: Seq<char>, base: Seq<char>) -> Option<nat> {
    let start = base.len() as int;
    let end = start + SEQUENTIAL_FILE_PADDING_LEN;
    if entry.len() == end + dot_extension().len() && entry.subrange(0, start) == base
        && all_digits(entry.subrange(start, end)) && entry.subrange(end, entry.len() as int)
        == dot_extension() {
        Some(digits_value(entry.subrange(start, end)))
    } else {
        None
    }
}

/// The largest counter that an entry of `files` carries behind `base`, if
/// any entry carries one.
pub open spec fn highest_counter(files: Seq<Seq<char>>, base: Seq<char>) -> Option<nat>
    decreases files.len(),
{
    if files.len() == 0 {
        None
    } else {
        let before = highest_counter(files.drop_last(), base);
        match counter_of(files.last(), base) {
            None => before,
            Some(k) => match before {
                Some(m) if m >= k => before,
                _ => Some(k),
            },
        }
    }
}

/// The counter that a request for `base` yields. A request for the next name
/// gets one past the largest counter in use, a request for the last name gets
/// the largest counter in use; both get 0 where none is in use.
pub open spec fn derived_counter(files: Seq<Seq<char>>, base: Seq<char>, next: bool) -> nat {
    match highest_counter(files, base) {
        None => 0,
        Some(m) => if next {
            m + 1
        } else {
            m
        },
    }
}

/// The name that a request for `base` yields, or `None` where its counter
/// would be above the maximum.
pub open spec fn derived_name(files: Seq<Seq<char>>, base: Seq<char>, next: bool) -> Option<
    Seq<char>,
> {
    let counter = derived_counter(files, base, next);
    if counter <= SEQUENTIAL_FILE_MAX_NUMBER {
        Some(sequential_name(base, counter))
    } else {
        None
    }
}

/// Number of characters that a sequential name carries behind its stem: the
/// separator, the counter, the period and the extension.
pub open spec fn sequential_tail_len() -> nat {
    1 + SEQUENTIAL_FILE_PADDING_LEN as nat + dot_extension().len()
}

/// `name` ends in the separator, exactly as many digits as the padding
/// width, a period and the extension.
pub open spec fn is_sequential(name: Seq<char>) -> bool {
    let stem_len = name.len() - sequential_tail_len();
    &&& stem_len >= 0
    &&& name[stem_len] == SEQUENTIAL_NAMING_CHAR
    &&& all_digits(name.subrange(stem_len + 1, stem_len + 1 + SEQUENTIAL_FILE_PADDING_LEN))
    &&& ends_with(name, dot_extension())
}

/// The stem of a sequential name, without the separator and what follows
/// it; any other name unchanged.
pub open spec fn collapse(name: Seq<char>) -> Seq<char> {
    if is_sequential(name) {
        name.subrange(0, name.len() - sequential_tail_len())
    } else {
        name
    }
}

/// An entry carries the counter `k` behind `base` exactly when `k` is at
/// most the maximum and the entry is the name that `base` and `k` expand to.
pub proof fn lemma_counter_of(entry: Seq<char>, base: Seq<char>, k: nat)
    ensures
        counter_of(entry, base) == Some(k) <==> k <= SEQUENTIAL_FILE_MAX_NUMBER && entry
            == sequential_name(base, k),
{
    reveal_with_fuel(pow10, 4);
    let width = SEQUENTIAL_FILE_PADDING_LEN as nat;
    let start = base.len() as int;
    let end = start + width;
    if counter_of(entry, base) == Some(k) {
        let digits = entry.subrange(start, end);
        lemma_zero_padded_of_digits(digits);
        assert(entry =~= base + digits + dot_extension());
    }
    if k <= SEQUENTIAL_FILE_MAX_NUMBER && entry == sequential_name(base, k) {
        lemma_zero_padded(k, width);
        assert(entry.subrange(0, start) =~= base);
        assert(entry.subrange(start, end) =~= zero_padded(k, width));
        assert(entry.subrange(end, entry.len() as int) =~= dot_extension());
    }
}

/// For a file with the managed extension, the counter is found by length
/// and beginning alone: the file carries a counter behind `base` exactly
/// when what is left of it, once the counter, the period and the extension
/// are cut off, is `base`, and the counter is made of digits.
pub proof fn lemma_counter_of_listed(entry: Seq<char>, base: Seq<char>)
    requires
        ends_with(entry, dot_extension()),
    ensures
        counter_of(entry, base) is Some <==> {
            let cut = entry.len() - (SEQUENTIAL_FILE_PADDING_LEN + dot_extension().len());
            &&& cut >= 0
            &&& entry.subrange(0, cut) == base
            &&& all_digits(entry.subrange(cut, cut + SEQUENTIAL_FILE_PADDING_LEN))
        },
{
    let cut = entry.len() - (SEQUENTIAL_FILE_PADDING_LEN + dot_extension().len());
    if cut >= 0 && entry.subrange(0, cut) == base {
        assert(entry.subrange(cut + SEQUENTIAL_FILE_PADDING_LEN, entry.len() as int)
            =~= entry.subrange(entry.len() - dot_extension().len(), entry.len() as int));
    }
    if counter_of(entry, base) is Some {
        assert(cut == base.len());
    }
}

/// The largest counter is carried by an entry, no entry carries a larger
/// one, and there is none exactly when no entry carries a counter.
pub proof fn lemma_highest_counter(files: Seq<Seq<char>>, base: Seq<char>)
    ensures
        match highest_counter(files, base) {
            Some(m) => {
                &&& m <= SEQUENTIAL_FILE_MAX_NUMBER
                &&& exists|i: int| 0 <= i < files.len() && counter_of(#[trigger] files[i], base) == Some(m)
                &&& forall|i: int|
                    0 <= i < files.len() ==> match counter_of(#[trigger] files[i], base) {
                        Some(k) => k <= m,
                        None => true,
                    }
            },
            None => forall|i: int|
                0 <= i < files.len() ==> counter_of(#[trigger] files[i], base) is None,
        },
    decreases files.len(),
{
    if files.len() == 0 {
    } else {
        let front = files.drop_last();
        lemma_highest_counter(front, base);
        assert forall|i: int| 0 <= i < front.len() implies front[i] == files[i] by {}
        let last = files.len() - 1;
        match counter_of(files.last(), base) {
            None => {
                match highest_counter(front, base) {
                    Some(m) => {
                        let i = choose|i: int|
                            0 <= i < front.len() && counter_of(#[trigger] front[i], base) == Some(
                                m,
                            );
                        assert(counter_of(files[i], base) == Some(m));
                        assert forall|j: int| 0 <= j < files.len() implies match counter_of(
                            #[trigger] files[j],
                            base,
                        ) {
                            Some(k) => k <= m,
                            None => true,
                        } by {
                            if j < last {
                                assert(front[j] == files[j]);
                            }
                        }
                    },
                    None => {
                        assert forall|j: int| 0 <= j < files.len() implies counter_of(
                            #[trigger] files[j],
                            base,
                        ) is None by {
                            if j < last {
                                assert(front[j] == files[j]);
                            }
                        }
                    },
                }
            },
            Some(k) => {
                lemma_counter_of(files.last(), base, k);
                match highest_counter(front, base) {
                    Some(m) => {
                        let i = choose|i: int|
                            0 <= i < front.len() && counter_of(#[trigger] front[i], base) == Some(
                                m,
                            );
                        assert(counter_of(files[i], base) == Some(m));
                        assert(counter_of(files[last], base) == Some(k));
                        let top = if m >= k {
                            m
                        } else {
                            k
                        };
                        assert(highest_counter(files, base) == Some(top));
                        assert forall|j: int| 0 <= j < files.len() implies match counter_of(
                            #[trigger] files[j],
                            base,
                        ) {
                            Some(c) => c <= top,
                            None => true,
                        } by {
                            if j < last {
                                assert(front[j] == files[j]);
                            }
                        }
                    },
                    None => {
                        assert(counter_of(files[last], base) == Some(k));
                        assert forall|j: int| 0 <= j < files.len() implies match counter_of(
                            #[trigger] files[j],
                            base,
                        ) {
                            Some(c) => c <= k,
                            None => true,
                        } by {
                            if j < last {
                                assert(front[j] == files[j]);
                            }
                        }
                    },
                }
            },
        }
    }
}

/// Where the directory holds the names of `base` with the counters 0 to `k`
/// and none with a larger counter, the next name carries `k + 1` and the
/// last name carries `k`.
pub proof fn lemma_derive_after_run(files: Seq<Seq<char>>, base: Seq<char>, k: nat)
    requires
        k <= SEQUENTIAL_FILE_MAX_NUMBER,
        forall|j: nat| j <= k ==> files.contains(#[trigger] sequential_name(base, j)),
        forall|i: int, c: nat|
            0 <= i < files.len() && c <= SEQUENTIAL_FILE_MAX_NUMBER && #[trigger] files[i]
                == #[trigger] sequential_name(base, c) ==> c <= k,
    ensures
        derived_counter(files, base, true) == k + 1,
        derived_counter(files, base, false) == k,
{
    lemma_highest_counter(files, base);
    let name = sequential_name(base, k);
    assert(files.contains(name));
    let at = choose|i: int| 0 <= i < files.len() && files[i] == name;
    lemma_counter_of(files[at], base, k);
    assert(counter_of(files[at], base) == Some(k));
    let m = highest_counter(files, base)->0;
    let top = choose|i: int| 0 <= i < files.len() && counter_of(#[trigger] files[i], base) == Some(m);
    lemma_counter_of(files[top], base, m);
    assert(files[top] == sequential_name(base, m));
}

/// Where no entry of the directory is a name of `base`, the next name and
/// the last name both carry 0.
pub proof fn lemma_derive_without_match(files: Seq<Seq<char>>, base: Seq<char>)
    requires
        forall|i: int, c: nat|
            0 <= i < files.len() && c <= SEQUENTIAL_FILE_MAX_NUMBER ==> #[trigger] files[i]
                != #[trigger] sequential_name(base, c),
    ensures
        derived_counter(files, base, true) == 0,
        derived_counter(files, base, false) == 0,
{
    lemma_highest_counter(files, base);
    if highest_counter(files, base) is Some {
        let m = highest_counter(files, base)->0;
        let top = choose|i: int| 0 <= i < files.len() && counter_of(#[trigger] files[i], base) == Some(m);
        lemma_counter_of(files[top], base, m);
        assert(files[top] == sequential_name(base, m));
    }
}

/// A request fails exactly when it asks for the next name and the largest
/// counter in use is the maximum. A request for the last name never fails,
/// and a request for the next name succeeds whenever the largest counter in
/// use is below the maximum.
pub proof fn lemma_overflow_at_maximum(files: Seq<Seq<char>>, base: Seq<char>, next: bool)
    ensures
        derived_name(files, base, next) is None <==> next && highest_counter(files, base) == Some(
            SEQUENTIAL_FILE_MAX_NUMBER as nat,
        ),
{
    lemma_highest_counter(files, base);
}

/// A name is sequential exactly when it is the expansion of a stem, the
/// separator and a counter up to the maximum; that stem is then what it
/// collapses to.
pub proof fn lemma_is_sequential(name: Seq<char>)
    ensures
        is_sequential(name) <==> exists|stem: Seq<char>, k: nat|
            k <= SEQUENTIAL_FILE_MAX_NUMBER && name == #[trigger] sequential_name(
                stem.push(SEQUENTIAL_NAMING_CHAR),
                k,
            ),
{
    let stem_len = name.len() - sequential_tail_len();
    if is_sequential(name) {
        let stem = name.subrange(0, stem_len);
        let base = stem.push(SEQUENTIAL_NAMING_CHAR);
        let digits = name.subrange(stem_len + 1, stem_len + 1 + SEQUENTIAL_FILE_PADDING_LEN);
        assert(name.subrange(0, base.len() as int) =~= base);
        assert(name.subrange(base.len() as int, base.len() + SEQUENTIAL_FILE_PADDING_LEN)
            =~= digits);
        assert(name.subrange(base.len() + SEQUENTIAL_FILE_PADDING_LEN, name.len() as int)
            =~= dot_extension());
        let k = digits_value(digits);
        assert(counter_of(name, base) == Some(k));
        lemma_counter_of(name, base, k);
    }
    if exists|stem: Seq<char>, k: nat|
        k <= SEQUENTIAL_FILE_MAX_NUMBER && name == #[trigger] sequential_name(
            stem.push(SEQUENTIAL_NAMING_CHAR),
            k,
        ) {
        let (stem, k) = choose|stem: Seq<char>, k: nat|
            k <= SEQUENTIAL_FILE_MAX_NUMBER && name == #[trigger] sequential_name(
                stem.push(SEQUENTIAL_NAMING_CHAR),
                k,
            );
        lemma_collapse_expand(stem, k);
    }
}

/// Collapsing the expansion of a stem, the separator and a counter up to
/// the maximum gives the stem back.
pub proof fn lemma_collapse_expand(stem: Seq<char>, k: nat)
    requires
        k <= SEQUENTIAL_FILE_MAX_NUMBER,
    ensures
        is_sequential(sequential_name(stem.push(SEQUENTIAL_NAMING_CHAR), k)),
        collapse(sequential_name(stem.push(SEQUENTIAL_NAMING_CHAR), k)) == stem,
{
    reveal_with_fuel(pow10, 4);
    let width = SEQUENTIAL_FILE_PADDING_LEN as nat;
    let base = stem.push(SEQUENTIAL_NAMING_CHAR);
    let name = sequential_name(base, k);
    lemma_zero_padded(k, width);
    let stem_len = stem.len() as int;
    assert(name.len() == stem_len + sequential_tail_len());
    assert(name[stem_len] == SEQUENTIAL_NAMING_CHAR);
    assert(name.subrange(stem_len + 1, stem_len + 1 + width) =~= zero_padded(k, width));
    assert(name.subrange(name.len() - dot_extension().len(), name.len() as int)
        =~= dot_extension());
    assert(name.subrange(0, stem_len) =~= stem);
}

/// The expansion of a base without a path separator holds none, and the
/// stem that a name without a path separator collapses to holds none.
pub proof fn lemma_sequential_separator_free(name: Seq<char>, k: nat)
    requires
        separator_free(name),
        k <= SEQUENTIAL_FILE_MAX_NUMBER,
    ensures
        separator_free(sequential_name(name, k)),
        separator_free(collapse(name)),
{
    reveal_with_fuel(pow10, 4);
    let digits = zero_padded(k, SEQUENTIAL_FILE_PADDING_LEN as nat);
    lemma_zero_padded(k, SEQUENTIAL_FILE_PADDING_LEN as nat);
    assert forall|i: int| 0 <= i < digits.len() implies digits[i] != PATH_SEPARATOR by {
        assert(is_digit(digits[i]));
    }
    lemma_separator_free_parts(name, digits);
    lemma_separator_free_parts(name + digits, dot_extension());
    if is_sequential(name) {
        lemma_separator_free_beginning(name, name.len() - sequential_tail_len());
    }
}

/// The sequential name of `base_name` with the counter `cnt`. The base
/// already ends in the separator; none is added.
pub fn get_sequential_name_from_count(base_name: &str, cnt: u16) -> (name: String)
    ensures
        name@ == sequential_name(base_name@, cnt as nat),
{
    let mut v = to_chars(base_name);
    let digits = decimal_chars(cnt as u128);
    let padded = padded_left(digits.as_slice(), SEQUENTIAL_FILE_PADDING_LEN, '0');
    append_chars(&mut v, padded.as_slice());
    let tail = dot_extension_chars();
    append_chars(&mut v, tail.as_slice());
    from_chars(v.as_slice())
}

/// The counter that `entry` carries behind `base`, if it carries one.
pub(crate) fn entry_counter(entry: &[char], base: &[char]) -> (counter: Option<u16>)
    ensures
        match counter {
            Some(k) => counter_of(entry@, base@) == Some(k as nat),
            None => counter_of(entry@, base@) is None,
        },
{
    let tail = dot_extension_chars();
    if base.len() > entry.len() || entry.len() - base.len() != SEQUENTIAL_FILE_PADDING_LEN
        + tail.len() {
        return None;
    }
    let start = base.len();
    let end = start + SEQUENTIAL_FILE_PADDING_LEN;
    if !matches_at(entry, 0, base) || !matches_at(entry, end, tail.as_slice()) {
        return None;
    }
    let mut value: u16 = 0;
    let mut i: usize = start;
    while i < end
        invariant
            start <= i <= end,
            start == base.len(),
            end == start + SEQUENTIAL_FILE_PADDING_LEN,
            end <= entry.len(),
            all_digits(entry@.subrange(start as int, i as int)),
            value == digits_value(entry@.subrange(start as int, i as int)),
            value < pow10((i - start) as nat),
        decreases end - i,
    {
        let c = entry[i];
        if !char_is_digit(c) {
            proof {
                let digits = entry@.subrange(start as int, end as int);
                assert(digits[i - start] == c);
            }
            return None;
        }
        proof {
            reveal_with_fuel(pow10, 4);
            let before = entry@.subrange(start as int, i as int);
            let after = entry@.subrange(start as int, i + 1);
            assert(after.drop_last() =~= before);
        }
        value = value * 10 + (c as u16 - '0' as u16);
        i += 1;
    }
    Some(value)
}

/// The name with which a request for `base_name` is answered, given the
/// eligible files of the directory.
///
/// A request for the next name (`next`) gets the counter one past the
/// largest in use, a request for the last name gets the largest in use, and
/// both get 0 where no file of the directory is a name of `base_name`. The
/// request fails where that counter is above the maximum.
pub fn get_sequential_name(file_list: &Vec<String>, base_name: &str, next: bool) -> (name: Result<
    String,
    Error,
>)
    ensures
        match name {
            Ok(text) => derived_name(file_list.deep_view(), base_name@, next) == Some(text@),
            Err(e) => e == Error::InvalidSequentialName && derived_name(
                file_list.deep_view(),
                base_name@,
                next,
            ) is None,
        },
{
    let base = to_chars(base_name);
    let mut highest: Option<u16> = None;
    let mut i: usize = 0;
    while i < file_list.len()
        invariant
            i <= file_list.len(),
            base@ == base_name@,
            match highest {
                Some(m) => highest_counter(file_list.deep_view().take(i as int), base@) == Some(
                    m as nat,
                ),
                None => highest_counter(file_list.deep_view().take(i as int), base@) is None,
            },
        decreases file_list.len() - i,
    {
        let entry = to_chars(file_list[i].as_str());
        let found = entry_counter(entry.as_slice(), base.as_slice());
        proof {
            let files = file_list.deep_view();
            assert(files.take(i + 1).drop_last() =~= files.take(i as int));
        }
        match found {
            Some(k) => {
                match highest {
                    Some(m) => {
                        if k > m {
                            highest = Some(k);
                        }
                    },
                    None => {
                        highest = Some(k);
                    },
                }
            },
            None => {},
        }
        i += 1;
    }
    proof {
        let files = file_list.deep_view();
        assert(files.take(file_list.len() as int) =~= files);
        lemma_highest_counter(files, base@);
    }
    let counter: u16 = match highest {
        Some(m) => if next {
            m + 1
        } else {
            m
        },
        None => 0,
    };
    if counter <= SEQUENTIAL_FILE_MAX_NUMBER {
        Ok(get_sequential_name_from_count(base_name, counter))
    } else {
        Err(Error::InvalidSequentialName)
    }
}

/// The stem of `file_name` if it is a sequential name, `file_name` itself
/// if it is not.
pub fn is_sequential_name(file_name: String) -> (stem: String)
    ensures
        stem@ == collapse(file_name@),
{
    let v = to_chars(file_name.as_str());
    let tail = dot_extension_chars();
    let tail_len = 1 + SEQUENTIAL_FILE_PADDING_LEN + tail.len();
    if v.len() < tail_len {
        return file_name;
    }
    let stem_len = v.len() - tail_len;
    if v[stem_len] != SEQUENTIAL_NAMING_CHAR || !matches_at(
        v.as_slice(),
        v.len() - tail.len(),
        tail.as_slice(),
    ) {
        return file_name;
    }
    let mut i: usize = 0;
    while i < SEQUENTIAL_FILE_PADDING_LEN
        invariant
            i <= SEQUENTIAL_FILE_PADDING_LEN,
            v@ == file_name@,
            tail@ == dot_extension(),
            stem_len + tail_len == v.len(),
            tail_len == 1 + SEQUENTIAL_FILE_PADDING_LEN + tail.len(),
            all_digits(v@.subrange(stem_len + 1, stem_len + 1 + i)),
        decreases SEQUENTIAL_FILE_PADDING_LEN - i,
    {
        if !char_is_digit(v[stem_len + 1 + i]) {
            proof {
                let digits = v@.subrange(stem_len + 1, stem_len + 1 + SEQUENTIAL_FILE_PADDING_LEN);
                assert(digits[i as int] == v@[stem_len + 1 + i]);
            }
            return file_name;
        }
        proof {
            let before = v@.subrange(stem_len + 1, stem_len + 1 + i);
            let after = v@.subrange(stem_len + 1, stem_len + 1 + i + 1);
            assert forall|j: int| 0 <= j < after.len() implies is_digit(#[trigger] after[j]) by {
                if j < i {
                    assert(after[j] == before[j]);
                }
            }
        }
        i += 1;
    }
    let stem = copy_range(v.as_slice(), 0, stem_len);
    from_chars(stem.as_slice())
}

} // verus!
