use file_manager::{
    get_sequential_name, get_sequential_name_from_count, is_sequential_name, Error,
    SEQUENTIAL_FILE_MAX_NUMBER,
};

fn names(list: &[&str]) -> Vec<String> {
    list.iter().map(|s| s.to_string()).collect()
}

fn run_files(last: u16) -> Vec<String> {
    (0..=last).map(|k| format!("run_{:0>3}.map", k)).collect()
}

#[test]
fn name_from_count_pads_the_counter_with_zeros() {
    assert_eq!(get_sequential_name_from_count("run_", 0), "run_000.map");
    assert_eq!(get_sequential_name_from_count("run_", 2), "run_002.map");
    assert_eq!(get_sequential_name_from_count("run_", 45), "run_045.map");
    assert_eq!(get_sequential_name_from_count("run_", 999), "run_999.map");
}

#[test]
fn name_from_count_keeps_a_counter_wider_than_the_padding() {
    assert_eq!(get_sequential_name_from_count("run_", 1000), "run_1000.map");
    assert_eq!(get_sequential_name_from_count("run_", 65535), "run_65535.map");
}

#[test]
fn name_from_count_agrees_with_the_formatting_of_the_standard_library() {
    for cnt in [0u16, 1, 9, 10, 99, 100, 101, 998, 999, 1000, 12345, u16::MAX] {
        assert_eq!(
            get_sequential_name_from_count("base_", cnt),
            format!("{}{:0>3}.{}", "base_", cnt, "map")
        );
    }
}

#[test]
fn name_from_count_adds_no_separator() {
    assert_eq!(get_sequential_name_from_count("run", 7), "run007.map");
    assert_eq!(get_sequential_name_from_count("", 7), "007.map");
}

#[test]
fn next_name_follows_the_run_of_existing_files() {
    for last in [0u16, 1, 5, 41, 998] {
        let files = run_files(last);
        assert_eq!(
            get_sequential_name(&files, "run_", true),
            Ok(format!("run_{:0>3}.map", last + 1))
        );
    }
}

#[test]
fn last_name_is_the_end_of_the_run_of_existing_files() {
    for last in [0u16, 1, 5, 41, 998, 999] {
        let files = run_files(last);
        assert_eq!(
            get_sequential_name(&files, "run_", false),
            Ok(format!("run_{:0>3}.map", last))
        );
    }
}

#[test]
fn without_a_match_next_and_last_are_both_zero() {
    let empty: Vec<String> = Vec::new();
    assert_eq!(get_sequential_name(&empty, "run_", true), Ok("run_000.map".to_string()));
    assert_eq!(get_sequential_name(&empty, "run_", false), Ok("run_000.map".to_string()));
    let others = names(&["notes.map", "walk_000.map", "run.map"]);
    assert_eq!(get_sequential_name(&others, "run_", true), Ok("run_000.map".to_string()));
    assert_eq!(get_sequential_name(&others, "run_", false), Ok("run_000.map".to_string()));
}

#[test]
fn next_name_overflows_at_the_maximum() {
    assert_eq!(SEQUENTIAL_FILE_MAX_NUMBER, 999);
    let files = names(&["run_999.map"]);
    assert_eq!(get_sequential_name(&files, "run_", true), Err(Error::InvalidSequentialName));
    assert_eq!(get_sequential_name(&files, "run_", false), Ok("run_999.map".to_string()));
}

#[test]
fn next_name_succeeds_one_below_the_maximum() {
    let files = names(&["run_998.map"]);
    assert_eq!(get_sequential_name(&files, "run_", true), Ok("run_999.map".to_string()));
}

#[test]
fn full_run_overflows_on_next_only() {
    let files = run_files(999);
    assert_eq!(get_sequential_name(&files, "run_", true), Err(Error::InvalidSequentialName));
    assert_eq!(get_sequential_name(&files, "run_", false), Ok("run_999.map".to_string()));
}

#[test]
fn the_largest_counter_counts_whatever_the_order() {
    let files = names(&["run_007.map", "run_120.map", "run_003.map"]);
    assert_eq!(get_sequential_name(&files, "run_", true), Ok("run_121.map".to_string()));
    assert_eq!(get_sequential_name(&files, "run_", false), Ok("run_120.map".to_string()));
}

#[test]
fn gaps_in_the_run_do_not_matter() {
    let files = names(&["run_000.map", "run_005.map"]);
    assert_eq!(get_sequential_name(&files, "run_", true), Ok("run_006.map".to_string()));
}

#[test]
fn entries_that_are_no_name_of_the_base_are_ignored() {
    let files = names(&[
        "run_12.map",
        "run_0001.map",
        "run_abc.map",
        "run_+12.map",
        "run_1.2.map",
        "run__12.map",
        "run_001.txt",
        "run_001.mapx",
        "xrun_900.map",
        "runs_900.map",
        "a.map",
        "",
        "run_002.map",
    ]);
    assert_eq!(get_sequential_name(&files, "run_", true), Ok("run_003.map".to_string()));
    assert_eq!(get_sequential_name(&files, "run_", false), Ok("run_002.map".to_string()));
}

#[test]
fn entries_shorter_than_the_suffix_are_no_sequential_names() {
    let files = names(&["a", "ab.map", ".map", "1.map", "001.map"]);
    assert_eq!(
        get_sequential_name(&files, "some_longer_base_", true),
        Ok("some_longer_base_000.map".to_string())
    );
    assert_eq!(get_sequential_name(&files, "", true), Ok("002.map".to_string()));
}

#[test]
fn names_with_characters_outside_ascii_are_counted_by_character() {
    let files = names(&["señal_004.map", "señal_010.map"]);
    assert_eq!(get_sequential_name(&files, "señal_", true), Ok("señal_011.map".to_string()));
    assert_eq!(is_sequential_name("señal_010.map".to_string()), "señal");
}

#[test]
fn collapse_strips_separator_counter_and_extension() {
    assert_eq!(is_sequential_name("run_001.map".to_string()), "run");
    assert_eq!(is_sequential_name("run_999.map".to_string()), "run");
    assert_eq!(is_sequential_name("my_run_000.map".to_string()), "my_run");
    assert_eq!(is_sequential_name("a.b_001.map".to_string()), "a.b");
    assert_eq!(is_sequential_name("_000.map".to_string()), "");
}

#[test]
fn collapse_leaves_other_names_unchanged() {
    for name in [
        "notes.map",
        "run_01.map",
        "run_0001.map",
        "run001.map",
        "run_00a.map",
        "run_+12.map",
        "run_001.txt",
        "run_001",
        "run_001.map.bak",
        "000.map",
        "x",
        "",
        ".map",
    ] {
        assert_eq!(is_sequential_name(name.to_string()), name);
    }
}

#[test]
fn collapse_recovers_the_stem_of_every_expansion() {
    for stem in ["run", "", "a_b", "with.dot", "señal", "x_001"] {
        for k in [0u16, 1, 9, 10, 99, 100, 500, 998, 999] {
            let base = format!("{}_", stem);
            let name = get_sequential_name_from_count(&base, k);
            assert_eq!(is_sequential_name(name), stem);
        }
    }
}

#[test]
fn collapse_does_not_take_a_counter_above_the_maximum_for_sequential() {
    let name = get_sequential_name_from_count("run_", 1000);
    assert_eq!(is_sequential_name(name.clone()), name);
}
