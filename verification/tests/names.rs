use file_manager::{
    check_extension, check_file_name_len, correct_extension, init_default_paths, normalize_line,
    Error, DEFAULT_DIRECTORY,
    DEFAULT_MAP_TYPE, MAX_FILE_NAME_CHARS, PATH_SEPARATOR, PRINT_COLUMNS,
    SEQUENTIAL_FILE_MAX_NUMBER, SEQUENTIAL_FILE_PADDING_LEN, SEQUENTIAL_NAMING_CHAR,
};

#[test]
fn the_convention_is_the_documented_one() {
    assert_eq!(DEFAULT_DIRECTORY, "./test_dir/");
    assert_eq!(DEFAULT_MAP_TYPE, "map");
    assert_eq!(SEQUENTIAL_FILE_PADDING_LEN, 3);
    assert_eq!(SEQUENTIAL_NAMING_CHAR, '_');
    assert_eq!(SEQUENTIAL_FILE_MAX_NUMBER, 999);
    assert_eq!(PRINT_COLUMNS, 4);
    assert_eq!(MAX_FILE_NAME_CHARS, 30);
    assert_eq!(PATH_SEPARATOR, '/');
}

#[test]
fn the_counter_width_is_the_number_of_digits_of_the_maximum() {
    assert_eq!(SEQUENTIAL_FILE_MAX_NUMBER.to_string().len(), SEQUENTIAL_FILE_PADDING_LEN);
    assert_eq!((SEQUENTIAL_FILE_MAX_NUMBER + 1).to_string().len(), SEQUENTIAL_FILE_PADDING_LEN + 1);
}

#[test]
fn a_name_of_thirty_bytes_is_accepted() {
    let name = "a".repeat(26) + ".map";
    assert_eq!(name.len(), 30);
    assert_eq!(check_file_name_len(&name), Ok(()));
    assert_eq!(check_file_name_len(""), Ok(()));
    assert_eq!(check_file_name_len("notes.map"), Ok(()));
}

#[test]
fn a_name_of_thirty_one_bytes_is_too_long() {
    let name = "a".repeat(27) + ".map";
    assert_eq!(name.len(), 31);
    assert_eq!(check_file_name_len(&name), Err(Error::InvalidNameTooLong));
    assert_eq!(check_file_name_len(&"b".repeat(200)), Err(Error::InvalidNameTooLong));
}

#[test]
fn the_length_of_a_name_is_counted_in_bytes() {
    let two = "é".repeat(13) + ".map";
    assert_eq!(two.chars().count(), 17);
    assert_eq!(two.len(), 30);
    assert_eq!(check_file_name_len(&two), Ok(()));
    let over = "é".repeat(14) + ".map";
    assert_eq!(over.chars().count(), 18);
    assert_eq!(over.len(), 32);
    assert_eq!(check_file_name_len(&over), Err(Error::InvalidNameTooLong));
    let three = "日".repeat(9) + "a";
    assert_eq!(three.len(), 28);
    assert_eq!(check_file_name_len(&three), Ok(()));
    let four = "𝄞".repeat(8);
    assert_eq!(four.len(), 32);
    assert_eq!(check_file_name_len(&four), Err(Error::InvalidNameTooLong));
    let fits = "𝄞".repeat(7) + "ab";
    assert_eq!(fits.len(), 30);
    assert_eq!(check_file_name_len(&fits), Ok(()));
}

#[test]
fn the_length_check_agrees_with_the_byte_length_of_the_standard_library() {
    for unit in ["a", "ß", "€", "😀", "\u{7f}", "\u{80}", "\u{7ff}", "\u{800}", "\u{ffff}", "\u{10000}"] {
        for n in 0..40usize {
            let name = unit.repeat(n);
            assert_eq!(check_file_name_len(&name).is_ok(), name.len() <= MAX_FILE_NAME_CHARS);
        }
    }
}

#[test]
fn default_paths_fall_back_to_the_built_in_directory() {
    let (current, paths) = init_default_paths(None);
    assert_eq!(current, "./test_dir/");
    assert_eq!(paths, vec!["./test_dir/".to_string()]);
    let (current, paths) = init_default_paths(Some(Vec::new()));
    assert_eq!(current, "./test_dir/");
    assert_eq!(paths, vec!["./test_dir/".to_string()]);
}

#[test]
fn default_paths_keep_the_list_of_the_caller() {
    let given = vec!["hello/".to_string(), "world/".to_string()];
    let (current, paths) = init_default_paths(Some(given.clone()));
    assert_eq!(current, "hello/");
    assert_eq!(paths, given);
    let one = vec!["only".to_string()];
    let (current, paths) = init_default_paths(Some(one.clone()));
    assert_eq!(current, "only");
    assert_eq!(paths, one);
}

#[test]
fn a_line_is_normalized_to_its_words_joined_by_underscores() {
    assert_eq!(normalize_line("my new file"), "my_new_file");
    assert_eq!(normalize_line("  my   new  file  "), "my_new_file");
    assert_eq!(normalize_line("run_"), "run_");
    assert_eq!(normalize_line("notes.map"), "notes.map");
    assert_eq!(normalize_line("a/b c/"), "a/b_c/");
    assert_eq!(normalize_line("tab\tbetween"), "tab_between");
}

#[test]
fn a_line_of_white_space_is_normalized_to_the_empty_line() {
    assert_eq!(normalize_line(""), "");
    assert_eq!(normalize_line(" "), "");
    assert_eq!(normalize_line("    "), "");
    assert_eq!(normalize_line(" \t\u{a0} "), "");
}

#[test]
fn normalizing_agrees_with_splitting_on_white_space() {
    for line in ["a b", " a  b ", "x", "", "  ", "one two three", "é  ü", "a\u{3000}b", "1 2"] {
        let expected = line.split_whitespace().collect::<Vec<_>>().join("_");
        assert_eq!(normalize_line(line), expected);
    }
}

#[test]
fn a_name_with_the_managed_extension_is_accepted_as_it_is() {
    assert_eq!(check_extension("notes.map"), Ok("notes.map".to_string()));
    assert_eq!(check_extension("run_002.map"), Ok("run_002.map".to_string()));
    assert_eq!(check_extension(".map"), Ok(".map".to_string()));
}

#[test]
fn a_name_without_a_period_gets_the_managed_extension() {
    assert_eq!(check_extension("notes"), Ok("notes.map".to_string()));
    assert_eq!(check_extension(""), Ok(".map".to_string()));
    assert_eq!(check_extension("map"), Ok("map.map".to_string()));
}

#[test]
fn a_name_with_another_extension_is_refused() {
    for name in ["notes.txt", "notes.", "notes.MAP", "notes.mapx", "notes.ma", "a.b.map", "..map"] {
        assert_eq!(check_extension(name), Err(Error::UnknownFileType));
    }
}

#[test]
fn the_correction_puts_the_managed_extension_behind_the_stem() {
    assert_eq!(correct_extension("notes.txt"), "notes.map");
    assert_eq!(correct_extension("notes."), "notes.map");
    assert_eq!(correct_extension("a.b.map"), "a.map");
    assert_eq!(correct_extension("notes"), "notes.map");
    assert_eq!(correct_extension(".hidden"), ".map");
}

#[test]
fn a_corrected_name_is_accepted() {
    for name in ["notes.txt", "a.b.c", "x", "", "weiß.jpeg"] {
        let corrected = correct_extension(name);
        assert_eq!(check_extension(&corrected), Ok(corrected.clone()));
    }
}
