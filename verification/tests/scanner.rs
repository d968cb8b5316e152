use file_manager::{get_dir_list, get_file_list, DirEntry, EntryKind};

fn entry(name: &str, kind: EntryKind) -> DirEntry {
    DirEntry { name: name.to_string(), kind }
}

fn names(list: &[&str]) -> Vec<String> {
    list.iter().map(|s| s.to_string()).collect()
}

#[test]
fn an_empty_directory_lists_nothing() {
    let entries: Vec<DirEntry> = Vec::new();
    assert_eq!(get_file_list(&entries), Vec::<String>::new());
    assert_eq!(get_dir_list(&entries), Vec::<String>::new());
}

#[test]
fn files_are_listed_by_their_extension() {
    let entries = vec![
        entry("notes.map", EntryKind::File),
        entry("notes.txt", EntryKind::File),
        entry("run_000.map", EntryKind::File),
        entry("map", EntryKind::File),
        entry(".map", EntryKind::File),
        entry("..map", EntryKind::File),
        entry("a.map.bak", EntryKind::File),
        entry("a.b.map", EntryKind::File),
        entry("upper.MAP", EntryKind::File),
        entry("nomap", EntryKind::File),
    ];
    assert_eq!(
        get_file_list(&entries),
        names(&["notes.map", "run_000.map", "..map", "a.b.map"])
    );
}

#[test]
fn the_extension_test_agrees_with_the_standard_library() {
    for name in ["notes.map", "x.map", ".map", "..map", "a.map.bak", "map", "a.", "a.MAP", "é.map", "a.b.map", "amap", ".a.map"] {
        let entries = vec![entry(name, EntryKind::File)];
        let expected = std::path::Path::new(name)
            .extension()
            .map(|e| e == "map")
            .unwrap_or(false);
        assert_eq!(get_file_list(&entries).len() == 1, expected, "{}", name);
    }
}

#[test]
fn only_regular_files_are_listed_as_files() {
    let entries = vec![
        entry("dir.map", EntryKind::Directory),
        entry("pipe.map", EntryKind::Other),
        entry("file.map", EntryKind::File),
    ];
    assert_eq!(get_file_list(&entries), names(&["file.map"]));
}

#[test]
fn directories_are_listed_with_the_separator_at_their_end() {
    let entries = vec![
        entry("one", EntryKind::Directory),
        entry("notes.map", EntryKind::File),
        entry("two/", EntryKind::Directory),
        entry("socket", EntryKind::Other),
        entry("three.map", EntryKind::Directory),
    ];
    assert_eq!(get_dir_list(&entries), names(&["one/", "two/", "three.map/"]));
}

#[test]
fn listings_keep_the_order_of_the_entries() {
    let entries = vec![
        entry("z.map", EntryKind::File),
        entry("b", EntryKind::Directory),
        entry("a.map", EntryKind::File),
        entry("a", EntryKind::Directory),
        entry("m.map", EntryKind::File),
    ];
    assert_eq!(get_file_list(&entries), names(&["z.map", "a.map", "m.map"]));
    assert_eq!(get_dir_list(&entries), names(&["b/", "a/"]));
}

#[test]
fn a_name_with_a_path_separator_is_no_file_of_the_directory() {
    let entries = vec![
        entry("x/y.map", EntryKind::File),
        entry("/y.map", EntryKind::File),
        entry("y.map", EntryKind::File),
        entry("a/.map", EntryKind::File),
    ];
    assert_eq!(get_file_list(&entries), names(&["y.map"]));
}
