//! Selection of a file inside a small set of managed directories.
//!
//! The managed files carry one extension, and a name that ends in the
//! sequential-naming character stands for a row of files with a zero-padded
//! counter. The menu is a state machine: it is handed the answers of the
//! user and of the file system and says what to ask next, until a path is
//! selected or the session ends without one.

pub mod config;
pub mod decimal;
pub mod error;
pub mod laws;
pub mod menu;
pub mod model;
pub mod names;
pub mod notice;
pub mod parser;
pub mod prompt;
pub mod render;
pub mod scanner;
pub mod sequential;
pub mod text;

pub use config::{
    DEFAULT_DIRECTORY, DEFAULT_MAP_TYPE, MAX_FILE_NAME_CHARS, PATH_SEPARATOR, PRINT_COLUMNS,
    SEQUENTIAL_FILE_MAX_NUMBER, SEQUENTIAL_FILE_PADDING_LEN, SEQUENTIAL_NAMING_CHAR,
};
pub use error::Error;
pub use menu::{
    file_name_menu, run_save_file_menu_with_errors, Action, Event, Session, Step,
};
pub use names::{
    check_extension, check_file_name_len, correct_extension, init_default_paths, normalize_line,
};
pub use notice::Notice;
pub use parser::{check_if_path_or_file, parse_menu_file};
pub use prompt::{
    ask_yes_no, check_file_exists, collision_choice, input_of, Choice, FileCheck, Input, Prompt,
};
pub use render::{print_dir_files, print_menu_options, print_option_list, print_paths};
pub use scanner::{get_dir_list, get_file_list, DirEntry, EntryKind};
pub use sequential::{get_sequential_name, get_sequential_name_from_count, is_sequential_name};
