use redidl::idl_files::{get_filename, get_stem, is_rust_source, select_module_file};

#[test]
fn file_names_are_last_components() {
    assert_eq!(get_filename("domains/idl/mod.rs"), Some("mod.rs".to_string()));
    assert_eq!(get_filename("domains/idl"), Some("idl".to_string()));
    assert_eq!(get_filename("/"), None);
    assert_eq!(get_filename("a/.."), None);
}

#[test]
fn stems_drop_the_extension() {
    assert_eq!(get_stem("interfaces/bdev.rs"), Some("bdev".to_string()));
    assert_eq!(get_stem("net.tar.gz"), Some("net.tar".to_string()));
    assert_eq!(get_stem("/"), None);
}

#[test]
fn rust_sources_end_in_rs() {
    assert!(is_rust_source("idl/foo.rs"));
    assert!(!is_rust_source("idl/foo.txt"));
    assert!(!is_rust_source("idl/rs"));
}

#[test]
fn the_module_file_is_the_first_mod_rs() {
    let names = vec!["a.rs".to_string(), "mod.rs".to_string(), "b.rs".to_string(), "mod.rs".to_string()];
    assert_eq!(select_module_file(&names), Some(1));
    assert_eq!(select_module_file(&vec!["a.rs".to_string(), "lib.rs".to_string()]), None);
    assert_eq!(select_module_file(&vec![]), None);
}

#[test]
fn hidden_files_keep_their_name_as_stem() {
    assert_eq!(get_stem("conf/.bashrc"), Some(".bashrc".to_string()));
    assert_eq!(get_stem("conf/.a.b"), Some(".a".to_string()));
    assert!(!is_rust_source("src/.rs"));
    assert!(is_rust_source("src/.a.rs"));
}
