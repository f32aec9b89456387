use compile_fail::{find_tests, Config, DiscoveryError, Entry};

fn entry(path: &str, extension: Option<&str>, is_file: bool) -> Entry {
    Entry { path: path.to_string(), extension: extension.map(|e| e.to_string()), is_file }
}

fn config(dir: &str) -> Config {
    Config { cfail_path: dir.to_string(), ..Config::default() }
}

#[test]
fn files_with_the_extension_rs_are_the_tests() {
    let entries = vec![
        entry("t/a.rs", Some("rs"), true),
        entry("t/.gitkeep", None, true),
        entry("t/b.rs", Some("rs"), true),
        entry("t/c.RS", Some("RS"), true),
        entry("t/d.rs.bk", Some("bk"), true),
        entry("t/sub", None, false),
        entry("t/e.rs", Some("rs"), true),
    ];
    assert_eq!(
        find_tests(&config("t"), &entries),
        Ok(vec!["t/a.rs".to_string(), "t/b.rs".to_string(), "t/e.rs".to_string()]),
    );
}

#[test]
fn directory_without_tests_is_refused() {
    assert_eq!(
        find_tests(&config("tests/empty"), &[]),
        Err(DiscoveryError::NoTests { dir: "tests/empty".to_string() }),
    );
    let others = vec![entry("tests/empty/.gitkeep", None, true), entry("x.txt", Some("txt"), true)];
    assert_eq!(
        find_tests(&config("tests/empty"), &others),
        Err(DiscoveryError::NoTests { dir: "tests/empty".to_string() }),
    );
}

#[test]
fn test_that_is_no_regular_file_is_refused() {
    let entries = vec![
        entry("t/a.rs", Some("rs"), true),
        entry("t/dir", None, false),
        entry("t/dir.rs", Some("rs"), false),
        entry("t/link.rs", Some("rs"), false),
    ];
    assert_eq!(
        find_tests(&config("t"), &entries),
        Err(DiscoveryError::UnsupportedFileType { index: 2, path: "t/dir.rs".to_string() }),
    );
}
