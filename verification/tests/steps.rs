use errlog::FsState;
use errlog::LogError;
use errlog::append_log;
use errlog::append_log_at;
use errlog::check_or_make_directory;
use errlog::check_or_make_log;
use errlog::create_path_from_str;

#[test]
fn test_directory_checks() {
    let mut fs = FsState::new();
    fs.add_dir(".");
    fs.add_dir("./test-data");

    let path = create_path_from_str("./test-data/test.log").unwrap();
    if let Err(e) = check_or_make_directory(&mut fs, &path) {
        assert!(false, "Could not test for `./test-data` directory. Error: {e:?}");
    }

    let path = create_path_from_str("./new-dir/test.log").unwrap();
    if let Err(e) = check_or_make_directory(&mut fs, &path) {
        assert!(false, "Could not create `./new-dir/` directory. Error: {e:?}");
    }
    assert!(fs.is_dir("./new-dir"));

    let path = create_path_from_str("./test.log").unwrap();
    if let Err(e) = check_or_make_directory(&mut fs, &path) {
        assert!(false, "Failed to check current directory. Error: {e:?}");
    }

    assert!(true);
}

#[test]
fn directory_step_twice_is_stable() {
    let mut fs = FsState::new();
    fs.add_dir(".");
    let path = create_path_from_str("./new-dir/test.log").unwrap();
    assert!(check_or_make_directory(&mut fs, &path).is_ok());
    assert!(fs.is_dir("./new-dir"));
    assert!(check_or_make_directory(&mut fs, &path).is_ok());
    assert!(fs.is_dir("./new-dir"));
}

#[test]
fn directory_step_fails_two_levels_down() {
    let mut fs = FsState::new();
    fs.add_dir(".");
    let path = create_path_from_str("./a/b/file.log").unwrap();
    match check_or_make_directory(&mut fs, &path) {
        Ok(_) => panic!("a path two missing levels down should fail"),
        Err(e) => assert!(matches!(e, LogError::IoError(_))),
    }
    assert!(!fs.is_dir("./a"));
    assert!(!fs.is_dir("./a/b"));
}

#[test]
fn directory_step_fails_when_parent_is_a_file() {
    let mut fs = FsState::new();
    fs.add_dir(".");
    fs.add_file("./blocked", "not a directory");
    let path = create_path_from_str("./blocked/test.log").unwrap();
    assert!(check_or_make_directory(&mut fs, &path).is_err());
}

#[test]
fn file_step_twice_leaves_empty_file() {
    let mut fs = FsState::new();
    fs.add_dir(".");
    let path = create_path_from_str("./fresh.log").unwrap();
    assert!(!fs.path_exists("./fresh.log"));
    assert!(check_or_make_log(&mut fs, &path).is_ok());
    assert_eq!(fs.read_file("./fresh.log").unwrap(), "");
    assert!(check_or_make_log(&mut fs, &path).is_ok());
    assert_eq!(fs.read_file("./fresh.log").unwrap(), "");
}

#[test]
fn file_step_keeps_existing_content() {
    let mut fs = FsState::new();
    fs.add_dir(".");
    fs.add_file("./kept.log", "already here");
    let path = create_path_from_str("./kept.log").unwrap();
    assert!(check_or_make_log(&mut fs, &path).is_ok());
    assert_eq!(fs.read_file("./kept.log").unwrap(), "already here");
}

#[test]
fn test_append() {
    let mut fs = FsState::new();
    fs.add_dir(".");
    fs.add_dir("./test-data");
    fs.add_file("./test-data/test.log", "");

    let path = create_path_from_str("./test-data/test.log").unwrap();
    if let Err(e) = append_log(&mut fs, &path, "test error") {
        assert!(false, "Could not write contents to `./test-data/test.log`. Error: {e:?}");
    }

    let bad_path = create_path_from_str("./test-data/does-not-exist.log").unwrap();
    if let Ok(_) = append_log(&mut fs, &bad_path, "Something") {
        assert!(false, "Should not be able to write contents to `./test-data/does-not-exist.log`.");
    }

    assert!(true);
}

#[test]
fn append_round_trip_exact_content() {
    let mut fs = FsState::new();
    fs.add_dir(".");
    fs.add_dir("./d");
    fs.add_file("./d/f.log", "X");
    let path = create_path_from_str("./d/f.log").unwrap();

    assert!(append_log_at(&mut fs, &path, "err1", 5).is_ok());
    assert_eq!(fs.read_file("./d/f.log").unwrap(), "X\n5 - err1\n");

    assert!(append_log_at(&mut fs, &path, "err2", 9).is_ok());
    assert_eq!(fs.read_file("./d/f.log").unwrap(), "X\n5 - err1\n\n9 - err2\n");
}

#[test]
fn append_fails_without_file() {
    let mut fs = FsState::new();
    fs.add_dir(".");
    let path = create_path_from_str("./missing.log").unwrap();
    match append_log_at(&mut fs, &path, "anything", 1) {
        Ok(_) => panic!("appending to a missing file should fail"),
        Err(e) => assert!(matches!(e, LogError::IoError(_))),
    }
    assert!(!fs.path_exists("./missing.log"));
}
