use errlog::FsState;
use errlog::LogError;
use errlog::build_entry;
use errlog::decimal_string;
use errlog::errlog;
use errlog::errlog_at;

#[test]
fn errlog_success() {
    let mut fs = FsState::new();
    fs.add_dir(".");
    fs.add_dir("./test-data");

    if let Err(e) = errlog(
        &mut fs,
        "./test-data/errlog-unit-test.log",
        String::from("error log was successful"),
    ) {
        assert!(false, "Something went horribly wrong. Error: {e:?}");
    }

    if let Err(e) = errlog(
        &mut fs,
        "./new-folder/errlog-unit-test.log",
        String::from("error log was successful"),
    ) {
        assert!(false, "Something went horribly wrong. Error: {e:?}");
    }
    assert!(fs.is_dir("./new-folder"));
    assert!(fs.path_exists("./new-folder/errlog-unit-test.log"));

    assert!(true);
}

#[test]
fn errlog_fail_bad_path() {
    let mut fs = FsState::new();
    fs.add_dir(".");
    fs.add_dir("./test-data");

    if let Ok(_) = errlog(
        &mut fs,
        "./no-folder/abcd/errlog-unit-test.log",
        String::from("error log should fail"),
    ) {
        assert!(false, "`./no-folder/abcd/errlog-unit-test.log` should have failed as a bad path.");
    }

    if let Ok(_) = errlog(
        &mut fs,
        "./test-data/errlog-unit-test",
        String::from("error log should fail"),
    ) {
        assert!(false, "not specifying a `.log` file should fail.");
    }

    assert!(true);
}

#[test]
fn end_to_end_fresh_directory() {
    let mut fs = FsState::new();
    fs.add_dir(".");

    assert!(errlog_at(&mut fs, "./fresh-dir/app.log", "boom", 42).is_ok());
    assert!(fs.is_dir("./fresh-dir"));
    assert_eq!(fs.read_file("./fresh-dir/app.log").unwrap(), "\n42 - boom\n");

    let mut untouched = FsState::new();
    untouched.add_dir(".");
    match errlog_at(&mut untouched, "./app", "boom", 42) {
        Ok(_) => panic!("a path without an extension should fail"),
        Err(e) => assert!(matches!(e, LogError::InvalidExtension(_))),
    }
    assert!(!untouched.path_exists("./app"));
    assert!(!untouched.path_exists("./app.log"));
}

#[test]
fn errlog_at_appends_to_existing_file() {
    let mut fs = FsState::new();
    fs.add_dir(".");
    fs.add_file("./app.log", "start");

    assert!(errlog_at(&mut fs, "./app.log", "first", 100).is_ok());
    assert!(errlog_at(&mut fs, "./app.log", "second", 200).is_ok());
    assert_eq!(
        fs.read_file("./app.log").unwrap(),
        "start\n100 - first\n\n200 - second\n"
    );
}

#[test]
fn errlog_reports_io_error_on_missing_ancestors() {
    let mut fs = FsState::new();
    fs.add_dir(".");
    match errlog(&mut fs, "./a/b/c.log", String::from("nope")) {
        Ok(_) => panic!("two missing directory levels should fail"),
        Err(e) => assert!(matches!(e, LogError::IoError(_))),
    }
}

#[test]
fn decimal_rendering_exact() {
    assert_eq!(decimal_string(0), "0");
    assert_eq!(decimal_string(7), "7");
    assert_eq!(decimal_string(10), "10");
    assert_eq!(decimal_string(1_700_000_000), "1700000000");
    assert_eq!(decimal_string(u64::MAX), "18446744073709551615");
}

#[test]
fn entry_layout_exact() {
    assert_eq!(build_entry("X", 5, "err1"), "X\n5 - err1\n");
    assert_eq!(build_entry("", 0, ""), "\n0 - \n");
}
