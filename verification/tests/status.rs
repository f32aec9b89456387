use compile_fail::status::{Piece, TestStatus};
use compile_fail::Config;

fn config(quiet: bool) -> Config {
    Config { no_console_output: quiet, ..Config::default() }
}

fn text(s: &str) -> Piece {
    Piece::Text(s.to_string())
}

#[test]
fn default_config_points_at_the_usual_places() {
    let c = Config::default();
    assert_eq!(c.cfail_path, "tests/compile-fail");
    assert_eq!(c.wrapper_test, "tests/compile-fail.rs");
    assert!(!c.no_console_output);
}

#[test]
fn header_counts_the_tests() {
    assert_eq!(
        TestStatus::new(&config(false), 1).print_header(),
        vec![text("running 1 compile-fail test\n")],
    );
    assert_eq!(
        TestStatus::new(&config(false), 0).print_header(),
        vec![text("running 0 compile-fail tests\n")],
    );
    assert_eq!(
        TestStatus::new(&config(false), 1234567890).print_header(),
        vec![text("running 1234567890 compile-fail tests\n")],
    );
}

#[test]
fn console_run_hands_every_piece_back() {
    let mut status = TestStatus::new(&config(false), 2);
    assert_eq!(status.print_header(), vec![text("running 2 compile-fail tests\n")]);
    assert_eq!(
        status.print_test("a.rs", Ok(())),
        vec![text("test a.rs ... "), Piece::Status(true), text("\n")],
    );
    assert_eq!(
        status.print_test("b.rs", Err("message not found".to_string())),
        vec![text("test b.rs ... "), Piece::Status(false), text("\n")],
    );
    assert_eq!(status.print_result(), vec![
        text("test result: "),
        Piece::Status(false),
        text(". 1 passed; 1 failed\n\n"),
        text("---- test b.rs ----\nmessage not found\n\n"),
    ]);
    assert_eq!(status.into_global_result(), Err("1 compile-fail tests failed".to_string()));
}

#[test]
fn quiet_run_holds_the_report_back_until_the_end() {
    let mut status = TestStatus::new(&config(true), 3);
    assert_eq!(status.print_header(), vec![]);
    assert_eq!(status.print_test("a.rs", Err("first".to_string())), vec![]);
    assert_eq!(status.print_test("b.rs", Ok(())), vec![]);
    assert_eq!(status.print_test("c.rs", Err("second\nline".to_string())), vec![]);
    assert_eq!(status.print_result(), vec![]);
    assert_eq!(
        status.into_global_result(),
        Err("running 3 compile-fail tests\n\
             test a.rs ... FAILED\n\
             test b.rs ... ok\n\
             test c.rs ... FAILED\n\
             test result: FAILED. 1 passed; 2 failed\n\
             \n\
             ---- test a.rs ----\n\
             first\n\
             \n\
             ---- test c.rs ----\n\
             second\nline\n\
             \n\
             \n\
             \n\
             2 compile-fail tests failed"
            .to_string()),
    );
}

#[test]
fn run_without_failures_ends_in_success() {
    for quiet in [false, true] {
        let mut status = TestStatus::new(&config(quiet), 2);
        status.print_header();
        status.print_test("a.rs", Ok(()));
        status.print_test("b.rs", Ok(()));
        let end = status.print_result();
        if !quiet {
            assert_eq!(end, vec![
                text("test result: "),
                Piece::Status(true),
                text(". 2 passed; 0 failed\n\n"),
            ]);
        }
        assert_eq!(status.into_global_result(), Ok(()));
    }
    assert_eq!(TestStatus::new(&config(true), 0).into_global_result(), Ok(()));
}

#[test]
fn one_failure_among_many_fails_the_run() {
    let mut status = TestStatus::new(&config(false), 12);
    for i in 0..12 {
        if i == 7 {
            status.print_test("bad.rs", Err("no".to_string()));
        } else {
            status.print_test("good.rs", Ok(()));
        }
    }
    assert_eq!(status.print_result()[2], text(". 11 passed; 1 failed\n\n"));
    assert_eq!(status.into_global_result(), Err("1 compile-fail tests failed".to_string()));
}
