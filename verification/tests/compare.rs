use compile_fail::json::{Diagnostic, DiagnosticSpan, Message};
use compile_fail::parse::{Matcher, MessageKind, Parser, Pattern, TestExpectation};
use compile_fail::runner::{compare_messages, run_test, TestFailure, Violation};

fn message(kind: Option<MessageKind>, code: Option<&str>, line: usize, text: &str) -> Message {
    Message { kind, msg: text.to_string(), code: code.map(|c| c.to_string()), line_num: line }
}

fn error_at(line: usize, text: &str) -> Message {
    message(Some(MessageKind::Error), None, line, text)
}

fn note_at(line: usize, text: &str) -> Message {
    message(Some(MessageKind::Note), None, line, text)
}

fn text_pattern(kind: MessageKind, line: usize, text: &str) -> Pattern {
    Pattern { kind: Some(kind), matcher: Matcher::Msg(text.to_string()), line_num: line }
}

fn passes(expected: &[Pattern], got: &[Message]) -> bool {
    compare_messages(expected, got).is_ok()
}

fn not_found(expected: &[Pattern], got: &[Message]) -> (usize, Pattern) {
    match compare_messages(expected, got) {
        Err(Violation::NotFound { index, pattern }) => (index, pattern),
        other => panic!("expected a missing pattern, got {:?}", other),
    }
}

fn unexpected(expected: &[Pattern], got: &[Message]) -> (usize, Message) {
    match compare_messages(expected, got) {
        Err(Violation::Unexpected { index, message }) => (index, message),
        other => panic!("expected an unexpected message, got {:?}", other),
    }
}

fn plain_diagnostic(level: &str, text: &str, file: &str, line: usize) -> Diagnostic {
    Diagnostic {
        message: text.to_string(),
        code: None,
        level: level.to_string(),
        spans: vec![DiagnosticSpan {
            file_name: file.to_string(),
            line_start: line,
            line_end: line,
            column_start: 1,
            column_end: 2,
            is_primary: true,
            label: None,
            suggested_replacement: None,
            expansion: None,
        }],
        children: vec![],
        rendered: None,
    }
}

#[test]
fn pattern_matches_by_kind_line_and_matcher() {
    let by_text = text_pattern(MessageKind::Error, 3, "borrow");
    assert!(by_text.matches(&error_at(3, "cannot borrow `x` as mutable")));
    assert!(by_text.matches(&error_at(3, "borrow")));
    assert!(!by_text.matches(&error_at(3, "cannot move")));
    assert!(!by_text.matches(&error_at(3, "borro")));
    assert!(!by_text.matches(&error_at(4, "cannot borrow")));
    assert!(!by_text.matches(&note_at(3, "cannot borrow")));
    assert!(!by_text.matches(&message(None, None, 3, "cannot borrow")));

    let by_code = Pattern {
        kind: Some(MessageKind::Warning),
        matcher: Matcher::Code("E0502".to_string()),
        line_num: 1,
    };
    assert!(by_code.matches(&message(Some(MessageKind::Warning), Some("E0502"), 1, "whatever")));
    assert!(!by_code.matches(&message(Some(MessageKind::Warning), Some("E05020"), 1, "E0502")));
    assert!(!by_code.matches(&message(Some(MessageKind::Warning), Some("E050"), 1, "E0502")));
    assert!(!by_code.matches(&message(Some(MessageKind::Warning), None, 1, "E0502")));

    let no_kind = Pattern { kind: None, matcher: Matcher::Msg("x".to_string()), line_num: 1 };
    assert!(no_kind.matches(&message(None, None, 1, "xyz")));
    assert!(!no_kind.matches(&error_at(1, "xyz")));
}

#[test]
fn text_matcher_finds_text_anywhere_in_the_message() {
    let pattern = text_pattern(MessageKind::Error, 1, "é ü");
    assert!(pattern.matches(&error_at(1, "café üb")));
    assert!(pattern.matches(&error_at(1, "é ü")));
    assert!(!pattern.matches(&error_at(1, "e u")));
    assert!(!pattern.matches(&error_at(1, "")));
}

#[test]
fn code_pattern_on_the_line_of_the_error_passes() {
    let expected = Parser::new().parse("//~ ERROR[E0001]").unwrap();
    let got = vec![message(Some(MessageKind::Error), Some("E0001"), 1, "mismatched types")];
    assert!(passes(&expected, &got));
}

#[test]
fn continuation_shares_the_line_of_the_pattern_above() {
    let expected = Parser::new().parse("let x = ();\n//~^ ERROR: bad\n//~| note: extra").unwrap();
    assert_eq!(expected.len(), 2);
    assert_eq!(expected[0].line_num, 1);
    assert_eq!(expected[1].line_num, 1);
    let got = vec![error_at(1, "this is bad"), note_at(1, "some extra words")];
    assert!(passes(&expected, &got));
}

#[test]
fn declared_note_that_is_absent_is_reported_as_missing() {
    let expected = Parser::new().parse("let x = ();\n//~^ ERROR: bad\n//~| note: extra").unwrap();
    let got = vec![error_at(1, "this is bad")];
    let (index, pattern) = not_found(&expected, &got);
    assert_eq!(index, 1);
    assert_eq!(pattern, text_pattern(MessageKind::Note, 1, "extra"));
}

#[test]
fn undeclared_notes_help_and_suggestions_are_tolerated() {
    let expected = vec![text_pattern(MessageKind::Error, 1, "bad")];
    let got = vec![
        note_at(1, "unrelated"),
        error_at(1, "bad thing"),
        message(Some(MessageKind::Help), None, 9, "try this"),
        message(Some(MessageKind::Suggestion), None, 2, "x + 1"),
        message(None, None, 1, "second line of the error"),
    ];
    assert!(passes(&expected, &got));
}

#[test]
fn second_error_on_another_line_is_unexpected() {
    let expected = vec![text_pattern(MessageKind::Error, 1, "bad")];
    let got = vec![error_at(1, "bad"), error_at(5, "worse")];
    let (index, message) = unexpected(&expected, &got);
    assert_eq!(index, 1);
    assert_eq!(message, error_at(5, "worse"));
}

#[test]
fn undeclared_warning_is_unexpected() {
    let expected = vec![text_pattern(MessageKind::Error, 1, "bad")];
    let got = vec![
        note_at(3, "fine"),
        message(Some(MessageKind::Warning), Some("W1"), 3, "unused"),
        error_at(1, "bad"),
        error_at(2, "other"),
    ];
    let (index, message) = unexpected(&expected, &got);
    assert_eq!(index, 1);
    assert_eq!(message, self::message(Some(MessageKind::Warning), Some("W1"), 3, "unused"));
}

#[test]
fn error_that_never_appears_is_reported_with_all_messages() {
    let expectation = TestExpectation::parse("t.rs", "x //~ ERROR: missing thing\n").unwrap();
    let diagnostics = vec![plain_diagnostic("note", "just a note", "t.rs", 1)];
    match run_test("t.rs", &expectation, false, &diagnostics) {
        Err(TestFailure::Mismatch { violation: Violation::NotFound { index, pattern }, actual }) => {
            assert_eq!(index, 0);
            assert_eq!(pattern, text_pattern(MessageKind::Error, 1, "missing thing"));
            assert_eq!(actual, vec![note_at(1, "just a note")]);
        }
        other => panic!("expected a missing pattern, got {:?}", other),
    }
}

#[test]
fn first_missing_pattern_comes_before_any_unexpected_message() {
    let expected = vec![
        text_pattern(MessageKind::Error, 1, "a"),
        text_pattern(MessageKind::Error, 2, "b"),
        text_pattern(MessageKind::Error, 3, "c"),
    ];
    let got = vec![error_at(9, "z"), error_at(1, "a")];
    let (index, pattern) = not_found(&expected, &got);
    assert_eq!(index, 1);
    assert_eq!(pattern, text_pattern(MessageKind::Error, 2, "b"));
}

#[test]
fn one_pattern_may_match_many_messages_and_one_message_many_patterns() {
    let expected = vec![
        text_pattern(MessageKind::Error, 1, "a"),
        text_pattern(MessageKind::Error, 1, "ab"),
    ];
    assert!(passes(&expected, &[error_at(1, "ab")]));
    let one = vec![text_pattern(MessageKind::Error, 1, "a")];
    assert!(passes(&one, &[error_at(1, "a1"), error_at(1, "a2"), error_at(1, "a3")]));
}

#[test]
fn nothing_expected_and_nothing_said_passes() {
    assert!(passes(&[], &[]));
    assert!(passes(&[], &[note_at(1, "n")]));
    assert_eq!(unexpected(&[], &[error_at(1, "e")]).0, 0);
    assert_eq!(not_found(&[text_pattern(MessageKind::Note, 1, "n")], &[]).0, 0);
}

#[test]
fn comparing_twice_gives_the_same_verdict() {
    let expected = vec![text_pattern(MessageKind::Error, 1, "bad")];
    let got = vec![error_at(1, "bad"), error_at(5, "worse")];
    let first = unexpected(&expected, &got);
    let second = unexpected(&expected, &got);
    assert_eq!(first, second);
    let fine = vec![error_at(1, "bad")];
    assert!(passes(&expected, &fine));
    assert!(passes(&expected, &fine));
}

#[test]
fn test_that_compiles_fails_the_run() {
    let expectation = TestExpectation::parse("t.rs", "x //~ ERROR: bad\n").unwrap();
    match run_test("dir/t.rs", &expectation, true, &[]) {
        Err(TestFailure::CompilationSucceeded { path }) => assert_eq!(path, "dir/t.rs"),
        other => panic!("expected a failure, got {:?}", other),
    }
    let diagnostics = vec![plain_diagnostic("error", "bad", "dir/t.rs", 1)];
    match run_test("dir/t.rs", &expectation, true, &diagnostics) {
        Err(TestFailure::CompilationSucceeded { path }) => assert_eq!(path, "dir/t.rs"),
        other => panic!("expected a failure, got {:?}", other),
    }
}

#[test]
fn test_whose_errors_are_all_expected_passes() {
    let expectation = TestExpectation::parse("t.rs", "x //~ ERROR: bad\n//~| warn: odd").unwrap();
    let diagnostics = vec![
        plain_diagnostic("warning", "something odd", "t.rs", 1),
        plain_diagnostic("error", "bad", "t.rs", 1),
        plain_diagnostic("error", "elsewhere", "other.rs", 7),
    ];
    assert!(run_test("t.rs", &expectation, false, &diagnostics).is_ok());
}

#[test]
fn unexpected_error_in_the_output_fails_the_test() {
    let expectation = TestExpectation::parse("t.rs", "x //~ ERROR: bad\n").unwrap();
    let diagnostics = vec![
        plain_diagnostic("error", "bad", "t.rs", 1),
        plain_diagnostic("error", "more", "t.rs", 2),
    ];
    match run_test("t.rs", &expectation, false, &diagnostics) {
        Err(TestFailure::Mismatch { violation: Violation::Unexpected { index, message }, actual }) => {
            assert_eq!(index, 1);
            assert_eq!(message, error_at(2, "more"));
            assert_eq!(actual, vec![error_at(1, "bad"), error_at(2, "more")]);
        }
        other => panic!("expected an unexpected message, got {:?}", other),
    }
}
