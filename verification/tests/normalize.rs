use compile_fail::json::{
    all_fit, parse_output, push_backtrace, push_expected_errors, record_lines, Diagnostic,
    DiagnosticCode, DiagnosticSpan, DiagnosticSpanMacroExpansion, Message,
};
use compile_fail::parse::MessageKind;

const FILE: &str = "tests/compile-fail/a.rs";

fn span(file: &str, line: usize, primary: bool) -> DiagnosticSpan {
    DiagnosticSpan {
        file_name: file.to_string(),
        line_start: line,
        line_end: line + 1,
        column_start: 1,
        column_end: 5,
        is_primary: primary,
        label: None,
        suggested_replacement: None,
        expansion: None,
    }
}

fn diagnostic(level: &str, text: &str, spans: Vec<DiagnosticSpan>) -> Diagnostic {
    Diagnostic {
        message: text.to_string(),
        code: None,
        level: level.to_string(),
        spans,
        children: vec![],
        rendered: None,
    }
}

fn with_code(mut d: Diagnostic, code: &str) -> Diagnostic {
    d.code = Some(DiagnosticCode { code: code.to_string(), explanation: None });
    d
}

fn msg(kind: Option<MessageKind>, code: Option<&str>, line: usize, text: &str) -> Message {
    Message { kind, msg: text.to_string(), code: code.map(|c| c.to_string()), line_num: line }
}

fn flatten(d: Diagnostic) -> Vec<Message> {
    parse_output(FILE, &[d])
}

#[test]
fn plain_diagnostic_gives_exactly_one_message() {
    let d = with_code(diagnostic("error", "mismatched types", vec![span(FILE, 4, true)]), "E0308");
    assert_eq!(flatten(d), vec![msg(Some(MessageKind::Error), Some("E0308"), 4, "mismatched types")]);
}

#[test]
fn unknown_level_gives_a_message_without_kind() {
    let d = diagnostic("error: internal compiler error", "oops", vec![span(FILE, 2, true)]);
    assert_eq!(flatten(d), vec![msg(None, None, 2, "oops")]);
    let d = diagnostic("WARN", "careful", vec![span(FILE, 2, true)]);
    assert_eq!(flatten(d), vec![msg(Some(MessageKind::Warning), None, 2, "careful")]);
}

#[test]
fn diagnostic_without_span_in_the_file_gives_nothing() {
    assert_eq!(flatten(diagnostic("error", "aborting", vec![])), vec![]);
    assert_eq!(flatten(diagnostic("error", "elsewhere", vec![span("src/lib.rs", 4, true)])), vec![]);
    assert_eq!(flatten(diagnostic("error", "secondary only", vec![span(FILE, 4, false)])), vec![]);
    assert_eq!(flatten(diagnostic("error", "", vec![span(FILE, 4, true)])), vec![]);
}

#[test]
fn file_names_are_compared_as_paths() {
    let d = diagnostic("error", "same file", vec![span("tests/compile-fail//a.rs", 4, true)]);
    assert_eq!(flatten(d), vec![msg(Some(MessageKind::Error), None, 4, "same file")]);
    let d = diagnostic("error", "same file", vec![span("tests/./compile-fail/a.rs", 6, true)]);
    assert_eq!(flatten(d), vec![msg(Some(MessageKind::Error), None, 6, "same file")]);
    let d = diagnostic("error", "other file", vec![span("tests/compile-fail/a.rs.bk", 4, true)]);
    assert_eq!(flatten(d), vec![]);
}

#[test]
fn only_the_first_primary_span_is_used() {
    let d = diagnostic(
        "warning",
        "twice",
        vec![span(FILE, 9, false), span("x.rs", 1, true), span(FILE, 7, true), span(FILE, 3, true)],
    );
    assert_eq!(flatten(d), vec![msg(Some(MessageKind::Warning), None, 7, "twice")]);
}

#[test]
fn further_lines_of_the_text_have_no_kind_and_stay_on_the_line() {
    let d = with_code(
        diagnostic("error", "first\nsecond\r\nthird\n", vec![span(FILE, 5, true)]),
        "E1",
    );
    assert_eq!(flatten(d), vec![
        msg(Some(MessageKind::Error), Some("E1"), 5, "first"),
        msg(None, Some("E1"), 5, "second"),
        msg(None, Some("E1"), 5, "third"),
    ]);
}

#[test]
fn suggestion_lines_count_on_from_the_start_of_the_span() {
    let mut s = span(FILE, 10, true);
    s.suggested_replacement = Some("let a = 1;\nlet b = 2;\n\nlet c = 3;".to_string());
    let d = with_code(diagnostic("help", "try", vec![s]), "E2");
    assert_eq!(flatten(d), vec![
        msg(Some(MessageKind::Help), Some("E2"), 10, "try"),
        msg(Some(MessageKind::Suggestion), Some("E2"), 10, "let a = 1;"),
        msg(Some(MessageKind::Suggestion), Some("E2"), 11, "let b = 2;"),
        msg(Some(MessageKind::Suggestion), Some("E2"), 12, ""),
        msg(Some(MessageKind::Suggestion), Some("E2"), 13, "let c = 3;"),
    ]);
}

#[test]
fn empty_suggestion_gives_no_message() {
    let mut s = span(FILE, 10, true);
    s.suggested_replacement = Some(String::new());
    assert_eq!(flatten(diagnostic("help", "remove this", vec![s])), vec![
        msg(Some(MessageKind::Help), None, 10, "remove this"),
    ]);
}

#[test]
fn suggestion_of_a_span_that_is_not_selected_is_left_out() {
    let mut secondary = span(FILE, 10, false);
    secondary.suggested_replacement = Some("x".to_string());
    let d = diagnostic("error", "e", vec![span(FILE, 1, true), secondary]);
    assert_eq!(flatten(d), vec![msg(Some(MessageKind::Error), None, 1, "e")]);
}

#[test]
fn labels_of_all_spans_in_the_file_become_notes() {
    let mut primary = span(FILE, 3, true);
    primary.label = Some("expected u32".to_string());
    let mut secondary = span(FILE, 1, false);
    secondary.label = Some("declared here".to_string());
    let mut foreign = span("src/lib.rs", 8, false);
    foreign.label = Some("not ours".to_string());
    let d = with_code(diagnostic("error", "mismatch", vec![secondary, foreign, primary]), "E0308");
    assert_eq!(flatten(d), vec![
        msg(Some(MessageKind::Error), Some("E0308"), 3, "mismatch"),
        msg(Some(MessageKind::Note), Some("E0308"), 1, "declared here"),
        msg(Some(MessageKind::Note), Some("E0308"), 3, "expected u32"),
    ]);
}

#[test]
fn macro_backtrace_gives_a_note_for_each_expansion_in_the_file() {
    let mut outer = span(FILE, 20, false);
    outer.expansion = None;
    let mut middle = span("src/macros.rs", 7, false);
    middle.expansion = Some(Box::new(DiagnosticSpanMacroExpansion {
        span: outer,
        macro_decl_name: "outer!".to_string(),
    }));
    let mut inner = span(FILE, 12, false);
    inner.expansion = Some(Box::new(DiagnosticSpanMacroExpansion {
        span: middle,
        macro_decl_name: "middle!".to_string(),
    }));
    let mut primary = span(FILE, 2, true);
    primary.expansion = Some(Box::new(DiagnosticSpanMacroExpansion {
        span: inner,
        macro_decl_name: "#[derive(Eq)]".to_string(),
    }));
    let d = with_code(diagnostic("error", "in macro", vec![primary]), "E9");
    assert_eq!(flatten(d), vec![
        msg(Some(MessageKind::Error), Some("E9"), 2, "in macro"),
        msg(Some(MessageKind::Note), None, 12, "in this expansion of #[derive(Eq)]"),
        msg(Some(MessageKind::Note), None, 20, "in this expansion of outer!"),
    ]);
}

#[test]
fn backtrace_can_be_pushed_on_its_own() {
    let expansion = DiagnosticSpanMacroExpansion {
        span: span(FILE, 4, false),
        macro_decl_name: "vec!".to_string(),
    };
    let mut out = vec![msg(None, None, 1, "before")];
    push_backtrace(&mut out, &expansion, FILE);
    assert_eq!(out, vec![
        msg(None, None, 1, "before"),
        msg(Some(MessageKind::Note), None, 4, "in this expansion of vec!"),
    ]);
    push_backtrace(&mut out, &expansion, "other.rs");
    assert_eq!(out.len(), 2);
}

#[test]
fn children_inherit_the_selected_span() {
    let mut parent = with_code(diagnostic("error", "unused", vec![span(FILE, 6, true)]), "E7");
    let note = diagnostic("note", "because of this", vec![]);
    let mut help = diagnostic("help", "write it so", vec![span(FILE, 8, true)]);
    help.children.push(diagnostic("note", "deeper", vec![span("x.rs", 1, true)]));
    parent.children.push(note);
    parent.children.push(help);
    assert_eq!(flatten(parent), vec![
        msg(Some(MessageKind::Error), Some("E7"), 6, "unused"),
        msg(Some(MessageKind::Note), None, 6, "because of this"),
        msg(Some(MessageKind::Help), None, 8, "write it so"),
        msg(Some(MessageKind::Note), None, 8, "deeper"),
    ]);
}

#[test]
fn inherited_spans_are_used_one_message_each() {
    let first = span(FILE, 1, true);
    let second = span(FILE, 2, false);
    let d = diagnostic("note", "a\nb", vec![]);
    let mut out = Vec::new();
    push_expected_errors(&mut out, &d, &[&first, &second], FILE);
    assert_eq!(out, vec![
        msg(Some(MessageKind::Note), None, 1, "a"),
        msg(Some(MessageKind::Note), None, 2, "a"),
        msg(None, None, 1, "b"),
        msg(None, None, 2, "b"),
    ]);
}

#[test]
fn messages_of_all_diagnostics_come_in_order() {
    let out = parse_output(FILE, &[
        diagnostic("error", "one", vec![span(FILE, 1, true)]),
        diagnostic("error", "skipped", vec![span("b.rs", 1, true)]),
        diagnostic("warning", "two", vec![span(FILE, 2, true)]),
    ]);
    assert_eq!(out, vec![
        msg(Some(MessageKind::Error), None, 1, "one"),
        msg(Some(MessageKind::Warning), None, 2, "two"),
    ]);
    assert_eq!(parse_output(FILE, &[]), vec![]);
}

#[test]
fn only_lines_that_open_with_a_brace_are_records() {
    let output = "warning: something\n{\"message\":\"a\"}\r\n\n  {\"indented\":1}\n{broken\nnot {json}\n{}";
    assert_eq!(record_lines(output), vec![
        "{\"message\":\"a\"}".to_string(),
        "{broken".to_string(),
        "{}".to_string(),
    ]);
    assert_eq!(record_lines(""), Vec::<String>::new());
    assert_eq!(record_lines("error: could not compile\n"), Vec::<String>::new());
}

#[test]
fn line_numbers_that_would_overflow_are_found_out() {
    let mut fine = span(FILE, usize::MAX, true);
    fine.suggested_replacement = Some("one line".to_string());
    assert!(fine.check_fits());
    let mut bad = span(FILE, usize::MAX, true);
    bad.suggested_replacement = Some("one\ntwo".to_string());
    assert!(!bad.check_fits());
    let mut edge = span(FILE, usize::MAX - 1, false);
    edge.suggested_replacement = Some("one\ntwo\n".to_string());
    assert!(edge.check_fits());
    assert!(span(FILE, usize::MAX, true).check_fits());

    let mut parent = diagnostic("error", "e", vec![fine]);
    assert!(parent.check_fits());
    parent.children.push(diagnostic("help", "h", vec![edge, bad]));
    assert!(!parent.check_fits());
    assert!(!all_fit(&[diagnostic("note", "n", vec![]), parent]));
    assert!(all_fit(&[diagnostic("note", "n", vec![])]));
    assert!(all_fit(&[]));
}
