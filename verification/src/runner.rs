//! Compares the messages a test expects with those the compiler gave, and
//! judges one run of the compiler on a test.

use vstd::prelude::*;
use crate::compile::{command_args, Blueprint, CommandLine};
use crate::json::{
    first_fit, messages_view, output_messages, parse_output, Diagnostic, Message, MessageView,
};
use crate::parse::{
    pattern_matches, patterns_view, MessageKind, Pattern, PatternView, TestExpectation,
};
use crate::text::strings_view;

verus! {

/// Some message matches the pattern.
pub open spec fn is_matched(pattern: PatternView, actual: Seq<MessageView>) -> bool {
    exists|j: int| 0 <= j < actual.len() && pattern_matches(pattern, #[trigger] actual[j])
}

/// Some pattern matches the message.
pub open spec fn is_expected(message: MessageView, expected: Seq<PatternView>) -> bool {
    exists|i: int| 0 <= i < expected.len() && pattern_matches(#[trigger] expected[i], message)
}

/// Errors and warnings must be expected; notes, help, suggestions and
/// messages without a kind may come unannounced.
pub open spec fn must_be_expected(message: MessageView) -> bool {
    message.kind == Some(MessageKind::Error) || message.kind == Some(MessageKind::Warning)
}

/// Every pattern is matched by some message.
pub open spec fn complete(expected: Seq<PatternView>, actual: Seq<MessageView>) -> bool {
    forall|i: int| 0 <= i < expected.len() ==> is_matched(#[trigger] expected[i], actual)
}

/// Every error and every warning is matched by some pattern.
pub open spec fn sound(expected: Seq<PatternView>, actual: Seq<MessageView>) -> bool {
    forall|j: int|
        0 <= j < actual.len() && must_be_expected(#[trigger] actual[j]) ==> is_expected(
            actual[j],
            expected,
        )
}

/// The compiler said what the test expects, and no error or warning more.
pub open spec fn passes(expected: Seq<PatternView>, actual: Seq<MessageView>) -> bool {
    complete(expected, actual) && sound(expected, actual)
}

/// How a comparison ends.
pub enum Verdict {
    /// Nothing is missing and nothing is unexpected.
    Pass,
    /// The pattern at this index is the first that no message matches.
    NotFound { index: nat },
    /// Every pattern is matched, and the message at this index is the first
    /// error or warning that no pattern matches.
    Unexpected { index: nat },
}

/// `verdict` is how the comparison of `expected` with `actual` ends.
pub open spec fn is_verdict(
    expected: Seq<PatternView>,
    actual: Seq<MessageView>,
    verdict: Verdict,
) -> bool {
    match verdict {
        Verdict::Pass => passes(expected, actual),
        Verdict::NotFound { index } => {
            &&& index < expected.len()
            &&& !is_matched(expected[index as int], actual)
            &&& forall|i: int| 0 <= i < index ==> is_matched(#[trigger] expected[i], actual)
        },
        Verdict::Unexpected { index } => {
            &&& complete(expected, actual)
            &&& index < actual.len()
            &&& must_be_expected(actual[index as int])
            &&& !is_expected(actual[index as int], expected)
            &&& forall|j: int|
                0 <= j < index && must_be_expected(#[trigger] actual[j]) ==> is_expected(
                    actual[j],
                    expected,
                )
        },
    }
}

/// What is wrong with the compiler's output.
#[derive(Debug)]
pub enum Violation {
    /// A pattern of the test that no message of the compiler matches.
    NotFound { index: usize, pattern: Pattern },
    /// An error or warning of the compiler that no pattern of the test
    /// matches.
    Unexpected { index: usize, message: Message },
}

impl Violation {
    /// The verdict that the violation stands for.
    pub open spec fn verdict(self) -> Verdict {
        match self {
            Violation::NotFound { index, pattern } => Verdict::NotFound { index: index as nat },
            Violation::Unexpected { index, message } => Verdict::Unexpected { index: index as nat },
        }
    }

    /// The violation carries a copy of the pattern or message it is about.
    pub open spec fn cites(self, expected: Seq<PatternView>, actual: Seq<MessageView>) -> bool {
        match self {
            Violation::NotFound { index, pattern } => index < expected.len() && pattern@
                == expected[index as int],
            Violation::Unexpected { index, message } => index < actual.len() && message@
                == actual[index as int],
        }
    }
}

/// The verdict that a result of `compare_messages` stands for.
pub open spec fn verdict_of(r: Result<(), Violation>) -> Verdict {
    match r {
        Ok(()) => Verdict::Pass,
        Err(violation) => violation.verdict(),
    }
}

fn any_message_matches(pattern: &Pattern, got: &[Message]) -> (found: bool)
    ensures
        found == is_matched(pattern@, messages_view(got@)),
{
    let mut j: usize = 0;
    while j < got.len()
        invariant
            j <= got.len(),
            forall|k: int| 0 <= k < j ==> !pattern_matches(pattern@, #[trigger] messages_view(got@)[k]),
        decreases got.len() - j,
    {
        if pattern.matches(&got[j]) {
            assert(pattern_matches(pattern@, messages_view(got@)[j as int]));
            return true;
        }
        j += 1;
    }
    false
}

fn any_pattern_matches(expected: &[Pattern], message: &Message) -> (found: bool)
    ensures
        found == is_expected(message@, patterns_view(expected@)),
{
    let mut i: usize = 0;
    while i < expected.len()
        invariant
            i <= expected.len(),
            forall|k: int|
                0 <= k < i ==> !pattern_matches(#[trigger] patterns_view(expected@)[k], message@),
        decreases expected.len() - i,
    {
        if expected[i].matches(message) {
            assert(pattern_matches(patterns_view(expected@)[i as int], message@));
            return true;
        }
        i += 1;
    }
    false
}

/// Compares the patterns of a test (`expected`) with the messages of the
/// compiler (`got`).
///
/// Every pattern must match a message. Every error and warning must be
/// matched by a pattern, while notes, help and suggestions may be left out
/// of a test. The first pattern without a message is reported; if there is
/// none, the first error or warning without a pattern.
pub fn compare_messages(expected: &[Pattern], got: &[Message]) -> (r: Result<(), Violation>)
    ensures
        is_verdict(patterns_view(expected@), messages_view(got@), verdict_of(r)),
        r matches Err(violation) ==> violation.cites(
            patterns_view(expected@),
            messages_view(got@),
        ),
{
    let ghost want = patterns_view(expected@);
    let ghost actual = messages_view(got@);
    let mut i: usize = 0;
    while i < expected.len()
        invariant
            i <= expected.len(),
            want == patterns_view(expected@),
            actual == messages_view(got@),
            forall|k: int| 0 <= k < i ==> is_matched(#[trigger] want[k], actual),
        decreases expected.len() - i,
    {
        if !any_message_matches(&expected[i], got) {
            return Err(Violation::NotFound { index: i, pattern: expected[i].clone() });
        }
        i += 1;
    }
    let mut j: usize = 0;
    while j < got.len()
        invariant
            j <= got.len(),
            want == patterns_view(expected@),
            actual == messages_view(got@),
            complete(want, actual),
            forall|k: int|
                0 <= k < j && must_be_expected(#[trigger] actual[k]) ==> is_expected(
                    actual[k],
                    want,
                ),
        decreases got.len() - j,
    {
        let message = &got[j];
        let relevant = message.kind == Some(MessageKind::Error) || message.kind == Some(
            MessageKind::Warning,
        );
        if relevant && !any_pattern_matches(expected, message) {
            return Err(Violation::Unexpected { index: j, message: message.clone() });
        }
        j += 1;
    }
    Ok(())
}

/// The patterns and the messages decide how a comparison ends. Comparing
/// them a second time ends the way the first time did.
pub proof fn law_one_verdict(
    expected: Seq<PatternView>,
    actual: Seq<MessageView>,
    first: Verdict,
    second: Verdict,
)
    requires
        is_verdict(expected, actual, first),
        is_verdict(expected, actual, second),
    ensures
        first == second,
{
    match (first, second) {
        (Verdict::NotFound { index: a }, Verdict::NotFound { index: b }) => {
            if a < b {
                assert(is_matched(expected[a as int], actual));
            }
            if b < a {
                assert(is_matched(expected[b as int], actual));
            }
        },
        (Verdict::Unexpected { index: a }, Verdict::Unexpected { index: b }) => {
            if a < b {
                assert(is_expected(actual[a as int], expected));
            }
            if b < a {
                assert(is_expected(actual[b as int], expected));
            }
        },
        (Verdict::NotFound { index }, _) => {
            assert(is_matched(expected[index as int], actual));
        },
        (_, Verdict::NotFound { index }) => {
            assert(is_matched(expected[index as int], actual));
        },
        (Verdict::Unexpected { index }, _) => {
            assert(is_expected(actual[index as int], expected));
        },
        (_, Verdict::Unexpected { index }) => {
            assert(is_expected(actual[index as int], expected));
        },
        _ => {},
    }
}

/// A message that is neither an error nor a warning, a note for one, never
/// fails a comparison, matched or not: wherever it is put among the
/// messages of a passing comparison, the comparison still passes.
pub proof fn law_notes_are_tolerated(
    expected: Seq<PatternView>,
    actual: Seq<MessageView>,
    at: int,
    note: MessageView,
)
    requires
        0 <= at <= actual.len(),
        !must_be_expected(note),
        passes(expected, actual),
    ensures
        passes(expected, actual.insert(at, note)),
{
    let more = actual.insert(at, note);
    assert forall|i: int| 0 <= i < expected.len() implies is_matched(
        #[trigger] expected[i],
        more,
    ) by {
        assert(is_matched(expected[i], actual));
        let j = choose|j: int| 0 <= j < actual.len() && pattern_matches(expected[i], actual[j]);
        let k = if j < at {
            j
        } else {
            j + 1
        };
        assert(more[k] == actual[j]);
        assert(0 <= k < more.len() && pattern_matches(expected[i], more[k]));
    }
    assert forall|j: int| 0 <= j < more.len() && must_be_expected(
        #[trigger] more[j],
    ) implies is_expected(more[j], expected) by {
        if j != at {
            let k = if j < at {
                j
            } else {
                j - 1
            };
            assert(more[j] == actual[k]);
            assert(must_be_expected(actual[k]));
        }
    }
}

/// An error that no pattern matches always fails the comparison, whatever
/// else the compiler said.
pub proof fn law_unexpected_error_fails(
    expected: Seq<PatternView>,
    actual: Seq<MessageView>,
    at: int,
)
    requires
        0 <= at < actual.len(),
        actual[at].kind == Some(MessageKind::Error),
        !is_expected(actual[at], expected),
    ensures
        !passes(expected, actual),
        !is_verdict(expected, actual, Verdict::Pass),
{
    assert(must_be_expected(actual[at]));
}

/// Why a test did not go as it should.
#[derive(Debug)]
pub enum TestFailure {
    /// The compiler accepted the test, which was expected to fail.
    CompilationSucceeded { path: String },
    /// The compiler refused the test, but its messages are not those that
    /// the test expects. All the messages are kept for the report.
    Mismatch { violation: Violation, actual: Vec<Message> },
}

/// What `run_test` owes for a test at `path` with the patterns `expected`,
/// once the compiler has ended (`succeeded`) and has given `diagnostics`.
pub open spec fn is_test_result(
    path: Seq<char>,
    expected: Seq<PatternView>,
    succeeded: bool,
    diagnostics: Seq<Diagnostic>,
    r: Result<(), TestFailure>,
) -> bool {
    let messages = output_messages(diagnostics, path);
    match r {
        Ok(()) => !succeeded && passes(expected, messages),
        Err(TestFailure::CompilationSucceeded { path: reported }) => succeeded && reported@
            == path,
        Err(TestFailure::Mismatch { violation, actual }) => {
            &&& !succeeded
            &&& messages_view(actual@) == messages
            &&& violation.verdict() != Verdict::Pass
            &&& is_verdict(expected, messages, violation.verdict())
            &&& violation.cites(expected, messages)
        },
    }
}

/// Judges one run of the compiler on the test at `path`.
///
/// The test fails if the compiler accepted it. Otherwise the diagnostics are
/// flattened into the messages that point into the test's file, and those
/// are compared with what the test expects.
pub fn run_test(
    path: &str,
    expect: &TestExpectation,
    succeeded: bool,
    diagnostics: &[Diagnostic],
) -> (r: Result<(), TestFailure>)
    requires
        !succeeded ==> first_fit(diagnostics@, diagnostics@.len()),
    ensures
        is_test_result(
            path@,
            patterns_view(expect.expected_msgs@),
            succeeded,
            diagnostics@,
            r,
        ),
{
    if succeeded {
        return Err(
            TestFailure::CompilationSucceeded {
                path: path.to_owned(),
            },
        );
    }
    let msgs = parse_output(path, diagnostics);
    match compare_messages(expect.expected_msgs.as_slice(), msgs.as_slice()) {
        Ok(()) => Ok(()),
        Err(violation) => Err(TestFailure::Mismatch { violation, actual: msgs }),
    }
}

/// The arguments that ask the compiler for structured diagnostics.
pub open spec fn format_args() -> Seq<Seq<char>> {
    seq!["--error-format"@, "json"@]
}

/// Builds the command line that compiles the test at `path` and has the
/// compiler report what it finds as structured diagnostics.
pub fn test_command(blueprint: &Blueprint, path: &str) -> (command: CommandLine)
    ensures
        command.program@ == blueprint@.program,
        strings_view(command.args@) == command_args(blueprint@, path@) + format_args(),
{
    let mut command = blueprint.build_command(path);
    let ghost built = strings_view(command.args@);
    let flag = "--error-format".to_owned();
    let value = "json".to_owned();
    command.args.push(flag);
    command.args.push(value);
    assert(strings_view(command.args@) =~= built + format_args());
    command
}

} // verus!
