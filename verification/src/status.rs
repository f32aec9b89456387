//! Keeps count of the tests that passed and failed, and words the report.
//!
//! The report is made of pieces. A run that may use the console gets the
//! pieces back to show them, the status words in colour; a quiet run holds
//! their text back until the final result.

use vstd::prelude::*;
use crate::config::Config;
use crate::text::{decimal, push_chars, push_decimal, push_str, string_from_chars};

verus! {

/// A piece of the report.
#[derive(Debug, PartialEq, Eq)]
pub enum Piece {
    /// Plain text.
    Text(String),
    /// The word for a passed (`ok`) or failed (`FAILED`) test or run, which a
    /// console shows in green or red.
    Status(bool),
}

/// The model of a `Piece`.
pub enum PieceView {
    Text(Seq<char>),
    Status(bool),
}

impl View for Piece {
    type V = PieceView;

    open spec fn view(&self) -> PieceView {
        match *self {
            Piece::Text(text) => PieceView::Text(text@),
            Piece::Status(pass) => PieceView::Status(pass),
        }
    }
}

/// The models of a sequence of pieces.
pub open spec fn pieces_view(pieces: Seq<Piece>) -> Seq<PieceView> {
    pieces.map_values(|p: Piece| p@)
}

/// The word for a status.
pub open spec fn status_word(pass: bool) -> Seq<char> {
    if pass {
        "ok"@
    } else {
        "FAILED"@
    }
}

/// The text of a piece, without colour.
pub open spec fn piece_text(piece: PieceView) -> Seq<char> {
    match piece {
        PieceView::Text(text) => text,
        PieceView::Status(pass) => status_word(pass),
    }
}

/// The text of the first `n` pieces, without colour.
pub open spec fn plain_text(pieces: Seq<PieceView>, n: nat) -> Seq<char>
    decreases n,
{
    if n == 0 {
        Seq::empty()
    } else {
        plain_text(pieces, (n - 1) as nat) + piece_text(pieces[n - 1])
    }
}

/// A failed test: its name and what went wrong.
pub struct FailureView {
    pub name: Seq<char>,
    pub error: Seq<char>,
}

/// The model of a `TestStatus`.
pub struct StatusView {
    /// Whether the report is held back.
    pub quiet: bool,
    /// The text held back so far.
    pub buffer: Seq<char>,
    /// The failed tests, in the order in which they were recorded.
    pub errors: Seq<FailureView>,
    /// How many tests the run was announced with.
    pub num_tests: nat,
    /// How many tests passed so far.
    pub num_passed: nat,
}

/// The line that opens the report.
pub open spec fn header_text(num_tests: nat) -> Seq<char> {
    "running "@ + decimal(num_tests) + " compile-fail test"@ + (if num_tests == 1 {
        ""@
    } else {
        "s"@
    }) + "\n"@
}

/// The pieces that open the report.
pub open spec fn header_pieces(num_tests: nat) -> Seq<PieceView> {
    seq![PieceView::Text(header_text(num_tests))]
}

/// The pieces that report one test.
pub open spec fn test_pieces(name: Seq<char>, pass: bool) -> Seq<PieceView> {
    seq![
        PieceView::Text("test "@ + name + " ... "@),
        PieceView::Status(pass),
        PieceView::Text("\n"@),
    ]
}

/// The tally after the status word of the whole run.
pub open spec fn tally_text(passed: nat, failed: nat) -> Seq<char> {
    ". "@ + decimal(passed) + " passed; "@ + decimal(failed) + " failed\n\n"@
}

/// The block that tells of one failed test.
pub open spec fn failure_text(failure: FailureView) -> Seq<char> {
    "---- test "@ + failure.name + " ----\n"@ + failure.error + "\n\n"@
}

/// The blocks for the first `n` failed tests.
pub open spec fn failure_pieces(errors: Seq<FailureView>, n: nat) -> Seq<PieceView>
    decreases n,
{
    if n == 0 {
        Seq::empty()
    } else {
        failure_pieces(errors, (n - 1) as nat).push(PieceView::Text(failure_text(errors[n - 1])))
    }
}

/// The pieces that close the report: the status of the run, the tally, and a
/// block for each failed test.
pub open spec fn result_pieces(passed: nat, errors: Seq<FailureView>) -> Seq<PieceView> {
    seq![
        PieceView::Text("test result: "@),
        PieceView::Status(errors.len() == 0),
        PieceView::Text(tally_text(passed, errors.len())),
    ] + failure_pieces(errors, errors.len())
}

/// The state after `pieces` are written: a quiet run holds their text back.
pub open spec fn written(state: StatusView, pieces: Seq<PieceView>) -> StatusView {
    if state.quiet {
        StatusView { buffer: state.buffer + plain_text(pieces, pieces.len()), ..state }
    } else {
        state
    }
}

/// What of `pieces` is handed back to be shown: nothing in a quiet run.
pub open spec fn shown(state: StatusView, pieces: Seq<PieceView>) -> Seq<PieceView> {
    if state.quiet {
        Seq::empty()
    } else {
        pieces
    }
}

/// The state after the result of a test is recorded, before anything is
/// written.
pub open spec fn recorded(state: StatusView, name: Seq<char>, result: Result<(), Seq<char>>) -> StatusView {
    match result {
        Ok(()) => StatusView { num_passed: state.num_passed + 1, ..state },
        Err(error) => StatusView { errors: state.errors.push(FailureView { name, error }), ..state },
    }
}

/// The words that sum up a failed run.
pub open spec fn summary_text(state: StatusView) -> Seq<char> {
    (if state.quiet {
        state.buffer + "\n\n"@
    } else {
        Seq::empty()
    }) + decimal(state.errors.len()) + " compile-fail tests failed"@
}

/// The result of the whole run: success if no test failed.
pub open spec fn global_result(state: StatusView) -> Result<(), Seq<char>> {
    if state.errors.len() == 0 {
        Ok(())
    } else {
        Err(summary_text(state))
    }
}

/// The model of a test's result.
pub open spec fn result_view(result: Result<(), String>) -> Result<(), Seq<char>> {
    match result {
        Ok(()) => Ok(()),
        Err(error) => Err(error@),
    }
}

/// The models of the failed tests.
pub open spec fn failures_view(errors: Seq<(String, String)>) -> Seq<FailureView> {
    errors.map_values(|e: (String, String)| FailureView { name: e.0@, error: e.1@ })
}

/// Collects the results of the tests of a run and words its report.
pub struct TestStatus {
    quiet: bool,
    buffer: Vec<char>,
    errors: Vec<(String, String)>,
    num_tests: usize,
    num_passed: usize,
}

impl View for TestStatus {
    type V = StatusView;

    closed spec fn view(&self) -> StatusView {
        StatusView {
            quiet: self.quiet,
            buffer: self.buffer@,
            errors: failures_view(self.errors@),
            num_tests: self.num_tests as nat,
            num_passed: self.num_passed as nat,
        }
    }
}

fn text_piece(chars: &Vec<char>) -> (piece: Piece)
    ensures
        piece@ == PieceView::Text(chars@),
{
    Piece::Text(string_from_chars(chars.as_slice()))
}

fn push_piece(pieces: &mut Vec<Piece>, piece: Piece)
    ensures
        pieces_view(final(pieces)@) == pieces_view(old(pieces)@).push(piece@),
{
    pieces.push(piece);
    assert(pieces_view(pieces@) =~= pieces_view(old(pieces)@).push(piece@));
}

impl TestStatus {
    /// The status of a run of `num_tests` tests of which none has been
    /// recorded yet.
    pub fn new(config: &Config, num_tests: usize) -> (status: Self)
        ensures
            status@ == (StatusView {
                quiet: config.no_console_output,
                buffer: Seq::empty(),
                errors: Seq::empty(),
                num_tests: num_tests as nat,
                num_passed: 0,
            }),
    {
        let status = TestStatus {
            quiet: config.no_console_output,
            buffer: Vec::new(),
            errors: Vec::new(),
            num_tests,
            num_passed: 0,
        };
        assert(status@.errors =~= Seq::<FailureView>::empty());
        status
    }

    /// How many tests have passed so far.
    pub fn num_passed(&self) -> (n: usize)
        ensures
            n == self@.num_passed,
    {
        self.num_passed
    }

    /// How many tests have failed so far.
    pub fn num_failed(&self) -> (n: usize)
        ensures
            n == self@.errors.len(),
    {
        self.errors.len()
    }

    /// Writes `pieces`: holds their text back in a quiet run, hands them
    /// back to be shown otherwise.
    fn write(&mut self, pieces: Vec<Piece>) -> (out: Vec<Piece>)
        ensures
            final(self)@ == written(old(self)@, pieces_view(pieces@)),
            pieces_view(out@) == shown(old(self)@, pieces_view(pieces@)),
    {
        if self.quiet {
            let ghost all = pieces_view(pieces@);
            let mut i: usize = 0;
            assert(self.buffer@ =~= old(self).buffer@ + plain_text(all, 0));
            while i < pieces.len()
                invariant
                    i <= pieces.len(),
                    all == pieces_view(pieces@),
                    self.quiet == old(self).quiet,
                    self.errors == old(self).errors,
                    self.num_tests == old(self).num_tests,
                    self.num_passed == old(self).num_passed,
                    self.buffer@ == old(self).buffer@ + plain_text(all, i as nat),
                decreases pieces.len() - i,
            {
                assert(all[i as int] == pieces@[i as int]@);
                match &pieces[i] {
                    Piece::Text(text) => {
                        push_str(&mut self.buffer, text.as_str());
                    },
                    Piece::Status(pass) => {
                        if *pass {
                            push_str(&mut self.buffer, "ok");
                        } else {
                            push_str(&mut self.buffer, "FAILED");
                        }
                    },
                }
                i += 1;
                assert(self.buffer@ =~= old(self).buffer@ + plain_text(all, i as nat));
            }
            let out: Vec<Piece> = Vec::new();
            assert(pieces_view(out@) =~= Seq::<PieceView>::empty());
            out
        } else {
            pieces
        }
    }

    /// Writes the line that opens the report.
    pub fn print_header(&mut self) -> (out: Vec<Piece>)
        ensures
            final(self)@ == written(old(self)@, header_pieces(old(self)@.num_tests)),
            pieces_view(out@) == shown(old(self)@, header_pieces(old(self)@.num_tests)),
    {
        let mut text: Vec<char> = Vec::new();
        push_str(&mut text, "running ");
        push_decimal(&mut text, self.num_tests);
        push_str(&mut text, " compile-fail test");
        if self.num_tests == 1 {
            push_str(&mut text, "");
        } else {
            push_str(&mut text, "s");
        }
        push_str(&mut text, "\n");
        assert(text@ =~= header_text(self.num_tests as nat));
        let mut pieces: Vec<Piece> = Vec::new();
        push_piece(&mut pieces, text_piece(&text));
        assert(pieces_view(pieces@) =~= header_pieces(self.num_tests as nat));
        self.write(pieces)
    }

    /// Records the result of the test `name` and writes the line that
    /// reports it.
    pub fn print_test(&mut self, name: &str, result: Result<(), String>) -> (out: Vec<Piece>)
        requires
            result is Ok ==> old(self)@.num_passed < usize::MAX,
        ensures
            final(self)@ == recorded(
                written(old(self)@, test_pieces(name@, result is Ok)),
                name@,
                result_view(result),
            ),
            pieces_view(out@) == shown(old(self)@, test_pieces(name@, result is Ok)),
    {
        let pass = result.is_ok();
        let mut head: Vec<char> = Vec::new();
        push_str(&mut head, "test ");
        push_str(&mut head, name);
        push_str(&mut head, " ... ");
        let mut tail: Vec<char> = Vec::new();
        push_str(&mut tail, "\n");
        let mut pieces: Vec<Piece> = Vec::new();
        push_piece(&mut pieces, text_piece(&head));
        push_piece(&mut pieces, Piece::Status(pass));
        push_piece(&mut pieces, text_piece(&tail));
        assert(pieces_view(pieces@) =~= test_pieces(name@, pass));
        let out = self.write(pieces);
        let ghost before = self@;
        match result {
            Ok(()) => {
                self.num_passed = self.num_passed + 1;
            },
            Err(error) => {
                let owned = name.to_owned();
                self.errors.push((owned, error));
                assert(self@.errors =~= before.errors.push(
                    FailureView { name: name@, error: error@ },
                ));
            },
        }
        out
    }

    /// Writes the end of the report: whether the run passed, how many tests
    /// passed and failed, and what went wrong in each failed test.
    pub fn print_result(&mut self) -> (out: Vec<Piece>)
        ensures
            final(self)@ == written(
                old(self)@,
                result_pieces(old(self)@.num_passed, old(self)@.errors),
            ),
            pieces_view(out@) == shown(
                old(self)@,
                result_pieces(old(self)@.num_passed, old(self)@.errors),
            ),
    {
        let ghost errors = self@.errors;
        let mut head: Vec<char> = Vec::new();
        push_str(&mut head, "test result: ");
        let mut tally: Vec<char> = Vec::new();
        push_str(&mut tally, ". ");
        push_decimal(&mut tally, self.num_passed);
        push_str(&mut tally, " passed; ");
        push_decimal(&mut tally, self.errors.len());
        push_str(&mut tally, " failed\n\n");
        assert(tally@ =~= tally_text(self.num_passed as nat, errors.len()));
        let mut pieces: Vec<Piece> = Vec::new();
        push_piece(&mut pieces, text_piece(&head));
        push_piece(&mut pieces, Piece::Status(self.errors.len() == 0));
        push_piece(&mut pieces, text_piece(&tally));
        let ghost start = pieces_view(pieces@);
        assert(start =~= seq![
            PieceView::Text("test result: "@),
            PieceView::Status(errors.len() == 0),
            PieceView::Text(tally_text(self.num_passed as nat, errors.len())),
        ]);
        let mut i: usize = 0;
        assert(pieces_view(pieces@) =~= start + failure_pieces(errors, 0));
        while i < self.errors.len()
            invariant
                i <= self.errors.len(),
                errors == self@.errors,
                errors == failures_view(self.errors@),
                pieces_view(pieces@) == start + failure_pieces(errors, i as nat),
            decreases self.errors.len() - i,
        {
            let mut block: Vec<char> = Vec::new();
            push_str(&mut block, "---- test ");
            push_str(&mut block, self.errors[i].0.as_str());
            push_str(&mut block, " ----\n");
            push_str(&mut block, self.errors[i].1.as_str());
            push_str(&mut block, "\n\n");
            assert(block@ =~= failure_text(errors[i as int]));
            push_piece(&mut pieces, text_piece(&block));
            i += 1;
            assert(pieces_view(pieces@) =~= start + failure_pieces(errors, i as nat));
        }
        self.write(pieces)
    }

    /// Ends the run: success if no test failed, and otherwise the words that
    /// sum the run up, after the report that a quiet run held back.
    pub fn into_global_result(self) -> (r: Result<(), String>)
        ensures
            result_view(r) == global_result(self@),
    {
        if self.errors.len() == 0 {
            Ok(())
        } else {
            let mut text: Vec<char> = Vec::new();
            if self.quiet {
                push_chars(&mut text, self.buffer.as_slice());
                push_str(&mut text, "\n\n");
            }
            push_decimal(&mut text, self.errors.len());
            push_str(&mut text, " compile-fail tests failed");
            assert(text@ =~= summary_text(self@));
            Err(string_from_chars(text.as_slice()))
        }
    }
}

/// The state after the first `n` of `results` are recorded and reported.
pub open spec fn recorded_all(
    state: StatusView,
    results: Seq<(Seq<char>, Result<(), Seq<char>>)>,
    n: nat,
) -> StatusView
    decreases n,
{
    if n == 0 {
        state
    } else {
        let before = recorded_all(state, results, (n - 1) as nat);
        let (name, result) = results[n - 1];
        recorded(written(before, test_pieces(name, result is Ok)), name, result)
    }
}

/// Recording results adds one failure for each failed test, in order.
pub proof fn lemma_recorded_all(
    state: StatusView,
    results: Seq<(Seq<char>, Result<(), Seq<char>>)>,
    n: nat,
)
    requires
        n <= results.len(),
    ensures
        recorded_all(state, results, n).errors.len() >= state.errors.len(),
        recorded_all(state, results, n).errors.len() == state.errors.len() <==> forall|i: int|
            0 <= i < n ==> (#[trigger] results[i]).1 is Ok,
        recorded_all(state, results, n).num_passed + recorded_all(state, results, n).errors.len()
            == state.num_passed + state.errors.len() + n,
    decreases n,
{
    if n > 0 {
        lemma_recorded_all(state, results, (n - 1) as nat);
    }
}

/// A run ends in success exactly when every test that was recorded passed,
/// whatever was written in between and whether the run is quiet or not; and
/// every test is counted once, as passed or as failed.
pub proof fn law_run_passes_iff_all_tests_pass(
    quiet: bool,
    results: Seq<(Seq<char>, Result<(), Seq<char>>)>,
)
    ensures
        ({
            let start = StatusView {
                quiet,
                buffer: Seq::empty(),
                errors: Seq::empty(),
                num_tests: results.len(),
                num_passed: 0,
            };
            let reported = written(start, header_pieces(start.num_tests));
            let end = recorded_all(reported, results, results.len());
            let closed = written(end, result_pieces(end.num_passed, end.errors));
            &&& global_result(closed) is Ok <==> forall|i: int|
                0 <= i < results.len() ==> (#[trigger] results[i]).1 is Ok
            &&& closed.num_passed + closed.errors.len() == results.len()
        }),
{
    let start = StatusView {
        quiet,
        buffer: Seq::empty(),
        errors: Seq::empty(),
        num_tests: results.len(),
        num_passed: 0,
    };
    let reported = written(start, header_pieces(start.num_tests));
    lemma_recorded_all(reported, results, results.len());
}

} // verus!
