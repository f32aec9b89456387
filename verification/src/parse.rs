//! Reads the expected diagnostics that a test file declares in its comments.
//!
//! An annotation starts at the first `//~` of a line. After it comes where the
//! diagnostic is expected (`|` for the line of the annotation directly above,
//! or one `^` for each line to go up), the kind of diagnostic, and either
//! `: text` or `[code]`.

use vstd::prelude::*;
use vstd::slice::slice_subrange;
use crate::json::{Message, MessageView};
use crate::text::{
    chars_of, contains_text, decimal, lemma_line_is_part, lines_of, lowercase, occurs_at,
    push_decimal, push_str, run_len, same_text, scan, split_lines, str_contains,
    str_to_lowercase, string_from_chars, texts, CharClass,
};

verus! {

/// The kinds of message that the compiler emits.
#[derive(PartialEq, Eq, Structural, Clone, Copy, Debug)]
pub enum MessageKind {
    Error,
    Warning,
    Note,
    Help,
    Suggestion,
}

/// The kind that a lowercase name stands for.
pub open spec fn kind_of_lowercase(name: Seq<char>) -> Option<MessageKind> {
    if name == "error"@ {
        Some(MessageKind::Error)
    } else if name == "warning"@ || name == "warn"@ {
        Some(MessageKind::Warning)
    } else if name == "note"@ {
        Some(MessageKind::Note)
    } else if name == "help"@ {
        Some(MessageKind::Help)
    } else if name == "suggestion"@ {
        Some(MessageKind::Suggestion)
    } else {
        None
    }
}

/// The kind that a name stands for, whatever its case.
pub open spec fn kind_of_name(name: Seq<char>) -> Option<MessageKind> {
    kind_of_lowercase(lowercase(name))
}

impl MessageKind {
    /// The kind that an already lowercased name stands for.
    pub fn from_lowercase(name: &str) -> (kind: Option<MessageKind>)
        ensures
            kind == kind_of_lowercase(name@),
    {
        if same_text(name, "error") {
            Some(MessageKind::Error)
        } else if same_text(name, "warning") || same_text(name, "warn") {
            Some(MessageKind::Warning)
        } else if same_text(name, "note") {
            Some(MessageKind::Note)
        } else if same_text(name, "help") {
            Some(MessageKind::Help)
        } else if same_text(name, "suggestion") {
            Some(MessageKind::Suggestion)
        } else {
            None
        }
    }

    /// The kind that a name stands for; case is not told apart.
    pub fn from_name(name: &str) -> (kind: Option<MessageKind>)
        ensures
            kind == kind_of_name(name@),
    {
        let lower = str_to_lowercase(name);
        MessageKind::from_lowercase(lower.as_str())
    }
}

impl std::str::FromStr for MessageKind {
    type Err = ();

    fn from_str(s: &str) -> (r: Result<Self, ()>)
        ensures
            r == match kind_of_name(s@) {
                Some(kind) => Ok::<MessageKind, ()>(kind),
                None => Err::<MessageKind, ()>(()),
            },
    {
        match MessageKind::from_name(s) {
            Some(kind) => Ok(kind),
            None => Err(()),
        }
    }
}

/// Describes which part of a message a pattern looks at.
#[derive(Debug, Eq, PartialEq)]
pub enum Matcher {
    /// Match the error code (such as `E0918`), exactly.
    Code(String),
    /// Match a part of the message text.
    Msg(String),
}

/// The model of a `Matcher`.
pub enum MatcherView {
    Code(Seq<char>),
    Msg(Seq<char>),
}

impl View for Matcher {
    type V = MatcherView;

    open spec fn view(&self) -> MatcherView {
        match *self {
            Matcher::Code(code) => MatcherView::Code(code@),
            Matcher::Msg(text) => MatcherView::Msg(text@),
        }
    }
}

impl Clone for Matcher {
    fn clone(&self) -> (copy: Self)
        ensures
            copy == *self,
    {
        match self {
            Matcher::Code(code) => Matcher::Code(code.clone()),
            Matcher::Msg(text) => Matcher::Msg(text.clone()),
        }
    }
}

/// A pattern that can match a compiler message.
#[derive(Debug, Eq, PartialEq)]
pub struct Pattern {
    /// The kind of message that is expected.
    pub kind: Option<MessageKind>,
    /// Which messages the pattern matches.
    pub matcher: Matcher,
    /// The line at which the message must point, counted from 1.
    pub line_num: usize,
}

/// The model of a `Pattern`.
pub struct PatternView {
    pub kind: Option<MessageKind>,
    pub matcher: MatcherView,
    pub line_num: nat,
}

impl View for Pattern {
    type V = PatternView;

    open spec fn view(&self) -> PatternView {
        PatternView { kind: self.kind, matcher: self.matcher@, line_num: self.line_num as nat }
    }
}

impl Clone for Pattern {
    fn clone(&self) -> (copy: Self)
        ensures
            copy == *self,
    {
        Pattern { kind: self.kind, matcher: self.matcher.clone(), line_num: self.line_num }
    }
}

/// Whether a pattern matches a message: both have the same kind (or both
/// none) and the same line, and the pattern's code is the message's code, or
/// its text is a part of the message's text.
pub open spec fn pattern_matches(pattern: PatternView, message: MessageView) -> bool {
    &&& pattern.kind == message.kind
    &&& pattern.line_num == message.line_num
    &&& match pattern.matcher {
        MatcherView::Code(code) => message.code == Some(code),
        MatcherView::Msg(text) => contains_text(message.msg, text),
    }
}

impl Pattern {
    /// Determines whether this pattern matches a message from the compiler.
    pub fn matches(&self, msg: &Message) -> (matched: bool)
        ensures
            matched == pattern_matches(self@, msg@),
    {
        if self.kind != msg.kind {
            return false;
        }
        if self.line_num != msg.line_num {
            return false;
        }
        match &self.matcher {
            Matcher::Code(code) => match &msg.code {
                Some(found) => same_text(found.as_str(), code.as_str()),
                None => false,
            },
            Matcher::Msg(text) => str_contains(msg.msg.as_str(), text.as_str()),
        }
    }
}

/// The models of a sequence of patterns.
pub open spec fn patterns_view(patterns: Seq<Pattern>) -> Seq<PatternView> {
    patterns.map_values(|p: Pattern| p@)
}

/// Why a test file's annotations could not be read.
#[derive(Debug, Eq, PartialEq)]
pub enum ParseError {
    /// The carets of an annotation point above the first line.
    InvalidOffset { line: usize },
    /// A `//~|` annotation that is not directly preceded by another one.
    DanglingContinuation { line: usize },
    /// The word where the kind is expected names no kind.
    InvalidKind { line: usize, token: String },
    /// Nothing follows the colon.
    EmptyMessage { line: usize },
    /// Neither `: text` nor `[code]` follows the kind but `rest`. A code
    /// without its closing bracket is of this kind too.
    ExpectedMatcher { line: usize, rest: String },
    /// Something follows the closing bracket of a code: `rest`.
    UnconsumedInput { line: usize, rest: String },
    /// The file declares no pattern at all.
    NoPatterns { path: String },
}

/// The model of a `ParseError`.
pub enum ParseErrorView {
    InvalidOffset { line: nat },
    DanglingContinuation { line: nat },
    InvalidKind { line: nat, token: Seq<char> },
    EmptyMessage { line: nat },
    ExpectedMatcher { line: nat, rest: Seq<char> },
    UnconsumedInput { line: nat, rest: Seq<char> },
    NoPatterns { path: Seq<char> },
}

impl View for ParseError {
    type V = ParseErrorView;

    open spec fn view(&self) -> ParseErrorView {
        match *self {
            ParseError::InvalidOffset { line } => ParseErrorView::InvalidOffset { line: line as nat },
            ParseError::DanglingContinuation { line } => ParseErrorView::DanglingContinuation {
                line: line as nat,
            },
            ParseError::InvalidKind { line, token } => ParseErrorView::InvalidKind {
                line: line as nat,
                token: token@,
            },
            ParseError::EmptyMessage { line } => ParseErrorView::EmptyMessage { line: line as nat },
            ParseError::ExpectedMatcher { line, rest } => ParseErrorView::ExpectedMatcher {
                line: line as nat,
                rest: rest@,
            },
            ParseError::UnconsumedInput { line, rest } => ParseErrorView::UnconsumedInput {
                line: line as nat,
                rest: rest@,
            },
            ParseError::NoPatterns { path } => ParseErrorView::NoPatterns { path: path@ },
        }
    }
}

/// The words that start every message about a line.
pub open spec fn in_line(line: nat) -> Seq<char> {
    "in line "@ + decimal(line) + ": "@
}

/// The text that describes an error.
pub open spec fn error_text(e: ParseErrorView) -> Seq<char> {
    match e {
        ParseErrorView::InvalidOffset { line } => in_line(line)
            + "invalid line offset before line 1"@,
        ParseErrorView::DanglingContinuation { line } => in_line(line)
            + "a `//~|` pattern must be directly preceded by another pattern"@,
        ParseErrorView::InvalidKind { line, token } => in_line(line) + "'"@ + token
            + "' is an invalid message kind"@,
        ParseErrorView::EmptyMessage { line } => in_line(line)
            + "error patterns may not be empty"@,
        ParseErrorView::ExpectedMatcher { line, rest } => in_line(line)
            + "expected `: <message>` or `[Exxxx]`, found '"@ + rest + "'"@,
        ParseErrorView::UnconsumedInput { line, rest } => in_line(line)
            + "unconsumed input in pattern: '"@ + rest + "'"@,
        ParseErrorView::NoPatterns { path } => "no error patterns found in "@ + path,
    }
}

fn push_in_line(out: &mut Vec<char>, line: usize)
    ensures
        final(out)@ == old(out)@ + in_line(line as nat),
{
    push_str(out, "in line ");
    push_decimal(out, line);
    push_str(out, ": ");
    assert(out@ =~= old(out)@ + in_line(line as nat));
}

impl ParseError {
    /// The text that describes the error to a reader.
    pub fn message(&self) -> (text: String)
        ensures
            text@ == error_text(self@),
    {
        let mut out: Vec<char> = Vec::new();
        match self {
            ParseError::InvalidOffset { line } => {
                push_in_line(&mut out, *line);
                push_str(&mut out, "invalid line offset before line 1");
            },
            ParseError::DanglingContinuation { line } => {
                push_in_line(&mut out, *line);
                push_str(
                    &mut out,
                    "a `//~|` pattern must be directly preceded by another pattern",
                );
            },
            ParseError::InvalidKind { line, token } => {
                push_in_line(&mut out, *line);
                push_str(&mut out, "'");
                push_str(&mut out, token.as_str());
                push_str(&mut out, "' is an invalid message kind");
            },
            ParseError::EmptyMessage { line } => {
                push_in_line(&mut out, *line);
                push_str(&mut out, "error patterns may not be empty");
            },
            ParseError::ExpectedMatcher { line, rest } => {
                push_in_line(&mut out, *line);
                push_str(&mut out, "expected `: <message>` or `[Exxxx]`, found '");
                push_str(&mut out, rest.as_str());
                push_str(&mut out, "'");
            },
            ParseError::UnconsumedInput { line, rest } => {
                push_in_line(&mut out, *line);
                push_str(&mut out, "unconsumed input in pattern: '");
                push_str(&mut out, rest.as_str());
                push_str(&mut out, "'");
            },
            ParseError::NoPatterns { path } => {
                push_str(&mut out, "no error patterns found in ");
                push_str(&mut out, path.as_str());
            },
        }
        assert(out@ =~= error_text(self@));
        string_from_chars(out.as_slice())
    }
}

/// The marker `//~` stands in `line` at offset `i`.
pub open spec fn marker_at(line: Seq<char>, i: int) -> bool {
    &&& 0 <= i
    &&& i + 3 <= line.len()
    &&& line[i] == '/'
    &&& line[i + 1] == '/'
    &&& line[i + 2] == '~'
}

/// The line holds a marker.
pub open spec fn has_marker(line: Seq<char>) -> bool {
    exists|i: int| marker_at(line, i)
}

/// `i` is where the first marker of `line` stands.
pub open spec fn is_first_marker(line: Seq<char>, i: int) -> bool {
    &&& marker_at(line, i)
    &&& forall|j: int| 0 <= j < i ==> !marker_at(line, j)
}

/// Where the first marker of `line` stands, if the line holds one.
pub open spec fn first_marker(line: Seq<char>) -> int {
    choose|i: int| is_first_marker(line, i)
}

/// What follows the first marker of `line`, if the line holds one.
pub open spec fn annotation_of(line: Seq<char>) -> Option<Seq<char>> {
    if has_marker(line) {
        Some(line.skip(first_marker(line) + 3))
    } else {
        None
    }
}

/// A text without its leading whitespace.
pub open spec fn trim_start(s: Seq<char>) -> Seq<char> {
    s.skip(run_len(s, CharClass::Whitespace) as int)
}

/// The annotation reuses the target line of the one directly above.
pub open spec fn is_continuation(annotation: Seq<char>) -> bool {
    annotation.len() > 0 && annotation[0] == '|'
}

/// How many lines up an annotation that is no continuation points.
pub open spec fn caret_count(annotation: Seq<char>) -> nat {
    run_len(annotation, CharClass::Caret)
}

/// Reads what follows the kind: `: text` or `[code]`, and nothing after it.
/// The text is all that follows the colon, without its leading whitespace,
/// and may not be empty. The code is what stands before the next closing
/// bracket, which must be there.
pub open spec fn parse_matcher(rest: Seq<char>, lineno: nat) -> Result<MatcherView, ParseErrorView> {
    if rest.len() > 0 && rest[0] == ':' {
        let text = trim_start(rest.skip(1));
        if text.len() == 0 {
            Err(ParseErrorView::EmptyMessage { line: lineno })
        } else {
            Ok(MatcherView::Msg(text))
        }
    } else if rest.len() > 0 && rest[0] == '[' {
        let code = rest.skip(1).take(run_len(rest.skip(1), CharClass::CodeChar) as int);
        let after = rest.skip(1 + code.len() as int);
        if after.len() == 0 {
            Err(ParseErrorView::ExpectedMatcher { line: lineno, rest })
        } else if after.len() > 1 {
            Err(ParseErrorView::UnconsumedInput { line: lineno, rest: after.skip(1) })
        } else {
            Ok(MatcherView::Code(code))
        }
    } else {
        Err(ParseErrorView::ExpectedMatcher { line: lineno, rest })
    }
}

/// Reads the kind and the matcher of an annotation whose target line is
/// known.
pub open spec fn parse_expectation(p: Seq<char>, lineno: nat, target: nat) -> Result<
    PatternView,
    ParseErrorView,
> {
    let p = trim_start(p);
    let token = p.take(run_len(p, CharClass::Alphabetic) as int);
    match kind_of_name(token) {
        None => Err(ParseErrorView::InvalidKind { line: lineno, token }),
        Some(kind) => match parse_matcher(p.skip(token.len() as int), lineno) {
            Ok(matcher) => Ok(PatternView { kind: Some(kind), matcher, line_num: target }),
            Err(e) => Err(e),
        },
    }
}

/// Reads the annotation that stands on line `lineno`. `previous` is the
/// target line of the pattern on the line directly above, if that line
/// declared one.
pub open spec fn parse_annotation(
    annotation: Seq<char>,
    lineno: nat,
    previous: Option<nat>,
) -> Result<PatternView, ParseErrorView> {
    if is_continuation(annotation) {
        match previous {
            Some(target) => parse_expectation(annotation.skip(1), lineno, target),
            None => Err(ParseErrorView::DanglingContinuation { line: lineno }),
        }
    } else {
        let carets = caret_count(annotation);
        if carets >= lineno {
            Err(ParseErrorView::InvalidOffset { line: lineno })
        } else {
            parse_expectation(annotation.skip(carets as int), lineno, (lineno - carets) as nat)
        }
    }
}

/// What a parser has read so far.
pub struct ParserState {
    /// The patterns, in the order of their lines.
    pub patterns: Seq<PatternView>,
    /// The last line that declared a pattern; 0 if none did yet.
    pub last_line: nat,
}

/// The state of a parser that has read nothing.
pub open spec fn fresh_state() -> ParserState {
    ParserState { patterns: Seq::empty(), last_line: 0 }
}

/// The target line that a continuation on line `lineno` takes over.
pub open spec fn previous_target(state: ParserState, lineno: nat) -> Option<nat> {
    if state.last_line != 0 && state.last_line + 1 == lineno && state.patterns.len() > 0 {
        Some(state.patterns.last().line_num)
    } else {
        None
    }
}

/// What line `lineno` declares: a pattern, nothing, or an error.
pub open spec fn parse_line_spec(state: ParserState, lineno: nat, line: Seq<char>) -> Result<
    Option<PatternView>,
    ParseErrorView,
> {
    match annotation_of(line) {
        None => Ok(None),
        Some(annotation) => match parse_annotation(
            annotation,
            lineno,
            previous_target(state, lineno),
        ) {
            Ok(pattern) => Ok(Some(pattern)),
            Err(e) => Err(e),
        },
    }
}

/// The state after line `lineno`.
pub open spec fn step(state: ParserState, lineno: nat, line: Seq<char>) -> Result<
    ParserState,
    ParseErrorView,
> {
    match parse_line_spec(state, lineno, line) {
        Err(e) => Err(e),
        Ok(None) => Ok(state),
        Ok(Some(pattern)) => Ok(
            ParserState { patterns: state.patterns.push(pattern), last_line: lineno },
        ),
    }
}

/// The state after the first `k` of `lines`, which are numbered from 1, or
/// the error of the first line that has one.
pub open spec fn parse_upto(state: ParserState, lines: Seq<Seq<char>>, k: nat) -> Result<
    ParserState,
    ParseErrorView,
>
    decreases k,
{
    if k == 0 {
        Ok(state)
    } else {
        match parse_upto(state, lines, (k - 1) as nat) {
            Err(e) => Err(e),
            Ok(mid) => step(mid, k, lines[k - 1]),
        }
    }
}

/// The patterns that a text declares, or the error of its first bad line.
pub open spec fn parse_text(state: ParserState, content: Seq<char>) -> Result<
    Seq<PatternView>,
    ParseErrorView,
> {
    let lines = lines_of(content);
    match parse_upto(state, lines, lines.len()) {
        Ok(end) => Ok(end.patterns),
        Err(e) => Err(e),
    }
}

/// The model of what reading one line gives.
pub open spec fn line_result_view(r: Result<Option<Pattern>, ParseError>) -> Result<
    Option<PatternView>,
    ParseErrorView,
> {
    match r {
        Ok(Some(pattern)) => Ok(Some(pattern@)),
        Ok(None) => Ok(None),
        Err(e) => Err(e@),
    }
}

/// The model of what reading a text gives.
pub open spec fn text_result_view(r: Result<Vec<Pattern>, ParseError>) -> Result<
    Seq<PatternView>,
    ParseErrorView,
> {
    match r {
        Ok(patterns) => Ok(patterns_view(patterns@)),
        Err(e) => Err(e@),
    }
}

/// Once a line has an error, the lines after it are not read.
pub proof fn lemma_error_stops(state: ParserState, lines: Seq<Seq<char>>, k: nat, n: nat)
    requires
        k <= n,
        parse_upto(state, lines, k) is Err,
    ensures
        parse_upto(state, lines, n) == parse_upto(state, lines, k),
    decreases n,
{
    if k < n {
        lemma_error_stops(state, lines, k, (n - 1) as nat);
    }
}

/// Looks for the first marker of a line.
fn find_marker(line: &[char]) -> (found: Option<usize>)
    ensures
        match found {
            Some(i) => is_first_marker(line@, i as int) && i + 3 <= line.len(),
            None => !has_marker(line@),
        },
{
    if line.len() < 3 {
        return None;
    }
    let last: usize = line.len() - 3;
    let mut i: usize = 0;
    while i <= last
        invariant
            last + 3 == line.len(),
            forall|j: int| 0 <= j < i ==> !marker_at(line@, j),
        decreases last + 1 - i,
    {
        if line[i] == '/' && line[i + 1] == '/' && line[i + 2] == '~' {
            return Some(i);
        }
        i += 1;
    }
    None
}

/// A line has one first marker at most.
pub proof fn lemma_first_marker(line: Seq<char>, i: int)
    requires
        is_first_marker(line, i),
    ensures
        has_marker(line),
        first_marker(line) == i,
{
    let c = first_marker(line);
    assert(is_first_marker(line, c));
    if c < i {
        assert(!marker_at(line, c));
    }
    if i < c {
        assert(!marker_at(line, i));
    }
}

/// Reads the matcher that starts at `from`.
fn read_matcher(chars: &[char], from: usize, lineno: usize) -> (r: Result<Matcher, ParseError>)
    requires
        from <= chars.len(),
    ensures
        match r {
            Ok(matcher) => parse_matcher(chars@.skip(from as int), lineno as nat) == Ok::<
                MatcherView,
                ParseErrorView,
            >(matcher@),
            Err(e) => parse_matcher(chars@.skip(from as int), lineno as nat) == Err::<
                MatcherView,
                ParseErrorView,
            >(e@),
        },
{
    let ghost rest = chars@.skip(from as int);
    let len = chars.len();
    if from < len && chars[from] == ':' {
        assert(rest.skip(1) =~= chars@.skip(from + 1));
        let start = scan(chars, from + 1, CharClass::Whitespace);
        assert(trim_start(rest.skip(1)) =~= chars@.subrange(start as int, len as int));
        if start == len {
            Err(ParseError::EmptyMessage { line: lineno })
        } else {
            Ok(Matcher::Msg(string_from_chars(slice_subrange(chars, start, len))))
        }
    } else if from < len && chars[from] == '[' {
        assert(rest.skip(1) =~= chars@.skip(from + 1));
        let end = scan(chars, from + 1, CharClass::CodeChar);
        let ghost code = rest.skip(1).take(end - (from + 1));
        assert(code =~= chars@.subrange(from + 1, end as int));
        assert(rest.skip(1 + code.len() as int) =~= chars@.skip(end as int));
        if end == len {
            Err(
                ParseError::ExpectedMatcher {
                    line: lineno,
                    rest: string_from_chars(slice_subrange(chars, from, len)),
                },
            )
        } else if end + 1 < len {
            assert(chars@.skip(end as int).skip(1) =~= chars@.subrange(end + 1, len as int));
            Err(
                ParseError::UnconsumedInput {
                    line: lineno,
                    rest: string_from_chars(slice_subrange(chars, end + 1, len)),
                },
            )
        } else {
            Ok(Matcher::Code(string_from_chars(slice_subrange(chars, from + 1, end))))
        }
    } else {
        assert(rest =~= chars@.subrange(from as int, len as int));
        Err(
            ParseError::ExpectedMatcher {
                line: lineno,
                rest: string_from_chars(slice_subrange(chars, from, len)),
            },
        )
    }
}

/// Reads the kind and the matcher that start at `from`.
fn read_expectation(chars: &[char], from: usize, lineno: usize, target: usize) -> (r: Result<
    Pattern,
    ParseError,
>)
    requires
        from <= chars.len(),
    ensures
        match r {
            Ok(pattern) => parse_expectation(
                chars@.skip(from as int),
                lineno as nat,
                target as nat,
            ) == Ok::<PatternView, ParseErrorView>(pattern@),
            Err(e) => parse_expectation(chars@.skip(from as int), lineno as nat, target as nat)
                == Err::<PatternView, ParseErrorView>(e@),
        },
{
    let start = scan(chars, from, CharClass::Whitespace);
    let ghost p = trim_start(chars@.skip(from as int));
    assert(p =~= chars@.skip(start as int));
    let end = scan(chars, start, CharClass::Alphabetic);
    let token = string_from_chars(slice_subrange(chars, start, end));
    assert(token@ =~= p.take(run_len(p, CharClass::Alphabetic) as int));
    assert(p.skip(token@.len() as int) =~= chars@.skip(end as int));
    match MessageKind::from_name(token.as_str()) {
        None => Err(ParseError::InvalidKind { line: lineno, token }),
        Some(kind) => match read_matcher(chars, end, lineno) {
            Ok(matcher) => Ok(Pattern { kind: Some(kind), matcher, line_num: target }),
            Err(e) => Err(e),
        },
    }
}

/// The model of what reading one annotation gives.
pub open spec fn pattern_result_view(r: Result<Pattern, ParseError>) -> Result<
    PatternView,
    ParseErrorView,
> {
    match r {
        Ok(pattern) => Ok(pattern@),
        Err(e) => Err(e@),
    }
}

/// Reads a test file line by line and collects the patterns it declares.
pub struct Parser {
    expected_msgs: Vec<Pattern>,
    /// Last line that declared a pattern; 0 if none did yet.
    last_line_with_pattern: usize,
}

impl View for Parser {
    type V = ParserState;

    closed spec fn view(&self) -> ParserState {
        ParserState {
            patterns: patterns_view(self.expected_msgs@),
            last_line: self.last_line_with_pattern as nat,
        }
    }
}

impl Parser {
    #[verifier::type_invariant]
    spec fn inv(&self) -> bool {
        &&& self.last_line_with_pattern != 0 ==> self.expected_msgs@.len() > 0
        &&& forall|i: int|
            0 <= i < self.expected_msgs@.len() ==> (#[trigger] self.expected_msgs@[i]).line_num >= 1
    }

    /// A parser that has read nothing.
    pub fn new() -> (parser: Self)
        ensures
            parser@ == fresh_state(),
    {
        let parser = Parser { expected_msgs: Vec::new(), last_line_with_pattern: 0 };
        assert(parser@.patterns =~= Seq::<PatternView>::empty());
        parser
    }

    /// Reads the annotation that starts at `from` on line `lineno`.
    fn read_annotation(&self, chars: &[char], from: usize, lineno: usize) -> (r: Result<
        Pattern,
        ParseError,
    >)
        requires
            from <= chars.len(),
        ensures
            pattern_result_view(r) == parse_annotation(
                chars@.skip(from as int),
                lineno as nat,
                previous_target(self@, lineno as nat),
            ),
            r matches Ok(pattern) ==> pattern.line_num >= 1,
    {
        proof {
            use_type_invariant(self);
        }
        let ghost annotation = chars@.skip(from as int);
        if from < chars.len() && chars[from] == '|' {
            assert(annotation.skip(1) =~= chars@.skip(from + 1));
            if self.last_line_with_pattern != 0 && lineno >= 1 && self.last_line_with_pattern
                == lineno - 1 {
                let target = self.expected_msgs[self.expected_msgs.len() - 1].line_num;
                read_expectation(chars, from + 1, lineno, target)
            } else {
                Err(ParseError::DanglingContinuation { line: lineno })
            }
        } else {
            let end = scan(chars, from, CharClass::Caret);
            assert(annotation.skip(end - from) =~= chars@.skip(end as int));
            let offset = end - from;
            if offset >= lineno {
                Err(ParseError::InvalidOffset { line: lineno })
            } else {
                read_expectation(chars, end, lineno, lineno - offset)
            }
        }
    }

    /// Reads line `lineno`, given as characters.
    fn read_line(&self, lineno: usize, line: &[char]) -> (r: Result<Option<Pattern>, ParseError>)
        ensures
            line_result_view(r) == parse_line_spec(self@, lineno as nat, line@),
            r matches Ok(Some(pattern)) ==> pattern.line_num >= 1,
    {
        match find_marker(line) {
            None => Ok(None),
            Some(i) => {
                proof {
                    lemma_first_marker(line@, i as int);
                    assert(marker_at(line@, i as int));
                }
                match self.read_annotation(line, i + 3, lineno) {
                    Ok(pattern) => Ok(Some(pattern)),
                    Err(e) => Err(e),
                }
            },
        }
    }

    /// Reads a whole text. Its lines are numbered from 1; the first line with
    /// a bad annotation ends the reading with its error.
    pub fn parse(self, content: &str) -> (r: Result<Vec<Pattern>, ParseError>)
        ensures
            text_result_view(r) == parse_text(self@, content@),
            r matches Ok(patterns) ==> forall|i: int|
                0 <= i < patterns@.len() ==> (#[trigger] patterns@[i]).line_num >= 1,
    {
        let chars = chars_of(content);
        let lines = split_lines(chars.as_slice());
        let ghost start = self@;
        let mut parser = self;
        let mut k: usize = 0;
        while k < lines.len()
            invariant
                k <= lines.len(),
                start == self@,
                texts(lines@) == lines_of(content@),
                parse_upto(start, texts(lines@), k as nat) == Ok::<ParserState, ParseErrorView>(
                    parser@,
                ),
            decreases lines.len() - k,
        {
            let lineno = k + 1;
            let ghost before = parser@;
            assert(texts(lines@)[k as int] == lines@[k as int]@);
            match parser.read_line(lineno, lines[k].as_slice()) {
                Err(e) => {
                    proof {
                        assert(step(before, lineno as nat, texts(lines@)[k as int]) == Err::<
                            ParserState,
                            ParseErrorView,
                        >(e@));
                        assert(parse_upto(start, texts(lines@), lineno as nat) == Err::<
                            ParserState,
                            ParseErrorView,
                        >(e@));
                        lemma_error_stops(
                            start,
                            texts(lines@),
                            lineno as nat,
                            lines@.len() as nat,
                        );
                        assert(texts(lines@).len() == lines@.len());
                    }
                    return Err(e);
                },
                Ok(None) => {},
                Ok(Some(pattern)) => {
                    proof {
                        use_type_invariant(&parser);
                    }
                    let mut patterns = parser.expected_msgs;
                    patterns.push(pattern);
                    parser = Parser { expected_msgs: patterns, last_line_with_pattern: lineno };
                    assert(parser@.patterns =~= before.patterns.push(pattern@));
                },
            }
            k += 1;
        }
        proof {
            use_type_invariant(&parser);
            assert(texts(lines@).len() == lines@.len());
        }
        Ok(parser.expected_msgs)
    }

    /// Reads one line, which may declare a pattern. `lineno` is its number,
    /// counted from 1.
    pub fn parse_line(&self, lineno: usize, line: &str) -> (r: Result<Option<Pattern>, ParseError>)
        ensures
            line_result_view(r) == parse_line_spec(self@, lineno as nat, line@),
            r matches Ok(Some(pattern)) ==> pattern.line_num >= 1,
    {
        let chars = chars_of(line);
        self.read_line(lineno, chars.as_slice())
    }

    /// Reads an annotation: what follows the marker on line `lineno`.
    pub fn parse_pattern(&self, pattern: &str, lineno: usize) -> (r: Result<Pattern, ParseError>)
        ensures
            pattern_result_view(r) == parse_annotation(
                pattern@,
                lineno as nat,
                previous_target(self@, lineno as nat),
            ),
            r matches Ok(pattern) ==> pattern.line_num >= 1,
    {
        let chars = chars_of(pattern);
        assert(chars@.skip(0) =~= chars@);
        self.read_annotation(chars.as_slice(), 0, lineno)
    }
}

/// The patterns that a test declares. There is one at least, and each points
/// at line 1 or below.
#[derive(Debug)]
pub struct TestExpectation {
    pub expected_msgs: Vec<Pattern>,
}

/// What a test file declares: its patterns, or why it could not be read. A
/// file without any pattern is an error too.
pub open spec fn expectation_of(path: Seq<char>, content: Seq<char>) -> Result<
    Seq<PatternView>,
    ParseErrorView,
> {
    match parse_text(fresh_state(), content) {
        Err(e) => Err(e),
        Ok(patterns) => if patterns.len() == 0 {
            Err(ParseErrorView::NoPatterns { path })
        } else {
            Ok(patterns)
        },
    }
}

/// The model of what reading a test file gives.
pub open spec fn expectation_result_view(r: Result<TestExpectation, ParseError>) -> Result<
    Seq<PatternView>,
    ParseErrorView,
> {
    match r {
        Ok(expectation) => Ok(patterns_view(expectation.expected_msgs@)),
        Err(e) => Err(e@),
    }
}

impl TestExpectation {
    /// There is a pattern, and every pattern points at a line that exists.
    pub open spec fn wf(&self) -> bool {
        &&& self.expected_msgs@.len() > 0
        &&& forall|i: int|
            0 <= i < self.expected_msgs@.len() ==> (#[trigger] self.expected_msgs@[i]).line_num >= 1
    }

    /// Reads the expected messages of the test at `path` from its text.
    pub fn parse(path: &str, content: &str) -> (r: Result<Self, ParseError>)
        ensures
            expectation_result_view(r) == expectation_of(path@, content@),
            r matches Ok(expectation) ==> expectation.wf(),
    {
        match Parser::new().parse(content) {
            Err(e) => Err(e),
            Ok(patterns) => {
                if patterns.len() == 0 {
                    Err(ParseError::NoPatterns { path: path.to_owned() })
                } else {
                    Ok(TestExpectation { expected_msgs: patterns })
                }
            },
        }
    }
}

/// Lines without a marker leave the parser as it was.
pub proof fn lemma_no_markers(state: ParserState, lines: Seq<Seq<char>>, k: nat)
    requires
        k <= lines.len(),
        forall|i: int| 0 <= i < k ==> !has_marker(#[trigger] lines[i]),
    ensures
        parse_upto(state, lines, k) == Ok::<ParserState, ParseErrorView>(state),
    decreases k,
{
    if k > 0 {
        lemma_no_markers(state, lines, (k - 1) as nat);
        assert(!has_marker(lines[k - 1]));
    }
}

/// A marker in a line of a text is a marker in the text.
pub proof fn lemma_marker_in_line(content: Seq<char>, k: int)
    requires
        0 <= k < lines_of(content).len(),
        has_marker(lines_of(content)[k]),
    ensures
        has_marker(content),
{
    let line = lines_of(content)[k];
    let i = choose|i: int| marker_at(line, i);
    lemma_line_is_part(content, k);
    let at = choose|at: int| occurs_at(content, line, at);
    let part = content.subrange(at, at + line.len());
    assert(part[i] == content[at + i]);
    assert(part[i + 1] == content[at + i + 1]);
    assert(part[i + 2] == content[at + i + 2]);
    assert(marker_at(content, at + i));
}

/// A test file in which the marker `//~` stands nowhere is refused: it
/// declares no pattern.
pub proof fn law_no_markers_no_patterns(path: Seq<char>, content: Seq<char>)
    requires
        !has_marker(content),
    ensures
        expectation_of(path, content) == Err::<Seq<PatternView>, ParseErrorView>(
            ParseErrorView::NoPatterns { path },
        ),
{
    let lines = lines_of(content);
    assert forall|i: int| 0 <= i < lines.len() implies !has_marker(#[trigger] lines[i]) by {
        if has_marker(lines[i]) {
            lemma_marker_in_line(content, i);
        }
    }
    lemma_no_markers(fresh_state(), lines, lines.len());
}

/// An annotation with as many carets as its line number, or more, points
/// above the first line and is refused, whatever else it says.
pub proof fn law_carets_above_first_line(state: ParserState, lineno: nat, line: Seq<char>)
    requires
        annotation_of(line) matches Some(annotation) && !is_continuation(annotation)
            && caret_count(annotation) >= lineno,
    ensures
        parse_line_spec(state, lineno, line) == Err::<Option<PatternView>, ParseErrorView>(
            ParseErrorView::InvalidOffset { line: lineno },
        ),
{
}

/// The parser never looks back further than it has read.
pub proof fn lemma_last_line(lines: Seq<Seq<char>>, k: nat)
    requires
        k <= lines.len(),
    ensures
        parse_upto(fresh_state(), lines, k) matches Ok(state) ==> state.last_line <= k && (
        state.last_line != 0 ==> state.patterns.len() > 0),
    decreases k,
{
    if k > 0 {
        lemma_last_line(lines, (k - 1) as nat);
    }
}

/// Line `n` of `lines` declares a pattern when the text is read from its
/// start.
pub open spec fn declares_pattern(lines: Seq<Seq<char>>, n: nat) -> bool {
    &&& 1 <= n <= lines.len()
    &&& parse_upto(fresh_state(), lines, (n - 1) as nat) matches Ok(state) && parse_line_spec(
        state,
        n,
        lines[n - 1],
    ) matches Ok(Some(_))
}

/// A continuation on line `n` that the parser reaches is refused as not
/// directly preceded by another pattern exactly when line `n - 1` declared
/// no pattern.
pub proof fn law_continuation_needs_pattern_above(lines: Seq<Seq<char>>, n: nat)
    requires
        1 <= n <= lines.len(),
        parse_upto(fresh_state(), lines, (n - 1) as nat) is Ok,
        annotation_of(lines[n - 1]) matches Some(annotation) && is_continuation(annotation),
    ensures
        parse_upto(fresh_state(), lines, n) == Err::<ParserState, ParseErrorView>(
            ParseErrorView::DanglingContinuation { line: n },
        ) <==> !declares_pattern(lines, (n - 1) as nat),
{
    let state = parse_upto(fresh_state(), lines, (n - 1) as nat)->Ok_0;
    let annotation = annotation_of(lines[n - 1])->Some_0;
    lemma_last_line(lines, (n - 1) as nat);
    if n >= 2 {
        lemma_last_line(lines, (n - 2) as nat);
        let above = parse_upto(fresh_state(), lines, (n - 2) as nat)->Ok_0;
        assert(step(above, (n - 1) as nat, lines[n - 2]) == Ok::<ParserState, ParseErrorView>(
            state,
        ));
    }
    if previous_target(state, n) is Some {
        let target = previous_target(state, n)->Some_0;
        lemma_expectation_errors(annotation.skip(1), n, target);
    }
}

/// Reading the kind and the matcher never gives the error of a continuation
/// that hangs in the air.
pub proof fn lemma_expectation_errors(p: Seq<char>, lineno: nat, target: nat)
    ensures
        !(parse_expectation(p, lineno, target) matches Err(
            ParseErrorView::DanglingContinuation { .. },
        )),
{
}

/// Every pattern that reading the first `k` lines of a text gives points at
/// one of those lines.
pub proof fn law_patterns_point_at_lines(lines: Seq<Seq<char>>, k: nat)
    requires
        k <= lines.len(),
    ensures
        parse_upto(fresh_state(), lines, k) matches Ok(state) ==> forall|i: int|
            0 <= i < state.patterns.len() ==> 1 <= (#[trigger] state.patterns[i]).line_num <= k,
    decreases k,
{
    if k > 0 {
        law_patterns_point_at_lines(lines, (k - 1) as nat);
        lemma_last_line(lines, (k - 1) as nat);
    }
}

} // verus!
