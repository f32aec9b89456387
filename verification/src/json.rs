//! Turns the compiler's structured diagnostics into a flat list of messages,
//! each at a line of the file under test.

use vstd::prelude::*;
use crate::parse::{kind_of_name, MessageKind};
use crate::text::{
    chars_of, lines_of, push_str, split_lines, string_from_chars, strings_view, texts,
};

verus! {

/// Whether two file names are the same path, as std's `Path` compares them
/// on the platform the library is built for.
pub uninterp spec fn same_path(a: Seq<char>, b: Seq<char>) -> bool;

/// Assumed without proof: wraps the `==` of std's `Path`, which compares
/// two paths component by component. The contract only names the result; how
/// the platform splits a path into components is not modelled.
#[verifier::external_body]
pub(crate) fn paths_equal(a: &str, b: &str) -> (same: bool)
    ensures
        same == same_path(a@, b@),
{
    std::path::Path::new(a) == std::path::Path::new(b)
}

/// A message of the compiler, at one line of the file under test.
#[derive(Debug, PartialEq, Eq)]
pub struct Message {
    /// The kind of message. The compiler does not always attach one.
    pub kind: Option<MessageKind>,
    /// One line of the message as the compiler words it.
    pub msg: String,
    /// The code of the error this message is a part of.
    pub code: Option<String>,
    /// The line at which the message points.
    pub line_num: usize,
}

/// The model of a `Message`.
pub struct MessageView {
    pub kind: Option<MessageKind>,
    pub msg: Seq<char>,
    pub code: Option<Seq<char>>,
    pub line_num: nat,
}

/// The model of an optional text.
pub open spec fn text_view(text: Option<String>) -> Option<Seq<char>> {
    match text {
        Some(t) => Some(t@),
        None => None,
    }
}

impl View for Message {
    type V = MessageView;

    open spec fn view(&self) -> MessageView {
        MessageView {
            kind: self.kind,
            msg: self.msg@,
            code: text_view(self.code),
            line_num: self.line_num as nat,
        }
    }
}

impl Clone for Message {
    fn clone(&self) -> (copy: Self)
        ensures
            copy@ == self@,
    {
        Message {
            kind: self.kind,
            msg: self.msg.clone(),
            code: clone_text(&self.code),
            line_num: self.line_num,
        }
    }
}

/// The models of a sequence of messages.
pub open spec fn messages_view(messages: Seq<Message>) -> Seq<MessageView> {
    messages.map_values(|m: Message| m@)
}

/// A diagnostic as the compiler reports it, with the notes below it.
#[derive(Debug)]
pub struct Diagnostic {
    /// The primary message.
    pub message: String,
    pub code: Option<DiagnosticCode>,
    /// "error: internal compiler error", "error", "warning", "note", "help".
    pub level: String,
    pub spans: Vec<DiagnosticSpan>,
    /// Associated diagnostic messages.
    pub children: Vec<Diagnostic>,
    /// The message as the compiler would render it.
    pub rendered: Option<String>,
}

/// A place in a source file that a diagnostic speaks of.
#[derive(Debug)]
pub struct DiagnosticSpan {
    pub file_name: String,
    /// Counted from 1.
    pub line_start: usize,
    pub line_end: usize,
    /// Counted from 1, in characters.
    pub column_start: usize,
    pub column_end: usize,
    /// Whether this is one of the points where the error occurred.
    pub is_primary: bool,
    /// Label that should be placed at this location, if any.
    pub label: Option<String>,
    /// The text that the compiler suggests to put in place of this span.
    pub suggested_replacement: Option<String>,
    /// The macro invocation that created the code at this span, if any.
    pub expansion: Option<Box<DiagnosticSpanMacroExpansion>>,
}

/// One step of a macro backtrace.
#[derive(Debug)]
pub struct DiagnosticSpanMacroExpansion {
    /// Where the macro was applied; this may itself come from a macro.
    pub span: DiagnosticSpan,
    /// Name of the macro that was applied.
    pub macro_decl_name: String,
}

/// The code of a diagnostic.
#[derive(Debug)]
pub struct DiagnosticCode {
    /// The code itself.
    pub code: String,
    /// An explanation for the code.
    pub explanation: Option<String>,
}

/// The span lies in the file under test.
pub open spec fn in_file(span: DiagnosticSpan, file: Seq<char>) -> bool {
    same_path(span.file_name@, file)
}

/// The first of the first `n` spans that is primary and lies in `file`, as a
/// sequence of one span; empty if there is none.
pub open spec fn first_primary(spans: Seq<DiagnosticSpan>, file: Seq<char>, n: nat) -> Seq<
    DiagnosticSpan,
>
    decreases n,
{
    if n == 0 {
        Seq::empty()
    } else {
        let before = first_primary(spans, file, (n - 1) as nat);
        if before.len() > 0 {
            before
        } else if in_file(spans[n - 1], file) && spans[n - 1].is_primary {
            seq![spans[n - 1]]
        } else {
            Seq::empty()
        }
    }
}

/// The spans at which the messages of a diagnostic are placed: its own first
/// primary span in `file`, or else the spans it inherits.
pub open spec fn selected_spans(
    d: Diagnostic,
    defaults: Seq<DiagnosticSpan>,
    file: Seq<char>,
) -> Seq<DiagnosticSpan> {
    let own = first_primary(d.spans@, file, d.spans@.len());
    if own.len() == 0 {
        defaults
    } else {
        own
    }
}

/// The code of a diagnostic, if it has one.
pub open spec fn code_of(d: Diagnostic) -> Option<Seq<char>> {
    match d.code {
        Some(c) => Some(c.code@),
        None => None,
    }
}

/// One message of the given kind and text at the start of each span.
pub open spec fn line_messages(
    spans: Seq<DiagnosticSpan>,
    kind: Option<MessageKind>,
    code: Option<Seq<char>>,
    text: Seq<char>,
) -> Seq<MessageView> {
    Seq::new(
        spans.len(),
        |i: int| MessageView { kind, msg: text, code, line_num: spans[i].line_start as nat },
    )
}

/// The messages for the first `n` lines of a diagnostic's text. The first
/// line has the kind of the diagnostic, the others have none; all of them
/// stand at the start of each span.
pub open spec fn text_messages(
    spans: Seq<DiagnosticSpan>,
    kind: Option<MessageKind>,
    code: Option<Seq<char>>,
    lines: Seq<Seq<char>>,
    n: nat,
) -> Seq<MessageView>
    decreases n,
{
    if n == 0 {
        Seq::empty()
    } else {
        text_messages(spans, kind, code, lines, (n - 1) as nat) + line_messages(
            spans,
            if n == 1 {
                kind
            } else {
                None
            },
            code,
            lines[n - 1],
        )
    }
}

/// The suggestion of a span: one message for each line of the replacement,
/// the first at the start of the span and each next one a line further down.
pub open spec fn suggestion_messages(span: DiagnosticSpan, code: Option<Seq<char>>) -> Seq<
    MessageView,
> {
    match span.suggested_replacement {
        None => Seq::empty(),
        Some(replacement) => {
            let lines = lines_of(replacement@);
            Seq::new(
                lines.len(),
                |i: int|
                    MessageView {
                        kind: Some(MessageKind::Suggestion),
                        msg: lines[i],
                        code,
                        line_num: (span.line_start + i) as nat,
                    },
            )
        },
    }
}

/// The suggestions of the first `n` spans.
pub open spec fn all_suggestions(spans: Seq<DiagnosticSpan>, code: Option<Seq<char>>, n: nat) -> Seq<
    MessageView,
>
    decreases n,
{
    if n == 0 {
        Seq::empty()
    } else {
        all_suggestions(spans, code, (n - 1) as nat) + suggestion_messages(spans[n - 1], code)
    }
}

/// The note that a step of a macro backtrace gives.
pub open spec fn expansion_note(expansion: DiagnosticSpanMacroExpansion) -> MessageView {
    MessageView {
        kind: Some(MessageKind::Note),
        msg: "in this expansion of "@ + expansion.macro_decl_name@,
        code: None,
        line_num: expansion.span.line_start as nat,
    }
}

/// The notes for a macro backtrace, from the innermost expansion outwards:
/// one for each step that was applied in `file`.
pub open spec fn backtrace(expansion: DiagnosticSpanMacroExpansion, file: Seq<char>) -> Seq<
    MessageView,
>
    decreases expansion,
{
    let own = if in_file(expansion.span, file) {
        seq![expansion_note(expansion)]
    } else {
        Seq::empty()
    };
    match expansion.span.expansion {
        Some(previous) => own + backtrace(*previous, file),
        None => own,
    }
}

/// The backtrace of a span.
pub open spec fn span_backtrace(span: DiagnosticSpan, file: Seq<char>) -> Seq<MessageView> {
    match span.expansion {
        Some(expansion) => backtrace(*expansion, file),
        None => Seq::empty(),
    }
}

/// The backtraces of the first `n` spans.
pub open spec fn all_backtraces(spans: Seq<DiagnosticSpan>, file: Seq<char>, n: nat) -> Seq<
    MessageView,
>
    decreases n,
{
    if n == 0 {
        Seq::empty()
    } else {
        all_backtraces(spans, file, (n - 1) as nat) + span_backtrace(spans[n - 1], file)
    }
}

/// A note for each of the first `n` spans that lies in `file` and has a
/// label.
pub open spec fn label_messages(
    spans: Seq<DiagnosticSpan>,
    file: Seq<char>,
    code: Option<Seq<char>>,
    n: nat,
) -> Seq<MessageView>
    decreases n,
{
    if n == 0 {
        Seq::empty()
    } else {
        let before = label_messages(spans, file, code, (n - 1) as nat);
        let span = spans[n - 1];
        match span.label {
            Some(label) if in_file(span, file) => before.push(
                MessageView {
                    kind: Some(MessageKind::Note),
                    msg: label@,
                    code,
                    line_num: span.line_start as nat,
                },
            ),
            _ => before,
        }
    }
}

/// The messages of a diagnostic itself, without those of its children.
pub open spec fn own_messages(d: Diagnostic, selected: Seq<DiagnosticSpan>, file: Seq<char>) -> Seq<
    MessageView,
> {
    let code = code_of(d);
    let lines = lines_of(d.message@);
    text_messages(selected, kind_of_name(d.level@), code, lines, lines.len()) + all_suggestions(
        selected,
        code,
        selected.len(),
    ) + all_backtraces(selected, file, selected.len()) + label_messages(
        d.spans@,
        file,
        code,
        d.spans@.len(),
    )
}

/// The messages of a diagnostic and of everything below it. `defaults` are
/// the spans that it inherits from the diagnostic above; its children
/// inherit the spans that were selected for it.
pub open spec fn flatten(d: Diagnostic, defaults: Seq<DiagnosticSpan>, file: Seq<char>) -> Seq<
    MessageView,
>
    decreases d, 0nat,
{
    let selected = selected_spans(d, defaults, file);
    own_messages(d, selected, file) + flatten_first(
        d.children@,
        d.children@.len(),
        selected,
        file,
    )
}

/// The messages of the first `n` of `diagnostics`, which all inherit
/// `defaults`.
pub open spec fn flatten_first(
    diagnostics: Seq<Diagnostic>,
    n: nat,
    defaults: Seq<DiagnosticSpan>,
    file: Seq<char>,
) -> Seq<MessageView>
    decreases diagnostics, n,
{
    if n == 0 || n > diagnostics.len() {
        Seq::empty()
    } else {
        flatten_first(diagnostics, (n - 1) as nat, defaults, file) + flatten(
            diagnostics[n - 1],
            defaults,
            file,
        )
    }
}

/// The line numbers of the span's suggestion fit the machine's integers.
pub open spec fn span_fits(span: DiagnosticSpan) -> bool {
    span.suggested_replacement matches Some(replacement) ==> span.line_start + lines_of(
        replacement@,
    ).len() <= usize::MAX + 1
}

/// `span_fits` holds of every span of the diagnostic and of those below it.
pub open spec fn fits(d: Diagnostic) -> bool
    decreases d, 0nat,
{
    &&& forall|i: int| 0 <= i < d.spans@.len() ==> span_fits(#[trigger] d.spans@[i])
    &&& first_fit(d.children@, d.children@.len())
}

/// `fits` holds of the first `n` of `diagnostics`.
pub open spec fn first_fit(diagnostics: Seq<Diagnostic>, n: nat) -> bool
    decreases diagnostics, n,
{
    n == 0 || n > diagnostics.len() || (first_fit(diagnostics, (n - 1) as nat) && fits(
        diagnostics[n - 1],
    ))
}

/// The spans behind a sequence of references.
pub open spec fn derefs(spans: Seq<&DiagnosticSpan>) -> Seq<DiagnosticSpan> {
    spans.map_values(|s: &DiagnosticSpan| *s)
}

fn push_message(out: &mut Vec<Message>, message: Message)
    ensures
        messages_view(final(out)@) == messages_view(old(out)@).push(message@),
{
    out.push(message);
    assert(messages_view(out@) =~= messages_view(old(out)@).push(message@));
}

fn clone_text(text: &Option<String>) -> (copy: Option<String>)
    ensures
        text_view(copy) == text_view(*text),
{
    match text {
        Some(t) => Some(t.clone()),
        None => None,
    }
}

/// The first span that is primary and lies in the file, if there is one.
fn primary_span<'a>(spans: &'a Vec<DiagnosticSpan>, file_name: &str) -> (primary: Vec<
    &'a DiagnosticSpan,
>)
    ensures
        derefs(primary@) == first_primary(spans@, file_name@, spans@.len() as nat),
{
    let mut primary: Vec<&'a DiagnosticSpan> = Vec::new();
    let mut i: usize = 0;
    assert(derefs(primary@) =~= Seq::<DiagnosticSpan>::empty());
    while i < spans.len() && primary.len() == 0
        invariant
            i <= spans.len(),
            derefs(primary@) == first_primary(spans@, file_name@, i as nat),
        decreases spans.len() - i,
    {
        let span = &spans[i];
        if span.is_primary && paths_equal(span.file_name.as_str(), file_name) {
            primary.push(span);
            assert(derefs(primary@) =~= seq![*span]);
        }
        i += 1;
    }
    proof {
        lemma_first_primary_stays(spans@, file_name@, i as nat, spans@.len() as nat);
    }
    primary
}

/// Once a primary span is found, the spans after it do not matter.
proof fn lemma_first_primary_stays(spans: Seq<DiagnosticSpan>, file: Seq<char>, i: nat, n: nat)
    requires
        i <= n,
        i == n || first_primary(spans, file, i).len() > 0,
    ensures
        first_primary(spans, file, n) == first_primary(spans, file, i),
    decreases n,
{
    if i < n {
        lemma_first_primary_stays(spans, file, i, (n - 1) as nat);
    }
}

fn push_line(
    out: &mut Vec<Message>,
    spans: &[&DiagnosticSpan],
    kind: Option<MessageKind>,
    code: &Option<String>,
    text: &[char],
)
    ensures
        messages_view(final(out)@) == messages_view(old(out)@) + line_messages(
            derefs(spans@),
            kind,
            text_view(*code),
            text@,
        ),
{
    let ghost all = line_messages(derefs(spans@), kind, text_view(*code), text@);
    let mut i: usize = 0;
    assert(messages_view(out@) =~= messages_view(old(out)@) + all.take(0));
    while i < spans.len()
        invariant
            i <= spans.len(),
            all == line_messages(derefs(spans@), kind, text_view(*code), text@),
            messages_view(out@) == messages_view(old(out)@) + all.take(i as int),
        decreases spans.len() - i,
    {
        let message = Message {
            kind,
            msg: string_from_chars(text),
            code: clone_text(code),
            line_num: spans[i].line_start,
        };
        assert(message@ == all[i as int]);
        push_message(out, message);
        i += 1;
        assert(messages_view(out@) =~= messages_view(old(out)@) + all.take(i as int));
    }
    assert(all.take(i as int) =~= all);
}

fn push_text(
    out: &mut Vec<Message>,
    spans: &[&DiagnosticSpan],
    kind: Option<MessageKind>,
    code: &Option<String>,
    message: &str,
)
    ensures
        messages_view(final(out)@) == messages_view(old(out)@) + text_messages(
            derefs(spans@),
            kind,
            text_view(*code),
            lines_of(message@),
            lines_of(message@).len(),
        ),
{
    let chars = chars_of(message);
    let lines = split_lines(chars.as_slice());
    assert(texts(lines@).len() == lines@.len());
    let mut n: usize = 0;
    assert(messages_view(out@) =~= messages_view(old(out)@) + Seq::<MessageView>::empty());
    while n < lines.len()
        invariant
            n <= lines.len(),
            texts(lines@) == lines_of(message@),
            messages_view(out@) == messages_view(old(out)@) + text_messages(
                derefs(spans@),
                kind,
                text_view(*code),
                lines_of(message@),
                n as nat,
            ),
        decreases lines.len() - n,
    {
        assert(texts(lines@)[n as int] == lines@[n as int]@);
        let line_kind = if n == 0 {
            kind
        } else {
            None
        };
        push_line(out, spans, line_kind, code, lines[n].as_slice());
        n += 1;
        assert(messages_view(out@) =~= messages_view(old(out)@) + text_messages(
            derefs(spans@),
            kind,
            text_view(*code),
            lines_of(message@),
            n as nat,
        ));
    }
}

fn push_suggestion(out: &mut Vec<Message>, span: &DiagnosticSpan, code: &Option<String>)
    requires
        span_fits(*span),
    ensures
        messages_view(final(out)@) == messages_view(old(out)@) + suggestion_messages(
            *span,
            text_view(*code),
        ),
{
    let ghost all = suggestion_messages(*span, text_view(*code));
    match &span.suggested_replacement {
        None => {
            assert(messages_view(out@) =~= messages_view(old(out)@) + all);
        },
        Some(replacement) => {
            let chars = chars_of(replacement.as_str());
            let lines = split_lines(chars.as_slice());
            assert(texts(lines@).len() == lines@.len());
            let mut i: usize = 0;
            assert(messages_view(out@) =~= messages_view(old(out)@) + all.take(0));
            while i < lines.len()
                invariant
                    i <= lines.len(),
                    span_fits(*span),
                    span.suggested_replacement == Some(*replacement),
                    texts(lines@) == lines_of(replacement@),
                    all == suggestion_messages(*span, text_view(*code)),
                    messages_view(out@) == messages_view(old(out)@) + all.take(i as int),
                decreases lines.len() - i,
            {
                assert(texts(lines@)[i as int] == lines@[i as int]@);
                let message = Message {
                    kind: Some(MessageKind::Suggestion),
                    msg: string_from_chars(lines[i].as_slice()),
                    code: clone_text(code),
                    line_num: span.line_start + i,
                };
                assert(message@ == all[i as int]);
                push_message(out, message);
                i += 1;
                assert(messages_view(out@) =~= messages_view(old(out)@) + all.take(i as int));
            }
            assert(all.take(i as int) =~= all);
        },
    }
}

fn push_suggestions(out: &mut Vec<Message>, spans: &[&DiagnosticSpan], code: &Option<String>)
    requires
        forall|i: int| 0 <= i < spans@.len() ==> span_fits(*#[trigger] spans@[i]),
    ensures
        messages_view(final(out)@) == messages_view(old(out)@) + all_suggestions(
            derefs(spans@),
            text_view(*code),
            spans@.len(),
        ),
{
    let mut i: usize = 0;
    assert(messages_view(out@) =~= messages_view(old(out)@) + Seq::<MessageView>::empty());
    while i < spans.len()
        invariant
            i <= spans.len(),
            forall|i: int| 0 <= i < spans@.len() ==> span_fits(*#[trigger] spans@[i]),
            messages_view(out@) == messages_view(old(out)@) + all_suggestions(
                derefs(spans@),
                text_view(*code),
                i as nat,
            ),
        decreases spans.len() - i,
    {
        assert(derefs(spans@)[i as int] == *spans@[i as int]);
        push_suggestion(out, spans[i], code);
        i += 1;
        assert(messages_view(out@) =~= messages_view(old(out)@) + all_suggestions(
            derefs(spans@),
            text_view(*code),
            i as nat,
        ));
    }
}

/// Adds the notes for a macro backtrace: one for each expansion, from
/// `expansion` outwards, that was applied in the file under test.
pub fn push_backtrace(
    expected_errors: &mut Vec<Message>,
    expansion: &DiagnosticSpanMacroExpansion,
    file_name: &str,
)
    ensures
        messages_view(final(expected_errors)@) == messages_view(old(expected_errors)@) + backtrace(
            *expansion,
            file_name@,
        ),
    decreases expansion,
{
    if paths_equal(expansion.span.file_name.as_str(), file_name) {
        let mut text: Vec<char> = Vec::new();
        push_str(&mut text, "in this expansion of ");
        push_str(&mut text, expansion.macro_decl_name.as_str());
        let message = Message {
            kind: Some(MessageKind::Note),
            msg: string_from_chars(text.as_slice()),
            code: None,
            line_num: expansion.span.line_start,
        };
        assert(message@ == expansion_note(*expansion));
        push_message(expected_errors, message);
    }
    match &expansion.span.expansion {
        Some(previous) => {
            push_backtrace(expected_errors, previous, file_name);
            assert(messages_view(expected_errors@) =~= messages_view(old(expected_errors)@)
                + backtrace(*expansion, file_name@));
        },
        None => {
            assert(messages_view(expected_errors@) =~= messages_view(old(expected_errors)@)
                + backtrace(*expansion, file_name@));
        },
    }
}

fn push_backtraces(out: &mut Vec<Message>, spans: &[&DiagnosticSpan], file_name: &str)
    ensures
        messages_view(final(out)@) == messages_view(old(out)@) + all_backtraces(
            derefs(spans@),
            file_name@,
            spans@.len(),
        ),
{
    let mut i: usize = 0;
    assert(messages_view(out@) =~= messages_view(old(out)@) + Seq::<MessageView>::empty());
    while i < spans.len()
        invariant
            i <= spans.len(),
            messages_view(out@) == messages_view(old(out)@) + all_backtraces(
                derefs(spans@),
                file_name@,
                i as nat,
            ),
        decreases spans.len() - i,
    {
        assert(derefs(spans@)[i as int] == *spans@[i as int]);
        let ghost before = messages_view(out@);
        match &spans[i].expansion {
            Some(expansion) => {
                push_backtrace(out, expansion, file_name);
            },
            None => {
                assert(messages_view(out@) =~= before + Seq::<MessageView>::empty());
            },
        }
        i += 1;
        assert(messages_view(out@) =~= messages_view(old(out)@) + all_backtraces(
            derefs(spans@),
            file_name@,
            i as nat,
        ));
    }
}

fn push_labels(
    out: &mut Vec<Message>,
    spans: &Vec<DiagnosticSpan>,
    code: &Option<String>,
    file_name: &str,
)
    ensures
        messages_view(final(out)@) == messages_view(old(out)@) + label_messages(
            spans@,
            file_name@,
            text_view(*code),
            spans@.len(),
        ),
{
    let mut i: usize = 0;
    assert(messages_view(out@) =~= messages_view(old(out)@) + Seq::<MessageView>::empty());
    while i < spans.len()
        invariant
            i <= spans.len(),
            messages_view(out@) == messages_view(old(out)@) + label_messages(
                spans@,
                file_name@,
                text_view(*code),
                i as nat,
            ),
        decreases spans.len() - i,
    {
        let span = &spans[i];
        if paths_equal(span.file_name.as_str(), file_name) {
            match &span.label {
                Some(label) => {
                    let message = Message {
                        kind: Some(MessageKind::Note),
                        msg: label.clone(),
                        code: clone_text(code),
                        line_num: span.line_start,
                    };
                    push_message(out, message);
                },
                None => {},
            }
        }
        i += 1;
        assert(messages_view(out@) =~= messages_view(old(out)@) + label_messages(
            spans@,
            file_name@,
            text_view(*code),
            i as nat,
        ));
    }
}

/// Adds the messages of `diagnostic`, and of the diagnostics below it, that
/// point into the file `file_name`. `default_spans` are the spans that the
/// diagnostic inherits where it has no primary span of its own in that file.
pub fn push_expected_errors(
    expected_errors: &mut Vec<Message>,
    diagnostic: &Diagnostic,
    default_spans: &[&DiagnosticSpan],
    file_name: &str,
)
    requires
        fits(*diagnostic),
        forall|i: int| 0 <= i < default_spans@.len() ==> span_fits(*#[trigger] default_spans@[i]),
    ensures
        messages_view(final(expected_errors)@) == messages_view(old(expected_errors)@) + flatten(
            *diagnostic,
            derefs(default_spans@),
            file_name@,
        ),
    decreases diagnostic,
{
    let own = primary_span(&diagnostic.spans, file_name);
    proof {
        lemma_first_primary_fits(diagnostic.spans@, file_name@, diagnostic.spans@.len() as nat);
    }
    let primary_spans: &[&DiagnosticSpan] = if own.len() == 0 {
        default_spans
    } else {
        own.as_slice()
    };
    let ghost selected = selected_spans(*diagnostic, derefs(default_spans@), file_name@);
    assert(derefs(primary_spans@) == selected);
    assert forall|i: int| 0 <= i < primary_spans@.len() implies span_fits(
        *#[trigger] primary_spans@[i],
    ) by {
        assert(derefs(primary_spans@)[i] == *primary_spans@[i]);
    }
    let code: Option<String> = match &diagnostic.code {
        Some(c) => Some(c.code.clone()),
        None => None,
    };
    let kind = MessageKind::from_name(diagnostic.level.as_str());
    push_text(expected_errors, primary_spans, kind, &code, diagnostic.message.as_str());
    push_suggestions(expected_errors, primary_spans, &code);
    push_backtraces(expected_errors, primary_spans, file_name);
    push_labels(expected_errors, &diagnostic.spans, &code, file_name);
    assert(messages_view(expected_errors@) =~= messages_view(old(expected_errors)@) + own_messages(
        *diagnostic,
        selected,
        file_name@,
    ));
    let mut i: usize = 0;
    assert(messages_view(expected_errors@) =~= messages_view(old(expected_errors)@) + (own_messages(
        *diagnostic,
        selected,
        file_name@,
    ) + flatten_first(diagnostic.children@, 0, selected, file_name@)));
    while i < diagnostic.children.len()
        invariant
            i <= diagnostic.children.len(),
            fits(*diagnostic),
            derefs(primary_spans@) == selected,
            forall|i: int| 0 <= i < primary_spans@.len() ==> span_fits(*#[trigger] primary_spans@[i]),
            messages_view(expected_errors@) == messages_view(old(expected_errors)@) + (own_messages(
                *diagnostic,
                selected,
                file_name@,
            ) + flatten_first(diagnostic.children@, i as nat, selected, file_name@)),
        decreases diagnostic.children.len() - i,
    {
        proof {
            lemma_first_fit(diagnostic.children@, diagnostic.children@.len() as nat, i as int);
        }
        push_expected_errors(expected_errors, &diagnostic.children[i], primary_spans, file_name);
        i += 1;
        assert(messages_view(expected_errors@) =~= messages_view(old(expected_errors)@) + (
        own_messages(*diagnostic, selected, file_name@) + flatten_first(
            diagnostic.children@,
            i as nat,
            selected,
            file_name@,
        )));
    }
}

/// The span that `first_primary` picks is one of the spans.
proof fn lemma_first_primary_fits(spans: Seq<DiagnosticSpan>, file: Seq<char>, n: nat)
    requires
        n <= spans.len(),
        forall|i: int| 0 <= i < spans.len() ==> span_fits(#[trigger] spans[i]),
    ensures
        forall|i: int|
            0 <= i < first_primary(spans, file, n).len() ==> span_fits(
                #[trigger] first_primary(spans, file, n)[i],
            ),
    decreases n,
{
    if n > 0 {
        lemma_first_primary_fits(spans, file, (n - 1) as nat);
        let before = first_primary(spans, file, (n - 1) as nat);
        let picked = first_primary(spans, file, n);
        assert forall|i: int| 0 <= i < picked.len() implies span_fits(#[trigger] picked[i]) by {
            if before.len() > 0 {
                assert(picked[i] == before[i]);
            } else {
                assert(picked[i] == spans[n - 1]);
            }
        }
    }
}

/// `first_fit` says that each of the first `n` diagnostics fits.
pub proof fn lemma_first_fit(diagnostics: Seq<Diagnostic>, n: nat, i: int)
    requires
        n <= diagnostics.len(),
        first_fit(diagnostics, n),
        0 <= i < n,
    ensures
        fits(diagnostics[i]),
    decreases n,
{
    if i < n - 1 {
        lemma_first_fit(diagnostics, (n - 1) as nat, i);
    }
}

/// The messages of a run of the compiler: those of each of its diagnostics,
/// in order. A diagnostic at the top inherits no spans.
pub open spec fn output_messages(diagnostics: Seq<Diagnostic>, file: Seq<char>) -> Seq<
    MessageView,
> {
    flatten_first(diagnostics, diagnostics.len(), Seq::empty(), file)
}

/// Flattens the diagnostics that the compiler gave for the file `file_name`
/// into messages.
pub fn parse_output(file_name: &str, diagnostics: &[Diagnostic]) -> (messages: Vec<Message>)
    requires
        first_fit(diagnostics@, diagnostics@.len()),
    ensures
        messages_view(messages@) == output_messages(diagnostics@, file_name@),
{
    let mut messages: Vec<Message> = Vec::new();
    let none: Vec<&DiagnosticSpan> = Vec::new();
    assert(derefs(none@) =~= Seq::<DiagnosticSpan>::empty());
    let mut i: usize = 0;
    assert(messages_view(messages@) =~= Seq::<MessageView>::empty());
    while i < diagnostics.len()
        invariant
            i <= diagnostics.len(),
            first_fit(diagnostics@, diagnostics@.len()),
            derefs(none@) == Seq::<DiagnosticSpan>::empty(),
            none@.len() == 0,
            messages_view(messages@) == flatten_first(
                diagnostics@,
                i as nat,
                Seq::empty(),
                file_name@,
            ),
        decreases diagnostics.len() - i,
    {
        proof {
            lemma_first_fit(diagnostics@, diagnostics@.len() as nat, i as int);
        }
        push_expected_errors(&mut messages, &diagnostics[i], none.as_slice(), file_name);
        i += 1;
    }
    messages
}

impl DiagnosticSpan {
    /// Decides `span_fits`.
    pub fn check_fits(&self) -> (b: bool)
        ensures
            b == span_fits(*self),
    {
        match &self.suggested_replacement {
            None => true,
            Some(replacement) => {
                let chars = chars_of(replacement.as_str());
                let lines = split_lines(chars.as_slice());
                assert(texts(lines@).len() == lines@.len());
                lines.len() == 0 || self.line_start <= usize::MAX - (lines.len() - 1)
            },
        }
    }
}

impl Diagnostic {
    /// Decides `fits`.
    pub fn check_fits(&self) -> (b: bool)
        ensures
            b == fits(*self),
        decreases self,
    {
        let mut i: usize = 0;
        while i < self.spans.len()
            invariant
                i <= self.spans.len(),
                forall|k: int| 0 <= k < i ==> span_fits(#[trigger] self.spans@[k]),
            decreases self.spans.len() - i,
        {
            if !self.spans[i].check_fits() {
                return false;
            }
            i += 1;
        }
        let mut j: usize = 0;
        while j < self.children.len()
            invariant
                j <= self.children.len(),
                first_fit(self.children@, j as nat),
            decreases self.children.len() - j,
        {
            if !self.children[j].check_fits() {
                proof {
                    if first_fit(self.children@, self.children@.len() as nat) {
                        lemma_first_fit(self.children@, self.children@.len() as nat, j as int);
                    }
                }
                return false;
            }
            j += 1;
        }
        true
    }
}

/// Decides whether every one of `diagnostics` fits.
pub fn all_fit(diagnostics: &[Diagnostic]) -> (b: bool)
    ensures
        b == first_fit(diagnostics@, diagnostics@.len()),
{
    let mut j: usize = 0;
    while j < diagnostics.len()
        invariant
            j <= diagnostics.len(),
            first_fit(diagnostics@, j as nat),
        decreases diagnostics.len() - j,
    {
        if !diagnostics[j].check_fits() {
            proof {
                if first_fit(diagnostics@, diagnostics@.len() as nat) {
                    lemma_first_fit(diagnostics@, diagnostics@.len() as nat, j as int);
                }
            }
            return false;
        }
        j += 1;
    }
    true
}

/// The line is a structured record: it begins with an opening brace.
pub open spec fn is_record(line: Seq<char>) -> bool {
    line.len() > 0 && line[0] == '{'
}

/// Those of the first `n` lines that are records, in order.
pub open spec fn records_among(lines: Seq<Seq<char>>, n: nat) -> Seq<Seq<char>>
    decreases n,
{
    if n == 0 {
        Seq::empty()
    } else {
        let before = records_among(lines, (n - 1) as nat);
        if is_record(lines[n - 1]) {
            before.push(lines[n - 1])
        } else {
            before
        }
    }
}

/// The records in what the compiler wrote. Lines that do not begin with an
/// opening brace are other text that the compiler mixed in; they are left
/// out.
pub open spec fn records_of(output: Seq<char>) -> Seq<Seq<char>> {
    records_among(lines_of(output), lines_of(output).len())
}

/// Picks the lines of the compiler's output that hold a diagnostic, each to
/// be decoded as one record.
pub fn record_lines(output: &str) -> (records: Vec<String>)
    ensures
        strings_view(records@) == records_of(output@),
{
    let chars = chars_of(output);
    let lines = split_lines(chars.as_slice());
    assert(texts(lines@).len() == lines@.len());
    let mut records: Vec<String> = Vec::new();
    let mut i: usize = 0;
    assert(strings_view(records@) =~= Seq::<Seq<char>>::empty());
    while i < lines.len()
        invariant
            i <= lines.len(),
            texts(lines@) == lines_of(output@),
            strings_view(records@) == records_among(lines_of(output@), i as nat),
        decreases lines.len() - i,
    {
        assert(texts(lines@)[i as int] == lines@[i as int]@);
        let ghost before = strings_view(records@);
        if lines[i].len() > 0 && lines[i][0] == '{' {
            let record = string_from_chars(lines[i].as_slice());
            records.push(record);
            assert(strings_view(records@) =~= before.push(record@));
        }
        i += 1;
    }
    records
}

/// `first_primary` picks one span at most.
pub proof fn lemma_first_primary_len(spans: Seq<DiagnosticSpan>, file: Seq<char>, n: nat)
    ensures
        first_primary(spans, file, n).len() <= 1,
    decreases n,
{
    if n > 0 {
        lemma_first_primary_len(spans, file, (n - 1) as nat);
    }
}

/// Spans of which none lies in the file with a label give no notes.
pub proof fn lemma_no_labels(
    spans: Seq<DiagnosticSpan>,
    file: Seq<char>,
    code: Option<Seq<char>>,
    n: nat,
)
    requires
        n <= spans.len(),
        forall|i: int| 0 <= i < spans.len() ==> !(in_file(#[trigger] spans[i], file)
            && spans[i].label is Some),
    ensures
        label_messages(spans, file, code, n) == Seq::<MessageView>::empty(),
    decreases n,
{
    if n > 0 {
        lemma_no_labels(spans, file, code, (n - 1) as nat);
        assert(!(in_file(spans[n - 1], file) && spans[n - 1].label is Some));
    }
}

/// A diagnostic at the top, with a primary span in the file, whose text is
/// one line, without children, without a suggestion or a macro backtrace in
/// the file at that span, and without a labelled span in the file, gives
/// exactly one message: its text, with its kind and code, at the start of
/// that span.
pub proof fn law_plain_diagnostic_gives_one_message(d: Diagnostic, file: Seq<char>)
    requires
        lines_of(d.message@).len() == 1,
        d.children@.len() == 0,
        first_primary(d.spans@, file, d.spans@.len()).len() > 0,
        first_primary(d.spans@, file, d.spans@.len())[0].suggested_replacement is None,
        span_backtrace(first_primary(d.spans@, file, d.spans@.len())[0], file).len() == 0,
        forall|i: int| 0 <= i < d.spans@.len() ==> !(in_file(#[trigger] d.spans@[i], file)
            && d.spans@[i].label is Some),
    ensures
        flatten(d, Seq::empty(), file) == seq![
            MessageView {
                kind: kind_of_name(d.level@),
                msg: lines_of(d.message@)[0],
                code: code_of(d),
                line_num: first_primary(d.spans@, file, d.spans@.len())[0].line_start as nat,
            },
        ],
        flatten(d, Seq::empty(), file).len() == 1,
{
    let selected = selected_spans(d, Seq::empty(), file);
    let code = code_of(d);
    let lines = lines_of(d.message@);
    lemma_first_primary_len(d.spans@, file, d.spans@.len());
    lemma_no_labels(d.spans@, file, code, d.spans@.len());
    assert(selected.len() == 1);
    assert(text_messages(selected, kind_of_name(d.level@), code, lines, 0) =~= Seq::<
        MessageView,
    >::empty());
    let text = text_messages(selected, kind_of_name(d.level@), code, lines, 1);
    assert(text =~= line_messages(selected, kind_of_name(d.level@), code, lines[0]));
    assert(all_suggestions(selected, code, 0) =~= Seq::<MessageView>::empty());
    assert(all_suggestions(selected, code, 1) =~= Seq::<MessageView>::empty());
    assert(all_backtraces(selected, file, 0) =~= Seq::<MessageView>::empty());
    assert(all_backtraces(selected, file, 1) =~= Seq::<MessageView>::empty());
    assert(flatten_first(d.children@, 0, selected, file) =~= Seq::<MessageView>::empty());
    assert(flatten(d, Seq::empty(), file) =~= text);
    assert(text.len() == 1);
    assert(flatten(d, Seq::empty(), file) =~= seq![text[0]]);
}

} // verus!
