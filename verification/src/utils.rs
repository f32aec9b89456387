//! Cuts what a program writes into lines for a log.

use vstd::prelude::*;
use vstd::slice::slice_subrange;
use vstd::utf8::{decode_utf8, valid_utf8};
use crate::text::{
    chars_of, push_chars, push_str, scan, scan_back, string_from_chars, trim, CharClass,
};

verus! {

/// Assumed without proof: wraps std's `str::from_utf8`, which gives the text
/// that the bytes encode if they are valid UTF-8, and fails otherwise.
#[verifier::external_body]
fn text_of_bytes<'a>(bytes: &'a [u8]) -> (text: Option<&'a str>)
    ensures
        match text {
            Some(t) => valid_utf8(bytes@) && t@ == decode_utf8(bytes@),
            None => !valid_utf8(bytes@),
        },
{
    std::str::from_utf8(bytes).ok()
}

/// The bytes of a buffered line were no text.
#[derive(Debug, PartialEq, Eq, Structural, Clone, Copy)]
pub struct InvalidText;

/// Collects what is written to it, and hands it on line by line as entries
/// for a log, each with a prefix before it.
pub struct LogWriter {
    prefix: &'static str,
    buffer: Vec<u8>,
}

/// The model of a `LogWriter`.
pub struct LogWriterView {
    /// What every entry starts with.
    pub prefix: Seq<char>,
    /// The bytes that were written and not handed on yet.
    pub buffer: Seq<u8>,
}

impl View for LogWriter {
    type V = LogWriterView;

    closed spec fn view(&self) -> LogWriterView {
        LogWriterView { prefix: self.prefix@, buffer: self.buffer@ }
    }
}

/// The length of the first line of `bytes` with its line feed; the length of
/// `bytes` if they hold no line feed.
pub open spec fn first_line_len(bytes: Seq<u8>) -> nat
    decreases bytes.len(),
{
    if bytes.len() == 0 {
        0
    } else if bytes[0] == 10 {
        1
    } else {
        1 + first_line_len(bytes.skip(1))
    }
}

/// `first_line_len` is the one `n` such that no line feed stands before
/// place `n - 1`, and one stands there unless the bytes end there.
pub proof fn lemma_first_line_len(bytes: Seq<u8>, n: int)
    requires
        0 <= n <= bytes.len(),
        forall|i: int| 0 <= i < n - 1 ==> #[trigger] bytes[i] != 10,
        n < bytes.len() ==> n > 0 && bytes[n - 1] == 10,
        n == 0 ==> bytes.len() == 0,
    ensures
        first_line_len(bytes) == n,
    decreases n,
{
    if n > 0 && bytes[0] != 10 {
        let rest = bytes.skip(1);
        assert forall|i: int| 0 <= i < n - 2 implies #[trigger] rest[i] != 10 by {
            assert(rest[i] == bytes[i + 1]);
        }
        if n - 1 < rest.len() {
            assert(rest[n - 2] == bytes[n - 1]);
        }
        lemma_first_line_len(rest, n - 1);
    }
}

/// The entry for a line: the prefix, a colon and a space, and the line
/// without the whitespace around it.
pub open spec fn log_entry(prefix: Seq<char>, line: Seq<char>) -> Seq<char> {
    prefix + ": "@ + trim(line)
}

/// The writer after its first line is handed on, and the entry for that
/// line; `None` where the bytes of the line are no text.
pub open spec fn flushed(state: LogWriterView) -> Option<(LogWriterView, Seq<char>)> {
    let n = first_line_len(state.buffer) as int;
    let line = state.buffer.take(n);
    if valid_utf8(line) {
        Some(
            (
                LogWriterView { buffer: state.buffer.skip(n), ..state },
                log_entry(state.prefix, decode_utf8(line)),
            ),
        )
    } else {
        None
    }
}

/// The writer after `bytes` are written to it, before any line is handed
/// on.
pub open spec fn appended(state: LogWriterView, bytes: Seq<u8>) -> LogWriterView {
    LogWriterView { buffer: state.buffer + bytes, ..state }
}

/// Whether `bytes` hold a line feed.
pub open spec fn has_line_feed(bytes: Seq<u8>) -> bool {
    exists|i: int| 0 <= i < bytes.len() && #[trigger] bytes[i] == 10
}

impl LogWriter {
    /// A writer that has been written nothing, for entries that start with
    /// `prefix`.
    pub fn new(prefix: &'static str) -> (writer: Self)
        ensures
            writer@ == (LogWriterView { prefix: prefix@, buffer: Seq::empty() }),
    {
        LogWriter { prefix, buffer: Vec::new() }
    }

    /// Takes the first line off the buffer and gives the entry for it. Where
    /// the bytes of the line are no text, the buffer stays as it is.
    pub fn flush_line(&mut self) -> (r: Result<String, InvalidText>)
        ensures
            match r {
                Ok(entry) => flushed(old(self)@) == Some((final(self)@, entry@)),
                Err(_) => flushed(old(self)@) is None && final(self)@ == old(self)@,
            },
    {
        let mut n: usize = 0;
        while n < self.buffer.len() && (n == 0 || self.buffer[n - 1] != 10)
            invariant
                n <= self.buffer.len(),
                self.buffer == old(self).buffer,
                self.prefix == old(self).prefix,
                forall|i: int| 0 <= i < n - 1 ==> #[trigger] self.buffer@[i] != 10,
            decreases self.buffer.len() - n,
        {
            n += 1;
        }
        proof {
            lemma_first_line_len(self.buffer@, n as int);
        }
        let ghost line = self.buffer@.take(n as int);
        assert(self.buffer@.subrange(0, n as int) =~= line);
        let entry = match text_of_bytes(slice_subrange(self.buffer.as_slice(), 0, n)) {
            None => {
                return Err(InvalidText);
            },
            Some(text) => {
                let chars = chars_of(text);
                let start = scan(chars.as_slice(), 0, CharClass::Whitespace);
                let end = scan_back(chars.as_slice(), start, CharClass::Whitespace);
                assert(chars@.skip(0) =~= chars@);
                assert(chars@.subrange(start as int, end as int) =~= trim(chars@));
                let mut entry: Vec<char> = Vec::new();
                push_str(&mut entry, self.prefix);
                push_str(&mut entry, ": ");
                push_chars(&mut entry, slice_subrange(chars.as_slice(), start, end));
                assert(entry@ =~= log_entry(self.prefix@, decode_utf8(line)));
                string_from_chars(entry.as_slice())
            },
        };
        let rest = self.buffer.split_off(n);
        self.buffer = rest;
        assert(self.buffer@ =~= old(self).buffer@.skip(n as int));
        Ok(entry)
    }

    /// Takes `buf` into the buffer. If `buf` holds a line feed, the first
    /// line of the buffer is handed on as an entry for the log.
    pub fn write(&mut self, buf: &[u8]) -> (r: Result<Option<String>, InvalidText>)
        ensures
            match r {
                Ok(None) => !has_line_feed(buf@) && final(self)@ == appended(old(self)@, buf@),
                Ok(Some(entry)) => has_line_feed(buf@) && flushed(appended(old(self)@, buf@))
                    == Some((final(self)@, entry@)),
                Err(_) => has_line_feed(buf@) && flushed(appended(old(self)@, buf@)) is None
                    && final(self)@ == appended(old(self)@, buf@),
            },
    {
        let mut found = false;
        let mut i: usize = 0;
        while i < buf.len()
            invariant
                i <= buf.len(),
                self.prefix == old(self).prefix,
                self.buffer@ == old(self).buffer@ + buf@.take(i as int),
                found <==> exists|j: int| 0 <= j < i && #[trigger] buf@[j] == 10,
            decreases buf.len() - i,
        {
            if buf[i] == 10 {
                found = true;
            }
            self.buffer.push(buf[i]);
            i += 1;
            assert(self.buffer@ =~= old(self).buffer@ + buf@.take(i as int));
        }
        assert(buf@.take(i as int) =~= buf@);
        if found {
            match self.flush_line() {
                Ok(entry) => Ok(Some(entry)),
                Err(e) => Err(e),
            }
        } else {
            Ok(None)
        }
    }
}

} // verus!
