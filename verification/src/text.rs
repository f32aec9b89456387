//! Character-level helpers shared by the annotation parser, the diagnostic
//! normalizer and the report writer.
//!
//! Text is modelled as `Seq<char>`. Everything here is stated over that model.

use vstd::prelude::*;

verus! {

/// Whether `c` has Unicode's `Alphabetic` property, as std's
/// `char::is_alphabetic` decides it.
pub uninterp spec fn is_alphabetic(c: char) -> bool;

/// Whether `c` has Unicode's `White_Space` property, as std's
/// `char::is_whitespace` decides it.
pub uninterp spec fn is_whitespace(c: char) -> bool;

/// The lowercase form of a text, as std's `str::to_lowercase` computes it.
pub uninterp spec fn lowercase(s: Seq<char>) -> Seq<char>;

/// Assumed without proof: wraps std's `char::is_alphabetic`. The contract
/// only names the result; the Unicode tables behind it are not modelled.
#[verifier::external_body]
pub(crate) fn char_is_alphabetic(c: char) -> (b: bool)
    ensures
        b == is_alphabetic(c),
{
    c.is_alphabetic()
}

/// Assumed without proof: wraps std's `char::is_whitespace`. The contract
/// only names the result; the Unicode tables behind it are not modelled.
#[verifier::external_body]
pub(crate) fn char_is_whitespace(c: char) -> (b: bool)
    ensures
        b == is_whitespace(c),
{
    c.is_whitespace()
}

/// Assumed without proof: wraps std's `str::to_lowercase`. The contract
/// only names the result; Unicode's case mapping is not modelled.
#[verifier::external_body]
pub(crate) fn str_to_lowercase(s: &str) -> (lower: String)
    ensures
        lower@ == lowercase(s@),
{
    s.to_lowercase()
}

/// Assumed without proof: wraps std's `FromIterator<&char>` for `String`,
/// which builds the string made of exactly the given characters, in order.
#[verifier::external_body]
pub(crate) fn string_from_chars(chars: &[char]) -> (s: String)
    ensures
        s@ == chars@,
{
    String::from_iter(chars)
}

/// `needle` stands in `hay` at offset `i`.
pub open spec fn occurs_at(hay: Seq<char>, needle: Seq<char>, i: int) -> bool {
    &&& 0 <= i
    &&& i + needle.len() <= hay.len()
    &&& hay.subrange(i, i + needle.len()) == needle
}

/// `needle` is a contiguous part of `hay`.
pub open spec fn contains_text(hay: Seq<char>, needle: Seq<char>) -> bool {
    exists|i: int| occurs_at(hay, needle, i)
}

/// Assumed without proof: wraps std's `str::contains` with a string
/// pattern, which is true exactly when the pattern matches a sub-slice of the
/// string.
#[verifier::external_body]
pub(crate) fn str_contains(hay: &str, needle: &str) -> (found: bool)
    ensures
        found == contains_text(hay@, needle@),
{
    hay.contains(needle)
}

/// The characters of `s`, in order.
pub fn chars_of(s: &str) -> (chars: Vec<char>)
    ensures
        chars@ == s@,
{
    let mut chars: Vec<char> = Vec::new();
    for c in it: s.chars()
        invariant
            chars@ == it.seq().take(it.index()),
            it.seq() == s@,
    {
        chars.push(c);
    }
    chars
}

/// Whether two texts hold the same characters.
pub fn same_text(a: &str, b: &str) -> (same: bool)
    ensures
        same == (a@ == b@),
{
    let x = chars_of(a);
    let y = chars_of(b);
    if x.len() != y.len() {
        return false;
    }
    let mut i: usize = 0;
    while i < x.len()
        invariant
            i <= x.len(),
            x.len() == y.len(),
            x@ == a@,
            y@ == b@,
            forall|j: int| 0 <= j < i ==> x@[j] == y@[j],
        decreases x.len() - i,
    {
        if x[i] != y[i] {
            return false;
        }
        i += 1;
    }
    assert(x@ =~= y@);
    true
}

/// The classes of characters that the annotation grammar and the line
/// splitter scan over.
#[derive(Clone, Copy, Debug)]
pub enum CharClass {
    /// The caret `^`.
    Caret,
    /// Unicode whitespace.
    Whitespace,
    /// Unicode alphabetic characters.
    Alphabetic,
    /// Anything but the closing bracket `]`.
    CodeChar,
    /// Anything but the line feed.
    LineChar,
}

impl CharClass {
    /// Whether `c` belongs to the class.
    pub open spec fn holds(self, c: char) -> bool {
        match self {
            CharClass::Caret => c == '^',
            CharClass::Whitespace => is_whitespace(c),
            CharClass::Alphabetic => is_alphabetic(c),
            CharClass::CodeChar => c != ']',
            CharClass::LineChar => c != '\n',
        }
    }

    /// Decides `holds`.
    pub fn test(self, c: char) -> (b: bool)
        ensures
            b == self.holds(c),
    {
        match self {
            CharClass::Caret => c == '^',
            CharClass::Whitespace => char_is_whitespace(c),
            CharClass::Alphabetic => char_is_alphabetic(c),
            CharClass::CodeChar => c != ']',
            CharClass::LineChar => c != '\n',
        }
    }
}

/// Length of the longest prefix of `s` made of characters of `class`.
pub open spec fn run_len(s: Seq<char>, class: CharClass) -> nat
    decreases s.len(),
{
    if s.len() > 0 && class.holds(s[0]) {
        1 + run_len(s.skip(1), class)
    } else {
        0
    }
}

/// `run_len` is the one `n` such that the first `n` characters are of the
/// class and the next one, if any, is not.
pub proof fn lemma_run_len(s: Seq<char>, class: CharClass, n: int)
    requires
        0 <= n <= s.len(),
        forall|i: int| 0 <= i < n ==> class.holds(#[trigger] s[i]),
        n < s.len() ==> !class.holds(s[n]),
    ensures
        run_len(s, class) == n,
    decreases n,
{
    if n > 0 {
        let t = s.skip(1);
        assert forall|i: int| 0 <= i < n - 1 implies class.holds(#[trigger] t[i]) by {
            assert(t[i] == s[i + 1]);
        }
        if n - 1 < t.len() {
            assert(t[n - 1] == s[n]);
        }
        lemma_run_len(t, class, n - 1);
    }
}

/// Scans over the characters of `class` that start at `from`; returns where
/// the run ends.
pub fn scan(chars: &[char], from: usize, class: CharClass) -> (end: usize)
    requires
        from <= chars.len(),
    ensures
        from <= end <= chars.len(),
        end - from == run_len(chars@.skip(from as int), class),
{
    let mut end: usize = from;
    while end < chars.len() && class.test(chars[end])
        invariant
            from <= end <= chars.len(),
            forall|j: int| from <= j < end ==> class.holds(#[trigger] chars@[j]),
        decreases chars.len() - end,
    {
        end += 1;
    }
    proof {
        let s = chars@.skip(from as int);
        assert forall|i: int| 0 <= i < end - from implies class.holds(#[trigger] s[i]) by {
            assert(s[i] == chars@[from + i]);
        }
        lemma_run_len(s, class, end - from);
    }
    end
}

/// A copy of the characters from `from` up to `to`.
pub fn copy_range(chars: &[char], from: usize, to: usize) -> (part: Vec<char>)
    requires
        from <= to <= chars.len(),
    ensures
        part@ == chars@.subrange(from as int, to as int),
{
    let mut part: Vec<char> = Vec::new();
    let mut i: usize = from;
    while i < to
        invariant
            from <= i <= to <= chars.len(),
            part@ == chars@.subrange(from as int, i as int),
        decreases to - i,
    {
        part.push(chars[i]);
        i += 1;
        assert(part@ =~= chars@.subrange(from as int, i as int));
    }
    part
}

/// A line without the carriage return that stood before its line feed.
pub open spec fn strip_cr(line: Seq<char>) -> Seq<char> {
    if line.len() > 0 && line.last() == '\r' {
        line.drop_last()
    } else {
        line
    }
}

/// The lines of a text. A line ends at a line feed, or at a carriage return
/// directly followed by one; the terminator is not part of the line. The last
/// line needs no terminator, and a text that ends in one has no empty line
/// after it.
pub open spec fn lines_of(s: Seq<char>) -> Seq<Seq<char>>
    decreases s.len(),
{
    let n = run_len(s, CharClass::LineChar) as int;
    if s.len() == 0 {
        Seq::empty()
    } else if n >= s.len() {
        seq![s]
    } else {
        seq![strip_cr(s.take(n))] + lines_of(s.skip(n + 1))
    }
}

/// The texts of a sequence of strings.
pub open spec fn strings_view(strings: Seq<String>) -> Seq<Seq<char>> {
    strings.map_values(|s: String| s@)
}

/// The texts that a vector of lines holds.
pub open spec fn texts(lines: Seq<Vec<char>>) -> Seq<Seq<char>> {
    lines.map_values(|l: Vec<char>| l@)
}

/// Splits a text into its lines.
pub fn split_lines(chars: &[char]) -> (lines: Vec<Vec<char>>)
    ensures
        texts(lines@) == lines_of(chars@),
{
    let mut lines: Vec<Vec<char>> = Vec::new();
    let mut pos: usize = 0;
    assert(chars@.skip(0) =~= chars@);
    assert(texts(lines@) =~= Seq::<Seq<char>>::empty());
    while pos < chars.len()
        invariant
            pos <= chars.len(),
            texts(lines@) + lines_of(chars@.skip(pos as int)) == lines_of(chars@),
        decreases chars.len() - pos,
    {
        let ghost rest = chars@.skip(pos as int);
        let ghost before = texts(lines@);
        let end = scan(chars, pos, CharClass::LineChar);
        assert(rest.take(end - pos) =~= chars@.subrange(pos as int, end as int));
        if end == chars.len() {
            let line = copy_range(chars, pos, end);
            assert(line@ =~= rest);
            lines.push(line);
            pos = end;
            assert(texts(lines@) =~= before + seq![rest]);
            assert(lines_of(chars@.skip(pos as int)) =~= Seq::<Seq<char>>::empty());
        } else {
            let stop = if end > pos && chars[end - 1] == '\r' {
                end - 1
            } else {
                end
            };
            let line = copy_range(chars, pos, stop);
            let ghost cut = strip_cr(rest.take(end - pos));
            assert(line@ =~= cut);
            lines.push(line);
            assert(rest.skip(end - pos + 1) =~= chars@.skip(end + 1));
            pos = end + 1;
            assert(texts(lines@) =~= before + seq![cut]);
        }
    }
    assert(chars@.skip(pos as int).len() == 0);
    lines
}

/// The character that stands for a digit.
pub open spec fn digit_char(d: int) -> char {
    if d == 0 {
        '0'
    } else if d == 1 {
        '1'
    } else if d == 2 {
        '2'
    } else if d == 3 {
        '3'
    } else if d == 4 {
        '4'
    } else if d == 5 {
        '5'
    } else if d == 6 {
        '6'
    } else if d == 7 {
        '7'
    } else if d == 8 {
        '8'
    } else {
        '9'
    }
}

/// A number written in decimal, without leading zeros.
pub open spec fn decimal(n: nat) -> Seq<char>
    decreases n,
{
    if n < 10 {
        seq![digit_char(n as int)]
    } else {
        decimal(n / 10).push(digit_char((n % 10) as int))
    }
}

fn digit(d: usize) -> (c: char)
    requires
        d < 10,
    ensures
        c == digit_char(d as int),
{
    if d == 0 {
        '0'
    } else if d == 1 {
        '1'
    } else if d == 2 {
        '2'
    } else if d == 3 {
        '3'
    } else if d == 4 {
        '4'
    } else if d == 5 {
        '5'
    } else if d == 6 {
        '6'
    } else if d == 7 {
        '7'
    } else if d == 8 {
        '8'
    } else {
        '9'
    }
}

/// Appends `n` in decimal to `out`.
pub fn push_decimal(out: &mut Vec<char>, n: usize)
    ensures
        final(out)@ == old(out)@ + decimal(n as nat),
    decreases n,
{
    if n < 10 {
        out.push(digit(n));
        assert(out@ =~= old(out)@ + decimal(n as nat));
    } else {
        push_decimal(out, n / 10);
        out.push(digit(n % 10));
        assert(out@ =~= old(out)@ + decimal(n as nat));
    }
}

/// Appends the characters of `s` to `out`.
pub fn push_str(out: &mut Vec<char>, s: &str)
    ensures
        final(out)@ == old(out)@ + s@,
{
    let mut chars = chars_of(s);
    out.append(&mut chars);
}

/// Appends a copy of `chars` to `out`.
pub fn push_chars(out: &mut Vec<char>, chars: &[char])
    ensures
        final(out)@ == old(out)@ + chars@,
{
    let mut i: usize = 0;
    while i < chars.len()
        invariant
            i <= chars.len(),
            out@ == old(out)@ + chars@.take(i as int),
        decreases chars.len() - i,
    {
        out.push(chars[i]);
        i += 1;
        assert(out@ =~= old(out)@ + chars@.take(i as int));
    }
    assert(chars@.take(i as int) =~= chars@);
}

/// Every line of a text is a contiguous part of the text.
pub proof fn lemma_line_is_part(s: Seq<char>, k: int)
    requires
        0 <= k < lines_of(s).len(),
    ensures
        exists|at: int| occurs_at(s, lines_of(s)[k], at),
    decreases s.len(),
{
    let n = run_len(s, CharClass::LineChar) as int;
    let line = lines_of(s)[k];
    if n >= s.len() {
        assert(s.subrange(0, s.len() as int) =~= s);
        assert(occurs_at(s, line, 0));
    } else if k == 0 {
        assert(s.subrange(0, line.len() as int) =~= line);
        assert(occurs_at(s, line, 0));
    } else {
        let rest = s.skip(n + 1);
        assert(lines_of(s)[k] == lines_of(rest)[k - 1]);
        lemma_line_is_part(rest, k - 1);
        let at = choose|at: int| occurs_at(rest, line, at);
        assert(s.subrange(at + n + 1, at + n + 1 + line.len()) =~= rest.subrange(
            at,
            at + line.len(),
        ));
        assert(occurs_at(s, line, at + n + 1));
    }
}

/// Length of the longest suffix of `s` made of characters of `class`.
pub open spec fn trailing_len(s: Seq<char>, class: CharClass) -> nat
    decreases s.len(),
{
    if s.len() > 0 && class.holds(s.last()) {
        1 + trailing_len(s.drop_last(), class)
    } else {
        0
    }
}

/// `trailing_len` is the one `n` such that the last `n` characters are of
/// the class and the one before them, if any, is not.
pub proof fn lemma_trailing_len(s: Seq<char>, class: CharClass, n: int)
    requires
        0 <= n <= s.len(),
        forall|i: int| s.len() - n <= i < s.len() ==> class.holds(#[trigger] s[i]),
        n < s.len() ==> !class.holds(s[s.len() - n - 1]),
    ensures
        trailing_len(s, class) == n,
    decreases n,
{
    if n > 0 {
        let t = s.drop_last();
        assert forall|i: int| t.len() - (n - 1) <= i < t.len() implies class.holds(
            #[trigger] t[i],
        ) by {
            assert(t[i] == s[i]);
        }
        if n - 1 < t.len() {
            assert(t[t.len() - (n - 1) - 1] == s[s.len() - n - 1]);
        }
        lemma_trailing_len(t, class, n - 1);
    }
}

/// Scans backwards from the end over the characters of `class`, not
/// further than `from`; returns where the run starts.
pub fn scan_back(chars: &[char], from: usize, class: CharClass) -> (start: usize)
    requires
        from <= chars.len(),
    ensures
        from <= start <= chars.len(),
        chars.len() - start == trailing_len(chars@.skip(from as int), class),
{
    let mut start: usize = chars.len();
    while start > from && class.test(chars[start - 1])
        invariant
            from <= start <= chars.len(),
            forall|j: int| start <= j < chars.len() ==> class.holds(#[trigger] chars@[j]),
        decreases start,
    {
        start -= 1;
    }
    proof {
        let s = chars@.skip(from as int);
        assert forall|i: int| s.len() - (chars.len() - start) <= i < s.len() implies class.holds(
            #[trigger] s[i],
        ) by {
            assert(s[i] == chars@[from + i]);
        }
        if chars.len() - start < s.len() {
            assert(s[s.len() - (chars.len() - start) - 1] == chars@[start - 1]);
        }
        lemma_trailing_len(s, class, chars.len() - start);
    }
    start
}

/// A text without the whitespace at its start and at its end.
pub open spec fn trim(s: Seq<char>) -> Seq<char> {
    let rest = s.skip(run_len(s, CharClass::Whitespace) as int);
    rest.take(rest.len() - trailing_len(rest, CharClass::Whitespace))
}

} // verus!
