//! Character classes and small text routines, stated over `Seq<char>` views.

use vstd::prelude::*;

pub use crate::unicode::{alphabetic, alphanumeric, lowercase, numeric, white_space};

verus! {

/// `String::push` of std appends one character to the end of the string.
pub assume_specification[ std::string::String::push ](s: &mut std::string::String, ch: char)
    ensures
        final(s)@ == old(s)@.push(ch),
;

/// The first position at or after `pos` that holds no white space
/// (the length of `s` where only white space is left).
pub open spec fn skip_whitespace(s: Seq<char>, pos: int) -> int
    decreases s.len() - pos,
{
    if 0 <= pos < s.len() && white_space(s[pos]) {
        skip_whitespace(s, pos + 1)
    } else {
        pos
    }
}

/// The end of `s[start..end]` once its trailing white space is cut off.
pub open spec fn trim_end(s: Seq<char>, start: int, end: int) -> int
    decreases end - start,
{
    if start < end <= s.len() && white_space(s[end - 1]) {
        trim_end(s, start, end - 1)
    } else {
        end
    }
}

/// `s` without its leading and trailing white space.
pub open spec fn trimmed(s: Seq<char>) -> Seq<char> {
    let start = skip_whitespace(s, 0);
    s.subrange(start, trim_end(s, start, s.len() as int))
}

/// [`skip_whitespace`] moves forward, stays inside the text, passes only
/// white space and stops at the end or on a character that is none.
pub proof fn lemma_skip_whitespace(s: Seq<char>, pos: int)
    requires
        0 <= pos <= s.len(),
    ensures
        pos <= skip_whitespace(s, pos) <= s.len(),
        forall|i: int| pos <= i < skip_whitespace(s, pos) ==> white_space(#[trigger] s[i]),
        skip_whitespace(s, pos) < s.len() ==> !white_space(s[skip_whitespace(s, pos)]),
        skip_whitespace(s, skip_whitespace(s, pos)) == skip_whitespace(s, pos),
    decreases s.len() - pos,
{
    if pos < s.len() && white_space(s[pos]) {
        lemma_skip_whitespace(s, pos + 1);
    }
}

/// [`trim_end`] moves backward, not past `start`, passes only white space
/// and stops at `start` or behind a character that is none.
pub proof fn lemma_trim_end(s: Seq<char>, start: int, end: int)
    requires
        0 <= start <= end <= s.len(),
    ensures
        start <= trim_end(s, start, end) <= end,
        forall|i: int| trim_end(s, start, end) <= i < end ==> white_space(#[trigger] s[i]),
        start < trim_end(s, start, end) ==> !white_space(s[trim_end(s, start, end) - 1]),
    decreases end - start,
{
    if start < end && white_space(s[end - 1]) {
        lemma_trim_end(s, start, end - 1);
    }
}

/// Copies the characters of `s` into a vector.
pub fn to_chars(s: &str) -> (v: Vec<char>)
    ensures
        v@ == s@,
{
    let mut v: Vec<char> = Vec::new();
    for c in it: s.chars()
        invariant
            v@ == it.seq().take(it.index() as int),
            it.seq() == s@,
    {
        v.push(c);
    }
    v
}

/// Builds a string from `chars[from..to]`.
pub fn string_of(chars: &[char], from: usize, to: usize) -> (text: String)
    requires
        from <= to <= chars@.len(),
    ensures
        text@ == chars@.subrange(from as int, to as int),
{
    let mut text = String::new();
    let mut i: usize = from;
    while i < to
        invariant
            from <= i <= to <= chars@.len(),
            text@ == chars@.subrange(from as int, i as int),
        decreases to - i,
    {
        text.push(chars[i]);
        i += 1;
    }
    text
}

/// Moves `pos` past the white space that starts there.
pub fn skip_whitespace_at(chars: &[char], pos: usize) -> (next: usize)
    requires
        pos <= chars@.len(),
    ensures
        next == skip_whitespace(chars@, pos as int),
        pos <= next <= chars@.len(),
{
    let mut i: usize = pos;
    while i < chars.len() && chars[i].is_whitespace()
        invariant
            pos <= i <= chars@.len(),
            skip_whitespace(chars@, pos as int) == skip_whitespace(chars@, i as int),
        decreases chars@.len() - i,
    {
        i += 1;
    }
    i
}

/// The bounds of `chars[from..to]` without leading and trailing white space.
pub fn trim_bounds(chars: &[char], from: usize, to: usize) -> (bounds: (usize, usize))
    requires
        from <= to <= chars@.len(),
    ensures
        from <= bounds.0 <= bounds.1 <= to,
        chars@.subrange(bounds.0 as int, bounds.1 as int) == trimmed(
            chars@.subrange(from as int, to as int),
        ),
{
    let ghost part = chars@.subrange(from as int, to as int);
    let mut start: usize = from;
    while start < to && chars[start].is_whitespace()
        invariant
            from <= start <= to <= chars@.len(),
            part == chars@.subrange(from as int, to as int),
            skip_whitespace(part, 0) == skip_whitespace(part, start - from),
        decreases to - start,
    {
        start += 1;
    }
    let mut end: usize = to;
    while start < end && chars[end - 1].is_whitespace()
        invariant
            from <= start <= end <= to <= chars@.len(),
            part == chars@.subrange(from as int, to as int),
            trim_end(part, start - from, part.len() as int) == trim_end(
                part,
                start - from,
                end - from,
            ),
        decreases end - start,
    {
        end -= 1;
    }
    assert(part.subrange(start - from, end - from) == chars@.subrange(start as int, end as int));
    (start, end)
}

/// `text` without its leading and trailing white space, as a new string.
pub fn trim(text: &str) -> (result: String)
    ensures
        result@ == trimmed(text@),
{
    let chars = to_chars(text);
    trimmed_text(chars.as_slice())
}

/// How often `c` occurs in `s`.
pub open spec fn count_of(s: Seq<char>, c: char) -> nat
    decreases s.len(),
{
    if s.len() == 0 {
        0
    } else {
        count_of(s.drop_last(), c) + if s.last() == c {
            1nat
        } else {
            0nat
        }
    }
}

/// How many bytes `s` takes in UTF-8, which is what `str::len` counts.
pub open spec fn byte_len(s: Seq<char>) -> nat {
    vstd::utf8::encode_utf8(s).len()
}

/// The length of `s` in bytes.
pub fn byte_length(s: &str) -> (n: usize)
    ensures
        n == byte_len(s@),
{
    s.as_bytes().len()
}

/// The views of a list of strings, in order.
pub open spec fn texts(list: Seq<String>) -> Seq<Seq<char>> {
    list.map_values(|t: String| t@)
}

/// The character that writes the digit `d`.
pub open spec fn digit_char(d: nat) -> char
    recommends
        d < 10,
{
    ('0' as nat + d) as char
}

/// `n` written in base ten, without sign or leading zeros.
pub open spec fn decimal(n: nat) -> Seq<char>
    decreases n,
{
    if n < 10 {
        seq![digit_char(n)]
    } else {
        decimal(n / 10).push(digit_char(n % 10))
    }
}

/// Appends `n`, written in base ten, to `text`.
pub fn push_decimal(text: &mut String, n: u64)
    ensures
        final(text)@ == old(text)@ + decimal(n as nat),
    decreases n,
{
    if n >= 10 {
        push_decimal(text, n / 10);
    }
    let d: u8 = (n % 10) as u8;
    let c: char = (48u8 + d) as char;
    assert(c == digit_char((n % 10) as nat));
    text.push(c);
    assert(text@ == old(text)@ + decimal(n as nat));
}

/// Where the line that starts at `pos` ends: at the next line feed, or at
/// the end of the text.
pub open spec fn line_end(s: Seq<char>, pos: int) -> int
    decreases s.len() - pos,
{
    if 0 <= pos < s.len() && s[pos] != '\n' {
        line_end(s, pos + 1)
    } else {
        pos
    }
}

/// [`line_end`] stays between `pos` and the end of the text.
pub proof fn lemma_line_end(s: Seq<char>, pos: int)
    requires
        0 <= pos <= s.len(),
    ensures
        pos <= line_end(s, pos) <= s.len(),
        line_end(s, pos) < s.len() ==> s[line_end(s, pos)] == '\n',
        forall|i: int| pos <= i < line_end(s, pos) ==> #[trigger] s[i] != '\n',
    decreases s.len() - pos,
{
    if pos < s.len() && s[pos] != '\n' {
        lemma_line_end(s, pos + 1);
    }
}

/// Where the content of the line `s[pos..end]` stops when `s[end]` is its
/// line feed: before a carriage return that stands directly in front of it.
pub open spec fn line_stop(s: Seq<char>, pos: int, end: int) -> int {
    if pos < end && s[end - 1] == '\r' {
        end - 1
    } else {
        end
    }
}

/// The lines of `s` from `pos` on. A line ends with a line feed, or with a
/// carriage return and a line feed; neither belongs to the line. Text after
/// the last line feed is a line of its own, taken as it stands.
pub open spec fn lines_from(s: Seq<char>, pos: int) -> Seq<Seq<char>>
    decreases s.len() - pos,
{
    if pos < 0 || pos >= s.len() {
        Seq::empty()
    } else {
        let end = line_end(s, pos);
        proof {
            lemma_line_end(s, pos);
        }
        if end < s.len() {
            seq![s.subrange(pos, line_stop(s, pos, end))] + lines_from(s, end + 1)
        } else {
            seq![s.subrange(pos, end)]
        }
    }
}

/// The lines of `s`.
pub open spec fn lines(s: Seq<char>) -> Seq<Seq<char>> {
    lines_from(s, 0)
}

/// The texts that the spans `(from, to)` cut out of `s`.
pub open spec fn span_texts(s: Seq<char>, spans: Seq<(usize, usize)>) -> Seq<Seq<char>> {
    spans.map_values(|b: (usize, usize)| s.subrange(b.0 as int, b.1 as int))
}

/// The lines of `chars`, each as the span that it fills.
pub fn line_spans(chars: &[char]) -> (spans: Vec<(usize, usize)>)
    ensures
        span_texts(chars@, spans@) == lines(chars@),
        forall|i: int|
            0 <= i < spans@.len() ==> (#[trigger] spans@[i]).0 <= spans@[i].1 <= chars@.len(),
{
    let mut spans: Vec<(usize, usize)> = Vec::new();
    let mut pos: usize = 0;
    let n = chars.len();
    while pos < n
        invariant
            n == chars@.len(),
            pos <= n,
            lines(chars@) == span_texts(chars@, spans@) + lines_from(chars@, pos as int),
            forall|i: int|
                0 <= i < spans@.len() ==> (#[trigger] spans@[i]).0 <= spans@[i].1 <= chars@.len(),
        decreases n - pos,
    {
        let start = pos;
        let mut end: usize = pos;
        while end < n && chars[end] != '\n'
            invariant
                n == chars@.len(),
                start <= end <= n,
                line_end(chars@, start as int) == line_end(chars@, end as int),
            decreases n - end,
        {
            end += 1;
        }
        let ghost before = spans@;
        if end < n {
            let stop = if start < end && chars[end - 1] == '\r' {
                end - 1
            } else {
                end
            };
            spans.push((start, stop));
            pos = end + 1;
        } else {
            spans.push((start, end));
            pos = end;
        }
        proof {
            let span = spans@[spans@.len() - 1];
            assert(span_texts(chars@, spans@) == span_texts(chars@, before) + seq![
                chars@.subrange(span.0 as int, span.1 as int),
            ]);
        }
    }
    spans
}

/// `chars` without its leading and trailing white space, as a string.
pub fn trimmed_text(chars: &[char]) -> (text: String)
    ensures
        text@ == trimmed(chars@),
{
    let bounds = trim_bounds(chars, 0, chars.len());
    assert(chars@.subrange(0, chars@.len() as int) == chars@);
    string_of(chars, bounds.0, bounds.1)
}

/// Where the word that starts at `pos` ends: at the next white space, or
/// at the end of the text.
pub open spec fn word_end(s: Seq<char>, pos: int) -> int
    decreases s.len() - pos,
{
    if 0 <= pos < s.len() && !white_space(s[pos]) {
        word_end(s, pos + 1)
    } else {
        pos
    }
}

/// [`word_end`] stays between `pos` and the end of the text, and moves on
/// where a word starts at `pos`.
pub proof fn lemma_word_end(s: Seq<char>, pos: int)
    requires
        0 <= pos <= s.len(),
    ensures
        pos <= word_end(s, pos) <= s.len(),
        pos < s.len() && !white_space(s[pos]) ==> pos < word_end(s, pos),
    decreases s.len() - pos,
{
    if pos < s.len() && !white_space(s[pos]) {
        lemma_word_end(s, pos + 1);
    }
}

/// The words of `s` from `pos` on: the runs of characters that are no
/// white space, in order.
pub open spec fn words_from(s: Seq<char>, pos: int) -> Seq<Seq<char>>
    decreases s.len() - pos,
{
    let start = skip_whitespace(s, pos);
    if pos < 0 || start >= s.len() {
        Seq::empty()
    } else {
        let end = word_end(s, start);
        proof {
            lemma_skip_whitespace(s, pos);
            lemma_word_end(s, start);
        }
        seq![s.subrange(start, end)] + words_from(s, end)
    }
}

/// The words of `s`.
pub open spec fn words(s: Seq<char>) -> Seq<Seq<char>> {
    words_from(s, 0)
}

/// The words of `chars`, each as the span that it fills.
pub fn word_spans(chars: &[char]) -> (spans: Vec<(usize, usize)>)
    ensures
        span_texts(chars@, spans@) == words(chars@),
        forall|i: int|
            0 <= i < spans@.len() ==> (#[trigger] spans@[i]).0 < spans@[i].1 <= chars@.len(),
{
    let mut spans: Vec<(usize, usize)> = Vec::new();
    let n = chars.len();
    let mut pos: usize = 0;
    loop
        invariant
            n == chars@.len(),
            pos <= n,
            words(chars@) == span_texts(chars@, spans@) + words_from(chars@, pos as int),
            forall|i: int|
                0 <= i < spans@.len() ==> (#[trigger] spans@[i]).0 < spans@[i].1 <= chars@.len(),
        decreases n - pos,
    {
        let start = skip_whitespace_at(chars, pos);
        if start >= n {
            assert(span_texts(chars@, spans@) + Seq::<Seq<char>>::empty() == span_texts(
                chars@,
                spans@,
            ));
            return spans;
        }
        let mut end: usize = start;
        while end < n && !chars[end].is_whitespace()
            invariant
                n == chars@.len(),
                start <= end <= n,
                word_end(chars@, start as int) == word_end(chars@, end as int),
            decreases n - end,
        {
            end += 1;
        }
        proof {
            lemma_skip_whitespace(chars@, pos as int);
            lemma_word_end(chars@, start as int);
        }
        let ghost before = spans@;
        spans.push((start, end));
        proof {
            assert(span_texts(chars@, spans@) == span_texts(chars@, before) + seq![
                chars@.subrange(start as int, end as int),
            ]);
        }
        pos = end;
    }
}

} // verus!
