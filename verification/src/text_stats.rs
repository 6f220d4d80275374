//! Counts of the words, lines and characters of a text.

use vstd::prelude::*;

use crate::text::{
    decimal, line_spans, lines, push_decimal, to_chars, white_space, word_spans, words,
};

verus! {

/// How many words `s` has: runs of characters that are no white space.
pub open spec fn word_count(s: Seq<char>) -> nat {
    words(s).len()
}

/// How many of the first `n` characters of `s` are no white space.
pub open spec fn visible_before(s: Seq<char>, n: int) -> nat
    decreases n,
{
    if n <= 0 {
        0
    } else {
        visible_before(s, n - 1) + if 0 <= n - 1 < s.len() && !white_space(s[n - 1]) {
            1nat
        } else {
            0nat
        }
    }
}

/// How many characters of `s` are no white space.
pub open spec fn visible_count(s: Seq<char>) -> nat {
    visible_before(s, s.len() as int)
}

/// The number of words in `text`.
pub fn count_words(text: &str) -> (count: usize)
    ensures
        count == word_count(text@),
{
    let chars = to_chars(text);
    let spans = word_spans(chars.as_slice());
    spans.len()
}

/// The number of lines in `text`. A line feed ends a line; what follows
/// the last line feed is a line if it is not empty.
pub fn count_lines(text: &str) -> (count: usize)
    ensures
        count == lines(text@).len(),
{
    let chars = to_chars(text);
    let spans = line_spans(chars.as_slice());
    spans.len()
}

/// The number of characters in `text`.
pub fn count_characters(text: &str) -> (count: usize)
    ensures
        count == text@.len(),
{
    text.unicode_len()
}

/// The number of characters in `text` that are no white space.
pub fn count_characters_excluding_spaces(text: &str) -> (count: usize)
    ensures
        count == visible_count(text@),
{
    let chars = to_chars(text);
    let n = chars.len();
    let mut count: usize = 0;
    let mut i: usize = 0;
    while i < n
        invariant
            n == chars@.len(),
            i <= n,
            count == visible_before(chars@, i as int),
            count <= i,
        decreases n - i,
    {
        if !chars[i].is_whitespace() {
            count += 1;
        }
        i += 1;
    }
    count
}

/// The counts of a text.
pub struct TextStatistics {
    pub word_count: usize,
    pub line_count: usize,
    pub character_count: usize,
    pub character_count_no_spaces: usize,
}

/// The line that shows the counts.
pub open spec fn statistics_line(stats: TextStatistics) -> Seq<char> {
    "Words: "@ + decimal(stats.word_count as nat) + ", Lines: "@ + decimal(stats.line_count as nat)
        + ", Characters: "@ + decimal(stats.character_count as nat) + " ("@ + decimal(
        stats.character_count_no_spaces as nat,
    ) + ")"@
}

impl TextStatistics {
    /// The counts of `text`.
    pub fn from_text(text: &str) -> (stats: Self)
        ensures
            stats.word_count == word_count(text@),
            stats.line_count == lines(text@).len(),
            stats.character_count == text@.len(),
            stats.character_count_no_spaces == visible_count(text@),
    {
        TextStatistics {
            word_count: count_words(text),
            line_count: count_lines(text),
            character_count: count_characters(text),
            character_count_no_spaces: count_characters_excluding_spaces(text),
        }
    }

    /// The counts as a line for a reader.
    pub fn to_text(&self) -> (line: String)
        ensures
            line@ == statistics_line(*self),
    {
        let mut line = String::from_str("Words: ");
        push_decimal(&mut line, self.word_count as u64);
        line.append(", Lines: ");
        push_decimal(&mut line, self.line_count as u64);
        line.append(", Characters: ");
        push_decimal(&mut line, self.character_count as u64);
        line.append(" (");
        push_decimal(&mut line, self.character_count_no_spaces as u64);
        line.append(")");
        line
    }
}

} // verus!
