//! The grammar of values.
//!
//! Each rule is a function from a text and a position in it to what stands
//! there and the position behind it, or to the reason why nothing of that
//! kind stands there. Positions count characters from the start of the
//! text, so a failure inside a nested value still names its place in the
//! whole input. Every rule skips the white space in front of it.

use vstd::prelude::*;

use crate::parser::error::Failure;
use crate::parser::value::Json;
use crate::text::{count_of, lemma_skip_whitespace, numeric, skip_whitespace};

verus! {

/// What a rule gives at a position: what was read and the position behind
/// it, or why nothing was read.
pub type Parsed<T> = Result<(T, int), Failure>;

/// The character at `pos`, or `'\0'` behind the end.
pub open spec fn char_at(s: Seq<char>, pos: int) -> char {
    if 0 <= pos < s.len() {
        s[pos]
    } else {
        '\0'
    }
}

/// Whether `c` stands at `pos`.
pub open spec fn has_char(s: Seq<char>, pos: int, c: char) -> bool {
    0 <= pos < s.len() && s[pos] == c
}

/// Whether `word` stands at `pos`.
pub open spec fn has_word(s: Seq<char>, pos: int, word: Seq<char>) -> bool {
    0 <= pos && pos + word.len() <= s.len() && s.subrange(pos, pos + word.len()) == word
}

/// The failure for a character at `pos` that the grammar has no use for.
pub open spec fn unexpected(s: Seq<char>, pos: int) -> Failure {
    Failure::UnexpectedCharacter(char_at(s, pos), pos)
}

/// The word `null`.
pub open spec fn null_word() -> Seq<char> {
    seq!['n', 'u', 'l', 'l']
}

/// The word `true`.
pub open spec fn true_word() -> Seq<char> {
    seq!['t', 'r', 'u', 'e']
}

/// The word `false`.
pub open spec fn false_word() -> Seq<char> {
    seq!['f', 'a', 'l', 's', 'e']
}

/// The literal `null`.
pub open spec fn null_at(s: Seq<char>, pos: int) -> Parsed<Json> {
    let p = skip_whitespace(s, pos);
    if has_word(s, p, null_word()) {
        Ok((Json::Null, p + 4))
    } else {
        Err(unexpected(s, p))
    }
}

/// The literals `true` and `false`.
pub open spec fn bool_at(s: Seq<char>, pos: int) -> Parsed<Json> {
    let p = skip_whitespace(s, pos);
    if has_word(s, p, true_word()) {
        Ok((Json::Bool(true), p + 4))
    } else if has_word(s, p, false_word()) {
        Ok((Json::Bool(false), p + 5))
    } else {
        Err(unexpected(s, p))
    }
}

/// One of the ten digits `0` to `9`.
pub open spec fn ascii_digit(c: char) -> bool {
    '0' <= c && c <= '9'
}

/// `text` without the minus sign that may stand in front.
pub open spec fn unsigned_part(text: Seq<char>) -> Seq<char> {
    if text.len() > 0 && text[0] == '-' {
        text.drop_first()
    } else {
        text
    }
}

/// Whether `text` writes a decimal number: an optional minus sign, then
/// digits with at most one point among them, before them or behind them,
/// and at least one digit.
pub open spec fn is_decimal_number(text: Seq<char>) -> bool {
    let body = unsigned_part(text);
    &&& forall|i: int| 0 <= i < body.len() ==> ascii_digit(#[trigger] body[i]) || body[i] == '.'
    &&& count_of(body, '.') <= 1
    &&& count_of(body, '.') < body.len()
}

/// Whether the run of a number takes `c`: any number character, one point,
/// and a minus sign in the first place.
pub open spec fn number_char(c: char, first: bool, dotted: bool) -> bool {
    numeric(c) || (c == '.' && !dotted) || (c == '-' && first)
}

/// Where the run of number characters that began at `start` and has reached
/// `pos` ends; `dotted` says whether it holds a point already.
pub open spec fn number_end(s: Seq<char>, start: int, pos: int, dotted: bool) -> int
    decreases s.len() - pos,
{
    if 0 <= pos < s.len() && number_char(s[pos], pos == start, dotted) {
        number_end(s, start, pos + 1, dotted || s[pos] == '.')
    } else {
        pos
    }
}

/// A number: the longest run of number characters, if it writes a decimal
/// number. The failure carries the run, which may be empty.
pub open spec fn number_at(s: Seq<char>, pos: int) -> Parsed<Json> {
    let p = skip_whitespace(s, pos);
    let end = number_end(s, p, p, false);
    let text = s.subrange(p, end);
    if is_decimal_number(text) {
        Ok((Json::Number(text), end))
    } else {
        Err(Failure::InvalidNumber(text))
    }
}

/// What a backslash and `c` stand for in a string, if anything.
pub open spec fn escaped(c: char) -> Option<char> {
    if c == 'n' {
        Some('\n')
    } else if c == 't' {
        Some('\t')
    } else if c == 'r' {
        Some('\r')
    } else if c == '"' {
        Some('"')
    } else if c == '\\' {
        Some('\\')
    } else {
        None
    }
}

/// The rest of a string from `pos` on, behind its opening quote, with
/// `text` read so far: up to the first quote that no backslash escapes.
pub open spec fn string_body(s: Seq<char>, pos: int, text: Seq<char>) -> Parsed<Seq<char>>
    decreases s.len() - pos,
{
    if pos < 0 || pos >= s.len() {
        Err(Failure::UnclosedString)
    } else if s[pos] == '"' {
        Ok((text, pos + 1))
    } else if s[pos] == '\\' {
        if pos + 1 >= s.len() {
            Err(Failure::UnclosedString)
        } else {
            match escaped(s[pos + 1]) {
                Some(c) => string_body(s, pos + 2, text.push(c)),
                None => Err(Failure::InvalidEscape(s[pos + 1])),
            }
        }
    } else {
        string_body(s, pos + 1, text.push(s[pos]))
    }
}

/// The text of a string in quotes.
pub open spec fn text_at(s: Seq<char>, pos: int) -> Parsed<Seq<char>> {
    let p = skip_whitespace(s, pos);
    if has_char(s, p, '"') {
        string_body(s, p + 1, Seq::empty())
    } else {
        Err(unexpected(s, p))
    }
}

/// A string in quotes.
pub open spec fn string_at(s: Seq<char>, pos: int) -> Parsed<Json> {
    match text_at(s, pos) {
        Ok((text, end)) => Ok((Json::Text(text), end)),
        Err(failure) => Err(failure),
    }
}

/// A string ends behind where it begins, and inside the text.
pub proof fn lemma_string_body(s: Seq<char>, pos: int, text: Seq<char>)
    ensures
        string_body(s, pos, text) matches Ok((_, end)) ==> 0 <= pos < end <= s.len(),
    decreases s.len() - pos,
{
    if 0 <= pos < s.len() && s[pos] != '"' {
        if s[pos] == '\\' {
            if pos + 1 < s.len() {
                match escaped(s[pos + 1]) {
                    Some(c) => lemma_string_body(s, pos + 2, text.push(c)),
                    None => {},
                }
            }
        } else {
            lemma_string_body(s, pos + 1, text.push(s[pos]));
        }
    }
}

/// A string in quotes ends behind where it begins, and inside the text.
pub proof fn lemma_text_at(s: Seq<char>, pos: int)
    requires
        0 <= pos <= s.len(),
    ensures
        text_at(s, pos) matches Ok((_, end)) ==> pos < end <= s.len(),
{
    lemma_skip_whitespace(s, pos);
    lemma_string_body(s, skip_whitespace(s, pos) + 1, Seq::empty());
}

/// Any value, with `depth` levels of arrays and objects still allowed
/// inside one another. The first character that is no white space decides
/// the rule.
pub open spec fn value_at(s: Seq<char>, pos: int, depth: nat) -> Parsed<Json>
    decreases s.len() - pos, 1int,
{
    let p = skip_whitespace(s, pos);
    if p < 0 || p >= s.len() {
        Err(Failure::UnexpectedEndOfInput)
    } else {
        proof {
            if 0 <= pos <= s.len() {
                lemma_skip_whitespace(s, pos);
            }
        }
        let c = s[p];
        if c == 'n' {
            null_at(s, p)
        } else if c == 't' || c == 'f' {
            bool_at(s, p)
        } else if c == '"' {
            string_at(s, p)
        } else if c == '[' {
            if depth == 0 {
                Err(Failure::TooDeeplyNested)
            } else {
                array_at(s, p, (depth - 1) as nat)
            }
        } else if c == '{' {
            if depth == 0 {
                Err(Failure::TooDeeplyNested)
            } else {
                object_at(s, p, (depth - 1) as nat)
            }
        } else if c == '-' || ascii_digit(c) {
            number_at(s, p)
        } else {
            Err(unexpected(s, p))
        }
    }
}

/// An array in brackets, with `depth` levels still allowed inside it.
pub open spec fn array_at(s: Seq<char>, pos: int, depth: nat) -> Parsed<Json>
    decreases s.len() - pos, 0int,
{
    let p = skip_whitespace(s, pos);
    if has_char(s, p, '[') {
        proof {
            if 0 <= pos <= s.len() {
                lemma_skip_whitespace(s, pos);
            }
        }
        match array_items(s, p + 1, depth, Seq::empty()) {
            Ok((items, end)) => Ok((Json::Array(items), end)),
            Err(failure) => Err(failure),
        }
    } else {
        Err(unexpected(s, p))
    }
}

/// The rest of an array from `pos` on, with `items` read so far: the
/// closing bracket, or a comma (not before the first item) and a value,
/// and so on. A comma must be followed by a value.
///
/// A value always ends behind where it begins and inside the text
/// ([`lemma_value_at`]); the branch that asks for it is there for the
/// definition to be well founded, and is never taken.
pub open spec fn array_items(s: Seq<char>, pos: int, depth: nat, items: Seq<Json>) -> Parsed<
    Seq<Json>,
>
    decreases s.len() - pos, 2int,
{
    let p = skip_whitespace(s, pos);
    if has_char(s, p, ']') {
        Ok((items, p + 1))
    } else if items.len() > 0 && !has_char(s, p, ',') {
        Err(unexpected(s, p))
    } else {
        let q = if items.len() > 0 {
            p + 1
        } else {
            p
        };
        proof {
            if 0 <= pos <= s.len() {
                lemma_skip_whitespace(s, pos);
            }
        }
        match value_at(s, q, depth) {
            Err(failure) => Err(failure),
            Ok((item, end)) => if q < end <= s.len() {
                array_items(s, end, depth, items.push(item))
            } else {
                Err(Failure::UnexpectedEndOfInput)
            },
        }
    }
}

/// An object in braces, with `depth` levels still allowed inside it.
pub open spec fn object_at(s: Seq<char>, pos: int, depth: nat) -> Parsed<Json>
    decreases s.len() - pos, 0int,
{
    let p = skip_whitespace(s, pos);
    if has_char(s, p, '{') {
        proof {
            if 0 <= pos <= s.len() {
                lemma_skip_whitespace(s, pos);
            }
        }
        match object_entries(s, p + 1, depth, Seq::empty()) {
            Ok((entries, end)) => Ok((Json::Object(entries), end)),
            Err(failure) => Err(failure),
        }
    } else {
        Err(unexpected(s, p))
    }
}

/// The rest of an object from `pos` on, with `entries` read so far: the
/// closing brace, or a comma (not before the first entry), a string as the
/// key, a colon and a value, and so on. Keys may repeat.
///
/// As in [`array_items`], the branch that asks where the value ended is
/// never taken.
pub open spec fn object_entries(
    s: Seq<char>,
    pos: int,
    depth: nat,
    entries: Seq<(Seq<char>, Json)>,
) -> Parsed<Seq<(Seq<char>, Json)>>
    decreases s.len() - pos, 2int,
{
    let p = skip_whitespace(s, pos);
    if has_char(s, p, '}') {
        Ok((entries, p + 1))
    } else if entries.len() > 0 && !has_char(s, p, ',') {
        Err(unexpected(s, p))
    } else {
        let q = if entries.len() > 0 {
            p + 1
        } else {
            p
        };
        match text_at(s, q) {
            Err(failure) => Err(failure),
            Ok((key, behind_key)) => {
                let colon = skip_whitespace(s, behind_key);
                if !has_char(s, colon, ':') {
                    Err(unexpected(s, colon))
                } else {
                    proof {
                        if 0 <= pos <= s.len() {
                            lemma_skip_whitespace(s, pos);
                            lemma_text_at(s, q);
                            lemma_skip_whitespace(s, behind_key);
                        }
                    }
                    match value_at(s, colon + 1, depth) {
                        Err(failure) => Err(failure),
                        Ok((value, end)) => if colon < end <= s.len() {
                            object_entries(s, end, depth, entries.push((key, value)))
                        } else {
                            Err(Failure::UnexpectedEndOfInput)
                        },
                    }
                }
            },
        }
    }
}

/// The value at the start of `s` and what of `s` is left behind it.
pub open spec fn value_in(s: Seq<char>, depth: nat) -> Result<(Json, Seq<char>), Failure> {
    match value_at(s, 0, depth) {
        Ok((value, end)) => Ok((value, s.subrange(end, s.len() as int))),
        Err(failure) => Err(failure),
    }
}

} // verus!
