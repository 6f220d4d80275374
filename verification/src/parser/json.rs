//! The value parser: recursive descent over the rules of the grammar.

use vstd::prelude::*;

use crate::parser::error::{Failure, ParseError};
use crate::parser::grammar::{
    array_at, array_items, ascii_digit, bool_at, escaped, false_word, has_char, has_word,
    is_decimal_number, null_at, null_word, number_at, number_end, object_at, object_entries,
    string_at, string_body, text_at, true_word, unexpected, unsigned_part, value_at, value_in,
    Parsed,
};
use crate::parser::value::{
    entry_views, item_views, lemma_entry_views, lemma_item_views, Json, JsonValue,
};
use crate::text::{count_of, skip_whitespace, skip_whitespace_at, string_of, to_chars};

verus! {

/// How deeply arrays and objects may be nested where no limit is given.
pub const DEFAULT_MAX_DEPTH: usize = 64;

/// What a result of a rule says, over views.
pub open spec fn parsed_value(result: Result<(JsonValue, usize), ParseError>) -> Parsed<Json> {
    match result {
        Ok((value, end)) => Ok((value@, end as int)),
        Err(error) => Err(error@),
    }
}

/// What a result of [`JsonParser::parse_text`] says, over views.
pub open spec fn parsed_text(result: Result<(String, usize), ParseError>) -> Parsed<Seq<char>> {
    match result {
        Ok((text, end)) => Ok((text@, end as int)),
        Err(error) => Err(error@),
    }
}

/// What a result of [`JsonParser::parse_value`] says, over views.
pub open spec fn parse_outcome(result: Result<(JsonValue, &str), ParseError>) -> Result<
    (Json, Seq<char>),
    Failure,
> {
    match result {
        Ok((value, rest)) => Ok((value@, rest@)),
        Err(error) => Err(error@),
    }
}

/// The parser of values. It holds no state: every call stands for itself.
pub struct JsonParser;

impl JsonParser {
    pub fn new() -> Self {
        JsonParser
    }

    /// The position of the first character at or behind `pos` that is no
    /// white space.
    pub fn skip_whitespace(chars: &[char], pos: usize) -> (next: usize)
        requires
            pos <= chars@.len(),
        ensures
            next == skip_whitespace(chars@, pos as int),
            pos <= next <= chars@.len(),
    {
        skip_whitespace_at(chars, pos)
    }

    /// The error for the character at `pos`.
    fn unexpected(chars: &[char], pos: usize) -> (error: ParseError)
        ensures
            error@ == unexpected(chars@, pos as int),
    {
        if pos < chars.len() {
            ParseError::UnexpectedCharacter(chars[pos], pos)
        } else {
            ParseError::UnexpectedCharacter('\0', pos)
        }
    }

    /// Whether `c` stands at `pos`.
    fn has_char(chars: &[char], pos: usize, c: char) -> (found: bool)
        ensures
            found == has_char(chars@, pos as int, c),
            found ==> pos < usize::MAX,
    {
        pos < chars.len() && chars[pos] == c
    }

    /// Reads the literal `null`.
    pub fn parse_null(chars: &[char], pos: usize) -> (result: Result<(JsonValue, usize), ParseError>)
        requires
            pos <= chars@.len(),
        ensures
            parsed_value(result) == null_at(chars@, pos as int),
            result matches Ok((_, end)) ==> pos < end <= chars@.len(),
    {
        let p = Self::skip_whitespace(chars, pos);
        if chars.len() - p >= 4 && chars[p] == 'n' && chars[p + 1] == 'u'
            && chars[p + 2] == 'l' && chars[p + 3] == 'l' {
            assert(chars@.subrange(p as int, p + 4) == null_word());
            Ok((JsonValue::Null, p + 4))
        } else {
            proof {
                if has_word(chars@, p as int, null_word()) {
                    let word = chars@.subrange(p as int, p + 4);
                    assert(word[0] == 'n' && word[1] == 'u' && word[2] == 'l' && word[3] == 'l');
                }
            }
            Err(Self::unexpected(chars, p))
        }
    }

    /// Reads the literal `true` or `false`.
    pub fn parse_bool(chars: &[char], pos: usize) -> (result: Result<(JsonValue, usize), ParseError>)
        requires
            pos <= chars@.len(),
        ensures
            parsed_value(result) == bool_at(chars@, pos as int),
            result matches Ok((_, end)) ==> pos < end <= chars@.len(),
    {
        let p = Self::skip_whitespace(chars, pos);
        if chars.len() - p >= 4 && chars[p] == 't' && chars[p + 1] == 'r'
            && chars[p + 2] == 'u' && chars[p + 3] == 'e' {
            assert(chars@.subrange(p as int, p + 4) == true_word());
            Ok((JsonValue::Bool(true), p + 4))
        } else if chars.len() - p >= 5 && chars[p] == 'f' && chars[p + 1] == 'a'
            && chars[p + 2] == 'l' && chars[p + 3] == 's' && chars[p + 4] == 'e' {
            proof {
                assert(chars@.subrange(p as int, p + 5) == false_word());
                if has_word(chars@, p as int, true_word()) {
                    let word = chars@.subrange(p as int, p + 4);
                    assert(word[0] == 't');
                }
            }
            Ok((JsonValue::Bool(false), p + 5))
        } else {
            proof {
                if has_word(chars@, p as int, true_word()) {
                    let word = chars@.subrange(p as int, p + 4);
                    assert(word[0] == 't' && word[1] == 'r' && word[2] == 'u' && word[3] == 'e');
                }
                if has_word(chars@, p as int, false_word()) {
                    let word = chars@.subrange(p as int, p + 5);
                    assert(word[0] == 'f' && word[1] == 'a' && word[2] == 'l' && word[3] == 's'
                        && word[4] == 'e');
                }
            }
            Err(Self::unexpected(chars, p))
        }
    }

    /// Whether `chars[from..to]` writes a decimal number.
    fn is_decimal_number(chars: &[char], from: usize, to: usize) -> (valid: bool)
        requires
            from <= to <= chars@.len(),
        ensures
            valid == is_decimal_number(chars@.subrange(from as int, to as int)),
    {
        let ghost text = chars@.subrange(from as int, to as int);
        let start = if from < to && chars[from] == '-' {
            from + 1
        } else {
            from
        };
        let ghost body = chars@.subrange(start as int, to as int);
        assert(body == unsigned_part(text));
        let mut dots: usize = 0;
        let mut i: usize = start;
        assert(body.take(0) == Seq::<char>::empty());
        while i < to
            invariant
                start <= i <= to <= chars@.len(),
                text == chars@.subrange(from as int, to as int),
                body == chars@.subrange(start as int, to as int),
                body == unsigned_part(text),
                forall|k: int| 0 <= k < i - start ==> ascii_digit(#[trigger] body[k]) || body[k] == '.',
                dots == count_of(body.take(i - start), '.'),
                dots <= i - start,
            decreases to - i,
        {
            let c = chars[i];
            proof {
                assert(body[i - start] == c);
                assert(body.take(i - start + 1).drop_last() == body.take(i - start));
            }
            if c == '.' {
                dots += 1;
            } else if !('0' <= c && c <= '9') {
                assert(!(ascii_digit(body[i - start]) || body[i - start] == '.'));
                return false;
            }
            i += 1;
        }
        assert(body.take(i - start) == body);
        dots <= 1 && dots < to - start
    }

    /// Reads a number.
    pub fn parse_number(chars: &[char], pos: usize) -> (result: Result<
        (JsonValue, usize),
        ParseError,
    >)
        requires
            pos <= chars@.len(),
        ensures
            parsed_value(result) == number_at(chars@, pos as int),
            result matches Ok((_, end)) ==> pos < end <= chars@.len(),
    {
        let p = Self::skip_whitespace(chars, pos);
        let mut end: usize = p;
        let mut dotted = false;
        while end < chars.len() && (chars[end].is_numeric() || (chars[end] == '.' && !dotted) || (
        chars[end] == '-' && end == p))
            invariant
                p <= end <= chars@.len(),
                number_end(chars@, p as int, p as int, false) == number_end(
                    chars@,
                    p as int,
                    end as int,
                    dotted,
                ),
            decreases chars@.len() - end,
        {
            if chars[end] == '.' {
                dotted = true;
            }
            end += 1;
        }
        let text = string_of(chars, p, end);
        if Self::is_decimal_number(chars, p, end) {
            Ok((JsonValue::Number(text), end))
        } else {
            Err(ParseError::InvalidNumber(text))
        }
    }

    /// What a backslash and `c` stand for.
    fn unescape(c: char) -> (plain: Option<char>)
        ensures
            plain == escaped(c),
    {
        if c == 'n' {
            Some('\n')
        } else if c == 't' {
            Some('\t')
        } else if c == 'r' {
            Some('\r')
        } else if c == '"' {
            Some('"')
        } else if c == '\\' {
            Some('\\')
        } else {
            None
        }
    }

    /// Reads a string in quotes and gives its text.
    pub fn parse_text(chars: &[char], pos: usize) -> (result: Result<(String, usize), ParseError>)
        requires
            pos <= chars@.len(),
        ensures
            parsed_text(result) == text_at(chars@, pos as int),
            result matches Ok((_, end)) ==> pos < end <= chars@.len(),
    {
        let p = Self::skip_whitespace(chars, pos);
        if !Self::has_char(chars, p, '"') {
            return Err(Self::unexpected(chars, p));
        }
        let mut text = String::new();
        let mut i: usize = p + 1;
        loop
            invariant
                pos <= p < i <= chars@.len(),
                p == skip_whitespace(chars@, pos as int),
                has_char(chars@, p as int, '"'),
                string_body(chars@, p + 1, Seq::empty()) == string_body(chars@, i as int, text@),
            decreases chars@.len() - i,
        {
            if i >= chars.len() {
                return Err(ParseError::UnclosedString);
            }
            let c = chars[i];
            if c == '"' {
                return Ok((text, i + 1));
            } else if c == '\\' {
                if i + 1 >= chars.len() {
                    return Err(ParseError::UnclosedString);
                }
                let escape = chars[i + 1];
                match Self::unescape(escape) {
                    Some(plain) => {
                        text.push(plain);
                        i += 2;
                    },
                    None => {
                        return Err(ParseError::InvalidEscape(escape));
                    },
                }
            } else {
                text.push(c);
                i += 1;
            }
        }
    }

    /// Reads a string in quotes.
    pub fn parse_string(chars: &[char], pos: usize) -> (result: Result<
        (JsonValue, usize),
        ParseError,
    >)
        requires
            pos <= chars@.len(),
        ensures
            parsed_value(result) == string_at(chars@, pos as int),
            result matches Ok((_, end)) ==> pos < end <= chars@.len(),
    {
        match Self::parse_text(chars, pos) {
            Ok((text, end)) => Ok((JsonValue::String(text), end)),
            Err(error) => Err(error),
        }
    }

    /// Reads any value, with `depth` levels of arrays and objects still
    /// allowed inside one another.
    pub fn parse_value_at(chars: &[char], pos: usize, depth: usize) -> (result: Result<
        (JsonValue, usize),
        ParseError,
    >)
        requires
            pos <= chars@.len(),
        ensures
            parsed_value(result) == value_at(chars@, pos as int, depth as nat),
            result matches Ok((_, end)) ==> pos < end <= chars@.len(),
        decreases chars@.len() - pos, 1int,
    {
        let p = Self::skip_whitespace(chars, pos);
        if p >= chars.len() {
            return Err(ParseError::UnexpectedEndOfInput);
        }
        let c = chars[p];
        if c == 'n' {
            Self::parse_null(chars, p)
        } else if c == 't' || c == 'f' {
            Self::parse_bool(chars, p)
        } else if c == '"' {
            Self::parse_string(chars, p)
        } else if c == '[' {
            if depth == 0 {
                Err(ParseError::TooDeeplyNested)
            } else {
                Self::parse_array(chars, p, depth - 1)
            }
        } else if c == '{' {
            if depth == 0 {
                Err(ParseError::TooDeeplyNested)
            } else {
                Self::parse_object(chars, p, depth - 1)
            }
        } else if c == '-' || ('0' <= c && c <= '9') {
            Self::parse_number(chars, p)
        } else {
            Err(Self::unexpected(chars, p))
        }
    }

    /// Reads an array, with `depth` levels still allowed inside it.
    pub fn parse_array(chars: &[char], pos: usize, depth: usize) -> (result: Result<
        (JsonValue, usize),
        ParseError,
    >)
        requires
            pos <= chars@.len(),
        ensures
            parsed_value(result) == array_at(chars@, pos as int, depth as nat),
            result matches Ok((_, end)) ==> pos < end <= chars@.len(),
        decreases chars@.len() - pos, 0int,
    {
        let p = Self::skip_whitespace(chars, pos);
        if !Self::has_char(chars, p, '[') {
            return Err(Self::unexpected(chars, p));
        }
        let mut items: Vec<JsonValue> = Vec::new();
        let mut at: usize = p + 1;
        loop
            invariant
                pos <= p < at <= chars@.len(),
                p == skip_whitespace(chars@, pos as int),
                has_char(chars@, p as int, '['),
                array_items(chars@, p + 1, depth as nat, Seq::empty()) == array_items(
                    chars@,
                    at as int,
                    depth as nat,
                    item_views(items@),
                ),
            decreases chars@.len() - at,
        {
            proof {
                lemma_item_views(items@);
            }
            let a = Self::skip_whitespace(chars, at);
            if Self::has_char(chars, a, ']') {
                return Ok((JsonValue::Array(items), a + 1));
            }
            let q = if items.len() > 0 {
                if !Self::has_char(chars, a, ',') {
                    return Err(Self::unexpected(chars, a));
                }
                a + 1
            } else {
                a
            };
            match Self::parse_value_at(chars, q, depth) {
                Err(error) => {
                    return Err(error);
                },
                Ok((item, end)) => {
                    proof {
                        assert(items@.push(item).drop_last() == items@);
                        assert(item_views(items@.push(item)) == item_views(items@).push(item@));
                    }
                    items.push(item);
                    at = end;
                },
            }
        }
    }

    /// Reads an object, with `depth` levels still allowed inside it.
    pub fn parse_object(chars: &[char], pos: usize, depth: usize) -> (result: Result<
        (JsonValue, usize),
        ParseError,
    >)
        requires
            pos <= chars@.len(),
        ensures
            parsed_value(result) == object_at(chars@, pos as int, depth as nat),
            result matches Ok((_, end)) ==> pos < end <= chars@.len(),
        decreases chars@.len() - pos, 0int,
    {
        let p = Self::skip_whitespace(chars, pos);
        if !Self::has_char(chars, p, '{') {
            return Err(Self::unexpected(chars, p));
        }
        let mut entries: Vec<(String, JsonValue)> = Vec::new();
        let mut at: usize = p + 1;
        loop
            invariant
                pos <= p < at <= chars@.len(),
                p == skip_whitespace(chars@, pos as int),
                has_char(chars@, p as int, '{'),
                object_entries(chars@, p + 1, depth as nat, Seq::empty()) == object_entries(
                    chars@,
                    at as int,
                    depth as nat,
                    entry_views(entries@),
                ),
            decreases chars@.len() - at,
        {
            proof {
                lemma_entry_views(entries@);
            }
            let a = Self::skip_whitespace(chars, at);
            if Self::has_char(chars, a, '}') {
                return Ok((JsonValue::Object(entries), a + 1));
            }
            let q = if entries.len() > 0 {
                if !Self::has_char(chars, a, ',') {
                    return Err(Self::unexpected(chars, a));
                }
                a + 1
            } else {
                a
            };
            let (key, behind_key) = match Self::parse_text(chars, q) {
                Err(error) => {
                    return Err(error);
                },
                Ok(read) => read,
            };
            let colon = Self::skip_whitespace(chars, behind_key);
            if !Self::has_char(chars, colon, ':') {
                return Err(Self::unexpected(chars, colon));
            }
            match Self::parse_value_at(chars, colon + 1, depth) {
                Err(error) => {
                    return Err(error);
                },
                Ok((value, end)) => {
                    proof {
                        let entry = (key, value);
                        assert(entries@.push(entry).drop_last() == entries@);
                        assert(entry_views(entries@.push(entry)) == entry_views(entries@).push(
                            (key@, value@),
                        ));
                    }
                    entries.push((key, value));
                    at = end;
                },
            }
        }
    }

    /// Parses the value at the start of `input`, with at most `max_depth`
    /// levels of arrays and objects inside one another, and returns it with
    /// the rest of the input behind it.
    pub fn parse_value_within<'a>(input: &'a str, max_depth: usize) -> (result: Result<
        (JsonValue, &'a str),
        ParseError,
    >)
        ensures
            parse_outcome(result) == value_in(input@, max_depth as nat),
            result matches Ok((_, rest)) ==> rest@.is_suffix_of(input@) && rest@.len()
                < input@.len(),
    {
        let chars = to_chars(input);
        match Self::parse_value_at(chars.as_slice(), 0, max_depth) {
            Ok((value, end)) => Ok((value, input.substring_char(end, chars.len()))),
            Err(error) => Err(error),
        }
    }

    /// Parses the value at the start of `input` and returns it with the
    /// rest of the input behind it. Arrays and objects may be nested up to
    /// [`DEFAULT_MAX_DEPTH`] levels deep.
    pub fn parse_value<'a>(input: &'a str) -> (result: Result<(JsonValue, &'a str), ParseError>)
        ensures
            parse_outcome(result) == value_in(input@, DEFAULT_MAX_DEPTH as nat),
            result matches Ok((_, rest)) ==> rest@.is_suffix_of(input@) && rest@.len()
                < input@.len(),
    {
        Self::parse_value_within(input, DEFAULT_MAX_DEPTH)
    }
}

} // verus!
