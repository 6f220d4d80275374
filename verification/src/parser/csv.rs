//! Rows of delimited fields.
//!
//! A line is scanned once from left to right. Double quotes switch quoting
//! on and off and are never part of a field; inside quotes a backslash makes
//! the next character literal, and the delimiter is an ordinary character.
//! Every field is trimmed of surrounding white space when it is closed.

use vstd::prelude::*;

use crate::parser::error::{Failure, ParseError};
use crate::text::{line_spans, lines, span_texts, texts, to_chars, trim_bounds, trimmed, trimmed_text};

verus! {

/// What the scan of a line knows after some of its characters.
pub ghost struct RowScan {
    /// The fields closed so far, trimmed.
    pub fields: Seq<Seq<char>>,
    /// The field under construction, not yet trimmed.
    pub current: Seq<char>,
    /// Whether a quote is open.
    pub in_quotes: bool,
    /// Whether the last character was a backslash inside quotes.
    pub escape_pending: bool,
}

/// The scan before the first character.
pub open spec fn row_start() -> RowScan {
    RowScan {
        fields: Seq::empty(),
        current: Seq::empty(),
        in_quotes: false,
        escape_pending: false,
    }
}

/// The scan after one more character.
pub open spec fn row_step(scan: RowScan, ch: char, delimiter: char) -> RowScan {
    if scan.escape_pending {
        RowScan { current: scan.current.push(ch), escape_pending: false, ..scan }
    } else if ch == '\\' && scan.in_quotes {
        RowScan { escape_pending: true, ..scan }
    } else if ch == '"' {
        RowScan { in_quotes: !scan.in_quotes, ..scan }
    } else if ch == delimiter && !scan.in_quotes {
        RowScan { fields: scan.fields.push(trimmed(scan.current)), current: Seq::empty(), ..scan }
    } else {
        RowScan { current: scan.current.push(ch), ..scan }
    }
}

/// The scan after all of `line`, started from `scan`.
pub open spec fn row_scan(scan: RowScan, line: Seq<char>, delimiter: char) -> RowScan
    decreases line.len(),
{
    if line.len() == 0 {
        scan
    } else {
        row_scan(row_step(scan, line[0], delimiter), line.drop_first(), delimiter)
    }
}

/// The fields of `line`: none for the empty line; otherwise the fields that
/// the scan closed and the one it ended in, unless a quote was left open.
pub open spec fn row_fields(line: Seq<char>, delimiter: char) -> Result<Seq<Seq<char>>, Failure> {
    if line.len() == 0 {
        Ok(Seq::empty())
    } else {
        let scan = row_scan(row_start(), line, delimiter);
        if scan.in_quotes {
            Err(Failure::UnclosedQuote)
        } else {
            Ok(scan.fields.push(trimmed(scan.current)))
        }
    }
}

/// The rows of `lines`: one for each line that is not blank, in order. The
/// first line that fails decides the whole result.
pub open spec fn document_rows(lines: Seq<Seq<char>>, delimiter: char) -> Result<
    Seq<Seq<Seq<char>>>,
    Failure,
>
    decreases lines.len(),
{
    if lines.len() == 0 {
        Ok(Seq::empty())
    } else {
        match document_rows(lines.drop_last(), delimiter) {
            Err(failure) => Err(failure),
            Ok(rows) => if trimmed(lines.last()).len() == 0 {
                Ok(rows)
            } else {
                match row_fields(lines.last(), delimiter) {
                    Err(failure) => Err(failure),
                    Ok(row) => Ok(rows.push(row)),
                }
            },
        }
    }
}

/// What a result of [`CsvParser::parse_line`] says, over views.
pub open spec fn row_outcome(result: Result<Vec<String>, ParseError>) -> Result<
    Seq<Seq<char>>,
    Failure,
> {
    match result {
        Ok(row) => Ok(texts(row@)),
        Err(error) => Err(error@),
    }
}

/// The views of the rows of a document, in order.
pub open spec fn document_texts(rows: Seq<Vec<String>>) -> Seq<Seq<Seq<char>>> {
    rows.map_values(|row: Vec<String>| texts(row@))
}

/// What a result of [`CsvParser::parse_document`] says, over views.
pub open spec fn document_outcome(result: Result<Vec<Vec<String>>, ParseError>) -> Result<
    Seq<Seq<Seq<char>>>,
    Failure,
> {
    match result {
        Ok(rows) => Ok(document_texts(rows@)),
        Err(error) => Err(error@),
    }
}

/// Once a line has failed, lines after it change nothing.
pub proof fn lemma_document_failure_stays(lines: Seq<Seq<char>>, delimiter: char, upto: int)
    requires
        0 <= upto <= lines.len(),
        document_rows(lines.take(upto), delimiter) is Err,
    ensures
        document_rows(lines, delimiter) == document_rows(lines.take(upto), delimiter),
    decreases lines.len() - upto,
{
    if upto < lines.len() {
        assert(lines.take(upto + 1).drop_last() == lines.take(upto));
        lemma_document_failure_stays(lines, delimiter, upto + 1);
    } else {
        assert(lines.take(upto) == lines);
    }
}

/// A parser of rows whose fields a fixed delimiter separates.
pub struct CsvParser {
    delimiter: char,
}

impl CsvParser {
    /// The character that separates fields.
    pub closed spec fn delimiter(&self) -> char {
        self.delimiter
    }

    /// A parser for rows separated by `delimiter`.
    pub fn new(delimiter: char) -> (parser: Self)
        ensures
            parser.delimiter() == delimiter,
    {
        CsvParser { delimiter }
    }

    /// Parses the line `chars[from..to]`.
    fn parse_span(&self, chars: &[char], from: usize, to: usize) -> (result: Result<
        Vec<String>,
        ParseError,
    >)
        requires
            from <= to <= chars@.len(),
        ensures
            row_outcome(result) == row_fields(
                chars@.subrange(from as int, to as int),
                self.delimiter(),
            ),
    {
        let ghost line = chars@.subrange(from as int, to as int);
        let mut row: Vec<String> = Vec::new();
        if from == to {
            assert(texts(row@) == Seq::<Seq<char>>::empty());
            return Ok(row);
        }
        let mut current: Vec<char> = Vec::new();
        let mut in_quotes = false;
        let mut escape_next = false;
        let mut i: usize = from;
        assert(line.skip(0) == line);
        assert(texts(row@) == Seq::<Seq<char>>::empty());
        while i < to
            invariant
                from <= i <= to <= chars@.len(),
                line == chars@.subrange(from as int, to as int),
                row_scan(row_start(), line, self.delimiter()) == row_scan(
                    RowScan {
                        fields: texts(row@),
                        current: current@,
                        in_quotes,
                        escape_pending: escape_next,
                    },
                    line.skip(i - from),
                    self.delimiter(),
                ),
            decreases to - i,
        {
            let ch = chars[i];
            proof {
                let rest = line.skip(i - from);
                assert(rest[0] == ch);
                assert(rest.drop_first() == line.skip(i - from + 1));
            }
            if escape_next {
                current.push(ch);
                escape_next = false;
            } else if ch == '\\' && in_quotes {
                escape_next = true;
            } else if ch == '"' {
                in_quotes = !in_quotes;
            } else if ch == self.delimiter && !in_quotes {
                let ghost closed = texts(row@);
                let field = trimmed_text(current.as_slice());
                row.push(field);
                current = Vec::new();
                assert(texts(row@) == closed.push(field@));
            } else {
                current.push(ch);
            }
            i += 1;
        }
        if in_quotes {
            return Err(ParseError::UnclosedQuote);
        }
        let ghost closed = texts(row@);
        let field = trimmed_text(current.as_slice());
        row.push(field);
        assert(texts(row@) == closed.push(field@));
        Ok(row)
    }

    /// Parses one line into its fields.
    ///
    /// The empty line has no fields. Any other line has one field more than
    /// it has delimiters outside quotes, each trimmed; it fails with
    /// [`ParseError::UnclosedQuote`] when a quote is open at its end.
    pub fn parse_line(&self, input: &str) -> (result: Result<Vec<String>, ParseError>)
        ensures
            row_outcome(result) == row_fields(input@, self.delimiter()),
    {
        let chars = to_chars(input);
        assert(chars@.subrange(0, chars@.len() as int) == chars@);
        self.parse_span(chars.as_slice(), 0, chars.len())
    }

    /// Parses a text of several lines into one row for each line that is
    /// not blank. The first line that fails makes the whole call fail with
    /// that line's error.
    pub fn parse_document(&self, input: &str) -> (result: Result<Vec<Vec<String>>, ParseError>)
        ensures
            document_outcome(result) == document_rows(lines(input@), self.delimiter()),
    {
        let chars = to_chars(input);
        let spans = line_spans(chars.as_slice());
        let ghost all = lines(chars@);
        let mut rows: Vec<Vec<String>> = Vec::new();
        let mut i: usize = 0;
        assert(document_texts(rows@) == Seq::<Seq<Seq<char>>>::empty());
        while i < spans.len()
            invariant
                i <= spans@.len(),
                chars@ == input@,
                all == lines(chars@),
                span_texts(chars@, spans@) == all,
                forall|k: int|
                    0 <= k < spans@.len() ==> (#[trigger] spans@[k]).0 <= spans@[k].1
                        <= chars@.len(),
                document_rows(all.take(i as int), self.delimiter()) == Ok::<_, Failure>(
                    document_texts(rows@),
                ),
            decreases spans@.len() - i,
        {
            let span = spans[i];
            let ghost line = chars@.subrange(span.0 as int, span.1 as int);
            proof {
                assert(all[i as int] == line);
                assert(all.take(i + 1).drop_last() == all.take(i as int));
                assert(all.take(i + 1).last() == line);
            }
            let bounds = trim_bounds(chars.as_slice(), span.0, span.1);
            if bounds.0 < bounds.1 {
                match self.parse_span(chars.as_slice(), span.0, span.1) {
                    Ok(row) => {
                        let ghost before = document_texts(rows@);
                        rows.push(row);
                        assert(document_texts(rows@) == before.push(texts(row@)));
                    },
                    Err(error) => {
                        proof {
                            assert(document_rows(all.take(i + 1), self.delimiter()) == Err::<
                                Seq<Seq<Seq<char>>>,
                                Failure,
                            >(error@));
                            lemma_document_failure_stays(all, self.delimiter(), i + 1);
                        }
                        return Err(error);
                    },
                }
            }
            i += 1;
        }
        assert(all.take(i as int) == all);
        Ok(rows)
    }
}

} // verus!
