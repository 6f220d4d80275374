//! What holds of the two parsers on all inputs.

use vstd::prelude::*;

use crate::parser::csv::{row_fields, row_scan, row_start, row_step, RowScan};
use crate::parser::error::Failure;
use crate::parser::grammar::{
    array_at, array_items, bool_at, has_char, lemma_text_at, null_at, number_at, number_char,
    number_end, object_at, object_entries, string_at, text_at, unexpected, value_at,
};
use crate::parser::value::Json;
use crate::text::{count_of, lemma_skip_whitespace, skip_whitespace, trimmed};

verus! {

/// The run of a number stays between where it stands and the end.
pub proof fn lemma_number_end(s: Seq<char>, start: int, pos: int, dotted: bool)
    requires
        0 <= pos <= s.len(),
    ensures
        pos <= number_end(s, start, pos, dotted) <= s.len(),
    decreases s.len() - pos,
{
    if pos < s.len() && number_char(s[pos], pos == start, dotted) {
        lemma_number_end(s, start, pos + 1, dotted || s[pos] == '.');
    }
}

/// A literal, a number or a string that was read ends behind where it
/// began, and inside the text.
pub proof fn lemma_scalar_at(s: Seq<char>, pos: int)
    requires
        0 <= pos <= s.len(),
    ensures
        null_at(s, pos) matches Ok((_, end)) ==> pos < end <= s.len(),
        bool_at(s, pos) matches Ok((_, end)) ==> pos < end <= s.len(),
        number_at(s, pos) matches Ok((_, end)) ==> pos < end <= s.len(),
        string_at(s, pos) matches Ok((_, end)) ==> pos < end <= s.len(),
{
    lemma_skip_whitespace(s, pos);
    let p = skip_whitespace(s, pos);
    lemma_number_end(s, p, p, false);
    lemma_text_at(s, pos);
}

/// Every value that was read ends behind where it began, and inside the
/// text: reading makes progress and invents nothing.
pub proof fn lemma_value_at(s: Seq<char>, pos: int, depth: nat)
    requires
        0 <= pos <= s.len(),
    ensures
        value_at(s, pos, depth) matches Ok((_, end)) ==> pos < end <= s.len(),
    decreases s.len() - pos, 1int,
{
    lemma_skip_whitespace(s, pos);
    let p = skip_whitespace(s, pos);
    if p < s.len() {
        lemma_scalar_at(s, p);
        if depth > 0 {
            if s[p] == '[' {
                lemma_array_at(s, p, (depth - 1) as nat);
            } else if s[p] == '{' {
                lemma_object_at(s, p, (depth - 1) as nat);
            }
        }
    }
}

/// Every array that was read ends behind where it began, and inside the
/// text.
pub proof fn lemma_array_at(s: Seq<char>, pos: int, depth: nat)
    requires
        0 <= pos <= s.len(),
    ensures
        array_at(s, pos, depth) matches Ok((_, end)) ==> pos < end <= s.len(),
    decreases s.len() - pos, 0int,
{
    lemma_skip_whitespace(s, pos);
    let p = skip_whitespace(s, pos);
    if has_char(s, p, '[') {
        lemma_array_items(s, p + 1, depth, Seq::empty());
    }
}

/// The items of an array end behind where they began, and inside the text.
pub proof fn lemma_array_items(s: Seq<char>, pos: int, depth: nat, items: Seq<Json>)
    requires
        0 <= pos <= s.len(),
    ensures
        array_items(s, pos, depth, items) matches Ok((_, end)) ==> pos < end <= s.len(),
    decreases s.len() - pos, 2int,
{
    lemma_skip_whitespace(s, pos);
    let p = skip_whitespace(s, pos);
    if !has_char(s, p, ']') && !(items.len() > 0 && !has_char(s, p, ',')) {
        let q = if items.len() > 0 {
            p + 1
        } else {
            p
        };
        lemma_value_at(s, q, depth);
        match value_at(s, q, depth) {
            Ok((item, end)) => {
                lemma_array_items(s, end, depth, items.push(item));
            },
            Err(_) => {},
        }
    }
}

/// Every object that was read ends behind where it began, and inside the
/// text.
pub proof fn lemma_object_at(s: Seq<char>, pos: int, depth: nat)
    requires
        0 <= pos <= s.len(),
    ensures
        object_at(s, pos, depth) matches Ok((_, end)) ==> pos < end <= s.len(),
    decreases s.len() - pos, 0int,
{
    lemma_skip_whitespace(s, pos);
    let p = skip_whitespace(s, pos);
    if has_char(s, p, '{') {
        lemma_object_entries(s, p + 1, depth, Seq::empty());
    }
}

/// The entries of an object end behind where they began, and inside the
/// text.
pub proof fn lemma_object_entries(
    s: Seq<char>,
    pos: int,
    depth: nat,
    entries: Seq<(Seq<char>, Json)>,
)
    requires
        0 <= pos <= s.len(),
    ensures
        object_entries(s, pos, depth, entries) matches Ok((_, end)) ==> pos < end <= s.len(),
    decreases s.len() - pos, 2int,
{
    lemma_skip_whitespace(s, pos);
    let p = skip_whitespace(s, pos);
    if !has_char(s, p, '}') && !(entries.len() > 0 && !has_char(s, p, ',')) {
        let q = if entries.len() > 0 {
            p + 1
        } else {
            p
        };
        lemma_text_at(s, q);
        match text_at(s, q) {
            Ok((key, behind_key)) => {
                lemma_skip_whitespace(s, behind_key);
                let colon = skip_whitespace(s, behind_key);
                if has_char(s, colon, ':') {
                    lemma_value_at(s, colon + 1, depth);
                    match value_at(s, colon + 1, depth) {
                        Ok((value, end)) => {
                            lemma_object_entries(s, end, depth, entries.push((key, value)));
                        },
                        Err(_) => {},
                    }
                }
            },
            Err(_) => {},
        }
    }
}

/// Whether a result is anything but a refusal for depth.
pub open spec fn within_limit<T>(result: Result<(T, int), Failure>) -> bool {
    result != Err::<(T, int), Failure>(Failure::TooDeeplyNested)
}

/// The limit of nesting decides nothing but refusals for depth: what is
/// read or refused for another reason within one limit is read or refused
/// alike within every greater one.
pub proof fn lemma_greater_limit(s: Seq<char>, pos: int, depth: nat, greater: nat)
    requires
        0 <= pos <= s.len(),
        depth <= greater,
        within_limit(value_at(s, pos, depth)),
    ensures
        value_at(s, pos, greater) == value_at(s, pos, depth),
    decreases s.len() - pos, 1int,
{
    lemma_skip_whitespace(s, pos);
    let p = skip_whitespace(s, pos);
    if p < s.len() && depth > 0 {
        if s[p] == '[' {
            lemma_greater_limit_in_array(
                s,
                p + 1,
                (depth - 1) as nat,
                (greater - 1) as nat,
                Seq::empty(),
            );
        } else if s[p] == '{' {
            lemma_greater_limit_in_object(
                s,
                p + 1,
                (depth - 1) as nat,
                (greater - 1) as nat,
                Seq::empty(),
            );
        }
    }
}

/// [`lemma_greater_limit`] for the items of an array.
pub proof fn lemma_greater_limit_in_array(
    s: Seq<char>,
    pos: int,
    depth: nat,
    greater: nat,
    items: Seq<Json>,
)
    requires
        0 <= pos <= s.len(),
        depth <= greater,
        within_limit(array_items(s, pos, depth, items)),
    ensures
        array_items(s, pos, greater, items) == array_items(s, pos, depth, items),
    decreases s.len() - pos, 2int,
{
    lemma_skip_whitespace(s, pos);
    let p = skip_whitespace(s, pos);
    if !has_char(s, p, ']') && !(items.len() > 0 && !has_char(s, p, ',')) {
        let q = if items.len() > 0 {
            p + 1
        } else {
            p
        };
        lemma_value_at(s, q, depth);
        lemma_greater_limit(s, q, depth, greater);
        match value_at(s, q, depth) {
            Ok((item, end)) => {
                lemma_greater_limit_in_array(s, end, depth, greater, items.push(item));
            },
            Err(_) => {},
        }
    }
}

/// [`lemma_greater_limit`] for the entries of an object.
pub proof fn lemma_greater_limit_in_object(
    s: Seq<char>,
    pos: int,
    depth: nat,
    greater: nat,
    entries: Seq<(Seq<char>, Json)>,
)
    requires
        0 <= pos <= s.len(),
        depth <= greater,
        within_limit(object_entries(s, pos, depth, entries)),
    ensures
        object_entries(s, pos, greater, entries) == object_entries(s, pos, depth, entries),
    decreases s.len() - pos, 2int,
{
    lemma_skip_whitespace(s, pos);
    let p = skip_whitespace(s, pos);
    if !has_char(s, p, '}') && !(entries.len() > 0 && !has_char(s, p, ',')) {
        let q = if entries.len() > 0 {
            p + 1
        } else {
            p
        };
        lemma_text_at(s, q);
        match text_at(s, q) {
            Ok((key, behind_key)) => {
                lemma_skip_whitespace(s, behind_key);
                let colon = skip_whitespace(s, behind_key);
                if has_char(s, colon, ':') {
                    lemma_value_at(s, colon + 1, depth);
                    lemma_greater_limit(s, colon + 1, depth, greater);
                    match value_at(s, colon + 1, depth) {
                        Ok((value, end)) => {
                            lemma_greater_limit_in_object(
                                s,
                                end,
                                depth,
                                greater,
                                entries.push((key, value)),
                            );
                        },
                        Err(_) => {},
                    }
                }
            },
            Err(_) => {},
        }
    }
}

/// White space in front of a value changes nothing but where it begins.
pub proof fn lemma_leading_whitespace(s: Seq<char>, pos: int, depth: nat)
    requires
        0 <= pos <= s.len(),
    ensures
        value_at(s, pos, depth) == value_at(s, skip_whitespace(s, pos), depth),
{
    lemma_skip_whitespace(s, pos);
}

/// Whether `count` arrays open one inside the other from `pos` on, with
/// nothing but white space between their brackets.
pub open spec fn opens_arrays(s: Seq<char>, pos: int, count: nat) -> bool
    decreases count,
{
    count == 0 || (has_char(s, skip_whitespace(s, pos), '[') && opens_arrays(
        s,
        skip_whitespace(s, pos) + 1,
        (count - 1) as nat,
    ))
}

/// Arrays nested more deeply than the limit allows are refused as too
/// deeply nested, whatever follows them.
pub proof fn lemma_nesting_limit(s: Seq<char>, pos: int, depth: nat, count: nat)
    requires
        0 <= pos <= s.len(),
        count > depth,
        opens_arrays(s, pos, count),
    ensures
        value_at(s, pos, depth) == Err::<(Json, int), Failure>(Failure::TooDeeplyNested),
    decreases depth,
{
    lemma_skip_whitespace(s, pos);
    let p = skip_whitespace(s, pos);
    if depth > 0 {
        let inner = (depth - 1) as nat;
        lemma_skip_whitespace(s, p + 1);
        let q = skip_whitespace(s, p + 1);
        assert(opens_arrays(s, p + 1, (count - 1) as nat));
        assert(has_char(s, q, '['));
        lemma_nesting_limit(s, p + 1, inner, (count - 1) as nat);
        lemma_leading_whitespace(s, p + 1, inner);
        assert(array_items(s, p + 1, inner, Seq::empty()) == Err::<(Seq<Json>, int), Failure>(
            Failure::TooDeeplyNested,
        ));
        assert(array_at(s, p, inner) == Err::<(Json, int), Failure>(Failure::TooDeeplyNested));
    }
}

/// In an array, a comma that a closing bracket follows is refused at that
/// bracket: there is no trailing comma.
pub proof fn lemma_no_trailing_comma_in_array(
    s: Seq<char>,
    pos: int,
    depth: nat,
    items: Seq<Json>,
)
    requires
        0 <= pos <= s.len(),
        items.len() > 0,
        has_char(s, skip_whitespace(s, pos), ','),
        has_char(s, skip_whitespace(s, skip_whitespace(s, pos) + 1), ']'),
    ensures
        array_items(s, pos, depth, items) == Err::<(Seq<Json>, int), Failure>(
            unexpected(s, skip_whitespace(s, skip_whitespace(s, pos) + 1)),
        ),
{
    lemma_skip_whitespace(s, pos);
    let p = skip_whitespace(s, pos);
    lemma_skip_whitespace(s, p + 1);
    let q = skip_whitespace(s, p + 1);
    assert(value_at(s, p + 1, depth) == Err::<(Json, int), Failure>(unexpected(s, q)));
}

/// In an object, a comma that a closing brace follows is refused at that
/// brace: there is no trailing comma.
pub proof fn lemma_no_trailing_comma_in_object(
    s: Seq<char>,
    pos: int,
    depth: nat,
    entries: Seq<(Seq<char>, Json)>,
)
    requires
        0 <= pos <= s.len(),
        entries.len() > 0,
        has_char(s, skip_whitespace(s, pos), ','),
        has_char(s, skip_whitespace(s, skip_whitespace(s, pos) + 1), '}'),
    ensures
        object_entries(s, pos, depth, entries) == Err::<(Seq<(Seq<char>, Json)>, int), Failure>(
            unexpected(s, skip_whitespace(s, skip_whitespace(s, pos) + 1)),
        ),
{
    lemma_skip_whitespace(s, pos);
    let p = skip_whitespace(s, pos);
    lemma_skip_whitespace(s, p + 1);
}

/// `fields` written as one line, with `delimiter` between them.
pub open spec fn joined(fields: Seq<Seq<char>>, delimiter: char) -> Seq<char>
    decreases fields.len(),
{
    if fields.len() == 0 {
        Seq::empty()
    } else if fields.len() == 1 {
        fields[0]
    } else {
        joined(fields.drop_last(), delimiter).push(delimiter) + fields.last()
    }
}

/// Whether `field` holds neither the delimiter nor a quote.
pub open spec fn is_plain(field: Seq<char>, delimiter: char) -> bool {
    forall|i: int| 0 <= i < field.len() ==> #[trigger] field[i] != delimiter && field[i] != '"'
}

/// Each of `fields`, trimmed.
pub open spec fn all_trimmed(fields: Seq<Seq<char>>) -> Seq<Seq<char>> {
    fields.map_values(|field: Seq<char>| trimmed(field))
}

/// A scan of two texts one after the other is a scan of the second that
/// starts where the scan of the first ended.
pub proof fn lemma_scan_in_two(scan: RowScan, first: Seq<char>, second: Seq<char>, delimiter: char)
    ensures
        row_scan(scan, first + second, delimiter) == row_scan(
            row_scan(scan, first, delimiter),
            second,
            delimiter,
        ),
    decreases first.len(),
{
    if first.len() == 0 {
        assert(first + second == second);
    } else {
        assert((first + second).drop_first() == first.drop_first() + second);
        lemma_scan_in_two(
            row_step(scan, first[0], delimiter),
            first.drop_first(),
            second,
            delimiter,
        );
    }
}

/// Outside quotes, a text without delimiter and quote is taken into the
/// current field as it stands.
pub proof fn lemma_scan_plain(scan: RowScan, text: Seq<char>, delimiter: char)
    requires
        !scan.in_quotes,
        !scan.escape_pending,
        is_plain(text, delimiter),
    ensures
        row_scan(scan, text, delimiter) == (RowScan { current: scan.current + text, ..scan }),
    decreases text.len(),
{
    if text.len() == 0 {
        assert(scan.current + text == scan.current);
    } else {
        let next = row_step(scan, text[0], delimiter);
        assert(next == RowScan { current: scan.current.push(text[0]), ..scan });
        assert forall|i: int| 0 <= i < text.drop_first().len() implies #[trigger] text.drop_first()[i]
            != delimiter && text.drop_first()[i] != '"' by {
            assert(text.drop_first()[i] == text[i + 1]);
        }
        lemma_scan_plain(next, text.drop_first(), delimiter);
        assert(scan.current.push(text[0]) + text.drop_first() == scan.current + text);
    }
}

/// The scan of joined fields has closed all but the last of them, and
/// stands in the last.
pub proof fn lemma_scan_joined(fields: Seq<Seq<char>>, delimiter: char)
    requires
        fields.len() >= 1,
        delimiter != '"' || fields.len() == 1,
        forall|i: int| 0 <= i < fields.len() ==> is_plain(#[trigger] fields[i], delimiter),
    ensures
        row_scan(row_start(), joined(fields, delimiter), delimiter) == (RowScan {
            fields: all_trimmed(fields.drop_last()),
            current: fields.last(),
            in_quotes: false,
            escape_pending: false,
        }),
    decreases fields.len(),
{
    if fields.len() == 1 {
        lemma_scan_plain(row_start(), fields[0], delimiter);
        assert(Seq::<char>::empty() + fields[0] == fields[0]);
        assert(all_trimmed(fields.drop_last()) == Seq::<Seq<char>>::empty());
    } else {
        let before = fields.drop_last();
        let head = joined(before, delimiter);
        assert forall|i: int| 0 <= i < before.len() implies is_plain(
            #[trigger] before[i],
            delimiter,
        ) by {
            assert(before[i] == fields[i]);
        }
        lemma_scan_joined(before, delimiter);
        let at_last = row_scan(row_start(), head, delimiter);
        assert(head.push(delimiter) == head + seq![delimiter]);
        lemma_scan_in_two(row_start(), head + seq![delimiter], fields.last(), delimiter);
        lemma_scan_in_two(row_start(), head, seq![delimiter], delimiter);
        let closed = row_step(at_last, delimiter, delimiter);
        assert(row_scan(at_last, seq![delimiter], delimiter) == closed) by {
            assert(seq![delimiter].drop_first() == Seq::<char>::empty());
            assert(seq![delimiter][0] == delimiter);
            assert(row_scan(closed, Seq::<char>::empty(), delimiter) == closed);
        }
        assert(closed == RowScan {
            fields: all_trimmed(before.drop_last()).push(trimmed(before.last())),
            current: Seq::empty(),
            in_quotes: false,
            escape_pending: false,
        });
        assert(all_trimmed(before.drop_last()).push(trimmed(before.last())) == all_trimmed(
            before,
        ));
        lemma_scan_plain(closed, fields.last(), delimiter);
        assert(Seq::<char>::empty() + fields.last() == fields.last());
    }
}

/// Joined fields have at least the length of the last of them, and more
/// where there are several.
pub proof fn lemma_joined_len(fields: Seq<Seq<char>>, delimiter: char)
    requires
        fields.len() >= 1,
    ensures
        joined(fields, delimiter).len() >= fields.last().len(),
        fields.len() >= 2 ==> joined(fields, delimiter).len() > 0,
{
}

/// Fields that hold neither the delimiter nor a quote, joined by the
/// delimiter, come back as they were, each trimmed.
///
/// Two inputs are left out. One empty field joins to the empty line, which
/// has no fields at all. And a quote as the delimiter never separates
/// anything: it opens and closes quotes.
pub proof fn lemma_joined_fields_come_back(fields: Seq<Seq<char>>, delimiter: char)
    requires
        forall|i: int| 0 <= i < fields.len() ==> is_plain(#[trigger] fields[i], delimiter),
        !(fields.len() == 1 && fields[0].len() == 0),
        !(delimiter == '"' && fields.len() >= 2),
    ensures
        row_fields(joined(fields, delimiter), delimiter) == Ok::<Seq<Seq<char>>, Failure>(
            all_trimmed(fields),
        ),
{
    if fields.len() == 0 {
        assert(all_trimmed(fields) == Seq::<Seq<char>>::empty());
    } else {
        lemma_joined_len(fields, delimiter);
        lemma_scan_joined(fields, delimiter);
        assert(all_trimmed(fields.drop_last()).push(trimmed(fields.last())) == all_trimmed(
            fields,
        ));
    }
}

/// How often `c` occurs in a text is how often it occurs behind the first
/// character, and once more where the first character is `c`.
pub proof fn lemma_count_from_front(s: Seq<char>, c: char)
    requires
        s.len() > 0,
    ensures
        count_of(s, c) == count_of(s.drop_first(), c) + if s[0] == c {
            1nat
        } else {
            0nat
        },
    decreases s.len(),
{
    if s.len() == 1 {
        assert(s.drop_last() == Seq::<char>::empty());
        assert(s.drop_first() == Seq::<char>::empty());
    } else {
        lemma_count_from_front(s.drop_last(), c);
        assert(s.drop_last().drop_first() == s.drop_first().drop_last());
    }
}

/// Without quotes, every delimiter closes a field.
pub proof fn lemma_scan_without_quotes(scan: RowScan, text: Seq<char>, delimiter: char)
    requires
        !scan.in_quotes,
        !scan.escape_pending,
        forall|i: int| 0 <= i < text.len() ==> #[trigger] text[i] != '"',
    ensures
        !row_scan(scan, text, delimiter).in_quotes,
        row_scan(scan, text, delimiter).fields.len() == scan.fields.len() + count_of(
            text,
            delimiter,
        ),
    decreases text.len(),
{
    if text.len() > 0 {
        lemma_count_from_front(text, delimiter);
        let next = row_step(scan, text[0], delimiter);
        assert forall|i: int| 0 <= i < text.drop_first().len() implies #[trigger] text.drop_first()[i]
            != '"' by {
            assert(text.drop_first()[i] == text[i + 1]);
        }
        lemma_scan_without_quotes(next, text.drop_first(), delimiter);
    }
}

/// A line without quotes that is not empty has one field more than it has
/// delimiters.
pub proof fn lemma_one_field_more_than_delimiters(line: Seq<char>, delimiter: char)
    requires
        line.len() > 0,
        forall|i: int| 0 <= i < line.len() ==> #[trigger] line[i] != '"',
    ensures
        row_fields(line, delimiter) matches Ok(fields) && fields.len() == count_of(line, delimiter)
            + 1,
{
    lemma_scan_without_quotes(row_start(), line, delimiter);
}

/// Inside quotes, a text without quote and backslash is taken into the
/// current field as it stands, delimiters included.
pub proof fn lemma_scan_quoted(scan: RowScan, text: Seq<char>, delimiter: char)
    requires
        scan.in_quotes,
        !scan.escape_pending,
        forall|i: int| 0 <= i < text.len() ==> #[trigger] text[i] != '"' && text[i] != '\\',
    ensures
        row_scan(scan, text, delimiter) == (RowScan { current: scan.current + text, ..scan }),
    decreases text.len(),
{
    if text.len() == 0 {
        assert(scan.current + text == scan.current);
    } else {
        let next = row_step(scan, text[0], delimiter);
        assert(next == RowScan { current: scan.current.push(text[0]), ..scan });
        assert forall|i: int| 0 <= i < text.drop_first().len() implies #[trigger] text.drop_first()[i]
            != '"' && text.drop_first()[i] != '\\' by {
            assert(text.drop_first()[i] == text[i + 1]);
        }
        lemma_scan_quoted(next, text.drop_first(), delimiter);
        assert(scan.current.push(text[0]) + text.drop_first() == scan.current + text);
    }
}

/// A text in quotes that holds neither quote nor backslash is one field,
/// whatever delimiters it holds: the text, trimmed.
pub proof fn lemma_quoted_field(text: Seq<char>, delimiter: char)
    requires
        forall|i: int| 0 <= i < text.len() ==> #[trigger] text[i] != '"' && text[i] != '\\',
    ensures
        row_fields(seq!['"'] + text + seq!['"'], delimiter) == Ok::<Seq<Seq<char>>, Failure>(
            seq![trimmed(text)],
        ),
{
    let open = seq!['"'];
    let opened = row_step(row_start(), '"', delimiter);
    assert(row_scan(row_start(), open, delimiter) == opened) by {
        assert(open.drop_first() == Seq::<char>::empty());
        assert(open[0] == '"');
        assert(row_scan(opened, Seq::<char>::empty(), delimiter) == opened);
    }
    lemma_scan_in_two(row_start(), open + text, open, delimiter);
    lemma_scan_in_two(row_start(), open, text, delimiter);
    lemma_scan_quoted(opened, text, delimiter);
    assert(Seq::<char>::empty() + text == text);
    let inside = RowScan { current: text, ..opened };
    let closed = row_step(inside, '"', delimiter);
    assert(row_scan(inside, open, delimiter) == closed) by {
        assert(open.drop_first() == Seq::<char>::empty());
        assert(open[0] == '"');
        assert(row_scan(closed, Seq::<char>::empty(), delimiter) == closed);
    }
    assert(Seq::<Seq<char>>::empty().push(trimmed(text)) == seq![trimmed(text)]);
}

} // verus!
