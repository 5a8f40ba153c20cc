//! Splunk's search language.
use crate::budget::smaller;
use crate::convert::{db_value_to_json, json_record, json_to_record, value_json};
use crate::encoding::{json_text, parsed_json, read_json, write_json};
use crate::http::common::{is_letter, is_one_of, letter, target_error, validate_target};
use crate::json::{as_text, find, member, optional_json, text, text_of};
use crate::model::{
    appended, error_of, failure, framed, invalid, invalid_request, is_text_result, is_texts_result,
    unsupported, unsupported_request, ConnectorError, ErrorCategory, ErrorModel, Filter,
    ReadRequest, SearchRequest, SortDirection, SortField,
};
use crate::text::{
    characters, decimal, decimal_text, has_char, is_digit, is_space_char, join, joined, lower,
    names_of, optional_text, owned_optional, slice_text, space_char, texts, to_lower, trim,
    trim_leading, trim_trailing, trimmed, without_leading, without_trailing_char,
};
use crate::value::{
    named, values, with_entry, DbRecord, DbValue, Json, JsonModel, RecordModel, ValueModel,
};
use vstd::prelude::*;
use vstd::string::StringExecFns;
use vstd::utf8::encode_utf8;

verus! {

broadcast use {crate::text::group_texts, crate::value::group_models};

/// Where a text stands within quotation marks.
pub struct Quoting {
    /// The mark that opened the quotation.
    pub mark: Option<char>,
    /// Whether the next character of the quotation is taken as it is.
    pub escaped: bool,
}

/// Whether a text ends within quotation marks.
pub open spec fn quoting(text: Seq<char>) -> Quoting
    decreases text.len(),
{
    if text.len() == 0 {
        Quoting { mark: None, escaped: false }
    } else {
        let before = quoting(text.drop_last());
        let c = text.last();
        if before.escaped {
            Quoting { escaped: false, ..before }
        } else if c == '\\' && before.mark is Some {
            Quoting { escaped: true, ..before }
        } else if c == '\'' || c == '"' {
            if before.mark == Some(c) {
                Quoting { mark: None, ..before }
            } else if before.mark is None {
                Quoting { mark: Some(c), ..before }
            } else {
                before
            }
        } else {
            before
        }
    }
}

/// Whether the character at a place stands outside of quotation marks.
pub open spec fn is_plain(text: Seq<char>, at: int) -> bool {
    let before = quoting(text.subrange(0, at));
    before.mark is None && !before.escaped
}

/// Whether a pipeline goes on with another command at a place.
pub open spec fn is_separator(text: Seq<char>, at: int) -> bool {
    text[at] == '|' && is_plain(text, at)
}

/// Where the command starts that a place belongs to.
pub open spec fn segment_start(text: Seq<char>, at: int) -> int
    decreases at,
{
    if at <= 0 {
        0
    } else if is_separator(text, at - 1) {
        at
    } else {
        segment_start(text, at - 1)
    }
}

/// Whether a character may stand before a command.
pub open spec fn is_blank(c: char) -> bool {
    is_space_char(c) || c == '[' || c == ']'
}

/// A text without what may stand before a command.
pub open spec fn without_blank(text: Seq<char>) -> Seq<char>
    decreases text.len(),
{
    if text.len() > 0 && is_blank(text[0]) {
        without_blank(text.subrange(1, text.len() as int))
    } else {
        text
    }
}

/// Whether a character ends the name of a command.
pub open spec fn ends_name(c: char) -> bool {
    is_space_char(c) || c == '('
}

/// The start of a text up to the end of a command's name.
pub open spec fn first_word(text: Seq<char>) -> Seq<char>
    decreases text.len(),
{
    if text.len() == 0 || ends_name(text[0]) {
        Seq::empty()
    } else {
        seq![text[0]] + first_word(text.subrange(1, text.len() as int))
    }
}

/// The command of a part of a pipeline.
pub open spec fn command_of(segment: Seq<char>) -> Seq<char> {
    lower(first_word(without_blank(segment)))
}

/// The commands that change something.
pub open spec fn mutating_commands() -> Seq<Seq<char>> {
    names_of(
        [
            "collect",
            "delete",
            "dump",
            "mcollect",
            "map",
            "meventcollect",
            "outputcsv",
            "outputlookup",
            "runshellscript",
            "savedsearch",
            "script",
            "sendalert",
            "sendemail",
            "tscollect",
        ]@,
    )
}

/// The error of a part of a pipeline whose command changes something.
pub open spec fn segment_error(segment: Seq<char>) -> Option<ErrorModel> {
    let command = command_of(segment);
    if mutating_commands().contains(command) {
        Some(
            failure(
                ErrorCategory::PermissionDenied,
                "SPL command "@ + command + " is not allowed in a read operation"@,
            ),
        )
    } else {
        None
    }
}

/// The error that a place of a query gives: a macro, or the end of a command that changes
/// something.
pub open spec fn offence_at(text: Seq<char>, at: int) -> Option<ErrorModel> {
    if text[at] == '`' && is_plain(text, at) {
        Some(
            failure(
                ErrorCategory::PermissionDenied,
                "SPL macros are not allowed in a native read because their expansion cannot be verified"@,
            ),
        )
    } else if is_separator(text, at) {
        segment_error(text.subrange(segment_start(text, at), at))
    } else {
        None
    }
}

/// The first error before a place of a query.
pub open spec fn offence_before(text: Seq<char>, end: int) -> Option<ErrorModel>
    decreases end,
{
    if end <= 0 {
        None
    } else {
        match offence_before(text, end - 1) {
            Some(error) => Some(error),
            None => offence_at(text, end - 1),
        }
    }
}

/// The error of a query that does more than read.
pub open spec fn spl_error(text: Seq<char>) -> Option<ErrorModel> {
    let end = text.len() as int;
    match offence_before(text, end) {
        Some(error) => Some(error),
        None => if quoting(text).mark is Some {
            Some(invalid_request("SPL query contains an unterminated quoted string"@))
        } else {
            segment_error(text.subrange(segment_start(text, end), end))
        },
    }
}

/// Where some first places give an error, all of them give that one.
proof fn lemma_offence_stays(text: Seq<char>, end: int, later: int)
    requires
        0 <= end <= later,
        offence_before(text, end) is Some,
    ensures
        offence_before(text, later) == offence_before(text, end),
    decreases later,
{
    if later > end {
        lemma_offence_stays(text, end, later - 1);
    }
}

/// The first word of a text is its start up to the first character that ends it.
proof fn lemma_first_word(text: Seq<char>, length: int)
    requires
        0 <= length <= text.len(),
        forall|i: int| 0 <= i < length ==> !ends_name(#[trigger] text[i]),
        length < text.len() ==> ends_name(text[length]),
    ensures
        first_word(text) == text.subrange(0, length),
    decreases text.len(),
{
    if length == 0 {
        assert(text.subrange(0, 0) =~= Seq::<char>::empty());
    } else {
        let rest = text.subrange(1, text.len() as int);
        assert(!ends_name(text[0]));
        assert forall|i: int| 0 <= i < length - 1 implies !ends_name(#[trigger] rest[i]) by {
            assert(rest[i] == text[i + 1]);
        }
        lemma_first_word(rest, length - 1);
        assert(seq![text[0]] + rest.subrange(0, length - 1) =~= text.subrange(0, length));
    }
}

/// The command of a part of a pipeline.
fn read_command(segment: &Vec<char>) -> (result: String)
    ensures
        result@ == command_of(segment@),
{
    let mut start: usize = 0;
    assert(segment@.subrange(0, segment@.len() as int) =~= segment@);
    while start < segment.len() && (space_char(segment[start]) || segment[start] == '['
        || segment[start] == ']')
        invariant
            start <= segment@.len(),
            without_blank(segment@) == without_blank(
                segment@.subrange(start as int, segment@.len() as int),
            ),
        decreases segment@.len() - start,
    {
        let ghost rest = segment@.subrange(start as int, segment@.len() as int);
        assert(rest[0] == segment@[start as int]);
        assert(rest.subrange(1, rest.len() as int) =~= segment@.subrange(
            start + 1,
            segment@.len() as int,
        ));
        start = start + 1;
    }
    let ghost rest = segment@.subrange(start as int, segment@.len() as int);
    assert(rest.len() > 0 ==> rest[0] == segment@[start as int]);
    assert(without_blank(rest) == rest);
    let mut end: usize = start;
    while end < segment.len() && !(space_char(segment[end]) || segment[end] == '(')
        invariant
            start <= end <= segment@.len(),
            rest == segment@.subrange(start as int, segment@.len() as int),
            forall|i: int| 0 <= i < end - start ==> !ends_name(#[trigger] rest[i]),
        decreases segment@.len() - end,
    {
        assert(rest[end - start] == segment@[end as int]);
        end = end + 1;
    }
    proof {
        if end < segment@.len() {
            assert(rest[end - start] == segment@[end as int]);
        }
        lemma_first_word(rest, end - start);
        assert(rest.subrange(0, end - start) =~= segment@.subrange(start as int, end as int));
    }
    let word = slice_text(segment, start, end);
    to_lower(word.as_str())
}

/// Refuses a part of a pipeline whose command changes something.
pub fn validate_spl_segment(segment: &Vec<char>) -> (result: Result<(), ConnectorError>)
    ensures
        error_of(result) == segment_error(segment@),
{
    let command = read_command(segment);
    if is_one_of(
        command.as_str(),
        &[
            "collect",
            "delete",
            "dump",
            "mcollect",
            "map",
            "meventcollect",
            "outputcsv",
            "outputlookup",
            "runshellscript",
            "savedsearch",
            "script",
            "sendalert",
            "sendemail",
            "tscollect",
        ],
    ) {
        let message = framed(
            "SPL command ",
            command.as_str(),
            " is not allowed in a read operation",
        );
        Err(ConnectorError::new(ErrorCategory::PermissionDenied, message.as_str()))
    } else {
        Ok(())
    }
}

/// The characters between two places.
fn part(chars: &Vec<char>, from: usize, to: usize) -> (result: Vec<char>)
    requires
        from <= to <= chars@.len(),
    ensures
        result@ == chars@.subrange(from as int, to as int),
{
    let mut result: Vec<char> = Vec::new();
    let mut i: usize = from;
    while i < to
        invariant
            from <= i <= to <= chars@.len(),
            result@ == chars@.subrange(from as int, i as int),
        decreases to - i,
    {
        result.push(chars[i]);
        assert(chars@.subrange(from as int, i + 1) =~= chars@.subrange(from as int, i as int).push(
            chars@[i as int],
        ));
        i = i + 1;
    }
    result
}

/// Refuses a query that does more than read: commands that change something, and macros, which
/// may hold any command.
pub fn validate_read_only_spl(spl: &str) -> (result: Result<(), ConnectorError>)
    ensures
        error_of(result) == spl_error(spl@),
{
    let chars = characters(spl);
    let mut quoted: Option<char> = None;
    let mut escaped = false;
    let mut start: usize = 0;
    let mut i: usize = 0;
    assert(spl@.subrange(0, 0) =~= Seq::<char>::empty());
    while i < chars.len()
        invariant
            i <= chars@.len(),
            chars@ == spl@,
            quoting(spl@.subrange(0, i as int)) == (Quoting { mark: quoted, escaped }),
            escaped ==> quoted is Some,
            start <= i,
            start == segment_start(spl@, i as int),
            offence_before(spl@, i as int) is None,
        decreases chars@.len() - i,
    {
        let c = chars[i];
        let ghost next = spl@.subrange(0, i + 1);
        assert(next.drop_last() =~= spl@.subrange(0, i as int));
        assert(next.last() == c);
        if escaped {
            escaped = false;
        } else if c == '\\' && quoted.is_some() {
            escaped = true;
        } else if c == '\'' || c == '"' {
            match quoted {
                Some(mark) => {
                    if mark == c {
                        quoted = None;
                    }
                },
                None => {
                    quoted = Some(c);
                },
            }
        } else if c == '`' && quoted.is_none() {
            proof {
                lemma_offence_stays(spl@, i + 1, spl@.len() as int);
            }
            return Err(
                ConnectorError::new(
                    ErrorCategory::PermissionDenied,
                    "SPL macros are not allowed in a native read because their expansion cannot be verified",
                ),
            );
        } else if c == '|' && quoted.is_none() {
            let segment = part(&chars, start, i);
            match validate_spl_segment(&segment) {
                Err(error) => {
                    proof {
                        lemma_offence_stays(spl@, i + 1, spl@.len() as int);
                    }
                    return Err(error);
                },
                Ok(()) => {},
            }
            start = i + 1;
        }
        i = i + 1;
    }
    assert(spl@.subrange(0, i as int) =~= spl@);
    if quoted.is_some() {
        return Err(invalid("SPL query contains an unterminated quoted string"));
    }
    let segment = part(&chars, start, chars.len());
    validate_spl_segment(&segment)
}

/// An accepted query changes nothing: it holds no macro outside of quotation marks, and none of
/// its commands is one that changes something.
pub proof fn lemma_accepted_searches_only_read(text: Seq<char>, at: int)
    requires
        spl_error(text) is None,
        0 <= at <= text.len(),
    ensures
        at < text.len() && is_plain(text, at) ==> text[at] != '`',
        at == text.len() || is_separator(text, at) ==> !mutating_commands().contains(
            command_of(text.subrange(segment_start(text, at), at)),
        ),
{
    if at < text.len() {
        if offence_before(text, at + 1) is Some {
            lemma_offence_stays(text, at + 1, text.len() as int);
        }
        assert(offence_at(text, at) is None);
    }
}

/// Whether a character may stand in a field's name.
pub open spec fn is_field_char(c: char) -> bool {
    c == '_' || c == '.' || c == ':' || is_letter(c) || is_digit(c)
}

/// Whether a text names a field.
pub open spec fn is_field(name: Seq<char>) -> bool {
    name.len() > 0 && forall|i: int| 0 <= i < name.len() ==> is_field_char(#[trigger] name[i])
}

/// The error of a text that names no field.
pub open spec fn field_error(name: Seq<char>) -> Option<ErrorModel> {
    if is_field(name) {
        None
    } else {
        Some(invalid_request("invalid Splunk field name"@))
    }
}

/// Whether a text names a field.
fn names_field(name: &str) -> (result: bool)
    ensures
        result == is_field(name@),
{
    let chars = characters(name);
    if chars.len() == 0 {
        return false;
    }
    let mut i: usize = 0;
    while i < chars.len()
        invariant
            i <= chars@.len(),
            chars@ == name@,
            forall|j: int| 0 <= j < i ==> is_field_char(#[trigger] name@[j]),
        decreases chars@.len() - i,
    {
        let c = chars[i];
        if !(c == '_' || c == '.' || c == ':' || letter(c) || ('0' <= c && c <= '9')) {
            assert(!is_field_char(name@[i as int]));
            return false;
        }
        i = i + 1;
    }
    true
}

/// Refuses a text that names no field.
pub fn validate_spl_field(name: &str) -> (result: Result<(), ConnectorError>)
    ensures
        error_of(result) == field_error(name@),
{
    if names_field(name) {
        Ok(())
    } else {
        Err(invalid("invalid Splunk field name"))
    }
}

/// The text of a value within a query.
pub open spec fn value_text(value: ValueModel) -> Result<Seq<char>, ErrorModel> {
    match value_json(value) {
        Err(error) => Err(error),
        Ok(document) => match json_text(document) {
            Some(text) => Ok(text),
            None => Err(invalid_request("SPL filter value could not be encoded"@)),
        },
    }
}

/// The text of a value within a query.
fn spl_value(value: &DbValue) -> (result: Result<String, ConnectorError>)
    ensures
        is_text_result(result, value_text(value@)),
{
    match db_value_to_json(value) {
        Err(error) => Err(error),
        Ok(document) => match write_json(&document) {
            Some(text) => Ok(text),
            None => Err(invalid("SPL filter value could not be encoded")),
        },
    }
}

/// A text in quotation marks.
pub open spec fn quoted_text(content: Seq<char>) -> Seq<char> {
    match json_text(JsonModel::Text(content)) {
        Some(text) => text,
        None => "\"\""@,
    }
}

/// A text in quotation marks.
fn spl_string(content: &str) -> (result: String)
    ensures
        result@ == quoted_text(content@),
{
    match write_json(&text(content)) {
        Some(text) => text,
        None => "\"\"".to_owned(),
    }
}

/// A comparison of a field with a value.
pub open spec fn comparison(field: Seq<char>, operator: Seq<char>, value: ValueModel) -> Result<
    Seq<char>,
    ErrorModel,
> {
    match field_error(field) {
        Some(error) => Err(error),
        None => match value_text(value) {
            Err(error) => Err(error),
            Ok(text) => Ok(field + operator + text),
        },
    }
}

/// A text without the marks at its ends.
pub open spec fn without_marks(text: Seq<char>, mark: char) -> Seq<char> {
    without_leading(without_trailing_char(text, mark), mark)
}

/// Comparisons of a field with values; the error of the first that has one.
pub open spec fn comparisons(field: Seq<char>, list: Seq<ValueModel>) -> Result<
    Seq<Seq<char>>,
    ErrorModel,
>
    decreases list.len(),
{
    if list.len() == 0 {
        Ok(Seq::empty())
    } else {
        match comparisons(field, list.drop_last()) {
            Err(error) => Err(error),
            Ok(before) => match comparison(field, "="@, list.last()) {
                Err(error) => Err(error),
                Ok(part) => Ok(before.push(part)),
            },
        }
    }
}

/// The search expression of a filter.
pub open spec fn expression(filter: Filter) -> Result<Seq<char>, ErrorModel>
    decreases filter,
{
    match filter {
        Filter::Eq { field, value } => comparison(field@, "="@, value@),
        Filter::Ne { field, value } => comparison(field@, "!="@, value@),
        Filter::Lt { field, value } => comparison(field@, "<"@, value@),
        Filter::Lte { field, value } => comparison(field@, "<="@, value@),
        Filter::Gt { field, value } => comparison(field@, ">"@, value@),
        Filter::Gte { field, value } => comparison(field@, ">="@, value@),
        Filter::Contains { field, value } => match field_error(field@) {
            Some(error) => Err(error),
            None => match value_text(value@) {
                Err(error) => Err(error),
                Ok(text) => Ok(field@ + "=\"*"@ + without_marks(text, '"') + "*\""@),
            },
        },
        Filter::In { field, values: list } => match field_error(field@) {
            Some(error) => Err(error),
            None => match comparisons(field@, values(list@)) {
                Err(error) => Err(error),
                Ok(parts) => Ok("("@ + joined(parts, " OR "@) + ")"@),
            },
        },
        Filter::And { filters } => match expressions(filters@) {
            Err(error) => Err(error),
            Ok(parts) => Ok("("@ + joined(parts, " AND "@) + ")"@),
        },
        Filter::Or { filters } => match expressions(filters@) {
            Err(error) => Err(error),
            Ok(parts) => Ok("("@ + joined(parts, " OR "@) + ")"@),
        },
        Filter::Not { filter } => match expression(*filter) {
            Err(error) => Err(error),
            Ok(inner) => Ok("NOT ("@ + inner + ")"@),
        },
    }
}

/// The search expressions of filters; the error of the first that has one.
pub open spec fn expressions(filters: Seq<Filter>) -> Result<Seq<Seq<char>>, ErrorModel>
    decreases filters,
{
    if filters.len() == 0 {
        Ok(Seq::empty())
    } else {
        match expressions(filters.subrange(0, filters.len() - 1)) {
            Err(error) => Err(error),
            Ok(before) => match expression(filters[filters.len() - 1]) {
                Err(error) => Err(error),
                Ok(last) => Ok(before.push(last)),
            },
        }
    }
}

/// Where some first filters have an error, all of them have that one.
proof fn lemma_expressions_fail_early(filters: Seq<Filter>, count: int)
    requires
        0 <= count <= filters.len(),
        expressions(filters.subrange(0, count)) is Err,
    ensures
        expressions(filters) == expressions(filters.subrange(0, count)),
    decreases filters.len(),
{
    if count == filters.len() {
        assert(filters.subrange(0, count) =~= filters);
    } else {
        let shorter = filters.subrange(0, filters.len() - 1);
        assert(shorter.subrange(0, count) =~= filters.subrange(0, count));
        lemma_expressions_fail_early(shorter, count);
    }
}

/// Where some first values have an error, all of them have that one.
proof fn lemma_comparisons_fail_early(field: Seq<char>, list: Seq<ValueModel>, count: int)
    requires
        0 <= count <= list.len(),
        comparisons(field, list.subrange(0, count)) is Err,
    ensures
        comparisons(field, list) == comparisons(field, list.subrange(0, count)),
    decreases list.len(),
{
    if count == list.len() {
        assert(list.subrange(0, count) =~= list);
    } else {
        assert(list.drop_last().subrange(0, count) =~= list.subrange(0, count));
        lemma_comparisons_fail_early(field, list.drop_last(), count);
    }
}

/// Writes a comparison of a field with a value.
fn write_comparison(field: &str, operator: &str, value: &DbValue) -> (result: Result<
    String,
    ConnectorError,
>)
    ensures
        is_text_result(result, comparison(field@, operator@, value@)),
{
    match validate_spl_field(field) {
        Err(error) => {
            return Err(error);
        },
        Ok(()) => {},
    }
    match spl_value(value) {
        Err(error) => Err(error),
        Ok(text) => Ok(framed(field, operator, text.as_str())),
    }
}

/// Writes comparisons of a field with values.
fn write_comparisons(field: &str, list: &Vec<DbValue>) -> (result: Result<
    Vec<String>,
    ConnectorError,
>)
    ensures
        is_texts_result(result, comparisons(field@, values(list@))),
{
    let ghost all = values(list@);
    let mut parts: Vec<String> = Vec::new();
    let mut i: usize = 0;
    assert(all.subrange(0, 0) =~= Seq::<ValueModel>::empty());
    while i < list.len()
        invariant
            i <= list@.len(),
            all == values(list@),
            comparisons(field@, all.subrange(0, i as int)) == Ok::<Seq<Seq<char>>, ErrorModel>(
                texts(parts@),
            ),
        decreases list@.len() - i,
    {
        assert(all.subrange(0, i + 1).drop_last() =~= all.subrange(0, i as int));
        match write_comparison(field, "=", &list[i]) {
            Err(error) => {
                proof {
                    lemma_comparisons_fail_early(field@, all, i + 1);
                }
                return Err(error);
            },
            Ok(part) => {
                parts.push(part);
            },
        }
        i = i + 1;
    }
    assert(all.subrange(0, i as int) =~= all);
    Ok(parts)
}

/// Writes the search expression of a filter.
pub fn spl_filter(filter: &Filter) -> (result: Result<String, ConnectorError>)
    ensures
        is_text_result(result, expression(*filter)),
    decreases filter,
{
    match filter {
        Filter::Eq { field, value } => write_comparison(field.as_str(), "=", value),
        Filter::Ne { field, value } => write_comparison(field.as_str(), "!=", value),
        Filter::Lt { field, value } => write_comparison(field.as_str(), "<", value),
        Filter::Lte { field, value } => write_comparison(field.as_str(), "<=", value),
        Filter::Gt { field, value } => write_comparison(field.as_str(), ">", value),
        Filter::Gte { field, value } => write_comparison(field.as_str(), ">=", value),
        Filter::Contains { field, value } => {
            match validate_spl_field(field.as_str()) {
                Err(error) => {
                    return Err(error);
                },
                Ok(()) => {},
            }
            match spl_value(value) {
                Err(error) => Err(error),
                Ok(text) => {
                    let open = trim_trailing(text.as_str(), '"');
                    let inner = trim_leading(open.as_str(), '"');
                    let start = appended(field.as_str(), "=\"*");
                    Ok(framed(start.as_str(), inner.as_str(), "*\""))
                },
            }
        },
        Filter::In { field, values } => {
            match validate_spl_field(field.as_str()) {
                Err(error) => {
                    return Err(error);
                },
                Ok(()) => {},
            }
            match write_comparisons(field.as_str(), values) {
                Err(error) => Err(error),
                Ok(parts) => {
                    let inner = join(&parts, " OR ");
                    Ok(framed("(", inner.as_str(), ")"))
                },
            }
        },
        Filter::And { filters } => match spl_filters(filters) {
            Err(error) => Err(error),
            Ok(parts) => {
                let inner = join(&parts, " AND ");
                Ok(framed("(", inner.as_str(), ")"))
            },
        },
        Filter::Or { filters } => match spl_filters(filters) {
            Err(error) => Err(error),
            Ok(parts) => {
                let inner = join(&parts, " OR ");
                Ok(framed("(", inner.as_str(), ")"))
            },
        },
        Filter::Not { filter } => match spl_filter(filter) {
            Err(error) => Err(error),
            Ok(inner) => Ok(framed("NOT (", inner.as_str(), ")")),
        },
    }
}

/// Writes the search expressions of filters.
fn spl_filters(filters: &Vec<Filter>) -> (result: Result<Vec<String>, ConnectorError>)
    ensures
        is_texts_result(result, expressions(filters@)),
    decreases filters,
{
    let ghost all = filters@;
    let mut parts: Vec<String> = Vec::new();
    let mut i: usize = 0;
    assert(all.subrange(0, 0) =~= Seq::<Filter>::empty());
    while i < filters.len()
        invariant
            i <= filters@.len(),
            all == filters@,
            expressions(all.subrange(0, i as int)) == Ok::<Seq<Seq<char>>, ErrorModel>(
                texts(parts@),
            ),
        decreases filters@.len() - i,
    {
        let filter = &filters[i];
        assert(decreases_to!(filters => *filter));
        let ghost next = all.subrange(0, i + 1);
        assert(next.subrange(0, next.len() - 1) =~= all.subrange(0, i as int));
        match spl_filter(filter) {
            Err(error) => {
                proof {
                    lemma_expressions_fail_early(all, i + 1);
                }
                return Err(error);
            },
            Ok(part) => {
                parts.push(part);
            },
        }
        i = i + 1;
    }
    assert(all.subrange(0, i as int) =~= all);
    Ok(parts)
}

/// What fields a query sorts by; the error of the first that is no field.
pub open spec fn sort_parts(list: Seq<SortField>) -> Result<Seq<Seq<char>>, ErrorModel>
    decreases list.len(),
{
    if list.len() == 0 {
        Ok(Seq::empty())
    } else {
        match sort_parts(list.drop_last()) {
            Err(error) => Err(error),
            Ok(before) => match field_error(list.last().field@) {
                Some(error) => Err(error),
                None => Ok(
                    before.push(
                        (match list.last().direction {
                            SortDirection::Asc => "+"@,
                            SortDirection::Desc => "-"@,
                        }) + list.last().field@,
                    ),
                ),
            },
        }
    }
}

/// Where some first fields have an error, all of them have that one.
proof fn lemma_sort_fails_early(list: Seq<SortField>, count: int)
    requires
        0 <= count <= list.len(),
        sort_parts(list.subrange(0, count)) is Err,
    ensures
        sort_parts(list) == sort_parts(list.subrange(0, count)),
    decreases list.len(),
{
    if count == list.len() {
        assert(list.subrange(0, count) =~= list);
    } else {
        assert(list.drop_last().subrange(0, count) =~= list.subrange(0, count));
        lemma_sort_fails_early(list.drop_last(), count);
    }
}

/// A query with a command that sorts its results.
pub open spec fn with_sort(spl: Seq<char>, sort: Seq<SortField>) -> Result<Seq<char>, ErrorModel> {
    if sort.len() == 0 {
        Ok(spl)
    } else {
        match sort_parts(sort) {
            Err(error) => Err(error),
            Ok(parts) => Ok(spl + " | sort 0 "@ + joined(parts, ","@)),
        }
    }
}

/// Adds a command to a query that sorts its results.
fn append_spl_sort(spl: String, sort: &Vec<SortField>) -> (result: Result<String, ConnectorError>)
    ensures
        is_text_result(result, with_sort(spl@, sort@)),
{
    if sort.len() == 0 {
        return Ok(spl);
    }
    let ghost all = sort@;
    let mut parts: Vec<String> = Vec::new();
    let mut i: usize = 0;
    assert(all.subrange(0, 0) =~= Seq::<SortField>::empty());
    while i < sort.len()
        invariant
            i <= sort@.len(),
            all == sort@,
            all.len() > 0,
            sort_parts(all.subrange(0, i as int)) == Ok::<Seq<Seq<char>>, ErrorModel>(
                texts(parts@),
            ),
        decreases sort@.len() - i,
    {
        assert(all.subrange(0, i + 1).drop_last() =~= all.subrange(0, i as int));
        match validate_spl_field(sort[i].field.as_str()) {
            Err(error) => {
                proof {
                    lemma_sort_fails_early(all, i + 1);
                }
                return Err(error);
            },
            Ok(()) => {},
        }
        let direction = match sort[i].direction {
            SortDirection::Asc => "+",
            SortDirection::Desc => "-",
        };
        parts.push(appended(direction, sort[i].field.as_str()));
        i = i + 1;
    }
    assert(all.subrange(0, i as int) =~= all);
    let fields = join(&parts, ",");
    Ok(framed(spl.as_str(), " | sort 0 ", fields.as_str()))
}

/// The error of texts of which one names no field.
pub open spec fn fields_error(fields: Seq<Seq<char>>) -> Option<ErrorModel> {
    if exists|i: int| 0 <= i < fields.len() && !is_field(#[trigger] fields[i]) {
        Some(invalid_request("invalid Splunk field name"@))
    } else {
        None
    }
}

/// Refuses texts of which one names no field.
fn validate_fields(fields: &Vec<String>) -> (result: Result<(), ConnectorError>)
    ensures
        error_of(result) == fields_error(texts(fields@)),
{
    let ghost all = texts(fields@);
    let mut i: usize = 0;
    while i < fields.len()
        invariant
            i <= fields@.len(),
            all == texts(fields@),
            forall|j: int| 0 <= j < i ==> is_field(#[trigger] all[j]),
        decreases fields@.len() - i,
    {
        assert(all[i as int] == fields@[i as int]@);
        match validate_spl_field(fields[i].as_str()) {
            Err(error) => {
                assert(!is_field(all[i as int]));
                return Err(error);
            },
            Ok(()) => {},
        }
        i = i + 1;
    }
    Ok(())
}

/// The query of a read: the events of an index, filtered, sorted, cut to the wanted fields, and
/// one more than is shown.
pub open spec fn read_spl(request: ReadRequest, limit: int) -> Result<Seq<char>, ErrorModel> {
    match target_error(request.target@) {
        Some(error) => Err(error),
        None => if request.options.cursor is Some {
            Err(
                unsupported_request("Splunk oneshot reads do not provide a stable cursor"@),
            )
        } else {
            let start = "search index="@ + quoted_text(request.target@);
            let filtered = match request.filter {
                None => Ok(start),
                Some(filter) => match expression(filter) {
                    Err(error) => Err(error),
                    Ok(text) => Ok(start.push(' ') + text),
                },
            };
            match filtered {
                Err(error) => Err(error),
                Ok(filtered) => match with_sort(filtered, request.options.sort@) {
                    Err(error) => Err(error),
                    Ok(sorted) => match fields_error(texts(request.fields@)) {
                        Some(error) => Err(error),
                        None => {
                            let cut = if request.fields@.len() == 0 {
                                sorted
                            } else {
                                sorted + " | fields "@ + joined(texts(request.fields@), ","@)
                            };
                            Ok(cut + " | head "@ + decimal(smaller(limit + 1, usize::MAX as int) as nat))
                        },
                    },
                },
            }
        },
    }
}

/// Writes the query of a read.
pub fn splunk_read_spl(request: &ReadRequest, limit: usize) -> (result: Result<
    String,
    ConnectorError,
>)
    ensures
        is_text_result(result, read_spl(*request, limit as int)),
{
    match validate_target(request.target.as_str()) {
        Err(error) => {
            return Err(error);
        },
        Ok(()) => {},
    }
    if request.options.cursor.is_some() {
        return Err(unsupported("Splunk oneshot reads do not provide a stable cursor"));
    }
    let target = spl_string(request.target.as_str());
    let mut spl = appended("search index=", target.as_str());
    match &request.filter {
        None => {},
        Some(filter) => match spl_filter(filter) {
            Err(error) => {
                return Err(error);
            },
            Ok(text) => {
                spl.push(' ');
                spl.append(text.as_str());
            },
        },
    }
    let mut spl = match append_spl_sort(spl, &request.options.sort) {
        Err(error) => {
            return Err(error);
        },
        Ok(spl) => spl,
    };
    match validate_fields(&request.fields) {
        Err(error) => {
            return Err(error);
        },
        Ok(()) => {},
    }
    if request.fields.len() > 0 {
        let fields = join(&request.fields, ",");
        spl.append(" | fields ");
        spl.append(fields.as_str());
    }
    let amount = decimal_text(limit.saturating_add(1) as u64);
    spl.append(" | head ");
    spl.append(amount.as_str());
    Ok(spl)
}

/// Whether a text is a search expression and nothing more.
pub open spec fn is_search_expression(query: Seq<char>) -> bool {
    &&& trimmed(query).len() > 0
    &&& !query.contains('|')
    &&& !query.contains('[')
    &&& !query.contains(']')
    &&& !query.contains('`')
}

/// A search expression within an index.
pub open spec fn scoped_search(target: Seq<char>, query: Seq<char>) -> Result<Seq<char>, ErrorModel> {
    if is_search_expression(query) {
        Ok("search index="@ + quoted_text(target) + " | search "@ + query)
    } else {
        Err(
            invalid_request(
                "structured Splunk search must be a non-empty search expression without pipelines, subsearches, or macros"@,
            ),
        )
    }
}

/// Writes a search expression within an index.
fn scoped_splunk_search(target: &str, query: &str) -> (result: Result<String, ConnectorError>)
    ensures
        is_text_result(result, scoped_search(target@, query@)),
{
    let trimmed = trim(query);
    if trimmed.as_str().is_empty() || has_char(query, '|') || has_char(query, '[') || has_char(
        query,
        ']',
    ) || has_char(query, '`') {
        return Err(
            invalid(
                "structured Splunk search must be a non-empty search expression without pipelines, subsearches, or macros",
            ),
        );
    }
    let quoted = spl_string(target);
    let start = framed("search index=", quoted.as_str(), " | search ");
    Ok(appended(start.as_str(), query))
}

/// The query of a search with the times between which it searches.
pub struct SplunkQuery {
    pub spl: String,
    pub earliest: Option<String>,
    pub latest: Option<String>,
}

/// What a [`SplunkQuery`] is.
pub struct QueryModel {
    pub spl: Seq<char>,
    pub earliest: Option<Seq<char>>,
    pub latest: Option<Seq<char>>,
}

impl View for SplunkQuery {
    type V = QueryModel;

    open spec fn view(&self) -> QueryModel {
        QueryModel {
            spl: self.spl@,
            earliest: optional_text(self.earliest),
            latest: optional_text(self.latest),
        }
    }
}

/// The query of a search in the product's own form: an expression, or an object that holds one.
pub open spec fn search_query(request: SearchRequest) -> Result<QueryModel, ErrorModel> {
    match target_error(request.target@) {
        Some(error) => Err(error),
        None => if request.options.cursor is Some {
            Err(
                unsupported_request("Splunk oneshot searches do not provide a stable cursor"@),
            )
        } else {
            let query = match request.query@ {
                JsonModel::Text(query) => Ok(query),
                JsonModel::Object(list) => match text_of(named(list, "spl"@)) {
                    Some(query) => Ok(query),
                    None => Err(
                        invalid_request("Splunk search object requires a spl search expression"@),
                    ),
                },
                _ => Err(invalid_request("Splunk search query must be a string or object"@)),
            };
            match query {
                Err(error) => Err(error),
                Ok(query) => match scoped_search(request.target@, query) {
                    Err(error) => Err(error),
                    Ok(scoped) => match with_sort(scoped, request.options.sort@) {
                        Err(error) => Err(error),
                        Ok(spl) => Ok(
                            QueryModel {
                                spl,
                                earliest: text_of(member(request.query@, "earliest_time"@)),
                                latest: text_of(member(request.query@, "latest_time"@)),
                            },
                        ),
                    },
                },
            }
        },
    }
}

/// Writes the query of a search in the product's own form.
pub fn splunk_search_request(request: &SearchRequest) -> (result: Result<
    SplunkQuery,
    ConnectorError,
>)
    ensures
        match (result, search_query(*request)) {
            (Ok(query), Ok(wanted)) => query@ == wanted,
            (Err(error), Err(wanted)) => error@ == wanted,
            _ => false,
        },
{
    match validate_target(request.target.as_str()) {
        Err(error) => {
            return Err(error);
        },
        Ok(()) => {},
    }
    if request.options.cursor.is_some() {
        return Err(unsupported("Splunk oneshot searches do not provide a stable cursor"));
    }
    let query = match &request.query {
        Json::Text(query) => query.as_str(),
        Json::Object(list) => match as_text(find(list, "spl")) {
            Some(query) => query,
            None => {
                return Err(invalid("Splunk search object requires a spl search expression"));
            },
        },
        _ => {
            return Err(invalid("Splunk search query must be a string or object"));
        },
    };
    let scoped = match scoped_splunk_search(request.target.as_str(), query) {
        Err(error) => {
            return Err(error);
        },
        Ok(scoped) => scoped,
    };
    match append_spl_sort(scoped, &request.options.sort) {
        Err(error) => Err(error),
        Ok(spl) => Ok(
            SplunkQuery {
                spl,
                earliest: owned_optional(as_text(request.query.get("earliest_time"))),
                latest: owned_optional(as_text(request.query.get("latest_time"))),
            },
        ),
    }
}

/// A record with the entries of another of whose names it has none.
pub open spec fn with_absent(record: RecordModel, other: RecordModel) -> RecordModel
    decreases other.len(),
{
    if other.len() == 0 {
        record
    } else {
        let before = with_absent(record, other.drop_last());
        if named(before, other.last().0) is None {
            with_entry(before, other.last().0, other.last().1)
        } else {
            before
        }
    }
}

/// The record of a result with the fields of its raw event, where that is an object.
pub open spec fn with_raw(result: JsonModel, raw: Option<JsonModel>) -> RecordModel {
    match raw {
        Some(JsonModel::Object(list)) => with_absent(
            json_record(result),
            json_record(JsonModel::Object(list)),
        ),
        _ => json_record(result),
    }
}

/// The record of a result.
pub open spec fn result_record(result: JsonModel) -> RecordModel {
    with_raw(
        result,
        match text_of(member(result, "_raw"@)) {
            Some(raw) => parsed_json(encode_utf8(raw)),
            None => None,
        },
    )
}

/// Reads the record of a result with the fields of its raw event.
pub fn merge_raw(result: &Json, raw: Option<&Json>) -> (record: DbRecord)
    ensures
        record@ == with_raw(result@, optional_json(raw)),
{
    let mut record = json_to_record(result);
    let raw = match raw {
        None => {
            return record;
        },
        Some(raw) => raw,
    };
    match raw {
        Json::Object(_) => {},
        _ => {
            return record;
        },
    }
    let other = json_to_record(raw);
    let ghost initial = record@;
    let ghost all = other@;
    let mut i: usize = 0;
    assert(all.subrange(0, 0) =~= RecordModel::empty());
    while i < other.len()
        invariant
            i <= other@.len(),
            all == other@,
            record@ == with_absent(initial, all.subrange(0, i as int)),
        decreases other@.len() - i,
    {
        assert(all.subrange(0, i + 1).drop_last() =~= all.subrange(0, i as int));
        let name = other.name_at(i);
        if record.get(name).is_none() {
            record.insert(name.to_owned(), other.value_at(i).copy());
        }
        i = i + 1;
    }
    assert(all.subrange(0, i as int) =~= all);
    record
}

/// Reads the record of a result.
pub fn splunk_result_record(result: &Json) -> (record: DbRecord)
    ensures
        record@ == result_record(result@),
{
    match as_text(result.get("_raw")) {
        None => merge_raw(result, None),
        Some(raw) => {
            let document = read_json(raw.as_bytes());
            match &document {
                Some(document) => merge_raw(result, Some(document)),
                None => merge_raw(result, None),
            }
        },
    }
}

} // verus!
