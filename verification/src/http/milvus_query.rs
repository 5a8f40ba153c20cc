//! Filters, keys and confirmations of Milvus.
use crate::convert::{db_value_to_json, is_json_result, json_records, json_to_records, value_json};
use crate::encoding::{json_text, write_json};
use crate::http::common::{
    is_letter, is_one_of, is_records_result, letter, mismatch, mismatch_error,
};
use crate::http::transport::group_pairs;
use crate::json::{
    as_signed, as_unsigned, member, pointer_target, signed_number, signed_of, text, unsigned_of,
};
use crate::model::{
    appended, error_of, failure, framed, invalid, invalid_request, is_text_result, is_texts_result,
    protocol, protocol_failure, unsupported, unsupported_request, ConnectorError, ErrorCategory,
    ErrorModel, Filter,
};
use crate::text::{
    characters, decimal, decimal_text, is_digit, join, joined, names_of, parse_signed,
    signed_decimal, signed_decimal_text, signed_value, texts,
};
use crate::value::{
    copy_values, documents, values, DbRecord, DbValue, Json, JsonModel, RecordModel, ValueModel,
};
use vstd::prelude::*;
use vstd::utf8::encode_utf8;

verus! {

broadcast use {
    crate::text::group_texts,
    crate::value::group_models,
    crate::model::group_entities,
    group_pairs,
};

/// The type of the primary key of a collection.
#[derive(Debug, Clone, Copy, PartialEq, Eq, Structural)]
pub enum MilvusPrimaryKeyType {
    Int64,
    String,
}

/// The document of a primary key.
pub open spec fn key_document(kind: MilvusPrimaryKeyType, id: Seq<char>) -> Result<
    JsonModel,
    ErrorModel,
> {
    match kind {
        MilvusPrimaryKeyType::Int64 => match signed_value(id) {
            Some(number) => Ok(JsonModel::Number(signed_decimal(number as int))),
            None => Err(
                invalid_request("Milvus Int64 primary-key ids must be signed 64-bit integers"@),
            ),
        },
        MilvusPrimaryKeyType::String => Ok(JsonModel::Text(id)),
    }
}

impl MilvusPrimaryKeyType {
    /// The document of a primary key.
    pub fn encode(self, id: &str) -> (result: Result<Json, ConnectorError>)
        ensures
            is_json_result(result, key_document(self, id@)),
    {
        match self {
            MilvusPrimaryKeyType::Int64 => match parse_signed(id) {
                Some(number) => Ok(signed_number(number)),
                None => Err(
                    invalid("Milvus Int64 primary-key ids must be signed 64-bit integers"),
                ),
            },
            MilvusPrimaryKeyType::String => Ok(text(id)),
        }
    }
}

/// The category of a failure that the server numbers.
pub open spec fn code_category(code: i64) -> ErrorCategory {
    if code == 401 || code == 1800 {
        ErrorCategory::Authentication
    } else if code == 403 {
        ErrorCategory::PermissionDenied
    } else if code == 404 {
        ErrorCategory::NotFound
    } else {
        ErrorCategory::Protocol
    }
}

/// The error of an answer that does not say that the request succeeded.
pub open spec fn answer_error(answer: JsonModel) -> Option<ErrorModel> {
    match signed_of(member(answer, "code"@)) {
        None => Some(mismatch("Milvus response omitted numeric code"@)),
        Some(code) => if code == 0 {
            None
        } else {
            Some(
                ErrorModel {
                    code: Some(signed_decimal(code as int)),
                    ..failure(
                        code_category(code),
                        "Milvus REST request failed with code "@ + signed_decimal(code as int),
                    )
                },
            )
        },
    }
}

/// Refuses an answer that does not say that the request succeeded.
pub fn check_milvus_response(answer: &Json) -> (result: Result<(), ConnectorError>)
    ensures
        error_of(result) == answer_error(answer@),
{
    let code: i64 = match as_signed(answer.get("code")) {
        None => {
            return Err(mismatch_error("Milvus response omitted numeric code"));
        },
        Some(code) => code,
    };
    if code == 0 {
        return Ok(());
    }
    let category = if code == 401 || code == 1800 {
        ErrorCategory::Authentication
    } else if code == 403 {
        ErrorCategory::PermissionDenied
    } else if code == 404 {
        ErrorCategory::NotFound
    } else {
        ErrorCategory::Protocol
    };
    let number = signed_decimal_text(code);
    let message = appended("Milvus REST request failed with code ", number.as_str());
    Err(ConnectorError::new(category, message.as_str()).with_code(number.as_str()))
}

/// How many records an answer confirms: as many as were sent, or the outcome is unknown.
pub open spec fn confirmed_count(
    answer: JsonModel,
    pointer: Seq<char>,
    expected: u64,
    operation: Seq<char>,
) -> Result<u64, ErrorModel> {
    match unsigned_of(pointer_target(answer, pointer)) {
        None => Err(
            failure(
                ErrorCategory::UnknownOutcome,
                "Milvus "@ + operation + " response did not confirm the affected count"@,
            ),
        ),
        Some(affected) => if affected != expected {
            Err(
                failure(
                    ErrorCategory::UnknownOutcome,
                    "Milvus "@ + operation + " confirmed "@ + decimal(affected as nat) + " of "@
                        + decimal(expected as nat)
                        + " requested item(s); the remaining outcome is unknown"@,
                ),
            )
        } else {
            Ok(affected)
        },
    }
}

/// Reads how many records an answer confirms.
pub fn confirmed_milvus_write_count(
    answer: &Json,
    pointer: &str,
    expected: u64,
    operation: &str,
) -> (result: Result<u64, ConnectorError>)
    ensures
        match (result, confirmed_count(answer@, pointer@, expected, operation@)) {
            (Ok(count), Ok(wanted)) => count == wanted,
            (Err(error), Err(wanted)) => error@ == wanted,
            _ => false,
        },
{
    let affected: u64 = match as_unsigned(answer.pointer(pointer)) {
        None => {
            let message = framed(
                "Milvus ",
                operation,
                " response did not confirm the affected count",
            );
            return Err(ConnectorError::new(ErrorCategory::UnknownOutcome, message.as_str()));
        },
        Some(affected) => affected,
    };
    if affected != expected {
        let confirmed = decimal_text(affected);
        let requested = decimal_text(expected);
        let message = framed("Milvus ", operation, " confirmed ");
        let message = framed(message.as_str(), confirmed.as_str(), " of ");
        let message = framed(
            message.as_str(),
            requested.as_str(),
            " requested item(s); the remaining outcome is unknown",
        );
        return Err(ConnectorError::new(ErrorCategory::UnknownOutcome, message.as_str()));
    }
    Ok(affected)
}

/// A batch counts as written only where the answer confirms every record of it; everything else
/// leaves the outcome unknown.
pub proof fn lemma_batches_are_confirmed_whole(
    answer: JsonModel,
    pointer: Seq<char>,
    expected: u64,
    operation: Seq<char>,
)
    ensures
        confirmed_count(answer, pointer, expected, operation) is Ok <==> unsigned_of(
            pointer_target(answer, pointer),
        ) == Some(expected),
        confirmed_count(answer, pointer, expected, operation) matches Err(error) ==> error.category
            == ErrorCategory::UnknownOutcome,
{
}

/// The records of an answer: a list of rows, or a list of a single list of rows.
pub open spec fn data_records(answer: JsonModel) -> Result<Seq<RecordModel>, ErrorModel> {
    match member(answer, "data"@) {
        None => Err(protocol_failure("Milvus response omitted data"@)),
        Some(JsonModel::Array(rows)) => if rows.len() == 1 && rows[0] is Array {
            Ok(json_records(rows[0]->Array_0))
        } else {
            Ok(json_records(rows))
        },
        Some(_) => Err(protocol_failure("Milvus data was not an array"@)),
    }
}

/// Reads the records of an answer.
pub fn milvus_records(answer: &Json) -> (result: Result<Vec<DbRecord>, ConnectorError>)
    ensures
        is_records_result(result, data_records(answer@)),
{
    match answer.get("data") {
        None => Err(protocol("Milvus response omitted data")),
        Some(Json::Array(rows)) => {
            if rows.len() == 1 {
                assert(documents(rows@)[0] == rows@[0]@);
                match &rows[0] {
                    Json::Array(inner) => {
                        return Ok(json_to_records(inner));
                    },
                    _ => {},
                }
            }
            Ok(json_to_records(rows))
        },
        Some(_) => Err(protocol("Milvus data was not an array")),
    }
}

/// Whether a character may stand in a field's name behind the first.
pub open spec fn is_field_char(c: char) -> bool {
    c == '_' || c == '.' || is_letter(c) || is_digit(c)
}

/// Whether a text names a field.
pub open spec fn is_field(name: Seq<char>) -> bool {
    &&& name.len() > 0
    &&& name[0] == '_' || is_letter(name[0])
    &&& forall|i: int| 0 <= i < name.len() ==> is_field_char(#[trigger] name[i])
}

/// The error of a text that names no field.
pub open spec fn field_error(name: Seq<char>) -> Option<ErrorModel> {
    if is_field(name) {
        None
    } else {
        Some(invalid_request("invalid Milvus field name"@))
    }
}

/// Whether a text names a field.
fn names_field(name: &str) -> (result: bool)
    ensures
        result == is_field(name@),
{
    let chars = characters(name);
    if chars.len() == 0 || !(chars[0] == '_' || letter(chars[0])) {
        return false;
    }
    let mut i: usize = 0;
    while i < chars.len()
        invariant
            i <= chars@.len(),
            chars@ == name@,
            forall|j: int| 0 <= j < i ==> is_field_char(#[trigger] name@[j]),
        decreases chars@.len() - i,
    {
        let c = chars[i];
        if !(c == '_' || c == '.' || letter(c) || ('0' <= c && c <= '9')) {
            assert(!is_field_char(name@[i as int]));
            return false;
        }
        i = i + 1;
    }
    true
}

/// Refuses a text that names no field.
pub fn validate_milvus_field(name: &str) -> (result: Result<(), ConnectorError>)
    ensures
        error_of(result) == field_error(name@),
{
    if names_field(name) {
        Ok(())
    } else {
        Err(invalid("invalid Milvus field name"))
    }
}

/// The text of a value within an expression.
pub open spec fn value_text(value: ValueModel) -> Result<Seq<char>, ErrorModel> {
    match value_json(value) {
        Err(error) => Err(error),
        Ok(document) => match json_text(document) {
            Some(text) => Ok(text),
            None => Err(invalid_request("filter value could not be encoded"@)),
        },
    }
}

/// The text of a value within an expression.
fn write_value(value: &DbValue) -> (result: Result<String, ConnectorError>)
    ensures
        is_text_result(result, value_text(value@)),
{
    match db_value_to_json(value) {
        Err(error) => Err(error),
        Ok(document) => match write_json(&document) {
            Some(text) => Ok(text),
            None => Err(invalid("filter value could not be encoded")),
        },
    }
}

/// A comparison of a field with a value.
pub open spec fn comparison(field: Seq<char>, operator: Seq<char>, value: ValueModel) -> Result<
    Seq<char>,
    ErrorModel,
> {
    match field_error(field) {
        Some(error) => Err(error),
        None => match value_text(value) {
            Err(error) => Err(error),
            Ok(text) => Ok(field + " "@ + operator + " "@ + text),
        },
    }
}

/// The texts of values within an expression; the error of the first that has one.
pub open spec fn value_texts(list: Seq<ValueModel>) -> Result<Seq<Seq<char>>, ErrorModel>
    decreases list.len(),
{
    if list.len() == 0 {
        Ok(Seq::empty())
    } else {
        match value_texts(list.drop_last()) {
            Err(error) => Err(error),
            Ok(before) => match value_text(list.last()) {
                Err(error) => Err(error),
                Ok(text) => Ok(before.push(text)),
            },
        }
    }
}

/// The expression of a filter.
pub open spec fn expression(filter: Filter) -> Result<Seq<char>, ErrorModel>
    decreases filter,
{
    match filter {
        Filter::Eq { field, value } => comparison(field@, "=="@, value@),
        Filter::Ne { field, value } => comparison(field@, "!="@, value@),
        Filter::Lt { field, value } => comparison(field@, "<"@, value@),
        Filter::Lte { field, value } => comparison(field@, "<="@, value@),
        Filter::Gt { field, value } => comparison(field@, ">"@, value@),
        Filter::Gte { field, value } => comparison(field@, ">="@, value@),
        Filter::In { field, values: list } => match field_error(field@) {
            Some(error) => Err(error),
            None => match value_texts(values(list@)) {
                Err(error) => Err(error),
                Ok(parts) => Ok(field@ + " in ["@ + joined(parts, ","@) + "]"@),
            },
        },
        Filter::And { filters } => match expressions(filters@) {
            Err(error) => Err(error),
            Ok(parts) => Ok("("@ + joined(parts, " and "@) + ")"@),
        },
        Filter::Or { filters } => match expressions(filters@) {
            Err(error) => Err(error),
            Ok(parts) => Ok("("@ + joined(parts, " or "@) + ")"@),
        },
        Filter::Not { filter } => match expression(*filter) {
            Err(error) => Err(error),
            Ok(inner) => Ok("not ("@ + inner + ")"@),
        },
        Filter::Contains { field, value } => Err(
            unsupported_request(
                "generic contains filters do not have an unambiguous Milvus expression mapping"@,
            ),
        ),
    }
}

/// The expressions of filters; the error of the first that has one.
pub open spec fn expressions(filters: Seq<Filter>) -> Result<Seq<Seq<char>>, ErrorModel>
    decreases filters,
{
    if filters.len() == 0 {
        Ok(Seq::empty())
    } else {
        match expressions(filters.subrange(0, filters.len() - 1)) {
            Err(error) => Err(error),
            Ok(before) => match expression(filters[filters.len() - 1]) {
                Err(error) => Err(error),
                Ok(last) => Ok(before.push(last)),
            },
        }
    }
}

/// Where some first filters have an error, all of them have that one.
proof fn lemma_expressions_fail_early(filters: Seq<Filter>, count: int)
    requires
        0 <= count <= filters.len(),
        expressions(filters.subrange(0, count)) is Err,
    ensures
        expressions(filters) == expressions(filters.subrange(0, count)),
    decreases filters.len(),
{
    if count == filters.len() {
        assert(filters.subrange(0, count) =~= filters);
    } else {
        let shorter = filters.subrange(0, filters.len() - 1);
        assert(shorter.subrange(0, count) =~= filters.subrange(0, count));
        lemma_expressions_fail_early(shorter, count);
    }
}

/// Where some first values have an error, all of them have that one.
proof fn lemma_value_texts_fail_early(list: Seq<ValueModel>, count: int)
    requires
        0 <= count <= list.len(),
        value_texts(list.subrange(0, count)) is Err,
    ensures
        value_texts(list) == value_texts(list.subrange(0, count)),
    decreases list.len(),
{
    if count == list.len() {
        assert(list.subrange(0, count) =~= list);
    } else {
        assert(list.drop_last().subrange(0, count) =~= list.subrange(0, count));
        lemma_value_texts_fail_early(list.drop_last(), count);
    }
}

/// Writes a comparison of a field with a value.
fn write_comparison(field: &str, operator: &str, value: &DbValue) -> (result: Result<
    String,
    ConnectorError,
>)
    ensures
        is_text_result(result, comparison(field@, operator@, value@)),
{
    match validate_milvus_field(field) {
        Err(error) => {
            return Err(error);
        },
        Ok(()) => {},
    }
    match write_value(value) {
        Err(error) => Err(error),
        Ok(text) => {
            let start = framed(field, " ", operator);
            Ok(framed(start.as_str(), " ", text.as_str()))
        },
    }
}

/// Writes the texts of values within an expression.
fn write_values(list: &Vec<DbValue>) -> (result: Result<Vec<String>, ConnectorError>)
    ensures
        is_texts_result(result, value_texts(values(list@))),
{
    let ghost all = values(list@);
    let mut parts: Vec<String> = Vec::new();
    let mut i: usize = 0;
    assert(all.subrange(0, 0) =~= Seq::<ValueModel>::empty());
    while i < list.len()
        invariant
            i <= list@.len(),
            all == values(list@),
            value_texts(all.subrange(0, i as int)) == Ok::<Seq<Seq<char>>, ErrorModel>(
                texts(parts@),
            ),
        decreases list@.len() - i,
    {
        assert(all.subrange(0, i + 1).drop_last() =~= all.subrange(0, i as int));
        match write_value(&list[i]) {
            Err(error) => {
                proof {
                    lemma_value_texts_fail_early(all, i + 1);
                }
                return Err(error);
            },
            Ok(text) => {
                parts.push(text);
            },
        }
        i = i + 1;
    }
    assert(all.subrange(0, i as int) =~= all);
    Ok(parts)
}

/// Writes the expression of a filter.
pub fn milvus_filter(filter: &Filter) -> (result: Result<String, ConnectorError>)
    ensures
        is_text_result(result, expression(*filter)),
    decreases filter,
{
    match filter {
        Filter::Eq { field, value } => write_comparison(field.as_str(), "==", value),
        Filter::Ne { field, value } => write_comparison(field.as_str(), "!=", value),
        Filter::Lt { field, value } => write_comparison(field.as_str(), "<", value),
        Filter::Lte { field, value } => write_comparison(field.as_str(), "<=", value),
        Filter::Gt { field, value } => write_comparison(field.as_str(), ">", value),
        Filter::Gte { field, value } => write_comparison(field.as_str(), ">=", value),
        Filter::In { field, values } => {
            match validate_milvus_field(field.as_str()) {
                Err(error) => {
                    return Err(error);
                },
                Ok(()) => {},
            }
            match write_values(values) {
                Err(error) => Err(error),
                Ok(parts) => {
                    let inner = join(&parts, ",");
                    let start = appended(field.as_str(), " in [");
                    Ok(framed(start.as_str(), inner.as_str(), "]"))
                },
            }
        },
        Filter::And { filters } => match milvus_filters(filters) {
            Err(error) => Err(error),
            Ok(parts) => {
                let inner = join(&parts, " and ");
                Ok(framed("(", inner.as_str(), ")"))
            },
        },
        Filter::Or { filters } => match milvus_filters(filters) {
            Err(error) => Err(error),
            Ok(parts) => {
                let inner = join(&parts, " or ");
                Ok(framed("(", inner.as_str(), ")"))
            },
        },
        Filter::Not { filter } => match milvus_filter(filter) {
            Err(error) => Err(error),
            Ok(inner) => Ok(framed("not (", inner.as_str(), ")")),
        },
        Filter::Contains { .. } => Err(
            unsupported(
                "generic contains filters do not have an unambiguous Milvus expression mapping",
            ),
        ),
    }
}

/// Writes the expressions of filters.
fn milvus_filters(filters: &Vec<Filter>) -> (result: Result<Vec<String>, ConnectorError>)
    ensures
        is_texts_result(result, expressions(filters@)),
    decreases filters,
{
    let ghost all = filters@;
    let mut parts: Vec<String> = Vec::new();
    let mut i: usize = 0;
    assert(all.subrange(0, 0) =~= Seq::<Filter>::empty());
    while i < filters.len()
        invariant
            i <= filters@.len(),
            all == filters@,
            expressions(all.subrange(0, i as int)) == Ok::<Seq<Seq<char>>, ErrorModel>(
                texts(parts@),
            ),
        decreases filters@.len() - i,
    {
        let filter = &filters[i];
        assert(decreases_to!(filters => *filter));
        let ghost next = all.subrange(0, i + 1);
        assert(next.subrange(0, next.len() - 1) =~= all.subrange(0, i as int));
        match milvus_filter(filter) {
            Err(error) => {
                proof {
                    lemma_expressions_fail_early(all, i + 1);
                }
                return Err(error);
            },
            Ok(part) => {
                parts.push(part);
            },
        }
        i = i + 1;
    }
    assert(all.subrange(0, i as int) =~= all);
    Ok(parts)
}

/// Whether a value can be a primary key.
pub open spec fn is_key(value: ValueModel) -> bool {
    value is Int64 || value is UInt64 || value is String || value is Uuid
}

/// The text of a primary key within an expression.
pub open spec fn key_text(value: ValueModel) -> Result<Seq<char>, ErrorModel> {
    match json_text(value_json(value)->Ok_0) {
        Some(text) => Ok(text),
        None => Err(invalid_request("Milvus primary key could not be encoded"@)),
    }
}

/// The values that a filter on one of some fields names.
pub open spec fn key_values(filter: Filter, fields: Seq<Seq<char>>) -> Option<Seq<ValueModel>> {
    match filter {
        Filter::Eq { field, value } if fields.contains(field@) => Some(Seq::empty().push(value@)),
        Filter::In { field, values: list } if fields.contains(field@) => Some(values(list@)),
        _ => None,
    }
}

/// The primary keys that a filter names.
pub open spec fn filter_keys(filter: Filter, fields: Seq<Seq<char>>) -> Result<
    Seq<ValueModel>,
    ErrorModel,
> {
    match key_values(filter, fields) {
        None => Err(
            unsupported_request(
                "bounded Milvus delete requires an equality or IN filter on the primary key"@,
            ),
        ),
        Some(list) => if exists|i: int| 0 <= i < list.len() && !is_key(#[trigger] list[i]) {
            Err(invalid_request("Milvus primary keys must be integers, strings, or UUIDs"@))
        } else {
            Ok(list)
        },
    }
}

/// Refuses values that cannot be primary keys.
fn check_keys(list: &Vec<DbValue>) -> (result: Result<(), ConnectorError>)
    ensures
        error_of(result) == (if exists|i: int|
            0 <= i < list@.len() && !is_key(#[trigger] values(list@)[i]) {
            Some(invalid_request("Milvus primary keys must be integers, strings, or UUIDs"@))
        } else {
            None
        }),
{
    let ghost all = values(list@);
    let mut i: usize = 0;
    while i < list.len()
        invariant
            i <= list@.len(),
            all == values(list@),
            forall|j: int| 0 <= j < i ==> is_key(#[trigger] all[j]),
        decreases list@.len() - i,
    {
        assert(all[i as int] == list@[i as int]@);
        match &list[i] {
            DbValue::Int64(_) | DbValue::UInt64(_) | DbValue::String(_) | DbValue::Uuid(_) => {},
            _ => {
                assert(!is_key(values(list@)[i as int]));
                return Err(
                    invalid("Milvus primary keys must be integers, strings, or UUIDs"),
                );
            },
        }
        i = i + 1;
    }
    Ok(())
}

/// The primary keys that a filter names.
pub fn milvus_primary_keys(filter: &Filter, fields: &[&str]) -> (result: Result<
    Vec<DbValue>,
    ConnectorError,
>)
    ensures
        match (result, filter_keys(*filter, names_of(fields@))) {
            (Ok(keys), Ok(wanted)) => values(keys@) == wanted,
            (Err(error), Err(wanted)) => error@ == wanted,
            _ => false,
        },
{
    let mut keys: Vec<DbValue> = Vec::new();
    let mut named = false;
    match filter {
        Filter::Eq { field, value } => {
            if is_one_of(field.as_str(), fields) {
                keys.push(value.copy());
                named = true;
            }
        },
        Filter::In { field, values } => {
            if is_one_of(field.as_str(), fields) {
                keys = copy_values(values);
                named = true;
            }
        },
        _ => {},
    }
    if !named {
        return Err(
            unsupported(
                "bounded Milvus delete requires an equality or IN filter on the primary key",
            ),
        );
    }
    let ghost list = values(keys@);
    assert(key_values(*filter, names_of(fields@)) == Some(list));
    assert(list.len() == keys@.len());
    match check_keys(&keys) {
        Err(error) => Err(error),
        Ok(()) => Ok(keys),
    }
}

} // verus!
