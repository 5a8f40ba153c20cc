//! Database values as JSON documents, and JSON documents as database values.
use crate::encoding::{json_number, parse_json_number};
use crate::json::{
    number, read_signed, read_unsigned, signed_notation, signed_number, unsigned_notation,
};
use crate::model::{
    invalid, invalid_request, protocol, protocol_failure, ConnectorError, ErrorModel,
};
use crate::text::{decimal, signed_decimal};
use crate::value::{
    documents, doubles, members, record_of, records, values, DbRecord, DbValue, Double, DoubleModel,
    Json, JsonModel, RecordModel, ValueModel,
};
use vstd::prelude::*;

verus! {

broadcast use crate::value::group_models;

/// How a number is read that is no 64-bit integer.
#[derive(Debug, Clone, Copy, PartialEq, Eq, Structural)]
pub enum NumberStyle {
    /// As a double-precision number.
    Double,
    /// As a decimal with its notation.
    Decimal,
}

/// The value of a number.
pub open spec fn number_value(style: NumberStyle, notation: Seq<char>) -> ValueModel {
    match signed_notation(notation) {
        Some(value) => ValueModel::Int64(value),
        None => match unsigned_notation(notation) {
            Some(value) => ValueModel::UInt64(value),
            None => match style {
                NumberStyle::Double => ValueModel::Float64(DoubleModel::Finite(notation)),
                NumberStyle::Decimal => ValueModel::Decimal(notation),
            },
        },
    }
}

/// The value of a document.
pub open spec fn json_value(style: NumberStyle, document: JsonModel) -> ValueModel
    decreases document,
{
    match document {
        JsonModel::Null => ValueModel::Null,
        JsonModel::Bool(value) => ValueModel::Bool(value),
        JsonModel::Number(notation) => number_value(style, notation),
        JsonModel::Text(value) => ValueModel::String(value),
        JsonModel::Array(items) => ValueModel::Array(
            Seq::new(
                items.len(),
                |i: int|
                    if 0 <= i < items.len() {
                        json_value(style, items[i])
                    } else {
                        ValueModel::Null
                    },
            ),
        ),
        JsonModel::Object(members) => ValueModel::Document(
            record_of(json_entries(style, members)),
        ),
    }
}

/// The values of some documents.
pub open spec fn json_values(style: NumberStyle, items: Seq<JsonModel>) -> Seq<ValueModel> {
    Seq::new(items.len(), |i: int| json_value(style, items[i]))
}

/// The entries of an object's members.
pub open spec fn json_entries(
    style: NumberStyle,
    members: Seq<(Seq<char>, JsonModel)>,
) -> Seq<(Seq<char>, ValueModel)>
    decreases members,
{
    if members.len() == 0 {
        Seq::empty()
    } else {
        json_entries(style, members.subrange(0, members.len() - 1)).push(
            (members[members.len() - 1].0, json_value(style, members[members.len() - 1].1)),
        )
    }
}

/// The value of an array is the array of the values of its items.
pub broadcast proof fn lemma_array_json_value(style: NumberStyle, items: Seq<JsonModel>)
    ensures
        #[trigger] json_value(style, JsonModel::Array(items)) == ValueModel::Array(
            json_values(style, items),
        ),
{
    assert(json_value(style, JsonModel::Array(items))->Array_0 =~= json_values(style, items));
}

/// Reads a document as a value.
pub fn json_to_db_value(style: NumberStyle, document: &Json) -> (result: DbValue)
    ensures
        result@ == json_value(style, document@),
    decreases document,
{
    broadcast use lemma_array_json_value;

    match document {
        Json::Null => DbValue::Null,
        Json::Bool(value) => DbValue::Bool(*value),
        Json::Number(notation) => match read_signed(notation.as_str()) {
            Some(value) => DbValue::Int64(value),
            None => match read_unsigned(notation.as_str()) {
                Some(value) => DbValue::UInt64(value),
                None => match style {
                    NumberStyle::Double => DbValue::Float64(Double::Finite(notation.clone())),
                    NumberStyle::Decimal => DbValue::Decimal(notation.clone()),
                },
            },
        },
        Json::Text(value) => DbValue::String(value.clone()),
        Json::Array(items) => DbValue::Array(json_to_db_values(style, items)),
        Json::Object(members) => DbValue::Document(members_to_record(style, members)),
    }
}

/// Reads documents as values.
fn json_to_db_values(style: NumberStyle, items: &Vec<Json>) -> (result: Vec<DbValue>)
    ensures
        values(result@) == json_values(style, documents(items@)),
    decreases items,
{
    let mut result: Vec<DbValue> = Vec::new();
    let mut i: usize = 0;
    while i < items.len()
        invariant
            i <= items@.len(),
            result@.len() == i,
            forall|j: int|
                0 <= j < i ==> (#[trigger] result@[j])@ == json_value(style, items@[j]@),
        decreases items@.len() - i,
    {
        let item = &items[i];
        assert(decreases_to!(items => *item));
        result.push(json_to_db_value(style, item));
        i = i + 1;
    }
    assert(values(result@) =~= json_values(style, documents(items@)));
    result
}

/// Reads an object's members as a record.
pub fn members_to_record(style: NumberStyle, list: &Vec<(String, Json)>) -> (result: DbRecord)
    ensures
        result@ == record_of(json_entries(style, members(list@))),
    decreases list,
{
    let ghost all = members(list@);
    let mut result = DbRecord::new();
    let mut i: usize = 0;
    assert(all.subrange(0, 0) =~= Seq::<(Seq<char>, JsonModel)>::empty());
    while i < list.len()
        invariant
            i <= list@.len(),
            all == members(list@),
            result@ == record_of(json_entries(style, all.subrange(0, i as int))),
        decreases list@.len() - i,
    {
        let item = &list[i];
        assert(decreases_to!(list => item.1));
        let ghost next = all.subrange(0, i + 1);
        assert(next.subrange(0, next.len() - 1) =~= all.subrange(0, i as int));
        assert(next[next.len() - 1] == (item.0@, item.1@));
        result.insert(item.0.clone(), json_to_db_value(style, &item.1));
        i = i + 1;
    }
    assert(all.subrange(0, i as int) =~= all);
    result
}

/// The record of a document: its members, or the document under the name `value`.
pub open spec fn json_record(document: JsonModel) -> RecordModel {
    match document {
        JsonModel::Object(members) => record_of(json_entries(NumberStyle::Double, members)),
        _ => record_of(seq![("value"@, json_value(NumberStyle::Double, document))]),
    }
}

/// Reads a document as a record.
pub fn json_to_record(document: &Json) -> (result: DbRecord)
    ensures
        result@ == json_record(document@),
{
    match document {
        Json::Object(members) => members_to_record(NumberStyle::Double, members),
        _ => {
            let mut record = DbRecord::new();
            record.insert("value".to_owned(), json_to_db_value(NumberStyle::Double, document));
            record
        },
    }
}

/// The records of some documents.
pub open spec fn json_records(items: Seq<JsonModel>) -> Seq<RecordModel> {
    Seq::new(items.len(), |i: int| json_record(items[i]))
}

/// Reads documents as records.
pub fn json_to_records(items: &Vec<Json>) -> (result: Vec<DbRecord>)
    ensures
        records(result@) == json_records(documents(items@)),
{
    let mut result: Vec<DbRecord> = Vec::new();
    let mut i: usize = 0;
    while i < items.len()
        invariant
            i <= items@.len(),
            result@.len() == i,
            forall|j: int| 0 <= j < i ==> (#[trigger] result@[j])@ == json_record(items@[j]@),
        decreases items@.len() - i,
    {
        result.push(json_to_record(&items[i]));
        i = i + 1;
    }
    assert(records(result@) =~= json_records(documents(items@)));
    result
}

/// The record of a row that a database returned as JSON: it must be an object.
pub open spec fn row_result(document: JsonModel) -> Result<RecordModel, ErrorModel> {
    match document {
        JsonModel::Object(members) => Ok(record_of(json_entries(NumberStyle::Decimal, members))),
        _ => Err(protocol_failure("database returned a non-object row"@)),
    }
}

/// Reads a row that a database returned as JSON.
pub fn row_to_record(document: &Json) -> (result: Result<DbRecord, ConnectorError>)
    ensures
        match (result, row_result(document@)) {
            (Ok(record), Ok(wanted)) => record@ == wanted,
            (Err(error), Err(wanted)) => error@ == wanted,
            _ => false,
        },
{
    match document {
        Json::Object(members) => Ok(members_to_record(NumberStyle::Decimal, members)),
        _ => Err(protocol("database returned a non-object row")),
    }
}

/// The document of a value: `None` where a number is not finite, which JSON cannot say.
pub open spec fn value_json(value: ValueModel) -> Result<JsonModel, ErrorModel>
    decreases value,
{
    match value {
        ValueModel::Null => Ok(JsonModel::Null),
        ValueModel::Bool(value) => Ok(JsonModel::Bool(value)),
        ValueModel::Int64(value) => Ok(JsonModel::Number(signed_decimal(value as int))),
        ValueModel::UInt64(value) => Ok(JsonModel::Number(decimal(value as nat))),
        ValueModel::Float64(value) => match value {
            DoubleModel::Finite(notation) => Ok(JsonModel::Number(notation)),
            _ => Err(invalid_request("JSON cannot encode NaN or infinity"@)),
        },
        ValueModel::Decimal(value) => Ok(JsonModel::Text(value)),
        ValueModel::String(value) => Ok(JsonModel::Text(value)),
        ValueModel::Date(value) => Ok(JsonModel::Text(value)),
        ValueModel::Time(value) => Ok(JsonModel::Text(value)),
        ValueModel::DateTime(value) => Ok(JsonModel::Text(value)),
        ValueModel::Uuid(value) => Ok(JsonModel::Text(value)),
        ValueModel::Binary(value) => Ok(JsonModel::Text(value)),
        ValueModel::Array(items) => match values_json(items) {
            Ok(items) => Ok(JsonModel::Array(items)),
            Err(error) => Err(error),
        },
        ValueModel::Document(entries) => match entries_json(entries) {
            Ok(members) => Ok(JsonModel::Object(members)),
            Err(error) => Err(error),
        },
        ValueModel::Vector(items) => match vector_json(items) {
            Ok(items) => Ok(JsonModel::Array(items)),
            Err(error) => Err(error),
        },
    }
}

/// The documents of some values; the error of the first that has one.
pub open spec fn values_json(items: Seq<ValueModel>) -> Result<Seq<JsonModel>, ErrorModel>
    decreases items,
{
    if items.len() == 0 {
        Ok(Seq::empty())
    } else {
        match values_json(items.subrange(0, items.len() - 1)) {
            Err(error) => Err(error),
            Ok(before) => match value_json(items[items.len() - 1]) {
                Err(error) => Err(error),
                Ok(last) => Ok(before.push(last)),
            },
        }
    }
}

/// The members of a record; the error of the first value that has one.
pub open spec fn entries_json(entries: RecordModel) -> Result<
    Seq<(Seq<char>, JsonModel)>,
    ErrorModel,
>
    decreases entries,
{
    if entries.len() == 0 {
        Ok(Seq::empty())
    } else {
        match entries_json(entries.subrange(0, entries.len() - 1)) {
            Err(error) => Err(error),
            Ok(before) => match value_json(entries[entries.len() - 1].1) {
                Err(error) => Err(error),
                Ok(last) => Ok(before.push((entries[entries.len() - 1].0, last))),
            },
        }
    }
}

/// The documents of a vector's elements, which must all be finite.
pub open spec fn vector_json(items: Seq<DoubleModel>) -> Result<Seq<JsonModel>, ErrorModel> {
    if exists|i: int| 0 <= i < items.len() && !(#[trigger] items[i] is Finite) {
        Err(invalid_request("vector contains NaN or infinity"@))
    } else {
        Ok(Seq::new(items.len(), |i: int| JsonModel::Number(items[i]->Finite_0)))
    }
}

/// Whether a document result is what is expected of it.
pub open spec fn is_json_result(
    result: Result<Json, ConnectorError>,
    expected: Result<JsonModel, ErrorModel>,
) -> bool {
    match (result, expected) {
        (Ok(document), Ok(wanted)) => document@ == wanted,
        (Err(error), Err(wanted)) => error@ == wanted,
        _ => false,
    }
}

/// Whether a result of several documents is what is expected of it.
pub open spec fn is_json_list_result(
    result: Result<Vec<Json>, ConnectorError>,
    expected: Result<Seq<JsonModel>, ErrorModel>,
) -> bool {
    match (result, expected) {
        (Ok(list), Ok(wanted)) => documents(list@) == wanted,
        (Err(error), Err(wanted)) => error@ == wanted,
        _ => false,
    }
}

/// Writes a vector as documents.
pub fn vector_to_json(items: &Vec<Double>) -> (result: Result<Vec<Json>, ConnectorError>)
    ensures
        is_json_list_result(result, vector_json(doubles(items@))),
{
    let ghost all = doubles(items@);
    let mut result: Vec<Json> = Vec::new();
    let mut i: usize = 0;
    while i < items.len()
        invariant
            i <= items@.len(),
            all == doubles(items@),
            result@.len() == i,
            forall|j: int|
                0 <= j < i ==> #[trigger] all[j] is Finite && result@[j]@ == JsonModel::Number(
                    all[j]->Finite_0,
                ),
        decreases items@.len() - i,
    {
        assert(all[i as int] == items@[i as int]@);
        match &items[i] {
            Double::Finite(notation) => {
                result.push(Json::Number(notation.clone()));
            },
            _ => {
                assert(!(all[i as int] is Finite));
                return Err(invalid("vector contains NaN or infinity"));
            },
        }
        i = i + 1;
    }
    assert(documents(result@) =~= Seq::new(
        all.len(),
        |i: int| JsonModel::Number(all[i]->Finite_0),
    ));
    Ok(result)
}

/// Writes a value as a document.
pub fn db_value_to_json(value: &DbValue) -> (result: Result<Json, ConnectorError>)
    ensures
        is_json_result(result, value_json(value@)),
    decreases value, 0int,
{
    match value {
        DbValue::Null => Ok(Json::Null),
        DbValue::Bool(value) => Ok(Json::Bool(*value)),
        DbValue::Int64(value) => Ok(signed_number(*value)),
        DbValue::UInt64(value) => Ok(number(*value)),
        DbValue::Float64(value) => match value {
            Double::Finite(notation) => Ok(Json::Number(notation.clone())),
            _ => Err(invalid("JSON cannot encode NaN or infinity")),
        },
        DbValue::Decimal(value) => Ok(Json::Text(value.clone())),
        DbValue::String(value) => Ok(Json::Text(value.clone())),
        DbValue::Date(value) => Ok(Json::Text(value.clone())),
        DbValue::Time(value) => Ok(Json::Text(value.clone())),
        DbValue::DateTime(value) => Ok(Json::Text(value.clone())),
        DbValue::Uuid(value) => Ok(Json::Text(value.clone())),
        DbValue::Binary(value) => Ok(Json::Text(value.clone())),
        DbValue::Array(items) => match db_values_to_json(items) {
            Ok(items) => Ok(Json::Array(items)),
            Err(error) => Err(error),
        },
        DbValue::Document(record) => record_to_json(record),
        DbValue::Vector(items) => match vector_to_json(items) {
            Ok(items) => Ok(Json::Array(items)),
            Err(error) => Err(error),
        },
    }
}

/// An error among the first values is the error of them all.
proof fn lemma_values_json_fail_early(items: Seq<ValueModel>, count: int)
    requires
        0 <= count <= items.len(),
        values_json(items.subrange(0, count)) is Err,
    ensures
        values_json(items) == values_json(items.subrange(0, count)),
    decreases items.len(),
{
    if count == items.len() {
        assert(items.subrange(0, count) =~= items);
    } else {
        let shorter = items.subrange(0, items.len() - 1);
        assert(shorter.subrange(0, count) =~= items.subrange(0, count));
        lemma_values_json_fail_early(shorter, count);
    }
}

/// Writes values as documents.
pub fn db_values_to_json(items: &Vec<DbValue>) -> (result: Result<Vec<Json>, ConnectorError>)
    ensures
        is_json_list_result(result, values_json(values(items@))),
    decreases items, 0int,
{
    let ghost all = values(items@);
    let mut result: Vec<Json> = Vec::new();
    let mut i: usize = 0;
    assert(all.subrange(0, 0) =~= Seq::<ValueModel>::empty());
    while i < items.len()
        invariant
            i <= items@.len(),
            all == values(items@),
            values_json(all.subrange(0, i as int)) == Ok::<Seq<JsonModel>, ErrorModel>(
                documents(result@),
            ),
        decreases items@.len() - i,
    {
        let item = &items[i];
        assert(decreases_to!(items => *item));
        let ghost next = all.subrange(0, i + 1);
        assert(next.subrange(0, next.len() - 1) =~= all.subrange(0, i as int));
        assert(next[next.len() - 1] == item@);
        match db_value_to_json(item) {
            Err(error) => {
                proof {
                    lemma_values_json_fail_early(all, i + 1);
                }
                return Err(error);
            },
            Ok(document) => {
                result.push(document);
            },
        }
        i = i + 1;
    }
    assert(all.subrange(0, i as int) =~= all);
    Ok(result)
}

/// An error among the first entries is the error of them all.
proof fn lemma_entries_json_fail_early(entries: RecordModel, count: int)
    requires
        0 <= count <= entries.len(),
        entries_json(entries.subrange(0, count)) is Err,
    ensures
        entries_json(entries) == entries_json(entries.subrange(0, count)),
    decreases entries.len(),
{
    if count == entries.len() {
        assert(entries.subrange(0, count) =~= entries);
    } else {
        let shorter = entries.subrange(0, entries.len() - 1);
        assert(shorter.subrange(0, count) =~= entries.subrange(0, count));
        lemma_entries_json_fail_early(shorter, count);
    }
}

/// The object of a record.
pub open spec fn record_json(record: RecordModel) -> Result<JsonModel, ErrorModel> {
    match entries_json(record) {
        Ok(members) => Ok(JsonModel::Object(members)),
        Err(error) => Err(error),
    }
}

/// Writes a record as the members of an object.
pub fn record_to_members(record: &DbRecord) -> (result: Result<
    Vec<(String, Json)>,
    ConnectorError,
>)
    ensures
        match (result, entries_json(record@)) {
            (Ok(list), Ok(wanted)) => members(list@) == wanted,
            (Err(error), Err(wanted)) => error@ == wanted,
            _ => false,
        },
    decreases record, 0int,
{
    let ghost all = record@;
    let mut result: Vec<(String, Json)> = Vec::new();
    let mut i: usize = 0;
    assert(all.subrange(0, 0) =~= RecordModel::empty());
    while i < record.len()
        invariant
            i <= record@.len(),
            all == record@,
            entries_json(all.subrange(0, i as int)) == Ok::<
                Seq<(Seq<char>, JsonModel)>,
                ErrorModel,
            >(members(result@)),
        decreases record@.len() - i,
    {
        let value = record.value_at(i);
        proof {
            record.lemma_values_are_smaller(i as int);
        }
        let ghost next = all.subrange(0, i + 1);
        assert(next.subrange(0, next.len() - 1) =~= all.subrange(0, i as int));
        assert(next[next.len() - 1] == all[i as int]);
        match db_value_to_json(value) {
            Err(error) => {
                proof {
                    lemma_entries_json_fail_early(all, i + 1);
                }
                return Err(error);
            },
            Ok(document) => {
                result.push((record.name_at(i).to_owned(), document));
            },
        }
        i = i + 1;
    }
    assert(all.subrange(0, i as int) =~= all);
    Ok(result)
}

/// Writes a record as an object.
pub fn record_to_json(record: &DbRecord) -> (result: Result<Json, ConnectorError>)
    ensures
        is_json_result(result, record_json(record@)),
    decreases record, 1int,
{
    match record_to_members(record) {
        Ok(members) => Ok(Json::Object(members)),
        Err(error) => Err(error),
    }
}

/// The document that a value is as a parameter of a statement: a number that is not finite is
/// null, one in a vector is left out, and a decimal is a number where JSON can say it.
pub open spec fn parameter_json(value: ValueModel) -> JsonModel
    decreases value,
{
    match value {
        ValueModel::Null => JsonModel::Null,
        ValueModel::Bool(value) => JsonModel::Bool(value),
        ValueModel::Int64(value) => JsonModel::Number(signed_decimal(value as int)),
        ValueModel::UInt64(value) => JsonModel::Number(decimal(value as nat)),
        ValueModel::Float64(value) => match value {
            DoubleModel::Finite(notation) => JsonModel::Number(notation),
            _ => JsonModel::Null,
        },
        ValueModel::Decimal(value) => match json_number(value) {
            Some(notation) => JsonModel::Number(notation),
            None => JsonModel::Text(value),
        },
        ValueModel::String(value) => JsonModel::Text(value),
        ValueModel::Date(value) => JsonModel::Text(value),
        ValueModel::Time(value) => JsonModel::Text(value),
        ValueModel::DateTime(value) => JsonModel::Text(value),
        ValueModel::Uuid(value) => JsonModel::Text(value),
        ValueModel::Binary(value) => JsonModel::Text(value),
        ValueModel::Array(items) => JsonModel::Array(
            Seq::new(
                items.len(),
                |i: int|
                    if 0 <= i < items.len() {
                        parameter_json(items[i])
                    } else {
                        JsonModel::Null
                    },
            ),
        ),
        ValueModel::Document(entries) => JsonModel::Object(
            Seq::new(
                entries.len(),
                |i: int|
                    if 0 <= i < entries.len() {
                        (entries[i].0, parameter_json(entries[i].1))
                    } else {
                        (Seq::empty(), JsonModel::Null)
                    },
            ),
        ),
        ValueModel::Vector(items) => JsonModel::Array(finite_numbers(items)),
    }
}

/// The finite elements of a vector as numbers.
pub open spec fn finite_numbers(items: Seq<DoubleModel>) -> Seq<JsonModel>
    decreases items.len(),
{
    if items.len() == 0 {
        Seq::empty()
    } else {
        match items.last() {
            DoubleModel::Finite(notation) => finite_numbers(items.drop_last()).push(
                JsonModel::Number(notation),
            ),
            _ => finite_numbers(items.drop_last()),
        }
    }
}

/// Writes the finite elements of a vector as numbers.
fn finite_elements(items: &Vec<Double>) -> (result: Vec<Json>)
    ensures
        documents(result@) == finite_numbers(doubles(items@)),
{
    let ghost all = doubles(items@);
    let mut result: Vec<Json> = Vec::new();
    let mut i: usize = 0;
    assert(all.subrange(0, 0) =~= Seq::<DoubleModel>::empty());
    while i < items.len()
        invariant
            i <= items@.len(),
            all == doubles(items@),
            documents(result@) == finite_numbers(all.subrange(0, i as int)),
        decreases items@.len() - i,
    {
        let ghost next = all.subrange(0, i + 1);
        assert(next.drop_last() =~= all.subrange(0, i as int));
        assert(next.last() == items@[i as int]@);
        match &items[i] {
            Double::Finite(notation) => {
                result.push(Json::Number(notation.clone()));
            },
            _ => {},
        }
        i = i + 1;
    }
    assert(all.subrange(0, i as int) =~= all);
    result
}

/// Writes a value as a parameter document.
pub fn parameter_to_json(value: &DbValue) -> (result: Json)
    ensures
        result@ == parameter_json(value@),
    decreases value,
{
    match value {
        DbValue::Null => Json::Null,
        DbValue::Bool(value) => Json::Bool(*value),
        DbValue::Int64(value) => signed_number(*value),
        DbValue::UInt64(value) => number(*value),
        DbValue::Float64(value) => match value {
            Double::Finite(notation) => Json::Number(notation.clone()),
            _ => Json::Null,
        },
        DbValue::Decimal(value) => match parse_json_number(value.as_str()) {
            Some(notation) => Json::Number(notation),
            None => Json::Text(value.clone()),
        },
        DbValue::String(value) => Json::Text(value.clone()),
        DbValue::Date(value) => Json::Text(value.clone()),
        DbValue::Time(value) => Json::Text(value.clone()),
        DbValue::DateTime(value) => Json::Text(value.clone()),
        DbValue::Uuid(value) => Json::Text(value.clone()),
        DbValue::Binary(value) => Json::Text(value.clone()),
        DbValue::Array(items) => {
            let list = parameters_to_json(items);
            assert(parameter_json(value@)->Array_0 =~= documents(list@));
            Json::Array(list)
        },
        DbValue::Document(record) => {
            let list = record_parameters_to_json(record);
            assert(parameter_json(value@)->Object_0 =~= members(list@));
            Json::Object(list)
        },
        DbValue::Vector(items) => Json::Array(finite_elements(items)),
    }
}

/// Writes values as parameter documents.
fn parameters_to_json(items: &Vec<DbValue>) -> (result: Vec<Json>)
    ensures
        result@.len() == items@.len(),
        forall|j: int|
            0 <= j < items@.len() ==> (#[trigger] result@[j])@ == parameter_json(items@[j]@),
    decreases items,
{
    let mut result: Vec<Json> = Vec::new();
    let mut i: usize = 0;
    while i < items.len()
        invariant
            i <= items@.len(),
            result@.len() == i,
            forall|j: int| 0 <= j < i ==> (#[trigger] result@[j])@ == parameter_json(items@[j]@),
        decreases items@.len() - i,
    {
        let item = &items[i];
        assert(decreases_to!(items => *item));
        result.push(parameter_to_json(item));
        i = i + 1;
    }
    result
}

/// Writes the values of a record as parameter documents.
fn record_parameters_to_json(record: &DbRecord) -> (result: Vec<(String, Json)>)
    ensures
        result@.len() == record@.len(),
        forall|j: int|
            0 <= j < record@.len() ==> (#[trigger] result@[j]).0@ == record@[j].0 && result@[j].1@
                == parameter_json(record@[j].1),
    decreases record,
{
    let mut result: Vec<(String, Json)> = Vec::new();
    let mut i: usize = 0;
    while i < record.len()
        invariant
            i <= record@.len(),
            result@.len() == i,
            forall|j: int|
                0 <= j < i ==> (#[trigger] result@[j]).0@ == record@[j].0 && result@[j].1@
                    == parameter_json(record@[j].1),
        decreases record@.len() - i,
    {
        let value = record.value_at(i);
        proof {
            record.lemma_values_are_smaller(i as int);
        }
        result.push((record.name_at(i).to_owned(), parameter_to_json(value)));
        i = i + 1;
    }
    result
}

} // verus!
