//! Values as documents and documents as values: each keeps what it is.
use crate::base_laws::{last_named, lemma_records_keep_the_last};
use crate::convert::{
    entries_json, json_entries, json_record, json_value, parameter_json, record_json, row_result,
    value_json, values_json, NumberStyle,
};
use crate::encoding::json_number;
use crate::json::vector_documents;
use crate::model::ErrorModel;
use crate::text::{decimal, lemma_decimal_value, signed_decimal};
use crate::value::{named, record_of, DoubleModel, JsonModel, RecordModel, ValueModel};
use vstd::prelude::*;

verus! {

/// Whether documents are the elements of a vector: numbers with the notation of the elements, and
/// nulls for those that are not finite.
pub open spec fn are_elements(items: Seq<JsonModel>, vector: Seq<DoubleModel>) -> bool {
    &&& items.len() == vector.len()
    &&& forall|i: int|
        0 <= i < items.len() ==> match vector[i] {
            DoubleModel::Finite(notation) => #[trigger] items[i] == JsonModel::Number(notation),
            _ => items[i] is Null,
        }
}

/// A vector is written element by element.
pub proof fn lemma_vectors_are_written(vector: Seq<DoubleModel>)
    ensures
        are_elements(vector_documents(vector), vector),
{
}

/// Whether a document says what a value is: nulls, truth values and numbers as such, all texts as
/// texts, lists item by item and records name by name.
pub open spec fn says(document: JsonModel, value: ValueModel) -> bool {
    match value {
        ValueModel::Null => document is Null,
        ValueModel::Bool(truth) => document == JsonModel::Bool(truth),
        ValueModel::Int64(number) => document == JsonModel::Number(signed_decimal(number as int)),
        ValueModel::UInt64(number) => document == JsonModel::Number(decimal(number as nat)),
        ValueModel::Float64(number) => number matches DoubleModel::Finite(notation) && document
            == JsonModel::Number(notation),
        ValueModel::Decimal(text)
        | ValueModel::String(text)
        | ValueModel::Date(text)
        | ValueModel::Time(text)
        | ValueModel::DateTime(text)
        | ValueModel::Uuid(text)
        | ValueModel::Binary(text) => document == JsonModel::Text(text),
        ValueModel::Array(items) => document matches JsonModel::Array(list) && list.len()
            == items.len() && forall|i: int|
            0 <= i < items.len() ==> value_json(items[i]) == Ok::<JsonModel, ErrorModel>(
                #[trigger] list[i],
            ),
        ValueModel::Document(entries) => document matches JsonModel::Object(list)
            && has_entries(list, entries),
        ValueModel::Vector(vector) => document matches JsonModel::Array(list) && are_elements(
            list,
            vector,
        ),
    }
}

/// Whether members say what the entries of a record are, name by name.
pub open spec fn has_entries(list: Seq<(Seq<char>, JsonModel)>, entries: RecordModel) -> bool {
    &&& list.len() == entries.len()
    &&& forall|i: int|
        0 <= i < entries.len() ==> (#[trigger] list[i]).0 == entries[i].0 && value_json(
            entries[i].1,
        ) == Ok::<JsonModel, ErrorModel>(list[i].1)
}

/// The documents of values.
proof fn lemma_values(items: Seq<ValueModel>)
    ensures
        values_json(items) matches Ok(list) ==> list.len() == items.len() && forall|i: int|
            0 <= i < items.len() ==> value_json(items[i]) == Ok::<JsonModel, ErrorModel>(
                #[trigger] list[i],
            ),
    decreases items.len(),
{
    if items.len() > 0 {
        let before = items.subrange(0, items.len() - 1);
        lemma_values(before);
        if let Ok(list) = values_json(items) {
            let shorter = values_json(before)->Ok_0;
            assert forall|i: int| 0 <= i < items.len() implies value_json(items[i]) == Ok::<
                JsonModel,
                ErrorModel,
            >(#[trigger] list[i]) by {
                if i < before.len() {
                    assert(list[i] == shorter[i]);
                    assert(before[i] == items[i]);
                }
            }
        }
    }
}

/// The members of a record.
pub proof fn lemma_entries(entries: RecordModel)
    ensures
        entries_json(entries) matches Ok(list) ==> has_entries(list, entries),
    decreases entries.len(),
{
    if entries.len() > 0 {
        let before = entries.subrange(0, entries.len() - 1);
        lemma_entries(before);
        if let Ok(list) = entries_json(entries) {
            let shorter = entries_json(before)->Ok_0;
            assert forall|i: int| 0 <= i < entries.len() implies (#[trigger] list[i]).0
                == entries[i].0 && value_json(entries[i].1) == Ok::<JsonModel, ErrorModel>(
                list[i].1,
            ) by {
                if i < before.len() {
                    assert(list[i] == shorter[i]);
                    assert(before[i] == entries[i]);
                }
            }
        }
    }
}

/// A value that is written as a document is said by it, and one that JSON cannot say is refused as
/// an invalid request.
pub proof fn lemma_values_are_said(value: ValueModel)
    ensures
        value_json(value) matches Ok(document) ==> says(document, value),
        value matches ValueModel::Float64(number) ==> (value_json(value) is Ok <==> number is Finite),
        value matches ValueModel::Vector(vector) ==> (value_json(value) is Ok <==> forall|i: int|
            0 <= i < vector.len() ==> #[trigger] vector[i] is Finite),
        !(value is Float64 || value is Vector || value is Array || value is Document)
            ==> value_json(value) is Ok,
{
    match value {
        ValueModel::Array(items) => {
            lemma_values(items);
        },
        ValueModel::Document(entries) => {
            lemma_entries(entries);
        },
        _ => {},
    }
}

/// A record is written as an object with its names and values.
pub proof fn lemma_records_are_said(record: RecordModel)
    ensures
        record_json(record) matches Ok(document) ==> document matches JsonModel::Object(list)
            && has_entries(list, record),
{
    lemma_entries(record);
}

/// An integer that is written as a number is read back as that integer, and a decimal notation is
/// kept.
pub proof fn lemma_integers_are_read_back(number: int, style: NumberStyle)
    requires
        i64::MIN <= number <= u64::MAX,
    ensures
        json_value(style, JsonModel::Number(signed_decimal(number))) == if number <= i64::MAX {
            ValueModel::Int64(number as i64)
        } else {
            ValueModel::UInt64(number as u64)
        },
{
    if number >= 0 {
        lemma_decimal_value(number as nat);
        assert(crate::text::is_digit(decimal(number as nat)[0]));
    } else {
        lemma_decimal_value((-number) as nat);
        let digits = decimal((-number) as nat);
        let text = signed_decimal(number);
        assert(text.subrange(1, text.len() as int) =~= digits);
    }
}

/// A document that is read as a value keeps what it says: nulls, truth values and texts as such, and
/// lists item by item.
pub proof fn lemma_documents_are_kept(style: NumberStyle, document: JsonModel)
    ensures
        match document {
            JsonModel::Null => json_value(style, document) is Null,
            JsonModel::Bool(truth) => json_value(style, document) == ValueModel::Bool(truth),
            JsonModel::Text(text) => json_value(style, document) == ValueModel::String(text),
            JsonModel::Array(items) => json_value(style, document) matches ValueModel::Array(list)
                && list.len() == items.len() && forall|i: int|
                0 <= i < items.len() ==> #[trigger] list[i] == json_value(style, items[i]),
            JsonModel::Object(_) => json_value(style, document) is Document,
            JsonModel::Number(notation) => match json_value(style, document) {
                ValueModel::Int64(_) | ValueModel::UInt64(_) => true,
                ValueModel::Float64(number) => style is Double && number == DoubleModel::Finite(
                    notation,
                ),
                ValueModel::Decimal(text) => style is Decimal && text == notation,
                _ => false,
            },
        },
{
    broadcast use crate::convert::lemma_array_json_value;

    if let JsonModel::Array(items) = document {
        assert(json_value(style, document) == ValueModel::Array(crate::convert::json_values(style, items)));
    }
}

/// The value of the last member with a name.
proof fn lemma_entry_of_member(
    style: NumberStyle,
    members: Seq<(Seq<char>, JsonModel)>,
    name: Seq<char>,
)
    ensures
        match last_named(members, name) {
            Some(document) => last_named(json_entries(style, members), name) == Some(
                json_value(style, document),
            ),
            None => last_named(json_entries(style, members), name) is None,
        },
    decreases members.len(),
{
    if members.len() > 0 {
        let before = members.subrange(0, members.len() - 1);
        assert(members.drop_last() =~= before);
        lemma_entry_of_member(style, before, name);
        assert(json_entries(style, members).drop_last() =~= json_entries(style, before));
    }
}

/// An object that is read as a record has under each name the value of the last member with it.
pub proof fn lemma_objects_are_read_by_name(
    style: NumberStyle,
    members: Seq<(Seq<char>, JsonModel)>,
    name: Seq<char>,
)
    ensures
        json_value(style, JsonModel::Object(members)) matches ValueModel::Document(record)
            && match last_named(members, name) {
            Some(document) => named(record, name) == Some(json_value(style, document)),
            None => named(record, name) is None,
        },
{
    lemma_entry_of_member(style, members, name);
    lemma_records_keep_the_last(json_entries(style, members), name);
}

/// A row that a relational database returns as an object becomes a record by its names, in which
/// numbers keep their notation; anything else is refused. A document of another server becomes a
/// record too, under the name `value` where it has no names of its own.
pub proof fn lemma_rows_are_read_by_name(document: JsonModel, name: Seq<char>)
    ensures
        row_result(document) is Ok <==> document is Object,
        document matches JsonModel::Object(members) ==> {
            let record = row_result(document)->Ok_0;
            match last_named(members, name) {
                Some(inner) => named(record, name) == Some(json_value(NumberStyle::Decimal, inner))
                    && named(json_record(document), name) == Some(
                    json_value(NumberStyle::Double, inner),
                ),
                None => named(record, name) is None && named(json_record(document), name) is None,
            }
        },
        !(document is Object) ==> named(json_record(document), "value"@) == Some(
            json_value(NumberStyle::Double, document),
        ) && json_record(document).len() == 1,
{
    match document {
        JsonModel::Object(members) => {
            lemma_entry_of_member(NumberStyle::Decimal, members, name);
            lemma_records_keep_the_last(json_entries(NumberStyle::Decimal, members), name);
            lemma_entry_of_member(NumberStyle::Double, members, name);
            lemma_records_keep_the_last(json_entries(NumberStyle::Double, members), name);
        },
        _ => {
            let entry = ("value"@, json_value(NumberStyle::Double, document));
            let entries = seq![entry];
            assert(entries.drop_last() =~= Seq::<(Seq<char>, ValueModel)>::empty());
            assert(record_of(entries.drop_last()) == Seq::<(Seq<char>, ValueModel)>::empty());
            assert(record_of(entries) =~= seq![entry]);
            assert(record_of(entries)[0].0 == "value"@);
        },
    }
}

/// A value within a statement is written as a document like any other; a number that is not finite
/// is null, or left out of a vector, and a decimal is a number where JSON can say it.
pub proof fn lemma_parameters_are_said(value: ValueModel)
    ensures
        match value {
            ValueModel::Null => parameter_json(value) is Null,
            ValueModel::Bool(truth) => parameter_json(value) == JsonModel::Bool(truth),
            ValueModel::Int64(number) => parameter_json(value) == JsonModel::Number(
                signed_decimal(number as int),
            ),
            ValueModel::UInt64(number) => parameter_json(value) == JsonModel::Number(
                decimal(number as nat),
            ),
            ValueModel::Float64(number) => match number {
                DoubleModel::Finite(notation) => parameter_json(value) == JsonModel::Number(
                    notation,
                ),
                _ => parameter_json(value) is Null,
            },
            ValueModel::Decimal(text) => match json_number(text) {
                Some(notation) => parameter_json(value) == JsonModel::Number(notation),
                None => parameter_json(value) == JsonModel::Text(text),
            },
            ValueModel::String(text)
            | ValueModel::Date(text)
            | ValueModel::Time(text)
            | ValueModel::DateTime(text)
            | ValueModel::Uuid(text)
            | ValueModel::Binary(text) => parameter_json(value) == JsonModel::Text(text),
            ValueModel::Array(items) => parameter_json(value) matches JsonModel::Array(list)
                && list.len() == items.len() && forall|i: int|
                0 <= i < items.len() ==> #[trigger] list[i] == parameter_json(items[i]),
            ValueModel::Document(entries) => parameter_json(value) matches JsonModel::Object(list)
                && list.len() == entries.len() && forall|i: int|
                0 <= i < entries.len() ==> #[trigger] list[i] == (
                    entries[i].0,
                    parameter_json(entries[i].1),
                ),
            ValueModel::Vector(vector) => (forall|i: int|
                0 <= i < vector.len() ==> #[trigger] vector[i] is Finite)
                ==> (parameter_json(value) matches JsonModel::Array(list) && are_elements(
                list,
                vector,
            )),
        },
{
    if let ValueModel::Vector(vector) = value {
        if forall|i: int| 0 <= i < vector.len() ==> #[trigger] vector[i] is Finite {
            lemma_finite_numbers(vector);
        }
    }
}

/// The elements of a vector that are all finite.
proof fn lemma_finite_numbers(vector: Seq<DoubleModel>)
    requires
        forall|i: int| 0 <= i < vector.len() ==> #[trigger] vector[i] is Finite,
    ensures
        are_elements(crate::convert::finite_numbers(vector), vector),
    decreases vector.len(),
{
    if vector.len() > 0 {
        let before = vector.drop_last();
        assert(forall|i: int| 0 <= i < before.len() ==> #[trigger] before[i] == vector[i]);
        lemma_finite_numbers(before);
        assert(vector[vector.len() - 1] is Finite);
    }
}

} // verus!
