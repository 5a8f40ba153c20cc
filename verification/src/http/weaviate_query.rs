//! Weaviate's objects and GraphQL queries.
use crate::convert::{json_record, json_to_db_value, json_to_record, json_value, NumberStyle};
use crate::encoding::{json_text, parse_uuid, uuid_bytes, write_json};
use crate::http::common::{
    content_record, graphql_name_error, is_one_of, read_content_record, validate_graphql_name,
};
use crate::http::graphql_text::{cuts_block_string, finds_cut_block_string};
use crate::json::{as_items, as_text, find_index, items_of, member, members_of, text_of};
use crate::model::{
    appended, error_of, failure, framed, invalid, invalid_request, is_text_result, is_texts_result,
    protocol, protocol_failure, ConnectorError, ErrorCategory, ErrorModel,
};
use crate::text::{characters, decimal, decimal_text, join, joined, names_of, same, texts};
use crate::value::{
    documents, members, named, selected, with_entry, DbRecord, Json, JsonModel, RecordModel,
};
use graphql_parser::query::{parse_query, Definition, OperationDefinition};
use vstd::prelude::*;
use vstd::string::StringExecFns;

verus! {

broadcast use {crate::text::group_texts, crate::value::group_models};

/// What an object keeps besides its properties.
pub open spec fn object_facts() -> Seq<Seq<char>> {
    names_of(["id", "class", "tenant", "vector", "creationTimeUnix", "lastUpdateTimeUnix"]@)
}

/// The record of an object: its properties and what it keeps besides.
pub open spec fn object_record(object: JsonModel) -> RecordModel {
    content_record(object, "properties"@, object_facts())
}

/// The record of an object.
pub fn weaviate_object_record(object: &Json) -> (result: DbRecord)
    ensures
        result@ == object_record(object@),
{
    read_content_record(
        object,
        "properties",
        &["id", "class", "tenant", "vector", "creationTimeUnix", "lastUpdateTimeUnix"],
    )
}

/// The record of an object with the wanted fields and its identity; all where none are named.
pub open spec fn shown_record(object: JsonModel, fields: Seq<Seq<char>>) -> RecordModel {
    if fields.len() == 0 {
        object_record(object)
    } else {
        selected(object_record(object), fields.push("id"@), true)
    }
}

/// The record of an object with the wanted fields and its identity.
pub fn read_object(object: &Json, fields: &Vec<String>) -> (result: DbRecord)
    ensures
        result@ == shown_record(object@, texts(fields@)),
{
    let record = weaviate_object_record(object);
    if fields.len() == 0 {
        return record;
    }
    let mut wanted = crate::text::clone_texts(fields);
    wanted.push("id".to_owned());
    record.select(&wanted, true)
}

/// A record with the values of members.
pub open spec fn with_all_members(record: RecordModel, list: Seq<(Seq<char>, JsonModel)>) -> RecordModel
    decreases list.len(),
{
    if list.len() == 0 {
        record
    } else {
        with_entry(
            with_all_members(record, list.drop_last()),
            list.last().0,
            json_value(NumberStyle::Double, list.last().1),
        )
    }
}

/// The record of a row that a GraphQL query returned: additional facts stand beside the fields.
pub open spec fn graphql_record(row: JsonModel) -> RecordModel {
    let fields = selected(json_record(row), Seq::empty().push("_additional"@), false);
    match members_of(member(row, "_additional"@)) {
        Some(additional) => with_all_members(fields, additional),
        None => fields,
    }
}

/// The record of a row that a GraphQL query returned.
pub fn weaviate_graphql_record(row: &Json) -> (result: DbRecord)
    ensures
        result@ == graphql_record(row@),
{
    let mut unwanted: Vec<String> = Vec::new();
    unwanted.push("_additional".to_owned());
    let mut record = json_to_record(row).select(&unwanted, false);
    let ghost fields = record@;
    match crate::json::as_members(row.get("_additional")) {
        Some(additional) => {
            let ghost all = members(additional@);
            let mut i: usize = 0;
            assert(all.subrange(0, 0) =~= Seq::<(Seq<char>, JsonModel)>::empty());
            while i < additional.len()
                invariant
                    i <= additional@.len(),
                    all == members(additional@),
                    record@ == with_all_members(fields, all.subrange(0, i as int)),
                decreases additional@.len() - i,
            {
                assert(all.subrange(0, i + 1).drop_last() =~= all.subrange(0, i as int));
                record.insert(
                    additional[i].0.clone(),
                    json_to_db_value(NumberStyle::Double, &additional[i].1),
                );
                i = i + 1;
            }
            assert(all.subrange(0, i as int) =~= all);
        },
        None => {},
    }
    record
}

/// Whether a character is an upper-case letter of Unicode.
pub uninterp spec fn is_upper_case(c: char) -> bool;

/// `char::is_uppercase`.
#[verifier::external_body]
fn upper_case(c: char) -> (result: bool)
    ensures
        result == is_upper_case(c),
{
    c.is_uppercase()
}

/// The first data type of a property.
pub open spec fn property_type(property: JsonModel) -> Seq<char> {
    match items_of(member(property, "dataType"@)) {
        Some(types) if types.len() > 0 => match types[0] {
            JsonModel::Text(name) => name,
            _ => Seq::empty(),
        },
        _ => Seq::empty(),
    }
}

/// How a property is selected: scalars by their names, some structures by their parts, references
/// and objects not at all.
pub open spec fn selection_of(name: Seq<char>, kind: Seq<char>) -> Option<Seq<char>> {
    if kind.len() > 0 && is_upper_case(kind[0]) {
        None
    } else if kind == "object"@ || kind == "object[]"@ || kind == "cref"@ {
        None
    } else if kind == "geoCoordinates"@ {
        Some(name + " { latitude longitude }"@)
    } else if kind == "phoneNumber"@ {
        Some(name + " { input }"@)
    } else {
        Some(name)
    }
}

/// The selections of some properties, at most 64.
pub open spec fn selections(properties: Seq<JsonModel>) -> Result<Seq<Seq<char>>, ErrorModel>
    decreases properties.len(),
{
    if properties.len() == 0 {
        Ok(Seq::empty())
    } else {
        match selections(properties.drop_last()) {
            Err(error) => Err(error),
            Ok(before) => if before.len() >= 64 {
                Ok(before)
            } else {
                match text_of(member(properties.last(), "name"@)) {
                    None => Ok(before),
                    Some(name) => match graphql_name_error(name) {
                        Some(error) => Err(error),
                        None => match selection_of(name, property_type(properties.last())) {
                            Some(selection) => Ok(before.push(selection)),
                            None => Ok(before),
                        },
                    },
                }
            },
        }
    }
}

/// The selections of the properties of a schema.
pub open spec fn schema_selections(schema: JsonModel) -> Result<Seq<Seq<char>>, ErrorModel> {
    match items_of(member(schema, "properties"@)) {
        None => Err(protocol_failure("Weaviate schema omitted properties"@)),
        Some(properties) => selections(properties),
    }
}

/// Where some first properties have an error, all of them have that one.
proof fn lemma_selections_fail_early(properties: Seq<JsonModel>, count: int)
    requires
        0 <= count <= properties.len(),
        selections(properties.subrange(0, count)) is Err,
    ensures
        selections(properties) == selections(properties.subrange(0, count)),
    decreases properties.len(),
{
    if count == properties.len() {
        assert(properties.subrange(0, count) =~= properties);
    } else {
        assert(properties.drop_last().subrange(0, count) =~= properties.subrange(0, count));
        lemma_selections_fail_early(properties.drop_last(), count);
    }
}

/// Where some first properties fill the selection, the others add nothing.
proof fn lemma_selections_full(properties: Seq<JsonModel>, count: int)
    requires
        0 <= count <= properties.len(),
        selections(properties.subrange(0, count)) matches Ok(list) && list.len() >= 64,
    ensures
        selections(properties) == selections(properties.subrange(0, count)),
    decreases properties.len(),
{
    if count == properties.len() {
        assert(properties.subrange(0, count) =~= properties);
    } else {
        assert(properties.drop_last().subrange(0, count) =~= properties.subrange(0, count));
        lemma_selections_full(properties.drop_last(), count);
    }
}

/// The first data type of a property.
fn read_property_type(property: &Json) -> (result: String)
    ensures
        result@ == property_type(property@),
{
    match as_items(property.get("dataType")) {
        Some(types) => {
            if types.len() > 0 {
                assert(documents(types@)[0] == types@[0]@);
                match &types[0] {
                    Json::Text(name) => {
                        return name.clone();
                    },
                    _ => {},
                }
            }
        },
        None => {},
    }
    let result = String::new();
    assert(result@ =~= Seq::<char>::empty());
    result
}

/// How a property is selected.
fn write_selection(name: &str, kind: &str) -> (result: Option<String>)
    ensures
        crate::text::optional_text(result) == selection_of(name@, kind@),
{
    let chars = characters(kind);
    if chars.len() > 0 && upper_case(chars[0]) {
        return None;
    }
    if same(kind, "object") || same(kind, "object[]") || same(kind, "cref") {
        return None;
    }
    if same(kind, "geoCoordinates") {
        return Some(appended(name, " { latitude longitude }"));
    }
    if same(kind, "phoneNumber") {
        return Some(appended(name, " { input }"));
    }
    Some(name.to_owned())
}

/// Selects the properties of a schema.
pub fn scalar_fields(schema: &Json) -> (result: Result<Vec<String>, ConnectorError>)
    ensures
        is_texts_result(result, schema_selections(schema@)),
{
    let properties = match as_items(schema.get("properties")) {
        None => {
            return Err(protocol("Weaviate schema omitted properties"));
        },
        Some(properties) => properties,
    };
    let ghost all = documents(properties@);
    let mut fields: Vec<String> = Vec::new();
    let mut i: usize = 0;
    assert(all.subrange(0, 0) =~= Seq::<JsonModel>::empty());
    while i < properties.len()
        invariant
            i <= properties@.len(),
            all == documents(properties@),
            items_of(member(schema@, "properties"@)) == Some(all),
            selections(all.subrange(0, i as int)) == Ok::<Seq<Seq<char>>, ErrorModel>(
                texts(fields@),
            ),
        decreases properties@.len() - i,
    {
        let ghost next = all.subrange(0, i + 1);
        assert(next.drop_last() =~= all.subrange(0, i as int));
        if fields.len() >= 64 {
            proof {
                assert(texts(fields@).len() >= 64);
                lemma_selections_full(all, i as int);
            }
            return Ok(fields);
        }
        assert(texts(fields@).len() < 64);
        let property = &properties[i];
        match as_text(property.get("name")) {
            None => {},
            Some(name) => {
                match validate_graphql_name(name) {
                    Err(error) => {
                        proof {
                            lemma_selections_fail_early(all, i + 1);
                        }
                        return Err(error);
                    },
                    Ok(()) => {},
                }
                let kind = read_property_type(property);
                match write_selection(name, kind.as_str()) {
                    Some(selection) => {
                        fields.push(selection);
                    },
                    None => {},
                }
            },
        }
        i = i + 1;
    }
    assert(all.subrange(0, i as int) =~= all);
    Ok(fields)
}

/// The GraphQL literal of a text.
pub open spec fn text_literal(text: Seq<char>) -> Result<Seq<char>, ErrorModel> {
    match json_text(JsonModel::Text(text)) {
        Some(literal) => Ok(literal),
        None => Err(invalid_request("GraphQL string could not be encoded"@)),
    }
}

/// The GraphQL literal of a document. A member called `operator` is an enum name.
pub open spec fn literal(document: JsonModel) -> Result<Seq<char>, ErrorModel>
    decreases document,
{
    match document {
        JsonModel::Null => Ok("null"@),
        JsonModel::Bool(value) => Ok(
            if value {
                "true"@
            } else {
                "false"@
            },
        ),
        JsonModel::Number(notation) => Ok(notation),
        JsonModel::Text(text) => text_literal(text),
        JsonModel::Array(items) => match literals(items) {
            Err(error) => Err(error),
            Ok(parts) => Ok("["@ + joined(parts, ","@) + "]"@),
        },
        JsonModel::Object(list) => match member_literals(list) {
            Err(error) => Err(error),
            Ok(parts) => Ok("{"@ + joined(parts, ","@) + "}"@),
        },
    }
}

/// The GraphQL literals of documents; the error of the first that has one.
pub open spec fn literals(items: Seq<JsonModel>) -> Result<Seq<Seq<char>>, ErrorModel>
    decreases items,
{
    if items.len() == 0 {
        Ok(Seq::empty())
    } else {
        match literals(items.subrange(0, items.len() - 1)) {
            Err(error) => Err(error),
            Ok(before) => match literal(items[items.len() - 1]) {
                Err(error) => Err(error),
                Ok(last) => Ok(before.push(last)),
            },
        }
    }
}

/// The GraphQL enum name of an operator.
pub open spec fn operator_name(value: JsonModel) -> Result<Seq<char>, ErrorModel> {
    match value {
        JsonModel::Text(operator) => match graphql_name_error(operator) {
            Some(error) => Err(error),
            None => Ok(operator),
        },
        _ => Err(invalid_request("Weaviate where operator must be a GraphQL enum name"@)),
    }
}

/// The GraphQL literals of members; the error of the first that has one.
pub open spec fn member_literals(list: Seq<(Seq<char>, JsonModel)>) -> Result<
    Seq<Seq<char>>,
    ErrorModel,
>
    decreases list,
{
    if list.len() == 0 {
        Ok(Seq::empty())
    } else {
        match member_literals(list.subrange(0, list.len() - 1)) {
            Err(error) => Err(error),
            Ok(before) => {
                let (name, value) = list[list.len() - 1];
                match graphql_name_error(name) {
                    Some(error) => Err(error),
                    None => match if name == "operator"@ {
                        operator_name(value)
                    } else {
                        literal(list[list.len() - 1].1)
                    } {
                        Err(error) => Err(error),
                        Ok(text) => Ok(before.push(name + ": "@ + text)),
                    },
                }
            },
        }
    }
}

/// Where some first documents have an error, all of them have that one.
proof fn lemma_literals_fail_early(items: Seq<JsonModel>, count: int)
    requires
        0 <= count <= items.len(),
        literals(items.subrange(0, count)) is Err,
    ensures
        literals(items) == literals(items.subrange(0, count)),
    decreases items.len(),
{
    if count == items.len() {
        assert(items.subrange(0, count) =~= items);
    } else {
        let shorter = items.subrange(0, items.len() - 1);
        assert(shorter.subrange(0, count) =~= items.subrange(0, count));
        lemma_literals_fail_early(shorter, count);
    }
}

/// Where some first members have an error, all of them have that one.
proof fn lemma_member_literals_fail_early(list: Seq<(Seq<char>, JsonModel)>, count: int)
    requires
        0 <= count <= list.len(),
        member_literals(list.subrange(0, count)) is Err,
    ensures
        member_literals(list) == member_literals(list.subrange(0, count)),
    decreases list.len(),
{
    if count == list.len() {
        assert(list.subrange(0, count) =~= list);
    } else {
        let shorter = list.subrange(0, list.len() - 1);
        assert(shorter.subrange(0, count) =~= list.subrange(0, count));
        lemma_member_literals_fail_early(shorter, count);
    }
}

/// Writes the GraphQL literal of a document.
pub fn graphql_literal(document: &Json) -> (result: Result<String, ConnectorError>)
    ensures
        is_text_result(result, literal(document@)),
    decreases document,
{
    match document {
        Json::Null => Ok("null".to_owned()),
        Json::Bool(value) => Ok(
            if *value {
                "true".to_owned()
            } else {
                "false".to_owned()
            },
        ),
        Json::Number(notation) => Ok(notation.clone()),
        Json::Text(_) => match write_json(document) {
            Some(text) => Ok(text),
            None => Err(invalid("GraphQL string could not be encoded")),
        },
        Json::Array(items) => match graphql_literals(items) {
            Err(error) => Err(error),
            Ok(parts) => {
                let inner = join(&parts, ",");
                Ok(framed("[", inner.as_str(), "]"))
            },
        },
        Json::Object(list) => match graphql_members(list) {
            Err(error) => Err(error),
            Ok(parts) => {
                let inner = join(&parts, ",");
                Ok(framed("{", inner.as_str(), "}"))
            },
        },
    }
}

/// Writes the GraphQL literals of documents.
fn graphql_literals(items: &Vec<Json>) -> (result: Result<Vec<String>, ConnectorError>)
    ensures
        is_texts_result(result, literals(documents(items@))),
    decreases items,
{
    let ghost all = documents(items@);
    let mut parts: Vec<String> = Vec::new();
    let mut i: usize = 0;
    assert(all.subrange(0, 0) =~= Seq::<JsonModel>::empty());
    while i < items.len()
        invariant
            i <= items@.len(),
            all == documents(items@),
            literals(all.subrange(0, i as int)) == Ok::<Seq<Seq<char>>, ErrorModel>(
                texts(parts@),
            ),
        decreases items@.len() - i,
    {
        let item = &items[i];
        assert(decreases_to!(items => *item));
        let ghost next = all.subrange(0, i + 1);
        assert(next.subrange(0, next.len() - 1) =~= all.subrange(0, i as int));
        match graphql_literal(item) {
            Err(error) => {
                proof {
                    lemma_literals_fail_early(all, i + 1);
                }
                return Err(error);
            },
            Ok(part) => {
                parts.push(part);
            },
        }
        i = i + 1;
    }
    assert(all.subrange(0, i as int) =~= all);
    Ok(parts)
}

/// The GraphQL enum name of an operator.
fn write_operator(value: &Json) -> (result: Result<String, ConnectorError>)
    ensures
        is_text_result(result, operator_name(value@)),
{
    match value {
        Json::Text(operator) => match validate_graphql_name(operator.as_str()) {
            Err(error) => Err(error),
            Ok(()) => Ok(operator.clone()),
        },
        _ => Err(invalid("Weaviate where operator must be a GraphQL enum name")),
    }
}

/// Writes the GraphQL literals of members.
fn graphql_members(list: &Vec<(String, Json)>) -> (result: Result<Vec<String>, ConnectorError>)
    ensures
        is_texts_result(result, member_literals(members(list@))),
    decreases list,
{
    let ghost all = members(list@);
    let mut parts: Vec<String> = Vec::new();
    let mut i: usize = 0;
    assert(all.subrange(0, 0) =~= Seq::<(Seq<char>, JsonModel)>::empty());
    while i < list.len()
        invariant
            i <= list@.len(),
            all == members(list@),
            member_literals(all.subrange(0, i as int)) == Ok::<Seq<Seq<char>>, ErrorModel>(
                texts(parts@),
            ),
        decreases list@.len() - i,
    {
        let item = &list[i];
        assert(decreases_to!(list => item.1));
        let ghost next = all.subrange(0, i + 1);
        assert(next.subrange(0, next.len() - 1) =~= all.subrange(0, i as int));
        assert(next[next.len() - 1] == (item.0@, item.1@));
        match validate_graphql_name(item.0.as_str()) {
            Err(error) => {
                proof {
                    lemma_member_literals_fail_early(all, i + 1);
                }
                return Err(error);
            },
            Ok(()) => {},
        }
        let text = if same(item.0.as_str(), "operator") {
            write_operator(&item.1)
        } else {
            graphql_literal(&item.1)
        };
        match text {
            Err(error) => {
                proof {
                    lemma_member_literals_fail_early(all, i + 1);
                }
                return Err(error);
            },
            Ok(text) => {
                parts.push(framed(item.0.as_str(), ": ", text.as_str()));
            },
        }
        i = i + 1;
    }
    assert(all.subrange(0, i as int) =~= all);
    Ok(parts)
}

/// The arguments that a search may have.
pub open spec fn search_arguments() -> Seq<Seq<char>> {
    names_of(["nearVector", "nearText", "nearObject", "bm25", "hybrid", "where", "tenant"]@)
}

/// The arguments of a search as GraphQL.
pub open spec fn argument_texts(list: Seq<(Seq<char>, JsonModel)>) -> Result<
    Seq<Seq<char>>,
    ErrorModel,
>
    decreases list.len(),
{
    if list.len() == 0 {
        Ok(Seq::empty())
    } else {
        match argument_texts(list.drop_last()) {
            Err(error) => Err(error),
            Ok(before) => {
                let (name, value) = list.last();
                if !search_arguments().contains(name) {
                    Err(
                        invalid_request(
                            "unsupported Weaviate GraphQL search argument "@ + name,
                        ),
                    )
                } else {
                    match literal(value) {
                        Err(error) => Err(error),
                        Ok(text) => Ok(before.push(name + ": "@ + text)),
                    }
                }
            },
        }
    }
}

/// What a search ranks by.
pub open spec fn relevance(arguments: Seq<(Seq<char>, JsonModel)>) -> Seq<char> {
    if named(arguments, "bm25"@) is Some || named(arguments, "hybrid"@) is Some {
        " score"@
    } else if named(arguments, "nearVector"@) is Some || named(arguments, "nearText"@) is Some
        || named(arguments, "nearObject"@) is Some {
        " distance"@
    } else {
        ""@
    }
}

/// What a search selects.
pub open spec fn selection_text(
    fields: Seq<Seq<char>>,
    arguments: Seq<(Seq<char>, JsonModel)>,
    include_vector: bool,
) -> Seq<char> {
    let own = joined(fields, " "@);
    let start = if own.len() == 0 {
        own
    } else {
        own.push(' ')
    };
    start + "_additional { id"@ + relevance(arguments) + (if include_vector {
        " vector"@
    } else {
        ""@
    }) + " }"@
}

/// The GraphQL query of a search in a collection.
pub open spec fn get_query(
    collection: Seq<char>,
    arguments: Seq<(Seq<char>, JsonModel)>,
    limit: nat,
    fields: Seq<Seq<char>>,
    include_vector: bool,
) -> Result<Seq<char>, ErrorModel> {
    match graphql_name_error(collection) {
        Some(error) => Err(error),
        None => match argument_texts(arguments) {
            Err(error) => Err(error),
            Ok(parts) => Ok(
                "{ Get { "@ + collection + "("@ + joined(
                    parts.push("limit: "@ + decimal(limit)),
                    ", "@,
                ) + ") { "@ + selection_text(fields, arguments, include_vector) + " } } }"@,
            ),
        },
    }
}

/// Where some first arguments have an error, all of them have that one.
proof fn lemma_arguments_fail_early(list: Seq<(Seq<char>, JsonModel)>, count: int)
    requires
        0 <= count <= list.len(),
        argument_texts(list.subrange(0, count)) is Err,
    ensures
        argument_texts(list) == argument_texts(list.subrange(0, count)),
    decreases list.len(),
{
    if count == list.len() {
        assert(list.subrange(0, count) =~= list);
    } else {
        assert(list.drop_last().subrange(0, count) =~= list.subrange(0, count));
        lemma_arguments_fail_early(list.drop_last(), count);
    }
}

/// Writes the arguments of a search as GraphQL.
fn write_arguments(list: &Vec<(String, Json)>) -> (result: Result<Vec<String>, ConnectorError>)
    ensures
        is_texts_result(result, argument_texts(members(list@))),
{
    let ghost all = members(list@);
    let mut parts: Vec<String> = Vec::new();
    let mut i: usize = 0;
    assert(all.subrange(0, 0) =~= Seq::<(Seq<char>, JsonModel)>::empty());
    while i < list.len()
        invariant
            i <= list@.len(),
            all == members(list@),
            argument_texts(all.subrange(0, i as int)) == Ok::<Seq<Seq<char>>, ErrorModel>(
                texts(parts@),
            ),
        decreases list@.len() - i,
    {
        let item = &list[i];
        let ghost next = all.subrange(0, i + 1);
        assert(next.drop_last() =~= all.subrange(0, i as int));
        assert(next.last() == (item.0@, item.1@));
        if !is_one_of(
            item.0.as_str(),
            &["nearVector", "nearText", "nearObject", "bm25", "hybrid", "where", "tenant"],
        ) {
            proof {
                lemma_arguments_fail_early(all, i + 1);
            }
            let message = appended(
                "unsupported Weaviate GraphQL search argument ",
                item.0.as_str(),
            );
            return Err(invalid(message.as_str()));
        }
        match graphql_literal(&item.1) {
            Err(error) => {
                proof {
                    lemma_arguments_fail_early(all, i + 1);
                }
                return Err(error);
            },
            Ok(text) => {
                parts.push(framed(item.0.as_str(), ": ", text.as_str()));
            },
        }
        i = i + 1;
    }
    assert(all.subrange(0, i as int) =~= all);
    Ok(parts)
}

/// Writes what a search selects.
fn write_selection_text(
    fields: &Vec<String>,
    arguments: &Vec<(String, Json)>,
    include_vector: bool,
) -> (result: String)
    ensures
        result@ == selection_text(texts(fields@), members(arguments@), include_vector),
{
    let mut selection = join(fields, " ");
    if !selection.as_str().is_empty() {
        selection.push(' ');
    }
    let relevance = if find_index(arguments, "bm25").is_some() || find_index(
        arguments,
        "hybrid",
    ).is_some() {
        " score"
    } else if find_index(arguments, "nearVector").is_some() || find_index(
        arguments,
        "nearText",
    ).is_some() || find_index(arguments, "nearObject").is_some() {
        " distance"
    } else {
        ""
    };
    selection.append("_additional { id");
    selection.append(relevance);
    selection.append(
        if include_vector {
            " vector"
        } else {
            ""
        },
    );
    selection.append(" }");
    selection
}

/// Writes the GraphQL query of a search in a collection.
pub fn build_get_query(
    collection: &str,
    arguments: &Vec<(String, Json)>,
    limit: usize,
    fields: &Vec<String>,
    include_vector: bool,
) -> (result: Result<String, ConnectorError>)
    ensures
        is_text_result(
            result,
            get_query(
                collection@,
                members(arguments@),
                limit as nat,
                texts(fields@),
                include_vector,
            ),
        ),
{
    match validate_graphql_name(collection) {
        Err(error) => {
            return Err(error);
        },
        Ok(()) => {},
    }
    let mut parts = match write_arguments(arguments) {
        Err(error) => {
            return Err(error);
        },
        Ok(parts) => parts,
    };
    let amount = decimal_text(limit as u64);
    parts.push(appended("limit: ", amount.as_str()));
    let inner = join(&parts, ", ");
    let selection = write_selection_text(fields, arguments, include_vector);
    let mut query = "{ Get { ".to_owned();
    query.append(collection);
    query.append("(");
    query.append(inner.as_str());
    query.append(") { ");
    query.append(selection.as_str());
    query.append(" } } }");
    Ok(query)
}

/// The error of an identity that is no UUID.
pub open spec fn id_error(id: Seq<char>) -> Option<ErrorModel> {
    if uuid_bytes(id) is Some {
        None
    } else {
        Some(invalid_request("Weaviate object ids must be UUIDs"@))
    }
}

/// Refuses an identity that is no UUID.
pub fn validate_weaviate_id(id: &str) -> (result: Result<(), ConnectorError>)
    ensures
        error_of(result) == id_error(id@),
{
    match parse_uuid(id) {
        Some(_) => Ok(()),
        None => Err(invalid("Weaviate object ids must be UUIDs")),
    }
}

/// The definitions of a GraphQL document.
#[derive(Debug, Clone, Copy, PartialEq, Eq, Structural)]
pub enum GraphqlDefinition {
    SelectionSet,
    Query,
    Mutation,
    Subscription,
    Fragment,
}

/// The definitions that a GraphQL document holds.
pub uninterp spec fn graphql_definitions(statement: Seq<char>) -> Option<Seq<GraphqlDefinition>>;

/// The definitions that are read from a GraphQL document. One in which the parser would cut a
/// character of a block string is not read.
pub open spec fn read_definitions(statement: Seq<char>) -> Option<Seq<GraphqlDefinition>> {
    if cuts_block_string(statement) {
        None
    } else {
        graphql_definitions(statement)
    }
}

/// `graphql_parser::query::parse_query`, by the kinds of the definitions of the document. It
/// panics where it cuts a character of a block string.
#[verifier::external_body]
fn parse_definitions(statement: &str) -> (result: Option<Vec<GraphqlDefinition>>)
    requires
        !cuts_block_string(statement@),
    ensures
        match (result, graphql_definitions(statement@)) {
            (Some(list), Some(wanted)) => list@ == wanted,
            (None, None) => true,
            _ => false,
        },
{
    let document = parse_query::<String>(statement).ok()?;
    Some(document.definitions.iter().map(|definition| match definition {
        Definition::Operation(OperationDefinition::SelectionSet(_)) => GraphqlDefinition::SelectionSet,
        Definition::Operation(OperationDefinition::Query(_)) => GraphqlDefinition::Query,
        Definition::Operation(OperationDefinition::Mutation(_)) => GraphqlDefinition::Mutation,
        Definition::Operation(OperationDefinition::Subscription(_)) => GraphqlDefinition::Subscription,
        Definition::Fragment(_) => GraphqlDefinition::Fragment,
    }).collect())
}

/// Whether a definition changes data or keeps on watching it.
pub open spec fn is_changing(definition: GraphqlDefinition) -> bool {
    definition == GraphqlDefinition::Mutation || definition == GraphqlDefinition::Subscription
}

/// Whether a definition is a query.
pub open spec fn is_query(definition: GraphqlDefinition) -> bool {
    definition == GraphqlDefinition::SelectionSet || definition == GraphqlDefinition::Query
}

/// The error of a GraphQL document that does more than read, or does not read at all.
pub open spec fn definitions_error(definitions: Option<Seq<GraphqlDefinition>>) -> Option<
    ErrorModel,
> {
    match definitions {
        None => Some(invalid_request("Weaviate GraphQL statement could not be parsed"@)),
        Some(list) => if exists|i: int| 0 <= i < list.len() && is_changing(#[trigger] list[i]) {
            Some(
                failure(
                    ErrorCategory::PermissionDenied,
                    "GraphQL mutation and subscription operations are not allowed in NativeQuery"@,
                ),
            )
        } else if exists|i: int| 0 <= i < list.len() && is_query(#[trigger] list[i]) {
            None
        } else {
            Some(
                invalid_request(
                    "Weaviate GraphQL statement does not contain a query operation"@,
                ),
            )
        },
    }
}

/// Refuses a GraphQL document that does more than read, or does not read at all.
pub fn check_definitions(definitions: Option<&Vec<GraphqlDefinition>>) -> (result: Result<
    (),
    ConnectorError,
>)
    ensures
        error_of(result) == definitions_error(
            match definitions {
                Some(list) => Some(list@),
                None => None,
            },
        ),
{
    let list = match definitions {
        None => {
            return Err(invalid("Weaviate GraphQL statement could not be parsed"));
        },
        Some(list) => list,
    };
    let mut has_query = false;
    let mut i: usize = 0;
    while i < list.len()
        invariant
            i <= list@.len(),
            definitions == Some(list),
            forall|j: int| 0 <= j < i ==> !is_changing(#[trigger] list@[j]),
            has_query == exists|j: int| 0 <= j < i && is_query(#[trigger] list@[j]),
        decreases list@.len() - i,
    {
        match list[i] {
            GraphqlDefinition::SelectionSet | GraphqlDefinition::Query => {
                assert(is_query(list@[i as int]));
                has_query = true;
            },
            GraphqlDefinition::Mutation | GraphqlDefinition::Subscription => {
                assert(is_changing(list@[i as int]));
                return Err(
                    ConnectorError::new(
                        ErrorCategory::PermissionDenied,
                        "GraphQL mutation and subscription operations are not allowed in NativeQuery",
                    ),
                );
            },
            GraphqlDefinition::Fragment => {},
        }
        i = i + 1;
    }
    if has_query {
        proof {
            let j = choose|j: int| 0 <= j < list@.len() && is_query(#[trigger] list@[j]);
            lemma_reading_definitions(list@, j);
        }
        Ok(())
    } else {
        Err(invalid("Weaviate GraphQL statement does not contain a query operation"))
    }
}

/// A GraphQL document with a query and nothing that changes is accepted.
proof fn lemma_reading_definitions(list: Seq<GraphqlDefinition>, at: int)
    requires
        0 <= at < list.len(),
        is_query(list[at]),
        forall|i: int| 0 <= i < list.len() ==> !is_changing(#[trigger] list[i]),
    ensures
        definitions_error(Some(list)) is None,
{
    assert(!(exists|i: int| 0 <= i < list.len() && is_changing(#[trigger] list[i])));
    assert(exists|i: int| 0 <= i < list.len() && is_query(#[trigger] list[i]));
    assert(match Some(list) {
        Some(same) => !(exists|i: int| 0 <= i < same.len() && is_changing(#[trigger] same[i])) && (
        exists|i: int| 0 <= i < same.len() && is_query(#[trigger] same[i])),
        None => false,
    });
}

/// Refuses a GraphQL statement that does more than read, or does not read at all.
pub fn validate_read_only_graphql(statement: &str) -> (result: Result<(), ConnectorError>)
    ensures
        error_of(result) == definitions_error(read_definitions(statement@)),
{
    if finds_cut_block_string(statement) {
        return check_definitions(None);
    }
    let definitions = parse_definitions(statement);
    match &definitions {
        Some(list) => check_definitions(Some(list)),
        None => check_definitions(None),
    }
}

/// A GraphQL document that is accepted changes nothing.
pub proof fn lemma_accepted_graphql_only_reads(definitions: Seq<GraphqlDefinition>)
    requires
        definitions_error(Some(definitions)) is None,
    ensures
        forall|i: int| 0 <= i < definitions.len() ==> !is_changing(#[trigger] definitions[i]),
        exists|i: int| 0 <= i < definitions.len() && is_query(#[trigger] definitions[i]),
{
}

} // verus!
