//! Qdrant's points, identities and filters.
use crate::base64_text::{lemma_base64_is_read_back, Base64Form};
use crate::convert::{
    db_value_to_json, db_values_to_json, is_json_list_result, is_json_result, value_json,
    values_json,
};
use crate::encoding::{
    base64_url_bytes, base64_url_text, decode_base64_url, encode_base64_url, is_plain_document,
    json_text, parse_uuid, parsed_json, read_json, uuid_bytes, write_json,
};
use crate::http::common::{
    content_record, find_nested, is_one_of, is_records_result, nested, read_content_record,
};
use crate::http::native::{path_segments, segments_of};
use crate::http::transport::{pairs, HttpMethod, MethodModel};
use crate::json::{
    as_items, as_text, items_of, member, number, only, read_unsigned, single, text, text_of,
    unsigned_notation, wrap, JsonObject,
};
use crate::model::{
    error_of, failure, invalid, invalid_request, is_text_result, protocol, protocol_failure,
    unsupported, unsupported_request, ConnectorError, ErrorCategory, ErrorModel, Filter,
};
use crate::text::{
    contains_text, decimal, names_of, occurs_in, parse_unsigned, same, texts, unsigned_value,
};
use crate::value::{
    documents, records, values, DbRecord, DbValue, Json, JsonModel, RecordModel, ValueModel,
};
use vstd::prelude::*;
use vstd::utf8::encode_utf8;

verus! {

broadcast use {crate::text::group_texts, crate::value::group_models};

/// The error of a value that cannot name a point.
pub open spec fn bad_id() -> ErrorModel {
    invalid_request("Qdrant point ids must be unsigned integers or UUIDs"@)
}

/// The identity that a text denotes: an unsigned integer, or a UUID.
pub open spec fn text_id(text: Seq<char>) -> Result<JsonModel, ErrorModel> {
    match unsigned_value(text) {
        Some(number) => Ok(JsonModel::Number(decimal(number as nat))),
        None => if uuid_bytes(text) is Some {
            Ok(JsonModel::Text(text))
        } else {
            Err(bad_id())
        },
    }
}

/// The identity that a text denotes.
pub fn qdrant_id_from_str(value: &str) -> (result: Result<Json, ConnectorError>)
    ensures
        is_json_result(result, text_id(value@)),
{
    match parse_unsigned(value) {
        Some(amount) => {
            return Ok(number(amount));
        },
        None => {},
    }
    match parse_uuid(value) {
        Some(_) => Ok(text(value)),
        None => Err(invalid("Qdrant point ids must be unsigned integers or UUIDs")),
    }
}

/// The identity that a value denotes.
pub open spec fn value_id(value: ValueModel) -> Result<JsonModel, ErrorModel> {
    match value {
        ValueModel::UInt64(number) => Ok(JsonModel::Number(decimal(number as nat))),
        ValueModel::Int64(number) => if number >= 0 {
            Ok(JsonModel::Number(decimal(number as nat)))
        } else {
            Err(bad_id())
        },
        ValueModel::String(text) => text_id(text),
        ValueModel::Uuid(text) => text_id(text),
        _ => Err(bad_id()),
    }
}

/// The identity that a value denotes.
pub fn qdrant_id_from_db_value(value: &DbValue) -> (result: Result<Json, ConnectorError>)
    ensures
        is_json_result(result, value_id(value@)),
{
    match value {
        DbValue::UInt64(amount) => Ok(number(*amount)),
        DbValue::Int64(amount) => if *amount >= 0 {
            Ok(number(*amount as u64))
        } else {
            Err(invalid("Qdrant point ids must be unsigned integers or UUIDs"))
        },
        DbValue::String(content) => qdrant_id_from_str(content.as_str()),
        DbValue::Uuid(content) => qdrant_id_from_str(content.as_str()),
        _ => Err(invalid("Qdrant point ids must be unsigned integers or UUIDs")),
    }
}

/// The identities that values denote; the error of the first that has one.
pub open spec fn value_ids(list: Seq<ValueModel>) -> Result<Seq<JsonModel>, ErrorModel>
    decreases list.len(),
{
    if list.len() == 0 {
        Ok(Seq::empty())
    } else {
        match value_ids(list.drop_last()) {
            Err(error) => Err(error),
            Ok(before) => match value_id(list.last()) {
                Err(error) => Err(error),
                Ok(id) => Ok(before.push(id)),
            },
        }
    }
}

/// Where some first values have an error, all of them have that one.
proof fn lemma_ids_fail_early(list: Seq<ValueModel>, count: int)
    requires
        0 <= count <= list.len(),
        value_ids(list.subrange(0, count)) is Err,
    ensures
        value_ids(list) == value_ids(list.subrange(0, count)),
    decreases list.len(),
{
    if count == list.len() {
        assert(list.subrange(0, count) =~= list);
    } else {
        assert(list.drop_last().subrange(0, count) =~= list.subrange(0, count));
        lemma_ids_fail_early(list.drop_last(), count);
    }
}

/// The identities that values denote.
fn read_ids(list: &Vec<DbValue>) -> (result: Result<Vec<Json>, ConnectorError>)
    ensures
        is_json_list_result(result, value_ids(values(list@))),
{
    let ghost all = values(list@);
    let mut ids: Vec<Json> = Vec::new();
    let mut i: usize = 0;
    assert(all.subrange(0, 0) =~= Seq::<ValueModel>::empty());
    while i < list.len()
        invariant
            i <= list@.len(),
            all == values(list@),
            value_ids(all.subrange(0, i as int)) == Ok::<Seq<JsonModel>, ErrorModel>(
                documents(ids@),
            ),
        decreases list@.len() - i,
    {
        assert(all.subrange(0, i + 1).drop_last() =~= all.subrange(0, i as int));
        match qdrant_id_from_db_value(&list[i]) {
            Err(error) => {
                proof {
                    lemma_ids_fail_early(all, i + 1);
                }
                return Err(error);
            },
            Ok(id) => {
                ids.push(id);
            },
        }
        i = i + 1;
    }
    assert(all.subrange(0, i as int) =~= all);
    Ok(ids)
}

/// Whether a field is the identity of a point.
pub open spec fn is_id_field(field: Seq<char>) -> bool {
    field == "id"@ || field == "_id"@
}

/// Whether a field is the identity of a point.
fn names_id(field: &str) -> (result: bool)
    ensures
        result == is_id_field(field@),
{
    same(field, "id") || same(field, "_id")
}

/// The identities that a filter names.
pub open spec fn filter_ids(filter: Filter) -> Result<Seq<JsonModel>, ErrorModel> {
    match filter {
        Filter::Eq { field, value } if is_id_field(field@) => match value_id(value@) {
            Err(error) => Err(error),
            Ok(id) => Ok(Seq::empty().push(id)),
        },
        Filter::In { field, values: list } if is_id_field(field@) => value_ids(values(list@)),
        _ => Err(
            unsupported_request("bounded Qdrant delete requires an equality or IN filter on id"@),
        ),
    }
}

/// The identities that a filter names.
pub fn qdrant_ids(filter: &Filter) -> (result: Result<Vec<Json>, ConnectorError>)
    ensures
        is_json_list_result(result, filter_ids(*filter)),
{
    match filter {
        Filter::Eq { field, value } => {
            if names_id(field.as_str()) {
                return match qdrant_id_from_db_value(value) {
                    Err(error) => Err(error),
                    Ok(id) => {
                        let mut ids: Vec<Json> = Vec::new();
                        ids.push(id);
                        Ok(ids)
                    },
                };
            }
        },
        Filter::In { field, values } => {
            if names_id(field.as_str()) {
                return read_ids(values);
            }
        },
        _ => {},
    }
    Err(unsupported("bounded Qdrant delete requires an equality or IN filter on id"))
}

/// A clause of one condition.
pub open spec fn clause(kind: Seq<char>, condition: JsonModel) -> JsonModel {
    single(kind, JsonModel::Array(Seq::empty().push(condition)))
}

/// A condition that a point has one of some identities.
pub open spec fn has_id(ids: Seq<JsonModel>) -> JsonModel {
    single("has_id"@, JsonModel::Array(ids))
}

/// A condition on a field.
pub open spec fn field_condition(
    field: Seq<char>,
    kind: Seq<char>,
    name: Seq<char>,
    value: JsonModel,
) -> JsonModel {
    JsonModel::Object(
        Seq::empty().push(("key"@, JsonModel::Text(field))).push((kind, single(name, value))),
    )
}

/// A clause of one condition on a field.
pub open spec fn field_clause(
    clause_kind: Seq<char>,
    field: Seq<char>,
    kind: Seq<char>,
    name: Seq<char>,
    value: Result<JsonModel, ErrorModel>,
) -> Result<JsonModel, ErrorModel> {
    match value {
        Err(error) => Err(error),
        Ok(value) => Ok(clause(clause_kind, field_condition(field, kind, name, value))),
    }
}

/// A clause on the identity of points.
pub open spec fn id_clause(kind: Seq<char>, value: ValueModel) -> Result<JsonModel, ErrorModel> {
    match value_id(value) {
        Err(error) => Err(error),
        Ok(id) => Ok(clause(kind, has_id(Seq::empty().push(id)))),
    }
}

/// The condition of a filter.
pub open spec fn condition(filter: Filter) -> Result<JsonModel, ErrorModel>
    decreases filter,
{
    match filter {
        Filter::Eq { field, value } => if is_id_field(field@) {
            id_clause("must"@, value@)
        } else {
            field_clause("must"@, field@, "match"@, "value"@, value_json(value@))
        },
        Filter::Ne { field, value } => if is_id_field(field@) {
            id_clause("must_not"@, value@)
        } else {
            field_clause("must_not"@, field@, "match"@, "value"@, value_json(value@))
        },
        Filter::In { field, values: list } => if is_id_field(field@) {
            match value_ids(values(list@)) {
                Err(error) => Err(error),
                Ok(ids) => Ok(clause("must"@, has_id(ids))),
            }
        } else {
            match values_json(values(list@)) {
                Err(error) => Err(error),
                Ok(items) => Ok(
                    clause(
                        "must"@,
                        field_condition(field@, "match"@, "any"@, JsonModel::Array(items)),
                    ),
                ),
            }
        },
        Filter::Contains { field, value } => field_clause(
            "must"@,
            field@,
            "match"@,
            "text"@,
            value_json(value@),
        ),
        Filter::Lt { field, value } => field_clause(
            "must"@,
            field@,
            "range"@,
            "lt"@,
            value_json(value@),
        ),
        Filter::Lte { field, value } => field_clause(
            "must"@,
            field@,
            "range"@,
            "lte"@,
            value_json(value@),
        ),
        Filter::Gt { field, value } => field_clause(
            "must"@,
            field@,
            "range"@,
            "gt"@,
            value_json(value@),
        ),
        Filter::Gte { field, value } => field_clause(
            "must"@,
            field@,
            "range"@,
            "gte"@,
            value_json(value@),
        ),
        Filter::And { filters } => match conditions(filters@) {
            Err(error) => Err(error),
            Ok(inner) => Ok(single("must"@, JsonModel::Array(inner))),
        },
        Filter::Or { filters } => match conditions(filters@) {
            Err(error) => Err(error),
            Ok(inner) => Ok(
                JsonModel::Object(
                    Seq::empty().push(("should"@, JsonModel::Array(inner))).push(
                        ("min_should"@, JsonModel::Number(decimal(1))),
                    ),
                ),
            ),
        },
        Filter::Not { filter } => match condition(*filter) {
            Err(error) => Err(error),
            Ok(inner) => Ok(clause("must_not"@, inner)),
        },
    }
}

/// The conditions of filters; the error of the first that has one.
pub open spec fn conditions(filters: Seq<Filter>) -> Result<Seq<JsonModel>, ErrorModel>
    decreases filters,
{
    if filters.len() == 0 {
        Ok(Seq::empty())
    } else {
        match conditions(filters.subrange(0, filters.len() - 1)) {
            Err(error) => Err(error),
            Ok(before) => match condition(filters[filters.len() - 1]) {
                Err(error) => Err(error),
                Ok(last) => Ok(before.push(last)),
            },
        }
    }
}

/// Where some first filters have an error, all of them have that one.
proof fn lemma_conditions_fail_early(filters: Seq<Filter>, count: int)
    requires
        0 <= count <= filters.len(),
        conditions(filters.subrange(0, count)) is Err,
    ensures
        conditions(filters) == conditions(filters.subrange(0, count)),
    decreases filters.len(),
{
    if count == filters.len() {
        assert(filters.subrange(0, count) =~= filters);
    } else {
        let shorter = filters.subrange(0, filters.len() - 1);
        assert(shorter.subrange(0, count) =~= filters.subrange(0, count));
        lemma_conditions_fail_early(shorter, count);
    }
}

/// Writes a condition on a field.
fn write_condition(field: &str, kind: &str, name: &str, value: Json) -> (result: Json)
    ensures
        result@ == field_condition(field@, kind@, name@, value@),
{
    let mut object = JsonObject::new();
    object.put("key", text(field));
    object.put(kind, wrap(name, value));
    object.finish()
}

/// Writes a clause of one condition on a field.
fn write_clause(
    clause_kind: &str,
    field: &str,
    kind: &str,
    name: &str,
    value: Result<Json, ConnectorError>,
) -> (result: Result<Json, ConnectorError>)
    ensures
        match (value, result) {
            (Ok(value), Ok(document)) => document@ == clause(
                clause_kind@,
                field_condition(field@, kind@, name@, value@),
            ),
            (Err(error), Err(given)) => error@ == given@,
            _ => false,
        },
{
    match value {
        Err(error) => Err(error),
        Ok(value) => Ok(wrap(clause_kind, only(write_condition(field, kind, name, value)))),
    }
}

/// Writes a clause on the identity of points.
fn write_id_clause(kind: &str, value: &DbValue) -> (result: Result<Json, ConnectorError>)
    ensures
        is_json_result(result, id_clause(kind@, value@)),
{
    match qdrant_id_from_db_value(value) {
        Err(error) => Err(error),
        Ok(id) => Ok(wrap(kind, only(wrap("has_id", only(id))))),
    }
}

/// Writes the condition of a filter.
pub fn qdrant_filter(filter: &Filter) -> (result: Result<Json, ConnectorError>)
    ensures
        is_json_result(result, condition(*filter)),
    decreases filter,
{
    match filter {
        Filter::Eq { field, value } => if names_id(field.as_str()) {
            write_id_clause("must", value)
        } else {
            write_clause("must", field.as_str(), "match", "value", db_value_to_json(value))
        },
        Filter::Ne { field, value } => if names_id(field.as_str()) {
            write_id_clause("must_not", value)
        } else {
            write_clause("must_not", field.as_str(), "match", "value", db_value_to_json(value))
        },
        Filter::In { field, values } => {
            if names_id(field.as_str()) {
                match read_ids(values) {
                    Err(error) => Err(error),
                    Ok(ids) => Ok(wrap("must", only(wrap("has_id", Json::Array(ids))))),
                }
            } else {
                match db_values_to_json(values) {
                    Err(error) => Err(error),
                    Ok(items) => Ok(
                        wrap(
                            "must",
                            only(
                                write_condition(field.as_str(), "match", "any", Json::Array(items)),
                            ),
                        ),
                    ),
                }
            }
        },
        Filter::Contains { field, value } => write_clause(
            "must",
            field.as_str(),
            "match",
            "text",
            db_value_to_json(value),
        ),
        Filter::Lt { field, value } => write_clause(
            "must",
            field.as_str(),
            "range",
            "lt",
            db_value_to_json(value),
        ),
        Filter::Lte { field, value } => write_clause(
            "must",
            field.as_str(),
            "range",
            "lte",
            db_value_to_json(value),
        ),
        Filter::Gt { field, value } => write_clause(
            "must",
            field.as_str(),
            "range",
            "gt",
            db_value_to_json(value),
        ),
        Filter::Gte { field, value } => write_clause(
            "must",
            field.as_str(),
            "range",
            "gte",
            db_value_to_json(value),
        ),
        Filter::And { filters } => match qdrant_filters(filters) {
            Err(error) => Err(error),
            Ok(inner) => Ok(wrap("must", Json::Array(inner))),
        },
        Filter::Or { filters } => match qdrant_filters(filters) {
            Err(error) => Err(error),
            Ok(inner) => {
                let mut object = JsonObject::new();
                object.put("should", Json::Array(inner));
                object.put("min_should", number(1));
                Ok(object.finish())
            },
        },
        Filter::Not { filter } => match qdrant_filter(filter) {
            Err(error) => Err(error),
            Ok(inner) => Ok(wrap("must_not", only(inner))),
        },
    }
}

/// Writes the conditions of filters.
fn qdrant_filters(filters: &Vec<Filter>) -> (result: Result<Vec<Json>, ConnectorError>)
    ensures
        is_json_list_result(result, conditions(filters@)),
    decreases filters,
{
    let ghost all = filters@;
    let mut list: Vec<Json> = Vec::new();
    let mut i: usize = 0;
    assert(all.subrange(0, 0) =~= Seq::<Filter>::empty());
    while i < filters.len()
        invariant
            i <= filters@.len(),
            all == filters@,
            conditions(all.subrange(0, i as int)) == Ok::<Seq<JsonModel>, ErrorModel>(
                documents(list@),
            ),
        decreases filters@.len() - i,
    {
        let filter = &filters[i];
        assert(decreases_to!(filters => *filter));
        let ghost next = all.subrange(0, i + 1);
        assert(next.subrange(0, next.len() - 1) =~= all.subrange(0, i as int));
        match qdrant_filter(filter) {
            Err(error) => {
                proof {
                    lemma_conditions_fail_early(all, i + 1);
                }
                return Err(error);
            },
            Ok(document) => {
                list.push(document);
            },
        }
        i = i + 1;
    }
    assert(all.subrange(0, i as int) =~= all);
    Ok(list)
}

/// The record of a point: its payload and what it keeps besides.
pub open spec fn point_record(point: JsonModel) -> RecordModel {
    content_record(point, "payload"@, names_of(["id", "score", "vector", "version"]@))
}

/// The record of a point.
pub fn qdrant_point_record(point: &Json) -> (result: DbRecord)
    ensures
        result@ == point_record(point@),
{
    read_content_record(point, "payload", &["id", "score", "vector", "version"])
}

/// The records of points.
pub open spec fn point_records(points: Seq<JsonModel>) -> Seq<RecordModel> {
    Seq::new(points.len(), |i: int| point_record(points[i]))
}

/// Reads the records of points.
pub fn read_points(points: &Vec<Json>) -> (result: Vec<DbRecord>)
    ensures
        records(result@) == point_records(documents(points@)),
{
    let ghost all = documents(points@);
    let mut found: Vec<DbRecord> = Vec::new();
    let mut i: usize = 0;
    while i < points.len()
        invariant
            i <= points@.len(),
            all == documents(points@),
            found@.len() == i,
            forall|j: int| 0 <= j < i ==> (#[trigger] found@[j])@ == point_record(all[j]),
        decreases points@.len() - i,
    {
        assert(all[i as int] == points@[i as int]@);
        found.push(qdrant_point_record(&points[i]));
        i = i + 1;
    }
    assert(records(found@) =~= point_records(all));
    found
}

/// The records of an answer to a query.
pub open spec fn query_records(answer: JsonModel) -> Result<Seq<RecordModel>, ErrorModel> {
    let found = match nested(answer, "result"@, "points"@) {
        Some(points) => Some(points),
        None => member(answer, "result"@),
    };
    match items_of(found) {
        None => Err(protocol_failure("Qdrant query response omitted points"@)),
        Some(points) => Ok(point_records(points)),
    }
}

/// Reads the records of an answer to a query.
pub fn qdrant_query_records(answer: &Json) -> (result: Result<Vec<DbRecord>, ConnectorError>)
    ensures
        is_records_result(result, query_records(answer@)),
{
    let found = match find_nested(answer, "result", "points") {
        Some(points) => Some(points),
        None => answer.get("result"),
    };
    match as_items(found) {
        None => Err(protocol("Qdrant query response omitted points")),
        Some(points) => Ok(read_points(points)),
    }
}

/// The cursor of an identity.
pub open spec fn cursor_text(id: JsonModel) -> Result<Seq<char>, ErrorModel> {
    match json_text(id) {
        None => Err(failure(ErrorCategory::Internal, "failed to encode Qdrant cursor"@)),
        Some(text) => Ok(base64_url_text(encode_utf8(text))),
    }
}

/// The document of a cursor.
pub open spec fn cursor_document(cursor: Seq<char>) -> Result<JsonModel, ErrorModel> {
    let document = match base64_url_bytes(cursor) {
        Some(bytes) => parsed_json(bytes),
        None => None,
    };
    match document {
        Some(document) => Ok(document),
        None => Err(invalid_request("Qdrant cursor is invalid"@)),
    }
}

/// Writes the cursor of an identity, which a plain identity is read back from.
pub fn encode_cursor(id: &Json) -> (result: Result<String, ConnectorError>)
    ensures
        is_text_result(result, cursor_text(id@)),
        is_plain_document(id@) ==> result is Ok && cursor_document(result->Ok_0@) == Ok::<
            JsonModel,
            ErrorModel,
        >(id@),
{
    match write_json(id) {
        None => Err(
            ConnectorError::new(ErrorCategory::Internal, "failed to encode Qdrant cursor"),
        ),
        Some(text) => {
            proof {
                lemma_base64_is_read_back(encode_utf8(text@), Base64Form::Url);
            }
            Ok(encode_base64_url(text.as_str().as_bytes()))
        },
    }
}

/// Reads the document of a cursor.
pub fn decode_cursor(cursor: &str) -> (result: Result<Json, ConnectorError>)
    ensures
        is_json_result(result, cursor_document(cursor@)),
{
    let document = match decode_base64_url(cursor) {
        None => None,
        Some(bytes) => read_json(bytes.as_slice()),
    };
    match document {
        Some(document) => Ok(document),
        None => Err(invalid("Qdrant cursor is invalid")),
    }
}

/// The error of a document that names no point.
pub open spec fn id_document_error(document: JsonModel) -> Option<ErrorModel> {
    let refused = Some(invalid_request("Qdrant cursor does not contain a valid point id"@));
    match document {
        JsonModel::Number(notation) => if unsigned_notation(notation) is Some {
            None
        } else {
            refused
        },
        JsonModel::Text(text) => match text_id(text) {
            Ok(_) => None,
            Err(error) => Some(error),
        },
        _ => refused,
    }
}

/// Refuses a document that names no point.
pub fn validate_qdrant_id_value(document: &Json) -> (result: Result<(), ConnectorError>)
    ensures
        error_of(result) == id_document_error(document@),
{
    match document {
        Json::Number(notation) => if read_unsigned(notation.as_str()).is_some() {
            Ok(())
        } else {
            Err(invalid("Qdrant cursor does not contain a valid point id"))
        },
        Json::Text(content) => match qdrant_id_from_str(content.as_str()) {
            Ok(_) => Ok(()),
            Err(error) => Err(error),
        },
        _ => Err(invalid("Qdrant cursor does not contain a valid point id")),
    }
}

/// Whether the segments behind the points of a collection name a read.
pub open spec fn is_points_read(rest: Seq<Seq<char>>) -> bool {
    if rest.len() == 0 {
        true
    } else if rest.len() == 1 {
        names_of(["scroll", "count", "search", "recommend", "discover", "query"]@).contains(rest[0])
    } else if rest.len() == 2 {
        ||| names_of(["search", "recommend", "query"]@).contains(rest[0]) && names_of(
            ["batch", "groups"]@,
        ).contains(rest[1])
        ||| rest[0] == "discover"@ && rest[1] == "batch"@
    } else if rest.len() == 3 {
        rest[0] == "search"@ && rest[1] == "matrix"@ && names_of(["pairs", "offsets"]@).contains(
            rest[2],
        )
    } else {
        false
    }
}

/// Whether a native request only reads.
pub open spec fn is_native_read(method: MethodModel, path: Seq<char>) -> bool {
    let segments = path_segments(path);
    if occurs_in("snapshot"@, path) || occurs_in("cluster"@, path) || occurs_in("shard"@, path) {
        false
    } else {
        match method {
            MethodModel::Get | MethodModel::Head => true,
            MethodModel::Post => segments.len() >= 3 && segments[0] == "collections"@ && segments[2]
                == "points"@ && is_points_read(segments.subrange(3, segments.len() as int)),
            _ => false,
        }
    }
}

/// Whether a native request only reads.
pub fn qdrant_native_read_path(method: &HttpMethod, path: &str) -> (result: bool)
    ensures
        result == is_native_read(method@, path@),
{
    if contains_text(path, "snapshot") || contains_text(path, "cluster") || contains_text(
        path,
        "shard",
    ) {
        return false;
    }
    match method {
        HttpMethod::Get | HttpMethod::Head => {
            return true;
        },
        HttpMethod::Post => {},
        _ => {
            return false;
        },
    }
    let segments = segments_of(path);
    let ghost all = texts(segments@);
    let count: usize = segments.len();
    assert(all.len() == count);
    assert(forall|i: int| 0 <= i < count ==> #[trigger] all[i] == segments@[i]@);
    if count < 3 || !same(segments[0].as_str(), "collections") || !same(
        segments[2].as_str(),
        "points",
    ) {
        return false;
    }
    let ghost rest = all.subrange(3, count as int);
    assert(forall|i: int| 0 <= i < rest.len() ==> #[trigger] rest[i] == segments@[i + 3]@);
    if count == 3 {
        true
    } else if count == 4 {
        is_one_of(
            segments[3].as_str(),
            &["scroll", "count", "search", "recommend", "discover", "query"],
        )
    } else if count == 5 {
        let first = segments[3].as_str();
        let second = segments[4].as_str();
        (is_one_of(first, &["search", "recommend", "query"]) && is_one_of(
            second,
            &["batch", "groups"],
        )) || (same(first, "discover") && same(second, "batch"))
    } else if count == 6 {
        same(segments[3].as_str(), "search") && same(segments[4].as_str(), "matrix") && is_one_of(
            segments[5].as_str(),
            &["pairs", "offsets"],
        )
    } else {
        false
    }
}

/// The error of an answer that does not say that a write is completed.
pub open spec fn write_error(answer: JsonModel) -> Option<ErrorModel> {
    let accepted = match member(answer, "status"@) {
        Some(status) => text_of(Some(status)) == Some("ok"@),
        None => true,
    };
    if accepted && text_of(nested(answer, "result"@, "status"@)) == Some("completed"@) {
        None
    } else {
        Some(
            failure(
                ErrorCategory::UnknownOutcome,
                "Qdrant did not confirm that the write completed; the server outcome is unknown"@,
            ),
        )
    }
}

/// Refuses an answer that does not say that a write is completed.
pub fn ensure_qdrant_write_completed(answer: &Json) -> (result: Result<(), ConnectorError>)
    ensures
        error_of(result) == write_error(answer@),
{
    let accepted = match answer.get("status") {
        Some(status) => match as_text(Some(status)) {
            Some(status) => same(status, "ok"),
            None => false,
        },
        None => true,
    };
    let completed = match as_text(find_nested(answer, "result", "status")) {
        Some(status) => same(status, "completed"),
        None => false,
    };
    if accepted && completed {
        return Ok(());
    }
    Err(
        ConnectorError::new(
            ErrorCategory::UnknownOutcome,
            "Qdrant did not confirm that the write completed; the server outcome is unknown",
        ),
    )
}

/// A write succeeds only where the answer says that it is completed; everything else leaves the
/// outcome unknown.
pub proof fn lemma_writes_must_complete(answer: JsonModel)
    ensures
        write_error(answer) is None ==> text_of(nested(answer, "result"@, "status"@)) == Some(
            "completed"@,
        ),
        write_error(answer) matches Some(error) ==> error.category == ErrorCategory::UnknownOutcome,
{
}

/// A native request that is accepted does not touch the administration of a cluster, and posts
/// only to reads of points.
pub proof fn lemma_native_queries_only_read(method: MethodModel, path: Seq<char>)
    requires
        is_native_read(method, path),
    ensures
        !occurs_in("snapshot"@, path),
        !occurs_in("cluster"@, path),
        !occurs_in("shard"@, path),
        method is Get || method is Head || method is Post,
        method is Post ==> path_segments(path).len() >= 3 && is_points_read(
            path_segments(path).subrange(3, path_segments(path).len() as int),
        ),
{
}

} // verus!
