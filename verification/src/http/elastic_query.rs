//! Search requests of Elasticsearch and OpenSearch, and what is read from their answers.
use crate::base64_text::{lemma_base64_is_read_back, Base64Form};
use crate::convert::{
    db_value_to_json, db_values_to_json, is_json_list_result, is_json_result, json_record,
    json_to_db_value, json_to_record, json_value, value_json, values_json, NumberStyle,
};
use crate::encoding::{
    base64_url_bytes, base64_url_text, decode_base64_url, encode_base64_url, is_plain_document,
    json_text, parsed_json, read_json, write_json,
};
use crate::http::transport::{categorize_status, status_category};
use crate::json::{
    as_items, as_unsigned, member, number, only, single, text, unsigned_of, with_member, wrap,
    JsonObject,
};
use crate::model::{
    failure, framed, invalid, invalid_request, is_text_result, ConnectorError, ErrorCategory,
    ErrorModel, Filter, QueryOptions, SortDirection, SortField,
};
use crate::text::{decimal, decimal_text, optional_text};
use crate::value::{documents, values, with_entry, DbRecord, Json, JsonModel, RecordModel};
use vstd::prelude::*;
use vstd::string::StringExecFns;
use vstd::utf8::encode_utf8;

verus! {

broadcast use {crate::text::group_texts, crate::value::group_models};

/// An object with a single member that is an object with a single member.
pub open spec fn clause(kind: Seq<char>, field: Seq<char>, value: JsonModel) -> JsonModel {
    single(kind, single(field, value))
}

/// A clause that excludes what another one asks for.
pub open spec fn negation(inner: JsonModel) -> JsonModel {
    single("bool"@, single("must_not"@, JsonModel::Array(Seq::empty().push(inner))))
}

/// A clause on one field, made of the document of a value.
pub open spec fn field_clause(
    kind: Seq<char>,
    field: Seq<char>,
    value: Result<JsonModel, ErrorModel>,
) -> Result<JsonModel, ErrorModel> {
    match value {
        Err(error) => Err(error),
        Ok(value) => Ok(clause(kind, field, value)),
    }
}

/// A comparison of a field with the document of a value.
pub open spec fn range_clause(
    field: Seq<char>,
    operator: Seq<char>,
    value: Result<JsonModel, ErrorModel>,
) -> Result<JsonModel, ErrorModel> {
    match value {
        Err(error) => Err(error),
        Ok(value) => Ok(clause("range"@, field, single(operator, value))),
    }
}

/// The query of a filter.
pub open spec fn filter_query(filter: Filter) -> Result<JsonModel, ErrorModel>
    decreases filter,
{
    match filter {
        Filter::Eq { field, value } => field_clause("term"@, field@, value_json(value@)),
        Filter::Ne { field, value } => match field_clause("term"@, field@, value_json(value@)) {
            Err(error) => Err(error),
            Ok(inner) => Ok(negation(inner)),
        },
        Filter::Lt { field, value } => range_clause(field@, "lt"@, value_json(value@)),
        Filter::Lte { field, value } => range_clause(field@, "lte"@, value_json(value@)),
        Filter::Gt { field, value } => range_clause(field@, "gt"@, value_json(value@)),
        Filter::Gte { field, value } => range_clause(field@, "gte"@, value_json(value@)),
        Filter::In { field, values: list } => match values_json(values(list@)) {
            Err(error) => Err(error),
            Ok(items) => Ok(clause("terms"@, field@, JsonModel::Array(items))),
        },
        Filter::Contains { field, value } => field_clause(
            "match_phrase"@,
            field@,
            value_json(value@),
        ),
        Filter::And { filters } => match filter_queries(filters@) {
            Err(error) => Err(error),
            Ok(inner) => Ok(clause("bool"@, "filter"@, JsonModel::Array(inner))),
        },
        Filter::Or { filters } => match filter_queries(filters@) {
            Err(error) => Err(error),
            Ok(inner) => Ok(
                single(
                    "bool"@,
                    JsonModel::Object(
                        Seq::empty().push(("should"@, JsonModel::Array(inner))).push(
                            ("minimum_should_match"@, JsonModel::Number(decimal(1))),
                        ),
                    ),
                ),
            ),
        },
        Filter::Not { filter } => match filter_query(*filter) {
            Err(error) => Err(error),
            Ok(inner) => Ok(negation(inner)),
        },
    }
}

/// The queries of several filters; the error of the first that has one.
pub open spec fn filter_queries(filters: Seq<Filter>) -> Result<Seq<JsonModel>, ErrorModel>
    decreases filters,
{
    if filters.len() == 0 {
        Ok(Seq::empty())
    } else {
        match filter_queries(filters.subrange(0, filters.len() - 1)) {
            Err(error) => Err(error),
            Ok(before) => match filter_query(filters[filters.len() - 1]) {
                Err(error) => Err(error),
                Ok(last) => Ok(before.push(last)),
            },
        }
    }
}

/// Where some first filters have an error, all of them have that one.
proof fn lemma_queries_fail_early(filters: Seq<Filter>, count: int)
    requires
        0 <= count <= filters.len(),
        filter_queries(filters.subrange(0, count)) is Err,
    ensures
        filter_queries(filters) == filter_queries(filters.subrange(0, count)),
    decreases filters.len(),
{
    if count == filters.len() {
        assert(filters.subrange(0, count) =~= filters);
    } else {
        let shorter = filters.subrange(0, filters.len() - 1);
        assert(shorter.subrange(0, count) =~= filters.subrange(0, count));
        lemma_queries_fail_early(shorter, count);
    }
}

/// A clause on one field.
fn write_clause(kind: &str, field: &str, value: Result<Json, ConnectorError>) -> (result: Result<
    Json,
    ConnectorError,
>)
    ensures
        match (value, result) {
            (Ok(value), Ok(document)) => document@ == clause(kind@, field@, value@),
            (Err(error), Err(given)) => error@ == given@,
            _ => false,
        },
{
    match value {
        Err(error) => Err(error),
        Ok(value) => Ok(wrap(kind, wrap(field, value))),
    }
}

/// A comparison of a field.
fn write_range(field: &str, operator: &str, value: Result<Json, ConnectorError>) -> (result: Result<
    Json,
    ConnectorError,
>)
    ensures
        match (value, result) {
            (Ok(value), Ok(document)) => document@ == clause(
                "range"@,
                field@,
                single(operator@, value@),
            ),
            (Err(error), Err(given)) => error@ == given@,
            _ => false,
        },
{
    match value {
        Err(error) => Err(error),
        Ok(value) => Ok(wrap("range", wrap(field, wrap(operator, value)))),
    }
}

/// A clause that excludes what another one asks for.
fn negate(inner: Result<Json, ConnectorError>) -> (result: Result<Json, ConnectorError>)
    ensures
        match (inner, result) {
            (Ok(inner), Ok(document)) => document@ == negation(inner@),
            (Err(error), Err(given)) => error@ == given@,
            _ => false,
        },
{
    match inner {
        Err(error) => Err(error),
        Ok(inner) => Ok(wrap("bool", wrap("must_not", only(inner)))),
    }
}

/// The query of a filter.
pub fn elastic_filter(filter: &Filter) -> (result: Result<Json, ConnectorError>)
    ensures
        is_json_result(result, filter_query(*filter)),
    decreases filter,
{
    match filter {
        Filter::Eq { field, value } => write_clause(
            "term",
            field.as_str(),
            db_value_to_json(value),
        ),
        Filter::Ne { field, value } => negate(
            write_clause("term", field.as_str(), db_value_to_json(value)),
        ),
        Filter::Lt { field, value } => write_range(field.as_str(), "lt", db_value_to_json(value)),
        Filter::Lte { field, value } => write_range(
            field.as_str(),
            "lte",
            db_value_to_json(value),
        ),
        Filter::Gt { field, value } => write_range(field.as_str(), "gt", db_value_to_json(value)),
        Filter::Gte { field, value } => write_range(
            field.as_str(),
            "gte",
            db_value_to_json(value),
        ),
        Filter::In { field, values } => match db_values_to_json(values) {
            Err(error) => Err(error),
            Ok(items) => Ok(wrap("terms", wrap(field.as_str(), Json::Array(items)))),
        },
        Filter::Contains { field, value } => write_clause(
            "match_phrase",
            field.as_str(),
            db_value_to_json(value),
        ),
        Filter::And { filters } => match elastic_filters(filters) {
            Err(error) => Err(error),
            Ok(inner) => Ok(wrap("bool", wrap("filter", Json::Array(inner)))),
        },
        Filter::Or { filters } => match elastic_filters(filters) {
            Err(error) => Err(error),
            Ok(inner) => {
                let mut object = JsonObject::new();
                object.put("should", Json::Array(inner));
                object.put("minimum_should_match", number(1));
                Ok(wrap("bool", object.finish()))
            },
        },
        Filter::Not { filter } => negate(elastic_filter(filter)),
    }
}

/// The queries of several filters.
fn elastic_filters(filters: &Vec<Filter>) -> (result: Result<Vec<Json>, ConnectorError>)
    ensures
        is_json_list_result(result, filter_queries(filters@)),
    decreases filters,
{
    let ghost all = filters@;
    let mut list: Vec<Json> = Vec::new();
    let mut i: usize = 0;
    assert(all.subrange(0, 0) =~= Seq::<Filter>::empty());
    while i < filters.len()
        invariant
            i <= filters@.len(),
            all == filters@,
            filter_queries(all.subrange(0, i as int)) == Ok::<Seq<JsonModel>, ErrorModel>(
                documents(list@),
            ),
        decreases filters@.len() - i,
    {
        let filter = &filters[i];
        assert(decreases_to!(filters => *filter));
        let ghost next = all.subrange(0, i + 1);
        assert(next.subrange(0, next.len() - 1) =~= all.subrange(0, i as int));
        match elastic_filter(filter) {
            Err(error) => {
                proof {
                    lemma_queries_fail_early(all, i + 1);
                }
                return Err(error);
            },
            Ok(document) => {
                list.push(document);
            },
        }
        i = i + 1;
    }
    assert(all.subrange(0, i as int) =~= all);
    Ok(list)
}

/// The cursor of the sort values of a hit.
pub open spec fn cursor_text(sort: JsonModel) -> Result<Seq<char>, ErrorModel> {
    match json_text(sort) {
        None => Err(failure(ErrorCategory::Internal, "failed to encode search cursor"@)),
        Some(text) => Ok(base64_url_text(encode_utf8(text))),
    }
}

/// The sort values of a cursor.
pub open spec fn cursor_values(cursor: Seq<char>) -> Result<JsonModel, ErrorModel> {
    let document = match base64_url_bytes(cursor) {
        Some(bytes) => parsed_json(bytes),
        None => None,
    };
    match document {
        Some(JsonModel::Array(items)) => Ok(JsonModel::Array(items)),
        _ => Err(invalid_request("search cursor is invalid"@)),
    }
}

/// Writes the sort values of a hit as a cursor, which plain values are read back from.
pub fn encode_cursor(sort: &Json) -> (result: Result<String, ConnectorError>)
    ensures
        is_text_result(result, cursor_text(sort@)),
        sort@ is Array && is_plain_document(sort@) ==> result is Ok && cursor_values(
            result->Ok_0@,
        ) == Ok::<JsonModel, ErrorModel>(sort@),
{
    match write_json(sort) {
        None => Err(
            ConnectorError::new(ErrorCategory::Internal, "failed to encode search cursor"),
        ),
        Some(text) => {
            proof {
                lemma_base64_is_read_back(encode_utf8(text@), Base64Form::Url);
            }
            Ok(encode_base64_url(text.as_str().as_bytes()))
        },
    }
}

/// Reads the sort values of a cursor.
pub fn decode_cursor(cursor: &str) -> (result: Result<Json, ConnectorError>)
    ensures
        is_json_result(result, cursor_values(cursor@)),
{
    let document = match decode_base64_url(cursor) {
        None => None,
        Some(bytes) => read_json(bytes.as_slice()),
    };
    match document {
        Some(Json::Array(items)) => Ok(Json::Array(items)),
        _ => Err(invalid("search cursor is invalid")),
    }
}

/// What a field is sorted by.
pub open spec fn sort_document(sort: SortField) -> JsonModel {
    single(
        sort.field@,
        JsonModel::Text(
            match sort.direction {
                SortDirection::Asc => "asc"@,
                SortDirection::Desc => "desc"@,
            },
        ),
    )
}

/// What fields are sorted by.
pub open spec fn sort_documents(list: Seq<SortField>) -> Seq<JsonModel> {
    Seq::new(list.len(), |i: int| sort_document(list[i]))
}

/// What fields are sorted by.
fn write_sort(list: &Vec<SortField>) -> (result: Vec<Json>)
    ensures
        documents(result@) == sort_documents(list@),
{
    let mut result: Vec<Json> = Vec::new();
    let mut i: usize = 0;
    while i < list.len()
        invariant
            i <= list@.len(),
            result@.len() == i,
            forall|j: int| 0 <= j < i ==> (#[trigger] result@[j])@ == sort_document(list@[j]),
        decreases list@.len() - i,
    {
        let direction = match list[i].direction {
            SortDirection::Asc => "asc",
            SortDirection::Desc => "desc",
        };
        result.push(wrap(list[i].field.as_str(), text(direction)));
        i = i + 1;
    }
    assert(documents(result@) =~= sort_documents(list@));
    result
}

/// A search body with the order and the place to go on from. Only a sorted search has a place to
/// go on from.
pub open spec fn with_options(body: Seq<(Seq<char>, JsonModel)>, options: QueryOptions) -> Result<
    Seq<(Seq<char>, JsonModel)>,
    ErrorModel,
> {
    let sorted = if options.sort@.len() == 0 {
        body
    } else {
        with_member(body, "sort"@, JsonModel::Array(sort_documents(options.sort@)))
    };
    match optional_text(options.cursor) {
        None => Ok(sorted),
        Some(cursor) => if crate::value::named(sorted, "sort"@) is None {
            Err(invalid_request("search cursor requires an explicit deterministic sort"@))
        } else {
            match cursor_values(cursor) {
                Err(error) => Err(error),
                Ok(place) => Ok(with_member(sorted, "search_after"@, place)),
            }
        },
    }
}

/// Puts the order and the place to go on from into a search body.
pub fn apply_search_options(body: JsonObject, options: &QueryOptions) -> (result: Result<
    JsonObject,
    ConnectorError,
>)
    ensures
        match (result, with_options(body@, *options)) {
            (Ok(object), Ok(wanted)) => object@ == wanted,
            (Err(error), Err(wanted)) => error@ == wanted,
            _ => false,
        },
{
    let mut body = body;
    if options.sort.len() > 0 {
        body.set("sort", Json::Array(write_sort(&options.sort)));
    }
    match &options.cursor {
        None => {},
        Some(cursor) => {
            if crate::json::find(&body.members, "sort").is_none() {
                return Err(invalid("search cursor requires an explicit deterministic sort"));
            }
            match decode_cursor(cursor.as_str()) {
                Err(error) => {
                    return Err(error);
                },
                Ok(place) => {
                    body.set("search_after", place);
                },
            }
        },
    }
    Ok(body)
}

/// A record with a member of a document, where the document has it.
pub open spec fn with_hit_member(record: RecordModel, hit: JsonModel, name: Seq<char>) -> RecordModel {
    match member(hit, name) {
        Some(value) => with_entry(record, name, json_value(NumberStyle::Double, value)),
        None => record,
    }
}

/// The record of a hit: its source, and what identifies and ranks it.
pub open spec fn hit_record(hit: JsonModel) -> RecordModel {
    let source = match member(hit, "_source"@) {
        Some(source) => json_record(source),
        None => Seq::empty(),
    };
    with_hit_member(
        with_hit_member(with_hit_member(source, hit, "_id"@), hit, "_index"@),
        hit,
        "_score"@,
    )
}

/// Puts a member of a document into a record.
fn add_hit_member(record: &mut DbRecord, hit: &Json, name: &str)
    ensures
        final(record)@ == with_hit_member(old(record)@, hit@, name@),
{
    match hit.get(name) {
        Some(value) => {
            record.insert(name.to_owned(), json_to_db_value(NumberStyle::Double, value));
        },
        None => {},
    }
}

/// The record of a hit.
pub fn elastic_hit_record(hit: &Json) -> (result: DbRecord)
    ensures
        result@ == hit_record(hit@),
{
    let mut record = match hit.get("_source") {
        Some(source) => json_to_record(source),
        None => DbRecord::new(),
    };
    add_hit_member(&mut record, hit, "_id");
    add_hit_member(&mut record, hit, "_index");
    add_hit_member(&mut record, hit, "_score");
    record
}

/// Documents, each on a line of its own.
pub open spec fn lines_text(list: Seq<JsonModel>) -> Option<Seq<char>>
    decreases list.len(),
{
    if list.len() == 0 {
        Some(Seq::empty())
    } else {
        match (lines_text(list.drop_last()), json_text(list.last())) {
            (Some(before), Some(line)) => Some((before + line).push('\n')),
            _ => None,
        }
    }
}

/// Where some first documents have no text, neither have all of them.
proof fn lemma_lines_fail_early(list: Seq<JsonModel>, count: int)
    requires
        0 <= count <= list.len(),
        lines_text(list.subrange(0, count)) is None,
    ensures
        lines_text(list) is None,
    decreases list.len(),
{
    if count == list.len() {
        assert(list.subrange(0, count) =~= list);
    } else {
        assert(list.drop_last().subrange(0, count) =~= list.subrange(0, count));
        lemma_lines_fail_early(list.drop_last(), count);
    }
}

/// Writes documents, each on a line of its own.
pub fn write_lines(list: &Vec<Json>) -> (result: Option<String>)
    ensures
        optional_text(result) == lines_text(documents(list@)),
{
    let ghost all = documents(list@);
    let mut lines = String::new();
    let mut i: usize = 0;
    assert(all.subrange(0, 0) =~= Seq::<JsonModel>::empty());
    assert(lines@ =~= Seq::<char>::empty());
    while i < list.len()
        invariant
            i <= list@.len(),
            all == documents(list@),
            lines_text(all.subrange(0, i as int)) == Some(lines@),
        decreases list@.len() - i,
    {
        assert(all.subrange(0, i + 1).drop_last() =~= all.subrange(0, i as int));
        match write_json(&list[i]) {
            None => {
                proof {
                    lemma_lines_fail_early(all, i + 1);
                }
                return None;
            },
            Some(line) => {
                lines.append(line.as_str());
                lines.push('\n');
            },
        }
        i = i + 1;
    }
    assert(all.subrange(0, i as int) =~= all);
    Some(lines)
}

/// The status of an item of a bulk answer.
pub open spec fn item_status(item: JsonModel) -> Option<u64> {
    match item {
        JsonModel::Object(list) if list.len() > 0 => unsigned_of(member(list[0].1, "status"@)),
        _ => None,
    }
}

/// Whether an item of a bulk answer was done.
pub open spec fn is_done(item: JsonModel) -> bool {
    item_status(item) matches Some(status) && 200 <= status < 300
}

/// How many items of a bulk answer were done.
pub open spec fn done_count(items: Seq<JsonModel>) -> nat
    decreases items.len(),
{
    if items.len() == 0 {
        0
    } else {
        done_count(items.drop_last()) + (if is_done(items.last()) {
            1nat
        } else {
            0nat
        })
    }
}

/// The category of the failure of an item.
pub open spec fn item_category(item: JsonModel) -> ErrorCategory {
    status_category(item_status(item)->0 as int).0
}

/// The category of the failures of items: the one that all have in common.
pub open spec fn common_category(items: Seq<JsonModel>) -> ErrorCategory {
    if forall|i: int|
        0 <= i < items.len() ==> item_category(#[trigger] items[i]) == item_category(items[0]) {
        item_category(items[0])
    } else {
        ErrorCategory::InvalidRequest
    }
}

/// How many records a bulk request wrote: all of them, or an error. Where only some were written
/// or the answer does not say, the outcome is unknown.
pub open spec fn bulk_result(answer: JsonModel) -> Result<u64, ErrorModel> {
    match crate::json::items_of(member(answer, "items"@)) {
        None => Err(
            failure(
                ErrorCategory::UnknownOutcome,
                "bulk response did not contain items; the write outcome is unknown"@,
            ),
        ),
        Some(items) => if items.len() == 0 {
            Err(
                failure(
                    ErrorCategory::UnknownOutcome,
                    "bulk response contained no items; the write outcome is unknown"@,
                ),
            )
        } else if exists|i: int| 0 <= i < items.len() && item_status(#[trigger] items[i]) is None {
            Err(
                failure(
                    ErrorCategory::UnknownOutcome,
                    "bulk response item did not contain a status; the write outcome is unknown"@,
                ),
            )
        } else if done_count(items) == items.len() {
            Ok(items.len() as u64)
        } else if done_count(items) > 0 {
            Err(
                failure(
                    ErrorCategory::UnknownOutcome,
                    "bulk request completed "@ + decimal(done_count(items))
                        + " item(s) and failed "@ + decimal(
                        (items.len() - done_count(items)) as nat,
                    ) + " item(s)"@,
                ),
            )
        } else {
            Err(
                failure(
                    common_category(items),
                    "bulk request rejected all "@ + decimal(items.len()) + " item(s)"@,
                ),
            )
        },
    }
}

/// The status of an item of a bulk answer.
fn read_status(item: &Json) -> (result: Option<u64>)
    ensures
        result == item_status(item@),
{
    match item {
        Json::Object(list) => if list.len() > 0 {
            assert(crate::value::members(list@)[0].1 == list@[0].1@);
            as_unsigned(list[0].1.get("status"))
        } else {
            None
        },
        _ => None,
    }
}

/// No more items were done than there are.
proof fn lemma_done_count(items: Seq<JsonModel>)
    ensures
        done_count(items) <= items.len(),
        done_count(items) == 0 ==> forall|i: int|
            0 <= i < items.len() ==> !is_done(#[trigger] items[i]),
    decreases items.len(),
{
    if items.len() > 0 {
        lemma_done_count(items.drop_last());
        assert forall|i: int| done_count(items) == 0 && 0 <= i < items.len() implies !is_done(
            #[trigger] items[i],
        ) by {
            if i < items.len() - 1 {
                assert(items.drop_last()[i] == items[i]);
            }
        }
    }
}

/// The category of the failures of items.
fn agreed_category(items: &Vec<Json>) -> (result: ErrorCategory)
    requires
        items@.len() > 0,
        forall|i: int|
            0 <= i < items@.len() ==> item_status(#[trigger] documents(items@)[i]) is Some,
    ensures
        result == common_category(documents(items@)),
{
    let ghost all = documents(items@);
    assert(all[0] == items@[0]@);
    let first: u64 = match read_status(&items[0]) {
        Some(status) => status,
        None => 0,
    };
    let (category, _) = categorize_status(first);
    let mut i: usize = 1;
    while i < items.len()
        invariant
            1 <= i <= items@.len(),
            all == documents(items@),
            all.len() == items@.len(),
            category == item_category(all[0]),
            forall|j: int| 0 <= j < all.len() ==> item_status(#[trigger] all[j]) is Some,
            forall|j: int| 0 <= j < i ==> item_category(#[trigger] all[j]) == category,
        decreases items@.len() - i,
    {
        assert(all[i as int] == items@[i as int]@);
        let status: u64 = match read_status(&items[i]) {
            Some(status) => status,
            None => 0,
        };
        let (other, _) = categorize_status(status);
        if other != category {
            assert(item_category(all[i as int]) != item_category(all[0]));
            return ErrorCategory::InvalidRequest;
        }
        i = i + 1;
    }
    category
}

/// Reads how many records a bulk request wrote.
pub fn read_bulk(answer: &Json) -> (result: Result<u64, ConnectorError>)
    ensures
        match (result, bulk_result(answer@)) {
            (Ok(count), Ok(wanted)) => count == wanted,
            (Err(error), Err(wanted)) => error@ == wanted,
            _ => false,
        },
{
    let items = match as_items(answer.get("items")) {
        None => {
            return Err(
                ConnectorError::new(
                    ErrorCategory::UnknownOutcome,
                    "bulk response did not contain items; the write outcome is unknown",
                ),
            );
        },
        Some(items) => items,
    };
    if items.len() == 0 {
        return Err(
            ConnectorError::new(
                ErrorCategory::UnknownOutcome,
                "bulk response contained no items; the write outcome is unknown",
            ),
        );
    }
    let ghost all = documents(items@);
    let mut done: usize = 0;
    let mut i: usize = 0;
    assert(all.subrange(0, 0) =~= Seq::<JsonModel>::empty());
    while i < items.len()
        invariant
            i <= items@.len(),
            all == documents(items@),
            crate::json::items_of(member(answer@, "items"@)) == Some(all),
            all.len() == items@.len() > 0,
            done <= i,
            done == done_count(all.subrange(0, i as int)),
            forall|j: int| 0 <= j < i ==> item_status(#[trigger] all[j]) is Some,
        decreases items@.len() - i,
    {
        assert(all[i as int] == items@[i as int]@);
        assert(all.subrange(0, i + 1).drop_last() =~= all.subrange(0, i as int));
        match read_status(&items[i]) {
            None => {
                return Err(
                    ConnectorError::new(
                        ErrorCategory::UnknownOutcome,
                        "bulk response item did not contain a status; the write outcome is unknown",
                    ),
                );
            },
            Some(status) => {
                if 200 <= status && status < 300 {
                    done = done + 1;
                }
            },
        }
        i = i + 1;
    }
    assert(all.subrange(0, i as int) =~= all);
    proof {
        lemma_done_count(all);
    }
    if done == items.len() {
        return Ok(done as u64);
    }
    if done > 0 {
        let succeeded = decimal_text(done as u64);
        let failed = decimal_text((items.len() - done) as u64);
        let message = framed("bulk request completed ", succeeded.as_str(), " item(s) and failed ");
        let message = framed(message.as_str(), failed.as_str(), " item(s)");
        return Err(ConnectorError::new(ErrorCategory::UnknownOutcome, message.as_str()));
    }
    let category = agreed_category(items);
    let count = decimal_text(items.len() as u64);
    let message = framed("bulk request rejected all ", count.as_str(), " item(s)");
    Err(ConnectorError::new(category, message.as_str()))
}

/// A bulk request counts as done only where its answer says so of every item; where it says so of
/// some, the outcome is unknown.
pub proof fn lemma_bulk_success_is_complete(answer: JsonModel)
    ensures
        bulk_result(answer) matches Ok(count) ==> {
            let items = crate::json::items_of(member(answer, "items"@))->0;
            &&& items.len() > 0
            &&& forall|i: int| 0 <= i < items.len() ==> is_done(#[trigger] items[i])
        },
        crate::json::items_of(member(answer, "items"@)) matches Some(items) && (exists|i: int|
            0 <= i < items.len() && is_done(#[trigger] items[i])) && bulk_result(answer) is Err
            ==> bulk_result(answer)->Err_0.category == ErrorCategory::UnknownOutcome,
{
    if let Some(items) = crate::json::items_of(member(answer, "items"@)) {
        lemma_done_count(items);
        if done_count(items) == items.len() {
            lemma_all_done(items);
        }
    }
}

/// Where as many items were done as there are, each was.
proof fn lemma_all_done(items: Seq<JsonModel>)
    requires
        done_count(items) == items.len(),
    ensures
        forall|i: int| 0 <= i < items.len() ==> is_done(#[trigger] items[i]),
    decreases items.len(),
{
    if items.len() > 0 {
        lemma_done_count(items.drop_last());
        lemma_all_done(items.drop_last());
        assert forall|i: int| 0 <= i < items.len() implies is_done(#[trigger] items[i]) by {
            if i < items.len() - 1 {
                assert(items.drop_last()[i] == items[i]);
            }
        }
    }
}

} // verus!
