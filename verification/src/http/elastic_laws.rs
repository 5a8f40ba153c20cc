//! What Elasticsearch and OpenSearch are asked: which documents, in which order, and what is written.
use crate::base_laws::{lemma_entries_are_found, lemma_members_are_found};
use crate::budget::smaller;
use crate::convert::{entries_json, json_record, json_value, record_json, NumberStyle};
use crate::convert_laws::{has_entries, lemma_entries};
use crate::http::common::{filter_ids, rows_result};
use crate::http::elastic::{
    create_lines, delete_call, delete_lines, insert_call, insert_lines, operation_call, read_call,
    size_document, text_search_call, update_call, update_lines, ElasticFlavor, ElasticReading,
};
use crate::http::elastic_query::{
    cursor_values, filter_queries, filter_query, hit_record, lines_text, sort_documents,
    with_hit_member, with_options,
};
use crate::http::sending::{
    are_documents, goes_to, is_bound_of, is_value, lemma_bounds, lemma_documents, lemma_pushed,
    only_item, under,
};
use crate::http::transport::{BodyModel, RequestModel};
use crate::json::{member, single, text_documents, with_member, without_member};
use crate::model::{
    ConnectionProfile, ConnectorContext, DataOperation, DeleteRequest, ErrorModel, Filter,
    InsertRequest, QueryOptions, ReadRequest, SearchRequest, SortDirection, SortField,
    UpdateRequest,
};
use crate::text::{decimal, names_of, optional_text, texts};
use crate::value::{named, records, values, JsonModel, RecordModel};
use vstd::prelude::*;

verus! {

broadcast use {crate::text::group_texts, crate::value::group_models};

/// The order that is asked for by a field: the field and its own direction.
pub open spec fn orders_by(document: JsonModel, field: Seq<char>, direction: SortDirection) -> bool {
    document matches JsonModel::Object(list) && list.len() == 1 && list[0] == (
        field,
        JsonModel::Text(
            if direction is Asc {
                "asc"@
            } else {
                "desc"@
            },
        ),
    )
}

/// A sort asks for each of its fields in its own direction, in the order of the fields; sorts of
/// one field that differ in direction are asked for differently.
pub proof fn lemma_sorts_ask_for_their_direction(sort: Seq<SortField>)
    ensures
        sort_documents(sort).len() == sort.len(),
        forall|i: int|
            0 <= i < sort.len() ==> orders_by(
                #[trigger] sort_documents(sort)[i],
                sort[i].field@,
                sort[i].direction,
            ),
        forall|i: int, j: int|
            0 <= i < sort.len() && 0 <= j < sort.len() && sort[i].direction != sort[j].direction
                ==> #[trigger] sort_documents(sort)[i] != #[trigger] sort_documents(sort)[j],
{
    reveal_strlit("asc");
    reveal_strlit("desc");
    assert("asc"@.len() != "desc"@.len());
    assert forall|i: int, j: int|
        0 <= i < sort.len() && 0 <= j < sort.len() && sort[i].direction != sort[j].direction implies
        #[trigger] sort_documents(sort)[i] != #[trigger] sort_documents(sort)[j] by {
        let a = sort_documents(sort)[i];
        let b = sort_documents(sort)[j];
        assert(a->Object_0[0].1 != b->Object_0[0].1);
    }
}

/// The query of a search, behind everything else that is put into its body.
pub open spec fn asks(body: BodyModel, name: Seq<char>, value: Option<JsonModel>) -> bool {
    body matches BodyModel::Json(JsonModel::Object(list)) && named(list, name) == value
}

/// What the order and the cursor of a request put into a body is found there, and nothing else
/// changes: the order under `sort`, the place to go on from under `search_after`, which needs an
/// order.
pub proof fn lemma_options_are_put_in(
    body: Seq<(Seq<char>, JsonModel)>,
    options: QueryOptions,
    name: Seq<char>,
)
    ensures
        with_options(body, options) matches Ok(list) ==> {
            &&& options.sort@.len() > 0 ==> named(list, "sort"@) == Some(
                JsonModel::Array(sort_documents(options.sort@)),
            )
            &&& options.sort@.len() == 0 ==> named(list, "sort"@) == named(body, "sort"@)
            &&& match optional_text(options.cursor) {
                Some(cursor) => {
                    &&& cursor_values(cursor) matches Ok(place) && named(list, "search_after"@)
                        == Some(place)
                    &&& named(list, "sort"@) is Some
                },
                None => named(list, "search_after"@) == named(body, "search_after"@),
            }
            &&& name != "sort"@ && name != "search_after"@ ==> named(list, name) == named(body, name)
        },
        with_options(body, options) is Err ==> options.cursor is Some,
{
    reveal_strlit("sort");
    reveal_strlit("search_after");
    assert("sort"@.len() != "search_after"@.len());
    let order = JsonModel::Array(sort_documents(options.sort@));
    let sorted = if options.sort@.len() == 0 {
        body
    } else {
        with_member(body, "sort"@, order)
    };
    lemma_members_are_found(body, "sort"@, order, name);
    lemma_members_are_found(body, "sort"@, order, "search_after"@);
    if let Some(cursor) = optional_text(options.cursor) {
        if let Ok(place) = cursor_values(cursor) {
            lemma_members_are_found(sorted, "search_after"@, place, name);
            lemma_members_are_found(sorted, "search_after"@, place, "sort"@);
        }
    }
}

/// The names of a search body are different texts.
proof fn lemma_search_names()
    ensures
        "query"@ != "size"@ && "query"@ != "_source"@ && "query"@ != "sort"@ && "query"@
            != "search_after"@,
        "size"@ != "_source"@ && "size"@ != "sort"@ && "size"@ != "search_after"@,
        "_source"@ != "sort"@ && "_source"@ != "search_after"@,
{
    reveal_strlit("query");
    reveal_strlit("size");
    reveal_strlit("_source");
    reveal_strlit("sort");
    reveal_strlit("search_after");
    assert("query"@.len() == 5 && "size"@.len() == 4 && "_source"@.len() == 7 && "sort"@.len() == 4
        && "search_after"@.len() == 12);
    assert("size"@[1] == 'i' && "sort"@[1] == 'o');
}

/// What is found in a list with one more member.
proof fn lemma_named_pushed(
    list: Seq<(Seq<char>, JsonModel)>,
    name: Seq<char>,
    value: JsonModel,
    wanted: Seq<char>,
)
    ensures
        named(list.push((name, value)), wanted) == (match named(list, wanted) {
            Some(found) => Some(found),
            None => if name == wanted {
                Some(value)
            } else {
                None
            },
        }),
    decreases list.len(),
{
    let longer = list.push((name, value));
    if list.len() == 0 {
        assert(longer.subrange(1, 1) =~= Seq::<(Seq<char>, JsonModel)>::empty());
        assert(named(longer.subrange(1, 1), wanted) is None);
    } else {
        let rest = list.subrange(1, list.len() as int);
        lemma_named_pushed(rest, name, value, wanted);
        assert(longer.subrange(1, longer.len() as int) =~= rest.push((name, value)));
    }
}

/// A read asks the index that it names for the documents that its filter selects, or for all of
/// them, with the fields that it names, in its order and behind its cursor, and for one document
/// more than it may return. It lasts no longer than the context, the policy and the request admit.
pub proof fn lemma_reads_ask_for_what_they_say(
    context: ConnectorContext,
    profile: ConnectionProfile,
    request: ReadRequest,
    remaining_ms: u64,
)
    ensures
        read_call(context, profile, request, remaining_ms) matches Ok((sent, reading)) ==> {
            let limit = smaller(
                smaller(request.options.limit as int, context.max_rows as int),
                profile.policy.max_rows as int,
            );
            &&& sent.method is Post
            &&& goes_to(
                sent,
                profile.endpoint@,
                seq![request.target@].push("_search"@),
            )
            &&& limit > 0
            &&& asks(
                sent.body,
                "query"@,
                Some(
                    match request.filter {
                        Some(filter) => filter_query(filter)->Ok_0,
                        None => single("match_all"@, JsonModel::Object(Seq::empty())),
                    },
                ),
            )
            &&& request.filter matches Some(filter) ==> filter_query(filter) is Ok
            &&& asks(sent.body, "size"@, Some(JsonModel::Number(decimal((limit + 1) as nat))))
            &&& asks(
                sent.body,
                "_source"@,
                if request.fields@.len() > 0 {
                    Some(JsonModel::Array(text_documents(texts(request.fields@))))
                } else {
                    None
                },
            )
            &&& asks(
                sent.body,
                "sort"@,
                if request.options.sort@.len() > 0 {
                    Some(JsonModel::Array(sort_documents(request.options.sort@)))
                } else {
                    None
                },
            )
            &&& asks(
                sent.body,
                "search_after"@,
                match optional_text(request.options.cursor) {
                    Some(cursor) => Some(cursor_values(cursor)->Ok_0),
                    None => None,
                },
            )
            &&& reading == ElasticReading::Search {
                limit: limit as usize,
                resumable: request.options.sort@.len() > 0,
            }
            &&& sent.timeout_ms matches Some(time) && (time <= remaining_ms || time == 1)
        },
{
    lemma_search_names();
    if let Ok((sent, reading)) = read_call(context, profile, request, remaining_ms) {
        let limit = rows_result(context, profile, request.options.limit)->Ok_0;
        let query = match request.filter {
            Some(filter) => filter_query(filter)->Ok_0,
            None => single("match_all"@, JsonModel::Object(Seq::empty())),
        };
        let none = Seq::<(Seq<char>, JsonModel)>::empty();
        let first = none.push(("query"@, query));
        let second = first.push(("size"@, size_document(limit)));
        let fields = JsonModel::Array(text_documents(texts(request.fields@)));
        let body = if request.fields@.len() == 0 {
            second
        } else {
            second.push(("_source"@, fields))
        };
        lemma_body_of_read(none, query, limit, request.fields@.len() > 0, fields);
        lemma_options_are_put_in(body, request.options, "query"@);
        lemma_options_are_put_in(body, request.options, "size"@);
        lemma_options_are_put_in(body, request.options, "_source"@);
        assert(crate::text::names_of([]@).push(request.target@).push("_search"@) =~= seq![
            request.target@,
        ].push("_search"@));
    }
}

/// What the body of a read holds before its order.
proof fn lemma_body_of_read(
    none: Seq<(Seq<char>, JsonModel)>,
    query: JsonModel,
    limit: int,
    chosen: bool,
    fields: JsonModel,
)
    requires
        none.len() == 0,
    ensures
        ({
            let second = none.push(("query"@, query)).push(("size"@, size_document(limit)));
            let body = if chosen {
                second.push(("_source"@, fields))
            } else {
                second
            };
            &&& named(body, "query"@) == Some(query)
            &&& named(body, "size"@) == Some(size_document(limit))
            &&& named(body, "_source"@) == if chosen {
                Some(fields)
            } else {
                None
            }
            &&& named(body, "sort"@) is None
            &&& named(body, "search_after"@) is None
        }),
{
    lemma_search_names();
    let first = none.push(("query"@, query));
    let second = first.push(("size"@, size_document(limit)));
    lemma_named_behind(none, "query"@, query, "query"@, "size"@);
    lemma_named_pushed(none, "query"@, query, "_source"@);
    lemma_named_pushed(none, "query"@, query, "sort"@);
    lemma_named_pushed(none, "query"@, query, "search_after"@);
    lemma_named_behind(first, "size"@, size_document(limit), "query"@, "size"@);
    lemma_named_pushed(first, "size"@, size_document(limit), "_source"@);
    lemma_named_pushed(first, "size"@, size_document(limit), "sort"@);
    lemma_named_pushed(first, "size"@, size_document(limit), "search_after"@);
    lemma_named_behind(second, "_source"@, fields, "query"@, "size"@);
    lemma_named_pushed(second, "_source"@, fields, "_source"@);
    lemma_named_pushed(second, "_source"@, fields, "sort"@);
    lemma_named_pushed(second, "_source"@, fields, "search_after"@);
}

/// Two names in a list with one more member.
proof fn lemma_named_behind(
    list: Seq<(Seq<char>, JsonModel)>,
    name: Seq<char>,
    value: JsonModel,
    a: Seq<char>,
    b: Seq<char>,
)
    ensures
        named(list.push((name, value)), a) == (match named(list, a) {
            Some(found) => Some(found),
            None => if name == a {
                Some(value)
            } else {
                None
            },
        }),
        named(list.push((name, value)), b) == (match named(list, b) {
            Some(found) => Some(found),
            None => if name == b {
                Some(value)
            } else {
                None
            },
        }),
{
    lemma_named_pushed(list, name, value, a);
    lemma_named_pushed(list, name, value, b);
}

/// A search asks the index that it names the query that it was given, with one document more than
/// it may return, in its order and behind its cursor.
pub proof fn lemma_searches_ask_their_own_query(
    context: ConnectorContext,
    profile: ConnectionProfile,
    request: SearchRequest,
    remaining_ms: u64,
    name: Seq<char>,
)
    ensures
        text_search_call(context, profile, request, remaining_ms) matches Ok((sent, reading)) ==> {
            let limit = smaller(
                smaller(request.options.limit as int, context.max_rows as int),
                profile.policy.max_rows as int,
            );
            &&& sent.method is Post
            &&& goes_to(sent, profile.endpoint@, seq![request.target@].push("_search"@))
            &&& limit > 0
            &&& asks(sent.body, "size"@, Some(JsonModel::Number(decimal((limit + 1) as nat))))
            &&& match request.query@ {
                JsonModel::Object(list) if named(list, "query"@) is Some => {
                    &&& asks(sent.body, "query"@, named(list, "query"@))
                    &&& name != "size"@ && name != "sort"@ && name != "search_after"@ ==> asks(
                        sent.body,
                        name,
                        named(list, name),
                    )
                },
                query => asks(sent.body, "query"@, Some(query)),
            }
            &&& request.options.sort@.len() > 0 ==> asks(
                sent.body,
                "sort"@,
                Some(JsonModel::Array(sort_documents(request.options.sort@))),
            )
            &&& optional_text(request.options.cursor) matches Some(cursor) ==> asks(
                sent.body,
                "search_after"@,
                Some(cursor_values(cursor)->Ok_0),
            )
            &&& reading matches ElasticReading::Search { limit: shown, resumable } && shown == limit
                && (resumable <==> !asks(sent.body, "sort"@, None))
        },
{
    lemma_search_names();
    if let Ok((sent, reading)) = text_search_call(context, profile, request, remaining_ms) {
        let limit = rows_result(context, profile, request.options.limit)->Ok_0;
        let none = Seq::<(Seq<char>, JsonModel)>::empty();
        let start = match request.query@ {
            JsonModel::Object(list) if named(list, "query"@) is Some => list,
            query => none.push(("query"@, query)),
        };
        lemma_named_pushed(none, "query"@, request.query@, "query"@);
        let body = with_member(start, "size"@, size_document(limit));
        lemma_members_are_found(start, "size"@, size_document(limit), "query"@);
        lemma_members_are_found(start, "size"@, size_document(limit), name);
        lemma_options_are_put_in(body, request.options, "query"@);
        lemma_options_are_put_in(body, request.options, "size"@);
        lemma_options_are_put_in(body, request.options, name);
        assert(crate::text::names_of([]@).push(request.target@).push("_search"@) =~= seq![
            request.target@,
        ].push("_search"@));
    }
}

/// A comparison asks for the documents that its filter admits: equality for a term, inequality for
/// none, an order for a range with the bound of its kind, a part for a phrase, and a list for any of
/// its values.
pub proof fn lemma_comparisons_mean_what_they_say(filter: Filter)
    ensures
        filter_query(filter) matches Ok(document) ==> match filter {
            Filter::Eq { field, value } => is_value(
                under(under(Some(document), "term"@), field@),
                value@,
            ),
            Filter::Ne { field, value } => is_value(
                under(
                    under(only_item(under(under(Some(document), "bool"@), "must_not"@)), "term"@),
                    field@,
                ),
                value@,
            ),
            Filter::Lt { field, value }
            | Filter::Lte { field, value }
            | Filter::Gt { field, value }
            | Filter::Gte { field, value } => exists|name: Seq<char>|
                #[trigger] is_bound_of(name, filter) && is_value(
                    under(under(under(Some(document), "range"@), field@), name),
                    value@,
                ),
            Filter::Contains { field, value } => is_value(
                under(under(Some(document), "match_phrase"@), field@),
                value@,
            ),
            Filter::In { field, values: list } => under(under(Some(document), "terms"@), field@)
                matches Some(JsonModel::Array(items)) && are_documents(items, values(list@)),
            _ => true,
        },
{
    lemma_bounds(filter);
    match filter {
        Filter::In { values: list, .. } => {
            lemma_documents(values(list@));
        },
        Filter::Lt { .. } => {
            assert(is_bound_of("lt"@, filter));
        },
        Filter::Lte { .. } => {
            assert(is_bound_of("lte"@, filter));
        },
        Filter::Gt { .. } => {
            assert(is_bound_of("gt"@, filter));
        },
        Filter::Gte { .. } => {
            assert(is_bound_of("gte"@, filter));
        },
        _ => {},
    }
}

/// Whether documents are the queries of filters, one by one.
pub open spec fn are_queries(items: Seq<JsonModel>, filters: Seq<Filter>) -> bool {
    &&& items.len() == filters.len()
    &&& forall|i: int|
        0 <= i < items.len() ==> filter_query(filters[i]) == Ok::<JsonModel, ErrorModel>(
            #[trigger] items[i],
        )
}

/// The queries of filters.
proof fn lemma_queries(filters: Seq<Filter>)
    ensures
        filter_queries(filters) matches Ok(items) ==> are_queries(items, filters),
    decreases filters.len(),
{
    if filters.len() > 0 {
        let before = filters.subrange(0, filters.len() - 1);
        lemma_queries(before);
        if let Ok(items) = filter_queries(filters) {
            let shorter = filter_queries(before)->Ok_0;
            assert forall|i: int| 0 <= i < items.len() implies filter_query(filters[i]) == Ok::<
                JsonModel,
                ErrorModel,
            >(#[trigger] items[i]) by {
                if i < before.len() {
                    assert(items[i] == shorter[i]);
                    assert(before[i] == filters[i]);
                }
            }
        }
    }
}

/// Filters that must all hold are asked for as such, filters of which one must hold as such with one
/// as the least number, and a filter that must not hold as one that is denied.
pub proof fn lemma_logic_means_what_it_says(filter: Filter)
    ensures
        filter_query(filter) matches Ok(document) ==> match filter {
            Filter::And { filters } => under(under(Some(document), "bool"@), "filter"@) matches Some(
                JsonModel::Array(items),
            ) && are_queries(items, filters@),
            Filter::Or { filters } => under(Some(document), "bool"@) matches Some(
                JsonModel::Object(list),
            ) && list.len() == 2 && list[1] == (
                "minimum_should_match"@,
                JsonModel::Number(decimal(1)),
            ) && list[0].0 == "should"@ && list[0].1 is Array && are_queries(
                list[0].1->Array_0,
                filters@,
            ),
            Filter::Not { filter: inner } => only_item(
                under(under(Some(document), "bool"@), "must_not"@),
            ) matches Some(denied) && filter_query(*inner) == Ok::<JsonModel, ErrorModel>(denied),
            _ => true,
        },
{
    match filter {
        Filter::And { filters } => {
            lemma_queries(filters@);
        },
        Filter::Or { filters } => {
            lemma_queries(filters@);
        },
        _ => {},
    }
}

/// A hit is shown as its source, with its identity, its index and its score.
pub proof fn lemma_hits_are_shown(hit: JsonModel, name: Seq<char>)
    ensures
        forall|key: Seq<char>|
            key == "_id"@ || key == "_index"@ || key == "_score"@ ==> (member(hit, key) matches Some(
                value,
            ) ==> #[trigger] named(hit_record(hit), key) == Some(
                json_value(NumberStyle::Double, value),
            )),
        name != "_id"@ && name != "_index"@ && name != "_score"@ ==> named(hit_record(hit), name)
            == (match member(hit, "_source"@) {
            Some(source) => named(json_record(source), name),
            None => None,
        }),
{
    reveal_strlit("_id");
    reveal_strlit("_index");
    reveal_strlit("_score");
    assert("_id"@.len() == 3 && "_index"@.len() == 6 && "_score"@.len() == 6);
    assert("_index"@[1] == 'i' && "_score"@[1] == 's');
    let source = match member(hit, "_source"@) {
        Some(source) => json_record(source),
        None => Seq::empty(),
    };
    let first = with_hit_member(source, hit, "_id"@);
    let second = with_hit_member(first, hit, "_index"@);
    lemma_hit_member(source, hit, "_id"@, name);
    lemma_hit_member(first, hit, "_index"@, name);
    lemma_hit_member(second, hit, "_score"@, name);
    lemma_hit_member(source, hit, "_id"@, "_id"@);
    lemma_hit_member(first, hit, "_index"@, "_id"@);
    lemma_hit_member(second, hit, "_score"@, "_id"@);
    lemma_hit_member(first, hit, "_index"@, "_index"@);
    lemma_hit_member(second, hit, "_score"@, "_index"@);
    lemma_hit_member(second, hit, "_score"@, "_score"@);
}

/// One member of a hit in a record.
proof fn lemma_hit_member(record: RecordModel, hit: JsonModel, name: Seq<char>, other: Seq<char>)
    ensures
        member(hit, name) matches Some(value) ==> named(with_hit_member(record, hit, name), name)
            == Some(json_value(NumberStyle::Double, value)),
        other != name ==> named(with_hit_member(record, hit, name), other) == named(record, other),
{
    if let Some(value) = member(hit, name) {
        lemma_entries_are_found(record, name, json_value(NumberStyle::Double, value), other);
    }
}

/// The first line of a created record: the index, and the identity where the record has one.
pub open spec fn creates(line: JsonModel, target: Seq<char>, id: Option<JsonModel>) -> bool {
    under(Some(line), "create"@) matches Some(JsonModel::Object(list)) && list.contains(
        ("_index"@, JsonModel::Text(target)),
    ) && match id {
        Some(id) => list.len() == 2 && list.contains(("_id"@, id)),
        None => list.len() == 1,
    }
}

/// A record is created under its own identity in the index that the request names, with all its
/// other fields and nothing else.
pub proof fn lemma_records_are_created(target: Seq<char>, record: RecordModel, name: Seq<char>)
    ensures
        create_lines(target, record) matches Ok(lines) ==> {
            let list = entries_json(record)->Ok_0;
            &&& has_entries(list, record)
            &&& lines.len() == 2
            &&& creates(lines[0], target, named(list, "_id"@))
            &&& lines[1] matches JsonModel::Object(rest) && named(rest, "_id"@) is None && (name
                != "_id"@ ==> named(rest, name) == named(list, name))
        },
{
    lemma_entries(record);
    if let Ok(lines) = create_lines(target, record) {
        let list = entries_json(record)->Ok_0;
        let none = Seq::<(Seq<char>, JsonModel)>::empty();
        let index = none.push(("_index"@, JsonModel::Text(target)));
        lemma_pushed(none, ("_index"@, JsonModel::Text(target)));
        if let Some(id) = named(list, "_id"@) {
            lemma_pushed(index, ("_id"@, id));
        }
        lemma_without(list, "_id"@, name);
    }
}

/// What is found in a list without the members of a name.
proof fn lemma_without(list: Seq<(Seq<char>, JsonModel)>, name: Seq<char>, other: Seq<char>)
    ensures
        named(without_member(list, name), name) is None,
        other != name ==> named(without_member(list, name), other) == named(list, other),
    decreases list.len(),
{
    if list.len() > 0 {
        let before = list.drop_last();
        let (last, value) = list.last();
        lemma_without(before, name, other);
        assert(before.push((last, value)) =~= list);
        lemma_named_pushed(before, last, value, other);
        if last != name {
            lemma_named_pushed(without_member(before, name), last, value, name);
            lemma_named_pushed(without_member(before, name), last, value, other);
        }
    }
}

/// Whether two lines stand at the place of a record.
pub open spec fn has_lines(
    lines: Seq<JsonModel>,
    place: int,
    own: Result<Seq<JsonModel>, ErrorModel>,
) -> bool {
    own matches Ok(own) && own.len() == 2 && lines[2 * place] == own[0] && lines[2 * place + 1]
        == own[1]
}

/// The lines of all created records stand one behind the other, two for each record.
pub proof fn lemma_all_records_are_created(target: Seq<char>, list: Seq<RecordModel>)
    ensures
        insert_lines(target, list) matches Ok(lines) ==> lines.len() == 2 * list.len() && forall|i: int|
            0 <= i < list.len() ==> has_lines(lines, i, create_lines(target, #[trigger] list[i])),
    decreases list.len(),
{
    if list.len() > 0 {
        let before = list.drop_last();
        lemma_all_records_are_created(target, before);
        lemma_records_are_created(target, list.last(), Seq::empty());
        if let Ok(lines) = insert_lines(target, list) {
            assert forall|i: int| 0 <= i < list.len() implies has_lines(
                lines,
                i,
                create_lines(target, #[trigger] list[i]),
            ) by {
                if i < before.len() {
                    assert(before[i] == list[i]);
                }
            }
        }
    }
}

/// Whether a line names a record of an index by its identity.
pub open spec fn is_at(line: JsonModel, action: Seq<char>, target: Seq<char>, id: Seq<char>) -> bool {
    under(Some(line), action) matches Some(JsonModel::Object(list)) && list.len() == 2
        && list.contains(("_index"@, JsonModel::Text(target))) && list.contains(
        ("_id"@, JsonModel::Text(id)),
    )
}

/// Every record that an update names gets the changes, and every record that a deletion names is
/// removed, each by its identity in the index that the request names.
pub proof fn lemma_records_are_changed(target: Seq<char>, ids: Seq<Seq<char>>, changes: JsonModel)
    ensures
        update_lines(target, ids, changes).len() == 2 * ids.len(),
        delete_lines(target, ids).len() == ids.len(),
        forall|i: int|
            0 <= i < ids.len() ==> is_at(
                update_lines(target, ids, changes)[2 * i],
                "update"@,
                target,
                #[trigger] ids[i],
            ) && under(Some(update_lines(target, ids, changes)[2 * i + 1]), "doc"@) == Some(changes)
                && is_at(delete_lines(target, ids)[i], "delete"@, target, ids[i]),
    decreases ids.len(),
{
    if ids.len() > 0 {
        let before = ids.drop_last();
        lemma_records_are_changed(target, before, changes);
        let none = Seq::<(Seq<char>, JsonModel)>::empty();
        let index = ("_index"@, JsonModel::Text(target));
        let id = ("_id"@, JsonModel::Text(ids.last()));
        lemma_pushed(none, index);
        lemma_pushed(none.push(index), id);
        let updates = update_lines(target, ids, changes);
        let removals = delete_lines(target, ids);
        assert forall|i: int| 0 <= i < ids.len() implies is_at(
            updates[2 * i],
            "update"@,
            target,
            #[trigger] ids[i],
        ) && under(Some(updates[2 * i + 1]), "doc"@) == Some(changes) && is_at(
            removals[i],
            "delete"@,
            target,
            ids[i],
        ) by {
            if i < before.len() {
                assert(before[i] == ids[i]);
                assert(updates[2 * i] == update_lines(target, before, changes)[2 * i]);
                assert(updates[2 * i + 1] == update_lines(target, before, changes)[2 * i + 1]);
                assert(removals[i] == delete_lines(target, before)[i]);
            }
        }
    }
}

/// Whether a request sends lines for a bulk of writes and waits until they can be searched.
pub open spec fn is_bulk(sent: RequestModel, profile: ConnectionProfile, lines: Seq<JsonModel>) -> bool {
    &&& sent.method is Post
    &&& goes_to(sent, profile.endpoint@, seq!["_bulk"@])
    &&& sent.query == seq![("refresh"@, "wait_for"@)]
    &&& lines_text(lines) matches Some(text) && sent.body == (BodyModel::Text {
        content_type: "application/x-ndjson"@,
        text,
    })
}

/// Writes go to the server in one bulk: all records of an insertion, or every record that the filter
/// of an update or a deletion names, no more than the policy and the request admit.
pub proof fn lemma_writes_are_sent_in_bulk(
    profile: ConnectionProfile,
    insert: InsertRequest,
    update: UpdateRequest,
    delete: DeleteRequest,
)
    ensures
        insert_call(profile, insert) matches Ok((sent, reading)) ==> {
            &&& 0 < insert.records@.len() <= profile.policy.max_affected
            &&& insert_lines(insert.target@, records(insert.records@)) matches Ok(lines) && is_bulk(
                sent,
                profile,
                lines,
            )
            &&& reading is Bulk
        },
        update_call(profile, update) matches Ok((sent, reading)) ==> {
            &&& record_json(update.changes@) is Ok
            &&& filter_ids(update.filter, seq!["_id"@].push("id"@)) matches Ok(ids) && 0 < ids.len()
                <= update.max_affected && update.max_affected <= profile.policy.max_affected
                && is_bulk(
                sent,
                profile,
                update_lines(update.target@, ids, record_json(update.changes@)->Ok_0),
            )
            &&& reading is Bulk
        },
        delete_call(profile, delete) matches Ok((sent, reading)) ==> {
            &&& filter_ids(delete.filter, seq!["_id"@].push("id"@)) matches Ok(ids) && 0 < ids.len()
                <= delete.max_affected && delete.max_affected <= profile.policy.max_affected
                && is_bulk(sent, profile, delete_lines(delete.target@, ids))
            &&& reading is Bulk
        },
{
    assert(names_of(["_id", "id"]@) =~= seq!["_id"@].push("id"@));
    assert(names_of(["_bulk"]@) =~= seq!["_bulk"@]);
    assert(Seq::<(Seq<char>, Seq<char>)>::empty().push(("refresh"@, "wait_for"@)) =~= seq![
        ("refresh"@, "wait_for"@),
    ]);
}

/// Each operation is sent as the request of its own kind.
pub proof fn lemma_operations_are_sent_as_their_kind(
    flavor: ElasticFlavor,
    context: ConnectorContext,
    profile: ConnectionProfile,
    operation: DataOperation,
    remaining_ms: u64,
)
    ensures
        operation_call(flavor, context, profile, operation, remaining_ms) matches Ok((sent, reading))
            ==> match operation {
            DataOperation::Read(request) => read_call(context, profile, request, remaining_ms)
                == Ok::<(RequestModel, ElasticReading), ErrorModel>((sent, reading)),
            DataOperation::Search(request) => text_search_call(
                context,
                profile,
                request,
                remaining_ms,
            ) == Ok::<(RequestModel, ElasticReading), ErrorModel>((sent, reading)),
            DataOperation::Insert(request) => insert_call(profile, request) == Ok::<
                (RequestModel, ElasticReading),
                ErrorModel,
            >((sent, reading)),
            DataOperation::Update(request) => update_call(profile, request) == Ok::<
                (RequestModel, ElasticReading),
                ErrorModel,
            >((sent, reading)),
            DataOperation::Delete(request) => delete_call(profile, request) == Ok::<
                (RequestModel, ElasticReading),
                ErrorModel,
            >((sent, reading)),
            DataOperation::NativeQuery(_) => reading is Native,
            _ => false,
        },
{
}

} // verus!
