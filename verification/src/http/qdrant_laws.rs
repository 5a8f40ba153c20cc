//! What Qdrant is asked: which points, which neighbours, and what is written.
use crate::base_laws::lemma_members_are_found;
use crate::budget::smaller;
use crate::convert::record_json;
use crate::convert_laws::{are_elements, lemma_vectors_are_written};
use crate::http::common::rows_result;
use crate::http::milvus_laws::{count_of, lemma_more, named_keys};
use crate::http::qdrant::{
    delete_call, point_document, point_documents, read_call, search_call, upsert_call,
    vector_search_call, QdrantReading,
};
use crate::http::qdrant_query::{
    condition, conditions, cursor_document, filter_ids, is_id_field, text_id, value_id, value_ids,
};
use crate::http::sending::{
    are_documents, goes_to, is_bound_of, is_value, lemma_bounds, lemma_documents, member_count,
    only_item, sends, under,
};
use crate::http::transport::BodyModel;
use crate::json::{single, text_documents, vector_documents, with_member};
use crate::model::{
    ConnectionProfile, ConnectorContext, DeleteRequest, ErrorModel, Filter, ReadRequest,
    SearchRequest, VectorPoint, VectorSearchRequest, VectorUpsertRequest,
};
use crate::text::{decimal, names_of, optional_text, texts, unsigned_value};
use crate::value::{doubles, named, values, JsonModel, ValueModel};
use vstd::prelude::*;

verus! {

broadcast use {crate::text::group_texts, crate::value::group_models};

/// The path of the points of a collection.
pub open spec fn points_path(collection: Seq<char>) -> Seq<Seq<char>> {
    seq!["collections"@].push(collection).push("points"@)
}

/// The path of points as a list of names.
proof fn lemma_path(collection: Seq<char>)
    ensures
        names_of(["collections"]@).push(collection).push("points"@) == points_path(collection),
{
    assert(names_of(["collections"]@).push(collection).push("points"@) =~= points_path(collection));
}

/// A vector search asks the collection that it names for the nearest neighbours of its vector,
/// within its filter, and for no more of them than it may return, with their vectors where it asks
/// for them.
pub proof fn lemma_vector_searches_ask_for_what_they_say(
    context: ConnectorContext,
    profile: ConnectionProfile,
    request: VectorSearchRequest,
)
    ensures
        vector_search_call(context, profile, request) matches Ok((sent, reading)) ==> {
            let limit = smaller(
                smaller(request.top_k as int, context.max_rows as int),
                profile.policy.max_rows as int,
            );
            &&& limit > 0
            &&& request.namespace is None
            &&& sent.method is Post
            &&& goes_to(sent, profile.endpoint@, points_path(request.target@).push("query"@))
            &&& exists|items: Seq<JsonModel>|
                #[trigger] are_elements(items, doubles(request.vector@)) && sends(
                    sent.body,
                    "query"@,
                    JsonModel::Array(items),
                )
            &&& sends(sent.body, "limit"@, JsonModel::Number(decimal(limit as nat)))
            &&& sends(sent.body, "with_payload"@, JsonModel::Bool(true))
            &&& sends(sent.body, "with_vector"@, JsonModel::Bool(request.include_vectors))
            &&& request.filter matches Some(filter) ==> sends(sent.body, "filter"@, filter@)
            &&& member_count(sent.body) == 4 + count_of(request.filter)
            &&& reading is Query
        },
{
    if let Ok((sent, reading)) = vector_search_call(context, profile, request) {
        let limit = rows_result(context, profile, request.top_k)->Ok_0;
        let items = vector_documents(doubles(request.vector@));
        lemma_vectors_are_written(doubles(request.vector@));
        assert(are_elements(items, doubles(request.vector@)));
        let number = JsonModel::Number(decimal(limit as nat));
        let a = Seq::<(Seq<char>, JsonModel)>::empty();
        let b = a.push(("query"@, JsonModel::Array(items)));
        let c = b.push(("limit"@, number));
        let d = c.push(("with_payload"@, JsonModel::Bool(true)));
        let e = d.push(("with_vector"@, JsonModel::Bool(request.include_vectors)));
        lemma_more(a, "query"@, JsonModel::Array(items));
        lemma_more(b, "limit"@, number);
        lemma_more(c, "with_payload"@, JsonModel::Bool(true));
        lemma_more(d, "with_vector"@, JsonModel::Bool(request.include_vectors));
        if let Some(filter) = request.filter {
            lemma_more(e, "filter"@, filter@);
        }
        lemma_path(request.target@);
    }
}

/// Vector searches with different filters send different bodies.
pub proof fn lemma_filters_are_not_lost(
    context: ConnectorContext,
    profile: ConnectionProfile,
    left: VectorSearchRequest,
    right: VectorSearchRequest,
)
    requires
        vector_search_call(context, profile, left) is Ok,
        vector_search_call(context, profile, right) is Ok,
        left.filter matches Some(a) && (right.filter matches Some(b) ==> a@ != b@),
    ensures
        (vector_search_call(context, profile, left)->Ok_0).0.body != (vector_search_call(
            context,
            profile,
            right,
        )->Ok_0).0.body,
{
    lemma_vector_searches_ask_for_what_they_say(context, profile, left);
    lemma_vector_searches_ask_for_what_they_say(context, profile, right);
    let a = (vector_search_call(context, profile, left)->Ok_0).0.body;
    let b = (vector_search_call(context, profile, right)->Ok_0).0.body;
    if right.filter is Some {
        assert(a->Json_0->Object_0[4] == ("filter"@, left.filter->0@));
        assert(b->Json_0->Object_0[4] == ("filter"@, right.filter->0@));
    } else {
        assert(member_count(a) != member_count(b));
    }
}

/// A read asks the collection that it names for the points that its filter selects, or for all of
/// them, with the fields that it names, behind its cursor, and for no more than it may return.
pub proof fn lemma_reads_ask_for_what_they_say(
    context: ConnectorContext,
    profile: ConnectionProfile,
    request: ReadRequest,
)
    ensures
        read_call(context, profile, request) matches Ok((sent, reading)) ==> {
            let limit = smaller(
                smaller(request.options.limit as int, context.max_rows as int),
                profile.policy.max_rows as int,
            );
            &&& limit > 0
            &&& request.options.sort@.len() == 0
            &&& sent.method is Post
            &&& goes_to(sent, profile.endpoint@, points_path(request.target@).push("scroll"@))
            &&& sends(sent.body, "limit"@, JsonModel::Number(decimal(limit as nat)))
            &&& sends(
                sent.body,
                "with_payload"@,
                if request.fields@.len() == 0 {
                    JsonModel::Bool(true)
                } else {
                    single("include"@, JsonModel::Array(text_documents(texts(request.fields@))))
                },
            )
            &&& sends(sent.body, "with_vector"@, JsonModel::Bool(false))
            &&& request.filter matches Some(filter) ==> condition(filter) is Ok && sends(
                sent.body,
                "filter"@,
                condition(filter)->Ok_0,
            )
            &&& optional_text(request.options.cursor) matches Some(cursor) ==> cursor_document(
                cursor,
            ) is Ok && sends(sent.body, "offset"@, cursor_document(cursor)->Ok_0)
            &&& member_count(sent.body) == 3 + count_of(request.filter) + count_of(
                request.options.cursor,
            )
            &&& reading is Scroll
        },
{
    if let Ok((sent, reading)) = read_call(context, profile, request) {
        let limit = rows_result(context, profile, request.options.limit)->Ok_0;
        let number = JsonModel::Number(decimal(limit as nat));
        let payload = if request.fields@.len() == 0 {
            JsonModel::Bool(true)
        } else {
            single("include"@, JsonModel::Array(text_documents(texts(request.fields@))))
        };
        let a = Seq::<(Seq<char>, JsonModel)>::empty();
        let b = a.push(("limit"@, number));
        let c = b.push(("with_payload"@, payload));
        let d = c.push(("with_vector"@, JsonModel::Bool(false)));
        lemma_more(a, "limit"@, number);
        lemma_more(b, "with_payload"@, payload);
        lemma_more(c, "with_vector"@, JsonModel::Bool(false));
        let e = match request.filter {
            Some(filter) => d.push(("filter"@, condition(filter)->Ok_0)),
            None => d,
        };
        if let Some(filter) = request.filter {
            lemma_more(d, "filter"@, condition(filter)->Ok_0);
        }
        if let Some(cursor) = optional_text(request.options.cursor) {
            lemma_more(e, "offset"@, cursor_document(cursor)->Ok_0);
        }
        lemma_path(request.target@);
    }
}

/// A search sends the query that it was given with its own limit, and asks for the payload unless
/// the query says something of it.
pub proof fn lemma_searches_send_their_query(
    context: ConnectorContext,
    profile: ConnectionProfile,
    request: SearchRequest,
    name: Seq<char>,
)
    ensures
        search_call(context, profile, request) matches Ok((sent, reading)) ==> {
            let limit = smaller(
                smaller(request.options.limit as int, context.max_rows as int),
                profile.policy.max_rows as int,
            );
            &&& sent.method is Post
            &&& goes_to(sent, profile.endpoint@, points_path(request.target@).push("query"@))
            &&& request.query@ is Object
            &&& sent.body matches BodyModel::Json(JsonModel::Object(list)) && {
                &&& named(list, "limit"@) == Some(JsonModel::Number(decimal(limit as nat)))
                &&& named(list, "with_payload"@) == (match named(
                    request.query@->Object_0,
                    "with_payload"@,
                ) {
                    Some(asked) => Some(asked),
                    None => Some(JsonModel::Bool(true)),
                })
                &&& name != "limit"@ && name != "with_payload"@ ==> named(list, name) == named(
                    request.query@->Object_0,
                    name,
                )
            }
            &&& reading is Query
        },
{
    reveal_strlit("limit");
    reveal_strlit("with_payload");
    assert("limit"@.len() == 5 && "with_payload"@.len() == 12);
    if let Ok((sent, reading)) = search_call(context, profile, request) {
        let limit = rows_result(context, profile, request.options.limit)->Ok_0;
        let list = request.query@->Object_0;
        let number = JsonModel::Number(decimal(limit as nat));
        let a = with_member(list, "limit"@, number);
        lemma_members_are_found(list, "limit"@, number, name);
        lemma_members_are_found(list, "limit"@, number, "with_payload"@);
        lemma_members_are_found(a, "with_payload"@, JsonModel::Bool(true), name);
        lemma_members_are_found(a, "with_payload"@, JsonModel::Bool(true), "limit"@);
        lemma_path(request.target@);
    }
}

/// Whether a document is that of a point: its identity, its vector and its payload.
pub open spec fn is_point(document: JsonModel, point: VectorPoint) -> bool {
    document matches JsonModel::Object(list) && list.len() == 3 && {
        &&& text_id(point.id@) is Ok && list.contains(("id"@, text_id(point.id@)->Ok_0))
        &&& exists|items: Seq<JsonModel>|
            #[trigger] are_elements(items, doubles(point.vector@)) && list.contains(
                ("vector"@, JsonModel::Array(items)),
            )
        &&& record_json(point.metadata@) is Ok && list.contains(
            ("payload"@, record_json(point.metadata@)->Ok_0),
        )
    }
}

/// A point is written with its own identity, vector and payload.
proof fn lemma_point(point: VectorPoint)
    ensures
        point_document(point) matches Ok(document) ==> is_point(document, point),
{
    if let Ok(document) = point_document(point) {
        let list = document->Object_0;
        let items = vector_documents(doubles(point.vector@));
        lemma_vectors_are_written(doubles(point.vector@));
        assert(are_elements(items, doubles(point.vector@)));
        assert(list[0] == ("id"@, text_id(point.id@)->Ok_0));
        assert(list[1] == ("vector"@, JsonModel::Array(items)));
        assert(list[2] == ("payload"@, record_json(point.metadata@)->Ok_0));
    }
}

/// Whether documents are those of points, one by one.
pub open spec fn are_points(items: Seq<JsonModel>, points: Seq<VectorPoint>) -> bool {
    &&& items.len() == points.len()
    &&& forall|i: int| 0 <= i < items.len() ==> is_point(#[trigger] items[i], points[i])
}

/// The documents of points.
proof fn lemma_points(points: Seq<VectorPoint>)
    ensures
        point_documents(points) matches Ok(items) ==> are_points(items, points),
    decreases points.len(),
{
    if points.len() > 0 {
        let before = points.drop_last();
        lemma_points(before);
        lemma_point(points.last());
        if let Ok(items) = point_documents(points) {
            let shorter = point_documents(before)->Ok_0;
            assert forall|i: int| 0 <= i < items.len() implies is_point(
                #[trigger] items[i],
                points[i],
            ) by {
                if i < shorter.len() {
                    assert(items[i] == shorter[i]);
                    assert(before[i] == points[i]);
                }
            }
        }
    }
}

/// An upsert sends every point once, in order, and a deletion names every point of its filter and no
/// other one; both wait until the server is done.
pub proof fn lemma_writes_send_everything(
    profile: ConnectionProfile,
    upsert: VectorUpsertRequest,
    delete: DeleteRequest,
)
    ensures
        upsert_call(profile, upsert) matches Ok((sent, reading)) ==> {
            &&& 0 < upsert.points@.len() <= profile.policy.max_affected
            &&& upsert.namespace is None
            &&& sent.method is Put
            &&& goes_to(sent, profile.endpoint@, points_path(upsert.target@))
            &&& sent.query == seq![("wait"@, "true"@)]
            &&& exists|items: Seq<JsonModel>|
                #[trigger] are_points(items, upsert.points@) && sends(
                    sent.body,
                    "points"@,
                    JsonModel::Array(items),
                )
            &&& member_count(sent.body) == 1
            &&& reading matches QdrantReading::Write { count } && count as int
                == upsert.points@.len() as u64 as int
        },
        delete_call(profile, delete) matches Ok((sent, reading)) ==> named_keys(delete.filter)
            matches Some((field, keys)) && {
            &&& field == "id"@ || field == "_id"@
            &&& 0 < keys.len() <= delete.max_affected
            &&& delete.max_affected <= profile.policy.max_affected
            &&& sent.method is Post
            &&& goes_to(sent, profile.endpoint@, points_path(delete.target@).push("delete"@))
            &&& sent.query == seq![("wait"@, "true"@)]
            &&& exists|items: Seq<JsonModel>|
                #[trigger] are_ids(items, keys) && sends(
                    sent.body,
                    "points"@,
                    JsonModel::Array(items),
                )
            &&& member_count(sent.body) == 1
            &&& reading matches QdrantReading::Write { count } && count as int
                == keys.len() as u64 as int
        },
{
    let none = Seq::<(Seq<char>, JsonModel)>::empty();
    assert(Seq::<(Seq<char>, Seq<char>)>::empty().push(("wait"@, "true"@)) =~= seq![
        ("wait"@, "true"@),
    ]);
    if let Ok((sent, reading)) = upsert_call(profile, upsert) {
        let items = point_documents(upsert.points@)->Ok_0;
        lemma_points(upsert.points@);
        assert(are_points(items, upsert.points@));
        lemma_more(none, "points"@, JsonModel::Array(items));
        lemma_path(upsert.target@);
    }
    if let Ok((sent, reading)) = delete_call(profile, delete) {
        let items = filter_ids(delete.filter)->Ok_0;
        lemma_ids(delete.filter);
        lemma_more(none, "points"@, JsonModel::Array(items));
        lemma_path(delete.target@);
    }
}

/// Whether documents are the identities that values denote, one by one.
pub open spec fn are_ids(items: Seq<JsonModel>, list: Seq<ValueModel>) -> bool {
    &&& items.len() == list.len()
    &&& forall|i: int|
        0 <= i < items.len() ==> value_id(list[i]) == Ok::<JsonModel, ErrorModel>(
            #[trigger] items[i],
        )
}

/// The identities of values.
proof fn lemma_value_ids(list: Seq<ValueModel>)
    ensures
        value_ids(list) matches Ok(items) ==> are_ids(items, list),
    decreases list.len(),
{
    if list.len() > 0 {
        let before = list.drop_last();
        lemma_value_ids(before);
        if let Ok(items) = value_ids(list) {
            let shorter = value_ids(before)->Ok_0;
            assert forall|i: int| 0 <= i < items.len() implies value_id(list[i]) == Ok::<
                JsonModel,
                ErrorModel,
            >(#[trigger] items[i]) by {
                if i < shorter.len() {
                    assert(items[i] == shorter[i]);
                    assert(before[i] == list[i]);
                }
            }
        }
    }
}

/// The identities of a filter.
proof fn lemma_ids(filter: Filter)
    ensures
        filter_ids(filter) matches Ok(items) ==> named_keys(filter) matches Some((field, keys))
            && is_id_field(field) && are_ids(items, keys),
{
    if let Filter::In { values: list, .. } = filter {
        lemma_value_ids(values(list@));
    }
}

/// An identity is a number that is not negative, or a UUID as its text.
pub proof fn lemma_ids_are_kept(value: ValueModel)
    ensures
        match value {
            ValueModel::UInt64(number) => value_id(value) == Ok::<JsonModel, ErrorModel>(
                JsonModel::Number(decimal(number as nat)),
            ),
            ValueModel::Int64(number) => match value_id(value) {
                Ok(document) => number >= 0 && document == JsonModel::Number(decimal(number as nat)),
                Err(_) => number < 0,
            },
            ValueModel::String(text) | ValueModel::Uuid(text) => match value_id(value) {
                Ok(JsonModel::Number(notation)) => unsigned_value(text) matches Some(number)
                    && notation == decimal(number as nat),
                Ok(document) => document == JsonModel::Text(text),
                Err(_) => unsigned_value(text) is None,
            },
            _ => value_id(value) is Err,
        },
{
}

/// Whether a condition asks something of a field.
pub open spec fn asks_field(
    document: Option<JsonModel>,
    field: Seq<char>,
    kind: Seq<char>,
    name: Seq<char>,
    value: ValueModel,
) -> bool {
    document matches Some(JsonModel::Object(list)) && list.len() == 2 && list[0] == (
        "key"@,
        JsonModel::Text(field),
    ) && list[1].0 == kind && is_value(under(Some(list[1].1), name), value)
}

/// A comparison asks for the points that its filter admits: equality for a value that must match,
/// inequality for one that must not, an order for a range with the bound of its kind, and a part for
/// a text.
pub proof fn lemma_comparisons_mean_what_they_say(filter: Filter)
    ensures
        condition(filter) matches Ok(document) ==> match filter {
            Filter::Eq { field, value } => if is_id_field(field@) {
                asks_id(only_item(under(Some(document), "must"@)), value@)
            } else {
                asks_field(
                    only_item(under(Some(document), "must"@)),
                    field@,
                    "match"@,
                    "value"@,
                    value@,
                )
            },
            Filter::Ne { field, value } => if is_id_field(field@) {
                asks_id(only_item(under(Some(document), "must_not"@)), value@)
            } else {
                asks_field(
                    only_item(under(Some(document), "must_not"@)),
                    field@,
                    "match"@,
                    "value"@,
                    value@,
                )
            },
            Filter::Contains { field, value } => asks_field(
                only_item(under(Some(document), "must"@)),
                field@,
                "match"@,
                "text"@,
                value@,
            ),
            Filter::Lt { .. } | Filter::Lte { .. } | Filter::Gt { .. } | Filter::Gte { .. } =>
            exists|name: Seq<char>|
                is_bound_of(name, filter) && #[trigger] asks_range(document, filter, name),
            _ => true,
        },
{
    lemma_bounds(filter);
    if let Ok(document) = condition(filter) {
        match filter {
            Filter::Lt { .. } => {
                assert(asks_range(document, filter, "lt"@));
            },
            Filter::Lte { .. } => {
                assert(asks_range(document, filter, "lte"@));
            },
            Filter::Gt { .. } => {
                assert(asks_range(document, filter, "gt"@));
            },
            Filter::Gte { .. } => {
                assert(asks_range(document, filter, "gte"@));
            },
            _ => {},
        }
    }
}

/// Whether a condition asks for an identity.
pub open spec fn asks_id(document: Option<JsonModel>, value: ValueModel) -> bool {
    only_item(under(document, "has_id"@)) matches Some(id) && value_id(value) == Ok::<
        JsonModel,
        ErrorModel,
    >(id)
}

/// Whether a condition asks for a range of the field of a comparison with a bound.
pub open spec fn asks_range(document: JsonModel, filter: Filter, name: Seq<char>) -> bool {
    crate::sql::filter_laws::compared(filter) matches Some((field, value)) && asks_field(
        only_item(under(Some(document), "must"@)),
        field,
        "range"@,
        name,
        value,
    )
}

/// Whether documents are the conditions of filters, one by one.
pub open spec fn are_conditions(items: Seq<JsonModel>, filters: Seq<Filter>) -> bool {
    &&& items.len() == filters.len()
    &&& forall|i: int|
        0 <= i < items.len() ==> condition(filters[i]) == Ok::<JsonModel, ErrorModel>(
            #[trigger] items[i],
        )
}

/// The conditions of filters.
proof fn lemma_conditions(filters: Seq<Filter>)
    ensures
        conditions(filters) matches Ok(items) ==> are_conditions(items, filters),
    decreases filters.len(),
{
    if filters.len() > 0 {
        let before = filters.subrange(0, filters.len() - 1);
        lemma_conditions(before);
        if let Ok(items) = conditions(filters) {
            let shorter = conditions(before)->Ok_0;
            assert forall|i: int| 0 <= i < items.len() implies condition(filters[i]) == Ok::<
                JsonModel,
                ErrorModel,
            >(#[trigger] items[i]) by {
                if i < before.len() {
                    assert(items[i] == shorter[i]);
                    assert(before[i] == filters[i]);
                }
            }
        }
    }
}

/// A list asks for any of its values; filters that must all hold are asked for as such, filters of
/// which one must hold as such with one as the least number, and a filter that must not hold as one
/// that is denied.
pub proof fn lemma_logic_means_what_it_says(filter: Filter)
    ensures
        condition(filter) matches Ok(document) ==> match filter {
            Filter::In { field, values: list } => if is_id_field(field@) {
                under(only_item(under(Some(document), "must"@)), "has_id"@) matches Some(
                    JsonModel::Array(items),
                ) && are_ids(items, values(list@))
            } else {
                asks_any(only_item(under(Some(document), "must"@)), field@, values(list@))
            },
            Filter::And { filters } => under(Some(document), "must"@) matches Some(
                JsonModel::Array(items),
            ) && are_conditions(items, filters@),
            Filter::Or { filters } => document matches JsonModel::Object(list) && list.len() == 2
                && list[1] == ("min_should"@, JsonModel::Number(decimal(1))) && list[0].0
                == "should"@ && list[0].1 is Array && are_conditions(list[0].1->Array_0, filters@),
            Filter::Not { filter: inner } => only_item(under(Some(document), "must_not"@)) matches Some(
                denied,
            ) && condition(*inner) == Ok::<JsonModel, ErrorModel>(denied),
            _ => true,
        },
{
    match filter {
        Filter::In { values: list, .. } => {
            lemma_value_ids(values(list@));
            lemma_documents(values(list@));
        },
        Filter::And { filters } => {
            lemma_conditions(filters@);
        },
        Filter::Or { filters } => {
            lemma_conditions(filters@);
        },
        _ => {},
    }
}

/// Whether a condition asks for any of some values of a field.
pub open spec fn asks_any(
    document: Option<JsonModel>,
    field: Seq<char>,
    list: Seq<ValueModel>,
) -> bool {
    document matches Some(JsonModel::Object(members)) && members.len() == 2 && members[0] == (
        "key"@,
        JsonModel::Text(field),
    ) && members[1].0 == "match"@ && under(Some(members[1].1), "any"@) is Some && under(
        Some(members[1].1),
        "any"@,
    )->0 is Array && are_documents(under(Some(members[1].1), "any"@)->0->Array_0, list)
}

} // verus!
