//! What Milvus is asked: which entities, which neighbours, and what is written.
use crate::base_laws::lemma_members_are_found;
use crate::budget::smaller;
use crate::convert::{entries_json, record_json, value_json};
use crate::convert_laws::{are_elements, lemma_vectors_are_written};
use crate::encoding::json_text;
use crate::http::common::{rows_result, text_option};
use crate::http::milvus::{
    body_start, configured_field, delete_call, insert_call, key_texts, point_document,
    point_documents, read_call, record_documents, search_call, upsert_call, vector_search_call,
    MilvusReading,
};
use crate::http::milvus_query::{
    expression, expressions, filter_keys, key_document, value_text, value_texts,
    MilvusPrimaryKeyType,
};
use crate::http::sending::{goes_to, lemma_pushed, member_count, sends};
use crate::http::transport::BodyModel;
use crate::json::{text_documents, vector_documents, with_member};
use crate::model::{
    ConnectionProfile, ConnectorContext, DeleteRequest, ErrorModel, Filter, InsertRequest,
    ReadRequest, SearchRequest, VectorPoint, VectorSearchRequest, VectorUpsertRequest,
};
use crate::sql::filter_laws::{admits, compared};
use crate::text::{decimal, joined, names_of, optional_text, signed_value, texts};
use crate::value::{doubles, named, records, values, JsonModel, RecordModel, ValueModel};
use vstd::prelude::*;

verus! {

broadcast use {crate::text::group_texts, crate::value::group_models};

/// The path of an action on entities.
pub open spec fn entity_path(action: Seq<char>) -> Seq<Seq<char>> {
    seq!["v2"@].push("vectordb"@).push("entities"@).push(action)
}

/// One for something that is there.
pub open spec fn count_of<T>(found: Option<T>) -> nat {
    if found is Some {
        1
    } else {
        0
    }
}

/// Whether a body names the collection of a request, in the database of its profile.
pub open spec fn names_collection(
    body: BodyModel,
    profile: ConnectionProfile,
    collection: Seq<char>,
) -> bool {
    &&& sends(body, "collectionName"@, JsonModel::Text(collection))
    &&& optional_text(profile.database) matches Some(database) ==> sends(
        body,
        "dbName"@,
        JsonModel::Text(database),
    )
}

/// The start of a body names the collection.
proof fn lemma_start(profile: ConnectionProfile, collection: Seq<char>)
    ensures
        body_start(profile, collection).len() == 1 + count_of(profile.database),
        names_collection(
            BodyModel::Json(JsonModel::Object(body_start(profile, collection))),
            profile,
            collection,
        ),
{
    let list = body_start(profile, collection);
    let last = list.len() - 1;
    assert(list[last] == ("collectionName"@, JsonModel::Text(collection)));
    if let Some(database) = optional_text(profile.database) {
        assert(list[0] == ("dbName"@, JsonModel::Text(database)));
    }
}

/// What a body holds it still holds with one more member.
pub proof fn lemma_more(
    list: Seq<(Seq<char>, JsonModel)>,
    name: Seq<char>,
    value: JsonModel,
)
    ensures
        ({
            let longer = BodyModel::Json(JsonModel::Object(list.push((name, value))));
            &&& sends(longer, name, value)
            &&& forall|other: Seq<char>, document: JsonModel|
                sends(BodyModel::Json(JsonModel::Object(list)), other, document)
                    ==> #[trigger] sends(longer, other, document)
            &&& member_count(longer) == list.len() + 1
        }),
{
    lemma_pushed(list, (name, value));
}

/// A vector search asks the collection that it names for the nearest neighbours of its vector,
/// within its filter and its partition, and for no more of them than it may return. A filter that is
/// no expression is refused.
pub proof fn lemma_vector_searches_ask_for_what_they_say(
    context: ConnectorContext,
    profile: ConnectionProfile,
    request: VectorSearchRequest,
)
    ensures
        vector_search_call(context, profile, request) matches Ok((sent, reading)) ==> {
            let limit = smaller(
                smaller(request.top_k as int, context.max_rows as int),
                profile.policy.max_rows as int,
            );
            let field = match text_option(profile, "vector_field"@) {
                Some(field) => field,
                None => "vector"@,
            };
            &&& limit > 0
            &&& sent.method is Post
            &&& goes_to(sent, profile.endpoint@, entity_path("search"@))
            &&& sent.query.len() == 0
            &&& names_collection(sent.body, profile, request.target@)
            &&& exists|items: Seq<JsonModel>|
                #[trigger] are_elements(items, doubles(request.vector@)) && sends(
                    sent.body,
                    "data"@,
                    JsonModel::Array(seq![JsonModel::Array(items)]),
                )
            &&& sends(sent.body, "annsField"@, JsonModel::Text(field))
            &&& sends(sent.body, "limit"@, JsonModel::Number(decimal(limit as nat)))
            &&& sends(
                sent.body,
                "outputFields"@,
                JsonModel::Array(seq![JsonModel::Text(seq!['*'])]),
            )
            &&& request.filter matches Some(filter) ==> filter@ is Text && sends(
                sent.body,
                "filter"@,
                filter@,
            )
            &&& optional_text(request.namespace) matches Some(partition) ==> sends(
                sent.body,
                "partitionNames"@,
                JsonModel::Array(seq![JsonModel::Text(partition)]),
            )
            &&& member_count(sent.body) == 5 + count_of(profile.database) + count_of(request.filter)
                + count_of(request.namespace)
            &&& reading is Records
        },
{
    if let Ok((sent, reading)) = vector_search_call(context, profile, request) {
        let limit = rows_result(context, profile, request.top_k)->Ok_0;
        let field = configured_field(profile, "vector_field"@, "vector"@);
        let items = vector_documents(doubles(request.vector@));
        lemma_vectors_are_written(doubles(request.vector@));
        assert(are_elements(items, doubles(request.vector@)));
        let none = Seq::<JsonModel>::empty();
        assert(none.push(JsonModel::Array(items)) =~= seq![JsonModel::Array(items)]);
        reveal_strlit("*");
        assert("*"@ =~= seq!['*']);
        assert(none.push(JsonModel::Text("*"@)) =~= seq![JsonModel::Text(seq!['*'])]);
        let data = JsonModel::Array(none.push(JsonModel::Array(items)));
        let all = JsonModel::Array(none.push(JsonModel::Text("*"@)));
        let a = body_start(profile, request.target@);
        let b = a.push(("data"@, data));
        let c = b.push(("annsField"@, JsonModel::Text(field)));
        let d = c.push(("limit"@, JsonModel::Number(decimal(limit as nat))));
        let e = d.push(("outputFields"@, all));
        lemma_start(profile, request.target@);
        lemma_more(a, "data"@, data);
        lemma_more(b, "annsField"@, JsonModel::Text(field));
        lemma_more(c, "limit"@, JsonModel::Number(decimal(limit as nat)));
        lemma_more(d, "outputFields"@, all);
        let f = match request.filter {
            Some(filter) => e.push(("filter"@, filter@)),
            None => e,
        };
        if let Some(filter) = request.filter {
            lemma_more(e, "filter"@, filter@);
        }
        if let Some(partition) = optional_text(request.namespace) {
            let only = JsonModel::Array(none.push(JsonModel::Text(partition)));
            assert(none.push(JsonModel::Text(partition)) =~= seq![JsonModel::Text(partition)]);
            lemma_more(f, "partitionNames"@, only);
        }
        assert(names_of(["v2", "vectordb"]@).push("entities"@).push("search"@) =~= entity_path(
            "search"@,
        ));
    }
}

/// Vector searches with different filters send different bodies.
pub proof fn lemma_filters_are_not_lost(
    context: ConnectorContext,
    profile: ConnectionProfile,
    left: VectorSearchRequest,
    right: VectorSearchRequest,
)
    requires
        vector_search_call(context, profile, left) is Ok,
        vector_search_call(context, profile, right) is Ok,
        match (left.filter, right.filter) {
            (Some(a), Some(b)) => a@ != b@,
            (Some(_), None) => left.namespace is Some <==> right.namespace is Some,
            _ => false,
        },
    ensures
        (vector_search_call(context, profile, left)->Ok_0).0.body != (vector_search_call(
            context,
            profile,
            right,
        )->Ok_0).0.body,
{
    lemma_vector_searches_ask_for_what_they_say(context, profile, left);
    lemma_vector_searches_ask_for_what_they_say(context, profile, right);
    let a = (vector_search_call(context, profile, left)->Ok_0).0.body;
    let b = (vector_search_call(context, profile, right)->Ok_0).0.body;
    if right.filter is Some {
        let place = 5 + count_of(profile.database) as int;
        assert(a->Json_0->Object_0[place] == ("filter"@, left.filter->0@));
        assert(b->Json_0->Object_0[place] == ("filter"@, right.filter->0@));
    } else {
        assert(member_count(a) != member_count(b));
    }
}

/// A read asks the collection that it names for the entities that its filter selects, or for all of
/// them, with the fields that it names, behind its cursor, and for one entity more than it may
/// return.
pub proof fn lemma_reads_ask_for_what_they_say(
    context: ConnectorContext,
    profile: ConnectionProfile,
    request: ReadRequest,
)
    ensures
        read_call(context, profile, request) matches Ok((sent, reading)) ==> {
            let limit = smaller(
                smaller(request.options.limit as int, context.max_rows as int),
                profile.policy.max_rows as int,
            );
            let offset = crate::http::common::cursor_result(
                optional_text(request.options.cursor),
            )->Ok_0;
            &&& limit > 0
            &&& request.options.sort@.len() == 0
            &&& sent.method is Post
            &&& goes_to(sent, profile.endpoint@, entity_path("query"@))
            &&& names_collection(sent.body, profile, request.target@)
            &&& sends(sent.body, "limit"@, JsonModel::Number(decimal((limit + 1) as nat)))
            &&& sends(sent.body, "offset"@, JsonModel::Number(decimal(offset as nat)))
            &&& sends(
                sent.body,
                "outputFields"@,
                JsonModel::Array(
                    if request.fields@.len() == 0 {
                        seq![JsonModel::Text(seq!['*'])]
                    } else {
                        text_documents(texts(request.fields@))
                    },
                ),
            )
            &&& request.filter matches Some(filter) ==> expression(filter) is Ok && sends(
                sent.body,
                "filter"@,
                JsonModel::Text(expression(filter)->Ok_0),
            )
            &&& member_count(sent.body) == 4 + count_of(profile.database) + count_of(request.filter)
            &&& reading == MilvusReading::Page { limit: limit as usize, offset: offset as usize }
        },
{
    if let Ok((sent, reading)) = read_call(context, profile, request) {
        let limit = rows_result(context, profile, request.options.limit)->Ok_0;
        let offset = crate::http::common::cursor_result(
            optional_text(request.options.cursor),
        )->Ok_0;
        let none = Seq::<JsonModel>::empty();
        reveal_strlit("*");
        assert("*"@ =~= seq!['*']);
        assert(none.push(JsonModel::Text("*"@)) =~= seq![JsonModel::Text(seq!['*'])]);
        let fields = if request.fields@.len() == 0 {
            JsonModel::Array(none.push(JsonModel::Text("*"@)))
        } else {
            JsonModel::Array(text_documents(texts(request.fields@)))
        };
        let a = body_start(profile, request.target@);
        let b = a.push(("limit"@, JsonModel::Number(decimal((limit + 1) as nat))));
        let c = b.push(("offset"@, JsonModel::Number(decimal(offset as nat))));
        let d = c.push(("outputFields"@, fields));
        lemma_start(profile, request.target@);
        lemma_more(a, "limit"@, JsonModel::Number(decimal((limit + 1) as nat)));
        lemma_more(b, "offset"@, JsonModel::Number(decimal(offset as nat)));
        lemma_more(c, "outputFields"@, fields);
        if let Some(filter) = request.filter {
            lemma_more(d, "filter"@, JsonModel::Text(expression(filter)->Ok_0));
        }
        assert(names_of(["v2", "vectordb"]@).push("entities"@).push("query"@) =~= entity_path(
            "query"@,
        ));
    }
}

/// A search sends the query that it was given, with its own collection and limit and the database of
/// its profile in the places of those that the query may have had.
pub proof fn lemma_searches_send_their_query(
    context: ConnectorContext,
    profile: ConnectionProfile,
    request: SearchRequest,
    name: Seq<char>,
)
    ensures
        search_call(context, profile, request) matches Ok((sent, reading)) ==> {
            let limit = smaller(
                smaller(request.options.limit as int, context.max_rows as int),
                profile.policy.max_rows as int,
            );
            &&& sent.method is Post
            &&& goes_to(sent, profile.endpoint@, entity_path("search"@))
            &&& request.query@ is Object
            &&& sent.body matches BodyModel::Json(JsonModel::Object(list)) && {
                &&& named(list, "collectionName"@) == Some(JsonModel::Text(request.target@))
                &&& named(list, "limit"@) == Some(JsonModel::Number(decimal(limit as nat)))
                &&& optional_text(profile.database) matches Some(database) ==> named(list, "dbName"@)
                    == Some(JsonModel::Text(database))
                &&& name != "collectionName"@ && name != "limit"@ && name != "dbName"@ ==> named(
                    list,
                    name,
                ) == named(request.query@->Object_0, name)
            }
            &&& reading is Records
        },
{
    reveal_strlit("collectionName");
    reveal_strlit("limit");
    reveal_strlit("dbName");
    assert("collectionName"@.len() == 14 && "limit"@.len() == 5 && "dbName"@.len() == 6);
    if let Ok((sent, reading)) = search_call(context, profile, request) {
        let limit = rows_result(context, profile, request.options.limit)->Ok_0;
        let list = request.query@->Object_0;
        let target = JsonModel::Text(request.target@);
        let number = JsonModel::Number(decimal(limit as nat));
        let a = with_member(list, "collectionName"@, target);
        let b = with_member(a, "limit"@, number);
        lemma_members_are_found(list, "collectionName"@, target, name);
        lemma_members_are_found(a, "limit"@, number, name);
        lemma_members_are_found(a, "limit"@, number, "collectionName"@);
        if let Some(database) = optional_text(profile.database) {
            lemma_members_are_found(b, "dbName"@, JsonModel::Text(database), name);
            lemma_members_are_found(b, "dbName"@, JsonModel::Text(database), "limit"@);
            lemma_members_are_found(b, "dbName"@, JsonModel::Text(database), "collectionName"@);
        }
        assert(names_of(["v2", "vectordb"]@).push("entities"@).push("search"@) =~= entity_path(
            "search"@,
        ));
    }
}

/// Whether documents are those of records, one by one.
pub open spec fn are_records(items: Seq<JsonModel>, list: Seq<RecordModel>) -> bool {
    &&& items.len() == list.len()
    &&& forall|i: int|
        0 <= i < items.len() ==> record_json(list[i]) == Ok::<JsonModel, ErrorModel>(
            #[trigger] items[i],
        )
}

/// The documents of records.
proof fn lemma_records(list: Seq<RecordModel>)
    ensures
        record_documents(list) matches Ok(items) ==> are_records(items, list),
    decreases list.len(),
{
    if list.len() > 0 {
        lemma_records(list.drop_last());
        if let Ok(items) = record_documents(list) {
            let shorter = record_documents(list.drop_last())->Ok_0;
            assert forall|i: int| 0 <= i < items.len() implies record_json(list[i]) == Ok::<
                JsonModel,
                ErrorModel,
            >(#[trigger] items[i]) by {
                if i < shorter.len() {
                    assert(items[i] == shorter[i]);
                    assert(list.drop_last()[i] == list[i]);
                }
            }
        }
    }
}

/// Whether a document is that of a point: its metadata with its key and its vector.
pub open spec fn is_point(
    document: JsonModel,
    point: VectorPoint,
    key_field: Seq<char>,
    kind: MilvusPrimaryKeyType,
    vector_field: Seq<char>,
) -> bool {
    document matches JsonModel::Object(list) && {
        &&& named(list, vector_field) matches Some(JsonModel::Array(items)) && are_elements(
            items,
            doubles(point.vector@),
        )
        &&& key_field != vector_field ==> named(list, key_field) == Some(
            key_document(kind, point.id@)->Ok_0,
        )
        &&& forall|name: Seq<char>|
            name != key_field && name != vector_field ==> #[trigger] named(list, name) == named(
                entries_json(point.metadata@)->Ok_0,
                name,
            )
    }
}

/// A point is written with its own key, vector and metadata.
proof fn lemma_point(
    point: VectorPoint,
    key_field: Seq<char>,
    kind: MilvusPrimaryKeyType,
    vector_field: Seq<char>,
)
    ensures
        point_document(point, key_field, kind, vector_field) matches Ok(document) ==> is_point(
            document,
            point,
            key_field,
            kind,
            vector_field,
        ),
{
    if let Ok(document) = point_document(point, key_field, kind, vector_field) {
        let list = entries_json(point.metadata@)->Ok_0;
        let key = key_document(kind, point.id@)->Ok_0;
        let a = with_member(list, key_field, key);
        let vector = JsonModel::Array(vector_documents(doubles(point.vector@)));
        let all = document->Object_0;
        lemma_vectors_are_written(doubles(point.vector@));
        lemma_members_are_found(a, vector_field, vector, key_field);
        lemma_members_are_found(list, key_field, key, key_field);
        assert forall|name: Seq<char>| name != key_field && name != vector_field implies #[trigger] named(
            all,
            name,
        ) == named(list, name) by {
            lemma_members_are_found(a, vector_field, vector, name);
            lemma_members_are_found(list, key_field, key, name);
        }
    }
}

/// The documents of points.
proof fn lemma_points(
    points: Seq<VectorPoint>,
    key_field: Seq<char>,
    kind: MilvusPrimaryKeyType,
    vector_field: Seq<char>,
)
    ensures
        point_documents(points, key_field, kind, vector_field) matches Ok(items) ==> items.len()
            == points.len() && forall|i: int|
            0 <= i < items.len() ==> is_point(
                #[trigger] items[i],
                points[i],
                key_field,
                kind,
                vector_field,
            ),
    decreases points.len(),
{
    if points.len() > 0 {
        let before = points.drop_last();
        lemma_points(before, key_field, kind, vector_field);
        lemma_point(points.last(), key_field, kind, vector_field);
        if let Ok(items) = point_documents(points, key_field, kind, vector_field) {
            let shorter = point_documents(before, key_field, kind, vector_field)->Ok_0;
            assert forall|i: int| 0 <= i < items.len() implies is_point(
                #[trigger] items[i],
                points[i],
                key_field,
                kind,
                vector_field,
            ) by {
                if i < shorter.len() {
                    assert(items[i] == shorter[i]);
                    assert(before[i] == points[i]);
                }
            }
        }
    }
}

/// An insertion sends every record once, in order; an upsert sends every point with its own key,
/// vector and metadata, into its partition; and the server must confirm as many as were sent.
pub proof fn lemma_writes_send_everything(
    profile: ConnectionProfile,
    insert: InsertRequest,
    upsert: VectorUpsertRequest,
    description: JsonModel,
)
    ensures
        insert_call(profile, insert) matches Ok((sent, reading)) ==> {
            &&& 0 < insert.records@.len() <= profile.policy.max_affected
            &&& sent.method is Post
            &&& goes_to(sent, profile.endpoint@, entity_path("insert"@))
            &&& names_collection(sent.body, profile, insert.target@)
            &&& exists|items: Seq<JsonModel>|
                #[trigger] are_records(items, records(insert.records@)) && sends(
                    sent.body,
                    "data"@,
                    JsonModel::Array(items),
                )
            &&& member_count(sent.body) == 2 + count_of(profile.database)
            &&& reading matches MilvusReading::Insert { expected } && expected as int
                == insert.records@.len() as u64 as int
        },
        upsert_call(profile, upsert, description) matches Ok((sent, reading)) ==> {
            &&& sent.method is Post
            &&& goes_to(sent, profile.endpoint@, entity_path("upsert"@))
            &&& names_collection(sent.body, profile, upsert.target@)
            &&& exists|kind: MilvusPrimaryKeyType, items: Seq<JsonModel>|
                #[trigger] are_points(profile, upsert, kind, items) && sends_points(
                    sent.body,
                    items,
                )
            &&& optional_text(upsert.namespace) matches Some(partition) ==> sends(
                sent.body,
                "partitionName"@,
                JsonModel::Text(partition),
            )
            &&& member_count(sent.body) == 2 + count_of(profile.database) + count_of(
                upsert.namespace,
            )
            &&& reading matches MilvusReading::Upsert { expected } && expected as int
                == upsert.points@.len() as u64 as int
        },
{
    if let Ok((sent, reading)) = insert_call(profile, insert) {
        let items = record_documents(records(insert.records@))->Ok_0;
        lemma_records(records(insert.records@));
        assert(are_records(items, records(insert.records@)));
        lemma_start(profile, insert.target@);
        lemma_more(body_start(profile, insert.target@), "data"@, JsonModel::Array(items));
        assert(names_of(["v2", "vectordb"]@).push("entities"@).push("insert"@) =~= entity_path(
            "insert"@,
        ));
    }
    if let Ok((sent, reading)) = upsert_call(profile, upsert, description) {
        let key_field = configured_field(profile, "primary_key_field"@, "id"@);
        let vector_field = configured_field(profile, "vector_field"@, "vector"@);
        let kind = crate::http::milvus::described_key_type(description, key_field)->Ok_0;
        let items = point_documents(upsert.points@, key_field, kind, vector_field)->Ok_0;
        lemma_points(upsert.points@, key_field, kind, vector_field);
        assert(are_points(profile, upsert, kind, items));
        lemma_start(profile, upsert.target@);
        let a = body_start(profile, upsert.target@);
        let b = a.push(("data"@, JsonModel::Array(items)));
        lemma_more(a, "data"@, JsonModel::Array(items));
        if let Some(partition) = optional_text(upsert.namespace) {
            lemma_more(b, "partitionName"@, JsonModel::Text(partition));
        }
        assert(sends_points(sent.body, items));
        assert(names_of(["v2", "vectordb"]@).push("entities"@).push("upsert"@) =~= entity_path(
            "upsert"@,
        ));
    }
}

/// Whether a body sends documents of points with keys of a kind.
pub open spec fn sends_points(body: BodyModel, items: Seq<JsonModel>) -> bool {
    sends(body, "data"@, JsonModel::Array(items))
}

/// Whether documents are those of the points of a request, one by one.
pub open spec fn are_points(
    profile: ConnectionProfile,
    request: VectorUpsertRequest,
    kind: MilvusPrimaryKeyType,
    items: Seq<JsonModel>,
) -> bool {
    let key_field = match text_option(profile, "primary_key_field"@) {
        Some(field) => field,
        None => "id"@,
    };
    let vector_field = match text_option(profile, "vector_field"@) {
        Some(field) => field,
        None => "vector"@,
    };
    &&& items.len() == request.points@.len()
    &&& forall|i: int|
        0 <= i < items.len() ==> is_point(
            #[trigger] items[i],
            request.points@[i],
            key_field,
            kind,
            vector_field,
        )
}

/// A key is written as a number where the collection has numbers for keys, and as a text where it
/// has texts.
pub proof fn lemma_keys_are_kept(kind: MilvusPrimaryKeyType, id: Seq<char>)
    ensures
        match kind {
            MilvusPrimaryKeyType::Int64 => match key_document(kind, id) {
                Ok(document) => signed_value(id) matches Some(number) && document
                    == JsonModel::Number(crate::text::signed_decimal(number as int)),
                Err(_) => signed_value(id) is None,
            },
            MilvusPrimaryKeyType::String => key_document(kind, id) == Ok::<JsonModel, ErrorModel>(
                JsonModel::Text(id),
            ),
        },
{
}

/// The keys of a deletion in the notation of expressions.
proof fn lemma_key_texts(list: Seq<ValueModel>)
    ensures
        key_texts(list) matches Ok(parts) ==> parts.len() == list.len() && forall|i: int|
            0 <= i < list.len() ==> is_text_of_key(#[trigger] parts[i], list[i]),
    decreases list.len(),
{
    if list.len() > 0 {
        let before = list.drop_last();
        lemma_key_texts(before);
        if let Ok(parts) = key_texts(list) {
            let shorter = key_texts(before)->Ok_0;
            assert forall|i: int| 0 <= i < list.len() implies is_text_of_key(
                #[trigger] parts[i],
                list[i],
            ) by {
                if i < before.len() {
                    assert(parts[i] == shorter[i]);
                    assert(before[i] == list[i]);
                }
            }
        }
    }
}

/// Whether a text is a key in JSON.
pub open spec fn is_text_of_key(text: Seq<char>, key: ValueModel) -> bool {
    json_text(value_json(key)->Ok_0) == Some(text)
}

/// The field that holds the keys of a collection.
pub open spec fn key_field_of(profile: ConnectionProfile) -> Seq<char> {
    match text_option(profile, "primary_key_field"@) {
        Some(field) => field,
        None => "id"@,
    }
}

/// The field that a filter on keys names, and the keys.
pub open spec fn named_keys(filter: Filter) -> Option<(Seq<char>, Seq<ValueModel>)> {
    match filter {
        Filter::Eq { field, value } => Some((field@, seq![value@])),
        Filter::In { field, values: list } => Some((field@, values(list@))),
        _ => None,
    }
}

/// Whether a body asks for the removal of the entities with some keys, and of no others.
pub open spec fn removes(body: BodyModel, key_field: Seq<char>, keys: Seq<ValueModel>) -> bool {
    exists|parts: Seq<Seq<char>>|
        are_key_texts(parts, keys) && #[trigger] sends_removal(body, key_field, parts)
}

/// A deletion asks for the removal of the entities whose keys its filter names, and of no others, no
/// more than the policy and the request admit.
pub proof fn lemma_deletions_name_their_keys(profile: ConnectionProfile, request: DeleteRequest)
    ensures
        delete_call(profile, request) matches Ok((sent, reading)) ==> named_keys(
            request.filter,
        ) matches Some((field, keys)) && {
            &&& field == key_field_of(profile) || field == "id"@ || field == "_id"@
            &&& 0 < keys.len() <= request.max_affected
            &&& request.max_affected <= profile.policy.max_affected
            &&& sent.method is Post
            &&& goes_to(sent, profile.endpoint@, entity_path("delete"@))
            &&& names_collection(sent.body, profile, request.target@)
            &&& removes(sent.body, key_field_of(profile), keys)
            &&& member_count(sent.body) == 2 + count_of(profile.database)
            &&& reading matches MilvusReading::Delete { requested } && requested as int
                == keys.len() as u64 as int
        },
{
    if let Ok((sent, reading)) = delete_call(profile, request) {
        let key_field = configured_field(profile, "primary_key_field"@, "id"@);
        let fields = names_of(["id", "_id"]@).push(key_field);
        assert(forall|i: int| 0 <= i < fields.len() ==> #[trigger] fields[i] == "id"@ || fields[i]
            == "_id"@ || fields[i] == key_field);
        let keys = filter_keys(request.filter, fields)->Ok_0;
        let parts = key_texts(keys)->Ok_0;
        lemma_key_texts(keys);
        if let Filter::Eq { value, .. } = request.filter {
            assert(Seq::<ValueModel>::empty().push(value@) =~= seq![value@]);
        }
        assert(are_key_texts(parts, keys));
        let text = key_field + " in ["@ + joined(parts, ","@) + "]"@;
        lemma_start(profile, request.target@);
        lemma_more(body_start(profile, request.target@), "filter"@, JsonModel::Text(text));
        assert(sends_removal(sent.body, key_field, parts));
        assert(names_of(["v2", "vectordb"]@).push("entities"@).push("delete"@) =~= entity_path(
            "delete"@,
        ));
    }
}

/// Whether texts are those of keys, one by one.
pub open spec fn are_key_texts(parts: Seq<Seq<char>>, keys: Seq<ValueModel>) -> bool {
    &&& parts.len() == keys.len()
    &&& forall|i: int| 0 <= i < keys.len() ==> is_text_of_key(#[trigger] parts[i], keys[i])
}

/// Whether a body asks for the removal of the entities with some keys.
pub open spec fn sends_removal(
    body: BodyModel,
    key_field: Seq<char>,
    parts: Seq<Seq<char>>,
) -> bool {
    sends(
        body,
        "filter"@,
        JsonModel::Text(key_field + " in ["@ + joined(parts, ","@) + "]"@),
    )
}

/// Whether an operator of Milvus admits a stored value, by the sign of its difference from the one
/// that it is compared with.
pub open spec fn operator_admits(operator: Seq<char>, sign: int) -> bool {
    ||| operator == "=="@ && sign == 0
    ||| operator == "!="@ && sign != 0
    ||| operator == "<"@ && sign < 0
    ||| operator == "<="@ && sign <= 0
    ||| operator == ">"@ && sign > 0
    ||| operator == ">="@ && sign >= 0
}

/// The operators are different texts.
proof fn lemma_operators(filter: Filter)
    ensures
        filter is Eq ==> means("=="@, filter),
        filter is Ne ==> means("!="@, filter),
        filter is Lt ==> means("<"@, filter),
        filter is Lte ==> means("<="@, filter),
        filter is Gt ==> means(">"@, filter),
        filter is Gte ==> means(">="@, filter),
{
    reveal_strlit("==");
    reveal_strlit("!=");
    reveal_strlit("<");
    reveal_strlit("<=");
    reveal_strlit(">");
    reveal_strlit(">=");
    assert("=="@.len() == 2 && "!="@.len() == 2 && "<"@.len() == 1 && "<="@.len() == 2 && ">"@.len()
        == 1 && ">="@.len() == 2);
    assert("=="@[0] == '=' && "!="@[0] == '!' && "<"@[0] == '<' && "<="@[0] == '<' && ">"@[0] == '>'
        && ">="@[0] == '>');
}

/// Whether an operator admits just what a filter admits.
pub open spec fn means(operator: Seq<char>, filter: Filter) -> bool {
    forall|sign: int| operator_admits(operator, sign) == admits(filter, sign)
}

/// Whether an expression compares the field of a filter with its value by an operator.
pub open spec fn compares(text: Seq<char>, filter: Filter, operator: Seq<char>) -> bool {
    compared(filter) matches Some((field, value)) && value_text(value) is Ok && text == field + " "@
        + operator + " "@ + value_text(value)->Ok_0
}

/// An expression asks for the entities that its filter admits: by an operator that admits just what
/// the comparison admits, by a list of values, or by the words that ask for all of some, for any of
/// some, or for none.
pub proof fn lemma_expressions_mean_what_they_say(filter: Filter)
    ensures
        expression(filter) matches Ok(text) ==> match filter {
            Filter::Eq { .. }
            | Filter::Ne { .. }
            | Filter::Lt { .. }
            | Filter::Lte { .. }
            | Filter::Gt { .. }
            | Filter::Gte { .. } => exists|operator: Seq<char>|
                means(operator, filter) && #[trigger] compares(text, filter, operator),
            Filter::In { field, values: list } => exists|parts: Seq<Seq<char>>|
                #[trigger] are_value_texts(parts, values(list@)) && text == field@ + " in ["@
                    + joined(parts, ","@) + "]"@,
            Filter::And { filters } => exists|parts: Seq<Seq<char>>|
                #[trigger] are_expressions(parts, filters@) && text == "("@ + joined(
                    parts,
                    " and "@,
                ) + ")"@,
            Filter::Or { filters } => exists|parts: Seq<Seq<char>>|
                #[trigger] are_expressions(parts, filters@) && text == "("@ + joined(parts, " or "@)
                    + ")"@,
            Filter::Not { filter: inner } => expression(*inner) is Ok && text == "not ("@
                + expression(*inner)->Ok_0 + ")"@,
            Filter::Contains { .. } => false,
        },
{
    lemma_operators(filter);
    if let Ok(text) = expression(filter) {
        match filter {
            Filter::Eq { .. } => {
                assert(compares(text, filter, "=="@));
            },
            Filter::Ne { .. } => {
                assert(compares(text, filter, "!="@));
            },
            Filter::Lt { .. } => {
                assert(compares(text, filter, "<"@));
            },
            Filter::Lte { .. } => {
                assert(compares(text, filter, "<="@));
            },
            Filter::Gt { .. } => {
                assert(compares(text, filter, ">"@));
            },
            Filter::Gte { .. } => {
                assert(compares(text, filter, ">="@));
            },
            Filter::In { values: list, .. } => {
                lemma_value_texts(values(list@));
                assert(are_value_texts(value_texts(values(list@))->Ok_0, values(list@)));
            },
            Filter::And { filters } => {
                lemma_expressions(filters@);
                assert(are_expressions(expressions(filters@)->Ok_0, filters@));
            },
            Filter::Or { filters } => {
                lemma_expressions(filters@);
                assert(are_expressions(expressions(filters@)->Ok_0, filters@));
            },
            _ => {},
        }
    }
}

/// Whether texts are those of values, one by one.
pub open spec fn are_value_texts(parts: Seq<Seq<char>>, list: Seq<ValueModel>) -> bool {
    &&& parts.len() == list.len()
    &&& forall|i: int|
        0 <= i < list.len() ==> value_text(list[i]) == Ok::<Seq<char>, ErrorModel>(
            #[trigger] parts[i],
        )
}

/// Whether texts are the expressions of filters, one by one.
pub open spec fn are_expressions(parts: Seq<Seq<char>>, filters: Seq<Filter>) -> bool {
    &&& parts.len() == filters.len()
    &&& forall|i: int|
        0 <= i < filters.len() ==> expression(filters[i]) == Ok::<Seq<char>, ErrorModel>(
            #[trigger] parts[i],
        )
}

/// The texts of values.
proof fn lemma_value_texts(list: Seq<ValueModel>)
    ensures
        value_texts(list) matches Ok(parts) ==> are_value_texts(parts, list),
    decreases list.len(),
{
    if list.len() > 0 {
        let before = list.drop_last();
        lemma_value_texts(before);
        if let Ok(parts) = value_texts(list) {
            let shorter = value_texts(before)->Ok_0;
            assert forall|i: int| 0 <= i < list.len() implies value_text(list[i]) == Ok::<
                Seq<char>,
                ErrorModel,
            >(#[trigger] parts[i]) by {
                if i < before.len() {
                    assert(parts[i] == shorter[i]);
                    assert(before[i] == list[i]);
                }
            }
        }
    }
}

/// The expressions of filters.
proof fn lemma_expressions(filters: Seq<Filter>)
    ensures
        expressions(filters) matches Ok(parts) ==> are_expressions(parts, filters),
    decreases filters.len(),
{
    if filters.len() > 0 {
        let before = filters.subrange(0, filters.len() - 1);
        lemma_expressions(before);
        if let Ok(parts) = expressions(filters) {
            let shorter = expressions(before)->Ok_0;
            assert forall|i: int| 0 <= i < filters.len() implies expression(filters[i]) == Ok::<
                Seq<char>,
                ErrorModel,
            >(#[trigger] parts[i]) by {
                if i < before.len() {
                    assert(parts[i] == shorter[i]);
                    assert(before[i] == filters[i]);
                }
            }
        }
    }
}

} // verus!
