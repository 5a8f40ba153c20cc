//! What Pinecone is asked: which vectors, which neighbours, and what is written.
use crate::base_laws::lemma_members_are_found;
use crate::budget::smaller;
use crate::convert::record_json;
use crate::convert_laws::{are_elements, lemma_vectors_are_written};
use crate::http::common::{filter_ids, rows_result, text_option};
use crate::http::milvus_laws::{count_of, lemma_more};
use crate::http::pinecone::{
    delete_body, delete_ids, namespace_of, operation_call, point_document, point_documents,
    read_call, search_body, vector_body, ReadingModel,
};
use crate::http::sending::{goes_to, member_count, sends};
use crate::http::transport::{segments_result, EndpointModel};
use crate::json::{text_documents, vector_documents, with_member};
use crate::model::{
    ConnectionProfile, ConnectorContext, DataOperation, DeleteRequest, ReadRequest, SearchRequest,
    VectorPoint, VectorSearchRequest, VectorUpsertRequest,
};
use crate::text::{decimal, names_of, optional_text, texts};
use crate::value::{doubles, named, JsonModel};
use vstd::prelude::*;

verus! {

broadcast use {crate::text::group_texts, crate::value::group_models};

/// The namespace of a request: its own, or that of the profile where it has none; an empty one is
/// none.
pub open spec fn namespace_in(profile: ConnectionProfile, own: Option<Seq<char>>) -> Option<
    Seq<char>,
> {
    let asked = if own is Some {
        own
    } else {
        text_option(profile, "namespace"@)
    };
    if asked matches Some(name) && name.len() > 0 {
        asked
    } else {
        None
    }
}

/// Whether a vector search has a filter that says something.
pub open spec fn is_filtered(request: VectorSearchRequest) -> bool {
    request.filter matches Some(filter) && !(filter@ is Null)
}

/// A vector search asks the index for the nearest neighbours of its vector, within its filter and
/// its namespace, and for no more of them than it may return, with their metadata, and with their
/// values where it asks for them.
pub proof fn lemma_vector_searches_ask_for_what_they_say(
    context: ConnectorContext,
    profile: ConnectionProfile,
    request: VectorSearchRequest,
    base: EndpointModel,
)
    ensures
        operation_call(context, profile, DataOperation::VectorSearch(request), base) matches Ok(
            (sent, reading),
        ) ==> {
            let limit = smaller(
                smaller(request.top_k as int, context.max_rows as int),
                profile.policy.max_rows as int,
            );
            let namespace = namespace_in(profile, optional_text(request.namespace));
            &&& limit > 0
            &&& sent.method is Post
            &&& goes_to(sent, base, seq!["query"@])
            &&& exists|items: Seq<JsonModel>|
                #[trigger] are_elements(items, doubles(request.vector@)) && sends(
                    sent.body,
                    "vector"@,
                    JsonModel::Array(items),
                )
            &&& sends(sent.body, "topK"@, JsonModel::Number(decimal(limit as nat)))
            &&& sends(sent.body, "includeValues"@, JsonModel::Bool(request.include_vectors))
            &&& sends(sent.body, "includeMetadata"@, JsonModel::Bool(true))
            &&& is_filtered(request) ==> sends(sent.body, "filter"@, request.filter->0@)
            &&& namespace matches Some(name) ==> sends(
                sent.body,
                "namespace"@,
                JsonModel::Text(name),
            )
            &&& member_count(sent.body) == 4 + (if is_filtered(request) {
                1int
            } else {
                0
            }) + count_of(namespace)
            &&& reading is Matches
        },
{
    if let Ok((sent, reading)) = operation_call(
        context,
        profile,
        DataOperation::VectorSearch(request),
        base,
    ) {
        let limit = rows_result(context, profile, request.top_k)->Ok_0;
        let items = vector_documents(doubles(request.vector@));
        lemma_vectors_are_written(doubles(request.vector@));
        assert(are_elements(items, doubles(request.vector@)));
        let number = JsonModel::Number(decimal(limit as nat));
        let a = Seq::<(Seq<char>, JsonModel)>::empty();
        let b = a.push(("vector"@, JsonModel::Array(items)));
        let c = b.push(("topK"@, number));
        let d = c.push(("includeValues"@, JsonModel::Bool(request.include_vectors)));
        let e = d.push(("includeMetadata"@, JsonModel::Bool(true)));
        lemma_more(a, "vector"@, JsonModel::Array(items));
        lemma_more(b, "topK"@, number);
        lemma_more(c, "includeValues"@, JsonModel::Bool(request.include_vectors));
        lemma_more(d, "includeMetadata"@, JsonModel::Bool(true));
        let f = if is_filtered(request) {
            e.push(("filter"@, request.filter->0@))
        } else {
            e
        };
        if is_filtered(request) {
            lemma_more(e, "filter"@, request.filter->0@);
        }
        let namespace = namespace_in(profile, optional_text(request.namespace));
        assert(namespace == namespace_of(profile, optional_text(request.namespace)));
        if let Some(name) = namespace {
            lemma_more(f, "namespace"@, JsonModel::Text(name));
        }
        assert(names_of(["query"]@) =~= seq!["query"@]);
    }
}

/// Vector searches with different filters send different bodies.
pub proof fn lemma_filters_are_not_lost(
    context: ConnectorContext,
    profile: ConnectionProfile,
    left: VectorSearchRequest,
    right: VectorSearchRequest,
)
    requires
        vector_body(context, profile, left) is Ok,
        vector_body(context, profile, right) is Ok,
        is_filtered(left) && is_filtered(right),
        left.filter->0@ != right.filter->0@,
    ensures
        vector_body(context, profile, left)->Ok_0 != vector_body(context, profile, right)->Ok_0,
{
    let a = vector_body(context, profile, left)->Ok_0;
    let b = vector_body(context, profile, right)->Ok_0;
    assert(a->Object_0[4] == ("filter"@, left.filter->0@));
    assert(b->Object_0[4] == ("filter"@, right.filter->0@));
}

/// A read fetches just the vectors that its filter names, or lists those behind its cursor, within
/// the namespace of the profile, and no more than it may return.
pub proof fn lemma_reads_ask_for_what_they_say(
    context: ConnectorContext,
    profile: ConnectionProfile,
    request: ReadRequest,
    base: EndpointModel,
)
    ensures
        read_call(context, profile, request, base) matches Ok((sent, reading)) ==> {
            let limit = smaller(
                smaller(request.options.limit as int, context.max_rows as int),
                profile.policy.max_rows as int,
            );
            let scope = match text_option(profile, "namespace"@) {
                Some(name) => seq![("namespace"@, name)],
                None => Seq::empty(),
            };
            &&& limit > 0
            &&& request.options.sort@.len() == 0
            &&& sent.method is Get
            &&& sent.body is Empty
            &&& match request.filter {
                Some(filter) => {
                    &&& request.options.cursor is None
                    &&& filter_ids(filter, seq!["id"@].push("_id"@)) matches Ok(ids) && ids.len()
                        <= limit && sent.query == Seq::new(
                        ids.len(),
                        |i: int| ("ids"@, ids[i]),
                    ) + scope && fetches(sent.url, base, ids.len() == 0 && scope.len() == 0)
                    &&& reading == (ReadingModel::Fetch { fields: texts(request.fields@) })
                },
                None => {
                    &&& goes_to(sent, base, seq!["vectors"@].push("list"@))
                    &&& sent.query == seq![("limit"@, decimal(limit as nat))] + (match optional_text(
                        request.options.cursor,
                    ) {
                        Some(cursor) => seq![("paginationToken"@, cursor)],
                        None => Seq::empty(),
                    }) + scope
                    &&& reading is List
                },
            }
        },
{
    if let Ok((sent, reading)) = read_call(context, profile, request, base) {
        assert(names_of(["id", "_id"]@) =~= seq!["id"@].push("_id"@));
        assert(names_of(["vectors", "fetch"]@) =~= seq!["vectors"@].push("fetch"@));
        assert(names_of(["vectors", "list"]@) =~= seq!["vectors"@].push("list"@));
        let scope = match text_option(profile, "namespace"@) {
            Some(name) => seq![("namespace"@, name)],
            None => Seq::empty(),
        };
        match request.filter {
            Some(filter) => {
                let ids = filter_ids(filter, names_of(["id", "_id"]@))->Ok_0;
                assert(sent.query =~= Seq::new(ids.len(), |i: int| ("ids"@, ids[i])) + scope);
            },
            None => {
                let limit = rows_result(context, profile, request.options.limit)->Ok_0;
                let more = match optional_text(request.options.cursor) {
                    Some(cursor) => seq![("paginationToken"@, cursor)],
                    None => Seq::empty(),
                };
                assert(sent.query =~= seq![("limit"@, decimal(limit as nat))] + more + scope);
            },
        }
    }
}

/// Whether a URL is that of a fetch, with a mark behind it where nothing follows.
pub open spec fn fetches(url: Seq<char>, base: EndpointModel, bare: bool) -> bool {
    segments_result(base, seq!["vectors"@].push("fetch"@)) matches Ok(path) && url == if bare {
        path + "?"@
    } else {
        path
    }
}

/// Whether a document is that of a point: its identity, its values and its metadata.
pub open spec fn is_point(document: JsonModel, point: VectorPoint) -> bool {
    document matches JsonModel::Object(list) && list.len() == 3 && {
        &&& list.contains(("id"@, JsonModel::Text(point.id@)))
        &&& exists|items: Seq<JsonModel>|
            #[trigger] are_elements(items, doubles(point.vector@)) && list.contains(
                ("values"@, JsonModel::Array(items)),
            )
        &&& record_json(point.metadata@) is Ok && list.contains(
            ("metadata"@, record_json(point.metadata@)->Ok_0),
        )
    }
}

/// Whether documents are those of points, one by one.
pub open spec fn are_points(items: Seq<JsonModel>, points: Seq<VectorPoint>) -> bool {
    &&& items.len() == points.len()
    &&& forall|i: int| 0 <= i < items.len() ==> is_point(#[trigger] items[i], points[i])
}

/// A point is written with its own identity, values and metadata.
proof fn lemma_point(point: VectorPoint)
    ensures
        point_document(point) matches Ok(document) ==> is_point(document, point),
{
    if let Ok(document) = point_document(point) {
        let list = document->Object_0;
        let items = vector_documents(doubles(point.vector@));
        lemma_vectors_are_written(doubles(point.vector@));
        assert(are_elements(items, doubles(point.vector@)));
        assert(list[0] == ("id"@, JsonModel::Text(point.id@)));
        assert(list[1] == ("values"@, JsonModel::Array(items)));
        assert(list[2] == ("metadata"@, record_json(point.metadata@)->Ok_0));
    }
}

/// The documents of points.
proof fn lemma_points(points: Seq<VectorPoint>)
    ensures
        point_documents(points) matches Ok(items) ==> are_points(items, points),
    decreases points.len(),
{
    if points.len() > 0 {
        let before = points.drop_last();
        lemma_points(before);
        lemma_point(points.last());
        if let Ok(items) = point_documents(points) {
            let shorter = point_documents(before)->Ok_0;
            assert forall|i: int| 0 <= i < items.len() implies is_point(
                #[trigger] items[i],
                points[i],
            ) by {
                if i < shorter.len() {
                    assert(items[i] == shorter[i]);
                    assert(before[i] == points[i]);
                }
            }
        }
    }
}

/// An upsert sends every point once, in order, into its namespace.
pub proof fn lemma_upserts_send_everything(
    context: ConnectorContext,
    profile: ConnectionProfile,
    request: VectorUpsertRequest,
    base: EndpointModel,
)
    ensures
        operation_call(context, profile, DataOperation::VectorUpsert(request), base) matches Ok(
            (sent, reading),
        ) ==> {
            let namespace = namespace_in(profile, optional_text(request.namespace));
            &&& 0 < request.points@.len() <= profile.policy.max_affected
            &&& sent.method is Post
            &&& goes_to(sent, base, seq!["vectors"@].push("upsert"@))
            &&& exists|items: Seq<JsonModel>|
                #[trigger] are_points(items, request.points@) && sends(
                    sent.body,
                    "vectors"@,
                    JsonModel::Array(items),
                )
            &&& namespace matches Some(name) ==> sends(
                sent.body,
                "namespace"@,
                JsonModel::Text(name),
            )
            &&& member_count(sent.body) == 1 + count_of(namespace)
            &&& reading matches ReadingModel::Upsert { expected } && expected as int
                == request.points@.len() as u64 as int
        },
{
    if let Ok((sent, reading)) = operation_call(
        context,
        profile,
        DataOperation::VectorUpsert(request),
        base,
    ) {
        let items = point_documents(request.points@)->Ok_0;
        lemma_points(request.points@);
        assert(are_points(items, request.points@));
        let a = Seq::<(Seq<char>, JsonModel)>::empty();
        lemma_more(a, "vectors"@, JsonModel::Array(items));
        let namespace = namespace_in(profile, optional_text(request.namespace));
        assert(namespace == namespace_of(profile, optional_text(request.namespace)));
        if let Some(name) = namespace {
            lemma_more(
                a.push(("vectors"@, JsonModel::Array(items))),
                "namespace"@,
                JsonModel::Text(name),
            );
        }
        assert(names_of(["vectors", "upsert"]@) =~= seq!["vectors"@].push("upsert"@));
    }
}

/// A deletion names every vector of its filter and no other one, in the namespace of the profile, no
/// more than the policy and the request admit.
pub proof fn lemma_deletions_name_their_vectors(
    context: ConnectorContext,
    profile: ConnectionProfile,
    request: DeleteRequest,
    base: EndpointModel,
)
    ensures
        operation_call(context, profile, DataOperation::Delete(request), base) matches Ok(
            (sent, reading),
        ) ==> filter_ids(request.filter, seq!["id"@].push("_id"@)) matches Ok(ids) && {
            &&& 0 < ids.len() <= request.max_affected
            &&& request.max_affected <= profile.policy.max_affected
            &&& sent.method is Post
            &&& goes_to(sent, base, seq!["vectors"@].push("delete"@))
            &&& sends(sent.body, "ids"@, JsonModel::Array(text_documents(ids)))
            &&& sends(
                sent.body,
                "namespace"@,
                JsonModel::Text(
                    match text_option(profile, "namespace"@) {
                        Some(name) => name,
                        None => Seq::empty(),
                    },
                ),
            )
            &&& member_count(sent.body) == 2
            &&& reading matches ReadingModel::Delete { count } && count as int == ids.len() as u64 as int
        },
{
    assert(names_of(["id", "_id"]@) =~= seq!["id"@].push("_id"@));
    assert(names_of(["vectors", "delete"]@) =~= seq!["vectors"@].push("delete"@));
    if let Ok((sent, reading)) = operation_call(
        context,
        profile,
        DataOperation::Delete(request),
        base,
    ) {
        let ids = delete_ids(profile, request)->Ok_0;
        let list = delete_body(profile, ids)->Object_0;
        assert(list[0] == ("ids"@, JsonModel::Array(text_documents(ids))));
        assert(list[1].0 == "namespace"@);
    }
}

/// A search sends the query that it was given with its own limit, and the namespace of the profile
/// unless the query names one.
pub proof fn lemma_searches_send_their_query(
    context: ConnectorContext,
    profile: ConnectionProfile,
    request: SearchRequest,
    name: Seq<char>,
)
    ensures
        search_body(context, profile, request) matches Ok(body) ==> {
            let limit = smaller(
                smaller(request.options.limit as int, context.max_rows as int),
                profile.policy.max_rows as int,
            );
            &&& request.query@ is Object
            &&& body matches JsonModel::Object(list) && {
                &&& named(list, "topK"@) == Some(JsonModel::Number(decimal(limit as nat)))
                &&& named(list, "namespace"@) == (match named(
                    request.query@->Object_0,
                    "namespace"@,
                ) {
                    Some(asked) => Some(asked),
                    None => match namespace_in(profile, None) {
                        Some(own) => Some(JsonModel::Text(own)),
                        None => None,
                    },
                })
                &&& name != "topK"@ && name != "namespace"@ ==> named(list, name) == named(
                    request.query@->Object_0,
                    name,
                )
            }
        },
{
    reveal_strlit("topK");
    reveal_strlit("namespace");
    assert("topK"@.len() == 4 && "namespace"@.len() == 9);
    if let Ok(body) = search_body(context, profile, request) {
        let limit = rows_result(context, profile, request.options.limit)->Ok_0;
        let list = request.query@->Object_0;
        let number = JsonModel::Number(decimal(limit as nat));
        let a = with_member(list, "topK"@, number);
        lemma_members_are_found(list, "topK"@, number, name);
        lemma_members_are_found(list, "topK"@, number, "namespace"@);
        if let Some(own) = text_option(profile, "namespace"@) {
            lemma_members_are_found(a, "namespace"@, JsonModel::Text(own), name);
            lemma_members_are_found(a, "namespace"@, JsonModel::Text(own), "topK"@);
        }
    }
}

} // verus!
