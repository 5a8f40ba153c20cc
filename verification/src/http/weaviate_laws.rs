//! What Weaviate is asked: which objects, which neighbours, and what is written.
use crate::budget::smaller;
use crate::convert::record_json;
use crate::convert_laws::{are_elements, lemma_vectors_are_written};
use crate::encoding::json_text;
use crate::http::common::{filter_ids, rows_result, text_option};
use crate::http::milvus_laws::count_of;
use crate::http::sending::{goes_to, under};
use crate::http::transport::{BodyModel, RequestModel};
use crate::http::weaviate::{
    delete_plan, delete_request, fetch_request, object_document, object_documents, query_request,
    read_plan, tenant_of, text_search_plan, upsert_plan, upsert_request, vector_arguments,
    vector_search_plan, DeleteModel, FetchModel, SearchModel, UpsertModel, UpsertPhase,
    WeaviateModel,
};
use crate::http::weaviate_query::{
    argument_texts, id_error, is_upper_case, literal, literals, member_literals, property_type,
    schema_selections, selection_of, selection_text, selections,
};
use crate::json::{member, text_of, vector_documents};
use crate::model::{
    ConnectionProfile, ConnectorContext, DeleteRequest, ErrorModel, ReadRequest, SearchRequest,
    VectorPoint, VectorSearchRequest, VectorUpsertRequest,
};
use crate::text::{decimal, joined, names_of, optional_text, texts};
use crate::value::{doubles, named, JsonModel};
use vstd::prelude::*;

verus! {

broadcast use {crate::text::group_texts, crate::value::group_models};

/// The tenant of a request: its own, or that of the profile where it has none.
pub open spec fn tenant_in(profile: ConnectionProfile, own: Option<Seq<char>>) -> Option<Seq<char>> {
    if own is Some {
        own
    } else {
        text_option(profile, "tenant"@)
    }
}

/// A vector search asks for the nearest neighbours of its vector, within its filter and its tenant,
/// and for no more of them than it may return, with their vectors where it asks for them.
pub proof fn lemma_vector_searches_ask_for_what_they_say(
    context: ConnectorContext,
    profile: ConnectionProfile,
    request: VectorSearchRequest,
)
    ensures
        vector_search_plan(context, profile, request) matches Ok(search) ==> {
            let limit = smaller(
                smaller(request.top_k as int, context.max_rows as int),
                profile.policy.max_rows as int,
            );
            let tenant = tenant_in(profile, optional_text(request.namespace));
            &&& limit > 0 && search.limit == limit
            &&& search.target == request.target@
            &&& search.include_vectors == request.include_vectors
            &&& search.arguments matches Some(list) && {
                &&& list.len() == 1 + count_of(tenant) + count_of(request.filter)
                &&& list[0].0 == "nearVector"@
                &&& under(Some(list[0].1), "vector"@) matches Some(JsonModel::Array(items))
                    && are_elements(items, doubles(request.vector@))
                &&& tenant matches Some(name) ==> list.contains(("tenant"@, JsonModel::Text(name)))
                &&& request.filter matches Some(filter) ==> list.contains(("where"@, filter@))
            }
        },
{
    if let Ok(search) = vector_search_plan(context, profile, request) {
        let list = search.arguments->0;
        lemma_vectors_are_written(doubles(request.vector@));
        let tenant = tenant_in(profile, optional_text(request.namespace));
        if let Some(name) = tenant {
            assert(list[1] == ("tenant"@, JsonModel::Text(name)));
        }
        if let Some(filter) = request.filter {
            assert(list[list.len() - 1] == ("where"@, filter@));
        }
    }
}

/// Vector searches with different filters have different arguments.
pub proof fn lemma_filters_are_not_lost(
    profile: ConnectionProfile,
    left: VectorSearchRequest,
    right: VectorSearchRequest,
)
    requires
        left.filter matches Some(a) && right.filter matches Some(b) && a@ != b@,
    ensures
        vector_arguments(profile, left) != vector_arguments(profile, right),
{
    let a = vector_arguments(profile, left);
    let b = vector_arguments(profile, right);
    assert(a.last() == ("where"@, left.filter->0@));
    assert(b.last() == ("where"@, right.filter->0@));
}

/// Whether a text is an argument of a query: its name with its literal.
pub open spec fn is_argument(part: Seq<char>, entry: (Seq<char>, JsonModel)) -> bool {
    literal(entry.1) is Ok && part == entry.0 + ": "@ + literal(entry.1)->Ok_0
}

/// Whether texts are the arguments of a query, one by one.
pub open spec fn are_arguments(parts: Seq<Seq<char>>, list: Seq<(Seq<char>, JsonModel)>) -> bool {
    &&& parts.len() == list.len()
    &&& forall|i: int|
        0 <= i < list.len() ==> is_argument(#[trigger] parts[i], list[i])
}

/// The arguments of a query.
proof fn lemma_arguments(list: Seq<(Seq<char>, JsonModel)>)
    ensures
        argument_texts(list) matches Ok(parts) ==> are_arguments(parts, list),
    decreases list.len(),
{
    if list.len() > 0 {
        let before = list.drop_last();
        lemma_arguments(before);
        if let Ok(parts) = argument_texts(list) {
            let shorter = argument_texts(before)->Ok_0;
            assert forall|i: int| 0 <= i < list.len() implies is_argument(
                #[trigger] parts[i],
                list[i],
            ) by {
                if i < before.len() {
                    assert(parts[i] == shorter[i]);
                    assert(before[i] == list[i]);
                }
            }
        }
    }
}

/// A query names its collection with all of its arguments and with the limit behind them, and selects
/// the fields of the schema.
pub proof fn lemma_queries_say_everything(
    profile: ConnectionProfile,
    search: SearchModel,
    schema: JsonModel,
)
    ensures
        query_request(profile, search, schema) matches Ok(sent) ==> {
            &&& sent.method is Post
            &&& goes_to(sent, profile.endpoint@, seq!["v1"@].push("graphql"@))
            &&& search.arguments matches Some(arguments) && exists|parts: Seq<Seq<char>>|
                #[trigger] are_arguments(parts, arguments) && asks_query(
                    sent.body,
                    "{ Get { "@ + search.target + "("@ + joined(
                        parts.push("limit: "@ + decimal(search.limit as nat)),
                        ", "@,
                    ) + ") { "@ + selection_text(
                        schema_selections(schema)->Ok_0,
                        arguments,
                        search.include_vectors,
                    ) + " } } }"@,
                )
        },
{
    if let Ok(sent) = query_request(profile, search, schema) {
        let arguments = search.arguments->0;
        lemma_arguments(arguments);
        assert(are_arguments(argument_texts(arguments)->Ok_0, arguments));
        assert(names_of(["v1", "graphql"]@) =~= seq!["v1"@].push("graphql"@));
    }
}

/// Whether a body holds a query.
pub open spec fn asks_query(body: BodyModel, query: Seq<char>) -> bool {
    body matches BodyModel::Json(document) && under(Some(document), "query"@) == Some(
        JsonModel::Text(query),
    )
}

/// A search asks its own arguments of the collection that it names, for no more objects than it may
/// return.
pub proof fn lemma_searches_ask_their_own_arguments(
    context: ConnectorContext,
    profile: ConnectionProfile,
    request: SearchRequest,
)
    ensures
        text_search_plan(context, profile, request) matches Ok(search) ==> {
            let limit = smaller(
                smaller(request.options.limit as int, context.max_rows as int),
                profile.policy.max_rows as int,
            );
            &&& limit > 0 && search.limit == limit
            &&& search.target == request.target@
            &&& request.options.cursor is None && request.options.sort@.len() == 0
            &&& search.arguments == (match request.query@ {
                JsonModel::Object(list) => Some(list),
                _ => None,
            })
            &&& !search.include_vectors
        },
{
}

/// A read without a filter lists the objects of the collection that it names behind its cursor, one
/// more than it may return; one with a filter fetches just the objects that this names, no more than
/// it may return.
pub proof fn lemma_reads_ask_for_what_they_say(
    context: ConnectorContext,
    profile: ConnectionProfile,
    request: ReadRequest,
)
    ensures
        read_plan(context, profile, request) matches Ok(plan) ==> {
            let limit = smaller(
                smaller(request.options.limit as int, context.max_rows as int),
                profile.policy.max_rows as int,
            );
            let fields = texts(request.fields@);
            &&& limit > 0
            &&& request.options.sort@.len() == 0
            &&& match request.filter {
                None => plan matches WeaviateModel::List(list) && {
                    &&& list.limit == limit && list.fields == fields
                    &&& list.request.method is Get
                    &&& goes_to(list.request, profile.endpoint@, seq!["v1"@].push("objects"@))
                    &&& list.request.query.contains(("class"@, request.target@))
                    &&& list.request.query.contains(("limit"@, decimal((limit + 1) as nat)))
                    &&& fields.len() == 0 || fields.contains("vector"@)
                        ==> list.request.query.contains(("include"@, "vector"@))
                    &&& optional_text(request.options.cursor) matches Some(cursor)
                        ==> list.request.query.contains(("after"@, cursor))
                    &&& text_option(profile, "tenant"@) matches Some(tenant)
                        ==> list.request.query.contains(("tenant"@, tenant))
                },
                Some(filter) => plan matches WeaviateModel::Fetch(fetch) && {
                    &&& request.options.cursor is None
                    &&& filter_ids(filter, seq!["id"@].push("_id"@)) matches Ok(ids) && fetch.ids
                        == ids.subrange(0, smaller(ids.len() as int, limit)) && fetch.truncated == (
                    ids.len() > limit)
                    &&& fetch.target == request.target@ && fetch.fields == fields
                    &&& fetch.next == 0 && fetch.found.len() == 0 && !fetch.stopped
                },
            }
        },
{
    assert(names_of(["id", "_id"]@) =~= seq!["id"@].push("_id"@));
    assert(names_of(["v1", "objects"]@) =~= seq!["v1"@].push("objects"@));
    if let Ok(plan) = read_plan(context, profile, request) {
        if let WeaviateModel::List(list) = plan {
            let query = list.request.query;
            let fields = texts(request.fields@);
            let limit = rows_result(context, profile, request.options.limit)->Ok_0;
            assert(query[0] == ("class"@, request.target@));
            assert(query[1] == ("limit"@, decimal((limit + 1) as nat)));
            let shown = fields.len() == 0 || fields.contains("vector"@);
            if shown {
                assert(query[2] == ("include"@, "vector"@));
            }
            if let Some(cursor) = optional_text(request.options.cursor) {
                assert(query[if shown {
                    3int
                } else {
                    2
                }] == ("after"@, cursor));
            }
            if let Some(tenant) = text_option(profile, "tenant"@) {
                assert(query[query.len() - 1] == ("tenant"@, tenant));
            }
        }
    }
}

/// A fetch asks for one object after the other, each by its own identity.
pub proof fn lemma_fetches_ask_for_each_object(profile: ConnectionProfile, state: FetchModel)
    requires
        0 <= state.next,
    ensures
        fetch_request(profile, state) matches Ok(next) ==> match next {
            None => state.stopped || state.next >= state.ids.len(),
            Some(sent) => {
                let id = state.ids[state.next];
                &&& !state.stopped && state.next < state.ids.len()
                &&& id_error(id) is None
                &&& sent.method is Get
                &&& sent.body is Empty
                &&& crate::http::transport::segments_result(
                    profile.endpoint@,
                    seq!["v1"@].push("objects"@).push(state.target).push(id),
                ) matches Ok(url) && (sent.url == url || sent.url == url + "?"@)
                &&& text_option(profile, "tenant"@) matches Some(tenant) ==> sent.query.contains(
                    ("tenant"@, tenant),
                )
                &&& state.fields.len() == 0 || state.fields.contains("vector"@)
                    ==> sent.query.contains(("include"@, "vector"@))
            },
        },
{
    assert(names_of(["v1", "objects"]@) =~= seq!["v1"@].push("objects"@));
    if let Ok(Some(sent)) = fetch_request(profile, state) {
        if let Some(tenant) = text_option(profile, "tenant"@) {
            assert(sent.query[sent.query.len() - 1] == ("tenant"@, tenant));
        }
        if state.fields.len() == 0 || state.fields.contains("vector"@) {
            assert(sent.query[0] == ("include"@, "vector"@));
        }
    }
}

/// Whether a document is the object of a point: its collection, identity, properties, vector and
/// tenant.
pub open spec fn is_object(
    document: JsonModel,
    target: Seq<char>,
    tenant: Option<Seq<char>>,
    point: VectorPoint,
) -> bool {
    document matches JsonModel::Object(list) && list.len() == 4 + count_of(tenant) && {
        &&& list.contains(("class"@, JsonModel::Text(target)))
        &&& list.contains(("id"@, JsonModel::Text(point.id@)))
        &&& record_json(point.metadata@) is Ok && list.contains(
            ("properties"@, record_json(point.metadata@)->Ok_0),
        )
        &&& exists|items: Seq<JsonModel>|
            #[trigger] are_elements(items, doubles(point.vector@)) && list.contains(
                ("vector"@, JsonModel::Array(items)),
            )
        &&& tenant matches Some(name) ==> list.contains(("tenant"@, JsonModel::Text(name)))
    }
}

/// A point is written as its own object.
proof fn lemma_object(target: Seq<char>, tenant: Option<Seq<char>>, point: VectorPoint)
    ensures
        object_document(target, tenant, point) matches Ok(document) ==> is_object(
            document,
            target,
            tenant,
            point,
        ),
{
    if let Ok(document) = object_document(target, tenant, point) {
        let list = document->Object_0;
        let items = vector_documents(doubles(point.vector@));
        lemma_vectors_are_written(doubles(point.vector@));
        assert(are_elements(items, doubles(point.vector@)));
        assert(list[0] == ("class"@, JsonModel::Text(target)));
        assert(list[1] == ("id"@, JsonModel::Text(point.id@)));
        assert(list[2] == ("properties"@, record_json(point.metadata@)->Ok_0));
        assert(list[3] == ("vector"@, JsonModel::Array(items)));
        if let Some(name) = tenant {
            assert(list[4] == ("tenant"@, JsonModel::Text(name)));
        }
    }
}

/// The objects of points.
proof fn lemma_objects(target: Seq<char>, tenant: Option<Seq<char>>, points: Seq<VectorPoint>)
    ensures
        object_documents(target, tenant, points) matches Ok(objects) ==> objects.len()
            == points.len() && forall|i: int|
            0 <= i < points.len() ==> (#[trigger] objects[i]).0 == points[i].id@ && is_object(
                objects[i].1,
                target,
                tenant,
                points[i],
            ),
    decreases points.len(),
{
    if points.len() > 0 {
        let before = points.drop_last();
        lemma_objects(target, tenant, before);
        lemma_object(target, tenant, points.last());
        if let Ok(objects) = object_documents(target, tenant, points) {
            let shorter = object_documents(target, tenant, before)->Ok_0;
            assert forall|i: int| 0 <= i < points.len() implies (#[trigger] objects[i]).0
                == points[i].id@ && is_object(objects[i].1, target, tenant, points[i]) by {
                if i < before.len() {
                    assert(objects[i] == shorter[i]);
                    assert(before[i] == points[i]);
                }
            }
        }
    }
}

/// An upsert writes every point as its own object, in order, for its tenant.
pub proof fn lemma_upserts_write_every_point(
    profile: ConnectionProfile,
    request: VectorUpsertRequest,
)
    ensures
        upsert_plan(profile, request) matches Ok(state) ==> {
            let tenant = tenant_in(profile, optional_text(request.namespace));
            &&& 0 < request.points@.len() <= profile.policy.max_affected
            &&& state.target == request.target@ && state.tenant == tenant
            &&& state.index == 0 && state.phase is Look
            &&& state.objects.len() == request.points@.len()
            &&& forall|i: int|
                0 <= i < state.objects.len() ==> (#[trigger] state.objects[i]).0
                    == request.points@[i].id@ && is_object(
                    state.objects[i].1,
                    request.target@,
                    tenant,
                    request.points@[i],
                )
        },
{
    let tenant = tenant_of(profile, optional_text(request.namespace));
    lemma_objects(request.target@, tenant, request.points@);
}

/// Whether a request goes to the object with an identity, for a tenant.
pub open spec fn is_at_object(
    sent: RequestModel,
    profile: ConnectionProfile,
    target: Seq<char>,
    id: Seq<char>,
    tenant: Option<Seq<char>>,
) -> bool {
    &&& goes_to(
        sent,
        profile.endpoint@,
        seq!["v1"@].push("objects"@).push(target).push(id),
    )
    &&& sent.query == (match tenant {
        Some(name) => seq![("tenant"@, name)],
        None => Seq::empty(),
    })
}

/// An upsert looks for the object of its next point by that point's identity, then replaces that
/// object where it is there, and creates it where it is not.
pub proof fn lemma_upserts_go_to_their_objects(profile: ConnectionProfile, state: UpsertModel)
    requires
        0 <= state.index,
    ensures
        upsert_request(profile, state) matches Ok(next) ==> match next {
            None => state.index >= state.objects.len(),
            Some(sent) => {
                let (id, object) = state.objects[state.index];
                &&& state.index < state.objects.len()
                &&& match state.phase {
                    UpsertPhase::Look => sent.method is Head && sent.body is Empty && is_at_object(
                        sent,
                        profile,
                        state.target,
                        id,
                        state.tenant,
                    ),
                    UpsertPhase::Replace => sent.method is Put && sent.body == BodyModel::Json(
                        object,
                    ) && is_at_object(sent, profile, state.target, id, state.tenant),
                    UpsertPhase::Create => sent.method is Post && sent.body == BodyModel::Json(
                        object,
                    ) && goes_to(sent, profile.endpoint@, seq!["v1"@].push("objects"@)),
                }
            },
        },
{
    assert(names_of(["v1", "objects"]@) =~= seq!["v1"@].push("objects"@));
    if let Some(name) = state.tenant {
        assert(Seq::<(Seq<char>, Seq<char>)>::empty().push(("tenant"@, name)) =~= seq![
            ("tenant"@, name),
        ]);
    }
}

/// A deletion removes every object that its filter names, one after the other by its identity, and
/// no other one, no more than the policy and the request admit.
pub proof fn lemma_deletions_name_their_objects(
    profile: ConnectionProfile,
    request: DeleteRequest,
    state: DeleteModel,
)
    requires
        0 <= state.next,
    ensures
        delete_plan(profile, request) matches Ok(start) ==> {
            &&& filter_ids(request.filter, seq!["id"@].push("_id"@)) == Ok::<
                Seq<Seq<char>>,
                ErrorModel,
            >(start.ids)
            &&& 0 < start.ids.len() <= request.max_affected
            &&& request.max_affected <= profile.policy.max_affected
            &&& forall|i: int| 0 <= i < start.ids.len() ==> id_error(#[trigger] start.ids[i]) is None
            &&& start.target == request.target@ && start.tenant == text_option(profile, "tenant"@)
            &&& start.next == 0 && start.affected == 0
        },
        delete_request(profile, state) matches Ok(next) ==> match next {
            None => state.next >= state.ids.len(),
            Some(sent) => {
                &&& state.next < state.ids.len()
                &&& sent.method is Delete && sent.body is Empty
                &&& is_at_object(sent, profile, state.target, state.ids[state.next], state.tenant)
            },
        },
{
    assert(names_of(["id", "_id"]@) =~= seq!["id"@].push("_id"@));
    assert(names_of(["v1", "objects"]@) =~= seq!["v1"@].push("objects"@));
    if let Some(name) = state.tenant {
        assert(Seq::<(Seq<char>, Seq<char>)>::empty().push(("tenant"@, name)) =~= seq![
            ("tenant"@, name),
        ]);
    }
}

/// Whether texts are the literals of documents, one by one.
pub open spec fn are_literals(parts: Seq<Seq<char>>, items: Seq<JsonModel>) -> bool {
    &&& parts.len() == items.len()
    &&& forall|i: int|
        0 <= i < items.len() ==> literal(items[i]) == Ok::<Seq<char>, ErrorModel>(
            #[trigger] parts[i],
        )
}

/// Whether a text is a member of an argument: its name, and its literal or the name of an operator.
pub open spec fn is_member_text(part: Seq<char>, entry: (Seq<char>, JsonModel)) -> bool {
    if entry.0 == "operator"@ {
        entry.1 matches JsonModel::Text(operator) && part == entry.0 + ": "@ + operator
    } else {
        literal(entry.1) is Ok && part == entry.0 + ": "@ + literal(entry.1)->Ok_0
    }
}

/// Whether texts are the members of an argument, one by one.
pub open spec fn are_member_texts(parts: Seq<Seq<char>>, list: Seq<(Seq<char>, JsonModel)>) -> bool {
    &&& parts.len() == list.len()
    &&& forall|i: int| 0 <= i < list.len() ==> is_member_text(#[trigger] parts[i], list[i])
}

proof fn lemma_literals(items: Seq<JsonModel>)
    ensures
        literals(items) matches Ok(parts) ==> are_literals(parts, items),
    decreases items.len(),
{
    if items.len() > 0 {
        let before = items.subrange(0, items.len() - 1);
        lemma_literals(before);
        if let Ok(parts) = literals(items) {
            let shorter = literals(before)->Ok_0;
            assert forall|i: int| 0 <= i < items.len() implies literal(items[i]) == Ok::<
                Seq<char>,
                ErrorModel,
            >(#[trigger] parts[i]) by {
                if i < before.len() {
                    assert(parts[i] == shorter[i]);
                    assert(before[i] == items[i]);
                }
            }
        }
    }
}

proof fn lemma_member_texts(list: Seq<(Seq<char>, JsonModel)>)
    ensures
        member_literals(list) matches Ok(parts) ==> are_member_texts(parts, list),
    decreases list.len(),
{
    if list.len() > 0 {
        let before = list.subrange(0, list.len() - 1);
        lemma_member_texts(before);
        if let Ok(parts) = member_literals(list) {
            let shorter = member_literals(before)->Ok_0;
            assert forall|i: int| 0 <= i < list.len() implies is_member_text(
                #[trigger] parts[i],
                list[i],
            ) by {
                if i < before.len() {
                    assert(parts[i] == shorter[i]);
                    assert(before[i] == list[i]);
                }
            }
        }
    }
}

/// An argument is written as what it is: a truth value by its name, a number by its notation, a text
/// as JSON writes it, a list by its items, and an object by its members.
pub proof fn lemma_arguments_are_written_as_they_are(document: JsonModel)
    ensures
        literal(document) matches Ok(text) ==> match document {
            JsonModel::Null => text == "null"@,
            JsonModel::Bool(true) => text == "true"@,
            JsonModel::Bool(false) => text == "false"@,
            JsonModel::Number(notation) => text == notation,
            JsonModel::Text(content) => json_text(JsonModel::Text(content)) == Some(text),
            JsonModel::Array(items) => exists|parts: Seq<Seq<char>>|
                #[trigger] are_literals(parts, items) && text == "["@ + joined(parts, ","@) + "]"@,
            JsonModel::Object(list) => exists|parts: Seq<Seq<char>>|
                #[trigger] are_member_texts(parts, list) && text == "{"@ + joined(parts, ","@)
                    + "}"@,
        },
{
    if literal(document) is Ok {
        match document {
            JsonModel::Array(items) => {
                lemma_literals(items);
                assert(are_literals(literals(items)->Ok_0, items));
            },
            JsonModel::Object(list) => {
                lemma_member_texts(list);
                assert(are_member_texts(member_literals(list)->Ok_0, list));
            },
            _ => {},
        }
    }
}

/// A query selects its fields, each object's id, how well it matches where the query ranks by words or
/// by nearness, and its vector where that is asked for.
pub proof fn lemma_selections_show_what_is_asked_for(
    fields: Seq<Seq<char>>,
    arguments: Seq<(Seq<char>, JsonModel)>,
    include_vector: bool,
)
    ensures
        ({
            let by_words = named(arguments, "bm25"@) is Some || named(arguments, "hybrid"@) is Some;
            let by_nearness = named(arguments, "nearVector"@) is Some || named(
                arguments,
                "nearText"@,
            ) is Some || named(arguments, "nearObject"@) is Some;
            let rank = if by_words {
                " score"@
            } else if by_nearness {
                " distance"@
            } else {
                Seq::empty()
            };
            let vector = if include_vector {
                " vector"@
            } else {
                Seq::empty()
            };
            let own = if joined(fields, " "@).len() == 0 {
                Seq::empty()
            } else {
                joined(fields, " "@) + seq![' ']
            };
            selection_text(fields, arguments, include_vector) == own + "_additional { id"@ + rank
                + vector + " }"@
        }),
{
    reveal_strlit("");
    assert(""@ =~= Seq::<char>::empty());
    let all = joined(fields, " "@);
    assert(all.push(' ') =~= all + seq![' ']);
    if all.len() == 0 {
        assert(all =~= Seq::<char>::empty());
    }
}

/// Whether a property of a class is selected by a text.
pub open spec fn is_selection_of(part: Seq<char>, property: JsonModel) -> bool {
    text_of(member(property, "name"@)) matches Some(name) && selection_of(
        name,
        property_type(property),
    ) == Some(part)
}

/// A property is selected by its name, with the parts of a place or of a telephone number; one that
/// refers to other objects is not selected.
pub proof fn lemma_properties_are_selected_by_name(name: Seq<char>, kind: Seq<char>)
    ensures
        selection_of(name, kind) matches Some(part) ==> {
            &&& kind.len() > 0 ==> !is_upper_case(kind[0])
            &&& kind != "object"@ && kind != "object[]"@ && kind != "cref"@
            &&& kind == "geoCoordinates"@ ==> part == name + " { latitude longitude }"@
            &&& kind == "phoneNumber"@ ==> part == name + " { input }"@
            &&& kind != "geoCoordinates"@ && kind != "phoneNumber"@ ==> part == name
        },
        selection_of(name, kind) is None ==> (kind.len() > 0 && is_upper_case(kind[0])) || kind
            == "object"@ || kind == "object[]"@ || kind == "cref"@,
{
    reveal_strlit("geoCoordinates");
    reveal_strlit("phoneNumber");
    assert("geoCoordinates"@.len() == 14 && "phoneNumber"@.len() == 11);
}

/// Whether a text is among the selections of some properties.
pub open spec fn selects(properties: Seq<JsonModel>, part: Seq<char>) -> bool {
    exists|i: int| 0 <= i < properties.len() && is_selection_of(part, #[trigger] properties[i])
}

/// Every property that can be selected is, while there are no more than sixty-four; nothing else is.
pub proof fn lemma_every_property_is_selected(properties: Seq<JsonModel>, at: int)
    requires
        selections(properties) is Ok,
    ensures
        ({
            let list = selections(properties)->Ok_0;
            &&& list.len() <= 64
            &&& forall|j: int| 0 <= j < list.len() ==> selects(properties, #[trigger] list[j])
            &&& 0 <= at < properties.len() && list.len() < 64 ==> (forall|part: Seq<char>|
                is_selection_of(part, properties[at]) ==> #[trigger] list.contains(part))
        }),
    decreases properties.len(),
{
    let list = selections(properties)->Ok_0;
    if properties.len() > 0 {
        let before = properties.drop_last();
        lemma_every_property_is_selected(before, at);
        let shorter = selections(before)->Ok_0;
        assert forall|j: int| 0 <= j < list.len() implies selects(
            properties,
            #[trigger] list[j],
        ) by {
            if j < shorter.len() {
                assert(list[j] == shorter[j]);
                let k = choose|k: int|
                    0 <= k < before.len() && is_selection_of(shorter[j], #[trigger] before[k]);
                assert(properties[k] == before[k]);
            } else {
                assert(is_selection_of(list[j], properties[properties.len() - 1]));
            }
        }
        if 0 <= at < properties.len() && list.len() < 64 {
            assert forall|part: Seq<char>|
                is_selection_of(part, properties[at]) implies #[trigger] list.contains(part) by {
                if at < before.len() {
                    assert(before[at] == properties[at]);
                    assert(shorter.contains(part));
                    let k = choose|k: int| 0 <= k < shorter.len() && shorter[k] == part;
                    assert(list[k] == part);
                } else {
                    assert(list[shorter.len() as int] == part);
                }
            }
        }
    }
}

} // verus!
