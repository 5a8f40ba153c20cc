//! Weaviate.
use crate::budget::{capped, kept_count, smaller, total};
use crate::convert::{is_json_result, json_records, json_to_records, record_json, record_to_json};
use crate::http::auth::{client_plan, client_result, AuthStyle, ClientPlan};
use crate::http::common::{
    add_members, affected_error, asks_elsewhere, byte_limit, effective_bytes, effective_rows,
    ensure_language, extract_ids, filter_ids, find_list, find_text_option, finish_prefix,
    finish_write, finished_prefix, finished_write, fitting_prefix, found_entities, generic_records,
    graphql_name_error, is_elsewhere, is_entities_result, is_one_of, is_records_result,
    language_error, lemma_prefix_is_kept, list_in, mismatch, mismatch_error, parameters_error,
    prefix_result, profile_error, read_entities, records_from_generic_json, rows_result,
    text_option, validate_affected, validate_graphql_name, validate_native_parameters,
    validate_profile, with_members, CommentSource, EntitySource,
};
use crate::http::native::{
    envelope_document, envelope_result, native_request, native_result, parse_native_envelope,
    EnvelopeModel, NativeHttpEnvelope,
};
use crate::http::transport::{
    add_parameter, api_request, begin_query, begun_result, find_pair, group_pairs, is_next_request,
    is_request_result, make_request, map_http_status, pairs, status_error, with_parameter,
    BodyModel, HttpBody, HttpMethod, HttpRequest, MethodModel, RequestModel,
};
use crate::http::weaviate_query::{
    build_get_query, definitions_error, get_query, graphql_record, id_error, read_definitions,
    read_object, scalar_fields, schema_selections, shown_record, validate_read_only_graphql,
    validate_weaviate_id, weaviate_graphql_record,
};
use crate::json::{
    as_items, as_text, copy_members, items_of, member, members_of, pointer_target, single, text,
    text_of, vector_documents, wrap, write_vector, JsonObject,
};
use crate::model::{
    appended, covers, error_of, failing, failure, field_named, first_error, invalid,
    invalid_request, is_info_result, is_result_of, protocol, protocol_failure, unsupported,
    unsupported_request, AuthKind, Capability, CatalogEntity, CatalogQuery, ConnectionInfo,
    ConnectionProfile, ConnectorContext, ConnectorError, ConnectorManifest, ConnectorStatus,
    DataOperation, DeleteRequest, DescriptionModel, EntityDescription, EntityModel, ErrorCategory,
    ErrorModel, Filter, InfoModel, NativeRequest, OperationResult, Product, ReadRequest,
    ResultModel, SearchRequest, SecretMaterial, VectorPoint, VectorSearchRequest,
    VectorUpsertRequest,
};
use crate::text::{
    begins_with, borrowed, clone_texts, decimal, decimal_text, listed, names_of, optional_str,
    optional_text, owned_optional, same, starts_with, texts,
};
use crate::value::{documents, doubles, members, records, DbRecord, Json, JsonModel, RecordModel};
use vstd::prelude::*;
use vstd::utf8::encode_utf8;

verus! {

broadcast use {
    crate::text::group_texts,
    crate::value::group_models,
    crate::model::group_entities,
    group_pairs,
};

/// The API mode of the connector.
pub open spec fn weaviate_mode() -> Seq<char> {
    "weaviate_rest_v1"@
}

/// Whether a read shows the vectors of objects.
pub open spec fn shows_vectors(fields: Seq<Seq<char>>) -> bool {
    fields.len() == 0 || fields.contains("vector"@)
}

/// The path of an object.
pub open spec fn object_path(target: Seq<char>, id: Seq<char>) -> Seq<Seq<char>> {
    names_of(["v1", "objects"]@).push(target).push(id)
}

/// A request for an object.
pub open spec fn object_request(
    profile: ConnectionProfile,
    method: MethodModel,
    target: Seq<char>,
    id: Seq<char>,
    query: Seq<(Seq<char>, Seq<char>)>,
    body: BodyModel,
) -> Result<RequestModel, ErrorModel> {
    api_request(profile, method, object_path(target, id), query, body)
}

/// Makes a request for an object.
fn make_object_request(
    profile: &ConnectionProfile,
    method: HttpMethod,
    target: &str,
    id: &str,
    query: Vec<(String, String)>,
    body: HttpBody,
) -> (result: Result<HttpRequest, ConnectorError>)
    ensures
        is_request_result(
            result,
            object_request(*profile, method@, target@, id@, pairs(query@), body@),
        ),
{
    assert(names_of(["v1", "objects", target, id]@) =~= object_path(target@, id@));
    make_request(profile, method, &["v1", "objects", target, id], query, body)
}

/// A listing of the objects of a collection.
#[derive(Debug)]
pub struct WeaviateList {
    pub request: HttpRequest,
    pub limit: usize,
    pub fields: Vec<String>,
}

/// What a [`WeaviateList`] is.
pub struct ListModel {
    pub request: RequestModel,
    pub limit: int,
    pub fields: Seq<Seq<char>>,
}

impl View for WeaviateList {
    type V = ListModel;

    open spec fn view(&self) -> ListModel {
        ListModel {
            request: self.request@,
            limit: self.limit as int,
            fields: texts(self.fields@),
        }
    }
}

/// The request for a page of the objects of a collection: one more than are shown, behind the
/// object that the cursor names.
pub open spec fn list_plan(profile: ConnectionProfile, request: ReadRequest, limit: int) -> Result<
    ListModel,
    ErrorModel,
> {
    let fields = texts(request.fields@);
    let query = Seq::empty().push(("class"@, request.target@)).push(
        ("limit"@, decimal((limit + 1) as nat)),
    );
    let query = with_parameter(
        query,
        "include"@,
        if shows_vectors(fields) {
            Some("vector"@)
        } else {
            None
        },
    );
    let query = with_parameter(query, "after"@, optional_text(request.options.cursor));
    let query = with_parameter(query, "tenant"@, text_option(profile, "tenant"@));
    match api_request(
        profile,
        MethodModel::Get,
        names_of(["v1", "objects"]@),
        query,
        BodyModel::Empty,
    ) {
        Err(error) => Err(error),
        Ok(model) => {
            let refused = match optional_text(request.options.cursor) {
                Some(cursor) => id_error(cursor),
                None => None,
            };
            match refused {
                Some(error) => Err(error),
                None => Ok(ListModel { request: model, limit, fields }),
            }
        },
    }
}

/// Whether a read shows the vectors of objects.
fn wants_vectors(fields: &Vec<String>) -> (result: bool)
    ensures
        result == shows_vectors(texts(fields@)),
{
    assert(texts(fields@).len() == fields@.len());
    fields.len() == 0 || listed(fields, "vector")
}

/// Makes the request for a page of the objects of a collection.
fn begin_list(profile: &ConnectionProfile, request: &ReadRequest, limit: usize) -> (result: Result<
    WeaviateList,
    ConnectorError,
>)
    requires
        limit <= u32::MAX,
    ensures
        match (result, list_plan(*profile, *request, limit as int)) {
            (Ok(list), Ok(wanted)) => list@ == wanted,
            (Err(error), Err(wanted)) => error@ == wanted,
            _ => false,
        },
{
    let mut query: Vec<(String, String)> = Vec::new();
    query.push(("class".to_owned(), request.target.clone()));
    query.push(("limit".to_owned(), decimal_text(limit as u64 + 1)));
    if wants_vectors(&request.fields) {
        query.push(("include".to_owned(), "vector".to_owned()));
    }
    add_parameter(&mut query, "after", borrowed(&request.options.cursor));
    add_parameter(&mut query, "tenant", find_text_option(profile, "tenant"));
    let made = match make_request(
        profile,
        HttpMethod::Get,
        &["v1", "objects"],
        query,
        HttpBody::Empty,
    ) {
        Err(error) => {
            return Err(error);
        },
        Ok(made) => made,
    };
    match &request.options.cursor {
        Some(cursor) => match validate_weaviate_id(cursor.as_str()) {
            Err(error) => {
                return Err(error);
            },
            Ok(()) => {},
        },
        None => {},
    }
    Ok(WeaviateList { request: made, limit, fields: clone_texts(&request.fields) })
}

/// The objects of an answer to a listing.
pub open spec fn listed_objects(answer: JsonModel) -> Result<Seq<JsonModel>, ErrorModel> {
    match items_of(member(answer, "objects"@)) {
        None => Err(protocol_failure("Weaviate object response omitted objects"@)),
        Some(objects) => Ok(objects),
    }
}

/// The records of objects.
pub open spec fn shown_records(objects: Seq<JsonModel>, fields: Seq<Seq<char>>) -> Seq<RecordModel> {
    Seq::new(objects.len(), |i: int| shown_record(objects[i], fields))
}

/// The records of an answer to a listing, before the limit of bytes is applied.
pub open spec fn list_records(answer: JsonModel, limit: int, fields: Seq<Seq<char>>) -> Result<
    Seq<RecordModel>,
    ErrorModel,
> {
    match listed_objects(answer) {
        Err(error) => Err(error),
        Ok(objects) => Ok(
            shown_records(objects.subrange(0, smaller(objects.len() as int, limit)), fields),
        ),
    }
}

/// Reads the records of an answer to a listing, before the limit of bytes is applied.
pub fn read_list(answer: &Json, limit: usize, fields: &Vec<String>) -> (result: Result<
    Vec<DbRecord>,
    ConnectorError,
>)
    ensures
        is_records_result(result, list_records(answer@, limit as int, texts(fields@))),
{
    let objects = match find_list(answer, "objects") {
        None => {
            return Err(protocol("Weaviate object response omitted objects"));
        },
        Some(objects) => objects,
    };
    let ghost all = documents(objects@);
    let count: usize = if objects.len() <= limit {
        objects.len()
    } else {
        limit
    };
    let mut found: Vec<DbRecord> = Vec::new();
    let mut i: usize = 0;
    while i < count
        invariant
            i <= count <= objects@.len(),
            all == documents(objects@),
            found@.len() == i,
            forall|j: int|
                0 <= j < i ==> (#[trigger] found@[j])@ == shown_record(all[j], texts(fields@)),
        decreases count - i,
    {
        assert(all[i as int] == objects@[i as int]@);
        found.push(read_object(&objects[i], fields));
        i = i + 1;
    }
    assert(records(found@) =~= shown_records(all.subrange(0, count as int), texts(fields@)));
    Ok(found)
}

/// The result of a listing whose objects, up to the limit, have the given encoded sizes: those
/// that fit, and as the cursor the identity of the last of them where there are more.
pub open spec fn list_outcome(
    context: ConnectorContext,
    profile: ConnectionProfile,
    answer: JsonModel,
    limit: int,
    fields: Seq<Seq<char>>,
    sizes: Seq<u64>,
    elapsed_ms: u64,
) -> Result<ResultModel, ErrorModel> {
    match listed_objects(answer) {
        Err(error) => Err(error),
        Ok(objects) => match prefix_result(
            sizes,
            limit as nat,
            byte_limit(context, profile),
            "the first Weaviate object exceeds the configured max_bytes limit"@,
        ) {
            Err(error) => Err(error),
            Ok(kept) => {
                let truncated = kept < objects.len();
                let cursor = if truncated {
                    text_of(member(objects[kept - 1], "id"@))
                } else {
                    None
                };
                if truncated && cursor is None {
                    Err(
                        protocol_failure(
                            "Weaviate object response omitted the id required for pagination"@,
                        ),
                    )
                } else {
                    finished_prefix(
                        context,
                        profile,
                        shown_records(
                            objects.subrange(0, smaller(objects.len() as int, limit)),
                            fields,
                        ),
                        sizes,
                        kept,
                        cursor,
                        truncated,
                        elapsed_ms,
                    )
                }
            },
        },
    }
}

/// Makes the result of a listing.
pub fn finish_list(
    context: &ConnectorContext,
    profile: &ConnectionProfile,
    answer: &Json,
    limit: usize,
    fields: &Vec<String>,
    sizes: Vec<u64>,
    elapsed_ms: u64,
) -> (result: Result<OperationResult, ConnectorError>)
    requires
        limit > 0,
        list_records(answer@, limit as int, texts(fields@)) matches Ok(found) ==> sizes@.len()
            == found.len(),
    ensures
        is_result_of(
            result,
            list_outcome(
                *context,
                *profile,
                answer@,
                limit as int,
                texts(fields@),
                sizes@,
                elapsed_ms,
            ),
        ),
{
    let found = match read_list(answer, limit, fields) {
        Err(error) => {
            return Err(error);
        },
        Ok(found) => found,
    };
    assert(records(found@).len() == found@.len());
    let objects = match find_list(answer, "objects") {
        None => {
            return Err(protocol("Weaviate object response omitted objects"));
        },
        Some(objects) => objects,
    };
    let ghost all = documents(objects@);
    let kept: usize = match fitting_prefix(
        &sizes,
        limit,
        effective_bytes(context, profile),
        "the first Weaviate object exceeds the configured max_bytes limit",
    ) {
        Err(error) => {
            return Err(error);
        },
        Ok(kept) => kept,
    };
    let truncated = kept < objects.len();
    let mut next_cursor: Option<String> = None;
    if truncated {
        assert(all[kept - 1] == objects@[kept - 1]@);
        match as_text(objects[kept - 1].get("id")) {
            None => {
                return Err(
                    protocol("Weaviate object response omitted the id required for pagination"),
                );
            },
            Some(id) => {
                next_cursor = Some(id.to_owned());
            },
        }
    }
    finish_prefix(context, profile, found, sizes, kept, next_cursor, truncated, elapsed_ms)
}

/// A read of objects that are named by their identities, one after the other.
#[derive(Debug)]
pub struct WeaviateFetch {
    pub target: String,
    pub fields: Vec<String>,
    pub ids: Vec<String>,
    /// The place of the next object.
    pub next: usize,
    pub found: Vec<DbRecord>,
    /// The encoded sizes of the found objects, and their sum.
    pub sizes: Vec<u64>,
    pub bytes: u64,
    pub truncated: bool,
    /// Whether some object exists.
    pub candidate: bool,
    /// Whether no further object is read.
    pub stopped: bool,
}

/// What a [`WeaviateFetch`] is.
pub struct FetchModel {
    pub target: Seq<char>,
    pub fields: Seq<Seq<char>>,
    pub ids: Seq<Seq<char>>,
    pub next: int,
    pub found: Seq<RecordModel>,
    pub sizes: Seq<u64>,
    pub bytes: u64,
    pub truncated: bool,
    pub candidate: bool,
    pub stopped: bool,
}

impl View for WeaviateFetch {
    type V = FetchModel;

    open spec fn view(&self) -> FetchModel {
        FetchModel {
            target: self.target@,
            fields: texts(self.fields@),
            ids: texts(self.ids@),
            next: self.next as int,
            found: records(self.found@),
            sizes: self.sizes@,
            bytes: self.bytes,
            truncated: self.truncated,
            candidate: self.candidate,
            stopped: self.stopped,
        }
    }
}

/// Whether a read of named objects is in a state that it can reach within a limit of bytes.
pub open spec fn is_fetch(state: FetchModel, max_bytes: u64) -> bool {
    &&& 0 <= state.next <= state.ids.len()
    &&& state.found.len() == state.sizes.len()
    &&& state.bytes == capped(total(state.sizes))
    &&& state.bytes <= max_bytes
    &&& state.found.len() > 0 ==> state.candidate
}

/// The start of a read of named objects: at most as many as the limit admits.
pub open spec fn fetch_start(request: ReadRequest, ids: Seq<Seq<char>>, limit: int) -> FetchModel {
    FetchModel {
        target: request.target@,
        fields: texts(request.fields@),
        ids: ids.subrange(0, smaller(ids.len() as int, limit)),
        next: 0,
        found: Seq::empty(),
        sizes: Seq::empty(),
        bytes: 0,
        truncated: ids.len() > limit,
        candidate: false,
        stopped: false,
    }
}

/// The request for the next object, where there is one to read.
pub open spec fn fetch_request(profile: ConnectionProfile, state: FetchModel) -> Result<
    Option<RequestModel>,
    ErrorModel,
> {
    if state.stopped || state.next >= state.ids.len() {
        Ok(None)
    } else {
        match id_error(state.ids[state.next]) {
            Some(error) => Err(error),
            None => {
                let query = with_parameter(
                    Seq::empty(),
                    "include"@,
                    if shows_vectors(state.fields) {
                        Some("vector"@)
                    } else {
                        None
                    },
                );
                match begun_result(
                    object_request(
                        profile,
                        MethodModel::Get,
                        state.target,
                        state.ids[state.next],
                        with_parameter(query, "tenant"@, text_option(profile, "tenant"@)),
                        BodyModel::Empty,
                    ),
                ) {
                    Err(error) => Err(error),
                    Ok(request) => Ok(Some(request)),
                }
            },
        }
    }
}

/// A read of named objects behind one that does not exist.
pub open spec fn fetch_without(state: FetchModel) -> FetchModel {
    FetchModel { next: state.next + 1, ..state }
}

/// A read of named objects behind one that exists: it is kept where it fits, and otherwise nothing
/// more is read.
pub open spec fn fetch_with(state: FetchModel, record: RecordModel, size: u64, max_bytes: u64) -> FetchModel {
    let bytes = capped((state.bytes + size) as nat);
    if bytes > max_bytes {
        FetchModel { candidate: true, truncated: true, stopped: true, ..state }
    } else {
        FetchModel {
            candidate: true,
            next: state.next + 1,
            found: state.found.push(record),
            sizes: state.sizes.push(size),
            bytes,
            ..state
        }
    }
}

impl WeaviateFetch {
    /// The request for the next object, where there is one to read.
    pub fn next_request(&self, profile: &ConnectionProfile) -> (result: Result<
        Option<HttpRequest>,
        ConnectorError,
    >)
        ensures
            is_next_request(result, fetch_request(*profile, self@)),
    {
        assert(texts(self.ids@).len() == self.ids@.len());
        if self.stopped || self.next >= self.ids.len() {
            return Ok(None);
        }
        let id = self.ids[self.next].as_str();
        match validate_weaviate_id(id) {
            Err(error) => {
                return Err(error);
            },
            Ok(()) => {},
        }
        let mut query: Vec<(String, String)> = Vec::new();
        if wants_vectors(&self.fields) {
            query.push(("include".to_owned(), "vector".to_owned()));
        }
        add_parameter(&mut query, "tenant", find_text_option(profile, "tenant"));
        let made = make_object_request(
            profile,
            HttpMethod::Get,
            self.target.as_str(),
            id,
            query,
            HttpBody::Empty,
        );
        match begin_query(made) {
            Err(error) => Err(error),
            Ok(request) => Ok(Some(request)),
        }
    }

    /// Goes on behind an object that could not be read, where it does not exist; any other error
    /// ends the read.
    pub fn failed(&mut self, error: ConnectorError) -> (result: Result<(), ConnectorError>)
        requires
            old(self).next < old(self).ids@.len(),
        ensures
            match result {
                Ok(()) => error@.category == ErrorCategory::NotFound && final(self)@
                    == fetch_without(old(self)@),
                Err(given) => error@.category != ErrorCategory::NotFound && given@ == error@
                    && final(self)@ == old(self)@,
            },
    {
        if error.category == ErrorCategory::NotFound {
            let count: usize = self.ids.len();
            assert(self.next < count);
            self.next = self.next + 1;
            Ok(())
        } else {
            Err(error)
        }
    }

    /// Goes on behind an object that exists.
    pub fn received(&mut self, record: DbRecord, size: u64, max_bytes: u64)
        requires
            old(self).next < old(self).ids@.len(),
        ensures
            final(self)@ == fetch_with(old(self)@, record@, size, max_bytes),
    {
        let count: usize = self.ids.len();
        assert(self.next < count);
        self.candidate = true;
        let bytes: u64 = self.bytes.saturating_add(size);
        if bytes > max_bytes {
            self.truncated = true;
            self.stopped = true;
            return;
        }
        self.next = self.next + 1;
        self.bytes = bytes;
        self.found.push(record);
        self.sizes.push(size);
    }

    /// Makes the result of the read.
    pub fn finish(self, context: &ConnectorContext, profile: &ConnectionProfile, elapsed_ms: u64) -> (result:
        Result<OperationResult, ConnectorError>)
        requires
            self.found@.len() == self.sizes@.len(),
        ensures
            is_result_of(result, fetch_outcome(*context, *profile, self@, elapsed_ms)),
    {
        let count: usize = self.found.len();
        assert(records(self.found@).len() == count);
        if self.candidate && count == 0 {
            return Err(
                invalid("the first Weaviate object exceeds the configured max_bytes limit"),
            );
        }
        finish_prefix(
            context,
            profile,
            self.found,
            self.sizes,
            count,
            None,
            self.truncated,
            elapsed_ms,
        )
    }
}

/// The result of a read of named objects.
pub open spec fn fetch_outcome(
    context: ConnectorContext,
    profile: ConnectionProfile,
    state: FetchModel,
    elapsed_ms: u64,
) -> Result<ResultModel, ErrorModel> {
    if state.candidate && state.found.len() == 0 {
        Err(
            invalid_request("the first Weaviate object exceeds the configured max_bytes limit"@),
        )
    } else {
        finished_prefix(
            context,
            profile,
            state.found,
            state.sizes,
            state.found.len(),
            None,
            state.truncated,
            elapsed_ms,
        )
    }
}

/// A read of named objects never keeps more bytes than its limit, whatever the server answers:
/// it starts within the limit, and every answer leaves it there.
pub proof fn lemma_fetch_stays_within_bytes(
    request: ReadRequest,
    ids: Seq<Seq<char>>,
    limit: int,
    state: FetchModel,
    record: RecordModel,
    size: u64,
    max_bytes: u64,
)
    requires
        limit >= 0,
    ensures
        is_fetch(fetch_start(request, ids, limit), max_bytes),
        is_fetch(state, max_bytes) && state.next < state.ids.len() ==> is_fetch(
            fetch_without(state),
            max_bytes,
        ) && is_fetch(fetch_with(state, record, size, max_bytes), max_bytes),
{
    assert(total(Seq::<u64>::empty()) == 0);
    if is_fetch(state, max_bytes) {
        let sizes = state.sizes.push(size);
        assert(sizes.drop_last() =~= state.sizes);
        assert(total(sizes) == total(state.sizes) + size);
    }
}

/// A search of a collection, whose schema is asked for first.
#[derive(Debug)]
pub struct WeaviateSearch {
    /// The request for the schema of the collection.
    pub request: HttpRequest,
    pub target: String,
    /// The arguments of the search, where they are an object.
    pub arguments: Option<Vec<(String, Json)>>,
    pub limit: usize,
    pub include_vectors: bool,
}

/// What a [`WeaviateSearch`] is.
pub struct SearchModel {
    pub request: RequestModel,
    pub target: Seq<char>,
    pub arguments: Option<Seq<(Seq<char>, JsonModel)>>,
    pub limit: int,
    pub include_vectors: bool,
}

impl View for WeaviateSearch {
    type V = SearchModel;

    open spec fn view(&self) -> SearchModel {
        SearchModel {
            request: self.request@,
            target: self.target@,
            arguments: match self.arguments {
                Some(list) => Some(members(list@)),
                None => None,
            },
            limit: self.limit as int,
            include_vectors: self.include_vectors,
        }
    }
}

/// Whether a search is what is expected of it.
pub open spec fn is_search_result(
    result: Result<WeaviateSearch, ConnectorError>,
    expected: Result<SearchModel, ErrorModel>,
) -> bool {
    match (result, expected) {
        (Ok(search), Ok(wanted)) => search@ == wanted,
        (Err(error), Err(wanted)) => error@ == wanted,
        _ => false,
    }
}

/// The request for the schema of a collection.
pub open spec fn schema_request(profile: ConnectionProfile, collection: Seq<char>) -> Result<
    RequestModel,
    ErrorModel,
> {
    match graphql_name_error(collection) {
        Some(error) => Err(error),
        None => api_request(
            profile,
            MethodModel::Get,
            names_of(["v1", "schema"]@).push(collection),
            Seq::empty(),
            BodyModel::Empty,
        ),
    }
}

/// Makes the request for the schema of a collection.
pub fn make_schema_request(profile: &ConnectionProfile, collection: &str) -> (result: Result<
    HttpRequest,
    ConnectorError,
>)
    ensures
        is_request_result(result, schema_request(*profile, collection@)),
{
    match validate_graphql_name(collection) {
        Err(error) => {
            return Err(error);
        },
        Ok(()) => {},
    }
    assert(names_of(["v1", "schema", collection]@) =~= names_of(["v1", "schema"]@).push(
        collection@,
    ));
    make_request(
        profile,
        HttpMethod::Get,
        &["v1", "schema", collection],
        Vec::new(),
        HttpBody::Empty,
    )
}

/// A search in the product's own form.
pub open spec fn text_search_plan(
    context: ConnectorContext,
    profile: ConnectionProfile,
    request: SearchRequest,
) -> Result<SearchModel, ErrorModel> {
    match graphql_name_error(request.target@) {
        Some(error) => Err(error),
        None => if request.options.cursor is Some || request.options.sort@.len() > 0 {
            Err(
                unsupported_request(
                    "Weaviate GraphQL search does not map generic cursor or sort options"@,
                ),
            )
        } else {
            match rows_result(context, profile, request.options.limit) {
                Err(error) => Err(error),
                Ok(limit) => match schema_request(profile, request.target@) {
                    Err(error) => Err(error),
                    Ok(model) => Ok(
                        SearchModel {
                            request: model,
                            target: request.target@,
                            arguments: members_of(Some(request.query@)),
                            limit,
                            include_vectors: false,
                        },
                    ),
                },
            }
        },
    }
}

/// Begins a search in the product's own form.
pub fn begin_search(context: &ConnectorContext, profile: &ConnectionProfile, request: &SearchRequest) -> (result:
    Result<WeaviateSearch, ConnectorError>)
    ensures
        is_search_result(result, text_search_plan(*context, *profile, *request)),
{
    match validate_graphql_name(request.target.as_str()) {
        Err(error) => {
            return Err(error);
        },
        Ok(()) => {},
    }
    if request.options.cursor.is_some() || request.options.sort.len() > 0 {
        return Err(
            unsupported("Weaviate GraphQL search does not map generic cursor or sort options"),
        );
    }
    let limit: usize = match effective_rows(context, profile, request.options.limit) {
        Err(error) => {
            return Err(error);
        },
        Ok(limit) => limit,
    };
    let made = match make_schema_request(profile, request.target.as_str()) {
        Err(error) => {
            return Err(error);
        },
        Ok(made) => made,
    };
    let arguments = match &request.query {
        Json::Object(list) => Some(copy_members(list)),
        _ => None,
    };
    Ok(
        WeaviateSearch {
            request: made,
            target: request.target.clone(),
            arguments,
            limit,
            include_vectors: false,
        },
    )
}

/// The tenant of a request, or else of the connection.
pub open spec fn tenant_of(profile: ConnectionProfile, namespace: Option<Seq<char>>) -> Option<
    Seq<char>,
> {
    match namespace {
        Some(tenant) => Some(tenant),
        None => text_option(profile, "tenant"@),
    }
}

/// The tenant of a request, or else of the connection.
fn find_tenant(profile: &ConnectionProfile, namespace: &Option<String>) -> (result: Option<String>)
    ensures
        optional_text(result) == tenant_of(*profile, optional_text(*namespace)),
{
    match namespace {
        Some(tenant) => Some(tenant.clone()),
        None => owned_optional(find_text_option(profile, "tenant")),
    }
}

/// The arguments of a search for the nearest vectors.
pub open spec fn vector_arguments(profile: ConnectionProfile, request: VectorSearchRequest) -> Seq<
    (Seq<char>, JsonModel),
> {
    let near = Seq::empty().push(
        (
            "nearVector"@,
            single("vector"@, JsonModel::Array(vector_documents(doubles(request.vector@)))),
        ),
    );
    let scoped = match tenant_of(profile, optional_text(request.namespace)) {
        Some(tenant) => near.push(("tenant"@, JsonModel::Text(tenant))),
        None => near,
    };
    match request.filter {
        Some(filter) => scoped.push(("where"@, filter@)),
        None => scoped,
    }
}

/// A search for the nearest vectors.
pub open spec fn vector_search_plan(
    context: ConnectorContext,
    profile: ConnectionProfile,
    request: VectorSearchRequest,
) -> Result<SearchModel, ErrorModel> {
    match graphql_name_error(request.target@) {
        Some(error) => Err(error),
        None => match rows_result(context, profile, request.top_k) {
            Err(error) => Err(error),
            Ok(limit) => match schema_request(profile, request.target@) {
                Err(error) => Err(error),
                Ok(model) => Ok(
                    SearchModel {
                        request: model,
                        target: request.target@,
                        arguments: Some(vector_arguments(profile, request)),
                        limit,
                        include_vectors: request.include_vectors,
                    },
                ),
            },
        },
    }
}

/// Begins a search for the nearest vectors.
pub fn begin_vector_search(
    context: &ConnectorContext,
    profile: &ConnectionProfile,
    request: &VectorSearchRequest,
) -> (result: Result<WeaviateSearch, ConnectorError>)
    ensures
        is_search_result(result, vector_search_plan(*context, *profile, *request)),
{
    match validate_graphql_name(request.target.as_str()) {
        Err(error) => {
            return Err(error);
        },
        Ok(()) => {},
    }
    let limit: usize = match effective_rows(context, profile, request.top_k) {
        Err(error) => {
            return Err(error);
        },
        Ok(limit) => limit,
    };
    let made = match make_schema_request(profile, request.target.as_str()) {
        Err(error) => {
            return Err(error);
        },
        Ok(made) => made,
    };
    let mut arguments = JsonObject::new();
    arguments.put("nearVector", wrap("vector", write_vector(&request.vector)));
    match find_tenant(profile, &request.namespace) {
        Some(tenant) => {
            arguments.put("tenant", Json::Text(tenant));
        },
        None => {},
    }
    match &request.filter {
        Some(filter) => {
            arguments.put("where", filter.copy());
        },
        None => {},
    }
    Ok(
        WeaviateSearch {
            request: made,
            target: request.target.clone(),
            arguments: Some(arguments.members),
            limit,
            include_vectors: request.include_vectors,
        },
    )
}

/// The request of a GraphQL query.
pub open spec fn graphql_request(profile: ConnectionProfile, query: Seq<char>) -> Result<
    RequestModel,
    ErrorModel,
> {
    api_request(
        profile,
        MethodModel::Post,
        names_of(["v1", "graphql"]@),
        Seq::empty(),
        BodyModel::Json(single("query"@, JsonModel::Text(query))),
    )
}

/// Makes the request of a GraphQL query.
fn make_graphql_request(profile: &ConnectionProfile, query: &str) -> (result: Result<
    HttpRequest,
    ConnectorError,
>)
    ensures
        is_request_result(result, graphql_request(*profile, query@)),
{
    make_request(
        profile,
        HttpMethod::Post,
        &["v1", "graphql"],
        Vec::new(),
        HttpBody::Json(wrap("query", text(query))),
    )
}

/// The request of a search once the schema of the collection is known.
pub open spec fn query_request(
    profile: ConnectionProfile,
    search: SearchModel,
    schema: JsonModel,
) -> Result<RequestModel, ErrorModel> {
    match schema_selections(schema) {
        Err(error) => Err(error),
        Ok(fields) => match search.arguments {
            None => Err(invalid_request("Weaviate search query must be a GraphQL object"@)),
            Some(arguments) => match get_query(
                search.target,
                arguments,
                search.limit as nat,
                fields,
                search.include_vectors,
            ) {
                Err(error) => Err(error),
                Ok(query) => graphql_request(profile, query),
            },
        },
    }
}

impl WeaviateSearch {
    /// Makes the request of the search once the schema of the collection is known.
    pub fn query_request(&self, profile: &ConnectionProfile, schema: &Json) -> (result: Result<
        HttpRequest,
        ConnectorError,
    >)
        ensures
            is_request_result(result, query_request(*profile, self@, schema@)),
    {
        let fields = match scalar_fields(schema) {
            Err(error) => {
                return Err(error);
            },
            Ok(fields) => fields,
        };
        let arguments = match &self.arguments {
            None => {
                return Err(invalid("Weaviate search query must be a GraphQL object"));
            },
            Some(arguments) => arguments,
        };
        match build_get_query(
            self.target.as_str(),
            arguments,
            self.limit,
            &fields,
            self.include_vectors,
        ) {
            Err(error) => Err(error),
            Ok(query) => make_graphql_request(profile, query.as_str()),
        }
    }
}

/// The records of rows.
pub open spec fn row_records(rows: Seq<JsonModel>) -> Seq<RecordModel> {
    Seq::new(rows.len(), |i: int| graphql_record(rows[i]))
}

/// The records of an answer to a GraphQL query: the rows of a collection, or whatever it holds.
pub open spec fn graphql_records(answer: JsonModel, collection: Option<Seq<char>>) -> Result<
    Seq<RecordModel>,
    ErrorModel,
> {
    if member(answer, "errors"@) is Some {
        Err(invalid_request("Weaviate GraphQL query returned errors"@))
    } else {
        match collection {
            None => Ok(generic_records(answer)),
            Some(collection) => {
                match items_of(pointer_target(answer, "/data/Get/"@ + collection)) {
                    None => Err(
                        protocol_failure("Weaviate GraphQL response omitted collection rows"@),
                    ),
                    Some(rows) => Ok(row_records(rows)),
                }
            },
        }
    }
}

/// Reads the records of an answer to a GraphQL query.
pub fn read_graphql(answer: &Json, collection: Option<&str>) -> (result: Result<
    Vec<DbRecord>,
    ConnectorError,
>)
    ensures
        is_records_result(result, graphql_records(answer@, optional_str(collection))),
{
    if answer.get("errors").is_some() {
        return Err(invalid("Weaviate GraphQL query returned errors"));
    }
    let collection = match collection {
        None => {
            return Ok(records_from_generic_json(answer));
        },
        Some(collection) => collection,
    };
    let pointer = appended("/data/Get/", collection);
    let rows = match as_items(answer.pointer(pointer.as_str())) {
        None => {
            return Err(protocol("Weaviate GraphQL response omitted collection rows"));
        },
        Some(rows) => rows,
    };
    let ghost all = documents(rows@);
    let mut found: Vec<DbRecord> = Vec::new();
    let mut i: usize = 0;
    while i < rows.len()
        invariant
            i <= rows@.len(),
            all == documents(rows@),
            found@.len() == i,
            forall|j: int| 0 <= j < i ==> (#[trigger] found@[j])@ == graphql_record(all[j]),
        decreases rows@.len() - i,
    {
        assert(all[i as int] == rows@[i as int]@);
        found.push(weaviate_graphql_record(&rows[i]));
        i = i + 1;
    }
    assert(records(found@) =~= row_records(all));
    Ok(found)
}

/// What is done next with an object that is written.
#[derive(Debug, Clone, Copy, PartialEq, Eq, Structural)]
pub enum UpsertPhase {
    /// It is looked for.
    Look,
    /// It exists, and is replaced.
    Replace,
    /// It does not exist, and is created.
    Create,
}

/// A write of objects, one after the other.
#[derive(Debug)]
pub struct WeaviateUpsert {
    pub target: String,
    pub tenant: Option<String>,
    /// The objects with their identities.
    pub objects: Vec<(String, Json)>,
    /// The place of the object that is written next.
    pub index: usize,
    pub phase: UpsertPhase,
}

/// What a [`WeaviateUpsert`] is.
pub struct UpsertModel {
    pub target: Seq<char>,
    pub tenant: Option<Seq<char>>,
    pub objects: Seq<(Seq<char>, JsonModel)>,
    pub index: int,
    pub phase: UpsertPhase,
}

impl View for WeaviateUpsert {
    type V = UpsertModel;

    open spec fn view(&self) -> UpsertModel {
        UpsertModel {
            target: self.target@,
            tenant: optional_text(self.tenant),
            objects: members(self.objects@),
            index: self.index as int,
            phase: self.phase,
        }
    }
}

/// The document of an object.
pub open spec fn object_document(target: Seq<char>, tenant: Option<Seq<char>>, point: VectorPoint) -> Result<
    JsonModel,
    ErrorModel,
> {
    match id_error(point.id@) {
        Some(error) => Err(error),
        None => match record_json(point.metadata@) {
            Err(error) => Err(error),
            Ok(properties) => {
                let object = Seq::empty().push(("class"@, JsonModel::Text(target))).push(
                    ("id"@, JsonModel::Text(point.id@)),
                ).push(("properties"@, properties)).push(
                    ("vector"@, JsonModel::Array(vector_documents(doubles(point.vector@)))),
                );
                Ok(
                    JsonModel::Object(
                        match tenant {
                            Some(tenant) => object.push(("tenant"@, JsonModel::Text(tenant))),
                            None => object,
                        },
                    ),
                )
            },
        },
    }
}

/// The documents of objects with their identities; the error of the first that has one.
pub open spec fn object_documents(
    target: Seq<char>,
    tenant: Option<Seq<char>>,
    points: Seq<VectorPoint>,
) -> Result<Seq<(Seq<char>, JsonModel)>, ErrorModel>
    decreases points.len(),
{
    if points.len() == 0 {
        Ok(Seq::empty())
    } else {
        match object_documents(target, tenant, points.drop_last()) {
            Err(error) => Err(error),
            Ok(before) => match object_document(target, tenant, points.last()) {
                Err(error) => Err(error),
                Ok(object) => Ok(before.push((points.last().id@, object))),
            },
        }
    }
}

/// Where some first objects have an error, all of them have that one.
proof fn lemma_objects_fail_early(
    target: Seq<char>,
    tenant: Option<Seq<char>>,
    points: Seq<VectorPoint>,
    count: int,
)
    requires
        0 <= count <= points.len(),
        object_documents(target, tenant, points.subrange(0, count)) is Err,
    ensures
        object_documents(target, tenant, points) == object_documents(
            target,
            tenant,
            points.subrange(0, count),
        ),
    decreases points.len(),
{
    if count == points.len() {
        assert(points.subrange(0, count) =~= points);
    } else {
        assert(points.drop_last().subrange(0, count) =~= points.subrange(0, count));
        lemma_objects_fail_early(target, tenant, points.drop_last(), count);
    }
}

/// A write of objects.
pub open spec fn upsert_plan(profile: ConnectionProfile, request: VectorUpsertRequest) -> Result<
    UpsertModel,
    ErrorModel,
> {
    match graphql_name_error(request.target@) {
        Some(error) => Err(error),
        None => match affected_error(profile, profile.policy.max_affected, request.points@.len()) {
            Some(error) => Err(error),
            None => {
                let tenant = tenant_of(profile, optional_text(request.namespace));
                match object_documents(request.target@, tenant, request.points@) {
                    Err(error) => Err(error),
                    Ok(objects) => Ok(
                        UpsertModel {
                            target: request.target@,
                            tenant,
                            objects,
                            index: 0,
                            phase: UpsertPhase::Look,
                        },
                    ),
                }
            },
        },
    }
}

/// Writes the document of an object.
fn write_object(target: &str, tenant: &Option<String>, point: &VectorPoint) -> (result: Result<
    Json,
    ConnectorError,
>)
    ensures
        is_json_result(result, object_document(target@, optional_text(*tenant), *point)),
{
    match validate_weaviate_id(point.id.as_str()) {
        Err(error) => {
            return Err(error);
        },
        Ok(()) => {},
    }
    let properties = match record_to_json(&point.metadata) {
        Err(error) => {
            return Err(error);
        },
        Ok(properties) => properties,
    };
    let mut object = JsonObject::new();
    object.put("class", text(target));
    object.put("id", text(point.id.as_str()));
    object.put("properties", properties);
    object.put("vector", write_vector(&point.vector));
    match tenant {
        Some(tenant) => {
            object.put("tenant", text(tenant.as_str()));
        },
        None => {},
    }
    Ok(object.finish())
}

/// Begins a write of objects.
pub fn begin_upsert(profile: &ConnectionProfile, request: &VectorUpsertRequest) -> (result: Result<
    WeaviateUpsert,
    ConnectorError,
>)
    ensures
        match (result, upsert_plan(*profile, *request)) {
            (Ok(upsert), Ok(wanted)) => upsert@ == wanted,
            (Err(error), Err(wanted)) => error@ == wanted,
            _ => false,
        },
{
    match validate_graphql_name(request.target.as_str()) {
        Err(error) => {
            return Err(error);
        },
        Ok(()) => {},
    }
    match validate_affected(profile, profile.policy.max_affected, request.points.len()) {
        Err(error) => {
            return Err(error);
        },
        Ok(()) => {},
    }
    let tenant = find_tenant(profile, &request.namespace);
    let ghost scope = optional_text(tenant);
    let ghost all = request.points@;
    let mut objects: Vec<(String, Json)> = Vec::new();
    let mut i: usize = 0;
    assert(all.subrange(0, 0) =~= Seq::<VectorPoint>::empty());
    while i < request.points.len()
        invariant
            i <= request.points@.len(),
            all == request.points@,
            scope == optional_text(tenant),
            scope == tenant_of(*profile, optional_text(request.namespace)),
            graphql_name_error(request.target@) is None,
            affected_error(*profile, profile.policy.max_affected, request.points@.len()) is None,
            object_documents(request.target@, scope, all.subrange(0, i as int)) == Ok::<
                Seq<(Seq<char>, JsonModel)>,
                ErrorModel,
            >(members(objects@)),
        decreases request.points@.len() - i,
    {
        let point = &request.points[i];
        let ghost next = all.subrange(0, i + 1);
        assert(next.drop_last() =~= all.subrange(0, i as int));
        match write_object(request.target.as_str(), &tenant, point) {
            Err(error) => {
                proof {
                    lemma_objects_fail_early(request.target@, scope, all, i + 1);
                }
                return Err(error);
            },
            Ok(object) => {
                objects.push((point.id.clone(), object));
            },
        }
        i = i + 1;
    }
    assert(all.subrange(0, i as int) =~= all);
    Ok(
        WeaviateUpsert {
            target: request.target.clone(),
            tenant,
            objects,
            index: 0,
            phase: UpsertPhase::Look,
        },
    )
}

/// The next request of a write of objects, where there is one left.
pub open spec fn upsert_request(profile: ConnectionProfile, state: UpsertModel) -> Result<
    Option<RequestModel>,
    ErrorModel,
> {
    if state.index >= state.objects.len() {
        Ok(None)
    } else {
        let (id, object) = state.objects[state.index];
        let query = with_parameter(Seq::empty(), "tenant"@, state.tenant);
        let request = match state.phase {
            UpsertPhase::Look => object_request(
                profile,
                MethodModel::Head,
                state.target,
                id,
                query,
                BodyModel::Empty,
            ),
            UpsertPhase::Replace => object_request(
                profile,
                MethodModel::Put,
                state.target,
                id,
                query,
                BodyModel::Json(object),
            ),
            UpsertPhase::Create => api_request(
                profile,
                MethodModel::Post,
                names_of(["v1", "objects"]@),
                Seq::empty(),
                BodyModel::Json(object),
            ),
        };
        match request {
            Err(error) => Err(error),
            Ok(request) => Ok(Some(request)),
        }
    }
}

/// What a write of objects does once it knows whether the next object exists.
pub open spec fn upsert_looked(state: UpsertModel, status: u16) -> Result<UpsertModel, ErrorModel> {
    if status == 200 || status == 204 {
        Ok(UpsertModel { phase: UpsertPhase::Replace, ..state })
    } else if status == 404 {
        Ok(UpsertModel { phase: UpsertPhase::Create, ..state })
    } else if state.index == 0 {
        Err(status_error(status))
    } else {
        Err(
            failure(
                ErrorCategory::UnknownOutcome,
                "Weaviate upsert failed after one or more objects were written"@,
            ),
        )
    }
}

/// The error of a write of objects that failed. Once an object may have been written, the outcome
/// is unknown.
pub open spec fn upsert_failed(state: UpsertModel, error: ErrorModel) -> ErrorModel {
    if state.index == 0 && error.category != ErrorCategory::Protocol {
        error
    } else {
        failure(
            ErrorCategory::UnknownOutcome,
            "Weaviate did not confirm the outcome after one or more object writes were attempted"@,
        )
    }
}

/// A write of objects once the next object is written.
pub open spec fn upsert_written(state: UpsertModel) -> UpsertModel {
    UpsertModel { index: state.index + 1, phase: UpsertPhase::Look, ..state }
}

impl WeaviateUpsert {
    /// The next request, where there is one left.
    pub fn next_request(&self, profile: &ConnectionProfile) -> (result: Result<
        Option<HttpRequest>,
        ConnectorError,
    >)
        ensures
            is_next_request(result, upsert_request(*profile, self@)),
    {
        if self.index >= self.objects.len() {
            return Ok(None);
        }
        let object = &self.objects[self.index];
        assert(self@.objects[self@.index] == (object.0@, object.1@));
        let mut query: Vec<(String, String)> = Vec::new();
        add_parameter(&mut query, "tenant", borrowed(&self.tenant));
        let request = match self.phase {
            UpsertPhase::Look => make_object_request(
                profile,
                HttpMethod::Head,
                self.target.as_str(),
                object.0.as_str(),
                query,
                HttpBody::Empty,
            ),
            UpsertPhase::Replace => make_object_request(
                profile,
                HttpMethod::Put,
                self.target.as_str(),
                object.0.as_str(),
                query,
                HttpBody::Json(object.1.copy()),
            ),
            UpsertPhase::Create => make_request(
                profile,
                HttpMethod::Post,
                &["v1", "objects"],
                Vec::new(),
                HttpBody::Json(object.1.copy()),
            ),
        };
        match request {
            Err(error) => Err(error),
            Ok(request) => Ok(Some(request)),
        }
    }

    /// Goes on once it is known whether the next object exists.
    pub fn looked(&mut self, status: u16) -> (result: Result<(), ConnectorError>)
        requires
            100 <= status <= 999,
        ensures
            match (result, upsert_looked(old(self)@, status)) {
                (Ok(()), Ok(wanted)) => final(self)@ == wanted,
                (Err(error), Err(wanted)) => error@ == wanted && final(self)@ == old(self)@,
                _ => false,
            },
    {
        if status == 200 || status == 204 {
            self.phase = UpsertPhase::Replace;
            return Ok(());
        }
        if status == 404 {
            self.phase = UpsertPhase::Create;
            return Ok(());
        }
        if self.index == 0 {
            return Err(map_http_status(status));
        }
        Err(
            ConnectorError::new(
                ErrorCategory::UnknownOutcome,
                "Weaviate upsert failed after one or more objects were written",
            ),
        )
    }

    /// Goes on once the next object is written.
    pub fn written(&mut self)
        requires
            old(self).index < old(self).objects@.len(),
        ensures
            final(self)@ == upsert_written(old(self)@),
    {
        let count: usize = self.objects.len();
        assert(self.index < count);
        self.index = self.index + 1;
        self.phase = UpsertPhase::Look;
    }

    /// The error of the write once a request failed.
    pub fn failed(&self, error: ConnectorError) -> (result: ConnectorError)
        ensures
            result@ == upsert_failed(self@, error@),
    {
        if self.index == 0 && error.category != ErrorCategory::Protocol {
            return error;
        }
        ConnectorError::new(
            ErrorCategory::UnknownOutcome,
            "Weaviate did not confirm the outcome after one or more object writes were attempted",
        )
    }

    /// Makes the result of the write.
    pub fn finish(&self, context: &ConnectorContext, profile: &ConnectionProfile, elapsed_ms: u64) -> (result:
        Result<OperationResult, ConnectorError>)
        ensures
            is_result_of(
                result,
                finished_write(*context, *profile, self@.objects.len() as u64, elapsed_ms),
            ),
    {
        finish_write(context, profile, self.objects.len() as u64, elapsed_ms)
    }
}

/// Once a first object is written, no failure of the write claims that nothing was: the outcome is
/// unknown and not worth a retry.
pub proof fn lemma_started_upserts_stay_open(state: UpsertModel, status: u16, error: ErrorModel)
    requires
        state.index > 0,
    ensures
        upsert_looked(state, status) matches Err(given) ==> given.category
            == ErrorCategory::UnknownOutcome && !given.retryable,
        upsert_failed(state, error).category == ErrorCategory::UnknownOutcome,
        !upsert_failed(state, error).retryable,
{
}

/// A removal of objects, one after the other.
#[derive(Debug)]
pub struct WeaviateDelete {
    pub target: String,
    pub tenant: Option<String>,
    pub ids: Vec<String>,
    /// The place of the object that is removed next.
    pub next: usize,
    /// How many were removed.
    pub affected: u64,
}

/// What a [`WeaviateDelete`] is.
pub struct DeleteModel {
    pub target: Seq<char>,
    pub tenant: Option<Seq<char>>,
    pub ids: Seq<Seq<char>>,
    pub next: int,
    pub affected: int,
}

impl View for WeaviateDelete {
    type V = DeleteModel;

    open spec fn view(&self) -> DeleteModel {
        DeleteModel {
            target: self.target@,
            tenant: optional_text(self.tenant),
            ids: texts(self.ids@),
            next: self.next as int,
            affected: self.affected as int,
        }
    }
}

/// Whether a removal is in a state that it can reach.
pub open spec fn is_delete(state: DeleteModel) -> bool {
    0 <= state.affected <= state.next <= state.ids.len()
}

/// Whether some identity is no UUID.
pub open spec fn has_bad_id(ids: Seq<Seq<char>>) -> bool {
    exists|i: int| 0 <= i < ids.len() && id_error(#[trigger] ids[i]) is Some
}

/// A removal of objects that are named by their identities.
pub open spec fn delete_plan(profile: ConnectionProfile, request: DeleteRequest) -> Result<
    DeleteModel,
    ErrorModel,
> {
    match graphql_name_error(request.target@) {
        Some(error) => Err(error),
        None => match filter_ids(request.filter, names_of(["id", "_id"]@)) {
            Err(error) => Err(error),
            Ok(ids) => match affected_error(profile, request.max_affected, ids.len()) {
                Some(error) => Err(error),
                None => if has_bad_id(ids) {
                    Err(invalid_request("Weaviate object ids must be UUIDs"@))
                } else {
                    Ok(
                        DeleteModel {
                            target: request.target@,
                            tenant: text_option(profile, "tenant"@),
                            ids,
                            next: 0,
                            affected: 0,
                        },
                    )
                },
            },
        },
    }
}

/// Begins a removal of objects.
pub fn begin_delete(profile: &ConnectionProfile, request: &DeleteRequest) -> (result: Result<
    WeaviateDelete,
    ConnectorError,
>)
    ensures
        match (result, delete_plan(*profile, *request)) {
            (Ok(delete), Ok(wanted)) => delete@ == wanted,
            (Err(error), Err(wanted)) => error@ == wanted,
            _ => false,
        },
{
    match validate_graphql_name(request.target.as_str()) {
        Err(error) => {
            return Err(error);
        },
        Ok(()) => {},
    }
    let ids = match extract_ids(&request.filter, &["id", "_id"]) {
        Err(error) => {
            return Err(error);
        },
        Ok(ids) => ids,
    };
    let ghost all = texts(ids@);
    match validate_affected(profile, request.max_affected, ids.len()) {
        Err(error) => {
            return Err(error);
        },
        Ok(()) => {},
    }
    let mut i: usize = 0;
    while i < ids.len()
        invariant
            i <= ids@.len(),
            all == texts(ids@),
            graphql_name_error(request.target@) is None,
            filter_ids(request.filter, names_of(["id", "_id"]@)) == Ok::<
                Seq<Seq<char>>,
                ErrorModel,
            >(all),
            affected_error(*profile, request.max_affected, all.len()) is None,
            forall|j: int| 0 <= j < i ==> id_error(#[trigger] all[j]) is None,
        decreases ids@.len() - i,
    {
        assert(all[i as int] == ids@[i as int]@);
        match validate_weaviate_id(ids[i].as_str()) {
            Err(error) => {
                return Err(error);
            },
            Ok(()) => {},
        }
        i = i + 1;
    }
    Ok(
        WeaviateDelete {
            target: request.target.clone(),
            tenant: owned_optional(find_text_option(profile, "tenant")),
            ids,
            next: 0,
            affected: 0,
        },
    )
}

/// The next request of a removal, where there is one left.
pub open spec fn delete_request(profile: ConnectionProfile, state: DeleteModel) -> Result<
    Option<RequestModel>,
    ErrorModel,
> {
    if state.next >= state.ids.len() {
        Ok(None)
    } else {
        match object_request(
            profile,
            MethodModel::Delete,
            state.target,
            state.ids[state.next],
            with_parameter(Seq::empty(), "tenant"@, state.tenant),
            BodyModel::Empty,
        ) {
            Err(error) => Err(error),
            Ok(request) => Ok(Some(request)),
        }
    }
}

/// A removal once the next object was answered: removed, or not there. Other answers are errors;
/// once an object was removed, the outcome is unknown.
pub open spec fn delete_answered(state: DeleteModel, status: u16) -> Result<DeleteModel, ErrorModel> {
    if 200 <= status <= 299 {
        Ok(DeleteModel { next: state.next + 1, affected: state.affected + 1, ..state })
    } else if status == 404 {
        Ok(DeleteModel { next: state.next + 1, ..state })
    } else if state.affected == 0 {
        Err(status_error(status))
    } else {
        Err(
            failure(
                ErrorCategory::UnknownOutcome,
                "Weaviate delete failed after one or more objects were deleted"@,
            ),
        )
    }
}

/// The result of a removal.
pub open spec fn delete_outcome(
    context: ConnectorContext,
    profile: ConnectionProfile,
    state: DeleteModel,
    elapsed_ms: u64,
) -> Result<ResultModel, ErrorModel> {
    if state.affected == 0 {
        Err(failure(ErrorCategory::NotFound, "Weaviate delete target objects were not found"@))
    } else {
        finished_write(context, profile, state.affected as u64, elapsed_ms)
    }
}

impl WeaviateDelete {
    /// The next request, where there is one left.
    pub fn next_request(&self, profile: &ConnectionProfile) -> (result: Result<
        Option<HttpRequest>,
        ConnectorError,
    >)
        ensures
            is_next_request(result, delete_request(*profile, self@)),
    {
        assert(texts(self.ids@).len() == self.ids@.len());
        if self.next >= self.ids.len() {
            return Ok(None);
        }
        let mut query: Vec<(String, String)> = Vec::new();
        add_parameter(&mut query, "tenant", borrowed(&self.tenant));
        match make_object_request(
            profile,
            HttpMethod::Delete,
            self.target.as_str(),
            self.ids[self.next].as_str(),
            query,
            HttpBody::Empty,
        ) {
            Err(error) => Err(error),
            Ok(request) => Ok(Some(request)),
        }
    }

    /// Goes on once the next object was answered.
    pub fn answered(&mut self, status: u16) -> (result: Result<(), ConnectorError>)
        requires
            100 <= status <= 999,
            is_delete(old(self)@),
            old(self).next < old(self).ids@.len(),
        ensures
            match (result, delete_answered(old(self)@, status)) {
                (Ok(()), Ok(wanted)) => final(self)@ == wanted && is_delete(wanted),
                (Err(error), Err(wanted)) => error@ == wanted && final(self)@ == old(self)@,
                _ => false,
            },
    {
        let count: usize = self.ids.len();
        assert(self.next < count);
        assert(texts(self.ids@).len() == count);
        if 200 <= status && status <= 299 {
            self.next = self.next + 1;
            self.affected = self.affected + 1;
            return Ok(());
        }
        if status == 404 {
            self.next = self.next + 1;
            return Ok(());
        }
        if self.affected == 0 {
            return Err(map_http_status(status));
        }
        Err(
            ConnectorError::new(
                ErrorCategory::UnknownOutcome,
                "Weaviate delete failed after one or more objects were deleted",
            ),
        )
    }

    /// Makes the result of the removal.
    pub fn finish(&self, context: &ConnectorContext, profile: &ConnectionProfile, elapsed_ms: u64) -> (result:
        Result<OperationResult, ConnectorError>)
        ensures
            is_result_of(result, delete_outcome(*context, *profile, self@, elapsed_ms)),
    {
        if self.affected == 0 {
            return Err(
                ConnectorError::new(
                    ErrorCategory::NotFound,
                    "Weaviate delete target objects were not found",
                ),
            );
        }
        finish_write(context, profile, self.affected, elapsed_ms)
    }
}

/// A removal starts in a state that it can reach, and every answer leaves it there; what it counts
/// as removed was answered so.
pub proof fn lemma_deletes_count_what_was_removed(
    profile: ConnectionProfile,
    request: DeleteRequest,
    state: DeleteModel,
    status: u16,
)
    requires
        is_delete(state),
        state.next < state.ids.len(),
    ensures
        delete_plan(profile, request) matches Ok(start) ==> is_delete(start) && start.affected == 0,
        delete_answered(state, status) matches Ok(next) ==> is_delete(next) && (next.affected
            == state.affected + 1 <==> 200 <= status <= 299),
        delete_answered(state, status) is Err && state.affected > 0 ==> delete_answered(
            state,
            status,
        )->Err_0.category == ErrorCategory::UnknownOutcome,
{
}

/// Whether a native request only reads.
pub open spec fn is_native_read(method: MethodModel, path: Seq<char>) -> bool {
    match method {
        MethodModel::Get | MethodModel::Head => {
            ||| path == "/v1/meta"@
            ||| path == "/v1/graphql"@
            ||| path == "/v1/schema"@
            ||| begins_with(path, "/v1/schema/"@)
            ||| path == "/v1/objects"@
            ||| begins_with(path, "/v1/objects/"@)
        },
        MethodModel::Post => path == "/v1/graphql"@,
        _ => false,
    }
}

/// Whether a native request only reads.
pub fn weaviate_native_read_path(method: &HttpMethod, path: &str) -> (result: bool)
    ensures
        result == is_native_read(method@, path@),
{
    match method {
        HttpMethod::Get | HttpMethod::Head => same(path, "/v1/meta") || same(path, "/v1/graphql")
            || same(path, "/v1/schema") || starts_with(path, "/v1/schema/") || same(
            path,
            "/v1/objects",
        ) || starts_with(path, "/v1/objects/"),
        HttpMethod::Post => same(path, "/v1/graphql"),
        _ => false,
    }
}

/// The error of a GraphQL query within a native request.
pub open spec fn inner_query_error(query: Option<Seq<char>>) -> Option<ErrorModel> {
    match query {
        None => None,
        Some(query) => match definitions_error(read_definitions(query)) {
            None => None,
            Some(error) => if error.category == ErrorCategory::PermissionDenied {
                Some(error)
            } else {
                Some(
                    invalid_request(
                        "native Weaviate GraphQL request contains an invalid query"@,
                    ),
                )
            },
        },
    }
}

/// The queries of a native GraphQL request: in its body, and in its URL.
pub open spec fn envelope_queries(envelope: EnvelopeModel) -> (Option<Seq<char>>, Option<Seq<char>>) {
    (
        match envelope.body {
            Some(body) => text_of(member(body, "query"@)),
            None => None,
        },
        field_named(envelope.query, "query"@),
    )
}

/// The error of a native request that is not a read.
pub open spec fn native_read_error(envelope: EnvelopeModel) -> Option<ErrorModel> {
    let (in_body, in_url) = envelope_queries(envelope);
    if !is_native_read(envelope.method, envelope.path) {
        Some(
            failure(
                ErrorCategory::PermissionDenied,
                "native Weaviate request is not an explicitly supported read endpoint"@,
            ),
        )
    } else if envelope.path != "/v1/graphql"@ {
        None
    } else if in_body is None && in_url is None {
        Some(invalid_request("native Weaviate GraphQL request requires a query string"@))
    } else {
        match inner_query_error(in_body) {
            Some(error) => Some(error),
            None => inner_query_error(in_url),
        }
    }
}

/// Refuses a GraphQL query within a native request that is not a read.
fn check_inner_query(query: Option<&str>) -> (result: Result<(), ConnectorError>)
    ensures
        error_of(result) == inner_query_error(optional_str(query)),
{
    let query = match query {
        None => {
            return Ok(());
        },
        Some(query) => query,
    };
    match validate_read_only_graphql(query) {
        Ok(()) => Ok(()),
        Err(error) => {
            if error.category == ErrorCategory::PermissionDenied {
                Err(error)
            } else {
                Err(invalid("native Weaviate GraphQL request contains an invalid query"))
            }
        },
    }
}

/// Refuses a native request that is not a read.
pub fn check_native_read(envelope: &NativeHttpEnvelope) -> (result: Result<(), ConnectorError>)
    ensures
        error_of(result) == native_read_error(envelope@),
{
    if !weaviate_native_read_path(&envelope.method, envelope.path.as_str()) {
        return Err(
            ConnectorError::new(
                ErrorCategory::PermissionDenied,
                "native Weaviate request is not an explicitly supported read endpoint",
            ),
        );
    }
    if !same(envelope.path.as_str(), "/v1/graphql") {
        return Ok(());
    }
    let in_body = match &envelope.body {
        Some(body) => as_text(body.get("query")),
        None => None,
    };
    let in_url = find_pair(&envelope.query, "query");
    if in_body.is_none() && in_url.is_none() {
        return Err(invalid("native Weaviate GraphQL request requires a query string"));
    }
    match check_inner_query(in_body) {
        Err(error) => Err(error),
        Ok(()) => check_inner_query(in_url),
    }
}

/// The request of a native query, and whether its answer is that of a GraphQL query.
pub open spec fn native_plan(profile: ConnectionProfile, request: NativeRequest) -> Result<
    (RequestModel, bool),
    ErrorModel,
> {
    if names_of(["graphql", "weaviate_graphql"]@).contains(request.language@) {
        match parameters_error(request) {
            Some(error) => Err(error),
            None => match definitions_error(read_definitions(request.statement@)) {
                Some(error) => Err(error),
                None => match graphql_request(profile, request.statement@) {
                    Err(error) => Err(error),
                    Ok(model) => Ok((model, true)),
                },
            },
        }
    } else {
        match language_error(request.language@, names_of(["weaviate_http", "json"]@)) {
            Some(error) => Err(error),
            None => match parameters_error(request) {
                Some(error) => Err(error),
                None => match envelope_result(
                    envelope_document(encode_utf8(request.statement@)),
                    true,
                    names_of(["/v1/graphql", "/v1/meta", "/v1/schema", "/v1/objects"]@),
                ) {
                    Err(error) => Err(error),
                    Ok(envelope) => match native_read_error(envelope) {
                        Some(error) => Err(error),
                        None => match native_result(profile, envelope) {
                            Err(error) => Err(error),
                            Ok(model) => Ok((model, false)),
                        },
                    },
                },
            },
        }
    }
}

/// Makes the request of a native query, and says whether its answer is that of a GraphQL query.
pub fn begin_native(profile: &ConnectionProfile, request: &NativeRequest) -> (result: Result<
    (HttpRequest, bool),
    ConnectorError,
>)
    ensures
        match (result, native_plan(*profile, *request)) {
            (Ok((request, graphql)), Ok((wanted, expected))) => request@ == wanted && graphql
                == expected,
            (Err(error), Err(wanted)) => error@ == wanted,
            _ => false,
        },
{
    if is_one_of(request.language.as_str(), &["graphql", "weaviate_graphql"]) {
        match validate_native_parameters(request) {
            Err(error) => {
                return Err(error);
            },
            Ok(()) => {},
        }
        match validate_read_only_graphql(request.statement.as_str()) {
            Err(error) => {
                return Err(error);
            },
            Ok(()) => {},
        }
        return match make_graphql_request(profile, request.statement.as_str()) {
            Err(error) => Err(error),
            Ok(made) => Ok((made, true)),
        };
    }
    match ensure_language(request.language.as_str(), &["weaviate_http", "json"]) {
        Err(error) => {
            return Err(error);
        },
        Ok(()) => {},
    }
    match validate_native_parameters(request) {
        Err(error) => {
            return Err(error);
        },
        Ok(()) => {},
    }
    let envelope = match parse_native_envelope(
        request.statement.as_str(),
        true,
        &["/v1/graphql", "/v1/meta", "/v1/schema", "/v1/objects"],
    ) {
        Err(error) => {
            return Err(error);
        },
        Ok(envelope) => envelope,
    };
    match check_native_read(&envelope) {
        Err(error) => {
            return Err(error);
        },
        Ok(()) => {},
    }
    match native_request(profile, envelope) {
        Err(error) => Err(error),
        Ok(made) => Ok((made, false)),
    }
}

/// How an operation is carried out.
#[derive(Debug)]
pub enum WeaviatePlan {
    List(WeaviateList),
    Fetch(WeaviateFetch),
    Search(WeaviateSearch),
    Upsert(WeaviateUpsert),
    Delete(WeaviateDelete),
    /// A native request, and whether its answer is that of a GraphQL query.
    Native(HttpRequest, bool),
}

/// What a [`WeaviatePlan`] is.
pub enum WeaviateModel {
    List(ListModel),
    Fetch(FetchModel),
    Search(SearchModel),
    Upsert(UpsertModel),
    Delete(DeleteModel),
    Native(RequestModel, bool),
}

impl View for WeaviatePlan {
    type V = WeaviateModel;

    open spec fn view(&self) -> WeaviateModel {
        match *self {
            WeaviatePlan::List(list) => WeaviateModel::List(list@),
            WeaviatePlan::Fetch(fetch) => WeaviateModel::Fetch(fetch@),
            WeaviatePlan::Search(search) => WeaviateModel::Search(search@),
            WeaviatePlan::Upsert(upsert) => WeaviateModel::Upsert(upsert@),
            WeaviatePlan::Delete(delete) => WeaviateModel::Delete(delete@),
            WeaviatePlan::Native(request, graphql) => WeaviateModel::Native(request@, graphql),
        }
    }
}

/// The identities that a filter of a read names.
pub open spec fn read_ids(filter: Filter) -> Result<Seq<Seq<char>>, ErrorModel> {
    match filter_ids(filter, names_of(["id", "_id"]@)) {
        Ok(ids) => Ok(ids),
        Err(error) => if error.category == ErrorCategory::Unsupported {
            Err(
                unsupported_request(
                    "Weaviate vector fetch supports equality or IN filters on id"@,
                ),
            )
        } else {
            Err(error)
        },
    }
}

/// How a read is carried out: as a listing, or object by object where a filter names them.
pub open spec fn read_plan(
    context: ConnectorContext,
    profile: ConnectionProfile,
    request: ReadRequest,
) -> Result<WeaviateModel, ErrorModel> {
    match graphql_name_error(request.target@) {
        Some(error) => Err(error),
        None => if request.options.sort@.len() > 0 {
            Err(
                unsupported_request(
                    "Weaviate object listing does not expose generic sort ordering"@,
                ),
            )
        } else {
            match rows_result(context, profile, request.options.limit) {
                Err(error) => Err(error),
                Ok(limit) => match request.filter {
                    None => match list_plan(profile, request, limit) {
                        Err(error) => Err(error),
                        Ok(list) => Ok(WeaviateModel::List(list)),
                    },
                    Some(filter) => if request.options.cursor is Some {
                        Err(unsupported_request("Weaviate id fetch does not use a cursor"@))
                    } else {
                        match read_ids(filter) {
                            Err(error) => Err(error),
                            Ok(ids) => Ok(WeaviateModel::Fetch(fetch_start(request, ids, limit))),
                        }
                    },
                },
            }
        },
    }
}

/// Whether a plan is what is expected of it.
pub open spec fn is_plan_result(
    result: Result<WeaviatePlan, ConnectorError>,
    expected: Result<WeaviateModel, ErrorModel>,
) -> bool {
    match (result, expected) {
        (Ok(plan), Ok(wanted)) => plan@ == wanted,
        (Err(error), Err(wanted)) => error@ == wanted,
        _ => false,
    }
}

/// Begins a read.
pub fn begin_read(context: &ConnectorContext, profile: &ConnectionProfile, request: &ReadRequest) -> (result:
    Result<WeaviatePlan, ConnectorError>)
    ensures
        is_plan_result(result, read_plan(*context, *profile, *request)),
{
    match validate_graphql_name(request.target.as_str()) {
        Err(error) => {
            return Err(error);
        },
        Ok(()) => {},
    }
    if request.options.sort.len() > 0 {
        return Err(
            unsupported("Weaviate object listing does not expose generic sort ordering"),
        );
    }
    let limit: usize = match effective_rows(context, profile, request.options.limit) {
        Err(error) => {
            return Err(error);
        },
        Ok(limit) => limit,
    };
    let filter = match &request.filter {
        None => {
            return match begin_list(profile, request, limit) {
                Err(error) => Err(error),
                Ok(list) => Ok(WeaviatePlan::List(list)),
            };
        },
        Some(filter) => filter,
    };
    if request.options.cursor.is_some() {
        return Err(unsupported("Weaviate id fetch does not use a cursor"));
    }
    let found = match extract_ids(filter, &["id", "_id"]) {
        Err(error) => {
            if error.category == ErrorCategory::Unsupported {
                return Err(
                    unsupported("Weaviate vector fetch supports equality or IN filters on id"),
                );
            }
            return Err(error);
        },
        Ok(ids) => ids,
    };
    let truncated = found.len() > limit;
    let mut ids = found;
    ids.truncate(limit);
    assert(texts(ids@) =~= texts(found@).subrange(0, smaller(found@.len() as int, limit as int)));
    Ok(
        WeaviatePlan::Fetch(
            WeaviateFetch {
                target: request.target.clone(),
                fields: clone_texts(&request.fields),
                ids,
                next: 0,
                found: Vec::new(),
                sizes: Vec::new(),
                bytes: 0,
                truncated,
                candidate: false,
                stopped: false,
            },
        ),
    )
}

/// How an operation is carried out.
pub open spec fn operation_plan(
    context: ConnectorContext,
    profile: ConnectionProfile,
    operation: DataOperation,
) -> Result<WeaviateModel, ErrorModel> {
    match operation {
        DataOperation::Read(request) => read_plan(context, profile, request),
        DataOperation::Search(request) => match text_search_plan(context, profile, request) {
            Err(error) => Err(error),
            Ok(search) => Ok(WeaviateModel::Search(search)),
        },
        DataOperation::VectorSearch(request) => match vector_search_plan(
            context,
            profile,
            request,
        ) {
            Err(error) => Err(error),
            Ok(search) => Ok(WeaviateModel::Search(search)),
        },
        DataOperation::VectorUpsert(request) => match upsert_plan(profile, request) {
            Err(error) => Err(error),
            Ok(upsert) => Ok(WeaviateModel::Upsert(upsert)),
        },
        DataOperation::Delete(request) => match delete_plan(profile, request) {
            Err(error) => Err(error),
            Ok(delete) => Ok(WeaviateModel::Delete(delete)),
        },
        DataOperation::NativeQuery(request) => match native_plan(profile, request) {
            Err(error) => Err(error),
            Ok((request, graphql)) => Ok(WeaviateModel::Native(request, graphql)),
        },
        _ => Err(unsupported_request("operation is not supported by Weaviate REST"@)),
    }
}

/// What a server says of itself.
pub open spec fn weaviate_info(answer: JsonModel) -> Result<InfoModel, ErrorModel> {
    match text_of(member(answer, "version"@)) {
        None => Err(mismatch("Weaviate meta response omitted version"@)),
        Some(version) => Ok(
            InfoModel {
                product_name: "Weaviate"@,
                product_version: Some(version),
                api_mode: weaviate_mode(),
                server_identity: text_of(member(answer, "hostname"@)),
                warnings: Seq::empty(),
            },
        ),
    }
}

/// How the classes of a schema are read.
pub open spec fn class_source() -> EntitySource {
    EntitySource {
        namespace: "collection",
        kind: "collection",
        name: Some("class"),
        comment: CommentSource::Member("description"),
    }
}

/// The collections of a schema.
pub open spec fn found_classes(answer: JsonModel, query: CatalogQuery) -> Result<
    Seq<EntityModel>,
    ErrorModel,
> {
    match list_in(answer, "classes"@) {
        None => Err(protocol_failure("Weaviate schema omitted classes"@)),
        Some(classes) => found_entities(classes, class_source(), query),
    }
}

/// What a schema says of a collection.
pub open spec fn class_description(name: Seq<char>, schema: JsonModel) -> DescriptionModel {
    DescriptionModel {
        entity: EntityModel {
            id: name,
            namespace: Some("collection"@),
            name,
            kind: "collection"@,
            comment: text_of(member(schema, "description"@)),
        },
        fields: match list_in(schema, "properties"@) {
            Some(properties) => json_records(properties),
            None => Seq::empty(),
        },
        metadata: with_members(
            Seq::empty(),
            schema,
            names_of(["description", "vectorizer", "vectorIndexType", "multiTenancyConfig"]@),
        ),
        truncated: false,
        warnings: Seq::empty(),
    }
}

/// What the connector for Weaviate can do.
pub open spec fn weaviate_capabilities() -> Seq<Capability> {
    seq![Capability::TestConnection].push(Capability::Discover).push(Capability::Describe).push(
        Capability::Read,
    ).push(Capability::Upsert).push(Capability::Delete).push(Capability::NativeQuery).push(
        Capability::TextSearch,
    ).push(Capability::VectorSearch)
}

/// The connector for Weaviate.
#[derive(Debug, Clone, Copy)]
pub struct WeaviateConnector {}

impl Default for WeaviateConnector {
    fn default() -> (result: WeaviateConnector) {
        WeaviateConnector {  }
    }
}

impl WeaviateConnector {
    /// What the connector says of itself.
    pub fn manifest(&self) -> (result: ConnectorManifest)
        ensures
            result.id@ == "weaviate-rest-v1"@,
            result.display_name@ == "Weaviate REST/GraphQL"@,
            result.product == Product::Weaviate,
            result.api_mode@ == weaviate_mode(),
            result.driver@ == "reqwest-rest"@,
            result.driver_version@ == "0.1.0"@,
            result.status == ConnectorStatus::Experimental,
            result.capabilities@ == weaviate_capabilities(),
            result.auth_kinds@ == seq![AuthKind::Anonymous].push(AuthKind::ApiKey).push(
                AuthKind::BearerToken,
            ).push(AuthKind::ClientCertificate),
            texts(result.limitations@) == seq![
                "uses REST for object CRUD and GraphQL for search"@,
            ].push(
                "upsert performs an existence check followed by create or full replacement"@,
            ).push(
                "delete requires explicit object ids; schema and backup administration are not exposed"@,
            ).push(
                "idempotency keys are enforced by the local runtime, not by the REST API"@,
            ).push("GraphQL search does not expose a generic stable cursor"@),
    {
        let mut capabilities: Vec<Capability> = Vec::new();
        capabilities.push(Capability::TestConnection);
        capabilities.push(Capability::Discover);
        capabilities.push(Capability::Describe);
        capabilities.push(Capability::Read);
        capabilities.push(Capability::Upsert);
        capabilities.push(Capability::Delete);
        capabilities.push(Capability::NativeQuery);
        capabilities.push(Capability::TextSearch);
        capabilities.push(Capability::VectorSearch);
        let mut auth_kinds: Vec<AuthKind> = Vec::new();
        auth_kinds.push(AuthKind::Anonymous);
        auth_kinds.push(AuthKind::ApiKey);
        auth_kinds.push(AuthKind::BearerToken);
        auth_kinds.push(AuthKind::ClientCertificate);
        let mut limitations: Vec<String> = Vec::new();
        limitations.push("uses REST for object CRUD and GraphQL for search".to_owned());
        limitations.push(
            "upsert performs an existence check followed by create or full replacement".to_owned(),
        );
        limitations.push(
            "delete requires explicit object ids; schema and backup administration are not exposed".to_owned(),
        );
        limitations.push(
            "idempotency keys are enforced by the local runtime, not by the REST API".to_owned(),
        );
        limitations.push("GraphQL search does not expose a generic stable cursor".to_owned());
        ConnectorManifest {
            id: "weaviate-rest-v1".to_owned(),
            display_name: "Weaviate REST/GraphQL".to_owned(),
            product: Product::Weaviate,
            api_mode: "weaviate_rest_v1".to_owned(),
            driver: "reqwest-rest".to_owned(),
            driver_version: "0.1.0".to_owned(),
            status: ConnectorStatus::Experimental,
            capabilities,
            auth_kinds,
            limitations,
        }
    }

    /// Refuses profiles that are not for this connector.
    pub fn validate(profile: &ConnectionProfile) -> (result: Result<(), ConnectorError>)
        ensures
            error_of(result) == profile_error(
                *profile,
                Product::Weaviate,
                names_of(["weaviate_rest_v1"]@),
            ),
    {
        validate_profile(profile, Product::Weaviate, &["weaviate_rest_v1"])
    }

    /// Refuses a profile and a credential with which no connection could be made.
    pub fn validate_connection_input(
        profile: &ConnectionProfile,
        secret: &SecretMaterial,
    ) -> (result: Result<(), ConnectorError>)
        ensures
            error_of(result) == first_error(
                profile_error(*profile, Product::Weaviate, names_of(["weaviate_rest_v1"]@)),
                failing(
                    client_result(
                        *profile,
                        secret.kind,
                        secret.fields@,
                        AuthStyle::ApiKeyBearer,
                        Seq::empty(),
                    ),
                ),
            ),
    {
        match Self::validate(profile) {
            Err(error) => {
                return Err(error);
            },
            Ok(_) => {},
        }
        match Self::client(profile, secret) {
            Err(error) => Err(error),
            Ok(_) => Ok(()),
        }
    }

    /// How the client of a connection is set up.
    pub fn client(profile: &ConnectionProfile, secret: &SecretMaterial) -> (result: Result<
        ClientPlan,
        ConnectorError,
    >)
        ensures
            match (
                result,
                client_result(
                    *profile,
                    secret.kind,
                    secret.fields@,
                    AuthStyle::ApiKeyBearer,
                    Seq::empty(),
                ),
            ) {
                (Ok(plan), Ok(wanted)) => plan@ == wanted,
                (Err(error), Err(wanted)) => error@ == wanted,
                _ => false,
            },
    {
        client_plan(profile, secret, AuthStyle::ApiKeyBearer, &Vec::new())
    }

    /// The request for what the server says of itself.
    pub fn test_request(profile: &ConnectionProfile) -> (result: Result<HttpRequest, ConnectorError>)
        ensures
            is_request_result(
                result,
                api_request(
                    *profile,
                    MethodModel::Get,
                    names_of(["v1", "meta"]@),
                    Seq::empty(),
                    BodyModel::Empty,
                ),
            ),
    {
        make_request(profile, HttpMethod::Get, &["v1", "meta"], Vec::new(), HttpBody::Empty)
    }

    /// What the server says of itself.
    pub fn connection_info(answer: &Json) -> (result: Result<ConnectionInfo, ConnectorError>)
        ensures
            is_info_result(result, weaviate_info(answer@)),
    {
        match as_text(answer.get("version")) {
            None => Err(mismatch_error("Weaviate meta response omitted version")),
            Some(version) => Ok(
                ConnectionInfo {
                    product_name: "Weaviate".to_owned(),
                    product_version: Some(version.to_owned()),
                    api_mode: "weaviate_rest_v1".to_owned(),
                    server_identity: owned_optional(as_text(answer.get("hostname"))),
                    warnings: Vec::new(),
                },
            ),
        }
    }

    /// The request for the schema; none where the query asks for another namespace.
    pub fn catalog_request(profile: &ConnectionProfile, query: &CatalogQuery) -> (result: Result<
        Option<HttpRequest>,
        ConnectorError,
    >)
        ensures
            is_next_request(
                result,
                if asks_elsewhere(*query, "collection"@) {
                    Ok(None)
                } else {
                    match api_request(
                        *profile,
                        MethodModel::Get,
                        names_of(["v1", "schema"]@),
                        Seq::empty(),
                        BodyModel::Empty,
                    ) {
                        Err(error) => Err(error),
                        Ok(request) => Ok(Some(request)),
                    }
                },
            ),
    {
        if is_elsewhere(query, "collection") {
            return Ok(None);
        }
        match make_request(
            profile,
            HttpMethod::Get,
            &["v1", "schema"],
            Vec::new(),
            HttpBody::Empty,
        ) {
            Err(error) => Err(error),
            Ok(request) => Ok(Some(request)),
        }
    }

    /// The collections that a catalog query found.
    pub fn catalog_entities(answer: &Json, query: &CatalogQuery) -> (result: Result<
        Vec<CatalogEntity>,
        ConnectorError,
    >)
        ensures
            is_entities_result(result, found_classes(answer@, *query)),
    {
        match find_list(answer, "classes") {
            None => Err(protocol("Weaviate schema omitted classes")),
            Some(classes) => {
                let source = EntitySource {
                    namespace: "collection",
                    kind: "collection",
                    name: Some("class"),
                    comment: CommentSource::Member("description"),
                };
                read_entities(classes, &source, query)
            },
        }
    }

    /// Describes a collection by its schema.
    pub fn describe_entity(entity_id: &str, schema: &Json) -> (result: EntityDescription)
        ensures
            result@ == class_description(entity_id@, schema@),
    {
        let fields = match find_list(schema, "properties") {
            Some(properties) => json_to_records(properties),
            None => Vec::new(),
        };
        let metadata = add_members(
            DbRecord::new(),
            schema,
            &["description", "vectorizer", "vectorIndexType", "multiTenancyConfig"],
        );
        EntityDescription {
            entity: CatalogEntity {
                id: entity_id.to_owned(),
                namespace: Some("collection".to_owned()),
                name: entity_id.to_owned(),
                kind: "collection".to_owned(),
                comment: owned_optional(as_text(schema.get("description"))),
            },
            fields,
            metadata,
            truncated: false,
            warnings: Vec::new(),
        }
    }

    /// Begins an operation.
    pub fn begin_operation(
        context: &ConnectorContext,
        profile: &ConnectionProfile,
        operation: &DataOperation,
    ) -> (result: Result<WeaviatePlan, ConnectorError>)
        ensures
            is_plan_result(result, operation_plan(*context, *profile, *operation)),
    {
        match operation {
            DataOperation::Read(request) => begin_read(context, profile, request),
            DataOperation::Search(request) => match begin_search(context, profile, request) {
                Err(error) => Err(error),
                Ok(search) => Ok(WeaviatePlan::Search(search)),
            },
            DataOperation::VectorSearch(request) => match begin_vector_search(
                context,
                profile,
                request,
            ) {
                Err(error) => Err(error),
                Ok(search) => Ok(WeaviatePlan::Search(search)),
            },
            DataOperation::VectorUpsert(request) => match begin_upsert(profile, request) {
                Err(error) => Err(error),
                Ok(upsert) => Ok(WeaviatePlan::Upsert(upsert)),
            },
            DataOperation::Delete(request) => match begin_delete(profile, request) {
                Err(error) => Err(error),
                Ok(delete) => Ok(WeaviatePlan::Delete(delete)),
            },
            DataOperation::NativeQuery(request) => match begin_native(profile, request) {
                Err(error) => Err(error),
                Ok((request, graphql)) => Ok(WeaviatePlan::Native(request, graphql)),
            },
            _ => Err(unsupported("operation is not supported by Weaviate REST")),
        }
    }
}

/// A native request that is sent only reads: a GraphQL query in it holds no mutation and no
/// subscription.
pub proof fn lemma_native_requests_only_read(envelope: EnvelopeModel)
    requires
        native_read_error(envelope) is None,
    ensures
        envelope.method is Get || envelope.method is Head || envelope.path == "/v1/graphql"@,
        envelope.path == "/v1/graphql"@ ==> {
            let (in_body, in_url) = envelope_queries(envelope);
            &&& in_body is Some || in_url is Some
            &&& in_body matches Some(query) ==> definitions_error(
                read_definitions(query),
            ) is None
            &&& in_url matches Some(query) ==> definitions_error(read_definitions(query)) is None
        },
{
}

/// The connector takes up no operation that its manifest does not name, and in particular no
/// native write.
pub proof fn lemma_only_named_operations_start(
    context: ConnectorContext,
    profile: ConnectionProfile,
    operation: DataOperation,
)
    ensures
        operation_plan(context, profile, operation) is Ok ==> covers(
            weaviate_capabilities(),
            operation,
        ),
        !weaviate_capabilities().contains(Capability::NativeExecute),
{
    let list = weaviate_capabilities();
    assert(list[0] == Capability::TestConnection);
    assert(list[1] == Capability::Discover);
    assert(list[2] == Capability::Describe);
    assert(list[3] == Capability::Read);
    assert(list[4] == Capability::Upsert);
    assert(list[5] == Capability::Delete);
    assert(list[6] == Capability::NativeQuery);
    assert(list[7] == Capability::TextSearch);
    assert(list[8] == Capability::VectorSearch);
}

/// Following the cursor of a listing goes on behind the last object that the listing returned.
pub proof fn lemma_listings_follow_each_other(
    context: ConnectorContext,
    profile: ConnectionProfile,
    answer: JsonModel,
    limit: int,
    fields: Seq<Seq<char>>,
    sizes: Seq<u64>,
    elapsed_ms: u64,
)
    requires
        0 < limit <= context.max_rows,
        limit <= profile.policy.max_rows,
        listed_objects(answer) matches Ok(objects) ==> sizes.len() == smaller(
            objects.len() as int,
            limit,
        ),
    ensures
        list_outcome(context, profile, answer, limit, fields, sizes, elapsed_ms) matches Ok(result)
            ==> {
            let objects = listed_objects(answer)->Ok_0;
            let kept = result.records.len() as int;
            &&& kept <= objects.len()
            &&& result.records == shown_records(objects, fields).subrange(0, kept)
            &&& result.truncated <==> kept < objects.len()
            &&& result.next_cursor == (if kept < objects.len() {
                text_of(member(objects[kept - 1], "id"@))
            } else {
                None
            })
        },
{
    match listed_objects(answer) {
        Ok(objects) => {
            let shown = objects.subrange(0, smaller(objects.len() as int, limit));
            lemma_prefix_is_kept(
                context,
                profile,
                shown_records(shown, fields),
                sizes,
                limit as nat,
            );
            let kept = kept_count(sizes, limit as nat, byte_limit(context, profile)) as int;
            assert(shown_records(shown, fields).subrange(0, kept) =~= shown_records(
                objects,
                fields,
            ).subrange(0, kept));
        },
        Err(_) => {},
    }
}

} // verus!
