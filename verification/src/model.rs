//! What connectors share: errors, connection profiles, credentials, requests and results.
use crate::text::{optional_str, optional_text, same, texts};
use crate::value::{records, DbRecord, DbValue, Double, Json, RecordModel};
use vstd::prelude::*;
use vstd::string::StringExecFns;

verus! {

/// What kind of failure an error is.
#[derive(Debug, Clone, Copy, PartialEq, Eq, Structural)]
pub enum ErrorCategory {
    InvalidRequest,
    Unsupported,
    Authentication,
    PermissionDenied,
    NotFound,
    Conflict,
    RateLimited,
    Timeout,
    Unavailable,
    Cancelled,
    Protocol,
    Internal,
    UnknownOutcome,
}

/// The phase of a request in which an error arose, where it is known.
#[derive(Debug, Clone, Copy, PartialEq, Eq, Structural)]
pub enum ErrorPhase {
    Unspecified,
    Network,
    Tls,
}

/// A failed request.
#[derive(Debug)]
pub struct ConnectorError {
    pub category: ErrorCategory,
    pub message: String,
    pub retryable: bool,
    pub code: Option<String>,
    pub phase: ErrorPhase,
}

/// What a [`ConnectorError`] is.
pub struct ErrorModel {
    pub category: ErrorCategory,
    pub message: Seq<char>,
    pub retryable: bool,
    pub code: Option<Seq<char>>,
    pub phase: ErrorPhase,
}

impl View for ConnectorError {
    type V = ErrorModel;

    open spec fn view(&self) -> ErrorModel {
        ErrorModel {
            category: self.category,
            message: self.message@,
            retryable: self.retryable,
            code: optional_text(self.code),
            phase: self.phase,
        }
    }
}

/// An error that only has a category and a message.
pub open spec fn failure(category: ErrorCategory, message: Seq<char>) -> ErrorModel {
    ErrorModel {
        category,
        message,
        retryable: false,
        code: None,
        phase: ErrorPhase::Unspecified,
    }
}

/// What a request is answered that cannot be valid.
pub open spec fn invalid_request(message: Seq<char>) -> ErrorModel {
    failure(ErrorCategory::InvalidRequest, message)
}

/// What a request is answered that no connector offers.
pub open spec fn unsupported_request(message: Seq<char>) -> ErrorModel {
    failure(ErrorCategory::Unsupported, message)
}

/// What an answer of the server is that does not follow its protocol.
pub open spec fn protocol_failure(message: Seq<char>) -> ErrorModel {
    failure(ErrorCategory::Protocol, message)
}

/// The error of a result that failed.
pub open spec fn error_of<T>(result: Result<T, ConnectorError>) -> Option<ErrorModel> {
    match result {
        Ok(_) => None,
        Err(error) => Some(error@),
    }
}

/// The error of an expected result.
pub open spec fn failing<T>(expected: Result<T, ErrorModel>) -> Option<ErrorModel> {
    match expected {
        Ok(_) => None,
        Err(error) => Some(error),
    }
}

/// The error of two checks that are made one after the other.
pub open spec fn first_error(first: Option<ErrorModel>, second: Option<ErrorModel>) -> Option<
    ErrorModel,
> {
    match first {
        Some(error) => Some(error),
        None => second,
    }
}

impl ConnectorError {
    /// An error that only has a category and a message.
    pub fn new(category: ErrorCategory, message: &str) -> (result: ConnectorError)
        ensures
            result@ == failure(category, message@),
    {
        ConnectorError {
            category,
            message: message.to_owned(),
            retryable: false,
            code: None,
            phase: ErrorPhase::Unspecified,
        }
    }

    /// The same error, said to be worth a retry or not.
    pub fn retryable(self, retryable: bool) -> (result: ConnectorError)
        ensures
            result@ == (ErrorModel { retryable, ..self@ }),
    {
        ConnectorError {
            category: self.category,
            message: self.message,
            retryable,
            code: self.code,
            phase: self.phase,
        }
    }

    /// The same error with a code.
    pub fn with_code(self, code: &str) -> (result: ConnectorError)
        ensures
            result@ == (ErrorModel { code: Some(code@), ..self@ }),
    {
        ConnectorError {
            category: self.category,
            message: self.message,
            retryable: self.retryable,
            code: Some(code.to_owned()),
            phase: self.phase,
        }
    }

    /// The same error with the phase in which it arose.
    pub fn with_phase(self, phase: ErrorPhase) -> (result: ConnectorError)
        ensures
            result@ == (ErrorModel { phase, ..self@ }),
    {
        ConnectorError {
            category: self.category,
            message: self.message,
            retryable: self.retryable,
            code: self.code,
            phase,
        }
    }
}

/// An error for a request that cannot be valid.
pub fn invalid(message: &str) -> (result: ConnectorError)
    ensures
        result@ == invalid_request(message@),
{
    ConnectorError::new(ErrorCategory::InvalidRequest, message)
}

/// An error for a request that no connector offers.
pub fn unsupported(message: &str) -> (result: ConnectorError)
    ensures
        result@ == unsupported_request(message@),
{
    ConnectorError::new(ErrorCategory::Unsupported, message)
}

/// An error for an answer that does not follow the protocol.
pub fn protocol(message: &str) -> (result: ConnectorError)
    ensures
        result@ == protocol_failure(message@),
{
    ConnectorError::new(ErrorCategory::Protocol, message)
}

/// A text between two others.
pub fn framed(before: &str, middle: &str, after: &str) -> (result: String)
    ensures
        result@ == before@ + middle@ + after@,
{
    let mut result = before.to_owned();
    result.append(middle);
    result.append(after);
    result
}

/// Two texts, one after the other.
pub fn appended(before: &str, after: &str) -> (result: String)
    ensures
        result@ == before@ + after@,
{
    let mut result = before.to_owned();
    result.append(after);
    result
}

/// How a client proves who it is.
#[derive(Debug, Clone, Copy, PartialEq, Eq, Structural)]
pub enum AuthKind {
    Anonymous,
    UsernamePassword,
    ApiKey,
    BearerToken,
    ConnectionString,
    ClientCertificate,
}

/// The database products.
#[derive(Debug, Clone, Copy, PartialEq, Eq, Structural)]
pub enum Product {
    PostgreSql,
    CockroachDb,
    YugabyteDb,
    MySql,
    TiDb,
    OceanBase,
    Oracle,
    SqlServer,
    Elasticsearch,
    OpenSearch,
    Milvus,
    Pinecone,
    Qdrant,
    Splunk,
    Weaviate,
}

/// What a connector can do.
#[derive(Debug, Clone, Copy, PartialEq, Eq, Structural)]
pub enum Capability {
    TestConnection,
    Discover,
    Describe,
    Read,
    Insert,
    Update,
    Upsert,
    Delete,
    Batch,
    TextSearch,
    VectorSearch,
    NativeQuery,
    NativeExecute,
}

/// How mature a connector is.
#[derive(Debug, Clone, Copy, PartialEq, Eq, Structural)]
pub enum ConnectorStatus {
    Experimental,
}

/// What became of a write.
#[derive(Debug, Clone, Copy, PartialEq, Eq, Structural)]
pub enum WriteOutcome {
    NotApplicable,
    Succeeded,
}

/// What a connector says of itself.
#[derive(Debug)]
pub struct ConnectorManifest {
    pub id: String,
    pub display_name: String,
    pub product: Product,
    pub api_mode: String,
    pub driver: String,
    pub driver_version: String,
    pub status: ConnectorStatus,
    pub capabilities: Vec<Capability>,
    pub auth_kinds: Vec<AuthKind>,
    pub limitations: Vec<String>,
}

impl ConnectorManifest {
    /// Whether the manifest names a capability.
    pub fn supports(&self, capability: Capability) -> (result: bool)
        ensures
            result == self.capabilities@.contains(capability),
    {
        let mut i: usize = 0;
        while i < self.capabilities.len()
            invariant
                i <= self.capabilities@.len(),
                forall|j: int| 0 <= j < i ==> self.capabilities@[j] != capability,
            decreases self.capabilities@.len() - i,
        {
            if self.capabilities[i] == capability {
                return true;
            }
            i = i + 1;
        }
        false
    }
}

/// Texts by name, each name once.
#[derive(Debug)]
pub struct TextFields {
    entries: Vec<(String, String)>,
}

/// The text under `name`.
pub open spec fn field_named(fields: Seq<(Seq<char>, Seq<char>)>, name: Seq<char>) -> Option<
    Seq<char>,
> {
    crate::value::named(fields, name)
}

/// Fields with `content` under `name`.
pub open spec fn with_field(
    fields: Seq<(Seq<char>, Seq<char>)>,
    name: Seq<char>,
    content: Seq<char>,
) -> Seq<(Seq<char>, Seq<char>)>
    decreases fields.len(),
{
    if fields.len() == 0 {
        seq![(name, content)]
    } else if fields[0].0 == name {
        fields.update(0, (name, content))
    } else {
        seq![fields[0]] + with_field(fields.subrange(1, fields.len() as int), name, content)
    }
}

impl View for TextFields {
    type V = Seq<(Seq<char>, Seq<char>)>;

    closed spec fn view(&self) -> Seq<(Seq<char>, Seq<char>)> {
        Seq::new(self.entries@.len(), |i: int| (self.entries@[i].0@, self.entries@[i].1@))
    }
}

/// Entries in front of the place of `name` stay where they are.
proof fn lemma_with_field_skips(
    fields: Seq<(Seq<char>, Seq<char>)>,
    count: int,
    name: Seq<char>,
    content: Seq<char>,
)
    requires
        0 <= count <= fields.len(),
        forall|i: int| 0 <= i < count ==> (#[trigger] fields[i]).0 != name,
    ensures
        with_field(fields, name, content) == fields.subrange(0, count) + with_field(
            fields.subrange(count, fields.len() as int),
            name,
            content,
        ),
    decreases count,
{
    if count == 0 {
        assert(fields.subrange(0, fields.len() as int) =~= fields);
        assert(fields.subrange(0, 0) + with_field(fields, name, content) =~= with_field(
            fields,
            name,
            content,
        ));
    } else {
        let rest = fields.subrange(1, fields.len() as int);
        assert(fields[0].0 != name);
        assert forall|i: int| 0 <= i < count - 1 implies (#[trigger] rest[i]).0 != name by {
            assert(rest[i] == fields[i + 1]);
        }
        lemma_with_field_skips(rest, count - 1, name, content);
        let tail = with_field(fields.subrange(count, fields.len() as int), name, content);
        assert(rest.subrange(count - 1, rest.len() as int) =~= fields.subrange(
            count,
            fields.len() as int,
        ));
        assert(seq![fields[0]] + (rest.subrange(0, count - 1) + tail) =~= fields.subrange(0, count)
            + tail);
    }
}

impl TextFields {
    /// No name stands twice.
    #[verifier::type_invariant]
    spec fn distinct(self) -> bool {
        forall|i: int, j: int|
            0 <= i < j < self.entries@.len() ==> (#[trigger] self.entries@[i]).0@ != (
            #[trigger] self.entries@[j]).0@
    }

    /// No fields.
    pub fn new() -> (result: TextFields)
        ensures
            result@ == Seq::<(Seq<char>, Seq<char>)>::empty(),
    {
        let result = TextFields { entries: Vec::new() };
        assert(result@ =~= Seq::<(Seq<char>, Seq<char>)>::empty());
        result
    }

    /// The text under a name.
    pub fn get(&self, name: &str) -> (result: Option<&str>)
        ensures
            optional_str(result) == field_named(self@, name@),
    {
        let ghost all = self@;
        let mut i: usize = 0;
        assert(all.subrange(0, all.len() as int) =~= all);
        while i < self.entries.len()
            invariant
                i <= self.entries@.len(),
                all == self@,
                all.len() == self.entries@.len(),
                field_named(all, name@) == field_named(
                    all.subrange(i as int, all.len() as int),
                    name@,
                ),
            decreases self.entries@.len() - i,
        {
            let ghost rest = all.subrange(i as int, all.len() as int);
            assert(rest[0] == all[i as int]);
            assert(rest.subrange(1, rest.len() as int) =~= all.subrange(i + 1, all.len() as int));
            if same(self.entries[i].0.as_str(), name) {
                return Some(self.entries[i].1.as_str());
            }
            i = i + 1;
        }
        None
    }

    /// Puts a text under a name.
    pub fn insert(&mut self, name: String, content: String)
        ensures
            final(self)@ == with_field(old(self)@, name@, content@),
    {
        proof {
            use_type_invariant(&*self);
        }
        let ghost initial = self@;
        let mut entries: Vec<(String, String)> = Vec::new();
        std::mem::swap(&mut entries, &mut self.entries);
        let ghost old_entries = entries@;
        assert(forall|j: int|
            0 <= j < initial.len() ==> #[trigger] initial[j] == (
                old_entries[j].0@,
                old_entries[j].1@,
            ));
        let mut i: usize = 0;
        while i < entries.len() && !same(entries[i].0.as_str(), name.as_str())
            invariant
                i <= entries@.len(),
                entries@ == old_entries,
                forall|j: int| 0 <= j < i ==> (#[trigger] old_entries[j]).0@ != name@,
            decreases entries@.len() - i,
        {
            i = i + 1;
        }
        proof {
            lemma_with_field_skips(initial, i as int, name@, content@);
        }
        let ghost rest = initial.subrange(i as int, initial.len() as int);
        let ghost entry = (name, content);
        if i < entries.len() {
            entries.set(i, (name, content));
            self.entries = entries;
            assert(self@ =~= initial.subrange(0, i as int) + rest.update(0, (entry.0@, entry.1@)));
        } else {
            entries.push((name, content));
            self.entries = entries;
            assert(self@ =~= initial.subrange(0, i as int) + seq![(entry.0@, entry.1@)]);
        }
    }
}

/// Credentials.
#[derive(Debug)]
pub struct SecretMaterial {
    pub kind: AuthKind,
    pub fields: TextFields,
}

/// The parts of an endpoint URL.
#[derive(Debug)]
pub struct Endpoint {
    /// The whole URL.
    pub text: String,
    pub scheme: String,
    pub host: Option<String>,
    pub port: Option<u16>,
    pub path: String,
    pub username: String,
    pub password: Option<String>,
    pub query: Option<String>,
    pub fragment: Option<String>,
    pub cannot_be_a_base: bool,
}

/// How the transport is protected.
#[derive(Debug)]
pub struct TlsConfig {
    pub enabled: bool,
    pub verify_server_certificate: bool,
    pub server_name: Option<String>,
    /// The name of the credential field that holds the CA certificate.
    pub ca_certificate_ref: Option<String>,
    /// The name of the credential field that holds the client certificate.
    pub client_certificate_ref: Option<String>,
}

impl Default for TlsConfig {
    fn default() -> (result: TlsConfig)
        ensures
            result.enabled,
            result.verify_server_certificate,
            result.server_name is None,
            result.ca_certificate_ref is None,
            result.client_certificate_ref is None,
    {
        TlsConfig {
            enabled: true,
            verify_server_certificate: true,
            server_name: None,
            ca_certificate_ref: None,
            client_certificate_ref: None,
        }
    }
}

/// What a connection may be used for.
#[derive(Debug, Clone, Copy)]
pub struct ConnectionPolicy {
    pub max_rows: u32,
    pub max_bytes: u64,
    pub timeout_ms: u64,
    pub max_affected: u64,
    pub allow_native_read: bool,
    pub allow_native_write: bool,
}

/// A saved connection.
#[derive(Debug)]
pub struct ConnectionProfile {
    pub product: Product,
    pub api_mode: String,
    pub endpoint: Endpoint,
    pub database: Option<String>,
    pub auth_kind: AuthKind,
    pub tls: TlsConfig,
    pub policy: ConnectionPolicy,
    /// Settings of single connectors; of two with one name the first counts.
    pub options: Vec<(String, Json)>,
}

/// One request's identity and limits.
#[derive(Debug)]
pub struct ConnectorContext {
    pub request_id: String,
    pub max_rows: u32,
    pub max_bytes: u64,
}

/// The direction of a sort.
#[derive(Debug, Clone, Copy, PartialEq, Eq, Structural)]
pub enum SortDirection {
    Asc,
    Desc,
}

/// A field to sort by.
#[derive(Debug)]
pub struct SortField {
    pub field: String,
    pub direction: SortDirection,
}

/// How much of a result is wanted, and in what order.
#[derive(Debug)]
pub struct QueryOptions {
    pub limit: u32,
    pub cursor: Option<String>,
    pub sort: Vec<SortField>,
    pub timeout_ms: Option<u64>,
}

/// A condition on records.
#[derive(Debug)]
pub enum Filter {
    Eq { field: String, value: DbValue },
    Ne { field: String, value: DbValue },
    Lt { field: String, value: DbValue },
    Lte { field: String, value: DbValue },
    Gt { field: String, value: DbValue },
    Gte { field: String, value: DbValue },
    In { field: String, values: Vec<DbValue> },
    Contains { field: String, value: DbValue },
    And { filters: Vec<Filter> },
    Or { filters: Vec<Filter> },
    Not { filter: Box<Filter> },
}

/// A request for records.
#[derive(Debug)]
pub struct ReadRequest {
    pub target: String,
    pub fields: Vec<String>,
    pub filter: Option<Filter>,
    pub options: QueryOptions,
}

/// A request to add records.
#[derive(Debug)]
pub struct InsertRequest {
    pub target: String,
    pub records: Vec<DbRecord>,
    pub idempotency_key: Option<String>,
}

/// A request to change records.
#[derive(Debug)]
pub struct UpdateRequest {
    pub target: String,
    pub filter: Filter,
    pub changes: DbRecord,
    pub max_affected: u64,
    pub idempotency_key: Option<String>,
}

/// A request to remove records.
#[derive(Debug)]
pub struct DeleteRequest {
    pub target: String,
    pub filter: Filter,
    pub max_affected: u64,
    pub idempotency_key: Option<String>,
}

/// A search in a connector's own query form.
#[derive(Debug)]
pub struct SearchRequest {
    pub target: String,
    pub query: Json,
    pub options: QueryOptions,
}

/// A search for the nearest vectors.
#[derive(Debug)]
pub struct VectorSearchRequest {
    pub target: String,
    pub vector: Vec<Double>,
    pub top_k: u32,
    /// A condition in the product's own form.
    pub filter: Option<Json>,
    pub namespace: Option<String>,
    pub include_vectors: bool,
}

/// A vector with its identity and what belongs to it.
#[derive(Debug)]
pub struct VectorPoint {
    pub id: String,
    pub vector: Vec<Double>,
    pub metadata: DbRecord,
}

/// A request to add or replace vectors.
#[derive(Debug)]
pub struct VectorUpsertRequest {
    pub target: String,
    pub points: Vec<VectorPoint>,
    pub namespace: Option<String>,
    pub idempotency_key: Option<String>,
}

/// A request in the database's own language.
#[derive(Debug)]
pub struct NativeRequest {
    pub language: String,
    pub statement: String,
    pub parameters: DbRecord,
    pub positional_parameters: Vec<DbValue>,
    pub max_affected: Option<u64>,
}

/// An operation on data.
#[derive(Debug)]
pub enum DataOperation {
    Read(ReadRequest),
    Insert(InsertRequest),
    Update(UpdateRequest),
    Delete(DeleteRequest),
    Search(SearchRequest),
    VectorSearch(VectorSearchRequest),
    VectorUpsert(VectorUpsertRequest),
    NativeQuery(NativeRequest),
    NativeExecute(NativeRequest),
    TimeSeriesQuery,
    TimeSeriesWrite,
}

/// Whether capabilities hold the one that an operation takes. A search is one of texts or of
/// vectors.
pub open spec fn covers(capabilities: Seq<Capability>, operation: DataOperation) -> bool {
    match operation {
        DataOperation::Read(_) => capabilities.contains(Capability::Read),
        DataOperation::Insert(_) => capabilities.contains(Capability::Insert),
        DataOperation::Update(_) => capabilities.contains(Capability::Update),
        DataOperation::Delete(_) => capabilities.contains(Capability::Delete),
        DataOperation::Search(_) => capabilities.contains(Capability::TextSearch)
            || capabilities.contains(Capability::VectorSearch),
        DataOperation::VectorSearch(_) => capabilities.contains(Capability::VectorSearch),
        DataOperation::VectorUpsert(_) => capabilities.contains(Capability::Upsert),
        DataOperation::NativeQuery(_) => capabilities.contains(Capability::NativeQuery),
        DataOperation::NativeExecute(_) => capabilities.contains(Capability::NativeExecute),
        DataOperation::TimeSeriesQuery | DataOperation::TimeSeriesWrite => false,
    }
}

/// A search of the catalog.
#[derive(Debug)]
pub struct CatalogQuery {
    pub pattern: Option<String>,
    pub namespace: Option<String>,
    pub limit: u32,
    pub cursor: Option<String>,
}

/// A table, an index, a collection or the like.
#[derive(Debug)]
pub struct CatalogEntity {
    pub id: String,
    pub namespace: Option<String>,
    pub name: String,
    pub kind: String,
    pub comment: Option<String>,
}

/// What a [`CatalogEntity`] is.
pub struct EntityModel {
    pub id: Seq<char>,
    pub namespace: Option<Seq<char>>,
    pub name: Seq<char>,
    pub kind: Seq<char>,
    pub comment: Option<Seq<char>>,
}

impl View for CatalogEntity {
    type V = EntityModel;

    open spec fn view(&self) -> EntityModel {
        EntityModel {
            id: self.id@,
            namespace: optional_text(self.namespace),
            name: self.name@,
            kind: self.kind@,
            comment: optional_text(self.comment),
        }
    }
}

/// What each of some entities is.
pub open spec fn entities(items: Seq<CatalogEntity>) -> Seq<EntityModel> {
    Seq::new(items.len(), |i: int| items[i]@)
}

/// Adding an entity adds what it is.
pub broadcast proof fn lemma_entities_push(items: Seq<CatalogEntity>, item: CatalogEntity)
    ensures
        #[trigger] entities(items.push(item)) == entities(items).push(item@),
{
    assert(entities(items.push(item)) =~= entities(items).push(item@));
}

/// No entities are no entities.
pub broadcast proof fn lemma_no_entities()
    ensures
        #[trigger] entities(Seq::<CatalogEntity>::empty()) == Seq::<EntityModel>::empty(),
{
    assert(entities(Seq::<CatalogEntity>::empty()) =~= Seq::<EntityModel>::empty());
}

pub broadcast group group_entities {
    lemma_entities_push,
    lemma_no_entities,
}

/// A part of the catalog.
#[derive(Debug)]
pub struct CatalogPage {
    pub entities: Vec<CatalogEntity>,
    pub next_cursor: Option<String>,
}

/// What is known of an entity.
#[derive(Debug)]
pub struct EntityDescription {
    pub entity: CatalogEntity,
    pub fields: Vec<DbRecord>,
    pub metadata: DbRecord,
    pub truncated: bool,
    pub warnings: Vec<String>,
}

/// What a server says of itself.
#[derive(Debug)]
pub struct ConnectionInfo {
    pub product_name: String,
    pub product_version: Option<String>,
    pub api_mode: String,
    pub server_identity: Option<String>,
    pub warnings: Vec<String>,
}

/// What a [`ConnectionInfo`] is.
pub struct InfoModel {
    pub product_name: Seq<char>,
    pub product_version: Option<Seq<char>>,
    pub api_mode: Seq<char>,
    pub server_identity: Option<Seq<char>>,
    pub warnings: Seq<Seq<char>>,
}

impl View for ConnectionInfo {
    type V = InfoModel;

    open spec fn view(&self) -> InfoModel {
        InfoModel {
            product_name: self.product_name@,
            product_version: optional_text(self.product_version),
            api_mode: self.api_mode@,
            server_identity: optional_text(self.server_identity),
            warnings: texts(self.warnings@),
        }
    }
}

/// Whether what a server says of itself is what is expected.
pub open spec fn is_info_result(
    result: Result<ConnectionInfo, ConnectorError>,
    expected: Result<InfoModel, ErrorModel>,
) -> bool {
    match (result, expected) {
        (Ok(info), Ok(wanted)) => info@ == wanted,
        (Err(error), Err(wanted)) => error@ == wanted,
        _ => false,
    }
}

/// What an operation took and gave.
#[derive(Debug, Clone, Copy)]
pub struct ResultMetrics {
    pub elapsed_ms: u64,
    pub returned: u64,
    pub affected: u64,
    pub scanned: Option<u64>,
    pub bytes: Option<u64>,
}

/// The result of an operation.
#[derive(Debug)]
pub struct OperationResult {
    pub request_id: String,
    pub records: Vec<DbRecord>,
    pub next_cursor: Option<String>,
    pub truncated: bool,
    pub warnings: Vec<String>,
    pub metrics: ResultMetrics,
    pub outcome: WriteOutcome,
}

/// What an [`OperationResult`] is.
pub struct ResultModel {
    pub request_id: Seq<char>,
    pub records: Seq<RecordModel>,
    pub next_cursor: Option<Seq<char>>,
    pub truncated: bool,
    pub warnings: Seq<Seq<char>>,
    pub metrics: ResultMetrics,
    pub outcome: WriteOutcome,
}

impl View for OperationResult {
    type V = ResultModel;

    open spec fn view(&self) -> ResultModel {
        ResultModel {
            request_id: self.request_id@,
            records: records(self.records@),
            next_cursor: optional_text(self.next_cursor),
            truncated: self.truncated,
            warnings: texts(self.warnings@),
            metrics: self.metrics,
            outcome: self.outcome,
        }
    }
}

/// Whether a text result is what is expected of it.
pub open spec fn is_text_result(
    result: Result<String, ConnectorError>,
    expected: Result<Seq<char>, ErrorModel>,
) -> bool {
    match (result, expected) {
        (Ok(text), Ok(wanted)) => text@ == wanted,
        (Err(error), Err(wanted)) => error@ == wanted,
        _ => false,
    }
}

/// Whether a result of several texts is what is expected of it.
pub open spec fn is_texts_result(
    result: Result<Vec<String>, ConnectorError>,
    expected: Result<Seq<Seq<char>>, ErrorModel>,
) -> bool {
    match (result, expected) {
        (Ok(list), Ok(wanted)) => texts(list@) == wanted,
        (Err(error), Err(wanted)) => error@ == wanted,
        _ => false,
    }
}

/// Whether a borrowed text result is what is expected of it.
pub open spec fn is_str_result(
    result: Result<&str, ConnectorError>,
    expected: Result<Seq<char>, ErrorModel>,
) -> bool {
    match (result, expected) {
        (Ok(text), Ok(wanted)) => text@ == wanted,
        (Err(error), Err(wanted)) => error@ == wanted,
        _ => false,
    }
}

/// What a catalog page is.
pub struct PageModel {
    pub entities: Seq<EntityModel>,
    pub next_cursor: Option<Seq<char>>,
}

impl View for CatalogPage {
    type V = PageModel;

    open spec fn view(&self) -> PageModel {
        PageModel {
            entities: entities(self.entities@),
            next_cursor: optional_text(self.next_cursor),
        }
    }
}

/// The limits with which a page of the catalog is fetched.
#[derive(Debug, Clone, Copy, PartialEq, Eq, Structural)]
pub struct CatalogFetch {
    pub context_rows: u32,
    pub policy_rows: u32,
    pub limit: u32,
}

/// What an [`EntityDescription`] is.
pub struct DescriptionModel {
    pub entity: EntityModel,
    pub fields: Seq<RecordModel>,
    pub metadata: RecordModel,
    pub truncated: bool,
    pub warnings: Seq<Seq<char>>,
}

impl View for EntityDescription {
    type V = DescriptionModel;

    open spec fn view(&self) -> DescriptionModel {
        DescriptionModel {
            entity: self.entity@,
            fields: records(self.fields@),
            metadata: self.metadata@,
            truncated: self.truncated,
            warnings: texts(self.warnings@),
        }
    }
}

/// Whether a description is what is expected of it.
pub open spec fn is_description_result(
    result: Result<EntityDescription, ConnectorError>,
    expected: Result<DescriptionModel, ErrorModel>,
) -> bool {
    match (result, expected) {
        (Ok(description), Ok(wanted)) => description@ == wanted,
        (Err(error), Err(wanted)) => error@ == wanted,
        _ => false,
    }
}

/// Whether the result of an operation is what is expected of it.
pub open spec fn is_result_of(
    result: Result<OperationResult, ConnectorError>,
    expected: Result<ResultModel, ErrorModel>,
) -> bool {
    match (result, expected) {
        (Ok(outcome), Ok(wanted)) => outcome@ == wanted,
        (Err(error), Err(wanted)) => error@ == wanted,
        _ => false,
    }
}

} // verus!
