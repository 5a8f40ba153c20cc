//! What the HTTP connectors share: checks of requests, limits, results and pages of the catalog.
use crate::budget::{array_bytes, count_fitting, kept_count, larger, smaller, total};
use crate::convert::{
    json_record, json_records, json_to_db_value, json_to_record, json_to_records, json_value,
    NumberStyle,
};
use crate::json::{as_items, as_text, find, items_of, member, optional_json, text_of};
use crate::model::{
    appended, entities, error_of, framed, invalid, invalid_request, is_result_of, is_text_result,
    is_texts_result, protocol, protocol_failure, unsupported, unsupported_request, CatalogEntity,
    CatalogFetch, CatalogPage, CatalogQuery, ConnectionProfile, ConnectorContext, ConnectorError,
    EntityModel, ErrorModel, Filter, NativeRequest, OperationResult, PageModel, Product,
    ResultMetrics, ResultModel, WriteOutcome,
};
use crate::text::{
    borrowed, byte_count, byte_length, characters, contains_control, contains_text, decimal,
    decimal_text, has_char, has_control, names_of, occurs_in, optional_str, optional_text,
    owned_optional, parse_unsigned, same, signed_decimal, signed_decimal_text, texts,
    unsigned_value,
};
use crate::value::{
    before, documents, members, named, records, text_before, values, with_entry, DbRecord, DbValue,
    Json, JsonModel, RecordModel, ValueModel,
};
use vstd::prelude::*;

verus! {

broadcast use {crate::text::group_texts, crate::value::group_models};

/// Whether a text is one of some borrowed ones.
pub fn is_one_of(text: &str, list: &[&str]) -> (result: bool)
    ensures
        result == names_of(list@).contains(text@),
{
    let ghost all = names_of(list@);
    let mut i: usize = 0;
    while i < list.len()
        invariant
            i <= list@.len(),
            all == names_of(list@),
            forall|j: int| 0 <= j < i ==> #[trigger] all[j] != text@,
        decreases list@.len() - i,
    {
        if same(list[i], text) {
            assert(all[i as int] == text@);
            return true;
        }
        i = i + 1;
    }
    false
}

/// The error of a profile that a connector cannot use.
pub open spec fn profile_error(
    profile: ConnectionProfile,
    product: Product,
    api_modes: Seq<Seq<char>>,
) -> Option<ErrorModel> {
    if profile.product != product {
        Some(invalid_request("connection profile product does not match the connector"@))
    } else if !api_modes.contains(profile.api_mode@) {
        Some(invalid_request("unsupported api_mode "@ + profile.api_mode@))
    } else if !(profile.endpoint.scheme@ == "http"@ || profile.endpoint.scheme@ == "https"@)
        || profile.endpoint.host is None {
        Some(
            invalid_request("HTTP connector endpoint must use http or https and include a host"@),
        )
    } else if profile.endpoint.username@.len() > 0 || profile.endpoint.password is Some {
        Some(invalid_request("credentials must not be embedded in the endpoint URL"@))
    } else if profile.endpoint.query is Some || profile.endpoint.fragment is Some {
        Some(invalid_request("endpoint URL must not contain a query or fragment"@))
    } else {
        None
    }
}

/// Refuses a profile that a connector cannot use.
pub fn validate_profile(profile: &ConnectionProfile, product: Product, api_modes: &[&str]) -> (result:
    Result<(), ConnectorError>)
    ensures
        error_of(result) == profile_error(*profile, product, names_of(api_modes@)),
{
    if profile.product != product {
        return Err(invalid("connection profile product does not match the connector"));
    }
    if !is_one_of(profile.api_mode.as_str(), api_modes) {
        let message = appended("unsupported api_mode ", profile.api_mode.as_str());
        return Err(invalid(message.as_str()));
    }
    let scheme = profile.endpoint.scheme.as_str();
    if !(same(scheme, "http") || same(scheme, "https")) || profile.endpoint.host.is_none() {
        return Err(invalid("HTTP connector endpoint must use http or https and include a host"));
    }
    if !profile.endpoint.username.as_str().is_empty() || profile.endpoint.password.is_some() {
        return Err(invalid("credentials must not be embedded in the endpoint URL"));
    }
    if profile.endpoint.query.is_some() || profile.endpoint.fragment.is_some() {
        return Err(invalid("endpoint URL must not contain a query or fragment"));
    }
    Ok(())
}

/// Whether a text can name an index, a collection or the like: a path segment of at most 512
/// bytes.
pub open spec fn is_target(target: Seq<char>) -> bool {
    &&& target.len() > 0
    &&& byte_length(target) <= 512
    &&& !has_control(target)
    &&& !target.contains('/')
    &&& !target.contains('\\')
    &&& !target.contains('?')
    &&& !target.contains('#')
    &&& target != "."@
    &&& target != ".."@
}

/// The error of a text that can name no index, collection or the like.
pub open spec fn target_error(target: Seq<char>) -> Option<ErrorModel> {
    if is_target(target) {
        None
    } else {
        Some(invalid_request("invalid target name"@))
    }
}

/// Refuses a text that can name no index, collection or the like.
pub fn validate_target(target: &str) -> (result: Result<(), ConnectorError>)
    ensures
        error_of(result) == target_error(target@),
{
    if target.is_empty() || byte_count(target) > 512 || contains_control(target) || has_char(
        target,
        '/',
    ) || has_char(target, '\\') || has_char(target, '?') || has_char(target, '#') || same(
        target,
        ".",
    ) || same(target, "..") {
        return Err(invalid("invalid target name"));
    }
    Ok(())
}

/// Whether a character is a letter of ASCII.
pub open spec fn is_letter(c: char) -> bool {
    ('a' <= c && c <= 'z') || ('A' <= c && c <= 'Z')
}

/// Whether a text is a GraphQL identifier.
pub open spec fn is_graphql_name(name: Seq<char>) -> bool {
    &&& name.len() > 0
    &&& name[0] == '_' || is_letter(name[0])
    &&& forall|i: int|
        0 <= i < name.len() ==> #[trigger] name[i] == '_' || is_letter(name[i])
            || crate::text::is_digit(name[i])
}

/// The error of a text that is no GraphQL identifier.
pub open spec fn graphql_name_error(name: Seq<char>) -> Option<ErrorModel> {
    if is_graphql_name(name) {
        None
    } else {
        Some(invalid_request("name is not a valid GraphQL identifier"@))
    }
}

/// Whether a character is a letter of ASCII.
pub fn letter(c: char) -> (result: bool)
    ensures
        result == is_letter(c),
{
    ('a' <= c && c <= 'z') || ('A' <= c && c <= 'Z')
}

/// Whether a text is a GraphQL identifier.
fn graphql_name(name: &str) -> (result: bool)
    ensures
        result == is_graphql_name(name@),
{
    let chars = characters(name);
    if chars.len() == 0 || !(chars[0] == '_' || letter(chars[0])) {
        return false;
    }
    let mut i: usize = 0;
    while i < chars.len()
        invariant
            i <= chars@.len(),
            chars@ == name@,
            forall|j: int|
                0 <= j < i ==> #[trigger] name@[j] == '_' || is_letter(name@[j])
                    || crate::text::is_digit(name@[j]),
        decreases chars@.len() - i,
    {
        let c = chars[i];
        if !(c == '_' || letter(c) || ('0' <= c && c <= '9')) {
            assert(name@[i as int] == c);
            return false;
        }
        i = i + 1;
    }
    true
}

/// Refuses a text that is no GraphQL identifier.
pub fn validate_graphql_name(name: &str) -> (result: Result<(), ConnectorError>)
    ensures
        error_of(result) == graphql_name_error(name@),
{
    if graphql_name(name) {
        Ok(())
    } else {
        Err(invalid("name is not a valid GraphQL identifier"))
    }
}

/// How many rows may be returned, at least one.
pub open spec fn rows_result(
    context: ConnectorContext,
    profile: ConnectionProfile,
    requested: u32,
) -> Result<int, ErrorModel> {
    let limit = smaller(
        smaller(requested as int, context.max_rows as int),
        profile.policy.max_rows as int,
    );
    if limit == 0 {
        Err(invalid_request("result limit must be greater than zero"@))
    } else {
        Ok(limit)
    }
}

/// How many rows may be returned.
pub fn effective_rows(
    context: &ConnectorContext,
    profile: &ConnectionProfile,
    requested: u32,
) -> (result: Result<usize, ConnectorError>)
    ensures
        match (result, rows_result(*context, *profile, requested)) {
            (Ok(limit), Ok(wanted)) => limit == wanted,
            (Err(error), Err(wanted)) => error@ == wanted,
            _ => false,
        },
        result matches Ok(limit) ==> 0 < limit <= u32::MAX,
{
    let bounded: u32 = if requested <= context.max_rows {
        requested
    } else {
        context.max_rows
    };
    let limit: u32 = if bounded <= profile.policy.max_rows {
        bounded
    } else {
        profile.policy.max_rows
    };
    if limit == 0 {
        return Err(invalid("result limit must be greater than zero"));
    }
    Ok(limit as usize)
}

/// How many bytes may be returned.
pub open spec fn byte_limit(context: ConnectorContext, profile: ConnectionProfile) -> u64 {
    if context.max_bytes <= profile.policy.max_bytes {
        context.max_bytes
    } else {
        profile.policy.max_bytes
    }
}

/// How many bytes may be returned.
pub fn effective_bytes(context: &ConnectorContext, profile: &ConnectionProfile) -> (result: u64)
    ensures
        result == byte_limit(*context, *profile),
{
    if context.max_bytes <= profile.policy.max_bytes {
        context.max_bytes
    } else {
        profile.policy.max_bytes
    }
}

/// The error of a write that affects nothing, or more than was declared or is allowed.
pub open spec fn affected_error(profile: ConnectionProfile, declared_max: u64, actual: nat) -> Option<
    ErrorModel,
> {
    if actual == 0 {
        Some(invalid_request("write operation must contain at least one record or id"@))
    } else if declared_max == 0 || declared_max > profile.policy.max_affected {
        Some(invalid_request("max_affected is zero or exceeds the connection policy"@))
    } else if actual > declared_max {
        Some(invalid_request("operation contains more records than max_affected"@))
    } else {
        None
    }
}

/// Refuses a write that affects nothing, or more than was declared or is allowed.
pub fn validate_affected(profile: &ConnectionProfile, declared_max: u64, actual: usize) -> (result:
    Result<(), ConnectorError>)
    ensures
        error_of(result) == affected_error(*profile, declared_max, actual as nat),
{
    if actual == 0 {
        return Err(invalid("write operation must contain at least one record or id"));
    }
    if declared_max == 0 || declared_max > profile.policy.max_affected {
        return Err(invalid("max_affected is zero or exceeds the connection policy"));
    }
    if actual as u64 > declared_max {
        return Err(invalid("operation contains more records than max_affected"));
    }
    Ok(())
}

/// What a finished operation gives besides its records.
#[derive(Debug)]
pub struct Finish {
    pub next_cursor: Option<String>,
    pub affected: u64,
    pub outcome: WriteOutcome,
    pub elapsed_ms: u64,
}

/// The result of an operation: as many of the first records as the limits admit.
pub open spec fn finished(
    context: ConnectorContext,
    profile: ConnectionProfile,
    found: Seq<RecordModel>,
    sizes: Seq<u64>,
    next_cursor: Option<Seq<char>>,
    affected: u64,
    outcome: WriteOutcome,
    elapsed_ms: u64,
) -> Result<ResultModel, ErrorModel> {
    match rows_result(context, profile, context.max_rows) {
        Err(error) => Err(error),
        Ok(limit) => {
            let kept = kept_count(sizes, limit as nat, byte_limit(context, profile));
            Ok(
                ResultModel {
                    request_id: context.request_id@,
                    records: found.subrange(0, kept as int),
                    next_cursor,
                    truncated: kept < found.len() || next_cursor is Some,
                    warnings: Seq::empty(),
                    metrics: ResultMetrics {
                        elapsed_ms,
                        returned: kept as u64,
                        affected,
                        scanned: None,
                        bytes: Some(
                            crate::budget::capped(total(sizes.subrange(0, kept as int))),
                        ),
                    },
                    outcome,
                },
            )
        },
    }
}

/// Makes the result of an operation of the records that it found, whose encoded sizes are given.
pub fn finish_result(
    context: &ConnectorContext,
    profile: &ConnectionProfile,
    found: Vec<DbRecord>,
    sizes: &Vec<u64>,
    finish: Finish,
) -> (result: Result<OperationResult, ConnectorError>)
    requires
        sizes@.len() == found@.len(),
    ensures
        is_result_of(
            result,
            finished(
                *context,
                *profile,
                records(found@),
                sizes@,
                optional_text(finish.next_cursor),
                finish.affected,
                finish.outcome,
                finish.elapsed_ms,
            ),
        ),
{
    let limit: usize = match effective_rows(context, profile, context.max_rows) {
        Err(error) => {
            return Err(error);
        },
        Ok(limit) => limit,
    };
    let (keep, used): (usize, u64) = count_fitting(
        sizes,
        limit,
        effective_bytes(context, profile),
    );
    let mut list = found;
    let truncated = keep < list.len() || finish.next_cursor.is_some();
    let ghost before = records(list@);
    list.truncate(keep);
    assert(records(list@) =~= before.subrange(0, keep as int));
    Ok(
        OperationResult {
            request_id: context.request_id.clone(),
            records: list,
            next_cursor: finish.next_cursor,
            truncated,
            warnings: Vec::new(),
            metrics: ResultMetrics {
                elapsed_ms: finish.elapsed_ms,
                returned: keep as u64,
                affected: finish.affected,
                scanned: None,
                bytes: Some(used),
            },
            outcome: finish.outcome,
        },
    )
}

/// The first entities of the catalog, within a number of entities and of bytes.
pub open spec fn bounded(found: Seq<EntityModel>, sizes: Seq<u64>, rows: int, bytes: int) -> Result<
    Seq<EntityModel>,
    ErrorModel,
> {
    let shown = smaller(rows, found.len() as int);
    if array_bytes(sizes.subrange(0, shown)) > bytes {
        Err(
            invalid_request(
                "catalog result exceeds max_bytes; reduce the catalog limit or narrow the pattern"@,
            ),
        )
    } else {
        Ok(found.subrange(0, shown))
    }
}

/// The first entities of the catalog, within the limits.
pub open spec fn bounded_result(
    context: ConnectorContext,
    profile: ConnectionProfile,
    found: Seq<EntityModel>,
    sizes: Seq<u64>,
    requested: u32,
) -> Result<Seq<EntityModel>, ErrorModel> {
    match rows_result(context, profile, requested) {
        Err(error) => Err(error),
        Ok(limit) => bounded(found, sizes, limit, byte_limit(context, profile) as int),
    }
}

/// Whether entities are what is expected of them.
pub open spec fn is_entities_result(
    result: Result<Vec<CatalogEntity>, ConnectorError>,
    expected: Result<Seq<EntityModel>, ErrorModel>,
) -> bool {
    match (result, expected) {
        (Ok(found), Ok(wanted)) => entities(found@) == wanted,
        (Err(error), Err(wanted)) => error@ == wanted,
        _ => false,
    }
}

/// The first entities of the catalog, within a number of entities and of bytes.
fn take_bounded(found: Vec<CatalogEntity>, sizes: &Vec<u64>, rows: usize, max_bytes: u64) -> (result:
    Result<Vec<CatalogEntity>, ConnectorError>)
    requires
        sizes@.len() == found@.len(),
    ensures
        is_entities_result(
            result,
            bounded(entities(found@), sizes@, rows as int, max_bytes as int),
        ),
{
    let mut output = found;
    let shown: usize = if rows <= output.len() {
        rows
    } else {
        output.len()
    };
    output.truncate(rows);
    assert(entities(output@) =~= entities(found@).subrange(0, shown as int));
    let mut bytes: u64 = 0;
    let mut i: usize = 0;
    assert(sizes@.subrange(0, 0) =~= Seq::<u64>::empty());
    while i < shown
        invariant
            i <= shown <= sizes@.len(),
            bytes == crate::budget::capped(total(sizes@.subrange(0, i as int))),
        decreases shown - i,
    {
        bytes = bytes.saturating_add(sizes[i]);
        assert(sizes@.subrange(0, i + 1).drop_last() =~= sizes@.subrange(0, i as int));
        i = i + 1;
    }
    let commas: u64 = if shown > 0 {
        shown as u64 - 1
    } else {
        0
    };
    let bytes: u64 = bytes.saturating_add(2).saturating_add(commas);
    if bytes > max_bytes {
        return Err(
            invalid(
                "catalog result exceeds max_bytes; reduce the catalog limit or narrow the pattern",
            ),
        );
    }
    Ok(output)
}

/// The first entities of the catalog, whose encoded sizes are given, within the limits.
pub fn bounded_catalog(
    context: &ConnectorContext,
    profile: &ConnectionProfile,
    found: Vec<CatalogEntity>,
    sizes: &Vec<u64>,
    requested: u32,
) -> (result: Result<Vec<CatalogEntity>, ConnectorError>)
    requires
        sizes@.len() == found@.len(),
    ensures
        is_entities_result(
            result,
            bounded_result(*context, *profile, entities(found@), sizes@, requested),
        ),
{
    match effective_rows(context, profile, requested) {
        Err(error) => Err(error),
        Ok(rows) => take_bounded(found, sizes, rows, effective_bytes(context, profile)),
    }
}

/// The offset that a cursor denotes.
pub open spec fn cursor_result(cursor: Option<Seq<char>>) -> Result<int, ErrorModel> {
    match cursor {
        None => Ok(0),
        Some(cursor) => match unsigned_value(cursor) {
            Some(offset) if offset <= usize::MAX => Ok(offset as int),
            _ => Err(invalid_request("cursor is not valid for this connector"@)),
        },
    }
}

/// The offset that a cursor denotes.
pub fn parse_cursor_offset(cursor: Option<&str>) -> (result: Result<usize, ConnectorError>)
    ensures
        match (result, cursor_result(optional_str(cursor))) {
            (Ok(offset), Ok(wanted)) => offset == wanted,
            (Err(error), Err(wanted)) => error@ == wanted,
            _ => false,
        },
{
    let cursor = match cursor {
        None => {
            return Ok(0);
        },
        Some(cursor) => cursor,
    };
    match parse_unsigned(cursor) {
        Some(offset) => {
            if offset <= usize::MAX as u64 {
                return Ok(offset as usize);
            }
        },
        None => {},
    }
    Err(invalid("cursor is not valid for this connector"))
}

/// The page of the catalog that some found entities make: as many as the limit admits, with a
/// cursor for the next page exactly where more were found.
pub open spec fn page_result(
    context: ConnectorContext,
    profile: ConnectionProfile,
    query: CatalogQuery,
    found: Seq<EntityModel>,
) -> Result<PageModel, ErrorModel> {
    match rows_result(context, profile, query.limit) {
        Err(error) => Err(error),
        Ok(limit) => if found.len() <= limit {
            Ok(PageModel { entities: found, next_cursor: None })
        } else {
            match cursor_result(optional_text(query.cursor)) {
                Err(error) => Err(error),
                Ok(offset) => if offset + limit > usize::MAX {
                    Err(invalid_request("catalog cursor offset is too large"@))
                } else {
                    Ok(
                        PageModel {
                            entities: found.subrange(0, limit),
                            next_cursor: Some(decimal((offset + limit) as nat)),
                        },
                    )
                },
            }
        },
    }
}

/// Whether a page is what is expected of it.
pub open spec fn is_page_result(
    result: Result<CatalogPage, ConnectorError>,
    expected: Result<PageModel, ErrorModel>,
) -> bool {
    match (result, expected) {
        (Ok(page), Ok(wanted)) => page@ == wanted,
        (Err(error), Err(wanted)) => error@ == wanted,
        _ => false,
    }
}

/// Makes a page of the catalog.
pub fn catalog_page(
    context: &ConnectorContext,
    profile: &ConnectionProfile,
    query: &CatalogQuery,
    found: Vec<CatalogEntity>,
) -> (result: Result<CatalogPage, ConnectorError>)
    ensures
        is_page_result(result, page_result(*context, *profile, *query, entities(found@))),
{
    let limit: usize = match effective_rows(context, profile, query.limit) {
        Err(error) => {
            return Err(error);
        },
        Ok(limit) => limit,
    };
    let mut shown = found;
    if shown.len() <= limit {
        return Ok(CatalogPage { entities: shown, next_cursor: None });
    }
    shown.truncate(limit);
    assert(entities(shown@) =~= entities(found@).subrange(0, limit as int));
    let offset: usize = match parse_cursor_offset(borrowed(&query.cursor)) {
        Err(error) => {
            return Err(error);
        },
        Ok(offset) => offset,
    };
    match offset.checked_add(limit) {
        None => Err(invalid("catalog cursor offset is too large")),
        Some(next) => Ok(
            CatalogPage { entities: shown, next_cursor: Some(decimal_text(next as u64)) },
        ),
    }
}

/// The limits with which a page is fetched: one more than the page may hold, so that a further
/// entity shows that there is a next page.
pub open spec fn fetch_result(
    context: ConnectorContext,
    profile: ConnectionProfile,
    query: CatalogQuery,
) -> Result<CatalogFetch, ErrorModel> {
    match rows_result(context, profile, query.limit) {
        Err(error) => Err(error),
        Ok(limit) => if limit == u32::MAX {
            Err(invalid_request("catalog limit is too large"@))
        } else {
            Ok(
                CatalogFetch {
                    context_rows: larger(context.max_rows as int, limit + 1) as u32,
                    policy_rows: larger(profile.policy.max_rows as int, limit + 1) as u32,
                    limit: (limit + 1) as u32,
                },
            )
        },
    }
}

/// The limits with which a page of the catalog is fetched.
pub fn catalog_fetch_inputs(
    context: &ConnectorContext,
    profile: &ConnectionProfile,
    query: &CatalogQuery,
) -> (result: Result<CatalogFetch, ConnectorError>)
    ensures
        match (result, fetch_result(*context, *profile, *query)) {
            (Ok(fetch), Ok(wanted)) => fetch == wanted,
            (Err(error), Err(wanted)) => error@ == wanted,
            _ => false,
        },
{
    let output_limit: usize = match effective_rows(context, profile, query.limit) {
        Err(error) => {
            return Err(error);
        },
        Ok(limit) => limit,
    };
    if output_limit >= u32::MAX as usize {
        return Err(invalid("catalog limit is too large"));
    }
    let limit: u32 = output_limit as u32 + 1;
    Ok(
        CatalogFetch {
            context_rows: if context.max_rows >= limit {
                context.max_rows
            } else {
                limit
            },
            policy_rows: if profile.policy.max_rows >= limit {
                profile.policy.max_rows
            } else {
                limit
            },
            limit,
        },
    )
}

/// The page of the catalog that a search with the limits of a fetch makes.
pub open spec fn bounded_page_result(
    context: ConnectorContext,
    profile: ConnectionProfile,
    query: CatalogQuery,
    found: Seq<EntityModel>,
    sizes: Seq<u64>,
) -> Result<PageModel, ErrorModel> {
    match fetch_result(context, profile, query) {
        Err(error) => Err(error),
        Ok(fetch) => match bounded(
            found,
            sizes,
            fetch.limit as int,
            byte_limit(context, profile) as int,
        ) {
            Err(error) => Err(error),
            Ok(shown) => page_result(context, profile, query, shown),
        },
    }
}

/// Makes a page of the catalog of the entities that a search found, whose encoded sizes are given.
/// What is fetched for the page, with the entity that shows a next one, must fit the byte limit.
pub fn bounded_page(
    context: &ConnectorContext,
    profile: &ConnectionProfile,
    query: &CatalogQuery,
    found: Vec<CatalogEntity>,
    sizes: &Vec<u64>,
) -> (result: Result<CatalogPage, ConnectorError>)
    requires
        sizes@.len() == found@.len(),
    ensures
        is_page_result(
            result,
            bounded_page_result(*context, *profile, *query, entities(found@), sizes@),
        ),
{
    let fetch = match catalog_fetch_inputs(context, profile, query) {
        Err(error) => {
            return Err(error);
        },
        Ok(fetch) => fetch,
    };
    match take_bounded(found, sizes, fetch.limit as usize, effective_bytes(context, profile)) {
        Err(error) => Err(error),
        Ok(shown) => catalog_page(context, profile, query, shown),
    }
}

/// A page that was fetched with its limits has a next cursor exactly where the catalog holds more
/// than the page, and the cursor is the offset of the first entity that is left.
pub proof fn lemma_next_cursor_shows_more(
    context: ConnectorContext,
    profile: ConnectionProfile,
    query: CatalogQuery,
    available: Seq<EntityModel>,
)
    requires
        fetch_result(context, profile, query) is Ok,
        cursor_result(optional_text(query.cursor)) is Ok,
    ensures
        ({
            let fetch = fetch_result(context, profile, query)->Ok_0;
            let limit = rows_result(context, profile, query.limit)->Ok_0;
            let offset = cursor_result(optional_text(query.cursor))->Ok_0;
            let fetched = available.subrange(
                0,
                smaller(available.len() as int, fetch.limit as int),
            );
            match page_result(context, profile, query, fetched) {
                Ok(page) => {
                    &&& page.entities == available.subrange(
                        0,
                        smaller(available.len() as int, limit),
                    )
                    &&& page.next_cursor is Some <==> available.len() > limit
                    &&& page.next_cursor matches Some(cursor) ==> cursor_result(Some(cursor))
                        == Ok::<int, ErrorModel>(offset + limit)
                },
                Err(error) => available.len() > limit && offset + limit > usize::MAX,
            }
        }),
{
    let fetch = fetch_result(context, profile, query)->Ok_0;
    let limit = rows_result(context, profile, query.limit)->Ok_0;
    let offset = cursor_result(optional_text(query.cursor))->Ok_0;
    let fetched = available.subrange(0, smaller(available.len() as int, fetch.limit as int));
    if available.len() > limit {
        assert(fetched.subrange(0, limit) =~= available.subrange(0, limit));
        if offset + limit <= usize::MAX {
            lemma_cursor_round_trip((offset + limit) as usize);
        }
    } else {
        assert(fetched =~= available.subrange(0, available.len() as int));
    }
}

/// The cursor of an offset denotes that offset.
pub proof fn lemma_cursor_round_trip(offset: usize)
    ensures
        cursor_result(Some(decimal(offset as nat))) == Ok::<int, ErrorModel>(offset as int),
{
    crate::text::lemma_decimal_value(offset as nat);
}

/// The identity that a value denotes.
pub open spec fn id_result(value: ValueModel) -> Result<Seq<char>, ErrorModel> {
    match value {
        ValueModel::String(text) => Ok(text),
        ValueModel::Uuid(text) => Ok(text),
        ValueModel::Int64(number) => Ok(signed_decimal(number as int)),
        ValueModel::UInt64(number) => Ok(decimal(number as nat)),
        _ => Err(invalid_request("entity ids must be strings, UUIDs, or integers"@)),
    }
}

/// The identity that a value denotes.
fn id_from_value(value: &DbValue) -> (result: Result<String, ConnectorError>)
    ensures
        is_text_result(result, id_result(value@)),
{
    match value {
        DbValue::String(text) => Ok(text.clone()),
        DbValue::Uuid(text) => Ok(text.clone()),
        DbValue::Int64(number) => Ok(signed_decimal_text(*number)),
        DbValue::UInt64(number) => Ok(decimal_text(*number)),
        _ => Err(invalid("entity ids must be strings, UUIDs, or integers")),
    }
}

/// The identities that values denote.
pub open spec fn ids_result(list: Seq<ValueModel>) -> Result<Seq<Seq<char>>, ErrorModel>
    decreases list.len(),
{
    if list.len() == 0 {
        Ok(Seq::empty())
    } else {
        match ids_result(list.drop_last()) {
            Err(error) => Err(error),
            Ok(ids) => match id_result(list.last()) {
                Err(error) => Err(error),
                Ok(id) => Ok(ids.push(id)),
            },
        }
    }
}

/// Where a value denotes no identity, neither do values that start with it and those before it.
proof fn lemma_ids_fail_early(list: Seq<ValueModel>, count: int)
    requires
        0 <= count <= list.len(),
        ids_result(list.subrange(0, count)) is Err,
    ensures
        ids_result(list) == ids_result(list.subrange(0, count)),
    decreases list.len(),
{
    if count == list.len() {
        assert(list.subrange(0, count) =~= list);
    } else {
        assert(list.drop_last().subrange(0, count) =~= list.subrange(0, count));
        lemma_ids_fail_early(list.drop_last(), count);
    }
}

/// The identities that values denote.
fn ids_from_values(list: &Vec<DbValue>) -> (result: Result<Vec<String>, ConnectorError>)
    ensures
        is_texts_result(result, ids_result(values(list@))),
{
    let ghost all = values(list@);
    let mut ids: Vec<String> = Vec::new();
    let mut i: usize = 0;
    assert(all.subrange(0, 0) =~= Seq::<ValueModel>::empty());
    while i < list.len()
        invariant
            i <= list@.len(),
            all == values(list@),
            ids_result(all.subrange(0, i as int)) == Ok::<Seq<Seq<char>>, ErrorModel>(texts(ids@)),
        decreases list@.len() - i,
    {
        let ghost next = all.subrange(0, i + 1);
        assert(next.drop_last() =~= all.subrange(0, i as int));
        match id_from_value(&list[i]) {
            Err(error) => {
                proof {
                    lemma_ids_fail_early(all, i + 1);
                }
                return Err(error);
            },
            Ok(id) => {
                ids.push(id);
            },
        }
        i = i + 1;
    }
    assert(all.subrange(0, i as int) =~= all);
    Ok(ids)
}

/// The identities that a filter on one of some fields names.
pub open spec fn filter_ids(filter: Filter, fields: Seq<Seq<char>>) -> Result<
    Seq<Seq<char>>,
    ErrorModel,
> {
    match filter {
        Filter::Eq { field, value } if fields.contains(field@) => match id_result(value@) {
            Err(error) => Err(error),
            Ok(id) => Ok(Seq::empty().push(id)),
        },
        Filter::In { field, values: list } if fields.contains(field@) => ids_result(values(list@)),
        _ => Err(
            unsupported_request(
                "bounded delete requires an equality or IN filter on the entity id"@,
            ),
        ),
    }
}

/// The identities that a filter on one of some fields names.
pub fn extract_ids(filter: &Filter, fields: &[&str]) -> (result: Result<
    Vec<String>,
    ConnectorError,
>)
    ensures
        is_texts_result(result, filter_ids(*filter, names_of(fields@))),
{
    match filter {
        Filter::Eq { field, value } => {
            if is_one_of(field.as_str(), fields) {
                return match id_from_value(value) {
                    Err(error) => Err(error),
                    Ok(id) => {
                        let mut ids: Vec<String> = Vec::new();
                        ids.push(id);
                        Ok(ids)
                    },
                };
            }
        },
        Filter::In { field, values } => {
            if is_one_of(field.as_str(), fields) {
                return ids_from_values(values);
            }
        },
        _ => {},
    }
    Err(unsupported("bounded delete requires an equality or IN filter on the entity id"))
}

/// The error of a native request in a language that a connector does not take.
pub open spec fn language_error(language: Seq<char>, accepted: Seq<Seq<char>>) -> Option<
    ErrorModel,
> {
    if accepted.contains(language) {
        None
    } else {
        Some(unsupported_request("native language "@ + language + " is not supported"@))
    }
}

/// Refuses a native request in a language that a connector does not take.
pub fn ensure_language(language: &str, accepted: &[&str]) -> (result: Result<(), ConnectorError>)
    ensures
        error_of(result) == language_error(language@, names_of(accepted@)),
{
    if is_one_of(language, accepted) {
        Ok(())
    } else {
        let message = framed("native language ", language, " is not supported");
        Err(unsupported(message.as_str()))
    }
}

/// The error of a native request with parameters beside its statement.
pub open spec fn parameters_error(request: NativeRequest) -> Option<ErrorModel> {
    if request.parameters@.len() == 0 && request.positional_parameters@.len() == 0 {
        None
    } else {
        Some(
            invalid_request(
                "native HTTP envelopes carry parameters in their JSON body; separate parameters are not supported"@,
            ),
        )
    }
}

/// Refuses a native request with parameters beside its statement.
pub fn validate_native_parameters(request: &NativeRequest) -> (result: Result<(), ConnectorError>)
    ensures
        error_of(result) == parameters_error(*request),
{
    if request.parameters.len() == 0 && request.positional_parameters.len() == 0 {
        Ok(())
    } else {
        Err(
            invalid(
                "native HTTP envelopes carry parameters in their JSON body; separate parameters are not supported",
            ),
        )
    }
}

/// The items of the member `name`.
pub open spec fn list_in(document: JsonModel, name: Seq<char>) -> Option<Seq<JsonModel>> {
    items_of(member(document, name))
}

/// The items of the member `name`.
pub fn find_list<'a>(document: &'a Json, name: &str) -> (result: Option<&'a Vec<Json>>)
    ensures
        match result {
            Some(items) => list_in(document@, name@) == Some(documents(items@)),
            None => list_in(document@, name@) is None,
        },
{
    as_items(document.get(name))
}

/// The member `inner` of the member `outer`.
pub open spec fn nested(document: JsonModel, outer: Seq<char>, inner: Seq<char>) -> Option<
    JsonModel,
> {
    match member(document, outer) {
        Some(document) => member(document, inner),
        None => None,
    }
}

/// The member `inner` of the member `outer`.
pub fn find_nested<'a>(document: &'a Json, outer: &str, inner: &str) -> (result: Option<&'a Json>)
    ensures
        optional_json(result) == nested(document@, outer@, inner@),
{
    match document.get(outer) {
        Some(document) => document.get(inner),
        None => None,
    }
}

/// The records of a document of no particular form: those of a list that it is or holds under a
/// usual name, or the document itself.
pub open spec fn generic_records(document: JsonModel) -> Seq<RecordModel> {
    if let JsonModel::Array(items) = document {
        json_records(items)
    } else if let Some(items) = list_in(document, "results"@) {
        json_records(items)
    } else if let Some(items) = list_in(document, "records"@) {
        json_records(items)
    } else if let Some(items) = list_in(document, "items"@) {
        json_records(items)
    } else if let Some(items) = list_in(document, "data"@) {
        json_records(items)
    } else if let Some(items) = items_of(nested(document, "hits"@, "hits"@)) {
        json_records(items)
    } else {
        Seq::empty().push(json_record(document))
    }
}

/// The records of a document of no particular form.
pub fn records_from_generic_json(document: &Json) -> (result: Vec<DbRecord>)
    ensures
        records(result@) == generic_records(document@),
{
    match document {
        Json::Array(items) => {
            return json_to_records(items);
        },
        _ => {},
    }
    match find_list(document, "results") {
        Some(items) => {
            return json_to_records(items);
        },
        None => {},
    }
    match find_list(document, "records") {
        Some(items) => {
            return json_to_records(items);
        },
        None => {},
    }
    match find_list(document, "items") {
        Some(items) => {
            return json_to_records(items);
        },
        None => {},
    }
    match find_list(document, "data") {
        Some(items) => {
            return json_to_records(items);
        },
        None => {},
    }
    match as_items(find_nested(document, "hits", "hits")) {
        Some(items) => {
            return json_to_records(items);
        },
        None => {},
    }
    let mut result: Vec<DbRecord> = Vec::new();
    result.push(json_to_record(document));
    result
}

/// No operation returns more records or bytes than the request and the connection's policy admit,
/// and it says so where it left any out.
pub proof fn lemma_results_stay_within_limits(
    context: ConnectorContext,
    profile: ConnectionProfile,
    found: Seq<RecordModel>,
    sizes: Seq<u64>,
    next_cursor: Option<Seq<char>>,
    affected: u64,
    outcome: WriteOutcome,
    elapsed_ms: u64,
)
    requires
        sizes.len() == found.len(),
        finished(
            context,
            profile,
            found,
            sizes,
            next_cursor,
            affected,
            outcome,
            elapsed_ms,
        ) is Ok,
    ensures
        ({
            let result = finished(
                context,
                profile,
                found,
                sizes,
                next_cursor,
                affected,
                outcome,
                elapsed_ms,
            )->Ok_0;
            let kept = result.records.len();
            &&& kept <= context.max_rows
            &&& kept <= profile.policy.max_rows
            &&& byte_limit(context, profile) < u64::MAX ==> total(sizes.subrange(0, kept as int))
                <= byte_limit(context, profile)
            &&& result.records == found.subrange(0, kept as int)
            &&& result.truncated <==> kept < found.len() || next_cursor is Some
        }),
{
    let limit = rows_result(context, profile, context.max_rows)->Ok_0;
    let bound = smaller(limit, sizes.len() as int);
    let shown = sizes.subrange(0, bound);
    let budget = byte_limit(context, profile);
    crate::budget::lemma_fitting(shown, budget);
    let kept = crate::budget::fitting(shown, budget);
    assert(shown.subrange(0, kept as int) =~= sizes.subrange(0, kept as int));
}

/// Entities in the order of their names with one more: behind those whose names do not follow its
/// own.
pub open spec fn placed(list: Seq<EntityModel>, item: EntityModel) -> Seq<EntityModel>
    decreases list.len(),
{
    if list.len() > 0 && text_before(item.name, list.last().name) {
        placed(list.drop_last(), item).push(list.last())
    } else {
        list.push(item)
    }
}

/// Entities in the order of their names; those of one name as they stood.
pub open spec fn by_name(list: Seq<EntityModel>) -> Seq<EntityModel>
    decreases list.len(),
{
    if list.len() == 0 {
        Seq::empty()
    } else {
        placed(by_name(list.drop_last()), list.last())
    }
}

/// Where an entity is placed.
proof fn lemma_placed_at(list: Seq<EntityModel>, item: EntityModel, place: int)
    requires
        0 <= place <= list.len(),
        place > 0 ==> !text_before(item.name, list[place - 1].name),
        forall|i: int| place <= i < list.len() ==> text_before(item.name, (#[trigger] list[i]).name),
    ensures
        placed(list, item) == list.insert(place, item),
    decreases list.len(),
{
    if place < list.len() {
        assert(text_before(item.name, list[list.len() - 1].name));
        lemma_placed_at(list.drop_last(), item, place);
        assert(list.insert(place, item) =~= list.drop_last().insert(place, item).push(
            list.last(),
        ));
    } else {
        assert(list.insert(place, item) =~= list.push(item));
    }
}

/// Puts entities into the order of their names.
pub fn sort_by_name(list: Vec<CatalogEntity>) -> (result: Vec<CatalogEntity>)
    ensures
        entities(result@) == by_name(entities(list@)),
{
    let ghost all = entities(list@);
    let mut rest = list;
    let mut sorted: Vec<CatalogEntity> = Vec::new();
    let length: usize = rest.len();
    let mut i: usize = 0;
    assert(all.subrange(0, 0) =~= Seq::<EntityModel>::empty());
    while i < length
        invariant
            i <= length,
            length == all.len(),
            rest@.len() == length - i,
            forall|j: int| 0 <= j < rest@.len() ==> (#[trigger] rest@[j])@ == all[i + j],
            entities(sorted@) == by_name(all.subrange(0, i as int)),
            sorted@.len() == i,
        decreases length - i,
    {
        let item = rest.remove(0);
        assert(item@ == all[i as int]);
        let ghost before_it = entities(sorted@);
        let mut place: usize = sorted.len();
        while place > 0 && before(item.name.as_str(), sorted[place - 1].name.as_str())
            invariant
                place <= sorted@.len(),
                before_it == entities(sorted@),
                forall|j: int|
                    place <= j < before_it.len() ==> text_before(
                        item.name@,
                        (#[trigger] before_it[j]).name,
                    ),
            decreases place,
        {
            place = place - 1;
        }
        proof {
            lemma_placed_at(before_it, item@, place as int);
        }
        let ghost added = item@;
        sorted.insert(place, item);
        assert(entities(sorted@) =~= before_it.insert(place as int, added));
        assert(all.subrange(0, i + 1).drop_last() =~= all.subrange(0, i as int));
        i = i + 1;
    }
    assert(all.subrange(0, i as int) =~= all);
    sorted
}

/// Whether no entity stands behind one whose name follows its own.
pub open spec fn names_ascend(list: Seq<EntityModel>) -> bool {
    forall|i: int, j: int|
        0 <= i < j < list.len() ==> !text_before((#[trigger] list[j]).name, (
        #[trigger] list[i]).name)
}

/// Placing an entity keeps the order of the names and adds just that entity.
proof fn lemma_placed_keeps_order(list: Seq<EntityModel>, item: EntityModel)
    requires
        names_ascend(list),
    ensures
        names_ascend(placed(list, item)),
        placed(list, item).to_multiset() == list.to_multiset().insert(item),
        placed(list, item).len() == list.len() + 1,
        forall|i: int|
            0 <= i < placed(list, item).len() ==> (#[trigger] placed(list, item)[i] == item
                || list.contains(placed(list, item)[i])),
    decreases list.len(),
{
    broadcast use vstd::seq_lib::group_to_multiset_ensures;

    if list.len() > 0 && text_before(item.name, list.last().name) {
        let shorter = list.drop_last();
        let last = list.last();
        lemma_placed_keeps_order(shorter, item);
        assert(list =~= shorter.push(last));
        let inner = placed(shorter, item);
        crate::value::lemma_before_irreflexive(item.name);
        assert forall|i: int| 0 <= i < inner.len() implies !text_before(
            last.name,
            (#[trigger] inner[i]).name,
        ) && list.contains(inner[i]) || inner[i] == item by {
            if inner[i] != item {
                let k = choose|k: int| 0 <= k < shorter.len() && shorter[k] == inner[i];
                assert(list[k] == inner[i]);
                assert(list[list.len() - 1] == last);
            }
        }
        assert forall|i: int| 0 <= i < inner.len() implies !text_before(
            last.name,
            (#[trigger] inner[i]).name,
        ) by {
            if inner[i] == item && text_before(last.name, item.name) {
                crate::value::lemma_before_transitive(item.name, last.name, item.name);
            }
        }
        let all = placed(list, item);
        assert(all == inner.push(last));
        assert(all[all.len() - 1] == list[list.len() - 1]);
    } else {
        let all = placed(list, item);
        assert forall|i: int, j: int| 0 <= i < j < all.len() implies !text_before(
            (#[trigger] all[j]).name,
            (#[trigger] all[i]).name,
        ) by {
            if j == list.len() {
                assert(all[i] == list[i]);
                assert(all[j] == item);
                let last = list.last();
                if text_before(item.name, list[i].name) {
                    if i < list.len() - 1 {
                        assert(!text_before(list[list.len() - 1].name, list[i].name));
                        crate::value::lemma_before_total(list[i].name, last.name);
                        if text_before(list[i].name, last.name) {
                            crate::value::lemma_before_transitive(
                                item.name,
                                list[i].name,
                                last.name,
                            );
                        }
                    }
                }
            }
        }
        assert forall|i: int| 0 <= i < all.len() implies (#[trigger] all[i] == item
            || list.contains(all[i])) by {
            if i < list.len() {
                assert(all[i] == list[i]);
            }
        }
    }
}

/// Sorting entities gives the same entities in the order of their names.
pub proof fn lemma_sorted_by_name(list: Seq<EntityModel>)
    ensures
        names_ascend(by_name(list)),
        by_name(list).to_multiset() == list.to_multiset(),
        by_name(list).len() == list.len(),
    decreases list.len(),
{
    broadcast use vstd::seq_lib::group_to_multiset_ensures;

    if list.len() > 0 {
        lemma_sorted_by_name(list.drop_last());
        lemma_placed_keeps_order(by_name(list.drop_last()), list.last());
        assert(list =~= list.drop_last().push(list.last()));
    } else {
        assert(list =~= Seq::empty());
    }
}

/// The entities behind the first `offset`.
pub open spec fn skipped(list: Seq<EntityModel>, offset: int) -> Seq<EntityModel> {
    if offset <= list.len() {
        list.subrange(offset, list.len() as int)
    } else {
        Seq::empty()
    }
}

/// The entities behind the first `offset`.
pub fn skip_entities(list: Vec<CatalogEntity>, offset: usize) -> (result: Vec<CatalogEntity>)
    ensures
        entities(result@) == skipped(entities(list@), offset as int),
{
    let mut rest = list;
    if offset > rest.len() {
        let result: Vec<CatalogEntity> = Vec::new();
        assert(entities(result@) =~= Seq::<EntityModel>::empty());
        return result;
    }
    let result = rest.split_off(offset);
    assert(entities(result@) =~= skipped(entities(list@), offset as int));
    result
}

/// A fetch with the limits of a page may return one entity more than the page may hold.
pub proof fn lemma_fetch_shows_one_more(
    context: ConnectorContext,
    profile: ConnectionProfile,
    query: CatalogQuery,
)
    requires
        fetch_result(context, profile, query) is Ok,
    ensures
        ({
            let fetch = fetch_result(context, profile, query)->Ok_0;
            smaller(
                smaller(fetch.limit as int, fetch.context_rows as int),
                fetch.policy_rows as int,
            ) == rows_result(context, profile, query.limit)->Ok_0 + 1
        }),
{
}

/// The text of a connection's setting.
pub open spec fn text_option(profile: ConnectionProfile, name: Seq<char>) -> Option<Seq<char>> {
    text_of(named(members(profile.options@), name))
}

/// The text of a connection's setting.
pub fn find_text_option<'a>(profile: &'a ConnectionProfile, name: &str) -> (result: Option<
    &'a str,
>)
    ensures
        optional_str(result) == text_option(*profile, name@),
{
    as_text(find(&profile.options, name))
}

/// A record with those members of a document that it has of some names.
pub open spec fn with_members(
    record: RecordModel,
    document: JsonModel,
    wanted: Seq<Seq<char>>,
) -> RecordModel
    decreases wanted.len(),
{
    if wanted.len() == 0 {
        record
    } else {
        let before = with_members(record, document, wanted.drop_last());
        match member(document, wanted.last()) {
            Some(value) => with_entry(
                before,
                wanted.last(),
                json_value(NumberStyle::Double, value),
            ),
            None => before,
        }
    }
}

/// Puts those members of a document into a record that it has of some names.
pub fn add_members(record: DbRecord, document: &Json, wanted: &[&str]) -> (result: DbRecord)
    ensures
        result@ == with_members(record@, document@, names_of(wanted@)),
{
    let ghost all = names_of(wanted@);
    let ghost initial = record@;
    let mut record = record;
    let mut i: usize = 0;
    assert(all.subrange(0, 0) =~= Seq::<Seq<char>>::empty());
    while i < wanted.len()
        invariant
            i <= wanted@.len(),
            all == names_of(wanted@),
            record@ == with_members(initial, document@, all.subrange(0, i as int)),
        decreases wanted@.len() - i,
    {
        assert(all.subrange(0, i + 1).drop_last() =~= all.subrange(0, i as int));
        match document.get(wanted[i]) {
            Some(value) => {
                record.insert(wanted[i].to_owned(), json_to_db_value(NumberStyle::Double, value));
            },
            None => {},
        }
        i = i + 1;
    }
    assert(all.subrange(0, i as int) =~= all);
    record
}

/// The record of an object that keeps its content in one member and further facts in others.
pub open spec fn content_record(
    document: JsonModel,
    content: Seq<char>,
    further: Seq<Seq<char>>,
) -> RecordModel {
    with_members(
        match member(document, content) {
            Some(inner) => json_record(inner),
            None => Seq::empty(),
        },
        document,
        further,
    )
}

/// The record of an object that keeps its content in one member and further facts in others.
pub fn read_content_record(document: &Json, content: &str, further: &[&str]) -> (result: DbRecord)
    ensures
        result@ == content_record(document@, content@, names_of(further@)),
{
    let record = match document.get(content) {
        Some(inner) => json_to_record(inner),
        None => DbRecord::new(),
    };
    add_members(record, document, further)
}

/// The value of a member, null where there is none.
pub open spec fn member_value(document: JsonModel, name: Seq<char>) -> ValueModel {
    match member(document, name) {
        Some(value) => json_value(NumberStyle::Double, value),
        None => ValueModel::Null,
    }
}

/// The value of a member, null where there is none.
pub fn read_member_value(document: &Json, name: &str) -> (result: DbValue)
    ensures
        result@ == member_value(document@, name@),
{
    match document.get(name) {
        Some(value) => json_to_db_value(NumberStyle::Double, value),
        None => DbValue::Null,
    }
}

/// How many of the first records fit into the limits: an error where there are some and not even
/// the first fits.
pub open spec fn prefix_result(sizes: Seq<u64>, limit: nat, budget: u64, message: Seq<char>) -> Result<
    nat,
    ErrorModel,
> {
    let kept = kept_count(sizes, limit, budget);
    if sizes.len() > 0 && limit > 0 && kept == 0 {
        Err(invalid_request(message))
    } else {
        Ok(kept)
    }
}

/// How many of the first records fit into the limits.
pub fn fitting_prefix(sizes: &Vec<u64>, limit: usize, budget: u64, message: &str) -> (result: Result<
    usize,
    ConnectorError,
>)
    ensures
        match (result, prefix_result(sizes@, limit as nat, budget, message@)) {
            (Ok(kept), Ok(wanted)) => kept == wanted && kept <= sizes@.len() && kept <= limit,
            (Err(error), Err(wanted)) => error@ == wanted,
            _ => false,
        },
{
    let (kept, _): (usize, u64) = count_fitting(sizes, limit, budget);
    proof {
        let bound = smaller(limit as int, sizes@.len() as int);
        crate::budget::lemma_fitting(sizes@.subrange(0, bound), budget);
    }
    if sizes.len() > 0 && limit > 0 && kept == 0 {
        return Err(invalid(message));
    }
    Ok(kept)
}

/// The result of a read that keeps the first `kept` records.
pub open spec fn finished_prefix(
    context: ConnectorContext,
    profile: ConnectionProfile,
    found: Seq<RecordModel>,
    sizes: Seq<u64>,
    kept: nat,
    next_cursor: Option<Seq<char>>,
    truncated: bool,
    elapsed_ms: u64,
) -> Result<ResultModel, ErrorModel> {
    match finished(
        context,
        profile,
        found.subrange(0, kept as int),
        sizes.subrange(0, kept as int),
        next_cursor,
        0,
        WriteOutcome::NotApplicable,
        elapsed_ms,
    ) {
        Err(error) => Err(error),
        Ok(result) => Ok(ResultModel { truncated: result.truncated || truncated, ..result }),
    }
}

/// Makes the result of a read that keeps the first `kept` records.
pub fn finish_prefix(
    context: &ConnectorContext,
    profile: &ConnectionProfile,
    found: Vec<DbRecord>,
    sizes: Vec<u64>,
    kept: usize,
    next_cursor: Option<String>,
    truncated: bool,
    elapsed_ms: u64,
) -> (result: Result<OperationResult, ConnectorError>)
    requires
        sizes@.len() == found@.len(),
        kept <= sizes@.len(),
    ensures
        is_result_of(
            result,
            finished_prefix(
                *context,
                *profile,
                records(found@),
                sizes@,
                kept as nat,
                optional_text(next_cursor),
                truncated,
                elapsed_ms,
            ),
        ),
{
    let mut list = found;
    let mut lengths = sizes;
    list.truncate(kept);
    lengths.truncate(kept);
    assert(records(list@) =~= records(found@).subrange(0, kept as int));
    assert(lengths@ =~= sizes@.subrange(0, kept as int));
    let finish = Finish {
        next_cursor,
        affected: 0,
        outcome: WriteOutcome::NotApplicable,
        elapsed_ms,
    };
    match finish_result(context, profile, list, &lengths, finish) {
        Err(error) => Err(error),
        Ok(result) => {
            let mut result = result;
            result.truncated = result.truncated || truncated;
            Ok(result)
        },
    }
}

/// The result of a read that needs no cursor.
pub open spec fn finished_read(
    context: ConnectorContext,
    profile: ConnectionProfile,
    found: Seq<RecordModel>,
    sizes: Seq<u64>,
    elapsed_ms: u64,
) -> Result<ResultModel, ErrorModel> {
    finished(context, profile, found, sizes, None, 0, WriteOutcome::NotApplicable, elapsed_ms)
}

/// Makes the result of a read that needs no cursor.
pub fn finish_read(
    context: &ConnectorContext,
    profile: &ConnectionProfile,
    found: Vec<DbRecord>,
    sizes: &Vec<u64>,
    elapsed_ms: u64,
) -> (result: Result<OperationResult, ConnectorError>)
    requires
        sizes@.len() == found@.len(),
    ensures
        is_result_of(
            result,
            finished_read(*context, *profile, records(found@), sizes@, elapsed_ms),
        ),
{
    let finish = Finish {
        next_cursor: None,
        affected: 0,
        outcome: WriteOutcome::NotApplicable,
        elapsed_ms,
    };
    finish_result(context, profile, found, sizes, finish)
}

/// The result of a write.
pub open spec fn finished_write(
    context: ConnectorContext,
    profile: ConnectionProfile,
    affected: u64,
    elapsed_ms: u64,
) -> Result<ResultModel, ErrorModel> {
    finished(
        context,
        profile,
        Seq::empty(),
        Seq::empty(),
        None,
        affected,
        WriteOutcome::Succeeded,
        elapsed_ms,
    )
}

/// Makes the result of a write.
pub fn finish_write(
    context: &ConnectorContext,
    profile: &ConnectionProfile,
    affected: u64,
    elapsed_ms: u64,
) -> (result: Result<OperationResult, ConnectorError>)
    ensures
        is_result_of(result, finished_write(*context, *profile, affected, elapsed_ms)),
{
    let finish = Finish {
        next_cursor: None,
        affected,
        outcome: WriteOutcome::Succeeded,
        elapsed_ms,
    };
    let sizes: Vec<u64> = Vec::new();
    finish_result(context, profile, Vec::new(), &sizes, finish)
}

/// Where the comment of a catalog entity comes from.
#[derive(Debug)]
pub enum CommentSource {
    Absent,
    /// The same for every entity.
    Fixed(String),
    /// A member of the item.
    Member(&'static str),
    /// A text before a member of a member of the item.
    Labelled { label: &'static str, outer: &'static str, inner: &'static str },
}

/// How the items of a catalog answer are read.
#[derive(Debug)]
pub struct EntitySource {
    pub namespace: &'static str,
    pub kind: &'static str,
    /// The member that holds the name; the item itself where there is none.
    pub name: Option<&'static str>,
    pub comment: CommentSource,
}

/// The comment of a catalog entity.
pub open spec fn item_comment(item: JsonModel, source: CommentSource) -> Option<Seq<char>> {
    match source {
        CommentSource::Absent => None,
        CommentSource::Fixed(comment) => Some(comment@),
        CommentSource::Member(name) => text_of(member(item, name@)),
        CommentSource::Labelled { label, outer, inner } => match text_of(
            nested(item, outer@, inner@),
        ) {
            Some(text) => Some(label@ + text),
            None => None,
        },
    }
}

/// The catalog entity of an item, where it has a name that holds the pattern.
pub open spec fn item_entity(item: JsonModel, source: EntitySource, pattern: Option<Seq<char>>) -> Option<
    EntityModel,
> {
    let name = match source.name {
        Some(key) => text_of(member(item, key@)),
        None => text_of(Some(item)),
    };
    match name {
        None => None,
        Some(name) => if pattern matches Some(pattern) && !occurs_in(pattern, name) {
            None
        } else {
            Some(
                EntityModel {
                    id: name,
                    namespace: Some(source.namespace@),
                    name,
                    kind: source.kind@,
                    comment: item_comment(item, source.comment),
                },
            )
        },
    }
}

/// The catalog entities of items.
pub open spec fn item_entities(
    items: Seq<JsonModel>,
    source: EntitySource,
    pattern: Option<Seq<char>>,
) -> Seq<EntityModel>
    decreases items.len(),
{
    if items.len() == 0 {
        Seq::empty()
    } else {
        let before = item_entities(items.drop_last(), source, pattern);
        match item_entity(items.last(), source, pattern) {
            Some(entity) => before.push(entity),
            None => before,
        }
    }
}

/// The catalog entities of items in the order of their names, from a cursor on.
pub open spec fn found_entities(
    items: Seq<JsonModel>,
    source: EntitySource,
    query: CatalogQuery,
) -> Result<Seq<EntityModel>, ErrorModel> {
    match cursor_result(optional_text(query.cursor)) {
        Err(error) => Err(error),
        Ok(offset) => Ok(
            skipped(by_name(item_entities(items, source, optional_text(query.pattern))), offset),
        ),
    }
}

/// The catalog entity of an item.
fn read_entity(item: &Json, source: &EntitySource, pattern: Option<&str>) -> (result: Option<
    CatalogEntity,
>)
    ensures
        match (result, item_entity(item@, *source, optional_str(pattern))) {
            (Some(entity), Some(wanted)) => entity@ == wanted,
            (None, None) => true,
            _ => false,
        },
{
    let name = match source.name {
        Some(key) => as_text(item.get(key)),
        None => as_text(Some(item)),
    };
    let name = match name {
        None => {
            return None;
        },
        Some(name) => name,
    };
    match pattern {
        Some(pattern) => {
            if !contains_text(name, pattern) {
                return None;
            }
        },
        None => {},
    }
    let comment = match &source.comment {
        CommentSource::Absent => None,
        CommentSource::Fixed(comment) => Some(comment.clone()),
        CommentSource::Member(key) => owned_optional(as_text(item.get(key))),
        CommentSource::Labelled { label, outer, inner } => match as_text(
            find_nested(item, outer, inner),
        ) {
            Some(text) => Some(appended(label, text)),
            None => None,
        },
    };
    Some(
        CatalogEntity {
            id: name.to_owned(),
            namespace: Some(source.namespace.to_owned()),
            name: name.to_owned(),
            kind: source.kind.to_owned(),
            comment,
        },
    )
}

/// Reads the catalog entities of items, in the order of their names and from a cursor on.
pub fn read_entities(items: &Vec<Json>, source: &EntitySource, query: &CatalogQuery) -> (result: Result<
    Vec<CatalogEntity>,
    ConnectorError,
>)
    ensures
        is_entities_result(result, found_entities(documents(items@), *source, *query)),
{
    broadcast use crate::model::group_entities;

    let ghost all = documents(items@);
    let ghost pattern = optional_text(query.pattern);
    let mut found: Vec<CatalogEntity> = Vec::new();
    let mut i: usize = 0;
    assert(all.subrange(0, 0) =~= Seq::<JsonModel>::empty());
    while i < items.len()
        invariant
            i <= items@.len(),
            all == documents(items@),
            pattern == optional_text(query.pattern),
            entities(found@) == item_entities(all.subrange(0, i as int), *source, pattern),
        decreases items@.len() - i,
    {
        assert(all.subrange(0, i + 1).drop_last() =~= all.subrange(0, i as int));
        match read_entity(&items[i], source, borrowed(&query.pattern)) {
            Some(entity) => {
                found.push(entity);
            },
            None => {},
        }
        i = i + 1;
    }
    assert(all.subrange(0, i as int) =~= all);
    let sorted = sort_by_name(found);
    match parse_cursor_offset(borrowed(&query.cursor)) {
        Err(error) => Err(error),
        Ok(offset) => Ok(skip_entities(sorted, offset)),
    }
}

/// Whether a catalog query asks for a namespace that a product does not have.
pub open spec fn asks_elsewhere(query: CatalogQuery, namespace: Seq<char>) -> bool {
    optional_text(query.namespace) matches Some(asked) && asked != namespace
}

/// Whether a catalog query asks for a namespace that a product does not have.
pub fn is_elsewhere(query: &CatalogQuery, namespace: &str) -> (result: bool)
    ensures
        result == asks_elsewhere(*query, namespace@),
{
    match &query.namespace {
        Some(asked) => !same(asked.as_str(), namespace),
        None => false,
    }
}

/// The error of a server that is another product than expected.
pub open spec fn mismatch(message: Seq<char>) -> ErrorModel {
    ErrorModel { code: Some("product_mismatch"@), ..protocol_failure(message) }
}

/// The error of a server that is another product than expected.
pub fn mismatch_error(message: &str) -> (result: ConnectorError)
    ensures
        result@ == mismatch(message@),
{
    protocol(message).with_code("product_mismatch")
}

/// Whether records are what is expected of them.
pub open spec fn is_records_result(
    result: Result<Vec<DbRecord>, ConnectorError>,
    expected: Result<Seq<RecordModel>, ErrorModel>,
) -> bool {
    match (result, expected) {
        (Ok(found), Ok(wanted)) => records(found@) == wanted,
        (Err(error), Err(wanted)) => error@ == wanted,
        _ => false,
    }
}

/// A result keeps whole what was cut to the limits before.
pub proof fn lemma_prefix_is_kept(
    context: ConnectorContext,
    profile: ConnectionProfile,
    found: Seq<RecordModel>,
    sizes: Seq<u64>,
    limit: nat,
)
    requires
        sizes.len() <= found.len(),
        limit <= context.max_rows,
        limit <= profile.policy.max_rows,
    ensures
        ({
            let kept = kept_count(sizes, limit, byte_limit(context, profile));
            &&& kept <= sizes.len()
            &&& kept <= limit
            &&& kept_count(
                sizes.subrange(0, kept as int),
                smaller(context.max_rows as int, profile.policy.max_rows as int) as nat,
                byte_limit(context, profile),
            ) == kept
            &&& found.subrange(0, kept as int).subrange(0, kept as int) == found.subrange(
                0,
                kept as int,
            )
        }),
{
    let budget = byte_limit(context, profile);
    let bound = if limit <= sizes.len() {
        limit as int
    } else {
        sizes.len() as int
    };
    let shown = sizes.subrange(0, bound);
    crate::budget::lemma_fitting_again(shown, budget);
    let kept = kept_count(sizes, limit, budget) as int;
    assert(shown.subrange(0, kept) =~= sizes.subrange(0, kept));
    assert(sizes.subrange(0, kept).subrange(0, kept) =~= sizes.subrange(0, kept));
    assert(found.subrange(0, kept).subrange(0, kept) =~= found.subrange(0, kept));
}

} // verus!
