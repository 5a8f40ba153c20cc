//! What becomes of identities, limits, answers and failures, whatever the product.
use crate::base_laws::lemma_entries_are_found;
use crate::budget::{kept_count, lemma_fitting, total};
use crate::convert::{json_record, json_value, NumberStyle};
use crate::encoding::parsed_json;
use crate::http::common::{
    affected_error, asks_elsewhere, bounded, by_name, byte_limit, content_record, cursor_result,
    filter_ids, finished, found_entities, generic_records, id_result, ids_result, item_entities,
    item_entity, language_error, lemma_sorted_by_name, names_ascend, page_result, parameters_error,
    rows_result, target_error, with_members, CommentSource, EntitySource,
};
use crate::http::transport::{
    request_timeout, response_limit, response_result, status_error, transport_error,
    TransportFailure,
};
use crate::json::{member, text_of};
use crate::model::{
    CatalogQuery, ConnectionProfile, ConnectorContext, EntityModel, ErrorCategory, ErrorModel,
    ErrorPhase, Filter, NativeRequest, WriteOutcome,
};
use crate::text::{
    byte_length, decimal, lemma_decimal_value, occurs_in, optional_text, signed_decimal,
};
use crate::value::{named, values, JsonModel, RecordModel, ValueModel};
use vstd::prelude::*;

verus! {

/// Whether a text is the identity that a value denotes: a text as it is, an integer by its digits.
pub open spec fn identifies(id: Seq<char>, value: ValueModel) -> bool {
    match value {
        ValueModel::String(text) => id == text,
        ValueModel::Uuid(text) => id == text,
        ValueModel::Int64(number) => if number < 0 {
            id == seq!['-'] + decimal((-number) as nat)
        } else {
            id == decimal(number as nat)
        },
        ValueModel::UInt64(number) => id == decimal(number as nat),
        _ => false,
    }
}

/// Texts, UUIDs and integers are identities, and nothing else is.
pub proof fn lemma_identities_are_kept(value: ValueModel)
    ensures
        id_result(value) is Ok <==> value is String || value is Uuid || value is Int64
            || value is UInt64,
        id_result(value) matches Ok(id) ==> identifies(id, value),
{
}

/// Different texts, and different integers, are different identities.
pub proof fn lemma_identities_are_told_apart(value: ValueModel, other: ValueModel)
    ensures
        (value is String && other is String) || (value is Int64 && other is Int64) || (
        value is UInt64 && other is UInt64) ==> (id_result(value) == id_result(other) <==> value
            == other),
{
    if let (ValueModel::UInt64(one), ValueModel::UInt64(two)) = (value, other) {
        lemma_decimal_value(one as nat);
        lemma_decimal_value(two as nat);
    }
    if let (ValueModel::Int64(one), ValueModel::Int64(two)) = (value, other) {
        let ones = if one < 0 {
            (-one) as nat
        } else {
            one as nat
        };
        let twos = if two < 0 {
            (-two) as nat
        } else {
            two as nat
        };
        lemma_decimal_value(ones);
        lemma_decimal_value(twos);
        let left = signed_decimal(one as int);
        let right = signed_decimal(two as int);
        if left == right {
            if one < 0 {
                assert(left[0] == '-');
                assert(left.subrange(1, left.len() as int) =~= decimal(ones));
            } else {
                assert(left[0] == decimal(ones)[0]);
            }
            if two < 0 {
                assert(right[0] == '-');
                assert(right.subrange(1, right.len() as int) =~= decimal(twos));
            } else {
                assert(right[0] == decimal(twos)[0]);
            }
        }
    }
}

/// A list of identities has one for each value, in order; it is refused only where one of the values
/// is no identity.
pub proof fn lemma_lists_of_identities_are_kept(list: Seq<ValueModel>)
    ensures
        ids_result(list) matches Ok(ids) ==> ids.len() == list.len() && forall|i: int|
            0 <= i < ids.len() ==> identifies(#[trigger] ids[i], list[i]),
        ids_result(list) is Err ==> exists|i: int|
            0 <= i < list.len() && id_result(#[trigger] list[i]) is Err,
    decreases list.len(),
{
    if list.len() > 0 {
        let before = list.drop_last();
        lemma_lists_of_identities_are_kept(before);
        lemma_identities_are_kept(list.last());
        if let Ok(ids) = ids_result(list) {
            let shorter = ids_result(before)->Ok_0;
            assert forall|i: int| 0 <= i < ids.len() implies identifies(
                #[trigger] ids[i],
                list[i],
            ) by {
                if i < before.len() {
                    assert(ids[i] == shorter[i]);
                    assert(before[i] == list[i]);
                }
            }
        } else if ids_result(before) is Err {
            let i = choose|i: int| 0 <= i < before.len() && id_result(#[trigger] before[i]) is Err;
            assert(list[i] == before[i]);
        } else {
            assert(list[list.len() - 1] == list.last());
        }
    }
}

/// A filter gives identities only where it asks for those of a field that holds them, and then gives
/// exactly those it asks for.
pub proof fn lemma_filters_name_identities(filter: Filter, fields: Seq<Seq<char>>)
    ensures
        match filter_ids(filter, fields) {
            Ok(ids) => match filter {
                Filter::Eq { field, value } => fields.contains(field@) && ids.len() == 1
                    && identifies(ids[0], value@),
                Filter::In { field, values: list } => {
                    &&& fields.contains(field@)
                    &&& ids.len() == list@.len()
                    &&& forall|i: int|
                        0 <= i < ids.len() ==> identifies(#[trigger] ids[i], values(list@)[i])
                },
                _ => false,
            },
            Err(error) => match filter {
                Filter::Eq { field, value } => !fields.contains(field@) || id_result(value@) is Err,
                Filter::In { field, values: list } => !fields.contains(field@) || exists|i: int|
                    0 <= i < list@.len() && id_result(#[trigger] values(list@)[i]) is Err,
                _ => true,
            },
        },
{
    if let Filter::In { field, values: list } = filter {
        lemma_lists_of_identities_are_kept(values(list@));
    }
    if let Filter::Eq { field, value } = filter {
        lemma_identities_are_kept(value@);
    }
}

/// A write is taken exactly where it changes something and no more than it declares, and declares no
/// more than the policy admits.
pub proof fn lemma_writes_stay_within_their_bounds(
    profile: ConnectionProfile,
    declared: u64,
    actual: nat,
)
    ensures
        affected_error(profile, declared, actual) is None <==> 0 < actual <= declared
            && declared <= profile.policy.max_affected,
{
}

/// A result may hold what the request, the caller and the policy all admit, and at least one record.
pub proof fn lemma_limits_hold_together(
    context: ConnectorContext,
    profile: ConnectionProfile,
    requested: u32,
    rows: int,
)
    ensures
        match rows_result(context, profile, requested) {
            Ok(limit) => 0 < limit && (rows <= limit <==> rows <= requested && rows
                <= context.max_rows && rows <= profile.policy.max_rows),
            Err(error) => requested == 0 || context.max_rows == 0 || profile.policy.max_rows == 0,
        },
        rows <= byte_limit(context, profile) <==> rows <= context.max_bytes && rows
            <= profile.policy.max_bytes,
{
}

/// A result is the first of the records that were found, in their order and as they were found, with
/// what the operation affected and how it ended. It holds all of them where they fit, says where it
/// does not, and tells how many there are.
pub proof fn lemma_results_hold_what_was_found(
    context: ConnectorContext,
    profile: ConnectionProfile,
    found: Seq<RecordModel>,
    sizes: Seq<u64>,
    next_cursor: Option<Seq<char>>,
    affected: u64,
    outcome: WriteOutcome,
    elapsed_ms: u64,
)
    requires
        sizes.len() == found.len(),
        context.max_rows > 0,
        profile.policy.max_rows > 0,
    ensures
        finished(
            context,
            profile,
            found,
            sizes,
            next_cursor,
            affected,
            outcome,
            elapsed_ms,
        ) matches Ok(result) && {
            &&& result.request_id == context.request_id@
            &&& result.records.len() <= found.len()
            &&& forall|i: int|
                0 <= i < result.records.len() ==> #[trigger] result.records[i] == found[i]
            &&& result.metrics.returned == result.records.len()
            &&& result.metrics.affected == affected
            &&& result.metrics.elapsed_ms == elapsed_ms
            &&& result.outcome == outcome
            &&& result.next_cursor == next_cursor
            &&& result.truncated <==> result.records.len() < found.len() || next_cursor is Some
            &&& found.len() <= context.max_rows && found.len() <= profile.policy.max_rows && total(
                sizes,
            ) <= context.max_bytes && total(sizes) <= profile.policy.max_bytes ==> result.records
                == found
        },
{
    let limit = rows_result(context, profile, context.max_rows)->Ok_0;
    let budget = byte_limit(context, profile);
    let shown = sizes.subrange(
        0,
        if limit <= sizes.len() {
            limit
        } else {
            sizes.len() as int
        },
    );
    lemma_fitting(shown, budget);
    if found.len() <= limit && total(sizes) <= budget {
        assert(shown =~= sizes);
        if kept_count(sizes, limit as nat, budget) < sizes.len() {
            crate::budget::lemma_total_grows(
                sizes,
                kept_count(sizes, limit as nat, budget) as int + 1,
            );
        }
        assert(found.subrange(0, found.len() as int) =~= found);
    }
}

/// A page of a catalog is the first entities of those that are left, and its cursor stands where the
/// next one begins.
pub proof fn lemma_pages_follow_each_other(
    context: ConnectorContext,
    profile: ConnectionProfile,
    query: CatalogQuery,
    found: Seq<EntityModel>,
)
    ensures
        page_result(context, profile, query, found) matches Ok(page) ==> {
            &&& page.entities.len() <= found.len()
            &&& page.entities.len() <= query.limit
            &&& page.entities.len() <= context.max_rows
            &&& page.entities.len() <= profile.policy.max_rows
            &&& forall|i: int|
                0 <= i < page.entities.len() ==> #[trigger] page.entities[i] == found[i]
            &&& page.next_cursor is None <==> page.entities.len() == found.len()
            &&& page.next_cursor matches Some(next) ==> cursor_result(
                optional_text(query.cursor),
            ) matches Ok(offset) && next == decimal((offset + page.entities.len()) as nat)
        },
{
}

/// A catalog that is too large is refused, not shortened; one that fits is shown as it is, up to the
/// number that was asked for.
pub proof fn lemma_catalogs_are_shown_whole(
    found: Seq<EntityModel>,
    sizes: Seq<u64>,
    rows: int,
    bytes: int,
)
    requires
        0 <= rows,
        sizes.len() == found.len(),
    ensures
        bounded(found, sizes, rows, bytes) matches Ok(shown) ==> {
            &&& shown.len() <= found.len()
            &&& shown.len() <= rows
            &&& shown.len() == found.len() || shown.len() == rows
            &&& forall|i: int| 0 <= i < shown.len() ==> #[trigger] shown[i] == found[i]
            &&& total(sizes.subrange(0, shown.len() as int)) <= bytes || u64::MAX <= bytes
        },
{
}

/// What an item of a catalog is called.
pub open spec fn called(item: JsonModel, source: EntitySource) -> Option<Seq<char>> {
    match source.name {
        Some(key) => text_of(member(item, key@)),
        None => text_of(Some(item)),
    }
}

/// Whether an item of a catalog is asked for.
pub open spec fn is_wanted(item: JsonModel, source: EntitySource, pattern: Option<Seq<char>>) -> bool {
    called(item, source) matches Some(name) && (pattern matches Some(part) ==> occurs_in(
        part,
        name,
    ))
}

/// Whether an entity is that of an item of a catalog.
pub open spec fn is_entity_of(entity: EntityModel, item: JsonModel, source: EntitySource) -> bool {
    &&& called(item, source) == Some(entity.name)
    &&& entity.id == entity.name
    &&& entity.namespace == Some(source.namespace@)
    &&& entity.kind == source.kind@
    &&& match source.comment {
        CommentSource::Absent => entity.comment is None,
        CommentSource::Fixed(comment) => entity.comment == Some(comment@),
        CommentSource::Member(name) => entity.comment == text_of(member(item, name@)),
        CommentSource::Labelled { label, outer, inner } => entity.comment matches Some(comment)
            ==> comment.subrange(0, label@.len() as int) == label@,
    }
}

/// How many items of a catalog are asked for.
pub open spec fn wanted_count(
    items: Seq<JsonModel>,
    source: EntitySource,
    pattern: Option<Seq<char>>,
) -> nat
    decreases items.len(),
{
    if items.len() == 0 {
        0
    } else {
        wanted_count(items.drop_last(), source, pattern) + if is_wanted(
            items.last(),
            source,
            pattern,
        ) {
            1nat
        } else {
            0
        }
    }
}

/// Whether an entity is that of one of the items of a catalog that are asked for.
pub open spec fn comes_from(
    entity: EntityModel,
    items: Seq<JsonModel>,
    source: EntitySource,
    pattern: Option<Seq<char>>,
) -> bool {
    exists|i: int|
        0 <= i < items.len() && is_wanted(#[trigger] items[i], source, pattern) && is_entity_of(
            entity,
            items[i],
            source,
        )
}

/// Whether an item of a catalog is among some entities.
pub open spec fn is_listed(item: JsonModel, list: Seq<EntityModel>, source: EntitySource) -> bool {
    exists|i: int| 0 <= i < list.len() && is_entity_of(#[trigger] list[i], item, source)
}

/// An item gives an entity exactly where it is asked for, and then its own.
proof fn lemma_item(item: JsonModel, source: EntitySource, pattern: Option<Seq<char>>)
    ensures
        item_entity(item, source, pattern) is Some <==> is_wanted(item, source, pattern),
        item_entity(item, source, pattern) matches Some(entity) ==> is_entity_of(
            entity,
            item,
            source,
        ),
{
    if let Some(entity) = item_entity(item, source, pattern) {
        if let CommentSource::Labelled { label, outer, inner } = source.comment {
            if let Some(comment) = entity.comment {
                let text = text_of(crate::http::common::nested(item, outer@, inner@))->0;
                assert(comment == label@ + text);
                assert(comment.subrange(0, label@.len() as int) =~= label@);
            }
        }
    }
}

/// A catalog lists every item that is asked for, once, and nothing else.
pub proof fn lemma_catalogs_list_what_is_asked_for(
    items: Seq<JsonModel>,
    source: EntitySource,
    pattern: Option<Seq<char>>,
)
    ensures
        item_entities(items, source, pattern).len() == wanted_count(items, source, pattern),
        forall|i: int|
            0 <= i < items.len() && is_wanted(#[trigger] items[i], source, pattern) ==> is_listed(
                items[i],
                item_entities(items, source, pattern),
                source,
            ),
        forall|j: int|
            0 <= j < item_entities(items, source, pattern).len() ==> comes_from(
                #[trigger] item_entities(items, source, pattern)[j],
                items,
                source,
                pattern,
            ),
    decreases items.len(),
{
    if items.len() > 0 {
        let before = items.drop_last();
        lemma_catalogs_list_what_is_asked_for(before, source, pattern);
        lemma_item(items.last(), source, pattern);
        let shorter = item_entities(before, source, pattern);
        let list = item_entities(items, source, pattern);
        assert forall|i: int|
            0 <= i < items.len() && is_wanted(
                #[trigger] items[i],
                source,
                pattern,
            ) implies is_listed(items[i], list, source) by {
            if i < before.len() {
                assert(before[i] == items[i]);
                let k = choose|k: int|
                    0 <= k < shorter.len() && is_entity_of(#[trigger] shorter[k], items[i], source);
                assert(list[k] == shorter[k]);
            } else {
                assert(is_entity_of(list[shorter.len() as int], items[i], source));
            }
        }
        assert forall|j: int| 0 <= j < list.len() implies comes_from(
            #[trigger] list[j],
            items,
            source,
            pattern,
        ) by {
            if j < shorter.len() {
                assert(list[j] == shorter[j]);
                let k = choose|k: int|
                    0 <= k < before.len() && is_wanted(#[trigger] before[k], source, pattern)
                        && is_entity_of(shorter[j], before[k], source);
                assert(items[k] == before[k]);
            } else {
                assert(is_wanted(items[items.len() - 1], source, pattern));
            }
        }
    }
}

/// A catalog is shown in the order of its names, behind the place where its cursor stands.
pub proof fn lemma_catalogs_are_shown_by_name(
    items: Seq<JsonModel>,
    source: EntitySource,
    query: CatalogQuery,
)
    ensures
        found_entities(items, source, query) is Err <==> cursor_result(
            optional_text(query.cursor),
        ) is Err,
        (found_entities(items, source, query), cursor_result(optional_text(query.cursor))) matches (
            Ok(shown),
            Ok(offset),
        ) ==> exists|all: Seq<EntityModel>|
            {
                &&& #[trigger] names_ascend(all)
                &&& all.to_multiset() == item_entities(
                    items,
                    source,
                    optional_text(query.pattern),
                ).to_multiset()
                &&& shown.len() == (if offset <= all.len() {
                    all.len() - offset
                } else {
                    0
                })
                &&& forall|i: int| 0 <= i < shown.len() ==> #[trigger] shown[i] == all[offset + i]
            },
{
    let list = item_entities(items, source, optional_text(query.pattern));
    lemma_sorted_by_name(list);
    assert(names_ascend(by_name(list)));
}

/// A record holds the content of a document, and over it those further members that the document
/// has.
pub proof fn lemma_contents_are_read_by_name(
    document: JsonModel,
    content: Seq<char>,
    further: Seq<Seq<char>>,
    name: Seq<char>,
)
    ensures
        further.contains(name) && member(document, name) is Some ==> named(
            content_record(document, content, further),
            name,
        ) == Some(json_value(NumberStyle::Double, member(document, name)->0)),
        !(further.contains(name) && member(document, name) is Some) ==> named(
            content_record(document, content, further),
            name,
        ) == match member(document, content) {
            Some(inner) => named(json_record(inner), name),
            None => None,
        },
{
    let start = match member(document, content) {
        Some(inner) => json_record(inner),
        None => Seq::empty(),
    };
    lemma_further(start, document, further, name);
}

proof fn lemma_further(
    record: RecordModel,
    document: JsonModel,
    wanted: Seq<Seq<char>>,
    name: Seq<char>,
)
    ensures
        named(with_members(record, document, wanted), name) == if wanted.contains(name) && member(
            document,
            name,
        ) is Some {
            Some(json_value(NumberStyle::Double, member(document, name)->0))
        } else {
            named(record, name)
        },
    decreases wanted.len(),
{
    if wanted.len() > 0 {
        let before = wanted.drop_last();
        lemma_further(record, document, before, name);
        if let Some(value) = member(document, wanted.last()) {
            lemma_entries_are_found(
                with_members(record, document, before),
                wanted.last(),
                json_value(NumberStyle::Double, value),
                name,
            );
        }
        if wanted.contains(name) && name != wanted.last() {
            let i = choose|i: int| 0 <= i < wanted.len() && wanted[i] == name;
            assert(before[i] == name);
        }
        if before.contains(name) {
            let i = choose|i: int| 0 <= i < before.len() && before[i] == name;
            assert(wanted[i] == name);
        }
        assert(wanted[wanted.len() - 1] == wanted.last());
    }
}

/// The records of a list are those of its items, one by one; a document without a list is one record.
pub proof fn lemma_answers_give_their_records(document: JsonModel)
    ensures
        document matches JsonModel::Array(items) ==> {
            &&& generic_records(document).len() == items.len()
            &&& forall|i: int|
                0 <= i < items.len() ==> #[trigger] generic_records(document)[i] == json_record(
                    items[i],
                )
        },
        !(document is Array) && !(document is Object) ==> generic_records(document) == seq![
            json_record(document),
        ],
        (member(document, "results"@), document) matches (
            Some(JsonModel::Array(items)),
            JsonModel::Object(list),
        ) ==> generic_records(document).len() == items.len() && forall|i: int|
            0 <= i < items.len() ==> #[trigger] generic_records(document)[i] == json_record(items[i]),
{
}

/// What the status of an answer means: the answer itself where it succeeded, and otherwise who is at
/// fault and whether another try may help.
pub proof fn lemma_statuses_have_their_meaning(status: u16, body: Seq<u8>)
    ensures
        200 <= status < 300 && body.len() == 0 ==> response_result(status, body) == Ok::<
            JsonModel,
            ErrorModel,
        >(JsonModel::Null),
        200 <= status < 300 && body.len() > 0 ==> match parsed_json(body) {
            Some(document) => response_result(status, body) == Ok::<JsonModel, ErrorModel>(document),
            None => response_result(status, body) matches Err(error) && error.category
                == ErrorCategory::Protocol && !error.retryable,
        },
        status < 200 || 300 <= status ==> (response_result(status, body) matches Err(error) && {
            &&& error == status_error(status)
            &&& error.code == Some(decimal(status as nat))
            &&& status == 401 <==> error.category == ErrorCategory::Authentication
            &&& status == 403 <==> error.category == ErrorCategory::PermissionDenied
            &&& status == 404 <==> error.category == ErrorCategory::NotFound
            &&& status == 409 <==> error.category == ErrorCategory::Conflict
            &&& status == 429 <==> error.category == ErrorCategory::RateLimited
            &&& (status == 408 || status == 504) <==> error.category == ErrorCategory::Timeout
            &&& (status == 500 || status == 501 || status == 502 || status == 503)
                <==> error.category == ErrorCategory::Unavailable
            &&& (status == 400 || status == 405 || status == 406 || status == 411 || status == 413
                || status == 415 || status == 422) <==> error.category
                == ErrorCategory::InvalidRequest
            &&& error.retryable <==> (status == 408 || status == 429 || 500 <= status <= 504)
        }),
{
}

/// What the failures of a transport mean.
pub proof fn lemma_transport_failures_have_their_meaning(cause: TransportFailure)
    ensures
        cause is Tls <==> transport_error(cause).phase == ErrorPhase::Tls,
        cause is Timeout <==> transport_error(cause).category == ErrorCategory::Timeout,
        cause is Tls || cause is Unreachable <==> transport_error(cause).category
            == ErrorCategory::Unavailable,
        cause is Decode <==> transport_error(cause).category == ErrorCategory::Protocol,
        cause is Other <==> transport_error(cause).category == ErrorCategory::Internal,
        transport_error(cause).retryable <==> cause is Timeout || cause is Unreachable,
{
}

/// A request waits no longer than it asks for, than the connection allows and than the caller has
/// left, but for the one millisecond that every request has.
pub proof fn lemma_requests_end_in_time(remaining: u64, configured: u64, requested: Option<u64>, ms: int)
    requires
        ms >= 1,
    ensures
        1 <= request_timeout(remaining, configured, requested),
        ms < request_timeout(remaining, configured, requested) ==> ms < remaining && ms < configured
            && (requested matches Some(asked) ==> ms < asked),
        ms < remaining && ms < configured && (requested matches Some(asked) ==> ms < asked) ==> ms
            < request_timeout(remaining, configured, requested),
{
}

/// An answer may be four times as long as its records, within fixed bounds.
pub proof fn lemma_answers_are_bounded(max_bytes: u64)
    ensures
        1024 * 1024 <= response_limit(max_bytes) <= 32 * 1024 * 1024,
        1024 * 1024 <= 4 * max_bytes <= 32 * 1024 * 1024 ==> response_limit(max_bytes) == 4
            * max_bytes,
{
}

/// A target is a name of its own: not empty, not too long, and nothing that leads elsewhere.
pub proof fn lemma_targets_lead_nowhere_else(target: Seq<char>)
    ensures
        target_error(target) is None ==> {
            &&& target.len() > 0
            &&& byte_length(target) <= 512
            &&& target != "."@
            &&& target != ".."@
            &&& forall|i: int|
                0 <= i < target.len() ==> #[trigger] target[i] != '/' && target[i] != '\\'
                    && target[i] != '?' && target[i] != '#'
        },
{
}

/// A native request is taken in the languages that a product has, without parameters beside its
/// body.
pub proof fn lemma_native_requests_are_told_apart(
    language: Seq<char>,
    accepted: Seq<Seq<char>>,
    request: NativeRequest,
    query: CatalogQuery,
    namespace: Seq<char>,
)
    ensures
        language_error(language, accepted) is None <==> exists|i: int|
            0 <= i < accepted.len() && #[trigger] accepted[i] == language,
        language_error(language, accepted) matches Some(error) ==> error.category
            == ErrorCategory::Unsupported,
        parameters_error(request) is None <==> request.parameters@.len() == 0
            && request.positional_parameters@.len() == 0,
        asks_elsewhere(query, namespace) <==> query.namespace is Some && query.namespace->0@
            != namespace,
{
}

} // verus!
