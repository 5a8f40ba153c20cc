//! Cursors that hold an offset, and pages of the catalog.
use crate::base64_text::{lemma_base64_is_read_back, Base64Form};
use crate::budget::{larger, smaller};
use crate::encoding::{
    base64_url_bytes, base64_url_text, decode_base64_url, encode_base64_url, is_plain_scalar,
    is_text_of, json_text, write_json,
};
use crate::fields::{
    field_texts, field_values, fields_document, known_members, object_members, past_blank,
    read_fields, read_values, times_named,
};
use crate::json::{as_unsigned, member, number, unsigned_of};
use crate::model::{
    entities, invalid, invalid_request, CatalogEntity, CatalogFetch, CatalogPage, CatalogQuery,
    ConnectionProfile, ConnectorContext, ConnectorError, EntityModel, ErrorModel, PageModel,
};
use crate::sql::limits::{effective_row_limit, row_limit_result};
use crate::sql::mysql_values::text_bytes;
use crate::text::{borrowed, decimal, names_of, optional_str, optional_text, signed_decimal};
use crate::value::{Json, JsonModel};
use vstd::prelude::*;
use vstd::utf8::encode_utf8;

verus! {

broadcast use crate::value::group_models;

/// The number that an offset is in JSON.
pub open spec fn offset_number(offset: u64) -> JsonModel {
    JsonModel::Number(decimal(offset as nat))
}

/// What a cursor holds: an object with the offset as its only member.
pub open spec fn offset_payload(offset: u64) -> Seq<u8> {
    seq![0x7bu8] + encode_utf8(json_text(JsonModel::Text("offset"@))->0) + seq![0x3au8]
        + encode_utf8(json_text(offset_number(offset))->0) + seq![0x7du8]
}

/// The offset that the payload of a cursor holds: the field `offset`.
pub open spec fn payload_offset(bytes: Seq<u8>) -> Option<u64> {
    match field_texts(bytes, names_of(["offset"]@)) {
        None => None,
        Some(fields) => match fields_document(fields) {
            None => None,
            Some(document) => unsigned_of(member(document, "offset"@)),
        },
    }
}

/// The cursor of an offset.
pub open spec fn offset_cursor(offset: u64) -> Seq<char> {
    base64_url_text(offset_payload(offset))
}

/// The offset of a cursor: zero without one.
pub open spec fn offset_result(cursor: Option<Seq<char>>) -> Result<u64, ErrorModel> {
    match cursor {
        None => Ok(0),
        Some(cursor) => match base64_url_bytes(cursor) {
            None => Err(invalid_request("cursor is not valid base64url"@)),
            Some(bytes) => match payload_offset(bytes) {
                None => Err(invalid_request("cursor payload is invalid"@)),
                Some(offset) => Ok(offset),
            },
        },
    }
}

/// Whether an offset result is what is expected of it.
pub open spec fn is_offset_result(
    result: Result<u64, ConnectorError>,
    expected: Result<u64, ErrorModel>,
) -> bool {
    match (result, expected) {
        (Ok(offset), Ok(wanted)) => offset == wanted,
        (Err(error), Err(wanted)) => error@ == wanted,
        _ => false,
    }
}

/// Reads the offset that the payload of a cursor holds.
pub fn read_offset(bytes: &[u8]) -> (result: Option<u64>)
    ensures
        result == payload_offset(bytes@),
{
    let fields = match read_fields(bytes, &["offset"]) {
        None => {
            return None;
        },
        Some(fields) => fields,
    };
    match read_values(&fields) {
        None => None,
        Some(document) => as_unsigned(document.get("offset")),
    }
}

/// Reads the offset of a cursor.
pub fn decode_offset(cursor: Option<&str>) -> (result: Result<u64, ConnectorError>)
    ensures
        is_offset_result(result, offset_result(optional_str(cursor))),
{
    let cursor = match cursor {
        None => {
            return Ok(0);
        },
        Some(cursor) => cursor,
    };
    let bytes = match decode_base64_url(cursor) {
        None => {
            return Err(invalid("cursor is not valid base64url"));
        },
        Some(bytes) => bytes,
    };
    match read_offset(bytes.as_slice()) {
        None => Err(invalid("cursor payload is invalid")),
        Some(offset) => Ok(offset),
    }
}

/// Appends the text of a plain scalar.
fn append_scalar(bytes: &mut Vec<u8>, scalar: &Json)
    requires
        is_plain_scalar(scalar@),
    ensures
        final(bytes)@ == old(bytes)@ + encode_utf8(json_text(scalar@)->0),
        is_text_of(encode_utf8(json_text(scalar@)->0), scalar@),
{
    let text = match write_json(scalar) {
        Some(text) => text,
        None => String::new(),
    };
    let mut added = text_bytes(text.as_str());
    bytes.append(&mut added);
}

/// The payload of an offset is read back as that offset.
proof fn lemma_payload_is_read_back(offset: u64, name: Seq<u8>, value: Seq<u8>)
    requires
        is_text_of(name, JsonModel::Text("offset"@)),
        is_text_of(value, offset_number(offset)),
    ensures
        payload_offset(seq![0x7bu8] + name + seq![0x3au8] + value + seq![0x7du8]) == Some(offset),
{
    let bytes = seq![0x7bu8] + name + seq![0x3au8] + value + seq![0x7du8];
    let colon = 1 + name.len() as int;
    let close = colon + 1 + value.len() as int;
    assert(bytes[1] == name[0]);
    assert(bytes.subrange(1, bytes.len() as int) =~= name + (seq![0x3au8] + value + seq![0x7du8]));
    assert(bytes.subrange(1, colon) =~= name);
    assert(bytes[colon] == 0x3a);
    assert(bytes.subrange(colon + 1, bytes.len() as int) =~= value + seq![0x7du8]);
    assert(bytes.subrange(colon + 1, close) =~= value);
    assert(bytes[close] == 0x7d);
    assert(past_blank(bytes, 0) == 0);
    assert(past_blank(bytes, 1) == 1);
    assert(past_blank(bytes, colon) == colon);
    assert(past_blank(bytes, close) == close);
    assert(past_blank(bytes, close + 1) == close + 1);
    let list = seq![("offset"@, value)];
    assert(object_members(bytes) == Some(list));
    let names = names_of(["offset"]@);
    assert(names =~= seq!["offset"@]);
    assert(list.drop_last() =~= Seq::<(Seq<char>, Seq<u8>)>::empty());
    assert(names.drop_last() =~= Seq::<Seq<char>>::empty());
    assert(times_named(list, "offset"@) == 1) by {
        reveal_with_fuel(times_named, 2);
    }
    assert(known_members(list, names) == Some(
        Seq::<(Seq<char>, Seq<u8>)>::empty().push(("offset"@, value)),
    )) by {
        reveal_with_fuel(known_members, 2);
    }
    assert(Seq::<(Seq<char>, Seq<u8>)>::empty().push(("offset"@, value)) =~= list);
    assert(seq![offset_number(offset)][0] == offset_number(offset));
    let values = Seq::<(Seq<char>, JsonModel)>::empty().push(("offset"@, offset_number(offset)));
    assert(field_values(list) == Some(values)) by {
        reveal_with_fuel(field_values, 2);
    }
    assert(values.len() == 1 && values[0].0 == "offset"@);
    crate::text::lemma_decimal_value(offset as nat);
}

/// The cursor of an offset is read back as that offset.
pub fn encode_offset(offset: u64) -> (result: String)
    ensures
        result@ == offset_cursor(offset),
        offset_result(Some(result@)) == Ok::<u64, ErrorModel>(offset),
{
    let value = number(offset);
    assert(signed_decimal(offset as int) == decimal(offset as nat));
    let mut bytes: Vec<u8> = Vec::new();
    bytes.push(0x7b);
    assert(bytes@ =~= seq![0x7bu8]);
    append_scalar(&mut bytes, &Json::Text("offset".to_owned()));
    let ghost before = bytes@;
    bytes.push(0x3a);
    assert(bytes@ =~= before + seq![0x3au8]);
    append_scalar(&mut bytes, &value);
    let ghost before = bytes@;
    bytes.push(0x7d);
    assert(bytes@ =~= before + seq![0x7du8]);
    proof {
        lemma_payload_is_read_back(
            offset,
            encode_utf8(json_text(JsonModel::Text("offset"@))->0),
            encode_utf8(json_text(offset_number(offset))->0),
        );
        lemma_base64_is_read_back(bytes@, Base64Form::Url);
    }
    encode_base64_url(bytes.as_slice())
}

/// The page of the catalog that some found entities make: as many as the limit admits, with a
/// cursor for the next page exactly where more were found.
pub open spec fn page_result(
    context: ConnectorContext,
    profile: ConnectionProfile,
    query: CatalogQuery,
    found: Seq<EntityModel>,
) -> Result<PageModel, ErrorModel> {
    match row_limit_result(context, profile, query.limit) {
        Err(error) => Err(error),
        Ok(limit) => if found.len() <= limit {
            Ok(PageModel { entities: found, next_cursor: None })
        } else {
            match offset_result(optional_text(query.cursor)) {
                Err(error) => Err(error),
                Ok(offset) => if offset + limit > u64::MAX {
                    Err(invalid_request("catalog cursor offset is too large"@))
                } else {
                    Ok(
                        PageModel {
                            entities: found.subrange(0, limit),
                            next_cursor: Some(offset_cursor((offset + limit) as u64)),
                        },
                    )
                },
            }
        },
    }
}

/// Makes a page of the catalog.
pub fn catalog_page(
    context: &ConnectorContext,
    profile: &ConnectionProfile,
    query: &CatalogQuery,
    found: Vec<CatalogEntity>,
) -> (result: Result<CatalogPage, ConnectorError>)
    ensures
        match (result, page_result(*context, *profile, *query, entities(found@))) {
            (Ok(page), Ok(wanted)) => page@ == wanted,
            (Err(error), Err(wanted)) => error@ == wanted,
            _ => false,
        },
        result matches Ok(page) ==> (page.next_cursor matches Some(cursor) ==> offset_result(
            Some(cursor@),
        ) == Ok::<u64, ErrorModel>(
            (offset_result(optional_text(query.cursor))->Ok_0 + page.entities@.len()) as u64,
        )),
{
    let limit: usize = match effective_row_limit(context, profile, query.limit) {
        Err(error) => {
            return Err(error);
        },
        Ok(limit) => limit as usize,
    };
    let mut shown = found;
    if shown.len() <= limit {
        return Ok(CatalogPage { entities: shown, next_cursor: None });
    }
    shown.truncate(limit);
    assert(entities(shown@) =~= entities(found@).subrange(0, limit as int));
    let offset: u64 = match decode_offset(borrowed(&query.cursor)) {
        Err(error) => {
            return Err(error);
        },
        Ok(offset) => offset,
    };
    match offset.checked_add(limit as u64) {
        None => Err(invalid("catalog cursor offset is too large")),
        Some(next) => Ok(
            CatalogPage { entities: shown, next_cursor: Some(encode_offset(next)) },
        ),
    }
}

/// The limits with which a page is fetched: one more than the page may hold, so that a further
/// row shows that there is a next page.
pub open spec fn fetch_result(
    context: ConnectorContext,
    profile: ConnectionProfile,
    query: CatalogQuery,
) -> Result<CatalogFetch, ErrorModel> {
    match row_limit_result(context, profile, query.limit) {
        Err(error) => Err(error),
        Ok(limit) => if limit == u32::MAX {
            Err(invalid_request("catalog limit is too large"@))
        } else {
            Ok(
                CatalogFetch {
                    context_rows: larger(context.max_rows as int, limit + 1) as u32,
                    policy_rows: larger(profile.policy.max_rows as int, limit + 1) as u32,
                    limit: (limit + 1) as u32,
                },
            )
        },
    }
}

/// The limits with which a page of the catalog is fetched.
pub fn catalog_fetch_inputs(
    context: &ConnectorContext,
    profile: &ConnectionProfile,
    query: &CatalogQuery,
) -> (result: Result<CatalogFetch, ConnectorError>)
    ensures
        match (result, fetch_result(*context, *profile, *query)) {
            (Ok(fetch), Ok(wanted)) => fetch == wanted,
            (Err(error), Err(wanted)) => error@ == wanted,
            _ => false,
        },
{
    let output_limit: u32 = match effective_row_limit(context, profile, query.limit) {
        Err(error) => {
            return Err(error);
        },
        Ok(limit) => limit,
    };
    match output_limit.checked_add(1) {
        None => Err(invalid("catalog limit is too large")),
        Some(limit) => Ok(
            CatalogFetch {
                context_rows: if context.max_rows >= limit {
                    context.max_rows
                } else {
                    limit
                },
                policy_rows: if profile.policy.max_rows >= limit {
                    profile.policy.max_rows
                } else {
                    limit
                },
                limit,
            },
        ),
    }
}

/// A page that was fetched with its limits has a next cursor exactly where the catalog holds more
/// than the page: of the rows from the page's offset on, a fetch returns at most its limit.
pub proof fn lemma_next_cursor_shows_more(
    context: ConnectorContext,
    profile: ConnectionProfile,
    query: CatalogQuery,
    available: Seq<EntityModel>,
)
    requires
        fetch_result(context, profile, query) is Ok,
        offset_result(optional_text(query.cursor)) is Ok,
    ensures
        ({
            let fetch = fetch_result(context, profile, query)->Ok_0;
            let limit = row_limit_result(context, profile, query.limit)->Ok_0;
            let fetched = available.subrange(
                0,
                smaller(available.len() as int, fetch.limit as int),
            );
            match page_result(context, profile, query, fetched) {
                Ok(page) => {
                    &&& page.entities == available.subrange(
                        0,
                        smaller(available.len() as int, limit),
                    )
                    &&& page.next_cursor is Some <==> available.len() > limit
                    &&& page.next_cursor matches Some(cursor) ==> cursor == offset_cursor(
                        (offset_result(optional_text(query.cursor))->Ok_0 + limit) as u64,
                    )
                },
                Err(error) => available.len() > limit && offset_result(
                    optional_text(query.cursor),
                )->Ok_0 + limit > u64::MAX,
            }
        }),
{
    let fetch = fetch_result(context, profile, query)->Ok_0;
    let limit = row_limit_result(context, profile, query.limit)->Ok_0;
    let fetched = available.subrange(0, smaller(available.len() as int, fetch.limit as int));
    if available.len() > limit {
        assert(fetched.subrange(0, limit) =~= available.subrange(0, limit));
    } else {
        assert(fetched =~= available.subrange(0, available.len() as int));
    }
}

} // verus!
