//! Base64 and JSON notation, as the crates `base64` and `serde_json` write and read them.
use crate::base64_text::{base64_content, base64_form, Base64Form};
use crate::text::signed_decimal;
use crate::value::{
    documents, lemma_ordered_entries, members, record_of, strictly_ascending, Json, JsonModel,
};
use base64::Engine;
use base64::engine::general_purpose::{STANDARD, URL_SAFE_NO_PAD};
use serde::de::IgnoredAny;
use vstd::prelude::*;
use vstd::utf8::{decode_utf8, encode_utf8, valid_utf8};

verus! {

broadcast use crate::value::group_models;

/// The standard base64 text of some bytes, with padding.
pub open spec fn base64_text(bytes: Seq<u8>) -> Seq<char> {
    base64_form(bytes, Base64Form::Standard)
}

/// The bytes that a standard base64 text stands for.
pub open spec fn base64_bytes(text: Seq<char>) -> Option<Seq<u8>> {
    base64_content(text, Base64Form::Standard)
}

/// The base64url text of some bytes, without padding.
pub open spec fn base64_url_text(bytes: Seq<u8>) -> Seq<char> {
    base64_form(bytes, Base64Form::Url)
}

/// The bytes that a base64url text without padding stands for.
pub open spec fn base64_url_bytes(text: Seq<char>) -> Option<Seq<u8>> {
    base64_content(text, Base64Form::Url)
}

/// The document that a JSON text in UTF-8 denotes.
pub uninterp spec fn parsed_json(bytes: Seq<u8>) -> Option<JsonModel>;

/// Where the JSON value that begins a text ends.
pub uninterp spec fn skipped(bytes: Seq<u8>) -> Option<nat>;

/// What a `serde_json::Value` holds, the members of each object ordered by name.
pub uninterp spec fn value_document(value: serde_json::Value) -> JsonModel;

/// The JSON text of what a `serde_json::Value` holds.
pub uninterp spec fn document_text(document: JsonModel) -> Seq<char>;

/// The notation that `serde_json` gives a number that it reads from a text.
pub uninterp spec fn json_number(text: Seq<char>) -> Option<Seq<char>>;

/// The bytes of the UUID that a text denotes.
pub uninterp spec fn uuid_bytes(text: Seq<char>) -> Option<Seq<u8>>;

/// A JSON value of the crate `serde_json`.
#[verifier::external_type_specification]
#[verifier::external_body]
pub struct ExValue(serde_json::Value);

/// The bytes of an optional byte string.
pub open spec fn optional_bytes(bytes: Option<Vec<u8>>) -> Option<Seq<u8>> {
    match bytes {
        Some(bytes) => Some(bytes@),
        None => None,
    }
}

/// What an optional document is.
pub open spec fn optional_document(document: Option<Json>) -> Option<JsonModel> {
    match document {
        Some(document) => Some(document@),
        None => None,
    }
}

/// A document without parts.
pub open spec fn is_scalar(document: JsonModel) -> bool {
    !(document is Array) && !(document is Object)
}

/// A text, a truth value, the null value, or a 64-bit integer in plain notation.
pub open spec fn is_plain_scalar(document: JsonModel) -> bool {
    match document {
        JsonModel::Number(notation) => exists|n: int|
            i64::MIN <= n <= u64::MAX && notation == #[trigger] signed_decimal(n),
        _ => is_scalar(document),
    }
}

/// A plain scalar, an array of plain scalars, or an object of plain scalars in the order of their
/// names.
pub open spec fn is_plain_document(document: JsonModel) -> bool {
    match document {
        JsonModel::Array(items) => forall|i: int|
            0 <= i < items.len() ==> is_plain_scalar(#[trigger] items[i]),
        JsonModel::Object(members) => {
            &&& strictly_ascending(Seq::new(members.len(), |i: int| members[i].0))
            &&& forall|i: int| 0 <= i < members.len() ==> is_plain_scalar(#[trigger] members[i].1)
        },
        _ => is_plain_scalar(document),
    }
}

/// Whether some bytes are the text of a document, also as an item of an array and before what may
/// follow a value.
pub open spec fn is_text_of(bytes: Seq<u8>, document: JsonModel) -> bool {
    &&& parsed_json(bytes) == Some(document)
    &&& parsed_json(seq![0x5bu8] + bytes + seq![0x5du8]) == Some(
        JsonModel::Array(seq![document]),
    )
    &&& forall|rest: Seq<u8>|
        rest.len() > 0 && (rest[0] == 0x2c || rest[0] == 0x3a || rest[0] == 0x5d || rest[0] == 0x7d)
            ==> #[trigger] skipped(bytes + rest) == Some(bytes.len())
    &&& document is Text ==> bytes.len() > 0 && bytes[0] == 0x22
}

/// `base64::engine::general_purpose::STANDARD.encode`: the standard alphabet with padding.
#[verifier::external_body]
pub(crate) fn encode_base64(bytes: &[u8]) -> (result: String)
    ensures
        result@ == base64_text(bytes@),
{
    STANDARD.encode(bytes)
}

/// `base64::engine::general_purpose::STANDARD.decode`: reads the texts that `STANDARD.encode` writes
/// and no others, since it asks for the padding and for zeros in the bits that are left over.
#[verifier::external_body]
pub(crate) fn decode_base64(text: &str) -> (result: Option<Vec<u8>>)
    ensures
        optional_bytes(result) == base64_bytes(text@),
{
    STANDARD.decode(text).ok()
}

/// `base64::engine::general_purpose::URL_SAFE_NO_PAD.encode`: the URL-safe alphabet without
/// padding.
#[verifier::external_body]
pub(crate) fn encode_base64_url(bytes: &[u8]) -> (result: String)
    ensures
        result@ == base64_url_text(bytes@),
{
    URL_SAFE_NO_PAD.encode(bytes)
}

/// `base64::engine::general_purpose::URL_SAFE_NO_PAD.decode`: reads the texts that
/// `URL_SAFE_NO_PAD.encode` writes and no others, since it refuses padding and asks for zeros in the
/// bits that are left over.
#[verifier::external_body]
pub(crate) fn decode_base64_url(text: &str) -> (result: Option<Vec<u8>>)
    ensures
        optional_bytes(result) == base64_url_bytes(text@),
{
    URL_SAFE_NO_PAD.decode(text).ok()
}

/// `serde_json::from_slice` into a `serde_json::Value`, which keeps the last of the members of an
/// object with one name.
#[verifier::external_body]
fn parse_value(bytes: &[u8]) -> (result: Option<serde_json::Value>)
    ensures
        match result {
            Some(value) => parsed_json(bytes@) == Some(value_document(value)),
            None => parsed_json(bytes@) is None,
        },
{
    serde_json::from_slice(bytes).ok()
}

/// `serde_json::StreamDeserializer::next` for `serde::de::IgnoredAny`, by its `byte_offset`: passes
/// over the value that begins a text, white space before it included, which ends behind its first
/// byte and within the text.
#[verifier::external_body]
pub(crate) fn skip_value(bytes: &[u8]) -> (result: Option<usize>)
    ensures
        match (result, skipped(bytes@)) {
            (Some(end), Some(wanted)) => end == wanted && 0 < end <= bytes@.len(),
            (None, None) => true,
            _ => false,
        },
{
    let mut values = serde_json::Deserializer::from_slice(bytes).into_iter::<IgnoredAny>();
    values.next()?.ok()?;
    Some(values.byte_offset())
}

/// The content of a `serde_json::Value`, variant by variant: a number by its notation
/// (`Number::to_string`), an object by its members in the order of the map.
#[verifier::external_body]
fn document_of(value: serde_json::Value) -> (result: Json)
    ensures
        result@ == value_document(value),
{
    match value {
        serde_json::Value::Null => Json::Null,
        serde_json::Value::Bool(value) => Json::Bool(value),
        serde_json::Value::Number(value) => Json::Number(value.to_string()),
        serde_json::Value::String(value) => Json::Text(value),
        serde_json::Value::Array(items) => Json::Array(items.into_iter().map(document_of).collect()),
        serde_json::Value::Object(members) => Json::Object(
            members.into_iter().map(|(name, value)| (name, document_of(value))).collect(),
        ),
    }
}

/// What each of some values holds.
pub open spec fn value_documents(items: Seq<serde_json::Value>) -> Seq<JsonModel> {
    Seq::new(items.len(), |i: int| value_document(items[i]))
}

/// What each of some named values holds.
pub open spec fn value_members(items: Seq<(String, serde_json::Value)>) -> Seq<
    (Seq<char>, JsonModel),
> {
    Seq::new(items.len(), |i: int| (items[i].0@, value_document(items[i].1)))
}

/// What a `serde_json::Value` keeps of a document: each number in the notation that `serde_json`
/// gives it, and the members of each object in the order of their names, the last of those with
/// one name. Nothing where a number's notation is not a JSON number.
pub open spec fn kept_document(document: JsonModel) -> Option<JsonModel>
    decreases document,
{
    match document {
        JsonModel::Number(notation) => match json_number(notation) {
            Some(kept) => Some(JsonModel::Number(kept)),
            None => None,
        },
        JsonModel::Array(items) => match kept_documents(items) {
            Some(kept) => Some(JsonModel::Array(kept)),
            None => None,
        },
        JsonModel::Object(list) => match kept_members(list) {
            Some(kept) => Some(JsonModel::Object(record_of(kept))),
            None => None,
        },
        _ => Some(document),
    }
}

/// What is kept of documents.
pub open spec fn kept_documents(items: Seq<JsonModel>) -> Option<Seq<JsonModel>>
    decreases items,
{
    if items.len() == 0 {
        Some(Seq::empty())
    } else {
        match (
            kept_documents(items.subrange(0, items.len() - 1)),
            kept_document(items[items.len() - 1]),
        ) {
            (Some(before), Some(last)) => Some(before.push(last)),
            _ => None,
        }
    }
}

/// What is kept of members.
pub open spec fn kept_members(list: Seq<(Seq<char>, JsonModel)>) -> Option<
    Seq<(Seq<char>, JsonModel)>,
>
    decreases list,
{
    if list.len() == 0 {
        Some(Seq::empty())
    } else {
        match (
            kept_members(list.subrange(0, list.len() - 1)),
            kept_document(list[list.len() - 1].1),
        ) {
            (Some(before), Some(last)) => Some(before.push((list[list.len() - 1].0, last))),
            _ => None,
        }
    }
}

/// Where something is not kept of some first documents, it is not of all.
proof fn lemma_kept_fails_early(items: Seq<JsonModel>, count: int)
    requires
        0 <= count <= items.len(),
        kept_documents(items.subrange(0, count)) is None,
    ensures
        kept_documents(items) is None,
    decreases items.len(),
{
    if count == items.len() {
        assert(items.subrange(0, count) =~= items);
    } else {
        let shorter = items.subrange(0, items.len() - 1);
        assert(shorter.subrange(0, count) =~= items.subrange(0, count));
        lemma_kept_fails_early(shorter, count);
    }
}

/// Where something is not kept of some first members, it is not of all.
proof fn lemma_members_fail_early(list: Seq<(Seq<char>, JsonModel)>, count: int)
    requires
        0 <= count <= list.len(),
        kept_members(list.subrange(0, count)) is None,
    ensures
        kept_members(list) is None,
    decreases list.len(),
{
    if count == list.len() {
        assert(list.subrange(0, count) =~= list);
    } else {
        let shorter = list.subrange(0, list.len() - 1);
        assert(shorter.subrange(0, count) =~= list.subrange(0, count));
        lemma_members_fail_early(shorter, count);
    }
}

/// The variants of `serde_json::Value` without parts; a number through
/// `serde_json::Number::from_str`, which keeps 64-bit integers in plain notation as they are.
#[verifier::external_body]
fn scalar_value(document: &Json) -> (result: Option<serde_json::Value>)
    requires
        is_scalar(document@),
    ensures
        match document@ {
            JsonModel::Number(notation) => match (result, json_number(notation)) {
                (Some(value), Some(kept)) => value_document(value) == JsonModel::Number(kept),
                (None, None) => true,
                _ => false,
            },
            _ => result is Some && value_document(result->0) == document@,
        },
        is_plain_scalar(document@) ==> result is Some && value_document(result->0) == document@,
{
    Some(match document {
        Json::Bool(value) => serde_json::Value::Bool(*value),
        Json::Number(value) => serde_json::Value::Number(value.parse().ok()?),
        Json::Text(value) => serde_json::Value::String(value.clone()),
        _ => serde_json::Value::Null,
    })
}

/// `serde_json::Value::Array`.
#[verifier::external_body]
fn array_value(items: Vec<serde_json::Value>) -> (result: serde_json::Value)
    ensures
        value_document(result) == JsonModel::Array(value_documents(items@)),
{
    serde_json::Value::Array(items)
}

/// `serde_json::Value::Object` of a collected map, which orders its members by their names and
/// keeps the last of those with one name.
#[verifier::external_body]
fn object_value(items: Vec<(String, serde_json::Value)>) -> (result: serde_json::Value)
    ensures
        value_document(result) == JsonModel::Object(record_of(value_members(items@))),
{
    serde_json::Value::Object(items.into_iter().collect())
}

/// A `serde_json::Value` with the content of a document. A plain document is kept as it is.
fn value_of(document: &Json) -> (result: Option<serde_json::Value>)
    ensures
        match result {
            Some(value) => kept_document(document@) == Some(value_document(value)),
            None => kept_document(document@) is None,
        },
        is_plain_document(document@) ==> result is Some && value_document(result->0) == document@,
    decreases document,
{
    match document {
        Json::Array(items) => match values_of(items) {
            Some(list) => {
                Some(array_value(list))
            },
            None => None,
        },
        Json::Object(list) => match members_of(list) {
            Some(kept) => {
                proof {
                    if is_plain_document(document@) {
                        let all = members(list@);
                        assert(forall|i: int|
                            0 <= i < all.len() ==> is_plain_scalar((#[trigger] all[i]).1));
                        lemma_ordered_entries(all);
                    }
                }
                Some(object_value(kept))
            },
            None => None,
        },
        _ => scalar_value(document),
    }
}

/// Values with the content of documents. Plain scalars are kept as they are.
fn values_of(items: &Vec<Json>) -> (result: Option<Vec<serde_json::Value>>)
    ensures
        match result {
            Some(list) => kept_documents(documents(items@)) == Some(value_documents(list@)),
            None => kept_documents(documents(items@)) is None,
        },
        (forall|i: int|
            0 <= i < items@.len() ==> is_plain_scalar(#[trigger] documents(items@)[i])) ==> result is Some
            && value_documents(result->0@) == documents(items@),
    decreases items,
{
    let ghost all = documents(items@);
    let ghost plain = forall|i: int| 0 <= i < all.len() ==> is_plain_scalar(#[trigger] all[i]);
    let mut list: Vec<serde_json::Value> = Vec::new();
    let mut i: usize = 0;
    assert(all.subrange(0, 0) =~= Seq::<JsonModel>::empty());
    assert(value_documents(list@) =~= Seq::<JsonModel>::empty());
    while i < items.len()
        invariant
            i <= items@.len(),
            all == documents(items@),
            plain == (forall|j: int| 0 <= j < all.len() ==> is_plain_scalar(#[trigger] all[j])),
            list@.len() == i,
            kept_documents(all.subrange(0, i as int)) == Some(value_documents(list@)),
            plain ==> value_documents(list@) == all.subrange(0, i as int),
        decreases items@.len() - i,
    {
        let item = &items[i];
        assert(decreases_to!(items => *item));
        assert(all[i as int] == item@);
        let ghost next = all.subrange(0, i + 1);
        assert(next.subrange(0, next.len() - 1) =~= all.subrange(0, i as int));
        let ghost before = list@;
        match value_of(item) {
            Some(value) => {
                list.push(value);
                assert(value_documents(list@) =~= value_documents(before).push(
                    value_document(value),
                ));
                assert(plain ==> is_plain_document(item@)) by {
                    assert(plain ==> is_plain_scalar(all[i as int]));
                }
                assert(plain ==> value_documents(list@) =~= next);
            },
            None => {
                proof {
                    lemma_kept_fails_early(all, i + 1);
                    if plain {
                        assert(is_plain_scalar(all[i as int]));
                    }
                }
                return None;
            },
        }
        i = i + 1;
    }
    assert(all.subrange(0, i as int) =~= all);
    Some(list)
}

/// Named values with the content of members. Plain scalars are kept as they are.
fn members_of(items: &Vec<(String, Json)>) -> (result: Option<Vec<(String, serde_json::Value)>>)
    ensures
        match result {
            Some(list) => kept_members(members(items@)) == Some(value_members(list@)),
            None => kept_members(members(items@)) is None,
        },
        (forall|i: int|
            0 <= i < items@.len() ==> is_plain_scalar((#[trigger] members(items@)[i]).1)) ==> result is Some
            && value_members(result->0@) == members(items@),
    decreases items,
{
    let ghost all = members(items@);
    let ghost plain = forall|i: int| 0 <= i < all.len() ==> is_plain_scalar((#[trigger] all[i]).1);
    let mut list: Vec<(String, serde_json::Value)> = Vec::new();
    let mut i: usize = 0;
    assert(all.subrange(0, 0) =~= Seq::<(Seq<char>, JsonModel)>::empty());
    assert(value_members(list@) =~= Seq::<(Seq<char>, JsonModel)>::empty());
    while i < items.len()
        invariant
            i <= items@.len(),
            all == members(items@),
            plain == (forall|j: int| 0 <= j < all.len() ==> is_plain_scalar((#[trigger] all[j]).1)),
            list@.len() == i,
            kept_members(all.subrange(0, i as int)) == Some(value_members(list@)),
            plain ==> value_members(list@) == all.subrange(0, i as int),
        decreases items@.len() - i,
    {
        let item = &items[i];
        assert(decreases_to!(items => item.1));
        assert(all[i as int] == (item.0@, item.1@));
        let ghost next = all.subrange(0, i + 1);
        assert(next.subrange(0, next.len() - 1) =~= all.subrange(0, i as int));
        let ghost before = list@;
        match value_of(&item.1) {
            Some(value) => {
                let ghost kept = value_document(value);
                list.push((item.0.clone(), value));
                assert(value_members(list@) =~= value_members(before).push((item.0@, kept)));
                assert(plain ==> is_plain_document(item.1@)) by {
                    assert(plain ==> is_plain_scalar(all[i as int].1));
                }
                assert(plain ==> value_members(list@) =~= next);
            },
            None => {
                proof {
                    lemma_members_fail_early(all, i + 1);
                    if plain {
                        assert(is_plain_scalar(all[i as int].1));
                    }
                }
                return None;
            },
        }
        i = i + 1;
    }
    assert(all.subrange(0, i as int) =~= all);
    Some(list)
}

/// `serde_json::Value::to_string`: compact JSON, which `serde_json::from_slice` reads back where
/// the document has no parts within parts. A plain scalar is read back as an item of an array too,
/// and is passed over as far as it goes where a comma, a colon or a closing bracket follows.
#[verifier::external_body]
fn print_value(value: &serde_json::Value) -> (result: String)
    ensures
        result@ == document_text(value_document(*value)),
        is_plain_document(value_document(*value)) ==> parsed_json(encode_utf8(result@)) == Some(
            value_document(*value),
        ),
        is_plain_scalar(value_document(*value)) ==> is_text_of(
            encode_utf8(result@),
            value_document(*value),
        ),
{
    value.to_string()
}

/// The notation that `serde_json` gives a number that it reads from a text.
pub(crate) fn parse_json_number(text: &str) -> (result: Option<String>)
    ensures
        crate::text::optional_text(result) == json_number(text@),
{
    match scalar_value(&Json::Number(text.to_owned())) {
        Some(value) => match document_of(value) {
            Json::Number(notation) => Some(notation),
            _ => None,
        },
        None => None,
    }
}

/// `uuid::Uuid::parse_str`, by the bytes of the UUID.
#[verifier::external_body]
pub(crate) fn parse_uuid(text: &str) -> (result: Option<Vec<u8>>)
    ensures
        optional_bytes(result) == uuid_bytes(text@),
{
    uuid::Uuid::parse_str(text).ok().map(|id| id.as_bytes().to_vec())
}

/// `String::from_utf8`: the text that valid UTF-8 encodes.
#[verifier::external_body]
pub(crate) fn utf8_text(bytes: &Vec<u8>) -> (result: Option<String>)
    ensures
        match result {
            Some(text) => valid_utf8(bytes@) && text@ == decode_utf8(bytes@),
            None => !valid_utf8(bytes@),
        },
{
    String::from_utf8(bytes.clone()).ok()
}

/// The document that a JSON text denotes. Of the members of an object with one name, the last
/// counts.
pub fn read_json(bytes: &[u8]) -> (result: Option<Json>)
    ensures
        optional_document(result) == parsed_json(bytes@),
{
    match parse_value(bytes) {
        Some(value) => Some(document_of(value)),
        None => None,
    }
}

/// The JSON text of a document, where its numbers have JSON notation.
pub open spec fn json_text(document: JsonModel) -> Option<Seq<char>> {
    match kept_document(document) {
        Some(kept) => Some(document_text(kept)),
        None => None,
    }
}

/// Writes a document as JSON text. A plain document is read back as it is.
pub fn write_json(document: &Json) -> (result: Option<String>)
    ensures
        crate::text::optional_text(result) == json_text(document@),
        is_plain_document(document@) ==> result is Some && parsed_json(encode_utf8(result->0@))
            == Some(document@),
        is_plain_scalar(document@) ==> result is Some && is_text_of(
            encode_utf8(result->0@),
            document@,
        ),
{
    match value_of(document) {
        Some(value) => Some(print_value(&value)),
        None => None,
    }
}

} // verus!
