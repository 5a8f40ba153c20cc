//! Reading and writing JSON documents.
use crate::text::{
    all_digits, characters, decimal, decimal_text, digits_value, number_of_digits, only_digits,
    optional_str, parse_signed, parse_unsigned, same, signed_decimal, signed_decimal_text,
    signed_value, split, split_on, unsigned_value,
};
use crate::value::{documents, doubles, members, named, Double, DoubleModel, Json, JsonModel};
use vstd::prelude::*;

verus! {

broadcast use crate::value::group_models;

/// The members of an object that is being written.
pub struct JsonObject {
    pub members: Vec<(String, Json)>,
}

impl View for JsonObject {
    type V = Seq<(Seq<char>, JsonModel)>;

    open spec fn view(&self) -> Seq<(Seq<char>, JsonModel)> {
        members(self.members@)
    }
}

impl JsonObject {
    /// An object without members.
    pub fn new() -> (result: JsonObject)
        ensures
            result@ == Seq::<(Seq<char>, JsonModel)>::empty(),
    {
        JsonObject { members: Vec::new() }
    }

    /// Adds a member at the end.
    pub fn put(&mut self, name: &str, value: Json)
        ensures
            final(self)@ == old(self)@.push((name@, value@)),
    {
        self.members.push((name.to_owned(), value));
    }

    /// The finished object.
    pub fn finish(self) -> (result: Json)
        ensures
            result@ == JsonModel::Object(self@),
    {
        Json::Object(self.members)
    }
}

/// The member `name` of an object.
pub open spec fn member(document: JsonModel, name: Seq<char>) -> Option<JsonModel> {
    match document {
        JsonModel::Object(members) => named(members, name),
        _ => None,
    }
}

/// The text of a text document.
pub open spec fn text_of(document: Option<JsonModel>) -> Option<Seq<char>> {
    match document {
        Some(JsonModel::Text(text)) => Some(text),
        _ => None,
    }
}

/// The items of an array.
pub open spec fn items_of(document: Option<JsonModel>) -> Option<Seq<JsonModel>> {
    match document {
        Some(JsonModel::Array(items)) => Some(items),
        _ => None,
    }
}

/// The members of an object.
pub open spec fn members_of(document: Option<JsonModel>) -> Option<Seq<(Seq<char>, JsonModel)>> {
    match document {
        Some(JsonModel::Object(members)) => Some(members),
        _ => None,
    }
}

/// The truth value of a document.
pub open spec fn bool_of(document: Option<JsonModel>) -> Option<bool> {
    match document {
        Some(JsonModel::Bool(value)) => Some(value),
        _ => None,
    }
}

/// The unsigned 64-bit integer that a number's notation denotes.
pub open spec fn unsigned_notation(notation: Seq<char>) -> Option<u64> {
    if notation.len() > 0 && all_digits(notation) && digits_value(notation) <= u64::MAX {
        Some(digits_value(notation) as u64)
    } else {
        None
    }
}

/// The signed 64-bit integer that a number's notation denotes.
pub open spec fn signed_notation(notation: Seq<char>) -> Option<i64> {
    if notation.len() > 0 && notation[0] == '+' {
        None
    } else {
        signed_value(notation)
    }
}

/// The unsigned 64-bit integer of a number.
pub open spec fn unsigned_of(document: Option<JsonModel>) -> Option<u64> {
    match document {
        Some(JsonModel::Number(notation)) => unsigned_notation(notation),
        _ => None,
    }
}

/// The signed 64-bit integer of a number.
pub open spec fn signed_of(document: Option<JsonModel>) -> Option<i64> {
    match document {
        Some(JsonModel::Number(notation)) => signed_notation(notation),
        _ => None,
    }
}

/// What an optional document is.
pub open spec fn optional_json(document: Option<&Json>) -> Option<JsonModel> {
    match document {
        Some(document) => Some(document@),
        None => None,
    }
}

/// The text document of a text.
pub fn text(content: &str) -> (result: Json)
    ensures
        result@ == JsonModel::Text(content@),
{
    Json::Text(content.to_owned())
}

/// The number document of an unsigned integer.
pub fn number(amount: u64) -> (result: Json)
    ensures
        result@ == JsonModel::Number(decimal(amount as nat)),
{
    Json::Number(decimal_text(amount))
}

/// The number document of a signed integer.
pub fn signed_number(number: i64) -> (result: Json)
    ensures
        result@ == JsonModel::Number(signed_decimal(number as int)),
{
    Json::Number(signed_decimal_text(number))
}

/// The unsigned 64-bit integer that a number's notation denotes.
pub fn read_unsigned(notation: &str) -> (result: Option<u64>)
    ensures
        result == unsigned_notation(notation@),
{
    let chars = characters(notation);
    if chars.len() == 0 || !only_digits(&chars) {
        return None;
    }
    number_of_digits(&chars)
}

/// The signed 64-bit integer that a number's notation denotes.
pub fn read_signed(notation: &str) -> (result: Option<i64>)
    ensures
        result == signed_notation(notation@),
{
    let chars = characters(notation);
    if chars.len() > 0 && chars[0] == '+' {
        return None;
    }
    parse_signed(notation)
}

/// The value of the first member called `name`.
pub fn find<'a>(members: &'a Vec<(String, Json)>, name: &str) -> (result: Option<&'a Json>)
    ensures
        optional_json(result) == named(crate::value::members(members@), name@),
{
    let ghost all = crate::value::members(members@);
    let mut i: usize = 0;
    assert(all.subrange(0, all.len() as int) =~= all);
    while i < members.len()
        invariant
            i <= members@.len(),
            all == crate::value::members(members@),
            named(all, name@) == named(all.subrange(i as int, all.len() as int), name@),
        decreases members@.len() - i,
    {
        let ghost rest = all.subrange(i as int, all.len() as int);
        assert(rest[0] == all[i as int]);
        assert(rest.subrange(1, rest.len() as int) =~= all.subrange(i + 1, all.len() as int));
        if same(members[i].0.as_str(), name) {
            return Some(&members[i].1);
        }
        i = i + 1;
    }
    None
}

impl Json {
    /// The member `name`, where the document is an object that has it.
    pub fn get(&self, name: &str) -> (result: Option<&Json>)
        ensures
            optional_json(result) == member(self@, name@),
    {
        match self {
            Json::Object(members) => find(members, name),
            _ => None,
        }
    }

    /// A copy of a document.
    pub fn copy(&self) -> (result: Json)
        ensures
            result@ == self@,
        decreases self,
    {
        match self {
            Json::Null => Json::Null,
            Json::Bool(value) => Json::Bool(*value),
            Json::Number(value) => Json::Number(value.clone()),
            Json::Text(value) => Json::Text(value.clone()),
            Json::Array(items) => Json::Array(copy_documents(items)),
            Json::Object(members) => Json::Object(copy_members(members)),
        }
    }
}

/// Copies of documents.
pub fn copy_documents(source: &Vec<Json>) -> (result: Vec<Json>)
    ensures
        documents(result@) == documents(source@),
    decreases source,
{
    let mut result: Vec<Json> = Vec::new();
    let mut i: usize = 0;
    while i < source.len()
        invariant
            i <= source@.len(),
            result@.len() == i,
            forall|j: int| 0 <= j < i ==> (#[trigger] result@[j])@ == source@[j]@,
        decreases source@.len() - i,
    {
        let item = &source[i];
        assert(decreases_to!(source => *item));
        result.push(item.copy());
        i = i + 1;
    }
    assert(documents(result@) =~= documents(source@));
    result
}

/// Copies of members.
pub fn copy_members(source: &Vec<(String, Json)>) -> (result: Vec<(String, Json)>)
    ensures
        members(result@) == members(source@),
    decreases source,
{
    let mut result: Vec<(String, Json)> = Vec::new();
    let mut i: usize = 0;
    while i < source.len()
        invariant
            i <= source@.len(),
            result@.len() == i,
            forall|j: int|
                0 <= j < i ==> (#[trigger] result@[j]).0@ == source@[j].0@ && result@[j].1@
                    == source@[j].1@,
        decreases source@.len() - i,
    {
        let item = &source[i];
        assert(decreases_to!(source => item.1));
        result.push((item.0.clone(), item.1.copy()));
        i = i + 1;
    }
    assert(members(result@) =~= members(source@));
    result
}

/// The text of a text document.
pub fn as_text(document: Option<&Json>) -> (result: Option<&str>)
    ensures
        optional_str(result) == text_of(optional_json(document)),
{
    match document {
        Some(Json::Text(text)) => Some(text.as_str()),
        _ => None,
    }
}

/// The items of an array.
pub fn as_items(document: Option<&Json>) -> (result: Option<&Vec<Json>>)
    ensures
        match result {
            Some(items) => items_of(optional_json(document)) == Some(documents(items@)),
            None => items_of(optional_json(document)) is None,
        },
{
    match document {
        Some(Json::Array(items)) => Some(items),
        _ => None,
    }
}

/// The members of an object.
pub fn as_members(document: Option<&Json>) -> (result: Option<&Vec<(String, Json)>>)
    ensures
        match result {
            Some(items) => members_of(optional_json(document)) == Some(members(items@)),
            None => members_of(optional_json(document)) is None,
        },
{
    match document {
        Some(Json::Object(items)) => Some(items),
        _ => None,
    }
}

/// The truth value of a document.
pub fn as_bool(document: Option<&Json>) -> (result: Option<bool>)
    ensures
        result == bool_of(optional_json(document)),
{
    match document {
        Some(Json::Bool(value)) => Some(*value),
        _ => None,
    }
}

/// The unsigned 64-bit integer of a number.
pub fn as_unsigned(document: Option<&Json>) -> (result: Option<u64>)
    ensures
        result == unsigned_of(optional_json(document)),
{
    match document {
        Some(Json::Number(notation)) => read_unsigned(notation.as_str()),
        _ => None,
    }
}

/// The signed 64-bit integer of a number.
pub fn as_signed(document: Option<&Json>) -> (result: Option<i64>)
    ensures
        result == signed_of(optional_json(document)),
{
    match document {
        Some(Json::Number(notation)) => read_signed(notation.as_str()),
        _ => None,
    }
}

/// An object with a single member.
pub open spec fn single(name: Seq<char>, value: JsonModel) -> JsonModel {
    JsonModel::Object(Seq::empty().push((name, value)))
}

/// An object with a single member.
pub fn wrap(name: &str, value: Json) -> (result: Json)
    ensures
        result@ == single(name@, value@),
{
    let mut object = JsonObject::new();
    object.put(name, value);
    object.finish()
}

/// A list of one document.
pub fn only(document: Json) -> (result: Json)
    ensures
        result@ == JsonModel::Array(Seq::empty().push(document@)),
{
    let mut items: Vec<Json> = Vec::new();
    items.push(document);
    Json::Array(items)
}

/// The texts as a list of documents.
pub open spec fn text_documents(list: Seq<Seq<char>>) -> Seq<JsonModel> {
    Seq::new(list.len(), |i: int| JsonModel::Text(list[i]))
}

/// The texts as a list of documents.
pub fn texts_to_json(list: &Vec<String>) -> (result: Vec<Json>)
    ensures
        documents(result@) == text_documents(crate::text::texts(list@)),
{
    let mut result: Vec<Json> = Vec::new();
    let mut i: usize = 0;
    while i < list.len()
        invariant
            i <= list@.len(),
            result@.len() == i,
            forall|j: int| 0 <= j < i ==> (#[trigger] result@[j])@ == JsonModel::Text(list@[j]@),
        decreases list@.len() - i,
    {
        result.push(Json::Text(list[i].clone()));
        i = i + 1;
    }
    assert(documents(result@) =~= text_documents(crate::text::texts(list@)));
    result
}

/// Members with `value` under `name`: in the place of the value that stood there, or else at the
/// end.
pub open spec fn with_member(
    list: Seq<(Seq<char>, JsonModel)>,
    name: Seq<char>,
    value: JsonModel,
) -> Seq<(Seq<char>, JsonModel)>
    decreases list.len(),
{
    if list.len() == 0 {
        Seq::empty().push((name, value))
    } else if list[0].0 == name {
        list.update(0, (name, value))
    } else {
        seq![list[0]] + with_member(list.subrange(1, list.len() as int), name, value)
    }
}

/// Members in front of the place of `name` stay where they are.
proof fn lemma_with_member_skips(
    list: Seq<(Seq<char>, JsonModel)>,
    count: int,
    name: Seq<char>,
    value: JsonModel,
)
    requires
        0 <= count <= list.len(),
        forall|i: int| 0 <= i < count ==> (#[trigger] list[i]).0 != name,
    ensures
        with_member(list, name, value) == list.subrange(0, count) + with_member(
            list.subrange(count, list.len() as int),
            name,
            value,
        ),
    decreases count,
{
    if count == 0 {
        assert(list.subrange(0, list.len() as int) =~= list);
        assert(list.subrange(0, 0) + with_member(list, name, value) =~= with_member(
            list,
            name,
            value,
        ));
    } else {
        let rest = list.subrange(1, list.len() as int);
        assert(list[0].0 != name);
        assert forall|i: int| 0 <= i < count - 1 implies (#[trigger] rest[i]).0 != name by {
            assert(rest[i] == list[i + 1]);
        }
        lemma_with_member_skips(rest, count - 1, name, value);
        let tail = with_member(list.subrange(count, list.len() as int), name, value);
        assert(rest.subrange(count - 1, rest.len() as int) =~= list.subrange(
            count,
            list.len() as int,
        ));
        assert(seq![list[0]] + (rest.subrange(0, count - 1) + tail) =~= list.subrange(0, count)
            + tail);
    }
}

/// Where the first member called `name` stands.
pub fn find_index(list: &Vec<(String, Json)>, name: &str) -> (result: Option<usize>)
    ensures
        match result {
            Some(i) => i < list@.len() && list@[i as int].0@ == name@ && named(
                members(list@),
                name@,
            ) == Some(list@[i as int].1@) && forall|j: int|
                0 <= j < i ==> (#[trigger] list@[j]).0@ != name@,
            None => named(members(list@), name@) is None && forall|j: int|
                0 <= j < list@.len() ==> (#[trigger] list@[j]).0@ != name@,
        },
{
    let ghost all = members(list@);
    let mut i: usize = 0;
    assert(all.subrange(0, all.len() as int) =~= all);
    while i < list.len()
        invariant
            i <= list@.len(),
            all == members(list@),
            named(all, name@) == named(all.subrange(i as int, all.len() as int), name@),
            forall|j: int| 0 <= j < i ==> (#[trigger] list@[j]).0@ != name@,
        decreases list@.len() - i,
    {
        let ghost rest = all.subrange(i as int, all.len() as int);
        assert(rest[0] == all[i as int]);
        assert(rest.subrange(1, rest.len() as int) =~= all.subrange(i + 1, all.len() as int));
        if same(list[i].0.as_str(), name) {
            return Some(i);
        }
        i = i + 1;
    }
    None
}

impl JsonObject {
    /// Puts a member in the place of the one of the same name, or else at the end.
    pub fn set(&mut self, name: &str, value: Json)
        ensures
            final(self)@ == with_member(old(self)@, name@, value@),
    {
        let ghost before = self@;
        match find_index(&self.members, name) {
            Some(i) => {
                proof {
                    lemma_with_member_skips(before, i as int, name@, value@);
                }
                let ghost rest = before.subrange(i as int, before.len() as int);
                self.members.set(i, (name.to_owned(), value));
                assert(self@ =~= before.subrange(0, i as int) + rest.update(0, (name@, value@)));
            },
            None => {
                proof {
                    lemma_with_member_skips(before, before.len() as int, name@, value@);
                }
                self.members.push((name.to_owned(), value));
                assert(self@ =~= before.subrange(0, before.len() as int) + Seq::empty().push(
                    (name@, value@),
                ));
            },
        }
    }
}

/// Members without those called `name`.
pub open spec fn without_member(list: Seq<(Seq<char>, JsonModel)>, name: Seq<char>) -> Seq<
    (Seq<char>, JsonModel),
>
    decreases list.len(),
{
    if list.len() == 0 {
        Seq::empty()
    } else {
        let before = without_member(list.drop_last(), name);
        if list.last().0 == name {
            before
        } else {
            before.push(list.last())
        }
    }
}

/// Copies of the members that are not called `name`.
pub fn copy_without(list: &Vec<(String, Json)>, name: &str) -> (result: Vec<(String, Json)>)
    ensures
        members(result@) == without_member(members(list@), name@),
{
    let ghost all = members(list@);
    let mut result: Vec<(String, Json)> = Vec::new();
    let mut i: usize = 0;
    assert(all.subrange(0, 0) =~= Seq::<(Seq<char>, JsonModel)>::empty());
    while i < list.len()
        invariant
            i <= list@.len(),
            all == members(list@),
            members(result@) == without_member(all.subrange(0, i as int), name@),
        decreases list@.len() - i,
    {
        assert(all.subrange(0, i + 1).drop_last() =~= all.subrange(0, i as int));
        if !same(list[i].0.as_str(), name) {
            result.push((list[i].0.clone(), list[i].1.copy()));
        }
        i = i + 1;
    }
    assert(all.subrange(0, i as int) =~= all);
    result
}

/// The value under a name is one of the members' values.
pub proof fn lemma_named_is_member(list: Seq<(Seq<char>, JsonModel)>, name: Seq<char>)
    ensures
        named(list, name) matches Some(value) ==> exists|i: int|
            0 <= i < list.len() && (#[trigger] list[i]).1 == value,
    decreases list.len(),
{
    if list.len() > 0 && list[0].0 != name {
        let rest = list.subrange(1, list.len() as int);
        lemma_named_is_member(rest, name);
        if let Some(value) = named(rest, name) {
            let i = choose|i: int| 0 <= i < rest.len() && (#[trigger] rest[i]).1 == value;
            assert(list[i + 1] == rest[i]);
        }
    }
}

/// The documents of a vector's elements; null for those that are not finite.
pub open spec fn vector_documents(items: Seq<DoubleModel>) -> Seq<JsonModel> {
    Seq::new(
        items.len(),
        |i: int|
            match items[i] {
                DoubleModel::Finite(notation) => JsonModel::Number(notation),
                _ => JsonModel::Null,
            },
    )
}

/// Writes a vector, null for elements that are not finite.
pub fn write_vector(items: &Vec<Double>) -> (result: Json)
    ensures
        result@ == JsonModel::Array(vector_documents(doubles(items@))),
{
    let ghost all = doubles(items@);
    let mut list: Vec<Json> = Vec::new();
    let mut i: usize = 0;
    while i < items.len()
        invariant
            i <= items@.len(),
            all == doubles(items@),
            list@.len() == i,
            forall|j: int| 0 <= j < i ==> (#[trigger] list@[j])@ == vector_documents(all)[j],
        decreases items@.len() - i,
    {
        assert(all[i as int] == items@[i as int]@);
        match &items[i] {
            Double::Finite(notation) => {
                list.push(Json::Number(notation.clone()));
            },
            _ => {
                list.push(Json::Null);
            },
        }
        i = i + 1;
    }
    assert(documents(list@) =~= vector_documents(all));
    Json::Array(list)
}

/// A part of a pointer, in which `~1` stands for a slash and `~0` for a tilde.
pub open spec fn unescaped(part: Seq<char>) -> Seq<char>
    decreases part.len(),
{
    if part.len() == 0 {
        Seq::empty()
    } else if part.len() > 1 && part[0] == '~' && (part[1] == '0' || part[1] == '1') {
        seq![
            if part[1] == '1' {
                '/'
            } else {
                '~'
            },
        ] + unescaped(part.subrange(2, part.len() as int))
    } else {
        seq![part[0]] + unescaped(part.subrange(1, part.len() as int))
    }
}

/// The place in an array that a part of a pointer denotes: a number without a sign and without
/// leading zeros.
pub open spec fn place_of(part: Seq<char>) -> Option<u64> {
    if part.len() > 0 && (part[0] == '+' || (part[0] == '0' && part.len() != 1)) {
        None
    } else {
        unsigned_value(part)
    }
}

/// The document within another that a part of a pointer denotes: the member with that name, or the
/// item at that place.
pub open spec fn part_of(document: JsonModel, part: Seq<char>) -> Option<JsonModel> {
    match document {
        JsonModel::Array(items) => match place_of(part) {
            Some(place) if place < items.len() => Some(items[place as int]),
            _ => None,
        },
        _ => member(document, part),
    }
}

/// The document that the parts of a pointer lead to, one within the other.
pub open spec fn pointed(document: JsonModel, path: Seq<Seq<char>>) -> Option<JsonModel>
    decreases path.len(),
{
    if path.len() == 0 {
        Some(document)
    } else {
        match pointed(document, path.drop_last()) {
            Some(inner) => part_of(inner, unescaped(path.last())),
            None => None,
        }
    }
}

/// The document that a pointer leads to: its parts stand behind a slash each.
pub open spec fn pointer_target(document: JsonModel, pointer: Seq<char>) -> Option<JsonModel> {
    let parts = split_on(pointer, '/');
    if parts.len() > 0 && parts[0].len() == 0 {
        pointed(document, parts.subrange(1, parts.len() as int))
    } else {
        None
    }
}

/// Reads a part of a pointer.
fn unescape(part: &str) -> (result: String)
    ensures
        result@ == unescaped(part@),
{
    let chars = characters(part);
    let mut result = String::new();
    let mut i: usize = 0;
    assert(part@.subrange(0, part@.len() as int) =~= part@);
    assert(result@ + unescaped(part@) =~= unescaped(part@));
    while i < chars.len()
        invariant
            i <= chars@.len(),
            chars@ == part@,
            unescaped(part@) == result@ + unescaped(part@.subrange(i as int, part@.len() as int)),
        decreases chars@.len() - i,
    {
        let ghost rest = part@.subrange(i as int, part@.len() as int);
        let ghost before = result@;
        let escape = i + 1 < chars.len() && chars[i] == '~' && (chars[i + 1] == '0' || chars[i + 1]
            == '1');
        if escape {
            let c = if chars[i + 1] == '1' {
                '/'
            } else {
                '~'
            };
            result.push(c);
            i = i + 2;
            assert(rest.subrange(2, rest.len() as int) =~= part@.subrange(
                i as int,
                part@.len() as int,
            ));
            assert(before + (seq![c] + unescaped(rest.subrange(2, rest.len() as int)))
                =~= result@ + unescaped(rest.subrange(2, rest.len() as int)));
        } else {
            result.push(chars[i]);
            i = i + 1;
            assert(rest.subrange(1, rest.len() as int) =~= part@.subrange(
                i as int,
                part@.len() as int,
            ));
            assert(before + (seq![rest[0]] + unescaped(rest.subrange(1, rest.len() as int)))
                =~= result@ + unescaped(rest.subrange(1, rest.len() as int)));
        }
    }
    assert(result@ + Seq::<char>::empty() =~= result@);
    result
}

/// The place in an array that a part of a pointer denotes.
fn read_place(part: &str) -> (result: Option<u64>)
    ensures
        result == place_of(part@),
{
    let chars = characters(part);
    if chars.len() > 0 && (chars[0] == '+' || (chars[0] == '0' && chars.len() != 1)) {
        return None;
    }
    parse_unsigned(part)
}

/// The document within another that a part of a pointer denotes.
fn find_part<'a>(document: &'a Json, part: &str) -> (result: Option<&'a Json>)
    ensures
        optional_json(result) == part_of(document@, part@),
{
    match document {
        Json::Array(items) => match read_place(part) {
            Some(place) => if place < items.len() as u64 {
                assert(documents(items@)[place as int] == items@[place as int]@);
                Some(&items[place as usize])
            } else {
                None
            },
            None => None,
        },
        _ => document.get(part),
    }
}

/// Where a path leads nowhere, neither does one that goes on from it.
proof fn lemma_pointed_nowhere(document: JsonModel, path: Seq<Seq<char>>, count: int)
    requires
        0 <= count <= path.len(),
        pointed(document, path.subrange(0, count)) is None,
    ensures
        pointed(document, path) is None,
    decreases path.len(),
{
    if count == path.len() {
        assert(path.subrange(0, count) =~= path);
    } else {
        assert(path.drop_last().subrange(0, count) =~= path.subrange(0, count));
        lemma_pointed_nowhere(document, path.drop_last(), count);
    }
}

impl Json {
    /// The document that a pointer leads to.
    pub fn pointer(&self, pointer: &str) -> (result: Option<&Json>)
        ensures
            optional_json(result) == pointer_target(self@, pointer@),
    {
        let parts = split(pointer, '/');
        let ghost all = crate::text::texts(parts@);
        if parts.len() == 0 || !parts[0].as_str().is_empty() {
            return None;
        }
        let ghost path = all.subrange(1, all.len() as int);
        let mut found = self;
        let mut i: usize = 1;
        assert(path.subrange(0, 0) =~= Seq::<Seq<char>>::empty());
        while i < parts.len()
            invariant
                1 <= i <= parts@.len(),
                all == crate::text::texts(parts@),
                path == all.subrange(1, all.len() as int),
                pointed(self@, path.subrange(0, i - 1)) == Some(found@),
                pointer_target(self@, pointer@) == pointed(self@, path),
            decreases parts@.len() - i,
        {
            let ghost next = path.subrange(0, i as int);
            assert(next.drop_last() =~= path.subrange(0, i - 1));
            assert(next.last() == parts@[i as int]@);
            let part = unescape(parts[i].as_str());
            match find_part(found, part.as_str()) {
                Some(inner) => {
                    found = inner;
                },
                None => {
                    proof {
                        lemma_pointed_nowhere(self@, path, i as int);
                    }
                    return None;
                },
            }
            i = i + 1;
        }
        assert(path.subrange(0, i - 1) =~= path);
        Some(found)
    }
}

} // verus!
