//! Fields in JSON text: members of an object by their names, each at most once, where other members
//! are only passed over, or the items of an array by their places.
use crate::encoding::{optional_document, parsed_json, read_json, skip_value, skipped};
use crate::text::{names_of, same};
use crate::value::{members, Json, JsonModel};
use vstd::prelude::*;

verus! {

broadcast use {crate::text::group_texts, crate::value::group_models};

/// White space of JSON.
pub open spec fn is_blank(byte: u8) -> bool {
    byte == 0x20 || byte == 0x0a || byte == 0x09 || byte == 0x0d
}

/// Where the white space at a place of a text ends.
pub open spec fn past_blank(bytes: Seq<u8>, at: int) -> int
    decreases bytes.len() - at,
{
    if 0 <= at < bytes.len() && is_blank(bytes[at]) {
        past_blank(bytes, at + 1)
    } else {
        at
    }
}

/// Whether a byte stands at a place of a text.
pub open spec fn stands_at(bytes: Seq<u8>, at: int, byte: u8) -> bool {
    0 <= at < bytes.len() && bytes[at] == byte
}

/// A member in a text: its name, the text of its value, and the place behind it.
pub struct MemberText {
    pub name: Seq<char>,
    pub value: Seq<u8>,
    pub end: int,
}

/// The member at a place of a text.
pub open spec fn member_at(bytes: Seq<u8>, at: int) -> Option<MemberText> {
    let start = past_blank(bytes, at);
    if !stands_at(bytes, start, 0x22) {
        None
    } else {
        match skipped(bytes.subrange(start, bytes.len() as int)) {
            None => None,
            Some(length) => {
                let colon = past_blank(bytes, start + length);
                match parsed_json(bytes.subrange(start, start + length)) {
                    Some(JsonModel::Text(name)) if stands_at(bytes, colon, 0x3a) => match skipped(
                        bytes.subrange(colon + 1, bytes.len() as int),
                    ) {
                        None => None,
                        Some(width) => Some(
                            MemberText {
                                name,
                                value: bytes.subrange(colon + 1, colon + 1 + width),
                                end: colon + 1 + width,
                            },
                        ),
                    },
                    _ => None,
                }
            },
        }
    }
}

/// The members from a place of a text on, up to the brace that closes their object, and the place
/// behind that.
pub open spec fn members_from(bytes: Seq<u8>, at: int) -> Option<(Seq<(Seq<char>, Seq<u8>)>, int)>
    decreases bytes.len() - at,
{
    match member_at(bytes, at) {
        None => None,
        Some(found) => {
            let next = past_blank(bytes, found.end);
            if stands_at(bytes, next, 0x7d) {
                Some((seq![(found.name, found.value)], next + 1))
            } else if stands_at(bytes, next, 0x2c) && next >= at {
                match members_from(bytes, next + 1) {
                    Some((rest, end)) => Some((seq![(found.name, found.value)] + rest, end)),
                    None => None,
                }
            } else {
                None
            }
        },
    }
}

/// The members of the object that a text is, as they stand in it.
pub open spec fn object_members(bytes: Seq<u8>) -> Option<Seq<(Seq<char>, Seq<u8>)>> {
    let open = past_blank(bytes, 0);
    let first = past_blank(bytes, open + 1);
    if !stands_at(bytes, open, 0x7b) {
        None
    } else if stands_at(bytes, first, 0x7d) {
        if past_blank(bytes, first + 1) == bytes.len() {
            Some(Seq::empty())
        } else {
            None
        }
    } else {
        match members_from(bytes, open + 1) {
            Some((list, end)) if past_blank(bytes, end) == bytes.len() => Some(list),
            _ => None,
        }
    }
}

/// How often a name stands among members.
pub open spec fn times_named(list: Seq<(Seq<char>, Seq<u8>)>, name: Seq<char>) -> nat
    decreases list.len(),
{
    if list.len() == 0 {
        0
    } else {
        times_named(list.drop_last(), name) + if list.last().0 == name {
            1nat
        } else {
            0
        }
    }
}

/// The text of the last value with a name.
pub open spec fn last_named(list: Seq<(Seq<char>, Seq<u8>)>, name: Seq<char>) -> Seq<u8>
    decreases list.len(),
{
    if list.len() == 0 {
        Seq::empty()
    } else if list.last().0 == name {
        list.last().1
    } else {
        last_named(list.drop_last(), name)
    }
}

/// The document that stands as a value in a text.
pub open spec fn value_of_text(bytes: Seq<u8>) -> Option<JsonModel> {
    match parsed_json(seq![0x5bu8] + bytes + seq![0x5du8]) {
        Some(JsonModel::Array(items)) if items.len() == 1 => Some(items[0]),
        _ => None,
    }
}

/// The members with some names, in the order of the names: nothing where one of them stands twice.
pub open spec fn known_members(list: Seq<(Seq<char>, Seq<u8>)>, names: Seq<Seq<char>>) -> Option<
    Seq<(Seq<char>, Seq<u8>)>,
>
    decreases names.len(),
{
    if names.len() == 0 {
        Some(Seq::empty())
    } else {
        let name = names.last();
        match known_members(list, names.drop_last()) {
            None => None,
            Some(before) => if times_named(list, name) == 0 {
                Some(before)
            } else if times_named(list, name) == 1 {
                Some(before.push((name, last_named(list, name))))
            } else {
                None
            },
        }
    }
}

/// The items from a place of a text on, up to the bracket that closes their array, and the place
/// behind that.
pub open spec fn items_from(bytes: Seq<u8>, at: int) -> Option<(Seq<Seq<u8>>, int)>
    decreases bytes.len() - at,
{
    match skipped(bytes.subrange(at, bytes.len() as int)) {
        None => None,
        Some(width) => {
            let item = bytes.subrange(at, at + width);
            let next = past_blank(bytes, at + width);
            if stands_at(bytes, next, 0x5d) {
                Some((seq![item], next + 1))
            } else if stands_at(bytes, next, 0x2c) && next >= at {
                match items_from(bytes, next + 1) {
                    Some((rest, end)) => Some((seq![item] + rest, end)),
                    None => None,
                }
            } else {
                None
            }
        },
    }
}

/// The items of the array that a text is, as they stand in it; nothing where it has none.
pub open spec fn array_items(bytes: Seq<u8>) -> Option<Seq<Seq<u8>>> {
    let open = past_blank(bytes, 0);
    if !stands_at(bytes, open, 0x5b) {
        None
    } else {
        match items_from(bytes, open + 1) {
            Some((list, end)) if past_blank(bytes, end) == bytes.len() => Some(list),
            _ => None,
        }
    }
}

/// The fields with some names that a text has: of an object the members with these names, of an
/// array one item for each name.
pub open spec fn field_texts(bytes: Seq<u8>, names: Seq<Seq<char>>) -> Option<
    Seq<(Seq<char>, Seq<u8>)>,
> {
    match object_members(bytes) {
        Some(list) => known_members(list, names),
        None => match array_items(bytes) {
            Some(items) if items.len() == names.len() => Some(
                Seq::new(names.len(), |i: int| (names[i], items[i])),
            ),
            _ => None,
        },
    }
}

/// What some fields hold.
pub open spec fn field_values(list: Seq<(Seq<char>, Seq<u8>)>) -> Option<
    Seq<(Seq<char>, JsonModel)>,
>
    decreases list.len(),
{
    if list.len() == 0 {
        Some(Seq::empty())
    } else {
        match (field_values(list.drop_last()), value_of_text(list.last().1)) {
            (Some(before), Some(value)) => Some(before.push((list.last().0, value))),
            _ => None,
        }
    }
}

/// Whether a text is an object in which every value is a text.
pub open spec fn is_text_record(bytes: Seq<u8>) -> bool {
    match object_members(bytes) {
        Some(list) => forall|i: int|
            0 <= i < list.len() ==> value_of_text((#[trigger] list[i]).1) matches Some(
                JsonModel::Text(_),
            ),
        None => false,
    }
}

/// What members in a text are.
pub open spec fn member_texts(list: Seq<(String, Vec<u8>)>) -> Seq<(Seq<char>, Seq<u8>)> {
    Seq::new(list.len(), |i: int| (list[i].0@, list[i].1@))
}

/// The bytes between two places of a text.
fn slice_bytes(bytes: &[u8], from: usize, to: usize) -> (result: Vec<u8>)
    requires
        from <= to <= bytes@.len(),
    ensures
        result@ == bytes@.subrange(from as int, to as int),
{
    let mut result: Vec<u8> = Vec::new();
    let mut i: usize = from;
    while i < to
        invariant
            from <= i <= to <= bytes@.len(),
            result@ == bytes@.subrange(from as int, i as int),
        decreases to - i,
    {
        result.push(bytes[i]);
        i = i + 1;
        assert(result@ =~= bytes@.subrange(from as int, i as int));
    }
    result
}

/// Where the white space at a place of a text ends.
fn skip_blank(bytes: &[u8], at: usize) -> (result: usize)
    requires
        at <= bytes@.len(),
    ensures
        result == past_blank(bytes@, at as int),
        at <= result <= bytes@.len(),
{
    let mut i: usize = at;
    while i < bytes.len() && (bytes[i] == 0x20 || bytes[i] == 0x0a || bytes[i] == 0x09 || bytes[i]
        == 0x0d)
        invariant
            at <= i <= bytes@.len(),
            past_blank(bytes@, at as int) == past_blank(bytes@, i as int),
        decreases bytes@.len() - i,
    {
        i = i + 1;
    }
    i
}

/// Whether a byte stands at a place of a text.
fn has_byte(bytes: &[u8], at: usize, byte: u8) -> (result: bool)
    ensures
        result == stands_at(bytes@, at as int, byte),
        bytes@.len() <= usize::MAX,
{
    at < bytes.len() && bytes[at] == byte
}

/// Reads the member at a place of a text.
fn read_member(bytes: &[u8], at: usize) -> (result: Option<(String, Vec<u8>, usize)>)
    requires
        at <= bytes@.len(),
    ensures
        match (result, member_at(bytes@, at as int)) {
            (Some((name, value, end)), Some(wanted)) => name@ == wanted.name && value@
                == wanted.value && end == wanted.end && at < end <= bytes@.len(),
            (None, None) => true,
            _ => false,
        },
{
    let start: usize = skip_blank(bytes, at);
    if !has_byte(bytes, start, 0x22) {
        return None;
    }
    let rest = slice_bytes(bytes, start, bytes.len());
    let length: usize = match skip_value(rest.as_slice()) {
        None => {
            return None;
        },
        Some(length) => length,
    };
    let quoted = slice_bytes(bytes, start, start + length);
    let colon: usize = skip_blank(bytes, start + length);
    let name = match read_json(quoted.as_slice()) {
        Some(Json::Text(name)) => name,
        _ => {
            return None;
        },
    };
    if !has_byte(bytes, colon, 0x3a) {
        return None;
    }
    let rest = slice_bytes(bytes, colon + 1, bytes.len());
    match skip_value(rest.as_slice()) {
        None => None,
        Some(width) => {
            let end: usize = colon + 1 + width;
            Some((name, slice_bytes(bytes, colon + 1, end), end))
        },
    }
}

/// Reads the members from a place of a text on.
fn read_members(bytes: &[u8], from: usize) -> (result: Option<(Vec<(String, Vec<u8>)>, usize)>)
    requires
        from <= bytes@.len(),
    ensures
        match (result, members_from(bytes@, from as int)) {
            (Some((list, end)), Some(wanted)) => member_texts(list@) == wanted.0 && end == wanted.1
                && end <= bytes@.len(),
            (None, None) => true,
            _ => false,
        },
{
    let ghost wanted = members_from(bytes@, from as int);
    let mut list: Vec<(String, Vec<u8>)> = Vec::new();
    let mut at: usize = from;
    proof {
        match wanted {
            Some((rest, _)) => {
                assert(member_texts(list@) + rest =~= rest);
            },
            None => {},
        }
    }
    loop
        invariant
            at <= bytes@.len(),
            wanted == members_from(bytes@, from as int),
            wanted == (match members_from(bytes@, at as int) {
                Some((rest, end)) => Some((member_texts(list@) + rest, end)),
                None => None,
            }),
        decreases bytes@.len() - at,
    {
        let ghost before = member_texts(list@);
        let (name, value, end) = match read_member(bytes, at) {
            None => {
                return None;
            },
            Some(found) => found,
        };
        let ghost entry = (name@, value@);
        list.push((name, value));
        assert(member_texts(list@) =~= before.push(entry));
        let next: usize = skip_blank(bytes, end);
        if has_byte(bytes, next, 0x7d) {
            assert(before + seq![entry] =~= before.push(entry));
            return Some((list, next + 1));
        }
        if !has_byte(bytes, next, 0x2c) {
            return None;
        }
        proof {
            match members_from(bytes@, next + 1) {
                Some((rest, _)) => {
                    assert(before + (seq![entry] + rest) =~= before.push(entry) + rest);
                },
                None => {},
            }
        }
        at = next + 1;
    }
}

/// Reads the members of the object that a text is.
fn read_object(bytes: &[u8]) -> (result: Option<Vec<(String, Vec<u8>)>>)
    ensures
        match (result, object_members(bytes@)) {
            (Some(list), Some(wanted)) => member_texts(list@) == wanted,
            (None, None) => true,
            _ => false,
        },
{
    let open: usize = skip_blank(bytes, 0);
    if !has_byte(bytes, open, 0x7b) {
        return None;
    }
    let first: usize = skip_blank(bytes, open + 1);
    if has_byte(bytes, first, 0x7d) {
        if skip_blank(bytes, first + 1) != bytes.len() {
            return None;
        }
        let list: Vec<(String, Vec<u8>)> = Vec::new();
        assert(member_texts(list@) =~= Seq::<(Seq<char>, Seq<u8>)>::empty());
        return Some(list);
    }
    match read_members(bytes, open + 1) {
        None => None,
        Some((list, end)) => if skip_blank(bytes, end) == bytes.len() {
            Some(list)
        } else {
            None
        },
    }
}

/// How often a name stands among members, and the text of the last value with it.
fn find_named(list: &Vec<(String, Vec<u8>)>, name: &str) -> (result: (usize, usize))
    ensures
        result.0 == times_named(member_texts(list@), name@),
        result.0 > 0 ==> result.1 < list@.len() && list@[result.1 as int].1@ == last_named(
            member_texts(list@),
            name@,
        ),
{
    let ghost all = member_texts(list@);
    let mut times: usize = 0;
    let mut last: usize = 0;
    let mut i: usize = 0;
    assert(all.subrange(0, 0) =~= Seq::<(Seq<char>, Seq<u8>)>::empty());
    while i < list.len()
        invariant
            i <= list@.len(),
            all == member_texts(list@),
            times <= i,
            times == times_named(all.subrange(0, i as int), name@),
            times > 0 ==> last < i && list@[last as int].1@ == last_named(
                all.subrange(0, i as int),
                name@,
            ),
        decreases list@.len() - i,
    {
        let ghost next = all.subrange(0, i + 1);
        assert(next.drop_last() =~= all.subrange(0, i as int));
        assert(next.last() == (list@[i as int].0@, list@[i as int].1@));
        if same(list[i].0.as_str(), name) {
            times = times + 1;
            last = i;
        }
        i = i + 1;
    }
    assert(all.subrange(0, i as int) =~= all);
    (times, last)
}

/// Reads the document that stands as a value in a text.
fn read_value(bytes: &Vec<u8>) -> (result: Option<Json>)
    ensures
        optional_document(result) == value_of_text(bytes@),
{
    let mut framed: Vec<u8> = Vec::new();
    framed.push(0x5b);
    let mut i: usize = 0;
    assert(framed@ =~= seq![0x5bu8] + bytes@.subrange(0, 0));
    while i < bytes.len()
        invariant
            i <= bytes@.len(),
            framed@ == seq![0x5bu8] + bytes@.subrange(0, i as int),
        decreases bytes@.len() - i,
    {
        framed.push(bytes[i]);
        i = i + 1;
        assert(framed@ =~= seq![0x5bu8] + bytes@.subrange(0, i as int));
    }
    framed.push(0x5d);
    assert(framed@ =~= seq![0x5bu8] + bytes@ + seq![0x5du8]);
    match read_json(framed.as_slice()) {
        Some(Json::Array(items)) => {
            let mut items = items;
            if items.len() == 1 {
                assert(crate::value::documents(items@)[0] == items@[0]@);
                items.pop()
            } else {
                None
            }
        },
        _ => None,
    }
}

/// Where some first names have no members, all of them have none.
proof fn lemma_known_fails_early(
    list: Seq<(Seq<char>, Seq<u8>)>,
    names: Seq<Seq<char>>,
    count: int,
)
    requires
        0 <= count <= names.len(),
        known_members(list, names.subrange(0, count)) is None,
    ensures
        known_members(list, names) is None,
    decreases names.len(),
{
    if count == names.len() {
        assert(names.subrange(0, count) =~= names);
    } else {
        assert(names.drop_last().subrange(0, count) =~= names.subrange(0, count));
        lemma_known_fails_early(list, names.drop_last(), count);
    }
}

/// Where some first fields have no values, all of them have none.
proof fn lemma_values_fail_early(list: Seq<(Seq<char>, Seq<u8>)>, count: int)
    requires
        0 <= count <= list.len(),
        field_values(list.subrange(0, count)) is None,
    ensures
        field_values(list) is None,
    decreases list.len(),
{
    if count == list.len() {
        assert(list.subrange(0, count) =~= list);
    } else {
        assert(list.drop_last().subrange(0, count) =~= list.subrange(0, count));
        lemma_values_fail_early(list.drop_last(), count);
    }
}

/// Picks the members with some names.
fn pick_known(list: &Vec<(String, Vec<u8>)>, names: &[&str]) -> (result: Option<
    Vec<(String, Vec<u8>)>,
>)
    ensures
        match (result, known_members(member_texts(list@), names_of(names@))) {
            (Some(known), Some(wanted)) => member_texts(known@) == wanted,
            (None, None) => true,
            _ => false,
        },
{
    let ghost given = member_texts(list@);
    let ghost all = names_of(names@);
    let mut known: Vec<(String, Vec<u8>)> = Vec::new();
    let mut i: usize = 0;
    assert(all.subrange(0, 0) =~= Seq::<Seq<char>>::empty());
    assert(member_texts(known@) =~= Seq::<(Seq<char>, Seq<u8>)>::empty());
    while i < names.len()
        invariant
            i <= names@.len(),
            given == member_texts(list@),
            all == names_of(names@),
            known_members(given, all.subrange(0, i as int)) == Some(member_texts(known@)),
        decreases names@.len() - i,
    {
        let ghost next = all.subrange(0, i + 1);
        assert(next.drop_last() =~= all.subrange(0, i as int));
        assert(next.last() == names@[i as int]@);
        let (times, last) = find_named(list, names[i]);
        if times > 1 {
            proof {
                lemma_known_fails_early(given, all, i + 1);
            }
            return None;
        }
        if times == 1 {
            let ghost before = member_texts(known@);
            let value = slice_bytes(list[last].1.as_slice(), 0, list[last].1.len());
            assert(value@ =~= list@[last as int].1@);
            let ghost entry = (names@[i as int]@, value@);
            known.push((names[i].to_owned(), value));
            assert(member_texts(known@) =~= before.push(entry));
        }
        i = i + 1;
    }
    assert(all.subrange(0, i as int) =~= all);
    Some(known)
}

/// What byte strings are.
pub open spec fn byte_texts(list: Seq<Vec<u8>>) -> Seq<Seq<u8>> {
    Seq::new(list.len(), |i: int| list[i]@)
}

/// Reads the items from a place of a text on.
fn read_items(bytes: &[u8], from: usize) -> (result: Option<(Vec<Vec<u8>>, usize)>)
    requires
        from <= bytes@.len(),
    ensures
        match (result, items_from(bytes@, from as int)) {
            (Some((list, end)), Some(wanted)) => byte_texts(list@) == wanted.0 && end == wanted.1
                && end <= bytes@.len(),
            (None, None) => true,
            _ => false,
        },
{
    let ghost wanted = items_from(bytes@, from as int);
    let mut list: Vec<Vec<u8>> = Vec::new();
    let mut at: usize = from;
    proof {
        match wanted {
            Some((rest, _)) => {
                assert(byte_texts(list@) + rest =~= rest);
            },
            None => {},
        }
    }
    loop
        invariant
            at <= bytes@.len(),
            wanted == items_from(bytes@, from as int),
            wanted == (match items_from(bytes@, at as int) {
                Some((rest, end)) => Some((byte_texts(list@) + rest, end)),
                None => None,
            }),
        decreases bytes@.len() - at,
    {
        let ghost before = byte_texts(list@);
        let rest = slice_bytes(bytes, at, bytes.len());
        let width: usize = match skip_value(rest.as_slice()) {
            None => {
                return None;
            },
            Some(width) => width,
        };
        let item = slice_bytes(bytes, at, at + width);
        let ghost entry = item@;
        list.push(item);
        assert(byte_texts(list@) =~= before.push(entry));
        let next: usize = skip_blank(bytes, at + width);
        if has_byte(bytes, next, 0x5d) {
            assert(before + seq![entry] =~= before.push(entry));
            return Some((list, next + 1));
        }
        if !has_byte(bytes, next, 0x2c) {
            return None;
        }
        proof {
            match items_from(bytes@, next + 1) {
                Some((rest, _)) => {
                    assert(before + (seq![entry] + rest) =~= before.push(entry) + rest);
                },
                None => {},
            }
        }
        at = next + 1;
    }
}

/// Reads the items of the array that a text is.
fn read_array(bytes: &[u8]) -> (result: Option<Vec<Vec<u8>>>)
    ensures
        match (result, array_items(bytes@)) {
            (Some(list), Some(wanted)) => byte_texts(list@) == wanted,
            (None, None) => true,
            _ => false,
        },
{
    let open: usize = skip_blank(bytes, 0);
    if !has_byte(bytes, open, 0x5b) {
        return None;
    }
    match read_items(bytes, open + 1) {
        None => None,
        Some((list, end)) => if skip_blank(bytes, end) == bytes.len() {
            Some(list)
        } else {
            None
        },
    }
}

/// Gives the items of an array the names of their places.
fn name_items(items: &Vec<Vec<u8>>, names: &[&str]) -> (result: Vec<(String, Vec<u8>)>)
    requires
        items@.len() == names@.len(),
    ensures
        member_texts(result@) == Seq::new(
            names@.len(),
            |i: int| (names_of(names@)[i], byte_texts(items@)[i]),
        ),
{
    let mut result: Vec<(String, Vec<u8>)> = Vec::new();
    let mut i: usize = 0;
    while i < names.len()
        invariant
            i <= names@.len() == items@.len(),
            result@.len() == i,
            forall|j: int|
                0 <= j < i ==> (#[trigger] result@[j]).0@ == names@[j]@ && result@[j].1@
                    == items@[j]@,
        decreases names@.len() - i,
    {
        let item = slice_bytes(items[i].as_slice(), 0, items[i].len());
        assert(item@ =~= items@[i as int]@);
        result.push((names[i].to_owned(), item));
        i = i + 1;
    }
    assert(member_texts(result@) =~= Seq::new(
        names@.len(),
        |i: int| (names_of(names@)[i], byte_texts(items@)[i]),
    ));
    result
}

/// Reads the fields with some names that a text has.
pub fn read_fields(bytes: &[u8], names: &[&str]) -> (result: Option<Vec<(String, Vec<u8>)>>)
    ensures
        match (result, field_texts(bytes@, names_of(names@))) {
            (Some(list), Some(wanted)) => member_texts(list@) == wanted,
            (None, None) => true,
            _ => false,
        },
{
    match read_object(bytes) {
        Some(list) => pick_known(&list, names),
        None => match read_array(bytes) {
            Some(items) => if items.len() == names.len() {
                let result = name_items(&items, names);
                assert(member_texts(result@) =~= Seq::new(
                    names_of(names@).len(),
                    |i: int| (names_of(names@)[i], byte_texts(items@)[i]),
                ));
                Some(result)
            } else {
                None
            },
            None => None,
        },
    }
}

/// The object of some fields.
pub open spec fn fields_document(list: Seq<(Seq<char>, Seq<u8>)>) -> Option<JsonModel> {
    match field_values(list) {
        Some(values) => Some(JsonModel::Object(values)),
        None => None,
    }
}

/// Reads what some fields hold.
pub fn read_values(list: &Vec<(String, Vec<u8>)>) -> (result: Option<Json>)
    ensures
        optional_document(result) == fields_document(member_texts(list@)),
{
    let ghost all = member_texts(list@);
    let mut values: Vec<(String, Json)> = Vec::new();
    let mut i: usize = 0;
    assert(all.subrange(0, 0) =~= Seq::<(Seq<char>, Seq<u8>)>::empty());
    assert(members(values@) =~= Seq::<(Seq<char>, JsonModel)>::empty());
    while i < list.len()
        invariant
            i <= list@.len(),
            all == member_texts(list@),
            field_values(all.subrange(0, i as int)) == Some(members(values@)),
        decreases list@.len() - i,
    {
        let ghost next = all.subrange(0, i + 1);
        assert(next.drop_last() =~= all.subrange(0, i as int));
        assert(next.last() == (list@[i as int].0@, list@[i as int].1@));
        match read_value(&list[i].1) {
            None => {
                proof {
                    lemma_values_fail_early(all, i + 1);
                }
                return None;
            },
            Some(value) => {
                let ghost before = members(values@);
                let ghost entry = (list@[i as int].0@, value@);
                values.push((list[i].0.clone(), value));
                assert(members(values@) =~= before.push(entry));
            },
        }
        i = i + 1;
    }
    assert(all.subrange(0, i as int) =~= all);
    Some(Json::Object(values))
}

/// Whether a text is an object in which every value is a text.
pub fn holds_texts(bytes: &Vec<u8>) -> (result: bool)
    ensures
        result == is_text_record(bytes@),
{
    let list = match read_object(bytes.as_slice()) {
        None => {
            return false;
        },
        Some(list) => list,
    };
    let ghost all = member_texts(list@);
    let mut i: usize = 0;
    while i < list.len()
        invariant
            i <= list@.len(),
            all == member_texts(list@),
            object_members(bytes@) == Some(all),
            forall|j: int|
                0 <= j < i ==> value_of_text((#[trigger] all[j]).1) matches Some(
                    JsonModel::Text(_),
                ),
        decreases list@.len() - i,
    {
        assert(all[i as int].1 == list@[i as int].1@);
        match read_value(&list[i].1) {
            Some(Json::Text(_)) => {},
            _ => {
                return false;
            },
        }
        i = i + 1;
    }
    true
}

} // verus!
