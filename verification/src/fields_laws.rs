//! What is read of the fields of a request, and of the marks in the text of a query.
use crate::fields::{
    field_texts, field_values, fields_document, is_blank, known_members, object_members, past_blank,
    times_named, value_of_text,
};
use crate::http::graphql_text::{
    block_end, char_width, comment_end, indent_width, is_block_quote, lines_of, string_end,
};
use crate::text::{is_space_char, joined};
use crate::value::JsonModel;
use vstd::prelude::*;

verus! {

/// Blank is a space, a tabulator and the two ends of a line, and nothing else. Blanks are passed over
/// as far as they go.
pub proof fn lemma_blanks_are_passed_over(bytes: Seq<u8>, at: int)
    requires
        0 <= at <= bytes.len(),
    ensures
        at <= past_blank(bytes, at) <= bytes.len(),
        forall|i: int|
            at <= i < past_blank(bytes, at) ==> #[trigger] bytes[i] == 0x20 || bytes[i] == 0x0a
                || bytes[i] == 0x09 || bytes[i] == 0x0d,
        past_blank(bytes, at) < bytes.len() ==> {
            let next = bytes[past_blank(bytes, at)];
            next != 0x20 && next != 0x0a && next != 0x09 && next != 0x0d
        },
    decreases bytes.len() - at,
{
    if at < bytes.len() && is_blank(bytes[at]) {
        lemma_blanks_are_passed_over(bytes, at + 1);
    }
}

/// A field is known by its name: it is one of those that are looked for, it stands in the object, and
/// it stands there once.
pub proof fn lemma_fields_are_known_by_name(
    list: Seq<(Seq<char>, Seq<u8>)>,
    names: Seq<Seq<char>>,
    name: Seq<char>,
)
    ensures
        known_members(list, names) matches Some(found) ==> {
            &&& forall|j: int|
                0 <= j < found.len() ==> names.contains((#[trigger] found[j]).0) && list.contains(
                    found[j],
                )
            &&& names.contains(name) ==> times_named(list, name) <= 1
            &&& names.contains(name) && times_named(list, name) == 1 ==> exists|j: int|
                0 <= j < found.len() && (#[trigger] found[j]).0 == name
        },
        known_members(list, names) is None ==> exists|i: int|
            0 <= i < names.len() && times_named(list, #[trigger] names[i]) > 1,
    decreases names.len(),
{
    if names.len() > 0 {
        let before = names.drop_last();
        lemma_fields_are_known_by_name(list, before, name);
        lemma_last_is_there(list, names.last());
        assert(names[names.len() - 1] == names.last());
        if let Some(found) = known_members(list, names) {
            let shorter = known_members(list, before)->0;
            assert forall|j: int| 0 <= j < found.len() implies names.contains(
                (#[trigger] found[j]).0,
            ) && list.contains(found[j]) by {
                if j < shorter.len() {
                    assert(found[j] == shorter[j]);
                    let k = choose|k: int| 0 <= k < before.len() && before[k] == shorter[j].0;
                    assert(names[k] == found[j].0);
                }
            }
            if names.contains(name) {
                let k = choose|k: int| 0 <= k < names.len() && names[k] == name;
                if k < before.len() {
                    assert(before[k] == name);
                    if times_named(list, name) == 1 {
                        let j = choose|j: int|
                            0 <= j < shorter.len() && (#[trigger] shorter[j]).0 == name;
                        assert(found[j].0 == name);
                    }
                } else if times_named(list, name) == 1 {
                    assert(found[shorter.len() as int].0 == name);
                }
            }
        } else if known_members(list, before) is None {
            let i = choose|i: int|
                0 <= i < before.len() && times_named(list, #[trigger] before[i]) > 1;
            assert(names[i] == before[i]);
        }
    }
}

proof fn lemma_last_is_there(list: Seq<(Seq<char>, Seq<u8>)>, name: Seq<char>)
    ensures
        times_named(list, name) > 0 ==> list.contains(
            (name, crate::fields::last_named(list, name)),
        ),
    decreases list.len(),
{
    if list.len() > 0 {
        let before = list.drop_last();
        lemma_last_is_there(before, name);
        assert(list[list.len() - 1] == list.last());
        if list.last().0 != name && times_named(list, name) > 0 {
            let entry = (name, crate::fields::last_named(before, name));
            let k = choose|k: int| 0 <= k < before.len() && before[k] == entry;
            assert(list[k] == entry);
        }
    }
}

/// The document of some fields has each of them under its name, read from its own text.
pub proof fn lemma_fields_are_read(list: Seq<(Seq<char>, Seq<u8>)>)
    ensures
        field_values(list) matches Some(found) ==> found.len() == list.len() && forall|i: int|
            0 <= i < found.len() ==> (#[trigger] found[i]).0 == list[i].0 && value_of_text(
                list[i].1,
            ) == Some(found[i].1),
        fields_document(list) matches Some(document) ==> (document matches JsonModel::Object(
            members,
        ) && field_values(list) == Some(members)),
    decreases list.len(),
{
    if list.len() > 0 {
        let before = list.drop_last();
        lemma_fields_are_read(before);
        if let Some(found) = field_values(list) {
            let shorter = field_values(before)->0;
            assert forall|i: int| 0 <= i < found.len() implies (#[trigger] found[i]).0 == list[i].0
                && value_of_text(list[i].1) == Some(found[i].1) by {
                if i < before.len() {
                    assert(found[i] == shorter[i]);
                    assert(before[i] == list[i]);
                }
            }
        }
    }
}

/// The fields of an object are found by their names; those of a list by their places, where it has
/// one for each.
pub proof fn lemma_lists_give_their_fields_in_place(bytes: Seq<u8>, names: Seq<Seq<char>>)
    ensures
        object_members(bytes) matches Some(list) ==> field_texts(bytes, names) == known_members(
            list,
            names,
        ),
        object_members(bytes) is None ==> (field_texts(bytes, names) matches Some(found)
            ==> found.len() == names.len() && forall|i: int|
            0 <= i < names.len() ==> (#[trigger] found[i]).0 == names[i]),
{
}

/// The lines of a text have no end of a line in them, and make the text again.
pub proof fn lemma_lines_make_the_text(text: Seq<char>)
    ensures
        lines_of(text).len() > 0,
        joined(lines_of(text), seq!['\n']) == text,
        forall|i: int|
            0 <= i < lines_of(text).len() ==> !(#[trigger] lines_of(text)[i]).contains('\n'),
    decreases text.len(),
{
    let lines = lines_of(text);
    if text.len() == 0 {
        assert(lines[0] =~= text);
    } else {
        let head = text.drop_last();
        let before = lines_of(head);
        lemma_lines_make_the_text(head);
        if text.last() == '\n' {
            assert(lines.drop_last() =~= before);
            assert(joined(lines, seq!['\n']) =~= head + seq!['\n'] + Seq::<char>::empty());
            assert(text =~= head + seq!['\n']);
            assert forall|i: int| 0 <= i < lines.len() implies !(#[trigger] lines[i]).contains(
                '\n',
            ) by {
                if i < before.len() {
                    assert(lines[i] == before[i]);
                }
            }
        } else {
            let c = text.last();
            assert(lines.drop_last() =~= before.drop_last());
            assert(lines.last() == before.last().push(c));
            if before.len() == 1 {
                assert(joined(lines, seq!['\n']) =~= before[0].push(c));
            } else {
                assert(joined(lines, seq!['\n']) =~= joined(before, seq!['\n']).push(c));
            }
            assert(text =~= head.push(c));
            assert forall|i: int| 0 <= i < lines.len() implies !(#[trigger] lines[i]).contains(
                '\n',
            ) by {
                if i < before.len() - 1 {
                    assert(lines[i] == before[i]);
                } else {
                    let last = before[before.len() - 1];
                    assert(!last.contains('\n'));
                    if lines[i].contains('\n') {
                        let k = choose|k: int| 0 <= k < lines[i].len() && lines[i][k] == '\n';
                        assert(last[k] == '\n');
                    }
                }
            }
        }
    }
}

/// A comment ends with its line.
pub proof fn lemma_comments_end_with_their_line(text: Seq<char>, at: int)
    requires
        0 <= at <= text.len(),
    ensures
        at <= comment_end(text, at) <= text.len(),
        forall|i: int|
            at <= i < comment_end(text, at) ==> #[trigger] text[i] != '\n' && text[i] != '\r',
        comment_end(text, at) < text.len() ==> text[comment_end(text, at)] == '\n'
            || text[comment_end(text, at)] == '\r',
    decreases text.len() - at,
{
    if at < text.len() && text[at] != '\r' && text[at] != '\n' {
        lemma_comments_end_with_their_line(text, at + 1);
    }
}

/// A string ends with a quotation mark, on its own line.
pub proof fn lemma_strings_end_on_their_line(text: Seq<char>, at: int, escaped: bool)
    requires
        0 <= at <= text.len(),
    ensures
        string_end(text, at, escaped) matches Some(end) ==> {
            &&& at < end <= text.len()
            &&& text[end - 1] == '"'
            &&& forall|i: int| at <= i < end ==> #[trigger] text[i] != '\n'
            &&& escaped ==> end > at + 1
            &&& forall|i: int|
                at <= i < end - 1 && #[trigger] text[i] == '"' ==> (i == at && escaped) || (i > at
                    && text[i - 1] == '\\')
        },
    decreases text.len() - at,
{
    if at < text.len() && text[at] != '\n' && !(text[at] == '"' && !escaped) {
        lemma_strings_end_on_their_line(text, at + 1, !escaped && text[at] == '\\');
    }
}

/// A block string ends with three quotation marks behind no backslash.
pub proof fn lemma_block_strings_end_with_three_marks(text: Seq<char>, start: int, at: int)
    requires
        0 <= start <= at,
    ensures
        block_end(text, start, at) matches Some(end) ==> {
            &&& at <= end
            &&& end + 2 < text.len()
            &&& text[end] == '"' && text[end + 1] == '"' && text[end + 2] == '"'
            &&& start < end ==> text[end - 1] != '\\'
        },
    decreases text.len() - at,
{
    if at < text.len() {
        if !is_block_quote(text, at) {
            lemma_block_strings_end_with_three_marks(text, start, at + 1);
        } else if start < at && text[at - 1] == '\\' {
            lemma_block_strings_end_with_three_marks(text, start, at + 3);
        }
    }
}

/// A character is as wide as its bytes, and the indent of a line as wide as the white space before its
/// first other character.
pub proof fn lemma_indents_are_white_space(line: Seq<char>, c: char)
    ensures
        1 <= char_width(c) <= 4,
        line.len() > 0 && !is_space_char(line[0]) ==> indent_width(line) == 0,
        line.len() > 0 && is_space_char(line[0]) ==> indent_width(line) == char_width(line[0])
            + indent_width(line.subrange(1, line.len() as int)),
        c as u32 <= 0x7f ==> char_width(c) == 1,
        0x80 <= c as u32 <= 0x7ff ==> char_width(c) == 2,
        0x800 <= c as u32 <= 0xffff ==> char_width(c) == 3,
        0x10000 <= c as u32 ==> char_width(c) == 4,
{
}

} // verus!
