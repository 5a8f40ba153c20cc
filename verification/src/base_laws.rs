//! Laws of texts, records and documents that the connectors build on.
use crate::json::with_member;
use crate::text::{
    all_digits, decimal, digits_value, is_digit, joined, lemma_decimal_value, padded, repeated,
    split_on,
};
use crate::value::{named, record_of, text_before, with_entry, JsonModel};
use vstd::prelude::*;

verus! {

/// The parts between the separators of a text make the text again, and none of them has a
/// separator.
pub proof fn lemma_parts_make_the_text(text: Seq<char>, separator: char)
    ensures
        split_on(text, separator).len() > 0,
        joined(split_on(text, separator), seq![separator]) == text,
        forall|i: int|
            0 <= i < split_on(text, separator).len() ==> !(#[trigger] split_on(
                text,
                separator,
            )[i]).contains(separator),
    decreases text.len(),
{
    let parts = split_on(text, separator);
    if text.len() == 0 {
        assert(parts[0] =~= text);
    } else {
        let shorter = text.drop_last();
        let before = split_on(shorter, separator);
        lemma_parts_make_the_text(shorter, separator);
        if text.last() == separator {
            assert(parts.drop_last() =~= before);
            assert(joined(parts, seq![separator]) =~= shorter.push(separator));
            assert(text =~= shorter.push(separator));
            assert forall|i: int| 0 <= i < parts.len() implies !(#[trigger] parts[i]).contains(
                separator,
            ) by {
                if i < before.len() {
                    assert(parts[i] == before[i]);
                }
            }
        } else {
            let last = before.len() - 1;
            assert(text =~= shorter.push(text.last()));
            assert(parts.drop_last() =~= before.drop_last());
            assert(parts.last() == before.last().push(text.last()));
            assert(joined(parts, seq![separator]) =~= joined(before, seq![separator]).push(
                text.last(),
            ));
            assert forall|i: int| 0 <= i < parts.len() implies !(#[trigger] parts[i]).contains(
                separator,
            ) by {
                if i < last {
                    assert(parts[i] == before[i]);
                } else {
                    assert(!before[last].contains(separator));
                    if parts[i].contains(separator) {
                        let k = choose|k: int|
                            0 <= k < parts[i].len() && parts[i][k] == separator;
                        assert(before[last][k] == separator);
                    }
                }
            }
        }
    }
}

/// The value of digits behind zeros.
proof fn lemma_zeros_in_front(count: nat, digits: Seq<char>)
    requires
        all_digits(digits),
    ensures
        all_digits(repeated('0', count) + digits),
        digits_value(repeated('0', count) + digits) == digits_value(digits),
    decreases digits.len(),
{
    let text = repeated('0', count) + digits;
    if digits.len() == 0 {
        lemma_zeros(count);
        assert(text =~= repeated('0', count));
    } else {
        let shorter = digits.drop_last();
        assert(forall|i: int| 0 <= i < shorter.len() ==> #[trigger] shorter[i] == digits[i]);
        lemma_zeros_in_front(count, shorter);
        assert(text.drop_last() =~= repeated('0', count) + shorter);
        assert(text.last() == digits.last());
        assert forall|i: int| 0 <= i < text.len() implies is_digit(#[trigger] text[i]) by {
            if i >= count {
                assert(text[i] == digits[i - count]);
            }
        }
    }
}

/// Zeros have the value zero.
proof fn lemma_zeros(count: nat)
    ensures
        all_digits(repeated('0', count)),
        digits_value(repeated('0', count)) == 0,
    decreases count,
{
    if count > 0 {
        lemma_zeros((count - 1) as nat);
        assert(repeated('0', count).drop_last() =~= repeated('0', (count - 1) as nat));
    }
}

/// Ten to a power.
pub open spec fn ten_to(width: nat) -> nat
    decreases width,
{
    if width == 0 {
        1
    } else {
        10 * ten_to((width - 1) as nat)
    }
}

/// A number has no more digits than the power of ten above it says.
proof fn lemma_decimal_length(number: nat, width: nat)
    requires
        number < ten_to(width),
        width > 0,
    ensures
        decimal(number).len() <= width,
    decreases number,
{
    if number >= 10 {
        assert(width > 1) by {
            if width == 1 {
                assert(ten_to(0) == 1);
            }
        }
        lemma_decimal_length(number / 10, (width - 1) as nat);
    }
}

/// A number with zeros in front denotes that number, in as many digits as it should have.
pub proof fn lemma_padded_value(number: nat, width: nat)
    requires
        width > 0,
    ensures
        all_digits(padded(number, width)),
        digits_value(padded(number, width)) == number,
        number < ten_to(width) ==> padded(number, width).len() == width,
{
    lemma_decimal_value(number);
    let digits = decimal(number);
    if digits.len() < width {
        lemma_zeros_in_front((width - digits.len()) as nat, digits);
    }
    if number < ten_to(width) {
        lemma_decimal_length(number, width);
    }
}

/// What is put into a record is found there, and everything else is found as before.
pub proof fn lemma_entries_are_found<V>(
    record: Seq<(Seq<char>, V)>,
    name: Seq<char>,
    value: V,
    other: Seq<char>,
)
    ensures
        named(with_entry(record, name, value), name) == Some(value),
        other != name ==> named(with_entry(record, name, value), other) == named(record, other),
    decreases record.len(),
{
    let result = with_entry(record, name, value);
    if record.len() == 0 {
        assert(result.subrange(1, 1) =~= Seq::<(Seq<char>, V)>::empty());
        assert(named(result.subrange(1, 1), other) is None);
    } else if record[0].0 == name {
        assert(result.subrange(1, result.len() as int) =~= record.subrange(1, record.len() as int));
    } else if text_before(name, record[0].0) {
        assert(result.subrange(1, result.len() as int) =~= record);
    } else {
        let rest = record.subrange(1, record.len() as int);
        lemma_entries_are_found(rest, name, value, other);
        assert(result.subrange(1, result.len() as int) =~= with_entry(rest, name, value));
    }
}

/// What an object is given under a name is found there, and everything else is found as before.
pub proof fn lemma_members_are_found(
    list: Seq<(Seq<char>, JsonModel)>,
    name: Seq<char>,
    value: JsonModel,
    other: Seq<char>,
)
    ensures
        named(with_member(list, name, value), name) == Some(value),
        other != name ==> named(with_member(list, name, value), other) == named(list, other),
    decreases list.len(),
{
    let result = with_member(list, name, value);
    if list.len() == 0 {
        assert(result.len() == 1);
        assert(result.subrange(1, 1) =~= Seq::<(Seq<char>, JsonModel)>::empty());
        assert(named(result.subrange(1, 1), other) is None);
    } else if list[0].0 == name {
        assert(result.subrange(1, result.len() as int) =~= list.subrange(1, list.len() as int));
    } else {
        let rest = list.subrange(1, list.len() as int);
        lemma_members_are_found(rest, name, value, other);
        assert(result.subrange(1, result.len() as int) =~= with_member(rest, name, value));
    }
}

/// The last of the entries with a name.
pub open spec fn last_named<V>(entries: Seq<(Seq<char>, V)>, name: Seq<char>) -> Option<V>
    decreases entries.len(),
{
    if entries.len() == 0 {
        None
    } else if entries.last().0 == name {
        Some(entries.last().1)
    } else {
        last_named(entries.drop_last(), name)
    }
}

/// A record of entries has under each name the last of the entries with it, and no other names.
pub proof fn lemma_records_keep_the_last<V>(entries: Seq<(Seq<char>, V)>, name: Seq<char>)
    ensures
        named(record_of(entries), name) == last_named(entries, name),
    decreases entries.len(),
{
    if entries.len() > 0 {
        lemma_records_keep_the_last(entries.drop_last(), name);
        lemma_entries_are_found(
            record_of(entries.drop_last()),
            entries.last().0,
            entries.last().1,
            name,
        );
    }
}

} // verus!
