//! What trimming, splitting, letters and the forms of dates and times keep of a text.
use crate::base_laws::lemma_padded_value;
use crate::temporal::{date_form, fraction_text, time_form, year_text, DateParts, TimeParts};
use crate::text::{
    digits_value, is_space_char, lower, padded, parted, position_of, same_ignoring_case, trim_end,
    trim_start, trimmed, upper,
};
use vstd::prelude::*;

verus! {

/// Whether every character of a text is white space.
pub open spec fn all_space(text: Seq<char>) -> bool {
    forall|i: int| 0 <= i < text.len() ==> is_space_char(#[trigger] text[i])
}

/// Whether a part stands in a text between white space.
pub open spec fn stands_between(
    text: Seq<char>,
    before: Seq<char>,
    part: Seq<char>,
    behind: Seq<char>,
) -> bool {
    text == before + part + behind && all_space(before) && all_space(behind)
}

proof fn lemma_start(text: Seq<char>)
    ensures
        ({
            let rest = trim_start(text);
            let cut = text.len() - rest.len();
            &&& 0 <= cut
            &&& rest == text.subrange(cut, text.len() as int)
            &&& all_space(text.subrange(0, cut))
            &&& rest.len() > 0 ==> !is_space_char(rest[0])
        }),
    decreases text.len(),
{
    if text.len() > 0 && is_space_char(text[0]) {
        let tail = text.subrange(1, text.len() as int);
        lemma_start(tail);
        let rest = trim_start(text);
        let cut = text.len() - rest.len();
        assert(rest =~= text.subrange(cut, text.len() as int));
        assert forall|i: int| 0 <= i < cut implies is_space_char(
            #[trigger] text.subrange(0, cut)[i],
        ) by {
            if i > 0 {
                assert(tail.subrange(0, cut - 1)[i - 1] == text[i]);
            }
        }
    } else {
        assert(text =~= text.subrange(0, text.len() as int));
    }
}

proof fn lemma_end(text: Seq<char>)
    ensures
        ({
            let rest = trim_end(text);
            &&& rest.len() <= text.len()
            &&& rest == text.subrange(0, rest.len() as int)
            &&& all_space(text.subrange(rest.len() as int, text.len() as int))
            &&& rest.len() > 0 ==> !is_space_char(rest.last())
        }),
    decreases text.len(),
{
    let rest = trim_end(text);
    if text.len() > 0 && is_space_char(text.last()) {
        let head = text.drop_last();
        lemma_end(head);
        assert(rest =~= text.subrange(0, rest.len() as int));
        let tail = text.subrange(rest.len() as int, text.len() as int);
        assert forall|i: int| 0 <= i < tail.len() implies is_space_char(#[trigger] tail[i]) by {
            if rest.len() + i < head.len() {
                assert(head.subrange(rest.len() as int, head.len() as int)[i] == tail[i]);
            }
        }
    } else {
        assert(text =~= text.subrange(0, text.len() as int));
    }
}

/// Trimming takes white space from the ends of a text, all of it, and nothing else.
pub proof fn lemma_trimming_takes_only_space(text: Seq<char>)
    ensures
        exists|before: Seq<char>, behind: Seq<char>| #[trigger]
            stands_between(text, before, trimmed(text), behind),
        trimmed(text).len() > 0 ==> !is_space_char(trimmed(text)[0]) && !is_space_char(
            trimmed(text).last(),
        ),
{
    lemma_start(text);
    let rest = trim_start(text);
    lemma_end(rest);
    let part = trimmed(text);
    let before = text.subrange(0, text.len() - rest.len());
    let behind = rest.subrange(part.len() as int, rest.len() as int);
    assert(text =~= before + part + behind);
    assert(stands_between(text, before, part, behind));
}

/// A text is parted at the first of a mark: what stands before has none of it, and the parts make the
/// text again.
pub proof fn lemma_parting_is_at_the_first(text: Seq<char>, mark: char)
    ensures
        match parted(text, mark) {
            Some((left, right)) => text == left.push(mark) + right && !left.contains(mark),
            None => !text.contains(mark),
        },
{
    lemma_position(text, mark);
    let at = position_of(text, mark) as int;
    if at < text.len() {
        assert(text =~= text.subrange(0, at).push(mark) + text.subrange(at + 1, text.len() as int));
    }
}

proof fn lemma_position(text: Seq<char>, mark: char)
    ensures
        position_of(text, mark) <= text.len(),
        position_of(text, mark) < text.len() ==> text[position_of(text, mark) as int] == mark,
        forall|i: int| 0 <= i < position_of(text, mark) ==> #[trigger] text[i] != mark,
    decreases text.len(),
{
    if text.len() > 0 && text[0] != mark {
        let rest = text.subrange(1, text.len() as int);
        lemma_position(rest, mark);
        assert forall|i: int| 0 <= i < position_of(text, mark) implies #[trigger] text[i] != mark by {
            if i > 0 {
                assert(rest[i - 1] == text[i]);
            }
        }
        if position_of(rest, mark) < rest.len() {
            assert(rest[position_of(rest, mark) as int] == text[position_of(text, mark) as int]);
        }
    }
}

/// Whether two characters are the same letter, or the same character.
pub open spec fn same_letter(one: char, other: char) -> bool {
    ||| one == other
    ||| 'A' <= one <= 'Z' && other as u32 == one as u32 + 32
    ||| 'a' <= one <= 'z' && other as u32 + 32 == one as u32
}

/// Small and capital letters are those of the same text, character by character, and have no letter
/// of the other kind.
pub proof fn lemma_letters_are_kept(text: Seq<char>)
    ensures
        lower(text).len() == text.len(),
        upper(text).len() == text.len(),
        forall|i: int|
            0 <= i < text.len() ==> same_letter(text[i], #[trigger] lower(text)[i]) && !('A'
                <= lower(text)[i] <= 'Z'),
        forall|i: int|
            0 <= i < text.len() ==> same_letter(text[i], #[trigger] upper(text)[i]) && !('a'
                <= upper(text)[i] <= 'z'),
        lower(lower(text)) == lower(text),
        same_ignoring_case(text, lower(text)),
{
    assert(lower(lower(text)) =~= lower(text));
}

/// Whether a text is that of a number of some digits.
pub open spec fn shows_number(text: Seq<char>, number: nat) -> bool {
    digits_value(text) == number
}

/// A date shows its year, its month and its day, each by its digits.
pub proof fn lemma_dates_are_shown(date: DateParts)
    ensures
        exists|year: Seq<char>, month: Seq<char>, day: Seq<char>|
            {
                &&& date_form(date) == #[trigger] joined_date(year, month, day)
                &&& shows_number(month, date.month as nat)
                &&& shows_number(day, date.day as nat)
                &&& 0 <= date.year < 10_000 ==> shows_number(year, date.year as nat)
            },
{
    let year = year_text(date.year as int);
    let month = padded(date.month as nat, 2);
    let day = padded(date.day as nat, 2);
    lemma_padded_value(date.month as nat, 2);
    lemma_padded_value(date.day as nat, 2);
    if 0 <= date.year < 10_000 {
        lemma_padded_value(date.year as nat, 4);
    }
    assert(date_form(date) == joined_date(year, month, day));
}

/// A year, a month and a day with dashes between them.
pub open spec fn joined_date(year: Seq<char>, month: Seq<char>, day: Seq<char>) -> Seq<char> {
    year + "-"@ + month + "-"@ + day
}

/// An hour, a minute and a second with colons between them, before a fraction.
pub open spec fn joined_time(
    hour: Seq<char>,
    minute: Seq<char>,
    second: Seq<char>,
    fraction: Seq<char>,
) -> Seq<char> {
    hour + ":"@ + minute + ":"@ + second + fraction
}

/// A time shows its hour, its minute and its second, each by its digits, and a fraction exactly where
/// it has one.
pub proof fn lemma_times_are_shown(time: TimeParts)
    requires
        time.nanosecond < 1_000_000_000,
    ensures
        exists|hour: Seq<char>, minute: Seq<char>, second: Seq<char>, fraction: Seq<char>|
            {
                &&& time_form(time) == #[trigger] joined_time(hour, minute, second, fraction)
                &&& shows_number(hour, time.hour as nat)
                &&& shows_number(minute, time.minute as nat)
                &&& shows_number(second, time.second as nat)
                &&& time.nanosecond == 0 <==> fraction.len() == 0
            },
{
    let hour = padded(time.hour as nat, 2);
    let minute = padded(time.minute as nat, 2);
    let second = padded(time.second as nat, 2);
    lemma_padded_value(time.hour as nat, 2);
    lemma_padded_value(time.minute as nat, 2);
    lemma_padded_value(time.second as nat, 2);
    let fraction = fraction_text(time.nanosecond as nat);
    reveal_strlit(".");
    assert("."@.len() == 1);
    assert(time.second as nat + time.nanosecond as nat / 1_000_000_000 == time.second as nat);
    assert(time.nanosecond as nat % 1_000_000_000 == time.nanosecond as nat);
    assert(time_form(time) == joined_time(hour, minute, second, fraction));
}

/// The fraction of a second shows its nanoseconds, in three, six or nine digits.
pub proof fn lemma_fractions_are_shown(nanosecond: nat)
    requires
        0 < nanosecond < 1_000_000_000,
    ensures
        exists|digits: Seq<char>, unit: nat|
            {
                &&& fraction_text(nanosecond) == "."@ + digits
                &&& #[trigger] shows_number(digits, unit)
                &&& (digits.len() == 3 && nanosecond == unit * 1_000_000) || (digits.len() == 6
                    && nanosecond == unit * 1_000) || (digits.len() == 9 && nanosecond == unit)
            },
{
    reveal_with_fuel(crate::base_laws::ten_to, 10);
    if nanosecond % 1_000_000 == 0 {
        let unit = nanosecond / 1_000_000;
        lemma_padded_value(unit, 3);
        assert(crate::base_laws::ten_to(3) == 1_000);
        assert(shows_number(padded(unit, 3), unit));
    } else if nanosecond % 1_000 == 0 {
        let unit = nanosecond / 1_000;
        lemma_padded_value(unit, 6);
        assert(crate::base_laws::ten_to(6) == 1_000_000);
        assert(shows_number(padded(unit, 6), unit));
    } else {
        lemma_padded_value(nanosecond, 9);
        assert(crate::base_laws::ten_to(9) == 1_000_000_000);
        assert(shows_number(padded(nanosecond, 9), nanosecond));
    }
}

} // verus!
