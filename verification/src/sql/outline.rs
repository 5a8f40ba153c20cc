//! The outline of a statement: its text without the quoted identifiers, in which the placeholders
//! can be counted.
use crate::sql::identifier::{closing_mark, opening_mark, placeholder_text, quoted, SqlFamily};
use crate::text::{decimal, doubled, is_digit, joined, lemma_decimal_value};
use vstd::prelude::*;

verus! {

/// The character that begins a quoted identifier of a dialect.
pub open spec fn quote_begin(family: SqlFamily) -> char {
    match family {
        SqlFamily::MySql => '`',
        SqlFamily::SqlServer => '[',
        _ => '"',
    }
}

/// The character that ends a quoted identifier of a dialect; within one it stands twice.
pub open spec fn quote_end(family: SqlFamily) -> char {
    match family {
        SqlFamily::MySql => '`',
        SqlFamily::SqlServer => ']',
        _ => '"',
    }
}

/// The character that begins a placeholder of a dialect.
pub open spec fn placeholder_mark(family: SqlFamily) -> char {
    match family {
        SqlFamily::MySql => '?',
        SqlFamily::Oracle => ':',
        SqlFamily::SqlServer => '@',
        _ => '$',
    }
}

/// Whether a text ends within a quoted identifier.
pub open spec fn in_quotes(family: SqlFamily, text: Seq<char>) -> bool
    decreases text.len(),
{
    if text.len() == 0 {
        false
    } else if in_quotes(family, text.drop_last()) {
        text.last() != quote_end(family)
    } else {
        text.last() == quote_begin(family) || text.last() == quote_end(family)
    }
}

/// The text outside the quoted identifiers.
pub open spec fn outline(family: SqlFamily, text: Seq<char>) -> Seq<char>
    decreases text.len(),
{
    if text.len() == 0 {
        Seq::empty()
    } else if in_quotes(family, text.drop_last()) || text.last() == quote_begin(family)
        || text.last() == quote_end(family) {
        outline(family, text.drop_last())
    } else {
        outline(family, text.drop_last()).push(text.last())
    }
}

/// How often a character stands in a text.
pub open spec fn occurrences(text: Seq<char>, c: char) -> nat
    decreases text.len(),
{
    if text.len() == 0 {
        0
    } else {
        occurrences(text.drop_last(), c) + if text.last() == c {
            1nat
        } else {
            0
        }
    }
}

/// Whether a text stands at a place of another one, with no digit behind it.
pub open spec fn stands_whole(part: Seq<char>, text: Seq<char>, place: int) -> bool {
    let end = place + part.len();
    &&& 0 <= place && end <= text.len()
    &&& text.subrange(place, end) == part
    &&& end < text.len() ==> !is_digit(text[end])
}

/// The placeholder with a number.
pub open spec fn numbered_mark(family: SqlFamily, number: nat) -> Seq<char> {
    match family {
        SqlFamily::MySql => seq!['?'],
        SqlFamily::Oracle => seq![':'] + decimal(number),
        SqlFamily::SqlServer => seq!['@'].push('P') + decimal(number),
        _ => seq!['$'] + decimal(number),
    }
}

/// Whether the placeholders in an outline are numbered one after the other.
pub open spec fn is_numbered(family: SqlFamily, text: Seq<char>, bound: nat) -> bool {
    forall|place: int|
        0 <= place < text.len() && #[trigger] text[place] == placeholder_mark(family)
            ==> stands_whole(
            numbered_mark(
                family,
                bound + occurrences(text.subrange(0, place), placeholder_mark(family)) + 1,
            ),
            text,
            place,
        )
}

/// Whether a text has so many placeholders outside its quoted identifiers, numbered in their order
/// from the first number behind `bound` on, and ends outside of them.
pub open spec fn binds(family: SqlFamily, text: Seq<char>, bound: nat, count: nat) -> bool {
    &&& !in_quotes(family, text)
    &&& occurrences(outline(family, text), placeholder_mark(family)) == count
    &&& is_numbered(family, outline(family, text), bound)
}

/// Whether a text has no character that a dialect marks identifiers or placeholders by.
pub open spec fn is_unmarked(text: Seq<char>) -> bool {
    forall|i: int|
        0 <= i < text.len() ==> {
            let c = #[trigger] text[i];
            c != '`' && c != '[' && c != ']' && c != '"' && c != '?' && c != ':' && c != '@' && c
                != '$'
        }
}

/// Whether a text does not begin with a digit.
pub open spec fn begins_apart(text: Seq<char>) -> bool {
    text.len() == 0 || !is_digit(text[0])
}

/// The outline of two texts, of which the first ends outside quoted identifiers.
pub proof fn lemma_outline_joins(family: SqlFamily, a: Seq<char>, b: Seq<char>)
    requires
        !in_quotes(family, a),
    ensures
        in_quotes(family, a + b) == in_quotes(family, b),
        outline(family, a + b) == outline(family, a) + outline(family, b),
    decreases b.len(),
{
    if b.len() == 0 {
        assert(a + b =~= a);
        assert(outline(family, a) + outline(family, b) =~= outline(family, a));
    } else {
        lemma_outline_joins(family, a, b.drop_last());
        assert((a + b).drop_last() =~= a + b.drop_last());
        assert((a + b).last() == b.last());
        assert(outline(family, a + b) =~= outline(family, a) + outline(family, b));
    }
}

/// How often a character stands in two texts.
pub proof fn lemma_occurrences_join(a: Seq<char>, b: Seq<char>, c: char)
    ensures
        occurrences(a + b, c) == occurrences(a, c) + occurrences(b, c),
    decreases b.len(),
{
    if b.len() == 0 {
        assert(a + b =~= a);
    } else {
        lemma_occurrences_join(a, b.drop_last(), c);
        assert((a + b).drop_last() =~= a + b.drop_last());
        assert((a + b).last() == b.last());
    }
}

/// A character that stands nowhere occurs no time.
pub proof fn lemma_no_occurrences(text: Seq<char>, c: char)
    requires
        forall|i: int| 0 <= i < text.len() ==> #[trigger] text[i] != c,
    ensures
        occurrences(text, c) == 0,
    decreases text.len(),
{
    if text.len() > 0 {
        assert(forall|i: int| 0 <= i < text.len() - 1 ==> #[trigger] text.drop_last()[i] == text[i]);
        lemma_no_occurrences(text.drop_last(), c);
    }
}

/// A text without marks is its own outline.
pub proof fn lemma_unmarked(family: SqlFamily, text: Seq<char>, bound: nat)
    requires
        is_unmarked(text),
    ensures
        outline(family, text) == text,
        binds(family, text, bound, 0),
    decreases text.len(),
{
    if text.len() > 0 {
        let shorter = text.drop_last();
        assert forall|i: int| 0 <= i < shorter.len() implies ({
            let c = #[trigger] shorter[i];
            c != '`' && c != '[' && c != ']' && c != '"' && c != '?' && c != ':' && c != '@' && c
                != '$'
        }) by {
            assert(shorter[i] == text[i]);
        }
        lemma_unmarked(family, shorter, bound);
        assert(text[text.len() - 1] == text.last());
        assert(text =~= shorter.push(text.last()));
    }
    assert(outline(family, text) =~= text);
    assert forall|i: int| 0 <= i < text.len() implies #[trigger] text[i] != placeholder_mark(
        family,
    ) by {}
    lemma_no_occurrences(text, placeholder_mark(family));
}

/// The body of a quoted identifier stands within quotes.
proof fn lemma_doubled_in_quotes(family: SqlFamily, identifier: Seq<char>)
    ensures
        ({
            let text = seq![quote_begin(family)] + doubled(identifier, quote_end(family));
            in_quotes(family, text) && outline(family, text) == Seq::<char>::empty()
        }),
    decreases identifier.len(),
{
    let mark = quote_end(family);
    let text = seq![quote_begin(family)] + doubled(identifier, mark);
    if identifier.len() == 0 {
        assert(text =~= Seq::<char>::empty().push(quote_begin(family)));
        assert(text.drop_last() =~= Seq::<char>::empty());
        assert(outline(family, text.drop_last()) == Seq::<char>::empty());
        assert(!in_quotes(family, text.drop_last()));
    } else {
        let before = seq![quote_begin(family)] + doubled(identifier.drop_last(), mark);
        lemma_doubled_in_quotes(family, identifier.drop_last());
        if identifier.last() == mark {
            assert(text =~= before.push(mark).push(mark));
            assert(text.drop_last() =~= before.push(mark));
            assert(before.push(mark).drop_last() =~= before);
            assert(!in_quotes(family, before.push(mark)));
            assert(outline(family, before.push(mark)) == Seq::<char>::empty());
            assert(text.last() == mark);
        } else {
            assert(text =~= before.push(identifier.last()));
            assert(text.drop_last() =~= before);
        }
    }
}

/// A quoted identifier leaves nothing in an outline, whatever characters it has.
pub proof fn lemma_quoted_outline(family: SqlFamily, identifier: Seq<char>, bound: nat)
    ensures
        outline(family, quoted(family, identifier)) == Seq::<char>::empty(),
        binds(family, quoted(family, identifier), bound, 0),
{
    let text = quoted(family, identifier);
    let before = seq![quote_begin(family)] + doubled(identifier, quote_end(family));
    assert(opening_mark(family) == quote_begin(family));
    assert(closing_mark(family) == quote_end(family));
    lemma_doubled_in_quotes(family, identifier);
    assert(text.drop_last() =~= before);
    assert(text.last() == quote_end(family));
}

/// The outline of a mark of placeholders.
proof fn lemma_mark_alone(family: SqlFamily)
    ensures
        ({
            let first = seq![placeholder_mark(family)];
            &&& !in_quotes(family, first)
            &&& outline(family, first) == first
            &&& occurrences(first, placeholder_mark(family)) == 1
        }),
{
    let first = seq![placeholder_mark(family)];
    assert(first.drop_last() =~= Seq::<char>::empty());
    assert(!in_quotes(family, first.drop_last()));
    assert(outline(family, first.drop_last()) == Seq::<char>::empty());
    assert(occurrences(first.drop_last(), placeholder_mark(family)) == 0);
    assert(outline(family, first) =~= first);
}

/// What stands behind the mark of a placeholder is not marked.
proof fn lemma_behind_mark(family: SqlFamily, number: nat)
    ensures
        numbered_mark(family, number).len() > 0,
        numbered_mark(family, number)[0] == placeholder_mark(family),
        is_unmarked(numbered_mark(family, number).subrange(1, numbered_mark(family, number).len() as int)),
{
    let text = numbered_mark(family, number);
    let digits = decimal(number);
    lemma_decimal_value(number);
    let rest = text.subrange(1, text.len() as int);
    assert forall|i: int| 0 <= i < rest.len() implies is_digit(#[trigger] rest[i]) || rest[i] == 'P'
        by {
        match family {
            SqlFamily::MySql => {},
            SqlFamily::SqlServer => {
                if i > 0 {
                    assert(rest[i] == digits[i - 1]);
                }
            },
            _ => {
                assert(rest[i] == digits[i]);
            },
        }
    }
}

/// A placeholder binds one value.
pub proof fn lemma_placeholder_binds(family: SqlFamily, bound: nat)
    ensures
        outline(family, placeholder_text(family, bound + 1)) == placeholder_text(family, bound + 1),
        placeholder_text(family, bound + 1) == numbered_mark(family, bound + 1),
        begins_apart(placeholder_text(family, bound + 1)),
        binds(family, placeholder_text(family, bound + 1), bound, 1),
{
    let text = numbered_mark(family, bound + 1);
    let mark = placeholder_mark(family);
    assert(placeholder_text(family, bound + 1) =~= text) by {
        reveal_strlit("$");
        reveal_strlit("?");
        reveal_strlit(":");
        reveal_strlit("@P");
    }
    let first = seq![mark];
    let rest = text.subrange(1, text.len() as int);
    lemma_behind_mark(family, bound + 1);
    lemma_mark_alone(family);
    lemma_unmarked(family, rest, 0);
    assert(text =~= first + rest);
    lemma_outline_joins(family, first, rest);
    lemma_occurrences_join(first, rest, mark);
    lemma_marks_once(family, text, bound);
}

/// A single placeholder is numbered.
proof fn lemma_marks_once(family: SqlFamily, text: Seq<char>, bound: nat)
    requires
        text == numbered_mark(family, bound + 1),
    ensures
        is_numbered(family, text, bound),
{
    let mark = placeholder_mark(family);
    lemma_behind_mark(family, bound + 1);
    let rest = text.subrange(1, text.len() as int);
    assert forall|place: int| 0 <= place < text.len() && #[trigger] text[place] == mark implies
        stands_whole(
        numbered_mark(family, bound + occurrences(text.subrange(0, place), mark) + 1),
        text,
        place,
    ) by {
        if place > 0 {
            assert(rest[place - 1] == text[place]);
        }
        assert(text.subrange(0, 0) =~= Seq::<char>::empty());
        assert(text.subrange(0, text.len() as int) =~= text);
    }
}

/// Texts that bind values one after the other bind all of them.
pub proof fn lemma_binds_join(
    family: SqlFamily,
    a: Seq<char>,
    b: Seq<char>,
    bound: nat,
    first: nat,
    second: nat,
)
    requires
        binds(family, a, bound, first),
        binds(family, b, bound + first, second),
        begins_apart(outline(family, b)) || second == 0 && first == 0,
    ensures
        outline(family, a + b) == outline(family, a) + outline(family, b),
        binds(family, a + b, bound, first + second),
{
    let mark = placeholder_mark(family);
    let left = outline(family, a);
    let right = outline(family, b);
    let text = left + right;
    lemma_outline_joins(family, a, b);
    lemma_occurrences_join(left, right, mark);
    assert forall|place: int| 0 <= place < text.len() && #[trigger] text[place] == mark implies
        stands_whole(
        numbered_mark(family, bound + occurrences(text.subrange(0, place), mark) + 1),
        text,
        place,
    ) by {
        if place < left.len() {
            assert(text.subrange(0, place) =~= left.subrange(0, place));
            assert(left[place] == mark);
            let part = numbered_mark(
                family,
                bound + occurrences(left.subrange(0, place), mark) + 1,
            );
            assert(stands_whole(part, left, place));
            let end = place + part.len();
            assert(text.subrange(place, end) =~= left.subrange(place, end));
            if first == 0 && second == 0 {
                lemma_occurs(left, mark, place);
            }
            if end < text.len() {
                if end < left.len() {
                    assert(text[end] == left[end]);
                } else {
                    assert(text[end] == right[0]);
                }
            }
        } else {
            let there = place - left.len();
            assert(right[there] == mark);
            assert(text.subrange(0, place) =~= left + right.subrange(0, there));
            lemma_occurrences_join(left, right.subrange(0, there), mark);
            let part = numbered_mark(
                family,
                bound + first + occurrences(right.subrange(0, there), mark) + 1,
            );
            assert(stands_whole(part, right, there));
            let end = there + part.len();
            assert(text.subrange(place, place + part.len()) =~= right.subrange(there, end));
            if end < right.len() {
                assert(text[place + part.len()] == right[end]);
            }
        }
    }
}

/// A character that stands somewhere occurs at least once.
pub proof fn lemma_occurs(text: Seq<char>, c: char, place: int)
    requires
        0 <= place < text.len(),
        text[place] == c,
    ensures
        occurrences(text, c) > 0,
    decreases text.len(),
{
    if place < text.len() - 1 {
        assert(text.drop_last()[place] == c);
        lemma_occurs(text.drop_last(), c, place);
    }
}

/// Parts that bind some values each, with a separator between them.
pub proof fn lemma_joined_binds(
    family: SqlFamily,
    parts: Seq<Seq<char>>,
    separator: Seq<char>,
    bound: nat,
    counts: Seq<nat>,
)
    requires
        parts.len() == counts.len(),
        is_unmarked(separator),
        separator.len() > 0 && !is_digit(separator[0]),
        forall|i: int|
            0 <= i < parts.len() ==> binds(
                family,
                #[trigger] parts[i],
                bound + sum(counts.subrange(0, i)),
                counts[i],
            ) && begins_apart(outline(family, parts[i])),
    ensures
        binds(family, joined(parts, separator), bound, sum(counts)),
        begins_apart(outline(family, joined(parts, separator))),
    decreases parts.len(),
{
    let text = joined(parts, separator);
    if parts.len() == 0 {
        lemma_unmarked(family, text, bound);
    } else {
        let last = parts.len() - 1;
        let before = counts.drop_last();
        assert(counts.subrange(0, last) =~= before);
        assert(binds(family, parts[last], bound + sum(before), counts[last]));
        if parts.len() == 1 {
            assert(before =~= Seq::<nat>::empty());
            assert(text == parts[0]);
        } else {
            let shorter = parts.drop_last();
            assert forall|i: int| 0 <= i < shorter.len() implies binds(
                family,
                #[trigger] shorter[i],
                bound + sum(before.subrange(0, i)),
                before[i],
            ) && begins_apart(outline(family, shorter[i])) by {
                assert(before.subrange(0, i) =~= counts.subrange(0, i));
                assert(shorter[i] == parts[i]);
            }
            lemma_joined_binds(family, shorter, separator, bound, before);
            lemma_unmarked(family, separator, bound + sum(before));
            let head = joined(shorter, separator);
            lemma_binds_join(family, head, separator, bound, sum(before), 0);
            lemma_binds_join(family, head + separator, parts[last], bound, sum(before), counts[last]);
            let whole = outline(family, head) + separator + outline(family, parts[last]);
            assert(outline(family, text) == whole);
            if outline(family, head).len() > 0 {
                assert(whole[0] == outline(family, head)[0]);
            } else {
                assert(whole[0] == separator[0]);
            }
        }
    }
}

/// The sum of some numbers.
pub open spec fn sum(counts: Seq<nat>) -> nat
    decreases counts.len(),
{
    if counts.len() == 0 {
        0
    } else {
        sum(counts.drop_last()) + counts.last()
    }
}

} // verus!
