//! What a condition asks of a row: its operators, its values and their placeholders.
use crate::model::{ErrorCategory, ErrorModel, Filter};
use crate::sql::filter::{
    comparison_sql, filter_sql, filters_sql, has_null, logical_sql, membership_sql, placeholders,
    Fragment,
};
use crate::sql::identifier::{is_identifier, placeholder_text, quoted, SqlFamily};
use crate::sql::outline::{
    begins_apart, binds, in_quotes, is_unmarked, lemma_binds_join, lemma_joined_binds,
    lemma_no_occurrences, lemma_occurrences_join, lemma_outline_joins, lemma_placeholder_binds,
    lemma_quoted_outline, lemma_unmarked, numbered_mark, occurrences, outline, sum,
};
use crate::text::{decimal, is_digit, joined, lemma_decimal_value};
use crate::value::{values, ValueModel};
use vstd::prelude::*;

verus! {

broadcast use {crate::text::group_texts, crate::value::group_models};

/// The values that a filter compares with, from left to right. Null is not compared with: a row
/// either has it or has it not.
pub open spec fn bound_values(filter: Filter) -> Seq<ValueModel>
    decreases filter,
{
    match filter {
        Filter::Eq { value, .. }
        | Filter::Ne { value, .. }
        | Filter::Lt { value, .. }
        | Filter::Lte { value, .. }
        | Filter::Gt { value, .. }
        | Filter::Gte { value, .. } => if value@ is Null {
            Seq::empty()
        } else {
            seq![value@]
        },
        Filter::Contains { value, .. } => seq![
            ValueModel::String(seq!['%'] + value@->String_0 + seq!['%']),
        ],
        Filter::In { values: items, .. } => values(items@),
        Filter::And { filters } => all_bound_values(filters@),
        Filter::Or { filters } => all_bound_values(filters@),
        Filter::Not { filter } => bound_values(*filter),
    }
}

/// The values that some filters compare with, from left to right.
pub open spec fn all_bound_values(filters: Seq<Filter>) -> Seq<ValueModel>
    decreases filters,
{
    if filters.len() == 0 {
        Seq::empty()
    } else {
        all_bound_values(filters.subrange(0, filters.len() - 1)) + bound_values(
            filters[filters.len() - 1],
        )
    }
}

/// Whether a filter can be asked of a database: every field has a name that can be quoted, only
/// equality and inequality are asked of null, and no list is empty.
pub open spec fn is_askable(filter: Filter) -> bool
    decreases filter,
{
    match filter {
        Filter::Eq { field, .. } | Filter::Ne { field, .. } => is_identifier(field@),
        Filter::Lt { field, value } => is_identifier(field@) && !(value@ is Null),
        Filter::Lte { field, value } => is_identifier(field@) && !(value@ is Null),
        Filter::Gt { field, value } => is_identifier(field@) && !(value@ is Null),
        Filter::Gte { field, value } => is_identifier(field@) && !(value@ is Null),
        Filter::Contains { field, value } => is_identifier(field@) && value@ is String,
        Filter::In { field, values: items } => is_identifier(field@) && items@.len() > 0 && forall|
            i: int,
        |
            0 <= i < items@.len() ==> !((#[trigger] items@[i])@ is Null),
        Filter::And { filters } => filters@.len() > 0 && forall|i: int|
            #![auto]
            0 <= i < filters@.len() ==> is_askable(filters@[i]),
        Filter::Or { filters } => filters@.len() > 0 && forall|i: int|
            #![auto]
            0 <= i < filters@.len() ==> is_askable(filters@[i]),
        Filter::Not { filter } => is_askable(*filter),
    }
}

/// Whether a text of a condition binds its values, and nothing in its outline names an order.
#[verifier::opaque]
pub open spec fn is_condition(family: SqlFamily, text: Seq<char>, bound: nat, count: nat) -> bool {
    &&& binds(family, text, bound, count)
    &&& begins_apart(outline(family, text))
    &&& occurrences(outline(family, text), 'B') == 0
}

/// Texts without marks in a condition.
pub proof fn lemma_plain(family: SqlFamily, text: Seq<char>, bound: nat)
    requires
        is_unmarked(text),
        forall|i: int| 0 <= i < text.len() ==> #[trigger] text[i] != 'B',
        text.len() == 0 || !is_digit(text[0]),
    ensures
        is_condition(family, text, bound, 0),
{
    reveal(is_condition);
    lemma_unmarked(family, text, bound);
    lemma_no_occurrences(text, 'B');
}

/// A quoted name in a condition.
pub proof fn lemma_name(family: SqlFamily, name: Seq<char>, bound: nat)
    ensures
        is_condition(family, quoted(family, name), bound, 0),
{
    reveal(is_condition);
    lemma_quoted_outline(family, name, bound);
}

/// A placeholder in a condition.
pub proof fn lemma_mark(family: SqlFamily, bound: nat)
    ensures
        is_condition(family, placeholder_text(family, bound + 1), bound, 1),
{
    reveal(is_condition);
    lemma_placeholder_binds(family, bound);
    let text = placeholder_text(family, bound + 1);
    lemma_decimal_value(bound + 1);
    let digits = decimal(bound + 1);
    assert forall|i: int| 0 <= i < text.len() implies #[trigger] text[i] != 'B' by {
        match family {
            SqlFamily::MySql => {},
            SqlFamily::SqlServer => {
                if i > 1 {
                    assert(text[i] == digits[i - 2]);
                }
            },
            _ => {
                if i > 0 {
                    assert(text[i] == digits[i - 1]);
                }
            },
        }
    }
    lemma_no_occurrences(text, 'B');
}

/// Two pieces of a condition.
pub proof fn lemma_pieces(
    family: SqlFamily,
    a: Seq<char>,
    b: Seq<char>,
    bound: nat,
    first: nat,
    second: nat,
)
    requires
        is_condition(family, a, bound, first),
        is_condition(family, b, bound + first, second),
    ensures
        is_condition(family, a + b, bound, first + second),
{
    reveal(is_condition);
    lemma_binds_join(family, a, b, bound, first, second);
    lemma_occurrences_join(outline(family, a), outline(family, b), 'B');
    let text = outline(family, a) + outline(family, b);
    if outline(family, a).len() > 0 {
        assert(text[0] == outline(family, a)[0]);
    } else {
        assert(text =~= outline(family, b));
    }
}

/// The words of conditions.
proof fn lemma_words(family: SqlFamily, bound: nat)
    ensures
        is_condition(family, " "@, bound, 0),
        is_condition(family, "="@, bound, 0),
        is_condition(family, "<>"@, bound, 0),
        is_condition(family, "<"@, bound, 0),
        is_condition(family, "<="@, bound, 0),
        is_condition(family, ">"@, bound, 0),
        is_condition(family, ">="@, bound, 0),
        is_condition(family, "LIKE"@, bound, 0),
        is_condition(family, " IS NULL"@, bound, 0),
        is_condition(family, " IS NOT NULL"@, bound, 0),
        is_condition(family, " IN ("@, bound, 0),
        is_condition(family, "("@, bound, 0),
        is_condition(family, ")"@, bound, 0),
        is_condition(family, "NOT ("@, bound, 0),
        is_condition(family, " AND "@, bound, 0),
        is_condition(family, " OR "@, bound, 0),
        is_condition(family, ", "@, bound, 0),
{
    reveal_strlit(" ");
    lemma_plain(family, " "@, bound);
    reveal_strlit("=");
    lemma_plain(family, "="@, bound);
    reveal_strlit("<>");
    lemma_plain(family, "<>"@, bound);
    reveal_strlit("<");
    lemma_plain(family, "<"@, bound);
    reveal_strlit("<=");
    lemma_plain(family, "<="@, bound);
    reveal_strlit(">");
    lemma_plain(family, ">"@, bound);
    reveal_strlit(">=");
    lemma_plain(family, ">="@, bound);
    reveal_strlit("LIKE");
    lemma_plain(family, "LIKE"@, bound);
    reveal_strlit(" IS NULL");
    lemma_plain(family, " IS NULL"@, bound);
    reveal_strlit(" IS NOT NULL");
    lemma_plain(family, " IS NOT NULL"@, bound);
    reveal_strlit(" IN (");
    lemma_plain(family, " IN ("@, bound);
    reveal_strlit("(");
    lemma_plain(family, "("@, bound);
    reveal_strlit(")");
    lemma_plain(family, ")"@, bound);
    reveal_strlit("NOT (");
    lemma_plain(family, "NOT ("@, bound);
    reveal_strlit(" AND ");
    lemma_plain(family, " AND "@, bound);
    reveal_strlit(" OR ");
    lemma_plain(family, " OR "@, bound);
    reveal_strlit(", ");
    lemma_plain(family, ", "@, bound);
}

/// A comparison in a condition.
proof fn lemma_comparison(
    family: SqlFamily,
    field: Seq<char>,
    operator: Seq<char>,
    value: ValueModel,
    bound: nat,
)
    requires
        is_condition(family, operator, bound, 0),
    ensures
        comparison_sql(family, field, operator, value, bound) matches Ok(condition) ==> {
            &&& condition.values == (if value is Null {
                Seq::empty()
            } else {
                seq![value]
            })
            &&& is_condition(family, condition.text, bound, condition.values.len())
        },
{
    let name = quoted(family, field);
    lemma_name(family, field, bound);
    lemma_words(family, bound);
    lemma_mark(family, bound);
    lemma_pieces(family, name, " IS NULL"@, bound, 0, 0);
    lemma_pieces(family, name, " IS NOT NULL"@, bound, 0, 0);
    lemma_pieces(family, name, " "@, bound, 0, 0);
    lemma_pieces(family, name + " "@, operator, bound, 0, 0);
    lemma_pieces(family, name + " "@ + operator, " "@, bound, 0, 0);
    lemma_pieces(
        family,
        name + " "@ + operator + " "@,
        placeholder_text(family, bound + 1),
        bound,
        0,
        1,
    );
}

/// Pieces of a condition with a separator between them.
pub proof fn lemma_joined(
    family: SqlFamily,
    parts: Seq<Seq<char>>,
    separator: Seq<char>,
    bound: nat,
    counts: Seq<nat>,
)
    requires
        parts.len() == counts.len(),
        is_condition(family, separator, 0, 0),
        is_unmarked(separator),
        separator.len() > 0 && !is_digit(separator[0]),
        forall|i: int|
            0 <= i < parts.len() ==> is_condition(
                family,
                #[trigger] parts[i],
                bound + sum(counts.subrange(0, i)),
                counts[i],
            ),
    ensures
        is_condition(family, joined(parts, separator), bound, sum(counts)),
    decreases parts.len(),
{
    reveal(is_condition);
    lemma_joined_binds(family, parts, separator, bound, counts);
    lemma_joined_lacks(family, parts, separator);
}

/// Pieces whose outlines name no order.
proof fn lemma_joined_lacks(family: SqlFamily, parts: Seq<Seq<char>>, separator: Seq<char>)
    requires
        !in_quotes(family, separator),
        occurrences(outline(family, separator), 'B') == 0,
        forall|i: int|
            0 <= i < parts.len() ==> !in_quotes(family, #[trigger] parts[i]) && occurrences(
                outline(family, parts[i]),
                'B',
            ) == 0,
    ensures
        !in_quotes(family, joined(parts, separator)),
        occurrences(outline(family, joined(parts, separator)), 'B') == 0,
    decreases parts.len(),
{
    if parts.len() == 1 {
        assert(joined(parts, separator) == parts[0]);
    } else if parts.len() > 1 {
        let shorter = parts.drop_last();
        assert(forall|i: int| 0 <= i < shorter.len() ==> #[trigger] shorter[i] == parts[i]);
        lemma_joined_lacks(family, shorter, separator);
        let head = joined(shorter, separator);
        let last = parts[parts.len() - 1];
        lemma_outline_joins(family, head, separator);
        lemma_outline_joins(family, head + separator, last);
        lemma_occurrences_join(outline(family, head), outline(family, separator), 'B');
        lemma_occurrences_join(
            outline(family, head) + outline(family, separator),
            outline(family, last),
            'B',
        );
    }
}

/// The sum of ones.
pub proof fn lemma_sum_of_ones(counts: Seq<nat>)
    requires
        forall|i: int| 0 <= i < counts.len() ==> #[trigger] counts[i] == 1,
    ensures
        sum(counts) == counts.len(),
    decreases counts.len(),
{
    if counts.len() > 0 {
        let shorter = counts.drop_last();
        assert(forall|i: int| 0 <= i < shorter.len() ==> #[trigger] shorter[i] == counts[i]);
        lemma_sum_of_ones(shorter);
        assert(counts[counts.len() - 1] == 1);
    }
}

/// Placeholders with commas between them.
pub proof fn lemma_placeholder_list(family: SqlFamily, bound: nat, count: nat)
    ensures
        is_condition(family, joined(placeholders(family, bound, count), ", "@), bound, count),
{
    let marks = placeholders(family, bound, count);
    let counts = Seq::new(count, |i: int| 1nat);
    lemma_words(family, 0);
    reveal_strlit(", ");
    assert forall|i: int| 0 <= i < marks.len() implies is_condition(
        family,
        #[trigger] marks[i],
        bound + sum(counts.subrange(0, i)),
        counts[i],
    ) by {
        lemma_sum_of_ones(counts.subrange(0, i));
        lemma_mark(family, bound + i as nat);
        assert(marks[i] == placeholder_text(family, bound + i as nat + 1));
    }
    lemma_joined(family, marks, ", "@, bound, counts);
    lemma_sum_of_ones(counts);
}

/// A membership in a condition.
proof fn lemma_membership(
    family: SqlFamily,
    field: Seq<char>,
    items: Seq<ValueModel>,
    bound: nat,
)
    ensures
        membership_sql(family, field, items, bound) matches Ok(condition) ==> condition.values
            == items && is_condition(family, condition.text, bound, items.len()),
{
    let name = quoted(family, field);
    let list = joined(placeholders(family, bound, items.len()), ", "@);
    lemma_name(family, field, bound);
    lemma_words(family, bound);
    lemma_words(family, bound + items.len());
    lemma_placeholder_list(family, bound, items.len());
    lemma_pieces(family, name, " IN ("@, bound, 0, 0);
    lemma_pieces(family, name + " IN ("@, list, bound, 0, items.len());
    lemma_pieces(family, name + " IN ("@ + list, ")"@, bound, items.len(), 0);
}

/// The numbers of values of some filters.
pub open spec fn value_counts(filters: Seq<Filter>) -> Seq<nat> {
    Seq::new(filters.len(), |i: int| bound_values(filters[i]).len())
}

/// Whether a text is the condition of a filter behind so many values.
#[verifier::opaque]
pub open spec fn is_clause(family: SqlFamily, filter: Filter, text: Seq<char>, bound: nat) -> bool {
    &&& filter_sql(family, filter, bound) == Ok::<Fragment, ErrorModel>(
        Fragment { text, values: bound_values(filter) },
    )
    &&& is_condition(family, text, bound, bound_values(filter).len())
}

/// Whether a filter has no filters within.
spec fn is_leaf(filter: Filter) -> bool {
    !(filter is And) && !(filter is Or) && !(filter is Not)
}

/// A condition without conditions within.
proof fn lemma_leaf(family: SqlFamily, filter: Filter, bound: nat)
    requires
        is_leaf(filter),
    ensures
        filter_sql(family, filter, bound) matches Ok(condition) ==> is_clause(
            family,
            filter,
            condition.text,
            bound,
        ),
{
    reveal(is_clause);
    lemma_words(family, bound);
    match filter {
        Filter::Eq { field, value } => {
            lemma_comparison(family, field@, "="@, value@, bound);
        },
        Filter::Ne { field, value } => {
            lemma_comparison(family, field@, "<>"@, value@, bound);
        },
        Filter::Lt { field, value } => {
            lemma_comparison(family, field@, "<"@, value@, bound);
        },
        Filter::Lte { field, value } => {
            lemma_comparison(family, field@, "<="@, value@, bound);
        },
        Filter::Gt { field, value } => {
            lemma_comparison(family, field@, ">"@, value@, bound);
        },
        Filter::Gte { field, value } => {
            lemma_comparison(family, field@, ">="@, value@, bound);
        },
        Filter::Contains { field, value } => {
            if let ValueModel::String(part) = value@ {
                reveal_strlit("%");
                assert("%"@ =~= seq!['%']);
                lemma_comparison(
                    family,
                    field@,
                    "LIKE"@,
                    ValueModel::String("%"@ + part + "%"@),
                    bound,
                );
            }
        },
        Filter::In { field, values: items } => {
            lemma_membership(family, field@, values(items@), bound);
        },
        _ => {},
    }
}

/// A condition has one placeholder for each value that its filter compares with, outside of quoted
/// names, numbered in the order of these values; and the values are bound in that order.
pub proof fn lemma_conditions_bind_their_values(family: SqlFamily, filter: Filter, bound: nat)
    ensures
        filter_sql(family, filter, bound) matches Ok(condition) ==> is_clause(
            family,
            filter,
            condition.text,
            bound,
        ),
    decreases filter,
{
    match filter {
        Filter::And { filters } => {
            reveal_strlit(" AND ");
            lemma_words(family, 0);
            lemma_conditions_bind_all_values(family, filters@, " AND "@, bound);
            reveal(is_clause);
        },
        Filter::Or { filters } => {
            reveal_strlit(" OR ");
            lemma_words(family, 0);
            lemma_conditions_bind_all_values(family, filters@, " OR "@, bound);
            reveal(is_clause);
        },
        Filter::Not { filter: inner } => {
            lemma_conditions_bind_their_values(family, *inner, bound);
            lemma_negation(family, *inner, bound);
        },
        _ => {
            lemma_leaf(family, filter, bound);
        },
    }
}

/// A condition that is denied.
proof fn lemma_negation(family: SqlFamily, inner: Filter, bound: nat)
    requires
        filter_sql(family, inner, bound) matches Ok(condition) ==> is_clause(
            family,
            inner,
            condition.text,
            bound,
        ),
    ensures
        forall|filter: Filter|
            filter is Not && *filter->Not_filter == inner ==> (#[trigger] filter_sql(
                family,
                filter,
                bound,
            ) matches Ok(condition) ==> is_clause(family, filter, condition.text, bound)),
{
    reveal(is_clause);
    if let Ok(condition) = filter_sql(family, inner, bound) {
        let count = condition.values.len();
        lemma_words(family, bound);
        lemma_words(family, bound + count);
        lemma_pieces(family, "NOT ("@, condition.text, bound, 0, count);
        lemma_pieces(family, "NOT ("@ + condition.text, ")"@, bound, count, 0);
    }
}

/// Several conditions with a word between them.
proof fn lemma_conditions_bind_all_values(
    family: SqlFamily,
    filters: Seq<Filter>,
    word: Seq<char>,
    bound: nat,
)
    requires
        is_unmarked(word),
        is_condition(family, word, 0, 0),
        word.len() > 0 && !is_digit(word[0]),
    ensures
        logical_sql(filters_sql(family, filters, bound), filters.len(), word) matches Ok(
            condition,
        ) ==> condition.values == all_bound_values(filters) && is_condition(
            family,
            condition.text,
            bound,
            all_bound_values(filters).len(),
        ),
    decreases filters, 1nat,
{
    lemma_each_condition(family, filters, bound);
    if let Ok(clauses) = filters_sql(family, filters, bound) {
        let counts = value_counts(filters);
        let list = joined(clauses.texts, word);
        assert forall|i: int| 0 <= i < clauses.texts.len() implies is_condition(
            family,
            #[trigger] clauses.texts[i],
            bound + sum(counts.subrange(0, i)),
            counts[i],
        ) by {
            assert(is_clause(
                family,
                filters[i],
                clauses.texts[i],
                bound + sum(counts.subrange(0, i)),
            ));
            reveal(is_clause);
        }
        lemma_joined(family, clauses.texts, word, bound, counts);
        lemma_words(family, bound);
        lemma_words(family, bound + sum(counts));
        lemma_pieces(family, "("@, list, bound, 0, sum(counts));
        lemma_pieces(family, "("@ + list, ")"@, bound, sum(counts), 0);
    }
}

/// Several conditions, each behind the values of those before it.
pub proof fn lemma_each_condition(family: SqlFamily, filters: Seq<Filter>, bound: nat)
    ensures
        filters_sql(family, filters, bound) matches Ok(clauses) ==> {
            &&& clauses.texts.len() == filters.len()
            &&& clauses.values == all_bound_values(filters)
            &&& clauses.values.len() == sum(value_counts(filters))
            &&& forall|i: int|
                0 <= i < filters.len() ==> is_clause(
                    family,
                    filters[i],
                    #[trigger] clauses.texts[i],
                    bound + sum(value_counts(filters).subrange(0, i)),
                )
        },
    decreases filters, 0nat,
{
    if filters.len() > 0 {
        let before = filters.subrange(0, filters.len() - 1);
        let last = filters[filters.len() - 1];
        lemma_each_condition(family, before, bound);
        if let Ok(shown) = filters_sql(family, before, bound) {
            assert(decreases_to!(filters => last));
            let place = bound + shown.values.len();
            lemma_conditions_bind_their_values(family, last, place);
            if let Ok(condition) = filter_sql(family, last, place) {
                let counts = value_counts(filters);
                let texts = shown.texts.push(condition.text);
                assert(counts.drop_last() =~= value_counts(before));
                assert(condition.values == bound_values(last)) by {
                    reveal(is_clause);
                }
                assert(counts.last() == bound_values(last).len());
                assert(sum(counts) == sum(counts.drop_last()) + counts.last());
                assert forall|i: int| 0 <= i < filters.len() implies is_clause(
                    family,
                    filters[i],
                    #[trigger] texts[i],
                    bound + sum(counts.subrange(0, i)),
                ) by {
                    if i < before.len() {
                        assert(texts[i] == shown.texts[i]);
                        assert(counts.subrange(0, i) =~= value_counts(before).subrange(0, i));
                        assert(before[i] == filters[i]);
                    } else {
                        assert(counts.subrange(0, i) =~= counts.drop_last());
                    }
                }
            }
        }
    }
}

/// Whether a comparison admits a stored value, by the sign of its difference from the one that it
/// is compared with.
pub open spec fn admits(filter: Filter, sign: int) -> bool {
    match filter {
        Filter::Eq { .. } => sign == 0,
        Filter::Ne { .. } => sign != 0,
        Filter::Lt { .. } => sign < 0,
        Filter::Lte { .. } => sign <= 0,
        Filter::Gt { .. } => sign > 0,
        Filter::Gte { .. } => sign >= 0,
        _ => false,
    }
}

/// Whether an operator of SQL admits a value on its left, by the sign of the difference from the
/// one on its right.
pub open spec fn operator_admits(operator: Seq<char>, sign: int) -> bool {
    ||| operator == seq!['='] && sign == 0
    ||| operator == seq!['<'].push('>') && sign != 0
    ||| operator == seq!['<'] && sign < 0
    ||| operator == seq!['<'].push('=') && sign <= 0
    ||| operator == seq!['>'] && sign > 0
    ||| operator == seq!['>'].push('=') && sign >= 0
}

/// The field and the value of a comparison.
pub open spec fn compared(filter: Filter) -> Option<(Seq<char>, ValueModel)> {
    match filter {
        Filter::Eq { field, value }
        | Filter::Ne { field, value }
        | Filter::Lt { field, value }
        | Filter::Lte { field, value }
        | Filter::Gt { field, value }
        | Filter::Gte { field, value } => Some((field@, value@)),
        _ => None,
    }
}

/// The operator between a field and a placeholder.
pub open spec fn compares(
    family: SqlFamily,
    text: Seq<char>,
    field: Seq<char>,
    operator: Seq<char>,
    number: nat,
) -> bool {
    text == quoted(family, field) + seq![' '] + operator + seq![' '] + numbered_mark(family, number)
}

/// A comparison asks of a row what its filter says: the operator between the quoted field and the
/// placeholder of its value admits just the values that the filter admits.
pub proof fn lemma_comparisons_mean_what_they_say(family: SqlFamily, filter: Filter, bound: nat)
    requires
        compared(filter) is Some,
        !((compared(filter)->0).1 is Null),
    ensures
        filter_sql(family, filter, bound) matches Ok(condition) ==> {
            &&& condition.values == seq![(compared(filter)->0).1]
            &&& exists|operator: Seq<char>|
                #[trigger] compares(
                    family,
                    condition.text,
                    (compared(filter)->0).0,
                    operator,
                    bound + 1,
                ) && forall|sign: int| operator_admits(operator, sign) == admits(filter, sign)
        },
{
    reveal_strlit(" ");
    reveal_strlit("=");
    reveal_strlit("<>");
    reveal_strlit("<");
    reveal_strlit("<=");
    reveal_strlit(">");
    reveal_strlit(">=");
    assert(" "@ =~= seq![' ']);
    lemma_placeholder_binds(family, bound);
    let operator = match filter {
        Filter::Eq { .. } => "="@,
        Filter::Ne { .. } => "<>"@,
        Filter::Lt { .. } => "<"@,
        Filter::Lte { .. } => "<="@,
        Filter::Gt { .. } => ">"@,
        _ => ">="@,
    };
    assert("="@ =~= seq!['=']);
    assert("<>"@ =~= seq!['<'].push('>'));
    assert("<"@ =~= seq!['<']);
    assert("<="@ =~= seq!['<'].push('='));
    assert(">"@ =~= seq!['>']);
    assert(">="@ =~= seq!['>'].push('='));
    assert(seq!['<'].push('>')[1] == '>');
    assert(seq!['<'].push('=')[1] == '=');
    assert(seq!['>'].push('=')[1] == '=');
    assert(seq!['>'][0] == '>' && seq!['<'][0] == '<' && seq!['='][0] == '=');
    assert(seq!['<'].push('>')[0] == '<' && seq!['<'].push('=')[0] == '<');
    assert(seq!['>'].push('=')[0] == '>');
    assert(seq!['<'].push('>').len() == 2 && seq!['<'].push('=').len() == 2);
    assert(seq!['>'].push('=').len() == 2);
    assert forall|sign: int| operator_admits(operator, sign) == admits(filter, sign) by {}
    if let Ok(condition) = filter_sql(family, filter, bound) {
        assert(condition.values =~= seq![(compared(filter)->0).1]);
        assert(condition.text =~= quoted(family, (compared(filter)->0).0) + seq![' '] + operator
            + seq![' '] + numbered_mark(family, bound + 1));
        assert(compares(family, condition.text, (compared(filter)->0).0, operator, bound + 1));
    }
}

/// A condition on a null asks whether a field has one or has none, one on a part of a text asks for
/// it with a pattern, and one on some values asks for any of them.
pub proof fn lemma_conditions_mean_what_they_say(family: SqlFamily, filter: Filter, bound: nat)
    ensures
        filter_sql(family, filter, bound) matches Ok(condition) ==> match filter {
            Filter::Eq { field, value } => value@ is Null ==> condition.text == quoted(family, field@)
                + " IS NULL"@,
            Filter::Ne { field, value } => value@ is Null ==> condition.text == quoted(family, field@)
                + " IS NOT NULL"@,
            Filter::Contains { field, value } => condition.text == quoted(family, field@)
                + " LIKE "@ + numbered_mark(family, bound + 1),
            Filter::In { field, values: items } => condition.text == quoted(family, field@) + " IN ("@
                + joined(
                Seq::new(items@.len(), |i: int| numbered_mark(family, (bound + i + 1) as nat)),
                ", "@,
            ) + ")"@,
            _ => true,
        },
{
    if let Ok(condition) = filter_sql(family, filter, bound) {
        match filter {
            Filter::Ne { .. } => {
                reveal_strlit("=");
                reveal_strlit("<>");
                assert("="@.len() != "<>"@.len());
            },
            Filter::Contains { field, value } => {
                lemma_placeholder_binds(family, bound);
                reveal_strlit(" ");
                reveal_strlit("LIKE");
                reveal_strlit(" LIKE ");
                assert(" LIKE "@ =~= " "@ + "LIKE"@ + " "@);
                assert(condition.text =~= quoted(family, field@) + " LIKE "@ + numbered_mark(
                    family,
                    bound + 1,
                ));
            },
            Filter::In { field, values: items } => {
                let marks = placeholders(family, bound, items@.len());
                assert forall|i: int| 0 <= i < marks.len() implies #[trigger] marks[i]
                    == numbered_mark(family, (bound + i + 1) as nat) by {
                    lemma_placeholder_binds(family, (bound + i) as nat);
                }
                assert(values(items@).len() == items@.len());
                assert(marks =~= Seq::new(
                    items@.len(),
                    |i: int| numbered_mark(family, (bound + i + 1) as nat),
                ));
            },
            _ => {},
        }
    }
}

/// A condition on several filters stands in brackets, with the word that asks for all or for any of
/// them between their own conditions; one that denies a filter asks that its condition not hold.
pub proof fn lemma_logic_means_what_it_says(family: SqlFamily, filter: Filter, bound: nat)
    ensures
        filter_sql(family, filter, bound) matches Ok(condition) ==> match filter {
            Filter::And { filters } => exists|texts: Seq<Seq<char>>|
                #[trigger] are_clauses(family, filters@, texts, bound) && condition.text == "("@
                    + joined(texts, " AND "@) + ")"@,
            Filter::Or { filters } => exists|texts: Seq<Seq<char>>|
                #[trigger] are_clauses(family, filters@, texts, bound) && condition.text == "("@
                    + joined(texts, " OR "@) + ")"@,
            Filter::Not { filter: inner } => exists|text: Seq<char>|
                #[trigger] is_clause(family, *inner, text, bound) && condition.text == "NOT ("@
                    + text + ")"@,
            _ => true,
        },
{
    if let Ok(condition) = filter_sql(family, filter, bound) {
        match filter {
            Filter::And { filters } => {
                lemma_each_condition(family, filters@, bound);
                let texts = filters_sql(family, filters@, bound)->Ok_0.texts;
                assert(are_clauses(family, filters@, texts, bound));
            },
            Filter::Or { filters } => {
                lemma_each_condition(family, filters@, bound);
                let texts = filters_sql(family, filters@, bound)->Ok_0.texts;
                assert(are_clauses(family, filters@, texts, bound));
            },
            Filter::Not { filter: inner } => {
                lemma_conditions_bind_their_values(family, *inner, bound);
                let text = filter_sql(family, *inner, bound)->Ok_0.text;
                assert(is_clause(family, *inner, text, bound));
            },
            _ => {},
        }
    }
}

/// Whether texts are the conditions of filters, each behind the values of those before it.
pub open spec fn are_clauses(
    family: SqlFamily,
    filters: Seq<Filter>,
    texts: Seq<Seq<char>>,
    bound: nat,
) -> bool {
    &&& texts.len() == filters.len()
    &&& forall|i: int|
        0 <= i < filters.len() ==> is_clause(
            family,
            filters[i],
            #[trigger] texts[i],
            bound + sum(value_counts(filters).subrange(0, i)),
        )
}

/// A comparison by order is not asked of null.
proof fn lemma_only_equality_asks_for_null(
    family: SqlFamily,
    field: Seq<char>,
    operator: Seq<char>,
    value: ValueModel,
    bound: nat,
)
    requires
        operator == "<"@ || operator == "<="@ || operator == ">"@ || operator == ">="@,
    ensures
        comparison_sql(family, field, operator, value, bound) is Ok <==> is_identifier(field) && !(
        value is Null),
{
    reveal_strlit("=");
    reveal_strlit("<>");
    reveal_strlit("<");
    reveal_strlit("<=");
    reveal_strlit(">");
    reveal_strlit(">=");
    assert(operator[0] != '=');
    assert("="@[0] == '=');
    assert("<>"@.len() == 2 && "<>"@[1] == '>');
    assert(operator.len() == 2 ==> operator[1] == '=');
}

/// A filter without filters within that can be asked.
proof fn lemma_leaf_can_be_asked(family: SqlFamily, filter: Filter, bound: nat)
    requires
        is_leaf(filter),
    ensures
        filter_sql(family, filter, bound) is Ok <==> is_askable(filter),
        filter_sql(family, filter, bound) matches Err(error) ==> error.category
            == ErrorCategory::InvalidRequest && !error.retryable,
{
    match filter {
        Filter::Eq { .. } | Filter::Ne { .. } => {
            reveal_strlit("=");
            reveal_strlit("<>");
            assert("="@.len() != "<>"@.len());
        },
        Filter::Lt { field, value } => {
            lemma_only_equality_asks_for_null(family, field@, "<"@, value@, bound);
        },
        Filter::Lte { field, value } => {
            lemma_only_equality_asks_for_null(family, field@, "<="@, value@, bound);
        },
        Filter::Gt { field, value } => {
            lemma_only_equality_asks_for_null(family, field@, ">"@, value@, bound);
        },
        Filter::Gte { field, value } => {
            lemma_only_equality_asks_for_null(family, field@, ">="@, value@, bound);
        },
        Filter::In { field, values: items } => {
            lemma_no_null_among(items@);
        },
        _ => {},
    }
}

/// Values without a null.
proof fn lemma_no_null_among(items: Seq<crate::value::DbValue>)
    ensures
        has_null(values(items)) <==> !(forall|i: int|
            0 <= i < items.len() ==> !((#[trigger] items[i])@ is Null)),
{
    let all = values(items);
    assert(forall|i: int| 0 <= i < items.len() ==> #[trigger] all[i] == items[i]@);
    if has_null(all) {
        let i = choose|i: int| 0 <= i < all.len() && #[trigger] all[i] == ValueModel::Null;
        assert(items[i]@ is Null);
    } else {
        assert forall|i: int| 0 <= i < items.len() implies !((#[trigger] items[i])@ is Null) by {
            assert(all[i] != ValueModel::Null);
        }
    }
}

/// A filter that can be asked becomes a condition, and any other one is refused as an invalid
/// request.
pub proof fn lemma_filters_that_can_be_asked(family: SqlFamily, filter: Filter, bound: nat)
    ensures
        filter_sql(family, filter, bound) is Ok <==> is_askable(filter),
        filter_sql(family, filter, bound) matches Err(error) ==> error.category
            == ErrorCategory::InvalidRequest && !error.retryable,
    decreases filter,
{
    match filter {
        Filter::And { filters } => {
            lemma_lists_that_can_be_asked(family, filters@, bound);
            assert(is_askable(filter) == (filters@.len() > 0 && forall|i: int|
                #![auto]
                0 <= i < filters@.len() ==> is_askable(filters@[i])));
        },
        Filter::Or { filters } => {
            lemma_lists_that_can_be_asked(family, filters@, bound);
            assert(is_askable(filter) == (filters@.len() > 0 && forall|i: int|
                #![auto]
                0 <= i < filters@.len() ==> is_askable(filters@[i])));
        },
        Filter::Not { filter: inner } => {
            lemma_filters_that_can_be_asked(family, *inner, bound);
        },
        _ => {
            lemma_leaf_can_be_asked(family, filter, bound);
        },
    }
}

/// Filters that can all be asked.
proof fn lemma_lists_that_can_be_asked(family: SqlFamily, filters: Seq<Filter>, bound: nat)
    ensures
        filters_sql(family, filters, bound) is Ok <==> (forall|i: int|
            #![auto]
            0 <= i < filters.len() ==> is_askable(filters[i])),
        filters_sql(family, filters, bound) matches Err(error) ==> error.category
            == ErrorCategory::InvalidRequest && !error.retryable,
    decreases filters,
{
    if filters.len() > 0 {
        let before = filters.subrange(0, filters.len() - 1);
        let last = filters[filters.len() - 1];
        lemma_lists_that_can_be_asked(family, before, bound);
        assert(forall|i: int| 0 <= i < before.len() ==> #[trigger] before[i] == filters[i]);
        if let Ok(shown) = filters_sql(family, before, bound) {
            assert(decreases_to!(filters => last));
            lemma_filters_that_can_be_asked(family, last, bound + shown.values.len());
            assert forall|i: int| 0 <= i < filters.len() && is_askable(last) implies is_askable(
                #[trigger] filters[i],
            ) by {
                if i < before.len() {
                    assert(is_askable(before[i]));
                }
            }
        } else {
            let i = choose|i: int| 0 <= i < before.len() && !is_askable(#[trigger] before[i]);
            assert(!is_askable(filters[i]));
        }
    }
}

} // verus!
