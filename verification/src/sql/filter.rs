//! Filters as SQL conditions with bound parameters.
use crate::model::{framed, invalid, invalid_request, ConnectorError, ErrorModel, Filter};
use crate::sql::identifier::{
    placeholder, placeholder_text, quote_identifier, quote_result, SqlFamily,
};
use crate::text::{join, joined, same, texts};
use crate::value::{values, DbValue, ValueModel};
use vstd::prelude::*;
use vstd::string::StringExecFns;

verus! {

broadcast use {crate::text::group_texts, crate::value::group_models};

/// A piece of SQL text with the values of its placeholders, in the order of the placeholders.
pub struct Fragment {
    pub text: Seq<char>,
    pub values: Seq<ValueModel>,
}

/// Several pieces of SQL text with the values of all their placeholders.
pub struct Fragments {
    pub texts: Seq<Seq<char>>,
    pub values: Seq<ValueModel>,
}

/// The condition that compares a field with a value, where `bound` values are bound already.
pub open spec fn comparison_sql(
    family: SqlFamily,
    field: Seq<char>,
    operator: Seq<char>,
    value: ValueModel,
    bound: nat,
) -> Result<Fragment, ErrorModel> {
    match quote_result(family, field) {
        Err(error) => Err(error),
        Ok(field) => if value == ValueModel::Null {
            if operator == "="@ {
                Ok(Fragment { text: field + " IS NULL"@, values: Seq::empty() })
            } else if operator == "<>"@ {
                Ok(Fragment { text: field + " IS NOT NULL"@, values: Seq::empty() })
            } else {
                Err(invalid_request("NULL only supports equality and inequality filters"@))
            }
        } else {
            Ok(
                Fragment {
                    text: field + " "@ + operator + " "@ + placeholder_text(family, bound + 1),
                    values: seq![value],
                },
            )
        },
    }
}

/// The placeholders of `count` values after `bound` others.
pub open spec fn placeholders(family: SqlFamily, bound: nat, count: nat) -> Seq<Seq<char>> {
    Seq::new(count, |i: int| placeholder_text(family, (bound + i + 1) as nat))
}

/// Whether some value is the null value.
pub open spec fn has_null(items: Seq<ValueModel>) -> bool {
    exists|i: int| 0 <= i < items.len() && #[trigger] items[i] == ValueModel::Null
}

/// The condition that a field has one of some values.
pub open spec fn membership_sql(
    family: SqlFamily,
    field: Seq<char>,
    items: Seq<ValueModel>,
    bound: nat,
) -> Result<Fragment, ErrorModel> {
    if items.len() == 0 {
        Err(invalid_request("IN filters require at least one value"@))
    } else if has_null(items) {
        Err(invalid_request("NULL is not accepted inside an IN filter"@))
    } else {
        match quote_result(family, field) {
            Err(error) => Err(error),
            Ok(field) => Ok(
                Fragment {
                    text: field + " IN ("@ + joined(
                        placeholders(family, bound, items.len()),
                        ", "@,
                    ) + ")"@,
                    values: items,
                },
            ),
        }
    }
}

/// The condition of a filter, where `bound` values are bound already.
pub open spec fn filter_sql(family: SqlFamily, filter: Filter, bound: nat) -> Result<
    Fragment,
    ErrorModel,
>
    decreases filter,
{
    match filter {
        Filter::Eq { field, value } => comparison_sql(family, field@, "="@, value@, bound),
        Filter::Ne { field, value } => comparison_sql(family, field@, "<>"@, value@, bound),
        Filter::Lt { field, value } => comparison_sql(family, field@, "<"@, value@, bound),
        Filter::Lte { field, value } => comparison_sql(family, field@, "<="@, value@, bound),
        Filter::Gt { field, value } => comparison_sql(family, field@, ">"@, value@, bound),
        Filter::Gte { field, value } => comparison_sql(family, field@, ">="@, value@, bound),
        Filter::Contains { field, value } => match value@ {
            ValueModel::String(part) => comparison_sql(
                family,
                field@,
                "LIKE"@,
                ValueModel::String("%"@ + part + "%"@),
                bound,
            ),
            _ => Err(invalid_request("contains filters require a string value"@)),
        },
        Filter::In { field, values: items } => membership_sql(
            family,
            field@,
            values(items@),
            bound,
        ),
        Filter::And { filters } => logical_sql(
            filters_sql(family, filters@, bound),
            filters@.len(),
            " AND "@,
        ),
        Filter::Or { filters } => logical_sql(
            filters_sql(family, filters@, bound),
            filters@.len(),
            " OR "@,
        ),
        Filter::Not { filter } => match filter_sql(family, *filter, bound) {
            Err(error) => Err(error),
            Ok(inner) => Ok(
                Fragment { text: "NOT ("@ + inner.text + ")"@, values: inner.values },
            ),
        },
    }
}

/// Conditions joined in brackets.
pub open spec fn logical_sql(
    clauses: Result<Fragments, ErrorModel>,
    count: nat,
    separator: Seq<char>,
) -> Result<Fragment, ErrorModel> {
    if count == 0 {
        Err(invalid_request("logical filters cannot be empty"@))
    } else {
        match clauses {
            Err(error) => Err(error),
            Ok(clauses) => Ok(
                Fragment {
                    text: "("@ + joined(clauses.texts, separator) + ")"@,
                    values: clauses.values,
                },
            ),
        }
    }
}

/// The conditions of several filters, each bound after the ones before it; the error of the first
/// that has one.
pub open spec fn filters_sql(family: SqlFamily, filters: Seq<Filter>, bound: nat) -> Result<
    Fragments,
    ErrorModel,
>
    decreases filters,
{
    if filters.len() == 0 {
        Ok(Fragments { texts: Seq::empty(), values: Seq::empty() })
    } else {
        match filters_sql(family, filters.subrange(0, filters.len() - 1), bound) {
            Err(error) => Err(error),
            Ok(before) => match filter_sql(
                family,
                filters[filters.len() - 1],
                bound + before.values.len(),
            ) {
                Err(error) => Err(error),
                Ok(last) => Ok(
                    Fragments {
                        texts: before.texts.push(last.text),
                        values: before.values + last.values,
                    },
                ),
            },
        }
    }
}

/// Whether compiling gave what is expected: the text, and its values behind those that were bound
/// before; or the error. Values bound before stay.
pub open spec fn is_fragment_result(
    result: Result<String, ConnectorError>,
    expected: Result<Fragment, ErrorModel>,
    before: Seq<DbValue>,
    after: Seq<DbValue>,
) -> bool {
    &&& before.is_prefix_of(after)
    &&& match (result, expected) {
        (Ok(text), Ok(wanted)) => text@ == wanted.text && values(after) == values(before)
            + wanted.values,
        (Err(error), Err(wanted)) => error@ == wanted,
        _ => false,
    }
}

/// Compares a field with a value.
fn compile_comparison(
    family: SqlFamily,
    field: &str,
    operator: &str,
    value: &DbValue,
    parameters: &mut Vec<DbValue>,
) -> (result: Result<String, ConnectorError>)
    ensures
        is_fragment_result(
            result,
            comparison_sql(family, field@, operator@, value@, old(parameters)@.len()),
            old(parameters)@,
            final(parameters)@,
        ),
{
    let field = match quote_identifier(family, field) {
        Err(error) => {
            return Err(error);
        },
        Ok(field) => field,
    };
    if value.is_null() {
        assert(values(parameters@) =~= values(old(parameters)@) + Seq::<ValueModel>::empty());
        if same(operator, "=") {
            return Ok(crate::model::appended(field.as_str(), " IS NULL"));
        }
        if same(operator, "<>") {
            return Ok(crate::model::appended(field.as_str(), " IS NOT NULL"));
        }
        return Err(invalid("NULL only supports equality and inequality filters"));
    }
    parameters.push(value.copy());
    let mark = placeholder(family, parameters.len());
    let mut text = field;
    text.append(" ");
    text.append(operator);
    text.append(" ");
    text.append(mark.as_str());
    assert(values(parameters@) =~= values(old(parameters)@) + seq![value@]);
    Ok(text)
}

/// Whether some value is the null value.
fn any_null(items: &Vec<DbValue>) -> (result: bool)
    ensures
        result == has_null(values(items@)),
{
    let mut i: usize = 0;
    while i < items.len()
        invariant
            i <= items@.len(),
            forall|j: int| 0 <= j < i ==> #[trigger] values(items@)[j] != ValueModel::Null,
        decreases items@.len() - i,
    {
        if items[i].is_null() {
            assert(values(items@)[i as int] == ValueModel::Null);
            return true;
        }
        i = i + 1;
    }
    false
}

/// Asks for one of some values.
fn compile_membership(
    family: SqlFamily,
    field: &str,
    items: &Vec<DbValue>,
    parameters: &mut Vec<DbValue>,
) -> (result: Result<String, ConnectorError>)
    ensures
        is_fragment_result(
            result,
            membership_sql(family, field@, values(items@), old(parameters)@.len()),
            old(parameters)@,
            final(parameters)@,
        ),
{
    if items.len() == 0 {
        return Err(invalid("IN filters require at least one value"));
    }
    if any_null(items) {
        return Err(invalid("NULL is not accepted inside an IN filter"));
    }
    let field = match quote_identifier(family, field) {
        Err(error) => {
            return Err(error);
        },
        Ok(field) => field,
    };
    let ghost bound = parameters@.len();
    let ghost before = parameters@;
    let mut marks: Vec<String> = Vec::new();
    let mut i: usize = 0;
    assert(values(parameters@) =~= values(before) + values(items@).subrange(0, 0));
    assert(texts(marks@) =~= placeholders(family, bound, 0));
    while i < items.len()
        invariant
            i <= items@.len(),
            bound == before.len(),
            before.is_prefix_of(parameters@),
            values(parameters@) == values(before) + values(items@).subrange(0, i as int),
            texts(marks@) == placeholders(family, bound, i as nat),
        decreases items@.len() - i,
    {
        let ghost previous = parameters@;
        let ghost shown = marks@;
        parameters.push(items[i].copy());
        assert(values(parameters@) == values(previous).push(items@[i as int]@));
        assert(values(parameters@) =~= values(before) + values(items@).subrange(0, i + 1));
        assert(values(parameters@).len() == parameters@.len());
        let mark = placeholder(family, parameters.len());
        let ghost text = mark@;
        marks.push(mark);
        assert(texts(marks@) == texts(shown).push(text));
        assert(texts(marks@) =~= placeholders(family, bound, (i + 1) as nat));
        i = i + 1;
    }
    assert(values(items@).subrange(0, i as int) =~= values(items@));
    let list = join(&marks, ", ");
    let mut text = field;
    text.append(" IN (");
    text.append(list.as_str());
    text.append(")");
    Ok(text)
}

/// An error among the first filters is the error of them all.
proof fn lemma_filters_fail_early(
    family: SqlFamily,
    filters: Seq<Filter>,
    count: int,
    bound: nat,
)
    requires
        0 <= count <= filters.len(),
        filters_sql(family, filters.subrange(0, count), bound) is Err,
    ensures
        filters_sql(family, filters, bound) == filters_sql(
            family,
            filters.subrange(0, count),
            bound,
        ),
    decreases filters.len(),
{
    if count == filters.len() {
        assert(filters.subrange(0, count) =~= filters);
    } else {
        let shorter = filters.subrange(0, filters.len() - 1);
        assert(shorter.subrange(0, count) =~= filters.subrange(0, count));
        lemma_filters_fail_early(family, shorter, count, bound);
    }
}

/// Writes the conditions of several filters.
fn compile_filters(
    family: SqlFamily,
    filters: &Vec<Filter>,
    parameters: &mut Vec<DbValue>,
) -> (result: Result<Vec<String>, ConnectorError>)
    ensures
        old(parameters)@.is_prefix_of(final(parameters)@),
        match (result, filters_sql(family, filters@, old(parameters)@.len())) {
            (Ok(list), Ok(wanted)) => texts(list@) == wanted.texts && values(final(parameters)@)
                == values(old(parameters)@) + wanted.values,
            (Err(error), Err(wanted)) => error@ == wanted,
            _ => false,
        },
    decreases filters,
{
    let ghost before = parameters@;
    let ghost bound = parameters@.len();
    let mut clauses: Vec<String> = Vec::new();
    let mut i: usize = 0;
    assert(filters@.subrange(0, 0) =~= Seq::<Filter>::empty());
    assert(values(parameters@) =~= values(before) + Seq::<ValueModel>::empty());
    while i < filters.len()
        invariant
            i <= filters@.len(),
            before == old(parameters)@,
            bound == before.len(),
            before.is_prefix_of(parameters@),
            filters_sql(family, filters@.subrange(0, i as int), bound) matches Ok(shown)
                && texts(clauses@) == shown.texts && values(parameters@) == values(before)
                + shown.values,
        decreases filters@.len() - i,
    {
        let ghost next = filters@.subrange(0, i + 1);
        let ghost shown = filters_sql(family, filters@.subrange(0, i as int), bound)->Ok_0;
        assert(next.subrange(0, next.len() - 1) =~= filters@.subrange(0, i as int));
        assert(next[next.len() - 1] == filters@[i as int]);
        assert(values(parameters@).len() == bound + shown.values.len());
        let filter = &filters[i];
        assert(decreases_to!(filters => *filter));
        let ghost previous = parameters@;
        match compile_filter(family, filter, parameters) {
            Err(error) => {
                proof {
                    lemma_filters_fail_early(family, filters@, i + 1, bound);
                }
                return Err(error);
            },
            Ok(clause) => {
                clauses.push(clause);
                proof {
                    let last = filter_sql(family, *filter, previous.len())->Ok_0;
                    assert(values(parameters@) =~= values(before) + (shown.values + last.values));
                }
            },
        }
        i = i + 1;
    }
    assert(filters@.subrange(0, i as int) =~= filters@);
    Ok(clauses)
}

/// Writes a filter as a condition and binds its values behind those in `parameters`.
pub fn compile_filter(family: SqlFamily, filter: &Filter, parameters: &mut Vec<DbValue>) -> (result:
    Result<String, ConnectorError>)
    ensures
        is_fragment_result(
            result,
            filter_sql(family, *filter, old(parameters)@.len()),
            old(parameters)@,
            final(parameters)@,
        ),
    decreases filter,
{
    match filter {
        Filter::Eq { field, value } => compile_comparison(
            family,
            field.as_str(),
            "=",
            value,
            parameters,
        ),
        Filter::Ne { field, value } => compile_comparison(
            family,
            field.as_str(),
            "<>",
            value,
            parameters,
        ),
        Filter::Lt { field, value } => compile_comparison(
            family,
            field.as_str(),
            "<",
            value,
            parameters,
        ),
        Filter::Lte { field, value } => compile_comparison(
            family,
            field.as_str(),
            "<=",
            value,
            parameters,
        ),
        Filter::Gt { field, value } => compile_comparison(
            family,
            field.as_str(),
            ">",
            value,
            parameters,
        ),
        Filter::Gte { field, value } => compile_comparison(
            family,
            field.as_str(),
            ">=",
            value,
            parameters,
        ),
        Filter::Contains { field, value } => match value {
            DbValue::String(part) => {
                let pattern = DbValue::String(framed("%", part.as_str(), "%"));
                compile_comparison(family, field.as_str(), "LIKE", &pattern, parameters)
            },
            _ => Err(invalid("contains filters require a string value")),
        },
        Filter::In { field, values } => compile_membership(
            family,
            field.as_str(),
            values,
            parameters,
        ),
        Filter::And { filters } => {
            if filters.len() == 0 {
                return Err(invalid("logical filters cannot be empty"));
            }
            match compile_filters(family, filters, parameters) {
                Err(error) => Err(error),
                Ok(clauses) => {
                    let list = join(&clauses, " AND ");
                    Ok(framed("(", list.as_str(), ")"))
                },
            }
        },
        Filter::Or { filters } => {
            if filters.len() == 0 {
                return Err(invalid("logical filters cannot be empty"));
            }
            match compile_filters(family, filters, parameters) {
                Err(error) => Err(error),
                Ok(clauses) => {
                    let list = join(&clauses, " OR ");
                    Ok(framed("(", list.as_str(), ")"))
                },
            }
        },
        Filter::Not { filter } => match compile_filter(family, filter, parameters) {
            Err(error) => Err(error),
            Ok(inner) => Ok(framed("NOT (", inner.as_str(), ")")),
        },
    }
}

/// Whether two filters ask the same of the same fields, whatever the values are: each value of one
/// is null where the other's is null, and a text where the other's must be a text.
pub open spec fn same_shape(left: Filter, right: Filter) -> bool
    decreases left,
{
    match (left, right) {
        (Filter::Eq { field: a, value: v }, Filter::Eq { field: b, value: w }) => a@ == b@
            && same_nullness(v@, w@),
        (Filter::Ne { field: a, value: v }, Filter::Ne { field: b, value: w }) => a@ == b@
            && same_nullness(v@, w@),
        (Filter::Lt { field: a, value: v }, Filter::Lt { field: b, value: w }) => a@ == b@
            && same_nullness(v@, w@),
        (Filter::Lte { field: a, value: v }, Filter::Lte { field: b, value: w }) => a@ == b@
            && same_nullness(v@, w@),
        (Filter::Gt { field: a, value: v }, Filter::Gt { field: b, value: w }) => a@ == b@
            && same_nullness(v@, w@),
        (Filter::Gte { field: a, value: v }, Filter::Gte { field: b, value: w }) => a@ == b@
            && same_nullness(v@, w@),
        (Filter::Contains { field: a, value: v }, Filter::Contains { field: b, value: w }) => a@
            == b@ && (v@ is String) == (w@ is String),
        (Filter::In { field: a, values: v }, Filter::In { field: b, values: w }) => a@ == b@
            && v@.len() == w@.len() && has_null(values(v@)) == has_null(values(w@)),
        (Filter::And { filters: a }, Filter::And { filters: b }) => a@.len() == b@.len() && (
        forall|i: int| #![auto] 0 <= i < a@.len() ==> same_shape(a@[i], b@[i])),
        (Filter::Or { filters: a }, Filter::Or { filters: b }) => a@.len() == b@.len() && (forall|
            i: int,
        |
            #![auto]
            0 <= i < a@.len() ==> same_shape(a@[i], b@[i])),
        (Filter::Not { filter: a }, Filter::Not { filter: b }) => same_shape(*a, *b),
        _ => false,
    }
}

/// Whether two values are both null or both not null.
pub open spec fn same_nullness(left: ValueModel, right: ValueModel) -> bool {
    (left == ValueModel::Null) == (right == ValueModel::Null)
}

/// Whether two conditions have the same text and as many values, or fail alike.
pub open spec fn same_text(
    left: Result<Fragment, ErrorModel>,
    right: Result<Fragment, ErrorModel>,
) -> bool {
    match (left, right) {
        (Ok(left), Ok(right)) => left.text == right.text && left.values.len() == right.values.len(),
        (Err(left), Err(right)) => left == right,
        _ => false,
    }
}

/// The text of a condition does not depend on the values that it compares with: they reach the
/// server as bound parameters only.
pub proof fn lemma_values_never_reach_the_text(
    family: SqlFamily,
    left: Filter,
    right: Filter,
    bound: nat,
)
    requires
        same_shape(left, right),
    ensures
        same_text(filter_sql(family, left, bound), filter_sql(family, right, bound)),
    decreases left,
{
    match (left, right) {
        (Filter::And { filters: a }, Filter::And { filters: b }) => {
            lemma_values_never_reach_the_texts(family, a@, b@, bound);
        },
        (Filter::Or { filters: a }, Filter::Or { filters: b }) => {
            lemma_values_never_reach_the_texts(family, a@, b@, bound);
        },
        (Filter::Not { filter: a }, Filter::Not { filter: b }) => {
            lemma_values_never_reach_the_text(family, *a, *b, bound);
        },
        _ => {},
    }
}

/// The texts of several conditions do not depend on the values that they compare with.
proof fn lemma_values_never_reach_the_texts(
    family: SqlFamily,
    left: Seq<Filter>,
    right: Seq<Filter>,
    bound: nat,
)
    requires
        left.len() == right.len(),
        forall|i: int| #![auto] 0 <= i < left.len() ==> same_shape(left[i], right[i]),
    ensures
        match (filters_sql(family, left, bound), filters_sql(family, right, bound)) {
            (Ok(left), Ok(right)) => left.texts == right.texts && left.values.len()
                == right.values.len(),
            (Err(left), Err(right)) => left == right,
            _ => false,
        },
    decreases left,
{
    if left.len() > 0 {
        let left_before = left.subrange(0, left.len() - 1);
        let right_before = right.subrange(0, right.len() - 1);
        assert forall|i: int| #![auto] 0 <= i < left_before.len() implies same_shape(
            left_before[i],
            right_before[i],
        ) by {
            assert(same_shape(left[i], right[i]));
        }
        lemma_values_never_reach_the_texts(family, left_before, right_before, bound);
        match filters_sql(family, left_before, bound) {
            Ok(before) => {
                let last = left.len() - 1;
                assert(same_shape(left[last], right[last]));
                assert(decreases_to!(left => left[last]));
                lemma_values_never_reach_the_text(
                    family,
                    left[last],
                    right[last],
                    bound + before.values.len(),
                );
            },
            Err(_) => {},
        }
    }
}

} // verus!
