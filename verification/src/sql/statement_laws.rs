//! What statements ask a database to do: which rows, which values and in which order.
use crate::budget::smaller;
use crate::model::{
    ConnectionProfile, ConnectorContext, DeleteRequest, ErrorModel, Filter, InsertRequest,
    ReadRequest, SortField, UpdateRequest,
};
use crate::sql::cursor::offset_result;
use crate::sql::filter::{filter_sql, placeholders};
use crate::sql::filter_laws::{
    bound_values, is_clause, is_condition, lemma_conditions_bind_their_values, lemma_joined,
    lemma_mark, lemma_name, lemma_pieces, lemma_placeholder_list, lemma_plain,
};
use crate::sql::identifier::{qualified_result, quote_all, quoted, SqlFamily};
use crate::sql::outline::{
    begins_apart, binds, is_unmarked, lemma_binds_join, lemma_no_occurrences,
    lemma_occurrences_join, lemma_occurs, lemma_placeholder_binds, lemma_unmarked, numbered_mark,
    occurrences, outline, sum,
};
use crate::sql::statement::{
    all_values, assignment_texts, delete_result, fields_sql, insert_result, into_clauses,
    pagination_sql, read_result, row_text, row_texts, sort_keys, sort_names, sort_sql,
    update_result, where_sql,
};
use crate::text::{decimal, is_digit, joined, lemma_decimal_value, optional_text, split_on, texts};
use crate::value::{record_names, record_values, records, RecordModel, ValueModel};
use vstd::prelude::*;

verus! {

broadcast use {crate::text::group_texts, crate::value::group_models};

/// Names that are all quoted.
pub open spec fn quoted_names(family: SqlFamily, names: Seq<Seq<char>>) -> Seq<Seq<char>> {
    Seq::new(names.len(), |i: int| quoted(family, names[i]))
}

/// Names that are accepted are quoted one by one.
pub proof fn lemma_names_are_quoted(family: SqlFamily, names: Seq<Seq<char>>)
    ensures
        quote_all(family, names) matches Ok(list) ==> list == quoted_names(family, names),
    decreases names.len(),
{
    if names.len() > 0 {
        lemma_names_are_quoted(family, names.drop_last());
        if let Ok(list) = quote_all(family, names) {
            assert(list =~= quoted_names(family, names));
        }
    } else {
        assert(quoted_names(family, names) =~= Seq::<Seq<char>>::empty());
    }
}

/// The name of a table, of which each part is quoted.
pub open spec fn table_name(family: SqlFamily, target: Seq<char>) -> Seq<char> {
    joined(quoted_names(family, split_on(target, '.')), "."@)
}

/// The sum of zeros.
proof fn lemma_sum_of_zeros(counts: Seq<nat>)
    requires
        forall|i: int| 0 <= i < counts.len() ==> #[trigger] counts[i] == 0,
    ensures
        sum(counts) == 0,
    decreases counts.len(),
{
    if counts.len() > 0 {
        let shorter = counts.drop_last();
        assert(forall|i: int| 0 <= i < shorter.len() ==> #[trigger] shorter[i] == counts[i]);
        lemma_sum_of_zeros(shorter);
        assert(counts[counts.len() - 1] == 0);
    }
}

/// Quoted names bind no values.
proof fn lemma_name_list(
    family: SqlFamily,
    names: Seq<Seq<char>>,
    separator: Seq<char>,
    bound: nat,
)
    requires
        separator == ", "@ || separator == "."@,
    ensures
        is_condition(family, joined(quoted_names(family, names), separator), bound, 0),
{
    let list = quoted_names(family, names);
    let counts = Seq::new(names.len(), |i: int| 0nat);
    reveal_strlit(", ");
    reveal_strlit(".");
    lemma_plain(family, separator, 0);
    assert forall|i: int| 0 <= i < list.len() implies is_condition(
        family,
        #[trigger] list[i],
        bound + sum(counts.subrange(0, i)),
        counts[i],
    ) by {
        lemma_sum_of_zeros(counts.subrange(0, i));
        lemma_name(family, names[i], bound);
    }
    lemma_joined(family, list, separator, bound, counts);
    lemma_sum_of_zeros(counts);
}

/// The name of a table binds no values.
proof fn lemma_table(family: SqlFamily, target: Seq<char>, bound: nat)
    ensures
        is_condition(family, table_name(family, target), bound, 0),
        qualified_result(family, target) matches Ok(name) ==> name == table_name(family, target),
{
    lemma_name_list(family, split_on(target, '.'), "."@, bound);
    lemma_names_are_quoted(family, split_on(target, '.'));
}

/// A word with a number behind it binds no values.
proof fn lemma_counted(family: SqlFamily, word: Seq<char>, number: nat, bound: nat)
    requires
        is_unmarked(word),
        word.len() > 0 && !is_digit(word[0]),
        forall|i: int| 0 <= i < word.len() ==> #[trigger] word[i] != 'B',
    ensures
        is_condition(family, word + decimal(number), bound, 0),
{
    lemma_decimal_value(number);
    let text = word + decimal(number);
    assert forall|i: int| 0 <= i < text.len() implies ({
        let c = #[trigger] text[i];
        c != '`' && c != '[' && c != ']' && c != '"' && c != '?' && c != ':' && c != '@' && c != '$'
    }) && text[i] != 'B' by {
        if i < word.len() {
            assert(text[i] == word[i]);
        } else {
            assert(text[i] == decimal(number)[i - word.len()]);
        }
    }
    assert(text[0] == word[0]);
    lemma_plain(family, text, bound);
}

/// The assignments of changes, numbered from one.
pub open spec fn change_texts(family: SqlFamily, changes: RecordModel) -> Seq<Seq<char>> {
    Seq::new(
        changes.len(),
        |i: int| quoted(family, changes[i].0) + " = "@ + numbered_mark(family, (i + 1) as nat),
    )
}

/// Assignments bind one value each.
proof fn lemma_changes(family: SqlFamily, changes: RecordModel)
    ensures
        is_condition(family, joined(change_texts(family, changes), ", "@), 0, changes.len()),
{
    let parts = change_texts(family, changes);
    let counts = Seq::new(changes.len(), |i: int| 1nat);
    reveal_strlit(", ");
    reveal_strlit(" = ");
    lemma_plain(family, ", "@, 0);
    assert forall|i: int| 0 <= i < parts.len() implies is_condition(
        family,
        #[trigger] parts[i],
        0 + sum(counts.subrange(0, i)),
        counts[i],
    ) by {
        let place = i as nat;
        crate::sql::filter_laws::lemma_sum_of_ones(counts.subrange(0, i));
        let name = quoted(family, changes[i].0);
        lemma_name(family, changes[i].0, place);
        lemma_plain(family, " = "@, place);
        lemma_mark(family, place);
        lemma_placeholder_binds(family, place);
        lemma_pieces(family, name, " = "@, place, 0, 0);
        lemma_pieces(family, name + " = "@, numbered_mark(family, place + 1), place, 0, 1);
    }
    lemma_joined(family, parts, ", "@, 0, counts);
    crate::sql::filter_laws::lemma_sum_of_ones(counts);
}

/// The words of changes and deletions bind no values.
proof fn lemma_write_words(family: SqlFamily, bound: nat)
    ensures
        is_condition(family, "UPDATE "@, bound, 0),
        is_condition(family, " SET "@, bound, 0),
        is_condition(family, " WHERE "@, bound, 0),
        is_condition(family, " WHERE ctid IN (SELECT ctid FROM "@, bound, 0),
        is_condition(family, ")"@, bound, 0),
        is_condition(family, ") "@, bound, 0),
        is_condition(family, ") FROM "@, bound, 0),
        is_condition(family, "DELETE FROM "@, bound, 0),
{
    reveal_strlit("UPDATE ");
    lemma_plain(family, "UPDATE "@, bound);
    reveal_strlit(" SET ");
    lemma_plain(family, " SET "@, bound);
    reveal_strlit(" WHERE ");
    lemma_plain(family, " WHERE "@, bound);
    reveal_strlit(" WHERE ctid IN (SELECT ctid FROM ");
    lemma_plain(family, " WHERE ctid IN (SELECT ctid FROM "@, bound);
    reveal_strlit(")");
    lemma_plain(family, ")"@, bound);
    reveal_strlit(") ");
    lemma_plain(family, ") "@, bound);
    reveal_strlit(") FROM ");
    lemma_plain(family, ") FROM "@, bound);
    reveal_strlit("DELETE FROM ");
    lemma_plain(family, "DELETE FROM "@, bound);
}

/// A bound on the number of rows binds no values.
proof fn lemma_limit_words(family: SqlFamily, limit: nat, bound: nat)
    ensures
        is_condition(family, " LIMIT "@ + decimal(limit), bound, 0),
        is_condition(family, "UPDATE TOP ("@ + decimal(limit), bound, 0),
        is_condition(family, "DELETE TOP ("@ + decimal(limit), bound, 0),
{
    reveal_strlit(" LIMIT ");
    lemma_counted(family, " LIMIT "@, limit, bound);
    reveal_strlit("UPDATE TOP (");
    lemma_counted(family, "UPDATE TOP ("@, limit, bound);
    reveal_strlit("DELETE TOP (");
    lemma_counted(family, "DELETE TOP ("@, limit, bound);
}

/// A condition and what stands behind it bind the values of the condition.
proof fn lemma_condition_and_limit(
    family: SqlFamily,
    head: Seq<char>,
    condition: Seq<char>,
    limit: nat,
    before: nat,
    count: nat,
)
    requires
        is_condition(family, head, 0, before),
        is_condition(family, condition, before, count),
    ensures
        is_condition(family, head + " WHERE "@ + condition, 0, before + count),
        is_condition(
            family,
            head + " WHERE "@ + condition + (" LIMIT "@ + decimal(limit)),
            0,
            before + count,
        ),
        is_condition(
            family,
            head + " WHERE "@ + condition + (" LIMIT "@ + decimal(limit)) + ")"@,
            0,
            before + count,
        ),
{
    lemma_write_words(family, before);
    lemma_write_words(family, before + count);
    lemma_limit_words(family, limit, before + count);
    lemma_pieces(family, head, " WHERE "@, 0, before, 0);
    lemma_pieces(family, head + " WHERE "@, condition, 0, before, count);
    let text = head + " WHERE "@ + condition;
    lemma_pieces(family, text, " LIMIT "@ + decimal(limit), 0, before + count, 0);
    lemma_pieces(family, text + (" LIMIT "@ + decimal(limit)), ")"@, 0, before + count, 0);
}

/// What stands before the condition of an update.
pub open spec fn update_head(
    family: SqlFamily,
    table: Seq<char>,
    changes: Seq<char>,
    limit: nat,
) -> Seq<char> {
    match family {
        SqlFamily::PostgreSql => "UPDATE "@ + table + " SET "@ + changes
            + " WHERE ctid IN (SELECT ctid FROM "@ + table,
        SqlFamily::SqlServer => "UPDATE TOP ("@ + decimal(limit) + ") "@ + table + " SET "@
            + changes,
        _ => "UPDATE "@ + table + " SET "@ + changes,
    }
}

/// What stands before the condition of a deletion.
pub open spec fn deletion_head(family: SqlFamily, table: Seq<char>, limit: nat) -> Seq<char> {
    match family {
        SqlFamily::PostgreSql => "DELETE FROM "@ + table + " WHERE ctid IN (SELECT ctid FROM "@
            + table,
        SqlFamily::SqlServer => "DELETE TOP ("@ + decimal(limit) + ") FROM "@ + table,
        _ => "DELETE FROM "@ + table,
    }
}

/// What stands behind the condition of a change or a deletion: a bound on the number of rows where
/// the dialect has one there.
pub open spec fn condition_tail(family: SqlFamily, limit: nat) -> Seq<char> {
    match family {
        SqlFamily::PostgreSql => " LIMIT "@ + decimal(limit) + ")"@,
        SqlFamily::MySql => " LIMIT "@ + decimal(limit),
        _ => Seq::empty(),
    }
}

/// What stands before the condition of an update binds the changes.
proof fn lemma_update_head(family: SqlFamily, target: Seq<char>, changes: RecordModel, limit: nat)
    ensures
        is_condition(
            family,
            update_head(
                family,
                table_name(family, target),
                joined(change_texts(family, changes), ", "@),
                limit,
            ),
            0,
            changes.len(),
        ),
{
    let table = table_name(family, target);
    let list = joined(change_texts(family, changes), ", "@);
    let count = changes.len();
    lemma_table(family, target, 0);
    lemma_table(family, target, count);
    lemma_changes(family, changes);
    lemma_write_words(family, 0);
    lemma_write_words(family, count);
    lemma_limit_words(family, limit, 0);
    let start = if family == SqlFamily::SqlServer {
        "UPDATE TOP ("@ + decimal(limit) + ") "@
    } else {
        "UPDATE "@
    };
    lemma_pieces(family, "UPDATE TOP ("@ + decimal(limit), ") "@, 0, 0, 0);
    lemma_pieces(family, start, table, 0, 0, 0);
    lemma_pieces(family, start + table, " SET "@, 0, 0, 0);
    lemma_pieces(family, start + table + " SET "@, list, 0, 0, count);
    let text = start + table + " SET "@ + list;
    lemma_pieces(family, text, " WHERE ctid IN (SELECT ctid FROM "@, 0, count, 0);
    lemma_pieces(family, text + " WHERE ctid IN (SELECT ctid FROM "@, table, 0, count, 0);
}

/// What stands before the condition of a deletion binds nothing.
proof fn lemma_deletion_head(family: SqlFamily, target: Seq<char>, limit: nat)
    ensures
        is_condition(family, deletion_head(family, table_name(family, target), limit), 0, 0),
{
    let table = table_name(family, target);
    lemma_table(family, target, 0);
    lemma_write_words(family, 0);
    lemma_limit_words(family, limit, 0);
    let start = if family == SqlFamily::SqlServer {
        "DELETE TOP ("@ + decimal(limit) + ") FROM "@
    } else {
        "DELETE FROM "@
    };
    lemma_pieces(family, "DELETE TOP ("@ + decimal(limit), ") FROM "@, 0, 0, 0);
    lemma_pieces(family, start, table, 0, 0, 0);
    let text = start + table;
    lemma_pieces(family, text, " WHERE ctid IN (SELECT ctid FROM "@, 0, 0, 0);
    lemma_pieces(family, text + " WHERE ctid IN (SELECT ctid FROM "@, table, 0, 0, 0);
}

/// Behind how many values a condition binds its own is part of its text.
pub open spec fn condition_behind(family: SqlFamily, filter: Filter, bound: nat) -> Seq<char> {
    filter_sql(family, filter, bound)->Ok_0.text
}

/// An update changes only the rows that its filter selects: in every dialect its text has the
/// condition of the filter behind the word `WHERE`, and nothing behind that but a bound on the
/// number of rows, which is no larger than the request and the policy admit. Its text has as many
/// placeholders as there are bound values, numbered in their order: one for each change and one for
/// each value of the filter.
pub proof fn lemma_updates_change_what_the_filter_selects(
    family: SqlFamily,
    profile: ConnectionProfile,
    request: UpdateRequest,
)
    ensures
        update_result(family, profile, request) matches Ok(query) ==> {
            let limit = smaller(request.max_affected as int, profile.policy.max_affected as int);
            let condition = condition_behind(family, request.filter, request.changes@.len());
            &&& request.changes@.len() > 0 && request.max_affected > 0
            &&& is_clause(family, request.filter, condition, request.changes@.len())
            &&& query.sql == update_head(
                family,
                table_name(family, request.target@),
                joined(change_texts(family, request.changes@), ", "@),
                limit as nat,
            ) + " WHERE "@ + condition + condition_tail(family, limit as nat)
            &&& query.parameters == record_values(request.changes@) + bound_values(request.filter)
            &&& binds(family, query.sql, 0, query.parameters.len())
        },
{
    if let Ok(query) = update_result(family, profile, request) {
        let changes = request.changes@;
        let count = changes.len();
        let limit = smaller(request.max_affected as int, profile.policy.max_affected as int) as nat;
        let target = table_name(family, request.target@);
        let list = joined(change_texts(family, changes), ", "@);
        let condition = condition_behind(family, request.filter, count);
        let head = update_head(family, target, list, limit);
        lemma_table(family, request.target@, 0);
        lemma_names_are_quoted(family, record_names(changes));
        let names = quoted_names(family, record_names(changes));
        assert forall|i: int| 0 <= i < names.len() implies #[trigger] assignment_texts(
            family,
            names,
        )[i] == change_texts(family, changes)[i] by {
            lemma_placeholder_binds(family, i as nat);
        }
        assert(assignment_texts(family, names) =~= change_texts(family, changes));
        lemma_conditions_bind_their_values(family, request.filter, count);
        assert(is_condition(family, condition, count, bound_values(request.filter).len())) by {
            reveal(is_clause);
        }
        assert(query.parameters == record_values(changes) + bound_values(request.filter)) by {
            reveal(is_clause);
        }
        lemma_update_head(family, request.target@, changes, limit);
        lemma_condition_and_limit(
            family,
            head,
            condition,
            limit,
            count,
            bound_values(request.filter).len(),
        );
        let whole = head + " WHERE "@ + condition;
        match family {
            SqlFamily::PostgreSql => {
                assert(query.sql =~= whole + (" LIMIT "@ + decimal(limit)) + ")"@);
            },
            SqlFamily::MySql => {
                assert(query.sql =~= whole + (" LIMIT "@ + decimal(limit)));
            },
            _ => {
                assert(query.sql =~= whole);
            },
        }
        assert(query.sql =~= whole + condition_tail(family, limit));
        reveal(is_condition);
    }
}

/// A deletion removes only the rows that its filter selects, in the same way.
pub proof fn lemma_deletions_remove_what_the_filter_selects(
    family: SqlFamily,
    profile: ConnectionProfile,
    request: DeleteRequest,
)
    ensures
        delete_result(family, profile, request) matches Ok(query) ==> {
            let limit = smaller(request.max_affected as int, profile.policy.max_affected as int);
            let condition = condition_behind(family, request.filter, 0);
            &&& request.max_affected > 0
            &&& is_clause(family, request.filter, condition, 0)
            &&& query.sql == deletion_head(family, table_name(family, request.target@), limit as nat)
                + " WHERE "@ + condition + condition_tail(family, limit as nat)
            &&& query.parameters == bound_values(request.filter)
            &&& binds(family, query.sql, 0, query.parameters.len())
        },
{
    if let Ok(query) = delete_result(family, profile, request) {
        let limit = smaller(request.max_affected as int, profile.policy.max_affected as int) as nat;
        let condition = condition_behind(family, request.filter, 0);
        let head = deletion_head(family, table_name(family, request.target@), limit);
        lemma_table(family, request.target@, 0);
        lemma_conditions_bind_their_values(family, request.filter, 0);
        assert(is_condition(family, condition, 0, bound_values(request.filter).len())) by {
            reveal(is_clause);
        }
        assert(query.parameters == bound_values(request.filter)) by {
            reveal(is_clause);
        }
        lemma_deletion_head(family, request.target@, limit);
        lemma_condition_and_limit(
            family,
            head,
            condition,
            limit,
            0,
            bound_values(request.filter).len(),
        );
        let whole = head + " WHERE "@ + condition;
        match family {
            SqlFamily::PostgreSql => {
                assert(query.sql =~= whole + (" LIMIT "@ + decimal(limit)) + ")"@);
            },
            SqlFamily::MySql => {
                assert(query.sql =~= whole + (" LIMIT "@ + decimal(limit)));
            },
            _ => {
                assert(query.sql =~= whole);
            },
        }
        assert(query.sql =~= whole + condition_tail(family, limit));
        reveal(is_condition);
    }
}

/// The columns of a read: all of them, or those that it names.
pub open spec fn column_list(family: SqlFamily, fields: Seq<Seq<char>>) -> Seq<char> {
    if fields.len() == 0 {
        seq!['*']
    } else {
        joined(quoted_names(family, fields), ", "@)
    }
}

/// The keys of an order, each a quoted name with the direction behind it.
pub open spec fn order_keys(family: SqlFamily, sort: Seq<SortField>) -> Seq<Seq<char>> {
    Seq::new(
        sort.len(),
        |i: int|
            quoted(family, sort[i].field@) + (if sort[i].direction is Desc {
                " DESC"@
            } else {
                " ASC"@
            }),
    )
}

/// The order of a read: the one that it asks for. Where it asks for none there is none, but for one
/// that says nothing where the dialect does not page without it.
pub open spec fn order_text(family: SqlFamily, sort: Seq<SortField>) -> Seq<char> {
    if sort.len() > 0 {
        " ORDER BY "@ + joined(order_keys(family, sort), ", "@)
    } else if family == SqlFamily::SqlServer {
        " ORDER BY (SELECT NULL)"@
    } else {
        Seq::empty()
    }
}

/// So many rows behind others.
pub open spec fn page_text(family: SqlFamily, offset: nat, count: nat) -> Seq<char> {
    match family {
        SqlFamily::Oracle | SqlFamily::SqlServer => " OFFSET "@ + decimal(offset)
            + " ROWS FETCH NEXT "@ + decimal(count) + " ROWS ONLY"@,
        _ => " LIMIT "@ + decimal(count) + " OFFSET "@ + decimal(offset),
    }
}

/// What a read says before its order.
pub open spec fn selection_text(family: SqlFamily, request: ReadRequest) -> Seq<char> {
    "SELECT "@ + column_list(family, texts(request.fields@)) + " FROM "@ + table_name(
        family,
        request.target@,
    ) + (match request.filter {
        Some(filter) => " WHERE "@ + condition_behind(family, filter, 0),
        None => Seq::empty(),
    })
}

/// The values that a read binds.
pub open spec fn selected_values(filter: Option<Filter>) -> Seq<ValueModel> {
    match filter {
        Some(filter) => bound_values(filter),
        None => Seq::empty(),
    }
}

/// The text behind an order binds nothing.
proof fn lemma_page(family: SqlFamily, offset: nat, count: nat, bound: nat)
    ensures
        is_condition(family, page_text(family, offset, count), bound, 0),
{
    reveal_strlit(" OFFSET ");
    reveal_strlit(" ROWS FETCH NEXT ");
    reveal_strlit(" ROWS ONLY");
    reveal_strlit(" LIMIT ");
    lemma_counted(family, " OFFSET "@, offset, bound);
    lemma_counted(family, " ROWS FETCH NEXT "@, count, bound);
    lemma_counted(family, " LIMIT "@, count, bound);
    lemma_plain(family, " ROWS ONLY"@, bound);
    let a = " OFFSET "@ + decimal(offset);
    let b = " ROWS FETCH NEXT "@ + decimal(count);
    let c = " LIMIT "@ + decimal(count);
    lemma_pieces(family, a, b, bound, 0, 0);
    lemma_pieces(family, a + b, " ROWS ONLY"@, bound, 0, 0);
    lemma_pieces(family, c, a, bound, 0, 0);
    match family {
        SqlFamily::Oracle | SqlFamily::SqlServer => {
            assert(page_text(family, offset, count) =~= a + b + " ROWS ONLY"@);
        },
        _ => {
            assert(page_text(family, offset, count) =~= c + a);
        },
    }
}

/// The keys of an order bind nothing.
proof fn lemma_order_keys(family: SqlFamily, sort: Seq<SortField>, bound: nat)
    ensures
        is_condition(family, joined(order_keys(family, sort), ", "@), bound, 0),
{
    let keys = order_keys(family, sort);
    let counts = Seq::new(sort.len(), |i: int| 0nat);
    reveal_strlit(", ");
    reveal_strlit(" DESC");
    reveal_strlit(" ASC");
    lemma_plain(family, ", "@, 0);
    assert forall|i: int| 0 <= i < keys.len() implies is_condition(
        family,
        #[trigger] keys[i],
        bound + sum(counts.subrange(0, i)),
        counts[i],
    ) by {
        lemma_sum_of_zeros(counts.subrange(0, i));
        lemma_name(family, sort[i].field@, bound);
        lemma_plain(family, " DESC"@, bound);
        lemma_plain(family, " ASC"@, bound);
        lemma_pieces(family, quoted(family, sort[i].field@), " DESC"@, bound, 0, 0);
        lemma_pieces(family, quoted(family, sort[i].field@), " ASC"@, bound, 0, 0);
    }
    lemma_joined(family, keys, ", "@, bound, counts);
    lemma_sum_of_zeros(counts);
}

/// An order stands at most once in the outline of a text.
pub open spec fn is_ordered_once(family: SqlFamily, sql: Seq<char>, count: nat) -> bool {
    occurrences(outline(family, sql), 'B') == count
}

/// An order binds nothing and is named once.
proof fn lemma_order(family: SqlFamily, sort: Seq<SortField>, bound: nat)
    ensures
        binds(family, order_text(family, sort), bound, 0),
        begins_apart(outline(family, order_text(family, sort))),
        is_ordered_once(
            family,
            order_text(family, sort),
            if sort.len() > 0 || family == SqlFamily::SqlServer {
                1
            } else {
                0
            },
        ),
{
    let text = order_text(family, sort);
    let word = " ORDER BY "@;
    let nothing = " ORDER BY (SELECT NULL)"@;
    if sort.len() > 0 {
        let keys = joined(order_keys(family, sort), ", "@);
        reveal_strlit(" ORDER BY ");
        lemma_unmarked(family, word, bound);
        lemma_order_keys(family, sort, bound);
        reveal(is_condition);
        lemma_binds_join(family, word, keys, bound, 0, 0);
        lemma_occurrences_join(word, outline(family, keys), 'B');
        assert(occurrences(word, 'B') == 1) by {
            let a = word.subrange(0, 7);
            let b = word.subrange(8, 10);
            assert(word =~= a.push('B') + b);
            lemma_no_occurrences(a, 'B');
            lemma_no_occurrences(b, 'B');
            assert(a.push('B').drop_last() =~= a);
            lemma_occurrences_join(a.push('B'), b, 'B');
        }
        assert(outline(family, text)[0] == word[0]);
    } else if family == SqlFamily::SqlServer {
        reveal_strlit(" ORDER BY (SELECT NULL)");
        lemma_unmarked(family, nothing, bound);
        assert(occurrences(nothing, 'B') == 1) by {
            let a = nothing.subrange(0, 7);
            let b = nothing.subrange(8, nothing.len() as int);
            assert(nothing =~= a.push('B') + b);
            lemma_no_occurrences(a, 'B');
            lemma_no_occurrences(b, 'B');
            assert(a.push('B').drop_last() =~= a);
            lemma_occurrences_join(a.push('B'), b, 'B');
        }
    } else {
        lemma_unmarked(family, text, bound);
    }
}

/// What a read says before its order binds the values of its filter.
proof fn lemma_selection(family: SqlFamily, request: ReadRequest)
    requires
        request.filter matches Some(filter) ==> filter_sql(family, filter, 0) is Ok,
    ensures
        is_condition(
            family,
            selection_text(family, request),
            0,
            selected_values(request.filter).len(),
        ),
        request.filter matches Some(filter) ==> filter_sql(family, filter, 0)->Ok_0.values
            == bound_values(filter),
{
    let columns = column_list(family, texts(request.fields@));
    let table = table_name(family, request.target@);
    reveal_strlit("SELECT ");
    reveal_strlit(" FROM ");
    reveal_strlit(" WHERE ");
    lemma_plain(family, "SELECT "@, 0);
    lemma_plain(family, " FROM "@, 0);
    lemma_plain(family, " WHERE "@, 0);
    lemma_plain(family, seq!['*'], 0);
    lemma_name_list(family, texts(request.fields@), ", "@, 0);
    lemma_table(family, request.target@, 0);
    lemma_pieces(family, "SELECT "@, columns, 0, 0, 0);
    lemma_pieces(family, "SELECT "@ + columns, " FROM "@, 0, 0, 0);
    lemma_pieces(family, "SELECT "@ + columns + " FROM "@, table, 0, 0, 0);
    let text = "SELECT "@ + columns + " FROM "@ + table;
    match request.filter {
        None => {
            assert(selection_text(family, request) =~= text);
        },
        Some(filter) => {
            lemma_conditions_bind_their_values(family, filter, 0);
            reveal(is_clause);
            let condition = condition_behind(family, filter, 0);
            let count = bound_values(filter).len();
            lemma_pieces(family, " WHERE "@, condition, 0, 0, count);
            lemma_pieces(family, text, " WHERE "@ + condition, 0, 0, count);
        },
    }
}

/// A read asks for the rows that its filter selects and for the columns that it names, in the order
/// that it asks for: each name with its own direction, before the paging and nowhere else. It skips
/// what its cursor says and asks for one row more than it may return. Its text has as many
/// placeholders as there are bound values, numbered in their order.
pub proof fn lemma_reads_ask_for_what_they_say(
    family: SqlFamily,
    context: ConnectorContext,
    profile: ConnectionProfile,
    request: ReadRequest,
)
    ensures
        read_result(family, context, profile, request) matches Ok(query) ==> {
            let limit = smaller(
                smaller(request.options.limit as int, context.max_rows as int),
                profile.policy.max_rows as int,
            );
            let offset = offset_result(optional_text(request.options.cursor))->Ok_0;
            let sort = request.options.sort@;
            &&& request.options.limit > 0
            &&& query.row_limit == Some(limit as usize)
            &&& query.base_offset == Some(offset)
            &&& query.sql == selection_text(family, request) + order_text(family, sort) + page_text(
                family,
                offset as nat,
                (limit + 1) as nat,
            )
            &&& request.filter matches Some(filter) ==> is_clause(
                family,
                filter,
                condition_behind(family, filter, 0),
                0,
            )
            &&& query.parameters == selected_values(request.filter)
            &&& binds(family, query.sql, 0, query.parameters.len())
            &&& is_ordered_once(
                family,
                query.sql,
                if sort.len() > 0 || family == SqlFamily::SqlServer {
                    1
                } else {
                    0
                },
            )
        },
{
    if let Ok(query) = read_result(family, context, profile, request) {
        let sort = request.options.sort@;
        let limit = smaller(
            smaller(request.options.limit as int, context.max_rows as int),
            profile.policy.max_rows as int,
        );
        let offset = offset_result(optional_text(request.options.cursor))->Ok_0 as nat;
        let fields = fields_sql(family, texts(request.fields@))->Ok_0;
        let order = sort_sql(family, sort)->Ok_0;
        let condition = where_sql(family, request.filter)->Ok_0;
        lemma_selection(family, request);
        lemma_table(family, request.target@, 0);
        lemma_names_are_quoted(family, texts(request.fields@));
        lemma_same_order(family, sort);
        if let Some(filter) = request.filter {
            lemma_conditions_bind_their_values(family, filter, 0);
        }
        reveal_strlit("*");
        assert("*"@ =~= seq!['*']);
        assert(fields == column_list(family, texts(request.fields@)));
        let head = "SELECT "@ + fields + " FROM "@ + table_name(family, request.target@)
            + condition.text;
        assert(head == selection_text(family, request));
        lemma_order_and_page(family, head, sort, order, offset, (limit + 1) as nat);
        lemma_read_binds(
            family,
            head,
            sort,
            offset,
            (limit + 1) as nat,
            selected_values(request.filter).len(),
        );
    }
}

/// An order and a page behind other text.
proof fn lemma_order_and_page(
    family: SqlFamily,
    head: Seq<char>,
    sort: Seq<SortField>,
    order: Seq<char>,
    offset: nat,
    count: nat,
)
    requires
        sort_sql(family, sort) == Ok::<Seq<char>, ErrorModel>(order),
    ensures
        head + (if family == SqlFamily::SqlServer {
            Seq::empty()
        } else {
            order
        }) + pagination_sql(family, order, offset, count) == head + order_text(family, sort)
            + page_text(family, offset, count),
{
    lemma_same_order(family, sort);
    let page = page_text(family, offset, count);
    match family {
        SqlFamily::SqlServer => {
            let text = order_text(family, sort);
            assert(text + " OFFSET "@ + decimal(offset) + " ROWS FETCH NEXT "@ + decimal(count)
                + " ROWS ONLY"@ =~= text + page);
            assert(pagination_sql(family, order, offset, count) == text + page);
            assert(head + Seq::empty() =~= head);
            assert(head + (text + page) =~= head + text + page);
        },
        _ => {
            assert(pagination_sql(family, order, offset, count) == page);
            if sort.len() == 0 {
                assert(order =~= Seq::<char>::empty());
            }
        },
    }
}

/// A read binds what it says before its order.
proof fn lemma_read_binds(
    family: SqlFamily,
    head: Seq<char>,
    sort: Seq<SortField>,
    offset: nat,
    page: nat,
    count: nat,
)
    requires
        is_condition(family, head, 0, count),
    ensures
        binds(
            family,
            head + order_text(family, sort) + page_text(family, offset, page),
            0,
            count,
        ),
        is_ordered_once(
            family,
            head + order_text(family, sort) + page_text(family, offset, page),
            if sort.len() > 0 || family == SqlFamily::SqlServer {
                1
            } else {
                0
            },
        ),
{
    let order = order_text(family, sort);
    let tail = page_text(family, offset, page);
    lemma_order(family, sort, count);
    lemma_page(family, offset, page, count);
    reveal(is_condition);
    lemma_binds_join(family, head, order, 0, count, 0);
    lemma_binds_join(family, head + order, tail, 0, count, 0);
    lemma_occurrences_join(outline(family, head), outline(family, order), 'B');
    lemma_occurrences_join(
        outline(family, head) + outline(family, order),
        outline(family, tail),
        'B',
    );
}

/// The order of a read.
proof fn lemma_same_order(family: SqlFamily, sort: Seq<SortField>)
    ensures
        sort_sql(family, sort) matches Ok(text) ==> if sort.len() > 0 {
            text == order_text(family, sort) && text.len() > 0
        } else {
            text.len() == 0
        },
{
    if sort.len() > 0 {
        lemma_names_are_quoted(family, sort_names(sort));
        if let Ok(text) = sort_sql(family, sort) {
            let names = quoted_names(family, sort_names(sort));
            let keys = sort_keys(sort, names);
            reveal_strlit(" ");
            reveal_strlit("ASC");
            reveal_strlit("DESC");
            reveal_strlit(" ASC");
            reveal_strlit(" DESC");
            reveal_strlit(" ORDER BY ");
            assert(" ASC"@ =~= " "@ + "ASC"@);
            assert(" DESC"@ =~= " "@ + "DESC"@);
            assert forall|i: int| 0 <= i < keys.len() implies #[trigger] keys[i] == order_keys(
                family,
                sort,
            )[i] by {
                assert(names[i] == quoted(family, sort[i].field@));
                assert(keys[i] =~= order_keys(family, sort)[i]);
            }
            assert(keys =~= order_keys(family, sort));
        }
    }
}

/// Reads that differ in the directions of their orders alone have different texts.
pub proof fn lemma_directions_are_not_lost(
    family: SqlFamily,
    left: Seq<SortField>,
    right: Seq<SortField>,
    place: int,
)
    requires
        left.len() == right.len(),
        0 <= place < left.len(),
        left[place].field@ == right[place].field@,
        left[place].direction != right[place].direction,
    ensures
        order_keys(family, left)[place] != order_keys(family, right)[place],
{
    reveal_strlit(" ASC");
    reveal_strlit(" DESC");
    let name = quoted(family, left[place].field@);
    assert((name + " ASC"@).len() != (name + " DESC"@).len());
}

/// A character that occurs once stands at one place.
proof fn lemma_stands_once(text: Seq<char>, c: char, i: int, j: int)
    requires
        occurrences(text, c) <= 1,
        0 <= i < text.len(),
        0 <= j < text.len(),
        text[i] == c,
        text[j] == c,
    ensures
        i == j,
    decreases i,
{
    if i < j {
        let a = text.subrange(0, j);
        let b = text.subrange(j, text.len() as int);
        assert(text =~= a + b);
        lemma_occurrences_join(a, b, c);
        assert(a[i] == c && b[0] == c);
        lemma_occurs(a, c, i);
        lemma_occurs(b, c, 0);
    } else if j < i {
        lemma_stands_once(text, c, j, i);
    }
}

/// The words that introduce an order stand at one place of a read at most, outside of its quoted
/// names.
pub proof fn lemma_reads_name_one_order(
    family: SqlFamily,
    context: ConnectorContext,
    profile: ConnectionProfile,
    request: ReadRequest,
    i: int,
    j: int,
)
    requires
        read_result(family, context, profile, request) is Ok,
        ({
            let text = outline(
                family,
                read_result(family, context, profile, request)->Ok_0.sql,
            );
            &&& 0 <= i <= text.len() - 8 && text.subrange(i, i + 8) == "ORDER BY"@
            &&& 0 <= j <= text.len() - 8 && text.subrange(j, j + 8) == "ORDER BY"@
        }),
    ensures
        i == j,
{
    lemma_reads_ask_for_what_they_say(family, context, profile, request);
    let text = outline(family, read_result(family, context, profile, request)->Ok_0.sql);
    reveal_strlit("ORDER BY");
    assert(text.subrange(i, i + 8)[6] == 'B');
    assert(text.subrange(j, j + 8)[6] == 'B');
    lemma_stands_once(text, 'B', i + 6, j + 6);
}

/// One row of an insertion: a placeholder for each of its values.
pub open spec fn row_of_marks(family: SqlFamily, row: int, width: nat) -> Seq<char> {
    "("@ + joined(
        Seq::new(width, |j: int| numbered_mark(family, (row * width + j + 1) as nat)),
        ", "@,
    ) + ")"@
}

/// A row binds its values.
proof fn lemma_row(family: SqlFamily, row: int, width: nat)
    requires
        row >= 0,
        row * width >= 0,
    ensures
        row_text(family, (row * width) as nat, width) == row_of_marks(family, row, width),
        is_condition(family, row_of_marks(family, row, width), (row * width) as nat, width),
{
    let bound = (row * width) as nat;
    let marks = placeholders(family, bound, width);
    let wanted = Seq::new(width, |j: int| numbered_mark(family, (row * width + j + 1) as nat));
    assert forall|j: int| 0 <= j < marks.len() implies #[trigger] marks[j] == wanted[j] by {
        lemma_placeholder_binds(family, (bound + j) as nat);
    }
    assert(marks =~= wanted);
    let list = joined(marks, ", "@);
    reveal_strlit("(");
    reveal_strlit(")");
    lemma_plain(family, "("@, bound);
    lemma_plain(family, ")"@, bound + width);
    lemma_placeholder_list(family, bound, width);
    lemma_pieces(family, "("@, list, bound, 0, width);
    lemma_pieces(family, "("@ + list, ")"@, bound, width, 0);
}

/// The sum of equal numbers.
proof fn lemma_sum_of_equals(counts: Seq<nat>, width: nat)
    requires
        forall|i: int| 0 <= i < counts.len() ==> #[trigger] counts[i] == width,
    ensures
        sum(counts) == counts.len() * width,
    decreases counts.len(),
{
    if counts.len() > 0 {
        let shorter = counts.drop_last();
        assert(forall|i: int| 0 <= i < shorter.len() ==> #[trigger] shorter[i] == counts[i]);
        lemma_sum_of_equals(shorter, width);
        assert(counts[counts.len() - 1] == width);
        assert(counts.len() * width == shorter.len() * width + width) by (nonlinear_arith)
            requires
                counts.len() == shorter.len() + 1,
        ;
    } else {
        assert(counts.len() * width == 0) by (nonlinear_arith)
            requires
                counts.len() == 0,
        ;
    }
}

/// The rows of an insertion.
pub open spec fn insertion_rows(family: SqlFamily, count: nat, width: nat) -> Seq<Seq<char>> {
    Seq::new(count, |i: int| row_of_marks(family, i, width))
}

/// The text of an insertion: each row goes into the named columns of the table.
pub open spec fn insertion_text(
    family: SqlFamily,
    table: Seq<char>,
    columns: Seq<char>,
    rows: Seq<Seq<char>>,
) -> Seq<char> {
    if family == SqlFamily::Oracle && rows.len() > 1 {
        "INSERT ALL "@ + joined(
            Seq::new(
                rows.len(),
                |i: int| "INTO "@ + table + " ("@ + columns + ") VALUES "@ + rows[i],
            ),
            " "@,
        ) + " SELECT 1 FROM DUAL"@
    } else {
        "INSERT INTO "@ + table + " ("@ + columns + ") VALUES "@ + joined(rows, ", "@)
    }
}

/// Rows bind their values one after the other.
proof fn lemma_rows(
    family: SqlFamily,
    rows: Seq<Seq<char>>,
    separator: Seq<char>,
    count: nat,
    width: nat,
)
    requires
        separator == ", "@ || separator == " "@,
        rows.len() == count,
        forall|i: int|
            0 <= i < count ==> i * width >= 0 && is_condition(
                family,
                #[trigger] rows[i],
                (i * width) as nat,
                width,
            ),
    ensures
        is_condition(family, joined(rows, separator), 0, count * width),
{
    let counts = Seq::new(count, |i: int| width);
    reveal_strlit(", ");
    reveal_strlit(" ");
    lemma_plain(family, separator, 0);
    assert forall|i: int| 0 <= i < rows.len() implies is_condition(
        family,
        #[trigger] rows[i],
        0 + sum(counts.subrange(0, i)),
        counts[i],
    ) by {
        lemma_sum_of_equals(counts.subrange(0, i), width);
        assert(counts.subrange(0, i).len() * width == i * width);
    }
    lemma_joined(family, rows, separator, 0, counts);
    lemma_sum_of_equals(counts, width);
}

/// The value in a row and a column of values that stand row by row.
pub open spec fn cell(list: Seq<ValueModel>, row: int, column: int, width: nat) -> ValueModel {
    list[row * width + column]
}

/// The place of a value among those of all rows.
proof fn lemma_value_places(rows: Seq<RecordModel>, width: nat)
    requires
        forall|i: int| 0 <= i < rows.len() ==> (#[trigger] rows[i]).len() == width,
    ensures
        all_values(rows).len() == rows.len() * width,
        forall|i: int, j: int|
            0 <= i < rows.len() && 0 <= j < width ==> #[trigger] cell(
                all_values(rows),
                i,
                j,
                width,
            ) == rows[i][j].1,
    decreases rows.len(),
{
    if rows.len() == 0 {
        assert(rows.len() * width == 0) by (nonlinear_arith)
            requires
                rows.len() == 0,
        ;
    } else {
        let before = rows.drop_last();
        let last = rows.len() - 1;
        assert(forall|i: int| 0 <= i < before.len() ==> #[trigger] before[i] == rows[i]);
        lemma_value_places(before, width);
        assert(rows[last].len() == width);
        assert(rows.len() * width == before.len() * width + width) by (nonlinear_arith)
            requires
                rows.len() == before.len() + 1,
        ;
        let all = all_values(rows);
        assert(all == all_values(before) + record_values(rows[last]));
        assert forall|i: int, j: int| 0 <= i < rows.len() && 0 <= j < width implies #[trigger] cell(
            all,
            i,
            j,
            width,
        ) == rows[i][j].1 by {
            if i < last {
                assert(cell(all_values(before), i, j, width) == before[i][j].1);
                assert(0 <= i * width + j < before.len() * width) by (nonlinear_arith)
                    requires
                        0 <= i < before.len(),
                        0 <= j < width,
                ;
            } else {
                assert(record_values(rows[last])[j] == rows[last][j].1);
            }
        }
    }
}

/// An insertion adds every record once, in order, with each value in the column of its name: its
/// text names the columns of the first record, which all records have, and has one row of
/// placeholders for each record; and the values are bound in the order of the placeholders.
pub proof fn lemma_insertions_add_every_record(
    family: SqlFamily,
    profile: ConnectionProfile,
    request: InsertRequest,
)
    ensures
        insert_result(family, profile, request) matches Ok(query) ==> {
            let rows = records(request.records@);
            let columns = record_names(rows[0]);
            let width = columns.len();
            &&& 0 < rows.len() <= profile.policy.max_affected && width > 0
            &&& forall|i: int| 0 <= i < rows.len() ==> record_names(#[trigger] rows[i]) == columns
            &&& query.sql == insertion_text(
                family,
                table_name(family, request.target@),
                joined(quoted_names(family, columns), ", "@),
                insertion_rows(family, rows.len(), width),
            )
            &&& query.parameters.len() == rows.len() * width
            &&& forall|i: int, j: int|
                0 <= i < rows.len() && 0 <= j < width ==> #[trigger] cell(
                    query.parameters,
                    i,
                    j,
                    width,
                ) == rows[i][j].1
            &&& binds(family, query.sql, 0, query.parameters.len())
        },
{
    if let Ok(query) = insert_result(family, profile, request) {
        let rows = records(request.records@);
        let columns = record_names(rows[0]);
        let width = columns.len();
        let count = rows.len();
        assert forall|i: int| 0 <= i < rows.len() implies record_names(#[trigger] rows[i]) == columns
            by {}
        assert forall|i: int| 0 <= i < rows.len() implies (#[trigger] rows[i]).len() == width by {
            assert(record_names(rows[i]) == columns);
            assert(record_names(rows[i]).len() == rows[i].len());
        }
        lemma_value_places(rows, width);
        lemma_names_are_quoted(family, columns);
        lemma_table(family, request.target@, 0);
        let texts = insertion_rows(family, count, width);
        assert forall|i: int| 0 <= i < count implies #[trigger] row_texts(family, count, width)[i]
            == texts[i] by {
            assert(i * width >= 0) by (nonlinear_arith)
                requires
                    i >= 0,
                    width >= 0,
            ;
            lemma_row(family, i, width);
        }
        assert(row_texts(family, count, width) =~= texts);
        lemma_insertion_binds(family, request.target@, columns, count, width);
        assert(into_clauses(
            table_name(family, request.target@),
            joined(quoted_names(family, columns), ", "@),
            texts,
        ) =~= Seq::new(
            count,
            |i: int|
                "INTO "@ + table_name(family, request.target@) + " ("@ + joined(
                    quoted_names(family, columns),
                    ", "@,
                ) + ") VALUES "@ + texts[i],
        ));
        reveal(is_condition);
    }
}

/// The text of an insertion binds the values of its rows.
proof fn lemma_insertion_binds(
    family: SqlFamily,
    target: Seq<char>,
    columns: Seq<Seq<char>>,
    count: nat,
    width: nat,
)
    ensures
        is_condition(
            family,
            insertion_text(
                family,
                table_name(family, target),
                joined(quoted_names(family, columns), ", "@),
                insertion_rows(family, count, width),
            ),
            0,
            count * width,
        ),
{
    let table = table_name(family, target);
    let list = joined(quoted_names(family, columns), ", "@);
    let rows = insertion_rows(family, count, width);
    assert forall|i: int| 0 <= i < count implies i * width >= 0 && is_condition(
        family,
        #[trigger] rows[i],
        (i * width) as nat,
        width,
    ) by {
        assert(i * width >= 0) by (nonlinear_arith)
            requires
                i >= 0,
                width >= 0,
        ;
        lemma_row(family, i, width);
    }
    if family == SqlFamily::Oracle && count > 1 {
        let clauses = Seq::new(
            count,
            |i: int| "INTO "@ + table + " ("@ + list + ") VALUES "@ + rows[i],
        );
        assert forall|i: int| 0 <= i < count implies i * width >= 0 && is_condition(
            family,
            #[trigger] clauses[i],
            (i * width) as nat,
            width,
        ) by {
            assert(is_condition(family, rows[i], (i * width) as nat, width));
            lemma_into(family, "INTO "@, target, columns, rows[i], (i * width) as nat, width);
        }
        lemma_rows(family, clauses, " "@, count, width);
        reveal_strlit("INSERT ALL ");
        reveal_strlit(" SELECT 1 FROM DUAL");
        lemma_plain(family, "INSERT ALL "@, 0);
        lemma_plain(family, " SELECT 1 FROM DUAL"@, count * width);
        lemma_pieces(family, "INSERT ALL "@, joined(clauses, " "@), 0, 0, count * width);
        lemma_pieces(
            family,
            "INSERT ALL "@ + joined(clauses, " "@),
            " SELECT 1 FROM DUAL"@,
            0,
            count * width,
            0,
        );
    } else {
        lemma_rows(family, rows, ", "@, count, width);
        lemma_into(
            family,
            "INSERT INTO "@,
            target,
            columns,
            joined(rows, ", "@),
            0,
            count * width,
        );
    }
}

/// Rows for the named columns of a table.
proof fn lemma_into(
    family: SqlFamily,
    word: Seq<char>,
    target: Seq<char>,
    columns: Seq<Seq<char>>,
    rows: Seq<char>,
    bound: nat,
    count: nat,
)
    requires
        word == "INTO "@ || word == "INSERT INTO "@,
        is_condition(family, rows, bound, count),
    ensures
        is_condition(
            family,
            word + table_name(family, target) + " ("@ + joined(
                quoted_names(family, columns),
                ", "@,
            ) + ") VALUES "@ + rows,
            bound,
            count,
        ),
{
    let table = table_name(family, target);
    let list = joined(quoted_names(family, columns), ", "@);
    reveal_strlit("INTO ");
    reveal_strlit("INSERT INTO ");
    reveal_strlit(" (");
    reveal_strlit(") VALUES ");
    lemma_plain(family, word, bound);
    lemma_plain(family, " ("@, bound);
    lemma_plain(family, ") VALUES "@, bound);
    lemma_table(family, target, bound);
    lemma_name_list(family, columns, ", "@, bound);
    lemma_pieces(family, word, table, bound, 0, 0);
    lemma_pieces(family, word + table, " ("@, bound, 0, 0);
    lemma_pieces(family, word + table + " ("@, list, bound, 0, 0);
    lemma_pieces(family, word + table + " ("@ + list, ") VALUES "@, bound, 0, 0);
    lemma_pieces(family, word + table + " ("@ + list + ") VALUES "@, rows, bound, 0, count);
}

} // verus!
