//! Requests as parameterized SQL statements.
use crate::model::{
    framed, invalid, invalid_request, is_text_result, ConnectionProfile, ConnectorContext,
    ConnectorError, DeleteRequest, ErrorModel, Filter, InsertRequest, ReadRequest, SortDirection,
    SortField, UpdateRequest,
};
use crate::sql::cursor::{decode_offset, offset_result};
use crate::sql::filter::{
    compile_filter, filter_sql, lemma_values_never_reach_the_text, placeholders, same_shape,
    Fragment,
};
use crate::sql::identifier::{
    placeholder, placeholder_text, qualified_name, qualified_result, quote_all, quote_identifiers,
    SqlFamily,
};
use crate::sql::limits::{
    effective_row_limit, effective_write_limit, row_limit_result, write_limit_result,
};
use crate::text::{borrowed, decimal, decimal_text, join, joined, optional_text, same, texts};
use crate::value::{
    record_names, record_values, records, values, DbRecord, DbValue, RecordModel, ValueModel,
};
use vstd::prelude::*;
use vstd::string::StringExecFns;

verus! {

broadcast use {crate::text::group_texts, crate::value::group_models};

/// A statement with the values of its placeholders.
#[derive(Debug)]
pub struct BuiltQuery {
    pub sql: String,
    pub parameters: Vec<DbValue>,
    pub row_limit: Option<usize>,
    pub base_offset: Option<u64>,
}

/// What a [`BuiltQuery`] is.
pub struct QueryModel {
    pub sql: Seq<char>,
    pub parameters: Seq<ValueModel>,
    pub row_limit: Option<usize>,
    pub base_offset: Option<u64>,
}

impl View for BuiltQuery {
    type V = QueryModel;

    open spec fn view(&self) -> QueryModel {
        QueryModel {
            sql: self.sql@,
            parameters: values(self.parameters@),
            row_limit: self.row_limit,
            base_offset: self.base_offset,
        }
    }
}

/// Whether a built statement is what is expected of it.
pub open spec fn is_query_result(
    result: Result<BuiltQuery, ConnectorError>,
    expected: Result<QueryModel, ErrorModel>,
) -> bool {
    match (result, expected) {
        (Ok(query), Ok(wanted)) => query@ == wanted,
        (Err(error), Err(wanted)) => error@ == wanted,
        _ => false,
    }
}

/// The list of selected fields: all where none is named.
pub open spec fn fields_sql(family: SqlFamily, fields: Seq<Seq<char>>) -> Result<
    Seq<char>,
    ErrorModel,
> {
    if fields.len() == 0 {
        Ok("*"@)
    } else {
        match quote_all(family, fields) {
            Err(error) => Err(error),
            Ok(quoted) => Ok(joined(quoted, ", "@)),
        }
    }
}

/// The condition of a statement with its keyword; nothing without a filter.
pub open spec fn where_sql(family: SqlFamily, filter: Option<Filter>) -> Result<
    Fragment,
    ErrorModel,
> {
    match filter {
        None => Ok(Fragment { text: Seq::empty(), values: Seq::empty() }),
        Some(filter) => match filter_sql(family, filter, 0) {
            Err(error) => Err(error),
            Ok(condition) => Ok(
                Fragment { text: " WHERE "@ + condition.text, values: condition.values },
            ),
        },
    }
}

/// The keyword of a sort direction.
pub open spec fn direction_sql(direction: SortDirection) -> Seq<char> {
    match direction {
        SortDirection::Asc => "ASC"@,
        SortDirection::Desc => "DESC"@,
    }
}

/// The names of the fields to sort by.
pub open spec fn sort_names(sort: Seq<SortField>) -> Seq<Seq<char>> {
    Seq::new(sort.len(), |i: int| sort[i].field@)
}

/// The order of a statement with its keyword; nothing where no order is asked for.
pub open spec fn sort_sql(family: SqlFamily, sort: Seq<SortField>) -> Result<
    Seq<char>,
    ErrorModel,
> {
    if sort.len() == 0 {
        Ok(Seq::empty())
    } else {
        match quote_all(family, sort_names(sort)) {
            Err(error) => Err(error),
            Ok(quoted) => Ok(" ORDER BY "@ + joined(sort_keys(sort, quoted), ", "@)),
        }
    }
}

/// The sort keys: each quoted field with its direction.
pub open spec fn sort_keys(sort: Seq<SortField>, quoted: Seq<Seq<char>>) -> Seq<Seq<char>> {
    Seq::new(sort.len(), |i: int| quoted[i] + " "@ + direction_sql(sort[i].direction))
}

/// The part of a statement that selects `fetch` rows from `offset` on.
pub open spec fn pagination_sql(
    family: SqlFamily,
    sort: Seq<char>,
    offset: nat,
    fetch: nat,
) -> Seq<char> {
    match family {
        SqlFamily::Oracle => " OFFSET "@ + decimal(offset) + " ROWS FETCH NEXT "@ + decimal(fetch)
            + " ROWS ONLY"@,
        SqlFamily::SqlServer => (if sort.len() == 0 {
            " ORDER BY (SELECT NULL)"@
        } else {
            sort
        }) + " OFFSET "@ + decimal(offset) + " ROWS FETCH NEXT "@ + decimal(fetch) + " ROWS ONLY"@,
        _ => " LIMIT "@ + decimal(fetch) + " OFFSET "@ + decimal(offset),
    }
}

/// The statement that reads what a request asks for, and one row more than its limit.
pub open spec fn read_result(
    family: SqlFamily,
    context: ConnectorContext,
    profile: ConnectionProfile,
    request: ReadRequest,
) -> Result<QueryModel, ErrorModel> {
    match row_limit_result(context, profile, request.options.limit) {
        Err(error) => Err(error),
        Ok(limit) => match offset_result(optional_text(request.options.cursor)) {
            Err(error) => Err(error),
            Ok(offset) => match fields_sql(family, texts(request.fields@)) {
                Err(error) => Err(error),
                Ok(fields) => match where_sql(family, request.filter) {
                    Err(error) => Err(error),
                    Ok(condition) => match sort_sql(family, request.options.sort@) {
                        Err(error) => Err(error),
                        Ok(sort) => match qualified_result(family, request.target@) {
                            Err(error) => Err(error),
                            Ok(target) => Ok(
                                QueryModel {
                                    sql: "SELECT "@ + fields + " FROM "@ + target + condition.text
                                        + (if family == SqlFamily::SqlServer {
                                        Seq::empty()
                                    } else {
                                        sort
                                    }) + pagination_sql(
                                        family,
                                        sort,
                                        offset as nat,
                                        (limit + 1) as nat,
                                    ),
                                    parameters: condition.values,
                                    row_limit: Some(limit as usize),
                                    base_offset: Some(offset),
                                },
                            ),
                        },
                    },
                },
            },
        },
    }
}

/// Writes the list of selected fields.
fn compile_fields(family: SqlFamily, fields: &Vec<String>) -> (result: Result<
    String,
    ConnectorError,
>)
    ensures
        is_text_result(result, fields_sql(family, texts(fields@))),
{
    if fields.len() == 0 {
        return Ok("*".to_owned());
    }
    match quote_identifiers(family, fields) {
        Err(error) => Err(error),
        Ok(quoted) => Ok(join(&quoted, ", ")),
    }
}

/// Writes the order of a statement.
pub fn compile_sort(family: SqlFamily, sort: &Vec<SortField>) -> (result: Result<
    String,
    ConnectorError,
>)
    ensures
        is_text_result(result, sort_sql(family, sort@)),
{
    if sort.len() == 0 {
        return Ok(String::new());
    }
    let mut names: Vec<String> = Vec::new();
    let mut i: usize = 0;
    while i < sort.len()
        invariant
            i <= sort@.len(),
            names@.len() == i,
            forall|j: int| 0 <= j < i ==> (#[trigger] names@[j])@ == sort@[j].field@,
        decreases sort@.len() - i,
    {
        names.push(sort[i].field.clone());
        i = i + 1;
    }
    assert(texts(names@) =~= sort_names(sort@));
    let quoted = match quote_identifiers(family, &names) {
        Err(error) => {
            return Err(error);
        },
        Ok(quoted) => quoted,
    };
    proof {
        lemma_quote_all_length(family, sort_names(sort@));
    }
    let mut keys: Vec<String> = Vec::new();
    let mut k: usize = 0;
    while k < sort.len()
        invariant
            k <= sort@.len(),
            quoted@.len() == sort@.len(),
            keys@.len() == k,
            forall|j: int|
                0 <= j < k ==> (#[trigger] keys@[j])@ == quoted@[j]@ + " "@ + direction_sql(
                    sort@[j].direction,
                ),
        decreases sort@.len() - k,
    {
        let direction = match sort[k].direction {
            SortDirection::Asc => "ASC",
            SortDirection::Desc => "DESC",
        };
        keys.push(framed(quoted[k].as_str(), " ", direction));
        k = k + 1;
    }
    assert(texts(keys@) =~= sort_keys(sort@, texts(quoted@)));
    let list = join(&keys, ", ");
    Ok(crate::model::appended(" ORDER BY ", list.as_str()))
}

/// Quoting gives as many texts as it takes.
pub proof fn lemma_quote_all_length(family: SqlFamily, identifiers: Seq<Seq<char>>)
    ensures
        quote_all(family, identifiers) matches Ok(quoted) ==> quoted.len() == identifiers.len(),
    decreases identifiers.len(),
{
    if identifiers.len() > 0 {
        lemma_quote_all_length(family, identifiers.drop_last());
    }
}

/// Writes the part of a statement that selects rows.
fn compile_pagination(family: SqlFamily, sort: &str, offset: u64, fetch: u64) -> (result: String)
    ensures
        result@ == pagination_sql(family, sort@, offset as nat, fetch as nat),
{
    let offset = decimal_text(offset);
    let fetch = decimal_text(fetch);
    match family {
        SqlFamily::Oracle => {
            let mut text = " OFFSET ".to_owned();
            text.append(offset.as_str());
            text.append(" ROWS FETCH NEXT ");
            text.append(fetch.as_str());
            text.append(" ROWS ONLY");
            text
        },
        SqlFamily::SqlServer => {
            let mut text = if sort.is_empty() {
                " ORDER BY (SELECT NULL)".to_owned()
            } else {
                sort.to_owned()
            };
            text.append(" OFFSET ");
            text.append(offset.as_str());
            text.append(" ROWS FETCH NEXT ");
            text.append(fetch.as_str());
            text.append(" ROWS ONLY");
            text
        },
        _ => {
            let mut text = " LIMIT ".to_owned();
            text.append(fetch.as_str());
            text.append(" OFFSET ");
            text.append(offset.as_str());
            text
        },
    }
}

/// Builds the statement of a read.
pub fn build_read(
    family: SqlFamily,
    context: &ConnectorContext,
    profile: &ConnectionProfile,
    request: &ReadRequest,
) -> (result: Result<BuiltQuery, ConnectorError>)
    ensures
        is_query_result(result, read_result(family, *context, *profile, *request)),
{
    let limit: u32 = match effective_row_limit(context, profile, request.options.limit) {
        Err(error) => {
            return Err(error);
        },
        Ok(limit) => limit,
    };
    let offset: u64 = match decode_offset(borrowed(&request.options.cursor)) {
        Err(error) => {
            return Err(error);
        },
        Ok(offset) => offset,
    };
    let fields = match compile_fields(family, &request.fields) {
        Err(error) => {
            return Err(error);
        },
        Ok(fields) => fields,
    };
    let mut parameters: Vec<DbValue> = Vec::new();
    let mut condition = String::new();
    match &request.filter {
        None => {},
        Some(filter) => match compile_filter(family, filter, &mut parameters) {
            Err(error) => {
                return Err(error);
            },
            Ok(text) => {
                condition.append(" WHERE ");
                condition.append(text.as_str());
                assert(condition@ =~= " WHERE "@ + text@);
            },
        },
    }
    assert(Ok::<Fragment, ErrorModel>(
        Fragment { text: condition@, values: values(parameters@) },
    ) == where_sql(family, request.filter)) by {
        match request.filter {
            None => {},
            Some(filter) => {
                let wanted = filter_sql(family, filter, 0)->Ok_0;
                assert(Seq::<ValueModel>::empty() + wanted.values =~= wanted.values);
            },
        }
    }
    let sort = match compile_sort(family, &request.options.sort) {
        Err(error) => {
            return Err(error);
        },
        Ok(sort) => sort,
    };
    let target = match qualified_name(family, request.target.as_str()) {
        Err(error) => {
            return Err(error);
        },
        Ok(target) => target,
    };
    let pagination = compile_pagination(family, sort.as_str(), offset, limit as u64 + 1);
    let order = if family == SqlFamily::SqlServer {
        String::new()
    } else {
        sort
    };
    let mut sql = "SELECT ".to_owned();
    sql.append(fields.as_str());
    sql.append(" FROM ");
    sql.append(target.as_str());
    sql.append(condition.as_str());
    sql.append(order.as_str());
    sql.append(pagination.as_str());
    Ok(
        BuiltQuery {
            sql,
            parameters,
            row_limit: Some(limit as usize),
            base_offset: Some(offset),
        },
    )
}

/// The values of some records, one record after the other.
pub open spec fn all_values(rows: Seq<RecordModel>) -> Seq<ValueModel>
    decreases rows.len(),
{
    if rows.len() == 0 {
        Seq::empty()
    } else {
        all_values(rows.drop_last()) + record_values(rows.last())
    }
}

/// The placeholders of each of `count` rows of `width` values.
pub open spec fn row_texts(family: SqlFamily, count: nat, width: nat) -> Seq<Seq<char>> {
    Seq::new(count, |i: int| row_text(family, (i * width) as nat, width))
}

/// The placeholders of one row after `bound` other values.
pub open spec fn row_text(family: SqlFamily, bound: nat, width: nat) -> Seq<char> {
    "("@ + joined(placeholders(family, bound, width), ", "@) + ")"@
}

/// The clauses of a statement that inserts several rows in Oracle's dialect.
pub open spec fn into_clauses(
    target: Seq<char>,
    columns: Seq<char>,
    rows: Seq<Seq<char>>,
) -> Seq<Seq<char>> {
    Seq::new(
        rows.len(),
        |i: int| "INTO "@ + target + " ("@ + columns + ") VALUES "@ + rows[i],
    )
}

/// The text of a statement that inserts rows.
pub open spec fn insert_sql(
    family: SqlFamily,
    target: Seq<char>,
    columns: Seq<char>,
    rows: Seq<Seq<char>>,
) -> Seq<char> {
    if family == SqlFamily::Oracle && rows.len() > 1 {
        "INSERT ALL "@ + joined(into_clauses(target, columns, rows), " "@)
            + " SELECT 1 FROM DUAL"@
    } else {
        "INSERT INTO "@ + target + " ("@ + columns + ") VALUES "@ + joined(rows, ", "@)
    }
}

/// Whether some record has other names than `columns`.
pub open spec fn has_other_names(rows: Seq<RecordModel>, columns: Seq<Seq<char>>) -> bool {
    exists|i: int| 0 <= i < rows.len() && record_names(#[trigger] rows[i]) != columns
}

/// The statement that inserts records.
pub open spec fn insert_result(
    family: SqlFamily,
    profile: ConnectionProfile,
    request: InsertRequest,
) -> Result<QueryModel, ErrorModel> {
    let rows = records(request.records@);
    if rows.len() == 0 {
        Err(invalid_request("insert requires at least one record"@))
    } else if rows.len() > profile.policy.max_affected {
        Err(invalid_request("insert record count exceeds max_affected"@))
    } else {
        let columns = record_names(rows[0]);
        if columns.len() == 0 {
            Err(invalid_request("insert records cannot be empty"@))
        } else if has_other_names(rows, columns) {
            Err(invalid_request("all insert records must contain the same ordered fields"@))
        } else {
            match quote_all(family, columns) {
                Err(error) => Err(error),
                Ok(quoted) => match qualified_result(family, request.target@) {
                    Err(error) => Err(error),
                    Ok(target) => Ok(
                        QueryModel {
                            sql: insert_sql(
                                family,
                                target,
                                joined(quoted, ", "@),
                                row_texts(family, rows.len(), columns.len()),
                            ),
                            parameters: all_values(rows),
                            row_limit: None,
                            base_offset: None,
                        },
                    ),
                },
            }
        }
    }
}

/// The names of a record.
pub fn names_of(record: &DbRecord) -> (result: Vec<String>)
    ensures
        texts(result@) == record_names(record@),
{
    let mut result: Vec<String> = Vec::new();
    let mut i: usize = 0;
    while i < record.len()
        invariant
            i <= record@.len(),
            result@.len() == i,
            forall|j: int| 0 <= j < i ==> (#[trigger] result@[j])@ == record@[j].0,
        decreases record@.len() - i,
    {
        result.push(record.name_at(i).to_owned());
        i = i + 1;
    }
    assert(texts(result@) =~= record_names(record@));
    result
}

/// Whether a record has exactly the given names.
fn has_names(record: &DbRecord, columns: &Vec<String>) -> (result: bool)
    ensures
        result == (record_names(record@) == texts(columns@)),
{
    if record.len() != columns.len() {
        assert(record_names(record@).len() != texts(columns@).len());
        return false;
    }
    let mut i: usize = 0;
    while i < columns.len()
        invariant
            i <= columns@.len(),
            record@.len() == columns@.len(),
            forall|j: int| 0 <= j < i ==> record@[j].0 == (#[trigger] columns@[j])@,
        decreases columns@.len() - i,
    {
        if !same(record.name_at(i), columns[i].as_str()) {
            assert(record_names(record@)[i as int] != texts(columns@)[i as int]);
            return false;
        }
        i = i + 1;
    }
    assert(record_names(record@) =~= texts(columns@));
    true
}

/// Whether some record has other names than `columns`.
fn any_other_names(rows: &Vec<DbRecord>, columns: &Vec<String>) -> (result: bool)
    ensures
        result == has_other_names(records(rows@), texts(columns@)),
{
    let ghost all = records(rows@);
    let mut i: usize = 0;
    while i < rows.len()
        invariant
            i <= rows@.len(),
            all == records(rows@),
            forall|j: int| 0 <= j < i ==> record_names(#[trigger] all[j]) == texts(columns@),
        decreases rows@.len() - i,
    {
        if !has_names(&rows[i], columns) {
            assert(record_names(all[i as int]) != texts(columns@));
            return true;
        }
        i = i + 1;
    }
    false
}

/// Binds the values of one record and writes its row of placeholders.
fn bind_row(family: SqlFamily, record: &DbRecord, parameters: &mut Vec<DbValue>) -> (result: String)
    ensures
        result@ == row_text(family, old(parameters)@.len(), record@.len()),
        values(final(parameters)@) == values(old(parameters)@) + record_values(record@),
{
    let ghost before = parameters@;
    let mut marks: Vec<String> = Vec::new();
    let mut i: usize = 0;
    assert(values(parameters@) =~= values(before) + record_values(record@).subrange(0, 0));
    assert(texts(marks@) =~= placeholders(family, before.len(), 0));
    while i < record.len()
        invariant
            i <= record@.len(),
            before == old(parameters)@,
            values(parameters@) == values(before) + record_values(record@).subrange(0, i as int),
            texts(marks@) == placeholders(family, before.len(), i as nat),
        decreases record@.len() - i,
    {
        let ghost previous = parameters@;
        let ghost shown = marks@;
        parameters.push(record.value_at(i).copy());
        assert(values(parameters@) == values(previous).push(record@[i as int].1));
        assert(values(parameters@) =~= values(before) + record_values(record@).subrange(0, i + 1));
        assert(values(parameters@).len() == parameters@.len());
        let mark = placeholder(family, parameters.len());
        let ghost text = mark@;
        marks.push(mark);
        assert(texts(marks@) == texts(shown).push(text));
        assert(texts(marks@) =~= placeholders(family, before.len(), (i + 1) as nat));
        i = i + 1;
    }
    assert(record_values(record@).subrange(0, i as int) =~= record_values(record@));
    let list = join(&marks, ", ");
    framed("(", list.as_str(), ")")
}

/// Builds the statement of an insert.
pub fn build_insert(
    family: SqlFamily,
    profile: &ConnectionProfile,
    request: &InsertRequest,
) -> (result: Result<BuiltQuery, ConnectorError>)
    ensures
        is_query_result(result, insert_result(family, *profile, *request)),
{
    let ghost all = records(request.records@);
    if request.records.len() == 0 {
        return Err(invalid("insert requires at least one record"));
    }
    if request.records.len() as u64 > profile.policy.max_affected {
        return Err(invalid("insert record count exceeds max_affected"));
    }
    let columns = names_of(&request.records[0]);
    let ghost names = texts(columns@);
    if columns.len() == 0 {
        return Err(invalid("insert records cannot be empty"));
    }
    if any_other_names(&request.records, &columns) {
        return Err(invalid("all insert records must contain the same ordered fields"));
    }
    assert forall|j: int| 0 <= j < all.len() implies record_names(#[trigger] all[j]) == names by {
        assert(!has_other_names(all, names));
    }
    let ghost width = names.len();
    let mut parameters: Vec<DbValue> = Vec::new();
    let mut rows: Vec<String> = Vec::new();
    let mut i: usize = 0;
    assert(all.subrange(0, 0) =~= Seq::<RecordModel>::empty());
    assert(texts(rows@) =~= row_texts(family, 0, width));
    while i < request.records.len()
        invariant
            i <= request.records@.len(),
            all == records(request.records@),
            width == names.len(),
            forall|j: int| 0 <= j < all.len() ==> record_names(#[trigger] all[j]) == names,
            values(parameters@) == all_values(all.subrange(0, i as int)),
            parameters@.len() == i * width,
            texts(rows@) == row_texts(family, i as nat, width),
        decreases request.records@.len() - i,
    {
        let ghost next = all.subrange(0, i + 1);
        let ghost shown = rows@;
        assert(next.drop_last() =~= all.subrange(0, i as int));
        assert(next.last() == all[i as int]);
        assert(record_names(all[i as int]) == names);
        assert(all[i as int].len() == width);
        let row = bind_row(family, &request.records[i], &mut parameters);
        let ghost text = row@;
        rows.push(row);
        assert(texts(rows@) == texts(shown).push(text));
        assert(texts(rows@) =~= row_texts(family, (i + 1) as nat, width));
        assert(values(parameters@).len() == parameters@.len());
        assert((i + 1) * width == i * width + width) by (nonlinear_arith);
        i = i + 1;
    }
    assert(all.subrange(0, i as int) =~= all);
    let quoted = match quote_identifiers(family, &columns) {
        Err(error) => {
            return Err(error);
        },
        Ok(quoted) => quoted,
    };
    let columns = join(&quoted, ", ");
    let target = match qualified_name(family, request.target.as_str()) {
        Err(error) => {
            return Err(error);
        },
        Ok(target) => target,
    };
    let sql = compile_insert(family, target.as_str(), columns.as_str(), &rows);
    Ok(BuiltQuery { sql, parameters, row_limit: None, base_offset: None })
}

/// Writes the text of an insert.
fn compile_insert(family: SqlFamily, target: &str, columns: &str, rows: &Vec<String>) -> (result:
    String)
    ensures
        result@ == insert_sql(family, target@, columns@, texts(rows@)),
{
    if family == SqlFamily::Oracle && rows.len() > 1 {
        let mut clauses: Vec<String> = Vec::new();
        let mut i: usize = 0;
        while i < rows.len()
            invariant
                i <= rows@.len(),
                clauses@.len() == i,
                forall|j: int|
                    0 <= j < i ==> (#[trigger] clauses@[j])@ == "INTO "@ + target@ + " ("@
                        + columns@ + ") VALUES "@ + rows@[j]@,
            decreases rows@.len() - i,
        {
            let mut clause = "INTO ".to_owned();
            clause.append(target);
            clause.append(" (");
            clause.append(columns);
            clause.append(") VALUES ");
            clause.append(rows[i].as_str());
            clauses.push(clause);
            i = i + 1;
        }
        assert(texts(clauses@) =~= into_clauses(target@, columns@, texts(rows@)));
        let list = join(&clauses, " ");
        framed("INSERT ALL ", list.as_str(), " SELECT 1 FROM DUAL")
    } else {
        let list = join(rows, ", ");
        let mut sql = "INSERT INTO ".to_owned();
        sql.append(target);
        sql.append(" (");
        sql.append(columns);
        sql.append(") VALUES ");
        sql.append(list.as_str());
        sql
    }
}

/// The assignments of a statement that changes fields, numbered from the first parameter.
pub open spec fn assignment_texts(family: SqlFamily, quoted: Seq<Seq<char>>) -> Seq<Seq<char>> {
    Seq::new(
        quoted.len(),
        |i: int| quoted[i] + " = "@ + placeholder_text(family, (i + 1) as nat),
    )
}

/// The text of a statement that changes at most `limit` of the rows that meet a condition, as far
/// as the dialect can say so.
pub open spec fn update_sql(
    family: SqlFamily,
    target: Seq<char>,
    assignments: Seq<char>,
    condition: Seq<char>,
    limit: nat,
) -> Seq<char> {
    match family {
        SqlFamily::PostgreSql => "UPDATE "@ + target + " SET "@ + assignments
            + " WHERE ctid IN (SELECT ctid FROM "@ + target + " WHERE "@ + condition + " LIMIT "@
            + decimal(limit) + ")"@,
        SqlFamily::MySql => "UPDATE "@ + target + " SET "@ + assignments + " WHERE "@ + condition
            + " LIMIT "@ + decimal(limit),
        SqlFamily::SqlServer => "UPDATE TOP ("@ + decimal(limit) + ") "@ + target + " SET "@
            + assignments + " WHERE "@ + condition,
        _ => "UPDATE "@ + target + " SET "@ + assignments + " WHERE "@ + condition,
    }
}

/// The statement that changes records.
pub open spec fn update_result(
    family: SqlFamily,
    profile: ConnectionProfile,
    request: UpdateRequest,
) -> Result<QueryModel, ErrorModel> {
    let changes = request.changes@;
    if changes.len() == 0 {
        Err(invalid_request("update changes cannot be empty"@))
    } else {
        match write_limit_result(profile, request.max_affected) {
            Err(error) => Err(error),
            Ok(limit) => match qualified_result(family, request.target@) {
                Err(error) => Err(error),
                Ok(target) => match quote_all(family, record_names(changes)) {
                    Err(error) => Err(error),
                    Ok(quoted) => match filter_sql(family, request.filter, changes.len()) {
                        Err(error) => Err(error),
                        Ok(condition) => Ok(
                            QueryModel {
                                sql: update_sql(
                                    family,
                                    target,
                                    joined(assignment_texts(family, quoted), ", "@),
                                    condition.text,
                                    limit as nat,
                                ),
                                parameters: record_values(changes) + condition.values,
                                row_limit: None,
                                base_offset: None,
                            },
                        ),
                    },
                },
            },
        }
    }
}

/// Writes the text of an update.
fn compile_update(
    family: SqlFamily,
    target: &str,
    assignments: &str,
    condition: &str,
    limit: u64,
) -> (result: String)
    ensures
        result@ == update_sql(family, target@, assignments@, condition@, limit as nat),
{
    let limit = decimal_text(limit);
    match family {
        SqlFamily::PostgreSql => {
            let mut sql = "UPDATE ".to_owned();
            sql.append(target);
            sql.append(" SET ");
            sql.append(assignments);
            sql.append(" WHERE ctid IN (SELECT ctid FROM ");
            sql.append(target);
            sql.append(" WHERE ");
            sql.append(condition);
            sql.append(" LIMIT ");
            sql.append(limit.as_str());
            sql.append(")");
            sql
        },
        SqlFamily::MySql => {
            let mut sql = "UPDATE ".to_owned();
            sql.append(target);
            sql.append(" SET ");
            sql.append(assignments);
            sql.append(" WHERE ");
            sql.append(condition);
            sql.append(" LIMIT ");
            sql.append(limit.as_str());
            sql
        },
        SqlFamily::SqlServer => {
            let mut sql = "UPDATE TOP (".to_owned();
            sql.append(limit.as_str());
            sql.append(") ");
            sql.append(target);
            sql.append(" SET ");
            sql.append(assignments);
            sql.append(" WHERE ");
            sql.append(condition);
            sql
        },
        _ => {
            let mut sql = "UPDATE ".to_owned();
            sql.append(target);
            sql.append(" SET ");
            sql.append(assignments);
            sql.append(" WHERE ");
            sql.append(condition);
            sql
        },
    }
}

/// Builds the statement of an update.
pub fn build_update(
    family: SqlFamily,
    profile: &ConnectionProfile,
    request: &UpdateRequest,
) -> (result: Result<BuiltQuery, ConnectorError>)
    ensures
        is_query_result(result, update_result(family, *profile, *request)),
{
    let changes = &request.changes;
    if changes.len() == 0 {
        return Err(invalid("update changes cannot be empty"));
    }
    let limit: u64 = match effective_write_limit(profile, request.max_affected) {
        Err(error) => {
            return Err(error);
        },
        Ok(limit) => limit,
    };
    let target = match qualified_name(family, request.target.as_str()) {
        Err(error) => {
            return Err(error);
        },
        Ok(target) => target,
    };
    let names = names_of(changes);
    let quoted = match quote_identifiers(family, &names) {
        Err(error) => {
            return Err(error);
        },
        Ok(quoted) => quoted,
    };
    proof {
        lemma_quote_all_length(family, record_names(changes@));
    }
    let mut parameters: Vec<DbValue> = Vec::new();
    let mut assignments: Vec<String> = Vec::new();
    let mut i: usize = 0;
    while i < changes.len()
        invariant
            i <= changes@.len(),
            quoted@.len() == changes@.len(),
            parameters@.len() == i,
            assignments@.len() == i,
            forall|j: int| 0 <= j < i ==> (#[trigger] parameters@[j])@ == changes@[j].1,
            forall|j: int|
                0 <= j < i ==> (#[trigger] assignments@[j])@ == quoted@[j]@ + " = "@
                    + placeholder_text(family, (j + 1) as nat),
        decreases changes@.len() - i,
    {
        parameters.push(changes.value_at(i).copy());
        let mark = placeholder(family, parameters.len());
        assignments.push(framed(quoted[i].as_str(), " = ", mark.as_str()));
        i = i + 1;
    }
    assert(texts(assignments@) =~= assignment_texts(family, texts(quoted@)));
    assert(values(parameters@) =~= record_values(changes@));
    let condition = match compile_filter(family, &request.filter, &mut parameters) {
        Err(error) => {
            return Err(error);
        },
        Ok(condition) => condition,
    };
    let list = join(&assignments, ", ");
    let sql = compile_update(family, target.as_str(), list.as_str(), condition.as_str(), limit);
    Ok(BuiltQuery { sql, parameters, row_limit: None, base_offset: None })
}

/// The text of a statement that removes at most `limit` of the rows that meet a condition, as far
/// as the dialect can say so.
pub open spec fn delete_sql(
    family: SqlFamily,
    target: Seq<char>,
    condition: Seq<char>,
    limit: nat,
) -> Seq<char> {
    match family {
        SqlFamily::PostgreSql => "DELETE FROM "@ + target
            + " WHERE ctid IN (SELECT ctid FROM "@ + target + " WHERE "@ + condition + " LIMIT "@
            + decimal(limit) + ")"@,
        SqlFamily::MySql => "DELETE FROM "@ + target + " WHERE "@ + condition + " LIMIT "@
            + decimal(limit),
        SqlFamily::SqlServer => "DELETE TOP ("@ + decimal(limit) + ") FROM "@ + target
            + " WHERE "@ + condition,
        _ => "DELETE FROM "@ + target + " WHERE "@ + condition,
    }
}

/// The statement that removes records.
pub open spec fn delete_result(
    family: SqlFamily,
    profile: ConnectionProfile,
    request: DeleteRequest,
) -> Result<QueryModel, ErrorModel> {
    match write_limit_result(profile, request.max_affected) {
        Err(error) => Err(error),
        Ok(limit) => match qualified_result(family, request.target@) {
            Err(error) => Err(error),
            Ok(target) => match filter_sql(family, request.filter, 0) {
                Err(error) => Err(error),
                Ok(condition) => Ok(
                    QueryModel {
                        sql: delete_sql(family, target, condition.text, limit as nat),
                        parameters: condition.values,
                        row_limit: None,
                        base_offset: None,
                    },
                ),
            },
        },
    }
}

/// Writes the text of a delete.
fn compile_delete(family: SqlFamily, target: &str, condition: &str, limit: u64) -> (result: String)
    ensures
        result@ == delete_sql(family, target@, condition@, limit as nat),
{
    let limit = decimal_text(limit);
    match family {
        SqlFamily::PostgreSql => {
            let mut sql = "DELETE FROM ".to_owned();
            sql.append(target);
            sql.append(" WHERE ctid IN (SELECT ctid FROM ");
            sql.append(target);
            sql.append(" WHERE ");
            sql.append(condition);
            sql.append(" LIMIT ");
            sql.append(limit.as_str());
            sql.append(")");
            sql
        },
        SqlFamily::MySql => {
            let mut sql = "DELETE FROM ".to_owned();
            sql.append(target);
            sql.append(" WHERE ");
            sql.append(condition);
            sql.append(" LIMIT ");
            sql.append(limit.as_str());
            sql
        },
        SqlFamily::SqlServer => {
            let mut sql = "DELETE TOP (".to_owned();
            sql.append(limit.as_str());
            sql.append(") FROM ");
            sql.append(target);
            sql.append(" WHERE ");
            sql.append(condition);
            sql
        },
        _ => {
            let mut sql = "DELETE FROM ".to_owned();
            sql.append(target);
            sql.append(" WHERE ");
            sql.append(condition);
            sql
        },
    }
}

/// Builds the statement of a delete.
pub fn build_delete(
    family: SqlFamily,
    profile: &ConnectionProfile,
    request: &DeleteRequest,
) -> (result: Result<BuiltQuery, ConnectorError>)
    ensures
        is_query_result(result, delete_result(family, *profile, *request)),
{
    let limit: u64 = match effective_write_limit(profile, request.max_affected) {
        Err(error) => {
            return Err(error);
        },
        Ok(limit) => limit,
    };
    let target = match qualified_name(family, request.target.as_str()) {
        Err(error) => {
            return Err(error);
        },
        Ok(target) => target,
    };
    let mut parameters: Vec<DbValue> = Vec::new();
    let condition = match compile_filter(family, &request.filter, &mut parameters) {
        Err(error) => {
            return Err(error);
        },
        Ok(condition) => condition,
    };
    assert(values(parameters@) =~= filter_sql(family, request.filter, 0)->Ok_0.values);
    let sql = compile_delete(family, target.as_str(), condition.as_str(), limit);
    Ok(BuiltQuery { sql, parameters, row_limit: None, base_offset: None })
}

/// The text of a read does not depend on the values that its filter compares with.
pub proof fn lemma_values_never_reach_the_read(
    family: SqlFamily,
    context: ConnectorContext,
    profile: ConnectionProfile,
    left: ReadRequest,
    right: ReadRequest,
)
    requires
        left.target@ == right.target@,
        texts(left.fields@) == texts(right.fields@),
        left.options == right.options,
        match (left.filter, right.filter) {
            (Some(a), Some(b)) => same_shape(a, b),
            (None, None) => true,
            _ => false,
        },
    ensures
        match (
            read_result(family, context, profile, left),
            read_result(family, context, profile, right),
        ) {
            (Ok(left), Ok(right)) => left.sql == right.sql && left.parameters.len()
                == right.parameters.len(),
            (Err(left), Err(right)) => left == right,
            _ => false,
        },
{
    match (left.filter, right.filter) {
        (Some(a), Some(b)) => {
            lemma_values_never_reach_the_text(family, a, b, 0);
        },
        _ => {},
    }
}

/// The text of an insert depends only on the names of its records and on how many there are:
/// inserts that differ only in values have the same text.
pub proof fn lemma_values_never_reach_the_insert(
    family: SqlFamily,
    profile: ConnectionProfile,
    left: InsertRequest,
    right: InsertRequest,
)
    requires
        left.target@ == right.target@,
        left.records@.len() == right.records@.len(),
        forall|i: int|
            0 <= i < left.records@.len() ==> record_names((#[trigger] left.records@[i])@)
                == record_names(right.records@[i]@),
    ensures
        match (
            insert_result(family, profile, left),
            insert_result(family, profile, right),
        ) {
            (Ok(left), Ok(right)) => left.sql == right.sql,
            (Err(left), Err(right)) => left == right,
            _ => false,
        },
{
    let a = records(left.records@);
    let b = records(right.records@);
    assert(forall|i: int| 0 <= i < a.len() ==> record_names(#[trigger] a[i]) == record_names(b[i]))
        by {
        assert forall|i: int| 0 <= i < a.len() implies record_names(#[trigger] a[i])
            == record_names(b[i]) by {
            assert(a[i] == left.records@[i]@);
        }
    }
    if a.len() > 0 {
        let columns = record_names(a[0]);
        assert(columns == record_names(b[0]));
        if has_other_names(a, columns) {
            let i = choose|i: int| 0 <= i < a.len() && record_names(#[trigger] a[i]) != columns;
            assert(record_names(b[i]) != columns);
        }
        if has_other_names(b, columns) {
            let i = choose|i: int| 0 <= i < b.len() && record_names(#[trigger] b[i]) != columns;
            assert(record_names(a[i]) != columns);
        }
    }
}

/// The text of an update depends only on the names of its changes and on the shape of its filter:
/// updates that differ only in values have the same text.
pub proof fn lemma_values_never_reach_the_update(
    family: SqlFamily,
    profile: ConnectionProfile,
    left: UpdateRequest,
    right: UpdateRequest,
)
    requires
        left.target@ == right.target@,
        left.max_affected == right.max_affected,
        record_names(left.changes@) == record_names(right.changes@),
        same_shape(left.filter, right.filter),
    ensures
        match (
            update_result(family, profile, left),
            update_result(family, profile, right),
        ) {
            (Ok(left), Ok(right)) => left.sql == right.sql && left.parameters.len()
                == right.parameters.len(),
            (Err(left), Err(right)) => left == right,
            _ => false,
        },
{
    assert(record_names(left.changes@).len() == record_names(right.changes@).len());
    lemma_values_never_reach_the_text(family, left.filter, right.filter, left.changes@.len());
}

/// The text of a removal depends only on the shape of its filter: removals that differ only in
/// values have the same text.
pub proof fn lemma_values_never_reach_the_delete(
    family: SqlFamily,
    profile: ConnectionProfile,
    left: DeleteRequest,
    right: DeleteRequest,
)
    requires
        left.target@ == right.target@,
        left.max_affected == right.max_affected,
        same_shape(left.filter, right.filter),
    ensures
        match (
            delete_result(family, profile, left),
            delete_result(family, profile, right),
        ) {
            (Ok(left), Ok(right)) => left.sql == right.sql && left.parameters.len()
                == right.parameters.len(),
            (Err(left), Err(right)) => left == right,
            _ => false,
        },
{
    lemma_values_never_reach_the_text(family, left.filter, right.filter, 0);
}

} // verus!
