//! Statements that a caller writes in SQL.
use crate::model::{
    invalid, invalid_request, is_text_result, unsupported, unsupported_request, ConnectorError,
    ErrorModel,
};
use crate::sql::identifier::SqlFamily;
use crate::text::{byte_count, byte_length, has_char, trim, trimmed};
use sqlparser::ast::{Query, SetExpr, Statement, Visit, Visitor};
use sqlparser::dialect::dialect_from_str;
use sqlparser::parser::Parser;
use std::ops::ControlFlow;
use vstd::prelude::*;

verus! {

/// What the body of a query is.
#[derive(Debug, Clone, Copy, PartialEq, Eq, Structural)]
pub enum QueryBody {
    Select { into: bool },
    Query,
    SetOperation,
    Values,
    Table,
    Insert,
    Update,
    Delete,
    Merge,
}

/// What a statement is. Of a query, the bodies of it and of all queries within it.
#[derive(Debug)]
pub enum StatementKind {
    Query { bodies: Vec<QueryBody> },
    Insert,
    Update,
    Delete,
    Other,
}

/// What a [`StatementKind`] is.
pub enum StatementModel {
    Query { bodies: Seq<QueryBody> },
    Insert,
    Update,
    Delete,
    Other,
}

impl View for StatementKind {
    type V = StatementModel;

    open spec fn view(&self) -> StatementModel {
        match *self {
            StatementKind::Query { bodies } => StatementModel::Query { bodies: bodies@ },
            StatementKind::Insert => StatementModel::Insert,
            StatementKind::Update => StatementModel::Update,
            StatementKind::Delete => StatementModel::Delete,
            StatementKind::Other => StatementModel::Other,
        }
    }
}

/// What each of some statements is.
pub open spec fn statements(items: Seq<StatementKind>) -> Seq<StatementModel> {
    Seq::new(items.len(), |i: int| items[i]@)
}

/// The statements that a text holds in a dialect, or the message of the parser that refuses it.
pub uninterp spec fn parsed_sql(dialect: Seq<char>, text: Seq<char>) -> Result<
    Seq<StatementModel>,
    Seq<char>,
>;

/// A query of the crate `sqlparser`.
#[verifier::external_type_specification]
#[verifier::external_body]
pub struct ExQuery(sqlparser::ast::Query);

/// Collects the bodies of the queries that a walk through a statement meets.
pub struct BodyCollector {
    pub bodies: Vec<QueryBody>,
}

impl Visitor for BodyCollector {
    type Break = ();

    /// Notes the body of a query, variant by variant.
    #[verifier::external_body]
    fn pre_visit_query(&mut self, query: &Query) -> ControlFlow<()> {
        self.bodies.push(
            match query.body.as_ref() {
                SetExpr::Select(select) => QueryBody::Select { into: select.into.is_some() },
                SetExpr::Query(_) => QueryBody::Query,
                SetExpr::SetOperation { .. } => QueryBody::SetOperation,
                SetExpr::Values(_) => QueryBody::Values,
                SetExpr::Table(_) => QueryBody::Table,
                SetExpr::Insert(_) => QueryBody::Insert,
                SetExpr::Update(_) => QueryBody::Update,
                SetExpr::Delete(_) => QueryBody::Delete,
                SetExpr::Merge(_) => QueryBody::Merge,
            },
        );
        ControlFlow::Continue(())
    }
}

/// `sqlparser::parser::Parser::parse_sql` with the dialect that `sqlparser::dialect::dialect_from_str`
/// gives for a name, each statement by its variant, and of a query the bodies that `Visit::visit`
/// meets.
#[verifier::external_body]
fn parse_sql(dialect: &str, text: &str) -> (result: Result<Vec<StatementKind>, String>)
    ensures
        match (result, parsed_sql(dialect@, text@)) {
            (Ok(list), Ok(wanted)) => statements(list@) == wanted,
            (Err(message), Err(wanted)) => message@ == wanted,
            _ => false,
        },
{
    let dialect = dialect_from_str(dialect).ok_or_else(String::new)?;
    let list = Parser::parse_sql(&*dialect, text).map_err(|error| error.to_string())?;
    Ok(list.iter().map(|statement| match statement {
        Statement::Query(query) => {
            let mut collector = BodyCollector { bodies: Vec::new() };
            let _ = query.visit(&mut collector);
            StatementKind::Query { bodies: collector.bodies }
        },
        Statement::Insert(_) => StatementKind::Insert,
        Statement::Update { .. } => StatementKind::Update,
        Statement::Delete(_) => StatementKind::Delete,
        _ => StatementKind::Other,
    }).collect())
}

/// The dialect in which a family's statements are read.
pub open spec fn parser_dialect(family: SqlFamily) -> Seq<char> {
    match family {
        SqlFamily::PostgreSql => "postgresql"@,
        SqlFamily::PostgreSqlCompatible => "postgresql"@,
        SqlFamily::MySql => "mysql"@,
        SqlFamily::Oracle => "generic"@,
        SqlFamily::SqlServer => "mssql"@,
    }
}

/// Whether a query with this body only reads.
pub open spec fn body_reads(body: QueryBody) -> bool {
    match body {
        QueryBody::Select { into } => !into,
        QueryBody::Query => true,
        QueryBody::SetOperation => true,
        QueryBody::Values => true,
        QueryBody::Table => true,
        _ => false,
    }
}

/// Whether a statement is a query that only reads, in all its parts.
pub open spec fn only_reads(statement: StatementModel) -> bool {
    match statement {
        StatementModel::Query { bodies } => all_read(bodies),
        _ => false,
    }
}

/// Whether queries with these bodies only read.
pub open spec fn all_read(bodies: Seq<QueryBody>) -> bool {
    forall|i: int| 0 <= i < bodies.len() ==> body_reads(#[trigger] bodies[i])
}

/// Whether a statement inserts, updates or deletes.
pub open spec fn writes(statement: StatementModel) -> bool {
    statement is Insert || statement is Update || statement is Delete
}

/// The error of what a parser found, where exactly one statement of the wanted kind is accepted.
pub open spec fn parsed_error(
    parsed: Result<Seq<StatementModel>, Seq<char>>,
    write: bool,
) -> Option<ErrorModel> {
    match parsed {
        Err(message) => Some(invalid_request("native SQL could not be parsed: "@ + message)),
        Ok(list) => if list.len() != 1 {
            Some(invalid_request("native SQL must contain exactly one statement"@))
        } else if write && !writes(list[0]) {
            Some(
                unsupported_request(
                    "native execute accepts INSERT, UPDATE, or DELETE only; DDL and administration are disabled"@,
                ),
            )
        } else if !write && !only_reads(list[0]) {
            Some(unsupported_request("native query accepts a SELECT/WITH query only"@))
        } else {
            None
        },
    }
}

/// The error of a statement that is not sent to the parser.
pub open spec fn statement_error(statement: Seq<char>) -> Option<ErrorModel> {
    if statement.len() == 0 || byte_length(statement) > 1_048_576 {
        Some(invalid_request("native SQL is empty or exceeds 1 MiB"@))
    } else if statement.contains(';') {
        Some(
            invalid_request(
                "native SQL must contain exactly one statement without a semicolon"@,
            ),
        )
    } else {
        None
    }
}

/// What a native statement gives: the statement without the white space around it.
pub open spec fn native_result(family: SqlFamily, statement: Seq<char>, write: bool) -> Result<
    Seq<char>,
    ErrorModel,
> {
    let statement = trimmed(statement);
    match statement_error(statement) {
        Some(error) => Err(error),
        None => match parsed_error(parsed_sql(parser_dialect(family), statement), write) {
            Some(error) => Err(error),
            None => Ok(statement),
        },
    }
}

/// Whether a query with these bodies only reads.
pub fn query_is_read_only(bodies: &Vec<QueryBody>) -> (result: bool)
    ensures
        result == all_read(bodies@),
{
    let mut i: usize = 0;
    while i < bodies.len()
        invariant
            i <= bodies@.len(),
            forall|j: int| 0 <= j < i ==> body_reads(#[trigger] bodies@[j]),
        decreases bodies@.len() - i,
    {
        let reads = match bodies[i] {
            QueryBody::Select { into } => !into,
            QueryBody::Query => true,
            QueryBody::SetOperation => true,
            QueryBody::Values => true,
            QueryBody::Table => true,
            _ => false,
        };
        if !reads {
            assert(!body_reads(bodies@[i as int]));
            return false;
        }
        i = i + 1;
    }
    true
}

/// What a list of parsed statements is.
pub open spec fn parsed_model(parsed: Result<Vec<StatementKind>, String>) -> Result<
    Seq<StatementModel>,
    Seq<char>,
> {
    match parsed {
        Ok(list) => Ok(statements(list@)),
        Err(message) => Err(message@),
    }
}

/// Accepts what a parser found: exactly one statement of the wanted kind.
pub fn accept_parsed(parsed: &Result<Vec<StatementKind>, String>, write: bool) -> (result: Result<
    (),
    ConnectorError,
>)
    ensures
        crate::model::error_of(result) == parsed_error(parsed_model(*parsed), write),
{
    let list = match parsed {
        Err(message) => {
            let message = crate::model::appended(
                "native SQL could not be parsed: ",
                message.as_str(),
            );
            return Err(invalid(message.as_str()));
        },
        Ok(list) => list,
    };
    if list.len() != 1 {
        return Err(invalid("native SQL must contain exactly one statement"));
    }
    assert(statements(list@)[0] == list@[0]@);
    let (is_query, is_write): (bool, bool) = match &list[0] {
        StatementKind::Query { bodies } => (query_is_read_only(bodies), false),
        StatementKind::Insert => (false, true),
        StatementKind::Update => (false, true),
        StatementKind::Delete => (false, true),
        StatementKind::Other => (false, false),
    };
    if write && !is_write {
        return Err(
            unsupported(
                "native execute accepts INSERT, UPDATE, or DELETE only; DDL and administration are disabled",
            ),
        );
    }
    if !write && !is_query {
        return Err(unsupported("native query accepts a SELECT/WITH query only"));
    }
    Ok(())
}

/// Accepts a native statement: one query that only reads, or one that inserts, updates or deletes.
pub fn parse_native(family: SqlFamily, statement: &str, write: bool) -> (result: Result<
    String,
    ConnectorError,
>)
    ensures
        is_text_result(result, native_result(family, statement@, write)),
{
    let statement = trim(statement);
    if statement.as_str().is_empty() || byte_count(statement.as_str()) > 1_048_576 {
        return Err(invalid("native SQL is empty or exceeds 1 MiB"));
    }
    if has_char(statement.as_str(), ';') {
        return Err(
            invalid("native SQL must contain exactly one statement without a semicolon"),
        );
    }
    let dialect = match family {
        SqlFamily::PostgreSql => "postgresql",
        SqlFamily::PostgreSqlCompatible => "postgresql",
        SqlFamily::MySql => "mysql",
        SqlFamily::Oracle => "generic",
        SqlFamily::SqlServer => "mssql",
    };
    let parsed = parse_sql(dialect, statement.as_str());
    match accept_parsed(&parsed, write) {
        Err(error) => Err(error),
        Ok(()) => Ok(statement),
    }
}

/// No native statement is accepted both as a read and as a write.
pub proof fn lemma_no_read_is_a_write(family: SqlFamily, statement: Seq<char>)
    ensures
        native_result(family, statement, false) is Err || native_result(
            family,
            statement,
            true,
        ) is Err,
{
}

} // verus!
