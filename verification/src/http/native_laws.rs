//! What is sent of a native request, and which ones are taken.
use crate::http::elastic::{is_native_search, native_search_call};
use crate::http::native::{envelope_result, is_under_any, native_result, EnvelopeModel};
use crate::http::transport::{native_url_result, BodyModel, MethodModel};
use crate::json::{member, text_of};
use crate::model::{ConnectionProfile, ErrorCategory, ErrorModel};
use crate::sql::identifier::SqlFamily;
use crate::sql::native::{parsed_sql, QueryBody, StatementModel};
use crate::text::{byte_length, trimmed};
use crate::value::JsonModel;
use vstd::prelude::*;

verus! {

/// Whether a method is the one that a name says.
pub open spec fn is_method_named(method: MethodModel, name: Seq<char>) -> bool {
    match method {
        MethodModel::Get => name == "GET"@,
        MethodModel::Head => name == "HEAD"@,
        MethodModel::Post => name == "POST"@,
        MethodModel::Put => name == "PUT"@,
        MethodModel::Delete => name == "DELETE"@,
        MethodModel::Other(text) => name == text,
    }
}

/// A native request is what its document says: its method, its path, each parameter of its query, and
/// its body.
pub proof fn lemma_envelopes_say_what_is_asked(
    document: JsonModel,
    read_only: bool,
    allowed: Seq<Seq<char>>,
)
    ensures
        envelope_result(Some(document), read_only, allowed) matches Ok(envelope) ==> {
            &&& text_of(member(document, "method"@)) matches Some(name) && is_method_named(
                envelope.method,
                name,
            )
            &&& text_of(member(document, "path"@)) == Some(envelope.path)
            &&& member(document, "query"@) is None ==> envelope.query.len() == 0
            &&& member(document, "query"@) matches Some(query) ==> (query matches JsonModel::Object(
                list,
            ) && envelope.query.len() == list.len() && forall|i: int|
                0 <= i < list.len() ==> list[i].0 == (#[trigger] envelope.query[i]).0 && list[i].1
                    == JsonModel::Text(envelope.query[i].1))
            &&& envelope.body == match member(document, "body"@) {
                Some(JsonModel::Null) => None,
                body => body,
            }
            &&& read_only ==> envelope.method is Get || envelope.method is Head
                || envelope.method is Post
            &&& is_under_any(envelope.path, allowed)
            &&& forall|i: int|
                0 <= i < envelope.path.len() ==> #[trigger] envelope.path[i] != '?'
                    && envelope.path[i] != '#' && envelope.path[i] != '\\'
        },
        envelope_result(None, read_only, allowed) is Err,
{
}

/// A native request is sent with its own method, path, parameters and body.
pub proof fn lemma_native_requests_are_sent_as_they_are(
    profile: ConnectionProfile,
    envelope: EnvelopeModel,
)
    ensures
        native_result(profile, envelope) matches Ok(request) ==> {
            &&& request.method == envelope.method
            &&& request.query == envelope.query
            &&& envelope.body matches Some(document) ==> request.body == BodyModel::Json(document)
            &&& envelope.body is None ==> request.body == BodyModel::Empty
            &&& request.timeout_ms is None
            &&& native_url_result(profile, envelope.path) matches Ok(url) && request.url == (if
                envelope.query.len() == 0 {
                url + "?"@
            } else {
                url
            })
        },
        native_search_call(profile, Ok(envelope)) matches Ok((request, reading)) ==> reading
            is Native && is_native_search(envelope.method, envelope.path) && native_result(
            profile,
            envelope,
        ) == Ok::<crate::http::transport::RequestModel, ErrorModel>(request),
        !is_native_search(envelope.method, envelope.path) ==> (native_search_call(
            profile,
            Ok(envelope),
        ) matches Err(error) && error.category == ErrorCategory::PermissionDenied),
{
}

/// A native statement is taken without the white space around it, where it is one statement of the
/// kind that is asked for: a query that writes nowhere, or an insertion, an update or a deletion.
pub proof fn lemma_native_statements_keep_to_their_kind(
    family: SqlFamily,
    statement: Seq<char>,
    write: bool,
)
    ensures
        crate::sql::native::native_result(family, statement, write) matches Ok(text) ==> {
            let dialect = match family {
                SqlFamily::MySql => "mysql"@,
                SqlFamily::SqlServer => "mssql"@,
                SqlFamily::Oracle => "generic"@,
                _ => "postgresql"@,
            };
            &&& text == trimmed(statement)
            &&& 0 < text.len()
            &&& byte_length(text) <= 1024 * 1024
            &&& forall|i: int| 0 <= i < text.len() ==> #[trigger] text[i] != ';'
            &&& parsed_sql(dialect, text) matches Ok(list) && list.len() == 1 && if write {
                list[0] is Insert || list[0] is Update || list[0] is Delete
            } else {
                list[0] matches StatementModel::Query { bodies } && forall|i: int|
                    0 <= i < bodies.len() ==> match #[trigger] bodies[i] {
                        QueryBody::Select { into } => !into,
                        QueryBody::Insert => false,
                        QueryBody::Update => false,
                        QueryBody::Delete => false,
                        QueryBody::Merge => false,
                        _ => true,
                    }
            }
        },
{
}

} // verus!
