//! What errors say, which operations write, and where requests go.
use crate::http::transport::{
    api_request, segments_result, url_with_segments, BodyModel, EndpointModel, MethodModel,
};
use crate::model::{
    failure, first_error, invalid_request, protocol_failure, unsupported_request, ConnectionProfile,
    DataOperation, ErrorCategory, ErrorModel,
};
use crate::request::{classified, interrupted, is_write, Transport};
use crate::secret::{filled_field, first_filled, tls_value};
use crate::sql::plan::changes_rows;
use crate::text::without_trailing_char;
use crate::value::named;
use vstd::prelude::*;

verus! {

/// An error says what it was given, names no code, and invites no retry unless it says so; the
/// constructors give the category that they are named after.
pub proof fn lemma_errors_say_what_they_are(category: ErrorCategory, message: Seq<char>)
    ensures
        failure(category, message).category == category,
        failure(category, message).message == message,
        !failure(category, message).retryable,
        failure(category, message).code is None,
        invalid_request(message).category == ErrorCategory::InvalidRequest,
        invalid_request(message).message == message,
        unsupported_request(message).category == ErrorCategory::Unsupported,
        unsupported_request(message).message == message,
        protocol_failure(message).category == ErrorCategory::Protocol,
        protocol_failure(message).message == message,
        !invalid_request(message).retryable,
        !unsupported_request(message).retryable,
        !protocol_failure(message).retryable,
{
}

/// Of two checks the first error is reported, and none only where both passed.
pub proof fn lemma_the_first_error_counts(first: Option<ErrorModel>, second: Option<ErrorModel>)
    ensures
        first_error(first, second) is None <==> first is None && second is None,
        first is Some ==> first_error(first, second) == first,
        first is None ==> first_error(first, second) == second,
{
}

/// Operations that write are those that do not only ask.
pub proof fn lemma_writes_are_what_does_not_only_ask(operation: DataOperation)
    ensures
        is_write(operation) <==> !(operation is Read || operation is Search
            || operation is VectorSearch || operation is NativeQuery
            || operation is TimeSeriesQuery),
        changes_rows(operation) ==> is_write(operation),
        is_write(operation) && !changes_rows(operation) ==> operation is VectorUpsert
            || operation is TimeSeriesWrite,
{
}

/// A request that is interrupted leaves a write open and does not invite another try; a read was
/// cancelled, or ran out of time and may be tried again.
pub proof fn lemma_interruptions_leave_writes_open(
    transport: Transport,
    cancelled: bool,
    error: ErrorModel,
)
    ensures
        interrupted(transport, true, cancelled).category == ErrorCategory::UnknownOutcome,
        !interrupted(transport, true, cancelled).retryable,
        interrupted(transport, false, true).category == ErrorCategory::Cancelled,
        !interrupted(transport, false, true).retryable,
        interrupted(transport, false, false).category == ErrorCategory::Timeout,
        interrupted(transport, false, false).retryable,
        classified(error, false) == error,
        classified(error, true).category == ErrorCategory::UnknownOutcome <==> error.category
            == ErrorCategory::UnknownOutcome || error.category == ErrorCategory::Timeout
            || error.category == ErrorCategory::Unavailable || error.category
            == ErrorCategory::Internal,
        error.category == ErrorCategory::Timeout || error.category == ErrorCategory::Unavailable
            || error.category == ErrorCategory::Internal ==> !classified(error, true).retryable,
        classified(error, true).code == error.code,
{
}

/// A request goes below the path of its endpoint, by segments that lead nowhere else, and never to an
/// endpoint with credentials, a query or a fragment of its own.
pub proof fn lemma_requests_go_below_their_endpoint(
    base: EndpointModel,
    segments: Seq<Seq<char>>,
    at: int,
)
    ensures
        segments_result(base, segments) matches Ok(url) ==> {
            &&& url_with_segments(base.text, without_trailing_char(base.path, '/'), segments)
                == Some(url)
            &&& base.scheme == "http"@ || base.scheme == "https"@
            &&& base.host is Some && base.username.len() == 0 && base.password is None
            &&& base.query is None && base.fragment is None
            &&& 0 <= at < segments.len() ==> segments[at].len() > 0 && segments[at] != "."@
                && segments[at] != ".."@
        },
{
    if segments_result(base, segments) is Ok && 0 <= at < segments.len() {
        assert(!crate::http::transport::is_relative(segments[at]));
    }
}

/// A request is sent by its method, with its parameters and its body.
pub proof fn lemma_requests_are_sent_whole(
    profile: ConnectionProfile,
    method: MethodModel,
    segments: Seq<Seq<char>>,
    query: Seq<(Seq<char>, Seq<char>)>,
    body: BodyModel,
)
    ensures
        match api_request(profile, method, segments, query, body) {
            Ok(request) => {
                &&& request.method == method
                &&& request.query == query
                &&& request.body == body
                &&& segments_result(profile.endpoint@, segments) == Ok::<Seq<char>, ErrorModel>(
                    request.url,
                )
            },
            Err(error) => segments_result(profile.endpoint@, segments) is Err,
        },
{
}

/// The first field of a credential that is filled is used, in the order of the names; an empty one
/// counts as none.
pub proof fn lemma_the_first_filled_field_counts(
    fields: Seq<(Seq<char>, Seq<char>)>,
    names: Seq<Seq<char>>,
)
    ensures
        first_filled(fields, names) is None <==> forall|i: int|
            0 <= i < names.len() ==> filled_field(fields, #[trigger] names[i]) is None,
        first_filled(fields, names) matches Some(content) ==> content.len() > 0 && exists|i: int|
            {
                &&& 0 <= i < names.len()
                &&& named(fields, #[trigger] names[i]) == Some(content)
                &&& forall|j: int| 0 <= j < i ==> filled_field(fields, #[trigger] names[j]) is None
            },
    decreases names.len(),
{
    if names.len() > 0 {
        let rest = names.subrange(1, names.len() as int);
        lemma_the_first_filled_field_counts(fields, rest);
        assert forall|i: int| 0 <= i < rest.len() implies #[trigger] rest[i] == names[i + 1] by {}
        if filled_field(fields, names[0]) is None {
            if let Some(content) = first_filled(fields, rest) {
                let i = choose|i: int|
                    {
                        &&& 0 <= i < rest.len()
                        &&& named(fields, #[trigger] rest[i]) == Some(content)
                        &&& forall|j: int|
                            0 <= j < i ==> filled_field(fields, #[trigger] rest[j]) is None
                    };
                assert(named(fields, names[i + 1]) == Some(content));
                assert forall|j: int| 0 <= j < i + 1 implies filled_field(
                    fields,
                    #[trigger] names[j],
                ) is None by {
                    if j > 0 {
                        assert(rest[j - 1] == names[j]);
                    }
                }
            } else {
                assert forall|i: int| 0 <= i < names.len() implies filled_field(
                    fields,
                    #[trigger] names[i],
                ) is None by {
                    if i > 0 {
                        assert(rest[i - 1] == names[i]);
                    }
                }
            }
        } else {
            assert(named(fields, names[0]) == first_filled(fields, names));
        }
    }
}

/// The field that a profile refers to comes before the others.
pub proof fn lemma_referenced_fields_come_first(
    fields: Seq<(Seq<char>, Seq<char>)>,
    name: Seq<char>,
    others: Seq<Seq<char>>,
)
    ensures
        filled_field(fields, name) is Some ==> tls_value(fields, Some(name), others)
            == filled_field(fields, name),
        filled_field(fields, name) is None ==> tls_value(fields, Some(name), others)
            == first_filled(fields, others),
        tls_value(fields, None, others) == first_filled(fields, others),
{
}

} // verus!
