//! What Splunk is asked for and told, and what its answers say.
use crate::base_laws::lemma_entries_are_found;
use crate::convert::{json_record, record_json};
use crate::encoding::{json_text, parsed_json};
use crate::http::common::{list_in, rows_result, text_option};
use crate::http::elastic_query::lines_text;
use crate::http::milvus_laws::count_of;
use crate::http::sending::goes_to;
use crate::http::splunk::{
    answer_records, catalog_request, collector_url, entry_entity, event_document, event_documents,
    events_error, health_error, insert_call, operation_call, search_call, server_result,
    CatalogModel, SplunkReading,
};
use crate::http::splunk_query::{
    comparisons, expression, expressions, is_field, quoted_text, read_spl, result_record,
    search_query, sort_parts, spl_error, value_text, with_absent, with_raw, with_sort, QueryModel,
};
use crate::http::transport::{request_timeout, BodyModel, MethodModel, RequestModel};
use crate::json::{member, signed_of, text_of};
use crate::model::{
    ConnectionProfile, ConnectorContext, DataOperation, ErrorCategory, ErrorModel, Filter,
    InsertRequest, ReadRequest, SearchRequest, SortField,
};
use crate::sql::filter_laws::{admits, compared};
use crate::text::{byte_length, decimal, joined, names_of, occurs_in, texts, trimmed};
use crate::value::{named, records, values, JsonModel, RecordModel, ValueModel};
use vstd::prelude::*;
use vstd::utf8::encode_utf8;

verus! {

/// Whether an operator of a search admits a stored value, by the sign of its difference from the one
/// that it is compared with.
pub open spec fn operator_admits(operator: Seq<char>, sign: int) -> bool {
    ||| operator == "="@ && sign == 0
    ||| operator == "!="@ && sign != 0
    ||| operator == "<"@ && sign < 0
    ||| operator == "<="@ && sign <= 0
    ||| operator == ">"@ && sign > 0
    ||| operator == ">="@ && sign >= 0
}

/// Whether an operator admits just what a filter admits.
pub open spec fn means(operator: Seq<char>, filter: Filter) -> bool {
    forall|sign: int| operator_admits(operator, sign) == admits(filter, sign)
}

/// The operators are different texts.
proof fn lemma_operators(filter: Filter)
    ensures
        filter is Eq ==> means("="@, filter),
        filter is Ne ==> means("!="@, filter),
        filter is Lt ==> means("<"@, filter),
        filter is Lte ==> means("<="@, filter),
        filter is Gt ==> means(">"@, filter),
        filter is Gte ==> means(">="@, filter),
{
    reveal_strlit("=");
    reveal_strlit("!=");
    reveal_strlit("<");
    reveal_strlit("<=");
    reveal_strlit(">");
    reveal_strlit(">=");
    assert("="@.len() == 1 && "!="@.len() == 2 && "<"@.len() == 1 && "<="@.len() == 2 && ">"@.len()
        == 1 && ">="@.len() == 2);
    assert("="@[0] == '=' && "!="@[0] == '!' && "<"@[0] == '<' && "<="@[0] == '<' && ">"@[0] == '>'
        && ">="@[0] == '>');
}

/// Whether an expression compares the field of a filter with its value by an operator.
pub open spec fn compares(text: Seq<char>, filter: Filter, operator: Seq<char>) -> bool {
    compared(filter) matches Some((field, value)) && is_field(field) && value_text(value) is Ok
        && text == field + operator + value_text(value)->Ok_0
}

/// Whether a text asks for a field to equal a value.
pub open spec fn is_equality(part: Seq<char>, field: Seq<char>, value: ValueModel) -> bool {
    value_text(value) is Ok && part == field + "="@ + value_text(value)->Ok_0
}

/// Whether texts ask for a field to equal values, one by one.
pub open spec fn are_equalities(
    parts: Seq<Seq<char>>,
    field: Seq<char>,
    list: Seq<ValueModel>,
) -> bool {
    &&& parts.len() == list.len()
    &&& forall|i: int|
        0 <= i < list.len() ==> is_equality(#[trigger] parts[i], field, list[i])
}

/// Whether texts are the expressions of filters, one by one.
pub open spec fn are_expressions(parts: Seq<Seq<char>>, filters: Seq<Filter>) -> bool {
    &&& parts.len() == filters.len()
    &&& forall|i: int|
        0 <= i < filters.len() ==> expression(filters[i]) == Ok::<Seq<char>, ErrorModel>(
            #[trigger] parts[i],
        )
}

proof fn lemma_equalities(field: Seq<char>, list: Seq<ValueModel>)
    ensures
        comparisons(field, list) matches Ok(parts) ==> are_equalities(parts, field, list),
    decreases list.len(),
{
    if list.len() > 0 {
        let before = list.drop_last();
        lemma_equalities(field, before);
        if let Ok(parts) = comparisons(field, list) {
            let shorter = comparisons(field, before)->Ok_0;
            assert forall|i: int| 0 <= i < list.len() implies is_equality(
                #[trigger] parts[i],
                field,
                list[i],
            ) by {
                if i < before.len() {
                    assert(parts[i] == shorter[i]);
                    assert(before[i] == list[i]);
                }
            }
        }
    }
}

proof fn lemma_expressions(filters: Seq<Filter>)
    ensures
        expressions(filters) matches Ok(parts) ==> are_expressions(parts, filters),
    decreases filters.len(),
{
    if filters.len() > 0 {
        let before = filters.subrange(0, filters.len() - 1);
        lemma_expressions(before);
        if let Ok(parts) = expressions(filters) {
            let shorter = expressions(before)->Ok_0;
            assert forall|i: int| 0 <= i < filters.len() implies expression(filters[i]) == Ok::<
                Seq<char>,
                ErrorModel,
            >(#[trigger] parts[i]) by {
                if i < before.len() {
                    assert(parts[i] == shorter[i]);
                    assert(before[i] == filters[i]);
                }
            }
        }
    }
}

/// A search asks for the events that its filter admits: by an operator that admits just what the
/// comparison admits, by what the field contains, by any of some values, or by the words that ask for
/// all of some, for any of some, or for none.
pub proof fn lemma_expressions_mean_what_they_say(filter: Filter)
    ensures
        expression(filter) matches Ok(text) ==> match filter {
            Filter::Eq { .. }
            | Filter::Ne { .. }
            | Filter::Lt { .. }
            | Filter::Lte { .. }
            | Filter::Gt { .. }
            | Filter::Gte { .. } => exists|operator: Seq<char>|
                means(operator, filter) && #[trigger] compares(text, filter, operator),
            Filter::Contains { field, value } => {
                &&& is_field(field@)
                &&& value_text(value@) is Ok
                &&& exists|content: Seq<char>|
                    #[trigger] occurs_in(content, value_text(value@)->Ok_0) && text == field@
                        + "=\"*"@ + content + "*\""@
            },
            Filter::In { field, values: list } => is_field(field@) && exists|parts: Seq<Seq<char>>|
                #[trigger] are_equalities(parts, field@, values(list@)) && text == "("@ + joined(
                    parts,
                    " OR "@,
                ) + ")"@,
            Filter::And { filters } => exists|parts: Seq<Seq<char>>|
                #[trigger] are_expressions(parts, filters@) && text == "("@ + joined(
                    parts,
                    " AND "@,
                ) + ")"@,
            Filter::Or { filters } => exists|parts: Seq<Seq<char>>|
                #[trigger] are_expressions(parts, filters@) && text == "("@ + joined(parts, " OR "@)
                    + ")"@,
            Filter::Not { filter: inner } => expression(*inner) is Ok && text == "NOT ("@
                + expression(*inner)->Ok_0 + ")"@,
        },
{
    lemma_operators(filter);
    if let Ok(text) = expression(filter) {
        match filter {
            Filter::Eq { .. } => {
                assert(compares(text, filter, "="@));
            },
            Filter::Ne { .. } => {
                assert(compares(text, filter, "!="@));
            },
            Filter::Lt { .. } => {
                assert(compares(text, filter, "<"@));
            },
            Filter::Lte { .. } => {
                assert(compares(text, filter, "<="@));
            },
            Filter::Gt { .. } => {
                assert(compares(text, filter, ">"@));
            },
            Filter::Gte { .. } => {
                assert(compares(text, filter, ">="@));
            },
            Filter::Contains { value, .. } => {
                lemma_inner(value_text(value@)->Ok_0, '"');
            },
            Filter::In { field, values: list } => {
                lemma_equalities(field@, values(list@));
                assert(are_equalities(
                    comparisons(field@, values(list@))->Ok_0,
                    field@,
                    values(list@),
                ));
            },
            Filter::And { filters } => {
                lemma_expressions(filters@);
                assert(are_expressions(expressions(filters@)->Ok_0, filters@));
            },
            Filter::Or { filters } => {
                lemma_expressions(filters@);
                assert(are_expressions(expressions(filters@)->Ok_0, filters@));
            },
            _ => {},
        }
    }
}

/// What is left of a text without the marks around it is a part of it.
proof fn lemma_inner(text: Seq<char>, mark: char)
    ensures
        occurs_in(crate::http::splunk_query::without_marks(text, mark), text),
{
    let cut = crate::text::without_trailing_char(text, mark);
    lemma_end_cut(text, mark);
    lemma_start_cut(cut, mark);
    let inner = crate::text::without_leading(cut, mark);
    let start = cut.len() - inner.len();
    assert(text.subrange(start, start + inner.len()) =~= inner);
    assert(crate::text::occurs_at(inner, text, start));
}

proof fn lemma_end_cut(text: Seq<char>, mark: char)
    ensures
        ({
            let cut = crate::text::without_trailing_char(text, mark);
            cut.len() <= text.len() && cut == text.subrange(0, cut.len() as int)
        }),
    decreases text.len(),
{
    if text.len() > 0 && text.last() == mark {
        lemma_end_cut(text.drop_last(), mark);
    }
    let cut = crate::text::without_trailing_char(text, mark);
    assert(cut =~= text.subrange(0, cut.len() as int));
}

proof fn lemma_start_cut(text: Seq<char>, mark: char)
    ensures
        ({
            let cut = crate::text::without_leading(text, mark);
            cut.len() <= text.len() && cut == text.subrange(
                text.len() - cut.len(),
                text.len() as int,
            )
        }),
    decreases text.len(),
{
    if text.len() > 0 && text[0] == mark {
        lemma_start_cut(text.subrange(1, text.len() as int), mark);
    }
    let cut = crate::text::without_leading(text, mark);
    assert(cut =~= text.subrange(text.len() - cut.len(), text.len() as int));
}

/// Whether texts name the fields of a sort, one by one, each behind the mark of its direction.
pub open spec fn are_sort_keys(parts: Seq<Seq<char>>, sort: Seq<SortField>) -> bool {
    &&& parts.len() == sort.len()
    &&& forall|i: int| 0 <= i < sort.len() ==> is_sort_key(#[trigger] parts[i], sort[i])
}

/// Whether a text names the field of a sort behind the mark of its direction.
pub open spec fn is_sort_key(part: Seq<char>, key: SortField) -> bool {
    &&& is_field(key.field@)
    &&& key.direction is Asc ==> part == seq!['+'] + key.field@
    &&& key.direction is Desc ==> part == seq!['-'] + key.field@
}

/// Every field of a sort is named in its order, with its direction.
pub proof fn lemma_sorts_keep_their_direction(sort: Seq<SortField>)
    ensures
        sort_parts(sort) matches Ok(parts) ==> are_sort_keys(parts, sort),
    decreases sort.len(),
{
    if sort.len() > 0 {
        let before = sort.drop_last();
        lemma_sorts_keep_their_direction(before);
        reveal_strlit("+");
        reveal_strlit("-");
        assert("+"@ =~= seq!['+'] && "-"@ =~= seq!['-']);
        if let Ok(parts) = sort_parts(sort) {
            let shorter = sort_parts(before)->Ok_0;
            assert forall|i: int| 0 <= i < sort.len() implies is_sort_key(
                #[trigger] parts[i],
                sort[i],
            ) by {
                if i < before.len() {
                    assert(parts[i] == shorter[i]);
                    assert(before[i] == sort[i]);
                }
            }
        }
    }
}

/// What a search says behind its terms: the order of the events.
pub open spec fn order_text(sort: Seq<SortField>) -> Seq<char> {
    if sort.len() == 0 {
        Seq::empty()
    } else {
        " | sort 0 "@ + joined(sort_parts(sort)->Ok_0, ","@)
    }
}

/// A read asks for the index of its target, for what its filter says, in the order of its sort, for
/// its fields alone, and for one event more than it may return.
pub proof fn lemma_reads_ask_for_what_they_say(request: ReadRequest, limit: int)
    requires
        0 < limit < usize::MAX,
    ensures
        read_spl(request, limit) matches Ok(text) ==> {
            let condition = match request.filter {
                Some(filter) => " "@ + expression(filter)->Ok_0,
                None => Seq::empty(),
            };
            let fields = if request.fields@.len() == 0 {
                Seq::empty()
            } else {
                " | fields "@ + joined(texts(request.fields@), ","@)
            };
            &&& request.options.cursor is None
            &&& request.filter matches Some(filter) ==> expression(filter) is Ok
            &&& request.options.sort@.len() > 0 ==> sort_parts(request.options.sort@) is Ok
            &&& forall|i: int|
                0 <= i < request.fields@.len() ==> is_field(#[trigger] texts(request.fields@)[i])
            &&& text == "search index="@ + quoted_text(request.target@) + condition + order_text(
                request.options.sort@,
            ) + fields + " | head "@ + decimal((limit + 1) as nat)
        },
{
    reveal_strlit(" ");
    assert(" "@ =~= seq![' ']);
    if let Ok(text) = read_spl(request, limit) {
        let start = "search index="@ + quoted_text(request.target@);
        let none = Seq::<char>::empty();
        let condition = match request.filter {
            Some(filter) => " "@ + expression(filter)->Ok_0,
            None => none,
        };
        let filtered = match request.filter {
            Some(filter) => start.push(' ') + expression(filter)->Ok_0,
            None => start,
        };
        assert(filtered =~= start + condition);
        let sorted = with_sort(filtered, request.options.sort@)->Ok_0;
        let order = order_text(request.options.sort@);
        assert(sorted =~= filtered + order);
        let fields = if request.fields@.len() == 0 {
            none
        } else {
            " | fields "@ + joined(texts(request.fields@), ","@)
        };
        let cut = if request.fields@.len() == 0 {
            sorted
        } else {
            sorted + " | fields "@ + joined(texts(request.fields@), ","@)
        };
        assert(cut =~= sorted + fields);
    }
}

/// The terms of a search.
pub open spec fn search_terms(query: JsonModel) -> Option<Seq<char>> {
    match query {
        JsonModel::Text(terms) => Some(terms),
        _ => text_of(member(query, "spl"@)),
    }
}

/// A search asks for its own terms within the index of its target, in the order of its sort and in
/// its span of time. Its terms cannot leave the index.
pub proof fn lemma_searches_ask_their_own_terms(request: SearchRequest)
    ensures
        search_query(request) matches Ok(query) ==> search_terms(request.query@) matches Some(
            terms,
        ) && {
            &&& trimmed(terms).len() > 0
            &&& forall|i: int|
                0 <= i < terms.len() ==> #[trigger] terms[i] != '|' && terms[i] != '[' && terms[i]
                    != ']' && terms[i] != '`'
            &&& query.spl == "search index="@ + quoted_text(request.target@) + " | search "@ + terms
                + order_text(request.options.sort@)
            &&& query.earliest == text_of(member(request.query@, "earliest_time"@))
            &&& query.latest == text_of(member(request.query@, "latest_time"@))
        },
{
    if let Ok(query) = search_query(request) {
        let terms = search_terms(request.query@)->0;
        let scoped = "search index="@ + quoted_text(request.target@) + " | search "@ + terms;
        assert(scoped + Seq::<char>::empty() =~= scoped);
        if request.options.sort@.len() > 0 {
            assert(query.spl =~= scoped + order_text(request.options.sort@));
        }
    }
}

/// Whether a form has a field with a value.
pub open spec fn form_has(body: BodyModel, name: Seq<char>, value: Seq<char>) -> bool {
    body matches BodyModel::Form(fields) && fields.contains((name, value))
}

/// How many fields a form has.
pub open spec fn form_size(body: BodyModel) -> nat {
    match body {
        BodyModel::Form(fields) => fields.len(),
        _ => 0,
    }
}

/// A search is sent whole, with its span of time, and asks for one result more than may be returned;
/// it ends in the time that is left, counted in whole seconds.
pub proof fn lemma_searches_are_sent_whole(
    context: ConnectorContext,
    profile: ConnectionProfile,
    query: QueryModel,
    requested: u32,
    timeout_ms: Option<u64>,
    remaining_ms: u64,
)
    ensures
        search_call(context, profile, query, requested, timeout_ms, remaining_ms) matches Ok(
            call,
        ) ==> {
            let waits = request_timeout(remaining_ms, profile.policy.timeout_ms, timeout_ms);
            &&& spl_error(query.spl) is None
            &&& rows_result(context, profile, requested) matches Ok(limit) && call.1 == (
            SplunkReading::Search { limit: limit as usize }) && form_has(
                call.0.body,
                "count"@,
                decimal((limit + 1) as nat),
            )
            &&& call.0.method == MethodModel::Post
            &&& goes_to(
                call.0,
                profile.endpoint@,
                seq!["services"@].push("search"@).push("jobs"@),
            )
            &&& call.0.timeout_ms == Some(waits as u64)
            &&& form_has(call.0.body, "search"@, query.spl)
            &&& form_has(call.0.body, "exec_mode"@, "oneshot"@)
            &&& form_has(call.0.body, "output_mode"@, "json"@)
            &&& exists|seconds: nat|
                #[trigger] form_has(call.0.body, "max_time"@, decimal(seconds)) && 1000 * (seconds
                    - 1) < waits <= 1000 * seconds
            &&& query.earliest matches Some(time) ==> form_has(call.0.body, "earliest_time"@, time)
            &&& query.latest matches Some(time) ==> form_has(call.0.body, "latest_time"@, time)
            &&& form_size(call.0.body) == 5 + count_of(query.earliest)
                + count_of(query.latest)
        },
{
    if let Ok(call) = search_call(context, profile, query, requested, timeout_ms, remaining_ms) {
        let fields = call.0.body->Form_0;
        let waits = request_timeout(remaining_ms, profile.policy.timeout_ms, timeout_ms);
        let limit = rows_result(context, profile, requested)->Ok_0;
        let seconds = crate::http::splunk::whole_seconds(waits) as nat;
        assert(fields[0] == ("search"@, query.spl));
        assert(fields[1] == ("exec_mode"@, "oneshot"@));
        assert(fields[2] == ("output_mode"@, "json"@));
        assert(fields[3] == ("count"@, decimal((limit + 1) as nat)));
        assert(fields[4] == ("max_time"@, decimal(seconds)));
        assert(form_has(call.0.body, "max_time"@, decimal(seconds)));
        if let Some(time) = query.earliest {
            assert(fields[5] == ("earliest_time"@, time));
        }
        if let Some(time) = query.latest {
            assert(fields[fields.len() - 1] == ("latest_time"@, time));
        }
        assert(names_of(["services", "search", "jobs"]@) =~= seq!["services"@].push(
            "search"@,
        ).push("jobs"@));
    }
}

/// Whether a document is the event of a record for an index.
pub open spec fn is_event(
    document: JsonModel,
    profile: ConnectionProfile,
    target: Seq<char>,
    record: RecordModel,
) -> bool {
    document matches JsonModel::Object(list) && {
        &&& record_json(record) matches Ok(event) && list.contains(("event"@, event))
        &&& list.contains(("index"@, JsonModel::Text(target)))
        &&& text_option(profile, "source"@) matches Some(source) ==> list.contains(
            ("source"@, JsonModel::Text(source)),
        )
        &&& text_option(profile, "sourcetype"@) matches Some(kind) ==> list.contains(
            ("sourcetype"@, JsonModel::Text(kind)),
        )
        &&& list.len() == 2 + count_of(text_option(profile, "source"@))
            + count_of(text_option(profile, "sourcetype"@))
    }
}

proof fn lemma_event(profile: ConnectionProfile, target: Seq<char>, record: RecordModel)
    ensures
        event_document(profile, target, record) matches Ok(document) ==> is_event(
            document,
            profile,
            target,
            record,
        ),
{
    if let Ok(document) = event_document(profile, target, record) {
        let list = document->Object_0;
        assert(list[0] == ("event"@, record_json(record)->Ok_0));
        assert(list[1] == ("index"@, JsonModel::Text(target)));
        if let Some(source) = text_option(profile, "source"@) {
            assert(list[2] == ("source"@, JsonModel::Text(source)));
        }
        if let Some(kind) = text_option(profile, "sourcetype"@) {
            assert(list[list.len() - 1] == ("sourcetype"@, JsonModel::Text(kind)));
        }
    }
}

/// Every record becomes an event of its own, in order.
pub proof fn lemma_records_become_events(
    profile: ConnectionProfile,
    target: Seq<char>,
    list: Seq<RecordModel>,
)
    ensures
        event_documents(profile, target, list) matches Ok(events) ==> events.len() == list.len()
            && forall|i: int|
            0 <= i < events.len() ==> is_event(#[trigger] events[i], profile, target, list[i]),
    decreases list.len(),
{
    if list.len() > 0 {
        let before = list.drop_last();
        lemma_records_become_events(profile, target, before);
        lemma_event(profile, target, list.last());
        if let Ok(events) = event_documents(profile, target, list) {
            let shorter = event_documents(profile, target, before)->Ok_0;
            assert forall|i: int| 0 <= i < events.len() implies is_event(
                #[trigger] events[i],
                profile,
                target,
                list[i],
            ) by {
                if i < before.len() {
                    assert(events[i] == shorter[i]);
                    assert(before[i] == list[i]);
                }
            }
        }
    }
}

/// Whether a text is a line with others before and behind it.
pub open spec fn is_line_between(
    text: Seq<char>,
    before: Seq<char>,
    line: Seq<char>,
    behind: Seq<char>,
) -> bool {
    text == before + line + seq!['\n'] + behind
}

/// Whether a document has a line of its own in a text.
pub open spec fn has_line(text: Seq<char>, document: JsonModel) -> bool {
    json_text(document) is Some && exists|before: Seq<char>, behind: Seq<char>| #[trigger]
        is_line_between(text, before, json_text(document)->0, behind)
}

/// Every document of a batch has a line of its own.
pub proof fn lemma_documents_have_lines(list: Seq<JsonModel>)
    ensures
        lines_text(list) matches Some(text) ==> forall|i: int|
            0 <= i < list.len() ==> has_line(text, #[trigger] list[i]),
    decreases list.len(),
{
    if list.len() > 0 {
        let earlier = list.drop_last();
        lemma_documents_have_lines(earlier);
        if let Some(text) = lines_text(list) {
            let shorter = lines_text(earlier)->0;
            let last = json_text(list.last())->0;
            let none = Seq::<char>::empty();
            assert forall|i: int| 0 <= i < list.len() implies has_line(
                text,
                #[trigger] list[i],
            ) by {
                if i < earlier.len() {
                    assert(earlier[i] == list[i]);
                    let line = json_text(list[i])->0;
                    let (before, behind) = choose|before: Seq<char>, behind: Seq<char>|
                        #[trigger] is_line_between(shorter, before, line, behind);
                    let longer = (behind + last).push('\n');
                    assert(text =~= before + line + seq!['\n'] + longer);
                    assert(is_line_between(text, before, line, longer));
                } else {
                    assert(text =~= shorter + last + seq!['\n'] + none);
                    assert(is_line_between(text, shorter, last, none));
                }
            }
        }
    }
}

/// An insertion sends the events of all its records to the event collector, within the bytes that
/// are admitted, and counts them.
pub proof fn lemma_insertions_send_every_record(
    context: ConnectorContext,
    profile: ConnectionProfile,
    request: InsertRequest,
)
    ensures
        insert_call(context, profile, request) matches Ok(call) ==> {
            &&& 0 < request.records@.len() <= profile.policy.max_affected
            &&& call.1 == (SplunkReading::Events { count: request.records@.len() as u64 })
            &&& call.0.method == MethodModel::Post
            &&& collector_url(
                profile,
                seq!["services"@].push("collector"@).push("event"@),
            ) == Ok::<Seq<char>, ErrorModel>(call.0.url)
            &&& event_documents(profile, request.target@, records(request.records@)) matches Ok(
                events,
            ) && lines_text(events) matches Some(text) && {
                &&& call.0.body == (BodyModel::Text { content_type: "application/json"@, text })
                &&& byte_length(text) <= context.max_bytes
                &&& byte_length(text) <= profile.policy.max_bytes
            }
        },
{
    assert(names_of(["services", "collector", "event"]@) =~= seq!["services"@].push(
        "collector"@,
    ).push("event"@));
}

/// Events count as written only where the collector says so; where it says nothing, nothing is known
/// of them.
pub proof fn lemma_answers_of_the_collector(answer: JsonModel)
    ensures
        events_error(answer) is None <==> signed_of(member(answer, "code"@)) == Some(0i64),
        signed_of(member(answer, "code"@)) is None ==> (events_error(answer) matches Some(error)
            && error.category == ErrorCategory::UnknownOutcome && !error.retryable),
        health_error(answer) is None <==> signed_of(member(answer, "code"@)) == Some(17i64),
        signed_of(member(answer, "code"@)) is Some ==> (health_error(answer) matches Some(error)
            ==> error.category == ErrorCategory::Unavailable && error.retryable),
{
}

/// A search returns its results in order, and no more of them than it may.
pub proof fn lemma_results_are_shown(answer: JsonModel, limit: usize, reading: SplunkReading)
    requires
        reading == (SplunkReading::Search { limit }),
    ensures
        list_in(answer, "results"@) is Some <==> answer_records(reading, answer) is Ok,
        list_in(answer, "results"@) matches Some(results) ==> (answer_records(
            reading,
            answer,
        ) matches Ok(shown) && {
            &&& shown.len() <= limit
            &&& shown.len() == limit || shown.len() == results.len()
            &&& forall|i: int|
                0 <= i < shown.len() ==> #[trigger] shown[i] == result_record(results[i])
        }),
{
}

/// A result shows its own fields, and beside them those of its raw event that it does not have
/// itself.
pub proof fn lemma_results_show_their_fields(result: JsonModel, raw: Option<JsonModel>, name: Seq<char>)
    ensures
        named(with_raw(result, raw), name) == match (named(json_record(result), name), raw) {
            (Some(value), _) => Some(value),
            (None, Some(JsonModel::Object(list))) => named(
                json_record(JsonModel::Object(list)),
                name,
            ),
            _ => None,
        },
        text_of(member(result, "_raw"@)) is None ==> result_record(result) == json_record(result),
        text_of(member(result, "_raw"@)) matches Some(text) ==> result_record(result) == with_raw(
            result,
            parsed_json(encode_utf8(text)),
        ),
{
    if let Some(JsonModel::Object(list)) = raw {
        lemma_absent(json_record(result), json_record(JsonModel::Object(list)), name);
        lemma_first(json_record(JsonModel::Object(list)), name);
    }
}

proof fn lemma_absent(record: RecordModel, other: RecordModel, name: Seq<char>)
    ensures
        named(with_absent(record, other), name) == match named(record, name) {
            Some(value) => Some(value),
            None => first_of(other, name),
        },
    decreases other.len(),
{
    if other.len() > 0 {
        lemma_absent(record, other.drop_last(), name);
        lemma_absent(record, other.drop_last(), other.last().0);
        lemma_entries_are_found(
            with_absent(record, other.drop_last()),
            other.last().0,
            other.last().1,
            name,
        );
    }
}

/// The first entry of a name.
pub open spec fn first_of(record: RecordModel, name: Seq<char>) -> Option<ValueModel>
    decreases record.len(),
{
    if record.len() == 0 {
        None
    } else {
        match first_of(record.drop_last(), name) {
            Some(value) => Some(value),
            None => if record.last().0 == name {
                Some(record.last().1)
            } else {
                None
            },
        }
    }
}

proof fn lemma_first(record: RecordModel, name: Seq<char>)
    ensures
        first_of(record, name) == named(record, name),
    decreases record.len(),
{
    if record.len() > 0 {
        let rest = record.subrange(1, record.len() as int);
        lemma_first(rest, name);
        lemma_first_of_rest(record, name);
    }
}

proof fn lemma_first_of_rest(record: RecordModel, name: Seq<char>)
    requires
        record.len() > 0,
    ensures
        first_of(record, name) == if record[0].0 == name {
            Some(record[0].1)
        } else {
            first_of(record.subrange(1, record.len() as int), name)
        },
    decreases record.len(),
{
    let rest = record.subrange(1, record.len() as int);
    if record.len() > 1 {
        let shorter = record.drop_last();
        lemma_first_of_rest(shorter, name);
        assert(rest.drop_last() =~= shorter.subrange(1, shorter.len() as int));
        assert(rest.last() == record.last());
    } else {
        assert(first_of(record.drop_last(), name) is None);
    }
}

/// A catalog is asked for from the place where its reading stands, until it is over.
pub proof fn lemma_catalogs_are_asked_for(profile: ConnectionProfile, state: CatalogModel)
    ensures
        catalog_request(profile, state) matches Ok(None) <==> state.finished || state.found.len()
            >= state.limit,
        catalog_request(profile, state) matches Ok(Some(request)) ==> {
            &&& request.method == MethodModel::Get
            &&& goes_to(request, profile.endpoint@, seq!["services"@].push("data"@).push("indexes"@))
            &&& request.query.len() == 3
            &&& request.query.contains(("output_mode"@, "json"@))
            &&& request.query.contains(("offset"@, decimal(state.offset as nat)))
            &&& exists|count: nat|
                #[trigger] request.query.contains(("count"@, decimal(count))) && 100 <= count
                    <= 1000 && (count >= state.limit - state.found.len() || count == 1000)
        },
{
    assert(names_of(["services", "data", "indexes"]@) =~= seq!["services"@].push("data"@).push(
        "indexes"@,
    ));
    if let Ok(Some(request)) = catalog_request(profile, state) {
        let count = crate::http::splunk::part_size(state) as nat;
        assert(request.query[0] == ("output_mode"@, "json"@));
        assert(request.query[1] == ("count"@, decimal(count)));
        assert(request.query[2] == ("offset"@, decimal(state.offset as nat)));
        assert(request.query.contains(("count"@, decimal(count))));
    }
}

/// An entry of the catalog is listed by its name where that holds the pattern.
pub proof fn lemma_indexes_are_listed(entry: JsonModel, pattern: Option<Seq<char>>)
    ensures
        match text_of(member(entry, "name"@)) {
            Some(name) => {
                &&& entry_entity(entry, pattern) is Some <==> (pattern matches Some(part)
                    ==> occurs_in(part, name))
                &&& entry_entity(entry, pattern) matches Some(entity) ==> entity.name == name
                    && entity.id == name && entity.namespace == Some("index"@) && entity.kind
                    == "index"@
            },
            None => entry_entity(entry, pattern) is None,
        },
{
}

/// The version and the name of a server stand in the content of its first entry, and neither is
/// empty.
pub proof fn lemma_servers_say_who_they_are(answer: JsonModel)
    ensures
        server_result(answer) matches Ok(found) ==> found.0.len() > 0 && found.1.len() > 0,
{
}

/// Each operation becomes the call of its own kind.
pub proof fn lemma_operations_are_sent_as_their_kind(
    context: ConnectorContext,
    profile: ConnectionProfile,
    operation: DataOperation,
    remaining_ms: u64,
)
    ensures
        operation_call(context, profile, operation, remaining_ms) matches Ok(call)
            ==> match operation {
            DataOperation::Read(request) => rows_result(
                context,
                profile,
                request.options.limit,
            ) matches Ok(limit) && read_spl(request, limit) matches Ok(spl) && Ok::<
                (RequestModel, SplunkReading),
                ErrorModel,
            >(call) == search_call(
                context,
                profile,
                QueryModel { spl, earliest: None, latest: None },
                request.options.limit,
                request.options.timeout_ms,
                remaining_ms,
            ),
            DataOperation::Search(request) => search_query(request) matches Ok(query) && Ok::<
                (RequestModel, SplunkReading),
                ErrorModel,
            >(call) == search_call(
                context,
                profile,
                query,
                request.options.limit,
                request.options.timeout_ms,
                remaining_ms,
            ),
            DataOperation::NativeQuery(request) => {
                &&& request.language@ == "spl"@ || request.language@ == "splunk_spl"@
                &&& request.parameters@.len() == 0
                &&& request.positional_parameters@.len() == 0
                &&& form_has(call.0.body, "search"@, request.statement@)
            },
            DataOperation::Insert(request) => call.1 is Events,
            _ => false,
        },
{
    if let DataOperation::NativeQuery(request) = operation {
        lemma_searches_are_sent_whole(
            context,
            profile,
            QueryModel { spl: request.statement@, earliest: None, latest: None },
            context.max_rows,
            None,
            remaining_ms,
        );
        let languages = names_of(["spl", "splunk_spl"]@);
        assert(languages =~= seq!["spl"@].push("splunk_spl"@));
        if languages.contains(request.language@) {
            let i = choose|i: int| 0 <= i < languages.len() && languages[i] == request.language@;
            assert(i == 0 || i == 1);
        }
    }
}

} // verus!
