//! What the answers of each product are read as.
use crate::base_laws::lemma_entries_are_found;
use crate::convert::{json_record, json_value, NumberStyle};
use crate::http::answer_laws::lemma_contents_are_read_by_name;
use crate::http::auth::{client_result, AuthStyle};
use crate::http::common::{
    cursor_result, finished_write, found_entities, list_in, member_value, nested, rows_result,
    CommentSource, EntitySource,
};
use crate::http::elastic::{
    elastic_client, elastic_info, field_path, index_description, index_of_row, indexes_of_rows,
    mapping_field, mapping_fields, ElasticFlavor, ElasticReading,
};
use crate::http::elastic_query::{bulk_result, done_count, hit_record, is_done, item_status};
use crate::http::milvus::{deleted_count, described_key_type, is_primary, primary_place};
use crate::http::milvus_query::{answer_error, data_records, MilvusPrimaryKeyType};
use crate::http::pinecone::{
    fetched_records, listed_cursor, listed_records, match_records, shown_vector, vector_record,
};
use crate::http::qdrant::{
    collection_description, qdrant_info, scroll_cursor, vector_field, vector_fields,
};
use crate::http::qdrant_query::{cursor_text, point_record, query_records, write_error};
use crate::http::weaviate::{
    delete_answered, delete_outcome, fetch_with, fetch_without, graphql_records, list_records,
    upsert_failed, upsert_looked, upsert_written, weaviate_info, DeleteModel, FetchModel,
    UpsertModel,
};
use crate::http::weaviate_query::{
    graphql_record, object_facts, object_record, shown_record, with_all_members,
};
use crate::json::{
    bool_of, items_of, member, members_of, pointer_target, signed_of, text_of, unsigned_of,
};
use crate::model::{
    AuthKind, CatalogQuery, ConnectionProfile, ConnectorContext, EntityModel, ErrorCategory,
    ErrorModel, Product, WriteOutcome,
};
use crate::text::{decimal, lower, names_of, occurs_in, optional_text};
use crate::value::{named, selected, JsonModel, RecordModel, ValueModel};
use vstd::prelude::*;

verus! {

/// Whether a record holds the content of a document, and beside it a fact of the document under its
/// own name.
pub open spec fn shows(
    record: RecordModel,
    document: JsonModel,
    content: Seq<char>,
    is_fact: bool,
    name: Seq<char>,
) -> bool {
    named(record, name) == if is_fact && member(document, name) is Some {
        Some(json_value(NumberStyle::Double, member(document, name)->0))
    } else {
        match member(document, content) {
            Some(inner) => named(json_record(inner), name),
            None => None,
        }
    }
}

/// A point of Qdrant shows its payload, and its id, score, vector and version.
pub proof fn lemma_points_are_shown(point: JsonModel, name: Seq<char>)
    ensures
        shows(
            point_record(point),
            point,
            "payload"@,
            name == "id"@ || name == "score"@ || name == "vector"@ || name == "version"@,
            name,
        ),
{
    let facts = names_of(["id", "score", "vector", "version"]@);
    lemma_contents_are_read_by_name(point, "payload"@, facts, name);
    assert(facts[0] == "id"@ && facts[1] == "score"@ && facts[2] == "vector"@ && facts[3]
        == "version"@);
    assert(facts.contains(facts[0]) && facts.contains(facts[1]) && facts.contains(facts[2])
        && facts.contains(facts[3]));
}

/// A vector of Pinecone shows its metadata, and its id, score and values.
pub proof fn lemma_vectors_are_shown(vector: JsonModel, name: Seq<char>)
    ensures
        shows(
            vector_record(vector),
            vector,
            "metadata"@,
            name == "id"@ || name == "score"@ || name == "values"@ || name == "sparseValues"@,
            name,
        ),
{
    let facts = names_of(["id", "score", "values", "sparseValues"]@);
    lemma_contents_are_read_by_name(vector, "metadata"@, facts, name);
    assert(facts[0] == "id"@ && facts[1] == "score"@ && facts[2] == "values"@ && facts[3]
        == "sparseValues"@);
    assert(facts.contains(facts[0]) && facts.contains(facts[1]) && facts.contains(facts[2])
        && facts.contains(facts[3]));
}

/// An object of Weaviate shows its properties, and its id, class, tenant, vector and times.
pub proof fn lemma_objects_are_shown(object: JsonModel, name: Seq<char>)
    ensures
        shows(
            object_record(object),
            object,
            "properties"@,
            name == "id"@ || name == "class"@ || name == "tenant"@ || name == "vector"@ || name
                == "creationTimeUnix"@ || name == "lastUpdateTimeUnix"@,
            name,
        ),
{
    let facts = object_facts();
    lemma_contents_are_read_by_name(object, "properties"@, facts, name);
    assert(facts[0] == "id"@ && facts[1] == "class"@ && facts[2] == "tenant"@ && facts[3]
        == "vector"@ && facts[4] == "creationTimeUnix"@ && facts[5] == "lastUpdateTimeUnix"@);
    assert(facts.contains(facts[0]) && facts.contains(facts[1]) && facts.contains(facts[2])
        && facts.contains(facts[3]) && facts.contains(facts[4]) && facts.contains(facts[5]));
}

/// A selection keeps the entries that are wanted, or those that are not, as they are.
pub proof fn lemma_selections_keep_their_entries(
    record: RecordModel,
    wanted: Seq<Seq<char>>,
    keep: bool,
    at: int,
)
    requires
        0 <= at < record.len(),
    ensures
        wanted.contains(record[at].0) == keep ==> selected(record, wanted, keep).contains(record[at]),
        forall|i: int|
            0 <= i < selected(record, wanted, keep).len() ==> wanted.contains(
                (#[trigger] selected(record, wanted, keep)[i]).0,
            ) == keep && record.contains(selected(record, wanted, keep)[i]),
    decreases record.len(),
{
    let before = record.drop_last();
    let shorter = selected(before, wanted, keep);
    let all = selected(record, wanted, keep);
    assert(record[record.len() - 1] == record.last());
    if before.len() > 0 {
        lemma_selections_keep_their_entries(
            before,
            wanted,
            keep,
            if at < before.len() {
                at
            } else {
                0
            },
        );
    }
    assert forall|i: int| 0 <= i < all.len() implies wanted.contains((#[trigger] all[i]).0) == keep
        && record.contains(all[i]) by {
        if i < shorter.len() {
            assert(all[i] == shorter[i]);
            if before.len() > 0 {
                let k = choose|k: int| 0 <= k < before.len() && before[k] == shorter[i];
                assert(record[k] == all[i]);
            } else {
                assert(shorter.len() == 0);
            }
        }
    }
    if wanted.contains(record[at].0) == keep {
        if at < before.len() {
            assert(before[at] == record[at]);
            let k = choose|k: int| 0 <= k < shorter.len() && shorter[k] == record[at];
            assert(all[k] == record[at]);
        } else {
            assert(all[shorter.len() as int] == record[at]);
        }
    }
}

/// A vector or an object that is read by some fields shows those and its id, and otherwise all of
/// them.
pub proof fn lemma_only_wanted_fields_are_shown(document: JsonModel, fields: Seq<Seq<char>>, at: int)
    ensures
        fields.len() == 0 ==> shown_vector(document, fields) == vector_record(document)
            && shown_record(document, fields) == object_record(document),
        fields.len() > 0 && 0 <= at < shown_vector(document, fields).len() ==> {
            let entry = shown_vector(document, fields)[at];
            (fields.contains(entry.0) || entry.0 == "id"@) && vector_record(document).contains(entry)
        },
        fields.len() > 0 && 0 <= at < vector_record(document).len() && (fields.contains(
            vector_record(document)[at].0,
        ) || vector_record(document)[at].0 == "id"@) ==> shown_vector(document, fields).contains(
            vector_record(document)[at],
        ),
        fields.len() > 0 && 0 <= at < shown_record(document, fields).len() ==> {
            let entry = shown_record(document, fields)[at];
            (fields.contains(entry.0) || entry.0 == "id"@) && object_record(document).contains(entry)
        },
        fields.len() > 0 && 0 <= at < object_record(document).len() && (fields.contains(
            object_record(document)[at].0,
        ) || object_record(document)[at].0 == "id"@) ==> shown_record(document, fields).contains(
            object_record(document)[at],
        ),
{
    let wanted = fields.push("id"@);
    crate::http::sending::lemma_pushed(fields, "id"@);
    assert forall|name: Seq<char>| #[trigger] wanted.contains(name) implies fields.contains(name)
        || name == "id"@ by {
        let i = choose|i: int| 0 <= i < wanted.len() && wanted[i] == name;
        if i < fields.len() {
            assert(fields[i] == name);
        }
    }
    lemma_selected_at(vector_record(document), wanted, at);
    lemma_selected_at(object_record(document), wanted, at);
}

proof fn lemma_selected_at(record: RecordModel, wanted: Seq<Seq<char>>, at: int)
    ensures
        0 <= at < selected(record, wanted, true).len() ==> wanted.contains(
            selected(record, wanted, true)[at].0,
        ) && record.contains(selected(record, wanted, true)[at]),
        0 <= at < record.len() && wanted.contains(record[at].0) ==> selected(
            record,
            wanted,
            true,
        ).contains(record[at]),
{
    if record.len() > 0 {
        lemma_selections_keep_their_entries(
            record,
            wanted,
            true,
            if 0 <= at < record.len() {
                at
            } else {
                0
            },
        );
    }
}

/// Whether records are those of some documents, one by one.
pub open spec fn are_shown(
    found: Seq<RecordModel>,
    documents: Seq<JsonModel>,
    shown: spec_fn(JsonModel) -> RecordModel,
) -> bool {
    &&& found.len() == documents.len()
    &&& forall|i: int| 0 <= i < found.len() ==> #[trigger] found[i] == shown(documents[i])
}

/// The points, matches, vectors and rows of an answer are shown one by one, in order; an answer
/// without its list is no answer.
pub proof fn lemma_lists_are_shown_whole(answer: JsonModel)
    ensures
        match items_of(nested(answer, "result"@, "points"@)) {
            Some(points) => query_records(answer) matches Ok(found) && are_shown(
                found,
                points,
                |point: JsonModel| point_record(point),
            ),
            None => true,
        },
        match items_of(member(answer, "matches"@)) {
            Some(list) => match_records(answer) matches Ok(found) && are_shown(
                found,
                list,
                |vector: JsonModel| vector_record(vector),
            ),
            None => match_records(answer) is Err,
        },
        match items_of(member(answer, "vectors"@)) {
            Some(list) => listed_records(answer) matches Ok(found) && are_shown(
                found,
                list,
                |vector: JsonModel| json_record(vector),
            ),
            None => listed_records(answer) is Err,
        },
        data_records(answer) matches Ok(found) ==> (member(answer, "data"@) matches Some(
            JsonModel::Array(rows),
        ) && if rows.len() == 1 && rows[0] is Array {
            are_shown(found, rows[0]->Array_0, |row: JsonModel| json_record(row))
        } else {
            are_shown(found, rows, |row: JsonModel| json_record(row))
        }),
{
}

/// What was fetched by its ids is shown with the fields that are asked for, and the cursor of a list
/// is the one that the service gave.
pub proof fn lemma_fetched_vectors_are_shown(answer: JsonModel, fields: Seq<Seq<char>>)
    ensures
        match members_of(member(answer, "vectors"@)) {
            Some(list) => fetched_records(answer, fields) matches Ok(found) && found.len()
                == list.len() && forall|i: int|
                0 <= i < found.len() ==> #[trigger] found[i] == shown_vector(list[i].1, fields),
            None => fetched_records(answer, fields) is Err,
        },
        listed_cursor(answer) matches Some(cursor) ==> cursor.len() > 0 && text_of(
            nested(answer, "pagination"@, "next"@),
        ) == Some(cursor),
        listed_cursor(answer) is None ==> (text_of(
            nested(answer, "pagination"@, "next"@),
        ) matches Some(text) ==> text.len() == 0),
{
}

/// The next read of Qdrant begins at the first point that was left out; where none was, at the place
/// that the service gave.
pub proof fn lemma_scrolls_go_on(points: Seq<JsonModel>, kept: nat, answer: JsonModel)
    ensures
        scroll_cursor(points, kept, answer) matches Ok(Some(cursor)) ==> if kept < points.len() {
            member(points[kept as int], "id"@) matches Some(id) && cursor_text(id) == Ok::<
                Seq<char>,
                ErrorModel,
            >(cursor)
        } else {
            nested(answer, "result"@, "next_page_offset"@) matches Some(place) && !(place is Null)
                && cursor_text(place) == Ok::<Seq<char>, ErrorModel>(cursor)
        },
        scroll_cursor(points, kept, answer) matches Ok(None) ==> kept >= points.len(),
{
}

/// A write reports the number that it wrote, and success.
pub proof fn lemma_writes_report_their_count(
    context: ConnectorContext,
    profile: ConnectionProfile,
    answer: JsonModel,
    count: u64,
    elapsed_ms: u64,
)
    requires
        context.max_rows > 0,
        profile.policy.max_rows > 0,
    ensures
        finished_write(context, profile, count, elapsed_ms) matches Ok(result) && {
            &&& result.metrics.affected == count
            &&& result.outcome == WriteOutcome::Succeeded
            &&& result.records.len() == 0
            &&& result.next_cursor is None
            &&& !result.truncated
            &&& result.request_id == context.request_id@
        },
{
    let sizes = Seq::<u64>::empty();
    let limit = rows_result(context, profile, context.max_rows)->Ok_0;
    let budget = crate::http::common::byte_limit(context, profile);
    assert(sizes.subrange(0, 0) =~= sizes);
    assert(crate::budget::kept_count(sizes, limit as nat, budget) == 0);
}

/// What a product says of a write that it took: Qdrant that it is completed, Milvus that its code is
/// zero, and how many it removed.
pub proof fn lemma_writes_are_confirmed(answer: JsonModel, requested: u64)
    ensures
        write_error(answer) is None ==> text_of(nested(answer, "result"@, "status"@)) == Some(
            "completed"@,
        ) && (member(answer, "status"@) is Some ==> text_of(member(answer, "status"@)) == Some(
            "ok"@,
        )),
        write_error(answer) matches Some(error) ==> error.category == ErrorCategory::UnknownOutcome
            && !error.retryable,
        answer_error(answer) is None <==> signed_of(member(answer, "code"@)) == Some(0i64),
        answer_error(answer) matches Some(error) ==> {
            let code = signed_of(member(answer, "code"@));
            &&& !error.retryable
            &&& (code == Some(401i64) || code == Some(1800i64)) <==> error.category
                == ErrorCategory::Authentication
            &&& code == Some(403i64) <==> error.category == ErrorCategory::PermissionDenied
            &&& code == Some(404i64) <==> error.category == ErrorCategory::NotFound
        },
        deleted_count(answer, requested) matches Ok(count) ==> 0 < count <= requested && unsigned_of(
            nested(answer, "data"@, "deleteCount"@),
        ) == Some(count),
        unsigned_of(nested(answer, "data"@, "deleteCount"@)) == Some(0u64) ==> (deleted_count(
            answer,
            requested,
        ) matches Err(error) && error.category == ErrorCategory::NotFound),
{
}

/// A batch counts as written only where every item of it was, and then by their number.
pub proof fn lemma_batches_count_every_item(answer: JsonModel)
    ensures
        bulk_result(answer) matches Ok(count) ==> (items_of(member(answer, "items"@)) matches Some(
            items,
        ) && items.len() > 0 && count == items.len() as u64 && forall|i: int|
            0 <= i < items.len() ==> {
                let status = item_status(#[trigger] items[i]);
                status is Some && 200 <= status->0 < 300
            }),
        bulk_result(answer) matches Err(error) ==> !error.retryable,
{
    if let Ok(count) = bulk_result(answer) {
        let items = items_of(member(answer, "items"@))->0;
        lemma_all_are_done(items);
        assert forall|i: int| 0 <= i < items.len() implies {
            let status = item_status(#[trigger] items[i]);
            status is Some && 200 <= status->0 < 300
        } by {
            assert(is_done(items[i]));
        }
    }
}

proof fn lemma_all_are_done(items: Seq<JsonModel>)
    ensures
        done_count(items) <= items.len(),
        done_count(items) == items.len() ==> forall|i: int|
            0 <= i < items.len() ==> is_done(#[trigger] items[i]),
    decreases items.len(),
{
    if items.len() > 0 {
        let before = items.drop_last();
        lemma_all_are_done(before);
        if done_count(items) == items.len() {
            assert forall|i: int| 0 <= i < items.len() implies is_done(#[trigger] items[i]) by {
                if i < before.len() {
                    assert(before[i] == items[i]);
                }
            }
        }
    }
}

/// The hits of a search are shown in order, and no more of them than may be.
pub proof fn lemma_hits_are_shown_in_order(answer: JsonModel, limit: usize, resumable: bool)
    ensures
        ({
            let reading = ElasticReading::Search { limit, resumable };
            match items_of(nested(answer, "hits"@, "hits"@)) {
                Some(hits) => crate::http::elastic::answer_records(
                    reading,
                    answer,
                ) matches Ok(found) && {
                    &&& found.len() <= limit
                    &&& found.len() == hits.len() || found.len() == limit
                    &&& found.len() <= hits.len()
                    &&& forall|i: int|
                        0 <= i < found.len() ==> #[trigger] found[i] == hit_record(hits[i])
                },
                None => crate::http::elastic::answer_records(reading, answer) is Err,
            }
        }),
{
}

/// The type of a collection's key is what the schema says of the field that is configured.
pub proof fn lemma_key_types_are_read(answer: JsonModel, name: Seq<char>)
    ensures
        described_key_type(answer, name) matches Ok(kind) ==> (member(answer, "data"@) matches Some(
            data,
        ) && list_in(data, "fields"@) matches Some(fields) && bool_of(member(data, "autoId"@))
            != Some(true) && exists|i: int|
            0 <= i < fields.len() && is_primary(#[trigger] fields[i], name) && {
                let stated = match member(fields[i], "type"@) {
                    Some(stated) => Some(stated),
                    None => member(fields[i], "dataType"@),
                };
                match kind {
                    MilvusPrimaryKeyType::Int64 => text_of(stated) == Some("Int64"@),
                    MilvusPrimaryKeyType::String => text_of(stated) == Some("VarChar"@) || text_of(
                        stated,
                    ) == Some("String"@),
                }
            }),
{
    if let Ok(kind) = described_key_type(answer, name) {
        let fields = list_in(member(answer, "data"@)->0, "fields"@)->0;
        lemma_primary(fields, name);
        let place = primary_place(fields, name);
        assert(is_primary(fields[place], name));
    }
}

proof fn lemma_primary(fields: Seq<JsonModel>, name: Seq<char>)
    ensures
        0 <= primary_place(fields, name) <= fields.len(),
        primary_place(fields, name) < fields.len() ==> is_primary(
            fields[primary_place(fields, name)],
            name,
        ),
    decreases fields.len(),
{
    if fields.len() > 0 && !is_primary(fields[0], name) {
        let rest = fields.subrange(1, fields.len() as int);
        lemma_primary(rest, name);
        if primary_place(rest, name) < rest.len() {
            assert(rest[primary_place(rest, name)] == fields[primary_place(fields, name)]);
        }
    }
}

/// Whether a field is a vector by its name, its size and its distance.
pub open spec fn is_vector_field(field: RecordModel, name: Seq<char>, definition: JsonModel) -> bool {
    &&& named(field, "name"@) == Some(ValueModel::String(name))
    &&& named(field, "type"@) == Some(ValueModel::String("vector"@))
    &&& named(field, "dimension"@) == Some(member_value(definition, "size"@))
    &&& named(field, "distance"@) == Some(member_value(definition, "distance"@))
}

/// The names of what is said of a field are different texts.
proof fn lemma_field_names()
    ensures
        "name"@ != "type"@,
        "name"@ != "dimension"@,
        "name"@ != "distance"@,
        "type"@ != "dimension"@,
        "type"@ != "distance"@,
        "dimension"@ != "distance"@,
        "name"@ != "indexed"@,
        "type"@ != "indexed"@,
{
    reveal_strlit("name");
    reveal_strlit("type");
    reveal_strlit("dimension");
    reveal_strlit("distance");
    reveal_strlit("indexed");
    assert("name"@.len() == 4 && "type"@.len() == 4 && "dimension"@.len() == 9 && "distance"@.len()
        == 8 && "indexed"@.len() == 7);
    assert("name"@[0] == 'n' && "type"@[0] == 't');
}

/// A field of a collection of Qdrant is a vector, with the size and the distance of its definition.
pub proof fn lemma_vector_fields_are_described(name: Seq<char>, definition: JsonModel)
    ensures
        is_vector_field(vector_field(name, definition), name, definition),
{
    lemma_field_names();
    let none = Seq::<(Seq<char>, ValueModel)>::empty();
    let one = crate::value::with_entry(none, "name"@, ValueModel::String(name));
    let two = crate::value::with_entry(one, "type"@, ValueModel::String("vector"@));
    let size = member_value(definition, "size"@);
    let distance = member_value(definition, "distance"@);
    let three = crate::value::with_entry(two, "dimension"@, size);
    lemma_entries_are_found(none, "name"@, ValueModel::String(name), "name"@);
    lemma_entries_are_found(one, "type"@, ValueModel::String("vector"@), "name"@);
    lemma_entries_are_found(two, "dimension"@, size, "name"@);
    lemma_entries_are_found(two, "dimension"@, size, "type"@);
    lemma_entries_are_found(three, "distance"@, distance, "name"@);
    lemma_entries_are_found(three, "distance"@, distance, "type"@);
    lemma_entries_are_found(three, "distance"@, distance, "dimension"@);
}

/// Every vector of a collection is a field; the one without a name is called the default.
pub proof fn lemma_every_vector_is_described(list: Seq<(Seq<char>, JsonModel)>)
    ensures
        named(list, "size"@) is None ==> {
            let fields = vector_fields(Some(JsonModel::Object(list)));
            &&& fields.len() == list.len()
            &&& forall|i: int|
                0 <= i < fields.len() ==> #[trigger] fields[i] == vector_field(
                    list[i].0,
                    list[i].1,
                )
        },
        named(list, "size"@) is Some ==> vector_fields(Some(JsonModel::Object(list))) == seq![
            vector_field("default"@, JsonModel::Object(list)),
        ],
{
}

/// A collection is described by its name, and not found in an answer without a result.
pub proof fn lemma_collections_are_described(name: Seq<char>, answer: JsonModel)
    ensures
        collection_description(name, answer) is Ok <==> member(answer, "result"@) is Some,
        collection_description(name, answer) matches Ok(description) ==> {
            &&& description.entity.name == name
            &&& description.entity.id == name
            &&& description.entity.kind == "collection"@
            &&& !description.truncated
        },
        crate::http::milvus::collection_description(name, answer) matches Ok(description) ==> {
            &&& answer_error(answer) is None
            &&& description.entity.name == name
            &&& description.entity.id == name
            &&& description.entity.comment == text_of(nested(answer, "data"@, "description"@))
            &&& items_of(
                crate::http::common::nested(answer, "data"@, "fields"@),
            ) matches Some(fields) ==> are_shown(
                description.fields,
                fields,
                |field: JsonModel| json_record(field),
            )
        },
        crate::http::weaviate::class_description(name, answer).entity.name == name,
        crate::http::weaviate::class_description(name, answer).entity.comment == text_of(
            member(answer, "description"@),
        ),
        items_of(member(answer, "properties"@)) matches Some(fields) ==> are_shown(
            crate::http::weaviate::class_description(name, answer).fields,
            fields,
            |field: JsonModel| json_record(field),
        ),
        crate::http::pinecone::index_description(name, answer).entity.name == name,
        crate::http::pinecone::index_description(name, answer).fields.len() == 1,
{
}

/// A field of an index says its path, its type, and whether it is indexed. One that only holds others
/// is an object.
pub proof fn lemma_mapped_fields_are_described(path: Seq<char>, definition: JsonModel)
    ensures
        named(mapping_field(path, definition), "name"@) == Some(ValueModel::String(path)),
        named(mapping_field(path, definition), "type"@) == match text_of(
            member(definition, "type"@),
        ) {
            Some(kind) => Some(ValueModel::String(kind)),
            None => if member(definition, "properties"@) is Some {
                Some(ValueModel::String("object"@))
            } else {
                None
            },
        },
        named(mapping_field(path, definition), "indexed"@) == match bool_of(
            member(definition, "index"@),
        ) {
            Some(indexed) => Some(ValueModel::Bool(indexed)),
            None => None,
        },
{
    lemma_field_names();
    let none = Seq::<(Seq<char>, ValueModel)>::empty();
    let path_value = ValueModel::String(path);
    let field = crate::value::with_entry(none, "name"@, path_value);
    lemma_entries_are_found(none, "name"@, path_value, "name"@);
    lemma_entries_are_found(none, "name"@, path_value, "type"@);
    lemma_entries_are_found(none, "name"@, path_value, "indexed"@);
    let kind = match text_of(member(definition, "type"@)) {
        Some(kind) => kind,
        None => "object"@,
    };
    let stated = text_of(member(definition, "type"@)) is Some || member(
        definition,
        "properties"@,
    ) is Some;
    let typed = if stated {
        crate::value::with_entry(field, "type"@, ValueModel::String(kind))
    } else {
        field
    };
    lemma_entries_are_found(field, "type"@, ValueModel::String(kind), "name"@);
    lemma_entries_are_found(field, "type"@, ValueModel::String(kind), "indexed"@);
    if let Some(indexed) = bool_of(member(definition, "index"@)) {
        lemma_entries_are_found(typed, "indexed"@, ValueModel::Bool(indexed), "name"@);
        lemma_entries_are_found(typed, "indexed"@, ValueModel::Bool(indexed), "type"@);
    }
}

/// Every property of an index is among its fields, under its path.
pub proof fn lemma_every_property_is_described(
    list: Seq<(Seq<char>, JsonModel)>,
    prefix: Seq<char>,
    at: int,
)
    requires
        0 <= at < list.len(),
    ensures
        mapping_fields(list, prefix).contains(
            mapping_field(
                if prefix.len() == 0 {
                    list[at].0
                } else {
                    prefix + "."@ + list[at].0
                },
                list[at].1,
            ),
        ),
    decreases list.len(),
{
    let before = list.drop_last();
    let fields = mapping_fields(list, prefix);
    let shorter = mapping_fields(before, prefix);
    if at < before.len() {
        lemma_every_property_is_described(before, prefix, at);
        assert(before[at] == list[at]);
        let wanted = mapping_field(field_path(prefix, list[at].0), list[at].1);
        let k = choose|k: int| 0 <= k < shorter.len() && shorter[k] == wanted;
        assert(fields[k] == wanted);
    } else {
        let k = shorter.len() as int;
        assert(fields[k] == mapping_field(field_path(prefix, list[at].0), list[at].1));
    }
}

/// An index is listed by its name where that holds the pattern, and described by its own mapping.
pub proof fn lemma_indexes_are_listed(
    row: JsonModel,
    pattern: Option<Seq<char>>,
    flavor: ElasticFlavor,
    name: Seq<char>,
    answer: JsonModel,
)
    ensures
        match text_of(member(row, "index"@)) {
            Some(found) => {
                &&& index_of_row(row, pattern) is Some <==> (pattern matches Some(part)
                    ==> occurs_in(part, found))
                &&& index_of_row(row, pattern) matches Some(entity) ==> entity.name == found
                    && entity.id == found && entity.namespace == Some("index"@)
            },
            None => index_of_row(row, pattern) is None,
        },
        index_description(flavor, name, answer) matches Ok(description) ==> description.entity.name
            == name && (member(answer, name) matches Some(mapping) ==> (members_of(
            nested(mapping, "mappings"@, "properties"@),
        ) matches Some(properties) ==> description.fields == mapping_fields(
            properties,
            Seq::empty(),
        ))),
{
}

/// A server is taken only for what it says it is.
pub proof fn lemma_servers_are_what_they_say(answer: JsonModel, flavor: ElasticFlavor)
    ensures
        elastic_info(flavor, answer) matches Ok(info) ==> {
            let tagline = text_of(member(answer, "tagline"@));
            let distribution = text_of(nested(answer, "version"@, "distribution"@));
            &&& info.product_version is Some
            &&& info.product_version == text_of(nested(answer, "version"@, "number"@))
            &&& info.server_identity == text_of(member(answer, "name"@))
            &&& flavor is Elasticsearch ==> distribution != Some("opensearch"@)
            &&& flavor is OpenSearch && distribution != Some("opensearch"@) ==> occurs_in(
                "opensearch"@,
                lower(match tagline {
                    Some(text) => text,
                    None => Seq::empty(),
                }),
            )
        },
        weaviate_info(answer) is Ok <==> text_of(member(answer, "version"@)) is Some,
        weaviate_info(answer) matches Ok(info) ==> info.product_version == text_of(
            member(answer, "version"@),
        ) && info.server_identity == text_of(member(answer, "hostname"@)),
        qdrant_info(answer) matches Ok(info) ==> info.product_version == text_of(
            member(answer, "version"@),
        ) && (text_of(member(answer, "title"@)) matches Some(title) ==> occurs_in(
            "qdrant"@,
            lower(title),
        )),
{
}

/// The rows of a query of Weaviate are shown only where it has no errors, one by one.
pub proof fn lemma_queries_show_their_rows(answer: JsonModel, collection: Seq<char>)
    ensures
        member(answer, "errors"@) is Some ==> graphql_records(answer, Some(collection)) is Err,
        graphql_records(answer, Some(collection)) matches Ok(found) ==> (items_of(
            pointer_target(answer, "/data/Get/"@ + collection),
        ) matches Some(rows) && are_shown(found, rows, |row: JsonModel| graphql_record(row))),
{
}

/// A row of a query shows its additional members under their own names, the last of a name; of the
/// rest everything but what holds them.
pub proof fn lemma_additional_members_are_shown(
    record: RecordModel,
    list: Seq<(Seq<char>, JsonModel)>,
    name: Seq<char>,
)
    ensures
        named(with_all_members(record, list), name) == match crate::base_laws::last_named(
            list,
            name,
        ) {
            Some(document) => Some(json_value(NumberStyle::Double, document)),
            None => named(record, name),
        },
    decreases list.len(),
{
    if list.len() > 0 {
        lemma_additional_members_are_shown(record, list.drop_last(), name);
        lemma_entries_are_found(
            with_all_members(record, list.drop_last()),
            list.last().0,
            json_value(NumberStyle::Double, list.last().1),
            name,
        );
    }
}

/// The objects of a list are shown in order, and no more of them than may be.
pub proof fn lemma_listed_objects_are_shown(answer: JsonModel, limit: int, fields: Seq<Seq<char>>)
    requires
        0 <= limit,
    ensures
        match items_of(member(answer, "objects"@)) {
            Some(objects) => list_records(answer, limit, fields) matches Ok(found) && {
                &&& found.len() <= limit
                &&& found.len() <= objects.len()
                &&& found.len() == limit || found.len() == objects.len()
                &&& forall|i: int|
                    0 <= i < found.len() ==> #[trigger] found[i] == shown_record(
                        objects[i],
                        fields,
                    )
            },
            None => list_records(answer, limit, fields) is Err,
        },
{
}

/// An object that was fetched is kept behind the others where it fits, and ends the reading where it
/// does not; one that is not there is passed over.
pub proof fn lemma_fetches_keep_what_fits(
    state: FetchModel,
    record: RecordModel,
    size: u64,
    max_bytes: u64,
)
    ensures
        ({
            let next = fetch_with(state, record, size, max_bytes);
            if state.bytes + size <= max_bytes {
                &&& next.found == state.found.push(record)
                &&& next.next == state.next + 1
                &&& next.bytes == state.bytes + size
                &&& next.truncated == state.truncated
            } else if max_bytes < u64::MAX {
                next.found == state.found && next.truncated && next.stopped
            } else {
                true
            }
        }),
        fetch_without(state).found == state.found,
        fetch_without(state).next == state.next + 1,
{
}

/// An object is replaced where it is there, and created where it is not. Each is written once, and a
/// failure behind the first leaves the outcome open.
pub proof fn lemma_upserts_replace_or_create(state: UpsertModel, status: u16, error: ErrorModel)
    ensures
        upsert_looked(state, status) matches Ok(next) ==> {
            &&& next.phase is Replace <==> status == 200 || status == 204
            &&& next.phase is Create <==> status == 404
            &&& next.index == state.index
            &&& next == (UpsertModel { phase: next.phase, ..state })
        },
        upsert_looked(state, status) is Ok <==> status == 200 || status == 204 || status == 404,
        state.index > 0 ==> upsert_failed(state, error).category == ErrorCategory::UnknownOutcome,
        state.index > 0 && upsert_looked(state, status) is Err ==> (upsert_looked(
            state,
            status,
        ) matches Err(found) && found.category == ErrorCategory::UnknownOutcome),
        upsert_written(state).index == state.index + 1,
        upsert_written(state).phase is Look,
{
}

/// A deletion counts the objects that were there, goes on past those that were not, and finds nothing
/// where it removed none.
pub proof fn lemma_deletions_count_what_was_there(
    state: DeleteModel,
    status: u16,
    context: ConnectorContext,
    profile: ConnectionProfile,
    elapsed_ms: u64,
)
    ensures
        delete_answered(state, status) matches Ok(next) ==> {
            &&& next.next == state.next + 1
            &&& next.affected == state.affected + (if status == 404 {
                0int
            } else {
                1
            })
            &&& next.ids == state.ids
            &&& next.target == state.target
            &&& next.tenant == state.tenant
        },
        delete_answered(state, status) is Ok <==> 200 <= status < 300 || status == 404,
        state.affected > 0 && delete_answered(state, status) is Err ==> (delete_answered(
            state,
            status,
        ) matches Err(found) && found.category == ErrorCategory::UnknownOutcome),
        state.affected == 0 ==> (delete_outcome(
            context,
            profile,
            state,
            elapsed_ms,
        ) matches Err(error) && error.category == ErrorCategory::NotFound),
        state.affected > 0 ==> delete_outcome(context, profile, state, elapsed_ms)
            == finished_write(context, profile, state.affected as u64, elapsed_ms),
{
}

/// Whether a source names the entities of a catalog by a member of its items.
pub open spec fn is_source(
    source: EntitySource,
    namespace: Seq<char>,
    kind: Seq<char>,
    key: Seq<char>,
) -> bool {
    source.namespace@ == namespace && source.kind@ == kind && source.name is Some
        && source.name->0@ == key
}

/// Whether a catalog lists the items of an answer.
pub open spec fn lists(
    found: Result<Seq<EntityModel>, ErrorModel>,
    items: Option<Seq<JsonModel>>,
    source: EntitySource,
    query: CatalogQuery,
) -> bool {
    match items {
        Some(items) => found == found_entities(items, source, query),
        None => found is Err,
    }
}

/// The catalogs of the vector stores list what their answers hold, by its name.
pub proof fn lemma_catalogs_list_their_answers(answer: JsonModel, query: CatalogQuery)
    ensures
        exists|source: EntitySource|
            is_source(source, "collection"@, "collection"@, "name"@) && source.comment is Absent
                && #[trigger] lists(
                crate::http::qdrant::found_collections(answer, query),
                items_of(nested(answer, "result"@, "collections"@)),
                source,
                query,
            ),
        exists|source: EntitySource|
            is_source(source, "index"@, "vector_index"@, "name"@) && #[trigger] lists(
                crate::http::pinecone::found_indexes(answer, query),
                items_of(member(answer, "indexes"@)),
                source,
                query,
            ),
        exists|source: EntitySource|
            is_source(source, "collection"@, "collection"@, "class"@) && (
            source.comment matches CommentSource::Member(name) && name@ == "description"@)
                && #[trigger] lists(
                crate::http::weaviate::found_classes(answer, query),
                items_of(member(answer, "classes"@)),
                source,
                query,
            ),
{
    assert(lists(
        crate::http::qdrant::found_collections(answer, query),
        items_of(nested(answer, "result"@, "collections"@)),
        crate::http::qdrant::collection_source(),
        query,
    ));
    assert(lists(
        crate::http::pinecone::found_indexes(answer, query),
        items_of(member(answer, "indexes"@)),
        crate::http::pinecone::index_source(),
        query,
    ));
    assert(lists(
        crate::http::weaviate::found_classes(answer, query),
        items_of(member(answer, "classes"@)),
        crate::http::weaviate::class_source(),
        query,
    ));
}

/// Every index of a search engine whose name holds the pattern is listed, and nothing else.
pub proof fn lemma_every_index_is_listed(
    rows: Seq<JsonModel>,
    pattern: Option<Seq<char>>,
    at: int,
)
    ensures
        0 <= at < rows.len() && index_of_row(rows[at], pattern) is Some ==> indexes_of_rows(
            rows,
            pattern,
        ).contains(index_of_row(rows[at], pattern)->0),
        forall|j: int|
            0 <= j < indexes_of_rows(rows, pattern).len() ==> is_index_of(
                #[trigger] indexes_of_rows(rows, pattern)[j],
                rows,
                pattern,
            ),
    decreases rows.len(),
{
    if rows.len() > 0 {
        let before = rows.drop_last();
        let shorter = indexes_of_rows(before, pattern);
        let list = indexes_of_rows(rows, pattern);
        lemma_every_index_is_listed(before, pattern, at);
        if 0 <= at < rows.len() && index_of_row(rows[at], pattern) is Some {
            let entity = index_of_row(rows[at], pattern)->0;
            if at < before.len() {
                assert(before[at] == rows[at]);
                let k = choose|k: int| 0 <= k < shorter.len() && shorter[k] == entity;
                assert(list[k] == entity);
            } else {
                assert(list[shorter.len() as int] == entity);
            }
        }
        assert forall|j: int| 0 <= j < list.len() implies is_index_of(
            #[trigger] list[j],
            rows,
            pattern,
        ) by {
            if j < shorter.len() {
                assert(list[j] == shorter[j]);
                let k = choose|k: int|
                    0 <= k < before.len() && index_of_row(#[trigger] before[k], pattern) == Some(
                        shorter[j],
                    );
                assert(rows[k] == before[k]);
            } else {
                assert(index_of_row(rows[rows.len() - 1], pattern) == Some(list[j]));
            }
        }
    }
}

/// Whether an entity is that of one of some rows.
pub open spec fn is_index_of(
    entity: EntityModel,
    rows: Seq<JsonModel>,
    pattern: Option<Seq<char>>,
) -> bool {
    exists|i: int| 0 <= i < rows.len() && index_of_row(#[trigger] rows[i], pattern) == Some(entity)
}

/// A page of Pinecone's catalog is the first of the indexes that are left, and its cursor stands
/// where the next one begins.
pub proof fn lemma_pinecone_pages_follow_each_other(
    context: ConnectorContext,
    profile: ConnectionProfile,
    query: CatalogQuery,
    found: Seq<EntityModel>,
    sizes: Seq<u64>,
)
    requires
        sizes.len() == found.len(),
    ensures
        crate::http::pinecone::catalog_result(context, profile, query, found, sizes) matches Ok(page)
            ==> {
            &&& page.entities.len() <= found.len()
            &&& page.entities.len() <= query.limit
            &&& forall|i: int|
                0 <= i < page.entities.len() ==> #[trigger] page.entities[i] == found[i]
            &&& page.next_cursor is None <==> page.entities.len() == found.len()
            &&& page.next_cursor matches Some(next) ==> (cursor_result(
                optional_text(query.cursor),
            ) matches Ok(offset) && next == decimal((offset + page.entities.len()) as nat))
        },
{
}

/// A search engine's client shows its credential in the standard way; OpenSearch takes no API key.
pub proof fn lemma_search_engines_take_their_credentials(
    profile: ConnectionProfile,
    kind: AuthKind,
    fields: Seq<(Seq<char>, Seq<char>)>,
)
    ensures
        profile.product == Product::OpenSearch && kind is ApiKey ==> (elastic_client(
            profile,
            kind,
            fields,
        ) matches Err(error) && error.category == ErrorCategory::Unsupported),
        !(profile.product == Product::OpenSearch && kind is ApiKey) ==> elastic_client(
            profile,
            kind,
            fields,
        ) == client_result(profile, kind, fields, AuthStyle::Standard, Seq::empty()),
{
}

/// What was fetched one by one is returned as it was found, unless the first alone is too large.
pub proof fn lemma_fetches_return_what_was_found(
    context: ConnectorContext,
    profile: ConnectionProfile,
    state: FetchModel,
    elapsed_ms: u64,
)
    requires
        state.sizes.len() == state.found.len(),
    ensures
        state.candidate && state.found.len() == 0 ==> crate::http::weaviate::fetch_outcome(
            context,
            profile,
            state,
            elapsed_ms,
        ) is Err,
        crate::http::weaviate::fetch_outcome(context, profile, state, elapsed_ms) matches Ok(result)
            ==> {
            &&& result.records.len() <= state.found.len()
            &&& forall|i: int|
                0 <= i < result.records.len() ==> #[trigger] result.records[i] == state.found[i]
            &&& result.next_cursor is None
            &&& state.truncated ==> result.truncated
        },
{
    let sizes = state.sizes.subrange(0, state.found.len() as int);
    let found = state.found.subrange(0, state.found.len() as int);
    assert(found =~= state.found);
    if crate::http::weaviate::fetch_outcome(context, profile, state, elapsed_ms) is Ok {
        let limit = rows_result(context, profile, context.max_rows)->Ok_0;
        let bound = if limit <= sizes.len() {
            limit
        } else {
            sizes.len() as int
        };
        crate::budget::lemma_fitting(
            sizes.subrange(0, bound),
            crate::http::common::byte_limit(context, profile),
        );
    }
}

/// A search engine takes every kind of credential but a connection string; OpenSearch takes no API
/// key either.
pub proof fn lemma_search_engines_offer_their_credentials(flavor: ElasticFlavor, kind: AuthKind)
    ensures
        crate::http::elastic::flavor_auth_kinds(flavor).contains(kind) <==> !(
        kind is ConnectionString) && !(flavor is OpenSearch && kind is ApiKey),
{
    let kinds = crate::http::elastic::flavor_auth_kinds(flavor);
    assert(kinds[0] == AuthKind::Anonymous && kinds[1] == AuthKind::UsernamePassword);
    if flavor is Elasticsearch {
        assert(kinds[2] == AuthKind::ApiKey && kinds[3] == AuthKind::BearerToken && kinds[4]
            == AuthKind::ClientCertificate);
        assert(kinds.len() == 5);
    } else {
        assert(kinds[2] == AuthKind::BearerToken && kinds[3] == AuthKind::ClientCertificate);
        assert(kinds.len() == 4);
    }
}

/// A search engine shows its own name and mode.
pub proof fn lemma_search_engines_are_named(flavor: ElasticFlavor, answer: JsonModel)
    ensures
        elastic_info(flavor, answer) matches Ok(info) ==> match flavor {
            ElasticFlavor::Elasticsearch => info.product_name == "Elasticsearch"@ && info.api_mode
                == "elasticsearch_rest"@,
            ElasticFlavor::OpenSearch => info.product_name == "OpenSearch"@ && info.api_mode
                == "opensearch_rest"@,
        },
        weaviate_info(answer) matches Ok(info) ==> info.product_name == "Weaviate"@,
        qdrant_info(answer) matches Ok(info) ==> info.product_name == "Qdrant"@ && info.api_mode
            == "qdrant_rest_v1"@,
        crate::http::splunk::splunk_info(answer, true) matches Ok(info) ==> info.product_name
            == "Splunk"@ && info.warnings.len() == 0 && info.product_version is Some
            && info.server_identity is Some,
        crate::http::splunk::splunk_info(answer, false) matches Ok(info) ==> info.warnings.len()
            == 1,
{
}

} // verus!
