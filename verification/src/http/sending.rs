//! What a request sends, and where.
use crate::convert::{value_json, values_json};
use crate::http::transport::{segments_result, BodyModel, EndpointModel, RequestModel};
use crate::model::{ErrorModel, Filter};
use crate::sql::filter_laws::admits;
use crate::value::{JsonModel, ValueModel};
use vstd::prelude::*;

verus! {

/// Whether a body is an object with a member.
pub open spec fn sends(body: BodyModel, name: Seq<char>, value: JsonModel) -> bool {
    body matches BodyModel::Json(JsonModel::Object(list)) && list.contains((name, value))
}

/// How many members a body has.
pub open spec fn member_count(body: BodyModel) -> nat {
    match body {
        BodyModel::Json(JsonModel::Object(list)) => list.len(),
        _ => 0,
    }
}

/// Whether a request goes to a path below an endpoint.
pub open spec fn goes_to(request: RequestModel, base: EndpointModel, path: Seq<Seq<char>>) -> bool {
    segments_result(base, path) == Ok::<Seq<char>, ErrorModel>(request.url)
}

/// Whether the name of a bound in a range admits a stored value, by the sign of its difference from
/// the bound.
pub open spec fn bound_admits(name: Seq<char>, sign: int) -> bool {
    ||| name == "lt"@ && sign < 0
    ||| name == "lte"@ && sign <= 0
    ||| name == "gt"@ && sign > 0
    ||| name == "gte"@ && sign >= 0
}

/// What stands under the only member of a document, where that has a name.
pub open spec fn under(document: Option<JsonModel>, name: Seq<char>) -> Option<JsonModel> {
    match document {
        Some(JsonModel::Object(list)) if list.len() == 1 && list[0].0 == name => Some(list[0].1),
        _ => None,
    }
}

/// The only item of a list.
pub open spec fn only_item(document: Option<JsonModel>) -> Option<JsonModel> {
    match document {
        Some(JsonModel::Array(items)) if items.len() == 1 => Some(items[0]),
        _ => None,
    }
}

/// Whether a document is there and is that of a value.
pub open spec fn is_value(document: Option<JsonModel>, value: ValueModel) -> bool {
    document matches Some(found) && value_json(value) == Ok::<JsonModel, ErrorModel>(found)
}

/// Whether documents are those of some values, one by one.
pub open spec fn are_documents(items: Seq<JsonModel>, list: Seq<ValueModel>) -> bool {
    &&& items.len() == list.len()
    &&& forall|i: int|
        0 <= i < items.len() ==> value_json(list[i]) == Ok::<JsonModel, ErrorModel>(
            #[trigger] items[i],
        )
}

/// The documents of values.
pub proof fn lemma_documents(list: Seq<ValueModel>)
    ensures
        values_json(list) matches Ok(items) ==> are_documents(items, list),
    decreases list.len(),
{
    if list.len() > 0 {
        let before = list.subrange(0, list.len() - 1);
        lemma_documents(before);
        if let Ok(items) = values_json(list) {
            let shorter = values_json(before)->Ok_0;
            assert forall|i: int| 0 <= i < items.len() implies value_json(list[i]) == Ok::<
                JsonModel,
                ErrorModel,
            >(#[trigger] items[i]) by {
                if i < before.len() {
                    assert(items[i] == shorter[i]);
                    assert(before[i] == list[i]);
                }
            }
        }
    }
}

/// The name of the bound that a comparison by order asks for.
pub open spec fn is_bound_of(name: Seq<char>, filter: Filter) -> bool {
    forall|sign: int| bound_admits(name, sign) == admits(filter, sign)
}

/// The names of bounds are different texts.
pub proof fn lemma_bound_names()
    ensures
        "lt"@ != "lte"@,
        "lt"@ != "gt"@,
        "lt"@ != "gte"@,
        "lte"@ != "gt"@,
        "lte"@ != "gte"@,
        "gt"@ != "gte"@,
{
    reveal_strlit("lt");
    reveal_strlit("lte");
    reveal_strlit("gt");
    reveal_strlit("gte");
    assert("lt"@.len() == 2 && "gt"@.len() == 2 && "lte"@.len() == 3 && "gte"@.len() == 3);
    assert("lt"@[0] == 'l' && "gt"@[0] == 'g' && "lte"@[0] == 'l' && "gte"@[0] == 'g');
}

/// Comparisons by order ask for the bound of their kind.
pub proof fn lemma_bounds(filter: Filter)
    ensures
        filter is Lt ==> is_bound_of("lt"@, filter),
        filter is Lte ==> is_bound_of("lte"@, filter),
        filter is Gt ==> is_bound_of("gt"@, filter),
        filter is Gte ==> is_bound_of("gte"@, filter),
{
    lemma_bound_names();
}

/// A member that was pushed is a member, and those before it stay.
pub proof fn lemma_pushed<A>(list: Seq<A>, item: A)
    ensures
        list.push(item).contains(item),
        forall|other: A| list.contains(other) ==> #[trigger] list.push(item).contains(other),
        list.push(item).len() == list.len() + 1,
{
    let longer = list.push(item);
    assert(longer[list.len() as int] == item);
    assert forall|other: A| list.contains(other) implies #[trigger] longer.contains(other) by {
        let i = choose|i: int| 0 <= i < list.len() && list[i] == other;
        assert(longer[i] == other);
    }
}

} // verus!
