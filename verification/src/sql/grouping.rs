//! Rows of a database catalog, grouped by key and ordered by their ordinals.
use crate::text::{same, texts};
use crate::value::{
    lemma_before_irreflexive, lemma_before_total, lemma_before_transitive, text_before,
};
use vstd::prelude::*;

verus! {

/// What rows are grouped by: texts, and after them a flag.
#[derive(Debug)]
pub struct GroupKey {
    pub parts: Vec<String>,
    pub flag: bool,
}

/// What a [`GroupKey`] is.
#[verifier::ext_equal]
pub struct KeyModel {
    pub parts: Seq<Seq<char>>,
    pub flag: bool,
}

impl View for GroupKey {
    type V = KeyModel;

    open spec fn view(&self) -> KeyModel {
        KeyModel { parts: texts(self.parts@), flag: self.flag }
    }
}

/// A column with its place among the columns of its group.
#[derive(Debug)]
pub struct GroupItem {
    pub ordinal: i128,
    pub column: String,
    pub referenced: String,
}

/// What a [`GroupItem`] is.
pub struct ItemModel {
    pub ordinal: int,
    pub column: Seq<char>,
    pub referenced: Seq<char>,
}

impl View for GroupItem {
    type V = ItemModel;

    open spec fn view(&self) -> ItemModel {
        ItemModel {
            ordinal: self.ordinal as int,
            column: self.column@,
            referenced: self.referenced@,
        }
    }
}

/// The columns of a key, in the order of their ordinals.
#[derive(Debug)]
pub struct Group {
    pub key: GroupKey,
    pub items: Vec<GroupItem>,
}

/// What a [`Group`] is.
#[verifier::ext_equal]
pub struct GroupModel {
    pub key: KeyModel,
    pub items: Seq<ItemModel>,
}

/// What each of some items is.
pub open spec fn items(list: Seq<GroupItem>) -> Seq<ItemModel> {
    Seq::new(list.len(), |i: int| list[i]@)
}

impl View for Group {
    type V = GroupModel;

    open spec fn view(&self) -> GroupModel {
        GroupModel { key: self.key@, items: items(self.items@) }
    }
}

/// What each of some groups is.
pub open spec fn groups(list: Seq<Group>) -> Seq<GroupModel> {
    Seq::new(list.len(), |i: int| list[i]@)
}

/// Whether a row of texts stands before another: by the first text in which they differ, or by
/// being shorter.
pub open spec fn parts_before(left: Seq<Seq<char>>, right: Seq<Seq<char>>) -> bool
    decreases left.len(),
{
    if right.len() == 0 {
        false
    } else if left.len() == 0 {
        true
    } else if left[0] != right[0] {
        text_before(left[0], right[0])
    } else {
        parts_before(
            left.subrange(1, left.len() as int),
            right.subrange(1, right.len() as int),
        )
    }
}

/// Whether a key stands before another: by its texts, or with equal texts by its flag.
pub open spec fn key_before(left: KeyModel, right: KeyModel) -> bool {
    if left.parts == right.parts {
        !left.flag && right.flag
    } else {
        parts_before(left.parts, right.parts)
    }
}

/// Items with one more, behind those whose ordinal is not larger.
pub open spec fn placed(list: Seq<ItemModel>, item: ItemModel) -> Seq<ItemModel>
    decreases list.len(),
{
    if list.len() == 0 {
        seq![item]
    } else if list.last().ordinal <= item.ordinal {
        list.push(item)
    } else {
        placed(list.drop_last(), item).push(list.last())
    }
}

/// Items with one more or not.
pub open spec fn placed_optional(list: Seq<ItemModel>, item: Option<ItemModel>) -> Seq<ItemModel> {
    match item {
        Some(item) => placed(list, item),
        None => list,
    }
}

/// Groups in the order of their keys, with `key` among them and `item`, if there is one, in its
/// group.
pub open spec fn with_row(
    list: Seq<GroupModel>,
    key: KeyModel,
    item: Option<ItemModel>,
) -> Seq<GroupModel>
    decreases list.len(),
{
    if list.len() == 0 {
        seq![GroupModel { key, items: placed_optional(Seq::empty(), item) }]
    } else if list[0].key == key {
        list.update(0, GroupModel { key, items: placed_optional(list[0].items, item) })
    } else if key_before(key, list[0].key) {
        seq![GroupModel { key, items: placed_optional(Seq::empty(), item) }] + list
    } else {
        seq![list[0]] + with_row(list.subrange(1, list.len() as int), key, item)
    }
}

/// The groups of some rows: one for each key, in the order of the keys; the items of a key in the
/// order of their ordinals, and with equal ordinals in the order of the rows.
pub open spec fn grouped(rows: Seq<(KeyModel, Option<ItemModel>)>) -> Seq<GroupModel>
    decreases rows.len(),
{
    if rows.len() == 0 {
        Seq::empty()
    } else {
        with_row(grouped(rows.drop_last()), rows.last().0, rows.last().1)
    }
}

/// The groups of one row more have that row added.
pub broadcast proof fn lemma_grouped_push(
    rows: Seq<(KeyModel, Option<ItemModel>)>,
    row: (KeyModel, Option<ItemModel>),
)
    ensures
        #[trigger] grouped(rows.push(row)) == with_row(grouped(rows), row.0, row.1),
{
    assert(rows.push(row).drop_last() =~= rows);
}

/// Whether a row of texts stands before another.
fn compare_parts(left: &Vec<String>, right: &Vec<String>) -> (result: (bool, bool))
    ensures
        result.0 == (texts(left@) == texts(right@)),
        result.1 == parts_before(texts(left@), texts(right@)),
{
    let ghost all_left = texts(left@);
    let ghost all_right = texts(right@);
    let mut i: usize = 0;
    assert(all_left.subrange(0, all_left.len() as int) =~= all_left);
    assert(all_right.subrange(0, all_right.len() as int) =~= all_right);
    while i < left.len() && i < right.len() && same(left[i].as_str(), right[i].as_str())
        invariant
            i <= left@.len(),
            i <= right@.len(),
            all_left == texts(left@),
            all_right == texts(right@),
            forall|j: int| 0 <= j < i ==> #[trigger] all_left[j] == all_right[j],
            parts_before(all_left, all_right) == parts_before(
                all_left.subrange(i as int, all_left.len() as int),
                all_right.subrange(i as int, all_right.len() as int),
            ),
        decreases left@.len() - i,
    {
        let ghost left_rest = all_left.subrange(i as int, all_left.len() as int);
        let ghost right_rest = all_right.subrange(i as int, all_right.len() as int);
        assert(left_rest[0] == left@[i as int]@);
        assert(right_rest[0] == right@[i as int]@);
        assert(left_rest.subrange(1, left_rest.len() as int) =~= all_left.subrange(
            i + 1,
            all_left.len() as int,
        ));
        assert(right_rest.subrange(1, right_rest.len() as int) =~= all_right.subrange(
            i + 1,
            all_right.len() as int,
        ));
        i = i + 1;
    }
    let ghost left_rest = all_left.subrange(i as int, all_left.len() as int);
    let ghost right_rest = all_right.subrange(i as int, all_right.len() as int);
    if i >= right.len() {
        if i >= left.len() {
            assert(all_left =~= all_right);
            (true, false)
        } else {
            assert(all_left.len() != all_right.len());
            (false, false)
        }
    } else if i >= left.len() {
        assert(all_left.len() != all_right.len());
        (false, true)
    } else {
        assert(left_rest[0] == left@[i as int]@);
        assert(right_rest[0] == right@[i as int]@);
        assert(all_left[i as int] != all_right[i as int]);
        (false, crate::value::before(left[i].as_str(), right[i].as_str()))
    }
}

/// Places an item behind those whose ordinal is not larger.
fn place(list: &mut Vec<GroupItem>, item: GroupItem)
    ensures
        items(final(list)@) == placed(items(old(list)@), item@),
{
    let ghost before = items(list@);
    let ghost model = item@;
    let mut i: usize = list.len();
    proof {
        assert(before.subrange(0, before.len() as int) =~= before);
        assert(placed(before, model) + before.subrange(before.len() as int, before.len() as int)
            =~= placed(before, model));
    }
    while i > 0 && list[i - 1].ordinal > item.ordinal
        invariant
            i <= list@.len(),
            items(list@) == before,
            model == item@,
            placed(before, model) == placed(before.subrange(0, i as int), model)
                + before.subrange(i as int, before.len() as int),
        decreases i,
    {
        let ghost shown = before.subrange(0, i as int);
        assert(shown.last() == list@[i - 1]@);
        assert(shown.drop_last() =~= before.subrange(0, i - 1));
        assert(placed(before, model) =~= placed(before.subrange(0, i - 1), model)
            + before.subrange(i - 1, before.len() as int));
        i = i - 1;
    }
    proof {
        let shown = before.subrange(0, i as int);
        if i > 0 {
            assert(shown.last() == list@[i - 1]@);
        }
        assert(placed(shown, model) =~= shown.push(model));
        assert(shown.push(model) + before.subrange(i as int, before.len() as int)
            =~= before.insert(i as int, model));
    }
    let ghost old_list = list@;
    list.insert(i, item);
    assert(items(list@) =~= items(old_list).insert(i as int, model));
}

/// Groups whose keys stand before `key` stay in front of it.
proof fn lemma_with_row_skips(
    list: Seq<GroupModel>,
    count: int,
    key: KeyModel,
    item: Option<ItemModel>,
)
    requires
        0 <= count <= list.len(),
        forall|i: int|
            0 <= i < count ==> (#[trigger] list[i]).key != key && !key_before(key, list[i].key),
    ensures
        with_row(list, key, item) == list.subrange(0, count) + with_row(
            list.subrange(count, list.len() as int),
            key,
            item,
        ),
    decreases count,
{
    if count == 0 {
        assert(list.subrange(0, list.len() as int) =~= list);
        assert(list.subrange(0, 0) + with_row(list, key, item) =~= with_row(list, key, item));
    } else {
        let rest = list.subrange(1, list.len() as int);
        assert(list[0].key != key);
        assert forall|i: int| 0 <= i < count - 1 implies (#[trigger] rest[i]).key != key
            && !key_before(key, rest[i].key) by {
            assert(rest[i] == list[i + 1]);
        }
        lemma_with_row_skips(rest, count - 1, key, item);
        let tail = with_row(list.subrange(count, list.len() as int), key, item);
        assert(rest.subrange(count - 1, rest.len() as int) =~= list.subrange(
            count,
            list.len() as int,
        ));
        assert(seq![list[0]] + (rest.subrange(0, count - 1) + tail) =~= list.subrange(0, count)
            + tail);
    }
}

/// What an optional item is.
pub open spec fn optional_item(item: Option<GroupItem>) -> Option<ItemModel> {
    match item {
        Some(item) => Some(item@),
        None => None,
    }
}

/// Adds a row to groups in the order of their keys.
pub fn add_row(list: &mut Vec<Group>, key: GroupKey, item: Option<GroupItem>)
    ensures
        groups(final(list)@) == with_row(groups(old(list)@), key@, optional_item(item)),
{
    let ghost before = groups(list@);
    let ghost key_model = key@;
    let ghost item_model = optional_item(item);
    let mut i: usize = 0;
    let mut found = false;
    while i < list.len()
        invariant_except_break
            !found,
        invariant
            i <= list@.len(),
            groups(list@) == before,
            key_model == key@,
            forall|j: int|
                0 <= j < i ==> (#[trigger] before[j]).key != key_model && !key_before(
                    key_model,
                    before[j].key,
                ),
        ensures
            found ==> i < list@.len() && before[i as int].key == key_model,
            !found && i < list@.len() ==> before[i as int].key != key_model && key_before(
                key_model,
                before[i as int].key,
            ),
        decreases list@.len() - i,
    {
        assert(before[i as int] == list@[i as int]@);
        let (equal, smaller) = compare_parts(&key.parts, &list[i].key.parts);
        if equal && key.flag == list[i].key.flag {
            assert(before[i as int].key =~= key_model);
            found = true;
            break;
        }
        assert(before[i as int].key != key_model);
        let comes_first = if equal {
            !key.flag && list[i].key.flag
        } else {
            smaller
        };
        if comes_first {
            break;
        }
        i = i + 1;
    }
    proof {
        lemma_with_row_skips(before, i as int, key_model, item_model);
    }
    let ghost rest = before.subrange(i as int, before.len() as int);
    if found {
        assert(rest[0] == before[i as int]);
        let mut group = list.remove(i);
        let ghost remaining = list@;
        assert(group@ == before[i as int]);
        match item {
            Some(item) => {
                place(&mut group.items, item);
            },
            None => {},
        }
        let ghost changed = group@;
        list.insert(i, group);
        assert(changed =~= GroupModel {
            key: key_model,
            items: placed_optional(before[i as int].items, item_model),
        });
        assert(groups(list@) =~= before.subrange(0, i as int) + rest.update(0, changed));
    } else {
        let mut fresh: Vec<GroupItem> = Vec::new();
        match item {
            Some(item) => {
                fresh.push(item);
                assert(items(fresh@) =~= seq![item@]);
            },
            None => {
                assert(items(fresh@) =~= Seq::<ItemModel>::empty());
            },
        }
        let group = Group { key, items: fresh };
        let ghost added = group@;
        assert(added =~= GroupModel {
            key: key_model,
            items: placed_optional(Seq::empty(), item_model),
        });
        let ghost old_list = list@;
        list.insert(i, group);
        assert(groups(list@) =~= before.subrange(0, i as int) + (seq![added] + rest));
        proof {
            if rest.len() > 0 {
                assert(rest[0] == before[i as int]);
            } else {
                assert(seq![added] + rest =~= seq![added]);
            }
        }
    }
}

/// The columns of some items.
pub open spec fn item_columns(list: Seq<ItemModel>) -> Seq<Seq<char>> {
    Seq::new(list.len(), |i: int| list[i].column)
}

/// The referenced columns of some items.
pub open spec fn item_references(list: Seq<ItemModel>) -> Seq<Seq<char>> {
    Seq::new(list.len(), |i: int| list[i].referenced)
}

/// The columns of some items.
pub fn columns_of(list: &Vec<GroupItem>) -> (result: Vec<String>)
    ensures
        texts(result@) == item_columns(items(list@)),
{
    let mut result: Vec<String> = Vec::new();
    let mut i: usize = 0;
    while i < list.len()
        invariant
            i <= list@.len(),
            result@.len() == i,
            forall|j: int| 0 <= j < i ==> (#[trigger] result@[j])@ == list@[j].column@,
        decreases list@.len() - i,
    {
        result.push(list[i].column.clone());
        i = i + 1;
    }
    assert(texts(result@) =~= item_columns(items(list@)));
    result
}

/// The referenced columns of some items.
pub fn references_of(list: &Vec<GroupItem>) -> (result: Vec<String>)
    ensures
        texts(result@) == item_references(items(list@)),
{
    let mut result: Vec<String> = Vec::new();
    let mut i: usize = 0;
    while i < list.len()
        invariant
            i <= list@.len(),
            result@.len() == i,
            forall|j: int| 0 <= j < i ==> (#[trigger] result@[j])@ == list@[j].referenced@,
        decreases list@.len() - i,
    {
        result.push(list[i].referenced.clone());
        i = i + 1;
    }
    assert(texts(result@) =~= item_references(items(list@)));
    result
}

/// Whether ordinals do not descend.
pub open spec fn in_ordinal_order(list: Seq<ItemModel>) -> bool {
    forall|i: int, j: int|
        0 <= i < j < list.len() ==> (#[trigger] list[i]).ordinal <= (#[trigger] list[j]).ordinal
}

/// Placing an item keeps the order of the ordinals and adds just that item.
pub proof fn lemma_placed(list: Seq<ItemModel>, item: ItemModel)
    requires
        in_ordinal_order(list),
    ensures
        in_ordinal_order(placed(list, item)),
        placed(list, item).to_multiset() == list.to_multiset().insert(item),
        placed(list, item).len() == list.len() + 1,
        forall|i: int|
            0 <= i < placed(list, item).len() ==> (#[trigger] placed(list, item)[i]).ordinal
                <= item.ordinal || (list.len() > 0 && placed(list, item)[i].ordinal
                <= list.last().ordinal),
    decreases list.len(),
{
    broadcast use vstd::seq_lib::group_to_multiset_ensures;

    if list.len() == 0 {
        assert(seq![item] =~= list.push(item));
    } else if list.last().ordinal <= item.ordinal {
    } else {
        let shorter = list.drop_last();
        lemma_placed(shorter, item);
        assert(list =~= shorter.push(list.last()));
        assert(forall|i: int|
            0 <= i < shorter.len() ==> #[trigger] shorter[i].ordinal <= list.last().ordinal);
    }
}

/// Every group's columns stand in the order of their ordinals.
pub proof fn lemma_groups_in_ordinal_order(rows: Seq<(KeyModel, Option<ItemModel>)>)
    ensures
        forall|i: int|
            0 <= i < grouped(rows).len() ==> in_ordinal_order(#[trigger] grouped(rows)[i].items),
    decreases rows.len(),
{
    if rows.len() > 0 {
        lemma_groups_in_ordinal_order(rows.drop_last());
        lemma_with_row_in_ordinal_order(
            grouped(rows.drop_last()),
            rows.last().0,
            rows.last().1,
        );
    }
}

/// Adding a row keeps every group in the order of the ordinals.
proof fn lemma_with_row_in_ordinal_order(
    list: Seq<GroupModel>,
    key: KeyModel,
    item: Option<ItemModel>,
)
    requires
        forall|i: int| 0 <= i < list.len() ==> in_ordinal_order(#[trigger] list[i].items),
    ensures
        forall|i: int|
            0 <= i < with_row(list, key, item).len() ==> in_ordinal_order(
                #[trigger] with_row(list, key, item)[i].items,
            ),
    decreases list.len(),
{
    match item {
        Some(item) => {
            lemma_placed(Seq::empty(), item);
            if list.len() > 0 {
                lemma_placed(list[0].items, item);
            }
        },
        None => {},
    }
    if list.len() > 0 && list[0].key != key && !key_before(key, list[0].key) {
        let rest = list.subrange(1, list.len() as int);
        lemma_with_row_in_ordinal_order(rest, key, item);
        let tail = with_row(rest, key, item);
        assert(forall|i: int|
            0 < i < with_row(list, key, item).len() ==> #[trigger] with_row(list, key, item)[i]
                == tail[i - 1]);
    }
}

/// No row of texts stands before itself.
proof fn lemma_parts_irreflexive(parts: Seq<Seq<char>>)
    ensures
        !parts_before(parts, parts),
    decreases parts.len(),
{
    if parts.len() > 0 {
        lemma_parts_irreflexive(parts.subrange(1, parts.len() as int));
    }
}

/// Of two different rows of texts one stands before the other.
proof fn lemma_parts_total(left: Seq<Seq<char>>, right: Seq<Seq<char>>)
    ensures
        left == right || parts_before(left, right) || parts_before(right, left),
    decreases left.len(),
{
    if left.len() == 0 && right.len() == 0 {
        assert(left =~= right);
    } else if left.len() > 0 && right.len() > 0 {
        if left[0] == right[0] {
            let left_rest = left.subrange(1, left.len() as int);
            let right_rest = right.subrange(1, right.len() as int);
            lemma_parts_total(left_rest, right_rest);
            assert(left =~= seq![left[0]] + left_rest);
            assert(right =~= seq![right[0]] + right_rest);
        } else {
            lemma_before_total(left[0], right[0]);
        }
    }
}

/// The order of rows of texts is transitive.
proof fn lemma_parts_transitive(
    first: Seq<Seq<char>>,
    second: Seq<Seq<char>>,
    third: Seq<Seq<char>>,
)
    requires
        parts_before(first, second),
        parts_before(second, third),
    ensures
        parts_before(first, third),
    decreases first.len(),
{
    if first.len() > 0 {
        if first[0] == second[0] && second[0] == third[0] {
            lemma_parts_transitive(
                first.subrange(1, first.len() as int),
                second.subrange(1, second.len() as int),
                third.subrange(1, third.len() as int),
            );
        } else if first[0] != second[0] && second[0] != third[0] {
            lemma_before_transitive(first[0], second[0], third[0]);
            lemma_before_irreflexive(first[0]);
        }
    }
}

/// The order of keys is transitive.
proof fn lemma_keys_transitive(first: KeyModel, second: KeyModel, third: KeyModel)
    requires
        key_before(first, second),
        key_before(second, third),
    ensures
        key_before(first, third),
{
    lemma_parts_irreflexive(first.parts);
    if first.parts != second.parts && second.parts != third.parts {
        lemma_parts_transitive(first.parts, second.parts, third.parts);
    }
}

/// Of two different keys one stands before the other.
proof fn lemma_keys_total(left: KeyModel, right: KeyModel)
    ensures
        left == right || key_before(left, right) || key_before(right, left),
{
    lemma_parts_total(left.parts, right.parts);
    if left.parts == right.parts && left.flag == right.flag {
        assert(left =~= right);
    }
}

/// Whether each key stands before every later one.
pub open spec fn keys_ascend(list: Seq<GroupModel>) -> bool {
    forall|i: int, j: int|
        0 <= i < j < list.len() ==> key_before((#[trigger] list[i]).key, (#[trigger] list[j]).key)
}

/// Adding a row keeps the order of the keys.
proof fn lemma_with_row_ascends(
    list: Seq<GroupModel>,
    key: KeyModel,
    item: Option<ItemModel>,
)
    requires
        keys_ascend(list),
    ensures
        keys_ascend(with_row(list, key, item)),
        forall|i: int|
            0 <= i < with_row(list, key, item).len() ==> (#[trigger] with_row(
                list,
                key,
                item,
            )[i]).key == key || exists|j: int|
                0 <= j < list.len() && with_row(list, key, item)[i].key == (
                #[trigger] list[j]).key,
    decreases list.len(),
{
    let wider = with_row(list, key, item);
    if list.len() > 0 {
        if list[0].key == key {
            assert(forall|i: int|
                0 <= i < wider.len() ==> (#[trigger] wider[i]).key == list[i].key);
        } else if key_before(key, list[0].key) {
            assert(forall|i: int| 0 < i < wider.len() ==> #[trigger] wider[i] == list[i - 1]);
            assert forall|i: int, j: int| 0 <= i < j < wider.len() implies key_before(
                (#[trigger] wider[i]).key,
                (#[trigger] wider[j]).key,
            ) by {
                if i == 0 && j > 1 {
                    assert(key_before(list[0].key, list[j - 1].key));
                    lemma_keys_transitive(key, list[0].key, list[j - 1].key);
                }
            }
        } else {
            let rest = list.subrange(1, list.len() as int);
            assert forall|i: int, j: int| 0 <= i < j < rest.len() implies key_before(
                (#[trigger] rest[i]).key,
                (#[trigger] rest[j]).key,
            ) by {
                assert(rest[i] == list[i + 1] && rest[j] == list[j + 1]);
            }
            lemma_with_row_ascends(rest, key, item);
            let tail = with_row(rest, key, item);
            lemma_keys_total(key, list[0].key);
            assert(forall|i: int| 0 < i < wider.len() ==> #[trigger] wider[i] == tail[i - 1]);
            assert forall|j: int| 0 < j < wider.len() implies key_before(
                list[0].key,
                (#[trigger] wider[j]).key,
            ) by {
                assert(wider[j] == tail[j - 1]);
                if tail[j - 1].key != key {
                    let k = choose|k: int|
                        0 <= k < rest.len() && tail[j - 1].key == (#[trigger] rest[k]).key;
                    assert(rest[k] == list[k + 1]);
                }
            }
            assert forall|i: int| 0 <= i < wider.len() implies (#[trigger] wider[i]).key == key
                || exists|j: int| 0 <= j < list.len() && wider[i].key == (#[trigger] list[j]).key by {
                if i > 0 && wider[i].key != key {
                    assert(wider[i] == tail[i - 1]);
                    let k = choose|k: int|
                        0 <= k < rest.len() && tail[i - 1].key == (#[trigger] rest[k]).key;
                    assert(rest[k] == list[k + 1]);
                }
            }
        }
    }
}

/// Each key has one group, and the groups stand in the order of their keys.
pub proof fn lemma_groups_ascend(rows: Seq<(KeyModel, Option<ItemModel>)>)
    ensures
        keys_ascend(grouped(rows)),
    decreases rows.len(),
{
    if rows.len() > 0 {
        lemma_groups_ascend(rows.drop_last());
        lemma_with_row_ascends(grouped(rows.drop_last()), rows.last().0, rows.last().1);
    }
}

} // verus!
