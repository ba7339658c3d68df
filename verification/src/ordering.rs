//! A stable order of texts, as the places of the texts in a list.
use crate::text::{less, text_less, text_less_irreflexive, text_less_total, text_less_transitive, texts};
use vstd::prelude::*;

verus! {

/// A list of places with a further one behind those whose keys are not
/// greater.
pub open spec fn placed(keys: Seq<Seq<char>>, order: Seq<int>, item: int) -> Seq<int>
    decreases order.len(),
{
    if order.len() == 0 || !text_less(keys[item], keys[order.last()]) {
        order.push(item)
    } else {
        placed(keys, order.drop_last(), item).push(order.last())
    }
}

/// The places of the first keys of a list in the order of the keys, equal
/// keys in the order of the list.
pub open spec fn order_of_first(keys: Seq<Seq<char>>, count: nat) -> Seq<int>
    decreases count,
{
    if count == 0 {
        Seq::<int>::empty()
    } else {
        placed(keys, order_of_first(keys, (count - 1) as nat), count - 1)
    }
}

/// The places of a list of keys in the order of the keys, equal keys in the
/// order of the list.
pub open spec fn text_order(keys: Seq<Seq<char>>) -> Seq<int> {
    order_of_first(keys, keys.len())
}

/// A list in a given order.
pub open spec fn arranged<T>(list: Seq<T>, order: Seq<int>) -> Seq<T> {
    order.map_values(|place: int| list[place])
}

/// Places are in the order of their keys, and in the order of the list where
/// the keys are equal.
pub open spec fn in_key_order(keys: Seq<Seq<char>>, order: Seq<int>) -> bool {
    forall|i: int, j: int|
        0 <= i < j < order.len() ==> !text_less(
            keys[#[trigger] order[j]],
            keys[#[trigger] order[i]],
        ) && (keys[order[i]] == keys[order[j]] ==> order[i] < order[j])
}

proof fn lemma_placed(keys: Seq<Seq<char>>, order: Seq<int>, item: int)
    requires
        in_key_order(keys, order),
        forall|i: int| 0 <= i < order.len() ==> (#[trigger] order[i]) < item,
    ensures
        in_key_order(keys, placed(keys, order, item)),
        placed(keys, order, item).len() == order.len() + 1,
        forall|x: int| #[trigger]
            placed(keys, order, item).contains(x) <==> order.contains(x) || x == item,
    decreases order.len(),
{
    let result = placed(keys, order, item);
    if order.len() == 0 || !text_less(keys[item], keys[order.last()]) {
        assert forall|i: int, j: int| 0 <= i < j < result.len() implies !text_less(
            keys[#[trigger] result[j]],
            keys[#[trigger] result[i]],
        ) && (keys[result[i]] == keys[result[j]] ==> result[i] < result[j]) by {
            if j == order.len() {
                let last = keys[order.last()];
                let here = keys[order[i]];
                if i < order.len() - 1 {
                    assert(!text_less(keys[order[order.len() - 1]], keys[order[i]]));
                }
                if text_less(keys[item], here) {
                    text_less_total(here, last);
                    if text_less(here, last) {
                        text_less_transitive(keys[item], here, last);
                    }
                }
            }
        }
        assert forall|x: int| #[trigger] result.contains(x) <==> order.contains(x) || x == item by {
            if order.contains(x) {
                let k = order.index_of(x);
                assert(result[k] == x);
            }
            if x == item {
                assert(result[order.len() as int] == x);
            }
        }
    } else {
        let front = order.drop_last();
        let last = order.last();
        let inner = placed(keys, front, item);
        lemma_placed(keys, front, item);
        assert forall|i: int, j: int| 0 <= i < j < result.len() implies !text_less(
            keys[#[trigger] result[j]],
            keys[#[trigger] result[i]],
        ) && (keys[result[i]] == keys[result[j]] ==> result[i] < result[j]) by {
            if j < inner.len() {
                assert(result[j] == inner[j]);
                assert(result[i] == inner[i]);
            } else {
                assert(result[i] == inner[i]);
                assert(inner.contains(inner[i]));
                if inner[i] == item {
                    if text_less(keys[last], keys[item]) {
                        text_less_transitive(keys[last], keys[item], keys[last]);
                        text_less_irreflexive(keys[last]);
                    }
                    if keys[last] == keys[item] {
                        text_less_irreflexive(keys[last]);
                    }
                } else {
                    let k = front.index_of(inner[i]);
                    assert(order[k] == inner[i]);
                    assert(order[order.len() - 1] == last);
                }
            }
        }
        assert forall|x: int| #[trigger] result.contains(x) <==> order.contains(x) || x == item by {
            if result.contains(x) {
                let k = result.index_of(x);
                if k < inner.len() {
                    assert(inner.contains(inner[k]));
                    if x != item {
                        let m = front.index_of(x);
                        assert(order[m] == x);
                    }
                } else {
                    assert(order[order.len() - 1] == x);
                }
            }
            if order.contains(x) {
                let k = order.index_of(x);
                if k < front.len() {
                    assert(front[k] == x);
                    assert(inner.contains(x));
                    let m = inner.index_of(x);
                    assert(result[m] == x);
                } else {
                    assert(result[inner.len() as int] == x);
                }
            }
            if x == item {
                assert(inner.contains(x));
                let m = inner.index_of(x);
                assert(result[m] == x);
            }
        }
    }
}

proof fn lemma_order_of_first(keys: Seq<Seq<char>>, count: nat)
    requires
        count <= keys.len(),
    ensures
        order_of_first(keys, count).len() == count,
        in_key_order(keys, order_of_first(keys, count)),
        forall|x: int| #[trigger]
            order_of_first(keys, count).contains(x) <==> 0 <= x < count,
        forall|i: int|
            0 <= i < count ==> 0 <= #[trigger] order_of_first(keys, count)[i] < count,
    decreases count,
{
    if count > 0 {
        let before = order_of_first(keys, (count - 1) as nat);
        lemma_order_of_first(keys, (count - 1) as nat);
        lemma_placed(keys, before, count - 1);
    }
    let order = order_of_first(keys, count);
    assert forall|i: int| 0 <= i < count implies 0 <= #[trigger] order[i] < count by {
        assert(order.contains(order[i]));
    }
}

/// The order of a list has each place once, by key.
pub proof fn lemma_text_order(keys: Seq<Seq<char>>)
    ensures
        text_order(keys).len() == keys.len(),
        in_key_order(keys, text_order(keys)),
        forall|x: int| #[trigger] text_order(keys).contains(x) <==> 0 <= x < keys.len(),
        forall|i: int|
            0 <= i < keys.len() ==> 0 <= #[trigger] text_order(keys)[i] < keys.len(),
{
    lemma_order_of_first(keys, keys.len());
}

/// Arranging a list by keys loses nothing and adds nothing.
pub proof fn arranging_keeps_the_items<T>(list: Seq<T>, keys: Seq<Seq<char>>)
    requires
        list.len() == keys.len(),
    ensures
        arranged(list, text_order(keys)).len() == list.len(),
        forall|x: T| #[trigger]
            arranged(list, text_order(keys)).contains(x) <==> list.contains(x),
{
    lemma_text_order(keys);
    let order = text_order(keys);
    let result = arranged(list, order);
    assert forall|x: T| #[trigger] result.contains(x) <==> list.contains(x) by {
        if result.contains(x) {
            let k = result.index_of(x);
            assert(list[order[k]] == x);
        }
        if list.contains(x) {
            let k = list.index_of(x);
            assert(order.contains(k));
            let m = order.index_of(k);
            assert(result[m] == x);
        }
    }
}

/// The keys of a list ascend, none occurring twice.
pub open spec fn keys_ascend<T>(list: Seq<T>, key: spec_fn(T) -> Seq<char>) -> bool {
    forall|i: int, j: int|
        0 <= i < j < list.len() ==> text_less(key(#[trigger] list[i]), key(#[trigger] list[j]))
}

/// Lists of the same items whose keys ascend are the same.
pub proof fn ascending_lists_are_one<T>(
    left: Seq<T>,
    right: Seq<T>,
    key: spec_fn(T) -> Seq<char>,
)
    requires
        keys_ascend(left, key),
        keys_ascend(right, key),
        forall|x: T| #[trigger] left.contains(x) <==> right.contains(x),
    ensures
        left == right,
    decreases left.len(),
{
    if left.len() == 0 {
        if right.len() > 0 {
            assert(right.contains(right[0]));
            assert(left.contains(right[0]));
        }
        assert(left =~= right);
    } else {
        let end = left.last();
        assert(left.contains(end));
        let k = right.index_of(end);
        let other = right.last();
        assert(right.contains(other));
        assert(left.contains(other));
        let m = left.index_of(other);
        if k < right.len() - 1 {
            assert(text_less(key(right[k]), key(right[right.len() - 1])));
            if m < left.len() - 1 {
                assert(text_less(key(left[m]), key(left[left.len() - 1])));
                text_less_transitive(key(end), key(other), key(end));
            }
            text_less_irreflexive(key(end));
        }
        assert(end == other);
        let l = left.drop_last();
        let r = right.drop_last();
        assert forall|x: T| #[trigger] l.contains(x) <==> r.contains(x) by {
            if l.contains(x) {
                let i = l.index_of(x);
                assert(text_less(key(left[i]), key(left[left.len() - 1])));
                assert(left.contains(left[i]));
                assert(right.contains(x));
                let j = right.index_of(x);
                if j == right.len() - 1 {
                    text_less_irreflexive(key(end));
                }
                assert(r[j] == x);
            }
            if r.contains(x) {
                let i = r.index_of(x);
                assert(text_less(key(right[i]), key(right[right.len() - 1])));
                assert(right.contains(right[i]));
                assert(left.contains(x));
                let j = left.index_of(x);
                if j == left.len() - 1 {
                    text_less_irreflexive(key(end));
                }
                assert(l[j] == x);
            }
        }
        ascending_lists_are_one(l, r, key);
        assert(left =~= l.push(end));
        assert(right =~= r.push(end));
    }
}

/// A list arranged by keys that are distinct has them ascend.
pub proof fn distinct_keys_ascend<T>(list: Seq<T>, key: spec_fn(T) -> Seq<char>)
    requires
        list.map_values(key).no_duplicates(),
    ensures
        keys_ascend(arranged(list, text_order(list.map_values(key))), key),
{
    let keys = list.map_values(key);
    let order = text_order(keys);
    let result = arranged(list, order);
    lemma_text_order(keys);
    assert forall|i: int, j: int| 0 <= i < j < result.len() implies text_less(
        key(#[trigger] result[i]),
        key(#[trigger] result[j]),
    ) by {
        let a = order[i];
        let b = order[j];
        assert(keys[a] == key(result[i]));
        assert(keys[b] == key(result[j]));
        assert(!text_less(keys[b], keys[a]));
        if keys[a] == keys[b] {
            assert(order[i] < order[j]);
            assert(a != b);
        }
        text_less_total(keys[a], keys[b]);
    }
}

/// Lists of the same items, arranged by keys that are distinct, are the same:
/// the order in which the items came does not show.
pub proof fn arranging_forgets_the_order<T>(
    left: Seq<T>,
    right: Seq<T>,
    key: spec_fn(T) -> Seq<char>,
)
    requires
        left.to_multiset() == right.to_multiset(),
        left.map_values(key).no_duplicates(),
    ensures
        right.map_values(key).no_duplicates(),
        arranged(left, text_order(left.map_values(key))) == arranged(
            right,
            text_order(right.map_values(key)),
        ),
{
    left.to_multiset_ensures();
    right.to_multiset_ensures();
    assert forall|x: T| #[trigger] left.contains(x) <==> right.contains(x) by {
        assert(left.contains(x) <==> left.to_multiset().count(x) > 0);
        assert(right.contains(x) <==> right.to_multiset().count(x) > 0);
    }
    assert(left.no_duplicates()) by {
        assert forall|i: int, j: int|
            0 <= i < left.len() && 0 <= j < left.len() && i != j implies left[i] != left[j] by {
            assert(left.map_values(key)[i] != left.map_values(key)[j]);
        }
    }
    left.lemma_multiset_has_no_duplicates();
    right.lemma_multiset_has_no_duplicates_conv();
    assert forall|i: int, j: int|
        0 <= i < right.len() && 0 <= j < right.len() && i != j implies right.map_values(key)[i]
        != right.map_values(key)[j] by {
        assert(right.contains(right[i]));
        assert(right.contains(right[j]));
        assert(left.contains(right[i]));
        assert(left.contains(right[j]));
        let a = left.index_of(right[i]);
        let b = left.index_of(right[j]);
        assert(right[i] != right[j]);
        assert(left.map_values(key)[a] != left.map_values(key)[b]);
    }
    let l = arranged(left, text_order(left.map_values(key)));
    let r = arranged(right, text_order(right.map_values(key)));
    distinct_keys_ascend(left, key);
    distinct_keys_ascend(right, key);
    arranging_keeps_the_items(left, left.map_values(key));
    arranging_keeps_the_items(right, right.map_values(key));
    assert forall|x: T| #[trigger] l.contains(x) <==> r.contains(x) by {
        assert(left.contains(x) <==> right.contains(x));
    }
    ascending_lists_are_one(l, r, key);
}

/// Places as numbers.
pub open spec fn places(order: Seq<usize>) -> Seq<int> {
    order.map_values(|place: usize| place as int)
}

proof fn lemma_placed_at(keys: Seq<Seq<char>>, order: Seq<int>, item: int, at: int)
    requires
        0 <= at <= order.len(),
        at == 0 || !text_less(keys[item], keys[order[at - 1]]),
        forall|k: int| at <= k < order.len() ==> text_less(keys[item], keys[#[trigger] order[k]]),
    ensures
        placed(keys, order, item) == order.insert(at, item),
    decreases order.len(),
{
    if at == order.len() {
        assert(order.insert(at, item) =~= order.push(item));
    } else {
        assert(text_less(keys[item], keys[order[order.len() - 1]]));
        lemma_placed_at(keys, order.drop_last(), item, at);
        assert(order.insert(at, item) =~= order.drop_last().insert(at, item).push(order.last()));
    }
}

/// The places of a list of keys in the order of the keys, equal keys in the
/// order of the list.
pub fn order_texts(keys: &Vec<String>) -> (order: Vec<usize>)
    ensures
        places(order@) == text_order(texts(keys@)),
        order@.len() == keys@.len(),
        forall|i: int| 0 <= i < order@.len() ==> #[trigger] order@[i] < keys@.len(),
{
    let ghost models = texts(keys@);
    let mut order: Vec<usize> = Vec::new();
    let mut i: usize = 0;
    assert(places(order@) =~= order_of_first(models, 0));
    while i < keys.len()
        invariant
            i <= keys.len(),
            models == texts(keys@),
            order@.len() == i,
            places(order@) == order_of_first(models, i as nat),
            forall|k: int| 0 <= k < order@.len() ==> #[trigger] order@[k] < keys@.len(),
        decreases keys.len() - i,
    {
        let ghost before = places(order@);
        let mut at: usize = order.len();
        while at > 0 && less(&keys[i], &keys[order[at - 1]])
            invariant
                at <= order.len(),
                i < keys.len(),
                models == texts(keys@),
                before == places(order@),
                forall|k: int| 0 <= k < order@.len() ==> #[trigger] order@[k] < keys@.len(),
                forall|k: int|
                    at <= k < before.len() ==> text_less(
                        models[i as int],
                        models[#[trigger] before[k]],
                    ),
            decreases at,
        {
            assert(before[at - 1] == order@[at - 1]);
            at = at - 1;
        }
        proof {
            if at > 0 {
                assert(before[at - 1] == order@[at - 1]);
            }
            lemma_placed_at(models, before, i as int, at as int);
        }
        order.insert(at, i);
        assert(places(order@) =~= before.insert(at as int, i as int));
        i = i + 1;
    }
    order
}

/// The order of a list has each of its places once, by text, and equal texts
/// in the order of the list.
pub proof fn texts_are_put_in_order(keys: &Vec<String>, order: Vec<usize>)
    requires
        call_ensures(order_texts, (keys,), order),
    ensures
        order@.len() == keys@.len(),
        order@.no_duplicates(),
        forall|i: int| 0 <= i < order@.len() ==> #[trigger] order@[i] < keys@.len(),
        forall|i: int, j: int|
            0 <= i < j < order@.len() ==> {
                let a = keys@[#[trigger] order@[i] as int]@;
                let b = keys@[#[trigger] order@[j] as int]@;
                text_less(a, b) || (a == b && order@[i] < order@[j])
            },
{
    let list = texts(keys@);
    lemma_text_order(list);
    let all = places(order@);
    assert forall|i: int, j: int| 0 <= i < j < order@.len() implies {
        let a = keys@[#[trigger] order@[i] as int]@;
        let b = keys@[#[trigger] order@[j] as int]@;
        text_less(a, b) || (a == b && order@[i] < order@[j])
    } by {
        assert(all[i] == order@[i] as int && all[j] == order@[j] as int);
        let a = list[all[i]];
        let b = list[all[j]];
        assert(!text_less(b, a));
        crate::text::text_less_total(a, b);
    }
    assert forall|i: int, j: int| 0 <= i < j < order@.len() implies order@[i] != order@[j] by {
        let a = keys@[order@[i] as int]@;
        crate::text::text_less_irreflexive(a);
    }
}

} // verus!
