//! What holds of keys and of the store, whatever the arguments and whatever is stored.

use vstd::prelude::*;
use crate::content::{Content, ContentView};
use crate::key::{
    ArgumentView, ComponentView, KeyView, component_hash, component_matches,
    component_same_content, components_of, is_pointer_rule, key_hash, key_matches, key_of,
    same_content, tuple_hash,
};
use crate::rule::KeyRule;
use crate::store::{Slot, bucket_of, find, first_match, put, put_in_bucket, settled};

verus! {

/// Two words are the same content exactly if they are the same bit pattern.
pub proof fn lemma_words_equal_by_bits(a: u64, b: u64)
    ensures
        (Content::Word(a)@ == Content::Word(b)@) <==> a == b,
{
}

/// Two references to one address are equal as key components, whatever their contents.
pub proof fn lemma_same_address_matches(address: usize, x: ContentView, y: ContentView)
    ensures
        component_matches(
            ComponentView::Reference { address, content: x },
            ComponentView::Reference { address, content: y },
        ),
{
}

/// The hash of a reference does not depend on its address.
pub proof fn lemma_hash_ignores_address(p: usize, q: usize, content: ContentView)
    ensures
        component_hash(ComponentView::Reference { address: p, content }) == component_hash(
            ComponentView::Reference { address: q, content },
        ),
{
}

/// Keys with the same content are equal.
pub proof fn lemma_same_content_matches(a: KeyView, b: KeyView)
    requires
        same_content(a, b),
    ensures
        key_matches(a, b),
{
    match (a, b) {
        (KeyView::Tuple(xs), KeyView::Tuple(ys)) => {
            assert forall|i: int| 0 <= i < xs.len() implies component_matches(
                #[trigger] xs[i],
                ys[i],
            ) by {
                assert(component_same_content(xs[i], ys[i]));
            }
        },
        _ => {},
    }
}

proof fn lemma_tuple_hash_same_content(xs: Seq<ComponentView>, ys: Seq<ComponentView>, n: int)
    requires
        0 <= n <= xs.len(),
        xs.len() == ys.len(),
        forall|i: int| 0 <= i < xs.len() ==> component_same_content(#[trigger] xs[i], ys[i]),
    ensures
        tuple_hash(xs, n) == tuple_hash(ys, n),
    decreases n,
{
    if n > 0 {
        lemma_tuple_hash_same_content(xs, ys, n - 1);
        assert(component_same_content(xs[n - 1], ys[n - 1]));
    }
}

/// Keys with the same content have the same hash.
pub proof fn lemma_same_content_same_hash(a: KeyView, b: KeyView)
    requires
        same_content(a, b),
    ensures
        key_hash(a) == key_hash(b),
{
    match (a, b) {
        (KeyView::Tuple(xs), KeyView::Tuple(ys)) => {
            lemma_tuple_hash_same_content(xs, ys, xs.len() as int);
        },
        _ => {},
    }
}

/// Holding the same content does not depend on the order of the two keys.
pub proof fn lemma_same_content_symmetric(a: KeyView, b: KeyView)
    requires
        same_content(a, b),
    ensures
        same_content(b, a),
{
    match (a, b) {
        (KeyView::Tuple(xs), KeyView::Tuple(ys)) => {
            assert forall|i: int| 0 <= i < ys.len() implies component_same_content(
                #[trigger] ys[i],
                xs[i],
            ) by {
                assert(component_same_content(xs[i], ys[i]));
            }
        },
        _ => {},
    }
}

/// Two keys that hold the same content as a third hold the same content.
pub proof fn lemma_same_content_transitive(a: KeyView, b: KeyView, c: KeyView)
    requires
        same_content(a, b),
        same_content(b, c),
    ensures
        same_content(a, c),
{
    match (a, b, c) {
        (KeyView::Tuple(xs), KeyView::Tuple(ys), KeyView::Tuple(zs)) => {
            assert forall|i: int| 0 <= i < xs.len() implies component_same_content(
                #[trigger] xs[i],
                zs[i],
            ) by {
                assert(component_same_content(xs[i], ys[i]));
                assert(component_same_content(ys[i], zs[i]));
            }
        },
        _ => {},
    }
}

/// Whether the key holds no reference component: equality of such keys compares
/// content and nothing else.
pub open spec fn address_free(k: KeyView) -> bool {
    match k {
        KeyView::Single(c) => !(c is Reference),
        KeyView::Tuple(cs) => forall|i: int| 0 <= i < cs.len() ==> !(#[trigger] cs[i] is Reference),
    }
}

/// A key without a reference component is settled in every store.
pub proof fn lemma_address_free_settled<R>(store: Map<u64, Seq<Slot<R>>>, k: KeyView)
    requires
        address_free(k),
    ensures
        settled(store, k),
{
    let bucket = bucket_of(store, key_hash(k));
    assert forall|i: int|
        0 <= i < bucket.len() && key_matches(k, #[trigger] bucket[i].key) implies same_content(
        k,
        bucket[i].key,
    ) by {
        match (k, bucket[i].key) {
            (KeyView::Tuple(xs), KeyView::Tuple(ys)) => {
                assert forall|j: int| 0 <= j < xs.len() implies component_same_content(
                    #[trigger] xs[j],
                    ys[j],
                ) by {
                    assert(component_matches(xs[j], ys[j]));
                    assert(!(xs[j] is Reference));
                }
            },
            _ => {},
        }
    }
}

proof fn lemma_first_match_agrees<R>(bucket: Seq<Slot<R>>, a: KeyView, b: KeyView, n: int)
    requires
        0 <= n <= bucket.len(),
        forall|i: int|
            0 <= i < bucket.len() ==> key_matches(a, #[trigger] bucket[i].key) == key_matches(
                b,
                bucket[i].key,
            ),
    ensures
        first_match(bucket, a, n) == first_match(bucket, b, n),
    decreases n,
{
    if n > 0 {
        lemma_first_match_agrees(bucket, a, b, n - 1);
        assert(key_matches(a, bucket[n - 1].key) == key_matches(b, bucket[n - 1].key));
    }
}

proof fn lemma_first_match_by_keys<R>(before: Seq<Slot<R>>, after: Seq<Slot<R>>, k: KeyView, n: int)
    requires
        0 <= n <= before.len(),
        n <= after.len(),
        forall|i: int| 0 <= i < n ==> (#[trigger] before[i]).key == after[i].key,
    ensures
        first_match(after, k, n) == first_match(before, k, n),
    decreases n,
{
    if n > 0 {
        lemma_first_match_by_keys(before, after, k, n - 1);
        assert(before[n - 1].key == after[n - 1].key);
    }
}

proof fn lemma_first_match_in_range<R>(bucket: Seq<Slot<R>>, k: KeyView, n: int)
    requires
        0 <= n <= bucket.len(),
    ensures
        match first_match(bucket, k, n) {
            Some(i) => 0 <= i < n && key_matches(k, bucket[i].key),
            None => forall|j: int| 0 <= j < n ==> !key_matches(k, #[trigger] bucket[j].key),
        },
    decreases n,
{
    if n > 0 {
        lemma_first_match_in_range(bucket, k, n - 1);
    }
}

/// A result stored under a key is found under that key.
pub proof fn lemma_stored_is_found<R>(store: Map<u64, Seq<Slot<R>>>, k: KeyView, v: R)
    ensures
        find(put(store, k, v), k) == Some(v),
{
    let h = key_hash(k);
    let before = bucket_of(store, h);
    let after = put_in_bucket(before, k, v);
    let n = before.len() as int;
    assert(bucket_of(put(store, k, v), h) == after);
    lemma_first_match_in_range(before, k, n);
    match first_match(before, k, n) {
        Some(i) => {
            lemma_first_match_by_keys(before, after, k, n);
        },
        None => {
            lemma_first_match_by_keys(before, after, k, n);
            lemma_same_content_matches(k, k);
        },
    }
}

/// Calls whose keys hold the same content share one entry: what is stored for one
/// is found for the other, wherever their arguments lie. Both keys are to be
/// settled in the store.
pub proof fn lemma_same_content_shares_entry<R>(
    store: Map<u64, Seq<Slot<R>>>,
    stored: KeyView,
    asked: KeyView,
    v: R,
)
    requires
        same_content(stored, asked),
        settled(store, stored),
        settled(store, asked),
    ensures
        find(put(store, stored, v), asked) == Some(v),
{
    lemma_same_content_same_hash(stored, asked);
    lemma_same_content_symmetric(stored, asked);
    lemma_same_content_matches(asked, stored);
    let h = key_hash(stored);
    let before = bucket_of(store, h);
    let after = put_in_bucket(before, stored, v);
    let n = before.len() as int;
    assert(bucket_of(put(store, stored, v), h) == after);
    assert forall|i: int| 0 <= i < before.len() implies key_matches(
        stored,
        #[trigger] before[i].key,
    ) == key_matches(asked, before[i].key) by {
        if key_matches(stored, before[i].key) {
            lemma_same_content_transitive(asked, stored, before[i].key);
            lemma_same_content_matches(asked, before[i].key);
        }
        if key_matches(asked, before[i].key) {
            lemma_same_content_transitive(stored, asked, before[i].key);
            lemma_same_content_matches(stored, before[i].key);
        }
    }
    lemma_first_match_agrees(before, stored, asked, n);
    lemma_first_match_in_range(before, stored, n);
    lemma_first_match_by_keys(before, after, asked, n);
}

/// Storing under one key leaves alone what is found under a key with other
/// content. Both keys are to be settled in the store.
pub proof fn lemma_other_content_untouched<R>(
    store: Map<u64, Seq<Slot<R>>>,
    stored: KeyView,
    asked: KeyView,
    v: R,
)
    requires
        !key_matches(asked, stored),
        settled(store, stored),
        settled(store, asked),
    ensures
        find(put(store, stored, v), asked) == find(store, asked),
{
    let h = key_hash(stored);
    if key_hash(asked) == h {
        let before = bucket_of(store, h);
        let after = put_in_bucket(before, stored, v);
        let n = before.len() as int;
        assert(bucket_of(put(store, stored, v), h) == after);
        lemma_first_match_in_range(before, stored, n);
        lemma_first_match_in_range(before, asked, n);
        lemma_first_match_by_keys(before, after, asked, n);
        match first_match(before, stored, n) {
            Some(i) => {
                if first_match(before, asked, n) == Some(i) {
                    lemma_same_content_symmetric(stored, before[i].key);
                    lemma_same_content_transitive(asked, before[i].key, stored);
                    lemma_same_content_matches(asked, stored);
                }
            },
            None => {},
        }
    } else {
        assert(bucket_of(put(store, stored, v), key_hash(asked)) == bucket_of(
            store,
            key_hash(asked),
        ));
    }
}

/// Key equality does not depend on the order of the two keys.
pub proof fn lemma_matches_symmetric(a: KeyView, b: KeyView)
    ensures
        key_matches(a, b) == key_matches(b, a),
{
    match (a, b) {
        (KeyView::Tuple(xs), KeyView::Tuple(ys)) => {
            if key_matches(a, b) {
                assert forall|i: int| 0 <= i < ys.len() implies component_matches(
                    #[trigger] ys[i],
                    xs[i],
                ) by {
                    assert(component_matches(xs[i], ys[i]));
                }
            }
            if key_matches(b, a) {
                assert forall|i: int| 0 <= i < xs.len() implies component_matches(
                    #[trigger] xs[i],
                    ys[i],
                ) by {
                    assert(component_matches(ys[i], xs[i]));
                }
            }
        },
        _ => {},
    }
}

/// Keyed by pointer or by value, two calls with unequal keys have an entry each:
/// after both results are stored, each is found under its own key.
pub proof fn lemma_unequal_keys_two_entries<R>(
    store: Map<u64, Seq<Slot<R>>>,
    first: KeyView,
    second: KeyView,
    v: R,
    w: R,
)
    requires
        address_free(first),
        address_free(second),
        !key_matches(first, second),
    ensures
        find(put(put(store, first, v), second, w), first) == Some(v),
        find(put(put(store, first, v), second, w), second) == Some(w),
{
    let middle = put(store, first, v);
    lemma_stored_is_found(store, first, v);
    lemma_stored_is_found(middle, second, w);
    lemma_address_free_settled(middle, first);
    lemma_address_free_settled(middle, second);
    lemma_other_content_untouched(middle, second, first, w);
}

/// The result stored last under a key is the one found under it.
pub proof fn lemma_last_stored_wins<R>(store: Map<u64, Seq<Slot<R>>>, k: KeyView, v: R, w: R)
    ensures
        find(put(put(store, k, v), k, w), k) == Some(w),
{
    lemma_stored_is_found(put(store, k, v), k, w);
}

/// Nothing is found in a store that was emptied.
pub proof fn lemma_empty_store_misses<R>(k: KeyView)
    ensures
        find(Map::<u64, Seq<Slot<R>>>::empty(), k) is None,
{
}

/// Whether the two argument lists have the same content in every position.
pub open spec fn equal_contents(a: Seq<ArgumentView>, b: Seq<ArgumentView>) -> bool {
    a.len() == b.len() && forall|i: int| 0 <= i < a.len() ==> (#[trigger] a[i]).content == b[i].content
}

/// Keyed by reference or by value, two calls with the same content in every
/// argument have keys with the same content, wherever the arguments lie.
pub proof fn lemma_equal_contents_same_key(
    rules: Seq<KeyRule>,
    a: Seq<ArgumentView>,
    b: Seq<ArgumentView>,
)
    requires
        rules.len() > 0,
        a.len() == rules.len(),
        equal_contents(a, b),
        forall|i: int| 0 <= i < rules.len() ==> !is_pointer_rule(#[trigger] rules[i]),
    ensures
        key_of(rules, a) is Some,
        key_of(rules, b) is Some,
        same_content(key_of(rules, a)->0, key_of(rules, b)->0),
{
    assert(a[0].content == b[0].content);
    if rules.len() > 1 {
        let xs = components_of(rules, a);
        let ys = components_of(rules, b);
        assert forall|i: int| 0 <= i < xs.len() implies component_same_content(
            #[trigger] xs[i],
            ys[i],
        ) by {
            assert(a[i].content == b[i].content);
            assert(!is_pointer_rule(rules[i]));
        }
    } else {
        assert(!is_pointer_rule(rules[0]));
    }
}

/// Keyed by pointer, two calls that differ in the address of one reference
/// argument have different keys, whatever the contents.
pub proof fn lemma_other_address_other_key(
    rules: Seq<KeyRule>,
    a: Seq<ArgumentView>,
    b: Seq<ArgumentView>,
    i: int,
)
    requires
        0 <= i < rules.len(),
        is_pointer_rule(rules[i]),
        a[i].address != b[i].address,
        key_of(rules, a) is Some,
        key_of(rules, b) is Some,
    ensures
        !key_matches(key_of(rules, a)->0, key_of(rules, b)->0),
{
    if rules.len() > 1 {
        let xs = components_of(rules, a);
        let ys = components_of(rules, b);
        assert(!component_matches(xs[i], ys[i]));
    }
}

/// Keyed by reference, two calls whose reference arguments lie at the same
/// addresses, and whose other arguments have the same content, have equal keys:
/// what lies behind the references is not compared.
pub proof fn lemma_same_addresses_equal_keys(
    rules: Seq<KeyRule>,
    a: Seq<ArgumentView>,
    b: Seq<ArgumentView>,
)
    requires
        key_of(rules, a) is Some,
        key_of(rules, b) is Some,
        forall|i: int|
            0 <= i < rules.len() ==> if #[trigger] rules[i] is Reference {
                a[i].address == b[i].address
            } else {
                a[i] == b[i]
            },
    ensures
        key_matches(key_of(rules, a)->0, key_of(rules, b)->0),
{
    if rules.len() > 1 {
        let xs = components_of(rules, a);
        let ys = components_of(rules, b);
        assert forall|i: int| 0 <= i < xs.len() implies component_matches(
            #[trigger] xs[i],
            ys[i],
        ) by {
            assert(if rules[i] is Reference {
                a[i].address == b[i].address
            } else {
                a[i] == b[i]
            });
        }
    } else {
        assert(if rules[0] is Reference {
            a[0].address == b[0].address
        } else {
            a[0] == b[0]
        });
    }
}

/// Keyed by reference or by value, a call whose argument in one position has
/// other content, at another address, has another key.
pub proof fn lemma_other_content_other_key(
    rules: Seq<KeyRule>,
    a: Seq<ArgumentView>,
    b: Seq<ArgumentView>,
    i: int,
)
    requires
        0 <= i < rules.len(),
        !is_pointer_rule(rules[i]),
        a[i].content != b[i].content,
        rules[i] is Reference ==> a[i].address != b[i].address,
        key_of(rules, a) is Some,
        key_of(rules, b) is Some,
    ensures
        !key_matches(key_of(rules, a)->0, key_of(rules, b)->0),
{
    if rules.len() > 1 {
        let xs = components_of(rules, a);
        let ys = components_of(rules, b);
        assert(!component_matches(xs[i], ys[i]));
    }
}

/// A key taken by rules of which none is by reference holds no reference component.
pub proof fn lemma_rules_without_reference(rules: Seq<KeyRule>, a: Seq<ArgumentView>)
    requires
        key_of(rules, a) is Some,
        forall|i: int| 0 <= i < rules.len() ==> !(#[trigger] rules[i] is Reference),
    ensures
        address_free(key_of(rules, a)->0),
{
    if rules.len() > 1 {
        let xs = components_of(rules, a);
        assert forall|i: int| 0 <= i < xs.len() implies !(#[trigger] xs[i] is Reference) by {
            assert(!(rules[i] is Reference));
        }
    } else {
        assert(!(rules[0] is Reference));
    }
}

/// Keyed by reference or by value, of two calls with the same content in every
/// argument the second finds what the first stored, wherever its arguments lie.
/// Both keys are to be settled in the store.
pub proof fn lemma_equal_contents_computed_once<R>(
    rules: Seq<KeyRule>,
    a: Seq<ArgumentView>,
    b: Seq<ArgumentView>,
    store: Map<u64, Seq<Slot<R>>>,
    v: R,
)
    requires
        rules.len() > 0,
        a.len() == rules.len(),
        equal_contents(a, b),
        forall|i: int| 0 <= i < rules.len() ==> !is_pointer_rule(#[trigger] rules[i]),
        key_of(rules, a) is Some ==> settled(store, key_of(rules, a)->0),
        key_of(rules, b) is Some ==> settled(store, key_of(rules, b)->0),
    ensures
        key_of(rules, a) is Some,
        key_of(rules, b) is Some,
        find(put(store, key_of(rules, a)->0, v), key_of(rules, b)->0) == Some(v),
{
    lemma_equal_contents_same_key(rules, a, b);
    lemma_same_content_shares_entry(store, key_of(rules, a)->0, key_of(rules, b)->0, v);
}

/// Keyed by pointer, two calls that differ in the address of one reference
/// argument have an entry each, whatever the contents: after both results are
/// stored, each is found under its own key.
pub proof fn lemma_other_address_computed_again<R>(
    rules: Seq<KeyRule>,
    a: Seq<ArgumentView>,
    b: Seq<ArgumentView>,
    i: int,
    store: Map<u64, Seq<Slot<R>>>,
    v: R,
    w: R,
)
    requires
        0 <= i < rules.len(),
        is_pointer_rule(rules[i]),
        a[i].address != b[i].address,
        forall|j: int| 0 <= j < rules.len() ==> !(#[trigger] rules[j] is Reference),
        key_of(rules, a) is Some,
        key_of(rules, b) is Some,
    ensures
        find(put(store, key_of(rules, a)->0, v), key_of(rules, b)->0) == find(
            store,
            key_of(rules, b)->0,
        ),
        find(
            put(put(store, key_of(rules, a)->0, v), key_of(rules, b)->0, w),
            key_of(rules, a)->0,
        ) == Some(v),
        find(
            put(put(store, key_of(rules, a)->0, v), key_of(rules, b)->0, w),
            key_of(rules, b)->0,
        ) == Some(w),
{
    let ka = key_of(rules, a)->0;
    let kb = key_of(rules, b)->0;
    lemma_other_address_other_key(rules, a, b, i);
    lemma_matches_symmetric(ka, kb);
    lemma_rules_without_reference(rules, a);
    lemma_rules_without_reference(rules, b);
    lemma_address_free_settled(store, ka);
    lemma_address_free_settled(store, kb);
    lemma_other_content_untouched(store, ka, kb, v);
    lemma_unequal_keys_two_entries(store, ka, kb, v, w);
}

/// Keyed by reference or by value, a call whose argument in one position has
/// other content, at another address, does not find what the first call stored:
/// it finds what it would have found before. Both keys are to be settled in the
/// store.
pub proof fn lemma_other_content_computed_again<R>(
    rules: Seq<KeyRule>,
    a: Seq<ArgumentView>,
    b: Seq<ArgumentView>,
    i: int,
    store: Map<u64, Seq<Slot<R>>>,
    v: R,
)
    requires
        0 <= i < rules.len(),
        !is_pointer_rule(rules[i]),
        a[i].content != b[i].content,
        rules[i] is Reference ==> a[i].address != b[i].address,
        key_of(rules, a) is Some,
        key_of(rules, b) is Some,
        settled(store, key_of(rules, a)->0),
        settled(store, key_of(rules, b)->0),
    ensures
        find(put(store, key_of(rules, a)->0, v), key_of(rules, b)->0) == find(
            store,
            key_of(rules, b)->0,
        ),
{
    let ka = key_of(rules, a)->0;
    let kb = key_of(rules, b)->0;
    lemma_other_content_other_key(rules, a, b, i);
    lemma_matches_symmetric(ka, kb);
    lemma_other_content_untouched(store, ka, kb, v);
}

} // verus!
