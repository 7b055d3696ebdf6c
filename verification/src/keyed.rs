//! Sequences of keyed entries read as finite maps.
//!
//! The stores of this crate keep their entries in a vector in which no key
//! occurs twice. This module says which map such a sequence stands for and
//! how the map follows the sequence when an entry is added, replaced or
//! taken out. It also says what it takes to keep the keys in order.

use crate::text::{
    lemma_text_lt_irreflexive, lemma_text_lt_total, lemma_text_lt_transitive, text_lt,
};
use vstd::prelude::*;

verus! {

/// A key and what is filed under it.
pub type Keyed<V> = (Seq<char>, V);

/// Whether the entry at `i` is filed under `key`.
pub open spec fn key_at<V>(s: Seq<Keyed<V>>, key: Seq<char>, i: int) -> bool {
    0 <= i < s.len() && s[i].0 == key
}

/// No key occurs twice.
pub open spec fn distinct_keys<V>(s: Seq<Keyed<V>>) -> bool {
    forall|i: int, j: int| 0 <= i < j < s.len() ==> s[i].0 != s[j].0
}

/// The map that the entries stand for.
pub open spec fn as_map<V>(s: Seq<Keyed<V>>) -> Map<Seq<char>, V> {
    Map::new(
        |key: Seq<char>| exists|i: int| key_at(s, key, i),
        |key: Seq<char>| s[choose|i: int| key_at(s, key, i)].1,
    )
}

/// An entry is found under its key.
pub proof fn lemma_lookup<V>(s: Seq<Keyed<V>>, i: int)
    requires
        distinct_keys(s),
        0 <= i < s.len(),
    ensures
        as_map(s).contains_key(s[i].0),
        as_map(s)[s[i].0] == s[i].1,
{
    let key = s[i].0;
    assert(key_at(s, key, i));
    let j = choose|j: int| key_at(s, key, j);
    assert(j == i);
}

/// A key of the map is the key of some entry.
pub proof fn lemma_index_of<V>(s: Seq<Keyed<V>>, key: Seq<char>) -> (i: int)
    requires
        distinct_keys(s),
        as_map(s).contains_key(key),
    ensures
        key_at(s, key, i),
        as_map(s)[key] == s[i].1,
{
    let i = choose|i: int| key_at(s, key, i);
    lemma_lookup(s, i);
    i
}

/// Adding an entry under a new key adds it to the map.
pub proof fn lemma_push<V>(s: Seq<Keyed<V>>, entry: Keyed<V>)
    requires
        distinct_keys(s),
        !as_map(s).contains_key(entry.0),
    ensures
        distinct_keys(s.push(entry)),
        as_map(s.push(entry)) == as_map(s).insert(entry.0, entry.1),
{
    let t = s.push(entry);
    assert forall|i: int, j: int| 0 <= i < j < t.len() implies t[i].0 != t[j].0 by {
        if j == s.len() {
            assert(!key_at(s, entry.0, i));
        }
    }
    let a = as_map(t);
    let b = as_map(s).insert(entry.0, entry.1);
    assert forall|key: Seq<char>| #[trigger] a.contains_key(key) implies b.contains_key(key) by {
        let i = choose|i: int| key_at(t, key, i);
        if i < s.len() {
            assert(key_at(s, key, i));
        }
    }
    assert forall|key: Seq<char>| #[trigger] b.contains_key(key) implies a.contains_key(key) && a[key]
        == b[key] by {
        if key == entry.0 {
            lemma_lookup(t, s.len() as int);
        } else {
            let i = choose|i: int| key_at(s, key, i);
            assert(key_at(t, key, i));
            lemma_lookup(t, i);
            lemma_lookup(s, i);
        }
    }
    assert(a =~= b);
}

/// Taking an entry out takes its key out of the map.
pub proof fn lemma_remove<V>(s: Seq<Keyed<V>>, i: int)
    requires
        distinct_keys(s),
        0 <= i < s.len(),
    ensures
        distinct_keys(s.remove(i)),
        as_map(s.remove(i)) == as_map(s).remove(s[i].0),
{
    let t = s.remove(i);
    let gone = s[i].0;
    assert forall|x: int, y: int| 0 <= x < y < t.len() implies t[x].0 != t[y].0 by {
        let sx = if x < i { x } else { x + 1 };
        let sy = if y < i { y } else { y + 1 };
        assert(t[x] == s[sx]);
        assert(t[y] == s[sy]);
    }
    let a = as_map(t);
    let b = as_map(s).remove(gone);
    assert forall|key: Seq<char>| #[trigger] a.contains_key(key) implies b.contains_key(key) && a[key]
        == b[key] by {
        let k = choose|k: int| key_at(t, key, k);
        let sk = if k < i { k } else { k + 1 };
        assert(t[k] == s[sk]);
        assert(key_at(s, key, sk));
        lemma_lookup(s, sk);
        lemma_lookup(t, k);
    }
    assert forall|key: Seq<char>| #[trigger] b.contains_key(key) implies a.contains_key(key) by {
        let k = choose|k: int| key_at(s, key, k);
        let tk = if k < i { k } else { k - 1 };
        assert(t[tk] == s[k]);
        assert(key_at(t, key, tk));
    }
    assert(a =~= b);
}

/// Replacing what is filed under a key replaces it in the map.
pub proof fn lemma_update<V>(s: Seq<Keyed<V>>, i: int, value: V)
    requires
        distinct_keys(s),
        0 <= i < s.len(),
    ensures
        distinct_keys(s.update(i, (s[i].0, value))),
        as_map(s.update(i, (s[i].0, value))) == as_map(s).insert(s[i].0, value),
{
    let key = s[i].0;
    let t = s.update(i, (key, value));
    assert forall|x: int, y: int| 0 <= x < y < t.len() implies t[x].0 != t[y].0 by {
        assert(t[x].0 == s[x].0);
        assert(t[y].0 == s[y].0);
    }
    let a = as_map(t);
    let b = as_map(s).insert(key, value);
    assert forall|k: Seq<char>| #[trigger] a.contains_key(k) implies b.contains_key(k) && a[k]
        == b[k] by {
        let x = choose|x: int| key_at(t, k, x);
        assert(t[x].0 == s[x].0);
        assert(key_at(s, k, x));
        lemma_lookup(s, x);
        lemma_lookup(t, x);
    }
    assert forall|k: Seq<char>| #[trigger] b.contains_key(k) implies a.contains_key(k) by {
        if k == key {
            assert(key_at(t, k, i));
        } else {
            let x = choose|x: int| key_at(s, k, x);
            assert(t[x].0 == s[x].0);
            assert(key_at(t, k, x));
        }
    }
    assert(a =~= b);
}

/// The map has as many keys as there are entries.
pub proof fn lemma_len<V>(s: Seq<Keyed<V>>)
    requires
        distinct_keys(s),
    ensures
        as_map(s).dom().finite(),
        as_map(s).len() == s.len(),
    decreases s.len(),
{
    if s.len() == 0 {
        assert(as_map(s).dom() =~= Set::<Seq<char>>::empty());
    } else {
        let last = s.len() - 1;
        let t = s.remove(last);
        lemma_remove(s, last);
        lemma_lookup(s, last);
        lemma_len(t);
        let gone = s[last].0;
        assert(as_map(s).dom() =~= as_map(t).dom().insert(gone));
        assert(!as_map(t).dom().contains(gone));
    }
}

/// Putting an entry under a new key into any place adds it to the map.
pub proof fn lemma_insert<V>(s: Seq<Keyed<V>>, at: int, entry: Keyed<V>)
    requires
        distinct_keys(s),
        0 <= at <= s.len(),
        !as_map(s).contains_key(entry.0),
    ensures
        distinct_keys(s.insert(at, entry)),
        as_map(s.insert(at, entry)) == as_map(s).insert(entry.0, entry.1),
{
    let t = s.insert(at, entry);
    assert forall|k: int| 0 <= k < s.len() implies #[trigger] s[k] == t[if k < at {
        k
    } else {
        k + 1
    }] by {}
    assert forall|x: int, y: int| 0 <= x < y < t.len() implies t[x].0 != t[y].0 by {
        let sx = if x < at { x } else { x - 1 };
        let sy = if y < at { y } else { y - 1 };
        if x == at {
            assert(t[y] == s[sy]);
            assert(!key_at(s, entry.0, sy));
        } else if y == at {
            assert(t[x] == s[sx]);
            assert(!key_at(s, entry.0, sx));
        } else {
            assert(t[x] == s[sx]);
            assert(t[y] == s[sy]);
        }
    }
    let a = as_map(t);
    let b = as_map(s).insert(entry.0, entry.1);
    assert forall|key: Seq<char>| #[trigger] a.contains_key(key) implies b.contains_key(key) by {
        let k = choose|k: int| key_at(t, key, k);
        if k != at {
            let sk = if k < at { k } else { k - 1 };
            assert(t[k] == s[sk]);
            assert(key_at(s, key, sk));
        }
    }
    assert forall|key: Seq<char>| #[trigger] b.contains_key(key) implies a.contains_key(key) && a[key]
        == b[key] by {
        if key == entry.0 {
            assert(t[at] == entry);
            lemma_lookup(t, at);
        } else {
            let k = choose|k: int| key_at(s, key, k);
            let tk = if k < at { k } else { k + 1 };
            assert(t[tk] == s[k]);
            assert(key_at(t, key, tk));
            lemma_lookup(t, tk);
            lemma_lookup(s, k);
        }
    }
    assert(a =~= b);
}

/// The keys stand in the order of texts, each before the next.
pub open spec fn sorted_keys<V>(s: Seq<Keyed<V>>) -> bool {
    forall|i: int, j: int| 0 <= i < j < s.len() ==> text_lt(s[i].0, s[j].0)
}

/// Keys that stand in order are distinct.
pub proof fn lemma_sorted_is_distinct<V>(s: Seq<Keyed<V>>)
    requires
        sorted_keys(s),
    ensures
        distinct_keys(s),
{
    assert forall|i: int, j: int| 0 <= i < j < s.len() implies s[i].0 != s[j].0 by {
        lemma_text_lt_irreflexive(s[i].0);
    }
}

/// Whether `at` is the place of a new key: behind all smaller keys and
/// before all greater ones.
pub open spec fn place_of<V>(s: Seq<Keyed<V>>, key: Seq<char>, at: int) -> bool {
    &&& 0 <= at <= s.len()
    &&& forall|k: int| 0 <= k < at ==> text_lt(#[trigger] s[k].0, key)
    &&& forall|k: int| at <= k < s.len() ==> text_lt(key, #[trigger] s[k].0)
}

/// A key that has a place among keys in order is not one of them.
pub proof fn lemma_place_is_free<V>(s: Seq<Keyed<V>>, key: Seq<char>, at: int)
    requires
        place_of(s, key, at),
    ensures
        !as_map(s).contains_key(key),
{
    if as_map(s).contains_key(key) {
        let k = choose|k: int| key_at(s, key, k);
        lemma_text_lt_irreflexive(key);
        if k < at {
            assert(text_lt(s[k].0, key));
        } else {
            assert(text_lt(key, s[k].0));
        }
    }
}

/// An entry that is put into the place of its key keeps the keys in order.
pub proof fn lemma_sorted_insert<V>(s: Seq<Keyed<V>>, at: int, entry: Keyed<V>)
    requires
        sorted_keys(s),
        place_of(s, entry.0, at),
    ensures
        sorted_keys(s.insert(at, entry)),
{
    let t = s.insert(at, entry);
    assert forall|x: int, y: int| 0 <= x < y < t.len() implies text_lt(t[x].0, t[y].0) by {
        let sx = if x < at { x } else { x - 1 };
        let sy = if y < at { y } else { y - 1 };
        if x == at {
            assert(t[y] == s[sy]);
        } else if y == at {
            assert(t[x] == s[sx]);
        } else {
            assert(t[x] == s[sx]);
            assert(t[y] == s[sy]);
        }
    }
}

/// In a sequence in order, the entries from the first key that is not
/// smaller than `key` on all have greater keys, unless that first key is
/// `key` itself.
pub proof fn lemma_sorted_tail<V>(s: Seq<Keyed<V>>, at: int, key: Seq<char>)
    requires
        sorted_keys(s),
        0 <= at < s.len(),
        !text_lt(s[at].0, key),
        s[at].0 != key,
    ensures
        forall|k: int| at <= k < s.len() ==> text_lt(key, #[trigger] s[k].0),
{
    lemma_text_lt_total(s[at].0, key);
    assert forall|k: int| at <= k < s.len() implies text_lt(key, #[trigger] s[k].0) by {
        if k > at {
            lemma_text_lt_transitive(key, s[at].0, s[k].0);
        }
    }
}

} // verus!
