//! Reasoning about vectors used as maps keyed by text: uniqueness of keys,
//! the index a key lives at, and how both behave under update, append and
//! removal. The stores in this crate keep their rows in vectors; these
//! lemmas carry their keyed-lookup contracts.

use vstd::prelude::*;

verus! {

/// All keys distinct.
pub open spec fn keys_unique(keys: Seq<Seq<char>>) -> bool {
    forall|i: int, j: int| 0 <= i < j < keys.len() ==> keys[i] != keys[j]
}

/// Whether a key occurs.
pub open spec fn has_key(keys: Seq<Seq<char>>, k: Seq<char>) -> bool {
    exists|i: int| 0 <= i < keys.len() && keys[i] == k
}

/// An index at which the key occurs; unique when keys are unique.
pub open spec fn index_of(keys: Seq<Seq<char>>, k: Seq<char>) -> int {
    choose|i: int| 0 <= i < keys.len() && keys[i] == k
}

/// Under unique keys, the index of the key at position `i` is `i` itself.
pub proof fn lemma_index_of_at(keys: Seq<Seq<char>>, i: int)
    requires
        keys_unique(keys),
        0 <= i < keys.len(),
    ensures
        has_key(keys, keys[i]),
        index_of(keys, keys[i]) == i,
{
    assert(has_key(keys, keys[i]));
    let k = index_of(keys, keys[i]);
    if k < i {
        assert(keys[k] != keys[i]);
    } else if k > i {
        assert(keys[i] != keys[k]);
    }
}

/// A key that occurs nowhere has no index.
pub proof fn lemma_no_key(keys: Seq<Seq<char>>, k: Seq<char>)
    requires
        forall|i: int| 0 <= i < keys.len() ==> keys[i] != k,
    ensures
        !has_key(keys, k),
{
}

/// Appending a fresh key keeps keys unique; every key's index survives and
/// the new key lands at the end.
pub proof fn lemma_push_fresh(keys: Seq<Seq<char>>, k: Seq<char>)
    requires
        keys_unique(keys),
        !has_key(keys, k),
    ensures
        keys_unique(keys.push(k)),
        has_key(keys.push(k), k),
        index_of(keys.push(k), k) == keys.len(),
        forall|p: Seq<char>| p != k ==> #[trigger] has_key(keys.push(k), p) == has_key(keys, p),
        forall|p: Seq<char>|
            p != k && has_key(keys, p) ==> #[trigger] index_of(keys.push(k), p) == index_of(
                keys,
                p,
            ),
{
    let post = keys.push(k);
    assert forall|i: int, j: int| 0 <= i < j < post.len() implies post[i] != post[j] by {
        if j == keys.len() {
            assert(post[i] == keys[i]);
            assert(!(exists|m: int| 0 <= m < keys.len() && keys[m] == k));
        }
    }
    assert(post[keys.len() as int] == k);
    lemma_index_of_at(post, keys.len() as int);
    assert forall|p: Seq<char>| p != k implies #[trigger] has_key(post, p) == has_key(
        keys,
        p,
    ) by {
        if has_key(keys, p) {
            let i = index_of(keys, p);
            assert(post[i] == p);
        }
        if has_key(post, p) {
            let i = index_of(post, p);
            assert(i < keys.len());
            assert(keys[i] == p);
        }
    }
    assert forall|p: Seq<char>| p != k && has_key(keys, p) implies #[trigger] index_of(post, p)
        == index_of(keys, p) by {
        let i = index_of(keys, p);
        assert(post[i] == p);
        lemma_index_of_at(post, i);
    }
}

/// Removing the row at a key's index keeps the others unique and shifts
/// later indices down by one.
pub proof fn lemma_remove_at(keys: Seq<Seq<char>>, i: int)
    requires
        keys_unique(keys),
        0 <= i < keys.len(),
    ensures
        keys_unique(keys.remove(i)),
        !has_key(keys.remove(i), keys[i]),
        forall|p: Seq<char>|
            p != keys[i] ==> #[trigger] has_key(keys.remove(i), p) == has_key(keys, p),
        forall|p: Seq<char>|
            p != keys[i] && has_key(keys, p) && index_of(keys, p) < i ==> #[trigger] index_of(
                keys.remove(i),
                p,
            ) == index_of(keys, p),
        forall|p: Seq<char>|
            p != keys[i] && has_key(keys, p) && index_of(keys, p) > i ==> #[trigger] index_of(
                keys.remove(i),
                p,
            ) == index_of(keys, p) - 1,
{
    let post = keys.remove(i);
    assert forall|a: int, b: int| 0 <= a < b < post.len() implies post[a] != post[b] by {
        let a0 = if a < i { a } else { a + 1 };
        let b0 = if b < i { b } else { b + 1 };
        assert(post[a] == keys[a0]);
        assert(post[b] == keys[b0]);
    }
    assert forall|m: int| 0 <= m < post.len() implies post[m] != keys[i] by {
        let m0 = if m < i { m } else { m + 1 };
        assert(post[m] == keys[m0]);
        if m0 < i {
            assert(keys[m0] != keys[i]);
        } else {
            assert(keys[i] != keys[m0]);
        }
    }
    assert forall|p: Seq<char>| p != keys[i] implies #[trigger] has_key(post, p) == has_key(
        keys,
        p,
    ) by {
        if has_key(keys, p) {
            let m = index_of(keys, p);
            if m < i {
                assert(post[m] == p);
            } else {
                assert(m > i);
                assert(post[m - 1] == p);
            }
        }
        if has_key(post, p) {
            let m = index_of(post, p);
            let m0 = if m < i { m } else { m + 1 };
            assert(keys[m0] == p);
        }
    }
    assert forall|p: Seq<char>|
        p != keys[i] && has_key(keys, p) && index_of(keys, p) < i implies #[trigger] index_of(
        post,
        p,
    ) == index_of(keys, p) by {
        let m = index_of(keys, p);
        assert(post[m] == p);
        lemma_index_of_at(post, m);
    }
    assert forall|p: Seq<char>|
        p != keys[i] && has_key(keys, p) && index_of(keys, p) > i implies #[trigger] index_of(
        post,
        p,
    ) == index_of(keys, p) - 1 by {
        let m = index_of(keys, p);
        assert(post[m - 1] == p);
        lemma_index_of_at(post, m - 1);
    }
}

} // verus!
