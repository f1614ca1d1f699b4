use vstd::prelude::*;

verus! {

// The account store keeps each record kind in a sequence addressed by a
// deterministic key: the key material itself stands in for the derived
// address, so distinct keys can never collide. These helpers give every
// table the same key-addressed reading of its backing sequence.

/// No two entries of `s` share a key.
pub open spec fn distinct_keys<T, K>(s: Seq<T>, key: spec_fn(T) -> K) -> bool {
    forall|i: int, j: int|
        0 <= i < s.len() && 0 <= j < s.len() && i != j ==> key(s[i]) != key(s[j])
}

/// Some entry of `s` carries the key `k`.
pub open spec fn has_key<T, K>(s: Seq<T>, key: spec_fn(T) -> K, k: K) -> bool {
    exists|i: int| 0 <= i < s.len() && key(s[i]) == k
}

/// The entry of `s` at key `k`, if any.
pub open spec fn lookup<T, K>(s: Seq<T>, key: spec_fn(T) -> K, k: K) -> Option<T> {
    if has_key(s, key, k) {
        Some(s[choose|i: int| 0 <= i < s.len() && key(s[i]) == k])
    } else {
        None
    }
}

/// With distinct keys, the entry at index `i` is what lookup finds
/// under that entry's key.
pub proof fn lemma_lookup_at<T, K>(s: Seq<T>, key: spec_fn(T) -> K, i: int)
    requires
        distinct_keys(s, key),
        0 <= i < s.len(),
    ensures
        lookup(s, key, key(s[i])) == Some(s[i]),
{
    assert(has_key(s, key, key(s[i])));
    let j = choose|j: int| 0 <= j < s.len() && key(s[j]) == key(s[i]);
    assert(j == i);
}

/// Appending an entry under a fresh key keeps the keys distinct, stores the
/// entry under its key, and leaves every other key's lookup unchanged.
pub proof fn lemma_lookup_push<T, K>(s: Seq<T>, key: spec_fn(T) -> K, r: T)
    requires
        distinct_keys(s, key),
        !has_key(s, key, key(r)),
    ensures
        distinct_keys(s.push(r), key),
        lookup(s.push(r), key, key(r)) == Some(r),
        forall|k: K| k != key(r) ==> lookup(s.push(r), key, k) == lookup(s, key, k),
{
    let s2 = s.push(r);
    assert forall|i: int, j: int|
        0 <= i < s2.len() && 0 <= j < s2.len() && i != j implies key(s2[i]) != key(s2[j]) by {
        if i < s.len() && j < s.len() {
            assert(key(s[i]) != key(s[j]));
        } else if i == s.len() {
            assert(key(s2[j]) != key(r));
        } else if j == s.len() {
            assert(key(s2[i]) != key(r));
        }
    }
    assert(key(s2[s.len() as int]) == key(r));
    assert(has_key(s2, key, key(r)));
    lemma_lookup_at(s2, key, s.len() as int);
    assert forall|k: K| k != key(r) implies lookup(s2, key, k) == lookup(s, key, k) by {
        if has_key(s, key, k) {
            let i = choose|i: int| 0 <= i < s.len() && key(s[i]) == k;
            assert(key(s2[i]) == k);
            lemma_lookup_at(s, key, i);
            lemma_lookup_at(s2, key, i);
        } else {
            assert forall|i: int| 0 <= i < s2.len() implies key(s2[i]) != k by {
                if i < s.len() {
                    assert(key(s[i]) != k);
                }
            }
            assert(!has_key(s2, key, k));
        }
    }
}

/// Overwriting the entry at index `i` with one carrying the same key keeps
/// the keys distinct, stores the new entry under that key, and leaves every
/// other key's lookup unchanged.
pub proof fn lemma_lookup_update<T, K>(s: Seq<T>, key: spec_fn(T) -> K, i: int, r: T)
    requires
        distinct_keys(s, key),
        0 <= i < s.len(),
        key(r) == key(s[i]),
    ensures
        distinct_keys(s.update(i, r), key),
        lookup(s.update(i, r), key, key(r)) == Some(r),
        forall|k: K| k != key(r) ==> lookup(s.update(i, r), key, k) == lookup(s, key, k),
{
    let s2 = s.update(i, r);
    assert forall|p: int, q: int|
        0 <= p < s2.len() && 0 <= q < s2.len() && p != q implies key(s2[p]) != key(s2[q]) by {
        assert(key(s2[p]) == if p == i { key(s[i]) } else { key(s[p]) });
        assert(key(s2[q]) == if q == i { key(s[i]) } else { key(s[q]) });
        assert(key(s[p]) != key(s[q]));
    }
    lemma_lookup_at(s2, key, i);
    assert forall|k: K| k != key(r) implies lookup(s2, key, k) == lookup(s, key, k) by {
        if has_key(s, key, k) {
            let p = choose|p: int| 0 <= p < s.len() && key(s[p]) == k;
            assert(p != i);
            assert(key(s2[p]) == k);
            lemma_lookup_at(s, key, p);
            lemma_lookup_at(s2, key, p);
        } else {
            assert forall|p: int| 0 <= p < s2.len() implies key(s2[p]) != k by {
                if p != i {
                    assert(key(s[p]) != k);
                }
            }
            assert(!has_key(s2, key, k));
        }
    }
}

/// A failed index scan refutes `has_key`.
pub proof fn lemma_no_key<T, K>(s: Seq<T>, key: spec_fn(T) -> K, k: K)
    requires
        forall|i: int| 0 <= i < s.len() ==> key(s[i]) != k,
    ensures
        !has_key(s, key, k),
{
}

} // verus!
