//! Searching a sequence for the first element with a property.

use vstd::prelude::*;

use crate::text::{lemma_text_less_transitive, lemma_text_order, text_less};

verus! {

/// Where the first element with property `p` stands in `s`, or the length of
/// `s` if no element has it.
pub open spec fn first_index<T>(s: Seq<T>, p: spec_fn(T) -> bool) -> int
    decreases s.len(),
{
    if s.len() == 0 {
        0
    } else if p(s[0]) {
        0
    } else {
        1 + first_index(s.drop_first(), p)
    }
}

/// Where the last element with property `p` stands in `s`, or -1 if no
/// element has it.
pub open spec fn last_index<T>(s: Seq<T>, p: spec_fn(T) -> bool) -> int
    decreases s.len(),
{
    if s.len() == 0 {
        -1
    } else if p(s.last()) {
        s.len() - 1
    } else {
        last_index(s.drop_last(), p)
    }
}

/// `first_index` gives an index whose element has the property, and before
/// which no element has it.
pub proof fn lemma_first_index<T>(s: Seq<T>, p: spec_fn(T) -> bool)
    ensures
        0 <= first_index(s, p) <= s.len(),
        first_index(s, p) < s.len() ==> p(s[first_index(s, p)]),
        forall|j: int| 0 <= j < first_index(s, p) ==> !p(#[trigger] s[j]),
    decreases s.len(),
{
    if s.len() > 0 && !p(s[0]) {
        let rest = s.drop_first();
        lemma_first_index(rest, p);
        assert forall|j: int| 0 <= j < first_index(s, p) implies !p(#[trigger] s[j]) by {
            if j > 0 {
                assert(s[j] == rest[j - 1]);
            }
        }
    }
}

/// An index whose element has the property, and before which no element has
/// it, is `first_index`.
pub proof fn lemma_first_index_is<T>(s: Seq<T>, p: spec_fn(T) -> bool, i: int)
    requires
        0 <= i <= s.len(),
        i < s.len() ==> p(s[i]),
        forall|j: int| 0 <= j < i ==> !p(#[trigger] s[j]),
    ensures
        first_index(s, p) == i,
{
    lemma_first_index(s, p);
}

/// `last_index` gives an index whose element has the property, and after
/// which no element has it.
pub proof fn lemma_last_index<T>(s: Seq<T>, p: spec_fn(T) -> bool)
    ensures
        -1 <= last_index(s, p) < s.len(),
        last_index(s, p) >= 0 ==> p(s[last_index(s, p)]),
        forall|j: int| last_index(s, p) < j < s.len() ==> !p(#[trigger] s[j]),
    decreases s.len(),
{
    if s.len() > 0 && !p(s.last()) {
        let rest = s.drop_last();
        lemma_last_index(rest, p);
        assert forall|j: int| last_index(s, p) < j < s.len() implies !p(#[trigger] s[j]) by {
            if j < s.len() - 1 {
                assert(s[j] == rest[j]);
            }
        }
    }
}

/// An index whose element has the property, and after which no element has
/// it, is `last_index`.
pub proof fn lemma_last_index_is<T>(s: Seq<T>, p: spec_fn(T) -> bool, i: int)
    requires
        -1 <= i < s.len(),
        i >= 0 ==> p(s[i]),
        forall|j: int| i < j < s.len() ==> !p(#[trigger] s[j]),
    ensures
        last_index(s, p) == i,
{
    lemma_last_index(s, p);
}

/// The first element with property `p`, if there is one.
pub open spec fn found<T>(s: Seq<T>, p: spec_fn(T) -> bool) -> Option<T> {
    let i = first_index(s, p);
    if i < s.len() {
        Some(s[i])
    } else {
        None
    }
}

/// `s` with `x` in place of the first element with property `p`, or with `x`
/// last if no element has it.
pub open spec fn put<T>(s: Seq<T>, p: spec_fn(T) -> bool, x: T) -> Seq<T> {
    let i = first_index(s, p);
    if i < s.len() {
        s.update(i, x)
    } else {
        s.push(x)
    }
}

/// After `x` is put under a property that it has, it is the first element
/// with that property.
pub proof fn lemma_put_found<T>(s: Seq<T>, p: spec_fn(T) -> bool, x: T)
    requires
        p(x),
    ensures
        found(put(s, p, x), p) == Some(x),
{
    lemma_first_index(s, p);
    let i = first_index(s, p);
    let after = put(s, p, x);
    assert forall|j: int| 0 <= j < i implies !p(#[trigger] after[j]) by {
        assert(after[j] == s[j]);
    }
    lemma_first_index_is(after, p, i);
}

/// Putting `x` under `p` does not change what is found under a property `q`
/// that `x` lacks and that no element with property `p` has.
pub proof fn lemma_put_other<T>(s: Seq<T>, p: spec_fn(T) -> bool, x: T, q: spec_fn(T) -> bool)
    requires
        !q(x),
        forall|y: T| #[trigger] p(y) ==> !q(y),
    ensures
        found(put(s, p, x), q) == found(s, q),
{
    lemma_first_index(s, p);
    lemma_first_index(s, q);
    let i = first_index(s, p);
    let k = first_index(s, q);
    let after = put(s, p, x);
    assert forall|j: int| 0 <= j < k implies !q(#[trigger] after[j]) by {
        if j != i {
            assert(after[j] == s[j]);
        }
    }
    if k < s.len() {
        assert(k != i);
        assert(after[k] == s[k]);
        lemma_first_index_is(after, q, k);
    } else {
        assert forall|j: int| 0 <= j < after.len() implies !q(#[trigger] after[j]) by {
            if j != i && j < s.len() {
                assert(after[j] == s[j]);
            }
        }
        lemma_first_index_is(after, q, after.len() as int);
    }
}

/// The elements whose key is `k`.
pub open spec fn keyed<T>(key: spec_fn(T) -> Seq<char>, k: Seq<char>) -> spec_fn(T) -> bool {
    |x: T| key(x) == k
}

/// The elements whose key does not come before `k`.
pub open spec fn not_before<T>(key: spec_fn(T) -> Seq<char>, k: Seq<char>) -> spec_fn(T) -> bool {
    |x: T| !text_less(key(x), k)
}

/// The keys rise strictly: the sequence is in the order of its keys and no
/// key occurs twice.
pub open spec fn sorted_by_key<T>(s: Seq<T>, key: spec_fn(T) -> Seq<char>) -> bool {
    forall|i: int, j: int| 0 <= i < j < s.len() ==> text_less(key(#[trigger] s[i]), key(#[trigger] s[j]))
}

/// The sequence with `x` at its place in the order of the keys: in place of
/// the element with the same key, or between its neighbours.
pub open spec fn placed<T>(s: Seq<T>, key: spec_fn(T) -> Seq<char>, x: T) -> Seq<T> {
    let i = first_index(s, not_before(key, key(x)));
    if i < s.len() && key(s[i]) == key(x) {
        s.update(i, x)
    } else {
        s.insert(i, x)
    }
}

/// Placing an element keeps the keys rising strictly.
pub proof fn lemma_placed_sorted<T>(s: Seq<T>, key: spec_fn(T) -> Seq<char>, x: T)
    requires
        sorted_by_key(s, key),
    ensures
        sorted_by_key(placed(s, key, x), key),
{
    let k = key(x);
    let pred = not_before(key, k);
    lemma_first_index(s, pred);
    let i = first_index(s, pred);
    let after = placed(s, key, x);
    assert forall|a: int| 0 <= a < i implies text_less(key(#[trigger] s[a]), k) by {
        assert(!pred(s[a]));
    }
    assert forall|b: int| i <= b < s.len() && key(#[trigger] s[b]) != k implies text_less(
        k,
        key(s[b]),
    ) by {
        if b == i {
            assert(pred(s[i]));
            lemma_text_order(key(s[i]), k);
        } else {
            assert(pred(s[i]));
            lemma_text_order(key(s[i]), k);
            assert(text_less(key(s[i]), key(s[b])));
            if key(s[i]) != k {
                lemma_text_less_transitive(k, key(s[i]), key(s[b]));
            }
        }
    }
    assert forall|a: int, b: int| 0 <= a < b < after.len() implies text_less(
        key(#[trigger] after[a]),
        key(#[trigger] after[b]),
    ) by {
        if i < s.len() && key(s[i]) == k {
            // x stands in place of s[i]
            if a == i {
                assert(after[b] == s[b]);
                assert(text_less(key(s[i]), key(s[b])));
            } else if b == i {
                assert(after[a] == s[a]);
                assert(text_less(key(s[a]), key(s[i])));
            } else {
                assert(after[a] == s[a] && after[b] == s[b]);
            }
        } else {
            // x stands at i, what stood from i on stands one further
            if a == i {
                assert(after[b] == s[b - 1]);
                assert(key(s[b - 1]) != k) by {
                    if b - 1 > i {
                        assert(text_less(key(s[i]), key(s[b - 1])));
                        assert(pred(s[i]));
                        lemma_text_order(key(s[i]), k);
                        lemma_text_order(key(s[b - 1]), k);
                        if key(s[b - 1]) == k {
                            lemma_text_order(key(s[i]), key(s[b - 1]));
                        }
                    }
                }
            } else if b == i {
                assert(after[a] == s[a]);
            } else if b < i {
                assert(after[a] == s[a] && after[b] == s[b]);
            } else if a < i {
                assert(after[a] == s[a] && after[b] == s[b - 1]);
            } else {
                assert(after[a] == s[a - 1] && after[b] == s[b - 1]);
            }
        }
    }
}

/// In a sequence whose keys rise strictly, the element at an index is the one
/// found under its key.
pub proof fn lemma_sorted_found<T>(s: Seq<T>, key: spec_fn(T) -> Seq<char>, i: int)
    requires
        sorted_by_key(s, key),
        0 <= i < s.len(),
    ensures
        found(s, keyed(key, key(s[i]))) == Some(s[i]),
{
    let k = key(s[i]);
    assert forall|j: int| 0 <= j < i implies !keyed(key, k)(#[trigger] s[j]) by {
        assert(text_less(key(s[j]), key(s[i])));
        lemma_text_order(key(s[j]), k);
    }
    assert(keyed(key, k)(s[i]));
    lemma_first_index_is(s, keyed(key, k), i);
}

/// In a sequence whose keys rise strictly, nothing is found under a key that
/// no element has.
pub proof fn lemma_absent_not_found<T>(s: Seq<T>, key: spec_fn(T) -> Seq<char>, k: Seq<char>)
    requires
        forall|j: int| 0 <= j < s.len() ==> key(#[trigger] s[j]) != k,
    ensures
        found(s, keyed(key, k)) is None,
{
    assert forall|j: int| 0 <= j < s.len() implies !keyed(key, k)(#[trigger] s[j]) by {}
    lemma_first_index_is(s, keyed(key, k), s.len() as int);
}

/// After an element is placed it is found under its key, and what is found
/// under any other key is what was found before.
pub proof fn lemma_placed_found<T>(s: Seq<T>, key: spec_fn(T) -> Seq<char>, x: T, other: Seq<char>)
    requires
        sorted_by_key(s, key),
    ensures
        found(placed(s, key, x), keyed(key, key(x))) == Some(x),
        other != key(x) ==> found(placed(s, key, x), keyed(key, other)) == found(
            s,
            keyed(key, other),
        ),
{
    let k = key(x);
    let pred = not_before(key, k);
    lemma_first_index(s, pred);
    let i = first_index(s, pred);
    let after = placed(s, key, x);
    lemma_placed_sorted(s, key, x);
    assert(after[i] == x);
    lemma_sorted_found(after, key, i);
    if other != k {
        lemma_first_index(s, keyed(key, other));
        let j = first_index(s, keyed(key, other));
        if j < s.len() {
            assert(keyed(key, other)(s[j]));
            let moved = if i < s.len() && key(s[i]) == k {
                j
            } else if j < i {
                j
            } else {
                j + 1
            };
            assert(after[moved] == s[j]);
            lemma_sorted_found(after, key, moved);
        } else {
            assert forall|m: int| 0 <= m < after.len() implies key(#[trigger] after[m]) != other by {
                if m != i {
                    let back = if i < s.len() && key(s[i]) == k {
                        m
                    } else if m < i {
                        m
                    } else {
                        m - 1
                    };
                    assert(after[m] == s[back]);
                    assert(!keyed(key, other)(s[back]));
                }
            }
            lemma_absent_not_found(after, key, other);
        }
    }
}

} // verus!
