//! Searching and ordering sequences: the vocabulary in which the directory's
//! queries are stated.

use vstd::prelude::*;

verus! {

/// `i` is the position of the first element of `s` that satisfies `p`.
pub open spec fn is_first<T>(s: Seq<T>, p: spec_fn(T) -> bool, i: int) -> bool {
    &&& 0 <= i < s.len()
    &&& p(s[i])
    &&& forall|j: int| 0 <= j < i ==> !#[trigger] p(s[j])
}

/// The position of the first element of `s` that satisfies `p`.
pub open spec fn first_index<T>(s: Seq<T>, p: spec_fn(T) -> bool) -> Option<int> {
    if exists|i: int| is_first(s, p, i) {
        Some(choose|i: int| is_first(s, p, i))
    } else {
        None
    }
}

/// The first element of `s` that satisfies `p`.
pub open spec fn first_match<T>(s: Seq<T>, p: spec_fn(T) -> bool) -> Option<T> {
    match first_index(s, p) {
        Some(i) => Some(s[i]),
        None => None,
    }
}

/// Whether some element of `s` satisfies `p`.
pub open spec fn any<T>(s: Seq<T>, p: spec_fn(T) -> bool) -> bool {
    exists|i: int| 0 <= i < s.len() && #[trigger] p(s[i])
}

/// A first position is the only one.
pub proof fn lemma_first_index_is<T>(s: Seq<T>, p: spec_fn(T) -> bool, i: int)
    requires
        is_first(s, p, i),
    ensures
        first_index(s, p) == Some(i),
        any(s, p),
{
    let k = choose|k: int| is_first(s, p, k);
    assert(is_first(s, p, k));
    if k < i {
        assert(!p(s[k]));
    } else if i < k {
        assert(!p(s[i]));
    }
}

/// Where no element satisfies `p`, there is no first one.
pub proof fn lemma_first_index_none<T>(s: Seq<T>, p: spec_fn(T) -> bool)
    requires
        forall|j: int| 0 <= j < s.len() ==> !#[trigger] p(s[j]),
    ensures
        first_index(s, p) is None,
        !any(s, p),
{
    if exists|i: int| is_first(s, p, i) {
        let i = choose|i: int| is_first(s, p, i);
        assert(p(s[i]));
    }
}

/// What `first_index` returns is a first position, or nothing satisfies `p`.
pub proof fn lemma_first_index<T>(s: Seq<T>, p: spec_fn(T) -> bool)
    ensures
        match first_index(s, p) {
            Some(i) => is_first(s, p, i),
            None => forall|j: int| 0 <= j < s.len() ==> !#[trigger] p(s[j]),
        },
        first_index(s, p) is Some <==> any(s, p),
{
    if exists|i: int| is_first(s, p, i) {
        let i = choose|i: int| is_first(s, p, i);
        assert(is_first(s, p, i));
        assert(p(s[i]));
    } else {
        assert forall|j: int| 0 <= j < s.len() implies !#[trigger] p(s[j]) by {
            if p(s[j]) {
                lemma_some_first(s, p, j);
            }
        }
    }
}

/// Where some element satisfies `p`, a first one does.
pub proof fn lemma_some_first<T>(s: Seq<T>, p: spec_fn(T) -> bool, j: int)
    requires
        0 <= j < s.len(),
        p(s[j]),
    ensures
        exists|i: int| is_first(s, p, i),
    decreases j,
{
    if exists|k: int| 0 <= k < j && #[trigger] p(s[k]) {
        let k = choose|k: int| 0 <= k < j && #[trigger] p(s[k]);
        lemma_some_first(s, p, k);
    } else {
        assert(is_first(s, p, j));
    }
}

/// Where an element ranks in a sequence that is kept with the largest key
/// first: behind every element whose key is at least as large.
pub open spec fn slot<T>(s: Seq<T>, key: spec_fn(T) -> int, at: int) -> int {
    match first_index(s, |t: T| key(t) < at) {
        Some(i) => i,
        None => s.len() as int,
    }
}

/// `sorted` with `x` entered at its slot.
pub open spec fn enter<T>(sorted: Seq<T>, key: spec_fn(T) -> int, x: T) -> Seq<T> {
    sorted.insert(slot(sorted, key, key(x)), x)
}

/// The elements of `s` with the largest key first; elements with equal keys
/// keep the order they have in `s`.
pub open spec fn largest_first<T>(s: Seq<T>, key: spec_fn(T) -> int) -> Seq<T>
    decreases s.len(),
{
    if s.len() == 0 {
        s
    } else {
        enter(largest_first(s.drop_last(), key), key, s.last())
    }
}

/// Whether keys never rise along `s`.
pub open spec fn is_falling<T>(s: Seq<T>, key: spec_fn(T) -> int) -> bool {
    forall|i: int, j: int| 0 <= i <= j < s.len() ==> key(#[trigger] s[i]) >= key(#[trigger] s[j])
}

/// Whether keys never fall along `s`.
pub open spec fn is_rising<T>(s: Seq<T>, key: spec_fn(T) -> int) -> bool {
    forall|i: int, j: int| 0 <= i <= j < s.len() ==> key(#[trigger] s[i]) <= key(#[trigger] s[j])
}

/// The slot lies within the sequence or at its end, no element before it
/// has a smaller key, and the element at it, if any, has.
pub proof fn lemma_slot<T>(s: Seq<T>, key: spec_fn(T) -> int, at: int)
    ensures
        0 <= slot(s, key, at) <= s.len(),
        forall|j: int| 0 <= j < slot(s, key, at) ==> key(#[trigger] s[j]) >= at,
        slot(s, key, at) < s.len() ==> key(s[slot(s, key, at)]) < at,
{
    let p = |t: T| key(t) < at;
    lemma_first_index(s, p);
    assert forall|j: int| 0 <= j < slot(s, key, at) implies key(#[trigger] s[j]) >= at by {
        assert(!p(s[j]));
    }
}

/// A position that separates the keys at least `at` from a smaller one is
/// the slot.
pub proof fn lemma_slot_is<T>(s: Seq<T>, key: spec_fn(T) -> int, at: int, k: int)
    requires
        0 <= k <= s.len(),
        forall|j: int| 0 <= j < k ==> key(#[trigger] s[j]) >= at,
        k < s.len() ==> key(s[k]) < at,
    ensures
        slot(s, key, at) == k,
{
    let p = |t: T| key(t) < at;
    if k < s.len() {
        assert(p(s[k]));
        assert forall|j: int| 0 <= j < k implies !#[trigger] p(s[j]) by {
            assert(key(s[j]) >= at);
        }
        assert(is_first(s, p, k));
        lemma_first_index_is(s, p, k);
    } else {
        assert forall|j: int| 0 <= j < s.len() implies !#[trigger] p(s[j]) by {
            assert(key(s[j]) >= at);
        }
        lemma_first_index_none(s, p);
    }
}

/// Entering an element keeps a falling sequence falling.
pub proof fn lemma_enter_keeps_falling<T>(sorted: Seq<T>, key: spec_fn(T) -> int, x: T)
    requires
        is_falling(sorted, key),
    ensures
        is_falling(enter(sorted, key, x), key),
        enter(sorted, key, x).len() == sorted.len() + 1,
        enter(sorted, key, x).to_multiset() == sorted.to_multiset().insert(x),
{
    let k = slot(sorted, key, key(x));
    lemma_slot(sorted, key, key(x));
    let out = enter(sorted, key, x);
    assert forall|i: int, j: int| 0 <= i <= j < out.len() implies key(#[trigger] out[i]) >= key(
        #[trigger] out[j],
    ) by {
        let a = if i < k { i } else { i - 1 };
        let b = if j < k { j } else { j - 1 };
        if i == k {
            if j > k {
                assert(out[j] == sorted[j - 1]);
                assert(key(sorted[k]) >= key(sorted[j - 1]));
            }
        } else if j == k {
            assert(out[i] == sorted[i]);
        } else {
            assert(out[i] == sorted[a]);
            assert(out[j] == sorted[b]);
        }
    }
    vstd::seq_lib::to_multiset_insert(sorted, k, x);
}

/// Ordering a sequence yields a falling sequence of the same elements.
pub proof fn lemma_largest_first<T>(s: Seq<T>, key: spec_fn(T) -> int)
    ensures
        is_falling(largest_first(s, key), key),
        largest_first(s, key).len() == s.len(),
        largest_first(s, key).to_multiset() == s.to_multiset(),
    decreases s.len(),
{
    if s.len() == 0 {
    } else {
        lemma_largest_first(s.drop_last(), key);
        lemma_enter_keeps_falling(largest_first(s.drop_last(), key), key, s.last());
        assert(s.drop_last().push(s.last()) =~= s);
        vstd::seq_lib::to_multiset_build(s.drop_last(), s.last());
    }
}

/// Where an element ranks in a sequence that is kept with the smallest key
/// first: behind every element whose key is at most as large.
pub open spec fn slot_rising<T>(s: Seq<T>, key: spec_fn(T) -> int, at: int) -> int {
    match first_index(s, |t: T| key(t) > at) {
        Some(i) => i,
        None => s.len() as int,
    }
}

/// A position that separates the keys at most `at` from a larger one is the
/// rising slot.
pub proof fn lemma_slot_rising_is<T>(s: Seq<T>, key: spec_fn(T) -> int, at: int, k: int)
    requires
        0 <= k <= s.len(),
        forall|j: int| 0 <= j < k ==> key(#[trigger] s[j]) <= at,
        k < s.len() ==> key(s[k]) > at,
    ensures
        slot_rising(s, key, at) == k,
{
    let p = |t: T| key(t) > at;
    if k < s.len() {
        assert(p(s[k]));
        assert forall|j: int| 0 <= j < k implies !#[trigger] p(s[j]) by {
            assert(key(s[j]) <= at);
        }
        assert(is_first(s, p, k));
        lemma_first_index_is(s, p, k);
    } else {
        assert forall|j: int| 0 <= j < s.len() implies !#[trigger] p(s[j]) by {
            assert(key(s[j]) <= at);
        }
        lemma_first_index_none(s, p);
    }
}

/// Entering an element at its rising slot keeps a rising sequence rising.
pub proof fn lemma_insert_keeps_rising<T>(s: Seq<T>, key: spec_fn(T) -> int, x: T)
    requires
        is_rising(s, key),
    ensures
        0 <= slot_rising(s, key, key(x)) <= s.len(),
        is_rising(s.insert(slot_rising(s, key, key(x)), x), key),
{
    let at = key(x);
    let p = |t: T| key(t) > at;
    lemma_first_index(s, p);
    let k = slot_rising(s, key, at);
    let out = s.insert(k, x);
    assert forall|j: int| 0 <= j < k implies key(#[trigger] s[j]) <= at by {
        assert(!p(s[j]));
    }
    if k < s.len() {
        assert(p(s[k]));
    }
    assert forall|i: int, j: int| 0 <= i <= j < out.len() implies key(#[trigger] out[i]) <= key(
        #[trigger] out[j],
    ) by {
        let a = if i < k { i } else { i - 1 };
        let b = if j < k { j } else { j - 1 };
        if i == k {
            if j > k {
                assert(out[j] == s[j - 1]);
                assert(key(s[k]) <= key(s[j - 1]));
            }
        } else if j == k {
            assert(out[i] == s[i]);
        } else {
            assert(out[i] == s[a]);
            assert(out[j] == s[b]);
        }
    }
}

/// Selecting from a sequence whose keys are bounded yields bounded keys,
/// where selecting keeps the key of each element.
pub proof fn lemma_filter_map_bounded<A, B>(
    s: Seq<A>,
    f: spec_fn(A) -> Option<B>,
    key: spec_fn(A) -> int,
    key_out: spec_fn(B) -> int,
    bound: int,
)
    requires
        forall|i: int| 0 <= i < s.len() ==> key(#[trigger] s[i]) <= bound,
        forall|a: A| (#[trigger] f(a)) matches Some(b) ==> key_out(b) == key(a),
    ensures
        forall|j: int|
            0 <= j < s.filter_map(f).len() ==> key_out(#[trigger] s.filter_map(f)[j]) <= bound,
    decreases s.len(),
{
    if s.len() > 0 {
        let rest = s.drop_last();
        assert forall|i: int| 0 <= i < rest.len() implies key(#[trigger] rest[i]) <= bound by {
            assert(rest[i] == s[i]);
        }
        lemma_filter_map_bounded(rest, f, key, key_out, bound);
        let last = s.last();
        assert(key(s[s.len() - 1]) <= bound);
        let picked = rest.filter_map(f);
        assert forall|j: int| 0 <= j < s.filter_map(f).len() implies key_out(
            #[trigger] s.filter_map(f)[j],
        ) <= bound by {
            match f(last) {
                Some(b) => {
                    assert(s.filter_map(f) == picked + seq![b]);
                    if j < picked.len() {
                        assert(s.filter_map(f)[j] == picked[j]);
                    } else {
                        assert(s.filter_map(f)[j] == b);
                    }
                },
                None => {
                    assert(s.filter_map(f) == picked);
                },
            }
        }
    }
}

/// Selecting from a rising sequence yields a rising sequence, where
/// selecting keeps the key of each element.
pub proof fn lemma_filter_map_keeps_rising<A, B>(
    s: Seq<A>,
    f: spec_fn(A) -> Option<B>,
    key: spec_fn(A) -> int,
    key_out: spec_fn(B) -> int,
)
    requires
        is_rising(s, key),
        forall|a: A| (#[trigger] f(a)) matches Some(b) ==> key_out(b) == key(a),
    ensures
        is_rising(s.filter_map(f), key_out),
    decreases s.len(),
{
    if s.len() > 0 {
        let rest = s.drop_last();
        let last = s.last();
        assert forall|i: int, j: int| 0 <= i <= j < rest.len() implies key(#[trigger] rest[i])
            <= key(#[trigger] rest[j]) by {
            assert(rest[i] == s[i]);
            assert(rest[j] == s[j]);
        }
        lemma_filter_map_keeps_rising(rest, f, key, key_out);
        assert forall|i: int| 0 <= i < rest.len() implies key(#[trigger] rest[i]) <= key(last) by {
            assert(rest[i] == s[i]);
            assert(last == s[s.len() - 1]);
        }
        lemma_filter_map_bounded(rest, f, key, key_out, key(last));
        let picked = rest.filter_map(f);
        let out = s.filter_map(f);
        assert forall|i: int, j: int| 0 <= i <= j < out.len() implies key_out(#[trigger] out[i])
            <= key_out(#[trigger] out[j]) by {
            match f(last) {
                Some(b) => {
                    assert(out == picked + seq![b]);
                    if j < picked.len() {
                        assert(out[i] == picked[i]);
                        assert(out[j] == picked[j]);
                    } else if i < picked.len() {
                        assert(out[i] == picked[i]);
                        assert(out[j] == b);
                    }
                },
                None => {
                    assert(out == picked);
                },
            }
        }
    }
}

/// An element that is not selected can be entered anywhere without
/// changing the selection.
pub proof fn lemma_filter_map_skips_insert<A, B>(
    s: Seq<A>,
    f: spec_fn(A) -> Option<B>,
    k: int,
    x: A,
)
    requires
        0 <= k <= s.len(),
        f(x) is None,
    ensures
        s.insert(k, x).filter_map(f) == s.filter_map(f),
    decreases s.len(),
{
    let out = s.insert(k, x);
    if k == s.len() {
        assert(out.drop_last() =~= s);
        assert(out.last() == x);
    } else {
        assert(out.last() == s.last());
        assert(out.drop_last() =~= s.drop_last().insert(k, x));
        lemma_filter_map_skips_insert(s.drop_last(), f, k, x);
    }
}

/// After an element has been entered, some element satisfies `p` exactly
/// if one did before or the new one does.
pub proof fn lemma_any_insert<T>(s: Seq<T>, p: spec_fn(T) -> bool, k: int, x: T)
    requires
        0 <= k <= s.len(),
    ensures
        any(s.insert(k, x), p) == (any(s, p) || p(x)),
{
    let out = s.insert(k, x);
    if any(s, p) {
        let i = choose|i: int| 0 <= i < s.len() && #[trigger] p(s[i]);
        let j = if i < k { i } else { i + 1 };
        assert(out[j] == s[i]);
        assert(p(out[j]));
    }
    if p(x) {
        assert(out[k] == x);
        assert(p(out[k]));
    }
    if any(out, p) {
        let j = choose|j: int| 0 <= j < out.len() && #[trigger] p(out[j]);
        if j < k {
            assert(out[j] == s[j]);
            assert(p(s[j]));
        } else if j > k {
            assert(out[j] == s[j - 1]);
            assert(p(s[j - 1]));
        }
    }
}

/// Replacing an element by one that satisfies `p` exactly if the old one
/// did leaves unchanged whether some element satisfies `p`.
pub proof fn lemma_any_update<T>(s: Seq<T>, p: spec_fn(T) -> bool, k: int, x: T)
    requires
        0 <= k < s.len(),
        p(x) == p(s[k]),
    ensures
        any(s.update(k, x), p) == any(s, p),
{
    let out = s.update(k, x);
    if any(s, p) {
        let i = choose|i: int| 0 <= i < s.len() && #[trigger] p(s[i]);
        if i == k {
            assert(p(out[k]));
        } else {
            assert(out[i] == s[i]);
            assert(p(out[i]));
        }
    }
    if any(out, p) {
        let j = choose|j: int| 0 <= j < out.len() && #[trigger] p(out[j]);
        if j == k {
            assert(p(s[k]));
        } else {
            assert(out[j] == s[j]);
            assert(p(s[j]));
        }
    }
}

/// `i` is the smallest number below `n` that satisfies `p`.
pub open spec fn is_least(n: int, p: spec_fn(int) -> bool, i: int) -> bool {
    &&& 0 <= i < n
    &&& p(i)
    &&& forall|j: int| 0 <= j < i ==> !#[trigger] p(j)
}

/// The smallest number below `n` that satisfies `p`.
pub open spec fn least(n: int, p: spec_fn(int) -> bool) -> Option<int> {
    if exists|i: int| is_least(n, p, i) {
        Some(choose|i: int| is_least(n, p, i))
    } else {
        None
    }
}

/// A smallest number is the only one.
pub proof fn lemma_least_is(n: int, p: spec_fn(int) -> bool, i: int)
    requires
        is_least(n, p, i),
    ensures
        least(n, p) == Some(i),
{
    let k = choose|k: int| is_least(n, p, k);
    assert(is_least(n, p, k));
    if k < i {
        assert(!p(k));
    } else if i < k {
        assert(!p(i));
    }
}

/// Where no number below `n` satisfies `p`, there is no smallest one.
pub proof fn lemma_least_none(n: int, p: spec_fn(int) -> bool)
    requires
        forall|j: int| 0 <= j < n ==> !#[trigger] p(j),
    ensures
        least(n, p) is None,
{
    if exists|i: int| is_least(n, p, i) {
        let i = choose|i: int| is_least(n, p, i);
        assert(p(i));
    }
}

/// `i` is the position of the last element of `s` that satisfies `p`.
pub open spec fn is_last<T>(s: Seq<T>, p: spec_fn(T) -> bool, i: int) -> bool {
    &&& 0 <= i < s.len()
    &&& p(s[i])
    &&& forall|j: int| i < j < s.len() ==> !#[trigger] p(s[j])
}

/// The position of the last element of `s` that satisfies `p`.
pub open spec fn last_index<T>(s: Seq<T>, p: spec_fn(T) -> bool) -> Option<int> {
    if exists|i: int| is_last(s, p, i) {
        Some(choose|i: int| is_last(s, p, i))
    } else {
        None
    }
}

/// A last position is the only one.
pub proof fn lemma_last_index_is<T>(s: Seq<T>, p: spec_fn(T) -> bool, i: int)
    requires
        is_last(s, p, i),
    ensures
        last_index(s, p) == Some(i),
{
    let k = choose|k: int| is_last(s, p, k);
    assert(is_last(s, p, k));
    if k < i {
        assert(!p(s[i]));
    } else if i < k {
        assert(!p(s[k]));
    }
}

/// Where no element satisfies `p`, there is no last one.
pub proof fn lemma_last_index_none<T>(s: Seq<T>, p: spec_fn(T) -> bool)
    requires
        forall|j: int| 0 <= j < s.len() ==> !#[trigger] p(s[j]),
    ensures
        last_index(s, p) is None,
{
    if exists|i: int| is_last(s, p, i) {
        let i = choose|i: int| is_last(s, p, i);
        assert(p(s[i]));
    }
}

/// An element that is selected enters the selection when it enters the
/// sequence: the selection gains what was selected of it, at some place,
/// and is otherwise as before.
pub proof fn lemma_filter_map_gains_insert<A, B>(
    s: Seq<A>,
    f: spec_fn(A) -> Option<B>,
    k: int,
    x: A,
    y: B,
)
    requires
        0 <= k <= s.len(),
        f(x) == Some(y),
    ensures
        exists|p: int|
            0 <= p <= s.filter_map(f).len() && s.insert(k, x).filter_map(f)
                == #[trigger] s.filter_map(f).insert(p, y),
    decreases s.len(),
{
    let out = s.insert(k, x);
    let picked = s.filter_map(f);
    if k == s.len() {
        assert(out.drop_last() =~= s);
        assert(out.last() == x);
        assert(out.filter_map(f) =~= picked.insert(picked.len() as int, y));
    } else {
        let rest = s.drop_last();
        assert(out.last() == s.last());
        assert(out.drop_last() =~= rest.insert(k, x));
        lemma_filter_map_gains_insert(rest, f, k, x, y);
        let p = choose|p: int|
            0 <= p <= rest.filter_map(f).len() && rest.insert(k, x).filter_map(f)
                == #[trigger] rest.filter_map(f).insert(p, y);
        match f(s.last()) {
            Some(z) => {
                assert(picked == rest.filter_map(f) + seq![z]);
                assert(out.filter_map(f) =~= picked.insert(p, y));
            },
            None => {
                assert(picked == rest.filter_map(f));
                assert(out.filter_map(f) =~= picked.insert(p, y));
            },
        }
    }
}

/// What is selected of an element of a sequence is in the selection.
pub proof fn lemma_filter_map_has<A, B>(s: Seq<A>, f: spec_fn(A) -> Option<B>, x: A, y: B)
    requires
        s.contains(x),
        f(x) == Some(y),
    ensures
        s.filter_map(f).contains(y),
    decreases s.len(),
{
    let i = choose|i: int| 0 <= i < s.len() && s[i] == x;
    let rest = s.drop_last();
    let picked = rest.filter_map(f);
    if i == s.len() - 1 {
        assert(s.filter_map(f) == picked + seq![y]);
        assert(s.filter_map(f)[picked.len() as int] == y);
    } else {
        assert(rest[i] == x);
        lemma_filter_map_has(rest, f, x, y);
        let j = choose|j: int| 0 <= j < picked.len() && picked[j] == y;
        match f(s.last()) {
            Some(z) => {
                assert(s.filter_map(f) == picked + seq![z]);
                assert(s.filter_map(f)[j] == y);
            },
            None => {
                assert(s.filter_map(f) == picked);
            },
        }
    }
}

} // verus!
