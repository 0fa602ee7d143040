//! Listings in pages: a selection of an ascending sequence, read a page at a
//! time with the key of the last entry seen as the next cursor.

use vstd::prelude::*;

verus! {

/// Whether the keys of `s` strictly ascend.
pub open spec fn is_ascending<T>(s: Seq<T>, key: spec_fn(T) -> int) -> bool {
    forall|i: int, j: int| 0 <= i < j < s.len() ==> key(s[i]) < key(s[j])
}

/// Whether the keys of those entries of `s` that `wanted` holds of strictly
/// ascend.
pub open spec fn is_ascending_among<T>(
    s: Seq<T>,
    wanted: spec_fn(T) -> bool,
    key: spec_fn(T) -> int,
) -> bool {
    forall|i: int, j: int|
        0 <= i < j < s.len() && wanted(s[i]) && wanted(s[j]) ==> key(s[i]) < key(s[j])
}

/// The first `n` entries of `s`, or all of `s` where it has no more.
pub open spec fn first_entries<T>(s: Seq<T>, n: nat) -> Seq<T> {
    if s.len() <= n {
        s
    } else {
        s.take(n as int)
    }
}

/// Whether `key` lies behind the cursor; without a cursor every key does.
pub open spec fn is_behind(key: int, cursor: Option<int>) -> bool {
    match cursor {
        Some(c) => key > c,
        None => true,
    }
}

/// The entries that `wanted` holds of and whose key lies behind the cursor.
pub open spec fn behind_cursor<T>(
    wanted: spec_fn(T) -> bool,
    key: spec_fn(T) -> int,
    cursor: Option<int>,
) -> spec_fn(T) -> bool {
    |x: T| wanted(x) && is_behind(key(x), cursor)
}

/// Two tests that agree on every entry select the same entries.
pub proof fn lemma_filter_by_equal_tests<T>(s: Seq<T>, p: spec_fn(T) -> bool, q: spec_fn(T) -> bool)
    requires
        forall|x: T| #[trigger] p(x) == q(x),
    ensures
        s.filter(p) == s.filter(q),
{
    assert(p =~= q);
}

/// Selecting keeps the order of what it selects.
pub proof fn lemma_filter_keeps_ascending<T>(
    s: Seq<T>,
    key: spec_fn(T) -> int,
    p: spec_fn(T) -> bool,
)
    requires
        is_ascending_among(s, p, key),
    ensures
        is_ascending(s.filter(p), key),
        forall|j: int|
            0 <= j < s.filter(p).len() ==> s.contains(#[trigger] s.filter(p)[j]),
    decreases s.len(),
{
    reveal(Seq::filter);
    if s.len() > 0 {
        let front = s.drop_last();
        lemma_filter_keeps_ascending(front, key, p);
        let kept = front.filter(p);
        assert forall|j: int| 0 <= j < kept.len() implies s.contains(#[trigger] kept[j]) && (p(
            s.last(),
        ) ==> key(kept[j]) < key(s.last())) by {
            assert(front.contains(kept[j]));
            front.lemma_filter_pred(p, j);
            let k = choose|k: int| 0 <= k < front.len() && front[k] == kept[j];
            assert(s[k] == kept[j]);
        }
        if p(s.last()) {
            assert(s[s.len() - 1] == s.last());
        }
    }
}

/// Selecting nothing but entries that the test fails gives nothing.
pub proof fn lemma_filter_none<T>(s: Seq<T>, p: spec_fn(T) -> bool)
    requires
        forall|i: int| 0 <= i < s.len() ==> !p(#[trigger] s[i]),
    ensures
        s.filter(p).len() == 0,
    decreases s.len(),
{
    reveal(Seq::filter);
    if s.len() > 0 {
        lemma_filter_none(s.drop_last(), p);
    }
}

/// Selecting everything gives everything.
pub proof fn lemma_filter_all<T>(s: Seq<T>, p: spec_fn(T) -> bool)
    requires
        forall|i: int| 0 <= i < s.len() ==> p(#[trigger] s[i]),
    ensures
        s.filter(p) == s,
    decreases s.len(),
{
    reveal(Seq::filter);
    if s.len() > 0 {
        lemma_filter_all(s.drop_last(), p);
        assert(s.drop_last().push(s.last()) =~= s);
    }
}

/// In an ascending sequence, the entries with a key above that of entry
/// `k - 1` are the entries from `k` on.
pub proof fn lemma_above_key_is_skip<T>(s: Seq<T>, key: spec_fn(T) -> int, k: int)
    requires
        is_ascending(s, key),
        0 < k <= s.len(),
    ensures
        s.filter(|x: T| key(x) > key(s[k - 1])) == s.skip(k),
{
    let above = |x: T| key(x) > key(s[k - 1]);
    let head = s.take(k);
    let tail = s.skip(k);
    assert(s =~= head + tail);
    Seq::filter_distributes_over_add(head, tail, above);
    assert forall|i: int| 0 <= i < head.len() implies !above(#[trigger] head[i]) by {
        assert(head[i] == s[i]);
    }
    lemma_filter_none(head, above);
    assert forall|i: int| 0 <= i < tail.len() implies above(#[trigger] tail[i]) by {
        assert(tail[i] == s[i + k]);
    }
    lemma_filter_all(tail, above);
    assert(head.filter(above) + tail.filter(above) =~= tail);
}

/// Selecting twice is selecting by both tests at once.
pub proof fn lemma_filter_twice<T>(s: Seq<T>, p: spec_fn(T) -> bool, q: spec_fn(T) -> bool)
    ensures
        s.filter(p).filter(q) == s.filter(|x: T| p(x) && q(x)),
    decreases s.len(),
{
    reveal(Seq::filter);
    let both = |x: T| p(x) && q(x);
    if s.len() > 0 {
        let front = s.drop_last();
        lemma_filter_twice(front, p, q);
        if p(s.last()) {
            front.filter(p).lemma_filter_push(s.last(), q);
        }
    }
}

/// A page and what lies behind its last entry make up, in order and with
/// nothing twice or missing, all that lay behind the page's own cursor.
pub proof fn lemma_page_then_rest<T>(
    s: Seq<T>,
    wanted: spec_fn(T) -> bool,
    key: spec_fn(T) -> int,
    cursor: Option<int>,
    size: nat,
)
    requires
        is_ascending_among(s, wanted, key),
        size > 0,
        s.filter(behind_cursor(wanted, key, cursor)).len() > 0,
    ensures
        ({
            let all = s.filter(behind_cursor(wanted, key, cursor));
            let page = first_entries(all, size);
            &&& 0 < page.len() <= size
            &&& is_ascending(all, key)
            &&& all == page + s.filter(behind_cursor(wanted, key, Some(key(page.last()))))
        }),
{
    let here = behind_cursor(wanted, key, cursor);
    let all = s.filter(here);
    let page = first_entries(all, size);
    let k = page.len() as int;
    let last = key(page.last());
    let above = |x: T| key(x) > key(all[k - 1]);
    let next = behind_cursor(wanted, key, Some(last));
    lemma_filter_keeps_ascending(s, key, here);
    assert(page.last() == all[k - 1]);
    lemma_above_key_is_skip(all, key, k);
    lemma_filter_twice(s, here, above);
    s.lemma_filter_pred(here, k - 1);
    lemma_filter_by_equal_tests(s, |x: T| here(x) && above(x), next);
    assert(all =~= page + all.skip(k));
}

/// A page that is not full holds all that lay behind its cursor.
pub proof fn lemma_short_page_is_all<T>(s: Seq<T>, size: nat)
    requires
        first_entries(s, size).len() < size,
    ensures
        first_entries(s, size) == s,
{
}

} // verus!
