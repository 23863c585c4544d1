//! Stable ordering of rows by an integer key.
//!
//! `sort_by` says what it is to list rows in ascending key order with rows
//! of equal key left in their former order. `rank` computes that order for a
//! column of keys, ascending or descending.

use vstd::prelude::*;
use vstd::seq_lib::*;

verus! {

/// `s` with `x` put behind the last row whose key is at most that of `x`,
/// looking from the end.
pub open spec fn insert_by<T>(s: Seq<T>, x: T, key: spec_fn(T) -> int) -> Seq<T>
    decreases s.len(),
{
    if s.len() == 0 {
        seq![x]
    } else if key(s.last()) <= key(x) {
        s.push(x)
    } else {
        insert_by(s.drop_last(), x, key).push(s.last())
    }
}

/// The rows of `s` in ascending order of `key`; rows of equal key keep the
/// order they have in `s`.
pub open spec fn sort_by<T>(s: Seq<T>, key: spec_fn(T) -> int) -> Seq<T>
    decreases s.len(),
{
    if s.len() == 0 {
        s
    } else {
        insert_by(sort_by(s.drop_last(), key), s.last(), key)
    }
}

/// Whether the keys of `s` never go down.
pub open spec fn sorted_by<T>(s: Seq<T>, key: spec_fn(T) -> int) -> bool {
    forall|i: int, j: int| 0 <= i <= j < s.len() ==> key(#[trigger] s[i]) <= key(#[trigger] s[j])
}

/// Where `insert_by` puts `x`.
pub open spec fn insert_point<T>(s: Seq<T>, x: T, key: spec_fn(T) -> int) -> int
    decreases s.len(),
{
    if s.len() == 0 {
        0
    } else if key(s.last()) <= key(x) {
        s.len() as int
    } else {
        insert_point(s.drop_last(), x, key)
    }
}

/// The place `p` behind every row that must stay before `x` and before every
/// row that must come after it is where `insert_by` puts `x`.
pub proof fn lemma_insert_at<T>(s: Seq<T>, x: T, key: spec_fn(T) -> int, p: int)
    requires
        0 <= p <= s.len(),
        forall|j: int| p <= j < s.len() ==> key(#[trigger] s[j]) > key(x),
        p == 0 || key(s[p - 1]) <= key(x),
    ensures
        insert_by(s, x, key) == s.insert(p, x),
    decreases s.len(),
{
    if s.len() == 0 {
        assert(s.insert(p, x) =~= seq![x]);
    } else if p == s.len() {
        assert(s.insert(p, x) =~= s.push(x));
    } else {
        assert(key(s.last()) > key(x));
        lemma_insert_at(s.drop_last(), x, key, p);
        assert(s.drop_last().insert(p, x).push(s.last()) =~= s.insert(p, x));
    }
}

/// `insert_point` lies where `lemma_insert_at` asks.
pub proof fn lemma_insert_point<T>(s: Seq<T>, x: T, key: spec_fn(T) -> int)
    ensures
        0 <= insert_point(s, x, key) <= s.len(),
        forall|j: int|
            insert_point(s, x, key) <= j < s.len() ==> key(#[trigger] s[j]) > key(x),
        insert_point(s, x, key) == 0 || key(s[insert_point(s, x, key) - 1]) <= key(x),
        insert_by(s, x, key) == s.insert(insert_point(s, x, key), x),
    decreases s.len(),
{
    if s.len() == 0 {
    } else if key(s.last()) <= key(x) {
    } else {
        lemma_insert_point(s.drop_last(), x, key);
        let p = insert_point(s.drop_last(), x, key);
        assert forall|j: int| p <= j < s.len() implies key(#[trigger] s[j]) > key(x) by {
            if j < s.len() - 1 {
                assert(s.drop_last()[j] == s[j]);
            }
        }
        if p > 0 {
            assert(s.drop_last()[p - 1] == s[p - 1]);
        }
    }
    lemma_insert_at(s, x, key, insert_point(s, x, key));
}

/// Inserting into a sorted run leaves it sorted, one longer, and holding the
/// former rows and the new one.
pub proof fn lemma_insert_by_sorted<T>(s: Seq<T>, x: T, key: spec_fn(T) -> int)
    requires
        sorted_by(s, key),
    ensures
        sorted_by(insert_by(s, x, key), key),
{
    lemma_insert_point(s, x, key);
    let p = insert_point(s, x, key);
    let r = s.insert(p, x);
    assert forall|i: int, j: int| 0 <= i <= j < r.len() implies key(#[trigger] r[i]) <= key(
        #[trigger] r[j],
    ) by {
        if i < p {
            assert(r[i] == s[i]);
            assert(key(s[i]) <= key(s[p - 1]));
        } else if i > p {
            assert(r[i] == s[i - 1]);
        }
        if j < p {
            assert(r[j] == s[j]);
        } else if j > p {
            assert(r[j] == s[j - 1]);
        }
    }
}

/// Inserting adds exactly one row.
pub proof fn lemma_insert_by_multiset<T>(s: Seq<T>, x: T, key: spec_fn(T) -> int)
    ensures
        insert_by(s, x, key).len() == s.len() + 1,
        insert_by(s, x, key).to_multiset() == s.to_multiset().insert(x),
{
    lemma_insert_point(s, x, key);
    to_multiset_insert(s, insert_point(s, x, key), x);
}

/// `sort_by` gives a sorted run.
pub proof fn lemma_sort_by_sorted<T>(s: Seq<T>, key: spec_fn(T) -> int)
    ensures
        sorted_by(sort_by(s, key), key),
    decreases s.len(),
{
    if s.len() > 0 {
        lemma_sort_by_sorted(s.drop_last(), key);
        lemma_insert_by_sorted(sort_by(s.drop_last(), key), s.last(), key);
    }
}

/// `sort_by` keeps every row, each as often as it was there.
pub proof fn lemma_sort_by_permutes<T>(s: Seq<T>, key: spec_fn(T) -> int)
    ensures
        sort_by(s, key).len() == s.len(),
        sort_by(s, key).to_multiset() == s.to_multiset(),
    decreases s.len(),
{
    if s.len() > 0 {
        lemma_sort_by_permutes(s.drop_last(), key);
        lemma_insert_by_multiset(sort_by(s.drop_last(), key), s.last(), key);
        to_multiset_build(s.drop_last(), s.last());
        assert(s.drop_last().push(s.last()) =~= s);
    }
}

/// A run that is sorted already is left as it is.
pub proof fn lemma_sort_by_of_sorted<T>(s: Seq<T>, key: spec_fn(T) -> int)
    requires
        sorted_by(s, key),
    ensures
        sort_by(s, key) == s,
    decreases s.len(),
{
    if s.len() > 0 {
        let front = s.drop_last();
        assert forall|i: int, j: int| 0 <= i <= j < front.len() implies key(#[trigger] front[i])
            <= key(#[trigger] front[j]) by {
            assert(front[i] == s[i] && front[j] == s[j]);
        }
        lemma_sort_by_of_sorted(front, key);
        if front.len() > 0 {
            assert(front.last() == s[s.len() - 2]);
            assert(key(s[s.len() - 2]) <= key(s[s.len() - 1]));
        }
        assert(front.push(s.last()) =~= s);
    }
}

/// Inserting and then mapping is mapping and then inserting, where the two
/// keys agree on the rows at hand.
pub proof fn lemma_insert_by_map<A, B>(
    s: Seq<A>,
    x: A,
    f: spec_fn(A) -> B,
    key_a: spec_fn(A) -> int,
    key_b: spec_fn(B) -> int,
)
    requires
        forall|i: int| 0 <= i < s.len() ==> key_a(#[trigger] s[i]) == key_b(f(s[i])),
        key_a(x) == key_b(f(x)),
    ensures
        insert_by(s, x, key_a).map_values(f) == insert_by(s.map_values(f), f(x), key_b),
    decreases s.len(),
{
    let t = s.map_values(f);
    if s.len() == 0 {
        assert(seq![x].map_values(f) =~= seq![f(x)]);
    } else {
        assert(t.last() == f(s.last()));
        assert(t.drop_last() =~= s.drop_last().map_values(f));
        if key_a(s.last()) <= key_a(x) {
            assert(s.push(x).map_values(f) =~= t.push(f(x)));
        } else {
            assert forall|i: int| 0 <= i < s.drop_last().len() implies key_a(
                #[trigger] s.drop_last()[i],
            ) == key_b(f(s.drop_last()[i])) by {
                assert(s.drop_last()[i] == s[i]);
            }
            lemma_insert_by_map(s.drop_last(), x, f, key_a, key_b);
            let inner = insert_by(s.drop_last(), x, key_a);
            assert(inner.push(s.last()).map_values(f) =~= inner.map_values(f).push(
                f(s.last()),
            ));
        }
    }
}

/// Sorting and then mapping is mapping and then sorting, where the two keys
/// agree on the rows at hand.
pub proof fn lemma_sort_by_map<A, B>(
    s: Seq<A>,
    f: spec_fn(A) -> B,
    key_a: spec_fn(A) -> int,
    key_b: spec_fn(B) -> int,
)
    requires
        forall|i: int| 0 <= i < s.len() ==> key_a(#[trigger] s[i]) == key_b(f(s[i])),
    ensures
        sort_by(s, key_a).map_values(f) == sort_by(s.map_values(f), key_b),
    decreases s.len(),
{
    let t = s.map_values(f);
    if s.len() == 0 {
        assert(s.map_values(f) =~= Seq::<B>::empty());
        assert(sort_by(s, key_a).map_values(f) =~= Seq::<B>::empty());
    } else {
        let front = s.drop_last();
        assert(t.last() == f(s.last()));
        assert(t.drop_last() =~= front.map_values(f));
        assert forall|i: int| 0 <= i < front.len() implies key_a(#[trigger] front[i]) == key_b(
            f(front[i]),
        ) by {
            assert(front[i] == s[i]);
        }
        lemma_sort_by_map(front, f, key_a, key_b);
        let sorted_front = sort_by(front, key_a);
        lemma_sorted_rows_come_from(front, key_a);
        assert forall|i: int| 0 <= i < sorted_front.len() implies key_a(
            #[trigger] sorted_front[i],
        ) == key_b(f(sorted_front[i])) by {
            let k = choose|k: int| 0 <= k < front.len() && front[k] == sorted_front[i];
            assert(front[k] == sorted_front[i]);
        }
        lemma_insert_by_map(sorted_front, s.last(), f, key_a, key_b);
    }
}

/// Every row of the sorted run is a row of the run that was sorted.
pub proof fn lemma_sorted_rows_come_from<T>(s: Seq<T>, key: spec_fn(T) -> int)
    ensures
        forall|i: int|
            0 <= i < sort_by(s, key).len() ==> exists|k: int|
                0 <= k < s.len() && s[k] == #[trigger] sort_by(s, key)[i],
    decreases s.len(),
{
    if s.len() > 0 {
        let front = s.drop_last();
        let sorted_front = sort_by(front, key);
        lemma_sorted_rows_come_from(front, key);
        lemma_insert_point(sorted_front, s.last(), key);
        let p = insert_point(sorted_front, s.last(), key);
        let r = sort_by(s, key);
        assert(r == sorted_front.insert(p, s.last()));
        assert forall|i: int| 0 <= i < r.len() implies exists|k: int|
            0 <= k < s.len() && s[k] == #[trigger] r[i] by {
            if i == p {
                assert(s[s.len() - 1] == r[i]);
            } else {
                let j = if i < p {
                    i
                } else {
                    i - 1
                };
                assert(r[i] == sorted_front[j]);
                let k = choose|k: int| 0 <= k < front.len() && front[k] == sorted_front[j];
                assert(s[k] == r[i]);
            }
        }
    }
}

/// The positions `0` to `n - 1`, in order.
pub open spec fn positions(n: nat) -> Seq<int> {
    Seq::new(n, |i: int| i)
}

/// `s` read in the order that `order` gives its positions.
pub open spec fn arranged<T>(s: Seq<T>, order: Seq<int>) -> Seq<T> {
    order.map_values(|i: int| s[i])
}

/// Sorting the positions of `s` by the key of the row at each, and reading
/// `s` in that order, sorts `s`.
pub proof fn lemma_arranged_sorts<T>(s: Seq<T>, key: spec_fn(T) -> int, rank_key: spec_fn(int) -> int)
    requires
        forall|i: int| 0 <= i < s.len() ==> #[trigger] rank_key(i) == key(s[i]),
    ensures
        arranged(s, sort_by(positions(s.len()), rank_key)) == sort_by(s, key),
{
    let f = |i: int| s[i];
    let p = positions(s.len());
    assert forall|i: int| 0 <= i < p.len() implies rank_key(#[trigger] p[i]) == key(f(p[i])) by {
        assert(p[i] == i);
    }
    lemma_sort_by_map(p, f, rank_key, key);
    assert(p.map_values(f) =~= s);
}

/// The key by which `rank` orders position `i` of a column: the entry
/// itself, or its negative when the order is descending.
pub open spec fn rank_key(keys: Seq<i64>, descending: bool) -> spec_fn(int) -> int {
    |i: int|
        if descending {
            -(keys[i] as int)
        } else {
            keys[i] as int
        }
}

/// A run of machine positions as integers.
pub open spec fn as_positions(order: Seq<usize>) -> Seq<int> {
    order.map_values(|i: usize| i as int)
}

/// Whether position `a` must come after position `b`.
fn ranks_after(keys: &Vec<i64>, a: usize, b: usize, descending: bool) -> (r: bool)
    requires
        a < keys@.len(),
        b < keys@.len(),
    ensures
        r == (rank_key(keys@, descending)(a as int) > rank_key(keys@, descending)(b as int)),
{
    if descending {
        keys[a] < keys[b]
    } else {
        keys[a] > keys[b]
    }
}

/// The positions of `keys` in ascending order of their entries, or in
/// descending order when `descending` is set. Positions with equal entries
/// come in ascending order of position.
pub fn rank(keys: &Vec<i64>, descending: bool) -> (order: Vec<usize>)
    ensures
        order@.len() == keys@.len(),
        forall|k: int| 0 <= k < order@.len() ==> #[trigger] order@[k] < keys@.len(),
        as_positions(order@) == sort_by(positions(keys@.len()), rank_key(keys@, descending)),
{
    let ghost key = rank_key(keys@, descending);
    let n: usize = keys.len();
    let mut order: Vec<usize> = Vec::new();
    let mut i: usize = 0;
    while i < n
        invariant
            i <= n,
            n == keys@.len(),
            key == rank_key(keys@, descending),
            order@.len() == i,
            forall|k: int| 0 <= k < order@.len() ==> #[trigger] order@[k] < i,
            as_positions(order@) == sort_by(positions(i as nat), key),
        decreases n - i,
    {
        let ghost before = as_positions(order@);
        let mut p: usize = order.len();
        while p > 0 && ranks_after(keys, order[p - 1], i, descending)
            invariant
                p <= order@.len(),
                i < n,
                n == keys@.len(),
                key == rank_key(keys@, descending),
                before == as_positions(order@),
                forall|k: int| 0 <= k < order@.len() ==> #[trigger] order@[k] < i,
                forall|j: int| p <= j < before.len() ==> key(#[trigger] before[j]) > key(i as int),
            decreases p,
        {
            p = p - 1;
        }
        order.insert(p, i);
        proof {
            assert(p == 0 || key(before[p - 1]) <= key(i as int));
            lemma_insert_at(before, i as int, key, p as int);
            assert(as_positions(order@) =~= before.insert(p as int, i as int));
            assert(positions((i + 1) as nat).drop_last() =~= positions(i as nat));
            assert(positions((i + 1) as nat).last() == i as int);
        }
        i = i + 1;
    }
    order
}

} // verus!
