//! String-keyed, string-valued mappings with unique keys.
//!
//! A dictionary is held as a vector of key/value pairs in insertion
//! order; its model is the corresponding sequence of character-sequence
//! pairs. Insertion is last-write-wins: an existing key keeps its place
//! and takes the new value, so keys stay unique and iteration order is
//! deterministic.

use vstd::prelude::*;

verus! {

/// The model of a dictionary: its key/value pairs, in order.
pub type Pairs = Seq<(Seq<char>, Seq<char>)>;

/// The first position of key `k` in `m` at or after `i`, or `-1` when
/// `k` has no entry there.
pub open spec fn find_from(m: Pairs, k: Seq<char>, i: int) -> int
    decreases m.len() - i,
{
    if i < 0 || i >= m.len() {
        -1
    } else if m[i].0 == k {
        i
    } else {
        find_from(m, k, i + 1)
    }
}

/// The value bound to `k` in `m`.
pub open spec fn dict_get(m: Pairs, k: Seq<char>) -> Option<Seq<char>> {
    let j = find_from(m, k, 0);
    if j >= 0 {
        Some(m[j].1)
    } else {
        None
    }
}

/// `m` with `k` bound to `v`: the entry with key `k` is replaced in
/// place, or a new entry is appended.
pub open spec fn dict_put(m: Pairs, k: Seq<char>, v: Seq<char>) -> Pairs {
    let j = find_from(m, k, 0);
    if j >= 0 {
        m.update(j, (k, v))
    } else {
        m.push((k, v))
    }
}

/// Where `find_from` lands: either nowhere, or on a position in range
/// that holds the key, with no earlier position holding it.
pub proof fn lemma_find_from_bounds(m: Pairs, k: Seq<char>, i: int)
    requires
        0 <= i,
    ensures
        find_from(m, k, i) == -1 || (i <= find_from(m, k, i) < m.len() && m[find_from(m, k, i)].0
            == k),
    decreases m.len() - i,
{
    if i < m.len() && m[i].0 != k {
        lemma_find_from_bounds(m, k, i + 1);
    }
}

/// Inserts `k = v` into the dictionary, last-write-wins.
pub fn dict_insert(m: &mut Vec<(String, String)>, k: String, v: String)
    ensures
        final(m).deep_view() == dict_put(old(m).deep_view(), k@, v@),
{
    let ghost m0 = old(m).deep_view();
    let ghost km = k@;
    let mut i: usize = 0;
    while i < m.len()
        invariant
            i <= m.len(),
            m.deep_view() == m0,
            m0 == old(m).deep_view(),
            find_from(m0, km, 0) == find_from(m0, km, i as int),
            km == k@,
        decreases m.len() - i,
    {
        if m[i].0 == k {
            proof {
                assert(m0[i as int].0 == km);
                assert(find_from(m0, km, i as int) == i);
            }
            m.set(i, (k, v));
            proof {
                assert(m.deep_view() =~= dict_put(m0, km, v@));
            }
            return ;
        }
        proof {
            assert(m0[i as int].0 != km);
        }
        i = i + 1;
    }
    proof {
        assert(find_from(m0, km, 0) == -1);
    }
    m.push((k, v));
    proof {
        assert(m.deep_view() =~= dict_put(m0, km, v@));
    }
}


proof fn lemma_find_update_same(m: Pairs, k: Seq<char>, v: Seq<char>, j: int, i: int)
    requires
        0 <= i <= j < m.len(),
        find_from(m, k, i) == j,
        m[j].0 == k,
    ensures
        find_from(m.update(j, (k, v)), k, i) == j,
    decreases j - i,
{
    if i < j {
        lemma_find_update_same(m, k, v, j, i + 1);
    }
}

proof fn lemma_find_push_new(m: Pairs, k: Seq<char>, v: Seq<char>, i: int)
    requires
        0 <= i <= m.len(),
        find_from(m, k, i) == -1,
    ensures
        find_from(m.push((k, v)), k, i) == m.len(),
    decreases m.len() - i,
{
    if i < m.len() {
        lemma_find_push_new(m, k, v, i + 1);
    }
}

proof fn lemma_find_update_other(m: Pairs, k: Seq<char>, v: Seq<char>, j: int, k2: Seq<char>, i: int)
    requires
        k2 != k,
        0 <= j < m.len(),
        m[j].0 == k,
        0 <= i,
    ensures
        find_from(m.update(j, (k, v)), k2, i) == find_from(m, k2, i),
    decreases m.len() - i,
{
    if i < m.len() {
        lemma_find_update_other(m, k, v, j, k2, i + 1);
    }
}

proof fn lemma_find_push_other(m: Pairs, k: Seq<char>, v: Seq<char>, k2: Seq<char>, i: int)
    requires
        k2 != k,
        0 <= i,
    ensures
        find_from(m.push((k, v)), k2, i) == find_from(m, k2, i),
    decreases m.len() + 1 - i,
{
    if i <= m.len() {
        lemma_find_push_other(m, k, v, k2, i + 1);
    }
}

/// After binding `k` to `v`, looking `k` up yields `v`.
pub proof fn lemma_dict_put_get(m: Pairs, k: Seq<char>, v: Seq<char>)
    ensures
        dict_get(dict_put(m, k, v), k) == Some(v),
{
    let j = find_from(m, k, 0);
    lemma_find_from_bounds(m, k, 0);
    if j >= 0 {
        lemma_find_update_same(m, k, v, j, 0);
    } else {
        lemma_find_push_new(m, k, v, 0);
    }
}

/// Binding `k` leaves every other key's value alone.
pub proof fn lemma_dict_put_get_other(m: Pairs, k: Seq<char>, v: Seq<char>, k2: Seq<char>)
    requires
        k2 != k,
    ensures
        dict_get(dict_put(m, k, v), k2) == dict_get(m, k2),
{
    let j = find_from(m, k, 0);
    lemma_find_from_bounds(m, k, 0);
    lemma_find_from_bounds(m, k2, 0);
    if j >= 0 {
        lemma_find_update_other(m, k, v, j, k2, 0);
        lemma_find_from_bounds(m.update(j, (k, v)), k2, 0);
    } else {
        lemma_find_push_other(m, k, v, k2, 0);
        lemma_find_from_bounds(m.push((k, v)), k2, 0);
    }
}

} // verus!
