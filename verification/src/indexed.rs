//! Values kept by a `u32` index, in ascending index order.
//!
//! A streamed response numbers its content blocks; the blocks are gathered here
//! and handed out in the order of their numbers.

use vstd::prelude::*;

verus! {

/// The indices of `s` ascend strictly.
pub open spec fn keys_sorted<T>(s: Seq<(u32, T)>) -> bool {
    forall|i: int, j: int| 0 <= i < j < s.len() ==> (#[trigger] s[i]).0 < (#[trigger] s[j]).0
}

/// `p` splits `s` at index `k`: the entries before `p` have smaller indices, the
/// others do not.
pub open spec fn splits_at<T>(s: Seq<(u32, T)>, k: u32, p: int) -> bool {
    &&& 0 <= p <= s.len()
    &&& forall|i: int| 0 <= i < p ==> (#[trigger] s[i]).0 < k
    &&& forall|i: int| p <= i < s.len() ==> (#[trigger] s[i]).0 >= k
}

/// The position where index `k` stands or would stand in `s`.
pub open spec fn key_position<T>(s: Seq<(u32, T)>, k: u32) -> int {
    choose|p: int| splits_at(s, k, p)
}

/// Whether `s` holds an entry with index `k`.
pub open spec fn has_key<T>(s: Seq<(u32, T)>, k: u32) -> bool {
    exists|i: int| 0 <= i < s.len() && (#[trigger] s[i]).0 == k
}

/// `s` with the entry for index `k` set to `v`: replaced when present, otherwise
/// added in index order.
pub open spec fn with_entry<T>(s: Seq<(u32, T)>, k: u32, v: T) -> Seq<(u32, T)> {
    let p = key_position(s, k);
    if p < s.len() && s[p].0 == k {
        s.update(p, (k, v))
    } else {
        s.insert(p, (k, v))
    }
}

/// The values of `s`, in index order.
pub open spec fn values_of<T>(s: Seq<(u32, T)>) -> Seq<T> {
    s.map_values(|e: (u32, T)| e.1)
}

/// Two split positions of the same index coincide.
pub proof fn lemma_split_unique<T>(s: Seq<(u32, T)>, k: u32, p: int, q: int)
    requires
        splits_at(s, k, p),
        splits_at(s, k, q),
    ensures
        p == q,
{
    if p < q {
        assert(s[p].0 >= k);
        assert(s[p].0 < k);
    } else if q < p {
        assert(s[q].0 >= k);
        assert(s[q].0 < k);
    }
}

/// In a sorted sequence the entry at the split position of `k` has index `k`
/// exactly when some entry does.
pub proof fn lemma_has_key_at_position<T>(s: Seq<(u32, T)>, k: u32, p: int)
    requires
        keys_sorted(s),
        splits_at(s, k, p),
    ensures
        has_key(s, k) <==> (p < s.len() && s[p].0 == k),
{
    if has_key(s, k) {
        let i = choose|i: int| 0 <= i < s.len() && (#[trigger] s[i]).0 == k;
        if i < p {
            assert(s[i].0 < k);
        } else if i > p {
            assert(s[p].0 < s[i].0);
        }
    }
}

/// Finds the split position of `k` in a sorted sequence.
pub fn find_position<T>(s: &Vec<(u32, T)>, k: u32) -> (res: usize)
    requires
        keys_sorted(s@),
    ensures
        splits_at(s@, k, res as int),
        res as int == key_position(s@, k),
        has_key(s@, k) <==> (res < s@.len() && s@[res as int].0 == k),
{
    let n = s.len();
    let mut i: usize = 0;
    while i < n && s[i].0 < k
        invariant
            n == s@.len(),
            i <= n,
            keys_sorted(s@),
            forall|j: int| 0 <= j < i ==> (#[trigger] s@[j]).0 < k,
        decreases n - i,
    {
        i = i + 1;
    }
    proof {
        assert forall|j: int| i <= j < s@.len() implies (#[trigger] s@[j]).0 >= k by {
            if j > i {
                assert(s@[i as int].0 < s@[j].0);
            }
        }
        assert(splits_at(s@, k, i as int));
        lemma_split_unique(s@, k, i as int, key_position(s@, k));
        lemma_has_key_at_position(s@, k, i as int);
    }
    i
}

/// Sets the entry for index `k` to `v`, keeping the indices sorted.
pub fn set_entry<T>(s: &mut Vec<(u32, T)>, k: u32, v: T)
    requires
        keys_sorted(old(s)@),
    ensures
        keys_sorted(final(s)@),
        final(s)@ == with_entry(old(s)@, k, v),
        has_key(final(s)@, k),
        entry_at(final(s)@, k) == v,
{
    let p = find_position(s, k);
    let ghost s0 = s@;
    if p < s.len() && s[p].0 == k {
        s[p] = (k, v);
        proof {
            assert(s@ == s0.update(p as int, (k, v)));
            assert forall|i: int, j: int| 0 <= i < j < s@.len() implies (#[trigger] s@[i]).0 < (
            #[trigger] s@[j]).0 by {
                assert(s0[i].0 < s0[j].0);
            }
            assert(s@[p as int].0 == k);
            assert(splits_at(s@, k, p as int));
            lemma_split_unique(s@, k, p as int, key_position(s@, k));
        }
    } else {
        s.insert(p, (k, v));
        proof {
            assert(s@ == s0.insert(p as int, (k, v)));
            assert forall|i: int, j: int| 0 <= i < j < s@.len() implies (#[trigger] s@[i]).0 < (
            #[trigger] s@[j]).0 by {
                if i < p && j < p {
                    assert(s0[i].0 < s0[j].0);
                } else if i < p && j == p {
                } else if i < p && j > p {
                    assert(s0[i].0 < s0[j - 1].0);
                } else if i == p {
                    assert(s0[j - 1].0 >= k);
                    if p < s0.len() {
                        assert(s0[p as int].0 != k);
                    }
                    if j - 1 > p {
                        assert(s0[p as int].0 < s0[j - 1].0);
                    }
                } else {
                    assert(s0[i - 1].0 < s0[j - 1].0);
                }
            }
            assert(s@[p as int].0 == k);
            assert(splits_at(s@, k, p as int));
            lemma_split_unique(s@, k, p as int, key_position(s@, k));
        }
    }
}


/// The value stored at index `k` (meaningful when `has_key(s, k)`).
pub open spec fn entry_at<T>(s: Seq<(u32, T)>, k: u32) -> T {
    s[key_position(s, k)].1
}

/// `new` is `old` with the value at index `k`, if there is one, changed as
/// `changed` allows; every index stays where it is and every other value is kept.
pub open spec fn entry_changed<T>(
    old: Seq<(u32, T)>,
    new: Seq<(u32, T)>,
    k: u32,
    changed: spec_fn(T, T) -> bool,
) -> bool {
    &&& new.len() == old.len()
    &&& forall|i: int| 0 <= i < old.len() ==> (#[trigger] new[i]).0 == old[i].0
    &&& forall|i: int|
        0 <= i < old.len() ==> if old[i].0 == k {
            changed(old[i].1, #[trigger] new[i].1)
        } else {
            new[i].1 == old[i].1
        }
}

/// In a sorted sequence an index stands at one position at most.
pub proof fn lemma_key_unique<T>(s: Seq<(u32, T)>, i: int, j: int)
    requires
        keys_sorted(s),
        0 <= i < s.len(),
        0 <= j < s.len(),
        s[i].0 == s[j].0,
    ensures
        i == j,
{
    if i < j {
        assert(s[i].0 < s[j].0);
    } else if j < i {
        assert(s[j].0 < s[i].0);
    }
}

/// Leaving a sorted sequence as it is changes its entry at `k` as `changed`
/// allows, when `changed` allows keeping that entry.
pub proof fn lemma_entry_kept<T>(s: Seq<(u32, T)>, k: u32, p: int, changed: spec_fn(T, T) -> bool)
    requires
        keys_sorted(s),
        splits_at(s, k, p),
        (p < s.len() && s[p].0 == k) ==> changed(s[p].1, s[p].1),
    ensures
        entry_changed(s, s, k, changed),
{
    lemma_has_key_at_position(s, k, p);
    assert forall|i: int| 0 <= i < s.len() && s[i].0 == k implies changed(
        s[i].1,
        #[trigger] s[i].1,
    ) by {
        assert(has_key(s, k));
        lemma_key_unique(s, i, p);
    }
}

/// Replacing the value at the position of index `k` in a sorted sequence changes
/// its entry at `k` and keeps the sequence sorted.
pub proof fn lemma_entry_replaced<T>(
    s: Seq<(u32, T)>,
    k: u32,
    p: int,
    v: T,
    changed: spec_fn(T, T) -> bool,
)
    requires
        keys_sorted(s),
        0 <= p < s.len(),
        s[p].0 == k,
        changed(s[p].1, v),
    ensures
        keys_sorted(s.update(p, (k, v))),
        entry_changed(s, s.update(p, (k, v)), k, changed),
{
    let t = s.update(p, (k, v));
    assert forall|i: int, j: int| 0 <= i < j < t.len() implies (#[trigger] t[i]).0 < (
    #[trigger] t[j]).0 by {
        assert(s[i].0 < s[j].0);
    }
    assert forall|i: int| 0 <= i < s.len() && s[i].0 == k implies changed(
        s[i].1,
        #[trigger] t[i].1,
    ) by {
        lemma_key_unique(s, i, p);
    }
}

/// A sorted sequence splits at every index.
pub proof fn lemma_split_exists<T>(s: Seq<(u32, T)>, k: u32)
    requires
        keys_sorted(s),
    ensures
        splits_at(s, k, key_position(s, k)),
    decreases s.len(),
{
    if s.len() == 0 {
        assert(splits_at(s, k, 0));
    } else {
        let r = s.drop_last();
        assert(keys_sorted(r));
        lemma_split_exists(r, k);
        let q = key_position(r, k);
        let n = s.len() - 1;
        assert forall|i: int| 0 <= i < n implies #[trigger] s[i] == r[i] by {}
        if q < r.len() {
            assert(s[q].0 < s[n].0);
            assert forall|i: int| q <= i < s.len() implies (#[trigger] s[i]).0 >= k by {
                if i < n {
                    assert(s[i] == r[i]);
                }
            }
            assert(splits_at(s, k, q));
        } else if s.last().0 < k {
            assert(splits_at(s, k, s.len() as int));
        } else {
            assert(splits_at(s, k, n));
        }
    }
}

/// Setting an entry keeps a sorted sequence sorted, and the value set is the one
/// found at its index afterwards.
pub proof fn lemma_with_entry<T>(s: Seq<(u32, T)>, k: u32, v: T)
    requires
        keys_sorted(s),
    ensures
        keys_sorted(with_entry(s, k, v)),
        has_key(with_entry(s, k, v), k),
        entry_at(with_entry(s, k, v), k) == v,
        splits_at(with_entry(s, k, v), k, key_position(s, k)),
{
    lemma_split_exists(s, k);
    let p = key_position(s, k);
    let t = with_entry(s, k, v);
    if p < s.len() && s[p].0 == k {
        assert forall|i: int, j: int| 0 <= i < j < t.len() implies (#[trigger] t[i]).0 < (
        #[trigger] t[j]).0 by {
            assert(s[i].0 < s[j].0);
        }
    } else {
        assert forall|i: int, j: int| 0 <= i < j < t.len() implies (#[trigger] t[i]).0 < (
        #[trigger] t[j]).0 by {
            if i < p && j < p {
                assert(s[i].0 < s[j].0);
            } else if i < p && j > p {
                assert(s[i].0 < s[j - 1].0);
            } else if i == p && j > p {
                assert(s[j - 1].0 >= k);
                if p < s.len() {
                    assert(s[p].0 != k);
                }
                if j - 1 > p {
                    assert(s[p].0 < s[j - 1].0);
                }
            } else if i > p {
                assert(s[i - 1].0 < s[j - 1].0);
            }
        }
    }
    assert(t[p].0 == k);
    assert(splits_at(t, k, p));
    lemma_split_unique(t, k, p, key_position(t, k));
}

/// Setting an entry at one index keeps the entry at any other index.
pub proof fn lemma_with_entry_other<T>(s: Seq<(u32, T)>, k: u32, v: T, j: u32)
    requires
        keys_sorted(s),
        has_key(s, j),
        j != k,
    ensures
        has_key(with_entry(s, k, v), j),
        entry_at(with_entry(s, k, v), j) == entry_at(s, j),
{
    lemma_with_entry(s, k, v);
    lemma_split_exists(s, k);
    lemma_split_exists(s, j);
    let t = with_entry(s, k, v);
    lemma_split_exists(t, j);
    let p = key_position(s, k);
    let q = key_position(s, j);
    lemma_has_key_at_position(s, j, q);
    if p < s.len() && s[p].0 == k {
        assert(t[q].0 == j);
        assert(splits_at(t, j, q));
        lemma_split_unique(t, j, q, key_position(t, j));
    } else if q < p {
        assert(t[q] == s[q]);
        assert(splits_at(t, j, q));
        lemma_split_unique(t, j, q, key_position(t, j));
    } else {
        assert(t[q + 1] == s[q]);
        assert forall|i: int| 0 <= i < q + 1 implies (#[trigger] t[i]).0 < j by {
            if i < p {
                assert(t[i] == s[i]);
            } else if i == p {
                assert(s[q].0 >= k);
                if q > p {
                    assert(s[p].0 < s[q].0);
                }
            } else {
                assert(t[i] == s[i - 1]);
            }
        }
        assert forall|i: int| q + 1 <= i < t.len() implies (#[trigger] t[i]).0 >= j by {
            assert(t[i] == s[i - 1]);
        }
        assert(splits_at(t, j, q + 1));
        lemma_split_unique(t, j, q + 1, key_position(t, j));
    }
    assert(has_key(t, j)) by {
        lemma_has_key_at_position(t, j, key_position(t, j));
    }
}

/// Changing values in place keeps every index at its position: afterwards an index
/// is found where it was, with the changed value at `k` and the same value at any
/// other index.
pub proof fn lemma_entry_changed_lookup<T>(
    old: Seq<(u32, T)>,
    new: Seq<(u32, T)>,
    k: u32,
    changed: spec_fn(T, T) -> bool,
    x: u32,
)
    requires
        keys_sorted(old),
        entry_changed(old, new, k, changed),
        has_key(old, x),
    ensures
        keys_sorted(new),
        has_key(new, x),
        x == k ==> changed(entry_at(old, x), entry_at(new, x)),
        x != k ==> entry_at(new, x) == entry_at(old, x),
{
    assert forall|i: int, j: int| 0 <= i < j < new.len() implies (#[trigger] new[i]).0 < (
    #[trigger] new[j]).0 by {
        assert(old[i].0 < old[j].0);
        assert(new[i].0 == old[i].0);
        assert(new[j].0 == old[j].0);
    }
    lemma_split_exists(old, x);
    lemma_split_exists(new, x);
    let p = key_position(old, x);
    lemma_has_key_at_position(old, x, p);
    assert(new[p].0 == old[p].0);
    assert forall|i: int| 0 <= i < p implies (#[trigger] new[i]).0 < x by {
        assert(new[i].0 == old[i].0);
    }
    assert forall|i: int| p <= i < new.len() implies (#[trigger] new[i]).0 >= x by {
        assert(new[i].0 == old[i].0);
    }
    assert(splits_at(new, x, p));
    lemma_split_unique(new, x, p, key_position(new, x));
}

/// Moves the values out of `s`, in index order.
pub fn into_values<T>(s: Vec<(u32, T)>) -> (res: Vec<T>)
    ensures
        res@ == values_of(s@),
{
    let ghost original = s@;
    let mut s = s;
    let mut reversed: Vec<T> = Vec::new();
    while s.len() > 0
        invariant
            original.len() == s@.len() + reversed@.len(),
            s@ == original.subrange(0, s@.len() as int),
            forall|i: int|
                0 <= i < reversed@.len() ==> #[trigger] reversed@[i] == original[original.len() - 1
                    - i].1,
        decreases s@.len(),
    {
        let e = s.pop().unwrap();
        reversed.push(e.1);
    }
    let mut res: Vec<T> = Vec::new();
    while reversed.len() > 0
        invariant
            original.len() == res@.len() + reversed@.len(),
            forall|i: int|
                0 <= i < reversed@.len() ==> #[trigger] reversed@[i] == original[original.len() - 1
                    - i].1,
            forall|i: int| 0 <= i < res@.len() ==> #[trigger] res@[i] == original[i].1,
        decreases reversed@.len(),
    {
        let v = reversed.pop().unwrap();
        res.push(v);
    }
    proof {
        assert(res@ =~= values_of(original));
    }
    res
}

} // verus!
