//! Indexing a list of named entries by name: the distinct names in sorted order,
//! each with the position of its last entry (what collecting into an ordered map gives).
use vstd::prelude::*;
use crate::text::{seq_lt, str_lt, str_eq, lemma_lt_irreflexive, lemma_lt_asymmetric,
    lemma_lt_transitive, lemma_lt_total};

verus! {

/// Position of the last element of `keys` equal to `k`, or -1 when there is none.
pub open spec fn last_occ(keys: Seq<Seq<char>>, k: Seq<char>) -> int
    decreases keys.len(),
{
    if keys.len() == 0 {
        -1
    } else if keys.last() == k {
        keys.len() - 1
    } else {
        last_occ(keys.drop_last(), k)
    }
}

/// Every element sorts strictly before every later one.
pub open spec fn strictly_sorted(s: Seq<Seq<char>>) -> bool {
    forall|i: int, j: int| 0 <= i < j < s.len() ==> seq_lt(#[trigger] s[i], #[trigger] s[j])
}

/// `s` holds exactly the elements of `keys`, each once, in sorted order.
pub open spec fn is_sorted_key_set(s: Seq<Seq<char>>, keys: Seq<Seq<char>>) -> bool {
    &&& strictly_sorted(s)
    &&& forall|k: Seq<char>| s.contains(k) <==> keys.contains(k)
}

/// The distinct elements of `keys` in sorted order.
pub open spec fn sorted_keys(keys: Seq<Seq<char>>) -> Seq<Seq<char>> {
    choose|s: Seq<Seq<char>>| is_sorted_key_set(s, keys)
}

/// The keys an index refers to.
pub open spec fn keys_at(keys: Seq<Seq<char>>, idx: Seq<usize>) -> Seq<Seq<char>> {
    idx.map_values(|j: usize| keys[j as int])
}

/// The views of a list of strings.
pub open spec fn str_views(v: Seq<String>) -> Seq<Seq<char>> {
    v.map_values(|s: String| s@)
}

pub proof fn lemma_last_occ_bounds(keys: Seq<Seq<char>>, k: Seq<char>)
    ensures
        -1 <= last_occ(keys, k) < keys.len(),
        last_occ(keys, k) >= 0 ==> keys[last_occ(keys, k)] == k,
        last_occ(keys, k) == -1 <==> !keys.contains(k),
        forall|j: int| last_occ(keys, k) < j < keys.len() ==> keys[j] != k,
    decreases keys.len(),
{
    if keys.len() > 0 {
        lemma_last_occ_bounds(keys.drop_last(), k);
        if keys.last() != k {
            if keys.contains(k) {
                let j = choose|j: int| 0 <= j < keys.len() && keys[j] == k;
                assert(keys.drop_last()[j] == k);
            }
            if keys.drop_last().contains(k) {
                let j = choose|j: int| 0 <= j < keys.drop_last().len() && keys.drop_last()[j] == k;
                assert(keys[j] == k);
            }
        } else {
            assert(keys[keys.len() - 1] == k);
        }
        assert forall|j: int| last_occ(keys, k) < j < keys.len() implies keys[j] != k by {
            if j < keys.len() - 1 {
                assert(keys[j] == keys.drop_last()[j]);
            }
        }
    }
}

/// Two strictly sorted sequences with the same elements are equal.
pub proof fn lemma_sorted_unique(a: Seq<Seq<char>>, b: Seq<Seq<char>>)
    requires
        strictly_sorted(a),
        strictly_sorted(b),
        forall|k: Seq<char>| a.contains(k) <==> b.contains(k),
    ensures
        a == b,
    decreases a.len(),
{
    if a.len() == 0 {
        if b.len() > 0 {
            assert(b.contains(b[0]));
        }
        assert(a =~= b);
    } else {
        assert(a.contains(a[0]));
        assert(b.len() > 0);
        assert(b.contains(b[0]));
        let ja = choose|j: int| 0 <= j < a.len() && a[j] == b[0];
        let jb = choose|j: int| 0 <= j < b.len() && b[j] == a[0];
        if a[0] != b[0] {
            lemma_lt_total(a[0], b[0]);
            if seq_lt(a[0], b[0]) {
                // b[0] is the least of b, yet a[0] = b[jb] sorts before it
                assert(jb > 0);
                assert(seq_lt(b[0], b[jb]));
                lemma_lt_asymmetric(a[0], b[0]);
            } else {
                assert(ja > 0);
                assert(seq_lt(a[0], a[ja]));
                lemma_lt_asymmetric(b[0], a[0]);
            }
        }
        let ra = a.drop_first();
        let rb = b.drop_first();
        assert forall|k: Seq<char>| ra.contains(k) <==> rb.contains(k) by {
            if ra.contains(k) {
                let i = choose|i: int| 0 <= i < ra.len() && ra[i] == k;
                assert(a[i + 1] == k);
                assert(seq_lt(a[0], a[i + 1]));
                assert(b.contains(k));
                let j = choose|j: int| 0 <= j < b.len() && b[j] == k;
                if j == 0 {
                    lemma_lt_irreflexive(k);
                }
                assert(rb[j - 1] == k);
            }
            if rb.contains(k) {
                let i = choose|i: int| 0 <= i < rb.len() && rb[i] == k;
                assert(b[i + 1] == k);
                assert(seq_lt(b[0], b[i + 1]));
                assert(a.contains(k));
                let j = choose|j: int| 0 <= j < a.len() && a[j] == k;
                if j == 0 {
                    lemma_lt_irreflexive(k);
                }
                assert(ra[j - 1] == k);
            }
        }
        lemma_sorted_unique(ra, rb);
        assert(a =~= seq![a[0]] + ra);
        assert(b =~= seq![b[0]] + rb);
    }
}

/// Any strictly sorted sequence holding exactly the keys is `sorted_keys(keys)`.
pub proof fn lemma_sorted_keys_is(s: Seq<Seq<char>>, keys: Seq<Seq<char>>)
    requires
        is_sorted_key_set(s, keys),
    ensures
        sorted_keys(keys) == s,
        is_sorted_key_set(sorted_keys(keys), keys),
{
    let t = sorted_keys(keys);
    assert(is_sorted_key_set(t, keys));
    lemma_sorted_unique(t, s);
}

/// Indexes `keys`: the result lists, for each distinct key in sorted order, the position
/// of its last occurrence.
pub fn sorted_index(keys: &Vec<String>) -> (idx: Vec<usize>)
    ensures
        is_sorted_key_set(keys_at(str_views(keys@), idx@), str_views(keys@)),
        keys_at(str_views(keys@), idx@) == sorted_keys(str_views(keys@)),
        forall|j: int|
            0 <= j < idx@.len() ==> #[trigger] idx@[j] as int == last_occ(
                str_views(keys@),
                str_views(keys@)[idx@[j] as int],
            ),
        forall|j: int| 0 <= j < idx@.len() ==> #[trigger] idx@[j] < keys@.len(),
{
    let ghost kv = str_views(keys@);
    let mut idx: Vec<usize> = Vec::new();
    let mut i: usize = 0;
    while i < keys.len()
        invariant
            0 <= i <= keys@.len(),
            kv == str_views(keys@),
            forall|j: int| 0 <= j < idx@.len() ==> #[trigger] idx@[j] < i,
            strictly_sorted(keys_at(kv, idx@)),
            forall|k: Seq<char>|
                keys_at(kv, idx@).contains(k) <==> kv.take(i as int).contains(k),
            forall|j: int|
                0 <= j < idx@.len() ==> #[trigger] idx@[j] as int == last_occ(
                    kv.take(i as int),
                    kv[idx@[j] as int],
                ),
        decreases keys@.len() - i,
    {
        let ghost old_idx = idx@;
        let ghost ok = keys_at(kv, old_idx);
        let ghost k = kv[i as int];
        let mut p: usize = 0;
        while p < idx.len() && str_lt(keys[idx[p]].as_str(), keys[i].as_str())
            invariant
                0 <= p <= idx@.len(),
                idx@ == old_idx,
                i < keys@.len(),
                kv == str_views(keys@),
                forall|j: int| 0 <= j < idx@.len() ==> #[trigger] idx@[j] < i,
                forall|j: int| 0 <= j < p ==> seq_lt(#[trigger] ok[j], k),
                ok == keys_at(kv, old_idx),
                k == kv[i as int],
            decreases idx@.len() - p,
        {
            p += 1;
        }
        let ghost t0 = kv.take(i as int);
        let ghost t1 = kv.take(i + 1);
        assert(t1 =~= t0.push(k));
        assert(t1.drop_last() =~= t0);
        if p < idx.len() && str_eq(keys[idx[p]].as_str(), keys[i].as_str()) {
            idx.set(p, i);
            assert(keys_at(kv, idx@) =~= ok);
            assert forall|j: int| 0 <= j < idx@.len() implies #[trigger] idx@[j] as int
                == last_occ(t1, kv[idx@[j] as int]) by {
                if j != p {
                    assert(ok[j] != k) by {
                        if ok[j] == k {
                            if j < p {
                                lemma_lt_transitive(ok[j], ok[p as int], ok[p as int]);
                                lemma_lt_irreflexive(ok[p as int]);
                                assert(seq_lt(ok[j], ok[p as int]));
                            } else {
                                assert(seq_lt(ok[p as int], ok[j]));
                                lemma_lt_irreflexive(ok[j]);
                            }
                        }
                    }
                    assert(t1.drop_last() =~= t0);
                }
            }
            assert forall|kk: Seq<char>|
                keys_at(kv, idx@).contains(kk) <==> t1.contains(kk) by {
                if kk == k {
                    assert(t1[i as int] == k);
                    assert(keys_at(kv, idx@)[p as int] == k);
                }
                if keys_at(kv, idx@).contains(kk) {
                    assert(ok.contains(kk));
                    assert(t0.contains(kk));
                    let j = choose|j: int| 0 <= j < t0.len() && t0[j] == kk;
                    assert(t1[j] == kk);
                }
                if t1.contains(kk) && kk != k {
                    let j = choose|j: int| 0 <= j < t1.len() && t1[j]
                        == kk;
                    assert(t0[j] == kk);
                    assert(t0.contains(kk));
                    assert(ok.contains(kk));
                }
                if t0.contains(kk) {
                    let j = choose|j: int| 0 <= j < t0.len() && t0[j] == kk;
                    assert(t1[j] == kk);
                }
            }
        } else {
            proof {
                if p < idx@.len() {
                    lemma_lt_total(ok[p as int], k);
                    assert(seq_lt(k, ok[p as int]));
                }
                assert(!ok.contains(k)) by {
                    if ok.contains(k) {
                        let j = choose|j: int| 0 <= j < ok.len() && ok[j] == k;
                        if j < p {
                            lemma_lt_irreflexive(k);
                        } else if j > p {
                            assert(seq_lt(ok[p as int], ok[j]));
                            lemma_lt_asymmetric(k, ok[p as int]);
                        }
                    }
                }
            }
            idx.insert(p, i);
            let ghost nk = keys_at(kv, idx@);
            assert(nk =~= ok.insert(p as int, k));
            assert forall|a: int, b: int| 0 <= a < b < nk.len() implies seq_lt(
                #[trigger] nk[a],
                #[trigger] nk[b],
            ) by {
                if b < p {
                } else if b == p {
                } else if a < p {
                    assert(seq_lt(ok[a], k));
                    assert(seq_lt(k, ok[p as int]));
                    if b - 1 > p {
                        assert(seq_lt(ok[p as int], ok[b - 1]));
                        lemma_lt_transitive(k, ok[p as int], ok[b - 1]);
                    }
                    lemma_lt_transitive(ok[a], k, ok[b - 1]);
                } else if a == p {
                    assert(seq_lt(k, ok[p as int]));
                    if b - 1 > p {
                        assert(seq_lt(ok[p as int], ok[b - 1]));
                        lemma_lt_transitive(k, ok[p as int], ok[b - 1]);
                    }
                } else {
                    assert(seq_lt(ok[a - 1], ok[b - 1]));
                }
            }
            assert forall|kk: Seq<char>| nk.contains(kk) <==> t1.contains(kk) by {
                if t1.contains(kk) && kk != k {
                    let j = choose|j: int| 0 <= j < t1.len() && t1[j]
                        == kk;
                    assert(t0[j] == kk);
                    assert(ok.contains(kk));
                    let m = choose|m: int| 0 <= m < ok.len() && ok[m] == kk;
                    if m < p {
                        assert(nk[m] == kk);
                    } else {
                        assert(nk[m + 1] == kk);
                    }
                }
                if kk == k {
                    assert(nk[p as int] == k);
                    assert(t1[i as int] == k);
                }
                if nk.contains(kk) && kk != k {
                    let m = choose|m: int| 0 <= m < nk.len() && nk[m] == kk;
                    if m < p {
                        assert(ok[m] == kk);
                    } else {
                        assert(ok[m - 1] == kk);
                    }
                    assert(ok.contains(kk));
                    let j = choose|j: int| 0 <= j < t0.len() && t0[j] == kk;
                    assert(t1[j] == kk);
                }
            }
            assert forall|j: int| 0 <= j < idx@.len() implies #[trigger] idx@[j] as int
                == last_occ(t1, kv[idx@[j] as int]) by {
                assert(t1.drop_last() =~= t0);
                if j != p {
                    assert(nk[j] != k);
                    if j < p {
                        assert(idx@[j] == old_idx[j]);
                    } else {
                        assert(idx@[j] == old_idx[j - 1]);
                    }
                }
            }
        }
        i += 1;
    }
    assert(kv.take(keys@.len() as int) =~= kv);
    proof {
        lemma_sorted_keys_is(keys_at(kv, idx@), kv);
    }
    idx
}


/// `k` inserted into the sorted sequence `s` before the first element that does not sort
/// before it.
pub open spec fn insert_sorted(s: Seq<Seq<char>>, k: Seq<char>) -> Seq<Seq<char>>
    decreases s.len(),
{
    if s.len() == 0 {
        seq![k]
    } else if seq_lt(s[0], k) {
        seq![s[0]] + insert_sorted(s.drop_first(), k)
    } else {
        seq![k] + s
    }
}

proof fn lemma_insert_sorted(s: Seq<Seq<char>>, k: Seq<char>)
    requires
        strictly_sorted(s),
        !s.contains(k),
    ensures
        strictly_sorted(insert_sorted(s, k)),
        forall|x: Seq<char>| insert_sorted(s, k).contains(x) <==> (s.contains(x) || x == k),
        insert_sorted(s, k).len() > 0,
        insert_sorted(s, k)[0] == k || (s.len() > 0 && insert_sorted(s, k)[0] == s[0]),
    decreases s.len(),
{
    let r = insert_sorted(s, k);
    if s.len() == 0 {
        assert(r =~= seq![k]);
        assert forall|x: Seq<char>| r.contains(x) <==> (s.contains(x) || x == k) by {
            if x == k {
                assert(r[0] == k);
            }
        }
    } else if seq_lt(s[0], k) {
        let t = s.drop_first();
        assert forall|i: int, j: int| 0 <= i < j < t.len() implies seq_lt(#[trigger] t[i], #[trigger] t[j]) by {
            assert(seq_lt(s[i + 1], s[j + 1]));
        }
        assert(!t.contains(k)) by {
            if t.contains(k) {
                let i = choose|i: int| 0 <= i < t.len() && t[i] == k;
                assert(s[i + 1] == k);
            }
        }
        lemma_insert_sorted(t, k);
        let u = insert_sorted(t, k);
        assert(r == seq![s[0]] + u);
        assert(r.len() == u.len() + 1);
        assert forall|x: Seq<char>| r.contains(x) <==> (s.contains(x) || x == k) by {
            if r.contains(x) {
                let i = choose|i: int| 0 <= i < r.len() && r[i] == x;
                if i > 0 {
                    assert(u[i - 1] == x);
                    assert(u.contains(x));
                    if t.contains(x) {
                        let m = choose|m: int| 0 <= m < t.len() && t[m] == x;
                        assert(s[m + 1] == x);
                    }
                } else {
                    assert(s[0] == x);
                }
            }
            if s.contains(x) {
                let i = choose|i: int| 0 <= i < s.len() && s[i] == x;
                if i == 0 {
                    assert(r[0] == x);
                } else {
                    let ii = i - 1;
                    assert(t[ii] == x);
                    assert(t.contains(x));
                    assert(u.contains(x));
                    let m = choose|m: int| 0 <= m < u.len() && u[m] == x;
                    assert(r[m + 1] == x);
                }
            }
            if x == k {
                assert(u.contains(k));
                let m = choose|m: int| 0 <= m < u.len() && u[m] == k;
                assert(r[m + 1] == k);
            }
        }
        assert forall|i: int, j: int| 0 <= i < j < r.len() implies seq_lt(#[trigger] r[i], #[trigger] r[j]) by {
            if i == 0 {
                let x = r[j];
                let jj = j - 1;
                assert(0 <= jj < u.len());
                assert(u[jj] == x);
                assert(u.contains(x));
                if x == k {
                } else {
                    assert(t.contains(x));
                    let m = choose|m: int| 0 <= m < t.len() && t[m] == x;
                    assert(s[m + 1] == x);
                    assert(seq_lt(s[0], s[m + 1]));
                }
            } else {
                assert(r[i] == u[i - 1]);
                assert(r[j] == u[j - 1]);
            }
        }
    } else {
        assert(s[0] != k) by {
            assert(s.contains(s[0]));
        }
        lemma_lt_total(s[0], k);
        assert(seq_lt(k, s[0]));
        assert(r == seq![k] + s);
        assert forall|x: Seq<char>| r.contains(x) <==> (s.contains(x) || x == k) by {
            if r.contains(x) {
                let i = choose|i: int| 0 <= i < r.len() && r[i] == x;
                if i > 0 {
                    assert(s[i - 1] == x);
                }
            }
            if s.contains(x) {
                let i = choose|i: int| 0 <= i < s.len() && s[i] == x;
                assert(r[i + 1] == x);
            }
            if x == k {
                assert(r[0] == k);
            }
        }
        assert forall|i: int, j: int| 0 <= i < j < r.len() implies seq_lt(#[trigger] r[i], #[trigger] r[j]) by {
            if i == 0 {
                assert(r[j] == s[j - 1]);
                if j - 1 > 0 {
                    assert(seq_lt(s[0], s[j - 1]));
                    lemma_lt_transitive(k, s[0], s[j - 1]);
                }
            } else {
                assert(r[i] == s[i - 1]);
                assert(r[j] == s[j - 1]);
            }
        }
    }
}

/// `sorted_keys(keys)` holds exactly the keys, each once, in sorted order.
pub proof fn lemma_sorted_keys_exist(keys: Seq<Seq<char>>)
    ensures
        is_sorted_key_set(sorted_keys(keys), keys),
    decreases keys.len(),
{
    if keys.len() == 0 {
        let e = Seq::<Seq<char>>::empty();
        assert(is_sorted_key_set(e, keys));
        lemma_sorted_keys_is(e, keys);
    } else {
        let prev = keys.drop_last();
        let k = keys.last();
        lemma_sorted_keys_exist(prev);
        let s = sorted_keys(prev);
        assert forall|x: Seq<char>| keys.contains(x) <==> (prev.contains(x) || x == k) by {
            if keys.contains(x) {
                let i = choose|i: int| 0 <= i < keys.len() && keys[i] == x;
                if i < keys.len() - 1 {
                    assert(prev[i] == x);
                }
            }
            if prev.contains(x) {
                let i = choose|i: int| 0 <= i < prev.len() && prev[i] == x;
                assert(keys[i] == x);
            }
            if x == k {
                assert(keys[keys.len() - 1] == k);
            }
        }
        if s.contains(k) {
            lemma_sorted_keys_is(s, keys);
        } else {
            lemma_insert_sorted(s, k);
            lemma_sorted_keys_is(insert_sorted(s, k), keys);
        }
    }
}

} // verus!
