//! Stable sorting of a filtered selection by a composite key.
//!
//! Every list the views show is "the items that pass a filter, in a stable
//! sort by some key". A stable sort by `key` puts `i` before `j` exactly
//! when `key(i) < key(j)`, or the keys are equal and `i < j`; that order is
//! total, so the selection and the key pin the result down.
use vstd::prelude::*;
use vstd::string::*;

use crate::text::{
    lemma_lex_lt_irreflexive, lemma_lex_lt_total, lemma_lex_lt_transitive, lex_lt, str_eq, str_lt,
};

verus! {

/// A sort key: two strings compared lexicographically, then two integers.
#[derive(Clone, Debug)]
pub struct SortKey {
    pub s1: String,
    pub s2: String,
    pub n1: i64,
    pub n2: i64,
}

pub type KeyView = (Seq<char>, Seq<char>, int, int);

impl View for SortKey {
    type V = KeyView;

    open spec fn view(&self) -> KeyView {
        (self.s1@, self.s2@, self.n1 as int, self.n2 as int)
    }
}

/// Key order; with `desc` the first string is compared in reverse.
pub open spec fn key_lt(desc: bool, a: KeyView, b: KeyView) -> bool {
    ||| (if desc {
        lex_lt(b.0, a.0)
    } else {
        lex_lt(a.0, b.0)
    })
    ||| (a.0 == b.0 && lex_lt(a.1, b.1))
    ||| (a.0 == b.0 && a.1 == b.1 && a.2 < b.2)
    ||| (a.0 == b.0 && a.1 == b.1 && a.2 == b.2 && a.3 < b.3)
}

/// Position of item `i` before item `j` in a stable sort by `keys`.
pub open spec fn row_before(desc: bool, keys: Seq<KeyView>, i: int, j: int) -> bool {
    key_lt(desc, keys[i], keys[j]) || (keys[i] == keys[j] && i < j)
}

/// `r` lists the indices that `keep` marks, each once, in a stable sort by
/// `keys`.
pub open spec fn sorted_selection(desc: bool, keys: Seq<KeyView>, keep: Seq<bool>, r: Seq<usize>) -> bool {
    &&& forall|k: int| 0 <= k < r.len() ==> (#[trigger] r[k]) < keep.len() && keep[r[k] as int]
    &&& forall|i: int| 0 <= i < keep.len() && keep[i] ==> r.contains(i as usize)
    &&& forall|a: int, b: int|
        0 <= a < b < r.len() ==> row_before(desc, keys, #[trigger] r[a] as int, #[trigger] r[b] as int)
}

pub proof fn lemma_key_lt_strict_total(desc: bool, a: KeyView, b: KeyView, c: KeyView)
    ensures
        !key_lt(desc, a, a),
        a != b ==> key_lt(desc, a, b) || key_lt(desc, b, a),
        !(key_lt(desc, a, b) && key_lt(desc, b, a)),
        key_lt(desc, a, b) && key_lt(desc, b, c) ==> key_lt(desc, a, c),
{
    lemma_lex_lt_irreflexive(a.0);
    lemma_lex_lt_irreflexive(a.1);
    lemma_lex_lt_total(a.0, b.0);
    lemma_lex_lt_total(a.1, b.1);
    lemma_lex_lt_total(b.0, c.0);
    lemma_lex_lt_total(a.0, c.0);
    if a != b {
        if a.0 == b.0 && a.1 == b.1 && a.2 == b.2 {
            assert(a.3 != b.3);
        }
    }
    if key_lt(desc, a, b) && key_lt(desc, b, c) {
        if lex_lt(a.0, b.0) && lex_lt(b.0, c.0) {
            lemma_lex_lt_transitive(a.0, b.0, c.0);
        }
        if lex_lt(b.0, a.0) && lex_lt(c.0, b.0) {
            lemma_lex_lt_transitive(c.0, b.0, a.0);
        }
        if lex_lt(a.1, b.1) && lex_lt(b.1, c.1) {
            lemma_lex_lt_transitive(a.1, b.1, c.1);
        }
    }
}

/// `row_before` is a strict total order on indices.
pub proof fn lemma_row_before_order(desc: bool, keys: Seq<KeyView>, i: int, j: int, k: int)
    requires
        0 <= i < keys.len(),
        0 <= j < keys.len(),
        0 <= k < keys.len(),
    ensures
        !row_before(desc, keys, i, i),
        i != j ==> row_before(desc, keys, i, j) || row_before(desc, keys, j, i),
        !(row_before(desc, keys, i, j) && row_before(desc, keys, j, i)),
        row_before(desc, keys, i, j) && row_before(desc, keys, j, k) ==> row_before(desc, keys, i, k),
{
    lemma_key_lt_strict_total(desc, keys[i], keys[j], keys[k]);
    lemma_key_lt_strict_total(desc, keys[j], keys[i], keys[k]);
    lemma_key_lt_strict_total(desc, keys[i], keys[k], keys[j]);
    lemma_key_lt_strict_total(desc, keys[j], keys[k], keys[i]);
    lemma_key_lt_strict_total(desc, keys[k], keys[i], keys[j]);
}

/// Whether key `a` sorts strictly before key `b`.
pub fn key_less(desc: bool, a: &SortKey, b: &SortKey) -> (r: bool)
    ensures
        r == key_lt(desc, a@, b@),
{
    let first = if desc {
        str_lt(b.s1.as_str(), a.s1.as_str())
    } else {
        str_lt(a.s1.as_str(), b.s1.as_str())
    };
    if first {
        return true;
    }
    if !str_eq(a.s1.as_str(), b.s1.as_str()) {
        return false;
    }
    if str_lt(a.s2.as_str(), b.s2.as_str()) {
        return true;
    }
    if !str_eq(a.s2.as_str(), b.s2.as_str()) {
        return false;
    }
    a.n1 < b.n1 || (a.n1 == b.n1 && a.n2 < b.n2)
}

/// The views of a vector of keys.
pub open spec fn key_views(keys: Seq<SortKey>) -> Seq<KeyView> {
    keys.map_values(|k: SortKey| k@)
}

/// The indices that `keep` marks, in a stable sort by `keys`.
pub fn sort_selected(keys: &Vec<SortKey>, keep: &Vec<bool>, desc: bool) -> (r: Vec<usize>)
    requires
        keys.len() == keep.len(),
    ensures
        sorted_selection(desc, key_views(keys@), keep@, r@),
{
    let ghost kv = key_views(keys@);
    let mut r: Vec<usize> = Vec::new();
    let n = keep.len();
    let mut i: usize = 0;
    while i < n
        invariant
            n == keep.len(),
            n == keys.len(),
            kv == key_views(keys@),
            kv.len() == n,
            i <= n,
            forall|k: int| 0 <= k < r.len() ==> (#[trigger] r@[k]) < i && keep@[r@[k] as int],
            forall|x: int| 0 <= x < i && keep@[x] ==> r@.contains(x as usize),
            forall|a: int, b: int|
                0 <= a < b < r.len() ==> row_before(desc, kv, #[trigger] r@[a] as int, #[trigger] r@[b] as int),
        decreases n - i,
    {
        if keep[i] {
            let mut p: usize = 0;
            while p < r.len() && !key_less(desc, &keys[i], &keys[r[p]])
                invariant
                    n == keep.len(),
                    n == keys.len(),
                    kv == key_views(keys@),
                    kv.len() == n,
                    i < n,
                    p <= r.len(),
                    forall|k: int| 0 <= k < r.len() ==> (#[trigger] r@[k]) < i,
                    forall|k: int| 0 <= k < p ==> !key_lt(desc, kv[i as int], kv[#[trigger] r@[k] as int]),
                decreases r.len() - p,
            {
                p += 1;
            }
            let ghost old_r = r@;
            proof {
                assert(kv[i as int] == keys@[i as int]@);
                if p < r.len() {
                    assert(kv[r@[p as int] as int] == keys@[r@[p as int] as int]@);
                    assert(key_lt(desc, kv[i as int], kv[r@[p as int] as int]));
                }
            }
            r.insert(p, i);
            proof {
                assert forall|a: int, b: int|
                    0 <= a < b < r.len() implies row_before(desc, kv, #[trigger] r@[a] as int, #[trigger] r@[b] as int) by {
                    if a < p && b < p {
                        assert(r@[a] == old_r[a] && r@[b] == old_r[b]);
                    } else if a < p && b == p {
                        let x = old_r[a] as int;
                        assert(r@[a] == old_r[a]);
                        assert(!key_lt(desc, kv[i as int], kv[x]));
                        lemma_key_lt_strict_total(desc, kv[x], kv[i as int], kv[x]);
                        assert(x < i);
                    } else if a < p && b > p {
                        assert(r@[a] == old_r[a] && r@[b] == old_r[b - 1]);
                    } else if a == p {
                        let y = old_r[b - 1] as int;
                        let z = old_r[p as int] as int;
                        assert(r@[b] == old_r[b - 1]);
                        assert(key_lt(desc, kv[i as int], kv[z]));
                        if b - 1 > p {
                            assert(row_before(desc, kv, z, y));
                            lemma_key_lt_strict_total(desc, kv[i as int], kv[z], kv[y]);
                        }
                    } else {
                        assert(r@[a] == old_r[a - 1] && r@[b] == old_r[b - 1]);
                    }
                }
                assert forall|x: int| 0 <= x < i + 1 && keep@[x] implies r@.contains(x as usize) by {
                    if x == i {
                        assert(r@[p as int] == i);
                    } else {
                        let k = choose|k: int| 0 <= k < old_r.len() && old_r[k] == x as usize;
                        if k < p {
                            assert(r@[k] == x as usize);
                        } else {
                            assert(r@[k + 1] == x as usize);
                        }
                    }
                }
                assert forall|k: int| 0 <= k < r.len() implies (#[trigger] r@[k]) < i + 1 && keep@[r@[k] as int] by {
                    if k < p {
                        assert(r@[k] == old_r[k]);
                    } else if k > p {
                        assert(r@[k] == old_r[k - 1]);
                    }
                }
            }
        } else {
            proof {
                assert forall|x: int| 0 <= x < i + 1 && keep@[x] implies r@.contains(x as usize) by {
                }
            }
        }
        i += 1;
    }
    r
}

} // verus!

verus! {

/// The unique stable-sorted selection.
pub open spec fn sorted_rows(desc: bool, keys: Seq<KeyView>, keep: Seq<bool>) -> Seq<usize> {
    choose|r: Seq<usize>| sorted_selection(desc, keys, keep, r)
}

/// Two stable-sorted selections of the same items by the same keys agree.
pub proof fn lemma_sorted_selection_unique(
    desc: bool,
    keys: Seq<KeyView>,
    keep: Seq<bool>,
    r1: Seq<usize>,
    r2: Seq<usize>,
)
    requires
        keys.len() == keep.len(),
        keep.len() <= usize::MAX,
        sorted_selection(desc, keys, keep, r1),
        sorted_selection(desc, keys, keep, r2),
    ensures
        r1 == r2,
    decreases r1.len() + r2.len(),
{
    if r1.len() == 0 {
        if r2.len() > 0 {
            assert(keep[r2[0] as int]);
            assert(r1.contains(r2[0]));
        }
        assert(r1 =~= r2);
    } else {
        assert(keep[r1[0] as int]);
        assert(r2.contains(r1[0]));
        let x = r1[0];
        let y = r2[0];
        let m = choose|m: int| 0 <= m < r2.len() && r2[m] == x;
        assert(r1.contains(y));
        let k = choose|k: int| 0 <= k < r1.len() && r1[k] == y;
        if x != y {
            assert(k > 0 && m > 0);
            assert(row_before(desc, keys, r1[0] as int, r1[k] as int));
            assert(row_before(desc, keys, r2[0] as int, r2[m] as int));
            lemma_row_before_order(desc, keys, x as int, y as int, x as int);
            assert(false);
        }
        assert(x == y);
        let keep2 = keep.update(x as int, false);
        let s1 = r1.drop_first();
        let s2 = r2.drop_first();
        assert forall|k: int| 0 <= k < s1.len() implies (#[trigger] s1[k]) < keep2.len() && keep2[s1[k] as int] by {
            assert(s1[k] == r1[k + 1]);
            assert(row_before(desc, keys, r1[0] as int, r1[k + 1] as int));
            lemma_row_before_order(desc, keys, x as int, x as int, x as int);
        }
        assert forall|i: int| 0 <= i < keep2.len() && keep2[i] implies s1.contains(i as usize) by {
            assert(i != x as int);
            assert(keep[i]);
            assert(r1.contains(i as usize));
            let j = choose|j: int| 0 <= j < r1.len() && r1[j] == i as usize;
            assert(j != 0);
            assert(s1[j - 1] == i as usize);
        }
        assert forall|a: int, b: int| 0 <= a < b < s1.len() implies row_before(desc, keys, #[trigger] s1[a] as int, #[trigger] s1[b] as int) by {
            assert(s1[a] == r1[a + 1] && s1[b] == r1[b + 1]);
        }
        assert forall|k: int| 0 <= k < s2.len() implies (#[trigger] s2[k]) < keep2.len() && keep2[s2[k] as int] by {
            assert(s2[k] == r2[k + 1]);
            assert(row_before(desc, keys, r2[0] as int, r2[k + 1] as int));
            lemma_row_before_order(desc, keys, x as int, x as int, x as int);
        }
        assert forall|i: int| 0 <= i < keep2.len() && keep2[i] implies s2.contains(i as usize) by {
            assert(i != x as int);
            assert(keep[i]);
            assert(r2.contains(i as usize));
            let j = choose|j: int| 0 <= j < r2.len() && r2[j] == i as usize;
            assert(r2[0] == x);
            assert(j != 0);
            assert(s2[j - 1] == i as usize);
        }
        assert forall|a: int, b: int| 0 <= a < b < s2.len() implies row_before(desc, keys, #[trigger] s2[a] as int, #[trigger] s2[b] as int) by {
            assert(s2[a] == r2[a + 1] && s2[b] == r2[b + 1]);
        }
        lemma_sorted_selection_unique(desc, keys, keep2, s1, s2);
        assert(r1 =~= seq![x].add(s1));
        assert(r2 =~= seq![y].add(s2));
    }
}

/// How many leading entries of `r` sort before index `m`.
spec fn split_point(desc: bool, keys: Seq<KeyView>, r: Seq<usize>, m: int) -> nat
    decreases r.len(),
{
    if r.len() == 0 {
        0
    } else if row_before(desc, keys, r[0] as int, m) {
        1 + split_point(desc, keys, r.drop_first(), m)
    } else {
        0
    }
}

proof fn lemma_split_point(desc: bool, keys: Seq<KeyView>, r: Seq<usize>, m: int)
    ensures
        split_point(desc, keys, r, m) <= r.len(),
        forall|a: int| 0 <= a < split_point(desc, keys, r, m) ==> row_before(desc, keys, #[trigger] r[a] as int, m),
        split_point(desc, keys, r, m) < r.len() ==> !row_before(
            desc,
            keys,
            r[split_point(desc, keys, r, m) as int] as int,
            m,
        ),
    decreases r.len(),
{
    if r.len() > 0 && row_before(desc, keys, r[0] as int, m) {
        let t = r.drop_first();
        lemma_split_point(desc, keys, t, m);
        assert forall|a: int| 0 <= a < split_point(desc, keys, r, m) implies row_before(
            desc,
            keys,
            #[trigger] r[a] as int,
            m,
        ) by {
            if a > 0 {
                assert(r[a] == t[a - 1]);
            }
        }
        if split_point(desc, keys, r, m) < r.len() {
            assert(r[split_point(desc, keys, r, m) as int] == t[split_point(desc, keys, t, m) as int]);
        }
    }
}

/// A stable sorted selection of the first `m` entries of `keep` exists.
proof fn lemma_prefix_selection_exists(desc: bool, keys: Seq<KeyView>, keep: Seq<bool>, m: nat)
    requires
        keys.len() == keep.len(),
        keep.len() <= usize::MAX,
        m <= keep.len(),
    ensures
        exists|r: Seq<usize>| sorted_selection(desc, keys, keep.take(m as int), r),
    decreases m,
{
    if m == 0 {
        let r = Seq::<usize>::empty();
        assert(sorted_selection(desc, keys, keep.take(0), r));
    } else {
        let n = (m - 1) as nat;
        lemma_prefix_selection_exists(desc, keys, keep, n);
        let r = choose|r: Seq<usize>| sorted_selection(desc, keys, keep.take(n as int), r);
        let k0 = keep.take(n as int);
        let k1 = keep.take(m as int);
        if !keep[n as int] {
            assert forall|i: int| 0 <= i < k1.len() && k1[i] implies r.contains(i as usize) by {
                assert(k1[i] == keep[i]);
                if i < n {
                    assert(k0[i] == keep[i]);
                }
            }
            assert forall|k: int| 0 <= k < r.len() implies (#[trigger] r[k]) < k1.len() && k1[r[k] as int] by {
                assert(k0[r[k] as int] == keep[r[k] as int]);
            }
            assert(sorted_selection(desc, keys, k1, r));
        } else {
            let x = n as usize;
            lemma_split_point(desc, keys, r, n as int);
            let sp = split_point(desc, keys, r, n as int) as int;
            assert forall|a: int| sp <= a < r.len() implies row_before(desc, keys, n as int, #[trigger] r[a] as int) by {
                assert(r[a] < n);
                lemma_row_before_order(desc, keys, r[a] as int, n as int, r[a] as int);
                if row_before(desc, keys, r[a] as int, n as int) {
                    assert(sp < a);
                    assert(row_before(desc, keys, r[sp] as int, r[a] as int));
                    lemma_row_before_order(desc, keys, r[sp] as int, r[a] as int, n as int);
                }
            }
            let r2 = r.insert(sp, x);
            assert forall|k: int| 0 <= k < r2.len() implies (#[trigger] r2[k]) < k1.len() && k1[r2[k] as int] by {
                if k < sp {
                    assert(r2[k] == r[k]);
                    assert(k0[r[k] as int] == keep[r[k] as int]);
                } else if k > sp {
                    assert(r2[k] == r[k - 1]);
                    assert(k0[r[k - 1] as int] == keep[r[k - 1] as int]);
                }
            }
            assert forall|i: int| 0 <= i < k1.len() && k1[i] implies r2.contains(i as usize) by {
                if i == n {
                    assert(r2[sp] == x);
                } else {
                    assert(k0[i] == keep[i]);
                    assert(r.contains(i as usize));
                    let j = choose|j: int| 0 <= j < r.len() && r[j] == i as usize;
                    if j < sp {
                        assert(r2[j] == r[j]);
                    } else {
                        assert(r2[j + 1] == r[j]);
                    }
                }
            }
            assert forall|a: int, b: int| 0 <= a < b < r2.len() implies row_before(
                desc,
                keys,
                #[trigger] r2[a] as int,
                #[trigger] r2[b] as int,
            ) by {
                if b < sp {
                    assert(r2[a] == r[a] && r2[b] == r[b]);
                } else if b == sp {
                    assert(r2[a] == r[a]);
                } else if a < sp {
                    assert(r2[a] == r[a] && r2[b] == r[b - 1]);
                } else if a == sp {
                    assert(r2[b] == r[b - 1]);
                } else {
                    assert(r2[a] == r[a - 1] && r2[b] == r[b - 1]);
                }
            }
            assert(sorted_selection(desc, keys, k1, r2));
        }
    }
}

/// The stable sorted selection that `sorted_rows` names exists.
pub proof fn lemma_sorted_rows_sorted(desc: bool, keys: Seq<KeyView>, keep: Seq<bool>)
    requires
        keys.len() == keep.len(),
        keep.len() <= usize::MAX,
    ensures
        sorted_selection(desc, keys, keep, sorted_rows(desc, keys, keep)),
{
    lemma_prefix_selection_exists(desc, keys, keep, keep.len());
    assert(keep.take(keep.len() as int) =~= keep);
}

/// Sorts the selection and returns it as the unique stable order.
pub fn sorted_rows_exec(keys: &Vec<SortKey>, keep: &Vec<bool>, desc: bool) -> (r: Vec<usize>)
    requires
        keys.len() == keep.len(),
    ensures
        r@ == sorted_rows(desc, key_views(keys@), keep@),
        sorted_selection(desc, key_views(keys@), keep@, r@),
{
    let r = sort_selected(keys, keep, desc);
    proof {
        let kv = key_views(keys@);
        let c = sorted_rows(desc, kv, keep@);
        assert(sorted_selection(desc, kv, keep@, c));
        lemma_sorted_selection_unique(desc, kv, keep@, r@, c);
    }
    r
}

} // verus!
