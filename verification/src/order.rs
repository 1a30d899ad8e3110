//! Stable ordering of listings by a key: the order a stable sort gives.
use vstd::prelude::*;

use crate::text::{
    chars_lt, lemma_seq_lt_irreflexive, lemma_seq_lt_total, lemma_seq_lt_transitive, seq_lt,
};

verus! {

/// Keys that listings are ordered by: a strict weak order on the keys'
/// views, with an executable comparison.
pub trait SortKey: View + Sized {
    /// Key `a` comes strictly before key `b`.
    spec fn less(a: Self::V, b: Self::V) -> bool;

    proof fn lemma_irreflexive(a: Self::V)
        ensures
            !Self::less(a, a),
    ;

    proof fn lemma_transitive(a: Self::V, b: Self::V, c: Self::V)
        ensures
            Self::less(a, b) && Self::less(b, c) ==> Self::less(a, c),
    ;

    proof fn lemma_negatively_transitive(a: Self::V, b: Self::V, c: Self::V)
        ensures
            Self::less(a, c) ==> Self::less(a, b) || Self::less(b, c),
    ;

    fn lt(&self, other: &Self) -> (r: bool)
        ensures
            r == Self::less(self@, other@),
    ;
}

impl SortKey for i32 {
    open spec fn less(a: i32, b: i32) -> bool {
        a < b
    }

    proof fn lemma_irreflexive(a: i32) {
    }

    proof fn lemma_transitive(a: i32, b: i32, c: i32) {
    }

    proof fn lemma_negatively_transitive(a: i32, b: i32, c: i32) {
    }

    fn lt(&self, other: &Self) -> (r: bool) {
        *self < *other
    }
}

impl SortKey for Vec<char> {
    open spec fn less(a: Seq<char>, b: Seq<char>) -> bool {
        seq_lt(a, b)
    }

    proof fn lemma_irreflexive(a: Seq<char>) {
        lemma_seq_lt_irreflexive(a);
    }

    proof fn lemma_transitive(a: Seq<char>, b: Seq<char>, c: Seq<char>) {
        lemma_seq_lt_transitive(a, b, c);
    }

    proof fn lemma_negatively_transitive(a: Seq<char>, b: Seq<char>, c: Seq<char>) {
        lemma_seq_lt_total(a, b);
        lemma_seq_lt_total(b, c);
        lemma_seq_lt_transitive(a, c, b);
        lemma_seq_lt_transitive(b, a, c);
        lemma_seq_lt_irreflexive(a);
        lemma_seq_lt_irreflexive(b);
        lemma_seq_lt_irreflexive(c);
    }

    fn lt(&self, other: &Self) -> (r: bool) {
        chars_lt(self, other)
    }
}

/// Key `x` comes strictly before key `y` in the direction of the ordering
/// (ascending, or descending when `desc`).
pub open spec fn key_before<K: SortKey>(x: K::V, y: K::V, desc: bool) -> bool {
    if desc {
        K::less(y, x)
    } else {
        K::less(x, y)
    }
}

/// Item `a` is listed before item `b`: its key comes first, or the keys
/// tie and `a` came first in the input (the order is stable).
pub open spec fn precedes<K: SortKey>(keys: Seq<K::V>, desc: bool, a: int, b: int) -> bool {
    key_before::<K>(keys[a], keys[b], desc) || (!key_before::<K>(keys[b], keys[a], desc) && a < b)
}

/// Position `x` occurs among the first `n` entries of `p`.
pub open spec fn lists(p: Seq<usize>, n: nat, x: int) -> bool {
    exists|k: int| 0 <= k < n && #[trigger] p[k] == x
}

/// `p` lists each of `0..n` exactly once.
pub open spec fn is_permutation(p: Seq<usize>, n: nat) -> bool {
    &&& p.len() == n
    &&& forall|k: int| 0 <= k < n ==> #[trigger] p[k] < n
    &&& forall|k: int, l: int| 0 <= k < l < n ==> #[trigger] p[k] != #[trigger] p[l]
    &&& forall|x: int| 0 <= x < n ==> #[trigger] lists(p, n, x)
}

/// `p` is the order in which a stable sort by `keys` lists the items.
pub open spec fn stably_sorted<K: SortKey>(keys: Seq<K::V>, desc: bool, p: Seq<usize>) -> bool {
    &&& is_permutation(p, keys.len())
    &&& forall|k: int, l: int|
        0 <= k < l < p.len() ==> #[trigger] precedes::<K>(keys, desc, p[k] as int, #[trigger] p[l] as int)
}

proof fn lemma_key_before_laws<K: SortKey>(x: K::V, y: K::V, z: K::V, desc: bool)
    ensures
        !key_before::<K>(x, x, desc),
        key_before::<K>(x, y, desc) && key_before::<K>(y, z, desc) ==> key_before::<K>(x, z, desc),
        key_before::<K>(x, z, desc) ==> key_before::<K>(x, y, desc) || key_before::<K>(y, z, desc),
{
    K::lemma_irreflexive(x);
    if desc {
        K::lemma_transitive(z, y, x);
        K::lemma_negatively_transitive(z, y, x);
    } else {
        K::lemma_transitive(x, y, z);
        K::lemma_negatively_transitive(x, y, z);
    }
}

/// Listing order is a strict total order on the items' positions.
pub proof fn lemma_precedes_order<K: SortKey>(keys: Seq<K::V>, desc: bool, a: int, b: int, c: int)
    requires
        0 <= a < keys.len(),
        0 <= b < keys.len(),
        0 <= c < keys.len(),
    ensures
        !precedes::<K>(keys, desc, a, a),
        a != b ==> precedes::<K>(keys, desc, a, b) || precedes::<K>(keys, desc, b, a),
        precedes::<K>(keys, desc, a, b) ==> !precedes::<K>(keys, desc, b, a),
        precedes::<K>(keys, desc, a, b) && precedes::<K>(keys, desc, b, c) ==> precedes::<K>(keys, desc, a, c),
{
    lemma_key_before_laws::<K>(keys[a], keys[b], keys[c], desc);
    lemma_key_before_laws::<K>(keys[b], keys[a], keys[c], desc);
    lemma_key_before_laws::<K>(keys[a], keys[c], keys[b], desc);
    lemma_key_before_laws::<K>(keys[c], keys[b], keys[a], desc);
    lemma_key_before_laws::<K>(keys[b], keys[c], keys[a], desc);
    lemma_key_before_laws::<K>(keys[c], keys[a], keys[b], desc);
    lemma_key_before_laws::<K>(keys[a], keys[a], keys[b], desc);
    lemma_key_before_laws::<K>(keys[b], keys[b], keys[a], desc);
    lemma_key_before_laws::<K>(keys[a], keys[b], keys[a], desc);
    lemma_key_before_laws::<K>(keys[b], keys[a], keys[b], desc);
}

/// There is one stable order: two orders that both list the items sorted
/// stably by the same keys are the same.
pub proof fn lemma_stable_order_unique<K: SortKey>(
    keys: Seq<K::V>,
    desc: bool,
    p: Seq<usize>,
    q: Seq<usize>,
)
    requires
        stably_sorted::<K>(keys, desc, p),
        stably_sorted::<K>(keys, desc, q),
    ensures
        p == q,
{
    lemma_orders_agree::<K>(keys, desc, p, q, keys.len() as int);
    assert(p =~= q);
}

proof fn lemma_orders_agree<K: SortKey>(
    keys: Seq<K::V>,
    desc: bool,
    p: Seq<usize>,
    q: Seq<usize>,
    k0: int,
)
    requires
        stably_sorted::<K>(keys, desc, p),
        stably_sorted::<K>(keys, desc, q),
        0 <= k0 <= keys.len(),
    ensures
        forall|j: int| 0 <= j < k0 ==> p[j] == q[j],
    decreases k0,
{
    let n = keys.len();
    if k0 > 0 {
        lemma_orders_agree::<K>(keys, desc, p, q, k0 - 1);
        let k = k0 - 1;
        if p[k] != q[k] {
            // The item first listed by `p` comes later in `q`, and the other
            // way round, so each would precede the other.
            let x = p[k] as int;
            let y = q[k] as int;
            assert(lists(q, n, x));
            assert(lists(p, n, y));
            let l = choose|l: int| 0 <= l < n && #[trigger] q[l] == x;
            let m = choose|m: int| 0 <= m < n && #[trigger] p[m] == y;
            if l < k {
                assert(p[l] == q[l]);
                assert(p[l] != p[k]);
            }
            if m < k {
                assert(p[m] == q[m]);
                assert(q[m] != q[k]);
            }
            assert(precedes::<K>(keys, desc, q[k] as int, q[l] as int));
            assert(precedes::<K>(keys, desc, p[k] as int, p[m] as int));
            lemma_precedes_order::<K>(keys, desc, x, y, x);
            assert(false);
        }
    }
}

/// The views of a sequence of keys.
pub open spec fn key_views<K: View>(keys: Seq<K>) -> Seq<K::V> {
    keys.map_values(|k: K| k@)
}

/// Whether item `i` is listed before item `j`, for `j < i`: only a strictly
/// earlier key puts the later item first.
fn comes_before<K: SortKey>(keys: &Vec<K>, desc: bool, i: usize, j: usize) -> (r: bool)
    requires
        j < i < keys@.len(),
    ensures
        r == precedes::<K>(key_views(keys@), desc, i as int, j as int),
{
    if desc {
        keys[j].lt(&keys[i])
    } else {
        keys[i].lt(&keys[j])
    }
}

/// The order in which a stable sort by `keys` lists the items, ascending or,
/// when `desc`, descending.
pub fn stable_order<K: SortKey>(keys: &Vec<K>, desc: bool) -> (p: Vec<usize>)
    ensures
        stably_sorted::<K>(key_views(keys@), desc, p@),
{
    let n = keys.len();
    let mut p: Vec<usize> = Vec::new();
    let mut i: usize = 0;
    while i < n
        invariant
            n == keys@.len(),
            i <= n,
            p@.len() == i,
            forall|k: int| 0 <= k < i ==> #[trigger] p@[k] < i,
            forall|k: int, l: int| 0 <= k < l < i ==> #[trigger] p@[k] != #[trigger] p@[l],
            forall|x: int| 0 <= x < i ==> #[trigger] lists(p@, i as nat, x),
            forall|k: int, l: int|
                0 <= k < l < i ==> #[trigger] precedes::<K>(key_views(keys@), desc, p@[k] as int, #[trigger] p@[l] as int),
        decreases n - i,
    {
        let mut pos: usize = i;
        while pos > 0 && comes_before(keys, desc, i, p[pos - 1])
            invariant
                n == keys@.len(),
                i < n,
                p@.len() == i,
                pos <= i,
                forall|k: int| 0 <= k < i ==> #[trigger] p@[k] < i,
                forall|l: int| pos <= l < i ==> #[trigger] precedes::<K>(key_views(keys@), desc, i as int, p@[l] as int),
            decreases pos,
        {
            pos = pos - 1;
        }
        let ghost old_p = p@;
        proof {
            if pos > 0 {
                let y = old_p[pos - 1] as int;
                lemma_precedes_order::<K>(key_views(keys@), desc, i as int, y, i as int);
                assert(precedes::<K>(key_views(keys@), desc, y, i as int));
                assert forall|k: int| 0 <= k < pos - 1 implies #[trigger] precedes::<K>(
                    key_views(keys@),
                    desc,
                    old_p[k] as int,
                    i as int,
                ) by {
                    assert(precedes::<K>(key_views(keys@), desc, old_p[k] as int, old_p[pos - 1] as int));
                    lemma_precedes_order::<K>(key_views(keys@), desc, old_p[k] as int, y, i as int);
                }
            }
        }
        p.insert(pos, i);
        proof {
            let np = p@;
            assert(np == old_p.insert(pos as int, i));
            assert forall|k: int| 0 <= k < i + 1 implies #[trigger] np[k] < i + 1 by {
                if k < pos {
                    assert(np[k] == old_p[k]);
                } else if k > pos {
                    assert(np[k] == old_p[k - 1]);
                }
            }
            assert forall|k: int, l: int| 0 <= k < l < i + 1 implies #[trigger] np[k] != #[trigger] np[l] by {
                if k < pos && l < pos {
                    assert(np[k] == old_p[k] && np[l] == old_p[l]);
                } else if k < pos && l > pos {
                    assert(np[k] == old_p[k] && np[l] == old_p[l - 1]);
                } else if k > pos && l > pos {
                    assert(np[k] == old_p[k - 1] && np[l] == old_p[l - 1]);
                } else if k == pos {
                    assert(np[l] == old_p[l - 1]);
                } else {
                    assert(np[k] == old_p[k]);
                }
            }
            assert forall|x: int| 0 <= x < i + 1 implies #[trigger] lists(np, (i + 1) as nat, x) by {
                if x == i {
                    assert(np[pos as int] == i);
                } else {
                    assert(lists(old_p, i as nat, x));
                    let k = choose|k: int| 0 <= k < i && #[trigger] old_p[k] == x;
                    if k < pos {
                        assert(np[k] == x);
                    } else {
                        assert(np[k + 1] == x);
                    }
                }
            }
            assert forall|k: int, l: int| 0 <= k < l < i + 1 implies #[trigger] precedes::<K>(
                key_views(keys@),
                desc,
                np[k] as int,
                #[trigger] np[l] as int,
            ) by {
                if k < pos && l < pos {
                    assert(np[k] == old_p[k] && np[l] == old_p[l]);
                } else if k < pos && l > pos {
                    assert(np[k] == old_p[k] && np[l] == old_p[l - 1]);
                } else if k > pos && l > pos {
                    assert(np[k] == old_p[k - 1] && np[l] == old_p[l - 1]);
                } else if k == pos {
                    assert(np[l] == old_p[l - 1]);
                } else {
                    assert(np[k] == old_p[k]);
                    if k == pos - 1 {
                    } else {
                    }
                }
            }
        }
        i = i + 1;
    }
    p
}

} // verus!
