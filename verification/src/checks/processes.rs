//! The busiest processes: the first few of the process list in a stable sort
//! by decreasing load (CPU share or resident memory).
use vstd::prelude::*;

use crate::numfmt::Milli;

verus! {

/// One process, as the system lists it.
#[derive(Debug, Clone)]
pub struct ProcessSample {
    pub name: String,
    pub pid: u32,
    /// Resident memory, in bytes.
    pub memory: u64,
    /// CPU share, in thousandths of a percent.
    pub cpu: Milli,
}

/// `i` comes before `j` in a stable sort by decreasing key: a larger key
/// first, the earlier of equal keys first.
pub open spec fn before(keys: Seq<i128>, i: int, j: int) -> bool {
    keys[i] > keys[j] || (keys[i] == keys[j] && i < j)
}

pub open spec fn min_len(n: nat, limit: nat) -> nat {
    if limit < n {
        limit
    } else {
        n
    }
}

/// `order` is the first `limit` indices of `keys` in a stable sort by
/// decreasing key: as many as there are, up to `limit`, in that order, and
/// every index left out comes after every one taken.
pub open spec fn is_top(keys: Seq<i128>, order: Seq<usize>, limit: nat) -> bool {
    &&& order.len() == min_len(keys.len(), limit)
    &&& forall|a: int| 0 <= a < order.len() ==> (#[trigger] order[a] as int) < keys.len()
    &&& forall|a: int, b: int|
        0 <= a < b < order.len() ==> before(keys, #[trigger] order[a] as int, #[trigger] order[b] as int)
    &&& forall|i: int, a: int|
        #![trigger order[a], keys[i]]
        0 <= i < keys.len() && 0 <= a < order.len() && !order.contains(i as usize) ==> before(
            keys,
            order[a] as int,
            i,
        )
}

/// `v` occurs in `s`.
pub open spec fn holds(s: Seq<usize>, v: int) -> bool {
    exists|p: int| 0 <= p < s.len() && #[trigger] s[p] == v as usize
}

/// The first `limit` indices in a stable sort by decreasing key.
pub open spec fn top_order(keys: Seq<i128>, limit: nat) -> Seq<usize> {
    choose|order: Seq<usize>| is_top(keys, order, limit)
}

/// Only one order meets [`is_top`].
pub proof fn lemma_top_unique(keys: Seq<i128>, r: Seq<usize>, s: Seq<usize>, limit: nat)
    requires
        is_top(keys, r, limit),
        is_top(keys, s, limit),
    ensures
        r == s,
{
    assert forall|a: int| 0 <= a < r.len() implies r[a] == s[a] by {
        lemma_top_prefix(keys, r, s, limit, a);
    }
    assert(r =~= s);
}

proof fn lemma_top_prefix(keys: Seq<i128>, r: Seq<usize>, s: Seq<usize>, limit: nat, a: int)
    requires
        is_top(keys, r, limit),
        is_top(keys, s, limit),
        0 <= a < r.len(),
    ensures
        r[a] == s[a],
    decreases a,
{
    assert forall|b: int| 0 <= b < a implies r[b] == s[b] by {
        lemma_top_prefix(keys, r, s, limit, b);
    }
    let x = r[a] as int;
    let y = s[a] as int;
    if x != y {
        // `y` is not among the first `a` of `r` (they are those of `s`, which
        // all come strictly before `y`), so `r[a]` comes before it; and
        // symmetrically `s[a]` comes before `x`.
        assert forall|b: int| 0 <= b < a implies r[b] != y as usize by {
            assert(before(keys, s[b] as int, s[a] as int));
        }
        assert forall|b: int| 0 <= b < a implies s[b] != x as usize by {
            assert(before(keys, r[b] as int, r[a] as int));
        }
        assert(before(keys, x, y)) by {
            if r.contains(y as usize) {
                let b = choose|b: int| 0 <= b < r.len() && r[b] == y as usize;
                if b < a {
                    assert(r[b] != y as usize);
                } else if b > a {
                    assert(before(keys, r[a] as int, r[b] as int));
                }
            } else {
                assert(before(keys, r[a] as int, y));
            }
        }
        assert(before(keys, y, x)) by {
            if s.contains(x as usize) {
                let b = choose|b: int| 0 <= b < s.len() && s[b] == x as usize;
                if b < a {
                    assert(s[b] != x as usize);
                } else if b > a {
                    assert(before(keys, s[a] as int, s[b] as int));
                }
            } else {
                assert(before(keys, s[a] as int, x));
            }
        }
    }
}

/// The first `limit` indices of `keys` in a stable sort by decreasing key
/// (the list `sort_by` gives, cut after `limit`).
pub fn top_indices(keys: &Vec<i128>, limit: usize) -> (r: Vec<usize>)
    ensures
        is_top(keys@, r@, limit as nat),
        r@ == top_order(keys@, limit as nat),
{
    let n = keys.len();
    let mut idx: Vec<usize> = Vec::new();
    let mut i: usize = 0;
    while i < n
        invariant
            i <= n == keys.len(),
            idx.len() == i,
            forall|p: int| 0 <= p < i ==> #[trigger] idx@[p] == p,
        decreases n - i,
    {
        idx.push(i);
        i = i + 1;
    }
    assert forall|v: int| 0 <= v < n implies #[trigger] holds(idx@, v) by {
        assert(idx@[v] == v as usize);
    }
    assert forall|p: int, q: int| 0 <= p < q < n implies #[trigger] idx@[p] != #[trigger] idx@[q] by {
        assert(idx@[p] == p as usize);
        assert(idx@[q] == q as usize);
    }
    let want = if limit < n {
        limit
    } else {
        n
    };
    let mut k: usize = 0;
    while k < want
        invariant
            n == keys.len(),
            idx.len() == n,
            want == min_len(n as nat, limit as nat),
            k <= want <= n,
            forall|p: int| 0 <= p < n ==> (#[trigger] idx@[p] as int) < n,
            forall|v: int| 0 <= v < n ==> #[trigger] holds(idx@, v),
            forall|p: int, q: int| 0 <= p < q < n ==> #[trigger] idx@[p] != #[trigger] idx@[q],
            forall|a: int, b: int|
                0 <= a < b < n && a < k ==> before(
                    keys@,
                    #[trigger] idx@[a] as int,
                    #[trigger] idx@[b] as int,
                ),
        decreases want - k,
    {
        let mut m = k;
        let mut j = k + 1;
        while j < n
            invariant
                n == keys.len(),
                idx.len() == n,
                k < n,
                k <= m < j <= n,
                forall|p: int| 0 <= p < n ==> (#[trigger] idx@[p] as int) < n,
                forall|p: int, q: int| 0 <= p < q < n ==> #[trigger] idx@[p] != #[trigger] idx@[q],
                forall|b: int|
                    k <= b < j && b != m ==> before(keys@, idx@[m as int] as int, #[trigger] idx@[b] as int),
            decreases n - j,
        {
            let kj = keys[idx[j]];
            let km = keys[idx[m]];
            if kj > km || (kj == km && idx[j] < idx[m]) {
                m = j;
            }
            j = j + 1;
        }
        let ghost old_idx = idx@;
        let tk = idx[k];
        let tm = idx[m];
        idx.set(k, tm);
        idx.set(m, tk);
        proof {
            assert forall|v: int| 0 <= v < n implies #[trigger] holds(idx@, v) by {
                assert(holds(old_idx, v));
                let p = choose|p: int| 0 <= p < n && old_idx[p] == v as usize;
                if p == k {
                    assert(idx@[m as int] == v as usize);
                } else if p == m {
                    assert(idx@[k as int] == v as usize);
                } else {
                    assert(idx@[p] == v as usize);
                }
            }
            assert forall|p: int, q: int| 0 <= p < q < n implies #[trigger] idx@[p]
                != #[trigger] idx@[q] by {
                let pp = if p == k {
                    m as int
                } else if p == m {
                    k as int
                } else {
                    p
                };
                let qq = if q == k {
                    m as int
                } else if q == m {
                    k as int
                } else {
                    q
                };
                assert(idx@[p] == old_idx[pp]);
                assert(idx@[q] == old_idx[qq]);
                assert(pp != qq);
                if pp < qq {
                    assert(old_idx[pp] != old_idx[qq]);
                } else {
                    assert(old_idx[qq] != old_idx[pp]);
                }
            }
            assert forall|a: int, b: int| 0 <= a < b < n && a < k + 1 implies before(
                keys@,
                #[trigger] idx@[a] as int,
                #[trigger] idx@[b] as int,
            ) by {
                if a < k {
                    if b == m {
                        assert(idx@[b] == old_idx[k as int]);
                        assert(before(keys@, old_idx[a] as int, old_idx[k as int] as int));
                    } else if b == k {
                        assert(idx@[b] == old_idx[m as int]);
                        assert(before(keys@, old_idx[a] as int, old_idx[m as int] as int));
                    } else {
                        assert(before(keys@, old_idx[a] as int, old_idx[b] as int));
                    }
                } else {
                    assert(a == k);
                    if b == m {
                        assert(idx@[b] == old_idx[k as int]);
                        assert(before(keys@, old_idx[m as int] as int, old_idx[k as int] as int));
                    } else {
                        assert(before(keys@, old_idx[m as int] as int, old_idx[b] as int));
                    }
                }
            }
        }
        k = k + 1;
    }
    let mut r: Vec<usize> = Vec::new();
    let mut p: usize = 0;
    while p < want
        invariant
            p <= want <= n,
            idx.len() == n,
            r@ == idx@.take(p as int),
        decreases want - p,
    {
        r.push(idx[p]);
        assert(r@ =~= idx@.take(p + 1));
        p = p + 1;
    }
    proof {
        assert forall|i: int, a: int|
            #![trigger r@[a], keys@[i]]
            0 <= i < n && 0 <= a < r@.len() && !r@.contains(i as usize) implies before(
            keys@,
            r@[a] as int,
            i,
        ) by {
            assert(holds(idx@, i));
            let q = choose|q: int| 0 <= q < n && idx@[q] == i as usize;
            if q < want {
                assert(r@[q] == i as usize);
            }
            assert(r@[a] == idx@[a]);
            assert(before(keys@, idx@[a] as int, idx@[q] as int));
        }
        assert forall|a: int, b: int| 0 <= a < b < r@.len() implies before(
            keys@,
            #[trigger] r@[a] as int,
            #[trigger] r@[b] as int,
        ) by {
            assert(r@[a] == idx@[a]);
            assert(r@[b] == idx@[b]);
        }
        assert forall|a: int| 0 <= a < r@.len() implies (#[trigger] r@[a] as int) < n by {
            assert(r@[a] == idx@[a]);
        }
        assert(is_top(keys@, r@, limit as nat));
        lemma_top_unique(keys@, r@, top_order(keys@, limit as nat), limit as nat);
    }
    r
}

} // verus!
