//! Ranking search candidates. Similarities are floating point and are
//! computed outside the library; the library ranks by integer keys that order
//! the candidates as the similarities do.

use vstd::prelude::*;

verus! {

/// Candidate `a` ranks before candidate `b`: a higher key, or an equal key
/// and an earlier position.
pub open spec fn ranks_before(keys: Seq<i64>, a: int, b: int) -> bool {
    keys[a] > keys[b] || (keys[a] == keys[b] && a < b)
}

/// `order` lists every candidate position once, best first.
pub open spec fn is_ranking(keys: Seq<i64>, order: Seq<usize>) -> bool {
    &&& order.len() == keys.len()
    &&& forall|i: int| 0 <= i < order.len() ==> (#[trigger] order[i]) < keys.len()
    &&& forall|i: int, j: int|
        0 <= i < j < order.len() ==> ranks_before(keys, #[trigger] order[i] as int, #[trigger] order[j] as int)
}

/// How many of `n` candidates the best `top_k` are.
pub open spec fn kept_count(top_k: int, n: int) -> int {
    if top_k < n {
        top_k
    } else {
        n
    }
}

/// The positions of the best `top_k` candidates, best first; candidates with
/// equal keys keep their order.
pub fn rank_top_k(keys: &Vec<i64>, top_k: usize) -> (r: Vec<usize>)
    ensures
        exists|order: Seq<usize>|
            is_ranking(keys@, order) && r@ == #[trigger] order.take(kept_count(top_k as int, keys@.len() as int)),
{
    let n = keys.len();
    let mut out: Vec<usize> = Vec::new();
    let mut i: usize = 0;
    while i < n
        invariant
            n == keys@.len(),
            i <= n,
            out@.len() == i,
            forall|a: int| 0 <= a < out@.len() ==> (#[trigger] out@[a]) < i,
            forall|a: int, b: int|
                0 <= a < b < out@.len() ==> ranks_before(keys@, #[trigger] out@[a] as int, #[trigger] out@[b] as int),
        decreases n - i,
    {
        let mut p: usize = 0;
        while p < out.len() && keys[out[p]] >= keys[i]
            invariant
                p <= out@.len(),
                n == keys@.len(),
                i < n,
                forall|a: int| 0 <= a < out@.len() ==> (#[trigger] out@[a]) < i,
                forall|k: int| 0 <= k < p ==> keys@[#[trigger] out@[k] as int] >= keys@[i as int],
            decreases out.len() - p,
        {
            p = p + 1;
        }
        let ghost before = out@;
        out.insert(p, i);
        proof {
            assert forall|a: int, b: int|
                0 <= a < b < out@.len() implies ranks_before(keys@, #[trigger] out@[a] as int, #[trigger] out@[b] as int) by {
                if a < p && b == p {
                    assert(out@[a] == before[a]);
                } else if a == p && b > p {
                    assert(out@[b] == before[b - 1]);
                    if b - 1 > p {
                        assert(ranks_before(keys@, before[p as int] as int, before[b - 1] as int));
                    }
                } else if a < p && b > p {
                    assert(out@[a] == before[a]);
                    assert(out@[b] == before[b - 1]);
                } else if a > p {
                    assert(out@[a] == before[a - 1]);
                    assert(out@[b] == before[b - 1]);
                } else {
                    assert(out@[a] == before[a]);
                    assert(out@[b] == before[b]);
                }
            }
        }
        i = i + 1;
    }
    let ghost order = out@;
    let k = if top_k < n {
        top_k
    } else {
        n
    };
    out.truncate(k);
    proof {
        assert(out@ =~= order.take(k as int));
        assert(is_ranking(keys@, order));
        assert(out@ == order.take(kept_count(top_k as int, n as int)));
    }
    out
}

/// The positions of the items in ascending order of their `index`, as sorting
/// by that index leaves them.
pub fn order_by_index(indices: &Vec<u32>) -> (r: Vec<usize>)
    ensures
        r@.len() == indices@.len(),
        forall|i: int| 0 <= i < r@.len() ==> (#[trigger] r@[i]) < indices@.len(),
        forall|i: int, j: int|
            0 <= i < j < r@.len() ==> indices@[#[trigger] r@[i] as int] < indices@[#[trigger] r@[j] as int] || (
            indices@[r@[i] as int] == indices@[r@[j] as int] && r@[i] < r@[j]),
{
    let mut keys: Vec<i64> = Vec::new();
    let mut i: usize = 0;
    while i < indices.len()
        invariant
            i <= indices@.len(),
            keys@.len() == i,
            forall|k: int| 0 <= k < i ==> (#[trigger] keys@[k]) == -(indices@[k] as int),
        decreases indices.len() - i,
    {
        keys.push(-(indices[i] as i64));
        i = i + 1;
    }
    let r = rank_top_k(&keys, keys.len());
    proof {
        let order = choose|order: Seq<usize>| is_ranking(keys@, order) && r@ == #[trigger] order.take(kept_count(keys@.len() as int, keys@.len() as int));
        assert(order.take(keys@.len() as int) =~= order);
        assert forall|i: int, j: int| 0 <= i < j < r@.len() implies indices@[#[trigger] r@[i] as int] < indices@[#[trigger] r@[j] as int] || (
            indices@[r@[i] as int] == indices@[r@[j] as int] && r@[i] < r@[j]) by {
            assert(ranks_before(keys@, order[i] as int, order[j] as int));
        }
    }
    r
}

} // verus!
