//! Stable sorting of positions by a key: numeric keys and string keys. Each sort
//! returns the positions of the input in the order a stable sort by key puts them.

use vstd::prelude::*;

use crate::text::{lemma_str_lt_order, str_less, str_lt};

verus! {

/// Position `k` occurs in `out`.
pub open spec fn lists(out: Seq<usize>, k: int) -> bool {
    exists|i: int| 0 <= i < out.len() && out[i] == k
}

/// Position `a` goes before position `b` when sorting stably by `keys`.
pub open spec fn num_before(keys: Seq<u128>, a: int, b: int) -> bool {
    keys[a] < keys[b] || (keys[a] == keys[b] && a < b)
}

/// `out` lists every position of `keys` once, in stable ascending key order.
pub open spec fn stably_sorted_num(keys: Seq<u128>, out: Seq<usize>) -> bool {
    &&& out.len() == keys.len()
    &&& forall|i: int| 0 <= i < out.len() ==> #[trigger] out[i] < keys.len()
    &&& forall|k: int| 0 <= k < keys.len() ==> #[trigger] lists(out, k)
    &&& forall|i: int, j: int|
        0 <= i < j < out.len() ==> num_before(keys, #[trigger] out[i] as int, #[trigger] out[j] as int)
}

/// Positions of `keys` in stable ascending key order (what `sort_by_key` yields).
pub fn sort_positions_num(keys: &Vec<u128>) -> (out: Vec<usize>)
    ensures
        stably_sorted_num(keys@, out@),
{
    let n = keys.len();
    let mut out: Vec<usize> = Vec::new();
    let mut i: usize = 0;
    while i < n
        invariant
            n == keys@.len(),
            i <= n,
            out.len() == i,
            forall|k: int| 0 <= k < out.len() ==> #[trigger] out[k] < i,
            forall|k: int| 0 <= k < i ==> #[trigger] lists(out@, k),
            forall|a: int, b: int|
                0 <= a < b < out.len() ==> num_before(keys@, #[trigger] out[a] as int, #[trigger] out[b] as int),
        decreases n - i,
    {
        let mut p: usize = 0;
        while p < out.len() && !(keys[i] < keys[out[p]])
            invariant
                n == keys@.len(),
                i < n,
                p <= out.len(),
                forall|k: int| 0 <= k < out.len() ==> #[trigger] out[k] < i,
                forall|q: int| 0 <= q < p ==> !(keys@[i as int] < keys@[#[trigger] out[q] as int]),
            decreases out.len() - p,
        {
            p = p + 1;
        }
        let ghost old_out = out@;
        out.insert(p, i);
        proof {
            assert forall|k: int| 0 <= k < i + 1 implies #[trigger] lists(out@, k) by {
                if k == i {
                    assert(out@[p as int] == k);
                } else {
                    assert(lists(old_out, k));
                    let q0 = choose|q: int| 0 <= q < old_out.len() && old_out[q] == k;
                    if q0 < p {
                        assert(out@[q0] == k);
                    } else {
                        assert(out@[q0 + 1] == k);
                    }
                }
            }
            assert forall|a: int, b: int| 0 <= a < b < out.len() implies num_before(
                keys@,
                #[trigger] out@[a] as int,
                #[trigger] out@[b] as int,
            ) by {
                if a < p && b < p {
                    assert(out@[a] == old_out[a] && out@[b] == old_out[b]);
                } else if a < p && b == p {
                    assert(out@[a] == old_out[a]);
                } else if a < p && b > p {
                    assert(out@[a] == old_out[a] && out@[b] == old_out[b - 1]);
                } else if a == p {
                    assert(out@[b] == old_out[b - 1]);
                    assert(num_before(keys@, old_out[p as int] as int, old_out[b - 1] as int)
                        || b - 1 == p);
                } else {
                    assert(out@[a] == old_out[a - 1] && out@[b] == old_out[b - 1]);
                }
            }
        }
        i = i + 1;
    }
    out
}

/// Position `a` goes before position `b` when sorting stably by string `keys`.
pub open spec fn str_before(keys: Seq<Seq<char>>, a: int, b: int) -> bool {
    str_lt(keys[a], keys[b]) || (keys[a] == keys[b] && a < b)
}

/// `out` lists every position of `keys` once, in stable ascending string order.
pub open spec fn stably_sorted_str(keys: Seq<Seq<char>>, out: Seq<usize>) -> bool {
    &&& out.len() == keys.len()
    &&& forall|i: int| 0 <= i < out.len() ==> #[trigger] out[i] < keys.len()
    &&& forall|k: int| 0 <= k < keys.len() ==> #[trigger] lists(out, k)
    &&& forall|i: int, j: int|
        0 <= i < j < out.len() ==> str_before(keys, #[trigger] out[i] as int, #[trigger] out[j] as int)
}

/// The character sequences of a vector of strings.
pub open spec fn views(v: Seq<String>) -> Seq<Seq<char>> {
    v.map_values(|s: String| s@)
}

/// Positions of `keys` in stable ascending string order.
pub fn sort_positions_str(keys: &Vec<String>) -> (out: Vec<usize>)
    ensures
        stably_sorted_str(views(keys@), out@),
{
    let n = keys.len();
    let ghost ks = views(keys@);
    let mut out: Vec<usize> = Vec::new();
    let mut i: usize = 0;
    while i < n
        invariant
            n == keys@.len(),
            ks == views(keys@),
            i <= n,
            out.len() == i,
            forall|k: int| 0 <= k < out.len() ==> #[trigger] out[k] < i,
            forall|k: int| 0 <= k < i ==> #[trigger] lists(out@, k),
            forall|a: int, b: int|
                0 <= a < b < out.len() ==> str_before(ks, #[trigger] out[a] as int, #[trigger] out[b] as int),
        decreases n - i,
    {
        let mut p: usize = 0;
        while p < out.len() && !str_less(keys[i].as_str(), keys[out[p]].as_str())
            invariant
                n == keys@.len(),
                ks == views(keys@),
                i < n,
                p <= out.len(),
                forall|k: int| 0 <= k < out.len() ==> #[trigger] out[k] < i,
                forall|q: int| 0 <= q < p ==> !str_lt(ks[i as int], ks[#[trigger] out[q] as int]),
            decreases out.len() - p,
        {
            p = p + 1;
        }
        let ghost old_out = out@;
        out.insert(p, i);
        proof {
            assert forall|k: int| 0 <= k < i + 1 implies #[trigger] lists(out@, k) by {
                if k == i {
                    assert(out@[p as int] == k);
                } else {
                    assert(lists(old_out, k));
                    let q0 = choose|q: int| 0 <= q < old_out.len() && old_out[q] == k;
                    if q0 < p {
                        assert(out@[q0] == k);
                    } else {
                        assert(out@[q0 + 1] == k);
                    }
                }
            }
            assert forall|a: int, b: int| 0 <= a < b < out.len() implies str_before(
                ks,
                #[trigger] out@[a] as int,
                #[trigger] out@[b] as int,
            ) by {
                if a < p && b < p {
                    assert(out@[a] == old_out[a] && out@[b] == old_out[b]);
                } else if a < p && b == p {
                    assert(out@[a] == old_out[a]);
                    lemma_str_lt_order(ks[i as int], ks[old_out[a] as int], ks[i as int]);
                } else if a < p && b > p {
                    assert(out@[a] == old_out[a] && out@[b] == old_out[b - 1]);
                } else if a == p {
                    assert(out@[b] == old_out[b - 1]);
                    if b - 1 != p {
                        assert(str_before(ks, old_out[p as int] as int, old_out[b - 1] as int));
                        lemma_str_lt_order(
                            ks[i as int],
                            ks[old_out[p as int] as int],
                            ks[old_out[b - 1] as int],
                        );
                    }
                } else {
                    assert(out@[a] == old_out[a - 1] && out@[b] == old_out[b - 1]);
                }
            }
        }
        i = i + 1;
    }
    out
}

} // verus!
