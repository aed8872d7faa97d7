//! Host-architecture enumeration: from the compute capabilities of the
//! installed devices and the configured ceiling to the deduplicated,
//! ascending architecture list, whose greatest entry alone embeds PTX.

use vstd::prelude::*;

use indexmap::IndexSet;

use crate::arch::CudaArch;
use crate::errors::BuildError;
use crate::strutil::{
    dedup_seq, lemma_contains_insert, lemma_contains_push, lemma_dedup_seq_contains,
    lemma_dedup_seq_unique,
};

verus! {

// ---------------------------------------------------------------------------
// The insertion-ordered set of an outside crate, behind trusted items.
// ---------------------------------------------------------------------------

#[verifier::external_type_specification]
#[verifier::external_body]
#[verifier::reject_recursive_types(T)]
#[verifier::reject_recursive_types(S)]
pub struct ExIndexSet<T, S>(IndexSet<T, S>);

/// What a capability set holds, in insertion order.
pub uninterp spec fn index_set_elems(s: IndexSet<(u32, u32)>) -> Seq<(u32, u32)>;

/// Relies on indexmap's `IndexSet::new`: a new set is empty.
#[verifier::external_body]
fn arch_set_new() -> (s: IndexSet<(u32, u32)>)
    ensures
        index_set_elems(s) == Seq::<(u32, u32)>::empty(),
{
    IndexSet::new()
}

/// Relies on indexmap's `IndexSet::insert`: a new value goes to the end of
/// the insertion order and yields true; an equivalent existing value leaves
/// the set unchanged and yields false.
#[verifier::external_body]
fn arch_set_insert(s: &mut IndexSet<(u32, u32)>, v: (u32, u32)) -> (r: bool)
    ensures
        r == !index_set_elems(*old(s)).contains(v),
        index_set_elems(*final(s)) == if index_set_elems(*old(s)).contains(v) {
            index_set_elems(*old(s))
        } else {
            index_set_elems(*old(s)).push(v)
        },
{
    s.insert(v)
}

/// Relies on indexmap's `IndexSet::into_iter`: values come out in insertion
/// order.
#[verifier::external_body]
fn arch_set_to_vec(s: IndexSet<(u32, u32)>) -> (r: Vec<(u32, u32)>)
    ensures
        r@ == index_set_elems(s),
{
    s.into_iter().collect()
}

// ---------------------------------------------------------------------------
// Capability pairs.
// ---------------------------------------------------------------------------

/// Lexicographic order on capability pairs.
pub open spec fn pair_le(a: (u32, u32), b: (u32, u32)) -> bool {
    a.0 < b.0 || (a.0 == b.0 && a.1 <= b.1)
}

/// Strict lexicographic order.
pub open spec fn pair_lt(a: (u32, u32), b: (u32, u32)) -> bool {
    pair_le(a, b) && a != b
}

/// The lesser of two capability pairs.
pub open spec fn spec_pair_min(a: (u32, u32), b: (u32, u32)) -> (u32, u32) {
    if pair_le(a, b) {
        a
    } else {
        b
    }
}

/// The order test, as executable code.
pub fn pair_le_exec(a: (u32, u32), b: (u32, u32)) -> (r: bool)
    ensures
        r == pair_le(a, b),
{
    a.0 < b.0 || (a.0 == b.0 && a.1 <= b.1)
}

/// The lesser of two capability pairs, as executable code.
pub fn pair_min(a: (u32, u32), b: (u32, u32)) -> (r: (u32, u32))
    ensures
        r == spec_pair_min(a, b),
{
    if a.0 < b.0 || (a.0 == b.0 && a.1 <= b.1) {
        a
    } else {
        b
    }
}

/// Every device capability clamped down to the ceiling.
pub open spec fn spec_clamped(devices: Seq<(u32, u32)>, ceiling: (u32, u32)) -> Seq<(u32, u32)> {
    devices.map_values(|d: (u32, u32)| spec_pair_min(d, ceiling))
}

/// Sorts capability pairs ascending; on unique input the order is kept
/// strict by the uniqueness itself.
fn sort_pairs(v: Vec<(u32, u32)>) -> (r: Vec<(u32, u32)>)
    ensures
        r@.len() == v@.len(),
        forall|y: (u32, u32)| r@.contains(y) <==> v@.contains(y),
        forall|i: int, j: int| 0 <= i < j < r@.len() ==> pair_le(#[trigger] r@[i], #[trigger] r@[j]),
        (forall|i: int, j: int| 0 <= i < j < v@.len() ==> v@[i] != v@[j]) ==> (forall|i: int, j: int|
            0 <= i < j < r@.len() ==> #[trigger] r@[i] != #[trigger] r@[j]),
{
    let mut out: Vec<(u32, u32)> = Vec::new();
    let mut i: usize = 0;
    while i < v.len()
        invariant
            i <= v@.len(),
            out@.len() == i,
            forall|y: (u32, u32)| out@.contains(y) <==> v@.take(i as int).contains(y),
            forall|a: int, b: int|
                0 <= a < b < out@.len() ==> pair_le(#[trigger] out@[a], #[trigger] out@[b]),
            (forall|a: int, b: int| 0 <= a < b < v@.len() ==> v@[a] != v@[b]) ==> (forall|
                a: int,
                b: int,
            |
                0 <= a < b < out@.len() ==> #[trigger] out@[a] != #[trigger] out@[b]),
        decreases v@.len() - i,
    {
        let x = v[i];
        let mut p: usize = 0;
        while p < out.len() && pair_le_exec(out[p], x)
            invariant
                p <= out@.len(),
                forall|k: int| 0 <= k < p ==> pair_le(#[trigger] out@[k], x),
            decreases out@.len() - p,
        {
            p = p + 1;
        }
        proof {
            if p < out@.len() {
                assert(!pair_le(out@[p as int], x));
                assert(pair_le(x, out@[p as int]));
            }
        }
        let ghost pre = out@;
        out.insert(p, x);
        proof {
            let now = out@;
            assert(now == pre.insert(p as int, x));
            // Order is kept around the insertion point.
            assert forall|a: int, b: int| 0 <= a < b < now.len() implies pair_le(
                #[trigger] now[a],
                #[trigger] now[b],
            ) by {
                if a < p && b < p {
                    assert(now[a] == pre[a] && now[b] == pre[b]);
                } else if a < p && b == p {
                    assert(now[a] == pre[a]);
                } else if a < p && b > p {
                    assert(now[a] == pre[a] && now[b] == pre[b - 1]);
                    if b - 1 >= p {
                        if b - 1 == p {
                            if p < pre.len() {
                                assert(pair_le(x, pre[p as int]));
                            }
                        }
                        assert(pair_le(pre[a], pre[b - 1]));
                    }
                } else if a == p {
                    assert(now[b] == pre[b - 1]);
                    assert(pair_le(x, pre[p as int]));
                    if b - 1 > p {
                        assert(pair_le(pre[p as int], pre[b - 1]));
                    }
                } else {
                    assert(now[a] == pre[a - 1] && now[b] == pre[b - 1]);
                }
            }
            // Membership: the new list holds exactly the old values and `x`.
            assert forall|y: (u32, u32)| now.contains(y) <==> v@.take(i + 1 as int).contains(
                y,
            ) by {
                lemma_contains_insert(pre, p as int, x, y);
                lemma_contains_push(v@.take(i as int), v@[i as int], y);
                assert(v@.take(i + 1 as int) =~= v@.take(i as int).push(v@[i as int]));
            }
            // Uniqueness is preserved when the input is unique.
            if forall|a: int, b: int| 0 <= a < b < v@.len() ==> v@[a] != v@[b] {
                assert(!v@.take(i as int).contains(x)) by {
                    if v@.take(i as int).contains(x) {
                        let w = choose|w: int|
                            0 <= w < i && #[trigger] v@.take(i as int)[w] == x;
                        assert(v@[w] == v@[i as int]);
                    }
                }
                assert(!pre.contains(x));
                assert forall|a: int, b: int| 0 <= a < b < now.len() implies #[trigger] now[a]
                    != #[trigger] now[b] by {
                    assert(forall|w: int| 0 <= w < pre.len() ==> #[trigger] pre[w] != x);
                    if a < p && b < p {
                    } else if a < p && b == p {
                        assert(now[a] == pre[a]);
                    } else if a < p && b > p {
                        assert(now[a] == pre[a] && now[b] == pre[b - 1]);
                    } else if a == p {
                        assert(now[b] == pre[b - 1]);
                    } else {
                        assert(now[a] == pre[a - 1] && now[b] == pre[b - 1]);
                    }
                }
            }
        }
        i = i + 1;
    }
    proof {
        assert(v@.take(v@.len() as int) =~= v@);
    }
    out
}

/// The greatest capability pair named by an architecture list, if any: the
/// configured ceiling.
pub fn max_cuda_arch(arches: &Vec<CudaArch>) -> (r: Option<(u32, u32)>)
    ensures
        match r {
            Some(m) => {
                &&& exists|k: int|
                    0 <= k < arches@.len() && ((#[trigger] arches@[k]).major, arches@[k].minor)
                        == m
                &&& forall|k: int|
                    0 <= k < arches@.len() ==> pair_le(
                        ((#[trigger] arches@[k]).major, arches@[k].minor),
                        m,
                    )
            },
            None => arches@.len() == 0,
        },
{
    if arches.len() == 0 {
        return None;
    }
    let first = arches[0];
    let mut best: (u32, u32) = (first.major, first.minor);
    let mut i: usize = 1;
    while i < arches.len()
        invariant
            1 <= i <= arches@.len(),
            arches@.len() >= 1,
            exists|k: int|
                0 <= k < i && ((#[trigger] arches@[k]).major, arches@[k].minor) == best,
            forall|k: int|
                0 <= k < i ==> pair_le(((#[trigger] arches@[k]).major, arches@[k].minor), best),
        decreases arches@.len() - i,
    {
        let a = arches[i];
        if best.0 < a.major || (best.0 == a.major && best.1 <= a.minor) {
            best = (a.major, a.minor);
        }
        i = i + 1;
    }
    Some(best)
}

/// Enumerated device capabilities to the host architecture list: each
/// capability clamped down to the ceiling, duplicates dropped, sorted
/// ascending, and exactly the greatest entry marked to embed PTX. With no
/// device, enumeration fails.
pub fn host_arches(devices: &Vec<(u32, u32)>, ceiling: (u32, u32)) -> (r: Result<
    Vec<CudaArch>,
    BuildError,
>)
    ensures
        r is Err <==> devices@.len() == 0,
        r matches Err(e) ==> e == BuildError::NoDeviceFound,
        match r {
            Ok(v) => {
                &&& v@.len() >= 1
                &&& forall|k: int|
                    0 <= k < v@.len() ==> pair_le(
                        ((#[trigger] v@[k]).major, v@[k].minor),
                        ceiling,
                    )
                &&& forall|k: int|
                    0 <= k < v@.len() ==> spec_clamped(devices@, ceiling).contains(
                        ((#[trigger] v@[k]).major, v@[k].minor),
                    )
                &&& forall|j: int|
                    0 <= j < devices@.len() ==> exists|k: int|
                        0 <= k < v@.len() && ((#[trigger] v@[k]).major, v@[k].minor)
                            == #[trigger] spec_pair_min(devices@[j], ceiling)
                &&& forall|i: int, j: int|
                    0 <= i < j < v@.len() ==> pair_lt(
                        ((#[trigger] v@[i]).major, v@[i].minor),
                        ((#[trigger] v@[j]).major, v@[j].minor),
                    )
                &&& forall|k: int| 0 <= k < v@.len() - 1 ==> !(#[trigger] v@[k]).with_ptx
                &&& v@[v@.len() - 1].with_ptx
            },
            Err(_) => true,
        },
{
    if devices.len() == 0 {
        return Err(BuildError::NoDeviceFound);
    }
    let ghost clamped_all = spec_clamped(devices@, ceiling);
    let mut set = arch_set_new();
    let mut i: usize = 0;
    proof {
        assert(spec_clamped(devices@.take(0), ceiling) =~= Seq::<(u32, u32)>::empty());
    }
    while i < devices.len()
        invariant
            i <= devices@.len(),
            index_set_elems(set) == dedup_seq(spec_clamped(devices@.take(i as int), ceiling)),
        decreases devices@.len() - i,
    {
        let m = pair_min(devices[i], ceiling);
        proof {
            let q = spec_clamped(devices@.take(i as int), ceiling);
            let q1 = spec_clamped(devices@.take(i + 1 as int), ceiling);
            assert(q1 =~= q.push(spec_pair_min(devices@[i as int], ceiling)));
            assert(q1.drop_last() =~= q);
            lemma_dedup_seq_contains(q, m);
        }
        arch_set_insert(&mut set, m);
        i = i + 1;
    }
    proof {
        assert(devices@.take(devices@.len() as int) =~= devices@);
    }
    let pairs = arch_set_to_vec(set);
    proof {
        lemma_dedup_seq_contains(clamped_all, arbitrary());
        lemma_dedup_seq_unique(clamped_all);
        assert(forall|y: (u32, u32)|
            #[trigger] pairs@.contains(y) <==> clamped_all.contains(y)) by {
            assert forall|y: (u32, u32)| #[trigger]
                pairs@.contains(y) <==> clamped_all.contains(y) by {
                lemma_dedup_seq_contains(clamped_all, y);
            }
        }
        assert(pairs@.len() >= 1) by {
            assert(clamped_all.contains(spec_pair_min(devices@[0], ceiling))) by {
                assert(clamped_all[0] == spec_pair_min(devices@[0], ceiling));
            }
            lemma_dedup_seq_contains(clamped_all, spec_pair_min(devices@[0], ceiling));
            assert(pairs@.contains(spec_pair_min(devices@[0], ceiling)));
        }
    }
    let sorted = sort_pairs(pairs);
    proof {
        assert(sorted@.len() >= 1) by {
            assert(pairs@.contains(pairs@[0]));
            assert(sorted@.contains(pairs@[0]));
        }
    }
    let mut arches: Vec<CudaArch> = Vec::new();
    let n = sorted.len();
    let mut k: usize = 0;
    while k < n
        invariant
            k <= n,
            n == sorted@.len(),
            n >= 1,
            arches@.len() == k,
            forall|t: int|
                0 <= t < k ==> ((#[trigger] arches@[t]).major, arches@[t].minor) == sorted@[t]
                    && arches@[t].with_ptx == (t == n - 1),
        decreases n - k,
    {
        let pair = sorted[k];
        arches.push(CudaArch { major: pair.0, minor: pair.1, with_ptx: k == n - 1 });
        k = k + 1;
    }
    proof {
        // Every returned pair is a clamped device capability, and so is
        // bounded by the ceiling.
        assert forall|t: int| 0 <= t < arches@.len() implies pair_le(
            ((#[trigger] arches@[t]).major, arches@[t].minor),
            ceiling,
        ) && spec_clamped(devices@, ceiling).contains(
            ((arches@[t].major, arches@[t].minor)),
        ) by {
            assert(sorted@.contains(sorted@[t]));
            assert(clamped_all.contains(sorted@[t]));
            let w = choose|w: int| 0 <= w < clamped_all.len() && clamped_all[w] == sorted@[t];
            assert(clamped_all[w] == spec_pair_min(devices@[w], ceiling));
        }
        // Every clamped device capability is returned.
        assert forall|j: int| 0 <= j < devices@.len() implies exists|t: int|
            0 <= t < arches@.len() && ((#[trigger] arches@[t]).major, arches@[t].minor)
                == #[trigger] spec_pair_min(devices@[j], ceiling) by {
            let m = spec_pair_min(devices@[j], ceiling);
            assert(clamped_all[j] == m);
            assert(clamped_all.contains(m));
            assert(sorted@.contains(m));
            let t = choose|t: int| 0 <= t < sorted@.len() && sorted@[t] == m;
            assert(((arches@[t].major, arches@[t].minor)) == m);
        }
    }
    Ok(arches)
}

} // verus!
