//! Fuzzy crate-name generation: every spelling of a name obtained by
//! toggling each `-`/`_` occurrence, so a registry probe tolerates
//! hyphen/underscore inconsistency.
//!
//! Only the first ten separator occurrences are toggled — a deliberate bound
//! that caps the variant count at 1024; later occurrences keep their
//! original byte.

use vstd::prelude::*;

use crate::bytestr::{bytes_eq, slice_to_vec_u8};
use vstd::pervasive::VecAdditionalExecFns;

verus! {

/// A name separator: `-` or `_`.
pub open spec fn spec_is_sep(b: u8) -> bool {
    b == 45 || b == 95
}

/// The separator positions among the first `n` bytes, at most ten of them,
/// in increasing order.
pub open spec fn spec_sep_positions_upto(s: Seq<u8>, n: int) -> Seq<int>
    decreases n,
{
    if n <= 0 {
        Seq::empty()
    } else {
        let p = spec_sep_positions_upto(s, n - 1);
        if spec_is_sep(s[n - 1]) && p.len() < 10 {
            p.push(n - 1)
        } else {
            p
        }
    }
}

/// The toggled separator positions of a name: the first ten (or fewer)
/// indices holding `-` or `_`.
pub open spec fn spec_sep_positions(s: Seq<u8>) -> Seq<int> {
    spec_sep_positions_upto(s, s.len() as int)
}

/// How many of the first `n` bytes are separators.
pub open spec fn spec_sep_count_upto(s: Seq<u8>, n: int) -> int
    decreases n,
{
    if n <= 0 {
        0
    } else {
        spec_sep_count_upto(s, n - 1) + if spec_is_sep(s[n - 1]) {
            1int
        } else {
            0int
        }
    }
}

/// How many separator bytes a name holds.
pub open spec fn spec_sep_count(s: Seq<u8>) -> int {
    spec_sep_count_upto(s, s.len() as int)
}

/// The position list is sound: every entry is a separator index, and the
/// entries increase strictly.
pub open spec fn spec_pos_wf(s: Seq<u8>, pos: Seq<int>) -> bool {
    &&& forall|k: int|
        0 <= k < pos.len() ==> 0 <= #[trigger] pos[k] < s.len() && spec_is_sep(s[pos[k]])
    &&& forall|k1: int, k2: int| 0 <= k1 < k2 < pos.len() ==> pos[k1] < pos[k2]
}

/// 2 to the power `k`.
pub open spec fn spec_pow2(k: nat) -> nat
    decreases k,
{
    if k == 0 {
        1nat
    } else {
        2 * spec_pow2((k - 1) as nat)
    }
}

/// The variant list after toggling the first `k` tracked positions: each
/// step maps every variant to one with `_` at the next position and one
/// with `-` there, underscores first.
pub open spec fn spec_variants(s: Seq<u8>, pos: Seq<int>, k: int) -> Seq<Seq<u8>>
    decreases k,
{
    if k <= 0 {
        seq![s]
    } else {
        spec_variants(s, pos, k - 1).map_values(|v: Seq<u8>| v.update(pos[k - 1], 95u8))
            + spec_variants(s, pos, k - 1).map_values(|v: Seq<u8>| v.update(pos[k - 1], 45u8))
    }
}

/// The whole variant list of a name, in generation order.
pub open spec fn spec_all_variants(s: Seq<u8>) -> Seq<Seq<u8>> {
    spec_variants(s, spec_sep_positions(s), spec_sep_positions(s).len() as int)
}

proof fn lemma_sep_positions_upto_wf(s: Seq<u8>, n: int)
    requires
        n <= s.len(),
    ensures
        spec_pos_wf(s, spec_sep_positions_upto(s, n)),
        spec_sep_positions_upto(s, n).len() <= 10,
        forall|k: int|
            0 <= k < spec_sep_positions_upto(s, n).len() ==> #[trigger] spec_sep_positions_upto(
                s,
                n,
            )[k] < n,
    decreases n,
{
    if n > 0 {
        lemma_sep_positions_upto_wf(s, n - 1);
    }
}

/// The tracked positions are separator indices in strictly increasing
/// order, at most ten of them.
pub proof fn lemma_sep_positions_wf(s: Seq<u8>)
    ensures
        spec_pos_wf(s, spec_sep_positions(s)),
        spec_sep_positions(s).len() <= 10,
{
    lemma_sep_positions_upto_wf(s, s.len() as int);
}

proof fn lemma_sep_positions_upto_count(s: Seq<u8>, n: int)
    requires
        n <= s.len(),
    ensures
        spec_sep_positions_upto(s, n).len() == if spec_sep_count_upto(s, n) <= 10 {
            spec_sep_count_upto(s, n)
        } else {
            10int
        },
    decreases n,
{
    if n > 0 {
        lemma_sep_positions_upto_count(s, n - 1);
    }
}

/// With at most ten separator occurrences every one of them is tracked; a
/// name with no separator has no tracked position at all.
pub proof fn lemma_sep_positions_count(s: Seq<u8>)
    ensures
        spec_sep_count(s) <= 10 ==> spec_sep_positions(s).len() == spec_sep_count(s),
        spec_sep_count(s) > 10 ==> spec_sep_positions(s).len() == 10,
{
    lemma_sep_positions_upto_count(s, s.len() as int);
}

proof fn lemma_sep_count_none(s: Seq<u8>, n: int)
    requires
        n <= s.len(),
        forall|i: int| 0 <= i < s.len() ==> !spec_is_sep(s[i]),
    ensures
        spec_sep_count_upto(s, n) == 0,
    decreases n,
{
    if n > 0 {
        lemma_sep_count_none(s, n - 1);
    }
}

/// A name free of `-` and `_` has no separator occurrence.
pub proof fn lemma_sep_count_zero(s: Seq<u8>)
    requires
        forall|i: int| 0 <= i < s.len() ==> !spec_is_sep(s[i]),
    ensures
        spec_sep_count(s) == 0,
{
    lemma_sep_count_none(s, s.len() as int);
}

/// The shape of the variant list over the first `k` positions: `2^k`
/// pairwise-distinct entries of the name's length, agreeing with the name
/// everywhere but at those positions, holding some separator at each of
/// them, and with the name itself among them.
pub proof fn lemma_variants_props(s: Seq<u8>, pos: Seq<int>, k: int)
    requires
        spec_pos_wf(s, pos),
        0 <= k <= pos.len(),
    ensures
        spec_variants(s, pos, k).len() == spec_pow2(k as nat),
        forall|i: int|
            0 <= i < spec_variants(s, pos, k).len() ==> (#[trigger] spec_variants(s, pos, k)[i]).len()
                == s.len(),
        forall|i: int, idx: int|
            0 <= i < spec_variants(s, pos, k).len() && 0 <= idx < s.len() && !pos.take(k).contains(
                idx,
            ) ==> #[trigger] spec_variants(s, pos, k)[i][idx] == s[idx],
        forall|i: int, j: int|
            0 <= i < spec_variants(s, pos, k).len() && 0 <= j < k ==> spec_is_sep(
                #[trigger] spec_variants(s, pos, k)[i][pos[j]],
            ),
        forall|i1: int, i2: int|
            0 <= i1 < spec_variants(s, pos, k).len() && 0 <= i2 < spec_variants(s, pos, k).len()
                && i1 != i2 ==> spec_variants(s, pos, k)[i1] != spec_variants(s, pos, k)[i2],
        spec_variants(s, pos, k).contains(s),
    decreases k,
{
    if k <= 0 {
        assert(spec_variants(s, pos, 0)[0] == s);
    } else {
        lemma_variants_props(s, pos, k - 1);
        let prev = spec_variants(s, pos, k - 1);
        let cur = spec_variants(s, pos, k);
        let p = pos[k - 1];
        let half = prev.len() as int;
        assert(cur.len() == 2 * half);
        // every element of the previous stage still holds the original byte
        // at the position toggled now
        assert(!pos.take(k - 1).contains(p)) by {
            if pos.take(k - 1).contains(p) {
                let w = choose|w: int| 0 <= w < k - 1 && #[trigger] pos.take(k - 1)[w] == p;
                assert(pos[w] == p);
            }
        }
        assert(forall|i: int| 0 <= i < half ==> #[trigger] prev[i][p] == s[p]);
        // indexing into the two halves
        assert(forall|i: int| 0 <= i < half ==> #[trigger] cur[i] == prev[i].update(p, 95u8));
        assert(forall|i: int|
            half <= i < 2 * half ==> #[trigger] cur[i] == prev[i - half].update(p, 45u8));
        // lengths
        assert(forall|i: int| 0 <= i < cur.len() ==> (#[trigger] cur[i]).len() == s.len());
        // agreement off the first k positions
        assert forall|i: int, idx: int|
            0 <= i < cur.len() && 0 <= idx < s.len() && !pos.take(k).contains(idx) implies #[trigger] cur[i][idx]
            == s[idx] by {
            assert(pos.take(k)[k - 1] == p);
            assert(idx != p);
            assert forall|w: int| 0 <= w < k - 1 implies #[trigger] pos.take(k - 1)[w] != idx by {
                assert(pos.take(k)[w] == pos.take(k - 1)[w]);
            }
            if i < half {
                assert(prev[i][idx] == s[idx]);
            } else {
                assert(prev[i - half][idx] == s[idx]);
            }
        }
        // separators at the first k positions
        assert forall|i: int, j: int|
            0 <= i < cur.len() && 0 <= j < k implies spec_is_sep(#[trigger] cur[i][pos[j]]) by {
            let v = if i < half {
                prev[i]
            } else {
                prev[i - half]
            };
            if j < k - 1 {
                assert(pos[j] != p);
                assert(spec_is_sep(v[pos[j]]));
            }
        }
        // pairwise distinct
        assert forall|i1: int, i2: int|
            0 <= i1 < cur.len() && 0 <= i2 < cur.len() && i1 != i2 implies cur[i1] != cur[i2] by {
            if i1 < half && i2 >= half {
                assert(cur[i1][p] == 95u8 && cur[i2][p] == 45u8);
            } else if i1 >= half && i2 < half {
                assert(cur[i1][p] == 45u8 && cur[i2][p] == 95u8);
            } else {
                let b1 = if i1 < half {
                    i1
                } else {
                    i1 - half
                };
                let b2 = if i2 < half {
                    i2
                } else {
                    i2 - half
                };
                assert(prev[b1] != prev[b2]);
                if cur[i1] == cur[i2] {
                    assert forall|idx: int| 0 <= idx < s.len() implies prev[b1][idx]
                        == prev[b2][idx] by {
                        if idx == p {
                            assert(prev[b1][p] == s[p] && prev[b2][p] == s[p]);
                        } else {
                            assert(cur[i1][idx] == prev[b1][idx]);
                            assert(cur[i2][idx] == prev[b2][idx]);
                        }
                    }
                    assert(prev[b1] =~= prev[b2]);
                }
            }
        }
        // the original name is still present
        let w = choose|w: int| 0 <= w < half && prev[w] == s;
        if s[p] == 95u8 {
            assert(cur[w] == prev[w].update(p, 95u8));
            assert(cur[w] =~= s);
            assert(cur.contains(s));
        } else {
            assert(cur[w + half] == prev[w].update(p, 45u8));
            assert(cur[w + half] =~= s);
            assert(cur.contains(s));
        }
    }
}


/// Generate every fuzzy spelling of a name: one variant for each choice of
/// `-` or `_` at the tracked separator positions, in a fixed order, with
/// the exact input moved to the front so it is probed first.
pub fn gen_fuzzy_crate_names(crate_name: &[u8]) -> (r: Vec<Vec<u8>>)
    ensures
        ({
            let s = crate_name@;
            let all = spec_all_variants(s);
            let views = r@.map_values(|x: Vec<u8>| x@);
            &&& views.len() == all.len()
            &&& views[0] == s
            &&& exists|i0: int|
                0 <= i0 < all.len() && all[i0] == s && views == all.update(i0, all[0]).update(
                    0,
                    s,
                )
            &&& (spec_sep_positions(s).len() == 0 ==> views == seq![s])
        }),
{
    let ghost s = crate_name@;
    let n = crate_name.len();
    let mut positions: Vec<usize> = Vec::new();
    assert(positions@.map_values(|u: usize| u as int) =~= spec_sep_positions_upto(s, 0));
    for i in 0..n
        invariant
            n == s.len(),
            crate_name@ == s,
            positions@.map_values(|u: usize| u as int) == spec_sep_positions_upto(s, i as int),
            positions@.len() <= 10,
    {
        if (crate_name[i] == 45 || crate_name[i] == 95) && positions.len() < 10 {
            positions.push(i);
        }
        assert(positions@.map_values(|u: usize| u as int) =~= spec_sep_positions_upto(
            s,
            i as int + 1,
        ));
    }
    let ghost pos = spec_sep_positions(s);
    proof {
        lemma_sep_positions_wf(s);
    }
    let kk = positions.len();
    let mut result: Vec<Vec<u8>> = Vec::new();
    result.push(slice_to_vec_u8(crate_name));
    assert(result@.map_values(|x: Vec<u8>| x@) =~= spec_variants(s, pos, 0));
    for k in 0..kk
        invariant
            kk == positions@.len(),
            crate_name@ == s,
            positions@.map_values(|u: usize| u as int) == pos,
            pos == spec_sep_positions(s),
            spec_pos_wf(s, pos),
            result@.map_values(|x: Vec<u8>| x@) == spec_variants(s, pos, k as int),
    {
        let p = positions[k];
        assert(pos[k as int] == p as int);
        proof {
            lemma_variants_props(s, pos, k as int);
        }
        let ghost prev_views = result@.map_values(|x: Vec<u8>| x@);
        let half = result.len();
        let mut next: Vec<Vec<u8>> = Vec::new();
        for i in 0..half
            invariant
                half == result@.len(),
                result@.map_values(|x: Vec<u8>| x@) == prev_views,
                forall|j: int| 0 <= j < half ==> (#[trigger] prev_views[j]).len() == s.len(),
                (p as int) < s.len(),
                next@.len() == i,
                forall|j: int|
                    0 <= j < i ==> (#[trigger] next@[j])@ == prev_views[j].update(p as int, 95u8),
        {
            let mut v = slice_to_vec_u8(result[i].as_slice());
            assert(v@ == prev_views[i as int]);
            v.set(p, 95);
            next.push(v);
        }
        for i in 0..half
            invariant
                half == result@.len(),
                result@.map_values(|x: Vec<u8>| x@) == prev_views,
                forall|j: int| 0 <= j < half ==> (#[trigger] prev_views[j]).len() == s.len(),
                (p as int) < s.len(),
                next@.len() == half + i,
                forall|j: int|
                    0 <= j < half ==> (#[trigger] next@[j])@ == prev_views[j].update(p as int, 95u8),
                forall|j: int|
                    half <= j < half + i ==> (#[trigger] next@[j])@ == prev_views[j - half].update(
                        p as int,
                        45u8,
                    ),
        {
            let mut v = slice_to_vec_u8(result[i].as_slice());
            assert(v@ == prev_views[i as int]);
            v.set(p, 45);
            next.push(v);
        }
        result = next;
        proof {
            assert(result@.map_values(|x: Vec<u8>| x@) =~= spec_variants(s, pos, k as int + 1));
        }
    }
    let ghost all = spec_all_variants(s);
    proof {
        lemma_variants_props(s, pos, kk as int);
        assert(result@.map_values(|x: Vec<u8>| x@) == all);
    }
    let m = result.len();
    let mut i0: usize = 0;
    let mut found = false;
    for i in 0..m
        invariant
            m == result@.len() == all.len(),
            result@.map_values(|x: Vec<u8>| x@) == all,
            crate_name@ == s,
            found ==> (i0 as int) < m && all[i0 as int] == s,
            !found ==> forall|j: int| 0 <= j < i ==> all[j] != s,
    {
        if !found && bytes_eq(result[i].as_slice(), crate_name) {
            assert(result@.map_values(|x: Vec<u8>| x@)[i as int] == result@[i as int]@);
            i0 = i;
            found = true;
        }
    }
    proof {
        if !found {
            let w = choose|w: int| 0 <= w < all.len() && #[trigger] all[w] == s;
            assert(all[w] == s);
            assert(false);
        }
    }
    if i0 != 0 {
        let v0 = slice_to_vec_u8(result[0].as_slice());
        let vi = slice_to_vec_u8(result[i0].as_slice());
        assert(v0@ == all[0] && vi@ == all[i0 as int]);
        result.set(0, vi);
        result.set(i0, v0);
        proof {
            assert(result@.map_values(|x: Vec<u8>| x@) =~= all.update(i0 as int, all[0]).update(
                0,
                s,
            ));
        }
    } else {
        proof {
            assert(result@.map_values(|x: Vec<u8>| x@) =~= all.update(i0 as int, all[0]).update(
                0,
                s,
            ));
        }
    }
    proof {
        if spec_sep_positions(s).len() == 0 {
            assert(result@.map_values(|x: Vec<u8>| x@) =~= seq![s]);
        }
    }
    result
}


/// A name free of separators has exactly one variant: the name itself.
pub proof fn lemma_fuzzy_single_variant(s: Seq<u8>)
    requires
        forall|i: int| 0 <= i < s.len() ==> !spec_is_sep(s[i]),
    ensures
        spec_all_variants(s) == seq![s],
{
    lemma_sep_count_zero(s);
    lemma_sep_positions_count(s);
}

/// A name with `k` separator occurrences, `k` at most ten, has exactly
/// `2^k` variants, pairwise distinct, each of the name's length, agreeing
/// with the name off the separator positions and holding a separator at
/// each of them; the name itself is among them.
pub proof fn lemma_fuzzy_variant_count(s: Seq<u8>)
    requires
        0 <= spec_sep_count(s) <= 10,
    ensures
        spec_all_variants(s).len() == spec_pow2(spec_sep_count(s) as nat),
        forall|i1: int, i2: int|
            0 <= i1 < spec_all_variants(s).len() && 0 <= i2 < spec_all_variants(s).len() && i1
                != i2 ==> spec_all_variants(s)[i1] != spec_all_variants(s)[i2],
        forall|i: int|
            0 <= i < spec_all_variants(s).len() ==> (#[trigger] spec_all_variants(s)[i]).len()
                == s.len(),
        forall|i: int, idx: int|
            0 <= i < spec_all_variants(s).len() && 0 <= idx < s.len() && !spec_sep_positions(
                s,
            ).contains(idx) ==> #[trigger] spec_all_variants(s)[i][idx] == s[idx],
        forall|i: int, j: int|
            0 <= i < spec_all_variants(s).len() && 0 <= j < spec_sep_positions(s).len()
                ==> spec_is_sep(#[trigger] spec_all_variants(s)[i][spec_sep_positions(s)[j]]),
        spec_all_variants(s).contains(s),
{
    lemma_sep_positions_count(s);
    lemma_sep_positions_wf(s);
    let pos = spec_sep_positions(s);
    lemma_variants_props(s, pos, pos.len() as int);
    assert(pos.take(pos.len() as int) =~= pos);
}

} // verus!
