//! Helpers over byte strings.
//!
//! Names, requirement texts, URLs and manifest bodies are carried as byte
//! strings (`Vec<u8>` / `&[u8]`) throughout the library; callers convert to
//! and from `String` at the process boundary.

use vstd::prelude::*;

verus! {

/// First index of `b` in `s`, if any.
pub open spec fn spec_find_byte(s: Seq<u8>, b: u8) -> Option<int>
    decreases s.len(),
{
    if s.len() == 0 {
        None
    } else if s[0] == b {
        Some(0int)
    } else {
        match spec_find_byte(s.skip(1), b) {
            None => None,
            Some(i) => Some(i + 1),
        }
    }
}

pub proof fn lemma_find_byte_props(s: Seq<u8>, b: u8)
    ensures
        match spec_find_byte(s, b) {
            None => forall|i: int| 0 <= i < s.len() ==> s[i] != b,
            Some(i) => 0 <= i < s.len() && s[i] == b && forall|j: int| 0 <= j < i ==> s[j] != b,
        },
    decreases s.len(),
{
    if s.len() == 0 {
    } else if s[0] == b {
    } else {
        lemma_find_byte_props(s.skip(1), b);
        match spec_find_byte(s.skip(1), b) {
            None => {
                assert forall|i: int| 0 <= i < s.len() implies s[i] != b by {
                    if i > 0 {
                        assert(s.skip(1)[i - 1] == s[i]);
                    }
                }
            },
            Some(i2) => {
                assert(s[i2 + 1] == s.skip(1)[i2]);
                assert forall|j: int| 0 <= j < i2 + 1 implies s[j] != b by {
                    if j > 0 {
                        assert(s.skip(1)[j - 1] == s[j]);
                    }
                }
            },
        }
    }
}

/// Unfolding lemma: the first occurrence at or after `pos`.
pub proof fn lemma_find_byte_step(s: Seq<u8>, b: u8, pos: int)
    requires
        0 <= pos < s.len(),
    ensures
        s[pos] == b ==> spec_find_byte(s.skip(pos), b) == Some(0int),
        s[pos] != b ==> spec_find_byte(s.skip(pos), b) == (match spec_find_byte(
            s.skip(pos + 1),
            b,
        ) {
            None => None::<int>,
            Some(i) => Some(i + 1),
        }),
{
    assert(s.skip(pos).skip(1) =~= s.skip(pos + 1));
    assert(s.skip(pos)[0] == s[pos]);
}

/// First index of byte `b` in `s`.
pub fn find_byte(s: &[u8], b: u8) -> (r: Option<usize>)
    ensures
        match r {
            None => spec_find_byte(s@, b) is None,
            Some(i) => spec_find_byte(s@, b) == Some(i as int),
        },
{
    let n = s.len();
    assert(s@.skip(0) =~= s@);
    for i in 0..n
        invariant
            n == s@.len(),
            spec_find_byte(s@, b) == (match spec_find_byte(s@.skip(i as int), b) {
                None => None::<int>,
                Some(k) => Some(k + i),
            }),
    {
        proof {
            lemma_find_byte_step(s@, b, i as int);
        }
        if s[i] == b {
            return Some(i);
        }
    }
    assert(s@.skip(n as int) =~= Seq::<u8>::empty());
    None
}

/// Whether `s` contains byte `b`.
pub fn contains_byte(s: &[u8], b: u8) -> (r: bool)
    ensures
        r == s@.contains(b),
{
    let r = find_byte(s, b);
    proof {
        lemma_find_byte_props(s@, b);
        if s@.contains(b) {
            let w = choose|i: int| 0 <= i < s@.len() && s@[i] == b;
            assert(s@[w] == b);
        }
    }
    r.is_some()
}

/// Whether `p` is a prefix of `s`.
pub open spec fn spec_starts_with(s: Seq<u8>, p: Seq<u8>) -> bool {
    s.len() >= p.len() && s.subrange(0, p.len() as int) == p
}

pub fn starts_with(s: &[u8], p: &[u8]) -> (r: bool)
    ensures
        r == spec_starts_with(s@, p@),
{
    if s.len() < p.len() {
        return false;
    }
    let n = p.len();
    for i in 0..n
        invariant
            n == p@.len() <= s@.len(),
            forall|j: int| 0 <= j < i ==> s@[j] == p@[j],
    {
        if s[i] != p[i] {
            assert(s@.subrange(0, p@.len() as int)[i as int] != p@[i as int]);
            return false;
        }
    }
    assert(s@.subrange(0, p@.len() as int) =~= p@);
    true
}

/// Whether two byte slices hold the same bytes.
pub fn bytes_eq(a: &[u8], b: &[u8]) -> (r: bool)
    ensures
        r == (a@ == b@),
{
    if a.len() != b.len() {
        return false;
    }
    let n = a.len();
    for i in 0..n
        invariant
            n == a@.len() == b@.len(),
            forall|j: int| 0 <= j < i ==> a@[j] == b@[j],
    {
        if a[i] != b[i] {
            return false;
        }
    }
    assert(a@ =~= b@);
    true
}

/// The decimal digits of `n`, most significant first.
pub open spec fn spec_dec(n: int) -> Seq<u8>
    decreases n,
{
    if n < 10 {
        seq![(48 + if n >= 0 { n } else { 0 }) as u8]
    } else {
        spec_dec(n / 10) + seq![(48 + n % 10) as u8]
    }
}

/// Append the decimal rendering of `n` to `out`.
pub fn push_dec(out: &mut Vec<u8>, n: u64)
    ensures
        final(out)@ == old(out)@ + spec_dec(n as int),
    decreases n,
{
    if n < 10 {
        out.push((48 + n) as u8);
    } else {
        assert(n / 10 < n) by (nonlinear_arith)
            requires n >= 10,
        ;
        push_dec(out, n / 10);
        out.push((48 + n % 10) as u8);
        assert(out@ =~= old(out)@ + spec_dec(n as int));
    }
}

/// The pieces of `s` between occurrences of `b`; `k + 1` pieces for `k`
/// occurrences, in order, each free of `b`.
pub open spec fn spec_split(s: Seq<u8>, b: u8) -> Seq<Seq<u8>>
    decreases s.len(),
    via spec_split_decreases
{
    match spec_find_byte(s, b) {
        None => seq![s],
        Some(i) => seq![s.take(i)] + spec_split(s.skip(i + 1), b),
    }
}

#[via_fn]
proof fn spec_split_decreases(s: Seq<u8>, b: u8) {
    lemma_find_byte_props(s, b);
}

/// Split `s` on byte `b`.
pub fn split_on_byte(s: &[u8], b: u8) -> (r: Vec<Vec<u8>>)
    ensures
        r@.map_values(|p: Vec<u8>| p@) == spec_split(s@, b),
{
    let mut r: Vec<Vec<u8>> = Vec::new();
    let mut rest: &[u8] = s;
    loop
        invariant
            r@.map_values(|p: Vec<u8>| p@) + spec_split(rest@, b) == spec_split(s@, b),
        decreases rest@.len() + 1,
    {
        match find_byte(rest, b) {
            None => {
                let piece = slice_to_vec_u8(rest);
                r.push(piece);
                proof {
                    assert(r@.map_values(|p: Vec<u8>| p@) =~= spec_split(s@, b));
                }
                return r;
            },
            Some(i) => {
                proof {
                    lemma_find_byte_props(rest@, b);
                    assert(rest@.subrange(0, i as int) =~= rest@.take(i as int));
                }
                let piece = slice_to_vec_u8(vstd::slice::slice_subrange(rest, 0, i));
                r.push(piece);
                let ghost prev = rest@;
                let rl = rest.len();
                assert(i < rl);
                rest = vstd::slice::slice_subrange(rest, i + 1, rl);
                proof {
                    assert(rest@ =~= prev.skip(i + 1));
                    assert(r@.map_values(|p: Vec<u8>| p@) + spec_split(rest@, b) =~= spec_split(
                        s@,
                        b,
                    ));
                }
            },
        }
    }
}

/// Copy a byte slice into an owned vector.
pub fn slice_to_vec_u8(s: &[u8]) -> (r: Vec<u8>)
    ensures
        r@ == s@,
{
    let mut r: Vec<u8> = Vec::new();
    let n = s.len();
    for i in 0..n
        invariant
            n == s@.len(),
            r@ =~= s@.take(i as int),
    {
        r.push(s[i]);
        assert(r@ =~= s@.take(i as int + 1));
    }
    assert(r@ =~= s@);
    r
}


/// Deep-copy a list of byte strings.
pub fn copy_byte_vecs(v: &Vec<Vec<u8>>) -> (r: Vec<Vec<u8>>)
    ensures
        r@.map_values(|x: Vec<u8>| x@) == v@.map_values(|x: Vec<u8>| x@),
{
    let mut r: Vec<Vec<u8>> = Vec::new();
    let n = v.len();
    for i in 0..n
        invariant
            n == v@.len(),
            r@.len() == i,
            forall|j: int| 0 <= j < i ==> r@[j]@ == v@[j]@,
    {
        r.push(slice_to_vec_u8(v[i].as_slice()));
    }
    proof {
        assert(r@.map_values(|x: Vec<u8>| x@) =~= v@.map_values(|x: Vec<u8>| x@));
    }
    r
}

} // verus!
