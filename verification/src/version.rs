//! A semantic version held as plain values: numeric components, the
//! prerelease identifiers, and the build metadata text.
//!
//! Ordering follows semantic-versioning precedence: major, minor and patch
//! numerically; a release outranks any prerelease of the same triple;
//! prerelease identifier lists compare left to right, numeric identifiers
//! before alphanumeric ones and a shorter list before any extension of it.
//! Build metadata never takes part in the ordering.

use vstd::prelude::*;

use crate::bytestr::{push_dec, spec_dec};

verus! {

/// One dot-separated prerelease identifier.
#[derive(Debug, Clone, PartialEq, Eq)]
pub enum PreIdent {
    /// An all-digit identifier, compared numerically.
    Num(u64),
    /// An alphanumeric identifier, compared bytewise.
    Alpha(Vec<u8>),
}

/// A parsed semantic version.
#[derive(Debug, Clone, PartialEq, Eq)]
pub struct Version {
    pub major: u64,
    pub minor: u64,
    pub patch: u64,
    /// Empty for a release version.
    pub pre: Vec<PreIdent>,
    /// Text after `+`, empty when absent; ignored by the ordering.
    pub build: Vec<u8>,
}

/// Three-way bytewise comparison; -1, 0 or 1.
pub open spec fn spec_bytes_cmp(a: Seq<u8>, b: Seq<u8>) -> int
    decreases a.len() + b.len(),
{
    if a.len() == 0 && b.len() == 0 {
        0
    } else if a.len() == 0 {
        -1
    } else if b.len() == 0 {
        1
    } else if a[0] < b[0] {
        -1
    } else if a[0] > b[0] {
        1
    } else {
        spec_bytes_cmp(a.skip(1), b.skip(1))
    }
}

/// Three-way comparison of prerelease identifiers: numeric before
/// alphanumeric, numeric by value, alphanumeric bytewise.
pub open spec fn spec_ident_cmp(a: PreIdent, b: PreIdent) -> int {
    match (a, b) {
        (PreIdent::Num(x), PreIdent::Num(y)) => if x < y {
            -1
        } else if x > y {
            1
        } else {
            0
        },
        (PreIdent::Num(_), PreIdent::Alpha(_)) => -1,
        (PreIdent::Alpha(_), PreIdent::Num(_)) => 1,
        (PreIdent::Alpha(x), PreIdent::Alpha(y)) => spec_bytes_cmp(x@, y@),
    }
}

/// Lexicographic comparison of two non-empty prerelease identifier lists;
/// a strict prefix compares below any extension.
pub open spec fn spec_pre_list_cmp(a: Seq<PreIdent>, b: Seq<PreIdent>) -> int
    decreases a.len() + b.len(),
{
    if a.len() == 0 && b.len() == 0 {
        0
    } else if a.len() == 0 {
        -1
    } else if b.len() == 0 {
        1
    } else if spec_ident_cmp(a[0], b[0]) != 0 {
        spec_ident_cmp(a[0], b[0])
    } else {
        spec_pre_list_cmp(a.skip(1), b.skip(1))
    }
}

/// Comparison of whole prerelease components: an empty component (a release)
/// outranks any prerelease.
pub open spec fn spec_pre_cmp(a: Seq<PreIdent>, b: Seq<PreIdent>) -> int {
    if a.len() == 0 && b.len() == 0 {
        0
    } else if a.len() == 0 {
        1
    } else if b.len() == 0 {
        -1
    } else {
        spec_pre_list_cmp(a, b)
    }
}

/// Semantic-versioning precedence as a three-way comparison.
pub open spec fn spec_version_cmp(a: Version, b: Version) -> int {
    if a.major != b.major {
        if a.major < b.major {
            -1int
        } else {
            1int
        }
    } else if a.minor != b.minor {
        if a.minor < b.minor {
            -1int
        } else {
            1int
        }
    } else if a.patch != b.patch {
        if a.patch < b.patch {
            -1int
        } else {
            1int
        }
    } else {
        spec_pre_cmp(a.pre@, b.pre@)
    }
}

/// Whether the version is a prerelease.
pub open spec fn spec_is_prerelease(v: Version) -> bool {
    v.pre@.len() > 0
}

impl Version {
    /// Whether this version carries prerelease identifiers.
    pub fn is_prerelease(&self) -> (r: bool)
        ensures
            r == spec_is_prerelease(*self),
    {
        self.pre.len() > 0
    }
}

fn bytes_cmp(a: &[u8], b: &[u8]) -> (r: i8)
    ensures
        r as int == spec_bytes_cmp(a@, b@),
{
    let an = a.len();
    let bn = b.len();
    let mut i: usize = 0;
    proof {
        assert(a@.skip(0) =~= a@);
        assert(b@.skip(0) =~= b@);
    }
    loop
        invariant
            i <= an == a@.len(),
            i <= bn == b@.len(),
            spec_bytes_cmp(a@, b@) == spec_bytes_cmp(a@.skip(i as int), b@.skip(i as int)),
        decreases an - i,
    {
        if i == an && i == bn {
            return 0;
        } else if i == an {
            return -1;
        } else if i == bn {
            return 1;
        } else if a[i] < b[i] {
            return -1;
        } else if a[i] > b[i] {
            return 1;
        }
        proof {
            assert(a@.skip(i as int).skip(1) =~= a@.skip(i as int + 1));
            assert(b@.skip(i as int).skip(1) =~= b@.skip(i as int + 1));
        }
        i = i + 1;
    }
}

fn ident_cmp(a: &PreIdent, b: &PreIdent) -> (r: i8)
    ensures
        r as int == spec_ident_cmp(*a, *b),
{
    match (a, b) {
        (PreIdent::Num(x), PreIdent::Num(y)) => {
            if *x < *y {
                -1
            } else if *x > *y {
                1
            } else {
                0
            }
        },
        (PreIdent::Num(_), PreIdent::Alpha(_)) => -1,
        (PreIdent::Alpha(_), PreIdent::Num(_)) => 1,
        (PreIdent::Alpha(x), PreIdent::Alpha(y)) => bytes_cmp(x.as_slice(), y.as_slice()),
    }
}

fn pre_list_cmp(a: &Vec<PreIdent>, b: &Vec<PreIdent>) -> (r: i8)
    ensures
        r as int == spec_pre_list_cmp(a@, b@),
{
    let an = a.len();
    let bn = b.len();
    let mut i: usize = 0;
    proof {
        assert(a@.skip(0) =~= a@);
        assert(b@.skip(0) =~= b@);
    }
    loop
        invariant
            i <= an == a@.len(),
            i <= bn == b@.len(),
            spec_pre_list_cmp(a@, b@) == spec_pre_list_cmp(a@.skip(i as int), b@.skip(i as int)),
        decreases an - i,
    {
        if i == an && i == bn {
            return 0;
        } else if i == an {
            return -1;
        } else if i == bn {
            return 1;
        }
        let c = ident_cmp(&a[i], &b[i]);
        if c != 0 {
            return c;
        }
        proof {
            assert(a@.skip(i as int).skip(1) =~= a@.skip(i as int + 1));
            assert(b@.skip(i as int).skip(1) =~= b@.skip(i as int + 1));
        }
        i = i + 1;
    }
}

/// Three-way semantic-versioning precedence comparison.
pub fn version_cmp(a: &Version, b: &Version) -> (r: i8)
    ensures
        r as int == spec_version_cmp(*a, *b),
{
    if a.major != b.major {
        if a.major < b.major {
            -1
        } else {
            1
        }
    } else if a.minor != b.minor {
        if a.minor < b.minor {
            -1
        } else {
            1
        }
    } else if a.patch != b.patch {
        if a.patch < b.patch {
            -1
        } else {
            1
        }
    } else {
        let apn = a.pre.len();
        let bpn = b.pre.len();
        if apn == 0 && bpn == 0 {
            0
        } else if apn == 0 {
            1
        } else if bpn == 0 {
            -1
        } else {
            pre_list_cmp(&a.pre, &b.pre)
        }
    }
}

/// The text of one prerelease identifier.
pub open spec fn spec_render_ident(id: PreIdent) -> Seq<u8> {
    match id {
        PreIdent::Num(n) => spec_dec(n as int),
        PreIdent::Alpha(s) => s@,
    }
}

/// The prerelease identifiers joined with `.`.
pub open spec fn spec_render_pre(ids: Seq<PreIdent>) -> Seq<u8>
    decreases ids.len(),
{
    if ids.len() == 0 {
        Seq::empty()
    } else if ids.len() == 1 {
        spec_render_ident(ids[0])
    } else {
        spec_render_pre(ids.drop_last()) + seq![46u8] + spec_render_ident(ids.last())
    }
}

/// The canonical text of a version: `major.minor.patch`, `-pre` when a
/// prerelease, `+build` when build metadata is present.
pub open spec fn spec_render_version(v: Version) -> Seq<u8> {
    spec_dec(v.major as int) + seq![46u8] + spec_dec(v.minor as int) + seq![46u8] + spec_dec(
        v.patch as int,
    ) + (if v.pre@.len() == 0 {
        Seq::<u8>::empty()
    } else {
        seq![45u8] + spec_render_pre(v.pre@)
    }) + (if v.build@.len() == 0 {
        Seq::<u8>::empty()
    } else {
        seq![43u8] + v.build@
    })
}

fn push_ident(out: &mut Vec<u8>, id: &PreIdent)
    ensures
        final(out)@ == old(out)@ + spec_render_ident(*id),
{
    match id {
        PreIdent::Num(n) => push_dec(out, *n),
        PreIdent::Alpha(s) => out.extend_from_slice(s.as_slice()),
    }
}

/// Render a version to its canonical text.
pub fn render_version(v: &Version) -> (r: Vec<u8>)
    ensures
        r@ == spec_render_version(*v),
{
    let mut out: Vec<u8> = Vec::new();
    push_dec(&mut out, v.major);
    out.push(46);
    push_dec(&mut out, v.minor);
    out.push(46);
    push_dec(&mut out, v.patch);
    let ghost triple = out@;
    if v.pre.len() > 0 {
        out.push(45);
        let n = v.pre.len();
        for i in 0..n
            invariant
                n == v.pre@.len(),
                out@ == triple + seq![45u8] + spec_render_pre(v.pre@.take(i as int)),
        {
            if i > 0 {
                out.push(46);
            }
            push_ident(&mut out, &v.pre[i]);
            proof {
                assert(v.pre@.take(i as int + 1).drop_last() =~= v.pre@.take(i as int));
                assert(v.pre@.take(i as int + 1).last() == v.pre@[i as int]);
                if i == 0 {
                    assert(out@ =~= triple + seq![45u8] + spec_render_pre(
                        v.pre@.take(i as int + 1),
                    ));
                } else {
                    assert(out@ =~= triple + seq![45u8] + spec_render_pre(
                        v.pre@.take(i as int + 1),
                    ));
                }
            }
        }
        proof {
            assert(v.pre@.take(v.pre@.len() as int) =~= v.pre@);
        }
    }
    if v.build.len() > 0 {
        out.push(43);
        out.extend_from_slice(v.build.as_slice());
    }
    proof {
        assert(out@ =~= spec_render_version(*v));
    }
    out
}


proof fn lemma_bytes_cmp_range(a: Seq<u8>, b: Seq<u8>)
    ensures
        -1 <= spec_bytes_cmp(a, b) <= 1,
    decreases a.len() + b.len(),
{
    if a.len() > 0 && b.len() > 0 && a[0] == b[0] {
        lemma_bytes_cmp_range(a.skip(1), b.skip(1));
    }
}

proof fn lemma_ident_cmp_range(a: PreIdent, b: PreIdent)
    ensures
        -1 <= spec_ident_cmp(a, b) <= 1,
{
    match (a, b) {
        (PreIdent::Alpha(x), PreIdent::Alpha(y)) => lemma_bytes_cmp_range(x@, y@),
        _ => {},
    }
}

proof fn lemma_bytes_cmp_refl(a: Seq<u8>)
    ensures
        spec_bytes_cmp(a, a) == 0,
    decreases a.len(),
{
    if a.len() > 0 {
        lemma_bytes_cmp_refl(a.skip(1));
    }
}

proof fn lemma_bytes_cmp_antisym(a: Seq<u8>, b: Seq<u8>)
    ensures
        spec_bytes_cmp(a, b) == -spec_bytes_cmp(b, a),
    decreases a.len() + b.len(),
{
    if a.len() > 0 && b.len() > 0 && a[0] == b[0] {
        lemma_bytes_cmp_antisym(a.skip(1), b.skip(1));
    }
}

proof fn lemma_bytes_cmp_trans(a: Seq<u8>, b: Seq<u8>, c: Seq<u8>)
    requires
        spec_bytes_cmp(a, b) <= 0,
        spec_bytes_cmp(b, c) <= 0,
    ensures
        spec_bytes_cmp(a, c) <= 0,
        spec_bytes_cmp(a, b) == -1 || spec_bytes_cmp(b, c) == -1 ==> spec_bytes_cmp(a, c) == -1,
    decreases a.len() + b.len() + c.len(),
{
    if a.len() > 0 && b.len() > 0 && c.len() > 0 && a[0] == b[0] && b[0] == c[0] {
        lemma_bytes_cmp_trans(a.skip(1), b.skip(1), c.skip(1));
    }
}

proof fn lemma_ident_cmp_refl(a: PreIdent)
    ensures
        spec_ident_cmp(a, a) == 0,
{
    match a {
        PreIdent::Num(_) => {},
        PreIdent::Alpha(x) => lemma_bytes_cmp_refl(x@),
    }
}

proof fn lemma_ident_cmp_antisym(a: PreIdent, b: PreIdent)
    ensures
        spec_ident_cmp(a, b) == -spec_ident_cmp(b, a),
{
    match (a, b) {
        (PreIdent::Alpha(x), PreIdent::Alpha(y)) => lemma_bytes_cmp_antisym(x@, y@),
        _ => {},
    }
}

proof fn lemma_ident_cmp_trans(a: PreIdent, b: PreIdent, c: PreIdent)
    requires
        spec_ident_cmp(a, b) <= 0,
        spec_ident_cmp(b, c) <= 0,
    ensures
        spec_ident_cmp(a, c) <= 0,
        spec_ident_cmp(a, b) == -1 || spec_ident_cmp(b, c) == -1 ==> spec_ident_cmp(a, c) == -1,
{
    match (a, b, c) {
        (PreIdent::Alpha(x), PreIdent::Alpha(y), PreIdent::Alpha(z)) => {
            lemma_bytes_cmp_trans(x@, y@, z@);
        },
        _ => {},
    }
}

proof fn lemma_pre_list_cmp_refl(a: Seq<PreIdent>)
    ensures
        spec_pre_list_cmp(a, a) == 0,
    decreases a.len(),
{
    if a.len() > 0 {
        lemma_ident_cmp_refl(a[0]);
        lemma_pre_list_cmp_refl(a.skip(1));
    }
}

proof fn lemma_pre_list_cmp_antisym(a: Seq<PreIdent>, b: Seq<PreIdent>)
    ensures
        spec_pre_list_cmp(a, b) == -spec_pre_list_cmp(b, a),
    decreases a.len() + b.len(),
{
    if a.len() > 0 && b.len() > 0 {
        lemma_ident_cmp_antisym(a[0], b[0]);
        if spec_ident_cmp(a[0], b[0]) == 0 {
            lemma_pre_list_cmp_antisym(a.skip(1), b.skip(1));
        }
    }
}

proof fn lemma_pre_list_cmp_trans(a: Seq<PreIdent>, b: Seq<PreIdent>, c: Seq<PreIdent>)
    requires
        spec_pre_list_cmp(a, b) <= 0,
        spec_pre_list_cmp(b, c) <= 0,
    ensures
        spec_pre_list_cmp(a, c) <= 0,
        spec_pre_list_cmp(a, b) == -1 || spec_pre_list_cmp(b, c) == -1 ==> spec_pre_list_cmp(
            a,
            c,
        ) == -1,
    decreases a.len() + b.len() + c.len(),
{
    if a.len() > 0 && b.len() > 0 && c.len() > 0 {
        lemma_ident_cmp_range(a[0], b[0]);
        lemma_ident_cmp_range(b[0], c[0]);
        lemma_ident_cmp_range(a[0], c[0]);
        lemma_ident_cmp_antisym(a[0], b[0]);
        lemma_ident_cmp_antisym(b[0], c[0]);
        lemma_ident_cmp_antisym(a[0], c[0]);
        lemma_ident_cmp_trans(a[0], b[0], c[0]);
        if spec_ident_cmp(a[0], b[0]) == 0 && spec_ident_cmp(b[0], c[0]) == 0 {
            lemma_ident_cmp_trans(c[0], b[0], a[0]);
            lemma_pre_list_cmp_trans(a.skip(1), b.skip(1), c.skip(1));
        }
    }
}

proof fn lemma_pre_list_cmp_range(a: Seq<PreIdent>, b: Seq<PreIdent>)
    ensures
        -1 <= spec_pre_list_cmp(a, b) <= 1,
    decreases a.len() + b.len(),
{
    if a.len() > 0 && b.len() > 0 {
        lemma_ident_cmp_range(a[0], b[0]);
        if spec_ident_cmp(a[0], b[0]) == 0 {
            lemma_pre_list_cmp_range(a.skip(1), b.skip(1));
        }
    }
}

/// The comparison takes no value besides -1, 0 and 1.
pub proof fn lemma_version_cmp_range(a: Version, b: Version)
    ensures
        -1 <= spec_version_cmp(a, b) <= 1,
{
    lemma_pre_list_cmp_range(a.pre@, b.pre@);
}

/// Precedence is reflexive: a version never precedes itself.
pub proof fn lemma_version_cmp_refl(a: Version)
    ensures
        spec_version_cmp(a, a) == 0,
{
    lemma_pre_list_cmp_refl(a.pre@);
}

/// Swapping the arguments flips the sign of the comparison.
pub proof fn lemma_version_cmp_antisym(a: Version, b: Version)
    ensures
        spec_version_cmp(a, b) == -spec_version_cmp(b, a),
{
    lemma_pre_list_cmp_antisym(a.pre@, b.pre@);
}

/// Precedence is transitive, and strictly so when a link is strict.
pub proof fn lemma_version_cmp_trans(a: Version, b: Version, c: Version)
    requires
        spec_version_cmp(a, b) <= 0,
        spec_version_cmp(b, c) <= 0,
    ensures
        spec_version_cmp(a, c) <= 0,
        spec_version_cmp(a, b) == -1 || spec_version_cmp(b, c) == -1 ==> spec_version_cmp(
            a,
            c,
        ) == -1,
{
    if a.major == b.major == c.major && a.minor == b.minor == c.minor && a.patch == b.patch
        == c.patch {
        if a.pre@.len() > 0 && b.pre@.len() > 0 && c.pre@.len() > 0 {
            lemma_pre_list_cmp_trans(a.pre@, b.pre@, c.pre@);
        }
    }
}

} // verus!
