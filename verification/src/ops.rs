//! The type-erased operations behind a shape's capability slots, for the
//! shapes whose encodings this crate interprets: boolean, integer and
//! zero-sized scalars, and fixed sequences over them.  A sequence's
//! operations are derived per element, exactly as its synthesized
//! capability table promises: equality is the element-wise conjunction,
//! short-circuiting on the first mismatch; ordering is lexicographic, the
//! first non-equal element pair deciding; default construction and cloning
//! fill the target element range by element range.

use vstd::prelude::*;
use vstd::slice::slice_subrange;
use vstd::arithmetic::mul::{lemma_mul_inequality, lemma_mul_is_commutative};
use vstd::arithmetic::power2::{lemma2_to64, lemma_pow2_adds, lemma_pow2_pos, pow2};
use core::cmp::Ordering;
use vstd::arithmetic::power2::lemma2_to64_rest;
use vstd::string::StringExecFns;
use crate::arrays::{decimal_string, spec_decimal};
use crate::opaque::{spec_write, OpaqueUninit};
use crate::shape::{Def, EnumRepr, ListDef, ScalarAffinity, Shape};

verus! {

/// Shapes whose values this crate can interpret byte by byte: boolean,
/// integer and zero-sized scalars, and fixed sequences of such.  For
/// these the encoding determines the value.
pub open spec fn spec_interpretable(s: Shape) -> bool
    decreases s,
{
    match s.def {
        Def::Scalar(sd) => match sd.affinity {
            ScalarAffinity::Boolean => true,
            ScalarAffinity::UnsignedInt { .. } => true,
            ScalarAffinity::SignedInt { .. } => true,
            ScalarAffinity::Empty => true,
            _ => false,
        },
        Def::List(ld) => spec_interpretable(*ld.elem),
        _ => false,
    }
}

/// The value bytes of element `i` of a sequence value `v`: the element's
/// size, taken at the element's padded stride.
pub open spec fn spec_elem_bytes(ld: ListDef, v: Seq<u8>, i: int) -> Seq<u8> {
    let st = (*ld.elem).layout.spec_stride();
    v.subrange(i * st, i * st + (*ld.elem).layout.size)
}

/// Equality of two values of shape `s`, read from their bytes: scalars
/// compare by their encoding; sequences are equal exactly when all
/// element pairs are.
pub open spec fn spec_value_eq(s: Shape, a: Seq<u8>, b: Seq<u8>) -> bool
    decreases s,
{
    match s.def {
        Def::Scalar(_) => a == b,
        Def::List(ld) => forall|i: int|
            0 <= i < ld.len ==> spec_value_eq(
                *ld.elem,
                #[trigger] spec_elem_bytes(ld, a, i),
                spec_elem_bytes(ld, b, i),
            ),
        _ => true,
    }
}

/// Byte-for-byte equality of two equal-length slices.
fn bytes_eq(a: &[u8], b: &[u8]) -> (r: bool)
    requires
        a@.len() == b@.len(),
    ensures
        r == (a@ == b@),
{
    let n = a.len();
    let mut i: usize = 0;
    while i < n
        invariant
            i <= n,
            n == a@.len(),
            a@.len() == b@.len(),
            forall|j: int| 0 <= j < i ==> a@[j] == b@[j],
        decreases n - i,
    {
        if a[i] != b[i] {
            return false;
        }
        i = i + 1;
    }
    proof {
        assert(a@ =~= b@);
    }
    true
}

/// The byte range of element `i` lies inside a sequence of `n` elements
/// at stride `st`, and its offsets fit `usize`.
pub proof fn lemma_elem_range(i: int, n: int, st: int, size: int)
    requires
        0 <= i < n,
        0 <= size <= st,
        st * n <= usize::MAX,
    ensures
        0 <= i * st,
        i * st + size <= (i + 1) * st <= st * n <= usize::MAX,
{
    lemma_mul_inequality(i + 1, n, st);
    lemma_mul_is_commutative(n, st);
    assert(i * st + st == (i + 1) * st) by (nonlinear_arith);
    assert(0 <= i * st) by (nonlinear_arith)
        requires
            0 <= i,
            0 <= st,
    ;
}

/// Decides equality of the element pairs of two sequence values,
/// left to right, stopping at the first mismatch.
fn list_elems_eq(ld: &ListDef, a: &[u8], b: &[u8]) -> (r: bool)
    requires
        (*ld.elem).wf(),
        spec_interpretable(*ld.elem),
        a@.len() == (*ld.elem).layout.spec_stride() * ld.len,
        b@.len() == a@.len(),
    ensures
        r == (forall|i: int|
            0 <= i < ld.len ==> spec_value_eq(
                *ld.elem,
                #[trigger] spec_elem_bytes(*ld, a@, i),
                spec_elem_bytes(*ld, b@, i),
            )),
    decreases *ld,
{
    let n = ld.len;
    let alen = a.len();
    if n == 0 {
        return true;
    }
    let st = match (*ld.elem).layout.stride() {
        Some(st) => st,
        None => {
            proof {
                let sp = (*ld.elem).layout.spec_stride();
                assert(sp <= sp * (n as int)) by (nonlinear_arith)
                    requires
                        1 <= n as int,
                        0 <= sp,
                ;
                assert(false);
            }
            return true;
        },
    };
    let esize = (*ld.elem).layout.size;
    proof {
        (*ld.elem).layout.lemma_stride();
    }
    let mut i: usize = 0;
    while i < n
        invariant
            i <= n,
            n == ld.len,
            (*ld.elem).wf(),
            spec_interpretable(*ld.elem),
            st == (*ld.elem).layout.spec_stride(),
            esize == (*ld.elem).layout.size,
            esize <= st,
            a@.len() == st * n,
            a@.len() <= usize::MAX,
            b@.len() == a@.len(),
            forall|j: int|
                0 <= j < i ==> spec_value_eq(
                    *ld.elem,
                    #[trigger] spec_elem_bytes(*ld, a@, j),
                    spec_elem_bytes(*ld, b@, j),
                ),
        decreases n - i,
    {
        proof {
            lemma_elem_range(i as int, n as int, st as int, esize as int);
        }
        let sa = slice_subrange(a, i * st, i * st + esize);
        let sb = slice_subrange(b, i * st, i * st + esize);
        if !value_eq(&*ld.elem, sa, sb) {
            proof {
                assert(sa@ == spec_elem_bytes(*ld, a@, i as int));
                assert(sb@ == spec_elem_bytes(*ld, b@, i as int));
            }
            return false;
        }
        i = i + 1;
    }
    true
}

/// Decides equality of two values of shape `s` from their bytes.  The
/// shape must populate its equality slot only when its values are
/// interpretable, which the shapes built by this crate's producers do.
pub fn value_eq(s: &Shape, a: &[u8], b: &[u8]) -> (r: bool)
    requires
        s.wf(),
        spec_interpretable(*s),
        a@.len() == s.layout.size,
        b@.len() == s.layout.size,
    ensures
        r == spec_value_eq(*s, a@, b@),
    decreases *s,
{
    match &s.def {
        Def::Scalar(_) => bytes_eq(a, b),
        Def::List(ld) => list_elems_eq(ld, a, b),
        _ => {
            proof {
                assert(false);
            }
            vstd::pervasive::unreached()
        },
    }
}

/// The numeric value of little-endian bytes: the first byte is least
/// significant.
pub open spec fn spec_le_nat(s: Seq<u8>) -> nat
    decreases s.len(),
{
    if s.len() == 0 {
        0
    } else {
        s[0] as nat + 256 * spec_le_nat(s.drop_first())
    }
}

/// The signed value of little-endian two's-complement bytes: the top bit
/// of the most significant byte carries weight minus two to the width.
pub open spec fn spec_twos_complement(s: Seq<u8>) -> int {
    if s.len() > 0 && s[s.len() - 1] >= 128 {
        spec_le_nat(s) - pow2((8 * s.len()) as nat)
    } else {
        spec_le_nat(s) as int
    }
}

/// The ordering of two integers.
pub open spec fn spec_cmp_int(x: int, y: int) -> Ordering {
    if x < y {
        Ordering::Less
    } else if x == y {
        Ordering::Equal
    } else {
        Ordering::Greater
    }
}

/// A little-endian value fits its width.
pub proof fn lemma_le_nat_bound(s: Seq<u8>)
    ensures
        spec_le_nat(s) < pow2((8 * s.len()) as nat),
    decreases s.len(),
{
    lemma2_to64();
    if s.len() > 0 {
        let r = spec_le_nat(s.drop_first());
        lemma_le_nat_bound(s.drop_first());
        lemma_pow2_adds(8, (8 * (s.len() - 1)) as nat);
        let p = pow2((8 * (s.len() - 1)) as nat);
        assert((s[0] as nat) + 256 * r < 256 * p) by (nonlinear_arith)
            requires
                s[0] < 256,
                r < p,
        ;
    }
}

/// Splitting off the most significant byte: its weight is two to eight
/// times the remaining width.
pub proof fn lemma_le_nat_split_last(s: Seq<u8>)
    requires
        s.len() >= 1,
    ensures
        spec_le_nat(s) == spec_le_nat(s.drop_last()) + s.last() * pow2(
            (8 * (s.len() - 1)) as nat,
        ),
    decreases s.len(),
{
    lemma2_to64();
    if s.len() == 1 {
        assert(s.drop_last() =~= Seq::<u8>::empty());
        assert(s.drop_first() =~= Seq::<u8>::empty());
        assert(s.last() * pow2(0) == s.last()) by (nonlinear_arith)
            requires
                pow2(0) == 1,
        ;
    } else {
        let t = s.drop_first();
        lemma_le_nat_split_last(t);
        assert(t.drop_last() =~= s.drop_last().drop_first());
        assert(t.last() == s.last());
        let p = pow2((8 * (s.len() - 2)) as nat);
        lemma_pow2_adds(8, (8 * (s.len() - 2)) as nat);
        assert(s[0] as nat + 256 * (spec_le_nat(t.drop_last()) + s.last() * p) == (s[0] as nat
            + 256 * spec_le_nat(t.drop_last())) + s.last() * (256 * p)) by (nonlinear_arith);
    }
}

/// Compares two equal-length values as little-endian magnitudes, from
/// the most significant byte down.
fn cmp_le_bytes(a: &[u8], b: &[u8]) -> (r: Ordering)
    requires
        a@.len() == b@.len(),
    ensures
        r == spec_cmp_int(spec_le_nat(a@) as int, spec_le_nat(b@) as int),
{
    let n = a.len();
    let mut i: usize = n;
    proof {
        assert(a@.subrange(0, n as int) =~= a@);
        assert(b@.subrange(0, n as int) =~= b@);
    }
    while i > 0
        invariant
            i <= n,
            n == a@.len(),
            a@.len() == b@.len(),
            spec_le_nat(a@) - spec_le_nat(b@) == spec_le_nat(a@.subrange(0, i as int))
                - spec_le_nat(b@.subrange(0, i as int)),
        decreases i,
    {
        let j = i - 1;
        proof {
            let ta = a@.subrange(0, i as int);
            let tb = b@.subrange(0, i as int);
            lemma_le_nat_split_last(ta);
            lemma_le_nat_split_last(tb);
            assert(ta.drop_last() =~= a@.subrange(0, j as int));
            assert(tb.drop_last() =~= b@.subrange(0, j as int));
            assert(ta.last() == a@[j as int]);
            assert(tb.last() == b@[j as int]);
            lemma_le_nat_bound(a@.subrange(0, j as int));
            lemma_le_nat_bound(b@.subrange(0, j as int));
            lemma_pow2_pos((8 * (j as int)) as nat);
        }
        if a[j] < b[j] {
            proof {
                let p = pow2((8 * (j as int)) as nat);
                let la = spec_le_nat(a@.subrange(0, j as int));
                let lb = spec_le_nat(b@.subrange(0, j as int));
                assert((la + a@[j as int] * p) < (lb + b@[j as int] * p)) by (nonlinear_arith)
                    requires
                        a@[j as int] < b@[j as int],
                        0 < p,
                        la < p,
                        0 <= lb,
                ;
            }
            return Ordering::Less;
        }
        if a[j] > b[j] {
            proof {
                let p = pow2((8 * (j as int)) as nat);
                let la = spec_le_nat(a@.subrange(0, j as int));
                let lb = spec_le_nat(b@.subrange(0, j as int));
                assert((lb + b@[j as int] * p) < (la + a@[j as int] * p)) by (nonlinear_arith)
                    requires
                        b@[j as int] < a@[j as int],
                        0 < p,
                        lb < p,
                        0 <= la,
                ;
            }
            return Ordering::Greater;
        }
        i = j;
    }
    proof {
        assert(a@.subrange(0, 0) =~= Seq::<u8>::empty());
        assert(b@.subrange(0, 0) =~= Seq::<u8>::empty());
    }
    Ordering::Equal
}

/// Compares two equal-length values as little-endian two's-complement
/// integers: differing signs decide; within one sign the magnitude
/// order is the signed order.
fn cmp_signed_bytes(a: &[u8], b: &[u8]) -> (r: Ordering)
    requires
        a@.len() == b@.len(),
        a@.len() >= 1,
    ensures
        r == spec_cmp_int(spec_twos_complement(a@), spec_twos_complement(b@)),
{
    let n = a.len();
    let neg_a = a[n - 1] >= 128;
    let neg_b = b[n - 1] >= 128;
    proof {
        lemma_le_nat_bound(a@);
        lemma_le_nat_bound(b@);
    }
    if neg_a && !neg_b {
        Ordering::Less
    } else if !neg_a && neg_b {
        Ordering::Greater
    } else {
        cmp_le_bytes(a, b)
    }
}

/// Ordering of two scalar values read from their bytes: signed integers
/// by two's-complement value, everything else by magnitude; zero-sized
/// scalars are equal.
pub open spec fn spec_scalar_cmp(aff: ScalarAffinity, a: Seq<u8>, b: Seq<u8>) -> Ordering {
    match aff {
        ScalarAffinity::SignedInt { .. } => spec_cmp_int(
            spec_twos_complement(a),
            spec_twos_complement(b),
        ),
        _ => spec_cmp_int(spec_le_nat(a) as int, spec_le_nat(b) as int),
    }
}

/// Ordering of two values of shape `s`: scalars by `spec_scalar_cmp`,
/// sequences lexicographically — scanning elements left to right, the
/// first non-equal pair decides, and all pairs equal means equal.
pub open spec fn spec_value_cmp(s: Shape, a: Seq<u8>, b: Seq<u8>) -> Ordering
    decreases s, 0int,
{
    match s.def {
        Def::Scalar(sd) => spec_scalar_cmp(sd.affinity, a, b),
        Def::List(ld) => spec_list_cmp(ld, a, b, 0),
        _ => Ordering::Equal,
    }
}

/// Lexicographic scan of two sequence values from element `i` on.
pub open spec fn spec_list_cmp(ld: ListDef, a: Seq<u8>, b: Seq<u8>, i: int) -> Ordering
    decreases ld, ld.len - i,
{
    if i < 0 || i >= ld.len {
        Ordering::Equal
    } else {
        let c = spec_value_cmp(*ld.elem, spec_elem_bytes(ld, a, i), spec_elem_bytes(ld, b, i));
        if c == Ordering::Equal {
            spec_list_cmp(ld, a, b, i + 1)
        } else {
            c
        }
    }
}

/// Compares the element pairs of two sequence values left to right,
/// returning the first non-equal element ordering, else equal.
fn list_elems_cmp(ld: &ListDef, a: &[u8], b: &[u8]) -> (r: Ordering)
    requires
        (*ld.elem).wf(),
        spec_interpretable(*ld.elem),
        a@.len() == (*ld.elem).layout.spec_stride() * ld.len,
        b@.len() == a@.len(),
    ensures
        r == spec_list_cmp(*ld, a@, b@, 0),
    decreases *ld,
{
    let n = ld.len;
    let alen = a.len();
    if n == 0 {
        return Ordering::Equal;
    }
    let st = match (*ld.elem).layout.stride() {
        Some(st) => st,
        None => {
            proof {
                let sp = (*ld.elem).layout.spec_stride();
                assert(sp <= sp * (n as int)) by (nonlinear_arith)
                    requires
                        1 <= n as int,
                        0 <= sp,
                ;
                assert(false);
            }
            return Ordering::Equal;
        },
    };
    let esize = (*ld.elem).layout.size;
    proof {
        (*ld.elem).layout.lemma_stride();
    }
    let mut i: usize = 0;
    while i < n
        invariant
            i <= n,
            n == ld.len,
            (*ld.elem).wf(),
            spec_interpretable(*ld.elem),
            st == (*ld.elem).layout.spec_stride(),
            esize == (*ld.elem).layout.size,
            esize <= st,
            a@.len() == st * n,
            a@.len() <= usize::MAX,
            b@.len() == a@.len(),
            spec_list_cmp(*ld, a@, b@, 0) == spec_list_cmp(*ld, a@, b@, i as int),
        decreases n - i,
    {
        proof {
            lemma_elem_range(i as int, n as int, st as int, esize as int);
        }
        let sa = slice_subrange(a, i * st, i * st + esize);
        let sb = slice_subrange(b, i * st, i * st + esize);
        let c = value_ord(&*ld.elem, sa, sb);
        proof {
            assert(sa@ == spec_elem_bytes(*ld, a@, i as int));
            assert(sb@ == spec_elem_bytes(*ld, b@, i as int));
        }
        match c {
            Ordering::Equal => {},
            _ => {
                return c;
            },
        }
        i = i + 1;
    }
    Ordering::Equal
}

/// Compares two values of shape `s` from their bytes: the total
/// ordering slot.  The shape must populate its ordering slots only when
/// its values are interpretable, as the shapes built by this crate's
/// producers do.
pub fn value_ord(s: &Shape, a: &[u8], b: &[u8]) -> (r: Ordering)
    requires
        s.wf(),
        spec_interpretable(*s),
        a@.len() == s.layout.size,
        b@.len() == s.layout.size,
    ensures
        r == spec_value_cmp(*s, a@, b@),
    decreases *s,
{
    match &s.def {
        Def::Scalar(sd) => match &sd.affinity {
            ScalarAffinity::SignedInt { .. } => cmp_signed_bytes(a, b),
            _ => cmp_le_bytes(a, b),
        },
        Def::List(ld) => list_elems_cmp(ld, a, b),
        _ => {
            proof {
                assert(false);
            }
            vstd::pervasive::unreached()
        },
    }
}

/// Compares two values of shape `s` from their bytes: the partial
/// ordering slot.  For every interpretable shape the ordering is total,
/// so the result is always present.
pub fn value_partial_ord(s: &Shape, a: &[u8], b: &[u8]) -> (r: Option<Ordering>)
    requires
        s.wf(),
        spec_interpretable(*s),
        a@.len() == s.layout.size,
        b@.len() == s.layout.size,
    ensures
        r == Some(spec_value_cmp(*s, a@, b@)),
{
    Some(value_ord(s, a, b))
}

/// Shapes whose default value this crate can write: interpretable
/// scalars, whose default encoding is all zero bytes, and fixed
/// sequences of at most 32 such elements.  A zero-length sequence has a
/// default — vacuously — whatever its element is; above 32 elements the
/// slot is deliberately left unpopulated.
pub open spec fn spec_default_ready(s: Shape) -> bool
    decreases s,
{
    match s.def {
        Def::Scalar(sd) => match sd.affinity {
            ScalarAffinity::Boolean => true,
            ScalarAffinity::UnsignedInt { .. } => true,
            ScalarAffinity::SignedInt { .. } => true,
            ScalarAffinity::Empty => true,
            _ => false,
        },
        Def::List(ld) => ld.len == 0 || (ld.len <= 32 && spec_default_ready(*ld.elem)),
        _ => false,
    }
}

/// A sequence of `n` zero bytes.
pub open spec fn spec_zero_bytes(n: int) -> Seq<u8> {
    Seq::new(n as nat, |p: int| 0u8)
}

/// Writes the default value of shape `s` into `dst` at `offset`: every
/// interpretable default encodes as zero bytes, so the value's whole
/// range is zeroed and every byte outside it keeps its contents.  A
/// zero-length sequence writes nothing: its default is the empty value.
pub fn value_default_in_place(s: &Shape, dst: &mut OpaqueUninit, offset: usize)
    requires
        s.wf(),
        spec_default_ready(*s),
        offset + s.layout.size <= old(dst)@.len(),
    ensures
        final(dst)@ == spec_write(old(dst)@, offset as int, spec_zero_bytes(s.layout.size as int)),
{
    let size = s.layout.size;
    let mut zeros: Vec<u8> = Vec::new();
    let mut i: usize = 0;
    while i < size
        invariant
            i <= size,
            zeros@.len() == i,
            forall|p: int| 0 <= p < i ==> zeros@[p] == 0u8,
        decreases size - i,
    {
        zeros.push(0);
        i = i + 1;
    }
    proof {
        assert(zeros@ =~= spec_zero_bytes(size as int));
    }
    dst.write_bytes(offset, zeros.as_slice());
}

/// Clones a value of shape `s` — `src` must be its bytes — into `dst`
/// at `offset`: interpretable values are determined by their encoding,
/// so the clone is the same bytes, and every byte outside the target
/// range keeps its contents.
pub fn value_clone_into(s: &Shape, src: &[u8], dst: &mut OpaqueUninit, offset: usize)
    requires
        s.wf(),
        spec_interpretable(*s),
        src@.len() == s.layout.size,
        offset + s.layout.size <= old(dst)@.len(),
    ensures
        final(dst)@ == spec_write(old(dst)@, offset as int, src@),
{
    dst.write_bytes(offset, src);
}

/// One step of the hash fold: one byte mixed into the accumulator.
pub open spec fn spec_hash_step(acc: u64, byte: u8) -> u64 {
    (acc ^ byte as u64).wrapping_mul(0x100000001b3u64)
}

/// A value's bytes folded into a hash accumulator, first byte first.
pub open spec fn spec_hash_fold(s: Seq<u8>, acc: u64) -> u64
    decreases s.len(),
{
    if s.len() == 0 {
        acc
    } else {
        spec_hash_fold(s.drop_first(), spec_hash_step(acc, s[0]))
    }
}

/// Folds a value's bytes into `acc`, one byte at a time.
fn hash_bytes(v: &[u8], acc: u64) -> (r: u64)
    ensures
        r == spec_hash_fold(v@, acc),
{
    let n = v.len();
    let mut i: usize = 0;
    let mut h: u64 = acc;
    proof {
        assert(v@.skip(0) =~= v@);
    }
    while i < n
        invariant
            i <= n,
            n == v@.len(),
            spec_hash_fold(v@, acc) == spec_hash_fold(v@.skip(i as int), h),
        decreases n - i,
    {
        proof {
            assert(v@.skip(i as int).drop_first() =~= v@.skip(i + 1));
            assert(v@.skip(i as int)[0] == v@[i as int]);
        }
        h = (h ^ (v[i] as u64)).wrapping_mul(0x100000001b3u64);
        i = i + 1;
    }
    proof {
        assert(v@.skip(n as int) =~= Seq::<u8>::empty());
    }
    h
}

/// A value of shape `s` folded into a hash accumulator: a scalar folds
/// its bytes; a sequence folds each element's hash in order, skipping
/// the padding between elements.
pub open spec fn spec_value_hash(s: Shape, v: Seq<u8>, acc: u64) -> u64
    decreases s, 0int,
{
    match s.def {
        Def::Scalar(_) => spec_hash_fold(v, acc),
        Def::List(ld) => spec_list_hash(ld, v, 0, acc),
        _ => acc,
    }
}

/// The hash fold over a sequence's elements from element `i` on.
pub open spec fn spec_list_hash(ld: ListDef, v: Seq<u8>, i: int, acc: u64) -> u64
    decreases ld, ld.len - i,
{
    if i < 0 || i >= ld.len {
        acc
    } else {
        spec_list_hash(ld, v, i + 1, spec_value_hash(*ld.elem, spec_elem_bytes(ld, v, i), acc))
    }
}

/// Folds the element hashes of a sequence value into `acc`, in order.
fn list_elems_hash(ld: &ListDef, v: &[u8], acc: u64) -> (r: u64)
    requires
        (*ld.elem).wf(),
        spec_interpretable(*ld.elem),
        v@.len() == (*ld.elem).layout.spec_stride() * ld.len,
    ensures
        r == spec_list_hash(*ld, v@, 0, acc),
    decreases *ld,
{
    let n = ld.len;
    let alen = v.len();
    if n == 0 {
        return acc;
    }
    let st = match (*ld.elem).layout.stride() {
        Some(st) => st,
        None => {
            proof {
                let sp = (*ld.elem).layout.spec_stride();
                assert(sp <= sp * (n as int)) by (nonlinear_arith)
                    requires
                        1 <= n as int,
                        0 <= sp,
                ;
                assert(false);
            }
            return acc;
        },
    };
    let esize = (*ld.elem).layout.size;
    proof {
        (*ld.elem).layout.lemma_stride();
    }
    let mut i: usize = 0;
    let mut h: u64 = acc;
    while i < n
        invariant
            i <= n,
            n == ld.len,
            (*ld.elem).wf(),
            spec_interpretable(*ld.elem),
            st == (*ld.elem).layout.spec_stride(),
            esize == (*ld.elem).layout.size,
            esize <= st,
            v@.len() == st * n,
            v@.len() <= usize::MAX,
            spec_list_hash(*ld, v@, 0, acc) == spec_list_hash(*ld, v@, i as int, h),
        decreases n - i,
    {
        proof {
            lemma_elem_range(i as int, n as int, st as int, esize as int);
        }
        let sv = slice_subrange(v, i * st, i * st + esize);
        proof {
            assert(sv@ == spec_elem_bytes(*ld, v@, i as int));
        }
        h = value_hash(&*ld.elem, sv, h);
        i = i + 1;
    }
    h
}

/// Folds a value of shape `s` into a hash accumulator: the hashing
/// slot.  A sequence folds each element's hash into one running
/// accumulator, in element order.
pub fn value_hash(s: &Shape, v: &[u8], acc: u64) -> (r: u64)
    requires
        s.wf(),
        spec_interpretable(*s),
        v@.len() == s.layout.size,
    ensures
        r == spec_value_hash(*s, v@, acc),
    decreases *s,
{
    match &s.def {
        Def::Scalar(_) => hash_bytes(v, acc),
        Def::List(ld) => list_elems_hash(ld, v, acc),
        _ => {
            proof {
                assert(false);
            }
            vstd::pervasive::unreached()
        },
    }
}

/// The live discriminant encoded in the first bytes of an enum value
/// under representation `repr`: the unsigned magnitude, or the
/// two's-complement value for a signed representation.
pub open spec fn spec_discriminant(repr: EnumRepr, v: Seq<u8>) -> int {
    let d = v.subrange(0, repr.spec_layout().size as int);
    if repr.spec_signed() {
        spec_twos_complement(d)
    } else {
        spec_le_nat(d) as int
    }
}

/// Reads the live discriminant from the first bytes of an enum value:
/// the variant it selects is the one whose field list applies.
pub fn read_discriminant(repr: EnumRepr, v: &[u8]) -> (r: i128)
    requires
        repr.spec_layout().size <= v@.len(),
    ensures
        r == spec_discriminant(repr, v@),
{
    let size = repr.layout().size;
    let d = slice_subrange(v, 0, size);
    proof {
        lemma2_to64();
        lemma2_to64_rest();
        lemma_le_nat_bound(d@);
        assert(d@.subrange(0, size as int) =~= d@);
    }
    let mag = read_le_u64(d);
    if repr.is_signed() {
        if d[size - 1] >= 128 {
            let modulus: i128 = match size {
                1 => 0x100,
                2 => 0x10000,
                4 => 0x100000000,
                _ => 0x10000000000000000,
            };
            proof {
                assert(modulus == pow2((8 * size) as nat));
            }
            (mag as i128) - modulus
        } else {
            mag as i128
        }
    } else {
        mag as i128
    }
}

/// Assembles an unsigned little-endian value of at most eight bytes.
fn read_le_u64(v: &[u8]) -> (r: u64)
    requires
        v@.len() <= 8,
    ensures
        r == spec_le_nat(v@),
{
    let n = v.len();
    let mut acc: u64 = 0;
    let mut j: usize = n;
    proof {
        assert(v@.skip(n as int) =~= Seq::<u8>::empty());
    }
    while j > 0
        invariant
            j <= n,
            n == v@.len(),
            n <= 8,
            acc == spec_le_nat(v@.skip(j as int)),
        decreases j,
    {
        let k = j - 1;
        proof {
            lemma2_to64();
            lemma2_to64_rest();
            let s = v@.skip(k as int);
            lemma_le_nat_bound(s);
            assert(s.drop_first() =~= v@.skip(k + 1));
            assert(s[0] == v@[k as int]);
            vstd::arithmetic::power2::lemma_pow2_strictly_increases(
                (8 * (n - k)) as nat,
                65,
            );
            assert((v@[k as int] as nat) + 256 * spec_le_nat(v@.skip(k + 1)) < pow2(
                (8 * (n - k)) as nat,
            ));
        }
        acc = (v[k] as u64) + 256 * acc;
        j = k;
    }
    proof {
        assert(v@.skip(0) =~= v@);
    }
    acc
}

/// Shapes whose values this crate can render: booleans, the unit
/// scalar, integers of at most eight bytes, and fixed sequences of
/// such.
pub open spec fn spec_displayable(s: Shape) -> bool
    decreases s,
{
    match s.def {
        Def::Scalar(sd) => match sd.affinity {
            ScalarAffinity::Boolean => true,
            ScalarAffinity::UnsignedInt { .. } => s.layout.size <= 8,
            ScalarAffinity::SignedInt { .. } => s.layout.size <= 8,
            ScalarAffinity::Empty => true,
            _ => false,
        },
        Def::List(ld) => spec_displayable(*ld.elem),
        _ => false,
    }
}

/// The rendering of one scalar value: booleans by name, unsigned
/// integers as decimal digits, signed ones with a leading minus when
/// negative, the unit value as its parentheses.
pub open spec fn spec_scalar_display(aff: ScalarAffinity, v: Seq<u8>) -> Seq<char> {
    match aff {
        ScalarAffinity::Boolean => if spec_le_nat(v) == 0 {
            "false"@
        } else {
            "true"@
        },
        ScalarAffinity::SignedInt { .. } => {
            let t = spec_twos_complement(v);
            if t < 0 {
                seq!['-'] + spec_decimal((-t) as nat)
            } else {
                spec_decimal(t as nat)
            }
        },
        ScalarAffinity::Empty => "()"@,
        _ => spec_decimal(spec_le_nat(v)),
    }
}

/// The rendering of a value of shape `s`: scalars by
/// `spec_scalar_display`; sequences in brackets, the elements in order
/// and separated by a comma and a space.
pub open spec fn spec_value_display(s: Shape, v: Seq<u8>) -> Seq<char>
    decreases s, 0int,
{
    match s.def {
        Def::Scalar(sd) => spec_scalar_display(sd.affinity, v),
        Def::List(ld) => "["@ + spec_list_display(ld, v, 0) + "]"@,
        _ => Seq::empty(),
    }
}

/// The rendering of a sequence value's elements from element `i` on.
pub open spec fn spec_list_display(ld: ListDef, v: Seq<u8>, i: int) -> Seq<char>
    decreases ld, ld.len - i,
{
    if i < 0 || i >= ld.len {
        Seq::empty()
    } else {
        let head = spec_value_display(*ld.elem, spec_elem_bytes(ld, v, i));
        let sep: Seq<char> = if i + 1 < ld.len {
            ", "@
        } else {
            Seq::empty()
        };
        head + sep + spec_list_display(ld, v, i + 1)
    }
}

/// Renders a sequence value's elements, bracketed and separated.
fn list_display(ld: &ListDef, v: &[u8]) -> (r: String)
    requires
        (*ld.elem).wf(),
        spec_displayable(*ld.elem),
        v@.len() == (*ld.elem).layout.spec_stride() * ld.len,
    ensures
        r@ == "["@ + spec_list_display(*ld, v@, 0) + "]"@,
    decreases *ld,
{
    let n = ld.len;
    let alen = v.len();
    let mut out = String::from_str("[");
    if n == 0 {
        out.append("]");
        proof {
            assert(out@ =~= "["@ + spec_list_display(*ld, v@, 0) + "]"@);
        }
        return out;
    }
    let st = match (*ld.elem).layout.stride() {
        Some(st) => st,
        None => {
            proof {
                let sp = (*ld.elem).layout.spec_stride();
                assert(sp <= sp * (n as int)) by (nonlinear_arith)
                    requires
                        1 <= n as int,
                        0 <= sp,
                ;
                assert(false);
            }
            return out;
        },
    };
    let esize = (*ld.elem).layout.size;
    proof {
        (*ld.elem).layout.lemma_stride();
    }
    let mut i: usize = 0;
    while i < n
        invariant
            i <= n,
            n == ld.len,
            (*ld.elem).wf(),
            spec_displayable(*ld.elem),
            st == (*ld.elem).layout.spec_stride(),
            esize == (*ld.elem).layout.size,
            esize <= st,
            v@.len() == st * n,
            v@.len() <= usize::MAX,
            out@ + spec_list_display(*ld, v@, i as int) == "["@ + spec_list_display(*ld, v@, 0),
        decreases n - i,
    {
        proof {
            lemma_elem_range(i as int, n as int, st as int, esize as int);
        }
        let sv = slice_subrange(v, i * st, i * st + esize);
        proof {
            assert(sv@ == spec_elem_bytes(*ld, v@, i as int));
        }
        let ghost pre = out@;
        let piece = value_display(&*ld.elem, sv);
        out.append(piece.as_str());
        if i + 1 < n {
            out.append(", ");
            proof {
                assert(out@ + spec_list_display(*ld, v@, i + 1) =~= pre + spec_list_display(
                    *ld,
                    v@,
                    i as int,
                ));
            }
        } else {
            proof {
                assert(spec_list_display(*ld, v@, i + 1) =~= Seq::<char>::empty());
                assert(out@ + spec_list_display(*ld, v@, i + 1) =~= pre + spec_list_display(
                    *ld,
                    v@,
                    i as int,
                ));
            }
        }
        i = i + 1;
    }
    out.append("]");
    proof {
        assert(spec_list_display(*ld, v@, n as int) =~= Seq::<char>::empty());
        assert(out@ =~= "["@ + spec_list_display(*ld, v@, 0) + "]"@);
    }
    out
}

/// Renders a value of shape `s` from its bytes: the display slot.  The
/// shape must populate it only for values this crate can render, as
/// the shapes built by this crate's producers with at most eight-byte
/// integers do.
pub fn value_display(s: &Shape, v: &[u8]) -> (r: String)
    requires
        s.wf(),
        spec_displayable(*s),
        v@.len() == s.layout.size,
    ensures
        r@ == spec_value_display(*s, v@),
    decreases *s,
{
    match &s.def {
        Def::Scalar(sd) => match &sd.affinity {
            ScalarAffinity::Boolean => {
                let mag = read_le_u64(v);
                if mag == 0 {
                    String::from_str("false")
                } else {
                    String::from_str("true")
                }
            },
            ScalarAffinity::SignedInt { .. } => {
                let n = v.len();
                let mag = read_le_u64(v);
                proof {
                    lemma2_to64();
                    lemma2_to64_rest();
                    lemma_le_nat_bound(v@);
                }
                if n > 0 && v[n - 1] >= 128 {
                    proof {
                        lemma_le_nat_split_last(v@);
                        lemma_pow2_pos((8 * (n - 1)) as nat);
                        assert((v@.last() as int) * pow2((8 * (n - 1)) as nat) >= 128) by (
                        nonlinear_arith)
                            requires
                                v@.last() >= 128,
                                pow2((8 * (n - 1)) as nat) >= 1,
                        ;
                        assert(mag >= 1);
                        assert(spec_twos_complement(v@) < 0);
                    }
                    let abs: u64 = if n == 8 {
                        (u64::MAX - mag) + 1
                    } else {
                        let modulus: u64 = match n {
                            1 => 0x100,
                            2 => 0x10000,
                            3 => 0x1000000,
                            4 => 0x100000000,
                            5 => 0x10000000000,
                            6 => 0x1000000000000,
                            _ => 0x100000000000000,
                        };
                        proof {
                            assert(modulus == pow2((8 * n) as nat));
                        }
                        modulus - mag
                    };
                    proof {
                        assert(abs as int == pow2((8 * n) as nat) - mag);
                        assert(abs as int == -spec_twos_complement(v@));
                    }
                    let mut out = String::from_str("-");
                    let digits = decimal_string(abs);
                    out.append(digits.as_str());
                    proof {
                        assert(seq!['-'] =~= "-"@) by {
                            reveal_strlit("-");
                        }
                        assert(out@ =~= spec_scalar_display(sd.affinity, v@));
                    }
                    out
                } else {
                    decimal_string(mag)
                }
            },
            ScalarAffinity::Empty => String::from_str("()"),
            _ => {
                let mag = read_le_u64(v);
                decimal_string(mag)
            },
        },
        Def::List(ld) => list_display(ld, v),
        _ => {
            proof {
                assert(false);
            }
            vstd::pervasive::unreached()
        },
    }
}

} // verus!




