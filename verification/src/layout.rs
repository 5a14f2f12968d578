//! Sizes, alignments, and the offset arithmetic that descriptors are built
//! from: rounding an offset up to an alignment, the padded stride of an
//! element, and the sequential field-offset computation used by descriptor
//! producers for structs and for enum variants laid out behind a
//! discriminant.

use vstd::prelude::*;
use vstd::arithmetic::div_mod::{
    lemma_fundamental_div_mod, lemma_mod_bound, lemma_mod_multiples_basic,
};
use vstd::arithmetic::mul::lemma_mul_is_commutative;

verus! {

/// Size and alignment of one concrete type, as its `Shape` records them.
#[derive(Clone, Copy, PartialEq, Eq, Structural, Debug)]
pub struct Layout {
    /// Size of a value in bytes.
    pub size: usize,
    /// Required alignment in bytes.
    pub align: usize,
}

/// Least multiple of `align` that is no less than `off`.
pub open spec fn spec_align_up(off: int, align: int) -> int {
    ((off + align - 1) / align) * align
}

pub proof fn lemma_align_up(off: int, align: int)
    requires
        0 <= off,
        1 <= align,
    ensures
        off <= spec_align_up(off, align) <= off + align - 1,
        spec_align_up(off, align) % align == 0,
{
    let d = off + align - 1;
    lemma_fundamental_div_mod(d, align);
    lemma_mod_bound(d, align);
    lemma_mul_is_commutative(d / align, align);
    assert(spec_align_up(off, align) == d - d % align);
    lemma_mod_multiples_basic(d / align, align);
}

/// Two multiples of `align` less than `align` apart are the same multiple.
proof fn lemma_multiple_unique(x: int, y: int, align: int)
    requires
        1 <= align,
        x % align == 0,
        y % align == 0,
        -align < x - y < align,
    ensures
        x == y,
{
    let qx = x / align;
    let qy = y / align;
    lemma_fundamental_div_mod(x, align);
    lemma_fundamental_div_mod(y, align);
    assert(x == align * qx);
    assert(y == align * qy);
    assert(qx == qy) by (nonlinear_arith)
        requires
            1 <= align,
            x == align * qx,
            y == align * qy,
            -align < x - y < align,
    ;
}

/// Rounds `off` up to the next multiple of `align`; `None` when the result
/// would not fit in `usize`.
pub fn align_up_checked(off: usize, align: usize) -> (r: Option<usize>)
    requires
        1 <= align,
    ensures
        match r {
            Some(v) => v == spec_align_up(off as int, align as int),
            None => spec_align_up(off as int, align as int) > usize::MAX,
        },
{
    proof {
        lemma_align_up(off as int, align as int);
    }
    let rem = off % align;
    if rem == 0 {
        proof {
            lemma_multiple_unique(spec_align_up(off as int, align as int), off as int,
                align as int);
        }
        Some(off)
    } else {
        proof {
            let q = off as int / align as int;
            lemma_fundamental_div_mod(off as int, align as int);
            lemma_mod_bound(off as int, align as int);
            assert(off - rem + align == (q + 1) * (align as int)) by (nonlinear_arith)
                requires
                    off == align * q + rem,
            ;
            lemma_mod_multiples_basic(q + 1, align as int);
            assert((off - rem + align) % (align as int) == 0);
        }
        if off - rem <= usize::MAX - align {
            proof {
                lemma_multiple_unique(spec_align_up(off as int, align as int),
                    off - rem + align, align as int);
            }
            Some(off - rem + align)
        } else {
            proof {
                lemma_multiple_unique(spec_align_up(off as int, align as int),
                    off - rem + align, align as int);
            }
            None
        }
    }
}

impl Layout {
    /// A layout makes sense only with a nonzero alignment.
    pub open spec fn wf(self) -> bool {
        1 <= self.align
    }

    /// Distance between consecutive values of this layout in an array: the
    /// size padded up to the alignment.
    pub open spec fn spec_stride(self) -> int {
        spec_align_up(self.size as int, self.align as int)
    }

    /// The padded stride never drops below the size, and fits the alignment.
    pub proof fn lemma_stride(self)
        requires
            self.wf(),
        ensures
            self.size <= self.spec_stride() <= self.size + self.align - 1,
            self.spec_stride() % (self.align as int) == 0,
    {
        lemma_align_up(self.size as int, self.align as int);
    }

    /// Computes the padded stride; `None` when it would not fit in `usize`.
    pub fn stride(&self) -> (r: Option<usize>)
        requires
            self.wf(),
        ensures
            match r {
                Some(v) => v == self.spec_stride(),
                None => self.spec_stride() > usize::MAX,
            },
    {
        align_up_checked(self.size, self.align)
    }
}

/// Where a sequential, C-like layout ends after placing the first `i` of
/// the fields with layouts `ls` behind `base` occupied bytes: each field
/// goes to the next properly aligned offset past everything before it.
pub open spec fn spec_offset_end(base: int, ls: Seq<Layout>, i: int) -> int
    decreases i,
{
    if i <= 0 {
        base
    } else {
        spec_align_up(spec_offset_end(base, ls, i - 1), ls[i - 1].align as int) + ls[i - 1].size
    }
}

/// Offset of field `i` when fields with layouts `ls` follow `base` bytes.
pub open spec fn spec_field_offset(base: int, ls: Seq<Layout>, i: int) -> int {
    spec_align_up(spec_offset_end(base, ls, i), ls[i].align as int)
}

/// Ends never shrink as more fields are placed.
pub proof fn lemma_offset_end_grows(base: int, ls: Seq<Layout>, i: int, j: int)
    requires
        0 <= base,
        0 <= i <= j <= ls.len(),
        forall|k: int| 0 <= k < ls.len() ==> (#[trigger] ls[k]).wf(),
    ensures
        base <= spec_offset_end(base, ls, i) <= spec_offset_end(base, ls, j),
    decreases j,
{
    if j > 0 {
        if i == j {
            lemma_offset_end_grows(base, ls, 0, j - 1);
            lemma_align_up(spec_offset_end(base, ls, j - 1), ls[j - 1].align as int);
        } else {
            lemma_offset_end_grows(base, ls, i, j - 1);
            lemma_align_up(spec_offset_end(base, ls, j - 1), ls[j - 1].align as int);
        }
    }
}

/// The computed offsets are aligned, start past `base`, and give each field
/// a byte range of its own: field `i` ends where the bytes after it begin,
/// at or before field `i + 1`.
pub proof fn lemma_field_offsets_sound(base: int, ls: Seq<Layout>, i: int)
    requires
        0 <= base,
        0 <= i < ls.len(),
        forall|k: int| 0 <= k < ls.len() ==> (#[trigger] ls[k]).wf(),
    ensures
        spec_field_offset(base, ls, i) % (ls[i].align as int) == 0,
        base <= spec_field_offset(base, ls, i),
        spec_field_offset(base, ls, i) + ls[i].size == spec_offset_end(base, ls, i + 1),
        i + 1 < ls.len() ==> spec_field_offset(base, ls, i) + ls[i].size <= spec_field_offset(
            base,
            ls,
            i + 1,
        ),
{
    lemma_offset_end_grows(base, ls, 0, i);
    lemma_align_up(spec_offset_end(base, ls, i), ls[i].align as int);
    if i + 1 < ls.len() {
        lemma_align_up(spec_offset_end(base, ls, i + 1), ls[i + 1].align as int);
    }
}

/// Computes the byte offset of every field of a sequential, C-like layout
/// whose fields have layouts `ls` and are placed after `base` occupied
/// bytes.  For a plain struct `base` is zero; for an enum variant laid out
/// behind its discriminant, `base` is the discriminant's size, so the
/// offsets come out as though a shadow struct held the discriminant first
/// and then the variant's fields in declaration order.  Returns `None`
/// exactly when the layout runs past `usize::MAX`.
pub fn compute_field_offsets(base: usize, ls: &Vec<Layout>) -> (r: Option<Vec<usize>>)
    requires
        forall|i: int| 0 <= i < ls@.len() ==> (#[trigger] ls@[i]).wf(),
    ensures
        match r {
            Some(offs) => {
                &&& offs@.len() == ls@.len()
                &&& forall|i: int|
                    0 <= i < ls@.len() ==> #[trigger] offs@[i] == spec_field_offset(
                        base as int,
                        ls@,
                        i,
                    )
                &&& spec_offset_end(base as int, ls@, ls@.len() as int) <= usize::MAX
            },
            None => spec_offset_end(base as int, ls@, ls@.len() as int) > usize::MAX,
        },
{
    let n = ls.len();
    let mut offs: Vec<usize> = Vec::new();
    let mut cur: usize = base;
    let mut i: usize = 0;
    while i < n
        invariant
            i <= n,
            n == ls@.len(),
            offs@.len() == i,
            forall|j: int| 0 <= j < ls@.len() ==> (#[trigger] ls@[j]).wf(),
            cur == spec_offset_end(base as int, ls@, i as int),
            forall|j: int|
                0 <= j < i ==> #[trigger] offs@[j] == spec_field_offset(base as int, ls@, j),
        decreases n - i,
    {
        let a = ls[i].align;
        let s = ls[i].size;
        let off = match align_up_checked(cur, a) {
            Some(off) => off,
            None => {
                proof {
                    lemma_offset_end_grows(base as int, ls@, i + 1, ls@.len() as int);
                }
                return None;
            },
        };
        if off > usize::MAX - s {
            proof {
                lemma_offset_end_grows(base as int, ls@, i + 1, ls@.len() as int);
            }
            return None;
        }
        offs.push(off);
        cur = off + s;
        i = i + 1;
    }
    Some(offs)
}

} // verus!
