//! Descriptor producers for the built-in scalars: the unit type,
//! booleans, the fixed-width and pointer-sized integers, the two binary
//! floating-point formats, and owned text.  Each gets a shape with the
//! affinity a generic consumer needs to pick a representation, integer
//! shapes carrying encoded samples of their smallest and largest value,
//! float shapes carrying the distinguished bit patterns.  Identity
//! tokens below 32 are reserved for these shapes; pointer-sized shapes
//! describe a 64-bit machine.

use vstd::prelude::*;
use vstd::string::StringExecFns;
use crate::layout::Layout;
use crate::shape::{Def, ScalarAffinity, ScalarDef, Shape, VTable};

verus! {

/// The capability table shared by the plain `Copy` scalars: every
/// operation is supported, and no cleanup is needed in place.
fn copy_scalar_vtable(ty_name: String) -> (r: VTable)
    ensures
        r.ty_name@ == ty_name@,
        r.is_send && r.is_sync,
        r.has_display && r.has_debug,
        r.has_eq && r.has_partial_ord && r.has_ord && r.has_hash,
        r.has_default_in_place && r.has_clone_into,
        !r.has_drop_in_place,
{
    VTable {
        ty_name,
        is_send: true,
        is_sync: true,
        has_display: true,
        has_debug: true,
        has_eq: true,
        has_partial_ord: true,
        has_ord: true,
        has_hash: true,
        has_default_in_place: true,
        has_clone_into: true,
        has_drop_in_place: false,
    }
}

/// `n` copies of one byte.
fn repeat_byte(b: u8, n: usize) -> (r: Vec<u8>)
    ensures
        r@ == Seq::new(n as nat, |i: int| b),
{
    let mut out: Vec<u8> = Vec::new();
    let mut i: usize = 0;
    while i < n
        invariant
            i <= n,
            out@.len() == i,
            forall|p: int| 0 <= p < i ==> out@[p] == b,
        decreases n - i,
    {
        out.push(b);
        i = i + 1;
    }
    proof {
        assert(out@ =~= Seq::new(n as nat, |i: int| b));
    }
    out
}

/// The little-endian encoding of an unsigned width's smallest value:
/// all zeros.
pub open spec fn spec_unsigned_min(size: nat) -> Seq<u8> {
    Seq::new(size, |i: int| 0u8)
}

/// The little-endian encoding of an unsigned width's largest value:
/// all ones.
pub open spec fn spec_unsigned_max(size: nat) -> Seq<u8> {
    Seq::new(size, |i: int| 0xffu8)
}

/// The little-endian two's-complement encoding of a signed width's
/// smallest value: zeros below a top byte of `0x80`.
pub open spec fn spec_signed_min(size: nat) -> Seq<u8> {
    Seq::new(size, |i: int| if i == size - 1 { 0x80u8 } else { 0u8 })
}

/// The little-endian two's-complement encoding of a signed width's
/// largest value: ones below a top byte of `0x7f`.
pub open spec fn spec_signed_max(size: nat) -> Seq<u8> {
    Seq::new(size, |i: int| if i == size - 1 { 0x7fu8 } else { 0xffu8 })
}

/// The shape of an unsigned integer of `size` bytes under identity
/// token `id`, named `ty_name`: every operation is supported, the
/// affinity carries the bit width and encoded samples of the extreme
/// values.
fn unsigned_shape(id: u64, size: usize, ty_name: &str) -> (r: Shape)
    requires
        1 <= size <= 1024,
    ensures
        r.wf(),
        r.id == id,
        r.layout.size == size && r.layout.align == size,
        r.def is Scalar,
        (r.def->Scalar_0).affinity matches ScalarAffinity::UnsignedInt { bits, min, max }
            && bits == 8 * size && min@ == spec_unsigned_min(size as nat) && max@
            == spec_unsigned_max(size as nat),
        r.vtable.has_eq && r.vtable.has_partial_ord && r.vtable.has_ord && r.vtable.has_hash,
        r.vtable.has_display && r.vtable.has_debug,
        r.vtable.has_default_in_place && r.vtable.has_clone_into,
        !r.vtable.has_drop_in_place,
        r.vtable.is_send && r.vtable.is_sync,
        r.vtable.ty_name@ == ty_name@,
{
    let min = repeat_byte(0, size);
    let mut max = repeat_byte(0xff, size);
    Shape {
        id,
        layout: Layout { size, align: size },
        vtable: copy_scalar_vtable(ty_name.to_owned()),
        def: Def::Scalar(ScalarDef { affinity: ScalarAffinity::UnsignedInt {
            bits: 8 * size,
            min,
            max,
        } }),
    }
}

/// The shape of a signed integer of `size` bytes under identity token
/// `id`, named `ty_name`.
fn signed_shape(id: u64, size: usize, ty_name: &str) -> (r: Shape)
    requires
        1 <= size <= 1024,
    ensures
        r.wf(),
        r.id == id,
        r.layout.size == size && r.layout.align == size,
        r.def is Scalar,
        (r.def->Scalar_0).affinity matches ScalarAffinity::SignedInt { bits, min, max } && bits
            == 8 * size && min@ == spec_signed_min(size as nat) && max@ == spec_signed_max(
            size as nat,
        ),
        r.vtable.has_eq && r.vtable.has_partial_ord && r.vtable.has_ord && r.vtable.has_hash,
        r.vtable.has_display && r.vtable.has_debug,
        r.vtable.has_default_in_place && r.vtable.has_clone_into,
        !r.vtable.has_drop_in_place,
        r.vtable.is_send && r.vtable.is_sync,
        r.vtable.ty_name@ == ty_name@,
{
    let mut min = repeat_byte(0, size);
    min.set(size - 1, 0x80);
    let mut max = repeat_byte(0xff, size);
    max.set(size - 1, 0x7f);
    proof {
        assert(min@ =~= spec_signed_min(size as nat));
        assert(max@ =~= spec_signed_max(size as nat));
    }
    Shape {
        id,
        layout: Layout { size, align: size },
        vtable: copy_scalar_vtable(ty_name.to_owned()),
        def: Def::Scalar(ScalarDef { affinity: ScalarAffinity::SignedInt {
            bits: 8 * size,
            min,
            max,
        } }),
    }
}

/// The shape of the unit type: a zero-sized scalar.
pub fn unit_shape() -> (r: Shape)
    ensures
        r.wf(),
        r.id == 1,
        r.layout.size == 0 && r.layout.align == 1,
        r.def is Scalar,
        (r.def->Scalar_0).affinity is Empty,
        r.vtable.has_eq && r.vtable.has_partial_ord && r.vtable.has_ord && r.vtable.has_hash,
        r.vtable.has_default_in_place && r.vtable.has_clone_into,
        !r.vtable.has_drop_in_place,
{
    Shape {
        id: 1,
        layout: Layout { size: 0, align: 1 },
        vtable: copy_scalar_vtable(String::from_str("()")),
        def: Def::Scalar(ScalarDef { affinity: ScalarAffinity::Empty }),
    }
}

/// The shape of `bool`: one byte, boolean affinity.
pub fn bool_shape() -> (r: Shape)
    ensures
        r.wf(),
        r.id == 2,
        r.layout.size == 1 && r.layout.align == 1,
        r.def is Scalar,
        (r.def->Scalar_0).affinity is Boolean,
        r.vtable.has_eq && r.vtable.has_partial_ord && r.vtable.has_ord && r.vtable.has_hash,
        r.vtable.has_default_in_place && r.vtable.has_clone_into,
        !r.vtable.has_drop_in_place,
{
    Shape {
        id: 2,
        layout: Layout { size: 1, align: 1 },
        vtable: copy_scalar_vtable(String::from_str("bool")),
        def: Def::Scalar(ScalarDef { affinity: ScalarAffinity::Boolean }),
    }
}

/// The shape of `u8`.
pub fn u8_shape() -> (r: Shape)
    ensures
        r.wf(),
        r.id == 3,
        r.layout.size == 1 && r.layout.align == 1,
        r.def is Scalar,
        (r.def->Scalar_0).affinity matches ScalarAffinity::UnsignedInt { bits, .. } && bits == 8,
        r.vtable.has_eq && r.vtable.has_partial_ord && r.vtable.has_ord && r.vtable.has_hash,
        r.vtable.has_default_in_place && r.vtable.has_clone_into,
        !r.vtable.has_drop_in_place,
{
    unsigned_shape(3, 1, "u8")
}

/// The shape of `u16`.
pub fn u16_shape() -> (r: Shape)
    ensures
        r.wf(),
        r.id == 4,
        r.layout.size == 2 && r.layout.align == 2,
        r.def is Scalar,
        (r.def->Scalar_0).affinity matches ScalarAffinity::UnsignedInt { bits, .. } && bits == 16,
        r.vtable.has_eq && r.vtable.has_ord,
        !r.vtable.has_drop_in_place,
{
    unsigned_shape(4, 2, "u16")
}

/// The shape of `u32`.
pub fn u32_shape() -> (r: Shape)
    ensures
        r.wf(),
        r.id == 5,
        r.layout.size == 4 && r.layout.align == 4,
        r.def is Scalar,
        (r.def->Scalar_0).affinity matches ScalarAffinity::UnsignedInt { bits, .. } && bits == 32,
        r.vtable.has_eq && r.vtable.has_ord,
        !r.vtable.has_drop_in_place,
{
    unsigned_shape(5, 4, "u32")
}

/// The shape of `u64`.
pub fn u64_shape() -> (r: Shape)
    ensures
        r.wf(),
        r.id == 6,
        r.layout.size == 8 && r.layout.align == 8,
        r.def is Scalar,
        (r.def->Scalar_0).affinity matches ScalarAffinity::UnsignedInt { bits, .. } && bits == 64,
        r.vtable.has_eq && r.vtable.has_ord,
        !r.vtable.has_drop_in_place,
{
    unsigned_shape(6, 8, "u64")
}

/// The shape of `u128`.
pub fn u128_shape() -> (r: Shape)
    ensures
        r.wf(),
        r.id == 7,
        r.layout.size == 16 && r.layout.align == 16,
        r.def is Scalar,
        (r.def->Scalar_0).affinity matches ScalarAffinity::UnsignedInt { bits, .. } && bits
            == 128,
        r.vtable.has_eq && r.vtable.has_ord,
        !r.vtable.has_drop_in_place,
{
    unsigned_shape(7, 16, "u128")
}

/// The shape of `usize` on a 64-bit machine.
pub fn usize_shape() -> (r: Shape)
    ensures
        r.wf(),
        r.id == 8,
        r.layout.size == 8 && r.layout.align == 8,
        r.def is Scalar,
        (r.def->Scalar_0).affinity matches ScalarAffinity::UnsignedInt { bits, .. } && bits == 64,
        r.vtable.has_eq && r.vtable.has_ord,
        !r.vtable.has_drop_in_place,
{
    unsigned_shape(8, 8, "usize")
}

/// The shape of `i8`.
pub fn i8_shape() -> (r: Shape)
    ensures
        r.wf(),
        r.id == 9,
        r.layout.size == 1 && r.layout.align == 1,
        r.def is Scalar,
        (r.def->Scalar_0).affinity matches ScalarAffinity::SignedInt { bits, .. } && bits == 8,
        r.vtable.has_eq && r.vtable.has_ord,
        !r.vtable.has_drop_in_place,
{
    signed_shape(9, 1, "i8")
}

/// The shape of `i16`.
pub fn i16_shape() -> (r: Shape)
    ensures
        r.wf(),
        r.id == 10,
        r.layout.size == 2 && r.layout.align == 2,
        r.def is Scalar,
        (r.def->Scalar_0).affinity matches ScalarAffinity::SignedInt { bits, .. } && bits == 16,
        r.vtable.has_eq && r.vtable.has_ord,
        !r.vtable.has_drop_in_place,
{
    signed_shape(10, 2, "i16")
}

/// The shape of `i32`.
pub fn i32_shape() -> (r: Shape)
    ensures
        r.wf(),
        r.id == 11,
        r.layout.size == 4 && r.layout.align == 4,
        r.def is Scalar,
        (r.def->Scalar_0).affinity matches ScalarAffinity::SignedInt { bits, .. } && bits == 32,
        r.vtable.has_eq && r.vtable.has_ord,
        !r.vtable.has_drop_in_place,
{
    signed_shape(11, 4, "i32")
}

/// The shape of `i64`.
pub fn i64_shape() -> (r: Shape)
    ensures
        r.wf(),
        r.id == 12,
        r.layout.size == 8 && r.layout.align == 8,
        r.def is Scalar,
        (r.def->Scalar_0).affinity matches ScalarAffinity::SignedInt { bits, .. } && bits == 64,
        r.vtable.has_eq && r.vtable.has_ord,
        !r.vtable.has_drop_in_place,
{
    signed_shape(12, 8, "i64")
}

/// The shape of `i128`.
pub fn i128_shape() -> (r: Shape)
    ensures
        r.wf(),
        r.id == 13,
        r.layout.size == 16 && r.layout.align == 16,
        r.def is Scalar,
        (r.def->Scalar_0).affinity matches ScalarAffinity::SignedInt { bits, .. } && bits == 128,
        r.vtable.has_eq && r.vtable.has_ord,
        !r.vtable.has_drop_in_place,
{
    signed_shape(13, 16, "i128")
}

/// The shape of `isize` on a 64-bit machine.
pub fn isize_shape() -> (r: Shape)
    ensures
        r.wf(),
        r.id == 14,
        r.layout.size == 8 && r.layout.align == 8,
        r.def is Scalar,
        (r.def->Scalar_0).affinity matches ScalarAffinity::SignedInt { bits, .. } && bits == 64,
        r.vtable.has_eq && r.vtable.has_ord,
        !r.vtable.has_drop_in_place,
{
    signed_shape(14, 8, "isize")
}

/// The shape of owned text on a 64-bit machine: a heap-owning scalar,
/// so it carries the in-place destruction capability.
pub fn string_shape() -> (r: Shape)
    ensures
        r.wf(),
        r.id == 15,
        r.layout.size == 24 && r.layout.align == 8,
        r.def is Scalar,
        (r.def->Scalar_0).affinity is Text,
        r.vtable.has_eq && r.vtable.has_partial_ord && r.vtable.has_ord && r.vtable.has_hash,
        r.vtable.has_display && r.vtable.has_debug,
        r.vtable.has_default_in_place && r.vtable.has_clone_into,
        r.vtable.has_drop_in_place,
{
    let mut vtable = copy_scalar_vtable(String::from_str("String"));
    vtable.has_drop_in_place = true;
    Shape {
        id: 15,
        layout: Layout { size: 24, align: 8 },
        vtable,
        def: Def::Scalar(ScalarDef { affinity: ScalarAffinity::Text }),
    }
}

/// The shape of the 32-bit binary floating-point format: a descriptor
/// only, carrying the format's bit widths and the distinguished bit
/// patterns.  Equality and partial ordering are supported; the format
/// has no total order and no hash.
pub fn f32_shape() -> (r: Shape)
    ensures
        r.wf(),
        r.id == 16,
        r.layout.size == 4 && r.layout.align == 4,
        r.def is Scalar,
        (r.def->Scalar_0).affinity matches ScalarAffinity::Float {
            sign_bits,
            exponent_bits,
            mantissa_bits,
            positive_zero,
            ..
        } && sign_bits == 1 && exponent_bits == 8 && mantissa_bits == 23 && positive_zero@
            == spec_unsigned_min(4),
        r.vtable.has_eq && r.vtable.has_partial_ord,
        !r.vtable.has_ord && !r.vtable.has_hash,
        r.vtable.has_default_in_place && r.vtable.has_clone_into,
        !r.vtable.has_drop_in_place,
{
    let mut vtable = copy_scalar_vtable(String::from_str("f32"));
    vtable.has_ord = false;
    vtable.has_hash = false;
    let mut min: Vec<u8> = Vec::new();
    min.push(0xff);
    min.push(0xff);
    min.push(0x7f);
    min.push(0xff);
    let mut max: Vec<u8> = Vec::new();
    max.push(0xff);
    max.push(0xff);
    max.push(0x7f);
    max.push(0x7f);
    let mut positive_infinity: Vec<u8> = Vec::new();
    positive_infinity.push(0);
    positive_infinity.push(0);
    positive_infinity.push(0x80);
    positive_infinity.push(0x7f);
    let mut negative_infinity: Vec<u8> = Vec::new();
    negative_infinity.push(0);
    negative_infinity.push(0);
    negative_infinity.push(0x80);
    negative_infinity.push(0xff);
    let mut nan_sample: Vec<u8> = Vec::new();
    nan_sample.push(0);
    nan_sample.push(0);
    nan_sample.push(0xc0);
    nan_sample.push(0x7f);
    let positive_zero = repeat_byte(0, 4);
    let mut negative_zero: Vec<u8> = Vec::new();
    negative_zero.push(0);
    negative_zero.push(0);
    negative_zero.push(0);
    negative_zero.push(0x80);
    Shape {
        id: 16,
        layout: Layout { size: 4, align: 4 },
        vtable,
        def: Def::Scalar(ScalarDef { affinity: ScalarAffinity::Float {
            sign_bits: 1,
            exponent_bits: 8,
            mantissa_bits: 23,
            min,
            max,
            positive_infinity,
            negative_infinity,
            nan_sample,
            positive_zero,
            negative_zero,
        } }),
    }
}

/// The shape of the 64-bit binary floating-point format, as `f32_shape`
/// with the wider widths and patterns.
pub fn f64_shape() -> (r: Shape)
    ensures
        r.wf(),
        r.id == 17,
        r.layout.size == 8 && r.layout.align == 8,
        r.def is Scalar,
        (r.def->Scalar_0).affinity matches ScalarAffinity::Float {
            sign_bits,
            exponent_bits,
            mantissa_bits,
            positive_zero,
            ..
        } && sign_bits == 1 && exponent_bits == 11 && mantissa_bits == 52 && positive_zero@
            == spec_unsigned_min(8),
        r.vtable.has_eq && r.vtable.has_partial_ord,
        !r.vtable.has_ord && !r.vtable.has_hash,
        r.vtable.has_default_in_place && r.vtable.has_clone_into,
        !r.vtable.has_drop_in_place,
{
    let mut vtable = copy_scalar_vtable(String::from_str("f64"));
    vtable.has_ord = false;
    vtable.has_hash = false;
    let mut min = repeat_byte(0xff, 8);
    min.set(6, 0xef);
    let mut max = repeat_byte(0xff, 8);
    max.set(6, 0xef);
    max.set(7, 0x7f);
    let mut positive_infinity = repeat_byte(0, 8);
    positive_infinity.set(6, 0xf0);
    positive_infinity.set(7, 0x7f);
    let mut negative_infinity = repeat_byte(0, 8);
    negative_infinity.set(6, 0xf0);
    negative_infinity.set(7, 0xff);
    let mut nan_sample = repeat_byte(0, 8);
    nan_sample.set(6, 0xf8);
    nan_sample.set(7, 0x7f);
    let positive_zero = repeat_byte(0, 8);
    let mut negative_zero = repeat_byte(0, 8);
    negative_zero.set(7, 0x80);
    Shape {
        id: 17,
        layout: Layout { size: 8, align: 8 },
        vtable,
        def: Def::Scalar(ScalarDef { affinity: ScalarAffinity::Float {
            sign_bits: 1,
            exponent_bits: 11,
            mantissa_bits: 52,
            min,
            max,
            positive_infinity,
            negative_infinity,
            nan_sample,
            positive_zero,
            negative_zero,
        } }),
    }
}

} // verus!

