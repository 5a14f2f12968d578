//! The descriptor model: a `Shape` is an immutable per-type record carrying
//! an identity token, a layout, a capability table (`VTable`), and a
//! structural definition (`Def`) that says whether the type is a scalar, a
//! struct, an enum, or a sequence, together with the metadata each kind
//! needs.
//!
//! Operations over values are type-erased: a populated capability slot
//! means the described type supports the operation, and the generic
//! algorithms of this crate branch on the slots instead of assuming a fixed
//! interface.  Absence of a slot is a first-class "unsupported" signal, not
//! an error.

use vstd::prelude::*;
use crate::layout::Layout;

verus! {

/// Semantic category of a scalar, used by generic consumers to pick a
/// representation without knowing the concrete type.  Sample values (the
/// minimum, the maximum, and for floating-point formats the infinities,
/// a quiet-NaN pattern, and the two zeros) are carried as raw encodings.
#[derive(Debug)]
pub enum ScalarAffinity {
    /// A boolean.
    Boolean,
    /// An unsigned integer of `bits` bits, with encoded samples of its
    /// smallest and largest value.
    UnsignedInt { bits: usize, min: Vec<u8>, max: Vec<u8> },
    /// A signed integer of `bits` bits, with encoded samples of its
    /// smallest and largest value.
    SignedInt { bits: usize, min: Vec<u8>, max: Vec<u8> },
    /// A binary floating-point format given by its bit widths, with
    /// encoded samples of the distinguished values.
    Float {
        sign_bits: usize,
        exponent_bits: usize,
        mantissa_bits: usize,
        min: Vec<u8>,
        max: Vec<u8>,
        positive_infinity: Vec<u8>,
        negative_infinity: Vec<u8>,
        nan_sample: Vec<u8>,
        positive_zero: Vec<u8>,
        negative_zero: Vec<u8>,
    },
    /// Textual data.
    Text,
    /// A socket address.
    SocketAddress,
    /// An IP address.
    IpAddress,
    /// No particular interpretation.
    Opaque,
    /// A zero-sized value.
    Empty,
}

/// Structural definition of a scalar shape: its affinity.
#[derive(Debug)]
pub struct ScalarDef {
    pub affinity: ScalarAffinity,
}

impl ScalarDef {
    /// The affinity agrees with the layout: booleans take one byte,
    /// integers as many bytes as their bit width says, zero-sized scalars
    /// none.
    pub open spec fn wf_in(self, l: Layout) -> bool {
        match self.affinity {
            ScalarAffinity::Boolean => l.size == 1,
            ScalarAffinity::UnsignedInt { bits, .. } => bits == 8 * l.size && l.size >= 1,
            ScalarAffinity::SignedInt { bits, .. } => bits == 8 * l.size && l.size >= 1,
            ScalarAffinity::Empty => l.size == 0,
            _ => true,
        }
    }
}

/// The capability table of a shape: one optional slot per type-erased
/// operation, populated exactly when the described type supports it, plus
/// the capability markers consumers use to decide whether values may cross
/// threads.
#[derive(Debug)]
pub struct VTable {
    /// Rendered name of the described type.
    pub ty_name: String,
    /// Whether values may be sent to another thread.
    pub is_send: bool,
    /// Whether values may be shared between threads.
    pub is_sync: bool,
    /// Display formatting.
    pub has_display: bool,
    /// Debug formatting.
    pub has_debug: bool,
    /// Equality of two values.
    pub has_eq: bool,
    /// Partial ordering of two values.
    pub has_partial_ord: bool,
    /// Total ordering of two values.
    pub has_ord: bool,
    /// Folding a value into a hash accumulator.
    pub has_hash: bool,
    /// Writing the default value into uninitialized memory.
    pub has_default_in_place: bool,
    /// Cloning a value into uninitialized memory.
    pub has_clone_into: bool,
    /// Destroying a value in place.  Absent for plain scalars, which need
    /// no cleanup.
    pub has_drop_in_place: bool,
}

/// One field of a struct or of an enum variant: a name unique within its
/// owner, a byte offset within the owner's layout, and the field's own
/// shape.
#[derive(Debug)]
pub struct Field {
    pub name: String,
    pub offset: usize,
    pub shape: Shape,
}

impl Field {
    /// First byte of the field within its owner.
    pub open spec fn start(self) -> int {
        self.offset as int
    }

    /// One past the last byte of the field within its owner.
    pub open spec fn end(self) -> int {
        self.offset + self.shape.layout.size
    }
}

/// Structural definition of a struct shape: its ordered fields.
#[derive(Debug)]
pub struct StructDef {
    pub fields: Vec<Field>,
}

impl StructDef {
    /// Every field lies inside a struct of layout `l`, no two fields
    /// overlap, and names are unique within the struct.
    pub open spec fn wf_in(self, l: Layout) -> bool {
        &&& forall|i: int|
            0 <= i < self.fields@.len() ==> (#[trigger] self.fields@[i]).shape.layout.wf()
        &&& forall|i: int| 0 <= i < self.fields@.len() ==> (#[trigger] self.fields@[i]).end() <= l.size
        &&& forall|i: int, j: int|
            0 <= i < j < self.fields@.len() ==> (#[trigger] self.fields@[i]).end()
                <= (#[trigger] self.fields@[j]).start() || self.fields@[j].end()
                <= self.fields@[i].start()
        &&& forall|i: int, j: int|
            0 <= i < j < self.fields@.len() ==> (#[trigger] self.fields@[i]).name@
                != (#[trigger] self.fields@[j]).name@
    }
}

/// Representation chosen for an enum's discriminant.
#[derive(Clone, Copy, PartialEq, Eq, Structural, Debug)]
pub enum EnumRepr {
    U8,
    U16,
    U32,
    U64,
    USize,
    I8,
    I16,
    I32,
    I64,
    ISize,
}

impl EnumRepr {
    /// Layout of the discriminant.  Pointer-sized representations take
    /// eight bytes: descriptors built by this crate describe a 64-bit
    /// machine.
    pub open spec fn spec_layout(self) -> Layout {
        match self {
            EnumRepr::U8 | EnumRepr::I8 => Layout { size: 1, align: 1 },
            EnumRepr::U16 | EnumRepr::I16 => Layout { size: 2, align: 2 },
            EnumRepr::U32 | EnumRepr::I32 => Layout { size: 4, align: 4 },
            EnumRepr::U64 | EnumRepr::I64 | EnumRepr::USize | EnumRepr::ISize => (Layout {
                size: 8,
                align: 8,
            }),
        }
    }

    /// Whether the representation is signed.
    pub open spec fn spec_signed(self) -> bool {
        match self {
            EnumRepr::I8 | EnumRepr::I16 | EnumRepr::I32 | EnumRepr::I64 | EnumRepr::ISize => true,
            _ => false,
        }
    }

    /// Smallest discriminant value the representation can hold.
    pub open spec fn spec_min(self) -> int {
        if self.spec_signed() {
            -(vstd::arithmetic::power2::pow2((8 * self.spec_layout().size - 1) as nat) as int)
        } else {
            0
        }
    }

    /// Largest discriminant value the representation can hold.
    pub open spec fn spec_max(self) -> int {
        if self.spec_signed() {
            vstd::arithmetic::power2::pow2((8 * self.spec_layout().size - 1) as nat) - 1
        } else {
            vstd::arithmetic::power2::pow2((8 * self.spec_layout().size) as nat) - 1
        }
    }

    /// Whether the representation is signed.
    pub fn is_signed(&self) -> (r: bool)
        ensures
            r == self.spec_signed(),
    {
        match self {
            EnumRepr::I8 | EnumRepr::I16 | EnumRepr::I32 | EnumRepr::I64 | EnumRepr::ISize => true,
            _ => false,
        }
    }

    /// Computes the discriminant's layout.
    pub fn layout(&self) -> (r: Layout)
        ensures
            r == self.spec_layout(),
    {
        match self {
            EnumRepr::U8 | EnumRepr::I8 => Layout { size: 1, align: 1 },
            EnumRepr::U16 | EnumRepr::I16 => Layout { size: 2, align: 2 },
            EnumRepr::U32 | EnumRepr::I32 => Layout { size: 4, align: 4 },
            EnumRepr::U64 | EnumRepr::I64 | EnumRepr::USize | EnumRepr::ISize => (Layout {
                size: 8,
                align: 8,
            }),
        }
    }
}

/// What kind of payload a variant carries.
#[derive(Clone, Copy, PartialEq, Eq, Structural, Debug)]
pub enum VariantKind {
    /// No payload.
    Unit,
    /// Positionally named payload fields.
    Tuple,
    /// Named payload fields.
    StructLike,
}

/// One variant of an enum: a name, a discriminant value unique among the
/// enum's variants, and payload fields whose offsets are computed as though
/// the variant were a C-like struct whose first member is the
/// discriminant.
#[derive(Debug)]
pub struct Variant {
    pub name: String,
    pub discriminant: i128,
    pub kind: VariantKind,
    pub fields: Vec<Field>,
}

impl Variant {
    /// Payload fields lie between the discriminant and the end of an enum
    /// of layout `l`, do not overlap, and carry names unique within the
    /// variant.  A unit variant has no fields.
    pub open spec fn wf_in(self, repr: EnumRepr, l: Layout) -> bool {
        &&& forall|i: int|
            0 <= i < self.fields@.len() ==> (#[trigger] self.fields@[i]).shape.layout.wf()
        &&& forall|i: int|
            0 <= i < self.fields@.len() ==> repr.spec_layout().size
                <= (#[trigger] self.fields@[i]).start()
        &&& forall|i: int| 0 <= i < self.fields@.len() ==> (#[trigger] self.fields@[i]).end() <= l.size
        &&& forall|i: int, j: int|
            0 <= i < j < self.fields@.len() ==> (#[trigger] self.fields@[i]).end()
                <= (#[trigger] self.fields@[j]).start() || self.fields@[j].end()
                <= self.fields@[i].start()
        &&& forall|i: int, j: int|
            0 <= i < j < self.fields@.len() ==> (#[trigger] self.fields@[i]).name@
                != (#[trigger] self.fields@[j]).name@
        &&& (self.kind == VariantKind::Unit ==> self.fields@.len() == 0)
    }
}

/// Structural definition of an enum shape: the discriminant representation
/// and the ordered variants.
#[derive(Debug)]
pub struct EnumDef {
    pub repr: EnumRepr,
    pub variants: Vec<Variant>,
}

impl EnumDef {
    /// Discriminants are unique and fit the representation, variant names
    /// are unique, and every variant's payload fits an enum of layout `l`.
    pub open spec fn wf_in(self, l: Layout) -> bool {
        &&& self.repr.spec_layout().size <= l.size
        &&& forall|i: int|
            0 <= i < self.variants@.len() ==> (#[trigger] self.variants@[i]).wf_in(self.repr, l)
        &&& forall|i: int|
            0 <= i < self.variants@.len() ==> self.repr.spec_min()
                <= (#[trigger] self.variants@[i]).discriminant <= self.repr.spec_max()
        &&& forall|i: int, j: int|
            0 <= i < j < self.variants@.len() ==> (#[trigger] self.variants@[i]).discriminant
                != (#[trigger] self.variants@[j]).discriminant
        &&& forall|i: int, j: int|
            0 <= i < j < self.variants@.len() ==> (#[trigger] self.variants@[i]).name@
                != (#[trigger] self.variants@[j]).name@
    }

    /// Selects the variant whose discriminant equals the live value `d`,
    /// if any: for a well-formed enum exactly one variant can match.
    pub fn variant_by_discriminant(&self, d: i128) -> (r: Option<&Variant>)
        ensures
            match r {
                Some(v) => exists|i: int|
                    0 <= i < self.variants@.len() && *v == self.variants@[i]
                        && (#[trigger] self.variants@[i]).discriminant == d,
                None => forall|i: int|
                    0 <= i < self.variants@.len() ==> (#[trigger] self.variants@[i]).discriminant
                        != d,
            },
    {
        let n = self.variants.len();
        let mut i: usize = 0;
        while i < n
            invariant
                i <= n,
                n == self.variants@.len(),
                forall|j: int|
                    0 <= j < i ==> (#[trigger] self.variants@[j]).discriminant != d,
            decreases n - i,
        {
            if self.variants[i].discriminant == d {
                return Some(&self.variants[i]);
            }
            i = i + 1;
        }
        None
    }
}

/// Structural definition of a homogeneous sequence shape: the element
/// shape, the element count of a fixed-size sequence, and the capability
/// flags of the sequence interface.  A fixed array sits behind this
/// interface with both optional capabilities absent: it cannot be
/// pre-sized and cannot grow.
#[derive(Debug)]
pub struct ListDef {
    /// Shape of the elements.
    pub elem: Box<Shape>,
    /// Element count; part of the type identity of a fixed-size sequence.
    pub len: usize,
    /// Whether initialize-in-place-with-capacity is supported.  Absence
    /// signals that the type cannot be constructed pre-sized.
    pub supports_init_with_capacity: bool,
    /// Whether pushing one element is supported.  Absent for
    /// fixed-capacity sequences, where growing is a fatal misuse.
    pub supports_push: bool,
}

impl ListDef {
    /// `l` is exactly `len` padded element strides, aligned as the
    /// element is.  The element shape's own well-formedness is part of
    /// `Shape::wf`.
    pub open spec fn layout_ok(self, l: Layout) -> bool {
        &&& l.align == (*self.elem).layout.align
        &&& l.size == (*self.elem).layout.spec_stride() * self.len
        &&& (*self.elem).layout.spec_stride() * self.len <= usize::MAX
    }
}

/// The structural kind of a shape, with its kind-specific metadata.  A
/// fixed-size array is described as a `List` whose element count is
/// part of the type identity and whose optional sequence capabilities
/// are absent: the one interface covers growable sequences and fixed
/// arrays alike.
#[derive(Debug)]
pub enum Def {
    Scalar(ScalarDef),
    Struct(StructDef),
    Enum(EnumDef),
    List(ListDef),
}

/// An immutable per-type descriptor: identity token, layout, capability
/// table, and structural definition.  Two shapes with equal `id` describe
/// one and the same monomorphized type, so also identical layout and
/// operations.
#[derive(Debug)]
pub struct Shape {
    /// Process-wide identity token of the described type.
    pub id: u64,
    /// Size and alignment of a value.
    pub layout: Layout,
    /// The capability table.
    pub vtable: VTable,
    /// The structural definition.
    pub def: Def,
}

impl Shape {
    /// The layout is sensible and the structural definition agrees with
    /// it.
    pub open spec fn wf(self) -> bool
        decreases self,
    {
        &&& self.layout.wf()
        &&& match self.def {
            Def::Scalar(sd) => sd.wf_in(self.layout),
            Def::Struct(sd) => sd.wf_in(self.layout),
            Def::Enum(ed) => ed.wf_in(self.layout),
            Def::List(ld) => ld.layout_ok(self.layout) && (*ld.elem).wf(),
        }
    }

    /// The struct definition of a struct shape.
    pub open spec fn spec_struct_def(self) -> StructDef
        recommends
            self.def is Struct,
    {
        self.def->Struct_0
    }
}

} // verus!
