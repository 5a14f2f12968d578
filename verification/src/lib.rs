//! A runtime reflection core: per-type `Shape` descriptors carrying layout,
//! identity, a capability table of type-erased operations, and a structural
//! definition, together with a type-erased field-by-field builder
//! (`PokeStruct`) that constructs a value into a raw byte buffer while
//! tracking which fields are initialized, destroying exactly the
//! initialized subset when a session is abandoned.

#![allow(unused_imports)]

pub mod arrays;
pub mod iset;
pub mod layout;
pub mod opaque;
pub mod ops;
pub mod poke;
pub mod scalars;
pub mod shape;

pub use arrays::array_shape;
pub use layout::{compute_field_offsets, Layout};
pub use opaque::{OpaqueConst, OpaqueUninit};
pub use poke::{FieldError, PokeStruct};
pub use shape::{
    Def, EnumDef, EnumRepr, Field, ListDef, ScalarAffinity, ScalarDef, Shape, StructDef, VTable,
    Variant, VariantKind,
};
