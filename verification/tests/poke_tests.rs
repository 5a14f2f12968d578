use shapely_core::opaque::{OpaqueConst, OpaqueUninit};
use shapely_core::poke::{FieldError, PokeStruct};
use shapely_core::scalars::{string_shape, u32_shape};
use shapely_core::shape::{Def, Field, Shape, StructDef, VTable};
use shapely_core::Layout;

fn plain_vtable(name: &str) -> VTable {
    VTable {
        ty_name: name.to_string(),
        is_send: true,
        is_sync: true,
        has_display: false,
        has_debug: false,
        has_eq: false,
        has_partial_ord: false,
        has_ord: false,
        has_hash: false,
        has_default_in_place: false,
        has_clone_into: false,
        has_drop_in_place: true,
    }
}

fn struct_shape(id: u64, size: usize, align: usize, fields: Vec<(&str, usize, Shape)>) -> Shape {
    let fields = fields
        .into_iter()
        .map(|(name, offset, shape)| Field {
            name: name.to_string(),
            offset,
            shape,
        })
        .collect();
    Shape {
        id,
        layout: Layout { size, align },
        vtable: plain_vtable("TestStruct"),
        def: Def::Struct(StructDef { fields }),
    }
}

fn two_u32_shape() -> Shape {
    struct_shape(
        100,
        8,
        4,
        vec![("a", 0, u32_shape()), ("b", 4, u32_shape())],
    )
}

fn u32_value(v: u32) -> OpaqueConst {
    OpaqueConst::new(v.to_le_bytes().to_vec())
}

#[test]
fn set_then_build_produces_the_value_bytes() {
    let shape = two_u32_shape();
    let mut poke = PokeStruct::new(OpaqueUninit::new(8), shape);
    poke.set(0, &u32_value(0x11223344)).unwrap();
    poke.set(1, &u32_value(0x55667788)).unwrap();
    let built = poke.build_in_place();
    let mut expected = 0x11223344u32.to_le_bytes().to_vec();
    expected.extend_from_slice(&0x55667788u32.to_le_bytes());
    assert_eq!(built.into_bytes(), expected);
}

#[test]
fn any_field_order_builds_identical_bytes() {
    let orders: Vec<Vec<usize>> = vec![vec![0, 1], vec![1, 0]];
    let mut results: Vec<Vec<u8>> = Vec::new();
    for order in orders {
        let shape = two_u32_shape();
        let mut poke = PokeStruct::new(OpaqueUninit::new(8), shape);
        for idx in order {
            let value = if idx == 0 {
                u32_value(0xdeadbeef)
            } else {
                u32_value(0x0badf00d)
            };
            poke.set(idx, &value).unwrap();
        }
        results.push(poke.build_in_place().into_bytes());
    }
    assert_eq!(results[0], results[1]);
}

#[test]
fn set_by_name_in_any_order_matches_direct_construction() {
    let shape = two_u32_shape();
    let mut poke = PokeStruct::new(OpaqueUninit::new(8), shape);
    poke.set_by_name("b", &u32_value(7)).unwrap();
    poke.set_by_name("a", &u32_value(5)).unwrap();
    let built = poke.build_in_place().into_bytes();
    let mut expected = 5u32.to_le_bytes().to_vec();
    expected.extend_from_slice(&7u32.to_le_bytes());
    assert_eq!(built, expected);
}

#[test]
fn abandoning_drops_initialized_droppable_fields_exactly_once() {
    // Fields: a String-affine field with drop capability, a plain u32
    // without one, and a second droppable field left unset.
    let shape = struct_shape(
        101,
        56,
        8,
        vec![
            ("text", 0, string_shape()),
            ("count", 24, u32_shape()),
            ("more_text", 32, string_shape()),
        ],
    );
    let mut poke = PokeStruct::new(OpaqueUninit::new(56), shape);
    poke.set(0, &OpaqueConst::new(vec![0u8; 24])).unwrap();
    poke.set(1, &u32_value(9)).unwrap();
    let dropped = poke.abandon();
    // Exactly the initialized field with drop capability, once: not the
    // u32 (no drop capability), not the unset field.
    assert_eq!(dropped, vec![0usize]);
}

#[test]
fn abandoning_a_fully_initialized_session_drops_each_droppable_field_once() {
    let shape = struct_shape(
        102,
        56,
        8,
        vec![
            ("text", 0, string_shape()),
            ("count", 24, u32_shape()),
            ("more_text", 32, string_shape()),
        ],
    );
    let mut poke = PokeStruct::new(OpaqueUninit::new(56), shape);
    poke.set(0, &OpaqueConst::new(vec![1u8; 24])).unwrap();
    poke.set(1, &u32_value(9)).unwrap();
    poke.set(2, &OpaqueConst::new(vec![2u8; 24])).unwrap();
    let dropped = poke.abandon();
    assert_eq!(dropped, vec![0usize, 2usize]);
}

#[test]
fn abandoning_an_untouched_session_drops_nothing() {
    let shape = two_u32_shape();
    let poke = PokeStruct::new(OpaqueUninit::new(8), shape);
    assert_eq!(poke.abandon(), Vec::<usize>::new());
}

#[test]
fn first_unset_field_names_the_field_a_finalization_would_demand() {
    let shape = two_u32_shape();
    let mut poke = PokeStruct::new(OpaqueUninit::new(8), shape);
    poke.set(0, &u32_value(1)).unwrap();
    // Finalizing now would be a fatal precondition violation naming "b".
    let unset = poke.first_unset_field().unwrap();
    assert_eq!(unset, 1);
    assert_eq!(poke.field(unset).unwrap().name, "b");
    poke.set(1, &u32_value(2)).unwrap();
    assert_eq!(poke.first_unset_field(), None);
    poke.assert_all_fields_initialized();
    poke.build_in_place();
}

#[test]
fn field_index_out_of_range_is_a_recoverable_error() {
    let shape = two_u32_shape();
    let poke = PokeStruct::new(OpaqueUninit::new(8), shape);
    assert!(matches!(poke.field(2), Err(FieldError::IndexOutOfBounds)));
    assert!(matches!(poke.field(1000), Err(FieldError::IndexOutOfBounds)));
    assert!(poke.field(1).is_ok());
}

#[test]
fn set_index_out_of_range_is_a_recoverable_error_and_changes_nothing() {
    let shape = two_u32_shape();
    let mut poke = PokeStruct::new(OpaqueUninit::new(8), shape);
    assert!(matches!(
        poke.set(2, &u32_value(1)),
        Err(FieldError::IndexOutOfBounds)
    ));
    assert_eq!(poke.first_unset_field(), Some(0));
}

#[test]
fn unknown_field_name_is_a_distinct_recoverable_error() {
    let shape = two_u32_shape();
    let mut poke = PokeStruct::new(OpaqueUninit::new(8), shape);
    assert!(matches!(
        poke.field_by_name("missing"),
        Err(FieldError::NoSuchStaticField)
    ));
    assert!(matches!(
        poke.set_by_name("missing", &u32_value(1)),
        Err(FieldError::NoSuchStaticField)
    ));
    assert_eq!(poke.field_by_name("a").unwrap(), 0);
    assert_eq!(poke.field_by_name("b").unwrap(), 1);
}

#[test]
fn building_against_a_mismatched_identity_token_is_recoverable() {
    let shape = two_u32_shape();
    let other = struct_shape(999, 8, 4, vec![("a", 0, u32_shape()), ("b", 4, u32_shape())]);
    let mut poke = PokeStruct::new(OpaqueUninit::new(8), shape);
    poke.set(0, &u32_value(1)).unwrap();
    poke.set(1, &u32_value(2)).unwrap();
    match poke.build(&other) {
        Err(FieldError::ShapeMismatch) => {}
        _ => panic!("expected a shape mismatch"),
    }
}

#[test]
fn building_against_the_matching_identity_token_succeeds() {
    let shape = two_u32_shape();
    let expected = two_u32_shape();
    let mut poke = PokeStruct::new(OpaqueUninit::new(8), shape);
    poke.set(0, &u32_value(1)).unwrap();
    poke.set(1, &u32_value(2)).unwrap();
    let built = poke.build(&expected).unwrap();
    let mut bytes = 1u32.to_le_bytes().to_vec();
    bytes.extend_from_slice(&2u32.to_le_bytes());
    assert_eq!(built.into_bytes(), bytes);
}

#[test]
fn build_boxed_returns_the_same_bytes_on_the_heap() {
    let shape = two_u32_shape();
    let expected = two_u32_shape();
    let mut poke = PokeStruct::new(OpaqueUninit::new(8), shape);
    poke.set(0, &u32_value(3)).unwrap();
    poke.set(1, &u32_value(4)).unwrap();
    let boxed = poke.build_boxed(&expected).unwrap();
    let mut bytes = 3u32.to_le_bytes().to_vec();
    bytes.extend_from_slice(&4u32.to_le_bytes());
    assert_eq!((*boxed).into_bytes(), bytes);
}

#[test]
fn move_into_copies_the_value_and_leaves_trailing_bytes_alone() {
    let shape = two_u32_shape();
    let mut poke = PokeStruct::new(OpaqueUninit::new(8), shape);
    poke.set(0, &u32_value(1)).unwrap();
    poke.set(1, &u32_value(2)).unwrap();
    let mut target = OpaqueUninit::from_bytes(vec![0xaa; 10]);
    poke.move_into(&mut target);
    let mut bytes = 1u32.to_le_bytes().to_vec();
    bytes.extend_from_slice(&2u32.to_le_bytes());
    bytes.extend_from_slice(&[0xaa, 0xaa]);
    assert_eq!(target.assume_init().into_bytes(), bytes);
}

#[test]
fn mark_initialized_counts_toward_completion_without_writing() {
    let shape = two_u32_shape();
    let mut poke = PokeStruct::new(OpaqueUninit::new(8), shape);
    poke.set(1, &u32_value(2)).unwrap();
    poke.mark_initialized(0);
    assert_eq!(poke.first_unset_field(), None);
    let built = poke.build_in_place().into_bytes();
    // Field 0 was marked, not written: the fresh buffer's bytes stand.
    assert_eq!(&built[4..8], &2u32.to_le_bytes());
}

#[test]
fn struct_vtable_reports_the_shape_capabilities() {
    let shape = two_u32_shape();
    let poke = PokeStruct::new(OpaqueUninit::new(8), shape);
    let vt = poke.struct_vtable();
    assert!(vt.has_drop_in_place);
    assert_eq!(vt.ty_name, "TestStruct");
}
