use core::cmp::Ordering;
use shapely_core::arrays::{array_shape, list_get_item_offset, list_init_with_capacity, list_len};
use shapely_core::opaque::OpaqueUninit;
use shapely_core::ops::{
    value_clone_into, value_default_in_place, value_display, value_eq, value_hash, value_ord,
    value_partial_ord,
};
use shapely_core::scalars::{bool_shape, i64_shape, i8_shape, u32_shape, u8_shape, unit_shape};
use shapely_core::shape::Def;

fn u32_array_bytes(values: &[u32]) -> Vec<u8> {
    let mut out = Vec::new();
    for v in values {
        out.extend_from_slice(&v.to_le_bytes());
    }
    out
}

#[test]
fn array_eq_is_true_exactly_when_all_element_pairs_are_equal() {
    let shape = array_shape(200, u32_shape(), 3);
    let a = u32_array_bytes(&[1, 2, 3]);
    let b = u32_array_bytes(&[1, 2, 3]);
    let c = u32_array_bytes(&[1, 2, 4]);
    let d = u32_array_bytes(&[9, 2, 3]);
    assert!(value_eq(&shape, &a, &b));
    assert!(!value_eq(&shape, &a, &c));
    assert!(!value_eq(&shape, &a, &d));
}

#[test]
fn array_ord_returns_the_first_non_equal_element_ordering() {
    let shape = array_shape(200, u32_shape(), 3);
    let a = u32_array_bytes(&[1, 2, 3]);
    let b = u32_array_bytes(&[1, 2, 4]);
    // The first two pairs compare equal; the third decides: 3 < 4.
    assert_eq!(value_ord(&shape, &a, &b), Ordering::Less);
    assert_eq!(value_ord(&shape, &b, &a), Ordering::Greater);
    assert_eq!(value_ord(&shape, &a, &a), Ordering::Equal);
    // An earlier difference wins over a later one in the other direction.
    let c = u32_array_bytes(&[2, 0, 0]);
    assert_eq!(value_ord(&shape, &a, &c), Ordering::Less);
    assert_eq!(value_partial_ord(&shape, &a, &b), Some(Ordering::Less));
}

#[test]
fn unsigned_compare_is_by_magnitude_and_signed_by_twos_complement() {
    let unsigned = u8_shape();
    assert_eq!(value_ord(&unsigned, &[0xff], &[0x01]), Ordering::Greater);
    let signed = i8_shape();
    // 0xff encodes minus one, which is below one.
    assert_eq!(value_ord(&signed, &[0xff], &[0x01]), Ordering::Less);
    assert_eq!(value_ord(&signed, &[0x80], &[0x7f]), Ordering::Less);
}

#[test]
fn multi_byte_compare_is_by_value_not_by_first_byte() {
    let shape = u32_shape();
    // 0x0100 = [0x00, 0x01, 0, 0] little-endian: larger than 0xff.
    let low = 0xffu32.to_le_bytes();
    let high = 0x100u32.to_le_bytes();
    assert_eq!(value_ord(&shape, &low, &high), Ordering::Less);
    assert_eq!(value_ord(&shape, &high, &low), Ordering::Greater);
}

#[test]
fn zero_length_array_has_a_default_and_produces_an_empty_value() {
    let shape = array_shape(201, u32_shape(), 0);
    assert!(shape.vtable.has_default_in_place);
    assert_eq!(shape.layout.size, 0);
    let mut dst = OpaqueUninit::new(0);
    value_default_in_place(&shape, &mut dst, 0);
    assert_eq!(dst.assume_init().into_bytes(), Vec::<u8>::new());
}

#[test]
fn small_array_default_follows_the_element_and_fills_zeros() {
    let shape = array_shape(202, u32_shape(), 2);
    assert!(shape.vtable.has_default_in_place);
    let mut dst = OpaqueUninit::from_bytes(vec![0xee; 10]);
    value_default_in_place(&shape, &mut dst, 1);
    assert_eq!(
        dst.assume_init().into_bytes(),
        vec![0xee, 0, 0, 0, 0, 0, 0, 0, 0, 0xee]
    );
}

#[test]
fn arrays_above_thirty_two_elements_have_no_default_slot() {
    let with = array_shape(203, u32_shape(), 32);
    assert!(with.vtable.has_default_in_place);
    let without = array_shape(204, u32_shape(), 33);
    assert!(!without.vtable.has_default_in_place);
    let far_without = array_shape(205, u32_shape(), 1000);
    assert!(!far_without.vtable.has_default_in_place);
}

#[test]
fn array_capabilities_follow_the_element_capabilities() {
    let elem = u32_shape();
    let shape = array_shape(206, elem, 4);
    assert!(shape.vtable.has_eq);
    assert!(shape.vtable.has_ord);
    assert!(shape.vtable.has_partial_ord);
    assert!(shape.vtable.has_hash);
    assert!(shape.vtable.has_clone_into);
    assert!(shape.vtable.has_drop_in_place);
    assert_eq!(shape.layout.size, 16);
    assert_eq!(shape.layout.align, 4);
    assert_eq!(shape.vtable.ty_name, "[u32; 4]");
}

#[test]
fn the_array_sits_behind_the_fixed_sequence_interface() {
    let shape = array_shape(207, u32_shape(), 5);
    let ld = match &shape.def {
        Def::List(ld) => ld,
        _ => panic!("an array's definition is a sequence"),
    };
    assert!(!ld.supports_init_with_capacity);
    assert!(!ld.supports_push);
    assert_eq!(list_len(ld), 5);
    assert_eq!(list_get_item_offset(ld, 0), 0);
    assert_eq!(list_get_item_offset(ld, 4), 16);
    assert!(list_init_with_capacity(ld).is_err());
}

#[test]
fn nested_arrays_compare_element_wise_all_the_way_down() {
    let inner = array_shape(208, u8_shape(), 2);
    let outer = array_shape(209, inner, 2);
    assert_eq!(outer.layout.size, 4);
    assert!(value_eq(&outer, &[1, 2, 3, 4], &[1, 2, 3, 4]));
    assert!(!value_eq(&outer, &[1, 2, 3, 4], &[1, 2, 3, 5]));
    assert_eq!(
        value_ord(&outer, &[1, 2, 3, 4], &[1, 2, 4, 0]),
        Ordering::Less
    );
}

#[test]
fn clone_into_reproduces_the_source_bytes_at_the_offset() {
    let shape = array_shape(210, u8_shape(), 3);
    let src = vec![7u8, 8, 9];
    let mut dst = OpaqueUninit::from_bytes(vec![0x55; 5]);
    value_clone_into(&shape, &src, &mut dst, 1);
    assert_eq!(dst.assume_init().into_bytes(), vec![0x55, 7, 8, 9, 0x55]);
}

#[test]
fn hashing_folds_each_element_in_order() {
    let shape = array_shape(211, u8_shape(), 3);
    let acc = 0xcbf29ce484222325u64;
    let h1 = value_hash(&shape, &[1, 2, 3], acc);
    let h2 = value_hash(&shape, &[1, 2, 3], acc);
    let h3 = value_hash(&shape, &[3, 2, 1], acc);
    assert_eq!(h1, h2);
    assert_ne!(h1, h3);
    // The fold over a scalar's bytes matches the fold over a byte
    // array's elements: same bytes, same order, same accumulator.
    let scalar = u32_shape();
    let arr = array_shape(212, u8_shape(), 4);
    let bytes = 0xdeadbeefu32.to_le_bytes();
    assert_eq!(
        value_hash(&scalar, &bytes, acc),
        value_hash(&arr, &bytes, acc)
    );
}

#[test]
fn display_renders_scalars_by_value() {
    assert_eq!(value_display(&u32_shape(), &7u32.to_le_bytes()), "7");
    assert_eq!(
        value_display(&u32_shape(), &4294967295u32.to_le_bytes()),
        "4294967295"
    );
    assert_eq!(value_display(&i8_shape(), &[0xff]), "-1");
    assert_eq!(value_display(&i8_shape(), &[0x7f]), "127");
    assert_eq!(
        value_display(&i64_shape(), &i64::MIN.to_le_bytes()),
        "-9223372036854775808"
    );
    assert_eq!(value_display(&bool_shape(), &[0]), "false");
    assert_eq!(value_display(&bool_shape(), &[1]), "true");
    assert_eq!(value_display(&unit_shape(), &[]), "()");
}

#[test]
fn display_renders_arrays_bracketed_element_by_element() {
    let shape = array_shape(213, u32_shape(), 3);
    let bytes = u32_array_bytes(&[1, 2, 3]);
    assert_eq!(value_display(&shape, &bytes), "[1, 2, 3]");
    let empty = array_shape(214, u32_shape(), 0);
    assert_eq!(value_display(&empty, &[]), "[]");
    let inner = array_shape(215, u8_shape(), 2);
    let nested = array_shape(216, inner, 2);
    assert_eq!(value_display(&nested, &[1, 2, 3, 4]), "[[1, 2], [3, 4]]");
}
