use shapely_core::layout::{align_up_checked, compute_field_offsets};
use shapely_core::ops::read_discriminant;
use shapely_core::scalars::{
    bool_shape, f32_shape, f64_shape, i16_shape, i8_shape, string_shape, u16_shape, u64_shape,
    u8_shape, unit_shape, usize_shape,
};
use shapely_core::shape::{
    Def, EnumDef, EnumRepr, Field, ScalarAffinity, Variant, VariantKind,
};
use shapely_core::Layout;

#[test]
fn align_up_rounds_to_the_next_multiple() {
    assert_eq!(align_up_checked(0, 4), Some(0));
    assert_eq!(align_up_checked(1, 4), Some(4));
    assert_eq!(align_up_checked(4, 4), Some(4));
    assert_eq!(align_up_checked(5, 8), Some(8));
    assert_eq!(align_up_checked(17, 1), Some(17));
    assert_eq!(align_up_checked(usize::MAX, 2), None);
}

#[test]
fn struct_offsets_follow_declaration_order_with_padding() {
    // A struct of (u8, u32, u16) laid out C-like from offset zero.
    let ls = vec![
        Layout { size: 1, align: 1 },
        Layout { size: 4, align: 4 },
        Layout { size: 2, align: 2 },
    ];
    assert_eq!(compute_field_offsets(0, &ls), Some(vec![0, 4, 8]));
}

#[test]
fn variant_offsets_start_past_the_discriminant() {
    // A variant (u32, u8) behind a one-byte discriminant: the shadow
    // struct places the discriminant first.
    let disc = EnumRepr::U8.layout();
    assert_eq!(disc, Layout { size: 1, align: 1 });
    let ls = vec![Layout { size: 4, align: 4 }, Layout { size: 1, align: 1 }];
    assert_eq!(compute_field_offsets(disc.size, &ls), Some(vec![4, 8]));
}

#[test]
fn offsets_overflowing_the_address_space_are_refused() {
    let ls = vec![
        Layout { size: usize::MAX - 2, align: 1 },
        Layout { size: 8, align: 4 },
    ];
    assert_eq!(compute_field_offsets(0, &ls), None);
}

#[test]
fn discriminant_representations_have_integer_layouts() {
    assert_eq!(EnumRepr::U16.layout(), Layout { size: 2, align: 2 });
    assert_eq!(EnumRepr::I32.layout(), Layout { size: 4, align: 4 });
    assert_eq!(EnumRepr::USize.layout(), Layout { size: 8, align: 8 });
    assert_eq!(EnumRepr::I64.layout(), Layout { size: 8, align: 8 });
}

fn color_enum() -> EnumDef {
    EnumDef {
        repr: EnumRepr::U8,
        variants: vec![
            Variant {
                name: "Red".to_string(),
                discriminant: 0,
                kind: VariantKind::Unit,
                fields: vec![],
            },
            Variant {
                name: "Green".to_string(),
                discriminant: 1,
                kind: VariantKind::Unit,
                fields: vec![],
            },
            Variant {
                name: "Custom".to_string(),
                discriminant: 2,
                kind: VariantKind::StructLike,
                fields: vec![
                    Field { name: "r".to_string(), offset: 1, shape: u8_shape() },
                    Field { name: "g".to_string(), offset: 2, shape: u8_shape() },
                    Field { name: "b".to_string(), offset: 3, shape: u8_shape() },
                ],
            },
        ],
    }
}

#[test]
fn the_live_discriminant_selects_exactly_one_variant() {
    let ed = color_enum();
    assert_eq!(ed.variant_by_discriminant(0).unwrap().name, "Red");
    assert_eq!(ed.variant_by_discriminant(1).unwrap().name, "Green");
    let custom = ed.variant_by_discriminant(2).unwrap();
    assert_eq!(custom.name, "Custom");
    assert_eq!(custom.kind, VariantKind::StructLike);
    assert_eq!(custom.fields.len(), 3);
    assert_eq!(custom.fields[1].name, "g");
    assert_eq!(custom.fields[1].offset, 2);
    assert!(ed.variant_by_discriminant(3).is_none());
    assert!(ed.variant_by_discriminant(-1).is_none());
}

#[test]
fn integer_shapes_carry_their_width_and_extreme_samples() {
    let s = u8_shape();
    assert_eq!(s.layout, Layout { size: 1, align: 1 });
    match &s.def {
        Def::Scalar(sd) => match &sd.affinity {
            ScalarAffinity::UnsignedInt { bits, min, max } => {
                assert_eq!(*bits, 8);
                assert_eq!(min, &vec![0x00]);
                assert_eq!(max, &vec![0xff]);
            }
            _ => panic!("u8 is an unsigned integer"),
        },
        _ => panic!("u8 is a scalar"),
    }
    let s = i16_shape();
    match &s.def {
        Def::Scalar(sd) => match &sd.affinity {
            ScalarAffinity::SignedInt { bits, min, max } => {
                assert_eq!(*bits, 16);
                assert_eq!(min, &vec![0x00, 0x80]);
                assert_eq!(max, &vec![0xff, 0x7f]);
            }
            _ => panic!("i16 is a signed integer"),
        },
        _ => panic!("i16 is a scalar"),
    }
}

#[test]
fn scalar_shapes_have_the_expected_layouts_and_capabilities() {
    assert_eq!(unit_shape().layout.size, 0);
    assert_eq!(bool_shape().layout, Layout { size: 1, align: 1 });
    assert_eq!(u16_shape().layout, Layout { size: 2, align: 2 });
    assert_eq!(u64_shape().layout, Layout { size: 8, align: 8 });
    assert_eq!(usize_shape().layout, Layout { size: 8, align: 8 });
    assert_eq!(i8_shape().layout, Layout { size: 1, align: 1 });
    // Plain scalars need no cleanup; owned text does.
    assert!(!u64_shape().vtable.has_drop_in_place);
    assert!(string_shape().vtable.has_drop_in_place);
    assert!(string_shape().vtable.has_eq);
    assert_eq!(u64_shape().vtable.ty_name, "u64");
}

#[test]
fn distinct_built_in_shapes_carry_distinct_identity_tokens() {
    let shapes = vec![
        unit_shape(),
        bool_shape(),
        u8_shape(),
        u16_shape(),
        u64_shape(),
        usize_shape(),
        i8_shape(),
        i16_shape(),
        string_shape(),
        f32_shape(),
        f64_shape(),
    ];
    for i in 0..shapes.len() {
        for j in 0..shapes.len() {
            if i != j {
                assert_ne!(shapes[i].id, shapes[j].id);
            }
        }
    }
}

#[test]
fn float_shapes_describe_their_format_without_a_total_order() {
    let s = f32_shape();
    assert_eq!(s.layout, Layout { size: 4, align: 4 });
    assert!(s.vtable.has_eq);
    assert!(s.vtable.has_partial_ord);
    assert!(!s.vtable.has_ord);
    assert!(!s.vtable.has_hash);
    match &s.def {
        Def::Scalar(sd) => match &sd.affinity {
            ScalarAffinity::Float {
                sign_bits,
                exponent_bits,
                mantissa_bits,
                positive_infinity,
                nan_sample,
                positive_zero,
                negative_zero,
                ..
            } => {
                assert_eq!((*sign_bits, *exponent_bits, *mantissa_bits), (1, 8, 23));
                assert_eq!(positive_infinity, &vec![0x00, 0x00, 0x80, 0x7f]);
                assert_eq!(nan_sample, &vec![0x00, 0x00, 0xc0, 0x7f]);
                assert_eq!(positive_zero, &vec![0x00; 4]);
                assert_eq!(negative_zero, &vec![0x00, 0x00, 0x00, 0x80]);
            }
            _ => panic!("f32 is a float"),
        },
        _ => panic!("f32 is a scalar"),
    }
    let d = f64_shape();
    assert_eq!(d.layout, Layout { size: 8, align: 8 });
    match &d.def {
        Def::Scalar(sd) => match &sd.affinity {
            ScalarAffinity::Float {
                sign_bits,
                exponent_bits,
                mantissa_bits,
                positive_infinity,
                ..
            } => {
                assert_eq!((*sign_bits, *exponent_bits, *mantissa_bits), (1, 11, 52));
                assert_eq!(
                    positive_infinity,
                    &vec![0x00, 0x00, 0x00, 0x00, 0x00, 0x00, 0xf0, 0x7f]
                );
            }
            _ => panic!("f64 is a float"),
        },
        _ => panic!("f64 is a scalar"),
    }
}

#[test]
fn the_discriminant_is_read_little_endian_from_the_first_bytes() {
    assert_eq!(read_discriminant(EnumRepr::U8, &[2, 0xaa, 0xbb]), 2);
    assert_eq!(read_discriminant(EnumRepr::U16, &[0x34, 0x12]), 0x1234);
    assert_eq!(
        read_discriminant(EnumRepr::U64, &[0xff; 8]),
        u64::MAX as i128
    );
    assert_eq!(read_discriminant(EnumRepr::I8, &[0xff]), -1);
    assert_eq!(read_discriminant(EnumRepr::I16, &[0x00, 0x80]), -32768);
    assert_eq!(read_discriminant(EnumRepr::I64, &[0xff; 8]), -1);
}

#[test]
fn the_read_discriminant_selects_the_live_variant() {
    let ed = color_enum();
    // An enum value whose first byte is the discriminant.
    let value_bytes = [2u8, 10, 20, 30];
    let disc = read_discriminant(ed.repr, &value_bytes);
    let variant = ed.variant_by_discriminant(disc).unwrap();
    assert_eq!(variant.name, "Custom");
    // The payload is then read through generic struct-like field
    // access at the variant's offsets.
    assert_eq!(value_bytes[variant.fields[0].offset], 10);
    assert_eq!(value_bytes[variant.fields[2].offset], 30);
}
