use bitlayout::bits::Endian;
use bitlayout::descriptor::{
    CtxExpr, FieldDescriptor, FieldType, TypeDescriptor, TypeKind, UpdateExpr, VariantDescriptor,
    WriteExpr,
};
use bitlayout::error::Error;
use bitlayout::value::Value;
use bitlayout::writer::{value_to_bit_sequence, value_to_bytes};

fn field(ty: FieldType) -> FieldDescriptor {
    FieldDescriptor {
        ty,
        bits: None,
        endian: None,
        skip: false,
        writer: None,
        update: None,
        ctx_args: Vec::new(),
    }
}

fn scalar(width: usize) -> FieldDescriptor {
    field(FieldType::Scalar { width })
}

fn struct_desc(fields: Vec<FieldDescriptor>) -> TypeDescriptor {
    TypeDescriptor { kind: TypeKind::Struct(fields), default_endian: None, ctx_arity: 0 }
}

#[test]
fn write_is_deterministic() {
    let d = struct_desc(vec![scalar(8), scalar(16)]);
    let v = Value::Struct(vec![Value::Uint(0x5A), Value::Uint(0x1234)]);
    let first = d.write_to_bytes(&v).unwrap();
    let second = d.write_to_bytes(&v).unwrap();
    assert_eq!(first, second);
    assert_eq!(first, vec![0x5A, 0x12, 0x34]);
}

#[test]
fn conversions_match_entry_points() {
    let d = struct_desc(vec![scalar(8)]);
    let v = Value::Struct(vec![Value::Uint(0xC3)]);
    assert_eq!(value_to_bytes(&d, &v).unwrap(), d.write_to_bytes(&v).unwrap());
    let bits = value_to_bit_sequence(&d, &v).unwrap();
    assert_eq!(bits.into_bytes(), vec![0xC3]);
}

fn counted_desc() -> TypeDescriptor {
    let mut count = scalar(8);
    count.update = Some(UpdateExpr::LenOf(1));
    let items = field(FieldType::List { elem_width: 16 });
    struct_desc(vec![count, items])
}

#[test]
fn update_sets_count_to_length_zero() {
    let d = counted_desc();
    let mut v = Value::Struct(vec![Value::Uint(99), Value::List(Vec::new())]);
    d.update(&mut v).unwrap();
    match &v {
        Value::Struct(vals) => assert_eq!(vals[0], Value::Uint(0)),
        _ => panic!("shape changed"),
    }
}

#[test]
fn update_sets_count_to_length_one() {
    let d = counted_desc();
    let mut v = Value::Struct(vec![Value::Uint(0), Value::List(vec![7])]);
    d.update(&mut v).unwrap();
    match &v {
        Value::Struct(vals) => assert_eq!(vals[0], Value::Uint(1)),
        _ => panic!("shape changed"),
    }
}

#[test]
fn update_overflowing_count_is_a_conversion_error() {
    let d = counted_desc();
    let mut items: Vec<u64> = Vec::new();
    let mut i: usize = 0;
    while i < 256 {
        items.push(i as u64);
        i += 1;
    }
    let mut v = Value::Struct(vec![Value::Uint(7), Value::List(items)]);
    assert_eq!(d.update(&mut v), Err(Error::Conversion));
    // Nothing is committed on failure: the stale count is still there.
    match &v {
        Value::Struct(vals) => assert_eq!(vals[0], Value::Uint(7)),
        _ => panic!("shape changed"),
    }
}

#[test]
fn write_emits_refreshed_count_without_update_call() {
    let d = counted_desc();
    // The caller forgot to refresh the count; the write pass does it anyway,
    // without touching the stored value.
    let v = Value::Struct(vec![Value::Uint(0), Value::List(vec![0x1111, 0x2222])]);
    let bytes = d.write_to_bytes(&v).unwrap();
    assert_eq!(bytes, vec![0x02, 0x11, 0x11, 0x22, 0x22]);
    match &v {
        Value::Struct(vals) => assert_eq!(vals[0], Value::Uint(0)),
        _ => panic!("shape changed"),
    }
}

#[test]
fn reordering_fields_reorders_bytes() {
    let d_ab = struct_desc(vec![scalar(8), scalar(8)]);
    let d_ba = struct_desc(vec![scalar(8), scalar(8)]);
    let v_ab = Value::Struct(vec![Value::Uint(0x01), Value::Uint(0x02)]);
    let v_ba = Value::Struct(vec![Value::Uint(0x02), Value::Uint(0x01)]);
    assert_eq!(d_ab.write_to_bytes(&v_ab).unwrap(), vec![0x01, 0x02]);
    assert_eq!(d_ba.write_to_bytes(&v_ba).unwrap(), vec![0x02, 0x01]);
}

#[test]
fn narrowed_field_contributes_exactly_its_declared_bits() {
    let mut f = scalar(8);
    f.bits = Some(6);
    let d = struct_desc(vec![f]);
    let v = Value::Struct(vec![Value::Uint(63)]);
    let bits = d.write_to_bit_sequence(&v).unwrap();
    assert_eq!(bits.len(), 6);
    assert_eq!(bits.into_bytes(), vec![0xFC]);
}

#[test]
fn value_needing_more_bits_than_declared_fails() {
    let mut f = scalar(8);
    f.bits = Some(6);
    let d = struct_desc(vec![f]);
    // 64 needs seven bits; it must not spill into a six-bit slot.
    let v = Value::Struct(vec![Value::Uint(64)]);
    assert_eq!(d.write_to_bytes(&v), Err(Error::Codec));
}

#[test]
fn skipped_field_contributes_no_bits() {
    let mut hidden = scalar(8);
    hidden.skip = true;
    // Even a custom writer is ignored on a skipped field: skip always wins.
    hidden.writer = Some(WriteExpr::Fail);
    let d = struct_desc(vec![scalar(8), hidden, scalar(8)]);
    let v = Value::Struct(vec![Value::Uint(0xAA), Value::Uint(0xFF), Value::Uint(0xBB)]);
    assert_eq!(d.write_to_bytes(&v).unwrap(), vec![0xAA, 0xBB]);
}

#[test]
fn field_endian_override_beats_container_default() {
    let mut le = scalar(16);
    le.endian = Some(Endian::Little);
    let d = TypeDescriptor {
        kind: TypeKind::Struct(vec![scalar(16), le]),
        default_endian: Some(Endian::Big),
        ctx_arity: 0,
    };
    let v = Value::Struct(vec![Value::Uint(0x1234), Value::Uint(0x1234)]);
    assert_eq!(d.write_to_bytes(&v).unwrap(), vec![0x12, 0x34, 0x34, 0x12]);
}

#[test]
fn unset_endianness_resolves_to_network_order() {
    let d = struct_desc(vec![scalar(16)]);
    let v = Value::Struct(vec![Value::Uint(0x1234)]);
    assert_eq!(d.write_to_bytes(&v).unwrap(), vec![0x12, 0x34]);
}

#[test]
fn custom_writer_replaces_the_field_codec() {
    let mut f = scalar(8);
    f.writer = Some(WriteExpr::Bits(vec![true, false, true]));
    let d = struct_desc(vec![f]);
    let v = Value::Struct(vec![Value::Uint(0xFF)]);
    let bits = d.write_to_bit_sequence(&v).unwrap();
    assert_eq!(bits.len(), 3);
    assert_eq!(bits.into_bytes(), vec![0xA0]);
}

#[test]
fn failing_writer_aborts_the_whole_write() {
    let mut f = scalar(8);
    f.writer = Some(WriteExpr::Fail);
    let d = struct_desc(vec![scalar(8), f]);
    let v = Value::Struct(vec![Value::Uint(1), Value::Uint(2)]);
    assert_eq!(d.write_to_bytes(&v), Err(Error::Codec));
}

fn tagged_desc() -> TypeDescriptor {
    // Variant 0: discriminant 2, one byte-wide field.
    let with_disc = VariantDescriptor { disc: Some(2), writer: None, fields: vec![scalar(8)] };
    // Variant 1: a custom writer replaces the whole body, discriminant and all.
    let with_writer = VariantDescriptor {
        disc: Some(3),
        writer: Some(WriteExpr::Bits(vec![true, true, true, true])),
        fields: vec![scalar(8)],
    };
    // Variant 2: the catch-all case, no discriminant bits at all.
    let catch_all = VariantDescriptor { disc: None, writer: None, fields: vec![scalar(8)] };
    TypeDescriptor {
        kind: TypeKind::Enum {
            disc_width: 8,
            disc_endian: None,
            variants: vec![with_disc, with_writer, catch_all],
        },
        default_endian: None,
        ctx_arity: 0,
    }
}

#[test]
fn discriminant_bits_precede_variant_fields() {
    let d = tagged_desc();
    let v = Value::Variant(0, vec![Value::Uint(0x7F)]);
    assert_eq!(d.write_to_bytes(&v).unwrap(), vec![0x02, 0x7F]);
}

#[test]
fn variant_writer_emits_nothing_but_its_own_output() {
    let d = tagged_desc();
    let v = Value::Variant(1, vec![Value::Uint(0x7F)]);
    let bits = d.write_to_bit_sequence(&v).unwrap();
    // Four bits from the writer, no discriminant, no field bytes.
    assert_eq!(bits.len(), 4);
    assert_eq!(bits.into_bytes(), vec![0xF0]);
}

#[test]
fn catch_all_variant_emits_only_its_fields() {
    let d = tagged_desc();
    let v = Value::Variant(2, vec![Value::Uint(0x7F)]);
    assert_eq!(d.write_to_bytes(&v).unwrap(), vec![0x7F]);
}

#[test]
fn discriminant_honours_its_own_byte_order() {
    let v0 = VariantDescriptor { disc: Some(0x0102), writer: None, fields: Vec::new() };
    let d = TypeDescriptor {
        kind: TypeKind::Enum {
            disc_width: 16,
            disc_endian: Some(Endian::Little),
            variants: vec![v0],
        },
        default_endian: Some(Endian::Big),
        ctx_arity: 0,
    };
    let v = Value::Variant(0, Vec::new());
    assert_eq!(d.write_to_bytes(&v).unwrap(), vec![0x02, 0x01]);
}

#[test]
fn narrowed_list_elements_share_the_declared_width() {
    let mut items = field(FieldType::List { elem_width: 8 });
    items.bits = Some(4);
    let d = struct_desc(vec![items]);
    let v = Value::Struct(vec![Value::List(vec![0x1, 0x2, 0x3, 0x4])]);
    // Four bits per element: 0001 0010 0011 0100.
    assert_eq!(d.write_to_bytes(&v).unwrap(), vec![0x12, 0x34]);
    let too_wide = Value::Struct(vec![Value::List(vec![16])]);
    assert_eq!(d.write_to_bytes(&too_wide), Err(Error::Codec));
}

#[test]
fn update_expressions_see_the_values_before_the_pass() {
    // Every derived expression is evaluated against the values as they
    // stood when the pass began; nothing is committed in between.
    let mut first = scalar(8);
    first.update = Some(UpdateExpr::Lit(5));
    let mut second = scalar(8);
    second.update = Some(UpdateExpr::CopyField(0));
    let d = struct_desc(vec![first, second]);
    let mut v = Value::Struct(vec![Value::Uint(9), Value::Uint(0)]);
    d.update(&mut v).unwrap();
    match &v {
        Value::Struct(vals) => {
            assert_eq!(vals[0], Value::Uint(5));
            assert_eq!(vals[1], Value::Uint(9));
        },
        _ => panic!("shape changed"),
    }
}

#[test]
fn update_refreshes_the_active_variant() {
    let mut count = scalar(8);
    count.update = Some(UpdateExpr::LenOf(1));
    let counted = VariantDescriptor {
        disc: Some(1),
        writer: None,
        fields: vec![count, field(FieldType::List { elem_width: 8 })],
    };
    let d = TypeDescriptor {
        kind: TypeKind::Enum { disc_width: 8, disc_endian: None, variants: vec![counted] },
        default_endian: None,
        ctx_arity: 0,
    };
    let mut v = Value::Variant(0, vec![Value::Uint(0), Value::List(vec![4, 5, 6])]);
    d.update(&mut v).unwrap();
    match &v {
        Value::Variant(idx, vals) => {
            assert_eq!(*idx, 0);
            assert_eq!(vals[0], Value::Uint(3));
        },
        _ => panic!("shape changed"),
    }
}

#[test]
fn context_arguments_reach_a_custom_writer() {
    let mut f = scalar(8);
    f.writer = Some(WriteExpr::CtxScalar { idx: 0, width: 8, endian: Endian::Big });
    let d = TypeDescriptor {
        kind: TypeKind::Struct(vec![f]),
        default_endian: None,
        ctx_arity: 1,
    };
    let v = Value::Struct(vec![Value::Uint(0)]);
    let bits = d.write(&v, &vec![0x55]).unwrap();
    assert_eq!(bits.into_bytes(), vec![0x55]);
}

#[test]
fn nested_field_receives_its_own_context() {
    // The inner type writes its single context argument; the outer type
    // forwards its refreshed count field as that argument.
    let mut inner_field = scalar(8);
    inner_field.writer = Some(WriteExpr::CtxScalar { idx: 0, width: 8, endian: Endian::Big });
    let inner = TypeDescriptor {
        kind: TypeKind::Struct(vec![inner_field]),
        default_endian: None,
        ctx_arity: 1,
    };
    let mut count = scalar(8);
    count.update = Some(UpdateExpr::LenOf(1));
    let items = field(FieldType::List { elem_width: 8 });
    let mut nested = field(FieldType::Nested(Box::new(inner)));
    nested.ctx_args = vec![CtxExpr::FieldScalar(0)];
    let d = struct_desc(vec![count, items, nested]);
    let v = Value::Struct(vec![
        Value::Uint(0),
        Value::List(vec![9, 9]),
        Value::Struct(vec![Value::Uint(0)]),
    ]);
    // count is refreshed to 2 and handed down: the nested value emits 0x02.
    assert_eq!(d.write_to_bytes(&v).unwrap(), vec![0x02, 0x09, 0x09, 0x02]);
}

#[test]
fn update_assigns_literal_and_copied_values() {
    let mut fixed = scalar(8);
    fixed.update = Some(UpdateExpr::Lit(0x42));
    let source = scalar(8);
    let mut copy = scalar(16);
    copy.update = Some(UpdateExpr::CopyField(1));
    let d = struct_desc(vec![fixed, source, copy]);
    let mut v = Value::Struct(vec![Value::Uint(0), Value::Uint(0x99), Value::Uint(0)]);
    d.update(&mut v).unwrap();
    match &v {
        Value::Struct(vals) => {
            assert_eq!(vals[0], Value::Uint(0x42));
            assert_eq!(vals[2], Value::Uint(0x99));
        },
        _ => panic!("shape changed"),
    }
}

#[test]
fn own_scalar_writer_encodes_the_field_value() {
    let mut f = scalar(8);
    f.writer = Some(WriteExpr::OwnScalar { width: 16, endian: Endian::Little });
    let d = struct_desc(vec![f]);
    let v = Value::Struct(vec![Value::Uint(0x34)]);
    assert_eq!(d.write_to_bytes(&v).unwrap(), vec![0x34, 0x00]);
}

#[test]
fn parent_context_is_forwarded_on_request_only() {
    // The inner type needs one context argument; the outer type passes its
    // own second argument down, not the whole list and not the first.
    let mut inner_field = scalar(8);
    inner_field.writer = Some(WriteExpr::CtxScalar { idx: 0, width: 8, endian: Endian::Big });
    let inner = TypeDescriptor {
        kind: TypeKind::Struct(vec![inner_field]),
        default_endian: None,
        ctx_arity: 1,
    };
    let mut nested = field(FieldType::Nested(Box::new(inner)));
    nested.ctx_args = vec![CtxExpr::Ctx(1)];
    let d = TypeDescriptor {
        kind: TypeKind::Struct(vec![nested]),
        default_endian: None,
        ctx_arity: 2,
    };
    let v = Value::Struct(vec![Value::Struct(vec![Value::Uint(0)])]);
    let bits = d.write(&v, &vec![0xAA, 0xBB]).unwrap();
    assert_eq!(bits.into_bits(), vec![true, false, true, true, true, false, true, true]);
}

#[test]
fn child_error_is_propagated_unchanged() {
    let mut narrow = scalar(8);
    narrow.bits = Some(4);
    let inner = struct_desc(vec![narrow]);
    let d = struct_desc(vec![field(FieldType::Nested(Box::new(inner)))]);
    let v = Value::Struct(vec![Value::Struct(vec![Value::Uint(200)])]);
    assert_eq!(d.write_to_bytes(&v), Err(Error::Codec));
}

#[test]
fn worked_example_serializes_to_known_bytes() {
    let mut b = scalar(8);
    b.bits = Some(7);
    let mut c = scalar(8);
    c.bits = Some(1);
    let wide = scalar(16);
    let mut e = scalar(8);
    e.bits = Some(2);
    let sub = struct_desc(vec![scalar(8)]);
    let mut count = scalar(8);
    count.update = Some(UpdateExpr::LenOf(7));
    let items = field(FieldType::List { elem_width: 16 });
    let d = struct_desc(vec![
        scalar(8),
        b,
        c,
        wide,
        e,
        field(FieldType::Nested(Box::new(sub))),
        count,
        items,
    ]);
    let mut v = Value::Struct(vec![
        Value::Uint(0xAB),
        Value::Uint(0x12),
        Value::Uint(1),
        Value::Uint(0xBEEF),
        Value::Uint(2),
        Value::Struct(vec![Value::Uint(0xCD)]),
        Value::Uint(0),
        Value::List(vec![0x1122, 0x3344]),
    ]);
    d.update(&mut v).unwrap();
    match &v {
        Value::Struct(vals) => assert_eq!(vals[6], Value::Uint(2)),
        _ => panic!("shape changed"),
    }
    assert_eq!(
        d.write_to_bytes(&v).unwrap(),
        vec![0xAB, 0x25, 0xBE, 0xEF, 0xB3, 0x40, 0x84, 0x48, 0x8C, 0xD1, 0x00]
    );
}
