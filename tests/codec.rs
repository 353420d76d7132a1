use strict_encoding_derive::attr::{AttrSet, AttrValue, ConfigError, Scope};
use strict_encoding_derive::plan::{
    derive_enum, derive_plan, derive_struct, CodecPlan, EnumPlan, FieldPlan, FieldSpec, Members,
    StructPlan, TypeSpec, VariantSpec,
};
use strict_encoding_derive::policy::IntKind;
use strict_encoding_derive::wire::{
    decode_enum, decode_fields, decode_struct, encode_enum, encode_fields, encode_struct,
    CodecError, EnumValue,
};

fn with(items: Vec<(&str, AttrValue)>) -> AttrSet {
    let mut a = AttrSet::new();
    for (name, value) in items {
        a.insert(name.to_string(), value);
    }
    a
}

fn field(kind: IntKind, items: Vec<(&str, AttrValue)>) -> FieldSpec {
    FieldSpec { name: None, kind, attrs: with(items) }
}

fn variant(name: &str, ordinal: u64, fields: Vec<FieldSpec>, items: Vec<(&str, AttrValue)>) -> VariantSpec {
    VariantSpec { name: name.to_string(), ordinal, fields, attrs: with(items) }
}

fn unit_variants(n: u64) -> Vec<VariantSpec> {
    (0..n).map(|i| variant(&format!("V{}", i), i, vec![], vec![])).collect()
}

fn enum_plan(global: Vec<(&str, AttrValue)>, variants: Vec<VariantSpec>) -> Result<EnumPlan, ConfigError> {
    derive_enum(&"Kind".to_string(), &with(global), &variants)
}

fn encode_variant(plan: &EnumPlan, index: usize, fields: Vec<u64>) -> Vec<u8> {
    encode_enum(plan, &EnumValue { variant: index, fields })
}

fn mixed_struct() -> StructPlan {
    let fields = vec![
        field(IntKind::U8, vec![]),
        field(IntKind::U16, vec![]),
        field(IntKind::U32, vec![]),
        field(IntKind::U64, vec![]),
    ];
    derive_struct(&AttrSet::new(), &fields).unwrap()
}

#[test]
fn default_discriminants_by_declaration_order() {
    let plan = enum_plan(vec![], unit_variants(3)).unwrap();
    assert_eq!(plan.repr, IntKind::U8);
    assert_eq!(encode_variant(&plan, 0, vec![]), vec![0x00]);
    assert_eq!(encode_variant(&plan, 1, vec![]), vec![0x01]);
    assert_eq!(encode_variant(&plan, 2, vec![]), vec![0x02]);
}

#[test]
fn explicit_value_overrides_position() {
    let variants = vec![
        variant("A", 0, vec![], vec![]),
        variant("B", 1, vec![], vec![("value", AttrValue::Int(200))]),
        variant("C", 2, vec![], vec![]),
    ];
    let plan = enum_plan(vec![], variants).unwrap();
    assert_eq!(encode_variant(&plan, 1, vec![]), vec![200]);
    assert_eq!(encode_variant(&plan, 2, vec![]), vec![2]);
    let (v, n) = decode_enum(&plan, &[200]).unwrap();
    assert_eq!((v.variant, n), (1, 1));
}

#[test]
fn native_ordinals_with_by_value() {
    let variants = vec![variant("A", 10, vec![], vec![]), variant("B", 20, vec![], vec![])];
    let plan = enum_plan(vec![("by_value", AttrValue::Flag)], variants).unwrap();
    assert_eq!(encode_variant(&plan, 0, vec![]), vec![10]);
    assert_eq!(encode_variant(&plan, 1, vec![]), vec![20]);
}

#[test]
fn wide_repr_is_little_endian() {
    let plan = enum_plan(
        vec![("repr", AttrValue::Ident("u16".to_string()))],
        vec![variant("A", 0, vec![], vec![("value", AttrValue::Int(0x0102))])],
    )
    .unwrap();
    assert_eq!(encode_variant(&plan, 0, vec![]), vec![0x02, 0x01]);
}

#[test]
fn conflict_fails_enum_derivation() {
    let r = enum_plan(
        vec![("by_value", AttrValue::Flag), ("by_order", AttrValue::Flag)],
        unit_variants(2),
    );
    assert!(matches!(r, Err(ConfigError::MutuallyExclusiveKeys(Scope::Global))));
}

#[test]
fn unknown_discriminant_fails_decode() {
    let plan = enum_plan(vec![], unit_variants(3)).unwrap();
    match decode_enum(&plan, &[5, 0, 0]) {
        Err(CodecError::UnknownVariant(name, raw)) => {
            assert_eq!(name, "Kind");
            assert_eq!(raw, 5);
        }
        other => panic!("unexpected {:?}", other),
    }
}

#[test]
fn invalid_repr_fails_even_without_overflow() {
    let r = enum_plan(vec![("repr", AttrValue::Ident("i8".to_string()))], unit_variants(1));
    assert!(matches!(r, Err(ConfigError::InvalidReprKind(Scope::Global))));
}

#[test]
fn global_skip_fails_struct_derivation() {
    let t = TypeSpec {
        name: "S".to_string(),
        attrs: with(vec![("skip", AttrValue::Flag)]),
        members: Members::Fields(vec![field(IntKind::U8, vec![])]),
    };
    assert!(matches!(
        derive_plan(&t),
        Err(ConfigError::ProhibitedKeyPresent(_, Scope::Global))
    ));
}

#[test]
fn struct_round_trip() {
    let plan = mixed_struct();
    let value = vec![0xab, 0x1234, 0x0102_0304, 0x1122_3344_5566_7788];
    let bytes = encode_struct(&plan, &value);
    assert_eq!(
        bytes,
        vec![
            0xab, 0x34, 0x12, 0x04, 0x03, 0x02, 0x01, 0x88, 0x77, 0x66, 0x55, 0x44, 0x33, 0x22,
            0x11
        ]
    );
    let (decoded, n) = decode_struct(&plan, &bytes).unwrap();
    assert_eq!(decoded, value);
    assert_eq!(n, 15);
}

#[test]
fn decode_reads_only_what_it_needs() {
    let plan = mixed_struct();
    let mut bytes = encode_struct(&plan, &vec![1, 2, 3, 4]);
    bytes.extend_from_slice(&[9, 9, 9]);
    let (decoded, n) = decode_struct(&plan, &bytes).unwrap();
    assert_eq!(decoded, vec![1, 2, 3, 4]);
    assert_eq!(n, 15);
}

#[test]
fn encoding_is_deterministic() {
    let plan = mixed_struct();
    let value = vec![7, 300, 70000, 5_000_000_000];
    assert_eq!(encode_struct(&plan, &value), encode_struct(&plan, &value));
    let eplan = enum_plan(vec![], unit_variants(2)).unwrap();
    assert_eq!(encode_variant(&eplan, 1, vec![]), encode_variant(&eplan, 1, vec![]));
}

#[test]
fn skipped_field_is_absent_and_defaulted() {
    let fields = vec![
        field(IntKind::U8, vec![]),
        field(IntKind::U32, vec![("skip", AttrValue::Flag)]),
        field(IntKind::U8, vec![]),
    ];
    let plan = derive_struct(&AttrSet::new(), &fields).unwrap();
    assert_eq!(
        plan.fields,
        vec![
            FieldPlan { kind: IntKind::U8, skip: false },
            FieldPlan { kind: IntKind::U32, skip: true },
            FieldPlan { kind: IntKind::U8, skip: false },
        ]
    );
    let a = encode_struct(&plan, &vec![1, 0, 2]);
    let b = encode_struct(&plan, &vec![1, 99, 2]);
    assert_eq!(a, vec![1, 2]);
    assert_eq!(a, b);
    let (decoded, n) = decode_struct(&plan, &[1, 2, 0xff, 0xff]).unwrap();
    assert_eq!(decoded, vec![1, 0, 2]);
    assert_eq!(n, 2);
}

#[test]
fn zero_field_struct() {
    let plan = derive_struct(&AttrSet::new(), &vec![]).unwrap();
    assert_eq!(plan.codec_namespace, "strict_encoding");
    assert!(encode_struct(&plan, &vec![]).is_empty());
    let (decoded, n) = decode_struct(&plan, &[]).unwrap();
    assert!(decoded.is_empty());
    assert_eq!(n, 0);
}

#[test]
fn truncated_input() {
    let plan = mixed_struct();
    assert!(matches!(decode_struct(&plan, &[1, 2, 3]), Err(CodecError::Truncated)));
    let eplan = enum_plan(vec![], vec![variant("A", 0, vec![field(IntKind::U16, vec![])], vec![])]).unwrap();
    assert!(matches!(decode_enum(&eplan, &[]), Err(CodecError::Truncated)));
    assert!(matches!(decode_enum(&eplan, &[0, 1]), Err(CodecError::Truncated)));
}

#[test]
fn enum_round_trip_with_fields() {
    let variants = vec![
        variant("A", 0, vec![], vec![]),
        variant(
            "B",
            1,
            vec![field(IntKind::U16, vec![]), field(IntKind::U8, vec![("skip", AttrValue::Flag)])],
            vec![],
        ),
    ];
    let plan = enum_plan(vec![("repr", AttrValue::Ident("u32".to_string()))], variants).unwrap();
    let bytes = encode_variant(&plan, 1, vec![0xbeef, 0]);
    assert_eq!(bytes, vec![1, 0, 0, 0, 0xef, 0xbe]);
    let (v, n) = decode_enum(&plan, &bytes).unwrap();
    assert_eq!(v.variant, 1);
    assert_eq!(v.fields, vec![0xbeef, 0]);
    assert_eq!(n, 6);
}

#[test]
fn skipped_variant_is_not_dispatched() {
    let variants = vec![
        variant("A", 0, vec![], vec![]),
        variant("B", 1, vec![], vec![("skip", AttrValue::Flag)]),
        variant("C", 2, vec![], vec![]),
    ];
    let plan = enum_plan(vec![], variants).unwrap();
    assert_eq!(plan.variants.len(), 2);
    assert_eq!(encode_variant(&plan, 2, vec![]), vec![2]);
    assert!(matches!(decode_enum(&plan, &[1]), Err(CodecError::UnknownVariant(_, 1))));
}

#[test]
fn duplicate_discriminants_are_rejected() {
    let variants = vec![
        variant("A", 0, vec![], vec![("value", AttrValue::Int(1))]),
        variant("B", 1, vec![], vec![]),
    ];
    let r = enum_plan(vec![], variants);
    assert!(matches!(r, Err(ConfigError::DuplicateDiscriminant(1))));
}

#[test]
fn discriminant_overflow_is_rejected() {
    let variants = vec![variant("A", 0, vec![], vec![("value", AttrValue::Int(300))])];
    let r = enum_plan(vec![], variants);
    assert!(matches!(r, Err(ConfigError::DiscriminantOverflow(0, 300))));
    let variants = vec![variant("A", 0, vec![], vec![("value", AttrValue::Int(300))])];
    let r = enum_plan(vec![("repr", AttrValue::Ident("u16".to_string()))], variants);
    assert!(r.is_ok());
}

#[test]
fn derive_plan_dispatches_on_kind() {
    let t = TypeSpec {
        name: "E".to_string(),
        attrs: AttrSet::new(),
        members: Members::Variants(unit_variants(2)),
    };
    match derive_plan(&t) {
        Ok(CodecPlan::Enum(p)) => {
            assert_eq!(p.name, "E");
            assert_eq!(p.variants[1].discriminant, 1);
        }
        other => panic!("unexpected {:?}", other),
    }
}

#[test]
fn field_codec_appends_in_order() {
    let fs = vec![
        FieldPlan { kind: IntKind::U16, skip: false },
        FieldPlan { kind: IntKind::U8, skip: false },
    ];
    let mut out = vec![0xaa];
    encode_fields(&fs, &vec![0x0201, 3], &mut out);
    assert_eq!(out, vec![0xaa, 0x01, 0x02, 3]);
    let (vals, n) = decode_fields(&fs, &out, 1).unwrap();
    assert_eq!(vals, vec![0x0201, 3]);
    assert_eq!(n, 3);
}

#[test]
fn invalid_field_option_fails_derivation() {
    let fields = vec![field(IntKind::U8, vec![("by_value", AttrValue::Flag)])];
    let r = derive_struct(&AttrSet::new(), &fields);
    assert!(matches!(r, Err(ConfigError::ProhibitedKeyPresent(_, Scope::Local))));
}

#[test]
fn native_ordinal_is_cast_to_repr() {
    let variants = vec![variant("A", 300, vec![], vec![]), variant("B", 7, vec![], vec![])];
    let plan = enum_plan(vec![("by_value", AttrValue::Flag)], variants).unwrap();
    assert_eq!(encode_variant(&plan, 0, vec![]), vec![44]);
    assert_eq!(encode_variant(&plan, 1, vec![]), vec![7]);
    let variants = vec![variant("A", 300, vec![], vec![]), variant("B", 44, vec![], vec![])];
    let r = enum_plan(vec![("by_value", AttrValue::Flag)], variants);
    assert!(matches!(r, Err(ConfigError::DuplicateDiscriminant(44))));
}

#[test]
fn declaration_index_overflow_is_rejected() {
    let r = enum_plan(vec![], unit_variants(257));
    assert!(matches!(r, Err(ConfigError::DiscriminantOverflow(256, 256))));
    assert!(enum_plan(vec![], unit_variants(256)).is_ok());
}
