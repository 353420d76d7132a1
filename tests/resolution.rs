use strict_encoding_derive::attr::{
    AttrKey, AttrSet, AttrValue, ConfigError, Context, Requirement, Scope, ValueClass,
};
use strict_encoding_derive::plan::cast;
use strict_encoding_derive::policy::{DiscriminantMode, EncodingPolicy, IntKind};

fn attrs(items: &[(&str, AttrValue)]) -> AttrSet {
    let mut a = AttrSet::new();
    for (name, value) in items {
        let v = match value {
            AttrValue::Flag => AttrValue::Flag,
            AttrValue::Ident(s) => AttrValue::Ident(s.clone()),
            AttrValue::Int(n) => AttrValue::Int(*n),
        };
        a.insert(name.to_string(), v);
    }
    a
}

fn ident(s: &str) -> AttrValue {
    AttrValue::Ident(s.to_string())
}

#[test]
fn key_names_are_recognised() {
    assert_eq!(AttrKey::from_name(&"crate".to_string()), Some(AttrKey::Crate));
    assert_eq!(AttrKey::from_name(&"repr".to_string()), Some(AttrKey::Repr));
    assert_eq!(AttrKey::from_name(&"skip".to_string()), Some(AttrKey::Skip));
    assert_eq!(AttrKey::from_name(&"by_order".to_string()), Some(AttrKey::ByOrder));
    assert_eq!(AttrKey::from_name(&"by_value".to_string()), Some(AttrKey::ByValue));
    assert_eq!(AttrKey::from_name(&"value".to_string()), Some(AttrKey::Value));
    assert_eq!(AttrKey::from_name(&"skipped".to_string()), None);
}

#[test]
fn int_kind_names() {
    assert_eq!(IntKind::from_name(&"u8".to_string()), Some(IntKind::U8));
    assert_eq!(IntKind::from_name(&"u16".to_string()), Some(IntKind::U16));
    assert_eq!(IntKind::from_name(&"u32".to_string()), Some(IntKind::U32));
    assert_eq!(IntKind::from_name(&"u64".to_string()), Some(IntKind::U64));
    assert_eq!(IntKind::from_name(&"i32".to_string()), None);
    assert_eq!(IntKind::U32.width(), 4);
    assert_eq!(IntKind::U16.max_value(), 0xffff);
}

#[test]
fn requirement_tables() {
    assert_eq!(
        Context::EnumGlobal.requirement(AttrKey::Repr),
        Requirement::WithDefault(ValueClass::Ident)
    );
    assert_eq!(Context::StructGlobal.requirement(AttrKey::Skip), Requirement::Prohibited);
    assert_eq!(
        Context::EnumVariant.requirement(AttrKey::Value),
        Requirement::Optional(ValueClass::Int)
    );
    assert_eq!(Context::StructField.requirement(AttrKey::Crate), Requirement::Prohibited);
    assert_eq!(Context::EnumGlobal.scope(), Scope::Global);
    assert_eq!(Context::StructField.scope(), Scope::Local);
}

#[test]
fn defaults_without_attributes() {
    let p = EncodingPolicy::try_from(&AttrSet::new(), Context::EnumGlobal).unwrap();
    assert_eq!(p.codec_namespace, "strict_encoding");
    assert!(!p.skip);
    assert_eq!(p.discriminant_repr, IntKind::U8);
    assert_eq!(p.discriminant_mode, DiscriminantMode::ByDeclarationOrder);
}

#[test]
fn custom_namespace_and_repr() {
    let a = attrs(&[("crate", ident("my_codec")), ("repr", ident("u32"))]);
    let p = EncodingPolicy::try_from(&a, Context::EnumGlobal).unwrap();
    assert_eq!(p.codec_namespace, "my_codec");
    assert_eq!(p.discriminant_repr, IntKind::U32);
}

#[test]
fn by_value_selects_native_ordinals() {
    let a = attrs(&[("by_value", AttrValue::Flag)]);
    let p = EncodingPolicy::try_from(&a, Context::EnumGlobal).unwrap();
    assert_eq!(p.discriminant_mode, DiscriminantMode::ByNativeOrdinal);
}

#[test]
fn explicit_value_overrides_modes() {
    let a = attrs(&[("by_value", AttrValue::Flag), ("value", AttrValue::Int(200))]);
    let p = EncodingPolicy::try_from(&a, Context::EnumVariant).unwrap();
    assert_eq!(p.discriminant_mode, DiscriminantMode::ExplicitValue(200));
}

#[test]
fn conflict_by_value_and_by_order() {
    let a = attrs(&[("by_value", AttrValue::Flag), ("by_order", AttrValue::Flag)]);
    let r = EncodingPolicy::try_from(&a, Context::EnumGlobal);
    assert!(matches!(r, Err(ConfigError::MutuallyExclusiveKeys(Scope::Global))));
    let r = EncodingPolicy::try_from(&a, Context::EnumVariant);
    assert!(matches!(r, Err(ConfigError::MutuallyExclusiveKeys(Scope::Local))));
}

#[test]
fn conflict_introduced_by_inheritance() {
    let parent = attrs(&[("by_value", AttrValue::Flag)]);
    let local = attrs(&[("by_order", AttrValue::Flag)]);
    assert!(EncodingPolicy::try_from(&local, Context::EnumVariant).is_ok());
    let r = EncodingPolicy::for_member(&parent, &local, Context::EnumVariant);
    assert!(matches!(r, Err(ConfigError::MutuallyExclusiveKeys(Scope::Local))));
}

#[test]
fn invalid_repr_kind() {
    for name in ["i32", "u128", "usize", "U8"] {
        let a = attrs(&[("repr", ident(name))]);
        let r = EncodingPolicy::try_from(&a, Context::EnumGlobal);
        assert!(matches!(r, Err(ConfigError::InvalidReprKind(Scope::Global))));
    }
}

#[test]
fn skip_at_global_scope_is_prohibited() {
    let a = attrs(&[("skip", AttrValue::Flag)]);
    let r = EncodingPolicy::try_from(&a, Context::StructGlobal);
    assert!(matches!(
        r,
        Err(ConfigError::ProhibitedKeyPresent(AttrKey::Skip, Scope::Global))
    ));
    let r = EncodingPolicy::try_from(&a, Context::EnumGlobal);
    assert!(matches!(
        r,
        Err(ConfigError::ProhibitedKeyPresent(AttrKey::Skip, Scope::Global))
    ));
}

#[test]
fn global_only_key_at_member_scope_is_prohibited() {
    let a = attrs(&[("repr", ident("u16"))]);
    let r = EncodingPolicy::try_from(&a, Context::EnumVariant);
    assert!(matches!(
        r,
        Err(ConfigError::ProhibitedKeyPresent(AttrKey::Repr, Scope::Local))
    ));
}

#[test]
fn unrecognized_key() {
    let a = attrs(&[("skip", AttrValue::Flag), ("compact", AttrValue::Flag)]);
    let r = EncodingPolicy::try_from(&a, Context::StructField);
    match r {
        Err(ConfigError::UnrecognizedKey(name, Scope::Local)) => assert_eq!(name, "compact"),
        other => panic!("unexpected {:?}", other),
    }
}

#[test]
fn wrong_value_class() {
    let a = attrs(&[("value", ident("two"))]);
    let r = EncodingPolicy::try_from(&a, Context::EnumVariant);
    assert!(matches!(
        r,
        Err(ConfigError::WrongValueClass(AttrKey::Value, Scope::Local))
    ));
    let a = attrs(&[("repr", AttrValue::Flag)]);
    let r = EncodingPolicy::try_from(&a, Context::EnumGlobal);
    assert!(matches!(
        r,
        Err(ConfigError::WrongValueClass(AttrKey::Repr, Scope::Global))
    ));
    let a = attrs(&[("skip", AttrValue::Int(1))]);
    let r = EncodingPolicy::try_from(&a, Context::StructField);
    assert!(matches!(
        r,
        Err(ConfigError::WrongValueClass(AttrKey::Skip, Scope::Local))
    ));
}

#[test]
fn merge_inner_shadows_outer() {
    let outer = attrs(&[("value", AttrValue::Int(1)), ("by_value", AttrValue::Flag)]);
    let inner = attrs(&[("value", AttrValue::Int(7))]);
    let m = AttrSet::merge(&outer, &inner);
    assert!(matches!(m.value, Some(AttrValue::Int(7))));
    assert!(matches!(m.by_value, Some(AttrValue::Flag)));
    assert!(m.skip.is_none());
}

#[test]
fn strip_removes_global_only_keys() {
    let mut a = attrs(&[
        ("crate", ident("c")),
        ("repr", ident("u16")),
        ("by_order", AttrValue::Flag),
    ]);
    a.strip_global_only();
    assert!(a.crate_path.is_none());
    assert!(a.repr.is_none());
    assert!(a.by_order.is_some());
}

#[test]
fn later_attribute_replaces_earlier() {
    let a = attrs(&[("value", AttrValue::Int(3)), ("value", AttrValue::Int(9))]);
    assert!(matches!(a.value, Some(AttrValue::Int(9))));
    let d = a.duplicate();
    assert!(matches!(d.value, Some(AttrValue::Int(9))));
    assert!(a.check(Context::EnumVariant).is_ok());
}

#[test]
fn cast_keeps_low_order_bytes() {
    assert_eq!(cast(IntKind::U8, 0x1234), 0x34);
    assert_eq!(cast(IntKind::U16, 0x12_3456), 0x3456);
    assert_eq!(cast(IntKind::U32, 0x1_0000_0005), 5);
    assert_eq!(cast(IntKind::U64, u64::MAX), u64::MAX);
}
