//! Resolution of one scope's attributes into an immutable encoding policy.
use vstd::prelude::*;
use vstd::string::*;

use crate::attr::{
    check_error, merge_view, scope_of, AttrSet, AttrSetView, AttrValue, ConfigError, Context,
};

verus! {

/// The four fixed-width unsigned integer kinds, little-endian on the wire.
#[derive(Clone, Copy, Debug, PartialEq, Eq, Structural)]
pub enum IntKind {
    U8,
    U16,
    U32,
    U64,
}

/// How a variant's discriminant is chosen.
#[derive(Clone, Copy, Debug, PartialEq, Eq, Structural)]
pub enum DiscriminantMode {
    /// The zero-based declaration index.
    ByDeclarationOrder,
    /// A value given explicitly for the variant.
    ExplicitValue(u64),
    /// The variant's native ordinal.
    ByNativeOrdinal,
}

/// The resolved, conflict-free encoding decisions of one scope.
#[derive(Debug)]
pub struct EncodingPolicy {
    pub codec_namespace: String,
    pub skip: bool,
    pub discriminant_repr: IntKind,
    pub discriminant_mode: DiscriminantMode,
}

/// Mathematical model of an [`EncodingPolicy`].
pub ghost struct PolicyView {
    pub codec_namespace: Seq<char>,
    pub skip: bool,
    pub discriminant_repr: IntKind,
    pub discriminant_mode: DiscriminantMode,
}

impl View for EncodingPolicy {
    type V = PolicyView;

    open spec fn view(&self) -> PolicyView {
        PolicyView {
            codec_namespace: self.codec_namespace@,
            skip: self.skip,
            discriminant_repr: self.discriminant_repr,
            discriminant_mode: self.discriminant_mode,
        }
    }
}

pub open spec fn width_of(k: IntKind) -> nat {
    match k {
        IntKind::U8 => 1,
        IntKind::U16 => 2,
        IntKind::U32 => 4,
        IntKind::U64 => 8,
    }
}

/// The largest value of a kind.
pub open spec fn max_of(k: IntKind) -> u64 {
    match k {
        IntKind::U8 => 0xff,
        IntKind::U16 => 0xffff,
        IntKind::U32 => 0xffff_ffff,
        IntKind::U64 => 0xffff_ffff_ffff_ffff,
    }
}

/// The integer kind that an identifier names, if any.
pub open spec fn kind_of_name(s: Seq<char>) -> Option<IntKind> {
    if s == "u8"@ {
        Some(IntKind::U8)
    } else if s == "u16"@ {
        Some(IntKind::U16)
    } else if s == "u32"@ {
        Some(IntKind::U32)
    } else if s == "u64"@ {
        Some(IntKind::U64)
    } else {
        None
    }
}

/// The discriminant kind a `repr` slot gives: one byte when absent.
pub open spec fn repr_choice(v: Option<AttrValue>) -> Option<IntKind> {
    match v {
        None => Some(IntKind::U8),
        Some(AttrValue::Ident(s)) => kind_of_name(s@),
        Some(_) => None,
    }
}

/// The well-known codec namespace used when none is given.
pub open spec fn default_namespace() -> Seq<char> {
    "strict_encoding"@
}

pub open spec fn namespace_choice(v: Option<AttrValue>) -> Seq<char> {
    match v {
        Some(AttrValue::Ident(s)) => s@,
        _ => default_namespace(),
    }
}

/// An explicit `value` wins; otherwise `by_value` selects native ordinals,
/// and declaration order is the default.
pub open spec fn mode_choice(a: AttrSetView) -> DiscriminantMode {
    match a.value {
        Some(AttrValue::Int(n)) => DiscriminantMode::ExplicitValue(n),
        _ => if a.by_value is Some {
            DiscriminantMode::ByNativeOrdinal
        } else {
            DiscriminantMode::ByDeclarationOrder
        },
    }
}

/// The outcome of resolving the attribute set `a` in context `ctx`.
pub open spec fn resolve_outcome(a: AttrSetView, ctx: Context) -> Result<PolicyView, ConfigError> {
    match check_error(a, ctx) {
        Some(e) => Err(e),
        None => if a.by_value is Some && a.by_order is Some {
            Err(ConfigError::MutuallyExclusiveKeys(scope_of(ctx)))
        } else {
            match repr_choice(a.repr) {
                None => Err(ConfigError::InvalidReprKind(scope_of(ctx))),
                Some(k) => Ok(
                    PolicyView {
                        codec_namespace: namespace_choice(a.crate_path),
                        skip: a.skip is Some,
                        discriminant_repr: k,
                        discriminant_mode: mode_choice(a),
                    },
                ),
            }
        },
    }
}

/// The outcome of resolving a member: its own attributes are validated
/// alone first, then resolved with the parent's beneath them.
pub open spec fn member_outcome(parent: AttrSetView, local: AttrSetView, ctx: Context) -> Result<
    PolicyView,
    ConfigError,
> {
    match resolve_outcome(local, ctx) {
        Err(e) => Err(e),
        Ok(_) => resolve_outcome(merge_view(parent, local), ctx),
    }
}

/// The model of a resolution result.
pub open spec fn result_view(r: Result<EncodingPolicy, ConfigError>) -> Result<
    PolicyView,
    ConfigError,
> {
    match r {
        Ok(p) => Ok(p@),
        Err(e) => Err(e),
    }
}

impl IntKind {
    /// The number of bytes a value of this kind takes on the wire.
    pub fn width(self) -> (r: usize)
        ensures
            r == width_of(self),
    {
        match self {
            IntKind::U8 => 1,
            IntKind::U16 => 2,
            IntKind::U32 => 4,
            IntKind::U64 => 8,
        }
    }

    /// The largest value of this kind.
    pub fn max_value(self) -> (r: u64)
        ensures
            r == max_of(self),
    {
        match self {
            IntKind::U8 => 0xff,
            IntKind::U16 => 0xffff,
            IntKind::U32 => 0xffff_ffff,
            IntKind::U64 => 0xffff_ffff_ffff_ffff,
        }
    }

    /// The kind that the identifier `name` names, if it is one of the four.
    pub fn from_name(name: &String) -> (r: Option<IntKind>)
        ensures
            r == kind_of_name(name@),
    {
        if *name == String::from_str("u8") {
            Some(IntKind::U8)
        } else if *name == String::from_str("u16") {
            Some(IntKind::U16)
        } else if *name == String::from_str("u32") {
            Some(IntKind::U32)
        } else if *name == String::from_str("u64") {
            Some(IntKind::U64)
        } else {
            None
        }
    }
}

impl EncodingPolicy {
    /// Resolves the attributes of one scope: validation against the
    /// requirement table of `ctx`, the `by_value` / `by_order` exclusion,
    /// the `repr` kind, then the policy with its defaults.
    pub fn try_from(attrs: &AttrSet, ctx: Context) -> (r: Result<EncodingPolicy, ConfigError>)
        ensures
            result_view(r) == resolve_outcome(attrs@, ctx),
    {
        match attrs.check(ctx) {
            Err(e) => {
                return Err(e);
            },
            Ok(()) => {},
        }
        if attrs.by_value.is_some() && attrs.by_order.is_some() {
            return Err(ConfigError::MutuallyExclusiveKeys(ctx.scope()));
        }
        let repr = match &attrs.repr {
            None => IntKind::U8,
            Some(AttrValue::Ident(s)) => match IntKind::from_name(s) {
                Some(k) => k,
                None => {
                    return Err(ConfigError::InvalidReprKind(ctx.scope()));
                },
            },
            Some(_) => {
                return Err(ConfigError::InvalidReprKind(ctx.scope()));
            },
        };
        let codec_namespace = match &attrs.crate_path {
            Some(AttrValue::Ident(s)) => s.clone(),
            _ => String::from_str("strict_encoding"),
        };
        let discriminant_mode = match &attrs.value {
            Some(AttrValue::Int(n)) => DiscriminantMode::ExplicitValue(*n),
            _ => if attrs.by_value.is_some() {
                DiscriminantMode::ByNativeOrdinal
            } else {
                DiscriminantMode::ByDeclarationOrder
            },
        };
        Ok(
            EncodingPolicy {
                codec_namespace,
                skip: attrs.skip.is_some(),
                discriminant_repr: repr,
                discriminant_mode,
            },
        )
    }

    /// Resolves a member (field or variant) under `parent`, the attributes
    /// of its enclosing scope with the type-global-only keys removed.
    pub fn for_member(parent: &AttrSet, local: &AttrSet, ctx: Context) -> (r: Result<
        EncodingPolicy,
        ConfigError,
    >)
        ensures
            result_view(r) == member_outcome(parent@, local@, ctx),
    {
        match EncodingPolicy::try_from(local, ctx) {
            Err(e) => Err(e),
            Ok(_) => {
                let merged = AttrSet::merge(parent, local);
                EncodingPolicy::try_from(&merged, ctx)
            },
        }
    }
}

} // verus!
