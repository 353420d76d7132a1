//! Attribute sets of one scope: storage, validation against a context's
//! requirement table, and merging of an outer scope into an inner one.
use vstd::prelude::*;
use vstd::string::*;

verus! {

/// The keys that the encoding options recognise.
#[derive(Clone, Copy, Debug, PartialEq, Eq, Structural)]
pub enum AttrKey {
    /// `crate`: the path of the value-codec namespace (type-global only).
    Crate,
    /// `repr`: the width of an enumeration's discriminant (type-global only).
    Repr,
    /// `skip`: the member is absent from the wire.
    Skip,
    /// `by_order`: discriminants follow declaration order.
    ByOrder,
    /// `by_value`: discriminants follow the native ordinals.
    ByValue,
    /// `value`: an explicit discriminant for one variant.
    Value,
}

/// A tokenized attribute value.
#[derive(Debug)]
pub enum AttrValue {
    /// The key was given alone, without a value.
    Flag,
    /// An identifier or identifier path.
    Ident(String),
    /// An integer literal.
    Int(u64),
}

/// The class of an attribute value.
#[derive(Clone, Copy, Debug, PartialEq, Eq, Structural)]
pub enum ValueClass {
    Flag,
    Ident,
    Int,
}

/// Level at which an attribute set is declared.
#[derive(Clone, Copy, Debug, PartialEq, Eq, Structural)]
pub enum Scope {
    /// Type level.
    Global,
    /// Field or variant level.
    Local,
}

/// The place an attribute set is read in; each has its own requirement table.
#[derive(Clone, Copy, Debug, PartialEq, Eq, Structural)]
pub enum Context {
    StructGlobal,
    EnumGlobal,
    StructField,
    EnumVariant,
}

/// What a context demands of one key.
#[derive(Clone, Copy, Debug, PartialEq, Eq, Structural)]
pub enum Requirement {
    /// The key may be given with a value of this class; when it is absent
    /// the policy resolver supplies a fixed default.
    WithDefault(ValueClass),
    /// The key may be given with a value of this class.
    Optional(ValueClass),
    /// The key must not be given.
    Prohibited,
}

/// A configuration error: found while resolving options, never while
/// processing live data.
#[derive(Debug)]
pub enum ConfigError {
    /// A key outside the recognised set, with its name.
    UnrecognizedKey(String, Scope),
    /// A recognised key with a value of the wrong class.
    WrongValueClass(AttrKey, Scope),
    /// A recognised key given where its context prohibits it.
    ProhibitedKeyPresent(AttrKey, Scope),
    /// `by_value` and `by_order` together in one resolved scope.
    MutuallyExclusiveKeys(Scope),
    /// `repr` names something other than `u8`, `u16`, `u32` or `u64`.
    InvalidReprKind(Scope),
    /// The explicit value or declaration index that would be the
    /// discriminant of the variant declared at this position does not fit
    /// the enumeration's `repr`.
    DiscriminantOverflow(usize, u64),
    /// Two dispatched variants share this discriminant.
    DuplicateDiscriminant(u64),
}

/// The attributes of one scope: one slot per recognised key, and the names
/// of the unrecognised keys in the order they were given.
pub struct AttrSet {
    pub crate_path: Option<AttrValue>,
    pub repr: Option<AttrValue>,
    pub skip: Option<AttrValue>,
    pub by_order: Option<AttrValue>,
    pub by_value: Option<AttrValue>,
    pub value: Option<AttrValue>,
    pub unknown: Vec<String>,
}

/// Mathematical model of an [`AttrSet`].
pub ghost struct AttrSetView {
    pub crate_path: Option<AttrValue>,
    pub repr: Option<AttrValue>,
    pub skip: Option<AttrValue>,
    pub by_order: Option<AttrValue>,
    pub by_value: Option<AttrValue>,
    pub value: Option<AttrValue>,
    pub unknown: Seq<String>,
}

impl View for AttrSet {
    type V = AttrSetView;

    open spec fn view(&self) -> AttrSetView {
        AttrSetView {
            crate_path: self.crate_path,
            repr: self.repr,
            skip: self.skip,
            by_order: self.by_order,
            by_value: self.by_value,
            value: self.value,
            unknown: self.unknown@,
        }
    }
}

pub open spec fn scope_of(ctx: Context) -> Scope {
    match ctx {
        Context::StructGlobal | Context::EnumGlobal => Scope::Global,
        _ => Scope::Local,
    }
}

pub open spec fn class_of(v: AttrValue) -> ValueClass {
    match v {
        AttrValue::Flag => ValueClass::Flag,
        AttrValue::Ident(_) => ValueClass::Ident,
        AttrValue::Int(_) => ValueClass::Int,
    }
}

/// The requirement table of each context.
pub open spec fn requirement_of(ctx: Context, key: AttrKey) -> Requirement {
    match ctx {
        Context::StructGlobal => match key {
            AttrKey::Crate => Requirement::WithDefault(ValueClass::Ident),
            _ => Requirement::Prohibited,
        },
        Context::EnumGlobal => match key {
            AttrKey::Crate | AttrKey::Repr => Requirement::WithDefault(ValueClass::Ident),
            AttrKey::ByOrder | AttrKey::ByValue => Requirement::Optional(ValueClass::Flag),
            _ => Requirement::Prohibited,
        },
        Context::StructField => match key {
            AttrKey::Skip => Requirement::Optional(ValueClass::Flag),
            _ => Requirement::Prohibited,
        },
        Context::EnumVariant => match key {
            AttrKey::Skip | AttrKey::ByOrder | AttrKey::ByValue => Requirement::Optional(
                ValueClass::Flag,
            ),
            AttrKey::Value => Requirement::Optional(ValueClass::Int),
            _ => Requirement::Prohibited,
        },
    }
}

/// The error that one slot raises in a context, if any.
pub open spec fn slot_error(ctx: Context, key: AttrKey, v: Option<AttrValue>) -> Option<
    ConfigError,
> {
    match v {
        None => None,
        Some(val) => match requirement_of(ctx, key) {
            Requirement::Prohibited => Some(ConfigError::ProhibitedKeyPresent(key, scope_of(ctx))),
            Requirement::WithDefault(c) | Requirement::Optional(c) => if class_of(val) == c {
                None
            } else {
                Some(ConfigError::WrongValueClass(key, scope_of(ctx)))
            },
        },
    }
}

/// The first error of an attribute set in a context: the recognised keys in
/// the order `skip`, `value`, `by_order`, `by_value`, `repr`, `crate`, then
/// the first unrecognised key.
pub open spec fn check_error(a: AttrSetView, ctx: Context) -> Option<ConfigError> {
    if slot_error(ctx, AttrKey::Skip, a.skip) is Some {
        slot_error(ctx, AttrKey::Skip, a.skip)
    } else if slot_error(ctx, AttrKey::Value, a.value) is Some {
        slot_error(ctx, AttrKey::Value, a.value)
    } else if slot_error(ctx, AttrKey::ByOrder, a.by_order) is Some {
        slot_error(ctx, AttrKey::ByOrder, a.by_order)
    } else if slot_error(ctx, AttrKey::ByValue, a.by_value) is Some {
        slot_error(ctx, AttrKey::ByValue, a.by_value)
    } else if slot_error(ctx, AttrKey::Repr, a.repr) is Some {
        slot_error(ctx, AttrKey::Repr, a.repr)
    } else if slot_error(ctx, AttrKey::Crate, a.crate_path) is Some {
        slot_error(ctx, AttrKey::Crate, a.crate_path)
    } else if a.unknown.len() > 0 {
        Some(ConfigError::UnrecognizedKey(a.unknown[0], scope_of(ctx)))
    } else {
        None
    }
}

/// The key that an attribute name denotes, if it is recognised.
pub open spec fn key_of_name(name: Seq<char>) -> Option<AttrKey> {
    if name == "crate"@ {
        Some(AttrKey::Crate)
    } else if name == "repr"@ {
        Some(AttrKey::Repr)
    } else if name == "skip"@ {
        Some(AttrKey::Skip)
    } else if name == "by_order"@ {
        Some(AttrKey::ByOrder)
    } else if name == "by_value"@ {
        Some(AttrKey::ByValue)
    } else if name == "value"@ {
        Some(AttrKey::Value)
    } else {
        None
    }
}

pub open spec fn or_else(inner: Option<AttrValue>, outer: Option<AttrValue>) -> Option<AttrValue> {
    match inner {
        Some(v) => Some(v),
        None => outer,
    }
}

/// `inner` with `outer` beneath it: each key given in `inner` shadows the
/// same key of `outer`.
pub open spec fn merge_view(outer: AttrSetView, inner: AttrSetView) -> AttrSetView {
    AttrSetView {
        crate_path: or_else(inner.crate_path, outer.crate_path),
        repr: or_else(inner.repr, outer.repr),
        skip: or_else(inner.skip, outer.skip),
        by_order: or_else(inner.by_order, outer.by_order),
        by_value: or_else(inner.by_value, outer.by_value),
        value: or_else(inner.value, outer.value),
        unknown: inner.unknown + outer.unknown,
    }
}

/// `a` without the type-global-only keys `crate` and `repr`.
pub open spec fn strip_view(a: AttrSetView) -> AttrSetView {
    AttrSetView { crate_path: None, repr: None, ..a }
}

impl AttrKey {
    /// The key that `name` denotes, if it is recognised.
    pub fn from_name(name: &String) -> (r: Option<AttrKey>)
        ensures
            r == key_of_name(name@),
    {
        if *name == String::from_str("crate") {
            Some(AttrKey::Crate)
        } else if *name == String::from_str("repr") {
            Some(AttrKey::Repr)
        } else if *name == String::from_str("skip") {
            Some(AttrKey::Skip)
        } else if *name == String::from_str("by_order") {
            Some(AttrKey::ByOrder)
        } else if *name == String::from_str("by_value") {
            Some(AttrKey::ByValue)
        } else if *name == String::from_str("value") {
            Some(AttrKey::Value)
        } else {
            None
        }
    }
}

impl AttrValue {
    pub fn class(&self) -> (r: ValueClass)
        ensures
            r == class_of(*self),
    {
        match self {
            AttrValue::Flag => ValueClass::Flag,
            AttrValue::Ident(_) => ValueClass::Ident,
            AttrValue::Int(_) => ValueClass::Int,
        }
    }

    /// An equal copy of this value.
    pub fn duplicate(&self) -> (r: AttrValue)
        ensures
            r == *self,
    {
        match self {
            AttrValue::Flag => AttrValue::Flag,
            AttrValue::Ident(s) => AttrValue::Ident(s.clone()),
            AttrValue::Int(n) => AttrValue::Int(*n),
        }
    }
}

fn duplicate_slot(v: &Option<AttrValue>) -> (r: Option<AttrValue>)
    ensures
        r == *v,
{
    match v {
        Some(x) => Some(x.duplicate()),
        None => None,
    }
}

fn merge_slot(outer: &Option<AttrValue>, inner: &Option<AttrValue>) -> (r: Option<AttrValue>)
    ensures
        r == or_else(*inner, *outer),
{
    match inner {
        Some(x) => Some(x.duplicate()),
        None => duplicate_slot(outer),
    }
}

fn duplicate_names(v: &Vec<String>) -> (r: Vec<String>)
    ensures
        r@ == v@,
{
    let mut r: Vec<String> = Vec::new();
    let mut i: usize = 0;
    while i < v.len()
        invariant
            i <= v.len(),
            r@ == v@.take(i as int),
        decreases v.len() - i,
    {
        r.push(v[i].clone());
        i = i + 1;
        assert(r@ =~= v@.take(i as int));
    }
    assert(v@.take(v.len() as int) =~= v@);
    r
}

impl Context {
    pub fn scope(self) -> (r: Scope)
        ensures
            r == scope_of(self),
    {
        match self {
            Context::StructGlobal | Context::EnumGlobal => Scope::Global,
            _ => Scope::Local,
        }
    }

    /// This context's requirement on `key`.
    pub fn requirement(self, key: AttrKey) -> (r: Requirement)
        ensures
            r == requirement_of(self, key),
    {
        match self {
            Context::StructGlobal => match key {
                AttrKey::Crate => Requirement::WithDefault(ValueClass::Ident),
                _ => Requirement::Prohibited,
            },
            Context::EnumGlobal => match key {
                AttrKey::Crate | AttrKey::Repr => Requirement::WithDefault(ValueClass::Ident),
                AttrKey::ByOrder | AttrKey::ByValue => Requirement::Optional(ValueClass::Flag),
                _ => Requirement::Prohibited,
            },
            Context::StructField => match key {
                AttrKey::Skip => Requirement::Optional(ValueClass::Flag),
                _ => Requirement::Prohibited,
            },
            Context::EnumVariant => match key {
                AttrKey::Skip | AttrKey::ByOrder | AttrKey::ByValue => Requirement::Optional(
                    ValueClass::Flag,
                ),
                AttrKey::Value => Requirement::Optional(ValueClass::Int),
                _ => Requirement::Prohibited,
            },
        }
    }
}

fn check_slot(ctx: Context, key: AttrKey, v: &Option<AttrValue>) -> (r: Option<ConfigError>)
    ensures
        r == slot_error(ctx, key, *v),
{
    match v {
        None => None,
        Some(val) => match ctx.requirement(key) {
            Requirement::Prohibited => Some(ConfigError::ProhibitedKeyPresent(key, ctx.scope())),
            Requirement::WithDefault(c) | Requirement::Optional(c) => {
                if val.class() == c {
                    None
                } else {
                    Some(ConfigError::WrongValueClass(key, ctx.scope()))
                }
            },
        },
    }
}

impl AttrSet {
    /// The empty attribute set.
    pub fn new() -> (r: AttrSet)
        ensures
            r@ == (AttrSetView {
                crate_path: None,
                repr: None,
                skip: None,
                by_order: None,
                by_value: None,
                value: None,
                unknown: Seq::empty(),
            }),
    {
        AttrSet {
            crate_path: None,
            repr: None,
            skip: None,
            by_order: None,
            by_value: None,
            value: None,
            unknown: Vec::new(),
        }
    }

    /// Records the attribute `name = value`; a later attribute of a
    /// recognised key replaces an earlier one.
    pub fn insert(&mut self, name: String, value: AttrValue)
        ensures
            match key_of_name(name@) {
                Some(k) => final(self)@ == set_slot(old(self)@, k, Some(value)),
                None => final(self)@ == (AttrSetView {
                    unknown: old(self)@.unknown.push(name),
                    ..old(self)@
                }),
            },
    {
        match AttrKey::from_name(&name) {
            Some(AttrKey::Crate) => self.crate_path = Some(value),
            Some(AttrKey::Repr) => self.repr = Some(value),
            Some(AttrKey::Skip) => self.skip = Some(value),
            Some(AttrKey::ByOrder) => self.by_order = Some(value),
            Some(AttrKey::ByValue) => self.by_value = Some(value),
            Some(AttrKey::Value) => self.value = Some(value),
            None => self.unknown.push(name),
        }
    }

    /// An equal copy of this set.
    pub fn duplicate(&self) -> (r: AttrSet)
        ensures
            r@ == self@,
    {
        AttrSet {
            crate_path: duplicate_slot(&self.crate_path),
            repr: duplicate_slot(&self.repr),
            skip: duplicate_slot(&self.skip),
            by_order: duplicate_slot(&self.by_order),
            by_value: duplicate_slot(&self.by_value),
            value: duplicate_slot(&self.value),
            unknown: duplicate_names(&self.unknown),
        }
    }

    /// Validates this set against the requirement table of `ctx`, reporting
    /// the first offending key.
    pub fn check(&self, ctx: Context) -> (r: Result<(), ConfigError>)
        ensures
            match check_error(self@, ctx) {
                Some(e) => r == Err::<(), ConfigError>(e),
                None => r is Ok,
            },
    {
        let e = check_slot(ctx, AttrKey::Skip, &self.skip);
        if e.is_some() {
            return Err(e.unwrap());
        }
        let e = check_slot(ctx, AttrKey::Value, &self.value);
        if e.is_some() {
            return Err(e.unwrap());
        }
        let e = check_slot(ctx, AttrKey::ByOrder, &self.by_order);
        if e.is_some() {
            return Err(e.unwrap());
        }
        let e = check_slot(ctx, AttrKey::ByValue, &self.by_value);
        if e.is_some() {
            return Err(e.unwrap());
        }
        let e = check_slot(ctx, AttrKey::Repr, &self.repr);
        if e.is_some() {
            return Err(e.unwrap());
        }
        let e = check_slot(ctx, AttrKey::Crate, &self.crate_path);
        if e.is_some() {
            return Err(e.unwrap());
        }
        if self.unknown.len() > 0 {
            return Err(ConfigError::UnrecognizedKey(self.unknown[0].clone(), ctx.scope()));
        }
        Ok(())
    }

    /// A new set holding `inner` over `outer`: inner keys shadow outer ones.
    pub fn merge(outer: &AttrSet, inner: &AttrSet) -> (r: AttrSet)
        ensures
            r@ == merge_view(outer@, inner@),
    {
        let mut unknown = duplicate_names(&inner.unknown);
        let mut rest = duplicate_names(&outer.unknown);
        unknown.append(&mut rest);
        AttrSet {
            crate_path: merge_slot(&outer.crate_path, &inner.crate_path),
            repr: merge_slot(&outer.repr, &inner.repr),
            skip: merge_slot(&outer.skip, &inner.skip),
            by_order: merge_slot(&outer.by_order, &inner.by_order),
            by_value: merge_slot(&outer.by_value, &inner.by_value),
            value: merge_slot(&outer.value, &inner.value),
            unknown,
        }
    }

    /// Removes the type-global-only keys, so that a narrower scope that
    /// inherits this set honours them nowhere again.
    pub fn strip_global_only(&mut self)
        ensures
            final(self)@ == strip_view(old(self)@),
    {
        self.crate_path = None;
        self.repr = None;
    }
}

/// `a` with the slot of `k` set to `v`.
pub open spec fn set_slot(a: AttrSetView, k: AttrKey, v: Option<AttrValue>) -> AttrSetView {
    match k {
        AttrKey::Crate => AttrSetView { crate_path: v, ..a },
        AttrKey::Repr => AttrSetView { repr: v, ..a },
        AttrKey::Skip => AttrSetView { skip: v, ..a },
        AttrKey::ByOrder => AttrSetView { by_order: v, ..a },
        AttrKey::ByValue => AttrSetView { by_value: v, ..a },
        AttrKey::Value => AttrSetView { value: v, ..a },
    }
}

} // verus!
