//! Derivation of codec plans from type specifications: which fields reach
//! the wire, and which discriminant each dispatched variant carries.
use vstd::prelude::*;

use crate::attr::{strip_view, AttrSet, AttrSetView, ConfigError, Context};
use crate::policy::{
    max_of, member_outcome, resolve_outcome, DiscriminantMode, EncodingPolicy, IntKind,
};

verus! {

/// A field: its name (none for a positional field), the fixed-width
/// unsigned integer kind of its value, and its own attributes. Its
/// declaration index is its position in the enclosing list.
pub struct FieldSpec {
    pub name: Option<String>,
    pub kind: IntKind,
    pub attrs: AttrSet,
}

/// A variant: its name, its native ordinal, its fields in declaration
/// order, and its own attributes.
pub struct VariantSpec {
    pub name: String,
    pub ordinal: u64,
    pub fields: Vec<FieldSpec>,
    pub attrs: AttrSet,
}

/// The members of a type.
pub enum Members {
    Fields(Vec<FieldSpec>),
    Variants(Vec<VariantSpec>),
}

/// A type definition with its type-level attributes.
pub struct TypeSpec {
    pub name: String,
    pub attrs: AttrSet,
    pub members: Members,
}

/// How one field is carried: as an integer of `kind`, or not at all.
#[derive(Clone, Copy, Debug, PartialEq, Eq, Structural)]
pub struct FieldPlan {
    pub kind: IntKind,
    pub skip: bool,
}

/// The codec of a struct: its fields in declaration order.
#[derive(Debug)]
pub struct StructPlan {
    pub codec_namespace: String,
    pub fields: Vec<FieldPlan>,
}

/// One dispatched variant: its declaration index, its discriminant and its
/// fields.
#[derive(Debug)]
pub struct VariantPlan {
    pub index: usize,
    pub discriminant: u64,
    pub fields: Vec<FieldPlan>,
}

/// The codec of an enumeration: the discriminant kind and the dispatched
/// variants in declaration order. Skipped variants have no entry.
#[derive(Debug)]
pub struct EnumPlan {
    pub name: String,
    pub codec_namespace: String,
    pub repr: IntKind,
    pub variants: Vec<VariantPlan>,
}

/// The codec of a type.
#[derive(Debug)]
pub enum CodecPlan {
    Struct(StructPlan),
    Enum(EnumPlan),
}

pub ghost struct StructPlanView {
    pub codec_namespace: Seq<char>,
    pub fields: Seq<FieldPlan>,
}

pub ghost struct VariantPlanView {
    pub index: usize,
    pub discriminant: u64,
    pub fields: Seq<FieldPlan>,
}

pub ghost struct EnumPlanView {
    pub name: Seq<char>,
    pub codec_namespace: Seq<char>,
    pub repr: IntKind,
    pub variants: Seq<VariantPlanView>,
}

pub ghost enum CodecPlanView {
    Struct(StructPlanView),
    Enum(EnumPlanView),
}

impl View for StructPlan {
    type V = StructPlanView;

    open spec fn view(&self) -> StructPlanView {
        StructPlanView { codec_namespace: self.codec_namespace@, fields: self.fields@ }
    }
}

impl View for VariantPlan {
    type V = VariantPlanView;

    open spec fn view(&self) -> VariantPlanView {
        VariantPlanView { index: self.index, discriminant: self.discriminant, fields: self.fields@ }
    }
}

pub open spec fn variant_views(vs: Seq<VariantPlan>) -> Seq<VariantPlanView> {
    vs.map_values(|v: VariantPlan| v@)
}

impl View for EnumPlan {
    type V = EnumPlanView;

    open spec fn view(&self) -> EnumPlanView {
        EnumPlanView {
            name: self.name@,
            codec_namespace: self.codec_namespace@,
            repr: self.repr,
            variants: variant_views(self.variants@),
        }
    }
}

impl View for CodecPlan {
    type V = CodecPlanView;

    open spec fn view(&self) -> CodecPlanView {
        match self {
            CodecPlan::Struct(p) => CodecPlanView::Struct(p@),
            CodecPlan::Enum(p) => CodecPlanView::Enum(p@),
        }
    }
}

/// The plan of one field under `parent`.
pub open spec fn field_outcome(parent: AttrSetView, f: FieldSpec, ctx: Context) -> Result<
    FieldPlan,
    ConfigError,
> {
    match member_outcome(parent, f.attrs@, ctx) {
        Err(e) => Err(e),
        Ok(p) => Ok(FieldPlan { kind: f.kind, skip: p.skip }),
    }
}

/// The plans of a field list, or the error of its first failing field.
pub open spec fn fields_outcome(parent: AttrSetView, fs: Seq<FieldSpec>, ctx: Context) -> Result<
    Seq<FieldPlan>,
    ConfigError,
>
    decreases fs.len(),
{
    if fs.len() == 0 {
        Ok(Seq::empty())
    } else {
        match fields_outcome(parent, fs.drop_last(), ctx) {
            Err(e) => Err(e),
            Ok(ps) => match field_outcome(parent, fs.last(), ctx) {
                Err(e) => Err(e),
                Ok(p) => Ok(ps.push(p)),
            },
        }
    }
}

/// `x` cast to an integer of kind `k`: its low-order bytes.
pub open spec fn cast_to(k: IntKind, x: u64) -> u64 {
    match k {
        IntKind::U8 => x % 0x100,
        IntKind::U16 => x % 0x1_0000,
        IntKind::U32 => x % 0x1_0000_0000,
        IntKind::U64 => x,
    }
}

/// The discriminant a mode assigns to the variant declared at `order`; a
/// native ordinal is cast to the `repr`.
pub open spec fn discriminant_of(mode: DiscriminantMode, repr: IntKind, order: usize, ordinal: u64) -> u64 {
    match mode {
        DiscriminantMode::ExplicitValue(n) => n,
        DiscriminantMode::ByDeclarationOrder => order as u64,
        DiscriminantMode::ByNativeOrdinal => cast_to(repr, ordinal),
    }
}

/// The plan of the variant declared at `order`: `None` when it is skipped.
pub open spec fn variant_outcome(
    parent: AttrSetView,
    repr: IntKind,
    order: usize,
    v: VariantSpec,
) -> Result<Option<VariantPlanView>, ConfigError> {
    match member_outcome(parent, v.attrs@, Context::EnumVariant) {
        Err(e) => Err(e),
        Ok(p) => if p.skip {
            Ok(None)
        } else {
            match fields_outcome(v.attrs@, v.fields@, Context::EnumVariant) {
                Err(e) => Err(e),
                Ok(fs) => {
                    let d = discriminant_of(p.discriminant_mode, repr, order, v.ordinal);
                    if d > max_of(repr) {
                        Err(ConfigError::DiscriminantOverflow(order, d))
                    } else {
                        Ok(Some(VariantPlanView { index: order, discriminant: d, fields: fs }))
                    }
                },
            }
        },
    }
}

/// The plans of the dispatched variants, or the first variant's error.
pub open spec fn variants_outcome(parent: AttrSetView, repr: IntKind, vs: Seq<VariantSpec>) -> Result<
    Seq<VariantPlanView>,
    ConfigError,
>
    decreases vs.len(),
{
    if vs.len() == 0 {
        Ok(Seq::empty())
    } else {
        match variants_outcome(parent, repr, vs.drop_last()) {
            Err(e) => Err(e),
            Ok(ps) => match variant_outcome(parent, repr, (vs.len() - 1) as usize, vs.last()) {
                Err(e) => Err(e),
                Ok(None) => Ok(ps),
                Ok(Some(p)) => Ok(ps.push(p)),
            },
        }
    }
}

/// The discriminant at `i` occurs again later in `ps`.
pub open spec fn repeated_at(ps: Seq<VariantPlanView>, i: int) -> bool {
    exists|j: int| i < j < ps.len() && ps[j].discriminant == ps[i].discriminant
}

/// `i` is the first position whose discriminant occurs again.
pub open spec fn first_repeat_at(ps: Seq<VariantPlanView>, i: int) -> bool {
    &&& 0 <= i < ps.len()
    &&& repeated_at(ps, i)
    &&& forall|k: int| 0 <= k < i ==> !repeated_at(ps, k)
}

/// All discriminants of `ps` are distinct.
pub open spec fn distinct_discriminants(ps: Seq<VariantPlanView>) -> bool {
    forall|i: int, j: int|
        0 <= i < j < ps.len() ==> ps[i].discriminant != ps[j].discriminant
}

/// The first discriminant that occurs twice, if any.
pub open spec fn first_repeat(ps: Seq<VariantPlanView>) -> Option<u64> {
    if exists|i: int| first_repeat_at(ps, i) {
        Some(ps[choose|i: int| first_repeat_at(ps, i)].discriminant)
    } else {
        None
    }
}

/// The outcome of deriving the plan of a struct.
pub open spec fn struct_outcome(attrs: AttrSetView, fs: Seq<FieldSpec>) -> Result<
    StructPlanView,
    ConfigError,
> {
    match resolve_outcome(attrs, Context::StructGlobal) {
        Err(e) => Err(e),
        Ok(g) => match fields_outcome(strip_view(attrs), fs, Context::StructField) {
            Err(e) => Err(e),
            Ok(ps) => Ok(StructPlanView { codec_namespace: g.codec_namespace, fields: ps }),
        },
    }
}

/// The outcome of deriving the plan of an enumeration.
pub open spec fn enum_outcome(name: Seq<char>, attrs: AttrSetView, vs: Seq<VariantSpec>) -> Result<
    EnumPlanView,
    ConfigError,
> {
    match resolve_outcome(attrs, Context::EnumGlobal) {
        Err(e) => Err(e),
        Ok(g) => match variants_outcome(strip_view(attrs), g.discriminant_repr, vs) {
            Err(e) => Err(e),
            Ok(ps) => match first_repeat(ps) {
                Some(d) => Err(ConfigError::DuplicateDiscriminant(d)),
                None => Ok(
                    EnumPlanView {
                        name,
                        codec_namespace: g.codec_namespace,
                        repr: g.discriminant_repr,
                        variants: ps,
                    },
                ),
            },
        },
    }
}

/// The outcome of deriving the plan of a type.
pub open spec fn type_outcome(t: TypeSpec) -> Result<CodecPlanView, ConfigError> {
    match t.members {
        Members::Fields(fs) => match struct_outcome(t.attrs@, fs@) {
            Err(e) => Err(e),
            Ok(p) => Ok(CodecPlanView::Struct(p)),
        },
        Members::Variants(vs) => match enum_outcome(t.name@, t.attrs@, vs@) {
            Err(e) => Err(e),
            Ok(p) => Ok(CodecPlanView::Enum(p)),
        },
    }
}

proof fn lemma_fields_error_extends(parent: AttrSetView, fs: Seq<FieldSpec>, ctx: Context, i: int)
    requires
        0 <= i <= fs.len(),
        fields_outcome(parent, fs.take(i), ctx) is Err,
    ensures
        fields_outcome(parent, fs, ctx) == fields_outcome(parent, fs.take(i), ctx),
    decreases fs.len() - i,
{
    if i < fs.len() {
        assert(fs.take(i + 1).drop_last() =~= fs.take(i));
        lemma_fields_error_extends(parent, fs, ctx, i + 1);
    } else {
        assert(fs.take(i) =~= fs);
    }
}

proof fn lemma_variants_error_extends(
    parent: AttrSetView,
    repr: IntKind,
    vs: Seq<VariantSpec>,
    i: int,
)
    requires
        0 <= i <= vs.len(),
        variants_outcome(parent, repr, vs.take(i)) is Err,
    ensures
        variants_outcome(parent, repr, vs) == variants_outcome(parent, repr, vs.take(i)),
    decreases vs.len() - i,
{
    if i < vs.len() {
        assert(vs.take(i + 1).drop_last() =~= vs.take(i));
        lemma_variants_error_extends(parent, repr, vs, i + 1);
    } else {
        assert(vs.take(i) =~= vs);
    }
}

/// A well-formed enumeration plan: every discriminant fits the `repr` and
/// no two dispatched variants share one.
pub open spec fn enum_plan_wf(p: EnumPlanView) -> bool {
    &&& distinct_discriminants(p.variants)
    &&& forall|k: int| 0 <= k < p.variants.len() ==> #[trigger] p.variants[k].discriminant <= max_of(p.repr)
}

proof fn lemma_first_repeat_exists(ps: Seq<VariantPlanView>, i: int)
    requires
        0 <= i < ps.len(),
        repeated_at(ps, i),
    ensures
        exists|c: int| first_repeat_at(ps, c),
    decreases i,
{
    if forall|k: int| 0 <= k < i ==> !repeated_at(ps, k) {
        assert(first_repeat_at(ps, i));
    } else {
        let k = choose|k: int| 0 <= k < i && repeated_at(ps, k);
        lemma_first_repeat_exists(ps, k);
    }
}

proof fn lemma_no_repeat_distinct(ps: Seq<VariantPlanView>)
    requires
        first_repeat(ps) is None,
    ensures
        distinct_discriminants(ps),
{
    assert forall|i: int, j: int| 0 <= i < j < ps.len() implies ps[i].discriminant
        != ps[j].discriminant by {
        if ps[i].discriminant == ps[j].discriminant {
            assert(repeated_at(ps, i));
            lemma_first_repeat_exists(ps, i);
        }
    }
}

proof fn lemma_variants_fit(parent: AttrSetView, repr: IntKind, vs: Seq<VariantSpec>)
    ensures
        match variants_outcome(parent, repr, vs) {
            Ok(ps) => forall|k: int| 0 <= k < ps.len() ==> #[trigger] ps[k].discriminant <= max_of(repr),
            Err(_) => true,
        },
    decreases vs.len(),
{
    if vs.len() > 0 {
        lemma_variants_fit(parent, repr, vs.drop_last());
    }
}

/// Every enumeration plan that derivation accepts is well formed: its
/// discriminants fit the `repr` and are pairwise distinct.
pub proof fn lemma_derived_enum_plan_wf(name: Seq<char>, attrs: AttrSetView, vs: Seq<VariantSpec>)
    ensures
        match enum_outcome(name, attrs, vs) {
            Ok(p) => enum_plan_wf(p),
            Err(_) => true,
        },
{
    match resolve_outcome(attrs, Context::EnumGlobal) {
        Err(_) => {},
        Ok(g) => {
            lemma_variants_fit(strip_view(attrs), g.discriminant_repr, vs);
            match variants_outcome(strip_view(attrs), g.discriminant_repr, vs) {
                Err(_) => {},
                Ok(ps) => {
                    if first_repeat(ps) is None {
                        lemma_no_repeat_distinct(ps);
                    }
                },
            }
        },
    }
}

/// Plans the fields of one member list under `parent`, in declaration
/// order; stops at the first field whose options fail to resolve.
pub fn derive_fields(parent: &AttrSet, fields: &Vec<FieldSpec>, ctx: Context) -> (r: Result<
    Vec<FieldPlan>,
    ConfigError,
>)
    ensures
        match r {
            Ok(ps) => fields_outcome(parent@, fields@, ctx) == Ok::<Seq<FieldPlan>, ConfigError>(
                ps@,
            ),
            Err(e) => fields_outcome(parent@, fields@, ctx) == Err::<Seq<FieldPlan>, ConfigError>(
                e,
            ),
        },
{
    let mut plans: Vec<FieldPlan> = Vec::new();
    let mut i: usize = 0;
    while i < fields.len()
        invariant
            i <= fields.len(),
            fields_outcome(parent@, fields@.take(i as int), ctx) == Ok::<
                Seq<FieldPlan>,
                ConfigError,
            >(plans@),
        decreases fields.len() - i,
    {
        let f = &fields[i];
        proof {
            assert(fields@.take(i + 1).drop_last() =~= fields@.take(i as int));
            assert(fields@.take(i + 1).last() == fields@[i as int]);
        }
        match EncodingPolicy::for_member(parent, &f.attrs, ctx) {
            Err(e) => {
                proof {
                    lemma_fields_error_extends(parent@, fields@, ctx, i + 1);
                }
                return Err(e);
            },
            Ok(p) => {
                plans.push(FieldPlan { kind: f.kind, skip: p.skip });
            },
        }
        i = i + 1;
    }
    assert(fields@.take(fields.len() as int) =~= fields@);
    Ok(plans)
}

/// The first discriminant that occurs twice among `plans`, if any.
fn find_repeat(plans: &Vec<VariantPlan>) -> (r: Option<u64>)
    ensures
        r == first_repeat(variant_views(plans@)),
        r is None <==> distinct_discriminants(variant_views(plans@)),
{
    let ghost ps = variant_views(plans@);
    let mut i: usize = 0;
    while i < plans.len()
        invariant
            i <= plans.len(),
            ps == variant_views(plans@),
            ps.len() == plans.len(),
            forall|k: int| 0 <= k < i ==> !repeated_at(ps, k),
        decreases plans.len() - i,
    {
        let mut j: usize = i + 1;
        while j < plans.len()
            invariant
                i < plans.len(),
                i + 1 <= j <= plans.len(),
                ps == variant_views(plans@),
                ps.len() == plans.len(),
                forall|m: int| i < m < j ==> ps[m].discriminant != ps[i as int].discriminant,
                forall|k: int| 0 <= k < i ==> !repeated_at(ps, k),
            decreases plans.len() - j,
        {
            assert(ps[i as int].discriminant == plans@[i as int].discriminant);
            assert(ps[j as int].discriminant == plans@[j as int].discriminant);
            if plans[i].discriminant == plans[j].discriminant {
                proof {
                    assert(repeated_at(ps, i as int));
                    assert(first_repeat_at(ps, i as int));
                    let c = choose|c: int| first_repeat_at(ps, c);
                    assert(c == i) by {
                        if c < i {
                        } else if c > i {
                        }
                    }
                }
                return Some(plans[i].discriminant);
            }
            j = j + 1;
        }
        i = i + 1;
    }
    proof {
        assert(!exists|c: int| first_repeat_at(ps, c));
        assert forall|a: int, b: int| 0 <= a < b < ps.len() implies ps[a].discriminant
            != ps[b].discriminant by {
            assert(!repeated_at(ps, a));
        }
    }
    None
}

/// Derives the plan of a struct from its type-level attributes and fields.
pub fn derive_struct(attrs: &AttrSet, fields: &Vec<FieldSpec>) -> (r: Result<
    StructPlan,
    ConfigError,
>)
    ensures
        match r {
            Ok(p) => struct_outcome(attrs@, fields@) == Ok::<StructPlanView, ConfigError>(p@),
            Err(e) => struct_outcome(attrs@, fields@) == Err::<StructPlanView, ConfigError>(e),
        },
{
    let global = match EncodingPolicy::try_from(attrs, Context::StructGlobal) {
        Err(e) => {
            return Err(e);
        },
        Ok(g) => g,
    };
    let mut parent = attrs.duplicate();
    parent.strip_global_only();
    match derive_fields(&parent, fields, Context::StructField) {
        Err(e) => Err(e),
        Ok(ps) => Ok(StructPlan { codec_namespace: global.codec_namespace, fields: ps }),
    }
}

/// `x` cast to an integer of kind `k`.
pub fn cast(k: IntKind, x: u64) -> (r: u64)
    ensures
        r == cast_to(k, x),
        r <= max_of(k),
{
    match k {
        IntKind::U8 => x % 0x100,
        IntKind::U16 => x % 0x1_0000,
        IntKind::U32 => x % 0x1_0000_0000,
        IntKind::U64 => x,
    }
}

/// Plans the variant declared at `order`: `None` when it is skipped.
pub fn derive_variant(parent: &AttrSet, repr: IntKind, order: usize, v: &VariantSpec) -> (r: Result<
    Option<VariantPlan>,
    ConfigError,
>)
    ensures
        match r {
            Ok(Some(p)) => variant_outcome(parent@, repr, order, *v) == Ok::<
                Option<VariantPlanView>,
                ConfigError,
            >(Some(p@)),
            Ok(None) => variant_outcome(parent@, repr, order, *v) == Ok::<
                Option<VariantPlanView>,
                ConfigError,
            >(None),
            Err(e) => variant_outcome(parent@, repr, order, *v) == Err::<
                Option<VariantPlanView>,
                ConfigError,
            >(e),
        },
{
    let policy = match EncodingPolicy::for_member(parent, &v.attrs, Context::EnumVariant) {
        Err(e) => {
            return Err(e);
        },
        Ok(p) => p,
    };
    if policy.skip {
        return Ok(None);
    }
    let fields = match derive_fields(&v.attrs, &v.fields, Context::EnumVariant) {
        Err(e) => {
            return Err(e);
        },
        Ok(fs) => fs,
    };
    let d = match policy.discriminant_mode {
        DiscriminantMode::ExplicitValue(n) => n,
        DiscriminantMode::ByDeclarationOrder => order as u64,
        DiscriminantMode::ByNativeOrdinal => cast(repr, v.ordinal),
    };
    if d > repr.max_value() {
        return Err(ConfigError::DiscriminantOverflow(order, d));
    }
    Ok(Some(VariantPlan { index: order, discriminant: d, fields }))
}

/// Plans the variants in declaration order, leaving out skipped ones;
/// stops at the first variant whose plan fails.
pub fn derive_variants(parent: &AttrSet, repr: IntKind, variants: &Vec<VariantSpec>) -> (r: Result<
    Vec<VariantPlan>,
    ConfigError,
>)
    ensures
        match r {
            Ok(ps) => variants_outcome(parent@, repr, variants@) == Ok::<
                Seq<VariantPlanView>,
                ConfigError,
            >(variant_views(ps@)),
            Err(e) => variants_outcome(parent@, repr, variants@) == Err::<
                Seq<VariantPlanView>,
                ConfigError,
            >(e),
        },
{
    let mut plans: Vec<VariantPlan> = Vec::new();
    let mut order: usize = 0;
    assert(variants@.take(0) =~= Seq::<VariantSpec>::empty());
    assert(variant_views(plans@) =~= Seq::<VariantPlanView>::empty());
    while order < variants.len()
        invariant
            order <= variants.len(),
            variants_outcome(parent@, repr, variants@.take(order as int)) == Ok::<
                Seq<VariantPlanView>,
                ConfigError,
            >(variant_views(plans@)),
        decreases variants.len() - order,
    {
        proof {
            assert(variants@.take(order + 1).drop_last() =~= variants@.take(order as int));
            assert(variants@.take(order + 1).last() == variants@[order as int]);
        }
        match derive_variant(parent, repr, order, &variants[order]) {
            Err(e) => {
                proof {
                    lemma_variants_error_extends(parent@, repr, variants@, order + 1);
                }
                return Err(e);
            },
            Ok(None) => {},
            Ok(Some(p)) => {
                let ghost before = plans@;
                plans.push(p);
                proof {
                    assert(variant_views(plans@) =~= variant_views(before).push(plans@.last()@));
                }
            },
        }
        order = order + 1;
    }
    assert(variants@.take(variants.len() as int) =~= variants@);
    Ok(plans)
}

/// Derives the plan of an enumeration: discriminants in declaration order
/// (an explicit `value` wins, then declaration index or native ordinal),
/// skipped variants left out, and every discriminant checked to fit the
/// `repr` and to be unique.
pub fn derive_enum(name: &String, attrs: &AttrSet, variants: &Vec<VariantSpec>) -> (r: Result<
    EnumPlan,
    ConfigError,
>)
    ensures
        match r {
            Ok(p) => enum_outcome(name@, attrs@, variants@) == Ok::<EnumPlanView, ConfigError>(p@)
                && enum_plan_wf(p@),
            Err(e) => enum_outcome(name@, attrs@, variants@) == Err::<EnumPlanView, ConfigError>(
                e,
            ),
        },
{
    proof {
        lemma_derived_enum_plan_wf(name@, attrs@, variants@);
    }
    let global = match EncodingPolicy::try_from(attrs, Context::EnumGlobal) {
        Err(e) => {
            return Err(e);
        },
        Ok(g) => g,
    };
    let mut parent = attrs.duplicate();
    parent.strip_global_only();
    let plans = match derive_variants(&parent, global.discriminant_repr, variants) {
        Err(e) => {
            return Err(e);
        },
        Ok(ps) => ps,
    };
    match find_repeat(&plans) {
        Some(d) => Err(ConfigError::DuplicateDiscriminant(d)),
        None => Ok(
            EnumPlan {
                name: name.clone(),
                codec_namespace: global.codec_namespace,
                repr: global.discriminant_repr,
                variants: plans,
            },
        ),
    }
}

/// Derives the codec plan of a type.
pub fn derive_plan(t: &TypeSpec) -> (r: Result<CodecPlan, ConfigError>)
    ensures
        match r {
            Ok(p) => type_outcome(*t) == Ok::<CodecPlanView, ConfigError>(p@),
            Err(e) => type_outcome(*t) == Err::<CodecPlanView, ConfigError>(e),
        },
{
    match &t.members {
        Members::Fields(fs) => match derive_struct(&t.attrs, fs) {
            Err(e) => Err(e),
            Ok(p) => Ok(CodecPlan::Struct(p)),
        },
        Members::Variants(vs) => match derive_enum(&t.name, &t.attrs, vs) {
            Err(e) => Err(e),
            Ok(p) => Ok(CodecPlan::Enum(p)),
        },
    }
}

} // verus!
