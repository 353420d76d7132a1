//! Laws of resolution and of the wire format, stated over the models that
//! the executable functions' contracts use.
use vstd::bytes::*;
use vstd::prelude::*;

use crate::attr::{
    check_error, merge_view, scope_of, AttrKey, AttrSetView, AttrValue, ConfigError, Context,
    Scope,
};
use crate::plan::{
    enum_outcome, enum_plan_wf, lemma_derived_enum_plan_wf, type_outcome, CodecPlanView,
    EnumPlanView, FieldPlan, StructPlanView, TypeSpec, VariantSpec,
};
use crate::policy::{
    kind_of_name, max_of, member_outcome, resolve_outcome, width_of, IntKind, PolicyView,
};
use crate::wire::{
    decode_enum_spec, decode_fields_spec, decode_struct_spec, enum_bytes, fields_bytes,
    fields_canonical, holds_discriminant, holds_index, lemma_decode_fields_len,
    position_of_index, struct_bytes, uint_bytes, uint_of,
    CodecErrorView,
};

verus! {

proof fn lemma_uint_round_trip(k: IntKind, x: u64, rest: Seq<u8>)
    requires
        x <= max_of(k),
    ensures
        uint_bytes(k, x).len() == width_of(k),
        uint_of(k, (uint_bytes(k, x) + rest).take(width_of(k) as int)) == x,
{
    lemma_auto_spec_u16_to_from_le_bytes();
    lemma_auto_spec_u32_to_from_le_bytes();
    lemma_auto_spec_u64_to_from_le_bytes();
    let b = uint_bytes(k, x);
    assert(b.len() == width_of(k));
    assert((b + rest).take(width_of(k) as int) =~= b);
}

/// Field values that fit their plans and hold zero where skipped decode
/// back to themselves from their own wire form, whatever follows it.
pub proof fn lemma_fields_round_trip(fs: Seq<FieldPlan>, vs: Seq<u64>, rest: Seq<u8>)
    requires
        fields_canonical(fs, vs),
    ensures
        decode_fields_spec(fs, fields_bytes(fs, vs) + rest) == Some(
            (vs, fields_bytes(fs, vs).len()),
        ),
    decreases fs.len(),
{
    if fs.len() == 0 {
        assert(vs =~= Seq::<u64>::empty());
        assert(fields_bytes(fs, vs) =~= Seq::<u8>::empty());
    } else {
        let tf = fs.skip(1);
        let tv = vs.skip(1);
        assert forall|i: int| 0 <= i < tf.len() implies tv[i] <= max_of(#[trigger] tf[i].kind) by {
            assert(tf[i] == fs[i + 1]);
        }
        assert forall|i: int| 0 <= i < tf.len() && (#[trigger] tf[i]).skip implies tv[i] == 0 by {
            assert(tf[i] == fs[i + 1]);
        }
        let tail = fields_bytes(tf, tv);
        lemma_fields_round_trip(tf, tv, rest);
        let s = fields_bytes(fs, vs) + rest;
        if fs[0].skip {
            assert(fields_bytes(fs, vs) =~= tail);
            assert(seq![0u64] + tv =~= vs);
        } else {
            let k = fs[0].kind;
            let b = uint_bytes(k, vs[0]);
            lemma_uint_round_trip(k, vs[0], tail + rest);
            assert(s =~= b + (tail + rest));
            assert(s.skip(width_of(k) as int) =~= tail + rest);
            assert(seq![vs[0]] + tv =~= vs);
        }
    }
}

/// Round trip of structs: a value that the plan admits, with its skipped
/// fields at their default, decodes from its encoding to itself, consuming
/// all of it.
pub proof fn lemma_struct_round_trip(p: StructPlanView, vs: Seq<u64>)
    requires
        fields_canonical(p.fields, vs),
    ensures
        decode_struct_spec(p, struct_bytes(p, vs)) == Ok::<(Seq<u64>, nat), CodecErrorView>(
            (vs, struct_bytes(p, vs).len()),
        ),
{
    lemma_fields_round_trip(p.fields, vs, Seq::empty());
    assert(struct_bytes(p, vs) + Seq::<u8>::empty() =~= struct_bytes(p, vs));
}

/// Round trip of enumerations: under a well-formed plan, a value of a
/// dispatched variant, with its skipped fields at their default, decodes
/// from its encoding to the same variant and fields, consuming all of it.
pub proof fn lemma_enum_round_trip(p: EnumPlanView, variant: usize, vs: Seq<u64>)
    requires
        enum_plan_wf(p),
        position_of_index(p.variants, variant) matches Some(k) && fields_canonical(
            p.variants[k].fields,
            vs,
        ),
    ensures
        decode_enum_spec(p, enum_bytes(p, variant, vs)) == Ok::<
            (usize, Seq<u64>, nat),
            CodecErrorView,
        >((variant, vs, enum_bytes(p, variant, vs).len())),
{
    let k = position_of_index(p.variants, variant)->Some_0;
    assert(holds_index(p.variants, variant, k));
    let d = p.variants[k].discriminant;
    let fb = fields_bytes(p.variants[k].fields, vs);
    let s = enum_bytes(p, variant, vs);
    let w = width_of(p.repr);
    lemma_uint_round_trip(p.repr, d, fb);
    assert(s == uint_bytes(p.repr, d) + fb);
    assert(holds_discriminant(p.variants, d, k));
    let c = choose|c: int| holds_discriminant(p.variants, d, c);
    assert(c == k) by {
        if c < k {
        } else if c > k {
        }
    }
    assert(s.skip(w as int) =~= fb + Seq::<u8>::empty());
    lemma_fields_round_trip(p.variants[k].fields, vs, Seq::empty());
    assert(fb + Seq::<u8>::empty() =~= fb);
}

/// Round trip of derived enumerations: for every enumeration that
/// derivation accepts, a value of a dispatched variant, with its skipped
/// fields at their default, decodes from its encoding to itself.
pub proof fn lemma_derived_enum_round_trip(
    name: Seq<char>,
    attrs: AttrSetView,
    specs: Seq<VariantSpec>,
    variant: usize,
    vs: Seq<u64>,
)
    requires
        enum_outcome(name, attrs, specs) matches Ok(p) && (position_of_index(p.variants, variant) matches Some(k)
            && fields_canonical(p.variants[k].fields, vs)),
    ensures
        enum_outcome(name, attrs, specs) matches Ok(p) && decode_enum_spec(
            p,
            enum_bytes(p, variant, vs),
        ) == Ok::<(usize, Seq<u64>, nat), CodecErrorView>(
            (variant, vs, enum_bytes(p, variant, vs).len()),
        ),
{
    lemma_derived_enum_plan_wf(name, attrs, specs);
    let p = enum_outcome(name, attrs, specs)->Ok_0;
    lemma_enum_round_trip(p, variant, vs);
}

/// Skip transparency: the wire form of field values does not depend on the
/// values of skipped fields, and decoding fills every skipped field with
/// its default, zero, whatever the input holds.
pub proof fn lemma_skip_transparency(fs: Seq<FieldPlan>, vs: Seq<u64>, ws: Seq<u64>, s: Seq<u8>)
    requires
        vs.len() == fs.len(),
        ws.len() == fs.len(),
        forall|i: int| 0 <= i < fs.len() && !(#[trigger] fs[i]).skip ==> vs[i] == ws[i],
    ensures
        fields_bytes(fs, vs) == fields_bytes(fs, ws),
        decode_fields_spec(fs, s) matches Some((ds, n)) ==> forall|i: int|
            0 <= i < fs.len() && (#[trigger] fs[i]).skip ==> ds[i] == 0,
    decreases fs.len(),
{
    if fs.len() > 0 {
        let tf = fs.skip(1);
        assert forall|i: int| 0 <= i < tf.len() && !(#[trigger] tf[i]).skip implies vs.skip(1)[i]
            == ws.skip(1)[i] by {
            assert(tf[i] == fs[i + 1]);
        }
        let rest = if fs[0].skip {
            s
        } else {
            s.skip(width_of(fs[0].kind) as int)
        };
        lemma_skip_transparency(tf, vs.skip(1), ws.skip(1), rest);
        lemma_decode_fields_len(tf, rest);
        if let Some((ds, n)) = decode_fields_spec(fs, s) {
            let (ts, m) = decode_fields_spec(tf, rest)->Some_0;
            assert forall|i: int| 0 <= i < fs.len() && (#[trigger] fs[i]).skip implies ds[i]
                == 0 by {
                if i > 0 {
                    assert(tf[i - 1] == fs[i]);
                    assert(ds[i] == ts[i - 1]);
                }
            }
        }
    }
}

/// Conflict detection: an attribute set that holds both `by_value` and
/// `by_order` never resolves; once its keys pass validation the failure is
/// `MutuallyExclusiveKeys`.
pub proof fn lemma_conflict_detected(a: AttrSetView, ctx: Context)
    requires
        a.by_value is Some,
        a.by_order is Some,
    ensures
        resolve_outcome(a, ctx) is Err,
        check_error(a, ctx) is None ==> resolve_outcome(a, ctx) == Err::<
            PolicyView,
            ConfigError,
        >(ConfigError::MutuallyExclusiveKeys(scope_of(ctx))),
{
}

/// Conflicts are detected after inheritance: a member whose own options
/// resolve, and which inherits `by_value` while giving `by_order` (or the
/// reverse), fails with `MutuallyExclusiveKeys` once the merged keys pass
/// validation.
pub proof fn lemma_inherited_conflict(parent: AttrSetView, local: AttrSetView, ctx: Context)
    requires
        resolve_outcome(local, ctx) is Ok,
        merge_view(parent, local).by_value is Some,
        merge_view(parent, local).by_order is Some,
        check_error(merge_view(parent, local), ctx) is None,
    ensures
        member_outcome(parent, local, ctx) == Err::<PolicyView, ConfigError>(
            ConfigError::MutuallyExclusiveKeys(scope_of(ctx)),
        ),
{
}

/// Repr validation: an enumeration whose `repr` names anything but `u8`,
/// `u16`, `u32` or `u64` fails with `InvalidReprKind`, whatever its
/// variants, once its keys pass validation without conflict.
pub proof fn lemma_invalid_repr(name: Seq<char>, a: AttrSetView, s: String, vs: Seq<VariantSpec>)
    requires
        a.repr == Some(AttrValue::Ident(s)),
        kind_of_name(s@) is None,
        check_error(a, Context::EnumGlobal) is None,
        !(a.by_value is Some && a.by_order is Some),
    ensures
        enum_outcome(name, a, vs) == Err::<EnumPlanView, ConfigError>(
            ConfigError::InvalidReprKind(Scope::Global),
        ),
{
}

/// Scope leakage: `skip` at type level fails with `ProhibitedKeyPresent`.
pub proof fn lemma_global_skip_prohibited(t: TypeSpec)
    requires
        t.attrs@.skip is Some,
    ensures
        type_outcome(t) == Err::<CodecPlanView, ConfigError>(
            ConfigError::ProhibitedKeyPresent(AttrKey::Skip, Scope::Global),
        ),
{
}

/// Unknown discriminant: when the leading discriminant matches no
/// dispatched variant, decoding fails with `UnknownVariant` carrying the
/// type name and the raw value.
pub proof fn lemma_unknown_discriminant(p: EnumPlanView, s: Seq<u8>)
    requires
        s.len() >= width_of(p.repr),
        forall|k: int| 0 <= k < p.variants.len() ==> #[trigger] p.variants[k].discriminant
            != uint_of(p.repr, s.take(width_of(p.repr) as int)),
    ensures
        decode_enum_spec(p, s) == Err::<(usize, Seq<u64>, nat), CodecErrorView>(
            CodecErrorView::UnknownVariant(p.name, uint_of(p.repr, s.take(width_of(p.repr) as int))),
        ),
{
    let raw = uint_of(p.repr, s.take(width_of(p.repr) as int));
    assert(!exists|c: int| holds_discriminant(p.variants, raw, c));
}

} // verus!
