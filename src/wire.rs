//! The strict wire format that a plan implies: fixed-width little-endian
//! integers, members concatenated in declaration order without padding,
//! skipped members absent, an enumeration value as discriminant then payload.
use vstd::bytes::*;
use vstd::prelude::*;
use vstd::slice::slice_subrange;

use crate::plan::{
    variant_views, EnumPlan, EnumPlanView, FieldPlan, StructPlan, StructPlanView, VariantPlan,
    VariantPlanView,
};
use crate::policy::{max_of, width_of, IntKind};

verus! {

/// A value of an enumeration: the declaration index of its variant and the
/// values of that variant's fields.
#[derive(Debug)]
pub struct EnumValue {
    pub variant: usize,
    pub fields: Vec<u64>,
}

/// A codec error: found while decoding live data.
#[derive(Debug)]
pub enum CodecError {
    /// The input ended before a member was complete.
    Truncated,
    /// The discriminant read matches no dispatched variant of the named type.
    UnknownVariant(String, u64),
}

pub ghost enum CodecErrorView {
    Truncated,
    UnknownVariant(Seq<char>, u64),
}

impl View for CodecError {
    type V = CodecErrorView;

    open spec fn view(&self) -> CodecErrorView {
        match self {
            CodecError::Truncated => CodecErrorView::Truncated,
            CodecError::UnknownVariant(n, d) => CodecErrorView::UnknownVariant(n@, *d),
        }
    }
}

/// The little-endian bytes of `x` as an integer of kind `k`.
pub open spec fn uint_bytes(k: IntKind, x: u64) -> Seq<u8> {
    match k {
        IntKind::U8 => seq![x as u8],
        IntKind::U16 => spec_u16_to_le_bytes(x as u16),
        IntKind::U32 => spec_u32_to_le_bytes(x as u32),
        IntKind::U64 => spec_u64_to_le_bytes(x),
    }
}

/// The integer of kind `k` whose little-endian bytes are `s`.
pub open spec fn uint_of(k: IntKind, s: Seq<u8>) -> u64 {
    match k {
        IntKind::U8 => s[0] as u64,
        IntKind::U16 => spec_u16_from_le_bytes(s) as u64,
        IntKind::U32 => spec_u32_from_le_bytes(s) as u64,
        IntKind::U64 => spec_u64_from_le_bytes(s),
    }
}

/// `vs` fits the fields `fs`: one value per field, each within its kind.
pub open spec fn fields_admit(fs: Seq<FieldPlan>, vs: Seq<u64>) -> bool {
    &&& vs.len() == fs.len()
    &&& forall|i: int| 0 <= i < fs.len() ==> vs[i] <= max_of(#[trigger] fs[i].kind)
}

/// `vs` fits `fs` and holds the default, zero, in every skipped field:
/// the values that a decoder can produce.
pub open spec fn fields_canonical(fs: Seq<FieldPlan>, vs: Seq<u64>) -> bool {
    &&& fields_admit(fs, vs)
    &&& forall|i: int| 0 <= i < fs.len() && (#[trigger] fs[i]).skip ==> vs[i] == 0
}

/// The wire form of field values: each non-skipped field in order.
pub open spec fn fields_bytes(fs: Seq<FieldPlan>, vs: Seq<u64>) -> Seq<u8>
    decreases fs.len(),
{
    if fs.len() == 0 || vs.len() == 0 {
        Seq::empty()
    } else {
        let head = if fs[0].skip {
            Seq::empty()
        } else {
            uint_bytes(fs[0].kind, vs[0])
        };
        head + fields_bytes(fs.skip(1), vs.skip(1))
    }
}

/// `vs` and `n` in front of what `o` decoded.
pub open spec fn prepend(vs: Seq<u64>, n: nat, o: Option<(Seq<u64>, nat)>) -> Option<
    (Seq<u64>, nat),
> {
    match o {
        Some((ws, m)) => Some((vs + ws, n + m)),
        None => None,
    }
}

/// Decoding the fields `fs` from the front of `s`: the values and the
/// number of bytes consumed, or `None` when `s` is too short.
pub open spec fn decode_fields_spec(fs: Seq<FieldPlan>, s: Seq<u8>) -> Option<(Seq<u64>, nat)>
    decreases fs.len(),
{
    if fs.len() == 0 {
        Some((Seq::empty(), 0))
    } else if fs[0].skip {
        prepend(seq![0u64], 0, decode_fields_spec(fs.skip(1), s))
    } else {
        let w = width_of(fs[0].kind);
        if s.len() < w {
            None
        } else {
            prepend(
                seq![uint_of(fs[0].kind, s.take(w as int))],
                w,
                decode_fields_spec(fs.skip(1), s.skip(w as int)),
            )
        }
    }
}

/// The wire form of a struct value.
pub open spec fn struct_bytes(p: StructPlanView, vs: Seq<u64>) -> Seq<u8> {
    fields_bytes(p.fields, vs)
}

/// Decoding a struct value from the front of `s`.
pub open spec fn decode_struct_spec(p: StructPlanView, s: Seq<u8>) -> Result<
    (Seq<u64>, nat),
    CodecErrorView,
> {
    match decode_fields_spec(p.fields, s) {
        Some(r) => Ok(r),
        None => Err(CodecErrorView::Truncated),
    }
}

/// `k` is the first position of `vs` whose variant was declared at `index`.
pub open spec fn holds_index(vs: Seq<VariantPlanView>, index: usize, k: int) -> bool {
    &&& 0 <= k < vs.len()
    &&& vs[k].index == index
    &&& forall|m: int| 0 <= m < k ==> vs[m].index != index
}

/// The position of the plan of the variant declared at `index`, if it is
/// dispatched.
pub open spec fn position_of_index(vs: Seq<VariantPlanView>, index: usize) -> Option<int> {
    if exists|k: int| holds_index(vs, index, k) {
        Some(choose|k: int| holds_index(vs, index, k))
    } else {
        None
    }
}

/// `k` is the first position of `vs` whose discriminant is `d`.
pub open spec fn holds_discriminant(vs: Seq<VariantPlanView>, d: u64, k: int) -> bool {
    &&& 0 <= k < vs.len()
    &&& vs[k].discriminant == d
    &&& forall|m: int| 0 <= m < k ==> vs[m].discriminant != d
}

/// The position of the first variant with discriminant `d`, if any.
pub open spec fn position_of_discriminant(vs: Seq<VariantPlanView>, d: u64) -> Option<int> {
    if exists|k: int| holds_discriminant(vs, d, k) {
        Some(choose|k: int| holds_discriminant(vs, d, k))
    } else {
        None
    }
}

/// `variant` is dispatched by `p` and `vs` fits its fields.
pub open spec fn enum_admits(p: EnumPlanView, variant: usize, vs: Seq<u64>) -> bool {
    match position_of_index(p.variants, variant) {
        Some(k) => fields_admit(p.variants[k].fields, vs),
        None => false,
    }
}

/// The wire form of an enumeration value.
pub open spec fn enum_bytes(p: EnumPlanView, variant: usize, vs: Seq<u64>) -> Seq<u8> {
    match position_of_index(p.variants, variant) {
        Some(k) => uint_bytes(p.repr, p.variants[k].discriminant) + fields_bytes(
            p.variants[k].fields,
            vs,
        ),
        None => Seq::empty(),
    }
}

/// Decoding an enumeration value from the front of `s`: the variant's
/// declaration index, its field values and the bytes consumed.
pub open spec fn decode_enum_spec(p: EnumPlanView, s: Seq<u8>) -> Result<
    (usize, Seq<u64>, nat),
    CodecErrorView,
> {
    let w = width_of(p.repr);
    if s.len() < w {
        Err(CodecErrorView::Truncated)
    } else {
        let raw = uint_of(p.repr, s.take(w as int));
        match position_of_discriminant(p.variants, raw) {
            None => Err(CodecErrorView::UnknownVariant(p.name, raw)),
            Some(k) => match decode_fields_spec(p.variants[k].fields, s.skip(w as int)) {
                None => Err(CodecErrorView::Truncated),
                Some((vs, n)) => Ok((p.variants[k].index, vs, n + w)),
            },
        }
    }
}

proof fn lemma_prepend_assoc(vs: Seq<u64>, n: nat, x: u64, w: nat, o: Option<(Seq<u64>, nat)>)
    ensures
        prepend(vs, n, prepend(seq![x], w, o)) == prepend(vs.push(x), n + w, o),
{
    match o {
        Some((ws, m)) => {
            assert(vs + (seq![x] + ws) =~= vs.push(x) + ws);
        },
        None => {},
    }
}

pub proof fn lemma_decode_fields_len(fs: Seq<FieldPlan>, s: Seq<u8>)
    ensures
        match decode_fields_spec(fs, s) {
            Some((vs, n)) => vs.len() == fs.len() && n <= s.len(),
            None => true,
        },
    decreases fs.len(),
{
    if fs.len() > 0 {
        if fs[0].skip {
            lemma_decode_fields_len(fs.skip(1), s);
        } else {
            let w = width_of(fs[0].kind);
            if s.len() >= w {
                lemma_decode_fields_len(fs.skip(1), s.skip(w as int));
            }
        }
    }
}

/// Appends the little-endian bytes of `x` as an integer of kind `k`.
fn write_uint(k: IntKind, x: u64, out: &mut Vec<u8>)
    ensures
        final(out)@ == old(out)@ + uint_bytes(k, x),
{
    let mut b = match k {
        IntKind::U8 => vec![x as u8],
        IntKind::U16 => u16_to_le_bytes(x as u16),
        IntKind::U32 => u32_to_le_bytes(x as u32),
        IntKind::U64 => u64_to_le_bytes(x),
    };
    proof {
        if k == IntKind::U8 {
            assert(b@ =~= seq![x as u8]);
        }
    }
    out.append(&mut b);
}

/// Reads an integer of kind `k` at `pos`.
fn read_uint(k: IntKind, input: &[u8], pos: usize) -> (r: u64)
    requires
        pos + width_of(k) <= input@.len(),
    ensures
        r == uint_of(k, input@.subrange(pos as int, pos + width_of(k))),
{
    let len = input.len();
    assert(pos + width_of(k) <= len);
    match k {
        IntKind::U8 => input[pos] as u64,
        IntKind::U16 => u16_from_le_bytes(slice_subrange(input, pos, pos + 2)) as u64,
        IntKind::U32 => u32_from_le_bytes(slice_subrange(input, pos, pos + 4)) as u64,
        IntKind::U64 => u64_from_le_bytes(slice_subrange(input, pos, pos + 8)),
    }
}

/// Appends the wire form of field values: each non-skipped field in
/// declaration order; skipped fields contribute nothing.
pub fn encode_fields(fs: &Vec<FieldPlan>, vs: &Vec<u64>, out: &mut Vec<u8>)
    requires
        fields_admit(fs@, vs@),
    ensures
        final(out)@ == old(out)@ + fields_bytes(fs@, vs@),
{
    let ghost start = out@;
    let mut i: usize = 0;
    assert(fs@.skip(0) =~= fs@);
    assert(vs@.skip(0) =~= vs@);
    while i < fs.len()
        invariant
            i <= fs.len(),
            vs.len() == fs.len(),
            out@ + fields_bytes(fs@.skip(i as int), vs@.skip(i as int)) == start + fields_bytes(
                fs@,
                vs@,
            ),
        decreases fs.len() - i,
    {
        let ghost before = out@;
        assert(fs@.skip(i as int).skip(1) =~= fs@.skip(i + 1));
        assert(vs@.skip(i as int).skip(1) =~= vs@.skip(i + 1));
        let f = fs[i];
        if !f.skip {
            write_uint(f.kind, vs[i], out);
        }
        proof {
            let head = if f.skip {
                Seq::<u8>::empty()
            } else {
                uint_bytes(f.kind, vs@[i as int])
            };
            assert(out@ == before + head);
            let rest = fields_bytes(fs@.skip(i + 1), vs@.skip(i + 1));
            assert(fields_bytes(fs@.skip(i as int), vs@.skip(i as int)) == head + rest);
            assert(before + (head + rest) =~= out@ + rest);
        }
        i = i + 1;
    }
    assert(fields_bytes(fs@.skip(i as int), vs@.skip(i as int)) =~= Seq::<u8>::empty());
    assert(out@ =~= start + fields_bytes(fs@, vs@));
}

/// Decodes field values at `start` of `input`: a skipped field takes its
/// default, zero, and consumes nothing; every other field consumes exactly
/// the width of its kind. Returns the values and the bytes consumed.
pub fn decode_fields(fs: &Vec<FieldPlan>, input: &[u8], start: usize) -> (r: Result<
    (Vec<u64>, usize),
    CodecError,
>)
    requires
        start <= input@.len(),
    ensures
        match decode_fields_spec(fs@, input@.skip(start as int)) {
            Some((vs, n)) => r matches Ok((rv, rn)) && rv@ == vs && rn == n,
            None => r matches Err(CodecError::Truncated),
        },
{
    let mut vals: Vec<u64> = Vec::new();
    let mut pos: usize = start;
    let mut i: usize = 0;
    assert(fs@.skip(0) =~= fs@);
    assert(vals@ + Seq::<u64>::empty() =~= vals@);
    proof {
        match decode_fields_spec(fs@, input@.skip(start as int)) {
            Some((ws, m)) => {
                assert(vals@ + ws =~= ws);
            },
            None => {},
        }
    }
    while i < fs.len()
        invariant
            i <= fs.len(),
            start <= pos <= input@.len(),
            decode_fields_spec(fs@, input@.skip(start as int)) == prepend(
                vals@,
                (pos - start) as nat,
                decode_fields_spec(fs@.skip(i as int), input@.skip(pos as int)),
            ),
        decreases fs.len() - i,
    {
        let ghost s = input@.skip(pos as int);
        assert(fs@.skip(i as int).skip(1) =~= fs@.skip(i + 1));
        assert(fs@.skip(i as int)[0] == fs@[i as int]);
        let f = fs[i];
        if f.skip {
            proof {
                lemma_prepend_assoc(
                    vals@,
                    (pos - start) as nat,
                    0,
                    0,
                    decode_fields_spec(fs@.skip(i + 1), s),
                );
            }
            vals.push(0);
        } else {
            let w = f.kind.width();
            if input.len() - pos < w {
                return Err(CodecError::Truncated);
            }
            let x = read_uint(f.kind, input, pos);
            proof {
                assert(s.take(w as int) =~= input@.subrange(pos as int, pos + w));
                assert(s.skip(w as int) =~= input@.skip(pos + w));
                lemma_prepend_assoc(
                    vals@,
                    (pos - start) as nat,
                    x,
                    w as nat,
                    decode_fields_spec(fs@.skip(i + 1), input@.skip(pos + w)),
                );
            }
            vals.push(x);
            pos = pos + w;
        }
        i = i + 1;
    }
    proof {
        assert(fs@.skip(i as int) =~= Seq::<FieldPlan>::empty());
        assert(vals@ + Seq::<u64>::empty() =~= vals@);
    }
    Ok((vals, pos - start))
}

/// The wire form of a struct value.
pub fn encode_struct(plan: &StructPlan, fields: &Vec<u64>) -> (r: Vec<u8>)
    requires
        fields_admit(plan.fields@, fields@),
    ensures
        r@ == struct_bytes(plan@, fields@),
{
    let mut out: Vec<u8> = Vec::new();
    encode_fields(&plan.fields, fields, &mut out);
    assert(out@ =~= struct_bytes(plan@, fields@));
    out
}

/// Decodes a struct value from the front of `input`: its field values and
/// the number of bytes consumed.
pub fn decode_struct(plan: &StructPlan, input: &[u8]) -> (r: Result<(Vec<u64>, usize), CodecError>)
    ensures
        match decode_struct_spec(plan@, input@) {
            Ok((vs, n)) => r matches Ok((rv, rn)) && rv@ == vs && rn == n,
            Err(e) => r matches Err(re) && re@ == e,
        },
{
    assert(input@.skip(0) =~= input@);
    decode_fields(&plan.fields, input, 0)
}

/// The position of the plan of the variant declared at `index`.
fn find_index(vs: &Vec<VariantPlan>, index: usize) -> (r: Option<usize>)
    ensures
        match r {
            Some(k) => position_of_index(variant_views(vs@), index) == Some(k as int),
            None => position_of_index(variant_views(vs@), index) is None,
        },
{
    let ghost ps = variant_views(vs@);
    let mut k: usize = 0;
    while k < vs.len()
        invariant
            k <= vs.len(),
            ps == variant_views(vs@),
            ps.len() == vs.len(),
            forall|m: int| 0 <= m < k ==> ps[m].index != index,
        decreases vs.len() - k,
    {
        assert(ps[k as int].index == vs@[k as int].index);
        if vs[k].index == index {
            proof {
                assert(holds_index(ps, index, k as int));
                let c = choose|c: int| holds_index(ps, index, c);
                assert(c == k) by {
                    if c < k {
                    } else if c > k {
                    }
                }
            }
            return Some(k);
        }
        k = k + 1;
    }
    assert(!exists|c: int| holds_index(ps, index, c));
    None
}

/// The position of the first variant plan with discriminant `d`.
fn find_discriminant(vs: &Vec<VariantPlan>, d: u64) -> (r: Option<usize>)
    ensures
        match r {
            Some(k) => position_of_discriminant(variant_views(vs@), d) == Some(k as int),
            None => position_of_discriminant(variant_views(vs@), d) is None,
        },
{
    let ghost ps = variant_views(vs@);
    let mut k: usize = 0;
    while k < vs.len()
        invariant
            k <= vs.len(),
            ps == variant_views(vs@),
            ps.len() == vs.len(),
            forall|m: int| 0 <= m < k ==> ps[m].discriminant != d,
        decreases vs.len() - k,
    {
        assert(ps[k as int].discriminant == vs@[k as int].discriminant);
        if vs[k].discriminant == d {
            proof {
                assert(holds_discriminant(ps, d, k as int));
                let c = choose|c: int| holds_discriminant(ps, d, c);
                assert(c == k) by {
                    if c < k {
                    } else if c > k {
                    }
                }
            }
            return Some(k);
        }
        k = k + 1;
    }
    assert(!exists|c: int| holds_discriminant(ps, d, c));
    None
}

/// The wire form of an enumeration value: the variant's discriminant as an
/// integer of the plan's `repr`, then its fields.
pub fn encode_enum(plan: &EnumPlan, value: &EnumValue) -> (r: Vec<u8>)
    requires
        enum_admits(plan@, value.variant, value.fields@),
    ensures
        r@ == enum_bytes(plan@, value.variant, value.fields@),
{
    let k = find_index(&plan.variants, value.variant).unwrap();
    let vp = &plan.variants[k];
    assert(variant_views(plan.variants@)[k as int] == vp@);
    let mut out: Vec<u8> = Vec::new();
    write_uint(plan.repr, vp.discriminant, &mut out);
    encode_fields(&vp.fields, &value.fields, &mut out);
    assert(out@ =~= enum_bytes(plan@, value.variant, value.fields@));
    out
}

/// Decodes an enumeration value from the front of `input`: reads the
/// discriminant, dispatches to the first variant that carries it, then
/// decodes that variant's fields. Returns the value and the bytes consumed.
pub fn decode_enum(plan: &EnumPlan, input: &[u8]) -> (r: Result<(EnumValue, usize), CodecError>)
    ensures
        match decode_enum_spec(plan@, input@) {
            Ok((index, vs, n)) => r matches Ok((rv, rn)) && rv.variant == index && rv.fields@ == vs
                && rn == n,
            Err(e) => r matches Err(re) && re@ == e,
        },
{
    let w = plan.repr.width();
    if input.len() < w {
        return Err(CodecError::Truncated);
    }
    let raw = read_uint(plan.repr, input, 0);
    assert(input@.take(w as int) =~= input@.subrange(0, w as int));
    let k = match find_discriminant(&plan.variants, raw) {
        Some(k) => k,
        None => {
            return Err(CodecError::UnknownVariant(plan.name.clone(), raw));
        },
    };
    let vp = &plan.variants[k];
    assert(variant_views(plan.variants@)[k as int] == vp@);
    proof {
        lemma_decode_fields_len(vp.fields@, input@.skip(w as int));
    }
    match decode_fields(&vp.fields, input, w) {
        Err(e) => Err(e),
        Ok((fields, n)) => Ok((EnumValue { variant: vp.index, fields }, n + w)),
    }
}

} // verus!
