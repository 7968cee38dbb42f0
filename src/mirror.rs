//! The struct mirror builder: a host struct with the foreign struct's layout,
//! or the reasons why none can be built.
use vstd::prelude::*;
use crate::decl::{copy_type, scope_reasons, scope_reasons_exec, FieldDecl, Reason, RecordDecl, TypePosition};
use crate::layout::{layout_end, layout_agrees, layout_agrees_with, layout_align, layout_size, LayoutFact};
use crate::types::{map_type, spec_map_type, HostType, RecordState};

verus! {

/// A host struct that mirrors a foreign one. `fields` are the host types laid
/// out in order; a foreign struct without fields gets one placeholder byte.
/// `size`, `align` and `field_bit_offsets` are the foreign layout, which the
/// host layout of `fields` has been checked against.
#[derive(Debug)]
pub struct StructMirror {
    pub record: usize,
    pub fields: Vec<HostType>,
    pub placeholder: bool,
    pub size: u64,
    pub align: u64,
    pub field_bit_offsets: Vec<u64>,
}

/// One `UnsupportedType` reason per field whose type has no host type, in
/// field order.
pub open spec fn field_type_reasons(fields: Seq<FieldDecl>, env: Seq<RecordState>) -> Seq<Reason>
    decreases fields.len(),
{
    if fields.len() == 0 {
        seq![]
    } else {
        let rest = field_type_reasons(fields.drop_last(), env);
        let f = fields.last();
        if spec_map_type(f.ty, env) is None {
            rest.push(
                Reason::UnsupportedType {
                    position: TypePosition::Field((fields.len() - 1) as usize),
                    ty: f.ty,
                },
            )
        } else {
            rest
        }
    }
}

/// The host types that a mirror lays out.
pub open spec fn mirror_types(fields: Seq<FieldDecl>, env: Seq<RecordState>) -> Seq<HostType> {
    if fields.len() == 0 {
        seq![HostType::U8]
    } else {
        Seq::new(fields.len(), |k: int| spec_map_type(fields[k].ty, env).unwrap())
    }
}

/// The bit offsets that a mirror asserts: those of the foreign fields, or the
/// placeholder's offset 0.
pub open spec fn mirror_offsets(fields: Seq<FieldDecl>, fact: LayoutFact) -> Seq<u64> {
    if fields.len() == 0 {
        seq![0u64]
    } else {
        fact.field_bit_offsets@
    }
}

/// The host layout of the mirror agrees with the foreign layout; a struct
/// without fields must report no field offsets.
pub open spec fn mirror_layout_agrees(r: RecordDecl, fact: LayoutFact, env: Seq<RecordState>) -> bool {
    &&& layout_agrees(
        mirror_types(r.fields@, env),
        fact.size,
        fact.align,
        mirror_offsets(r.fields@, fact),
        env,
    )
    &&& (r.fields@.len() == 0 ==> fact.field_bit_offsets@.len() == 0)
}

/// Every reason why struct `r` gets no mirror, given the structs bound so far.
pub open spec fn record_reasons(r: RecordDecl, env: Seq<RecordState>) -> Seq<Reason> {
    let early = scope_reasons(r.scope) + (if r.layout is None {
        seq![Reason::LayoutUnavailable]
    } else {
        seq![]
    }) + field_type_reasons(r.fields@, env);
    if early.len() == 0 && !mirror_layout_agrees(r, r.layout.unwrap(), env) {
        seq![Reason::LayoutMismatch]
    } else {
        early
    }
}

/// `m` is the mirror of struct `r`, declared at `index`.
pub open spec fn is_mirror_of(m: StructMirror, index: usize, r: RecordDecl, env: Seq<RecordState>) -> bool {
    let fact = r.layout.unwrap();
    &&& m.record == index
    &&& m.fields@ == mirror_types(r.fields@, env)
    &&& m.placeholder == (r.fields@.len() == 0)
    &&& m.size == fact.size
    &&& m.align == fact.align
    &&& m.field_bit_offsets@ == mirror_offsets(r.fields@, fact)
}

proof fn lemma_field_reasons_prefix(fields: Seq<FieldDecl>, i: int, env: Seq<RecordState>)
    requires
        0 <= i < fields.len(),
    ensures
        fields.take(i + 1).drop_last() == fields.take(i),
        fields.take(i + 1).last() == fields[i],
        field_type_reasons(fields.take(i + 1), env).len() == 0 ==> field_type_reasons(
            fields.take(i),
            env,
        ).len() == 0,
{
    assert(fields.take(i + 1).drop_last() =~= fields.take(i));
}

/// Maps every field type, collecting the host types of those that map and a
/// reason for each that does not.
fn map_fields(fields: &Vec<FieldDecl>, env: &Vec<RecordState>) -> (r: (Vec<HostType>, Vec<Reason>))
    ensures
        r.1@ == field_type_reasons(fields@, env@),
        r.1@.len() == 0 ==> r.0@ == Seq::new(
            fields@.len(),
            |k: int| spec_map_type(fields@[k].ty, env@).unwrap(),
        ),
{
    let mut tys: Vec<HostType> = Vec::new();
    let mut reasons: Vec<Reason> = Vec::new();
    let mut i: usize = 0;
    while i < fields.len()
        invariant
            i <= fields.len(),
            reasons@ == field_type_reasons(fields@.take(i as int), env@),
            reasons@.len() == 0 ==> tys@ == Seq::new(
                i as nat,
                |k: int| spec_map_type(fields@[k].ty, env@).unwrap(),
            ),
        decreases fields.len() - i,
    {
        proof {
            lemma_field_reasons_prefix(fields@, i as int, env@);
        }
        match map_type(&fields[i].ty, env) {
            Some(h) => {
                tys.push(h);
            },
            None => {
                reasons.push(
                    Reason::UnsupportedType {
                        position: TypePosition::Field(i),
                        ty: copy_type(&fields[i].ty),
                    },
                );
            },
        }
        i = i + 1;
        assert(reasons@.len() == 0 ==> tys@ =~= Seq::new(
            i as nat,
            |k: int| spec_map_type(fields@[k].ty, env@).unwrap(),
        ));
    }
    assert(fields@.take(fields@.len() as int) =~= fields@);
    (tys, reasons)
}

/// Builds the mirror of struct `r`, declared at `index`, given the states of
/// the structs bound so far. It fails, with every reason that applies, when
/// the struct's scope is not supported, the foreign compiler reported no
/// layout, a field type has no host type, or the host layout of the mirror
/// differs from the foreign one.
pub fn bind_record(index: usize, r: &RecordDecl, env: &Vec<RecordState>) -> (res: Result<StructMirror, Vec<Reason>>)
    ensures
        match res {
            Ok(m) => record_reasons(*r, env@).len() == 0 && is_mirror_of(m, index, *r, env@),
            Err(reasons) => reasons@ == record_reasons(*r, env@) && reasons@.len() > 0,
        },
{
    let mut reasons = scope_reasons_exec(r.scope);
    if r.layout.is_none() {
        reasons.push(Reason::LayoutUnavailable);
    }
    let (tys, mut field_reasons) = map_fields(&r.fields, env);
    reasons.append(&mut field_reasons);
    assert(reasons@ =~= scope_reasons(r.scope) + (if r.layout is None {
        seq![Reason::LayoutUnavailable]
    } else {
        seq![]
    }) + field_type_reasons(r.fields@, env@));
    if reasons.len() > 0 {
        return Err(reasons);
    }
    let fact = match &r.layout {
        Some(f) => f,
        None => {
            return Err(reasons);
        },
    };
    let placeholder = r.fields.len() == 0;
    let (laid_out, offsets) = if placeholder {
        (vec![HostType::U8], vec![0u64])
    } else {
        (tys, fact.field_bit_offsets.clone())
    };
    assert(laid_out@ =~= mirror_types(r.fields@, env@));
    assert(offsets@ =~= mirror_offsets(r.fields@, *fact));
    let agrees = layout_agrees_with(&laid_out, fact.size, fact.align, &offsets, env)
        && (!placeholder || fact.field_bit_offsets.len() == 0);
    if !agrees {
        let mut mismatch: Vec<Reason> = Vec::new();
        mismatch.push(Reason::LayoutMismatch);
        assert(mismatch@ =~= record_reasons(*r, env@));
        return Err(mismatch);
    }
    Ok(
        StructMirror {
            record: index,
            fields: laid_out,
            placeholder,
            size: fact.size,
            align: fact.align,
            field_bit_offsets: offsets,
        },
    )
}

/// A struct without fields that the foreign compiler lays out in one byte,
/// aligned to one, passes the layout check with a single placeholder byte.
pub proof fn lemma_placeholder_layout(env: Seq<RecordState>)
    ensures
        layout_size(seq![HostType::U8], env) == 1,
        layout_align(seq![HostType::U8], env) == 1,
{
    let tys = seq![HostType::U8];
    assert(tys.drop_last() =~= Seq::<HostType>::empty());
    assert(tys.last() == HostType::U8);
    assert(layout_end(tys.drop_last(), env) == 0);
    assert(layout_align(tys.drop_last(), env) == 1);
    assert(layout_end(tys, env) == 1);
}

} // verus!
