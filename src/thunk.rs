//! The thunk planner: for a foreign function or special member, the host
//! signature of the trampoline that calls it, or the reasons why none exists.
use vstd::prelude::*;
use crate::decl::{copy_type, scope_reasons, scope_reasons_exec, FunctionDecl, FunctionKind, Param, Reason, TypePosition};
use crate::types::{is_declared, is_mirrored, map_type, spec_map_type, ForeignType, HostType, RecordState};

verus! {

/// A trampoline to a foreign function. A special member takes a raw pointer
/// to the struct in `receiver` first, then `params`.
#[derive(Debug)]
pub struct ThunkDescriptor {
    pub decl: usize,
    pub symbol: String,
    pub kind: FunctionKind,
    pub receiver: Option<usize>,
    pub params: Vec<HostType>,
    pub ret: HostType,
}

pub open spec fn has_unnamed_param(params: Seq<Param>) -> bool {
    exists|k: int| 0 <= k < params.len() && (#[trigger] params[k]).name@.len() == 0
}

/// One `UnsupportedType` reason per parameter whose type has no host type, in
/// parameter order.
pub open spec fn param_type_reasons(params: Seq<Param>, env: Seq<RecordState>) -> Seq<Reason>
    decreases params.len(),
{
    if params.len() == 0 {
        seq![]
    } else {
        let rest = param_type_reasons(params.drop_last(), env);
        let p = params.last();
        if spec_map_type(p.ty, env) is None {
            rest.push(
                Reason::UnsupportedType {
                    position: TypePosition::Parameter((params.len() - 1) as usize),
                    ty: p.ty,
                },
            )
        } else {
            rest
        }
    }
}

/// The type of the pointer to the struct that a special member acts on.
pub open spec fn receiver_type(r: usize) -> ForeignType {
    ForeignType::Pointer { pointee: Box::new(ForeignType::Record(r)), is_const: false }
}

/// Every reason why function `f` gets no thunk, given the states of all
/// structs, in this order: scope, unnamed parameters, receiver pointer type,
/// parameter types, return type, missing receiver mirror.
pub open spec fn function_reasons(f: FunctionDecl, env: Seq<RecordState>) -> Seq<Reason> {
    scope_reasons(f.scope) + (if has_unnamed_param(f.params@) {
        seq![Reason::EmptyParameterName]
    } else {
        seq![]
    }) + (match f.receiver {
        Some(r) => if !is_declared(env, r) {
            seq![Reason::UnsupportedType { position: TypePosition::Receiver, ty: receiver_type(r) }]
        } else {
            seq![]
        },
        None => seq![],
    }) + param_type_reasons(f.params@, env) + (if spec_map_type(f.ret, env) is None {
        seq![Reason::UnsupportedType { position: TypePosition::Return, ty: f.ret }]
    } else {
        seq![]
    }) + (match f.receiver {
        Some(r) => if !is_mirrored(env, r) {
            seq![Reason::RecordNotFound]
        } else {
            seq![]
        },
        None => seq![],
    })
}

/// `t` is the thunk of function `f`, declared at `index`.
pub open spec fn is_thunk_of(t: ThunkDescriptor, index: usize, f: FunctionDecl, env: Seq<RecordState>) -> bool {
    &&& t.decl == index
    &&& t.symbol@ == f.name@
    &&& t.kind == f.kind
    &&& t.receiver == f.receiver
    &&& t.params@ == Seq::new(f.params@.len(), |k: int| spec_map_type(f.params@[k].ty, env).unwrap())
    &&& t.ret == spec_map_type(f.ret, env).unwrap()
}

fn any_unnamed(params: &Vec<Param>) -> (r: bool)
    ensures
        r == has_unnamed_param(params@),
{
    let mut i: usize = 0;
    while i < params.len()
        invariant
            i <= params.len(),
            forall|k: int| 0 <= k < i ==> (#[trigger] params@[k]).name@.len() != 0,
        decreases params.len() - i,
    {
        if params[i].name.as_str().is_empty() {
            return true;
        }
        i = i + 1;
    }
    false
}

fn map_params(params: &Vec<Param>, env: &Vec<RecordState>) -> (r: (Vec<HostType>, Vec<Reason>))
    ensures
        r.1@ == param_type_reasons(params@, env@),
        r.1@.len() == 0 ==> r.0@ == Seq::new(
            params@.len(),
            |k: int| spec_map_type(params@[k].ty, env@).unwrap(),
        ),
{
    let mut tys: Vec<HostType> = Vec::new();
    let mut reasons: Vec<Reason> = Vec::new();
    let mut i: usize = 0;
    while i < params.len()
        invariant
            i <= params.len(),
            reasons@ == param_type_reasons(params@.take(i as int), env@),
            reasons@.len() == 0 ==> tys@ == Seq::new(
                i as nat,
                |k: int| spec_map_type(params@[k].ty, env@).unwrap(),
            ),
        decreases params.len() - i,
    {
        assert(params@.take(i + 1).drop_last() =~= params@.take(i as int));
        assert(params@.take(i + 1).last() == params@[i as int]);
        match map_type(&params[i].ty, env) {
            Some(h) => {
                tys.push(h);
            },
            None => {
                reasons.push(
                    Reason::UnsupportedType {
                        position: TypePosition::Parameter(i),
                        ty: copy_type(&params[i].ty),
                    },
                );
            },
        }
        i = i + 1;
        assert(reasons@.len() == 0 ==> tys@ =~= Seq::new(
            i as nat,
            |k: int| spec_map_type(params@[k].ty, env@).unwrap(),
        ));
    }
    assert(params@.take(params@.len() as int) =~= params@);
    (tys, reasons)
}

/// Plans the thunk of function `f`, declared at `index`, given the states of
/// all structs. It fails, with every reason that applies, when its scope is
/// not supported, a parameter has no name, the receiver pointer, a parameter
/// or the return type has no host type, or the receiver has no mirror.
pub fn plan_thunk(index: usize, f: &FunctionDecl, env: &Vec<RecordState>) -> (res: Result<ThunkDescriptor, Vec<Reason>>)
    ensures
        match res {
            Ok(t) => function_reasons(*f, env@).len() == 0 && is_thunk_of(t, index, *f, env@),
            Err(reasons) => reasons@ == function_reasons(*f, env@) && reasons@.len() > 0,
        },
{
    let mut reasons = scope_reasons_exec(f.scope);
    if any_unnamed(&f.params) {
        reasons.push(Reason::EmptyParameterName);
    }
    let mut receiver_mirrored = true;
    match f.receiver {
        Some(r) => {
            let declared = r < env.len() && !matches!(env[r], RecordState::Undeclared);
            if !declared {
                reasons.push(
                    Reason::UnsupportedType {
                        position: TypePosition::Receiver,
                        ty: ForeignType::Pointer { pointee: Box::new(ForeignType::Record(r)), is_const: false },
                    },
                );
            }
            receiver_mirrored = r < env.len() && matches!(env[r], RecordState::Mirrored { .. });
        },
        None => {},
    }
    let (tys, mut param_reasons) = map_params(&f.params, env);
    reasons.append(&mut param_reasons);
    let ret = map_type(&f.ret, env);
    if ret.is_none() {
        reasons.push(Reason::UnsupportedType { position: TypePosition::Return, ty: copy_type(&f.ret) });
    }
    if !receiver_mirrored {
        reasons.push(Reason::RecordNotFound);
    }
    assert(reasons@ =~= function_reasons(*f, env@));
    match ret {
        Some(ret) => if reasons.len() == 0 {
            Ok(
                ThunkDescriptor {
                    decl: index,
                    symbol: f.name.clone(),
                    kind: f.kind,
                    receiver: f.receiver,
                    params: tys,
                    ret,
                },
            )
        } else {
            Err(reasons)
        },
        None => Err(reasons),
    }
}

} // verus!
