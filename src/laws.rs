//! Properties of the generator as a whole, proved over the contract of
//! `generate`: every outcome it returns satisfies `outcome_correct`.
use vstd::prelude::*;
use crate::decl::{Declaration, FunctionDecl, RecordDecl, Scope};
use crate::diagnostics::{diagnostics_of, lemma_diagnostics_order};
use crate::engine::{decl_reasons, env_after, final_env, initial_env, outcome_correct, shell_ok, Outcome};
use crate::layout::{field_offset, layout_agrees, layout_end};
use crate::mirror::{field_type_reasons, lemma_placeholder_layout, record_reasons};
use crate::types::HostType;

verus! {

/// Two outcomes are the same: same kind and the same contents.
pub open spec fn same_outcome(a: Outcome, b: Outcome) -> bool {
    match (a, b) {
        (Outcome::Mirror(x), Outcome::Mirror(y)) => {
            &&& x.record == y.record
            &&& x.fields@ == y.fields@
            &&& x.placeholder == y.placeholder
            &&& x.size == y.size
            &&& x.align == y.align
            &&& x.field_bit_offsets@ == y.field_bit_offsets@
        },
        (Outcome::Thunk(x), Outcome::Thunk(y)) => {
            &&& x.decl == y.decl
            &&& x.symbol@ == y.symbol@
            &&& x.kind == y.kind
            &&& x.receiver == y.receiver
            &&& x.params@ == y.params@
            &&& x.ret == y.ret
        },
        (Outcome::Skipped(x), Outcome::Skipped(y)) => x@ == y@,
        _ => false,
    }
}

/// Every mirror that is emitted has the foreign layout: the host size and
/// alignment of its fields equal the reported ones, and each field lies at
/// the reported bit offset.
pub proof fn lemma_layout_fidelity(decls: Seq<Declaration>, i: int, m: crate::mirror::StructMirror)
    requires
        0 <= i < decls.len(),
        outcome_correct(Outcome::Mirror(m), decls, i),
    ensures
        layout_agrees(m.fields@, m.size, m.align, m.field_bit_offsets@, env_after(decls, i as nat)),
        match decls[i] {
            Declaration::Record(r) => {
                &&& r.layout is Some
                &&& m.size == r.layout.unwrap().size
                &&& m.align == r.layout.unwrap().align
                &&& !m.placeholder ==> m.field_bit_offsets@ == r.layout.unwrap().field_bit_offsets@
            },
            Declaration::Function(_) => false,
        },
{
}

/// A struct without fields in the global scope, which the foreign compiler
/// lays out in one byte aligned to one, is bound to a mirror holding exactly
/// one placeholder byte, of size 1 and alignment 1.
pub proof fn lemma_empty_struct_placeholder(decls: Seq<Declaration>, i: int, o: Outcome)
    requires
        0 <= i < decls.len(),
        outcome_correct(o, decls, i),
        match decls[i] {
            Declaration::Record(r) => {
                &&& r.scope == Scope::Global
                &&& r.fields@.len() == 0
                &&& r.layout is Some
                &&& r.layout.unwrap().size == 1
                &&& r.layout.unwrap().align == 1
                &&& r.layout.unwrap().field_bit_offsets@.len() == 0
            },
            Declaration::Function(_) => false,
        },
    ensures
        match o {
            Outcome::Mirror(m) => {
                &&& m.placeholder
                &&& m.fields@ == seq![HostType::U8]
                &&& m.size == 1
                &&& m.align == 1
            },
            _ => false,
        },
{
    let env = env_after(decls, i as nat);
    lemma_placeholder_layout(env);
    let tys = seq![HostType::U8];
    assert(tys.take(0) =~= Seq::<HostType>::empty());
    assert(layout_end(tys.take(0), env) == 0);
    assert(field_offset(tys, 0, env) == 0);
    match decls[i] {
        Declaration::Record(r) => {
            assert(r.fields@ =~= Seq::empty());
            assert(field_type_reasons(r.fields@, env) =~= seq![]);
        },
        Declaration::Function(_) => {},
    }
}

/// Every declaration ends either bound or skipped: a skipped one has at least
/// one reason, and a bound one has none.
pub proof fn lemma_classification(decls: Seq<Declaration>, i: int, o: Outcome)
    requires
        0 <= i < decls.len(),
        outcome_correct(o, decls, i),
    ensures
        (o is Skipped) == (decl_reasons(decls, i).len() > 0),
        match o {
            Outcome::Skipped(reasons) => reasons@.len() > 0,
            _ => decl_reasons(decls, i).len() == 0,
        },
{
}

/// Over a whole run, a declaration has a diagnostic exactly when it was
/// skipped: a bound declaration has none.
pub proof fn lemma_diagnostics_exactly_for_skipped(decls: Seq<Declaration>, outcomes: Seq<Outcome>)
    requires
        outcomes.len() == decls.len(),
        decls.len() <= usize::MAX,
        forall|i: int| 0 <= i < decls.len() ==> outcome_correct(#[trigger] outcomes[i], decls, i),
    ensures
        forall|i: int|
            0 <= i < decls.len() ==> ((#[trigger] outcomes[i] is Skipped) <==> exists|k: int|
                0 <= k < diagnostics_of(decls, outcomes).len() && diagnostics_of(decls, outcomes)[k].decl
                    == i),
{
    lemma_diagnostics_order(decls, outcomes);
    assert forall|i: int| 0 <= i < decls.len() implies ((#[trigger] outcomes[i] is Skipped) <==> exists|
        k: int,
    |
        0 <= k < diagnostics_of(decls, outcomes).len() && diagnostics_of(decls, outcomes)[k].decl
            == i) by {
        if exists|k: int|
            0 <= k < diagnostics_of(decls, outcomes).len() && diagnostics_of(decls, outcomes)[k].decl
                == i {
            let k = choose|k: int|
                0 <= k < diagnostics_of(decls, outcomes).len() && diagnostics_of(decls, outcomes)[k].decl
                    == i;
            assert(outcomes[diagnostics_of(decls, outcomes)[k].decl as int] is Skipped);
        }
    }
}

/// The outcome of a declaration is determined by the input: two runs over the
/// same declarations give the same outcome, reasons in the same order.
pub proof fn lemma_deterministic(decls: Seq<Declaration>, i: int, a: Outcome, b: Outcome)
    requires
        0 <= i < decls.len(),
        outcome_correct(a, decls, i),
        outcome_correct(b, decls, i),
    ensures
        same_outcome(a, b),
{
}

proof fn lemma_env_ignores_function(decls: Seq<Declaration>, j: int, g: FunctionDecl, n: nat)
    requires
        0 <= j < decls.len(),
        decls[j] is Function,
        n <= decls.len(),
    ensures
        env_after(decls.update(j, Declaration::Function(g)), n) == env_after(decls, n),
    decreases n,
{
    let other = decls.update(j, Declaration::Function(g));
    if n == 0 {
        assert(initial_env(other) =~= initial_env(decls));
    } else {
        lemma_env_ignores_function(decls, j, g, (n - 1) as nat);
    }
}

/// Replacing one function or special member by another changes the outcome of
/// no other declaration: neither the structs bound nor the other functions.
pub proof fn lemma_isolation(decls: Seq<Declaration>, j: int, g: FunctionDecl)
    requires
        0 <= j < decls.len(),
        decls[j] is Function,
    ensures
        final_env(decls.update(j, Declaration::Function(g))) == final_env(decls),
        forall|i: int|
            0 <= i < decls.len() && i != j ==> #[trigger] decl_reasons(
                decls.update(j, Declaration::Function(g)),
                i,
            ) == decl_reasons(decls, i),
{
    let other = decls.update(j, Declaration::Function(g));
    lemma_env_ignores_function(decls, j, g, decls.len());
    assert forall|i: int| 0 <= i < decls.len() && i != j implies #[trigger] decl_reasons(other, i)
        == decl_reasons(decls, i) by {
        lemma_env_ignores_function(decls, j, g, i as nat);
    }
}

/// Struct `r` can stand at `j` in place of the struct there without changing
/// how the struct at `j` looks to others: both can be named or neither, both
/// are bound or neither, and when bound, with the same size and alignment.
pub open spec fn same_binding_state(decls: Seq<Declaration>, j: int, r: RecordDecl) -> bool {
    match decls[j] {
        Declaration::Record(old) => {
            let env = env_after(decls, j as nat);
            &&& shell_ok(r) == shell_ok(old)
            &&& (record_reasons(r, env).len() == 0) == (record_reasons(old, env).len() == 0)
            &&& record_reasons(r, env).len() == 0 ==> {
                &&& r.layout.unwrap().size == old.layout.unwrap().size
                &&& r.layout.unwrap().align == old.layout.unwrap().align
            }
        },
        Declaration::Function(_) => false,
    }
}

proof fn lemma_env_ignores_record(decls: Seq<Declaration>, j: int, r: RecordDecl, n: nat)
    requires
        0 <= j < decls.len(),
        same_binding_state(decls, j, r),
        n <= decls.len(),
    ensures
        env_after(decls.update(j, Declaration::Record(r)), n) == env_after(decls, n),
    decreases n,
{
    let other = decls.update(j, Declaration::Record(r));
    if n == 0 {
        assert(initial_env(other) =~= initial_env(decls));
    } else {
        lemma_env_ignores_record(decls, j, r, (n - 1) as nat);
    }
}

/// Replacing a struct by another that is bound, or skipped, just as it was
/// (whatever the reasons) changes the outcome of no other declaration: a
/// failure inside one struct reaches others only through its mirror.
pub proof fn lemma_record_isolation(decls: Seq<Declaration>, j: int, r: RecordDecl)
    requires
        0 <= j < decls.len(),
        same_binding_state(decls, j, r),
    ensures
        final_env(decls.update(j, Declaration::Record(r))) == final_env(decls),
        forall|i: int|
            0 <= i < decls.len() && i != j ==> #[trigger] decl_reasons(
                decls.update(j, Declaration::Record(r)),
                i,
            ) == decl_reasons(decls, i),
{
    let other = decls.update(j, Declaration::Record(r));
    lemma_env_ignores_record(decls, j, r, decls.len());
    assert forall|i: int| 0 <= i < decls.len() && i != j implies #[trigger] decl_reasons(other, i)
        == decl_reasons(decls, i) by {
        lemma_env_ignores_record(decls, j, r, i as nat);
    }
}

} // verus!
