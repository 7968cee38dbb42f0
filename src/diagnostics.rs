//! The diagnostics of a run as one list, in declaration order.
use vstd::prelude::*;
use crate::decl::{copy_type, Declaration, Location, Reason};
use crate::engine::{Outcome, Report};

verus! {

/// A declaration that was skipped, where it was found, and one reason why.
#[derive(PartialEq, Eq, Debug)]
pub struct Diagnostic {
    pub decl: usize,
    pub location: Option<Location>,
    pub reason: Reason,
}

pub open spec fn decl_location(d: Declaration) -> Option<Location> {
    match d {
        Declaration::Record(r) => r.location,
        Declaration::Function(f) => f.location,
    }
}

/// The diagnostics of declaration `i`, one per reason, in order.
pub open spec fn diagnostics_for(decls: Seq<Declaration>, i: int, o: Outcome) -> Seq<Diagnostic> {
    match o {
        Outcome::Skipped(reasons) => reasons@.map_values(
            |r: Reason| Diagnostic { decl: i as usize, location: decl_location(decls[i]), reason: r },
        ),
        _ => seq![],
    }
}

/// The diagnostics of all outcomes, declaration after declaration.
pub open spec fn diagnostics_of(decls: Seq<Declaration>, outcomes: Seq<Outcome>) -> Seq<Diagnostic>
    decreases outcomes.len(),
{
    if outcomes.len() == 0 {
        seq![]
    } else {
        diagnostics_of(decls, outcomes.drop_last()) + diagnostics_for(
            decls,
            outcomes.len() - 1,
            outcomes.last(),
        )
    }
}

pub fn copy_reason(r: &Reason) -> (c: Reason)
    ensures
        c == *r,
{
    match r {
        Reason::NestedClassesNotSupported => Reason::NestedClassesNotSupported,
        Reason::NamespaceNotSupported => Reason::NamespaceNotSupported,
        Reason::EmptyParameterName => Reason::EmptyParameterName,
        Reason::UnsupportedType { position, ty } => Reason::UnsupportedType {
            position: *position,
            ty: copy_type(ty),
        },
        Reason::RecordNotFound => Reason::RecordNotFound,
        Reason::LayoutUnavailable => Reason::LayoutUnavailable,
        Reason::LayoutMismatch => Reason::LayoutMismatch,
    }
}

fn copy_location(l: &Option<Location>) -> (c: Option<Location>)
    ensures
        c == *l,
{
    match l {
        Some(l) => Some(Location { file: l.file.clone(), line: l.line }),
        None => None,
    }
}

/// The diagnostics of `report`, a run over `decls`: for each skipped
/// declaration in order, one diagnostic per reason, with its location.
pub fn diagnostics(decls: &Vec<Declaration>, report: &Report) -> (ds: Vec<Diagnostic>)
    requires
        report.outcomes@.len() <= decls@.len(),
    ensures
        ds@ == diagnostics_of(decls@, report.outcomes@),
{
    let outcomes = &report.outcomes;
    let mut ds: Vec<Diagnostic> = Vec::new();
    let mut i: usize = 0;
    while i < outcomes.len()
        invariant
            i <= outcomes.len(),
            outcomes.len() <= decls.len(),
            ds@ == diagnostics_of(decls@, outcomes@.take(i as int)),
        decreases outcomes.len() - i,
    {
        assert(outcomes@.take(i + 1).drop_last() =~= outcomes@.take(i as int));
        assert(outcomes@.take(i + 1).last() == outcomes@[i as int]);
        let ghost before = ds@;
        match &outcomes[i] {
            Outcome::Skipped(reasons) => {
                let location = match &decls[i] {
                    Declaration::Record(r) => &r.location,
                    Declaration::Function(f) => &f.location,
                };
                let mut j: usize = 0;
                while j < reasons.len()
                    invariant
                        j <= reasons.len(),
                        i < outcomes.len() <= decls.len(),
                        outcomes@[i as int] == Outcome::Skipped(*reasons),
                        *location == decl_location(decls@[i as int]),
                        ds@ == before + diagnostics_for(decls@, i as int, outcomes@[i as int]).take(
                            j as int,
                        ),
                    decreases reasons.len() - j,
                {
                    ds.push(
                        Diagnostic {
                            decl: i,
                            location: copy_location(location),
                            reason: copy_reason(&reasons[j]),
                        },
                    );
                    j = j + 1;
                    assert(ds@ =~= before + diagnostics_for(decls@, i as int, outcomes@[i as int]).take(
                        j as int,
                    ));
                }
                assert(diagnostics_for(decls@, i as int, outcomes@[i as int]).take(j as int)
                    =~= diagnostics_for(decls@, i as int, outcomes@[i as int]));
            },
            _ => {
                assert(ds@ =~= before + diagnostics_for(decls@, i as int, outcomes@[i as int]));
            },
        }
        i = i + 1;
    }
    assert(outcomes@.take(outcomes@.len() as int) =~= outcomes@);
    ds
}

/// Diagnostics come in declaration order, each names a skipped declaration,
/// and every declaration skipped for some reason has a diagnostic.
pub proof fn lemma_diagnostics_order(decls: Seq<Declaration>, outcomes: Seq<Outcome>)
    requires
        outcomes.len() <= usize::MAX,
    ensures
        forall|k: int|
            0 <= k < diagnostics_of(decls, outcomes).len() ==> {
                let d = #[trigger] diagnostics_of(decls, outcomes)[k].decl;
                &&& d < outcomes.len()
                &&& outcomes[d as int] is Skipped
            },
        forall|k1: int, k2: int|
            0 <= k1 <= k2 < diagnostics_of(decls, outcomes).len() ==> #[trigger] diagnostics_of(
                decls,
                outcomes,
            )[k1].decl <= #[trigger] diagnostics_of(decls, outcomes)[k2].decl,
        forall|i: int|
            0 <= i < outcomes.len() && #[trigger] outcomes[i] is Skipped && outcomes[i]->Skipped_0@.len()
                > 0 ==> exists|k: int|
                0 <= k < diagnostics_of(decls, outcomes).len() && diagnostics_of(decls, outcomes)[k].decl
                    == i,
    decreases outcomes.len(),
{
    if outcomes.len() > 0 {
        let prev = outcomes.drop_last();
        let n = outcomes.len() - 1;
        lemma_diagnostics_order(decls, prev);
        let ds = diagnostics_of(decls, outcomes);
        let head = diagnostics_of(decls, prev);
        let tail = diagnostics_for(decls, n, outcomes.last());
        assert(ds == head + tail);
        assert forall|k: int| 0 <= k < ds.len() implies {
            let d = #[trigger] ds[k].decl;
            &&& d < outcomes.len()
            &&& outcomes[d as int] is Skipped
        } by {
            if k < head.len() {
                assert(ds[k] == head[k]);
                assert(prev[head[k].decl as int] == outcomes[head[k].decl as int]);
            } else {
                assert(ds[k] == tail[k - head.len()]);
            }
        }
        assert forall|k1: int, k2: int| 0 <= k1 <= k2 < ds.len() implies #[trigger] ds[k1].decl
            <= #[trigger] ds[k2].decl by {
            if k2 < head.len() {
                assert(ds[k1] == head[k1]);
                assert(ds[k2] == head[k2]);
            } else if k1 < head.len() {
                assert(ds[k1] == head[k1]);
                assert(ds[k2] == tail[k2 - head.len()]);
            } else {
                assert(ds[k1] == tail[k1 - head.len()]);
                assert(ds[k2] == tail[k2 - head.len()]);
            }
        }
        assert forall|i: int|
            0 <= i < outcomes.len() && #[trigger] outcomes[i] is Skipped && outcomes[i]->Skipped_0@.len()
                > 0 implies exists|k: int| 0 <= k < ds.len() && ds[k].decl == i by {
            if i < n {
                assert(prev[i] == outcomes[i]);
                let k = choose|k: int| 0 <= k < head.len() && head[k].decl == i;
                assert(ds[k] == head[k]);
            } else {
                assert(ds[head.len() as int] == tail[0]);
            }
        }
    }
}

} // verus!
