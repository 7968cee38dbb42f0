//! The classification engine: decides for every declaration, in declaration order,
//! whether it is bound or skipped. Structs are bound first, in order, so that
//! a struct used by value must be mirrored earlier; functions and special
//! members are planned after all structs.
use vstd::prelude::*;
use crate::decl::{Declaration, Reason, RecordDecl, Scope};
use crate::mirror::{bind_record, is_mirror_of, record_reasons, StructMirror};
use crate::thunk::{function_reasons, is_thunk_of, plan_thunk, ThunkDescriptor};
use crate::types::RecordState;

verus! {

/// What became of one declaration.
#[derive(Debug)]
pub enum Outcome {
    Mirror(StructMirror),
    Thunk(ThunkDescriptor),
    /// The declaration was skipped, for these reasons, in order.
    Skipped(Vec<Reason>),
}

/// The result of one run: the outcome of each declaration, in input order.
#[derive(Debug)]
pub struct Report {
    pub outcomes: Vec<Outcome>,
}

/// A struct can be named, and pointed to, when its scope is supported and the
/// foreign compiler laid it out.
pub open spec fn shell_ok(r: RecordDecl) -> bool {
    r.scope == Scope::Global && r.layout is Some
}

pub open spec fn initial_env(decls: Seq<Declaration>) -> Seq<RecordState> {
    Seq::new(
        decls.len(),
        |i: int|
            match decls[i] {
                Declaration::Record(r) => if shell_ok(r) {
                    RecordState::Declared
                } else {
                    RecordState::Undeclared
                },
                Declaration::Function(_) => RecordState::Undeclared,
            },
    )
}

/// The states of all structs once the first `n` declarations were processed.
pub open spec fn env_after(decls: Seq<Declaration>, n: nat) -> Seq<RecordState>
    decreases n,
{
    if n == 0 {
        initial_env(decls)
    } else {
        let env = env_after(decls, (n - 1) as nat);
        match decls[n - 1] {
            Declaration::Record(r) => if record_reasons(r, env).len() == 0 {
                env.update(
                    n - 1,
                    RecordState::Mirrored { size: r.layout.unwrap().size, align: r.layout.unwrap().align },
                )
            } else {
                env
            },
            Declaration::Function(_) => env,
        }
    }
}

pub open spec fn final_env(decls: Seq<Declaration>) -> Seq<RecordState> {
    env_after(decls, decls.len())
}

/// Every reason why declaration `i` is skipped; empty when it is bound.
pub open spec fn decl_reasons(decls: Seq<Declaration>, i: int) -> Seq<Reason> {
    match decls[i] {
        Declaration::Record(r) => record_reasons(r, env_after(decls, i as nat)),
        Declaration::Function(f) => function_reasons(f, final_env(decls)),
    }
}

/// `o` is what becomes of declaration `i`.
pub open spec fn outcome_correct(o: Outcome, decls: Seq<Declaration>, i: int) -> bool {
    match o {
        Outcome::Mirror(m) => match decls[i] {
            Declaration::Record(r) => decl_reasons(decls, i).len() == 0 && is_mirror_of(
                m,
                i as usize,
                r,
                env_after(decls, i as nat),
            ),
            Declaration::Function(_) => false,
        },
        Outcome::Thunk(t) => match decls[i] {
            Declaration::Function(f) => decl_reasons(decls, i).len() == 0 && is_thunk_of(
                t,
                i as usize,
                f,
                final_env(decls),
            ),
            Declaration::Record(_) => false,
        },
        Outcome::Skipped(reasons) => reasons@ == decl_reasons(decls, i) && reasons@.len() > 0,
    }
}

proof fn lemma_env_len(decls: Seq<Declaration>, n: nat)
    requires
        n <= decls.len(),
    ensures
        env_after(decls, n).len() == decls.len(),
    decreases n,
{
    if n > 0 {
        lemma_env_len(decls, (n - 1) as nat);
    }
}

/// Runs the generator over `decls`, in order. Every declaration ends either
/// bound, with its mirror or thunk, or skipped, with every reason that applies.
pub fn generate(decls: &Vec<Declaration>) -> (report: Report)
    ensures
        report.outcomes@.len() == decls@.len(),
        forall|i: int| 0 <= i < decls@.len() ==> outcome_correct(#[trigger] report.outcomes@[i], decls@, i),
{
    let mut env: Vec<RecordState> = Vec::new();
    let mut i: usize = 0;
    while i < decls.len()
        invariant
            i <= decls.len(),
            env@ == initial_env(decls@).take(i as int),
        decreases decls.len() - i,
    {
        let state = match &decls[i] {
            Declaration::Record(r) => if matches!(r.scope, Scope::Global) && r.layout.is_some() {
                RecordState::Declared
            } else {
                RecordState::Undeclared
            },
            Declaration::Function(_) => RecordState::Undeclared,
        };
        env.push(state);
        i = i + 1;
        assert(env@ =~= initial_env(decls@).take(i as int));
    }
    assert(env@ =~= initial_env(decls@));

    let mut outcomes: Vec<Outcome> = Vec::new();
    let mut i: usize = 0;
    while i < decls.len()
        invariant
            i <= decls.len(),
            env@ == env_after(decls@, i as nat),
            outcomes@.len() == i,
            forall|k: int|
                0 <= k < i && decls@[k] is Record ==> outcome_correct(#[trigger] outcomes@[k], decls@, k),
        decreases decls.len() - i,
    {
        proof {
            lemma_env_len(decls@, i as nat);
        }
        match &decls[i] {
            Declaration::Record(r) => match bind_record(i, r, &env) {
                Ok(m) => {
                    env.set(i, RecordState::Mirrored { size: m.size, align: m.align });
                    outcomes.push(Outcome::Mirror(m));
                },
                Err(reasons) => {
                    outcomes.push(Outcome::Skipped(reasons));
                },
            },
            Declaration::Function(_) => {
                outcomes.push(Outcome::Skipped(Vec::new()));
            },
        }
        i = i + 1;
    }

    let mut i: usize = 0;
    while i < decls.len()
        invariant
            i <= decls.len(),
            env@ == final_env(decls@),
            outcomes@.len() == decls.len(),
            forall|k: int|
                0 <= k < decls.len() && (k < i || decls@[k] is Record) ==> outcome_correct(
                    #[trigger] outcomes@[k],
                    decls@,
                    k,
                ),
        decreases decls.len() - i,
    {
        match &decls[i] {
            Declaration::Function(f) => {
                let o = match plan_thunk(i, f, &env) {
                    Ok(t) => Outcome::Thunk(t),
                    Err(reasons) => Outcome::Skipped(reasons),
                };
                outcomes.set(i, o);
            },
            Declaration::Record(_) => {},
        }
        i = i + 1;
    }
    Report { outcomes }
}

} // verus!
