//! The foreign declaration model that the generator reads, and the reasons
//! for which a declaration can be skipped.
use vstd::prelude::*;
use crate::layout::LayoutFact;
use crate::types::ForeignType;

verus! {

/// Where a declaration was found in the foreign sources.
#[derive(PartialEq, Eq, Debug)]
pub struct Location {
    pub file: String,
    pub line: u64,
}

/// The scope that encloses a declaration.
#[derive(Clone, Copy, PartialEq, Eq, Structural, Debug)]
pub enum Scope {
    Global,
    /// A named namespace: no mirror policy exists for these.
    Namespace,
    /// A class: nested declarations are not bound.
    Class,
}

#[derive(Debug)]
pub struct FieldDecl {
    pub name: String,
    pub ty: ForeignType,
}

/// A foreign struct with its fields in declaration order and, when the
/// foreign compiler could lay it out, its layout.
#[derive(Debug)]
pub struct RecordDecl {
    pub name: String,
    pub scope: Scope,
    pub fields: Vec<FieldDecl>,
    pub layout: Option<LayoutFact>,
    pub location: Option<Location>,
}

#[derive(Clone, Copy, PartialEq, Eq, Structural, Debug)]
pub enum FunctionKind {
    Constructor,
    Destructor,
    Assignment,
    Free,
}

#[derive(Debug)]
pub struct Param {
    pub name: String,
    pub ty: ForeignType,
}

/// A foreign function or special member. A special member has the struct it
/// acts on as `receiver`, an index into the input; `scope` is the scope that
/// encloses the declaration apart from that struct.
#[derive(Debug)]
pub struct FunctionDecl {
    pub name: String,
    pub kind: FunctionKind,
    pub scope: Scope,
    pub receiver: Option<usize>,
    pub params: Vec<Param>,
    pub ret: ForeignType,
    pub location: Option<Location>,
}

#[derive(Debug)]
pub enum Declaration {
    Record(RecordDecl),
    Function(FunctionDecl),
}

/// Where in a declaration a type occurs.
#[derive(Clone, Copy, PartialEq, Eq, Structural, Debug)]
pub enum TypePosition {
    /// The pointer to the struct that a special member acts on.
    Receiver,
    Parameter(usize),
    Return,
    Field(usize),
}

/// Why a declaration could not be bound.
#[derive(PartialEq, Eq, Debug)]
pub enum Reason {
    NestedClassesNotSupported,
    NamespaceNotSupported,
    EmptyParameterName,
    UnsupportedType { position: TypePosition, ty: ForeignType },
    /// The struct that a special member acts on has no mirror.
    RecordNotFound,
    /// The foreign compiler reported no layout for the struct.
    LayoutUnavailable,
    /// The mirror's host layout differs from the foreign layout.
    LayoutMismatch,
}

pub open spec fn scope_reasons(s: Scope) -> Seq<Reason> {
    match s {
        Scope::Global => seq![],
        Scope::Namespace => seq![Reason::NamespaceNotSupported],
        Scope::Class => seq![Reason::NestedClassesNotSupported],
    }
}

pub fn scope_reasons_exec(s: Scope) -> (r: Vec<Reason>)
    ensures
        r@ == scope_reasons(s),
{
    let mut r: Vec<Reason> = Vec::new();
    match s {
        Scope::Global => {},
        Scope::Namespace => r.push(Reason::NamespaceNotSupported),
        Scope::Class => r.push(Reason::NestedClassesNotSupported),
    }
    assert(r@ =~= scope_reasons(s));
    r
}

/// A copy of a foreign type.
pub fn copy_type(t: &ForeignType) -> (r: ForeignType)
    ensures
        r == *t,
    decreases t,
{
    match t {
        ForeignType::Primitive(p) => ForeignType::Primitive(*p),
        ForeignType::Pointer { pointee, is_const } => ForeignType::Pointer {
            pointee: Box::new(copy_type(pointee)),
            is_const: *is_const,
        },
        ForeignType::LValueRef { referent, is_const } => ForeignType::LValueRef {
            referent: Box::new(copy_type(referent)),
            is_const: *is_const,
        },
        ForeignType::RValueRef { referent, is_const } => ForeignType::RValueRef {
            referent: Box::new(copy_type(referent)),
            is_const: *is_const,
        },
        ForeignType::Record(i) => ForeignType::Record(*i),
        ForeignType::MaxAlign => ForeignType::MaxAlign,
    }
}

} // verus!
