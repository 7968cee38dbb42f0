//! Foreign and host type descriptors, and the mapping between them.
use vstd::prelude::*;

verus! {

/// The primitive types of the foreign language.
#[derive(Clone, Copy, PartialEq, Eq, Structural, Debug)]
pub enum Primitive {
    Bool,
    Char,
    UnsignedChar,
    SignedChar,
    Char16,
    Char32,
    WChar,
    Short,
    Int,
    Long,
    LongLong,
    UnsignedShort,
    UnsignedInt,
    UnsignedLong,
    UnsignedLongLong,
    Int8,
    Int16,
    Int32,
    Int64,
    UInt8,
    UInt16,
    UInt32,
    UInt64,
    PtrDiff,
    Size,
    IntPtr,
    UIntPtr,
    Float,
    Double,
    Void,
}

/// A type as the foreign declaration model states it.
#[derive(PartialEq, Eq, Debug)]
pub enum ForeignType {
    Primitive(Primitive),
    Pointer { pointee: Box<ForeignType>, is_const: bool },
    LValueRef { referent: Box<ForeignType>, is_const: bool },
    RValueRef { referent: Box<ForeignType>, is_const: bool },
    /// The struct declared at this index of the input.
    Record(usize),
    /// The opaque maximum-alignment type, which has no host counterpart.
    MaxAlign,
}

/// A host-side type descriptor.
#[derive(PartialEq, Eq, Debug)]
pub enum HostType {
    Bool,
    U8,
    I8,
    U16,
    I16,
    U32,
    I32,
    U64,
    I64,
    Isize,
    Usize,
    Float32,
    Float64,
    Unit,
    MutPtr(Box<HostType>),
    ConstPtr(Box<HostType>),
    /// The mirror of the struct declared at this index of the input.
    Mirror(usize),
}

/// How far a foreign struct has been bound so far.
#[derive(Clone, Copy, PartialEq, Eq, Structural, Debug)]
pub enum RecordState {
    /// No host name exists for it: nothing may refer to it.
    Undeclared,
    /// Its name exists, so pointers and references to it can be formed.
    Declared,
    /// Its mirror exists, with the given size and alignment in bytes.
    Mirrored { size: u64, align: u64 },
}

pub open spec fn primitive_host(p: Primitive) -> HostType {
    match p {
        Primitive::Bool => HostType::Bool,
        Primitive::Char => HostType::U8,
        Primitive::UnsignedChar => HostType::U8,
        Primitive::SignedChar => HostType::I8,
        Primitive::Char16 => HostType::U16,
        Primitive::Char32 => HostType::U32,
        Primitive::WChar => HostType::I32,
        Primitive::Short => HostType::I16,
        Primitive::Int => HostType::I32,
        Primitive::Long => HostType::I64,
        Primitive::LongLong => HostType::I64,
        Primitive::UnsignedShort => HostType::U16,
        Primitive::UnsignedInt => HostType::U32,
        Primitive::UnsignedLong => HostType::U64,
        Primitive::UnsignedLongLong => HostType::U64,
        Primitive::Int8 => HostType::I8,
        Primitive::Int16 => HostType::I16,
        Primitive::Int32 => HostType::I32,
        Primitive::Int64 => HostType::I64,
        Primitive::UInt8 => HostType::U8,
        Primitive::UInt16 => HostType::U16,
        Primitive::UInt32 => HostType::U32,
        Primitive::UInt64 => HostType::U64,
        Primitive::PtrDiff => HostType::Isize,
        Primitive::Size => HostType::Usize,
        Primitive::IntPtr => HostType::Isize,
        Primitive::UIntPtr => HostType::Usize,
        Primitive::Float => HostType::Float32,
        Primitive::Double => HostType::Float64,
        Primitive::Void => HostType::Unit,
    }
}

pub open spec fn is_declared(env: Seq<RecordState>, i: usize) -> bool {
    i < env.len() && !(env[i as int] is Undeclared)
}

pub open spec fn is_mirrored(env: Seq<RecordState>, i: usize) -> bool {
    i < env.len() && env[i as int] is Mirrored
}

/// The host type of a foreign type used by value, or `None` when it has none.
pub open spec fn spec_map_type(t: ForeignType, env: Seq<RecordState>) -> Option<HostType>
    decreases t, 0nat,
{
    match t {
        ForeignType::Primitive(p) => Some(primitive_host(p)),
        ForeignType::Pointer { pointee, is_const } => wrap_pointer(
            spec_map_pointee(*pointee, env),
            is_const,
        ),
        ForeignType::LValueRef { referent, is_const } => wrap_pointer(
            spec_map_pointee(*referent, env),
            is_const,
        ),
        ForeignType::RValueRef { .. } => None,
        ForeignType::Record(i) => if is_mirrored(env, i) {
            Some(HostType::Mirror(i))
        } else {
            None
        },
        ForeignType::MaxAlign => None,
    }
}

/// The host type of a foreign type seen through a pointer or a reference: a
/// struct needs only to be declared there, not mirrored.
pub open spec fn spec_map_pointee(t: ForeignType, env: Seq<RecordState>) -> Option<HostType>
    decreases t, 1nat,
{
    match t {
        ForeignType::Record(i) => if is_declared(env, i) {
            Some(HostType::Mirror(i))
        } else {
            None
        },
        _ => spec_map_type(t, env),
    }
}

pub open spec fn wrap_pointer(h: Option<HostType>, is_const: bool) -> Option<HostType> {
    match h {
        Some(h) => if is_const {
            Some(HostType::ConstPtr(Box::new(h)))
        } else {
            Some(HostType::MutPtr(Box::new(h)))
        },
        None => None,
    }
}

fn map_primitive(p: Primitive) -> (r: HostType)
    ensures
        r == primitive_host(p),
{
    match p {
        Primitive::Bool => HostType::Bool,
        Primitive::Char => HostType::U8,
        Primitive::UnsignedChar => HostType::U8,
        Primitive::SignedChar => HostType::I8,
        Primitive::Char16 => HostType::U16,
        Primitive::Char32 => HostType::U32,
        Primitive::WChar => HostType::I32,
        Primitive::Short => HostType::I16,
        Primitive::Int => HostType::I32,
        Primitive::Long => HostType::I64,
        Primitive::LongLong => HostType::I64,
        Primitive::UnsignedShort => HostType::U16,
        Primitive::UnsignedInt => HostType::U32,
        Primitive::UnsignedLong => HostType::U64,
        Primitive::UnsignedLongLong => HostType::U64,
        Primitive::Int8 => HostType::I8,
        Primitive::Int16 => HostType::I16,
        Primitive::Int32 => HostType::I32,
        Primitive::Int64 => HostType::I64,
        Primitive::UInt8 => HostType::U8,
        Primitive::UInt16 => HostType::U16,
        Primitive::UInt32 => HostType::U32,
        Primitive::UInt64 => HostType::U64,
        Primitive::PtrDiff => HostType::Isize,
        Primitive::Size => HostType::Usize,
        Primitive::IntPtr => HostType::Isize,
        Primitive::UIntPtr => HostType::Usize,
        Primitive::Float => HostType::Float32,
        Primitive::Double => HostType::Float64,
        Primitive::Void => HostType::Unit,
    }
}

fn state_is_declared(env: &Vec<RecordState>, i: usize) -> (r: bool)
    ensures
        r == is_declared(env@, i),
{
    i < env.len() && !matches!(env[i], RecordState::Undeclared)
}

fn state_is_mirrored(env: &Vec<RecordState>, i: usize) -> (r: bool)
    ensures
        r == is_mirrored(env@, i),
{
    i < env.len() && matches!(env[i], RecordState::Mirrored { .. })
}

fn pointer_to(h: Option<HostType>, is_const: bool) -> (r: Option<HostType>)
    ensures
        r == wrap_pointer(h, is_const),
{
    match h {
        Some(h) => if is_const {
            Some(HostType::ConstPtr(Box::new(h)))
        } else {
            Some(HostType::MutPtr(Box::new(h)))
        },
        None => None,
    }
}

/// Maps a foreign type used by value to its host type. Pointers and lvalue
/// references become raw pointers; rvalue references, the maximum-alignment
/// type and structs without a mirror have no host type.
pub fn map_type(t: &ForeignType, env: &Vec<RecordState>) -> (r: Option<HostType>)
    ensures
        r == spec_map_type(*t, env@),
    decreases t, 0nat,
{
    match t {
        ForeignType::Primitive(p) => Some(map_primitive(*p)),
        ForeignType::Pointer { pointee, is_const } => pointer_to(map_pointee(pointee, env), *is_const),
        ForeignType::LValueRef { referent, is_const } => pointer_to(map_pointee(referent, env), *is_const),
        ForeignType::RValueRef { .. } => None,
        ForeignType::Record(i) => if state_is_mirrored(env, *i) {
            Some(HostType::Mirror(*i))
        } else {
            None
        },
        ForeignType::MaxAlign => None,
    }
}

/// Maps a foreign type seen through a pointer or a reference.
pub fn map_pointee(t: &ForeignType, env: &Vec<RecordState>) -> (r: Option<HostType>)
    ensures
        r == spec_map_pointee(*t, env@),
    decreases t, 1nat,
{
    match t {
        ForeignType::Record(i) => if state_is_declared(env, *i) {
            Some(HostType::Mirror(*i))
        } else {
            None
        },
        _ => map_type(t, env),
    }
}

} // verus!
