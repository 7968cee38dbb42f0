//! Core of a binding generator: maps foreign types, mirrors struct layouts,
//! plans thunks for foreign functions and records a diagnostic for every
//! declaration that cannot be bound.
use vstd::prelude::*;

pub mod types;
pub mod layout;
pub mod decl;
pub mod mirror;
pub mod thunk;
pub mod engine;
pub mod diagnostics;
pub mod laws;

verus! {

/// A mirror of an empty foreign struct: it holds one placeholder byte so that
/// every instance keeps a distinct address.
#[derive(Clone, Copy)]
pub struct SomeStruct {
    placeholder: u8,
}

} // verus!
