//! Normalization of the lifetimes of function signatures.
//!
//! Every anonymous or omitted lifetime of a signature's inputs is given a
//! name of its own, declared in the signature's generics, and the lifetimes
//! left out of the return type are filled in by the elision rules of the
//! language: the receiver's lifetime where the method borrows `self`, the
//! single lifetime of the other inputs otherwise.
//!
//! The passes work on [`syntax::TypeTree`], a syntax tree reduced to what
//! carries a lifetime. Their contracts are stated over the spec functions
//! of [`scope`] and [`normalize`]; [`laws`] and [`elision_laws`] prove what
//! follows from them for every input.

pub mod assign;
pub mod collect;
pub mod elide;
pub mod elision_laws;
pub mod generics;
pub mod laws;
pub mod lifetime;
pub mod naming;
pub mod normalize;
pub mod punctuated;
pub mod scope;
pub mod syntax;
