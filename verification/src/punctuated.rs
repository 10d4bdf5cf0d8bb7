//! The punctuated sequences of `syn`, which hold the parameters of generics
//! and the inputs of signatures.
//!
//! The verifier sees nothing inside a sequence. What this module states of
//! `syn`'s methods is taken on trust, from their source.

use crate::generics::GenericParam;
use crate::syntax::FnArg;
use syn::punctuated::Punctuated;
use syn::token::Comma;
use vstd::prelude::*;

verus! {

/// `syn::punctuated::Punctuated`, a sequence of nodes with the punctuation
/// between them.
#[verifier::external_type_specification]
#[verifier::external_body]
#[verifier::reject_recursive_types(T)]
#[verifier::reject_recursive_types(P)]
pub struct ExPunctuated<T, P>(Punctuated<T, P>);

/// `syn::token::Comma`, the punctuation of generics and of inputs.
#[verifier::external_type_specification]
#[verifier::external_body]
pub struct ExComma(Comma);

/// The nodes of a punctuated list of parameters, in order, without the
/// commas.
pub uninterp spec fn params_of(params: Punctuated<GenericParam, Comma>) -> Seq<GenericParam>;

/// The nodes of a punctuated list of inputs, in order, without the commas.
pub uninterp spec fn args_of(args: Punctuated<FnArg, Comma>) -> Seq<FnArg>;

/// `Punctuated::len` on parameters: the number of nodes, the punctuation
/// not counted.
#[verifier::external_body]
pub(crate) fn params_len(params: &Punctuated<GenericParam, Comma>) -> (len: usize)
    ensures
        len == params_of(*params).len(),
{
    params.len()
}

/// `Punctuated::insert` on parameters: `value` stands at `index` afterwards
/// and the nodes from there on have moved up by one. It panics on an index
/// beyond the length, which the precondition leaves out.
#[verifier::external_body]
pub(crate) fn params_insert(
    params: &mut Punctuated<GenericParam, Comma>,
    index: usize,
    value: GenericParam,
)
    requires
        index <= params_of(*old(params)).len(),
    ensures
        params_of(*final(params)) == params_of(*old(params)).insert(index as int, value),
{
    params.insert(index, value)
}

/// `Punctuated::len` on inputs: the number of nodes, the punctuation not
/// counted.
#[verifier::external_body]
pub(crate) fn args_len(args: &Punctuated<FnArg, Comma>) -> (len: usize)
    ensures
        len == args_of(*args).len(),
{
    args.len()
}

/// `Punctuated::get` on inputs: the node at `index`, and `None` from the
/// length on.
#[verifier::external_body]
pub(crate) fn args_get(args: &Punctuated<FnArg, Comma>, index: usize) -> (arg: Option<&FnArg>)
    ensures
        index < args_of(*args).len() ==> arg == Some(&args_of(*args)[index as int]),
        index >= args_of(*args).len() ==> arg.is_none(),
{
    args.get(index)
}

/// `Punctuated::get_mut` on inputs: the node at `index`, to be changed in
/// place, and `None` from the length on. What is written through the
/// borrow is the node at `index` afterwards, and no other node changes.
#[verifier::external_body]
pub(crate) fn args_get_mut(args: &mut Punctuated<FnArg, Comma>, index: usize) -> (arg: Option<
    &mut FnArg,
>)
    ensures
        index < args_of(*old(args)).len() ==> arg.is_some() && *arg.unwrap() == args_of(
            *old(args),
        )[index as int] && args_of(*final(args)) == args_of(*old(args)).update(
            index as int,
            *final(arg.unwrap()),
        ),
        index >= args_of(*old(args)).len() ==> arg.is_none() && args_of(*final(args)) == args_of(
            *old(args),
        ),
{
    args.get_mut(index)
}

} // verus!
