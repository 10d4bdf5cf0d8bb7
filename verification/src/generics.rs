//! The generics of a declaration: an ordered list of parameters.

use crate::lifetime::Lifetime;
use crate::punctuated::params_of;
use syn::punctuated::Punctuated;
use syn::token::Comma;
use vstd::prelude::*;

verus! {

/// One parameter of a generics list.
#[derive(Clone, Debug, PartialEq, Eq, Hash)]
pub enum GenericParam {
    /// A lifetime parameter, `'a`.
    Lifetime(Lifetime),
    /// A type parameter, by its name.
    Type(String),
    /// A const parameter, by its name.
    Const(String),
}

/// A parameter with its texts as sequences of characters.
pub enum GenericParamView {
    Lifetime(Seq<char>),
    Type(Seq<char>),
    Const(Seq<char>),
}

impl View for GenericParam {
    type V = GenericParamView;

    open spec fn view(&self) -> GenericParamView {
        match self {
            GenericParam::Lifetime(l) => GenericParamView::Lifetime(l@),
            GenericParam::Type(name) => GenericParamView::Type(name@),
            GenericParam::Const(name) => GenericParamView::Const(name@),
        }
    }
}

/// The generics of an `impl` header or of a signature.
#[derive(Debug, PartialEq, Eq, Hash)]
pub struct Generics {
    pub params: Punctuated<GenericParam, Comma>,
}

impl View for Generics {
    type V = Seq<GenericParamView>;

    open spec fn view(&self) -> Seq<GenericParamView> {
        params_of(self.params).map_values(|p: GenericParam| p@)
    }
}

} // verus!
