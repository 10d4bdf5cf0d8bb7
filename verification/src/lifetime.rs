//! Lifetimes as the passes see them: an identifier, and whether it is the
//! anonymous one.

use crate::naming::{anonymous_ident, is_anonymous_ident};
use vstd::prelude::*;
use vstd::string::*;

verus! {

/// A lifetime, held by its identifier: `a` for `'a`, `_` for `'_`.
#[derive(Debug, PartialEq, Eq, Hash)]
pub struct Lifetime {
    pub ident: String,
}

impl View for Lifetime {
    type V = Seq<char>;

    open spec fn view(&self) -> Seq<char> {
        self.ident@
    }
}

impl Clone for Lifetime {
    fn clone(&self) -> (copy: Self)
        ensures
            copy@ == self@,
    {
        Lifetime { ident: self.ident.clone() }
    }
}

impl Lifetime {
    /// The lifetime with the identifier `ident`.
    pub fn new(ident: &str) -> (lifetime: Self)
        ensures
            lifetime@ == ident@,
    {
        Lifetime { ident: String::from_str(ident) }
    }

    /// Whether this is the anonymous lifetime `'_`.
    pub open spec fn is_anonymous_spec(&self) -> bool {
        self@ == anonymous_ident()
    }

    /// Whether this is the anonymous lifetime `'_`.
    #[verifier::when_used_as_spec(is_anonymous_spec)]
    pub fn is_anonymous(&self) -> (anonymous: bool)
        ensures
            anonymous == self.is_anonymous_spec(),
    {
        is_anonymous_ident(self.ident.as_str())
    }

    /// The lifetime as it is written in source, apostrophe first.
    pub fn to_source(&self) -> (text: String)
        ensures
            text@ == seq!['\''] + self@,
    {
        proof {
            reveal_strlit("'");
        }
        let mut text = String::from_str("'");
        text.append(self.ident.as_str());
        assert("'"@ =~= seq!['\'']);
        text
    }
}

/// The identifier of an optional lifetime.
pub open spec fn ident_of(lifetime: Option<Lifetime>) -> Option<Seq<char>> {
    match lifetime {
        Some(l) => Some(l@),
        None => None,
    }
}

} // verus!
