//! The pass that tells whether the inputs hold exactly one lifetime.

use crate::lifetime::Lifetime;
use crate::scope::{lemma_met_both, lifetimes, lifetimes_in, met, Collected};
use crate::syntax::{lemma_view_of_parts, tree_views, TypeReference, TypeTree};
use vstd::prelude::*;

verus! {

broadcast use vstd::std_specs::vec::group_vec_axioms;

/// What has been met of the lifetimes in scope: none, exactly one, or more
/// than one. A lifetime that is written twice is met twice.
#[derive(Debug, PartialEq, Eq)]
pub enum LifetimeCollector<'a> {
    Empty,
    Single(&'a Lifetime),
    Multiple,
}

impl<'a> View for LifetimeCollector<'a> {
    type V = Collected;

    open spec fn view(&self) -> Collected {
        match self {
            LifetimeCollector::Empty => Collected::Empty,
            LifetimeCollector::Single(lifetime) => Collected::Single(lifetime@),
            LifetimeCollector::Multiple => Collected::Multiple,
        }
    }
}

impl<'a> LifetimeCollector<'a> {
    /// Takes note of one lifetime.
    pub fn visit_lifetime(&mut self, lifetime: &'a Lifetime)
        ensures
            final(self)@ == met(old(self)@, seq![lifetime@]),
    {
        match self {
            Self::Empty => {
                *self = Self::Single(lifetime);
            },
            Self::Single(_) => {
                *self = Self::Multiple;
            },
            Self::Multiple => {},
        }
    }

    /// Takes note of the lifetimes of a reference: its own where one is
    /// written, then those of what it points to.
    pub fn visit_type_reference(&mut self, reference: &'a TypeReference)
        ensures
            final(self)@ == met(old(self)@, lifetimes(reference@)),
        decreases reference,
    {
        match &reference.lifetime {
            Some(lifetime) => {
                self.visit_lifetime(lifetime);
                proof {
                    lemma_met_both(old(self)@, seq![lifetime@], lifetimes(reference.elem@));
                }
            },
            None => {},
        }
        self.visit_type(&*reference.elem);
    }

    /// Takes note of the lifetimes in scope in `tree`. What stands below a
    /// boundary is not looked at.
    pub fn visit_type(&mut self, tree: &'a TypeTree)
        ensures
            final(self)@ == met(old(self)@, lifetimes(tree@)),
        decreases tree,
    {
        proof {
            lemma_view_of_parts(*tree);
        }
        match tree {
            TypeTree::Lifetime(lifetime) => {
                self.visit_lifetime(lifetime);
            },
            TypeTree::Reference(reference) => {
                self.visit_type_reference(reference);
            },
            TypeTree::Composite(parts) => {
                let ghost views = tree_views(parts@);
                let n = parts.len();
                let mut i: usize = 0;
                while i < n
                    invariant
                        i <= n,
                        n == parts.len(),
                        views == tree_views(parts@),
                        tree matches TypeTree::Composite(p) && p == parts,
                        self@ == met(old(self)@, lifetimes_in(views, i as nat)),
                    decreases n - i,
                {
                    proof {
                        lemma_met_both(
                            old(self)@,
                            lifetimes_in(views, i as nat),
                            lifetimes(views[i as int]),
                        );
                    }
                    self.visit_type(&parts[i]);
                    i = i + 1;
                }
            },
            TypeTree::Opaque(_, _) => {},
        }
    }
}

} // verus!
