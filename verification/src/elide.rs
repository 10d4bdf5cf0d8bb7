//! The pass that writes the elided lifetime into the return type.

use crate::lifetime::Lifetime;
use crate::naming::always;
use crate::scope::{filled, lemma_filled_agrees, pending_in};
use crate::syntax::{lemma_view_of_parts, tree_views, TreeView, TypeReference, TypeTree};
use vstd::prelude::*;

verus! {

broadcast use vstd::std_specs::vec::group_vec_axioms;

/// Writes one lifetime into every slot that it meets.
pub struct ElideOutputLifetime<'a> {
    pub elided_lifetime: &'a Lifetime,
}

impl<'a> ElideOutputLifetime<'a> {
    /// The naming of this pass: every slot gets the elided lifetime.
    pub open spec fn names(&self) -> spec_fn(nat) -> Seq<char> {
        always(self.elided_lifetime@)
    }

    /// Replaces `lifetime` by the elided lifetime where it is anonymous.
    pub fn visit_lifetime_mut(&mut self, lifetime: &mut Lifetime)
        ensures
            *final(self) == *old(self),
            TreeView::Lifetime(final(lifetime)@) == filled(
                TreeView::Lifetime(old(lifetime)@),
                old(self).names(),
                0,
            ),
    {
        if lifetime.is_anonymous() {
            *lifetime = self.elided_lifetime.clone();
        }
    }

    /// Fills the slots of a reference: its own lifetime where that is
    /// anonymous or left out, then those of what it points to.
    pub fn visit_type_reference_mut(&mut self, reference: &mut TypeReference)
        ensures
            *final(self) == *old(self),
            final(reference)@ == filled(old(reference)@, old(self).names(), 0),
        decreases *old(reference),
    {
        match &mut reference.lifetime {
            Some(lifetime) => {
                self.visit_lifetime_mut(lifetime);
            },
            None => {
                reference.lifetime = Some(self.elided_lifetime.clone());
            },
        }
        self.visit_type_mut(&mut *reference.elem);
        proof {
            lemma_filled_agrees(old(reference).elem@, self.names(), 0, self.names(), 1);
        }
    }

    /// Fills the slots of `tree`. What stands below a boundary is left as
    /// it is.
    pub fn visit_type_mut(&mut self, tree: &mut TypeTree)
        ensures
            *final(self) == *old(self),
            final(tree)@ == filled(old(tree)@, old(self).names(), 0),
        decreases *old(tree),
    {
        proof {
            lemma_view_of_parts(*tree);
        }
        match tree {
            TypeTree::Lifetime(lifetime) => {
                self.visit_lifetime_mut(lifetime);
            },
            TypeTree::Reference(reference) => {
                self.visit_type_reference_mut(reference);
            },
            TypeTree::Composite(parts) => {
                let ghost old_parts = parts@;
                let ghost old_views = tree_views(old_parts);
                let n = parts.len();
                let mut i: usize = 0;
                while i < n
                    invariant
                        i <= n,
                        n == parts.len(),
                        old_parts.len() == n,
                        old_views == tree_views(old_parts),
                        *old(tree) is Composite && old(tree)->Composite_0@ == old_parts,
                        *self == *old(self),
                        forall|j: int| i <= j < n ==> parts@[j] == old_parts[j],
                        forall|j: int|
                            0 <= j < i ==> (#[trigger] parts@[j])@ == filled(
                                old_views[j],
                                old(self).names(),
                                pending_in(old_views, j as nat),
                            ),
                    decreases n - i,
                {
                    self.visit_type_mut(&mut parts[i]);
                    proof {
                        lemma_filled_agrees(
                            old_views[i as int],
                            self.names(),
                            0,
                            self.names(),
                            pending_in(old_views, i as nat),
                        );
                    }
                    i = i + 1;
                }
                proof {
                    assert(tree_views(parts@) =~= filled(
                        old(tree)@,
                        old(self).names(),
                        0,
                    )->Composite_0);
                }
            },
            TypeTree::Opaque(_, _) => {},
        }
        proof {
            lemma_view_of_parts(*tree);
        }
    }
}

} // verus!
