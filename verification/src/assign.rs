//! The pass that names the lifetimes of the inputs.

use crate::generics::{GenericParam, GenericParamView, Generics};
use crate::lifetime::Lifetime;
use crate::naming::{fresh_ident, fresh_idents, make_fresh_ident};
use crate::punctuated::{args_get_mut, args_len, args_of, params_insert, params_len};
use crate::scope::{
    declared, filled, filled_arg, filled_args, filled_receiver, lemma_declared_more,
    lemma_declared_next, lemma_declared_none, pending, pending_arg, pending_args, pending_in,
    pending_receiver,
};
use crate::syntax::{
    arg_views, lemma_view_of_parts, tree_views, FnArg, Receiver, TreeView, TypeReference,
    TypeTree,
};
use syn::punctuated::Punctuated;
use syn::token::Comma;
use vstd::prelude::*;

verus! {

broadcast use vstd::std_specs::vec::group_vec_axioms;

/// Gives each slot that it meets a lifetime of its own and declares that
/// lifetime in the generics, at the position of the slot's number.
///
/// The visitor borrows the generics that it declares in. The contract of
/// each method says what the generics hold when the method returns, and
/// that `generics` is still the same borrow: what the lender finds in the
/// end is what the visitor has left there.
pub struct AssignLifetimes<'a> {
    pub prefix: &'static str,
    pub generics: &'a mut Generics,
    pub next_lifetime_index: usize,
}

impl<'a> AssignLifetimes<'a> {
    /// The lifetimes named so far are all declared.
    pub open spec fn wf(&self) -> bool {
        self.next_lifetime_index <= self.generics@.len()
    }

    /// The names that this pass gives to its slots, by their numbers.
    pub open spec fn names(&self) -> spec_fn(nat) -> Seq<char> {
        fresh_idents(self.prefix@)
    }

    /// `self` is what `before` has become by naming `count` more slots.
    pub open spec fn has_named(&self, before: &Self, count: nat) -> bool {
        &&& self.wf()
        &&& self.prefix == before.prefix
        &&& self.next_lifetime_index == before.next_lifetime_index + count
        &&& self.generics@ == declared(
            before.generics@,
            before.prefix@,
            before.next_lifetime_index as nat,
            count,
        )
    }

    /// A pass that has named nothing yet.
    pub fn new(prefix: &'static str, generics: &'a mut Generics) -> (visitor: Self)
        ensures
            visitor.wf(),
            visitor.prefix == prefix,
            visitor.next_lifetime_index == 0,
            *visitor.generics == *old(generics),
            *final(generics) == *final(visitor.generics),
    {
        Self { prefix, generics, next_lifetime_index: 0 }
    }

    /// Makes the lifetime of the next slot and declares it.
    pub fn next_lifetime(&mut self) -> (lifetime: Lifetime)
        requires
            old(self).wf(),
        ensures
            final(self).has_named(old(self), 1),
            lifetime@ == fresh_ident(old(self).prefix@, old(self).next_lifetime_index as nat),
            *final(final(self).generics) == *final(old(self).generics),
    {
        let index = self.next_lifetime_index;
        let lifetime = Lifetime { ident: make_fresh_ident(self.prefix, index) };
        proof {
            lemma_declared_none(self.generics@, self.prefix@, index as nat);
            lemma_declared_next(self.generics@, self.prefix@, index as nat, 0);
        }
        let ghost before = self.generics@;
        params_insert(&mut self.generics.params, index, GenericParam::Lifetime(lifetime.clone()));
        assert(self.generics@ =~= before.insert(index as int, GenericParamView::Lifetime(lifetime@)));
        // The list holds the new parameter, so the counter cannot overflow.
        let declared = params_len(&self.generics.params);
        assert(index < declared);
        self.next_lifetime_index = index + 1;
        lifetime
    }

    /// Names `lifetime` where it is anonymous.
    pub fn visit_lifetime_mut(&mut self, lifetime: &mut Lifetime)
        requires
            old(self).wf(),
        ensures
            final(self).has_named(old(self), pending(TreeView::Lifetime(old(lifetime)@))),
            TreeView::Lifetime(final(lifetime)@) == filled(
                TreeView::Lifetime(old(lifetime)@),
                old(self).names(),
                old(self).next_lifetime_index as nat,
            ),
            *final(final(self).generics) == *final(old(self).generics),
    {
        if lifetime.is_anonymous() {
            *lifetime = self.next_lifetime();
        } else {
            proof {
                lemma_declared_none(
                    self.generics@,
                    self.prefix@,
                    self.next_lifetime_index as nat,
                );
            }
        }
    }

    /// Names the slots of a reference: its own lifetime where that is
    /// anonymous or left out, then those of what it points to.
    pub fn visit_type_reference_mut(&mut self, reference: &mut TypeReference)
        requires
            old(self).wf(),
        ensures
            final(self).has_named(old(self), pending(old(reference)@)),
            final(reference)@ == filled(
                old(reference)@,
                old(self).names(),
                old(self).next_lifetime_index as nat,
            ),
            *final(final(self).generics) == *final(old(self).generics),
        decreases *old(reference),
    {
        let ghost first = self.next_lifetime_index as nat;
        let ghost before = self.generics@;
        proof {
            lemma_declared_none(before, self.prefix@, first);
        }
        match &mut reference.lifetime {
            Some(lifetime) => {
                self.visit_lifetime_mut(lifetime);
            },
            None => {
                reference.lifetime = Some(self.next_lifetime());
            },
        }
        let ghost own = (self.next_lifetime_index - first) as nat;
        self.visit_type_mut(&mut *reference.elem);
        proof {
            lemma_declared_more(before, self.prefix@, first, own, pending(old(reference).elem@));
        }
    }

    /// Names the slots of `tree`. What stands below a boundary is left as
    /// it is.
    pub fn visit_type_mut(&mut self, tree: &mut TypeTree)
        requires
            old(self).wf(),
        ensures
            final(self).has_named(old(self), pending(old(tree)@)),
            final(tree)@ == filled(
                old(tree)@,
                old(self).names(),
                old(self).next_lifetime_index as nat,
            ),
            *final(final(self).generics) == *final(old(self).generics),
        decreases *old(tree),
    {
        let ghost first = self.next_lifetime_index as nat;
        let ghost before = self.generics@;
        proof {
            lemma_declared_none(before, self.prefix@, first);
            lemma_view_of_parts(*tree);
        }
        match tree {
            TypeTree::Lifetime(lifetime) => {
                self.visit_lifetime_mut(lifetime);
            },
            TypeTree::Reference(reference) => {
                self.visit_type_reference_mut(reference);
            },
            TypeTree::Composite(parts) => {
                let ghost old_parts = parts@;
                let ghost old_views = tree_views(old_parts);
                let n = parts.len();
                let mut i: usize = 0;
                while i < n
                    invariant
                        i <= n,
                        n == parts.len(),
                        old_parts.len() == n,
                        old_views == tree_views(old_parts),
                        *old(tree) is Composite && old(tree)->Composite_0@ == old_parts,
                        first <= before.len(),
                        first == old(self).next_lifetime_index,
                        before == old(self).generics@,
                        self.wf(),
                        self.prefix == old(self).prefix,
                        self.next_lifetime_index == first + pending_in(old_views, i as nat),
                        self.generics@ == declared(
                            before,
                            self.prefix@,
                            first,
                            pending_in(old_views, i as nat),
                        ),
                        *final(self.generics) == *final(old(self).generics),
                        forall|j: int| i <= j < n ==> parts@[j] == old_parts[j],
                        forall|j: int|
                            0 <= j < i ==> (#[trigger] parts@[j])@ == filled(
                                old_views[j],
                                old(self).names(),
                                first + pending_in(old_views, j as nat),
                            ),
                    decreases n - i,
                {
                    self.visit_type_mut(&mut parts[i]);
                    proof {
                        lemma_declared_more(
                            before,
                            self.prefix@,
                            first,
                            pending_in(old_views, i as nat),
                            pending(old_views[i as int]),
                        );
                    }
                    i = i + 1;
                }
                proof {
                    assert(tree_views(parts@) =~= filled(
                        old(tree)@,
                        old(self).names(),
                        first,
                    )->Composite_0);
                }
            },
            TypeTree::Opaque(_, _) => {},
        }
        proof {
            lemma_view_of_parts(*tree);
        }
    }

    /// Names the slots of a receiver.
    ///
    /// A receiver with its type written out, `self: T`, is walked as any
    /// type. The shorthand `&self` or `&'_ self` over a reference type gets
    /// one new lifetime, written both in the shorthand and in the type.
    /// Any other receiver is left as it is.
    pub fn visit_receiver_mut(&mut self, receiver: &mut Receiver)
        requires
            old(self).wf(),
        ensures
            final(self).has_named(old(self), pending_receiver(old(receiver)@)),
            final(receiver)@ == filled_receiver(
                old(receiver)@,
                old(self).names(),
                old(self).next_lifetime_index as nat,
            ),
            *final(final(self).generics) == *final(old(self).generics),
    {
        proof {
            lemma_declared_none(self.generics@, self.prefix@, self.next_lifetime_index as nat);
        }
        if receiver.colon_token {
            self.visit_type_mut(&mut receiver.ty);
            return ;
        }
        match &mut receiver.reference {
            None => {},
            Some(lifetime) => {
                let named = match lifetime {
                    Some(written) => !written.is_anonymous(),
                    None => false,
                };
                if !named {
                    match &mut receiver.ty {
                        TypeTree::Reference(receiver_ty) => {
                            let new_lifetime = self.next_lifetime();
                            *lifetime = Some(new_lifetime.clone());
                            receiver_ty.lifetime = Some(new_lifetime);
                        },
                        _ => {},
                    }
                }
            },
        }
    }

    /// Names the slots of an input.
    pub fn visit_fn_arg_mut(&mut self, arg: &mut FnArg)
        requires
            old(self).wf(),
        ensures
            final(self).has_named(old(self), pending_arg(old(arg)@)),
            final(arg)@ == filled_arg(
                old(arg)@,
                old(self).names(),
                old(self).next_lifetime_index as nat,
            ),
            *final(final(self).generics) == *final(old(self).generics),
    {
        match arg {
            FnArg::Receiver(receiver) => self.visit_receiver_mut(receiver),
            FnArg::Typed(tree) => self.visit_type_mut(tree),
        }
    }

    /// Names the slots of the inputs of a signature, from the first input
    /// to the last.
    pub fn visit_inputs_mut(&mut self, inputs: &mut Punctuated<FnArg, Comma>)
        requires
            old(self).wf(),
        ensures
            final(self).has_named(
                old(self),
                pending_args(arg_views(args_of(*old(inputs))), args_of(*old(inputs)).len()),
            ),
            arg_views(args_of(*final(inputs))) == filled_args(
                arg_views(args_of(*old(inputs))),
                old(self).names(),
                old(self).next_lifetime_index as nat,
            ),
            *final(final(self).generics) == *final(old(self).generics),
    {
        let ghost first = self.next_lifetime_index as nat;
        let ghost before = self.generics@;
        let ghost old_args = args_of(*inputs);
        let ghost old_views = arg_views(old_args);
        proof {
            lemma_declared_none(before, self.prefix@, first);
        }
        let n = args_len(inputs);
        let mut i: usize = 0;
        while i < n
            invariant
                i <= n,
                n == args_of(*inputs).len(),
                n == old_args.len(),
                old_args == args_of(*old(inputs)),
                old_views == arg_views(old_args),
                first <= before.len(),
                first == old(self).next_lifetime_index,
                before == old(self).generics@,
                self.wf(),
                self.prefix == old(self).prefix,
                self.next_lifetime_index == first + pending_args(old_views, i as nat),
                self.generics@ == declared(
                    before,
                    self.prefix@,
                    first,
                    pending_args(old_views, i as nat),
                ),
                *final(self.generics) == *final(old(self).generics),
                forall|j: int| i <= j < n ==> args_of(*inputs)[j] == old_args[j],
                forall|j: int|
                    0 <= j < i ==> (#[trigger] args_of(*inputs)[j])@ == filled_arg(
                        old_views[j],
                        old(self).names(),
                        first + pending_args(old_views, j as nat),
                    ),
            decreases n - i,
        {
            match args_get_mut(inputs, i) {
                Some(arg) => {
                    self.visit_fn_arg_mut(arg);
                },
                None => {},
            }
            proof {
                lemma_declared_more(
                    before,
                    self.prefix@,
                    first,
                    pending_args(old_views, i as nat),
                    pending_arg(old_views[i as int]),
                );
            }
            i = i + 1;
        }
        proof {
            assert(arg_views(args_of(*inputs)) =~= filled_args(
                old_views,
                old(self).names(),
                first,
            ));
        }
    }
}

} // verus!
