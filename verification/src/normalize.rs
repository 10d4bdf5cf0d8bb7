//! The whole normalization: the header of an `impl` block and the
//! signatures of its functions.

use crate::assign::AssignLifetimes;
use crate::collect::LifetimeCollector;
use crate::elide::ElideOutputLifetime;
use crate::generics::Generics;
use crate::lifetime::Lifetime;
use crate::naming::{always, fresh_idents};
use crate::punctuated::{args_get, args_len, args_of};
use crate::scope::{
    declared, filled, filled_args, lemma_met_both, lifetimes, met, pending, pending_args,
    Collected,
};
use crate::syntax::{
    arg_views, FnArg, FnArgView, ImplItemFn, ItemImpl, ItemImplView, Signature, SigView,
    TreeView, TypeTree,
};
use syn::punctuated::Punctuated;
use syn::token::Comma;
use vstd::prelude::*;

verus! {

/// The prefix of the lifetimes declared in the header of an `impl` block.
pub open spec fn header_prefix() -> Seq<char> {
    seq!['i']
}

/// The prefix of the lifetimes declared in a signature.
pub open spec fn signature_prefix() -> Seq<char> {
    seq!['f']
}

/// The lifetime with which a method borrows `self`: that of the shorthand
/// `&'a self` where the first input is such a receiver, else that of the
/// receiver's type where this is a reference with a lifetime.
pub open spec fn receiver_lifetime(inputs: Seq<FnArgView>) -> Option<Seq<char>> {
    if inputs.len() > 0 && inputs[0] is Receiver {
        let receiver = inputs[0]->Receiver_0;
        match receiver.reference {
            Some(Some(ident)) => Some(ident),
            _ => match receiver.ty {
                TreeView::Reference(lifetime, _) => lifetime,
                _ => None,
            },
        }
    } else {
        None
    }
}

/// The lifetimes in scope that are written in those of the first `n` inputs
/// that are no receiver.
pub open spec fn typed_lifetimes(inputs: Seq<FnArgView>, n: nat) -> Seq<Seq<char>>
    decreases n,
{
    if n == 0 || n > inputs.len() {
        Seq::empty()
    } else {
        typed_lifetimes(inputs, (n - 1) as nat) + match inputs[n - 1] {
            FnArgView::Typed(tree) => lifetimes(tree),
            FnArgView::Receiver(_) => Seq::empty(),
        }
    }
}

/// The lifetime of the inputs that are no receiver, where exactly one is
/// written in them, and written once.
pub open spec fn single_input_lifetime(inputs: Seq<FnArgView>) -> Option<Seq<char>> {
    match met(Collected::Empty, typed_lifetimes(inputs, inputs.len())) {
        Collected::Single(ident) => Some(ident),
        _ => None,
    }
}

/// The lifetime that the lifetimes left out of the return type stand for:
/// the receiver's, else the single lifetime of the other inputs, else none.
pub open spec fn elided_output_lifetime(inputs: Seq<FnArgView>) -> Option<Seq<char>> {
    match receiver_lifetime(inputs) {
        Some(ident) => Some(ident),
        None => single_input_lifetime(inputs),
    }
}

/// The return type `output` under the inputs `inputs`, which have their
/// lifetimes named already.
pub open spec fn elided_output(inputs: Seq<FnArgView>, output: Option<TreeView>) -> Option<
    TreeView,
> {
    match output {
        None => None,
        Some(tree) => match elided_output_lifetime(inputs) {
            Some(ident) => Some(filled(tree, always(ident), 0)),
            None => Some(tree),
        },
    }
}

/// The normal form of a signature.
pub open spec fn normalized(signature: SigView) -> SigView {
    let inputs = filled_args(signature.inputs, fresh_idents(signature_prefix()), 0);
    SigView {
        generics: declared(
            signature.generics,
            signature_prefix(),
            0,
            pending_args(signature.inputs, signature.inputs.len()),
        ),
        inputs,
        output: elided_output(inputs, signature.output),
    }
}

/// The normal form of an `impl` block.
pub open spec fn normalized_impl(block: ItemImplView) -> ItemImplView {
    ItemImplView {
        generics: declared(block.generics, header_prefix(), 0, pending(block.self_ty)),
        self_ty: filled(block.self_ty, fresh_idents(header_prefix()), 0),
        items: Seq::new(block.items.len(), |i: int| normalized(block.items[i])),
    }
}

/// The identifier of an optional borrowed lifetime.
pub open spec fn ident_of_ref(lifetime: Option<&Lifetime>) -> Option<Seq<char>> {
    match lifetime {
        Some(l) => Some(l@),
        None => None,
    }
}

/// The lifetime with which a method borrows `self`, if it does.
pub fn find_receiver_lifetime(inputs: &Punctuated<FnArg, Comma>) -> (lifetime: Option<
    &Lifetime,
>)
    ensures
        ident_of_ref(lifetime) == receiver_lifetime(arg_views(args_of(*inputs))),
{
    match args_get(inputs, 0) {
        Some(FnArg::Receiver(receiver)) => {
            match &receiver.reference {
                Some(Some(lifetime)) => Some(lifetime),
                _ => match &receiver.ty {
                    TypeTree::Reference(reference) => reference.lifetime.as_ref(),
                    _ => None,
                },
            }
        },
        _ => None,
    }
}

/// The lifetime of the inputs that are no receiver, if exactly one is
/// written in them, and written once.
pub fn find_single_input_lifetime(inputs: &Punctuated<FnArg, Comma>) -> (lifetime: Option<
    &Lifetime,
>)
    ensures
        ident_of_ref(lifetime) == single_input_lifetime(arg_views(args_of(*inputs))),
{
    let ghost views = arg_views(args_of(*inputs));
    let mut collector = LifetimeCollector::Empty;
    let n = args_len(inputs);
    let mut i: usize = 0;
    while i < n
        invariant
            i <= n,
            n == args_of(*inputs).len(),
            views == arg_views(args_of(*inputs)),
            collector@ == met(Collected::Empty, typed_lifetimes(views, i as nat)),
        decreases n - i,
    {
        match args_get(inputs, i) {
            Some(FnArg::Typed(tree)) => {
                proof {
                    lemma_met_both(
                        Collected::Empty,
                        typed_lifetimes(views, i as nat),
                        lifetimes(tree@),
                    );
                }
                collector.visit_type(tree);
            },
            _ => {
                assert(typed_lifetimes(views, i as nat) + Seq::<Seq<char>>::empty()
                    =~= typed_lifetimes(views, i as nat));
            },
        }
        i = i + 1;
    }
    match collector {
        LifetimeCollector::Single(lifetime) => Some(lifetime),
        _ => None,
    }
}

/// The lifetime that the lifetimes left out of the return type stand for.
pub fn find_elided_output_lifetime(inputs: &Punctuated<FnArg, Comma>) -> (lifetime: Option<
    &Lifetime,
>)
    ensures
        ident_of_ref(lifetime) == elided_output_lifetime(arg_views(args_of(*inputs))),
{
    match find_receiver_lifetime(inputs) {
        Some(lifetime) => Some(lifetime),
        None => find_single_input_lifetime(inputs),
    }
}

/// Names the lifetimes of the self type of an `impl` header and declares
/// them in the generics of the header.
pub fn normalize_header(generics: &mut Generics, self_ty: &mut TypeTree)
    ensures
        final(generics)@ == declared(old(generics)@, header_prefix(), 0, pending(old(self_ty)@)),
        final(self_ty)@ == filled(old(self_ty)@, fresh_idents(header_prefix()), 0),
{
    proof {
        reveal_strlit("i");
        assert("i"@ =~= header_prefix());
    }
    let mut visitor = AssignLifetimes::new("i", generics);
    visitor.visit_type_mut(self_ty);
}

/// The pass that brings `impl` blocks and signatures into normal form.
#[derive(Default)]
pub struct NormalizeLifetimes;

impl NormalizeLifetimes {
    /// Normalizes the header of an `impl` block and the signatures of its
    /// functions.
    pub fn visit_item_impl_mut(&mut self, impl_block: &mut ItemImpl)
        ensures
            final(impl_block)@ == normalized_impl(old(impl_block)@),
    {
        normalize_header(&mut impl_block.generics, &mut impl_block.self_ty);
        let n = impl_block.items.len();
        let mut i: usize = 0;
        while i < n
            invariant
                i <= n,
                n == impl_block.items.len(),
                n == old(impl_block).items.len(),
                impl_block.generics@ == normalized_impl(old(impl_block)@).generics,
                impl_block.self_ty@ == normalized_impl(old(impl_block)@).self_ty,
                forall|j: int| i <= j < n ==> impl_block.items@[j] == old(impl_block).items@[j],
                forall|j: int|
                    0 <= j < i ==> (#[trigger] impl_block.items@[j]).sig@ == normalized(
                        old(impl_block).items@[j].sig@,
                    ),
            decreases n - i,
        {
            self.visit_impl_item_fn_mut(&mut impl_block.items[i]);
            i = i + 1;
        }
        assert(impl_block@.items =~= normalized_impl(old(impl_block)@).items);
    }

    /// Normalizes the signature of a function of an `impl` block. The body
    /// of the function is not looked at.
    pub fn visit_impl_item_fn_mut(&mut self, fn_item: &mut ImplItemFn)
        ensures
            final(fn_item).sig@ == normalized(old(fn_item).sig@),
    {
        self.visit_signature_mut(&mut fn_item.sig);
    }

    /// Normalizes a signature: names the lifetimes of its inputs, declares
    /// them in its generics, and writes the elided lifetime, where the
    /// inputs determine one, into the slots of the return type.
    pub fn visit_signature_mut(&mut self, signature: &mut Signature)
        ensures
            final(signature)@ == normalized(old(signature)@),
    {
        proof {
            reveal_strlit("f");
            assert("f"@ =~= signature_prefix());
        }
        let mut visitor = AssignLifetimes::new("f", &mut signature.generics);
        visitor.visit_inputs_mut(&mut signature.inputs);

        match &mut signature.output {
            None => {},
            Some(return_type) => {
                match find_elided_output_lifetime(&signature.inputs) {
                    None => {},
                    Some(elided_lifetime) => {
                        let mut elider = ElideOutputLifetime { elided_lifetime };
                        elider.visit_type_mut(return_type);
                    },
                }
            },
        }
    }
}

} // verus!
