//! What holds of the normal form of signatures and `impl` headers.

use crate::generics::GenericParamView;
use crate::laws::{
    law_no_slot_survives_naming, lemma_filled_leaves_no_slot, lemma_filled_nothing,
};
use crate::naming::{always, anonymous_ident, fresh_ident, fresh_idents, lemma_fresh_ident_named};
use crate::normalize::{
    elided_output_lifetime, header_prefix, normalized, normalized_impl, receiver_lifetime,
    signature_prefix, single_input_lifetime, typed_lifetimes,
};
use crate::scope::{
    filled, filled_arg, filled_args, lemma_filled_agrees, lifetimes, pending, pending_arg,
    pending_args, pending_in,
};
use crate::syntax::{FnArgView, ItemImplView, ReceiverView, SigView, TreeView};
use vstd::prelude::*;

verus! {

/// A reference has a lifetime in scope once its slots are filled.
pub proof fn lemma_filled_reference_has_lifetime(
    lifetime: Option<Seq<char>>,
    referent: TreeView,
    names: spec_fn(nat) -> Seq<char>,
    first: nat,
)
    ensures
        lifetimes(filled(TreeView::Reference(lifetime, Box::new(referent)), names, first)).len()
            >= 1,
{
}

/// Single input: where the only input is a reference with a named lifetime
/// whose referent mentions no lifetime in scope, an anonymous lifetime of a
/// returned reference becomes the lifetime of the input.
pub proof fn law_single_input_elision(
    signature: SigView,
    named: Seq<char>,
    referent: TreeView,
    target: TreeView,
)
    requires
        signature.inputs == seq![
            FnArgView::Typed(TreeView::Reference(Some(named), Box::new(referent))),
        ],
        named != anonymous_ident(),
        pending(referent) == 0,
        lifetimes(referent).len() == 0,
        signature.output == Some(
            TreeView::Reference(Some(anonymous_ident()), Box::new(target)),
        ),
    ensures
        normalized(signature).inputs == signature.inputs,
        normalized(signature).output == Some(
            TreeView::Reference(Some(named), Box::new(filled(target, always(named), 0))),
        ),
{
    let names = fresh_idents(signature_prefix());
    let input = TreeView::Reference(Some(named), Box::new(referent));
    let inputs = filled_args(signature.inputs, names, 0);
    lemma_filled_nothing(referent, names, 0);
    assert(pending_args(signature.inputs, 0) == 0);
    assert(inputs[0] == filled_arg(signature.inputs[0], names, 0));
    assert(inputs =~= signature.inputs);
    assert(typed_lifetimes(inputs, 0) =~= Seq::<Seq<char>>::empty());
    assert(typed_lifetimes(inputs, 1) =~= seq![named]) by {
        assert(lifetimes(referent) =~= Seq::<Seq<char>>::empty());
        assert(lifetimes(input) =~= seq![named]);
        assert(typed_lifetimes(inputs, 1) == typed_lifetimes(inputs, 0) + lifetimes(input));
    }
    assert(single_input_lifetime(inputs) == Some(named));
    assert(elided_output_lifetime(inputs) == Some(named));
    lemma_filled_agrees(target, always(named), 1, always(named), 0);
}

/// Several inputs: where the inputs are two references, the return type is
/// left as it is, whatever their lifetimes.
pub proof fn law_multi_input_non_elision(
    signature: SigView,
    lifetime: Option<Seq<char>>,
    referent: TreeView,
    other_lifetime: Option<Seq<char>>,
    other_referent: TreeView,
)
    requires
        signature.inputs == seq![
            FnArgView::Typed(TreeView::Reference(lifetime, Box::new(referent))),
            FnArgView::Typed(TreeView::Reference(other_lifetime, Box::new(other_referent))),
        ],
    ensures
        normalized(signature).output == signature.output,
{
    let names = fresh_idents(signature_prefix());
    let inputs = filled_args(signature.inputs, names, 0);
    let skipped = pending_args(signature.inputs, 1);
    lemma_filled_reference_has_lifetime(lifetime, referent, names, 0);
    lemma_filled_reference_has_lifetime(other_lifetime, other_referent, names, skipped);
    assert(pending_args(signature.inputs, 0) == 0);
    assert(inputs[0] == filled_arg(signature.inputs[0], names, 0));
    assert(inputs[1] == filled_arg(signature.inputs[1], names, skipped));
    assert(typed_lifetimes(inputs, 0).len() == 0);
    assert(typed_lifetimes(inputs, 1).len() >= 1);
    assert(typed_lifetimes(inputs, 2).len() >= 2);
    assert(receiver_lifetime(inputs).is_none());
    assert(single_input_lifetime(inputs).is_none());
}

/// Receiver first: where a method borrows `self` and has one other input, a
/// reference, an anonymous lifetime of a returned reference becomes the
/// lifetime of the receiver, whatever the lifetime of the other input.
pub proof fn law_receiver_precedence(
    signature: SigView,
    receiver: ReceiverView,
    other_lifetime: Option<Seq<char>>,
    other_referent: TreeView,
    target: TreeView,
)
    requires
        signature.inputs == seq![
            FnArgView::Receiver(receiver),
            FnArgView::Typed(TreeView::Reference(other_lifetime, Box::new(other_referent))),
        ],
        receiver.ty is Reference,
        receiver.colon_token || receiver.reference is Some,
        signature.output == Some(
            TreeView::Reference(Some(anonymous_ident()), Box::new(target)),
        ),
    ensures
        receiver_lifetime(normalized(signature).inputs) matches Some(borrowed)
            && normalized(signature).output == Some(
            TreeView::Reference(Some(borrowed), Box::new(filled(target, always(borrowed), 0))),
        ),
        !receiver.colon_token ==> (normalized(signature).inputs[0] matches FnArgView::Receiver(
            after,
        ) && after.reference == Some(receiver_lifetime(normalized(signature).inputs))),
{
    let names = fresh_idents(signature_prefix());
    let inputs = filled_args(signature.inputs, names, 0);
    assert(pending_args(signature.inputs, 0) == 0);
    assert(inputs[0] == filled_arg(signature.inputs[0], names, 0));
    let borrowed = receiver_lifetime(inputs);
    assert(borrowed is Some);
    lemma_filled_agrees(target, always(borrowed.unwrap()), 1, always(borrowed.unwrap()), 0);
}

/// Header with one slot: where the self type of an `impl` header has one
/// slot, the header gets one new lifetime, declared before the parameters
/// that stood there, and the slot holds it.
pub proof fn law_header_self_type(block: ItemImplView)
    requires
        pending(block.self_ty) == 1,
    ensures
        normalized_impl(block).generics == block.generics.insert(
            0,
            GenericParamView::Lifetime(fresh_ident(header_prefix(), 0)),
        ),
        normalized_impl(block).self_ty == filled(
            block.self_ty,
            always(fresh_ident(header_prefix(), 0)),
            0,
        ),
        pending(normalized_impl(block).self_ty) == 0,
{
    let name = fresh_ident(header_prefix(), 0);
    assert(normalized_impl(block).generics =~= block.generics.insert(
        0,
        GenericParamView::Lifetime(name),
    ));
    lemma_filled_agrees(block.self_ty, fresh_idents(header_prefix()), 0, always(name), 0);
    lemma_fresh_ident_named(header_prefix(), 0);
    lemma_filled_leaves_no_slot(block.self_ty, always(name), 0);
}

/// Header over a reference: where the self type is a reference with an
/// anonymous lifetime and nothing else awaits a name, the reference has
/// the one lifetime that the header newly declares.
pub proof fn law_header_reference(block: ItemImplView, referent: TreeView)
    requires
        block.self_ty == TreeView::Reference(Some(anonymous_ident()), Box::new(referent)),
        pending(referent) == 0,
    ensures
        normalized_impl(block).generics == block.generics.insert(
            0,
            GenericParamView::Lifetime(fresh_ident(header_prefix(), 0)),
        ),
        normalized_impl(block).self_ty == TreeView::Reference(
            Some(fresh_ident(header_prefix(), 0)),
            Box::new(referent),
        ),
{
    law_header_self_type(block);
    lemma_filled_nothing(referent, always(fresh_ident(header_prefix(), 0)), 1);
}

/// No input of a normal form awaits a name.
pub proof fn lemma_filled_arg_leaves_no_slot(arg: FnArgView, prefix: Seq<char>, first: nat)
    ensures
        pending_arg(filled_arg(arg, fresh_idents(prefix), first)) == 0,
{
    lemma_fresh_ident_named(prefix, first);
    match arg {
        FnArgView::Receiver(receiver) => {
            law_no_slot_survives_naming(receiver.ty, prefix, first);
        },
        FnArgView::Typed(tree) => {
            law_no_slot_survives_naming(tree, prefix, first);
        },
    }
}

/// Inputs without slots have no slot between them.
pub proof fn lemma_pending_args_none(args: Seq<FnArgView>, n: nat)
    requires
        n <= args.len(),
        forall|k: int| 0 <= k < n ==> pending_arg(#[trigger] args[k]) == 0,
    ensures
        pending_args(args, n) == 0,
    decreases n,
{
    if n > 0 {
        lemma_pending_args_none(args, (n - 1) as nat);
    }
}

/// The inputs of a normal form hold no anonymous lifetime and no reference
/// without a lifetime in scope, and normalizing once more declares nothing.
pub proof fn law_inputs_are_named(signature: SigView)
    ensures
        pending_args(normalized(signature).inputs, normalized(signature).inputs.len()) == 0,
        normalized(normalized(signature)).generics == normalized(signature).generics,
{
    let names = fresh_idents(signature_prefix());
    let inputs = normalized(signature).inputs;
    assert forall|k: int| 0 <= k < inputs.len() implies pending_arg(#[trigger] inputs[k])
        == 0 by {
        lemma_filled_arg_leaves_no_slot(
            signature.inputs[k],
            signature_prefix(),
            pending_args(signature.inputs, k as nat),
        );
    }
    lemma_pending_args_none(inputs, inputs.len());
    assert(normalized(normalized(signature)).generics =~= normalized(signature).generics);
}

/// Where the inputs determine a named lifetime for the return type, the
/// return type of the normal form holds no anonymous lifetime and no
/// reference without a lifetime in scope.
pub proof fn law_output_is_named(signature: SigView)
    requires
        elided_output_lifetime(normalized(signature).inputs) matches Some(elided) && elided
            != anonymous_ident(),
    ensures
        normalized(signature).output matches Some(tree) ==> pending(tree) == 0,
{
    if let Some(tree) = signature.output {
        let elided = elided_output_lifetime(normalized(signature).inputs).unwrap();
        lemma_filled_leaves_no_slot(tree, always(elided), 0);
    }
}

/// Filling the slots of a tree with one lifetime a second time changes
/// nothing.
pub proof fn lemma_filled_twice(tree: TreeView, ident: Seq<char>, first: nat, again: nat)
    ensures
        filled(filled(tree, always(ident), first), always(ident), again) == filled(
            tree,
            always(ident),
            first,
        ),
    decreases tree,
{
    match tree {
        TreeView::Lifetime(_) => {},
        TreeView::Reference(lifetime, elem) => {
            lemma_filled_twice(*elem, ident, first, again);
            lemma_filled_twice(*elem, ident, first, again + 1);
            lemma_filled_twice(*elem, ident, first + 1, again);
            lemma_filled_twice(*elem, ident, first + 1, again + 1);
        },
        TreeView::Composite(parts) => {
            let once = filled(tree, always(ident), first)->Composite_0;
            let twice = filled(filled(tree, always(ident), first), always(ident), again)
                ->Composite_0;
            assert forall|k: int| 0 <= k < parts.len() implies twice[k] == once[k] by {
                lemma_filled_twice(
                    parts[k],
                    ident,
                    first + pending_in(parts, k as nat),
                    again + pending_in(once, k as nat),
                );
            }
            assert(twice =~= once);
        },
        TreeView::Opaque(_, _) => {},
    }
}

/// An input without a slot is left as it is, whatever the names.
pub proof fn lemma_filled_arg_nothing(
    arg: FnArgView,
    names: spec_fn(nat) -> Seq<char>,
    first: nat,
)
    requires
        pending_arg(arg) == 0,
    ensures
        filled_arg(arg, names, first) == arg,
{
    match arg {
        FnArgView::Receiver(receiver) => {
            if receiver.colon_token {
                lemma_filled_nothing(receiver.ty, names, first);
            }
        },
        FnArgView::Typed(tree) => {
            lemma_filled_nothing(tree, names, first);
        },
    }
}

/// A normal form is its own normal form: a second normalization declares
/// nothing and leaves the inputs and the return type as they are.
pub proof fn law_normal_form_is_stable(signature: SigView)
    ensures
        normalized(normalized(signature)) == normalized(signature),
{
    let names = fresh_idents(signature_prefix());
    let once = normalized(signature);
    let twice = normalized(once);
    law_inputs_are_named(signature);
    assert forall|k: int| 0 <= k < once.inputs.len() implies pending_arg(
        #[trigger] once.inputs[k],
    ) == 0 by {
        lemma_filled_arg_leaves_no_slot(
            signature.inputs[k],
            signature_prefix(),
            pending_args(signature.inputs, k as nat),
        );
    }
    assert forall|k: int| 0 <= k < once.inputs.len() implies twice.inputs[k]
        == once.inputs[k] by {
        lemma_filled_arg_nothing(once.inputs[k], names, pending_args(once.inputs, k as nat));
    }
    assert(twice.inputs =~= once.inputs);
    match signature.output {
        Some(tree) => {
            match elided_output_lifetime(once.inputs) {
                Some(elided) => {
                    lemma_filled_twice(tree, elided, 0, 0);
                },
                None => {},
            }
        },
        None => {},
    }
}

} // verus!
