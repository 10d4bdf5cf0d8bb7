//! What the passes do, stated over the views of the syntax.
//!
//! A _slot_ is a place in scope that awaits a name: an anonymous lifetime,
//! or a reference whose lifetime is left out. Slots are numbered in the
//! order in which a pass meets them. Nothing below a [`Boundary`] is in
//! scope.
//!
//! [`Boundary`]: crate::syntax::Boundary

use crate::generics::GenericParamView;
use crate::naming::{anonymous_ident, fresh_ident};
use crate::syntax::{FnArgView, ReceiverView, TreeView};
use vstd::prelude::*;

verus! {

/// Whether the lifetime position of a reference awaits a name.
pub open spec fn awaits_name(lifetime: Option<Seq<char>>) -> bool {
    match lifetime {
        None => true,
        Some(ident) => ident == anonymous_ident(),
    }
}

/// The number of slots of `tree`.
pub open spec fn pending(tree: TreeView) -> nat
    decreases tree, 0nat,
{
    match tree {
        TreeView::Lifetime(ident) => if ident == anonymous_ident() {
            1
        } else {
            0
        },
        TreeView::Reference(lifetime, elem) => pending(*elem) + if awaits_name(lifetime) {
            1nat
        } else {
            0nat
        },
        TreeView::Composite(parts) => pending_in(parts, parts.len()),
        TreeView::Opaque(_, _) => 0,
    }
}

/// The number of slots of the first `n` of `parts`.
pub open spec fn pending_in(parts: Seq<TreeView>, n: nat) -> nat
    decreases parts, n,
{
    if n == 0 || n > parts.len() {
        0
    } else {
        pending_in(parts, (n - 1) as nat) + pending(parts[n - 1])
    }
}

/// `tree` with a name in each of its slots: the slot met as number `i`
/// receives `names(first + i)`.
///
/// A lifetime that is left out counts as an anonymous one: the slot of a
/// reference is met before the slots of what the reference points to.
pub open spec fn filled(tree: TreeView, names: spec_fn(nat) -> Seq<char>, first: nat) -> TreeView
    decreases tree,
{
    match tree {
        TreeView::Lifetime(ident) => TreeView::Lifetime(
            if ident == anonymous_ident() {
                names(first)
            } else {
                ident
            },
        ),
        TreeView::Reference(lifetime, elem) => if awaits_name(lifetime) {
            TreeView::Reference(Some(names(first)), Box::new(filled(*elem, names, first + 1)))
        } else {
            TreeView::Reference(lifetime, Box::new(filled(*elem, names, first)))
        },
        TreeView::Composite(parts) => TreeView::Composite(
            Seq::new(
                parts.len(),
                |i: int|
                    if 0 <= i < parts.len() {
                        filled(parts[i], names, first + pending_in(parts, i as nat))
                    } else {
                        tree
                    },
            ),
        ),
        TreeView::Opaque(_, _) => tree,
    }
}

/// Whether `receiver` is the shorthand `&self` or `&'_ self` over a
/// reference type: the receiver whose two lifetime positions get one name.
pub open spec fn takes_alias(receiver: ReceiverView) -> bool {
    &&& !receiver.colon_token
    &&& receiver.reference matches Some(lifetime) && awaits_name(lifetime)
    &&& receiver.ty is Reference
}

/// The number of slots of `receiver`: those of its type where the type is
/// written out, one for the shorthand over a reference type without a named
/// lifetime, none otherwise.
pub open spec fn pending_receiver(receiver: ReceiverView) -> nat {
    if receiver.colon_token {
        pending(receiver.ty)
    } else if takes_alias(receiver) {
        1
    } else {
        0
    }
}

/// `receiver` with its slots filled. The shorthand and the reference type
/// that it stands for share one slot, and so one name.
pub open spec fn filled_receiver(
    receiver: ReceiverView,
    names: spec_fn(nat) -> Seq<char>,
    first: nat,
) -> ReceiverView {
    if receiver.colon_token {
        ReceiverView { ty: filled(receiver.ty, names, first), ..receiver }
    } else if takes_alias(receiver) {
        ReceiverView {
            reference: Some(Some(names(first))),
            ty: TreeView::Reference(Some(names(first)), receiver.ty->Reference_1),
            ..receiver
        }
    } else {
        receiver
    }
}

/// The number of slots of an input.
pub open spec fn pending_arg(arg: FnArgView) -> nat {
    match arg {
        FnArgView::Receiver(receiver) => pending_receiver(receiver),
        FnArgView::Typed(tree) => pending(tree),
    }
}

/// An input with its slots filled.
pub open spec fn filled_arg(arg: FnArgView, names: spec_fn(nat) -> Seq<char>, first: nat) -> FnArgView {
    match arg {
        FnArgView::Receiver(receiver) => FnArgView::Receiver(
            filled_receiver(receiver, names, first),
        ),
        FnArgView::Typed(tree) => FnArgView::Typed(filled(tree, names, first)),
    }
}

/// The number of slots of the first `n` of `args`.
pub open spec fn pending_args(args: Seq<FnArgView>, n: nat) -> nat
    decreases n,
{
    if n == 0 || n > args.len() {
        0
    } else {
        pending_args(args, (n - 1) as nat) + pending_arg(args[n - 1])
    }
}

/// The inputs `args` with their slots filled, numbered from `first` through
/// the inputs in order.
pub open spec fn filled_args(
    args: Seq<FnArgView>,
    names: spec_fn(nat) -> Seq<char>,
    first: nat,
) -> Seq<FnArgView> {
    Seq::new(args.len(), |i: int| filled_arg(args[i], names, first + pending_args(args, i as nat)))
}

/// The generics `generics` after a pass with `prefix` has declared the
/// lifetimes of its slots `first .. first + count`, each at the position of
/// its number.
pub open spec fn declared(
    generics: Seq<GenericParamView>,
    prefix: Seq<char>,
    first: nat,
    count: nat,
) -> Seq<GenericParamView> {
    generics.subrange(0, first as int) + Seq::new(
        count,
        |i: int| GenericParamView::Lifetime(fresh_ident(prefix, (first + i) as nat)),
    ) + generics.subrange(first as int, generics.len() as int)
}

/// Declaring no lifetime leaves the generics as they are.
pub proof fn lemma_declared_none(generics: Seq<GenericParamView>, prefix: Seq<char>, first: nat)
    requires
        first <= generics.len(),
    ensures
        declared(generics, prefix, first, 0) == generics,
{
    assert(declared(generics, prefix, first, 0) =~= generics);
}

/// Declaring one more lifetime is an insertion at the position of its
/// number.
pub proof fn lemma_declared_next(
    generics: Seq<GenericParamView>,
    prefix: Seq<char>,
    first: nat,
    count: nat,
)
    requires
        first <= generics.len(),
    ensures
        declared(generics, prefix, first, count).insert(
            (first + count) as int,
            GenericParamView::Lifetime(fresh_ident(prefix, first + count)),
        ) == declared(generics, prefix, first, count + 1),
{
    assert(declared(generics, prefix, first, count).insert(
        (first + count) as int,
        GenericParamView::Lifetime(fresh_ident(prefix, first + count)),
    ) =~= declared(generics, prefix, first, count + 1));
}

/// Declaring `more` lifetimes after `count` others declares them all.
pub proof fn lemma_declared_more(
    generics: Seq<GenericParamView>,
    prefix: Seq<char>,
    first: nat,
    count: nat,
    more: nat,
)
    requires
        first <= generics.len(),
    ensures
        declared(declared(generics, prefix, first, count), prefix, first + count, more)
            == declared(generics, prefix, first, count + more),
{
    assert(declared(declared(generics, prefix, first, count), prefix, first + count, more)
        =~= declared(generics, prefix, first, count + more));
}

/// The slots of the first `i` parts and of the part after them are among
/// the slots of the first `n`, for `i < n`.
pub proof fn lemma_pending_in_bound(parts: Seq<TreeView>, i: nat, n: nat)
    requires
        i < n <= parts.len(),
    ensures
        pending_in(parts, i) + pending(parts[i as int]) <= pending_in(parts, n),
    decreases n,
{
    if i + 1 < n {
        lemma_pending_in_bound(parts, i, (n - 1) as nat);
    }
}

/// What `filled` makes of a tree depends only on the names that it gives to
/// the slots of that tree.
pub proof fn lemma_filled_agrees(
    tree: TreeView,
    names: spec_fn(nat) -> Seq<char>,
    first: nat,
    others: spec_fn(nat) -> Seq<char>,
    other_first: nat,
)
    requires
        forall|i: nat|
            first <= i < first + pending(tree) ==> #[trigger] names(i) == others(
                (i - first + other_first) as nat,
            ),
    ensures
        filled(tree, names, first) == filled(tree, others, other_first),
    decreases tree,
{
    match tree {
        TreeView::Lifetime(ident) => {
            if ident == anonymous_ident() {
                assert(names(first) == others((first - first + other_first) as nat));
            }
        },
        TreeView::Reference(lifetime, elem) => {
            if awaits_name(lifetime) {
                assert(names(first) == others((first - first + other_first) as nat));
                lemma_filled_agrees(*elem, names, first + 1, others, other_first + 1);
            } else {
                lemma_filled_agrees(*elem, names, first, others, other_first);
            }
        },
        TreeView::Composite(parts) => {
            let left = filled(tree, names, first)->Composite_0;
            let right = filled(tree, others, other_first)->Composite_0;
            assert forall|k: int| 0 <= k < parts.len() implies left[k] == right[k] by {
                let skipped = pending_in(parts, k as nat);
                lemma_pending_in_bound(parts, k as nat, parts.len());
                lemma_filled_agrees(
                    parts[k],
                    names,
                    first + skipped,
                    others,
                    other_first + skipped,
                );
            }
            assert(left =~= right);
        },
        TreeView::Opaque(_, _) => {},
    }
}

/// The lifetimes in scope that are written in `tree`, in the order in which
/// a walk meets them, each as often as it is written.
pub open spec fn lifetimes(tree: TreeView) -> Seq<Seq<char>>
    decreases tree, 0nat,
{
    match tree {
        TreeView::Lifetime(ident) => seq![ident],
        TreeView::Reference(lifetime, elem) => match lifetime {
            Some(ident) => seq![ident] + lifetimes(*elem),
            None => lifetimes(*elem),
        },
        TreeView::Composite(parts) => lifetimes_in(parts, parts.len()),
        TreeView::Opaque(_, _) => Seq::empty(),
    }
}

/// The lifetimes in scope that are written in the first `n` of `parts`.
pub open spec fn lifetimes_in(parts: Seq<TreeView>, n: nat) -> Seq<Seq<char>>
    decreases parts, n,
{
    if n == 0 || n > parts.len() {
        Seq::empty()
    } else {
        lifetimes_in(parts, (n - 1) as nat) + lifetimes(parts[n - 1])
    }
}

/// What a collector knows: it has met no lifetime, one, or more than one.
pub enum Collected {
    Empty,
    Single(Seq<char>),
    Multiple,
}

/// What a collector in `state` knows after it has met the lifetimes `seen`.
/// Every lifetime met counts, also one that was met before.
pub open spec fn met(state: Collected, seen: Seq<Seq<char>>) -> Collected {
    if seen.len() == 0 {
        state
    } else if state is Empty && seen.len() == 1 {
        Collected::Single(seen[0])
    } else {
        Collected::Multiple
    }
}

/// Meeting two runs of lifetimes one after the other is meeting them all.
pub proof fn lemma_met_both(state: Collected, seen: Seq<Seq<char>>, more: Seq<Seq<char>>)
    ensures
        met(met(state, seen), more) == met(state, seen + more),
{
    if seen.len() == 0 {
        assert(seen + more =~= more);
    } else if more.len() == 0 {
        assert(seen + more =~= seen);
    }
}

} // verus!
