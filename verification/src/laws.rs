//! What holds of the passes on every input.

use crate::generics::GenericParamView;
use crate::naming::{
    always, anonymous_ident, fresh_ident, fresh_idents, lemma_fresh_ident_injective,
    lemma_fresh_ident_named,
};
use crate::scope::{
    awaits_name, declared, filled, filled_receiver, lemma_pending_in_bound, lifetimes,
    lifetimes_in, pending, pending_in, takes_alias,
};
use crate::syntax::{ReceiverView, TreeView};
use vstd::prelude::*;

verus! {

/// Parts without a slot have no slot between them.
pub proof fn lemma_pending_in_none(parts: Seq<TreeView>, n: nat)
    requires
        n <= parts.len(),
        forall|k: int| 0 <= k < n ==> pending(#[trigger] parts[k]) == 0,
    ensures
        pending_in(parts, n) == 0,
    decreases n,
{
    if n > 0 {
        lemma_pending_in_none(parts, (n - 1) as nat);
    }
}

/// A tree without a slot is left as it is, whatever the names.
pub proof fn lemma_filled_nothing(tree: TreeView, names: spec_fn(nat) -> Seq<char>, first: nat)
    requires
        pending(tree) == 0,
    ensures
        filled(tree, names, first) == tree,
    decreases tree,
{
    match tree {
        TreeView::Lifetime(_) => {},
        TreeView::Reference(lifetime, elem) => {
            lemma_filled_nothing(*elem, names, first);
        },
        TreeView::Composite(parts) => {
            let after = filled(tree, names, first)->Composite_0;
            assert forall|k: int| 0 <= k < parts.len() implies after[k] == parts[k] by {
                lemma_pending_in_bound(parts, k as nat, parts.len());
                lemma_filled_nothing(parts[k], names, first + pending_in(parts, k as nat));
            }
            assert(after =~= parts);
        },
        TreeView::Opaque(_, _) => {},
    }
}

/// No slot is left where every slot got a name that is not the anonymous
/// one.
pub proof fn lemma_filled_leaves_no_slot(
    tree: TreeView,
    names: spec_fn(nat) -> Seq<char>,
    first: nat,
)
    requires
        forall|i: nat|
            first <= i < first + pending(tree) ==> #[trigger] names(i) != anonymous_ident(),
    ensures
        pending(filled(tree, names, first)) == 0,
    decreases tree,
{
    match tree {
        TreeView::Lifetime(ident) => {
            if ident == anonymous_ident() {
                assert(names(first) != anonymous_ident());
            }
        },
        TreeView::Reference(lifetime, elem) => {
            if awaits_name(lifetime) {
                assert(names(first) != anonymous_ident());
                lemma_filled_leaves_no_slot(*elem, names, first + 1);
            } else {
                lemma_filled_leaves_no_slot(*elem, names, first);
            }
        },
        TreeView::Composite(parts) => {
            let after = filled(tree, names, first)->Composite_0;
            assert forall|k: int| 0 <= k < after.len() implies pending(#[trigger] after[k])
                == 0 by {
                lemma_pending_in_bound(parts, k as nat, parts.len());
                lemma_filled_leaves_no_slot(parts[k], names, first + pending_in(parts, k as nat));
            }
            lemma_pending_in_none(after, after.len());
        },
        TreeView::Opaque(_, _) => {},
    }
}

/// After the naming pass no anonymous lifetime and no reference without a
/// lifetime is left in scope.
pub proof fn law_no_slot_survives_naming(tree: TreeView, prefix: Seq<char>, first: nat)
    ensures
        pending(filled(tree, fresh_idents(prefix), first)) == 0,
{
    assert forall|i: nat| #[trigger] fresh_idents(prefix)(i) != anonymous_ident() by {
        lemma_fresh_ident_named(prefix, i);
    }
    lemma_filled_leaves_no_slot(tree, fresh_idents(prefix), first);
}

/// After the elision pass with a named lifetime no anonymous lifetime and
/// no reference without a lifetime is left in scope.
pub proof fn law_no_slot_survives_elision(tree: TreeView, elided: Seq<char>)
    requires
        elided != anonymous_ident(),
    ensures
        pending(filled(tree, always(elided), 0)) == 0,
{
    lemma_filled_leaves_no_slot(tree, always(elided), 0);
}

/// `left` and `right` are both `tree` but for the names in its slots: a
/// lifetime that `tree` names stands in both, a slot of `tree` holds some
/// name in each, and what lies below a boundary is that of `tree`.
pub open spec fn same_but_for_slots(tree: TreeView, left: TreeView, right: TreeView) -> bool
    decreases tree,
{
    match tree {
        TreeView::Lifetime(ident) => {
            &&& left is Lifetime
            &&& right is Lifetime
            &&& ident != anonymous_ident() ==> left == tree && right == tree
        },
        TreeView::Reference(lifetime, elem) => {
            &&& left matches TreeView::Reference(Some(l), left_elem)
            &&& right matches TreeView::Reference(Some(r), right_elem)
            &&& !awaits_name(lifetime) ==> lifetime == Some(l) && lifetime == Some(r)
            &&& same_but_for_slots(*elem, *left_elem, *right_elem)
        },
        TreeView::Composite(parts) => {
            &&& left matches TreeView::Composite(left_parts)
            &&& right matches TreeView::Composite(right_parts)
            &&& left_parts.len() == parts.len()
            &&& right_parts.len() == parts.len()
            &&& forall|k: int|
                0 <= k < parts.len() ==> same_but_for_slots(
                    parts[k],
                    #[trigger] left_parts[k],
                    right_parts[k],
                )
        },
        TreeView::Opaque(_, _) => left == tree && right == tree,
    }
}

/// Two fillings of one tree differ in the names of its slots and in
/// nothing else.
pub proof fn lemma_fillings_alike(
    tree: TreeView,
    names: spec_fn(nat) -> Seq<char>,
    first: nat,
    others: spec_fn(nat) -> Seq<char>,
    other_first: nat,
)
    ensures
        same_but_for_slots(
            tree,
            filled(tree, names, first),
            filled(tree, others, other_first),
        ),
    decreases tree,
{
    match tree {
        TreeView::Lifetime(_) => {},
        TreeView::Reference(lifetime, elem) => {
            if awaits_name(lifetime) {
                lemma_fillings_alike(*elem, names, first + 1, others, other_first + 1);
            } else {
                lemma_fillings_alike(*elem, names, first, others, other_first);
            }
        },
        TreeView::Composite(parts) => {
            let left = filled(tree, names, first)->Composite_0;
            let right = filled(tree, others, other_first)->Composite_0;
            assert forall|k: int| 0 <= k < parts.len() implies same_but_for_slots(
                parts[k],
                #[trigger] left[k],
                right[k],
            ) by {
                lemma_fillings_alike(
                    parts[k],
                    names,
                    first + pending_in(parts, k as nat),
                    others,
                    other_first + pending_in(parts, k as nat),
                );
            }
        },
        TreeView::Opaque(_, _) => {},
    }
}

/// Two naming passes over one input, whatever their prefixes and the
/// generics that they declare in, declare the same number of lifetimes and
/// leave trees that differ in the generated names alone.
pub proof fn law_naming_is_uniform(
    tree: TreeView,
    generics: Seq<GenericParamView>,
    prefix: Seq<char>,
    other_generics: Seq<GenericParamView>,
    other_prefix: Seq<char>,
)
    requires
        generics.len() == other_generics.len(),
    ensures
        declared(generics, prefix, 0, pending(tree)).len() == declared(
            other_generics,
            other_prefix,
            0,
            pending(tree),
        ).len(),
        declared(generics, prefix, 0, pending(tree)).len() == generics.len() + pending(tree),
        same_but_for_slots(
            tree,
            filled(tree, fresh_idents(prefix), 0),
            filled(tree, fresh_idents(other_prefix), 0),
        ),
{
    lemma_fillings_alike(tree, fresh_idents(prefix), 0, fresh_idents(other_prefix), 0);
}

/// The constructs in scope in `tree` that open a scope of their own, in the
/// order in which a walk meets them, each with all that stands in it.
pub open spec fn boundaries(tree: TreeView) -> Seq<TreeView>
    decreases tree, 0nat,
{
    match tree {
        TreeView::Lifetime(_) => Seq::empty(),
        TreeView::Reference(_, elem) => boundaries(*elem),
        TreeView::Composite(parts) => boundaries_in(parts, parts.len()),
        TreeView::Opaque(_, _) => seq![tree],
    }
}

/// The boundaries in scope in the first `n` of `parts`.
pub open spec fn boundaries_in(parts: Seq<TreeView>, n: nat) -> Seq<TreeView>
    decreases parts, n,
{
    if n == 0 || n > parts.len() {
        Seq::empty()
    } else {
        boundaries_in(parts, (n - 1) as nat) + boundaries(parts[n - 1])
    }
}

/// Parts with the same boundaries, one by one, have the same boundaries
/// between them.
pub proof fn lemma_boundaries_in_alike(parts: Seq<TreeView>, others: Seq<TreeView>, n: nat)
    requires
        n <= parts.len(),
        parts.len() == others.len(),
        forall|k: int| 0 <= k < n ==> boundaries(#[trigger] parts[k]) == boundaries(others[k]),
    ensures
        boundaries_in(parts, n) == boundaries_in(others, n),
    decreases n,
{
    if n > 0 {
        lemma_boundaries_in_alike(parts, others, (n - 1) as nat);
        assert(boundaries(parts[n - 1]) == boundaries(others[n - 1]));
    }
}

/// Neither the naming pass nor the elision pass changes anything below a
/// boundary: the boundaries of the tree are the same before and after,
/// with all that stands in them.
pub proof fn law_boundaries_are_kept(
    tree: TreeView,
    names: spec_fn(nat) -> Seq<char>,
    first: nat,
)
    ensures
        boundaries(filled(tree, names, first)) == boundaries(tree),
    decreases tree,
{
    match tree {
        TreeView::Lifetime(_) => {},
        TreeView::Reference(lifetime, elem) => {
            law_boundaries_are_kept(*elem, names, first);
            law_boundaries_are_kept(*elem, names, first + 1);
        },
        TreeView::Composite(parts) => {
            let after = filled(tree, names, first)->Composite_0;
            assert forall|k: int| 0 <= k < parts.len() implies boundaries(#[trigger] after[k])
                == boundaries(parts[k]) by {
                law_boundaries_are_kept(parts[k], names, first + pending_in(parts, k as nat));
            }
            lemma_boundaries_in_alike(after, parts, parts.len());
        },
        TreeView::Opaque(_, _) => {},
    }
}

/// `tree` with nothing left below its boundaries.
pub open spec fn hollowed(tree: TreeView) -> TreeView
    decreases tree,
{
    match tree {
        TreeView::Lifetime(_) => tree,
        TreeView::Reference(lifetime, elem) => TreeView::Reference(
            lifetime,
            Box::new(hollowed(*elem)),
        ),
        TreeView::Composite(parts) => TreeView::Composite(
            Seq::new(
                parts.len(),
                |i: int|
                    if 0 <= i < parts.len() {
                        hollowed(parts[i])
                    } else {
                        tree
                    },
            ),
        ),
        TreeView::Opaque(boundary, _) => TreeView::Opaque(boundary, Seq::empty()),
    }
}

/// Parts with the same lifetimes and slots, one by one, have the same
/// lifetimes and slots between them.
pub proof fn lemma_lifetimes_in_alike(parts: Seq<TreeView>, others: Seq<TreeView>, n: nat)
    requires
        n <= parts.len(),
        parts.len() == others.len(),
        forall|k: int|
            0 <= k < n ==> lifetimes(#[trigger] parts[k]) == lifetimes(others[k]) && pending(
                parts[k],
            ) == pending(others[k]),
    ensures
        lifetimes_in(parts, n) == lifetimes_in(others, n),
        pending_in(parts, n) == pending_in(others, n),
    decreases n,
{
    if n > 0 {
        lemma_lifetimes_in_alike(parts, others, (n - 1) as nat);
        assert(lifetimes(parts[n - 1]) == lifetimes(others[n - 1]));
    }
}

/// What stands below a boundary is neither met by the collector nor
/// counted as a slot: the tree without it has the same lifetimes in scope
/// and as many slots.
pub proof fn law_boundaries_are_not_counted(tree: TreeView)
    ensures
        lifetimes(hollowed(tree)) == lifetimes(tree),
        pending(hollowed(tree)) == pending(tree),
    decreases tree,
{
    match tree {
        TreeView::Lifetime(_) => {},
        TreeView::Reference(lifetime, elem) => {
            law_boundaries_are_not_counted(*elem);
        },
        TreeView::Composite(parts) => {
            let after = hollowed(tree)->Composite_0;
            assert forall|k: int| 0 <= k < parts.len() implies lifetimes(#[trigger] after[k])
                == lifetimes(parts[k]) && pending(after[k]) == pending(parts[k]) by {
                law_boundaries_are_not_counted(parts[k]);
            }
            lemma_lifetimes_in_alike(after, parts, parts.len());
        },
        TreeView::Opaque(_, _) => {},
    }
}

/// The shorthand `&self` or `&'_ self` over a reference type has, after
/// the naming pass, one and the same lifetime in the shorthand and in the
/// type, and that lifetime is a generated one.
pub proof fn law_receiver_alias(receiver: ReceiverView, prefix: Seq<char>, first: nat)
    requires
        takes_alias(receiver),
    ensures
        ({
            let after = filled_receiver(receiver, fresh_idents(prefix), first);
            &&& after.reference == Some(Some(fresh_ident(prefix, first)))
            &&& after.ty matches TreeView::Reference(lifetime, elem)
            &&& lifetime == Some(fresh_ident(prefix, first))
            &&& receiver.ty matches TreeView::Reference(_, old_elem)
            &&& elem == old_elem
        }),
{
}

/// No anonymous lifetime and no reference without a lifetime stands in
/// `tree`, at any depth, below boundaries too.
pub open spec fn named_throughout(tree: TreeView) -> bool
    decreases tree,
{
    match tree {
        TreeView::Lifetime(ident) => ident != anonymous_ident(),
        TreeView::Reference(lifetime, elem) => !awaits_name(lifetime) && named_throughout(*elem),
        TreeView::Composite(parts) => forall|k: int|
            0 <= k < parts.len() ==> named_throughout(#[trigger] parts[k]),
        TreeView::Opaque(_, parts) => forall|k: int|
            0 <= k < parts.len() ==> named_throughout(#[trigger] parts[k]),
    }
}

/// The boundaries of one of the first `n` parts are among those of the
/// first `n` parts.
pub proof fn lemma_boundaries_in_bound(parts: Seq<TreeView>, k: nat, n: nat)
    requires
        k < n <= parts.len(),
    ensures
        boundaries(parts[k as int]).len() <= boundaries_in(parts, n).len(),
    decreases n,
{
    if k + 1 < n {
        lemma_boundaries_in_bound(parts, k, (n - 1) as nat);
    }
}

/// A tree without boundaries and without slots is named throughout.
pub proof fn lemma_named_throughout(tree: TreeView)
    requires
        boundaries(tree).len() == 0,
        pending(tree) == 0,
    ensures
        named_throughout(tree),
    decreases tree,
{
    match tree {
        TreeView::Lifetime(_) => {},
        TreeView::Reference(_, elem) => {
            lemma_named_throughout(*elem);
        },
        TreeView::Composite(parts) => {
            assert forall|k: int| 0 <= k < parts.len() implies named_throughout(
                #[trigger] parts[k],
            ) by {
                lemma_boundaries_in_bound(parts, k as nat, parts.len());
                lemma_pending_in_bound(parts, k as nat, parts.len());
                lemma_named_throughout(parts[k]);
            }
        },
        TreeView::Opaque(_, _) => {},
    }
}

/// In a tree without boundaries the naming pass leaves no anonymous
/// lifetime and no reference without a lifetime anywhere.
pub proof fn law_no_marker_survives_without_boundaries(
    tree: TreeView,
    prefix: Seq<char>,
    first: nat,
)
    requires
        boundaries(tree).len() == 0,
    ensures
        named_throughout(filled(tree, fresh_idents(prefix), first)),
{
    law_boundaries_are_kept(tree, fresh_idents(prefix), first);
    law_no_slot_survives_naming(tree, prefix, first);
    lemma_named_throughout(filled(tree, fresh_idents(prefix), first));
}

/// The lifetimes that one pass declares stand at the positions of their
/// slots and differ from one another.
pub proof fn law_declared_lifetimes_differ(
    generics: Seq<GenericParamView>,
    prefix: Seq<char>,
    first: nat,
    count: nat,
    i: nat,
    j: nat,
)
    requires
        first <= generics.len(),
        i < j < count,
    ensures
        ({
            let after = declared(generics, prefix, first, count);
            &&& after[first + i as int] == GenericParamView::Lifetime(
                fresh_ident(prefix, first + i),
            )
            &&& after[first + j as int] == GenericParamView::Lifetime(
                fresh_ident(prefix, first + j),
            )
            &&& after[first + i as int] != after[first + j as int]
        }),
{
    if fresh_ident(prefix, first + i) == fresh_ident(prefix, first + j) {
        lemma_fresh_ident_injective(prefix, first + i, first + j);
    }
}

/// `tree` with the anonymous lifetime written in every reference in scope
/// that has none.
pub open spec fn marked(tree: TreeView) -> TreeView
    decreases tree,
{
    match tree {
        TreeView::Lifetime(_) => tree,
        TreeView::Reference(lifetime, elem) => TreeView::Reference(
            Some(
                match lifetime {
                    Some(ident) => ident,
                    None => anonymous_ident(),
                },
            ),
            Box::new(marked(*elem)),
        ),
        TreeView::Composite(parts) => TreeView::Composite(
            Seq::new(
                parts.len(),
                |i: int|
                    if 0 <= i < parts.len() {
                        marked(parts[i])
                    } else {
                        tree
                    },
            ),
        ),
        TreeView::Opaque(_, _) => tree,
    }
}

/// Parts with as many slots, one by one, have as many slots between them.
pub proof fn lemma_pending_in_alike(parts: Seq<TreeView>, others: Seq<TreeView>, n: nat)
    requires
        n <= parts.len(),
        parts.len() == others.len(),
        forall|k: int| 0 <= k < n ==> pending(#[trigger] parts[k]) == pending(others[k]),
    ensures
        pending_in(parts, n) == pending_in(others, n),
    decreases n,
{
    if n > 0 {
        lemma_pending_in_alike(parts, others, (n - 1) as nat);
        assert(pending(parts[n - 1]) == pending(others[n - 1]));
    }
}

/// A lifetime that is left out is a slot like an anonymous one: with `'_`
/// written in every reference that has no lifetime, a tree has the same
/// slots, in the same order, and is filled to the same tree.
pub proof fn law_omitted_is_anonymous(
    tree: TreeView,
    names: spec_fn(nat) -> Seq<char>,
    first: nat,
)
    ensures
        pending(marked(tree)) == pending(tree),
        filled(marked(tree), names, first) == filled(tree, names, first),
    decreases tree,
{
    match tree {
        TreeView::Lifetime(_) => {},
        TreeView::Reference(lifetime, elem) => {
            law_omitted_is_anonymous(*elem, names, first);
            law_omitted_is_anonymous(*elem, names, first + 1);
        },
        TreeView::Composite(parts) => {
            let written = marked(tree)->Composite_0;
            assert forall|k: int| 0 <= k < parts.len() implies pending(#[trigger] written[k])
                == pending(parts[k]) by {
                law_omitted_is_anonymous(parts[k], names, first);
            }
            lemma_pending_in_alike(written, parts, parts.len());
            let left = filled(marked(tree), names, first)->Composite_0;
            let right = filled(tree, names, first)->Composite_0;
            assert forall|k: int| 0 <= k < parts.len() implies left[k] == right[k] by {
                lemma_pending_in_alike(written, parts, k as nat);
                law_omitted_is_anonymous(parts[k], names, first + pending_in(parts, k as nat));
            }
            assert(left =~= right);
        },
        TreeView::Opaque(_, _) => {},
    }
}

} // verus!
