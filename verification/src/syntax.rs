//! The syntax that the passes walk: types reduced to what carries a
//! lifetime, receivers, signatures and `impl` headers.

use crate::generics::{GenericParamView, Generics};
use crate::lifetime::{ident_of, Lifetime};
use crate::punctuated::args_of;
use syn::punctuated::Punctuated;
use syn::token::Comma;
use vstd::prelude::*;

verus! {

/// The constructs whose inside belongs to a scope of its own. A lifetime
/// below one of them is not a lifetime of the surrounding signature.
#[derive(Clone, Copy, Debug, PartialEq, Eq, Hash)]
pub enum Boundary {
    /// A nested item. The lifetimes of the signature are not in scope there.
    Item,
    /// A function pointer, `fn(&u8) -> &u8`.
    BareFn,
    /// The parenthesized arguments of a bound such as `Fn(&u8) -> &u8`.
    ParenthesizedArguments,
}

/// A piece of syntax, reduced to the positions where a lifetime stands or
/// may stand, in the order in which a walk of the syntax meets them.
#[derive(Debug, PartialEq, Eq, Hash)]
pub enum TypeTree {
    /// A lifetime written where no reference is: an argument of a path, as
    /// in `Cow<'a, str>`, or a bound, as in `dyn Any + 'a`.
    Lifetime(Lifetime),
    /// A reference.
    Reference(TypeReference),
    /// Any other construct, by its parts from left to right: a tuple, a
    /// slice, a path with its arguments. A type without parts is an empty
    /// one.
    Composite(Vec<TypeTree>),
    /// A construct that opens a scope of its own, with what stands in it.
    Opaque(Boundary, Vec<TypeTree>),
}

/// A reference `&'a T`, or `&T` where the lifetime is left out.
#[derive(Debug, PartialEq, Eq, Hash)]
pub struct TypeReference {
    pub lifetime: Option<Lifetime>,
    pub elem: Box<TypeTree>,
}

/// A [`TypeTree`] with its identifiers as sequences of characters.
pub enum TreeView {
    Lifetime(Seq<char>),
    Reference(Option<Seq<char>>, Box<TreeView>),
    Composite(Seq<TreeView>),
    Opaque(Boundary, Seq<TreeView>),
}

/// The view of a tree.
pub open spec fn tree_view(tree: TypeTree) -> TreeView
    decreases tree,
{
    match tree {
        TypeTree::Lifetime(l) => TreeView::Lifetime(l@),
        TypeTree::Reference(reference) => TreeView::Reference(
            ident_of(reference.lifetime),
            Box::new(tree_view(*reference.elem)),
        ),
        TypeTree::Composite(parts) => TreeView::Composite(
            Seq::new(
                parts.len() as nat,
                |i: int|
                    if 0 <= i < parts.len() {
                        tree_view(parts[i])
                    } else {
                        TreeView::Composite(Seq::empty())
                    },
            ),
        ),
        TypeTree::Opaque(boundary, parts) => TreeView::Opaque(
            boundary,
            Seq::new(
                parts.len() as nat,
                |i: int|
                    if 0 <= i < parts.len() {
                        tree_view(parts[i])
                    } else {
                        TreeView::Composite(Seq::empty())
                    },
            ),
        ),
    }
}

impl View for TypeTree {
    type V = TreeView;

    open spec fn view(&self) -> TreeView {
        tree_view(*self)
    }
}

impl View for TypeReference {
    type V = TreeView;

    open spec fn view(&self) -> TreeView {
        TreeView::Reference(ident_of(self.lifetime), Box::new(self.elem@))
    }
}

/// The views of a run of trees.
pub open spec fn tree_views(trees: Seq<TypeTree>) -> Seq<TreeView> {
    Seq::new(trees.len(), |i: int| trees[i]@)
}

/// The view of a composite is made of the views of its parts.
pub proof fn lemma_view_of_parts(tree: TypeTree)
    ensures
        tree matches TypeTree::Composite(parts) ==> tree@ == TreeView::Composite(
            tree_views(parts@),
        ),
        tree matches TypeTree::Opaque(boundary, parts) ==> tree@ == TreeView::Opaque(
            boundary,
            tree_views(parts@),
        ),
{
    match tree {
        TypeTree::Composite(parts) => {
            assert(tree@->Composite_0 =~= tree_views(parts@));
        },
        TypeTree::Opaque(boundary, parts) => {
            assert(tree@->Opaque_1 =~= tree_views(parts@));
        },
        _ => {},
    }
}

/// The `self` of a method.
///
/// `&self` and `&'a self` have `reference` set, to the lifetime where one
/// is written, and `ty` is the reference type that the shorthand stands
/// for. `self: T` has `colon_token` set and `T` in `ty`. A plain `self`
/// has neither.
#[derive(Debug, PartialEq, Eq, Hash)]
pub struct Receiver {
    pub reference: Option<Option<Lifetime>>,
    pub colon_token: bool,
    pub ty: TypeTree,
}

/// A [`Receiver`] with its identifiers as sequences of characters.
pub struct ReceiverView {
    pub reference: Option<Option<Seq<char>>>,
    pub colon_token: bool,
    pub ty: TreeView,
}

impl View for Receiver {
    type V = ReceiverView;

    open spec fn view(&self) -> ReceiverView {
        ReceiverView {
            reference: match self.reference {
                Some(l) => Some(ident_of(l)),
                None => None,
            },
            colon_token: self.colon_token,
            ty: self.ty@,
        }
    }
}

/// An input of a signature.
#[derive(Debug, PartialEq, Eq, Hash)]
pub enum FnArg {
    /// The receiver of a method.
    Receiver(Receiver),
    /// A parameter with a pattern and a type, `x: &u8`.
    Typed(TypeTree),
}

/// An [`FnArg`] with its identifiers as sequences of characters.
pub enum FnArgView {
    Receiver(ReceiverView),
    Typed(TreeView),
}

impl View for FnArg {
    type V = FnArgView;

    open spec fn view(&self) -> FnArgView {
        match self {
            FnArg::Receiver(receiver) => FnArgView::Receiver(receiver@),
            FnArg::Typed(tree) => FnArgView::Typed(tree@),
        }
    }
}

/// The views of a run of inputs.
pub open spec fn arg_views(args: Seq<FnArg>) -> Seq<FnArgView> {
    Seq::new(args.len(), |i: int| args[i]@)
}

/// The signature of a function: its generics, its inputs in order, and its
/// return type where one is written.
#[derive(Debug, PartialEq, Eq, Hash)]
pub struct Signature {
    pub generics: Generics,
    pub inputs: Punctuated<FnArg, Comma>,
    pub output: Option<TypeTree>,
}

/// A [`Signature`] with its identifiers as sequences of characters.
pub struct SigView {
    pub generics: Seq<GenericParamView>,
    pub inputs: Seq<FnArgView>,
    pub output: Option<TreeView>,
}

/// The view of an optional tree.
pub open spec fn view_of(tree: Option<TypeTree>) -> Option<TreeView> {
    match tree {
        Some(t) => Some(t@),
        None => None,
    }
}

impl View for Signature {
    type V = SigView;

    open spec fn view(&self) -> SigView {
        SigView {
            generics: self.generics@,
            inputs: arg_views(args_of(self.inputs)),
            output: view_of(self.output),
        }
    }
}

/// A function of an `impl` block. Only its signature is of interest.
#[derive(Debug, PartialEq, Eq, Hash)]
pub struct ImplItemFn {
    pub sig: Signature,
}

/// An `impl` block: the generics and the self type of its header, and its
/// functions.
#[derive(Debug, PartialEq, Eq, Hash)]
pub struct ItemImpl {
    pub generics: Generics,
    pub self_ty: TypeTree,
    pub items: Vec<ImplItemFn>,
}

/// An [`ItemImpl`] with its identifiers as sequences of characters.
pub struct ItemImplView {
    pub generics: Seq<GenericParamView>,
    pub self_ty: TreeView,
    pub items: Seq<SigView>,
}

impl View for ItemImpl {
    type V = ItemImplView;

    open spec fn view(&self) -> ItemImplView {
        ItemImplView {
            generics: self.generics@,
            self_ty: self.self_ty@,
            items: Seq::new(self.items@.len(), |i: int| self.items@[i].sig@),
        }
    }
}

} // verus!
