use normalize_lifetimes::generics::{GenericParam, Generics};
use normalize_lifetimes::lifetime::Lifetime;
use normalize_lifetimes::normalize::{
    find_elided_output_lifetime, find_receiver_lifetime, find_single_input_lifetime,
    normalize_header, NormalizeLifetimes,
};
use normalize_lifetimes::syntax::{
    Boundary, FnArg, ImplItemFn, ItemImpl, Receiver, Signature, TypeReference, TypeTree,
};
use syn::punctuated::Punctuated;
use syn::token::Comma;

fn plain() -> TypeTree {
    TypeTree::Composite(vec![])
}

fn refer(lifetime: Option<&str>, elem: TypeTree) -> TypeTree {
    TypeTree::Reference(TypeReference {
        lifetime: lifetime.map(Lifetime::new),
        elem: Box::new(elem),
    })
}

fn argument(ident: &str) -> TypeTree {
    TypeTree::Lifetime(Lifetime::new(ident))
}

fn list(inputs: Vec<FnArg>) -> Punctuated<FnArg, Comma> {
    inputs.into_iter().collect()
}

fn typed(tree: TypeTree) -> FnArg {
    FnArg::Typed(tree)
}

fn self_by_reference(lifetime: Option<&str>) -> FnArg {
    FnArg::Receiver(Receiver {
        reference: Some(lifetime.map(Lifetime::new)),
        colon_token: false,
        ty: refer(lifetime, plain()),
    })
}

fn self_by_value() -> FnArg {
    FnArg::Receiver(Receiver { reference: None, colon_token: false, ty: plain() })
}

fn self_typed(ty: TypeTree) -> FnArg {
    FnArg::Receiver(Receiver { reference: None, colon_token: true, ty })
}

fn generics_of(idents: &[&str]) -> Generics {
    let mut generics = Generics { params: Punctuated::new() };
    for ident in idents {
        generics.params.push(GenericParam::Lifetime(Lifetime::new(ident)));
    }
    generics
}

fn signature(declared: &[&str], inputs: Vec<FnArg>, output: Option<TypeTree>) -> Signature {
    Signature { generics: generics_of(declared), inputs: inputs.into_iter().collect(), output }
}

fn normalize(mut signature: Signature) -> Signature {
    NormalizeLifetimes.visit_signature_mut(&mut signature);
    signature
}

#[test]
fn single_input_lifetime_goes_to_the_output() {
    // `fn f<'a>(x: &'a u8) -> &'_ u8`
    let after = normalize(signature(
        &["a"],
        vec![typed(refer(Some("a"), plain()))],
        Some(refer(Some("_"), plain())),
    ));
    assert_eq!(
        after,
        signature(
            &["a"],
            vec![typed(refer(Some("a"), plain()))],
            Some(refer(Some("a"), plain())),
        )
    );
}

#[test]
fn single_unnamed_input_lifetime_goes_to_the_output() {
    // `fn f(x: &u8) -> &u8`
    let after = normalize(signature(
        &[],
        vec![typed(refer(None, plain()))],
        Some(refer(None, plain())),
    ));
    assert_eq!(
        after,
        signature(
            &["__f0"],
            vec![typed(refer(Some("__f0"), plain()))],
            Some(refer(Some("__f0"), plain())),
        )
    );
}

#[test]
fn two_input_lifetimes_leave_the_output_alone() {
    // `fn f<'a, 'b>(x: &'a u8, y: &'b u8) -> &'_ u8`
    let after = normalize(signature(
        &["a", "b"],
        vec![typed(refer(Some("a"), plain())), typed(refer(Some("b"), plain()))],
        Some(refer(Some("_"), plain())),
    ));
    assert_eq!(
        after,
        signature(
            &["a", "b"],
            vec![typed(refer(Some("a"), plain())), typed(refer(Some("b"), plain()))],
            Some(refer(Some("_"), plain())),
        )
    );
}

#[test]
fn two_unnamed_input_lifetimes_leave_the_output_alone() {
    // `fn f(x: &u8, y: &u8) -> &u8`
    let after = normalize(signature(
        &[],
        vec![typed(refer(None, plain())), typed(refer(None, plain()))],
        Some(refer(None, plain())),
    ));
    assert_eq!(
        after,
        signature(
            &["__f0", "__f1"],
            vec![typed(refer(Some("__f0"), plain())), typed(refer(Some("__f1"), plain()))],
            Some(refer(None, plain())),
        )
    );
}

#[test]
fn the_same_input_lifetime_written_twice_leaves_the_output_alone() {
    // `fn f<'a>(x: &'a u8, y: &'a u8) -> &'_ u8`
    let after = normalize(signature(
        &["a"],
        vec![typed(refer(Some("a"), plain())), typed(refer(Some("a"), plain()))],
        Some(refer(Some("_"), plain())),
    ));
    assert_eq!(after.output, Some(refer(Some("_"), plain())));
}

#[test]
fn receiver_lifetime_goes_before_that_of_another_input() {
    // `fn f<'a, 'b>(&'a self, x: &'b u8) -> &'_ u8`
    let after = normalize(signature(
        &["a", "b"],
        vec![self_by_reference(Some("a")), typed(refer(Some("b"), plain()))],
        Some(refer(Some("_"), plain())),
    ));
    assert_eq!(
        after,
        signature(
            &["a", "b"],
            vec![self_by_reference(Some("a")), typed(refer(Some("b"), plain()))],
            Some(refer(Some("a"), plain())),
        )
    );
}

#[test]
fn unnamed_receiver_lifetime_goes_to_the_output() {
    // `fn f(&self, x: &u8) -> &u8`
    let after = normalize(signature(
        &[],
        vec![self_by_reference(None), typed(refer(None, plain()))],
        Some(refer(None, plain())),
    ));
    assert_eq!(
        after,
        signature(
            &["__f0", "__f1"],
            vec![self_by_reference(Some("__f0")), typed(refer(Some("__f1"), plain()))],
            Some(refer(Some("__f0"), plain())),
        )
    );
}

#[test]
fn receiver_with_a_reference_type_written_out_gives_its_lifetime() {
    // `fn f(self: &Self, x: &u8) -> &u8`
    let after = normalize(signature(
        &[],
        vec![self_typed(refer(None, plain())), typed(refer(None, plain()))],
        Some(refer(None, plain())),
    ));
    assert_eq!(
        after,
        signature(
            &["__f0", "__f1"],
            vec![self_typed(refer(Some("__f0"), plain())), typed(refer(Some("__f1"), plain()))],
            Some(refer(Some("__f0"), plain())),
        )
    );
}

#[test]
fn receiver_by_value_leaves_the_choice_to_the_other_inputs() {
    // `fn f(self, x: &u8) -> &u8`
    let after = normalize(signature(
        &[],
        vec![self_by_value(), typed(refer(None, plain()))],
        Some(refer(None, plain())),
    ));
    assert_eq!(
        after,
        signature(
            &["__f0"],
            vec![self_by_value(), typed(refer(Some("__f0"), plain()))],
            Some(refer(Some("__f0"), plain())),
        )
    );
}

#[test]
fn receiver_in_no_reference_leaves_the_choice_to_the_other_inputs() {
    // `fn f(self: Box<Self>, x: &u8, y: &u8) -> &u8`
    let after = normalize(signature(
        &[],
        vec![
            self_typed(TypeTree::Composite(vec![plain()])),
            typed(refer(None, plain())),
            typed(refer(None, plain())),
        ],
        Some(refer(None, plain())),
    ));
    assert_eq!(after.output, Some(refer(None, plain())));
    assert_eq!(after.generics, generics_of(&["__f0", "__f1"]));
}

#[test]
fn signature_without_return_type_gets_its_inputs_named() {
    // `fn f(x: &u8, y: &u8)`
    let after = normalize(signature(
        &[],
        vec![typed(refer(None, plain())), typed(refer(None, plain()))],
        None,
    ));
    assert_eq!(
        after,
        signature(
            &["__f0", "__f1"],
            vec![typed(refer(Some("__f0"), plain())), typed(refer(Some("__f1"), plain()))],
            None,
        )
    );
}

#[test]
fn signature_without_inputs_leaves_the_output_alone() {
    // `fn f() -> &'_ u8`
    let after = normalize(signature(&[], vec![], Some(refer(Some("_"), plain()))));
    assert_eq!(after, signature(&[], vec![], Some(refer(Some("_"), plain()))));
}

#[test]
fn every_slot_of_the_output_gets_the_elided_lifetime() {
    // `fn f(x: &u8) -> (&u8, Cow<'_, str>, &'static u8)`
    let after = normalize(signature(
        &[],
        vec![typed(refer(None, plain()))],
        Some(TypeTree::Composite(vec![
            refer(None, plain()),
            TypeTree::Composite(vec![argument("_"), plain()]),
            refer(Some("static"), plain()),
        ])),
    ));
    assert_eq!(
        after.output,
        Some(TypeTree::Composite(vec![
            refer(Some("__f0"), plain()),
            TypeTree::Composite(vec![argument("__f0"), plain()]),
            refer(Some("static"), plain()),
        ]))
    );
    assert_eq!(after.generics, generics_of(&["__f0"]));
}

#[test]
fn lifetime_in_a_function_pointer_input_is_not_counted() {
    // `fn f(x: &u8, g: fn(&u8) -> &u8) -> &u8`
    let pointer = || TypeTree::Opaque(Boundary::BareFn, vec![refer(None, plain()), refer(None, plain())]);
    let after = normalize(signature(
        &[],
        vec![typed(refer(None, plain())), typed(pointer())],
        Some(refer(None, plain())),
    ));
    assert_eq!(
        after,
        signature(
            &["__f0"],
            vec![typed(refer(Some("__f0"), plain())), typed(pointer())],
            Some(refer(Some("__f0"), plain())),
        )
    );
}

#[test]
fn lifetime_in_a_callback_bound_is_not_counted() {
    // `fn f(x: &u8, g: impl Fn(&'b u8) -> &'b u8) -> impl Fn(&u8) -> &u8 + '_`
    let bound = |lifetime: Option<&str>| {
        TypeTree::Opaque(
            Boundary::ParenthesizedArguments,
            vec![refer(lifetime, plain()), refer(lifetime, plain())],
        )
    };
    let after = normalize(signature(
        &["b"],
        vec![typed(refer(None, plain())), typed(TypeTree::Composite(vec![bound(Some("b"))]))],
        Some(TypeTree::Composite(vec![bound(None), argument("_")])),
    ));
    assert_eq!(
        after,
        signature(
            &["__f0", "b"],
            vec![
                typed(refer(Some("__f0"), plain())),
                typed(TypeTree::Composite(vec![bound(Some("b"))])),
            ],
            Some(TypeTree::Composite(vec![bound(None), argument("__f0")])),
        )
    );
}

#[test]
fn lifetime_in_the_referent_counts_as_a_second_one() {
    // `fn f<'a>(x: &'a &u8) -> &'_ u8`
    let after = normalize(signature(
        &["a"],
        vec![typed(refer(Some("a"), refer(None, plain())))],
        Some(refer(Some("_"), plain())),
    ));
    assert_eq!(
        after,
        signature(
            &["__f0", "a"],
            vec![typed(refer(Some("a"), refer(Some("__f0"), plain())))],
            Some(refer(Some("_"), plain())),
        )
    );
}

#[test]
fn new_lifetimes_of_a_signature_stand_before_its_parameters() {
    let mut input = signature(&["a"], vec![typed(refer(None, plain()))], None);
    input.generics.params.push(GenericParam::Type("T".to_string()));
    let after = normalize(input);
    assert_eq!(after.generics.params.len(), 3);
    assert_eq!(after.generics.params.get(0), Some(&GenericParam::Lifetime(Lifetime::new("__f0"))));
    assert_eq!(after.generics.params.get(1), Some(&GenericParam::Lifetime(Lifetime::new("a"))));
    assert_eq!(after.generics.params.get(2), Some(&GenericParam::Type("T".to_string())));
}

#[test]
fn normalizing_twice_changes_nothing_more_in_the_inputs() {
    let once = normalize(signature(
        &[],
        vec![self_by_reference(None), typed(refer(None, plain()))],
        Some(refer(None, plain())),
    ));
    let twice = normalize(normalize(signature(
        &[],
        vec![self_by_reference(None), typed(refer(None, plain()))],
        Some(refer(None, plain())),
    )));
    assert_eq!(once, twice);
}

#[test]
fn receiver_lifetime_is_looked_up_in_the_first_input_only() {
    let inputs = list(vec![typed(refer(Some("b"), plain())), self_by_reference(Some("a"))]);
    assert_eq!(find_receiver_lifetime(&inputs), None);
    let inputs = list(vec![self_by_reference(Some("a")), typed(refer(Some("b"), plain()))]);
    assert_eq!(find_receiver_lifetime(&inputs), Some(&Lifetime::new("a")));
    assert_eq!(find_receiver_lifetime(&Punctuated::new()), None);
}

#[test]
fn receiver_lifetime_of_the_shorthand_goes_before_that_of_the_type() {
    let inputs = list(vec![FnArg::Receiver(Receiver {
        reference: Some(Some(Lifetime::new("a"))),
        colon_token: false,
        ty: refer(Some("b"), plain()),
    })]);
    assert_eq!(find_receiver_lifetime(&inputs), Some(&Lifetime::new("a")));
    let inputs = list(vec![FnArg::Receiver(Receiver {
        reference: Some(None),
        colon_token: false,
        ty: refer(Some("b"), plain()),
    })]);
    assert_eq!(find_receiver_lifetime(&inputs), Some(&Lifetime::new("b")));
    let inputs = list(vec![self_by_value()]);
    assert_eq!(find_receiver_lifetime(&inputs), None);
    let inputs = list(vec![self_typed(refer(None, plain()))]);
    assert_eq!(find_receiver_lifetime(&inputs), None);
}

#[test]
fn single_input_lifetime_skips_the_receiver() {
    let inputs = list(vec![self_by_reference(Some("a")), typed(refer(Some("b"), plain()))]);
    assert_eq!(find_single_input_lifetime(&inputs), Some(&Lifetime::new("b")));
    let inputs = list(vec![self_by_reference(Some("a"))]);
    assert_eq!(find_single_input_lifetime(&inputs), None);
    let inputs = list(vec![typed(refer(Some("b"), plain())), typed(argument("c"))]);
    assert_eq!(find_single_input_lifetime(&inputs), None);
}

#[test]
fn elided_output_lifetime_follows_the_precedence() {
    let inputs = list(vec![self_by_reference(Some("a")), typed(refer(Some("b"), plain()))]);
    assert_eq!(find_elided_output_lifetime(&inputs), Some(&Lifetime::new("a")));
    let inputs = list(vec![self_by_value(), typed(refer(Some("b"), plain()))]);
    assert_eq!(find_elided_output_lifetime(&inputs), Some(&Lifetime::new("b")));
    let inputs = list(vec![typed(refer(Some("b"), plain())), typed(refer(Some("c"), plain()))]);
    assert_eq!(find_elided_output_lifetime(&inputs), None);
    let inputs = list(vec![typed(plain())]);
    assert_eq!(find_elided_output_lifetime(&inputs), None);
}

#[test]
fn header_with_one_anonymous_reference_gets_one_lifetime() {
    // `impl<T> Trait for &'_ T`
    let mut generics = Generics { params: Punctuated::new() };
    generics.params.push(GenericParam::Type("T".to_string()));
    let mut self_ty = refer(Some("_"), plain());
    normalize_header(&mut generics, &mut self_ty);
    assert_eq!(self_ty, refer(Some("__i0"), plain()));
    assert_eq!(generics.params.len(), 2);
    assert_eq!(generics.params.get(0), Some(&GenericParam::Lifetime(Lifetime::new("__i0"))));
    assert_eq!(generics.params.get(1), Some(&GenericParam::Type("T".to_string())));
}

#[test]
fn header_with_a_reference_field_gets_one_lifetime() {
    // `impl Wrapper<&'_ str, 'a>`
    let mut generics = generics_of(&["a"]);
    let mut self_ty =
        TypeTree::Composite(vec![refer(Some("_"), plain()), argument("a")]);
    normalize_header(&mut generics, &mut self_ty);
    assert_eq!(self_ty, TypeTree::Composite(vec![refer(Some("__i0"), plain()), argument("a")]));
    assert_eq!(generics, generics_of(&["__i0", "a"]));
}

#[test]
fn header_without_a_slot_is_left_alone() {
    let mut generics = generics_of(&["a"]);
    let mut self_ty = TypeTree::Composite(vec![argument("a")]);
    normalize_header(&mut generics, &mut self_ty);
    assert_eq!(self_ty, TypeTree::Composite(vec![argument("a")]));
    assert_eq!(generics, generics_of(&["a"]));
}

#[test]
fn function_of_an_impl_block_gets_its_signature_normalized() {
    let mut fn_item = ImplItemFn {
        sig: signature(&[], vec![self_by_reference(None)], Some(refer(None, plain()))),
    };
    NormalizeLifetimes.visit_impl_item_fn_mut(&mut fn_item);
    assert_eq!(
        fn_item.sig,
        signature(
            &["__f0"],
            vec![self_by_reference(Some("__f0"))],
            Some(refer(Some("__f0"), plain())),
        )
    );
}

#[test]
fn impl_block_gets_header_and_signatures_normalized() {
    // impl Wrapper<&u8> {
    //     fn get(&self) -> &u8;
    //     fn pick(x: &u8, y: &u8) -> &u8;
    // }
    let mut block = ItemImpl {
        generics: Generics { params: Punctuated::new() },
        self_ty: TypeTree::Composite(vec![refer(None, plain())]),
        items: vec![
            ImplItemFn {
                sig: signature(&[], vec![self_by_reference(None)], Some(refer(None, plain()))),
            },
            ImplItemFn {
                sig: signature(
                    &[],
                    vec![typed(refer(None, plain())), typed(refer(None, plain()))],
                    Some(refer(None, plain())),
                ),
            },
        ],
    };
    NormalizeLifetimes.visit_item_impl_mut(&mut block);
    assert_eq!(
        block,
        ItemImpl {
            generics: generics_of(&["__i0"]),
            self_ty: TypeTree::Composite(vec![refer(Some("__i0"), plain())]),
            items: vec![
                ImplItemFn {
                    sig: signature(
                        &["__f0"],
                        vec![self_by_reference(Some("__f0"))],
                        Some(refer(Some("__f0"), plain())),
                    ),
                },
                ImplItemFn {
                    sig: signature(
                        &["__f0", "__f1"],
                        vec![
                            typed(refer(Some("__f0"), plain())),
                            typed(refer(Some("__f1"), plain())),
                        ],
                        Some(refer(None, plain())),
                    ),
                },
            ],
        }
    );
}

#[test]
fn impl_block_without_functions_gets_its_header_normalized() {
    let mut block = ItemImpl {
        generics: Generics { params: Punctuated::new() },
        self_ty: refer(None, refer(None, plain())),
        items: vec![],
    };
    NormalizeLifetimes::default().visit_item_impl_mut(&mut block);
    assert_eq!(block.generics, generics_of(&["__i0", "__i1"]));
    assert_eq!(block.self_ty, refer(Some("__i0"), refer(Some("__i1"), plain())));
}

#[test]
fn trailing_commas_do_not_matter() {
    // `fn f<T,>(x: &u8, y: &u8,) -> &u8`
    let mut input = signature(
        &[],
        vec![typed(refer(None, plain())), typed(refer(None, plain()))],
        Some(refer(None, plain())),
    );
    input.generics.params.push(GenericParam::Type("T".to_string()));
    input.generics.params.push_punct(Comma::default());
    input.inputs.push_punct(Comma::default());
    let after = normalize(input);
    assert_eq!(
        after.generics.params.iter().cloned().collect::<Vec<GenericParam>>(),
        vec![
            GenericParam::Lifetime(Lifetime::new("__f0")),
            GenericParam::Lifetime(Lifetime::new("__f1")),
            GenericParam::Type("T".to_string()),
        ]
    );
    assert_eq!(
        after.inputs.into_iter().collect::<Vec<FnArg>>(),
        vec![typed(refer(Some("__f0"), plain())), typed(refer(Some("__f1"), plain()))]
    );
    assert_eq!(after.output, Some(refer(None, plain())));
}

#[test]
fn single_input_behind_a_trailing_comma_gives_the_output_lifetime() {
    // `fn f(x: &u8,) -> &u8`
    let mut input =
        signature(&[], vec![typed(refer(None, plain()))], Some(refer(None, plain())));
    input.inputs.push_punct(Comma::default());
    let after = normalize(input);
    assert_eq!(after.output, Some(refer(Some("__f0"), plain())));
    assert_eq!(after.generics, generics_of(&["__f0"]));
}
