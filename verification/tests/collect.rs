use normalize_lifetimes::collect::LifetimeCollector;
use normalize_lifetimes::elide::ElideOutputLifetime;
use normalize_lifetimes::lifetime::Lifetime;
use normalize_lifetimes::syntax::{Boundary, TypeReference, TypeTree};

fn unit() -> TypeTree {
    TypeTree::Composite(vec![])
}

fn borrow(lifetime: Option<&str>, elem: TypeTree) -> TypeTree {
    TypeTree::Reference(TypeReference {
        lifetime: lifetime.map(Lifetime::new),
        elem: Box::new(elem),
    })
}

fn named(ident: &str) -> TypeTree {
    TypeTree::Lifetime(Lifetime::new(ident))
}

#[test]
fn collector_goes_from_empty_to_single_to_multiple() {
    let a = Lifetime::new("a");
    let b = Lifetime::new("b");
    let c = Lifetime::new("c");
    let mut collector = LifetimeCollector::Empty;
    collector.visit_lifetime(&a);
    assert_eq!(collector, LifetimeCollector::Single(&a));
    collector.visit_lifetime(&b);
    assert_eq!(collector, LifetimeCollector::Multiple);
    collector.visit_lifetime(&c);
    assert_eq!(collector, LifetimeCollector::Multiple);
}

#[test]
fn collector_counts_a_lifetime_each_time_it_is_written() {
    let a = Lifetime::new("a");
    let mut collector = LifetimeCollector::Empty;
    collector.visit_lifetime(&a);
    collector.visit_lifetime(&a);
    assert_eq!(collector, LifetimeCollector::Multiple);
}

#[test]
fn collector_finds_nothing_in_a_type_without_lifetimes() {
    let tree = TypeTree::Composite(vec![unit(), borrow(None, unit())]);
    let mut collector = LifetimeCollector::Empty;
    collector.visit_type(&tree);
    assert_eq!(collector, LifetimeCollector::Empty);
}

#[test]
fn collector_finds_the_lifetime_of_a_reference() {
    let tree = borrow(Some("a"), unit());
    let mut collector = LifetimeCollector::Empty;
    collector.visit_type(&tree);
    assert_eq!(collector, LifetimeCollector::Single(&Lifetime::new("a")));
}

#[test]
fn collector_finds_a_lifetime_in_argument_position() {
    let tree = TypeTree::Composite(vec![unit(), TypeTree::Composite(vec![named("b"), unit()])]);
    let mut collector = LifetimeCollector::Empty;
    collector.visit_type(&tree);
    assert_eq!(collector, LifetimeCollector::Single(&Lifetime::new("b")));
}

#[test]
fn collector_counts_anonymous_and_static_lifetimes_too() {
    let tree = borrow(Some("_"), unit());
    let mut collector = LifetimeCollector::Empty;
    collector.visit_type(&tree);
    assert_eq!(collector, LifetimeCollector::Single(&Lifetime::new("_")));
    let tree = borrow(Some("static"), unit());
    collector.visit_type(&tree);
    assert_eq!(collector, LifetimeCollector::Multiple);
}

#[test]
fn collector_meets_the_outer_lifetime_first() {
    let tree = borrow(Some("a"), borrow(Some("b"), unit()));
    let mut collector = LifetimeCollector::Empty;
    collector.visit_type(&tree);
    assert_eq!(collector, LifetimeCollector::Multiple);

    let tree = borrow(Some("a"), borrow(None, unit()));
    let mut collector = LifetimeCollector::Empty;
    collector.visit_type(&tree);
    assert_eq!(collector, LifetimeCollector::Single(&Lifetime::new("a")));
}

#[test]
fn collector_counts_the_same_lifetime_in_two_parts_twice() {
    let tree = TypeTree::Composite(vec![borrow(Some("a"), unit()), borrow(Some("a"), unit())]);
    let mut collector = LifetimeCollector::Empty;
    collector.visit_type(&tree);
    assert_eq!(collector, LifetimeCollector::Multiple);
}

#[test]
fn collector_does_not_enter_a_boundary() {
    for boundary in [Boundary::BareFn, Boundary::ParenthesizedArguments, Boundary::Item] {
        let tree = TypeTree::Composite(vec![
            TypeTree::Opaque(boundary, vec![borrow(Some("x"), unit()), named("y")]),
            borrow(Some("a"), unit()),
        ]);
        let mut collector = LifetimeCollector::Empty;
        collector.visit_type(&tree);
        assert_eq!(collector, LifetimeCollector::Single(&Lifetime::new("a")));
    }
}

#[test]
fn collector_goes_on_from_where_it_stands() {
    let first = borrow(Some("a"), unit());
    let second = unit();
    let third = named("b");
    let mut collector = LifetimeCollector::Empty;
    collector.visit_type(&first);
    collector.visit_type(&second);
    assert_eq!(collector, LifetimeCollector::Single(&Lifetime::new("a")));
    collector.visit_type(&third);
    assert_eq!(collector, LifetimeCollector::Multiple);
}

#[test]
fn collector_on_a_reference_alone() {
    let reference = TypeReference { lifetime: Some(Lifetime::new("r")), elem: Box::new(unit()) };
    let mut collector = LifetimeCollector::Empty;
    collector.visit_type_reference(&reference);
    assert_eq!(collector, LifetimeCollector::Single(&Lifetime::new("r")));
}

fn elide(elided: &str, tree: &mut TypeTree) {
    let elided_lifetime = Lifetime::new(elided);
    let mut visitor = ElideOutputLifetime { elided_lifetime: &elided_lifetime };
    visitor.visit_type_mut(tree);
}

#[test]
fn elider_replaces_an_anonymous_lifetime() {
    let mut lifetime = Lifetime::new("_");
    let elided_lifetime = Lifetime::new("a");
    let mut visitor = ElideOutputLifetime { elided_lifetime: &elided_lifetime };
    visitor.visit_lifetime_mut(&mut lifetime);
    assert_eq!(lifetime, Lifetime::new("a"));
}

#[test]
fn elider_keeps_a_named_lifetime() {
    let mut lifetime = Lifetime::new("b");
    let elided_lifetime = Lifetime::new("a");
    let mut visitor = ElideOutputLifetime { elided_lifetime: &elided_lifetime };
    visitor.visit_lifetime_mut(&mut lifetime);
    assert_eq!(lifetime, Lifetime::new("b"));
}

#[test]
fn elider_fills_a_reference_without_lifetime() {
    let mut tree = borrow(None, unit());
    elide("a", &mut tree);
    assert_eq!(tree, borrow(Some("a"), unit()));
}

#[test]
fn elider_fills_every_slot_with_the_same_lifetime() {
    // `(&T, &'_ &U, Cow<'_, str>, &'b V)`
    let mut tree = TypeTree::Composite(vec![
        borrow(None, unit()),
        borrow(Some("_"), borrow(None, unit())),
        TypeTree::Composite(vec![named("_"), unit()]),
        borrow(Some("b"), unit()),
    ]);
    elide("__f0", &mut tree);
    assert_eq!(
        tree,
        TypeTree::Composite(vec![
            borrow(Some("__f0"), unit()),
            borrow(Some("__f0"), borrow(Some("__f0"), unit())),
            TypeTree::Composite(vec![named("__f0"), unit()]),
            borrow(Some("b"), unit()),
        ])
    );
}

#[test]
fn elider_does_not_enter_a_boundary() {
    for boundary in [Boundary::BareFn, Boundary::ParenthesizedArguments, Boundary::Item] {
        let mut tree = borrow(
            None,
            TypeTree::Opaque(boundary, vec![borrow(None, unit()), named("_")]),
        );
        elide("a", &mut tree);
        assert_eq!(
            tree,
            borrow(
                Some("a"),
                TypeTree::Opaque(boundary, vec![borrow(None, unit()), named("_")]),
            )
        );
    }
}

#[test]
fn elider_on_a_reference_alone() {
    let mut reference = TypeReference { lifetime: None, elem: Box::new(borrow(None, unit())) };
    let elided_lifetime = Lifetime::new("a");
    let mut visitor = ElideOutputLifetime { elided_lifetime: &elided_lifetime };
    visitor.visit_type_reference_mut(&mut reference);
    assert_eq!(
        reference,
        TypeReference {
            lifetime: Some(Lifetime::new("a")),
            elem: Box::new(borrow(Some("a"), unit())),
        }
    );
    assert_eq!(visitor.elided_lifetime, &Lifetime::new("a"));
}
