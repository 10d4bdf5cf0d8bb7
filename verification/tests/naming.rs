use normalize_lifetimes::lifetime::Lifetime;
use normalize_lifetimes::naming::{is_anonymous_ident, make_fresh_ident, push_decimal};

#[test]
fn fresh_ident_of_the_first_slot() {
    assert_eq!(make_fresh_ident("f", 0), "__f0");
    assert_eq!(make_fresh_ident("i", 0), "__i0");
}

#[test]
fn fresh_ident_counts_in_decimal() {
    assert_eq!(make_fresh_ident("f", 9), "__f9");
    assert_eq!(make_fresh_ident("f", 10), "__f10");
    assert_eq!(make_fresh_ident("f", 123), "__f123");
    assert_eq!(make_fresh_ident("f", 1000), "__f1000");
}

#[test]
fn fresh_ident_keeps_the_prefix_as_given() {
    assert_eq!(make_fresh_ident("", 7), "__7");
    assert_eq!(make_fresh_ident("impl_", 42), "__impl_42");
}

#[test]
fn fresh_idents_of_different_slots_differ() {
    let mut seen: Vec<String> = Vec::new();
    for index in 0..200 {
        let ident = make_fresh_ident("f", index);
        assert!(!seen.contains(&ident));
        seen.push(ident);
    }
}

#[test]
fn fresh_ident_is_never_anonymous() {
    for index in 0..50 {
        assert!(!is_anonymous_ident(&make_fresh_ident("", index)));
    }
}

#[test]
fn push_decimal_appends_to_what_is_there() {
    let mut text = String::from("n=");
    push_decimal(&mut text, 0);
    assert_eq!(text, "n=0");
    push_decimal(&mut text, 907);
    assert_eq!(text, "n=0907");
}

#[test]
fn push_decimal_of_the_largest_number() {
    let mut text = String::new();
    push_decimal(&mut text, usize::MAX);
    assert_eq!(text, format!("{}", usize::MAX));
}

#[test]
fn only_the_underscore_is_anonymous() {
    assert!(is_anonymous_ident("_"));
    assert!(!is_anonymous_ident(""));
    assert!(!is_anonymous_ident("__"));
    assert!(!is_anonymous_ident("a"));
    assert!(!is_anonymous_ident("_a"));
    assert!(!is_anonymous_ident("static"));
}

#[test]
fn lifetime_knows_whether_it_is_anonymous() {
    assert!(Lifetime::new("_").is_anonymous());
    assert!(!Lifetime::new("a").is_anonymous());
    assert!(!Lifetime::new("__f0").is_anonymous());
}

#[test]
fn lifetime_is_written_with_an_apostrophe() {
    assert_eq!(Lifetime::new("a").to_source(), "'a");
    assert_eq!(Lifetime::new("_").to_source(), "'_");
    assert_eq!(Lifetime::new("__f12").to_source(), "'__f12");
}

#[test]
fn lifetime_clone_has_the_same_identifier() {
    let lifetime = Lifetime::new("long_name");
    assert_eq!(lifetime.clone(), lifetime);
    assert_eq!(lifetime.clone().ident, "long_name");
}
