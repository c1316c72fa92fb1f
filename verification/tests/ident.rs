use std::cmp::Ordering;
use std::collections::hash_map::DefaultHasher;
use std::hash::{Hash, Hasher};

use devise::proc_macro2::Span;
use rocket_core::ident::Ident;

fn hash_of<T: Hash>(value: &T) -> u64 {
    let mut hasher = DefaultHasher::new();
    value.hash(&mut hasher);
    hasher.finish()
}

fn ident(text: &str) -> Ident {
    Ident::new(text, Span::call_site())
}

#[test]
fn raw_identifiers_start_with_r_hash() {
    assert!(ident("r#type").is_raw());
    assert!(ident("r#a").is_raw());
    assert!(ident("r#").is_raw());
    assert!(!ident("type").is_raw());
    assert!(!ident("r").is_raw());
    assert!(!ident("").is_raw());
    assert!(!ident("rr#x").is_raw());
    assert!(!ident("R#x").is_raw());
    assert!(!ident("r_#x").is_raw());
}

#[test]
fn name_drops_the_raw_prefix() {
    assert_eq!(ident("r#type").name(), "type");
    assert_eq!(ident("type").name(), "type");
    assert_eq!(ident("r#r#x").name(), "r#x");
    assert_eq!(ident("r#").name(), "");
    assert_eq!(ident("r").name(), "r");
    assert_eq!(ident("größe").name(), "größe");
    assert_eq!(ident("r#größe").name(), "größe");
}

#[test]
fn text_is_kept_as_written() {
    assert_eq!(ident("r#type").as_written(), "r#type");
    assert_eq!(ident("plain").as_written(), "plain");
}

#[test]
fn prepend_puts_the_string_before_the_name() {
    let param = ident("r#enum").prepend("__rocket_param_");
    assert_eq!(param.as_written(), "__rocket_param_enum");
    assert_eq!(param.name(), "__rocket_param_enum");
    assert!(!param.is_raw());
    let plain = ident("id").prepend("__rocket_param_");
    assert_eq!(plain.as_written(), "__rocket_param_id");
    let raw_again = ident("x").prepend("r#");
    assert!(raw_again.is_raw());
    assert_eq!(raw_again.name(), "x");
    assert_eq!(ident("x").prepend("").as_written(), "x");
}

#[test]
fn identifiers_are_equal_by_name() {
    assert!(ident("r#type") == ident("type"));
    assert!(ident("type") == ident("r#type"));
    assert!(ident("a") == ident("a"));
    assert!(ident("a") != ident("b"));
    assert!(ident("r#a") != ident("r#b"));
    assert!(ident("r#a") != ident("ra"));
}

#[test]
fn identifiers_compare_with_text_by_name() {
    assert!(ident("r#type").is_named("type"));
    assert!(ident("type").is_named("type"));
    assert!(!ident("r#type").is_named("r#type"));
    assert!(!ident("type").is_named("typ"));
}

#[test]
fn span_and_clone_are_kept() {
    let span = Span::call_site();
    let one = Ident::new("r#x", span);
    assert_eq!(format!("{:?}", one.span()), format!("{:?}", span));
    let two = one.clone();
    assert_eq!(two.as_written(), "r#x");
    assert!(two.is_raw());
    assert_eq!(format!("{:?}", two.span()), format!("{:?}", span));
    let three = one.prepend("p_");
    assert_eq!(format!("{:?}", three.span()), format!("{:?}", span));
}

#[test]
fn identifiers_are_ordered_by_name() {
    assert_eq!(ident("a").partial_cmp(&ident("b")), Some(Ordering::Less));
    assert_eq!(ident("b").partial_cmp(&ident("a")), Some(Ordering::Greater));
    assert_eq!(ident("a").partial_cmp(&ident("a")), Some(Ordering::Equal));
    assert_eq!(ident("r#a").partial_cmp(&ident("a")), Some(Ordering::Equal));
    assert_eq!(ident("r#b").partial_cmp(&ident("a")), Some(Ordering::Greater));
    assert_eq!(ident("r#a").partial_cmp(&ident("b")), Some(Ordering::Less));
    assert_eq!(ident("ab").partial_cmp(&ident("abc")), Some(Ordering::Less));
    assert_eq!(ident("abc").partial_cmp(&ident("ab")), Some(Ordering::Greater));
    assert_eq!(ident("").partial_cmp(&ident("a")), Some(Ordering::Less));
    assert_eq!(ident("").partial_cmp(&ident("r#")), Some(Ordering::Equal));
    assert_eq!(ident("abd").partial_cmp(&ident("abcz")), Some(Ordering::Greater));
    assert!(ident("a") < ident("b"));
    assert!(ident("r#z") > ident("y"));
    assert!(ident("r#y") <= ident("y"));
    assert!(ident("y") >= ident("r#y"));
}

#[test]
fn order_agrees_with_the_order_of_strings() {
    let names = ["", "a", "A", "ab", "abc", "b", "z", "ä", "é", "日本", "_x", "x1", "x10", "x2", "\u{10348}"];
    for a in names {
        for b in names {
            assert_eq!(ident(a).partial_cmp(&ident(b)), a.partial_cmp(b), "{:?} and {:?}", a, b);
            assert_eq!(ident(a) == ident(b), a == b);
        }
    }
}

#[test]
fn identifiers_hash_as_their_names() {
    assert_eq!(hash_of(&ident("r#type")), hash_of(&ident("type")));
    assert_eq!(hash_of(&ident("type")), hash_of(&String::from("type")));
    assert_ne!(hash_of(&ident("type")), hash_of(&ident("types")));
}

#[test]
fn raw_and_plain_are_one_key() {
    let mut seen = std::collections::HashSet::new();
    assert!(seen.insert(ident("r#type")));
    assert!(!seen.insert(ident("type")));
    assert!(seen.insert(ident("types")));
    assert!(seen.contains(&ident("r#types")));
    assert_eq!(seen.len(), 2);
}
