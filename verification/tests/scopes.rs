use interpreter_experiments::{Ns, Val};
use std::rc::Rc;

fn name(s: &str) -> Rc<String> {
    Rc::new(s.to_string())
}

fn num(i: i64) -> Rc<Val> {
    Rc::new(Val::Int(i))
}

fn looked_up(ns: &Ns, key: &str) -> Option<i64> {
    ns.lookup(name(key)).map(|v| match v.as_ref() {
        Val::Int(i) => *i,
        _ => panic!("not an integer"),
    })
}

#[test]
fn new_scope_binds_nothing() {
    let ns = Ns::new();
    assert_eq!(looked_up(&ns, "x"), None);
    assert_eq!(looked_up(&Ns::default(), "x"), None);
}

#[test]
fn update_binds_the_name() {
    let ns = Ns::new().update(name("x"), num(1));
    assert_eq!(looked_up(&ns, "x"), Some(1));
    assert_eq!(looked_up(&ns, "y"), None);
}

#[test]
fn update_overrides_in_the_same_frame() {
    let ns = Ns::new().update(name("x"), num(1)).update(name("x"), num(2));
    assert_eq!(looked_up(&ns, "x"), Some(2));
}

#[test]
fn update_leaves_the_old_frame_alone() {
    let old = Ns::new().update(name("x"), num(1));
    let new = old.update(name("x"), num(2)).update(name("y"), num(3));
    assert_eq!(looked_up(&old, "x"), Some(1));
    assert_eq!(looked_up(&old, "y"), None);
    assert_eq!(looked_up(&new, "x"), Some(2));
    assert_eq!(looked_up(&new, "y"), Some(3));
}

#[test]
fn child_binding_shadows_the_parent() {
    let parent = Rc::new(Ns::new().update(name("x"), num(1)).update(name("y"), num(10)));
    let child = parent.clone().child().update(name("x"), num(2));
    assert_eq!(looked_up(&child, "x"), Some(2));
    assert_eq!(looked_up(&child, "y"), Some(10));
    assert_eq!(looked_up(&parent, "x"), Some(1));
}

#[test]
fn binding_in_a_child_does_not_reach_the_parent() {
    let parent = Rc::new(Ns::new().update(name("x"), num(1)));
    let child = parent.clone().child().update(name("z"), num(5));
    assert_eq!(looked_up(&child, "z"), Some(5));
    assert_eq!(looked_up(&parent, "z"), None);
    assert_eq!(looked_up(&parent, "x"), Some(1));
}

#[test]
fn lookup_walks_through_several_frames() {
    let root = Rc::new(Ns::new().update(name("a"), num(1)));
    let mid = Rc::new(root.child().update(name("b"), num(2)));
    let leaf = Rc::new(mid.clone().child()).child().update(name("c"), num(3));
    assert_eq!(looked_up(&leaf, "a"), Some(1));
    assert_eq!(looked_up(&leaf, "b"), Some(2));
    assert_eq!(looked_up(&leaf, "c"), Some(3));
    assert_eq!(looked_up(&leaf, "d"), None);
    assert_eq!(looked_up(&mid, "c"), None);
}

#[test]
fn empty_child_sees_only_the_parent() {
    let parent = Rc::new(Ns::new().update(name("x"), num(7)));
    let child = parent.child();
    assert_eq!(looked_up(&child, "x"), Some(7));
}

#[test]
fn entry_binds_under_the_given_name() {
    let ns = Ns::new().entry("answer", Val::Int(42)).entry("other", Val::Int(1));
    assert_eq!(looked_up(&ns, "answer"), Some(42));
    assert_eq!(looked_up(&ns, "other"), Some(1));
    assert_eq!(looked_up(&ns, "absent"), None);
}

#[test]
fn names_are_compared_by_content() {
    let ns = Ns::new().update(Rc::new(String::from("key")), num(1));
    let other_pointer = Rc::new(format!("{}{}", "ke", "y"));
    assert!(ns.lookup(other_pointer).is_some());
}

#[test]
fn lookup_shares_the_stored_value() {
    let stored = num(11);
    let ns = Ns::new().update(name("x"), stored.clone());
    let found = ns.lookup(name("x")).unwrap();
    assert!(Rc::ptr_eq(&stored, &found));
}
