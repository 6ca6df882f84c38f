use interpreter_experiments::{EvalError, Items, Val};
use std::rc::Rc;

#[test]
fn integer_converts_to_int() {
    assert!(matches!(Val::from(5i64), Val::Int(5)));
    let v: Val = (-7i64).into();
    assert!(matches!(v, Val::Int(-7)));
}

#[test]
fn string_converts_to_str() {
    match Val::from(String::from("abc")) {
        Val::Str(s) => assert_eq!(s.as_str(), "abc"),
        _ => panic!("expected a string value"),
    }
}

#[test]
fn literal_converts_to_str() {
    match Val::from("lit") {
        Val::Str(s) => assert_eq!(s.as_str(), "lit"),
        _ => panic!("expected a string value"),
    }
}

#[test]
fn vector_converts_to_vec() {
    assert!(matches!(Val::from(vec![1i64, 2, 3]), Val::Vec(_)));
    assert!(matches!(Val::from(Vec::<i64>::new()), Val::Vec(_)));
    assert!(matches!(Val::from(vec![vec!["a", "b"], vec![]]), Val::Vec(_)));
}

#[test]
fn errors_can_be_cloned_and_shown() {
    let e = EvalError::UndefinedName("x".to_string());
    let c = e.clone();
    assert_eq!(format!("{:?}", c), "UndefinedName(\"x\")");
    assert_eq!(format!("{:?}", EvalError::TypeMismatch("t")), "TypeMismatch(\"t\")");
    assert_eq!(format!("{:?}", EvalError::Misc("m".to_string())), "Misc(\"m\")");
}

#[test]
fn vector_keeps_its_elements_in_order() {
    match Val::from(vec![10i64, 20, 30]) {
        Val::Vec(items) => {
            let back = items.to_vec();
            let ints: Vec<i64> = back
                .iter()
                .map(|v| match v.as_ref() {
                    Val::Int(i) => *i,
                    _ => panic!("not an integer"),
                })
                .collect();
            assert_eq!(ints, vec![10, 20, 30]);
        }
        _ => panic!("expected a vector value"),
    }
}

#[test]
fn items_share_the_values_they_were_built_from() {
    let a = Rc::new(Val::Int(1));
    let b = Rc::new(Val::from("two"));
    let items = Items::from_vec(vec![a.clone(), b.clone()]);
    let back = items.to_vec();
    assert_eq!(back.len(), 2);
    assert!(Rc::ptr_eq(&back[0], &a));
    assert!(Rc::ptr_eq(&back[1], &b));
    assert!(Items::from_vec(Vec::new()).to_vec().is_empty());
}
