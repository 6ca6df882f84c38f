use interpreter_experiments::hmm_eval::{Builtin, Thunk};
use interpreter_experiments::show::result_text;
use interpreter_experiments::{EvalError, EvalResult, Expr, Ns, Val};
use std::rc::Rc;

fn name(s: &str) -> Rc<String> {
    Rc::new(s.to_string())
}

#[test]
fn integers_are_shown_in_decimal() {
    assert_eq!(Val::Int(0).to_text(), "Int(0)");
    assert_eq!(Val::Int(69).to_text(), "Int(69)");
    assert_eq!(Val::Int(-420).to_text(), "Int(-420)");
    assert_eq!(Val::Int(i64::MAX).to_text(), "Int(9223372036854775807)");
    assert_eq!(Val::Int(i64::MIN).to_text(), "Int(-9223372036854775808)");
}

#[test]
fn strings_are_shown_as_literals() {
    assert_eq!(Val::from("abc").to_text(), "Str(\"abc\")");
    assert_eq!(Val::from("").to_text(), "Str(\"\")");
    assert_eq!(Val::from("a\"b\n").to_text(), "Str(\"a\\\"b\\n\")");
}

#[test]
fn vectors_show_their_elements_in_order() {
    assert_eq!(Val::from(vec![1i64, 2, 3]).to_text(), "Vec([Int(1), Int(2), Int(3)])");
    assert_eq!(Val::from(vec![7i64]).to_text(), "Vec([Int(7)])");
    assert_eq!(Val::from(Vec::<i64>::new()).to_text(), "Vec([])");
    assert_eq!(
        Val::from(vec![vec!["a", "b"], vec![]]).to_text(),
        "Vec([Vec([Str(\"a\"), Str(\"b\")]), Vec([])])"
    );
}

#[test]
fn long_vectors_keep_every_element() {
    let v: Vec<i64> = (0..200).collect();
    let expected = format!(
        "Vec([{}])",
        v.iter().map(|i| format!("Int({})", i)).collect::<Vec<_>>().join(", ")
    );
    assert_eq!(Val::from(v).to_text(), expected);
}

#[test]
fn functions_show_their_name_only() {
    let native = Val::Builtin("succ", Builtin::new(|v: Rc<Val>| Thunk::Done(Ok(v))));
    assert_eq!(native.to_text(), "BuiltinFn(\"succ\", \"...\")");
    let closure = Val::UserFn {
        argname: name("x"),
        body: Rc::new(Expr::Name(name("x"))),
        ns: Rc::new(Ns::new()),
    };
    assert_eq!(closure.to_text(), "UserFn(\"x\", \"...\")");
}

#[test]
fn expressions_show_their_tree() {
    let x = Rc::new(Expr::Name(name("x")));
    let five = Rc::new(Expr::Put(Rc::new(Val::Int(5))));
    let lam = Rc::new(Expr::Lam { argname: name("x"), body: x.clone() });
    let call = Expr::Call { func: lam.clone(), arg: five.clone() };
    assert_eq!(x.to_text(), "Name(\"x\")");
    assert_eq!(five.to_text(), "Put(Int(5))");
    assert_eq!(lam.to_text(), "Lam { argname: \"x\", body: Name(\"x\") }");
    assert_eq!(
        call.to_text(),
        "Call { func: Lam { argname: \"x\", body: Name(\"x\") }, arg: Put(Int(5)) }"
    );
}

#[test]
fn errors_show_their_variant() {
    assert_eq!(
        EvalError::TypeMismatch("Cannot call integer").to_text(),
        "TypeMismatch(\"Cannot call integer\")"
    );
    assert_eq!(EvalError::UndefinedName("x".to_string()).to_text(), "UndefinedName(\"x\")");
    assert_eq!(
        EvalError::Misc("Too many steps!".to_string()).to_text(),
        "Misc(\"Too many steps!\")"
    );
}

#[test]
fn error_text_is_its_debug_form() {
    for e in [
        EvalError::TypeMismatch("Cannot call vec"),
        EvalError::UndefinedName("some \"name\"".to_string()),
        EvalError::Misc("m".to_string()),
    ] {
        assert_eq!(e.to_text(), format!("{:?}", e));
    }
}

#[test]
fn results_show_ok_or_err() {
    let ok: EvalResult = Ok(Rc::new(Val::Int(69)));
    assert_eq!(result_text(&ok), "Ok(Int(69))");
    let err: EvalResult = Err(EvalError::UndefinedName("x".to_string()));
    assert_eq!(result_text(&err), "Err(UndefinedName(\"x\"))");
}

#[test]
fn selection_program_prints_its_result() {
    let nil_closure = Rc::new(Ns::new());
    let builtins = Ns::new()
        .entry(
            "tru",
            Val::UserFn {
                argname: name("x"),
                body: Rc::new(Expr::Lam { argname: name("__y"), body: Rc::new(Expr::Name(name("x"))) }),
                ns: nil_closure.clone(),
            },
        )
        .entry(
            "lie",
            Val::UserFn {
                argname: name("__x"),
                body: Rc::new(Expr::Lam { argname: name("y"), body: Rc::new(Expr::Name(name("y"))) }),
                ns: nil_closure,
            },
        );
    let var = |s: &str| Rc::new(Expr::Name(name(s)));
    let put = |i: i64| Rc::new(Expr::Put(Rc::new(Val::Int(i))));
    let call = |func: Rc<Expr>, arg: Rc<Expr>| Rc::new(Expr::Call { func, arg });
    let expr = call(
        call(var("lie"), put(420)),
        call(
            call(var("tru"), put(55)),
            Rc::new(Expr::Lam { argname: name("x"), body: call(var("x"), var("lie")) }),
        ),
    );
    let mut state = interpreter_experiments::hmm_eval::HmmState::new(expr, Rc::new(builtins));
    let (report, steps) = state.drive(u64::MAX);
    assert_eq!(format!("Result: {}", result_text(&report.unwrap())), "Result: Ok(Int(55))");
    assert_eq!(format!("Steps: {:?}", steps), "Steps: 19");
}
