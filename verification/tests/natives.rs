use interpreter_experiments::direct_eval::direct_eval;
use interpreter_experiments::hmm_eval::{hmm_call, hmm_step, Builtin, Callback, HmmState, Thunk};
use interpreter_experiments::{EvalError, EvalResult, Expr, Ns, Val};
use std::cell::RefCell;
use std::rc::Rc;

fn name(s: &str) -> Rc<String> {
    Rc::new(s.to_string())
}

fn put(i: i64) -> Rc<Expr> {
    Rc::new(Expr::Put(Rc::new(Val::Int(i))))
}

fn var(s: &str) -> Rc<Expr> {
    Rc::new(Expr::Name(name(s)))
}

fn lam(arg: &str, body: Rc<Expr>) -> Rc<Expr> {
    Rc::new(Expr::Lam { argname: name(arg), body })
}

fn call(func: Rc<Expr>, arg: Rc<Expr>) -> Rc<Expr> {
    Rc::new(Expr::Call { func, arg })
}

fn int_of(r: &EvalResult) -> i64 {
    match r {
        Ok(v) => match v.as_ref() {
            Val::Int(i) => *i,
            _ => panic!("not an integer"),
        },
        Err(e) => panic!("error: {:?}", e),
    }
}

fn run(expr: Rc<Expr>, ns: Rc<Ns>) -> (EvalResult, u64) {
    let mut state = HmmState::new(expr, ns);
    let mut steps = 0;
    loop {
        assert!(state.ready());
        steps += 1;
        if let Some(r) = state.step() {
            return (r, steps);
        }
        assert!(steps < 100_000);
    }
}

fn successor() -> Val {
    Val::Builtin(
        "succ",
        Builtin::new(|v: Rc<Val>| match v.as_ref() {
            Val::Int(i) => Thunk::Done(Ok(Rc::new(Val::Int(i + 1)))),
            _ => Thunk::Done(Err(EvalError::TypeMismatch("succ wants an integer"))),
        }),
    )
}

#[test]
fn native_function_is_called_with_the_argument() {
    let ns = Rc::new(Ns::new().entry("succ", successor()));
    let expr = call(var("succ"), put(41));
    let (r, steps) = run(expr.clone(), ns.clone());
    assert_eq!(int_of(&r), 42);
    assert_eq!(steps, 7);
    let direct = direct_eval(expr, ns, 10).expect("enough fuel");
    assert_eq!(int_of(&direct), 42);
}

#[test]
fn native_error_ends_the_evaluation() {
    let ns = Rc::new(Ns::new().entry("succ", successor()));
    let expr = call(var("succ"), lam("x", var("x")));
    let (r, _) = run(expr.clone(), ns.clone());
    match r {
        Err(EvalError::TypeMismatch(reason)) => assert_eq!(reason, "succ wants an integer"),
        _ => panic!("expected the error of the native function"),
    }
    match direct_eval(expr, ns, 10) {
        Some(Err(EvalError::TypeMismatch(reason))) => assert_eq!(reason, "succ wants an integer"),
        _ => panic!("expected the error of the native function"),
    }
}

#[test]
fn native_function_can_ask_for_elaboration() {
    // twice f = \x. f (f x), written natively: it answers with a closure
    // built by elaborating a lambda in a scope that binds f.
    let twice = Val::Builtin(
        "twice",
        Builtin::new(|f: Rc<Val>| {
            let scope = Rc::new(Ns::new().update(Rc::new("f".to_string()), f));
            let body = Rc::new(Expr::Lam {
                argname: Rc::new("x".to_string()),
                body: Rc::new(Expr::Call {
                    func: Rc::new(Expr::Name(Rc::new("f".to_string()))),
                    arg: Rc::new(Expr::Call {
                        func: Rc::new(Expr::Name(Rc::new("f".to_string()))),
                        arg: Rc::new(Expr::Name(Rc::new("x".to_string()))),
                    }),
                }),
            });
            Thunk::NeedElaboration(body, scope, Callback::Return)
        }),
    );
    let ns = Rc::new(Ns::new().entry("succ", successor()).entry("twice", twice));
    let expr = call(call(var("twice"), var("succ")), put(5));
    let (r, _) = run(expr.clone(), ns.clone());
    assert_eq!(int_of(&r), 7);
    let direct = direct_eval(expr, ns, 100).expect("enough fuel");
    assert_eq!(int_of(&direct), 7);
}

#[test]
fn native_function_can_continue_natively() {
    // Evaluates the name `y` in its own scope, then hands the value to succ.
    let then_succ = Val::Builtin(
        "y_plus_one",
        Builtin::new(|_ignored: Rc<Val>| {
            let scope = Rc::new(Ns::new().entry("y", Val::Int(10)));
            Thunk::NeedElaboration(
                Rc::new(Expr::Name(Rc::new("y".to_string()))),
                scope,
                Callback::Apply { fun: Rc::new(successor()) },
            )
        }),
    );
    let ns = Rc::new(Ns::new().entry("go", then_succ));
    let expr = call(var("go"), put(0));
    let (r, _) = run(expr.clone(), ns.clone());
    assert_eq!(int_of(&r), 11);
    let direct = direct_eval(expr, ns, 100).expect("enough fuel");
    assert_eq!(int_of(&direct), 11);
}

#[test]
fn side_effects_happen_in_the_same_order_under_both_strategies() {
    fn logging(label: i64, log: Rc<RefCell<Vec<i64>>>) -> Val {
        Val::Builtin(
            "log",
            Builtin::new(move |v: Rc<Val>| {
                log.borrow_mut().push(label);
                Thunk::Done(Ok(v))
            }),
        )
    }
    let log = Rc::new(RefCell::new(Vec::new()));
    let ns = Rc::new(
        Ns::new()
            .entry("a", logging(1, log.clone()))
            .entry("b", logging(2, log.clone()))
            .entry("c", logging(3, log.clone())),
    );
    // (a (\x. x)) ((b (\y. y)) (c 7))
    let expr = call(
        call(var("a"), lam("x", var("x"))),
        call(call(var("b"), lam("y", var("y"))), call(var("c"), put(7))),
    );
    let (r, _) = run(expr.clone(), ns.clone());
    assert_eq!(int_of(&r), 7);
    let stepped: Vec<i64> = log.borrow().clone();
    assert_eq!(stepped, vec![1, 2, 3]);
    log.borrow_mut().clear();
    let direct = direct_eval(expr, ns, 100).expect("enough fuel");
    assert_eq!(int_of(&direct), 7);
    assert_eq!(*log.borrow(), stepped);
}

#[test]
fn elaboration_of_a_literal_is_done() {
    let t = hmm_step(put(3), Rc::new(Ns::new()));
    match t {
        Thunk::Done(r) => assert_eq!(int_of(&r), 3),
        _ => panic!("expected a finished thunk"),
    }
}

#[test]
fn elaboration_of_a_name_looks_it_up() {
    let ns = Rc::new(Ns::new().entry("x", Val::Int(8)));
    match hmm_step(var("x"), ns.clone()) {
        Thunk::Done(r) => assert_eq!(int_of(&r), 8),
        _ => panic!("expected a finished thunk"),
    }
    match hmm_step(var("nope"), ns) {
        Thunk::Done(Err(EvalError::UndefinedName(n))) => assert_eq!(n, "nope"),
        _ => panic!("expected UndefinedName"),
    }
}

#[test]
fn elaboration_of_a_lambda_captures_a_child_scope() {
    let ns = Rc::new(Ns::new().entry("x", Val::Int(8)));
    match hmm_step(lam("y", var("x")), ns) {
        Thunk::Done(Ok(v)) => match v.as_ref() {
            Val::UserFn { argname, body, ns } => {
                assert_eq!(argname.as_str(), "y");
                assert!(matches!(body.as_ref(), Expr::Name(n) if n.as_str() == "x"));
                assert!(ns.lookup(name("x")).is_some());
                assert!(ns.lookup(name("y")).is_none());
            }
            _ => panic!("expected a closure"),
        },
        _ => panic!("expected a finished thunk"),
    }
}

#[test]
fn elaboration_of_a_call_asks_for_the_function_first() {
    let ns = Rc::new(Ns::new().entry("x", Val::Int(8)));
    match hmm_step(call(var("f"), var("x")), ns) {
        Thunk::NeedElaboration(need, scope, callback) => {
            assert!(matches!(need.as_ref(), Expr::Name(n) if n.as_str() == "f"));
            assert!(scope.lookup(name("x")).is_some());
            match callback {
                Callback::Argument { arg, ns } => {
                    assert!(matches!(arg.as_ref(), Expr::Name(n) if n.as_str() == "x"));
                    assert!(ns.lookup(name("x")).is_some());
                }
                _ => panic!("expected the callback that evaluates the argument"),
            }
        }
        _ => panic!("expected a request for elaboration"),
    }
}

#[test]
fn callbacks_resume_as_described() {
    let v = Rc::new(Val::Int(4));
    match Callback::Return.resume(v.clone()) {
        Thunk::Done(r) => assert_eq!(int_of(&r), 4),
        _ => panic!("expected a finished thunk"),
    }
    let waiting = Callback::Argument { arg: put(1), ns: Rc::new(Ns::new()) };
    match waiting.resume(v.clone()) {
        Thunk::NeedElaboration(need, _, Callback::Apply { fun }) => {
            assert!(matches!(need.as_ref(), Expr::Put(_)));
            assert!(Rc::ptr_eq(&fun, &v));
        }
        _ => panic!("expected a request for the argument"),
    }
    match (Callback::Apply { fun: v.clone() }).resume(v) {
        Thunk::Done(Err(EvalError::TypeMismatch(reason))) => {
            assert_eq!(reason, "Cannot call integer")
        }
        _ => panic!("expected TypeMismatch"),
    }
}

#[test]
fn applying_a_closure_binds_the_parameter() {
    let closure = Rc::new(Val::UserFn {
        argname: name("x"),
        body: var("x"),
        ns: Rc::new(Ns::new()),
    });
    match hmm_call(closure, Rc::new(Val::Int(12))) {
        Thunk::Done(r) => assert_eq!(int_of(&r), 12),
        _ => panic!("expected a finished thunk"),
    }
}

#[test]
fn applying_a_closure_does_not_bind_in_the_captured_scope() {
    let captured = Rc::new(Ns::new().entry("x", Val::Int(1)));
    let closure = Rc::new(Val::UserFn {
        argname: name("x"),
        body: var("x"),
        ns: captured.clone(),
    });
    match hmm_call(closure, Rc::new(Val::Int(2))) {
        Thunk::Done(r) => assert_eq!(int_of(&r), 2),
        _ => panic!("expected a finished thunk"),
    }
    match captured.lookup(name("x")).unwrap().as_ref() {
        Val::Int(i) => assert_eq!(*i, 1),
        _ => panic!("not an integer"),
    }
}
