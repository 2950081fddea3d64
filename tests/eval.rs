use monkey::ast::AST;
use monkey::eval::{apply, is_truthy, BinOp, Environment, EvalError, Evaluator, Object};
use monkey::lexer::tokenize;
use monkey::parser::Parser;

fn run(src: &str) -> Vec<Result<Object, EvalError>> {
    let tokens = tokenize(&src.to_string());
    let mut p = Parser::new(&tokens);
    assert_eq!(p.parse(), Ok(()));
    let mut ev = Evaluator::new();
    let mut out = vec![];
    for s in p.result {
        out.push(ev.eval(s, ev.global_env()));
    }
    out
}

#[test]
fn eval_add() {
    let mut ev = Evaluator::new();
    assert_eq!(
        Ok(Object::Integer(6)),
        ev.eval(
            AST::add(AST::add(AST::integer(1), AST::integer(3)), AST::integer(2)),
            ev.global_env()
        )
    );
}

#[test]
fn eval_multi() {
    let mut ev = Evaluator::new();
    assert_eq!(
        Ok(Object::Integer(100)),
        ev.eval(AST::multi(AST::integer(20), AST::integer(5)), ev.global_env())
    )
}

#[test]
fn eval_if() {
    let mut ev = Evaluator::new();
    assert_eq!(
        Ok(Object::Integer(0)),
        ev.eval(
            AST::if_stmt(AST::bool(true), AST::integer(0), None),
            ev.global_env()
        )
    );
    assert_eq!(
        Ok(Object::Null),
        ev.eval(
            AST::if_stmt(AST::bool(false), AST::integer(0), None),
            ev.global_env()
        )
    );
    assert_eq!(
        Ok(Object::Integer(2)),
        ev.eval(
            AST::if_stmt(AST::bool(false), AST::integer(0), Some(AST::integer(2))),
            ev.global_env()
        )
    );
    assert_eq!(
        Ok(Object::Integer(0)),
        ev.eval(
            AST::if_stmt(AST::integer(1), AST::integer(0), Some(AST::integer(2))),
            ev.global_env()
        )
    );
    assert_eq!(
        Ok(Object::Integer(2)),
        ev.eval(
            AST::if_stmt(
                AST::add(AST::integer(1), AST::integer(-1)),
                AST::integer(0),
                Some(AST::integer(2))
            ),
            ev.global_env()
        )
    );
    assert_eq!(
        Ok(Object::Integer(20)),
        ev.eval(
            AST::if_stmt(
                AST::bool(true),
                AST::if_stmt(AST::bool(false), AST::integer(10), Some(AST::integer(20))),
                Some(AST::integer(30))
            ),
            ev.global_env()
        )
    )
}

#[test]
fn eval_return() {
    let mut ev = Evaluator::new();
    assert_eq!(
        Ok(Object::Integer(2)),
        ev.eval(
            AST::return_stmt(AST::add(AST::integer(1), AST::integer(1))),
            ev.global_env()
        )
    );
}

#[test]
fn eval_compound() {
    let mut ev = Evaluator::new();
    assert_eq!(
        Ok(Object::Integer(10)),
        ev.eval(
            AST::compound_statement(vec![AST::integer(2), AST::integer(10)]),
            ev.global_env()
        )
    )
}

#[test]
fn eval_relational() {
    let mut ev = Evaluator::new();
    assert_eq!(
        Ok(Object::Bool(true)),
        ev.eval(AST::lt(AST::integer(1), AST::integer(2)), ev.global_env())
    );
}

#[test]
fn eval_let() {
    let mut ev = Evaluator::new();
    assert_eq!(
        Ok(Object::Integer(2)),
        ev.eval(AST::let_stmt("x".to_string(), AST::integer(2)), ev.global_env())
    );

    assert_eq!(
        Ok(Object::Integer(2)),
        ev.eval(AST::ident("x".to_string()), ev.global_env())
    );
    assert_eq!(
        Ok(Object::Integer(3)),
        ev.eval(
            AST::add(AST::ident("x".to_string()), AST::integer(1)),
            ev.global_env()
        )
    )
}

#[test]
fn eval_func() {
    let mut ev = Evaluator::new();
    let _ = ev.eval(
        AST::let_stmt(
            "x".to_string(),
            AST::fn_def(vec![], vec![AST::return_stmt(AST::integer(1))]),
        ),
        ev.global_env(),
    );
    assert_eq!(
        Ok(Object::Integer(1)),
        ev.eval(AST::fn_call("x".to_string(), vec![]), ev.global_env())
    );

    // let x = fn(x) {  return x + 1;}
    let _ = ev.eval(
        AST::let_stmt(
            "x".to_string(),
            AST::fn_def(
                vec!["x".to_string()],
                vec![AST::return_stmt(AST::add(
                    AST::integer(1),
                    AST::ident("x".to_string()),
                ))],
            ),
        ),
        ev.global_env(),
    );

    assert_eq!(
        Ok(Object::Integer(2)),
        ev.eval(
            AST::fn_call("x".to_string(), vec![AST::integer(1)]),
            ev.global_env()
        )
    );
}

// let twice = fn(f, x) {
//   return f(f(x));
// };
// twice(fn(a) { return a + 1;} 0);
#[test]
fn eval_closure() {
    let mut ev = Evaluator::new();
    let _ = ev.eval(
        AST::let_stmt(
            "twice".to_string(),
            AST::fn_def(
                vec!["f".to_string(), "x".to_string()],
                vec![AST::fn_call(
                    "f".to_string(),
                    vec![AST::fn_call(
                        "f".to_string(),
                        vec![AST::ident("x".to_string())],
                    )],
                )],
            ),
        ),
        ev.global_env(),
    );
    assert_eq!(
        Ok(Object::Integer(2)),
        ev.eval(
            AST::fn_call(
                "twice".to_string(),
                vec![
                    AST::fn_def(
                        vec!["a".to_string()],
                        vec![AST::return_stmt(AST::add(
                            AST::ident("a".to_string()),
                            AST::integer(1)
                        ))]
                    ),
                    AST::integer(0)
                ]
            ),
            ev.global_env()
        )
    );
}

#[test]
fn eval_closure_from_text() {
    let out = run("let twice = fn(f, x) { f(f(x)); }; twice(fn(a) { a + 1; }, 0);");
    assert_eq!(out[1], Ok(Object::Integer(2)));
}

#[test]
fn eval_closure_captures_its_scope() {
    let out = run("let adder = fn(x) { fn(y) { x + y; }; }; let addtwo = adder(2); addtwo(3);");
    assert_eq!(out[2], Ok(Object::Integer(5)));
}

#[test]
fn eval_recursion_sees_own_name() {
    let out = run("let f = fn(n) { if n { f(0); } else { 7; } }; f(1);");
    assert_eq!(out[1], Ok(Object::Integer(7)));
    let out = run("let g = fn() { g; }; g();");
    assert_eq!(out[1], Ok(Object::FnDef(0)));
}

#[test]
fn eval_unbounded_recursion_stops() {
    let out = run("let f = fn(n) { f(n); }; f(1);");
    assert_eq!(out[1], Err(EvalError::DepthExceeded));
}

#[test]
fn eval_undefined_name() {
    let mut ev = Evaluator::new();
    assert_eq!(
        Err(EvalError::NameError),
        ev.eval(AST::ident("nope".to_string()), ev.global_env())
    );
    assert_eq!(
        Err(EvalError::NameError),
        ev.eval(AST::fn_call("nope".to_string(), vec![]), ev.global_env())
    );
    let _ = ev.eval(AST::let_stmt("k".to_string(), AST::integer(3)), ev.global_env());
    assert_eq!(
        Err(EvalError::NameError),
        ev.eval(AST::fn_call("k".to_string(), vec![]), ev.global_env())
    );
}

#[test]
fn eval_boolean_operand() {
    let mut ev = Evaluator::new();
    assert_eq!(
        Err(EvalError::TypeError),
        ev.eval(AST::add(AST::bool(true), AST::integer(1)), ev.global_env())
    );
    assert_eq!(
        Err(EvalError::TypeError),
        ev.eval(AST::multi(AST::integer(1), AST::bool(false)), ev.global_env())
    );
    assert_eq!(
        Err(EvalError::TypeError),
        ev.eval(AST::lte(AST::bool(false), AST::integer(1)), ev.global_env())
    );
}

#[test]
fn eval_arithmetic_edges() {
    let mut ev = Evaluator::new();
    assert_eq!(
        Err(EvalError::Overflow),
        ev.eval(AST::add(AST::integer(i32::MAX), AST::integer(1)), ev.global_env())
    );
    assert_eq!(
        Err(EvalError::Overflow),
        ev.eval(AST::multi(AST::integer(65536), AST::integer(65536)), ev.global_env())
    );
    assert_eq!(
        Ok(Object::Integer(-3)),
        ev.eval(AST::minus(AST::integer(2), AST::integer(5)), ev.global_env())
    );
    assert_eq!(
        Ok(Object::Bool(true)),
        ev.eval(AST::lte(AST::integer(2), AST::integer(2)), ev.global_env())
    );
    assert_eq!(
        Ok(Object::Bool(false)),
        ev.eval(AST::lt(AST::integer(2), AST::integer(2)), ev.global_env())
    );
    assert_eq!(apply(BinOp::Mul, Object::Integer(-7), Object::Integer(6)), Ok(Object::Integer(-42)));
    assert_eq!(apply(BinOp::Sub, Object::Integer(i32::MIN), Object::Integer(1)), Err(EvalError::Overflow));
}

#[test]
fn eval_empty_block_is_null() {
    let mut ev = Evaluator::new();
    assert_eq!(
        Ok(Object::Null),
        ev.eval(AST::compound_statement(vec![]), ev.global_env())
    );
}

#[test]
fn eval_truthiness() {
    assert!(!is_truthy(Object::Integer(0)));
    assert!(!is_truthy(Object::Bool(false)));
    assert!(!is_truthy(Object::Null));
    assert!(is_truthy(Object::Integer(-1)));
    assert!(is_truthy(Object::Bool(true)));
    assert!(is_truthy(Object::FnDef(0)));
}

#[test]
fn eval_arguments_bind_by_position() {
    let out = run("let f = fn(a, b) { a; }; f(4); f(1, 2, 3);");
    assert_eq!(out[1], Ok(Object::Integer(4)));
    assert_eq!(out[2], Ok(Object::Integer(1)));
    let out = run("let g = fn(a, b) { b; }; g(4);");
    assert_eq!(out[1], Err(EvalError::NameError));
}

#[test]
fn environment_newest_binding_wins() {
    let mut e = Environment::new();
    assert_eq!(e.get(&"x".to_string()), None);
    assert_eq!(e.set("x".to_string(), Object::Integer(1)), Object::Integer(1));
    e.set("y".to_string(), Object::Bool(true));
    e.set("x".to_string(), Object::Integer(9));
    assert_eq!(e.get(&"x".to_string()), Some(Object::Integer(9)));
    assert_eq!(e.get(&"y".to_string()), Some(Object::Bool(true)));
}
