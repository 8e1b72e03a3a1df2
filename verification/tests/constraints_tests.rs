use kettu::constraints::{
    collect_free_vars, const_value, eval_binary_bool, eval_binary_constraint,
    eval_constraint_with_value_map, fmt_constraint_with_value_map, fmt_op, get_arg_name,
    substitute_expr_ident, BinOp, ConstraintEvalResult, Expr, ExprList,
};
use kettu::name_map::NameMap;

fn ident(name: &str) -> Expr {
    Expr::Ident(name.to_string())
}

fn binary(lhs: Expr, op: BinOp, rhs: Expr) -> Expr {
    Expr::Binary { lhs: Box::new(lhs), op, rhs: Box::new(rhs) }
}

fn args(v: Vec<Expr>) -> ExprList {
    v.into_iter().rev().fold(ExprList::Nil, |tail, e| ExprList::Cons(Box::new(e), Box::new(tail)))
}

fn arg_count(l: &ExprList) -> usize {
    match l {
        ExprList::Nil => 0,
        ExprList::Cons(_, t) => 1 + arg_count(t),
    }
}

#[test]
fn binary_operators_evaluate_like_rust() {
    assert_eq!(eval_binary_constraint(BinOp::Add, 2, 3), Some(5));
    assert_eq!(eval_binary_constraint(BinOp::Sub, 2, 3), Some(-1));
    assert_eq!(eval_binary_constraint(BinOp::Mul, -4, 3), Some(-12));
    assert_eq!(eval_binary_constraint(BinOp::Div, -7, 2), Some(-3));
    assert_eq!(eval_binary_constraint(BinOp::Div, 7, 0), None);
    assert_eq!(eval_binary_constraint(BinOp::Lt, 1, 2), Some(1));
    assert_eq!(eval_binary_constraint(BinOp::Ge, 1, 2), Some(0));
    assert_eq!(eval_binary_constraint(BinOp::And, 1, 1), None);
    assert!(eval_binary_bool(BinOp::Ne, 1, 2));
    assert!(!eval_binary_bool(BinOp::Or, 1, 1));
}

#[test]
fn constant_values_fold_through_operators() {
    let mut consts = NameMap::new();
    consts.insert("n".to_string(), 6i64);
    let e = binary(Expr::Neg(Box::new(ident("n"))), BinOp::Mul, Expr::Integer(2));
    assert_eq!(const_value(&e, &consts), Some(-12));
    assert_eq!(const_value(&ident("m"), &consts), None);
    assert_eq!(const_value(&Expr::Text("s".to_string()), &consts), None);
    assert_eq!(const_value(&binary(ident("n"), BinOp::Div, Expr::Integer(0)), &consts), None);
}

#[test]
fn free_variables_skip_constants_and_locals() {
    let mut consts = NameMap::new();
    consts.insert("k".to_string(), 1i64);
    let locals = vec!["l".to_string()];
    let e = binary(
        binary(ident("a"), BinOp::Add, ident("k")),
        BinOp::Lt,
        Expr::Call { func: Box::new(ident("f")), args: args(vec![ident("l"), ident("b"), ident("a")]) },
    );
    assert_eq!(collect_free_vars(&e, &consts, &locals), vec!["a", "f", "b"]);
}

#[test]
fn operators_print_as_written() {
    let all = [
        (BinOp::Add, "+"), (BinOp::Sub, "-"), (BinOp::Mul, "*"), (BinOp::Div, "/"),
        (BinOp::Eq, "=="), (BinOp::Ne, "!="), (BinOp::Lt, "<"), (BinOp::Le, "<="),
        (BinOp::Gt, ">"), (BinOp::Ge, ">="), (BinOp::And, "&&"), (BinOp::Or, "||"),
    ];
    for (op, text) in all {
        assert_eq!(fmt_op(op), text);
    }
}

#[test]
fn argument_names() {
    assert_eq!(get_arg_name(&ident("width")), "width");
    assert_eq!(get_arg_name(&Expr::Integer(3)), "value");
}

#[test]
fn substitution_renames_inside_operators_only() {
    let e = binary(
        Expr::Not(Box::new(ident("it"))),
        BinOp::And,
        binary(Expr::Neg(Box::new(ident("it"))), BinOp::Lt, ident("other")),
    );
    let r = substitute_expr_ident(&e, "it", "x");
    match r {
        Expr::Binary { lhs, op: BinOp::And, rhs } => {
            assert!(matches!(*lhs, Expr::Not(ref i) if matches!(**i, Expr::Ident(ref n) if n == "x")));
            match *rhs {
                Expr::Binary { lhs, op: BinOp::Lt, rhs } => {
                    assert!(matches!(*lhs, Expr::Neg(ref i) if matches!(**i, Expr::Ident(ref n) if n == "x")));
                    assert!(matches!(*rhs, Expr::Ident(ref n) if n == "other"));
                }
                _ => panic!("shape changed"),
            }
        }
        _ => panic!("shape changed"),
    }
    let call = Expr::Call { func: Box::new(ident("it")), args: args(vec![ident("it")]) };
    match substitute_expr_ident(&call, "it", "x") {
        Expr::Call { func, args } => {
            assert!(matches!(*func, Expr::Ident(ref n) if n == "it"));
            assert_eq!(arg_count(&args), 1);
        }
        _ => panic!("shape changed"),
    }
}

#[test]
fn inherited_constraints_evaluate_over_a_value_map() {
    let mut vm: NameMap<Option<i64>> = NameMap::new();
    vm.insert("small".to_string(), Some(20));
    vm.insert("unknown".to_string(), None);
    let consts = NameMap::new();
    let c = binary(ident("big"), BinOp::Gt, ident("small"));
    match eval_constraint_with_value_map(&c, "big", Some(10), &vm, &consts, &vec![]) {
        ConstraintEvalResult::Violated(m) => assert_eq!(m, "10 > 20 is false"),
        _ => panic!("expected a violation"),
    }
    assert!(matches!(
        eval_constraint_with_value_map(&c, "big", Some(30), &vm, &consts, &vec![]),
        ConstraintEvalResult::Satisfied
    ));
    let open = binary(ident("big"), BinOp::Gt, ident("unknown"));
    match eval_constraint_with_value_map(&open, "big", Some(30), &vm, &consts, &vec![]) {
        ConstraintEvalResult::NeedsPropagation(v) => assert_eq!(v, vec!["big", "unknown"]),
        _ => panic!("expected propagation"),
    }
    assert_eq!(
        fmt_constraint_with_value_map(&open, "big", 30, &vm, &consts),
        "big (30) > unknown (?)"
    );
    assert_eq!(
        fmt_constraint_with_value_map(&ident("big"), "big", 30, &vm, &consts),
        "constraint evaluation failed"
    );
}
