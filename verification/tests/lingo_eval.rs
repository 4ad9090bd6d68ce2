use vm_rust::context_vars::PutType;
use vm_rust::datum::{Datum, ScriptError, ScriptErrorCode};
use vm_rust::lingo_eval::{
    eval_lingo_expr_ast_runtime, BinOp, EvalAction, EvalMachine, EvalRequest, EvalResult, Expr,
};

fn lit(n: i32) -> Box<Expr> {
    Box::new(Expr::Int(n))
}

fn binary(op: BinOp, l: Box<Expr>, r: Box<Expr>) -> Box<Expr> {
    Box::new(Expr::Binary(op, l, r))
}

fn finished_value(act: EvalAction) -> Datum {
    match act {
        EvalAction::Finished(Ok(d)) => d,
        EvalAction::Finished(Err(e)) => panic!("failed: {}", e.message),
        EvalAction::Ask(_) => panic!("asked a question"),
        EvalAction::Panics => panic!("would panic"),
    }
}

fn eval_alone(e: Expr) -> EvalResult {
    eval_lingo_expr_ast_runtime(&e, &Vec::new())
}

fn expect_int(r: EvalResult, n: i32) {
    match r {
        EvalResult::Done(Datum::Int(v)) => assert_eq!(v, n),
        _ => panic!("expected the integer {}", n),
    }
}

fn expect_string(r: EvalResult, text: &str) {
    match r {
        EvalResult::Done(Datum::String(s)) => assert_eq!(s, text),
        _ => panic!("expected the string {:?}", text),
    }
}

fn expect_fail(r: EvalResult) {
    assert!(matches!(r, EvalResult::Fail(_)));
}

#[test]
fn arithmetic_on_literals_needs_no_answer() {
    let e = binary(BinOp::Add, lit(1), binary(BinOp::Multiply, lit(2), lit(3)));
    expect_int(eval_alone(*e), 7);
}

#[test]
fn dividing_by_zero_divides_by_one_and_least_integer_by_minus_one_panics() {
    expect_int(eval_alone(*binary(BinOp::Divide, lit(7), lit(0))), 7);
    expect_int(eval_alone(*binary(BinOp::Divide, lit(-7), lit(2))), -3);
    assert!(matches!(eval_alone(*binary(BinOp::Divide, lit(i32::MIN), lit(-1))), EvalResult::Panics));
    let list = Box::new(Expr::List(vec![Expr::Int(8), Expr::Int(i32::MIN)]));
    assert!(matches!(eval_alone(*binary(BinOp::Divide, list, lit(-1))), EvalResult::Panics));
}

#[test]
fn logic_comparisons_and_joins() {
    expect_int(eval_alone(*binary(BinOp::And, lit(1), lit(0))), 0);
    expect_int(eval_alone(*binary(BinOp::Or, lit(0), lit(5))), 1);
    expect_int(eval_alone(Expr::Not(lit(0))), 1);
    expect_fail(eval_alone(Expr::Not(Box::new(Expr::Str("x".to_string())))));
    expect_int(eval_alone(*binary(BinOp::Le, lit(3), lit(3))), 1);
    expect_int(eval_alone(*binary(BinOp::Gt, lit(3), lit(4))), 0);
    expect_int(eval_alone(*binary(BinOp::Ne, lit(3), lit(4))), 1);
    let a = Box::new(Expr::Str("a".to_string()));
    let b = Box::new(Expr::Str("b".to_string()));
    expect_string(eval_alone(*binary(BinOp::JoinPad, a, b)), "a b");
    let c = Box::new(Expr::Str("n".to_string()));
    expect_string(eval_alone(*binary(BinOp::Join, c, lit(12))), "n12");
}

#[test]
fn indexing_lists_points_and_strings() {
    let list = || Box::new(Expr::List(vec![Expr::Int(10), Expr::Int(20), Expr::Int(30)]));
    expect_int(eval_alone(Expr::ListAccess(list(), lit(2))), 20);
    match eval_alone(Expr::ListAccess(list(), lit(4))) {
        EvalResult::Fail(e) => assert_eq!(e.message, "List index 4 out of bounds (list has 3 items)"),
        _ => panic!("expected an error"),
    }
    let empty = || Box::new(Expr::ListAccess(Box::new(Expr::List(vec![])), lit(1)));
    expect_fail(eval_alone(*empty()));
    expect_fail(eval_alone(Expr::ListAccess(list(), lit(0))));
    let s = || Box::new(Expr::Str("abc".to_string()));
    expect_string(eval_alone(Expr::ListAccess(s(), lit(2))), "b");
    expect_string(eval_alone(Expr::ListAccess(s(), lit(9))), "");
    expect_fail(eval_alone(Expr::ListAccess(lit(3), lit(1))));
}

#[test]
fn property_list_literal_pairs_keys_with_values() {
    let e = Expr::PropList(vec![
        Expr::Symbol("a".to_string()),
        Expr::Int(1),
        Expr::Symbol("b".to_string()),
        Expr::Int(2),
    ]);
    match eval_alone(e) {
        EvalResult::Done(Datum::PropList(pairs)) => {
            assert_eq!(pairs.len(), 2);
            assert!(matches!(&pairs[0], (Datum::Symbol(k), Datum::Int(1)) if k == "a"));
            assert!(matches!(&pairs[1], (Datum::Symbol(k), Datum::Int(2)) if k == "b"));
        }
        _ => panic!("expected a property list"),
    }
}

#[test]
fn handler_calls_are_asked_in_order_and_their_answers_used() {
    let call = |name: &str, n: i32| Box::new(Expr::HandlerCall(name.to_string(), vec![Expr::Int(n)]));
    let e = binary(BinOp::Add, call("f", 1), call("g", 2));
    let mut m = EvalMachine::new(*e);
    match m.step(None) {
        EvalAction::Ask(EvalRequest::CallHandler(name, args)) => {
            assert_eq!(name, "f");
            assert!(matches!(args.as_slice(), [Datum::Int(1)]));
        }
        _ => panic!("expected a call of f"),
    }
    match m.step(Some(Ok(Datum::Int(40)))) {
        EvalAction::Ask(EvalRequest::CallHandler(name, args)) => {
            assert_eq!(name, "g");
            assert!(matches!(args.as_slice(), [Datum::Int(2)]));
        }
        _ => panic!("expected a call of g"),
    }
    assert!(matches!(finished_value(m.step(Some(Ok(Datum::Int(2))))), Datum::Int(42)));
    // An outcome stands: a further answer changes nothing.
    assert!(matches!(finished_value(m.step(Some(Ok(Datum::Int(9))))), Datum::Int(42)));
}

#[test]
fn an_error_answer_stops_the_evaluation() {
    let e = binary(BinOp::Add, Box::new(Expr::Identifier("x".to_string())), lit(1));
    let mut m = EvalMachine::new(*e);
    assert!(matches!(m.step(None), EvalAction::Ask(EvalRequest::Lookup(ref n)) if n == "x"));
    let err = ScriptError { code: ScriptErrorCode::Generic, message: "no such name".to_string() };
    match m.step(Some(Err(err))) {
        EvalAction::Finished(Err(e)) => assert_eq!(e.message, "no such name"),
        _ => panic!("expected the error"),
    }
}

#[test]
fn the_number_of_a_property_asks_for_a_counted_property() {
    let obj = Box::new(Expr::ObjProp(Box::new(Expr::Identifier("lib".to_string())), "castMembers".to_string()));
    let mut m = EvalMachine::new(Expr::ThePropOf(obj, "number".to_string()));
    assert!(matches!(m.step(None), EvalAction::Ask(EvalRequest::Lookup(_))));
    match m.step(Some(Ok(Datum::CastLib(1)))) {
        EvalAction::Ask(EvalRequest::GetProp(Datum::CastLib(1), prop)) => assert_eq!(prop, "number of castMembers"),
        _ => panic!("expected the counted property"),
    }
    assert!(matches!(finished_value(m.step(Some(Ok(Datum::Int(12))))), Datum::Int(12)));
}

#[test]
fn assignments_and_puts_ask_the_player_to_store() {
    let mut m = EvalMachine::new(Expr::AssignName("x".to_string(), lit(3)));
    assert!(matches!(m.step(None), EvalAction::Ask(EvalRequest::SetName(ref n, Datum::Int(3))) if n == "x"));
    assert!(matches!(finished_value(m.step(Some(Ok(Datum::Void)))), Datum::Int(3)));

    let mut m = EvalMachine::new(Expr::PutName(PutType::Before, Box::new(Expr::Str("ab".to_string())), "g".to_string()));
    assert!(matches!(m.step(None), EvalAction::Ask(EvalRequest::GetGlobal(ref n)) if n == "g"));
    match m.step(Some(Ok(Datum::String("cd".to_string())))) {
        EvalAction::Ask(EvalRequest::SetGlobal(n, Datum::String(s))) => {
            assert_eq!(n, "g");
            assert_eq!(s, "abcd");
        }
        _ => panic!("expected the global to be set"),
    }
    assert!(matches!(finished_value(m.step(Some(Ok(Datum::Void)))), Datum::Void));

    let mut m = EvalMachine::new(Expr::PutDisplay(lit(5)));
    assert!(matches!(m.step(None), EvalAction::Ask(EvalRequest::Display(Datum::Int(5)))));
    assert!(matches!(finished_value(m.step(Some(Ok(Datum::Void)))), Datum::Void));
}

#[test]
fn member_references_are_found_by_the_player() {
    let e = Expr::MemberRef(Box::new(Expr::Str("logo".to_string())), Some(lit(2)));
    let mut m = EvalMachine::new(e);
    match m.step(None) {
        EvalAction::Ask(EvalRequest::FindMember(Datum::String(name), Some(Datum::Int(2)))) => assert_eq!(name, "logo"),
        _ => panic!("expected a member lookup"),
    }
}
