use ivylang::ast::AssignOperator;
use ivylang::ast::Block;
use ivylang::ast::Expression;
use ivylang::ast::Operation;
use ivylang::ast::Statement;
use ivylang::ast::UnaryOperation;
use ivylang::error::Error;
use ivylang::interpreter::Heap;
use ivylang::interpreter::run;
use ivylang::span::Chunk;
use ivylang::span::Pos;
use ivylang::span::Span;
use ivylang::value::Value;

fn sp() -> Span {
    Span { start: Pos { ln: 0, col: 0 }, end: Pos { ln: 0, col: 0 } }
}

fn ch<T>(data: T) -> Chunk<T> {
    Chunk::new(data, sp())
}

fn chb<T>(data: T) -> Chunk<Box<T>> {
    Chunk::new(data, sp()).as_box()
}

fn num(i: i32) -> Chunk<Expression> {
    ch(Expression::Int(i))
}

fn float(f: f64) -> Chunk<Expression> {
    ch(Expression::Float(f.to_bits()))
}

fn boolean(b: bool) -> Chunk<Expression> {
    ch(Expression::Bool(b))
}

fn string(s: &str) -> Chunk<Expression> {
    ch(Expression::Str(s.to_string()))
}

fn var(name: &str) -> Chunk<Expression> {
    ch(Expression::Variable(name.to_string()))
}

fn binop(a: Chunk<Expression>, op: Operation, b: Chunk<Expression>) -> Chunk<Expression> {
    ch(Expression::BinaryOp { a: a.as_box(), b: b.as_box(), op: ch(op) })
}

fn unop(op: UnaryOperation, a: Chunk<Expression>) -> Chunk<Expression> {
    ch(Expression::UnaryOp { a: a.as_box(), op: ch(op) })
}

fn assign(name: &str, value: Chunk<Expression>) -> Chunk<Statement> {
    ch(Statement::Assign { name: var(name), op: ch(AssignOperator::Plain), value })
}

fn assign_op(name: &str, op: AssignOperator, value: Chunk<Expression>) -> Chunk<Statement> {
    ch(Statement::Assign { name: var(name), op: ch(op), value })
}

fn prop_assign(obj: Chunk<Expression>, prop: &str, value: Chunk<Expression>) -> Chunk<Statement> {
    ch(Statement::Assign {
        name: ch(Expression::GetProp(obj.as_box(), ch(prop.to_string()))),
        op: ch(AssignOperator::Plain),
        value,
    })
}

fn expr_stmt(e: Chunk<Expression>) -> Chunk<Statement> {
    let span = e.span;
    Chunk::new(Statement::Expr(e.data), span)
}

fn ret(e: Chunk<Expression>) -> Chunk<Statement> {
    ch(Statement::Return(e))
}

fn get_prop(obj: Chunk<Expression>, prop: &str) -> Chunk<Expression> {
    ch(Expression::GetProp(obj.as_box(), ch(prop.to_string())))
}

fn call(f: Chunk<Expression>, args: Vec<Chunk<Expression>>) -> Chunk<Expression> {
    ch(Expression::Call { value: f.as_box(), args })
}

fn func(params: Vec<&str>, body: Chunk<Expression>) -> Chunk<Expression> {
    ch(Expression::Function {
        parameters: params.into_iter().map(|p| ch(p.to_string())).collect(),
        body: body.as_box(),
    })
}

fn block_expr(body: Vec<Chunk<Statement>>) -> Chunk<Expression> {
    ch(Expression::Block(Block { body }))
}

fn run_program(body: Vec<Chunk<Statement>>) -> (Heap, Result<Value, Error>) {
    run(&Block { body }, sp(), 1_000_000)
}

/// Reads a binding out of the scope record a program evaluated to.
fn read_result(heap: &Heap, result: &Result<Value, Error>, name: &str) -> Option<Value> {
    match result {
        Ok(Value::MapRef(s)) => heap.scope_read(*s, &name.to_string()),
        _ => panic!("program did not yield a map reference"),
    }
}

#[test]
fn block_without_return_yields_its_scope() {
    let (heap, r) = run_program(vec![assign("a", num(1))]);
    match &r {
        Ok(Value::MapRef(_)) => {}
        other => panic!("expected a map reference, got {:?}", other),
    }
    assert_eq!(read_result(&heap, &r, "a"), Some(Value::Int(1)));
}

#[test]
fn compound_assignment_accumulates() {
    // a = 1; a += 2; a
    let (heap, r) = run_program(vec![
        assign("a", num(1)),
        assign_op("a", AssignOperator::Add, num(2)),
        expr_stmt(var("a")),
    ]);
    assert_eq!(read_result(&heap, &r, "a"), Some(Value::Int(3)));
}

#[test]
fn compound_assignment_returned() {
    // a = 1; a += 2; return a;
    let (_, r) = run_program(vec![
        assign("a", num(1)),
        assign_op("a", AssignOperator::Add, num(2)),
        ret(var("a")),
    ]);
    assert_eq!(r.unwrap(), Value::Int(3));
}

#[test]
fn immediately_invoked_function() {
    // r = fn() -> { x = 5; return x; }();
    let body = block_expr(vec![assign("x", num(5)), ret(var("x"))]);
    let (_, r) = run_program(vec![ret(call(func(vec![], body), vec![]))]);
    assert_eq!(r.unwrap(), Value::Int(5));
}

#[test]
fn immediately_invoked_function_record() {
    // without a return the call yields the body's bindings as a record
    let body = block_expr(vec![assign("x", num(5))]);
    let (heap, r) = run_program(vec![assign("m", call(func(vec![], body), vec![]))]);
    let m = read_result(&heap, &r, "m").unwrap();
    match m {
        Value::MapRef(s) => {
            assert_eq!(heap.scope_read(s, &"x".to_string()), Some(Value::Int(5)));
        }
        other => panic!("expected a map reference, got {:?}", other),
    }
}

#[test]
fn function_of_one_argument() {
    // f = fn(x) -> x + 1; a = f(4); b = f(10);
    let f = func(vec!["x"], binop(var("x"), Operation::Add, num(1)));
    let (heap, r) = run_program(vec![
        assign("f", f),
        assign("a", call(var("f"), vec![num(4)])),
        assign("b", call(var("f"), vec![num(10)])),
    ]);
    assert_eq!(read_result(&heap, &r, "a"), Some(Value::Int(5)));
    assert_eq!(read_result(&heap, &r, "b"), Some(Value::Int(11)));
}

#[test]
fn closures_are_lexically_scoped() {
    // make = fn(n) -> fn(x) -> x + n; add2 = make(2); r = add2(3);
    let inner = func(vec!["x"], binop(var("x"), Operation::Add, var("n")));
    let make = func(vec!["n"], inner);
    let (heap, r) = run_program(vec![
        assign("make", make),
        assign("add2", call(var("make"), vec![num(2)])),
        assign("r", call(var("add2"), vec![num(3)])),
    ]);
    assert_eq!(read_result(&heap, &r, "r"), Some(Value::Int(5)));
}

#[test]
fn argument_count_mismatch_is_tolerated() {
    let f = func(vec!["x", "y"], var("x"));
    let (heap, r) = run_program(vec![
        assign("f", f),
        assign("a", call(var("f"), vec![num(1), num(2), num(3)])),
        assign("b", call(var("f"), vec![num(7)])),
    ]);
    assert_eq!(read_result(&heap, &r, "a"), Some(Value::Int(1)));
    assert_eq!(read_result(&heap, &r, "b"), Some(Value::Int(7)));
}

#[test]
fn unbound_parameter_read_is_lookup_error() {
    let f = func(vec!["x", "y"], var("y"));
    let (_, r) = run_program(vec![
        assign("f", f),
        assign("a", call(var("f"), vec![num(1)])),
    ]);
    let e = r.unwrap_err();
    assert_eq!(e.message().as_str(), "No property 'y'.");
}

#[test]
fn int_arithmetic_matches_fixed_width() {
    let (heap, r) = run_program(vec![
        assign("a", binop(num(7), Operation::Add, num(35))),
        assign("s", binop(num(7), Operation::Subtract, num(35))),
        assign("m", binop(num(6), Operation::Multiply, num(7))),
        assign("d", binop(num(7), Operation::Divide, num(2))),
        assign("w", binop(num(i32::MAX), Operation::Add, num(1))),
    ]);
    assert_eq!(read_result(&heap, &r, "a"), Some(Value::Int(42)));
    assert_eq!(read_result(&heap, &r, "s"), Some(Value::Int(-28)));
    assert_eq!(read_result(&heap, &r, "m"), Some(Value::Int(42)));
    assert_eq!(read_result(&heap, &r, "d"), Some(Value::Int(3)));
    assert_eq!(read_result(&heap, &r, "w"), Some(Value::Int(i32::MIN)));
}

#[test]
fn int_division_truncates_toward_zero() {
    let minus = |e| unop(UnaryOperation::Negative, e);
    let (heap, r) = run_program(vec![
        assign("a", binop(minus(num(7)), Operation::Divide, num(2))),
        assign("b", binop(num(7), Operation::Divide, minus(num(2)))),
        assign("c", binop(minus(num(7)), Operation::Divide, minus(num(2)))),
    ]);
    assert_eq!(read_result(&heap, &r, "a"), Some(Value::Int(-3)));
    assert_eq!(read_result(&heap, &r, "b"), Some(Value::Int(-3)));
    assert_eq!(read_result(&heap, &r, "c"), Some(Value::Int(3)));
}

#[test]
fn division_by_zero_is_an_error() {
    let (_, r) = run_program(vec![assign("a", binop(num(1), Operation::Divide, num(0)))]);
    assert_eq!(r.unwrap_err().message().as_str(), "Attempt to divide by zero.");
}

#[test]
fn mixing_int_and_float_fails_both_ways() {
    let (_, r) = run_program(vec![assign("a", binop(num(1), Operation::Add, float(1.5)))]);
    assert_eq!(
        r.unwrap_err().message().as_str(),
        "You cannot do arithmetic with floats and integers."
    );
    let (_, r) = run_program(vec![assign("a", binop(float(1.5), Operation::Multiply, num(2)))]);
    assert_eq!(
        r.unwrap_err().message().as_str(),
        "You cannot do arithmetic with floats and integers."
    );
}

#[test]
fn float_arithmetic_is_ieee() {
    let (heap, r) = run_program(vec![
        assign("a", binop(float(1.5), Operation::Add, float(0.25))),
        assign("m", binop(float(1.5), Operation::Multiply, float(2.0))),
        assign("d", binop(float(1.0), Operation::Divide, float(8.0))),
        assign("s", binop(float(0.5), Operation::Subtract, float(0.25))),
    ]);
    assert_eq!(read_result(&heap, &r, "a"), Some(Value::Float((1.75f64).to_bits())));
    assert_eq!(read_result(&heap, &r, "m"), Some(Value::Float((3.0f64).to_bits())));
    assert_eq!(read_result(&heap, &r, "d"), Some(Value::Float((0.125f64).to_bits())));
    assert_eq!(read_result(&heap, &r, "s"), Some(Value::Float((0.25f64).to_bits())));
}

#[test]
fn exponent_of_ints() {
    let (heap, r) = run_program(vec![
        assign("a", binop(num(2), Operation::Exponent, num(10))),
        assign("b", binop(num(5), Operation::Exponent, num(0))),
        assign("c", binop(num(5), Operation::Exponent, unop(UnaryOperation::Negative, num(2)))),
    ]);
    assert_eq!(read_result(&heap, &r, "a"), Some(Value::Int(1024)));
    assert_eq!(read_result(&heap, &r, "b"), Some(Value::Int(1)));
    // a negative power behaves as a power of zero
    assert_eq!(read_result(&heap, &r, "c"), Some(Value::Int(1)));
}

#[test]
fn boolean_operators_evaluate_both_operands() {
    // hit = 0; f = fn() -> { hit = 1; return true; }; t = false && f();
    let fbody = block_expr(vec![assign("hit", num(1)), ret(boolean(true))]);
    let (heap, r) = run_program(vec![
        assign("hit", num(0)),
        assign("f", func(vec![], fbody)),
        assign("t", binop(boolean(false), Operation::And, call(var("f"), vec![]))),
    ]);
    assert_eq!(read_result(&heap, &r, "t"), Some(Value::Bool(false)));
    // the right operand ran even though the left already decided the result
    assert_eq!(read_result(&heap, &r, "hit"), Some(Value::Int(1)));
}

#[test]
fn boolean_operator_type_errors() {
    let (_, r) = run_program(vec![assign("t", binop(boolean(true), Operation::And, num(1)))]);
    assert_eq!(r.unwrap_err().message().as_str(), "Expected boolean, but instead found int");
    let (_, r) = run_program(vec![assign("t", binop(boolean(false), Operation::Or, string("x")))]);
    assert_eq!(r.unwrap_err().message().as_str(), "Expected boolean, but instead found string");
}

#[test]
fn not_equals_is_negation_of_equals() {
    let (heap, r) = run_program(vec![
        assign("a", binop(num(1), Operation::NotEquals, num(2))),
        assign("b", binop(num(1), Operation::Equals, num(2))),
        assign("c", binop(num(1), Operation::Equals, string("1"))),
        assign("d", binop(num(1), Operation::NotEquals, string("1"))),
    ]);
    assert_eq!(read_result(&heap, &r, "a"), Some(Value::Bool(true)));
    assert_eq!(read_result(&heap, &r, "b"), Some(Value::Bool(false)));
    // equality across mismatched kinds is always false, so != is true
    assert_eq!(read_result(&heap, &r, "c"), Some(Value::Bool(false)));
    assert_eq!(read_result(&heap, &r, "d"), Some(Value::Bool(true)));
}

#[test]
fn derived_comparisons_negate_the_primitives() {
    let (heap, r) = run_program(vec![
        assign("a", binop(num(3), Operation::LtEqual, num(3))),
        assign("b", binop(num(3), Operation::Gt, num(3))),
        assign("c", binop(num(2), Operation::GtEqual, num(3))),
        assign("d", binop(num(2), Operation::Lt, num(3))),
    ]);
    assert_eq!(read_result(&heap, &r, "a"), Some(Value::Bool(true)));
    assert_eq!(read_result(&heap, &r, "b"), Some(Value::Bool(false)));
    assert_eq!(read_result(&heap, &r, "c"), Some(Value::Bool(false)));
    assert_eq!(read_result(&heap, &r, "d"), Some(Value::Bool(true)));
}

#[test]
fn for_loop_binds_each_item_in_order() {
    // order = ""; for x in ["a","b","c"] { order = order .. x; }
    let arr = ch(Expression::Array(vec![string("a"), string("b"), string("c")]));
    let body = Block {
        body: vec![assign("order", binop(var("order"), Operation::Concat, var("x")))],
    };
    let (heap, r) = run_program(vec![
        assign("order", string("")),
        ch(Statement::For { name: ch("x".to_string()), iter: arr, body: ch(body) }),
    ]);
    assert_eq!(read_result(&heap, &r, "order"), Some(Value::Str("abc".to_string())));
}

#[test]
fn for_loop_sums_array() {
    let arr = ch(Expression::Array(vec![num(1), num(2), num(3)]));
    let body = Block { body: vec![assign("sum", binop(var("sum"), Operation::Add, var("x")))] };
    let (heap, r) = run_program(vec![
        assign("sum", num(0)),
        ch(Statement::For { name: ch("x".to_string()), iter: arr, body: ch(body) }),
    ]);
    assert_eq!(read_result(&heap, &r, "sum"), Some(Value::Int(6)));
}

#[test]
fn loop_variable_is_evicted_after_each_iteration() {
    // capture the iteration scope as a record; the binding must be gone
    let arr = ch(Expression::Array(vec![num(1), num(2)]));
    // for x in [1,2] { cap = fn() -> {}(); } -- inner scope chains to the
    // iteration scope; after the loop, x is absent from it
    let body = Block {
        body: vec![assign("cap", call(func(vec![], block_expr(vec![])), vec![]))],
    };
    let (heap, r) = run_program(vec![
        assign("cap", num(0)),
        ch(Statement::For { name: ch("x".to_string()), iter: arr, body: ch(body) }),
        assign("probe", var("x")),
    ]);
    // reading x after the loop fails: the binding was evicted
    assert_eq!(r.unwrap_err().message().as_str(), "No property 'x'.");
    let _ = heap;
}

#[test]
fn for_loop_over_non_iterable_is_an_error() {
    let body = Block { body: vec![] };
    let (_, r) = run_program(vec![ch(Statement::For {
        name: ch("x".to_string()),
        iter: num(3),
        body: ch(body),
    })]);
    assert_eq!(
        r.unwrap_err().message().as_str(),
        "Expected an iterator function, but instead got int"
    );
}

#[test]
fn while_loop_counts() {
    // i = 0; while i < 3 { i += 1; } -- condition in outer scope
    let body = Block { body: vec![assign_op("i", AssignOperator::Add, num(1))] };
    let (heap, r) = run_program(vec![
        assign("i", num(0)),
        ch(Statement::While { cond: binop(var("i"), Operation::Lt, num(3)), body: ch(body) }),
    ]);
    assert_eq!(read_result(&heap, &r, "i"), Some(Value::Int(3)));
}

#[test]
fn while_condition_must_be_boolean() {
    let body = Block { body: vec![] };
    let (_, r) = run_program(vec![
        assign("i", num(0)),
        ch(Statement::While { cond: var("i"), body: ch(body) }),
    ]);
    assert_eq!(r.unwrap_err().message().as_str(), "Expected boolean, but instead found int");
}

#[test]
fn conditional_chain_picks_first_true_branch() {
    let e = ch(Expression::If {
        blocks: vec![
            (boolean(false), num(1)),
            (boolean(true), num(2)),
            (boolean(true), num(3)),
        ],
        else_block: Some(num(9).as_box()),
    });
    let (_, r) = run_program(vec![ret(e)]);
    assert_eq!(r.unwrap(), Value::Int(2));
    let e = ch(Expression::If { blocks: vec![(boolean(false), num(1))], else_block: None });
    let (_, r) = run_program(vec![ret(e)]);
    assert_eq!(r.unwrap(), Value::Null);
}

#[test]
fn missing_property_is_a_lookup_error() {
    // m = fn() -> { a = 1; }(); b = m.a; m.missing fails, naming the property
    let body = block_expr(vec![assign("a", num(1))]);
    let (heap, r) = run_program(vec![
        assign("m", call(func(vec![], body), vec![])),
        assign("b", get_prop(var("m"), "a")),
    ]);
    assert_eq!(read_result(&heap, &r, "b"), Some(Value::Int(1)));

    let body = block_expr(vec![assign("a", num(1))]);
    let (_, r) = run_program(vec![
        assign("m", call(func(vec![], body), vec![])),
        assign("b", get_prop(var("m"), "missing")),
    ]);
    let e = r.unwrap_err();
    assert_eq!(e.message().as_str(), "No property 'missing'.");
}

#[test]
fn property_access_on_non_map_is_a_type_error() {
    let (_, r) = run_program(vec![
        assign("n", num(1)),
        assign("b", get_prop(var("n"), "a")),
    ]);
    assert_eq!(r.unwrap_err().message().as_str(), "Expected map, but instead found int");
}

#[test]
fn map_references_alias() {
    // s = fn() -> {}(); t = s; t.v = 1; s.v == 1
    let (heap, r) = run_program(vec![
        assign("s", call(func(vec![], block_expr(vec![])), vec![])),
        assign("t", var("s")),
        prop_assign(var("t"), "v", num(1)),
        assign("probe", get_prop(var("s"), "v")),
    ]);
    assert_eq!(read_result(&heap, &r, "probe"), Some(Value::Int(1)));
}

#[test]
fn string_concatenation() {
    let (heap, r) = run_program(vec![assign(
        "s",
        binop(string("foo"), Operation::Concat, string("bar")),
    )]);
    assert_eq!(read_result(&heap, &r, "s"), Some(Value::Str("foobar".to_string())));
    let (_, r) = run_program(vec![assign("s", binop(string("foo"), Operation::Concat, num(1)))]);
    assert_eq!(r.unwrap_err().message().as_str(), "Expected string, but instead found int");
}

#[test]
fn evaluation_budget_runs_out() {
    let body = Block { body: vec![] };
    let (_, r) = run(
        &Block {
            body: vec![ch(Statement::While { cond: boolean(true), body: ch(body) })],
        },
        sp(),
        1000,
    );
    assert_eq!(r.unwrap_err().message().as_str(), "Evaluation budget exhausted.");
}

#[test]
fn negation_type_error_names_number() {
    let (_, r) = run_program(vec![assign(
        "a",
        unop(UnaryOperation::Negative, string("x")),
    )]);
    assert_eq!(r.unwrap_err().message().as_str(), "Expected number, but instead found string");
}
