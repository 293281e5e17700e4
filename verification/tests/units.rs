use ivylang::ast::AssignOperator;
use ivylang::ast::Block;
use ivylang::ast::Expression;
use ivylang::ast::Operation;
use ivylang::ast::Statement;
use ivylang::compiler::CompilerScope;
use ivylang::error::Error;
use ivylang::floats::float_add;
use ivylang::floats::float_div;
use ivylang::floats::float_eq;
use ivylang::floats::float_lt;
use ivylang::floats::float_mul;
use ivylang::floats::float_neg;
use ivylang::floats::float_sub;
use ivylang::instruction::Comparison;
use ivylang::instruction::Instruction;
use ivylang::instruction::Reporter;
use ivylang::interpreter::Heap;
use ivylang::interpreter::evaluate;
use ivylang::interpreter::run;
use ivylang::interpreter::Scope;
use ivylang::span::Chunk;
use ivylang::span::Pos;
use ivylang::span::Span;
use ivylang::stdlib::int_to_str;
use ivylang::stdlib::range;
use ivylang::value::MapEntry;
use ivylang::value::Value;
use ivylang::value::assoc_get;
use ivylang::value::values_equal;

fn sp() -> Span {
    Span { start: Pos { ln: 0, col: 0 }, end: Pos { ln: 0, col: 0 } }
}

fn ch<T>(data: T) -> Chunk<T> {
    Chunk::new(data, sp())
}

fn num(i: i32) -> Chunk<Expression> {
    ch(Expression::Int(i))
}

fn var(name: &str) -> Chunk<Expression> {
    ch(Expression::Variable(name.to_string()))
}

fn binop(a: Chunk<Expression>, op: Operation, b: Chunk<Expression>) -> Chunk<Expression> {
    ch(Expression::BinaryOp { a: a.as_box(), b: b.as_box(), op: ch(op) })
}

fn assign(name: &str, value: Chunk<Expression>) -> Chunk<Statement> {
    ch(Statement::Assign { name: var(name), op: ch(AssignOperator::Plain), value })
}

fn expr_stmt(e: Chunk<Expression>) -> Chunk<Statement> {
    let span = e.span;
    Chunk::new(Statement::Expr(e.data), span)
}

fn call(f: Chunk<Expression>, args: Vec<Chunk<Expression>>) -> Chunk<Expression> {
    ch(Expression::Call { value: f.as_box(), args })
}

fn get_prop(obj: Chunk<Expression>, prop: &str) -> Chunk<Expression> {
    ch(Expression::GetProp(obj.as_box(), ch(prop.to_string())))
}

fn func(params: Vec<&str>, body: Chunk<Expression>) -> Chunk<Expression> {
    ch(Expression::Function {
        parameters: params.into_iter().map(|p| ch(p.to_string())).collect(),
        body: body.as_box(),
    })
}

fn block_expr(body: Vec<Chunk<Statement>>) -> Chunk<Expression> {
    ch(Expression::Block(Block { body }))
}

fn string(s: &str) -> Chunk<Expression> {
    ch(Expression::Str(s.to_string()))
}

fn run_program(body: Vec<Chunk<Statement>>) -> (Heap, Result<Value, Error>) {
    run(&Block { body }, sp(), 1_000_000)
}

fn read_result(heap: &Heap, result: &Result<Value, Error>, name: &str) -> Option<Value> {
    match result {
        Ok(Value::MapRef(s)) => heap.scope_read(*s, &name.to_string()),
        _ => panic!("program did not yield a map reference"),
    }
}

#[test]
fn prelude_names_resolve_at_hop_zero() {
    let scopes = CompilerScope::from_prelude();
    assert_eq!(scopes.get_var(&"println".to_string()), Some(0));
    assert_eq!(scopes.get_var(&"iter".to_string()), Some(0));
    assert_eq!(scopes.get_var(&"missing".to_string()), None);
}

#[test]
fn hop_counts_cross_frames() {
    let mut scopes = CompilerScope::new();
    scopes.enter();
    scopes.declare("outer".to_string());
    scopes.enter();
    scopes.declare("inner".to_string());
    assert_eq!(scopes.get_var(&"inner".to_string()), Some(0));
    assert_eq!(scopes.get_var(&"outer".to_string()), Some(1));
    scopes.exit();
    assert_eq!(scopes.get_var(&"inner".to_string()), None);
    assert_eq!(scopes.get_var(&"outer".to_string()), Some(0));
}

#[test]
fn variable_reads_lower_to_scope_hops() {
    // x declared in the program frame reads back at hop 0 from there
    let mut scopes = CompilerScope::from_prelude();
    scopes.enter();
    scopes.declare("x".to_string());
    let c = var("x").data.compile(sp(), &mut scopes).unwrap();
    match c.data {
        Reporter::Get { map, name } => {
            assert!(matches!(*map.data, Reporter::Parent(0)));
            assert_eq!(name.data.as_str(), "x");
        }
        other => panic!("unexpected lowering: {:?}", other),
    }
    // a prelude name reads one hop up
    let c = var("println").data.compile(sp(), &mut scopes).unwrap();
    match c.data {
        Reporter::Get { map, .. } => assert!(matches!(*map.data, Reporter::Parent(1))),
        other => panic!("unexpected lowering: {:?}", other),
    }
    // an undeclared name falls back to hop 0
    let c = var("nowhere").data.compile(sp(), &mut scopes).unwrap();
    match c.data {
        Reporter::Get { map, .. } => assert!(matches!(*map.data, Reporter::Parent(0))),
        other => panic!("unexpected lowering: {:?}", other),
    }
}

#[test]
fn derived_comparisons_lower_to_negations() {
    let mut scopes = CompilerScope::from_prelude();
    let c = binop(num(1), Operation::NotEquals, num(2)).data.compile(sp(), &mut scopes).unwrap();
    match c.data {
        Reporter::Not(inner) => assert!(matches!(*inner.data, Reporter::Equality { .. })),
        other => panic!("unexpected lowering: {:?}", other),
    }
    let c = binop(num(1), Operation::LtEqual, num(2)).data.compile(sp(), &mut scopes).unwrap();
    match c.data {
        Reporter::Not(inner) => match *inner.data {
            Reporter::Inequality { op, .. } => assert_eq!(op.data, Comparison::GreaterThan),
            ref other => panic!("unexpected lowering: {:?}", other),
        },
        other => panic!("unexpected lowering: {:?}", other),
    }
    let c = binop(num(1), Operation::GtEqual, num(2)).data.compile(sp(), &mut scopes).unwrap();
    match c.data {
        Reporter::Not(inner) => match *inner.data {
            Reporter::Inequality { op, .. } => assert_eq!(op.data, Comparison::LessThan),
            ref other => panic!("unexpected lowering: {:?}", other),
        },
        other => panic!("unexpected lowering: {:?}", other),
    }
}

#[test]
fn assignment_to_literal_is_rejected() {
    let mut scopes = CompilerScope::from_prelude();
    scopes.enter();
    let stmt = Statement::Assign {
        name: num(1),
        op: ch(AssignOperator::Plain),
        value: num(2),
    };
    let e = stmt.compile(sp(), &mut scopes).unwrap_err();
    assert_eq!(e.message().as_str(), "Only variables and properties can be assigned to.");
}

#[test]
fn define_on_first_write_declares_in_current_frame() {
    let mut scopes = CompilerScope::from_prelude();
    scopes.enter();
    assert_eq!(scopes.get_var(&"fresh".to_string()), None);
    let stmt = Statement::Assign {
        name: var("fresh"),
        op: ch(AssignOperator::Plain),
        value: num(2),
    };
    let c = stmt.compile(sp(), &mut scopes).unwrap();
    assert_eq!(scopes.get_var(&"fresh".to_string()), Some(0));
    match c.data {
        Instruction::Assign { map, name, .. } => {
            assert!(matches!(map.data, Reporter::Parent(0)));
            assert_eq!(name.data.as_str(), "fresh");
        }
        other => panic!("unexpected lowering: {:?}", other),
    }
}

#[test]
fn values_compare_structurally() {
    assert!(values_equal(&Value::Int(1), &Value::Int(1)));
    assert!(!values_equal(&Value::Int(1), &Value::Int(2)));
    assert!(!values_equal(&Value::Int(1), &Value::Str("1".to_string())));
    assert!(values_equal(
        &Value::Array(vec![Value::Int(1), Value::Null]),
        &Value::Array(vec![Value::Int(1), Value::Null]),
    ));
    assert!(!values_equal(
        &Value::Array(vec![Value::Int(1)]),
        &Value::Array(vec![Value::Int(1), Value::Null]),
    ));
    // map references compare by identity, not contents
    assert!(values_equal(&Value::MapRef(3), &Value::MapRef(3)));
    assert!(!values_equal(&Value::MapRef(3), &Value::MapRef(4)));
    // floats compare by IEEE-754 rules
    assert!(values_equal(
        &Value::Float((0.0f64).to_bits()),
        &Value::Float((-0.0f64).to_bits()),
    ));
    assert!(!values_equal(
        &Value::Float(f64::NAN.to_bits()),
        &Value::Float(f64::NAN.to_bits()),
    ));
}

#[test]
fn association_lists_find_first_match() {
    let entries = vec![
        MapEntry { key: "a".to_string(), val: Value::Int(1) },
        MapEntry { key: "b".to_string(), val: Value::Int(2) },
    ];
    assert_eq!(assoc_get(&entries, &"b".to_string()), Some(&Value::Int(2)));
    assert_eq!(assoc_get(&entries, &"c".to_string()), None);
}

#[test]
fn float_wrappers_follow_hardware() {
    let b = |f: f64| f.to_bits();
    assert_eq!(float_add(b(1.5), b(0.25)), b(1.75));
    assert_eq!(float_sub(b(1.5), b(0.25)), b(1.25));
    assert_eq!(float_mul(b(1.5), b(2.0)), b(3.0));
    assert_eq!(float_div(b(1.0), b(8.0)), b(0.125));
    assert_eq!(float_neg(b(1.5)), b(-1.5));
    assert_eq!(float_neg(b(0.0)), b(-0.0));
    assert!(float_lt(b(1.0), b(2.0)));
    assert!(!float_lt(b(2.0), b(1.0)));
    assert!(!float_lt(f64::NAN.to_bits(), b(1.0)));
    assert!(float_eq(b(0.0), b(-0.0)));
    assert!(!float_eq(f64::NAN.to_bits(), f64::NAN.to_bits()));
    // the wrappers agree with native double arithmetic on an awkward case
    assert_eq!(float_add(b(0.1), b(0.2)), b(0.1 + 0.2));
}

#[test]
fn decimal_rendering() {
    assert_eq!(int_to_str(0).as_str(), "0");
    assert_eq!(int_to_str(7).as_str(), "7");
    assert_eq!(int_to_str(42).as_str(), "42");
    assert_eq!(int_to_str(-5).as_str(), "-5");
    assert_eq!(int_to_str(i32::MAX).as_str(), "2147483647");
    assert_eq!(int_to_str(i32::MIN).as_str(), "-2147483648");
}

#[test]
fn range_yields_then_nulls() {
    let mut rg = range(1, 3).unwrap();
    assert_eq!(rg.call(), Value::Int(1));
    assert_eq!(rg.call(), Value::Int(2));
    assert_eq!(rg.call(), Value::Null);
    assert_eq!(rg.call(), Value::Null);
}

#[test]
fn for_loop_over_range_builtin() {
    // sum = 0; for x in iter.range(0, 4) { sum += x; }
    let iter_call = call(get_prop(var("iter"), "range"), vec![num(0), num(4)]);
    let body = Block {
        body: vec![ch(Statement::Assign {
            name: var("sum"),
            op: ch(AssignOperator::Add),
            value: var("x"),
        })],
    };
    let (heap, r) = run_program(vec![
        assign("sum", num(0)),
        ch(Statement::For { name: ch("x".to_string()), iter: iter_call, body: ch(body) }),
    ]);
    assert_eq!(read_result(&heap, &r, "sum"), Some(Value::Int(6)));
}

#[test]
fn println_appends_to_output() {
    let (heap, r) = run_program(vec![
        expr_stmt(call(var("println"), vec![string("hello")])),
        expr_stmt(call(var("print"), vec![string("world")])),
    ]);
    assert!(r.is_ok());
    let out: Vec<&str> = heap.output.iter().map(|s| s.as_str()).collect();
    assert_eq!(out, vec!["hello\n", "world"]);
}

#[test]
fn println_requires_a_string() {
    let (_, r) = run_program(vec![expr_stmt(call(var("println"), vec![num(1)]))]);
    assert_eq!(r.unwrap_err().message().as_str(), "Expected string, but instead found int");
}

#[test]
fn int_to_str_builtin() {
    let c = call(get_prop(var("int"), "to_str"), vec![num(42)]);
    let (heap, r) = run_program(vec![assign("s", c)]);
    assert_eq!(read_result(&heap, &r, "s"), Some(Value::Str("42".to_string())));
}

#[test]
fn map_builtins() {
    // m = fn() -> { a = 1; b = 2; }(); ks = map.keys(m); h = map.has(m, "a");
    let body = block_expr(vec![assign("a", num(1)), assign("b", num(2))]);
    let (heap, r) = run_program(vec![
        assign("m", call(func(vec![], body), vec![])),
        assign("ks", call(get_prop(var("map"), "keys"), vec![var("m")])),
        assign("h", call(get_prop(var("map"), "has"), vec![var("m"), string("a")])),
        assign("h2", call(get_prop(var("map"), "has"), vec![var("m"), string("z")])),
    ]);
    assert_eq!(
        read_result(&heap, &r, "ks"),
        Some(Value::Array(vec![
            Value::Str("a".to_string()),
            Value::Str("b".to_string()),
        ]))
    );
    assert_eq!(read_result(&heap, &r, "h"), Some(Value::Bool(true)));
    assert_eq!(read_result(&heap, &r, "h2"), Some(Value::Bool(false)));
}

#[test]
fn type_of_builtin_and_metadata() {
    let body = block_expr(vec![]);
    let (heap, r) = run_program(vec![
        assign("t1", call(get_prop(var("type"), "type_of"), vec![num(1)])),
        assign("m", call(func(vec![], body), vec![])),
        assign("t2", call(get_prop(var("type"), "type_of"), vec![var("m")])),
        ch(Statement::Assign {
            name: ch(Expression::GetProp(var("m").as_box(), ch("__type".to_string()))),
            op: ch(AssignOperator::Plain),
            value: string("Point"),
        }),
        assign("t3", call(get_prop(var("type"), "type_of"), vec![var("m")])),
    ]);
    assert_eq!(read_result(&heap, &r, "t1"), Some(Value::Str("int".to_string())));
    assert_eq!(read_result(&heap, &r, "t2"), Some(Value::Str("map".to_string())));
    assert_eq!(read_result(&heap, &r, "t3"), Some(Value::Str("Point".to_string())));
}

#[test]
fn type_assert_builtin() {
    let ok = call(get_prop(var("type"), "assert"), vec![num(1), string("int")]);
    let (_, r) = run_program(vec![expr_stmt(ok)]);
    assert!(r.is_ok());
    let bad = call(get_prop(var("type"), "assert"), vec![num(1), string("string")]);
    let (_, r) = run_program(vec![expr_stmt(bad)]);
    assert_eq!(r.unwrap_err().message().as_str(), "Expected string, but instead found int");
}

#[test]
fn dynamic_property_access() {
    let body = block_expr(vec![assign("a", num(7))]);
    let dg = ch(Expression::DynProp(var("m").as_box(), string("a").as_box()));
    let (heap, r) = run_program(vec![
        assign("m", call(func(vec![], body), vec![])),
        assign("v", dg),
    ]);
    assert_eq!(read_result(&heap, &r, "v"), Some(Value::Int(7)));

    let body = block_expr(vec![]);
    let dg = ch(Expression::DynProp(var("m").as_box(), num(1).as_box()));
    let (_, r) = run_program(vec![
        assign("m", call(func(vec![], body), vec![])),
        assign("v", dg),
    ]);
    assert_eq!(r.unwrap_err().message().as_str(), "Expected string, but instead found int");
}

#[test]
fn imports_resolve_registered_modules() {
    let imp = ch(Expression::Import(ch("std/int".to_string())));
    let (heap, r) = run_program(vec![
        assign("m", imp),
        assign("s", call(get_prop(var("m"), "to_str"), vec![num(9)])),
    ]);
    assert_eq!(read_result(&heap, &r, "s"), Some(Value::Str("9".to_string())));

    let imp = ch(Expression::Import(ch("nope".to_string())));
    let (_, r) = run_program(vec![assign("m", imp)]);
    assert_eq!(r.unwrap_err().message().as_str(), "No module 'nope'.");
}

#[test]
fn errors_keep_message_and_span() {
    let e = Error::new("boom".to_string(), sp());
    assert_eq!(e.message().as_str(), "boom");
    let s2 = Span { start: Pos { ln: 1, col: 2 }, end: Pos { ln: 1, col: 5 } };
    let e = e.with_span(s2);
    assert_eq!(e.span(), s2);
    assert_eq!(e.message().as_str(), "boom");
}

#[test]
fn float_comparisons_through_programs() {
    let fl = |f: f64| ch(Expression::Float(f.to_bits()));
    let (heap, r) = run_program(vec![
        assign("a", binop(fl(1.5), Operation::Lt, fl(2.0))),
        assign("b", binop(fl(2.0), Operation::Gt, fl(2.0))),
        assign("c", binop(fl(0.5), Operation::LtEqual, fl(0.5))),
        assign("d", binop(fl(1.5), Operation::Equals, fl(1.5))),
        assign("e", binop(fl(1.5), Operation::NotEquals, fl(1.25))),
    ]);
    assert_eq!(read_result(&heap, &r, "a"), Some(Value::Bool(true)));
    assert_eq!(read_result(&heap, &r, "b"), Some(Value::Bool(false)));
    assert_eq!(read_result(&heap, &r, "c"), Some(Value::Bool(true)));
    assert_eq!(read_result(&heap, &r, "d"), Some(Value::Bool(true)));
    assert_eq!(read_result(&heap, &r, "e"), Some(Value::Bool(true)));
}

#[test]
fn float_exponents() {
    let fl = |f: f64| ch(Expression::Float(f.to_bits()));
    let (heap, r) = run_program(vec![assign("a", binop(fl(1.5), Operation::Exponent, num(2)))]);
    assert_eq!(read_result(&heap, &r, "a"), Some(Value::Float((2.25f64).to_bits())));
    // a negative power is the reciprocal of the positive one
    let neg = |e| ch(Expression::UnaryOp {
        a: Chunk::new(Expression::Int(e), sp()).as_box(),
        op: ch(ivylang::ast::UnaryOperation::Negative),
    });
    let (heap, r) = run_program(vec![assign("a", binop(fl(2.0), Operation::Exponent, neg(2)))]);
    assert_eq!(read_result(&heap, &r, "a"), Some(Value::Float((0.25f64).to_bits())));
    assert_eq!(
        read_result(&heap, &r, "a"),
        Some(Value::Float((2.0f64).powi(-2).to_bits()))
    );
    let (_, r) = run_program(vec![assign("a", binop(fl(1.5), Operation::Exponent, fl(2.0)))]);
    assert_eq!(r.unwrap_err().message().as_str(), "Float exponents are not supported.");
}

#[test]
fn parent_reference_beyond_the_chain_fails() {
    let mut heap = Heap {
        scopes: vec![Scope::new(None)],
        funcs: Vec::new(),
        output: Vec::new(),
        modules: Vec::new(),
    };
    let r = evaluate(&mut heap, 0, &Reporter::Parent(3), sp(), 100);
    assert_eq!(r.unwrap_err().message().as_str(), "Failed to get parent scope");
    let r = evaluate(&mut heap, 0, &Reporter::Parent(0), sp(), 100);
    assert_eq!(r.unwrap(), Value::MapRef(0));
}

#[test]
fn scope_mutation_overwrites_in_place() {
    let mut heap = Heap {
        scopes: vec![Scope::new(None)],
        funcs: Vec::new(),
        output: Vec::new(),
        modules: Vec::new(),
    };
    heap.scope_set(0, "x".to_string(), Value::Int(1));
    heap.scope_set(0, "y".to_string(), Value::Int(2));
    heap.scope_set(0, "x".to_string(), Value::Int(9));
    assert_eq!(heap.scope_read(0, &"x".to_string()), Some(Value::Int(9)));
    assert_eq!(heap.scope_read(0, &"y".to_string()), Some(Value::Int(2)));
}

#[test]
fn eviction_removes_only_the_named_binding() {
    let mut heap = Heap {
        scopes: vec![Scope::new(None)],
        funcs: Vec::new(),
        output: Vec::new(),
        modules: Vec::new(),
    };
    heap.scope_set(0, "x".to_string(), Value::Int(1));
    heap.scope_set(0, "y".to_string(), Value::Int(2));
    heap.scope_remove(0, &"x".to_string());
    assert_eq!(heap.scope_read(0, &"x".to_string()), None);
    assert_eq!(heap.scope_read(0, &"y".to_string()), Some(Value::Int(2)));
}
