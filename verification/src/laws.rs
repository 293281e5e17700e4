use vstd::prelude::*;
use crate::instruction::Comparison;
use crate::instruction::Instruction;
use crate::interpreter::HeapView;
use crate::interpreter::run_block_spec;
use crate::span::Chunk;
use crate::interpreter::ScopeView;
use crate::ops::ArithOp;
use crate::ops::arith_spec;
use crate::ops::compare_spec;
use crate::ops::div_wrap;
use crate::ops::logic_spec;
use crate::ops::mixed_arith_msg;
use crate::ops::not_spec;
use crate::ops::div_zero_msg;
use crate::span::Span;
use crate::value::ValueView;
use crate::value::val_eq;

verus! {

/// For all ints `a`, `b`: `a + b`, `a - b` and `a * b` follow fixed-width
/// two's-complement (wrapping) arithmetic; `a / b` truncates toward zero
/// and rejects a zero divisor; and mixing an int with a float in any of the
/// four arithmetic operators fails with the mixing error, whichever side
/// the float stands on.
pub proof fn law_int_arithmetic(sv: Seq<ScopeView>, x: i32, y: i32, f: u64, sa: Span, sb: Span)
    ensures
        arith_spec(ArithOp::Add, sv, ValueView::Int(x), ValueView::Int(y), sa, sb)
            == Result::<ValueView, (Seq<char>, Span)>::Ok(ValueView::Int(
            vstd::wrapping::i32_specs::wrapping_add(x, y),
        )),
        arith_spec(ArithOp::Subtract, sv, ValueView::Int(x), ValueView::Int(y), sa, sb)
            == Result::<ValueView, (Seq<char>, Span)>::Ok(ValueView::Int(
            vstd::wrapping::i32_specs::wrapping_sub(x, y),
        )),
        arith_spec(ArithOp::Multiply, sv, ValueView::Int(x), ValueView::Int(y), sa, sb)
            == Result::<ValueView, (Seq<char>, Span)>::Ok(ValueView::Int(
            vstd::wrapping::i32_specs::wrapping_mul(x, y),
        )),
        y != 0 ==> arith_spec(ArithOp::Divide, sv, ValueView::Int(x), ValueView::Int(y), sa, sb)
            == Result::<ValueView, (Seq<char>, Span)>::Ok(ValueView::Int(div_wrap(x, y))),
        y == 0 ==> arith_spec(ArithOp::Divide, sv, ValueView::Int(x), ValueView::Int(y), sa, sb)
            == Result::<ValueView, (Seq<char>, Span)>::Err((div_zero_msg(), sb)),
        forall|op: ArithOp| arith_spec(op, sv, ValueView::Int(x), ValueView::Float(f), sa, sb)
            == Result::<ValueView, (Seq<char>, Span)>::Err((mixed_arith_msg(), sb)),
        forall|op: ArithOp| arith_spec(op, sv, ValueView::Float(f), ValueView::Int(x), sa, sb)
            == Result::<ValueView, (Seq<char>, Span)>::Err((mixed_arith_msg(), sb)),
{
}

/// Truncation toward zero, spelled out: for non-negative operands the
/// quotient is the rounded-down ratio, and flipping the sign of either
/// operand flips the sign of the quotient without changing its magnitude.
pub proof fn law_division_truncates(x: i32, y: i32)
    requires
        y != 0,
        x > i32::MIN,
        y > i32::MIN,
    ensures
        x >= 0 && y > 0 ==> div_wrap(x, y) == (x as int) / (y as int),
        div_wrap(x, y) as int == 0 - (div_wrap((0 - x) as i32, y) as int),
        div_wrap(x, y) as int == 0 - (div_wrap(x, (0 - y) as i32) as int),
{
    vstd::arithmetic::div_mod::lemma_div_basics(x as int);
    vstd::arithmetic::div_mod::lemma_div_basics(y as int);
}

/// For all Booleans `a`, `b`: `a && b` and `a || b` yield exactly the
/// connective's truth table, and both operands are always inspected: a
/// non-Boolean on either side is an error even when the other side already
/// decides the outcome (`false && _`, `true || _`), so there is no
/// short-circuit.
pub proof fn law_logic_no_short_circuit(sv: Seq<ScopeView>, x: bool, y: bool, b: ValueView, sa: Span, sb: Span)
    ensures
        logic_spec(true, sv, ValueView::Bool(x), ValueView::Bool(y), sa, sb)
            == Result::<ValueView, (Seq<char>, Span)>::Ok(ValueView::Bool(x && y)),
        logic_spec(false, sv, ValueView::Bool(x), ValueView::Bool(y), sa, sb)
            == Result::<ValueView, (Seq<char>, Span)>::Ok(ValueView::Bool(x || y)),
        !(b matches ValueView::Bool(_)) ==> logic_spec(true, sv, ValueView::Bool(false), b, sa, sb)
            is Err,
        !(b matches ValueView::Bool(_)) ==> logic_spec(false, sv, ValueView::Bool(true), b, sa, sb)
            is Err,
{
}

/// Whether two value images are built by the same constructor.
pub open spec fn same_kind(a: ValueView, b: ValueView) -> bool {
    match (a, b) {
        (ValueView::Null, ValueView::Null) => true,
        (ValueView::Str(_), ValueView::Str(_)) => true,
        (ValueView::Int(_), ValueView::Int(_)) => true,
        (ValueView::Float(_), ValueView::Float(_)) => true,
        (ValueView::Bool(_), ValueView::Bool(_)) => true,
        (ValueView::Function(_), ValueView::Function(_)) => true,
        (ValueView::Array(_), ValueView::Array(_)) => true,
        (ValueView::MapVal(_), ValueView::MapVal(_)) => true,
        (ValueView::MapRef(_), ValueView::MapRef(_)) => true,
        _ => false,
    }
}

/// `a != b` is compiled as `!(a == b)` (see the resolver's lowering), `==`
/// always yields a Boolean, and negating that Boolean is exactly the
/// logical complement of equality, for every pair of values; across
/// mismatched kinds equality is always false, so `!=` is always true.
pub proof fn law_not_equality(sv: Seq<ScopeView>, a: ValueView, b: ValueView, s: Span)
    ensures
        not_spec(sv, ValueView::Bool(val_eq(a, b)), s)
            == Result::<ValueView, (Seq<char>, Span)>::Ok(ValueView::Bool(!val_eq(a, b))),
        !same_kind(a, b) ==> !val_eq(a, b),
{
}

/// `a <= b` is compiled as `!(a > b)` and `a >= b` as `!(a < b)` (see the
/// resolver's lowering); for all int pairs the comparison primitives
/// return Booleans whose negations are exactly the derived comparisons.
pub proof fn law_comparison_negation(sv: Seq<ScopeView>, x: i32, y: i32, sa: Span, sb: Span, s: Span)
    ensures
        compare_spec(Comparison::GreaterThan, sv, ValueView::Int(x), ValueView::Int(y), sa, sb)
            == Result::<ValueView, (Seq<char>, Span)>::Ok(ValueView::Bool(x > y)),
        compare_spec(Comparison::LessThan, sv, ValueView::Int(x), ValueView::Int(y), sa, sb)
            == Result::<ValueView, (Seq<char>, Span)>::Ok(ValueView::Bool(x < y)),
        not_spec(sv, ValueView::Bool(x > y), s)
            == Result::<ValueView, (Seq<char>, Span)>::Ok(ValueView::Bool(x <= y)),
        not_spec(sv, ValueView::Bool(x < y), s)
            == Result::<ValueView, (Seq<char>, Span)>::Ok(ValueView::Bool(x >= y)),
{
}


/// A block that runs no instructions always succeeds, yielding its own
/// scope as a map reference: success is owed, not merely permitted.
pub proof fn law_empty_block(h: HeapView, scope: int, fuel: nat)
    ensures
        run_block_spec(h, scope, Seq::empty(), fuel) == (
            h,
            Result::<ValueView, (Seq<char>, Span)>::Ok(ValueView::MapRef(scope)),
        ),
{
}

/// A block whose instruction list holds no `Return` either fails or yields
/// its own scope as a map reference, exposing its bindings as a record.
pub proof fn law_block_yields_its_scope(
    h: HeapView,
    scope: int,
    insts: Seq<Chunk<Instruction>>,
    fuel: nat,
)
    requires
        forall|i: int| 0 <= i < insts.len() ==> !((#[trigger] insts[i].data)
            matches Instruction::Return(_)),
    ensures
        ({
            let sr = run_block_spec(h, scope, insts, fuel);
            sr.1 is Err || sr.1 == Result::<ValueView, (Seq<char>, Span)>::Ok(ValueView::MapRef(
                scope,
            ))
        }),
    decreases fuel, insts.len(),
{
    if insts.len() == 0 || fuel == 0 {
    } else {
        assert(forall|i: int| 0 <= i < insts.drop_first().len() ==> insts.drop_first()[i]
            == insts[i + 1]);
        let sub = (fuel - 1) as nat;
        match insts[0].data {
            Instruction::Assign { map, name, value } => {
                let (h1, rm) = crate::interpreter::eval_spec(h, scope, map.data, map.span, sub);
                match rm {
                    Result::Err(_) => {},
                    Result::Ok(mv) => {
                        let (h2, rv) = crate::interpreter::eval_spec(h1, scope, value.data,
                            value.span, sub);
                        match rv {
                            Result::Err(_) => {},
                            Result::Ok(vv) => match mv {
                                ValueView::MapRef(idx) => {
                                    let h3 = HeapView {
                                        scopes: h2.scopes.update(idx, ScopeView {
                                            parent: h2.scopes[idx].parent,
                                            vars: crate::interpreter::assoc_set(
                                                h2.scopes[idx].vars,
                                                name.data@,
                                                vv,
                                            ),
                                        }),
                                        ..h2
                                    };
                                    law_block_yields_its_scope(h3, scope, insts.drop_first(),
                                        fuel);
                                },
                                ValueView::MapVal(_) => {
                                    law_block_yields_its_scope(h2, scope, insts.drop_first(),
                                        fuel);
                                },
                                _ => {},
                            },
                        }
                    },
                }
            },
            Instruction::While { condition, body } => {
                let (h1, rw) = crate::interpreter::run_while_spec(h, scope, condition,
                    body.data@, sub);
                if rw is Ok {
                    law_block_yields_its_scope(h1, scope, insts.drop_first(), fuel);
                }
            },
            Instruction::For { name, iter, body } => {
                let (h1, ri) = crate::interpreter::eval_spec(h, scope, iter.data, iter.span,
                    sub);
                match ri {
                    Result::Err(_) => {},
                    Result::Ok(iv) => match iv {
                        ValueView::Function(fi) => {
                            let (h2, rr) = crate::interpreter::run_for_fn_spec(h1, scope,
                                name.data@, fi, body.data@, iter.span, sub);
                            if rr is Ok {
                                law_block_yields_its_scope(h2, scope, insts.drop_first(), fuel);
                            }
                        },
                        ValueView::Array(items) => {
                            let (h2, rr) = crate::interpreter::run_for_arr_spec(h1, scope,
                                name.data@, items, 0, body.data@, iter.span, sub);
                            if rr is Ok {
                                law_block_yields_its_scope(h2, scope, insts.drop_first(), fuel);
                            }
                        },
                        _ => {},
                    },
                }
            },
            Instruction::Return(_) => {
                assert(false);
            },
            Instruction::Void(rep) => {
                let (h1, rv) = crate::interpreter::eval_spec(h, scope, rep, insts[0].span, sub);
                if rv is Ok {
                    law_block_yields_its_scope(h1, scope, insts.drop_first(), fuel);
                }
            },
        }
    }
}

} // verus!
