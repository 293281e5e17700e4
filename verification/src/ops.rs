use vstd::prelude::*;
use vstd::string::StringExecFns;
use crate::error::Error;
use crate::floats::float_add_of;
use crate::floats::float_div_of;
use crate::floats::float_lt_of;
use crate::floats::float_mul_of;
use crate::floats::float_neg_of;
use crate::floats::float_pow_of;
use crate::floats::FLOAT_ONE_BITS;
use crate::floats::float_sub_of;
use crate::floats::float_add;
use crate::floats::float_div;
use crate::floats::float_lt;
use crate::floats::float_mul;
use crate::floats::float_neg;
use crate::floats::float_pow;
use crate::floats::float_sub;
use crate::instruction::Comparison;
use crate::interpreter::Heap;
use crate::interpreter::ScopeView;
use crate::interpreter::type_of_spec;
use crate::span::Span;
use crate::value::Value;
use crate::value::ValueView;

verus! {

/// The message of every operand-type failure: it names the kind the
/// operator expected and the kind it found.
pub open spec fn type_error_spec(expected: Seq<char>, found: Seq<char>) -> Seq<char> {
    "Expected "@ + expected + ", but instead found "@ + found
}

pub fn type_error_msg(expected: &str, found: String) -> (r: String)
    ensures
        r@ == type_error_spec(expected@, found@),
{
    let s = String::from_str("Expected ");
    let s = s.concat(expected);
    let s = s.concat(", but instead found ");
    s.concat(found.as_str())
}

pub open spec fn mixed_arith_msg() -> Seq<char> {
    "You cannot do arithmetic with floats and integers."@
}

pub open spec fn div_zero_msg() -> Seq<char> {
    "Attempt to divide by zero."@
}

pub open spec fn float_exp_msg() -> Seq<char> {
    "Float exponents are not supported."@
}

/// The four arithmetic operators that share one dispatch: defined on two
/// ints and on two floats, a hard error on every other combination.
#[derive(Debug, Clone, Copy, PartialEq, Eq, Structural)]
pub enum ArithOp {
    Add,
    Subtract,
    Multiply,
    Divide,
}

/// Truncating division of 32-bit ints, wrapping on the one overflowing
/// pair.
pub open spec fn div_wrap(x: i32, y: i32) -> i32
    recommends
        y != 0,
{
    if x == i32::MIN && y == -1 {
        i32::MIN
    } else {
        let xi = x as int;
        let yi = y as int;
        let q = if xi == 0 {
            0int
        } else if xi > 0 && yi > 0 {
            xi / yi
        } else if xi < 0 && yi < 0 {
            (xi * -1) / (yi * -1)
        } else if xi < 0 {
            ((xi * -1) / yi) * -1
        } else {
            (xi / (yi * -1)) * -1
        };
        q as i32
    }
}

/// What arithmetic returns, for every pair of operand values: fixed-width
/// wrapping arithmetic on two ints (division truncates toward zero and
/// rejects a zero divisor), IEEE-754 arithmetic on two floats, the mixing
/// error on an int paired with a float in either order, and an operand-type
/// error otherwise.
pub open spec fn arith_spec(
    op: ArithOp,
    scopes: Seq<ScopeView>,
    a: ValueView,
    b: ValueView,
    a_span: Span,
    b_span: Span,
) -> Result<ValueView, (Seq<char>, Span)> {
    match a {
        ValueView::Int(x) => match b {
            ValueView::Int(y) => match op {
                ArithOp::Add => Result::Ok(ValueView::Int(
                    vstd::wrapping::i32_specs::wrapping_add(x, y),
                )),
                ArithOp::Subtract => Result::Ok(ValueView::Int(
                    vstd::wrapping::i32_specs::wrapping_sub(x, y),
                )),
                ArithOp::Multiply => Result::Ok(ValueView::Int(
                    vstd::wrapping::i32_specs::wrapping_mul(x, y),
                )),
                ArithOp::Divide => if y == 0 {
                    Result::Err((div_zero_msg(), b_span))
                } else {
                    Result::Ok(ValueView::Int(div_wrap(x, y)))
                },
            },
            ValueView::Float(_) => Result::Err((mixed_arith_msg(), b_span)),
            _ => Result::Err((type_error_spec("integer"@, type_of_spec(scopes, b)), b_span)),
        },
        ValueView::Float(x) => match b {
            ValueView::Float(y) => Result::Ok(ValueView::Float(
                match op {
                    ArithOp::Add => float_add_of(x, y),
                    ArithOp::Subtract => float_sub_of(x, y),
                    ArithOp::Multiply => float_mul_of(x, y),
                    ArithOp::Divide => float_div_of(x, y),
                },
            )),
            ValueView::Int(_) => Result::Err((mixed_arith_msg(), b_span)),
            _ => Result::Err((type_error_spec("integer"@, type_of_spec(scopes, b)), b_span)),
        },
        _ => Result::Err((type_error_spec("number"@, type_of_spec(scopes, a)), a_span)),
    }
}

/// Executable arithmetic, exactly as [`arith_spec`] states it.
pub fn arith(op: ArithOp, heap: &Heap, a: Value, b: Value, a_span: Span, b_span: Span) -> (r:
    Result<Value, Error>)
    requires
        heap.wf(),
    ensures
        match arith_spec(op, heap.scopes_vw(), a.vw(), b.vw(), a_span, b_span) {
            Result::Ok(v) => r matches Ok(rv) && rv.vw() == v,
            Result::Err(ms) => r matches Err(e) && e.message_view() == ms.0 && e.span_view()
                == ms.1,
        },
{
    match (&a, &b) {
        (Value::Int(x), Value::Int(y)) => match op {
            ArithOp::Add => Ok(Value::Int(x.wrapping_add(*y))),
            ArithOp::Subtract => Ok(Value::Int(x.wrapping_sub(*y))),
            ArithOp::Multiply => Ok(Value::Int(x.wrapping_mul(*y))),
            ArithOp::Divide => {
                match x.checked_div(*y) {
                    Some(q) => Ok(Value::Int(q)),
                    None => {
                        if *y == 0 {
                            Err(Error::new(String::from_str("Attempt to divide by zero."), b_span))
                        } else {
                            proof {
                                if !(*x == i32::MIN && *y == -1) {
                                    lemma_div_in_range(*x as int, *y as int);
                                }
                            }
                            Ok(Value::Int(i32::MIN))
                        }
                    },
                }
            },
        },
        (Value::Int(_), Value::Float(_)) | (Value::Float(_), Value::Int(_)) => Err(Error::new(
            String::from_str("You cannot do arithmetic with floats and integers."),
            b_span,
        )),
        (Value::Float(x), Value::Float(y)) => Ok(Value::Float(
            match op {
                ArithOp::Add => float_add(*x, *y),
                ArithOp::Subtract => float_sub(*x, *y),
                ArithOp::Multiply => float_mul(*x, *y),
                ArithOp::Divide => float_div(*x, *y),
            },
        )),
        (Value::Int(_), _) | (Value::Float(_), _) => {
            let found = b.type_of(heap);
            Err(Error::new(type_error_msg("integer", found), b_span))
        },
        _ => {
            let found = a.type_of(heap);
            Err(Error::new(type_error_msg("number", found), a_span))
        },
    }
}

/// Wrapping exponentiation of ints by a non-negative power, by repeated
/// multiplication; a negative power behaves as a power of zero.
pub open spec fn pow_wrap(x: i32, e: nat) -> i32
    decreases e,
{
    if e == 0 {
        1
    } else {
        vstd::wrapping::i32_specs::wrapping_mul(pow_wrap(x, (e - 1) as nat), x)
    }
}

/// What exponentiation returns: ints raise ints (a negative power behaving
/// as a power of zero, as the evaluator has always clamped it), and floats
/// raise floats to int powers, a negative power being the reciprocal of
/// the positive one. A float power of a float is the one operation this
/// evaluator deliberately leaves unsupported: float arithmetic lives behind
/// bit-pattern wrappers, and no pure bit-level power exists to stand behind
/// one, so it fails with a positioned error instead of a value. Mixing an
/// int base with a float power is the mixing error.
pub open spec fn exponent_spec(
    scopes: Seq<ScopeView>,
    a: ValueView,
    b: ValueView,
    a_span: Span,
    b_span: Span,
) -> Result<ValueView, (Seq<char>, Span)> {
    match a {
        ValueView::Int(x) => match b {
            ValueView::Int(y) => Result::Ok(ValueView::Int(
                pow_wrap(x, if y < 0 { 0nat } else { y as nat }),
            )),
            ValueView::Float(_) => Result::Err((mixed_arith_msg(), b_span)),
            _ => Result::Err((type_error_spec("integer"@, type_of_spec(scopes, b)), b_span)),
        },
        ValueView::Float(x) => match b {
            ValueView::Int(y) => Result::Ok(ValueView::Float(
                if y >= 0 {
                    float_pow_of(x, y as nat)
                } else {
                    float_div_of(FLOAT_ONE_BITS, float_pow_of(x, (-(y as int)) as nat))
                },
            )),
            ValueView::Float(_) => Result::Err((float_exp_msg(), b_span)),
            _ => Result::Err((type_error_spec("integer"@, type_of_spec(scopes, b)), b_span)),
        },
        _ => Result::Err((type_error_spec("number"@, type_of_spec(scopes, a)), a_span)),
    }
}

fn int_pow_wrap(x: i32, e: u32) -> (r: i32)
    ensures
        r == pow_wrap(x, e as nat),
{
    let mut acc: i32 = 1;
    let mut i: u32 = 0;
    while i < e
        invariant
            i <= e,
            acc == pow_wrap(x, i as nat),
        decreases e - i,
    {
        acc = acc.wrapping_mul(x);
        i = i + 1;
    }
    acc
}

/// Executable exponentiation, exactly as [`exponent_spec`] states it.
pub fn exponent(heap: &Heap, a: Value, b: Value, a_span: Span, b_span: Span) -> (r: Result<
    Value,
    Error,
>)
    requires
        heap.wf(),
    ensures
        match exponent_spec(heap.scopes_vw(), a.vw(), b.vw(), a_span, b_span) {
            Result::Ok(v) => r matches Ok(rv) && rv.vw() == v,
            Result::Err(ms) => r matches Err(e) && e.message_view() == ms.0 && e.span_view()
                == ms.1,
        },
{
    match (&a, &b) {
        (Value::Int(x), Value::Int(y)) => {
            let e: u32 = if *y < 0 {
                0
            } else {
                *y as u32
            };
            Ok(Value::Int(int_pow_wrap(*x, e)))
        },
        (Value::Int(_), Value::Float(_)) => Err(Error::new(
            String::from_str("You cannot do arithmetic with floats and integers."),
            b_span,
        )),
        (Value::Float(x), Value::Int(y)) => {
            if *y >= 0 {
                Ok(Value::Float(float_pow(*x, *y as u32)))
            } else {
                let m: u32 = ((-(*y as i64)) as u32);
                proof {
                    assert(m as nat == (-(*y as int)) as nat);
                }
                Ok(Value::Float(float_div(FLOAT_ONE_BITS, float_pow(*x, m))))
            }
        },
        (Value::Float(_), Value::Float(_)) => Err(Error::new(
            String::from_str("Float exponents are not supported."),
            b_span,
        )),
        (Value::Int(_), _) | (Value::Float(_), _) => {
            let found = b.type_of(heap);
            Err(Error::new(type_error_msg("integer", found), b_span))
        },
        _ => {
            let found = a.type_of(heap);
            Err(Error::new(type_error_msg("number", found), a_span))
        },
    }
}

/// What string concatenation returns: the joined string on two strings, an
/// operand-type error otherwise, blaming whichever side is not a string.
pub open spec fn concat_spec(scopes: Seq<ScopeView>, a: ValueView, b: ValueView, a_span: Span, b_span: Span)
    -> Result<ValueView, (Seq<char>, Span)> {
    match a {
        ValueView::Str(x) => match b {
            ValueView::Str(y) => Result::Ok(ValueView::Str(x + y)),
            _ => Result::Err((type_error_spec("string"@, type_of_spec(scopes, b)), b_span)),
        },
        _ => Result::Err((type_error_spec("string"@, type_of_spec(scopes, a)), a_span)),
    }
}

pub fn concat_values(heap: &Heap, a: Value, b: Value, a_span: Span, b_span: Span) -> (r: Result<
    Value,
    Error,
>)
    requires
        heap.wf(),
    ensures
        match concat_spec(heap.scopes_vw(), a.vw(), b.vw(), a_span, b_span) {
            Result::Ok(v) => r matches Ok(rv) && rv.vw() == v,
            Result::Err(ms) => r matches Err(e) && e.message_view() == ms.0 && e.span_view()
                == ms.1,
        },
{
    match (a, b) {
        (Value::Str(x), Value::Str(y)) => Ok(Value::Str(x.concat(y.as_str()))),
        (Value::Str(_), b) => {
            let found = b.type_of(heap);
            Err(Error::new(type_error_msg("string", found), b_span))
        },
        (a, _) => {
            let found = a.type_of(heap);
            Err(Error::new(type_error_msg("string", found), a_span))
        },
    }
}

/// What the Boolean connectives return: both operands are always required
/// and always inspected, so a non-Boolean on either side is an error even
/// when the other side already decides the outcome.
pub open spec fn logic_spec(
    is_and: bool,
    scopes: Seq<ScopeView>,
    a: ValueView,
    b: ValueView,
    a_span: Span,
    b_span: Span,
) -> Result<ValueView, (Seq<char>, Span)> {
    match a {
        ValueView::Bool(x) => match b {
            ValueView::Bool(y) => Result::Ok(ValueView::Bool(
                if is_and {
                    x && y
                } else {
                    x || y
                },
            )),
            _ => Result::Err((type_error_spec("boolean"@, type_of_spec(scopes, b)), b_span)),
        },
        _ => Result::Err((type_error_spec("boolean"@, type_of_spec(scopes, a)), a_span)),
    }
}

pub fn logic(is_and: bool, heap: &Heap, a: Value, b: Value, a_span: Span, b_span: Span) -> (r:
    Result<Value, Error>)
    requires
        heap.wf(),
    ensures
        match logic_spec(is_and, heap.scopes_vw(), a.vw(), b.vw(), a_span, b_span) {
            Result::Ok(v) => r matches Ok(rv) && rv.vw() == v,
            Result::Err(ms) => r matches Err(e) && e.message_view() == ms.0 && e.span_view()
                == ms.1,
        },
{
    match (&a, &b) {
        (Value::Bool(x), Value::Bool(y)) => Ok(Value::Bool(
            if is_and {
                *x && *y
            } else {
                *x || *y
            },
        )),
        (Value::Bool(_), _) => {
            let found = b.type_of(heap);
            Err(Error::new(type_error_msg("boolean", found), b_span))
        },
        _ => {
            let found = a.type_of(heap);
            Err(Error::new(type_error_msg("boolean", found), a_span))
        },
    }
}

/// What the comparison primitives return: `<` and `>` on two ints or two
/// floats; even an int against a float is an operand-type error.
pub open spec fn compare_spec(
    cmp: Comparison,
    scopes: Seq<ScopeView>,
    a: ValueView,
    b: ValueView,
    a_span: Span,
    b_span: Span,
) -> Result<ValueView, (Seq<char>, Span)> {
    match a {
        ValueView::Int(x) => match b {
            ValueView::Int(y) => Result::Ok(ValueView::Bool(
                if cmp == Comparison::LessThan {
                    x < y
                } else {
                    x > y
                },
            )),
            _ => Result::Err((type_error_spec("integer"@, type_of_spec(scopes, b)), b_span)),
        },
        ValueView::Float(x) => match b {
            ValueView::Float(y) => Result::Ok(ValueView::Bool(
                if cmp == Comparison::LessThan {
                    float_lt_of(x, y)
                } else {
                    float_lt_of(y, x)
                },
            )),
            _ => Result::Err((type_error_spec("float"@, type_of_spec(scopes, b)), b_span)),
        },
        _ => Result::Err((type_error_spec("number"@, type_of_spec(scopes, a)), a_span)),
    }
}

pub fn compare(cmp: Comparison, heap: &Heap, a: Value, b: Value, a_span: Span, b_span: Span) -> (r:
    Result<Value, Error>)
    requires
        heap.wf(),
    ensures
        match compare_spec(cmp, heap.scopes_vw(), a.vw(), b.vw(), a_span, b_span) {
            Result::Ok(v) => r matches Ok(rv) && rv.vw() == v,
            Result::Err(ms) => r matches Err(e) && e.message_view() == ms.0 && e.span_view()
                == ms.1,
        },
{
    match (&a, &b) {
        (Value::Int(x), Value::Int(y)) => Ok(Value::Bool(
            if matches!(cmp, Comparison::LessThan) {
                *x < *y
            } else {
                *x > *y
            },
        )),
        (Value::Int(_), _) => {
            let found = b.type_of(heap);
            Err(Error::new(type_error_msg("integer", found), b_span))
        },
        (Value::Float(x), Value::Float(y)) => Ok(Value::Bool(
            if matches!(cmp, Comparison::LessThan) {
                float_lt(*x, *y)
            } else {
                float_lt(*y, *x)
            },
        )),
        (Value::Float(_), _) => {
            let found = b.type_of(heap);
            Err(Error::new(type_error_msg("float", found), b_span))
        },
        _ => {
            let found = a.type_of(heap);
            Err(Error::new(type_error_msg("number", found), a_span))
        },
    }
}

/// What logical negation returns: the negated Boolean, or an operand-type
/// error.
pub open spec fn not_spec(scopes: Seq<ScopeView>, a: ValueView, a_span: Span) -> Result<
    ValueView,
    (Seq<char>, Span),
> {
    match a {
        ValueView::Bool(x) => Result::Ok(ValueView::Bool(!x)),
        _ => Result::Err((type_error_spec("boolean"@, type_of_spec(scopes, a)), a_span)),
    }
}

pub fn not_value(heap: &Heap, a: Value, a_span: Span) -> (r: Result<Value, Error>)
    requires
        heap.wf(),
    ensures
        match not_spec(heap.scopes_vw(), a.vw(), a_span) {
            Result::Ok(v) => r matches Ok(rv) && rv.vw() == v,
            Result::Err(ms) => r matches Err(e) && e.message_view() == ms.0 && e.span_view()
                == ms.1,
        },
{
    match &a {
        Value::Bool(x) => Ok(Value::Bool(!*x)),
        _ => {
            let found = a.type_of(heap);
            Err(Error::new(type_error_msg("boolean", found), a_span))
        },
    }
}

/// What arithmetic negation returns: ints wrap on the one overflowing
/// input, floats flip their sign bit; anything else is a type error naming
/// the expected kind.
pub open spec fn negative_spec(scopes: Seq<ScopeView>, a: ValueView, a_span: Span) -> Result<
    ValueView,
    (Seq<char>, Span),
> {
    match a {
        ValueView::Int(x) => Result::Ok(ValueView::Int(
            vstd::wrapping::i32_specs::wrapping_sub(0, x),
        )),
        ValueView::Float(x) => Result::Ok(ValueView::Float(float_neg_of(x))),
        _ => Result::Err((type_error_spec("number"@, type_of_spec(scopes, a)), a_span)),
    }
}

pub fn negative_value(heap: &Heap, a: Value, a_span: Span) -> (r: Result<Value, Error>)
    requires
        heap.wf(),
    ensures
        match negative_spec(heap.scopes_vw(), a.vw(), a_span) {
            Result::Ok(v) => r matches Ok(rv) && rv.vw() == v,
            Result::Err(ms) => r matches Err(e) && e.message_view() == ms.0 && e.span_view()
                == ms.1,
        },
{
    match &a {
        Value::Int(x) => Ok(Value::Int(0i32.wrapping_sub(*x))),
        Value::Float(x) => Ok(Value::Float(float_neg(*x))),
        _ => {
            let found = a.type_of(heap);
            Err(Error::new(type_error_msg("number", found), a_span))
        },
    }
}

/// The quotient of truncating division stays within the 32-bit range for
/// every divisor pair except `i32::MIN / -1`.
proof fn lemma_div_in_range(x: int, y: int)
    requires
        i32::MIN <= x <= i32::MAX,
        i32::MIN <= y <= i32::MAX,
        y != 0,
        !(x == i32::MIN && y == -1),
    ensures
        ({
            let q = if x == 0 {
                0int
            } else if x > 0 && y > 0 {
                x / y
            } else if x < 0 && y < 0 {
                (x * -1) / (y * -1)
            } else if x < 0 {
                ((x * -1) / y) * -1
            } else {
                (x / (y * -1)) * -1
            };
            i32::MIN <= q <= i32::MAX
        }),
{
    if x == 0 {
    } else if x > 0 && y > 0 {
        vstd::arithmetic::div_mod::lemma_div_pos_is_pos(x, y);
        vstd::arithmetic::div_mod::lemma_div_nonincreasing(x, y);
    } else if x < 0 && y < 0 {
        let a = x * -1;
        let d = y * -1;
        vstd::arithmetic::div_mod::lemma_div_pos_is_pos(a, d);
        if d == 1 {
            vstd::arithmetic::div_mod::lemma_div_basics(a);
        } else {
            vstd::arithmetic::div_mod::lemma_div_decreases(a, d);
        }
    } else if x < 0 {
        let a = x * -1;
        vstd::arithmetic::div_mod::lemma_div_pos_is_pos(a, y);
        vstd::arithmetic::div_mod::lemma_div_nonincreasing(a, y);
    } else {
        let d = y * -1;
        vstd::arithmetic::div_mod::lemma_div_pos_is_pos(x, d);
        vstd::arithmetic::div_mod::lemma_div_nonincreasing(x, d);
    }
}

} // verus!
