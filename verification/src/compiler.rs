use vstd::prelude::*;
use crate::ast::AssignOperator;
use crate::ast::Block;
use crate::ast::Expression;
use crate::ast::Operation;
use crate::ast::Statement;
use crate::ast::UnaryOperation;
use crate::error::Error;
use crate::instruction::Comparison;
use crate::owned::OwnedReporter;
use crate::instruction::Instruction;
use crate::instruction::Reporter;
use crate::span::Chunk;
use crate::span::Span;
use crate::value::string_eq;

verus! {

/// The images of one compile-time scope's declared names.
pub open spec fn names_view(frame: Seq<String>) -> Seq<Seq<char>> {
    Seq::new(frame.len(), |i: int| frame[i]@)
}

/// Whether `name` is declared in the frame.
pub open spec fn name_in(frame: Seq<Seq<char>>, name: Seq<char>) -> bool {
    exists|i: int| 0 <= i < frame.len() && frame[i] == name
}

/// The number of enclosing-scope hops from the innermost frame (the last
/// element) to the nearest frame declaring `name`, or `None` if no frame
/// declares it.
pub open spec fn lookup_hops(frames: Seq<Seq<Seq<char>>>, name: Seq<char>) -> Option<int>
    decreases frames.len(),
{
    if frames.len() == 0 {
        Option::None
    } else if name_in(frames.last(), name) {
        Option::Some(0)
    } else {
        match lookup_hops(frames.drop_last(), name) {
            Option::Some(h) => Option::Some(h + 1),
            Option::None => Option::None,
        }
    }
}

/// The hop count the resolver actually emits: an undeclared name falls back
/// to hop 0, the innermost scope, deferring the failure to runtime lookup.
pub open spec fn hop_or_zero(frames: Seq<Seq<Seq<char>>>, name: Seq<char>) -> int {
    match lookup_hops(frames, name) {
        Option::Some(h) => h,
        Option::None => 0,
    }
}

/// The names of the prelude bindings, in declaration order; the runtime
/// prelude scope binds exactly these.
pub open spec fn prelude_names() -> Seq<Seq<char>> {
    seq!["int"@, "map"@, "iter"@, "type"@, "println"@, "print"@]
}

/// The compile-time scope chain: one ordered set of declared names per
/// lexical region, kept as an owned stack of frames with the outermost
/// frame first and the innermost frame last.
pub struct CompilerScope {
    frames: Vec<Vec<String>>,
}

impl CompilerScope {
    /// The mathematical image of the chain: a sequence of frames, each a
    /// sequence of names.
    pub closed spec fn frames_view(&self) -> Seq<Seq<Seq<char>>> {
        Seq::new(self.frames@.len(), |i: int| names_view(self.frames@[i]@))
    }

    /// An empty chain; block and function compilation push their own frames.
    pub fn new() -> (s: CompilerScope)
        ensures
            s.frames_view() == Seq::<Seq<Seq<char>>>::empty(),
    {
        let s = CompilerScope { frames: Vec::new() };
        proof {
            assert(s.frames_view() =~= Seq::<Seq<Seq<char>>>::empty());
        }
        s
    }

    /// The outermost chain a program is compiled in: a single frame holding
    /// the prelude's names.
    pub fn from_prelude() -> (s: CompilerScope)
        ensures
            s.frames_view() == seq![prelude_names()],
    {
        let mut frame: Vec<String> = Vec::new();
        frame.push(String::from_str("int"));
        frame.push(String::from_str("map"));
        frame.push(String::from_str("iter"));
        frame.push(String::from_str("type"));
        frame.push(String::from_str("println"));
        frame.push(String::from_str("print"));
        let s = CompilerScope { frames: vec![frame] };
        proof {
            assert(names_view(s.frames@[0]@) =~= prelude_names());
            assert(s.frames_view() =~~= seq![prelude_names()]);
        }
        s
    }

    /// Opens a fresh innermost frame.
    pub fn enter(&mut self)
        ensures
            final(self).frames_view() == old(self).frames_view().push(Seq::<Seq<char>>::empty()),
    {
        self.frames.push(Vec::new());
        proof {
            assert(self.frames_view() =~~= old(self).frames_view().push(
                Seq::<Seq<char>>::empty(),
            ));
        }
    }

    /// Closes the innermost frame.
    pub fn exit(&mut self)
        requires
            old(self).frames_view().len() > 0,
        ensures
            final(self).frames_view() == old(self).frames_view().drop_last(),
    {
        let _ = self.frames.pop();
        proof {
            assert(self.frames_view() =~= old(self).frames_view().drop_last());
        }
    }

    /// Declares `name` in the innermost frame.
    pub fn declare(&mut self, name: String)
        requires
            old(self).frames_view().len() > 0,
        ensures
            final(self).frames_view() == old(self).frames_view().update(
                old(self).frames_view().len() - 1,
                old(self).frames_view().last().push(name@),
            ),
    {
        let mut frame = self.frames.pop().unwrap();
        frame.push(name);
        self.frames.push(frame);
        proof {
            assert(names_view(self.frames@.last()@) =~= old(self).frames_view().last().push(
                name@,
            ));
            assert(self.frames_view() =~= old(self).frames_view().update(
                old(self).frames_view().len() - 1,
                old(self).frames_view().last().push(name@),
            ));
        }
    }

    /// Whether the chain has a frame to declare into.
    pub fn has_frame(&self) -> (r: bool)
        ensures
            r == (self.frames_view().len() > 0),
    {
        self.frames.len() > 0
    }

    /// Resolves `name` to its hop count: 0 if the innermost frame declares
    /// it, 1 for its parent, and so on; `None` if no frame does.
    pub fn get_var(&self, name: &String) -> (r: Option<usize>)
        ensures
            match r {
                Option::Some(h) => lookup_hops(self.frames_view(), name@) == Option::Some(
                    h as int,
                ),
                Option::None => lookup_hops(self.frames_view(), name@) is None,
            },
    {
        let ghost w = self.frames_view();
        let n = self.frames.len();
        proof {
            assert(w.take(n as int) =~= w);
        }
        let mut hop: usize = 0;
        while hop < n
            invariant
                hop <= n,
                n == w.len(),
                w == self.frames_view(),
                lookup_hops(w, name@) == match lookup_hops(w.take(n - hop), name@) {
                    Option::Some(h) => Option::Some(h + hop),
                    Option::None => Option::<int>::None,
                },
            decreases n - hop,
        {
            let frame = &self.frames[n - 1 - hop];
            proof {
                assert(w.take(n - hop).last() == names_view(self.frames@[n - 1 - hop as int]@));
            }
            if Self::frame_has(frame, name) {
                return Some(hop);
            }
            proof {
                assert(w.take(n - hop).drop_last() =~= w.take(n - (hop + 1)));
            }
            hop = hop + 1;
        }
        proof {
            assert(w.take(0).len() == 0);
        }
        None
    }

    fn frame_has(frame: &Vec<String>, name: &String) -> (r: bool)
        ensures
            r == name_in(names_view(frame@), name@),
    {
        let mut i: usize = 0;
        while i < frame.len()
            invariant
                i <= frame@.len(),
                forall|j: int| 0 <= j < i ==> frame@[j]@ != name@,
            decreases frame@.len() - i,
        {
            if string_eq(&frame[i], name) {
                proof {
                    assert(names_view(frame@)[i as int] == name@);
                }
                return true;
            }
            i = i + 1;
        }
        proof {
            assert(forall|j: int| 0 <= j < names_view(frame@).len()
                ==> names_view(frame@)[j] != name@);
        }
        false
    }
}


/// Whether an expression compiles: resolution never fails on its own, so
/// the only failures are malformed assignment targets in nested blocks.
pub open spec fn expr_compiles(e: Expression) -> bool
    decreases e,
{
    match e {
        Expression::Null => true,
        Expression::Str(_) => true,
        Expression::Int(_) => true,
        Expression::Float(_) => true,
        Expression::Bool(_) => true,
        Expression::Array(items) => exprs_compile(items@),
        Expression::Function { parameters: _, body } => expr_compiles(*body.data),
        Expression::Variable(_) => true,
        Expression::GetProp(o, _) => expr_compiles(*o.data),
        Expression::DynProp(o, a) => expr_compiles(*o.data) && expr_compiles(*a.data),
        Expression::Call { value, args } => expr_compiles(*value.data) && exprs_compile(args@),
        Expression::Block(b) => stmts_compile(b.body@),
        Expression::If { blocks, else_block } => pairs_compile(blocks@) && match else_block {
            Option::Some(b) => expr_compiles(*b.data),
            Option::None => true,
        },
        Expression::Import(_) => true,
        Expression::BinaryOp { a, b, op: _ } => expr_compiles(*a.data) && expr_compiles(*b.data),
        Expression::UnaryOp { a, op: _ } => expr_compiles(*a.data),
        Expression::Group(inner) => expr_compiles(*inner),
    }
}

pub open spec fn exprs_compile(items: Seq<Chunk<Expression>>) -> bool
    decreases items,
{
    if items.len() == 0 {
        true
    } else {
        expr_compiles(items[0].data) && exprs_compile(items.drop_first())
    }
}

pub open spec fn pairs_compile(blocks: Seq<(Chunk<Expression>, Chunk<Expression>)>) -> bool
    decreases blocks,
{
    if blocks.len() == 0 {
        true
    } else {
        expr_compiles(blocks[0].0.data) && expr_compiles(blocks[0].1.data) && pairs_compile(
            blocks.drop_first(),
        )
    }
}

pub open spec fn stmt_compiles(s: Statement) -> bool
    decreases s,
{
    match s {
        Statement::Assign { name, op: _, value } => (match name.data {
            Expression::Variable(_) => true,
            Expression::GetProp(o, _) => expr_compiles(*o.data),
            _ => false,
        }) && expr_compiles(value.data),
        Statement::Expr(e) => expr_compiles(e),
        Statement::While { cond, body } => expr_compiles(cond.data) && stmts_compile(
            body.data.body@,
        ),
        Statement::For { name: _, iter, body } => expr_compiles(iter.data) && stmts_compile(
            body.data.body@,
        ),
        Statement::Return(v) => expr_compiles(v.data),
    }
}

pub open spec fn stmts_compile(stmts: Seq<Chunk<Statement>>) -> bool
    decreases stmts,
{
    if stmts.len() == 0 {
        true
    } else {
        stmt_compiles(stmts[0].data) && stmts_compile(stmts.drop_first())
    }
}

/// The frames a statement leaves behind: a first write to a bare name that
/// no frame declares appends it to the innermost frame.
pub open spec fn stmt_frames(s: Statement, frames: Seq<Seq<Seq<char>>>) -> Seq<Seq<Seq<char>>> {
    match s {
        Statement::Assign { name, .. } => match name.data {
            Expression::Variable(nm) => if lookup_hops(frames, nm@) is None && frames.len() > 0 {
                frames.update(frames.len() - 1, frames.last().push(nm@))
            } else {
                frames
            },
            _ => frames,
        },
        _ => frames,
    }
}

/// The frames left after a prefix of a statement list.
pub open spec fn stmts_frames(stmts: Seq<Chunk<Statement>>, frames: Seq<Seq<Seq<char>>>) -> Seq<
    Seq<Seq<char>>,
>
    decreases stmts,
{
    if stmts.len() == 0 {
        frames
    } else {
        stmts_frames(stmts.drop_first(), stmt_frames(stmts[0].data, frames))
    }
}

/// Ties an operand's compilation to the boxed reporter a lowered node
/// holds.
pub open spec fn operand_lowers_to(
    x: Chunk<Box<Expression>>,
    frames: Seq<Seq<Seq<char>>>,
    c: Chunk<Box<Reporter>>,
) -> bool
    decreases x, 0int,
{
    expr_lowers_to(*x.data, frames, x.span, Chunk { data: *c.data, span: c.span })
}

/// The exact lowering relation of the resolver: which reporter each
/// expression compiles to, in which frames. It fixes every node, every
/// span, and every hop count, including the compile-time desugaring of
/// `!=`, `<=` and `>=` into negations of the three remaining primitives.
pub open spec fn expr_lowers_to(
    e: Expression,
    frames: Seq<Seq<Seq<char>>>,
    span: Span,
    c: Chunk<Reporter>,
) -> bool
    decreases e, 0int,
{
    c.span == span && match e {
        Expression::Null => c.data matches Reporter::Null,
        Expression::Str(s) => (c.data matches Reporter::ConstStr(cs) && cs@
            == s@),
        Expression::Int(i) => c.data == Reporter::ConstInt(i),
        Expression::Float(f) => c.data == Reporter::ConstFloat(f),
        Expression::Bool(b) => c.data == Reporter::ConstBool(b),
        Expression::Array(items) => (c.data matches Reporter::Array(ch)
            && ch.span == span && exprs_lower_to(items@, frames, ch.data@)),
        Expression::Function { parameters, body } => (c.data
            matches Reporter::Function { parameters: qs, body: ob } && qs@.len()
            == parameters@.len() && (forall|i: int| 0 <= i < parameters@.len()
            ==> (#[trigger] qs@[i]).data@ == parameters@[i].data@ && qs@[i].span
            == parameters@[i].span) && expr_lowers_to(
            *body.data,
            frames.push(param_names(parameters@)),
            body.span,
            Chunk { data: ob.tree_spec(), span: ob.span_spec() },
        )),
        Expression::Variable(name) => (c.data matches Reporter::Get {
            map,
            name: n,
        } && n.data@ == name@ && n.span == span && map.span == span && ((*map.data)
            matches Reporter::Parent(hh) && hh as int == hop_or_zero(frames, name@))),
        Expression::GetProp(o, prop) => (c.data matches Reporter::Get {
            map,
            name: n,
        } && n.data@ == prop.data@ && n.span == prop.span && expr_lowers_to(
            *o.data,
            frames,
            o.span,
            Chunk { data: *map.data, span: map.span },
        )),
        Expression::DynProp(o, a) => (c.data matches Reporter::DynGet {
            map,
            attr,
        } && operand_lowers_to(o, frames, map) && operand_lowers_to(a, frames, attr)),
        Expression::Call { value, args } => (c.data matches Reporter::Call(
            f,
            cargs,
        ) && operand_lowers_to(value, frames, f) && exprs_lower_to(args@, frames, cargs@)),
        Expression::Block(b) => (c.data matches Reporter::Block(insts)
            && stmts_lower_to(b.body@, frames.push(Seq::empty()), insts@)),
        Expression::If { blocks, else_block } => (c.data matches Reporter::If {
            blocks: cb,
            else_block: ce,
        } && pairs_lower_to(blocks@, frames, cb@) && match (else_block, ce) {
            (Option::Some(b), Option::Some(cbx)) => operand_lowers_to(b, frames, cbx),
            (Option::None, Option::None) => true,
            _ => false,
        }),
        Expression::Import(name) => (c.data matches Reporter::Import(n)
            && n.data@ == name.data@ && n.span == name.span),
        Expression::BinaryOp { a, b, op } => (match op.data {
            Operation::Concat => c.data matches Reporter::Concat { a: ca, b: cb }
                && operand_lowers_to(a, frames, ca) && operand_lowers_to(b, frames, cb),
            Operation::Exponent => c.data matches Reporter::Exponent { a: ca, b: cb }
                && operand_lowers_to(a, frames, ca) && operand_lowers_to(b, frames, cb),
            Operation::Multiply => c.data matches Reporter::Multiply { a: ca, b: cb }
                && operand_lowers_to(a, frames, ca) && operand_lowers_to(b, frames, cb),
            Operation::Divide => c.data matches Reporter::Divide { a: ca, b: cb }
                && operand_lowers_to(a, frames, ca) && operand_lowers_to(b, frames, cb),
            Operation::Add => c.data matches Reporter::Add { a: ca, b: cb }
                && operand_lowers_to(a, frames, ca) && operand_lowers_to(b, frames, cb),
            Operation::Subtract => c.data matches Reporter::Subtract { a: ca, b: cb }
                && operand_lowers_to(a, frames, ca) && operand_lowers_to(b, frames, cb),
            Operation::Equals => c.data matches Reporter::Equality { a: ca, b: cb }
                && operand_lowers_to(a, frames, ca) && operand_lowers_to(b, frames, cb),
            Operation::NotEquals => c.data matches Reporter::Not(inner) && inner.span == span
                && ((*inner.data) matches Reporter::Equality { a: ca, b: cb }
                && operand_lowers_to(a, frames, ca) && operand_lowers_to(b, frames, cb)),
            Operation::Lt => c.data matches Reporter::Inequality { a: ca, b: cb, op: o }
                && o.data == Comparison::LessThan && o.span == op.span && operand_lowers_to(
                a,
                frames,
                ca,
            ) && operand_lowers_to(b, frames, cb),
            Operation::LtEqual => c.data matches Reporter::Not(inner) && inner.span == span && ((
            *inner.data) matches Reporter::Inequality { a: ca, b: cb, op: o } && o.data
                == Comparison::GreaterThan && o.span == op.span && operand_lowers_to(
                a,
                frames,
                ca,
            ) && operand_lowers_to(b, frames, cb)),
            Operation::Gt => c.data matches Reporter::Inequality { a: ca, b: cb, op: o }
                && o.data == Comparison::GreaterThan && o.span == op.span && operand_lowers_to(
                a,
                frames,
                ca,
            ) && operand_lowers_to(b, frames, cb),
            Operation::GtEqual => c.data matches Reporter::Not(inner) && inner.span == span && ((
            *inner.data) matches Reporter::Inequality { a: ca, b: cb, op: o } && o.data
                == Comparison::LessThan && o.span == op.span && operand_lowers_to(a, frames, ca)
                && operand_lowers_to(b, frames, cb)),
            Operation::And => c.data matches Reporter::And { a: ca, b: cb }
                && operand_lowers_to(a, frames, ca) && operand_lowers_to(b, frames, cb),
            Operation::Or => c.data matches Reporter::Or { a: ca, b: cb }
                && operand_lowers_to(a, frames, ca) && operand_lowers_to(b, frames, cb),
        }),
        Expression::UnaryOp { a, op } => (match op.data {
            UnaryOperation::Not => c.data matches Reporter::Not(ca) && operand_lowers_to(
                a,
                frames,
                ca,
            ),
            UnaryOperation::Negative => c.data matches Reporter::Negative(ca)
                && operand_lowers_to(a, frames, ca),
        }),
        Expression::Group(inner) => expr_lowers_to(*inner, frames, span, c),
    }
}

/// The parameter names a function literal declares, in order.
pub open spec fn param_names(parameters: Seq<Chunk<String>>) -> Seq<Seq<char>> {
    Seq::new(parameters.len(), |i: int| parameters[i].data@)
}

pub open spec fn exprs_lower_to(
    items: Seq<Chunk<Expression>>,
    frames: Seq<Seq<Seq<char>>>,
    out: Seq<Chunk<Reporter>>,
) -> bool
    decreases items, 0int,
{
    out.len() == items.len() && if items.len() == 0 {
        true
    } else {
        expr_lowers_to(items[0].data, frames, items[0].span, out[0]) && exprs_lower_to(
            items.drop_first(),
            frames,
            out.drop_first(),
        )
    }
}

pub open spec fn pairs_lower_to(
    blocks: Seq<(Chunk<Expression>, Chunk<Expression>)>,
    frames: Seq<Seq<Seq<char>>>,
    out: Seq<(Chunk<Reporter>, Chunk<Reporter>)>,
) -> bool
    decreases blocks, 0int,
{
    out.len() == blocks.len() && if blocks.len() == 0 {
        true
    } else {
        expr_lowers_to(blocks[0].0.data, frames, blocks[0].0.span, out[0].0) && expr_lowers_to(
            blocks[0].1.data,
            frames,
            blocks[0].1.span,
            out[0].1,
        ) && pairs_lower_to(blocks.drop_first(), frames, out.drop_first())
    }
}

/// The compound-assignment desugaring for a bare-name target: the stored
/// value is `read op value`, where the read re-resolves the same hop.
pub open spec fn assign_value_var_lowers_to(
    op: AssignOperator,
    frames_for_value: Seq<Seq<Seq<char>>>,
    nm: Seq<char>,
    hop: int,
    t_span: Span,
    value: Chunk<Expression>,
    cv: Chunk<Reporter>,
) -> bool
    decreases value, 1int,
{
    match op {
        AssignOperator::Plain => expr_lowers_to(value.data, frames_for_value, value.span, cv),
        AssignOperator::Add => cv.span == value.span && (cv.data matches Reporter::Add {
            a: ra,
            b: rb,
        } && var_read_ok(nm, hop, t_span, ra) && operand_value_lowers(value, frames_for_value,
            rb)),
        AssignOperator::Subtract => cv.span == value.span && (cv.data matches Reporter::Subtract {
            a: ra,
            b: rb,
        } && var_read_ok(nm, hop, t_span, ra) && operand_value_lowers(value, frames_for_value,
            rb)),
        AssignOperator::Multiply => cv.span == value.span && (cv.data matches Reporter::Multiply {
            a: ra,
            b: rb,
        } && var_read_ok(nm, hop, t_span, ra) && operand_value_lowers(value, frames_for_value,
            rb)),
        AssignOperator::Divide => cv.span == value.span && (cv.data matches Reporter::Divide {
            a: ra,
            b: rb,
        } && var_read_ok(nm, hop, t_span, ra) && operand_value_lowers(value, frames_for_value,
            rb)),
    }
}

pub open spec fn operand_value_lowers(
    value: Chunk<Expression>,
    frames: Seq<Seq<Seq<char>>>,
    rb: Chunk<Box<Reporter>>,
) -> bool
    decreases value, 0int,
{
    expr_lowers_to(value.data, frames, value.span, Chunk { data: *rb.data, span: rb.span })
}

/// The read half of a compound assignment to a property target: a get of
/// the same name on a fresh compilation of the same object expression.
pub open spec fn prop_read_ok(
    obj: Chunk<Box<Expression>>,
    frames: Seq<Seq<Seq<char>>>,
    prop_name: Seq<char>,
    prop_span: Span,
    t_span: Span,
    ra: Chunk<Box<Reporter>>,
) -> bool
    decreases obj, 1int,
{
    ra.span == t_span && ((*ra.data) matches Reporter::Get { map: rm, name: rn } && rn.data@
        == prop_name && rn.span == prop_span && expr_lowers_to(
        *obj.data,
        frames,
        obj.span,
        Chunk { data: *rm.data, span: rm.span },
    ))
}

/// The read half of a compound assignment to a bare name: a property get of
/// the same name on the same scope hop.
pub open spec fn var_read_ok(
    nm: Seq<char>,
    hop: int,
    t_span: Span,
    ra: Chunk<Box<Reporter>>,
) -> bool {
    ra.span == t_span && ((*ra.data) matches Reporter::Get { map: rm, name: rn } && rn.data@ == nm
        && rn.span == t_span && rm.span == t_span && ((*rm.data) matches Reporter::Parent(hh)
        && hh as int == hop))
}

/// The exact lowering relation for statements: which instruction each
/// statement compiles to, and which frames it leaves behind
/// ([`stmt_frames`]): define-on-first-write happens before the right-hand
/// side is compiled.
pub open spec fn stmt_lowers_to(
    s: Statement,
    frames: Seq<Seq<Seq<char>>>,
    span: Span,
    c: Chunk<Instruction>,
) -> bool
    decreases s, 2int,
{
    c.span == span && match s {
        Statement::Assign { name: t, op, value } => match t.data {
            Expression::Variable(nm) => c.data matches Instruction::Assign {
                map,
                name: n,
                value: cv,
            } && n.data@ == nm@ && n.span == t.span && map.span == t.span && (map.data
                matches Reporter::Parent(hh) && hh as int == hop_or_zero(frames, nm@))
                && assign_value_var_lowers_to(
                op.data,
                stmt_frames(s, frames),
                nm@,
                hop_or_zero(frames, nm@),
                t.span,
                value,
                cv,
            ),
            Expression::GetProp(obj, prop) => c.data matches Instruction::Assign {
                map,
                name: n,
                value: cv,
            } && n.data@ == prop.data@ && n.span == prop.span && expr_lowers_to(
                *obj.data,
                frames,
                obj.span,
                map,
            ) && (match op.data {
                AssignOperator::Plain => expr_lowers_to(value.data, frames, value.span, cv),
                AssignOperator::Add => cv.span == value.span && (cv.data matches Reporter::Add {
                    a: ra,
                    b: rb,
                } && prop_read_ok(obj, frames, prop.data@, prop.span, t.span, ra)
                    && operand_value_lowers(value, frames, rb)),
                AssignOperator::Subtract => cv.span == value.span && (cv.data
                    matches Reporter::Subtract { a: ra, b: rb } && prop_read_ok(
                    obj,
                    frames,
                    prop.data@,
                    prop.span,
                    t.span,
                    ra,
                ) && operand_value_lowers(value, frames, rb)),
                AssignOperator::Multiply => cv.span == value.span && (cv.data
                    matches Reporter::Multiply { a: ra, b: rb } && prop_read_ok(
                    obj,
                    frames,
                    prop.data@,
                    prop.span,
                    t.span,
                    ra,
                ) && operand_value_lowers(value, frames, rb)),
                AssignOperator::Divide => cv.span == value.span && (cv.data
                    matches Reporter::Divide { a: ra, b: rb } && prop_read_ok(
                    obj,
                    frames,
                    prop.data@,
                    prop.span,
                    t.span,
                    ra,
                ) && operand_value_lowers(value, frames, rb)),
            }),
            _ => false,
        },
        Statement::Expr(e) => c.data matches Instruction::Void(rep) && expr_lowers_to(
            e,
            frames,
            span,
            Chunk { data: rep, span: span },
        ),
        Statement::While { cond, body } => c.data matches Instruction::While {
            condition,
            body: cb,
        } && expr_lowers_to(cond.data, frames, cond.span, condition) && cb.span == body.span
            && stmts_lower_to(body.data.body@, frames.push(Seq::empty()), cb.data@),
        Statement::For { name, iter, body } => c.data matches Instruction::For {
            name: n,
            iter: ci,
            body: cb,
        } && n.data@ == name.data@ && n.span == name.span && expr_lowers_to(
            iter.data,
            frames,
            iter.span,
            ci,
        ) && cb.span == body.span && stmts_lower_to(
            body.data.body@,
            frames.push(Seq::empty()),
            cb.data@,
        ),
        Statement::Return(v) => c.data matches Instruction::Return(cv) && expr_lowers_to(
            v.data,
            frames,
            v.span,
            cv,
        ),
    }
}

/// A statement list lowers pointwise, each statement compiled in the frames
/// its predecessors left behind.
pub open spec fn stmts_lower_to(
    stmts: Seq<Chunk<Statement>>,
    frames: Seq<Seq<Seq<char>>>,
    out: Seq<Chunk<Instruction>>,
) -> bool
    decreases stmts, 0int,
{
    out.len() == stmts.len() && if stmts.len() == 0 {
        true
    } else {
        stmt_lowers_to(stmts[0].data, frames, stmts[0].span, out[0]) && stmts_lower_to(
            stmts.drop_first(),
            stmt_frames(stmts[0].data, frames),
            out.drop_first(),
        )
    }
}


/// Extending a lowered prefix by one lowered element keeps it lowered.
pub proof fn lemma_exprs_lower_push(
    xs: Seq<Chunk<Expression>>,
    frames: Seq<Seq<Seq<char>>>,
    ys: Seq<Chunk<Reporter>>,
    x: Chunk<Expression>,
    y: Chunk<Reporter>,
)
    requires
        exprs_lower_to(xs, frames, ys),
        expr_lowers_to(x.data, frames, x.span, y),
    ensures
        exprs_lower_to(xs.push(x), frames, ys.push(y)),
    decreases xs.len(),
{
    if xs.len() == 0 {
        assert(xs.push(x).drop_first() =~= xs);
        assert(ys.push(y).drop_first() =~= ys);
        assert(exprs_lower_to(xs, frames, ys));
    } else {
        lemma_exprs_lower_push(xs.drop_first(), frames, ys.drop_first(), x, y);
        assert(xs.push(x).drop_first() =~= xs.drop_first().push(x));
        assert(ys.push(y).drop_first() =~= ys.drop_first().push(y));
    }
}

pub proof fn lemma_pairs_lower_push(
    xs: Seq<(Chunk<Expression>, Chunk<Expression>)>,
    frames: Seq<Seq<Seq<char>>>,
    ys: Seq<(Chunk<Reporter>, Chunk<Reporter>)>,
    x: (Chunk<Expression>, Chunk<Expression>),
    y: (Chunk<Reporter>, Chunk<Reporter>),
)
    requires
        pairs_lower_to(xs, frames, ys),
        expr_lowers_to(x.0.data, frames, x.0.span, y.0),
        expr_lowers_to(x.1.data, frames, x.1.span, y.1),
    ensures
        pairs_lower_to(xs.push(x), frames, ys.push(y)),
    decreases xs.len(),
{
    if xs.len() == 0 {
        assert(xs.push(x).drop_first() =~= xs);
        assert(ys.push(y).drop_first() =~= ys);
    } else {
        lemma_pairs_lower_push(xs.drop_first(), frames, ys.drop_first(), x, y);
        assert(xs.push(x).drop_first() =~= xs.drop_first().push(x));
        assert(ys.push(y).drop_first() =~= ys.drop_first().push(y));
    }
}

/// Extending a lowered statement prefix: the new statement is compiled in
/// the frames the prefix left behind.
pub proof fn lemma_stmts_lower_push(
    xs: Seq<Chunk<Statement>>,
    frames: Seq<Seq<Seq<char>>>,
    ys: Seq<Chunk<Instruction>>,
    x: Chunk<Statement>,
    y: Chunk<Instruction>,
)
    requires
        stmts_lower_to(xs, frames, ys),
        stmt_lowers_to(x.data, stmts_frames(xs, frames), x.span, y),
    ensures
        stmts_lower_to(xs.push(x), frames, ys.push(y)),
    decreases xs.len(),
{
    if xs.len() == 0 {
        assert(stmts_frames(xs, frames) == frames);
        assert(xs.push(x)[0] == x);
        assert(xs.push(x).drop_first() =~= xs);
        assert(ys.push(y).drop_first() =~= ys);
        assert(stmts_lower_to(xs.push(x).drop_first(), stmt_frames(x.data, frames),
            ys.push(y).drop_first()));
    } else {
        assert(stmts_frames(xs, frames) == stmts_frames(xs.drop_first(), stmt_frames(
            xs[0].data, frames)));
        lemma_stmts_lower_push(xs.drop_first(), stmt_frames(xs[0].data, frames),
            ys.drop_first(), x, y);
        assert(xs.push(x).drop_first() =~= xs.drop_first().push(x));
        assert(ys.push(y).drop_first() =~= ys.drop_first().push(y));
        assert(xs.push(x)[0] == xs[0]);
        assert(ys.push(y)[0] == ys[0]);
    }
}

pub proof fn lemma_exprs_compile_push(xs: Seq<Chunk<Expression>>, x: Chunk<Expression>)
    requires
        exprs_compile(xs),
        expr_compiles(x.data),
    ensures
        exprs_compile(xs.push(x)),
    decreases xs.len(),
{
    if xs.len() == 0 {
        assert(xs.push(x).drop_first() =~= xs);
    } else {
        lemma_exprs_compile_push(xs.drop_first(), x);
        assert(xs.push(x).drop_first() =~= xs.drop_first().push(x));
    }
}

/// A list compiles only if each of its elements does.
pub proof fn lemma_exprs_compile_index(xs: Seq<Chunk<Expression>>, i: int)
    requires
        0 <= i < xs.len(),
        exprs_compile(xs),
    ensures
        expr_compiles(xs[i].data),
    decreases xs.len(),
{
    if i > 0 {
        lemma_exprs_compile_index(xs.drop_first(), i - 1);
    }
}

pub proof fn lemma_pairs_compile_push(
    xs: Seq<(Chunk<Expression>, Chunk<Expression>)>,
    x: (Chunk<Expression>, Chunk<Expression>),
)
    requires
        pairs_compile(xs),
        expr_compiles(x.0.data),
        expr_compiles(x.1.data),
    ensures
        pairs_compile(xs.push(x)),
    decreases xs.len(),
{
    if xs.len() == 0 {
        assert(xs.push(x).drop_first() =~= xs);
    } else {
        lemma_pairs_compile_push(xs.drop_first(), x);
        assert(xs.push(x).drop_first() =~= xs.drop_first().push(x));
    }
}

pub proof fn lemma_pairs_compile_index(xs: Seq<(Chunk<Expression>, Chunk<Expression>)>, i: int)
    requires
        0 <= i < xs.len(),
        pairs_compile(xs),
    ensures
        expr_compiles(xs[i].0.data),
        expr_compiles(xs[i].1.data),
    decreases xs.len(),
{
    if i > 0 {
        lemma_pairs_compile_index(xs.drop_first(), i - 1);
    }
}

pub proof fn lemma_stmts_compile_push(xs: Seq<Chunk<Statement>>, x: Chunk<Statement>)
    requires
        stmts_compile(xs),
        stmt_compiles(x.data),
    ensures
        stmts_compile(xs.push(x)),
    decreases xs.len(),
{
    if xs.len() == 0 {
        assert(xs.push(x).drop_first() =~= xs);
    } else {
        lemma_stmts_compile_push(xs.drop_first(), x);
        assert(xs.push(x).drop_first() =~= xs.drop_first().push(x));
    }
}

pub proof fn lemma_stmts_compile_index(xs: Seq<Chunk<Statement>>, i: int)
    requires
        0 <= i < xs.len(),
        stmts_compile(xs),
    ensures
        stmt_compiles(xs[i].data),
    decreases xs.len(),
{
    if i > 0 {
        lemma_stmts_compile_index(xs.drop_first(), i - 1);
    }
}

/// A statement list's frames keep their count and every enclosing frame;
/// only the innermost frame may have grown.
pub proof fn lemma_stmts_frames_shape(stmts: Seq<Chunk<Statement>>, frames: Seq<Seq<Seq<char>>>)
    requires
        frames.len() > 0,
    ensures
        stmts_frames(stmts, frames).len() == frames.len(),
        forall|i: int| 0 <= i < frames.len() - 1 ==> stmts_frames(stmts, frames)[i] == frames[i],
    decreases stmts.len(),
{
    if stmts.len() > 0 {
        let f1 = stmt_frames(stmts[0].data, frames);
        assert(f1.len() == frames.len());
        assert(forall|i: int| 0 <= i < frames.len() - 1 ==> f1[i] == frames[i]);
        lemma_stmts_frames_shape(stmts.drop_first(), f1);
        assert(stmts_frames(stmts, frames) == stmts_frames(stmts.drop_first(), f1));
    }
}

/// Appending one statement to a prefix composes its frame effect.
pub proof fn lemma_stmts_frames_push(
    xs: Seq<Chunk<Statement>>,
    frames: Seq<Seq<Seq<char>>>,
    x: Chunk<Statement>,
)
    ensures
        stmts_frames(xs.push(x), frames) == stmt_frames(x.data, stmts_frames(xs, frames)),
    decreases xs.len(),
{
    if xs.len() == 0 {
        assert(xs.push(x)[0] == x);
        assert(xs.push(x).drop_first() =~= xs);
        assert(stmts_frames(xs, frames) == frames);
        assert(stmts_frames(xs.push(x).drop_first(), stmt_frames(x.data, frames))
            == stmt_frames(x.data, frames));
    } else {
        lemma_stmts_frames_push(xs.drop_first(), stmt_frames(xs[0].data, frames), x);
        assert(xs.push(x)[0] == xs[0]);
        assert(xs.push(x).drop_first() =~= xs.drop_first().push(x));
    }
}

impl Expression {
    /// Lowers one expression into a reporter, exactly as [`expr_lowers_to`]
    /// states it. Compilation of an expression never changes the scope
    /// chain it is handed (every frame it opens it closes again), and it
    /// succeeds exactly when [`expr_compiles`] holds: resolution itself
    /// never fails, only a malformed assignment target in a nested block
    /// does.
    pub fn compile(&self, span: Span, scopes: &mut CompilerScope) -> (r: Result<
        Chunk<Reporter>,
        Error,
    >)
        ensures
            final(scopes).frames_view() == old(scopes).frames_view(),
            r matches Ok(c) ==> expr_lowers_to(*self, old(scopes).frames_view(), span, c),
            r is Ok <==> expr_compiles(*self),
            r matches Err(e) ==> e.message_view()
                == "Only variables and properties can be assigned to."@,
        decreases *self, 0int,
    {
        let ghost f0 = scopes.frames_view();
        match self {
            Expression::Null => Ok(Chunk::new(Reporter::Null, span)),
            Expression::Str(s) => Ok(Chunk::new(Reporter::ConstStr(s.clone()), span)),
            Expression::Int(i) => Ok(Chunk::new(Reporter::ConstInt(*i), span)),
            Expression::Float(f) => Ok(Chunk::new(Reporter::ConstFloat(*f), span)),
            Expression::Bool(b) => Ok(Chunk::new(Reporter::ConstBool(*b), span)),
            Expression::Array(items) => {
                proof {
                    assert(items@.take(0) =~= Seq::<Chunk<Expression>>::empty());
                }
                let mut out: Vec<Chunk<Reporter>> = Vec::new();
                let mut i: usize = 0;
                while i < items.len()
                    invariant
                        i <= items@.len(),
                        out@.len() == i,
                        scopes.frames_view() == old(scopes).frames_view(),
                        f0 == old(scopes).frames_view(),
                        self == &Expression::Array(*items),
                        exprs_lower_to(items@.take(i as int), f0, out@),
                        exprs_compile(items@.take(i as int)),
                    decreases items@.len() - i,
                {
                    proof {
                        assert(decreases_to!(*self => (*self)->Array_0));
                        assert(decreases_to!(*items => items@));
                        assert(decreases_to!(items@ => items@[i as int]));
                        assert(decreases_to!(items@[i as int] => items@[i as int].data));
                    }
                    let item = &items[i];
                    match item.data.compile(item.span, scopes) {
                        Ok(c) => {
                            proof {
                                lemma_exprs_lower_push(items@.take(i as int), f0, out@,
                                    items@[i as int], c);
                                lemma_exprs_compile_push(items@.take(i as int), items@[i as int]);
                                assert(items@.take(i as int).push(items@[i as int])
                                    =~= items@.take(i + 1));
                            }
                            out.push(c);
                        },
                        Err(e) => {
                            proof {
                                if exprs_compile(items@) {
                                    lemma_exprs_compile_index(items@, i as int);
                                }
                            }
                            return Err(e);
                        },
                    }
                    i = i + 1;
                }
                proof {
                    assert(items@.take(i as int) =~= items@);
                    assert(exprs_lower_to(items@, f0, out@));
                }
                Ok(Chunk::new(Reporter::Array(Chunk::new(out, span)), span))
            },
            Expression::Function { parameters, body } => {
                let ghost s0 = scopes.frames_view();
                scopes.enter();
                proof {
                    assert(param_names(parameters@.take(0)) =~= Seq::<Seq<char>>::empty());
                    assert(scopes.frames_view() =~= s0.push(param_names(parameters@.take(0))));
                }
                let mut qs: Vec<Chunk<String>> = Vec::new();
                let mut i: usize = 0;
                while i < parameters.len()
                    invariant
                        i <= parameters@.len(),
                        qs@.len() == i,
                        s0 == old(scopes).frames_view(),
                        forall|j: int| 0 <= j < i ==> (#[trigger] qs@[j]).data@
                            == parameters@[j].data@ && qs@[j].span == parameters@[j].span,
                        scopes.frames_view() == s0.push(param_names(parameters@.take(i as int))),
                    decreases parameters@.len() - i,
                {
                    let p = &parameters[i];
                    scopes.declare(p.data.clone());
                    qs.push(Chunk::new(p.data.clone(), p.span));
                    proof {
                        assert(param_names(parameters@.take(i + 1)) =~= param_names(
                            parameters@.take(i as int),
                        ).push(parameters@[i as int].data@));
                        assert(scopes.frames_view() =~= s0.push(param_names(parameters@.take(i
                            + 1))));
                    }
                    i = i + 1;
                }
                proof {
                    assert(parameters@.take(i as int) =~= parameters@);
                    assert(decreases_to!(*self => (*self)->Function_body));
                    assert(decreases_to!(*body => body.data));
                }
                match body.data.compile(body.span, scopes) {
                    Ok(c) => {
                        scopes.exit();
                        proof {
                            assert(scopes.frames_view() =~= s0);
                        }
                        let ob = OwnedReporter::new(c);
                        proof {
                            assert((Chunk { data: ob.tree_spec(), span: ob.span_spec() }) == c);
                            assert(param_names(parameters@) =~= param_names(parameters@.take(
                                parameters@.len() as int,
                            )));
                            assert(expr_lowers_to(*body.data, f0.push(param_names(parameters@)),
                                body.span, (Chunk { data: ob.tree_spec(), span: ob.span_spec() })));
                        }
                        Ok(Chunk::new(
                            Reporter::Function { parameters: qs, body: ob },
                            span,
                        ))
                    },
                    Err(e) => {
                        scopes.exit();
                        proof {
                            assert(scopes.frames_view() =~= s0);
                        }
                        Err(e)
                    },
                }
            },
            Expression::Variable(name) => {
                let up = scopes.get_var(name);
                let hop: usize = match up {
                    Some(h) => h,
                    None => 0,
                };
                Ok(Chunk::new(
                    Reporter::Get {
                        map: Chunk::new(Reporter::Parent(hop), span).as_box(),
                        name: Chunk::new(name.clone(), span),
                    },
                    span,
                ))
            },
            Expression::GetProp(obj, prop) => {
                proof {
                    assert(decreases_to!(*self => (*self)->GetProp_0));
                    assert(decreases_to!(*obj => obj.data));
                }
                let m = obj.data.compile(obj.span, scopes)?;
                proof {
                    assert((Chunk { data: m.data, span: m.span }) == m);
                }
                Ok(Chunk::new(
                    Reporter::Get {
                        map: m.as_box(),
                        name: Chunk::new(prop.data.clone(), prop.span),
                    },
                    span,
                ))
            },
            Expression::DynProp(obj, attr) => {
                proof {
                    assert(decreases_to!(*self => (*self)->DynProp_0));
                    assert(decreases_to!(*obj => obj.data));
                    assert(decreases_to!(*self => (*self)->DynProp_1));
                    assert(decreases_to!(*attr => attr.data));
                }
                let m = obj.data.compile(obj.span, scopes)?;
                let a = attr.data.compile(attr.span, scopes)?;
                let mb = m.as_box();
                let ab = a.as_box();
                proof {
                    assert(operand_lowers_to(*obj, f0, mb));
                    assert(operand_lowers_to(*attr, f0, ab));
                }
                Ok(Chunk::new(Reporter::DynGet { map: mb, attr: ab }, span))
            },
            Expression::Call { value, args } => {
                proof {
                    assert(decreases_to!(*self => (*self)->Call_value));
                    assert(decreases_to!(*value => value.data));
                }
                let f = value.data.compile(value.span, scopes)?;
                proof {
                    assert(args@.take(0) =~= Seq::<Chunk<Expression>>::empty());
                }
                let mut out: Vec<Chunk<Reporter>> = Vec::new();
                let mut i: usize = 0;
                while i < args.len()
                    invariant
                        i <= args@.len(),
                        out@.len() == i,
                        scopes.frames_view() == old(scopes).frames_view(),
                        f0 == old(scopes).frames_view(),
                        self == &(Expression::Call { value: *value, args: *args }),
                        exprs_lower_to(args@.take(i as int), f0, out@),
                        exprs_compile(args@.take(i as int)),
                    decreases args@.len() - i,
                {
                    proof {
                        assert(decreases_to!(*self => (*self)->Call_args));
                        assert(decreases_to!(*args => args@));
                        assert(decreases_to!(args@ => args@[i as int]));
                        assert(decreases_to!(args@[i as int] => args@[i as int].data));
                    }
                    let arg = &args[i];
                    match arg.data.compile(arg.span, scopes) {
                        Ok(c) => {
                            proof {
                                lemma_exprs_lower_push(args@.take(i as int), f0, out@,
                                    args@[i as int], c);
                                lemma_exprs_compile_push(args@.take(i as int), args@[i as int]);
                                assert(args@.take(i as int).push(args@[i as int]) =~= args@.take(i
                                    + 1));
                            }
                            out.push(c);
                        },
                        Err(e) => {
                            proof {
                                if exprs_compile(args@) {
                                    lemma_exprs_compile_index(args@, i as int);
                                }
                            }
                            return Err(e);
                        },
                    }
                    i = i + 1;
                }
                let fb = f.as_box();
                proof {
                    assert(args@.take(i as int) =~= args@);
                    assert(operand_lowers_to(*value, f0, fb));
                    assert(exprs_lower_to(args@, f0, out@));
                }
                Ok(Chunk::new(Reporter::Call(fb, out), span))
            },
            Expression::Block(block) => {
                proof {
                    assert(decreases_to!(*self => (*self)->Block_0));
                }
                let c = block.compile(span, scopes)?;
                Ok(Chunk::new(Reporter::Block(c.data), span))
            },
            Expression::If { blocks, else_block } => {
                proof {
                    assert(blocks@.take(0) =~= Seq::<(Chunk<Expression>, Chunk<Expression>)>::empty());
                }
                let mut out: Vec<(Chunk<Reporter>, Chunk<Reporter>)> = Vec::new();
                let mut i: usize = 0;
                while i < blocks.len()
                    invariant
                        i <= blocks@.len(),
                        out@.len() == i,
                        scopes.frames_view() == old(scopes).frames_view(),
                        f0 == old(scopes).frames_view(),
                        self == &(Expression::If { blocks: *blocks, else_block: *else_block }),
                        pairs_lower_to(blocks@.take(i as int), f0, out@),
                        pairs_compile(blocks@.take(i as int)),
                    decreases blocks@.len() - i,
                {
                    proof {
                        assert(decreases_to!(*self => (*self)->If_blocks));
                        assert(decreases_to!(*blocks => blocks@));
                        assert(decreases_to!(blocks@ => blocks@[i as int]));
                        assert(decreases_to!(blocks@[i as int] => blocks@[i as int].0));
                        assert(decreases_to!(blocks@[i as int].0 => blocks@[i as int].0.data));
                        assert(decreases_to!(blocks@[i as int] => blocks@[i as int].1));
                        assert(decreases_to!(blocks@[i as int].1 => blocks@[i as int].1.data));
                    }
                    let pair = &blocks[i];
                    let cond = match pair.0.data.compile(pair.0.span, scopes) {
                        Ok(c) => c,
                        Err(e) => {
                            proof {
                                if pairs_compile(blocks@) {
                                    lemma_pairs_compile_index(blocks@, i as int);
                                }
                            }
                            return Err(e);
                        },
                    };
                    let bodyc = match pair.1.data.compile(pair.1.span, scopes) {
                        Ok(c) => c,
                        Err(e) => {
                            proof {
                                if pairs_compile(blocks@) {
                                    lemma_pairs_compile_index(blocks@, i as int);
                                }
                            }
                            return Err(e);
                        },
                    };
                    proof {
                        lemma_pairs_lower_push(blocks@.take(i as int), f0, out@,
                            blocks@[i as int], (cond, bodyc));
                        lemma_pairs_compile_push(blocks@.take(i as int), blocks@[i as int]);
                        assert(blocks@.take(i as int).push(blocks@[i as int]) =~= blocks@.take(i
                            + 1));
                    }
                    out.push((cond, bodyc));
                    i = i + 1;
                }
                proof {
                    assert(blocks@.take(i as int) =~= blocks@);
                }
                let els = match else_block {
                    Some(b) => {
                        proof {
                            assert(decreases_to!(*self => (*self)->If_else_block));
                            assert(decreases_to!((*else_block) => (*else_block)->0));
                            assert(decreases_to!(*b => b.data));
                        }
                        let eb = b.data.compile(b.span, scopes)?.as_box();
                        proof {
                            assert(operand_lowers_to(*b, f0, eb));
                        }
                        Some(eb)
                    },
                    None => None,
                };
                proof {
                    assert(pairs_lower_to(blocks@, f0, out@));
                }
                Ok(Chunk::new(Reporter::If { blocks: out, else_block: els }, span))
            },
            Expression::Import(name) => Ok(Chunk::new(
                Reporter::Import(Chunk::new(name.data.clone(), name.span)),
                span,
            )),
            Expression::BinaryOp { a, b, op } => {
                proof {
                    assert(decreases_to!(*self => (*self)->BinaryOp_a));
                    assert(decreases_to!(*a => a.data));
                    assert(decreases_to!(*self => (*self)->BinaryOp_b));
                    assert(decreases_to!(*b => b.data));
                }
                let ca = a.data.compile(a.span, scopes)?.as_box();
                let cb = b.data.compile(b.span, scopes)?.as_box();
                proof {
                    assert(operand_lowers_to(*a, f0, ca));
                    assert(operand_lowers_to(*b, f0, cb));
                }
                let rep = match op.data {
                    Operation::Concat => Reporter::Concat { a: ca, b: cb },
                    Operation::Exponent => Reporter::Exponent { a: ca, b: cb },
                    Operation::Multiply => Reporter::Multiply { a: ca, b: cb },
                    Operation::Divide => Reporter::Divide { a: ca, b: cb },
                    Operation::Add => Reporter::Add { a: ca, b: cb },
                    Operation::Subtract => Reporter::Subtract { a: ca, b: cb },
                    Operation::Equals => Reporter::Equality { a: ca, b: cb },
                    Operation::NotEquals => Reporter::Not(
                        Chunk::new(Reporter::Equality { a: ca, b: cb }, span).as_box(),
                    ),
                    Operation::Lt => Reporter::Inequality {
                        a: ca,
                        b: cb,
                        op: Chunk::new(Comparison::LessThan, op.span),
                    },
                    Operation::LtEqual => Reporter::Not(
                        Chunk::new(
                            Reporter::Inequality {
                                a: ca,
                                b: cb,
                                op: Chunk::new(Comparison::GreaterThan, op.span),
                            },
                            span,
                        ).as_box(),
                    ),
                    Operation::Gt => Reporter::Inequality {
                        a: ca,
                        b: cb,
                        op: Chunk::new(Comparison::GreaterThan, op.span),
                    },
                    Operation::GtEqual => Reporter::Not(
                        Chunk::new(
                            Reporter::Inequality {
                                a: ca,
                                b: cb,
                                op: Chunk::new(Comparison::LessThan, op.span),
                            },
                            span,
                        ).as_box(),
                    ),
                    Operation::And => Reporter::And { a: ca, b: cb },
                    Operation::Or => Reporter::Or { a: ca, b: cb },
                };
                Ok(Chunk::new(rep, span))
            },
            Expression::UnaryOp { a, op } => {
                proof {
                    assert(decreases_to!(*self => (*self)->UnaryOp_a));
                    assert(decreases_to!(*a => a.data));
                }
                let ca = a.data.compile(a.span, scopes)?.as_box();
                proof {
                    assert(operand_lowers_to(*a, f0, ca));
                }
                Ok(match op.data {
                    UnaryOperation::Not => Chunk::new(Reporter::Not(ca), span),
                    UnaryOperation::Negative => Chunk::new(Reporter::Negative(ca), span),
                })
            },
            Expression::Group(inner) => {
                proof {
                    assert(decreases_to!(*self => (*self)->Group_0));
                }
                let c = (&**inner).compile(span, scopes)?;
                Ok(c)
            },
        }
    }
}

impl Statement {
    /// Lowers one statement into an instruction, exactly as
    /// [`stmt_lowers_to`] states it, leaving exactly the frames
    /// [`stmt_frames`] describes: a bare name that no frame declares is
    /// declared in the innermost frame before the right-hand side is
    /// compiled (define-on-first-write). It succeeds exactly when
    /// [`stmt_compiles`] holds, and a malformed target is rejected with the
    /// one structural error.
    pub fn compile(&self, span: Span, scopes: &mut CompilerScope) -> (r: Result<
        Chunk<Instruction>,
        Error,
    >)
        requires
            old(scopes).frames_view().len() > 0,
        ensures
            final(scopes).frames_view() == stmt_frames(*self, old(scopes).frames_view()),
            r matches Ok(c) ==> stmt_lowers_to(*self, old(scopes).frames_view(), span, c),
            r is Ok <==> stmt_compiles(*self),
            r matches Err(e) ==> e.message_view()
                == "Only variables and properties can be assigned to."@,
            (*self) matches Statement::Assign { name: t, .. } ==> (!(t.data
                matches Expression::Variable(_)) && !(t.data matches Expression::GetProp(_, _))
                ==> (r matches Err(e) && e.message_view()
                == "Only variables and properties can be assigned to."@ && e.span_view()
                == t.span)),
        decreases *self, 0int,
    {
        let ghost f0 = scopes.frames_view();
        match self {
            Statement::Assign { name: name_expr, op, value } => {
                let assign_name: Chunk<String>;
                let assign_map: Chunk<Reporter>;
                let read_map: Option<Chunk<Reporter>>;
                let needs_read = !matches!(&op.data, AssignOperator::Plain);
                match &name_expr.data {
                    Expression::Variable(nm) => {
                        let up = scopes.get_var(nm);
                        let hop: usize = match up {
                            Some(h) => h,
                            None => {
                                scopes.declare(nm.clone());
                                0
                            },
                        };
                        proof {
                            assert(hop as int == hop_or_zero(f0, nm@));
                            assert(scopes.frames_view() == stmt_frames(*self, f0));
                        }
                        assign_name = Chunk::new(nm.clone(), name_expr.span);
                        assign_map = Chunk::new(Reporter::Parent(hop), name_expr.span);
                        read_map = if needs_read {
                            Some(Chunk::new(Reporter::Parent(hop), name_expr.span))
                        } else {
                            None
                        };
                    },
                    Expression::GetProp(obj, prop) => {
                        proof {
                            assert(decreases_to!(*self => (*self)->Assign_name));
                            assert(decreases_to!(*name_expr => name_expr.data));
                            assert(decreases_to!(name_expr.data => name_expr.data->GetProp_0));
                            assert(decreases_to!(*obj => obj.data));
                        }
                        assign_map = match obj.data.compile(obj.span, scopes) {
                            Ok(c) => c,
                            Err(e) => {
                                return Err(e);
                            },
                        };
                        read_map = if needs_read {
                            match obj.data.compile(obj.span, scopes) {
                                Ok(c) => Some(c),
                                Err(e) => {
                                    return Err(e);
                                },
                            }
                        } else {
                            None
                        };
                        assign_name = Chunk::new(prop.data.clone(), prop.span);
                        proof {
                            assert(scopes.frames_view() == stmt_frames(*self, f0));
                        }
                    },
                    _ => {
                        return Err(Error::new(
                            String::from_str("Only variables and properties can be assigned to."),
                            name_expr.span,
                        ));
                    },
                }
                let ghost f2 = scopes.frames_view();
                proof {
                    assert(decreases_to!(*self => (*self)->Assign_value));
                    assert(decreases_to!(*value => value.data));
                }
                let value_c = match value.data.compile(value.span, scopes) {
                    Ok(c) => c,
                    Err(e) => {
                        return Err(e);
                    },
                };
                let ghost vcg = value_c;
                proof {
                    assert(expr_lowers_to(value.data, f2, value.span, vcg));
                    assert(vcg.span == value.span);
                }
                let value_span = value_c.span;
                let ghost rmg = read_map;
                let value_final: Chunk<Reporter> = match read_map {
                    None => value_c,
                    Some(rm) => {
                        proof {
                            assert((Chunk { data: rm.data, span: rm.span }) == rm);
                        }
                        let read = Chunk::new(
                            Reporter::Get {
                                map: rm.as_box(),
                                name: Chunk::new(assign_name.data.clone(), assign_name.span),
                            },
                            name_expr.span,
                        ).as_box();
                        let ghost readg = read;
                        let vb = value_c.as_box();
                        let ghost vbg = vb;
                        proof {
                            assert((Chunk { data: *vbg.data, span: vbg.span }) == vcg);
                            assert(operand_value_lowers(*value, f2, vbg));
                        }
                        let combined = match op.data {
                            // a plain assignment never reaches this branch:
                            // no read half is built for it above
                            AssignOperator::Plain | AssignOperator::Add => Reporter::Add {
                                a: read,
                                b: vb,
                            },
                            AssignOperator::Subtract => Reporter::Subtract { a: read, b: vb },
                            AssignOperator::Multiply => Reporter::Multiply { a: read, b: vb },
                            AssignOperator::Divide => Reporter::Divide { a: read, b: vb },
                        };
                        Chunk::new(combined, value_span)
                    },
                };
                let c = Chunk::new(
                    Instruction::Assign { map: assign_map, name: assign_name, value: value_final },
                    span,
                );
                proof {
                    match &name_expr.data {
                        Expression::Variable(nm) => {
                            assert(assign_value_var_lowers_to(
                                op.data,
                                f2,
                                nm@,
                                hop_or_zero(f0, nm@),
                                name_expr.span,
                                *value,
                                value_final,
                            ));
                        },
                        Expression::GetProp(obj, prop) => {
                            match rmg {
                                Some(rm) => {
                                    assert(expr_lowers_to(*obj.data, f0, obj.span, rm));
                                },
                                None => {},
                            }
                        },
                        _ => {
                            assert(false);
                        },
                    }
                    assert(stmt_lowers_to(*self, f0, span, c));
                }
                Ok(c)
            },
            Statement::Expr(e) => {
                proof {
                    assert(decreases_to!(*self => (*self)->Expr_0));
                }
                let c = e.compile(span, scopes)?;
                proof {
                    assert((Chunk { data: c.data, span: span }) == c);
                }
                Ok(Chunk::new(Instruction::Void(c.data), span))
            },
            Statement::While { cond, body } => {
                proof {
                    assert(decreases_to!(*self => (*self)->While_cond));
                    assert(decreases_to!(*cond => cond.data));
                    assert(decreases_to!(*self => (*self)->While_body));
                    assert(decreases_to!(*body => body.data));
                }
                let c = cond.data.compile(cond.span, scopes)?;
                let b = body.data.compile(body.span, scopes)?;
                Ok(Chunk::new(Instruction::While { condition: c, body: b }, span))
            },
            Statement::For { name, iter, body } => {
                proof {
                    assert(decreases_to!(*self => (*self)->For_iter));
                    assert(decreases_to!(*iter => iter.data));
                    assert(decreases_to!(*self => (*self)->For_body));
                    assert(decreases_to!(*body => body.data));
                }
                let it = iter.data.compile(iter.span, scopes)?;
                let b = body.data.compile(body.span, scopes)?;
                Ok(Chunk::new(
                    Instruction::For {
                        name: Chunk::new(name.data.clone(), name.span),
                        iter: it,
                        body: b,
                    },
                    span,
                ))
            },
            Statement::Return(value) => {
                proof {
                    assert(decreases_to!(*self => (*self)->Return_0));
                    assert(decreases_to!(*value => value.data));
                }
                let c = value.data.compile(value.span, scopes)?;
                Ok(Chunk::new(Instruction::Return(c), span))
            },
        }
    }
}

impl Block {
    /// Compiles a block's statements inside a fresh frame of the chain: one
    /// instruction per statement, each statement compiled in the frames its
    /// predecessors left behind ([`stmts_lower_to`]). The chain leaves
    /// exactly as it came, and compilation succeeds exactly when every
    /// statement compiles.
    pub fn compile(&self, span: Span, scopes: &mut CompilerScope) -> (r: Result<
        Chunk<Vec<Chunk<Instruction>>>,
        Error,
    >)
        ensures
            final(scopes).frames_view() == old(scopes).frames_view(),
            r matches Ok(c) ==> c.span == span && stmts_lower_to(
                self.body@,
                old(scopes).frames_view().push(Seq::empty()),
                c.data@,
            ),
            r is Ok <==> stmts_compile(self.body@),
            r matches Err(e) ==> e.message_view()
                == "Only variables and properties can be assigned to."@,
        decreases *self, 0int,
    {
        let ghost s0 = scopes.frames_view();
        scopes.enter();
        let ghost base = s0.push(Seq::<Seq<char>>::empty());
        proof {
            assert(self.body@.take(0) =~= Seq::<Chunk<Statement>>::empty());
        }
        let mut out: Vec<Chunk<Instruction>> = Vec::new();
        let mut i: usize = 0;
        while i < self.body.len()
            invariant
                i <= self.body@.len(),
                out@.len() == i,
                s0 == old(scopes).frames_view(),
                base == s0.push(Seq::<Seq<char>>::empty()),
                scopes.frames_view() == stmts_frames(self.body@.take(i as int), base),
                stmts_lower_to(self.body@.take(i as int), base, out@),
                stmts_compile(self.body@.take(i as int)),
            decreases self.body@.len() - i,
        {
            proof {
                assert(decreases_to!(*self => (*self).body));
                assert(decreases_to!((*self).body => (*self).body@));
                assert(decreases_to!((*self).body@ => (*self).body@[i as int]));
                assert(decreases_to!((*self).body@[i as int] => (*self).body@[i as int].data));
                lemma_stmts_frames_shape(self.body@.take(i as int), base);
            }
            let stmt = &self.body[i];
            match stmt.data.compile(stmt.span, scopes) {
                Ok(c) => {
                    proof {
                        lemma_stmts_lower_push(self.body@.take(i as int), base, out@,
                            self.body@[i as int], c);
                        lemma_stmts_compile_push(self.body@.take(i as int), self.body@[i as int]);
                        lemma_stmts_frames_push(self.body@.take(i as int), base,
                            self.body@[i as int]);
                        assert(self.body@.take(i as int).push(self.body@[i as int])
                            =~= self.body@.take(i + 1));
                    }
                    out.push(c);
                },
                Err(e) => {
                    proof {
                        if stmts_compile(self.body@) {
                            lemma_stmts_compile_index(self.body@, i as int);
                        }
                        lemma_stmts_frames_shape(self.body@.take(i as int), base);
                        let cur = stmts_frames(self.body@.take(i as int), base);
                        let aft = stmt_frames(self.body@[i as int].data, cur);
                        assert(aft.len() == cur.len());
                        assert(forall|j: int| 0 <= j < cur.len() - 1 ==> aft[j] == cur[j]);
                        assert(scopes.frames_view() == aft);
                    }
                    scopes.exit();
                    proof {
                        assert forall|j: int| 0 <= j < s0.len() implies scopes.frames_view()[j]
                            == s0[j] by {
                            assert(base[j] == s0[j]);
                        }
                        assert(scopes.frames_view() =~= s0);
                    }
                    return Err(e);
                },
            }
            i = i + 1;
        }
        proof {
            assert(self.body@.take(i as int) =~= self.body@);
            lemma_stmts_frames_shape(self.body@, base);
            assert(scopes.frames_view() == stmts_frames(self.body@, base));
            assert(scopes.frames_view().len() == base.len());
        }
        scopes.exit();
        proof {
            assert forall|j: int| 0 <= j < s0.len() implies scopes.frames_view()[j] == s0[j] by {
                assert(stmts_frames(self.body@, base)[j] == base[j]);
                assert(base[j] == s0[j]);
            }
            assert(scopes.frames_view() =~= s0);
        }
        Ok(Chunk::new(out, span))
    }
}

} // verus!
