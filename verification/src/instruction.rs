use vstd::prelude::*;
use crate::owned::OwnedReporter;
use crate::span::Chunk;

verus! {

/// A statement of the lowered program: executed for its effect.
#[derive(Debug)]
pub enum Instruction {
    /// Store `value` under `name` in the map that `map` evaluates to.
    Assign { map: Chunk<Reporter>, name: Chunk<String>, value: Chunk<Reporter> },
    /// Re-evaluate `condition` in the enclosing scope before every iteration;
    /// run `body` in a fresh child scope each time.
    While { condition: Chunk<Reporter>, body: Chunk<Vec<Chunk<Instruction>>> },
    /// Bind each item the iterator yields to `name` in a fresh child scope
    /// and run `body` there.
    For { name: Chunk<String>, iter: Chunk<Reporter>, body: Chunk<Vec<Chunk<Instruction>>> },
    /// Short-circuit the enclosing block, making the operand its result.
    Return(Chunk<Reporter>),
    /// Evaluate the operand for effect only.
    Void(Reporter),
}

/// An expression of the lowered program: evaluates to a value.
#[derive(Debug)]
pub enum Reporter {
    /// A reference to an enclosing scope: 0 is the current scope, 1 its
    /// parent, and so on. Variable reads and writes go through this node.
    Parent(usize),
    Null,
    ConstStr(String),
    ConstInt(i32),
    /// A float literal, as its IEEE-754 binary64 bit pattern.
    ConstFloat(u64),
    ConstBool(bool),
    /// Runs nested instructions in a fresh child scope; yields the returned
    /// value, or the scope itself as a map reference if nothing returned.
    Block(Vec<Chunk<Instruction>>),
    Array(Chunk<Vec<Chunk<Reporter>>>),
    /// A function literal: evaluating it captures the current scope. The
    /// body is snapshotted into its owned form when the literal is compiled.
    Function { parameters: Vec<Chunk<String>>, body: OwnedReporter },
    /// Property access under a static name.
    Get { map: Chunk<Box<Reporter>>, name: Chunk<String> },
    /// Property access under a computed name.
    DynGet { map: Chunk<Box<Reporter>>, attr: Chunk<Box<Reporter>> },
    Call(Chunk<Box<Reporter>>, Vec<Chunk<Reporter>>),
    /// The stubbed import hook: looks a module up in the registry.
    Import(Chunk<String>),
    /// A conditional chain: the first true condition selects its branch;
    /// with no match the else branch runs, or the result is null.
    If { blocks: Vec<(Chunk<Reporter>, Chunk<Reporter>)>, else_block: Option<Chunk<Box<Reporter>>> },
    Add { a: Chunk<Box<Reporter>>, b: Chunk<Box<Reporter>> },
    Subtract { a: Chunk<Box<Reporter>>, b: Chunk<Box<Reporter>> },
    Multiply { a: Chunk<Box<Reporter>>, b: Chunk<Box<Reporter>> },
    Divide { a: Chunk<Box<Reporter>>, b: Chunk<Box<Reporter>> },
    Exponent { a: Chunk<Box<Reporter>>, b: Chunk<Box<Reporter>> },
    Concat { a: Chunk<Box<Reporter>>, b: Chunk<Box<Reporter>> },
    And { a: Chunk<Box<Reporter>>, b: Chunk<Box<Reporter>> },
    Or { a: Chunk<Box<Reporter>>, b: Chunk<Box<Reporter>> },
    Equality { a: Chunk<Box<Reporter>>, b: Chunk<Box<Reporter>> },
    /// One of the two comparison primitives. `<=` and `>=` exist only as
    /// compile-time sugar: `Not` wrapped around the opposite comparison.
    Inequality { a: Chunk<Box<Reporter>>, b: Chunk<Box<Reporter>>, op: Chunk<Comparison> },
    Not(Chunk<Box<Reporter>>),
    Negative(Chunk<Box<Reporter>>),
}

/// The two comparison primitives of the IR.
#[derive(Debug, Clone, Copy, PartialEq, Eq, Structural)]
pub enum Comparison {
    GreaterThan,
    LessThan,
}

} // verus!
