use vstd::prelude::*;
use crate::span::Chunk;

verus! {

/// A parsed expression, as the parser hands it to the scope resolver. All
/// string data is owned, so the tree is independent of the source buffer.
/// Float literals carry their IEEE-754 binary64 bit pattern.
#[derive(Debug)]
pub enum Expression {
    Null,
    Str(String),
    Int(i32),
    Float(u64),
    Bool(bool),
    Array(Vec<Chunk<Expression>>),
    Function { parameters: Vec<Chunk<String>>, body: Chunk<Box<Expression>> },
    Variable(String),
    GetProp(Chunk<Box<Expression>>, Chunk<String>),
    DynProp(Chunk<Box<Expression>>, Chunk<Box<Expression>>),
    Call { value: Chunk<Box<Expression>>, args: Vec<Chunk<Expression>> },
    Block(Block),
    If { blocks: Vec<(Chunk<Expression>, Chunk<Expression>)>, else_block: Option<Chunk<Box<Expression>>> },
    Import(Chunk<String>),
    BinaryOp { a: Chunk<Box<Expression>>, b: Chunk<Box<Expression>>, op: Chunk<Operation> },
    UnaryOp { a: Chunk<Box<Expression>>, op: Chunk<UnaryOperation> },
    Group(Box<Expression>),
}

/// An infix operator as parsed. The derived order is the parser's precedence
/// order; the scope resolver only lowers the already-shaped tree.
#[derive(Debug, PartialEq, Eq, PartialOrd, Ord, Clone, Copy, Structural)]
pub enum Operation {
    Concat,
    Exponent,
    Multiply,
    Divide,
    Add,
    Subtract,
    Equals,
    NotEquals,
    Lt,
    LtEqual,
    Gt,
    GtEqual,
    And,
    Or,
}

#[derive(Debug, PartialEq, Eq, Clone, Copy, Structural)]
pub enum UnaryOperation {
    Not,
    Negative,
}

/// A parsed statement.
#[derive(Debug)]
pub enum Statement {
    Assign { name: Chunk<Expression>, op: Chunk<AssignOperator>, value: Chunk<Expression> },
    Expr(Expression),
    While { cond: Chunk<Expression>, body: Chunk<Block> },
    For { name: Chunk<String>, iter: Chunk<Expression>, body: Chunk<Block> },
    Return(Chunk<Expression>),
}

/// The five assignment operators; all but `Set` desugar to a read, an
/// arithmetic step, and a write of the same binding.
#[derive(Debug, PartialEq, Eq, Clone, Copy, Structural)]
pub enum AssignOperator {
    Plain,
    Add,
    Subtract,
    Multiply,
    Divide,
}

/// A parsed sequence of statements.
#[derive(Debug)]
pub struct Block {
    pub body: Vec<Chunk<Statement>>,
}

} // verus!
