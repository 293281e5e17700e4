use vstd::prelude::*;

verus! {

/// A source position: zero-based line and column.
#[derive(Debug, Clone, Copy, PartialEq, Eq, Structural)]
pub struct Pos {
    pub ln: usize,
    pub col: usize,
}

/// A source range, attached to every syntax and IR node and to every runtime
/// error. Spans are informational only: nothing but error reporting ever
/// consults them.
#[derive(Debug, Clone, Copy, PartialEq, Eq, Structural)]
pub struct Span {
    pub start: Pos,
    pub end: Pos,
}

impl Span {
    /// The zero span, used where no better source range is available.
    pub fn zero() -> (s: Span)
        ensures
            s == Span::zero_spec(),
    {
        Span { start: Pos { ln: 0, col: 0 }, end: Pos { ln: 0, col: 0 } }
    }

    pub open spec fn zero_spec() -> Span {
        Span { start: Pos { ln: 0, col: 0 }, end: Pos { ln: 0, col: 0 } }
    }
}

impl Default for Span {
    fn default() -> (s: Span)
        ensures
            s == Span::zero_spec(),
    {
        Span::zero()
    }
}

/// A value of any kind paired with the source range it came from.
#[derive(Debug, Clone)]
pub struct Chunk<T> {
    pub data: T,
    pub span: Span,
}

impl<T> Chunk<T> {
    pub fn new(data: T, span: Span) -> (c: Chunk<T>)
        ensures
            c.data == data,
            c.span == span,
    {
        Chunk { data, span }
    }
}

impl<T> Chunk<T> {
    /// Boxes the payload.
    pub fn as_box(self) -> (c: Chunk<Box<T>>)
        ensures
            *c.data == self.data,
            c.span == self.span,
    {
        Chunk { data: Box::new(self.data), span: self.span }
    }
}

impl<T> Chunk<Box<T>> {
    /// Moves the boxed payload out of its box.
    pub fn unbox(self) -> (c: Chunk<T>)
        ensures
            c.data == *self.data,
            c.span == self.span,
    {
        Chunk { data: *self.data, span: self.span }
    }
}

} // verus!
