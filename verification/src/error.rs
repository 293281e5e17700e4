use vstd::prelude::*;
use crate::span::Span;

verus! {

/// A runtime or compile-time failure: a message bound to the source range of
/// the offending construct. Every component propagates the first error it
/// meets upward unchanged; nothing is retried and no partial result is kept.
#[derive(Debug, Clone)]
pub struct Error {
    message: String,
    span: Span,
}

impl Error {
    /// The message text, as a mathematical sequence of characters.
    pub closed spec fn message_view(&self) -> Seq<char> {
        self.message@
    }

    /// The source range the error is bound to.
    pub closed spec fn span_view(&self) -> Span {
        self.span
    }

    pub fn new(message: String, span: Span) -> (e: Error)
        ensures
            e.message_view() == message@,
            e.span_view() == span,
    {
        Error { message, span }
    }

    /// The same error, re-bound to a different source range.
    pub fn with_span(self, span: Span) -> (e: Error)
        ensures
            e.message_view() == self.message_view(),
            e.span_view() == span,
    {
        Error { message: self.message, span }
    }

    pub fn message(&self) -> (m: &String)
        ensures
            m@ == self.message_view(),
    {
        &self.message
    }

    pub fn span(&self) -> (s: Span)
        ensures
            s == self.span_view(),
    {
        self.span
    }
}

} // verus!
