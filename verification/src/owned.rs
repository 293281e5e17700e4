use vstd::prelude::*;
use std::rc::Rc;
use crate::instruction::Reporter;
use crate::span::Chunk;
use crate::span::Span;

verus! {

/// A closure body that owns every string it references, independent of any
/// borrowed source buffer. The lowered IR already owns its string data, so
/// the snapshot is the subtree itself; it is kept behind a shared handle so
/// a stored function value can hand its body out without copying the tree.
#[derive(Debug)]
pub struct OwnedReporter {
    tree: Rc<Reporter>,
    span: Span,
}

impl OwnedReporter {
    /// The snapshotted tree.
    pub closed spec fn tree_spec(&self) -> Reporter {
        *self.tree
    }

    /// The source range of the snapshotted tree.
    pub closed spec fn span_spec(&self) -> Span {
        self.span
    }

    /// Takes the snapshot: the tree is moved, not re-built, because nothing
    /// in it borrows from the source buffer.
    pub fn new(reporter: Chunk<Reporter>) -> (o: OwnedReporter)
        ensures
            o.tree_spec() == reporter.data,
            o.span_spec() == reporter.span,
    {
        OwnedReporter { tree: Rc::new(reporter.data), span: reporter.span }
    }

    /// Borrows the snapshotted tree.
    pub fn borrow(&self) -> (r: &Reporter)
        ensures
            *r == self.tree_spec(),
    {
        &*self.tree
    }

    /// The source range of the snapshotted tree.
    pub fn span(&self) -> (s: Span)
        ensures
            s == self.span_spec(),
    {
        self.span
    }

    /// A second handle to the same snapshot.
    pub fn share(&self) -> (o: OwnedReporter)
        ensures
            o.tree_spec() == self.tree_spec(),
            o.span_spec() == self.span_spec(),
    {
        OwnedReporter { tree: rc_dup(&self.tree), span: self.span }
    }
}

/// Relies on `Rc::clone`: a new handle to the same shared allocation, so the
/// value behind the new handle is the value behind the old one.
#[verifier::external_body]
fn rc_dup<T>(rc: &Rc<T>) -> (r: Rc<T>)
    ensures
        r == *rc,
{
    Rc::clone(rc)
}

} // verus!
