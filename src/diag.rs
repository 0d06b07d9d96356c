//! What the rewrite reports when a shape rule does not hold.

use vstd::prelude::*;
use crate::ast::Span;

verus! {

#[derive(Clone, Copy, Debug, PartialEq, Eq, Structural)]
pub enum ErrorKind {
    /// The marker stands on an item that is neither a module nor a method.
    MisplacedMarker,
    /// The marker is written more than once on one method.
    RepeatedMarker,
    /// The method has no parameter at all, so no receiver.
    MissingReceiver,
    /// The first parameter is a named binding other than `self`.
    StaticMethod,
    /// A parameter is bound by a pattern that is not a plain name.
    UnexpectedPattern,
    /// The method declares a return type other than `()`.
    ReturnsValue,
    /// The type of the `impl` block is not a single plain name.
    UnresolvableTarget,
    /// No item of the module carries the name of the `impl` block's type.
    TargetNotFound,
    /// The item of that name is not a structure with fields.
    UnsupportedTarget,
}

/// One report: where, and which rule failed.
#[derive(Clone, Copy, Debug, PartialEq, Eq, Structural)]
pub struct Diagnostic {
    pub span: Span,
    pub kind: ErrorKind,
}

} // verus!
